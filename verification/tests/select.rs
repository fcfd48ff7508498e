use dispersion::release::{PrismArtifact, PrismRelease};
use dispersion::select::{
    passes_name_rules, passes_qt_rule, select_valid_artifacts, split_build_id, SelectError,
};
use dispersion::system::InstallationType;

fn artifact(name: &str) -> PrismArtifact {
    PrismArtifact {
        node_id: format!("node-{}", name),
        name: name.to_string(),
        size_in_bytes: 1024,
        url: format!("https://example.org/assets/{}", name),
        download_url: format!("https://example.org/download/{}", name),
        created_at: 1_700_000_000,
        updated_at: 1_700_000_100,
    }
}

fn release(names: &[&str]) -> PrismRelease {
    PrismRelease {
        name: "Release".to_string(),
        tag: "9.2".to_string(),
        created_at: 1_700_000_000,
        assets: names.iter().map(|name| artifact(name)).collect(),
        body: None,
    }
}

fn selected(
    names: &[&str],
    build: &str,
    installation_type: InstallationType,
    system_is_arm: bool,
) -> Result<Vec<String>, SelectError> {
    let release = release(names);
    select_valid_artifacts(&release, build.to_string(), installation_type, system_is_arm)
        .map(|found| found.iter().map(|asset| asset.name.clone()).collect())
}

fn kept(names: &[&str]) -> Result<Vec<String>, SelectError> {
    Ok(names.iter().map(|name| name.to_string()).collect())
}

#[test]
fn portable_windows_qt6_matrix() {
    let portable = InstallationType::Portable;
    assert_eq!(
        selected(&["prism-windows-qt6-portable.zip"], "windows-qt6", portable, false),
        kept(&["prism-windows-qt6-portable.zip"])
    );
    assert_eq!(
        selected(&["prism-windows-qt5-portable.zip"], "windows-qt6", portable, false),
        Err(SelectError::NoArtifacts)
    );
    assert_eq!(
        selected(&["prism-windows-qt6.exe"], "windows-qt6", portable, false),
        Err(SelectError::NoArtifacts)
    );
    assert_eq!(
        selected(&["prism-linux-arm64-qt6.tar.gz"], "windows-qt6", portable, false),
        Err(SelectError::NoArtifacts)
    );
    assert_eq!(
        selected(
            &[
                "prism-windows-qt5-portable.zip",
                "prism-windows-qt6.exe",
                "prism-windows-qt6-portable.zip",
                "prism-linux-arm64-qt6.tar.gz",
            ],
            "windows-qt6",
            portable,
            false
        ),
        kept(&["prism-windows-qt6-portable.zip"])
    );
}

#[test]
fn arm_asset_needs_arm_host() {
    let names = ["prism-linux-arm64-qt6.tar.gz", "prism-linux-qt6.tar.gz"];
    assert_eq!(
        selected(&names, "linux-qt6", InstallationType::Normal, false),
        kept(&["prism-linux-qt6.tar.gz"])
    );
    assert_eq!(
        selected(&names, "linux-qt6", InstallationType::Normal, true),
        kept(&["prism-linux-arm64-qt6.tar.gz"])
    );
}

#[test]
fn names_and_build_are_read_in_lowercase() {
    assert_eq!(
        selected(
            &["PrismLauncher-Windows-MSVC-Portable-9.2.zip"],
            "Windows-MSVC-Qt6",
            InstallationType::Portable,
            false
        ),
        kept(&["PrismLauncher-Windows-MSVC-Portable-9.2.zip"])
    );
    assert_eq!(
        selected(
            &["PRISM-LINUX-QT6.TAR.GZ"],
            "Linux-Qt6",
            InstallationType::Normal,
            false
        ),
        kept(&["PRISM-LINUX-QT6.TAR.GZ"])
    );
}

#[test]
fn sidecar_files_are_dropped() {
    assert_eq!(
        selected(
            &["Prism-Linux-x86_64.AppImage.zsync", "Prism-Linux-x86_64.AppImage"],
            "Linux-Qt6",
            InstallationType::Appimage,
            false
        ),
        kept(&["Prism-Linux-x86_64.AppImage"])
    );
    // the sidecar suffix is read as published, not in lowercase
    assert_eq!(
        selected(&["prism-linux.ZSYNC"], "linux", InstallationType::Normal, false),
        kept(&["prism-linux.ZSYNC"])
    );
}

#[test]
fn application_images_only_for_image_installations() {
    let names = ["prism-linux-x86_64.AppImage", "prism-linux-qt6.tar.gz"];
    assert_eq!(
        selected(&names, "linux-qt6", InstallationType::Appimage, false),
        kept(&["prism-linux-x86_64.AppImage"])
    );
    assert_eq!(
        selected(&names, "linux-qt6", InstallationType::Normal, false),
        kept(&["prism-linux-qt6.tar.gz"])
    );
    assert_eq!(
        selected(&names, "linux-qt6", InstallationType::Flatpak, false),
        kept(&["prism-linux-qt6.tar.gz"])
    );
    assert_eq!(
        selected(&names, "linux-qt6", InstallationType::Snap, false),
        kept(&["prism-linux-qt6.tar.gz"])
    );
}

#[test]
fn legacy_assets_only_for_legacy_platforms() {
    let names = ["prism-windows-msvc-legacy-setup.exe", "prism-windows-msvc-setup.exe"];
    assert_eq!(
        selected(&names, "windows-msvc", InstallationType::Normal, false),
        kept(&["prism-windows-msvc-setup.exe"])
    );
    assert_eq!(
        selected(&names, "windows-msvc-legacy", InstallationType::Normal, false),
        kept(&["prism-windows-msvc-legacy-setup.exe"])
    );
}

#[test]
fn windows_outside_portable_takes_no_archive() {
    let names = [
        "prism-windows-qt6.zip",
        "prism-windows-qt6.tar.gz",
        "prism-windows-qt6-setup.exe",
    ];
    assert_eq!(
        selected(&names, "windows-qt6", InstallationType::Normal, false),
        kept(&["prism-windows-qt6-setup.exe"])
    );
    // other platforms may take archives
    assert_eq!(
        selected(&["prism-macos-qt6.zip"], "macos-qt6", InstallationType::Normal, false),
        kept(&["prism-macos-qt6.zip"])
    );
}

#[test]
fn portable_flag_must_match_installation() {
    let names = ["prism-linux-portable-qt6.tar.gz", "prism-linux-qt6.tar.gz"];
    assert_eq!(
        selected(&names, "linux-qt6", InstallationType::Portable, false),
        kept(&["prism-linux-portable-qt6.tar.gz"])
    );
    assert_eq!(
        selected(&names, "linux-qt6", InstallationType::Normal, false),
        kept(&["prism-linux-qt6.tar.gz"])
    );
}

#[test]
fn qt_version_defaults_to_six() {
    let names = ["prism-linux-qt5.tar.gz", "prism-linux-qt6.tar.gz", "prism-linux.tar.gz"];
    assert_eq!(
        selected(&names, "linux", InstallationType::Normal, false),
        kept(&["prism-linux-qt6.tar.gz", "prism-linux.tar.gz"])
    );
    assert_eq!(
        selected(&names, "linux-qt5", InstallationType::Normal, false),
        kept(&["prism-linux-qt5.tar.gz", "prism-linux.tar.gz"])
    );
}

#[test]
fn qt_versions_compare_as_numbers() {
    assert_eq!(
        selected(&["prism-linux-qt6.tar.gz"], "linux-qt06", InstallationType::Normal, false),
        kept(&["prism-linux-qt6.tar.gz"])
    );
    assert_eq!(
        selected(&["prism-linux-qt006.tar.gz"], "linux-qt6", InstallationType::Normal, false),
        kept(&["prism-linux-qt006.tar.gz"])
    );
    assert_eq!(
        selected(&["prism-linux-qt16.tar.gz"], "linux-qt6", InstallationType::Normal, false),
        Err(SelectError::NoArtifacts)
    );
}

#[test]
fn empty_qt_version_rejects_marked_assets() {
    let names = ["prism-linux-qt6.tar.gz", "prism-linux.tar.gz"];
    assert_eq!(
        selected(&names, "linux-qt", InstallationType::Normal, false),
        kept(&["prism-linux.tar.gz"])
    );
}

#[test]
fn non_numeric_qt_versions_count_as_zero() {
    // the requested version reads as zero, and so does a marker of zero
    assert_eq!(
        selected(&["prism-linux-qt0.tar.gz"], "linux-qtx", InstallationType::Normal, false),
        kept(&["prism-linux-qt0.tar.gz"])
    );
    // digits of another script are a marker, but no number
    assert_eq!(
        selected(
            &["prism-linux-qt\u{0666}.tar.gz"],
            "linux-qt6",
            InstallationType::Normal,
            false
        ),
        Err(SelectError::NoArtifacts)
    );
    assert_eq!(
        selected(
            &["prism-linux-qt\u{0666}.tar.gz"],
            "linux-qtx",
            InstallationType::Normal,
            false
        ),
        kept(&["prism-linux-qt\u{0666}.tar.gz"])
    );
}

#[test]
fn first_marker_in_the_name_decides() {
    assert_eq!(
        selected(&["prism-qt5-linux-qt6.tar.gz"], "linux-qt6", InstallationType::Normal, false),
        Err(SelectError::NoArtifacts)
    );
    assert_eq!(
        selected(&["prism-qt5-linux-qt6.tar.gz"], "linux-qt5", InstallationType::Normal, false),
        kept(&["prism-qt5-linux-qt6.tar.gz"])
    );
    // "-qt" without digits is no marker
    assert_eq!(
        selected(&["prism-qt-linux-qt6.tar.gz"], "linux-qt6", InstallationType::Normal, false),
        kept(&["prism-qt-linux-qt6.tar.gz"])
    );
}

#[test]
fn published_order_is_kept() {
    let names = ["c-linux.tar.gz", "a-linux.tar.gz", "skip-windows.exe", "b-linux.tar.gz"];
    assert_eq!(
        selected(&names, "linux", InstallationType::Normal, false),
        kept(&["c-linux.tar.gz", "a-linux.tar.gz", "b-linux.tar.gz"])
    );
}

#[test]
fn selection_hands_out_the_listed_assets() {
    let release = release(&["prism-linux-qt6.tar.gz", "prism-windows-qt6.exe"]);
    let found = select_valid_artifacts(
        &release,
        "linux-qt6".to_string(),
        InstallationType::Normal,
        false,
    )
    .unwrap();
    assert_eq!(found.len(), 1);
    assert!(std::ptr::eq(found[0], &release.assets[0]));
    assert_eq!(found[0].download_url, "https://example.org/download/prism-linux-qt6.tar.gz");
}

#[test]
fn nothing_matches_is_an_error() {
    assert_eq!(
        selected(&[], "linux-qt6", InstallationType::Normal, false),
        Err(SelectError::NoArtifacts)
    );
    assert_eq!(
        selected(&["prism-windows-qt6.exe"], "linux-qt6", InstallationType::Normal, false),
        Err(SelectError::NoArtifacts)
    );
}

#[test]
fn empty_platform_matches_nothing() {
    assert_eq!(
        selected(&["prism-linux-qt6.tar.gz"], "", InstallationType::Normal, false),
        Err(SelectError::NoArtifacts)
    );
    assert_eq!(
        selected(&["prism-linux-qt6.tar.gz"], "-qt6", InstallationType::Normal, false),
        Err(SelectError::NoArtifacts)
    );
}

#[test]
fn build_identifier_splits_at_first_qt() {
    let target = split_build_id("windows-msvc-qt6");
    assert_eq!(target.platform, "windows-msvc");
    assert_eq!(target.qt_version, "6");
    let target = split_build_id("linux");
    assert_eq!(target.platform, "linux");
    assert_eq!(target.qt_version, "6");
    let target = split_build_id("linux-qt5-qt6");
    assert_eq!(target.platform, "linux");
    assert_eq!(target.qt_version, "5-qt6");
    let target = split_build_id("linux-qt");
    assert_eq!(target.platform, "linux");
    assert_eq!(target.qt_version, "");
    let target = split_build_id("-qt6");
    assert_eq!(target.platform, "");
    assert_eq!(target.qt_version, "6");
}

#[test]
fn name_rules_on_given_names() {
    let normal = InstallationType::Normal;
    assert!(passes_name_rules("Prism-Linux.tar.gz", "prism-linux.tar.gz", "linux", normal, false));
    assert!(!passes_name_rules("Prism-Linux.tar.gz", "prism-linux.tar.gz", "", normal, false));
    assert!(!passes_name_rules("Prism-Linux.tar.gz", "prism-linux.tar.gz", "macos", normal, false));
    assert!(!passes_name_rules("a-linux.zsync", "a-linux.zsync", "linux", normal, false));
    assert!(!passes_name_rules("a-linux", "a-linux", "linux", normal, true));
    assert!(passes_name_rules("a-linux-arm64", "a-linux-arm64", "linux", normal, true));
    assert!(!passes_name_rules(
        "a-linux-portable",
        "a-linux-portable",
        "linux",
        InstallationType::Appimage,
        false
    ));
}

#[test]
fn qt_rule_on_given_markers() {
    assert!(passes_qt_rule(&None, "6"));
    assert!(passes_qt_rule(&None, ""));
    assert!(passes_qt_rule(&Some("6".to_string()), "6"));
    assert!(passes_qt_rule(&Some("06".to_string()), "+6"));
    assert!(!passes_qt_rule(&Some("5".to_string()), "6"));
    assert!(!passes_qt_rule(&Some("6".to_string()), ""));
    assert!(passes_qt_rule(&Some("0".to_string()), "six"));
    assert!(passes_qt_rule(&Some("99999999999".to_string()), "0"));
}
