use dispersion::system::{
    get_instalation_type, under_image_mount, EnvironmentProbe, InstallationType,
};

fn probe(flatpak: bool, snap: bool, image: bool, file: bool, dir: bool) -> EnvironmentProbe {
    EnvironmentProbe {
        flatpak_sentinel: flatpak,
        snap_variable: snap,
        image_mount: image,
        portable_file: file,
        portable_dir: dir,
    }
}

#[test]
fn flatpak_wins_over_everything() {
    assert_eq!(
        get_instalation_type(&probe(true, true, true, true, true)),
        InstallationType::Flatpak
    );
    assert_eq!(
        get_instalation_type(&probe(true, false, false, false, false)),
        InstallationType::Flatpak
    );
}

#[test]
fn snap_wins_without_flatpak() {
    assert_eq!(
        get_instalation_type(&probe(false, true, true, true, true)),
        InstallationType::Snap
    );
}

#[test]
fn image_mount_wins_over_portable() {
    assert_eq!(
        get_instalation_type(&probe(false, false, true, true, true)),
        InstallationType::Appimage
    );
}

#[test]
fn either_marker_makes_portable() {
    assert_eq!(
        get_instalation_type(&probe(false, false, false, true, false)),
        InstallationType::Portable
    );
    assert_eq!(
        get_instalation_type(&probe(false, false, false, false, true)),
        InstallationType::Portable
    );
    assert_eq!(
        get_instalation_type(&probe(false, false, false, true, true)),
        InstallationType::Portable
    );
}

#[test]
fn no_signal_is_normal() {
    assert_eq!(
        get_instalation_type(&probe(false, false, false, false, false)),
        InstallationType::Normal
    );
}

#[test]
fn every_probe_follows_the_order() {
    for bits in 0..32u32 {
        let p = probe(bits & 1 != 0, bits & 2 != 0, bits & 4 != 0, bits & 8 != 0, bits & 16 != 0);
        let expected = if p.flatpak_sentinel {
            InstallationType::Flatpak
        } else if p.snap_variable {
            InstallationType::Snap
        } else if p.image_mount {
            InstallationType::Appimage
        } else if p.portable_file || p.portable_dir {
            InstallationType::Portable
        } else {
            InstallationType::Normal
        };
        assert_eq!(get_instalation_type(&p), expected);
    }
}

#[test]
fn image_mount_is_told_by_the_prefix() {
    assert!(under_image_mount("/tmp/mount_abc/usr"));
    assert!(under_image_mount("/tmp/mount_abc"));
    assert!(under_image_mount("/tmp/mount_"));
    assert!(under_image_mount("/tmp/mount_/usr/bin"));
    assert!(!under_image_mount("/tmp/mount"));
    assert!(!under_image_mount("/tmp/mounts/abc"));
    assert!(!under_image_mount("/home/user/tmp/mount_abc"));
    assert!(!under_image_mount("tmp/mount_abc"));
    assert!(!under_image_mount("/TMP/MOUNT_abc"));
    assert!(!under_image_mount("."));
    assert!(!under_image_mount(""));
}
