use dispersion::version::{compare_tags, normalize, parse_semver, Version, VersionParse};

fn compare(a: &str, b: &str) -> Result<bool, VersionParse> {
    compare_tags(a.to_string(), b.to_string())
}

#[test]
fn equal_versions_are_not_newer() {
    assert_eq!(compare("1.2.3", "1.2.3"), Ok(false));
}

#[test]
fn higher_minor_is_newer() {
    assert_eq!(compare("1.3.0", "1.2.3"), Ok(true));
    assert_eq!(compare("1.2.3", "1.3.0"), Ok(false));
}

#[test]
fn two_components_pad_with_zero_patch() {
    assert_eq!(compare("1.2", "1.2.0"), Ok(false));
    assert_eq!(compare("1.2.0", "1.2"), Ok(false));
    assert_eq!(compare("1.3", "1.2.9"), Ok(true));
    assert_eq!(compare("9.2", "9.1"), Ok(true));
}

#[test]
fn bogus_first_argument_is_named() {
    assert_eq!(compare("bogus", "1.0.0"), Err(VersionParse::First));
}

#[test]
fn bogus_second_argument_is_named() {
    assert_eq!(compare("1.0.0", "bogus"), Err(VersionParse::Second));
}

#[test]
fn first_argument_is_read_first() {
    assert_eq!(compare("bogus", "also bogus"), Err(VersionParse::First));
}

#[test]
fn numbers_compare_as_numbers() {
    assert_eq!(compare("1.19.0", "1.5.0"), Ok(true));
    assert_eq!(compare("10.0.0", "9.9.9"), Ok(true));
    assert_eq!(compare("1.0.10", "1.0.9"), Ok(true));
    assert_eq!(compare("2.0.0", "10.0.0"), Ok(false));
}

#[test]
fn one_or_four_components_are_no_version() {
    assert_eq!(compare("1", "1.0.0"), Err(VersionParse::First));
    assert_eq!(compare("1.2.3.4", "1.0.0"), Err(VersionParse::First));
    assert_eq!(compare("1.0.0", ""), Err(VersionParse::Second));
    assert_eq!(compare("1.01.0", "1.0.0"), Err(VersionParse::First));
}

#[test]
fn release_is_newer_than_its_prerelease() {
    assert_eq!(compare("1.0.0", "1.0.0-alpha"), Ok(true));
    assert_eq!(compare("1.0.0-alpha", "1.0.0"), Ok(false));
    assert_eq!(compare("1.0.0-alpha.1", "1.0.0-alpha"), Ok(true));
    assert_eq!(compare("1.0.0-beta.11", "1.0.0-beta.2"), Ok(true));
    assert_eq!(compare("1.0.0-beta.2", "1.0.0-beta.11"), Ok(false));
    assert_eq!(compare("1.0.0-rc.1", "1.0.0-rc.1"), Ok(false));
}

#[test]
fn build_metadata_orders_equal_releases() {
    assert_eq!(compare("1.20.0+c144a98", "1.20.0+bc17664"), Ok(true));
    assert_eq!(compare("1.20.0+bc17664", "1.20.0"), Ok(true));
    assert_eq!(compare("1.20.0", "1.20.0+bc17664"), Ok(false));
}

#[test]
fn normalize_appends_patch_to_two_components() {
    assert_eq!(normalize("1.2"), "1.2.0");
    assert_eq!(normalize("1.2.3"), "1.2.3");
    assert_eq!(normalize("1"), "1");
    assert_eq!(normalize(""), "");
    assert_eq!(normalize("a.b"), "a.b.0");
    assert_eq!(normalize("1.2.3.4"), "1.2.3.4");
}

#[test]
fn parse_semver_hands_out_the_fields() {
    let v = parse_semver("12.34.56-rc.1+build.7").unwrap();
    assert_eq!(v.major, 12);
    assert_eq!(v.minor, 34);
    assert_eq!(v.patch, 56);
    assert_eq!(v.pre, "rc.1");
    assert_eq!(v.build, "build.7");
    let w = parse_semver("9.2").unwrap();
    assert_eq!((w.major, w.minor, w.patch), (9, 2, 0));
    assert_eq!(w.pre, "");
    assert_eq!(w.build, "");
    assert!(parse_semver("nine").is_none());
}

#[test]
fn newer_than_goes_by_numbers_then_tail() {
    let version = |major, minor, patch, pre: &str, build: &str| Version {
        major,
        minor,
        patch,
        pre: pre.to_string(),
        build: build.to_string(),
    };
    assert!(version(2, 0, 0, "", "").newer_than(&version(1, 9, 9, "", "")));
    assert!(!version(1, 0, 0, "", "").newer_than(&version(1, 0, 0, "", "")));
    assert!(version(1, 0, 0, "", "").newer_than(&version(1, 0, 0, "beta", "")));
    assert!(!version(1, 0, 0, "alpha", "").newer_than(&version(1, 0, 0, "beta", "")));
    assert!(version(1, 0, 0, "beta", "").newer_than(&version(1, 0, 0, "alpha", "")));
    assert!(version(1, 0, 0, "", "2").newer_than(&version(1, 0, 0, "", "1")));
}
