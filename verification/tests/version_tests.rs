use cargo_ver::Version;
use cargo_ver::VersionField;
use cargo_ver::VersionParseError;

#[test]
fn parse_format_round_trip() {
    for s in ["1.2.3", "0.0.0", "10.20.30", "4294967295.0.1"] {
        let v = Version::parse(s).unwrap();
        assert_eq!(v.format(), s);
    }
}

#[test]
fn parse_with_tag_does_not_round_trip() {
    let v = Version::parse("1.2.3.rc1").unwrap();
    assert_eq!(v.format(), "1.2.3rc1");
}

#[test]
fn tag_may_contain_dots() {
    let v = Version::parse("1.2.3.a.b.c").unwrap();
    assert_eq!(v.format(), "1.2.3a.b.c");
}

#[test]
fn empty_trailing_tag_formats_invisibly() {
    let v = Version::parse("1.2.3.").unwrap();
    assert_eq!(v.format(), "1.2.3");
    let bare = Version::parse("1.2.3").unwrap();
    assert!(v != bare);
}

#[test]
fn missing_fields_are_named() {
    assert_eq!(
        Version::parse("1.2"),
        Err(VersionParseError::MissingField(VersionField::Patch))
    );
    assert_eq!(
        Version::parse("1"),
        Err(VersionParseError::MissingField(VersionField::Minor))
    );
    assert_eq!(
        VersionParseError::MissingField(VersionField::Patch).message(),
        "the `patch` field is missing"
    );
}

#[test]
fn invalid_integers_are_named() {
    assert_eq!(
        Version::parse(""),
        Err(VersionParseError::InvalidInteger(VersionField::Major))
    );
    assert_eq!(
        Version::parse("a.2.3"),
        Err(VersionParseError::InvalidInteger(VersionField::Major))
    );
    assert_eq!(
        Version::parse("1.b.3"),
        Err(VersionParseError::InvalidInteger(VersionField::Minor))
    );
    assert_eq!(
        Version::parse("1.2.c"),
        Err(VersionParseError::InvalidInteger(VersionField::Patch))
    );
    assert_eq!(
        Version::parse("1.-2.3"),
        Err(VersionParseError::InvalidInteger(VersionField::Minor))
    );
    assert_eq!(
        VersionParseError::InvalidInteger(VersionField::Minor).message(),
        "the `minor` field must be a non-negative integer"
    );
}

#[test]
fn integer_fields_follow_u32_parsing() {
    let v = Version::parse("+1.02.3").unwrap();
    assert_eq!(v.format(), "1.2.3");
    assert_eq!(
        Version::parse("4294967296.0.0"),
        Err(VersionParseError::InvalidInteger(VersionField::Major))
    );
    assert!(Version::parse("4294967295.0.0").is_ok());
}

#[test]
fn bump_patch_raises_only_patch() {
    let mut v = Version::parse("1.2.3").unwrap();
    v.bump_patch();
    assert_eq!(v.format(), "1.2.4");
}

#[test]
fn bump_minor_zeroes_patch() {
    let mut v = Version::parse("1.2.3").unwrap();
    v.bump_minor();
    assert_eq!(v.format(), "1.3.0");
}

#[test]
fn bump_major_zeroes_minor_and_patch() {
    let mut v = Version::parse("1.2.3").unwrap();
    v.bump_major();
    assert_eq!(v.format(), "2.0.0");
}

#[test]
fn bump_keeps_the_tag() {
    let mut v = Version::parse("1.2.3.pre").unwrap();
    v.bump_major();
    assert_eq!(v.format(), "2.0.0pre");
}

#[test]
fn equality_is_structural_including_tag() {
    let a = Version::parse("1.2.3").unwrap();
    let b = Version::parse("1.2.3").unwrap();
    let c = Version::parse("1.2.3.x").unwrap();
    let d = Version::parse("1.2.4").unwrap();
    assert!(a == b);
    assert!(a != c);
    assert!(a != d);
    assert!(a == a.clone());
}

#[test]
fn field_aliases_resolve_case_insensitively() {
    assert_eq!(VersionField::from_alias("patch"), Some(VersionField::Patch));
    assert_eq!(VersionField::from_alias("PAT"), Some(VersionField::Patch));
    assert_eq!(VersionField::from_alias("p"), Some(VersionField::Patch));
    assert_eq!(VersionField::from_alias("Minor"), Some(VersionField::Minor));
    assert_eq!(VersionField::from_alias("MIN"), Some(VersionField::Minor));
    assert_eq!(VersionField::from_alias("major"), Some(VersionField::Major));
    assert_eq!(VersionField::from_alias("mAj"), Some(VersionField::Major));
    assert_eq!(VersionField::from_alias(""), None);
    assert_eq!(VersionField::from_alias("patc"), None);
    assert_eq!(VersionField::from_alias("m"), None);
    assert_eq!(VersionField::from_alias("version"), None);
}

#[test]
fn at_limit_detects_the_largest_component() {
    let v = Version::parse("4294967295.0.0").unwrap();
    assert!(v.at_limit(VersionField::Major));
    assert!(!v.at_limit(VersionField::Minor));
    assert!(!v.at_limit(VersionField::Patch));
}
