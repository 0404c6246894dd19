use std::str::FromStr;

use celestia::paper::build_number::Build;
use celestia::paper::{Release, Version};

#[test]
fn semantic_version() {
    let raw = "1.21.9".to_owned();
    let version = Version {
        major: 1,
        minor: 21,
        patch: 9,
        release: None,
    };

    assert_eq!(raw.parse::<Version>().unwrap(), version);
    assert_eq!(version.to_string(), raw);
}

#[test]
fn calendar_version() {
    let raw = "26.2".to_owned();
    let version = Version {
        major: 26,
        minor: 2,
        patch: 0,
        release: None,
    };

    assert_eq!(raw.parse::<Version>().unwrap(), version);
    assert_eq!(version.to_string(), raw);
}

#[test]
fn pre() {
    let raw = "1.21.9-pre3".to_owned();
    let version = Version {
        major: 1,
        minor: 21,
        patch: 9,
        release: Some(Release::PreRelease(3)),
    };

    assert_eq!(raw.parse::<Version>().unwrap(), version);
    assert_eq!(version.to_string(), raw);
}

#[test]
fn rc1() {
    let raw = "1.21.9-rc1".to_owned();
    let version = Version {
        major: 1,
        minor: 21,
        patch: 9,
        release: Some(Release::ReleaseCandidate(1)),
    };

    assert_eq!(raw.parse::<Version>().unwrap(), version);
    assert_eq!(version.to_string(), raw);
}

#[test]
fn rc_2() {
    let raw = "26.2-rc-2".to_owned();
    let version = Version {
        major: 26,
        minor: 2,
        patch: 0,
        release: Some(Release::ReleaseCandidate(2)),
    };

    assert_eq!(raw.parse::<Version>().unwrap(), version);
    assert_eq!(version.to_string(), raw);
}

#[test]
fn compare() {
    assert!(Version::from_str("26.2").unwrap() > Version::from_str("26.1.2").unwrap());
}

#[test]
fn rejects_text_outside_the_grammar() {
    for raw in ["", "1", "1.", ".1", "1.21.", "1.21.9-", "1.21.9-pre", "1.21-beta1", "a.b", "1.21 ", "+1.21", "1.21.9-rc-"] {
        assert!(Version::parse(raw).is_err(), "{raw}");
        assert!(raw.parse::<Version>().is_err(), "{raw}");
    }
}

#[test]
fn number_too_large_is_an_error() {
    assert!(!Version::numbers_fit("4294967296.1"));
    assert!(Version::numbers_fit("4294967295.1"));
    assert!("4294967296.1".parse::<Version>().is_err());
    assert_eq!(
        "4294967295.1".parse::<Version>().unwrap(),
        Version { major: u32::MAX, minor: 1, patch: 0, release: None }
    );
}

#[test]
fn old_release_candidates_have_no_dash() {
    let version = Version { major: 1, minor: 20, patch: 0, release: Some(Release::ReleaseCandidate(2)) };
    assert_eq!(version.to_string(), "1.20-rc2");
    assert_eq!("1.20-rc2".parse::<Version>().unwrap(), version);
    assert_eq!("1.20-rc-2".parse::<Version>().unwrap(), version);
}

#[test]
fn zero_patch_is_not_written() {
    let version = "1.21.0".parse::<Version>().unwrap();
    assert_eq!(version, Version { major: 1, minor: 21, patch: 0, release: None });
    assert_eq!(version.to_string(), "1.21");
}

#[test]
fn text_round_trips() {
    for version in [
        Version { major: 0, minor: 0, patch: 0, release: None },
        Version { major: 1, minor: 21, patch: 4, release: Some(Release::PreRelease(10)) },
        Version { major: 26, minor: 1, patch: 3, release: Some(Release::ReleaseCandidate(7)) },
        Version { major: 25, minor: 4, patch: 0, release: Some(Release::ReleaseCandidate(1)) },
    ] {
        assert_eq!(Version::parse(&version.to_string()).unwrap(), version);
    }
}

#[test]
fn order_of_versions() {
    let v = |s: &str| Version::from_str(s).unwrap();
    assert!(v("1.21.9") < v("1.21.10"));
    assert!(v("1.21") < v("1.21.1"));
    assert!(v("1.21.9-pre3") < v("1.21.9-rc1"));
    assert!(v("1.21.9-pre3") < v("1.21.9-pre4"));
    assert!(v("1.21.9") < v("1.21.9-pre1"));
    assert!(v("2.0") > v("1.99.99"));
    assert!(!(v("26.2") < v("26.2")));
}

#[test]
fn default_version() {
    assert_eq!(Version::default(), Version { major: 26, minor: 2, patch: 0, release: None });
}

#[test]
fn build_numbers() {
    assert_eq!("123".parse::<Build>().unwrap(), Build(123));
    assert_eq!("+7".parse::<Build>().unwrap(), Build(7));
    assert!("".parse::<Build>().is_err());
    assert!("-1".parse::<Build>().is_err());
    assert!("4294967296".parse::<Build>().is_err());
    assert_eq!(Build(4294967295).to_string(), "4294967295");
    assert_eq!(Build::default(), Build(0));
}

#[test]
fn from_str_matches_parse() {
    assert_eq!(Version::from_str("1.21.4-rc2").unwrap(), Version::parse("1.21.4-rc2").unwrap());
    assert!(Version::from_str("1.21.x").is_err());
    assert_eq!(Build::from_str("42").unwrap(), Build(42));
    assert!(Build::from_str("4x").is_err());
}
