use pi_build::inspect::{inspect_version, parse_u32};
use pi_build::order::Order;
use pi_build::version::{ReleaseType, StructuredVersion};
use pi_build::wildcard::{match_version_with_wildcard, wildcard_regex};

fn version(components: &[u32], raw: &str) -> StructuredVersion {
    StructuredVersion { components: components.to_vec(), raw: raw.to_string() }
}

#[test]
fn test_match_simple_version() {
    assert!(match_version_with_wildcard("1.15.4", "1.15.4"));
    assert!(match_version_with_wildcard("1.15.4", "1.15.*"));
    assert!(match_version_with_wildcard("1.15.4", "1.*"));
    assert!(match_version_with_wildcard("1", "1.*"));
}

#[test]
fn test_match_elixir_version() {
    assert!(match_version_with_wildcard("1.15.4-otp-28", "1.*-otp-28"));
    assert!(match_version_with_wildcard("1.15.4-otp-28", "1.15.4-otp-28"));
    assert!(!match_version_with_wildcard("1.15.4-otp-27", "1.*-otp-28"));
}

#[test]
fn wildcard_regex_texts() {
    assert_eq!(wildcard_regex("1.15.4").as_deref(), Some("^1\\.15\\.4$"));
    assert_eq!(wildcard_regex("1.15.*").as_deref(), Some("^1\\.15(\\..*)?$"));
    assert_eq!(wildcard_regex("1.*-otp-28").as_deref(), Some("^1\\..*\\-otp\\-28$"));
    assert_eq!(wildcard_regex("*"), None);
    assert_eq!(wildcard_regex("*.1"), None);
    assert_eq!(wildcard_regex("1.*.3").as_deref(), Some("^1(\\..*)?$"));
}

#[test]
fn wildcard_star_alone_matches_everything() {
    assert!(match_version_with_wildcard("anything at all", "*"));
    assert!(match_version_with_wildcard("", "*"));
}

#[test]
fn wildcard_literal_dot_is_not_any_character() {
    assert!(!match_version_with_wildcard("1x15", "1.15"));
    assert!(!match_version_with_wildcard("1.15.4", "1.15"));
    assert!(!match_version_with_wildcard("2.0", "1.*"));
}

#[test]
fn versions_order_by_components_then_text() {
    let a = version(&[1, 2], "1.2");
    let b = version(&[1, 10], "1.10");
    let c = version(&[1, 2, 0], "1.2.0");
    assert_eq!(a.compare(&b), Order::Less);
    assert_eq!(b.compare(&a), Order::Greater);
    assert_eq!(a.compare(&c), Order::Less);
    assert_eq!(a.compare(&a), Order::Equal);
    let d = version(&[1, 2], "1.2-rc1");
    assert_eq!(a.compare(&d), Order::Less);
    assert!(a.same(&version(&[1, 2], "1.2")));
    assert!(!a.same(&d));
}

#[test]
fn release_type_literals() {
    assert!(matches!(ReleaseType::parse("stable"), Some(ReleaseType::Stable)));
    assert!(matches!(ReleaseType::parse("Unstable"), Some(ReleaseType::Unstable)));
    assert!(matches!(ReleaseType::parse("TESTING"), Some(ReleaseType::Testing)));
    assert!(matches!(ReleaseType::parse("lts"), Some(ReleaseType::LTS)));
    match ReleaseType::parse("1.2-rc1") {
        Some(ReleaseType::Shape(s)) => assert_eq!(s, "1.2-rc1"),
        _ => panic!("a version-shaped literal is accepted"),
    }
    assert!(matches!(ReleaseType::parse("12"), Some(ReleaseType::Shape(_))));
    assert!(ReleaseType::parse("nightly").is_none());
    assert!(ReleaseType::parse("").is_none());
    assert!(ReleaseType::parse("1..2").is_none());
    assert!(ReleaseType::parse("1.2-").is_none());
    assert!(ReleaseType::parse("v1.2").is_none());
}

#[test]
fn release_type_names() {
    assert_eq!(ReleaseType::Stable.name(), "stable");
    assert_eq!(ReleaseType::Unstable.name(), "unstable");
    assert_eq!(ReleaseType::Testing.name(), "testing");
    assert_eq!(ReleaseType::LTS.name(), "lts");
    assert_eq!(ReleaseType::Shape("2.1".to_string()).name(), "2.1");
}

#[test]
fn parse_u32_values() {
    let chars = |s: &str| s.chars().collect::<Vec<char>>();
    assert_eq!(parse_u32(&chars("0")), Some(0));
    assert_eq!(parse_u32(&chars("007")), Some(7));
    assert_eq!(parse_u32(&chars("+42")), Some(42));
    assert_eq!(parse_u32(&chars("4294967295")), Some(4294967295));
    assert_eq!(parse_u32(&chars("4294967296")), None);
    assert_eq!(parse_u32(&chars("99999999999999999999999")), None);
    assert_eq!(parse_u32(&chars("")), None);
    assert_eq!(parse_u32(&chars("+")), None);
    assert_eq!(parse_u32(&chars("-1")), None);
    assert_eq!(parse_u32(&chars("1a")), None);
}

#[test]
fn inspect_version_reads_components_and_marker() {
    let v = inspect_version("1.70.0");
    assert_eq!(v.version.components, vec![1, 70, 0]);
    assert_eq!(v.version.raw, "1.70.0");
    assert!(matches!(v.release_type, ReleaseType::Stable));

    let v = inspect_version("v2.1.0-rc.1");
    assert_eq!(v.version.components, vec![2, 1, 0]);
    assert_eq!(v.version.raw, "v2.1.0-rc.1");
    assert!(matches!(v.release_type, ReleaseType::Testing));

    let v = inspect_version("3.0-NIGHTLY");
    assert_eq!(v.version.components, vec![3, 0]);
    assert!(matches!(v.release_type, ReleaseType::Unstable));

    let v = inspect_version("latest");
    assert!(v.version.components.is_empty());
    assert_eq!(v.version.raw, "latest");
    assert!(matches!(v.release_type, ReleaseType::Stable));
}
