use pi_build::selector::PackageSelector;

fn parts(s: &str) -> (Option<String>, Option<String>, String, Option<String>) {
    let p = PackageSelector::parse(s).unwrap();
    (p.recipe, p.prefix, p.package, p.version)
}

fn some(s: &str) -> Option<String> {
    Some(s.to_string())
}

#[test]
fn parse_full_selector() {
    let s = PackageSelector::parse("main/go:github.com/gin=1.9.*").unwrap();
    assert_eq!(s.recipe.as_deref(), Some("main"));
    assert_eq!(s.prefix.as_deref(), Some("go"));
    assert_eq!(s.package, "github.com/gin");
    assert_eq!(s.version.as_deref(), Some("1.9.*"));
    assert_eq!(s.format(), "main/go:github.com/gin=1.9.*");
}

#[test]
fn parse_plain_name() {
    assert_eq!(parts("rust"), (None, None, "rust".to_string(), None));
    assert_eq!(parts("rust=1.70.0"), (None, None, "rust".to_string(), some("1.70.0")));
}

#[test]
fn parse_repository_and_version() {
    assert_eq!(parts("pi/rust=stable"), (some("pi"), None, "rust".to_string(), some("stable")));
}

#[test]
fn parse_colon_before_slash_keeps_slash_in_package() {
    assert_eq!(parts("go:github.com/gin"), (None, some("go"), "github.com/gin".to_string(), None));
}

#[test]
fn parse_version_is_what_follows_first_equals() {
    assert_eq!(parts("a=1=2"), (None, None, "a".to_string(), some("1=2")));
    assert_eq!(parts("a="), (None, None, "a".to_string(), some("")));
}

#[test]
fn parse_rejects_empty_package() {
    assert!(PackageSelector::parse("").is_none());
    assert!(PackageSelector::parse("repo/").is_none());
    assert!(PackageSelector::parse("go:=1").is_none());
    assert!(PackageSelector::parse("=1.0").is_none());
}

#[test]
fn format_gives_back_the_text_parsed() {
    for text in [
        "rust",
        "rust=1.70.0",
        "pi/rust",
        "pi/npm:left-pad=1.*",
        "go:github.com/gin-gonic/gin",
        "/x",
        ":x",
        "a/b/c:d=e=f",
    ] {
        let p = PackageSelector::parse(text).unwrap();
        assert_eq!(p.format(), text);
        let again = PackageSelector::parse(&p.format()).unwrap();
        assert_eq!(again.recipe, p.recipe);
        assert_eq!(again.prefix, p.prefix);
        assert_eq!(again.package, p.package);
        assert_eq!(again.version, p.version);
    }
}
