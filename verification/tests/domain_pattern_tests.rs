use moltis_core::domain_pattern::DomainPattern;

#[test]
fn test_domain_pattern_exact() {
    let p = DomainPattern::parse("github.com");
    assert!(p.matches("github.com"));
    assert!(p.matches("GitHub.com"));
    assert!(!p.matches("api.github.com"));
    assert!(!p.matches("notgithub.com"));
}

#[test]
fn test_domain_pattern_wildcard_subdomain() {
    let p = DomainPattern::parse("*.github.com");
    assert!(p.matches("api.github.com"));
    assert!(p.matches("raw.github.com"));
    assert!(p.matches("github.com"));
    assert!(!p.matches("notgithub.com"));
}

#[test]
fn test_domain_pattern_wildcard() {
    let p = DomainPattern::parse("*");
    assert!(p.matches("anything.com"));
    assert!(p.matches("evil.org"));
}

#[test]
fn test_domain_pattern_case_insensitive() {
    let p = DomainPattern::parse("GitHub.COM");
    assert!(p.matches("github.com"));
    assert!(p.matches("GITHUB.COM"));
}

#[test]
fn parse_gives_the_three_kinds() {
    assert_eq!(DomainPattern::parse("*"), DomainPattern::Wildcard);
    assert_eq!(
        DomainPattern::parse("*.Example.ORG"),
        DomainPattern::WildcardSubdomain("example.org".to_string())
    );
    assert_eq!(
        DomainPattern::parse("Example.ORG"),
        DomainPattern::Exact("example.org".to_string())
    );
}

#[test]
fn parse_trims_surrounding_white_space() {
    assert_eq!(DomainPattern::parse("  *  "), DomainPattern::Wildcard);
    assert_eq!(
        DomainPattern::parse("\t*.npmjs.org\r\n"),
        DomainPattern::WildcardSubdomain("npmjs.org".to_string())
    );
    assert_eq!(
        DomainPattern::parse(" github.com\u{a0}"),
        DomainPattern::Exact("github.com".to_string())
    );
    assert_eq!(DomainPattern::parse(""), DomainPattern::Exact(String::new()));
    assert_eq!(DomainPattern::parse("   "), DomainPattern::Exact(String::new()));
}

#[test]
fn parse_keeps_inner_white_space_and_odd_stars() {
    assert_eq!(
        DomainPattern::parse("a b"),
        DomainPattern::Exact("a b".to_string())
    );
    assert_eq!(
        DomainPattern::parse("**"),
        DomainPattern::Exact("**".to_string())
    );
    assert_eq!(
        DomainPattern::parse("*."),
        DomainPattern::WildcardSubdomain(String::new())
    );
    assert_eq!(
        DomainPattern::parse("*x.com"),
        DomainPattern::Exact("*x.com".to_string())
    );
}

#[test]
fn lower_casing_is_ascii_only() {
    let p = DomainPattern::parse("BÜCHER.example");
    assert_eq!(p, DomainPattern::Exact("bÜcher.example".to_string()));
    assert!(p.matches("bÜcher.EXAMPLE"));
    assert!(!p.matches("bücher.example"));
}

#[test]
fn wildcard_matches_every_domain() {
    let p = DomainPattern::parse("*");
    for d in ["", "a", "A.B.C", "localhost", "exa mple", "*.x", "日本.jp"] {
        assert!(p.matches(d));
    }
}

#[test]
fn a_pattern_matches_its_own_source() {
    for d in ["github.com", "GitHub.COM", "*.github.com", "*", "a", "*.", "x.*"] {
        let p = DomainPattern::parse(d);
        assert!(p.matches(d));
        assert!(p.matches(&d.to_ascii_uppercase()));
        assert!(p.matches(&d.to_ascii_lowercase()));
    }
}

#[test]
fn matching_does_not_trim_the_candidate() {
    let p = DomainPattern::parse(" github.com ");
    assert!(p.matches("github.com"));
    assert!(!p.matches(" github.com "));
}

#[test]
fn wildcard_subdomain_needs_a_label_boundary() {
    let p = DomainPattern::parse("*.github.com");
    assert!(p.matches("github.com"));
    assert!(p.matches("API.GitHub.com"));
    assert!(p.matches("a.b.github.com"));
    assert!(p.matches(".github.com"));
    assert!(!p.matches("notgithub.com"));
    assert!(!p.matches("github.com.evil.org"));
    assert!(!p.matches("ithub.com"));
    assert!(!p.matches(""));
}

#[test]
fn render_writes_the_pattern_back() {
    assert_eq!(DomainPattern::parse("*").render(), "*");
    assert_eq!(DomainPattern::parse("*.NPMJS.org").render(), "*.npmjs.org");
    assert_eq!(DomainPattern::parse(" GitHub.com ").render(), "github.com");
}
