use taill::pattern::Pattern;

fn compile(pat: &str) -> Pattern {
    Pattern::new(&pat.as_bytes().to_vec()).expect("pattern should compile")
}

fn accepts(pat: &str, name: &str) -> bool {
    compile(pat).matches(&name.as_bytes().to_vec())
}

#[test]
fn literal_pattern_matches_itself_only() {
    assert!(accepts("app.log", "app.log"));
    assert!(!accepts("app.log", "app.txt"));
    assert!(!accepts("app.log", "app.log.1"));
    assert!(!accepts("app.log", "xapp.log"));
}

#[test]
fn star_matches_any_run_including_empty() {
    assert!(accepts("app-*.log", "app-1.log"));
    assert!(accepts("app-*.log", "app-.log"));
    assert!(accepts("app-*.log", "app-2024-01-01.log"));
    assert!(!accepts("app-*.log", "app-1.txt"));
    assert!(!accepts("app-*.log", "xapp-1.log"));
    assert!(accepts("*", ""));
    assert!(accepts("*", "anything"));
    assert!(accepts("a*b*c", "aXXbYYc"));
    assert!(!accepts("a*b*c", "acb"));
}

#[test]
fn question_matches_exactly_one_byte() {
    assert!(accepts("?at", "cat"));
    assert!(accepts("?at", "bat"));
    assert!(!accepts("?at", "at"));
    assert!(!accepts("?at", "flat"));
}

#[test]
fn class_matches_listed_bytes() {
    assert!(accepts("[cb]at", "cat"));
    assert!(accepts("[cb]at", "bat"));
    assert!(!accepts("[cb]at", "rat"));
}

#[test]
fn class_range_is_inclusive() {
    assert!(accepts("log.[0-9]", "log.0"));
    assert!(accepts("log.[0-9]", "log.9"));
    assert!(!accepts("log.[0-9]", "log.a"));
    assert!(accepts("[a-z][a-z]", "ok"));
    assert!(!accepts("[a-z][a-z]", "OK"));
}

#[test]
fn negated_class_matches_everything_else() {
    assert!(accepts("[!0-9]x", "ax"));
    assert!(!accepts("[!0-9]x", "7x"));
    assert!(!accepts("[!abc]", "b"));
    assert!(accepts("[!abc]", "d"));
}

#[test]
fn closing_bracket_first_is_a_literal_member() {
    assert!(accepts("[]]", "]"));
    assert!(!accepts("[]]", "["));
    assert!(accepts("[!]]", "x"));
    assert!(!accepts("[!]]", "]"));
}

#[test]
fn dash_at_class_edge_is_literal() {
    assert!(accepts("[a-]", "a"));
    assert!(accepts("[a-]", "-"));
    assert!(!accepts("[a-]", "b"));
    assert!(accepts("[-z]", "-"));
    assert!(accepts("[-z]", "z"));
}

#[test]
fn empty_pattern_matches_only_empty_name() {
    assert!(accepts("", ""));
    assert!(!accepts("", "a"));
}

#[test]
fn unclosed_class_fails_at_construction() {
    assert!(Pattern::new(&b"[abc".to_vec()).is_err());
    assert!(Pattern::new(&b"app-[0-9.log".to_vec()).is_err());
    assert!(Pattern::new(&b"[".to_vec()).is_err());
    assert!(Pattern::new(&b"[!".to_vec()).is_err());
    assert!(Pattern::new(&b"[]".to_vec()).is_err());
}

#[test]
fn valid_patterns_compile() {
    assert!(Pattern::new(&b"*.log".to_vec()).is_ok());
    assert!(Pattern::new(&b"[a-z]*[0-9]".to_vec()).is_ok());
    assert!(Pattern::new(&b"plain-name.txt".to_vec()).is_ok());
}

#[test]
fn agrees_with_reference_globber() {
    let cases: &[(&str, &str)] = &[
        ("app-*.log", "app-1.log"),
        ("app-*.log", "app-1.txt"),
        ("*.log", "x.log"),
        ("*.log", "x.log.bak"),
        ("?at", "cat"),
        ("?at", "at"),
        ("[a-z]og", "dog"),
        ("[a-z]og", "Dog"),
        ("[!a]bc", "xbc"),
        ("[!a]bc", "abc"),
        ("*", "anything-at-all"),
        ("a*b*c", "aXbYc"),
        ("a*b*c", "abX"),
    ];
    for (pat, name) in cases {
        let reference = glob::Pattern::new(pat).unwrap().matches(name);
        assert_eq!(
            accepts(pat, name),
            reference,
            "disagreement on pattern {:?} against {:?}",
            pat,
            name
        );
    }
}
