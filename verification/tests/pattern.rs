use angular_migrator::pattern::{compile, escape, flag_pattern_text, replace_all, rewrite_text, strip_flags};

#[test]
fn escapes_meta_characters() {
    assert_eq!(escape("--prod"), "\\-\\-prod");
    assert_eq!(escape("a.b*c"), "a\\.b\\*c");
    assert_eq!(escape("plain"), "plain");
}

#[test]
fn flag_pattern_shape() {
    assert_eq!(flag_pattern_text("--aot"), "\\s+\\-\\-aot\\b");
}

#[test]
fn compiles_and_replaces() {
    let p = compile("a+").unwrap();
    assert_eq!(p.source(), "a+");
    assert_eq!(replace_all(&p, "caaat", "o"), "cot");
    assert_eq!(rewrite_text(&p, "xyz", "o"), None);
    assert_eq!(rewrite_text(&p, "xaz", "o"), Some("xoz".to_string()));
}

#[test]
fn invalid_pattern_message() {
    let err = compile("(").err().unwrap();
    assert!(err.starts_with("invalid regex `(`: "));
}

#[test]
fn strips_several_flags() {
    let flags = vec!["--prod".to_string(), "--aot".to_string()];
    assert_eq!(strip_flags("ng build --prod --aot --base-href /", &flags), "ng build --base-href /");
    assert_eq!(strip_flags("ng build --production", &flags), "ng build --production");
}
