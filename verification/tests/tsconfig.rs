use angular_migrator::tsconfig::{edit_compiler_options, is_tsconfig_name, strip_jsonc, CompilerOptions};
use serde_json::Value;

#[test]
fn strips_comments_and_trailing_commas() {
    let input = r#"{
  // base config
  "extends": "./tsconfig.json",
  "compilerOptions": { "strict": true, },
  "angularCompilerOptions": { "enableIvy": true, /* legacy */ },
}"#;
    let cleaned = strip_jsonc(input);
    let v: Value = serde_json::from_str(&cleaned).unwrap();
    assert_eq!(v["compilerOptions"]["strict"], Value::Bool(true));
}

#[test]
fn strip_keeps_strings_with_slashes() {
    let input = r#"{ "a": "http://x/y", "b": "/* not a comment */" }"#;
    let cleaned = strip_jsonc(input);
    let v: Value = serde_json::from_str(&cleaned).unwrap();
    assert_eq!(v["a"], "http://x/y");
    assert_eq!(v["b"], "/* not a comment */");
}

#[test]
fn strip_exact_output() {
    assert_eq!(strip_jsonc("[1, 2, ] // x\n"), "[1, 2 ] \n");
    assert_eq!(strip_jsonc("{\"a\": 'x\\'y'}"), "{\"a\": 'x\\'y'}");
}

#[test]
fn tsconfig_names() {
    assert!(is_tsconfig_name("tsconfig.json"));
    assert!(is_tsconfig_name("tsconfig.app.json"));
    assert!(!is_tsconfig_name("package.json"));
}

fn options(entries: &[(&str, &str)]) -> CompilerOptions {
    CompilerOptions {
        entries: entries
            .iter()
            .map(|(k, v)| (k.to_string(), v.to_string()))
            .collect(),
    }
}

#[test]
fn edits_compiler_options() {
    let mut o = options(&[("enableIvy", "true"), ("a", "1"), ("fullTemplateTypeCheck", "true")]);
    let dirty = edit_compiler_options(&mut o, &vec!["enableIvy".to_string()], &vec![]);
    assert!(dirty);
    assert_eq!(
        o.entries,
        vec![
            ("fullTemplateTypeCheck".to_string(), "true".to_string()),
            ("a".to_string(), "1".to_string())
        ]
    );
    let same = edit_compiler_options(
        &mut o,
        &vec!["missing".to_string()],
        &vec![("a".to_string(), "1".to_string())],
    );
    assert!(!same);
    let set = edit_compiler_options(
        &mut o,
        &vec![],
        &vec![("a".to_string(), "2".to_string()), ("b".to_string(), "\"x\"".to_string())],
    );
    assert!(set);
    assert_eq!(o.entries[1], ("a".to_string(), "2".to_string()));
    assert_eq!(o.entries[2], ("b".to_string(), "\"x\"".to_string()));
}

#[test]
fn plain_json_is_unchanged() {
    let input = "{ \"a\": [1, 2], \"b\": {\"c\": \"d\"} }";
    assert_eq!(strip_jsonc(input), input);
}

#[test]
fn strip_keeps_non_ascii_text() {
    let input = "{ \"name\": \"café ✓\", \"ü\": [1, 2] }";
    assert_eq!(strip_jsonc(input), input);
    assert_eq!(strip_jsonc("{ \"é\": 1, /* ß */ }"), "{ \"é\": 1  }");
}
