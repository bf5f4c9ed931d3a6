use angular_migrator::model::{parse_major, MajorStep, MigrationPlan, MigrationRule};

#[test]
fn parses_common_specifiers() {
    assert_eq!(parse_major("^12.2.0"), Some(12));
    assert_eq!(parse_major("~13.1.5"), Some(13));
    assert_eq!(parse_major("14"), Some(14));
    assert_eq!(parse_major("v9.1.13"), Some(9));
    assert_eq!(parse_major(">= 12.0.0"), Some(12));
    assert_eq!(parse_major("12.1.x"), Some(12));
    assert_eq!(parse_major("*"), None);
    assert_eq!(parse_major("latest"), None);
    assert_eq!(parse_major("workspace:*"), None);
    assert_eq!(parse_major("git+https://github.com/foo/bar.git"), None);
    assert_eq!(parse_major("file:../lib"), None);
    assert_eq!(parse_major("npm:foo@^1.0.0"), None);
}

#[test]
fn parses_ranges_and_blanks() {
    assert_eq!(parse_major(">= 15.2.0 < 16.0.0"), Some(15));
    assert_eq!(parse_major("  ^7.0.0  "), Some(7));
    assert_eq!(parse_major(""), None);
    assert_eq!(parse_major("next"), None);
    assert_eq!(parse_major("99999999999"), None);
}

fn sample_plan() -> MigrationPlan {
    MigrationPlan {
        from: 12,
        to: 14,
        steps: vec![
            MajorStep {
                from: 12,
                to: 13,
                rules: vec![MigrationRule::note("first"), MigrationRule::dep_update("a", "^1")],
            },
            MajorStep {
                from: 13,
                to: 14,
                rules: vec![MigrationRule::note("second")],
            },
        ],
        third_party: Vec::new(),
    }
}

#[test]
fn plan_accessors() {
    let p = sample_plan();
    assert_eq!(p.path(), vec![13, 14]);
    assert_eq!(p.notes(), vec!["first", "second"]);
    assert_eq!(p.all_actions(), vec![&MigrationRule::dep_update("a", "^1")]);
    assert_eq!(p.steps[0].notes(), vec!["first"]);
}
