use angular_migrator::cli::{analysis_lines, catalog_lines, summary_lines};
use angular_migrator::migrate::MigrationOutcome;
use angular_migrator::package::{PackageJson, Project};

#[test]
fn catalog_table() {
    let lines = catalog_lines();
    assert_eq!(lines.len(), 18);
    assert_eq!(
        lines[0],
        "major       core        cli   material    zone.js      rxjs      typescript      node"
    );
    assert!(lines[1].starts_with("   6  "));
    assert!(lines[17].ends_with("  (est.)"));
    assert!(!lines[15].ends_with("  (est.)"));
}

#[test]
fn analysis_output() {
    let project = Project {
        root: "/p".to_string(),
        package: PackageJson {
            name: None,
            dependencies: Some(vec![
                ("@angular/core".to_string(), Some("^15.1.0".to_string())),
                ("rxjs".to_string(), Some("~7.5.0".to_string())),
            ]),
            dev_dependencies: None,
            scripts: None,
        },
        workspace: None,
        workspace_path: None,
        tsconfig_paths: vec![],
    };
    let names = vec!["tsconfig.json".to_string(), "tsconfig.app.json".to_string()];
    let lines = analysis_lines(&project, &names);
    assert_eq!(
        lines,
        vec![
            "Project: (unnamed project)",
            "Root:    /p",
            "Angular: v15",
            "CLI:     (not installed)",
            "typescript: (none)",
            "rxjs    : ~7.5.0",
            "zone.js : (none)",
            "tslib   : (none)",
            "Workspace config: (none)",
            "tsconfigs: tsconfig.json, tsconfig.app.json",
            "e2e target: no",
            "\nDependencies:",
            "  @angular/core: ^15.1.0",
            "  rxjs: ~7.5.0",
        ]
    );
}

#[test]
fn migrate_summary() {
    let mut o = MigrationOutcome::new(false);
    o.log.push("a".into());
    o.warnings.push("w".into());
    o.control_flow_migrated = 2;
    o.control_flow_skipped = 1;
    assert_eq!(
        summary_lines(&o),
        vec![
            "a",
            "\nWarnings:",
            "  ! w",
            "\nControl-flow: 2 migrated, 1 skipped (see warnings).",
        ]
    );
}
