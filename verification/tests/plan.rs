use angular_migrator::detect::ensure_supported;
use angular_migrator::model::MigrationRule;
use angular_migrator::package::{PackageJson, Project, Section, Workspace};
use angular_migrator::plan::{
    describe_rule, plan, plan_signature, plan_with_control_flow, render_plan, suggestions_sig,
    PlanError,
};

fn section(entries: &[(&str, &str)]) -> Section {
    entries
        .iter()
        .map(|(k, v)| (k.to_string(), Some(v.to_string())))
        .collect()
}

/// The `ng12-app` project: Angular 12 with an e2e target.
fn ng12_project() -> Project {
    Project {
        root: "/work/ng12-app".to_string(),
        package: PackageJson {
            name: Some("ng12-app".to_string()),
            dependencies: Some(section(&[
                ("@angular/animations", "^12.2.0"),
                ("@angular/common", "^12.2.0"),
                ("@angular/compiler", "^12.2.0"),
                ("@angular/core", "^12.2.0"),
                ("@angular/forms", "^12.2.0"),
                ("@angular/material", "^12.2.0"),
                ("@angular/platform-browser", "^12.2.0"),
                ("@angular/platform-browser-dynamic", "^12.2.0"),
                ("@angular/router", "^12.2.0"),
                ("@ngrx/store", "^12.5.0"),
                ("rxjs", "~6.6.0"),
                ("tslib", "^2.3.0"),
                ("zone.js", "~0.11.4"),
            ])),
            dev_dependencies: Some(section(&[
                ("@angular-devkit/build-angular", "^12.2.0"),
                ("@angular/cli", "^12.2.0"),
                ("@angular/compiler-cli", "^12.2.0"),
                ("typescript", "~4.3.0"),
                ("protractor", "~7.0.0"),
            ])),
            scripts: Some(section(&[
                ("ng", "ng"),
                ("start", "ng serve"),
                ("build", "ng build --prod"),
                ("test", "ng test"),
                ("e2e", "ng e2e"),
            ])),
        },
        workspace: Some(Workspace {
            projects: Some(vec![(
                "ng12-app".to_string(),
                Some(vec!["build".to_string(), "e2e".to_string()]),
            )]),
        }),
        workspace_path: Some("/work/ng12-app/angular.json".to_string()),
        tsconfig_paths: vec!["/work/ng12-app/tsconfig.json".to_string()],
    }
}

#[test]
fn plan_12_to_22_visits_every_major() {
    let project = ng12_project();
    let plan = plan(&project, Some(22)).unwrap();
    assert_eq!(plan.from, 12);
    assert_eq!(plan.to, 22);
    assert_eq!(plan.path(), vec![13, 14, 15, 16, 17, 18, 19, 20, 21, 22]);
    for step in &plan.steps {
        assert!(!step.rules.is_empty());
    }
    assert!(plan.third_party.iter().any(|s| s.package == "@ngrx/store"));
}

#[test]
fn plan_rejects_target_below_current() {
    let project = ng12_project();
    assert!(plan(&project, Some(11)).is_err());
}

#[test]
fn plan_errors_and_messages() {
    let project = ng12_project();
    let e = plan(&project, Some(11)).unwrap_err();
    assert_eq!(e, PlanError::TargetBelowCurrent { target: 11, current: 12 });
    assert_eq!(e.message(), "target major 11 is older than the detected Angular 12");
    let e = plan(&project, Some(23)).unwrap_err();
    assert_eq!(e, PlanError::TargetUnsupported { target: 23 });
    assert_eq!(
        e.message(),
        "target major 23 is not supported by this tool (newest: 22)"
    );
    let mut bare = ng12_project();
    bare.package.dependencies = None;
    let e = plan(&bare, None).unwrap_err();
    assert_eq!(e, PlanError::NoAngularCore);
    assert_eq!(
        e.message(),
        "no `@angular/core` dependency found in package.json"
    );
}

#[test]
fn default_target_is_latest() {
    let project = ng12_project();
    let p = plan(&project, None).unwrap();
    assert_eq!(p.to, 22);
    let same = plan(&project, Some(12)).unwrap_err();
    assert_eq!(same, PlanError::TargetBelowCurrent { target: 12, current: 12 });
    assert_eq!(same.message(), "target major 12 is not higher than the detected Angular 12");
}

#[test]
fn supported_majors() {
    assert_eq!(ensure_supported(5), Err(PlanError::TooOld { major: 5 }));
    assert_eq!(ensure_supported(6), Ok(()));
    assert_eq!(ensure_supported(22), Ok(()));
    assert_eq!(ensure_supported(23), Err(PlanError::TooNew { major: 23 }));
    assert_eq!(
        PlanError::TooOld { major: 5 }.message(),
        "Angular 5 is too old to migrate with this tool (supported: Angular 6+). Consider manually upgrading to Angular 6 first."
    );
    assert_eq!(
        PlanError::TooNew { major: 23 }.message(),
        "Angular 23 is newer than the latest version this tool knows (22). Update the tool before migrating."
    );
}

#[test]
fn control_flow_only_at_17_step() {
    let project = ng12_project();
    let p = plan_with_control_flow(&project, Some(18)).unwrap();
    for step in &p.steps {
        let has = step
            .rules
            .iter()
            .any(|r| matches!(r, MigrationRule::ControlFlowMigration));
        assert_eq!(has, step.from == 16);
    }
    let q = plan(&project, Some(18)).unwrap();
    assert!(q
        .all_actions()
        .iter()
        .all(|r| !matches!(r, MigrationRule::ControlFlowMigration)));
}

#[test]
fn signatures() {
    let project = ng12_project();
    let p = plan(&project, Some(14)).unwrap();
    let sig = plan_signature(&p);
    assert_eq!(
        sig,
        format!("12-14/12/{}/13/{}", p.steps[0].rules.len(), p.steps[1].rules.len())
    );
    assert_eq!(suggestions_sig(&p), vec!["@ngrx/store:^12.5.0->^14.0.0".to_string()]);
}

#[test]
fn describes_rules() {
    assert_eq!(
        describe_rule(&MigrationRule::dep_update("rxjs", "^7.0.0")),
        "update rxjs to ^7.0.0"
    );
    assert_eq!(
        describe_rule(&MigrationRule::StripScriptFlags {
            flags: vec!["--prod".into(), "--aot".into()]
        }),
        "strip deprecated CLI flags from scripts: [\"--prod\", \"--aot\"]"
    );
    assert_eq!(
        describe_rule(&MigrationRule::RemoveWorkspaceTarget { target: "e2e".into() }),
        "remove the `e2e` target from all projects in angular.json"
    );
    assert_eq!(
        describe_rule(&MigrationRule::ControlFlowMigration),
        "*ngIf/*ngFor -> @if/@for control-flow rewrite"
    );
}

#[test]
fn renders_plan_text() {
    let project = ng12_project();
    let p = plan(&project, Some(13)).unwrap();
    let text = render_plan(&p, "/work/ng12-app");
    assert!(text.starts_with("Migration path: Angular 12 -> 13\n  13\n\n[12 -> 13]\n"));
    assert!(text.contains("  - remove `enableIvy` from angularCompilerOptions\n"));
    assert!(text.contains("Third-party dependencies:\n  ~ @ngrx/store: ^12.5.0 -> ^13.0.0 ("));
    assert!(text.ends_with("\nProject root: /work/ng12-app\n"));
}

#[test]
fn angular_major_of_range_specifier() {
    let mut project = ng12_project();
    project.package.dependencies = Some(section(&[("@angular/core", ">= 15.2.0 < 16.0.0")]));
    project.package.dev_dependencies = Some(section(&[("@angular/cli", "~15.2.0")]));
    assert_eq!(project.angular_major(), Some(15));
    assert_eq!(project.cli_major(), Some(15));
    assert!(project.has_e2e_target());
}
