use angular_migrator::migrate::{
    align_to_target, apply_rule, begin_step, finish, record_control_flow, record_field_removals,
    record_package_saved, record_rewrites, record_suggestions, record_workspace_rewritten, start,
    MigrateOptions, MigrationOutcome,
};
use angular_migrator::model::MigrationRule;
use angular_migrator::package::{PackageJson, Project, Section, Workspace};

fn section(entries: &[(&str, &str)]) -> Section {
    entries
        .iter()
        .map(|(k, v)| (k.to_string(), Some(v.to_string())))
        .collect()
}

fn ng12_project() -> Project {
    Project {
        root: "/work/ng12-app".to_string(),
        package: PackageJson {
            name: Some("ng12-app".to_string()),
            dependencies: Some(section(&[
                ("@angular/core", "^12.2.0"),
                ("@angular/material", "^12.2.0"),
                ("@angular/router", "^12.2.0"),
                ("@ngrx/store", "^12.5.0"),
                ("rxjs", "~6.6.0"),
                ("zone.js", "~0.11.4"),
            ])),
            dev_dependencies: Some(section(&[
                ("@angular/cli", "^12.2.0"),
                ("@angular/language-service", "^12.2.0"),
                ("typescript", "~4.3.0"),
                ("protractor", "~7.0.0"),
            ])),
            scripts: Some(section(&[
                ("build", "ng build --prod"),
                ("e2e", "ng e2e"),
            ])),
        },
        workspace: Some(Workspace {
            projects: Some(vec![(
                "ng12-app".to_string(),
                Some(vec!["build".to_string(), "e2e".to_string()]),
            )]),
        }),
        workspace_path: Some("/work/ng12-app/angular.json".to_string()),
        tsconfig_paths: vec![],
    }
}

fn get<'a>(sec: &'a Option<Section>, key: &str) -> Option<&'a str> {
    sec.as_ref()?
        .iter()
        .find(|(k, _)| k == key)
        .and_then(|(_, v)| v.as_deref())
}

fn run_steps(project: &mut Project, to: u32, opts: &MigrateOptions) -> (MigrationOutcome, Vec<String>, Vec<(String, String)>) {
    let (plan, mut outcome) = start(project, Some(to), opts).unwrap();
    let mut removes = Vec::new();
    let mut sets = Vec::new();
    for step in &plan.steps {
        begin_step(&mut outcome, step);
        for rule in &step.rules {
            apply_rule(project, rule, &mut removes, &mut sets, &mut outcome);
        }
    }
    align_to_target(project, plan.to, &mut outcome);
    record_suggestions(project, plan.to, opts, &[], &mut outcome);
    record_package_saved(&mut outcome, opts.dry_run);
    finish(&mut outcome, &plan);
    (outcome, removes, sets)
}

#[test]
fn migration_decisions_12_to_17() {
    let mut project = ng12_project();
    let opts = MigrateOptions {
        dry_run: false,
        apply_recommended: false,
        offline: true,
        apply_control_flow: true,
    };
    let (outcome, removes, _sets) = run_steps(&mut project, 17, &opts);
    let pkg = &project.package;
    assert_eq!(get(&pkg.dependencies, "@angular/core"), Some("^17.3.12"));
    assert_eq!(get(&pkg.dependencies, "@angular/router"), Some("^17.3.12"));
    assert_eq!(get(&pkg.dependencies, "@angular/material"), Some("^17.3.10"));
    assert_eq!(get(&pkg.dependencies, "rxjs"), Some("^7.8.1"));
    assert_eq!(get(&pkg.dependencies, "zone.js"), Some("^0.14.10"));
    assert_eq!(get(&pkg.dev_dependencies, "typescript"), Some("~5.4.0"));
    assert!(get(&pkg.dev_dependencies, "protractor").is_none());
    assert!(get(&pkg.dev_dependencies, "@angular/language-service").is_none());
    assert!(get(&pkg.scripts, "e2e").is_none());
    assert_eq!(get(&pkg.scripts, "build"), Some("ng build"));
    let ws = project.workspace.as_ref().unwrap();
    assert_eq!(
        ws.projects.as_ref().unwrap()[0].1.as_ref().unwrap(),
        &vec!["build".to_string()]
    );
    assert_eq!(removes, vec!["enableIvy".to_string()]);
    assert!(outcome.package_dirty);
    assert!(outcome.package_rewritten);
    assert!(outcome.third_party.iter().any(|s| s.package == "@ngrx/store"));
    assert_eq!(outcome.log[0], "Migrating Angular 12 -> 17 (13 -> 14 -> 15 -> 16 -> 17)");
    assert!(outcome.log.contains(&"--- Angular 16 -> 17 ---".to_string()));
    assert!(outcome
        .log
        .contains(&"  - script `build`: stripped deprecated flags -> `ng build`".to_string()));
    assert!(outcome.log.contains(&"  - removed script `e2e`".to_string()));
    assert!(outcome
        .log
        .contains(&"  - removed `e2e` target from angular.json projects".to_string()));
    assert_eq!(outcome.log.last().unwrap(), "rewrote package.json");
    assert!(!outcome.notes.is_empty());
    assert!(outcome.warnings.is_empty());
}

#[test]
fn migrate_with_apply_recommended_bumps_ngrx() {
    let mut project = ng12_project();
    let opts = MigrateOptions {
        dry_run: false,
        offline: true,
        apply_recommended: true,
        apply_control_flow: false,
    };
    let (outcome, _, _) = run_steps(&mut project, 20, &opts);
    assert_eq!(get(&project.package.dependencies, "@ngrx/store"), Some("^20.0.0"));
    assert!(outcome.log.contains(&"~ applied 1 third-party recommendations".to_string()));
    assert_eq!(outcome.log.last().unwrap(), "rewrote package.json");
}

#[test]
fn dry_run_is_logged() {
    let mut project = ng12_project();
    let opts = MigrateOptions {
        dry_run: true,
        offline: true,
        apply_recommended: false,
        apply_control_flow: false,
    };
    let (outcome, _, _) = run_steps(&mut project, 20, &opts);
    assert!(outcome.log[0].ends_with(" [dry run])"));
    assert_eq!(outcome.log.last().unwrap(), "would rewrite package.json");
    assert!(outcome.dry_run);
}

#[test]
fn unconfirmed_target_warns() {
    let mut project = ng12_project();
    let opts = MigrateOptions::default();
    let (outcome, _, _) = run_steps(&mut project, 21, &opts);
    assert_eq!(outcome.warnings.len(), 1);
    assert!(outcome.warnings[0].starts_with("Angular v21 is newer than this tool's verified data"));
}

#[test]
fn compiler_options_are_collected_once() {
    let mut project = ng12_project();
    let mut outcome = MigrationOutcome::new(false);
    let mut removes = Vec::new();
    let mut sets = Vec::new();
    let rule = MigrationRule::RemoveCompilerOption { key: "enableIvy".into() };
    apply_rule(&mut project, &rule, &mut removes, &mut sets, &mut outcome);
    apply_rule(&mut project, &rule, &mut removes, &mut sets, &mut outcome);
    let set_b = MigrationRule::SetCompilerOption { key: "b".into(), value: "1".into() };
    let set_a = MigrationRule::SetCompilerOption { key: "a".into(), value: "2".into() };
    let set_b2 = MigrationRule::SetCompilerOption { key: "b".into(), value: "3".into() };
    apply_rule(&mut project, &set_b, &mut removes, &mut sets, &mut outcome);
    apply_rule(&mut project, &set_a, &mut removes, &mut sets, &mut outcome);
    apply_rule(&mut project, &set_b2, &mut removes, &mut sets, &mut outcome);
    assert_eq!(removes, vec!["enableIvy".to_string()]);
    assert_eq!(
        sets,
        vec![("a".to_string(), "2".to_string()), ("b".to_string(), "3".to_string())]
    );
    assert!(outcome.log.is_empty());
    assert!(!outcome.package_dirty);
}

#[test]
fn file_work_is_recorded() {
    let mut outcome = MigrationOutcome::new(true);
    record_rewrites(&mut outcome, &[("/r/a.ts".into(), "a.ts".into())]);
    record_field_removals(&mut outcome, "entryComponents", &[("/r/m.ts".into(), "m.ts".into())]);
    record_control_flow(
        &mut outcome,
        2,
        1,
        vec!["w".into()],
        &[("/r/t.html".into(), "t.html".into())],
    );
    record_workspace_rewritten(&mut outcome, "/r/angular.json", true);
    assert_eq!(
        outcome.log,
        vec![
            "  ~ rewrote a.ts".to_string(),
            "  ~ removed `entryComponents` in m.ts".to_string(),
            "  ~ control flow: t.html".to_string(),
            "would rewrite /r/angular.json".to_string(),
        ]
    );
    assert_eq!(outcome.changed_files.len(), 4);
    assert_eq!(outcome.control_flow_migrated, 2);
    assert_eq!(outcome.control_flow_skipped, 1);
    assert_eq!(outcome.warnings, vec!["w".to_string()]);
    assert!(outcome.workspace_rewritten);
    record_package_saved(&mut outcome, true);
    assert!(!outcome.package_rewritten);
}

#[test]
fn note_rules_are_logged() {
    let mut project = ng12_project();
    let mut outcome = MigrationOutcome::new(false);
    let mut removes = Vec::new();
    let mut sets = Vec::new();
    apply_rule(
        &mut project,
        &MigrationRule::note("check forms"),
        &mut removes,
        &mut sets,
        &mut outcome,
    );
    assert_eq!(outcome.log, vec!["  ! note: check forms".to_string()]);
}
