use angular_migrator::dependencies::{
    align_dependencies, apply_dep_rules, apply_script_rules, apply_suggestions,
};
use angular_migrator::model::{DependencySuggestion, MigrationRule};
use angular_migrator::package::{PackageJson, Section};

fn section(entries: &[(&str, &str)]) -> Section {
    entries
        .iter()
        .map(|(k, v)| (k.to_string(), Some(v.to_string())))
        .collect()
}

fn pkg(deps: &[(&str, &str)], dev: &[(&str, &str)], scripts: &[(&str, &str)]) -> PackageJson {
    PackageJson {
        name: None,
        dependencies: if deps.is_empty() { None } else { Some(section(deps)) },
        dev_dependencies: if dev.is_empty() { None } else { Some(section(dev)) },
        scripts: if scripts.is_empty() { None } else { Some(section(scripts)) },
    }
}

fn get<'a>(sec: &'a Option<Section>, key: &str) -> Option<&'a str> {
    sec.as_ref()?
        .iter()
        .find(|(k, _)| k == key)
        .and_then(|(_, v)| v.as_deref())
}

fn script(p: &PackageJson, name: &str) -> String {
    p.scripts()
        .into_iter()
        .find(|(k, _)| k == name)
        .map(|(_, v)| v)
        .unwrap()
}

#[test]
fn applies_dep_update_and_remove() {
    let mut pkg = pkg(
        &[("@angular/core", "^12.2.0"), ("protractor", "^7.0.0")],
        &[],
        &[],
    );
    let rules = vec![
        MigrationRule::DepRemove {
            package: "protractor".into(),
        },
        MigrationRule::DepUpdate {
            package: "@angular/core".into(),
            version: "^13.0.0".into(),
        },
    ];
    assert_eq!(apply_dep_rules(&mut pkg, &rules), 2);
    assert!(pkg.dependency("protractor").is_none());
    assert_eq!(pkg.dependency("@angular/core").as_deref(), Some("^13.0.0"));
}

#[test]
fn aligns_monorepo_and_toolchain() {
    let mut pkg = pkg(
        &[
            ("@angular/core", "^16.2.0"),
            ("@angular/common", "^16.2.0"),
            ("@angular/router", "^16.2.0"),
            ("@angular/material", "^16.2.0"),
            ("rxjs", "~7.5.0"),
        ],
        &[
            ("@angular/cli", "^16.2.0"),
            ("typescript", "~4.9.0"),
            ("zone.js", "~0.14.0"),
            ("@angular-devkit/build-angular", "^16.2.0"),
        ],
        &[],
    );
    let changes = align_dependencies(&mut pkg, 19);
    assert!(changes >= 9);
    assert_eq!(pkg.dependency("@angular/core").as_deref(), Some("^19.2.25"));
    assert_eq!(
        pkg.dependency("@angular/material").as_deref(),
        Some("^19.2.19")
    );
    assert_eq!(pkg.dependency("rxjs").as_deref(), Some("^7.8.1"));
    assert_eq!(pkg.dependency("zone.js").as_deref(), Some("^0.15.1"));
    let ts = get(&pkg.dev_dependencies, "typescript").unwrap().to_string();
    assert_eq!(ts, "~5.8.0");
}

#[test]
fn strips_deprecated_flags() {
    let mut pkg = pkg(&[], &[], &[("build", "ng build --prod"), ("serve", "ng serve")]);
    let rules = vec![MigrationRule::StripScriptFlags {
        flags: vec!["--prod".into()],
    }];
    assert_eq!(apply_script_rules(&mut pkg, &rules), 1);
    assert_eq!(script(&pkg, "build"), "ng build");
    assert_eq!(script(&pkg, "serve"), "ng serve");
}

#[test]
fn dep_update_skips_missing_and_equal() {
    let mut pkg = pkg(&[("a", "^1.0.0")], &[("b", "^2.0.0")], &[]);
    let rules = vec![
        MigrationRule::dep_update("a", "^1.0.0"),
        MigrationRule::dep_update("missing", "^9.0.0"),
        MigrationRule::dep_update("b", "^3.0.0"),
    ];
    assert_eq!(apply_dep_rules(&mut pkg, &rules), 1);
    assert_eq!(get(&pkg.dev_dependencies, "b"), Some("^3.0.0"));
    assert!(pkg.dependency("missing").is_none());
}

#[test]
fn dep_add_creates_section() {
    let mut pkg = pkg(&[("a", "^1.0.0")], &[], &[]);
    let rules = vec![MigrationRule::DepAdd {
        package: "x".into(),
        version: "^1.0.0".into(),
        dev: true,
    }];
    assert_eq!(apply_dep_rules(&mut pkg, &rules), 1);
    assert_eq!(get(&pkg.dev_dependencies, "x"), Some("^1.0.0"));
    assert_eq!(apply_dep_rules(&mut pkg, &rules), 0);
}

#[test]
fn removal_moves_last_entry_into_place() {
    let mut pkg = pkg(&[("a", "1"), ("b", "2"), ("c", "3")], &[], &[]);
    let rules = vec![MigrationRule::DepRemove { package: "a".into() }];
    assert_eq!(apply_dep_rules(&mut pkg, &rules), 1);
    let keys: Vec<&str> = pkg
        .dependencies
        .as_ref()
        .unwrap()
        .iter()
        .map(|(k, _)| k.as_str())
        .collect();
    assert_eq!(keys, vec!["c", "b"]);
}

#[test]
fn align_to_unknown_major_changes_nothing() {
    let mut pkg = pkg(&[("@angular/core", "^12.0.0")], &[], &[]);
    assert_eq!(align_dependencies(&mut pkg, 99), 0);
    assert_eq!(pkg.dependency("@angular/core").as_deref(), Some("^12.0.0"));
}

#[test]
fn align_is_idempotent() {
    let mut pkg = pkg(&[("@angular/core", "^12.0.0"), ("left-pad", "1.0.0")], &[], &[]);
    assert_eq!(align_dependencies(&mut pkg, 17), 1);
    assert_eq!(align_dependencies(&mut pkg, 17), 0);
    assert_eq!(pkg.dependency("left-pad").as_deref(), Some("1.0.0"));
    assert_eq!(pkg.dependency("@angular/core").as_deref(), Some("^17.3.12"));
}

#[test]
fn remove_script_rule() {
    let mut pkg = pkg(&[], &[], &[("e2e", "ng e2e"), ("build", "ng build")]);
    let rules = vec![MigrationRule::RemoveScript { script: "e2e".into() }];
    assert_eq!(apply_script_rules(&mut pkg, &rules), 1);
    assert_eq!(pkg.scripts().len(), 1);
    assert_eq!(apply_script_rules(&mut pkg, &rules), 0);
}

#[test]
fn strip_leaves_non_ng_scripts() {
    let mut pkg = pkg(&[], &[], &[("lint", "eslint --prod")]);
    let rules = vec![MigrationRule::StripScriptFlags {
        flags: vec!["--prod".into()],
    }];
    assert_eq!(apply_script_rules(&mut pkg, &rules), 0);
    assert_eq!(script(&pkg, "lint"), "eslint --prod");
}

#[test]
fn suggestions_update_in_place() {
    let mut pkg = pkg(&[("@ngrx/store", "^12.5.0")], &[], &[]);
    let s = vec![DependencySuggestion {
        package: "@ngrx/store".into(),
        from: "^12.5.0".into(),
        to: "^20.0.0".into(),
        reason: String::new(),
    }];
    assert_eq!(apply_suggestions(&mut pkg, &s), 1);
    assert_eq!(pkg.dependency("@ngrx/store").as_deref(), Some("^20.0.0"));
}

#[test]
fn all_dependencies_sorted_dev_wins() {
    let p = pkg(&[("z", "1"), ("a", "1")], &[("a", "2")], &[]);
    assert_eq!(
        p.all_dependencies(),
        vec![("a".to_string(), "2".to_string()), ("z".to_string(), "1".to_string())]
    );
    assert_eq!(p.name(), "(unnamed project)");
}
