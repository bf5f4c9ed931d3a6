use angular_migrator::package::{PackageJson, Project, Section};
use angular_migrator::thirdparty::{registry_lookups, suggest, suggest_with_registry};

fn section(entries: &[(&str, &str)]) -> Section {
    entries
        .iter()
        .map(|(k, v)| (k.to_string(), Some(v.to_string())))
        .collect()
}

fn project_with(deps: &[(&str, &str)]) -> Project {
    Project {
        root: "/tmp/t".to_string(),
        package: PackageJson {
            name: Some("t".to_string()),
            dependencies: Some(section(deps)),
            dev_dependencies: Some(section(&[("@angular/cli", "^12.2.0")])),
            scripts: None,
        },
        workspace: None,
        workspace_path: None,
        tsconfig_paths: Vec::new(),
    }
}

#[test]
fn suggests_ngrx_bump() {
    let p = project_with(&[("@angular/core", "12.2.0"), ("@ngrx/store", "^12.5.0")]);
    let s = suggest(&p, 20);
    assert!(
        s.iter()
            .any(|x| x.package == "@ngrx/store" && x.to == "^20.0.0"),
        "got {s:?}"
    );
}

#[test]
fn no_suggestion_when_already_latest() {
    let p = project_with(&[("@angular/core", "20.0.0"), ("@ngrx/store", "^20.1.0")]);
    assert!(suggest(&p, 20).is_empty());
}

#[test]
fn ignores_managed_packages() {
    let p = project_with(&[("@angular/core", "12.2.0"), ("rxjs", "^6.6.0")]);
    assert!(suggest(&p, 20).is_empty());
}

#[test]
fn ignores_unknown_libs_offline() {
    let p = project_with(&[("@angular/core", "12.2.0"), ("some-lib", "^3.0.0")]);
    assert!(suggest(&p, 20).is_empty());
}

#[test]
fn suggestion_text_and_order() {
    let p = project_with(&[
        ("primeng", "^11.0.0"),
        ("@ngrx/effects", "^12.0.0"),
        ("@angular/core", "12.2.0"),
    ]);
    let s = suggest(&p, 13);
    let names: Vec<&str> = s.iter().map(|x| x.package.as_str()).collect();
    assert_eq!(names, vec!["@ngrx/effects", "primeng"]);
    assert_eq!(s[0].from, "^12.0.0");
    assert_eq!(s[0].to, "^13.0.0");
    assert_eq!(
        s[0].reason,
        "this library tracks the Angular major version (from v8); bump to match Angular 13"
    );
}

#[test]
fn tracking_starts_at_its_major() {
    let p = project_with(&[("ngx-toastr", "^10.0.0")]);
    assert!(suggest(&p, 14).is_empty());
    assert_eq!(suggest(&p, 15).len(), 1);
}

#[test]
fn registry_results_are_merged_in_order() {
    let p = project_with(&[
        ("@angular/core", "12.2.0"),
        ("zz-lib", "^1.0.0"),
        ("@ngrx/store", "^12.0.0"),
        ("aa-lib", "^2.0.0"),
    ]);
    assert_eq!(
        registry_lookups(&p, 17, false),
        vec!["aa-lib".to_string(), "zz-lib".to_string()]
    );
    assert!(registry_lookups(&p, 17, true).is_empty());
    let found = vec![
        ("aa-lib".to_string(), Some("^5.0.0".to_string())),
        ("zz-lib".to_string(), Some("^1.2.0".to_string())),
    ];
    let s = suggest_with_registry(&p, 17, false, &found);
    let names: Vec<&str> = s.iter().map(|x| x.package.as_str()).collect();
    assert_eq!(names, vec!["@ngrx/store", "aa-lib"]);
    assert_eq!(s[1].to, "^5.0.0");
    assert_eq!(
        s[1].reason,
        "latest version with a peerDependency on @angular/core compatible with Angular 17"
    );
    let offline = suggest_with_registry(&p, 17, true, &found);
    assert_eq!(offline.len(), 1);
}
