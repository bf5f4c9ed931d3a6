use angular_migrator::model::FileKind;
use angular_migrator::transforms::{
    is_ignored_dir, is_source_file_name, is_spec_path, is_template_file_name,
    is_under_ignored_dir, remove_ng_module_field, remove_top_level_property,
};

#[test]
fn removes_entry_components_middle() {
    let src = r#"
@NgModule({
  declarations: [AppComponent],
  imports: [BrowserModule],
  entryComponents: [DialogComponent],
  providers: [],
  bootstrap: [AppComponent]
})
export class AppModule {}
"#;
    let (out, count) = remove_ng_module_field(src, "entryComponents");
    assert_eq!(count, 1);
    assert!(!out.contains("entryComponents"));
    assert!(out.contains("imports: [BrowserModule]"));
    assert!(out.contains("providers: []"));
    assert!(out.contains("bootstrap: [AppComponent]"));
}

#[test]
fn removes_last_property_and_comma() {
    let src = r#"@NgModule({
  declarations: [AppComponent],
  entryComponents: [A]
})
export class AppModule {}
"#;
    let (out, count) = remove_ng_module_field(src, "entryComponents");
    assert_eq!(count, 1);
    assert!(!out.contains("entryComponents"));
    assert!(!out.contains(",}"));
    assert!(out.contains("declarations: [AppComponent]"));
}

#[test]
fn leaves_strings_untouched() {
    let src = r#"
const s = "@NgModule({ entryComponents: 'fake' })";
@NgModule({
  declarations: [AppComponent]
})
export class AppModule {}
"#;
    let (out, count) = remove_ng_module_field(src, "entryComponents");
    assert_eq!(count, 0);
    assert!(out.contains("const s"));
    assert!(out.contains("@NgModule"));
}

#[test]
fn ignores_nested_objects() {
    let src = r#"
@NgModule({
  declarations: [AppComponent],
  imports: [{
    entryComponents: [NestedThing]
  }]
})
export class AppModule {}
"#;
    let (out, count) = remove_ng_module_field(src, "entryComponents");
    assert_eq!(count, 0);
    assert!(out.contains("entryComponents"));
}

#[test]
fn handles_comment_between_key_and_colon() {
    let src = r#"@NgModule({
  entryComponents /* legacy */ : [A],
  bootstrap: [AppComponent]
})"#;
    let (out, count) = remove_ng_module_field(src, "entryComponents");
    assert_eq!(count, 1);
    assert!(!out.contains("entryComponents"));
}

#[test]
fn regex_replace_skips_spec_files_for_source_kind() {
    assert!(is_ignored_dir("node_modules"));
    assert!(!is_ignored_dir("src"));
}

#[test]
fn removes_property_inside_object_text() {
    let out = remove_top_level_property("{ a: 1, b: [2], c: 3 }", "b");
    assert!(!out.contains("b:"));
    assert!(out.contains("a: 1"));
    assert!(out.contains("c: 3"));
}

#[test]
fn module_without_field_is_unchanged() {
    let src = "@NgModule({\n  declarations: [A]\n})\n";
    let r = remove_ng_module_field(src, "entryComponents");
    assert_eq!(r.0, src);
    assert_eq!(r.1, 0);
}

#[test]
fn removes_field_from_every_module() {
    let src = "@NgModule({ entryComponents: [A], x: 1 })\n@NgModule({ entryComponents: [B] })\n";
    let (out, count) = remove_ng_module_field(src, "entryComponents");
    assert_eq!(count, 2);
    assert!(!out.contains("entryComponents"));
    assert!(out.contains("x: 1"));
}

#[test]
fn file_kind_selection() {
    assert!(FileKind::Source.matches("src/app/a.ts", false));
    assert!(!FileKind::Source.matches("src/app/a.spec.ts", true));
    assert!(FileKind::All.matches("src/app/a.spec.ts", true));
    assert!(FileKind::Template.matches("src/app/a.html", false));
    assert!(!FileKind::Template.matches("src/app/app.component.ts", false));
    assert!(!FileKind::Source.matches("src/app/app.component.html", false));
    assert!(FileKind::All.matches("src/app/app.component.html", false));
    assert!(!FileKind::All.matches("src/app/a.css", false));
    assert!(is_spec_path("src/app/a.spec.ts"));
    assert!(!is_spec_path("src/app/a.ts"));
    assert!(is_source_file_name("a.ts"));
    assert!(is_source_file_name("app.component.html"));
    assert!(!is_source_file_name("a.css"));
    assert!(is_template_file_name("a.html"));
}

#[test]
fn removing_last_property_drops_preceding_comma() {
    assert_eq!(remove_top_level_property("{a: 1, b: 2}", "b"), "{a: 1}");
    let src = "@NgModule({\n  declarations: [AppComponent],\n  entryComponents: [A]\n})\n";
    let (out, count) = remove_ng_module_field(src, "entryComponents");
    assert_eq!(count, 1);
    assert_eq!(out, "@NgModule({\n  declarations: [AppComponent]})\n");
}

#[test]
fn removing_duplicate_last_property() {
    assert_eq!(remove_top_level_property("{b: 1, b: 2}", "b"), "{ }");
}

#[test]
fn block_comment_scan_starts_after_opening() {
    let text = "{ /*/ a: 1 */ a: 2, b: 3 }";
    assert_eq!(remove_top_level_property(text, "a"), "{ /*/ a: 1 */  b: 3 }");
}

#[test]
fn paths_under_ignored_directories() {
    assert!(is_under_ignored_dir("node_modules/x/a.ts"));
    assert!(is_under_ignored_dir("src/dist/a.ts"));
    assert!(!is_under_ignored_dir("src/app/a.ts"));
    assert!(!is_under_ignored_dir("dist"));
    assert!(!is_under_ignored_dir("src/coverage.ts"));
}
