use angular_migrator::control_flow::{
    has_structural_directive, migrate_template, process_range, ControlFlowResult, Stats,
};

fn fresh() -> Stats {
    Stats {
        migrated: 0,
        skipped: 0,
        warnings: Vec::new(),
    }
}

#[test]
fn migrates_simple_ngif() {
    let src = r#"<div class="x" *ngIf="show">
  <span>Hi</span>
</div>"#;
    let mut stats = fresh();
    let out = process_range(src, 0..src.len(), &mut stats);
    assert_eq!(stats.migrated, 1);
    assert!(out.contains("@if (show) {"));
    assert!(!out.contains("*ngIf"));
    assert!(out.contains("<span>Hi</span>"));
    assert!(out.contains("</div>"));
}

#[test]
fn migrates_simple_ngfor() {
    let src = r#"<li *ngFor="let item of items">{{ item }}</li>"#;
    let mut stats = fresh();
    let out = process_range(src, 0..src.len(), &mut stats);
    assert!(out.contains("@for (item of items; track item) {"));
    assert!(!out.contains("*ngFor"));
}

#[test]
fn migrates_trackby() {
    let src = r#"<li *ngFor="let item of items; trackBy: trackFn">{{ item }}</li>"#;
    let mut stats = fresh();
    let out = process_range(src, 0..src.len(), &mut stats);
    assert!(out.contains("@for (item of items; track trackFn($index, item)) {"));
}

#[test]
fn skips_index_variable() {
    let src = r#"<li *ngFor="let item of items; let i = index">{{ i }}: {{ item }}</li>"#;
    let mut stats = fresh();
    let out = process_range(src, 0..src.len(), &mut stats);
    assert_eq!(stats.skipped, 1);
    assert_eq!(stats.migrated, 0);
    assert!(out.contains("*ngFor"));
}

#[test]
fn skips_ng_template_else() {
    let src = r#"<div *ngIf="cond; else other">A</div>"#;
    let mut stats = fresh();
    let out = process_range(src, 0..src.len(), &mut stats);
    assert_eq!(stats.skipped, 1);
    assert!(out.contains("*ngIf"));
}

#[test]
fn migrates_nested() {
    let src = r#"<div *ngIf="a">
  <p *ngFor="let x of xs">{{ x }}</p>
</div>"#;
    let mut stats = fresh();
    let out = process_range(src, 0..src.len(), &mut stats);
    assert_eq!(stats.migrated, 2);
    assert!(out.contains("@if (a) {"));
    assert!(out.contains("@for (x of xs; track x) {"));
}

#[test]
fn handles_self_closing() {
    let src = r#"<span *ngIf="ok" />"#;
    let mut stats = fresh();
    let out = process_range(src, 0..src.len(), &mut stats);
    assert!(out.contains("@if (ok) {"));
    assert!(out.contains("<span />"));
}

#[test]
fn keeps_non_structural_elements() {
    let src = r#"<p>hello {{ name }}</p><hr>"#;
    let mut stats = fresh();
    let out = process_range(src, 0..src.len(), &mut stats);
    assert_eq!(out, src);
}

#[test]
fn one_warning_per_skipped_element() {
    let src = r#"<div *ngIf="a; else b">x</div><li *ngFor="let i of xs; let k = index">y</li><p *ngIf="ok">z</p>"#;
    let mut stats = fresh();
    let _ = process_range(src, 0..src.len(), &mut stats);
    assert_eq!(stats.skipped, 2);
    assert_eq!(stats.migrated, 1);
    assert_eq!(stats.warnings.len(), stats.skipped);
}

#[test]
fn counts_accumulate_across_calls() {
    let src = r#"<p *ngIf="ok">z</p>"#;
    let mut stats = fresh();
    let _ = process_range(src, 0..src.len(), &mut stats);
    let _ = process_range(src, 0..src.len(), &mut stats);
    assert_eq!(stats.migrated, 2);
}

#[test]
fn template_without_directives_is_untouched() {
    assert!(migrate_template("<p>plain</p>").is_none());
    assert!(!has_structural_directive("<p>plain</p>"));
    assert!(has_structural_directive("<p *ngIf=\"x\">y</p>"));
}

#[test]
fn migrate_template_reports_counts() {
    let r = migrate_template("<p *ngIf=\"x\">y</p>").unwrap();
    assert!(r.changed);
    assert_eq!(r.migrated, 1);
    assert_eq!(r.skipped, 0);
    assert!(r.text.contains("@if (x) {"));
}

#[test]
fn unmigrated_template_is_verbatim() {
    let src = "<div *ngIf=\"a; else b\">\n  <p>x</p>\n</div>\n<li *ngFor=\"let i of xs; let k = index\">y</li>";
    let mut stats = fresh();
    let out = process_range(src, 0..src.len(), &mut stats);
    assert_eq!(stats.migrated, 0);
    assert_eq!(out, src);
}

#[test]
fn ngif_keeps_inner_quotes() {
    let src = "<p *ngIf=\"mode === 'a'\">x</p>";
    let mut stats = fresh();
    let out = process_range(src, 0..src.len(), &mut stats);
    assert_eq!(out, "@if (mode === 'a') {\n  <p>x</p>\n}\n");
    assert_eq!(stats.migrated, 1);
}

#[test]
fn unmigrated_template_with_empty_elements_is_verbatim() {
    let src = "<div></div><a></a><span *ngIf=\"x as y\"></span>";
    let mut stats = fresh();
    let out = process_range(src, 0..src.len(), &mut stats);
    assert_eq!(stats.migrated, 0);
    assert_eq!(stats.skipped, 1);
    assert_eq!(stats.warnings.len(), 1);
    assert_eq!(out, src);
}

#[test]
fn record_template_sums_and_prefixes() {
    let mut total = ControlFlowResult::new();
    let a = migrate_template("<p *ngIf=\"x\">y</p>").unwrap();
    total.record_template("src/a.html", &a);
    let b = migrate_template("<p *ngIf=\"x; else z\">y</p>").unwrap();
    total.record_template("src/b.html", &b);
    assert_eq!(total.migrated, 1);
    assert_eq!(total.skipped, 1);
    assert_eq!(total.changed, vec!["src/a.html".to_string()]);
    assert_eq!(total.warnings.len(), 1);
    assert!(total.warnings[0].starts_with("src/b.html: "));
    assert_eq!(total.warnings[0], format!("src/b.html: {}", b.warnings[0]));
}
