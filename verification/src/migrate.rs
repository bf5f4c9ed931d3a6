//! Migration decisions: what each planned rule does to the in-memory
//! project, which lines the migration log gets, and how the outcome is
//! summed up. The caller performs the file work (regex replacements,
//! `@NgModule` edits, template rewrites, `tsconfig` edits, saving) and
//! reports back what changed.

use vstd::prelude::*;
use crate::catalog::{catalog_entry, catalog_major};
use crate::dependencies::{
    align_dependencies, align_spec, apply_suggestions, dep_rule, dep_rule_step, script_rule,
    script_rule_step, section_len, suggestions_spec,
};
use crate::model::{
    plan_notes, rules_view, step_targets, strings_view, strs_view, DependencySuggestion, MajorStep,
    MigrationPlan, MigrationRule, RuleSpec,
};
use crate::package::{
    lookup_pairs, pairs_get, pairs_view, scripts_spec, sorted_insert, sorted_insert_exec,
    PackageView, Project, Workspace,
};
use crate::pattern::push_text;
use crate::plan::{dec, path_text, plan, plan_bounds, plan_ok, plan_with_control_flow, push_dec, push_path, PlanError};
use crate::text::{decimal, str_equal};
use crate::thirdparty::{found_view, suggest_with_registry, suggest_with_registry_from, suggestions_view};
use crate::package::all_deps_spec;

verus! {

/// Options for the `migrate` command.
#[derive(Debug, Clone, Copy)]
pub struct MigrateOptions {
    pub dry_run: bool,
    /// Apply third-party dependency suggestions.
    pub apply_recommended: bool,
    /// Skip npm-registry lookups.
    pub offline: bool,
    /// Also run the *ngIf/*ngFor -> @if/@for rewrite.
    pub apply_control_flow: bool,
}

impl MigrateOptions {
    /// Every option off.
    pub fn default() -> (res: MigrateOptions)
        ensures
            !res.dry_run && !res.apply_recommended && !res.offline && !res.apply_control_flow,
    {
        MigrateOptions { dry_run: false, apply_recommended: false, offline: false, apply_control_flow: false }
    }
}

/// The result of running a migration. Paths are as the caller spelled them.
#[derive(Debug)]
pub struct MigrationOutcome {
    pub log: Vec<String>,
    pub changed_files: Vec<String>,
    pub notes: Vec<String>,
    pub third_party: Vec<DependencySuggestion>,
    pub warnings: Vec<String>,
    pub control_flow_migrated: usize,
    pub control_flow_skipped: usize,
    pub package_rewritten: bool,
    pub workspace_rewritten: bool,
    pub dry_run: bool,
    /// Whether any in-memory package.json mutation happened.
    pub package_dirty: bool,
}

/// An outcome with nothing recorded yet.
pub open spec fn is_fresh(o: MigrationOutcome, dry_run: bool) -> bool {
    o.log@.len() == 0 && fresh_but_log(o, dry_run)
}

/// An outcome with nothing recorded but log lines.
pub open spec fn fresh_but_log(o: MigrationOutcome, dry_run: bool) -> bool {
    &&& o.changed_files@.len() == 0
    &&& o.notes@.len() == 0
    &&& o.third_party@.len() == 0
    &&& o.warnings@.len() == 0
    &&& o.control_flow_migrated == 0
    &&& o.control_flow_skipped == 0
    &&& !o.package_rewritten
    &&& !o.workspace_rewritten
    &&& o.dry_run == dry_run
    &&& !o.package_dirty
}

impl MigrationOutcome {
    /// An empty outcome.
    pub fn new(dry_run: bool) -> (res: MigrationOutcome)
        ensures
            is_fresh(res, dry_run),
    {
        MigrationOutcome {
            log: Vec::new(),
            changed_files: Vec::new(),
            notes: Vec::new(),
            third_party: Vec::new(),
            warnings: Vec::new(),
            control_flow_migrated: 0,
            control_flow_skipped: 0,
            package_rewritten: false,
            workspace_rewritten: false,
            dry_run,
            package_dirty: false,
        }
    }
}

/// Every field but the log and the dirty flag is the same.
pub open spec fn same_but_log(a: MigrationOutcome, b: MigrationOutcome) -> bool {
    &&& a.changed_files == b.changed_files
    &&& a.notes == b.notes
    &&& a.third_party == b.third_party
    &&& a.warnings == b.warnings
    &&& a.control_flow_migrated == b.control_flow_migrated
    &&& a.control_flow_skipped == b.control_flow_skipped
    &&& a.package_rewritten == b.package_rewritten
    &&& a.workspace_rewritten == b.workspace_rewritten
    &&& a.dry_run == b.dry_run
}

// ---------------------------------------------------------------------------
// Start
// ---------------------------------------------------------------------------

/// `Migrating Angular {from} -> {to} ({path}[ [dry run]])`.
pub open spec fn header_line(p: MigrationPlan, dry_run: bool) -> Seq<char> {
    "Migrating Angular "@ + dec(p.from) + " -> "@ + dec(p.to) + " ("@ + path_text(
        step_targets(p.steps@),
    ) + (if dry_run {
        " [dry run]"@
    } else {
        Seq::empty()
    }) + ")"@
}

/// Plans the migration (with the control-flow rewrite when requested) and
/// opens the outcome with the header line.
pub fn start(project: &Project, target: Option<u32>, opts: &MigrateOptions) -> (res: Result<
    (MigrationPlan, MigrationOutcome),
    PlanError,
>)
    ensures
        match res {
            Ok((p, o)) => {
                &&& plan_ok(*project, target, p, opts.apply_control_flow)
                &&& fresh_but_log(o, opts.dry_run)
                &&& strings_view(o.log@) == seq![header_line(p, opts.dry_run)]
            },
            Err(e) => plan_bounds(
                crate::package::dependency_major(project.package@, "@angular/core"@),
                target,
            ) == Err::<(u32, u32), PlanError>(e),
        },
{
    let planned = if opts.apply_control_flow {
        plan_with_control_flow(project, target)
    } else {
        plan(project, target)
    };
    let p = match planned {
        Ok(p) => p,
        Err(e) => {
            return Err(e);
        },
    };
    let mut outcome = MigrationOutcome::new(opts.dry_run);
    let mut line = String::new();
    push_text(&mut line, "Migrating Angular ");
    push_dec(&mut line, p.from as u64);
    push_text(&mut line, " -> ");
    push_dec(&mut line, p.to as u64);
    push_text(&mut line, " (");
    let path = p.path();
    push_path(&mut line, &path);
    if opts.dry_run {
        push_text(&mut line, " [dry run]");
    }
    push_text(&mut line, ")");
    proof {
        assert(line@ =~= header_line(p, opts.dry_run));
    }
    outcome.log.push(line);
    proof {
        assert(strings_view(outcome.log@) =~= seq![header_line(p, opts.dry_run)]);
    }
    Ok((p, outcome))
}


// ---------------------------------------------------------------------------
// One rule
// ---------------------------------------------------------------------------

/// `--- Angular {from} -> {to} ---`.
pub open spec fn step_header_line(step: MajorStep) -> Seq<char> {
    "--- Angular "@ + dec(step.from) + " -> "@ + dec(step.to) + " ---"@
}

/// Logs the start of a step.
pub fn begin_step(outcome: &mut MigrationOutcome, step: &MajorStep)
    ensures
        strings_view(final(outcome).log@) == strings_view(old(outcome).log@).push(step_header_line(*step)),
        same_but_log(*final(outcome), *old(outcome)),
        final(outcome).package_dirty == old(outcome).package_dirty,
{
    let mut line = String::new();
    push_text(&mut line, "--- Angular ");
    push_dec(&mut line, step.from as u64);
    push_text(&mut line, " -> ");
    push_dec(&mut line, step.to as u64);
    push_text(&mut line, " ---");
    proof {
        assert(line@ =~= step_header_line(*step));
    }
    let ghost before = strings_view(outcome.log@);
    outcome.log.push(line);
    proof {
        assert(strings_view(outcome.log@) =~= before.push(step_header_line(*step)));
    }
}

/// The projects of a workspace with their architect target names.
pub type TargetsView = Seq<(Seq<char>, Option<Seq<Seq<char>>>)>;

pub open spec fn projects_view(v: Seq<(String, Option<Vec<String>>)>) -> TargetsView {
    v.map_values(
        |p: (String, Option<Vec<String>>)|
            (
                p.0@,
                match p.1 {
                    Some(ts) => Some(strings_view(ts@)),
                    None => None,
                },
            ),
    )
}

pub open spec fn workspace_view(w: Option<Workspace>) -> Option<Option<TargetsView>> {
    match w {
        None => None,
        Some(ws) => Some(
            match ws.projects {
                Some(ps) => Some(projects_view(ps@)),
                None => None,
            },
        ),
    }
}

/// The first index at or after `i` of `t` in `ts`, or -1.
pub open spec fn name_index(ts: Seq<Seq<char>>, t: Seq<char>, i: int) -> int
    decreases ts.len() - i,
{
    if i < 0 || i >= ts.len() {
        -1
    } else if ts[i] == t {
        i
    } else {
        name_index(ts, t, i + 1)
    }
}

/// Removes `t` from a project's targets, the last target taking its place
/// (the order-preserving JSON map's `remove`); whether it was there.
pub open spec fn remove_name_spec(ts: Seq<Seq<char>>, t: Seq<char>) -> (Seq<Seq<char>>, bool) {
    let i = name_index(ts, t, 0);
    if i < 0 {
        (ts, false)
    } else {
        (ts.update(i, ts.last()).drop_last(), true)
    }
}

/// Removes target `t` from every project that has an architect section.
pub open spec fn remove_target_from(ps: TargetsView, t: Seq<char>) -> (TargetsView, bool)
    decreases ps.len(),
{
    if ps.len() == 0 {
        (ps, false)
    } else {
        let (a, c) = remove_target_from(ps.drop_last(), t);
        let p = ps.last();
        match p.1 {
            Some(ts) => {
                let (ts2, r) = remove_name_spec(ts, t);
                (a.push((p.0, Some(ts2))), c || r)
            },
            None => (a.push(p), c),
        }
    }
}

pub open spec fn remove_target_spec(w: Option<Option<TargetsView>>, t: Seq<char>) -> (
    Option<Option<TargetsView>>,
    bool,
) {
    match w {
        Some(Some(ps)) => (Some(Some(remove_target_from(ps, t).0)), remove_target_from(ps, t).1),
        _ => (w, false),
    }
}

fn remove_name(ts: &mut Vec<String>, t: &str) -> (res: bool)
    ensures
        (strings_view(final(ts)@), res) == remove_name_spec(strings_view(old(ts)@), t@),
{
    let ghost v0 = strings_view(ts@);
    let mut i: usize = 0;
    while i < ts.len()
        invariant
            i <= ts@.len(),
            v0 == strings_view(ts@),
            v0 == strings_view(old(ts)@),
            name_index(v0, t@, 0) == name_index(v0, t@, i as int),
        decreases ts@.len() - i,
    {
        proof {
            assert(v0[i as int] == ts@[i as int]@);
        }
        if str_equal(ts[i].as_str(), t) {
            let _ = ts.swap_remove(i);
            proof {
                assert(strings_view(ts@) =~= v0.update(i as int, v0.last()).drop_last());
            }
            return true;
        }
        i = i + 1;
    }
    false
}

/// Removes an architect target (e.g. `e2e`) from every project; whether
/// anything changed.
fn remove_workspace_target(ws: &mut Workspace, target: &str) -> (res: bool)
    ensures
        (workspace_view(Some(*final(ws))), res) == remove_target_spec(workspace_view(Some(*old(ws))), target@),
{
    let taken = ws.projects.take();
    match taken {
        None => false,
        Some(mut ps) => {
            let ghost p0 = projects_view(ps@);
            let mut changed = false;
            let mut i: usize = 0;
            proof {
                assert(p0.take(0) =~= Seq::<(Seq<char>, Option<Seq<Seq<char>>>)>::empty());
                assert(projects_view(ps@).take(0) =~= remove_target_from(p0.take(0), target@).0);
            }
            while i < ps.len()
                invariant
                    i <= ps@.len(),
                    ps@.len() == p0.len(),
                    projects_view(ps@).take(i as int) == remove_target_from(p0.take(i as int), target@).0,
                    projects_view(ps@).skip(i as int) == p0.skip(i as int),
                    changed == remove_target_from(p0.take(i as int), target@).1,
                decreases ps@.len() - i,
            {
                let ghost before = projects_view(ps@);
                proof {
                    assert(p0.take(i + 1).drop_last() =~= p0.take(i as int));
                    assert(p0.take(i + 1).last() == p0[i as int]);
                    assert(before.skip(i as int)[0] == p0.skip(i as int)[0]);
                    assert(before[i as int] == p0[i as int]);
                    assert(before.skip(i + 1) =~= before.skip(i as int).skip(1));
                    assert(p0.skip(i + 1) =~= p0.skip(i as int).skip(1));
                }
                let (name, targets) = ps.remove(i);
                proof {
                    assert(projects_view(ps@) =~= before.remove(i as int));
                }
                match targets {
                    Some(mut ts) => {
                        let r = remove_name(&mut ts, target);
                        ps.insert(i, (name, Some(ts)));
                        if r {
                            changed = true;
                        }
                    },
                    None => {
                        ps.insert(i, (name, None));
                    },
                }
                proof {
                    assert(projects_view(ps@).take(i + 1) =~= remove_target_from(p0.take(i + 1), target@).0);
                    assert(projects_view(ps@).skip(i + 1) =~= before.skip(i + 1));
                }
                i = i + 1;
            }
            proof {
                assert(p0.take(p0.len() as int) =~= p0);
                assert(projects_view(ps@).take(ps@.len() as int) =~= projects_view(ps@));
            }
            ws.projects = Some(ps);
            changed
        },
    }
}

/// The log of a script-flag rule: one line per string-valued script whose
/// value changed, with its new value (empty when it is gone).
pub open spec fn strip_log(before: Seq<(Seq<char>, Seq<char>)>, after: Seq<(Seq<char>, Seq<char>)>) -> Seq<
    Seq<char>,
>
    decreases before.len(),
{
    if before.len() == 0 {
        Seq::empty()
    } else {
        let (name, val) = before.last();
        let now = pairs_get(after, name, 0);
        strip_log(before.drop_last(), after) + if now != Some(val) {
            seq![
                "  - script `"@ + name + "`: stripped deprecated flags -> `"@ + match now {
                    Some(v) => v,
                    None => Seq::empty(),
                } + "`"@,
            ]
        } else {
            Seq::empty()
        }
    }
}

/// What one rule does to the package and the workspace, which log lines it
/// adds, and whether it marks the package as changed.
pub struct RuleEffect {
    pub pkg: PackageView,
    pub ws: Option<Option<TargetsView>>,
    pub log: Seq<Seq<char>>,
    pub dirty: bool,
}

pub open spec fn rule_effect(p: PackageView, ws: Option<Option<TargetsView>>, r: RuleSpec) -> RuleEffect {
    match r {
        RuleSpec::DepUpdate { package, version } => {
            let (q, c) = dep_rule_step(p, r);
            RuleEffect {
                pkg: q,
                ws,
                log: if c {
                    seq!["  - dependency "@ + package + " -> "@ + version]
                } else {
                    Seq::empty()
                },
                dirty: c,
            }
        },
        RuleSpec::DepRemove { package } => {
            let (q, c) = dep_rule_step(p, r);
            RuleEffect {
                pkg: q,
                ws,
                log: if c {
                    seq!["  - removed dependency "@ + package]
                } else {
                    Seq::empty()
                },
                dirty: c,
            }
        },
        RuleSpec::DepAdd { package, version, .. } => {
            let (q, c) = dep_rule_step(p, r);
            RuleEffect {
                pkg: q,
                ws,
                log: if c {
                    seq!["  - added dependency "@ + package + "@"@ + version]
                } else {
                    Seq::empty()
                },
                dirty: c,
            }
        },
        RuleSpec::StripScriptFlags { .. } => {
            let q = script_rule_step(p, r).0;
            let log = strip_log(scripts_spec(p), scripts_spec(q));
            RuleEffect { pkg: q, ws, log, dirty: log.len() > 0 }
        },
        RuleSpec::RemoveScript { script } => if pairs_get(scripts_spec(p), script, 0) is Some {
            RuleEffect {
                pkg: script_rule_step(p, r).0,
                ws,
                log: seq!["  - removed script `"@ + script + "`"@],
                dirty: true,
            }
        } else {
            RuleEffect { pkg: p, ws, log: Seq::empty(), dirty: false }
        },
        RuleSpec::RemoveWorkspaceTarget { target } => {
            let (w2, c) = remove_target_spec(ws, target);
            RuleEffect {
                pkg: p,
                ws: w2,
                log: if c {
                    seq!["  - removed `"@ + target + "` target from angular.json projects"@]
                } else {
                    Seq::empty()
                },
                dirty: false,
            }
        },
        RuleSpec::Note { text } => RuleEffect {
            pkg: p,
            ws,
            log: seq!["  ! note: "@ + text],
            dirty: false,
        },
        _ => RuleEffect { pkg: p, ws, log: Seq::empty(), dirty: false },
    }
}

/// The compiler-option keys to remove after one rule: a new key is added
/// once.
pub open spec fn removes_after(removes: Seq<Seq<char>>, r: RuleSpec) -> Seq<Seq<char>> {
    match r {
        RuleSpec::RemoveCompilerOption { key } => if removes.contains(key) {
            removes
        } else {
            removes.push(key)
        },
        _ => removes,
    }
}

/// The compiler options to set after one rule, a map sorted by key where the
/// later value wins.
pub open spec fn sets_after(sets: Seq<(Seq<char>, Seq<char>)>, r: RuleSpec) -> Seq<(Seq<char>, Seq<char>)> {
    match r {
        RuleSpec::SetCompilerOption { key, value } => sorted_insert(sets, key, value, 0),
        _ => sets,
    }
}

/// Whether a rule works on files the caller must read and write
/// (`Replace`, `RemoveNgModuleField`, `ControlFlowMigration`).
pub open spec fn is_file_rule(r: RuleSpec) -> bool {
    r is Replace || r is RemoveNgModuleField || r is ControlFlowMigration
}

fn contains_string(v: &Vec<String>, t: &str) -> (res: bool)
    ensures
        res == strings_view(v@).contains(t@),
{
    let mut i: usize = 0;
    while i < v.len()
        invariant
            i <= v@.len(),
            forall|j: int| 0 <= j < i ==> v@[j]@ != t@,
        decreases v@.len() - i,
    {
        if str_equal(v[i].as_str(), t) {
            proof {
                assert(strings_view(v@)[i as int] == t@);
            }
            return true;
        }
        i = i + 1;
    }
    proof {
        if strings_view(v@).contains(t@) {
            let j = choose|j: int| 0 <= j < strings_view(v@).len() && strings_view(v@)[j] == t@;
            assert(v@[j]@ == t@);
        }
    }
    false
}

fn push_line(outcome: &mut MigrationOutcome, line: String)
    ensures
        strings_view(final(outcome).log@) == strings_view(old(outcome).log@).push(line@),
        same_but_log(*final(outcome), *old(outcome)),
        final(outcome).package_dirty == old(outcome).package_dirty,
{
    let ghost before = strings_view(outcome.log@);
    outcome.log.push(line);
    proof {
        assert(strings_view(outcome.log@) =~= before.push(line@));
    }
}

fn strip_lines(
    outcome: &mut MigrationOutcome,
    before: &Vec<(String, String)>,
    after: &Vec<(String, String)>,
) -> (res: bool)
    ensures
        strings_view(final(outcome).log@) == strings_view(old(outcome).log@) + strip_log(
            pairs_view(before@),
            pairs_view(after@),
        ),
        same_but_log(*final(outcome), *old(outcome)),
        final(outcome).package_dirty == old(outcome).package_dirty,
        res == (strip_log(pairs_view(before@), pairs_view(after@)).len() > 0),
{
    let ghost l0 = strings_view(outcome.log@);
    let ghost bv = pairs_view(before@);
    let ghost av = pairs_view(after@);
    let mut any = false;
    let mut i: usize = 0;
    proof {
        assert(bv.take(0) =~= Seq::<(Seq<char>, Seq<char>)>::empty());
        assert(strings_view(outcome.log@) =~= l0 + strip_log(bv.take(0), av));
    }
    while i < before.len()
        invariant
            i <= before@.len(),
            bv == pairs_view(before@),
            av == pairs_view(after@),
            strings_view(outcome.log@) == l0 + strip_log(bv.take(i as int), av),
            same_but_log(*outcome, *old(outcome)),
            outcome.package_dirty == old(outcome).package_dirty,
            any == (strip_log(bv.take(i as int), av).len() > 0),
        decreases before@.len() - i,
    {
        proof {
            assert(bv.take(i + 1).drop_last() =~= bv.take(i as int));
            assert(bv.take(i + 1).last() == (before@[i as int].0@, before@[i as int].1@));
        }
        let now = lookup_pairs(after, before[i].0.as_str());
        let same = match &now {
            Some(v) => str_equal(v.as_str(), before[i].1.as_str()),
            None => false,
        };
        if !same {
            let mut line = String::new();
            push_text(&mut line, "  - script `");
            push_text(&mut line, before[i].0.as_str());
            push_text(&mut line, "`: stripped deprecated flags -> `");
            match &now {
                Some(v) => push_text(&mut line, v.as_str()),
                None => {},
            }
            push_text(&mut line, "`");
            push_line(outcome, line);
            any = true;
            proof {
                assert(strings_view(outcome.log@) =~= l0 + strip_log(bv.take(i + 1), av));
            }
        } else {
            proof {
                assert(strings_view(outcome.log@) =~= l0 + strip_log(bv.take(i + 1), av));
            }
        }
        i = i + 1;
    }
    proof {
        assert(bv.take(before@.len() as int) =~= bv);
    }
    any
}

/// Applies one planned rule to the in-memory project and records it: the
/// dependency and script rules edit `package.json`, `RemoveWorkspaceTarget`
/// edits `angular.json`, the compiler-option rules are collected into
/// `removes` and `sets` for the `tsconfig` pass, notes are logged. The file
/// rules (see [`is_file_rule`]) are left to the caller and change nothing
/// here.
pub fn apply_rule(
    project: &mut Project,
    rule: &MigrationRule,
    removes: &mut Vec<String>,
    sets: &mut Vec<(String, String)>,
    outcome: &mut MigrationOutcome,
)
    requires
        section_len(old(project).package.scripts) + 1 <= usize::MAX,
    ensures
        final(project).package@ == rule_effect(old(project).package@, workspace_view(old(project).workspace), rule@).pkg,
        workspace_view(final(project).workspace) == rule_effect(
            old(project).package@,
            workspace_view(old(project).workspace),
            rule@,
        ).ws,
        final(project).root == old(project).root,
        final(project).workspace_path == old(project).workspace_path,
        final(project).tsconfig_paths == old(project).tsconfig_paths,
        strings_view(final(outcome).log@) == strings_view(old(outcome).log@) + rule_effect(
            old(project).package@,
            workspace_view(old(project).workspace),
            rule@,
        ).log,
        final(outcome).package_dirty == (old(outcome).package_dirty || rule_effect(
            old(project).package@,
            workspace_view(old(project).workspace),
            rule@,
        ).dirty),
        same_but_log(*final(outcome), *old(outcome)),
        strings_view(final(removes)@) == removes_after(strings_view(old(removes)@), rule@),
        pairs_view(final(sets)@) == sets_after(pairs_view(old(sets)@), rule@),
{
    let ghost p0 = project.package@;
    let ghost w0 = workspace_view(project.workspace);
    match rule {
        MigrationRule::DepUpdate { package, version } => {
            if dep_rule(&mut project.package, rule) {
                outcome.package_dirty = true;
                let mut line = String::new();
                push_text(&mut line, "  - dependency ");
                push_text(&mut line, package);
                push_text(&mut line, " -> ");
                push_text(&mut line, version);
                push_line(outcome, line);
                proof {
                    assert(line@ =~= "  - dependency "@ + package@ + " -> "@ + version@);
                    assert(rule_effect(p0, w0, rule@).log =~= seq![line@]);
                }
            } else {
                proof {
                    assert(strings_view(outcome.log@) =~= strings_view(outcome.log@) + Seq::<Seq<char>>::empty());
                }
            }
        },
        MigrationRule::DepRemove { package } => {
            if dep_rule(&mut project.package, rule) {
                outcome.package_dirty = true;
                let mut line = String::new();
                push_text(&mut line, "  - removed dependency ");
                push_text(&mut line, package);
                push_line(outcome, line);
                proof {
                    assert(rule_effect(p0, w0, rule@).log =~= seq![line@]);
                }
            } else {
                proof {
                    assert(strings_view(outcome.log@) =~= strings_view(outcome.log@) + Seq::<Seq<char>>::empty());
                }
            }
        },
        MigrationRule::DepAdd { package, version, .. } => {
            if dep_rule(&mut project.package, rule) {
                outcome.package_dirty = true;
                let mut line = String::new();
                push_text(&mut line, "  - added dependency ");
                push_text(&mut line, package);
                push_text(&mut line, "@");
                push_text(&mut line, version);
                push_line(outcome, line);
                proof {
                    assert(rule_effect(p0, w0, rule@).log =~= seq![line@]);
                }
            } else {
                proof {
                    assert(strings_view(outcome.log@) =~= strings_view(outcome.log@) + Seq::<Seq<char>>::empty());
                }
            }
        },
        MigrationRule::StripScriptFlags { .. } => {
            let before = project.package.scripts();
            let _ = script_rule(&mut project.package, rule);
            let after = project.package.scripts();
            if strip_lines(outcome, &before, &after) {
                outcome.package_dirty = true;
            }
        },
        MigrationRule::RemoveScript { script } => {
            let current = project.package.scripts();
            match lookup_pairs(&current, script) {
                Some(_) => {
                    let _ = script_rule(&mut project.package, rule);
                    outcome.package_dirty = true;
                    let mut line = String::new();
                    push_text(&mut line, "  - removed script `");
                    push_text(&mut line, script);
                    push_text(&mut line, "`");
                    push_line(outcome, line);
                    proof {
                        assert(rule_effect(p0, w0, rule@).log =~= seq![line@]);
                    }
                },
                None => {
                    proof {
                        assert(strings_view(outcome.log@) =~= strings_view(outcome.log@) + Seq::<Seq<char>>::empty());
                    }
                },
            }
        },
        MigrationRule::RemoveWorkspaceTarget { target } => {
            let taken = project.workspace.take();
            match taken {
                Some(mut ws) => {
                    let changed = remove_workspace_target(&mut ws, target);
                    project.workspace = Some(ws);
                    if changed {
                        let mut line = String::new();
                        push_text(&mut line, "  - removed `");
                        push_text(&mut line, target);
                        push_text(&mut line, "` target from angular.json projects");
                        push_line(outcome, line);
                        proof {
                            assert(rule_effect(p0, w0, rule@).log =~= seq![line@]);
                        }
                    } else {
                        proof {
                            assert(strings_view(outcome.log@) =~= strings_view(outcome.log@) + Seq::<Seq<char>>::empty());
                        }
                    }
                },
                None => {
                    proof {
                        assert(strings_view(outcome.log@) =~= strings_view(outcome.log@) + Seq::<Seq<char>>::empty());
                    }
                },
            }
        },
        MigrationRule::RemoveCompilerOption { key } => {
            if !contains_string(removes, key) {
                let ghost r0 = strings_view(removes@);
                removes.push(key.clone());
                proof {
                    assert(strings_view(removes@) =~= r0.push(key@));
                }
            }
            proof {
                assert(strings_view(outcome.log@) =~= strings_view(outcome.log@) + Seq::<Seq<char>>::empty());
            }
        },
        MigrationRule::SetCompilerOption { key, value } => {
            sorted_insert_exec(sets, key.clone(), value.clone());
            proof {
                assert(strings_view(outcome.log@) =~= strings_view(outcome.log@) + Seq::<Seq<char>>::empty());
            }
        },
        MigrationRule::Note { text } => {
            let mut line = String::new();
            push_text(&mut line, "  ! note: ");
            push_text(&mut line, text);
            push_line(outcome, line);
            proof {
                assert(rule_effect(p0, w0, rule@).log =~= seq![line@]);
            }
        },
        _ => {
            proof {
                assert(strings_view(outcome.log@) =~= strings_view(outcome.log@) + Seq::<Seq<char>>::empty());
            }
        },
    }
}


// ---------------------------------------------------------------------------
// File work reported back by the caller
// ---------------------------------------------------------------------------

/// One log line `prefix + rel` per changed file `(path, rel)`.
pub open spec fn file_lines(prefix: Seq<char>, files: Seq<(String, String)>) -> Seq<Seq<char>> {
    files.map_values(|f: (String, String)| prefix + f.1@)
}

pub open spec fn file_paths(files: Seq<(String, String)>) -> Seq<Seq<char>> {
    files.map_values(|f: (String, String)| f.0@)
}

/// Everything but the log and the changed files is the same.
pub open spec fn same_but_files(a: MigrationOutcome, b: MigrationOutcome) -> bool {
    &&& a.notes == b.notes
    &&& a.third_party == b.third_party
    &&& a.warnings == b.warnings
    &&& a.control_flow_migrated == b.control_flow_migrated
    &&& a.control_flow_skipped == b.control_flow_skipped
    &&& a.package_rewritten == b.package_rewritten
    &&& a.workspace_rewritten == b.workspace_rewritten
    &&& a.dry_run == b.dry_run
    &&& a.package_dirty == b.package_dirty
}

fn record_files(outcome: &mut MigrationOutcome, prefix: &str, files: &[(String, String)])
    ensures
        strings_view(final(outcome).log@) == strings_view(old(outcome).log@) + file_lines(prefix@, files@),
        strings_view(final(outcome).changed_files@) == strings_view(old(outcome).changed_files@)
            + file_paths(files@),
        same_but_files(*final(outcome), *old(outcome)),
{
    let ghost l0 = strings_view(outcome.log@);
    let ghost c0 = strings_view(outcome.changed_files@);
    let mut i: usize = 0;
    while i < files.len()
        invariant
            i <= files@.len(),
            strings_view(outcome.log@) == l0 + file_lines(prefix@, files@).take(i as int),
            strings_view(outcome.changed_files@) == c0 + file_paths(files@).take(i as int),
            same_but_files(*outcome, *old(outcome)),
        decreases files@.len() - i,
    {
        let mut line = String::new();
        push_text(&mut line, prefix);
        push_text(&mut line, files[i].1.as_str());
        let ghost lb = strings_view(outcome.log@);
        let ghost cb = strings_view(outcome.changed_files@);
        outcome.log.push(line);
        outcome.changed_files.push(files[i].0.clone());
        proof {
            assert(strings_view(outcome.log@) =~= lb.push(line@));
            assert(strings_view(outcome.changed_files@) =~= cb.push(files@[i as int].0@));
            assert(file_lines(prefix@, files@).take(i + 1) =~= file_lines(prefix@, files@).take(i as int).push(line@));
            assert(file_paths(files@).take(i + 1) =~= file_paths(files@).take(i as int).push(files@[i as int].0@));
        }
        i = i + 1;
    }
    proof {
        assert(file_lines(prefix@, files@).take(files@.len() as int) =~= file_lines(prefix@, files@));
        assert(file_paths(files@).take(files@.len() as int) =~= file_paths(files@));
    }
}

/// Records the files a regex replacement rewrote, each given as
/// `(path, path relative to the project root)`.
pub fn record_rewrites(outcome: &mut MigrationOutcome, files: &[(String, String)])
    ensures
        strings_view(final(outcome).log@) == strings_view(old(outcome).log@) + file_lines(
            "  ~ rewrote "@,
            files@,
        ),
        strings_view(final(outcome).changed_files@) == strings_view(old(outcome).changed_files@)
            + file_paths(files@),
        same_but_files(*final(outcome), *old(outcome)),
{
    record_files(outcome, "  ~ rewrote ", files);
}

/// Records the files whose `@NgModule` literals lost `field`.
pub fn record_field_removals(outcome: &mut MigrationOutcome, field: &str, files: &[(String, String)])
    ensures
        strings_view(final(outcome).log@) == strings_view(old(outcome).log@) + file_lines(
            "  ~ removed `"@ + field@ + "` in "@,
            files@,
        ),
        strings_view(final(outcome).changed_files@) == strings_view(old(outcome).changed_files@)
            + file_paths(files@),
        same_but_files(*final(outcome), *old(outcome)),
{
    let mut prefix = String::new();
    push_text(&mut prefix, "  ~ removed `");
    push_text(&mut prefix, field);
    push_text(&mut prefix, "` in ");
    proof {
        assert(prefix@ =~= "  ~ removed `"@ + field@ + "` in "@);
    }
    record_files(outcome, prefix.as_str(), files);
}

/// Records the `tsconfig` files whose `angularCompilerOptions` changed.
pub fn record_compiler_options(outcome: &mut MigrationOutcome, files: &[(String, String)])
    ensures
        strings_view(final(outcome).log@) == strings_view(old(outcome).log@) + file_lines(
            "  ~ updated angularCompilerOptions in "@,
            files@,
        ),
        strings_view(final(outcome).changed_files@) == strings_view(old(outcome).changed_files@)
            + file_paths(files@),
        same_but_files(*final(outcome), *old(outcome)),
{
    record_files(outcome, "  ~ updated angularCompilerOptions in ", files);
}

/// Records a template rewrite pass: its counts, its warnings and the
/// templates it changed.
pub fn record_control_flow(
    outcome: &mut MigrationOutcome,
    migrated: usize,
    skipped: usize,
    warnings: Vec<String>,
    files: &[(String, String)],
)
    requires
        old(outcome).control_flow_migrated + migrated <= usize::MAX,
        old(outcome).control_flow_skipped + skipped <= usize::MAX,
    ensures
        final(outcome).control_flow_migrated == old(outcome).control_flow_migrated + migrated,
        final(outcome).control_flow_skipped == old(outcome).control_flow_skipped + skipped,
        strings_view(final(outcome).warnings@) == strings_view(old(outcome).warnings@)
            + strings_view(warnings@),
        strings_view(final(outcome).log@) == strings_view(old(outcome).log@) + file_lines(
            "  ~ control flow: "@,
            files@,
        ),
        strings_view(final(outcome).changed_files@) == strings_view(old(outcome).changed_files@)
            + file_paths(files@),
        final(outcome).notes == old(outcome).notes,
        final(outcome).third_party == old(outcome).third_party,
        final(outcome).package_rewritten == old(outcome).package_rewritten,
        final(outcome).workspace_rewritten == old(outcome).workspace_rewritten,
        final(outcome).dry_run == old(outcome).dry_run,
        final(outcome).package_dirty == old(outcome).package_dirty,
{
    outcome.control_flow_migrated = outcome.control_flow_migrated + migrated;
    outcome.control_flow_skipped = outcome.control_flow_skipped + skipped;
    let ghost w0 = strings_view(outcome.warnings@);
    let mut i: usize = 0;
    while i < warnings.len()
        invariant
            i <= warnings@.len(),
            strings_view(outcome.warnings@) == w0 + strings_view(warnings@).take(i as int),
            outcome.control_flow_migrated == old(outcome).control_flow_migrated + migrated,
            outcome.control_flow_skipped == old(outcome).control_flow_skipped + skipped,
            outcome.log == old(outcome).log,
            outcome.changed_files == old(outcome).changed_files,
            outcome.notes == old(outcome).notes,
            outcome.third_party == old(outcome).third_party,
            outcome.package_rewritten == old(outcome).package_rewritten,
            outcome.workspace_rewritten == old(outcome).workspace_rewritten,
            outcome.dry_run == old(outcome).dry_run,
            outcome.package_dirty == old(outcome).package_dirty,
        decreases warnings@.len() - i,
    {
        let ghost wb = strings_view(outcome.warnings@);
        outcome.warnings.push(warnings[i].clone());
        proof {
            assert(strings_view(outcome.warnings@) =~= wb.push(warnings@[i as int]@));
            assert(strings_view(warnings@).take(i + 1) =~= strings_view(warnings@).take(i as int).push(warnings@[i as int]@));
        }
        i = i + 1;
    }
    proof {
        assert(strings_view(warnings@).take(warnings@.len() as int) =~= strings_view(warnings@));
    }
    record_files(outcome, "  ~ control flow: ", files);
}

// ---------------------------------------------------------------------------
// After the steps
// ---------------------------------------------------------------------------

/// `~ aligned {n} Angular/toolchain dependencies to v{to}`.
pub open spec fn aligned_line(n: nat, to: u32) -> Seq<char> {
    "~ aligned "@ + decimal(n) + " Angular/toolchain dependencies to v"@ + dec(to)
}

/// Aligns the managed dependencies to the target major's catalog versions
/// and logs how many changed.
pub fn align_to_target(project: &mut Project, to: u32, outcome: &mut MigrationOutcome)
    requires
        section_len(old(project).package.dependencies) + section_len(old(project).package.dev_dependencies)
            <= usize::MAX,
    ensures
        final(project).package@ == align_spec(old(project).package@, to).0,
        final(project).workspace == old(project).workspace,
        final(project).root == old(project).root,
        final(project).workspace_path == old(project).workspace_path,
        final(project).tsconfig_paths == old(project).tsconfig_paths,
        strings_view(final(outcome).log@) == strings_view(old(outcome).log@) + if align_spec(
            old(project).package@,
            to,
        ).1 > 0 {
            seq![aligned_line(align_spec(old(project).package@, to).1, to)]
        } else {
            Seq::empty()
        },
        final(outcome).package_dirty == (old(outcome).package_dirty || align_spec(
            old(project).package@,
            to,
        ).1 > 0),
        same_but_log(*final(outcome), *old(outcome)),
{
    let aligned = align_dependencies(&mut project.package, to);
    if aligned > 0 {
        outcome.package_dirty = true;
        let mut line = String::new();
        push_text(&mut line, "~ aligned ");
        push_dec(&mut line, aligned as u64);
        push_text(&mut line, " Angular/toolchain dependencies to v");
        push_dec(&mut line, to as u64);
        proof {
            assert(line@ =~= aligned_line(aligned as nat, to));
        }
        push_line(outcome, line);
    } else {
        proof {
            assert(strings_view(outcome.log@) =~= strings_view(outcome.log@) + Seq::<Seq<char>>::empty());
        }
    }
}

/// `? third-party: {package} {from} -> {to} ({reason})` for each suggestion.
pub open spec fn suggestion_log(v: Seq<(Seq<char>, Seq<char>, Seq<char>, Seq<char>)>) -> Seq<Seq<char>> {
    v.map_values(
        |s: (Seq<char>, Seq<char>, Seq<char>, Seq<char>)|
            "? third-party: "@ + s.0 + " "@ + s.1 + " -> "@ + s.2 + " ("@ + s.3 + ")"@,
    )
}

/// Computes the third-party suggestions (curated, plus the registry results
/// in `found` unless offline), records and logs them, and applies them when
/// `apply_recommended` is set.
pub fn record_suggestions(
    project: &mut Project,
    to: u32,
    opts: &MigrateOptions,
    found: &[(String, Option<String>)],
    outcome: &mut MigrationOutcome,
)
    ensures
        ({
            let sv = suggest_with_registry_from(
                all_deps_spec(old(project).package@),
                to,
                opts.offline,
                found_view(found@),
            );
            let applied = opts.apply_recommended && sv.len() > 0;
            let (p2, n) = suggestions_spec(old(project).package@, final(outcome).third_party@);
            &&& suggestions_view(final(outcome).third_party@) == sv
            &&& final(project).package@ == if applied {
                p2
            } else {
                old(project).package@
            }
            &&& strings_view(final(outcome).log@) == strings_view(old(outcome).log@) + suggestion_log(sv)
                + if applied && n > 0 {
                seq!["~ applied "@ + decimal(n) + " third-party recommendations"@]
            } else {
                Seq::empty()
            }
            &&& final(outcome).package_dirty == (old(outcome).package_dirty || (applied && n > 0))
        }),
        final(project).workspace == old(project).workspace,
        final(project).root == old(project).root,
        final(project).workspace_path == old(project).workspace_path,
        final(project).tsconfig_paths == old(project).tsconfig_paths,
        final(outcome).changed_files == old(outcome).changed_files,
        final(outcome).notes == old(outcome).notes,
        final(outcome).warnings == old(outcome).warnings,
        final(outcome).control_flow_migrated == old(outcome).control_flow_migrated,
        final(outcome).control_flow_skipped == old(outcome).control_flow_skipped,
        final(outcome).package_rewritten == old(outcome).package_rewritten,
        final(outcome).workspace_rewritten == old(outcome).workspace_rewritten,
        final(outcome).dry_run == old(outcome).dry_run,
{
    let suggestions = suggest_with_registry(project, to, opts.offline, found);
    let ghost sv = suggestions_view(suggestions@);
    let ghost l0 = strings_view(outcome.log@);
    let mut i: usize = 0;
    while i < suggestions.len()
        invariant
            i <= suggestions@.len(),
            sv == suggestions_view(suggestions@),
            strings_view(outcome.log@) == l0 + suggestion_log(sv).take(i as int),
            same_but_log(*outcome, *old(outcome)),
            outcome.package_dirty == old(outcome).package_dirty,
        decreases suggestions@.len() - i,
    {
        let s = &suggestions[i];
        let mut line = String::new();
        push_text(&mut line, "? third-party: ");
        push_text(&mut line, &s.package);
        push_text(&mut line, " ");
        push_text(&mut line, &s.from);
        push_text(&mut line, " -> ");
        push_text(&mut line, &s.to);
        push_text(&mut line, " (");
        push_text(&mut line, &s.reason);
        push_text(&mut line, ")");
        proof {
            assert(line@ =~= suggestion_log(sv)[i as int]);
            assert(suggestion_log(sv).take(i + 1) =~= suggestion_log(sv).take(i as int).push(line@));
        }
        push_line(outcome, line);
        i = i + 1;
    }
    proof {
        assert(suggestion_log(sv).take(suggestions@.len() as int) =~= suggestion_log(sv));
    }
    if opts.apply_recommended && suggestions.len() > 0 {
        let applied = apply_suggestions(&mut project.package, suggestions.as_slice());
        if applied > 0 {
            outcome.package_dirty = true;
            let mut line = String::new();
            push_text(&mut line, "~ applied ");
            push_dec(&mut line, applied as u64);
            push_text(&mut line, " third-party recommendations");
            push_line(outcome, line);
        }
    }
    let ghost l1 = strings_view(outcome.log@);
    outcome.third_party = suggestions;
    proof {
        assert(strings_view(outcome.log@) =~= l1 + Seq::<Seq<char>>::empty());
    }
}

/// The verb of a write: `would rewrite` on a dry run, `rewrote` otherwise.
pub open spec fn write_verb(dry_run: bool) -> Seq<char> {
    if dry_run {
        "would rewrite"@
    } else {
        "rewrote"@
    }
}

/// Records that `package.json` was (or would be) rewritten, when the
/// package changed.
pub fn record_package_saved(outcome: &mut MigrationOutcome, dry_run: bool)
    ensures
        old(outcome).package_dirty ==> {
            &&& final(outcome).package_rewritten
            &&& strings_view(final(outcome).log@) == strings_view(old(outcome).log@).push(
                write_verb(dry_run) + " package.json"@,
            )
        },
        !old(outcome).package_dirty ==> *final(outcome) == *old(outcome),
        final(outcome).changed_files == old(outcome).changed_files,
        final(outcome).package_dirty == old(outcome).package_dirty,
        final(outcome).workspace_rewritten == old(outcome).workspace_rewritten,
{
    if outcome.package_dirty {
        outcome.package_rewritten = true;
        let mut line = String::new();
        if dry_run {
            push_text(&mut line, "would rewrite");
        } else {
            push_text(&mut line, "rewrote");
        }
        push_text(&mut line, " package.json");
        proof {
            assert(line@ =~= write_verb(dry_run) + " package.json"@);
        }
        let ghost l0 = strings_view(outcome.log@);
        outcome.log.push(line);
        proof {
            assert(strings_view(outcome.log@) =~= l0.push(write_verb(dry_run) + " package.json"@));
        }
    }
}

/// Records that the workspace file at `path` was (or would be) rewritten.
pub fn record_workspace_rewritten(outcome: &mut MigrationOutcome, path: &str, dry_run: bool)
    ensures
        final(outcome).workspace_rewritten,
        strings_view(final(outcome).changed_files@) == strings_view(old(outcome).changed_files@).push(
            path@,
        ),
        strings_view(final(outcome).log@) == strings_view(old(outcome).log@).push(
            write_verb(dry_run) + " "@ + path@,
        ),
        final(outcome).package_dirty == old(outcome).package_dirty,
        final(outcome).package_rewritten == old(outcome).package_rewritten,
{
    outcome.workspace_rewritten = true;
    let ghost c0 = strings_view(outcome.changed_files@);
    outcome.changed_files.push(path.to_owned());
    proof {
        assert(strings_view(outcome.changed_files@) =~= c0.push(path@));
    }
    let mut line = String::new();
    if dry_run {
        push_text(&mut line, "would rewrite");
    } else {
        push_text(&mut line, "rewrote");
    }
    push_text(&mut line, " ");
    push_text(&mut line, path);
    proof {
        assert(line@ =~= write_verb(dry_run) + " "@ + path@);
    }
    let ghost l0 = strings_view(outcome.log@);
    outcome.log.push(line);
    proof {
        assert(strings_view(outcome.log@) =~= l0.push(write_verb(dry_run) + " "@ + path@));
    }
}

/// The warning for a target major whose catalog data is not confirmed.
pub open spec fn unconfirmed_warning(to: u32) -> Seq<char> {
    "Angular v"@ + dec(to)
        + " is newer than this tool's verified data; double-check the TypeScript/Node versions and breaking changes against https://update.angular.io"@
}

/// Collects the plan's manual-step notes and warns when the target major's
/// catalog data is not confirmed.
pub fn finish(outcome: &mut MigrationOutcome, plan: &MigrationPlan)
    ensures
        strings_view(final(outcome).notes@) == plan_notes(plan.steps@),
        strings_view(final(outcome).warnings@) == strings_view(old(outcome).warnings@) + match catalog_entry(plan.to) {
            Some(cat) => if cat.confirmed {
                Seq::<Seq<char>>::empty()
            } else {
                seq![unconfirmed_warning(plan.to)]
            },
            None => Seq::empty(),
        },
        final(outcome).log == old(outcome).log,
        final(outcome).changed_files == old(outcome).changed_files,
        final(outcome).third_party == old(outcome).third_party,
        final(outcome).package_dirty == old(outcome).package_dirty,
        final(outcome).package_rewritten == old(outcome).package_rewritten,
        final(outcome).workspace_rewritten == old(outcome).workspace_rewritten,
        final(outcome).control_flow_migrated == old(outcome).control_flow_migrated,
        final(outcome).control_flow_skipped == old(outcome).control_flow_skipped,
        final(outcome).dry_run == old(outcome).dry_run,
{
    let notes = plan.notes();
    let mut owned: Vec<String> = Vec::new();
    let mut i: usize = 0;
    while i < notes.len()
        invariant
            i <= notes@.len(),
            strings_view(owned@) == strs_view(notes@).take(i as int),
        decreases notes@.len() - i,
    {
        let ghost ob = strings_view(owned@);
        owned.push(notes[i].to_owned());
        proof {
            assert(strings_view(owned@) =~= ob.push(notes@[i as int]@));
            assert(strs_view(notes@).take(i + 1) =~= strs_view(notes@).take(i as int).push(notes@[i as int]@));
        }
        i = i + 1;
    }
    proof {
        assert(strs_view(notes@).take(notes@.len() as int) =~= strs_view(notes@));
    }
    outcome.notes = owned;
    let ghost w0 = strings_view(outcome.warnings@);
    match catalog_major(plan.to) {
        Some(cat) => {
            if !cat.confirmed {
                let mut line = String::new();
                push_text(&mut line, "Angular v");
                push_dec(&mut line, plan.to as u64);
                push_text(
                    &mut line,
                    " is newer than this tool's verified data; double-check the TypeScript/Node versions and breaking changes against https://update.angular.io",
                );
                proof {
                    assert(line@ =~= unconfirmed_warning(plan.to));
                }
                outcome.warnings.push(line);
                proof {
                    assert(strings_view(outcome.warnings@) =~= w0 + seq![unconfirmed_warning(plan.to)]);
                }
            } else {
                proof {
                    assert(strings_view(outcome.warnings@) =~= w0 + Seq::<Seq<char>>::empty());
                }
            }
        },
        None => {
            proof {
                assert(strings_view(outcome.warnings@) =~= w0 + Seq::<Seq<char>>::empty());
            }
        },
    }
}

} // verus!
