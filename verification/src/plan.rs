//! Migration planning: turn a detected project and a target major into an
//! ordered [`MigrationPlan`] that visits every intermediate major version,
//! and render plans as text.

use vstd::prelude::*;
use crate::catalog::{catalog_entry, catalog_major, latest_major, LATEST_MAJOR, MIN_SUPPORTED_MAJOR};
use crate::detect::{ensure_supported, supported_spec};
use crate::model::{
    note_texts, rules_view, step_targets, strings_view, DependencySuggestion, MajorStep,
    MigrationPlan, MigrationRule, RuleSpec,
};
use crate::package::{all_deps_spec, dependency_major, Project};
use crate::pattern::push_text;
use crate::rules::{step_rules, step_rules_spec, PlanOptions};
use crate::text::{decimal, decimal_string};
use crate::thirdparty::{suggest, suggest_from, suggestions_view, SuggestionView};

verus! {

/// Why a plan cannot be made.
#[derive(Debug, Clone, Copy, PartialEq, Eq, Structural)]
pub enum PlanError {
    /// `package.json` has no `@angular/core` dependency with a readable major.
    NoAngularCore,
    /// The detected major is older than the oldest supported one.
    TooOld { major: u32 },
    /// The detected major is newer than the newest one the catalog knows.
    TooNew { major: u32 },
    /// The target major is not higher than the detected one.
    TargetBelowCurrent { target: u32, current: u32 },
    /// The target major is not in the catalog.
    TargetUnsupported { target: u32 },
}

pub open spec fn dec(n: u32) -> Seq<char> {
    decimal(n as nat)
}

/// The error's message text.
pub open spec fn message_spec(e: PlanError) -> Seq<char> {
    match e {
        PlanError::NoAngularCore => "no `@angular/core` dependency found in package.json"@,
        PlanError::TooOld { major } => "Angular "@ + dec(major)
            + " is too old to migrate with this tool (supported: Angular "@ + dec(
            MIN_SUPPORTED_MAJOR,
        ) + "+). Consider manually upgrading to Angular "@ + dec(MIN_SUPPORTED_MAJOR)
            + " first."@,
        PlanError::TooNew { major } => "Angular "@ + dec(major)
            + " is newer than the latest version this tool knows ("@ + dec(LATEST_MAJOR)
            + "). Update the tool before migrating."@,
        PlanError::TargetBelowCurrent { target, current } => "target major "@ + dec(target) + (if target
            < current {
            " is older than the detected Angular "@
        } else {
            " is not higher than the detected Angular "@
        }) + dec(current),
        PlanError::TargetUnsupported { target } => "target major "@ + dec(target)
            + " is not supported by this tool (newest: "@ + dec(LATEST_MAJOR) + ")"@,
    }
}

/// Appends the decimal rendering of `n`.
pub(crate) fn push_dec(out: &mut String, n: u64)
    ensures
        final(out)@ == old(out)@ + decimal(n as nat),
{
    let d = decimal_string(n);
    push_text(out, d.as_str());
}

impl PlanError {
    /// The human-readable message.
    pub fn message(&self) -> (res: String)
        ensures
            res@ == message_spec(*self),
    {
        let mut out = String::new();
        match *self {
            PlanError::NoAngularCore => {
                push_text(&mut out, "no `@angular/core` dependency found in package.json");
            },
            PlanError::TooOld { major } => {
                push_text(&mut out, "Angular ");
                push_dec(&mut out, major as u64);
                push_text(&mut out, " is too old to migrate with this tool (supported: Angular ");
                push_dec(&mut out, MIN_SUPPORTED_MAJOR as u64);
                push_text(&mut out, "+). Consider manually upgrading to Angular ");
                push_dec(&mut out, MIN_SUPPORTED_MAJOR as u64);
                push_text(&mut out, " first.");
            },
            PlanError::TooNew { major } => {
                push_text(&mut out, "Angular ");
                push_dec(&mut out, major as u64);
                push_text(&mut out, " is newer than the latest version this tool knows (");
                push_dec(&mut out, latest_major() as u64);
                push_text(&mut out, "). Update the tool before migrating.");
            },
            PlanError::TargetBelowCurrent { target, current } => {
                push_text(&mut out, "target major ");
                push_dec(&mut out, target as u64);
                if target < current {
                    push_text(&mut out, " is older than the detected Angular ");
                } else {
                    push_text(&mut out, " is not higher than the detected Angular ");
                }
                push_dec(&mut out, current as u64);
            },
            PlanError::TargetUnsupported { target } => {
                push_text(&mut out, "target major ");
                push_dec(&mut out, target as u64);
                push_text(&mut out, " is not supported by this tool (newest: ");
                push_dec(&mut out, latest_major() as u64);
                push_text(&mut out, ")");
            },
        }
        proof {
            assert(out@ =~= message_spec(*self));
        }
        out
    }
}

// ---------------------------------------------------------------------------
// Planning
// ---------------------------------------------------------------------------

/// The majors a plan goes from and to, or why there is none: the detected
/// major `current` must be supported, and the target (the newest supported
/// major when `None`) must be higher than `current` and in the catalog.
pub open spec fn plan_bounds(current: Option<u32>, target: Option<u32>) -> Result<(u32, u32), PlanError> {
    match current {
        None => Err(PlanError::NoAngularCore),
        Some(from) => match supported_spec(from) {
            Err(e) => Err(e),
            Ok(_) => {
                let to = match target {
                    Some(t) => t,
                    None => LATEST_MAJOR,
                };
                if to <= from {
                    Err(PlanError::TargetBelowCurrent { target: to, current: from })
                } else if catalog_entry(to) is None {
                    Err(PlanError::TargetUnsupported { target: to })
                } else {
                    Ok((from, to))
                }
            },
        },
    }
}

/// The steps from `from` to `to`, one per major, with the rules of each;
/// the control-flow rewrite is requested at the 16 -> 17 step when
/// `control_flow` holds.
pub open spec fn steps_are(steps: Seq<MajorStep>, from: u32, to: u32, control_flow: bool) -> bool {
    &&& steps.len() == to - from
    &&& forall|i: int|
        0 <= i < steps.len() ==> {
            &&& (#[trigger] steps[i]).from == from + i
            &&& steps[i].to == from + i + 1
            &&& rules_view(steps[i].rules@) == step_rules_spec(
                (from + i) as u32,
                PlanOptions { apply_control_flow: control_flow && from + i == 16 },
            )
        }
}

/// What a successful plan holds: its bounds, every intermediate major
/// visited in order, and the curated third-party suggestions for the target.
pub open spec fn plan_ok(project: Project, target: Option<u32>, p: MigrationPlan, control_flow: bool) -> bool {
    &&& plan_bounds(dependency_major(project.package@, "@angular/core"@), target) == Ok::<(u32, u32), PlanError>((p.from, p.to))
    &&& steps_are(p.steps@, p.from, p.to, control_flow)
    &&& step_targets(p.steps@) == Seq::new((p.to - p.from) as nat, |i: int| (p.from + i + 1) as u32)
    &&& suggestions_view(p.third_party@) == suggest_from(all_deps_spec(project.package@), p.to)
}

fn plan_steps(from: u32, to: u32, control_flow: bool) -> (res: Vec<MajorStep>)
    requires
        from <= to,
    ensures
        steps_are(res@, from, to, control_flow),
        step_targets(res@) == Seq::new((to - from) as nat, |i: int| (from + i + 1) as u32),
{
    let mut steps: Vec<MajorStep> = Vec::new();
    let mut major = from;
    while major < to
        invariant
            from <= major <= to,
            steps_are(steps@, from, major, control_flow),
        decreases to - major,
    {
        let opts = PlanOptions { apply_control_flow: control_flow && major == 16 };
        let rules = step_rules(major, opts);
        steps.push(MajorStep { from: major, to: major + 1, rules });
        proof {
            assert forall|i: int| 0 <= i < steps@.len() implies {
                &&& (#[trigger] steps@[i]).from == from + i
                &&& steps@[i].to == from + i + 1
                &&& rules_view(steps@[i].rules@) == step_rules_spec(
                    (from + i) as u32,
                    PlanOptions { apply_control_flow: control_flow && from + i == 16 },
                )
            } by {
                if i < steps@.len() - 1 {
                } else {
                    assert(major == from + i);
                }
            }
        }
        major = major + 1;
    }
    proof {
        assert(step_targets(steps@) =~= Seq::new((to - from) as nat, |i: int| (from + i + 1) as u32));
    }
    steps
}

fn bounds(project: &Project, target: Option<u32>) -> (res: Result<(u32, u32), PlanError>)
    ensures
        res == plan_bounds(dependency_major(project.package@, "@angular/core"@), target),
{
    let from = match project.angular_major() {
        Some(f) => f,
        None => {
            return Err(PlanError::NoAngularCore);
        },
    };
    match ensure_supported(from) {
        Err(e) => {
            return Err(e);
        },
        Ok(()) => {},
    }
    let to = match target {
        Some(t) => t,
        None => latest_major(),
    };
    if to <= from {
        return Err(PlanError::TargetBelowCurrent { target: to, current: from });
    }
    if catalog_major(to).is_none() {
        return Err(PlanError::TargetUnsupported { target: to });
    }
    Ok((from, to))
}

/// The migration plan from the project's current Angular major to `target`
/// (the newest supported major when `None`).
pub fn plan(project: &Project, target: Option<u32>) -> (res: Result<MigrationPlan, PlanError>)
    ensures
        match res {
            Ok(p) => plan_ok(*project, target, p, false),
            Err(e) => plan_bounds(dependency_major(project.package@, "@angular/core"@), target)
                == Err::<(u32, u32), PlanError>(e),
        },
{
    let (from, to) = match bounds(project, target) {
        Ok(b) => b,
        Err(e) => {
            return Err(e);
        },
    };
    let steps = plan_steps(from, to, false);
    let third_party = suggest(project, to);
    Ok(MigrationPlan { from, to, steps, third_party })
}

/// The plan with the control-flow rewrite requested at the Angular 17 step.
pub fn plan_with_control_flow(project: &Project, target: Option<u32>) -> (res: Result<
    MigrationPlan,
    PlanError,
>)
    ensures
        match res {
            Ok(p) => plan_ok(*project, target, p, true),
            Err(e) => plan_bounds(dependency_major(project.package@, "@angular/core"@), target)
                == Err::<(u32, u32), PlanError>(e),
        },
{
    let (from, to) = match bounds(project, target) {
        Ok(b) => b,
        Err(e) => {
            return Err(e);
        },
    };
    let steps = plan_steps(from, to, true);
    let third_party = suggest(project, to);
    Ok(MigrationPlan { from, to, steps, third_party })
}

/// Planning never skips a major: a plan from `from` to `to` has exactly one
/// step per major in between, in order, each step one major long.
pub proof fn plan_visits_every_major(project: Project, target: Option<u32>, p: MigrationPlan, cf: bool)
    requires
        plan_ok(project, target, p, cf),
    ensures
        p.from <= p.to,
        p.steps@.len() == p.to - p.from,
        forall|i: int| 0 <= i < p.steps@.len() ==> (#[trigger] p.steps@[i]).to == p.steps@[i].from + 1,
        p.steps@.len() > 0 ==> p.steps@[0].from == p.from && p.steps@.last().to == p.to,
        forall|i: int| 0 <= i < p.steps@.len() ==> step_rules_spec(p.steps@[i].from, PlanOptions { apply_control_flow: cf && p.steps@[i].from == 16 }).len() >= 1,
{
    assert forall|i: int| 0 <= i < p.steps@.len() implies step_rules_spec(p.steps@[i].from, PlanOptions { apply_control_flow: cf && p.steps@[i].from == 16 }).len() >= 1 by {
        crate::rules::every_transition_has_rules(p.steps@[i].from, PlanOptions { apply_control_flow: cf && p.steps@[i].from == 16 });
    }
    if p.steps@.len() > 0 {
        assert(p.steps@[p.steps@.len() - 1].to == p.to);
    }
}

// ---------------------------------------------------------------------------
// Rendering
// ---------------------------------------------------------------------------

/// The `Debug` rendering of a list of strings (`["a", "b"]`).
pub uninterp spec fn debug_strings(v: Seq<Seq<char>>) -> Seq<char>;

/// `format!("{:?}", v)` for a `Vec<String>`. Claims the result is
/// [`debug_strings`] of the strings' texts.
#[verifier::external_body]
fn debug_list(v: &Vec<String>) -> (res: String)
    ensures
        res@ == debug_strings(strings_view(v@)),
{
    format!("{:?}", v)
}

/// The one-line description of a rule that is not a note.
pub open spec fn describe_spec(r: RuleSpec) -> Seq<char> {
    match r {
        RuleSpec::DepUpdate { package, version } => "update "@ + package + " to "@ + version,
        RuleSpec::DepRemove { package } => "remove dependency "@ + package,
        RuleSpec::DepAdd { package, version, .. } => "add dependency "@ + package + "@"@ + version,
        RuleSpec::Replace { glob, pattern, .. } => "regex replace `"@ + pattern + "` in "@ + glob,
        RuleSpec::RemoveNgModuleField { field } => "remove `"@ + field
            + "` from every @NgModule metadata"@,
        RuleSpec::RemoveCompilerOption { key } => "remove `"@ + key + "` from angularCompilerOptions"@,
        RuleSpec::SetCompilerOption { key, value } => "set angularCompilerOptions."@ + key + " = "@
            + value,
        RuleSpec::StripScriptFlags { flags } => "strip deprecated CLI flags from scripts: "@
            + debug_strings(flags),
        RuleSpec::RemoveScript { script } => "remove the `"@ + script + "` npm script"@,
        RuleSpec::RemoveWorkspaceTarget { target } => "remove the `"@ + target
            + "` target from all projects in angular.json"@,
        RuleSpec::ControlFlowMigration => "*ngIf/*ngFor -> @if/@for control-flow rewrite"@,
        RuleSpec::Note { .. } => Seq::empty(),
    }
}

/// Concise human-readable rendering of a single rule (notes are rendered
/// separately and have none).
pub fn describe_rule(rule: &MigrationRule) -> (res: String)
    requires
        !(rule@ is Note),
    ensures
        res@ == describe_spec(rule@),
{
    let mut out = String::new();
    match rule {
        MigrationRule::DepUpdate { package, version } => {
            push_text(&mut out, "update ");
            push_text(&mut out, package);
            push_text(&mut out, " to ");
            push_text(&mut out, version);
        },
        MigrationRule::DepRemove { package } => {
            push_text(&mut out, "remove dependency ");
            push_text(&mut out, package);
        },
        MigrationRule::DepAdd { package, version, .. } => {
            push_text(&mut out, "add dependency ");
            push_text(&mut out, package);
            push_text(&mut out, "@");
            push_text(&mut out, version);
        },
        MigrationRule::Replace { glob, pattern, .. } => {
            push_text(&mut out, "regex replace `");
            push_text(&mut out, pattern);
            push_text(&mut out, "` in ");
            push_text(&mut out, glob);
        },
        MigrationRule::RemoveNgModuleField { field } => {
            push_text(&mut out, "remove `");
            push_text(&mut out, field);
            push_text(&mut out, "` from every @NgModule metadata");
        },
        MigrationRule::RemoveCompilerOption { key } => {
            push_text(&mut out, "remove `");
            push_text(&mut out, key);
            push_text(&mut out, "` from angularCompilerOptions");
        },
        MigrationRule::SetCompilerOption { key, value } => {
            push_text(&mut out, "set angularCompilerOptions.");
            push_text(&mut out, key);
            push_text(&mut out, " = ");
            push_text(&mut out, value);
        },
        MigrationRule::StripScriptFlags { flags } => {
            push_text(&mut out, "strip deprecated CLI flags from scripts: ");
            let d = debug_list(flags);
            push_text(&mut out, d.as_str());
        },
        MigrationRule::RemoveScript { script } => {
            push_text(&mut out, "remove the `");
            push_text(&mut out, script);
            push_text(&mut out, "` npm script");
        },
        MigrationRule::RemoveWorkspaceTarget { target } => {
            push_text(&mut out, "remove the `");
            push_text(&mut out, target);
            push_text(&mut out, "` target from all projects in angular.json");
        },
        MigrationRule::ControlFlowMigration => {
            push_text(&mut out, "*ngIf/*ngFor -> @if/@for control-flow rewrite");
        },
        MigrationRule::Note { .. } => {},
    }
    proof {
        assert(out@ =~= describe_spec(rule@));
    }
    out
}

/// The majors of a path joined with ` -> `.
pub open spec fn path_text(ms: Seq<u32>) -> Seq<char>
    decreases ms.len(),
{
    if ms.len() == 0 {
        Seq::empty()
    } else if ms.len() == 1 {
        dec(ms[0])
    } else {
        path_text(ms.drop_last()) + " -> "@ + dec(ms.last())
    }
}

/// Whether some rule is not a note.
pub open spec fn has_action(rules: Seq<RuleSpec>) -> bool
    decreases rules.len(),
{
    rules.len() > 0 && (has_action(rules.drop_last()) || !(rules.last() is Note))
}

/// One `  - description` line per rule that is not a note.
pub open spec fn actions_text(rules: Seq<RuleSpec>) -> Seq<char>
    decreases rules.len(),
{
    if rules.len() == 0 {
        Seq::empty()
    } else {
        actions_text(rules.drop_last()) + if rules.last() is Note {
            Seq::empty()
        } else {
            "  - "@ + describe_spec(rules.last()) + "\n"@
        }
    }
}

/// One `  ! note` line per note.
pub open spec fn notes_text(notes: Seq<Seq<char>>) -> Seq<char>
    decreases notes.len(),
{
    if notes.len() == 0 {
        Seq::empty()
    } else {
        notes_text(notes.drop_last()) + "  ! "@ + notes.last() + "\n"@
    }
}

/// The block of one step: header, actions (or a marker when there are
/// none), notes and a blank line.
pub open spec fn step_text(s: MajorStep) -> Seq<char> {
    let rules = rules_view(s.rules@);
    "["@ + dec(s.from) + " -> "@ + dec(s.to) + "]\n"@ + (if has_action(rules) {
        Seq::empty()
    } else {
        "  (no automated changes)\n"@
    }) + actions_text(rules) + notes_text(note_texts(rules)) + "\n"@
}

pub open spec fn steps_text(steps: Seq<MajorStep>) -> Seq<char>
    decreases steps.len(),
{
    if steps.len() == 0 {
        Seq::empty()
    } else {
        steps_text(steps.drop_last()) + step_text(steps.last())
    }
}

pub open spec fn suggestion_lines(v: Seq<SuggestionView>) -> Seq<char>
    decreases v.len(),
{
    if v.len() == 0 {
        Seq::empty()
    } else {
        let s = v.last();
        suggestion_lines(v.drop_last()) + "  ~ "@ + s.0 + ": "@ + s.1 + " -> "@ + s.2 + " ("@ + s.3
            + ")\n"@
    }
}

pub open spec fn third_party_text(v: Seq<SuggestionView>) -> Seq<char> {
    if v.len() == 0 {
        Seq::empty()
    } else {
        "Third-party dependencies:\n"@ + suggestion_lines(v)
    }
}

/// The full text of a plan rendered for the project at `root`.
pub open spec fn render_spec(p: MigrationPlan, root: Seq<char>) -> Seq<char> {
    "Migration path: Angular "@ + dec(p.from) + " -> "@ + dec(p.to) + "\n"@ + "  "@ + path_text(
        step_targets(p.steps@),
    ) + "\n\n"@ + steps_text(p.steps@) + third_party_text(suggestions_view(p.third_party@))
        + "\nProject root: "@ + root + "\n"@
}

pub(crate) fn push_path(out: &mut String, ms: &Vec<u32>)
    ensures
        final(out)@ == old(out)@ + path_text(ms@),
{
    let ghost o0 = out@;
    let mut i: usize = 0;
    proof {
        assert(ms@.take(0) =~= Seq::<u32>::empty());
        assert(out@ =~= o0 + path_text(ms@.take(0)));
    }
    while i < ms.len()
        invariant
            i <= ms@.len(),
            out@ == o0 + path_text(ms@.take(i as int)),
        decreases ms@.len() - i,
    {
        if i > 0 {
            push_text(out, " -> ");
        }
        push_dec(out, ms[i] as u64);
        proof {
            let t = ms@.take(i + 1);
            assert(t.drop_last() =~= ms@.take(i as int));
            assert(t.last() == ms@[i as int]);
            if i == 0 {
                assert(path_text(t) == dec(t[0]));
            }
            assert(out@ =~= o0 + path_text(t));
        }
        i = i + 1;
    }
    proof {
        assert(ms@.take(ms@.len() as int) =~= ms@);
    }
}

fn step_has_action(rules: &Vec<MigrationRule>) -> (res: bool)
    ensures
        res == has_action(rules_view(rules@)),
{
    let ghost rv = rules_view(rules@);
    let mut found = false;
    let mut i: usize = 0;
    proof {
        assert(rv.take(0) =~= Seq::<RuleSpec>::empty());
    }
    while i < rules.len()
        invariant
            i <= rules@.len(),
            rv == rules_view(rules@),
            found == has_action(rv.take(i as int)),
        decreases rules@.len() - i,
    {
        proof {
            assert(rv.take(i + 1).drop_last() =~= rv.take(i as int));
            assert(rv.take(i + 1).last() == rules@[i as int]@);
        }
        match &rules[i] {
            MigrationRule::Note { .. } => {},
            _ => {
                found = true;
            },
        }
        i = i + 1;
    }
    proof {
        assert(rv.take(rules@.len() as int) =~= rv);
    }
    found
}

fn push_step(out: &mut String, step: &MajorStep)
    ensures
        final(out)@ == old(out)@ + step_text(*step),
{
    let ghost o0 = out@;
    let ghost rv = rules_view(step.rules@);
    push_text(out, "[");
    push_dec(out, step.from as u64);
    push_text(out, " -> ");
    push_dec(out, step.to as u64);
    push_text(out, "]\n");
    if !step_has_action(&step.rules) {
        push_text(out, "  (no automated changes)\n");
    }
    let ghost head = out@;
    let mut i: usize = 0;
    proof {
        assert(rv.take(0) =~= Seq::<RuleSpec>::empty());
        assert(out@ =~= head + actions_text(rv.take(0)));
    }
    while i < step.rules.len()
        invariant
            i <= step.rules@.len(),
            rv == rules_view(step.rules@),
            out@ == head + actions_text(rv.take(i as int)),
        decreases step.rules@.len() - i,
    {
        proof {
            assert(rv.take(i + 1).drop_last() =~= rv.take(i as int));
            assert(rv.take(i + 1).last() == step.rules@[i as int]@);
        }
        match &step.rules[i] {
            MigrationRule::Note { .. } => {
                proof {
                    assert(out@ =~= head + actions_text(rv.take(i + 1)));
                }
            },
            r => {
                push_text(out, "  - ");
                let d = describe_rule(r);
                push_text(out, d.as_str());
                push_text(out, "\n");
                proof {
                    assert(out@ =~= head + actions_text(rv.take(i + 1)));
                }
            },
        }
        i = i + 1;
    }
    proof {
        assert(rv.take(step.rules@.len() as int) =~= rv);
    }
    let notes = step.notes();
    let ghost mid = out@;
    let ghost nv = note_texts(rv);
    let mut j: usize = 0;
    proof {
        assert(nv.take(0) =~= Seq::<Seq<char>>::empty());
        assert(out@ =~= mid + notes_text(nv.take(0)));
    }
    while j < notes.len()
        invariant
            j <= notes@.len(),
            nv == note_texts(rv),
            notes@.map_values(|s: &str| s@) == nv,
            out@ == mid + notes_text(nv.take(j as int)),
        decreases notes@.len() - j,
    {
        proof {
            assert(nv.take(j + 1).drop_last() =~= nv.take(j as int));
            assert(nv.take(j + 1).last() == notes@[j as int]@);
        }
        push_text(out, "  ! ");
        push_text(out, notes[j]);
        push_text(out, "\n");
        proof {
            assert(out@ =~= mid + notes_text(nv.take(j + 1)));
        }
        j = j + 1;
    }
    push_text(out, "\n");
    proof {
        assert(nv.take(notes@.len() as int) =~= nv);
        assert(out@ =~= o0 + step_text(*step));
    }
}

/// Concise human-readable rendering of the plan for the project at `root`.
pub fn render_plan(plan: &MigrationPlan, root: &str) -> (res: String)
    ensures
        res@ == render_spec(*plan, root@),
{
    let mut out = String::new();
    push_text(&mut out, "Migration path: Angular ");
    push_dec(&mut out, plan.from as u64);
    push_text(&mut out, " -> ");
    push_dec(&mut out, plan.to as u64);
    push_text(&mut out, "\n");
    push_text(&mut out, "  ");
    let path = plan.path();
    push_path(&mut out, &path);
    push_text(&mut out, "\n\n");
    let ghost head = out@;
    let mut i: usize = 0;
    proof {
        assert(plan.steps@.take(0) =~= Seq::<MajorStep>::empty());
        assert(out@ =~= head + steps_text(plan.steps@.take(0)));
    }
    while i < plan.steps.len()
        invariant
            i <= plan.steps@.len(),
            out@ == head + steps_text(plan.steps@.take(i as int)),
        decreases plan.steps@.len() - i,
    {
        push_step(&mut out, &plan.steps[i]);
        proof {
            assert(plan.steps@.take(i + 1).drop_last() =~= plan.steps@.take(i as int));
            assert(out@ =~= head + steps_text(plan.steps@.take(i + 1)));
        }
        i = i + 1;
    }
    proof {
        assert(plan.steps@.take(plan.steps@.len() as int) =~= plan.steps@);
    }
    let ghost mid = out@;
    let ghost sv = suggestions_view(plan.third_party@);
    if plan.third_party.len() > 0 {
        push_text(&mut out, "Third-party dependencies:\n");
        let ghost lines_start = out@;
        let mut k: usize = 0;
        proof {
            assert(sv.take(0) =~= Seq::<SuggestionView>::empty());
            assert(out@ =~= lines_start + suggestion_lines(sv.take(0)));
        }
        while k < plan.third_party.len()
            invariant
                k <= plan.third_party@.len(),
                sv == suggestions_view(plan.third_party@),
                out@ == lines_start + suggestion_lines(sv.take(k as int)),
            decreases plan.third_party@.len() - k,
        {
            let s = &plan.third_party[k];
            push_text(&mut out, "  ~ ");
            push_text(&mut out, &s.package);
            push_text(&mut out, ": ");
            push_text(&mut out, &s.from);
            push_text(&mut out, " -> ");
            push_text(&mut out, &s.to);
            push_text(&mut out, " (");
            push_text(&mut out, &s.reason);
            push_text(&mut out, ")\n");
            proof {
                assert(sv.take(k + 1).drop_last() =~= sv.take(k as int));
                assert(sv.take(k + 1).last() == (s.package@, s.from@, s.to@, s.reason@));
                assert(out@ =~= lines_start + suggestion_lines(sv.take(k + 1)));
            }
            k = k + 1;
        }
        proof {
            assert(sv.take(plan.third_party@.len() as int) =~= sv);
            assert(out@ =~= mid + third_party_text(sv));
        }
    } else {
        proof {
            assert(out@ =~= mid + third_party_text(sv));
        }
    }
    push_text(&mut out, "\nProject root: ");
    push_text(&mut out, root);
    push_text(&mut out, "\n");
    proof {
        assert(out@ =~= render_spec(*plan, root@));
    }
    out
}

/// `{from}-{to}` followed by `/{step.from}/{rule count}` for each step.
pub open spec fn signature_spec(p: MigrationPlan) -> Seq<char> {
    dec(p.from) + "-"@ + dec(p.to) + step_sigs(p.steps@)
}

pub open spec fn step_sigs(steps: Seq<MajorStep>) -> Seq<char>
    decreases steps.len(),
{
    if steps.len() == 0 {
        Seq::empty()
    } else {
        step_sigs(steps.drop_last()) + "/"@ + dec(steps.last().from) + "/"@ + decimal(
            steps.last().rules@.len(),
        )
    }
}

/// Deterministic one-line summary of a plan's shape.
pub fn plan_signature(plan: &MigrationPlan) -> (res: String)
    ensures
        res@ == signature_spec(*plan),
{
    let mut sig = String::new();
    push_dec(&mut sig, plan.from as u64);
    push_text(&mut sig, "-");
    push_dec(&mut sig, plan.to as u64);
    let ghost head = sig@;
    let mut i: usize = 0;
    proof {
        assert(plan.steps@.take(0) =~= Seq::<MajorStep>::empty());
        assert(sig@ =~= head + step_sigs(plan.steps@.take(0)));
    }
    while i < plan.steps.len()
        invariant
            i <= plan.steps@.len(),
            sig@ == head + step_sigs(plan.steps@.take(i as int)),
        decreases plan.steps@.len() - i,
    {
        push_text(&mut sig, "/");
        push_dec(&mut sig, plan.steps[i].from as u64);
        push_text(&mut sig, "/");
        push_dec(&mut sig, plan.steps[i].rules.len() as u64);
        proof {
            assert(plan.steps@.take(i + 1).drop_last() =~= plan.steps@.take(i as int));
            assert(sig@ =~= head + step_sigs(plan.steps@.take(i + 1)));
        }
        i = i + 1;
    }
    proof {
        assert(plan.steps@.take(plan.steps@.len() as int) =~= plan.steps@);
        assert(sig@ =~= signature_spec(*plan));
    }
    sig
}

/// `package:from->to` for each suggestion.
pub open spec fn suggestion_sig(s: SuggestionView) -> Seq<char> {
    s.0 + ":"@ + s.1 + "->"@ + s.2
}

/// The plan's dependency suggestions as `package:from->to` strings.
pub fn suggestions_sig(plan: &MigrationPlan) -> (res: Vec<String>)
    ensures
        res@.len() == plan.third_party@.len(),
        forall|i: int|
            0 <= i < res@.len() ==> (#[trigger] res@[i])@ == suggestion_sig(
                suggestions_view(plan.third_party@)[i],
            ),
{
    let mut out: Vec<String> = Vec::new();
    let mut i: usize = 0;
    while i < plan.third_party.len()
        invariant
            i <= plan.third_party@.len(),
            out@.len() == i,
            forall|k: int|
                0 <= k < i ==> (#[trigger] out@[k])@ == suggestion_sig(
                    suggestions_view(plan.third_party@)[k],
                ),
        decreases plan.third_party@.len() - i,
    {
        let s = &plan.third_party[i];
        let mut t = String::new();
        push_text(&mut t, &s.package);
        push_text(&mut t, ":");
        push_text(&mut t, &s.from);
        push_text(&mut t, "->");
        push_text(&mut t, &s.to);
        proof {
            assert(t@ =~= suggestion_sig(suggestions_view(plan.third_party@)[i as int]));
        }
        out.push(t);
        i = i + 1;
    }
    out
}

} // verus!
