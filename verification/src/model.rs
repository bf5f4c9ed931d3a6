//! Core data: migration rules, steps and plans, and npm version specifiers.

use vstd::prelude::*;
use crate::text::{
    ascii_digit, contains, contains_str, ends_with, ends_with_str, is_ascii_digit, is_unicode_ws,
    matches_at_exec, skip_uws, skip_uws_exec, slice_to_vec, starts_with, starts_with_str, to_chars,
    trim, trim_chars, unicode_ws,
};

verus! {

/// Target file kinds for regex replacements.
#[derive(Debug, Clone, Copy, PartialEq, Eq)]
pub enum FileKind {
    /// TypeScript sources (`.ts`), skips spec files.
    Source,
    /// HTML templates (`.html`).
    Template,
    /// Any tracked file (source + template).
    All,
}

/// Whether a file at `path` (relative, `/`-separated) belongs to the kind:
/// `.ts` sources that are not spec files for `Source`, `.html` templates for
/// `Template`, either for `All`.
pub open spec fn kind_matches(kind: FileKind, path: Seq<char>, is_spec: bool) -> bool {
    match kind {
        FileKind::Source => ends_with(path, ".ts"@) && !is_spec,
        FileKind::Template => ends_with(path, ".html"@),
        FileKind::All => ends_with(path, ".ts"@) || ends_with(path, ".html"@),
    }
}

impl FileKind {
    /// Whether the file at `path` is of this kind; `is_spec` tells whether it
    /// is a spec file.
    pub fn matches(&self, path: &str, is_spec: bool) -> (res: bool)
        ensures
            res == kind_matches(*self, path@, is_spec),
    {
        let p = to_chars(path);
        let ts = ends_with_str(p.as_slice(), ".ts");
        let html = ends_with_str(p.as_slice(), ".html");
        match self {
            FileKind::Source => ts && !is_spec,
            FileKind::Template => html,
            FileKind::All => ts || html,
        }
    }
}

/// A single automated (or informational) migration operation.
#[derive(Debug, Clone, PartialEq, Eq)]
pub enum MigrationRule {
    /// Update an existing dependency to a version.
    DepUpdate { package: String, version: String },
    /// Remove a dependency entirely.
    DepRemove { package: String },
    /// Add a dependency (defaults to devDependencies).
    DepAdd { package: String, version: String, dev: bool },
    /// Regex replacement over files matching a glob.
    Replace { glob: String, pattern: String, replacement: String, kind: FileKind },
    /// Remove a top-level metadata field from every `@NgModule({ ... })` literal.
    RemoveNgModuleField { field: String },
    /// Remove a key from `angularCompilerOptions` in all tsconfig files.
    RemoveCompilerOption { key: String },
    /// Set a key/value inside `angularCompilerOptions`.
    SetCompilerOption { key: String, value: String },
    /// Strip deprecated `ng` CLI flags from npm scripts.
    StripScriptFlags { flags: Vec<String> },
    /// Remove a script (e.g. the `e2e` script in Angular 17).
    RemoveScript { script: String },
    /// Remove an architect target (e.g. `e2e`) from every project in angular.json.
    RemoveWorkspaceTarget { target: String },
    /// Apply the structural-directive -> control-flow rewrite (*ngIf/*ngFor).
    ControlFlowMigration,
    /// Informational only: a manual step that cannot be automated safely.
    Note { text: String },
}

/// The value a [`MigrationRule`] denotes.
pub enum RuleSpec {
    DepUpdate { package: Seq<char>, version: Seq<char> },
    DepRemove { package: Seq<char> },
    DepAdd { package: Seq<char>, version: Seq<char>, dev: bool },
    Replace { glob: Seq<char>, pattern: Seq<char>, replacement: Seq<char>, kind: FileKind },
    RemoveNgModuleField { field: Seq<char> },
    RemoveCompilerOption { key: Seq<char> },
    SetCompilerOption { key: Seq<char>, value: Seq<char> },
    StripScriptFlags { flags: Seq<Seq<char>> },
    RemoveScript { script: Seq<char> },
    RemoveWorkspaceTarget { target: Seq<char> },
    ControlFlowMigration,
    Note { text: Seq<char> },
}

pub open spec fn strings_view(v: Seq<String>) -> Seq<Seq<char>> {
    v.map_values(|s: String| s@)
}

impl View for MigrationRule {
    type V = RuleSpec;

    open spec fn view(&self) -> RuleSpec {
        match self {
            MigrationRule::DepUpdate { package, version } => RuleSpec::DepUpdate {
                package: package@,
                version: version@,
            },
            MigrationRule::DepRemove { package } => RuleSpec::DepRemove { package: package@ },
            MigrationRule::DepAdd { package, version, dev } => RuleSpec::DepAdd {
                package: package@,
                version: version@,
                dev: *dev,
            },
            MigrationRule::Replace { glob, pattern, replacement, kind } => RuleSpec::Replace {
                glob: glob@,
                pattern: pattern@,
                replacement: replacement@,
                kind: *kind,
            },
            MigrationRule::RemoveNgModuleField { field } => RuleSpec::RemoveNgModuleField {
                field: field@,
            },
            MigrationRule::RemoveCompilerOption { key } => RuleSpec::RemoveCompilerOption {
                key: key@,
            },
            MigrationRule::SetCompilerOption { key, value } => RuleSpec::SetCompilerOption {
                key: key@,
                value: value@,
            },
            MigrationRule::StripScriptFlags { flags } => RuleSpec::StripScriptFlags {
                flags: strings_view(flags@),
            },
            MigrationRule::RemoveScript { script } => RuleSpec::RemoveScript { script: script@ },
            MigrationRule::RemoveWorkspaceTarget { target } => RuleSpec::RemoveWorkspaceTarget {
                target: target@,
            },
            MigrationRule::ControlFlowMigration => RuleSpec::ControlFlowMigration,
            MigrationRule::Note { text } => RuleSpec::Note { text: text@ },
        }
    }
}

pub open spec fn rules_view(v: Seq<MigrationRule>) -> Seq<RuleSpec> {
    v.map_values(|r: MigrationRule| r@)
}

impl MigrationRule {
    pub fn dep_update(p: &str, v: &str) -> (res: Self)
        ensures
            res@ == (RuleSpec::DepUpdate { package: p@, version: v@ }),
    {
        MigrationRule::DepUpdate { package: p.to_owned(), version: v.to_owned() }
    }

    pub fn note(text: &str) -> (res: Self)
        ensures
            res@ == (RuleSpec::Note { text: text@ }),
    {
        MigrationRule::Note { text: text.to_owned() }
    }
}

/// One major-version upgrade step (e.g. 16 -> 17).
#[derive(Debug, Clone)]
pub struct MajorStep {
    pub from: u32,
    pub to: u32,
    pub rules: Vec<MigrationRule>,
}

/// The texts of the notes among `rules`, in order.
pub open spec fn note_texts(rules: Seq<RuleSpec>) -> Seq<Seq<char>>
    decreases rules.len(),
{
    if rules.len() == 0 {
        Seq::empty()
    } else {
        note_texts(rules.drop_last()) + match rules.last() {
            RuleSpec::Note { text } => seq![text],
            _ => Seq::empty(),
        }
    }
}

pub open spec fn strs_view(v: Seq<&str>) -> Seq<Seq<char>> {
    v.map_values(|s: &str| s@)
}

impl MajorStep {
    pub fn notes(&self) -> (res: Vec<&str>)
        ensures
            strs_view(res@) == note_texts(rules_view(self.rules@)),
    {
        let mut out: Vec<&str> = Vec::new();
        let mut i: usize = 0;
        proof {
            assert(rules_view(self.rules@).take(0) =~= Seq::<RuleSpec>::empty());
            assert(strs_view(out@) =~= Seq::<Seq<char>>::empty());
        }
        while i < self.rules.len()
            invariant
                i <= self.rules@.len(),
                strs_view(out@) == note_texts(rules_view(self.rules@).take(i as int)),
            decreases self.rules@.len() - i,
        {
            let ghost before = strs_view(out@);
            match &self.rules[i] {
                MigrationRule::Note { text } => {
                    out.push(text.as_str());
                    proof {
                        assert(strs_view(out@) =~= before.push(text@));
                    }
                },
                _ => {},
            }
            proof {
                let rv = rules_view(self.rules@);
                assert(rv.take(i + 1).drop_last() =~= rv.take(i as int));
                assert(rv.take(i + 1).last() == self.rules@[i as int]@);
                assert(before + Seq::<Seq<char>>::empty() =~= before);
                assert(before + seq![self.rules@[i as int]->Note_text@] =~= before.push(self.rules@[i as int]->Note_text@));
            }
            i = i + 1;
        }
        proof {
            assert(rules_view(self.rules@).take(self.rules@.len() as int) =~= rules_view(self.rules@));
        }
        out
    }
}

/// A recommended version change for a third-party dependency.
#[derive(Debug, Clone)]
pub struct DependencySuggestion {
    pub package: String,
    pub from: String,
    pub to: String,
    pub reason: String,
}

/// The full, ordered migration plan from `from` to `to`.
#[derive(Debug, Clone)]
pub struct MigrationPlan {
    pub from: u32,
    pub to: u32,
    /// One step per major version traversed, in order.
    pub steps: Vec<MajorStep>,
    pub third_party: Vec<DependencySuggestion>,
}

pub open spec fn step_targets(steps: Seq<MajorStep>) -> Seq<u32> {
    steps.map_values(|s: MajorStep| s.to)
}

/// The notes of all steps, step by step.
pub open spec fn plan_notes(steps: Seq<MajorStep>) -> Seq<Seq<char>>
    decreases steps.len(),
{
    if steps.len() == 0 {
        Seq::empty()
    } else {
        plan_notes(steps.drop_last()) + note_texts(rules_view(steps.last().rules@))
    }
}

/// The rules that are not notes, in order.
pub open spec fn actions_of(rules: Seq<RuleSpec>) -> Seq<RuleSpec>
    decreases rules.len(),
{
    if rules.len() == 0 {
        Seq::empty()
    } else {
        actions_of(rules.drop_last()) + if rules.last() is Note {
            Seq::empty()
        } else {
            seq![rules.last()]
        }
    }
}

/// The rules of all steps that are not notes, step by step.
pub open spec fn plan_actions(steps: Seq<MajorStep>) -> Seq<RuleSpec>
    decreases steps.len(),
{
    if steps.len() == 0 {
        Seq::empty()
    } else {
        plan_actions(steps.drop_last()) + actions_of(rules_view(steps.last().rules@))
    }
}

pub open spec fn rule_refs_view(v: Seq<&MigrationRule>) -> Seq<RuleSpec> {
    v.map_values(|r: &MigrationRule| r@)
}

impl MigrationPlan {
    /// The majors reached, step by step.
    pub fn path(&self) -> (res: Vec<u32>)
        ensures
            res@ == step_targets(self.steps@),
    {
        let mut out: Vec<u32> = Vec::new();
        let mut i: usize = 0;
        while i < self.steps.len()
            invariant
                i <= self.steps@.len(),
                out@ == step_targets(self.steps@).take(i as int),
            decreases self.steps@.len() - i,
        {
            out.push(self.steps[i].to);
            proof {
                assert(step_targets(self.steps@).take(i + 1) =~= step_targets(self.steps@).take(
                    i as int,
                ).push(self.steps@[i as int].to));
            }
            i = i + 1;
        }
        proof {
            assert(step_targets(self.steps@).take(self.steps@.len() as int) =~= step_targets(
                self.steps@,
            ));
        }
        out
    }

    pub fn notes(&self) -> (res: Vec<&str>)
        ensures
            strs_view(res@) == plan_notes(self.steps@),
    {
        let mut out: Vec<&str> = Vec::new();
        let mut i: usize = 0;
        proof {
            assert(self.steps@.take(0) =~= Seq::<MajorStep>::empty());
            assert(strs_view(out@) =~= Seq::<Seq<char>>::empty());
        }
        while i < self.steps.len()
            invariant
                i <= self.steps@.len(),
                strs_view(out@) == plan_notes(self.steps@.take(i as int)),
            decreases self.steps@.len() - i,
        {
            let ns = self.steps[i].notes();
            let ghost before = strs_view(out@);
            let mut j: usize = 0;
            while j < ns.len()
                invariant
                    j <= ns@.len(),
                    strs_view(out@) == before + strs_view(ns@).take(j as int),
                decreases ns@.len() - j,
            {
                let ghost ob = strs_view(out@);
                out.push(ns[j]);
                proof {
                    assert(strs_view(out@) =~= ob.push(ns@[j as int]@));
                    assert(strs_view(ns@).take(j + 1) =~= strs_view(ns@).take(j as int).push(ns@[j as int]@));
                    assert(strs_view(out@) =~= before + strs_view(ns@).take(j + 1));
                }
                j = j + 1;
            }
            proof {
                assert(strs_view(ns@).take(ns@.len() as int) =~= strs_view(ns@));
                assert(self.steps@.take(i + 1).drop_last() =~= self.steps@.take(i as int));
            }
            i = i + 1;
        }
        proof {
            assert(self.steps@.take(self.steps@.len() as int) =~= self.steps@);
        }
        out
    }

    /// A single flattened list of every non-note rule.
    pub fn all_actions(&self) -> (res: Vec<&MigrationRule>)
        ensures
            rule_refs_view(res@) == plan_actions(self.steps@),
    {
        let mut out: Vec<&MigrationRule> = Vec::new();
        let mut i: usize = 0;
        proof {
            assert(self.steps@.take(0) =~= Seq::<MajorStep>::empty());
            assert(rule_refs_view(out@) =~= Seq::<RuleSpec>::empty());
        }
        while i < self.steps.len()
            invariant
                i <= self.steps@.len(),
                rule_refs_view(out@) == plan_actions(self.steps@.take(i as int)),
            decreases self.steps@.len() - i,
        {
            let rules = &self.steps[i].rules;
            let ghost before = rule_refs_view(out@);
            let ghost rv = rules_view(rules@);
            let mut j: usize = 0;
            proof {
                assert(rv.take(0) =~= Seq::<RuleSpec>::empty());
                assert(rule_refs_view(out@) =~= before + actions_of(rv.take(0)));
            }
            while j < rules.len()
                invariant
                    j <= rules@.len(),
                    rv == rules_view(rules@),
                    rule_refs_view(out@) == before + actions_of(rv.take(j as int)),
                decreases rules@.len() - j,
            {
                let ghost ob = rule_refs_view(out@);
                proof {
                    assert(rv.take(j + 1).drop_last() =~= rv.take(j as int));
                    assert(rv.take(j + 1).last() == rules@[j as int]@);
                }
                match &rules[j] {
                    MigrationRule::Note { .. } => {
                        proof {
                            assert(rule_refs_view(out@) =~= before + actions_of(rv.take(j + 1)));
                        }
                    },
                    r => {
                        out.push(r);
                        proof {
                            assert(rule_refs_view(out@) =~= ob.push(rules@[j as int]@));
                            assert(rule_refs_view(out@) =~= before + actions_of(rv.take(j + 1)));
                        }
                    },
                }
                j = j + 1;
            }
            proof {
                assert(rv.take(rules@.len() as int) =~= rv);
                assert(self.steps@.take(i + 1).drop_last() =~= self.steps@.take(i as int));
            }
            i = i + 1;
        }
        proof {
            assert(self.steps@.take(self.steps@.len() as int) =~= self.steps@);
        }
        out
    }
}


// ---------------------------------------------------------------------------
// npm version specifiers
// ---------------------------------------------------------------------------

/// Characters stripped from the front of a specifier: range operators,
/// `v`, spaces and tabs.
pub open spec fn is_lead_char(c: char) -> bool {
    c == '^' || c == '~' || c == '>' || c == '<' || c == '=' || c == 'v' || c == ' ' || c == '\t'
}

pub open spec fn skip_lead(t: Seq<char>, i: int) -> int
    decreases t.len() - i,
{
    if 0 <= i < t.len() && is_lead_char(t[i]) {
        skip_lead(t, i + 1)
    } else {
        i
    }
}

pub open spec fn skip_non_uws(t: Seq<char>, i: int) -> int
    decreases t.len() - i,
{
    if 0 <= i < t.len() && !is_unicode_ws(t[i]) {
        skip_non_uws(t, i + 1)
    } else {
        i
    }
}

pub open spec fn digits_end(t: Seq<char>, i: int) -> int
    decreases t.len() - i,
{
    if 0 <= i < t.len() && is_ascii_digit(t[i]) {
        digits_end(t, i + 1)
    } else {
        i
    }
}

/// The number written by the decimal digits `d`.
pub open spec fn digits_value(d: Seq<char>) -> nat
    decreases d.len(),
{
    if d.len() == 0 {
        0
    } else {
        digits_value(d.drop_last()) * 10 + ((d.last() as int) - ('0' as int)) as nat
    }
}

/// The major version named by an npm version specifier: `^12.2.0`,
/// `~12.1.x`, `>= 12.0.0`, `12`, `v12.0.0`, `>=12.0.0 <13.0.0` give 12;
/// `*`, `latest`, `next`, git URLs, `file:` and `workspace:` links, and
/// anything not starting with digits (after the range operators) give `None`,
/// as does a major too large for `u32`.
pub open spec fn major_of(spec: Seq<char>) -> Option<u32> {
    let t0 = trim(spec);
    if t0.len() == 0 || t0 == "*"@ || t0 == "latest"@ || t0 == "next"@ {
        None
    } else if contains(t0, "git+"@) || starts_with(t0, "file:"@) || starts_with(
        t0,
        "workspace:"@,
    ) {
        None
    } else {
        let t1 = if starts_with(t0, "npm:"@) {
            t0.skip("npm:"@.len() as int)
        } else {
            t0
        };
        let t2 = t1.skip(skip_lead(t1, 0));
        let a = skip_uws(t2, 0);
        let t3 = if a < t2.len() {
            t2.subrange(a, skip_non_uws(t2, a))
        } else {
            t2
        };
        let d = t3.take(digits_end(t3, 0));
        if d.len() == 0 {
            None
        } else if digits_value(d) <= u32::MAX {
            Some(digits_value(d) as u32)
        } else {
            None
        }
    }
}

proof fn lemma_scan_bounds(t: Seq<char>, i: int)
    requires
        0 <= i <= t.len(),
    ensures
        i <= skip_lead(t, i) <= t.len(),
        i <= skip_non_uws(t, i) <= t.len(),
        i <= digits_end(t, i) <= t.len(),
        forall|k: int| i <= k < digits_end(t, i) ==> is_ascii_digit(#[trigger] t[k]),
    decreases t.len() - i,
{
    if i < t.len() {
        lemma_scan_bounds(t, i + 1);
    }
}

proof fn lemma_digits_value_mono(d: Seq<char>, k: int)
    requires
        0 <= k <= d.len(),
        forall|j: int| 0 <= j < d.len() ==> is_ascii_digit(#[trigger] d[j]),
    ensures
        digits_value(d.take(k)) <= digits_value(d),
    decreases d.len() - k,
{
    if k < d.len() {
        lemma_digits_value_mono(d, k + 1);
        assert(d.take(k + 1).drop_last() =~= d.take(k));
    } else {
        assert(d.take(k) =~= d);
    }
}

fn chars_eq_lit(a: &[char], b: &str) -> (res: bool)
    ensures
        res == (a@ == b@),
{
    let bv = to_chars(b);
    if a.len() != bv.len() {
        return false;
    }
    let r = matches_at_exec(a, 0, bv.as_slice());
    proof {
        assert(a@.subrange(0, a@.len() as int) =~= a@);
    }
    r
}

/// Parse the major version out of an npm version specifier; see [`major_of`].
pub fn parse_major(spec: &str) -> (res: Option<u32>)
    ensures
        res == major_of(spec@),
{
    let sv = to_chars(spec);
    let t0 = trim_chars(sv.as_slice());
    if t0.len() == 0 || chars_eq_lit(t0.as_slice(), "*") || chars_eq_lit(t0.as_slice(), "latest")
        || chars_eq_lit(t0.as_slice(), "next") {
        return None;
    }
    if contains_str(t0.as_slice(), "git+") || starts_with_str(t0.as_slice(), "file:")
        || starts_with_str(t0.as_slice(), "workspace:") {
        return None;
    }
    let npm = to_chars("npm:");
    let t1 = if matches_at_exec(t0.as_slice(), 0, npm.as_slice()) {
        proof {
            assert(t0@.skip(npm@.len() as int) =~= t0@.subrange(npm@.len() as int, t0@.len() as int));
        }
        slice_to_vec(t0.as_slice(), npm.len(), t0.len())
    } else {
        t0
    };
    let mut a: usize = 0;
    proof {
        lemma_scan_bounds(t1@, 0);
    }
    while a < t1.len() && (t1[a] == '^' || t1[a] == '~' || t1[a] == '>' || t1[a] == '<' || t1[a]
        == '=' || t1[a] == 'v' || t1[a] == ' ' || t1[a] == '\t')
        invariant
            a <= t1@.len(),
            skip_lead(t1@, 0) == skip_lead(t1@, a as int),
        decreases t1@.len() - a,
    {
        a = a + 1;
    }
    let t2 = slice_to_vec(t1.as_slice(), a, t1.len());
    proof {
        assert(t1@.skip(a as int) =~= t2@);
        crate::text::lemma_skip_uws(t2@, 0);
    }
    let b = skip_uws_exec(t2.as_slice(), 0);
    let t3 = if b < t2.len() {
        let mut e = b;
        proof {
            lemma_scan_bounds(t2@, b as int);
        }
        while e < t2.len() && !unicode_ws(t2[e])
            invariant
                b <= e <= t2@.len(),
                skip_non_uws(t2@, b as int) == skip_non_uws(t2@, e as int),
            decreases t2@.len() - e,
        {
            e = e + 1;
        }
        slice_to_vec(t2.as_slice(), b, e)
    } else {
        t2
    };
    let mut k: usize = 0;
    let mut v: u64 = 0;
    proof {
        lemma_scan_bounds(t3@, 0);
        assert(t3@.take(0) =~= Seq::<char>::empty());
    }
    let ghost dd = t3@.take(digits_end(t3@, 0));
    assert(major_of(spec@) == (if dd.len() == 0 {
        None
    } else if digits_value(dd) <= u32::MAX {
        Some(digits_value(dd) as u32)
    } else {
        None
    }));
    while k < t3.len() && ascii_digit(t3[k])
        invariant
            k <= t3@.len(),
            dd == t3@.take(digits_end(t3@, 0)),
            major_of(spec@) == (if dd.len() == 0 {
                None
            } else if digits_value(dd) <= u32::MAX {
                Some(digits_value(dd) as u32)
            } else {
                None
            }),
            digits_end(t3@, 0) == digits_end(t3@, k as int),
            forall|j: int| 0 <= j < k ==> is_ascii_digit(#[trigger] t3@[j]),
            v == digits_value(t3@.take(k as int)),
            v <= u32::MAX,
        decreases t3@.len() - k,
    {
        let dgt = (t3[k] as u32) - ('0' as u32);
        let nv = v * 10 + dgt as u64;
        proof {
            assert(t3@.take(k + 1).drop_last() =~= t3@.take(k as int));
        }
        if nv > 0xFFFF_FFFF {
            proof {
                lemma_scan_bounds(t3@, 0);
                lemma_scan_bounds(t3@, k + 1);
                assert(digits_end(t3@, k as int) == digits_end(t3@, k + 1));
                let d = t3@.take(digits_end(t3@, 0));
                assert(d.take(k + 1) =~= t3@.take(k + 1));
                lemma_digits_value_mono(d, k + 1);
            }
            return None;
        }
        v = nv;
        k = k + 1;
    }
    if k == 0 {
        return None;
    }
    Some(v as u32)
}

} // verus!
