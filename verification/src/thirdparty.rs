//! Third-party dependency compatibility.
//!
//! Angular-ecosystem libraries (`@ngrx/*`, `ng-zorro-antd`, ...) tie their
//! release cadence to Angular's major version. Recommended bumps come from a
//! curated local table (always available) and, unless offline, from npm
//! registry lookups that the caller performs and hands in. Suggestions are
//! advisory: they are applied only on request.

use vstd::prelude::*;
use crate::model::{major_of, parse_major, DependencySuggestion};
use crate::package::{keys_sorted, all_deps_spec, all_dependencies_sorted, pairs_view, Project};
use crate::pattern::push_text;
use crate::text::{decimal, decimal_string, starts_with, starts_with_str, str_equal, str_lt, to_chars};

verus! {

/// A suggestion as plain values: package, current specifier, recommended
/// specifier, reason.
pub type SuggestionView = (Seq<char>, Seq<char>, Seq<char>, Seq<char>);

pub open spec fn suggestion_view(s: DependencySuggestion) -> SuggestionView {
    (s.package@, s.from@, s.to@, s.reason@)
}

pub open spec fn suggestions_view(v: Seq<DependencySuggestion>) -> Seq<SuggestionView> {
    v.map_values(|s: DependencySuggestion| suggestion_view(s))
}

/// For libraries whose major equals Angular's major: the Angular major from
/// which they do so.
pub open spec fn tracks_major_since(p: Seq<char>) -> Option<u32> {
    if p == "@ngrx/store"@ || p == "@ngrx/effects"@ || p == "@ngrx/router-store"@ || p
        == "@ngrx/entity"@ || p == "@ngrx/component-store"@ || p == "@ngrx/store-devtools"@ || p
        == "ng-zorro-antd"@ {
        Some(8)
    } else if p == "primeng"@ {
        Some(12)
    } else if p == "ngx-toastr"@ {
        Some(15)
    } else {
        None
    }
}

fn tracks_major_since_exec(p: &str) -> (res: Option<u32>)
    ensures
        res == tracks_major_since(p@),
{
    if str_equal(p, "@ngrx/store") || str_equal(p, "@ngrx/effects") || str_equal(
        p,
        "@ngrx/router-store",
    ) || str_equal(p, "@ngrx/entity") || str_equal(p, "@ngrx/component-store") || str_equal(
        p,
        "@ngrx/store-devtools",
    ) || str_equal(p, "ng-zorro-antd") {
        Some(8)
    } else if str_equal(p, "primeng") {
        Some(12)
    } else if str_equal(p, "ngx-toastr") {
        Some(15)
    } else {
        None
    }
}

/// Packages the alignment step owns; never suggested here.
pub open spec fn is_managed(p: Seq<char>) -> bool {
    starts_with(p, "@angular/"@) || starts_with(p, "@angular-devkit/"@) || p == "rxjs"@ || p
        == "zone.js"@ || p == "typescript"@ || p == "tslib"@ || p == "@types/node"@ || p
        == "@types/jasmine"@
}

fn is_managed_exec(p: &str) -> (res: bool)
    ensures
        res == is_managed(p@),
{
    let pc = to_chars(p);
    starts_with_str(pc.as_slice(), "@angular/") || starts_with_str(pc.as_slice(), "@angular-devkit/")
        || str_equal(p, "rxjs") || str_equal(p, "zone.js") || str_equal(p, "typescript")
        || str_equal(p, "tslib") || str_equal(p, "@types/node") || str_equal(p, "@types/jasmine")
}

/// `^{target}.0.0`.
pub open spec fn target_version_text(target: u32) -> Seq<char> {
    seq!['^'] + decimal(target as nat) + ".0.0"@
}

pub open spec fn tracking_reason(from: u32, target: u32) -> Seq<char> {
    "this library tracks the Angular major version (from v"@ + decimal(from as nat)
        + "); bump to match Angular "@ + decimal(target as nat)
}

pub open spec fn registry_reason(target: u32) -> Seq<char> {
    "latest version with a peerDependency on @angular/core compatible with Angular "@ + decimal(
        target as nat,
    )
}

/// The curated-table suggestion for one dependency `(package, specifier)`.
pub open spec fn local_suggestion(e: (Seq<char>, Seq<char>), target: u32) -> Option<SuggestionView> {
    if is_managed(e.0) {
        None
    } else {
        match major_of(e.1) {
            None => None,
            Some(current) => match tracks_major_since(e.0) {
                None => None,
                Some(from) => if current >= target || target < from {
                    None
                } else {
                    Some((e.0, e.1, target_version_text(target), tracking_reason(from, target)))
                },
            },
        }
    }
}

/// The curated-table suggestions for a dependency list, in its order.
pub open spec fn suggest_from(deps: Seq<(Seq<char>, Seq<char>)>, target: u32) -> Seq<SuggestionView>
    decreases deps.len(),
{
    if deps.len() == 0 {
        Seq::empty()
    } else {
        suggest_from(deps.drop_last(), target) + match local_suggestion(deps.last(), target) {
            Some(s) => seq![s],
            None => Seq::empty(),
        }
    }
}

fn target_version_exec(target: u32) -> (res: String)
    ensures
        res@ == target_version_text(target),
{
    let d = decimal_string(target as u64);
    let mut out = String::new();
    push_text(&mut out, "^");
    push_text(&mut out, d.as_str());
    push_text(&mut out, ".0.0");
    proof {
        reveal_strlit("^");
        assert(out@ =~= target_version_text(target));
    }
    out
}

fn tracking_reason_exec(from: u32, target: u32) -> (res: String)
    ensures
        res@ == tracking_reason(from, target),
{
    let f = decimal_string(from as u64);
    let t = decimal_string(target as u64);
    let mut out = String::new();
    push_text(&mut out, "this library tracks the Angular major version (from v");
    push_text(&mut out, f.as_str());
    push_text(&mut out, "); bump to match Angular ");
    push_text(&mut out, t.as_str());
    proof {
        assert(out@ =~= tracking_reason(from, target));
    }
    out
}

fn registry_reason_exec(target: u32) -> (res: String)
    ensures
        res@ == registry_reason(target),
{
    let t = decimal_string(target as u64);
    let mut out = String::new();
    push_text(&mut out, "latest version with a peerDependency on @angular/core compatible with Angular ");
    push_text(&mut out, t.as_str());
    proof {
        assert(out@ =~= registry_reason(target));
    }
    out
}

fn local_suggestion_exec(package: &String, spec: &String, target: u32) -> (res: Option<
    DependencySuggestion,
>)
    ensures
        match res {
            Some(s) => local_suggestion((package@, spec@), target) == Some(suggestion_view(s)),
            None => local_suggestion((package@, spec@), target) is None,
        },
{
    if is_managed_exec(package.as_str()) {
        return None;
    }
    let current = match parse_major(spec.as_str()) {
        Some(c) => c,
        None => {
            return None;
        },
    };
    let from = match tracks_major_since_exec(package.as_str()) {
        Some(f) => f,
        None => {
            return None;
        },
    };
    if current >= target || target < from {
        return None;
    }
    Some(
        DependencySuggestion {
            package: package.clone(),
            from: spec.clone(),
            to: target_version_exec(target),
            reason: tracking_reason_exec(from, target),
        },
    )
}

/// Advisory suggestions for the project's third-party dependencies from the
/// curated table, offline, sorted by package name.
pub fn suggest(project: &Project, target_major: u32) -> (res: Vec<DependencySuggestion>)
    ensures
        suggestions_view(res@) == suggest_from(all_deps_spec(project.package@), target_major),
{
    let all = project.package.all_dependencies();
    let ghost deps = pairs_view(all@);
    let mut out: Vec<DependencySuggestion> = Vec::new();
    let mut i: usize = 0;
    proof {
        assert(deps.take(0) =~= Seq::<(Seq<char>, Seq<char>)>::empty());
        assert(suggestions_view(out@) =~= Seq::<SuggestionView>::empty());
    }
    while i < all.len()
        invariant
            i <= all@.len(),
            deps == pairs_view(all@),
            suggestions_view(out@) == suggest_from(deps.take(i as int), target_major),
        decreases all@.len() - i,
    {
        let ghost before = suggestions_view(out@);
        proof {
            assert(deps.take(i + 1).drop_last() =~= deps.take(i as int));
            assert(deps.take(i + 1).last() == (all@[i as int].0@, all@[i as int].1@));
        }
        match local_suggestion_exec(&all[i].0, &all[i].1, target_major) {
            Some(s) => {
                out.push(s);
                proof {
                    assert(suggestions_view(out@) =~= before + seq![suggestion_view(out@.last())]);
                }
            },
            None => {
                proof {
                    assert(before + Seq::<SuggestionView>::empty() =~= before);
                }
            },
        }
        i = i + 1;
    }
    proof {
        assert(deps.take(all@.len() as int) =~= deps);
    }
    out
}

// ---------------------------------------------------------------------------
// Registry lookups
// ---------------------------------------------------------------------------

/// The registry result recorded for `package`: the first entry for it, when
/// that entry found a version.
pub open spec fn found_for(found: Seq<(Seq<char>, Option<Seq<char>>)>, package: Seq<char>, i: int) -> Option<
    Seq<char>,
>
    decreases found.len() - i,
{
    if i < 0 || i >= found.len() {
        None
    } else if found[i].0 == package {
        found[i].1
    } else {
        found_for(found, package, i + 1)
    }
}

pub open spec fn found_view(v: Seq<(String, Option<String>)>) -> Seq<(Seq<char>, Option<Seq<char>>)> {
    v.map_values(
        |e: (String, Option<String>)|
            (
                e.0@,
                match e.1 {
                    Some(s) => Some(s@),
                    None => None,
                },
            ),
    )
}

/// The suggestion a registry result gives for one dependency: the found
/// version, when its major (0 when it has none) is above the current one.
pub open spec fn registry_suggestion(
    e: (Seq<char>, Seq<char>),
    target: u32,
    found: Seq<(Seq<char>, Option<Seq<char>>)>,
) -> Option<SuggestionView> {
    if is_managed(e.0) {
        None
    } else {
        match major_of(e.1) {
            None => None,
            Some(current) => match found_for(found, e.0, 0) {
                None => None,
                Some(candidate) => {
                    let cand_major: u32 = match major_of(candidate) {
                        Some(m) => m,
                        None => 0,
                    };
                    if cand_major > current {
                        Some((e.0, e.1, candidate, registry_reason(target)))
                    } else {
                        None
                    }
                },
            },
        }
    }
}

/// Whether the registry is asked about a dependency: it is not managed, has
/// a readable major and no curated suggestion.
pub open spec fn needs_lookup(e: (Seq<char>, Seq<char>), target: u32) -> bool {
    !is_managed(e.0) && major_of(e.1) is Some && local_suggestion(e, target) is None
}

/// The curated suggestions merged with the registry ones, in the dependency
/// list's order.
pub open spec fn suggest_with_registry_from(
    deps: Seq<(Seq<char>, Seq<char>)>,
    target: u32,
    offline: bool,
    found: Seq<(Seq<char>, Option<Seq<char>>)>,
) -> Seq<SuggestionView>
    decreases deps.len(),
{
    if deps.len() == 0 {
        Seq::empty()
    } else {
        suggest_with_registry_from(deps.drop_last(), target, offline, found) + match local_suggestion(
            deps.last(),
            target,
        ) {
            Some(s) => seq![s],
            None => if offline {
                Seq::empty()
            } else {
                match registry_suggestion(deps.last(), target, found) {
                    Some(s) => seq![s],
                    None => Seq::empty(),
                }
            },
        }
    }
}

/// The packages to look up in the registry, in dependency order.
pub open spec fn lookups_from(deps: Seq<(Seq<char>, Seq<char>)>, target: u32) -> Seq<Seq<char>>
    decreases deps.len(),
{
    if deps.len() == 0 {
        Seq::empty()
    } else {
        lookups_from(deps.drop_last(), target) + if needs_lookup(deps.last(), target) {
            seq![deps.last().0]
        } else {
            Seq::empty()
        }
    }
}

/// The dependencies whose compatible version the registry should be asked
/// for (none when `offline`).
pub fn registry_lookups(project: &Project, target_major: u32, offline: bool) -> (res: Vec<String>)
    ensures
        res@.map_values(|s: String| s@) == if offline {
            Seq::<Seq<char>>::empty()
        } else {
            lookups_from(all_deps_spec(project.package@), target_major)
        },
{
    let mut out: Vec<String> = Vec::new();
    if offline {
        proof {
            assert(out@.map_values(|s: String| s@) =~= Seq::<Seq<char>>::empty());
        }
        return out;
    }
    let all = project.package.all_dependencies();
    let ghost deps = pairs_view(all@);
    let mut i: usize = 0;
    proof {
        assert(deps.take(0) =~= Seq::<(Seq<char>, Seq<char>)>::empty());
        assert(out@.map_values(|s: String| s@) =~= Seq::<Seq<char>>::empty());
    }
    while i < all.len()
        invariant
            i <= all@.len(),
            deps == pairs_view(all@),
            out@.map_values(|s: String| s@) == lookups_from(deps.take(i as int), target_major),
        decreases all@.len() - i,
    {
        let ghost before = out@.map_values(|s: String| s@);
        proof {
            assert(deps.take(i + 1).drop_last() =~= deps.take(i as int));
            assert(deps.take(i + 1).last() == (all@[i as int].0@, all@[i as int].1@));
        }
        let needed = !is_managed_exec(all[i].0.as_str()) && parse_major(all[i].1.as_str()).is_some()
            && local_suggestion_exec(&all[i].0, &all[i].1, target_major).is_none();
        if needed {
            out.push(all[i].0.clone());
            proof {
                assert(out@.map_values(|s: String| s@) =~= before + seq![all@[i as int].0@]);
            }
        } else {
            proof {
                assert(before + Seq::<Seq<char>>::empty() =~= before);
            }
        }
        i = i + 1;
    }
    proof {
        assert(deps.take(all@.len() as int) =~= deps);
    }
    out
}

fn found_for_exec(found: &[(String, Option<String>)], package: &str) -> (res: Option<String>)
    ensures
        match res {
            Some(s) => found_for(found_view(found@), package@, 0) == Some(s@),
            None => found_for(found_view(found@), package@, 0) is None,
        },
{
    let ghost fv = found_view(found@);
    let mut i: usize = 0;
    while i < found.len()
        invariant
            i <= found@.len(),
            fv == found_view(found@),
            found_for(fv, package@, 0) == found_for(fv, package@, i as int),
        decreases found@.len() - i,
    {
        proof {
            assert(fv[i as int].0 == found@[i as int].0@);
        }
        if str_equal(found[i].0.as_str(), package) {
            return match &found[i].1 {
                Some(s) => Some(s.clone()),
                None => None,
            };
        }
        i = i + 1;
    }
    None
}

fn registry_suggestion_exec(
    package: &String,
    spec: &String,
    target: u32,
    found: &[(String, Option<String>)],
) -> (res: Option<DependencySuggestion>)
    ensures
        match res {
            Some(s) => registry_suggestion((package@, spec@), target, found_view(found@)) == Some(
                suggestion_view(s),
            ),
            None => registry_suggestion((package@, spec@), target, found_view(found@)) is None,
        },
{
    if is_managed_exec(package.as_str()) {
        return None;
    }
    let current = match parse_major(spec.as_str()) {
        Some(c) => c,
        None => {
            return None;
        },
    };
    let candidate = match found_for_exec(found, package.as_str()) {
        Some(c) => c,
        None => {
            return None;
        },
    };
    let cand_major = match parse_major(candidate.as_str()) {
        Some(m) => m,
        None => 0,
    };
    if cand_major > current {
        Some(
            DependencySuggestion {
                package: package.clone(),
                from: spec.clone(),
                to: candidate,
                reason: registry_reason_exec(target),
            },
        )
    } else {
        None
    }
}

/// The curated suggestions, augmented (unless `offline`) with the registry
/// results in `found`: for each dependency the registry was asked about, the
/// version it reported as the newest compatible one (`None` when there was
/// none or the lookup failed). Sorted by package name.
pub fn suggest_with_registry(
    project: &Project,
    target_major: u32,
    offline: bool,
    found: &[(String, Option<String>)],
) -> (res: Vec<DependencySuggestion>)
    ensures
        suggestions_view(res@) == suggest_with_registry_from(
            all_deps_spec(project.package@),
            target_major,
            offline,
            found_view(found@),
        ),
{
    let all = project.package.all_dependencies();
    let ghost deps = pairs_view(all@);
    let ghost fv = found_view(found@);
    let mut out: Vec<DependencySuggestion> = Vec::new();
    let mut i: usize = 0;
    proof {
        assert(deps.take(0) =~= Seq::<(Seq<char>, Seq<char>)>::empty());
        assert(suggestions_view(out@) =~= Seq::<SuggestionView>::empty());
    }
    while i < all.len()
        invariant
            i <= all@.len(),
            deps == pairs_view(all@),
            fv == found_view(found@),
            suggestions_view(out@) == suggest_with_registry_from(
                deps.take(i as int),
                target_major,
                offline,
                fv,
            ),
        decreases all@.len() - i,
    {
        let ghost before = suggestions_view(out@);
        proof {
            assert(deps.take(i + 1).drop_last() =~= deps.take(i as int));
            assert(deps.take(i + 1).last() == (all@[i as int].0@, all@[i as int].1@));
        }
        let next = match local_suggestion_exec(&all[i].0, &all[i].1, target_major) {
            Some(s) => Some(s),
            None => {
                if offline {
                    None
                } else {
                    registry_suggestion_exec(&all[i].0, &all[i].1, target_major, found)
                }
            },
        };
        match next {
            Some(s) => {
                out.push(s);
                proof {
                    assert(suggestions_view(out@) =~= before + seq![suggestion_view(out@.last())]);
                }
            },
            None => {
                proof {
                    assert(before + Seq::<SuggestionView>::empty() =~= before);
                }
            },
        }
        i = i + 1;
    }
    proof {
        assert(deps.take(all@.len() as int) =~= deps);
    }
    out
}

// ---------------------------------------------------------------------------
// Order of the suggestions
// ---------------------------------------------------------------------------

/// Package names strictly ascending.
pub open spec fn packages_sorted(v: Seq<SuggestionView>) -> bool {
    forall|i: int, j: int| #![trigger v[i], v[j]] 0 <= i < j < v.len() ==> str_lt(v[i].0, v[j].0)
}

proof fn lemma_suggest_bound(deps: Seq<(Seq<char>, Seq<char>)>, target: u32, b: Seq<char>)
    requires
        forall|k: int| 0 <= k < deps.len() ==> str_lt(#[trigger] deps[k].0, b),
    ensures
        forall|i: int|
            0 <= i < suggest_from(deps, target).len() ==> str_lt(
                #[trigger] suggest_from(deps, target)[i].0,
                b,
            ),
    decreases deps.len(),
{
    if deps.len() > 0 {
        let d = deps.drop_last();
        assert forall|k: int| 0 <= k < d.len() implies str_lt(#[trigger] d[k].0, b) by {
            assert(d[k] == deps[k]);
        }
        lemma_suggest_bound(d, target, b);
        assert(str_lt(deps[deps.len() - 1].0, b));
        let r = suggest_from(deps, target);
        let a = suggest_from(d, target);
        assert forall|i: int| 0 <= i < r.len() implies str_lt(#[trigger] r[i].0, b) by {
            if i < a.len() {
                assert(r[i] == a[i]);
            } else {
                match local_suggestion(deps.last(), target) {
                    Some(x) => {
                        assert(r[i] == x);
                    },
                    None => {},
                }
            }
        }
    }
}

proof fn lemma_suggest_sorted(deps: Seq<(Seq<char>, Seq<char>)>, target: u32)
    requires
        keys_sorted(deps),
    ensures
        packages_sorted(suggest_from(deps, target)),
    decreases deps.len(),
{
    if deps.len() > 0 {
        let d = deps.drop_last();
        let last = deps.last();
        assert(keys_sorted(d)) by {
            assert forall|i: int, j: int| #![trigger d[i], d[j]] 0 <= i < j < d.len() implies str_lt(
                d[i].0,
                d[j].0,
            ) by {
                assert(d[i] == deps[i] && d[j] == deps[j]);
            }
        }
        lemma_suggest_sorted(d, target);
        assert forall|k: int| 0 <= k < d.len() implies str_lt(#[trigger] d[k].0, last.0) by {
            assert(d[k] == deps[k]);
            assert(str_lt(deps[k].0, deps[deps.len() - 1].0));
        }
        lemma_suggest_bound(d, target, last.0);
    }
}

proof fn lemma_registry_bound(
    deps: Seq<(Seq<char>, Seq<char>)>,
    target: u32,
    offline: bool,
    found: Seq<(Seq<char>, Option<Seq<char>>)>,
    b: Seq<char>,
)
    requires
        forall|k: int| 0 <= k < deps.len() ==> str_lt(#[trigger] deps[k].0, b),
    ensures
        forall|i: int|
            0 <= i < suggest_with_registry_from(deps, target, offline, found).len() ==> str_lt(
                #[trigger] suggest_with_registry_from(deps, target, offline, found)[i].0,
                b,
            ),
    decreases deps.len(),
{
    if deps.len() > 0 {
        let d = deps.drop_last();
        assert forall|k: int| 0 <= k < d.len() implies str_lt(#[trigger] d[k].0, b) by {
            assert(d[k] == deps[k]);
        }
        lemma_registry_bound(d, target, offline, found, b);
        assert(str_lt(deps[deps.len() - 1].0, b));
        let r = suggest_with_registry_from(deps, target, offline, found);
        let a = suggest_with_registry_from(d, target, offline, found);
        assert forall|i: int| 0 <= i < r.len() implies str_lt(#[trigger] r[i].0, b) by {
            if i < a.len() {
                assert(r[i] == a[i]);
            } else {
                match local_suggestion(deps.last(), target) {
                    Some(x) => {
                        assert(r[i] == x);
                    },
                    None => {
                        match registry_suggestion(deps.last(), target, found) {
                            Some(x) => {
                                assert(r[i] == x);
                            },
                            None => {},
                        }
                    },
                }
            }
        }
    }
}

proof fn lemma_registry_sorted(
    deps: Seq<(Seq<char>, Seq<char>)>,
    target: u32,
    offline: bool,
    found: Seq<(Seq<char>, Option<Seq<char>>)>,
)
    requires
        keys_sorted(deps),
    ensures
        packages_sorted(suggest_with_registry_from(deps, target, offline, found)),
    decreases deps.len(),
{
    if deps.len() > 0 {
        let d = deps.drop_last();
        let last = deps.last();
        assert(keys_sorted(d)) by {
            assert forall|i: int, j: int| #![trigger d[i], d[j]] 0 <= i < j < d.len() implies str_lt(
                d[i].0,
                d[j].0,
            ) by {
                assert(d[i] == deps[i] && d[j] == deps[j]);
            }
        }
        lemma_registry_sorted(d, target, offline, found);
        assert forall|k: int| 0 <= k < d.len() implies str_lt(#[trigger] d[k].0, last.0) by {
            assert(d[k] == deps[k]);
            assert(str_lt(deps[k].0, deps[deps.len() - 1].0));
        }
        lemma_registry_bound(d, target, offline, found, last.0);
    }
}

/// The curated suggestions come out sorted by package name, each package at
/// most once.
pub proof fn suggestions_are_sorted(project: Project, target_major: u32)
    ensures
        packages_sorted(suggest_from(all_deps_spec(project.package@), target_major)),
{
    all_dependencies_sorted(project.package@);
    lemma_suggest_sorted(all_deps_spec(project.package@), target_major);
}

/// Curated and registry suggestions together come out sorted by package
/// name, each package at most once.
pub proof fn registry_suggestions_are_sorted(
    project: Project,
    target_major: u32,
    offline: bool,
    found: Seq<(Seq<char>, Option<Seq<char>>)>,
)
    ensures
        packages_sorted(
            suggest_with_registry_from(all_deps_spec(project.package@), target_major, offline, found),
        ),
{
    all_dependencies_sorted(project.package@);
    lemma_registry_sorted(all_deps_spec(project.package@), target_major, offline, found);
}

proof fn lemma_suggest_members(deps: Seq<(Seq<char>, Seq<char>)>, target: u32)
    ensures
        forall|x: SuggestionView|
            #[trigger] suggest_from(deps, target).contains(x) <==> exists|j: int|
                0 <= j < deps.len() && local_suggestion(deps[j], target) == Some(x),
    decreases deps.len(),
{
    if deps.len() == 0 {
        assert forall|x: SuggestionView| #[trigger] suggest_from(deps, target).contains(x) <==> exists|j: int|
            0 <= j < deps.len() && local_suggestion(deps[j], target) == Some(x) by {
            assert(suggest_from(deps, target) =~= Seq::<SuggestionView>::empty());
        }
    } else {
        let d = deps.drop_last();
        lemma_suggest_members(d, target);
        let a = suggest_from(d, target);
        let tail: Seq<SuggestionView> = match local_suggestion(deps.last(), target) {
            Some(x) => seq![x],
            None => Seq::empty(),
        };
        let r = suggest_from(deps, target);
        assert(r == a + tail);
        assert forall|x: SuggestionView| #[trigger] r.contains(x) <==> exists|j: int|
            0 <= j < deps.len() && local_suggestion(deps[j], target) == Some(x) by {
            if r.contains(x) {
                let k = choose|k: int| 0 <= k < r.len() && r[k] == x;
                if k < a.len() {
                    assert(r[k] == a[k]);
                    assert(a.contains(x));
                    let j = choose|j: int| 0 <= j < d.len() && local_suggestion(d[j], target) == Some(x);
                    assert(d[j] == deps[j]);
                } else {
                    assert(r[k] == tail[k - a.len()]);
                    assert(local_suggestion(deps[deps.len() - 1], target) == Some(x));
                }
            }
            if exists|j: int| 0 <= j < deps.len() && local_suggestion(deps[j], target) == Some(x) {
                let j = choose|j: int| 0 <= j < deps.len() && local_suggestion(deps[j], target) == Some(x);
                if j < d.len() {
                    assert(d[j] == deps[j]);
                    assert(a.contains(x));
                    let k = choose|k: int| 0 <= k < a.len() && a[k] == x;
                    assert(r[k] == a[k]);
                } else {
                    assert(tail =~= seq![x]);
                    assert(r[a.len() as int] == x);
                }
            }
        }
    }
}

/// The curated suggestions are exactly the tracked bumps: a suggestion is in
/// the list if and only if some dependency gives it, that is, the package is
/// not managed, its major is readable and below the target, it tracks
/// Angular's major from a version not above the target, and the suggestion
/// recommends `^{target}.0.0`.
pub proof fn suggestions_are_tracked_bumps(project: Project, target_major: u32)
    ensures
        forall|x: SuggestionView|
            #[trigger] suggest_from(all_deps_spec(project.package@), target_major).contains(x)
                <==> exists|j: int|
                0 <= j < all_deps_spec(project.package@).len() && local_suggestion(
                    all_deps_spec(project.package@)[j],
                    target_major,
                ) == Some(x),
{
    lemma_suggest_members(all_deps_spec(project.package@), target_major);
}

} // verus!
