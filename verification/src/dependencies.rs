//! `package.json` edits: dependency rules, version alignment to a catalog
//! major, npm-script rules and third-party suggestions.

use vstd::prelude::*;
use crate::catalog::{
    catalog_entry, catalog_major, is_material_package, is_monorepo_package, material_package,
    monorepo_package, typescript_spec, typescript_spec_text, AngularMajor,
};
use crate::model::{rules_view, DependencySuggestion, MigrationRule, RuleSpec};
use crate::package::{
    all_deps_spec, find_key, key_index, keys_unique, last_value, lemma_key_index,
    lemma_section_value, merged_dependency_lookup, opt_section_view, pairs_get, remove_key,
    section_get, section_remove, section_set, section_view, set_key, string_entries, PackageJson,
    PackageView, Section, SectionView,
};
use crate::pattern::{push_text, strip_flags, strip_flags_spec};
use crate::text::{
    decimal, contains, contains_str, find_from, matches_at, starts_with, starts_with_str, str_equal, to_chars,
};

verus! {

// ---------------------------------------------------------------------------
// Dependency rules
// ---------------------------------------------------------------------------

/// Updates `package` in a section where it is already present and has
/// another value; whether it changed.
pub open spec fn update_section_spec(sec: Option<SectionView>, package: Seq<char>, version: Seq<char>) -> (
    Option<SectionView>,
    bool,
) {
    match sec {
        None => (None, false),
        Some(s) => match section_get(s, package) {
            None => (sec, false),
            Some(v) => if v == Some(version) {
                (sec, false)
            } else {
                (Some(section_set(s, package, version)), true)
            },
        },
    }
}

pub open spec fn with_deps(p: PackageView, d: Option<SectionView>) -> PackageView {
    PackageView { name: p.name, deps: d, dev: p.dev, scripts: p.scripts }
}

pub open spec fn with_dev(p: PackageView, d: Option<SectionView>) -> PackageView {
    PackageView { name: p.name, deps: p.deps, dev: d, scripts: p.scripts }
}

pub open spec fn with_scripts(p: PackageView, s: Option<SectionView>) -> PackageView {
    PackageView { name: p.name, deps: p.deps, dev: p.dev, scripts: s }
}

/// Updates an existing dependency where it appears: `dependencies` first,
/// `devDependencies` only when the first did not change.
pub open spec fn update_in_place_spec(p: PackageView, package: Seq<char>, version: Seq<char>) -> (
    PackageView,
    bool,
) {
    let (d, c) = update_section_spec(p.deps, package, version);
    if c {
        (with_deps(p, d), true)
    } else {
        let (e, c2) = update_section_spec(p.dev, package, version);
        (with_dev(p, e), c2)
    }
}

/// Removes `package` from a section; whether it was there.
pub open spec fn remove_section_spec(sec: Option<SectionView>, package: Seq<char>) -> (
    Option<SectionView>,
    bool,
) {
    match sec {
        None => (None, false),
        Some(s) => if key_index(s, package, 0) >= 0 {
            (Some(section_remove(s, package)), true)
        } else {
            (sec, false)
        },
    }
}

/// Removes `package` from both dependency sections.
pub open spec fn remove_anywhere_spec(p: PackageView, package: Seq<char>) -> (PackageView, bool) {
    let (d, c1) = remove_section_spec(p.deps, package);
    let (e, c2) = remove_section_spec(p.dev, package);
    (PackageView { name: p.name, deps: d, dev: e, scripts: p.scripts }, c1 || c2)
}

/// Sets `package` to `version` in a section, creating the section when it is
/// missing; unchanged (and `false`) only when the value is already `version`.
pub open spec fn add_or_update_spec(sec: Option<SectionView>, package: Seq<char>, version: Seq<char>) -> (
    Option<SectionView>,
    bool,
) {
    match sec {
        Some(s) => if section_get(s, package) == Some(Some(version)) {
            (sec, false)
        } else {
            (Some(section_set(s, package, version)), true)
        },
        None => (Some(seq![(package, Some(version))]), true),
    }
}

/// One dependency rule applied to a package; whether it changed anything.
pub open spec fn dep_rule_step(p: PackageView, r: RuleSpec) -> (PackageView, bool) {
    match r {
        RuleSpec::DepUpdate { package, version } => update_in_place_spec(p, package, version),
        RuleSpec::DepRemove { package } => remove_anywhere_spec(p, package),
        RuleSpec::DepAdd { package, version, dev } => if dev {
            let (d, c) = add_or_update_spec(p.dev, package, version);
            (with_dev(p, d), c)
        } else {
            let (d, c) = add_or_update_spec(p.deps, package, version);
            (with_deps(p, d), c)
        },
        _ => (p, false),
    }
}

/// The dependency rules applied in order, with the number that changed
/// something.
pub open spec fn dep_rules_spec(p: PackageView, rules: Seq<RuleSpec>) -> (PackageView, nat)
    decreases rules.len(),
{
    if rules.len() == 0 {
        (p, 0)
    } else {
        let (q, n) = dep_rules_spec(p, rules.drop_last());
        let (q2, c) = dep_rule_step(q, rules.last());
        (q2, n + if c { 1nat } else { 0nat })
    }
}

fn section_value_is(s: &Section, i: usize, version: &str) -> (res: bool)
    requires
        i < s@.len(),
    ensures
        res == (section_view(s@)[i as int].1 == Some(version@)),
{
    match &s[i].1 {
        Some(v) => str_equal(v.as_str(), version),
        None => false,
    }
}

fn update_section(sec: &mut Option<Section>, package: &str, version: &str) -> (res: bool)
    ensures
        (opt_section_view(*final(sec)), res) == update_section_spec(
            opt_section_view(*old(sec)),
            package@,
            version@,
        ),
{
    let taken = sec.take();
    match taken {
        None => false,
        Some(mut s) => {
            match find_key(&s, package) {
                None => {
                    *sec = Some(s);
                    false
                },
                Some(i) => {
                    if section_value_is(&s, i, version) {
                        *sec = Some(s);
                        false
                    } else {
                        set_key(&mut s, package, version.to_owned());
                        *sec = Some(s);
                        true
                    }
                },
            }
        },
    }
}

fn update_in_place(pkg: &mut PackageJson, package: &str, version: &str) -> (res: bool)
    ensures
        (final(pkg)@, res) == update_in_place_spec(old(pkg)@, package@, version@),
{
    if update_section(&mut pkg.dependencies, package, version) {
        return true;
    }
    update_section(&mut pkg.dev_dependencies, package, version)
}

fn remove_section(sec: &mut Option<Section>, package: &str) -> (res: bool)
    ensures
        (opt_section_view(*final(sec)), res) == remove_section_spec(opt_section_view(*old(sec)), package@),
{
    let taken = sec.take();
    match taken {
        None => false,
        Some(mut s) => {
            let r = remove_key(&mut s, package);
            *sec = Some(s);
            r
        },
    }
}

fn remove_anywhere(pkg: &mut PackageJson, package: &str) -> (res: bool)
    ensures
        (final(pkg)@, res) == remove_anywhere_spec(old(pkg)@, package@),
{
    let a = remove_section(&mut pkg.dependencies, package);
    let b = remove_section(&mut pkg.dev_dependencies, package);
    a || b
}

fn add_or_update(sec: &mut Option<Section>, package: &str, version: &str) -> (res: bool)
    ensures
        (opt_section_view(*final(sec)), res) == add_or_update_spec(opt_section_view(*old(sec)), package@, version@),
{
    let taken = sec.take();
    match taken {
        Some(mut s) => {
            match find_key(&s, package) {
                Some(i) => {
                    if section_value_is(&s, i, version) {
                        *sec = Some(s);
                        return false;
                    }
                },
                None => {},
            }
            set_key(&mut s, package, version.to_owned());
            *sec = Some(s);
            true
        },
        None => {
            let mut s: Section = Vec::new();
            s.push((package.to_owned(), Some(version.to_owned())));
            proof {
                assert(section_view(s@) =~= seq![(package@, Some(version@))]);
            }
            *sec = Some(s);
            true
        },
    }
}

/// Applies one dependency rule; whether it changed the package.
pub(crate) fn dep_rule(pkg: &mut PackageJson, rule: &MigrationRule) -> (res: bool)
    ensures
        (final(pkg)@, res) == dep_rule_step(old(pkg)@, rule@),
{
    match rule {
        MigrationRule::DepUpdate { package, version } => update_in_place(pkg, package, version),
        MigrationRule::DepRemove { package } => remove_anywhere(pkg, package),
        MigrationRule::DepAdd { package, version, dev } => {
            if *dev {
                add_or_update(&mut pkg.dev_dependencies, package, version)
            } else {
                add_or_update(&mut pkg.dependencies, package, version)
            }
        },
        _ => false,
    }
}

/// Applies the dependency rules (`DepUpdate`, `DepRemove`, `DepAdd`) in
/// order; the others are ignored. Returns the number of rules that changed
/// the package.
pub fn apply_dep_rules(pkg: &mut PackageJson, rules: &[MigrationRule]) -> (res: usize)
    ensures
        final(pkg)@ == dep_rules_spec(old(pkg)@, rules_view(rules@)).0,
        res == dep_rules_spec(old(pkg)@, rules_view(rules@)).1,
{
    let ghost p0 = pkg@;
    let ghost rs = rules_view(rules@);
    let mut changes: usize = 0;
    let mut i: usize = 0;
    proof {
        assert(rs.take(0) =~= Seq::<RuleSpec>::empty());
    }
    while i < rules.len()
        invariant
            i <= rules@.len(),
            rs == rules_view(rules@),
            pkg@ == dep_rules_spec(p0, rs.take(i as int)).0,
            changes == dep_rules_spec(p0, rs.take(i as int)).1,
            changes <= i,
        decreases rules@.len() - i,
    {
        proof {
            assert(rs.take(i + 1).drop_last() =~= rs.take(i as int));
            assert(rs.take(i + 1).last() == rules@[i as int]@);
        }
        if dep_rule(pkg, &rules[i]) {
            changes = changes + 1;
        }
        i = i + 1;
    }
    proof {
        assert(rs.take(rules@.len() as int) =~= rs);
    }
    changes
}

/// Unique keys in a section, when there is one (as in any JSON object).
pub open spec fn keys_unique_opt(o: Option<SectionView>) -> bool {
    match o {
        Some(s) => keys_unique(s),
        None => true,
    }
}

proof fn lemma_no_key_after_remove(s: SectionView, package: Seq<char>)
    requires
        keys_unique(s),
    ensures
        forall|m: int|
            0 <= m < section_remove(s, package).len() ==> section_remove(s, package)[m].0 != package,
{
    lemma_key_index(s, package, 0);
    let i = key_index(s, package, 0);
    let r = section_remove(s, package);
    if i >= 0 {
        assert forall|m: int| 0 <= m < r.len() implies r[m].0 != package by {
            if m == i {
                assert(r[m] == s[s.len() - 1]);
                assert(s[i].0 != s[s.len() - 1].0);
            } else {
                assert(r[m] == s[m]);
                if m < i {
                    assert(s[m].0 != s[i].0);
                } else {
                    assert(s[i].0 != s[m].0);
                }
            }
        }
    }
}

proof fn lemma_removed_section(sec: Option<SectionView>, package: Seq<char>)
    requires
        keys_unique_opt(sec),
    ensures
        last_value(string_entries(remove_section_spec(sec, package).0), package) is None,
{
    match sec {
        None => {},
        Some(s) => {
            lemma_key_index(s, package, 0);
            if key_index(s, package, 0) >= 0 {
                lemma_no_key_after_remove(s, package);
                lemma_section_value(section_remove(s, package), package);
            } else {
                lemma_section_value(s, package);
            }
        },
    }
}

/// Reading back a removal: once a `DepRemove` has run, the merged
/// dependency map no longer has the package.
pub proof fn removed_dependency_is_gone(p: PackageView, package: Seq<char>)
    requires
        keys_unique_opt(p.deps),
        keys_unique_opt(p.dev),
    ensures
        pairs_get(all_deps_spec(remove_anywhere_spec(p, package).0), package, 0) is None,
{
    lemma_removed_section(p.deps, package);
    lemma_removed_section(p.dev, package);
    merged_dependency_lookup(remove_anywhere_spec(p, package).0, package);
}

/// Reading back an update: a `DepUpdate` of a package that is in
/// `dependencies` and not in `devDependencies` makes the merged map give the
/// new version.
pub proof fn updated_dependency_reads_back(p: PackageView, package: Seq<char>, version: Seq<char>)
    requires
        keys_unique_opt(p.deps),
        keys_unique_opt(p.dev),
        p.deps matches Some(s) && key_index(s, package, 0) >= 0,
        p.dev matches Some(e) ==> key_index(e, package, 0) < 0,
    ensures
        pairs_get(all_deps_spec(update_in_place_spec(p, package, version).0), package, 0) == Some(
            version,
        ),
{
    let s = p.deps->0;
    lemma_key_index(s, package, 0);
    let i = key_index(s, package, 0);
    let q = update_in_place_spec(p, package, version).0;
    match p.dev {
        Some(e) => {
            lemma_key_index(e, package, 0);
            lemma_section_value(e, package);
        },
        None => {},
    }
    assert(last_value(string_entries(p.dev), package) is None);
    if s[i].1 == Some(version) {
        lemma_section_value(s, package);
        assert(s[i].0 == package);
        assert(q.dev == p.dev);
        assert(q.deps == p.deps);
        assert(last_value(string_entries(q.deps), package) == Some(version));
    } else {
        let s2 = section_set(s, package, version);
        assert(s2 == s.update(i, (package, Some(version))));
        assert(keys_unique(s2)) by {
            assert forall|a: int, b: int| #![trigger s2[a], s2[b]] 0 <= a < b < s2.len() implies s2[a].0 != s2[b].0 by {
                assert(s2[a].0 == s[a].0 && s2[b].0 == s[b].0);
            }
        }
        lemma_section_value(s2, package);
        assert(s2[i].0 == package && s2[i].1 == Some(version));
        assert(q.deps == Some(s2));
        assert(q.dev == p.dev);
        assert(last_value(string_entries(q.deps), package) == Some(version));
    }
    merged_dependency_lookup(q, package);
}

/// The suggestions applied in order as in-place updates.
pub open spec fn suggestions_spec(p: PackageView, s: Seq<DependencySuggestion>) -> (PackageView, nat)
    decreases s.len(),
{
    if s.len() == 0 {
        (p, 0)
    } else {
        let (q, n) = suggestions_spec(p, s.drop_last());
        let (q2, c) = update_in_place_spec(q, s.last().package@, s.last().to@);
        (q2, n + if c { 1nat } else { 0nat })
    }
}

/// Applies third-party suggestions as in-place updates of existing
/// dependencies; returns how many changed the package.
pub fn apply_suggestions(pkg: &mut PackageJson, suggestions: &[DependencySuggestion]) -> (res: usize)
    ensures
        final(pkg)@ == suggestions_spec(old(pkg)@, suggestions@).0,
        res == suggestions_spec(old(pkg)@, suggestions@).1,
{
    let ghost p0 = pkg@;
    let mut changes: usize = 0;
    let mut i: usize = 0;
    while i < suggestions.len()
        invariant
            i <= suggestions@.len(),
            pkg@ == suggestions_spec(p0, suggestions@.take(i as int)).0,
            changes == suggestions_spec(p0, suggestions@.take(i as int)).1,
            changes <= i,
        decreases suggestions@.len() - i,
    {
        proof {
            assert(suggestions@.take(i + 1).drop_last() =~= suggestions@.take(i as int));
        }
        if update_in_place(pkg, &suggestions[i].package, &suggestions[i].to) {
            changes = changes + 1;
        }
        i = i + 1;
    }
    proof {
        assert(suggestions@.take(suggestions@.len() as int) =~= suggestions@);
    }
    changes
}

// ---------------------------------------------------------------------------
// Alignment to a catalog major
// ---------------------------------------------------------------------------

/// The version specifier the catalog entry `cat` prescribes for `key`, for
/// the packages the alignment manages.
pub open spec fn managed_spec(key: Seq<char>, cat: AngularMajor) -> Option<Seq<char>> {
    if is_monorepo_package(key) {
        Some(seq!['^'] + cat.core@)
    } else if key == "@angular/cli"@ {
        Some(seq!['^'] + cat.cli@)
    } else if is_material_package(key) {
        Some(seq!['^'] + cat.material@)
    } else if starts_with(key, "@angular-devkit/"@) {
        Some(seq!['^'] + cat.cli@)
    } else if key == "rxjs"@ {
        Some(seq!['^'] + cat.rxjs@)
    } else if key == "zone.js"@ {
        Some(seq!['^'] + cat.zone_js@)
    } else if key == "typescript"@ {
        Some(typescript_spec_text(cat))
    } else if key == "tslib"@ {
        Some(seq!['^'] + cat.tslib@)
    } else {
        None
    }
}

/// Every managed entry of a section set to its prescribed value, with the
/// number of entries whose value changed.
pub open spec fn align_entries(s: SectionView, cat: AngularMajor) -> (SectionView, nat)
    decreases s.len(),
{
    if s.len() == 0 {
        (s, 0)
    } else {
        let (a, n) = align_entries(s.drop_last(), cat);
        let e = s.last();
        match managed_spec(e.0, cat) {
            Some(v) => if e.1 == Some(v) {
                (a.push(e), n)
            } else {
                (a.push((e.0, Some(v))), n + 1)
            },
            None => (a.push(e), n),
        }
    }
}

pub open spec fn align_section_spec(sec: Option<SectionView>, cat: AngularMajor) -> (
    Option<SectionView>,
    nat,
) {
    match sec {
        None => (None, 0),
        Some(s) => (Some(align_entries(s, cat).0), align_entries(s, cat).1),
    }
}

/// Both dependency sections aligned to the catalog entry of `target`
/// (unchanged when the major is not in the catalog), with the number of
/// changed entries.
pub open spec fn align_spec(p: PackageView, target: u32) -> (PackageView, nat) {
    match catalog_entry(target) {
        None => (p, 0),
        Some(cat) => {
            let (d, n1) = align_section_spec(p.deps, cat);
            let (e, n2) = align_section_spec(p.dev, cat);
            (PackageView { name: p.name, deps: d, dev: e, scripts: p.scripts }, n1 + n2)
        },
    }
}

pub open spec fn section_len(s: Option<Section>) -> nat {
    match s {
        Some(v) => v@.len(),
        None => 0,
    }
}

fn caret(v: &str) -> (res: String)
    ensures
        res@ == seq!['^'] + v@,
{
    let mut out = String::new();
    push_text(&mut out, "^");
    push_text(&mut out, v);
    proof {
        reveal_strlit("^");
        assert(out@ =~= seq!['^'] + v@);
    }
    out
}

fn managed_spec_exec(key: &str, cat: &AngularMajor) -> (res: Option<String>)
    ensures
        match res {
            Some(v) => managed_spec(key@, *cat) == Some(v@),
            None => managed_spec(key@, *cat) is None,
        },
{
    let kc = to_chars(key);
    if monorepo_package(key) {
        Some(caret(cat.core))
    } else if str_equal(key, "@angular/cli") {
        Some(caret(cat.cli))
    } else if material_package(key) {
        Some(caret(cat.material))
    } else if starts_with_str(kc.as_slice(), "@angular-devkit/") {
        Some(caret(cat.cli))
    } else if str_equal(key, "rxjs") {
        Some(caret(cat.rxjs))
    } else if str_equal(key, "zone.js") {
        Some(caret(cat.zone_js))
    } else if str_equal(key, "typescript") {
        Some(typescript_spec(cat))
    } else if str_equal(key, "tslib") {
        Some(caret(cat.tslib))
    } else {
        None
    }
}

fn align_section(sec: &mut Option<Section>, cat: &AngularMajor) -> (res: usize)
    ensures
        opt_section_view(*final(sec)) == align_section_spec(opt_section_view(*old(sec)), *cat).0,
        res == align_section_spec(opt_section_view(*old(sec)), *cat).1,
        res <= section_len(*old(sec)),
        section_len(*final(sec)) == section_len(*old(sec)),
{
    let taken = sec.take();
    match taken {
        None => 0,
        Some(mut s) => {
            let ghost s0 = section_view(s@);
            let mut changes: usize = 0;
            let mut i: usize = 0;
            proof {
                assert(s0.take(0) =~= Seq::<(Seq<char>, Option<Seq<char>>)>::empty());
                assert(section_view(s@).take(0) =~= align_entries(s0.take(0), *cat).0);
            }
            while i < s.len()
                invariant
                    i <= s@.len(),
                    s@.len() == s0.len(),
                    section_view(s@).take(i as int) == align_entries(s0.take(i as int), *cat).0,
                    section_view(s@).skip(i as int) == s0.skip(i as int),
                    changes == align_entries(s0.take(i as int), *cat).1,
                    changes <= i,
                decreases s@.len() - i,
            {
                let ghost before = section_view(s@);
                proof {
                    assert(s0.take(i + 1).drop_last() =~= s0.take(i as int));
                    assert(s0.take(i + 1).last() == s0[i as int]);
                    assert(before.skip(i as int)[0] == s0.skip(i as int)[0]);
                    assert(before[i as int] == s0[i as int]);
                }
                let key = s[i].0.clone();
                match managed_spec_exec(key.as_str(), cat) {
                    Some(v) => {
                        if !section_value_is(&s, i, v.as_str()) {
                            s.set(i, (key, Some(v)));
                            changes = changes + 1;
                            proof {
                                assert(section_view(s@) =~= before.update(i as int, (s0[i as int].0, Some(v@))));
                                assert(section_view(s@).take(i + 1) =~= before.take(i as int).push((s0[i as int].0, Some(v@))));
                                assert(section_view(s@).skip(i + 1) =~= before.skip(i + 1));
                                assert(before.skip(i + 1) =~= before.skip(i as int).skip(1));
                                assert(s0.skip(i + 1) =~= s0.skip(i as int).skip(1));
                            }
                        } else {
                            proof {
                                assert(section_view(s@).take(i + 1) =~= before.take(i as int).push(s0[i as int]));
                                assert(before.skip(i + 1) =~= before.skip(i as int).skip(1));
                                assert(s0.skip(i + 1) =~= s0.skip(i as int).skip(1));
                            }
                        }
                    },
                    None => {
                        proof {
                            assert(section_view(s@).take(i + 1) =~= before.take(i as int).push(s0[i as int]));
                            assert(before.skip(i + 1) =~= before.skip(i as int).skip(1));
                            assert(s0.skip(i + 1) =~= s0.skip(i as int).skip(1));
                        }
                    },
                }
                i = i + 1;
            }
            proof {
                assert(s0.take(s0.len() as int) =~= s0);
                assert(section_view(s@).take(s@.len() as int) =~= section_view(s@));
            }
            *sec = Some(s);
            changes
        },
    }
}

/// Aligns every managed dependency (`@angular/*`, `@angular-devkit/*`,
/// `rxjs`, `zone.js`, `typescript`, `tslib`) to the catalog versions of
/// `target_major`; returns the number of changed versions (0 when the major
/// is not in the catalog).
pub fn align_dependencies(pkg: &mut PackageJson, target_major: u32) -> (res: usize)
    requires
        section_len(old(pkg).dependencies) + section_len(old(pkg).dev_dependencies) <= usize::MAX,
    ensures
        final(pkg)@ == align_spec(old(pkg)@, target_major).0,
        res == align_spec(old(pkg)@, target_major).1,
{
    let cat = match catalog_major(target_major) {
        Some(c) => c,
        None => {
            return 0;
        },
    };
    let a = align_section(&mut pkg.dependencies, &cat);
    let b = align_section(&mut pkg.dev_dependencies, &cat);
    a + b
}

/// Every managed entry of the section has the value the catalog entry
/// prescribes.
pub open spec fn section_aligned(s: SectionView, cat: AngularMajor) -> bool {
    forall|i: int|
        0 <= i < s.len() ==> match managed_spec((#[trigger] s[i]).0, cat) {
            Some(v) => s[i].1 == Some(v),
            None => true,
        }
}

proof fn lemma_align_entries(s: SectionView, cat: AngularMajor)
    ensures
        align_entries(s, cat).0.len() == s.len(),
        section_aligned(align_entries(s, cat).0, cat),
        forall|i: int| 0 <= i < s.len() ==> (#[trigger] align_entries(s, cat).0[i]).0 == s[i].0,
        forall|i: int|
            0 <= i < s.len() && managed_spec(s[i].0, cat) is None ==> #[trigger] align_entries(
                s,
                cat,
            ).0[i] == s[i],
    decreases s.len(),
{
    if s.len() > 0 {
        let d = s.drop_last();
        lemma_align_entries(d, cat);
        let a = align_entries(d, cat).0;
        let r = align_entries(s, cat).0;
        assert forall|i: int| 0 <= i < r.len() implies match managed_spec((#[trigger] r[i]).0, cat) {
            Some(v) => r[i].1 == Some(v),
            None => true,
        } by {
            if i < a.len() {
                assert(r[i] == a[i]);
            }
        }
        assert forall|i: int| 0 <= i < s.len() implies (#[trigger] r[i]).0 == s[i].0 by {
            if i < a.len() {
                assert(r[i] == a[i]);
                assert(d[i] == s[i]);
            }
        }
        assert forall|i: int|
            0 <= i < s.len() && managed_spec(s[i].0, cat) is None implies #[trigger] r[i] == s[i] by {
            if i < a.len() {
                assert(r[i] == a[i]);
                assert(d[i] == s[i]);
            }
        }
    }
}

proof fn lemma_aligned_fixpoint(s: SectionView, cat: AngularMajor)
    requires
        section_aligned(s, cat),
    ensures
        align_entries(s, cat) == (s, 0nat),
    decreases s.len(),
{
    if s.len() > 0 {
        let d = s.drop_last();
        assert(section_aligned(d, cat)) by {
            assert forall|i: int| 0 <= i < d.len() implies match managed_spec((#[trigger] d[i]).0, cat) {
                Some(v) => d[i].1 == Some(v),
                None => true,
            } by {
                assert(d[i] == s[i]);
            }
        }
        lemma_aligned_fixpoint(d, cat);
        assert(s[s.len() - 1] == s.last());
        assert(d.push(s.last()) =~= s);
    }
}

/// After alignment every managed dependency of both sections has the version
/// the target's catalog entry prescribes; every other entry is unchanged and
/// no entry moves.
pub proof fn alignment_sets_catalog_versions(p: PackageView, target: u32)
    ensures
        catalog_entry(target) matches Some(cat) ==> ({
            let q = align_spec(p, target).0;
            &&& q.name == p.name && q.scripts == p.scripts
            &&& (q.deps matches Some(s) ==> section_aligned(s, cat))
            &&& (q.dev matches Some(s) ==> section_aligned(s, cat))
            &&& q.deps is Some == p.deps is Some
            &&& q.dev is Some == p.dev is Some
            &&& (p.deps matches Some(s) ==> (forall|i: int|
                0 <= i < s.len() ==> (#[trigger] q.deps->0[i]).0 == s[i].0))
            &&& (p.dev matches Some(s) ==> (forall|i: int|
                0 <= i < s.len() ==> (#[trigger] q.dev->0[i]).0 == s[i].0))
        }),
        catalog_entry(target) is None ==> align_spec(p, target) == (p, 0nat),
{
    if let Some(cat) = catalog_entry(target) {
        if let Some(s) = p.deps {
            lemma_align_entries(s, cat);
        }
        if let Some(s) = p.dev {
            lemma_align_entries(s, cat);
        }
    }
}

/// Aligning twice changes nothing the second time.
pub proof fn alignment_is_idempotent(p: PackageView, target: u32)
    ensures
        align_spec(align_spec(p, target).0, target) == (align_spec(p, target).0, 0nat),
{
    if let Some(cat) = catalog_entry(target) {
        if let Some(s) = p.deps {
            lemma_align_entries(s, cat);
            lemma_aligned_fixpoint(align_entries(s, cat).0, cat);
        }
        if let Some(s) = p.dev {
            lemma_align_entries(s, cat);
            lemma_aligned_fixpoint(align_entries(s, cat).0, cat);
        }
    }
}

// ---------------------------------------------------------------------------
// Script rules
// ---------------------------------------------------------------------------

/// Whether a script invokes the Angular CLI (`ng `).
pub open spec fn runs_ng(v: Seq<char>) -> bool {
    contains(v, "ng "@) || starts_with(v, "ng "@)
}

/// Every `ng` script with `flags` stripped, with the number of scripts that
/// changed.
pub open spec fn strip_entries(s: SectionView, flags: Seq<Seq<char>>) -> (SectionView, nat)
    decreases s.len(),
{
    if s.len() == 0 {
        (s, 0)
    } else {
        let (a, n) = strip_entries(s.drop_last(), flags);
        let e = s.last();
        match e.1 {
            Some(v) => if runs_ng(v) && strip_flags_spec(v, flags) != v {
                (a.push((e.0, Some(strip_flags_spec(v, flags)))), n + 1)
            } else {
                (a.push(e), n)
            },
            None => (a.push(e), n),
        }
    }
}

/// One script rule applied to a package, with the number of changes.
pub open spec fn script_rule_step(p: PackageView, r: RuleSpec) -> (PackageView, nat) {
    match r {
        RuleSpec::StripScriptFlags { flags } => match p.scripts {
            None => (p, 0),
            Some(s) => (with_scripts(p, Some(strip_entries(s, flags).0)), strip_entries(s, flags).1),
        },
        RuleSpec::RemoveScript { script } => match p.scripts {
            None => (p, 0),
            Some(s) => if key_index(s, script, 0) >= 0 {
                (with_scripts(p, Some(section_remove(s, script))), 1)
            } else {
                (p, 0)
            },
        },
        _ => (p, 0),
    }
}

/// The script rules applied in order, with the total number of changes.
pub open spec fn script_rules_spec(p: PackageView, rules: Seq<RuleSpec>) -> (PackageView, nat)
    decreases rules.len(),
{
    if rules.len() == 0 {
        (p, 0)
    } else {
        let (q, n) = script_rules_spec(p, rules.drop_last());
        let (q2, c) = script_rule_step(q, rules.last());
        (q2, n + c)
    }
}

fn strip_section(s: &mut Section, flags: &Vec<String>) -> (res: usize)
    ensures
        section_view(final(s)@) == strip_entries(section_view(old(s)@), flags@.map_values(|f: String| f@)).0,
        res == strip_entries(section_view(old(s)@), flags@.map_values(|f: String| f@)).1,
        res <= old(s)@.len(),
        final(s)@.len() == old(s)@.len(),
{
    let ghost fs = flags@.map_values(|f: String| f@);
    let ghost s0 = section_view(s@);
    let mut changes: usize = 0;
    let mut i: usize = 0;
    proof {
        assert(s0.take(0) =~= Seq::<(Seq<char>, Option<Seq<char>>)>::empty());
        assert(section_view(s@).take(0) =~= strip_entries(s0.take(0), fs).0);
    }
    while i < s.len()
        invariant
            i <= s@.len(),
            s@.len() == s0.len(),
            fs == flags@.map_values(|f: String| f@),
            section_view(s@).take(i as int) == strip_entries(s0.take(i as int), fs).0,
            section_view(s@).skip(i as int) == s0.skip(i as int),
            changes == strip_entries(s0.take(i as int), fs).1,
            changes <= i,
        decreases s@.len() - i,
    {
        let ghost before = section_view(s@);
        proof {
            assert(s0.take(i + 1).drop_last() =~= s0.take(i as int));
            assert(s0.take(i + 1).last() == s0[i as int]);
            assert(before.skip(i as int)[0] == s0.skip(i as int)[0]);
            assert(before[i as int] == s0[i as int]);
            assert(before.skip(i + 1) =~= before.skip(i as int).skip(1));
            assert(s0.skip(i + 1) =~= s0.skip(i as int).skip(1));
        }
        let mut next: Option<String> = None;
        match &s[i].1 {
            Some(v) => {
                let vc = to_chars(v.as_str());
                if contains_str(vc.as_slice(), "ng ") || starts_with_str(vc.as_slice(), "ng ") {
                    let stripped = strip_flags(v.as_str(), flags);
                    if !str_equal(stripped.as_str(), v.as_str()) {
                        next = Some(stripped);
                    }
                }
            },
            None => {},
        }
        match next {
            Some(n) => {
                let key = s[i].0.clone();
                s.set(i, (key, Some(n)));
                changes = changes + 1;
                proof {
                    assert(section_view(s@).take(i + 1) =~= before.take(i as int).push((s0[i as int].0, Some(n@))));
                    assert(section_view(s@).skip(i + 1) =~= before.skip(i + 1));
                }
            },
            None => {
                proof {
                    assert(section_view(s@).take(i + 1) =~= before.take(i as int).push(s0[i as int]));
                }
            },
        }
        i = i + 1;
    }
    proof {
        assert(s0.take(s0.len() as int) =~= s0);
        assert(section_view(s@).take(s@.len() as int) =~= section_view(s@));
    }
    changes
}

/// Applies one script rule; the number of changed or removed scripts.
pub(crate) fn script_rule(pkg: &mut PackageJson, rule: &MigrationRule) -> (res: usize)
    ensures
        final(pkg)@ == script_rule_step(old(pkg)@, rule@).0,
        res == script_rule_step(old(pkg)@, rule@).1,
        res <= section_len(old(pkg).scripts),
        section_len(final(pkg).scripts) <= section_len(old(pkg).scripts),
{
    match rule {
        MigrationRule::StripScriptFlags { flags } => {
            let taken = pkg.scripts.take();
            match taken {
                None => 0,
                Some(mut s) => {
                    let ghost len0 = s@.len();
                    let n = strip_section(&mut s, flags);
                    pkg.scripts = Some(s);
                    proof {
                        assert(section_len(pkg.scripts) == len0);
                    }
                    n
                },
            }
        },
        MigrationRule::RemoveScript { script } => {
            let taken = pkg.scripts.take();
            match taken {
                None => 0,
                Some(mut s) => {
                    proof {
                        crate::package::lemma_key_index(section_view(s@), script@, 0);
                    }
                    let removed = remove_key(&mut s, script);
                    pkg.scripts = Some(s);
                    if removed {
                        1
                    } else {
                        0
                    }
                },
            }
        },
        _ => 0,
    }
}

/// Applies the script rules (`StripScriptFlags`, `RemoveScript`) in order;
/// the others are ignored. Returns the number of changed or removed scripts.
pub fn apply_script_rules(pkg: &mut PackageJson, rules: &[MigrationRule]) -> (res: usize)
    requires
        rules@.len() * (section_len(old(pkg).scripts) + 1) <= usize::MAX,
    ensures
        final(pkg)@ == script_rules_spec(old(pkg)@, rules_view(rules@)).0,
        res == script_rules_spec(old(pkg)@, rules_view(rules@)).1,
{
    let ghost p0 = pkg@;
    let ghost rs = rules_view(rules@);
    let ghost l0 = section_len(pkg.scripts);
    let mut changes: usize = 0;
    let mut i: usize = 0;
    proof {
        assert(rs.take(0) =~= Seq::<RuleSpec>::empty());
    }
    while i < rules.len()
        invariant
            i <= rules@.len(),
            rs == rules_view(rules@),
            rules@.len() * (l0 + 1) <= usize::MAX,
            section_len(pkg.scripts) <= l0,
            pkg@ == script_rules_spec(p0, rs.take(i as int)).0,
            changes == script_rules_spec(p0, rs.take(i as int)).1,
            changes <= i * l0,
        decreases rules@.len() - i,
    {
        proof {
            assert(rs.take(i + 1).drop_last() =~= rs.take(i as int));
            assert(rs.take(i + 1).last() == rules@[i as int]@);
        }
        let c = script_rule(pkg, &rules[i]);
        proof {
            assert(i * l0 + l0 == (i + 1) * l0) by (nonlinear_arith);
            assert((i + 1) * l0 <= rules@.len() * (l0 + 1)) by (nonlinear_arith)
                requires
                    i + 1 <= rules@.len(),
            ;
        }
        changes = changes + c;
        i = i + 1;
    }
    proof {
        assert(rs.take(rules@.len() as int) =~= rs);
    }
    changes
}

/// The number of positions below `n` at which `a` and `b` differ.
pub open spec fn changed_count(a: SectionView, b: SectionView, n: int) -> nat
    decreases n,
{
    if n <= 0 {
        0
    } else {
        changed_count(a, b, n - 1) + if a[n - 1] != b[n - 1] {
            1nat
        } else {
            0nat
        }
    }
}

proof fn lemma_changed_count_prefix(a1: SectionView, b1: SectionView, a2: SectionView, b2: SectionView, n: int)
    requires
        forall|i: int| 0 <= i < n ==> a1[i] == a2[i] && b1[i] == b2[i],
    ensures
        changed_count(a1, b1, n) == changed_count(a2, b2, n),
    decreases n,
{
    if n > 0 {
        lemma_changed_count_prefix(a1, b1, a2, b2, n - 1);
    }
}

proof fn lemma_find_from_any(s: Seq<char>, p: Seq<char>, i: int, k: int)
    requires
        0 <= i <= k,
        matches_at(s, k, p),
    ensures
        find_from(s, p, i) >= 0,
    decreases k - i,
{
    if !matches_at(s, i, p) {
        lemma_find_from_any(s, p, i + 1, k);
    }
}

proof fn lemma_runs_ng(v: Seq<char>)
    ensures
        runs_ng(v) <==> exists|k: int| #[trigger] matches_at(v, k, "ng "@),
{
    crate::text::lemma_find_from_bounds(v, "ng "@, 0);
    if starts_with(v, "ng "@) {
        assert(matches_at(v, 0, "ng "@));
    }
    if exists|k: int| #[trigger] matches_at(v, k, "ng "@) {
        let k = choose|k: int| #[trigger] matches_at(v, k, "ng "@);
        lemma_find_from_any(v, "ng "@, 0, k);
    }
}

proof fn lemma_strip_entries(s: SectionView, flags: Seq<Seq<char>>)
    ensures
        strip_entries(s, flags).0.len() == s.len(),
        forall|i: int|
            0 <= i < s.len() ==> #[trigger] strip_entries(s, flags).0[i] == match s[i].1 {
                Some(v) => if runs_ng(v) {
                    (s[i].0, Some(strip_flags_spec(v, flags)))
                } else {
                    s[i]
                },
                None => s[i],
            },
        strip_entries(s, flags).1 == changed_count(s, strip_entries(s, flags).0, s.len() as int),
    decreases s.len(),
{
    if s.len() > 0 {
        let d = s.drop_last();
        lemma_strip_entries(d, flags);
        let rd = strip_entries(d, flags).0;
        let rs = strip_entries(s, flags).0;
        assert forall|i: int| 0 <= i < d.len() implies rs[i] == rd[i] && s[i] == d[i] by {}
        lemma_changed_count_prefix(s, rs, d, rd, d.len() as int);
        assert(s[s.len() - 1] == s.last());
    }
}

/// Stripping deprecated flags rewrites exactly the scripts that run the
/// Angular CLI, i.e. whose text contains `ng ` somewhere: each of them becomes
/// its text with the flags stripped, every other script is left as it was,
/// keys and order are kept, the other sections are untouched, and the count
/// is the number of scripts whose text changed.
pub proof fn strip_flags_rewrites_ng_scripts(p: PackageView, flags: Seq<Seq<char>>)
    ensures
        ({
            let (q, n) = script_rule_step(p, RuleSpec::StripScriptFlags { flags });
            &&& q.name == p.name && q.deps == p.deps && q.dev == p.dev
            &&& p.scripts is None ==> q.scripts is None && n == 0
            &&& p.scripts matches Some(s) ==> q.scripts matches Some(t) && {
                &&& t.len() == s.len()
                &&& forall|i: int| 0 <= i < s.len() ==> (#[trigger] t[i]).0 == s[i].0
                &&& forall|i: int|
                    0 <= i < s.len() ==> ((s[i].1 matches Some(v) && exists|k: int| #[trigger] matches_at(v, k, "ng "@))
                        ==> #[trigger] t[i].1 == Some(strip_flags_spec(s[i].1->0, flags)))
                &&& forall|i: int|
                    0 <= i < s.len() ==> (!(s[i].1 matches Some(v) && exists|k: int| #[trigger] matches_at(v, k, "ng "@))
                        ==> #[trigger] t[i] == s[i])
                &&& n == changed_count(s, t, s.len() as int)
            }
        }),
{
    if let Some(s) = p.scripts {
        lemma_strip_entries(s, flags);
        let t = strip_entries(s, flags).0;
        assert forall|i: int| 0 <= i < s.len() implies (#[trigger] t[i]).0 == s[i].0 by {}
        assert forall|i: int|
            0 <= i < s.len() && (s[i].1 matches Some(v) && exists|k: int| #[trigger] matches_at(v, k, "ng "@)) implies
                #[trigger] t[i].1 == Some(strip_flags_spec(s[i].1->0, flags)) by {
            lemma_runs_ng(s[i].1->0);
        }
        assert forall|i: int|
            0 <= i < s.len() && !(s[i].1 matches Some(v) && exists|k: int| #[trigger] matches_at(v, k, "ng "@)) implies
                #[trigger] t[i] == s[i] by {
            if let Some(v) = s[i].1 {
                lemma_runs_ng(v);
            }
        }
    }
}

/// Every dependency of the section has the version the catalog entry `cat`
/// gives for its package: `^` and the core version for the Angular framework
/// packages, `^` and the CLI version for `@angular/cli` and
/// `@angular-devkit/*`, `^` and the Material version for `@angular/material`
/// and `@angular/cdk`, `^` and the catalog's `rxjs`, `zone.js` and `tslib`
/// versions, and `~MAJOR.MINOR.0` of the newest supported TypeScript for
/// `typescript`.
pub open spec fn pinned_to_catalog(s: SectionView, cat: AngularMajor) -> bool {
    forall|i: int|
        0 <= i < s.len() ==> {
            let k = (#[trigger] s[i]).0;
            let v = s[i].1;
            &&& (k == "@angular/core"@ || k == "@angular/common"@ || k == "@angular/compiler"@ || k == "@angular/compiler-cli"@ || k == "@angular/animations"@ || k == "@angular/forms"@ || k == "@angular/router"@ || k == "@angular/platform-browser"@ || k == "@angular/platform-browser-dynamic"@ || k == "@angular/platform-server"@ || k == "@angular/elements"@ || k == "@angular/service-worker"@ || k == "@angular/upgrade"@ || k == "@angular/localize"@ || k == "@angular/ssr"@) ==> v == Some(seq!['^'] + cat.core@)
            &&& k == "@angular/cli"@ ==> v == Some(seq!['^'] + cat.cli@)
            &&& (k == "@angular/material"@ || k == "@angular/cdk"@) ==> v == Some(seq!['^'] + cat.material@)
            &&& starts_with(k, "@angular-devkit/"@) ==> v == Some(seq!['^'] + cat.cli@)
            &&& k == "rxjs"@ ==> v == Some(seq!['^'] + cat.rxjs@)
            &&& k == "zone.js"@ ==> v == Some(seq!['^'] + cat.zone_js@)
            &&& k == "tslib"@ ==> v == Some(seq!['^'] + cat.tslib@)
            &&& k == "typescript"@ ==> v == Some(
                seq!['~'] + decimal(cat.typescript_max.0 as nat) + seq!['.'] + decimal(
                    cat.typescript_max.1 as nat,
                ) + seq!['.', '0'],
            )
        }
}

/// The packages whose versions alignment sets from the catalog.
pub open spec fn catalog_pinned(k: Seq<char>) -> bool {
    k == "@angular/core"@ || k == "@angular/common"@ || k == "@angular/compiler"@ || k == "@angular/compiler-cli"@ || k == "@angular/animations"@ || k == "@angular/forms"@ || k == "@angular/router"@ || k == "@angular/platform-browser"@ || k == "@angular/platform-browser-dynamic"@ || k == "@angular/platform-server"@ || k == "@angular/elements"@ || k == "@angular/service-worker"@ || k == "@angular/upgrade"@ || k == "@angular/localize"@ || k == "@angular/ssr"@ || k == "@angular/cli"@ || k == "@angular/material"@ || k
        == "@angular/cdk"@ || starts_with(k, "@angular-devkit/"@) || k == "rxjs"@ || k == "zone.js"@
        || k == "tslib"@ || k == "typescript"@
}

proof fn lemma_catalog_names()
    ensures
        !starts_with("@angular/cli"@, "@angular-devkit/"@),
        !starts_with("@angular/material"@, "@angular-devkit/"@),
        !starts_with("@angular/cdk"@, "@angular-devkit/"@),
        !starts_with("rxjs"@, "@angular-devkit/"@),
        !starts_with("zone.js"@, "@angular-devkit/"@),
        !starts_with("tslib"@, "@angular-devkit/"@),
        !starts_with("typescript"@, "@angular-devkit/"@),
        forall|k: Seq<char>| is_monorepo_package(k) ==> !starts_with(k, "@angular-devkit/"@),
        forall|k: Seq<char>|
            starts_with(k, "@angular-devkit/"@) ==> !is_monorepo_package(k) && !is_material_package(k)
                && k != "@angular/cli"@ && k != "rxjs"@ && k != "zone.js"@ && k != "tslib"@ && k
                != "typescript"@,
        !is_monorepo_package("@angular/cli"@),
        !is_monorepo_package("@angular/material"@),
        !is_monorepo_package("@angular/cdk"@),
        !is_monorepo_package("rxjs"@),
        !is_monorepo_package("zone.js"@),
        !is_monorepo_package("tslib"@),
        !is_monorepo_package("typescript"@),
        "@angular/material"@ != "@angular/cli"@,
        "@angular/cdk"@ != "@angular/cli"@,
        !is_material_package("rxjs"@),
        !is_material_package("zone.js"@),
        !is_material_package("tslib"@),
        !is_material_package("typescript"@),
        "rxjs"@ != "@angular/cli"@,
        "zone.js"@ != "@angular/cli"@,
        "tslib"@ != "@angular/cli"@,
        "typescript"@ != "@angular/cli"@,
        "zone.js"@ != "rxjs"@,
        "typescript"@ != "rxjs"@,
        "typescript"@ != "zone.js"@,
        "tslib"@ != "rxjs"@,
        "tslib"@ != "zone.js"@,
        "tslib"@ != "typescript"@,
{
    reveal_strlit("@angular/core");
    reveal_strlit("@angular/common");
    reveal_strlit("@angular/compiler");
    reveal_strlit("@angular/compiler-cli");
    reveal_strlit("@angular/animations");
    reveal_strlit("@angular/forms");
    reveal_strlit("@angular/router");
    reveal_strlit("@angular/platform-browser");
    reveal_strlit("@angular/platform-browser-dynamic");
    reveal_strlit("@angular/platform-server");
    reveal_strlit("@angular/elements");
    reveal_strlit("@angular/service-worker");
    reveal_strlit("@angular/upgrade");
    reveal_strlit("@angular/localize");
    reveal_strlit("@angular/ssr");
    reveal_strlit("@angular/cli");
    reveal_strlit("@angular/material");
    reveal_strlit("@angular/cdk");
    reveal_strlit("@angular-devkit/");
    reveal_strlit("rxjs");
    reveal_strlit("zone.js");
    reveal_strlit("typescript");
    reveal_strlit("tslib");
    assert(!starts_with("@angular/material"@, "@angular-devkit/"@)) by {
        assert("@angular/material"@.subrange(0, 16)[8] != "@angular-devkit/"@[8]);
    }
    assert("@angular/compiler"@[9] != "@angular/material"@[9]);
    assert("@angular/elements"@[9] != "@angular/material"@[9]);
    assert("@angular/localize"@[9] != "@angular/material"@[9]);
    assert("@angular/ssr"@[9] != "@angular/cli"@[9]);
    assert("@angular/ssr"@[9] != "@angular/cdk"@[9]);
    assert("@angular/cli"@[10] != "@angular/cdk"@[10]);
    assert forall|k: Seq<char>| is_monorepo_package(k) implies !starts_with(k, "@angular-devkit/"@) by {
        assert(k[8] == '/');
        assert("@angular-devkit/"@[8] == '-');
        if starts_with(k, "@angular-devkit/"@) {
            assert(k.subrange(0, 16)[8] == k[8]);
        }
    }
    assert forall|k: Seq<char>|
        starts_with(k, "@angular-devkit/"@) implies !is_monorepo_package(k) && !is_material_package(k)
            && k != "@angular/cli"@ && k != "rxjs"@ && k != "zone.js"@ && k != "tslib"@ && k
            != "typescript"@ by {
        assert(k.subrange(0, 16)[8] == k[8]);
        assert(k[8] == '-');
        assert(k.len() >= 16);
    }
}

proof fn lemma_align_count(s: SectionView, cat: AngularMajor)
    ensures
        align_entries(s, cat).1 == changed_count(s, align_entries(s, cat).0, s.len() as int),
    decreases s.len(),
{
    if s.len() > 0 {
        let d = s.drop_last();
        lemma_align_count(d, cat);
        lemma_align_entries(d, cat);
        lemma_align_entries(s, cat);
        let rd = align_entries(d, cat).0;
        let rs = align_entries(s, cat).0;
        assert forall|i: int| 0 <= i < d.len() implies rs[i] == rd[i] && s[i] == d[i] by {}
        lemma_changed_count_prefix(s, rs, d, rd, d.len() as int);
        assert(s[s.len() - 1] == s.last());
    }
}

proof fn lemma_aligned_pinned(s: SectionView, cat: AngularMajor)
    requires
        section_aligned(s, cat),
    ensures
        pinned_to_catalog(s, cat),
{
    lemma_catalog_names();
    assert forall|i: int| 0 <= i < s.len() implies {
        let k = (#[trigger] s[i]).0;
        let v = s[i].1;
        &&& (k == "@angular/core"@ || k == "@angular/common"@ || k == "@angular/compiler"@ || k == "@angular/compiler-cli"@ || k == "@angular/animations"@ || k == "@angular/forms"@ || k == "@angular/router"@ || k == "@angular/platform-browser"@ || k == "@angular/platform-browser-dynamic"@ || k == "@angular/platform-server"@ || k == "@angular/elements"@ || k == "@angular/service-worker"@ || k == "@angular/upgrade"@ || k == "@angular/localize"@ || k == "@angular/ssr"@) ==> v == Some(seq!['^'] + cat.core@)
        &&& k == "@angular/cli"@ ==> v == Some(seq!['^'] + cat.cli@)
        &&& (k == "@angular/material"@ || k == "@angular/cdk"@) ==> v == Some(seq!['^'] + cat.material@)
        &&& starts_with(k, "@angular-devkit/"@) ==> v == Some(seq!['^'] + cat.cli@)
        &&& k == "rxjs"@ ==> v == Some(seq!['^'] + cat.rxjs@)
        &&& k == "zone.js"@ ==> v == Some(seq!['^'] + cat.zone_js@)
        &&& k == "tslib"@ ==> v == Some(seq!['^'] + cat.tslib@)
        &&& k == "typescript"@ ==> v == Some(
            seq!['~'] + decimal(cat.typescript_max.0 as nat) + seq!['.'] + decimal(
                cat.typescript_max.1 as nat,
            ) + seq!['.', '0'],
        )
    } by {
        let k = s[i].0;
        assert(match managed_spec(k, cat) {
            Some(v) => s[i].1 == Some(v),
            None => true,
        });
    }
}

/// After alignment to a major of the catalog, every dependency in either
/// section has the version the catalog entry gives for its package (see
/// [`pinned_to_catalog`]); every other dependency keeps its entry, keys and
/// order are kept, and the count is the number of entries that changed.
pub proof fn aligned_dependencies_follow_catalog(p: PackageView, target: u32)
    requires
        catalog_entry(target) is Some,
    ensures
        ({
            let cat = catalog_entry(target)->0;
            let (q, n) = align_spec(p, target);
            &&& q.name == p.name && q.scripts == p.scripts
            &&& q.deps is Some == p.deps is Some
            &&& q.dev is Some == p.dev is Some
            &&& q.deps matches Some(t) ==> pinned_to_catalog(t, cat)
            &&& q.dev matches Some(t) ==> pinned_to_catalog(t, cat)
            &&& p.deps matches Some(s) ==> {
                let t = q.deps->0;
                &&& t.len() == s.len()
                &&& forall|i: int| 0 <= i < s.len() ==> (#[trigger] t[i]).0 == s[i].0
                &&& forall|i: int| 0 <= i < s.len() && !catalog_pinned(s[i].0) ==> #[trigger] t[i] == s[i]
            }
            &&& p.dev matches Some(s) ==> {
                let t = q.dev->0;
                &&& t.len() == s.len()
                &&& forall|i: int| 0 <= i < s.len() ==> (#[trigger] t[i]).0 == s[i].0
                &&& forall|i: int| 0 <= i < s.len() && !catalog_pinned(s[i].0) ==> #[trigger] t[i] == s[i]
            }
            &&& n == (match p.deps {
                Some(s) => changed_count(s, q.deps->0, s.len() as int),
                None => 0,
            }) + (match p.dev {
                Some(s) => changed_count(s, q.dev->0, s.len() as int),
                None => 0,
            })
        }),
{
    let cat = catalog_entry(target)->0;
    if let Some(s) = p.deps {
        lemma_align_entries(s, cat);
        lemma_align_count(s, cat);
        lemma_aligned_pinned(align_entries(s, cat).0, cat);
    }
    if let Some(s) = p.dev {
        lemma_align_entries(s, cat);
        lemma_align_count(s, cat);
        lemma_aligned_pinned(align_entries(s, cat).0, cat);
    }
}

} // verus!
