//! The parts of `package.json` and `angular.json` the migration reads and
//! edits, held as plain values.
//!
//! A JSON object section (`dependencies`, `devDependencies`, `scripts`) is a
//! list of `(key, value)` entries in document order; the value is `None` when
//! the JSON value is not a string. A missing section, or one that is not an
//! object, is `None`. Inserting an existing key keeps its position; removing a
//! key moves the last entry into its place (the order-preserving JSON map's
//! `remove`).

use vstd::prelude::*;
use crate::model::{major_of, parse_major};
use crate::text::{chars_lt, lemma_str_lt, str_equal, str_lt, to_chars};

verus! {

pub type Section = Vec<(String, Option<String>)>;

pub type SectionView = Seq<(Seq<char>, Option<Seq<char>>)>;

pub open spec fn opt_str_view(o: Option<String>) -> Option<Seq<char>> {
    match o {
        Some(s) => Some(s@),
        None => None,
    }
}

pub open spec fn section_view(v: Seq<(String, Option<String>)>) -> SectionView {
    v.map_values(|e: (String, Option<String>)| (e.0@, opt_str_view(e.1)))
}

pub open spec fn opt_section_view(o: Option<Section>) -> Option<SectionView> {
    match o {
        Some(v) => Some(section_view(v@)),
        None => None,
    }
}

/// The first index at or after `i` whose key is `k`, or -1.
pub open spec fn key_index(s: SectionView, k: Seq<char>, i: int) -> int
    decreases s.len() - i,
{
    if i < 0 || i >= s.len() {
        -1
    } else if s[i].0 == k {
        i
    } else {
        key_index(s, k, i + 1)
    }
}

pub proof fn lemma_key_index(s: SectionView, k: Seq<char>, i: int)
    requires
        0 <= i,
    ensures
        key_index(s, k, i) == -1 || (i <= key_index(s, k, i) < s.len() && s[key_index(s, k, i)].0
            == k),
        key_index(s, k, i) == -1 ==> forall|j: int| i <= j < s.len() ==> s[j].0 != k,
    decreases s.len() - i,
{
    if i < s.len() && s[i].0 != k {
        lemma_key_index(s, k, i + 1);
    }
}

/// The value stored under `k`: `Some(value)` when the key is present.
pub open spec fn section_get(s: SectionView, k: Seq<char>) -> Option<Option<Seq<char>>> {
    let i = key_index(s, k, 0);
    if i < 0 {
        None
    } else {
        Some(s[i].1)
    }
}

/// Sets `k` to the string `v`: in place when present, appended otherwise.
pub open spec fn section_set(s: SectionView, k: Seq<char>, v: Seq<char>) -> SectionView {
    let i = key_index(s, k, 0);
    if i < 0 {
        s.push((k, Some(v)))
    } else {
        s.update(i, (k, Some(v)))
    }
}

/// Removes `k`, moving the last entry into its place.
pub open spec fn section_remove(s: SectionView, k: Seq<char>) -> SectionView {
    let i = key_index(s, k, 0);
    if i < 0 {
        s
    } else {
        s.update(i, s.last()).drop_last()
    }
}

/// The index of the entry with key `k`.
pub fn find_key(sec: &Section, k: &str) -> (res: Option<usize>)
    ensures
        match res {
            Some(i) => key_index(section_view(sec@), k@, 0) == i as int && i < sec@.len(),
            None => key_index(section_view(sec@), k@, 0) == -1,
        },
{
    let mut i: usize = 0;
    while i < sec.len()
        invariant
            i <= sec@.len(),
            key_index(section_view(sec@), k@, 0) == key_index(section_view(sec@), k@, i as int),
        decreases sec@.len() - i,
    {
        if str_equal(sec[i].0.as_str(), k) {
            return Some(i);
        }
        i = i + 1;
    }
    None
}

/// Sets the entry `k` to the string `v` (see [`section_set`]).
pub fn set_key(sec: &mut Section, k: &str, v: String)
    ensures
        section_view(final(sec)@) == section_set(section_view(old(sec)@), k@, v@),
{
    match find_key(sec, k) {
        Some(i) => {
            let ghost before = section_view(sec@);
            sec.set(i, (k.to_owned(), Some(v)));
            proof {
                assert(section_view(sec@) =~= before.update(i as int, (k@, Some(v@))));
            }
        },
        None => {
            let ghost before = section_view(sec@);
            sec.push((k.to_owned(), Some(v)));
            proof {
                assert(section_view(sec@) =~= before.push((k@, Some(v@))));
            }
        },
    }
}

/// Removes the entry `k` (see [`section_remove`]); whether it was present.
pub fn remove_key(sec: &mut Section, k: &str) -> (res: bool)
    ensures
        section_view(final(sec)@) == section_remove(section_view(old(sec)@), k@),
        res == (key_index(section_view(old(sec)@), k@, 0) >= 0),
{
    match find_key(sec, k) {
        Some(i) => {
            let ghost before = section_view(sec@);
            let _ = sec.swap_remove(i);
            proof {
                assert(section_view(sec@) =~= before.update(i as int, before.last()).drop_last());
            }
            true
        },
        None => false,
    }
}

// ---------------------------------------------------------------------------
// package.json
// ---------------------------------------------------------------------------

/// The parts of a `package.json` the migration reads and edits.
#[derive(Debug, Clone)]
pub struct PackageJson {
    /// `name`, when it is a string.
    pub name: Option<String>,
    pub dependencies: Option<Section>,
    pub dev_dependencies: Option<Section>,
    pub scripts: Option<Section>,
}

pub struct PackageView {
    pub name: Option<Seq<char>>,
    pub deps: Option<SectionView>,
    pub dev: Option<SectionView>,
    pub scripts: Option<SectionView>,
}

impl View for PackageJson {
    type V = PackageView;

    open spec fn view(&self) -> PackageView {
        PackageView {
            name: opt_str_view(self.name),
            deps: opt_section_view(self.dependencies),
            dev: opt_section_view(self.dev_dependencies),
            scripts: opt_section_view(self.scripts),
        }
    }
}

/// The entries of a section whose values are strings, in order.
pub open spec fn string_entries(s: Option<SectionView>) -> Seq<(Seq<char>, Seq<char>)> {
    match s {
        None => Seq::empty(),
        Some(sec) => string_entries_of(sec),
    }
}

pub open spec fn string_entries_of(sec: SectionView) -> Seq<(Seq<char>, Seq<char>)>
    decreases sec.len(),
{
    if sec.len() == 0 {
        Seq::empty()
    } else {
        string_entries_of(sec.drop_last()) + match sec.last().1 {
            Some(v) => seq![(sec.last().0, v)],
            None => Seq::empty(),
        }
    }
}

/// Inserts `(k, v)` into the key-sorted list `acc`, scanning from `i`:
/// replaces the value of an equal key, otherwise inserts before the first
/// greater key.
pub open spec fn sorted_insert(acc: Seq<(Seq<char>, Seq<char>)>, k: Seq<char>, v: Seq<char>, i: int) -> Seq<
    (Seq<char>, Seq<char>),
>
    decreases acc.len() - i,
{
    if i < 0 || i >= acc.len() {
        acc.push((k, v))
    } else if acc[i].0 == k {
        acc.update(i, (k, v))
    } else if str_lt(k, acc[i].0) {
        acc.insert(i, (k, v))
    } else {
        sorted_insert(acc, k, v, i + 1)
    }
}

/// Inserts every entry of `es`, in order, into the sorted list `acc` (a
/// sorted map where a later entry overrides an earlier one).
pub open spec fn insert_all(acc: Seq<(Seq<char>, Seq<char>)>, es: Seq<(Seq<char>, Seq<char>)>) -> Seq<
    (Seq<char>, Seq<char>),
>
    decreases es.len(),
{
    if es.len() == 0 {
        acc
    } else {
        insert_all(sorted_insert(acc, es[0].0, es[0].1, 0), es.drop_first())
    }
}

/// `dependencies` and `devDependencies` merged into one map sorted by package
/// name (string values only; `devDependencies` wins on a clash).
pub open spec fn all_deps_spec(p: PackageView) -> Seq<(Seq<char>, Seq<char>)> {
    insert_all(Seq::empty(), string_entries(p.deps) + string_entries(p.dev))
}

/// The string-valued scripts, sorted by name.
pub open spec fn scripts_spec(p: PackageView) -> Seq<(Seq<char>, Seq<char>)> {
    insert_all(Seq::empty(), string_entries(p.scripts))
}

/// The value under `k` in a list of pairs (the first match).
pub open spec fn pairs_get(ps: Seq<(Seq<char>, Seq<char>)>, k: Seq<char>, i: int) -> Option<Seq<char>>
    decreases ps.len() - i,
{
    if i < 0 || i >= ps.len() {
        None
    } else if ps[i].0 == k {
        Some(ps[i].1)
    } else {
        pairs_get(ps, k, i + 1)
    }
}

/// Keys strictly ascending: the order of a sorted map's entries.
pub open spec fn keys_sorted(ps: Seq<(Seq<char>, Seq<char>)>) -> bool {
    forall|i: int, j: int| #![trigger ps[i], ps[j]] 0 <= i < j < ps.len() ==> str_lt(ps[i].0, ps[j].0)
}

proof fn lemma_sorted_insert(acc: Seq<(Seq<char>, Seq<char>)>, k: Seq<char>, v: Seq<char>, i: int)
    requires
        keys_sorted(acc),
        0 <= i <= acc.len(),
        forall|j: int| 0 <= j < i ==> str_lt(#[trigger] acc[j].0, k),
    ensures
        keys_sorted(sorted_insert(acc, k, v, i)),
    decreases acc.len() - i,
{
    if i >= acc.len() {
        let r = acc.push((k, v));
        assert forall|a: int, b: int| #![trigger r[a], r[b]] 0 <= a < b < r.len() implies str_lt(
            r[a].0,
            r[b].0,
        ) by {
            if b == acc.len() {
                assert(r[a] == acc[a]);
            } else {
                assert(r[a] == acc[a] && r[b] == acc[b]);
            }
        }
    } else if acc[i].0 == k {
        let r = acc.update(i, (k, v));
        assert forall|a: int, b: int| #![trigger r[a], r[b]] 0 <= a < b < r.len() implies str_lt(
            r[a].0,
            r[b].0,
        ) by {
            assert(r[a].0 == acc[a].0 && r[b].0 == acc[b].0);
        }
    } else if str_lt(k, acc[i].0) {
        let r = acc.insert(i, (k, v));
        assert forall|a: int, b: int| #![trigger r[a], r[b]] 0 <= a < b < r.len() implies str_lt(
            r[a].0,
            r[b].0,
        ) by {
            if b < i {
                assert(r[a] == acc[a] && r[b] == acc[b]);
            } else if b == i {
                assert(r[a] == acc[a]);
            } else if a == i {
                assert(r[b] == acc[b - 1]);
                if b - 1 > i {
                    assert(str_lt(acc[i].0, acc[b - 1].0));
                    lemma_str_lt(k, acc[i].0, acc[b - 1].0);
                }
            } else if a < i {
                assert(r[a] == acc[a] && r[b] == acc[b - 1]);
            } else {
                assert(r[a] == acc[a - 1] && r[b] == acc[b - 1]);
            }
        }
    } else {
        lemma_str_lt(acc[i].0, k, k);
        assert forall|j: int| 0 <= j < i + 1 implies str_lt(#[trigger] acc[j].0, k) by {
            if j < i {
            }
        }
        lemma_sorted_insert(acc, k, v, i + 1);
    }
}

proof fn lemma_insert_all_sorted(acc: Seq<(Seq<char>, Seq<char>)>, es: Seq<(Seq<char>, Seq<char>)>)
    requires
        keys_sorted(acc),
    ensures
        keys_sorted(insert_all(acc, es)),
    decreases es.len(),
{
    if es.len() > 0 {
        lemma_sorted_insert(acc, es[0].0, es[0].1, 0);
        lemma_insert_all_sorted(sorted_insert(acc, es[0].0, es[0].1, 0), es.drop_first());
    }
}

/// The merged dependencies come out as a sorted map does: every package name
/// once, in ascending order.
pub proof fn all_dependencies_sorted(p: PackageView)
    ensures
        keys_sorted(all_deps_spec(p)),
{
    lemma_insert_all_sorted(Seq::empty(), string_entries(p.deps) + string_entries(p.dev));
}

/// The scripts come out sorted by name, each name once.
pub proof fn scripts_sorted(p: PackageView)
    ensures
        keys_sorted(scripts_spec(p)),
{
    lemma_insert_all_sorted(Seq::empty(), string_entries(p.scripts));
}

// ---------------------------------------------------------------------------
// Reading the merged map
// ---------------------------------------------------------------------------

/// The first index at or after `i` of an entry with key `k`, or -1.
pub open spec fn pair_index(ps: Seq<(Seq<char>, Seq<char>)>, k: Seq<char>, i: int) -> int
    decreases ps.len() - i,
{
    if i < 0 || i >= ps.len() {
        -1
    } else if ps[i].0 == k {
        i
    } else {
        pair_index(ps, k, i + 1)
    }
}

proof fn lemma_pairs_get_index(ps: Seq<(Seq<char>, Seq<char>)>, k: Seq<char>, i: int)
    requires
        0 <= i,
    ensures
        pairs_get(ps, k, i) == if pair_index(ps, k, i) < 0 {
            None
        } else {
            Some(ps[pair_index(ps, k, i)].1)
        },
        pair_index(ps, k, i) == -1 || (i <= pair_index(ps, k, i) < ps.len() && ps[pair_index(
            ps,
            k,
            i,
        )].0 == k),
        forall|m: int| i <= m < ps.len() && m < pair_index(ps, k, i) ==> ps[m].0 != k,
        pair_index(ps, k, i) == -1 ==> forall|m: int| i <= m < ps.len() ==> ps[m].0 != k,
    decreases ps.len() - i,
{
    if i < ps.len() && ps[i].0 != k {
        lemma_pairs_get_index(ps, k, i + 1);
    }
}

/// The entry at `j` is the first with key `k`: the lookup gives its value.
proof fn lemma_get_at(ps: Seq<(Seq<char>, Seq<char>)>, k: Seq<char>, j: int)
    requires
        0 <= j < ps.len(),
        ps[j].0 == k,
        forall|m: int| 0 <= m < j ==> ps[m].0 != k,
    ensures
        pairs_get(ps, k, 0) == Some(ps[j].1),
{
    lemma_pairs_get_index(ps, k, 0);
    let p = pair_index(ps, k, 0);
    if p == -1 {
        assert(ps[j].0 != k);
    } else if p < j {
        assert(ps[p].0 != k);
    } else if p > j {
        assert(ps[j].0 != k);
    }
}

/// No entry has key `k`: the lookup gives nothing.
proof fn lemma_get_none(ps: Seq<(Seq<char>, Seq<char>)>, k: Seq<char>)
    requires
        forall|m: int| 0 <= m < ps.len() ==> ps[m].0 != k,
    ensures
        pairs_get(ps, k, 0) is None,
{
    lemma_pairs_get_index(ps, k, 0);
    let p = pair_index(ps, k, 0);
    if p != -1 {
        assert(ps[p].0 != k);
    }
}

proof fn lemma_sorted_insert_get(
    acc: Seq<(Seq<char>, Seq<char>)>,
    k: Seq<char>,
    v: Seq<char>,
    i: int,
    y: Seq<char>,
)
    requires
        keys_sorted(acc),
        0 <= i <= acc.len(),
        forall|j: int| 0 <= j < i ==> str_lt(#[trigger] acc[j].0, k),
    ensures
        pairs_get(sorted_insert(acc, k, v, i), y, 0) == if y == k {
            Some(v)
        } else {
            pairs_get(acc, y, 0)
        },
    decreases acc.len() - i,
{
    lemma_pairs_get_index(acc, y, 0);
    let p = pair_index(acc, y, 0);
    assert forall|j: int| 0 <= j < i implies acc[j].0 != k by {
        lemma_str_lt(acc[j].0, k, k);
    }
    if i >= acc.len() {
        let r = acc.push((k, v));
        if y == k {
            lemma_get_at(r, k, acc.len() as int);
        } else if p >= 0 {
            assert forall|m: int| 0 <= m < p implies r[m].0 != y by {
                assert(r[m] == acc[m]);
            }
            lemma_get_at(r, y, p);
        } else {
            assert forall|m: int| 0 <= m < r.len() implies r[m].0 != y by {
                if m < acc.len() {
                    assert(r[m] == acc[m]);
                }
            }
            lemma_get_none(r, y);
        }
    } else if acc[i].0 == k {
        let r = acc.update(i, (k, v));
        if y == k {
            assert forall|m: int| 0 <= m < i implies r[m].0 != k by {
                assert(r[m] == acc[m]);
            }
            lemma_get_at(r, k, i);
        } else if p >= 0 {
            assert forall|m: int| 0 <= m < p implies r[m].0 != y by {
                if m != i {
                    assert(r[m] == acc[m]);
                }
            }
            assert(p != i);
            lemma_get_at(r, y, p);
        } else {
            assert forall|m: int| 0 <= m < r.len() implies r[m].0 != y by {
                if m != i {
                    assert(r[m] == acc[m]);
                }
            }
            lemma_get_none(r, y);
        }
    } else if str_lt(k, acc[i].0) {
        let r = acc.insert(i, (k, v));
        assert forall|m: int| i <= m < acc.len() implies acc[m].0 != k by {
            if m > i {
                assert(str_lt(acc[i].0, acc[m].0));
                lemma_str_lt(k, acc[i].0, acc[m].0);
            }
            lemma_str_lt(k, acc[m].0, acc[m].0);
        }
        if y == k {
            assert forall|m: int| 0 <= m < i implies r[m].0 != k by {
                assert(r[m] == acc[m]);
            }
            lemma_get_at(r, k, i);
        } else if p >= 0 {
            let q = if p < i {
                p
            } else {
                p + 1
            };
            assert(r[q] == acc[p]);
            assert forall|m: int| 0 <= m < q implies r[m].0 != y by {
                if m < i {
                    assert(r[m] == acc[m]);
                } else if m > i {
                    assert(r[m] == acc[m - 1]);
                }
            }
            lemma_get_at(r, y, q);
        } else {
            assert forall|m: int| 0 <= m < r.len() implies r[m].0 != y by {
                if m < i {
                    assert(r[m] == acc[m]);
                } else if m > i {
                    assert(r[m] == acc[m - 1]);
                }
            }
            lemma_get_none(r, y);
        }
    } else {
        lemma_str_lt(acc[i].0, k, k);
        assert forall|j: int| 0 <= j < i + 1 implies str_lt(#[trigger] acc[j].0, k) by {}
        lemma_sorted_insert_get(acc, k, v, i + 1, y);
    }
}

/// The value of the last entry for `k` in `es`.
pub open spec fn last_value(es: Seq<(Seq<char>, Seq<char>)>, k: Seq<char>) -> Option<Seq<char>>
    decreases es.len(),
{
    if es.len() == 0 {
        None
    } else {
        match last_value(es.drop_first(), k) {
            Some(w) => Some(w),
            None => if es[0].0 == k {
                Some(es[0].1)
            } else {
                None
            },
        }
    }
}

proof fn lemma_insert_all_get(acc: Seq<(Seq<char>, Seq<char>)>, es: Seq<(Seq<char>, Seq<char>)>, y: Seq<char>)
    requires
        keys_sorted(acc),
    ensures
        pairs_get(insert_all(acc, es), y, 0) == match last_value(es, y) {
            Some(w) => Some(w),
            None => pairs_get(acc, y, 0),
        },
    decreases es.len(),
{
    if es.len() > 0 {
        let acc2 = sorted_insert(acc, es[0].0, es[0].1, 0);
        lemma_sorted_insert(acc, es[0].0, es[0].1, 0);
        lemma_sorted_insert_get(acc, es[0].0, es[0].1, 0, y);
        lemma_insert_all_get(acc2, es.drop_first(), y);
    }
}

proof fn lemma_last_value_concat(a: Seq<(Seq<char>, Seq<char>)>, b: Seq<(Seq<char>, Seq<char>)>, k: Seq<char>)
    ensures
        last_value(a + b, k) == match last_value(b, k) {
            Some(w) => Some(w),
            None => last_value(a, k),
        },
    decreases a.len(),
{
    if a.len() == 0 {
        assert(a + b =~= b);
    } else {
        assert((a + b).drop_first() =~= a.drop_first() + b);
        assert((a + b)[0] == a[0]);
        lemma_last_value_concat(a.drop_first(), b, k);
    }
}

/// The merged map holds, for each package, its string value in
/// `devDependencies` when there is one, else its string value in
/// `dependencies` (within a section, a later entry for the same name wins).
pub proof fn merged_dependency_lookup(p: PackageView, k: Seq<char>)
    ensures
        pairs_get(all_deps_spec(p), k, 0) == match last_value(string_entries(p.dev), k) {
            Some(w) => Some(w),
            None => last_value(string_entries(p.deps), k),
        },
{
    lemma_insert_all_get(Seq::empty(), string_entries(p.deps) + string_entries(p.dev), k);
    lemma_last_value_concat(string_entries(p.deps), string_entries(p.dev), k);
    lemma_get_none(Seq::<(Seq<char>, Seq<char>)>::empty(), k);
}

/// Every key of the section differs from every other.
pub open spec fn keys_unique(s: SectionView) -> bool {
    forall|i: int, j: int| #![trigger s[i], s[j]] 0 <= i < j < s.len() ==> s[i].0 != s[j].0
}

/// The string value recorded for `k` in a section: the value of its entry
/// with key `k`, when that entry is a string. Used with unique keys.
pub proof fn lemma_section_value(sec: SectionView, k: Seq<char>)
    ensures
        (forall|m: int| 0 <= m < sec.len() ==> sec[m].0 != k) ==> last_value(
            string_entries_of(sec),
            k,
        ) is None,
        forall|j: int|
            0 <= j < sec.len() && sec[j].0 == k && keys_unique(sec) ==> last_value(
                string_entries_of(sec),
                k,
            ) == sec[j].1,
    decreases sec.len(),
{
    if sec.len() > 0 {
        let d = sec.drop_last();
        let e = sec.last();
        let tail: Seq<(Seq<char>, Seq<char>)> = match e.1 {
            Some(v) => seq![(e.0, v)],
            None => Seq::empty(),
        };
        lemma_section_value(d, k);
        lemma_last_value_concat(string_entries_of(d), tail, k);
        assert(last_value(Seq::<(Seq<char>, Seq<char>)>::empty(), k) is None);
        if tail.len() == 1 {
            assert(tail.drop_first() =~= Seq::<(Seq<char>, Seq<char>)>::empty());
        }
        assert forall|j: int|
            0 <= j < sec.len() && sec[j].0 == k && keys_unique(sec) implies last_value(
                string_entries_of(sec),
                k,
            ) == sec[j].1 by {
            if j < sec.len() - 1 {
                assert(sec[j] == d[j]);
                assert(sec[j].0 != sec[sec.len() - 1].0);
                assert(keys_unique(d)) by {
                    assert forall|a: int, b: int| #![trigger d[a], d[b]] 0 <= a < b < d.len() implies d[a].0 != d[b].0 by {
                        assert(d[a] == sec[a] && d[b] == sec[b]);
                    }
                }
            } else {
                assert forall|m: int| 0 <= m < d.len() implies d[m].0 != k by {
                    assert(d[m] == sec[m]);
                    assert(sec[m].0 != sec[sec.len() - 1].0);
                }
            }
        }
        assert((forall|m: int| 0 <= m < sec.len() ==> sec[m].0 != k) ==> (forall|m: int| 0 <= m < d.len() ==> d[m].0 != k)) by {
            if forall|m: int| 0 <= m < sec.len() ==> sec[m].0 != k {
                assert forall|m: int| 0 <= m < d.len() implies d[m].0 != k by {
                    assert(d[m] == sec[m]);
                }
            }
        }
    }
}

pub open spec fn pairs_view(v: Seq<(String, String)>) -> Seq<(Seq<char>, Seq<char>)> {
    v.map_values(|e: (String, String)| (e.0@, e.1@))
}

fn string_entries_exec(sec: &Option<Section>) -> (res: Vec<(String, String)>)
    ensures
        pairs_view(res@) == string_entries(opt_section_view(*sec)),
{
    let mut out: Vec<(String, String)> = Vec::new();
    match sec {
        None => {
            proof {
                assert(pairs_view(out@) =~= Seq::<(Seq<char>, Seq<char>)>::empty());
            }
        },
        Some(v) => {
            let mut i: usize = 0;
            proof {
                assert(section_view(v@).take(0) =~= Seq::<(Seq<char>, Option<Seq<char>>)>::empty());
                assert(pairs_view(out@) =~= Seq::<(Seq<char>, Seq<char>)>::empty());
            }
            while i < v.len()
                invariant
                    i <= v@.len(),
                    pairs_view(out@) == string_entries_of(section_view(v@).take(i as int)),
                decreases v@.len() - i,
            {
                let ghost before = pairs_view(out@);
                match &v[i].1 {
                    Some(val) => {
                        out.push((v[i].0.clone(), val.clone()));
                        proof {
                            assert(pairs_view(out@) =~= before + seq![(v@[i as int].0@, val@)]);
                        }
                    },
                    None => {
                        proof {
                            assert(before + Seq::<(Seq<char>, Seq<char>)>::empty() =~= before);
                        }
                    },
                }
                proof {
                    let sv = section_view(v@);
                    assert(sv.take(i + 1).drop_last() =~= sv.take(i as int));
                    assert(sv.take(i + 1).last() == sv[i as int]);
                }
                i = i + 1;
            }
            proof {
                assert(section_view(v@).take(v@.len() as int) =~= section_view(v@));
            }
        },
    }
    out
}

pub(crate) fn sorted_insert_exec(acc: &mut Vec<(String, String)>, k: String, v: String)
    ensures
        pairs_view(final(acc)@) == sorted_insert(pairs_view(old(acc)@), k@, v@, 0),
{
    let kc = to_chars(k.as_str());
    let mut i: usize = 0;
    let ghost a0 = pairs_view(acc@);
    while i < acc.len()
        invariant
            i <= acc@.len(),
            a0 == pairs_view(acc@),
            a0 == pairs_view(old(acc)@),
            kc@ == k@,
            sorted_insert(a0, k@, v@, 0) == sorted_insert(a0, k@, v@, i as int),
        decreases acc@.len() - i,
    {
        let ai = to_chars(acc[i].0.as_str());
        proof {
            assert(a0[i as int] == (acc@[i as int].0@, acc@[i as int].1@));
        }
        if str_equal(acc[i].0.as_str(), k.as_str()) {
            acc.set(i, (k, v));
            proof {
                assert(pairs_view(acc@) =~= a0.update(i as int, (k@, v@)));
            }
            return;
        }
        if chars_lt(kc.as_slice(), ai.as_slice()) {
            acc.insert(i, (k, v));
            proof {
                assert(pairs_view(acc@) =~= a0.insert(i as int, (k@, v@)));
            }
            return;
        }
        i = i + 1;
    }
    acc.push((k, v));
    proof {
        assert(pairs_view(acc@) =~= a0.push((k@, v@)));
    }
}

fn insert_all_exec(acc: &mut Vec<(String, String)>, es: Vec<(String, String)>)
    ensures
        pairs_view(final(acc)@) == insert_all(pairs_view(old(acc)@), pairs_view(es@)),
{
    let ghost all = pairs_view(es@);
    let ghost a0 = pairs_view(acc@);
    let mut i: usize = 0;
    proof {
        assert(all.skip(0) =~= all);
    }
    while i < es.len()
        invariant
            i <= es@.len(),
            all == pairs_view(es@),
            insert_all(a0, all) == insert_all(pairs_view(acc@), all.skip(i as int)),
        decreases es@.len() - i,
    {
        let (k, v) = (es[i].0.clone(), es[i].1.clone());
        proof {
            assert(all.skip(i as int)[0] == (k@, v@));
            assert(all.skip(i as int).drop_first() =~= all.skip(i + 1));
        }
        sorted_insert_exec(acc, k, v);
        i = i + 1;
    }
    proof {
        assert(all.skip(es@.len() as int) =~= Seq::<(Seq<char>, Seq<char>)>::empty());
    }
}

pub(crate) fn lookup_pairs(ps: &Vec<(String, String)>, k: &str) -> (res: Option<String>)
    ensures
        opt_str_view(res) == pairs_get(pairs_view(ps@), k@, 0),
{
    let mut i: usize = 0;
    while i < ps.len()
        invariant
            i <= ps@.len(),
            pairs_get(pairs_view(ps@), k@, 0) == pairs_get(pairs_view(ps@), k@, i as int),
        decreases ps@.len() - i,
    {
        if str_equal(ps[i].0.as_str(), k) {
            return Some(ps[i].1.clone());
        }
        i = i + 1;
    }
    None
}

impl PackageJson {
    /// `name`, or `(unnamed project)` when it is missing or not a string.
    pub fn name(&self) -> (res: &str)
        ensures
            res@ == match self.name {
                Some(n) => n@,
                None => "(unnamed project)"@,
            },
    {
        match &self.name {
            Some(n) => n.as_str(),
            None => "(unnamed project)",
        }
    }

    /// All dependency maps (dependencies + devDependencies), merged and sorted.
    pub fn all_dependencies(&self) -> (res: Vec<(String, String)>)
        ensures
            pairs_view(res@) == all_deps_spec(self@),
    {
        let mut all: Vec<(String, String)> = Vec::new();
        let mut es = string_entries_exec(&self.dependencies);
        let dev = string_entries_exec(&self.dev_dependencies);
        let ghost e1 = pairs_view(es@);
        let mut j: usize = 0;
        while j < dev.len()
            invariant
                j <= dev@.len(),
                pairs_view(es@) == e1 + pairs_view(dev@).take(j as int),
            decreases dev@.len() - j,
        {
            let ghost before = pairs_view(es@);
            es.push((dev[j].0.clone(), dev[j].1.clone()));
            proof {
                assert(pairs_view(es@) =~= before.push(pairs_view(dev@)[j as int]));
                assert(pairs_view(dev@).take(j + 1) =~= pairs_view(dev@).take(j as int).push(pairs_view(dev@)[j as int]));
            }
            j = j + 1;
        }
        proof {
            assert(pairs_view(dev@).take(dev@.len() as int) =~= pairs_view(dev@));
            assert(pairs_view(all@) =~= Seq::<(Seq<char>, Seq<char>)>::empty());
        }
        insert_all_exec(&mut all, es);
        all
    }

    /// The merged version specifier of `package`.
    pub fn dependency(&self, package: &str) -> (res: Option<String>)
        ensures
            opt_str_view(res) == pairs_get(all_deps_spec(self@), package@, 0),
    {
        let all = self.all_dependencies();
        lookup_pairs(&all, package)
    }

    /// The string-valued scripts, sorted by name.
    pub fn scripts(&self) -> (res: Vec<(String, String)>)
        ensures
            pairs_view(res@) == scripts_spec(self@),
    {
        let mut all: Vec<(String, String)> = Vec::new();
        let es = string_entries_exec(&self.scripts);
        proof {
            assert(pairs_view(all@) =~= Seq::<(Seq<char>, Seq<char>)>::empty());
        }
        insert_all_exec(&mut all, es);
        all
    }
}

// ---------------------------------------------------------------------------
// angular.json and the project
// ---------------------------------------------------------------------------

/// The parts of `angular.json` the migration reads and edits: each project
/// with the names of its architect targets (`None` when `architect` is
/// missing or not an object). `projects` is `None` when missing or not an
/// object.
#[derive(Debug, Clone)]
pub struct Workspace {
    pub projects: Option<Vec<(String, Option<Vec<String>>)>>,
}

/// A fully-detected project.
#[derive(Debug, Clone)]
pub struct Project {
    pub root: String,
    pub package: PackageJson,
    /// `angular.json` (or `workspace.json`), if present.
    pub workspace: Option<Workspace>,
    pub workspace_path: Option<String>,
    /// Every `tsconfig*.json` found at the project root.
    pub tsconfig_paths: Vec<String>,
}

pub open spec fn strings_of(v: Seq<String>) -> Seq<Seq<char>> {
    v.map_values(|s: String| s@)
}

/// Whether one project entry has an architect target `target`.
pub open spec fn project_has_target(p: (String, Option<Vec<String>>), target: Seq<char>) -> bool {
    match p.1 {
        Some(ts) => strings_of(ts@).contains(target),
        None => false,
    }
}

/// Whether some project of the workspace has an architect target `target`.
pub open spec fn has_target(projects: Seq<(String, Option<Vec<String>>)>, target: Seq<char>) -> bool {
    exists|i: int| 0 <= i < projects.len() && project_has_target(#[trigger] projects[i], target)
}

fn contains_string(v: &Vec<String>, t: &str) -> (res: bool)
    ensures
        res == strings_of(v@).contains(t@),
{
    let mut i: usize = 0;
    while i < v.len()
        invariant
            i <= v@.len(),
            forall|j: int| 0 <= j < i ==> v@[j]@ != t@,
        decreases v@.len() - i,
    {
        if str_equal(v[i].as_str(), t) {
            proof {
                assert(strings_of(v@)[i as int] == t@);
            }
            return true;
        }
        i = i + 1;
    }
    proof {
        if strings_of(v@).contains(t@) {
            let j = choose|j: int| 0 <= j < strings_of(v@).len() && strings_of(v@)[j] == t@;
            assert(v@[j]@ == t@);
        }
    }
    false
}

/// The major version of `package`'s merged specifier, when it has one.
pub open spec fn dependency_major(p: PackageView, package: Seq<char>) -> Option<u32> {
    match pairs_get(all_deps_spec(p), package, 0) {
        Some(s) => major_of(s),
        None => None,
    }
}

/// Whether some project of the workspace has an `e2e` architect target.
pub open spec fn has_e2e_spec(p: Project) -> bool {
    match p.workspace {
        Some(w) => match w.projects {
            Some(ps) => has_target(ps@, "e2e"@),
            None => false,
        },
        None => false,
    }
}

impl Project {
    /// The `@angular/core` major version, if the project uses Angular.
    pub fn angular_major(&self) -> (res: Option<u32>)
        ensures
            res == dependency_major(self.package@, "@angular/core"@),
    {
        match self.package.dependency("@angular/core") {
            Some(s) => parse_major(s.as_str()),
            None => None,
        }
    }

    /// The `@angular/cli` major version, if installed.
    pub fn cli_major(&self) -> (res: Option<u32>)
        ensures
            res == dependency_major(self.package@, "@angular/cli"@),
    {
        match self.package.dependency("@angular/cli") {
            Some(s) => parse_major(s.as_str()),
            None => None,
        }
    }

    /// Whether `angular.json` declares an `e2e` target on any project.
    pub fn has_e2e_target(&self) -> (res: bool)
        ensures
            res == has_e2e_spec(*self),
    {
        let w = match &self.workspace {
            Some(w) => w,
            None => {
                return false;
            },
        };
        let ps = match &w.projects {
            Some(ps) => ps,
            None => {
                return false;
            },
        };
        let mut i: usize = 0;
        while i < ps.len()
            invariant
                i <= ps@.len(),
                self.workspace is Some,
                self.workspace->0.projects == Some(*ps),
                forall|j: int| 0 <= j < i ==> !project_has_target(#[trigger] ps@[j], "e2e"@),
            decreases ps@.len() - i,
        {
            match &ps[i].1 {
                Some(ts) => {
                    if contains_string(ts, "e2e") {
                        proof {
                            assert(project_has_target(ps@[i as int], "e2e"@));
                            assert(has_target(ps@, "e2e"@));
                        }
                        return true;
                    }
                },
                None => {},
            }
            i = i + 1;
        }
        false
    }
}

} // verus!
