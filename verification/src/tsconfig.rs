//! `tsconfig.json` handling: turning JSONC (comments, trailing commas) into
//! plain JSON text, recognising tsconfig file names, and editing
//! `angularCompilerOptions`.
//!
//! The stripping works on the characters of the input; every character it
//! keeps is copied as it stands, so non-ASCII text passes through unchanged.

use vstd::prelude::*;
use crate::package::{pair_index, pairs_view};
use crate::model::strings_view;
use crate::text::{ends_with, ends_with_str, starts_with, starts_with_str, str_equal, string_push, to_chars};

verus! {

pub open spec fn is_ws_char(c: char) -> bool {
    c == ' ' || c == '\t' || c == '\n' || c == '\x0C' || c == '\r'
}

/// From `i`, past whitespace characters.
pub open spec fn skip_ws(b: Seq<char>, i: int) -> int
    decreases b.len() - i,
{
    if 0 <= i < b.len() && is_ws_char(b[i]) {
        skip_ws(b, i + 1)
    } else {
        i
    }
}

/// From `i`, the index of the next newline (or the end).
pub open spec fn line_end(b: Seq<char>, i: int) -> int
    decreases b.len() - i,
{
    if 0 <= i < b.len() && b[i] != '\n' {
        line_end(b, i + 1)
    } else {
        i
    }
}

/// From `i`, the index of the next `*/` (or the last index when there is none).
pub open spec fn block_end(b: Seq<char>, i: int) -> int
    decreases b.len() - i,
{
    if 0 <= i && i + 1 < b.len() && !(b[i] == '*' && b[i + 1] == '/') {
        block_end(b, i + 1)
    } else {
        i
    }
}

pub proof fn lemma_scans(b: Seq<char>, i: int)
    requires
        0 <= i,
    ensures
        skip_ws(b, i) >= i,
        line_end(b, i) >= i,
        block_end(b, i) >= i,
        i <= b.len() ==> skip_ws(b, i) <= b.len(),
        i <= b.len() ==> line_end(b, i) <= b.len(),
        i <= b.len() ==> block_end(b, i) <= b.len(),
        i < b.len() && b[i] != '\n' ==> line_end(b, i) > i,
    decreases b.len() - i,
{
    if 0 <= i < b.len() {
        lemma_scans(b, i + 1);
    }
}

pub open spec fn slash_at(b: Seq<char>, i: int, second: char) -> bool {
    0 <= i && i + 1 < b.len() && b[i] == '/' && b[i + 1] == second
}

/// The next character after `i` that is not whitespace or inside a comment.
pub open spec fn next_significant(b: Seq<char>, i: int) -> Option<char>
    decreases b.len() + 2 - i,
{
    let j = skip_ws(b, i);
    if i < 0 {
        None
    } else if slash_at(b, j, '/') {
        proof {
            lemma_scans(b, i);
            lemma_scans(b, j);
        }
        next_significant(b, line_end(b, j))
    } else if slash_at(b, j, '*') {
        proof {
            lemma_scans(b, i);
            lemma_scans(b, j + 2);
        }
        next_significant(b, block_end(b, j + 2) + 2)
    } else if j < b.len() {
        Some(b[j])
    } else {
        None
    }
}

pub open spec fn is_quote_char(c: char) -> bool {
    c == '"' || c == '\'' || c == '`'
}

/// The JSON text kept from index `i` on, inside a string literal opened by
/// `quote` when `in_string`: comments and trailing commas (a comma whose next
/// significant character is `}` or `]`) are dropped, everything else is
/// copied.
pub open spec fn jsonc_loop(b: Seq<char>, i: int, in_string: bool, quote: char) -> Seq<char>
    decreases b.len() + 2 - i,
{
    if i < 0 || i >= b.len() {
        Seq::empty()
    } else {
        let c = b[i];
        proof {
            lemma_scans(b, i);
            lemma_scans(b, i + 2);
        }
        if in_string {
            if c == '\\' && i + 1 < b.len() {
                seq![c, b[i + 1]] + jsonc_loop(b, i + 2, true, quote)
            } else {
                seq![c] + jsonc_loop(b, i + 1, c != quote, quote)
            }
        } else if is_quote_char(c) {
            seq![c] + jsonc_loop(b, i + 1, true, c)
        } else if slash_at(b, i, '/') {
            jsonc_loop(b, line_end(b, i), false, quote)
        } else if slash_at(b, i, '*') {
            jsonc_loop(b, block_end(b, i + 2) + 2, false, quote)
        } else if c == ',' {
            if next_significant(b, i + 1) == Some('}') || next_significant(b, i + 1) == Some(']') {
                jsonc_loop(b, i + 1, false, quote)
            } else {
                seq![','] + jsonc_loop(b, i + 1, false, quote)
            }
        } else {
            seq![c] + jsonc_loop(b, i + 1, false, quote)
        }
    }
}

/// Text without comments or trailing commas: no `/` at all, and no comma
/// whose next non-whitespace character is `}` or `]`.
pub open spec fn plain_json(b: Seq<char>) -> bool {
    &&& forall|k: int| 0 <= k < b.len() ==> #[trigger] b[k] != '/'
    &&& forall|k: int|
        0 <= k < b.len() && #[trigger] b[k] == ',' ==> !(skip_ws(b, k + 1) < b.len() && (b[skip_ws(
            b,
            k + 1,
        )] == '}' || b[skip_ws(b, k + 1)] == ']'))
}

proof fn lemma_plain_unchanged(b: Seq<char>, i: int, in_string: bool, quote: char)
    requires
        plain_json(b),
        0 <= i <= b.len(),
    ensures
        jsonc_loop(b, i, in_string, quote) == b.subrange(i, b.len() as int),
    decreases b.len() + 2 - i,
{
    if i >= b.len() {
        assert(b.subrange(i, b.len() as int) =~= Seq::<char>::empty());
    } else {
        let c = b[i];
        lemma_scans(b, i);
        lemma_scans(b, i + 2);
        assert(b[i] != '/');
        if in_string {
            if c == '\\' && i + 1 < b.len() {
                lemma_plain_unchanged(b, i + 2, true, quote);
                assert(seq![c, b[i + 1]] + b.subrange(i + 2, b.len() as int) =~= b.subrange(
                    i,
                    b.len() as int,
                ));
            } else {
                lemma_plain_unchanged(b, i + 1, c != quote, quote);
                assert(seq![c] + b.subrange(i + 1, b.len() as int) =~= b.subrange(i, b.len() as int));
            }
        } else if is_quote_char(c) {
            lemma_plain_unchanged(b, i + 1, true, c);
            assert(seq![c] + b.subrange(i + 1, b.len() as int) =~= b.subrange(i, b.len() as int));
        } else {
            lemma_plain_unchanged(b, i + 1, false, quote);
            if c == ',' {
                let j = skip_ws(b, i + 1);
                lemma_scans(b, i + 1);
                if j < b.len() {
                    assert(b[j] != '/');
                }
                assert(next_significant(b, i + 1) == if j < b.len() {
                    Some(b[j])
                } else {
                    None::<char>
                });
                assert(seq![','] + b.subrange(i + 1, b.len() as int) =~= b.subrange(
                    i,
                    b.len() as int,
                ));
            } else {
                assert(seq![c] + b.subrange(i + 1, b.len() as int) =~= b.subrange(i, b.len() as int));
            }
        }
    }
}

/// Text without comments or trailing commas comes back exactly as it was.
pub proof fn plain_json_is_unchanged(b: Seq<char>)
    requires
        plain_json(b),
    ensures
        jsonc_loop(b, 0, false, ' ') == b,
{
    lemma_plain_unchanged(b, 0, false, ' ');
    assert(b.subrange(0, b.len() as int) =~= b);
}

fn next_significant_exec(b: &Vec<char>, start: usize) -> (res: Option<char>)
    requires
        start <= b@.len(),
        b@.len() + 2 < usize::MAX,
    ensures
        res == next_significant(b@, start as int),
{
    let mut i = start;
    let ghost i0 = start as int;
    loop
        invariant
            i <= b@.len() + 2,
            i0 == start as int,
            b@.len() + 2 < usize::MAX,
            next_significant(b@, i0) == next_significant(b@, i as int),
        decreases b@.len() + 2 - i,
    {
        let ghost k = i as int;
        while i < b.len() && (b[i] == ' ' || b[i] == '\t' || b[i] == '\n' || b[i] == '\x0C' || b[i]
            == '\r')
            invariant
                k <= i <= b@.len() + 2,
                skip_ws(b@, k) == skip_ws(b@, i as int),
            decreases b@.len() + 2 - i,
        {
            i = i + 1;
        }
        proof {
            lemma_scans(b@, k);
            lemma_scans(b@, i as int);
        }
        if i < b.len() && b.len() - i > 1 && b[i] == '/' && b[i + 1] == '/' {
            let ghost j = i as int;
            while i < b.len() && b[i] != '\n'
                invariant
                    j <= i <= b@.len(),
                    line_end(b@, j) == line_end(b@, i as int),
                decreases b@.len() - i,
            {
                i = i + 1;
            }
            continue;
        }
        if i < b.len() && b.len() - i > 1 && b[i] == '/' && b[i + 1] == '*' {
            i = i + 2;
            let ghost j = i as int;
            proof {
                lemma_scans(b@, j);
            }
            while i < b.len() && b.len() - i > 1 && !(b[i] == '*' && b[i + 1] == '/')
                invariant
                    j <= i <= b@.len(),
                    block_end(b@, j) == block_end(b@, i as int),
                decreases b@.len() - i,
            {
                i = i + 1;
            }
            i = i + 2;
            continue;
        }
        if i < b.len() {
            return Some(b[i]);
        }
        return None;
    }
}

/// Strips JSONC comments and trailing commas so the text parses as JSON;
/// string and template literals, and every other character kept, are copied
/// untouched.
pub fn strip_jsonc(input: &str) -> (res: String)
    requires
        input@.len() + 2 < usize::MAX,
    ensures
        res@ == jsonc_loop(input@, 0, false, ' '),
{
    let b = to_chars(input);
    let n = b.len();
    let mut out = String::new();
    let mut i: usize = 0;
    let mut in_string = false;
    let mut quote: char = ' ';
    proof {
        assert(out@ + jsonc_loop(b@, 0, false, ' ') =~= jsonc_loop(b@, 0, false, ' '));
    }
    while i < n
        invariant
            n == b@.len(),
            n + 2 < usize::MAX,
            i <= n + 2,
            b@ == input@,
            out@ + jsonc_loop(b@, i as int, in_string, quote) == jsonc_loop(b@, 0, false, ' '),
        decreases n + 2 - i,
    {
        let c = b[i];
        let ghost before = out@;
        proof {
            lemma_scans(b@, i as int);
            lemma_scans(b@, i + 2);
        }
        if in_string {
            string_push(&mut out, c);
            if c == '\\' && n - i > 1 {
                string_push(&mut out, b[i + 1]);
                proof {
                    assert(before + (seq![c, b@[i + 1]] + jsonc_loop(b@, i + 2, true, quote)) =~= out@ + jsonc_loop(b@, i + 2, true, quote));
                }
                i = i + 2;
                continue;
            }
            if c == quote {
                in_string = false;
            }
            proof {
                assert(before + (seq![c] + jsonc_loop(b@, i + 1, in_string, quote)) =~= out@ + jsonc_loop(b@, i + 1, in_string, quote));
            }
            i = i + 1;
            continue;
        }
        if c == '"' || c == '\'' || c == '`' {
            in_string = true;
            quote = c;
            string_push(&mut out, c);
            proof {
                assert(before + (seq![c] + jsonc_loop(b@, i + 1, true, c)) =~= out@ + jsonc_loop(b@, i + 1, true, c));
            }
            i = i + 1;
        } else if c == '/' && n - i > 1 && b[i + 1] == '/' {
            let ghost j = i as int;
            while i < n && b[i] != '\n'
                invariant
                    n == b@.len(),
                    j <= i <= n,
                    line_end(b@, j) == line_end(b@, i as int),
                decreases n - i,
            {
                i = i + 1;
            }
        } else if c == '/' && n - i > 1 && b[i + 1] == '*' {
            i = i + 2;
            let ghost j = i as int;
            while i < n && n - i > 1 && !(b[i] == '*' && b[i + 1] == '/')
                invariant
                    n == b@.len(),
                    j <= i <= n,
                    block_end(b@, j) == block_end(b@, i as int),
                decreases n - i,
            {
                i = i + 1;
            }
            i = i + 2;
        } else if c == ',' {
            let nx = next_significant_exec(&b, i + 1);
            if nx == Some('}') || nx == Some(']') {
                i = i + 1;
            } else {
                string_push(&mut out, ',');
                proof {
                    assert(before + (seq![','] + jsonc_loop(b@, i + 1, false, quote)) =~= out@ + jsonc_loop(b@, i + 1, false, quote));
                }
                i = i + 1;
            }
        } else {
            string_push(&mut out, c);
            proof {
                assert(before + (seq![c] + jsonc_loop(b@, i + 1, false, quote)) =~= out@ + jsonc_loop(b@, i + 1, false, quote));
            }
            i = i + 1;
        }
    }
    proof {
        assert(out@ + Seq::<char>::empty() =~= out@);
    }
    out
}

/// File names of tsconfig files: `tsconfig*.json`.
pub fn is_tsconfig_name(name: &str) -> (res: bool)
    ensures
        res == (starts_with(name@, "tsconfig"@) && ends_with(name@, ".json"@)),
{
    let v = to_chars(name);
    starts_with_str(v.as_slice(), "tsconfig") && ends_with_str(v.as_slice(), ".json")
}

// ---------------------------------------------------------------------------
// `angularCompilerOptions`
// ---------------------------------------------------------------------------

/// The `angularCompilerOptions` object of one tsconfig: each key with the
/// JSON text of its value, in document order.
pub struct CompilerOptions {
    pub entries: Vec<(String, String)>,
}

/// Removes key `k`, the last entry taking its place (the order-preserving JSON
/// map's `remove`); whether it was there.
pub open spec fn remove_option(o: Seq<(Seq<char>, Seq<char>)>, k: Seq<char>) -> (Seq<(Seq<char>, Seq<char>)>, bool) {
    let i = pair_index(o, k, 0);
    if i < 0 {
        (o, false)
    } else {
        (o.update(i, o.last()).drop_last(), true)
    }
}

/// Sets key `k` to the value text `v` (in place when present, appended
/// otherwise); whether the value differed.
pub open spec fn set_option(o: Seq<(Seq<char>, Seq<char>)>, k: Seq<char>, v: Seq<char>) -> (Seq<(Seq<char>, Seq<char>)>, bool) {
    let i = pair_index(o, k, 0);
    if i < 0 {
        (o.push((k, v)), true)
    } else if o[i].1 == v {
        (o, false)
    } else {
        (o.update(i, (k, v)), true)
    }
}

/// Each key of `removes` removed in order; whether any was present.
pub open spec fn remove_options(o: Seq<(Seq<char>, Seq<char>)>, removes: Seq<Seq<char>>) -> (Seq<(Seq<char>, Seq<char>)>, bool)
    decreases removes.len(),
{
    if removes.len() == 0 {
        (o, false)
    } else {
        let (a, d) = remove_options(o, removes.drop_last());
        let (b, e) = remove_option(a, removes.last());
        (b, d || e)
    }
}

/// Each pair of `sets` set in order; whether any value differed.
pub open spec fn set_options(o: Seq<(Seq<char>, Seq<char>)>, sets: Seq<(Seq<char>, Seq<char>)>) -> (Seq<(Seq<char>, Seq<char>)>, bool)
    decreases sets.len(),
{
    if sets.len() == 0 {
        (o, false)
    } else {
        let (a, d) = set_options(o, sets.drop_last());
        let (b, e) = set_option(a, sets.last().0, sets.last().1);
        (b, d || e)
    }
}

/// The options after removing `removes` and then setting `sets`, with
/// whether any removal or set changed something.
pub open spec fn compiler_options_after(
    o: Seq<(Seq<char>, Seq<char>)>,
    removes: Seq<Seq<char>>,
    sets: Seq<(Seq<char>, Seq<char>)>,
) -> (Seq<(Seq<char>, Seq<char>)>, bool) {
    let (a, d) = remove_options(o, removes);
    let (b, e) = set_options(a, sets);
    (b, d || e)
}

fn option_index(v: &Vec<(String, String)>, k: &str) -> (res: Option<usize>)
    ensures
        match res {
            Some(i) => pair_index(pairs_view(v@), k@, 0) == i as int && i < v@.len(),
            None => pair_index(pairs_view(v@), k@, 0) == -1,
        },
{
    let ghost pv = pairs_view(v@);
    let mut i: usize = 0;
    while i < v.len()
        invariant
            i <= v@.len(),
            pv == pairs_view(v@),
            pair_index(pv, k@, 0) == pair_index(pv, k@, i as int),
        decreases v@.len() - i,
    {
        proof {
            assert(pv[i as int].0 == v@[i as int].0@);
        }
        if str_equal(v[i].0.as_str(), k) {
            return Some(i);
        }
        i = i + 1;
    }
    None
}

/// Removes the keys `removes` from `angularCompilerOptions` and then sets
/// each pair of `sets` (key, JSON text of the value); returns whether any key
/// was removed or any value set to a different one.
pub fn edit_compiler_options(opts: &mut CompilerOptions, removes: &Vec<String>, sets: &Vec<(String, String)>) -> (dirty: bool)
    ensures
        (pairs_view(final(opts).entries@), dirty) == compiler_options_after(
            pairs_view(old(opts).entries@),
            strings_view(removes@),
            pairs_view(sets@),
        ),
{
    let ghost o0 = pairs_view(opts.entries@);
    let ghost rs = strings_view(removes@);
    let ghost ss = pairs_view(sets@);
    let mut dirty = false;
    let mut i: usize = 0;
    proof {
        assert(rs.take(0) =~= Seq::<Seq<char>>::empty());
    }
    while i < removes.len()
        invariant
            i <= removes@.len(),
            rs == strings_view(removes@),
            (pairs_view(opts.entries@), dirty) == remove_options(o0, rs.take(i as int)),
        decreases removes@.len() - i,
    {
        proof {
            assert(rs.take(i + 1).drop_last() =~= rs.take(i as int));
            assert(rs.take(i + 1).last() == removes@[i as int]@);
        }
        let ghost before = pairs_view(opts.entries@);
        match option_index(&opts.entries, removes[i].as_str()) {
            Some(j) => {
                let _ = opts.entries.swap_remove(j);
                proof {
                    assert(pairs_view(opts.entries@) =~= before.update(j as int, before.last()).drop_last());
                }
                dirty = true;
            },
            None => {},
        }
        i = i + 1;
    }
    proof {
        assert(rs.take(removes@.len() as int) =~= rs);
    }
    let ghost mid = pairs_view(opts.entries@);
    let ghost d0 = dirty;
    let mut set_dirty = false;
    let mut k: usize = 0;
    proof {
        assert(ss.take(0) =~= Seq::<(Seq<char>, Seq<char>)>::empty());
    }
    while k < sets.len()
        invariant
            k <= sets@.len(),
            ss == pairs_view(sets@),
            dirty == d0,
            (mid, d0) == remove_options(o0, rs),
            rs == strings_view(removes@),
            (pairs_view(opts.entries@), set_dirty) == set_options(mid, ss.take(k as int)),
        decreases sets@.len() - k,
    {
        proof {
            assert(ss.take(k + 1).drop_last() =~= ss.take(k as int));
            assert(ss.take(k + 1).last() == (sets@[k as int].0@, sets@[k as int].1@));
        }
        let ghost before = pairs_view(opts.entries@);
        let key = sets[k].0.as_str();
        let val = sets[k].1.as_str();
        match option_index(&opts.entries, key) {
            Some(j) => {
                proof {
                    assert(before[j as int].1 == opts.entries@[j as int].1@);
                }
                if !str_equal(opts.entries[j].1.as_str(), val) {
                    opts.entries.set(j, (key.to_owned(), val.to_owned()));
                    proof {
                        assert(pairs_view(opts.entries@) =~= before.update(j as int, (key@, val@)));
                    }
                    set_dirty = true;
                }
            },
            None => {
                opts.entries.push((key.to_owned(), val.to_owned()));
                proof {
                    assert(pairs_view(opts.entries@) =~= before.push((key@, val@)));
                }
                set_dirty = true;
            },
        }
        k = k + 1;
    }
    proof {
        assert(ss.take(sets@.len() as int) =~= ss);
    }
    dirty || set_dirty
}

} // verus!
