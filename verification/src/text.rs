//! Character-level helpers shared by the scanners and renderers: character
//! classes, trimming, searching, splitting and decimal rendering, each with
//! the specification the rest of the crate states its contracts over.

use vstd::prelude::*;
use vstd::string::*;

verus! {

// ---------------------------------------------------------------------------
// Character classes
// ---------------------------------------------------------------------------

/// `u8::is_ascii_whitespace` / `char::is_ascii_whitespace`: space, tab, LF, FF, CR.
pub open spec fn is_ascii_ws(c: char) -> bool {
    c == ' ' || c == '\t' || c == '\n' || c == '\x0C' || c == '\r'
}

pub open spec fn is_ascii_alpha(c: char) -> bool {
    ('a' <= c && c <= 'z') || ('A' <= c && c <= 'Z')
}

pub open spec fn is_ascii_digit(c: char) -> bool {
    '0' <= c && c <= '9'
}

pub open spec fn is_ascii_alnum(c: char) -> bool {
    is_ascii_alpha(c) || is_ascii_digit(c)
}

/// `char::is_whitespace`: the Unicode `White_Space` property.
pub open spec fn is_unicode_ws(c: char) -> bool {
    c == ' ' || ('\t' <= c && c <= '\r') || c == '\u{85}' || c == '\u{A0}' || c == '\u{1680}'
        || ('\u{2000}' <= c && c <= '\u{200A}') || c == '\u{2028}' || c == '\u{2029}'
        || c == '\u{202F}' || c == '\u{205F}' || c == '\u{3000}'
}

pub fn ascii_ws(c: char) -> (b: bool)
    ensures
        b == is_ascii_ws(c),
{
    c == ' ' || c == '\t' || c == '\n' || c == '\x0C' || c == '\r'
}

pub fn ascii_alpha(c: char) -> (b: bool)
    ensures
        b == is_ascii_alpha(c),
{
    ('a' <= c && c <= 'z') || ('A' <= c && c <= 'Z')
}

pub fn ascii_digit(c: char) -> (b: bool)
    ensures
        b == is_ascii_digit(c),
{
    '0' <= c && c <= '9'
}

pub fn ascii_alnum(c: char) -> (b: bool)
    ensures
        b == is_ascii_alnum(c),
{
    ascii_alpha(c) || ascii_digit(c)
}

pub fn unicode_ws(c: char) -> (b: bool)
    ensures
        b == is_unicode_ws(c),
{
    c == ' ' || ('\t' <= c && c <= '\r') || c == '\u{85}' || c == '\u{A0}' || c == '\u{1680}'
        || ('\u{2000}' <= c && c <= '\u{200A}') || c == '\u{2028}' || c == '\u{2029}'
        || c == '\u{202F}' || c == '\u{205F}' || c == '\u{3000}'
}

// ---------------------------------------------------------------------------
// Conversions and appending
// ---------------------------------------------------------------------------

/// Appends one character to a string (std `String::push`).
#[verifier::external_body]
pub(crate) fn string_push(s: &mut String, c: char)
    ensures
        final(s)@ == old(s)@.push(c),
{
    s.push(c);
}

/// Equality of two string slices (std `str` equality).
#[verifier::external_body]
pub(crate) fn str_equal(a: &str, b: &str) -> (res: bool)
    ensures
        res == (a@ == b@),
{
    a == b
}

/// The characters of `s`, in order.
pub fn to_chars(s: &str) -> (res: Vec<char>)
    ensures
        res@ == s@,
{
    broadcast use vstd::string::axiom_spec_iter;

    let mut v: Vec<char> = Vec::new();
    for c in it: s.chars()
        invariant
            v@ == it.seq().take(it.index() as int),
    {
        v.push(c);
    }
    v
}

/// A string made of the characters `v`, in order.
pub fn from_chars(v: &[char]) -> (res: String)
    ensures
        res@ == v@,
{
    let mut s = String::new();
    let mut i: usize = 0;
    while i < v.len()
        invariant
            i <= v@.len(),
            s@ == v@.take(i as int),
        decreases v@.len() - i,
    {
        string_push(&mut s, v[i]);
        i = i + 1;
        assert(v@.take(i as int) == v@.take((i - 1) as int).push(v@[i - 1]));
    }
    assert(v@.take(v@.len() as int) == v@);
    s
}

/// Appends `s[a..b]` to `out`.
pub fn push_range(out: &mut Vec<char>, s: &[char], a: usize, b: usize)
    requires
        a <= b <= s@.len(),
    ensures
        final(out)@ == old(out)@ + s@.subrange(a as int, b as int),
{
    let mut i = a;
    while i < b
        invariant
            a <= i <= b,
            b <= s@.len(),
            out@ == old(out)@ + s@.subrange(a as int, i as int),
        decreases b - i,
    {
        out.push(s[i]);
        i = i + 1;
        assert(s@.subrange(a as int, i as int) == s@.subrange(a as int, (i - 1) as int).push(
            s@[i - 1],
        ));
    }
}

/// Appends all of `s` to `out`.
pub fn push_all(out: &mut Vec<char>, s: &[char])
    ensures
        final(out)@ == old(out)@ + s@,
{
    push_range(out, s, 0, s.len());
    assert(s@.subrange(0, s@.len() as int) == s@);
}

/// Appends the characters of `t` to `out`.
pub fn push_str(out: &mut Vec<char>, t: &str)
    ensures
        final(out)@ == old(out)@ + t@,
{
    let v = to_chars(t);
    push_all(out, v.as_slice());
}

/// A copy of `s[a..b]`.
pub fn slice_to_vec(s: &[char], a: usize, b: usize) -> (res: Vec<char>)
    requires
        a <= b <= s@.len(),
    ensures
        res@ == s@.subrange(a as int, b as int),
{
    let mut out: Vec<char> = Vec::new();
    push_range(&mut out, s, a, b);
    out
}

// ---------------------------------------------------------------------------
// Searching
// ---------------------------------------------------------------------------

/// `p` occurs in `s` at position `i`.
pub open spec fn matches_at(s: Seq<char>, i: int, p: Seq<char>) -> bool {
    0 <= i && i + p.len() <= s.len() && s.subrange(i, i + p.len()) == p
}

/// The first position at or after `i` where `p` occurs in `s`, or -1.
pub open spec fn find_from(s: Seq<char>, p: Seq<char>, i: int) -> int
    decreases s.len() + 1 - i,
{
    if i < 0 || i + p.len() > s.len() {
        -1
    } else if matches_at(s, i, p) {
        i
    } else {
        find_from(s, p, i + 1)
    }
}

pub open spec fn contains(s: Seq<char>, p: Seq<char>) -> bool {
    find_from(s, p, 0) >= 0
}

pub open spec fn starts_with(s: Seq<char>, p: Seq<char>) -> bool {
    matches_at(s, 0, p)
}

pub open spec fn ends_with(s: Seq<char>, p: Seq<char>) -> bool {
    p.len() <= s.len() && matches_at(s, s.len() - p.len(), p)
}

/// The first index at or after `i` holding `c`, or -1.
pub open spec fn index_of_char_from(s: Seq<char>, c: char, i: int) -> int
    decreases s.len() - i,
{
    if i < 0 || i >= s.len() {
        -1
    } else if s[i] == c {
        i
    } else {
        index_of_char_from(s, c, i + 1)
    }
}

pub proof fn lemma_find_from_bounds(s: Seq<char>, p: Seq<char>, i: int)
    ensures
        find_from(s, p, i) == -1 || (i <= find_from(s, p, i) && matches_at(s, find_from(s, p, i), p)),
    decreases s.len() + 1 - i,
{
    if i < 0 || i + p.len() > s.len() {
    } else if matches_at(s, i, p) {
    } else {
        lemma_find_from_bounds(s, p, i + 1);
    }
}

pub proof fn lemma_index_of_char_bounds(s: Seq<char>, c: char, i: int)
    requires
        0 <= i,
    ensures
        index_of_char_from(s, c, i) == -1 || (i <= index_of_char_from(s, c, i) < s.len()
            && s[index_of_char_from(s, c, i)] == c),
        index_of_char_from(s, c, i) == -1 ==> forall|k: int| i <= k < s.len() ==> s[k] != c,
        index_of_char_from(s, c, i) != -1 ==> forall|k: int|
            i <= k < index_of_char_from(s, c, i) ==> s[k] != c,
    decreases s.len() - i,
{
    if i < 0 || i >= s.len() {
    } else if s[i] == c {
    } else {
        lemma_index_of_char_bounds(s, c, i + 1);
    }
}

/// Whether `p` occurs in `s` at `i`.
pub fn matches_at_exec(s: &[char], i: usize, p: &[char]) -> (res: bool)
    ensures
        res == matches_at(s@, i as int, p@),
{
    if i > s.len() || p.len() > s.len() - i {
        return false;
    }
    let mut k: usize = 0;
    while k < p.len()
        invariant
            i + p@.len() <= s@.len(),
            s@.len() == s.len(),
            k <= p@.len(),
            forall|j: int| 0 <= j < k ==> s@[i + j] == p@[j],
        decreases p@.len() - k,
    {
        if s[i + k] != p[k] {
            assert(s@.subrange(i as int, i + p@.len())[k as int] != p@[k as int]);
            return false;
        }
        k = k + 1;
    }
    assert(s@.subrange(i as int, i + p@.len()) =~= p@);
    true
}

/// Whether two character slices are equal.
pub fn chars_equal(a: &[char], b: &[char]) -> (res: bool)
    ensures
        res == (a@ == b@),
{
    if a.len() != b.len() {
        return false;
    }
    let r = matches_at_exec(a, 0, b);
    proof {
        assert(a@.subrange(0, a@.len() as int) =~= a@);
    }
    r
}

/// The first position at or after `from` where `p` occurs in `s`.
pub fn find_chars(s: &[char], p: &[char], from: usize) -> (res: Option<usize>)
    ensures
        match res {
            Some(k) => find_from(s@, p@, from as int) == k as int,
            None => find_from(s@, p@, from as int) == -1,
        },
{
    let mut i = from;
    loop
        invariant
            from <= i,
            find_from(s@, p@, from as int) == find_from(s@, p@, i as int),
        decreases s@.len() + 1 - i,
    {
        if i > s.len() || p.len() > s.len() - i {
            return None;
        }
        if matches_at_exec(s, i, p) {
            return Some(i);
        }
        if p.len() == 0 {
            assert(s@.subrange(i as int, i as int) =~= p@);
        }
        i = i + 1;
    }
}

pub fn contains_chars(s: &[char], p: &[char]) -> (res: bool)
    ensures
        res == contains(s@, p@),
{
    find_chars(s, p, 0).is_some()
}

pub fn contains_str(s: &[char], p: &str) -> (res: bool)
    ensures
        res == contains(s@, p@),
{
    let pv = to_chars(p);
    contains_chars(s, pv.as_slice())
}

pub fn starts_with_str(s: &[char], p: &str) -> (res: bool)
    ensures
        res == starts_with(s@, p@),
{
    let pv = to_chars(p);
    matches_at_exec(s, 0, pv.as_slice())
}

pub fn ends_with_str(s: &[char], p: &str) -> (res: bool)
    ensures
        res == ends_with(s@, p@),
{
    let pv = to_chars(p);
    if pv.len() > s.len() {
        false
    } else {
        matches_at_exec(s, s.len() - pv.len(), pv.as_slice())
    }
}

/// The first index at or after `from` holding `c`.
pub fn index_of_char(s: &[char], c: char, from: usize) -> (res: Option<usize>)
    ensures
        match res {
            Some(k) => index_of_char_from(s@, c, from as int) == k as int,
            None => index_of_char_from(s@, c, from as int) == -1,
        },
{
    let mut i = from;
    while i < s.len()
        invariant
            from <= i,
            index_of_char_from(s@, c, from as int) == index_of_char_from(s@, c, i as int),
        decreases s@.len() - i,
    {
        if s[i] == c {
            return Some(i);
        }
        i = i + 1;
    }
    None
}

// ---------------------------------------------------------------------------
// Trimming
// ---------------------------------------------------------------------------

/// First index at or after `i` whose character is not Unicode whitespace.
pub open spec fn skip_uws(s: Seq<char>, i: int) -> int
    decreases s.len() - i,
{
    if i < 0 || i >= s.len() || !is_unicode_ws(s[i]) {
        i
    } else {
        skip_uws(s, i + 1)
    }
}

/// Largest `j <= i` such that `s[j - 1]` is not Unicode whitespace (or 0).
pub open spec fn skip_uws_back(s: Seq<char>, i: int) -> int
    decreases i,
{
    if i <= 0 || i > s.len() || !is_unicode_ws(s[i - 1]) {
        i
    } else {
        skip_uws_back(s, i - 1)
    }
}

/// `str::trim`: removes leading and trailing Unicode whitespace.
pub open spec fn trim(s: Seq<char>) -> Seq<char> {
    let a = skip_uws(s, 0);
    let b = skip_uws_back(s, s.len() as int);
    if b <= a {
        Seq::empty()
    } else {
        s.subrange(a, b)
    }
}

pub proof fn lemma_skip_uws(s: Seq<char>, i: int)
    requires
        0 <= i <= s.len(),
    ensures
        i <= skip_uws(s, i) <= s.len(),
        forall|k: int| i <= k < skip_uws(s, i) ==> is_unicode_ws(s[k]),
        skip_uws(s, i) < s.len() ==> !is_unicode_ws(s[skip_uws(s, i)]),
    decreases s.len() - i,
{
    if i >= s.len() || !is_unicode_ws(s[i]) {
    } else {
        lemma_skip_uws(s, i + 1);
    }
}

pub proof fn lemma_skip_uws_back(s: Seq<char>, i: int)
    requires
        0 <= i <= s.len(),
    ensures
        0 <= skip_uws_back(s, i) <= i,
        forall|k: int| skip_uws_back(s, i) <= k < i ==> is_unicode_ws(s[k]),
        skip_uws_back(s, i) > 0 ==> !is_unicode_ws(s[skip_uws_back(s, i) - 1]),
    decreases i,
{
    if i <= 0 || !is_unicode_ws(s[i - 1]) {
    } else {
        lemma_skip_uws_back(s, i - 1);
    }
}

/// `trim(s)` is empty exactly when every character of `s` is whitespace.
pub proof fn lemma_trim_empty(s: Seq<char>)
    ensures
        (trim(s).len() == 0) == (forall|k: int| 0 <= k < s.len() ==> is_unicode_ws(s[k])),
{
    lemma_skip_uws(s, 0);
    lemma_skip_uws_back(s, s.len() as int);
    let a = skip_uws(s, 0);
    let b = skip_uws_back(s, s.len() as int);
    if b <= a {
        assert forall|k: int| 0 <= k < s.len() implies is_unicode_ws(s[k]) by {
            if k >= a {
                assert(k >= b);
            }
        }
    } else {
        assert(!is_unicode_ws(s[a]));
    }
}

pub fn skip_uws_exec(s: &[char], i: usize) -> (res: usize)
    requires
        i <= s@.len(),
    ensures
        res == skip_uws(s@, i as int),
{
    let mut j = i;
    while j < s.len() && unicode_ws(s[j])
        invariant
            i <= j <= s@.len(),
            skip_uws(s@, i as int) == skip_uws(s@, j as int),
        decreases s@.len() - j,
    {
        j = j + 1;
    }
    j
}

pub fn skip_uws_back_exec(s: &[char], i: usize) -> (res: usize)
    requires
        i <= s@.len(),
    ensures
        res == skip_uws_back(s@, i as int),
{
    let mut j = i;
    while j > 0 && unicode_ws(s[j - 1])
        invariant
            j <= i <= s@.len(),
            skip_uws_back(s@, i as int) == skip_uws_back(s@, j as int),
        decreases j,
    {
        j = j - 1;
    }
    j
}

/// `str::trim` on a character slice.
pub fn trim_chars(s: &[char]) -> (res: Vec<char>)
    ensures
        res@ == trim(s@),
{
    let a = skip_uws_exec(s, 0);
    let b = skip_uws_back_exec(s, s.len());
    if b <= a {
        Vec::new()
    } else {
        proof {
            lemma_skip_uws(s@, 0);
            lemma_skip_uws_back(s@, s@.len() as int);
        }
        slice_to_vec(s, a, b)
    }
}

/// All characters of `s` are Unicode whitespace (`s.trim().is_empty()`).
pub fn is_blank(s: &[char]) -> (res: bool)
    ensures
        res == (trim(s@).len() == 0),
        res == (forall|k: int| 0 <= k < s@.len() ==> is_unicode_ws(s@[k])),
{
    proof {
        lemma_trim_empty(s@);
        lemma_skip_uws(s@, 0);
    }
    skip_uws_exec(s, 0) == s.len()
}

// ---------------------------------------------------------------------------
// Decimal rendering
// ---------------------------------------------------------------------------

pub open spec fn digit_char(d: nat) -> char {
    if d == 0 { '0' } else if d == 1 { '1' } else if d == 2 { '2' } else if d == 3 { '3' }
    else if d == 4 { '4' } else if d == 5 { '5' } else if d == 6 { '6' } else if d == 7 { '7' }
    else if d == 8 { '8' } else { '9' }
}

/// The decimal rendering of `n` (as `n.to_string()`).
pub open spec fn decimal(n: nat) -> Seq<char>
    decreases n,
{
    if n < 10 {
        seq![digit_char(n)]
    } else {
        decimal(n / 10).push(digit_char(n % 10))
    }
}

fn digit_char_exec(d: u128) -> (c: char)
    requires
        d < 10,
    ensures
        c == digit_char(d as nat),
{
    if d == 0 { '0' } else if d == 1 { '1' } else if d == 2 { '2' } else if d == 3 { '3' }
    else if d == 4 { '4' } else if d == 5 { '5' } else if d == 6 { '6' } else if d == 7 { '7' }
    else if d == 8 { '8' } else { '9' }
}

/// Appends the decimal rendering of `n` to `out`.
pub fn push_decimal(out: &mut Vec<char>, n: u128)
    ensures
        final(out)@ == old(out)@ + decimal(n as nat),
    decreases n,
{
    if n < 10 {
        out.push(digit_char_exec(n));
        assert(decimal(n as nat) == seq![digit_char(n as nat)]);
    } else {
        push_decimal(out, n / 10);
        out.push(digit_char_exec(n % 10));
        assert(decimal(n as nat) == decimal((n / 10) as nat).push(digit_char((n % 10) as nat)));
    }
}

/// The decimal rendering of `n` as a string.
pub fn decimal_string(n: u64) -> (res: String)
    ensures
        res@ == decimal(n as nat),
{
    let mut v: Vec<char> = Vec::new();
    push_decimal(&mut v, n as u128);
    from_chars(v.as_slice())
}


// ---------------------------------------------------------------------------
// Splitting and joining
// ---------------------------------------------------------------------------

pub proof fn lemma_index_of_char_skip(t: Seq<char>, c: char, start: int, i: int)
    requires
        0 <= start <= t.len(),
        0 <= i,
    ensures
        index_of_char_from(t.skip(start), c, i) == (if index_of_char_from(t, c, start + i) < 0 {
            -1
        } else {
            index_of_char_from(t, c, start + i) - start
        }),
    decreases t.len() - start - i,
{
    if i >= t.len() - start {
    } else if t[start + i] == c {
    } else {
        lemma_index_of_char_skip(t, c, start, i + 1);
    }
}

/// `str::split(c)`: the pieces of `s` between occurrences of `c`.
pub open spec fn split_char(s: Seq<char>, c: char) -> Seq<Seq<char>>
    decreases s.len(),
{
    let k = index_of_char_from(s, c, 0);
    if k < 0 {
        seq![s]
    } else {
        proof {
            lemma_index_of_char_bounds(s, c, 0);
        }
        seq![s.take(k)] + split_char(s.skip(k + 1), c)
    }
}

/// A line as `str::lines` yields it: a trailing `\r` (before the `\n`) is dropped.
pub open spec fn strip_cr(l: Seq<char>) -> Seq<char> {
    if l.len() > 0 && l.last() == '\r' {
        l.drop_last()
    } else {
        l
    }
}

/// `str::lines`: split at `\n` (and `\r\n`); a final line ending is optional.
pub open spec fn lines(t: Seq<char>) -> Seq<Seq<char>>
    decreases t.len(),
{
    if t.len() == 0 {
        Seq::empty()
    } else {
        let k = index_of_char_from(t, '\n', 0);
        if k < 0 {
            seq![t]
        } else {
            proof {
                lemma_index_of_char_bounds(t, '\n', 0);
            }
            seq![strip_cr(t.take(k))] + lines(t.skip(k + 1))
        }
    }
}

/// `[T]::join(sep)` on strings.
pub open spec fn join(parts: Seq<Seq<char>>, sep: Seq<char>) -> Seq<char>
    decreases parts.len(),
{
    if parts.len() == 0 {
        Seq::empty()
    } else if parts.len() == 1 {
        parts[0]
    } else {
        join(parts.drop_last(), sep) + sep + parts.last()
    }
}

/// Splits `s` at every `c`, as `str::split`.
pub fn split_char_exec(s: &[char], c: char) -> (res: Vec<Vec<char>>)
    ensures
        res@.map_values(|v: Vec<char>| v@) == split_char(s@, c),
{
    let mut parts: Vec<Vec<char>> = Vec::new();
    let mut start: usize = 0;
    let len = s.len();
    proof {
        assert(s@.skip(0) =~= s@);
        assert(parts@.map_values(|v: Vec<char>| v@) + split_char(s@, c) =~= split_char(s@, c));
    }
    loop
        invariant
            len == s@.len(),
            start <= s@.len(),
            split_char(s@, c) == parts@.map_values(|v: Vec<char>| v@) + split_char(
                s@.skip(start as int),
                c,
            ),
        decreases s@.len() - start,
    {
        let ghost rest = s@.skip(start as int);
        proof {
            lemma_index_of_char_skip(s@, c, start as int, 0);
            lemma_index_of_char_bounds(s@, c, start as int);
        }
        match index_of_char(s, c, start) {
            None => {
                let piece = slice_to_vec(s, start, s.len());
                let ghost before = parts@.map_values(|v: Vec<char>| v@);
                parts.push(piece);
                proof {
                    assert(rest =~= s@.subrange(start as int, s@.len() as int));
                    assert(parts@.map_values(|v: Vec<char>| v@) =~= before + seq![rest]);
                }
                return parts;
            },
            Some(k) => {
                let piece = slice_to_vec(s, start, k);
                let ghost before = parts@.map_values(|v: Vec<char>| v@);
                parts.push(piece);
                proof {
                    assert(rest.take(k - start) =~= s@.subrange(start as int, k as int));
                    assert(rest.skip(k - start + 1) =~= s@.skip(k + 1));
                    assert(parts@.map_values(|v: Vec<char>| v@) =~= before + seq![
                        s@.subrange(start as int, k as int),
                    ]);
                    assert(before + seq![rest.take(k - start)] + split_char(
                        rest.skip(k - start + 1),
                        c,
                    ) =~= before + (seq![rest.take(k - start)] + split_char(
                        rest.skip(k - start + 1),
                        c,
                    )));
                }
                start = k + 1;
            },
        }
    }
}

// ---------------------------------------------------------------------------
// Lexicographic order
// ---------------------------------------------------------------------------

/// `a < b` in lexicographic order of characters, comparing from index `i`.
pub open spec fn lt_from(a: Seq<char>, b: Seq<char>, i: int) -> bool
    decreases a.len() - i,
{
    if i < 0 || i >= a.len() {
        0 <= i < b.len()
    } else if i >= b.len() {
        false
    } else if a[i] != b[i] {
        a[i] < b[i]
    } else {
        lt_from(a, b, i + 1)
    }
}

/// Lexicographic order of strings (the order of `str`'s `Ord`).
pub open spec fn str_lt(a: Seq<char>, b: Seq<char>) -> bool {
    lt_from(a, b, 0)
}

pub proof fn lemma_lt_from_trans(a: Seq<char>, b: Seq<char>, c: Seq<char>, i: int)
    requires
        0 <= i,
        lt_from(a, b, i),
        lt_from(b, c, i),
    ensures
        lt_from(a, c, i),
    decreases a.len() - i,
{
    if i >= a.len() {
    } else if a[i] != b[i] {
    } else if b[i] != c[i] {
    } else {
        lemma_lt_from_trans(a, b, c, i + 1);
    }
}

pub proof fn lemma_lt_from_total(a: Seq<char>, b: Seq<char>, i: int)
    requires
        0 <= i <= a.len(),
        i <= b.len(),
        a.take(i) == b.take(i),
    ensures
        a == b || lt_from(a, b, i) || lt_from(b, a, i),
        !(lt_from(a, b, i) && lt_from(b, a, i)),
        !lt_from(a, a, i),
    decreases a.len() - i,
{
    if i >= a.len() {
        if i >= b.len() {
            assert(a =~= a.take(i));
            assert(b =~= b.take(i));
        }
        if i < a.len() {
        }
    } else if i >= b.len() {
    } else if a[i] != b[i] {
    } else {
        assert(a.take(i + 1) =~= a.take(i).push(a[i]));
        assert(b.take(i + 1) =~= b.take(i).push(b[i]));
        lemma_lt_from_total(a, b, i + 1);
    }
    lemma_lt_irrefl(a, i);
}

pub proof fn lemma_lt_irrefl(a: Seq<char>, i: int)
    requires
        0 <= i,
    ensures
        !lt_from(a, a, i),
    decreases a.len() - i,
{
    if i < a.len() {
        lemma_lt_irrefl(a, i + 1);
    }
}

/// `str_lt` is a strict total order.
pub proof fn lemma_str_lt(a: Seq<char>, b: Seq<char>, c: Seq<char>)
    ensures
        !str_lt(a, a),
        a == b || str_lt(a, b) || str_lt(b, a),
        !(str_lt(a, b) && str_lt(b, a)),
        str_lt(a, b) && str_lt(b, c) ==> str_lt(a, c),
{
    assert(a.take(0) =~= b.take(0));
    lemma_lt_from_total(a, b, 0);
    lemma_lt_irrefl(a, 0);
    if str_lt(a, b) && str_lt(b, c) {
        lemma_lt_from_trans(a, b, c, 0);
    }
}

/// Lexicographic comparison of character slices.
pub fn chars_lt(a: &[char], b: &[char]) -> (res: bool)
    ensures
        res == str_lt(a@, b@),
{
    let mut i: usize = 0;
    loop
        invariant
            lt_from(a@, b@, 0) == lt_from(a@, b@, i as int),
            i <= a@.len(),
            i <= b@.len(),
        decreases a@.len() - i,
    {
        if i >= a.len() {
            return i < b.len();
        }
        if i >= b.len() {
            return false;
        }
        if a[i] != b[i] {
            return a[i] < b[i];
        }
        i = i + 1;
    }
}

} // verus!
