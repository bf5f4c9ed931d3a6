//! Opt-in migration from structural directives (`*ngIf`, `*ngFor`) to the
//! control-flow blocks (`@if`, `@for`).
//!
//! The rewrite is conservative: `*ngFor` loops with an index variable,
//! `ng-template` hosts, `else`/`then` branches and aliases are left alone and
//! reported as skipped, with a warning each.
//!
//! Positions are character indices into the template text; warnings report
//! the byte offset of the skipped element, as UTF-8 counts it.

use vstd::prelude::*;
use crate::text::{
    ascii_alnum, ascii_alpha, ascii_ws, contains, contains_chars, contains_str, find_chars,
    find_from, index_of_char, index_of_char_from, is_ascii_alnum, is_ascii_alpha, is_ascii_ws,
    decimal, from_chars, is_blank, is_unicode_ws, join, push_decimal, push_range, push_str, lemma_find_from_bounds, lemma_index_of_char_bounds,
    lemma_index_of_char_skip, lines, matches_at, matches_at_exec, push_all, slice_to_vec, split_char,
    split_char_exec, starts_with, strip_cr, to_chars, trim, trim_chars,
    unicode_ws,
};

verus! {

// ---------------------------------------------------------------------------
// Character classes and scanning
// ---------------------------------------------------------------------------

/// Characters of an element or closing-tag name.
pub open spec fn is_name_char(c: char) -> bool {
    is_ascii_alnum(c) || c == '-' || c == ':' || c == '_'
}

/// Characters of an attribute name (structural, binding, ref and event syntax).
pub open spec fn is_attr_char(c: char) -> bool {
    is_ascii_alnum(c) || c == '-' || c == ':' || c == '_' || c == '*' || c == '#' || c == '['
        || c == ']' || c == '(' || c == ')' || c == '.'
}

/// Characters of an unquoted attribute value.
pub open spec fn is_unquoted_char(c: char) -> bool {
    !is_ascii_ws(c) && c != '>' && c != '/'
}

/// The character classes the scanner skips over.
pub enum CharClass {
    Name,
    Attr,
    Unquoted,
    AsciiWs,
    WsNotNewline,
    Not(char),
}

pub open spec fn class_has(cls: CharClass, c: char) -> bool {
    match cls {
        CharClass::Name => is_name_char(c),
        CharClass::Attr => is_attr_char(c),
        CharClass::Unquoted => is_unquoted_char(c),
        CharClass::AsciiWs => is_ascii_ws(c),
        CharClass::WsNotNewline => is_unicode_ws(c) && c != '\n',
        CharClass::Not(x) => c != x,
    }
}

fn in_class(cls: &CharClass, c: char) -> (b: bool)
    ensures
        b == class_has(*cls, c),
{
    match cls {
        CharClass::Name => ascii_alnum(c) || c == '-' || c == ':' || c == '_',
        CharClass::Attr => ascii_alnum(c) || c == '-' || c == ':' || c == '_' || c == '*' || c
            == '#' || c == '[' || c == ']' || c == '(' || c == ')' || c == '.',
        CharClass::Unquoted => !ascii_ws(c) && c != '>' && c != '/',
        CharClass::AsciiWs => ascii_ws(c),
        CharClass::WsNotNewline => unicode_ws(c) && c != '\n',
        CharClass::Not(x) => c != *x,
    }
}

/// The first index at or after `i` (and before `n`) whose character is not in `cls`.
pub open spec fn scan(s: Seq<char>, i: int, n: int, cls: CharClass) -> int
    decreases n - i,
{
    if 0 <= i && i < n && i < s.len() && class_has(cls, s[i]) {
        scan(s, i + 1, n, cls)
    } else {
        i
    }
}

pub proof fn lemma_scan(s: Seq<char>, i: int, n: int, cls: CharClass)
    requires
        0 <= i,
        n <= s.len(),
    ensures
        i <= scan(s, i, n, cls),
        i <= n ==> scan(s, i, n, cls) <= n,
        i > n ==> scan(s, i, n, cls) == i,
        forall|k: int| i <= k < scan(s, i, n, cls) ==> class_has(cls, s[k]),
        scan(s, i, n, cls) < n ==> !class_has(cls, s[scan(s, i, n, cls)]),
    decreases n - i,
{
    if 0 <= i && i < n && i < s.len() && class_has(cls, s[i]) {
        lemma_scan(s, i + 1, n, cls);
    }
}

fn scan_exec(s: &[char], i: usize, n: usize, cls: &CharClass) -> (res: usize)
    requires
        n <= s@.len(),
    ensures
        res == scan(s@, i as int, n as int, *cls),
{
    let mut j = i;
    while j < n && in_class(cls, s[j])
        invariant
            i <= j,
            n <= s@.len(),
            scan(s@, i as int, n as int, *cls) == scan(s@, j as int, n as int, *cls),
        decreases n - j,
    {
        j = j + 1;
    }
    j
}

pub open spec fn min(a: int, b: int) -> int {
    if a < b { a } else { b }
}

pub open spec fn max(a: int, b: int) -> int {
    if a < b { b } else { a }
}

// ---------------------------------------------------------------------------
// Elements
// ---------------------------------------------------------------------------

/// An HTML attribute: its name and its raw value text, quotes included
/// (`None` for a boolean attribute).
pub struct Attr {
    pub name: Vec<char>,
    pub value: Option<Vec<char>>,
}

pub open spec fn opt_view(v: Option<Vec<char>>) -> Option<Seq<char>> {
    match v {
        Some(x) => Some(x@),
        None => None,
    }
}

impl View for Attr {
    type V = (Seq<char>, Option<Seq<char>>);

    open spec fn view(&self) -> (Seq<char>, Option<Seq<char>>) {
        (self.name@, opt_view(self.value))
    }
}

pub open spec fn attrs_view(a: Seq<Attr>) -> Seq<(Seq<char>, Option<Seq<char>>)> {
    a.map_values(|x: Attr| x@)
}

/// A parsed element: the open tag, and the matching close tag if any.
pub struct Element {
    pub name: Vec<char>,
    pub open_start: usize,
    pub open_end: usize,
    pub self_closing: bool,
    pub attrs: Vec<Attr>,
    pub content_start: usize,
    pub content_end: usize,
    pub close_end: usize,
    pub has_close: bool,
}

pub struct ElementSpec {
    pub name: Seq<char>,
    pub open_start: int,
    pub open_end: int,
    pub self_closing: bool,
    pub attrs: Seq<(Seq<char>, Option<Seq<char>>)>,
    pub content_start: int,
    pub content_end: int,
    pub close_end: int,
    pub has_close: bool,
}

impl View for Element {
    type V = ElementSpec;

    open spec fn view(&self) -> ElementSpec {
        ElementSpec {
            name: self.name@,
            open_start: self.open_start as int,
            open_end: self.open_end as int,
            self_closing: self.self_closing,
            attrs: attrs_view(self.attrs@),
            content_start: self.content_start as int,
            content_end: self.content_end as int,
            close_end: self.close_end as int,
            has_close: self.has_close,
        }
    }
}

/// The void elements of HTML, which never have a close tag.
pub open spec fn is_void(name: Seq<char>) -> bool {
    name == "area"@ || name == "base"@ || name == "br"@ || name == "col"@ || name == "embed"@
        || name == "hr"@ || name == "img"@ || name == "input"@ || name == "link"@ || name
        == "meta"@ || name == "param"@ || name == "source"@ || name == "track"@ || name == "wbr"@
}

fn chars_eq_str(a: &[char], b: &str) -> (res: bool)
    ensures
        res == (a@ == b@),
{
    let bv = to_chars(b);
    if a.len() != bv.len() {
        return false;
    }
    let r = matches_at_exec(a, 0, bv.as_slice());
    proof {
        if r {
            assert(a@.subrange(0, bv@.len() as int) =~= a@);
        } else {
            assert(a@.subrange(0, a@.len() as int) =~= a@);
        }
    }
    r
}

fn is_void_exec(name: &[char]) -> (res: bool)
    ensures
        res == is_void(name@),
{
    chars_eq_str(name, "area") || chars_eq_str(name, "base") || chars_eq_str(name, "br")
        || chars_eq_str(name, "col") || chars_eq_str(name, "embed") || chars_eq_str(name, "hr")
        || chars_eq_str(name, "img") || chars_eq_str(name, "input") || chars_eq_str(name, "link")
        || chars_eq_str(name, "meta") || chars_eq_str(name, "param") || chars_eq_str(
        name,
        "source",
    ) || chars_eq_str(name, "track") || chars_eq_str(name, "wbr")
}

/// The value of the attribute whose name ends at `ae`: `(value, end of the attribute)`.
pub open spec fn attr_value(s: Seq<char>, ae: int, n: int) -> (Option<Seq<char>>, int) {
    let j = scan(s, ae, n, CharClass::AsciiWs);
    if j < n && s[j] == '=' {
        let j2 = scan(s, j + 1, n, CharClass::AsciiWs);
        if j2 < n {
            let vend = if s[j2] == '"' || s[j2] == '\'' {
                min(scan(s, j2 + 1, n, CharClass::Not(s[j2])) + 1, n)
            } else {
                scan(s, j2, n, CharClass::Unquoted)
            };
            (Some(s.subrange(j2, vend)), vend)
        } else {
            (None, j2)
        }
    } else {
        (None, ae)
    }
}

pub proof fn lemma_attr_value(s: Seq<char>, ae: int, n: int)
    requires
        0 <= ae <= n <= s.len(),
    ensures
        ae <= attr_value(s, ae, n).1 <= n,
        attr_value(s, ae, n).0 matches Some(v) ==> {
            let j2 = attr_value(s, ae, n).1 - v.len();
            ae <= j2 <= attr_value(s, ae, n).1 && v == s.subrange(j2, attr_value(s, ae, n).1)
        },
{
    let j = scan(s, ae, n, CharClass::AsciiWs);
    lemma_scan(s, ae, n, CharClass::AsciiWs);
    if j < n && s[j] == '=' {
        lemma_scan(s, j + 1, n, CharClass::AsciiWs);
        let j2 = scan(s, j + 1, n, CharClass::AsciiWs);
        if j2 < n {
            if s[j2] == '"' || s[j2] == '\'' {
                lemma_scan(s, j2 + 1, n, CharClass::Not(s[j2]));
            } else {
                lemma_scan(s, j2, n, CharClass::Unquoted);
            }
        }
    }
}

pub open spec fn prepend_attrs(
    acc: Seq<(Seq<char>, Option<Seq<char>>)>,
    r: Option<(Seq<(Seq<char>, Option<Seq<char>>)>, bool, int)>,
) -> Option<(Seq<(Seq<char>, Option<Seq<char>>)>, bool, int)> {
    match r {
        Some((a, sc, e)) => Some((acc + a, sc, e)),
        None => None,
    }
}

/// The attributes of an open tag from `i` up to its `>` (or `/>`): the list of
/// attributes, whether the tag was written self-closing, and the index just
/// past the tag; `None` when no `>` comes before `n`.
pub open spec fn attr_loop(s: Seq<char>, i: int, n: int) -> Option<
    (Seq<(Seq<char>, Option<Seq<char>>)>, bool, int),
>
    decreases n - i,
{
    let i1 = scan(s, i, n, CharClass::AsciiWs);
    if i < 0 || n > s.len() || i1 >= n {
        None
    } else if s[i1] == '>' {
        Some((Seq::empty(), false, i1 + 1))
    } else if s[i1] == '/' && i1 + 1 < n && s[i1 + 1] == '>' {
        Some((Seq::empty(), true, i1 + 2))
    } else {
        let ae = scan(s, i1, n, CharClass::Attr);
        proof {
            lemma_scan(s, i, n, CharClass::AsciiWs);
            lemma_scan(s, i1, n, CharClass::Attr);
        }
        if ae == i1 {
            attr_loop(s, i1 + 1, n)
        } else {
            let (value, a_end) = attr_value(s, ae, n);
            proof {
                lemma_attr_value(s, ae, n);
            }
            prepend_attrs(seq![(s.subrange(i1, ae), value)], attr_loop(s, a_end, n))
        }
    }
}

/// The open tag starting at `lt` (where `s[lt] == '<'`), scanning no further than `end`.
pub open spec fn parse_open_tag(s: Seq<char>, lt: int, end: int) -> Option<ElementSpec> {
    let n = min(s.len() as int, end);
    let i = lt + 1;
    if lt < 0 || (i < n && (s[i] == '!' || s[i] == '?')) {
        None
    } else {
        let ne = scan(s, i, n, CharClass::Name);
        if ne == i {
            None
        } else {
            match attr_loop(s, ne, n) {
                None => None,
                Some((attrs, sc, oe)) => {
                    let name = s.subrange(i, ne);
                    Some(
                        ElementSpec {
                            name,
                            open_start: lt,
                            open_end: oe,
                            self_closing: sc || is_void(name),
                            attrs,
                            content_start: oe,
                            content_end: oe,
                            close_end: oe,
                            has_close: false,
                        },
                    )
                },
            }
        }
    }
}


fn attr_value_exec(s: &[char], ae: usize, n: usize) -> (res: (Option<Vec<char>>, usize))
    requires
        ae <= n <= s@.len(),
    ensures
        (opt_view(res.0), res.1 as int) == attr_value(s@, ae as int, n as int),
{
    proof {
        lemma_scan(s@, ae as int, n as int, CharClass::AsciiWs);
    }
    let j = scan_exec(s, ae, n, &CharClass::AsciiWs);
    if j < n && s[j] == '=' {
        proof {
            lemma_scan(s@, j + 1, n as int, CharClass::AsciiWs);
        }
        let j2 = scan_exec(s, j + 1, n, &CharClass::AsciiWs);
        if j2 < n {
            let vend = if s[j2] == '"' || s[j2] == '\'' {
                let q = s[j2];
                proof {
                    lemma_scan(s@, j2 + 1, n as int, CharClass::Not(q));
                }
                let k = scan_exec(s, j2 + 1, n, &CharClass::Not(q));
                if k < n - 1 {
                    k + 1
                } else {
                    n
                }
            } else {
                proof {
                    lemma_scan(s@, j2 as int, n as int, CharClass::Unquoted);
                }
                scan_exec(s, j2, n, &CharClass::Unquoted)
            };
            (Some(slice_to_vec(s, j2, vend)), vend)
        } else {
            (None, j2)
        }
    } else {
        (None, ae)
    }
}

/// Exec counterpart of [`attr_loop`].
fn parse_attrs(s: &[char], i: usize, n: usize) -> (res: Option<(Vec<Attr>, bool, usize)>)
    requires
        n <= s@.len(),
    ensures
        res is None ==> attr_loop(s@, i as int, n as int) is None,
        res matches Some(r) ==> attr_loop(s@, i as int, n as int) == Some(
            (attrs_view(r.0@), r.1, r.2 as int),
        ),
{
    let mut attrs: Vec<Attr> = Vec::new();
    let mut pos = i;
    let ghost i0 = i as int;
    loop
        invariant
            n <= s@.len(),
            i0 == i as int,
            attr_loop(s@, i0, n as int) == prepend_attrs(
                attrs_view(attrs@),
                attr_loop(s@, pos as int, n as int),
            ),
        decreases n - pos,
    {
        proof {
            lemma_scan(s@, pos as int, n as int, CharClass::AsciiWs);
        }
        let i1 = scan_exec(s, pos, n, &CharClass::AsciiWs);
        if i1 >= n {
            return None;
        }
        if s[i1] == '>' {
            proof {
                assert(attrs_view(attrs@) + Seq::empty() =~= attrs_view(attrs@));
            }
            return Some((attrs, false, i1 + 1));
        }
        if s[i1] == '/' && i1 + 1 < n && s[i1 + 1] == '>' {
            proof {
                assert(attrs_view(attrs@) + Seq::empty() =~= attrs_view(attrs@));
            }
            return Some((attrs, true, i1 + 2));
        }
        proof {
            lemma_scan(s@, i1 as int, n as int, CharClass::Attr);
        }
        let ae = scan_exec(s, i1, n, &CharClass::Attr);
        if ae == i1 {
            pos = i1 + 1;
        } else {
            proof {
                lemma_attr_value(s@, ae as int, n as int);
            }
            let (value, a_end) = attr_value_exec(s, ae, n);
            let name = slice_to_vec(s, i1, ae);
            let ghost before = attrs_view(attrs@);
            let attr = Attr { name, value };
            let ghost av = attr@;
            attrs.push(attr);
            proof {
                assert(attrs_view(attrs@) =~= before + seq![av]);
                let r = attr_loop(s@, a_end as int, n as int);
                match r {
                    Some((a, sc, e)) => {
                        assert(before + (seq![av] + a) =~= (before + seq![av]) + a);
                    },
                    None => {},
                }
            }
            pos = a_end;
        }
    }
}

/// Parse the open tag starting at `lt` (where `s[lt] == '<'`); see [`parse_open_tag`].
fn parse_open_tag_exec(s: &[char], lt: usize, end: usize) -> (res: Option<Element>)
    requires
        lt < s@.len(),
    ensures
        match res {
            Some(el) => parse_open_tag(s@, lt as int, end as int) == Some(el@),
            None => parse_open_tag(s@, lt as int, end as int) is None,
        },
{
    let n = if s.len() < end {
        s.len()
    } else {
        end
    };
    let i = lt + 1;
    if i < n && (s[i] == '!' || s[i] == '?') {
        return None;
    }
    proof {
        lemma_scan(s@, i as int, n as int, CharClass::Name);
    }
    let ne = scan_exec(s, i, n, &CharClass::Name);
    if ne == i {
        return None;
    }
    match parse_attrs(s, ne, n) {
        None => None,
        Some((attrs, sc, oe)) => {
            let name = slice_to_vec(s, i, ne);
            let void = is_void_exec(name.as_slice());
            Some(
                Element {
                    name,
                    open_start: lt,
                    open_end: oe,
                    self_closing: sc || void,
                    attrs,
                    content_start: oe,
                    content_end: oe,
                    close_end: oe,
                    has_close: false,
                },
            )
        },
    }
}


// ---------------------------------------------------------------------------
// Close tags
// ---------------------------------------------------------------------------

/// From `k`, inside an open tag: the index of the `>` ending the tag, skipping
/// quoted text (`q` is the open quote, if any; inside quotes a backslash
/// escapes the next character). A result `>= n` means no `>` was found.
pub open spec fn skip_tag(s: Seq<char>, k: int, n: int, q: Option<char>) -> int
    decreases n + 2 - k,
{
    if k < 0 || k >= n || n > s.len() {
        k
    } else {
        match q {
            Some(qc) => if s[k] == '\\' {
                skip_tag(s, k + 2, n, q)
            } else if s[k] == qc {
                skip_tag(s, k + 1, n, None)
            } else {
                skip_tag(s, k + 1, n, q)
            },
            None => if s[k] == '"' || s[k] == '\'' {
                skip_tag(s, k + 1, n, Some(s[k]))
            } else if s[k] == '>' {
                k
            } else {
                skip_tag(s, k + 1, n, None)
            },
        }
    }
}

pub proof fn lemma_skip_tag(s: Seq<char>, k: int, n: int, q: Option<char>)
    ensures
        skip_tag(s, k, n, q) >= k,
    decreases n + 2 - k,
{
    if k < 0 || k >= n || n > s.len() {
    } else {
        match q {
            Some(qc) => if s[k] == '\\' {
                lemma_skip_tag(s, k + 2, n, q);
            } else if s[k] == qc {
                lemma_skip_tag(s, k + 1, n, None);
            } else {
                lemma_skip_tag(s, k + 1, n, q);
            },
            None => if s[k] == '"' || s[k] == '\'' {
                lemma_skip_tag(s, k + 1, n, Some(s[k]));
            } else if s[k] == '>' {
            } else {
                lemma_skip_tag(s, k + 1, n, None);
            },
        }
    }
}

/// Scanning from `i` with `depth` elements named `name` still open: the index
/// just past the close tag that brings the count to zero. Nested elements with
/// the same name are balanced against their own close tags; comments and
/// doctypes are skipped.
pub open spec fn close_loop(s: Seq<char>, name: Seq<char>, i: int, n: int, depth: int) -> Option<
    int,
>
    decreases n - i,
{
    if i < 0 || i >= n || n > s.len() {
        None
    } else if s[i] != '<' {
        close_loop(s, name, i + 1, n, depth)
    } else if i + 1 < n && s[i + 1] == '!' {
        let j = scan(s, i + 2, n, CharClass::Not('>'));
        proof {
            lemma_scan(s, i + 2, n, CharClass::Not('>'));
        }
        close_loop(s, name, min(j + 1, n), n, depth)
    } else if i + 1 < n && s[i + 1] == '/' {
        let j = scan(s, i + 2, n, CharClass::Name);
        proof {
            lemma_scan(s, i + 2, n, CharClass::Name);
        }
        if s.subrange(i + 2, j) == name {
            if depth - 1 == 0 {
                let k = scan(s, j, n, CharClass::Not('>'));
                Some(min(k + 1, n))
            } else {
                close_loop(s, name, j, n, depth - 1)
            }
        } else {
            close_loop(s, name, j, n, depth)
        }
    } else if i + 1 < n && (is_ascii_alpha(s[i + 1]) || s[i + 1] == '_') {
        let j = scan(s, i + 1, n, CharClass::Name);
        let d2 = if s.subrange(i + 1, j) == name {
            depth + 1
        } else {
            depth
        };
        let k = skip_tag(s, j, n, None);
        proof {
            lemma_scan(s, i + 1, n, CharClass::Name);
            lemma_skip_tag(s, j, n, None);
        }
        close_loop(s, name, min(k + 1, n), n, d2)
    } else {
        close_loop(s, name, i + 1, n, depth)
    }
}

/// The index just past the close tag matching an element named `name` whose
/// open tag ends at `from`, scanning no further than `end`.
pub open spec fn find_close_tag(s: Seq<char>, name: Seq<char>, from: int, end: int) -> Option<int> {
    close_loop(s, name, from, min(s.len() as int, end), 1)
}

fn skip_tag_exec(s: &[char], k: usize, n: usize) -> (res: usize)
    requires
        k <= n <= s@.len(),
    ensures
        res as int == skip_tag(s@, k as int, n as int, None) || (res == n && skip_tag(
            s@,
            k as int,
            n as int,
            None,
        ) >= n),
        res >= k,
        res <= n,
        res < n ==> res as int == skip_tag(s@, k as int, n as int, None),
{
    let mut pos = k;
    let mut q: Option<char> = None;
    let ghost k0 = k as int;
    while pos < n
        invariant
            k0 == k as int,
            k0 <= pos <= n,
            n <= s@.len(),
            skip_tag(s@, k0, n as int, None) == skip_tag(s@, pos as int, n as int, q),
        decreases n - pos,
    {
        let c = s[pos];
        match q {
            Some(qc) => {
                if c == '\\' {
                    if n - pos < 2 {
                        proof {
                            lemma_skip_tag(s@, pos + 2, n as int, q);
                        }
                        return n;
                    }
                    pos = pos + 2;
                } else {
                    if c == qc {
                        q = None;
                    }
                    pos = pos + 1;
                }
            },
            None => {
                if c == '"' || c == '\'' {
                    q = Some(c);
                } else if c == '>' {
                    proof {
                        lemma_skip_tag(s@, k0, n as int, None);
                    }
                    return pos;
                }
                pos = pos + 1;
            },
        }
    }
    proof {
        lemma_skip_tag(s@, k0, n as int, None);
    }
    pos
}

fn subrange_eq(s: &[char], a: usize, b: usize, name: &[char]) -> (res: bool)
    requires
        a <= b <= s@.len(),
    ensures
        res == (s@.subrange(a as int, b as int) == name@),
{
    if b - a != name.len() {
        return false;
    }
    let r = matches_at_exec(s, a, name);
    r
}

/// Exec counterpart of [`find_close_tag`].
fn find_close_tag_exec(s: &[char], name: &[char], from: usize, end: usize) -> (res: Option<usize>)
    ensures
        match res {
            Some(k) => find_close_tag(s@, name@, from as int, end as int) == Some(k as int),
            None => find_close_tag(s@, name@, from as int, end as int) is None,
        },
{
    let n = if s.len() < end {
        s.len()
    } else {
        end
    };
    let mut depth: usize = 1;
    let mut i = from;
    let ghost spec_n = min(s@.len() as int, end as int);
    assert(spec_n == n as int);
    while i < n
        invariant
            n <= s@.len(),
            spec_n == n as int,
            1 <= depth <= i + 1,
            find_close_tag(s@, name@, from as int, end as int) == close_loop(
                s@,
                name@,
                i as int,
                n as int,
                depth as int,
            ),
        decreases n - i,
    {
        if s[i] != '<' {
            i = i + 1;
            continue;
        }
        if i + 1 < n && s[i + 1] == '!' {
            proof {
                lemma_scan(s@, i + 2, n as int, CharClass::Not('>'));
            }
            let j = scan_exec(s, i + 2, n, &CharClass::Not('>'));
            i = if j < n - 1 {
                j + 1
            } else {
                n
            };
            continue;
        }
        if i + 1 < n && s[i + 1] == '/' {
            proof {
                lemma_scan(s@, i + 2, n as int, CharClass::Name);
            }
            let j = scan_exec(s, i + 2, n, &CharClass::Name);
            if subrange_eq(s, i + 2, j, name) {
                depth = depth - 1;
                if depth == 0 {
                    proof {
                        lemma_scan(s@, j as int, n as int, CharClass::Not('>'));
                    }
                    let k = scan_exec(s, j, n, &CharClass::Not('>'));
                    return Some(
                        if k < n - 1 {
                            k + 1
                        } else {
                            n
                        },
                    );
                }
            }
            i = j;
            continue;
        }
        if i + 1 < n && (ascii_alpha(s[i + 1]) || s[i + 1] == '_') {
            proof {
                lemma_scan(s@, i + 1, n as int, CharClass::Name);
            }
            let j = scan_exec(s, i + 1, n, &CharClass::Name);
            if subrange_eq(s, i + 1, j, name) {
                depth = depth + 1;
            }
            let k = skip_tag_exec(s, j, n);
            proof {
                lemma_skip_tag(s@, j as int, n as int, None);
            }
            i = if k < n - 1 {
                k + 1
            } else {
                n
            };
            continue;
        }
        i = i + 1;
    }
    None
}


pub proof fn lemma_attr_loop(s: Seq<char>, i: int, n: int)
    requires
        0 <= i,
        n <= s.len(),
    ensures
        attr_loop(s, i, n) matches Some((a, sc, e)) ==> i < e <= n,
    decreases n - i,
{
    let i1 = scan(s, i, n, CharClass::AsciiWs);
    lemma_scan(s, i, n, CharClass::AsciiWs);
    if i < 0 || n > s.len() || i1 >= n {
    } else if s[i1] == '>' {
    } else if s[i1] == '/' && i1 + 1 < n && s[i1 + 1] == '>' {
    } else {
        let ae = scan(s, i1, n, CharClass::Attr);
        lemma_scan(s, i1, n, CharClass::Attr);
        if ae == i1 {
            lemma_attr_loop(s, i1 + 1, n);
        } else {
            lemma_attr_value(s, ae, n);
            lemma_attr_loop(s, attr_value(s, ae, n).1, n);
        }
    }
}

pub proof fn lemma_close_loop(s: Seq<char>, name: Seq<char>, i: int, n: int, depth: int)
    requires
        0 <= i,
        n <= s.len(),
    ensures
        close_loop(s, name, i, n, depth) matches Some(k) ==> i < k <= n,
    decreases n - i,
{
    if i < 0 || i >= n || n > s.len() {
    } else if s[i] != '<' {
        lemma_close_loop(s, name, i + 1, n, depth);
    } else if i + 1 < n && s[i + 1] == '!' {
        let j = scan(s, i + 2, n, CharClass::Not('>'));
        lemma_scan(s, i + 2, n, CharClass::Not('>'));
        lemma_close_loop(s, name, min(j + 1, n), n, depth);
    } else if i + 1 < n && s[i + 1] == '/' {
        let j = scan(s, i + 2, n, CharClass::Name);
        lemma_scan(s, i + 2, n, CharClass::Name);
        if s.subrange(i + 2, j) == name {
            if depth - 1 == 0 {
                lemma_scan(s, j, n, CharClass::Not('>'));
            } else {
                lemma_close_loop(s, name, j, n, depth - 1);
            }
        } else {
            lemma_close_loop(s, name, j, n, depth);
        }
    } else if i + 1 < n && (is_ascii_alpha(s[i + 1]) || s[i + 1] == '_') {
        let j = scan(s, i + 1, n, CharClass::Name);
        let d2 = if s.subrange(i + 1, j) == name {
            depth + 1
        } else {
            depth
        };
        let k = skip_tag(s, j, n, None);
        lemma_scan(s, i + 1, n, CharClass::Name);
        lemma_skip_tag(s, j, n, None);
        lemma_close_loop(s, name, min(k + 1, n), n, d2);
    } else {
        lemma_close_loop(s, name, i + 1, n, depth);
    }
}

// ---------------------------------------------------------------------------
// Whole elements
// ---------------------------------------------------------------------------

/// The element starting at `lt`: its open tag, and, unless it is self-closing
/// or void, the matching close tag. Its content runs from the end of the open
/// tag to `close_end - (name length + 3)` (saturating), where a close tag
/// `</name>` would begin.
pub open spec fn parse_element(s: Seq<char>, lt: int, end: int) -> Option<ElementSpec> {
    match parse_open_tag(s, lt, end) {
        None => None,
        Some(el) => if el.self_closing {
            Some(el)
        } else {
            match find_close_tag(s, el.name, el.open_end, end) {
                None => None,
                Some(ce) => {
                    let cs = if ce >= el.name.len() + 3 {
                        ce - (el.name.len() + 3)
                    } else {
                        0
                    };
                    Some(
                        ElementSpec {
                            content_start: el.open_end,
                            content_end: cs,
                            close_end: ce,
                            has_close: true,
                            ..el
                        },
                    )
                },
            }
        },
    }
}

/// Well-formedness of a parsed element: its parts are ordered and lie between
/// `lt` and `min(s.len(), end)`.
pub open spec fn element_wf(el: ElementSpec, lt: int, end: int, len: int) -> bool {
    &&& el.open_start == lt
    &&& lt < el.open_end
    &&& el.open_end <= el.close_end
    &&& el.close_end <= min(len, end)
    &&& el.content_start == el.open_end
    &&& el.content_end <= el.close_end
    &&& 0 <= el.content_end
    &&& (!el.has_close ==> el.content_end == el.open_end && el.close_end == el.open_end)
    &&& (el.self_closing ==> !el.has_close)
}

pub proof fn lemma_parse_element_wf(s: Seq<char>, lt: int, end: int)
    requires
        0 <= lt,
    ensures
        parse_element(s, lt, end) matches Some(el) ==> element_wf(el, lt, end, s.len() as int),
{
    let n = min(s.len() as int, end);
    let i = lt + 1;
    if i < n && (s[i] == '!' || s[i] == '?') {
    } else {
        let ne = scan(s, i, n, CharClass::Name);
        if n < 0 {
            assert(scan(s, i, n, CharClass::Name) == i);
        } else {
            lemma_scan(s, i, n, CharClass::Name);
        }
        if ne != i && n >= 0 {
            lemma_attr_loop(s, ne, n);
            match parse_open_tag(s, lt, end) {
                Some(el) => {
                    if !el.self_closing {
                        lemma_close_loop(s, el.name, el.open_end, n, 1);
                    }
                },
                None => {},
            }
        }
    }
}

/// Exec counterpart of [`parse_element`].
fn parse_element_exec(s: &[char], lt: usize, end: usize) -> (res: Option<Element>)
    requires
        lt < s@.len(),
    ensures
        match res {
            Some(el) => parse_element(s@, lt as int, end as int) == Some(el@),
            None => parse_element(s@, lt as int, end as int) is None,
        },
{
    let el = parse_open_tag_exec(s, lt, end);
    match el {
        None => None,
        Some(mut el) => {
            if el.self_closing {
                return Some(el);
            }
            match find_close_tag_exec(s, el.name.as_slice(), el.open_end, end) {
                None => None,
                Some(ce) => {
                    let w = el.name.len();
                    let cs = if w <= ce && ce - w >= 3 {
                        ce - w - 3
                    } else {
                        0
                    };
                    el.content_start = el.open_end;
                    el.content_end = cs;
                    el.close_end = ce;
                    el.has_close = true;
                    Some(el)
                },
            }
        },
    }
}


// ---------------------------------------------------------------------------
// Indentation
// ---------------------------------------------------------------------------

/// Start of the line containing position `pos`.
pub open spec fn line_start(s: Seq<char>, pos: int) -> int
    decreases pos,
{
    if pos <= 0 || pos > s.len() {
        0
    } else if s[pos - 1] == '\n' {
        pos
    } else {
        line_start(s, pos - 1)
    }
}

/// The whitespace that begins the line containing `pos`, up to `pos`.
pub open spec fn leading_ws_of_line(s: Seq<char>, pos: int) -> Seq<char> {
    let a = line_start(s, pos);
    s.subrange(a, scan(s, a, pos, CharClass::WsNotNewline))
}

pub proof fn lemma_line_start(s: Seq<char>, pos: int)
    requires
        0 <= pos <= s.len(),
    ensures
        0 <= line_start(s, pos) <= pos,
    decreases pos,
{
    if pos <= 0 || s[pos - 1] == '\n' {
    } else {
        lemma_line_start(s, pos - 1);
    }
}

fn leading_ws_exec(s: &[char], pos: usize) -> (res: Vec<char>)
    requires
        pos <= s@.len(),
    ensures
        res@ == leading_ws_of_line(s@, pos as int),
{
    let mut a = pos;
    while a > 0 && s[a - 1] != '\n'
        invariant
            a <= pos <= s@.len(),
            line_start(s@, pos as int) == line_start(s@, a as int),
        decreases a,
    {
        a = a - 1;
    }
    proof {
        lemma_scan(s@, a as int, pos as int, CharClass::WsNotNewline);
    }
    let b = scan_exec(s, a, pos, &CharClass::WsNotNewline);
    slice_to_vec(s, a, b)
}

/// A line of a re-indented block: blank lines become empty, others get `indent`.
pub open spec fn indent_line(l: Seq<char>, indent: Seq<char>) -> Seq<char> {
    if trim(l).len() == 0 {
        Seq::empty()
    } else {
        indent + l
    }
}

pub open spec fn indent_lines(ls: Seq<Seq<char>>, indent: Seq<char>) -> Seq<Seq<char>> {
    ls.map_values(|l: Seq<char>| indent_line(l, indent))
}

/// Prepends `indent` to every non-blank line of `text`; blank lines become empty.
pub open spec fn reindent(text: Seq<char>, indent: Seq<char>) -> Seq<char> {
    if text.len() == 0 {
        Seq::empty()
    } else {
        join(indent_lines(lines(text), indent), seq!['\n'])
    }
}

fn emit_line(
    out: &mut Vec<char>,
    first: bool,
    l: &[char],
    indent: &[char],
    Ghost(done): Ghost<Seq<Seq<char>>>,
)
    requires
        first == (done.len() == 0),
        old(out)@ == join(indent_lines(done, indent@), seq!['\n']),
    ensures
        final(out)@ == join(indent_lines(done.push(l@), indent@), seq!['\n']),
{
    if !first {
        out.push('\n');
    }
    if !is_blank(l) {
        push_all(out, indent);
        push_all(out, l);
    }
    proof {
        let d2 = done.push(l@);
        assert(indent_lines(d2, indent@).drop_last() =~= indent_lines(done, indent@));
        assert(indent_lines(d2, indent@).last() == indent_line(l@, indent@));
        if done.len() == 0 {
            assert(indent_lines(d2, indent@).len() == 1);
        }
    }
}

/// Exec counterpart of [`reindent`].
fn reindent_exec(t: &[char], indent: &[char]) -> (res: Vec<char>)
    ensures
        res@ == reindent(t@, indent@),
{
    let mut out: Vec<char> = Vec::new();
    if t.len() == 0 {
        return out;
    }
    let len = t.len();
    let mut start: usize = 0;
    let mut first = true;
    let ghost mut done: Seq<Seq<char>> = Seq::empty();
    proof {
        assert(t@.skip(0) =~= t@);
        assert(done + lines(t@) =~= lines(t@));
        assert(indent_lines(done, indent@).len() == 0);
    }
    loop
        invariant
            len == t@.len(),
            start <= t@.len(),
            first == (done.len() == 0),
            lines(t@) == done + lines(t@.skip(start as int)),
            out@ == join(indent_lines(done, indent@), seq!['\n']),
        decreases t@.len() - start,
    {
        let ghost rest = t@.skip(start as int);
        if start == len {
            proof {
                assert(rest.len() == 0);
                assert(done + lines(rest) =~= done);
            }
            return out;
        }
        proof {
            lemma_index_of_char_skip(t@, '\n', start as int, 0);
            lemma_index_of_char_bounds(t@, '\n', start as int);
        }
        match index_of_char(t, '\n', start) {
            None => {
                let piece = slice_to_vec(t, start, len);
                proof {
                    assert(rest =~= piece@);
                    assert(lines(rest) == seq![rest]);
                }
                emit_line(&mut out, first, piece.as_slice(), indent, Ghost(done));
                proof {
                    assert(done + seq![rest] =~= done.push(rest));
                }
                return out;
            },
            Some(k) => {
                let mut end = k;
                if end > start && t[end - 1] == '\r' {
                    end = end - 1;
                }
                let piece = slice_to_vec(t, start, end);
                proof {
                    assert(rest.take(k - start) =~= t@.subrange(start as int, k as int));
                    assert(strip_cr(rest.take(k - start)) =~= piece@);
                    assert(rest.skip(k - start + 1) =~= t@.skip(k + 1));
                }
                emit_line(&mut out, first, piece.as_slice(), indent, Ghost(done));
                proof {
                    assert(done + (seq![piece@] + lines(t@.skip(k + 1))) =~= done.push(piece@)
                        + lines(t@.skip(k + 1)));
                    done = done.push(piece@);
                }
                first = false;
                start = k + 1;
            },
        }
    }
}

// ---------------------------------------------------------------------------
// Rebuilding an open tag
// ---------------------------------------------------------------------------

pub open spec fn attr_text(a: (Seq<char>, Option<Seq<char>>), drop: Seq<char>) -> Seq<char> {
    if a.0 == drop {
        Seq::empty()
    } else {
        seq![' '] + a.0 + match a.1 {
            Some(v) => seq!['='] + v,
            None => Seq::empty(),
        }
    }
}

pub open spec fn attrs_text(attrs: Seq<(Seq<char>, Option<Seq<char>>)>, drop: Seq<char>) -> Seq<
    char,
>
    decreases attrs.len(),
{
    if attrs.len() == 0 {
        Seq::empty()
    } else {
        attrs_text(attrs.drop_last(), drop) + attr_text(attrs.last(), drop)
    }
}

/// The open tag of `el` rebuilt without the attribute named `drop`.
pub open spec fn rebuild_open_tag(el: ElementSpec, drop: Seq<char>) -> Seq<char> {
    seq!['<'] + el.name + attrs_text(el.attrs, drop) + if el.self_closing {
        seq![' ', '/', '>']
    } else {
        seq!['>']
    }
}

/// Where an attribute stands in the source: its name at `a` and, for one
/// with a value, the raw value at `b`, separated by whitespace and `=` only.
pub open spec fn attr_in_source(s: Seq<char>, a: int, b: int, attr: (Seq<char>, Option<Seq<char>>)) -> bool {
    &&& matches_at(s, a, attr.0)
    &&& attr.1 matches Some(v) ==> {
        &&& a + attr.0.len() < b
        &&& matches_at(s, b, v)
        &&& forall|m: int| a + attr.0.len() <= m < b ==> s[m] == '=' || is_ascii_ws(#[trigger] s[m])
    }
}

/// The attribute stands in the source between `lo` and `hi` (see [`attr_in_source`]).
pub open spec fn attr_found(s: Seq<char>, lo: int, hi: int, attr: (Seq<char>, Option<Seq<char>>)) -> bool {
    exists|a: int, b: int|
        #![trigger attr_in_source(s, a, b, attr)]
        lo <= a && a + attr.0.len() <= hi && b + (match attr.1 {
            Some(v) => v.len(),
            None => 0,
        }) <= hi && attr_in_source(s, a, b, attr)
}

proof fn lemma_attr_loop_source(s: Seq<char>, i: int, n: int)
    requires
        0 <= i,
        n <= s.len(),
    ensures
        attr_loop(s, i, n) matches Some((attrs, sc, e)) ==> {
            &&& i <= e <= n
            &&& forall|k: int| 0 <= k < attrs.len() ==> attr_found(s, i, e, #[trigger] attrs[k])
        },
    decreases n - i,
{
    let i1 = scan(s, i, n, CharClass::AsciiWs);
    lemma_scan(s, i, n, CharClass::AsciiWs);
    if i < 0 || n > s.len() || i1 >= n {
    } else if s[i1] == '>' {
    } else if s[i1] == '/' && i1 + 1 < n && s[i1 + 1] == '>' {
    } else {
        let ae = scan(s, i1, n, CharClass::Attr);
        lemma_scan(s, i1, n, CharClass::Attr);
        if ae == i1 {
            lemma_attr_loop_source(s, i1 + 1, n);
        } else {
            let (value, a_end) = attr_value(s, ae, n);
            lemma_attr_value(s, ae, n);
            lemma_attr_loop_source(s, a_end, n);
            if let Some((rest, sc, e)) = attr_loop(s, a_end, n) {
                let first = (s.subrange(i1, ae), value);
                let attrs = seq![first] + rest;
                assert(attr_loop(s, i, n) == Some((attrs, sc, e)));
                let b = match value {
                    Some(v) => a_end - v.len(),
                    None => 0,
                };
                assert(matches_at(s, i1, first.0));
                if let Some(v) = value {
                    let j = scan(s, ae, n, CharClass::AsciiWs);
                    lemma_scan(s, ae, n, CharClass::AsciiWs);
                    let j2 = scan(s, j + 1, n, CharClass::AsciiWs);
                    lemma_scan(s, j + 1, n, CharClass::AsciiWs);
                    assert(j < n && s[j] == '=' && j2 < n);
                    if s[j2] == '"' || s[j2] == '\'' {
                        lemma_scan(s, j2 + 1, n, CharClass::Not(s[j2]));
                    } else {
                        lemma_scan(s, j2, n, CharClass::Unquoted);
                    }
                    assert(b == j2);
                    assert(matches_at(s, b, v));
                    assert forall|m: int| ae <= m < b implies s[m] == '=' || is_ascii_ws(#[trigger] s[m]) by {
                        if m < j {
                            assert(class_has(CharClass::AsciiWs, s[m]));
                        } else if m > j {
                            assert(class_has(CharClass::AsciiWs, s[m]));
                        }
                    }
                }
                assert(attr_in_source(s, i1, b, first));
                assert(attr_found(s, i, e, first));
                assert forall|k: int| 0 <= k < attrs.len() implies attr_found(s, i, e, #[trigger] attrs[k]) by {
                    if k == 0 {
                        assert(attrs[0] == first);
                    } else {
                        assert(attr_found(s, a_end, e, rest[k - 1]));
                        assert(attrs[k] == rest[k - 1]);
                    }
                }
            }
        }
    }
}

/// Every attribute of a parsed open tag is taken from the source as written:
/// its name occurs inside the tag, and its value (quotes included) occurs
/// after the name with only whitespace and `=` in between.
pub proof fn parsed_attributes_come_from_source(s: Seq<char>, lt: int, end: int)
    requires
        0 <= lt,
    ensures
        parse_open_tag(s, lt, end) matches Some(el) ==> forall|k: int|
            0 <= k < el.attrs.len() ==> attr_found(s, lt + 1, el.open_end, #[trigger] el.attrs[k]),
{
    let n = min(s.len() as int, end);
    let i = lt + 1;
    if !(i < n && (s[i] == '!' || s[i] == '?')) {
        let ne = scan(s, i, n, CharClass::Name);
        lemma_scan(s, i, n, CharClass::Name);
        if ne != i {
            lemma_attr_loop_source(s, ne, n);
        }
    }
}

proof fn lemma_attrs_text_piece(attrs: Seq<(Seq<char>, Option<Seq<char>>)>, drop: Seq<char>, k: int)
    requires
        0 <= k < attrs.len(),
    ensures
        exists|p: int| #[trigger] matches_at(attrs_text(attrs, drop), p, attr_text(attrs[k], drop)),
    decreases attrs.len(),
{
    let d = attrs.drop_last();
    let a = attrs_text(d, drop);
    let t = attrs_text(attrs, drop);
    if k == attrs.len() - 1 {
        let piece = attr_text(attrs.last(), drop);
        assert(t.subrange(a.len() as int, (a.len() + piece.len()) as int) =~= piece);
        assert(matches_at(t, a.len() as int, attr_text(attrs[k], drop)));
    } else {
        lemma_attrs_text_piece(d, drop, k);
        assert(d[k] == attrs[k]);
        let p = choose|p: int| #[trigger] matches_at(a, p, attr_text(d[k], drop));
        let piece = attr_text(d[k], drop);
        assert(t.subrange(p, p + piece.len()) =~= a.subrange(p, p + piece.len()));
        assert(matches_at(t, p, attr_text(attrs[k], drop)));
    }
}

/// The rebuilt open tag of a migrated element keeps every attribute other
/// than the removed directive exactly as parsed: ` name="value"` (the raw
/// value, quotes included) for an attribute with a value, ` name` for one
/// without. The tag starts with `<` and the element's name and ends with
/// `>` (` />` when self-closing).
pub proof fn rebuilt_tag_keeps_other_attributes(el: ElementSpec, drop: Seq<char>)
    ensures
        starts_with(rebuild_open_tag(el, drop), seq!['<'] + el.name),
        rebuild_open_tag(el, drop).last() == '>',
        forall|k: int|
            0 <= k < el.attrs.len() && el.attrs[k].0 != drop && el.attrs[k].1 is Some ==> exists|p: int|
                #[trigger] matches_at(
                    rebuild_open_tag(el, drop),
                    p,
                    seq![' '] + el.attrs[k].0 + seq!['='] + el.attrs[k].1->0,
                ),
        forall|k: int|
            0 <= k < el.attrs.len() && el.attrs[k].0 != drop && el.attrs[k].1 is None ==> exists|p: int|
                #[trigger] matches_at(rebuild_open_tag(el, drop), p, seq![' '] + el.attrs[k].0),
{
    let r = rebuild_open_tag(el, drop);
    let t = attrs_text(el.attrs, drop);
    let head = seq!['<'] + el.name;
    let tail = if el.self_closing {
        seq![' ', '/', '>']
    } else {
        seq!['>']
    };
    assert(r == head + t + tail);
    assert(r.subrange(0, head.len() as int) =~= head);
    assert(r.last() == tail.last());
    assert forall|k: int| 0 <= k < el.attrs.len() && el.attrs[k].0 != drop implies exists|p: int|
        #[trigger] matches_at(r, p, attr_text(el.attrs[k], drop)) by {
        lemma_attrs_text_piece(el.attrs, drop, k);
        let p = choose|p: int| #[trigger] matches_at(t, p, attr_text(el.attrs[k], drop));
        let piece = attr_text(el.attrs[k], drop);
        let q = p + head.len();
        assert(r.subrange(q, q + piece.len()) =~= t.subrange(p, p + piece.len()));
        assert(matches_at(r, q, piece));
    }
    assert forall|k: int|
        0 <= k < el.attrs.len() && el.attrs[k].0 != drop && el.attrs[k].1 is Some implies exists|p: int|
            #[trigger] matches_at(r, p, seq![' '] + el.attrs[k].0 + seq!['='] + el.attrs[k].1->0) by {
        assert(attr_text(el.attrs[k], drop) =~= seq![' '] + el.attrs[k].0 + seq!['='] + el.attrs[k].1->0);
        let p = choose|p: int| #[trigger] matches_at(r, p, attr_text(el.attrs[k], drop));
        assert(matches_at(r, p, seq![' '] + el.attrs[k].0 + seq!['='] + el.attrs[k].1->0));
    }
    assert forall|k: int|
        0 <= k < el.attrs.len() && el.attrs[k].0 != drop && el.attrs[k].1 is None implies exists|p: int|
            #[trigger] matches_at(r, p, seq![' '] + el.attrs[k].0) by {
        assert(attr_text(el.attrs[k], drop) =~= seq![' '] + el.attrs[k].0);
        let p = choose|p: int| #[trigger] matches_at(r, p, attr_text(el.attrs[k], drop));
        assert(matches_at(r, p, seq![' '] + el.attrs[k].0));
    }
}

fn rebuild_open_tag_exec(el: &Element, drop: &[char]) -> (res: Vec<char>)
    ensures
        res@ == rebuild_open_tag(el@, drop@),
{
    let mut out: Vec<char> = Vec::new();
    out.push('<');
    push_all(&mut out, el.name.as_slice());
    let ghost base = out@;
    let mut i: usize = 0;
    proof {
        assert(attrs_view(el.attrs@).take(0) =~= Seq::empty());
    }
    while i < el.attrs.len()
        invariant
            i <= el.attrs@.len(),
            base == seq!['<'] + el.name@,
            out@ == base + attrs_text(attrs_view(el.attrs@).take(i as int), drop@),
        decreases el.attrs@.len() - i,
    {
        let a = &el.attrs[i];
        if !subrange_eq(a.name.as_slice(), 0, a.name.len(), drop) {
            out.push(' ');
            push_all(&mut out, a.name.as_slice());
            match &a.value {
                Some(v) => {
                    out.push('=');
                    push_all(&mut out, v.as_slice());
                },
                None => {},
            }
        }
        proof {
            let av = attrs_view(el.attrs@);
            assert(a.name@.subrange(0, a.name@.len() as int) =~= a.name@);
            assert(av.take(i + 1).drop_last() =~= av.take(i as int));
            assert(av.take(i + 1).last() == a@);
        }
        i = i + 1;
    }
    proof {
        assert(attrs_view(el.attrs@).take(el.attrs@.len() as int) =~= attrs_view(el.attrs@));
    }
    if el.self_closing {
        out.push(' ');
        out.push('/');
        out.push('>');
    } else {
        out.push('>');
    }
    out
}


// ---------------------------------------------------------------------------
// `*ngFor` expressions
// ---------------------------------------------------------------------------

/// A parsed `*ngFor` expression.
pub struct ForExpr {
    pub item: Vec<char>,
    pub iterable: Vec<char>,
    pub index_var: Option<Vec<char>>,
    pub track_by: Option<Vec<char>>,
}

pub struct ForExprSpec {
    pub item: Seq<char>,
    pub iterable: Seq<char>,
    pub index_var: Option<Seq<char>>,
    pub track_by: Option<Seq<char>>,
}

impl View for ForExpr {
    type V = ForExprSpec;

    open spec fn view(&self) -> ForExprSpec {
        ForExprSpec {
            item: self.item@,
            iterable: self.iterable@,
            index_var: opt_view(self.index_var),
            track_by: opt_view(self.track_by),
        }
    }
}

/// The micro-syntax options after the first `;` of a `*ngFor` expression:
/// `let x = index` names the index variable, `trackBy: f` the track function;
/// anything else is unsupported (`None`).
pub open spec fn for_options(
    parts: Seq<Seq<char>>,
    i: int,
    idx: Option<Seq<char>>,
    tb: Option<Seq<char>>,
) -> Option<(Option<Seq<char>>, Option<Seq<char>>)>
    decreases parts.len() - i,
{
    if i < 0 || i >= parts.len() {
        Some((idx, tb))
    } else {
        let p = trim(parts[i]);
        if starts_with(p, "let "@) {
            let rest = p.skip("let "@.len() as int);
            let k = index_of_char_from(rest, '=', 0);
            if k < 0 {
                None
            } else {
                let var = trim(rest.take(k));
                let val = trim(rest.skip(k + 1));
                if val == "index"@ {
                    for_options(parts, i + 1, Some(var), tb)
                } else {
                    None
                }
            }
        } else if starts_with(p, "trackBy:"@) {
            for_options(parts, i + 1, idx, Some(trim(p.skip("trackBy:"@.len() as int))))
        } else if p.len() != 0 {
            None
        } else {
            for_options(parts, i + 1, idx, tb)
        }
    }
}

/// Parses `let item of iterable[; let i = index][; trackBy: f]`; aliases and
/// any other micro-syntax give `None`.
pub open spec fn parse_for_expr(expr: Seq<char>) -> Option<ForExprSpec> {
    let parts = split_char(expr, ';');
    let head = trim(parts[0]);
    if !starts_with(head, "let "@) {
        None
    } else {
        let body = trim(head.skip("let "@.len() as int));
        let k = find_from(body, " of "@, 0);
        if k < 0 {
            None
        } else {
            let item = trim(body.take(k));
            let iterable = trim(body.skip(k + " of "@.len()));
            if contains(item, seq![',']) || contains(item, seq![' ']) || contains(
                iterable,
                " as "@,
            ) {
                None
            } else {
                match for_options(parts, 1, None, None) {
                    None => None,
                    Some((idx, tb)) => Some(
                        ForExprSpec { item, iterable, index_var: idx, track_by: tb },
                    ),
                }
            }
        }
    }
}

pub proof fn lemma_split_char_nonempty(s: Seq<char>, c: char)
    ensures
        split_char(s, c).len() >= 1,
{
}

fn parse_for_expr_exec(expr: &[char]) -> (res: Option<ForExpr>)
    ensures
        match res {
            Some(f) => parse_for_expr(expr@) == Some(f@),
            None => parse_for_expr(expr@) is None,
        },
{
    let parts = split_char_exec(expr, ';');
    let ghost pv = parts@.map_values(|v: Vec<char>| v@);
    proof {
        lemma_split_char_nonempty(expr@, ';');
    }
    let head = trim_chars(parts[0].as_slice());
    let let_kw = to_chars("let ");
    if !matches_at_exec(head.as_slice(), 0, let_kw.as_slice()) {
        return None;
    }
    let body = trim_chars(slice_to_vec(head.as_slice(), let_kw.len(), head.len()).as_slice());
    proof {
        assert(head@.skip(let_kw@.len() as int) =~= head@.subrange(
            let_kw@.len() as int,
            head@.len() as int,
        ));
    }
    let of_kw = to_chars(" of ");
    let k = match find_chars(body.as_slice(), of_kw.as_slice(), 0) {
        None => {
            return None;
        },
        Some(k) => k,
    };
    let blen = body.len();
    proof {
        lemma_find_from_bounds(body@, of_kw@, 0);
        assert(k + of_kw@.len() <= blen);
    }
    let item = trim_chars(slice_to_vec(body.as_slice(), 0, k).as_slice());
    let iterable = trim_chars(
        slice_to_vec(body.as_slice(), k + of_kw.len(), body.len()).as_slice(),
    );
    proof {
        assert(body@.take(k as int) =~= body@.subrange(0, k as int));
        assert(body@.skip(k + of_kw@.len()) =~= body@.subrange(
            k + of_kw@.len(),
            body@.len() as int,
        ));
    }
    let comma = [','];
    let space = [' '];
    let comma_v = slice_to_vec(&comma, 0, 1);
    let space_v = slice_to_vec(&space, 0, 1);
    proof {
        assert(comma_v@ =~= seq![',']);
        assert(space_v@ =~= seq![' ']);
    }
    if contains_chars(item.as_slice(), comma_v.as_slice()) || contains_chars(
        item.as_slice(),
        space_v.as_slice(),
    ) || contains_str(iterable.as_slice(), " as ") {
        return None;
    }
    let mut index_var: Option<Vec<char>> = None;
    let mut track_by: Option<Vec<char>> = None;
    let track_kw = to_chars("trackBy:");
    let index_kw = to_chars("index");
    let mut i: usize = 1;
    while i < parts.len()
        invariant
            1 <= i <= parts@.len(),
            pv == parts@.map_values(|v: Vec<char>| v@),
            pv == split_char(expr@, ';'),
            parse_for_expr(expr@) == (match for_options(pv, 1, None, None) {
                None => None,
                Some((idx, tb)) => Some(
                    ForExprSpec { item: item@, iterable: iterable@, index_var: idx, track_by: tb },
                ),
            }),
            let_kw@ == "let "@,
            track_kw@ == "trackBy:"@,
            index_kw@ == "index"@,
            for_options(pv, 1, None, None) == for_options(
                pv,
                i as int,
                opt_view(index_var),
                opt_view(track_by),
            ),
        decreases parts@.len() - i,
    {
        let p = trim_chars(parts[i].as_slice());
        assert(pv[i as int] == parts@[i as int]@);
        if matches_at_exec(p.as_slice(), 0, let_kw.as_slice()) {
            let rest = slice_to_vec(p.as_slice(), let_kw.len(), p.len());
            proof {
                assert(p@.skip(let_kw@.len() as int) =~= rest@);
                lemma_index_of_char_bounds(rest@, '=', 0);
            }
            match index_of_char(rest.as_slice(), '=', 0) {
                None => {
                    return None;
                },
                Some(k) => {
                    let var = trim_chars(slice_to_vec(rest.as_slice(), 0, k).as_slice());
                    let val = trim_chars(slice_to_vec(rest.as_slice(), k + 1, rest.len()).as_slice());
                    proof {
                        assert(rest@.take(k as int) =~= rest@.subrange(0, k as int));
                        assert(rest@.skip(k + 1) =~= rest@.subrange(k + 1, rest@.len() as int));
                    }
                    if subrange_eq(val.as_slice(), 0, val.len(), index_kw.as_slice()) {
                        proof {
                            assert(val@.subrange(0, val@.len() as int) =~= val@);
                        }
                        index_var = Some(var);
                    } else {
                        proof {
                            assert(val@.subrange(0, val@.len() as int) =~= val@);
                        }
                        return None;
                    }
                },
            }
        } else if matches_at_exec(p.as_slice(), 0, track_kw.as_slice()) {
            let rest = slice_to_vec(p.as_slice(), track_kw.len(), p.len());
            proof {
                assert(p@.skip(track_kw@.len() as int) =~= rest@);
            }
            track_by = Some(trim_chars(rest.as_slice()));
        } else if p.len() != 0 {
            return None;
        }
        i = i + 1;
    }
    Some(ForExpr { item, iterable, index_var, track_by })
}

// ---------------------------------------------------------------------------
// Decisions
// ---------------------------------------------------------------------------

/// Why an element with a structural directive is left unmigrated.
#[derive(Clone, Copy)]
pub enum SkipReason {
    IfElseThen,
    IfMalformed,
    IfEmpty,
    IfMicroSyntax,
    ForTemplate,
    ForIndex,
    ForUnsupported,
}

pub open spec fn reason_text(r: SkipReason) -> Seq<char> {
    match r {
        SkipReason::IfElseThen => "ngIf with else/then branches cannot be migrated safely"@,
        SkipReason::IfMalformed => "malformed *ngIf expression"@,
        SkipReason::IfEmpty => "empty *ngIf expression"@,
        SkipReason::IfMicroSyntax => "ngIf uses micro-syntax (else/then/alias); migrate manually"@,
        SkipReason::ForTemplate => "ng-template [ngForOf] requires manual migration"@,
        SkipReason::ForIndex => "ngFor uses an index variable; index becomes $index and must be updated manually"@,
        SkipReason::ForUnsupported => "unsupported *ngFor micro-syntax"@,
    }
}

fn reason_str(r: SkipReason) -> (res: &'static str)
    ensures
        res@ == reason_text(r),
{
    match r {
        SkipReason::IfElseThen => "ngIf with else/then branches cannot be migrated safely",
        SkipReason::IfMalformed => "malformed *ngIf expression",
        SkipReason::IfEmpty => "empty *ngIf expression",
        SkipReason::IfMicroSyntax => "ngIf uses micro-syntax (else/then/alias); migrate manually",
        SkipReason::ForTemplate => "ng-template [ngForOf] requires manual migration",
        SkipReason::ForIndex => "ngFor uses an index variable; index becomes $index and must be updated manually",
        SkipReason::ForUnsupported => "unsupported *ngFor micro-syntax",
    }
}

/// What to do with an element.
pub enum Decision {
    MigrateIf(Vec<char>),
    MigrateFor(ForExpr),
    Keep,
    Skip(SkipReason),
}

pub enum DecisionSpec {
    MigrateIf(Seq<char>),
    MigrateFor(ForExprSpec),
    Keep,
    Skip(SkipReason),
}

/// The first attribute at or after `i` named `name`.
pub open spec fn find_attr(attrs: Seq<(Seq<char>, Option<Seq<char>>)>, name: Seq<char>, i: int) -> Option<
    (Seq<char>, Option<Seq<char>>),
>
    decreases attrs.len() - i,
{
    if i < 0 || i >= attrs.len() {
        None
    } else if attrs[i].0 == name {
        Some(attrs[i])
    } else {
        find_attr(attrs, name, i + 1)
    }
}

fn find_attr_exec(attrs: &Vec<Attr>, name: &str) -> (res: Option<usize>)
    ensures
        match res {
            Some(k) => k < attrs@.len() && find_attr(attrs_view(attrs@), name@, 0) == Some(
                attrs@[k as int]@,
            ),
            None => find_attr(attrs_view(attrs@), name@, 0) is None,
        },
{
    let mut i: usize = 0;
    while i < attrs.len()
        invariant
            i <= attrs@.len(),
            find_attr(attrs_view(attrs@), name@, 0) == find_attr(
                attrs_view(attrs@),
                name@,
                i as int,
            ),
        decreases attrs@.len() - i,
    {
        if chars_eq_str(attrs[i].name.as_slice(), name) {
            return Some(i);
        }
        i = i + 1;
    }
    None
}

/// An attribute value without its surrounding pair of quotes: one matching
/// `"` or `'` at each end; the value itself when it has none.
pub open spec fn unquote(v: Seq<char>) -> Seq<char> {
    if v.len() >= 2 && v[0] == v[v.len() - 1] && (v[0] == '"' || v[0] == '\'') {
        v.subrange(1, v.len() - 1)
    } else {
        v
    }
}

/// The decision for an element: migrate a plain `*ngIf` or `*ngFor`, skip
/// one that uses unsupported syntax, keep anything else.
pub open spec fn decide(el: ElementSpec) -> DecisionSpec {
    let ngi = find_attr(el.attrs, "*ngIf"@, 0);
    let ngf = find_attr(el.attrs, "*ngFor"@, 0);
    match (ngi, ngf) {
        (Some(a), None) => if find_attr(el.attrs, "[ngIfElse]"@, 0) is Some || find_attr(
            el.attrs,
            "[ngIfThen]"@,
            0,
        ) is Some {
            DecisionSpec::Skip(SkipReason::IfElseThen)
        } else {
            match a.1 {
                None => DecisionSpec::Skip(SkipReason::IfMalformed),
                Some(v) => {
                    let e = unquote(v);
                    if e.len() == 0 {
                        DecisionSpec::Skip(SkipReason::IfEmpty)
                    } else if contains(e, seq![';']) || contains(e, " as "@) {
                        DecisionSpec::Skip(SkipReason::IfMicroSyntax)
                    } else {
                        DecisionSpec::MigrateIf(e)
                    }
                },
            }
        },
        (None, Some(a)) => if el.name == "ng-template"@ {
            DecisionSpec::Skip(SkipReason::ForTemplate)
        } else {
            let raw = match a.1 {
                Some(v) => v,
                None => Seq::empty(),
            };
            match parse_for_expr(unquote(raw)) {
                Some(f) => if f.index_var is Some {
                    DecisionSpec::Skip(SkipReason::ForIndex)
                } else {
                    DecisionSpec::MigrateFor(f)
                },
                None => DecisionSpec::Skip(SkipReason::ForUnsupported),
            }
        },
        _ => DecisionSpec::Keep,
    }
}

impl View for Decision {
    type V = DecisionSpec;

    open spec fn view(&self) -> DecisionSpec {
        match self {
            Decision::MigrateIf(e) => DecisionSpec::MigrateIf(e@),
            Decision::MigrateFor(f) => DecisionSpec::MigrateFor(f@),
            Decision::Keep => DecisionSpec::Keep,
            Decision::Skip(r) => DecisionSpec::Skip(*r),
        }
    }
}

fn unquote_exec(v: &[char]) -> (res: Vec<char>)
    ensures
        res@ == unquote(v@),
{
    let n = v.len();
    if n >= 2 && v[0] == v[n - 1] && (v[0] == '"' || v[0] == '\'') {
        slice_to_vec(v, 1, n - 1)
    } else {
        slice_to_vec(v, 0, n)
    }
}

fn decide_exec(el: &Element) -> (res: Decision)
    ensures
        res@ == decide(el@),
{
    let ngi = find_attr_exec(&el.attrs, "*ngIf");
    let ngf = find_attr_exec(&el.attrs, "*ngFor");
    match (ngi, ngf) {
        (Some(ai), None) => {
            if find_attr_exec(&el.attrs, "[ngIfElse]").is_some() || find_attr_exec(
                &el.attrs,
                "[ngIfThen]",
            ).is_some() {
                return Decision::Skip(SkipReason::IfElseThen);
            }
            match &el.attrs[ai].value {
                None => Decision::Skip(SkipReason::IfMalformed),
                Some(v) => {
                    let e = unquote_exec(v.as_slice());
                    let semi = [';'];
                    let semi_v = slice_to_vec(&semi, 0, 1);
                    proof {
                        assert(semi_v@ =~= seq![';']);
                    }
                    if e.len() == 0 {
                        Decision::Skip(SkipReason::IfEmpty)
                    } else if contains_chars(e.as_slice(), semi_v.as_slice()) || contains_str(
                        e.as_slice(),
                        " as ",
                    ) {
                        Decision::Skip(SkipReason::IfMicroSyntax)
                    } else {
                        Decision::MigrateIf(e)
                    }
                },
            }
        },
        (None, Some(ai)) => {
            if chars_eq_str(el.name.as_slice(), "ng-template") {
                return Decision::Skip(SkipReason::ForTemplate);
            }
            let raw = match &el.attrs[ai].value {
                Some(v) => unquote_exec(v.as_slice()),
                None => {
                    let e: Vec<char> = Vec::new();
                    proof {
                        assert(e@ =~= Seq::<char>::empty());
                    }
                    unquote_exec(e.as_slice())
                },
            };
            match parse_for_expr_exec(raw.as_slice()) {
                Some(f) => {
                    if f.index_var.is_some() {
                        Decision::Skip(SkipReason::ForIndex)
                    } else {
                        Decision::MigrateFor(f)
                    }
                },
                None => Decision::Skip(SkipReason::ForUnsupported),
            }
        },
        _ => Decision::Keep,
    }
}


// ---------------------------------------------------------------------------
// Rewriting a range of a template
// ---------------------------------------------------------------------------

/// Number of bytes of `c` in UTF-8.
pub open spec fn utf8_width(c: char) -> nat {
    if (c as u32) < 0x80 {
        1
    } else if (c as u32) < 0x800 {
        2
    } else if (c as u32) < 0x10000 {
        3
    } else {
        4
    }
}

/// Byte offset, in UTF-8, of character position `k` of `s`.
pub open spec fn byte_offset(s: Seq<char>, k: int) -> nat
    decreases k,
{
    if k <= 0 || k > s.len() {
        0
    } else {
        byte_offset(s, k - 1) + utf8_width(s[k - 1])
    }
}

fn byte_offset_exec(s: &[char], k: usize) -> (res: u128)
    requires
        k <= s@.len(),
    ensures
        res == byte_offset(s@, k as int),
{
    let mut total: u128 = 0;
    let mut i: usize = 0;
    while i < k
        invariant
            i <= k <= s@.len(),
            total == byte_offset(s@, i as int),
            total <= 4 * i,
        decreases k - i,
    {
        let c = s[i];
        let w: u128 = if (c as u32) < 0x80 {
            1
        } else if (c as u32) < 0x800 {
            2
        } else if (c as u32) < 0x10000 {
            3
        } else {
            4
        };
        total = total + w;
        i = i + 1;
    }
    total
}

/// The first `<` at or after `i` and before `end`, or -1.
pub open spec fn next_lt(s: Seq<char>, i: int, end: int) -> int
    decreases end - i,
{
    if i < 0 || i >= end || i >= s.len() {
        -1
    } else if s[i] == '<' {
        i
    } else {
        next_lt(s, i + 1, end)
    }
}

pub proof fn lemma_next_lt(s: Seq<char>, i: int, end: int)
    requires
        0 <= i,
        end <= s.len(),
    ensures
        next_lt(s, i, end) == -1 || (i <= next_lt(s, i, end) < end && s[next_lt(s, i, end)]
            == '<'),
    decreases end - i,
{
    if i < 0 || i >= end || i >= s.len() {
    } else if s[i] == '<' {
    } else {
        lemma_next_lt(s, i + 1, end);
    }
}

fn next_lt_exec(s: &[char], i: usize, end: usize) -> (res: Option<usize>)
    requires
        end <= s@.len(),
    ensures
        match res {
            Some(k) => next_lt(s@, i as int, end as int) == k as int,
            None => next_lt(s@, i as int, end as int) == -1,
        },
{
    let mut j = i;
    while j < end
        invariant
            i <= j,
            end <= s@.len(),
            next_lt(s@, i as int, end as int) == next_lt(s@, j as int, end as int),
        decreases end - j,
    {
        if s[j] == '<' {
            return Some(j);
        }
        j = j + 1;
    }
    None
}

/// The result of rewriting part of a template: the new text and the
/// migrated / skipped counts and warnings it adds.
pub struct ProcResult {
    pub out: Seq<char>,
    pub migrated: nat,
    pub skipped: nat,
    pub warnings: Seq<Seq<char>>,
}

pub open spec fn no_result() -> ProcResult {
    ProcResult { out: Seq::empty(), migrated: 0, skipped: 0, warnings: Seq::empty() }
}

/// The element with its directive removed, its content rewritten, and the
/// whole re-indented inside a control-flow block.
pub open spec fn element_block(el: ElementSpec, drop: Seq<char>, inner: Seq<char>) -> Seq<char> {
    let open = rebuild_open_tag(el, drop);
    if el.self_closing {
        open
    } else {
        open + inner + seq!['<', '/'] + el.name + seq!['>']
    }
}

/// `@if (expr) { ... }` replacing the element at `lt`.
pub open spec fn if_block(s: Seq<char>, lt: int, el: ElementSpec, expr: Seq<char>, inner: Seq<char>) -> Seq<char> {
    let indent = leading_ws_of_line(s, lt);
    indent + "@if ("@ + expr + ") {\n"@ + reindent(
        element_block(el, "*ngIf"@, inner),
        indent + seq![' ', ' '],
    ) + seq!['\n'] + indent + seq!['}', '\n']
}

/// The `track` expression of a migrated `*ngFor`.
pub open spec fn track_expr(f: ForExprSpec) -> Seq<char> {
    match f.track_by {
        Some(tb) => tb + "($index, "@ + f.item + seq![')'],
        None => f.item,
    }
}

/// `@for (item of iterable; track ...) { ... }` replacing the element at `lt`.
pub open spec fn for_block(s: Seq<char>, lt: int, el: ElementSpec, f: ForExprSpec, inner: Seq<char>) -> Seq<char> {
    let indent = leading_ws_of_line(s, lt);
    indent + "@for ("@ + f.item + " of "@ + f.iterable + "; track "@ + track_expr(f) + ") {\n"@
        + reindent(element_block(el, "*ngFor"@, inner), indent + seq![' ', ' ']) + seq!['\n']
        + indent + seq!['}', '\n']
}

/// The element written back as it was, with its content rewritten.
pub open spec fn raw_element(s: Seq<char>, el: ElementSpec, inner: Seq<char>) -> Seq<char> {
    s.subrange(el.open_start, el.open_end) + inner + if el.has_close {
        s.subrange(el.content_end, el.close_end)
    } else {
        Seq::empty()
    }
}

/// The warning for a skipped element at `lt`.
pub open spec fn warning_text(s: Seq<char>, lt: int, el: ElementSpec, r: SkipReason) -> Seq<char> {
    "skipped `"@ + el.name + "` at byte "@ + decimal(byte_offset(s, lt)) + ": "@ + reason_text(r)
}

/// The rewrite of the element `el` at `lt`, given the rewrite `inner` of its content.
pub open spec fn element_step(s: Seq<char>, lt: int, el: ElementSpec, inner: ProcResult) -> ProcResult {
    match decide(el) {
        DecisionSpec::MigrateIf(e) => ProcResult {
            out: if_block(s, lt, el, e, inner.out),
            migrated: 1 + inner.migrated,
            skipped: inner.skipped,
            warnings: inner.warnings,
        },
        DecisionSpec::MigrateFor(f) => ProcResult {
            out: for_block(s, lt, el, f, inner.out),
            migrated: 1 + inner.migrated,
            skipped: inner.skipped,
            warnings: inner.warnings,
        },
        DecisionSpec::Skip(r) => ProcResult {
            out: raw_element(s, el, inner.out),
            migrated: inner.migrated,
            skipped: 1 + inner.skipped,
            warnings: seq![warning_text(s, lt, el, r)] + inner.warnings,
        },
        DecisionSpec::Keep => ProcResult {
            out: raw_element(s, el, inner.out),
            migrated: inner.migrated,
            skipped: inner.skipped,
            warnings: inner.warnings,
        },
    }
}

/// Rewrites `s[cursor..end]`: every element carrying a plain `*ngIf` or
/// `*ngFor` becomes an `@if` / `@for` block; other elements are kept, with
/// their content rewritten the same way; text and `<` that do not start an
/// element are copied.
pub open spec fn process(s: Seq<char>, cursor: int, end: int) -> ProcResult
    decreases end - cursor,
{
    if cursor < 0 || cursor >= end || end > s.len() {
        no_result()
    } else {
        let lt = next_lt(s, cursor, end);
        proof {
            lemma_next_lt(s, cursor, end);
        }
        if lt < 0 {
            ProcResult { out: s.subrange(cursor, end), ..no_result() }
        } else {
            match parse_element(s, lt, end) {
                None => {
                    let rest = process(s, lt + 1, end);
                    ProcResult { out: s.subrange(cursor, lt + 1) + rest.out, ..rest }
                },
                Some(el) => {
                    proof {
                        lemma_parse_element_wf(s, lt, end);
                    }
                    let inner = if el.content_start < el.content_end {
                        process(s, el.content_start, el.content_end)
                    } else {
                        no_result()
                    };
                    let rest = process(s, max(el.close_end, el.open_end), end);
                    let step = element_step(s, lt, el, inner);
                    ProcResult {
                        out: s.subrange(cursor, lt) + step.out + rest.out,
                        migrated: step.migrated + rest.migrated,
                        skipped: step.skipped + rest.skipped,
                        warnings: step.warnings + rest.warnings,
                    }
                },
            }
        }
    }
}

/// Each migration or skip consumes at least one character.
pub proof fn lemma_process_counts(s: Seq<char>, cursor: int, end: int)
    ensures
        cursor <= end ==> process(s, cursor, end).migrated + process(s, cursor, end).skipped
            <= end - cursor,
    decreases end - cursor,
{
    if cursor < 0 || cursor >= end || end > s.len() {
    } else {
        let lt = next_lt(s, cursor, end);
        lemma_next_lt(s, cursor, end);
        if lt < 0 {
        } else {
            match parse_element(s, lt, end) {
                None => {
                    lemma_process_counts(s, lt + 1, end);
                },
                Some(el) => {
                    lemma_parse_element_wf(s, lt, end);
                    if el.content_start < el.content_end {
                        lemma_process_counts(s, el.content_start, el.content_end);
                    }
                    lemma_process_counts(s, max(el.close_end, el.open_end), end);
                },
            }
        }
    }
}

/// Every skipped element gets exactly one warning, and nothing else does.
pub proof fn one_warning_per_skip(s: Seq<char>, cursor: int, end: int)
    ensures
        process(s, cursor, end).warnings.len() == process(s, cursor, end).skipped,
    decreases end - cursor,
{
    if cursor < 0 || cursor >= end || end > s.len() {
    } else {
        let lt = next_lt(s, cursor, end);
        lemma_next_lt(s, cursor, end);
        if lt < 0 {
        } else {
            match parse_element(s, lt, end) {
                None => {
                    one_warning_per_skip(s, lt + 1, end);
                },
                Some(el) => {
                    lemma_parse_element_wf(s, lt, end);
                    if el.content_start < el.content_end {
                        one_warning_per_skip(s, el.content_start, el.content_end);
                    }
                    one_warning_per_skip(s, max(el.close_end, el.open_end), end);
                },
            }
        }
    }
}

/// Every element the rewrite of `s[cursor..end]` visits, at any depth, that
/// has a closing tag has its content start no later than its content end.
/// The content end is taken to be `</name>` before the end of the closing
/// tag, so this fails only for a closing tag cut off without its `>` by the
/// end of the range or of the enclosing element's content (`<a></a`).
pub open spec fn closes_complete(s: Seq<char>, cursor: int, end: int) -> bool
    decreases end - cursor,
{
    if cursor < 0 || cursor >= end || end > s.len() {
        true
    } else {
        let lt = next_lt(s, cursor, end);
        proof {
            lemma_next_lt(s, cursor, end);
        }
        if lt < 0 {
            true
        } else {
            match parse_element(s, lt, end) {
                None => closes_complete(s, lt + 1, end),
                Some(el) => {
                    proof {
                        lemma_parse_element_wf(s, lt, end);
                    }
                    &&& (el.has_close ==> el.content_start <= el.content_end)
                    &&& (el.content_start < el.content_end ==> closes_complete(
                        s,
                        el.content_start,
                        el.content_end,
                    ))
                    &&& closes_complete(s, max(el.close_end, el.open_end), end)
                },
            }
        }
    }
}

/// The rewrite is conservative: a range in which nothing is migrated comes
/// back exactly as it was (skipped and other elements are copied verbatim).
pub proof fn unmigrated_range_unchanged(s: Seq<char>, cursor: int, end: int)
    requires
        closes_complete(s, cursor, end),
        0 <= cursor <= end <= s.len(),
        process(s, cursor, end).migrated == 0,
    ensures
        process(s, cursor, end).out == s.subrange(cursor, end),
    decreases end - cursor,
{
    if cursor >= end {
        assert(s.subrange(cursor, end) =~= Seq::<char>::empty());
    } else {
        let lt = next_lt(s, cursor, end);
        lemma_next_lt(s, cursor, end);
        if lt < 0 {
        } else {
            match parse_element(s, lt, end) {
                None => {
                    unmigrated_range_unchanged(s, lt + 1, end);
                    assert(s.subrange(cursor, lt + 1) + s.subrange(lt + 1, end) =~= s.subrange(
                        cursor,
                        end,
                    ));
                },
                Some(el) => {
                    lemma_parse_element_wf(s, lt, end);
                    let inner = if el.content_start < el.content_end {
                        process(s, el.content_start, el.content_end)
                    } else {
                        no_result()
                    };
                    let next = max(el.close_end, el.open_end);
                    let step = element_step(s, lt, el, inner);
                    assert(step.migrated == 0);
                    assert(inner.migrated == 0);
                    if el.content_start < el.content_end {
                        unmigrated_range_unchanged(s, el.content_start, el.content_end);
                    }
                    unmigrated_range_unchanged(s, next, end);
                    assert(step.out == raw_element(s, el, inner.out));
                    if el.has_close {
                        assert(inner.out =~= s.subrange(el.content_start, el.content_end));
                        assert(raw_element(s, el, inner.out) =~= s.subrange(lt, el.close_end));
                    } else {
                        assert(raw_element(s, el, inner.out) =~= s.subrange(lt, el.open_end));
                    }
                    assert(s.subrange(cursor, lt) + step.out + s.subrange(next, end) =~= s.subrange(
                        cursor,
                        end,
                    ));
                },
            }
        }
    }
}

/// Counters and warnings of a rewrite.
pub struct Stats {
    pub migrated: usize,
    pub skipped: usize,
    pub warnings: Vec<String>,
}

pub open spec fn strings_view(v: Seq<String>) -> Seq<Seq<char>> {
    v.map_values(|w: String| w@)
}

fn push_warning(stats: &mut Stats, text: Vec<char>)
    ensures
        final(stats).migrated == old(stats).migrated,
        final(stats).skipped == old(stats).skipped,
        strings_view(final(stats).warnings@) == strings_view(old(stats).warnings@).push(text@),
{
    let ghost before = strings_view(stats.warnings@);
    let ghost w = text@;
    let t = from_chars(text.as_slice());
    stats.warnings.push(t);
    proof {
        assert(strings_view(stats.warnings@) =~= before.push(w));
    }
}

fn warning_exec(s: &[char], lt: usize, el: &Element, r: SkipReason) -> (res: Vec<char>)
    requires
        lt <= s@.len(),
    ensures
        res@ == warning_text(s@, lt as int, el@, r),
{
    let mut w: Vec<char> = Vec::new();
    push_str(&mut w, "skipped `");
    push_all(&mut w, el.name.as_slice());
    push_str(&mut w, "` at byte ");
    let off = byte_offset_exec(s, lt);
    push_decimal(&mut w, off);
    push_str(&mut w, ": ");
    push_str(&mut w, reason_str(r));
    w
}

fn element_block_exec(el: &Element, drop: &str, inner: &[char]) -> (res: Vec<char>)
    ensures
        res@ == element_block(el@, drop@, inner@),
{
    let dv = to_chars(drop);
    let mut block = rebuild_open_tag_exec(el, dv.as_slice());
    if !el.self_closing {
        push_all(&mut block, inner);
        block.push('<');
        block.push('/');
        push_all(&mut block, el.name.as_slice());
        block.push('>');
    }
    block
}

fn indent_more(indent: &[char]) -> (res: Vec<char>)
    ensures
        res@ == indent@ + seq![' ', ' '],
{
    let mut v: Vec<char> = Vec::new();
    push_all(&mut v, indent);
    v.push(' ');
    v.push(' ');
    v
}

fn push_block_tail(out: &mut Vec<char>, block: &[char], indent: &[char])
    ensures
        final(out)@ == old(out)@ + reindent(block@, indent@ + seq![' ', ' ']) + seq!['\n'] + indent@
            + seq!['}', '\n'],
{
    let ind2 = indent_more(indent);
    let body = reindent_exec(block, ind2.as_slice());
    push_all(out, body.as_slice());
    out.push('\n');
    push_all(out, indent);
    out.push('}');
    out.push('\n');
}

fn track_exec(f: &ForExpr) -> (res: Vec<char>)
    ensures
        res@ == track_expr(f@),
{
    let mut t: Vec<char> = Vec::new();
    match &f.track_by {
        Some(tb) => {
            push_all(&mut t, tb.as_slice());
            push_str(&mut t, "($index, ");
            push_all(&mut t, f.item.as_slice());
            t.push(')');
        },
        None => {
            push_all(&mut t, f.item.as_slice());
        },
    }
    t
}

#[verifier::rlimit(40)]
#[verifier::spinoff_prover]
fn emit_element(
    s: &[char],
    lt: usize,
    el: &Element,
    d: Decision,
    inner: Vec<char>,
    inner_stats: Stats,
    out: &mut Vec<char>,
    stats: &mut Stats,
    Ghost(inner_spec): Ghost<ProcResult>,
)
    requires
        lt < s@.len(),
        element_wf(el@, lt as int, s@.len() as int, s@.len() as int),
        el@.open_start == lt,
        d@ == decide(el@),
        inner@ == inner_spec.out,
        inner_stats.migrated == inner_spec.migrated,
        inner_stats.skipped == inner_spec.skipped,
        strings_view(inner_stats.warnings@) == inner_spec.warnings,
        old(stats).migrated + 1 + inner_spec.migrated <= usize::MAX,
        old(stats).skipped + 1 + inner_spec.skipped <= usize::MAX,
    ensures
        final(out)@ == old(out)@ + element_step(s@, lt as int, el@, inner_spec).out,
        final(stats).migrated == old(stats).migrated + element_step(
            s@,
            lt as int,
            el@,
            inner_spec,
        ).migrated,
        final(stats).skipped == old(stats).skipped + element_step(
            s@,
            lt as int,
            el@,
            inner_spec,
        ).skipped,
        strings_view(final(stats).warnings@) == strings_view(old(stats).warnings@) + element_step(
            s@,
            lt as int,
            el@,
            inner_spec,
        ).warnings,
{
    let ghost out0 = out@;
    let ghost w0 = strings_view(stats.warnings@);
    match d {
        Decision::MigrateIf(expr) => {
            stats.migrated = stats.migrated + 1;
            let indent = leading_ws_exec(s, lt);
            let block = element_block_exec(el, "*ngIf", inner.as_slice());
            push_all(out, indent.as_slice());
            push_str(out, "@if (");
            push_all(out, expr.as_slice());
            push_str(out, ") {\n");
            push_block_tail(out, block.as_slice(), indent.as_slice());
            proof {
                assert(out@ =~= out0 + if_block(s@, lt as int, el@, expr@, inner_spec.out));
            }
        },
        Decision::MigrateFor(f) => {
            stats.migrated = stats.migrated + 1;
            let indent = leading_ws_exec(s, lt);
            let block = element_block_exec(el, "*ngFor", inner.as_slice());
            let track = track_exec(&f);
            push_all(out, indent.as_slice());
            push_str(out, "@for (");
            push_all(out, f.item.as_slice());
            push_str(out, " of ");
            push_all(out, f.iterable.as_slice());
            push_str(out, "; track ");
            push_all(out, track.as_slice());
            push_str(out, ") {\n");
            push_block_tail(out, block.as_slice(), indent.as_slice());
            proof {
                assert(out@ =~= out0 + for_block(s@, lt as int, el@, f@, inner_spec.out));
            }
        },
        Decision::Skip(r) => {
            stats.skipped = stats.skipped + 1;
            let w = warning_exec(s, lt, el, r);
            push_warning(stats, w);
            push_range(out, s, lt, el.open_end);
            push_all(out, inner.as_slice());
            if el.has_close {
                push_range(out, s, el.content_end, el.close_end);
            }
            proof {
                assert(out@ =~= out0 + raw_element(s@, el@, inner_spec.out));
            }
        },
        Decision::Keep => {
            push_range(out, s, lt, el.open_end);
            push_all(out, inner.as_slice());
            if el.has_close {
                push_range(out, s, el.content_end, el.close_end);
            }
            proof {
                assert(out@ =~= out0 + raw_element(s@, el@, inner_spec.out));
            }
        },
    }
    let ghost wmid = strings_view(stats.warnings@);
    let ghost ws_inner = strings_view(inner_stats.warnings@);
    let mut iw = inner_stats.warnings;
    let mut k: usize = 0;
    while k < iw.len()
        invariant
            k <= iw@.len(),
            strings_view(iw@) == ws_inner,
            strings_view(stats.warnings@) == wmid + ws_inner.take(k as int),
            stats.migrated == old(stats).migrated + (if d@ is MigrateIf || d@ is MigrateFor { 1nat } else { 0nat }),
            stats.skipped == old(stats).skipped + (if d@ is Skip { 1nat } else { 0nat }),
        decreases iw@.len() - k,
    {
        let ghost before = strings_view(stats.warnings@);
        stats.warnings.push(iw[k].clone());
        proof {
            assert(strings_view(stats.warnings@) =~= before.push(ws_inner[k as int]));
            assert(ws_inner.take(k + 1) =~= ws_inner.take(k as int).push(ws_inner[k as int]));
        }
        k = k + 1;
    }
    proof {
        assert(ws_inner.take(iw@.len() as int) =~= ws_inner);
    }
    stats.migrated = stats.migrated + inner_stats.migrated;
    stats.skipped = stats.skipped + inner_stats.skipped;
    proof {
        let step = element_step(s@, lt as int, el@, inner_spec);
        assert(strings_view(stats.warnings@) =~= w0 + step.warnings);
    }
}

/// Exec counterpart of [`process`].
#[verifier::rlimit(40)]
fn process_exec(s: &[char], start: usize, end: usize, stats: &mut Stats) -> (res: Vec<char>)
    requires
        start <= end <= s@.len(),
        old(stats).migrated + (end - start) <= usize::MAX,
        old(stats).skipped + (end - start) <= usize::MAX,
    ensures
        res@ == process(s@, start as int, end as int).out,
        final(stats).migrated == old(stats).migrated + process(s@, start as int, end as int).migrated,
        final(stats).skipped == old(stats).skipped + process(s@, start as int, end as int).skipped,
        strings_view(final(stats).warnings@) == strings_view(old(stats).warnings@) + process(
            s@,
            start as int,
            end as int,
        ).warnings,
    decreases end - start,
{
    let mut out: Vec<char> = Vec::new();
    let mut cursor = start;
    let ghost m0 = stats.migrated as int;
    let ghost k0 = stats.skipped as int;
    let ghost w0 = strings_view(stats.warnings@);
    let ghost total = process(s@, start as int, end as int);
    proof {
        assert(out@ + total.out =~= total.out);
        assert(w0 + total.warnings =~= strings_view(stats.warnings@) + total.warnings);
    }
    while cursor < end
        invariant
            start <= cursor <= end <= s@.len(),
            m0 + (end - start) <= usize::MAX,
            k0 + (end - start) <= usize::MAX,
            stats.migrated <= m0 + (cursor - start),
            stats.skipped <= k0 + (cursor - start),
            total == process(s@, start as int, end as int),
            out@ + process(s@, cursor as int, end as int).out == total.out,
            stats.migrated + process(s@, cursor as int, end as int).migrated == m0 + total.migrated,
            stats.skipped + process(s@, cursor as int, end as int).skipped == k0 + total.skipped,
            strings_view(stats.warnings@) + process(s@, cursor as int, end as int).warnings == w0
                + total.warnings,
        decreases end - cursor,
    {
        let ghost cur = process(s@, cursor as int, end as int);
        let ghost out_before = out@;
        let ghost w_before = strings_view(stats.warnings@);
        proof {
            lemma_next_lt(s@, cursor as int, end as int);
        }
        match next_lt_exec(s, cursor, end) {
            None => {
                push_range(&mut out, s, cursor, end);
                cursor = end;
                proof {
                    assert(process(s@, cursor as int, end as int) == no_result());
                    assert(strings_view(stats.warnings@) + Seq::<Seq<char>>::empty() =~= strings_view(stats.warnings@));
                }
            },
            Some(lt) => {
                push_range(&mut out, s, cursor, lt);
                let ghost pre = s@.subrange(cursor as int, lt as int);
                proof {
                    lemma_parse_element_wf(s@, lt as int, end as int);
                }
                match parse_element_exec(s, lt, end) {
                    None => {
                        out.push(s[lt]);
                        proof {
                            assert(s@.subrange(cursor as int, lt + 1) =~= pre.push(s@[lt as int]));
                            let rest = process(s@, lt + 1, end as int);
                            assert(out_before + (s@.subrange(cursor as int, lt + 1) + rest.out) =~= out@ + rest.out);
                        }
                        cursor = lt + 1;
                    },
                    Some(el) => {
                        let ghost elv = el@;
                        let next = if el.close_end < el.open_end {
                            el.open_end
                        } else {
                            el.close_end
                        };
                        let ghost rest = process(s@, next as int, end as int);
                        let ghost inner_spec = if elv.content_start < elv.content_end {
                            process(s@, elv.content_start, elv.content_end)
                        } else {
                            no_result()
                        };
                        proof {
                            if elv.content_start < elv.content_end {
                                lemma_process_counts(s@, elv.content_start, elv.content_end);
                            }
                        }
                        let d = decide_exec(&el);
                        let mut inner_stats = Stats { migrated: 0, skipped: 0, warnings: Vec::new() };
                        let inner = if el.content_start < el.content_end {
                            process_exec(s, el.content_start, el.content_end, &mut inner_stats)
                        } else {
                            Vec::new()
                        };
                        proof {
                            assert(strings_view(inner_stats.warnings@) =~= inner_spec.warnings);
                            if !(elv.content_start < elv.content_end) {
                                assert(inner@ =~= inner_spec.out);
                            }
                        }
                        emit_element(s, lt, &el, d, inner, inner_stats, &mut out, stats, Ghost(inner_spec));
                        proof {
                            let step = element_step(s@, lt as int, elv, inner_spec);
                            assert(out@ =~= out_before + pre + step.out);
                            assert(out_before + (pre + step.out + rest.out) =~= out@ + rest.out);
                            assert(strings_view(stats.warnings@) + rest.warnings =~= w_before + (step.warnings + rest.warnings));
                        }
                        cursor = next;
                    },
                }
            },
        }
    }
    proof {
        assert(process(s@, cursor as int, end as int) == no_result());
        assert(out@ + Seq::<char>::empty() =~= out@);
        assert(strings_view(stats.warnings@) + Seq::<Seq<char>>::empty() =~= strings_view(stats.warnings@));
    }
    out
}


// ---------------------------------------------------------------------------
// Public entry points
// ---------------------------------------------------------------------------

/// Rewrites `src[range]` (character positions), adding to `stats` the number
/// of migrated and skipped elements and one warning per skipped element.
pub fn process_range(src: &str, range: std::ops::Range<usize>, stats: &mut Stats) -> (res: String)
    requires
        range.start <= range.end <= src@.len(),
        old(stats).migrated + (range.end - range.start) <= usize::MAX,
        old(stats).skipped + (range.end - range.start) <= usize::MAX,
    ensures
        res@ == process(src@, range.start as int, range.end as int).out,
        final(stats).migrated == old(stats).migrated + process(
            src@,
            range.start as int,
            range.end as int,
        ).migrated,
        final(stats).skipped == old(stats).skipped + process(
            src@,
            range.start as int,
            range.end as int,
        ).skipped,
        strings_view(final(stats).warnings@) == strings_view(old(stats).warnings@) + process(
            src@,
            range.start as int,
            range.end as int,
        ).warnings,
{
    let s = to_chars(src);
    let out = process_exec(s.as_slice(), range.start, range.end, stats);
    from_chars(out.as_slice())
}

/// Whether a template uses a structural directive at all (the text contains
/// `*ngIf` or `*ngFor`).
pub fn has_structural_directive(text: &str) -> (res: bool)
    ensures
        res == (contains(text@, "*ngIf"@) || contains(text@, "*ngFor"@)),
{
    let s = to_chars(text);
    contains_str(s.as_slice(), "*ngIf") || contains_str(s.as_slice(), "*ngFor")
}

/// The rewrite of one template file.
pub struct TemplateRewrite {
    /// The rewritten text.
    pub text: String,
    /// Whether the rewritten text differs from the original.
    pub changed: bool,
    pub migrated: usize,
    pub skipped: usize,
    pub warnings: Vec<String>,
}

/// Rewrites a whole template. A template without `*ngIf` / `*ngFor` is left
/// alone (`None`); otherwise the result of [`process`] over the whole text.
pub fn migrate_template(raw: &str) -> (res: Option<TemplateRewrite>)
    ensures
        res is None <==> !(contains(raw@, "*ngIf"@) || contains(raw@, "*ngFor"@)),
        res matches Some(r) ==> {
            let p = process(raw@, 0, raw@.len() as int);
            &&& r.text@ == p.out
            &&& r.changed == (p.out != raw@)
            &&& r.migrated == p.migrated
            &&& r.skipped == p.skipped
            &&& strings_view(r.warnings@) == p.warnings
        },
{
    if !has_structural_directive(raw) {
        return None;
    }
    let s = to_chars(raw);
    let mut stats = Stats { migrated: 0, skipped: 0, warnings: Vec::new() };
    proof {
        assert(strings_view(stats.warnings@) =~= Seq::<Seq<char>>::empty());
    }
    let out = process_exec(s.as_slice(), 0, s.len(), &mut stats);
    let same = subrange_eq(out.as_slice(), 0, out.len(), s.as_slice());
    proof {
        assert(out@.subrange(0, out@.len() as int) =~= out@);
        assert(strings_view(stats.warnings@) =~= process(raw@, 0, raw@.len() as int).warnings);
    }
    Some(
        TemplateRewrite {
            text: from_chars(out.as_slice()),
            changed: !same,
            migrated: stats.migrated,
            skipped: stats.skipped,
            warnings: stats.warnings,
        },
    )
}

/// Outcome of rewriting the templates of a project.
pub struct ControlFlowResult {
    /// Paths of the templates that changed.
    pub changed: Vec<String>,
    pub migrated: usize,
    pub skipped: usize,
    pub warnings: Vec<String>,
}

impl ControlFlowResult {
    /// An empty outcome.
    pub fn new() -> (res: ControlFlowResult)
        ensures
            res.changed@.len() == 0,
            res.migrated == 0,
            res.skipped == 0,
            res.warnings@.len() == 0,
    {
        ControlFlowResult { changed: Vec::new(), migrated: 0, skipped: 0, warnings: Vec::new() }
    }

    /// Adds the rewrite of the template at `path` to the totals: its counts
    /// are summed, its warnings appended with `path: ` before each, and the
    /// path recorded when the text changed.
    pub fn record_template(&mut self, path: &str, rewrite: &TemplateRewrite)
        requires
            old(self).migrated + rewrite.migrated <= usize::MAX,
            old(self).skipped + rewrite.skipped <= usize::MAX,
        ensures
            final(self).migrated == old(self).migrated + rewrite.migrated,
            final(self).skipped == old(self).skipped + rewrite.skipped,
            strings_view(final(self).warnings@) == strings_view(old(self).warnings@) + strings_view(
                rewrite.warnings@,
            ).map_values(|w: Seq<char>| path@ + ": "@ + w),
            strings_view(final(self).changed@) == if rewrite.changed {
                strings_view(old(self).changed@).push(path@)
            } else {
                strings_view(old(self).changed@)
            },
    {
        self.migrated = self.migrated + rewrite.migrated;
        self.skipped = self.skipped + rewrite.skipped;
        let ghost w0 = strings_view(self.warnings@);
        let mut k: usize = 0;
        while k < rewrite.warnings.len()
            invariant
                k <= rewrite.warnings@.len(),
                self.migrated == old(self).migrated + rewrite.migrated,
                self.skipped == old(self).skipped + rewrite.skipped,
                self.changed@ == old(self).changed@,
                w0 == strings_view(old(self).warnings@),
                strings_view(self.warnings@) == w0 + strings_view(rewrite.warnings@).take(
                    k as int,
                ).map_values(|w: Seq<char>| path@ + ": "@ + w),
            decreases rewrite.warnings@.len() - k,
        {
            let mut line = to_chars(path);
            push_str(&mut line, ": ");
            push_str(&mut line, rewrite.warnings[k].as_str());
            let text = from_chars(line.as_slice());
            let ghost before = self.warnings@;
            self.warnings.push(text);
            proof {
                let f = |w: Seq<char>| path@ + ": "@ + w;
                let ws = strings_view(rewrite.warnings@);
                assert(ws.take(k + 1) =~= ws.take(k as int).push(ws[k as int]));
                assert(ws.take(k + 1).map_values(f) =~= ws.take(k as int).map_values(f).push(
                    f(ws[k as int]),
                ));
                assert(strings_view(self.warnings@) =~= strings_view(before).push(text@));
            }
            k = k + 1;
        }
        proof {
            assert(strings_view(rewrite.warnings@).take(rewrite.warnings@.len() as int)
                =~= strings_view(rewrite.warnings@));
        }
        if rewrite.changed {
            let ghost c0 = self.changed@;
            self.changed.push(from_chars(to_chars(path).as_slice()));
            proof {
                assert(strings_view(self.changed@) =~= strings_view(c0).push(path@));
            }
        }
    }
}

} // verus!
