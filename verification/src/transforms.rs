//! Structural source edits: removing metadata fields from `@NgModule({...})`
//! object literals with a small scanner that is aware of string literals and
//! comments, plus the file-selection rules of the regex transforms.
//!
//! Positions are character indices.

use vstd::prelude::*;
use crate::text::{
    ascii_alnum, ascii_alpha, ascii_ws, ends_with, ends_with_str, from_chars, is_ascii_alnum,
    is_ascii_alpha, is_ascii_ws, matches_at, matches_at_exec, push_all, push_range, slice_to_vec,
    starts_with, str_equal, to_chars, contains, contains_str, split_char, split_char_exec,
};

verus! {

// ---------------------------------------------------------------------------
// Character classes
// ---------------------------------------------------------------------------

pub open spec fn is_ident_start(c: char) -> bool {
    is_ascii_alpha(c) || c == '_' || c == '$'
}

pub open spec fn is_ident_part(c: char) -> bool {
    is_ascii_alnum(c) || c == '_' || c == '$'
}

fn ident_start(c: char) -> (b: bool)
    ensures
        b == is_ident_start(c),
{
    ascii_alpha(c) || c == '_' || c == '$'
}

fn ident_part(c: char) -> (b: bool)
    ensures
        b == is_ident_part(c),
{
    ascii_alnum(c) || c == '_' || c == '$'
}

pub open spec fn is_quote(c: char) -> bool {
    c == '\'' || c == '"' || c == '`'
}

// ---------------------------------------------------------------------------
// Skipping strings, comments and whitespace
// ---------------------------------------------------------------------------

/// Inside a string literal opened by `q`, from `i`: the index just past the
/// closing quote (a backslash escapes the next character). May exceed the
/// length by one when the text ends in an escape.
pub open spec fn string_loop(s: Seq<char>, i: int, q: char) -> int
    decreases s.len() + 2 - i,
{
    if i < 0 || i >= s.len() {
        i
    } else if s[i] == '\\' {
        string_loop(s, i + 2, q)
    } else if s[i] == q {
        i + 1
    } else {
        string_loop(s, i + 1, q)
    }
}

/// The index just past the string literal whose opening quote is at `i`.
pub open spec fn skip_string(s: Seq<char>, i: int) -> int {
    string_loop(s, i + 1, s[i])
}

/// From `i`, the index of the next newline (or the end).
pub open spec fn skip_line_comment(s: Seq<char>, i: int) -> int
    decreases s.len() - i,
{
    if 0 <= i < s.len() && s[i] != '\n' {
        skip_line_comment(s, i + 1)
    } else {
        i
    }
}

/// From `j`, the index just past the next `*/`; the last index when there is none.
pub open spec fn comment_close(s: Seq<char>, j: int) -> int
    decreases s.len() - j,
{
    if 0 <= j && j + 1 < s.len() {
        if s[j] == '*' && s[j + 1] == '/' {
            j + 2
        } else {
            comment_close(s, j + 1)
        }
    } else {
        j
    }
}

/// For a block comment opening at `i` (`/*`), the index just past its
/// closing `*/`, searched for after the opening; the last index when there
/// is none.
pub open spec fn skip_block_comment(s: Seq<char>, i: int) -> int {
    if 0 <= i && i + 1 < s.len() {
        comment_close(s, i + 2)
    } else {
        i
    }
}

proof fn lemma_comment_close(s: Seq<char>, j: int)
    requires
        0 <= j,
    ensures
        comment_close(s, j) >= j,
        j <= s.len() ==> comment_close(s, j) <= s.len(),
    decreases s.len() - j,
{
    if j + 1 < s.len() && !(s[j] == '*' && s[j + 1] == '/') {
        lemma_comment_close(s, j + 1);
    }
}

/// From `i`, past ASCII whitespace.
pub open spec fn skip_ascii_ws(s: Seq<char>, i: int) -> int
    decreases s.len() - i,
{
    if 0 <= i < s.len() && is_ascii_ws(s[i]) {
        skip_ascii_ws(s, i + 1)
    } else {
        i
    }
}

pub open spec fn line_comment_at(s: Seq<char>, i: int) -> bool {
    0 <= i && i + 1 < s.len() && s[i] == '/' && s[i + 1] == '/'
}

pub open spec fn block_comment_at(s: Seq<char>, i: int) -> bool {
    0 <= i && i + 1 < s.len() && s[i] == '/' && s[i + 1] == '*'
}

pub proof fn lemma_string_loop(s: Seq<char>, i: int, q: char)
    ensures
        string_loop(s, i, q) >= i,
        0 <= i <= s.len() ==> string_loop(s, i, q) <= s.len() + 1,
    decreases s.len() + 2 - i,
{
    if i < 0 || i >= s.len() {
    } else if s[i] == '\\' {
        lemma_string_loop(s, i + 2, q);
    } else if s[i] == q {
    } else {
        lemma_string_loop(s, i + 1, q);
    }
}

pub proof fn lemma_skip_line_comment(s: Seq<char>, i: int)
    ensures
        skip_line_comment(s, i) >= i,
        0 <= i <= s.len() ==> skip_line_comment(s, i) <= s.len(),
        0 <= i < s.len() && s[i] != '\n' ==> skip_line_comment(s, i) > i,
    decreases s.len() - i,
{
    if 0 <= i < s.len() && s[i] != '\n' {
        lemma_skip_line_comment(s, i + 1);
    }
}

pub proof fn lemma_skip_block_comment(s: Seq<char>, i: int)
    ensures
        skip_block_comment(s, i) >= i,
        0 <= i <= s.len() ==> skip_block_comment(s, i) <= s.len(),
        0 <= i && i + 1 < s.len() ==> skip_block_comment(s, i) > i,
{
    if 0 <= i && i + 1 < s.len() {
        lemma_comment_close(s, i + 2);
    }
}

pub proof fn lemma_skip_ascii_ws(s: Seq<char>, i: int)
    ensures
        skip_ascii_ws(s, i) >= i,
        0 <= i <= s.len() ==> skip_ascii_ws(s, i) <= s.len(),
    decreases s.len() - i,
{
    if 0 <= i < s.len() && is_ascii_ws(s[i]) {
        lemma_skip_ascii_ws(s, i + 1);
    }
}

/// From `i`, past whitespace, line comments and block comments.
pub open spec fn skip_ws_comments(s: Seq<char>, i: int) -> int
    decreases s.len() + 1 - i,
{
    let j = skip_ascii_ws(s, i);
    proof {
        lemma_skip_ascii_ws(s, i);
        lemma_skip_line_comment(s, j);
        lemma_skip_block_comment(s, j);
    }
    if i < 0 || i > s.len() {
        i
    } else if line_comment_at(s, j) {
        skip_ws_comments(s, skip_line_comment(s, j))
    } else if block_comment_at(s, j) {
        skip_ws_comments(s, skip_block_comment(s, j))
    } else {
        j
    }
}

pub proof fn lemma_skip_ws_comments(s: Seq<char>, i: int)
    ensures
        skip_ws_comments(s, i) >= i,
        0 <= i <= s.len() ==> skip_ws_comments(s, i) <= s.len(),
    decreases s.len() + 1 - i,
{
    let j = skip_ascii_ws(s, i);
    lemma_skip_ascii_ws(s, i);
    lemma_skip_line_comment(s, j);
    lemma_skip_block_comment(s, j);
    if i < 0 || i > s.len() {
    } else if line_comment_at(s, j) {
        lemma_skip_ws_comments(s, skip_line_comment(s, j));
    } else if block_comment_at(s, j) {
        lemma_skip_ws_comments(s, skip_block_comment(s, j));
    }
}

fn skip_string_exec(s: &[char], i: usize) -> (res: usize)
    requires
        i < s@.len(),
        s@.len() < usize::MAX,
    ensures
        res == skip_string(s@, i as int),
{
    let q = s[i];
    let mut j = i + 1;
    while j < s.len()
        invariant
            i < j <= s@.len() + 1,
            i < s@.len(),
            s@.len() < usize::MAX,
            q == s@[i as int],
            skip_string(s@, i as int) == string_loop(s@, j as int, q),
        decreases s@.len() + 2 - j,
    {
        if s[j] == '\\' {
            j = j + 2;
            continue;
        }
        if s[j] == q {
            return j + 1;
        }
        j = j + 1;
    }
    j
}

fn skip_line_comment_exec(s: &[char], i: usize) -> (res: usize)
    requires
        i <= s@.len(),
    ensures
        res == skip_line_comment(s@, i as int),
{
    let mut j = i;
    while j < s.len() && s[j] != '\n'
        invariant
            i <= j <= s@.len(),
            skip_line_comment(s@, i as int) == skip_line_comment(s@, j as int),
        decreases s@.len() - j,
    {
        j = j + 1;
    }
    j
}

fn skip_block_comment_exec(s: &[char], i: usize) -> (res: usize)
    requires
        i <= s@.len(),
    ensures
        res == skip_block_comment(s@, i as int),
{
    if !(s.len() - i > 1) {
        return i;
    }
    let mut j = i + 2;
    while j < s.len() && s.len() - j > 1
        invariant
            i + 2 <= j <= s@.len(),
            skip_block_comment(s@, i as int) == comment_close(s@, j as int),
        decreases s@.len() - j,
    {
        if s[j] == '*' && s[j + 1] == '/' {
            return j + 2;
        }
        j = j + 1;
    }
    j
}

fn skip_ws_comments_exec(s: &[char], i: usize) -> (res: usize)
    requires
        i <= s@.len(),
    ensures
        res == skip_ws_comments(s@, i as int),
        res <= s@.len(),
{
    let mut j = i;
    loop
        invariant
            i <= j <= s@.len(),
            skip_ws_comments(s@, i as int) == skip_ws_comments(s@, j as int),
        decreases s@.len() + 1 - j,
    {
        let ghost j0 = j as int;
        while j < s.len() && ascii_ws(s[j])
            invariant
                j0 <= j <= s@.len(),
                skip_ascii_ws(s@, j0) == skip_ascii_ws(s@, j as int),
            decreases s@.len() - j,
        {
            j = j + 1;
        }
        proof {
            lemma_skip_line_comment(s@, j as int);
            lemma_skip_block_comment(s@, j as int);
        }
        if j < s.len() && s.len() - j > 1 && s[j] == '/' && s[j + 1] == '/' {
            j = skip_line_comment_exec(s, j);
        } else if j < s.len() && s.len() - j > 1 && s[j] == '/' && s[j + 1] == '*' {
            j = skip_block_comment_exec(s, j);
        } else {
            return j;
        }
    }
}


// ---------------------------------------------------------------------------
// Bracket matching
// ---------------------------------------------------------------------------

/// From `i`, with `depth` brackets open: the index of the `close` that
/// balances them, skipping string literals and comments.
pub open spec fn matching_loop(s: Seq<char>, i: int, depth: int, open: char, close: char) -> Option<
    int,
>
    decreases s.len() + 2 - i,
{
    if i < 0 || i >= s.len() {
        None
    } else {
        let c = s[i];
        proof {
            lemma_string_loop(s, i + 1, c);
            lemma_skip_line_comment(s, i);
            lemma_skip_block_comment(s, i);
        }
        if c == open {
            matching_loop(s, i + 1, depth + 1, open, close)
        } else if c == close {
            if depth - 1 == 0 {
                Some(i)
            } else {
                matching_loop(s, i + 1, depth - 1, open, close)
            }
        } else if is_quote(c) {
            matching_loop(s, skip_string(s, i), depth, open, close)
        } else if line_comment_at(s, i) {
            matching_loop(s, skip_line_comment(s, i), depth, open, close)
        } else if block_comment_at(s, i) {
            matching_loop(s, skip_block_comment(s, i), depth, open, close)
        } else {
            matching_loop(s, i + 1, depth, open, close)
        }
    }
}

/// The index of the `close` matching the `open` at `open_idx`.
pub open spec fn find_matching(s: Seq<char>, open_idx: int, open: char, close: char) -> Option<int> {
    matching_loop(s, open_idx, 0, open, close)
}

pub proof fn lemma_matching_loop(s: Seq<char>, i: int, depth: int, open: char, close: char)
    ensures
        matching_loop(s, i, depth, open, close) matches Some(k) ==> i <= k < s.len() && s[k] == close,
    decreases s.len() + 2 - i,
{
    if i < 0 || i >= s.len() {
    } else {
        let c = s[i];
        lemma_string_loop(s, i + 1, c);
        lemma_skip_line_comment(s, i);
        lemma_skip_block_comment(s, i);
        if c == open {
            lemma_matching_loop(s, i + 1, depth + 1, open, close);
        } else if c == close {
            if depth - 1 != 0 {
                lemma_matching_loop(s, i + 1, depth - 1, open, close);
            }
        } else if is_quote(c) {
            lemma_matching_loop(s, skip_string(s, i), depth, open, close);
        } else if line_comment_at(s, i) {
            lemma_matching_loop(s, skip_line_comment(s, i), depth, open, close);
        } else if block_comment_at(s, i) {
            lemma_matching_loop(s, skip_block_comment(s, i), depth, open, close);
        } else {
            lemma_matching_loop(s, i + 1, depth, open, close);
        }
    }
}

fn find_matching_exec(s: &[char], open_idx: usize, open: char, close: char) -> (res: Option<usize>)
    requires
        open_idx < s@.len(),
        s@.len() < usize::MAX,
        s@[open_idx as int] == open,
        open != close,
    ensures
        match res {
            Some(k) => find_matching(s@, open_idx as int, open, close) == Some(k as int),
            None => find_matching(s@, open_idx as int, open, close) is None,
        },
{
    let mut depth: usize = 0;
    let mut i = open_idx;
    while i < s.len()
        invariant
            open_idx <= i <= s@.len() + 1,
            s@.len() < usize::MAX,
            s@[open_idx as int] == open,
            open != close,
            depth <= i - open_idx,
            depth >= 1 || i == open_idx,
            find_matching(s@, open_idx as int, open, close) == matching_loop(
                s@,
                i as int,
                depth as int,
                open,
                close,
            ),
        decreases s@.len() + 2 - i,
    {
        let c = s[i];
        proof {
            lemma_string_loop(s@, i + 1, c);
            lemma_skip_line_comment(s@, i as int);
            lemma_skip_block_comment(s@, i as int);
        }
        if c == open {
            depth = depth + 1;
            i = i + 1;
        } else if c == close {
            depth = depth - 1;
            if depth == 0 {
                return Some(i);
            }
            i = i + 1;
        } else if c == '\'' || c == '"' || c == '`' {
            i = skip_string_exec(s, i);
        } else if s.len() - i > 1 && c == '/' && s[i + 1] == '/' {
            i = skip_line_comment_exec(s, i);
        } else if s.len() - i > 1 && c == '/' && s[i + 1] == '*' {
            i = skip_block_comment_exec(s, i);
        } else {
            i = i + 1;
        }
    }
    None
}

/// From `i` inside an object at `base` depth: `(end of the value, index just
/// past its terminating comma)`, or `(index of the closing brace, the same)`
/// when the value is the last property.
pub open spec fn value_end_loop(s: Seq<char>, i: int, depth: int, base: int) -> Option<(int, int)>
    decreases s.len() + 2 - i,
{
    if i < 0 || i >= s.len() {
        None
    } else {
        let c = s[i];
        proof {
            lemma_string_loop(s, i + 1, c);
            lemma_skip_line_comment(s, i);
            lemma_skip_block_comment(s, i);
        }
        if c == '{' || c == '(' || c == '[' {
            value_end_loop(s, i + 1, depth + 1, base)
        } else if c == '}' || c == ')' || c == ']' {
            if depth == base && c == '}' {
                Some((i, i))
            } else {
                value_end_loop(s, i + 1, if depth > 0 { depth - 1 } else { 0 }, base)
            }
        } else if c == ',' && depth == base {
            Some((i, i + 1))
        } else if is_quote(c) {
            value_end_loop(s, skip_string(s, i), depth, base)
        } else if line_comment_at(s, i) {
            value_end_loop(s, skip_line_comment(s, i), depth, base)
        } else if block_comment_at(s, i) {
            value_end_loop(s, skip_block_comment(s, i), depth, base)
        } else {
            value_end_loop(s, i + 1, depth, base)
        }
    }
}

pub proof fn lemma_value_end_loop(s: Seq<char>, i: int, depth: int, base: int)
    ensures
        value_end_loop(s, i, depth, base) matches Some((e, next)) ==> i <= e < s.len() && (next
            == e || next == e + 1) && (s[e] == '}' || s[e] == ',') && (s[e] == '}' ==> next == e) && (s[e]
            == ',' ==> next == e + 1),
    decreases s.len() + 2 - i,
{
    if i < 0 || i >= s.len() {
    } else {
        let c = s[i];
        lemma_string_loop(s, i + 1, c);
        lemma_skip_line_comment(s, i);
        lemma_skip_block_comment(s, i);
        if c == '{' || c == '(' || c == '[' {
            lemma_value_end_loop(s, i + 1, depth + 1, base);
        } else if c == '}' || c == ')' || c == ']' {
            if depth == base && c == '}' {
            } else {
                lemma_value_end_loop(s, i + 1, if depth > 0 { depth - 1 } else { 0 }, base);
            }
        } else if c == ',' && depth == base {
        } else if is_quote(c) {
            lemma_value_end_loop(s, skip_string(s, i), depth, base);
        } else if line_comment_at(s, i) {
            lemma_value_end_loop(s, skip_line_comment(s, i), depth, base);
        } else if block_comment_at(s, i) {
            lemma_value_end_loop(s, skip_block_comment(s, i), depth, base);
        } else {
            lemma_value_end_loop(s, i + 1, depth, base);
        }
    }
}

/// Scanning from `i` at bracket depth `d` token by token (`{`, `(`, `[` open
/// a level, `}`, `)`, `]` close one but never below zero, string literals and
/// comments are stepped over whole): the depth at which the scan reaches
/// index `k`, or `None` when it never stands at `k` (`k` lies inside a string
/// or comment, or before `i`).
pub open spec fn scan_depth(s: Seq<char>, i: int, k: int, d: int) -> Option<int>
    decreases s.len() + 2 - i,
{
    if i == k && 0 <= i {
        Some(d)
    } else if i < 0 || i > k || i >= s.len() {
        None
    } else {
        let c = s[i];
        proof {
            lemma_string_loop(s, i + 1, c);
            lemma_skip_line_comment(s, i);
            lemma_skip_block_comment(s, i);
        }
        if c == '{' || c == '(' || c == '[' {
            scan_depth(s, i + 1, k, d + 1)
        } else if c == '}' || c == ')' || c == ']' {
            scan_depth(s, i + 1, k, if d > 0 { d - 1 } else { 0 })
        } else if is_quote(c) {
            scan_depth(s, skip_string(s, i), k, d)
        } else if line_comment_at(s, i) {
            scan_depth(s, skip_line_comment(s, i), k, d)
        } else if block_comment_at(s, i) {
            scan_depth(s, skip_block_comment(s, i), k, d)
        } else {
            scan_depth(s, i + 1, k, d)
        }
    }
}

proof fn lemma_scan_depth_before(s: Seq<char>, i: int, k: int, d: int)
    requires
        k < i,
    ensures
        scan_depth(s, i, k, d) is None,
{
}

proof fn lemma_value_end_depth(s: Seq<char>, i: int, depth: int, base: int)
    requires
        0 <= i,
    ensures
        value_end_loop(s, i, depth, base) matches Some((e, nx)) ==> {
            &&& scan_depth(s, i, e, depth) == Some(base)
            &&& forall|k: int|
                i <= k < e && #[trigger] scan_depth(s, i, k, depth) == Some(base) ==> s[k] != ','
                    && s[k] != '}'
        },
        value_end_loop(s, i, depth, base) is None ==> forall|k: int|
            i <= k < s.len() && #[trigger] scan_depth(s, i, k, depth) == Some(base) ==> s[k] != ','
                && s[k] != '}',
    decreases s.len() + 2 - i,
{
    if i < s.len() {
        let c = s[i];
        lemma_string_loop(s, i + 1, c);
        lemma_skip_line_comment(s, i);
        lemma_skip_block_comment(s, i);
        let (j, d2) = if c == '{' || c == '(' || c == '[' {
            (i + 1, depth + 1)
        } else if c == '}' || c == ')' || c == ']' {
            (i + 1, if depth > 0 { depth - 1 } else { 0 })
        } else if is_quote(c) {
            (skip_string(s, i), depth)
        } else if line_comment_at(s, i) {
            (skip_line_comment(s, i), depth)
        } else if block_comment_at(s, i) {
            (skip_block_comment(s, i), depth)
        } else {
            (i + 1, depth)
        };
        assert(j > i);
        let stops = (c == '}' && depth == base) || (c == ',' && depth == base);
        if !stops {
            assert(value_end_loop(s, i, depth, base) == value_end_loop(s, j, d2, base));
            lemma_value_end_depth(s, j, d2, base);
            assert forall|k: int| i < k && #[trigger] scan_depth(s, i, k, depth) == scan_depth(s, i, k, depth)
                implies scan_depth(s, i, k, depth) == scan_depth(s, j, k, d2) by {}
            assert forall|k: int| i < k < j implies #[trigger] scan_depth(s, i, k, depth) is None by {
                lemma_scan_depth_before(s, j, k, d2);
            }
        }
    }
}

/// A property's value ends at the first `,` or `}` that the scan reaches at
/// the object's own bracket depth: brackets, braces and parentheses inside
/// the value, and anything inside its string literals and comments, do not
/// end it. The index after the value is just past the comma, or the brace
/// itself; when no such `,` or `}` exists there is no value end.
pub proof fn value_ends_at_object_depth(s: Seq<char>, i: int, base: int)
    requires
        0 <= i,
    ensures
        value_end_loop(s, i, base, base) matches Some((e, next)) ==> {
            &&& i <= e < s.len()
            &&& scan_depth(s, i, e, base) == Some(base)
            &&& (s[e] == ',' && next == e + 1) || (s[e] == '}' && next == e)
            &&& forall|k: int|
                i <= k < e && #[trigger] scan_depth(s, i, k, base) == Some(base) ==> s[k] != ','
                    && s[k] != '}'
        },
        value_end_loop(s, i, base, base) is None ==> forall|k: int|
            i <= k < s.len() && #[trigger] scan_depth(s, i, k, base) == Some(base) ==> s[k] != ','
                && s[k] != '}',
{
    lemma_value_end_depth(s, i, base, base);
    lemma_value_end_loop(s, i, base, base);
}

fn find_value_end_exec(s: &[char], start: usize, base: usize) -> (res: Option<(usize, usize)>)
    requires
        start <= s@.len(),
        base + s@.len() < usize::MAX,
    ensures
        match res {
            Some((e, nx)) => value_end_loop(s@, start as int, base as int, base as int) == Some(
                (e as int, nx as int),
            ),
            None => value_end_loop(s@, start as int, base as int, base as int) is None,
        },
{
    let mut depth = base;
    let mut i = start;
    while i < s.len()
        invariant
            start <= i <= s@.len() + 1,
            base + s@.len() < usize::MAX,
            depth <= base + (i - start),
            value_end_loop(s@, start as int, base as int, base as int) == value_end_loop(
                s@,
                i as int,
                depth as int,
                base as int,
            ),
        decreases s@.len() + 2 - i,
    {
        let c = s[i];
        proof {
            lemma_string_loop(s@, i + 1, c);
            lemma_skip_line_comment(s@, i as int);
            lemma_skip_block_comment(s@, i as int);
        }
        if c == '{' || c == '(' || c == '[' {
            depth = depth + 1;
            i = i + 1;
        } else if c == '}' || c == ')' || c == ']' {
            if depth == base && c == '}' {
                return Some((i, i));
            }
            depth = if depth > 0 {
                depth - 1
            } else {
                0
            };
            i = i + 1;
        } else if c == ',' && depth == base {
            return Some((i, i + 1));
        } else if c == '\'' || c == '"' || c == '`' {
            i = skip_string_exec(s, i);
        } else if s.len() - i > 1 && c == '/' && s[i + 1] == '/' {
            i = skip_line_comment_exec(s, i);
        } else if s.len() - i > 1 && c == '/' && s[i + 1] == '*' {
            i = skip_block_comment_exec(s, i);
        } else {
            i = i + 1;
        }
    }
    None
}


// ---------------------------------------------------------------------------
// Removing a top-level property from an object literal
// ---------------------------------------------------------------------------

/// Scanner state while removing a property: position, bracket depth, start of
/// the text not yet copied, text copied so far, whether anything was removed.
pub struct RemovalState {
    pub i: int,
    pub depth: int,
    pub seg: int,
    pub out: Seq<char>,
    pub changed: bool,
}

/// From `b`, backwards past ASCII whitespace (stopping at index 0).
pub open spec fn back_over_ws(t: Seq<char>, b: int) -> int
    decreases b,
{
    if b > 0 && b < t.len() && is_ascii_ws(t[b]) {
        back_over_ws(t, b - 1)
    } else {
        b
    }
}

pub proof fn lemma_back_over_ws(t: Seq<char>, b: int)
    ensures
        b >= 0 ==> 0 <= back_over_ws(t, b) <= b,
    decreases b,
{
    if b > 0 && b < t.len() && is_ascii_ws(t[b]) {
        lemma_back_over_ws(t, b - 1);
    }
}

/// Whether the property named `prop` starts at `i` (at depth one, not in the
/// middle of an identifier, followed by a non-identifier character).
pub open spec fn property_name_at(t: Seq<char>, prop: Seq<char>, st: RemovalState) -> bool {
    let i = st.i;
    let n = t.len() as int;
    let after = i + prop.len();
    &&& st.depth == 1
    &&& !(i > 0 && is_ident_part(t[i - 1]))
    &&& matches_at(t, i, prop)
    &&& is_ascii_alnum(t[(if after < n { after } else { n }) - 1])
    &&& after < n
    &&& !is_ident_part(t[after])
}

/// The removal loop. Each occurrence of the property (name, value and
/// trailing comma) is cut; when it was the last property (its value ends at
/// the closing `}`), the comma before it, with the whitespace between, is cut
/// too, provided that text has not been cut already.
pub open spec fn removal_loop(t: Seq<char>, prop: Seq<char>, st: RemovalState) -> RemovalState
    decreases t.len() + 2 - st.i,
{
    let n = t.len() as int;
    let i = st.i;
    if i < 0 || i >= n || st.seg < 0 || st.seg > i {
        st
    } else {
        let c = t[i];
        proof {
            lemma_string_loop(t, i + 1, c);
            lemma_skip_line_comment(t, i);
            lemma_skip_block_comment(t, i);
        }
        if c == '{' || c == '(' || c == '[' {
            removal_loop(t, prop, RemovalState { i: i + 1, depth: st.depth + 1, ..st })
        } else if c == '}' || c == ')' || c == ']' {
            removal_loop(
                t,
                prop,
                RemovalState {
                    i: i + 1,
                    depth: if st.depth > 0 {
                        st.depth - 1
                    } else {
                        0
                    },
                    ..st
                },
            )
        } else if is_quote(c) {
            removal_loop(t, prop, RemovalState { i: skip_string(t, i), ..st })
        } else if line_comment_at(t, i) {
            removal_loop(t, prop, RemovalState { i: skip_line_comment(t, i), ..st })
        } else if block_comment_at(t, i) {
            removal_loop(t, prop, RemovalState { i: skip_block_comment(t, i), ..st })
        } else if property_name_at(t, prop, st) && skip_ws_comments(t, i + prop.len()) < n && t[skip_ws_comments(t, i + prop.len())] == ':' {
            let colon = skip_ws_comments(t, i + prop.len());
            let val_start = skip_ws_comments(t, colon + 1);
            proof {
                lemma_skip_ws_comments(t, i + prop.len());
                lemma_skip_ws_comments(t, colon + 1);
                lemma_value_end_loop(t, val_start, st.depth, st.depth);
            }
            match value_end_loop(t, val_start, st.depth, st.depth) {
                Some((val_end, next)) => {
                    let back = back_over_ws(t, if i > 0 { i - 1 } else { 0 });
                    let keep_to = if t[val_end] == '}' && t[back] == ',' && st.seg <= back {
                        back
                    } else {
                        i
                    };
                    removal_loop(
                        t,
                        prop,
                        RemovalState {
                            i: next,
                            depth: st.depth,
                            seg: next,
                            out: st.out + t.subrange(st.seg, keep_to),
                            changed: true,
                        },
                    )
                },
                None => removal_loop(t, prop, RemovalState { i: i + 1, ..st }),
            }
        } else {
            removal_loop(t, prop, RemovalState { i: i + 1, ..st })
        }
    }
}

/// `t` (an object literal starting with `{`) without its top-level property
/// `prop` (name, value and trailing comma; for the last property, the comma
/// before it); `t` itself when there is none.
pub open spec fn removed_property(t: Seq<char>, prop: Seq<char>) -> Seq<char> {
    let st = removal_loop(
        t,
        prop,
        RemovalState { i: 1, depth: 1, seg: 0, out: Seq::empty(), changed: false },
    );
    if st.changed {
        st.out + t.subrange(st.seg, t.len() as int)
    } else {
        t
    }
}

pub proof fn lemma_removal_loop(t: Seq<char>, prop: Seq<char>, st: RemovalState)
    requires
        0 <= st.seg <= t.len(),
    ensures
        0 <= removal_loop(t, prop, st).seg <= t.len(),
        st.changed ==> removal_loop(t, prop, st).changed,
    decreases t.len() + 2 - st.i,
{
    let n = t.len() as int;
    let i = st.i;
    if i < 0 || i >= n || st.seg < 0 || st.seg > i {
    } else {
        let c = t[i];
        lemma_string_loop(t, i + 1, c);
        lemma_skip_line_comment(t, i);
        lemma_skip_block_comment(t, i);
        if c == '{' || c == '(' || c == '[' {
            lemma_removal_loop(t, prop, RemovalState { i: i + 1, depth: st.depth + 1, ..st });
        } else if c == '}' || c == ')' || c == ']' {
            lemma_removal_loop(
                t,
                prop,
                RemovalState {
                    i: i + 1,
                    depth: if st.depth > 0 {
                        st.depth - 1
                    } else {
                        0
                    },
                    ..st
                },
            );
        } else if is_quote(c) {
            lemma_removal_loop(t, prop, RemovalState { i: skip_string(t, i), ..st });
        } else if line_comment_at(t, i) {
            lemma_removal_loop(t, prop, RemovalState { i: skip_line_comment(t, i), ..st });
        } else if block_comment_at(t, i) {
            lemma_removal_loop(t, prop, RemovalState { i: skip_block_comment(t, i), ..st });
        } else if property_name_at(t, prop, st) && skip_ws_comments(t, i + prop.len()) < n
            && t[skip_ws_comments(t, i + prop.len())] == ':' {
            let colon = skip_ws_comments(t, i + prop.len());
            let val_start = skip_ws_comments(t, colon + 1);
            lemma_skip_ws_comments(t, i + prop.len());
            lemma_skip_ws_comments(t, colon + 1);
            lemma_value_end_loop(t, val_start, st.depth, st.depth);
            match value_end_loop(t, val_start, st.depth, st.depth) {
                Some((val_end, next)) => {
                    let back = back_over_ws(t, if i > 0 { i - 1 } else { 0 });
                    let keep_to = if t[val_end] == '}' && t[back] == ',' && st.seg <= back {
                        back
                    } else {
                        i
                    };
                    lemma_removal_loop(
                        t,
                        prop,
                        RemovalState {
                            i: next,
                            depth: st.depth,
                            seg: next,
                            out: st.out + t.subrange(st.seg, keep_to),
                            changed: true,
                        },
                    );
                },
                None => lemma_removal_loop(t, prop, RemovalState { i: i + 1, ..st }),
            }
        } else {
            lemma_removal_loop(t, prop, RemovalState { i: i + 1, ..st });
        }
    }
}

/// Exec counterpart of [`removed_property`].
fn removed_property_exec(t: &[char], prop: &[char]) -> (res: Vec<char>)
    requires
        t@.len() + 1 < usize::MAX,
    ensures
        removed_property(t@, prop@) == res@,
{
    let n = t.len();
    let mut out: Vec<char> = Vec::new();
    let mut seg: usize = 0;
    let mut i: usize = 1;
    let mut depth: usize = 1;
    let mut changed = false;
    let ghost init = RemovalState { i: 1, depth: 1, seg: 0, out: Seq::empty(), changed: false };
    proof {
        assert(out@ =~= Seq::<char>::empty());
    }
    while i < n
        invariant
            n == t@.len(),
            n + 1 < usize::MAX,
            init == (RemovalState { i: 1, depth: 1, seg: 0, out: Seq::empty(), changed: false }),
            1 <= i <= n + 1,
            seg <= i,
            seg <= n,
            depth <= i,
            removal_loop(t@, prop@, init) == removal_loop(
                t@,
                prop@,
                RemovalState {
                    i: i as int,
                    depth: depth as int,
                    seg: seg as int,
                    out: out@,
                    changed,
                },
            ),
        decreases n + 2 - i,
    {
        let c = t[i];
        proof {
            lemma_string_loop(t@, i + 1, c);
            lemma_skip_line_comment(t@, i as int);
            lemma_skip_block_comment(t@, i as int);
        }
        if c == '{' || c == '(' || c == '[' {
            depth = depth + 1;
            i = i + 1;
        } else if c == '}' || c == ')' || c == ']' {
            depth = if depth > 0 {
                depth - 1
            } else {
                0
            };
            i = i + 1;
        } else if c == '\'' || c == '"' || c == '`' {
            i = skip_string_exec(t, i);
        } else if n - i > 1 && c == '/' && t[i + 1] == '/' {
            i = skip_line_comment_exec(t, i);
        } else if n - i > 1 && c == '/' && t[i + 1] == '*' {
            i = skip_block_comment_exec(t, i);
        } else {
            let ident_before = i > 0 && ident_part(t[i - 1]);
            let starts = matches_at_exec(t, i, prop);
            let mut handled = false;
            if depth == 1 && !ident_before && starts {
                let after = i + prop.len();
                let ne = if after < n {
                    after
                } else {
                    n
                };
                let name_is_ident = ascii_alnum(t[ne - 1]) && after < n && !ident_part(t[after]);
                proof {
                    lemma_skip_ws_comments(t@, after as int);
                }
                let colon = skip_ws_comments_exec(t, after);
                if name_is_ident && colon < n && t[colon] == ':' {
                    proof {
                        lemma_skip_ws_comments(t@, colon + 1);
                    }
                    let val_start = skip_ws_comments_exec(t, colon + 1);
                    proof {
                        lemma_value_end_loop(t@, val_start as int, depth as int, depth as int);
                    }
                    match find_value_end_exec(t, val_start, depth) {
                        Some((val_end, next)) => {
                            let ghost st = RemovalState {
                                i: i as int,
                                depth: depth as int,
                                seg: seg as int,
                                out: out@,
                                changed,
                            };
                            handled = true;
                            changed = true;
                            let mut back = i - 1;
                            let ghost b0 = back as int;
                            while back > 0 && ascii_ws(t[back])
                                invariant
                                    n == t@.len(),
                                    back <= b0 < n,
                                    back_over_ws(t@, b0) == back_over_ws(t@, back as int),
                                decreases back,
                            {
                                back = back - 1;
                            }
                            proof {
                                lemma_back_over_ws(t@, b0);
                            }
                            if t[val_end] == '}' && t[back] == ',' && seg <= back {
                                push_range(&mut out, t, seg, back);
                            } else {
                                push_range(&mut out, t, seg, i);
                            }
                            proof {
                                assert(property_name_at(t@, prop@, st));
                            }
                            seg = next;
                            i = next;
                        },
                        None => {},
                    }
                }
            }
            if !handled {
                i = i + 1;
            }
        }
    }
    proof {
        lemma_removal_loop(t@, prop@, init);
    }
    if changed {
        push_range(&mut out, t, seg, n);
        out
    } else {
        let mut v: Vec<char> = Vec::new();
        push_range(&mut v, t, 0, n);
        proof {
            assert(t@.subrange(0, n as int) =~= t@);
        }
        v
    }
}


// ---------------------------------------------------------------------------
// `@NgModule({...})` literals
// ---------------------------------------------------------------------------

/// From `i`, past identifier characters.
pub open spec fn ident_end(s: Seq<char>, i: int) -> int
    decreases s.len() - i,
{
    if 0 <= i < s.len() && is_ident_part(s[i]) {
        ident_end(s, i + 1)
    } else {
        i
    }
}

pub proof fn lemma_ident_end(s: Seq<char>, i: int)
    ensures
        ident_end(s, i) >= i,
        0 <= i <= s.len() ==> ident_end(s, i) <= s.len(),
        0 <= i < s.len() && is_ident_part(s[i]) ==> ident_end(s, i) > i,
    decreases s.len() - i,
{
    if 0 <= i < s.len() && is_ident_part(s[i]) {
        lemma_ident_end(s, i + 1);
    }
}

/// From `i`: the ranges `(open brace, close brace)` of the object literal
/// passed first to each `NgModule(...)` call, skipping strings and comments.
pub open spec fn module_ranges(s: Seq<char>, i: int) -> Seq<(int, int)>
    decreases s.len() + 2 - i,
{
    if i < 0 || i >= s.len() {
        Seq::empty()
    } else {
        let c = s[i];
        proof {
            lemma_string_loop(s, i + 1, c);
            lemma_skip_line_comment(s, i);
            lemma_skip_block_comment(s, i);
            lemma_ident_end(s, i);
        }
        if is_quote(c) {
            module_ranges(s, skip_string(s, i))
        } else if line_comment_at(s, i) {
            module_ranges(s, skip_line_comment(s, i))
        } else if block_comment_at(s, i) {
            module_ranges(s, skip_block_comment(s, i))
        } else if is_ident_start(c) {
            let e = ident_end(s, i);
            let j = skip_ws_comments(s, e);
            proof {
                lemma_skip_ws_comments(s, e);
                lemma_matching_loop(s, j, 0, '(', ')');
            }
            if s.subrange(i, e) == "NgModule"@ && j < s.len() && s[j] == '(' {
                match find_matching(s, j, '(', ')') {
                    Some(cp) => {
                        let k = skip_ws_comments(s, j + 1);
                        proof {
                            lemma_skip_ws_comments(s, j + 1);
                            lemma_matching_loop(s, k, 0, '{', '}');
                        }
                        if k < s.len() && s[k] == '{' {
                            match find_matching(s, k, '{', '}') {
                                Some(cb) => seq![(k, cb)] + module_ranges(s, cb),
                                None => module_ranges(s, cp),
                            }
                        } else {
                            module_ranges(s, cp)
                        }
                    },
                    None => module_ranges(s, e),
                }
            } else {
                module_ranges(s, e)
            }
        } else {
            module_ranges(s, i + 1)
        }
    }
}

/// Ranges that lie in `[from, n)`, each well-formed and after the previous.
pub open spec fn ranges_ordered(r: Seq<(int, int)>, from: int, n: int) -> bool {
    &&& forall|k: int| 0 <= k < r.len() ==> from <= #[trigger] r[k].0 <= r[k].1 < n
    &&& forall|k: int| 0 <= k < r.len() - 1 ==> #[trigger] r[k].1 < r[k + 1].0
}

pub proof fn lemma_module_ranges(s: Seq<char>, i: int)
    requires
        0 <= i,
    ensures
        ranges_ordered(module_ranges(s, i), i, s.len() as int),
    decreases s.len() + 2 - i,
{
    if i < 0 || i >= s.len() {
    } else {
        let c = s[i];
        lemma_string_loop(s, i + 1, c);
        lemma_skip_line_comment(s, i);
        lemma_skip_block_comment(s, i);
        lemma_ident_end(s, i);
        if is_quote(c) {
            lemma_module_ranges(s, skip_string(s, i));
        } else if line_comment_at(s, i) {
            lemma_module_ranges(s, skip_line_comment(s, i));
        } else if block_comment_at(s, i) {
            lemma_module_ranges(s, skip_block_comment(s, i));
        } else if is_ident_start(c) {
            let e = ident_end(s, i);
            let j = skip_ws_comments(s, e);
            lemma_skip_ws_comments(s, e);
            lemma_matching_loop(s, j, 0, '(', ')');
            if s.subrange(i, e) == "NgModule"@ && j < s.len() && s[j] == '(' {
                match find_matching(s, j, '(', ')') {
                    Some(cp) => {
                        let k = skip_ws_comments(s, j + 1);
                        lemma_skip_ws_comments(s, j + 1);
                        lemma_matching_loop(s, k, 0, '{', '}');
                        if k < s.len() && s[k] == '{' {
                            match find_matching(s, k, '{', '}') {
                                Some(cb) => {
                                    lemma_module_ranges(s, cb + 1);
                                    assert(s[cb] == '}');
                                    assert(module_ranges(s, cb) == module_ranges(s, cb + 1));
                                    let rest = module_ranges(s, cb);
                                    let all = seq![(k, cb)] + rest;
                                    assert forall|m: int| 0 <= m < all.len() - 1 implies #[trigger] all[m].1 < all[m + 1].0 by {
                                        if m > 0 {
                                            assert(all[m] == rest[m - 1]);
                                            assert(all[m + 1] == rest[m]);
                                        } else {
                                            assert(all[1] == rest[0]);
                                        }
                                    }
                                    assert forall|m: int| 0 <= m < all.len() implies i <= #[trigger] all[m].0 <= all[m].1 < s.len() by {
                                        if m > 0 {
                                            assert(all[m] == rest[m - 1]);
                                        }
                                    }
                                },
                                None => {
                                    lemma_module_ranges(s, cp);
                                },
                            }
                        } else {
                            lemma_module_ranges(s, cp);
                        }
                    },
                    None => {
                        lemma_module_ranges(s, e);
                    },
                }
            } else {
                lemma_module_ranges(s, e);
            }
        } else {
            lemma_module_ranges(s, i + 1);
        }
    }
}

pub open spec fn pair_view(r: Seq<(usize, usize)>) -> Seq<(int, int)> {
    r.map_values(|p: (usize, usize)| (p.0 as int, p.1 as int))
}

fn module_ranges_exec(s: &[char]) -> (res: Vec<(usize, usize)>)
    requires
        s@.len() + 1 < usize::MAX,
    ensures
        pair_view(res@) == module_ranges(s@, 0),
{
    let n = s.len();
    let mut ranges: Vec<(usize, usize)> = Vec::new();
    let mut i: usize = 0;
    let ngm = to_chars("NgModule");
    proof {
        assert(pair_view(ranges@) + module_ranges(s@, 0) =~= module_ranges(s@, 0));
    }
    while i < n
        invariant
            n == s@.len(),
            n + 1 < usize::MAX,
            i <= n + 1,
            ngm@ == "NgModule"@,
            module_ranges(s@, 0) == pair_view(ranges@) + module_ranges(s@, i as int),
        decreases n + 2 - i,
    {
        let c = s[i];
        proof {
            lemma_string_loop(s@, i + 1, c);
            lemma_skip_line_comment(s@, i as int);
            lemma_skip_block_comment(s@, i as int);
            lemma_ident_end(s@, i as int);
        }
        if c == '\'' || c == '"' || c == '`' {
            i = skip_string_exec(s, i);
        } else if n - i > 1 && c == '/' && s[i + 1] == '/' {
            i = skip_line_comment_exec(s, i);
        } else if n - i > 1 && c == '/' && s[i + 1] == '*' {
            i = skip_block_comment_exec(s, i);
        } else if ident_start(c) {
            let ghost i0 = i as int;
            let mut e = i;
            while e < n && ident_part(s[e])
                invariant
                    n == s@.len(),
                    i0 <= e <= n,
                    ident_end(s@, i0) == ident_end(s@, e as int),
                decreases n - e,
            {
                e = e + 1;
            }
            let is_ngm = e - i == ngm.len() && matches_at_exec(s, i, ngm.as_slice());
            proof {
                if is_ngm {
                    assert(s@.subrange(i as int, e as int) =~= ngm@);
                }
                lemma_skip_ws_comments(s@, e as int);
            }
            let j = skip_ws_comments_exec(s, e);
            proof {
                lemma_matching_loop(s@, j as int, 0, '(', ')');
            }
            let mut next = e;
            if is_ngm && j < n && s[j] == '(' {
                match find_matching_exec(s, j, '(', ')') {
                    Some(cp) => {
                        proof {
                            lemma_skip_ws_comments(s@, j + 1);
                        }
                        let k = skip_ws_comments_exec(s, j + 1);
                        proof {
                            lemma_matching_loop(s@, k as int, 0, '{', '}');
                        }
                        next = cp;
                        if k < n && s[k] == '{' {
                            match find_matching_exec(s, k, '{', '}') {
                                Some(cb) => {
                                    let ghost before = pair_view(ranges@);
                                    ranges.push((k, cb));
                                    proof {
                                        assert(pair_view(ranges@) =~= before + seq![(k as int, cb as int)]);
                                        assert(before + (seq![(k as int, cb as int)] + module_ranges(s@, cb as int)) =~= pair_view(ranges@) + module_ranges(s@, cb as int));
                                    }
                                    next = cb;
                                },
                                None => {},
                            }
                        }
                    },
                    None => {},
                }
            }
            i = next;
        } else {
            i = i + 1;
        }
    }
    proof {
        assert(pair_view(ranges@) + Seq::<(int, int)>::empty() =~= pair_view(ranges@));
    }
    ranges
}

/// Rewrites each literal from range `k` on, copying the text between them
/// from `last`: `(text, number of literals that changed)`.
pub open spec fn rewrite_literals(
    s: Seq<char>,
    field: Seq<char>,
    r: Seq<(int, int)>,
    k: int,
    last: int,
) -> (Seq<char>, nat)
    decreases r.len() - k,
{
    if k < 0 || k >= r.len() {
        (s.subrange(last, s.len() as int), 0)
    } else {
        let lit = s.subrange(r[k].0, r[k].1 + 1);
        let next = removed_property(lit, field);
        let (rest, c) = rewrite_literals(s, field, r, k + 1, r[k].1 + 1);
        (s.subrange(last, r[k].0) + next + rest, c + if next != lit {
            1nat
        } else {
            0nat
        })
    }
}

/// `src` with the top-level property `field` removed from every
/// `@NgModule({...})` literal, and the number of literals changed; `src`
/// itself and 0 when none changed.
pub open spec fn removed_ng_module_field(src: Seq<char>, field: Seq<char>) -> (Seq<char>, nat) {
    let (out, c) = rewrite_literals(src, field, module_ranges(src, 0), 0, 0);
    if c > 0 {
        (out, c)
    } else {
        (src, 0)
    }
}

fn removed_ng_module_field_exec(s: &[char], field: &[char]) -> (res: (Vec<char>, usize))
    requires
        s@.len() + 1 < usize::MAX,
    ensures
        removed_ng_module_field(s@, field@) == (res.0@, res.1 as nat),
{
    let ranges = module_ranges_exec(s);
    let ghost r = pair_view(ranges@);
    proof {
        lemma_module_ranges(s@, 0);
    }
    let mut out: Vec<char> = Vec::new();
    let mut last: usize = 0;
    let mut removals: usize = 0;
    let mut k: usize = 0;
    let ghost total = rewrite_literals(s@, field@, r, 0, 0);
    proof {
        assert(out@ =~= Seq::<char>::empty());
    }
    while k < ranges.len()
        invariant
            r == pair_view(ranges@),
            r == module_ranges(s@, 0),
            ranges_ordered(r, 0, s@.len() as int),
            s@.len() + 1 < usize::MAX,
            k <= ranges@.len(),
            removals <= k,
            k == 0 ==> last == 0,
            k > 0 ==> last == r[k - 1].1 + 1,
            last <= s@.len(),
            total == rewrite_literals(s@, field@, r, 0, 0),
            total.0 == out@ + rewrite_literals(s@, field@, r, k as int, last as int).0,
            total.1 == rewrite_literals(s@, field@, r, k as int, last as int).1 + removals as nat,
        decreases ranges@.len() - k,
    {
        let (a, b) = ranges[k];
        assert(r[k as int] == (a as int, b as int));
        let ghost out_before = out@;
        let ghost rem_before = removals as nat;
        let lit = slice_to_vec(s, a, b + 1);
        let next = removed_property_exec(lit.as_slice(), field);
        push_range(&mut out, s, last, a);
        let same = next.len() == lit.len() && matches_at_exec(next.as_slice(), 0, lit.as_slice());
        proof {
            if next@.len() == lit@.len() {
                assert(next@.subrange(0, lit@.len() as int) =~= next@);
            }
            assert(same == (next@ == lit@));
        }
        push_all(&mut out, next.as_slice());
        if !same {
            removals = removals + 1;
        }
        proof {
            let rs = rewrite_literals(s@, field@, r, k + 1, b + 1).0;
            assert(out_before + (s@.subrange(last as int, a as int) + next@ + rs) =~= out@ + rs);
        }
        last = b + 1;
        k = k + 1;
    }
    proof {
        assert(rewrite_literals(s@, field@, r, k as int, last as int) == (
            s@.subrange(last as int, s@.len() as int),
            0nat,
        ));
    }
    push_range(&mut out, s, last, s.len());
    if removals > 0 {
        (out, removals)
    } else {
        let mut v: Vec<char> = Vec::new();
        push_range(&mut v, s, 0, s.len());
        proof {
            assert(s@.subrange(0, s@.len() as int) =~= s@);
        }
        (v, 0)
    }
}


// ---------------------------------------------------------------------------
// Public entry points
// ---------------------------------------------------------------------------

/// Removes the top-level property `prop` (with its trailing comma, or, for
/// the last property, the comma before it) from the object literal `text`,
/// which starts with `{`; nested objects, strings and comments are left
/// alone. Returns `text` unchanged when there is no such property.
pub fn remove_top_level_property(text: &str, prop: &str) -> (res: String)
    requires
        text@.len() + 1 < usize::MAX,
    ensures
        res@ == removed_property(text@, prop@),
{
    let t = to_chars(text);
    let p = to_chars(prop);
    let v = removed_property_exec(t.as_slice(), p.as_slice());
    from_chars(v.as_slice())
}

/// Removes the metadata field `field` from every `@NgModule({ ... })` literal
/// in `src`; returns the updated source and the number of literals changed
/// (`src` itself and 0 when nothing changed).
pub fn remove_ng_module_field(src: &str, field: &str) -> (res: (String, usize))
    requires
        src@.len() + 1 < usize::MAX,
    ensures
        removed_ng_module_field(src@, field@) == (res.0@, res.1 as nat),
{
    let s = to_chars(src);
    let f = to_chars(field);
    let (v, c) = removed_ng_module_field_exec(s.as_slice(), f.as_slice());
    (from_chars(v.as_slice()), c)
}

/// Directories the source transforms never enter.
pub open spec fn ignored_dir(seg: Seq<char>) -> bool {
    seg == "node_modules"@ || seg == "dist"@ || seg == ".git"@ || seg == ".angular"@ || seg
        == "coverage"@ || seg == "bazel-out"@
}

pub fn is_ignored_dir(seg: &str) -> (res: bool)
    ensures
        res == ignored_dir(seg@),
{
    str_equal(seg, "node_modules") || str_equal(seg, "dist") || str_equal(seg, ".git")
        || str_equal(seg, ".angular") || str_equal(seg, "coverage") || str_equal(seg, "bazel-out")
}

/// A path relative to the project root lies under an ignored directory: one
/// of its directory parts (each `/`-separated part but the last) is ignored.
pub open spec fn under_ignored_dir(rel: Seq<char>) -> bool {
    let parts = split_char(rel, '/');
    exists|k: int| 0 <= k < parts.len() - 1 && #[trigger] ignored_dir(parts[k])
}

pub fn is_under_ignored_dir(rel: &str) -> (res: bool)
    ensures
        res == under_ignored_dir(rel@),
{
    let v = to_chars(rel);
    let parts = split_char_exec(v.as_slice(), '/');
    let ghost ps = split_char(rel@, '/');
    let mut k: usize = 0;
    while k < parts.len() && parts.len() - k > 1
        invariant
            parts@.map_values(|p: Vec<char>| p@) == ps,
            ps == split_char(rel@, '/'),
            k <= parts@.len(),
            forall|j: int| 0 <= j < k ==> !ignored_dir(#[trigger] ps[j]),
        decreases parts@.len() - k,
    {
        let seg = from_chars(parts[k].as_slice());
        assert(ps[k as int] == parts@[k as int]@);
        if is_ignored_dir(seg.as_str()) {
            return true;
        }
        k = k + 1;
    }
    false
}

/// Directories the control-flow rewrite never enters.
pub open spec fn template_ignored_dir(seg: Seq<char>) -> bool {
    seg == "node_modules"@ || seg == "dist"@ || seg == ".git"@ || seg == ".angular"@ || seg
        == "coverage"@
}

pub fn is_template_ignored_dir(seg: &str) -> (res: bool)
    ensures
        res == template_ignored_dir(seg@),
{
    str_equal(seg, "node_modules") || str_equal(seg, "dist") || str_equal(seg, ".git")
        || str_equal(seg, ".angular") || str_equal(seg, "coverage")
}

/// Files the `@NgModule` edit visits: names ending in `.ts` or `.html`.
pub fn is_source_file_name(name: &str) -> (res: bool)
    ensures
        res == (ends_with(name@, ".ts"@) || ends_with(name@, ".html"@)),
{
    let v = to_chars(name);
    ends_with_str(v.as_slice(), ".ts") || ends_with_str(v.as_slice(), ".html")
}

/// Files the control-flow rewrite visits: names ending in `.html`.
pub fn is_template_file_name(name: &str) -> (res: bool)
    ensures
        res == ends_with(name@, ".html"@),
{
    let v = to_chars(name);
    ends_with_str(v.as_slice(), ".html")
}

/// A path relative to the project root names a spec file (`.spec.` in it).
pub fn is_spec_path(rel: &str) -> (res: bool)
    ensures
        res == contains(rel@, ".spec."@),
{
    let v = to_chars(rel);
    contains_str(v.as_slice(), ".spec.")
}

} // verus!
