//! Regular expressions, compiled and run by the `regex` crate.
//!
//! What a pattern matches is the `regex` crate's business; this module names
//! the results of compiling a pattern and of replacing its matches, and
//! states in full what `regex::escape` returns.

use vstd::prelude::*;
use crate::text::{str_equal, string_push};

verus! {

/// `regex::Regex`, held opaque.
#[verifier::external_type_specification]
#[verifier::external_body]
pub struct ExRegex(regex::Regex);

/// `regex::Error`, held opaque.
#[verifier::external_type_specification]
#[verifier::external_body]
pub struct ExRegexError(regex::Error);

/// Whether `regex::Regex::new` accepts `pattern`.
pub uninterp spec fn regex_compiles(pattern: Seq<char>) -> bool;

/// What `Regex::replace_all` gives back for `text` and the replacement
/// string `rep`, the regex having been compiled from `pattern`.
pub uninterp spec fn regex_replace_all(pattern: Seq<char>, text: Seq<char>, rep: Seq<char>) -> Seq<
    char,
>;

/// A compiled regular expression together with the text it was compiled
/// from. Only [`compile`] makes one, so `compiled` is always the compilation
/// of `source`.
pub struct Pattern {
    source: String,
    compiled: regex::Regex,
}

impl View for Pattern {
    type V = Seq<char>;

    closed spec fn view(&self) -> Seq<char> {
        self.source@
    }
}

/// `regex::Regex::new(source)`. Claims that it succeeds exactly when
/// [`regex_compiles`] holds of `source`, and that a success remembers
/// `source`; what the error holds is not stated.
#[verifier::external_body]
fn regex_new(source: &str) -> (res: Result<Pattern, regex::Error>)
    ensures
        res is Ok <==> regex_compiles(source@),
        res matches Ok(p) ==> p@ == source@,
{
    match regex::Regex::new(source) {
        Ok(compiled) => Ok(Pattern { source: source.to_owned(), compiled }),
        Err(e) => Err(e),
    }
}

/// `Regex::replace_all(text, rep)`, made owned. Claims the result is
/// [`regex_replace_all`] of the pattern's source, `text` and `rep`.
#[verifier::external_body]
fn regex_replace(p: &Pattern, text: &str, rep: &str) -> (res: String)
    ensures
        res@ == regex_replace_all(p@, text@, rep@),
{
    p.compiled.replace_all(text, rep).into_owned()
}

/// The `Display` text of a `regex::Error`; nothing is claimed of it.
#[verifier::external_body]
fn regex_error_message(e: &regex::Error) -> (res: String) {
    e.to_string()
}

/// The characters that `regex::escape` prefixes with a backslash
/// (`regex_syntax::is_meta_character`).
pub open spec fn is_meta_char(c: char) -> bool {
    c == '\\' || c == '.' || c == '+' || c == '*' || c == '?' || c == '(' || c == ')' || c == '|'
        || c == '[' || c == ']' || c == '{' || c == '}' || c == '^' || c == '$' || c == '#'
        || c == '&' || c == '-' || c == '~'
}

/// `text` with a backslash before every meta character.
pub open spec fn escaped(text: Seq<char>) -> Seq<char>
    decreases text.len(),
{
    if text.len() == 0 {
        Seq::empty()
    } else {
        let c = text.last();
        escaped(text.drop_last()) + if is_meta_char(c) {
            seq!['\\', c]
        } else {
            seq![c]
        }
    }
}

/// `regex::escape(text)`. Claims the result is [`escaped`] of `text`, as
/// `regex_syntax::escape_into` builds it.
#[verifier::external_body]
fn regex_escape(text: &str) -> (res: String)
    ensures
        res@ == escaped(text@),
{
    regex::escape(text)
}

impl Pattern {
    /// The text this pattern was compiled from.
    pub fn source(&self) -> (res: &str)
        ensures
            res@ == self@,
    {
        &self.source
    }
}

/// Compiles `source`; on failure the error text is
/// ``invalid regex `{source}`: {message}``.
pub fn compile(source: &str) -> (res: Result<Pattern, String>)
    ensures
        res is Ok <==> regex_compiles(source@),
        res matches Ok(p) ==> p@ == source@,
        res matches Err(m) ==> (m@.len() >= 15 + source@.len() && m@.subrange(
            0,
            15 + source@.len() as int,
        ) == "invalid regex `"@ + source@),
{
    match regex_new(source) {
        Ok(p) => Ok(p),
        Err(e) => {
            let msg = regex_error_message(&e);
            let mut out = String::new();
            let ghost prefix: Seq<char> = "invalid regex `"@;
            proof {
                reveal_strlit("invalid regex `");
            }
            push_text(&mut out, "invalid regex `");
            push_text(&mut out, source);
            push_text(&mut out, "`: ");
            push_text(&mut out, msg.as_str());
            proof {
                assert(out@.subrange(0, 15 + source@.len() as int) =~= prefix + source@);
            }
            Err(out)
        },
    }
}

/// Appends `t` to `s`.
pub(crate) fn push_text(s: &mut String, t: &str)
    ensures
        final(s)@ == old(s)@ + t@,
{
    let ghost s0 = s@;
    let mut i: usize = 0;
    let chars = crate::text::to_chars(t);
    while i < chars.len()
        invariant
            i <= chars@.len(),
            chars@ == t@,
            s@ == s0 + chars@.take(i as int),
        decreases chars@.len() - i,
    {
        string_push(s, chars[i]);
        proof {
            assert(chars@.take(i + 1) =~= chars@.take(i as int).push(chars@[i as int]));
        }
        i = i + 1;
    }
    proof {
        assert(chars@.take(chars@.len() as int) =~= chars@);
    }
}

/// Replaces every match of `p` in `text` with `rep`.
pub fn replace_all(p: &Pattern, text: &str, rep: &str) -> (res: String)
    ensures
        res@ == regex_replace_all(p@, text@, rep@),
{
    regex_replace(p, text, rep)
}

/// The result of a replacement over a file's text: `Some(next)` when it
/// differs from `text`, `None` when nothing changed.
pub fn rewrite_text(p: &Pattern, text: &str, rep: &str) -> (res: Option<String>)
    ensures
        regex_replace_all(p@, text@, rep@) == text@ ==> res is None,
        regex_replace_all(p@, text@, rep@) != text@ ==> (res matches Some(n) && n@
            == regex_replace_all(p@, text@, rep@)),
{
    let next = regex_replace(p, text, rep);
    if str_equal(next.as_str(), text) {
        None
    } else {
        Some(next)
    }
}

/// `regex::escape(text)`.
pub fn escape(text: &str) -> (res: String)
    ensures
        res@ == escaped(text@),
{
    regex_escape(text)
}

/// The pattern that removes one CLI flag together with the whitespace
/// before it: `\s+` + the escaped flag + `\b`.
pub open spec fn flag_pattern(flag: Seq<char>) -> Seq<char> {
    "\\s+"@ + escaped(flag) + "\\b"@
}

/// [`flag_pattern`] as a string.
pub fn flag_pattern_text(flag: &str) -> (res: String)
    ensures
        res@ == flag_pattern(flag@),
{
    let mut out = String::new();
    push_text(&mut out, "\\s+");
    let e = regex_escape(flag);
    push_text(&mut out, e.as_str());
    push_text(&mut out, "\\b");
    proof {
        assert(out@ =~= "\\s+"@ + escaped(flag@) + "\\b"@);
    }
    out
}

/// The script after removing each flag in turn (a flag whose pattern does
/// not compile is skipped).
pub open spec fn strip_flags_spec(script: Seq<char>, flags: Seq<Seq<char>>) -> Seq<char>
    decreases flags.len(),
{
    if flags.len() == 0 {
        script
    } else {
        let before = strip_flags_spec(script, flags.drop_last());
        let pat = flag_pattern(flags.last());
        if regex_compiles(pat) {
            regex_replace_all(pat, before, Seq::empty())
        } else {
            before
        }
    }
}

/// Removes each of `flags` (with the whitespace before it) from `script`.
pub fn strip_flags(script: &str, flags: &Vec<String>) -> (res: String)
    ensures
        res@ == strip_flags_spec(script@, flags@.map_values(|f: String| f@)),
{
    let ghost fs = flags@.map_values(|f: String| f@);
    let mut out = script.to_owned();
    let mut i: usize = 0;
    proof {
        assert(fs.take(0) =~= Seq::<Seq<char>>::empty());
    }
    while i < flags.len()
        invariant
            i <= flags@.len(),
            fs == flags@.map_values(|f: String| f@),
            out@ == strip_flags_spec(script@, fs.take(i as int)),
        decreases flags@.len() - i,
    {
        let pat = flag_pattern_text(flags[i].as_str());
        proof {
            assert(fs.take(i + 1).drop_last() =~= fs.take(i as int));
            assert(fs.take(i + 1).last() == flags@[i as int]@);
        }
        let ghost before = out@;
        proof {
            reveal_strlit("");
            assert(""@ =~= Seq::<char>::empty());
            assert(pat@ == flag_pattern(fs.take(i + 1).last()));
        }
        match regex_new(pat.as_str()) {
            Ok(re) => {
                out = regex_replace(&re, out.as_str(), "");
                assert(out@ == regex_replace_all(pat@, before, Seq::empty()));
            },
            Err(_) => {},
        }
        i = i + 1;
    }
    proof {
        assert(fs.take(flags@.len() as int) =~= fs);
    }
    out
}

} // verus!
