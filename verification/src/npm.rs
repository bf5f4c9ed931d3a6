//! Choosing, among the published versions of a package, the newest one whose
//! `peerDependencies["@angular/core"]` range accepts a target Angular major.
//! Version strings and ranges are parsed and matched by the `semver` crate;
//! fetching the registry document is the caller's part.

use vstd::prelude::*;
use crate::pattern::push_text;

verus! {

/// `semver::VersionReq`, held opaque.
#[verifier::external_type_specification]
#[verifier::external_body]
pub struct ExVersionReq(semver::VersionReq);

/// `major.minor.patch` of the version `semver::Version::parse` reads from
/// `text`, or `None` when it refuses it.
pub uninterp spec fn semver_parse(text: Seq<char>) -> Option<(u64, u64, u64)>;

/// Whether `semver::VersionReq::parse` accepts `text`.
pub uninterp spec fn semver_req_parses(text: Seq<char>) -> bool;

/// Whether the requirement parsed from `range` matches the version
/// `major.minor.patch` (no pre-release, no build metadata).
pub uninterp spec fn semver_req_matches(range: Seq<char>, version: (u64, u64, u64)) -> bool;

/// The numeric part of a semantic version.
#[derive(Debug, Clone, Copy, PartialEq, Eq, Structural)]
pub struct SemVer {
    pub major: u64,
    pub minor: u64,
    pub patch: u64,
}

/// `semver::Version::parse(text)`, keeping its major, minor and patch.
/// Claims the result is [`semver_parse`] of `text`.
#[verifier::external_body]
fn parse_version(text: &str) -> (res: Option<SemVer>)
    ensures
        match res {
            Some(v) => semver_parse(text@) == Some((v.major, v.minor, v.patch)),
            None => semver_parse(text@) is None,
        },
{
    match semver::Version::parse(text) {
        Ok(v) => Some(SemVer { major: v.major, minor: v.minor, patch: v.patch }),
        Err(_) => None,
    }
}

/// A version requirement together with the text it was parsed from. Only
/// [`parse_req`] makes one.
pub struct PeerRange {
    text: String,
    req: semver::VersionReq,
}

impl View for PeerRange {
    type V = Seq<char>;

    closed spec fn view(&self) -> Seq<char> {
        self.text@
    }
}

/// `semver::VersionReq::parse(text)`. Claims it succeeds exactly when
/// [`semver_req_parses`] holds of `text`, and that a success remembers
/// `text`.
#[verifier::external_body]
fn parse_req(text: &str) -> (res: Option<PeerRange>)
    ensures
        res is Some <==> semver_req_parses(text@),
        res matches Some(r) ==> r@ == text@,
{
    match semver::VersionReq::parse(text) {
        Ok(req) => Some(PeerRange { text: text.to_owned(), req }),
        Err(_) => None,
    }
}

/// `VersionReq::matches` on the version `v` (no pre-release, no build
/// metadata). Claims the result is [`semver_req_matches`] of the
/// requirement's text and `v`.
#[verifier::external_body]
fn req_matches(r: &PeerRange, v: &SemVer) -> (res: bool)
    ensures
        res == semver_req_matches(r@, (v.major, v.minor, v.patch)),
{
    r.req.matches(&semver::Version::new(v.major, v.minor, v.patch))
}

/// The sort key of a version: major, minor and patch packed into one number
/// (`major << 32 | minor << 16 | patch`).
pub open spec fn key_spec(v: SemVer) -> u64 {
    (v.major << 32u64) | (v.minor << 16u64) | v.patch
}

/// The sort key of a version.
pub fn key(v: &SemVer) -> (res: u64)
    ensures
        res == key_spec(*v),
{
    v.major << 32u64 | v.minor << 16u64 | v.patch
}

/// The version `target.0.0` that peer ranges are checked against.
pub fn target_semver(target: u32) -> (res: SemVer)
    ensures
        res == (SemVer { major: target as u64, minor: 0, patch: 0 }),
{
    SemVer { major: target as u64, minor: 0, patch: 0 }
}

/// A published version as read from the registry document: its version
/// string and, when it has an `@angular/core` peer dependency, that
/// dependency's value (`None` inside when it is not a string).
pub type PublishedView = (Seq<char>, Option<Option<Seq<char>>>);

pub open spec fn published_view(v: Seq<(String, Option<Option<String>>)>) -> Seq<PublishedView> {
    v.map_values(
        |e: (String, Option<Option<String>>)|
            (
                e.0@,
                match e.1 {
                    Some(Some(s)) => Some(Some(s@)),
                    Some(None) => Some(None),
                    None => None,
                },
            ),
    )
}

/// A candidate: sort key, version string, peer range (when a string).
pub type CandidateView = (u64, Seq<char>, Option<Seq<char>>);

/// The Angular-coupled stable versions that semver can read, in document
/// order.
pub open spec fn candidates(vs: Seq<PublishedView>) -> Seq<CandidateView>
    decreases vs.len(),
{
    if vs.len() == 0 {
        Seq::empty()
    } else {
        let (v, peer) = vs.last();
        candidates(vs.drop_last()) + if !v.contains('-') && peer is Some && semver_parse(v) is Some {
            let (a, b, c) = semver_parse(v)->0;
            seq![
                (
                    key_spec(SemVer { major: a, minor: b, patch: c }),
                    v,
                    peer->0,
                ),
            ]
        } else {
            Seq::empty()
        }
    }
}

/// Inserts `e` after every entry whose key is at least its key: a stable
/// sort by key, largest first, built one entry at a time.
pub open spec fn insert_desc(acc: Seq<CandidateView>, e: CandidateView, i: int) -> Seq<CandidateView>
    decreases acc.len() - i,
{
    if i < 0 || i >= acc.len() {
        acc.push(e)
    } else if acc[i].0 < e.0 {
        acc.insert(i, e)
    } else {
        insert_desc(acc, e, i + 1)
    }
}

/// The candidates stably sorted by key, newest first.
pub open spec fn sort_desc(es: Seq<CandidateView>) -> Seq<CandidateView>
    decreases es.len(),
{
    if es.len() == 0 {
        Seq::empty()
    } else {
        insert_desc(sort_desc(es.drop_last()), es.last(), 0)
    }
}

/// The first of `cs` (from `i`) whose peer range parses and accepts
/// `target.0.0`.
pub open spec fn first_accepting(cs: Seq<CandidateView>, target: u32, i: int) -> Option<Seq<char>>
    decreases cs.len() - i,
{
    if i < 0 || i >= cs.len() {
        None
    } else {
        match cs[i].2 {
            Some(r) => if semver_req_parses(r) && semver_req_matches(r, (target as u64, 0, 0)) {
                Some(cs[i].1)
            } else {
                first_accepting(cs, target, i + 1)
            },
            None => first_accepting(cs, target, i + 1),
        }
    }
}

/// The newest of the first forty candidates (by key) whose range accepts
/// Angular `target`, as a caret specifier.
pub open spec fn compatible_spec(vs: Seq<PublishedView>, target: u32) -> Option<Seq<char>> {
    let sorted = sort_desc(candidates(vs));
    let top = if sorted.len() > 40 {
        sorted.take(40)
    } else {
        sorted
    };
    match first_accepting(top, target, 0) {
        Some(v) => Some(seq!['^'] + v),
        None => None,
    }
}

pub open spec fn candidates_view(v: Seq<(u64, String, Option<String>)>) -> Seq<CandidateView> {
    v.map_values(
        |e: (u64, String, Option<String>)|
            (
                e.0,
                e.1@,
                match e.2 {
                    Some(s) => Some(s@),
                    None => None,
                },
            ),
    )
}

fn insert_desc_exec(acc: &mut Vec<(u64, String, Option<String>)>, e: (u64, String, Option<String>))
    ensures
        candidates_view(final(acc)@) == insert_desc(
            candidates_view(old(acc)@),
            candidates_view(seq![e])[0],
            0,
        ),
{
    let ghost a0 = candidates_view(acc@);
    let ghost ev = candidates_view(seq![e])[0];
    let mut i: usize = 0;
    while i < acc.len()
        invariant
            i <= acc@.len(),
            a0 == candidates_view(acc@),
            a0 == candidates_view(old(acc)@),
            ev == candidates_view(seq![e])[0],
            ev.0 == e.0,
            insert_desc(a0, ev, 0) == insert_desc(a0, ev, i as int),
        decreases acc@.len() - i,
    {
        proof {
            assert(a0[i as int].0 == acc@[i as int].0);
        }
        if acc[i].0 < e.0 {
            acc.insert(i, e);
            proof {
                assert(candidates_view(acc@) =~= a0.insert(i as int, ev));
            }
            return;
        }
        i = i + 1;
    }
    acc.push(e);
    proof {
        assert(candidates_view(acc@) =~= a0.push(ev));
    }
}

fn has_dash(s: &str) -> (res: bool)
    ensures
        res == s@.contains('-'),
{
    let cs = crate::text::to_chars(s);
    let mut i: usize = 0;
    while i < cs.len()
        invariant
            i <= cs@.len(),
            cs@ == s@,
            forall|j: int| 0 <= j < i ==> cs@[j] != '-',
        decreases cs@.len() - i,
    {
        if cs[i] == '-' {
            return true;
        }
        i = i + 1;
    }
    false
}

/// The newest published version (among the forty newest Angular-coupled
/// stable ones) whose `@angular/core` peer range accepts Angular major
/// `target`, as `^version`; `None` when there is none.
pub fn select_compatible_version(versions: &[(String, Option<Option<String>>)], target: u32) -> (res:
    Option<String>)
    ensures
        match res {
            Some(s) => compatible_spec(published_view(versions@), target) == Some(s@),
            None => compatible_spec(published_view(versions@), target) is None,
        },
{
    let ghost pv = published_view(versions@);
    // Gather the candidates, sorting them as they come.
    let mut sorted: Vec<(u64, String, Option<String>)> = Vec::new();
    let mut i: usize = 0;
    proof {
        assert(pv.take(0) =~= Seq::<PublishedView>::empty());
        assert(candidates_view(sorted@) =~= sort_desc(candidates(pv.take(0))));
    }
    while i < versions.len()
        invariant
            i <= versions@.len(),
            pv == published_view(versions@),
            candidates_view(sorted@) == sort_desc(candidates(pv.take(i as int))),
        decreases versions@.len() - i,
    {
        let ghost before = candidates(pv.take(i as int));
        proof {
            assert(pv.take(i + 1).drop_last() =~= pv.take(i as int));
            assert(pv.take(i + 1).last() == pv[i as int]);
        }
        let v = &versions[i].0;
        let coupled = versions[i].1.is_some();
        if !has_dash(v.as_str()) && coupled {
            match parse_version(v.as_str()) {
                Some(sem) => {
                    let peer: Option<String> = match &versions[i].1 {
                        Some(Some(r)) => Some(r.clone()),
                        _ => None,
                    };
                    let k = key(&sem);
                    let e = (k, v.clone(), peer);
                    let ghost ev = candidates_view(seq![e])[0];
                    proof {
                        assert(candidates(pv.take(i + 1)) =~= before.push(ev));
                        assert(sort_desc(before.push(ev)) == insert_desc(sort_desc(before), ev, 0)) by {
                            assert(before.push(ev).drop_last() =~= before);
                        }
                    }
                    insert_desc_exec(&mut sorted, e);
                },
                None => {
                    proof {
                        assert(candidates(pv.take(i + 1)) =~= before);
                    }
                },
            }
        } else {
            proof {
                assert(candidates(pv.take(i + 1)) =~= before);
            }
        }
        i = i + 1;
    }
    proof {
        assert(pv.take(versions@.len() as int) =~= pv);
    }
    let ghost all = candidates_view(sorted@);
    let limit: usize = if sorted.len() > 40 {
        40
    } else {
        sorted.len()
    };
    let ghost top = if all.len() > 40 {
        all.take(40)
    } else {
        all
    };
    let mut j: usize = 0;
    while j < limit
        invariant
            j <= limit,
            limit == top.len(),
            limit <= sorted@.len(),
            all == candidates_view(sorted@),
            pv == published_view(versions@),
            all == sort_desc(candidates(pv)),
            top == if all.len() > 40 {
                all.take(40)
            } else {
                all
            },
            first_accepting(top, target, 0) == first_accepting(top, target, j as int),
        decreases limit - j,
    {
        proof {
            assert(top[j as int] == all[j as int]);
            assert(all[j as int].1 == sorted@[j as int].1@);
        }
        match &sorted[j].2 {
            Some(r) => {
                match parse_req(r.as_str()) {
                    Some(req) => {
                        let t = target_semver(target);
                        if req_matches(&req, &t) {
                            let mut out = String::new();
                            push_text(&mut out, "^");
                            push_text(&mut out, sorted[j].1.as_str());
                            proof {
                                reveal_strlit("^");
                                assert(out@ =~= seq!['^'] + all[j as int].1);
                            }
                            return Some(out);
                        }
                    },
                    None => {},
                }
            },
            None => {},
        }
        j = j + 1;
    }
    None
}

} // verus!
