//! What a Bluesky agent decides from its configuration and preferences.
pub mod config;

use vstd::prelude::*;
use crate::identity::{did_is_valid, is_valid_did};
use crate::moderation::types::ModerationPrefs;
use crate::text::{chars_of, split_once, split_once_exec, trim_white_space, trim_white_space_exec, chars_eq, copy_string};

verus! {

/// The views of a list of DIDs with flags.
pub open spec fn pair_views(s: Seq<(String, bool)>) -> Seq<(Seq<char>, bool)> {
    s.map_values(|p: (String, bool)| (p.0@, p.1))
}

/// One entry of a stored labelers header: a DID, or a DID and `;redact`
/// (white space around `redact` allowed). Any other parameter, or a text
/// that is not a DID, is left out.
pub open spec fn labeler_entry(e: Seq<char>) -> Option<(Seq<char>, bool)> {
    let parsed = match split_once(e, ';') {
        Some((d, params)) => if trim_white_space(params) == "redact"@ {
            Some((d, true))
        } else {
            None
        },
        None => Some((e, false)),
    };
    match parsed {
        Some((d, redact)) => if is_valid_did(d) {
            Some((d, redact))
        } else {
            None
        },
        None => None,
    }
}

/// The labelers that the entries of a stored labelers header name, in order.
pub open spec fn labeler_entries(es: Seq<String>) -> Seq<(Seq<char>, bool)>
    decreases es.len(),
{
    if es.len() == 0 {
        Seq::empty()
    } else {
        let r = labeler_entries(es.drop_last());
        match labeler_entry(es.last()@) {
            Some(x) => r.push(x),
            None => r,
        }
    }
}

proof fn lemma_pair_views_push(s: Seq<(String, bool)>, p: (String, bool))
    ensures
        pair_views(s.push(p)) == pair_views(s).push((p.0@, p.1)),
{
    assert(pair_views(s.push(p)) =~= pair_views(s).push((p.0@, p.1)));
}

/// Decides `labeler_entry`.
pub fn parse_labeler_entry(e: &str) -> (r: Option<(String, bool)>)
    ensures
        match r {
            Some((d, redact)) => labeler_entry(e@) == Some((d@, redact)),
            None => labeler_entry(e@) is None,
        },
{
    let (did, redact) = match split_once_exec(e, ';') {
        Some((d, params)) => {
            let trimmed = trim_white_space_exec(&chars_of(params.as_str()));
            let redact = chars_of("redact");
            if chars_eq(&trimmed, &redact) {
                (d, true)
            } else {
                return None;
            }
        },
        None => (e.to_owned(), false),
    };
    if did_is_valid(did.as_str()) {
        Some((did, redact))
    } else {
        None
    }
}

/// The labelers that a stored labelers header names; see `labeler_entries`.
pub fn parse_labelers_header(labelers: &Vec<String>) -> (r: Vec<(String, bool)>)
    ensures
        pair_views(r@) == labeler_entries(labelers@),
{
    let mut out: Vec<(String, bool)> = Vec::new();
    let mut i: usize = 0;
    assert(labelers@.take(0) =~= Seq::<String>::empty());
    assert(pair_views(out@) =~= labeler_entries(labelers@.take(0)));
    while i < labelers.len()
        invariant
            i <= labelers@.len(),
            pair_views(out@) == labeler_entries(labelers@.take(i as int)),
        decreases labelers.len() - i,
    {
        assert(labelers@.take(i + 1).drop_last() =~= labelers@.take(i as int));
        match parse_labeler_entry(labelers[i].as_str()) {
            Some(p) => {
                proof {
                    lemma_pair_views_push(out@, p);
                }
                out.push(p);
            },
            None => {},
        }
        i = i + 1;
    }
    assert(labelers@.take(i as int) =~= labelers@);
    out
}

/// The service that a stored proxy header names: a DID and a service
/// type, separated by `#`; none when the text before `#` is not a DID.
pub open spec fn proxy_target(p: Seq<char>) -> Option<(Seq<char>, Seq<char>)> {
    match split_once(p, '#') {
        Some((d, service)) => if is_valid_did(d) {
            Some((d, service))
        } else {
            None
        },
        None => None,
    }
}

/// Decides `proxy_target`.
pub fn parse_proxy_header(proxy: &str) -> (r: Option<(String, String)>)
    ensures
        match r {
            Some((d, s)) => proxy_target(proxy@) == Some((d@, s@)),
            None => proxy_target(proxy@) is None,
        },
{
    match split_once_exec(proxy, '#') {
        Some((d, service)) => {
            if did_is_valid(d.as_str()) {
                Some((d, service))
            } else {
                None
            }
        },
        None => None,
    }
}

/// The labelers that requests name, from the moderation preferences: the
/// first ten subscribed labelers, each with whether it is the default one.
pub open spec fn spec_labelers_for_header(prefs: ModerationPrefs) -> Seq<(Seq<char>, bool)> {
    let ls = prefs.labelers@;
    let n = if ls.len() < 10 {
        ls.len() as int
    } else {
        10
    };
    Seq::new(n as nat, |i: int| (ls[i].did@, ls[i].is_default_labeler))
}

/// Decides `spec_labelers_for_header`.
pub fn labelers_for_header(prefs: &ModerationPrefs) -> (r: Vec<(String, bool)>)
    ensures
        pair_views(r@) == spec_labelers_for_header(*prefs),
{
    let mut out: Vec<(String, bool)> = Vec::new();
    let mut i: usize = 0;
    while i < prefs.labelers.len() && i < 10
        invariant
            i <= prefs.labelers@.len(),
            i <= 10,
            pair_views(out@) =~= Seq::new(
                i as nat,
                |k: int| (prefs.labelers@[k].did@, prefs.labelers@[k].is_default_labeler),
            ),
        decreases prefs.labelers.len() - i,
    {
        let p = (copy_string(&prefs.labelers[i].did), prefs.labelers[i].is_default_labeler);
        proof {
            lemma_pair_views_push(out@, p);
        }
        out.push(p);
        i = i + 1;
    }
    out
}

} // verus!
