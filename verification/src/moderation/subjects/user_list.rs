//! Decisions about lists.
use vstd::prelude::*;
use super::super::decision::{DecisionView, ModerationDecision};
use super::super::types::{LabelTarget, SubjectUserList};
use super::super::Moderator;
use super::{add_labels, filtered_label_causes, is_me, spec_decide_authored, spec_is_me, LabelFilter};
use crate::identity::{did_is_valid, is_valid_did};
use crate::text::{chars_of, starts_with, str_starts_with, string_of};

verus! {

/// Whether `k` is the first `/` in a text.
pub open spec fn is_first_slash(s: Seq<char>, k: int) -> bool {
    0 <= k < s.len() && s[k] == '/' && forall|j: int| 0 <= j < k ==> s[j] != '/'
}

/// The DID in a list's AT URI `at://<did>/...`: what stands between
/// `at://` and the next `/`, when that is a DID.
pub open spec fn list_uri_did(uri: Seq<char>) -> Option<Seq<char>> {
    if !starts_with(uri, "at://"@) {
        None
    } else {
        let rest = uri.skip(5);
        if exists|k: int| is_first_slash(rest, k) {
            let did = rest.take(choose|k: int| is_first_slash(rest, k));
            if is_valid_did(did) {
                Some(did)
            } else {
                None
            }
        } else {
            None
        }
    }
}

/// Finds the DID in a list's AT URI; see `list_uri_did`.
pub fn did_of_list_uri(uri: &str) -> (r: Option<String>)
    ensures
        match r {
            Some(d) => list_uri_did(uri@) == Some(d@),
            None => list_uri_did(uri@) is None,
        },
{
    if !str_starts_with(uri, "at://") {
        return None;
    }
    let cs = chars_of(uri);
    proof {
        reveal_strlit("at://");
    }
    let ghost rest = uri@.skip(5);
    let mut k: usize = 5;
    while k < cs.len() && cs[k] != '/'
        invariant
            cs@ == uri@,
            5 <= k <= cs@.len(),
            rest == uri@.skip(5),
            forall|j: int| 0 <= j < k - 5 ==> rest[j] != '/',
        decreases cs.len() - k,
    {
        k = k + 1;
    }
    if k == cs.len() {
        assert(!exists|q: int| is_first_slash(rest, q));
        return None;
    }
    assert(is_first_slash(rest, k - 5));
    proof {
        let c = choose|q: int| is_first_slash(rest, q);
        assert(c == k - 5) by {
            if c < k - 5 {
                assert(rest[c] != '/');
            } else if c > k - 5 {
                assert(rest[k - 5] != '/');
            }
        }
    }
    let mut d: Vec<char> = Vec::new();
    let mut i: usize = 5;
    while i < k
        invariant
            cs@ == uri@,
            5 <= i <= k < cs@.len(),
            d@ == cs@.subrange(5, i as int),
        decreases k - i,
    {
        d.push(cs[i]);
        i = i + 1;
        assert(d@ =~= cs@.subrange(5, i as int));
    }
    assert(d@ =~= rest.take(k - 5));
    let did = string_of(&d);
    if did_is_valid(did.as_str()) {
        Some(did)
    } else {
        None
    }
}

/// Whether a list can be decided about: a basic list view needs a DID in its URI.
pub open spec fn user_list_decidable(subject: SubjectUserList) -> bool {
    match subject {
        SubjectUserList::ListView { .. } => true,
        SubjectUserList::ListViewBasic { uri, .. } => list_uri_did(uri@) is Some,
    }
}

/// The decision about a list: for a full view, its labels and its
/// creator's account and profile; for a basic view, its labels, about the
/// DID in its URI.
pub open spec fn spec_decide_user_list(m: Moderator, subject: SubjectUserList) -> DecisionView {
    match subject {
        SubjectUserList::ListView { creator, labels } => spec_decide_authored(m, creator, labels),
        SubjectUserList::ListViewBasic { uri, labels } => {
            let did = list_uri_did(uri@)->Some_0;
            DecisionView {
                did: Some(did),
                is_me: spec_is_me(m, did),
                causes: filtered_label_causes(m, Some(did), LabelTarget::Content, labels, LabelFilter::All),
            }
        },
    }
}

impl Moderator {
    /// The decision about a list; see `spec_decide_user_list`.
    pub fn decide_user_list(&self, subject: &SubjectUserList) -> (r: ModerationDecision)
        requires
            user_list_decidable(*subject),
        ensures
            r@ == spec_decide_user_list(*self, *subject),
    {
        match subject {
            SubjectUserList::ListView { creator, labels } => self.decide_authored(creator, labels),
            SubjectUserList::ListViewBasic { uri, labels } => {
                let did = match did_of_list_uri(uri.as_str()) {
                    Some(d) => d,
                    None => {
                        return ModerationDecision::new();
                    },
                };
                let mut acc = ModerationDecision::new();
                let me = is_me(self, &did);
                acc.set_did(did);
                acc.set_is_me(me);
                add_labels(&mut acc, LabelTarget::Content, labels, LabelFilter::All, self);
                assert(acc@.causes =~= spec_decide_user_list(*self, *subject).causes);
                acc
            },
        }
    }
}

} // verus!
