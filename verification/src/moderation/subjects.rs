//! Moderation decisions for each kind of subject.
pub mod account;
pub mod feed_generator;
pub mod notification;
pub mod post;
pub mod profile;
pub mod user_list;

use vstd::prelude::*;
use super::decision::{
    lemma_merged_causes_empty, lemma_merged_causes_push, list_cause_other, spec_label_cause,
    user_cause_other, DecisionView, ModerationDecision,
};
use super::types::{CauseView, Label, LabelTarget, SubjectProfile, ViewerState};
use self::account::spec_decide_account;
use self::profile::spec_decide_profile;
use super::Moderator;
use crate::text::{copy_string, ends_with, lemma_filter_push, str_eq, str_ends_with};

verus! {

/// Whether the user is the account with the given DID.
pub open spec fn spec_is_me(m: Moderator, did: Seq<char>) -> bool {
    m.user_did matches Some(u) && u@ == did
}

/// Decides `spec_is_me`.
pub fn is_me(m: &Moderator, did: &String) -> (r: bool)
    ensures
        r == spec_is_me(*m, did@),
{
    match &m.user_did {
        Some(u) => str_eq(u.as_str(), did.as_str()),
        None => false,
    }
}

/// The labels of an optional list.
pub open spec fn opt_labels(labels: Option<Vec<Label>>) -> Seq<Label> {
    match labels {
        Some(v) => v@,
        None => Seq::empty(),
    }
}

/// Whether a label is on an account's profile record rather than on the account.
pub open spec fn on_profile_record(l: Label) -> bool {
    ends_with(l.uri@, "/app.bsky.actor.profile/self"@)
}

/// Which labels of a subject a decision reads.
#[derive(Debug, Clone, Copy, PartialEq, Eq, Structural)]
pub enum LabelFilter {
    /// Every label.
    All,
    /// The labels on the account: not on its profile record, except `!no-unauthenticated`.
    Account,
    /// The labels on the account's profile record.
    Profile,
}

/// Whether a filter keeps a label.
pub open spec fn label_kept(f: LabelFilter, l: Label) -> bool {
    match f {
        LabelFilter::All => true,
        LabelFilter::Account => !on_profile_record(l) || l.val@ == "!no-unauthenticated"@,
        LabelFilter::Profile => on_profile_record(l),
    }
}

/// A filter, as a predicate.
pub open spec fn kept_pred(f: LabelFilter) -> spec_fn(Label) -> bool {
    |l: Label| label_kept(f, l)
}

/// The causes that a list of labels adds, in order.
pub open spec fn label_causes(
    m: Moderator,
    did: Option<Seq<char>>,
    target: LabelTarget,
    labels: Seq<Label>,
) -> Seq<CauseView>
    decreases labels.len(),
{
    if labels.len() == 0 {
        Seq::empty()
    } else {
        let r = label_causes(m, did, target, labels.drop_last());
        match spec_label_cause(m, did, target, labels.last()) {
            Some(c) => r.push(c),
            None => r,
        }
    }
}

/// The causes that labels add are all label causes.
pub proof fn lemma_label_causes_are_labels(
    m: Moderator,
    did: Option<Seq<char>>,
    target: LabelTarget,
    labels: Seq<Label>,
)
    ensures
        forall|i: int|
            0 <= i < label_causes(m, did, target, labels).len() ==> (#[trigger] label_causes(
                m,
                did,
                target,
                labels,
            )[i]) is Label,
    decreases labels.len(),
{
    if labels.len() > 0 {
        lemma_label_causes_are_labels(m, did, target, labels.drop_last());
    }
}

/// The causes that the labels a filter keeps add.
pub open spec fn filtered_label_causes(
    m: Moderator,
    did: Option<Seq<char>>,
    target: LabelTarget,
    labels: Option<Vec<Label>>,
    f: LabelFilter,
) -> Seq<CauseView> {
    label_causes(m, did, target, opt_labels(labels).filter(kept_pred(f)))
}

/// Decides `label_kept`.
fn keeps(f: LabelFilter, l: &Label) -> (r: bool)
    ensures
        r == label_kept(f, *l),
{
    match f {
        LabelFilter::All => true,
        LabelFilter::Account => !str_ends_with(l.uri.as_str(), "/app.bsky.actor.profile/self")
            || str_eq(l.val.as_str(), "!no-unauthenticated"),
        LabelFilter::Profile => str_ends_with(l.uri.as_str(), "/app.bsky.actor.profile/self"),
    }
}

/// Adds the causes of the labels that a filter keeps.
pub fn add_labels(
    acc: &mut ModerationDecision,
    target: LabelTarget,
    labels: &Option<Vec<Label>>,
    f: LabelFilter,
    m: &Moderator,
)
    ensures
        final(acc)@.did == old(acc)@.did,
        final(acc)@.is_me == old(acc)@.is_me,
        final(acc)@.causes == old(acc)@.causes + filtered_label_causes(
            *m,
            old(acc)@.did,
            target,
            *labels,
            f,
        ),
{
    match labels {
        None => {
            assert(opt_labels(*labels).filter(kept_pred(f)) =~= Seq::<Label>::empty()) by {
                reveal(Seq::filter);
            }
            assert(acc@.causes + Seq::<CauseView>::empty() =~= acc@.causes);
        },
        Some(ls) => {
            let ghost base = acc@.causes;
            let ghost did = acc@.did;
            let ghost p = kept_pred(f);
            let mut i: usize = 0;
            assert(ls@.take(0) =~= Seq::<Label>::empty());
            assert(ls@.take(0).filter(p) =~= Seq::<Label>::empty()) by {
                reveal(Seq::filter);
            }
            assert(base + label_causes(*m, did, target, ls@.take(0).filter(p)) =~= base);
            while i < ls.len()
                invariant
                    i <= ls@.len(),
                    p == kept_pred(f),
                    acc@.did == did,
                    acc@.is_me == old(acc)@.is_me,
                    did == old(acc)@.did,
                    base == old(acc)@.causes,
                    acc@.causes == base + label_causes(*m, did, target, ls@.take(i as int).filter(p)),
                decreases ls.len() - i,
            {
                let ghost before = ls@.take(i as int).filter(p);
                proof {
                    assert(ls@.take(i + 1) =~= ls@.take(i as int).push(ls@[i as int]));
                    lemma_filter_push(ls@.take(i as int), ls@[i as int], p);
                }
                if keeps(f, &ls[i]) {
                    acc.add_label(target, &ls[i], m);
                    proof {
                        let after = before.push(ls@[i as int]);
                        assert(after.drop_last() =~= before);
                        match spec_label_cause(*m, did, target, ls@[i as int]) {
                            Some(c) => {
                                assert(base + label_causes(*m, did, target, before).push(c) =~= (
                                base + label_causes(*m, did, target, before)).push(c));
                            },
                            None => {},
                        }
                    }
                }
                i = i + 1;
            }
            assert(ls@.take(i as int) =~= ls@);
        },
    }
}

/// The causes that the viewer's relationship to an account adds: a mute
/// (through a list, if any), a block (through a list, if any), and being
/// blocked by the account.
pub open spec fn viewer_causes(viewer: Option<ViewerState>) -> Seq<CauseView> {
    match viewer {
        None => Seq::empty(),
        Some(v) => {
            let muted = if v.muted == Some(true) {
                seq![
                    CauseView::Muted(
                        match v.muted_by_list {
                            Some(l) => list_cause_other(l),
                            None => user_cause_other(),
                        },
                    ),
                ]
            } else {
                Seq::empty()
            };
            let blocking = if v.blocking is Some {
                seq![
                    CauseView::Blocking(
                        match v.blocking_by_list {
                            Some(l) => list_cause_other(l),
                            None => user_cause_other(),
                        },
                    ),
                ]
            } else {
                Seq::empty()
            };
            let blocked_by = if v.blocked_by == Some(true) {
                seq![CauseView::BlockedBy(user_cause_other())]
            } else {
                Seq::empty()
            };
            muted + blocking + blocked_by
        },
    }
}

/// Adds the causes of the viewer's relationship to an account.
pub fn add_viewer_causes(acc: &mut ModerationDecision, viewer: &Option<ViewerState>)
    ensures
        final(acc)@.did == old(acc)@.did,
        final(acc)@.is_me == old(acc)@.is_me,
        final(acc)@.causes == old(acc)@.causes + viewer_causes(*viewer),
{
    match viewer {
        None => {
            assert(acc@.causes + Seq::<CauseView>::empty() =~= acc@.causes);
        },
        Some(v) => {
            let ghost c0 = acc@.causes;
            if v.muted == Some(true) {
                match &v.muted_by_list {
                    Some(l) => acc.add_muted_by_list(l),
                    None => acc.add_muted(),
                }
            }
            let ghost c1 = acc@.causes;
            if v.blocking.is_some() {
                match &v.blocking_by_list {
                    Some(l) => acc.add_blocking_by_list(l),
                    None => acc.add_blocking(""),
                }
            }
            let ghost c2 = acc@.causes;
            if v.blocked_by == Some(true) {
                acc.add_blocked_by();
            }
            assert(acc@.causes =~= c0 + viewer_causes(*viewer));
        },
    }
}

/// The decision about something an account made (a quoted post, a
/// notification, a feed generator, a list): its labels, then its author's
/// account and profile.
pub open spec fn spec_decide_authored(
    m: Moderator,
    author: SubjectProfile,
    labels: Option<Vec<Label>>,
) -> DecisionView {
    DecisionView {
        did: Some(author.did@),
        is_me: spec_is_me(m, author.did@),
        causes: filtered_label_causes(m, Some(author.did@), LabelTarget::Content, labels, LabelFilter::All)
            + spec_decide_account(m, author).causes + spec_decide_profile(m, author).causes,
    }
}

impl Moderator {
    /// The decision about something an account made; see `spec_decide_authored`.
    pub fn decide_authored(&self, author: &SubjectProfile, labels: &Option<Vec<Label>>) -> (r:
        ModerationDecision)
        ensures
            r@ == spec_decide_authored(*self, *author, *labels),
    {
        let mut acc = ModerationDecision::new();
        acc.set_did(copy_string(&author.did));
        acc.set_is_me(is_me(self, &author.did));
        add_labels(&mut acc, LabelTarget::Content, labels, LabelFilter::All, self);
        let account = self.decide_account(&author);
        let profile = self.decide_profile(&author);
        let ghost (a0, a1, a2) = (acc, account, profile);
        let mut decisions: Vec<ModerationDecision> = Vec::new();
        decisions.push(acc);
        decisions.push(account);
        decisions.push(profile);
        proof {
            lemma_merged_causes_empty();
            lemma_merged_causes_push(Seq::empty(), a0);
            lemma_merged_causes_push(seq![a0], a1);
            lemma_merged_causes_push(seq![a0, a1], a2);
            assert(decisions@ =~= seq![a0, a1, a2]);
            assert(seq![a0].push(a1) =~= seq![a0, a1]);
            assert(seq![a0, a1].push(a2) =~= seq![a0, a1, a2]);
            assert(Seq::<ModerationDecision>::empty().push(a0) =~= seq![a0]);
            assert(Seq::<CauseView>::empty() + a0@.causes =~= a0@.causes);
        }
        ModerationDecision::merge(decisions.as_slice())
    }
}

} // verus!
