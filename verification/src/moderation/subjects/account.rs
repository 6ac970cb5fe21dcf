//! Decisions about accounts.
use vstd::prelude::*;
use super::super::decision::{DecisionView, ModerationDecision};
use super::super::types::{LabelTarget, SubjectProfile};
use super::super::Moderator;
use super::{add_labels, add_viewer_causes, filtered_label_causes, is_me, spec_is_me, viewer_causes, LabelFilter};
use crate::text::copy_string;

verus! {

/// The decision about an account: the viewer's mutes and blocks, then the
/// labels on the account (those on its profile record are left to
/// `spec_decide_profile`, except `!no-unauthenticated`).
pub open spec fn spec_decide_account(m: Moderator, subject: SubjectProfile) -> DecisionView {
    DecisionView {
        did: Some(subject.did@),
        is_me: spec_is_me(m, subject.did@),
        causes: viewer_causes(subject.viewer) + filtered_label_causes(
            m,
            Some(subject.did@),
            LabelTarget::Account,
            subject.labels,
            LabelFilter::Account,
        ),
    }
}

impl Moderator {
    /// The decision about an account; see `spec_decide_account`.
    pub fn decide_account(&self, subject: &SubjectProfile) -> (r: ModerationDecision)
        ensures
            r@ == spec_decide_account(*self, *subject),
    {
        let mut acc = ModerationDecision::new();
        acc.set_did(copy_string(subject.did()));
        acc.set_is_me(is_me(self, subject.did()));
        add_viewer_causes(&mut acc, subject.viewer());
        add_labels(&mut acc, LabelTarget::Account, subject.labels(), LabelFilter::Account, self);
        assert(acc@.causes =~= spec_decide_account(*self, *subject).causes);
        acc
    }
}

} // verus!
