//! Decisions about profiles.
use vstd::prelude::*;
use super::super::decision::{DecisionView, ModerationDecision};
use super::super::types::{LabelTarget, SubjectProfile};
use super::super::Moderator;
use super::{add_labels, filtered_label_causes, is_me, spec_is_me, LabelFilter};
use crate::text::copy_string;

verus! {

/// The decision about an account's profile: the labels on its profile record.
pub open spec fn spec_decide_profile(m: Moderator, subject: SubjectProfile) -> DecisionView {
    DecisionView {
        did: Some(subject.did@),
        is_me: spec_is_me(m, subject.did@),
        causes: filtered_label_causes(
            m,
            Some(subject.did@),
            LabelTarget::Profile,
            subject.labels,
            LabelFilter::Profile,
        ),
    }
}

impl Moderator {
    /// The decision about an account's profile; see `spec_decide_profile`.
    pub fn decide_profile(&self, subject: &SubjectProfile) -> (r: ModerationDecision)
        ensures
            r@ == spec_decide_profile(*self, *subject),
    {
        let mut acc = ModerationDecision::new();
        acc.set_did(copy_string(subject.did()));
        acc.set_is_me(is_me(self, subject.did()));
        add_labels(&mut acc, LabelTarget::Profile, subject.labels(), LabelFilter::Profile, self);
        assert(acc@.causes =~= spec_decide_profile(*self, *subject).causes);
        acc
    }
}

} // verus!
