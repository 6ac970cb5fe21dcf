//! Decisions about notifications.
use vstd::prelude::*;
use super::super::decision::{DecisionView, ModerationDecision};
use super::super::types::SubjectNotification;
use super::super::Moderator;
use super::spec_decide_authored;

verus! {

/// The decision about a notification: its labels, then its author's
/// account and profile.
pub open spec fn spec_decide_notification(m: Moderator, subject: SubjectNotification) -> DecisionView {
    spec_decide_authored(m, subject.author, subject.labels)
}

impl Moderator {
    /// The decision about a notification; see `spec_decide_notification`.
    pub fn decide_notification(&self, subject: &SubjectNotification) -> (r: ModerationDecision)
        ensures
            r@ == spec_decide_notification(*self, *subject),
    {
        self.decide_authored(&subject.author, &subject.labels)
    }
}

} // verus!
