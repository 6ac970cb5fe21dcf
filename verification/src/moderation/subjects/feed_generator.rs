//! Decisions about feed generators.
use vstd::prelude::*;
use super::super::decision::{DecisionView, ModerationDecision};
use super::super::types::SubjectFeedGenerator;
use super::super::Moderator;
use super::spec_decide_authored;

verus! {

/// The decision about a feed generator: its labels, then its creator's
/// account and profile.
pub open spec fn spec_decide_feed_generator(m: Moderator, subject: SubjectFeedGenerator) -> DecisionView {
    spec_decide_authored(m, subject.creator, subject.labels)
}

impl Moderator {
    /// The decision about a feed generator; see `spec_decide_feed_generator`.
    pub fn decide_feed_generator(&self, subject: &SubjectFeedGenerator) -> (r: ModerationDecision)
        ensures
            r@ == spec_decide_feed_generator(*self, *subject),
    {
        self.decide_authored(&subject.creator, &subject.labels)
    }
}

} // verus!
