//! What a moderation decision asks of the UI in one context.
use vstd::prelude::*;
use super::types::{CauseView, ModerationCause};
use super::decision::cause_views;

verus! {

/// The causes behind each thing the UI should do in one context.
#[derive(Debug)]
pub struct ModerationUi {
    /// Whether the UI must not let the user open the cover.
    pub no_override: bool,
    /// Reasons to remove the content from the interface.
    pub filters: Vec<ModerationCause>,
    /// Reasons to put the content behind a cover.
    pub blurs: Vec<ModerationCause>,
    /// Reasons to put an alert on the content.
    pub alerts: Vec<ModerationCause>,
    /// Reasons to put an informational notice on the content.
    pub informs: Vec<ModerationCause>,
}

/// The mathematical value of a `ModerationUi`.
pub struct UiView {
    pub no_override: bool,
    pub filters: Seq<CauseView>,
    pub blurs: Seq<CauseView>,
    pub alerts: Seq<CauseView>,
    pub informs: Seq<CauseView>,
}

impl View for ModerationUi {
    type V = UiView;

    open spec fn view(&self) -> UiView {
        UiView {
            no_override: self.no_override,
            filters: cause_views(self.filters@),
            blurs: cause_views(self.blurs@),
            alerts: cause_views(self.alerts@),
            informs: cause_views(self.informs@),
        }
    }
}

impl ModerationUi {
    /// Should the content be removed from the interface?
    pub fn filter(&self) -> (r: bool)
        ensures
            r == (self@.filters.len() > 0),
    {
        self.filters.len() > 0
    }

    /// Should the content be put behind a cover?
    pub fn blur(&self) -> (r: bool)
        ensures
            r == (self@.blurs.len() > 0),
    {
        self.blurs.len() > 0
    }

    /// Should an alert be put on the content?
    pub fn alert(&self) -> (r: bool)
        ensures
            r == (self@.alerts.len() > 0),
    {
        self.alerts.len() > 0
    }

    /// Should an informational notice be put on the content?
    pub fn inform(&self) -> (r: bool)
        ensures
            r == (self@.informs.len() > 0),
    {
        self.informs.len() > 0
    }
}

} // verus!
