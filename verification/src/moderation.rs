//! Moderation: interpreting labels, mutes and blocks into UI decisions.
pub mod decision;
pub mod labels;
pub mod mutewords;
pub mod subjects;
pub mod types;
pub mod ui;
pub mod util;

use vstd::prelude::*;
use crate::keyed::StringMap;
use self::decision::{lemma_merged_causes_empty, lemma_merged_causes_push, DecisionView, ModerationDecision};
use self::subjects::account::spec_decide_account;
use self::subjects::feed_generator::spec_decide_feed_generator;
use self::subjects::notification::spec_decide_notification;
use self::subjects::post::spec_decide_post;
use self::subjects::profile::spec_decide_profile;
use self::subjects::user_list::{spec_decide_user_list, user_list_decidable};
use self::util::{interpret_label_value_definitions, published_definitions, spec_interpret, LabelerView};
use self::types::{
    CauseView, Error, InterpretedLabelValueDefinition, LabelDefinitionView, LabelValueDefinitionFlag, ModerationPrefs, SubjectFeedGenerator,
    SubjectNotification, SubjectPost, SubjectProfile, SubjectUserList, Timestamp,
};

verus! {

/// The first error that interpreting a labeler's definitions meets, in order.
pub open spec fn first_definition_error(
    ds: Seq<util::LabelValueDefinition>,
    by: Option<String>,
) -> Option<Error>
    decreases ds.len(),
{
    if ds.len() == 0 {
        None
    } else {
        match spec_interpret(ds[0], by) {
            Err(e) => Some(e),
            Ok(_) => first_definition_error(ds.drop_first(), by),
        }
    }
}

/// The first error that interpreting the labelers' definitions meets, in order.
pub open spec fn first_labelers_error(views: Seq<LabelerView>) -> Option<Error>
    decreases views.len(),
{
    if views.len() == 0 {
        None
    } else {
        match first_definition_error(published_definitions(views[0]), Some(views[0].creator_did)) {
            Some(e) => Some(e),
            None => first_labelers_error(views.drop_first()),
        }
    }
}

/// The definitions a labeler publishes, interpreted.
pub open spec fn interpreted_definitions(view: LabelerView) -> Seq<LabelDefinitionView> {
    published_definitions(view).map_values(
        |d: util::LabelValueDefinition| spec_interpret(d, Some(view.creator_did))->Ok_0,
    )
}

/// The interpreted definitions of each labeler, by the labeler's DID; a
/// later view of the same labeler wins.
pub open spec fn definitions_by_labeler(views: Seq<LabelerView>) -> Map<Seq<char>, Seq<LabelDefinitionView>>
    decreases views.len(),
{
    if views.len() == 0 {
        Map::empty()
    } else {
        definitions_by_labeler(views.drop_last()).insert(
            views.last().creator_did@,
            interpreted_definitions(views.last()),
        )
    }
}

/// The views of a map of definition lists.
pub open spec fn definition_map_views(m: Map<Seq<char>, Vec<InterpretedLabelValueDefinition>>) -> Map<
    Seq<char>,
    Seq<LabelDefinitionView>,
> {
    Map::new(
        |k: Seq<char>| m.contains_key(k),
        |k: Seq<char>| m[k]@.map_values(|d: InterpretedLabelValueDefinition| d@),
    )
}

proof fn lemma_first_definition_error(ds: Seq<util::LabelValueDefinition>, by: Option<String>, i: int)
    requires
        0 <= i < ds.len(),
        spec_interpret(ds[i], by) is Err,
        forall|j: int| 0 <= j < i ==> spec_interpret(#[trigger] ds[j], by) is Ok,
    ensures
        first_definition_error(ds, by) == Some(spec_interpret(ds[i], by)->Err_0),
    decreases i,
{
    if i > 0 {
        assert forall|j: int| 0 <= j < i - 1 implies spec_interpret(#[trigger] ds.drop_first()[j], by) is Ok by {
            assert(ds.drop_first()[j] == ds[j + 1]);
        }
        lemma_first_definition_error(ds.drop_first(), by, i - 1);
    }
}

proof fn lemma_no_definition_error(ds: Seq<util::LabelValueDefinition>, by: Option<String>)
    requires
        forall|j: int| 0 <= j < ds.len() ==> spec_interpret(#[trigger] ds[j], by) is Ok,
    ensures
        first_definition_error(ds, by) is None,
    decreases ds.len(),
{
    if ds.len() > 0 {
        assert forall|j: int| 0 <= j < ds.len() - 1 implies spec_interpret(#[trigger] ds.drop_first()[j], by) is Ok by {
            assert(ds.drop_first()[j] == ds[j + 1]);
        }
        lemma_no_definition_error(ds.drop_first(), by);
    }
}

/// Everything that moderation decisions depend on: who the user is, their
/// preferences, and the label values each labeler defines (keyed by the
/// labeler's DID).
#[derive(Debug)]
pub struct Moderator {
    pub user_did: Option<String>,
    pub prefs: ModerationPrefs,
    pub label_defs: StringMap<Vec<InterpretedLabelValueDefinition>>,
}

impl Moderator {
    /// A moderator for the given user, preferences and label definitions.
    pub fn new(
        user_did: Option<String>,
        prefs: ModerationPrefs,
        label_defs: StringMap<Vec<InterpretedLabelValueDefinition>>,
    ) -> (r: Self)
        ensures
            r.user_did == user_did,
            r.prefs == prefs,
            r.label_defs == label_defs,
    {
        Moderator { user_did, prefs, label_defs }
    }

    /// A moderator for the given user and preferences, with the label
    /// value definitions that the given labelers publish. The first
    /// definition that does not interpret makes the whole an error.
    pub fn from_labeler_views(
        user_did: Option<String>,
        prefs: ModerationPrefs,
        views: &Vec<LabelerView>,
    ) -> (r: Result<Self, Error>)
        ensures
            first_labelers_error(views@) matches Some(e) ==> r == Err::<Self, Error>(e),
            first_labelers_error(views@) is None ==> (r matches Ok(m) && m.user_did == user_did
                && m.prefs == prefs && definition_map_views(m.label_defs@) == definitions_by_labeler(
                views@,
            )),
    {
        let mut label_defs: StringMap<Vec<InterpretedLabelValueDefinition>> = StringMap::new();
        let mut i: usize = 0;
        assert(views@.take(0) =~= Seq::<LabelerView>::empty());
        assert(definition_map_views(label_defs@) =~= definitions_by_labeler(views@.take(0)));
        assert(views@.skip(0) =~= views@);
        while i < views.len()
            invariant
                i <= views@.len(),
                definition_map_views(label_defs@) == definitions_by_labeler(views@.take(i as int)),
                first_labelers_error(views@) == first_labelers_error(views@.skip(i as int)),
            decreases views.len() - i,
        {
            let v = &views[i];
            assert(views@.skip(i as int)[0] == *v);
            assert(views@.skip(i as int).drop_first() =~= views@.skip(i + 1));
            match interpret_label_value_definitions(v) {
                Ok(defs) => {
                    proof {
                        lemma_no_definition_error(published_definitions(*v), Some(v.creator_did));
                        assert(defs@.map_values(|d: InterpretedLabelValueDefinition| d@) =~= interpreted_definitions(*v));
                        assert(views@.take(i + 1).drop_last() =~= views@.take(i as int));
                    }
                    let ghost before = label_defs@;
                    label_defs.insert(crate::text::copy_string(&v.creator_did), defs);
                    proof {
                        assert(definition_map_views(label_defs@) =~= definitions_by_labeler(views@.take(i + 1)));
                    }
                },
                Err(e) => {
                    proof {
                        let ds = published_definitions(*v);
                        let k = choose|k: int|
                            0 <= k < ds.len() && spec_interpret(ds[k], Some(v.creator_did)) is Err
                                && Err::<Vec<InterpretedLabelValueDefinition>, Error>(e)
                                == Err::<Vec<InterpretedLabelValueDefinition>, Error>(
                                spec_interpret(#[trigger] ds[k], Some(v.creator_did))->Err_0,
                            ) && forall|j: int|
                                0 <= j < k ==> spec_interpret(#[trigger] ds[j], Some(v.creator_did)) is Ok;
                        lemma_first_definition_error(ds, Some(v.creator_did), k);
                    }
                    return Err(e);
                },
            }
            i = i + 1;
        }
        assert(views@.take(i as int) =~= views@);
        Ok(Moderator { user_did, prefs, label_defs })
    }

    /// The decision about a profile: its account's causes, then its
    /// profile record's.
    pub fn moderate_profile(&self, profile: &SubjectProfile) -> (r: ModerationDecision)
        ensures
            r@ == (DecisionView {
                causes: spec_decide_account(*self, *profile).causes + spec_decide_profile(
                    *self,
                    *profile,
                ).causes,
                ..spec_decide_account(*self, *profile)
            }),
    {
        let account = self.decide_account(profile);
        let prof = self.decide_profile(profile);
        let ghost (a, p) = (account, prof);
        let mut decisions: Vec<ModerationDecision> = Vec::new();
        decisions.push(account);
        decisions.push(prof);
        proof {
            lemma_merged_causes_empty();
            lemma_merged_causes_push(Seq::empty(), a);
            lemma_merged_causes_push(seq![a], p);
            assert(Seq::<ModerationDecision>::empty().push(a) =~= seq![a]);
            assert(seq![a].push(p) =~= decisions@);
            assert(Seq::<CauseView>::empty() + a@.causes =~= a@.causes);
        }
        ModerationDecision::merge(decisions.as_slice())
    }

    /// The decision about a post, now by the system clock: `spec_decide_post`
    /// at some instant.
    pub fn moderate_post(&self, post: &SubjectPost) -> (r: ModerationDecision)
        ensures
            exists|t: Timestamp| r@ == spec_decide_post(*self, t, *post),
    {
        self.decide_post(post)
    }

    /// The decision about a notification.
    pub fn moderate_notification(&self, notification: &SubjectNotification) -> (r: ModerationDecision)
        ensures
            r@ == spec_decide_notification(*self, *notification),
    {
        self.decide_notification(notification)
    }

    /// The decision about a feed generator.
    pub fn moderate_feed_generator(&self, feed_generator: &SubjectFeedGenerator) -> (r:
        ModerationDecision)
        ensures
            r@ == spec_decide_feed_generator(*self, *feed_generator),
    {
        self.decide_feed_generator(feed_generator)
    }

    /// The decision about a list.
    pub fn moderate_user_list(&self, user_list: &SubjectUserList) -> (r: ModerationDecision)
        requires
            user_list_decidable(*user_list),
        ensures
            r@ == spec_decide_user_list(*self, *user_list),
    {
        self.decide_user_list(user_list)
    }
}

} // verus!
