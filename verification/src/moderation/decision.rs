//! Moderation decisions: the causes that apply to a subject, and how they
//! turn into what the UI shows in each context.
use vstd::prelude::*;
use super::labels::KnownLabelValue;
use super::types::{
    CauseLabelView, CauseView, ContentListBehavior, ContentMediaBehavior, ContentViewBehavior,
    InterpretedLabelValueDefinition, Label, LabelDefinitionView, LabelPreference, LabelTarget,
    LabelValueDefinitionFlag, ListRef, ModerationBehavior, ModerationCause, ModerationCauseLabel,
    ModerationCauseOther, ModerationCauseSource, ModerationPrefs, ModerationPrefsLabeler, Priority,
    ProfileViewBehavior,
};
use super::Moderator;
use super::ui::{ModerationUi, UiView};
use super::types::{
    spec_block_behavior, spec_content_blur_behavior, spec_mute_behavior, BehaviorValue,
    DecisionContext,
};
use crate::text::{chars_of, copy_string, lemma_filter_push, str_eq};

verus! {

/// The views of a list of causes.
pub open spec fn cause_views(causes: Seq<ModerationCause>) -> Seq<CauseView> {
    causes.map_values(|c: ModerationCause| c@)
}

/// Viewing a list with one more cause views that cause at the end.
pub proof fn lemma_cause_views_push(s: Seq<ModerationCause>, c: ModerationCause)
    ensures
        cause_views(s.push(c)) == cause_views(s).push(c@),
{
    assert(cause_views(s.push(c)) =~= cause_views(s).push(c@));
}

/// The view of a prefix one longer is the view of the prefix with one more cause.
pub proof fn lemma_cause_views_take(s: Seq<ModerationCause>, i: int)
    requires
        0 <= i < s.len(),
    ensures
        cause_views(s.take(i + 1)) == cause_views(s.take(i)).push(s[i]@),
{
    assert(s.take(i + 1) =~= s.take(i).push(s[i]));
    lemma_cause_views_push(s.take(i), s[i]);
}

/// The causes that apply to one subject, with the subject's DID and
/// whether the subject is the user.
#[derive(Debug)]
pub struct ModerationDecision {
    pub did: Option<String>,
    pub is_me: bool,
    pub causes: Vec<ModerationCause>,
}

/// The mathematical value of a `ModerationDecision`.
pub struct DecisionView {
    pub did: Option<Seq<char>>,
    pub is_me: bool,
    pub causes: Seq<CauseView>,
}

impl View for ModerationDecision {
    type V = DecisionView;

    open spec fn view(&self) -> DecisionView {
        DecisionView {
            did: match self.did {
                Some(d) => Some(d@),
                None => None,
            },
            is_me: self.is_me,
            causes: cause_views(self.causes@),
        }
    }
}

/// The causes of a list of decisions, one decision after the other.
pub open spec fn merged_causes(decisions: Seq<ModerationDecision>) -> Seq<CauseView>
    decreases decisions.len(),
{
    if decisions.len() == 0 {
        Seq::empty()
    } else {
        merged_causes(decisions.drop_last()) + decisions.last()@.causes
    }
}

/// Merging one more decision appends its causes.
pub proof fn lemma_merged_causes_push(ds: Seq<ModerationDecision>, d: ModerationDecision)
    ensures
        merged_causes(ds.push(d)) == merged_causes(ds) + d@.causes,
{
    assert(ds.push(d).drop_last() =~= ds);
}

/// Merging no decisions gives no causes.
pub proof fn lemma_merged_causes_empty()
    ensures
        merged_causes(Seq::<ModerationDecision>::empty()) == Seq::<CauseView>::empty(),
{
}

/// A cause of the given kind, from the user, not downgraded.
pub open spec fn user_cause_other() -> ModerationCauseOther {
    ModerationCauseOther { source: ModerationCauseSource::User, downgraded: false }
}

/// A cause from a list, not downgraded.
pub open spec fn list_cause_other(list: ListRef) -> ModerationCauseOther {
    ModerationCauseOther { source: ModerationCauseSource::List(list), downgraded: false }
}

fn user_other() -> (r: ModerationCauseOther)
    ensures
        r == user_cause_other(),
{
    ModerationCauseOther { source: ModerationCauseSource::User, downgraded: false }
}

fn list_other(list: &ListRef) -> (r: ModerationCauseOther)
    ensures
        r == list_cause_other(*list),
{
    ModerationCauseOther { source: ModerationCauseSource::List(list.duplicate()), downgraded: false }
}

/// How strongly a behavior hides its subject.
#[derive(Debug, Clone, Copy, PartialEq, Eq, Structural)]
pub enum ModerationBehaviorSeverity {
    High,
    Medium,
    Low,
}

/// Blurring the profile view or content view is high; blurring the content
/// list or media is medium; anything else is low.
pub open spec fn spec_severity(b: ModerationBehavior) -> ModerationBehaviorSeverity {
    if b.profile_view == Some(ProfileViewBehavior::Blur) || b.content_view == Some(
        ContentViewBehavior::Blur,
    ) {
        ModerationBehaviorSeverity::High
    } else if b.content_list == Some(ContentListBehavior::Blur) || b.content_media == Some(
        ContentMediaBehavior::Blur,
    ) {
        ModerationBehaviorSeverity::Medium
    } else {
        ModerationBehaviorSeverity::Low
    }
}

/// A lowercase ASCII letter or `-`.
pub open spec fn is_lower_or_dash(c: char) -> bool {
    ('a' <= c && c <= 'z') || c == '-'
}

/// Whether a label value can name a custom label value: lowercase ASCII
/// letters and `-` only.
pub open spec fn custom_label_value(s: Seq<char>) -> bool {
    forall|i: int| 0 <= i < s.len() ==> is_lower_or_dash(#[trigger] s[i])
}

/// The first definition with the given identifier.
pub open spec fn first_def_named(defs: Seq<InterpretedLabelValueDefinition>, val: Seq<char>) -> Option<
    LabelDefinitionView,
>
    decreases defs.len(),
{
    if defs.len() == 0 {
        None
    } else if defs[0].identifier@ == val {
        Some(defs[0]@)
    } else {
        first_def_named(defs.drop_first(), val)
    }
}

/// The definition of a label's value: the labeler's own definition of it
/// when the value can be custom and the labeler defines it, else the
/// definition of a known value, else none.
pub open spec fn spec_lookup_label_def(m: Moderator, label: Label) -> Option<LabelDefinitionView> {
    let custom = if custom_label_value(label.val@) && m.label_defs@.contains_key(label.src@) {
        first_def_named(m.label_defs@[label.src@]@, label.val@)
    } else {
        None
    };
    match custom {
        Some(d) => Some(d),
        None => match KnownLabelValue::spec_parse(label.val@) {
            Some(k) => Some(k.spec_definition()),
            None => None,
        },
    }
}

/// The first labeler in the preferences with the given DID.
pub open spec fn first_labeler(labelers: Seq<ModerationPrefsLabeler>, did: Seq<char>) -> Option<
    ModerationPrefsLabeler,
>
    decreases labelers.len(),
{
    if labelers.len() == 0 {
        None
    } else if labelers[0].did@ == did {
        Some(labelers[0])
    } else {
        first_labeler(labelers.drop_first(), did)
    }
}

/// The preference a label is interpreted under: `hide` for an adult label
/// when adult content is off; else the user's setting for the value at
/// that labeler; else their global setting for the value; else the
/// definition's default.
pub open spec fn spec_label_pref(
    def: LabelDefinitionView,
    labeler: Option<ModerationPrefsLabeler>,
    prefs: ModerationPrefs,
) -> LabelPreference {
    if def.flags.contains(LabelValueDefinitionFlag::Adult) && !prefs.adult_content_enabled {
        LabelPreference::Hide
    } else {
        let at_labeler = match labeler {
            Some(l) => if l.labels@.contains_key(def.identifier) {
                Some(l.labels@[def.identifier])
            } else {
                None
            },
            None => None,
        };
        match at_labeler {
            Some(p) => p,
            None => if prefs.labels@.contains_key(def.identifier) {
                prefs.labels@[def.identifier]
            } else {
                def.default_setting
            },
        }
    }
}

/// The priority of a label cause: adult labels forced hidden and labels
/// that cannot be overridden first, then hidden labels, then by severity.
pub open spec fn spec_label_priority(
    no_override: bool,
    pref: LabelPreference,
    behavior: ModerationBehavior,
) -> Priority {
    if no_override {
        Priority::Priority1
    } else if pref == LabelPreference::Hide {
        Priority::Priority2
    } else {
        match spec_severity(behavior) {
            ModerationBehaviorSeverity::High => Priority::Priority5,
            ModerationBehaviorSeverity::Medium => Priority::Priority7,
            ModerationBehaviorSeverity::Low => Priority::Priority8,
        }
    }
}

/// The cause that a label on a subject adds, if any. A label is skipped
/// when its value has no definition; when it comes from a labeler the user
/// does not subscribe to (labels the subject put on itself are kept);
/// when it is a self-label whose definition forbids that; when the user
/// ignores it; and when it is meant for logged-out viewers only and the
/// user is logged in.
pub open spec fn spec_label_cause(
    m: Moderator,
    did: Option<Seq<char>>,
    target: LabelTarget,
    label: Label,
) -> Option<CauseView> {
    match spec_lookup_label_def(m, label) {
        None => None,
        Some(def) => {
            let is_self = did == Some(label.src@);
            let labeler = if is_self {
                None
            } else {
                first_labeler(m.prefs.labelers@, label.src@)
            };
            if !is_self && labeler is None {
                None
            } else if is_self && def.flags.contains(LabelValueDefinitionFlag::NoSelf) {
                None
            } else {
                let pref = spec_label_pref(def, labeler, m.prefs);
                if pref == LabelPreference::Ignore {
                    None
                } else if def.flags.contains(LabelValueDefinitionFlag::Unauthed)
                    && m.user_did is Some {
                    None
                } else {
                    let behavior = def.behaviors.spec_behavior_for(target);
                    let no_override = def.flags.contains(LabelValueDefinitionFlag::NoOverride) || (
                    def.flags.contains(LabelValueDefinitionFlag::Adult)
                        && !m.prefs.adult_content_enabled);
                    Some(
                        CauseView::Label(
                            CauseLabelView {
                                source: if is_self {
                                    ModerationCauseSource::User
                                } else {
                                    ModerationCauseSource::Labeler(label.src)
                                },
                                label,
                                label_def: def,
                                target,
                                setting: pref,
                                behavior,
                                no_override,
                                priority: spec_label_priority(no_override, pref, behavior),
                                downgraded: false,
                            },
                        ),
                    )
                }
            }
        },
    }
}

// what causes ask of the UI

/// Whether a cause removes its subject from the interface in a context.
/// Blocks and mutes filter lists unless the subject is the user; muted
/// words filter content lists unless the subject is the user; hidden
/// posts filter lists; labels set to `hide` filter the lists they target,
/// unless the subject is the user.
pub open spec fn cause_filters(c: CauseView, context: DecisionContext, is_me: bool) -> bool {
    let list = context == DecisionContext::ProfileList || context == DecisionContext::ContentList;
    match c {
        CauseView::Blocking(_) => !is_me && list,
        CauseView::BlockedBy(_) => !is_me && list,
        CauseView::BlockOther(_) => !is_me && list,
        CauseView::Muted(_) => !is_me && list,
        CauseView::MuteWord(_) => !is_me && context == DecisionContext::ContentList,
        CauseView::Hidden(_) => list,
        CauseView::Label(l) => {
            &&& l.setting == LabelPreference::Hide
            &&& !is_me
            &&& ((context == DecisionContext::ProfileList && l.target == LabelTarget::Account) || (
            context == DecisionContext::ContentList && (l.target == LabelTarget::Account
                || l.target == LabelTarget::Content)))
        },
    }
}

/// What a cause asks of a context besides filtering: nothing when it was
/// downgraded, nor for blocks, mutes and muted words on the user's own
/// subject; else what its behavior gives the context.
pub open spec fn cause_effect(c: CauseView, context: DecisionContext, is_me: bool) -> Option<
    BehaviorValue,
> {
    if c.downgraded() {
        None
    } else {
        match c {
            CauseView::Blocking(_) => if is_me {
                None
            } else {
                spec_block_behavior().spec_behavior_for(context)
            },
            CauseView::BlockedBy(_) => if is_me {
                None
            } else {
                spec_block_behavior().spec_behavior_for(context)
            },
            CauseView::BlockOther(_) => if is_me {
                None
            } else {
                spec_block_behavior().spec_behavior_for(context)
            },
            CauseView::Muted(_) => if is_me {
                None
            } else {
                spec_mute_behavior().spec_behavior_for(context)
            },
            CauseView::MuteWord(_) => if is_me {
                None
            } else {
                spec_content_blur_behavior().spec_behavior_for(context)
            },
            CauseView::Hidden(_) => spec_content_blur_behavior().spec_behavior_for(context),
            CauseView::Label(l) => l.behavior.spec_behavior_for(context),
        }
    }
}

/// Whether a cause forbids opening the cover: a block that blurs, or a
/// label that blurs and cannot be overridden, unless the subject is the user.
pub open spec fn cause_no_override(c: CauseView, context: DecisionContext, is_me: bool) -> bool {
    let blurs = cause_effect(c, context, is_me) == Some(BehaviorValue::Blur);
    match c {
        CauseView::Blocking(_) => blurs,
        CauseView::BlockedBy(_) => blurs,
        CauseView::BlockOther(_) => blurs,
        CauseView::Label(l) => blurs && l.no_override && !is_me,
        _ => false,
    }
}

/// The causes that filter in a context.
pub open spec fn filters_pred(context: DecisionContext, is_me: bool) -> spec_fn(CauseView) -> bool {
    |c: CauseView| cause_filters(c, context, is_me)
}

/// The causes whose effect in a context is the given value.
pub open spec fn effect_pred(context: DecisionContext, is_me: bool, v: BehaviorValue) -> spec_fn(
    CauseView,
) -> bool {
    |c: CauseView| cause_effect(c, context, is_me) == Some(v)
}

/// The causes that `keep` keeps and whose priority has the given rank.
pub open spec fn with_rank(keep: spec_fn(CauseView) -> bool, k: nat) -> spec_fn(CauseView) -> bool {
    |c: CauseView| keep(c) && c.priority().spec_rank() == k
}

/// The causes that `keep` keeps with a priority of rank at most `k`, by
/// rank and, within a rank, in their order in `s`.
pub open spec fn ranked_upto(s: Seq<CauseView>, keep: spec_fn(CauseView) -> bool, k: nat) -> Seq<
    CauseView,
>
    decreases k,
{
    if k == 0 {
        Seq::empty()
    } else {
        ranked_upto(s, keep, (k - 1) as nat) + s.filter(with_rank(keep, k))
    }
}

/// The causes that `keep` keeps, sorted by priority; causes of equal
/// priority keep their order.
pub open spec fn by_priority(s: Seq<CauseView>, keep: spec_fn(CauseView) -> bool) -> Seq<CauseView> {
    ranked_upto(s, keep, 8)
}

/// What a decision asks of the UI in a context.
pub open spec fn spec_ui(d: DecisionView, context: DecisionContext) -> UiView {
    UiView {
        no_override: exists|i: int|
            0 <= i < d.causes.len() && cause_no_override(#[trigger] d.causes[i], context, d.is_me),
        filters: by_priority(d.causes, filters_pred(context, d.is_me)),
        blurs: by_priority(d.causes, effect_pred(context, d.is_me, BehaviorValue::Blur)),
        alerts: d.causes.filter(effect_pred(context, d.is_me, BehaviorValue::Alert)),
        informs: d.causes.filter(effect_pred(context, d.is_me, BehaviorValue::Inform)),
    }
}

/// The lists of a `ModerationUi`.
#[derive(Clone, Copy, PartialEq, Eq, Structural)]
enum UiList {
    Filters,
    Blurs,
    Alerts,
    Informs,
}

spec fn list_pred(list: UiList, context: DecisionContext, is_me: bool) -> spec_fn(CauseView) -> bool {
    match list {
        UiList::Filters => filters_pred(context, is_me),
        UiList::Blurs => effect_pred(context, is_me, BehaviorValue::Blur),
        UiList::Alerts => effect_pred(context, is_me, BehaviorValue::Alert),
        UiList::Informs => effect_pred(context, is_me, BehaviorValue::Inform),
    }
}

/// The predicate of one pass: the list's causes of the given rank, or of
/// any rank for rank 0.
spec fn pass_pred(list: UiList, context: DecisionContext, is_me: bool, rank: nat) -> spec_fn(
    CauseView,
) -> bool {
    if rank == 0 {
        list_pred(list, context, is_me)
    } else {
        with_rank(list_pred(list, context, is_me), rank)
    }
}

/// Decides `cause_filters`.
fn filters_exec(c: &ModerationCause, context: DecisionContext, is_me: bool) -> (r: bool)
    ensures
        r == cause_filters(c@, context, is_me),
{
    let list = context == DecisionContext::ProfileList || context == DecisionContext::ContentList;
    match c {
        ModerationCause::Blocking(_) => !is_me && list,
        ModerationCause::BlockedBy(_) => !is_me && list,
        ModerationCause::BlockOther(_) => !is_me && list,
        ModerationCause::Muted(_) => !is_me && list,
        ModerationCause::MuteWord(_) => !is_me && context == DecisionContext::ContentList,
        ModerationCause::Hidden(_) => list,
        ModerationCause::Label(l) => {
            l.setting == LabelPreference::Hide && !is_me && ((context == DecisionContext::ProfileList
                && l.target == LabelTarget::Account) || (context == DecisionContext::ContentList && (
            l.target == LabelTarget::Account || l.target == LabelTarget::Content)))
        },
    }
}

/// Decides `cause_effect`.
fn effect_exec(c: &ModerationCause, context: DecisionContext, is_me: bool) -> (r: Option<
    BehaviorValue,
>)
    ensures
        r == cause_effect(c@, context, is_me),
{
    if c.downgraded() {
        return None;
    }
    match c {
        ModerationCause::Blocking(_) | ModerationCause::BlockedBy(_) | ModerationCause::BlockOther(
            _,
        ) => if is_me {
            None
        } else {
            ModerationBehavior::block_behavior().behavior_for(context)
        },
        ModerationCause::Muted(_) => if is_me {
            None
        } else {
            ModerationBehavior::mute_behavior().behavior_for(context)
        },
        ModerationCause::MuteWord(_) => if is_me {
            None
        } else {
            ModerationBehavior::content_blur_behavior().behavior_for(context)
        },
        ModerationCause::Hidden(_) => ModerationBehavior::content_blur_behavior().behavior_for(
            context,
        ),
        ModerationCause::Label(l) => l.behavior.behavior_for(context),
    }
}

/// Decides `cause_no_override`.
fn no_override_exec(c: &ModerationCause, context: DecisionContext, is_me: bool) -> (r: bool)
    ensures
        r == cause_no_override(c@, context, is_me),
{
    let blurs = effect_exec(c, context, is_me) == Some(BehaviorValue::Blur);
    match c {
        ModerationCause::Blocking(_) | ModerationCause::BlockedBy(_) | ModerationCause::BlockOther(
            _,
        ) => blurs,
        ModerationCause::Label(l) => blurs && l.no_override && !is_me,
        _ => false,
    }
}

/// Decides `pass_pred`.
fn pass_keeps(list: UiList, c: &ModerationCause, context: DecisionContext, is_me: bool, rank: u8) -> (r:
    bool)
    ensures
        r == (pass_pred(list, context, is_me, rank as nat))(c@),
{
    let kept = match list {
        UiList::Filters => filters_exec(c, context, is_me),
        UiList::Blurs => effect_exec(c, context, is_me) == Some(BehaviorValue::Blur),
        UiList::Alerts => effect_exec(c, context, is_me) == Some(BehaviorValue::Alert),
        UiList::Informs => effect_exec(c, context, is_me) == Some(BehaviorValue::Inform),
    };
    if rank == 0 {
        kept
    } else {
        kept && c.priority().rank() == rank
    }
}

/// Appends the causes that one pass keeps, in order.
fn collect_pass(
    causes: &Vec<ModerationCause>,
    list: UiList,
    context: DecisionContext,
    is_me: bool,
    rank: u8,
    out: &mut Vec<ModerationCause>,
)
    ensures
        cause_views(final(out)@) == cause_views(old(out)@) + cause_views(causes@).filter(
            pass_pred(list, context, is_me, rank as nat),
        ),
{
    let ghost p = pass_pred(list, context, is_me, rank as nat);
    let ghost base = cause_views(out@);
    let mut i: usize = 0;
    assert(cause_views(causes@.take(0)) =~= Seq::<CauseView>::empty());
    proof {
        reveal(Seq::filter);
    }
    assert(cause_views(out@) =~= base + cause_views(causes@.take(0)).filter(p));
    while i < causes.len()
        invariant
            i <= causes@.len(),
            p == pass_pred(list, context, is_me, rank as nat),
            cause_views(out@) == base + cause_views(causes@.take(i as int)).filter(p),
        decreases causes.len() - i,
    {
        proof {
            lemma_cause_views_take(causes@, i as int);
            lemma_filter_push(cause_views(causes@.take(i as int)), causes@[i as int]@, p);
        }
        if pass_keeps(list, &causes[i], context, is_me, rank) {
            let c = causes[i].duplicate();
            proof {
                lemma_cause_views_push(out@, c);
                assert(base + cause_views(causes@.take(i as int)).filter(p).push(c@) =~= (base
                    + cause_views(causes@.take(i as int)).filter(p)).push(c@));
            }
            out.push(c);
        }
        i = i + 1;
    }
    assert(causes@.take(i as int) =~= causes@);
}

/// Appends a list's causes sorted by priority.
fn collect_ranked(
    causes: &Vec<ModerationCause>,
    list: UiList,
    context: DecisionContext,
    is_me: bool,
) -> (r: Vec<ModerationCause>)
    ensures
        cause_views(r@) == by_priority(cause_views(causes@), list_pred(list, context, is_me)),
{
    let mut out: Vec<ModerationCause> = Vec::new();
    let mut k: u8 = 1;
    assert(cause_views(out@) =~= Seq::<CauseView>::empty());
    while k <= 8
        invariant
            1 <= k <= 9,
            cause_views(out@) == ranked_upto(
                cause_views(causes@),
                list_pred(list, context, is_me),
                (k - 1) as nat,
            ),
        decreases 9 - k,
    {
        collect_pass(causes, list, context, is_me, k, &mut out);
        k = k + 1;
    }
    out
}

/// The view of an optional definition.
pub open spec fn opt_def_view(d: Option<InterpretedLabelValueDefinition>) -> Option<LabelDefinitionView> {
    match d {
        Some(v) => Some(v@),
        None => None,
    }
}

/// Decides `custom_label_value`.
fn is_custom_label_value(s: &str) -> (r: bool)
    ensures
        r == custom_label_value(s@),
{
    let cs = chars_of(s);
    let mut i: usize = 0;
    while i < cs.len()
        invariant
            cs@ == s@,
            i <= cs.len(),
            forall|j: int| 0 <= j < i ==> is_lower_or_dash(#[trigger] cs@[j]),
        decreases cs.len() - i,
    {
        let c = cs[i];
        if !(('a' <= c && c <= 'z') || c == '-') {
            assert(!is_lower_or_dash(s@[i as int]));
            return false;
        }
        i = i + 1;
    }
    true
}

/// The first definition with the given identifier, copied.
fn find_def_named(defs: &Vec<InterpretedLabelValueDefinition>, val: &str) -> (r: Option<
    InterpretedLabelValueDefinition,
>)
    ensures
        opt_def_view(r) == first_def_named(defs@, val@),
{
    let mut i: usize = 0;
    assert(defs@.skip(0) =~= defs@);
    while i < defs.len()
        invariant
            i <= defs@.len(),
            first_def_named(defs@, val@) == first_def_named(defs@.skip(i as int), val@),
        decreases defs.len() - i,
    {
        assert(defs@.skip(i as int)[0] == defs@[i as int]);
        if str_eq(defs[i].identifier.as_str(), val) {
            return Some(defs[i].duplicate());
        }
        assert(defs@.skip(i as int).drop_first() =~= defs@.skip(i + 1));
        i = i + 1;
    }
    assert(defs@.skip(i as int).len() == 0);
    None
}

/// The index of the first labeler with the given DID.
fn find_labeler(labelers: &Vec<ModerationPrefsLabeler>, did: &str) -> (r: Option<usize>)
    ensures
        match r {
            Some(i) => i < labelers@.len() && first_labeler(labelers@, did@) == Some(
                labelers@[i as int],
            ),
            None => first_labeler(labelers@, did@) is None,
        },
{
    let mut i: usize = 0;
    assert(labelers@.skip(0) =~= labelers@);
    while i < labelers.len()
        invariant
            i <= labelers@.len(),
            first_labeler(labelers@, did@) == first_labeler(labelers@.skip(i as int), did@),
        decreases labelers.len() - i,
    {
        assert(labelers@.skip(i as int)[0] == labelers@[i as int]);
        if str_eq(labelers[i].did.as_str(), did) {
            return Some(i);
        }
        assert(labelers@.skip(i as int).drop_first() =~= labelers@.skip(i + 1));
        i = i + 1;
    }
    assert(labelers@.skip(i as int).len() == 0);
    None
}

impl ModerationDecision {
    /// The definition of a label's value; see `spec_lookup_label_def`.
    pub fn lookup_label_def(label: &Label, moderator: &Moderator) -> (r: Option<
        InterpretedLabelValueDefinition,
    >)
        ensures
            opt_def_view(r) == spec_lookup_label_def(*moderator, *label),
    {
        if is_custom_label_value(label.val.as_str()) {
            match moderator.label_defs.get(label.src.as_str()) {
                Some(defs) => {
                    match find_def_named(defs, label.val.as_str()) {
                        Some(d) => {
                            return Some(d);
                        },
                        None => {},
                    }
                },
                None => {},
            }
        }
        match KnownLabelValue::from_str(label.val.as_str()) {
            Ok(k) => Some(k.definition()),
            Err(_) => None,
        }
    }

    /// How strongly a behavior hides its subject.
    pub fn measure_moderation_behavior_severity(behavior: &ModerationBehavior) -> (r:
        ModerationBehaviorSeverity)
        ensures
            r == spec_severity(*behavior),
    {
        if behavior.profile_view == Some(ProfileViewBehavior::Blur) || behavior.content_view == Some(
            ContentViewBehavior::Blur,
        ) {
            return ModerationBehaviorSeverity::High;
        }
        if behavior.content_list == Some(ContentListBehavior::Blur) || behavior.content_media
            == Some(ContentMediaBehavior::Blur) {
            return ModerationBehaviorSeverity::Medium;
        }
        ModerationBehaviorSeverity::Low
    }

    /// Adds the cause that a label on the subject gives, if any; see
    /// `spec_label_cause`.
    pub fn add_label(&mut self, target: LabelTarget, label: &Label, moderator: &Moderator)
        ensures
            final(self)@.did == old(self)@.did,
            final(self)@.is_me == old(self)@.is_me,
            final(self)@.causes == match spec_label_cause(*moderator, old(self)@.did, target, *label) {
                Some(c) => old(self)@.causes.push(c),
                None => old(self)@.causes,
            },
    {
        let label_def = match Self::lookup_label_def(label, moderator) {
            Some(d) => d,
            None => {
                return;
            },
        };
        let is_self = match &self.did {
            Some(d) => str_eq(d.as_str(), label.src.as_str()),
            None => false,
        };
        let labeler = if is_self {
            None
        } else {
            find_labeler(&moderator.prefs.labelers, label.src.as_str())
        };
        if !is_self && labeler.is_none() {
            return;
        }
        if is_self && label_def.contains_flag(LabelValueDefinitionFlag::NoSelf) {
            return;
        }
        let forced_hide = label_def.contains_flag(LabelValueDefinitionFlag::Adult)
            && !moderator.prefs.adult_content_enabled;
        let mut label_pref = label_def.default_setting;
        if forced_hide {
            label_pref = LabelPreference::Hide;
        } else {
            let at_labeler = match labeler {
                Some(i) => moderator.prefs.labelers[i].labels.get(label_def.identifier.as_str()),
                None => None,
            };
            match at_labeler {
                Some(p) => {
                    label_pref = *p;
                },
                None => match moderator.prefs.labels.get(label_def.identifier.as_str()) {
                    Some(p) => {
                        label_pref = *p;
                    },
                    None => {},
                },
            }
        }
        if label_pref == LabelPreference::Ignore {
            return;
        }
        if label_def.contains_flag(LabelValueDefinitionFlag::Unauthed)
            && moderator.user_did.is_some() {
            return;
        }
        let behavior = label_def.behaviors.behavior_for(target);
        let severity = Self::measure_moderation_behavior_severity(&behavior);
        let no_override = label_def.contains_flag(LabelValueDefinitionFlag::NoOverride)
            || forced_hide;
        let priority = if no_override {
            Priority::Priority1
        } else if label_pref == LabelPreference::Hide {
            Priority::Priority2
        } else if severity == ModerationBehaviorSeverity::High {
            Priority::Priority5
        } else if severity == ModerationBehaviorSeverity::Medium {
            Priority::Priority7
        } else {
            Priority::Priority8
        };
        let source = if is_self {
            ModerationCauseSource::User
        } else {
            ModerationCauseSource::Labeler(copy_string(&label.src))
        };
        let cause = ModerationCauseLabel {
            source,
            label: label.duplicate(),
            label_def,
            target,
            setting: label_pref,
            behavior,
            no_override,
            priority,
            downgraded: false,
        };
        self.push_cause(ModerationCause::Label(cause));
    }

    /// What this decision asks of the UI in a context; see `spec_ui`.
    pub fn ui(&self, context: DecisionContext) -> (r: ModerationUi)
        ensures
            r@ == spec_ui(self@, context),
    {
        let mut no_override = false;
        let mut i: usize = 0;
        while i < self.causes.len()
            invariant
                i <= self.causes@.len(),
                no_override == exists|j: int|
                    0 <= j < i && cause_no_override(
                        #[trigger] cause_views(self.causes@)[j],
                        context,
                        self.is_me,
                    ),
            decreases self.causes.len() - i,
        {
            if no_override_exec(&self.causes[i], context, self.is_me) {
                no_override = true;
            }
            assert(cause_views(self.causes@)[i as int] == self.causes@[i as int]@);
            i = i + 1;
        }
        let filters = collect_ranked(&self.causes, UiList::Filters, context, self.is_me);
        let blurs = collect_ranked(&self.causes, UiList::Blurs, context, self.is_me);
        let mut alerts: Vec<ModerationCause> = Vec::new();
        collect_pass(&self.causes, UiList::Alerts, context, self.is_me, 0, &mut alerts);
        let mut informs: Vec<ModerationCause> = Vec::new();
        collect_pass(&self.causes, UiList::Informs, context, self.is_me, 0, &mut informs);
        proof {
            assert(cause_views(alerts@) =~= self@.causes.filter(
                effect_pred(context, self.is_me, BehaviorValue::Alert),
            ));
            assert(cause_views(informs@) =~= self@.causes.filter(
                effect_pred(context, self.is_me, BehaviorValue::Inform),
            ));
        }
        ModerationUi { no_override, filters, blurs, alerts, informs }
    }

    /// A decision about no one, with no causes.
    pub fn new() -> (r: Self)
        ensures
            r@.did is None,
            !r@.is_me,
            r@.causes == Seq::<CauseView>::empty(),
    {
        let r = ModerationDecision { did: None, is_me: false, causes: Vec::new() };
        assert(r@.causes =~= Seq::<CauseView>::empty());
        r
    }

    /// One decision holding the causes of all, in order; the subject and
    /// `is_me` are those of the first.
    pub fn merge(decisions: &[Self]) -> (r: Self)
        requires
            decisions@.len() > 0,
        ensures
            r@.did == decisions@[0]@.did,
            r@.is_me == decisions@[0]@.is_me,
            r@.causes == merged_causes(decisions@),
    {
        let mut causes: Vec<ModerationCause> = Vec::new();
        let mut i: usize = 0;
        while i < decisions.len()
            invariant
                i <= decisions@.len(),
                cause_views(causes@) == merged_causes(decisions@.take(i as int)),
            decreases decisions.len() - i,
        {
            let d = &decisions[i];
            let mut j: usize = 0;
            let ghost before = causes@;
            while j < d.causes.len()
                invariant
                    j <= d.causes@.len(),
                    cause_views(causes@) == cause_views(before) + cause_views(d.causes@.take(j as int)),
                decreases d.causes.len() - j,
            {
                let c = d.causes[j].duplicate();
                proof {
                    lemma_cause_views_push(causes@, c);
                    lemma_cause_views_take(d.causes@, j as int);
                    assert(cause_views(before) + cause_views(d.causes@.take(j as int)).push(c@)
                        =~= (cause_views(before) + cause_views(d.causes@.take(j as int))).push(c@));
                }
                causes.push(c);
                j = j + 1;
            }
            assert(d.causes@.take(j as int) =~= d.causes@);
            assert(decisions@.take(i + 1).drop_last() =~= decisions@.take(i as int));
            i = i + 1;
        }
        assert(decisions@.take(i as int) =~= decisions@);
        ModerationDecision {
            did: match &decisions[0].did {
                Some(d) => Some(copy_string(d)),
                None => None,
            },
            is_me: decisions[0].is_me,
            causes,
        }
    }

    /// Sets the subject's DID.
    pub fn set_did(&mut self, did: String)
        ensures
            final(self)@.did == Some(did@),
            final(self)@.is_me == old(self)@.is_me,
            final(self)@.causes == old(self)@.causes,
    {
        self.did = Some(did);
    }

    /// Sets whether the subject is the user.
    pub fn set_is_me(&mut self, is_me: bool)
        ensures
            final(self)@.did == old(self)@.did,
            final(self)@.is_me == is_me,
            final(self)@.causes == old(self)@.causes,
    {
        self.is_me = is_me;
    }

    /// Adds a cause at the end.
    fn push_cause(&mut self, c: ModerationCause)
        ensures
            final(self)@.did == old(self)@.did,
            final(self)@.is_me == old(self)@.is_me,
            final(self)@.causes == old(self)@.causes.push(c@),
    {
        self.causes.push(c);
        assert(cause_views(self.causes@) =~= cause_views(old(self).causes@).push(c@));
    }

    /// The user blocks the subject.
    pub fn add_blocking(&mut self, blocking: &str)
        ensures
            final(self)@.did == old(self)@.did,
            final(self)@.is_me == old(self)@.is_me,
            final(self)@.causes == old(self)@.causes.push(CauseView::Blocking(user_cause_other())),
    {
        self.push_cause(ModerationCause::Blocking(user_other()));
    }

    /// The user blocks the subject through a list.
    pub fn add_blocking_by_list(&mut self, list_view: &ListRef)
        ensures
            final(self)@.did == old(self)@.did,
            final(self)@.is_me == old(self)@.is_me,
            final(self)@.causes == old(self)@.causes.push(
                CauseView::Blocking(list_cause_other(*list_view)),
            ),
    {
        self.push_cause(ModerationCause::Blocking(list_other(list_view)));
    }

    /// The subject blocks the user.
    pub fn add_blocked_by(&mut self)
        ensures
            final(self)@.did == old(self)@.did,
            final(self)@.is_me == old(self)@.is_me,
            final(self)@.causes == old(self)@.causes.push(CauseView::BlockedBy(user_cause_other())),
    {
        self.push_cause(ModerationCause::BlockedBy(user_other()));
    }

    /// The user mutes the subject.
    pub fn add_muted(&mut self)
        ensures
            final(self)@.did == old(self)@.did,
            final(self)@.is_me == old(self)@.is_me,
            final(self)@.causes == old(self)@.causes.push(CauseView::Muted(user_cause_other())),
    {
        self.push_cause(ModerationCause::Muted(user_other()));
    }

    /// The user mutes the subject through a list.
    pub fn add_muted_by_list(&mut self, list_view: &ListRef)
        ensures
            final(self)@.did == old(self)@.did,
            final(self)@.is_me == old(self)@.is_me,
            final(self)@.causes == old(self)@.causes.push(CauseView::Muted(list_cause_other(*list_view))),
    {
        self.push_cause(ModerationCause::Muted(list_other(list_view)));
    }

    /// The subject holds a word the user muted.
    pub fn add_muted_word(&mut self)
        ensures
            final(self)@.did == old(self)@.did,
            final(self)@.is_me == old(self)@.is_me,
            final(self)@.causes == old(self)@.causes.push(CauseView::MuteWord(user_cause_other())),
    {
        self.push_cause(ModerationCause::MuteWord(user_other()));
    }

    /// The user hid the subject.
    pub fn add_hidden(&mut self)
        ensures
            final(self)@.did == old(self)@.did,
            final(self)@.is_me == old(self)@.is_me,
            final(self)@.causes == old(self)@.causes.push(CauseView::Hidden(user_cause_other())),
    {
        self.push_cause(ModerationCause::Hidden(user_other()));
    }

    /// Downgrades every cause: the causes still filter but no longer blur,
    /// alert or inform.
    pub fn downgrade(&mut self)
        ensures
            final(self)@.did == old(self)@.did,
            final(self)@.is_me == old(self)@.is_me,
            final(self)@.causes == old(self)@.causes.map_values(|c: CauseView| c.downgrade()),
    {
        let mut causes: Vec<ModerationCause> = Vec::new();
        std::mem::swap(&mut causes, &mut self.causes);
        let ghost orig = causes@;
        let mut out: Vec<ModerationCause> = Vec::new();
        let mut i: usize = 0;
        while i < causes.len()
            invariant
                i <= causes@.len(),
                causes@ == orig,
                cause_views(out@) == cause_views(orig.take(i as int)).map_values(
                    |c: CauseView| c.downgrade(),
                ),
            decreases causes.len() - i,
        {
            let mut c = causes[i].duplicate();
            c.downgrade();
            proof {
                lemma_cause_views_push(out@, c);
                lemma_cause_views_take(orig, i as int);
                let f = |c: CauseView| c.downgrade();
                assert(cause_views(orig.take(i as int)).push(orig[i as int]@).map_values(f)
                    =~= cause_views(orig.take(i as int)).map_values(f).push(orig[i as int]@.downgrade()));
            }
            out.push(c);
            i = i + 1;
        }
        assert(orig.take(i as int) =~= orig);
        self.causes = out;
    }
}


// properties of what decisions ask of the UI

/// Every element of a filtered list meets the filter.
proof fn lemma_filter_meets<A>(s: Seq<A>, p: spec_fn(A) -> bool, i: int)
    requires
        0 <= i < s.filter(p).len(),
    ensures
        p(s.filter(p)[i]),
{
    s.lemma_filter_pred(p, i);
}

/// The causes ranked up to `k` all have a rank of at most `k`, all meet
/// `keep`, and come in order of rank.
proof fn lemma_ranked_upto(s: Seq<CauseView>, keep: spec_fn(CauseView) -> bool, k: nat)
    ensures
        forall|i: int|
            0 <= i < ranked_upto(s, keep, k).len() ==> (#[trigger] ranked_upto(s, keep, k)[i]).priority().spec_rank() <= k
                && keep(ranked_upto(s, keep, k)[i]),
        forall|i: int, j: int|
            0 <= i < j < ranked_upto(s, keep, k).len() ==> (#[trigger] ranked_upto(s, keep, k)[i]).priority().spec_rank()
                <= (#[trigger] ranked_upto(s, keep, k)[j]).priority().spec_rank(),
    decreases k,
{
    if k > 0 {
        let prev = ranked_upto(s, keep, (k - 1) as nat);
        let this = s.filter(with_rank(keep, k));
        lemma_ranked_upto(s, keep, (k - 1) as nat);
        assert forall|i: int| 0 <= i < this.len() implies (#[trigger] this[i]).priority().spec_rank() == k && keep(this[i]) by {
            lemma_filter_meets(s, with_rank(keep, k), i);
        }
        let all = ranked_upto(s, keep, k);
        assert(all == prev + this);
        assert forall|i: int| 0 <= i < all.len() implies (#[trigger] all[i]).priority().spec_rank() <= k && keep(all[i]) by {
            if i >= prev.len() {
                assert(all[i] == this[i - prev.len()]);
            }
        }
        assert forall|i: int, j: int| 0 <= i < j < all.len() implies (#[trigger] all[i]).priority().spec_rank()
            <= (#[trigger] all[j]).priority().spec_rank() by {
            if j < prev.len() {
            } else if i < prev.len() {
                assert(all[j] == this[j - prev.len()]);
            } else {
                assert(all[i] == this[i - prev.len()]);
                assert(all[j] == this[j - prev.len()]);
            }
        }
    }
}

/// Filtering with a predicate that splits into two disjoint ones gives
/// the union of their filterings, counted as multisets.
proof fn lemma_filter_disjoint(
    s: Seq<CauseView>,
    p: spec_fn(CauseView) -> bool,
    q: spec_fn(CauseView) -> bool,
    r: spec_fn(CauseView) -> bool,
)
    requires
        forall|c: CauseView| #[trigger] r(c) == (p(c) || q(c)),
        forall|c: CauseView| !(#[trigger] p(c) && q(c)),
    ensures
        s.filter(r).to_multiset() == s.filter(p).to_multiset().add(s.filter(q).to_multiset()),
    decreases s.len(),
{
    broadcast use vstd::multiset::group_multiset_axioms;
    broadcast use vstd::seq_lib::group_to_multiset_ensures;
    reveal(Seq::filter);
    if s.len() == 0 {
        assert(s.filter(r).to_multiset().len() == 0);
        assert(s.filter(p).to_multiset().len() == 0);
        assert(s.filter(q).to_multiset().len() == 0);
        assert(s.filter(r).to_multiset() =~= s.filter(p).to_multiset().add(s.filter(q).to_multiset()));
    } else {
        let t = s.drop_last();
        let x = s.last();
        lemma_filter_disjoint(t, p, q, r);
        assert(s.filter(r) == if r(x) { t.filter(r).push(x) } else { t.filter(r) });
        assert(s.filter(p) == if p(x) { t.filter(p).push(x) } else { t.filter(p) });
        assert(s.filter(q) == if q(x) { t.filter(q).push(x) } else { t.filter(q) });
        if p(x) {
            assert(s.filter(r).to_multiset() =~= t.filter(r).to_multiset().insert(x));
            assert(s.filter(p).to_multiset() =~= t.filter(p).to_multiset().insert(x));
        } else if q(x) {
            assert(s.filter(r).to_multiset() =~= t.filter(r).to_multiset().insert(x));
            assert(s.filter(q).to_multiset() =~= t.filter(q).to_multiset().insert(x));
        }
        assert(s.filter(r).to_multiset() =~= s.filter(p).to_multiset().add(s.filter(q).to_multiset()));
    }
}

/// Filtering with a predicate that nothing meets gives nothing.
proof fn lemma_filter_none(s: Seq<CauseView>, p: spec_fn(CauseView) -> bool)
    requires
        forall|c: CauseView| !#[trigger] p(c),
    ensures
        s.filter(p) == Seq::<CauseView>::empty(),
    decreases s.len(),
{
    reveal(Seq::filter);
    if s.len() > 0 {
        lemma_filter_none(s.drop_last(), p);
    }
    assert(s.filter(p) =~= Seq::<CauseView>::empty());
}

/// The causes that `keep` keeps with a rank of at most `k`.
spec fn kept_upto(keep: spec_fn(CauseView) -> bool, k: nat) -> spec_fn(CauseView) -> bool {
    |c: CauseView| keep(c) && c.priority().spec_rank() <= k
}

proof fn lemma_ranked_upto_multiset(s: Seq<CauseView>, keep: spec_fn(CauseView) -> bool, k: nat)
    ensures
        ranked_upto(s, keep, k).to_multiset() == s.filter(kept_upto(keep, k)).to_multiset(),
    decreases k,
{
    broadcast use vstd::multiset::group_multiset_axioms;
    if k == 0 {
        lemma_filter_none(s, kept_upto(keep, 0));
        assert(ranked_upto(s, keep, 0).to_multiset() =~= s.filter(kept_upto(keep, k)).to_multiset());
    } else {
        lemma_ranked_upto_multiset(s, keep, (k - 1) as nat);
        lemma_filter_disjoint(s, kept_upto(keep, (k - 1) as nat), with_rank(keep, k), kept_upto(keep, k));
        vstd::seq_lib::lemma_multiset_commutative(
            ranked_upto(s, keep, (k - 1) as nat),
            s.filter(with_rank(keep, k)),
        );
    }
}

/// The causes that filter a subject, and those that blur it, are shown
/// by priority: lower ranks first.
pub proof fn lemma_ui_sorted_by_priority(d: DecisionView, context: DecisionContext)
    ensures
        forall|i: int, j: int|
            0 <= i < j < spec_ui(d, context).filters.len() ==> (#[trigger] spec_ui(d, context).filters[i]).priority().spec_rank()
                <= (#[trigger] spec_ui(d, context).filters[j]).priority().spec_rank(),
        forall|i: int, j: int|
            0 <= i < j < spec_ui(d, context).blurs.len() ==> (#[trigger] spec_ui(d, context).blurs[i]).priority().spec_rank()
                <= (#[trigger] spec_ui(d, context).blurs[j]).priority().spec_rank(),
{
    lemma_ranked_upto(d.causes, filters_pred(context, d.is_me), 8);
    lemma_ranked_upto(d.causes, effect_pred(context, d.is_me, BehaviorValue::Blur), 8);
}

/// The causes of a given priority rank.
pub open spec fn of_rank(k: nat) -> spec_fn(CauseView) -> bool {
    |c: CauseView| c.priority().spec_rank() == k
}

proof fn lemma_filter_filter(
    s: Seq<CauseView>,
    p: spec_fn(CauseView) -> bool,
    q: spec_fn(CauseView) -> bool,
    r: spec_fn(CauseView) -> bool,
)
    requires
        forall|c: CauseView| #[trigger] r(c) == (p(c) && q(c)),
    ensures
        s.filter(p).filter(q) == s.filter(r),
    decreases s.len(),
{
    reveal(Seq::filter);
    if s.len() > 0 {
        let x = s.last();
        lemma_filter_filter(s.drop_last(), p, q, r);
        assert(s.drop_last().push(x) =~= s);
        lemma_filter_push(s.drop_last(), x, p);
        lemma_filter_push(s.drop_last(), x, r);
        lemma_filter_push(s.drop_last().filter(p), x, q);
    } else {
        assert(s.filter(p).filter(q) =~= s.filter(r));
    }
}

proof fn lemma_ranked_upto_of_rank(s: Seq<CauseView>, keep: spec_fn(CauseView) -> bool, n: nat, k: nat)
    ensures
        ranked_upto(s, keep, n).filter(of_rank(k)) == if 1 <= k <= n {
            s.filter(with_rank(keep, k))
        } else {
            Seq::<CauseView>::empty()
        },
    decreases n,
{
    if n == 0 {
        reveal(Seq::filter);
        assert(Seq::<CauseView>::empty().filter(of_rank(k)) =~= Seq::<CauseView>::empty());
    } else {
        lemma_ranked_upto_of_rank(s, keep, (n - 1) as nat, k);
        let prev = ranked_upto(s, keep, (n - 1) as nat);
        let this = s.filter(with_rank(keep, n));
        assert(ranked_upto(s, keep, n) == prev + this);
        Seq::filter_distributes_over_add(prev, this, of_rank(k));
        assert((prev + this).filter(of_rank(k)) == prev.filter(of_rank(k)) + this.filter(of_rank(k)));
        if n == k {
            lemma_filter_filter(s, with_rank(keep, n), of_rank(k), with_rank(keep, n));
            assert(prev.filter(of_rank(k)) + this =~= this);
        } else {
            let none = |c: CauseView| with_rank(keep, n)(c) && of_rank(k)(c);
            lemma_filter_filter(s, with_rank(keep, n), of_rank(k), none);
            lemma_filter_none(s, none);
            assert(prev.filter(of_rank(k)) + Seq::<CauseView>::empty() =~= prev.filter(of_rank(k)));
        }
    }
}

/// Among the causes that filter, and among those that blur, causes of
/// the same priority keep the order they have in the decision: the
/// causes of each rank are exactly those of the decision, in order.
pub proof fn lemma_ui_ties_keep_their_order(d: DecisionView, context: DecisionContext, k: nat)
    requires
        1 <= k <= 8,
    ensures
        spec_ui(d, context).filters.filter(of_rank(k)) == d.causes.filter(
            with_rank(filters_pred(context, d.is_me), k),
        ),
        spec_ui(d, context).blurs.filter(of_rank(k)) == d.causes.filter(
            with_rank(effect_pred(context, d.is_me, BehaviorValue::Blur), k),
        ),
{
    lemma_ranked_upto_of_rank(d.causes, filters_pred(context, d.is_me), 8, k);
    lemma_ranked_upto_of_rank(d.causes, effect_pred(context, d.is_me, BehaviorValue::Blur), 8, k);
}

/// Sorting loses and adds nothing: the causes that filter a subject, and
/// those that blur it, are exactly the causes that filter, and that blur,
/// counted with multiplicity.
pub proof fn lemma_ui_keeps_every_cause(d: DecisionView, context: DecisionContext)
    ensures
        spec_ui(d, context).filters.to_multiset() == d.causes.filter(filters_pred(context, d.is_me)).to_multiset(),
        spec_ui(d, context).blurs.to_multiset() == d.causes.filter(
            effect_pred(context, d.is_me, BehaviorValue::Blur),
        ).to_multiset(),
{
    let fp = filters_pred(context, d.is_me);
    let bp = effect_pred(context, d.is_me, BehaviorValue::Blur);
    lemma_ranked_upto_multiset(d.causes, fp, 8);
    lemma_ranked_upto_multiset(d.causes, bp, 8);
    assert(kept_upto(fp, 8) =~= fp);
    assert(kept_upto(bp, 8) =~= bp);
}

/// A downgraded cause still filters where it did, but never blurs,
/// alerts or informs, and never forbids opening the cover.
pub proof fn lemma_downgraded_cause(c: CauseView, context: DecisionContext, is_me: bool)
    ensures
        cause_filters(c.downgrade(), context, is_me) == cause_filters(c, context, is_me),
        cause_effect(c.downgrade(), context, is_me) is None,
        !cause_no_override(c.downgrade(), context, is_me),
        c.downgrade().priority() == c.priority(),
{
}

/// What the UI is asked for the user's own subject: nothing forbids
/// opening the cover, only hidden posts filter, and blocks, mutes and
/// muted words neither blur, alert nor inform.
pub proof fn lemma_ui_for_own_subject(d: DecisionView, context: DecisionContext)
    requires
        d.is_me,
    ensures
        !spec_ui(d, context).no_override,
        forall|i: int| 0 <= i < spec_ui(d, context).filters.len() ==> (#[trigger] spec_ui(d, context).filters[i]) is Hidden,
        forall|i: int|
            0 <= i < spec_ui(d, context).blurs.len() ==> (#[trigger] spec_ui(d, context).blurs[i]) is Label
                || spec_ui(d, context).blurs[i] is Hidden,
        forall|i: int|
            0 <= i < spec_ui(d, context).alerts.len() ==> (#[trigger] spec_ui(d, context).alerts[i]) is Label
                || spec_ui(d, context).alerts[i] is Hidden,
        forall|i: int|
            0 <= i < spec_ui(d, context).informs.len() ==> (#[trigger] spec_ui(d, context).informs[i]) is Label
                || spec_ui(d, context).informs[i] is Hidden,
{
    let ui = spec_ui(d, context);
    lemma_ranked_upto(d.causes, filters_pred(context, d.is_me), 8);
    lemma_ranked_upto(d.causes, effect_pred(context, d.is_me, BehaviorValue::Blur), 8);
    assert forall|i: int| 0 <= i < ui.alerts.len() implies (#[trigger] ui.alerts[i]) is Label || ui.alerts[i] is Hidden by {
        lemma_filter_meets(d.causes, effect_pred(context, d.is_me, BehaviorValue::Alert), i);
    }
    assert forall|i: int| 0 <= i < ui.informs.len() implies (#[trigger] ui.informs[i]) is Label || ui.informs[i] is Hidden by {
        lemma_filter_meets(d.causes, effect_pred(context, d.is_me, BehaviorValue::Inform), i);
    }
    assert forall|i: int| 0 <= i < ui.blurs.len() implies (#[trigger] ui.blurs[i]) is Label || ui.blurs[i] is Hidden by {
        assert(effect_pred(context, d.is_me, BehaviorValue::Blur)(ui.blurs[i]));
    }
    assert forall|i: int| 0 <= i < ui.filters.len() implies (#[trigger] ui.filters[i]) is Hidden by {
        assert(filters_pred(context, d.is_me)(ui.filters[i]));
    }
}

/// No cause is in more than one of the lists of what blurs, alerts and
/// informs: each cause has one effect.
pub proof fn lemma_ui_effects_disjoint(d: DecisionView, context: DecisionContext)
    ensures
        forall|i: int, j: int|
            0 <= i < spec_ui(d, context).blurs.len() && 0 <= j < spec_ui(d, context).alerts.len() ==> #[trigger] spec_ui(
                d,
                context,
            ).blurs[i] != #[trigger] spec_ui(d, context).alerts[j],
        forall|i: int, j: int|
            0 <= i < spec_ui(d, context).blurs.len() && 0 <= j < spec_ui(d, context).informs.len() ==> #[trigger] spec_ui(
                d,
                context,
            ).blurs[i] != #[trigger] spec_ui(d, context).informs[j],
        forall|i: int, j: int|
            0 <= i < spec_ui(d, context).alerts.len() && 0 <= j < spec_ui(d, context).informs.len() ==> #[trigger] spec_ui(
                d,
                context,
            ).alerts[i] != #[trigger] spec_ui(d, context).informs[j],
{
    let ui = spec_ui(d, context);
    let bp = effect_pred(context, d.is_me, BehaviorValue::Blur);
    let ap = effect_pred(context, d.is_me, BehaviorValue::Alert);
    let ip = effect_pred(context, d.is_me, BehaviorValue::Inform);
    lemma_ranked_upto(d.causes, bp, 8);
    assert forall|i: int, j: int| 0 <= i < ui.blurs.len() && 0 <= j < ui.alerts.len() implies #[trigger] ui.blurs[i]
        != #[trigger] ui.alerts[j] by {
        lemma_filter_meets(d.causes, ap, j);
        assert(bp(ui.blurs[i]));
    }
    assert forall|i: int, j: int| 0 <= i < ui.blurs.len() && 0 <= j < ui.informs.len() implies #[trigger] ui.blurs[i]
        != #[trigger] ui.informs[j] by {
        lemma_filter_meets(d.causes, ip, j);
        assert(bp(ui.blurs[i]));
    }
    assert forall|i: int, j: int| 0 <= i < ui.alerts.len() && 0 <= j < ui.informs.len() implies #[trigger] ui.alerts[i]
        != #[trigger] ui.informs[j] by {
        lemma_filter_meets(d.causes, ip, j);
        lemma_filter_meets(d.causes, ap, i);
    }
}

/// Outside list contexts nothing is filtered out: content is only ever
/// removed from lists.
pub proof fn lemma_ui_filters_only_in_lists(d: DecisionView, context: DecisionContext)
    requires
        context != DecisionContext::ProfileList,
        context != DecisionContext::ContentList,
    ensures
        spec_ui(d, context).filters.len() == 0,
{
    let fs = spec_ui(d, context).filters;
    lemma_ranked_upto(d.causes, filters_pred(context, d.is_me), 8);
    if fs.len() > 0 {
        assert(filters_pred(context, d.is_me)(fs[0]));
    }
}

/// When every cause was downgraded, nothing blurs, alerts or informs, and
/// nothing forbids opening the cover: such causes can only filter.
pub proof fn lemma_ui_all_downgraded(d: DecisionView, context: DecisionContext)
    requires
        forall|i: int| 0 <= i < d.causes.len() ==> (#[trigger] d.causes[i]).downgraded(),
    ensures
        spec_ui(d, context).blurs.len() == 0,
        spec_ui(d, context).alerts.len() == 0,
        spec_ui(d, context).informs.len() == 0,
        !spec_ui(d, context).no_override,
{
    broadcast use vstd::seq_lib::to_multiset_len;
    let bp = effect_pred(context, d.is_me, BehaviorValue::Blur);
    let ap = effect_pred(context, d.is_me, BehaviorValue::Alert);
    let ip = effect_pred(context, d.is_me, BehaviorValue::Inform);
    d.causes.lemma_all_neg_filter_empty(bp);
    d.causes.lemma_all_neg_filter_empty(ap);
    d.causes.lemma_all_neg_filter_empty(ip);
    lemma_ui_keeps_every_cause(d, context);
    assert(spec_ui(d, context).blurs.to_multiset().len() == d.causes.filter(bp).to_multiset().len());
}

/// On the user's own subject, when no cause is a hidden post, nothing is
/// filtered out.
pub proof fn lemma_ui_own_subject_not_filtered(d: DecisionView, context: DecisionContext)
    requires
        d.is_me,
        forall|i: int| 0 <= i < d.causes.len() ==> !((#[trigger] d.causes[i]) is Hidden),
    ensures
        spec_ui(d, context).filters.len() == 0,
{
    broadcast use vstd::seq_lib::to_multiset_len;
    let fp = filters_pred(context, d.is_me);
    d.causes.lemma_all_neg_filter_empty(fp);
    lemma_ui_keeps_every_cause(d, context);
    assert(spec_ui(d, context).filters.to_multiset().len() == d.causes.filter(fp).to_multiset().len());
}

/// Downgraded causes are never among those that blur, alert or inform.
pub proof fn lemma_ui_ignores_downgraded(d: DecisionView, context: DecisionContext)
    ensures
        forall|i: int| 0 <= i < spec_ui(d, context).blurs.len() ==> !(#[trigger] spec_ui(d, context).blurs[i]).downgraded(),
        forall|i: int| 0 <= i < spec_ui(d, context).alerts.len() ==> !(#[trigger] spec_ui(d, context).alerts[i]).downgraded(),
        forall|i: int| 0 <= i < spec_ui(d, context).informs.len() ==> !(#[trigger] spec_ui(d, context).informs[i]).downgraded(),
{
    let ui = spec_ui(d, context);
    lemma_ranked_upto(d.causes, effect_pred(context, d.is_me, BehaviorValue::Blur), 8);
    assert forall|i: int| 0 <= i < ui.alerts.len() implies !(#[trigger] ui.alerts[i]).downgraded() by {
        lemma_filter_meets(d.causes, effect_pred(context, d.is_me, BehaviorValue::Alert), i);
    }
    assert forall|i: int| 0 <= i < ui.informs.len() implies !(#[trigger] ui.informs[i]).downgraded() by {
        lemma_filter_meets(d.causes, effect_pred(context, d.is_me, BehaviorValue::Inform), i);
    }
    assert forall|i: int| 0 <= i < ui.blurs.len() implies !(#[trigger] ui.blurs[i]).downgraded() by {
        assert(effect_pred(context, d.is_me, BehaviorValue::Blur)(ui.blurs[i]));
    }
}

// properties of label interpretation

/// A label value that is not made of lowercase letters and `-` (such as
/// `!hide`) cannot be redefined by a labeler: it means what every client
/// knows it to mean, if anything.
pub proof fn lemma_imperative_values_keep_their_meaning(m: Moderator, label: Label)
    requires
        !custom_label_value(label.val@),
    ensures
        spec_lookup_label_def(m, label) == match KnownLabelValue::spec_parse(label.val@) {
            Some(k) => Some(k.spec_definition()),
            None => None,
        },
{
}

/// With adult content off, an adult label that applies is hidden, cannot
/// be overridden, and comes first.
pub proof fn lemma_adult_labels_forced_hidden(
    m: Moderator,
    did: Option<Seq<char>>,
    target: LabelTarget,
    label: Label,
)
    requires
        !m.prefs.adult_content_enabled,
        spec_lookup_label_def(m, label) matches Some(def) && def.flags.contains(
            LabelValueDefinitionFlag::Adult,
        ),
        spec_label_cause(m, did, target, label) is Some,
    ensures
        spec_label_cause(m, did, target, label) matches Some(CauseView::Label(l)) && l.setting
            == LabelPreference::Hide && l.no_override && l.priority == Priority::Priority1,
{
}

/// A label from a labeler the user does not subscribe to adds nothing,
/// unless the subject put it on itself.
pub proof fn lemma_unsubscribed_labelers_ignored(
    m: Moderator,
    did: Option<Seq<char>>,
    target: LabelTarget,
    label: Label,
)
    requires
        did != Some(label.src@),
        first_labeler(m.prefs.labelers@, label.src@) is None,
    ensures
        spec_label_cause(m, did, target, label) is None,
{
}

/// A label that the user's settings resolve to `ignore` adds nothing.
pub proof fn lemma_ignored_labels_add_nothing(
    m: Moderator,
    did: Option<Seq<char>>,
    target: LabelTarget,
    label: Label,
)
    requires
        spec_lookup_label_def(m, label) matches Some(def) && spec_label_pref(
            def,
            if did == Some(label.src@) {
                None
            } else {
                first_labeler(m.prefs.labelers@, label.src@)
            },
            m.prefs,
        ) == LabelPreference::Ignore,
    ensures
        spec_label_cause(m, did, target, label) is None,
{
}

/// A label meant for logged-out viewers adds nothing for a logged-in user.
pub proof fn lemma_unauthed_labels_skip_logged_in(
    m: Moderator,
    did: Option<Seq<char>>,
    target: LabelTarget,
    label: Label,
)
    requires
        m.user_did is Some,
        spec_lookup_label_def(m, label) matches Some(def) && def.flags.contains(
            LabelValueDefinitionFlag::Unauthed,
        ),
    ensures
        spec_label_cause(m, did, target, label) is None,
{
}

} // verus!
