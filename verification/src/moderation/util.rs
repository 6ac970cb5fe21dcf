//! Interpreting the label value definitions that labelers publish.
use vstd::prelude::*;
use super::types::{
    opt_str_view, spec_empty_behavior, AvatarBehavior, BannerBehavior, BehaviorValue,
    ContentListBehavior, ContentMediaBehavior, ContentViewBehavior, Error,
    InterpretedLabelValueDefinition, InterpretedLabelValueDefinitionBehaviors, LabelDefinitionView,
    LabelPreference, LabelValueDefinitionBlurs, LabelValueDefinitionFlag,
    LabelValueDefinitionSeverity, LabelValueDefinitionStrings, ModerationBehavior,
    ProfileListBehavior, ProfileViewBehavior,
};
use crate::text::copy_string;

verus! {

/// A label value definition as a labeler publishes it.
#[derive(Debug, Clone)]
pub struct LabelValueDefinition {
    pub identifier: String,
    pub blurs: String,
    pub severity: String,
    pub default_setting: Option<String>,
    pub adult_only: Option<bool>,
    pub locales: Vec<LabelValueDefinitionStrings>,
}

/// A labeler's service view: who runs it and the label values it defines.
#[derive(Debug, Clone)]
pub struct LabelerView {
    pub creator_did: String,
    pub label_value_definitions: Option<Vec<LabelValueDefinition>>,
}

/// The behavior value that a severity asks for on alerting contexts.
pub open spec fn spec_alert_or_inform(severity: LabelValueDefinitionSeverity) -> Option<BehaviorValue> {
    match severity {
        LabelValueDefinitionSeverity::Alert => Some(BehaviorValue::Alert),
        LabelValueDefinitionSeverity::Inform => Some(BehaviorValue::Inform),
        LabelValueDefinitionSeverity::NoSeverity => None,
    }
}

pub open spec fn as_profile_list(v: Option<BehaviorValue>) -> Option<ProfileListBehavior> {
    match v {
        Some(BehaviorValue::Blur) => Some(ProfileListBehavior::Blur),
        Some(BehaviorValue::Alert) => Some(ProfileListBehavior::Alert),
        Some(BehaviorValue::Inform) => Some(ProfileListBehavior::Inform),
        None => None,
    }
}

pub open spec fn as_profile_view(v: Option<BehaviorValue>) -> Option<ProfileViewBehavior> {
    match v {
        Some(BehaviorValue::Blur) => Some(ProfileViewBehavior::Blur),
        Some(BehaviorValue::Alert) => Some(ProfileViewBehavior::Alert),
        Some(BehaviorValue::Inform) => Some(ProfileViewBehavior::Inform),
        None => None,
    }
}

pub open spec fn as_content_list(v: Option<BehaviorValue>) -> Option<ContentListBehavior> {
    match v {
        Some(BehaviorValue::Blur) => Some(ContentListBehavior::Blur),
        Some(BehaviorValue::Alert) => Some(ContentListBehavior::Alert),
        Some(BehaviorValue::Inform) => Some(ContentListBehavior::Inform),
        None => None,
    }
}

pub open spec fn as_content_view(v: Option<BehaviorValue>) -> Option<ContentViewBehavior> {
    match v {
        Some(BehaviorValue::Blur) => Some(ContentViewBehavior::Blur),
        Some(BehaviorValue::Alert) => Some(ContentViewBehavior::Alert),
        Some(BehaviorValue::Inform) => Some(ContentViewBehavior::Inform),
        None => None,
    }
}

/// The behaviors a custom label value gets from its blurs setting, its
/// severity and whether it is adult only.
pub open spec fn spec_custom_behaviors(
    blurs: LabelValueDefinitionBlurs,
    severity: LabelValueDefinitionSeverity,
    adult_only: bool,
) -> InterpretedLabelValueDefinitionBehaviors {
    let aoi = spec_alert_or_inform(severity);
    let empty = spec_empty_behavior();
    match blurs {
        LabelValueDefinitionBlurs::Content => InterpretedLabelValueDefinitionBehaviors {
            account: ModerationBehavior {
                profile_list: as_profile_list(aoi),
                profile_view: as_profile_view(aoi),
                content_list: Some(ContentListBehavior::Blur),
                content_view: if adult_only { Some(ContentViewBehavior::Blur) } else { as_content_view(aoi) },
                ..empty
            },
            profile: ModerationBehavior {
                profile_list: as_profile_list(aoi),
                profile_view: as_profile_view(aoi),
                ..empty
            },
            content: ModerationBehavior {
                content_list: Some(ContentListBehavior::Blur),
                content_view: if adult_only { Some(ContentViewBehavior::Blur) } else { as_content_view(aoi) },
                ..empty
            },
        },
        LabelValueDefinitionBlurs::Media => InterpretedLabelValueDefinitionBehaviors {
            account: ModerationBehavior {
                profile_list: as_profile_list(aoi),
                profile_view: as_profile_view(aoi),
                avatar: Some(AvatarBehavior::Blur),
                banner: Some(BannerBehavior::Blur),
                ..empty
            },
            profile: ModerationBehavior {
                profile_list: as_profile_list(aoi),
                profile_view: as_profile_view(aoi),
                avatar: Some(AvatarBehavior::Blur),
                banner: Some(BannerBehavior::Blur),
                ..empty
            },
            content: ModerationBehavior { content_media: Some(ContentMediaBehavior::Blur), ..empty },
        },
        LabelValueDefinitionBlurs::NoBlur => InterpretedLabelValueDefinitionBehaviors {
            account: ModerationBehavior {
                profile_list: as_profile_list(aoi),
                profile_view: as_profile_view(aoi),
                content_list: as_content_list(aoi),
                content_view: as_content_view(aoi),
                ..empty
            },
            profile: ModerationBehavior {
                profile_list: as_profile_list(aoi),
                profile_view: as_profile_view(aoi),
                ..empty
            },
            content: ModerationBehavior {
                content_list: as_content_list(aoi),
                content_view: as_content_view(aoi),
                ..empty
            },
        },
    }
}

/// What interpreting a published definition gives: an error when its
/// blurs setting or its severity is not a known word, else the definition.
#[verifier::opaque]
pub open spec fn spec_interpret(def: LabelValueDefinition, defined_by: Option<String>) -> Result<
    LabelDefinitionView,
    Error,
> {
    let adult_only = match def.adult_only {
        Some(b) => b,
        None => false,
    };
    match LabelValueDefinitionBlurs::spec_parse(def.blurs@) {
        None => Err(Error::LabelValueDefinitionBlurs),
        Some(blurs) => match LabelValueDefinitionSeverity::spec_parse(def.severity@) {
            None => Err(Error::LabelValueDefinitionSeverity),
            Some(severity) => Ok(
                LabelDefinitionView {
                    adult_only,
                    blurs,
                    default_setting: match def.default_setting {
                        Some(s) => match LabelPreference::spec_parse(s@) {
                            Some(p) => p,
                            None => LabelPreference::Warn,
                        },
                        None => LabelPreference::Warn,
                    },
                    identifier: def.identifier@,
                    locales: def.locales@,
                    severity,
                    defined_by: opt_str_view(defined_by),
                    configurable: true,
                    flags: if adult_only {
                        seq![LabelValueDefinitionFlag::NoSelf, LabelValueDefinitionFlag::Adult]
                    } else {
                        seq![LabelValueDefinitionFlag::NoSelf]
                    },
                    behaviors: spec_custom_behaviors(blurs, severity, adult_only),
                },
            ),
        },
    }
}

fn profile_list_of(aoi: Option<BehaviorValue>) -> (r: Result<Option<ProfileListBehavior>, Error>)
    ensures
        r == Ok::<Option<ProfileListBehavior>, Error>(as_profile_list(aoi)),
{
    match aoi {
        Some(v) => match ProfileListBehavior::try_from(v) {
            Ok(b) => Ok(Some(b)),
            Err(e) => Err(e),
        },
        None => Ok(None),
    }
}

fn profile_view_of(aoi: Option<BehaviorValue>) -> (r: Result<Option<ProfileViewBehavior>, Error>)
    ensures
        r == Ok::<Option<ProfileViewBehavior>, Error>(as_profile_view(aoi)),
{
    match aoi {
        Some(v) => match ProfileViewBehavior::try_from(v) {
            Ok(b) => Ok(Some(b)),
            Err(e) => Err(e),
        },
        None => Ok(None),
    }
}

fn content_list_of(aoi: Option<BehaviorValue>) -> (r: Result<Option<ContentListBehavior>, Error>)
    ensures
        r == Ok::<Option<ContentListBehavior>, Error>(as_content_list(aoi)),
{
    match aoi {
        Some(v) => match ContentListBehavior::try_from(v) {
            Ok(b) => Ok(Some(b)),
            Err(e) => Err(e),
        },
        None => Ok(None),
    }
}

fn content_view_of(aoi: Option<BehaviorValue>) -> (r: Result<Option<ContentViewBehavior>, Error>)
    ensures
        r == Ok::<Option<ContentViewBehavior>, Error>(as_content_view(aoi)),
{
    match aoi {
        Some(v) => match ContentViewBehavior::try_from(v) {
            Ok(b) => Ok(Some(b)),
            Err(e) => Err(e),
        },
        None => Ok(None),
    }
}

/// Interprets a label value definition published by a labeler.
pub fn interpret_label_value_definition(
    def: &LabelValueDefinition,
    defined_by: Option<String>,
) -> (r: Result<InterpretedLabelValueDefinition, Error>)
    ensures
        spec_interpret(*def, defined_by) matches Ok(v) ==> (r matches Ok(d) && d@ == v),
        spec_interpret(*def, defined_by) matches Err(e) ==> r == Err::<
            InterpretedLabelValueDefinition,
            Error,
        >(e),
{
    reveal(spec_interpret);
    let adult_only = match def.adult_only {
        Some(b) => b,
        None => false,
    };
    let blurs = LabelValueDefinitionBlurs::from_str(def.blurs.as_str())?;
    let default_setting = match &def.default_setting {
        Some(s) => match LabelPreference::from_str(s.as_str()) {
            Ok(p) => p,
            Err(_) => LabelPreference::Warn,
        },
        None => LabelPreference::Warn,
    };
    let severity = LabelValueDefinitionSeverity::from_str(def.severity.as_str())?;
    let mut flags = vec![LabelValueDefinitionFlag::NoSelf];
    if adult_only {
        flags.push(LabelValueDefinitionFlag::Adult);
    }
    let aoi = match severity {
        LabelValueDefinitionSeverity::Alert => Some(BehaviorValue::Alert),
        LabelValueDefinitionSeverity::Inform => Some(BehaviorValue::Inform),
        LabelValueDefinitionSeverity::NoSeverity => None,
    };
    let mut behaviors = InterpretedLabelValueDefinitionBehaviors::empty();
    match blurs {
        LabelValueDefinitionBlurs::Content => {
            // target=account, blurs=content
            behaviors.account.profile_list = profile_list_of(aoi)?;
            behaviors.account.profile_view = profile_view_of(aoi)?;
            behaviors.account.content_list = Some(ContentListBehavior::Blur);
            behaviors.account.content_view = if adult_only {
                Some(ContentViewBehavior::Blur)
            } else {
                content_view_of(aoi)?
            };
            // target=profile, blurs=content
            behaviors.profile.profile_list = profile_list_of(aoi)?;
            behaviors.profile.profile_view = profile_view_of(aoi)?;
            // target=content, blurs=content
            behaviors.content.content_list = Some(ContentListBehavior::Blur);
            behaviors.content.content_view = if adult_only {
                Some(ContentViewBehavior::Blur)
            } else {
                content_view_of(aoi)?
            };
        },
        LabelValueDefinitionBlurs::Media => {
            // target=account, blurs=media
            behaviors.account.profile_list = profile_list_of(aoi)?;
            behaviors.account.profile_view = profile_view_of(aoi)?;
            behaviors.account.avatar = Some(AvatarBehavior::Blur);
            behaviors.account.banner = Some(BannerBehavior::Blur);
            // target=profile, blurs=media
            behaviors.profile.profile_list = profile_list_of(aoi)?;
            behaviors.profile.profile_view = profile_view_of(aoi)?;
            behaviors.profile.avatar = Some(AvatarBehavior::Blur);
            behaviors.profile.banner = Some(BannerBehavior::Blur);
            // target=content, blurs=media
            behaviors.content.content_media = Some(ContentMediaBehavior::Blur);
        },
        LabelValueDefinitionBlurs::NoBlur => {
            // target=account, blurs=none
            behaviors.account.profile_list = profile_list_of(aoi)?;
            behaviors.account.profile_view = profile_view_of(aoi)?;
            behaviors.account.content_list = content_list_of(aoi)?;
            behaviors.account.content_view = content_view_of(aoi)?;
            // target=profile, blurs=none
            behaviors.profile.profile_list = profile_list_of(aoi)?;
            behaviors.profile.profile_view = profile_view_of(aoi)?;
            // target=content, blurs=none
            behaviors.content.content_list = content_list_of(aoi)?;
            behaviors.content.content_view = content_view_of(aoi)?;
        },
    }
    let mut locales: Vec<LabelValueDefinitionStrings> = Vec::new();
    let mut i: usize = 0;
    while i < def.locales.len()
        invariant
            i <= def.locales.len(),
            locales@ == def.locales@.take(i as int),
        decreases def.locales.len() - i,
    {
        locales.push(def.locales[i].duplicate());
        i = i + 1;
        assert(locales@ =~= def.locales@.take(i as int));
    }
    assert(def.locales@.take(i as int) =~= def.locales@);
    let r = InterpretedLabelValueDefinition {
        adult_only,
        blurs,
        default_setting,
        identifier: copy_string(&def.identifier),
        locales,
        severity,
        defined_by,
        configurable: true,
        flags,
        behaviors,
    };
    assert(r.flags@ =~= spec_interpret(*def, defined_by).unwrap().flags);
    assert(r.behaviors == spec_interpret(*def, defined_by).unwrap().behaviors);
    Ok(r)
}

/// The definitions that a labeler view publishes.
pub open spec fn published_definitions(labeler_view: LabelerView) -> Seq<LabelValueDefinition> {
    match labeler_view.label_value_definitions {
        Some(v) => v@,
        None => Seq::empty(),
    }
}

/// Interprets every label value definition a labeler publishes; the first
/// definition that fails to interpret makes the whole an error.
pub fn interpret_label_value_definitions(labeler_view: &LabelerView) -> (r: Result<
    Vec<InterpretedLabelValueDefinition>,
    Error,
>)
    ensures
        r is Ok <==> (forall|i: int|
            0 <= i < published_definitions(*labeler_view).len() ==> spec_interpret(
                #[trigger] published_definitions(*labeler_view)[i],
                Some(labeler_view.creator_did),
            ) is Ok),
        r matches Ok(v) ==> v@.len() == published_definitions(*labeler_view).len() && forall|i: int|
            0 <= i < published_definitions(*labeler_view).len() ==> #[trigger] v@[i]@
                == spec_interpret(
                published_definitions(*labeler_view)[i],
                Some(labeler_view.creator_did),
            )->Ok_0,
        r is Err ==> exists|i: int|
            0 <= i < published_definitions(*labeler_view).len() && spec_interpret(
                published_definitions(*labeler_view)[i],
                Some(labeler_view.creator_did),
            ) is Err && r == Err::<
                Vec<InterpretedLabelValueDefinition>,
                Error,
            >(
                spec_interpret(
                    #[trigger] published_definitions(*labeler_view)[i],
                    Some(labeler_view.creator_did),
                )->Err_0,
            ) && forall|j: int|
                0 <= j < i ==> spec_interpret(
                    #[trigger] published_definitions(*labeler_view)[j],
                    Some(labeler_view.creator_did),
                ) is Ok,
{
    let mut out: Vec<InterpretedLabelValueDefinition> = Vec::new();
    match &labeler_view.label_value_definitions {
        None => {
            return Ok(out);
        },
        Some(defs) => {
            let ghost by = Some(labeler_view.creator_did);
            let ghost ds = published_definitions(*labeler_view);
            assert(ds == defs@);
            let mut i: usize = 0;
            while i < defs.len()
                invariant
                    i <= defs.len(),
                    out@.len() == i,
                    ds == defs@,
                    ds == published_definitions(*labeler_view),
                    by == Some(labeler_view.creator_did),
                    forall|j: int| 0 <= j < i ==> spec_interpret(#[trigger] ds[j], by) is Ok,
                    forall|j: int| 0 <= j < i ==> #[trigger] out@[j]@ == spec_interpret(ds[j], by)->Ok_0,
                decreases defs.len() - i,
            {
                let d = interpret_label_value_definition(
                    &defs[i],
                    Some(copy_string(&labeler_view.creator_did)),
                );
                match d {
                    Ok(v) => {
                        out.push(v);
                    },
                    Err(e) => {
                        proof {
                            assert(spec_interpret(ds[i as int], by)->Err_0 == e);
                            assert(spec_interpret(published_definitions(*labeler_view)[i as int], by) is Err);
                            assert(0 <= i < ds.len() && Err::<Vec<InterpretedLabelValueDefinition>, Error>(e) == Err::<Vec<InterpretedLabelValueDefinition>, Error>(spec_interpret(ds[i as int], by)->Err_0)
                                && forall|j: int| 0 <= j < i ==> spec_interpret(#[trigger] ds[j], by) is Ok);
                        }
                        return Err(e);
                    },
                }
                i = i + 1;
            }
            Ok(out)
        },
    }
}

} // verus!
