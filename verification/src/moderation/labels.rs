//! The label values that every client knows.
use vstd::prelude::*;
use super::types::{
    AvatarBehavior, BannerBehavior, ContentListBehavior, ContentMediaBehavior, ContentViewBehavior,
    DisplayNameBehavior, Error, InterpretedLabelValueDefinition, InterpretedLabelValueDefinitionBehaviors,
    LabelDefinitionView, LabelPreference, LabelValueDefinitionBlurs, LabelValueDefinitionFlag,
    LabelValueDefinitionSeverity, ModerationBehavior, ProfileListBehavior, ProfileViewBehavior,
};
use crate::text::str_eq;

verus! {

/// A label value with a definition of its own.
#[derive(Debug, Clone, Copy, PartialEq, Eq, Structural)]
pub enum KnownLabelValue {
    ReservedHide,
    ReservedWarn,
    ReservedNoUnauthenticated,
    Porn,
    Sexual,
    Nudity,
    GraphicMedia,
}

/// A behavior that blurs the given contexts and leaves the rest alone.
pub open spec fn blur_behavior(
    profile_list: bool,
    profile_view: bool,
    avatar: bool,
    banner: bool,
    display_name: bool,
    content_list: bool,
    content_view: bool,
    content_media: bool,
) -> ModerationBehavior {
    ModerationBehavior {
        profile_list: if profile_list { Some(ProfileListBehavior::Blur) } else { None },
        profile_view: if profile_view { Some(ProfileViewBehavior::Blur) } else { None },
        avatar: if avatar { Some(AvatarBehavior::Blur) } else { None },
        banner: if banner { Some(BannerBehavior::Blur) } else { None },
        display_name: if display_name { Some(DisplayNameBehavior::Blur) } else { None },
        content_list: if content_list { Some(ContentListBehavior::Blur) } else { None },
        content_view: if content_view { Some(ContentViewBehavior::Blur) } else { None },
        content_media: if content_media { Some(ContentMediaBehavior::Blur) } else { None },
    }
}

/// The behaviors of the media-blurring labels (`porn`, `sexual`, `nudity`, `graphic-media`).
pub open spec fn media_label_behaviors() -> InterpretedLabelValueDefinitionBehaviors {
    InterpretedLabelValueDefinitionBehaviors {
        account: blur_behavior(false, false, true, true, false, false, false, false),
        profile: blur_behavior(false, false, true, true, false, false, false, false),
        content: blur_behavior(false, false, false, false, false, false, false, true),
    }
}

impl KnownLabelValue {
    /// The label value that a word names.
    pub open spec fn spec_parse(s: Seq<char>) -> Option<KnownLabelValue> {
        if s == "!hide"@ {
            Some(KnownLabelValue::ReservedHide)
        } else if s == "!warn"@ {
            Some(KnownLabelValue::ReservedWarn)
        } else if s == "!no-unauthenticated"@ {
            Some(KnownLabelValue::ReservedNoUnauthenticated)
        } else if s == "porn"@ {
            Some(KnownLabelValue::Porn)
        } else if s == "sexual"@ {
            Some(KnownLabelValue::Sexual)
        } else if s == "nudity"@ {
            Some(KnownLabelValue::Nudity)
        } else if s == "graphic-media"@ {
            Some(KnownLabelValue::GraphicMedia)
        } else {
            None
        }
    }

    /// Parses a known label value; any other word is an error.
    pub fn from_str(s: &str) -> (r: Result<Self, Error>)
        ensures
            Self::spec_parse(s@) matches Some(k) ==> r == Ok::<Self, Error>(k),
            Self::spec_parse(s@) is None ==> r == Err::<Self, Error>(Error::KnownLabelValue),
    {
        if str_eq(s, "!hide") {
            Ok(KnownLabelValue::ReservedHide)
        } else if str_eq(s, "!warn") {
            Ok(KnownLabelValue::ReservedWarn)
        } else if str_eq(s, "!no-unauthenticated") {
            Ok(KnownLabelValue::ReservedNoUnauthenticated)
        } else if str_eq(s, "porn") {
            Ok(KnownLabelValue::Porn)
        } else if str_eq(s, "sexual") {
            Ok(KnownLabelValue::Sexual)
        } else if str_eq(s, "nudity") {
            Ok(KnownLabelValue::Nudity)
        } else if str_eq(s, "graphic-media") {
            Ok(KnownLabelValue::GraphicMedia)
        } else {
            Err(Error::KnownLabelValue)
        }
    }

    /// The definition that every client gives a known label value.
    pub open spec fn spec_definition(self) -> LabelDefinitionView {
        match self {
            KnownLabelValue::ReservedHide => LabelDefinitionView {
                adult_only: false,
                blurs: LabelValueDefinitionBlurs::Content,
                default_setting: LabelPreference::Hide,
                identifier: "!hide"@,
                locales: Seq::empty(),
                severity: LabelValueDefinitionSeverity::Alert,
                defined_by: None,
                configurable: false,
                flags: seq![LabelValueDefinitionFlag::NoOverride, LabelValueDefinitionFlag::NoSelf],
                behaviors: InterpretedLabelValueDefinitionBehaviors {
                    account: blur_behavior(true, true, true, true, true, true, true, false),
                    profile: blur_behavior(false, false, true, true, true, false, false, false),
                    content: blur_behavior(false, false, false, false, false, true, true, false),
                },
            },
            KnownLabelValue::ReservedWarn => LabelDefinitionView {
                adult_only: false,
                blurs: LabelValueDefinitionBlurs::Content,
                default_setting: LabelPreference::Warn,
                identifier: "!warn"@,
                locales: Seq::empty(),
                severity: LabelValueDefinitionSeverity::NoSeverity,
                defined_by: None,
                configurable: false,
                flags: seq![LabelValueDefinitionFlag::NoSelf],
                behaviors: InterpretedLabelValueDefinitionBehaviors {
                    account: blur_behavior(true, true, true, true, false, true, true, false),
                    profile: blur_behavior(false, false, true, true, true, false, false, false),
                    content: blur_behavior(false, false, false, false, false, true, true, false),
                },
            },
            KnownLabelValue::ReservedNoUnauthenticated => LabelDefinitionView {
                adult_only: false,
                blurs: LabelValueDefinitionBlurs::Content,
                default_setting: LabelPreference::Hide,
                identifier: "!no-unauthenticated"@,
                locales: Seq::empty(),
                severity: LabelValueDefinitionSeverity::NoSeverity,
                defined_by: None,
                configurable: false,
                flags: seq![LabelValueDefinitionFlag::NoOverride, LabelValueDefinitionFlag::Unauthed],
                behaviors: InterpretedLabelValueDefinitionBehaviors {
                    account: blur_behavior(true, true, true, true, true, true, true, false),
                    profile: blur_behavior(false, false, true, true, true, false, false, false),
                    content: blur_behavior(false, false, false, false, false, true, true, false),
                },
            },
            KnownLabelValue::Porn => LabelDefinitionView {
                adult_only: false,
                blurs: LabelValueDefinitionBlurs::Media,
                default_setting: LabelPreference::Hide,
                identifier: "porn"@,
                locales: Seq::empty(),
                severity: LabelValueDefinitionSeverity::NoSeverity,
                defined_by: None,
                configurable: true,
                flags: seq![LabelValueDefinitionFlag::Adult],
                behaviors: media_label_behaviors(),
            },
            KnownLabelValue::Sexual => LabelDefinitionView {
                adult_only: false,
                blurs: LabelValueDefinitionBlurs::Media,
                default_setting: LabelPreference::Warn,
                identifier: "sexual"@,
                locales: Seq::empty(),
                severity: LabelValueDefinitionSeverity::NoSeverity,
                defined_by: None,
                configurable: true,
                flags: seq![LabelValueDefinitionFlag::Adult],
                behaviors: media_label_behaviors(),
            },
            KnownLabelValue::Nudity => LabelDefinitionView {
                adult_only: false,
                blurs: LabelValueDefinitionBlurs::Media,
                default_setting: LabelPreference::Ignore,
                identifier: "nudity"@,
                locales: Seq::empty(),
                severity: LabelValueDefinitionSeverity::NoSeverity,
                defined_by: None,
                configurable: true,
                flags: Seq::empty(),
                behaviors: media_label_behaviors(),
            },
            KnownLabelValue::GraphicMedia => LabelDefinitionView {
                adult_only: false,
                blurs: LabelValueDefinitionBlurs::Media,
                default_setting: LabelPreference::Warn,
                identifier: "graphic-media"@,
                locales: Seq::empty(),
                severity: LabelValueDefinitionSeverity::NoSeverity,
                defined_by: None,
                configurable: true,
                flags: seq![LabelValueDefinitionFlag::Adult],
                behaviors: media_label_behaviors(),
            },
        }
    }

    /// The definition that every client gives this label value.
    pub fn definition(&self) -> (r: InterpretedLabelValueDefinition)
        ensures
            r@ == self.spec_definition(),
    {
        let blur_all_account = ModerationBehavior {
            profile_list: Some(ProfileListBehavior::Blur),
            profile_view: Some(ProfileViewBehavior::Blur),
            avatar: Some(AvatarBehavior::Blur),
            banner: Some(BannerBehavior::Blur),
            display_name: Some(DisplayNameBehavior::Blur),
            content_list: Some(ContentListBehavior::Blur),
            content_view: Some(ContentViewBehavior::Blur),
            content_media: None,
        };
        let blur_profile_media = ModerationBehavior {
            avatar: Some(AvatarBehavior::Blur),
            banner: Some(BannerBehavior::Blur),
            display_name: Some(DisplayNameBehavior::Blur),
            ..ModerationBehavior::empty()
        };
        let blur_content = ModerationBehavior {
            content_list: Some(ContentListBehavior::Blur),
            content_view: Some(ContentViewBehavior::Blur),
            ..ModerationBehavior::empty()
        };
        let blur_images = ModerationBehavior {
            avatar: Some(AvatarBehavior::Blur),
            banner: Some(BannerBehavior::Blur),
            ..ModerationBehavior::empty()
        };
        let media_behaviors = InterpretedLabelValueDefinitionBehaviors {
            account: blur_images,
            profile: blur_images,
            content: ModerationBehavior {
                content_media: Some(ContentMediaBehavior::Blur),
                ..ModerationBehavior::empty()
            },
        };
        let r = match self {
            KnownLabelValue::ReservedHide => InterpretedLabelValueDefinition {
                adult_only: false,
                blurs: LabelValueDefinitionBlurs::Content,
                default_setting: LabelPreference::Hide,
                identifier: String::from_str("!hide"),
                locales: Vec::new(),
                severity: LabelValueDefinitionSeverity::Alert,
                defined_by: None,
                configurable: false,
                flags: vec![LabelValueDefinitionFlag::NoOverride, LabelValueDefinitionFlag::NoSelf],
                behaviors: InterpretedLabelValueDefinitionBehaviors {
                    account: blur_all_account,
                    profile: blur_profile_media,
                    content: blur_content,
                },
            },
            KnownLabelValue::ReservedWarn => InterpretedLabelValueDefinition {
                adult_only: false,
                blurs: LabelValueDefinitionBlurs::Content,
                default_setting: LabelPreference::Warn,
                identifier: String::from_str("!warn"),
                locales: Vec::new(),
                severity: LabelValueDefinitionSeverity::NoSeverity,
                defined_by: None,
                configurable: false,
                flags: vec![LabelValueDefinitionFlag::NoSelf],
                behaviors: InterpretedLabelValueDefinitionBehaviors {
                    account: ModerationBehavior { display_name: None, ..blur_all_account },
                    profile: blur_profile_media,
                    content: blur_content,
                },
            },
            KnownLabelValue::ReservedNoUnauthenticated => InterpretedLabelValueDefinition {
                adult_only: false,
                blurs: LabelValueDefinitionBlurs::Content,
                default_setting: LabelPreference::Hide,
                identifier: String::from_str("!no-unauthenticated"),
                locales: Vec::new(),
                severity: LabelValueDefinitionSeverity::NoSeverity,
                defined_by: None,
                configurable: false,
                flags: vec![LabelValueDefinitionFlag::NoOverride, LabelValueDefinitionFlag::Unauthed],
                behaviors: InterpretedLabelValueDefinitionBehaviors {
                    account: blur_all_account,
                    profile: blur_profile_media,
                    content: blur_content,
                },
            },
            KnownLabelValue::Porn => InterpretedLabelValueDefinition {
                adult_only: false,
                blurs: LabelValueDefinitionBlurs::Media,
                default_setting: LabelPreference::Hide,
                identifier: String::from_str("porn"),
                locales: Vec::new(),
                severity: LabelValueDefinitionSeverity::NoSeverity,
                defined_by: None,
                configurable: true,
                flags: vec![LabelValueDefinitionFlag::Adult],
                behaviors: media_behaviors,
            },
            KnownLabelValue::Sexual => InterpretedLabelValueDefinition {
                adult_only: false,
                blurs: LabelValueDefinitionBlurs::Media,
                default_setting: LabelPreference::Warn,
                identifier: String::from_str("sexual"),
                locales: Vec::new(),
                severity: LabelValueDefinitionSeverity::NoSeverity,
                defined_by: None,
                configurable: true,
                flags: vec![LabelValueDefinitionFlag::Adult],
                behaviors: media_behaviors,
            },
            KnownLabelValue::Nudity => InterpretedLabelValueDefinition {
                adult_only: false,
                blurs: LabelValueDefinitionBlurs::Media,
                default_setting: LabelPreference::Ignore,
                identifier: String::from_str("nudity"),
                locales: Vec::new(),
                severity: LabelValueDefinitionSeverity::NoSeverity,
                defined_by: None,
                configurable: true,
                flags: Vec::new(),
                behaviors: media_behaviors,
            },
            KnownLabelValue::GraphicMedia => InterpretedLabelValueDefinition {
                adult_only: false,
                blurs: LabelValueDefinitionBlurs::Media,
                default_setting: LabelPreference::Warn,
                identifier: String::from_str("graphic-media"),
                locales: Vec::new(),
                severity: LabelValueDefinitionSeverity::NoSeverity,
                defined_by: None,
                configurable: true,
                flags: vec![LabelValueDefinitionFlag::Adult],
                behaviors: media_behaviors,
            },
        };
        assert(r.flags@ =~= self.spec_definition().flags);
        assert(r.locales@ =~= self.spec_definition().locales);
        r
    }
}

} // verus!
