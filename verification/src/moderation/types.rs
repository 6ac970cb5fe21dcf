//! Moderation data types: behaviors, label definitions, subjects, causes
//! and preferences.
use vstd::prelude::*;
use crate::text::{str_eq, copy_string};
use crate::keyed::StringMap;
use crate::rich_text::facet::Facet;

verus! {

/// Errors of the moderation module.
#[derive(Debug, Clone, Copy, PartialEq, Eq, Structural)]
pub enum Error {
    LabelPreference,
    LabelValueDefinitionBlurs,
    LabelValueDefinitionSeverity,
    BehaviorValue,
    KnownLabelValue,
}

// behaviors

/// What a moderation behavior asks the UI to do in one context.
#[derive(Debug, Clone, Copy, PartialEq, Eq, Structural)]
pub enum BehaviorValue {
    Blur,
    Alert,
    Inform,
}

#[derive(Debug, Clone, Copy, PartialEq, Eq, Structural)]
pub enum ProfileListBehavior {
    Blur,
    Alert,
    Inform,
}

#[derive(Debug, Clone, Copy, PartialEq, Eq, Structural)]
pub enum ProfileViewBehavior {
    Blur,
    Alert,
    Inform,
}

#[derive(Debug, Clone, Copy, PartialEq, Eq, Structural)]
pub enum AvatarBehavior {
    Blur,
    Alert,
}

#[derive(Debug, Clone, Copy, PartialEq, Eq, Structural)]
pub enum BannerBehavior {
    Blur,
}

#[derive(Debug, Clone, Copy, PartialEq, Eq, Structural)]
pub enum DisplayNameBehavior {
    Blur,
}

#[derive(Debug, Clone, Copy, PartialEq, Eq, Structural)]
pub enum ContentListBehavior {
    Blur,
    Alert,
    Inform,
}

#[derive(Debug, Clone, Copy, PartialEq, Eq, Structural)]
pub enum ContentViewBehavior {
    Blur,
    Alert,
    Inform,
}

#[derive(Debug, Clone, Copy, PartialEq, Eq, Structural)]
pub enum ContentMediaBehavior {
    Blur,
}

impl ProfileListBehavior {
    pub open spec fn spec_value(self) -> BehaviorValue {
        match self {
            ProfileListBehavior::Blur => BehaviorValue::Blur,
            ProfileListBehavior::Alert => BehaviorValue::Alert,
            ProfileListBehavior::Inform => BehaviorValue::Inform,
        }
    }

    /// The behavior value this behavior stands for.
    pub fn value(self) -> (r: BehaviorValue)
        ensures
            r == self.spec_value(),
    {
        match self {
            ProfileListBehavior::Blur => BehaviorValue::Blur,
            ProfileListBehavior::Alert => BehaviorValue::Alert,
            ProfileListBehavior::Inform => BehaviorValue::Inform,
        }
    }

    /// The behavior for a value; every value has one.
    pub fn try_from(b: BehaviorValue) -> (r: Result<Self, Error>)
        ensures
            r matches Ok(v) && v.spec_value() == b,
    {
        match b {
            BehaviorValue::Blur => Ok(ProfileListBehavior::Blur),
            BehaviorValue::Alert => Ok(ProfileListBehavior::Alert),
            BehaviorValue::Inform => Ok(ProfileListBehavior::Inform),
        }
    }
}

impl ProfileViewBehavior {
    pub open spec fn spec_value(self) -> BehaviorValue {
        match self {
            ProfileViewBehavior::Blur => BehaviorValue::Blur,
            ProfileViewBehavior::Alert => BehaviorValue::Alert,
            ProfileViewBehavior::Inform => BehaviorValue::Inform,
        }
    }

    /// The behavior value this behavior stands for.
    pub fn value(self) -> (r: BehaviorValue)
        ensures
            r == self.spec_value(),
    {
        match self {
            ProfileViewBehavior::Blur => BehaviorValue::Blur,
            ProfileViewBehavior::Alert => BehaviorValue::Alert,
            ProfileViewBehavior::Inform => BehaviorValue::Inform,
        }
    }

    /// The behavior for a value; every value has one.
    pub fn try_from(b: BehaviorValue) -> (r: Result<Self, Error>)
        ensures
            r matches Ok(v) && v.spec_value() == b,
    {
        match b {
            BehaviorValue::Blur => Ok(ProfileViewBehavior::Blur),
            BehaviorValue::Alert => Ok(ProfileViewBehavior::Alert),
            BehaviorValue::Inform => Ok(ProfileViewBehavior::Inform),
        }
    }
}

impl AvatarBehavior {
    pub open spec fn spec_value(self) -> BehaviorValue {
        match self {
            AvatarBehavior::Blur => BehaviorValue::Blur,
            AvatarBehavior::Alert => BehaviorValue::Alert,
        }
    }

    /// The behavior value this behavior stands for.
    pub fn value(self) -> (r: BehaviorValue)
        ensures
            r == self.spec_value(),
    {
        match self {
            AvatarBehavior::Blur => BehaviorValue::Blur,
            AvatarBehavior::Alert => BehaviorValue::Alert,
        }
    }

    /// The avatar behavior for a value: there is none for `Inform`.
    pub fn try_from(b: BehaviorValue) -> (r: Result<Self, Error>)
        ensures
            b == BehaviorValue::Inform ==> r == Err::<Self, Error>(Error::BehaviorValue),
            b != BehaviorValue::Inform ==> (r matches Ok(v) && v.spec_value() == b),
    {
        match b {
            BehaviorValue::Blur => Ok(AvatarBehavior::Blur),
            BehaviorValue::Alert => Ok(AvatarBehavior::Alert),
            BehaviorValue::Inform => Err(Error::BehaviorValue),
        }
    }
}

impl BannerBehavior {
    pub open spec fn spec_value(self) -> BehaviorValue {
        BehaviorValue::Blur
    }

    /// The behavior value this behavior stands for.
    pub fn value(self) -> (r: BehaviorValue)
        ensures
            r == self.spec_value(),
    {
        BehaviorValue::Blur
    }

    /// The banner behavior for a value: only `Blur` has one.
    pub fn try_from(b: BehaviorValue) -> (r: Result<Self, Error>)
        ensures
            b == BehaviorValue::Blur ==> r == Ok::<Self, Error>(BannerBehavior::Blur),
            b != BehaviorValue::Blur ==> r == Err::<Self, Error>(Error::BehaviorValue),
    {
        match b {
            BehaviorValue::Blur => Ok(BannerBehavior::Blur),
            _ => Err(Error::BehaviorValue),
        }
    }
}

impl DisplayNameBehavior {
    pub open spec fn spec_value(self) -> BehaviorValue {
        BehaviorValue::Blur
    }

    /// The behavior value this behavior stands for.
    pub fn value(self) -> (r: BehaviorValue)
        ensures
            r == self.spec_value(),
    {
        BehaviorValue::Blur
    }

    /// The display-name behavior for a value: only `Blur` has one.
    pub fn try_from(b: BehaviorValue) -> (r: Result<Self, Error>)
        ensures
            b == BehaviorValue::Blur ==> r == Ok::<Self, Error>(DisplayNameBehavior::Blur),
            b != BehaviorValue::Blur ==> r == Err::<Self, Error>(Error::BehaviorValue),
    {
        match b {
            BehaviorValue::Blur => Ok(DisplayNameBehavior::Blur),
            _ => Err(Error::BehaviorValue),
        }
    }
}

impl ContentListBehavior {
    pub open spec fn spec_value(self) -> BehaviorValue {
        match self {
            ContentListBehavior::Blur => BehaviorValue::Blur,
            ContentListBehavior::Alert => BehaviorValue::Alert,
            ContentListBehavior::Inform => BehaviorValue::Inform,
        }
    }

    /// The behavior value this behavior stands for.
    pub fn value(self) -> (r: BehaviorValue)
        ensures
            r == self.spec_value(),
    {
        match self {
            ContentListBehavior::Blur => BehaviorValue::Blur,
            ContentListBehavior::Alert => BehaviorValue::Alert,
            ContentListBehavior::Inform => BehaviorValue::Inform,
        }
    }

    /// The behavior for a value; every value has one.
    pub fn try_from(b: BehaviorValue) -> (r: Result<Self, Error>)
        ensures
            r matches Ok(v) && v.spec_value() == b,
    {
        match b {
            BehaviorValue::Blur => Ok(ContentListBehavior::Blur),
            BehaviorValue::Alert => Ok(ContentListBehavior::Alert),
            BehaviorValue::Inform => Ok(ContentListBehavior::Inform),
        }
    }
}

impl ContentViewBehavior {
    pub open spec fn spec_value(self) -> BehaviorValue {
        match self {
            ContentViewBehavior::Blur => BehaviorValue::Blur,
            ContentViewBehavior::Alert => BehaviorValue::Alert,
            ContentViewBehavior::Inform => BehaviorValue::Inform,
        }
    }

    /// The behavior value this behavior stands for.
    pub fn value(self) -> (r: BehaviorValue)
        ensures
            r == self.spec_value(),
    {
        match self {
            ContentViewBehavior::Blur => BehaviorValue::Blur,
            ContentViewBehavior::Alert => BehaviorValue::Alert,
            ContentViewBehavior::Inform => BehaviorValue::Inform,
        }
    }

    /// The behavior for a value; every value has one.
    pub fn try_from(b: BehaviorValue) -> (r: Result<Self, Error>)
        ensures
            r matches Ok(v) && v.spec_value() == b,
    {
        match b {
            BehaviorValue::Blur => Ok(ContentViewBehavior::Blur),
            BehaviorValue::Alert => Ok(ContentViewBehavior::Alert),
            BehaviorValue::Inform => Ok(ContentViewBehavior::Inform),
        }
    }
}

impl ContentMediaBehavior {
    pub open spec fn spec_value(self) -> BehaviorValue {
        BehaviorValue::Blur
    }

    /// The behavior value this behavior stands for.
    pub fn value(self) -> (r: BehaviorValue)
        ensures
            r == self.spec_value(),
    {
        BehaviorValue::Blur
    }

    /// The content-media behavior for a value: only `Blur` has one.
    pub fn try_from(b: BehaviorValue) -> (r: Result<Self, Error>)
        ensures
            b == BehaviorValue::Blur ==> r == Ok::<Self, Error>(ContentMediaBehavior::Blur),
            b != BehaviorValue::Blur ==> r == Err::<Self, Error>(Error::BehaviorValue),
    {
        match b {
            BehaviorValue::Blur => Ok(ContentMediaBehavior::Blur),
            _ => Err(Error::BehaviorValue),
        }
    }
}

/// The places in a UI where a moderation decision can apply.
#[derive(Debug, Clone, Copy, PartialEq, Eq, Structural)]
pub enum DecisionContext {
    ProfileList,
    ProfileView,
    Avatar,
    Banner,
    DisplayName,
    ContentList,
    ContentView,
    ContentMedia,
}

impl DecisionContext {
    /// Every context, in declaration order.
    pub fn all() -> (r: [DecisionContext; 8])
        ensures
            r@ == seq![
                DecisionContext::ProfileList,
                DecisionContext::ProfileView,
                DecisionContext::Avatar,
                DecisionContext::Banner,
                DecisionContext::DisplayName,
                DecisionContext::ContentList,
                DecisionContext::ContentView,
                DecisionContext::ContentMedia,
            ],
    {
        [
            DecisionContext::ProfileList,
            DecisionContext::ProfileView,
            DecisionContext::Avatar,
            DecisionContext::Banner,
            DecisionContext::DisplayName,
            DecisionContext::ContentList,
            DecisionContext::ContentView,
            DecisionContext::ContentMedia,
        ]
    }
}

/// What a label asks of each context, if anything.
#[derive(Debug, Clone, Copy, PartialEq, Eq, Structural)]
pub struct ModerationBehavior {
    pub profile_list: Option<ProfileListBehavior>,
    pub profile_view: Option<ProfileViewBehavior>,
    pub avatar: Option<AvatarBehavior>,
    pub banner: Option<BannerBehavior>,
    pub display_name: Option<DisplayNameBehavior>,
    pub content_list: Option<ContentListBehavior>,
    pub content_view: Option<ContentViewBehavior>,
    pub content_media: Option<ContentMediaBehavior>,
}

/// The behavior that asks nothing of any context.
pub open spec fn spec_empty_behavior() -> ModerationBehavior {
    ModerationBehavior {
        profile_list: None,
        profile_view: None,
        avatar: None,
        banner: None,
        display_name: None,
        content_list: None,
        content_view: None,
        content_media: None,
    }
}

/// How a blocked (or blocking) account is shown.
pub open spec fn spec_block_behavior() -> ModerationBehavior {
    ModerationBehavior {
        profile_list: Some(ProfileListBehavior::Blur),
        profile_view: Some(ProfileViewBehavior::Alert),
        avatar: Some(AvatarBehavior::Blur),
        banner: Some(BannerBehavior::Blur),
        display_name: None,
        content_list: Some(ContentListBehavior::Blur),
        content_view: Some(ContentViewBehavior::Blur),
        content_media: None,
    }
}

/// How a muted account is shown.
pub open spec fn spec_mute_behavior() -> ModerationBehavior {
    ModerationBehavior {
        profile_list: Some(ProfileListBehavior::Inform),
        profile_view: Some(ProfileViewBehavior::Alert),
        avatar: None,
        banner: None,
        display_name: None,
        content_list: Some(ContentListBehavior::Blur),
        content_view: Some(ContentViewBehavior::Inform),
        content_media: None,
    }
}

/// How a post holding a muted word, or a hidden post, is shown.
pub open spec fn spec_content_blur_behavior() -> ModerationBehavior {
    ModerationBehavior {
        profile_list: None,
        profile_view: None,
        avatar: None,
        banner: None,
        display_name: None,
        content_list: Some(ContentListBehavior::Blur),
        content_view: Some(ContentViewBehavior::Blur),
        content_media: None,
    }
}

impl ModerationBehavior {
    /// The behavior that asks nothing of any context.
    pub fn empty() -> (r: Self)
        ensures
            r == spec_empty_behavior(),
    {
        ModerationBehavior {
            profile_list: None,
            profile_view: None,
            avatar: None,
            banner: None,
            display_name: None,
            content_list: None,
            content_view: None,
            content_media: None,
        }
    }

    /// How a blocked (or blocking) account is shown.
    pub fn block_behavior() -> (r: Self)
        ensures
            r == spec_block_behavior(),
    {
        ModerationBehavior {
            profile_list: Some(ProfileListBehavior::Blur),
            profile_view: Some(ProfileViewBehavior::Alert),
            avatar: Some(AvatarBehavior::Blur),
            banner: Some(BannerBehavior::Blur),
            display_name: None,
            content_list: Some(ContentListBehavior::Blur),
            content_view: Some(ContentViewBehavior::Blur),
            content_media: None,
        }
    }

    /// How a muted account is shown.
    pub fn mute_behavior() -> (r: Self)
        ensures
            r == spec_mute_behavior(),
    {
        ModerationBehavior {
            profile_list: Some(ProfileListBehavior::Inform),
            profile_view: Some(ProfileViewBehavior::Alert),
            avatar: None,
            banner: None,
            display_name: None,
            content_list: Some(ContentListBehavior::Blur),
            content_view: Some(ContentViewBehavior::Inform),
            content_media: None,
        }
    }

    /// How a post holding a muted word, or a hidden post, is shown.
    pub fn content_blur_behavior() -> (r: Self)
        ensures
            r == spec_content_blur_behavior(),
    {
        ModerationBehavior {
            profile_list: None,
            profile_view: None,
            avatar: None,
            banner: None,
            display_name: None,
            content_list: Some(ContentListBehavior::Blur),
            content_view: Some(ContentViewBehavior::Blur),
            content_media: None,
        }
    }

    /// The value this behavior gives a context, if any.
    pub open spec fn spec_behavior_for(self, context: DecisionContext) -> Option<BehaviorValue> {
        match context {
            DecisionContext::ProfileList => match self.profile_list {
                Some(b) => Some(b.spec_value()),
                None => None,
            },
            DecisionContext::ProfileView => match self.profile_view {
                Some(b) => Some(b.spec_value()),
                None => None,
            },
            DecisionContext::Avatar => match self.avatar {
                Some(b) => Some(b.spec_value()),
                None => None,
            },
            DecisionContext::Banner => match self.banner {
                Some(b) => Some(b.spec_value()),
                None => None,
            },
            DecisionContext::DisplayName => match self.display_name {
                Some(b) => Some(b.spec_value()),
                None => None,
            },
            DecisionContext::ContentList => match self.content_list {
                Some(b) => Some(b.spec_value()),
                None => None,
            },
            DecisionContext::ContentView => match self.content_view {
                Some(b) => Some(b.spec_value()),
                None => None,
            },
            DecisionContext::ContentMedia => match self.content_media {
                Some(b) => Some(b.spec_value()),
                None => None,
            },
        }
    }

    /// The value this behavior gives a context, if any.
    pub fn behavior_for(&self, context: DecisionContext) -> (r: Option<BehaviorValue>)
        ensures
            r == self.spec_behavior_for(context),
    {
        match context {
            DecisionContext::ProfileList => match self.profile_list {
                Some(b) => Some(b.value()),
                None => None,
            },
            DecisionContext::ProfileView => match self.profile_view {
                Some(b) => Some(b.value()),
                None => None,
            },
            DecisionContext::Avatar => match self.avatar {
                Some(b) => Some(b.value()),
                None => None,
            },
            DecisionContext::Banner => match self.banner {
                Some(b) => Some(b.value()),
                None => None,
            },
            DecisionContext::DisplayName => match self.display_name {
                Some(b) => Some(b.value()),
                None => None,
            },
            DecisionContext::ContentList => match self.content_list {
                Some(b) => Some(b.value()),
                None => None,
            },
            DecisionContext::ContentView => match self.content_view {
                Some(b) => Some(b.value()),
                None => None,
            },
            DecisionContext::ContentMedia => match self.content_media {
                Some(b) => Some(b.value()),
                None => None,
            },
        }
    }
}

// labels

/// What a label is attached to.
#[derive(Debug, Clone, Copy, PartialEq, Eq, Structural)]
pub enum LabelTarget {
    Account,
    Profile,
    Content,
}

/// What the user asked to do with a label.
#[derive(Debug, Clone, Copy, PartialEq, Eq, Structural)]
pub enum LabelPreference {
    Ignore,
    Warn,
    Hide,
}

#[derive(Debug, Clone, Copy, PartialEq, Eq, Structural)]
pub enum LabelValueDefinitionFlag {
    NoOverride,
    Adult,
    Unauthed,
    NoSelf,
}

#[derive(Debug, Clone, Copy, PartialEq, Eq, Structural)]
pub enum LabelValueDefinitionBlurs {
    Content,
    Media,
    /// Written `none`.
    NoBlur,
}

#[derive(Debug, Clone, Copy, PartialEq, Eq, Structural)]
pub enum LabelValueDefinitionSeverity {
    Inform,
    Alert,
    /// Written `none`.
    NoSeverity,
}


impl LabelPreference {
    /// The preference that a word names: `ignore`, `warn` or `hide`.
    pub open spec fn spec_parse(s: Seq<char>) -> Option<LabelPreference> {
        if s == "ignore"@ {
            Some(LabelPreference::Ignore)
        } else if s == "warn"@ {
            Some(LabelPreference::Warn)
        } else if s == "hide"@ {
            Some(LabelPreference::Hide)
        } else {
            None
        }
    }

    /// The word that names a preference.
    pub open spec fn spec_name(self) -> Seq<char> {
        match self {
            LabelPreference::Ignore => "ignore"@,
            LabelPreference::Warn => "warn"@,
            LabelPreference::Hide => "hide"@,
        }
    }

    /// Parses a preference; any other word is an error.
    pub fn from_str(s: &str) -> (r: Result<Self, Error>)
        ensures
            Self::spec_parse(s@) matches Some(p) ==> r == Ok::<Self, Error>(p),
            Self::spec_parse(s@) is None ==> r == Err::<Self, Error>(Error::LabelPreference),
    {
        if str_eq(s, "ignore") {
            Ok(LabelPreference::Ignore)
        } else if str_eq(s, "warn") {
            Ok(LabelPreference::Warn)
        } else if str_eq(s, "hide") {
            Ok(LabelPreference::Hide)
        } else {
            Err(Error::LabelPreference)
        }
    }

    /// The word that names this preference.
    pub fn as_str(&self) -> (r: &'static str)
        ensures
            r@ == self.spec_name(),
    {
        match self {
            LabelPreference::Ignore => "ignore",
            LabelPreference::Warn => "warn",
            LabelPreference::Hide => "hide",
        }
    }
}

impl LabelValueDefinitionBlurs {
    /// The blurs setting that a word names: `content`, `media` or `none`.
    pub open spec fn spec_parse(s: Seq<char>) -> Option<LabelValueDefinitionBlurs> {
        if s == "content"@ {
            Some(LabelValueDefinitionBlurs::Content)
        } else if s == "media"@ {
            Some(LabelValueDefinitionBlurs::Media)
        } else if s == "none"@ {
            Some(LabelValueDefinitionBlurs::NoBlur)
        } else {
            None
        }
    }

    /// The word that names a blurs setting.
    pub open spec fn spec_name(self) -> Seq<char> {
        match self {
            LabelValueDefinitionBlurs::Content => "content"@,
            LabelValueDefinitionBlurs::Media => "media"@,
            LabelValueDefinitionBlurs::NoBlur => "none"@,
        }
    }

    /// Parses a blurs setting; any other word is an error.
    pub fn from_str(s: &str) -> (r: Result<Self, Error>)
        ensures
            Self::spec_parse(s@) matches Some(p) ==> r == Ok::<Self, Error>(p),
            Self::spec_parse(s@) is None ==> r == Err::<Self, Error>(
                Error::LabelValueDefinitionBlurs,
            ),
    {
        if str_eq(s, "content") {
            Ok(LabelValueDefinitionBlurs::Content)
        } else if str_eq(s, "media") {
            Ok(LabelValueDefinitionBlurs::Media)
        } else if str_eq(s, "none") {
            Ok(LabelValueDefinitionBlurs::NoBlur)
        } else {
            Err(Error::LabelValueDefinitionBlurs)
        }
    }

    /// The word that names this setting.
    pub fn as_str(&self) -> (r: &'static str)
        ensures
            r@ == self.spec_name(),
    {
        match self {
            LabelValueDefinitionBlurs::Content => "content",
            LabelValueDefinitionBlurs::Media => "media",
            LabelValueDefinitionBlurs::NoBlur => "none",
        }
    }
}

impl LabelValueDefinitionSeverity {
    /// The severity that a word names: `inform`, `alert` or `none`.
    pub open spec fn spec_parse(s: Seq<char>) -> Option<LabelValueDefinitionSeverity> {
        if s == "inform"@ {
            Some(LabelValueDefinitionSeverity::Inform)
        } else if s == "alert"@ {
            Some(LabelValueDefinitionSeverity::Alert)
        } else if s == "none"@ {
            Some(LabelValueDefinitionSeverity::NoSeverity)
        } else {
            None
        }
    }

    /// The word that names a severity.
    pub open spec fn spec_name(self) -> Seq<char> {
        match self {
            LabelValueDefinitionSeverity::Inform => "inform"@,
            LabelValueDefinitionSeverity::Alert => "alert"@,
            LabelValueDefinitionSeverity::NoSeverity => "none"@,
        }
    }

    /// Parses a severity; any other word is an error.
    pub fn from_str(s: &str) -> (r: Result<Self, Error>)
        ensures
            Self::spec_parse(s@) matches Some(p) ==> r == Ok::<Self, Error>(p),
            Self::spec_parse(s@) is None ==> r == Err::<Self, Error>(
                Error::LabelValueDefinitionSeverity,
            ),
    {
        if str_eq(s, "inform") {
            Ok(LabelValueDefinitionSeverity::Inform)
        } else if str_eq(s, "alert") {
            Ok(LabelValueDefinitionSeverity::Alert)
        } else if str_eq(s, "none") {
            Ok(LabelValueDefinitionSeverity::NoSeverity)
        } else {
            Err(Error::LabelValueDefinitionSeverity)
        }
    }

    /// The word that names this severity.
    pub fn as_str(&self) -> (r: &'static str)
        ensures
            r@ == self.spec_name(),
    {
        match self {
            LabelValueDefinitionSeverity::Inform => "inform",
            LabelValueDefinitionSeverity::Alert => "alert",
            LabelValueDefinitionSeverity::NoSeverity => "none",
        }
    }
}

/// Parsing the name of a preference, a blurs setting or a severity gives it back.
pub proof fn lemma_label_setting_names_round_trip(
    p: LabelPreference,
    b: LabelValueDefinitionBlurs,
    s: LabelValueDefinitionSeverity,
)
    ensures
        LabelPreference::spec_parse(p.spec_name()) == Some(p),
        LabelValueDefinitionBlurs::spec_parse(b.spec_name()) == Some(b),
        LabelValueDefinitionSeverity::spec_parse(s.spec_name()) == Some(s),
{
    reveal_strlit("ignore");
    reveal_strlit("warn");
    reveal_strlit("hide");
    reveal_strlit("content");
    reveal_strlit("media");
    reveal_strlit("none");
    reveal_strlit("inform");
    reveal_strlit("alert");
    assert("warn"@[0] != "ignore"@[0]);
    assert("hide"@[0] != "ignore"@[0]);
    assert("hide"@[0] != "warn"@[0]);
    assert("media"@.len() != "content"@.len());
    assert("none"@.len() != "content"@.len());
    assert("none"@.len() != "media"@.len());
    assert("alert"@.len() != "inform"@.len());
    assert("none"@.len() != "inform"@.len());
    assert("none"@.len() != "alert"@.len());
}


/// Localized name and description of a label value.
#[derive(Debug, Clone)]
pub struct LabelValueDefinitionStrings {
    pub lang: String,
    pub name: String,
    pub description: String,
}

impl LabelValueDefinitionStrings {
    /// A copy of these strings.
    pub fn duplicate(&self) -> (r: Self)
        ensures
            r == *self,
    {
        LabelValueDefinitionStrings {
            lang: copy_string(&self.lang),
            name: copy_string(&self.name),
            description: copy_string(&self.description),
        }
    }
}

/// The behaviors of a label value for each kind of target.
#[derive(Debug, Clone, Copy, PartialEq, Eq, Structural)]
pub struct InterpretedLabelValueDefinitionBehaviors {
    pub account: ModerationBehavior,
    pub profile: ModerationBehavior,
    pub content: ModerationBehavior,
}

impl InterpretedLabelValueDefinitionBehaviors {
    /// No behavior for any target.
    pub fn empty() -> (r: Self)
        ensures
            r.account == spec_empty_behavior(),
            r.profile == spec_empty_behavior(),
            r.content == spec_empty_behavior(),
    {
        InterpretedLabelValueDefinitionBehaviors {
            account: ModerationBehavior::empty(),
            profile: ModerationBehavior::empty(),
            content: ModerationBehavior::empty(),
        }
    }

    pub open spec fn spec_behavior_for(self, target: LabelTarget) -> ModerationBehavior {
        match target {
            LabelTarget::Account => self.account,
            LabelTarget::Profile => self.profile,
            LabelTarget::Content => self.content,
        }
    }

    /// The behavior for one kind of target.
    pub fn behavior_for(&self, target: LabelTarget) -> (r: ModerationBehavior)
        ensures
            r == self.spec_behavior_for(target),
    {
        match target {
            LabelTarget::Account => self.account,
            LabelTarget::Profile => self.profile,
            LabelTarget::Content => self.content,
        }
    }
}

/// A label value definition, narrowed to the settings this library knows.
#[derive(Debug, Clone)]
pub struct InterpretedLabelValueDefinition {
    pub adult_only: bool,
    pub blurs: LabelValueDefinitionBlurs,
    pub default_setting: LabelPreference,
    pub identifier: String,
    pub locales: Vec<LabelValueDefinitionStrings>,
    pub severity: LabelValueDefinitionSeverity,
    pub defined_by: Option<String>,
    pub configurable: bool,
    pub flags: Vec<LabelValueDefinitionFlag>,
    pub behaviors: InterpretedLabelValueDefinitionBehaviors,
}

/// The mathematical value of an `InterpretedLabelValueDefinition`.
pub struct LabelDefinitionView {
    pub adult_only: bool,
    pub blurs: LabelValueDefinitionBlurs,
    pub default_setting: LabelPreference,
    pub identifier: Seq<char>,
    pub locales: Seq<LabelValueDefinitionStrings>,
    pub severity: LabelValueDefinitionSeverity,
    pub defined_by: Option<Seq<char>>,
    pub configurable: bool,
    pub flags: Seq<LabelValueDefinitionFlag>,
    pub behaviors: InterpretedLabelValueDefinitionBehaviors,
}

/// The view of an optional string.
pub open spec fn opt_str_view(s: Option<String>) -> Option<Seq<char>> {
    match s {
        Some(v) => Some(v@),
        None => None,
    }
}

/// A copy of an optional string.
pub fn copy_opt_string(s: &Option<String>) -> (r: Option<String>)
    ensures
        r == *s,
{
    match s {
        Some(v) => Some(copy_string(v)),
        None => None,
    }
}

impl View for InterpretedLabelValueDefinition {
    type V = LabelDefinitionView;

    open spec fn view(&self) -> LabelDefinitionView {
        LabelDefinitionView {
            adult_only: self.adult_only,
            blurs: self.blurs,
            default_setting: self.default_setting,
            identifier: self.identifier@,
            locales: self.locales@,
            severity: self.severity,
            defined_by: opt_str_view(self.defined_by),
            configurable: self.configurable,
            flags: self.flags@,
            behaviors: self.behaviors,
        }
    }
}

impl InterpretedLabelValueDefinition {
    /// Whether the definition carries a flag.
    pub open spec fn has_flag(self, f: LabelValueDefinitionFlag) -> bool {
        self.flags@.contains(f)
    }

    /// Decides `has_flag`.
    pub fn contains_flag(&self, f: LabelValueDefinitionFlag) -> (r: bool)
        ensures
            r == self.has_flag(f),
    {
        let mut i: usize = 0;
        while i < self.flags.len()
            invariant
                i <= self.flags.len(),
                forall|j: int| 0 <= j < i ==> self.flags@[j] != f,
            decreases self.flags.len() - i,
        {
            if self.flags[i] == f {
                return true;
            }
            i = i + 1;
        }
        false
    }

    /// A copy of this definition.
    pub fn duplicate(&self) -> (r: Self)
        ensures
            r@ == self@,
    {
        let mut locales: Vec<LabelValueDefinitionStrings> = Vec::new();
        let mut i: usize = 0;
        while i < self.locales.len()
            invariant
                i <= self.locales.len(),
                locales@ == self.locales@.take(i as int),
            decreases self.locales.len() - i,
        {
            locales.push(self.locales[i].duplicate());
            i = i + 1;
            assert(locales@ =~= self.locales@.take(i as int));
        }
        assert(self.locales@.take(i as int) =~= self.locales@);
        let mut flags: Vec<LabelValueDefinitionFlag> = Vec::new();
        let mut k: usize = 0;
        while k < self.flags.len()
            invariant
                k <= self.flags.len(),
                flags@ == self.flags@.take(k as int),
            decreases self.flags.len() - k,
        {
            flags.push(self.flags[k]);
            k = k + 1;
            assert(flags@ =~= self.flags@.take(k as int));
        }
        assert(self.flags@.take(k as int) =~= self.flags@);
        InterpretedLabelValueDefinition {
            adult_only: self.adult_only,
            blurs: self.blurs,
            default_setting: self.default_setting,
            identifier: copy_string(&self.identifier),
            locales,
            severity: self.severity,
            defined_by: copy_opt_string(&self.defined_by),
            configurable: self.configurable,
            flags,
            behaviors: self.behaviors,
        }
    }
}

// subjects

/// A label applied to an account, a profile or a piece of content.
#[derive(Debug, Clone, PartialEq, Eq)]
pub struct Label {
    /// The DID of the labeler that applied it.
    pub src: String,
    /// The AT URI (or DID) of what it applies to.
    pub uri: String,
    /// The label value.
    pub val: String,
}

impl Label {
    /// A label with the given source, subject and value.
    pub fn new(src: &str, uri: &str, val: &str) -> (r: Self)
        ensures
            r.src@ == src@,
            r.uri@ == uri@,
            r.val@ == val@,
    {
        Label { src: src.to_owned(), uri: uri.to_owned(), val: val.to_owned() }
    }

    /// A copy of this label.
    pub fn duplicate(&self) -> (r: Self)
        ensures
            r == *self,
    {
        Label { src: copy_string(&self.src), uri: copy_string(&self.uri), val: copy_string(&self.val) }
    }
}

/// A list that a mute or a block comes from.
#[derive(Debug, Clone, PartialEq, Eq)]
pub struct ListRef {
    pub uri: String,
    pub name: String,
}

impl ListRef {
    /// A copy of this list reference.
    pub fn duplicate(&self) -> (r: Self)
        ensures
            r == *self,
    {
        ListRef { uri: copy_string(&self.uri), name: copy_string(&self.name) }
    }
}

/// The viewer's relationship to an account.
#[derive(Debug, Clone, PartialEq, Eq)]
pub struct ViewerState {
    pub muted: Option<bool>,
    pub muted_by_list: Option<ListRef>,
    pub blocking: Option<String>,
    pub blocking_by_list: Option<ListRef>,
    pub blocked_by: Option<bool>,
    pub following: Option<String>,
}

impl ViewerState {
    /// No relationship at all.
    pub fn none() -> (r: Self)
        ensures
            r.muted is None,
            r.muted_by_list is None,
            r.blocking is None,
            r.blocking_by_list is None,
            r.blocked_by is None,
            r.following is None,
    {
        ViewerState {
            muted: None,
            muted_by_list: None,
            blocking: None,
            blocking_by_list: None,
            blocked_by: None,
            following: None,
        }
    }
}

/// An account seen through one of its profile views: its DID, the labels
/// on it and the viewer's relationship to it.
#[derive(Debug, Clone)]
pub struct SubjectProfile {
    pub did: String,
    pub labels: Option<Vec<Label>>,
    pub viewer: Option<ViewerState>,
}

impl SubjectProfile {
    /// The account's DID.
    pub fn did(&self) -> (r: &String)
        ensures
            r == self.did,
    {
        &self.did
    }

    /// The labels on the account or its profile.
    pub fn labels(&self) -> (r: &Option<Vec<Label>>)
        ensures
            r == self.labels,
    {
        &self.labels
    }

    /// The viewer's relationship to the account.
    pub fn viewer(&self) -> (r: &Option<ViewerState>)
        ensures
            r == self.viewer,
    {
        &self.viewer
    }
}


/// A link card: its title and description.
#[derive(Debug, Clone)]
pub struct ExternalEmbed {
    pub title: String,
    pub description: String,
}

/// The media attached next to a quoted record, in a post's record.
#[derive(Debug, Clone)]
pub enum RecordMedia {
    /// Images, by their alt texts.
    Images(Vec<String>),
    External(ExternalEmbed),
    Other,
}

/// What a post's record embeds.
#[derive(Debug, Clone)]
pub enum RecordEmbed {
    /// Images, by their alt texts.
    Images(Vec<String>),
    External(ExternalEmbed),
    /// A quoted record with media.
    RecordWithMedia(RecordMedia),
    Other,
}

/// The parts of a post record that moderation reads.
#[derive(Debug, Clone)]
pub struct PostRecord {
    pub text: String,
    pub facets: Option<Vec<Facet>>,
    pub tags: Option<Vec<String>>,
    pub langs: Option<Vec<String>>,
    pub embed: Option<RecordEmbed>,
}

/// A quoted post, as embedded in another post's view.
#[derive(Debug, Clone)]
pub struct QuotedPost {
    pub uri: String,
    pub author: SubjectProfile,
    pub labels: Option<Vec<Label>>,
    /// The quoted post's record, when it is a post record.
    pub value: Option<PostRecord>,
}

/// The author of a quoted post that is hidden by a block.
#[derive(Debug, Clone)]
pub struct BlockedAuthor {
    pub did: String,
    pub viewer: Option<ViewerState>,
}

/// A record embedded in a post's view.
#[derive(Debug, Clone)]
pub enum EmbeddedRecord {
    Post(QuotedPost),
    Blocked(BlockedAuthor),
    Other,
}

/// The media shown next to a quoted record, in a post's view.
#[derive(Debug, Clone)]
pub enum ViewMedia {
    /// Images, by their alt texts.
    Images(Vec<String>),
    External(ExternalEmbed),
    Other,
}

/// What a post's view embeds.
#[derive(Debug, Clone)]
pub enum PostEmbed {
    Record(EmbeddedRecord),
    RecordWithMedia(EmbeddedRecord, ViewMedia),
    External(ExternalEmbed),
    Other,
}

/// A post, as moderation reads it from its view.
#[derive(Debug, Clone)]
pub struct SubjectPost {
    pub uri: String,
    pub author: SubjectProfile,
    pub labels: Option<Vec<Label>>,
    /// The post's record, when it is a post record.
    pub record: Option<PostRecord>,
    pub embed: Option<PostEmbed>,
}

/// A notification, as moderation reads it.
#[derive(Debug, Clone)]
pub struct SubjectNotification {
    pub author: SubjectProfile,
    pub labels: Option<Vec<Label>>,
}

/// A feed generator, as moderation reads it.
#[derive(Debug, Clone)]
pub struct SubjectFeedGenerator {
    pub creator: SubjectProfile,
    pub labels: Option<Vec<Label>>,
}

/// A list, seen either with its creator or in its basic view.
#[derive(Debug, Clone)]
pub enum SubjectUserList {
    ListView { creator: SubjectProfile, labels: Option<Vec<Label>> },
    ListViewBasic { uri: String, labels: Option<Vec<Label>> },
}

// causes

/// The order in which causes are shown: `Priority1` first.
#[derive(Debug, Clone, Copy, PartialEq, Eq, Structural)]
pub enum Priority {
    Priority1,
    Priority2,
    Priority3,
    Priority4,
    Priority5,
    Priority6,
    Priority7,
    Priority8,
}

impl Priority {
    /// The number of the priority, from 1 to 8.
    pub open spec fn spec_rank(self) -> nat {
        match self {
            Priority::Priority1 => 1,
            Priority::Priority2 => 2,
            Priority::Priority3 => 3,
            Priority::Priority4 => 4,
            Priority::Priority5 => 5,
            Priority::Priority6 => 6,
            Priority::Priority7 => 7,
            Priority::Priority8 => 8,
        }
    }

    /// The number of the priority, from 1 to 8.
    pub fn rank(self) -> (r: u8)
        ensures
            r == self.spec_rank(),
            1 <= r <= 8,
    {
        match self {
            Priority::Priority1 => 1,
            Priority::Priority2 => 2,
            Priority::Priority3 => 3,
            Priority::Priority4 => 4,
            Priority::Priority5 => 5,
            Priority::Priority6 => 6,
            Priority::Priority7 => 7,
            Priority::Priority8 => 8,
        }
    }
}

/// Where a cause comes from.
#[derive(Debug, Clone, PartialEq, Eq)]
pub enum ModerationCauseSource {
    User,
    List(ListRef),
    Labeler(String),
}

impl ModerationCauseSource {
    /// A copy of this source.
    pub fn duplicate(&self) -> (r: Self)
        ensures
            r == *self,
    {
        match self {
            ModerationCauseSource::User => ModerationCauseSource::User,
            ModerationCauseSource::List(l) => ModerationCauseSource::List(l.duplicate()),
            ModerationCauseSource::Labeler(d) => ModerationCauseSource::Labeler(copy_string(d)),
        }
    }
}

/// A cause that is not a label: a block, a mute, a muted word or a hidden post.
#[derive(Debug, Clone, PartialEq, Eq)]
pub struct ModerationCauseOther {
    pub source: ModerationCauseSource,
    pub downgraded: bool,
}

impl ModerationCauseOther {
    /// A copy of this cause.
    pub fn duplicate(&self) -> (r: Self)
        ensures
            r == *self,
    {
        ModerationCauseOther { source: self.source.duplicate(), downgraded: self.downgraded }
    }
}

/// A label that applies, as interpreted under the user's preferences.
#[derive(Debug, Clone)]
pub struct ModerationCauseLabel {
    pub source: ModerationCauseSource,
    pub label: Label,
    pub label_def: InterpretedLabelValueDefinition,
    pub target: LabelTarget,
    pub setting: LabelPreference,
    pub behavior: ModerationBehavior,
    pub no_override: bool,
    pub priority: Priority,
    pub downgraded: bool,
}

/// The mathematical value of a `ModerationCauseLabel`.
pub struct CauseLabelView {
    pub source: ModerationCauseSource,
    pub label: Label,
    pub label_def: LabelDefinitionView,
    pub target: LabelTarget,
    pub setting: LabelPreference,
    pub behavior: ModerationBehavior,
    pub no_override: bool,
    pub priority: Priority,
    pub downgraded: bool,
}

impl View for ModerationCauseLabel {
    type V = CauseLabelView;

    open spec fn view(&self) -> CauseLabelView {
        CauseLabelView {
            source: self.source,
            label: self.label,
            label_def: self.label_def@,
            target: self.target,
            setting: self.setting,
            behavior: self.behavior,
            no_override: self.no_override,
            priority: self.priority,
            downgraded: self.downgraded,
        }
    }
}

/// Why something is moderated.
#[derive(Debug, Clone)]
pub enum ModerationCause {
    Blocking(ModerationCauseOther),
    BlockedBy(ModerationCauseOther),
    BlockOther(ModerationCauseOther),
    Label(ModerationCauseLabel),
    Muted(ModerationCauseOther),
    MuteWord(ModerationCauseOther),
    Hidden(ModerationCauseOther),
}

/// The mathematical value of a `ModerationCause`.
pub enum CauseView {
    Blocking(ModerationCauseOther),
    BlockedBy(ModerationCauseOther),
    BlockOther(ModerationCauseOther),
    Label(CauseLabelView),
    Muted(ModerationCauseOther),
    MuteWord(ModerationCauseOther),
    Hidden(ModerationCauseOther),
}

impl View for ModerationCause {
    type V = CauseView;

    open spec fn view(&self) -> CauseView {
        match self {
            ModerationCause::Blocking(c) => CauseView::Blocking(*c),
            ModerationCause::BlockedBy(c) => CauseView::BlockedBy(*c),
            ModerationCause::BlockOther(c) => CauseView::BlockOther(*c),
            ModerationCause::Label(c) => CauseView::Label(c@),
            ModerationCause::Muted(c) => CauseView::Muted(*c),
            ModerationCause::MuteWord(c) => CauseView::MuteWord(*c),
            ModerationCause::Hidden(c) => CauseView::Hidden(*c),
        }
    }
}

impl CauseView {
    /// The priority of a cause.
    pub open spec fn priority(self) -> Priority {
        match self {
            CauseView::Blocking(_) => Priority::Priority3,
            CauseView::BlockedBy(_) => Priority::Priority4,
            CauseView::BlockOther(_) => Priority::Priority4,
            CauseView::Label(l) => l.priority,
            CauseView::Muted(_) => Priority::Priority6,
            CauseView::MuteWord(_) => Priority::Priority6,
            CauseView::Hidden(_) => Priority::Priority6,
        }
    }

    /// Whether the cause was downgraded.
    pub open spec fn downgraded(self) -> bool {
        match self {
            CauseView::Blocking(c) => c.downgraded,
            CauseView::BlockedBy(c) => c.downgraded,
            CauseView::BlockOther(c) => c.downgraded,
            CauseView::Label(l) => l.downgraded,
            CauseView::Muted(c) => c.downgraded,
            CauseView::MuteWord(c) => c.downgraded,
            CauseView::Hidden(c) => c.downgraded,
        }
    }

    /// The same cause, downgraded.
    pub open spec fn downgrade(self) -> CauseView {
        match self {
            CauseView::Blocking(c) => CauseView::Blocking(ModerationCauseOther { downgraded: true, ..c }),
            CauseView::BlockedBy(c) => CauseView::BlockedBy(ModerationCauseOther { downgraded: true, ..c }),
            CauseView::BlockOther(c) => CauseView::BlockOther(ModerationCauseOther { downgraded: true, ..c }),
            CauseView::Label(l) => CauseView::Label(CauseLabelView { downgraded: true, ..l }),
            CauseView::Muted(c) => CauseView::Muted(ModerationCauseOther { downgraded: true, ..c }),
            CauseView::MuteWord(c) => CauseView::MuteWord(ModerationCauseOther { downgraded: true, ..c }),
            CauseView::Hidden(c) => CauseView::Hidden(ModerationCauseOther { downgraded: true, ..c }),
        }
    }
}

impl ModerationCause {
    /// The priority of this cause.
    pub fn priority(&self) -> (r: Priority)
        ensures
            r == self@.priority(),
    {
        match self {
            ModerationCause::Blocking(_) => Priority::Priority3,
            ModerationCause::BlockedBy(_) => Priority::Priority4,
            ModerationCause::BlockOther(_) => Priority::Priority4,
            ModerationCause::Label(l) => l.priority,
            ModerationCause::Muted(_) => Priority::Priority6,
            ModerationCause::MuteWord(_) => Priority::Priority6,
            ModerationCause::Hidden(_) => Priority::Priority6,
        }
    }

    /// Whether this cause was downgraded.
    pub fn downgraded(&self) -> (r: bool)
        ensures
            r == self@.downgraded(),
    {
        match self {
            ModerationCause::Blocking(c) => c.downgraded,
            ModerationCause::BlockedBy(c) => c.downgraded,
            ModerationCause::BlockOther(c) => c.downgraded,
            ModerationCause::Label(l) => l.downgraded,
            ModerationCause::Muted(c) => c.downgraded,
            ModerationCause::MuteWord(c) => c.downgraded,
            ModerationCause::Hidden(c) => c.downgraded,
        }
    }

    /// Marks this cause as downgraded.
    pub fn downgrade(&mut self)
        ensures
            final(self)@ == old(self)@.downgrade(),
    {
        match self {
            ModerationCause::Blocking(c) => c.downgraded = true,
            ModerationCause::BlockedBy(c) => c.downgraded = true,
            ModerationCause::BlockOther(c) => c.downgraded = true,
            ModerationCause::Label(l) => l.downgraded = true,
            ModerationCause::Muted(c) => c.downgraded = true,
            ModerationCause::MuteWord(c) => c.downgraded = true,
            ModerationCause::Hidden(c) => c.downgraded = true,
        }
    }

    /// A copy of this cause.
    pub fn duplicate(&self) -> (r: Self)
        ensures
            r@ == self@,
    {
        match self {
            ModerationCause::Blocking(c) => ModerationCause::Blocking(c.duplicate()),
            ModerationCause::BlockedBy(c) => ModerationCause::BlockedBy(c.duplicate()),
            ModerationCause::BlockOther(c) => ModerationCause::BlockOther(c.duplicate()),
            ModerationCause::Label(l) => ModerationCause::Label(
                ModerationCauseLabel {
                    source: l.source.duplicate(),
                    label: l.label.duplicate(),
                    label_def: l.label_def.duplicate(),
                    target: l.target,
                    setting: l.setting,
                    behavior: l.behavior,
                    no_override: l.no_override,
                    priority: l.priority,
                    downgraded: l.downgraded,
                },
            ),
            ModerationCause::Muted(c) => ModerationCause::Muted(c.duplicate()),
            ModerationCause::MuteWord(c) => ModerationCause::MuteWord(c.duplicate()),
            ModerationCause::Hidden(c) => ModerationCause::Hidden(c.duplicate()),
        }
    }
}

// moderation preferences

/// An instant, as seconds since the Unix epoch and the nanoseconds past
/// that second.
#[derive(Debug, Clone, Copy, PartialEq, Eq, Structural)]
pub struct Timestamp {
    pub seconds: i64,
    pub nanos: u32,
}

impl Timestamp {
    /// Whether this instant comes before another.
    pub open spec fn before(self, other: Timestamp) -> bool {
        self.seconds < other.seconds || (self.seconds == other.seconds && self.nanos < other.nanos)
    }

    /// Decides `before`.
    pub fn is_before(&self, other: &Timestamp) -> (r: bool)
        ensures
            r == self.before(*other),
    {
        self.seconds < other.seconds || (self.seconds == other.seconds && self.nanos < other.nanos)
    }
}

/// A word (or phrase) the user muted.
#[derive(Debug, Clone)]
pub struct MutedWord {
    /// The muted word or phrase.
    pub value: String,
    /// Where it applies: `content` and/or `tag`.
    pub targets: Vec<String>,
    /// Whose posts it applies to: `all` or `exclude-following`.
    pub actor_target: Option<String>,
    /// When it stops applying.
    pub expires_at: Option<Timestamp>,
}

/// A labeler the user subscribes to, with their settings for its labels.
#[derive(Debug)]
pub struct ModerationPrefsLabeler {
    pub did: String,
    pub labels: StringMap<LabelPreference>,
    pub is_default_labeler: bool,
}

/// The DID of Bluesky's own moderation labeler.
pub open spec fn spec_bsky_labeler_did() -> Seq<char> {
    "did:plc:ar7c4by46qjdydhdevvrndac"@
}

impl ModerationPrefsLabeler {
    /// Bluesky's own labeler, with no settings of its own.
    pub fn default() -> (r: Self)
        ensures
            r.did@ == spec_bsky_labeler_did(),
            r.labels@ == Map::<Seq<char>, LabelPreference>::empty(),
            r.is_default_labeler,
    {
        ModerationPrefsLabeler {
            did: String::from_str(bsky_labeler_did()),
            labels: StringMap::new(),
            is_default_labeler: true,
        }
    }
}

/// Reads `atrium_api::agent::bluesky::BSKY_LABELER_DID`; the contract states
/// the text of that constant.
#[verifier::external_body]
fn bsky_labeler_did() -> (r: &'static str)
    ensures
        r@ == spec_bsky_labeler_did(),
{
    atrium_api::agent::bluesky::BSKY_LABELER_DID
}

/// The user's moderation preferences.
#[derive(Debug)]
pub struct ModerationPrefs {
    pub adult_content_enabled: bool,
    pub labels: StringMap<LabelPreference>,
    pub labelers: Vec<ModerationPrefsLabeler>,
    pub muted_words: Vec<MutedWord>,
    pub hidden_posts: Vec<String>,
}

impl ModerationPrefs {
    /// Adult content off; `porn` hidden, `sexual` and `graphic-media` warned,
    /// `nudity` ignored; no labelers, muted words or hidden posts.
    pub fn default() -> (r: Self)
        ensures
            !r.adult_content_enabled,
            r.labels@ == Map::<Seq<char>, LabelPreference>::empty().insert("porn"@, LabelPreference::Hide)
                .insert("sexual"@, LabelPreference::Warn).insert("nudity"@, LabelPreference::Ignore)
                .insert("graphic-media"@, LabelPreference::Warn),
            r.labelers@.len() == 0,
            r.muted_words@.len() == 0,
            r.hidden_posts@.len() == 0,
    {
        let mut labels = StringMap::new();
        labels.insert(String::from_str("porn"), LabelPreference::Hide);
        labels.insert(String::from_str("sexual"), LabelPreference::Warn);
        labels.insert(String::from_str("nudity"), LabelPreference::Ignore);
        labels.insert(String::from_str("graphic-media"), LabelPreference::Warn);
        ModerationPrefs {
            adult_content_enabled: false,
            labels,
            labelers: Vec::new(),
            muted_words: Vec::new(),
            hidden_posts: Vec::new(),
        }
    }
}

} // verus!
