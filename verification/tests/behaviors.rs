use bsky_sdk::keyed::StringMap;
use bsky_sdk::moderation::types::{
    DecisionContext, Label, LabelPreference, ListRef, ModerationPrefs, ModerationPrefsLabeler,
    PostRecord, SubjectPost, SubjectProfile, ViewerState,
};
use bsky_sdk::moderation::Moderator;
use ResultFlag::{Alert, Blur, Filter, Inform, NoOverride};

#[derive(Debug, Clone, Copy, PartialEq, Eq)]
enum ResultFlag {
    Filter,
    Blur,
    Alert,
    Inform,
    NoOverride,
}

fn label(src: &str, uri: &str, val: &str) -> Label {
    Label::new(src, uri, val)
}

fn list_view_basic(name: &str) -> ListRef {
    ListRef { uri: String::from("at://did:plc:fake/app.bsky.graph.list/fake"), name: name.into() }
}

#[derive(Debug, Clone, Copy, PartialEq, Eq)]
enum TestConfig {
    NoConfig,
    AdultDisabled,
    PornHide,
    PornWarn,
    PornIgnore,
    LoggedOut,
}

impl TestConfig {
    fn labels(&self) -> StringMap<LabelPreference> {
        match self {
            Self::PornHide => StringMap::from_pairs(vec![(String::from("porn"), LabelPreference::Hide)]),
            Self::PornWarn => StringMap::from_pairs(vec![(String::from("porn"), LabelPreference::Warn)]),
            Self::PornIgnore => {
                StringMap::from_pairs(vec![(String::from("porn"), LabelPreference::Ignore)])
            }
            _ => StringMap::new(),
        }
    }
}

#[derive(Debug, Clone, Copy, PartialEq, Eq)]
enum TestSubject {
    Profile,
    Post,
}

#[derive(Debug, Clone, Copy, PartialEq, Eq)]
enum TestUser {
    UserSelf,
    Alice,
    Bob,
    Carla,
    Dan,
    Elise,
    Fern,
    Georgia,
}

#[derive(Default)]
struct ViewerDefinition {
    blocking: bool,
    blocking_by_list: bool,
    blocked_by: bool,
    muted: bool,
    muted_by_list: bool,
}

impl TestUser {
    fn viewer_state(&self) -> ViewerState {
        let def = match self {
            Self::Bob => ViewerDefinition { blocking: true, ..Default::default() },
            Self::Carla => ViewerDefinition { blocked_by: true, ..Default::default() },
            Self::Dan => ViewerDefinition { muted: true, ..Default::default() },
            Self::Elise => ViewerDefinition { muted_by_list: true, ..Default::default() },
            Self::Fern => ViewerDefinition { blocking: true, blocked_by: true, ..Default::default() },
            Self::Georgia => ViewerDefinition { blocking_by_list: true, ..Default::default() },
            _ => ViewerDefinition::default(),
        };
        ViewerState {
            blocked_by: if def.blocked_by { Some(true) } else { None },
            blocking: if def.blocking || def.blocking_by_list {
                Some(String::from("at://did:web:self.test/app.bsky.graph.block/fake"))
            } else {
                None
            },
            blocking_by_list: if def.blocking_by_list {
                Some(list_view_basic("Fake list"))
            } else {
                None
            },
            following: None,
            muted: if def.muted || def.muted_by_list { Some(true) } else { None },
            muted_by_list: if def.muted_by_list {
                Some(list_view_basic("Fake list"))
            } else {
                None
            },
        }
    }

    fn name(&self) -> &str {
        match self {
            Self::UserSelf => "self",
            Self::Alice => "alice",
            Self::Bob => "bob",
            Self::Carla => "carla",
            Self::Dan => "dan",
            Self::Elise => "elise",
            Self::Fern => "fern",
            Self::Georgia => "georgia",
        }
    }
}

#[derive(Debug, Default)]
#[allow(dead_code)]
struct TestScenarioLabels {
    post: Vec<String>,
    profile: Vec<String>,
    account: Vec<String>,
    quoted_post: Vec<String>,
    quoted_account: Vec<String>,
}

#[derive(Debug, Default)]
struct TestExpectedBehaviors {
    profile_list: Vec<ResultFlag>,
    profile_view: Vec<ResultFlag>,
    avatar: Vec<ResultFlag>,
    banner: Vec<ResultFlag>,
    display_name: Vec<ResultFlag>,
    content_list: Vec<ResultFlag>,
    content_view: Vec<ResultFlag>,
    content_media: Vec<ResultFlag>,
}

#[derive(Debug)]
struct ModerationTestScenario {
    cfg: TestConfig,
    subject: TestSubject,
    author: TestUser,
    labels: TestScenarioLabels,
    behaviors: TestExpectedBehaviors,
}

impl ModerationTestScenario {
    fn run(&self, name: &str) {
        let moderator = self.moderator();
        let result = match self.subject {
            TestSubject::Profile => moderator.moderate_profile(&self.profile()),
            TestSubject::Post => moderator.moderate_post(&self.post()),
        };
        let b = &self.behaviors;
        let mut checks = vec![
            (&b.avatar, DecisionContext::Avatar),
            (&b.banner, DecisionContext::Banner),
            (&b.display_name, DecisionContext::DisplayName),
            (&b.content_list, DecisionContext::ContentList),
            (&b.content_view, DecisionContext::ContentView),
            (&b.content_media, DecisionContext::ContentMedia),
        ];
        if self.subject == TestSubject::Profile {
            checks.push((&b.profile_list, DecisionContext::ProfileList));
            checks.push((&b.profile_view, DecisionContext::ProfileView));
        }
        for (expected, context) in checks {
            let ui = result.ui(context);
            let got = (ui.inform(), ui.alert(), ui.blur(), ui.filter(), ui.no_override);
            let want = (
                expected.contains(&ResultFlag::Inform),
                expected.contains(&ResultFlag::Alert),
                expected.contains(&ResultFlag::Blur),
                expected.contains(&ResultFlag::Filter),
                expected.contains(&ResultFlag::NoOverride),
            );
            assert_eq!(got, want, "{name}: {context:?}");
        }
    }

    fn moderator(&self) -> Moderator {
        Moderator {
            user_did: match self.cfg {
                TestConfig::LoggedOut => None,
                _ => Some(String::from("did:web:self.test")),
            },
            prefs: ModerationPrefs {
                adult_content_enabled: matches!(
                    self.cfg,
                    TestConfig::PornHide | TestConfig::PornWarn | TestConfig::PornIgnore
                ),
                labels: self.cfg.labels(),
                labelers: vec![ModerationPrefsLabeler {
                    did: String::from("did:plc:fake-labeler"),
                    labels: StringMap::new(),
                    is_default_labeler: false,
                }],
                muted_words: Vec::new(),
                hidden_posts: Vec::new(),
            },
            label_defs: StringMap::new(),
        }
    }

    fn profile(&self) -> SubjectProfile {
        let mut labels = Vec::new();
        for val in &self.labels.account {
            labels.push(label("did:plc:fake-labeler", &format!("did:web:{}", self.author.name()), val))
        }
        for val in &self.labels.profile {
            labels.push(label(
                "did:plc:fake-labeler",
                &format!("at://did:web:{}/app.bsky.actor.profile/self", self.author.name()),
                val,
            ))
        }
        SubjectProfile {
            did: format!("did:web:{}.test", self.author.name()),
            labels: Some(labels),
            viewer: Some(self.author.viewer_state()),
        }
    }

    fn post(&self) -> SubjectPost {
        let author = self.profile();
        let labels = self
            .labels
            .post
            .iter()
            .map(|val| label("did:plc:fake-labeler", &format!("at://{}/app.bsky.feed.post/fake", author.did), val))
            .collect();
        SubjectPost {
            uri: format!("at://{}/app.bsky.feed.post/fake", author.did),
            author,
            labels: Some(labels),
            record: Some(PostRecord {
                text: String::from("Post text"),
                facets: None,
                tags: None,
                langs: None,
                embed: None,
            }),
            embed: None,
        }
    }
}

#[test]
fn post_moderation_behaviors() {
    let scenarios = [
        (
            "Imperative label ('!hide') on account",
            ModerationTestScenario {
                cfg: TestConfig::NoConfig,
                subject: TestSubject::Profile,
                author: TestUser::Alice,
                labels: TestScenarioLabels {
                    account: vec![String::from("!hide")],
                    ..Default::default()
                },
                behaviors: TestExpectedBehaviors {
                    profile_list: vec![Filter, Blur, NoOverride],
                    profile_view: vec![Blur, NoOverride],
                    avatar: vec![Blur, NoOverride],
                    banner: vec![Blur, NoOverride],
                    display_name: vec![Blur, NoOverride],
                    content_list: vec![Filter, Blur, NoOverride],
                    content_view: vec![Blur, NoOverride],
                    ..Default::default()
                },
            },
        ),
        (
            "Imperative label ('!hide') on profile",
            ModerationTestScenario {
                cfg: TestConfig::NoConfig,
                subject: TestSubject::Profile,
                author: TestUser::Alice,
                labels: TestScenarioLabels {
                    profile: vec![String::from("!hide")],
                    ..Default::default()
                },
                behaviors: TestExpectedBehaviors {
                    avatar: vec![Blur, NoOverride],
                    banner: vec![Blur, NoOverride],
                    display_name: vec![Blur, NoOverride],
                    ..Default::default()
                },
            },
        ),
        (
            "Imperative label ('!hide') on post",
            ModerationTestScenario {
                cfg: TestConfig::NoConfig,
                subject: TestSubject::Post,
                author: TestUser::Alice,
                labels: TestScenarioLabels {
                    post: vec![String::from("!hide")],
                    ..Default::default()
                },
                behaviors: TestExpectedBehaviors {
                    content_list: vec![Filter, Blur, NoOverride],
                    content_view: vec![Blur, NoOverride],
                    ..Default::default()
                },
            },
        ),
        (
            "Imperative label ('!hide') on author profile",
            ModerationTestScenario {
                cfg: TestConfig::NoConfig,
                subject: TestSubject::Post,
                author: TestUser::Alice,
                labels: TestScenarioLabels {
                    profile: vec![String::from("!hide")],
                    ..Default::default()
                },
                behaviors: TestExpectedBehaviors {
                    avatar: vec![Blur, NoOverride],
                    banner: vec![Blur, NoOverride],
                    display_name: vec![Blur, NoOverride],
                    ..Default::default()
                },
            },
        ),
        (
            "Imperative label ('!hide') on author account",
            ModerationTestScenario {
                cfg: TestConfig::NoConfig,
                subject: TestSubject::Post,
                author: TestUser::Alice,
                labels: TestScenarioLabels {
                    account: vec![String::from("!hide")],
                    ..Default::default()
                },
                behaviors: TestExpectedBehaviors {
                    avatar: vec![Blur, NoOverride],
                    banner: vec![Blur, NoOverride],
                    display_name: vec![Blur, NoOverride],
                    content_list: vec![Filter, Blur, NoOverride],
                    content_view: vec![Blur, NoOverride],
                    ..Default::default()
                },
            },
        ),
        (
            "Imperative label ('!warn') on account",
            ModerationTestScenario {
                cfg: TestConfig::NoConfig,
                subject: TestSubject::Profile,
                author: TestUser::Alice,
                labels: TestScenarioLabels {
                    account: vec![String::from("!warn")],
                    ..Default::default()
                },
                behaviors: TestExpectedBehaviors {
                    profile_list: vec![Blur],
                    profile_view: vec![Blur],
                    avatar: vec![Blur],
                    banner: vec![Blur],
                    content_list: vec![Blur],
                    content_view: vec![Blur],
                    ..Default::default()
                },
            },
        ),
        (
            "Imperative label ('!warn') on profile",
            ModerationTestScenario {
                cfg: TestConfig::NoConfig,
                subject: TestSubject::Profile,
                author: TestUser::Alice,
                labels: TestScenarioLabels {
                    profile: vec![String::from("!warn")],
                    ..Default::default()
                },
                behaviors: TestExpectedBehaviors {
                    avatar: vec![Blur],
                    banner: vec![Blur],
                    display_name: vec![Blur],
                    ..Default::default()
                },
            },
        ),
        (
            "Imperative label ('!warn') on post",
            ModerationTestScenario {
                cfg: TestConfig::NoConfig,
                subject: TestSubject::Post,
                author: TestUser::Alice,
                labels: TestScenarioLabels {
                    post: vec![String::from("!warn")],
                    ..Default::default()
                },
                behaviors: TestExpectedBehaviors {
                    content_list: vec![Blur],
                    content_view: vec![Blur],
                    ..Default::default()
                },
            },
        ),
        (
            "Imperative label ('!warn') on author profile",
            ModerationTestScenario {
                cfg: TestConfig::NoConfig,
                subject: TestSubject::Post,
                author: TestUser::Alice,
                labels: TestScenarioLabels {
                    profile: vec![String::from("!warn")],
                    ..Default::default()
                },
                behaviors: TestExpectedBehaviors {
                    avatar: vec![Blur],
                    banner: vec![Blur],
                    display_name: vec![Blur],
                    ..Default::default()
                },
            },
        ),
        (
            "Imperative label ('!warn') on author account",
            ModerationTestScenario {
                cfg: TestConfig::NoConfig,
                subject: TestSubject::Post,
                author: TestUser::Alice,
                labels: TestScenarioLabels {
                    account: vec![String::from("!warn")],
                    ..Default::default()
                },
                behaviors: TestExpectedBehaviors {
                    avatar: vec![Blur],
                    banner: vec![Blur],
                    content_list: vec![Blur],
                    content_view: vec![Blur],
                    ..Default::default()
                },
            },
        ),
        (
            "Imperative label ('!no-unauthenticated') on account when logged out",
            ModerationTestScenario {
                cfg: TestConfig::LoggedOut,
                subject: TestSubject::Profile,
                author: TestUser::Alice,
                labels: TestScenarioLabels {
                    account: vec![String::from("!no-unauthenticated")],
                    ..Default::default()
                },
                behaviors: TestExpectedBehaviors {
                    profile_list: vec![Filter, Blur, NoOverride],
                    profile_view: vec![Blur, NoOverride],
                    avatar: vec![Blur, NoOverride],
                    banner: vec![Blur, NoOverride],
                    display_name: vec![Blur, NoOverride],
                    content_list: vec![Filter, Blur, NoOverride],
                    content_view: vec![Blur, NoOverride],
                    ..Default::default()
                },
            },
        ),
        (
            "Imperative label ('!no-unauthenticated') on profile when logged out",
            ModerationTestScenario {
                cfg: TestConfig::LoggedOut,
                subject: TestSubject::Profile,
                author: TestUser::Alice,
                labels: TestScenarioLabels {
                    profile: vec![String::from("!no-unauthenticated")],
                    ..Default::default()
                },
                behaviors: TestExpectedBehaviors {
                    profile_list: vec![Filter, Blur, NoOverride],
                    profile_view: vec![Blur, NoOverride],
                    avatar: vec![Blur, NoOverride],
                    banner: vec![Blur, NoOverride],
                    display_name: vec![Blur, NoOverride],
                    content_list: vec![Filter, Blur, NoOverride],
                    content_view: vec![Blur, NoOverride],
                    ..Default::default()
                },
            },
        ),
        (
            "Imperative label ('!no-unauthenticated') on post when logged out",
            ModerationTestScenario {
                cfg: TestConfig::LoggedOut,
                subject: TestSubject::Post,
                author: TestUser::Alice,
                labels: TestScenarioLabels {
                    post: vec![String::from("!no-unauthenticated")],
                    ..Default::default()
                },
                behaviors: TestExpectedBehaviors {
                    content_list: vec![Filter, Blur, NoOverride],
                    content_view: vec![Blur, NoOverride],
                    ..Default::default()
                },
            },
        ),
        (
            "Imperative label ('!no-unauthenticated') on author profile when logged out",
            ModerationTestScenario {
                cfg: TestConfig::LoggedOut,
                subject: TestSubject::Post,
                author: TestUser::Alice,
                labels: TestScenarioLabels {
                    profile: vec![String::from("!no-unauthenticated")],
                    ..Default::default()
                },
                behaviors: TestExpectedBehaviors {
                    avatar: vec![Blur, NoOverride],
                    banner: vec![Blur, NoOverride],
                    display_name: vec![Blur, NoOverride],
                    content_list: vec![Filter, Blur, NoOverride],
                    content_view: vec![Blur, NoOverride],
                    ..Default::default()
                },
            },
        ),
        (
            "Imperative label ('!no-unauthenticated') on author account when logged out",
            ModerationTestScenario {
                cfg: TestConfig::LoggedOut,
                subject: TestSubject::Post,
                author: TestUser::Alice,
                labels: TestScenarioLabels {
                    account: vec![String::from("!no-unauthenticated")],
                    ..Default::default()
                },
                behaviors: TestExpectedBehaviors {
                    avatar: vec![Blur, NoOverride],
                    banner: vec![Blur, NoOverride],
                    display_name: vec![Blur, NoOverride],
                    content_list: vec![Filter, Blur, NoOverride],
                    content_view: vec![Blur, NoOverride],
                    ..Default::default()
                },
            },
        ),
        (
            "Imperative label ('!no-unauthenticated') on account when logged in",
            ModerationTestScenario {
                cfg: TestConfig::NoConfig,
                subject: TestSubject::Profile,
                author: TestUser::Alice,
                labels: TestScenarioLabels {
                    account: vec![String::from("!no-unauthenticated")],
                    ..Default::default()
                },
                behaviors: TestExpectedBehaviors::default(),
            },
        ),
        (
            "Imperative label ('!no-unauthenticated') on profile when logged in",
            ModerationTestScenario {
                cfg: TestConfig::NoConfig,
                subject: TestSubject::Profile,
                author: TestUser::Alice,
                labels: TestScenarioLabels {
                    profile: vec![String::from("!no-unauthenticated")],
                    ..Default::default()
                },
                behaviors: TestExpectedBehaviors::default(),
            },
        ),
        (
            "Imperative label ('!no-unauthenticated') on post when logged in",
            ModerationTestScenario {
                cfg: TestConfig::NoConfig,
                subject: TestSubject::Post,
                author: TestUser::Alice,
                labels: TestScenarioLabels {
                    post: vec![String::from("!no-unauthenticated")],
                    ..Default::default()
                },
                behaviors: TestExpectedBehaviors::default(),
            },
        ),
        (
            "Imperative label ('!no-unauthenticated') on author profile when logged in",
            ModerationTestScenario {
                cfg: TestConfig::NoConfig,
                subject: TestSubject::Post,
                author: TestUser::Alice,
                labels: TestScenarioLabels {
                    profile: vec![String::from("!no-unauthenticated")],
                    ..Default::default()
                },
                behaviors: TestExpectedBehaviors::default(),
            },
        ),
        (
            "Imperative label ('!no-unauthenticated') on author account when logged in",
            ModerationTestScenario {
                cfg: TestConfig::NoConfig,
                subject: TestSubject::Post,
                author: TestUser::Alice,
                labels: TestScenarioLabels {
                    account: vec![String::from("!no-unauthenticated")],
                    ..Default::default()
                },
                behaviors: TestExpectedBehaviors::default(),
            },
        ),
        (
            "Blur-media label ('porn') on account (hide)",
            ModerationTestScenario {
                cfg: TestConfig::PornHide,
                subject: TestSubject::Profile,
                author: TestUser::Alice,
                labels: TestScenarioLabels {
                    account: vec![String::from("porn")],
                    ..Default::default()
                },
                behaviors: TestExpectedBehaviors {
                    profile_list: vec![Filter],
                    avatar: vec![Blur],
                    banner: vec![Blur],
                    content_list: vec![Filter],
                    ..Default::default()
                },
            },
        ),
        (
            "Blur-media label ('porn') on profile (hide)",
            ModerationTestScenario {
                cfg: TestConfig::PornHide,
                subject: TestSubject::Profile,
                author: TestUser::Alice,
                labels: TestScenarioLabels {
                    profile: vec![String::from("porn")],
                    ..Default::default()
                },
                behaviors: TestExpectedBehaviors {
                    avatar: vec![Blur],
                    banner: vec![Blur],
                    ..Default::default()
                },
            },
        ),
        (
            "Blur-media label ('porn') on post (hide)",
            ModerationTestScenario {
                cfg: TestConfig::PornHide,
                subject: TestSubject::Post,
                author: TestUser::Alice,
                labels: TestScenarioLabels {
                    post: vec![String::from("porn")],
                    ..Default::default()
                },
                behaviors: TestExpectedBehaviors {
                    content_list: vec![Filter],
                    content_media: vec![Blur],
                    ..Default::default()
                },
            },
        ),
        (
            "Blur-media label ('porn') on author profile (hide)",
            ModerationTestScenario {
                cfg: TestConfig::PornHide,
                subject: TestSubject::Post,
                author: TestUser::Alice,
                labels: TestScenarioLabels {
                    profile: vec![String::from("porn")],
                    ..Default::default()
                },
                behaviors: TestExpectedBehaviors {
                    avatar: vec![Blur],
                    banner: vec![Blur],
                    ..Default::default()
                },
            },
        ),
        (
            "Blur-media label ('porn') on author account (hide)",
            ModerationTestScenario {
                cfg: TestConfig::PornHide,
                subject: TestSubject::Post,
                author: TestUser::Alice,
                labels: TestScenarioLabels {
                    account: vec![String::from("porn")],
                    ..Default::default()
                },
                behaviors: TestExpectedBehaviors {
                    profile_list: vec![Filter],
                    avatar: vec![Blur],
                    banner: vec![Blur],
                    content_list: vec![Filter],
                    ..Default::default()
                },
            },
        ),
        (
            "Blur-media label ('porn') on account (warn)",
            ModerationTestScenario {
                cfg: TestConfig::PornWarn,
                subject: TestSubject::Profile,
                author: TestUser::Alice,
                labels: TestScenarioLabels {
                    account: vec![String::from("porn")],
                    ..Default::default()
                },
                behaviors: TestExpectedBehaviors {
                    avatar: vec![Blur],
                    banner: vec![Blur],
                    ..Default::default()
                },
            },
        ),
        (
            "Blur-media label ('porn') on profile (warn)",
            ModerationTestScenario {
                cfg: TestConfig::PornWarn,
                subject: TestSubject::Profile,
                author: TestUser::Alice,
                labels: TestScenarioLabels {
                    profile: vec![String::from("porn")],
                    ..Default::default()
                },
                behaviors: TestExpectedBehaviors {
                    avatar: vec![Blur],
                    banner: vec![Blur],
                    ..Default::default()
                },
            },
        ),
        (
            "Blur-media label ('porn') on post (warn)",
            ModerationTestScenario {
                cfg: TestConfig::PornWarn,
                subject: TestSubject::Post,
                author: TestUser::Alice,
                labels: TestScenarioLabels {
                    post: vec![String::from("porn")],
                    ..Default::default()
                },
                behaviors: TestExpectedBehaviors {
                    content_media: vec![Blur],
                    ..Default::default()
                },
            },
        ),
        (
            "Blur-media label ('porn') on author profile (warn)",
            ModerationTestScenario {
                cfg: TestConfig::PornWarn,
                subject: TestSubject::Post,
                author: TestUser::Alice,
                labels: TestScenarioLabels {
                    profile: vec![String::from("porn")],
                    ..Default::default()
                },
                behaviors: TestExpectedBehaviors {
                    avatar: vec![Blur],
                    banner: vec![Blur],
                    ..Default::default()
                },
            },
        ),
        (
            "Blur-media label ('porn') on author account (warn)",
            ModerationTestScenario {
                cfg: TestConfig::PornWarn,
                subject: TestSubject::Post,
                author: TestUser::Alice,
                labels: TestScenarioLabels {
                    account: vec![String::from("porn")],
                    ..Default::default()
                },
                behaviors: TestExpectedBehaviors {
                    avatar: vec![Blur],
                    banner: vec![Blur],
                    ..Default::default()
                },
            },
        ),
        (
            "Blur-media label ('porn') on account (ignore)",
            ModerationTestScenario {
                cfg: TestConfig::PornIgnore,
                subject: TestSubject::Profile,
                author: TestUser::Alice,
                labels: TestScenarioLabels {
                    account: vec![String::from("porn")],
                    ..Default::default()
                },
                behaviors: TestExpectedBehaviors::default(),
            },
        ),
        (
            "Blur-media label ('porn') on profile (ignore)",
            ModerationTestScenario {
                cfg: TestConfig::PornIgnore,
                subject: TestSubject::Profile,
                author: TestUser::Alice,
                labels: TestScenarioLabels {
                    profile: vec![String::from("porn")],
                    ..Default::default()
                },
                behaviors: TestExpectedBehaviors::default(),
            },
        ),
        (
            "Blur-media label ('porn') on post (ignore)",
            ModerationTestScenario {
                cfg: TestConfig::PornIgnore,
                subject: TestSubject::Post,
                author: TestUser::Alice,
                labels: TestScenarioLabels {
                    post: vec![String::from("porn")],
                    ..Default::default()
                },
                behaviors: TestExpectedBehaviors::default(),
            },
        ),
        (
            "Blur-media label ('porn') on author profile (ignore)",
            ModerationTestScenario {
                cfg: TestConfig::PornIgnore,
                subject: TestSubject::Post,
                author: TestUser::Alice,
                labels: TestScenarioLabels {
                    profile: vec![String::from("porn")],
                    ..Default::default()
                },
                behaviors: TestExpectedBehaviors::default(),
            },
        ),
        (
            "Blur-media label ('porn') on author account (ignore)",
            ModerationTestScenario {
                cfg: TestConfig::PornIgnore,
                subject: TestSubject::Post,
                author: TestUser::Alice,
                labels: TestScenarioLabels {
                    account: vec![String::from("porn")],
                    ..Default::default()
                },
                behaviors: TestExpectedBehaviors::default(),
            },
        ),
        (
            "Adult-only label on account when adult content is disabled",
            ModerationTestScenario {
                cfg: TestConfig::AdultDisabled,
                subject: TestSubject::Profile,
                author: TestUser::Alice,
                labels: TestScenarioLabels {
                    account: vec![String::from("porn")],
                    ..Default::default()
                },
                behaviors: TestExpectedBehaviors {
                    profile_list: vec![Filter],
                    avatar: vec![Blur, NoOverride],
                    banner: vec![Blur, NoOverride],
                    content_list: vec![Filter],
                    ..Default::default()
                },
            },
        ),
        (
            "Adult-only label on profile when adult content is disabled",
            ModerationTestScenario {
                cfg: TestConfig::AdultDisabled,
                subject: TestSubject::Profile,
                author: TestUser::Alice,
                labels: TestScenarioLabels {
                    profile: vec![String::from("porn")],
                    ..Default::default()
                },
                behaviors: TestExpectedBehaviors {
                    avatar: vec![Blur, NoOverride],
                    banner: vec![Blur, NoOverride],
                    ..Default::default()
                },
            },
        ),
        (
            "Adult-only label on post when adult content is disabled",
            ModerationTestScenario {
                cfg: TestConfig::AdultDisabled,
                subject: TestSubject::Post,
                author: TestUser::Alice,
                labels: TestScenarioLabels {
                    post: vec![String::from("porn")],
                    ..Default::default()
                },
                behaviors: TestExpectedBehaviors {
                    content_list: vec![Filter],
                    content_media: vec![Blur, NoOverride],
                    ..Default::default()
                },
            },
        ),
        (
            "Adult-only label on author profile when adult content is disabled",
            ModerationTestScenario {
                cfg: TestConfig::AdultDisabled,
                subject: TestSubject::Post,
                author: TestUser::Alice,
                labels: TestScenarioLabels {
                    profile: vec![String::from("porn")],
                    ..Default::default()
                },
                behaviors: TestExpectedBehaviors {
                    avatar: vec![Blur, NoOverride],
                    banner: vec![Blur, NoOverride],
                    ..Default::default()
                },
            },
        ),
        (
            "Adult-only label on author account when adult content is disabled",
            ModerationTestScenario {
                cfg: TestConfig::AdultDisabled,
                subject: TestSubject::Post,
                author: TestUser::Alice,
                labels: TestScenarioLabels {
                    account: vec![String::from("porn")],
                    ..Default::default()
                },
                behaviors: TestExpectedBehaviors {
                    avatar: vec![Blur, NoOverride],
                    banner: vec![Blur, NoOverride],
                    content_list: vec![Filter],
                    ..Default::default()
                },
            },
        ),
        (
            "Self-profile: !hide on account",
            ModerationTestScenario {
                cfg: TestConfig::NoConfig,
                subject: TestSubject::Profile,
                author: TestUser::UserSelf,
                labels: TestScenarioLabels {
                    account: vec![String::from("!hide")],
                    ..Default::default()
                },
                behaviors: TestExpectedBehaviors {
                    profile_list: vec![Blur],
                    profile_view: vec![Blur],
                    avatar: vec![Blur],
                    banner: vec![Blur],
                    display_name: vec![Blur],
                    content_list: vec![Blur],
                    content_view: vec![Blur],
                    ..Default::default()
                },
            },
        ),
        (
            "Self-profile: !hide on profile",
            ModerationTestScenario {
                cfg: TestConfig::NoConfig,
                subject: TestSubject::Profile,
                author: TestUser::UserSelf,
                labels: TestScenarioLabels {
                    profile: vec![String::from("!hide")],
                    ..Default::default()
                },
                behaviors: TestExpectedBehaviors {
                    avatar: vec![Blur],
                    banner: vec![Blur],
                    display_name: vec![Blur],
                    ..Default::default()
                },
            },
        ),
        (
            "Self-post: Imperative label ('!hide') on post",
            ModerationTestScenario {
                cfg: TestConfig::NoConfig,
                subject: TestSubject::Post,
                author: TestUser::UserSelf,
                labels: TestScenarioLabels {
                    post: vec![String::from("!hide")],
                    ..Default::default()
                },
                behaviors: TestExpectedBehaviors {
                    content_list: vec![Blur],
                    content_view: vec![Blur],
                    ..Default::default()
                },
            },
        ),
        (
            "Self-post: Imperative label ('!hide') on author profile",
            ModerationTestScenario {
                cfg: TestConfig::NoConfig,
                subject: TestSubject::Post,
                author: TestUser::UserSelf,
                labels: TestScenarioLabels {
                    profile: vec![String::from("!hide")],
                    ..Default::default()
                },
                behaviors: TestExpectedBehaviors {
                    avatar: vec![Blur],
                    banner: vec![Blur],
                    display_name: vec![Blur],
                    ..Default::default()
                },
            },
        ),
        (
            "Self-post: Imperative label ('!hide') on author account",
            ModerationTestScenario {
                cfg: TestConfig::NoConfig,
                subject: TestSubject::Post,
                author: TestUser::UserSelf,
                labels: TestScenarioLabels {
                    account: vec![String::from("!hide")],
                    ..Default::default()
                },
                behaviors: TestExpectedBehaviors {
                    avatar: vec![Blur],
                    banner: vec![Blur],
                    display_name: vec![Blur],
                    content_list: vec![Blur],
                    content_view: vec![Blur],
                    ..Default::default()
                },
            },
        ),
        (
            "Self-post: Imperative label ('!warn') on post",
            ModerationTestScenario {
                cfg: TestConfig::NoConfig,
                subject: TestSubject::Post,
                author: TestUser::UserSelf,
                labels: TestScenarioLabels {
                    post: vec![String::from("!warn")],
                    ..Default::default()
                },
                behaviors: TestExpectedBehaviors {
                    content_list: vec![Blur],
                    content_view: vec![Blur],
                    ..Default::default()
                },
            },
        ),
        (
            "Self-post: Imperative label ('!warn') on author profile",
            ModerationTestScenario {
                cfg: TestConfig::NoConfig,
                subject: TestSubject::Post,
                author: TestUser::UserSelf,
                labels: TestScenarioLabels {
                    profile: vec![String::from("!warn")],
                    ..Default::default()
                },
                behaviors: TestExpectedBehaviors {
                    avatar: vec![Blur],
                    banner: vec![Blur],
                    display_name: vec![Blur],
                    ..Default::default()
                },
            },
        ),
        (
            "Self-post: Imperative label ('!warn') on author account",
            ModerationTestScenario {
                cfg: TestConfig::NoConfig,
                subject: TestSubject::Post,
                author: TestUser::UserSelf,
                labels: TestScenarioLabels {
                    account: vec![String::from("!warn")],
                    ..Default::default()
                },
                behaviors: TestExpectedBehaviors {
                    avatar: vec![Blur],
                    banner: vec![Blur],
                    content_list: vec![Blur],
                    content_view: vec![Blur],
                    ..Default::default()
                },
            },
        ),
        (
            "Mute/block: Blocking user",
            ModerationTestScenario {
                cfg: TestConfig::NoConfig,
                subject: TestSubject::Profile,
                author: TestUser::Bob,
                labels: TestScenarioLabels::default(),
                behaviors: TestExpectedBehaviors {
                    profile_list: vec![Filter, Blur, NoOverride],
                    profile_view: vec![Alert],
                    avatar: vec![Blur, NoOverride],
                    banner: vec![Blur, NoOverride],
                    content_list: vec![Filter, Blur, NoOverride],
                    content_view: vec![Blur, NoOverride],
                    ..Default::default()
                },
            },
        ),
    ];
    for (name, scenario) in scenarios {
        scenario.run(name);
    }
}
