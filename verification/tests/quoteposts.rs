use bsky_sdk::keyed::StringMap;
use bsky_sdk::moderation::decision::ModerationDecision;
use bsky_sdk::moderation::types::{
    DecisionContext, Error, Label, LabelPreference, LabelValueDefinitionBlurs,
    LabelValueDefinitionSeverity, ModerationPrefs, ModerationPrefsLabeler, PostRecord, SubjectPost,
    SubjectProfile, PostEmbed, EmbeddedRecord, QuotedPost,
};
use bsky_sdk::moderation::util::{interpret_label_value_definition, LabelValueDefinition};
use bsky_sdk::moderation::Moderator;
use ResultFlag::{Alert, Blur, Filter, Inform, NoOverride};

#[derive(Debug, Clone, Copy, PartialEq, Eq)]
enum ResultFlag {
    Filter,
    Blur,
    Alert,
    Inform,
    NoOverride,
}

#[derive(Debug, Default)]
struct ExpectedBehaviors {
    profile_list: Vec<ResultFlag>,
    profile_view: Vec<ResultFlag>,
    avatar: Vec<ResultFlag>,
    banner: Vec<ResultFlag>,
    display_name: Vec<ResultFlag>,
    content_list: Vec<ResultFlag>,
    content_view: Vec<ResultFlag>,
    content_media: Vec<ResultFlag>,
}

impl ExpectedBehaviors {
    fn expected_for(&self, context: DecisionContext) -> &Vec<ResultFlag> {
        match context {
            DecisionContext::ProfileList => &self.profile_list,
            DecisionContext::ProfileView => &self.profile_view,
            DecisionContext::Avatar => &self.avatar,
            DecisionContext::Banner => &self.banner,
            DecisionContext::DisplayName => &self.display_name,
            DecisionContext::ContentList => &self.content_list,
            DecisionContext::ContentView => &self.content_view,
            DecisionContext::ContentMedia => &self.content_media,
        }
    }
}

fn assert_ui(decision: &ModerationDecision, expected: &[ResultFlag], context: DecisionContext) {
    let ui = decision.ui(context);
    assert_eq!(ui.inform(), expected.contains(&ResultFlag::Inform), "inform for {context:?}");
    assert_eq!(ui.alert(), expected.contains(&ResultFlag::Alert), "alert for {context:?}");
    assert_eq!(ui.blur(), expected.contains(&ResultFlag::Blur), "blur for {context:?}");
    assert_eq!(ui.filter(), expected.contains(&ResultFlag::Filter), "filter for {context:?}");
    assert_eq!(
        ui.no_override,
        expected.contains(&ResultFlag::NoOverride),
        "no_override for {context:?}"
    );
}

fn profile(handle: &str, labels: Option<Vec<Label>>) -> SubjectProfile {
    SubjectProfile { did: format!("did:web:{handle}"), labels, viewer: None }
}

fn post_record(text: &str, langs: Option<Vec<String>>) -> PostRecord {
    PostRecord { text: text.into(), facets: None, tags: None, langs, embed: None }
}

fn quoted_post(profile_labels: Option<Vec<Label>>, post_labels: Option<Vec<Label>>) -> SubjectPost {
    let author = profile("bob.test", None);
    let quoted_author = profile("carla.test", profile_labels);
    SubjectPost {
        uri: format!("at://{}/app.bsky.feed.post/fake", author.did),
        author,
        labels: None,
        record: Some(post_record("Hello", None)),
        embed: Some(PostEmbed::Record(EmbeddedRecord::Post(QuotedPost {
            uri: format!("at://{}/app.bsky.feed.post/fake", quoted_author.did),
            author: quoted_author,
            labels: post_labels,
            value: Some(post_record("Quoted post text", Some(vec![String::from("en")]))),
        }))),
    }
}

struct Scenario {
    blurs: LabelValueDefinitionBlurs,
    severity: LabelValueDefinitionSeverity,
    account: ExpectedBehaviors,
    profile: ExpectedBehaviors,
    post: ExpectedBehaviors,
}

impl Scenario {
    fn run(&self) {
        let moderator = self.moderator().expect("failed to create moderator");
        // account
        {
            let result = moderator.moderate_post(&quoted_post(
                Some(vec![Label::new("did:web:labeler.test", "did:web:carla.test", "custom")]),
                None,
            ));
            for context in DecisionContext::all() {
                assert_ui(&result, self.account.expected_for(context), context);
            }
        }
        // profile
        {
            let result = moderator.moderate_post(&quoted_post(
                Some(vec![Label::new(
                    "did:web:labeler.test",
                    "at://did:web:carla.test/app.bsky.actor.profile/self",
                    "custom",
                )]),
                None,
            ));
            for context in DecisionContext::all() {
                assert_ui(&result, self.profile.expected_for(context), context);
            }
        }
        // post
        {
            let result = moderator.moderate_post(&quoted_post(
                None,
                Some(vec![Label::new(
                    "did:web:labeler.test",
                    "at://did:web:carla.test/app.bsky.feed.post/fake",
                    "custom",
                )]),
            ));
            for context in DecisionContext::all() {
                assert_ui(&result, self.post.expected_for(context), context);
            }
        }
    }
    fn moderator(&self) -> Result<Moderator, Error> {
        Ok(Moderator::new(
            Some(String::from("did:web:alice.test")),
            ModerationPrefs {
                adult_content_enabled: true,
                labels: StringMap::new(),
                labelers: vec![ModerationPrefsLabeler {
                    did: String::from("did:web:labeler.test"),
                    labels: StringMap::from_pairs(vec![(String::from("custom"), LabelPreference::Hide)]),
                    is_default_labeler: false,
                }],
                muted_words: Vec::new(),
                hidden_posts: Vec::new(),
            },
            StringMap::from_pairs(vec![(
                String::from("did:web:labeler.test"),
                vec![interpret_label_value_definition(
                    &LabelValueDefinition {
                        adult_only: None,
                        blurs: self.blurs.as_str().to_string(),
                        default_setting: Some(LabelPreference::Warn.as_str().to_string()),
                        identifier: String::from("custom"),
                        locales: Vec::new(),
                        severity: self.severity.as_str().to_string(),
                    },
                    Some(String::from("did:web:labeler.test")),
                )?],
            )]),
        ))
    }
}

#[test]
fn moderation_quoteposts() {
    let scenarios = [
        Scenario {
            blurs: LabelValueDefinitionBlurs::Content,
            severity: LabelValueDefinitionSeverity::Alert,
            account: ExpectedBehaviors {
                profile_list: vec![Filter],
                content_list: vec![Filter],
                ..Default::default()
            },
            profile: ExpectedBehaviors::default(),
            post: ExpectedBehaviors {
                content_list: vec![Filter],
                ..Default::default()
            },
        },
        Scenario {
            blurs: LabelValueDefinitionBlurs::Content,
            severity: LabelValueDefinitionSeverity::Inform,
            account: ExpectedBehaviors {
                profile_list: vec![Filter],
                content_list: vec![Filter],
                ..Default::default()
            },
            profile: ExpectedBehaviors::default(),
            post: ExpectedBehaviors {
                content_list: vec![Filter],
                ..Default::default()
            },
        },
        Scenario {
            blurs: LabelValueDefinitionBlurs::Content,
            severity: LabelValueDefinitionSeverity::NoSeverity,
            account: ExpectedBehaviors {
                profile_list: vec![Filter],
                content_list: vec![Filter],
                ..Default::default()
            },
            profile: ExpectedBehaviors::default(),
            post: ExpectedBehaviors {
                content_list: vec![Filter],
                ..Default::default()
            },
        },
        Scenario {
            blurs: LabelValueDefinitionBlurs::Media,
            severity: LabelValueDefinitionSeverity::Alert,
            account: ExpectedBehaviors {
                profile_list: vec![Filter],
                content_list: vec![Filter],
                ..Default::default()
            },
            profile: ExpectedBehaviors::default(),
            post: ExpectedBehaviors {
                content_list: vec![Filter],
                ..Default::default()
            },
        },
        Scenario {
            blurs: LabelValueDefinitionBlurs::Media,
            severity: LabelValueDefinitionSeverity::Inform,
            account: ExpectedBehaviors {
                profile_list: vec![Filter],
                content_list: vec![Filter],
                ..Default::default()
            },
            profile: ExpectedBehaviors::default(),
            post: ExpectedBehaviors {
                content_list: vec![Filter],
                ..Default::default()
            },
        },
        Scenario {
            blurs: LabelValueDefinitionBlurs::Media,
            severity: LabelValueDefinitionSeverity::NoSeverity,
            account: ExpectedBehaviors {
                profile_list: vec![Filter],
                content_list: vec![Filter],
                ..Default::default()
            },
            profile: ExpectedBehaviors::default(),
            post: ExpectedBehaviors {
                content_list: vec![Filter],
                ..Default::default()
            },
        },
        Scenario {
            blurs: LabelValueDefinitionBlurs::NoBlur,
            severity: LabelValueDefinitionSeverity::Alert,
            account: ExpectedBehaviors {
                profile_list: vec![Filter],
                content_list: vec![Filter],
                ..Default::default()
            },
            profile: ExpectedBehaviors::default(),
            post: ExpectedBehaviors {
                content_list: vec![Filter],
                ..Default::default()
            },
        },
        Scenario {
            blurs: LabelValueDefinitionBlurs::NoBlur,
            severity: LabelValueDefinitionSeverity::Inform,
            account: ExpectedBehaviors {
                profile_list: vec![Filter],
                content_list: vec![Filter],
                ..Default::default()
            },
            profile: ExpectedBehaviors::default(),
            post: ExpectedBehaviors {
                content_list: vec![Filter],
                ..Default::default()
            },
        },
        Scenario {
            blurs: LabelValueDefinitionBlurs::NoBlur,
            severity: LabelValueDefinitionSeverity::NoSeverity,
            account: ExpectedBehaviors {
                profile_list: vec![Filter],
                content_list: vec![Filter],
                ..Default::default()
            },
            profile: ExpectedBehaviors::default(),
            post: ExpectedBehaviors {
                content_list: vec![Filter],
                ..Default::default()
            },
        },
    ];
    for scenario in scenarios {
        scenario.run();
    }
}
