use bsky_sdk::keyed::StringMap;
use bsky_sdk::moderation::decision::ModerationDecision;
use bsky_sdk::moderation::types::{
    DecisionContext, Error, Label, LabelPreference, LabelValueDefinitionBlurs,
    LabelValueDefinitionSeverity, ModerationPrefs, ModerationPrefsLabeler, PostRecord, SubjectPost,
    SubjectProfile,
};
use bsky_sdk::moderation::util::{interpret_label_value_definition, LabelValueDefinition};
use bsky_sdk::moderation::Moderator;
use ResultFlag::{Alert, Blur, Filter, Inform, NoOverride};

#[derive(Debug, Clone, Copy, PartialEq, Eq)]
enum ResultFlag {
    Filter,
    Blur,
    Alert,
    Inform,
    NoOverride,
}

#[derive(Debug, Default)]
struct ExpectedBehaviors {
    profile_list: Vec<ResultFlag>,
    profile_view: Vec<ResultFlag>,
    avatar: Vec<ResultFlag>,
    banner: Vec<ResultFlag>,
    display_name: Vec<ResultFlag>,
    content_list: Vec<ResultFlag>,
    content_view: Vec<ResultFlag>,
    content_media: Vec<ResultFlag>,
}

impl ExpectedBehaviors {
    fn expected_for(&self, context: DecisionContext) -> &Vec<ResultFlag> {
        match context {
            DecisionContext::ProfileList => &self.profile_list,
            DecisionContext::ProfileView => &self.profile_view,
            DecisionContext::Avatar => &self.avatar,
            DecisionContext::Banner => &self.banner,
            DecisionContext::DisplayName => &self.display_name,
            DecisionContext::ContentList => &self.content_list,
            DecisionContext::ContentView => &self.content_view,
            DecisionContext::ContentMedia => &self.content_media,
        }
    }
}

fn assert_ui(decision: &ModerationDecision, expected: &[ResultFlag], context: DecisionContext) {
    let ui = decision.ui(context);
    assert_eq!(ui.inform(), expected.contains(&ResultFlag::Inform), "inform for {context:?}");
    assert_eq!(ui.alert(), expected.contains(&ResultFlag::Alert), "alert for {context:?}");
    assert_eq!(ui.blur(), expected.contains(&ResultFlag::Blur), "blur for {context:?}");
    assert_eq!(ui.filter(), expected.contains(&ResultFlag::Filter), "filter for {context:?}");
    assert_eq!(
        ui.no_override,
        expected.contains(&ResultFlag::NoOverride),
        "no_override for {context:?}"
    );
}

fn bob(labels: Option<Vec<Label>>) -> SubjectProfile {
    SubjectProfile { did: String::from("did:web:bob.test"), labels, viewer: None }
}

#[derive(Debug)]
struct Scenario {
    blurs: LabelValueDefinitionBlurs,
    severity: LabelValueDefinitionSeverity,
    account: ExpectedBehaviors,
    profile: ExpectedBehaviors,
    post: ExpectedBehaviors,
}

impl Scenario {
    fn run(&self) {
        let moderator = self.moderator().expect("failed to create moderator");
        // account
        {
            let result = moderator.moderate_profile(&bob(Some(vec![Label::new(
                "did:web:labeler.test",
                "did:web:bob.test",
                "custom",
            )])));
            for context in DecisionContext::all() {
                assert_ui(&result, self.account.expected_for(context), context);
            }
        }
        // profile
        {
            let result = moderator.moderate_profile(&bob(Some(vec![Label::new(
                "did:web:labeler.test",
                "at://did:web:bob.test/app.bsky.actor.profile/self",
                "custom",
            )])));
            for context in DecisionContext::all() {
                assert_ui(&result, self.profile.expected_for(context), context);
            }
        }
        // post
        {
            let result = moderator.moderate_post(&SubjectPost {
                uri: String::from("at://did:web:bob.test/app.bsky.feed.post/fake"),
                author: bob(None),
                labels: Some(vec![Label::new(
                    "did:web:labeler.test",
                    "at://did:web:bob.test/app.bsky.feed.post/fake",
                    "custom",
                )]),
                record: Some(PostRecord {
                    text: String::from("Hello"),
                    facets: None,
                    tags: None,
                    langs: None,
                    embed: None,
                }),
                embed: None,
            });
            for context in DecisionContext::all() {
                assert_ui(&result, self.post.expected_for(context), context);
            }
        }
    }

    fn moderator(&self) -> Result<Moderator, Error> {
        Ok(Moderator::new(
            Some(String::from("did:web:alice.test")),
            ModerationPrefs {
                adult_content_enabled: true,
                labels: StringMap::new(),
                labelers: vec![ModerationPrefsLabeler {
                    did: String::from("did:web:labeler.test"),
                    labels: StringMap::from_pairs(vec![(String::from("custom"), LabelPreference::Hide)]),
                    is_default_labeler: false,
                }],
                muted_words: Vec::new(),
                hidden_posts: Vec::new(),
            },
            StringMap::from_pairs(vec![(
                String::from("did:web:labeler.test"),
                vec![interpret_label_value_definition(
                    &LabelValueDefinition {
                        adult_only: None,
                        blurs: self.blurs.as_str().to_string(),
                        default_setting: Some(LabelPreference::Warn.as_str().to_string()),
                        identifier: String::from("custom"),
                        locales: Vec::new(),
                        severity: self.severity.as_str().to_string(),
                    },
                    Some(String::from("did:web:labeler.test")),
                )?],
            )]),
        ))
    }
}

#[test]
fn moderation_custom_labels() {
    let scenarios = [
        Scenario {
            blurs: LabelValueDefinitionBlurs::Content,
            severity: LabelValueDefinitionSeverity::Alert,
            account: ExpectedBehaviors {
                profile_list: vec![Filter, Alert],
                profile_view: vec![Alert],
                content_list: vec![Filter, Blur],
                content_view: vec![Alert],
                ..Default::default()
            },
            profile: ExpectedBehaviors {
                profile_list: vec![Alert],
                profile_view: vec![Alert],
                ..Default::default()
            },
            post: ExpectedBehaviors {
                content_list: vec![Filter, Blur],
                content_view: vec![Alert],
                ..Default::default()
            },
        },
        Scenario {
            blurs: LabelValueDefinitionBlurs::Content,
            severity: LabelValueDefinitionSeverity::Inform,
            account: ExpectedBehaviors {
                profile_list: vec![Filter, Inform],
                profile_view: vec![Inform],
                content_list: vec![Filter, Blur],
                content_view: vec![Inform],
                ..Default::default()
            },
            profile: ExpectedBehaviors {
                profile_list: vec![Inform],
                profile_view: vec![Inform],
                ..Default::default()
            },
            post: ExpectedBehaviors {
                content_list: vec![Filter, Blur],
                content_view: vec![Inform],
                ..Default::default()
            },
        },
        Scenario {
            blurs: LabelValueDefinitionBlurs::Content,
            severity: LabelValueDefinitionSeverity::NoSeverity,
            account: ExpectedBehaviors {
                profile_list: vec![Filter],
                content_list: vec![Filter, Blur],
                ..Default::default()
            },
            profile: ExpectedBehaviors { ..Default::default() },
            post: ExpectedBehaviors { content_list: vec![Filter, Blur], ..Default::default() },
        },
        Scenario {
            blurs: LabelValueDefinitionBlurs::Media,
            severity: LabelValueDefinitionSeverity::Alert,
            account: ExpectedBehaviors {
                profile_list: vec![Filter, Alert],
                profile_view: vec![Alert],
                avatar: vec![Blur],
                banner: vec![Blur],
                content_list: vec![Filter],
                ..Default::default()
            },
            profile: ExpectedBehaviors {
                profile_list: vec![Alert],
                profile_view: vec![Alert],
                avatar: vec![Blur],
                banner: vec![Blur],
                ..Default::default()
            },
            post: ExpectedBehaviors {
                content_list: vec![Filter],
                content_media: vec![Blur],
                ..Default::default()
            },
        },
        Scenario {
            blurs: LabelValueDefinitionBlurs::Media,
            severity: LabelValueDefinitionSeverity::Inform,
            account: ExpectedBehaviors {
                profile_list: vec![Filter, Inform],
                profile_view: vec![Inform],
                avatar: vec![Blur],
                banner: vec![Blur],
                content_list: vec![Filter],
                ..Default::default()
            },
            profile: ExpectedBehaviors {
                profile_list: vec![Inform],
                profile_view: vec![Inform],
                avatar: vec![Blur],
                banner: vec![Blur],
                ..Default::default()
            },
            post: ExpectedBehaviors {
                content_list: vec![Filter],
                content_media: vec![Blur],
                ..Default::default()
            },
        },
        Scenario {
            blurs: LabelValueDefinitionBlurs::Media,
            severity: LabelValueDefinitionSeverity::NoSeverity,
            account: ExpectedBehaviors {
                profile_list: vec![Filter],
                avatar: vec![Blur],
                banner: vec![Blur],
                content_list: vec![Filter],
                ..Default::default()
            },
            profile: ExpectedBehaviors {
                avatar: vec![Blur],
                banner: vec![Blur],
                ..Default::default()
            },
            post: ExpectedBehaviors {
                content_list: vec![Filter],
                content_media: vec![Blur],
                ..Default::default()
            },
        },
        Scenario {
            blurs: LabelValueDefinitionBlurs::NoBlur,
            severity: LabelValueDefinitionSeverity::Alert,
            account: ExpectedBehaviors {
                profile_list: vec![Filter, Alert],
                profile_view: vec![Alert],
                content_list: vec![Filter, Alert],
                content_view: vec![Alert],
                ..Default::default()
            },
            profile: ExpectedBehaviors {
                profile_list: vec![Alert],
                profile_view: vec![Alert],
                ..Default::default()
            },
            post: ExpectedBehaviors {
                content_list: vec![Filter, Alert],
                content_view: vec![Alert],
                ..Default::default()
            },
        },
        Scenario {
            blurs: LabelValueDefinitionBlurs::NoBlur,
            severity: LabelValueDefinitionSeverity::Inform,
            account: ExpectedBehaviors {
                profile_list: vec![Filter, Inform],
                profile_view: vec![Inform],
                content_list: vec![Filter, Inform],
                content_view: vec![Inform],
                ..Default::default()
            },
            profile: ExpectedBehaviors {
                profile_list: vec![Inform],
                profile_view: vec![Inform],
                ..Default::default()
            },
            post: ExpectedBehaviors {
                content_list: vec![Filter, Inform],
                content_view: vec![Inform],
                ..Default::default()
            },
        },
        Scenario {
            blurs: LabelValueDefinitionBlurs::NoBlur,
            severity: LabelValueDefinitionSeverity::NoSeverity,
            account: ExpectedBehaviors {
                profile_list: vec![Filter],
                content_list: vec![Filter],
                ..Default::default()
            },
            profile: ExpectedBehaviors { ..Default::default() },
            post: ExpectedBehaviors { content_list: vec![Filter], ..Default::default() },
        },
    ];
    for scenario in scenarios {
        scenario.run();
    }
}
