use bsky_sdk::keyed::StringMap;
use bsky_sdk::moderation::decision::ModerationDecision;
use bsky_sdk::moderation::types::{
    DecisionContext, InterpretedLabelValueDefinition, Label, LabelPreference, ModerationCause,
    ModerationPrefs, ModerationPrefsLabeler, PostRecord, SubjectPost, SubjectProfile,
};
use bsky_sdk::moderation::util::{interpret_label_value_definition, LabelValueDefinition};
use bsky_sdk::moderation::Moderator;

#[derive(Debug, Clone, Copy, PartialEq, Eq)]
enum ResultFlag {
    Filter,
    Blur,
    Alert,
    Inform,
    NoOverride,
}

fn profile_view_basic(handle: &str, labels: Option<Vec<Label>>) -> SubjectProfile {
    SubjectProfile { did: format!("did:web:{handle}"), labels, viewer: None }
}

fn post_view(author: &SubjectProfile, text: &str, labels: Option<Vec<Label>>) -> SubjectPost {
    SubjectPost {
        uri: format!("at://{}/app.bsky.feed.post/fake", author.did),
        author: author.clone(),
        labels,
        record: Some(PostRecord {
            text: text.into(),
            facets: None,
            tags: None,
            langs: None,
            embed: None,
        }),
        embed: None,
    }
}

fn label(src: &str, uri: &str, val: &str) -> Label {
    Label::new(src, uri, val)
}

fn prefs_map(pairs: &[(&str, LabelPreference)]) -> StringMap<LabelPreference> {
    StringMap::from_pairs(pairs.iter().map(|(k, v)| (String::from(*k), *v)).collect())
}

fn labeler(did: &str, pairs: &[(&str, LabelPreference)]) -> ModerationPrefsLabeler {
    ModerationPrefsLabeler { did: did.into(), labels: prefs_map(pairs), is_default_labeler: false }
}

fn definition(
    identifier: &str,
    default_setting: &str,
    severity: &str,
    blurs: &str,
    adult_only: Option<bool>,
) -> InterpretedLabelValueDefinition {
    interpret_label_value_definition(
        &LabelValueDefinition {
            identifier: identifier.into(),
            default_setting: Some(default_setting.into()),
            severity: severity.into(),
            blurs: blurs.into(),
            adult_only,
            locales: Vec::new(),
        },
        Some("did:web:labeler.test".into()),
    )
    .expect("invalid label value definition")
}

fn defs_of_labeler(
    defs: Vec<InterpretedLabelValueDefinition>,
) -> StringMap<Vec<InterpretedLabelValueDefinition>> {
    StringMap::from_pairs(vec![(String::from("did:web:labeler.test"), defs)])
}

fn alice() -> Option<String> {
    Some(String::from("did:web:alice.test"))
}

fn assert_ui(decision: &ModerationDecision, expected: &[ResultFlag], context: DecisionContext) {
    let ui = decision.ui(context);
    assert_eq!(ui.inform(), expected.contains(&ResultFlag::Inform), "inform for {context:?}");
    assert_eq!(ui.alert(), expected.contains(&ResultFlag::Alert), "alert for {context:?}");
    assert_eq!(ui.blur(), expected.contains(&ResultFlag::Blur), "blur for {context:?}");
    assert_eq!(ui.filter(), expected.contains(&ResultFlag::Filter), "filter for {context:?}");
    assert_eq!(
        ui.no_override,
        expected.contains(&ResultFlag::NoOverride),
        "no_override for {context:?}"
    );
}

#[test]
fn self_label_global() {
    let profile = profile_view_basic(
        "bob.test",
        Some(vec![label(
            "did:web:bob.test",
            "at://did:web:bob.test/app.bsky.actor.profile/self",
            "porn",
        )]),
    );
    // porn (hide)
    {
        let moderator = Moderator::new(
            alice(),
            ModerationPrefs {
                adult_content_enabled: true,
                labels: prefs_map(&[("porn", LabelPreference::Hide)]),
                ..ModerationPrefs::default()
            },
            StringMap::new(),
        );
        let result = moderator.moderate_profile(&profile);
        assert_ui(&result, &[ResultFlag::Blur], DecisionContext::Avatar)
    }
    // porn (ignore)
    {
        let moderator = Moderator::new(
            alice(),
            ModerationPrefs {
                adult_content_enabled: true,
                labels: prefs_map(&[("porn", LabelPreference::Ignore)]),
                ..ModerationPrefs::default()
            },
            StringMap::new(),
        );
        let result = moderator.moderate_profile(&profile);
        assert_ui(&result, &[], DecisionContext::Avatar)
    }
}

#[test]
fn unsubscribed_or_ignore_labels() {
    let profile = profile_view_basic(
        "bob.test",
        Some(vec![label(
            "did:web:labeler.test",
            "at://did:web:bob.test/app.bsky.actor.profile/self",
            "porn",
        )]),
    );
    // porn (moderator disabled)
    {
        let moderator = Moderator::new(
            alice(),
            ModerationPrefs {
                adult_content_enabled: true,
                labels: prefs_map(&[("porn", LabelPreference::Hide)]),
                ..ModerationPrefs::default()
            },
            StringMap::new(),
        );
        let result = moderator.moderate_profile(&profile);
        for context in DecisionContext::all() {
            assert_ui(&result, &[], context);
        }
    }
    // porn (label group disabled)
    {
        let moderator = Moderator::new(
            alice(),
            ModerationPrefs {
                adult_content_enabled: true,
                labels: prefs_map(&[("porn", LabelPreference::Hide)]),
                labelers: vec![labeler(
                    "did:web:labeler.test",
                    &[("porn", LabelPreference::Ignore)],
                )],
                ..ModerationPrefs::default()
            },
            StringMap::new(),
        );
        let result = moderator.moderate_profile(&profile);
        for context in DecisionContext::all() {
            assert_ui(&result, &[], context);
        }
    }
}

#[test]
fn prioritize_filters_and_blurs() {
    let moderator = Moderator::new(
        alice(),
        ModerationPrefs {
            adult_content_enabled: true,
            labels: prefs_map(&[("porn", LabelPreference::Hide)]),
            labelers: vec![labeler("did:web:labeler.test", &[])],
            ..ModerationPrefs::default()
        },
        StringMap::new(),
    );
    let result = moderator.moderate_post(&post_view(
        &profile_view_basic("bob.test", None),
        "Hello",
        Some(vec![
            label("did:web:labeler.test", "at://did:web:bob.test/app.bsky.post/fake", "porn"),
            label("did:web:labeler.test", "at://did:web:bob.test/app.bsky.post/fake", "!hide"),
        ]),
    ));
    let list = result.ui(DecisionContext::ContentList);
    let media = result.ui(DecisionContext::ContentMedia);
    for (cause, expected_val) in [
        (&list.filters[0], "!hide"),
        (&list.filters[1], "porn"),
        (&list.blurs[0], "!hide"),
        (&media.blurs[0], "porn"),
    ] {
        if let ModerationCause::Label(label) = cause {
            assert_eq!(label.label.val, expected_val, "unexpected label value");
        } else {
            panic!("unexpected cause: {cause:?}");
        }
    }
}

#[test]
fn prioritize_custom_labels() {
    let moderator = Moderator::new(
        alice(),
        ModerationPrefs {
            adult_content_enabled: true,
            labels: prefs_map(&[("porn", LabelPreference::Warn)]),
            labelers: vec![labeler("did:web:labeler.test", &[("porn", LabelPreference::Warn)])],
            ..ModerationPrefs::default()
        },
        defs_of_labeler(vec![definition("porn", "warn", "inform", "none", None)]),
    );
    let result = moderator.moderate_post(&post_view(
        &profile_view_basic("bob.test", None),
        "Hello",
        Some(vec![label(
            "did:web:labeler.test",
            "at://did:web:bob.test/app.bsky.post/fake",
            "porn",
        )]),
    ));
    for context in DecisionContext::all() {
        let expected = match context {
            DecisionContext::ContentList => vec![ResultFlag::Inform],
            DecisionContext::ContentView => vec![ResultFlag::Inform],
            _ => vec![],
        };
        assert_ui(&result, &expected, context);
    }
}

#[test]
fn does_not_override_imperative_labels() {
    let moderator = Moderator::new(
        alice(),
        ModerationPrefs {
            adult_content_enabled: true,
            labels: StringMap::new(),
            labelers: vec![labeler("did:web:labeler.test", &[])],
            ..ModerationPrefs::default()
        },
        defs_of_labeler(vec![definition("!hide", "warn", "inform", "none", None)]),
    );
    let result = moderator.moderate_post(&post_view(
        &profile_view_basic("bob.test", None),
        "Hello",
        Some(vec![label(
            "did:web:labeler.test",
            "at://did:web:bob.test/app.bsky.post/fake",
            "!hide",
        )]),
    ));
    for context in DecisionContext::all() {
        let expected = match context {
            DecisionContext::ContentList => {
                vec![ResultFlag::Filter, ResultFlag::Blur, ResultFlag::NoOverride]
            }
            DecisionContext::ContentView => vec![ResultFlag::Blur, ResultFlag::NoOverride],
            _ => vec![],
        };
        assert_ui(&result, &expected, context);
    }
}

#[test]
fn ignore_invalid_label_value_names() {
    let moderator = Moderator::new(
        alice(),
        ModerationPrefs {
            adult_content_enabled: true,
            labels: StringMap::new(),
            labelers: vec![labeler(
                "did:web:labeler.test",
                &[("BadLabel", LabelPreference::Hide), ("bad/label", LabelPreference::Hide)],
            )],
            ..ModerationPrefs::default()
        },
        defs_of_labeler(vec![
            definition("BadLabel", "warn", "inform", "content", None),
            definition("bad/label", "warn", "inform", "content", None),
        ]),
    );
    let result = moderator.moderate_post(&post_view(
        &profile_view_basic("bob.test", None),
        "Hello",
        Some(vec![
            label("did:web:labeler.test", "at://did:web:bob.test/app.bsky.post/fake", "BadLabel"),
            label("did:web:labeler.test", "at://did:web:bob.test/app.bsky.post/fake", "bad/label"),
        ]),
    ));
    for context in DecisionContext::all() {
        assert_ui(&result, &[], context);
    }
}

#[test]
fn custom_labels_with_default_settings() {
    let moderator = Moderator::new(
        alice(),
        ModerationPrefs {
            adult_content_enabled: true,
            labels: StringMap::new(),
            labelers: vec![labeler("did:web:labeler.test", &[])],
            ..ModerationPrefs::default()
        },
        defs_of_labeler(vec![
            definition("default-hide", "hide", "inform", "content", None),
            definition("default-warn", "warn", "inform", "content", None),
            definition("default-ignore", "ignore", "inform", "content", None),
        ]),
    );
    let author = profile_view_basic("bob.test", None);
    let post_with = |val: &str| {
        post_view(
            &author,
            "Hello",
            Some(vec![label(
                "did:web:labeler.test",
                "at://did:web:bob.test/app.bsky.post/fake",
                val,
            )]),
        )
    };
    {
        let result = moderator.moderate_post(&post_with("default-hide"));
        for context in DecisionContext::all() {
            let expected = match context {
                DecisionContext::ContentList => vec![ResultFlag::Filter, ResultFlag::Blur],
                DecisionContext::ContentView => vec![ResultFlag::Inform],
                _ => vec![],
            };
            assert_ui(&result, &expected, context);
        }
    }
    {
        let result = moderator.moderate_post(&post_with("default-warn"));
        for context in DecisionContext::all() {
            let expected = match context {
                DecisionContext::ContentList => vec![ResultFlag::Blur],
                DecisionContext::ContentView => vec![ResultFlag::Inform],
                _ => vec![],
            };
            assert_ui(&result, &expected, context);
        }
    }
    {
        let result = moderator.moderate_post(&post_with("default-ignore"));
        for context in DecisionContext::all() {
            assert_ui(&result, &[], context)
        }
    }
}

#[test]
fn custom_labels_require_adult_content_enabled() {
    let moderator = Moderator::new(
        alice(),
        ModerationPrefs {
            adult_content_enabled: false,
            labels: prefs_map(&[("adult", LabelPreference::Ignore)]),
            labelers: vec![labeler("did:web:labeler.test", &[("adult", LabelPreference::Ignore)])],
            ..ModerationPrefs::default()
        },
        defs_of_labeler(vec![definition("adult", "hide", "inform", "content", Some(true))]),
    );
    let result = moderator.moderate_post(&post_view(
        &profile_view_basic("bob.test", None),
        "Hello",
        Some(vec![label(
            "did:web:labeler.test",
            "at://did:web:bob.test/app.bsky.post/fake",
            "adult",
        )]),
    ));
    for context in DecisionContext::all() {
        let expected = match context {
            DecisionContext::ContentList => {
                vec![ResultFlag::Filter, ResultFlag::Blur, ResultFlag::NoOverride]
            }
            DecisionContext::ContentView => vec![ResultFlag::Blur, ResultFlag::NoOverride],
            _ => vec![],
        };
        assert_ui(&result, &expected, context);
    }
}

#[test]
fn adult_content_disabled_forces_hide() {
    let moderator = Moderator::new(
        alice(),
        ModerationPrefs {
            adult_content_enabled: false,
            labels: prefs_map(&[("porn", LabelPreference::Ignore)]),
            labelers: vec![labeler("did:web:labeler.test", &[])],
            ..ModerationPrefs::default()
        },
        StringMap::new(),
    );
    let result = moderator.moderate_post(&post_view(
        &profile_view_basic("bob.test", None),
        "Hello",
        Some(vec![label(
            "did:web:labeler.test",
            "at://did:web:bob.test/app.bsky.post/fake",
            "porn",
        )]),
    ));
    for context in DecisionContext::all() {
        let expected = match context {
            DecisionContext::ContentList => vec![ResultFlag::Filter],
            DecisionContext::ContentMedia => vec![ResultFlag::Blur, ResultFlag::NoOverride],
            _ => vec![],
        };
        assert_ui(&result, &expected, context);
    }
}
