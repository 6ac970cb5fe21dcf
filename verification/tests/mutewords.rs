use bsky_sdk::keyed::StringMap;
use bsky_sdk::moderation::mutewords::{has_muted_word, has_muted_word_at};
use bsky_sdk::moderation::types::{
    DecisionContext, ModerationPrefs, MutedWord, PostRecord, SubjectPost, SubjectProfile,
    Timestamp, ViewerState,
};
use bsky_sdk::moderation::Moderator;
use bsky_sdk::rich_text::facet::{ByteSlice, Facet, FacetFeature, Tag};
use bsky_sdk::rich_text::RichText;

enum MutedWordTarget {
    Content,
    Tag,
}

enum ActorTarget {
    All,
    ExcludeFollowing,
}

fn muted_word(value: &str, word_target: MutedWordTarget, actor_target: ActorTarget) -> MutedWord {
    MutedWord {
        actor_target: Some(match actor_target {
            ActorTarget::All => String::from("all"),
            ActorTarget::ExcludeFollowing => String::from("exclude-following"),
        }),
        expires_at: None,
        targets: vec![match word_target {
            MutedWordTarget::Content => String::from("content"),
            MutedWordTarget::Tag => String::from("tag"),
        }],
        value: String::from(value),
    }
}

fn moderation_prefs(
    value: &str,
    word_target: MutedWordTarget,
    actor_target: ActorTarget,
    expires_at: Option<Timestamp>,
) -> ModerationPrefs {
    let mut muted_word = muted_word(value, word_target, actor_target);
    muted_word.expires_at = expires_at;
    ModerationPrefs {
        adult_content_enabled: false,
        labels: StringMap::new(),
        labelers: Vec::new(),
        muted_words: vec![muted_word],
        hidden_posts: Vec::new(),
    }
}

fn viewer_state(following: Option<String>) -> ViewerState {
    ViewerState {
        blocked_by: None,
        blocking: None,
        blocking_by_list: None,
        following,
        muted: None,
        muted_by_list: None,
    }
}

fn profile_view_basic(handle: &str) -> SubjectProfile {
    SubjectProfile { did: format!("did:web:{handle}"), labels: None, viewer: None }
}

fn post_view(author: &SubjectProfile, text: &str) -> SubjectPost {
    SubjectPost {
        uri: format!("at://{}/app.bsky.feed.post/fake", author.did),
        author: author.clone(),
        labels: None,
        record: Some(PostRecord {
            text: text.into(),
            facets: None,
            tags: None,
            langs: None,
            embed: None,
        }),
        embed: None,
    }
}

fn current_time() -> Timestamp {
    let d = std::time::SystemTime::now()
        .duration_since(std::time::UNIX_EPOCH)
        .expect("clock before the epoch");
    Timestamp { seconds: d.as_secs() as i64, nanos: d.subsec_nanos() }
}

fn tag(t: &str) -> FacetFeature {
    FacetFeature::Tag(Tag { tag: String::from(t) })
}

/// A rich text with the facets detected in it, each mention resolved to
/// `did:fake:` and its handle.
fn rich_text_with_detect_facets(text: &str) -> RichText {
    let mut rt = RichText::new(text, None);
    let dids = rt
        .mentions_to_resolve()
        .iter()
        .map(|handle| format!("did:fake:{handle}"))
        .collect::<Vec<_>>();
    rt.set_detected_facets(&dids);
    rt
}


#[test]
fn has_muted_word_from_rich_text() {
    // match: outline tag
    {
        let rt = rich_text_with_detect_facets("This is a post #inlineTag");
        assert!(has_muted_word(
            &[muted_word(
                "outlineTag",
                MutedWordTarget::Tag,
                ActorTarget::All
            )],
            &rt.text,
            rt.facets.as_ref(),
            Some(&vec![String::from("outlineTag")]),
            None,
            None
        ));
    }
    // match: inline tag
    {
        let rt = rich_text_with_detect_facets("This is a post #inlineTag");
        assert!(has_muted_word(
            &[muted_word(
                "inlineTag",
                MutedWordTarget::Tag,
                ActorTarget::All
            )],
            &rt.text,
            rt.facets.as_ref(),
            Some(&vec![String::from("outlineTag")]),
            None,
            None
        ));
    }
    // match: content target matches inline tag
    {
        let rt = rich_text_with_detect_facets("This is a post #inlineTag");
        assert!(has_muted_word(
            &[muted_word(
                "inlineTag",
                MutedWordTarget::Content,
                ActorTarget::All
            )],
            &rt.text,
            rt.facets.as_ref(),
            Some(&vec![String::from("outlineTag")]),
            None,
            None
        ));
    }
    // no match: only tag targets
    {
        let rt = rich_text_with_detect_facets("This is a post");
        assert!(!has_muted_word(
            &[muted_word("post", MutedWordTarget::Tag, ActorTarget::All)],
            &rt.text,
            rt.facets.as_ref(),
            Some(&vec![]),
            None,
            None
        ));
    }
    // match: single character 希
    {
        let rt = rich_text_with_detect_facets("改善希望です");
        assert!(has_muted_word(
            &[muted_word("希", MutedWordTarget::Content, ActorTarget::All)],
            &rt.text,
            rt.facets.as_ref(),
            Some(&vec![]),
            None,
            None
        ));
    }
    // match: single char with length > 1 ☠︎
    {
        let rt = rich_text_with_detect_facets("Idk why ☠︎ but maybe");
        assert!(has_muted_word(
            &[muted_word("☠︎", MutedWordTarget::Content, ActorTarget::All)],
            &rt.text,
            rt.facets.as_ref(),
            Some(&vec![]),
            None,
            None
        ));
    }
    // no match: long muted word, short post
    {
        let rt = rich_text_with_detect_facets("hey");
        assert!(!has_muted_word(
            &[muted_word(
                "politics",
                MutedWordTarget::Content,
                ActorTarget::All
            )],
            &rt.text,
            rt.facets.as_ref(),
            Some(&vec![]),
            None,
            None
        ));
    }
    // match: exact text
    {
        let rt = rich_text_with_detect_facets("javascript");
        assert!(has_muted_word(
            &[muted_word(
                "javascript",
                MutedWordTarget::Content,
                ActorTarget::All
            )],
            &rt.text,
            rt.facets.as_ref(),
            Some(&vec![]),
            None,
            None
        ));
    }
    // match: word within post
    {
        let rt = rich_text_with_detect_facets("This is a post about javascript");
        assert!(has_muted_word(
            &[muted_word(
                "javascript",
                MutedWordTarget::Content,
                ActorTarget::All
            )],
            &rt.text,
            rt.facets.as_ref(),
            Some(&vec![]),
            None,
            None
        ));
    }
    // no match: partial word
    {
        let rt = rich_text_with_detect_facets("Use your brain, Eric");
        assert!(!has_muted_word(
            &[muted_word("ai", MutedWordTarget::Content, ActorTarget::All)],
            &rt.text,
            rt.facets.as_ref(),
            Some(&vec![]),
            None,
            None
        ));
    }
    // match: multiline
    {
        let rt = rich_text_with_detect_facets("Use your\n\tbrain, Eric");
        assert!(has_muted_word(
            &[muted_word(
                "brain",
                MutedWordTarget::Content,
                ActorTarget::All
            )],
            &rt.text,
            rt.facets.as_ref(),
            Some(&vec![]),
            None,
            None
        ));
    }
    // match: :)
    {
        let rt = rich_text_with_detect_facets("So happy :)");
        assert!(has_muted_word(
            &[muted_word(":)", MutedWordTarget::Content, ActorTarget::All)],
            &rt.text,
            rt.facets.as_ref(),
            Some(&vec![]),
            None,
            None
        ));
    }
    // yay!
    {
        let rt = rich_text_with_detect_facets("We're federating, yay!");
        // match: yay!
        assert!(has_muted_word(
            &[muted_word(
                "yay!",
                MutedWordTarget::Content,
                ActorTarget::All
            )],
            &rt.text,
            rt.facets.as_ref(),
            Some(&vec![]),
            None,
            None
        ));
        // match: yay
        assert!(has_muted_word(
            &[muted_word(
                "yay",
                MutedWordTarget::Content,
                ActorTarget::All
            )],
            &rt.text,
            rt.facets.as_ref(),
            Some(&vec![]),
            None,
            None
        ));
    }
    // y!ppee!!
    {
        let rt = rich_text_with_detect_facets("We're federating, y!ppee!!");
        // match: y!ppee
        assert!(has_muted_word(
            &[muted_word(
                "y!ppee",
                MutedWordTarget::Content,
                ActorTarget::All
            )],
            &rt.text,
            rt.facets.as_ref(),
            Some(&vec![]),
            None,
            None
        ));
        // match: y!ppee!
        assert!(has_muted_word(
            &[muted_word(
                "y!ppee!",
                MutedWordTarget::Content,
                ActorTarget::All
            )],
            &rt.text,
            rt.facets.as_ref(),
            Some(&vec![]),
            None,
            None
        ));
    }
    // apostrophes: Bluesky's
    {
        let rt = rich_text_with_detect_facets("Yay, Bluesky's mutewords work");
        // match: Bluesky's
        assert!(has_muted_word(
            &[muted_word(
                "Bluesky's",
                MutedWordTarget::Content,
                ActorTarget::All
            )],
            &rt.text,
            rt.facets.as_ref(),
            Some(&vec![]),
            None,
            None
        ));
        // match: Bluesky
        assert!(has_muted_word(
            &[muted_word(
                "Bluesky",
                MutedWordTarget::Content,
                ActorTarget::All
            )],
            &rt.text,
            rt.facets.as_ref(),
            Some(&vec![]),
            None,
            None
        ));
        // match: bluesky
        assert!(has_muted_word(
            &[muted_word(
                "bluesky",
                MutedWordTarget::Content,
                ActorTarget::All
            )],
            &rt.text,
            rt.facets.as_ref(),
            Some(&vec![]),
            None,
            None
        ));
        // match: blueskys
        assert!(has_muted_word(
            &[muted_word(
                "blueskys",
                MutedWordTarget::Content,
                ActorTarget::All
            )],
            &rt.text,
            rt.facets.as_ref(),
            Some(&vec![]),
            None,
            None
        ));
    }
    // Why so S@assy?
    {
        let rt = rich_text_with_detect_facets("Why so S@assy?");
        // match: S@assy
        assert!(has_muted_word(
            &[muted_word(
                "S@assy",
                MutedWordTarget::Content,
                ActorTarget::All
            )],
            &rt.text,
            rt.facets.as_ref(),
            Some(&vec![]),
            None,
            None
        ));
        // match: s@assy
        assert!(has_muted_word(
            &[muted_word(
                "s@assy",
                MutedWordTarget::Content,
                ActorTarget::All
            )],
            &rt.text,
            rt.facets.as_ref(),
            Some(&vec![]),
            None,
            None
        ));
    }
    // New York Times
    {
        let rt = rich_text_with_detect_facets("New York Times");
        // match: new york times
        assert!(has_muted_word(
            &[muted_word(
                "new york times",
                MutedWordTarget::Content,
                ActorTarget::All
            )],
            &rt.text,
            rt.facets.as_ref(),
            Some(&vec![]),
            None,
            None
        ));
    }
    // !command
    {
        let rt = rich_text_with_detect_facets("Idk maybe a bot !command");
        // match: !command
        assert!(has_muted_word(
            &[muted_word(
                "!command",
                MutedWordTarget::Content,
                ActorTarget::All
            )],
            &rt.text,
            rt.facets.as_ref(),
            Some(&vec![]),
            None,
            None
        ));
        // match: command
        assert!(has_muted_word(
            &[muted_word(
                "command",
                MutedWordTarget::Content,
                ActorTarget::All
            )],
            &rt.text,
            rt.facets.as_ref(),
            Some(&vec![]),
            None,
            None
        ));
        // no match: !command
        let rt = rich_text_with_detect_facets("Idk maybe a bot command");
        assert!(!has_muted_word(
            &[muted_word(
                "!command",
                MutedWordTarget::Content,
                ActorTarget::All
            )],
            &rt.text,
            rt.facets.as_ref(),
            Some(&vec![]),
            None,
            None
        ));
    }
    // e/acc
    {
        let rt = rich_text_with_detect_facets("I'm e/acc pilled");
        // match: e/acc
        assert!(has_muted_word(
            &[muted_word(
                "e/acc",
                MutedWordTarget::Content,
                ActorTarget::All
            )],
            &rt.text,
            rt.facets.as_ref(),
            Some(&vec![]),
            None,
            None
        ));
        // match: acc
        assert!(has_muted_word(
            &[muted_word(
                "acc",
                MutedWordTarget::Content,
                ActorTarget::All
            )],
            &rt.text,
            rt.facets.as_ref(),
            Some(&vec![]),
            None,
            None
        ));
    }
    // super-bad
    {
        let rt = rich_text_with_detect_facets("I'm super-bad");
        // match: super-bad
        assert!(has_muted_word(
            &[muted_word(
                "super-bad",
                MutedWordTarget::Content,
                ActorTarget::All
            )],
            &rt.text,
            rt.facets.as_ref(),
            Some(&vec![]),
            None,
            None
        ));
        // match: super
        assert!(has_muted_word(
            &[muted_word(
                "super",
                MutedWordTarget::Content,
                ActorTarget::All
            )],
            &rt.text,
            rt.facets.as_ref(),
            Some(&vec![]),
            None,
            None
        ));
        // match: bad
        assert!(has_muted_word(
            &[muted_word(
                "bad",
                MutedWordTarget::Content,
                ActorTarget::All
            )],
            &rt.text,
            rt.facets.as_ref(),
            Some(&vec![]),
            None,
            None
        ));
        // match: super bad
        assert!(has_muted_word(
            &[muted_word(
                "super bad",
                MutedWordTarget::Content,
                ActorTarget::All
            )],
            &rt.text,
            rt.facets.as_ref(),
            Some(&vec![]),
            None,
            None
        ));
        // match: superbad
        assert!(has_muted_word(
            &[muted_word(
                "superbad",
                MutedWordTarget::Content,
                ActorTarget::All
            )],
            &rt.text,
            rt.facets.as_ref(),
            Some(&vec![]),
            None,
            None
        ));
    }
    // idk_what_this_would_be
    {
        let rt = rich_text_with_detect_facets("Weird post with idk_what_this_would_be");
        // match: idk what this would be
        assert!(has_muted_word(
            &[muted_word(
                "idk what this would be",
                MutedWordTarget::Content,
                ActorTarget::All
            )],
            &rt.text,
            rt.facets.as_ref(),
            Some(&vec![]),
            None,
            None
        ));
        // no match: idk what this would be for
        assert!(!has_muted_word(
            &[muted_word(
                "idk what this would be for",
                MutedWordTarget::Content,
                ActorTarget::All
            )],
            &rt.text,
            rt.facets.as_ref(),
            Some(&vec![]),
            None,
            None
        ));
        // match: idk
        assert!(has_muted_word(
            &[muted_word(
                "idk",
                MutedWordTarget::Content,
                ActorTarget::All
            )],
            &rt.text,
            rt.facets.as_ref(),
            Some(&vec![]),
            None,
            None
        ));
        // match: idkwhatthiswouldbe
        assert!(has_muted_word(
            &[muted_word(
                "idkwhatthiswouldbe",
                MutedWordTarget::Content,
                ActorTarget::All
            )],
            &rt.text,
            rt.facets.as_ref(),
            Some(&vec![]),
            None,
            None
        ));
    }
    // parentheses
    {
        let rt = rich_text_with_detect_facets("Post with context(iykyk)");
        // match: context(iykyk)
        assert!(has_muted_word(
            &[muted_word(
                "context(iykyk)",
                MutedWordTarget::Content,
                ActorTarget::All
            )],
            &rt.text,
            rt.facets.as_ref(),
            Some(&vec![]),
            None,
            None
        ));
        // match: context
        assert!(has_muted_word(
            &[muted_word(
                "context",
                MutedWordTarget::Content,
                ActorTarget::All
            )],
            &rt.text,
            rt.facets.as_ref(),
            Some(&vec![]),
            None,
            None
        ));
        // match: iykyk
        assert!(has_muted_word(
            &[muted_word(
                "iykyk",
                MutedWordTarget::Content,
                ActorTarget::All
            )],
            &rt.text,
            rt.facets.as_ref(),
            Some(&vec![]),
            None,
            None
        ));
        // match: (iykyk)
        assert!(has_muted_word(
            &[muted_word(
                "(iykyk)",
                MutedWordTarget::Content,
                ActorTarget::All
            )],
            &rt.text,
            rt.facets.as_ref(),
            Some(&vec![]),
            None,
            None
        ));
    }
    // 🦋
    {
        let rt = rich_text_with_detect_facets("Post with 🦋");
        // match: 🦋
        assert!(has_muted_word(
            &[muted_word("🦋", MutedWordTarget::Content, ActorTarget::All)],
            &rt.text,
            rt.facets.as_ref(),
            Some(&vec![]),
            None,
            None
        ));
    }
    // phrases
    {
        let rt = rich_text_with_detect_facets(
            "I like turtles, or how I learned to stop worrying and love the internet.",
        );
        // match: stop worrying
        assert!(has_muted_word(
            &[muted_word(
                "stop worrying",
                MutedWordTarget::Content,
                ActorTarget::All
            )],
            &rt.text,
            rt.facets.as_ref(),
            Some(&vec![]),
            None,
            None
        ));
        // match: turtles, or how
        assert!(has_muted_word(
            &[muted_word(
                "turtles, or how",
                MutedWordTarget::Content,
                ActorTarget::All
            )],
            &rt.text,
            rt.facets.as_ref(),
            Some(&vec![]),
            None,
            None
        ));
    }
    // languages without spaces
    {
        let rt = rich_text_with_detect_facets("私はカメが好きです、またはどのようにして心配するのをやめてインターネットを愛するようになったのか");
        // match: インターネット
        assert!(has_muted_word(
            &[muted_word(
                "インターネット",
                MutedWordTarget::Content,
                ActorTarget::All
            )],
            &rt.text,
            rt.facets.as_ref(),
            Some(&vec![]),
            Some(&vec![String::from("ja")]),
            None
        ));
    }
}

#[test]
fn facet_with_multiple_features() {
    // multiple tags
    {
        assert!(has_muted_word(
            &[muted_word("bad", MutedWordTarget::Content, ActorTarget::All)],
            "tags",
            Some(&vec![Facet {
                features: vec![tag("good"), tag("bad")],
                index: ByteSlice { byte_end: 4, byte_start: 0 },
            }]),
            Some(&vec![]),
            None,
            None
        ))
    }
    // other features
    {
        assert!(has_muted_word(
            &[muted_word("bad", MutedWordTarget::Content, ActorTarget::All)],
            "test",
            Some(&vec![Facet {
                features: vec![
                    FacetFeature::Other(String::from("com.example.richtext.facet#other")),
                    tag("bad"),
                ],
                index: ByteSlice { byte_end: 4, byte_start: 0 },
            }]),
            Some(&vec![]),
            None,
            None
        ))
    }
}

#[test]
fn does_not_mute_own_post() {
    let prefs = || moderation_prefs("words", MutedWordTarget::Content, ActorTarget::All, None);
    let post = &post_view(&profile_view_basic("bob.test"), "Mute words!");
    // does mute if it isn't own post
    let moderator = Moderator::new(Some(String::from("did:web:alice.test")), prefs(), StringMap::new());
    let result = moderator.moderate_post(post);
    assert!(result.ui(DecisionContext::ContentList).filter(), "post should be filtered");
    // doesn't mute own post when muted word is in text
    let moderator = Moderator::new(Some(String::from("did:web:bob.test")), prefs(), StringMap::new());
    let result = moderator.moderate_post(post);
    assert!(!result.ui(DecisionContext::ContentList).filter(), "post should not be filtered");
}

#[test]
fn does_not_mute_own_tags() {
    let prefs = moderation_prefs("words", MutedWordTarget::Tag, ActorTarget::All, None);
    let rt = rich_text_with_detect_facets("Mute #words!");
    let mut post = post_view(&profile_view_basic("bob.test"), &rt.text);
    if let Some(record) = post.record.as_mut() {
        record.facets = rt.facets;
    }
    let moderator = Moderator::new(Some(String::from("did:web:bob.test")), prefs, StringMap::new());
    let result = moderator.moderate_post(&post);
    assert!(!result.ui(DecisionContext::ContentList).filter(), "post should not be filtered");
}

#[test]
fn timed_mute_words() {
    // non-expired word
    {
        let now = current_time();
        let prefs = moderation_prefs(
            "words",
            MutedWordTarget::Content,
            ActorTarget::All,
            Some(Timestamp { seconds: now.seconds + 1, nanos: now.nanos }),
        );
        let post = &post_view(&profile_view_basic("bob.test"), "Mute words!");
        let moderator = Moderator::new(Some(String::from("did:web:alice.test")), prefs, StringMap::new());
        let result = moderator.moderate_post(post);
        assert!(result.ui(DecisionContext::ContentList).filter(), "post should be filtered");
    }
    // expired word
    {
        let now = current_time();
        let prefs = moderation_prefs(
            "words",
            MutedWordTarget::Content,
            ActorTarget::All,
            Some(Timestamp { seconds: now.seconds - 1, nanos: now.nanos }),
        );
        let post = &post_view(&profile_view_basic("bob.test"), "Mute words!");
        let moderator = Moderator::new(Some(String::from("did:web:alice.test")), prefs, StringMap::new());
        let result = moderator.moderate_post(post);
        assert!(!result.ui(DecisionContext::ContentList).filter(), "post should not be filtered");
    }
}

#[test]
fn actor_based_mute_words() {
    let prefs = || {
        moderation_prefs("words", MutedWordTarget::Content, ActorTarget::ExcludeFollowing, None)
    };
    // followed actor
    {
        let mut author = profile_view_basic("bob.test");
        author.viewer = Some(viewer_state(Some(String::from("true"))));
        let moderator = Moderator::new(Some(String::from("did:web:alice.test")), prefs(), StringMap::new());
        let result = moderator.moderate_post(&post_view(&author, "Mute words!"));
        assert!(!result.ui(DecisionContext::ContentList).filter(), "post should not be filtered");
    }
    // non-followed actor
    {
        let mut author = profile_view_basic("carla.test");
        author.viewer = Some(viewer_state(None));
        let moderator = Moderator::new(Some(String::from("did:web:alice.test")), prefs(), StringMap::new());
        let result = moderator.moderate_post(&post_view(&author, "Mute words!"));
        assert!(result.ui(DecisionContext::ContentList).filter(), "post should be filtered");
    }
}

#[test]
fn muted_word_expires_only_after_its_instant() {
    let at = Timestamp { seconds: 1_000, nanos: 0 };
    let mut word = muted_word("words", MutedWordTarget::Content, ActorTarget::All);
    word.expires_at = Some(Timestamp { seconds: 1_000, nanos: 1 });
    assert!(has_muted_word_at(at, &[word.clone()], "Mute words!", None, None, None, None));
    word.expires_at = Some(at);
    assert!(has_muted_word_at(at, &[word.clone()], "Mute words!", None, None, None, None));
    word.expires_at = Some(Timestamp { seconds: 999, nanos: 999_999_999 });
    assert!(!has_muted_word_at(at, &[word], "Mute words!", None, None, None, None));
}

#[test]
fn muting_more_words_never_unmutes() {
    let at = Timestamp { seconds: 1_000, nanos: 0 };
    let words = muted_word("words", MutedWordTarget::Content, ActorTarget::All);
    let other = muted_word("other", MutedWordTarget::Content, ActorTarget::All);
    let texts = ["Mute words!", "nothing here", "other things"];
    for text in texts {
        let fewer = has_muted_word_at(at, &[words.clone()], text, None, None, None, None);
        let more = has_muted_word_at(at, &[other.clone(), words.clone()], text, None, None, None, None);
        assert!(!fewer || more);
    }
    assert!(!has_muted_word_at(at, &[words.clone()], "other things", None, None, None, None));
    assert!(has_muted_word_at(at, &[other, words], "other things", None, None, None, None));
}
