use bsky_sdk::agent::config::{Config, ConfigFormat, FileStore};
use bsky_sdk::agent::{labelers_for_header, parse_labeler_entry, parse_labelers_header, parse_proxy_header};
use bsky_sdk::error::Error;
use bsky_sdk::identity::at_identifier_is_valid;
use bsky_sdk::keyed::StringMap;
use bsky_sdk::moderation::labels::KnownLabelValue;
use bsky_sdk::moderation::subjects::user_list::did_of_list_uri;
use bsky_sdk::moderation::types::{
    LabelPreference, LabelValueDefinitionBlurs, LabelValueDefinitionSeverity, ModerationPrefs,
    ModerationPrefsLabeler, MutedWord,
};
use bsky_sdk::preference::{
    ContentLabelPrefItem, FeedViewPrefItem, FeedViewPreferenceData, PreferenceItem, Preferences,
    SavedFeed, ThreadViewPreferenceData,
};
use bsky_sdk::record::parse_record_uri;

const BSKY_LABELER: &str = "did:plc:ar7c4by46qjdydhdevvrndac";

#[test]
fn record_uris() {
    let uri = parse_record_uri("at://did:fake:handle.test/app.bsky.feed.post/somerkey").expect("valid uri");
    assert_eq!(uri.repo, "did:fake:handle.test");
    assert_eq!(uri.collection, "app.bsky.feed.post");
    assert_eq!(uri.rkey, "somerkey");
    let by_handle = parse_record_uri("at://handle.test/app.bsky.graph.block/3kxmfwtgfxl2w").expect("valid uri");
    assert_eq!(by_handle.repo, "handle.test");
    assert_eq!(parse_record_uri("did:fake:handle.test/app.bsky.feed.post/x"), Err(Error::InvalidAtUri));
    assert_eq!(parse_record_uri("at://did:fake:handle.test/app.bsky.feed.post"), Err(Error::InvalidAtUri));
    assert_eq!(parse_record_uri("at://did:fake:handle.test/notansid/x"), Err(Error::InvalidAtUri));
    assert_eq!(parse_record_uri("at://did:fake:handle.test/app.bsky.feed.post/a/b"), Err(Error::InvalidAtUri));
    assert_eq!(parse_record_uri("at://not an identifier/app.bsky.feed.post/x"), Err(Error::InvalidAtUri));
}

#[test]
fn identifiers() {
    assert!(at_identifier_is_valid("did:plc:123"));
    assert!(at_identifier_is_valid("alice.bsky.social"));
    assert!(!at_identifier_is_valid("alice"));
    assert!(!at_identifier_is_valid("did:PLC:123"));
    assert_eq!(did_of_list_uri("at://did:plc:fake/app.bsky.graph.list/fake").as_deref(), Some("did:plc:fake"));
    assert_eq!(did_of_list_uri("at://bob.test/app.bsky.graph.list/fake"), None);
    assert_eq!(did_of_list_uri("https://example.com"), None);
}

#[test]
fn labelers_and_proxy_headers() {
    assert_eq!(parse_labeler_entry("did:plc:abc"), Some((String::from("did:plc:abc"), false)));
    assert_eq!(parse_labeler_entry("did:plc:abc;redact"), Some((String::from("did:plc:abc"), true)));
    assert_eq!(parse_labeler_entry("did:plc:abc; redact "), Some((String::from("did:plc:abc"), true)));
    assert_eq!(parse_labeler_entry("did:plc:abc;other"), None);
    assert_eq!(parse_labeler_entry("not a did"), None);
    assert_eq!(
        parse_labelers_header(&vec![String::from("did:plc:a"), String::from("bad"), String::from("did:plc:b;redact")]),
        vec![(String::from("did:plc:a"), false), (String::from("did:plc:b"), true)]
    );
    assert_eq!(
        parse_proxy_header("did:web:api.bsky.chat#bsky_chat"),
        Some((String::from("did:web:api.bsky.chat"), String::from("bsky_chat")))
    );
    assert_eq!(parse_proxy_header("did:web:api.bsky.chat"), None);
    assert_eq!(parse_proxy_header("nodid#bsky_chat"), None);
}

#[test]
fn labelers_header_names_the_first_ten_labelers() {
    let mut prefs = ModerationPrefs::default();
    prefs.labelers.push(ModerationPrefsLabeler::default());
    for i in 0..12 {
        prefs.labelers.push(ModerationPrefsLabeler {
            did: format!("did:plc:labeler{i}"),
            labels: StringMap::new(),
            is_default_labeler: false,
        });
    }
    let header = labelers_for_header(&prefs);
    assert_eq!(header.len(), 10);
    assert_eq!(header[0], (String::from(BSKY_LABELER), true));
    assert_eq!(header[9], (String::from("did:plc:labeler8"), false));
}

#[test]
fn configuration() {
    let config = Config::default();
    assert_eq!(config.endpoint, "https://bsky.social");
    assert_eq!(config.labelers_header, None);
    let setup = Config {
        endpoint: String::from("https://example.com"),
        labelers_header: Some(vec![String::from("did:plc:a;redact")]),
        proxy_header: Some(String::from("did:web:example.com#atproto_labeler")),
    }
    .agent_setup();
    assert_eq!(setup.endpoint, "https://example.com");
    assert_eq!(setup.labelers, Some(vec![(String::from("did:plc:a"), true)]));
    assert_eq!(setup.proxy, Some((String::from("did:web:example.com"), String::from("atproto_labeler"))));
    assert_eq!(FileStore::new("config.json").format(), Some(ConfigFormat::Json));
    assert_eq!(FileStore::new("dir/config.toml").format(), None);
    assert_eq!(FileStore::new("config.yaml").format(), None);
    assert_eq!(FileStore::new("config").format(), None);
}

#[test]
fn preferences_from_stored_items() {
    let items = vec![
        PreferenceItem::AdultContent(true),
        PreferenceItem::ContentLabel(ContentLabelPrefItem {
            labeler_did: None,
            label: String::from("porn"),
            visibility: String::from("warn"),
        }),
        PreferenceItem::ContentLabel(ContentLabelPrefItem {
            labeler_did: Some(String::from("did:plc:labeler")),
            label: String::from("spam"),
            visibility: String::from("hide"),
        }),
        PreferenceItem::ContentLabel(ContentLabelPrefItem {
            labeler_did: Some(String::from("did:plc:unknown")),
            label: String::from("spam"),
            visibility: String::from("not a visibility"),
        }),
        PreferenceItem::Labelers(vec![String::from("did:plc:labeler")]),
        PreferenceItem::FeedView(FeedViewPrefItem {
            feed: String::from("home"),
            hide_replies: None,
            hide_replies_by_unfollowed: Some(false),
            hide_replies_by_like_count: None,
            hide_reposts: Some(true),
            hide_quote_posts: None,
        }),
        PreferenceItem::SavedFeedsV2(vec![SavedFeed {
            id: String::from("1"),
            pinned: true,
            type_: String::from("timeline"),
            value: String::from("following"),
        }]),
        PreferenceItem::MutedWords(vec![MutedWord {
            value: String::from("words"),
            targets: vec![String::from("content")],
            actor_target: None,
            expires_at: None,
        }]),
        PreferenceItem::HiddenPosts(vec![String::from("at://did:plc:x/app.bsky.feed.post/y")]),
        PreferenceItem::Other,
    ];
    let prefs = Preferences::from_items(items, true);
    let m = &prefs.moderation_prefs;
    assert!(m.adult_content_enabled);
    assert_eq!(m.labels.get("porn"), Some(&LabelPreference::Warn));
    assert_eq!(m.labelers.len(), 2);
    assert_eq!(m.labelers[0].did, BSKY_LABELER);
    assert!(m.labelers[0].is_default_labeler);
    assert_eq!(m.labelers[1].did, "did:plc:labeler");
    assert_eq!(m.labelers[1].labels.get("spam"), Some(&LabelPreference::Hide));
    assert_eq!(m.muted_words.len(), 1);
    assert_eq!(m.hidden_posts.len(), 1);
    assert_eq!(prefs.saved_feeds.len(), 1);
    let home = prefs.feed_view_prefs.get("home").expect("home feed preference");
    assert_eq!(
        *home,
        FeedViewPreferenceData { hide_replies_by_unfollowed: false, hide_reposts: true, ..Default::default() }
    );
    assert_eq!(prefs.thread_view_prefs, ThreadViewPreferenceData::default());
}

#[test]
fn preferences_reject_an_applied_unknown_visibility() {
    let items = || {
        vec![PreferenceItem::ContentLabel(ContentLabelPrefItem {
            labeler_did: None,
            label: String::from("porn"),
            visibility: String::from("blur"),
        })]
    };
    assert!(Preferences::from_items_checked(items(), false).is_none());
    let ignored = vec![PreferenceItem::ContentLabel(ContentLabelPrefItem {
        labeler_did: Some(String::from("did:plc:nobody")),
        label: String::from("porn"),
        visibility: String::from("blur"),
    })];
    let prefs = Preferences::from_items_checked(ignored, false).expect("the setting does not apply");
    assert!(prefs.moderation_prefs.labelers.is_empty());
    assert_eq!(prefs.moderation_prefs.labels.get("porn"), Some(&LabelPreference::Hide));
}

#[test]
fn default_preferences() {
    let prefs = Preferences::default();
    assert!(prefs.saved_feeds.is_empty());
    assert!(!prefs.moderation_prefs.adult_content_enabled);
    assert_eq!(prefs.moderation_prefs.labels.get("porn"), Some(&LabelPreference::Hide));
    assert_eq!(prefs.moderation_prefs.labels.get("nudity"), Some(&LabelPreference::Ignore));
    assert_eq!(prefs.moderation_prefs.labels.get("graphic-media"), Some(&LabelPreference::Warn));
    assert_eq!(prefs.thread_view_prefs.sort, "oldest");
    assert!(prefs.thread_view_prefs.prioritize_followed_users);
    let feed = FeedViewPreferenceData::default();
    assert!(feed.hide_replies_by_unfollowed);
    assert!(!feed.hide_reposts);
}

#[test]
fn label_settings_by_name() {
    for (name, value) in [
        ("ignore", LabelPreference::Ignore),
        ("warn", LabelPreference::Warn),
        ("hide", LabelPreference::Hide),
    ] {
        assert_eq!(LabelPreference::from_str(name), Ok(value));
        assert_eq!(value.as_str(), name);
    }
    assert!(LabelPreference::from_str("blur").is_err());
    assert_eq!(LabelValueDefinitionBlurs::from_str("none"), Ok(LabelValueDefinitionBlurs::NoBlur));
    assert_eq!(LabelValueDefinitionBlurs::from_str("media"), Ok(LabelValueDefinitionBlurs::Media));
    assert_eq!(LabelValueDefinitionSeverity::from_str("none"), Ok(LabelValueDefinitionSeverity::NoSeverity));
    assert_eq!(LabelValueDefinitionSeverity::from_str("alert"), Ok(LabelValueDefinitionSeverity::Alert));
    assert_eq!(KnownLabelValue::from_str("!hide"), Ok(KnownLabelValue::ReservedHide));
    assert_eq!(KnownLabelValue::from_str("graphic-media"), Ok(KnownLabelValue::GraphicMedia));
    assert!(KnownLabelValue::from_str("custom").is_err());
}

#[test]
fn string_maps() {
    let mut m = StringMap::new();
    m.insert(String::from("a"), 1);
    m.insert(String::from("b"), 2);
    m.insert(String::from("a"), 3);
    assert_eq!(m.len(), 2);
    assert_eq!(m.get("a"), Some(&3));
    assert_eq!(m.get("c"), None);
    assert_eq!(m.entries(), &vec![(String::from("a"), 3), (String::from("b"), 2)]);
    let from = StringMap::from_pairs(vec![(String::from("x"), 1), (String::from("x"), 2)]);
    assert_eq!(from.len(), 1);
    assert_eq!(from.get("x"), Some(&2));
}

fn label_pref(labeler: Option<&str>, label: &str, visibility: &str) -> PreferenceItem {
    PreferenceItem::ContentLabel(ContentLabelPrefItem {
        labeler_did: labeler.map(String::from),
        label: String::from(label),
        visibility: String::from(visibility),
    })
}

fn muted(value: &str) -> MutedWord {
    MutedWord { value: String::from(value), targets: vec![String::from("content")], actor_target: None, expires_at: None }
}

#[test]
fn preferences_keep_the_last_item_and_the_labelers_in_order() {
    let items = vec![
        label_pref(Some("did:plc:b"), "spam", "warn"),
        label_pref(None, "porn", "hide"),
        PreferenceItem::Labelers(vec![String::from("did:plc:a"), String::from("did:plc:b")]),
        PreferenceItem::AdultContent(true),
        PreferenceItem::MutedWords(vec![muted("one")]),
        label_pref(None, "porn", "ignore"),
        label_pref(Some("did:plc:c"), "spam", "hide"),
        PreferenceItem::Labelers(vec![String::from("did:plc:c")]),
        PreferenceItem::AdultContent(false),
        PreferenceItem::MutedWords(vec![muted("two"), muted("three")]),
        label_pref(Some("did:plc:b"), "spam", "hide"),
    ];
    let prefs = Preferences::from_items(items, false);
    let m = &prefs.moderation_prefs;
    let dids: Vec<&str> = m.labelers.iter().map(|l| l.did.as_str()).collect();
    assert_eq!(dids, vec!["did:plc:a", "did:plc:b", "did:plc:c"]);
    assert!(m.labelers.iter().all(|l| !l.is_default_labeler));
    assert!(!m.adult_content_enabled);
    assert_eq!(m.muted_words.len(), 2);
    assert_eq!(m.muted_words[0].value, "two");
    assert!(m.hidden_posts.is_empty());
    assert!(prefs.saved_feeds.is_empty());
    assert_eq!(m.labels.get("porn"), Some(&LabelPreference::Ignore));
    assert_eq!(m.labelers[1].labels.get("spam"), Some(&LabelPreference::Hide));
    assert_eq!(m.labelers[2].labels.get("spam"), Some(&LabelPreference::Hide));
    assert_eq!(m.labelers[0].labels.get("spam"), None);
}

#[test]
fn label_settings_for_unsubscribed_labelers_change_nothing() {
    let with_setting = vec![
        PreferenceItem::Labelers(vec![String::from("did:plc:a")]),
        label_pref(Some("did:plc:z"), "spam", "hide"),
        label_pref(Some("did:plc:a"), "spam", "warn"),
    ];
    let without_setting = vec![
        PreferenceItem::Labelers(vec![String::from("did:plc:a")]),
        label_pref(Some("did:plc:a"), "spam", "warn"),
    ];
    let a = Preferences::from_items(with_setting, true);
    let b = Preferences::from_items(without_setting, true);
    assert_eq!(format!("{:?}", a.moderation_prefs), format!("{:?}", b.moderation_prefs));
    assert_eq!(a.moderation_prefs.labelers.len(), 2);
}

#[test]
fn label_settings_apply_after_the_labelers_item() {
    let before = vec![
        label_pref(Some("did:plc:a"), "spam", "hide"),
        label_pref(None, "porn", "warn"),
        PreferenceItem::Labelers(vec![String::from("did:plc:a")]),
    ];
    let after = vec![
        PreferenceItem::Labelers(vec![String::from("did:plc:a")]),
        label_pref(Some("did:plc:a"), "spam", "hide"),
        label_pref(None, "porn", "warn"),
    ];
    let a = Preferences::from_items(before, false);
    let b = Preferences::from_items(after, false);
    assert_eq!(format!("{:?}", a.moderation_prefs), format!("{:?}", b.moderation_prefs));
    assert_eq!(a.moderation_prefs.labelers[0].labels.get("spam"), Some(&LabelPreference::Hide));
}
