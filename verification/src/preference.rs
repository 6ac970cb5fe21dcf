//! The user's preferences for a Bluesky application, and how they are
//! read from the preference items the server stores.
use vstd::prelude::*;
use crate::keyed::StringMap;
use crate::text::{copy_string, str_eq};
use crate::moderation::types::{
    spec_bsky_labeler_did, LabelPreference, ModerationPrefs, ModerationPrefsLabeler, MutedWord,
};

verus! {

/// How a feed is shown.
#[derive(Debug, Clone, Copy, PartialEq, Eq, Structural)]
pub struct FeedViewPreferenceData {
    pub hide_replies: bool,
    pub hide_replies_by_unfollowed: bool,
    pub hide_replies_by_like_count: i64,
    pub hide_reposts: bool,
    pub hide_quote_posts: bool,
}

/// The feed view preference every feed has until the user sets one:
/// replies by accounts the user does not follow hidden, nothing else.
pub open spec fn spec_default_feed_view() -> FeedViewPreferenceData {
    FeedViewPreferenceData {
        hide_replies: false,
        hide_replies_by_unfollowed: true,
        hide_replies_by_like_count: 0,
        hide_reposts: false,
        hide_quote_posts: false,
    }
}

impl Default for FeedViewPreferenceData {
    fn default() -> (r: Self)
        ensures
            r == spec_default_feed_view(),
    {
        FeedViewPreferenceData {
            hide_replies: false,
            hide_replies_by_unfollowed: true,
            hide_replies_by_like_count: 0,
            hide_reposts: false,
            hide_quote_posts: false,
        }
    }
}

/// How a thread is shown.
#[derive(Debug, Clone, PartialEq, Eq)]
pub struct ThreadViewPreferenceData {
    pub sort: String,
    pub prioritize_followed_users: bool,
}

/// Oldest replies first.
pub const SORT_OLDEST: &'static str = "oldest";

/// Newest replies first.
pub const SORT_NEWEST: &'static str = "newest";

/// Most liked replies first.
pub const SORT_MOST_LIKES: &'static str = "most-likes";

/// Replies in random order.
pub const SORT_RANDOM: &'static str = "random";

impl Default for ThreadViewPreferenceData {
    /// Oldest replies first, followed accounts first.
    fn default() -> (r: Self)
        ensures
            r.sort@ == "oldest"@,
            r.prioritize_followed_users,
    {
        ThreadViewPreferenceData { sort: String::from_str(SORT_OLDEST), prioritize_followed_users: true }
    }
}

/// A feed the user saved.
#[derive(Debug, Clone, PartialEq, Eq)]
pub struct SavedFeed {
    pub id: String,
    pub pinned: bool,
    pub type_: String,
    pub value: String,
}

/// The user's preferences.
#[derive(Debug)]
pub struct Preferences {
    pub saved_feeds: Vec<SavedFeed>,
    /// Feed view preferences, by feed.
    pub feed_view_prefs: StringMap<FeedViewPreferenceData>,
    pub thread_view_prefs: ThreadViewPreferenceData,
    pub moderation_prefs: ModerationPrefs,
}

// views

/// The mathematical value of a `ModerationPrefsLabeler`.
pub struct LabelerPrefView {
    pub did: Seq<char>,
    pub labels: Map<Seq<char>, LabelPreference>,
    pub is_default_labeler: bool,
}

/// The view of a subscribed labeler.
pub open spec fn labeler_view(l: ModerationPrefsLabeler) -> LabelerPrefView {
    LabelerPrefView { did: l.did@, labels: l.labels@, is_default_labeler: l.is_default_labeler }
}

/// The views of the subscribed labelers.
pub open spec fn labeler_views(ls: Seq<ModerationPrefsLabeler>) -> Seq<LabelerPrefView> {
    ls.map_values(|l: ModerationPrefsLabeler| labeler_view(l))
}

/// The mathematical value of a `ModerationPrefs`.
pub struct ModerationPrefsView {
    pub adult_content_enabled: bool,
    pub labels: Map<Seq<char>, LabelPreference>,
    pub labelers: Seq<LabelerPrefView>,
    pub muted_words: Seq<MutedWord>,
    pub hidden_posts: Seq<String>,
}

/// The view of moderation preferences.
pub open spec fn moderation_prefs_view(p: ModerationPrefs) -> ModerationPrefsView {
    ModerationPrefsView {
        adult_content_enabled: p.adult_content_enabled,
        labels: p.labels@,
        labelers: labeler_views(p.labelers@),
        muted_words: p.muted_words@,
        hidden_posts: p.hidden_posts@,
    }
}

/// The mathematical value of a `ThreadViewPreferenceData`.
pub struct ThreadViewView {
    pub sort: Seq<char>,
    pub prioritize_followed_users: bool,
}

/// The mathematical value of `Preferences`.
pub struct PreferencesView {
    pub saved_feeds: Seq<SavedFeed>,
    pub feed_view_prefs: Map<Seq<char>, FeedViewPreferenceData>,
    pub thread_view_prefs: ThreadViewView,
    pub moderation_prefs: ModerationPrefsView,
}

impl View for Preferences {
    type V = PreferencesView;

    open spec fn view(&self) -> PreferencesView {
        PreferencesView {
            saved_feeds: self.saved_feeds@,
            feed_view_prefs: self.feed_view_prefs@,
            thread_view_prefs: ThreadViewView {
                sort: self.thread_view_prefs.sort@,
                prioritize_followed_users: self.thread_view_prefs.prioritize_followed_users,
            },
            moderation_prefs: moderation_prefs_view(self.moderation_prefs),
        }
    }
}

/// The global label settings of the default moderation preferences.
pub open spec fn default_label_settings() -> Map<Seq<char>, LabelPreference> {
    Map::<Seq<char>, LabelPreference>::empty().insert("porn"@, LabelPreference::Hide).insert(
        "sexual"@,
        LabelPreference::Warn,
    ).insert("nudity"@, LabelPreference::Ignore).insert("graphic-media"@, LabelPreference::Warn)
}

/// The default preferences: no saved feeds or feed view preferences, the
/// default thread view, the default moderation preferences.
pub open spec fn is_default_preferences(p: PreferencesView) -> bool {
    &&& p.saved_feeds.len() == 0
    &&& p.feed_view_prefs == Map::<Seq<char>, FeedViewPreferenceData>::empty()
    &&& p.thread_view_prefs.sort == "oldest"@
    &&& p.thread_view_prefs.prioritize_followed_users
    &&& !p.moderation_prefs.adult_content_enabled
    &&& p.moderation_prefs.labels == default_label_settings()
    &&& p.moderation_prefs.labelers.len() == 0
    &&& p.moderation_prefs.muted_words.len() == 0
    &&& p.moderation_prefs.hidden_posts.len() == 0
}

impl Default for Preferences {
    fn default() -> (r: Self)
        ensures
            is_default_preferences(r@),
    {
        let r = Preferences {
            saved_feeds: Vec::new(),
            feed_view_prefs: StringMap::new(),
            thread_view_prefs: ThreadViewPreferenceData::default(),
            moderation_prefs: ModerationPrefs::default(),
        };
        assert(r@.moderation_prefs.labelers =~= Seq::<LabelerPrefView>::empty());
        r
    }
}

// reading preference items

/// A feed view preference as stored: each setting that was set.
#[derive(Debug, Clone)]
pub struct FeedViewPrefItem {
    pub feed: String,
    pub hide_replies: Option<bool>,
    pub hide_replies_by_unfollowed: Option<bool>,
    pub hide_replies_by_like_count: Option<i64>,
    pub hide_reposts: Option<bool>,
    pub hide_quote_posts: Option<bool>,
}

/// A label setting as stored: for one labeler, or for all when none is named.
#[derive(Debug, Clone)]
pub struct ContentLabelPrefItem {
    pub labeler_did: Option<String>,
    pub label: String,
    pub visibility: String,
}

/// One stored preference.
#[derive(Debug)]
pub enum PreferenceItem {
    AdultContent(bool),
    ContentLabel(ContentLabelPrefItem),
    SavedFeedsV2(Vec<SavedFeed>),
    FeedView(FeedViewPrefItem),
    MutedWords(Vec<MutedWord>),
    HiddenPosts(Vec<String>),
    /// The labelers the user subscribes to, by DID.
    Labelers(Vec<String>),
    /// A preference this library does not read.
    Other,
}

/// A setting, or a default when it is not set.
pub open spec fn or_default<T>(o: Option<T>, d: T) -> T {
    match o {
        Some(v) => v,
        None => d,
    }
}

/// The feed view preference a stored item gives: its settings over the defaults.
pub open spec fn feed_view_of(f: FeedViewPrefItem) -> FeedViewPreferenceData {
    let d = spec_default_feed_view();
    FeedViewPreferenceData {
        hide_replies: or_default(f.hide_replies, d.hide_replies),
        hide_replies_by_unfollowed: or_default(f.hide_replies_by_unfollowed, d.hide_replies_by_unfollowed),
        hide_replies_by_like_count: or_default(f.hide_replies_by_like_count, d.hide_replies_by_like_count),
        hide_reposts: or_default(f.hide_reposts, d.hide_reposts),
        hide_quote_posts: or_default(f.hide_quote_posts, d.hide_quote_posts),
    }
}

/// A subscribed labeler with no label settings.
pub open spec fn subscribed_labeler(did: Seq<char>) -> LabelerPrefView {
    LabelerPrefView { did, labels: Map::empty(), is_default_labeler: false }
}

/// What one stored preference changes. Label settings are applied later,
/// once every labeler is known.
pub open spec fn step_item(p: PreferencesView, item: PreferenceItem) -> PreferencesView {
    let m = p.moderation_prefs;
    match item {
        PreferenceItem::AdultContent(enabled) => PreferencesView {
            moderation_prefs: ModerationPrefsView { adult_content_enabled: enabled, ..m },
            ..p
        },
        PreferenceItem::SavedFeedsV2(feeds) => PreferencesView { saved_feeds: feeds@, ..p },
        PreferenceItem::FeedView(f) => PreferencesView {
            feed_view_prefs: p.feed_view_prefs.insert(f.feed@, feed_view_of(f)),
            ..p
        },
        PreferenceItem::MutedWords(words) => PreferencesView {
            moderation_prefs: ModerationPrefsView { muted_words: words@, ..m },
            ..p
        },
        PreferenceItem::HiddenPosts(posts) => PreferencesView {
            moderation_prefs: ModerationPrefsView { hidden_posts: posts@, ..m },
            ..p
        },
        PreferenceItem::Labelers(dids) => PreferencesView {
            moderation_prefs: ModerationPrefsView {
                labelers: m.labelers + dids@.map_values(|d: String| subscribed_labeler(d@)),
                ..m
            },
            ..p
        },
        _ => p,
    }
}

/// The preferences after the stored preferences, in order.
pub open spec fn after_items(items: Seq<PreferenceItem>, start: PreferencesView) -> PreferencesView
    decreases items.len(),
{
    if items.len() == 0 {
        start
    } else {
        step_item(after_items(items.drop_last(), start), items.last())
    }
}

/// The label settings among the stored preferences, in order.
pub open spec fn content_label_items(items: Seq<PreferenceItem>) -> Seq<ContentLabelPrefItem>
    decreases items.len(),
{
    if items.len() == 0 {
        Seq::empty()
    } else {
        let r = content_label_items(items.drop_last());
        match items.last() {
            PreferenceItem::ContentLabel(c) => r.push(c),
            _ => r,
        }
    }
}

/// Whether `k` is the first labeler with the given DID.
pub open spec fn is_first_labeler(ls: Seq<LabelerPrefView>, did: Seq<char>, k: int) -> bool {
    0 <= k < ls.len() && ls[k].did == did && forall|j: int| 0 <= j < k ==> ls[j].did != did
}

/// The first labeler with the given DID, if any.
pub open spec fn first_labeler_index(ls: Seq<LabelerPrefView>, did: Seq<char>) -> Option<int> {
    if exists|k: int| is_first_labeler(ls, did, k) {
        Some(choose|k: int| is_first_labeler(ls, did, k))
    } else {
        None
    }
}

/// Whether a label setting would be applied: a global one always, one for
/// a labeler when the user subscribes to that labeler.
pub open spec fn applies(m: ModerationPrefsView, c: ContentLabelPrefItem) -> bool {
    match c.labeler_did {
        Some(d) => first_labeler_index(m.labelers, d@) is Some,
        None => true,
    }
}

/// What one label setting changes: the setting for the label at the first
/// labeler with its DID (nothing if there is none), or the global setting
/// for the label.
pub open spec fn apply_label_pref(m: ModerationPrefsView, c: ContentLabelPrefItem) -> ModerationPrefsView {
    let vis = LabelPreference::spec_parse(c.visibility@)->Some_0;
    match c.labeler_did {
        Some(d) => match first_labeler_index(m.labelers, d@) {
            Some(i) => ModerationPrefsView {
                labelers: m.labelers.update(
                    i,
                    LabelerPrefView { labels: m.labelers[i].labels.insert(c.label@, vis), ..m.labelers[i] },
                ),
                ..m
            },
            None => m,
        },
        None => ModerationPrefsView { labels: m.labels.insert(c.label@, vis), ..m },
    }
}

/// The moderation preferences after label settings, in order.
pub open spec fn apply_label_prefs(m: ModerationPrefsView, cs: Seq<ContentLabelPrefItem>) -> ModerationPrefsView
    decreases cs.len(),
{
    if cs.len() == 0 {
        m
    } else {
        apply_label_pref(apply_label_prefs(m, cs.drop_last()), cs.last())
    }
}

/// The default labeler: Bluesky's own.
pub open spec fn default_labeler_view() -> LabelerPrefView {
    LabelerPrefView { did: spec_bsky_labeler_did(), labels: Map::empty(), is_default_labeler: true }
}

/// The preferences before any stored one is read: the defaults, with
/// Bluesky's labeler when it is enabled.
pub open spec fn initial_preferences(enable_bsky_labeler: bool) -> PreferencesView {
    PreferencesView {
        saved_feeds: Seq::empty(),
        feed_view_prefs: Map::empty(),
        thread_view_prefs: ThreadViewView { sort: "oldest"@, prioritize_followed_users: true },
        moderation_prefs: ModerationPrefsView {
            adult_content_enabled: false,
            labels: default_label_settings(),
            labelers: if enable_bsky_labeler {
                seq![default_labeler_view()]
            } else {
                Seq::empty()
            },
            muted_words: Seq::empty(),
            hidden_posts: Seq::empty(),
        },
    }
}

/// The preferences that stored preferences give: each item in order from
/// the initial preferences, then the label settings in order.
pub open spec fn spec_preferences_from(items: Seq<PreferenceItem>, enable_bsky_labeler: bool) -> PreferencesView {
    let p = after_items(items, initial_preferences(enable_bsky_labeler));
    PreferencesView {
        moderation_prefs: apply_label_prefs(p.moderation_prefs, content_label_items(items)),
        ..p
    }
}

/// Whether every label setting that would be applied names a known
/// visibility (`ignore`, `warn` or `hide`).
pub open spec fn label_visibilities_valid(items: Seq<PreferenceItem>, enable_bsky_labeler: bool) -> bool {
    let m = after_items(items, initial_preferences(enable_bsky_labeler)).moderation_prefs;
    let cs = content_label_items(items);
    forall|i: int|
        0 <= i < cs.len() && applies(m, #[trigger] cs[i]) ==> LabelPreference::spec_parse(
            cs[i].visibility@,
        ) is Some
}

proof fn lemma_labeler_views_push(ls: Seq<ModerationPrefsLabeler>, l: ModerationPrefsLabeler)
    ensures
        labeler_views(ls.push(l)) == labeler_views(ls).push(labeler_view(l)),
{
    assert(labeler_views(ls.push(l)) =~= labeler_views(ls).push(labeler_view(l)));
}

/// Decides `first_labeler_index`.
fn find_labeler_index(ls: &Vec<ModerationPrefsLabeler>, did: &str) -> (r: Option<usize>)
    ensures
        match r {
            Some(i) => first_labeler_index(labeler_views(ls@), did@) == Some(i as int),
            None => first_labeler_index(labeler_views(ls@), did@) is None,
        },
{
    let ghost lv = labeler_views(ls@);
    let mut k: usize = 0;
    while k < ls.len()
        invariant
            k <= ls@.len(),
            lv == labeler_views(ls@),
            forall|j: int| 0 <= j < k ==> lv[j].did != did@,
        decreases ls.len() - k,
    {
        if str_eq(ls[k].did.as_str(), did) {
            proof {
                assert(is_first_labeler(lv, did@, k as int));
                let q = choose|q: int| is_first_labeler(lv, did@, q);
                assert(q == k) by {
                    if q < k {
                        assert(lv[q].did != did@);
                    } else if q > k {
                        assert(lv[k as int].did == did@);
                    }
                }
            }
            return Some(k);
        }
        k = k + 1;
    }
    assert(!exists|q: int| is_first_labeler(lv, did@, q));
    None
}

/// Label settings change labels only, never which labelers there are.
proof fn lemma_label_prefs_keep_labelers(m: ModerationPrefsView, cs: Seq<ContentLabelPrefItem>)
    ensures
        apply_label_prefs(m, cs).labelers.len() == m.labelers.len(),
        forall|k: int|
            0 <= k < m.labelers.len() ==> (#[trigger] apply_label_prefs(m, cs).labelers[k]).did
                == m.labelers[k].did && apply_label_prefs(m, cs).labelers[k].is_default_labeler
                == m.labelers[k].is_default_labeler,
    decreases cs.len(),
{
    if cs.len() > 0 {
        lemma_label_prefs_keep_labelers(m, cs.drop_last());
    }
}

/// The DIDs of the labelers that stored preferences subscribe to, in order.
pub open spec fn subscribed_dids(items: Seq<PreferenceItem>) -> Seq<Seq<char>>
    decreases items.len(),
{
    if items.len() == 0 {
        Seq::empty()
    } else {
        let r = subscribed_dids(items.drop_last());
        match items.last() {
            PreferenceItem::Labelers(dids) => r + dids@.map_values(|d: String| d@),
            _ => r,
        }
    }
}

/// The DIDs of the labelers before any stored preference is read.
pub open spec fn initial_labeler_dids(enable_bsky_labeler: bool) -> Seq<Seq<char>> {
    if enable_bsky_labeler {
        seq![spec_bsky_labeler_did()]
    } else {
        Seq::empty()
    }
}

/// The DIDs of a list of labelers.
pub open spec fn labeler_dids(ls: Seq<LabelerPrefView>) -> Seq<Seq<char>> {
    ls.map_values(|l: LabelerPrefView| l.did)
}

proof fn lemma_after_items_labelers(items: Seq<PreferenceItem>, enable_bsky_labeler: bool)
    ensures
        ({
            let ls = after_items(items, initial_preferences(enable_bsky_labeler)).moderation_prefs.labelers;
            &&& labeler_dids(ls) == initial_labeler_dids(enable_bsky_labeler) + subscribed_dids(items)
            &&& forall|k: int| 0 <= k < ls.len() ==> (#[trigger] ls[k]).is_default_labeler == (enable_bsky_labeler && k == 0)
        }),
    decreases items.len(),
{
    let init = initial_preferences(enable_bsky_labeler);
    if items.len() == 0 {
        assert(labeler_dids(init.moderation_prefs.labelers) =~= initial_labeler_dids(enable_bsky_labeler)
            + Seq::<Seq<char>>::empty());
    } else {
        lemma_after_items_labelers(items.drop_last(), enable_bsky_labeler);
        let prev = after_items(items.drop_last(), init).moderation_prefs.labelers;
        let pre = initial_labeler_dids(enable_bsky_labeler) + subscribed_dids(items.drop_last());
        match items.last() {
            PreferenceItem::Labelers(dids) => {
                let added = dids@.map_values(|d: String| subscribed_labeler(d@));
                let ls = prev + added;
                assert(labeler_dids(ls) =~= pre + dids@.map_values(|d: String| d@)) by {
                    assert(labeler_dids(ls) =~= labeler_dids(prev) + labeler_dids(added));
                    assert(labeler_dids(added) =~= dids@.map_values(|d: String| d@));
                }
                assert(initial_labeler_dids(enable_bsky_labeler) + subscribed_dids(items) =~= pre
                    + dids@.map_values(|d: String| d@));
                assert forall|k: int| 0 <= k < ls.len() implies (#[trigger] ls[k]).is_default_labeler
                    == (enable_bsky_labeler && k == 0) by {
                    if k >= prev.len() {
                        assert(ls[k] == added[k - prev.len()]);
                        assert(labeler_dids(prev).len() == pre.len());
                        if enable_bsky_labeler {
                            assert(pre.len() >= 1);
                        }
                    } else {
                        assert(ls[k] == prev[k]);
                    }
                }
            },
            _ => {},
        }
    }
}

/// The labelers that stored preferences give: Bluesky's own first when it
/// is enabled, then each subscribed labeler in the order the items name
/// them; only Bluesky's own is the default labeler.
pub proof fn lemma_preferences_labelers(items: Seq<PreferenceItem>, enable_bsky_labeler: bool)
    ensures
        labeler_dids(spec_preferences_from(items, enable_bsky_labeler).moderation_prefs.labelers)
            == initial_labeler_dids(enable_bsky_labeler) + subscribed_dids(items),
        forall|k: int|
            0 <= k < spec_preferences_from(items, enable_bsky_labeler).moderation_prefs.labelers.len()
                ==> (#[trigger] spec_preferences_from(items, enable_bsky_labeler).moderation_prefs.labelers[k]).is_default_labeler
                == (enable_bsky_labeler && k == 0),
{
    let p = after_items(items, initial_preferences(enable_bsky_labeler));
    lemma_after_items_labelers(items, enable_bsky_labeler);
    lemma_label_prefs_keep_labelers(p.moderation_prefs, content_label_items(items));
    let ls = spec_preferences_from(items, enable_bsky_labeler).moderation_prefs.labelers;
    assert(labeler_dids(ls) =~= labeler_dids(p.moderation_prefs.labelers));
}

/// The saved feeds of the last `SavedFeedsV2` item, or none.
pub open spec fn last_saved_feeds(items: Seq<PreferenceItem>) -> Seq<SavedFeed>
    decreases items.len(),
{
    if items.len() == 0 {
        Seq::empty()
    } else {
        match items.last() {
            PreferenceItem::SavedFeedsV2(feeds) => feeds@,
            _ => last_saved_feeds(items.drop_last()),
        }
    }
}

/// The setting of the last `AdultContent` item, or `false`.
pub open spec fn last_adult_content(items: Seq<PreferenceItem>) -> bool
    decreases items.len(),
{
    if items.len() == 0 {
        false
    } else {
        match items.last() {
            PreferenceItem::AdultContent(enabled) => enabled,
            _ => last_adult_content(items.drop_last()),
        }
    }
}

/// The words of the last `MutedWords` item, or none.
pub open spec fn last_muted_words(items: Seq<PreferenceItem>) -> Seq<MutedWord>
    decreases items.len(),
{
    if items.len() == 0 {
        Seq::empty()
    } else {
        match items.last() {
            PreferenceItem::MutedWords(words) => words@,
            _ => last_muted_words(items.drop_last()),
        }
    }
}

/// The posts of the last `HiddenPosts` item, or none.
pub open spec fn last_hidden_posts(items: Seq<PreferenceItem>) -> Seq<String>
    decreases items.len(),
{
    if items.len() == 0 {
        Seq::empty()
    } else {
        match items.last() {
            PreferenceItem::HiddenPosts(posts) => posts@,
            _ => last_hidden_posts(items.drop_last()),
        }
    }
}

proof fn lemma_after_items_last(items: Seq<PreferenceItem>, enable_bsky_labeler: bool)
    ensures
        ({
            let p = after_items(items, initial_preferences(enable_bsky_labeler));
            &&& p.saved_feeds == last_saved_feeds(items)
            &&& p.moderation_prefs.adult_content_enabled == last_adult_content(items)
            &&& p.moderation_prefs.muted_words == last_muted_words(items)
            &&& p.moderation_prefs.hidden_posts == last_hidden_posts(items)
        }),
    decreases items.len(),
{
    if items.len() > 0 {
        lemma_after_items_last(items.drop_last(), enable_bsky_labeler);
    }
}

proof fn lemma_label_prefs_keep_rest(m: ModerationPrefsView, cs: Seq<ContentLabelPrefItem>)
    ensures
        apply_label_prefs(m, cs).adult_content_enabled == m.adult_content_enabled,
        apply_label_prefs(m, cs).muted_words == m.muted_words,
        apply_label_prefs(m, cs).hidden_posts == m.hidden_posts,
    decreases cs.len(),
{
    if cs.len() > 0 {
        lemma_label_prefs_keep_rest(m, cs.drop_last());
    }
}

/// Of the saved feeds, the adult-content setting, the muted words and the
/// hidden posts, the last stored item of each kind wins; with none, the
/// defaults stand (no feeds, adult content off, no words, no posts).
pub proof fn lemma_preferences_last_item_wins(items: Seq<PreferenceItem>, enable_bsky_labeler: bool)
    ensures
        spec_preferences_from(items, enable_bsky_labeler).saved_feeds == last_saved_feeds(items),
        spec_preferences_from(items, enable_bsky_labeler).moderation_prefs.adult_content_enabled
            == last_adult_content(items),
        spec_preferences_from(items, enable_bsky_labeler).moderation_prefs.muted_words == last_muted_words(items),
        spec_preferences_from(items, enable_bsky_labeler).moderation_prefs.hidden_posts == last_hidden_posts(
            items,
        ),
{
    let p = after_items(items, initial_preferences(enable_bsky_labeler));
    lemma_after_items_last(items, enable_bsky_labeler);
    lemma_label_prefs_keep_rest(p.moderation_prefs, content_label_items(items));
}

/// Whether a label setting is a global one for the given label.
pub open spec fn sets_global(c: ContentLabelPrefItem, label: Seq<char>) -> bool {
    c.labeler_did is None && c.label@ == label
}

/// Whether the label setting at `k` is the last global one for its label.
pub open spec fn last_global_setting(cs: Seq<ContentLabelPrefItem>, k: int) -> bool {
    &&& 0 <= k < cs.len()
    &&& cs[k].labeler_did is None
    &&& forall|j: int| k < j < cs.len() ==> !sets_global(#[trigger] cs[j], cs[k].label@)
}

proof fn lemma_apply_last_global(m: ModerationPrefsView, cs: Seq<ContentLabelPrefItem>, k: int)
    requires
        last_global_setting(cs, k),
    ensures
        apply_label_prefs(m, cs).labels[cs[k].label@] == LabelPreference::spec_parse(cs[k].visibility@)->Some_0,
    decreases cs.len(),
{
    if k < cs.len() - 1 {
        assert(!sets_global(cs[cs.len() - 1], cs[k].label@));
        assert(last_global_setting(cs.drop_last(), k));
        lemma_apply_last_global(m, cs.drop_last(), k);
    }
}

/// A global label setting holds unless a later global setting for the
/// same label follows it: the label then has the visibility it names,
/// wherever the labeler subscriptions stand among the items.
pub proof fn lemma_last_global_label_setting_wins(items: Seq<PreferenceItem>, enable_bsky_labeler: bool, k: int)
    requires
        last_global_setting(content_label_items(items), k),
    ensures
        spec_preferences_from(items, enable_bsky_labeler).moderation_prefs.labels[content_label_items(items)[k].label@]
            == LabelPreference::spec_parse(content_label_items(items)[k].visibility@)->Some_0,
{
    let p = after_items(items, initial_preferences(enable_bsky_labeler));
    lemma_apply_last_global(p.moderation_prefs, content_label_items(items), k);
}

/// Whether a label setting is one for the given labeler and label.
pub open spec fn sets_for_labeler(c: ContentLabelPrefItem, did: Seq<char>, label: Seq<char>) -> bool {
    c.labeler_did matches Some(d) && d@ == did && c.label@ == label
}

/// Whether the label setting at `k` names a labeler and is the last one
/// for that labeler and its label.
pub open spec fn last_labeler_setting(cs: Seq<ContentLabelPrefItem>, k: int) -> bool {
    &&& 0 <= k < cs.len()
    &&& cs[k].labeler_did is Some
    &&& forall|j: int|
        k < j < cs.len() ==> !sets_for_labeler(#[trigger] cs[j], cs[k].labeler_did->Some_0@, cs[k].label@)
}

proof fn lemma_first_labeler_unique(ls: Seq<LabelerPrefView>, did: Seq<char>, i: int)
    requires
        is_first_labeler(ls, did, i),
    ensures
        first_labeler_index(ls, did) == Some(i),
{
    let k = choose|k: int| is_first_labeler(ls, did, k);
    assert(is_first_labeler(ls, did, k));
    if k < i {
        assert(ls[k].did != did);
    } else if i < k {
        assert(ls[i].did != did);
    }
}

proof fn lemma_apply_last_labeler(m: ModerationPrefsView, cs: Seq<ContentLabelPrefItem>, k: int, i: int)
    requires
        last_labeler_setting(cs, k),
        is_first_labeler(m.labelers, cs[k].labeler_did->Some_0@, i),
    ensures
        i < apply_label_prefs(m, cs).labelers.len(),
        apply_label_prefs(m, cs).labelers[i].labels[cs[k].label@] == LabelPreference::spec_parse(
            cs[k].visibility@,
        )->Some_0,
    decreases cs.len(),
{
    let did = cs[k].labeler_did->Some_0@;
    let prev = apply_label_prefs(m, cs.drop_last());
    lemma_label_prefs_keep_labelers(m, cs.drop_last());
    lemma_first_labeler_same_dids(prev.labelers, m.labelers, did);
    lemma_first_labeler_unique(m.labelers, did, i);
    if k < cs.len() - 1 {
        let c = cs[cs.len() - 1];
        assert(!sets_for_labeler(c, did, cs[k].label@));
        assert(last_labeler_setting(cs.drop_last(), k));
        lemma_apply_last_labeler(m, cs.drop_last(), k, i);
        match c.labeler_did {
            Some(d) => {
                lemma_first_labeler_same_dids(prev.labelers, m.labelers, d@);
                match first_labeler_index(prev.labelers, d@) {
                    Some(j) => {
                        let q = choose|q: int| is_first_labeler(prev.labelers, d@, q);
                        assert(is_first_labeler(prev.labelers, d@, q));
                        if j == i {
                            assert(prev.labelers[i].did == m.labelers[i].did);
                        }
                    },
                    None => {},
                }
            },
            None => {},
        }
    } else {
        assert(first_labeler_index(prev.labelers, did) == Some(i));
    }
}

/// A label setting for a labeler the user subscribes to holds unless a
/// later setting for the same labeler and label follows it: the first
/// labeler with that DID then has the visibility it names for the label,
/// wherever the labeler subscriptions stand among the items.
pub proof fn lemma_last_labeler_label_setting_wins(
    items: Seq<PreferenceItem>,
    enable_bsky_labeler: bool,
    k: int,
    i: int,
)
    requires
        last_labeler_setting(content_label_items(items), k),
        is_first_labeler(
            spec_preferences_from(items, enable_bsky_labeler).moderation_prefs.labelers,
            content_label_items(items)[k].labeler_did->Some_0@,
            i,
        ),
    ensures
        spec_preferences_from(items, enable_bsky_labeler).moderation_prefs.labelers[i].labels[content_label_items(
            items,
        )[k].label@] == LabelPreference::spec_parse(content_label_items(items)[k].visibility@)->Some_0,
{
    let p = after_items(items, initial_preferences(enable_bsky_labeler));
    let cs = content_label_items(items);
    let did = cs[k].labeler_did->Some_0@;
    let fin = apply_label_prefs(p.moderation_prefs, cs);
    lemma_label_prefs_keep_labelers(p.moderation_prefs, cs);
    lemma_first_labeler_same_dids(fin.labelers, p.moderation_prefs.labelers, did);
    lemma_first_labeler_unique(fin.labelers, did, i);
    let q = choose|q: int| is_first_labeler(p.moderation_prefs.labelers, did, q);
    assert(is_first_labeler(p.moderation_prefs.labelers, did, q));
    lemma_first_labeler_unique(p.moderation_prefs.labelers, did, q);
    lemma_apply_last_labeler(p.moderation_prefs, cs, k, i);
}

proof fn lemma_after_items_concat(a: Seq<PreferenceItem>, b: Seq<PreferenceItem>, start: PreferencesView)
    ensures
        after_items(a + b, start) == after_items(b, after_items(a, start)),
    decreases b.len(),
{
    if b.len() == 0 {
        assert(a + b =~= a);
    } else {
        assert((a + b).drop_last() =~= a + b.drop_last());
        lemma_after_items_concat(a, b.drop_last(), start);
    }
}

proof fn lemma_content_label_items_concat(a: Seq<PreferenceItem>, b: Seq<PreferenceItem>)
    ensures
        content_label_items(a + b) == content_label_items(a) + content_label_items(b),
    decreases b.len(),
{
    if b.len() == 0 {
        assert(a + b =~= a);
        assert(content_label_items(a) + content_label_items(b) =~= content_label_items(a));
    } else {
        assert((a + b).drop_last() =~= a + b.drop_last());
        lemma_content_label_items_concat(a, b.drop_last());
        match b.last() {
            PreferenceItem::ContentLabel(c) => {
                assert(content_label_items(a) + content_label_items(b) =~= (content_label_items(a)
                    + content_label_items(b.drop_last())).push(c));
            },
            _ => {},
        }
    }
}

/// The stored preferences other than label settings, in order.
pub open spec fn other_items(items: Seq<PreferenceItem>) -> Seq<PreferenceItem>
    decreases items.len(),
{
    if items.len() == 0 {
        Seq::empty()
    } else {
        let r = other_items(items.drop_last());
        match items.last() {
            PreferenceItem::ContentLabel(_) => r,
            x => r.push(x),
        }
    }
}

/// Label settings as stored preferences.
pub open spec fn label_setting_items(cs: Seq<ContentLabelPrefItem>) -> Seq<PreferenceItem> {
    cs.map_values(|c: ContentLabelPrefItem| PreferenceItem::ContentLabel(c))
}

proof fn lemma_other_items(items: Seq<PreferenceItem>, start: PreferencesView)
    ensures
        after_items(other_items(items), start) == after_items(items, start),
        content_label_items(other_items(items)) == Seq::<ContentLabelPrefItem>::empty(),
    decreases items.len(),
{
    if items.len() > 0 {
        lemma_other_items(items.drop_last(), start);
        match items.last() {
            PreferenceItem::ContentLabel(_) => {},
            x => {
                assert(other_items(items).drop_last() =~= other_items(items.drop_last()));
            },
        }
    }
}

proof fn lemma_label_setting_items(cs: Seq<ContentLabelPrefItem>, start: PreferencesView)
    ensures
        after_items(label_setting_items(cs), start) == start,
        content_label_items(label_setting_items(cs)) == cs,
    decreases cs.len(),
{
    if cs.len() > 0 {
        lemma_label_setting_items(cs.drop_last(), start);
        assert(label_setting_items(cs).drop_last() =~= label_setting_items(cs.drop_last()));
        assert(cs.drop_last().push(cs.last()) =~= cs);
    } else {
        assert(label_setting_items(cs) =~= Seq::<PreferenceItem>::empty());
    }
}

/// Label settings apply once every other stored preference is read: the
/// preferences are the same with all label settings, in their order,
/// moved after the other items, so a setting does not depend on whether
/// the item naming the labelers comes before or after it.
pub proof fn lemma_label_settings_apply_last(items: Seq<PreferenceItem>, enable_bsky_labeler: bool)
    ensures
        spec_preferences_from(
            other_items(items) + label_setting_items(content_label_items(items)),
            enable_bsky_labeler,
        ) == spec_preferences_from(items, enable_bsky_labeler),
{
    let start = initial_preferences(enable_bsky_labeler);
    let cs = content_label_items(items);
    let o = other_items(items);
    let l = label_setting_items(cs);
    lemma_other_items(items, start);
    lemma_label_setting_items(cs, after_items(o, start));
    lemma_after_items_concat(o, l, start);
    lemma_content_label_items_concat(o, l);
    assert(Seq::<ContentLabelPrefItem>::empty() + cs =~= cs);
}

proof fn lemma_no_labeler_with(ls: Seq<LabelerPrefView>, did: Seq<char>)
    requires
        !labeler_dids(ls).contains(did),
    ensures
        first_labeler_index(ls, did) is None,
{
    if exists|k: int| is_first_labeler(ls, did, k) {
        let k = choose|k: int| is_first_labeler(ls, did, k);
        assert(labeler_dids(ls)[k] == did);
    }
}

proof fn lemma_apply_skips_unsubscribed(m: ModerationPrefsView, cs: Seq<ContentLabelPrefItem>, k: int)
    requires
        0 <= k < cs.len(),
        cs[k].labeler_did is Some,
        !labeler_dids(m.labelers).contains(cs[k].labeler_did->Some_0@),
    ensures
        apply_label_prefs(m, cs) == apply_label_prefs(m, cs.remove(k)),
    decreases cs.len(),
{
    let d = cs[k].labeler_did->Some_0@;
    let prev = apply_label_prefs(m, cs.drop_last());
    if k == cs.len() - 1 {
        assert(cs.remove(k) =~= cs.drop_last());
        lemma_label_prefs_keep_labelers(m, cs.drop_last());
        lemma_first_labeler_same_dids(prev.labelers, m.labelers, d);
        lemma_no_labeler_with(m.labelers, d);
    } else {
        assert(cs.remove(k).drop_last() =~= cs.drop_last().remove(k));
        assert(cs.remove(k).last() == cs.last());
        lemma_apply_skips_unsubscribed(m, cs.drop_last(), k);
    }
}

/// A label setting for a labeler the user does not subscribe to changes
/// nothing: the preferences are the same without it.
pub proof fn lemma_unsubscribed_label_setting_changes_nothing(
    items: Seq<PreferenceItem>,
    enable_bsky_labeler: bool,
    j: int,
)
    requires
        0 <= j < items.len(),
        items[j] matches PreferenceItem::ContentLabel(c) && c.labeler_did matches Some(d)
            && !labeler_dids(spec_preferences_from(items, enable_bsky_labeler).moderation_prefs.labelers).contains(d@),
    ensures
        spec_preferences_from(items.remove(j), enable_bsky_labeler) == spec_preferences_from(items, enable_bsky_labeler),
{
    let start = initial_preferences(enable_bsky_labeler);
    let a = items.take(j);
    let x = items[j];
    let b = items.skip(j + 1);
    assert(items =~= a + seq![x] + b);
    assert(items.remove(j) =~= a + b);
    lemma_after_items_concat(a + seq![x], b, start);
    lemma_after_items_concat(a, seq![x], start);
    lemma_after_items_concat(a, b, start);
    assert(seq![x].drop_last() =~= Seq::<PreferenceItem>::empty());
    assert(seq![x].last() == x);
    assert(after_items(Seq::<PreferenceItem>::empty(), after_items(a, start)) == after_items(a, start));
    assert(after_items(seq![x], after_items(a, start)) == after_items(a, start));
    lemma_content_label_items_concat(a + seq![x], b);
    lemma_content_label_items_concat(a, seq![x]);
    lemma_content_label_items_concat(a, b);
    let c = x->ContentLabel_0;
    assert(seq![x].drop_last() =~= Seq::<PreferenceItem>::empty());
    assert(x == PreferenceItem::ContentLabel(c));
    assert(content_label_items(Seq::<PreferenceItem>::empty()) == Seq::<ContentLabelPrefItem>::empty());
    assert(content_label_items(seq![x]) =~= seq![c]);
    let cs = content_label_items(items);
    let k = content_label_items(a).len() as int;
    assert(cs =~= content_label_items(a) + seq![c] + content_label_items(b));
    assert(cs.remove(k) =~= content_label_items(a) + content_label_items(b));
    let p = after_items(items, start);
    lemma_label_prefs_keep_labelers(p.moderation_prefs, cs);
    let fin = apply_label_prefs(p.moderation_prefs, cs);
    assert(labeler_dids(fin.labelers) =~= labeler_dids(p.moderation_prefs.labelers));
    lemma_apply_skips_unsubscribed(p.moderation_prefs, cs, k);
}

/// Whether item `j` is a feed view preference and no later item is one
/// for the same feed.
pub open spec fn last_feed_view(items: Seq<PreferenceItem>, j: int) -> bool {
    &&& 0 <= j < items.len()
    &&& items[j] is FeedView
    &&& forall|k: int|
        j < k < items.len() ==> !(#[trigger] items[k] matches PreferenceItem::FeedView(g) && g.feed@
            == items[j]->FeedView_0.feed@)
}

proof fn lemma_after_items_feed_view(items: Seq<PreferenceItem>, start: PreferencesView, j: int)
    requires
        last_feed_view(items, j),
    ensures
        after_items(items, start).feed_view_prefs.contains_key(items[j]->FeedView_0.feed@),
        after_items(items, start).feed_view_prefs[items[j]->FeedView_0.feed@] == feed_view_of(items[j]->FeedView_0),
    decreases items.len(),
{
    if j < items.len() - 1 {
        assert(last_feed_view(items.drop_last(), j)) by {
            assert forall|k: int| j < k < items.drop_last().len() implies !(#[trigger] items.drop_last()[k] matches PreferenceItem::FeedView(g) && g.feed@
                == items.drop_last()[j]->FeedView_0.feed@) by {
                assert(items.drop_last()[k] == items[k]);
            }
        }
        lemma_after_items_feed_view(items.drop_last(), start, j);
        assert(!(items[items.len() - 1] matches PreferenceItem::FeedView(g) && g.feed@ == items[j]->FeedView_0.feed@));
    }
}

/// A stored feed view preference, unless a later one for the same feed
/// replaces it, gives that feed's loaded preference: each setting it
/// holds overrides the default, and each one it leaves out is the default
/// (replies shown, replies by accounts not followed hidden, no like count,
/// reposts and quote posts shown).
pub proof fn lemma_feed_view_settings_override_defaults(
    items: Seq<PreferenceItem>,
    enable_bsky_labeler: bool,
    j: int,
)
    requires
        last_feed_view(items, j),
    ensures
        ({
            let f = items[j]->FeedView_0;
            let prefs = spec_preferences_from(items, enable_bsky_labeler).feed_view_prefs;
            &&& prefs.contains_key(f.feed@)
            &&& prefs[f.feed@].hide_replies == match f.hide_replies {
                Some(v) => v,
                None => false,
            }
            &&& prefs[f.feed@].hide_replies_by_unfollowed == match f.hide_replies_by_unfollowed {
                Some(v) => v,
                None => true,
            }
            &&& prefs[f.feed@].hide_replies_by_like_count == match f.hide_replies_by_like_count {
                Some(v) => v,
                None => 0,
            }
            &&& prefs[f.feed@].hide_reposts == match f.hide_reposts {
                Some(v) => v,
                None => false,
            }
            &&& prefs[f.feed@].hide_quote_posts == match f.hide_quote_posts {
                Some(v) => v,
                None => false,
            }
        }),
{
    lemma_after_items_feed_view(items, initial_preferences(enable_bsky_labeler), j);
}

/// Which labeler comes first with a DID depends on the DIDs alone.
proof fn lemma_first_labeler_same_dids(a: Seq<LabelerPrefView>, b: Seq<LabelerPrefView>, did: Seq<char>)
    requires
        a.len() == b.len(),
        forall|k: int| 0 <= k < a.len() ==> #[trigger] a[k].did == b[k].did,
    ensures
        first_labeler_index(a, did) == first_labeler_index(b, did),
{
    assert forall|k: int| is_first_labeler(a, did, k) <==> is_first_labeler(b, did, k) by {
        if is_first_labeler(a, did, k) {
            assert forall|j: int| 0 <= j < k implies b[j].did != did by {
                assert(a[j].did == b[j].did);
            }
        }
        if is_first_labeler(b, did, k) {
            assert forall|j: int| 0 <= j < k implies a[j].did != did by {
                assert(a[j].did == b[j].did);
            }
        }
    }
}

impl Preferences {
    /// The preferences that the stored preference items give before their
    /// label settings are applied, and those label settings in order.
    fn stored_items(items: Vec<PreferenceItem>, enable_bsky_labeler: bool) -> (r: (
        Self,
        Vec<ContentLabelPrefItem>,
    ))
        ensures
            r.0@ == after_items(items@, initial_preferences(enable_bsky_labeler)),
            r.1@ == content_label_items(items@),
    {
        let ghost all = items@;
        let mut prefs = Preferences::default();
        if enable_bsky_labeler {
            let l = ModerationPrefsLabeler::default();
            proof {
                lemma_labeler_views_push(prefs.moderation_prefs.labelers@, l);
            }
            prefs.moderation_prefs.labelers.push(l);
        }
        assert(prefs@.moderation_prefs.labelers =~= initial_preferences(enable_bsky_labeler).moderation_prefs.labelers);
        assert(prefs@.saved_feeds =~= Seq::<SavedFeed>::empty());
        assert(prefs@.moderation_prefs.muted_words =~= Seq::<MutedWord>::empty());
        assert(prefs@.moderation_prefs.hidden_posts =~= Seq::<String>::empty());
        assert(prefs@ == initial_preferences(enable_bsky_labeler));
        let mut label_prefs: Vec<ContentLabelPrefItem> = Vec::new();
        let mut rest = items;
        let ghost mut i: int = 0;
        assert(all.take(0) =~= Seq::<PreferenceItem>::empty());
        assert(label_prefs@ =~= content_label_items(all.take(0)));
        while rest.len() > 0
            invariant
                0 <= i <= all.len(),
                rest@ == all.skip(i),
                prefs@ == after_items(all.take(i), initial_preferences(enable_bsky_labeler)),
                label_prefs@ == content_label_items(all.take(i)),
            decreases rest.len(),
        {
            let item = rest.remove(0);
            proof {
                assert(item == all[i]);
                assert(all.take(i + 1).drop_last() =~= all.take(i));
                assert(all.take(i + 1).last() == item);
                assert(rest@ =~= all.skip(i + 1));
            }
            let ghost before = prefs@;
            match item {
                PreferenceItem::AdultContent(enabled) => {
                    prefs.moderation_prefs.adult_content_enabled = enabled;
                },
                PreferenceItem::ContentLabel(c) => {
                    label_prefs.push(c);
                },
                PreferenceItem::SavedFeedsV2(feeds) => {
                    prefs.saved_feeds = feeds;
                },
                PreferenceItem::FeedView(f) => {
                    let d = FeedViewPreferenceData::default();
                    let pref = FeedViewPreferenceData {
                        hide_replies: match f.hide_replies {
                            Some(v) => v,
                            None => d.hide_replies,
                        },
                        hide_replies_by_unfollowed: match f.hide_replies_by_unfollowed {
                            Some(v) => v,
                            None => d.hide_replies_by_unfollowed,
                        },
                        hide_replies_by_like_count: match f.hide_replies_by_like_count {
                            Some(v) => v,
                            None => d.hide_replies_by_like_count,
                        },
                        hide_reposts: match f.hide_reposts {
                            Some(v) => v,
                            None => d.hide_reposts,
                        },
                        hide_quote_posts: match f.hide_quote_posts {
                            Some(v) => v,
                            None => d.hide_quote_posts,
                        },
                    };
                    assert(pref == feed_view_of(f));
                    prefs.feed_view_prefs.insert(f.feed, pref);
                },
                PreferenceItem::MutedWords(words) => {
                    prefs.moderation_prefs.muted_words = words;
                },
                PreferenceItem::HiddenPosts(posts) => {
                    prefs.moderation_prefs.hidden_posts = posts;
                },
                PreferenceItem::Labelers(dids) => {
                    let ghost base = prefs@.moderation_prefs.labelers;
                    let mut k: usize = 0;
                    while k < dids.len()
                        invariant
                            k <= dids@.len(),
                            prefs@.moderation_prefs.labelers == base + dids@.take(k as int).map_values(
                                |d: String| subscribed_labeler(d@),
                            ),
                            prefs@.saved_feeds == before.saved_feeds,
                            prefs@.feed_view_prefs == before.feed_view_prefs,
                            prefs@.thread_view_prefs == before.thread_view_prefs,
                            prefs@.moderation_prefs.adult_content_enabled
                                == before.moderation_prefs.adult_content_enabled,
                            prefs@.moderation_prefs.labels == before.moderation_prefs.labels,
                            prefs@.moderation_prefs.muted_words == before.moderation_prefs.muted_words,
                            prefs@.moderation_prefs.hidden_posts == before.moderation_prefs.hidden_posts,
                        decreases dids.len() - k,
                    {
                        let l = ModerationPrefsLabeler {
                            did: copy_string(&dids[k]),
                            labels: StringMap::new(),
                            is_default_labeler: false,
                        };
                        proof {
                            lemma_labeler_views_push(prefs.moderation_prefs.labelers@, l);
                            assert(base + dids@.take(k + 1).map_values(|d: String| subscribed_labeler(d@))
                                =~= (base + dids@.take(k as int).map_values(
                                |d: String| subscribed_labeler(d@),
                            )).push(labeler_view(l)));
                        }
                        prefs.moderation_prefs.labelers.push(l);
                        k = k + 1;
                    }
                    assert(dids@.take(k as int) =~= dids@);
                },
                PreferenceItem::Other => {},
            }
            proof {
                i = i + 1;
            }
        }
        assert(all.take(i) =~= all);
        (prefs, label_prefs)
    }

    /// Applies label settings in order to preferences that the stored
    /// items gave.
    fn apply_label_items(
        prefs: Self,
        label_prefs: Vec<ContentLabelPrefItem>,
        Ghost(all): Ghost<Seq<PreferenceItem>>,
        Ghost(enable_bsky_labeler): Ghost<bool>,
    ) -> (r: Self)
        requires
            prefs@ == after_items(all, initial_preferences(enable_bsky_labeler)),
            label_prefs@ == content_label_items(all),
            label_visibilities_valid(all, enable_bsky_labeler),
        ensures
            r@ == spec_preferences_from(all, enable_bsky_labeler),
    {
        let mut prefs = prefs;
        let ghost m0 = prefs@.moderation_prefs;
        let mut j: usize = 0;
        assert(label_prefs@.take(0) =~= Seq::<ContentLabelPrefItem>::empty());
        while j < label_prefs.len()
            invariant
                j <= label_prefs@.len(),
                label_prefs@ == content_label_items(all),
                m0 == after_items(all, initial_preferences(enable_bsky_labeler)).moderation_prefs,
                label_visibilities_valid(all, enable_bsky_labeler),
                prefs@ == (PreferencesView {
                    moderation_prefs: apply_label_prefs(m0, label_prefs@.take(j as int)),
                    ..after_items(all, initial_preferences(enable_bsky_labeler))
                }),
            decreases label_prefs.len() - j,
        {
            let c = &label_prefs[j];
            let ghost cur = prefs@.moderation_prefs;
            proof {
                assert(label_prefs@.take(j + 1).drop_last() =~= label_prefs@.take(j as int));
                lemma_label_prefs_keep_labelers(m0, label_prefs@.take(j as int));
                if c.labeler_did is Some {
                    lemma_first_labeler_same_dids(cur.labelers, m0.labelers, c.labeler_did->Some_0@);
                }
            }
            match &c.labeler_did {
                Some(d) => {
                    match find_labeler_index(&prefs.moderation_prefs.labelers, d.as_str()) {
                        Some(idx) => {
                            assert(applies(m0, label_prefs@[j as int]));
                            let vis = match LabelPreference::from_str(c.visibility.as_str()) {
                                Ok(v) => v,
                                Err(_) => {
                                    proof {
                                        assert(false);
                                    }
                                    LabelPreference::Warn
                                },
                            };
                            let mut l = prefs.moderation_prefs.labelers.remove(idx);
                            l.labels.insert(copy_string(&c.label), vis);
                            let ghost lv = labeler_view(l);
                            prefs.moderation_prefs.labelers.insert(idx, l);
                            proof {
                                assert(labeler_views(prefs.moderation_prefs.labelers@) =~= cur.labelers.update(
                                    idx as int,
                                    lv,
                                ));
                            }
                        },
                        None => {},
                    }
                },
                None => {
                    let vis = match LabelPreference::from_str(c.visibility.as_str()) {
                        Ok(v) => v,
                        Err(_) => {
                            proof {
                                assert(false);
                            }
                            LabelPreference::Warn
                        },
                    };
                    prefs.moderation_prefs.labels.insert(copy_string(&c.label), vis);
                },
            }
            j = j + 1;
        }
        assert(label_prefs@.take(j as int) =~= label_prefs@);
        prefs
    }

    /// The preferences that the stored preference items give; see
    /// `spec_preferences_from`. Bluesky's labeler is subscribed first
    /// when `enable_bsky_labeler` is set.
    pub fn from_items(items: Vec<PreferenceItem>, enable_bsky_labeler: bool) -> (r: Self)
        requires
            label_visibilities_valid(items@, enable_bsky_labeler),
        ensures
            r@ == spec_preferences_from(items@, enable_bsky_labeler),
    {
        let ghost all = items@;
        let (prefs, label_prefs) = Self::stored_items(items, enable_bsky_labeler);
        Self::apply_label_items(prefs, label_prefs, Ghost(all), Ghost(enable_bsky_labeler))
    }

    /// The preferences that the stored preference items give, when every
    /// label setting that would be applied names a known visibility; none
    /// otherwise.
    pub fn from_items_checked(items: Vec<PreferenceItem>, enable_bsky_labeler: bool) -> (r: Option<Self>)
        ensures
            label_visibilities_valid(items@, enable_bsky_labeler) ==> (r matches Some(p) && p@
                == spec_preferences_from(items@, enable_bsky_labeler)),
            !label_visibilities_valid(items@, enable_bsky_labeler) ==> r is None,
    {
        let ghost all = items@;
        let (prefs, label_prefs) = Self::stored_items(items, enable_bsky_labeler);
        let ghost m = prefs@.moderation_prefs;
        let mut j: usize = 0;
        while j < label_prefs.len()
            invariant
                all == items@,
                j <= label_prefs@.len(),
                label_prefs@ == content_label_items(all),
                m == after_items(all, initial_preferences(enable_bsky_labeler)).moderation_prefs,
                m == prefs@.moderation_prefs,
                forall|k: int|
                    0 <= k < j && applies(m, #[trigger] label_prefs@[k]) ==> LabelPreference::spec_parse(
                        label_prefs@[k].visibility@,
                    ) is Some,
            decreases label_prefs.len() - j,
        {
            let c = &label_prefs[j];
            let applied = match &c.labeler_did {
                Some(d) => find_labeler_index(&prefs.moderation_prefs.labelers, d.as_str()).is_some(),
                None => true,
            };
            if applied && LabelPreference::from_str(c.visibility.as_str()).is_err() {
                proof {
                    let cs = content_label_items(all);
                    assert(cs[j as int] == label_prefs@[j as int]);
                    assert(applies(m, cs[j as int]));
                    assert(LabelPreference::spec_parse(cs[j as int].visibility@) is None);
                    assert(!label_visibilities_valid(all, enable_bsky_labeler));
                }
                return None;
            }
            j = j + 1;
        }
        Some(Self::apply_label_items(prefs, label_prefs, Ghost(all), Ghost(enable_bsky_labeler)))
    }
}

} // verus!
