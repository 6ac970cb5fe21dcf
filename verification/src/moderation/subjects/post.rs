//! Decisions about posts, and about the posts they quote.
use vstd::prelude::*;
use super::super::decision::{
    lemma_merged_causes_empty, lemma_merged_causes_push, merged_causes, user_cause_other,
    DecisionView, ModerationDecision,
};
use super::super::mutewords::{
    mute_applies, mute_matches, spec_exception, spec_tags, targets_content, white_space_pred, word_matches,
    has_muted_word_at, lemma_more_muted_words_match, muted_words_within, now, spec_has_muted_word,
};
use crate::rich_text::facet::Facet;
use crate::text::{lemma_split_on_joined, lemma_split_piece_utf8_len, lowercase, split_on, string_views};
use super::super::types::{
    BlockedAuthor, CauseView, EmbeddedRecord, ExternalEmbed, LabelTarget, MutedWord, PostEmbed,
    PostRecord, QuotedPost, RecordEmbed, RecordMedia, SubjectPost, SubjectProfile, Timestamp,
    ViewMedia,
};
use super::super::Moderator;
use super::account::spec_decide_account;
use super::profile::spec_decide_profile;
use super::{
    add_labels, add_viewer_causes, filtered_label_causes, is_me, spec_decide_authored, spec_is_me,
    viewer_causes, LabelFilter,
};
use crate::text::{copy_string, str_eq};

verus! {

/// A reference to the value of an option, if any.
pub open spec fn as_opt_ref<T>(o: &Option<T>) -> Option<&T> {
    match o {
        Some(x) => Some(x),
        None => None,
    }
}

// hidden posts

/// The URI of the post that a post quotes, if any.
pub open spec fn quoted_uri(embed: Option<PostEmbed>) -> Option<Seq<char>> {
    match embed {
        Some(PostEmbed::Record(EmbeddedRecord::Post(q))) => Some(q.uri@),
        Some(PostEmbed::RecordWithMedia(EmbeddedRecord::Post(q), _)) => Some(q.uri@),
        _ => None,
    }
}

/// Whether the user hid the post or the post it quotes.
pub open spec fn spec_check_hidden_post(subject: SubjectPost, hidden_posts: Seq<String>) -> bool {
    ||| string_views(hidden_posts).contains(subject.uri@)
    ||| (quoted_uri(subject.embed) matches Some(u) && string_views(hidden_posts).contains(u))
}

fn contains_string(list: &[String], s: &String) -> (r: bool)
    ensures
        r == string_views(list@).contains(s@),
{
    let mut i: usize = 0;
    while i < list.len()
        invariant
            i <= list@.len(),
            forall|j: int| 0 <= j < i ==> string_views(list@)[j] != s@,
        decreases list.len() - i,
    {
        if str_eq(list[i].as_str(), s.as_str()) {
            assert(string_views(list@)[i as int] == s@);
            return true;
        }
        i = i + 1;
    }
    false
}

/// Decides `spec_check_hidden_post`.
pub fn check_hidden_post(subject: &SubjectPost, hidden_posts: &[String]) -> (r: bool)
    ensures
        r == spec_check_hidden_post(*subject, hidden_posts@),
{
    if hidden_posts.len() == 0 {
        return false;
    }
    if contains_string(hidden_posts, &subject.uri) {
        return true;
    }
    match &subject.embed {
        Some(PostEmbed::Record(EmbeddedRecord::Post(q))) => contains_string(hidden_posts, &q.uri),
        Some(PostEmbed::RecordWithMedia(EmbeddedRecord::Post(q), _)) => contains_string(
            hidden_posts,
            &q.uri,
        ),
        _ => false,
    }
}

// muted words

/// The text of a link card that muted words are matched against: its
/// title and description, separated by a space.
pub open spec fn external_text(e: ExternalEmbed) -> Seq<char> {
    e.title@ + seq![' '] + e.description@
}

fn external_text_exec(e: &ExternalEmbed) -> (r: String)
    ensures
        r@ == external_text(*e),
{
    let mut s = copy_string(&e.title);
    s.push(' ');
    s.push_str(e.description.as_str());
    s
}

/// Whether a muted word matches the alt text of one of the images.
pub open spec fn any_alt_matches(
    now: Timestamp,
    mw: Seq<MutedWord>,
    alts: Seq<String>,
    langs: Option<&Vec<String>>,
    actor: Option<&SubjectProfile>,
) -> bool {
    exists|j: int|
        0 <= j < alts.len() && spec_has_muted_word(now, mw, #[trigger] alts[j]@, None, None, langs, actor)
}

/// Whether a muted word matches a record's text, facets and tags.
pub open spec fn text_matches(now: Timestamp, mw: Seq<MutedWord>, rec: PostRecord, actor: Option<&SubjectProfile>) -> bool {
    spec_has_muted_word(
        now,
        mw,
        rec.text@,
        as_opt_ref(&rec.facets),
        as_opt_ref(&rec.tags),
        as_opt_ref(&rec.langs),
        actor,
    )
}

/// Whether a muted word matches a post's own record: its text, or the
/// alt text of its images.
pub open spec fn own_record_matches(now: Timestamp, mw: Seq<MutedWord>, rec: PostRecord, author: SubjectProfile) -> bool {
    ||| text_matches(now, mw, rec, Some(&author))
    ||| match rec.embed {
        Some(RecordEmbed::Images(alts)) => any_alt_matches(now, mw, alts@, as_opt_ref(&rec.langs), Some(&author)),
        _ => false,
    }
}

/// Whether a muted word matches a quoted post's record: its text, its
/// images' alt texts, or its link card, also when they come with a
/// quote of its own.
pub open spec fn quoted_record_matches(now: Timestamp, mw: Seq<MutedWord>, rec: PostRecord, author: SubjectProfile) -> bool {
    ||| text_matches(now, mw, rec, Some(&author))
    ||| match rec.embed {
        Some(RecordEmbed::Images(alts)) => any_alt_matches(now, mw, alts@, as_opt_ref(&rec.langs), Some(&author)),
        Some(RecordEmbed::External(e)) => spec_has_muted_word(now, mw, external_text(e), None, None, None, Some(&author)),
        Some(RecordEmbed::RecordWithMedia(media)) => match media {
            RecordMedia::External(e) => spec_has_muted_word(now, mw, external_text(e), None, None, None, Some(&author)),
            RecordMedia::Images(alts) => any_alt_matches(now, mw, alts@, as_opt_ref(&rec.langs), Some(&author)),
            RecordMedia::Other => false,
        },
        _ => false,
    }
}

/// The languages of an optional record.
pub open spec fn record_langs(value: Option<PostRecord>) -> Option<Vec<String>> {
    match value {
        Some(r) => r.langs,
        None => None,
    }
}

/// Whether a muted word matches what a post's view embeds: a quoted post,
/// a link card, or a quoted post with media.
pub open spec fn embed_matches(now: Timestamp, mw: Seq<MutedWord>, embed: Option<PostEmbed>, author: SubjectProfile) -> bool {
    match embed {
        Some(PostEmbed::Record(EmbeddedRecord::Post(q))) => match q.value {
            Some(rec) => quoted_record_matches(now, mw, rec, q.author),
            None => false,
        },
        Some(PostEmbed::External(e)) => spec_has_muted_word(now, mw, external_text(e), None, None, None, Some(&author)),
        Some(PostEmbed::RecordWithMedia(EmbeddedRecord::Post(q), media)) => {
            ||| (q.value matches Some(rec) && text_matches(now, mw, rec, Some(&q.author)))
            ||| match media {
                ViewMedia::External(e) => spec_has_muted_word(now, mw, external_text(e), None, None, None, Some(&q.author)),
                ViewMedia::Images(alts) => any_alt_matches(
                    now,
                    mw,
                    alts@,
                    as_opt_ref(&record_langs(q.value)),
                    Some(&q.author),
                ),
                ViewMedia::Other => false,
            }
        },
        _ => false,
    }
}

/// Whether a muted word, applying at `now`, matches the post or what it embeds.
pub open spec fn spec_check_muted_words(now: Timestamp, subject: SubjectPost, mw: Seq<MutedWord>) -> bool {
    &&& mw.len() > 0
    &&& {
        ||| (subject.record matches Some(rec) && own_record_matches(now, mw, rec, subject.author))
        ||| embed_matches(now, mw, subject.embed, subject.author)
    }
}

fn any_alt_matches_exec(
    now: Timestamp,
    mw: &[MutedWord],
    alts: &Vec<String>,
    langs: Option<&Vec<String>>,
    actor: Option<&SubjectProfile>,
) -> (r: bool)
    ensures
        r == any_alt_matches(now, mw@, alts@, langs, actor),
{
    let mut j: usize = 0;
    while j < alts.len()
        invariant
            j <= alts@.len(),
            forall|k: int|
                0 <= k < j ==> !spec_has_muted_word(now, mw@, #[trigger] alts@[k]@, None, None, langs, actor),
        decreases alts.len() - j,
    {
        if has_muted_word_at(now, mw, alts[j].as_str(), None, None, langs, actor) {
            return true;
        }
        j = j + 1;
    }
    false
}

fn text_matches_exec(now: Timestamp, mw: &[MutedWord], rec: &PostRecord, actor: Option<&SubjectProfile>) -> (r: bool)
    ensures
        r == text_matches(now, mw@, *rec, actor),
{
    has_muted_word_at(
        now,
        mw,
        rec.text.as_str(),
        rec.facets.as_ref(),
        rec.tags.as_ref(),
        rec.langs.as_ref(),
        actor,
    )
}

fn quoted_record_matches_exec(now: Timestamp, mw: &[MutedWord], rec: &PostRecord, author: &SubjectProfile) -> (r: bool)
    ensures
        r == quoted_record_matches(now, mw@, *rec, *author),
{
    if text_matches_exec(now, mw, rec, Some(author)) {
        return true;
    }
    match &rec.embed {
        Some(RecordEmbed::Images(alts)) => any_alt_matches_exec(now, mw, alts, rec.langs.as_ref(), Some(author)),
        Some(RecordEmbed::External(e)) => has_muted_word_at(
            now,
            mw,
            external_text_exec(e).as_str(),
            None,
            None,
            None,
            Some(author),
        ),
        Some(RecordEmbed::RecordWithMedia(media)) => match media {
            RecordMedia::External(e) => has_muted_word_at(
                now,
                mw,
                external_text_exec(e).as_str(),
                None,
                None,
                None,
                Some(author),
            ),
            RecordMedia::Images(alts) => any_alt_matches_exec(now, mw, alts, rec.langs.as_ref(), Some(author)),
            RecordMedia::Other => false,
        },
        _ => false,
    }
}

fn embed_matches_exec(now: Timestamp, mw: &[MutedWord], embed: &Option<PostEmbed>, author: &SubjectProfile) -> (r: bool)
    ensures
        r == embed_matches(now, mw@, *embed, *author),
{
    match embed {
        Some(PostEmbed::Record(EmbeddedRecord::Post(q))) => match &q.value {
            Some(rec) => quoted_record_matches_exec(now, mw, rec, &q.author),
            None => false,
        },
        Some(PostEmbed::External(e)) => has_muted_word_at(
            now,
            mw,
            external_text_exec(e).as_str(),
            None,
            None,
            None,
            Some(author),
        ),
        Some(PostEmbed::RecordWithMedia(EmbeddedRecord::Post(q), media)) => {
            match &q.value {
                Some(rec) => {
                    if text_matches_exec(now, mw, rec, Some(&q.author)) {
                        return true;
                    }
                },
                None => {},
            }
            match media {
                ViewMedia::External(e) => has_muted_word_at(
                    now,
                    mw,
                    external_text_exec(e).as_str(),
                    None,
                    None,
                    None,
                    Some(&q.author),
                ),
                ViewMedia::Images(alts) => {
                    let langs = match &q.value {
                        Some(rec) => rec.langs.as_ref(),
                        None => None,
                    };
                    any_alt_matches_exec(now, mw, alts, langs, Some(&q.author))
                },
                ViewMedia::Other => false,
            }
        },
        _ => false,
    }
}

/// Decides `spec_check_muted_words`.
pub fn check_muted_words_at(now: Timestamp, subject: &SubjectPost, muted_words: &[MutedWord]) -> (r: bool)
    ensures
        r == spec_check_muted_words(now, *subject, muted_words@),
{
    if muted_words.len() == 0 {
        return false;
    }
    match &subject.record {
        Some(rec) => {
            if text_matches_exec(now, muted_words, rec, Some(&subject.author)) {
                return true;
            }
            match &rec.embed {
                Some(RecordEmbed::Images(alts)) => {
                    if any_alt_matches_exec(now, muted_words, alts, rec.langs.as_ref(), Some(&subject.author)) {
                        return true;
                    }
                },
                _ => {},
            }
        },
        None => {},
    }
    embed_matches_exec(now, muted_words, &subject.embed, &subject.author)
}

// decisions

/// The decision about a quoted post: its labels, then its author's
/// account and profile.
pub open spec fn spec_decide_quoted_post(m: Moderator, q: QuotedPost) -> DecisionView {
    spec_decide_authored(m, q.author, q.labels)
}

/// The decision about a quoted post hidden by a block: the viewer's mutes
/// and blocks of its author.
pub open spec fn spec_decide_blocked_quoted_post(m: Moderator, b: BlockedAuthor) -> DecisionView {
    DecisionView { did: Some(b.did@), is_me: spec_is_me(m, b.did@), causes: viewer_causes(b.viewer) }
}

/// The decision about what a post's view embeds, if it quotes a post.
pub open spec fn spec_embed_decision(m: Moderator, embed: Option<PostEmbed>) -> Option<DecisionView> {
    match embed {
        Some(PostEmbed::Record(EmbeddedRecord::Post(q))) => Some(spec_decide_quoted_post(m, q)),
        Some(PostEmbed::Record(EmbeddedRecord::Blocked(b))) => Some(spec_decide_blocked_quoted_post(m, b)),
        Some(PostEmbed::RecordWithMedia(EmbeddedRecord::Post(q), _)) => Some(spec_decide_quoted_post(m, q)),
        Some(PostEmbed::RecordWithMedia(EmbeddedRecord::Blocked(b), _)) => Some(
            spec_decide_blocked_quoted_post(m, b),
        ),
        _ => None,
    }
}

/// The causes of the post itself: its labels; a hidden-post cause when
/// the user hid it or what it quotes; a muted-word cause when a muted word
/// matches and the post is not the user's.
pub open spec fn spec_post_causes(m: Moderator, now: Timestamp, subject: SubjectPost) -> Seq<CauseView> {
    let did = subject.author.did@;
    filtered_label_causes(m, Some(did), LabelTarget::Content, subject.labels, LabelFilter::All) + (if spec_check_hidden_post(
        subject,
        m.prefs.hidden_posts@,
    ) {
        seq![CauseView::Hidden(user_cause_other())]
    } else {
        Seq::empty()
    }) + (if !spec_is_me(m, did) && spec_check_muted_words(now, subject, m.prefs.muted_words@) {
        seq![CauseView::MuteWord(user_cause_other())]
    } else {
        Seq::empty()
    })
}

/// The decision about a post at `now`: the post's own causes, then those
/// of what it quotes (downgraded: they no longer blur, alert or inform),
/// then its author's account and profile.
pub open spec fn spec_decide_post(m: Moderator, now: Timestamp, subject: SubjectPost) -> DecisionView {
    let did = subject.author.did@;
    DecisionView {
        did: Some(did),
        is_me: spec_is_me(m, did),
        causes: spec_post_causes(m, now, subject) + match spec_embed_decision(m, subject.embed) {
            Some(d) => d.causes.map_values(|c: CauseView| c.downgrade()),
            None => Seq::empty(),
        } + spec_decide_account(m, subject.author).causes + spec_decide_profile(
            m,
            subject.author,
        ).causes,
    }
}

/// The user's own posts never get a muted-word cause; a post the user
/// hid (or whose quoted post they hid) always gets a hidden-post cause.
pub proof fn lemma_post_causes(m: Moderator, now: Timestamp, subject: SubjectPost)
    ensures
        spec_is_me(m, subject.author.did@) ==> forall|i: int|
            0 <= i < spec_post_causes(m, now, subject).len() ==> !(#[trigger] spec_post_causes(
                m,
                now,
                subject,
            )[i] is MuteWord),
        spec_check_hidden_post(subject, m.prefs.hidden_posts@) ==> spec_post_causes(
            m,
            now,
            subject,
        ).contains(CauseView::Hidden(user_cause_other())),
{
    let did = subject.author.did@;
    let labels = filtered_label_causes(m, Some(did), LabelTarget::Content, subject.labels, LabelFilter::All);
    super::lemma_label_causes_are_labels(
        m,
        Some(did),
        LabelTarget::Content,
        super::opt_labels(subject.labels).filter(super::kept_pred(LabelFilter::All)),
    );
    let causes = spec_post_causes(m, now, subject);
    if spec_check_hidden_post(subject, m.prefs.hidden_posts@) {
        assert(causes[labels.len() as int] == CauseView::Hidden(user_cause_other()));
    }
}

/// A link card is checked for muted words on its title and description:
/// for a post not by the user that embeds a card, a muted word that
/// targets content, applies to the author and equals a word (between
/// white space) of the card's lowercased description or title gives the
/// decision a muted-word cause. Lowercasing is taken to keep the space
/// that joins title and description.
pub proof fn lemma_link_card_words_are_checked(
    m: Moderator,
    now: Timestamp,
    subject: SubjectPost,
    e: ExternalEmbed,
    i: int,
)
    requires
        subject.embed == Some(PostEmbed::External(e)),
        !spec_is_me(m, subject.author.did@),
        0 <= i < m.prefs.muted_words@.len(),
        mute_applies(m.prefs.muted_words@[i], now, Some(&subject.author)),
        targets_content(m.prefs.muted_words@[i]),
        lowercase(e.title@ + seq![' '] + e.description@) == lowercase(e.title@) + seq![' '] + lowercase(
            e.description@,
        ),
        split_on(lowercase(e.description@), white_space_pred()).contains(lowercase(m.prefs.muted_words@[i].value@))
            || split_on(lowercase(e.title@), white_space_pred()).contains(
            lowercase(m.prefs.muted_words@[i].value@),
        ),
    ensures
        spec_decide_post(m, now, subject).causes.contains(CauseView::MuteWord(user_cause_other())),
{
    let mw = m.prefs.muted_words@;
    let w = mw[i];
    let mv = lowercase(w.value@);
    let lt = lowercase(e.title@);
    let ld = lowercase(e.description@);
    let post = lowercase(external_text(e));
    lemma_split_on_joined(lt, ' ', ld, white_space_pred());
    let pieces = split_on(post, white_space_pred());
    assert(pieces == split_on(lt, white_space_pred()) + split_on(ld, white_space_pred()));
    let k = if split_on(ld, white_space_pred()).contains(mv) {
        let q = choose|q: int| 0 <= q < split_on(ld, white_space_pred()).len() && split_on(ld, white_space_pred())[q] == mv;
        split_on(lt, white_space_pred()).len() + q
    } else {
        choose|q: int| 0 <= q < split_on(lt, white_space_pred()).len() && split_on(lt, white_space_pred())[q] == mv
    };
    assert(pieces[k] == mv);
    lemma_split_piece_utf8_len(post, white_space_pred(), k);
    assert(word_matches(pieces[k], mv));
    assert(mute_matches(mv, targets_content(w), spec_tags(None, None), post, spec_exception(None)));
    assert(spec_has_muted_word(now, mw, external_text(e), None, None, None, Some(&subject.author)));
    assert(embed_matches(now, mw, subject.embed, subject.author));
    assert(spec_check_muted_words(now, subject, mw));
    let causes = spec_post_causes(m, now, subject);
    let last = causes.len() - 1;
    assert(causes[last] == CauseView::MuteWord(user_cause_other()));
    let all = spec_decide_post(m, now, subject).causes;
    assert(all[last] == causes[last]);
}

/// Muting more words can only make a post's muted-word check succeed,
/// never make it fail, at the same instant.
pub proof fn lemma_more_muted_words_check(now: Timestamp, subject: SubjectPost, a: Seq<MutedWord>, b: Seq<MutedWord>)
    requires
        muted_words_within(a, b),
    ensures
        spec_check_muted_words(now, subject, a) ==> spec_check_muted_words(now, subject, b),
{
    assert forall|text: Seq<char>,
        facets: Option<&Vec<Facet>>,
        outline_tags: Option<&Vec<String>>,
        langs: Option<&Vec<String>>,
        actor: Option<&SubjectProfile>|
        #[trigger] spec_has_muted_word(now, a, text, facets, outline_tags, langs, actor) implies spec_has_muted_word(
        now,
        b,
        text,
        facets,
        outline_tags,
        langs,
        actor,
    ) by {
        lemma_more_muted_words_match(now, a, b, text, facets, outline_tags, langs, actor);
    }
    if a.len() > 0 {
        assert(b.contains(a[0]));
    }
}

impl Moderator {
    /// The decision about a quoted post; see `spec_decide_quoted_post`.
    pub fn decide_quoted_post(&self, subject: &QuotedPost) -> (r: ModerationDecision)
        ensures
            r@ == spec_decide_quoted_post(*self, *subject),
    {
        self.decide_authored(&subject.author, &subject.labels)
    }

    /// The decision about a quoted post hidden by a block; see
    /// `spec_decide_blocked_quoted_post`.
    pub fn decide_blocked_quoted_post(&self, subject: &BlockedAuthor) -> (r: ModerationDecision)
        ensures
            r@ == spec_decide_blocked_quoted_post(*self, *subject),
    {
        let mut acc = ModerationDecision::new();
        acc.set_did(copy_string(&subject.did));
        acc.set_is_me(is_me(self, &subject.did));
        add_viewer_causes(&mut acc, &subject.viewer);
        assert(acc@.causes =~= viewer_causes(subject.viewer));
        acc
    }

    /// The decision about a post at `now`; see `spec_decide_post`.
    pub fn decide_post_at(&self, now: Timestamp, subject: &SubjectPost) -> (r: ModerationDecision)
        ensures
            r@ == spec_decide_post(*self, now, *subject),
    {
        let mut acc = ModerationDecision::new();
        let me = is_me(self, &subject.author.did);
        acc.set_did(copy_string(&subject.author.did));
        acc.set_is_me(me);
        add_labels(&mut acc, LabelTarget::Content, &subject.labels, LabelFilter::All, self);
        if check_hidden_post(subject, self.prefs.hidden_posts.as_slice()) {
            acc.add_hidden();
        }
        if !me && check_muted_words_at(now, subject, self.prefs.muted_words.as_slice()) {
            acc.add_muted_word();
        }
        assert(acc@.causes =~= spec_post_causes(*self, now, *subject));
        let embed_acc = match &subject.embed {
            Some(PostEmbed::Record(EmbeddedRecord::Post(q))) => Some(self.decide_quoted_post(q)),
            Some(PostEmbed::Record(EmbeddedRecord::Blocked(b))) => Some(self.decide_blocked_quoted_post(b)),
            Some(PostEmbed::RecordWithMedia(EmbeddedRecord::Post(q), _)) => Some(self.decide_quoted_post(q)),
            Some(PostEmbed::RecordWithMedia(EmbeddedRecord::Blocked(b), _)) => Some(
                self.decide_blocked_quoted_post(b),
            ),
            _ => None,
        };
        let ghost a0 = acc;
        let ghost embed_causes = match spec_embed_decision(*self, subject.embed) {
            Some(d) => d.causes.map_values(|c: CauseView| c.downgrade()),
            None => Seq::empty(),
        };
        let mut decisions: Vec<ModerationDecision> = Vec::new();
        decisions.push(acc);
        proof {
            lemma_merged_causes_empty();
            lemma_merged_causes_push(Seq::empty(), a0);
            assert(Seq::<ModerationDecision>::empty().push(a0) =~= decisions@);
            assert(Seq::<CauseView>::empty() + a0@.causes =~= a0@.causes);
        }
        match embed_acc {
            Some(mut e) => {
                e.downgrade();
                proof {
                    lemma_merged_causes_push(decisions@, e);
                }
                decisions.push(e);
            },
            None => {
                assert(a0@.causes + Seq::<CauseView>::empty() =~= a0@.causes);
            },
        }
        assert(merged_causes(decisions@) == a0@.causes + embed_causes);
        let account = self.decide_account(&subject.author);
        let profile = self.decide_profile(&subject.author);
        proof {
            lemma_merged_causes_push(decisions@, account);
            lemma_merged_causes_push(decisions@.push(account), profile);
        }
        decisions.push(account);
        decisions.push(profile);
        ModerationDecision::merge(decisions.as_slice())
    }

    /// The decision about a post now, by the system clock: `spec_decide_post`
    /// at some instant.
    pub fn decide_post(&self, subject: &SubjectPost) -> (r: ModerationDecision)
        ensures
            exists|t: Timestamp| r@ == spec_decide_post(*self, t, *subject),
    {
        let t = now();
        self.decide_post_at(t, subject)
    }
}

} // verus!
