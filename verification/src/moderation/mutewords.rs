//! Whether a text, its facets and its tags hold a word the user muted.
use vstd::prelude::*;
use super::types::{MutedWord, SubjectProfile, Timestamp};
use crate::rich_text::facet::{Facet, FacetFeature};
use crate::text::{string_views, lemma_string_views_push,
    chars_eq, chars_of, contains_chars, is_punctuation, is_substring, is_white_space,
    lemma_filter_push, lowercase, split_on, punctuation, str_eq, string_of, to_lowercase, trim_punctuation,
    trim_punctuation_exec, utf8_len,
    utf8_len_exec, white_space,
};

verus! {

// the spec

/// The languages that do not separate words with spaces in a way that
/// word matching can use: Japanese, Chinese, Korean, Thai and Vietnamese.
pub open spec fn is_language_exception(lang: Seq<char>) -> bool {
    lang == "ja"@ || lang == "zh"@ || lang == "ko"@ || lang == "th"@ || lang == "vi"@
}

/// Whether the text's first language is one of the exceptions.
pub open spec fn spec_exception(langs: Option<&Vec<String>>) -> bool {
    match langs {
        Some(v) => v@.len() > 0 && is_language_exception(v@[0]@),
        None => false,
    }
}

/// The tags among a facet's features, in order.
pub open spec fn feature_tags(fs: Seq<FacetFeature>) -> Seq<Seq<char>>
    decreases fs.len(),
{
    if fs.len() == 0 {
        Seq::empty()
    } else {
        let r = feature_tags(fs.drop_last());
        match fs.last() {
            FacetFeature::Tag(t) => r.push(t.tag@),
            _ => r,
        }
    }
}

/// The tags among the features of a list of facets, in order.
pub open spec fn facet_tags(facets: Seq<Facet>) -> Seq<Seq<char>>
    decreases facets.len(),
{
    if facets.len() == 0 {
        Seq::empty()
    } else {
        facet_tags(facets.drop_last()) + feature_tags(facets.last().features@)
    }
}

/// The tags a muted word is compared with: the outline tags, then the
/// tags of the facets, each in lowercase.
pub open spec fn spec_tags(facets: Option<&Vec<Facet>>, outline_tags: Option<&Vec<String>>) -> Seq<
    Seq<char>,
> {
    let outline = match outline_tags {
        Some(v) => string_views(v@),
        None => Seq::empty(),
    };
    let inline = match facets {
        Some(v) => facet_tags(v@),
        None => Seq::empty(),
    };
    (outline + inline).map_values(|t: Seq<char>| lowercase(t))
}

/// White space, as a predicate.
pub open spec fn white_space_pred() -> spec_fn(char) -> bool {
    |c: char| is_white_space(c)
}

/// Punctuation, as a predicate.
pub open spec fn punctuation_pred() -> spec_fn(char) -> bool {
    |c: char| is_punctuation(c)
}

/// Whether a text holds punctuation.
pub open spec fn has_punctuation(s: Seq<char>) -> bool {
    exists|i: int| 0 <= i < s.len() && is_punctuation(#[trigger] s[i])
}

/// Whether a text holds white space or punctuation.
pub open spec fn has_space_or_punctuation(s: Seq<char>) -> bool {
    exists|i: int| 0 <= i < s.len() && (is_white_space(#[trigger] s[i]) || is_punctuation(s[i]))
}

/// A text with each punctuation character replaced by a space.
pub open spec fn spaced(s: Seq<char>) -> Seq<char> {
    s.map_values(|c: char| if is_punctuation(c) { ' ' } else { c })
}

/// A text without its white space.
pub open spec fn not_white_space_pred() -> spec_fn(char) -> bool {
    |c: char| !is_white_space(c)
}

/// Whether one word of a text matches a muted word `m`: the word itself;
/// the word without leading and trailing punctuation; or, when that
/// trimmed word is no shorter than `m` and holds punctuation, the trimmed
/// word with its punctuation turned into spaces (lowercased), the same
/// without any white space, or one of the pieces between its punctuation.
pub open spec fn word_matches(word: Seq<char>, m: Seq<char>) -> bool {
    let t = trim_punctuation(word);
    let sp = lowercase(spaced(t));
    ||| word == m
    ||| t == m
    ||| {
        &&& utf8_len(m) <= utf8_len(t)
        &&& has_punctuation(t)
        &&& (sp == m || sp.filter(not_white_space_pred()) == m || split_on(
            t,
            punctuation_pred(),
        ).contains(m))
    }
}

/// Whether a muted word `m` (lowercased) matches: it is one of the tags;
/// or it targets content and it occurs in the lowercased text `post` as a
/// single character, or anywhere when the text's language is an exception;
/// or, when it is no longer than the text, it is the whole text, or it
/// holds white space or punctuation and occurs in the text, or one of the
/// words between the text's white space matches it.
pub open spec fn mute_matches(
    m: Seq<char>,
    content: bool,
    tags: Seq<Seq<char>>,
    post: Seq<char>,
    exception: bool,
) -> bool {
    ||| tags.contains(m)
    ||| {
        &&& content
        &&& {
            ||| ((m.len() == 1 || exception) && is_substring(m, post))
            ||| {
                &&& utf8_len(m) <= utf8_len(post)
                &&& {
                    ||| m == post
                    ||| (has_space_or_punctuation(m) && is_substring(m, post))
                    ||| exists|k: int|
                        0 <= k < split_on(post, white_space_pred()).len() && word_matches(
                            #[trigger] split_on(post, white_space_pred())[k],
                            m,
                        )
                }
            }
        }
    }
}

/// Whether the viewer follows an actor.
pub open spec fn follows(actor: Option<&SubjectProfile>) -> bool {
    match actor {
        Some(a) => match a.viewer {
            Some(v) => v.following is Some,
            None => false,
        },
        None => false,
    }
}

/// Whether a muted word applies at `now` to posts by `actor`: it has not
/// expired, and it does not exclude followed accounts while the viewer
/// follows the actor.
pub open spec fn mute_applies(mute: MutedWord, now: Timestamp, actor: Option<&SubjectProfile>) -> bool {
    &&& !(mute.expires_at matches Some(e) && e.before(now))
    &&& !(mute.actor_target matches Some(a) && a@ == "exclude-following"@ && follows(actor))
}

/// Whether a muted word targets content.
pub open spec fn targets_content(mute: MutedWord) -> bool {
    string_views(mute.targets@).contains("content"@)
}

/// Whether some muted word applies at `now` and matches the text, its
/// facets' tags and its outline tags.
pub open spec fn spec_has_muted_word(
    now: Timestamp,
    muted_words: Seq<MutedWord>,
    text: Seq<char>,
    facets: Option<&Vec<Facet>>,
    outline_tags: Option<&Vec<String>>,
    langs: Option<&Vec<String>>,
    actor: Option<&SubjectProfile>,
) -> bool {
    exists|i: int|
        0 <= i < muted_words.len() && mute_applies(#[trigger] muted_words[i], now, actor)
            && mute_matches(
            lowercase(muted_words[i].value@),
            targets_content(muted_words[i]),
            spec_tags(facets, outline_tags),
            lowercase(text),
            spec_exception(langs),
        )
}

/// For a text whose first language is Japanese, Chinese, Korean, Thai or
/// Vietnamese, a muted word that targets content and applies matches as
/// soon as it occurs anywhere in the lowercased text, words or not.
pub proof fn lemma_exception_languages_match_substrings(
    now: Timestamp,
    muted_words: Seq<MutedWord>,
    text: Seq<char>,
    facets: Option<&Vec<Facet>>,
    outline_tags: Option<&Vec<String>>,
    langs: Option<&Vec<String>>,
    actor: Option<&SubjectProfile>,
    i: int,
)
    requires
        langs matches Some(v) && v@.len() > 0 && {
            let l = v@[0]@;
            l == "ja"@ || l == "zh"@ || l == "ko"@ || l == "th"@ || l == "vi"@
        },
        0 <= i < muted_words.len(),
        mute_applies(muted_words[i], now, actor),
        targets_content(muted_words[i]),
        is_substring(lowercase(muted_words[i].value@), lowercase(text)),
    ensures
        spec_has_muted_word(now, muted_words, text, facets, outline_tags, langs, actor),
{
    assert(spec_exception(langs));
    assert(mute_matches(
        lowercase(muted_words[i].value@),
        targets_content(muted_words[i]),
        spec_tags(facets, outline_tags),
        lowercase(text),
        spec_exception(langs),
    ));
}

/// Whether every muted word of `a` is also one of `b`.
pub open spec fn muted_words_within(a: Seq<MutedWord>, b: Seq<MutedWord>) -> bool {
    forall|i: int| 0 <= i < a.len() ==> b.contains(#[trigger] a[i])
}

/// Muting more words can only make a text match, never stop it matching.
pub proof fn lemma_more_muted_words_match(
    now: Timestamp,
    a: Seq<MutedWord>,
    b: Seq<MutedWord>,
    text: Seq<char>,
    facets: Option<&Vec<Facet>>,
    outline_tags: Option<&Vec<String>>,
    langs: Option<&Vec<String>>,
    actor: Option<&SubjectProfile>,
)
    requires
        muted_words_within(a, b),
    ensures
        spec_has_muted_word(now, a, text, facets, outline_tags, langs, actor) ==> spec_has_muted_word(
            now,
            b,
            text,
            facets,
            outline_tags,
            langs,
            actor,
        ),
{
    if spec_has_muted_word(now, a, text, facets, outline_tags, langs, actor) {
        let i = choose|i: int|
            0 <= i < a.len() && mute_applies(#[trigger] a[i], now, actor) && mute_matches(
                lowercase(a[i].value@),
                targets_content(a[i]),
                spec_tags(facets, outline_tags),
                lowercase(text),
                spec_exception(langs),
            );
        assert(b.contains(a[i]));
        let j = choose|j: int| 0 <= j < b.len() && b[j] == a[i];
        assert(mute_applies(b[j], now, actor));
    }
}

// the code

/// Reads the system clock through `chrono::Utc::now`. Nothing is stated of
/// the instant it gives.
#[verifier::external_body]
pub(crate) fn now() -> (r: Timestamp) {
    let t = chrono::Utc::now();
    Timestamp { seconds: t.timestamp(), nanos: t.timestamp_subsec_nanos() }
}

/// The views of a list of character vectors.
pub open spec fn char_vec_views(s: Seq<Vec<char>>) -> Seq<Seq<char>> {
    s.map_values(|v: Vec<char>| v@)
}

fn exception_of(langs: Option<&Vec<String>>) -> (r: bool)
    ensures
        r == spec_exception(langs),
{
    match langs {
        Some(v) => {
            if v.len() == 0 {
                return false;
            }
            let l = v[0].as_str();
            str_eq(l, "ja") || str_eq(l, "zh") || str_eq(l, "ko") || str_eq(l, "th") || str_eq(
                l,
                "vi",
            )
        },
        None => false,
    }
}


fn push_feature_tags(fs: &Vec<FacetFeature>, out: &mut Vec<String>)
    ensures
        string_views(final(out)@) == string_views(old(out)@) + feature_tags(fs@),
{
    let ghost base = string_views(out@);
    let mut i: usize = 0;
    assert(fs@.take(0) =~= Seq::<FacetFeature>::empty());
    assert(string_views(out@) =~= base + feature_tags(fs@.take(0)));
    while i < fs.len()
        invariant
            i <= fs@.len(),
            string_views(out@) == base + feature_tags(fs@.take(i as int)),
        decreases fs.len() - i,
    {
        assert(fs@.take(i + 1).drop_last() =~= fs@.take(i as int));
        match &fs[i] {
            FacetFeature::Tag(t) => {
                let s = crate::text::copy_string(&t.tag);
                proof {
                    lemma_string_views_push(out@, s);
                    assert(base + feature_tags(fs@.take(i as int)).push(s@) =~= (base + feature_tags(
                        fs@.take(i as int),
                    )).push(s@));
                }
                out.push(s);
            },
            _ => {},
        }
        i = i + 1;
    }
    assert(fs@.take(i as int) =~= fs@);
}

fn collect_tags(facets: Option<&Vec<Facet>>, outline_tags: Option<&Vec<String>>) -> (r: Vec<String>)
    ensures
        string_views(r@) == spec_tags(facets, outline_tags),
{
    let mut raw: Vec<String> = Vec::new();
    assert(string_views(raw@) =~= Seq::<Seq<char>>::empty());
    match outline_tags {
        Some(v) => {
            let mut i: usize = 0;
            while i < v.len()
                invariant
                    i <= v@.len(),
                    string_views(raw@) == string_views(v@.take(i as int)),
                decreases v.len() - i,
            {
                let s = crate::text::copy_string(&v[i]);
                proof {
                    lemma_string_views_push(raw@, s);
                    assert(v@.take(i + 1) =~= v@.take(i as int).push(v@[i as int]));
                    lemma_string_views_push(v@.take(i as int), v@[i as int]);
                }
                raw.push(s);
                i = i + 1;
            }
            assert(v@.take(i as int) =~= v@);
        },
        None => {},
    }
    let ghost outline = string_views(raw@);
    match facets {
        Some(fs) => {
            let mut i: usize = 0;
            assert(fs@.take(0) =~= Seq::<Facet>::empty());
            assert(string_views(raw@) =~= outline + facet_tags(fs@.take(0)));
            while i < fs.len()
                invariant
                    i <= fs@.len(),
                    string_views(raw@) == outline + facet_tags(fs@.take(i as int)),
                decreases fs.len() - i,
            {
                assert(fs@.take(i + 1).drop_last() =~= fs@.take(i as int));
                push_feature_tags(&fs[i].features, &mut raw);
                assert(outline + facet_tags(fs@.take(i as int)) + feature_tags(fs@[i as int].features@)
                    =~= outline + facet_tags(fs@.take(i + 1)));
                i = i + 1;
            }
            assert(fs@.take(i as int) =~= fs@);
        },
        None => {
            assert(string_views(raw@) =~= outline + Seq::<Seq<char>>::empty());
        },
    }
    let mut out: Vec<String> = Vec::new();
    let mut j: usize = 0;
    while j < raw.len()
        invariant
            j <= raw@.len(),
            string_views(out@) == string_views(raw@).take(j as int).map_values(
                |t: Seq<char>| lowercase(t),
            ),
        decreases raw.len() - j,
    {
        let l = to_lowercase(raw[j].as_str());
        proof {
            lemma_string_views_push(out@, l);
            assert(string_views(raw@).take(j + 1).map_values(|t: Seq<char>| lowercase(t))
                =~= string_views(raw@).take(j as int).map_values(|t: Seq<char>| lowercase(t)).push(
                lowercase(raw@[j as int]@),
            ));
        }
        out.push(l);
        j = j + 1;
    }
    assert(string_views(raw@).take(j as int) =~= string_views(raw@));
    out
}

proof fn lemma_char_vec_views_push(s: Seq<Vec<char>>, v: Vec<char>)
    ensures
        char_vec_views(s.push(v)) == char_vec_views(s).push(v@),
{
    assert(char_vec_views(s.push(v)) =~= char_vec_views(s).push(v@));
}

/// The pieces of a text between its white space, or between its
/// punctuation.
fn split_chars(s: &Vec<char>, on_punctuation: bool) -> (r: Vec<Vec<char>>)
    ensures
        char_vec_views(r@) == split_on(
            s@,
            if on_punctuation {
                punctuation_pred()
            } else {
                white_space_pred()
            },
        ),
{
    let ghost sep = if on_punctuation {
        punctuation_pred()
    } else {
        white_space_pred()
    };
    let mut pieces: Vec<Vec<char>> = Vec::new();
    let mut cur: Vec<char> = Vec::new();
    let mut i: usize = 0;
    assert(s@.take(0) =~= Seq::<char>::empty());
    assert(char_vec_views(pieces@).push(cur@) =~= split_on(s@.take(0), sep));
    while i < s.len()
        invariant
            i <= s@.len(),
            sep == (if on_punctuation {
                punctuation_pred()
            } else {
                white_space_pred()
            }),
            char_vec_views(pieces@).push(cur@) == split_on(s@.take(i as int), sep),
        decreases s.len() - i,
    {
        let c = s[i];
        let is_sep = if on_punctuation {
            punctuation(c)
        } else {
            white_space(c)
        };
        assert(s@.take(i + 1).drop_last() =~= s@.take(i as int));
        assert(s@.take(i + 1).last() == c);
        if is_sep {
            let done = cur;
            cur = Vec::new();
            proof {
                lemma_char_vec_views_push(pieces@, done);
            }
            pieces.push(done);
            assert(char_vec_views(pieces@).push(cur@) =~= split_on(s@.take(i + 1), sep));
        } else {
            let ghost old_cur = cur@;
            cur.push(c);
            assert(char_vec_views(pieces@).push(cur@) =~= char_vec_views(pieces@).push(old_cur).update(
                char_vec_views(pieces@).len() as int,
                old_cur.push(c),
            ));
        }
        i = i + 1;
    }
    assert(s@.take(i as int) =~= s@);
    proof {
        lemma_char_vec_views_push(pieces@, cur);
    }
    pieces.push(cur);
    pieces
}

/// Decides `has_punctuation`.
fn has_punctuation_exec(s: &Vec<char>) -> (r: bool)
    ensures
        r == has_punctuation(s@),
{
    let mut i: usize = 0;
    while i < s.len()
        invariant
            i <= s@.len(),
            forall|j: int| 0 <= j < i ==> !is_punctuation(#[trigger] s@[j]),
        decreases s.len() - i,
    {
        if punctuation(s[i]) {
            return true;
        }
        i = i + 1;
    }
    false
}

/// Decides `has_space_or_punctuation`.
fn has_space_or_punctuation_exec(s: &Vec<char>) -> (r: bool)
    ensures
        r == has_space_or_punctuation(s@),
{
    let mut i: usize = 0;
    while i < s.len()
        invariant
            i <= s@.len(),
            forall|j: int| 0 <= j < i ==> !(is_white_space(#[trigger] s@[j]) || is_punctuation(s@[j])),
        decreases s.len() - i,
    {
        if white_space(s[i]) || punctuation(s[i]) {
            return true;
        }
        i = i + 1;
    }
    false
}

/// The text with each punctuation character replaced by a space.
fn spaced_exec(s: &Vec<char>) -> (r: Vec<char>)
    ensures
        r@ == spaced(s@),
{
    let mut r: Vec<char> = Vec::new();
    let mut i: usize = 0;
    while i < s.len()
        invariant
            i <= s@.len(),
            r@ == spaced(s@.take(i as int)),
        decreases s.len() - i,
    {
        let c = if punctuation(s[i]) {
            ' '
        } else {
            s[i]
        };
        r.push(c);
        i = i + 1;
        assert(r@ =~= spaced(s@.take(i as int)));
    }
    assert(s@.take(i as int) =~= s@);
    r
}

/// The text without its white space.
fn without_white_space(s: &Vec<char>) -> (r: Vec<char>)
    ensures
        r@ == s@.filter(not_white_space_pred()),
{
    let mut r: Vec<char> = Vec::new();
    let mut i: usize = 0;
    assert(s@.take(0) =~= Seq::<char>::empty());
    proof {
        reveal(Seq::filter);
    }
    assert(r@ =~= s@.take(0).filter(not_white_space_pred()));
    while i < s.len()
        invariant
            i <= s@.len(),
            r@ == s@.take(i as int).filter(not_white_space_pred()),
        decreases s.len() - i,
    {
        proof {
            assert(s@.take(i + 1) =~= s@.take(i as int).push(s@[i as int]));
            lemma_filter_push(s@.take(i as int), s@[i as int], not_white_space_pred());
        }
        if !white_space(s[i]) {
            r.push(s[i]);
        }
        i = i + 1;
    }
    assert(s@.take(i as int) =~= s@);
    r
}

/// Decides `word_matches`.
fn word_matches_exec(word: &Vec<char>, m: &Vec<char>) -> (r: bool)
    ensures
        r == word_matches(word@, m@),
{
    if chars_eq(word, m) {
        return true;
    }
    let t = trim_punctuation_exec(word);
    if chars_eq(m, &t) {
        return true;
    }
    if utf8_len_exec(m) > utf8_len_exec(&t) {
        return false;
    }
    if !has_punctuation_exec(&t) {
        return false;
    }
    let sp = chars_of(to_lowercase(string_of(&spaced_exec(&t)).as_str()).as_str());
    if chars_eq(&sp, m) {
        return true;
    }
    let contiguous = without_white_space(&sp);
    if chars_eq(&contiguous, m) {
        return true;
    }
    let parts = split_chars(&t, true);
    let mut i: usize = 0;
    while i < parts.len()
        invariant
            i <= parts@.len(),
            t@ == trim_punctuation(word@),
            utf8_len(m@) <= utf8_len(t@),
            has_punctuation(t@),
            char_vec_views(parts@) == split_on(t@, punctuation_pred()),
            forall|j: int| 0 <= j < i ==> char_vec_views(parts@)[j] != m@,
        decreases parts.len() - i,
    {
        if chars_eq(&parts[i], m) {
            assert(split_on(t@, punctuation_pred())[i as int] == m@);
            assert(split_on(t@, punctuation_pred()).contains(m@));
            return true;
        }
        i = i + 1;
    }
    false
}

/// Decides `mute_matches`.
fn mute_matches_exec(
    m: &Vec<char>,
    content: bool,
    tags: &Vec<String>,
    post: &Vec<char>,
    exception: bool,
) -> (r: bool)
    ensures
        r == mute_matches(m@, content, string_views(tags@), post@, exception),
{
    let ms = string_of(m);
    let mut i: usize = 0;
    while i < tags.len()
        invariant
            i <= tags@.len(),
            ms@ == m@,
            forall|j: int| 0 <= j < i ==> string_views(tags@)[j] != m@,
        decreases tags.len() - i,
    {
        if str_eq(tags[i].as_str(), ms.as_str()) {
            assert(string_views(tags@)[i as int] == m@);
            return true;
        }
        i = i + 1;
    }
    if !content {
        return false;
    }
    if (m.len() == 1 || exception) && contains_chars(post, m) {
        return true;
    }
    if utf8_len_exec(m) > utf8_len_exec(post) {
        return false;
    }
    if chars_eq(m, post) {
        return true;
    }
    if has_space_or_punctuation_exec(m) && contains_chars(post, m) {
        return true;
    }
    let words = split_chars(post, false);
    let mut k: usize = 0;
    while k < words.len()
        invariant
            k <= words@.len(),
            content,
            utf8_len(m@) <= utf8_len(post@),
            char_vec_views(words@) == split_on(post@, white_space_pred()),
            forall|j: int| 0 <= j < k ==> !word_matches(#[trigger] char_vec_views(words@)[j], m@),
        decreases words.len() - k,
    {
        if word_matches_exec(&words[k], m) {
            assert(word_matches(split_on(post@, white_space_pred())[k as int], m@));
            return true;
        }
        k = k + 1;
    }
    false
}

/// Decides `targets_content`.
fn targets_content_exec(mute: &MutedWord) -> (r: bool)
    ensures
        r == targets_content(*mute),
{
    let mut i: usize = 0;
    while i < mute.targets.len()
        invariant
            i <= mute.targets@.len(),
            forall|j: int| 0 <= j < i ==> string_views(mute.targets@)[j] != "content"@,
        decreases mute.targets.len() - i,
    {
        if str_eq(mute.targets[i].as_str(), "content") {
            assert(string_views(mute.targets@)[i as int] == "content"@);
            return true;
        }
        i = i + 1;
    }
    false
}

/// Decides `mute_applies`.
fn mute_applies_exec(mute: &MutedWord, now: &Timestamp, actor: Option<&SubjectProfile>) -> (r: bool)
    ensures
        r == mute_applies(*mute, *now, actor),
{
    match &mute.expires_at {
        Some(e) => {
            if e.is_before(now) {
                return false;
            }
        },
        None => {},
    }
    match &mute.actor_target {
        Some(a) => {
            let following = match actor {
                Some(p) => match &p.viewer {
                    Some(v) => v.following.is_some(),
                    None => false,
                },
                None => false,
            };
            if str_eq(a.as_str(), "exclude-following") && following {
                return false;
            }
        },
        None => {},
    }
    true
}

/// Whether some muted word applies at `now` and matches; see
/// `spec_has_muted_word`.
pub fn has_muted_word_at(
    now: Timestamp,
    muted_words: &[MutedWord],
    text: &str,
    facets: Option<&Vec<Facet>>,
    outline_tags: Option<&Vec<String>>,
    langs: Option<&Vec<String>>,
    actor: Option<&SubjectProfile>,
) -> (r: bool)
    ensures
        r == spec_has_muted_word(now, muted_words@, text@, facets, outline_tags, langs, actor),
{
    let exception = exception_of(langs);
    let tags = collect_tags(facets, outline_tags);
    let post = chars_of(to_lowercase(text).as_str());
    let mut i: usize = 0;
    while i < muted_words.len()
        invariant
            i <= muted_words@.len(),
            exception == spec_exception(langs),
            string_views(tags@) == spec_tags(facets, outline_tags),
            post@ == lowercase(text@),
            forall|j: int|
                0 <= j < i ==> !(mute_applies(#[trigger] muted_words@[j], now, actor) && mute_matches(
                    lowercase(muted_words@[j].value@),
                    targets_content(muted_words@[j]),
                    spec_tags(facets, outline_tags),
                    lowercase(text@),
                    spec_exception(langs),
                )),
        decreases muted_words.len() - i,
    {
        let mute = &muted_words[i];
        if mute_applies_exec(mute, &now, actor) {
            let m = chars_of(to_lowercase(mute.value.as_str()).as_str());
            let content = targets_content_exec(mute);
            if mute_matches_exec(&m, content, &tags, &post, exception) {
                return true;
            }
        }
        i = i + 1;
    }
    false
}

/// Whether some muted word applies now and matches the text, its facets'
/// tags or its outline tags. The time comes from the system clock, so the
/// result is `spec_has_muted_word` at some instant.
pub fn has_muted_word(
    muted_words: &[MutedWord],
    text: &str,
    facets: Option<&Vec<Facet>>,
    outline_tags: Option<&Vec<String>>,
    langs: Option<&Vec<String>>,
    actor: Option<&SubjectProfile>,
) -> (r: bool)
    ensures
        exists|t: Timestamp|
            r == spec_has_muted_word(t, muted_words@, text@, facets, outline_tags, langs, actor),
{
    let t = now();
    has_muted_word_at(t, muted_words, text, facets, outline_tags, langs, actor)
}

} // verus!
