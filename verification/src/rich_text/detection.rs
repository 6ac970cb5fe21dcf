//! Finding mentions, links and tags in a text.
use vstd::prelude::*;
use vstd::utf8::encode_utf8;
use super::facet::{ByteSlice, Facet, FacetFeature, Link, Mention, Tag};
use crate::text::{
    chars_of, copy_string, lemma_string_views_push, str_starts_with, string_views, string_of, strip_trailing_punctuation,
    strip_trailing_punctuation_exec, utf8_len, utf8_len_exec,
};

verus! {

/// A mention of a handle that has not been resolved to a DID yet.
#[derive(Debug, Clone, PartialEq, Eq)]
pub struct MentionWithoutResolution {
    pub handle: String,
}

/// What a detected facet says of its range.
#[derive(Debug, Clone, PartialEq, Eq)]
pub enum FacetFeaturesItem {
    Mention(MentionWithoutResolution),
    Link(Link),
    Tag(Tag),
}

/// A facet found in a text, before its mentions are resolved.
#[derive(Debug, Clone, PartialEq, Eq)]
pub struct FacetWithoutResolution {
    pub features: Vec<FacetFeaturesItem>,
    pub index: ByteSlice,
}

/// The mathematical value of a `FacetFeaturesItem`.
pub enum DetectedFeature {
    Mention(Seq<char>),
    Link(Seq<char>),
    Tag(Seq<char>),
}

/// The mathematical value of a `FacetWithoutResolution`.
pub struct DetectedFacet {
    pub features: Seq<DetectedFeature>,
    pub index: ByteSlice,
}

impl View for FacetFeaturesItem {
    type V = DetectedFeature;

    open spec fn view(&self) -> DetectedFeature {
        match self {
            FacetFeaturesItem::Mention(m) => DetectedFeature::Mention(m.handle@),
            FacetFeaturesItem::Link(l) => DetectedFeature::Link(l.uri@),
            FacetFeaturesItem::Tag(t) => DetectedFeature::Tag(t.tag@),
        }
    }
}

impl View for FacetWithoutResolution {
    type V = DetectedFacet;

    open spec fn view(&self) -> DetectedFacet {
        DetectedFacet { features: self.features@.map_values(|f: FacetFeaturesItem| f@), index: self.index }
    }
}

/// The views of a list of detected facets.
pub open spec fn detected_views(s: Seq<FacetWithoutResolution>) -> Seq<DetectedFacet> {
    s.map_values(|f: FacetWithoutResolution| f@)
}

// matches

/// Where a regex group matched: its byte offsets and its text.
#[derive(Debug, Clone)]
pub struct Span {
    pub start: usize,
    pub end: usize,
    pub text: String,
}

/// The mathematical value of a `Span`.
pub struct SpanView {
    pub start: usize,
    pub end: usize,
    pub text: Seq<char>,
}

impl View for Span {
    type V = SpanView;

    open spec fn view(&self) -> SpanView {
        SpanView { start: self.start, end: self.end, text: self.text@ }
    }
}

/// The views of the groups of one match.
pub open spec fn group_views(g: Seq<Option<Span>>) -> Seq<Option<SpanView>> {
    g.map_values(|o: Option<Span>| match o {
        Some(s) => Some(s@),
        None => None,
    })
}

/// The views of the groups of every match.
pub open spec fn captures_views(c: Seq<Vec<Option<Span>>>) -> Seq<Seq<Option<SpanView>>> {
    c.map_values(|g: Vec<Option<Span>>| group_views(g@))
}

/// What the `regex` crate finds for a pattern in a text: for each
/// successive non-overlapping match, the spans of groups 1 to `groups`
/// (none where a group did not take part); none at all when the pattern
/// does not compile.
pub uninterp spec fn regex_captures(pattern: Seq<char>, text: Seq<char>, groups: nat) -> Option<
    Seq<Seq<Option<SpanView>>>,
>;

/// Whether a span lies within a text and holds the text between its offsets.
pub open spec fn span_in(s: SpanView, text: Seq<char>) -> bool {
    &&& s.start <= s.end <= encode_utf8(text).len()
    &&& encode_utf8(s.text) == encode_utf8(text).subrange(s.start as int, s.end as int)
}

/// Compiles `pattern` with `regex::Regex::new` and collects
/// `captures_iter(text)`, each match as the spans of groups 1 to `groups`.
/// The result is named `regex_captures`; the contract adds what the
/// crate documents of a match: its offsets lie within the text and its
/// text is what lies between them.
#[verifier::external_body]
fn captures(pattern: &str, text: &str, groups: usize) -> (r: Option<Vec<Vec<Option<Span>>>>)
    ensures
        match r {
            Some(v) => regex_captures(pattern@, text@, groups as nat) == Some(captures_views(v@)),
            None => regex_captures(pattern@, text@, groups as nat) is None,
        },
        r matches Some(v) ==> forall|i: int, j: int|
            0 <= i < v@.len() && 0 <= j < v@[i]@.len() ==> (#[trigger] v@[i]@[j] matches Some(s)
                ==> span_in(s@, text@)),
{
    let re = match regex::Regex::new(pattern) {
        Ok(re) => re,
        Err(_) => return None,
    };
    Some(re.captures_iter(text).map(|c| {
        (1..=groups).map(|g| c.get(g).map(|m| Span { start: m.start(), end: m.end(), text: m.as_str().to_string() })).collect()
    }).collect())
}

/// Whether a domain ends in a public suffix that the `psl` crate knows.
pub uninterp spec fn has_known_suffix(domain: Seq<char>) -> bool;

/// Looks a domain up with `psl::suffix`; the answer, whether the suffix
/// found is a known one, is named `has_known_suffix`.
#[verifier::external_body]
fn known_suffix(domain: &str) -> (r: bool)
    ensures
        r == has_known_suffix(domain@),
{
    match psl::suffix(domain.as_bytes()) {
        Some(s) => s.is_known(),
        None => false,
    }
}

/// The pattern of a mention: `@` and a handle, after the start, white
/// space or `(`.
pub const MENTION_PATTERN: &'static str = r"(?:^|\s|\()@(([a-zA-Z0-9]([a-zA-Z0-9-]{0,61}[a-zA-Z0-9])?\.)+[a-zA-Z]([a-zA-Z0-9-]{0,61}[a-zA-Z0-9])?)\b";

/// The pattern of a link: an `http(s)://` URL, or a bare domain (group 2)
/// with a path, after the start, white space or `(`.
pub const URL_PATTERN: &'static str = r"(?:^|\s|\()((?:https?:\/\/[\S]+)|(?:(?<domain>[a-z][a-z0-9]*(?:\.[a-z0-9]+)+)[\S]*))";

/// The pattern of a tag: `#` or `＃` (group 1) and the tag (group 2),
/// after the start or white space.
pub const TAG_PATTERN: &'static str = r"(?:^|\s)([#＃])([^\s\u00AD\u2060\u200A\u200B\u200C\u200D\u20e2]*[^\d\s\p{P}\u00AD\u2060\u200A\u200B\u200C\u200D\u20e2]+[^\s\u00AD\u2060\u200A\u200B\u200C\u200D\u20e2]*)?";

// from matches to facets

/// The facet of a mention match: from the `@` before the handle to its
/// end. A match at the very start (with no room for the `@`) gives none.
pub open spec fn mention_facet(groups: Seq<Option<SpanView>>) -> Option<DetectedFacet> {
    if groups.len() >= 1 && groups[0] is Some && groups[0]->Some_0.start >= 1 {
        let m = groups[0]->Some_0;
        Some(
            DetectedFacet {
                features: seq![DetectedFeature::Mention(m.text)],
                index: ByteSlice { byte_start: (m.start - 1) as usize, byte_end: m.end },
            },
        )
    } else {
        None
    }
}

/// Whether a URI ends in punctuation that is not part of it: one of
/// `.,;:!?`, or a `)` with no `(` before it.
pub open spec fn ends_in_stray_punctuation(uri: Seq<char>) -> bool {
    &&& uri.len() > 0
    &&& {
        let c = uri.last();
        ||| (c == '.' || c == ',' || c == ';' || c == ':' || c == '!' || c == '?')
        ||| (c == ')' && !uri.contains('('))
    }
}

/// The facet of a link match. A bare domain must end in a known public
/// suffix and gets `https://` in front; stray punctuation at the end is
/// left out of the link and its range.
pub open spec fn link_facet(groups: Seq<Option<SpanView>>) -> Option<DetectedFacet> {
    if groups.len() >= 2 && groups[0] is Some {
        let m = groups[0]->Some_0;
        if groups[1] is Some && !has_known_suffix(groups[1]->Some_0.text) {
            None
        } else {
            let uri = if groups[1] is Some {
                "https://"@ + m.text
            } else {
                m.text
            };
            if ends_in_stray_punctuation(uri) {
                Some(
                    DetectedFacet {
                        features: seq![DetectedFeature::Link(uri.drop_last())],
                        index: ByteSlice { byte_start: m.start, byte_end: (m.end - 1) as usize },
                    },
                )
            } else {
                Some(
                    DetectedFacet {
                        features: seq![DetectedFeature::Link(uri)],
                        index: ByteSlice { byte_start: m.start, byte_end: m.end },
                    },
                )
            }
        }
    } else {
        None
    }
}

/// The facet of a tag match: the tag without trailing punctuation, from
/// the `#` to the tag's end. A tag that starts with U+FE0F, or that is
/// longer than 64 bytes, gives none.
pub open spec fn tag_facet(groups: Seq<Option<SpanView>>) -> Option<DetectedFacet> {
    if groups.len() >= 2 && groups[0] is Some && groups[1] is Some {
        let leading = groups[0]->Some_0;
        let tag = strip_trailing_punctuation(groups[1]->Some_0.text);
        if tag.len() > 0 && tag[0] == '\u{fe0f}' {
            None
        } else if utf8_len(tag) > 64 {
            None
        } else if leading.end + utf8_len(tag) > usize::MAX {
            None
        } else {
            Some(
                DetectedFacet {
                    features: seq![DetectedFeature::Tag(tag)],
                    index: ByteSlice {
                        byte_start: leading.start,
                        byte_end: (leading.end + utf8_len(tag)) as usize,
                    },
                },
            )
        }
    } else {
        None
    }
}

/// The kinds of facets.
#[derive(Clone, Copy, PartialEq, Eq, Structural)]
enum Kind {
    Mention,
    Link,
    Tag,
}

spec fn kind_facet(kind: Kind, groups: Seq<Option<SpanView>>) -> Option<DetectedFacet> {
    match kind {
        Kind::Mention => mention_facet(groups),
        Kind::Link => link_facet(groups),
        Kind::Tag => tag_facet(groups),
    }
}

/// The facets of a list of matches, in order.
pub open spec fn facets_of(caps: Seq<Seq<Option<SpanView>>>, f: spec_fn(Seq<Option<SpanView>>) -> Option<DetectedFacet>) -> Seq<DetectedFacet>
    decreases caps.len(),
{
    if caps.len() == 0 {
        Seq::empty()
    } else {
        let r = facets_of(caps.drop_last(), f);
        match f(caps.last()) {
            Some(x) => r.push(x),
            None => r,
        }
    }
}

/// The facets of the matches of one pattern, none when it finds nothing.
pub open spec fn pattern_facets(
    pattern: Seq<char>,
    text: Seq<char>,
    groups: nat,
    f: spec_fn(Seq<Option<SpanView>>) -> Option<DetectedFacet>,
) -> Seq<DetectedFacet> {
    match regex_captures(pattern, text, groups) {
        Some(caps) => facets_of(caps, f),
        None => Seq::empty(),
    }
}

/// The facets found in a text: its mentions, then its links, then its tags.
pub open spec fn spec_detect_facets(text: Seq<char>) -> Seq<DetectedFacet> {
    pattern_facets(MENTION_PATTERN@, text, 1, |g: Seq<Option<SpanView>>| mention_facet(g))
        + pattern_facets(URL_PATTERN@, text, 2, |g: Seq<Option<SpanView>>| link_facet(g))
        + pattern_facets(TAG_PATTERN@, text, 2, |g: Seq<Option<SpanView>>| tag_facet(g))
}

/// The group of a detected facet: 0 for a mention, 1 for a link, 2 for a
/// tag, by its first feature.
pub open spec fn facet_group(f: DetectedFacet) -> int {
    match f.features[0] {
        DetectedFeature::Mention(_) => 0,
        DetectedFeature::Link(_) => 1,
        DetectedFeature::Tag(_) => 2,
    }
}

/// Whether a detected facet has one feature, of the given group, and, for
/// a tag, one of at most 64 bytes.
pub open spec fn facet_of_group(f: DetectedFacet, group: int) -> bool {
    &&& f.features.len() == 1
    &&& facet_group(f) == group
    &&& f.features[0] matches DetectedFeature::Tag(t) ==> utf8_len(t) <= 64
}

proof fn lemma_facets_of_group(
    caps: Seq<Seq<Option<SpanView>>>,
    f: spec_fn(Seq<Option<SpanView>>) -> Option<DetectedFacet>,
    group: int,
)
    requires
        forall|g: Seq<Option<SpanView>>| (#[trigger] f(g)) matches Some(x) ==> facet_of_group(x, group),
    ensures
        forall|i: int| 0 <= i < facets_of(caps, f).len() ==> facet_of_group(#[trigger] facets_of(caps, f)[i], group),
    decreases caps.len(),
{
    if caps.len() > 0 {
        lemma_facets_of_group(caps.drop_last(), f, group);
        let r = facets_of(caps.drop_last(), f);
        if let Some(x) = f(caps.last()) {
            assert forall|i: int| 0 <= i < r.push(x).len() implies facet_of_group(#[trigger] r.push(x)[i], group) by {
                if i < r.len() {
                    assert(r.push(x)[i] == r[i]);
                }
            }
        }
    }
}

proof fn lemma_pattern_facets_of_group(
    pattern: Seq<char>,
    text: Seq<char>,
    groups: nat,
    f: spec_fn(Seq<Option<SpanView>>) -> Option<DetectedFacet>,
    group: int,
)
    requires
        forall|g: Seq<Option<SpanView>>| (#[trigger] f(g)) matches Some(x) ==> facet_of_group(x, group),
    ensures
        forall|i: int|
            0 <= i < pattern_facets(pattern, text, groups, f).len() ==> facet_of_group(
                #[trigger] pattern_facets(pattern, text, groups, f)[i],
                group,
            ),
{
    if let Some(caps) = regex_captures(pattern, text, groups) {
        lemma_facets_of_group(caps, f, group);
    }
}

/// Each facet found in a text has exactly one feature, and a tag's is at
/// most 64 bytes; the facets come as all mentions, then all links, then
/// all tags.
pub proof fn lemma_detected_facets_shape(text: Seq<char>)
    ensures
        forall|i: int|
            0 <= i < spec_detect_facets(text).len() ==> (#[trigger] spec_detect_facets(text)[i]).features.len() == 1
                && (spec_detect_facets(text)[i].features[0] matches DetectedFeature::Tag(t) ==> utf8_len(t) <= 64),
        forall|i: int, j: int|
            0 <= i <= j < spec_detect_facets(text).len() ==> facet_group(#[trigger] spec_detect_facets(text)[i])
                <= facet_group(#[trigger] spec_detect_facets(text)[j]),
{
    let mf = |g: Seq<Option<SpanView>>| mention_facet(g);
    let lf = |g: Seq<Option<SpanView>>| link_facet(g);
    let tf = |g: Seq<Option<SpanView>>| tag_facet(g);
    lemma_pattern_facets_of_group(MENTION_PATTERN@, text, 1, mf, 0);
    lemma_pattern_facets_of_group(URL_PATTERN@, text, 2, lf, 1);
    lemma_pattern_facets_of_group(TAG_PATTERN@, text, 2, tf, 2);
    let a = pattern_facets(MENTION_PATTERN@, text, 1, mf);
    let b = pattern_facets(URL_PATTERN@, text, 2, lf);
    let c = pattern_facets(TAG_PATTERN@, text, 2, tf);
    let all = spec_detect_facets(text);
    assert(all == a + b + c);
    assert forall|i: int| 0 <= i < all.len() implies facet_of_group(#[trigger] all[i], if i < a.len() {
        0
    } else if i < a.len() + b.len() {
        1
    } else {
        2
    }) by {
        if i < a.len() {
            assert(all[i] == a[i]);
        } else if i < a.len() + b.len() {
            assert(all[i] == b[i - a.len()]);
        } else {
            assert(all[i] == c[i - a.len() - b.len()]);
        }
    }
}

/// The URI a link match names before any punctuation is stripped: the
/// matched text, with `https://` in front for a bare domain (group 2).
pub open spec fn matched_uri(groups: Seq<Option<SpanView>>) -> Seq<char> {
    if groups[1] is Some {
        "https://"@ + groups[0]->Some_0.text
    } else {
        groups[0]->Some_0.text
    }
}

/// Whether a URI ends in one of `. , ; : ! ?`.
pub open spec fn ends_in_sentence_punctuation(uri: Seq<char>) -> bool {
    uri.len() > 0 && {
        let c = uri.last();
        c == '.' || c == ',' || c == ';' || c == ':' || c == '!' || c == '?'
    }
}

/// A link match whose URI ends in one of `. , ; : ! ?` gives a link facet
/// without that last character: its URI is the matched URI less that
/// character, and its range stops one byte before the match's end.
pub proof fn lemma_link_strips_ending_punctuation(groups: Seq<Option<SpanView>>)
    requires
        groups.len() >= 2,
        groups[0] is Some,
        groups[1] matches Some(d) ==> has_known_suffix(d.text),
        ends_in_sentence_punctuation(matched_uri(groups)),
    ensures
        link_facet(groups) matches Some(f) && f.features == seq![DetectedFeature::Link(matched_uri(groups).drop_last())]
            && f.index.byte_start == groups[0]->Some_0.start && f.index.byte_end == (groups[0]->Some_0.end
            - 1) as usize,
{
}

proof fn lemma_facets_of_source(
    caps: Seq<Seq<Option<SpanView>>>,
    f: spec_fn(Seq<Option<SpanView>>) -> Option<DetectedFacet>,
    i: int,
)
    requires
        0 <= i < facets_of(caps, f).len(),
    ensures
        exists|j: int| 0 <= j < caps.len() && f(#[trigger] caps[j]) == Some(facets_of(caps, f)[i]),
    decreases caps.len(),
{
    let r = facets_of(caps.drop_last(), f);
    if i < r.len() {
        lemma_facets_of_source(caps.drop_last(), f, i);
        let j = choose|j: int| 0 <= j < caps.drop_last().len() && f(#[trigger] caps.drop_last()[j]) == Some(r[i]);
        assert(caps[j] == caps.drop_last()[j]);
        assert(facets_of(caps, f)[i] == r[i]);
    } else {
        assert(f(caps[caps.len() - 1]) == Some(facets_of(caps, f)[i]));
    }
}

/// Every link detected in a text comes from a match of the link pattern
/// in it; when that match's URI ends in one of `. , ; : ! ?`, the link is
/// that URI less its last character and its range stops one byte before
/// the match's end.
pub proof fn lemma_detected_links_strip_ending_punctuation(text: Seq<char>, i: int)
    requires
        0 <= i < spec_detect_facets(text).len(),
        spec_detect_facets(text)[i].features[0] is Link,
    ensures
        regex_captures(URL_PATTERN@, text, 2) matches Some(caps) && exists|j: int|
            0 <= j < caps.len() && link_facet(#[trigger] caps[j]) == Some(spec_detect_facets(text)[i]) && (
            ends_in_sentence_punctuation(matched_uri(caps[j])) ==> spec_detect_facets(text)[i].features
                == seq![DetectedFeature::Link(matched_uri(caps[j]).drop_last())]
                && spec_detect_facets(text)[i].index.byte_end == (caps[j][0]->Some_0.end - 1) as usize),
{
    let mf = |g: Seq<Option<SpanView>>| mention_facet(g);
    let lf = |g: Seq<Option<SpanView>>| link_facet(g);
    let tf = |g: Seq<Option<SpanView>>| tag_facet(g);
    lemma_pattern_facets_of_group(MENTION_PATTERN@, text, 1, mf, 0);
    lemma_pattern_facets_of_group(TAG_PATTERN@, text, 2, tf, 2);
    let a = pattern_facets(MENTION_PATTERN@, text, 1, mf);
    let b = pattern_facets(URL_PATTERN@, text, 2, lf);
    let c = pattern_facets(TAG_PATTERN@, text, 2, tf);
    let all = spec_detect_facets(text);
    assert(all == a + b + c);
    if i < a.len() {
        assert(all[i] == a[i]);
        assert(facet_of_group(a[i], 0));
    } else if i >= a.len() + b.len() {
        assert(all[i] == c[i - a.len() - b.len()]);
        assert(facet_of_group(c[i - a.len() - b.len()], 2));
    } else {
        assert(all[i] == b[i - a.len()]);
        let caps = regex_captures(URL_PATTERN@, text, 2)->Some_0;
        assert(regex_captures(URL_PATTERN@, text, 2) is Some);
        lemma_facets_of_source(caps, lf, i - a.len());
        let j = choose|j: int| 0 <= j < caps.len() && lf(#[trigger] caps[j]) == Some(b[i - a.len()]);
        assert(link_facet(caps[j]) == Some(all[i]));
        if ends_in_sentence_punctuation(matched_uri(caps[j])) {
            lemma_link_strips_ending_punctuation(caps[j]);
        }
    }
}

spec fn kind_fn(kind: Kind) -> spec_fn(Seq<Option<SpanView>>) -> Option<DetectedFacet> {
    |g: Seq<Option<SpanView>>| kind_facet(kind, g)
}

proof fn lemma_detected_views_push(s: Seq<FacetWithoutResolution>, f: FacetWithoutResolution)
    ensures
        detected_views(s.push(f)) == detected_views(s).push(f@),
{
    assert(detected_views(s.push(f)) =~= detected_views(s).push(f@));
}

fn one_feature(item: FacetFeaturesItem, index: ByteSlice) -> (r: FacetWithoutResolution)
    ensures
        r@ == (DetectedFacet { features: seq![item@], index }),
{
    let mut features: Vec<FacetFeaturesItem> = Vec::new();
    features.push(item);
    let r = FacetWithoutResolution { features, index };
    assert(r@.features =~= seq![item@]);
    r
}

/// The facet of one match, if any; see `kind_facet`.
fn facet_of(kind: Kind, groups: &Vec<Option<Span>>, text: &str) -> (r: Option<FacetWithoutResolution>)
    requires
        forall|j: int| 0 <= j < groups@.len() ==> (#[trigger] groups@[j] matches Some(s) ==> span_in(s@, text@)),
    ensures
        match r {
            Some(f) => kind_facet(kind, group_views(groups@)) == Some(f@),
            None => kind_facet(kind, group_views(groups@)) is None,
        },
{
    let ghost gv = group_views(groups@);
    match kind {
        Kind::Mention => {
            if groups.len() < 1 {
                return None;
            }
            match &groups[0] {
                Some(m) => {
                    if m.start < 1 {
                        return None;
                    }
                    let item = FacetFeaturesItem::Mention(MentionWithoutResolution { handle: copy_string(&m.text) });
                    Some(one_feature(item, ByteSlice { byte_start: m.start - 1, byte_end: m.end }))
                },
                None => None,
            }
        },
        Kind::Link => {
            if groups.len() < 2 {
                return None;
            }
            let m = match &groups[0] {
                Some(m) => m,
                None => {
                    return None;
                },
            };
            let mut uri = String::new();
            match &groups[1] {
                Some(d) => {
                    if !known_suffix(d.text.as_str()) {
                        return None;
                    }
                    uri.push_str("https://");
                },
                None => {},
            }
            uri.push_str(m.text.as_str());
            let cs = chars_of(uri.as_str());
            let stray = if cs.len() == 0 {
                false
            } else {
                let c = cs[cs.len() - 1];
                if c == '.' || c == ',' || c == ';' || c == ':' || c == '!' || c == '?' {
                    true
                } else if c == ')' {
                    let mut open = false;
                    let mut k: usize = 0;
                    while k < cs.len()
                        invariant
                            k <= cs@.len(),
                            open == exists|q: int| 0 <= q < k && cs@[q] == '(',
                        decreases cs.len() - k,
                    {
                        if cs[k] == '(' {
                            open = true;
                        }
                        k = k + 1;
                    }
                    proof {
                        if open {
                            let q = choose|q: int| 0 <= q < cs@.len() && cs@[q] == '(';
                            assert(cs@.contains('('));
                        } else {
                            assert(!cs@.contains('('));
                        }
                    }
                    !open
                } else {
                    false
                }
            };
            assert(stray == ends_in_stray_punctuation(uri@));
            if stray {
                proof {
                    assert(span_in(gv[0]->Some_0, text@));
                    reveal_strlit("https://");
                    if m.text@.len() == 0 {
                        assert(uri@ =~= (if groups@[1] is Some { "https://"@ } else { Seq::<char>::empty() }));
                        assert(uri@.last() == '/' || uri@.len() == 0);
                    }
                    assert(m.text@.len() > 0);
                    assert(encode_utf8(m.text@).len() > 0) by {
                        assert(m.text@.len() > 0);
                        vstd::utf8::encode_utf8_first_scalar(m.text@);
                    }
                }
                let mut shorter: Vec<char> = Vec::new();
                let mut k: usize = 0;
                while k + 1 < cs.len()
                    invariant
                        cs@.len() > 0,
                        k + 1 <= cs@.len(),
                        shorter@ == cs@.take(k as int),
                    decreases cs.len() - k,
                {
                    shorter.push(cs[k]);
                    k = k + 1;
                    assert(shorter@ =~= cs@.take(k as int));
                }
                assert(shorter@ =~= uri@.drop_last());
                let item = FacetFeaturesItem::Link(Link { uri: string_of(&shorter) });
                Some(one_feature(item, ByteSlice { byte_start: m.start, byte_end: m.end - 1 }))
            } else {
                let item = FacetFeaturesItem::Link(Link { uri });
                Some(one_feature(item, ByteSlice { byte_start: m.start, byte_end: m.end }))
            }
        },
        Kind::Tag => {
            if groups.len() < 2 {
                return None;
            }
            let (leading, t) = match (&groups[0], &groups[1]) {
                (Some(l), Some(t)) => (l, t),
                _ => {
                    return None;
                },
            };
            let tag = strip_trailing_punctuation_exec(&chars_of(t.text.as_str()));
            if tag.len() > 0 && tag[0] == '\u{fe0f}' {
                return None;
            }
            let n = utf8_len_exec(&tag);
            if n > 64 {
                return None;
            }
            if leading.end as u128 + n > usize::MAX as u128 {
                return None;
            }
            let end = leading.end + (n as usize);
            let item = FacetFeaturesItem::Tag(Tag { tag: string_of(&tag) });
            Some(one_feature(item, ByteSlice { byte_start: leading.start, byte_end: end }))
        },
    }
}

/// Appends the facets of one pattern's matches.
fn collect(pattern: &str, text: &str, groups: usize, kind: Kind, out: &mut Vec<FacetWithoutResolution>)
    ensures
        detected_views(final(out)@) == detected_views(old(out)@) + match regex_captures(
            pattern@,
            text@,
            groups as nat,
        ) {
            Some(caps) => facets_of(caps, kind_fn(kind)),
            None => Seq::empty(),
        },
{
    let caps = match captures(pattern, text, groups) {
        Some(c) => c,
        None => {
            assert(detected_views(out@) + Seq::<DetectedFacet>::empty() =~= detected_views(out@));
            return;
        },
    };
    let ghost cv = captures_views(caps@);
    let ghost base = detected_views(out@);
    let mut i: usize = 0;
    assert(cv.take(0) =~= Seq::<Seq<Option<SpanView>>>::empty());
    assert(base + facets_of(cv.take(0), kind_fn(kind)) =~= base);
    while i < caps.len()
        invariant
            i <= caps@.len(),
            cv == captures_views(caps@),
            forall|a: int, b: int|
                0 <= a < caps@.len() && 0 <= b < caps@[a]@.len() ==> (#[trigger] caps@[a]@[b] matches Some(s)
                    ==> span_in(s@, text@)),
            detected_views(out@) == base + facets_of(cv.take(i as int), kind_fn(kind)),
        decreases caps.len() - i,
    {
        assert(cv.take(i + 1).drop_last() =~= cv.take(i as int));
        assert(cv.take(i + 1).last() == group_views(caps@[i as int]@));
        match facet_of(kind, &caps[i], text) {
            Some(f) => {
                proof {
                    lemma_detected_views_push(out@, f);
                    assert(base + facets_of(cv.take(i as int), kind_fn(kind)).push(f@) =~= (base
                        + facets_of(cv.take(i as int), kind_fn(kind))).push(f@));
                }
                out.push(f);
            },
            None => {},
        }
        i = i + 1;
    }
    assert(cv.take(i as int) =~= cv);
}

/// Finds the mentions, links and tags in a text; see `spec_detect_facets`.
pub fn detect_facets(text: &str) -> (r: Vec<FacetWithoutResolution>)
    ensures
        detected_views(r@) == spec_detect_facets(text@),
{
    let mut facets: Vec<FacetWithoutResolution> = Vec::new();
    collect(MENTION_PATTERN, text, 1, Kind::Mention, &mut facets);
    collect(URL_PATTERN, text, 2, Kind::Link, &mut facets);
    collect(TAG_PATTERN, text, 2, Kind::Tag, &mut facets);
    proof {
        assert(kind_fn(Kind::Mention) =~= |g: Seq<Option<SpanView>>| mention_facet(g));
        assert(kind_fn(Kind::Link) =~= |g: Seq<Option<SpanView>>| link_facet(g));
        assert(kind_fn(Kind::Tag) =~= |g: Seq<Option<SpanView>>| tag_facet(g));
        assert(detected_views(Seq::<FacetWithoutResolution>::empty()) =~= Seq::<DetectedFacet>::empty());
        assert(detected_views(facets@) =~= spec_detect_facets(text@));
    }
    facets
}

// resolving mentions

/// The handles that some features mention, in order.
pub open spec fn feature_mentions(fs: Seq<DetectedFeature>) -> Seq<Seq<char>>
    decreases fs.len(),
{
    if fs.len() == 0 {
        Seq::empty()
    } else {
        let r = feature_mentions(fs.drop_last());
        match fs.last() {
            DetectedFeature::Mention(h) => r.push(h),
            _ => r,
        }
    }
}

/// The handles that detected facets mention, in order.
pub open spec fn facet_mentions(facets: Seq<DetectedFacet>) -> Seq<Seq<char>>
    decreases facets.len(),
{
    if facets.len() == 0 {
        Seq::empty()
    } else {
        facet_mentions(facets.drop_last()) + feature_mentions(facets.last().features)
    }
}

/// How many mentions come before the feature `j` of the facet `i`.
pub open spec fn mention_offset(facets: Seq<DetectedFacet>, i: int, j: int) -> int {
    (facet_mentions(facets.take(i)).len() + feature_mentions(facets[i].features.take(j)).len()) as int
}

proof fn lemma_feature_mentions_append(a: Seq<DetectedFeature>, b: Seq<DetectedFeature>)
    ensures
        feature_mentions(a + b) == feature_mentions(a) + feature_mentions(b),
    decreases b.len(),
{
    if b.len() == 0 {
        assert(a + b =~= a);
    } else {
        lemma_feature_mentions_append(a, b.drop_last());
        assert((a + b).drop_last() =~= a + b.drop_last());
        assert((a + b).last() == b.last());
    }
}

proof fn lemma_facet_mentions_append(a: Seq<DetectedFacet>, b: Seq<DetectedFacet>)
    ensures
        facet_mentions(a + b) == facet_mentions(a) + facet_mentions(b),
    decreases b.len(),
{
    if b.len() == 0 {
        assert(a + b =~= a);
    } else {
        lemma_facet_mentions_append(a, b.drop_last());
        assert((a + b).drop_last() =~= a + b.drop_last());
        assert((a + b).last() == b.last());
    }
}

/// The handle of the mention at feature `j` of facet `i` stands at that
/// mention's offset among all the handles the facets mention: resolving
/// the handles in order gives each mention the DID of its own handle.
pub proof fn lemma_mention_at_offset(facets: Seq<DetectedFacet>, i: int, j: int)
    requires
        0 <= i < facets.len(),
        0 <= j < facets[i].features.len(),
        facets[i].features[j] is Mention,
    ensures
        0 <= mention_offset(facets, i, j) < facet_mentions(facets).len(),
        facet_mentions(facets)[mention_offset(facets, i, j)] == facets[i].features[j]->Mention_0,
{
    let fs = facets[i].features;
    assert(facets =~= facets.take(i) + seq![facets[i]] + facets.skip(i + 1));
    lemma_facet_mentions_append(facets.take(i) + seq![facets[i]], facets.skip(i + 1));
    lemma_facet_mentions_append(facets.take(i), seq![facets[i]]);
    assert(seq![facets[i]].drop_last() =~= Seq::<DetectedFacet>::empty());
    assert(seq![facets[i]].last() == facets[i]);
    assert(facet_mentions(Seq::<DetectedFacet>::empty()) == Seq::<Seq<char>>::empty());
    assert(facet_mentions(seq![facets[i]]) =~= feature_mentions(fs));
    assert(fs =~= fs.take(j) + seq![fs[j]] + fs.skip(j + 1));
    lemma_feature_mentions_append(fs.take(j) + seq![fs[j]], fs.skip(j + 1));
    lemma_feature_mentions_append(fs.take(j), seq![fs[j]]);
    assert(seq![fs[j]].drop_last() =~= Seq::<DetectedFeature>::empty());
    assert(seq![fs[j]].last() == fs[j]);
    assert(feature_mentions(Seq::<DetectedFeature>::empty()) == Seq::<Seq<char>>::empty());
}

/// The handles that detected facets mention, in order; these are the
/// handles to resolve to DIDs.
pub fn mention_handles(facets: &Vec<FacetWithoutResolution>) -> (r: Vec<String>)
    ensures
        string_views(r@) == facet_mentions(detected_views(facets@)),
{
    let ghost dv = detected_views(facets@);
    let mut out: Vec<String> = Vec::new();
    let mut i: usize = 0;
    while i < facets.len()
        invariant
            dv == detected_views(facets@),
            i <= facets@.len(),
            string_views(out@) == facet_mentions(dv.take(i as int)),
        decreases facets.len() - i,
    {
        let fs = &facets[i].features;
        let ghost fv = dv[i as int].features;
        assert(fv == fs@.map_values(|f: FacetFeaturesItem| f@));
        let ghost start = string_views(out@);
        let mut j: usize = 0;
        while j < fs.len()
            invariant
                i < facets@.len(),
                fs == facets@[i as int].features,
                fv == fs@.map_values(|f: FacetFeaturesItem| f@),
                j <= fs@.len(),
                string_views(out@) == start + feature_mentions(fv.take(j as int)),
            decreases fs.len() - j,
        {
            assert(fv.take(j + 1).drop_last() =~= fv.take(j as int));
            assert(fv.take(j + 1).last() == fs@[j as int]@);
            match &fs[j] {
                FacetFeaturesItem::Mention(m) => {
                    let h = m.handle.clone();
                    proof {
                        lemma_string_views_push(out@, h);
                    }
                    out.push(h);
                },
                _ => {},
            }
            j = j + 1;
        }
        assert(fv.take(j as int) =~= fv);
        assert(dv.take(i + 1).drop_last() =~= dv.take(i as int));
        assert(dv.take(i + 1).last() == dv[i as int]);
        i = i + 1;
    }
    assert(dv.take(i as int) =~= dv);
    out
}

/// Whether a feature is a detected one, with a mention resolved to `did`.
pub open spec fn feature_resolved(f: FacetFeature, d: DetectedFeature, did: Seq<char>) -> bool {
    match d {
        DetectedFeature::Mention(_) => f matches FacetFeature::Mention(m) && m.did@ == did,
        DetectedFeature::Link(u) => f matches FacetFeature::Link(l) && l.uri@ == u,
        DetectedFeature::Tag(t) => f matches FacetFeature::Tag(x) && x.tag@ == t,
    }
}

/// Whether `r` holds the detected facets with their mentions resolved, in
/// order, to the DIDs `dids`.
pub open spec fn facets_resolved(r: Seq<Facet>, facets: Seq<DetectedFacet>, dids: Seq<Seq<char>>) -> bool {
    &&& r.len() == facets.len()
    &&& forall|i: int|
        0 <= i < r.len() ==> {
            &&& (#[trigger] r[i]).index == facets[i].index
            &&& r[i].features@.len() == facets[i].features.len()
            &&& forall|j: int|
                0 <= j < r[i].features@.len() ==> feature_resolved(
                    #[trigger] r[i].features@[j],
                    facets[i].features[j],
                    dids[mention_offset(facets, i, j)],
                )
        }
}

/// The detected facets with their mentions resolved, in order, to the
/// given DIDs.
pub fn resolve_facets(facets: &Vec<FacetWithoutResolution>, dids: &Vec<String>) -> (r: Vec<Facet>)
    requires
        dids@.len() == facet_mentions(detected_views(facets@)).len(),
    ensures
        facets_resolved(r@, detected_views(facets@), string_views(dids@)),
{
    let ghost dv = detected_views(facets@);
    let ghost ds = string_views(dids@);
    let mut out: Vec<Facet> = Vec::new();
    let mut n: usize = 0;
    let mut i: usize = 0;
    while i < facets.len()
        invariant
            dv == detected_views(facets@),
            ds == string_views(dids@),
            dids@.len() == facet_mentions(dv).len(),
            i <= facets@.len(),
            n == facet_mentions(dv.take(i as int)).len(),
            facets_resolved(out@, dv.take(i as int), ds),
            forall|a: int, b: int|
                0 <= a < i && 0 <= b < dv[a].features.len() ==> mention_offset(dv.take(i as int), a, b)
                    == mention_offset(dv, a, b),
        decreases facets.len() - i,
    {
        proof {
            lemma_facet_mentions_append(dv.take(i as int), dv.skip(i as int));
            assert(dv =~= dv.take(i as int) + dv.skip(i as int));
            assert(dv.skip(i as int) =~= seq![dv[i as int]] + dv.skip(i + 1));
            lemma_facet_mentions_append(seq![dv[i as int]], dv.skip(i + 1));
            assert(seq![dv[i as int]].drop_last() =~= Seq::<DetectedFacet>::empty());
            assert(seq![dv[i as int]].last() == dv[i as int]);
            assert(facet_mentions(Seq::<DetectedFacet>::empty()) == Seq::<Seq<char>>::empty());
            assert(facet_mentions(seq![dv[i as int]]) =~= feature_mentions(dv[i as int].features));
        }
        let fs = &facets[i].features;
        let ghost fv = dv[i as int].features;
        assert(fv == fs@.map_values(|f: FacetFeaturesItem| f@));
        let mut features: Vec<FacetFeature> = Vec::new();
        let mut j: usize = 0;
        while j < fs.len()
            invariant
                i < facets@.len(),
                dv == detected_views(facets@),
                ds == string_views(dids@),
                dids@.len() == facet_mentions(dv).len(),
                fs == facets@[i as int].features,
                fv == dv[i as int].features,
                fv == fs@.map_values(|f: FacetFeaturesItem| f@),
                j <= fs@.len(),
                n == facet_mentions(dv.take(i as int)).len() + feature_mentions(fv.take(j as int)).len(),
                n <= facet_mentions(dv.take(i as int)).len() + feature_mentions(fv).len(),
                facet_mentions(dv.take(i as int)).len() + feature_mentions(fv).len() <= dids@.len(),
                features@.len() == j,
                forall|b: int|
                    0 <= b < j ==> feature_resolved(
                        #[trigger] features@[b],
                        fv[b],
                        ds[(facet_mentions(dv.take(i as int)).len() + feature_mentions(fv.take(b)).len()) as int],
                    ),
            decreases fs.len() - j,
        {
            assert(fv.take(j + 1).drop_last() =~= fv.take(j as int));
            assert(fv.take(j + 1).last() == fs@[j as int]@);
            proof {
                assert(fv =~= fv.take(j + 1) + fv.skip(j + 1));
                lemma_feature_mentions_append(fv.take(j + 1), fv.skip(j + 1));
                assert(feature_mentions(fv.take(j + 1)).len() <= feature_mentions(fv).len());
            }
            let f = match &fs[j] {
                FacetFeaturesItem::Mention(_) => {
                    assert(fv[j as int] is Mention);
                    assert(feature_mentions(fv.take(j + 1)).len() == feature_mentions(fv.take(j as int)).len() + 1);
                    assert(n + 1 <= dids@.len());
                    assert(dids@.len() == dids.len());
                    let did = dids[n].clone();
                    n = n + 1;
                    FacetFeature::Mention(Mention { did })
                },
                FacetFeaturesItem::Link(l) => FacetFeature::Link(Link { uri: l.uri.clone() }),
                FacetFeaturesItem::Tag(t) => FacetFeature::Tag(Tag { tag: t.tag.clone() }),
            };
            features.push(f);
            j = j + 1;
        }
        assert(fv.take(j as int) =~= fv);
        let ghost before = out@;
        out.push(Facet { features, index: facets[i].index });
        proof {
            let t1 = dv.take(i + 1);
            assert(t1.drop_last() =~= dv.take(i as int));
            assert(t1.last() == dv[i as int]);
            assert forall|a: int, b: int| 0 <= a < i + 1 && 0 <= b < dv[a].features.len()
                implies mention_offset(t1, a, b) == mention_offset(dv, a, b) by {
                assert(t1.take(a) =~= dv.take(a));
                assert(t1[a] == dv[a]);
            }
            assert forall|a: int| 0 <= a < out@.len() implies {
                &&& (#[trigger] out@[a]).index == t1[a].index
                &&& out@[a].features@.len() == t1[a].features.len()
                &&& forall|b: int|
                    0 <= b < out@[a].features@.len() ==> feature_resolved(
                        #[trigger] out@[a].features@[b],
                        t1[a].features[b],
                        ds[mention_offset(t1, a, b)],
                    )
            } by {
                if a < i {
                    assert(out@[a] == before[a]);
                    assert(dv.take(i as int)[a] == t1[a]);
                    assert forall|b: int| 0 <= b < out@[a].features@.len() implies feature_resolved(
                        #[trigger] out@[a].features@[b],
                        t1[a].features[b],
                        ds[mention_offset(t1, a, b)],
                    ) by {
                        assert(mention_offset(dv.take(i as int), a, b) == mention_offset(dv, a, b));
                        assert(mention_offset(t1, a, b) == mention_offset(dv, a, b));
                    }
                } else {
                    assert(t1.take(a) =~= dv.take(i as int));
                }
            }
        }
        i = i + 1;
    }
    assert(dv.take(i as int) =~= dv);
    out
}

} // verus!
