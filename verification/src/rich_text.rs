//! Rich text: text with facets (mentions, links and tags) over byte ranges.
pub mod detection;
pub mod facet;

use vstd::prelude::*;
use vstd::utf8::{decode_utf8, encode_utf8, is_char_boundary, valid_utf8};
use self::detection::{
    detect_facets, detected_views, facet_mentions, facets_resolved, mention_handles, resolve_facets,
    spec_detect_facets,
};
use self::facet::{ByteSlice, Facet, FacetFeature, Link, Mention, Tag};
use crate::text::{
    byte_len, byte_slice, chars_of, copy_string, string_views, is_white_space, lemma_encode_utf8_concat, white_space,
};

verus! {

/// The mathematical value of a `Facet`.
pub struct FacetView {
    pub features: Seq<FacetFeature>,
    pub index: ByteSlice,
}

impl View for Facet {
    type V = FacetView;

    open spec fn view(&self) -> FacetView {
        FacetView { features: self.features@, index: self.index }
    }
}

/// The views of a list of facets.
pub open spec fn facet_views(fs: Seq<Facet>) -> Seq<FacetView> {
    fs.map_values(|f: Facet| f@)
}

/// The view of an optional list of facets.
pub open spec fn opt_facet_views(fs: Option<Vec<Facet>>) -> Option<Seq<FacetView>> {
    match fs {
        Some(v) => Some(facet_views(v@)),
        None => None,
    }
}

/// A text with facets over byte ranges of it.
#[derive(Debug, Clone)]
pub struct RichText {
    pub text: String,
    pub facets: Option<Vec<Facet>>,
}

/// The mathematical value of a `RichText`.
pub struct RichTextView {
    pub text: Seq<char>,
    pub facets: Option<Seq<FacetView>>,
}

impl View for RichText {
    type V = RichTextView;

    open spec fn view(&self) -> RichTextView {
        RichTextView { text: self.text@, facets: opt_facet_views(self.facets) }
    }
}

/// A piece of a rich text, with the facet that covers it, if any.
#[derive(Debug, Clone, PartialEq, Eq)]
pub struct RichTextSegment {
    pub text: String,
    pub facet: Option<Facet>,
}

/// The mathematical value of a `RichTextSegment`.
pub struct SegmentView {
    pub text: Seq<char>,
    pub facet: Option<FacetView>,
}

impl View for RichTextSegment {
    type V = SegmentView;

    open spec fn view(&self) -> SegmentView {
        SegmentView {
            text: self.text@,
            facet: match self.facet {
                Some(f) => Some(f@),
                None => None,
            },
        }
    }
}

/// The views of a list of segments.
pub open spec fn segment_views(s: Seq<RichTextSegment>) -> Seq<SegmentView> {
    s.map_values(|x: RichTextSegment| x@)
}

// features

/// The first mention among some features.
pub open spec fn first_mention(fs: Seq<FacetFeature>) -> Option<Mention>
    decreases fs.len(),
{
    if fs.len() == 0 {
        None
    } else {
        match fs[0] {
            FacetFeature::Mention(m) => Some(m),
            _ => first_mention(fs.drop_first()),
        }
    }
}

/// The first link among some features.
pub open spec fn first_link(fs: Seq<FacetFeature>) -> Option<Link>
    decreases fs.len(),
{
    if fs.len() == 0 {
        None
    } else {
        match fs[0] {
            FacetFeature::Link(l) => Some(l),
            _ => first_link(fs.drop_first()),
        }
    }
}

/// The first tag among some features.
pub open spec fn first_tag(fs: Seq<FacetFeature>) -> Option<Tag>
    decreases fs.len(),
{
    if fs.len() == 0 {
        None
    } else {
        match fs[0] {
            FacetFeature::Tag(t) => Some(t),
            _ => first_tag(fs.drop_first()),
        }
    }
}

impl RichTextSegment {
    /// A segment with the given text and facet.
    pub fn new(text: &str, facet: Option<Facet>) -> (r: Self)
        ensures
            r.text@ == text@,
            r.facet == facet,
    {
        RichTextSegment { text: text.to_owned(), facet }
    }

    /// The first mention of the segment's facet, if any.
    pub fn mention(&self) -> (r: Option<Mention>)
        ensures
            r == match self.facet {
                Some(f) => first_mention(f.features@),
                None => None,
            },
    {
        match &self.facet {
            None => None,
            Some(f) => {
                let mut i: usize = 0;
                assert(f.features@.skip(0) =~= f.features@);
                while i < f.features.len()
                    invariant
                        i <= f.features@.len(),
                        self.facet == Some(*f),
                        first_mention(f.features@) == first_mention(f.features@.skip(i as int)),
                    decreases f.features.len() - i,
                {
                    assert(f.features@.skip(i as int)[0] == f.features@[i as int]);
                    assert(f.features@.skip(i as int).drop_first() =~= f.features@.skip(i + 1));
                    match &f.features[i] {
                        FacetFeature::Mention(m) => {
                            return Some(Mention { did: copy_string(&m.did) });
                        },
                        _ => {},
                    }
                    i = i + 1;
                }
                None
            },
        }
    }

    /// The first link of the segment's facet, if any.
    pub fn link(&self) -> (r: Option<Link>)
        ensures
            r == match self.facet {
                Some(f) => first_link(f.features@),
                None => None,
            },
    {
        match &self.facet {
            None => None,
            Some(f) => {
                let mut i: usize = 0;
                assert(f.features@.skip(0) =~= f.features@);
                while i < f.features.len()
                    invariant
                        i <= f.features@.len(),
                        self.facet == Some(*f),
                        first_link(f.features@) == first_link(f.features@.skip(i as int)),
                    decreases f.features.len() - i,
                {
                    assert(f.features@.skip(i as int)[0] == f.features@[i as int]);
                    assert(f.features@.skip(i as int).drop_first() =~= f.features@.skip(i + 1));
                    match &f.features[i] {
                        FacetFeature::Link(l) => {
                            return Some(Link { uri: copy_string(&l.uri) });
                        },
                        _ => {},
                    }
                    i = i + 1;
                }
                None
            },
        }
    }

    /// The first tag of the segment's facet, if any.
    pub fn tag(&self) -> (r: Option<Tag>)
        ensures
            r == match self.facet {
                Some(f) => first_tag(f.features@),
                None => None,
            },
    {
        match &self.facet {
            None => None,
            Some(f) => {
                let mut i: usize = 0;
                assert(f.features@.skip(0) =~= f.features@);
                while i < f.features.len()
                    invariant
                        i <= f.features@.len(),
                        self.facet == Some(*f),
                        first_tag(f.features@) == first_tag(f.features@.skip(i as int)),
                    decreases f.features.len() - i,
                {
                    assert(f.features@.skip(i as int)[0] == f.features@[i as int]);
                    assert(f.features@.skip(i as int).drop_first() =~= f.features@.skip(i + 1));
                    match &f.features[i] {
                        FacetFeature::Tag(t) => {
                            return Some(Tag { tag: copy_string(&t.tag) });
                        },
                        _ => {},
                    }
                    i = i + 1;
                }
                None
            },
        }
    }
}

// segments

/// Whether every character of a text is white space (so that trimming it
/// leaves nothing).
pub open spec fn is_blank(s: Seq<char>) -> bool {
    forall|i: int| 0 <= i < s.len() ==> is_white_space(#[trigger] s[i])
}

/// Whether a byte range of a text can be sliced: in order, within the
/// text, and on character boundaries.
pub open spec fn slice_ok(bytes: Seq<u8>, a: int, b: int) -> bool {
    0 <= a <= b <= bytes.len() && is_char_boundary(bytes, a) && is_char_boundary(bytes, b)
}

/// The text between two byte offsets.
pub open spec fn text_between(bytes: Seq<u8>, a: int, b: int) -> Seq<char> {
    decode_utf8(bytes.subrange(a, b))
}

/// A segment without a facet.
pub open spec fn plain_segment(t: Seq<char>) -> SegmentView {
    SegmentView { text: t, facet: None }
}

/// A list in front of an optional list.
pub open spec fn opt_prepend<A>(a: Seq<A>, o: Option<Seq<A>>) -> Option<Seq<A>> {
    match o {
        Some(b) => Some(a + b),
        None => None,
    }
}

/// The segments of a text from byte `cursor` on, given the facets still
/// to place. A facet that starts before the cursor is skipped. Otherwise
/// the text up to the facet is a plain segment, the facet's own range is a
/// segment (a plain one when it is only white space), and the cursor moves
/// to the facet's end. What remains after the last facet is a plain
/// segment. `None` when a range to slice is not valid.
pub open spec fn segments_from(bytes: Seq<u8>, facets: Seq<FacetView>, cursor: int) -> Option<
    Seq<SegmentView>,
>
    decreases facets.len(),
{
    if facets.len() == 0 {
        if cursor < bytes.len() {
            if slice_ok(bytes, cursor, bytes.len() as int) {
                Some(seq![plain_segment(text_between(bytes, cursor, bytes.len() as int))])
            } else {
                None
            }
        } else {
            Some(Seq::empty())
        }
    } else {
        let f = facets[0];
        let s = f.index.byte_start as int;
        let e = f.index.byte_end as int;
        if cursor > s {
            segments_from(bytes, facets.drop_first(), cursor)
        } else {
            let before = if cursor < s {
                if slice_ok(bytes, cursor, s) {
                    Some(seq![plain_segment(text_between(bytes, cursor, s))])
                } else {
                    None
                }
            } else {
                Some(Seq::empty())
            };
            let inner = if s < e {
                if slice_ok(bytes, s, e) {
                    let t = text_between(bytes, s, e);
                    Some(
                        seq![
                            SegmentView {
                                text: t,
                                facet: if is_blank(t) {
                                    None
                                } else {
                                    Some(f)
                                },
                            },
                        ],
                    )
                } else {
                    None
                }
            } else {
                Some(Seq::empty())
            };
            match (before, inner) {
                (Some(a), Some(b)) => opt_prepend(a + b, segments_from(bytes, facets.drop_first(), e)),
                _ => None,
            }
        }
    }
}

/// The segments of a rich text: the whole text when it has no facets.
pub open spec fn spec_segments(rt: RichTextView) -> Option<Seq<SegmentView>> {
    match rt.facets {
        None => Some(seq![plain_segment(rt.text)]),
        Some(fs) => segments_from(encode_utf8(rt.text), fs, 0),
    }
}

// editing

/// A facet moved to a new byte range.
pub open spec fn moved(f: FacetView, range: (int, int)) -> FacetView {
    FacetView {
        features: f.features,
        index: ByteSlice { byte_start: range.0 as usize, byte_end: range.1 as usize },
    }
}

/// Where a facet's range goes when `n` bytes are inserted at `index`:
/// a facet at or after the insertion moves by `n`; a facet the insertion
/// falls inside grows by `n`; a facet before it stays.
pub open spec fn inserted_range(s: ByteSlice, index: int, n: int) -> (int, int) {
    let bs = s.byte_start as int;
    let be = s.byte_end as int;
    if index <= bs {
        (bs + n, be + n)
    } else if index >= bs && index < be {
        (bs, be + n)
    } else {
        (bs, be)
    }
}

/// Whether a facet's new range fits in `usize` after an insertion.
pub open spec fn insert_fits_facet(f: FacetView, index: int, n: int) -> bool {
    inserted_range(f.index, index, n).1 <= usize::MAX && inserted_range(f.index, index, n).0
        <= usize::MAX
}

/// Whether every facet's new range fits in `usize` after an insertion.
pub open spec fn insert_fits(fs: Option<Seq<FacetView>>, index: int, n: int) -> bool {
    match fs {
        Some(v) => forall|i: int| 0 <= i < v.len() ==> insert_fits_facet(#[trigger] v[i], index, n),
        None => true,
    }
}

/// The facets after inserting `n` bytes at `index`.
pub open spec fn facets_after_insert(fs: Option<Seq<FacetView>>, index: int, n: int) -> Option<
    Seq<FacetView>,
> {
    match fs {
        Some(v) => Some(v.map_values(|f: FacetView| moved(f, inserted_range(f.index, index, n)))),
        None => None,
    }
}

/// Where a facet's range goes when the bytes from `start` to `end` are
/// deleted: a facet inside the deletion becomes empty; one that ends
/// before it stays; one it cuts the end of ends where it starts; one it
/// lies inside shrinks; one it cuts the start of starts where it starts
/// and shrinks; one after it moves back.
pub open spec fn deleted_range(s: ByteSlice, start: int, end: int) -> (int, int) {
    let bs = s.byte_start as int;
    let be = s.byte_end as int;
    let n = end - start;
    if start <= bs && end >= be {
        (0, 0)
    } else if start > be {
        (bs, be)
    } else if start > bs && start <= be && end > be {
        (bs, start)
    } else if start >= bs && end <= be {
        (bs, be - n)
    } else if start < bs && end >= bs && end <= be {
        (start, be - n)
    } else if end < bs {
        (bs - n, be - n)
    } else {
        (bs, be)
    }
}

/// Whether a facet's new range stays at or above zero after a deletion.
pub open spec fn delete_fits_facet(f: FacetView, start: int, end: int) -> bool {
    deleted_range(f.index, start, end).1 >= 0 && deleted_range(f.index, start, end).0 >= 0
}

/// Whether no facet's new range would go below zero after a deletion.
pub open spec fn delete_fits(fs: Option<Seq<FacetView>>, start: int, end: int) -> bool {
    match fs {
        Some(v) => forall|i: int| 0 <= i < v.len() ==> delete_fits_facet(#[trigger] v[i], start, end),
        None => true,
    }
}

/// Whether a facet covers some bytes.
pub open spec fn non_empty_facet(f: FacetView) -> bool {
    f.index.byte_start < f.index.byte_end
}

/// The facets after deleting the bytes from `start` to `end`: each moved,
/// then those left empty dropped.
pub open spec fn facets_after_delete(fs: Option<Seq<FacetView>>, start: int, end: int) -> Option<
    Seq<FacetView>,
> {
    match fs {
        Some(v) => Some(
            v.map_values(|f: FacetView| moved(f, deleted_range(f.index, start, end))).filter(
                |f: FacetView| non_empty_facet(f),
            ),
        ),
        None => None,
    }
}

proof fn lemma_facet_views_push(s: Seq<Facet>, f: Facet)
    ensures
        facet_views(s.push(f)) == facet_views(s).push(f@),
{
    assert(facet_views(s.push(f)) =~= facet_views(s).push(f@));
}

/// Filtering with a predicate that every element meets keeps the list.
pub proof fn lemma_filter_all<A>(s: Seq<A>, p: spec_fn(A) -> bool)
    requires
        forall|i: int| 0 <= i < s.len() ==> p(#[trigger] s[i]),
    ensures
        s.filter(p) == s,
    decreases s.len(),
{
    reveal(Seq::filter);
    if s.len() > 0 {
        lemma_filter_all(s.drop_last(), p);
        assert(s.drop_last().push(s.last()) =~= s);
    }
}

/// Whether every facet covers some bytes.
pub open spec fn all_non_empty(fs: Option<Seq<FacetView>>) -> bool {
    match fs {
        Some(v) => forall|i: int| 0 <= i < v.len() ==> non_empty_facet(#[trigger] v[i]),
        None => true,
    }
}

/// Inserting a text and then deleting the bytes it took gives back the
/// text and, when every facet covers some bytes, the facets. The deletion
/// is always allowed: its ends are boundaries of the new text and no facet
/// would move below zero.
pub proof fn lemma_insert_then_delete(
    text: Seq<char>,
    facets: Option<Seq<FacetView>>,
    index: int,
    inserted: Seq<char>,
)
    requires
        is_char_boundary(encode_utf8(text), index),
        insert_fits(facets, index, encode_utf8(inserted).len() as int),
    ensures
        ({
            let b = encode_utf8(text);
            let n = encode_utf8(inserted).len() as int;
            let b2 = b.subrange(0, index) + encode_utf8(inserted) + b.subrange(index, b.len() as int);
            &&& is_char_boundary(b2, index)
            &&& is_char_boundary(b2, index + n)
            &&& delete_fits(facets_after_insert(facets, index, n), index, index + n)
            &&& b2.subrange(0, index) + b2.subrange(index + n, b2.len() as int) == b
            &&& all_non_empty(facets) ==> facets_after_delete(
                facets_after_insert(facets, index, n),
                index,
                index + n,
            ) == facets
        }),
{
    let b = encode_utf8(text);
    let n = encode_utf8(inserted).len() as int;
    let b2 = b.subrange(0, index) + encode_utf8(inserted) + b.subrange(index, b.len() as int);
    crate::text::lemma_split_text(text, index);
    let c1 = decode_utf8(b.subrange(0, index));
    let c2 = decode_utf8(b.subrange(index, b.len() as int));
    crate::text::lemma_encode_utf8_concat(c1, inserted);
    crate::text::lemma_encode_utf8_concat(c1 + inserted, c2);
    assert(b2 =~= encode_utf8(c1 + inserted + c2));
    crate::text::lemma_boundary_at_concat(c1, inserted + c2);
    assert(c1 + inserted + c2 =~= c1 + (inserted + c2));
    crate::text::lemma_boundary_at_concat(c1 + inserted, c2);
    assert(b2.subrange(0, index) + b2.subrange(index + n, b2.len() as int) =~= b);
    match facets {
        None => {},
        Some(v) => {
            let ins = v.map_values(|f: FacetView| moved(f, inserted_range(f.index, index, n)));
            assert forall|i: int| 0 <= i < ins.len() implies delete_fits_facet(
                #[trigger] ins[i],
                index,
                index + n,
            ) by {
                assert(insert_fits_facet(v[i], index, n));
            }
            if all_non_empty(facets) {
                let back = ins.map_values(
                    |f: FacetView| moved(f, deleted_range(f.index, index, index + n)),
                );
                assert forall|i: int| 0 <= i < back.len() implies back[i] == v[i] by {
                    assert(insert_fits_facet(v[i], index, n));
                    assert(non_empty_facet(v[i]));
                }
                assert(back =~= v);
                lemma_filter_all(back, |f: FacetView| non_empty_facet(f));
            }
        },
    }
}

/// What the text between two byte offsets decodes to, given the string it
/// was sliced into.
proof fn lemma_slice_text(bytes: Seq<u8>, a: int, b: int, t: Seq<char>)
    requires
        valid_utf8(bytes),
        slice_ok(bytes, a, b),
        encode_utf8(t) == bytes.subrange(a, b),
    ensures
        t == text_between(bytes, a, b),
{
    vstd::utf8::encode_utf8_decode_utf8(t);
}

/// Whether facets are laid out in order over a text from byte `cursor`
/// on: each starts at or after the previous one's end, ends no sooner than
/// it starts, and lies within the text on character boundaries.
pub open spec fn laid_out(bytes: Seq<u8>, fs: Seq<FacetView>, cursor: int) -> bool
    decreases fs.len(),
{
    &&& 0 <= cursor <= bytes.len()
    &&& is_char_boundary(bytes, cursor)
    &&& fs.len() > 0 ==> {
        let s = fs[0].index.byte_start as int;
        let e = fs[0].index.byte_end as int;
        &&& cursor <= s <= e <= bytes.len()
        &&& is_char_boundary(bytes, s)
        &&& is_char_boundary(bytes, e)
        &&& laid_out(bytes, fs.drop_first(), e)
    }
}

/// The bytes of a list of segments, one after the other.
pub open spec fn segment_bytes(segs: Seq<SegmentView>) -> Seq<u8>
    decreases segs.len(),
{
    if segs.len() == 0 {
        Seq::empty()
    } else {
        encode_utf8(segs[0].text) + segment_bytes(segs.drop_first())
    }
}

proof fn lemma_segment_bytes_concat(a: Seq<SegmentView>, b: Seq<SegmentView>)
    ensures
        segment_bytes(a + b) == segment_bytes(a) + segment_bytes(b),
    decreases a.len(),
{
    if a.len() == 0 {
        assert(a + b =~= b);
        assert(segment_bytes(a) + segment_bytes(b) =~= segment_bytes(b));
    } else {
        assert((a + b).drop_first() =~= a.drop_first() + b);
        lemma_segment_bytes_concat(a.drop_first(), b);
        assert(segment_bytes(a + b) =~= encode_utf8(a[0].text) + (segment_bytes(a.drop_first())
            + segment_bytes(b)));
    }
}

/// The text between two boundaries encodes back to the bytes between them.
proof fn lemma_text_between(bytes: Seq<u8>, a: int, b: int)
    requires
        valid_utf8(bytes),
        slice_ok(bytes, a, b),
    ensures
        encode_utf8(text_between(bytes, a, b)) == bytes.subrange(a, b),
{
    crate::text::lemma_boundary_suffix(bytes, a, b);
    let rest = bytes.subrange(a, bytes.len() as int);
    vstd::utf8::valid_utf8_split(rest, b - a);
    assert(rest.subrange(0, b - a) =~= bytes.subrange(a, b));
    vstd::utf8::decode_utf8_encode_utf8(bytes.subrange(a, b));
}

proof fn lemma_one_segment_bytes(t: Seq<char>, f: Option<FacetView>)
    ensures
        segment_bytes(seq![SegmentView { text: t, facet: f }]) == encode_utf8(t),
{
    let one = seq![SegmentView { text: t, facet: f }];
    assert(one.drop_first() =~= Seq::<SegmentView>::empty());
    assert(segment_bytes(one.drop_first()) == Seq::<u8>::empty());
    assert(segment_bytes(one) == encode_utf8(one[0].text) + segment_bytes(one.drop_first()));
    assert(encode_utf8(t) + Seq::<u8>::empty() =~= encode_utf8(t));
}

/// Facets laid out in order give segments whose bytes, one after the
/// other, are the text's bytes from the cursor on.
pub proof fn lemma_segments_cover(bytes: Seq<u8>, fs: Seq<FacetView>, cursor: int)
    requires
        valid_utf8(bytes),
        laid_out(bytes, fs, cursor),
    ensures
        segments_from(bytes, fs, cursor) is Some,
        segment_bytes(segments_from(bytes, fs, cursor)->Some_0) == bytes.subrange(
            cursor,
            bytes.len() as int,
        ),
    decreases fs.len(),
{
    vstd::utf8::is_char_boundary_start_end_of_seq(bytes);
    if fs.len() == 0 {
        if cursor < bytes.len() {
            lemma_text_between(bytes, cursor, bytes.len() as int);
            lemma_one_segment_bytes(text_between(bytes, cursor, bytes.len() as int), None);
        } else {
            assert(bytes.subrange(cursor, bytes.len() as int) =~= Seq::<u8>::empty());
        }
    } else {
        let f = fs[0];
        let st = f.index.byte_start as int;
        let e = f.index.byte_end as int;
        lemma_segments_cover(bytes, fs.drop_first(), e);
        let tail = segments_from(bytes, fs.drop_first(), e)->Some_0;
        let before: Seq<SegmentView> = if cursor < st {
            seq![plain_segment(text_between(bytes, cursor, st))]
        } else {
            Seq::empty()
        };
        let inner: Seq<SegmentView> = if st < e {
            let t = text_between(bytes, st, e);
            seq![SegmentView { text: t, facet: if is_blank(t) { None } else { Some(f) } }]
        } else {
            Seq::empty()
        };
        assert(segments_from(bytes, fs, cursor) == Some(before + inner + tail));
        lemma_segment_bytes_concat(before + inner, tail);
        lemma_segment_bytes_concat(before, inner);
        if cursor < st {
            lemma_text_between(bytes, cursor, st);
            lemma_one_segment_bytes(text_between(bytes, cursor, st), None);
            assert(segment_bytes(before) == bytes.subrange(cursor, st));
        } else {
            assert(segment_bytes(before) =~= bytes.subrange(cursor, st));
        }
        if st < e {
            let t = text_between(bytes, st, e);
            lemma_text_between(bytes, st, e);
            lemma_one_segment_bytes(t, if is_blank(t) { None } else { Some(f) });
            assert(segment_bytes(inner) == bytes.subrange(st, e));
        } else {
            assert(segment_bytes(inner) =~= bytes.subrange(st, e));
        }
        assert(bytes.subrange(cursor, st) + bytes.subrange(st, e) + bytes.subrange(e, bytes.len() as int)
            =~= bytes.subrange(cursor, bytes.len() as int));
    }
}

/// The facets that a list of segments carries, in order.
pub open spec fn segment_facets(segs: Seq<SegmentView>) -> Seq<FacetView>
    decreases segs.len(),
{
    if segs.len() == 0 {
        Seq::empty()
    } else {
        (match segs[0].facet {
            Some(f) => seq![f],
            None => Seq::<FacetView>::empty(),
        }) + segment_facets(segs.drop_first())
    }
}

/// The facets, in order, whose range holds some text that is not all
/// white space.
pub open spec fn nonblank_facets(bytes: Seq<u8>, fs: Seq<FacetView>) -> Seq<FacetView>
    decreases fs.len(),
{
    if fs.len() == 0 {
        Seq::empty()
    } else {
        let f = fs[0];
        let st = f.index.byte_start as int;
        let e = f.index.byte_end as int;
        (if st < e && !is_blank(text_between(bytes, st, e)) {
            seq![f]
        } else {
            Seq::<FacetView>::empty()
        }) + nonblank_facets(bytes, fs.drop_first())
    }
}

proof fn lemma_segment_facets_concat(a: Seq<SegmentView>, b: Seq<SegmentView>)
    ensures
        segment_facets(a + b) == segment_facets(a) + segment_facets(b),
    decreases a.len(),
{
    if a.len() == 0 {
        assert(a + b =~= b);
        assert(segment_facets(a) + segment_facets(b) =~= segment_facets(b));
    } else {
        assert((a + b).drop_first() =~= a.drop_first() + b);
        lemma_segment_facets_concat(a.drop_first(), b);
        let head: Seq<FacetView> = match a[0].facet {
            Some(f) => seq![f],
            None => Seq::empty(),
        };
        assert(segment_facets(a + b) =~= head + (segment_facets(a.drop_first()) + segment_facets(b)));
    }
}

proof fn lemma_one_segment_facets(t: Seq<char>, f: Option<FacetView>)
    ensures
        segment_facets(seq![SegmentView { text: t, facet: f }]) == match f {
            Some(x) => seq![x],
            None => Seq::<FacetView>::empty(),
        },
{
    let one = seq![SegmentView { text: t, facet: f }];
    assert(one.drop_first() =~= Seq::<SegmentView>::empty());
    assert(segment_facets(one.drop_first()) == Seq::<FacetView>::empty());
    let head: Seq<FacetView> = match f {
        Some(x) => seq![x],
        None => Seq::empty(),
    };
    assert(head + Seq::<FacetView>::empty() =~= head);
}

proof fn lemma_nonempty_between(bytes: Seq<u8>, a: int, b: int)
    requires
        valid_utf8(bytes),
        slice_ok(bytes, a, b),
        a < b,
    ensures
        text_between(bytes, a, b).len() > 0,
{
    lemma_text_between(bytes, a, b);
    if text_between(bytes, a, b).len() == 0 {
        assert(encode_utf8(text_between(bytes, a, b)) == Seq::<u8>::empty());
        assert(bytes.subrange(a, b).len() == b - a);
    }
}

/// Facets laid out in order give segments that each hold some text, and
/// that carry exactly the facets whose range is not all white space, in
/// order.
pub proof fn lemma_segments_carry_facets(bytes: Seq<u8>, fs: Seq<FacetView>, cursor: int)
    requires
        valid_utf8(bytes),
        laid_out(bytes, fs, cursor),
    ensures
        segments_from(bytes, fs, cursor) is Some,
        segment_facets(segments_from(bytes, fs, cursor)->Some_0) == nonblank_facets(bytes, fs),
        forall|i: int|
            0 <= i < segments_from(bytes, fs, cursor)->Some_0.len() ==> (#[trigger] segments_from(
                bytes,
                fs,
                cursor,
            )->Some_0[i]).text.len() > 0,
    decreases fs.len(),
{
    vstd::utf8::is_char_boundary_start_end_of_seq(bytes);
    lemma_segments_cover(bytes, fs, cursor);
    if fs.len() == 0 {
        if cursor < bytes.len() {
            let t = text_between(bytes, cursor, bytes.len() as int);
            lemma_nonempty_between(bytes, cursor, bytes.len() as int);
            lemma_one_segment_facets(t, None);
        } else {
            assert(segment_facets(Seq::<SegmentView>::empty()) == Seq::<FacetView>::empty());
        }
    } else {
        let f = fs[0];
        let st = f.index.byte_start as int;
        let e = f.index.byte_end as int;
        lemma_segments_carry_facets(bytes, fs.drop_first(), e);
        let tail = segments_from(bytes, fs.drop_first(), e)->Some_0;
        let before: Seq<SegmentView> = if cursor < st {
            seq![plain_segment(text_between(bytes, cursor, st))]
        } else {
            Seq::empty()
        };
        let inner: Seq<SegmentView> = if st < e {
            let t = text_between(bytes, st, e);
            seq![SegmentView { text: t, facet: if is_blank(t) { None } else { Some(f) } }]
        } else {
            Seq::empty()
        };
        let all = before + inner + tail;
        assert(segments_from(bytes, fs, cursor) == Some(all));
        lemma_segment_facets_concat(before + inner, tail);
        lemma_segment_facets_concat(before, inner);
        if cursor < st {
            lemma_nonempty_between(bytes, cursor, st);
            lemma_one_segment_facets(text_between(bytes, cursor, st), None);
        } else {
            assert(segment_facets(before) == Seq::<FacetView>::empty());
        }
        let head: Seq<FacetView> = if st < e && !is_blank(text_between(bytes, st, e)) {
            seq![f]
        } else {
            Seq::<FacetView>::empty()
        };
        if st < e {
            let t = text_between(bytes, st, e);
            lemma_nonempty_between(bytes, st, e);
            lemma_one_segment_facets(t, if is_blank(t) { None } else { Some(f) });
            assert(segment_facets(inner) == head);
        } else {
            assert(segment_facets(inner) == Seq::<FacetView>::empty());
            assert(segment_facets(inner) == head);
        }
        assert(segment_facets(all) =~= head + nonblank_facets(bytes, fs.drop_first()));
        assert forall|i: int| 0 <= i < all.len() implies (#[trigger] all[i]).text.len() > 0 by {
            if i < before.len() {
                assert(all[i] == before[i]);
            } else if i < before.len() + inner.len() {
                assert(all[i] == inner[i - before.len()]);
            } else {
                assert(all[i] == tail[i - before.len() - inner.len()]);
            }
        }
    }
}

/// The segments of a rich text whose facets are laid out in order carry
/// exactly its facets whose range is not all white space, in order, and
/// each holds some text (the text as a whole when it has no facets).
pub proof fn lemma_segments_of_rich_text(rt: RichTextView)
    requires
        rt.facets matches Some(fs) ==> laid_out(encode_utf8(rt.text), fs, 0),
    ensures
        spec_segments(rt) is Some,
        rt.facets matches Some(fs) ==> segment_facets(spec_segments(rt)->Some_0) == nonblank_facets(
            encode_utf8(rt.text),
            fs,
        ),
        rt.facets is None ==> spec_segments(rt)->Some_0 == seq![plain_segment(rt.text)],
        rt.facets is Some ==> forall|i: int|
            0 <= i < spec_segments(rt)->Some_0.len() ==> (#[trigger] spec_segments(rt)->Some_0[i]).text.len() > 0,
{
    if let Some(fs) = rt.facets {
        vstd::utf8::encode_utf8_valid_utf8(rt.text);
        lemma_segments_carry_facets(encode_utf8(rt.text), fs, 0);
    }
}

/// The segments of a rich text whose facets are laid out in order exist,
/// and their texts, one after the other, are the text.
pub proof fn lemma_segments_join(rt: RichTextView)
    requires
        rt.facets matches Some(fs) ==> laid_out(encode_utf8(rt.text), fs, 0),
    ensures
        spec_segments(rt) is Some,
        segment_bytes(spec_segments(rt)->Some_0) == encode_utf8(rt.text),
{
    match rt.facets {
        None => {
            lemma_one_segment_bytes(rt.text, None);
        },
        Some(fs) => {
            let bytes = encode_utf8(rt.text);
            vstd::utf8::encode_utf8_valid_utf8(rt.text);
            lemma_segments_cover(bytes, fs, 0);
            assert(bytes.subrange(0, bytes.len() as int) =~= bytes);
        },
    }
}

/// Decides `is_blank`.
fn blank(s: &String) -> (r: bool)
    ensures
        r == is_blank(s@),
{
    let cs = chars_of(s.as_str());
    let mut i: usize = 0;
    while i < cs.len()
        invariant
            cs@ == s@,
            i <= cs@.len(),
            forall|j: int| 0 <= j < i ==> is_white_space(#[trigger] cs@[j]),
        decreases cs.len() - i,
    {
        if !white_space(cs[i]) {
            assert(!is_white_space(s@[i as int]));
            return false;
        }
        i = i + 1;
    }
    true
}

proof fn lemma_segment_views_push(s: Seq<RichTextSegment>, x: RichTextSegment)
    ensures
        segment_views(s.push(x)) == segment_views(s).push(x@),
{
    assert(segment_views(s.push(x)) =~= segment_views(s).push(x@));
}

/// The number of extended grapheme clusters in a text, as the
/// `unicode-segmentation` crate counts them.
pub uninterp spec fn grapheme_count(s: Seq<char>) -> nat;

/// Counts the extended grapheme clusters of a text with
/// `UnicodeSegmentation::graphemes(s, true)`; the count is named
/// `grapheme_count`.
#[verifier::external_body]
fn count_graphemes(s: &str) -> (r: usize)
    ensures
        r == grapheme_count(s@),
{
    unicode_segmentation::UnicodeSegmentation::graphemes(s, true).count()
}

impl RichText {
    /// A rich text with the given text and facets.
    pub fn new(text: &str, facets: Option<Vec<Facet>>) -> (r: Self)
        ensures
            r.text@ == text@,
            r.facets == facets,
    {
        RichText { text: text.to_owned(), facets }
    }

    /// Whether the text is empty.
    pub fn is_empty(&self) -> (r: bool)
        ensures
            r == (self@.text.len() == 0),
    {
        self.text.as_str().is_empty()
    }

    /// The length of the text in bytes.
    pub fn len(&self) -> (r: usize)
        ensures
            r == encode_utf8(self@.text).len(),
    {
        byte_len(self.text.as_str())
    }

    /// The number of grapheme clusters of the text.
    pub fn grapheme_len(&self) -> (r: usize)
        ensures
            r == grapheme_count(self@.text),
    {
        count_graphemes(self.text.as_str())
    }

    /// Inserts a text at a byte offset, moving the facets after it and
    /// growing the facets it falls inside.
    pub fn insert(&mut self, index: usize, text: &str)
        requires
            is_char_boundary(encode_utf8(old(self)@.text), index as int),
            insert_fits(old(self)@.facets, index as int, encode_utf8(text@).len() as int),
        ensures
            encode_utf8(final(self)@.text) == encode_utf8(old(self)@.text).subrange(0, index as int)
                + encode_utf8(text@) + encode_utf8(old(self)@.text).subrange(
                index as int,
                encode_utf8(old(self)@.text).len() as int,
            ),
            final(self)@.facets == facets_after_insert(
                old(self)@.facets,
                index as int,
                encode_utf8(text@).len() as int,
            ),
    {
        let ghost old_text = self.text@;
        let (head, tail) = self.text.as_str().split_at(index);
        let mut joined = head.to_owned();
        joined.push_str(text);
        joined.push_str(tail);
        proof {
            lemma_encode_utf8_concat(head@, text@);
            lemma_encode_utf8_concat(head@ + text@, tail@);
        }
        self.text = joined;
        let n = byte_len(text);
        let facets = match self.facets.take() {
            None => {
                return;
            },
            Some(fs) => fs,
        };
        let ghost fv = facet_views(facets@);
        let mut out: Vec<Facet> = Vec::new();
        let mut i: usize = 0;
        while i < facets.len()
            invariant
                i <= facets@.len(),
                fv == facet_views(facets@),
                n == encode_utf8(text@).len(),
                forall|k: int| 0 <= k < fv.len() ==> insert_fits_facet(#[trigger] fv[k], index as int, n as int),
                facet_views(out@) == fv.take(i as int).map_values(
                    |f: FacetView| moved(f, inserted_range(f.index, index as int, n as int)),
                ),
            decreases facets.len() - i,
        {
            let f = &facets[i];
            assert(fv[i as int] == f@);
            let ghost r = inserted_range(fv[i as int].index, index as int, n as int);
            assert(insert_fits_facet(fv[i as int], index as int, n as int));
            let mut g = f.duplicate();
            if index <= f.index.byte_start {
                g.index = ByteSlice { byte_start: f.index.byte_start + n, byte_end: f.index.byte_end + n };
            } else if index >= f.index.byte_start && index < f.index.byte_end {
                g.index = ByteSlice { byte_start: f.index.byte_start, byte_end: f.index.byte_end + n };
            }
            proof {
                lemma_facet_views_push(out@, g);
                assert(fv.take(i + 1).map_values(
                    |f: FacetView| moved(f, inserted_range(f.index, index as int, n as int)),
                ) =~= fv.take(i as int).map_values(
                    |f: FacetView| moved(f, inserted_range(f.index, index as int, n as int)),
                ).push(g@));
            }
            out.push(g);
            i = i + 1;
        }
        assert(fv.take(i as int) =~= fv);
        self.facets = Some(out);
    }

    /// Deletes the bytes from `start_index` to `end_index`, moving and
    /// shrinking the facets, and dropping those left empty.
    pub fn delete(&mut self, start_index: usize, end_index: usize)
        requires
            start_index <= end_index,
            is_char_boundary(encode_utf8(old(self)@.text), start_index as int),
            is_char_boundary(encode_utf8(old(self)@.text), end_index as int),
            delete_fits(old(self)@.facets, start_index as int, end_index as int),
        ensures
            encode_utf8(final(self)@.text) == encode_utf8(old(self)@.text).subrange(
                0,
                start_index as int,
            ) + encode_utf8(old(self)@.text).subrange(
                end_index as int,
                encode_utf8(old(self)@.text).len() as int,
            ),
            final(self)@.facets == facets_after_delete(
                old(self)@.facets,
                start_index as int,
                end_index as int,
            ),
    {
        let (head, _) = self.text.as_str().split_at(start_index);
        let (_, tail) = self.text.as_str().split_at(end_index);
        let mut joined = head.to_owned();
        joined.push_str(tail);
        proof {
            lemma_encode_utf8_concat(head@, tail@);
        }
        self.text = joined;
        let facets = match self.facets.take() {
            None => {
                return;
            },
            Some(fs) => fs,
        };
        let ghost fv = facet_views(facets@);
        let ghost mv = fv.map_values(
            |f: FacetView| moved(f, deleted_range(f.index, start_index as int, end_index as int)),
        );
        let num_removed = end_index - start_index;
        let mut out: Vec<Facet> = Vec::new();
        let mut i: usize = 0;
        proof {
            reveal(Seq::filter);
        }
        assert(mv.take(0) =~= Seq::<FacetView>::empty());
        assert(facet_views(out@) =~= mv.take(0).filter(|f: FacetView| non_empty_facet(f)));
        while i < facets.len()
            invariant
                i <= facets@.len(),
                fv == facet_views(facets@),
                mv.len() == fv.len(),
                mv == fv.map_values(
                    |f: FacetView| moved(f, deleted_range(f.index, start_index as int, end_index as int)),
                ),
                num_removed == end_index - start_index,
                delete_fits(Some(fv), start_index as int, end_index as int),
                facet_views(out@) == mv.take(i as int).filter(|f: FacetView| non_empty_facet(f)),
            decreases facets.len() - i,
        {
            let f = &facets[i];
            assert(fv[i as int] == f@);
            let bs = f.index.byte_start;
            let be = f.index.byte_end;
            let (ns, ne) = if start_index <= bs && end_index >= be {
                (0usize, 0usize)
            } else if start_index > be {
                (bs, be)
            } else if start_index > bs && start_index <= be && end_index > be {
                (bs, start_index)
            } else if start_index >= bs && end_index <= be {
                (bs, be - num_removed)
            } else if start_index < bs && end_index >= bs && end_index <= be {
                (start_index, be - num_removed)
            } else if end_index < bs {
                (bs - num_removed, be - num_removed)
            } else {
                (bs, be)
            };
            assert(delete_fits_facet(fv[i as int], start_index as int, end_index as int));
            assert(mv[i as int] == moved(f@, deleted_range(f.index, start_index as int, end_index as int)));
            proof {
                assert(mv.take(i + 1) =~= mv.take(i as int).push(mv[i as int]));
                crate::text::lemma_filter_push(
                    mv.take(i as int),
                    mv[i as int],
                    |f: FacetView| non_empty_facet(f),
                );
            }
            if ns < ne {
                let mut g = f.duplicate();
                g.index = ByteSlice { byte_start: ns, byte_end: ne };
                proof {
                    lemma_facet_views_push(out@, g);
                    assert(g@ == mv[i as int]);
                }
                out.push(g);
            }
            i = i + 1;
        }
        assert(mv.take(i as int) =~= mv);
        self.facets = Some(out);
    }

    /// The segments of the text; see `spec_segments`.
    pub fn segments(&self) -> (r: Vec<RichTextSegment>)
        requires
            spec_segments(self@) is Some,
        ensures
            spec_segments(self@) == Some(segment_views(r@)),
    {
        let facets = match &self.facets {
            None => {
                let mut out: Vec<RichTextSegment> = Vec::new();
                out.push(RichTextSegment::new(self.text.as_str(), None));
                assert(segment_views(out@) =~= seq![plain_segment(self@.text)]);
                return out;
            },
            Some(fs) => fs,
        };
        let s = self.text.as_str();
        let ghost bytes = encode_utf8(self.text@);
        let ghost fv = facet_views(facets@);
        proof {
            vstd::utf8::encode_utf8_valid_utf8(self.text@);
        }
        let mut segments: Vec<RichTextSegment> = Vec::new();
        let mut text_cursor: usize = 0;
        let mut facet_cursor: usize = 0;
        assert(fv.skip(0) =~= fv);
        assert(segment_views(segments@) =~= Seq::<SegmentView>::empty());
        assert(Seq::<SegmentView>::empty() + segments_from(bytes, fv, 0)->Some_0 =~= segments_from(bytes, fv, 0)->Some_0);
        while facet_cursor < facets.len()
            invariant
                s@ == self.text@,
                bytes == encode_utf8(s@),
                valid_utf8(bytes),
                fv == facet_views(facets@),
                facet_cursor <= facets@.len(),
                segments_from(bytes, fv, 0) is Some,
                segments_from(bytes, fv, 0) == opt_prepend(
                    segment_views(segments@),
                    segments_from(bytes, fv.skip(facet_cursor as int), text_cursor as int),
                ),
            decreases facets.len() - facet_cursor,
        {
            let curr = &facets[facet_cursor];
            let ghost rest = fv.skip(facet_cursor as int);
            assert(rest[0] == curr@);
            assert(rest.drop_first() =~= fv.skip(facet_cursor + 1));
            let start = curr.index.byte_start;
            let end = curr.index.byte_end;
            if text_cursor > start {
                facet_cursor = facet_cursor + 1;
                continue;
            }
            let ghost before_views = segment_views(segments@);
            if text_cursor < start {
                let t = byte_slice(s, text_cursor, start);
                proof {
                    lemma_slice_text(bytes, text_cursor as int, start as int, t@);
                }
                let seg = RichTextSegment::new(t.as_str(), None);
                proof {
                    lemma_segment_views_push(segments@, seg);
                }
                segments.push(seg);
            }
            if start < end {
                let t = byte_slice(s, start, end);
                proof {
                    lemma_slice_text(bytes, start as int, end as int, t@);
                }
                let seg = if blank(&t) {
                    RichTextSegment::new(t.as_str(), None)
                } else {
                    RichTextSegment::new(t.as_str(), Some(curr.duplicate()))
                };
                proof {
                    lemma_segment_views_push(segments@, seg);
                }
                segments.push(seg);
            }
            proof {
                let tail = segments_from(bytes, fv.skip(facet_cursor + 1), end as int);
                assert(tail is Some);
                assert(before_views + (segment_views(segments@).subrange(
                    before_views.len() as int,
                    segment_views(segments@).len() as int,
                ) + tail->Some_0) =~= segment_views(segments@) + tail->Some_0);
            }
            text_cursor = end;
            facet_cursor = facet_cursor + 1;
        }
        let ghost done = segment_views(segments@);
        let n = byte_len(s);
        if text_cursor < n {
            proof {
                vstd::utf8::is_char_boundary_start_end_of_seq(bytes);
            }
            let t = byte_slice(s, text_cursor, n);
            proof {
                lemma_slice_text(bytes, text_cursor as int, bytes.len() as int, t@);
            }
            let seg = RichTextSegment::new(t.as_str(), None);
            proof {
                lemma_segment_views_push(segments@, seg);
            }
            segments.push(seg);
        } else {
            assert(done + Seq::<SegmentView>::empty() =~= done);
        }
        segments
    }
}

impl RichText {
    /// The handles that the mentions detected in the text name, in order:
    /// the first step of detecting facets, before the handles are resolved.
    pub fn mentions_to_resolve(&self) -> (r: Vec<String>)
        ensures
            string_views(r@) == facet_mentions(spec_detect_facets(self@.text)),
    {
        let detected = detect_facets(self.text.as_str());
        mention_handles(&detected)
    }

    /// Sets the facets to those detected in the text, with their mentions
    /// resolved, in order, to the given DIDs (those of the handles that
    /// `mentions_to_resolve` gives); no facets when none is detected.
    pub fn set_detected_facets(&mut self, dids: &Vec<String>)
        requires
            dids@.len() == facet_mentions(spec_detect_facets(old(self)@.text)).len(),
        ensures
            final(self).text == old(self).text,
            spec_detect_facets(old(self)@.text).len() == 0 ==> final(self).facets is None,
            spec_detect_facets(old(self)@.text).len() > 0 ==> (final(self).facets matches Some(fs)
                && facets_resolved(fs@, spec_detect_facets(old(self)@.text), string_views(dids@))),
    {
        let detected = detect_facets(self.text.as_str());
        if detected.len() == 0 {
            self.facets = None;
        } else {
            self.facets = Some(resolve_facets(&detected, dids));
        }
    }

    /// Sets the detected facets as `set_detected_facets` does when there is
    /// one DID for each mention `mentions_to_resolve` gives, and returns
    /// `true`; otherwise leaves the text unchanged and returns `false`.
    pub fn try_set_detected_facets(&mut self, dids: &Vec<String>) -> (r: bool)
        ensures
            r == (dids@.len() == facet_mentions(spec_detect_facets(old(self)@.text)).len()),
            final(self).text == old(self).text,
            !r ==> final(self).facets == old(self).facets,
            r && spec_detect_facets(old(self)@.text).len() == 0 ==> final(self).facets is None,
            r && spec_detect_facets(old(self)@.text).len() > 0 ==> (final(self).facets matches Some(fs)
                && facets_resolved(fs@, spec_detect_facets(old(self)@.text), string_views(dids@))),
    {
        let handles = self.mentions_to_resolve();
        if handles.len() != dids.len() {
            return false;
        }
        self.set_detected_facets(dids);
        true
    }
}

} // verus!
