//! Character and string helpers shared by the rest of the library.
use vstd::prelude::*;
use vstd::utf8::{decode_utf8, encode_scalar, encode_utf8, is_char_boundary, valid_utf8};

verus! {

/// `String::push` appends one character.
pub assume_specification[ String::push ](s: &mut String, ch: char)
    ensures
        final(s)@ == old(s)@.push(ch),
;

/// `String::push_str` appends a string slice.
pub assume_specification[ String::push_str ](s: &mut String, string: &str)
    ensures
        final(s)@ == old(s)@ + string@,
;

/// What `str::to_lowercase` gives for a whole text, under Unicode's
/// lowercase mapping (which is contextual for a final sigma).
pub uninterp spec fn lowercase(s: Seq<char>) -> Seq<char>;

/// Calls `str::to_lowercase`; its result is named `lowercase`.
#[verifier::external_body]
pub(crate) fn to_lowercase(s: &str) -> (r: String)
    ensures
        r@ == lowercase(s@),
{
    s.to_lowercase()
}

/// Whether the regex class `\p{P}` (Unicode general category
/// Punctuation) holds a character.
pub uninterp spec fn is_punctuation(c: char) -> bool;

/// Matches one character against the regex `\p{P}` with the `regex`
/// crate; the result is named `is_punctuation`.
#[verifier::external_body]
pub(crate) fn punctuation(c: char) -> (r: bool)
    ensures
        r == is_punctuation(c),
{
    let mut buf = [0u8; 4];
    regex::Regex::new(r"\p{P}").expect("valid pattern").is_match(c.encode_utf8(&mut buf))
}

/// The number of bytes that UTF-8 uses for a character.
pub open spec fn char_utf8_width(c: char) -> nat {
    let u = c as u32;
    if u < 0x80 {
        1
    } else if u < 0x800 {
        2
    } else if u < 0x10000 {
        3
    } else {
        4
    }
}

/// The number of bytes in the UTF-8 encoding of a text.
pub open spec fn utf8_len(s: Seq<char>) -> nat
    decreases s.len(),
{
    if s.len() == 0 {
        0
    } else {
        utf8_len(s.drop_last()) + char_utf8_width(s.last())
    }
}

/// The UTF-8 length of a text.
pub fn utf8_len_exec(s: &Vec<char>) -> (r: u128)
    ensures
        r == utf8_len(s@),
{
    let mut n: u128 = 0;
    let mut i: usize = 0;
    while i < s.len()
        invariant
            i <= s@.len(),
            n == utf8_len(s@.take(i as int)),
            n <= 4 * i,
        decreases s.len() - i,
    {
        let u = s[i] as u32;
        let w: u128 = if u < 0x80 {
            1
        } else if u < 0x800 {
            2
        } else if u < 0x10000 {
            3
        } else {
            4
        };
        assert(s@.take(i + 1).drop_last() =~= s@.take(i as int));
        n = n + w;
        i = i + 1;
    }
    assert(s@.take(i as int) =~= s@);
    n
}

/// A string holding the given characters.
pub fn string_of(v: &Vec<char>) -> (r: String)
    ensures
        r@ == v@,
{
    let mut r = String::new();
    let mut i: usize = 0;
    while i < v.len()
        invariant
            i <= v@.len(),
            r@ == v@.take(i as int),
        decreases v.len() - i,
    {
        r.push(v[i]);
        i = i + 1;
        assert(r@ =~= v@.take(i as int));
    }
    assert(v@.take(i as int) =~= v@);
    r
}

/// Whether `needle` occurs in `hay` as a contiguous run.
pub open spec fn is_substring(needle: Seq<char>, hay: Seq<char>) -> bool {
    exists|i: int|
        0 <= i && i + needle.len() <= hay.len() && #[trigger] hay.subrange(i, i + needle.len())
            == needle
}

/// Decides `is_substring`.
pub fn contains_chars(hay: &Vec<char>, needle: &Vec<char>) -> (r: bool)
    ensures
        r == is_substring(needle@, hay@),
{
    if needle.len() > hay.len() {
        return false;
    }
    let n = needle.len();
    let mut i: usize = 0;
    while i <= hay.len() - n
        invariant
            n == needle@.len(),
            n <= hay@.len(),
            i <= hay@.len() - n + 1,
            forall|j: int| 0 <= j < i ==> #[trigger] hay@.subrange(j, j + n) != needle@,
        decreases hay.len() - i,
    {
        let mut k: usize = 0;
        let mut same = true;
        while k < n
            invariant
                n == needle@.len(),
                i + n <= hay.len(),
                k <= n,
                same == forall|q: int| 0 <= q < k ==> hay@[i + q] == needle@[q],
            decreases n - k,
        {
            assert(i + k < hay@.len());
            if hay[i + k] != needle[k] {
                same = false;
            }
            k = k + 1;
        }
        if same {
            assert(hay@.subrange(i as int, i + n) =~= needle@);
            return true;
        }
        proof {
            let j = choose|q: int| 0 <= q < n && hay@[i + q] != needle@[q];
            assert(hay@.subrange(i as int, i + n)[j] != needle@[j]);
        }
        i = i + 1;
    }
    proof {
        assert forall|j: int| 0 <= j && j + n <= hay@.len() implies #[trigger] hay@.subrange(j, j + n)
            != needle@ by {
            assert(j < i);
        }
    }
    false
}

/// The pieces of a text between the characters that `sep` accepts; two
/// separators in a row give an empty piece, and a text always has at
/// least one piece.
pub open spec fn split_on(s: Seq<char>, sep: spec_fn(char) -> bool) -> Seq<Seq<char>>
    decreases s.len(),
{
    if s.len() == 0 {
        seq![Seq::empty()]
    } else {
        let r = split_on(s.drop_last(), sep);
        if sep(s.last()) {
            r.push(Seq::empty())
        } else {
            r.update(r.len() - 1, r.last().push(s.last()))
        }
    }
}

/// Splitting gives at least one piece.
pub proof fn lemma_split_on_nonempty(s: Seq<char>, sep: spec_fn(char) -> bool)
    ensures
        split_on(s, sep).len() >= 1,
    decreases s.len(),
{
    if s.len() > 0 {
        lemma_split_on_nonempty(s.drop_last(), sep);
    }
}

/// Splitting two texts joined by a separator gives the pieces of the
/// first, then those of the second.
pub proof fn lemma_split_on_joined(a: Seq<char>, c: char, b: Seq<char>, sep: spec_fn(char) -> bool)
    requires
        sep(c),
    ensures
        split_on(a + seq![c] + b, sep) == split_on(a, sep) + split_on(b, sep),
    decreases b.len(),
{
    let s = a + seq![c] + b;
    if b.len() == 0 {
        assert(s.drop_last() =~= a);
        assert(s.last() == c);
        assert(split_on(b, sep) == seq![Seq::<char>::empty()]);
        assert(split_on(a, sep).push(Seq::empty()) =~= split_on(a, sep) + split_on(b, sep));
    } else {
        lemma_split_on_joined(a, c, b.drop_last(), sep);
        lemma_split_on_nonempty(b.drop_last(), sep);
        assert(s.drop_last() =~= a + seq![c] + b.drop_last());
        assert(s.last() == b.last());
        let x = split_on(a, sep);
        let y = split_on(b.drop_last(), sep);
        if sep(b.last()) {
            assert((x + y).push(Seq::empty()) =~= x + y.push(Seq::empty()));
        } else {
            assert((x + y).update((x + y).len() - 1, (x + y).last().push(b.last())) =~= x + y.update(
                y.len() - 1,
                y.last().push(b.last()),
            ));
        }
    }
}

/// Each piece of a split text is no longer in UTF-8 than the text.
pub proof fn lemma_split_piece_utf8_len(s: Seq<char>, sep: spec_fn(char) -> bool, k: int)
    requires
        0 <= k < split_on(s, sep).len(),
    ensures
        utf8_len(split_on(s, sep)[k]) <= utf8_len(s),
    decreases s.len(),
{
    if s.len() > 0 {
        let r = split_on(s.drop_last(), sep);
        lemma_split_on_nonempty(s.drop_last(), sep);
        if sep(s.last()) {
            if k < r.len() {
                lemma_split_piece_utf8_len(s.drop_last(), sep, k);
            } else {
                assert(split_on(s, sep)[k] == Seq::<char>::empty());
            }
        } else {
            lemma_split_piece_utf8_len(s.drop_last(), sep, k);
            if k == r.len() - 1 {
                let p = r.last().push(s.last());
                assert(p.drop_last() =~= r.last());
                assert(utf8_len(p) == utf8_len(r.last()) + char_utf8_width(s.last()));
            }
        }
    }
}

/// Whether `k` is where a character first occurs in a text.
pub open spec fn is_first_of(s: Seq<char>, c: char, k: int) -> bool {
    0 <= k < s.len() && s[k] == c && forall|j: int| 0 <= j < k ==> s[j] != c
}

/// The text before and after the first occurrence of a character, if any.
pub open spec fn split_once(s: Seq<char>, c: char) -> Option<(Seq<char>, Seq<char>)> {
    if exists|k: int| is_first_of(s, c, k) {
        let k = choose|k: int| is_first_of(s, c, k);
        Some((s.take(k), s.skip(k + 1)))
    } else {
        None
    }
}

/// Decides `split_once`.
pub fn split_once_exec(s: &str, c: char) -> (r: Option<(String, String)>)
    ensures
        match r {
            Some((a, b)) => split_once(s@, c) == Some((a@, b@)),
            None => split_once(s@, c) is None,
        },
{
    let cs = chars_of(s);
    let mut k: usize = 0;
    while k < cs.len() && cs[k] != c
        invariant
            cs@ == s@,
            k <= cs@.len(),
            forall|j: int| 0 <= j < k ==> cs@[j] != c,
        decreases cs.len() - k,
    {
        k = k + 1;
    }
    if k == cs.len() {
        assert(!exists|q: int| is_first_of(s@, c, q));
        return None;
    }
    proof {
        assert(is_first_of(s@, c, k as int));
        let q = choose|q: int| is_first_of(s@, c, q);
        assert(q == k) by {
            if q < k {
                assert(cs@[q] != c);
            } else if q > k {
                assert(s@[k as int] != c);
            }
        }
    }
    let mut a: Vec<char> = Vec::new();
    let mut i: usize = 0;
    while i < k
        invariant
            cs@ == s@,
            k < cs@.len(),
            i <= k,
            a@ == cs@.take(i as int),
        decreases k - i,
    {
        a.push(cs[i]);
        i = i + 1;
        assert(a@ =~= cs@.take(i as int));
    }
    let mut b: Vec<char> = Vec::new();
    let mut j: usize = k + 1;
    while j < cs.len()
        invariant
            cs@ == s@,
            k < cs@.len(),
            k + 1 <= j <= cs@.len(),
            b@ == cs@.subrange(k + 1, j as int),
        decreases cs.len() - j,
    {
        b.push(cs[j]);
        j = j + 1;
        assert(b@ =~= cs@.subrange(k + 1, j as int));
    }
    assert(b@ =~= s@.skip(k + 1));
    Some((string_of(&a), string_of(&b)))
}

/// A text without its leading white space.
pub open spec fn strip_leading_white_space(s: Seq<char>) -> Seq<char>
    decreases s.len(),
{
    if s.len() > 0 && is_white_space(s[0]) {
        strip_leading_white_space(s.drop_first())
    } else {
        s
    }
}

/// A text without its trailing white space.
pub open spec fn strip_trailing_white_space(s: Seq<char>) -> Seq<char>
    decreases s.len(),
{
    if s.len() > 0 && is_white_space(s.last()) {
        strip_trailing_white_space(s.drop_last())
    } else {
        s
    }
}

/// A text without its leading and trailing white space, as `str::trim` gives it.
pub open spec fn trim_white_space(s: Seq<char>) -> Seq<char> {
    strip_trailing_white_space(strip_leading_white_space(s))
}

/// Decides `trim_white_space`.
pub fn trim_white_space_exec(s: &Vec<char>) -> (r: Vec<char>)
    ensures
        r@ == trim_white_space(s@),
{
    let mut a: usize = 0;
    assert(s@.skip(0) =~= s@);
    while a < s.len() && white_space(s[a])
        invariant
            a <= s@.len(),
            strip_leading_white_space(s@) == strip_leading_white_space(s@.skip(a as int)),
        decreases s.len() - a,
    {
        assert(s@.skip(a as int)[0] == s@[a as int]);
        assert(s@.skip(a as int).drop_first() =~= s@.skip(a + 1));
        a = a + 1;
    }
    if a < s.len() {
        assert(s@.skip(a as int)[0] == s@[a as int]);
    }
    let ghost lead = s@.skip(a as int);
    let mut b: usize = s.len();
    assert(lead.take(lead.len() as int) =~= lead);
    while b > a && white_space(s[b - 1])
        invariant
            a <= b <= s@.len(),
            lead == s@.skip(a as int),
            strip_trailing_white_space(lead) == strip_trailing_white_space(lead.take(b - a)),
        decreases b,
    {
        assert(lead.take(b - a).last() == s@[b - 1]);
        assert(lead.take(b - a).drop_last() =~= lead.take(b - 1 - a));
        b = b - 1;
    }
    if b > a {
        assert(lead.take(b - a).last() == s@[b - 1]);
    }
    let mut r: Vec<char> = Vec::new();
    let mut k: usize = a;
    while k < b
        invariant
            a <= k <= b <= s@.len(),
            r@ == s@.subrange(a as int, k as int),
        decreases b - k,
    {
        r.push(s[k]);
        k = k + 1;
        assert(r@ =~= s@.subrange(a as int, k as int));
    }
    assert(r@ =~= lead.take(b - a));
    r
}

/// Whether a text ends with a suffix.
pub open spec fn ends_with(s: Seq<char>, suffix: Seq<char>) -> bool {
    suffix.len() <= s.len() && s.subrange(s.len() - suffix.len(), s.len() as int) == suffix
}

/// Whether a text starts with a prefix.
pub open spec fn starts_with(s: Seq<char>, prefix: Seq<char>) -> bool {
    prefix.len() <= s.len() && s.subrange(0, prefix.len() as int) == prefix
}

/// Decides `ends_with`.
pub fn str_ends_with(s: &str, suffix: &str) -> (r: bool)
    ensures
        r == ends_with(s@, suffix@),
{
    let vs = chars_of(s);
    let vx = chars_of(suffix);
    if vx.len() > vs.len() {
        return false;
    }
    let off = vs.len() - vx.len();
    let mut i: usize = 0;
    while i < vx.len()
        invariant
            vs@ == s@,
            vx@ == suffix@,
            off + vx.len() == vs.len(),
            i <= vx@.len(),
            forall|j: int| 0 <= j < i ==> vs@[off + j] == vx@[j],
        decreases vx.len() - i,
    {
        if vs[off + i] != vx[i] {
            assert(s@.subrange(off as int, s@.len() as int)[i as int] != suffix@[i as int]);
            return false;
        }
        i = i + 1;
    }
    assert(s@.subrange(off as int, s@.len() as int) =~= suffix@);
    true
}

/// Decides `starts_with`.
pub fn str_starts_with(s: &str, prefix: &str) -> (r: bool)
    ensures
        r == starts_with(s@, prefix@),
{
    let vs = chars_of(s);
    let vx = chars_of(prefix);
    if vx.len() > vs.len() {
        return false;
    }
    let mut i: usize = 0;
    while i < vx.len()
        invariant
            vs@ == s@,
            vx@ == prefix@,
            vx@.len() <= vs@.len(),
            i <= vx@.len(),
            forall|j: int| 0 <= j < i ==> vs@[j] == vx@[j],
        decreases vx.len() - i,
    {
        if vs[i] != vx[i] {
            assert(s@.subrange(0, prefix@.len() as int)[i as int] != prefix@[i as int]);
            return false;
        }
        i = i + 1;
    }
    assert(s@.subrange(0, prefix@.len() as int) =~= prefix@);
    true
}

/// A text without its leading punctuation.
pub open spec fn strip_leading_punctuation(s: Seq<char>) -> Seq<char>
    decreases s.len(),
{
    if s.len() > 0 && is_punctuation(s[0]) {
        strip_leading_punctuation(s.drop_first())
    } else {
        s
    }
}

/// A text without its trailing punctuation.
pub open spec fn strip_trailing_punctuation(s: Seq<char>) -> Seq<char>
    decreases s.len(),
{
    if s.len() > 0 && is_punctuation(s.last()) {
        strip_trailing_punctuation(s.drop_last())
    } else {
        s
    }
}

/// A text without its leading and trailing punctuation.
pub open spec fn trim_punctuation(s: Seq<char>) -> Seq<char> {
    strip_trailing_punctuation(strip_leading_punctuation(s))
}

/// The text without its trailing punctuation.
pub fn strip_trailing_punctuation_exec(s: &Vec<char>) -> (r: Vec<char>)
    ensures
        r@ == strip_trailing_punctuation(s@),
{
    let mut b: usize = s.len();
    assert(s@.take(s@.len() as int) =~= s@);
    while b > 0 && punctuation(s[b - 1])
        invariant
            b <= s@.len(),
            strip_trailing_punctuation(s@) == strip_trailing_punctuation(s@.take(b as int)),
        decreases b,
    {
        assert(s@.take(b as int).last() == s@[b - 1]);
        assert(s@.take(b as int).drop_last() =~= s@.take(b - 1));
        b = b - 1;
    }
    if b > 0 {
        assert(s@.take(b as int).last() == s@[b - 1]);
    }
    let mut r: Vec<char> = Vec::new();
    let mut k: usize = 0;
    while k < b
        invariant
            k <= b <= s@.len(),
            r@ == s@.take(k as int),
        decreases b - k,
    {
        r.push(s[k]);
        k = k + 1;
        assert(r@ =~= s@.take(k as int));
    }
    r
}

/// The text without its leading and trailing punctuation.
pub fn trim_punctuation_exec(s: &Vec<char>) -> (r: Vec<char>)
    ensures
        r@ == trim_punctuation(s@),
{
    let mut a: usize = 0;
    assert(s@.skip(0) =~= s@);
    while a < s.len() && punctuation(s[a])
        invariant
            a <= s@.len(),
            strip_leading_punctuation(s@) == strip_leading_punctuation(s@.skip(a as int)),
        decreases s.len() - a,
    {
        assert(s@.skip(a as int)[0] == s@[a as int]);
        assert(s@.skip(a as int).drop_first() =~= s@.skip(a + 1));
        a = a + 1;
    }
    if a < s.len() {
        assert(s@.skip(a as int)[0] == s@[a as int]);
    }
    let mut lead: Vec<char> = Vec::new();
    let mut k: usize = a;
    while k < s.len()
        invariant
            a <= k <= s@.len(),
            lead@ == s@.subrange(a as int, k as int),
        decreases s.len() - k,
    {
        lead.push(s[k]);
        k = k + 1;
        assert(lead@ =~= s@.subrange(a as int, k as int));
    }
    assert(lead@ =~= s@.skip(a as int));
    strip_trailing_punctuation_exec(&lead)
}

/// The UTF-8 encoding of a concatenation is the concatenation of the encodings.
pub proof fn lemma_encode_utf8_concat(a: Seq<char>, b: Seq<char>)
    ensures
        encode_utf8(a + b) == encode_utf8(a) + encode_utf8(b),
    decreases a.len(),
{
    if a.len() == 0 {
        assert(a + b =~= b);
        assert(encode_utf8(a) =~= Seq::<u8>::empty());
        assert(encode_utf8(a) + encode_utf8(b) =~= encode_utf8(b));
    } else {
        assert((a + b).drop_first() =~= a.drop_first() + b);
        assert((a + b)[0] == a[0]);
        lemma_encode_utf8_concat(a.drop_first(), b);
        assert(encode_utf8(a + b) =~= encode_scalar(a[0] as u32) + (encode_utf8(a.drop_first())
            + encode_utf8(b)));
    }
}

/// A boundary of a valid text is a boundary of any prefix that reaches it.
pub proof fn lemma_boundary_prefix(bytes: Seq<u8>, a: int, b: int)
    requires
        valid_utf8(bytes),
        0 <= a <= b <= bytes.len(),
        is_char_boundary(bytes, a),
        is_char_boundary(bytes, b),
    ensures
        valid_utf8(bytes.subrange(0, b)),
        is_char_boundary(bytes.subrange(0, b), a),
{
    vstd::utf8::valid_utf8_split(bytes, b);
    let p = bytes.subrange(0, b);
    if a == b {
        vstd::utf8::is_char_boundary_start_end_of_seq(p);
    } else {
        vstd::utf8::is_char_boundary_iff_not_is_continuation_byte(bytes, a);
        vstd::utf8::is_char_boundary_iff_not_is_continuation_byte(p, a);
    }
}

/// A boundary of a valid text, past another boundary, is a boundary of
/// the suffix from the first.
pub proof fn lemma_boundary_suffix(bytes: Seq<u8>, a: int, b: int)
    requires
        valid_utf8(bytes),
        0 <= a <= b <= bytes.len(),
        is_char_boundary(bytes, a),
        is_char_boundary(bytes, b),
    ensures
        valid_utf8(bytes.subrange(a, bytes.len() as int)),
        is_char_boundary(bytes.subrange(a, bytes.len() as int), b - a),
{
    vstd::utf8::valid_utf8_split(bytes, a);
    let p = bytes.subrange(a, bytes.len() as int);
    if b == bytes.len() {
        vstd::utf8::is_char_boundary_start_end_of_seq(p);
    } else {
        vstd::utf8::is_char_boundary_iff_not_is_continuation_byte(bytes, b);
        vstd::utf8::is_char_boundary_iff_not_is_continuation_byte(p, b - a);
    }
}

/// The end of the first part of a concatenation is a boundary of its encoding.
pub proof fn lemma_boundary_at_concat(x: Seq<char>, y: Seq<char>)
    ensures
        valid_utf8(encode_utf8(x + y)),
        is_char_boundary(encode_utf8(x + y), encode_utf8(x).len() as int),
    decreases x.len(),
{
    vstd::utf8::encode_utf8_valid_utf8(x + y);
    lemma_encode_utf8_concat(x, y);
    if x.len() > 0 {
        let b = encode_utf8(x + y);
        vstd::utf8::encode_utf8_first_scalar(x + y);
        assert((x + y)[0] == x[0]);
        assert((x + y).drop_first() =~= x.drop_first() + y);
        assert(vstd::utf8::pop_first_scalar(b) =~= encode_utf8((x + y).drop_first()));
        lemma_boundary_at_concat(x.drop_first(), y);
    }
}

/// The text that a valid byte sequence's prefix up to a boundary encodes,
/// followed by the text of the rest, is the whole text.
pub proof fn lemma_split_text(text: Seq<char>, index: int)
    requires
        is_char_boundary(encode_utf8(text), index),
    ensures
        0 <= index <= encode_utf8(text).len(),
        encode_utf8(decode_utf8(encode_utf8(text).subrange(0, index))) == encode_utf8(text).subrange(
            0,
            index,
        ),
        encode_utf8(decode_utf8(encode_utf8(text).subrange(index, encode_utf8(text).len() as int)))
            == encode_utf8(text).subrange(index, encode_utf8(text).len() as int),
        text == decode_utf8(encode_utf8(text).subrange(0, index)) + decode_utf8(
            encode_utf8(text).subrange(index, encode_utf8(text).len() as int),
        ),
{
    let b = encode_utf8(text);
    vstd::utf8::encode_utf8_valid_utf8(text);
    if index == 0 {
    } else {
        reveal_with_fuel(is_char_boundary, 1);
    }
    assert(0 <= index <= b.len()) by {
        if index != 0 {
            assert(!(index < 0 || b.len() < index));
        }
    }
    vstd::utf8::valid_utf8_split(b, index);
    vstd::utf8::decode_utf8_encode_utf8(b.subrange(0, index));
    vstd::utf8::decode_utf8_encode_utf8(b.subrange(index, b.len() as int));
    vstd::utf8::decode_utf8_split(b, index);
    vstd::utf8::encode_utf8_decode_utf8(text);
}

/// The length of a string in bytes.
pub fn byte_len(s: &str) -> (r: usize)
    ensures
        r == encode_utf8(s@).len(),
{
    let b = s.as_bytes();
    b.len()
}

/// The text between two boundaries of a string, by bytes.
pub fn byte_slice(s: &str, a: usize, b: usize) -> (r: String)
    requires
        a <= b,
        is_char_boundary(encode_utf8(s@), a as int),
        is_char_boundary(encode_utf8(s@), b as int),
    ensures
        encode_utf8(r@) == encode_utf8(s@).subrange(a as int, b as int),
{
    proof {
        vstd::utf8::encode_utf8_valid_utf8(s@);
        lemma_boundary_prefix(encode_utf8(s@), a as int, b as int);
    }
    let (head, _) = s.split_at(b);
    let (_, mid) = head.split_at(a);
    assert(encode_utf8(mid@) =~= encode_utf8(s@).subrange(a as int, b as int));
    mid.to_owned()
}

/// Filtering a list with one more element.
pub proof fn lemma_filter_push<A>(s: Seq<A>, x: A, p: spec_fn(A) -> bool)
    ensures
        s.push(x).filter(p) == if p(x) {
            s.filter(p).push(x)
        } else {
            s.filter(p)
        },
{
    reveal(Seq::filter);
    assert(s.push(x).drop_last() =~= s);
}

/// The characters that Unicode gives the `White_Space` property
/// (the same set that `char::is_whitespace` and `\s` accept).
pub open spec fn is_white_space(c: char) -> bool {
    let u = c as u32;
    ||| (0x9 <= u && u <= 0xd)
    ||| u == 0x20
    ||| u == 0x85
    ||| u == 0xa0
    ||| u == 0x1680
    ||| (0x2000 <= u && u <= 0x200a)
    ||| u == 0x2028
    ||| u == 0x2029
    ||| u == 0x202f
    ||| u == 0x205f
    ||| u == 0x3000
}

/// Decides `is_white_space`.
pub fn white_space(c: char) -> (r: bool)
    ensures
        r == is_white_space(c),
{
    let u = c as u32;
    (0x9 <= u && u <= 0xd) || u == 0x20 || u == 0x85 || u == 0xa0 || u == 0x1680 || (0x2000 <= u
        && u <= 0x200a) || u == 0x2028 || u == 0x2029 || u == 0x202f || u == 0x205f || u == 0x3000
}

/// The characters of a string slice, in order.
pub fn chars_of(s: &str) -> (v: Vec<char>)
    ensures
        v@ == s@,
{
    let mut v: Vec<char> = Vec::new();
    for c in it: s.chars()
        invariant
            v@ == it.seq().take(it.index() as int),
            it.seq() == s@,
    {
        v.push(c);
    }
    v
}

/// Whether two character vectors hold the same characters.
pub fn chars_eq(va: &Vec<char>, vb: &Vec<char>) -> (r: bool)
    ensures
        r == (va@ == vb@),
{
    if va.len() != vb.len() {
        return false;
    }
    let mut i: usize = 0;
    while i < va.len()
        invariant
            va.len() == vb.len(),
            i <= va.len(),
            forall|j: int| 0 <= j < i ==> va@[j] == vb@[j],
        decreases va.len() - i,
    {
        if va[i] != vb[i] {
            return false;
        }
        i = i + 1;
    }
    assert(va@ =~= vb@);
    true
}

/// Whether two string slices hold the same characters.
pub fn str_eq(a: &str, b: &str) -> (r: bool)
    ensures
        r == (a@ == b@),
{
    let va = chars_of(a);
    let vb = chars_of(b);
    chars_eq(&va, &vb)
}

/// A copy of a string.
pub fn copy_string(s: &String) -> (r: String)
    ensures
        r == *s,
        r@ == s@,
{
    s.clone()
}

/// The views of a list of strings.
pub open spec fn string_views(s: Seq<String>) -> Seq<Seq<char>> {
    s.map_values(|t: String| t@)
}

pub proof fn lemma_string_views_push(s: Seq<String>, t: String)
    ensures
        string_views(s.push(t)) == string_views(s).push(t@),
{
    assert(string_views(s.push(t)) =~= string_views(s).push(t@));
}

/// Equality with a character, as a predicate.
pub open spec fn char_pred(c: char) -> spec_fn(char) -> bool {
    |x: char| x == c
}

/// The pieces of a text between the occurrences of a character, as
/// `str::split` gives them.
pub fn split_at_char(s: &str, c: char) -> (r: Vec<String>)
    ensures
        string_views(r@) == split_on(s@, char_pred(c)),
{
    let cs = chars_of(s);
    let mut pieces: Vec<String> = Vec::new();
    let mut cur = String::new();
    let mut i: usize = 0;
    assert(cs@.take(0) =~= Seq::<char>::empty());
    assert(string_views(pieces@).push(cur@) =~= split_on(cs@.take(0), char_pred(c)));
    while i < cs.len()
        invariant
            cs@ == s@,
            i <= cs@.len(),
            string_views(pieces@).push(cur@) == split_on(cs@.take(i as int), char_pred(c)),
        decreases cs.len() - i,
    {
        let x = cs[i];
        assert(cs@.take(i + 1).drop_last() =~= cs@.take(i as int));
        assert(cs@.take(i + 1).last() == x);
        if x == c {
            let done = cur;
            cur = String::new();
            proof {
                lemma_string_views_push(pieces@, done);
            }
            pieces.push(done);
            assert(string_views(pieces@).push(cur@) =~= split_on(cs@.take(i + 1), char_pred(c)));
        } else {
            let ghost old_cur = cur@;
            cur.push(x);
            assert(string_views(pieces@).push(cur@) =~= string_views(pieces@).push(old_cur).update(
                string_views(pieces@).len() as int,
                old_cur.push(x),
            ));
        }
        i = i + 1;
    }
    assert(cs@.take(i as int) =~= cs@);
    proof {
        lemma_string_views_push(pieces@, cur);
    }
    pieces.push(cur);
    pieces
}

/// Some texts joined, with a separator between each two of them.
pub open spec fn join(parts: Seq<Seq<char>>, sep: Seq<char>) -> Seq<char>
    decreases parts.len(),
{
    if parts.len() == 0 {
        Seq::empty()
    } else if parts.len() == 1 {
        parts[0]
    } else {
        join(parts.drop_last(), sep) + sep + parts.last()
    }
}

/// Decides `join`.
pub fn join_strings(parts: &Vec<String>, sep: &str) -> (r: String)
    ensures
        r@ == join(string_views(parts@), sep@),
{
    let mut out = String::new();
    let mut i: usize = 0;
    while i < parts.len()
        invariant
            i <= parts@.len(),
            out@ == join(string_views(parts@.take(i as int)), sep@),
        decreases parts.len() - i,
    {
        assert(string_views(parts@.take(i + 1)).drop_last() =~= string_views(parts@.take(i as int)));
        if i > 0 {
            out.push_str(sep);
        }
        out.push_str(parts[i].as_str());
        i = i + 1;
    }
    assert(parts@.take(i as int) =~= parts@);
    out
}

} // verus!
