//! AT Protocol identifiers.
use vstd::prelude::*;
use crate::text::{split_on, starts_with, utf8_len};

verus! {

/// A character that may stand in a DID's method: a lowercase ASCII letter.
pub open spec fn is_did_method_char(c: char) -> bool {
    'a' <= c && c <= 'z'
}

/// A character that may stand in a DID's method-specific identifier.
pub open spec fn is_did_id_char(c: char) -> bool {
    ||| ('a' <= c && c <= 'z')
    ||| ('A' <= c && c <= 'Z')
    ||| ('0' <= c && c <= '9')
    ||| c == '.'
    ||| c == '_'
    ||| c == ':'
    ||| c == '%'
    ||| c == '-'
}

/// Whether a text is a DID: at most 2048 bytes, matching
/// `^did:[a-z]+:[a-zA-Z0-9._:%-]*[a-zA-Z0-9._-]$`.
pub open spec fn is_valid_did(s: Seq<char>) -> bool {
    &&& utf8_len(s) <= 2048
    &&& starts_with(s, "did:"@)
    &&& exists|k: int|
        4 < k < s.len() - 1 && s[k] == ':' && (forall|j: int|
            4 <= j < k ==> is_did_method_char(#[trigger] s[j])) && (forall|j: int|
            k < j < s.len() ==> is_did_id_char(#[trigger] s[j])) && is_did_id_char(s.last())
            && s.last() != ':' && s.last() != '%'
}

/// Checks a text with `atrium_api::types::string::Did::new`, which accepts
/// exactly the texts that `is_valid_did` describes.
#[verifier::external_body]
pub(crate) fn did_is_valid(s: &str) -> (r: bool)
    ensures
        r == is_valid_did(s@),
{
    atrium_api::types::string::Did::new(s.to_string()).is_ok()
}

/// An ASCII letter.
pub open spec fn is_ascii_letter(c: char) -> bool {
    ('a' <= c && c <= 'z') || ('A' <= c && c <= 'Z')
}

/// An ASCII letter or digit.
pub open spec fn is_ascii_alnum(c: char) -> bool {
    is_ascii_letter(c) || ('0' <= c && c <= '9')
}

/// A domain label: 1 to 63 ASCII letters, digits and `-`, starting and
/// ending with a letter or digit.
pub open spec fn is_domain_label(l: Seq<char>) -> bool {
    &&& 1 <= l.len() <= 63
    &&& is_ascii_alnum(l[0])
    &&& is_ascii_alnum(l.last())
    &&& forall|i: int| 0 <= i < l.len() ==> (is_ascii_alnum(#[trigger] l[i]) || l[i] == '-')
}

/// Dots, as a predicate.
pub open spec fn dot_pred() -> spec_fn(char) -> bool {
    |c: char| c == '.'
}

/// Whether a text is a handle: at most 253 bytes, at least two domain
/// labels separated by dots, the last starting with a letter (the pattern
/// `^([a-zA-Z0-9]([a-zA-Z0-9-]{0,61}[a-zA-Z0-9])?\.)+[a-zA-Z]([a-zA-Z0-9-]{0,61}[a-zA-Z0-9])?$`).
pub open spec fn is_valid_handle(s: Seq<char>) -> bool {
    let labels = split_on(s, dot_pred());
    &&& utf8_len(s) <= 253
    &&& labels.len() >= 2
    &&& forall|i: int| 0 <= i < labels.len() ==> is_domain_label(#[trigger] labels[i])
    &&& is_ascii_letter(labels.last()[0])
}

/// Checks a text with `atrium_api::types::string::Handle::new`, which
/// accepts exactly the texts that `is_valid_handle` describes.
#[verifier::external_body]
pub(crate) fn handle_is_valid(s: &str) -> (r: bool)
    ensures
        r == is_valid_handle(s@),
{
    atrium_api::types::string::Handle::new(s.to_string()).is_ok()
}

/// Whether a text is an NSID: at most 317 bytes, at least three labels
/// separated by dots; the first a domain label starting with a letter, the
/// middle ones domain labels, the last a letter followed by up to 62
/// letters and digits.
pub open spec fn is_valid_nsid(s: Seq<char>) -> bool {
    let labels = split_on(s, dot_pred());
    &&& utf8_len(s) <= 317
    &&& labels.len() >= 3
    &&& is_ascii_letter(labels[0][0])
    &&& forall|i: int| 0 <= i < labels.len() - 1 ==> is_domain_label(#[trigger] labels[i])
    &&& {
        let last = labels.last();
        &&& 1 <= last.len() <= 63
        &&& is_ascii_letter(last[0])
        &&& forall|i: int| 0 <= i < last.len() ==> is_ascii_alnum(#[trigger] last[i])
    }
}

/// Checks a text with `atrium_api::types::string::Nsid::new`, which
/// accepts exactly the texts that `is_valid_nsid` describes.
#[verifier::external_body]
pub(crate) fn nsid_is_valid(s: &str) -> (r: bool)
    ensures
        r == is_valid_nsid(s@),
{
    atrium_api::types::string::Nsid::new(s.to_string()).is_ok()
}

/// A character that may stand in a record key.
pub open spec fn is_record_key_char(c: char) -> bool {
    is_ascii_alnum(c) || c == '.' || c == '-' || c == '_' || c == ':' || c == '~'
}

/// Whether a text is a record key: not `.` or `..`, 1 to 512 characters
/// among ASCII letters, digits and `.-_:~`.
pub open spec fn is_valid_record_key(s: Seq<char>) -> bool {
    &&& s != "."@
    &&& s != ".."@
    &&& 1 <= s.len() <= 512
    &&& forall|i: int| 0 <= i < s.len() ==> is_record_key_char(#[trigger] s[i])
}

/// Checks a text with `atrium_api::types::string::RecordKey::new`, which
/// accepts exactly the texts that `is_valid_record_key` describes.
#[verifier::external_body]
pub(crate) fn record_key_is_valid(s: &str) -> (r: bool)
    ensures
        r == is_valid_record_key(s@),
{
    atrium_api::types::string::RecordKey::new(s.to_string()).is_ok()
}

/// Whether a text identifies an account: a DID or a handle.
pub open spec fn is_valid_at_identifier(s: Seq<char>) -> bool {
    is_valid_did(s) || is_valid_handle(s)
}

/// Decides `is_valid_at_identifier`, as `AtIdentifier::from_str` does:
/// a DID if the text is one, else a handle.
pub fn at_identifier_is_valid(s: &str) -> (r: bool)
    ensures
        r == is_valid_at_identifier(s@),
{
    did_is_valid(s) || handle_is_valid(s)
}

} // verus!
