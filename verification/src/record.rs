//! Records in a repository, named by AT URIs.
use vstd::prelude::*;
use crate::error::Error;
use crate::identity::{
    at_identifier_is_valid, is_valid_at_identifier, is_valid_nsid, is_valid_record_key,
    nsid_is_valid, record_key_is_valid,
};
use crate::text::{split_once, split_once_exec, starts_with, str_starts_with, string_of, chars_of};

verus! {

/// The parts of a record's AT URI.
#[derive(Debug, Clone, PartialEq, Eq)]
pub struct RecordUri {
    /// The repository: a DID or a handle.
    pub repo: String,
    /// The collection: an NSID.
    pub collection: String,
    /// The record key.
    pub rkey: String,
}

/// The parts of `at://<repo>/<collection>/<rkey>` (the record key may
/// hold further `/`), when each part is valid.
pub open spec fn spec_record_uri(uri: Seq<char>) -> Option<(Seq<char>, Seq<char>, Seq<char>)> {
    if !starts_with(uri, "at://"@) {
        None
    } else {
        match split_once(uri.skip(5), '/') {
            None => None,
            Some((repo, rest)) => match split_once(rest, '/') {
                None => None,
                Some((collection, rkey)) => if is_valid_at_identifier(repo) && is_valid_nsid(
                    collection,
                ) && is_valid_record_key(rkey) {
                    Some((repo, collection, rkey))
                } else {
                    None
                },
            },
        }
    }
}

/// Reads the parts of a record's AT URI; see `spec_record_uri`. Anything
/// else is `Error::InvalidAtUri`.
pub fn parse_record_uri(at_uri: &str) -> (r: Result<RecordUri, Error>)
    ensures
        match spec_record_uri(at_uri@) {
            Some((repo, collection, rkey)) => r matches Ok(u) && u.repo@ == repo && u.collection@
                == collection && u.rkey@ == rkey,
            None => r == Err::<RecordUri, Error>(Error::InvalidAtUri),
        },
{
    if !str_starts_with(at_uri, "at://") {
        return Err(Error::InvalidAtUri);
    }
    let cs = chars_of(at_uri);
    proof {
        reveal_strlit("at://");
    }
    let mut tail: Vec<char> = Vec::new();
    let mut i: usize = 5;
    while i < cs.len()
        invariant
            cs@ == at_uri@,
            5 <= i <= cs@.len(),
            tail@ == cs@.subrange(5, i as int),
        decreases cs.len() - i,
    {
        tail.push(cs[i]);
        i = i + 1;
        assert(tail@ =~= cs@.subrange(5, i as int));
    }
    assert(tail@ =~= at_uri@.skip(5));
    let rest = string_of(&tail);
    let (repo, rest) = match split_once_exec(rest.as_str(), '/') {
        Some(p) => p,
        None => {
            return Err(Error::InvalidAtUri);
        },
    };
    let (collection, rkey) = match split_once_exec(rest.as_str(), '/') {
        Some(p) => p,
        None => {
            return Err(Error::InvalidAtUri);
        },
    };
    if at_identifier_is_valid(repo.as_str()) && nsid_is_valid(collection.as_str())
        && record_key_is_valid(rkey.as_str()) {
        Ok(RecordUri { repo, collection, rkey })
    } else {
        Err(Error::InvalidAtUri)
    }
}

} // verus!
