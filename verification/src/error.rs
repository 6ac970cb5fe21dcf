//! Errors of the library's own operations.
use vstd::prelude::*;

verus! {

/// What can go wrong in the library's own operations. (Errors of the
/// network and of configuration files belong to the code that does that
/// I/O.)
#[derive(Debug, Clone, Copy, PartialEq, Eq, Structural)]
pub enum Error {
    /// An AT URI that does not name a record.
    InvalidAtUri,
    /// An operation that needs a session was tried without one.
    NotLoggedIn,
    /// A moderation error.
    Moderation(crate::moderation::types::Error),
}

} // verus!
