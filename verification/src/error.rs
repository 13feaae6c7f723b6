//! The failures that an operation of the store reports.

use vstd::prelude::*;

verus! {

/// Why an operation was refused. A refused operation leaves the store as it
/// was.
#[derive(Debug, Clone, Copy, PartialEq, Eq, Structural)]
pub enum ServiceError {
    /// The anonymous identity asked for something that needs a caller.
    Unauthenticated,
    /// Someone other than the admin asked for what only the admin may do.
    Unauthorized,
    /// A user, post or comment that the request names does not exist.
    NotFound,
    /// The caller has a profile already, or the user name is taken.
    AlreadyExists,
    /// A user name of the wrong shape, or blank content.
    InvalidInput,
    /// A second like, an unlike without a like, a follow or tip of oneself,
    /// or a tip of nothing.
    Conflict,
    /// The sender's balance is below the amount.
    InsufficientBalance,
}

} // verus!
