//! The safe categories in which Jira and local operations fail.
use vstd::prelude::*;

verus! {

/// A failure category. It carries no message, so it can be shown or logged
/// without leaking server detail.
#[derive(Clone, Copy, Debug, PartialEq, Eq, Hash, Structural)]
pub enum ErrorKind {
    Authentication,
    Authorization,
    RateLimited,
    Offline,
    Cancelled,
    InvalidInput,
    NotFound,
    Upstream,
    Storage,
    Notification,
    Internal,
    UnknownOutcome,
}

} // verus!
