//! A verified core for a small social-network backend.
//!
//! Four services, each owning one in-memory keyed store: user profiles,
//! posts, a mirrored follower/following graph, and per-post interactions
//! (like sets and ordered comment lists). Post creation is gated on an
//! existence check against the user store; the outcome of that remote
//! check is handed in by the caller, so the decision logic here is
//! verified for every possible outcome.

pub mod graph;
pub mod ids;
pub mod interaction;
pub mod post;
pub mod set;
pub mod store;
pub mod user;

use vstd::prelude::*;

verus! {

/// Why an operation was rejected. Every failure is per-call: it is
/// reported to the caller and leaves the owning store unchanged.
#[derive(Debug, PartialEq, Eq)]
pub enum SocialError {
    /// Registration rejected: another profile already has the username.
    UsernameTaken,
    /// Profile update rejected: no profile is stored under the id.
    NotFound,
    /// Post creation rejected: the author is not a registered user.
    UserNotFound,
    /// Post creation rejected: the existence check itself failed;
    /// carries the upstream failure detail.
    UpstreamUnavailable(String),
    /// Post creation rejected: a post with the minted id already exists
    /// (two creations for the same author at the same instant).
    DuplicatePostId,
}

/// A copy of an optional string.
pub(crate) fn clone_opt(o: &Option<String>) -> (r: Option<String>)
    ensures
        r == *o,
{
    match o {
        Some(s) => Some(s.clone()),
        None => None,
    }
}

} // verus!
