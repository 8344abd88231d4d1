//! Reply statuses of service calls.

use vstd::prelude::*;

verus! {

/// Outcome that a service call reports to its caller.
#[derive(Clone, Copy, Debug, PartialEq, Eq, Structural)]
pub enum ReplyStatus {
    /// The call did what was asked.
    Success,
    /// The service failed.
    Failure,
    /// The request is malformed or not allowed here.
    InvalidRequest,
    /// The named thing does not exist.
    NotFound,
    /// The request collides with current state.
    Conflict,
    /// A bounded resource ran out.
    Exhausted,
    /// A number in the request cannot be represented.
    Overflow,
    /// A policy limit forbids the request.
    ResourceLimit,
    /// A payload does not fit.
    TooLarge,
    /// Time ran out.
    Timeout,
    /// The caller or the system gave the call up.
    Cancelled,
    /// The other side is gone.
    Closed,
    /// The other side died while the call was in progress.
    PeerDied,
    /// The call could never complete.
    Deadlock,
    /// Authority is missing.
    Denied,
    /// Stored data is damaged.
    Corrupt,
    /// The network answered out of protocol.
    NetworkProtocol,
    /// The network is not configured.
    NotConfigured,
}

} // verus!
