//! Answering a call that was woken.

use crate::deferred::prepare::{DeferredKind, PipeTarget};
use crate::reply::ReplyStatus;
use vstd::prelude::*;

verus! {

/// Why a call was woken.
#[derive(Clone, Copy, Debug, PartialEq, Eq, Structural)]
pub enum WakeReason {
    /// What it waited on is ready.
    ResourceReady,
    /// Its time came.
    Deadline,
    /// It was cancelled.
    Cancelled,
    /// Its task is being taken apart.
    Revoked,
    /// What it waited on is gone.
    Closed,
}

/// How a woken call is answered.
#[derive(Clone, Copy, Debug, PartialEq, Eq, Structural)]
pub enum AnswerPlan {
    /// With a status alone.
    Status(ReplyStatus),
    /// With the datagram that came.
    Datagram,
    /// With the status of a child that ended.
    Child {
        /// Owner.
        owner: u64,
        /// Token.
        token: u64,
    },
    /// With bytes of a pipe.
    ReadPipe {
        /// Pipe.
        target: PipeTarget,
        /// Most bytes.
        maximum: usize,
    },
    /// After the write that waited.
    WritePipe {
        /// Pipe.
        target: PipeTarget,
        /// Bytes to write.
        byte_count: usize,
    },
    /// With input.
    TakeTerminal {
        /// Most bytes.
        maximum: usize,
    },
    /// Something is inconsistent: the application ends.
    Broken,
}

/// How a woken call is answered.
pub open spec fn answer_plan(kind: DeferredKind, reason: WakeReason) -> AnswerPlan {
    match reason {
        WakeReason::Cancelled | WakeReason::Revoked => AnswerPlan::Status(ReplyStatus::Cancelled),
        WakeReason::Closed => AnswerPlan::Status(ReplyStatus::Conflict),
        WakeReason::Deadline => match kind {
            DeferredKind::Timer { .. } => AnswerPlan::Status(ReplyStatus::Success),
            DeferredKind::Datagram { .. } => AnswerPlan::Status(ReplyStatus::Timeout),
            _ => AnswerPlan::Broken,
        },
        WakeReason::ResourceReady => match kind {
            DeferredKind::Timer { .. } | DeferredKind::Diagnostics => AnswerPlan::Broken,
            DeferredKind::Datagram { .. } => AnswerPlan::Datagram,
            DeferredKind::Child { owner, token } => AnswerPlan::Child { owner, token },
            DeferredKind::PipeRead { target, maximum } => AnswerPlan::ReadPipe { target, maximum },
            DeferredKind::PipeWrite { target, byte_count } => AnswerPlan::WritePipe {
                target,
                byte_count,
            },
            DeferredKind::TerminalRead { maximum } => AnswerPlan::TakeTerminal { maximum },
        },
    }
}

/// Decide how a woken call is answered.
pub fn deferred_reply(kind: DeferredKind, reason: WakeReason) -> (plan: AnswerPlan)
    ensures
        plan == answer_plan(kind, reason),
{
    match reason {
        WakeReason::Cancelled | WakeReason::Revoked => AnswerPlan::Status(ReplyStatus::Cancelled),
        WakeReason::Closed => AnswerPlan::Status(ReplyStatus::Conflict),
        WakeReason::Deadline => match kind {
            DeferredKind::Timer { .. } => AnswerPlan::Status(ReplyStatus::Success),
            DeferredKind::Datagram { .. } => AnswerPlan::Status(ReplyStatus::Timeout),
            _ => AnswerPlan::Broken,
        },
        WakeReason::ResourceReady => match kind {
            DeferredKind::Timer { .. } | DeferredKind::Diagnostics => AnswerPlan::Broken,
            DeferredKind::Datagram { .. } => AnswerPlan::Datagram,
            DeferredKind::Child { owner, token } => AnswerPlan::Child { owner, token },
            DeferredKind::PipeRead { target, maximum } => AnswerPlan::ReadPipe { target, maximum },
            DeferredKind::PipeWrite { target, byte_count } => AnswerPlan::WritePipe {
                target,
                byte_count,
            },
            DeferredKind::TerminalRead { maximum } => AnswerPlan::TakeTerminal { maximum },
        },
    }
}

/// What was found behind an answer plan.
#[derive(Debug)]
pub enum Found {
    /// Nothing could be had.
    Failed,
    /// A child that still runs.
    Running,
    /// Bytes for the reply.
    Reply(Vec<u8>),
    /// This many bytes were written.
    Written(usize),
}

/// A reply of the diagnostics server.
#[derive(Debug)]
pub struct ServerReply {
    /// Status.
    pub status: ReplyStatus,
    /// Bytes.
    pub payload: Vec<u8>,
}

/// The answer of a woken call.
#[derive(Debug)]
pub enum Reply {
    /// A status alone.
    Status(ReplyStatus),
    /// Success with bytes.
    Bytes(Vec<u8>),
    /// What the diagnostics server replied.
    Served(ServerReply),
    /// Something is inconsistent: the application ends.
    Broken,
}

/// The answer that follows from what was found.
pub open spec fn reply_of(plan: AnswerPlan, found: Found) -> Reply {
    match plan {
        AnswerPlan::Status(status) => Reply::Status(status),
        AnswerPlan::Broken => Reply::Broken,
        AnswerPlan::WritePipe { byte_count, .. } => match found {
            Found::Written(count) if count == byte_count => Reply::Status(ReplyStatus::Success),
            _ => Reply::Broken,
        },
        _ => match found {
            Found::Reply(bytes) => Reply::Bytes(bytes),
            _ => Reply::Broken,
        },
    }
}

/// Make the answer that follows from what was found.
pub fn finish_reply(plan: AnswerPlan, found: Found) -> (reply: Reply)
    ensures
        reply == reply_of(plan, found),
{
    match plan {
        AnswerPlan::Status(status) => Reply::Status(status),
        AnswerPlan::Broken => Reply::Broken,
        AnswerPlan::WritePipe { byte_count, .. } => match found {
            Found::Written(count) => if count == byte_count {
                Reply::Status(ReplyStatus::Success)
            } else {
                Reply::Broken
            },
            _ => Reply::Broken,
        },
        _ => match found {
            Found::Reply(bytes) => Reply::Bytes(bytes),
            _ => Reply::Broken,
        },
    }
}

/// Whether the request kept for a waiting write is still the write that
/// waited. A write to an owner's pipe names its token again; `decoded` is the
/// token and the number of bytes that the request holds, `kept_bytes` the
/// length of the whole request.
pub open spec fn write_kept(
    target: PipeTarget,
    byte_count: usize,
    decoded: Option<(u64, usize)>,
    kept_bytes: usize,
) -> bool {
    match target {
        PipeTarget::Owned { token, .. } => decoded == Some((token, byte_count)),
        PipeTarget::Stream { .. } => kept_bytes == byte_count,
    }
}

/// Check that the request kept for a waiting write is still the write that
/// waited.
pub fn write_is_kept(
    target: PipeTarget,
    byte_count: usize,
    decoded: Option<(u64, usize)>,
    kept_bytes: usize,
) -> (kept: bool)
    ensures
        kept == write_kept(target, byte_count, decoded, kept_bytes),
{
    match target {
        PipeTarget::Owned { token, .. } => match decoded {
            Some((found, count)) => found == token && count == byte_count,
            None => false,
        },
        PipeTarget::Stream { .. } => kept_bytes == byte_count,
    }
}

/// What remains of an answer for a caller with room for `capacity` bytes.
pub open spec fn fitted(reply: Reply, capacity: usize) -> Reply {
    match reply {
        Reply::Bytes(bytes) if bytes@.len() > capacity => Reply::Broken,
        Reply::Served(served) if served.payload@.len() > capacity => Reply::Broken,
        _ => reply,
    }
}

/// Hold an answer to the room that its caller has.
pub fn fit_reply(reply: Reply, capacity: usize) -> (fit: Reply)
    ensures
        fit == fitted(reply, capacity),
{
    let too_long = match &reply {
        Reply::Bytes(bytes) => bytes.len() > capacity,
        Reply::Served(served) => served.payload.len() > capacity,
        _ => false,
    };
    if too_long {
        Reply::Broken
    } else {
        reply
    }
}

/// Only an answer that fits its cause is given: a call that is cancelled or
/// whose peer is gone never reports success.
pub proof fn no_success_without_cause(kind: DeferredKind, reason: WakeReason)
    ensures
        answer_plan(kind, reason) == AnswerPlan::Status(ReplyStatus::Success) ==> kind is Timer
            && reason == WakeReason::Deadline,
        reason != WakeReason::ResourceReady && reason != WakeReason::Deadline ==> (answer_plan(
            kind,
            reason,
        ) matches AnswerPlan::Status(status) && status != ReplyStatus::Success),
{
}

/// How the wait of a diagnostics call ends.
#[derive(Clone, Copy, Debug, PartialEq, Eq, Structural)]
pub enum DiagnosticsWake {
    /// Wake what waits on the call; exactly one wait must end.
    WakeWaiter,
    /// Cancel the call's operation.
    CancelOperation,
    /// Something is inconsistent: the application ends.
    Broken,
}

/// Decide how the wait of a diagnostics call ends.
pub fn diagnostics_wake(reason: WakeReason) -> (wake: DiagnosticsWake)
    ensures
        wake == (match reason {
            WakeReason::ResourceReady | WakeReason::Closed => DiagnosticsWake::WakeWaiter,
            WakeReason::Revoked => DiagnosticsWake::CancelOperation,
            WakeReason::Deadline | WakeReason::Cancelled => DiagnosticsWake::Broken,
        }),
{
    match reason {
        WakeReason::ResourceReady | WakeReason::Closed => DiagnosticsWake::WakeWaiter,
        WakeReason::Revoked => DiagnosticsWake::CancelOperation,
        WakeReason::Deadline | WakeReason::Cancelled => DiagnosticsWake::Broken,
    }
}

/// The answer of a diagnostics call that was woken for a reason, where the
/// server left `server` behind.
pub open spec fn diagnostics_answer(reason: WakeReason, server: Option<ServerReply>) -> Reply {
    match reason {
        WakeReason::ResourceReady => match server {
            Some(reply) => Reply::Served(reply),
            None => Reply::Broken,
        },
        WakeReason::Closed => Reply::Status(ReplyStatus::Conflict),
        WakeReason::Revoked => Reply::Status(ReplyStatus::Cancelled),
        WakeReason::Deadline | WakeReason::Cancelled => Reply::Broken,
    }
}

/// Make the answer of a diagnostics call.
pub fn answer_diagnostics(reason: WakeReason, server: Option<ServerReply>) -> (answer: Reply)
    ensures
        answer == diagnostics_answer(reason, server),
{
    match reason {
        WakeReason::ResourceReady => match server {
            Some(reply) => Reply::Served(reply),
            None => Reply::Broken,
        },
        WakeReason::Closed => Reply::Status(ReplyStatus::Conflict),
        WakeReason::Revoked => Reply::Status(ReplyStatus::Cancelled),
        WakeReason::Deadline | WakeReason::Cancelled => Reply::Broken,
    }
}

/// What is done for a call that wakes is what it waited for: a read of its pipe
/// or terminal with its maximum, a write of its bytes, a look at its child or a
/// datagram. What only waits for a time is done when the time is up.
pub proof fn woken_calls_do_what_they_waited_for(kind: DeferredKind)
    ensures
        (kind matches DeferredKind::PipeRead { target, maximum } ==> answer_plan(
            kind,
            WakeReason::ResourceReady,
        ) == (AnswerPlan::ReadPipe { target, maximum })),
        (kind matches DeferredKind::PipeWrite { target, byte_count } ==> answer_plan(
            kind,
            WakeReason::ResourceReady,
        ) == (AnswerPlan::WritePipe { target, byte_count })),
        (kind matches DeferredKind::TerminalRead { maximum } ==> answer_plan(
            kind,
            WakeReason::ResourceReady,
        ) == (AnswerPlan::TakeTerminal { maximum })),
        (kind matches DeferredKind::Child { owner, token } ==> answer_plan(
            kind,
            WakeReason::ResourceReady,
        ) == (AnswerPlan::Child { owner, token })),
        kind is Datagram ==> answer_plan(kind, WakeReason::ResourceReady) == AnswerPlan::Datagram,
        kind is Timer ==> answer_plan(kind, WakeReason::Deadline) == AnswerPlan::Status(
            ReplyStatus::Success,
        ),
        kind is Datagram ==> answer_plan(kind, WakeReason::Deadline) == AnswerPlan::Status(
            ReplyStatus::Timeout,
        ),
        kind is Timer || kind is Diagnostics ==> answer_plan(kind, WakeReason::ResourceReady)
            == AnswerPlan::Broken,
        !(kind is Timer) && !(kind is Datagram) ==> answer_plan(kind, WakeReason::Deadline)
            == AnswerPlan::Broken,
        answer_plan(kind, WakeReason::Cancelled) == AnswerPlan::Status(ReplyStatus::Cancelled),
        answer_plan(kind, WakeReason::Revoked) == AnswerPlan::Status(ReplyStatus::Cancelled),
        answer_plan(kind, WakeReason::Closed) == AnswerPlan::Status(ReplyStatus::Conflict),
{
}

/// The bytes that were found are the reply, and a write of all bytes is a
/// success; a status that was decided is the reply whatever was found. Nothing
/// found, and a write of fewer bytes, break the call.
pub proof fn replies_hold_what_was_found(plan: AnswerPlan, found: Found, status: ReplyStatus)
    ensures
        reply_of(AnswerPlan::Status(status), found) == Reply::Status(status),
        reply_of(AnswerPlan::Broken, found) == Reply::Broken,
        (plan matches AnswerPlan::WritePipe { byte_count, .. } ==> {
            &&& reply_of(plan, Found::Written(byte_count)) == Reply::Status(ReplyStatus::Success)
            &&& (found matches Found::Written(count) ==> count != byte_count ==> reply_of(
                plan,
                found,
            ) == Reply::Broken)
        }),
        plan is Datagram || plan is Child || plan is ReadPipe || plan is TakeTerminal ==> {
            &&& (found matches Found::Reply(bytes) ==> reply_of(plan, found) == Reply::Bytes(bytes))
            &&& !(found is Reply) ==> reply_of(plan, found) == Reply::Broken
        },
{
}

/// The bytes of a waiting write are unchanged exactly where its request still
/// decodes to its pipe and its number of bytes; those of a stream are as many
/// as were to be written.
pub proof fn kept_writes_are_unchanged(
    owner: u64,
    token: u64,
    byte_count: usize,
    decoded: Option<(u64, usize)>,
    kept_bytes: usize,
)
    ensures
        write_kept(PipeTarget::Owned { owner, token }, byte_count, decoded, kept_bytes) <==> (
        decoded matches Some(d) && d.0 == token && d.1 == byte_count),
        write_kept(PipeTarget::Stream { token }, byte_count, decoded, kept_bytes) <==> kept_bytes
            == byte_count,
{
}

/// A reply is handed on unchanged where its bytes fit, and breaks the call where
/// they do not.
pub proof fn replies_fit_their_buffer(reply: Reply, capacity: usize, status: ReplyStatus)
    ensures
        (reply matches Reply::Bytes(bytes) ==> fitted(reply, capacity) == if bytes@.len()
            <= capacity {
            reply
        } else {
            Reply::Broken
        }),
        (reply matches Reply::Served(served) ==> fitted(reply, capacity)
            == if served.payload@.len() <= capacity {
            reply
        } else {
            Reply::Broken
        }),
        fitted(Reply::Status(status), capacity) == Reply::Status(status),
        fitted(Reply::Broken, capacity) == Reply::Broken,
{
}

/// The server's reply is the answer to a call for diagnostics that it served;
/// one that was closed conflicts and one that was revoked is cancelled.
pub proof fn diagnostics_are_answered_by_the_server(server: Option<ServerReply>)
    ensures
        (server matches Some(reply) ==> diagnostics_answer(WakeReason::ResourceReady, server)
            == Reply::Served(reply)),
        diagnostics_answer(WakeReason::ResourceReady, None) == Reply::Broken,
        diagnostics_answer(WakeReason::Closed, server) == Reply::Status(ReplyStatus::Conflict),
        diagnostics_answer(WakeReason::Revoked, server) == Reply::Status(ReplyStatus::Cancelled),
        diagnostics_answer(WakeReason::Deadline, server) == Reply::Broken,
        diagnostics_answer(WakeReason::Cancelled, server) == Reply::Broken,
{
}

} // verus!
