//! From a registered wait to the resumed application.

use crate::deferred::answer::{
    answer_diagnostics, diagnostics_answer, diagnostics_wake, fit_reply, fitted, DiagnosticsWake,
    Reply, ServerReply, WakeReason,
};
use crate::deferred::prepare::DeferredKind;
use crate::reply::ReplyStatus;
use vstd::prelude::*;

verus! {

/// Why a call was woken, and what the diagnostics server left for it.
#[derive(Debug)]
pub struct Woken {
    /// Reason.
    pub reason: WakeReason,
    /// Reply of the diagnostics server.
    pub server: Option<ServerReply>,
}

/// What is done next for a blocked call.
#[derive(Debug)]
pub enum ResumeAction {
    /// Register its wait.
    Register,
    /// Mark it as ready for this reason.
    MarkReady(WakeReason),
    /// Bind it to its wait.
    Bind,
    /// Park it.
    Park,
    /// Block its task.
    BlockTask,
    /// Let the diagnostics server run.
    ServeDiagnostics,
    /// Wait until its wait ends.
    Wait,
    /// Wake what waits on the call: exactly one wait must end.
    WakeWaiter(Woken),
    /// Cancel its operation.
    CancelOperation(Woken),
    /// Resolve it.
    Resolve(Woken),
    /// Wake its task.
    WakeTask(Woken),
    /// Let its task run.
    Dispatch(Woken),
    /// Take it out of its parking place.
    Take(Woken),
    /// Find the answer for this reason.
    Answer(WakeReason),
    /// Finish it; this is its reply.
    Finish(Reply),
    /// Resume the application with this reply.
    Resume(Reply),
    /// Something is inconsistent: the application ends.
    Broken,
}

/// What happened.
#[derive(Debug)]
pub enum ResumeEvent {
    /// The wait is over before it began.
    Ready(WakeReason),
    /// The wait is registered.
    Blocked,
    /// What was to be done is done.
    Done,
    /// The diagnostics server ran.
    Served(Woken),
    /// The wait ended.
    Waited(WakeReason),
    /// The parked call was taken; this is what it is.
    Taken(DeferredKind),
    /// The answer was found.
    Answered(Reply),
    /// What was to be done failed.
    Failed,
}

/// A blocked call on its way back to its application.
#[derive(Debug)]
pub struct ResumeRun {
    /// What the call is.
    pub kind: DeferredKind,
    /// Whether there is a snapshot for the diagnostics server.
    pub snapshot: bool,
    /// Room for its reply.
    pub capacity: usize,
    /// What is being done.
    pub doing: ResumeAction,
}

/// Whether an event answers what is being done.
pub open spec fn expected(doing: ResumeAction, event: ResumeEvent) -> bool {
    match doing {
        ResumeAction::Resume(_) | ResumeAction::Broken => false,
        _ => match event {
            ResumeEvent::Failed => true,
            ResumeEvent::Ready(_) | ResumeEvent::Blocked => doing is Register,
            ResumeEvent::Served(_) => doing is ServeDiagnostics,
            ResumeEvent::Waited(_) => doing is Wait,
            ResumeEvent::Taken(_) => doing is Take,
            ResumeEvent::Answered(_) => doing is Answer,
            ResumeEvent::Done => match doing {
                ResumeAction::Register
                | ResumeAction::ServeDiagnostics
                | ResumeAction::Wait
                | ResumeAction::Take(_)
                | ResumeAction::Answer(_) => false,
                _ => true,
            },
        },
    }
}

/// What follows a step without a result of its own.
pub open spec fn after_done(kind: DeferredKind, doing: ResumeAction) -> ResumeAction {
    match doing {
        ResumeAction::MarkReady(reason) => ResumeAction::Answer(reason),
        ResumeAction::Bind => ResumeAction::Park,
        ResumeAction::Park => ResumeAction::BlockTask,
        ResumeAction::BlockTask => if kind is Diagnostics {
            ResumeAction::ServeDiagnostics
        } else {
            ResumeAction::Wait
        },
        ResumeAction::WakeWaiter(woken) => ResumeAction::Resolve(woken),
        ResumeAction::CancelOperation(woken) => ResumeAction::Resolve(woken),
        ResumeAction::Resolve(woken) => ResumeAction::WakeTask(woken),
        ResumeAction::WakeTask(woken) => ResumeAction::Dispatch(woken),
        ResumeAction::Dispatch(woken) => ResumeAction::Take(woken),
        ResumeAction::Finish(reply) => ResumeAction::Resume(reply),
        _ => ResumeAction::Broken,
    }
}

/// What follows the diagnostics server.
pub open spec fn after_service(woken: Woken) -> ResumeAction {
    match woken.reason {
        WakeReason::ResourceReady | WakeReason::Closed => ResumeAction::WakeWaiter(woken),
        WakeReason::Revoked => ResumeAction::CancelOperation(woken),
        WakeReason::Deadline | WakeReason::Cancelled => ResumeAction::Broken,
    }
}

/// What follows an answer for a caller with room for `capacity` bytes.
pub open spec fn after_answer(reply: Reply, capacity: usize) -> ResumeAction {
    match fitted(reply, capacity) {
        Reply::Broken => ResumeAction::Broken,
        fit => ResumeAction::Finish(fit),
    }
}

fn finish_with(reply: Reply, capacity: usize) -> (action: ResumeAction)
    ensures
        action == after_answer(reply, capacity),
{
    match fit_reply(reply, capacity) {
        Reply::Broken => ResumeAction::Broken,
        fit => ResumeAction::Finish(fit),
    }
}

fn step_on(kind: DeferredKind, doing: ResumeAction) -> (action: ResumeAction)
    ensures
        action == after_done(kind, doing),
{
    match doing {
        ResumeAction::MarkReady(reason) => ResumeAction::Answer(reason),
        ResumeAction::Bind => ResumeAction::Park,
        ResumeAction::Park => ResumeAction::BlockTask,
        ResumeAction::BlockTask => match kind {
            DeferredKind::Diagnostics => ResumeAction::ServeDiagnostics,
            _ => ResumeAction::Wait,
        },
        ResumeAction::WakeWaiter(woken) => ResumeAction::Resolve(woken),
        ResumeAction::CancelOperation(woken) => ResumeAction::Resolve(woken),
        ResumeAction::Resolve(woken) => ResumeAction::WakeTask(woken),
        ResumeAction::WakeTask(woken) => ResumeAction::Dispatch(woken),
        ResumeAction::Dispatch(woken) => ResumeAction::Take(woken),
        ResumeAction::Finish(reply) => ResumeAction::Resume(reply),
        _ => ResumeAction::Broken,
    }
}

fn is_diagnostics(kind: &DeferredKind) -> (diagnostics: bool)
    ensures
        diagnostics == (*kind is Diagnostics),
{
    match kind {
        DeferredKind::Diagnostics => true,
        _ => false,
    }
}

impl ResumeRun {
    /// Start with a call that is to wait.
    pub fn start(kind: DeferredKind, snapshot: bool, capacity: usize) -> (run: Self)
        ensures
            run == (ResumeRun { kind, snapshot, capacity, doing: ResumeAction::Register }),
    {
        ResumeRun { kind, snapshot, capacity, doing: ResumeAction::Register }
    }

    /// What follows an event. A diagnostics call is answered by its server, and
    /// only where what was parked is a diagnostics call.
    pub open spec fn next(self, event: ResumeEvent) -> ResumeAction {
        match event {
            ResumeEvent::Failed => ResumeAction::Broken,
            ResumeEvent::Ready(reason) => ResumeAction::MarkReady(reason),
            ResumeEvent::Blocked => if self.kind is Diagnostics && !self.snapshot {
                ResumeAction::Broken
            } else {
                ResumeAction::Bind
            },
            ResumeEvent::Served(woken) => after_service(woken),
            ResumeEvent::Waited(reason) => ResumeAction::Resolve(Woken { reason, server: None }),
            ResumeEvent::Taken(kind) => match self.doing {
                ResumeAction::Take(woken) => if !(self.kind is Diagnostics) {
                    ResumeAction::Answer(woken.reason)
                } else if kind is Diagnostics {
                    after_answer(diagnostics_answer(woken.reason, woken.server), self.capacity)
                } else {
                    ResumeAction::Broken
                },
                _ => ResumeAction::Broken,
            },
            ResumeEvent::Answered(reply) => after_answer(reply, self.capacity),
            ResumeEvent::Done => after_done(self.kind, self.doing),
        }
    }

    /// Take an event and go on to what follows.
    pub fn observe(self, event: ResumeEvent) -> (run: Self)
        requires
            expected(self.doing, event),
        ensures
            run == (ResumeRun { doing: self.next(event), ..self }),
    {
        let ResumeRun { kind, snapshot, capacity, doing } = self;
        let doing = match event {
            ResumeEvent::Failed => ResumeAction::Broken,
            ResumeEvent::Ready(reason) => ResumeAction::MarkReady(reason),
            ResumeEvent::Blocked => if is_diagnostics(&kind) && !snapshot {
                ResumeAction::Broken
            } else {
                ResumeAction::Bind
            },
            ResumeEvent::Served(woken) => match diagnostics_wake(woken.reason) {
                DiagnosticsWake::WakeWaiter => ResumeAction::WakeWaiter(woken),
                DiagnosticsWake::CancelOperation => ResumeAction::CancelOperation(woken),
                DiagnosticsWake::Broken => ResumeAction::Broken,
            },
            ResumeEvent::Waited(reason) => ResumeAction::Resolve(Woken { reason, server: None }),
            ResumeEvent::Taken(taken) => match doing {
                ResumeAction::Take(woken) => if !is_diagnostics(&kind) {
                    ResumeAction::Answer(woken.reason)
                } else if is_diagnostics(&taken) {
                    finish_with(answer_diagnostics(woken.reason, woken.server), capacity)
                } else {
                    ResumeAction::Broken
                },
                _ => ResumeAction::Broken,
            },
            ResumeEvent::Answered(reply) => finish_with(reply, capacity),
            ResumeEvent::Done => step_on(kind, doing),
        };
        ResumeRun { kind, snapshot, capacity, doing }
    }
}

/// How many steps may still follow.
pub open spec fn steps_left(doing: ResumeAction) -> nat {
    match doing {
        ResumeAction::Register => 13,
        ResumeAction::Bind => 12,
        ResumeAction::Park => 11,
        ResumeAction::BlockTask => 10,
        ResumeAction::ServeDiagnostics | ResumeAction::Wait => 9,
        ResumeAction::WakeWaiter(_) | ResumeAction::CancelOperation(_) => 8,
        ResumeAction::Resolve(_) => 7,
        ResumeAction::WakeTask(_) => 6,
        ResumeAction::Dispatch(_) => 5,
        ResumeAction::Take(_) | ResumeAction::MarkReady(_) => 4,
        ResumeAction::Answer(_) => 3,
        ResumeAction::Finish(_) => 2,
        ResumeAction::Resume(_) | ResumeAction::Broken => 0,
    }
}

/// A blocked call comes to an end: each event leaves fewer steps.
pub proof fn resuming_comes_to_an_end(run: ResumeRun, event: ResumeEvent)
    requires
        expected(run.doing, event),
    ensures
        steps_left(run.next(event)) < steps_left(run.doing),
{
}

/// An application is resumed only right after its call is finished, and the
/// finished reply is neither broken nor longer than its caller has room for.
pub proof fn resumed_calls_are_finished(run: ResumeRun, event: ResumeEvent)
    requires
        expected(run.doing, event),
    ensures
        run.next(event) matches ResumeAction::Resume(reply) ==> run.doing
            == ResumeAction::Finish(reply),
        run.next(event) matches ResumeAction::Finish(reply) ==> !(reply is Broken) && fitted(
            reply,
            run.capacity,
        ) == reply,
{
}

/// A blocked call is bound, parked and its task blocked before it waits, and
/// whatever wakes it is resolved, its task woken and dispatched before the call
/// is taken up again; the reason of its waking is kept on the way. A call that
/// is ready at once skips all of that.
pub proof fn calls_are_parked_and_woken_in_order(run: ResumeRun, woken: Woken, reason: WakeReason)
    ensures
        !(run.kind is Diagnostics) ==> run.next(ResumeEvent::Blocked) == ResumeAction::Bind,
        run.kind is Diagnostics ==> run.next(ResumeEvent::Blocked) == if run.snapshot {
            ResumeAction::Bind
        } else {
            ResumeAction::Broken
        },
        run.doing is Bind ==> run.next(ResumeEvent::Done) == ResumeAction::Park,
        run.doing is Park ==> run.next(ResumeEvent::Done) == ResumeAction::BlockTask,
        run.doing is BlockTask ==> run.next(ResumeEvent::Done) == if run.kind is Diagnostics {
            ResumeAction::ServeDiagnostics
        } else {
            ResumeAction::Wait
        },
        (run.next(ResumeEvent::Waited(reason)) matches ResumeAction::Resolve(w) && w.reason
            == reason && w.server is None),
        run.doing == ResumeAction::WakeWaiter(woken) ==> run.next(ResumeEvent::Done)
            == ResumeAction::Resolve(woken),
        run.doing == ResumeAction::CancelOperation(woken) ==> run.next(ResumeEvent::Done)
            == ResumeAction::Resolve(woken),
        run.doing == ResumeAction::Resolve(woken) ==> run.next(ResumeEvent::Done)
            == ResumeAction::WakeTask(woken),
        run.doing == ResumeAction::WakeTask(woken) ==> run.next(ResumeEvent::Done)
            == ResumeAction::Dispatch(woken),
        run.doing == ResumeAction::Dispatch(woken) ==> run.next(ResumeEvent::Done)
            == ResumeAction::Take(woken),
        run.next(ResumeEvent::Ready(reason)) == ResumeAction::MarkReady(reason),
        run.doing == ResumeAction::MarkReady(reason) ==> run.next(ResumeEvent::Done)
            == ResumeAction::Answer(reason),
        run.next(ResumeEvent::Failed) == ResumeAction::Broken,
{
}

/// A call that was taken up is answered for the reason that it woke, one for
/// diagnostics with what its server left; and the reply that it is finished with
/// is the one that the application resumes with, provided that it fits.
pub proof fn replies_reach_the_application(
    run: ResumeRun,
    kind: DeferredKind,
    woken: Woken,
    reply: Reply,
    status: ReplyStatus,
)
    ensures
        run.doing == ResumeAction::Take(woken) && !(run.kind is Diagnostics) ==> run.next(
            ResumeEvent::Taken(kind),
        ) == ResumeAction::Answer(woken.reason),
        run.doing == ResumeAction::Take(woken) && run.kind is Diagnostics && !(kind is Diagnostics)
            ==> run.next(ResumeEvent::Taken(kind)) == ResumeAction::Broken,
        run.doing == ResumeAction::Take(woken) && run.kind is Diagnostics && kind is Diagnostics
            && woken.reason == WakeReason::ResourceReady ==> (woken.server matches Some(served)
            ==> served.payload@.len() <= run.capacity ==> run.next(ResumeEvent::Taken(kind))
            == ResumeAction::Finish(Reply::Served(served))),
        (reply matches Reply::Bytes(bytes) ==> run.next(ResumeEvent::Answered(reply))
            == if bytes@.len() <= run.capacity {
            ResumeAction::Finish(reply)
        } else {
            ResumeAction::Broken
        }),
        run.next(ResumeEvent::Answered(Reply::Status(status))) == ResumeAction::Finish(
            Reply::Status(status),
        ),
        run.next(ResumeEvent::Answered(Reply::Broken)) == ResumeAction::Broken,
        run.doing == ResumeAction::Finish(reply) ==> run.next(ResumeEvent::Done)
            == ResumeAction::Resume(reply),
{
}

/// A server that finished or closed wakes its caller; one that was revoked has
/// its operation cancelled; it ends for no other reason.
pub proof fn served_calls_are_woken(run: ResumeRun, woken: Woken)
    ensures
        run.next(ResumeEvent::Served(woken)) == match woken.reason {
            WakeReason::ResourceReady => ResumeAction::WakeWaiter(woken),
            WakeReason::Closed => ResumeAction::WakeWaiter(woken),
            WakeReason::Revoked => ResumeAction::CancelOperation(woken),
            WakeReason::Deadline => ResumeAction::Broken,
            WakeReason::Cancelled => ResumeAction::Broken,
        },
{
}

} // verus!
