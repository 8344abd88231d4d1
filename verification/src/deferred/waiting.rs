//! Waiting for a parked call.

use crate::deferred::prepare::DeferredKind;
use vstd::prelude::*;

verus! {

/// Longest idle slice in milliseconds.
pub const IDLE_SLICE_MILLISECONDS: u32 = 50;

/// What the wait does next.
#[derive(Clone, Copy, Debug, PartialEq, Eq, Structural)]
pub enum WaitAction {
    /// Look whether the call still waits, and on the same wait as before.
    Look,
    /// Ask the session whether to go on, and for the time.
    Check,
    /// Cancel the operation.
    CancelOperation,
    /// Look for a datagram.
    Receive,
    /// Wake what waits on the port.
    WakePort,
    /// Expire waits whose time has come.
    Expire,
    /// Idle for this many milliseconds.
    Idle(u32),
    /// The wait has ended.
    Complete,
    /// Something is inconsistent: the application ends.
    Broken,
}

/// What happened.
#[derive(Clone, Copy, Debug, PartialEq, Eq, Structural)]
pub enum WaitEvent {
    /// The call was looked at.
    Looked {
        /// Whether it still waits on the same wait.
        waiting: bool,
    },
    /// The session was asked.
    Checked {
        /// Whether the user interrupted.
        interrupted: bool,
        /// The time.
        now: u64,
    },
    /// A datagram was looked for.
    Received {
        /// Whether one came.
        arrived: bool,
    },
    /// Something was to end the wait.
    Ended {
        /// Whether it did.
        completed: bool,
    },
    /// The machine idled.
    Idled,
    /// What was asked for failed.
    Failed,
}

/// The wait of one call.
#[derive(Clone, Copy, Debug, PartialEq, Eq, Structural)]
pub struct CallWait {
    /// What the call is.
    pub kind: DeferredKind,
    /// Last known time.
    pub now: u64,
    /// What is being done.
    pub doing: WaitAction,
}

/// The time that a call waits for, where it waits for one.
pub open spec fn deadline_of(kind: DeferredKind) -> Option<u64> {
    match kind {
        DeferredKind::Timer { deadline } => Some(deadline),
        DeferredKind::Datagram { deadline, .. } => Some(deadline),
        _ => None,
    }
}

/// How long to idle before a time, in slices.
pub open spec fn slice(deadline: u64, now: u64) -> int {
    if deadline - now < IDLE_SLICE_MILLISECONDS {
        deadline - now
    } else {
        IDLE_SLICE_MILLISECONDS as int
    }
}

/// What is done when nothing has come by `now`.
pub open spec fn idle_or_expire(deadline: u64, now: u64) -> WaitAction {
    if now >= deadline {
        WaitAction::Expire
    } else {
        WaitAction::Idle(slice(deadline, now) as u32)
    }
}

fn choose_idle(deadline: u64, now: u64) -> (action: WaitAction)
    ensures
        action == idle_or_expire(deadline, now),
{
    if now >= deadline {
        return WaitAction::Expire;
    }
    let remaining: u64 = deadline - now;
    if remaining < IDLE_SLICE_MILLISECONDS as u64 {
        WaitAction::Idle(remaining as u32)
    } else {
        WaitAction::Idle(IDLE_SLICE_MILLISECONDS)
    }
}

impl CallWait {
    /// Start waiting.
    pub fn start(kind: DeferredKind) -> (wait: Self)
        ensures
            wait == (CallWait { kind, now: 0, doing: WaitAction::Look }),
    {
        CallWait { kind, now: 0, doing: WaitAction::Look }
    }

    /// Whether an event answers what is being done.
    pub open spec fn expects(self, event: WaitEvent) -> bool {
        match self.doing {
            WaitAction::Look => event is Looked || event is Failed,
            WaitAction::Check => event is Checked || event is Failed,
            WaitAction::Receive => event is Received || event is Failed,
            WaitAction::CancelOperation | WaitAction::WakePort | WaitAction::Expire => event
                is Ended || event is Failed,
            WaitAction::Idle(_) => event is Idled || event is Failed,
            WaitAction::Complete | WaitAction::Broken => false,
        }
    }

    /// What follows an event.
    pub open spec fn next(self, event: WaitEvent) -> WaitAction {
        match event {
            WaitEvent::Failed => WaitAction::Broken,
            WaitEvent::Looked { waiting } => if waiting {
                WaitAction::Check
            } else {
                WaitAction::Broken
            },
            WaitEvent::Checked { interrupted, now } => if interrupted {
                WaitAction::CancelOperation
            } else {
                match self.kind {
                    DeferredKind::Timer { deadline } => idle_or_expire(deadline, now),
                    DeferredKind::Datagram { .. } => WaitAction::Receive,
                    _ => WaitAction::Broken,
                }
            },
            WaitEvent::Received { arrived } => match self.kind {
                DeferredKind::Datagram { deadline, .. } => if arrived {
                    WaitAction::WakePort
                } else {
                    idle_or_expire(deadline, self.now)
                },
                _ => WaitAction::Broken,
            },
            WaitEvent::Ended { completed } => if completed {
                WaitAction::Complete
            } else if self.doing == WaitAction::Expire {
                WaitAction::Look
            } else {
                WaitAction::Broken
            },
            WaitEvent::Idled => WaitAction::Look,
        }
    }

    /// Take an event and decide what follows.
    pub fn observe(&mut self, event: WaitEvent) -> (action: WaitAction)
        requires
            old(self).expects(event),
        ensures
            action == old(self).next(event),
            *final(self) == (CallWait {
                kind: old(self).kind,
                now: if event is Checked {
                    event->now
                } else {
                    old(self).now
                },
                doing: action,
            }),
    {
        let action = match event {
            WaitEvent::Failed => WaitAction::Broken,
            WaitEvent::Looked { waiting } => if waiting {
                WaitAction::Check
            } else {
                WaitAction::Broken
            },
            WaitEvent::Checked { interrupted, now } => {
                self.now = now;
                if interrupted {
                    WaitAction::CancelOperation
                } else {
                    match self.kind {
                        DeferredKind::Timer { deadline } => choose_idle(deadline, now),
                        DeferredKind::Datagram { .. } => WaitAction::Receive,
                        _ => WaitAction::Broken,
                    }
                }
            },
            WaitEvent::Received { arrived } => match self.kind {
                DeferredKind::Datagram { deadline, .. } => if arrived {
                    WaitAction::WakePort
                } else {
                    choose_idle(deadline, self.now)
                },
                _ => WaitAction::Broken,
            },
            WaitEvent::Ended { completed } => if completed {
                WaitAction::Complete
            } else {
                match self.doing {
                    WaitAction::Expire => WaitAction::Look,
                    _ => WaitAction::Broken,
                }
            },
            WaitEvent::Idled => WaitAction::Look,
        };
        self.doing = action;
        action
    }
}

/// An idle slice is never empty, never longer than the longest slice, and
/// never reaches past the time that the call waits for.
pub proof fn idle_slices_are_bounded(wait: CallWait, event: WaitEvent)
    requires
        wait.expects(event),
        wait.next(event) is Idle,
    ensures
        ({
            let now = if event is Checked {
                event->now
            } else {
                wait.now
            };
            let slice = wait.next(event)->0;
            &&& 0 < slice <= IDLE_SLICE_MILLISECONDS
            &&& deadline_of(wait.kind) matches Some(deadline) && now + slice <= deadline
        }),
{
}

/// Only a timer or a datagram is waited for in this loop; any other call is
/// woken elsewhere.
pub proof fn only_timed_calls_wait_here(wait: CallWait, now: u64)
    requires
        deadline_of(wait.kind) is None,
    ensures
        wait.next(WaitEvent::Checked { interrupted: false, now }) == WaitAction::Broken,
{
}

/// A timer ends at its time and not before; a call for a datagram looks for one
/// each time, wakes when one arrived and gives up at its time. In between the
/// machine idles for what is left, fifty milliseconds at most.
pub proof fn timed_calls_end_at_their_time(wait: CallWait, now: u64)
    ensures
        (wait.kind matches DeferredKind::Timer { deadline } ==> {
            let next = wait.next(WaitEvent::Checked { interrupted: false, now });
            &&& now >= deadline ==> next == WaitAction::Expire
            &&& now < deadline ==> (next matches WaitAction::Idle(milliseconds) && 0 < milliseconds
                <= 50 && milliseconds <= deadline - now && (milliseconds == 50 || milliseconds
                == deadline - now))
        }),
        (wait.kind matches DeferredKind::Datagram { deadline, .. } ==> {
            let next = wait.next(WaitEvent::Received { arrived: false });
            &&& wait.next(WaitEvent::Checked { interrupted: false, now }) == WaitAction::Receive
            &&& wait.next(WaitEvent::Received { arrived: true }) == WaitAction::WakePort
            &&& wait.now >= deadline ==> next == WaitAction::Expire
            &&& wait.now < deadline ==> (next matches WaitAction::Idle(milliseconds) && 0
                < milliseconds <= 50 && milliseconds <= deadline - wait.now && (milliseconds == 50
                || milliseconds == deadline - wait.now))
        }),
        wait.next(WaitEvent::Checked { interrupted: true, now }) == WaitAction::CancelOperation,
{
}

/// A wait goes on while the call waits; it is complete once its end completed
/// the call. Only an expiry that completed nothing is followed by another look,
/// and whatever else fails breaks the call.
pub proof fn waits_complete_with_their_call(wait: CallWait)
    ensures
        wait.next(WaitEvent::Looked { waiting: true }) == WaitAction::Check,
        wait.next(WaitEvent::Looked { waiting: false }) == WaitAction::Broken,
        wait.next(WaitEvent::Ended { completed: true }) == WaitAction::Complete,
        wait.next(WaitEvent::Ended { completed: false }) == if wait.doing == WaitAction::Expire {
            WaitAction::Look
        } else {
            WaitAction::Broken
        },
        wait.next(WaitEvent::Idled) == WaitAction::Look,
        wait.next(WaitEvent::Failed) == WaitAction::Broken,
        (deadline_of(wait.kind) is Some <==> wait.kind is Timer || wait.kind is Datagram),
        (wait.kind matches DeferredKind::Timer { deadline } ==> deadline_of(wait.kind) == Some(
            deadline,
        )),
        (wait.kind matches DeferredKind::Datagram { deadline, .. } ==> deadline_of(wait.kind)
            == Some(deadline)),
{
}

} // verus!
