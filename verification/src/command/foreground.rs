//! Running one application in the foreground.

use crate::command::outcome::{ApplicationOutcome, TaskFault};
use vstd::prelude::*;

verus! {

/// How long the machine waits for an event while nothing can run.
pub const RESIDENT_POLL_MILLISECONDS: u32 = 10;

/// How one execution step of the application went.
#[derive(Clone, Copy, Debug, PartialEq, Eq, Structural)]
pub enum StepResult {
    /// It ended.
    Finished(ApplicationOutcome),
    /// It goes on.
    Pending,
    /// It broke.
    Broken,
}

/// What happened in the machine.
#[derive(Clone, Copy, Debug, PartialEq, Eq, Structural)]
pub enum ForegroundEvent {
    /// The shell gave up the processor.
    Released {
        /// Whether that failed.
        failed: bool,
    },
    /// The application made a step.
    Stepped(StepResult),
    /// The session was asked whether to go on.
    Checked {
        /// Whether the user interrupted.
        interrupted: bool,
    },
    /// A waiting call of the application was asked to cancel.
    CancelRequested {
        /// Whether there was a waiting call that took the request.
        delivered: bool,
    },
    /// Terminal and background processes were pumped.
    Pumped {
        /// Whether pumping failed.
        failed: bool,
        /// Whether the application waits.
        blocked: bool,
        /// Whether a background process can run.
        runnable: bool,
    },
    /// The machine waited for an event.
    Waited {
        /// Whether waiting failed.
        failed: bool,
    },
    /// The application was torn down.
    TornDown {
        /// Whether that failed.
        failed: bool,
    },
    /// The shell got the processor back.
    Restored {
        /// Whether that failed.
        failed: bool,
    },
}

/// What the machine does next.
#[derive(Clone, Copy, Debug, PartialEq, Eq, Structural)]
pub enum ForegroundAction {
    /// Let the shell give up the processor.
    Release,
    /// Let the application make a step.
    Step,
    /// Ask the session whether to go on.
    Check,
    /// Ask a waiting call of the application to cancel.
    RequestCancel,
    /// Pump terminal and background processes.
    Pump,
    /// Wait for an event, this many milliseconds at most.
    Wait(u32),
    /// Tear the application down.
    TearDown {
        /// How it ended.
        outcome: ApplicationOutcome,
        /// Whether it is stopped by force.
        forced: bool,
        /// Whether the run reports this outcome rather than a failure.
        reported: bool,
    },
    /// Give the processor back to the shell; this is the outcome, or nothing
    /// where the application could not be run to its end.
    Restore(Option<ApplicationOutcome>),
    /// The run is over.
    Over(Option<ApplicationOutcome>),
    /// The machine stops.
    Fatal,
}

/// The last words where the shell cannot get the processor back.
pub fn restore_failure() -> (text: &'static str)
    ensures
        text == "fatal: shell scheduler restore failed\n",
{
    "fatal: shell scheduler restore failed\n"
}

/// The run of one application.
#[derive(Clone, Copy, Debug, PartialEq, Eq, Structural)]
pub struct ForegroundRun {
    /// Exit code of a cancelled application.
    pub cancelled: u32,
    /// Whether a waiting call took a cancel request.
    pub cancellation_delivered: bool,
    /// What the machine was told to do.
    pub doing: ForegroundAction,
}

impl ForegroundRun {
    /// Start a run: the shell gives up the processor.
    pub fn start(cancelled: u32) -> (run: Self)
        ensures
            run == (ForegroundRun {
                cancelled,
                cancellation_delivered: false,
                doing: ForegroundAction::Release,
            }),
    {
        ForegroundRun { cancelled, cancellation_delivered: false, doing: ForegroundAction::Release }
    }

    /// Whether an event answers what the machine was told to do.
    pub open spec fn expects(self, event: ForegroundEvent) -> bool {
        match self.doing {
            ForegroundAction::Release => event is Released,
            ForegroundAction::Step => event is Stepped,
            ForegroundAction::Check => event is Checked,
            ForegroundAction::RequestCancel => event is CancelRequested,
            ForegroundAction::Pump => event is Pumped,
            ForegroundAction::Wait(_) => event is Waited,
            ForegroundAction::TearDown { .. } => event is TornDown,
            ForegroundAction::Restore(_) => event is Restored,
            ForegroundAction::Over(_) | ForegroundAction::Fatal => false,
        }
    }

    /// Tearing down a cancelled application.
    pub open spec fn cancelling(self, reported: bool) -> ForegroundAction {
        ForegroundAction::TearDown {
            outcome: ApplicationOutcome::Exited(self.cancelled),
            forced: true,
            reported,
        }
    }

    /// What follows an event.
    pub open spec fn next(self, event: ForegroundEvent) -> ForegroundAction {
        match event {
            ForegroundEvent::Released { failed } => if failed {
                ForegroundAction::Over(None)
            } else {
                ForegroundAction::Step
            },
            ForegroundEvent::Stepped(StepResult::Finished(outcome)) => ForegroundAction::TearDown {
                outcome,
                forced: false,
                reported: true,
            },
            ForegroundEvent::Stepped(StepResult::Broken) => ForegroundAction::TearDown {
                outcome: ApplicationOutcome::Faulted(TaskFault::InvalidCall),
                forced: true,
                reported: true,
            },
            ForegroundEvent::Stepped(StepResult::Pending) => if self.cancellation_delivered {
                self.cancelling(true)
            } else {
                ForegroundAction::Check
            },
            ForegroundEvent::Checked { interrupted } => if interrupted {
                ForegroundAction::RequestCancel
            } else {
                ForegroundAction::Pump
            },
            ForegroundEvent::CancelRequested { delivered } => if delivered {
                ForegroundAction::Step
            } else {
                self.cancelling(true)
            },
            ForegroundEvent::Pumped { failed, blocked, runnable } => if failed {
                self.cancelling(false)
            } else if blocked && !runnable {
                ForegroundAction::Wait(RESIDENT_POLL_MILLISECONDS)
            } else {
                ForegroundAction::Step
            },
            ForegroundEvent::Waited { failed } => if failed {
                self.cancelling(false)
            } else {
                ForegroundAction::Step
            },
            ForegroundEvent::TornDown { failed } => match self.doing {
                ForegroundAction::TearDown { outcome, reported, .. } => ForegroundAction::Restore(
                    if reported && !failed {
                        Some(outcome)
                    } else {
                        None
                    },
                ),
                _ => ForegroundAction::Fatal,
            },
            ForegroundEvent::Restored { failed } => match self.doing {
                ForegroundAction::Restore(outcome) if !failed => ForegroundAction::Over(outcome),
                _ => ForegroundAction::Fatal,
            },
        }
    }

    /// The run after an event.
    pub open spec fn after(self, event: ForegroundEvent) -> ForegroundRun {
        ForegroundRun {
            cancelled: self.cancelled,
            cancellation_delivered: self.cancellation_delivered || event
                == (ForegroundEvent::CancelRequested { delivered: true }),
            doing: self.next(event),
        }
    }

    fn cancel(&self, reported: bool) -> (action: ForegroundAction)
        ensures
            action == self.cancelling(reported),
    {
        ForegroundAction::TearDown {
            outcome: ApplicationOutcome::Exited(self.cancelled),
            forced: true,
            reported,
        }
    }

    /// Take an event and decide what follows.
    pub fn observe(&mut self, event: ForegroundEvent) -> (action: ForegroundAction)
        requires
            old(self).expects(event),
        ensures
            *final(self) == old(self).after(event),
            action == final(self).doing,
    {
        let action = match event {
            ForegroundEvent::Released { failed } => if failed {
                ForegroundAction::Over(None)
            } else {
                ForegroundAction::Step
            },
            ForegroundEvent::Stepped(StepResult::Finished(outcome)) => ForegroundAction::TearDown {
                outcome,
                forced: false,
                reported: true,
            },
            ForegroundEvent::Stepped(StepResult::Broken) => ForegroundAction::TearDown {
                outcome: ApplicationOutcome::Faulted(TaskFault::InvalidCall),
                forced: true,
                reported: true,
            },
            ForegroundEvent::Stepped(StepResult::Pending) => if self.cancellation_delivered {
                self.cancel(true)
            } else {
                ForegroundAction::Check
            },
            ForegroundEvent::Checked { interrupted } => if interrupted {
                ForegroundAction::RequestCancel
            } else {
                ForegroundAction::Pump
            },
            ForegroundEvent::CancelRequested { delivered } => if delivered {
                self.cancellation_delivered = true;
                ForegroundAction::Step
            } else {
                self.cancel(true)
            },
            ForegroundEvent::Pumped { failed, blocked, runnable } => if failed {
                self.cancel(false)
            } else if blocked && !runnable {
                ForegroundAction::Wait(RESIDENT_POLL_MILLISECONDS)
            } else {
                ForegroundAction::Step
            },
            ForegroundEvent::Waited { failed } => if failed {
                self.cancel(false)
            } else {
                ForegroundAction::Step
            },
            ForegroundEvent::TornDown { failed } => match self.doing {
                ForegroundAction::TearDown { outcome, reported, .. } => ForegroundAction::Restore(
                    if reported && !failed {
                        Some(outcome)
                    } else {
                        None
                    },
                ),
                _ => ForegroundAction::Fatal,
            },
            ForegroundEvent::Restored { failed } => match self.doing {
                ForegroundAction::Restore(outcome) => if failed {
                    ForegroundAction::Fatal
                } else {
                    ForegroundAction::Over(outcome)
                },
                _ => ForegroundAction::Fatal,
            },
        };
        self.doing = action;
        action
    }
}

/// An interrupted application ends: without a waiting call at once, otherwise
/// after one more step whatever that step does.
pub proof fn interrupted_applications_end(run: ForegroundRun, delivered: bool, step: StepResult)
    ensures
        ({
            let interrupted = run.after(ForegroundEvent::Checked { interrupted: true });
            let asked = interrupted.after(ForegroundEvent::CancelRequested { delivered });
            &&& interrupted.doing == ForegroundAction::RequestCancel
            &&& !delivered ==> asked.doing is TearDown
            &&& delivered ==> asked.doing == ForegroundAction::Step && asked.after(
                ForegroundEvent::Stepped(step),
            ).doing is TearDown
        }),
{
}

/// Once the shell gave up the processor, a run is over only after the
/// application was torn down and the shell has the processor back.
pub proof fn applications_are_torn_down_first(run: ForegroundRun, event: ForegroundEvent)
    requires
        run.expects(event),
    ensures
        run.after(event).doing is Over ==> run.doing == ForegroundAction::Release
            || run.doing is Restore,
        run.after(event).doing is Restore ==> run.doing is TearDown,
        run.doing is TearDown ==> run.after(event).doing is Restore,
{
}

/// A foreground application that ends, breaks or is cancelled is torn down as
/// what happened to it: by force unless it ended by itself, as faulted where it
/// broke, and with the code of cancellation where it was interrupted. Trouble of
/// the machine is not reported as an outcome.
pub proof fn applications_end_as_what_happened(
    run: ForegroundRun,
    outcome: ApplicationOutcome,
    blocked: bool,
    runnable: bool,
)
    ensures
        run.next(ForegroundEvent::Stepped(StepResult::Finished(outcome))) == (
        ForegroundAction::TearDown { outcome, forced: false, reported: true }),
        run.next(ForegroundEvent::Stepped(StepResult::Broken)) == (ForegroundAction::TearDown {
            outcome: ApplicationOutcome::Faulted(TaskFault::InvalidCall),
            forced: true,
            reported: true,
        }),
        run.next(ForegroundEvent::CancelRequested { delivered: false }) == (
        ForegroundAction::TearDown {
            outcome: ApplicationOutcome::Exited(run.cancelled),
            forced: true,
            reported: true,
        }),
        run.cancellation_delivered ==> run.next(ForegroundEvent::Stepped(StepResult::Pending)) == (
        ForegroundAction::TearDown {
            outcome: ApplicationOutcome::Exited(run.cancelled),
            forced: true,
            reported: true,
        }),
        run.next(ForegroundEvent::Pumped { failed: true, blocked, runnable }) == (
        ForegroundAction::TearDown {
            outcome: ApplicationOutcome::Exited(run.cancelled),
            forced: true,
            reported: false,
        }),
        run.next(ForegroundEvent::Waited { failed: true }) == (ForegroundAction::TearDown {
            outcome: ApplicationOutcome::Exited(run.cancelled),
            forced: true,
            reported: false,
        }),
{
}

/// An application that goes on is followed by a check of the session, and
/// resident processes run before its next step. The machine waits, ten
/// milliseconds at most, only where the application waits and nobody else can
/// run.
pub proof fn the_machine_waits_only_when_idle(run: ForegroundRun, blocked: bool, runnable: bool)
    ensures
        !run.cancellation_delivered ==> run.next(ForegroundEvent::Stepped(StepResult::Pending))
            == ForegroundAction::Check,
        run.next(ForegroundEvent::Checked { interrupted: false }) == ForegroundAction::Pump,
        run.next(ForegroundEvent::Checked { interrupted: true })
            == ForegroundAction::RequestCancel,
        run.next(ForegroundEvent::CancelRequested { delivered: true }) == ForegroundAction::Step,
        run.next(ForegroundEvent::Pumped { failed: false, blocked, runnable }) == if blocked
            && !runnable {
            ForegroundAction::Wait(10)
        } else {
            ForegroundAction::Step
        },
        run.next(ForegroundEvent::Waited { failed: false }) == ForegroundAction::Step,
        run.next(ForegroundEvent::Released { failed: false }) == ForegroundAction::Step,
        run.next(ForegroundEvent::Released { failed: true }) == ForegroundAction::Over(None),
        run.after(ForegroundEvent::CancelRequested { delivered: true }).cancellation_delivered,
        run.after(ForegroundEvent::Checked { interrupted: true }).cancellation_delivered
            == run.cancellation_delivered,
{
}

/// The outcome that a run reports is the one that the application was torn down
/// with; where the teardown failed, or the outcome is not to be reported, there
/// is none. A shell that does not get the processor back stops the machine.
pub proof fn runs_report_the_outcome(run: ForegroundRun, outcome: ApplicationOutcome, forced: bool)
    ensures
        run.doing == (ForegroundAction::TearDown { outcome, forced, reported: true }) ==> run.next(
            ForegroundEvent::TornDown { failed: false },
        ) == ForegroundAction::Restore(Some(outcome)),
        run.doing == (ForegroundAction::TearDown { outcome, forced, reported: true }) ==> run.next(
            ForegroundEvent::TornDown { failed: true },
        ) == ForegroundAction::Restore(None),
        run.doing == (ForegroundAction::TearDown { outcome, forced, reported: false }) ==> run.next(
            ForegroundEvent::TornDown { failed: false },
        ) == ForegroundAction::Restore(None),
        run.doing == ForegroundAction::Restore(Some(outcome)) ==> run.next(
            ForegroundEvent::Restored { failed: false },
        ) == ForegroundAction::Over(Some(outcome)),
        run.doing == ForegroundAction::Restore(None) ==> run.next(
            ForegroundEvent::Restored { failed: false },
        ) == ForegroundAction::Over(None),
        run.next(ForegroundEvent::Restored { failed: true }) == ForegroundAction::Fatal,
{
}

} // verus!
