//! Two threads that run their scripts: every request is answered as written,
//! at once or after a wait, and every reply reaches its caller.

use crate::probe::layout::{
    FIRST_COUNTER, FIRST_RX, FIRST_TX, SECOND_COUNTER, SECOND_RX, SECOND_TX,
};
use crate::probe::script::{Script, ScriptStep};
use crate::probe::words::{Act, Fault, Progress, Resumed, Seen, Stop, ThreadState, Who};
use vstd::prelude::*;

verus! {

/// Most rounds.
pub const MOST_ROUNDS: u64 = 64;

/// How often a preempted thread is sent on in a round, the first time counted.
pub const MOST_SLICES: u64 = 128;

/// Waits that both scripts contain together.
pub const EXPECTED_WAITS: u64 = 3;

/// Address at which the first thread marks the end of its script.
pub const FIRST_FINISHED: u64 = 0x4000_0001_6038;

/// Address at which the sibling marks the end of its script.
pub const SECOND_FINISHED: u64 = 0x4000_0001_9038;

/// What is asked next.
#[derive(Clone, Copy, Debug, PartialEq, Eq, Structural)]
pub enum ScriptStage {
    /// Whether a wait is over.
    Observe,
    /// The state of a thread.
    Look,
    /// To make a thread the running one.
    Dispatch,
    /// To end its wait.
    EndWait,
    /// Whether a reply is the expected one; `resuming` after a wait.
    ReplyIs {
        /// Whether the thread waited for it.
        resuming: bool,
    },
    /// To publish the reply.
    Reply {
        /// Whether the thread waited for it.
        resuming: bool,
    },
    /// Whether the rest of the receive page is clear.
    Tail {
        /// Whether the thread waited for the reply.
        resuming: bool,
    },
    /// To run the thread.
    Run {
        /// How often it was preempted.
        preempted: u64,
    },
    /// Whether its call is the expected one.
    CallIs,
    /// To check its right.
    Authorize,
    /// To take up the call.
    TakeUp,
    /// To execute it.
    Execute,
    /// The receive page while the caller waits.
    WordBefore,
    /// Whether the wait is that of the caller.
    IsCaller,
    /// Whether the caller waits.
    Blocked,
    /// To take up the call again.
    Again,
    /// To answer it as if it was not taken up.
    Unclaimed,
    /// The receive page afterwards.
    WordAfter,
    /// What the thread counted.
    Counted,
    /// Whether it marked the end of its script.
    Finished,
    /// To make it ready.
    Ready {
        /// Whether its script is over.
        done: bool,
    },
    /// What the first thread counted before it trapped.
    TrappedCount,
    /// What its sibling counted.
    SiblingCount,
    /// What is still in use.
    Usage,
    /// To stop the context.
    StopContext,
    /// To stop the process.
    StopSync,
    /// Nothing: both scripts are over.
    Passed,
    /// Nothing: the first thread trapped while its sibling waited.
    Trapped,
    /// Nothing: something unexpected was seen.
    Failed,
}

/// How far the scripts are.
#[derive(Clone, Copy, Debug, PartialEq, Eq, Structural)]
pub struct ScriptState {
    /// Round.
    pub round: u64,
    /// Whether it is about the sibling.
    pub second: bool,
    /// Whether a thread ran in this round.
    pub progressed: bool,
    /// Calls of the first thread.
    pub first_calls: usize,
    /// Calls of the sibling.
    pub second_calls: usize,
    /// Whether the first thread waits.
    pub first_waits: bool,
    /// Whether the sibling waits.
    pub second_waits: bool,
    /// Whether the first thread's script is over.
    pub first_done: bool,
    /// Whether the sibling's script is over.
    pub second_done: bool,
    /// Waits so far.
    pub waits: u64,
    /// A word of the receive page.
    pub word: u64,
    /// What is asked next.
    pub stage: ScriptStage,
}

impl ScriptState {
    /// The thread that it is about.
    pub open spec fn who(self) -> Who {
        if self.second {
            Who::Second
        } else {
            Who::First
        }
    }

    /// Calls of the thread.
    pub open spec fn calls(self) -> usize {
        if self.second {
            self.second_calls
        } else {
            self.first_calls
        }
    }

    /// Whether the thread waits.
    pub open spec fn waiting(self) -> bool {
        if self.second {
            self.second_waits
        } else {
            self.first_waits
        }
    }

    /// Whether a thread's script is over.
    pub open spec fn done(self, second: bool) -> bool {
        if second {
            self.second_done
        } else {
            self.first_done
        }
    }

    /// The state with another waiting flag of the thread.
    pub open spec fn with_waiting(self, waits: bool) -> ScriptState {
        if self.second {
            ScriptState { second_waits: waits, ..self }
        } else {
            ScriptState { first_waits: waits, ..self }
        }
    }

    /// The state after one more call of the thread.
    pub open spec fn with_call(self) -> ScriptState {
        if self.second {
            ScriptState { second_calls: (self.second_calls + 1) as usize, ..self }
        } else {
            ScriptState { first_calls: (self.first_calls + 1) as usize, ..self }
        }
    }

    /// The state at another stage.
    pub open spec fn at(self, stage: ScriptStage) -> ScriptState {
        ScriptState { stage, ..self }
    }

    /// The state at another stage, if what was seen is fine.
    pub open spec fn when(self, fine: bool, stage: ScriptStage) -> ScriptState {
        self.at(
            if fine {
                stage
            } else {
                ScriptStage::Failed
            },
        )
    }

    /// The state after the last thread of a round.
    pub open spec fn end_round(self) -> ScriptState {
        if self.first_done && self.second_done {
            self.when(
                self.waits == EXPECTED_WAITS && !self.first_waits && !self.second_waits,
                ScriptStage::Usage,
            )
        } else if !self.progressed || self.round + 1 >= MOST_ROUNDS {
            self.at(ScriptStage::Failed)
        } else {
            ScriptState { round: (self.round + 1) as u64, ..self }.begin_round()
        }
    }

    /// The state at the beginning of a round: waits are looked at first.
    pub open spec fn begin_round(self) -> ScriptState {
        let fresh = ScriptState { second: false, progressed: false, ..self };
        if self.first_waits {
            fresh.at(ScriptStage::Observe)
        } else if self.second_waits {
            ScriptState { second: true, ..fresh }.at(ScriptStage::Observe)
        } else if !self.first_done {
            fresh.at(ScriptStage::Look)
        } else {
            ScriptState { second: true, ..fresh }.at(ScriptStage::Look)
        }
    }

    /// The state after the waits were looked at.
    pub open spec fn first_look(self) -> ScriptState {
        if !self.first_done {
            ScriptState { second: false, ..self }.at(ScriptStage::Look)
        } else {
            ScriptState { second: true, ..self }.at(ScriptStage::Look)
        }
    }

    /// The state after a thread had its part of a round.
    pub open spec fn next_thread(self) -> ScriptState {
        if !self.second && !self.second_done {
            ScriptState { second: true, ..self }.at(ScriptStage::Look)
        } else {
            self.end_round()
        }
    }

    /// The state before the first round.
    pub open spec fn begin() -> ScriptState {
        ScriptState {
            round: 0,
            second: false,
            progressed: false,
            first_calls: 0,
            second_calls: 0,
            first_waits: false,
            second_waits: false,
            first_done: false,
            second_done: false,
            waits: 0,
            word: 0,
            stage: ScriptStage::Look,
        }
    }
}

/// Both scripts, and whether the first thread traps.
pub struct ScriptsView {
    /// Of the first thread.
    pub first: Seq<ScriptStep>,
    /// Of its sibling.
    pub second: Seq<ScriptStep>,
    /// Whether the first thread traps at the end of its script.
    pub trap: bool,
}

impl ScriptsView {
    /// Script of a thread.
    pub open spec fn of(self, second: bool) -> Seq<ScriptStep> {
        if second {
            self.second
        } else {
            self.first
        }
    }

    /// Calls are within the scripts, a thread with an answer due made a call,
    /// and a thread that is over does not wait.
    pub open spec fn covers(self, state: ScriptState) -> bool {
        let over = state.stage == ScriptStage::Passed || state.stage == ScriptStage::Trapped
            || state.stage == ScriptStage::Failed;
        &&& state.round < MOST_ROUNDS
        &&& state.first_calls <= self.first.len()
        &&& state.second_calls <= self.second.len()
        &&& state.waits <= state.first_calls + state.second_calls
        &&& self.first.len() <= 16
        &&& self.second.len() <= 16
        &&& state.first_waits ==> state.first_calls > 0
        &&& state.second_waits ==> state.second_calls > 0
        &&& !over && state.first_done && state.second_done ==> state.stage == ScriptStage::Usage
            || state.stage == ScriptStage::StopContext || state.stage == ScriptStage::StopSync
        &&& match state.stage {
            ScriptStage::Observe => state.waiting() && !(state.first_done && state.second_done),
            ScriptStage::Look => !state.done(state.second),
            ScriptStage::EndWait => state.waiting(),
            ScriptStage::ReplyIs { .. } => state.calls() > 0,
            ScriptStage::Run { preempted } => preempted < MOST_SLICES && !state.waiting(),
            ScriptStage::CallIs | ScriptStage::Authorize | ScriptStage::TakeUp => state.calls()
                < self.of(state.second).len(),
            ScriptStage::Execute | ScriptStage::WordBefore | ScriptStage::IsCaller
            | ScriptStage::Blocked | ScriptStage::Again | ScriptStage::Unclaimed
            | ScriptStage::WordAfter => state.calls() > 0 && state.waits < state.first_calls
                + state.second_calls,
            _ => true,
        }
    }

    /// The step whose reply is due.
    pub open spec fn due(self, state: ScriptState) -> ScriptStep {
        self.of(state.second)[state.calls() - 1]
    }

    /// What is asked.
    pub open spec fn question(self, state: ScriptState) -> Option<Act> {
        let who = state.who();
        let second = state.second;
        match state.stage {
            ScriptStage::Observe => Some(Act::WaitIsOver(who)),
            ScriptStage::Look | ScriptStage::Blocked => Some(Act::StateOf(who)),
            ScriptStage::Dispatch => Some(Act::Dispatch(who)),
            ScriptStage::EndWait => Some(Act::EndWait(who)),
            ScriptStage::ReplyIs { .. } => Some(
                Act::ReplyIs {
                    who,
                    request: self.due(state).request,
                    outcome: self.due(state).outcome,
                },
            ),
            ScriptStage::Reply { .. } => Some(Act::Reply(who)),
            ScriptStage::Tail { .. } => Some(
                Act::TailIsClear {
                    tx: if second {
                        SECOND_TX
                    } else {
                        FIRST_TX
                    },
                    from: 32,
                },
            ),
            ScriptStage::Run { .. } => Some(
                Act::Resume { who, how: Resumed::Timeslice, millis: 50 },
            ),
            ScriptStage::CallIs => Some(
                Act::CallIs { who, request: self.of(second)[state.calls() as int].request },
            ),
            ScriptStage::Authorize => Some(Act::Authorize(who)),
            ScriptStage::TakeUp => Some(Act::TakeUp(who)),
            ScriptStage::Execute => Some(Act::Execute(who)),
            ScriptStage::WordBefore | ScriptStage::WordAfter => Some(
                Act::Word(
                    if second {
                        SECOND_RX
                    } else {
                        FIRST_RX
                    },
                ),
            ),
            ScriptStage::IsCaller => Some(Act::IsCaller(who)),
            ScriptStage::Again => Some(Act::TakeUpAgain(who)),
            ScriptStage::Unclaimed => Some(Act::AnswerScheduler(who)),
            ScriptStage::Counted => Some(
                Act::Word(
                    if second {
                        SECOND_COUNTER
                    } else {
                        FIRST_COUNTER
                    },
                ),
            ),
            ScriptStage::Finished => Some(
                Act::Word(
                    if second {
                        SECOND_FINISHED
                    } else {
                        FIRST_FINISHED
                    },
                ),
            ),
            ScriptStage::Ready { .. } => Some(Act::Yield(who)),
            ScriptStage::TrappedCount => Some(Act::Word(FIRST_COUNTER)),
            ScriptStage::SiblingCount => Some(Act::Word(SECOND_COUNTER)),
            ScriptStage::Usage => Some(Act::SyncUsage),
            ScriptStage::StopContext => Some(Act::StopContext),
            ScriptStage::StopSync => Some(Act::StopSync),
            ScriptStage::Passed | ScriptStage::Trapped | ScriptStage::Failed => None,
        }
    }

    /// The state after a thread came back.
    pub open spec fn after_run(self, state: ScriptState, preempted: u64, seen: Seen) -> ScriptState {
        match seen {
            Seen::Stop(Stop::Preempted) => state.when(
                preempted + 1 < MOST_SLICES,
                ScriptStage::Run { preempted: (preempted + 1) as u64 },
            ),
            Seen::Stop(Stop::SchedulerCall) => state.when(
                state.calls() < self.of(state.second).len(),
                ScriptStage::CallIs,
            ),
            Seen::Stop(Stop::Yielded) => state.when(
                !self.trap && state.calls() == self.of(state.second).len(),
                ScriptStage::Counted,
            ),
            Seen::Stop(Stop::Faulted(Fault::IllegalInstruction)) => state.when(
                self.trap && !state.second && state.waits == 1 && state.first_calls == 1
                    && state.second_calls == 1 && !state.first_waits && state.second_waits,
                ScriptStage::TrappedCount,
            ),
            _ => state.at(ScriptStage::Failed),
        }
    }

    /// The state after an answer.
    pub open spec fn after(self, state: ScriptState, seen: Seen) -> ScriptState {
        match state.stage {
            ScriptStage::Observe => if !(seen is Flag) {
                state.at(ScriptStage::Failed)
            } else if !state.second && state.second_waits {
                ScriptState { second: true, ..state }
            } else {
                state.first_look()
            },
            ScriptStage::Look => match seen {
                Seen::State(ThreadState::Ready) => ScriptState { progressed: true, ..state }.at(
                    ScriptStage::Dispatch,
                ),
                Seen::State(_) => state.next_thread(),
                _ => state.at(ScriptStage::Failed),
            },
            ScriptStage::Dispatch => state.when(
                seen == Seen::Done,
                if state.waiting() {
                    ScriptStage::EndWait
                } else {
                    ScriptStage::Run { preempted: 0 }
                },
            ),
            ScriptStage::EndWait => if seen is Number {
                state.with_waiting(false).at(ScriptStage::ReplyIs { resuming: true })
            } else {
                state.at(ScriptStage::Failed)
            },
            ScriptStage::ReplyIs { resuming } => state.when(
                seen == Seen::Flag(true),
                ScriptStage::Reply { resuming },
            ),
            ScriptStage::Reply { resuming } => state.when(
                seen == Seen::Done,
                ScriptStage::Tail { resuming },
            ),
            ScriptStage::Tail { resuming } => state.when(
                seen == Seen::Flag(true) && (resuming ==> !state.waiting()),
                if resuming {
                    ScriptStage::Run { preempted: 0 }
                } else {
                    ScriptStage::Ready { done: false }
                },
            ),
            ScriptStage::Run { preempted } => self.after_run(state, preempted, seen),
            ScriptStage::CallIs => state.when(seen == Seen::Flag(true), ScriptStage::Authorize),
            ScriptStage::Authorize => state.when(seen == Seen::Done, ScriptStage::TakeUp),
            ScriptStage::TakeUp => if seen == Seen::Done {
                state.with_call().at(ScriptStage::Execute)
            } else {
                state.at(ScriptStage::Failed)
            },
            ScriptStage::Execute => match seen {
                Seen::Progress(Progress::Complete) => state.at(
                    ScriptStage::ReplyIs { resuming: false },
                ),
                Seen::Progress(Progress::Waiting) => state.at(ScriptStage::WordBefore),
                _ => state.at(ScriptStage::Failed),
            },
            ScriptStage::WordBefore => match seen {
                Seen::Number(word) => ScriptState { word, ..state }.at(ScriptStage::IsCaller),
                _ => state.at(ScriptStage::Failed),
            },
            ScriptStage::IsCaller => state.when(seen == Seen::Flag(true), ScriptStage::Blocked),
            ScriptStage::Blocked => state.when(
                seen == Seen::State(ThreadState::Blocked),
                ScriptStage::Again,
            ),
            ScriptStage::Again => state.when(seen is Refused, ScriptStage::Unclaimed),
            ScriptStage::Unclaimed => state.when(seen is Refused, ScriptStage::WordAfter),
            ScriptStage::WordAfter => if seen == Seen::Number(state.word) {
                ScriptState {
                    waits: (state.waits + 1) as u64,
                    ..state.with_waiting(true)
                }.next_thread()
            } else {
                state.at(ScriptStage::Failed)
            },
            ScriptStage::Counted => state.when(
                seen == Seen::Number(state.calls() as u64),
                ScriptStage::Finished,
            ),
            ScriptStage::Finished => state.when(
                seen == Seen::Number(1),
                ScriptStage::Ready { done: true },
            ),
            ScriptStage::Ready { done } => if seen != Seen::Done {
                state.at(ScriptStage::Failed)
            } else if !done {
                state.next_thread()
            } else if state.second {
                ScriptState { second_done: true, ..state }.next_thread()
            } else {
                ScriptState { first_done: true, ..state }.next_thread()
            },
            ScriptStage::TrappedCount => state.when(
                seen == Seen::Number(1),
                ScriptStage::SiblingCount,
            ),
            ScriptStage::SiblingCount => state.when(
                seen == Seen::Number(0),
                ScriptStage::Trapped,
            ),
            ScriptStage::Usage => state.when(
                seen == Seen::Numbers(0, 0),
                ScriptStage::StopContext,
            ),
            ScriptStage::StopContext => state.when(seen == Seen::Done, ScriptStage::StopSync),
            ScriptStage::StopSync => state.when(seen == Seen::Done, ScriptStage::Passed),
            ScriptStage::Passed | ScriptStage::Trapped | ScriptStage::Failed => state,
        }
    }

    /// Answers that can still be taken, at most.
    pub open spec fn patience(self, state: ScriptState) -> int {
        let place = match state.stage {
            ScriptStage::Observe => if state.second {
                421int
            } else {
                422
            },
            ScriptStage::Look => 190,
            ScriptStage::Dispatch => 189,
            ScriptStage::EndWait => 188,
            ScriptStage::ReplyIs { resuming: true } => 187,
            ScriptStage::Reply { resuming: true } => 186,
            ScriptStage::Tail { resuming: true } => 185,
            ScriptStage::Run { preempted } => 160 - preempted,
            ScriptStage::CallIs => 24,
            ScriptStage::Authorize => 23,
            ScriptStage::TakeUp => 22,
            ScriptStage::Execute => 21,
            ScriptStage::WordBefore => 20,
            ScriptStage::IsCaller => 19,
            ScriptStage::Blocked => 18,
            ScriptStage::Again => 17,
            ScriptStage::Unclaimed => 16,
            ScriptStage::WordAfter => 15,
            ScriptStage::ReplyIs { resuming: false } => 14,
            ScriptStage::Reply { resuming: false } => 13,
            ScriptStage::Tail { resuming: false } => 12,
            ScriptStage::Counted => 11,
            ScriptStage::Finished => 10,
            ScriptStage::TrappedCount => 9,
            ScriptStage::SiblingCount => 8,
            ScriptStage::Ready { .. } => 7,
            ScriptStage::Usage => 6,
            ScriptStage::StopContext => 5,
            ScriptStage::StopSync => 4,
            ScriptStage::Passed | ScriptStage::Trapped | ScriptStage::Failed => 0,
        };
        let thread = if state.second || place <= 6 || place > 400 {
            0int
        } else {
            200
        };
        if place == 0 {
            0
        } else {
            place + thread + 500 * (MOST_ROUNDS - state.round)
        }
    }
}

/// Two threads running their scripts.
#[derive(Debug)]
pub struct Schedule {
    first: Script,
    second: Script,
    trap: bool,
    state: ScriptState,
}

impl Schedule {
    /// Its scripts.
    pub closed spec fn scripts(self) -> ScriptsView {
        ScriptsView { first: self.first@, second: self.second@, trap: self.trap }
    }

    /// How far they are.
    pub closed spec fn state(self) -> ScriptState {
        self.state
    }

    /// Calls are within the scripts.
    pub open spec fn well_formed(self) -> bool {
        self.scripts().covers(self.state())
    }

    /// Begin two scripts.
    pub fn new(first: Script, second: Script, trap: bool) -> (schedule: Schedule)
        requires
            first.well_formed(),
            second.well_formed(),
        ensures
            schedule.scripts() == (ScriptsView { first: first@, second: second@, trap }),
            schedule.state() == ScriptState::begin(),
            schedule.well_formed(),
    {
        Schedule {
            first,
            second,
            trap,
            state: ScriptState {
                round: 0,
                second: false,
                progressed: false,
                first_calls: 0,
                second_calls: 0,
                first_waits: false,
                second_waits: false,
                first_done: false,
                second_done: false,
                waits: 0,
                word: 0,
                stage: ScriptStage::Look,
            },
        }
    }

    fn step(&self, index: usize) -> (step: ScriptStep)
        requires
            index < self.scripts().of(self.state().second).len(),
        ensures
            step == self.scripts().of(self.state().second)[index as int],
    {
        let found = if self.state.second {
            self.second.get(index)
        } else {
            self.first.get(index)
        };
        match found {
            Some(step) => step,
            None => {
                assert(false);
                ScriptStep {
                    request: crate::probe::script::Request::Current,
                    outcome: crate::probe::script::Outcome::Success,
                }
            },
        }
    }

    /// What is asked next; nothing once the scripts are over.
    pub fn next(&self) -> (act: Option<Act>)
        requires
            self.well_formed(),
        ensures
            act == self.scripts().question(self.state()),
    {
        let state = self.state;
        let second = state.second;
        let (who, calls): (Who, usize) = if second {
            (Who::Second, state.second_calls)
        } else {
            (Who::First, state.first_calls)
        };
        match state.stage {
            ScriptStage::Observe => Some(Act::WaitIsOver(who)),
            ScriptStage::Look | ScriptStage::Blocked => Some(Act::StateOf(who)),
            ScriptStage::Dispatch => Some(Act::Dispatch(who)),
            ScriptStage::EndWait => Some(Act::EndWait(who)),
            ScriptStage::ReplyIs { .. } => {
                let step = self.step(calls - 1);
                Some(Act::ReplyIs { who, request: step.request, outcome: step.outcome })
            },
            ScriptStage::Reply { .. } => Some(Act::Reply(who)),
            ScriptStage::Tail { .. } => {
                let tx: u64 = if second {
                    SECOND_TX
                } else {
                    FIRST_TX
                };
                Some(Act::TailIsClear { tx, from: 32 })
            },
            ScriptStage::Run { .. } => Some(
                Act::Resume { who, how: Resumed::Timeslice, millis: 50 },
            ),
            ScriptStage::CallIs => {
                let step = self.step(calls);
                Some(Act::CallIs { who, request: step.request })
            },
            ScriptStage::Authorize => Some(Act::Authorize(who)),
            ScriptStage::TakeUp => Some(Act::TakeUp(who)),
            ScriptStage::Execute => Some(Act::Execute(who)),
            ScriptStage::WordBefore | ScriptStage::WordAfter => Some(
                Act::Word(
                    if second {
                        SECOND_RX
                    } else {
                        FIRST_RX
                    },
                ),
            ),
            ScriptStage::IsCaller => Some(Act::IsCaller(who)),
            ScriptStage::Again => Some(Act::TakeUpAgain(who)),
            ScriptStage::Unclaimed => Some(Act::AnswerScheduler(who)),
            ScriptStage::Counted => Some(
                Act::Word(
                    if second {
                        SECOND_COUNTER
                    } else {
                        FIRST_COUNTER
                    },
                ),
            ),
            ScriptStage::Finished => Some(
                Act::Word(
                    if second {
                        SECOND_FINISHED
                    } else {
                        FIRST_FINISHED
                    },
                ),
            ),
            ScriptStage::Ready { .. } => Some(Act::Yield(who)),
            ScriptStage::TrappedCount => Some(Act::Word(FIRST_COUNTER)),
            ScriptStage::SiblingCount => Some(Act::Word(SECOND_COUNTER)),
            ScriptStage::Usage => Some(Act::SyncUsage),
            ScriptStage::StopContext => Some(Act::StopContext),
            ScriptStage::StopSync => Some(Act::StopSync),
            ScriptStage::Passed | ScriptStage::Trapped | ScriptStage::Failed => None,
        }
    }

    /// Take the answer to what was asked last.
    pub fn observe(&mut self, seen: Seen)
        requires
            old(self).well_formed(),
        ensures
            final(self).scripts() == old(self).scripts(),
            final(self).state() == old(self).scripts().after(old(self).state(), seen),
            final(self).well_formed(),
    {
        proof {
            lemma_covers(self.scripts(), self.state(), seen);
        }
        let first_len: usize = self.first.len();
        let second_len: usize = self.second.len();
        self.state = step_on(&self.state, first_len, second_len, self.trap, seen, Ghost(self.scripts()));
    }

    /// Whether both scripts went as written, or the trap came as expected.
    pub fn passed(&self) -> (yes: bool)
        ensures
            yes == (self.state().stage == ScriptStage::Passed || self.state().stage
                == ScriptStage::Trapped),
    {
        matches!(self.state.stage, ScriptStage::Passed | ScriptStage::Trapped)
    }
}

proof fn lemma_covers(scripts: ScriptsView, state: ScriptState, seen: Seen)
    requires
        scripts.covers(state),
    ensures
        scripts.covers(scripts.after(state, seen)),
{
}

fn thread_after(state: ScriptState) -> (after: ScriptState)
    ensures
        after == state.next_thread(),
{
    if !state.second && !state.second_done {
        return ScriptState { second: true, stage: ScriptStage::Look, ..state };
    }
    if state.first_done && state.second_done {
        let stage = if state.waits == EXPECTED_WAITS && !state.first_waits && !state.second_waits {
            ScriptStage::Usage
        } else {
            ScriptStage::Failed
        };
        return ScriptState { stage, ..state };
    }
    if !state.progressed || state.round >= MOST_ROUNDS - 1 {
        return ScriptState { stage: ScriptStage::Failed, ..state };
    }
    let fresh = ScriptState { round: state.round + 1, second: false, progressed: false, ..state };
    if state.first_waits {
        ScriptState { stage: ScriptStage::Observe, ..fresh }
    } else if state.second_waits {
        ScriptState { second: true, stage: ScriptStage::Observe, ..fresh }
    } else if !state.first_done {
        ScriptState { stage: ScriptStage::Look, ..fresh }
    } else {
        ScriptState { second: true, stage: ScriptStage::Look, ..fresh }
    }
}

fn stage_when(state: &ScriptState, fine: bool, stage: ScriptStage) -> (after: ScriptState)
    ensures
        after == state.when(fine, stage),
{
    if fine {
        ScriptState { stage, ..*state }
    } else {
        ScriptState { stage: ScriptStage::Failed, ..*state }
    }
}

fn run_on(
    state: &ScriptState,
    len: usize,
    preempted: u64,
    seen: Seen,
    Ghost(scripts): Ghost<ScriptsView>,
    trap: bool,
) -> (after: ScriptState)
    requires
        preempted < MOST_SLICES,
        len == scripts.of(state.second).len(),
        trap == scripts.trap,
    ensures
        after == scripts.after_run(*state, preempted, seen),
{
    let calls: usize = if state.second {
        state.second_calls
    } else {
        state.first_calls
    };
    match seen {
        Seen::Stop(Stop::Preempted) => stage_when(
            state,
            preempted + 1 < MOST_SLICES,
            ScriptStage::Run { preempted: preempted + 1 },
        ),
        Seen::Stop(Stop::SchedulerCall) => stage_when(state, calls < len, ScriptStage::CallIs),
        Seen::Stop(Stop::Yielded) => stage_when(
            state,
            !trap && calls == len,
            ScriptStage::Counted,
        ),
        Seen::Stop(Stop::Faulted(Fault::IllegalInstruction)) => stage_when(
            state,
            trap && !state.second && state.waits == 1 && state.first_calls == 1
                && state.second_calls == 1 && !state.first_waits && state.second_waits,
            ScriptStage::TrappedCount,
        ),
        _ => ScriptState { stage: ScriptStage::Failed, ..*state },
    }
}

fn step_on(
    state: &ScriptState,
    first_len: usize,
    second_len: usize,
    trap: bool,
    seen: Seen,
    Ghost(scripts): Ghost<ScriptsView>,
) -> (after: ScriptState)
    requires
        scripts.covers(*state),
        first_len == scripts.first.len(),
        second_len == scripts.second.len(),
        trap == scripts.trap,
    ensures
        after == scripts.after(*state, seen),
{
    let (calls, len, waiting): (usize, usize, bool) = if state.second {
        (state.second_calls, second_len, state.second_waits)
    } else {
        (state.first_calls, first_len, state.first_waits)
    };
    let failed = ScriptState { stage: ScriptStage::Failed, ..*state };
    match state.stage {
        ScriptStage::Observe => match seen {
            Seen::Flag(_) => if !state.second && state.second_waits {
                ScriptState { second: true, ..*state }
            } else {
                ScriptState { second: state.first_done, stage: ScriptStage::Look, ..*state }
            },
            _ => failed,
        },
        ScriptStage::Look => match seen {
            Seen::State(ThreadState::Ready) => ScriptState {
                progressed: true,
                stage: ScriptStage::Dispatch,
                ..*state
            },
            Seen::State(_) => thread_after(*state),
            _ => failed,
        },
        ScriptStage::Dispatch => stage_when(
            state,
            seen == Seen::Done,
            if waiting {
                ScriptStage::EndWait
            } else {
                ScriptStage::Run { preempted: 0 }
            },
        ),
        ScriptStage::EndWait => match seen {
            Seen::Number(_) => {
                let stage = ScriptStage::ReplyIs { resuming: true };
                if state.second {
                    ScriptState { second_waits: false, stage, ..*state }
                } else {
                    ScriptState { first_waits: false, stage, ..*state }
                }
            },
            _ => failed,
        },
        ScriptStage::ReplyIs { resuming } => stage_when(
            state,
            seen == Seen::Flag(true),
            ScriptStage::Reply { resuming },
        ),
        ScriptStage::Reply { resuming } => stage_when(
            state,
            seen == Seen::Done,
            ScriptStage::Tail { resuming },
        ),
        ScriptStage::Tail { resuming } => stage_when(
            state,
            seen == Seen::Flag(true) && (!resuming || !waiting),
            if resuming {
                ScriptStage::Run { preempted: 0 }
            } else {
                ScriptStage::Ready { done: false }
            },
        ),
        ScriptStage::Run { preempted } => run_on(
            state,
            len,
            preempted,
            seen,
            Ghost(scripts),
            trap,
        ),
        ScriptStage::CallIs => stage_when(state, seen == Seen::Flag(true), ScriptStage::Authorize),
        ScriptStage::Authorize => stage_when(state, seen == Seen::Done, ScriptStage::TakeUp),
        ScriptStage::TakeUp => if seen != Seen::Done {
            failed
        } else if state.second {
            ScriptState {
                second_calls: state.second_calls + 1,
                stage: ScriptStage::Execute,
                ..*state
            }
        } else {
            ScriptState {
                first_calls: state.first_calls + 1,
                stage: ScriptStage::Execute,
                ..*state
            }
        },
        ScriptStage::Execute => match seen {
            Seen::Progress(Progress::Complete) => ScriptState {
                stage: ScriptStage::ReplyIs { resuming: false },
                ..*state
            },
            Seen::Progress(Progress::Waiting) => ScriptState {
                stage: ScriptStage::WordBefore,
                ..*state
            },
            _ => failed,
        },
        ScriptStage::WordBefore => match seen {
            Seen::Number(word) => ScriptState { word, stage: ScriptStage::IsCaller, ..*state },
            _ => failed,
        },
        ScriptStage::IsCaller => stage_when(state, seen == Seen::Flag(true), ScriptStage::Blocked),
        ScriptStage::Blocked => stage_when(
            state,
            seen == Seen::State(ThreadState::Blocked),
            ScriptStage::Again,
        ),
        ScriptStage::Again => stage_when(
            state,
            matches!(seen, Seen::Refused(_)),
            ScriptStage::Unclaimed,
        ),
        ScriptStage::Unclaimed => stage_when(
            state,
            matches!(seen, Seen::Refused(_)),
            ScriptStage::WordAfter,
        ),
        ScriptStage::WordAfter => if seen != Seen::Number(state.word) {
            failed
        } else if state.second {
            thread_after(
                ScriptState { waits: state.waits + 1, second_waits: true, ..*state },
            )
        } else {
            thread_after(
                ScriptState { waits: state.waits + 1, first_waits: true, ..*state },
            )
        },
        ScriptStage::Counted => stage_when(
            state,
            seen == Seen::Number(calls as u64),
            ScriptStage::Finished,
        ),
        ScriptStage::Finished => stage_when(
            state,
            seen == Seen::Number(1),
            ScriptStage::Ready { done: true },
        ),
        ScriptStage::Ready { done } => if seen != Seen::Done {
            failed
        } else if !done {
            thread_after(*state)
        } else if state.second {
            thread_after(ScriptState { second_done: true, ..*state })
        } else {
            thread_after(ScriptState { first_done: true, ..*state })
        },
        ScriptStage::TrappedCount => stage_when(
            state,
            seen == Seen::Number(1),
            ScriptStage::SiblingCount,
        ),
        ScriptStage::SiblingCount => stage_when(
            state,
            seen == Seen::Number(0),
            ScriptStage::Trapped,
        ),
        ScriptStage::Usage => stage_when(
            state,
            seen == Seen::Numbers(0, 0),
            ScriptStage::StopContext,
        ),
        ScriptStage::StopContext => stage_when(state, seen == Seen::Done, ScriptStage::StopSync),
        ScriptStage::StopSync => stage_when(state, seen == Seen::Done, ScriptStage::Passed),
        ScriptStage::Passed | ScriptStage::Trapped | ScriptStage::Failed => *state,
    }
}

/// The next thread, or the next round, leaves less patience than any stage of
/// the present thread.
proof fn lemma_next_thread(scripts: ScriptsView, state: ScriptState)
    requires
        state.round < MOST_ROUNDS,
    ensures
        0 <= scripts.patience(state.next_thread()) < 7 + (if state.second {
            0int
        } else {
            200
        }) + 500 * (MOST_ROUNDS - state.round),
{
}

proof fn lemma_look_goes_on(scripts: ScriptsView, state: ScriptState, seen: Seen)
    requires
        scripts.covers(state),
        state.stage is Look,
    ensures
        0 <= scripts.patience(scripts.after(state, seen)) < scripts.patience(state),
{
    lemma_next_thread(scripts, state);
}

proof fn lemma_wait_goes_on(scripts: ScriptsView, state: ScriptState, seen: Seen)
    requires
        scripts.covers(state),
        state.stage is WordAfter,
    ensures
        0 <= scripts.patience(scripts.after(state, seen)) < scripts.patience(state),
{
    let waited = ScriptState { waits: (state.waits + 1) as u64, ..state.with_waiting(true) };
    lemma_next_thread(scripts, waited);
}

proof fn lemma_ready_goes_on(scripts: ScriptsView, state: ScriptState, seen: Seen)
    requires
        scripts.covers(state),
        state.stage is Ready,
    ensures
        0 <= scripts.patience(scripts.after(state, seen)) < scripts.patience(state),
{
    let done = if state.second {
        ScriptState { second_done: true, ..state }
    } else {
        ScriptState { first_done: true, ..state }
    };
    lemma_next_thread(scripts, state);
    lemma_next_thread(scripts, done);
}

proof fn lemma_begin_goes_on(scripts: ScriptsView, state: ScriptState, seen: Seen)
    requires
        scripts.covers(state),
        state.stage is Observe || state.stage is Dispatch || state.stage is EndWait || state.stage
            is ReplyIs || state.stage is Reply || state.stage is Tail,
    ensures
        0 <= scripts.patience(scripts.after(state, seen)) < scripts.patience(state),
{
}

proof fn lemma_call_goes_on(scripts: ScriptsView, state: ScriptState, seen: Seen)
    requires
        scripts.covers(state),
        state.stage is Run || state.stage is CallIs || state.stage is Authorize || state.stage
            is TakeUp || state.stage is Execute || state.stage is WordBefore || state.stage
            is IsCaller || state.stage is Blocked,
    ensures
        0 <= scripts.patience(scripts.after(state, seen)) < scripts.patience(state),
{
}

proof fn lemma_end_goes_on(scripts: ScriptsView, state: ScriptState, seen: Seen)
    requires
        scripts.covers(state),
        state.stage is Again || state.stage is Unclaimed || state.stage is Counted || state.stage
            is Finished || state.stage is TrappedCount || state.stage is SiblingCount || state.stage
            is Usage || state.stage is StopContext || state.stage is StopSync,
    ensures
        0 <= scripts.patience(scripts.after(state, seen)) < scripts.patience(state),
{
}

/// The scripts come to an end: each answer uses up some patience, whatever it
/// is.
pub proof fn scripts_come_to_an_end(scripts: ScriptsView, state: ScriptState, seen: Seen)
    requires
        scripts.covers(state),
        scripts.question(state) is Some,
    ensures
        0 <= scripts.patience(scripts.after(state, seen)) < scripts.patience(state),
{
    match state.stage {
        ScriptStage::Look => lemma_look_goes_on(scripts, state, seen),
        ScriptStage::WordAfter => lemma_wait_goes_on(scripts, state, seen),
        ScriptStage::Ready { .. } => lemma_ready_goes_on(scripts, state, seen),
        ScriptStage::Observe
        | ScriptStage::Dispatch
        | ScriptStage::EndWait
        | ScriptStage::ReplyIs { .. }
        | ScriptStage::Reply { .. }
        | ScriptStage::Tail { .. } => lemma_begin_goes_on(scripts, state, seen),
        ScriptStage::Run { .. }
        | ScriptStage::CallIs
        | ScriptStage::Authorize
        | ScriptStage::TakeUp
        | ScriptStage::Execute
        | ScriptStage::WordBefore
        | ScriptStage::IsCaller
        | ScriptStage::Blocked => lemma_call_goes_on(scripts, state, seen),
        ScriptStage::Passed | ScriptStage::Trapped | ScriptStage::Failed => {},
        _ => lemma_end_goes_on(scripts, state, seen),
    }
}

/// Scripts pass only when nobody waits any more, after every wait that they
/// contain.
pub proof fn passing_leaves_nobody_waiting(scripts: ScriptsView, state: ScriptState, seen: Seen)
    requires
        scripts.covers(state),
        state.stage != ScriptStage::Usage,
        scripts.after(state, seen).stage == ScriptStage::Usage,
    ensures
        ({
            let after = scripts.after(state, seen);
            &&& after.first_done && after.second_done
            &&& !after.first_waits && !after.second_waits
            &&& after.waits == EXPECTED_WAITS
        }),
{
}

/// A ready thread is dispatched. If it waited, its wait ends and it gets its reply
/// before it runs on; a call must be the next one of its script, is authorised,
/// taken up and executed; and a thread is done only behind its last call, with all
/// of them counted.
pub proof fn scripts_go_step_by_step(scripts: ScriptsView, state: ScriptState, seen: Seen)
    requires
        scripts.covers(state),
    ensures
        ({
            let next = scripts.after(state, seen);
            let who = if state.second {
                Who::Second
            } else {
                Who::First
            };
            let calls = if state.second {
                state.second_calls
            } else {
                state.first_calls
            };
            let script = if state.second {
                scripts.second
            } else {
                scripts.first
            };
            let waits = if state.second {
                state.second_waits
            } else {
                state.first_waits
            };
            &&& state.stage == ScriptStage::Look ==> scripts.question(state) == Some(
                Act::StateOf(who),
            ) && (next.stage == ScriptStage::Dispatch && next.progressed <== seen == Seen::State(
                ThreadState::Ready,
            ))
            &&& state.stage == ScriptStage::Dispatch && seen == Seen::Done ==> next.stage == (
            if waits {
                ScriptStage::EndWait
            } else {
                ScriptStage::Run { preempted: 0 }
            })
            &&& state.stage == ScriptStage::EndWait && seen is Number ==> next.stage
                == (ScriptStage::ReplyIs { resuming: true }) && next.waits == state.waits && (
            if state.second {
                !next.second_waits && next.first_waits == state.first_waits
            } else {
                !next.first_waits && next.second_waits == state.second_waits
            })
            &&& state.stage is ReplyIs ==> (scripts.question(state) matches Some(
                Act::ReplyIs { who: to, request, outcome },
            ) && to == who && request == script[calls - 1].request && outcome
                == script[calls - 1].outcome)
            &&& (state.stage matches ScriptStage::Run { preempted } ==> {
                &&& scripts.question(state) == Some(
                    Act::Resume { who, how: Resumed::Timeslice, millis: 50 },
                )
                &&& seen == Seen::Stop(Stop::SchedulerCall) ==> (next.stage == ScriptStage::CallIs
                    <==> calls < script.len())
                &&& seen == Seen::Stop(Stop::Yielded) ==> (next.stage == ScriptStage::Counted
                    <==> !scripts.trap && calls == script.len())
                &&& seen == Seen::Stop(Stop::Preempted) ==> (next.stage is Run <==> preempted < 127)
            })
            &&& state.stage == ScriptStage::CallIs ==> (scripts.question(state) matches Some(
                Act::CallIs { who: by, request },
            ) && by == who && request == script[calls as int].request) && (next.stage
                == ScriptStage::Authorize <==> seen == Seen::Flag(true))
            &&& state.stage == ScriptStage::Authorize ==> (next.stage == ScriptStage::TakeUp
                <==> seen == Seen::Done)
            &&& state.stage == ScriptStage::TakeUp && seen == Seen::Done ==> next.stage
                == ScriptStage::Execute && (if state.second {
                next.second_calls == calls + 1 && next.first_calls == state.first_calls
            } else {
                next.first_calls == calls + 1 && next.second_calls == state.second_calls
            })
            &&& state.stage == ScriptStage::Execute ==> {
                &&& seen == Seen::Progress(Progress::Complete) <==> next.stage
                    == (ScriptStage::ReplyIs { resuming: false })
                &&& seen == Seen::Progress(Progress::Waiting) <==> next.stage
                    == ScriptStage::WordBefore
            }
            &&& state.stage == ScriptStage::Counted ==> (next.stage == ScriptStage::Finished
                <==> seen == Seen::Number(calls as u64))
            &&& state.stage == ScriptStage::Finished ==> (next.stage == (ScriptStage::Ready {
                done: true,
            }) <==> seen == Seen::Number(1))
            &&& state.stage == (ScriptStage::Ready { done: true }) && seen == Seen::Done ==> (
            if state.second {
                next.second_done && next.first_done == state.first_done
            } else {
                next.first_done && next.second_done == state.second_done
            })
        }),
{
}

/// A thread that waits is the caller, is blocked, cannot be taken up again or
/// answered, and finds its buffer unchanged; then its wait is counted.
pub proof fn waiting_threads_stay_blocked(scripts: ScriptsView, state: ScriptState, seen: Seen)
    requires
        scripts.covers(state),
    ensures
        ({
            let next = scripts.after(state, seen);
            let who = if state.second {
                Who::Second
            } else {
                Who::First
            };
            &&& state.stage == ScriptStage::WordBefore ==> (seen matches Seen::Number(word)
                ==> next.stage == ScriptStage::IsCaller && next.word == word)
            &&& state.stage == ScriptStage::IsCaller ==> scripts.question(state) == Some(
                Act::IsCaller(who),
            ) && (next.stage == ScriptStage::Blocked <==> seen == Seen::Flag(true))
            &&& state.stage == ScriptStage::Blocked ==> (next.stage == ScriptStage::Again <==> seen
                == Seen::State(ThreadState::Blocked))
            &&& state.stage == ScriptStage::Again ==> scripts.question(state) == Some(
                Act::TakeUpAgain(who),
            ) && (next.stage == ScriptStage::Unclaimed <==> seen is Refused)
            &&& state.stage == ScriptStage::Unclaimed ==> scripts.question(state) == Some(
                Act::AnswerScheduler(who),
            ) && (next.stage == ScriptStage::WordAfter <==> seen is Refused)
            &&& state.stage == ScriptStage::WordAfter && seen == Seen::Number(state.word)
                ==> next.waits == state.waits + 1 && (if state.second {
                next.second_waits
            } else {
                next.first_waits
            })
            &&& state.stage == ScriptStage::WordAfter && seen != Seen::Number(state.word)
                ==> next.stage == ScriptStage::Failed
        }),
{
}

/// Scripts pass only after exactly three waits, with nothing left in use and both
/// the context and the objects stopped; a trap is found where the first thread
/// traps behind its call while the second waits.
pub proof fn scripts_pass_with_nothing_in_use(scripts: ScriptsView, state: ScriptState, seen: Seen)
    requires
        scripts.covers(state),
    ensures
        ({
            let next = scripts.after(state, seen);
            &&& state.stage == ScriptStage::Usage ==> scripts.question(state) == Some(Act::SyncUsage)
                && (next.stage == ScriptStage::StopContext <==> seen == Seen::Numbers(0, 0))
            &&& state.stage == ScriptStage::StopContext ==> scripts.question(state) == Some(
                Act::StopContext,
            ) && (next.stage == ScriptStage::StopSync <==> seen == Seen::Done)
            &&& state.stage == ScriptStage::StopSync ==> scripts.question(state) == Some(
                Act::StopSync,
            ) && (next.stage == ScriptStage::Passed <==> seen == Seen::Done)
            &&& state.stage is Run && seen == Seen::Stop(Stop::Faulted(Fault::IllegalInstruction))
                ==> (next.stage == ScriptStage::TrappedCount <==> scripts.trap && !state.second
                && state.waits == 1 && state.first_calls == 1 && state.second_calls == 1
                && !state.first_waits && state.second_waits)
            &&& state.stage == ScriptStage::TrappedCount ==> scripts.question(state) == Some(
                Act::Word(0x4000_0001_6010),
            ) && (next.stage == ScriptStage::SiblingCount <==> seen == Seen::Number(1))
            &&& state.stage == ScriptStage::SiblingCount ==> scripts.question(state) == Some(
                Act::Word(0x4000_0001_9010),
            ) && (next.stage == ScriptStage::Trapped <==> seen == Seen::Number(0))
        }),
        state.first_done && state.second_done ==> (state.end_round().stage == ScriptStage::Usage
            <==> state.waits == 3 && !state.first_waits && !state.second_waits),
        !(state.first_done && state.second_done) && (!state.progressed || state.round >= 63)
            ==> state.end_round().stage == ScriptStage::Failed,
{
}

} // verus!
