//! Letting a thread run in turns of its process until it stops for a reason
//! of its own.

use crate::probe::words::{Act, Holder, Seen, Stop, Who};
use vstd::prelude::*;

verus! {

/// Most turns that a thread gets.
pub const MOST_TURNS: u64 = 16;

/// What is asked next.
#[derive(Clone, Copy, Debug, PartialEq, Eq, Structural)]
pub enum EnterStage {
    /// A turn of the process.
    Begin,
    /// To make the thread the running one.
    Dispatch,
    /// To run it.
    Run,
    /// To stop the process; afterwards the entry ends like this.
    StopProcess(Option<Stop>),
    /// To let the thread wait or make it ready.
    Park(Stop),
    /// To end the turn.
    End(Stop),
    /// Nothing: the thread stopped.
    Stopped {
        /// Why.
        stop: Stop,
        /// Whether it waits for an answer.
        waits: bool,
    },
    /// Nothing: something unexpected was seen.
    Failed,
}

/// An entry of a thread.
#[derive(Clone, Copy, Debug, PartialEq, Eq, Structural)]
pub struct Entry {
    /// Thread.
    pub who: Who,
    /// Turns so far.
    pub turns: u64,
    /// What is asked next.
    pub stage: EnterStage,
}

/// Whether a thread that stopped like this waits for an answer.
pub open spec fn calls(stop: Stop) -> bool {
    stop == Stop::HandleCall || stop == Stop::HeapGrowth
}

/// Whether a thread that stopped like this ended its process.
pub open spec fn ends_process(stop: Stop) -> bool {
    stop is Faulted || stop is Exited
}

/// Whether a thread that stopped like this is sent on.
pub open spec fn goes_on(stop: Stop) -> bool {
    stop == Stop::Preempted || stop == Stop::Expired
}

fn is_call(stop: Stop) -> (yes: bool)
    ensures
        yes == calls(stop),
{
    matches!(stop, Stop::HandleCall | Stop::HeapGrowth)
}

impl Entry {
    /// Turns are within their limit.
    pub open spec fn well_formed(self) -> bool {
        &&& self.turns < MOST_TURNS
        &&& match self.stage {
            EnterStage::Park(stop) | EnterStage::End(stop) => !ends_process(stop),
            EnterStage::Stopped { stop, waits } => waits == calls(stop) && !goes_on(stop),
            EnterStage::StopProcess(Some(stop)) => ends_process(stop),
            _ => true,
        }
    }

    /// What is asked.
    pub open spec fn question(self) -> Option<Act> {
        match self.stage {
            EnterStage::Begin => Some(Act::BeginTurn { millis: 20, steps: 2 }),
            EnterStage::Dispatch => Some(Act::Dispatch(self.who)),
            EnterStage::Run => Some(Act::ResumeInTurn(self.who)),
            EnterStage::StopProcess(_) => Some(Act::StopProcess(Holder::Own)),
            EnterStage::Park(stop) => Some(
                if calls(stop) {
                    Act::Block(self.who)
                } else {
                    Act::Yield(self.who)
                },
            ),
            EnterStage::End(_) => Some(Act::EndTurn),
            EnterStage::Stopped { .. } | EnterStage::Failed => None,
        }
    }

    /// The entry at another stage.
    pub open spec fn at(self, stage: EnterStage) -> Entry {
        Entry { stage, ..self }
    }

    /// The entry after an answer.
    pub open spec fn after(self, seen: Seen) -> Entry {
        match self.stage {
            EnterStage::Begin => if seen == Seen::Holder(Holder::Own) {
                self.at(EnterStage::Dispatch)
            } else {
                self.at(EnterStage::Failed)
            },
            EnterStage::Dispatch => if seen == Seen::Done {
                self.at(EnterStage::Run)
            } else {
                self.at(EnterStage::Failed)
            },
            EnterStage::Run => match seen {
                Seen::Stop(stop) => if ends_process(stop) {
                    self.at(EnterStage::StopProcess(Some(stop)))
                } else {
                    self.at(EnterStage::Park(stop))
                },
                _ => self.at(EnterStage::StopProcess(None)),
            },
            EnterStage::StopProcess(how) => match (how, seen) {
                (Some(stop), Seen::Done) => self.at(EnterStage::Stopped { stop, waits: false }),
                _ => self.at(EnterStage::Failed),
            },
            EnterStage::Park(stop) => if seen == Seen::Done {
                self.at(EnterStage::End(stop))
            } else {
                self.at(EnterStage::Failed)
            },
            EnterStage::End(stop) => if seen != Seen::Done {
                self.at(EnterStage::Failed)
            } else if !goes_on(stop) {
                self.at(EnterStage::Stopped { stop, waits: calls(stop) })
            } else if self.turns + 1 < MOST_TURNS {
                Entry { turns: (self.turns + 1) as u64, ..self }.at(EnterStage::Begin)
            } else {
                self.at(EnterStage::Failed)
            },
            EnterStage::Stopped { .. } | EnterStage::Failed => self,
        }
    }

    /// An entry before its first turn.
    pub fn new(who: Who) -> (entry: Entry)
        ensures
            entry == (Entry { who, turns: 0, stage: EnterStage::Begin }),
            entry.well_formed(),
    {
        Entry { who, turns: 0, stage: EnterStage::Begin }
    }

    /// What is asked next; nothing once the thread stopped.
    pub fn next(&self) -> (act: Option<Act>)
        ensures
            act == self.question(),
    {
        match self.stage {
            EnterStage::Begin => Some(Act::BeginTurn { millis: 20, steps: 2 }),
            EnterStage::Dispatch => Some(Act::Dispatch(self.who)),
            EnterStage::Run => Some(Act::ResumeInTurn(self.who)),
            EnterStage::StopProcess(_) => Some(Act::StopProcess(Holder::Own)),
            EnterStage::Park(stop) => {
                if is_call(stop) {
                    Some(Act::Block(self.who))
                } else {
                    Some(Act::Yield(self.who))
                }
            },
            EnterStage::End(_) => Some(Act::EndTurn),
            EnterStage::Stopped { .. } | EnterStage::Failed => None,
        }
    }

    /// Take the answer to what was asked last.
    pub fn observe(&mut self, seen: Seen)
        requires
            old(self).well_formed(),
        ensures
            *final(self) == old(self).after(seen),
            final(self).well_formed(),
    {
        let stage = match self.stage {
            EnterStage::Begin => match seen {
                Seen::Holder(Holder::Own) => EnterStage::Dispatch,
                _ => EnterStage::Failed,
            },
            EnterStage::Dispatch => match seen {
                Seen::Done => EnterStage::Run,
                _ => EnterStage::Failed,
            },
            EnterStage::Run => match seen {
                Seen::Stop(stop) => match stop {
                    Stop::Faulted(_) | Stop::Exited(_) => EnterStage::StopProcess(Some(stop)),
                    _ => EnterStage::Park(stop),
                },
                _ => EnterStage::StopProcess(None),
            },
            EnterStage::StopProcess(how) => match (how, seen) {
                (Some(stop), Seen::Done) => EnterStage::Stopped { stop, waits: false },
                _ => EnterStage::Failed,
            },
            EnterStage::Park(stop) => match seen {
                Seen::Done => EnterStage::End(stop),
                _ => EnterStage::Failed,
            },
            EnterStage::End(stop) => match seen {
                Seen::Done => {
                    if !matches!(stop, Stop::Preempted | Stop::Expired) {
                        EnterStage::Stopped { stop, waits: is_call(stop) }
                    } else if self.turns + 1 < MOST_TURNS {
                        self.turns = self.turns + 1;
                        EnterStage::Begin
                    } else {
                        EnterStage::Failed
                    }
                },
                _ => EnterStage::Failed,
            },
            EnterStage::Stopped { stop, waits } => EnterStage::Stopped { stop, waits },
            EnterStage::Failed => EnterStage::Failed,
        };
        self.stage = stage;
    }

    /// How the entry ended, as the answer to the question to enter.
    pub open spec fn report(self) -> Option<Seen> {
        match self.stage {
            EnterStage::Stopped { stop, .. } => Some(Seen::Stop(stop)),
            EnterStage::Failed => Some(Seen::Refused(crate::probe::words::Refusal::Other)),
            _ => None,
        }
    }

    /// Report how the entry ended; nothing while it goes on.
    pub fn outcome(&self) -> (seen: Option<Seen>)
        ensures
            seen == self.report(),
    {
        match self.stage {
            EnterStage::Stopped { stop, .. } => Some(Seen::Stop(stop)),
            EnterStage::Failed => Some(Seen::Refused(crate::probe::words::Refusal::Other)),
            _ => None,
        }
    }

    /// Answers that can still be taken, at most.
    pub open spec fn patience(self) -> int {
        let place = match self.stage {
            EnterStage::Begin => 6int,
            EnterStage::Dispatch => 5,
            EnterStage::Run => 4,
            EnterStage::Park(_) => 3,
            EnterStage::End(_) => 2,
            EnterStage::StopProcess(_) => 1,
            EnterStage::Stopped { .. } | EnterStage::Failed => 0,
        };
        if place == 0 {
            0
        } else {
            place + 6 * (MOST_TURNS - self.turns)
        }
    }
}

/// An entry comes to an end: each answer uses up some patience, whatever it is.
pub proof fn entries_come_to_an_end(entry: Entry, seen: Seen)
    requires
        entry.well_formed(),
        entry.question() is Some,
    ensures
        0 <= entry.after(seen).patience() < entry.patience(),
{
}

/// Only a thread that made a call waits, and a process whose thread faulted
/// or exited was stopped.
pub proof fn only_callers_wait(entry: Entry, seen: Seen)
    requires
        entry.well_formed(),
        entry.question() is Some,
    ensures
        entry.after(seen).stage matches EnterStage::Stopped { stop, waits } ==> {
            &&& waits == calls(stop)
            &&& waits ==> !ends_process(stop)
            &&& ends_process(stop) ==> entry.question() == Some(Act::StopProcess(Holder::Own))
                && seen == Seen::Done
        },
{
}

/// A thread is entered in a turn of its own process. A stop that ends the process
/// stops it; a caller is blocked and any other thread yields before the turn
/// ends; and only a thread whose time ran out is entered again, at most sixteen
/// times.
pub proof fn entries_go_step_by_step(entry: Entry, seen: Seen, stop: Stop)
    requires
        entry.well_formed(),
    ensures
        entry.stage == EnterStage::Begin ==> entry.question() == Some(
            Act::BeginTurn { millis: 20, steps: 2 },
        ) && (entry.after(seen).stage == EnterStage::Dispatch <==> seen == Seen::Holder(
            Holder::Own,
        )),
        entry.stage == EnterStage::Dispatch ==> entry.question() == Some(Act::Dispatch(entry.who))
            && (entry.after(seen).stage == EnterStage::Run <==> seen == Seen::Done),
        entry.stage == EnterStage::Run ==> {
            let next = entry.after(Seen::Stop(stop));
            let ends = stop is Faulted || stop is Exited;
            &&& entry.question() == Some(Act::ResumeInTurn(entry.who))
            &&& ends ==> next.stage == EnterStage::StopProcess(Some(stop))
            &&& !ends ==> next.stage == EnterStage::Park(stop)
        },
        (entry.stage matches EnterStage::Park(stop) ==> {
            let caller = stop == Stop::HandleCall || stop == Stop::HeapGrowth;
            &&& caller ==> entry.question() == Some(Act::Block(entry.who))
            &&& !caller ==> entry.question() == Some(Act::Yield(entry.who))
            &&& entry.after(Seen::Done).stage == EnterStage::End(stop)
        }),
        (entry.stage matches EnterStage::End(stop) ==> {
            let next = entry.after(Seen::Done);
            let again = stop == Stop::Preempted || stop == Stop::Expired;
            &&& entry.question() == Some(Act::EndTurn)
            &&& again && entry.turns < 15 ==> next.stage == EnterStage::Begin && next.turns
                == entry.turns + 1
            &&& again && entry.turns == 15 ==> next.stage == EnterStage::Failed
            &&& !again ==> (next.stage matches EnterStage::Stopped { stop: kept, waits } && kept
                == stop && waits == (stop == Stop::HandleCall || stop == Stop::HeapGrowth))
        }),
        (entry.stage matches EnterStage::StopProcess(Some(stop)) ==> entry.question() == Some(
            Act::StopProcess(Holder::Own),
        ) && entry.after(Seen::Done).stage == (EnterStage::Stopped { stop, waits: false })),
        (entry.stage matches EnterStage::Stopped { stop, .. } ==> entry.report() == Some(
            Seen::Stop(stop),
        )),
{
}

} // verus!
