//! Two threads that take turns: each is run until it gives up the processor,
//! then its message and its counter are checked.

use crate::probe::layout::{
    marker, FIRST_COUNTER, SECOND_COUNTER, SHARED_COUNTER,
};
use crate::probe::words::{Act, Payload, Resumed, Seen, Stop, Who};
use vstd::prelude::*;

verus! {

/// Rounds that the threads take.
pub const ROUNDS: u64 = 16;

/// Most preemptions of a thread.
pub const MOST_PREEMPTIONS: u64 = 128;

/// What is asked next of the thread whose turn it is.
#[derive(Clone, Copy, Debug, PartialEq, Eq, Structural)]
pub enum TurnStage {
    /// To be made the running one.
    Dispatch,
    /// To run.
    Run,
    /// To be made ready again after it stopped.
    Ready {
        /// Whether it gave up the processor itself.
        yielded: bool,
    },
    /// Its message.
    Read,
    /// To take a reply.
    Answer,
    /// Its counter.
    Count,
    /// The shared counter.
    Total,
    /// Nothing: all rounds are over.
    Passed,
    /// Nothing: something unexpected was seen.
    Failed,
}

/// Threads taking turns.
#[derive(Clone, Copy, Debug, PartialEq, Eq, Structural)]
pub struct Turns {
    /// Round.
    pub round: u64,
    /// Whether it is the sibling's turn.
    pub second: bool,
    /// Whether the thread is sent on after a preemption.
    pub preempted: bool,
    /// Preemptions of the first thread.
    pub first_preemptions: u64,
    /// Preemptions of the sibling.
    pub second_preemptions: u64,
    /// What is asked next.
    pub stage: TurnStage,
}

/// The reply to a thread at the end of its turn.
pub open spec fn reply_word(second: bool, round: int) -> int {
    marker(second) + round + 1
}

impl Turns {
    /// Whose turn it is.
    pub open spec fn turn_of(self) -> Who {
        if self.second {
            Who::Second
        } else {
            Who::First
        }
    }

    /// Rounds and preemptions are within their limits.
    pub open spec fn well_formed(self) -> bool {
        &&& self.round <= ROUNDS
        &&& self.first_preemptions <= MOST_PREEMPTIONS + 1
        &&& self.second_preemptions <= MOST_PREEMPTIONS + 1
        &&& self.stage != TurnStage::Passed && self.stage != TurnStage::Failed ==> {
            &&& self.round < ROUNDS
            &&& self.first_preemptions <= MOST_PREEMPTIONS
            &&& self.second_preemptions <= MOST_PREEMPTIONS
        }
    }

    /// What is asked.
    pub open spec fn question(self) -> Option<Act> {
        match self.stage {
            TurnStage::Dispatch => Some(Act::Dispatch(self.turn_of())),
            TurnStage::Run => Some(
                Act::Resume {
                    who: self.turn_of(),
                    how: if self.preempted {
                        Resumed::Timeslice
                    } else {
                        Resumed::Yield
                    },
                    millis: 50,
                },
            ),
            TurnStage::Ready { .. } => Some(Act::Yield(self.turn_of())),
            TurnStage::Read => Some(Act::CopyTx { who: self.turn_of(), bytes: 8 }),
            TurnStage::Answer => Some(
                Act::Publish {
                    who: self.turn_of(),
                    payload: Payload::Word(reply_word(self.second, self.round as int) as u64),
                },
            ),
            TurnStage::Count => Some(
                Act::Word(
                    if self.second {
                        SECOND_COUNTER
                    } else {
                        FIRST_COUNTER
                    },
                ),
            ),
            TurnStage::Total => Some(Act::Word(SHARED_COUNTER)),
            TurnStage::Passed | TurnStage::Failed => None,
        }
    }

    /// The turns after something unexpected.
    pub open spec fn failed(self) -> Turns {
        Turns { stage: TurnStage::Failed, ..self }
    }

    /// The turns at another stage.
    pub open spec fn at(self, stage: TurnStage) -> Turns {
        Turns { stage, ..self }
    }

    /// The turns after a preemption of the running thread.
    pub open spec fn preempted_once_more(self) -> Turns {
        let counted = if self.second {
            Turns { second_preemptions: (self.second_preemptions + 1) as u64, ..self }
        } else {
            Turns { first_preemptions: (self.first_preemptions + 1) as u64, ..self }
        };
        if counted.first_preemptions > MOST_PREEMPTIONS || counted.second_preemptions
            > MOST_PREEMPTIONS {
            counted.failed()
        } else {
            Turns { preempted: true, ..counted }.at(TurnStage::Dispatch)
        }
    }

    /// The turns after an answer.
    pub open spec fn after(self, seen: Seen) -> Turns {
        match self.stage {
            TurnStage::Dispatch => if seen == Seen::Done {
                self.at(TurnStage::Run)
            } else {
                self.failed()
            },
            TurnStage::Run => match seen {
                Seen::Stop(Stop::Yielded) => self.at(TurnStage::Ready { yielded: true }),
                Seen::Stop(Stop::Preempted) => self.at(TurnStage::Ready { yielded: false }),
                _ => self.failed(),
            },
            TurnStage::Ready { yielded } => if seen != Seen::Done {
                self.failed()
            } else if yielded {
                self.at(TurnStage::Read)
            } else {
                self.preempted_once_more()
            },
            TurnStage::Read => if seen == Seen::Number(marker(self.second)) {
                self.at(TurnStage::Answer)
            } else {
                self.failed()
            },
            TurnStage::Answer => if seen == Seen::Done {
                self.at(TurnStage::Count)
            } else {
                self.failed()
            },
            TurnStage::Count => if seen != Seen::Number((self.round + 1) as u64) {
                self.failed()
            } else if self.second {
                self.at(TurnStage::Total)
            } else {
                Turns { second: true, preempted: self.round == 0, ..self }.at(TurnStage::Dispatch)
            },
            TurnStage::Total => if seen != Seen::Number((2 * (self.round + 1)) as u64) {
                self.failed()
            } else {
                let next = Turns {
                    round: (self.round + 1) as u64,
                    second: false,
                    preempted: false,
                    ..self
                };
                if next.round == ROUNDS {
                    next.at(TurnStage::Passed)
                } else {
                    next.at(TurnStage::Dispatch)
                }
            },
            TurnStage::Passed | TurnStage::Failed => self,
        }
    }

    /// Both threads were preempted once before; nobody had a turn.
    pub fn new() -> (turns: Turns)
        ensures
            turns == (Turns {
                round: 0,
                second: false,
                preempted: true,
                first_preemptions: 1,
                second_preemptions: 1,
                stage: TurnStage::Dispatch,
            }),
            turns.well_formed(),
    {
        Turns {
            round: 0,
            second: false,
            preempted: true,
            first_preemptions: 1,
            second_preemptions: 1,
            stage: TurnStage::Dispatch,
        }
    }

    fn who(&self) -> (who: Who)
        ensures
            who == self.turn_of(),
    {
        if self.second {
            Who::Second
        } else {
            Who::First
        }
    }

    /// What is asked next; nothing once the turns are over.
    pub fn next(&self) -> (act: Option<Act>)
        requires
            self.well_formed(),
        ensures
            act == self.question(),
    {
        let who = self.who();
        match self.stage {
            TurnStage::Dispatch => Some(Act::Dispatch(who)),
            TurnStage::Run => {
                let how = if self.preempted {
                    Resumed::Timeslice
                } else {
                    Resumed::Yield
                };
                Some(Act::Resume { who, how, millis: 50 })
            },
            TurnStage::Ready { .. } => Some(Act::Yield(who)),
            TurnStage::Read => Some(Act::CopyTx { who, bytes: 8 }),
            TurnStage::Answer => {
                let own: u64 = if self.second {
                    22
                } else {
                    11
                };
                Some(Act::Publish { who, payload: Payload::Word(own + self.round + 1) })
            },
            TurnStage::Count => Some(
                Act::Word(
                    if self.second {
                        SECOND_COUNTER
                    } else {
                        FIRST_COUNTER
                    },
                ),
            ),
            TurnStage::Total => Some(Act::Word(SHARED_COUNTER)),
            TurnStage::Passed | TurnStage::Failed => None,
        }
    }

    /// Take the answer to what was asked last.
    pub fn observe(&mut self, seen: Seen)
        requires
            old(self).well_formed(),
        ensures
            *final(self) == old(self).after(seen),
            final(self).well_formed(),
    {
        let own: u64 = if self.second {
            22
        } else {
            11
        };
        let stage = match self.stage {
            TurnStage::Dispatch => if seen == Seen::Done {
                TurnStage::Run
            } else {
                TurnStage::Failed
            },
            TurnStage::Run => match seen {
                Seen::Stop(Stop::Yielded) => TurnStage::Ready { yielded: true },
                Seen::Stop(Stop::Preempted) => TurnStage::Ready { yielded: false },
                _ => TurnStage::Failed,
            },
            TurnStage::Ready { yielded } => if seen != Seen::Done {
                TurnStage::Failed
            } else if yielded {
                TurnStage::Read
            } else {
                if self.second {
                    self.second_preemptions = self.second_preemptions + 1;
                } else {
                    self.first_preemptions = self.first_preemptions + 1;
                }
                if self.first_preemptions > MOST_PREEMPTIONS || self.second_preemptions
                    > MOST_PREEMPTIONS {
                    TurnStage::Failed
                } else {
                    self.preempted = true;
                    TurnStage::Dispatch
                }
            },
            TurnStage::Read => if seen == Seen::Number(own) {
                TurnStage::Answer
            } else {
                TurnStage::Failed
            },
            TurnStage::Answer => if seen == Seen::Done {
                TurnStage::Count
            } else {
                TurnStage::Failed
            },
            TurnStage::Count => if seen != Seen::Number(self.round + 1) {
                TurnStage::Failed
            } else if self.second {
                TurnStage::Total
            } else {
                self.second = true;
                self.preempted = self.round == 0;
                TurnStage::Dispatch
            },
            TurnStage::Total => if seen != Seen::Number(2 * (self.round + 1)) {
                TurnStage::Failed
            } else {
                self.round = self.round + 1;
                self.second = false;
                self.preempted = false;
                if self.round == ROUNDS {
                    TurnStage::Passed
                } else {
                    TurnStage::Dispatch
                }
            },
            TurnStage::Passed => TurnStage::Passed,
            TurnStage::Failed => TurnStage::Failed,
        };
        self.stage = stage;
    }

    /// Whether all rounds went as expected.
    pub fn passed(&self) -> (yes: bool)
        ensures
            yes == (self.stage == TurnStage::Passed),
    {
        matches!(self.stage, TurnStage::Passed)
    }

    /// Answers that can still be taken, at most.
    pub open spec fn patience(self) -> int {
        let place = match self.stage {
            TurnStage::Dispatch => 7int,
            TurnStage::Run => 6,
            TurnStage::Ready { .. } => 5,
            TurnStage::Read => 4,
            TurnStage::Answer => 3,
            TurnStage::Count => 2,
            TurnStage::Total => 1,
            TurnStage::Passed | TurnStage::Failed => 0,
        };
        let turns_left = 2 * (ROUNDS - self.round) - if self.second {
            1int
        } else {
            0
        };
        if place == 0 {
            0
        } else {
            place + 7 * turns_left + 3 * (2 * MOST_PREEMPTIONS + 1 - self.first_preemptions
                - self.second_preemptions)
        }
    }
}

/// Turns come to an end: each answer uses up some patience, whatever it is.
pub proof fn turns_come_to_an_end(turns: Turns, seen: Seen)
    requires
        turns.well_formed(),
        turns.question() is Some,
    ensures
        0 <= turns.after(seen).patience() < turns.patience(),
{
}

/// While turns go on, the counters that were checked are what the rounds
/// before left: passing takes all rounds.
pub proof fn passing_takes_all_rounds(turns: Turns, seen: Seen)
    requires
        turns.well_formed(),
        turns.stage != TurnStage::Passed,
        turns.after(seen).stage == TurnStage::Passed,
    ensures
        turns.round == ROUNDS - 1,
        turns.second || turns.stage == TurnStage::Total,
        seen == Seen::Number((2 * ROUNDS) as u64),
{
}

/// Both threads take turns for sixteen rounds. Each is dispatched, runs, is made
/// ready again, leaves its own number and is answered with that number and the
/// round; then its count is the rounds it took, and that of both twice as many.
pub proof fn turns_go_step_by_step(turns: Turns, seen: Seen)
    requires
        turns.well_formed(),
    ensures
        ({
            let who = if turns.second {
                Who::Second
            } else {
                Who::First
            };
            let number: u64 = if turns.second {
                22
            } else {
                11
            };
            let next = turns.after(seen);
            &&& turns.stage == TurnStage::Dispatch ==> turns.question() == Some(Act::Dispatch(who))
                && (next.stage == TurnStage::Run <==> seen == Seen::Done)
            &&& turns.stage == TurnStage::Run ==> {
                &&& turns.preempted ==> turns.question() == Some(
                    Act::Resume { who, how: Resumed::Timeslice, millis: 50 },
                )
                &&& !turns.preempted ==> turns.question() == Some(
                    Act::Resume { who, how: Resumed::Yield, millis: 50 },
                )
                &&& seen == Seen::Stop(Stop::Yielded) <==> next.stage == (TurnStage::Ready {
                    yielded: true,
                })
                &&& seen == Seen::Stop(Stop::Preempted) <==> next.stage == (TurnStage::Ready {
                    yielded: false,
                })
            }
            &&& turns.stage is Ready ==> turns.question() == Some(Act::Yield(who))
            &&& turns.stage == (TurnStage::Ready { yielded: true }) && seen == Seen::Done
                ==> next.stage == TurnStage::Read
            &&& turns.stage == TurnStage::Read ==> turns.question() == Some(
                Act::CopyTx { who, bytes: 8 },
            ) && (next.stage == TurnStage::Answer <==> seen == Seen::Number(number))
            &&& turns.stage == TurnStage::Answer ==> (turns.question() matches Some(
                Act::Publish { who: to, payload: Payload::Word(word) },
            ) && to == who && word == number + turns.round + 1) && (next.stage == TurnStage::Count
                <==> seen == Seen::Done)
            &&& turns.stage == TurnStage::Count ==> {
                let right = seen matches Seen::Number(count) && count == turns.round + 1;
                &&& !turns.second ==> turns.question() == Some(Act::Word(0x4000_0001_6010))
                &&& turns.second ==> turns.question() == Some(Act::Word(0x4000_0001_9010))
                &&& right && !turns.second ==> next.stage == TurnStage::Dispatch && next.second
                    && next.round == turns.round && next.preempted == (turns.round == 0)
                &&& right && turns.second ==> next.stage == TurnStage::Total
                &&& !right ==> next.stage == TurnStage::Failed
            }
            &&& turns.stage == TurnStage::Total ==> {
                let right = seen matches Seen::Number(count) && count == 2 * turns.round + 2;
                &&& turns.question() == Some(Act::Word(0x4000_0000_1010))
                &&& right && turns.round < 15 ==> next.stage == TurnStage::Dispatch && !next.second
                    && next.round == turns.round + 1
                &&& right && turns.round == 15 ==> next.stage == TurnStage::Passed
                &&& !right ==> next.stage == TurnStage::Failed
            }
        }),
{
}

/// A thread whose time ran out goes on in the same round; after 128 of these a
/// thread fails.
pub proof fn preempted_threads_go_on(turns: Turns)
    requires
        turns.well_formed(),
        turns.stage == (TurnStage::Ready { yielded: false }),
    ensures
        ({
            let next = turns.after(Seen::Done);
            &&& next.round == turns.round && next.second == turns.second
            &&& !turns.second ==> next.first_preemptions == turns.first_preemptions + 1
                && next.second_preemptions == turns.second_preemptions
            &&& turns.second ==> next.second_preemptions == turns.second_preemptions + 1
                && next.first_preemptions == turns.first_preemptions
            &&& next.first_preemptions <= 128 && next.second_preemptions <= 128 <==> next.stage
                == TurnStage::Dispatch
            &&& next.stage == TurnStage::Dispatch ==> next.preempted
        }),
{
}

} // verus!
