//! Two processes that take turns: however many threads a process has, the
//! turns alternate, and nobody runs in the turn of another.

use crate::probe::layout::{FIRST_COUNTER, SECOND_COUNTER, SHARED_COUNTER};
use crate::probe::words::{Act, Holder, Seen, Stop, Who};
use vstd::prelude::*;

verus! {

/// Turns that are watched.
pub const WATCHED_TURNS: u64 = 8;

/// Threads that are chosen in a turn, at most.
pub const CHOICES: u64 = 2;

/// What is asked next.
#[derive(Clone, Copy, Debug, PartialEq, Eq, Structural)]
pub enum RotationStage {
    /// A turn.
    Begin,
    /// When the turn is over.
    Deadline,
    /// A thread for the turn.
    Choose,
    /// What the other process counted before.
    CountBefore,
    /// To run the thread.
    Run,
    /// What the thread counted.
    Counted,
    /// To make the thread ready.
    Ready,
    /// When the turn is over, once more.
    DeadlineAgain,
    /// What the other process counted afterwards.
    CountAfter,
    /// How many steps are left.
    StepsLeft,
    /// To choose a thread although no step is left.
    Overdraw,
    /// The work done before.
    WorkBefore,
    /// To run the thread although no step is left.
    OverdrawRun,
    /// The work done afterwards.
    WorkAfter,
    /// To make the thread ready again.
    OverdrawReady,
    /// To end the turn.
    End,
    /// Nothing: all turns went as expected.
    Passed,
    /// Nothing: something unexpected was seen.
    Failed,
}

/// Turns of two processes.
#[derive(Clone, Copy, Debug, PartialEq, Eq, Structural)]
pub struct Rotation {
    /// Turn.
    pub turn: u64,
    /// Threads chosen in this turn.
    pub chosen: u64,
    /// The thread that was chosen last.
    pub who: Who,
    /// How often the first thread gave up the processor.
    pub first: u64,
    /// How often its sibling did.
    pub second: u64,
    /// How often the thread of the other process did.
    pub foreign: u64,
    /// When the turn is over.
    pub deadline: u64,
    /// What the other process counted.
    pub counted: u64,
    /// Work done.
    pub work: u64,
    /// What is asked next.
    pub stage: RotationStage,
}

/// Whose turn it is: the process with one thread goes first.
pub open spec fn turn_of(turn: int) -> Holder {
    if turn % 2 == 0 {
        Holder::Other
    } else {
        Holder::Own
    }
}

/// Which process a thread belongs to.
pub open spec fn process_of(who: Who) -> Option<Holder> {
    match who {
        Who::First | Who::Second => Some(Holder::Own),
        Who::Foreign => Some(Holder::Other),
        Who::Third | Who::Former => None,
    }
}

/// The initial thread of a process.
pub open spec fn initial_of(holder: Holder) -> Who {
    match holder {
        Holder::Own => Who::First,
        Holder::Other => Who::Foreign,
    }
}

/// The counter of the process whose turn it is not.
pub open spec fn idle_counter(holder: Holder) -> Act {
    match holder {
        Holder::Own => Act::OtherWord(SHARED_COUNTER),
        Holder::Other => Act::Word(SHARED_COUNTER),
    }
}

/// A thread's own counter.
pub open spec fn own_counter(who: Who) -> Act {
    match who {
        Who::First => Act::Word(FIRST_COUNTER),
        Who::Second => Act::Word(SECOND_COUNTER),
        _ => Act::OtherWord(FIRST_COUNTER),
    }
}

impl Rotation {
    /// Whose turn it is.
    pub open spec fn holder(self) -> Holder {
        turn_of(self.turn as int)
    }

    /// How often a thread gave up the processor.
    pub open spec fn yields(self, who: Who) -> u64 {
        match who {
            Who::First => self.first,
            Who::Second => self.second,
            _ => self.foreign,
        }
    }

    /// The rotation after the chosen thread gave up the processor.
    pub open spec fn counting(self) -> Rotation {
        match self.who {
            Who::First => Rotation { first: (self.first + 1) as u64, ..self },
            Who::Second => Rotation { second: (self.second + 1) as u64, ..self },
            _ => Rotation { foreign: (self.foreign + 1) as u64, ..self },
        }
    }

    /// The numbers are within their limits, and a chosen thread belongs to
    /// the process whose turn it is.
    pub open spec fn well_formed(self) -> bool {
        let over = self.stage == RotationStage::Passed || self.stage == RotationStage::Failed;
        let running = self.stage == RotationStage::CountBefore || self.stage == RotationStage::Run
            || self.stage == RotationStage::Counted || self.stage == RotationStage::Ready
            || self.stage == RotationStage::DeadlineAgain || self.stage
            == RotationStage::CountAfter;
        &&& self.turn <= WATCHED_TURNS
        &&& !over ==> self.turn < WATCHED_TURNS
        &&& self.chosen <= CHOICES
        &&& running || self.stage == RotationStage::Choose ==> self.chosen < CHOICES
        &&& self.stage == RotationStage::Begin || self.stage == RotationStage::Deadline
            ==> self.chosen == 0
        &&& running ==> process_of(self.who) == Some(self.holder())
        &&& !over ==> self.first <= 2 * self.turn + self.chosen + 1
        &&& !over ==> self.second <= 2 * self.turn + self.chosen + 1
        &&& !over ==> self.foreign <= 2 * self.turn + self.chosen + 1
        &&& !over && self.stage != RotationStage::Counted && self.stage != RotationStage::Ready
            && self.stage != RotationStage::DeadlineAgain && self.stage
            != RotationStage::CountAfter ==> {
            &&& self.first <= 2 * self.turn + self.chosen
            &&& self.second <= 2 * self.turn + self.chosen
            &&& self.foreign <= 2 * self.turn + self.chosen
        }
    }

    /// What is asked.
    pub open spec fn question(self) -> Option<Act> {
        match self.stage {
            RotationStage::Begin => Some(Act::BeginTurn { millis: 20, steps: 2 }),
            RotationStage::Deadline | RotationStage::DeadlineAgain => Some(Act::Deadline),
            RotationStage::Choose => Some(Act::ChooseSibling),
            RotationStage::CountBefore | RotationStage::CountAfter => Some(
                idle_counter(self.holder()),
            ),
            RotationStage::Run => Some(Act::ResumeInTurn(self.who)),
            RotationStage::Counted => Some(own_counter(self.who)),
            RotationStage::Ready => Some(Act::Yield(self.who)),
            RotationStage::StepsLeft => Some(Act::StepsLeft),
            RotationStage::Overdraw => Some(Act::Dispatch(initial_of(self.holder()))),
            RotationStage::WorkBefore | RotationStage::WorkAfter => Some(Act::Work),
            RotationStage::OverdrawRun => Some(Act::ResumeInTurn(initial_of(self.holder()))),
            RotationStage::OverdrawReady => Some(Act::Yield(initial_of(self.holder()))),
            RotationStage::End => Some(Act::EndTurn),
            RotationStage::Passed | RotationStage::Failed => None,
        }
    }

    /// The rotation at another stage.
    pub open spec fn at(self, stage: RotationStage) -> Rotation {
        Rotation { stage, ..self }
    }

    /// The rotation at another stage, if what was seen is fine.
    pub open spec fn when(self, fine: bool, stage: RotationStage) -> Rotation {
        self.at(
            if fine {
                stage
            } else {
                RotationStage::Failed
            },
        )
    }

    /// The rotation after an answer.
    pub open spec fn after(self, seen: Seen) -> Rotation {
        match self.stage {
            RotationStage::Begin => self.when(
                seen == Seen::Holder(self.holder()),
                RotationStage::Deadline,
            ),
            RotationStage::Deadline => match seen {
                Seen::Number(deadline) => Rotation { deadline, ..self }.at(RotationStage::Choose),
                _ => self.at(RotationStage::Failed),
            },
            RotationStage::Choose => match seen {
                Seen::Who(who) => Rotation { who, ..self }.when(
                    process_of(who) == Some(self.holder()),
                    RotationStage::CountBefore,
                ),
                Seen::Flag(false) => self.at(RotationStage::StepsLeft),
                _ => self.at(RotationStage::Failed),
            },
            RotationStage::CountBefore => match seen {
                Seen::Number(counted) => Rotation { counted, ..self }.at(RotationStage::Run),
                _ => self.at(RotationStage::Failed),
            },
            RotationStage::Run => match seen {
                Seen::Stop(Stop::Yielded) => self.counting().at(RotationStage::Counted),
                Seen::Stop(Stop::Preempted) | Seen::Stop(Stop::Expired) => self.at(
                    RotationStage::Ready,
                ),
                _ => self.at(RotationStage::Failed),
            },
            RotationStage::Counted => self.when(
                seen == Seen::Number(self.yields(self.who)),
                RotationStage::Ready,
            ),
            RotationStage::Ready => self.when(seen == Seen::Done, RotationStage::DeadlineAgain),
            RotationStage::DeadlineAgain => self.when(
                seen == Seen::Number(self.deadline),
                RotationStage::CountAfter,
            ),
            RotationStage::CountAfter => {
                let next = Rotation { chosen: (self.chosen + 1) as u64, ..self };
                if seen != Seen::Number(self.counted) {
                    self.at(RotationStage::Failed)
                } else if next.chosen < CHOICES {
                    next.at(RotationStage::Choose)
                } else {
                    next.at(RotationStage::StepsLeft)
                }
            },
            RotationStage::StepsLeft => match seen {
                Seen::Number(left) => if left == 0 {
                    self.at(RotationStage::Overdraw)
                } else {
                    self.at(RotationStage::End)
                },
                _ => self.at(RotationStage::Failed),
            },
            RotationStage::Overdraw => self.when(seen == Seen::Done, RotationStage::WorkBefore),
            RotationStage::WorkBefore => match seen {
                Seen::Number(work) => Rotation { work, ..self }.at(RotationStage::OverdrawRun),
                _ => self.at(RotationStage::Failed),
            },
            RotationStage::OverdrawRun => self.when(
                seen == Seen::Stop(Stop::Expired),
                RotationStage::WorkAfter,
            ),
            RotationStage::WorkAfter => self.when(
                seen == Seen::Number(self.work),
                RotationStage::OverdrawReady,
            ),
            RotationStage::OverdrawReady => self.when(seen == Seen::Done, RotationStage::End),
            RotationStage::End => {
                let next = Rotation { turn: (self.turn + 1) as u64, chosen: 0, ..self };
                if seen != Seen::Done {
                    self.at(RotationStage::Failed)
                } else if next.turn < WATCHED_TURNS {
                    next.at(RotationStage::Begin)
                } else {
                    next.when(
                        self.first > 0 && self.second > 0 && self.foreign > 0,
                        RotationStage::Passed,
                    )
                }
            },
            RotationStage::Passed | RotationStage::Failed => self,
        }
    }

    /// A rotation before its first turn.
    pub open spec fn begin() -> Rotation {
        Rotation {
            turn: 0,
            chosen: 0,
            who: Who::First,
            first: 0,
            second: 0,
            foreign: 0,
            deadline: 0,
            counted: 0,
            work: 0,
            stage: RotationStage::Begin,
        }
    }

    /// A rotation before its first turn.
    pub fn new() -> (rotation: Rotation)
        ensures
            rotation == Rotation::begin(),
            rotation.well_formed(),
    {
        Rotation {
            turn: 0,
            chosen: 0,
            who: Who::First,
            first: 0,
            second: 0,
            foreign: 0,
            deadline: 0,
            counted: 0,
            work: 0,
            stage: RotationStage::Begin,
        }
    }

    fn owner(&self) -> (holder: Holder)
        ensures
            holder == self.holder(),
    {
        if self.turn % 2 == 0 {
            Holder::Other
        } else {
            Holder::Own
        }
    }

    fn initial(&self) -> (who: Who)
        ensures
            who == initial_of(self.holder()),
    {
        match self.owner() {
            Holder::Own => Who::First,
            Holder::Other => Who::Foreign,
        }
    }

    /// What is asked next; nothing once the turns are over.
    pub fn next(&self) -> (act: Option<Act>)
        ensures
            act == self.question(),
    {
        match self.stage {
            RotationStage::Begin => Some(Act::BeginTurn { millis: 20, steps: 2 }),
            RotationStage::Deadline | RotationStage::DeadlineAgain => Some(Act::Deadline),
            RotationStage::Choose => Some(Act::ChooseSibling),
            RotationStage::CountBefore | RotationStage::CountAfter => match self.owner() {
                Holder::Own => Some(Act::OtherWord(SHARED_COUNTER)),
                Holder::Other => Some(Act::Word(SHARED_COUNTER)),
            },
            RotationStage::Run => Some(Act::ResumeInTurn(self.who)),
            RotationStage::Counted => match self.who {
                Who::First => Some(Act::Word(FIRST_COUNTER)),
                Who::Second => Some(Act::Word(SECOND_COUNTER)),
                _ => Some(Act::OtherWord(FIRST_COUNTER)),
            },
            RotationStage::Ready => Some(Act::Yield(self.who)),
            RotationStage::StepsLeft => Some(Act::StepsLeft),
            RotationStage::Overdraw => Some(Act::Dispatch(self.initial())),
            RotationStage::WorkBefore | RotationStage::WorkAfter => Some(Act::Work),
            RotationStage::OverdrawRun => Some(Act::ResumeInTurn(self.initial())),
            RotationStage::OverdrawReady => Some(Act::Yield(self.initial())),
            RotationStage::End => Some(Act::EndTurn),
            RotationStage::Passed | RotationStage::Failed => None,
        }
    }

    fn belongs(&self, who: Who) -> (yes: bool)
        ensures
            yes == (process_of(who) == Some(self.holder())),
    {
        match (who, self.owner()) {
            (Who::First, Holder::Own) | (Who::Second, Holder::Own) | (
                Who::Foreign,
                Holder::Other,
            ) => true,
            _ => false,
        }
    }

    fn own_yields(&self) -> (count: u64)
        ensures
            count == self.yields(self.who),
    {
        match self.who {
            Who::First => self.first,
            Who::Second => self.second,
            _ => self.foreign,
        }
    }

    /// Take the answer to what was asked last.
    #[verifier::rlimit(40)]
    pub fn observe(&mut self, seen: Seen)
        requires
            old(self).well_formed(),
        ensures
            *final(self) == old(self).after(seen),
            final(self).well_formed(),
    {
        let stage = match (self.stage, seen) {
            (RotationStage::Begin, Seen::Holder(holder)) if holder == self.owner() => {
                RotationStage::Deadline
            },
            (RotationStage::Deadline, Seen::Number(deadline)) => {
                self.deadline = deadline;
                RotationStage::Choose
            },
            (RotationStage::Choose, Seen::Who(who)) => {
                self.who = who;
                if self.belongs(who) {
                    RotationStage::CountBefore
                } else {
                    RotationStage::Failed
                }
            },
            (RotationStage::Choose, Seen::Flag(found)) if !found => RotationStage::StepsLeft,
            (RotationStage::CountBefore, Seen::Number(counted)) => {
                self.counted = counted;
                RotationStage::Run
            },
            (RotationStage::Run, Seen::Stop(Stop::Yielded)) => {
                match self.who {
                    Who::First => {
                        self.first = self.first + 1;
                    },
                    Who::Second => {
                        self.second = self.second + 1;
                    },
                    _ => {
                        self.foreign = self.foreign + 1;
                    },
                }
                RotationStage::Counted
            },
            (RotationStage::Run, Seen::Stop(Stop::Preempted)) => RotationStage::Ready,
            (RotationStage::Run, Seen::Stop(Stop::Expired)) => RotationStage::Ready,
            (RotationStage::Counted, Seen::Number(count)) if count == self.own_yields() => {
                RotationStage::Ready
            },
            (RotationStage::Ready, Seen::Done) => RotationStage::DeadlineAgain,
            (RotationStage::DeadlineAgain, Seen::Number(number)) if number == self.deadline => {
                RotationStage::CountAfter
            },
            (RotationStage::CountAfter, Seen::Number(number)) if number == self.counted => {
                self.chosen = self.chosen + 1;
                if self.chosen < CHOICES {
                    RotationStage::Choose
                } else {
                    RotationStage::StepsLeft
                }
            },
            (RotationStage::StepsLeft, Seen::Number(left)) => {
                if left == 0 {
                    RotationStage::Overdraw
                } else {
                    RotationStage::End
                }
            },
            (RotationStage::Overdraw, Seen::Done) => RotationStage::WorkBefore,
            (RotationStage::WorkBefore, Seen::Number(work)) => {
                self.work = work;
                RotationStage::OverdrawRun
            },
            (RotationStage::OverdrawRun, Seen::Stop(Stop::Expired)) => RotationStage::WorkAfter,
            (RotationStage::WorkAfter, Seen::Number(number)) if number == self.work => {
                RotationStage::OverdrawReady
            },
            (RotationStage::OverdrawReady, Seen::Done) => RotationStage::End,
            (RotationStage::End, Seen::Done) => {
                self.turn = self.turn + 1;
                self.chosen = 0;
                if self.turn < WATCHED_TURNS {
                    RotationStage::Begin
                } else if self.first > 0 && self.second > 0 && self.foreign > 0 {
                    RotationStage::Passed
                } else {
                    RotationStage::Failed
                }
            },
            (RotationStage::Passed, _) => RotationStage::Passed,
            _ => RotationStage::Failed,
        };
        self.stage = stage;
    }

    /// Whether all turns went as expected.
    pub fn passed(&self) -> (yes: bool)
        ensures
            yes == (self.stage == RotationStage::Passed),
    {
        matches!(self.stage, RotationStage::Passed)
    }

    /// Answers that can still be taken, at most.
    pub open spec fn patience(self) -> int {
        let place = match self.stage {
            RotationStage::Begin => 32int,
            RotationStage::Deadline => 31,
            RotationStage::Choose => 30,
            RotationStage::CountBefore => 29,
            RotationStage::Run => 28,
            RotationStage::Counted => 27,
            RotationStage::Ready => 26,
            RotationStage::DeadlineAgain => 25,
            RotationStage::CountAfter => 24,
            RotationStage::StepsLeft => 7,
            RotationStage::Overdraw => 6,
            RotationStage::WorkBefore => 5,
            RotationStage::OverdrawRun => 4,
            RotationStage::WorkAfter => 3,
            RotationStage::OverdrawReady => 2,
            RotationStage::End => 1,
            RotationStage::Passed | RotationStage::Failed => 0,
        };
        if place == 0 {
            0
        } else {
            place + 60 * (WATCHED_TURNS - self.turn) - 7 * self.chosen
        }
    }
}

/// The rotation comes to an end: each answer uses up some patience, whatever
/// it is.
pub proof fn rotations_come_to_an_end(rotation: Rotation, seen: Seen)
    requires
        rotation.well_formed(),
        rotation.question() is Some,
    ensures
        0 <= rotation.after(seen).patience() < rotation.patience(),
{
}

/// A process that has a turn does not have the next, and no thread of the
/// process without a turn runs.
pub proof fn turns_alternate(rotation: Rotation)
    requires
        rotation.well_formed(),
    ensures
        turn_of(rotation.turn as int) != turn_of(rotation.turn + 1),
        rotation.question() matches Some(Act::ResumeInTurn(who)) ==> process_of(who) == Some(
            rotation.holder(),
        ),
{
}

/// A rotation that passed saw every thread give up the processor.
pub proof fn nobody_starves(rotation: Rotation, seen: Seen)
    requires
        rotation.well_formed(),
        rotation.stage != RotationStage::Passed,
        rotation.after(seen).stage == RotationStage::Passed,
    ensures
        rotation.first > 0 && rotation.second > 0 && rotation.foreign > 0,
        rotation.turn == WATCHED_TURNS - 1,
{
}

/// Processes take turns, the other one first. In a turn at most two threads of the
/// process are chosen and run; the idle process does not count on meanwhile and
/// the deadline of the turn stays. Without steps left, a dispatched thread does no
/// work. Eight turns are watched, and in them every thread has yielded.
pub proof fn rotations_go_step_by_step(rotation: Rotation, seen: Seen)
    requires
        rotation.well_formed(),
    ensures
        ({
            let next = rotation.after(seen);
            let holder = if rotation.turn % 2 == 0 {
                Holder::Other
            } else {
                Holder::Own
            };
            let initial = if rotation.turn % 2 == 0 {
                Who::Foreign
            } else {
                Who::First
            };
            &&& rotation.stage == RotationStage::Begin ==> rotation.question() == Some(
                Act::BeginTurn { millis: 20, steps: 2 },
            ) && (next.stage == RotationStage::Deadline <==> seen == Seen::Holder(holder))
            &&& rotation.stage == RotationStage::Deadline ==> (seen matches Seen::Number(deadline)
                ==> next.stage == RotationStage::Choose && next.deadline == deadline)
            &&& rotation.stage == RotationStage::Choose ==> {
                &&& rotation.question() == Some(Act::ChooseSibling)
                &&& seen == Seen::Flag(false) ==> next.stage == RotationStage::StepsLeft
                &&& (seen matches Seen::Who(who) ==> next.who == who && (next.stage
                    == RotationStage::CountBefore <==> (if holder == Holder::Own {
                    who == Who::First || who == Who::Second
                } else {
                    who == Who::Foreign
                })))
            }
            &&& rotation.stage == RotationStage::CountBefore || rotation.stage
                == RotationStage::CountAfter ==> rotation.question() == Some(
                if holder == Holder::Own {
                    Act::OtherWord(0x4000_0000_1010)
                } else {
                    Act::Word(0x4000_0000_1010)
                },
            )
            &&& rotation.stage == RotationStage::CountBefore ==> (seen matches Seen::Number(counted)
                ==> next.stage == RotationStage::Run && next.counted == counted)
            &&& rotation.stage == RotationStage::Run ==> {
                &&& rotation.question() == Some(Act::ResumeInTurn(rotation.who))
                &&& seen == Seen::Stop(Stop::Yielded) ==> next.stage == RotationStage::Counted
                    && next.yields(rotation.who) == rotation.yields(rotation.who) + 1
                &&& seen == Seen::Stop(Stop::Preempted) || seen == Seen::Stop(Stop::Expired)
                    ==> next.stage == RotationStage::Ready && next.first == rotation.first
                    && next.second == rotation.second && next.foreign == rotation.foreign
            }
            &&& rotation.stage == RotationStage::Counted ==> (next.stage == RotationStage::Ready
                <==> seen == Seen::Number(rotation.yields(rotation.who)))
            &&& rotation.stage == RotationStage::Ready ==> rotation.question() == Some(
                Act::Yield(rotation.who),
            ) && (next.stage == RotationStage::DeadlineAgain <==> seen == Seen::Done)
            &&& rotation.stage == RotationStage::DeadlineAgain ==> (next.stage
                == RotationStage::CountAfter <==> seen == Seen::Number(rotation.deadline))
            &&& rotation.stage == RotationStage::CountAfter ==> {
                &&& seen == Seen::Number(rotation.counted) && rotation.chosen == 0 ==> next.stage
                    == RotationStage::Choose && next.chosen == 1
                &&& seen == Seen::Number(rotation.counted) && rotation.chosen == 1 ==> next.stage
                    == RotationStage::StepsLeft
                &&& seen != Seen::Number(rotation.counted) ==> next.stage == RotationStage::Failed
            }
            &&& rotation.stage == RotationStage::StepsLeft ==> (seen matches Seen::Number(left)
                ==> if left == 0 {
                next.stage == RotationStage::Overdraw
            } else {
                next.stage == RotationStage::End
            })
            &&& rotation.stage == RotationStage::Overdraw ==> rotation.question() == Some(
                Act::Dispatch(initial),
            ) && (next.stage == RotationStage::WorkBefore <==> seen == Seen::Done)
            &&& rotation.stage == RotationStage::WorkBefore ==> (seen matches Seen::Number(work)
                ==> next.stage == RotationStage::OverdrawRun && next.work == work)
            &&& rotation.stage == RotationStage::OverdrawRun ==> rotation.question() == Some(
                Act::ResumeInTurn(initial),
            ) && (next.stage == RotationStage::WorkAfter <==> seen == Seen::Stop(Stop::Expired))
            &&& rotation.stage == RotationStage::WorkAfter ==> (next.stage
                == RotationStage::OverdrawReady <==> seen == Seen::Number(rotation.work))
            &&& rotation.stage == RotationStage::OverdrawReady ==> rotation.question() == Some(
                Act::Yield(initial),
            ) && (next.stage == RotationStage::End <==> seen == Seen::Done)
            &&& rotation.stage == RotationStage::End && seen == Seen::Done ==> {
                &&& next.turn == rotation.turn + 1 && next.chosen == 0
                &&& rotation.turn < 7 ==> next.stage == RotationStage::Begin
                &&& rotation.turn == 7 ==> (next.stage == RotationStage::Passed <==> rotation.first
                    > 0 && rotation.second > 0 && rotation.foreign > 0)
            }
        }),
{
}

} // verus!
