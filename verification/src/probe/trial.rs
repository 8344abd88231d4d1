//! Running a probe: its steps in order, then giving everything back, then
//! confirming that nothing is missing.

use crate::probe::words::{
    accept, accepted, Act, Admission, Backing, Book, Mark, Payload, Seen, Stop, ThreadStart, Want,
    Who,
};
use vstd::prelude::*;

verus! {

/// One question and the answer that is accepted.
#[derive(Clone, Copy, Debug, PartialEq, Eq, Structural)]
pub struct Step {
    /// Question.
    pub act: Act,
    /// Accepted answer.
    pub want: Want,
    /// How often a preempted thread is sent on, the first time counted.
    pub tries: u64,
}

/// A step that is asked once.
pub open spec fn once(act: Act, want: Want) -> Step {
    Step { act, want, tries: 1 }
}

/// A step in which a preempted thread is sent on.
pub open spec fn within(act: Act, want: Want, tries: u64) -> Step {
    Step { act, want, tries }
}

/// Add a step that is asked once.
pub fn ask(steps: &mut Vec<Step>, act: Act, want: Want)
    ensures
        final(steps)@ == old(steps)@.push(once(act, want)),
{
    steps.push(Step { act, want, tries: 1 });
}

/// Add a step in which a preempted thread is sent on.
pub fn ask_within(steps: &mut Vec<Step>, act: Act, want: Want, tries: u64)
    ensures
        final(steps)@ == old(steps)@.push(within(act, want, tries)),
{
    steps.push(Step { act, want, tries });
}

/// Add the steps of another list.
pub fn append_steps(steps: &mut Vec<Step>, more: &Vec<Step>)
    ensures
        final(steps)@ == old(steps)@ + more@,
{
    let ghost before = steps@;
    let mut i: usize = 0;
    while i < more.len()
        invariant
            i <= more@.len(),
            steps@ == before + more@.take(i as int),
        decreases more@.len() - i,
    {
        steps.push(more[i]);
        i = i + 1;
        assert(steps@ =~= before + more@.take(i as int));
    }
    assert(more@.take(more@.len() as int) =~= more@);
}

/// Neighbouring steps with a name.
#[derive(Clone, Copy, Debug)]
pub struct Part {
    /// Name.
    pub label: &'static str,
    /// Steps.
    pub count: usize,
}

/// A part of so many steps.
pub open spec fn part(label: &'static str, count: nat) -> Part {
    Part { label, count: count as usize }
}

/// Steps of all parts.
pub open spec fn part_steps(parts: Seq<Part>) -> int
    decreases parts.len(),
{
    if parts.len() == 0 {
        0
    } else {
        parts[0].count + part_steps(parts.drop_first())
    }
}

/// The name of the part that a step belongs to.
pub open spec fn part_label(parts: Seq<Part>, at: int) -> Option<&'static str>
    decreases parts.len(),
{
    if parts.len() == 0 {
        None
    } else if at < parts[0].count {
        Some(parts[0].label)
    } else {
        part_label(parts.drop_first(), at - parts[0].count)
    }
}

/// Every step of the parts has a name, and no other step.
pub proof fn every_step_has_a_label(parts: Seq<Part>, at: int)
    requires
        0 <= at,
    ensures
        part_label(parts, at) is Some <==> at < part_steps(parts),
    decreases parts.len(),
{
    if parts.len() > 0 {
        lemma_part_steps(parts.drop_first());
        if at >= parts[0].count {
            every_step_has_a_label(parts.drop_first(), at - parts[0].count);
        }
    }
}

proof fn lemma_part_steps(parts: Seq<Part>)
    ensures
        0 <= part_steps(parts),
    decreases parts.len(),
{
    if parts.len() > 0 {
        lemma_part_steps(parts.drop_first());
    }
}

/// Name the part that a step belongs to.
pub fn step_label(parts: &Vec<Part>, at: usize) -> (label: Option<&'static str>)
    ensures
        label == part_label(parts@, at as int),
{
    let mut left: usize = at;
    let mut i: usize = 0;
    assert(parts@.skip(0) =~= parts@);
    while i < parts.len()
        invariant
            i <= parts@.len(),
            part_label(parts@, at as int) == part_label(parts@.skip(i as int), left as int),
        decreases parts@.len() - i,
    {
        assert(parts@.skip(i as int).drop_first() =~= parts@.skip(i + 1));
        if left < parts[i].count {
            return Some(parts[i].label);
        }
        left = left - parts[i].count;
        i = i + 1;
    }
    None
}

/// Where a trial stands.
#[derive(Clone, Copy, Debug, PartialEq, Eq, Structural)]
pub enum Phase {
    /// Its steps are asked.
    Trying,
    /// Everything is given back.
    Closing,
    /// What must hold in the end is asked.
    Confirming,
    /// Every answer was accepted.
    Passed,
    /// Some answer was not accepted.
    Failed,
    /// Something could not be given back.
    Stuck,
}

/// The lists of a trial.
#[derive(Debug)]
pub struct Agenda {
    /// Steps.
    pub steps: Vec<Step>,
    /// What is given back, whatever was seen.
    pub closing: Vec<Act>,
    /// Steps after everything is given back.
    pub confirming: Vec<Step>,
}

/// The lists of a trial, as sequences.
pub struct AgendaView {
    /// Steps.
    pub steps: Seq<Step>,
    /// What is given back.
    pub closing: Seq<Act>,
    /// Steps after everything is given back.
    pub confirming: Seq<Step>,
}

impl View for Agenda {
    type V = AgendaView;

    open spec fn view(&self) -> AgendaView {
        AgendaView {
            steps: self.steps@,
            closing: self.closing@,
            confirming: self.confirming@,
        }
    }
}

/// How far a trial is.
#[derive(Clone, Copy, Debug, PartialEq, Eq, Structural)]
pub struct State {
    /// Phase.
    pub phase: Phase,
    /// Position in the list of the phase.
    pub at: usize,
    /// How often the present step was asked before.
    pub tried: u64,
    /// Whether every answer so far was accepted.
    pub held: bool,
    /// What was kept.
    pub book: Book,
}

impl AgendaView {
    /// The state after its steps are left, if they are done.
    pub open spec fn past_steps(self, state: State) -> State {
        if state.phase == Phase::Trying && state.at >= self.steps.len() {
            State { phase: Phase::Closing, at: 0, tried: 0, ..state }
        } else {
            state
        }
    }

    /// The state after closing is left, if it is done.
    pub open spec fn past_closing(self, state: State) -> State {
        if state.phase == Phase::Closing && state.at >= self.closing.len() {
            State {
                phase: if state.held {
                    Phase::Confirming
                } else {
                    Phase::Failed
                },
                at: 0,
                tried: 0,
                ..state
            }
        } else {
            state
        }
    }

    /// The state after confirming is left, if it is done.
    pub open spec fn past_confirming(self, state: State) -> State {
        if state.phase == Phase::Confirming && state.at >= self.confirming.len() {
            State { phase: Phase::Passed, at: 0, tried: 0, ..state }
        } else {
            state
        }
    }

    /// The state after finished phases are left.
    pub open spec fn settled(self, state: State) -> State {
        self.past_confirming(self.past_closing(self.past_steps(state)))
    }

    /// The first state.
    pub open spec fn begin(self, free: u64) -> State {
        self.settled(
            State {
                phase: Phase::Trying,
                at: 0,
                tried: 0,
                held: true,
                book: Book::blank(free),
            },
        )
    }

    /// What is asked in a state.
    pub open spec fn question(self, state: State) -> Option<Act> {
        match state.phase {
            Phase::Trying => Some(self.steps[state.at as int].act),
            Phase::Closing => Some(self.closing[state.at as int]),
            Phase::Confirming => Some(self.confirming[state.at as int].act),
            _ => None,
        }
    }

    /// Whether a state stands at an entry of its list.
    pub open spec fn covers(self, state: State) -> bool {
        match state.phase {
            Phase::Trying => state.at < self.steps.len(),
            Phase::Closing => state.at < self.closing.len(),
            Phase::Confirming => state.at < self.confirming.len(),
            _ => true,
        }
    }

    /// The state after an answer.
    pub open spec fn after(self, state: State, seen: Seen) -> State {
        match state.phase {
            Phase::Trying => {
                let step = self.steps[state.at as int];
                match accepted(step.want, state.book, seen) {
                    Some(book) => self.settled(
                        State { at: (state.at + 1) as usize, tried: 0, book, ..state },
                    ),
                    None => if seen == Seen::Stop(Stop::Preempted) && state.tried + 1 < step.tries {
                        State { tried: (state.tried + 1) as u64, ..state }
                    } else {
                        self.settled(
                            State { phase: Phase::Closing, at: 0, tried: 0, held: false, ..state },
                        )
                    },
                }
            },
            Phase::Closing => if seen == Seen::Done {
                self.settled(State { at: (state.at + 1) as usize, tried: 0, ..state })
            } else {
                State { phase: Phase::Stuck, at: 0, tried: 0, ..state }
            },
            Phase::Confirming => match accepted(
                self.confirming[state.at as int].want,
                state.book,
                seen,
            ) {
                Some(book) => self.settled(
                    State { at: (state.at + 1) as usize, tried: 0, book, ..state },
                ),
                None => State { phase: Phase::Failed, at: 0, tried: 0, ..state },
            },
            _ => state,
        }
    }

    /// The step that an answer is not accepted for, if so.
    pub open spec fn refused(self, state: State, seen: Seen) -> Option<usize> {
        let step = self.steps[state.at as int];
        if state.phase == Phase::Trying && accepted(step.want, state.book, seen) is None && !(seen
            == Seen::Stop(Stop::Preempted) && state.tried + 1 < step.tries) {
            Some(state.at)
        } else {
            None
        }
    }

    /// The state after a run of answers.
    pub open spec fn run(self, state: State, answers: Seq<Seen>) -> State
        decreases answers.len(),
    {
        if answers.len() == 0 {
            state
        } else {
            self.after(self.run(state, answers.drop_last()), answers.last())
        }
    }

    /// How many things were given back during a run of answers.
    pub open spec fn given_back(self, state: State, answers: Seq<Seen>) -> int
        decreases answers.len(),
    {
        if answers.len() == 0 {
            0
        } else {
            let before = self.run(state, answers.drop_last());
            self.given_back(state, answers.drop_last()) + if before.phase == Phase::Closing
                && answers.last() == Seen::Done {
                1int
            } else {
                0
            }
        }
    }

    /// How many answers to steps were accepted during a run.
    pub open spec fn steps_accepted(self, state: State, answers: Seq<Seen>) -> int
        decreases answers.len(),
    {
        if answers.len() == 0 {
            0
        } else {
            let before = self.run(state, answers.drop_last());
            self.steps_accepted(state, answers.drop_last()) + if before.phase == Phase::Trying
                && accepted(
                self.steps[before.at as int].want,
                before.book,
                answers.last(),
            ) is Some {
                1int
            } else {
                0
            }
        }
    }
}

proof fn lemma_run(agenda: AgendaView, free: u64, answers: Seq<Seen>)
    requires
        agenda.steps.len() <= usize::MAX,
        agenda.closing.len() <= usize::MAX,
        agenda.confirming.len() <= usize::MAX,
    ensures
        ({
            let state = agenda.run(agenda.begin(free), answers);
            let back = agenda.given_back(agenda.begin(free), answers);
            let fine = agenda.steps_accepted(agenda.begin(free), answers);
            &&& agenda.covers(state)
            &&& match state.phase {
                Phase::Trying => state.held && back == 0 && fine == state.at,
                Phase::Closing => back == state.at && (state.held ==> fine == agenda.steps.len()),
                Phase::Confirming | Phase::Passed => state.held && back == agenda.closing.len()
                    && fine == agenda.steps.len(),
                Phase::Failed => back == agenda.closing.len(),
                Phase::Stuck => true,
            }
        }),
    decreases answers.len(),
{
    if answers.len() > 0 {
        lemma_run(agenda, free, answers.drop_last());
    }
}

/// Whatever is seen, everything is given back before a trial comes to its
/// end; only a trial that cannot give something back ends without.
pub proof fn everything_is_given_back(agenda: AgendaView, free: u64, answers: Seq<Seen>)
    requires
        agenda.steps.len() <= usize::MAX,
        agenda.closing.len() <= usize::MAX,
        agenda.confirming.len() <= usize::MAX,
    ensures
        ({
            let end = agenda.run(agenda.begin(free), answers).phase;
            end == Phase::Passed || end == Phase::Failed || end == Phase::Confirming
                ==> agenda.given_back(agenda.begin(free), answers) == agenda.closing.len()
        }),
{
    lemma_run(agenda, free, answers);
}

/// A trial passes only after the answer to each of its steps was accepted.
pub proof fn a_passed_trial_accepted_every_step(
    agenda: AgendaView,
    free: u64,
    answers: Seq<Seen>,
)
    requires
        agenda.steps.len() <= usize::MAX,
        agenda.closing.len() <= usize::MAX,
        agenda.confirming.len() <= usize::MAX,
        agenda.run(agenda.begin(free), answers).phase == Phase::Passed,
    ensures
        agenda.steps_accepted(agenda.begin(free), answers) == agenda.steps.len(),
{
    lemma_run(agenda, free, answers);
}

/// After an answer that is not accepted, no other step is asked.
pub proof fn a_surprise_ends_the_trying(
    agenda: AgendaView,
    state: State,
    surprise: Seen,
    answers: Seq<Seen>,
)
    requires
        state.phase == Phase::Trying,
        agenda.covers(state),
        accepted(agenda.steps[state.at as int].want, state.book, surprise) is None,
        surprise != Seen::Stop(Stop::Preempted),
    ensures
        ({
            let end = agenda.run(agenda.after(state, surprise), answers);
            end.phase == Phase::Closing || end.phase == Phase::Failed || end.phase == Phase::Stuck
        }),
    decreases answers.len(),
{
    lemma_no_return(agenda, agenda.after(state, surprise), answers);
}

proof fn lemma_no_return(agenda: AgendaView, state: State, answers: Seq<Seen>)
    requires
        !state.held,
        state.phase == Phase::Closing || state.phase == Phase::Failed || state.phase
            == Phase::Stuck,
    ensures
        ({
            let end = agenda.run(state, answers);
            !end.held && (end.phase == Phase::Closing || end.phase == Phase::Failed || end.phase
                == Phase::Stuck)
        }),
    decreases answers.len(),
{
    if answers.len() > 0 {
        lemma_no_return(agenda, state, answers.drop_last());
    }
}

/// The steps are left with an answer that is not accepted, and only with such
/// a one or after the last step.
pub proof fn a_refused_step_ends_the_trying(agenda: AgendaView, state: State, seen: Seen)
    requires
        agenda.steps.len() <= usize::MAX,
        state.phase == Phase::Trying,
        state.held,
        agenda.covers(state),
    ensures
        agenda.refused(state, seen) is Some <==> !agenda.after(state, seen).held,
        agenda.refused(state, seen) is None && agenda.after(state, seen).phase != Phase::Trying
            ==> state.at == agenda.steps.len() - 1,
{
}

/// A probe in progress.
#[derive(Debug)]
pub struct Trial {
    agenda: Agenda,
    state: State,
}

impl Trial {
    /// Its lists.
    pub closed spec fn lists(self) -> AgendaView {
        self.agenda@
    }

    /// How far it is.
    pub closed spec fn state(self) -> State {
        self.state
    }

    /// It stands at an entry of its list.
    pub open spec fn well_formed(self) -> bool {
        self.lists().covers(self.state())
    }

    /// Begin a trial, with so many frames free.
    pub fn new(agenda: Agenda, free: u64) -> (trial: Trial)
        ensures
            trial.lists() == agenda@,
            trial.state() == agenda@.begin(free),
            trial.well_formed(),
    {
        let start = State {
            phase: Phase::Trying,
            at: 0,
            tried: 0,
            held: true,
            book: Book::new(free),
        };
        let state = settle(&agenda, start);
        Trial { agenda, state }
    }

    /// What is asked next; nothing once the trial is over.
    pub fn next(&self) -> (act: Option<Act>)
        requires
            self.well_formed(),
        ensures
            act == self.lists().question(self.state()),
    {
        match self.state.phase {
            Phase::Trying => Some(self.agenda.steps[self.state.at].act),
            Phase::Closing => Some(self.agenda.closing[self.state.at]),
            Phase::Confirming => Some(self.agenda.confirming[self.state.at].act),
            _ => None,
        }
    }

    /// The step that an answer to what was asked last is not accepted for, if
    /// so.
    pub fn refused_step(&self, seen: Seen) -> (at: Option<usize>)
        requires
            self.well_formed(),
        ensures
            at == self.lists().refused(self.state(), seen),
    {
        let state = self.state;
        if !matches!(state.phase, Phase::Trying) {
            return None;
        }
        let step = self.agenda.steps[state.at];
        if accept(step.want, state.book, seen).is_some() {
            return None;
        }
        if seen == Seen::Stop(Stop::Preempted) && step.tries > 0 && state.tried < step.tries - 1 {
            None
        } else {
            Some(state.at)
        }
    }

    /// Take the answer to what was asked last.
    pub fn observe(&mut self, seen: Seen)
        requires
            old(self).well_formed(),
        ensures
            final(self).well_formed(),
            final(self).lists() == old(self).lists(),
            final(self).state() == old(self).lists().after(old(self).state(), seen),
    {
        let state = self.state;
        match state.phase {
            Phase::Trying => {
                let step = self.agenda.steps[state.at];
                match accept(step.want, state.book, seen) {
                    Some(book) => {
                        let at: usize = following(state.at, self.agenda.steps.len());
                        self.state = settle(&self.agenda, State { at, tried: 0, book, ..state });
                    },
                    None => {
                        if seen == Seen::Stop(Stop::Preempted) && step.tries > 0 && state.tried
                            < step.tries - 1 {
                            self.state.tried = state.tried + 1;
                        } else {
                            self.state = settle(
                                &self.agenda,
                                State {
                                    phase: Phase::Closing,
                                    at: 0,
                                    tried: 0,
                                    held: false,
                                    ..state
                                },
                            );
                        }
                    },
                }
            },
            Phase::Closing => {
                if seen == Seen::Done {
                    let at: usize = following(state.at, self.agenda.closing.len());
                    self.state = settle(&self.agenda, State { at, tried: 0, ..state });
                } else {
                    self.state = State { phase: Phase::Stuck, at: 0, tried: 0, ..state };
                }
            },
            Phase::Confirming => match accept(
                self.agenda.confirming[state.at].want,
                state.book,
                seen,
            ) {
                Some(book) => {
                    let at: usize = following(state.at, self.agenda.confirming.len());
                    self.state = settle(&self.agenda, State { at, tried: 0, book, ..state });
                },
                None => {
                    self.state = State { phase: Phase::Failed, at: 0, tried: 0, ..state };
                },
            },
            _ => {},
        }
    }

    /// Whether every answer was accepted and everything given back.
    pub fn passed(&self) -> (yes: bool)
        ensures
            yes == (self.state().phase == Phase::Passed),
    {
        matches!(self.state.phase, Phase::Passed)
    }
}

fn following(at: usize, count: usize) -> (next: usize)
    requires
        at < count,
    ensures
        next == at + 1,
{
    at + 1
}

fn settle(agenda: &Agenda, state: State) -> (after: State)
    ensures
        after == agenda@.settled(state),
        agenda@.covers(after),
{
    let mut after = state;
    if matches!(after.phase, Phase::Trying) && after.at >= agenda.steps.len() {
        after = State { phase: Phase::Closing, at: 0, tried: 0, ..after };
    }
    if matches!(after.phase, Phase::Closing) && after.at >= agenda.closing.len() {
        let phase = if after.held {
            Phase::Confirming
        } else {
            Phase::Failed
        };
        after = State { phase, at: 0, tried: 0, ..after };
    }
    if matches!(after.phase, Phase::Confirming) && after.at >= agenda.confirming.len() {
        after = State { phase: Phase::Passed, at: 0, tried: 0, ..after };
    }
    after
}

/// A trial that accepts an answer goes on to the next step; one that is preempted
/// asks again while tries are left; any other answer ends the trying, and what was
/// taken is then given back step by step before the trial passes or fails.
pub proof fn trials_go_step_by_step(agenda: AgendaView, state: State, seen: Seen)
    requires
        agenda.covers(state),
        agenda.steps.len() <= usize::MAX,
        agenda.closing.len() <= usize::MAX,
        agenda.confirming.len() <= usize::MAX,
    ensures
        state.phase == Phase::Trying ==> {
            let step = agenda.steps[state.at as int];
            let fine = accepted(step.want, state.book, seen) is Some;
            let again = seen == Seen::Stop(Stop::Preempted) && state.tried + 1 < step.tries;
            let next = agenda.after(state, seen);
            &&& agenda.question(state) == Some(step.act)
            &&& fine && state.at + 1 < agenda.steps.len() ==> next.phase == Phase::Trying && next.at
                == state.at + 1 && next.tried == 0 && next.held == state.held
            &&& fine && state.at + 1 == agenda.steps.len() && agenda.closing.len() > 0 ==> next.phase
                == Phase::Closing && next.at == 0 && next.held == state.held
            &&& !fine && again ==> next == (State { tried: (state.tried + 1) as u64, ..state })
            &&& !fine && !again && agenda.closing.len() > 0 ==> next.phase == Phase::Closing
                && next.at == 0 && !next.held
            &&& agenda.refused(state, seen) is Some <==> !fine && !again
        },
        state.phase == Phase::Closing ==> {
            let next = agenda.after(state, seen);
            &&& agenda.question(state) == Some(agenda.closing[state.at as int])
            &&& seen != Seen::Done ==> next.phase == Phase::Stuck
            &&& seen == Seen::Done && state.at + 1 < agenda.closing.len() ==> next.phase
                == Phase::Closing && next.at == state.at + 1 && next.held == state.held
            &&& seen == Seen::Done && state.at + 1 == agenda.closing.len() && !state.held
                ==> next.phase == Phase::Failed
            &&& seen == Seen::Done && state.at + 1 == agenda.closing.len() && state.held
                && agenda.confirming.len() > 0 ==> next.phase == Phase::Confirming && next.at == 0
        },
        state.phase == Phase::Confirming ==> {
            let step = agenda.confirming[state.at as int];
            let fine = accepted(step.want, state.book, seen) is Some;
            let next = agenda.after(state, seen);
            &&& agenda.question(state) == Some(step.act)
            &&& !fine ==> next.phase == Phase::Failed
            &&& fine && state.at + 1 < agenda.confirming.len() ==> next.phase == Phase::Confirming
                && next.at == state.at + 1
            &&& fine && state.at + 1 == agenda.confirming.len() ==> next.phase == Phase::Passed
        },
{
}

/// An answer that makes sense for what is done. What sets up, goes on or gives back
/// has to be done; what is looked at has to hold; and what is forged, stale,
/// foreign or too large has to be refused.
pub open spec fn sensible(step: Step) -> bool {
    let want = step.want;
    &&& step.tries == 1 || (step.act is Resume && want is Stop && (step.tries == 20 || step.tries
        == 128))
    &&& match step.act {
        Act::AddInitial { .. }
        | Act::AddProcess(_)
        | Act::AddSync
        | Act::AddWorker { .. }
        | Act::Authorize(_)
        | Act::BeginExpiredTurn
        | Act::BindElsewhere { .. }
        | Act::BuildRoot
        | Act::ChooseSibling
        | Act::CompleteStart
        | Act::Detach(_)
        | Act::Dispatch(_)
        | Act::DropAllPairs
        | Act::DropClaim(_)
        | Act::DropContext
        | Act::DropPairs
        | Act::DropReturned
        | Act::DropSpare
        | Act::EndTurn
        | Act::FreeThreadFrames(_)
        | Act::LayOut
        | Act::LayOutThread(_)
        | Act::MakeBusy
        | Act::MakeObjects
        | Act::MakeOtherContext
        | Act::OpenRight
        | Act::OpenThreadRight { .. }
        | Act::PrepareElsewhere { .. }
        | Act::Reap(_)
        | Act::RejectPreparation { .. }
        | Act::RemoveProcess(_)
        | Act::Reply(_)
        | Act::Reserve { .. }
        | Act::Revoke(_)
        | Act::RevokePreparation
        | Act::SetMode { .. }
        | Act::SetQuota { .. }
        | Act::Start(_)
        | Act::StartWorker { .. }
        | Act::StopContext
        | Act::StopOtherContext
        | Act::StopProcess(_)
        | Act::StopSync
        | Act::TakeOtherAllocation
        | Act::TakePairs
        | Act::TakeSpareFrames
        | Act::TakeThreadFrames(_)
        | Act::TakeUp(_)
        | Act::WithdrawRight
        | Act::WriteScripts
        | Act::Yield(_)
        | Act::YieldChosen => want == Want::Done,
        Act::CopyIsRequest { .. }
        | Act::Corresponds(_)
        | Act::HoldEssential(_)
        | Act::IsCaller(_)
        | Act::IsExit(_)
        | Act::IsInvalidState(_)
        | Act::MemoryIs { .. }
        | Act::PairIsLive
        | Act::PairsAreClear
        | Act::RequestIs { .. }
        | Act::RevokesThread(_)
        | Act::Rotate
        | Act::RunScripts
        | Act::SpareIsClear
        | Act::TailIsClear { .. }
        | Act::TakeTurns
        | Act::TurnIsOver => want == Want::Flag(true),
        Act::AnswerClaimElsewhere { .. }
        | Act::AnswerClaimTooLong(_)
        | Act::AnswerOldCall(_)
        | Act::AnswerScheduler(_)
        | Act::ClaimOldHandle(_)
        | Act::MakeTightContext
        | Act::ReadRequest(_)
        | Act::Resolve(_)
        | Act::ResumeScheduled { .. }
        | Act::RetireBadly(_)
        | Act::TakeUpAgain(_) => want == Want::Refused,
        Act::OtherIsStopped => want == Want::Flag(false),
        Act::CopyTx { .. } => want == Want::Untouched,
        Act::ExpirePreparation(_) => want == Want::Stop(Stop::Expired),
        Act::WantedPages(_) | Act::CloseRights => want == Want::Number(1),
        Act::OpenRights => want == Want::Numbers(0, 0),
        Act::SyncUsage => want == Want::Numbers(0, 0) || want == Want::Numbers(1, 1),
        Act::CommittedPages => want == Want::Number(0) || want == Want::Number(8),
        Act::Release(_) => want == Want::AnyNumber || want == Want::Number(4) || want
            == Want::Number(5),
        Act::FreeFrames => want == Want::Kept(Mark::Free) || want == Want::Keep(Mark::FreeNow)
            || want == Want::KeptPlus(Mark::FreeNow, 3),
        Act::Admit { form, .. } => match form {
            Admission::Right => want == Want::Done || want == Want::Refused || want is RefusedFor,
            Admission::CutShort => want == Want::Broke,
            _ => want == Want::Refused,
        },
        Act::CompletePreparation { moved } => if moved {
            want == Want::Refused
        } else {
            want == Want::Done || want == Want::Refused
        },
        Act::MakeContext { metadata, .. } => want == if metadata == 0 {
            Want::Refused
        } else {
            Want::Done
        },
        Act::Publish { who, payload } => {
            &&& want == Want::Done || want == Want::Refused
            &&& who == Who::Foreign ==> want == Want::Refused
            &&& payload matches Payload::Fill { count, .. } ==> (count > 4096 ==> want
                == Want::Refused)
        },
        Act::BindPair { who, pair, tx } => {
            &&& want == Want::Done || want == Want::Refused
            &&& who == Who::Foreign || pair > 1 || tx % 4096 != 0 ==> want == Want::Refused
            &&& who == Who::First && pair != 0 ==> want == Want::Refused
            &&& who == Who::Second && pair != 1 ==> want == Want::Refused
        },
        Act::Prepare { who, start } => {
            &&& want == Want::Done || want == Want::Refused
            &&& who == Who::Foreign || !proper(start) ==> want == Want::Refused
        },
        Act::Resume { who, millis, .. } => {
            &&& want is Stop || want == Want::Refused
            &&& who == Who::Foreign || who == Who::Former || millis == 0 || millis > 50 ==> want
                == Want::Refused
        },
        Act::Retire { who, backing } | Act::Discard { who, backing } => {
            &&& want == Want::Refused || want == (Want::Receipt { who, pages: 3 })
            &&& backing == Backing::Swapped ==> want == Want::Refused
        },
        Act::CommitHeap { count, .. } => {
            &&& want == Want::Done || want == Want::Refused
            &&& count != 1 ==> want == Want::Refused
        },
        Act::IsStopped | Act::ExitEffect(_) => want is Flag,
        Act::WaitIsOver(_) => want is Flag || want == Want::Refused,
        Act::EndWait(_) => want is Number || want == Want::Refused,
        _ => true,
    }
}

/// Every step has an answer that makes sense.
pub open spec fn all_sensible(steps: Seq<Step>) -> bool {
    forall|i: int| 0 <= i < steps.len() ==> sensible(#[trigger] steps[i])
}

pub(crate) proof fn lemma_sensible_join(a: Seq<Step>, b: Seq<Step>)
    requires
        all_sensible(a),
        all_sensible(b),
    ensures
        all_sensible(a + b),
{
    assert forall|i: int| 0 <= i < (a + b).len() implies sensible(#[trigger] (a + b)[i]) by {
        if i < a.len() {
            assert((a + b)[i] == a[i]);
        } else {
            assert((a + b)[i] == b[i - a.len()]);
        }
    }
}

/// A start with a thread pointer and a startup word that can be used.
pub open spec fn proper(start: ThreadStart) -> bool {
    start.thread_pointer != 0 && start.thread_pointer % 8 == 0 && start.startup != 0
}

} // verus!
