//! The run of the creation probe: three threads that are sent on in turn until
//! none is left, then giving everything back.

use crate::probe::creation::{
    creation_closing_steps, creation_confirming, creation_confirming_steps, creation_end,
    creation_giving_back, creation_opening, creation_returns, creation_set_up, numbered, thread,
    turn_view, Creation, Turn, TurnStart, TurnView, MOST_TURNS,
};
use crate::probe::trial::Step;
use crate::probe::words::{
    accept, accepted, Act, Book, Progress, Seen, Stop, ThreadState, Who,
};
use vstd::prelude::*;

verus! {

/// What the probe is made of.
#[derive(Clone, Copy, Debug, PartialEq, Eq, Structural)]
pub struct CreationSizes {
    /// Bytes of the program.
    pub code_bytes: u64,
    /// All pairs of message pages that exist.
    pub pairs: u64,
    /// Stack address of the thread whose preparation is rolled back.
    pub stack: u64,
}

/// What follows a list of steps.
#[derive(Clone, Copy, Debug, PartialEq, Eq, Structural)]
pub enum Following {
    /// A thread is chosen.
    Choose,
    /// The call of a thread is executed.
    Execute(u64),
    /// The turn is over.
    EndTurn,
    /// Everything is given back.
    Close,
    /// The probe has passed.
    Pass,
}

/// What is asked.
#[derive(Clone, Copy, Debug, PartialEq, Eq, Structural)]
pub enum CreationStage {
    /// A step of the list.
    Asking,
    /// Whether the wait of the initial thread is over.
    AskWait,
    /// The state of a thread.
    Look(u64),
    /// To make a thread the running one.
    Dispatch(u64),
    /// To run it.
    Run(u64),
    /// To execute its call.
    Execute(u64),
    /// Which thread it wants prepared.
    Requested(u64),
    /// How many threads there are, with that request in mind.
    Records(u64, u64, u64),
    /// Whether it revokes the child.
    Target(u64),
    /// To give something back.
    Closing(u64),
    /// Nothing: everything was as expected.
    Passed,
    /// Nothing: something was not.
    Failed,
    /// Nothing: something could not be given back.
    Stuck,
}

/// A creation probe in progress.
#[derive(Debug)]
pub struct CreationRun {
    /// What it is made of.
    pub sizes: CreationSizes,
    /// What is known of the threads.
    pub known: Creation,
    /// Turns that are over.
    pub turns: u64,
    /// Which threads are ready in this turn.
    pub ready: [bool; 3],
    /// What was kept.
    pub book: Book,
    /// Whether every answer so far was accepted.
    pub held: bool,
    /// Steps that are asked.
    pub queue: Vec<Step>,
    /// Position among them.
    pub at: usize,
    /// What follows them.
    pub next: Following,
    /// What is asked.
    pub stage: CreationStage,
}

/// A creation probe in progress, as a value.
#[verifier::ext_equal]
pub struct CreationView {
    /// What it is made of.
    pub sizes: CreationSizes,
    /// What is known of the threads.
    pub known: Creation,
    /// Turns that are over.
    pub turns: int,
    /// Which threads are ready in this turn.
    pub ready: Seq<bool>,
    /// What was kept.
    pub book: Book,
    /// Whether every answer so far was accepted.
    pub held: bool,
    /// Steps that are asked.
    pub queue: Seq<Step>,
    /// Position among them.
    pub at: int,
    /// What follows them.
    pub next: Following,
    /// What is asked.
    pub stage: CreationStage,
}

impl View for CreationRun {
    type V = CreationView;

    open spec fn view(&self) -> CreationView {
        CreationView {
            sizes: self.sizes,
            known: self.known,
            turns: self.turns as int,
            ready: self.ready@,
            book: self.book,
            held: self.held,
            queue: self.queue@,
            at: self.at as int,
            next: self.next,
            stage: self.stage,
        }
    }
}

/// The first recorded thread from `from` on, or three.
pub open spec fn next_recorded(known: Creation, from: int) -> int {
    if from <= 0 && known.first {
        0
    } else if from <= 1 && known.second {
        1
    } else if from <= 2 && known.third {
        2
    } else {
        3
    }
}

impl CreationView {
    /// The probe at another question.
    pub open spec fn to(self, stage: CreationStage) -> CreationView {
        CreationView { stage, ..self }
    }

    /// The probe after something unexpected.
    pub open spec fn failed(self) -> CreationView {
        CreationView { held: false, stage: CreationStage::Closing(0), ..self }
    }

    /// The probe before a list of steps.
    pub open spec fn queued(self, steps: Seq<Step>, next: Following) -> CreationView {
        CreationView { queue: steps, at: 0, next, stage: CreationStage::Asking, ..self }
    }

    /// The turns are over: everything must have happened.
    pub open spec fn judged(self) -> CreationView {
        if self.known.complete() {
            self.queued(creation_end(), Following::Close)
        } else {
            self.failed()
        }
    }

    /// The threads are looked at from `from` on, then one is chosen.
    pub open spec fn looked(self, from: int) -> CreationView {
        let index = next_recorded(self.known, from);
        if index < 3 {
            self.to(CreationStage::Look(index as u64))
        } else {
            match self.known.choice(self.ready) {
                Some(chosen) => CreationView {
                    known: Creation { cursor: ((chosen + 1) % 3) as u64, ..self.known },
                    stage: CreationStage::Dispatch(chosen as u64),
                    ..self
                },
                None => self.failed(),
            }
        }
    }

    /// A thread is chosen, if there is one.
    pub open spec fn choosing(self) -> CreationView {
        if self.known.over() {
            self.judged()
        } else {
            CreationView { ready: seq![false, false, false], ..self }.looked(0)
        }
    }

    /// The turn begins.
    pub open spec fn begun(self) -> CreationView {
        match self.known.turn_start(self.turns as u64, None) {
            TurnStart::Judge => self.judged(),
            TurnStart::AskWait => self.to(CreationStage::AskWait),
            _ => self.choosing(),
        }
    }

    /// The turn is over.
    pub open spec fn turned(self) -> CreationView {
        CreationView { turns: self.turns + 1, ..self }.begun()
    }

    /// What follows a list of steps.
    pub open spec fn followed(self) -> CreationView {
        match self.next {
            Following::Choose => self.choosing(),
            Following::Execute(index) => self.to(CreationStage::Execute(index)),
            Following::EndTurn => self.turned(),
            Following::Close => self.to(CreationStage::Closing(0)),
            Following::Pass => self.to(CreationStage::Passed),
        }
    }

    /// What follows a decision.
    pub open spec fn taking(self, turn: Option<TurnView>, next: Following) -> CreationView {
        match turn {
            Some(view) => {
                let changed = CreationView { known: view.after, ..self };
                if view.steps.len() == 0 {
                    changed.turned()
                } else {
                    changed.queued(view.steps, next)
                }
            },
            None => self.failed(),
        }
    }

    /// What is asked.
    pub open spec fn question(self) -> Option<Act> {
        match self.stage {
            CreationStage::Asking => Some(self.queue[self.at].act),
            CreationStage::AskWait => Some(Act::WaitIsOver(Who::First)),
            CreationStage::Look(index) => Some(Act::StateOf(thread(index as int))),
            CreationStage::Dispatch(index) => Some(Act::Dispatch(thread(index as int))),
            CreationStage::Run(index) => Some(
                Act::ResumeScheduled { who: thread(index as int), millis: 50 },
            ),
            CreationStage::Execute(index) => Some(Act::Execute(thread(index as int))),
            CreationStage::Requested(_) => Some(Act::RequestedThread),
            CreationStage::Records(_, _, _) => Some(Act::ThreadRecords),
            CreationStage::Target(_) => Some(Act::RevokesThread(Who::Third)),
            CreationStage::Closing(n) => Some(creation_giving_back()[n as int]),
            _ => None,
        }
    }

    /// The probe after an answer.
    pub open spec fn after(self, seen: Seen) -> CreationView {
        match self.stage {
            CreationStage::Asking => match accepted(self.queue[self.at].want, self.book, seen) {
                Some(book) => {
                    let asked = CreationView { book, at: self.at + 1, ..self };
                    if asked.at < asked.queue.len() {
                        asked
                    } else {
                        asked.followed()
                    }
                },
                None => if self.next == Following::Pass {
                    self.to(CreationStage::Failed)
                } else {
                    self.failed()
                },
            },
            CreationStage::AskWait => match seen {
                Seen::Flag(true) => self.taking(self.known.after_wait(), Following::Choose),
                Seen::Flag(false) => self.choosing(),
                _ => self.failed(),
            },
            CreationStage::Look(index) => CreationView {
                ready: self.ready.update(index as int, seen == Seen::State(ThreadState::Ready)),
                ..self
            }.looked(index + 1),
            CreationStage::Dispatch(index) => if seen == Seen::Done {
                self.to(CreationStage::Run(index))
            } else {
                self.failed()
            },
            CreationStage::Run(index) => match seen {
                Seen::Stop(stop) => self.taking(
                    self.known.after_stop(index as int, stop),
                    if stop == Stop::SchedulerCall {
                        Following::Execute(index)
                    } else {
                        Following::EndTurn
                    },
                ),
                _ => self.failed(),
            },
            CreationStage::Execute(index) => match seen {
                Seen::Progress(Progress::Preparing) => self.to(CreationStage::Requested(index)),
                Seen::Progress(Progress::Aborting) => self.to(CreationStage::Target(index)),
                Seen::Progress(progress) => self.taking(
                    self.known.after_progress(index as int, progress, false),
                    Following::EndTurn,
                ),
                _ => self.failed(),
            },
            CreationStage::Requested(index) => match seen {
                Seen::Numbers(entry, stack) => self.to(CreationStage::Records(index, entry, stack)),
                _ => self.failed(),
            },
            CreationStage::Records(index, entry, stack) => match seen {
                Seen::Number(records) => self.taking(
                    self.known.after_request(
                        index as int,
                        entry,
                        stack,
                        self.sizes.code_bytes,
                        records,
                        self.sizes.pairs,
                        self.sizes.stack,
                    ),
                    Following::EndTurn,
                ),
                _ => self.failed(),
            },
            CreationStage::Target(index) => match seen {
                Seen::Flag(child) => self.taking(
                    self.known.after_progress(index as int, Progress::Aborting, child),
                    Following::EndTurn,
                ),
                _ => self.failed(),
            },
            CreationStage::Closing(n) => if seen != Seen::Done {
                self.to(CreationStage::Stuck)
            } else if n < 2 {
                self.to(CreationStage::Closing((n + 1) as u64))
            } else if self.held {
                self.queued(creation_confirming(), Following::Pass)
            } else {
                self.to(CreationStage::Failed)
            },
            _ => self,
        }
    }

    /// The probe before its first question, with so many frames free.
    pub open spec fn begin(sizes: CreationSizes, free: u64) -> CreationView {
        CreationView {
            sizes,
            known: Creation::begin(),
            turns: 0,
            ready: seq![false, false, false],
            book: Book::blank(free),
            held: true,
            queue: creation_set_up(),
            at: 0,
            next: Following::Choose,
            stage: CreationStage::Asking,
        }
    }

    /// Whether a turn is under way.
    pub open spec fn in_turn(self) -> bool {
        match self.stage {
            CreationStage::Asking => self.next != Following::Close && self.next != Following::Pass,
            CreationStage::Closing(_)
            | CreationStage::Passed
            | CreationStage::Failed
            | CreationStage::Stuck => false,
            _ => true,
        }
    }

    /// What a probe requires of itself.
    pub open spec fn well_formed(self) -> bool {
        &&& self.known.well_formed()
        &&& self.sizes.pairs > 0
        &&& self.ready.len() == 3
        &&& 0 <= self.turns <= MOST_TURNS
        &&& self.known.prepared <= self.turns + 1
        &&& self.known.revoked <= self.turns + 1
        &&& self.in_turn() ==> self.turns < MOST_TURNS
        &&& match self.stage {
            CreationStage::Asking => 0 <= self.at < self.queue.len() && match self.next {
                Following::Choose | Following::Execute(_) => self.known.prepared <= self.turns
                    && self.known.revoked <= self.turns,
                _ => true,
            },
            CreationStage::Look(index) => index < 3,
            CreationStage::Closing(n) => n < 3,
            _ => true,
        }
        &&& match self.stage {
            CreationStage::Asking
            | CreationStage::Closing(_)
            | CreationStage::Passed
            | CreationStage::Failed
            | CreationStage::Stuck => true,
            _ => self.known.prepared <= self.turns && self.known.revoked <= self.turns,
        }
        &&& match self.stage {
            CreationStage::Asking => self.held && (self.next == Following::Close || self.next
                == Following::Pass ==> self.known.complete()),
            CreationStage::Closing(_) => self.held ==> self.known.complete(),
            CreationStage::Passed => self.held && self.known.complete(),
            CreationStage::Failed | CreationStage::Stuck => true,
            _ => self.held,
        }
    }
}

impl CreationRun {
    /// Begin the probe, with so many frames free.
    pub fn start(sizes: CreationSizes, free: u64) -> (run: Self)
        requires
            sizes.pairs > 0,
        ensures
            run@ == CreationView::begin(sizes, free),
            run@.well_formed(),
    {
        let run = CreationRun {
            sizes,
            known: Creation::new(),
            turns: 0,
            ready: [false, false, false],
            book: Book::new(free),
            held: true,
            queue: creation_opening(),
            at: 0,
            next: Following::Choose,
            stage: CreationStage::Asking,
        };
        assert(run@ =~= CreationView::begin(sizes, free));
        run
    }

    fn fail(&mut self)
        ensures
            final(self)@ == old(self)@.failed(),
    {
        self.held = false;
        self.stage = CreationStage::Closing(0);
    }

    fn enqueue(&mut self, steps: Vec<Step>, next: Following)
        ensures
            final(self)@ == old(self)@.queued(steps@, next),
    {
        self.queue = steps;
        self.at = 0;
        self.next = next;
        self.stage = CreationStage::Asking;
    }

    fn judge(&mut self)
        ensures
            final(self)@ == old(self)@.judged(),
    {
        if self.known.is_complete() {
            self.enqueue(creation_closing_steps(), Following::Close);
        } else {
            self.fail();
        }
    }

    fn look(&mut self, from: u64)
        requires
            old(self).known.well_formed(),
        ensures
            final(self)@ == old(self)@.looked(from as int),
    {
        let index: u64 = if from == 0 && self.known.first {
            0
        } else if from <= 1 && self.known.second {
            1
        } else if from <= 2 && self.known.third {
            2
        } else {
            3
        };
        if index < 3 {
            self.stage = CreationStage::Look(index);
            return;
        }
        match self.known.choose_thread(&self.ready) {
            Some(chosen) => {
                self.stage = CreationStage::Dispatch(chosen);
            },
            None => self.fail(),
        }
    }

    fn choose_next(&mut self)
        requires
            old(self).known.well_formed(),
        ensures
            final(self)@ == old(self)@.choosing(),
    {
        if self.known.is_over() {
            self.judge();
        } else {
            self.ready = [false, false, false];
            assert(self@ =~= CreationView { ready: seq![false, false, false], ..old(self)@ });
            self.look(0);
        }
    }

    fn begin(&mut self)
        requires
            old(self).known.well_formed(),
        ensures
            final(self)@ == old(self)@.begun(),
    {
        match self.known.begin_turn(self.turns, None) {
            TurnStart::Judge => self.judge(),
            TurnStart::AskWait => {
                self.stage = CreationStage::AskWait;
            },
            _ => self.choose_next(),
        }
    }

    fn end_turn(&mut self)
        requires
            old(self).known.well_formed(),
            old(self).turns < MOST_TURNS,
        ensures
            final(self)@ == old(self)@.turned(),
    {
        self.turns = self.turns + 1;
        assert(self@ =~= CreationView { turns: old(self)@.turns + 1, ..old(self)@ });
        self.begin();
    }

    fn follow(&mut self)
        requires
            old(self).known.well_formed(),
            old(self).next == Following::EndTurn ==> old(self).turns < MOST_TURNS,
        ensures
            final(self)@ == old(self)@.followed(),
    {
        match self.next {
            Following::Choose => self.choose_next(),
            Following::Execute(index) => {
                self.stage = CreationStage::Execute(index);
            },
            Following::EndTurn => self.end_turn(),
            Following::Close => {
                self.stage = CreationStage::Closing(0);
            },
            Following::Pass => {
                self.stage = CreationStage::Passed;
            },
        }
    }

    fn take(&mut self, turn: Option<Turn>, next: Following)
        requires
            turn matches Some(t) ==> t.after.well_formed(),
            old(self).turns < MOST_TURNS,
        ensures
            final(self)@ == old(self)@.taking(turn_view(turn), next),
    {
        match turn {
            Some(turn) => {
                self.known = turn.after;
                let ghost changed = CreationView { known: turn.after, ..old(self)@ };
                assert(self@ =~= changed);
                if turn.steps.len() == 0 {
                    self.end_turn();
                } else {
                    self.enqueue(turn.steps, next);
                }
            },
            None => self.fail(),
        }
    }

    /// What is asked next; nothing once the probe is over.
    pub fn next(&self) -> (act: Option<Act>)
        requires
            self@.well_formed(),
        ensures
            act == self@.question(),
    {
        match self.stage {
            CreationStage::Asking => Some(self.queue[self.at].act),
            CreationStage::AskWait => Some(Act::WaitIsOver(Who::First)),
            CreationStage::Look(index) => Some(Act::StateOf(numbered(index))),
            CreationStage::Dispatch(index) => Some(Act::Dispatch(numbered(index))),
            CreationStage::Run(index) => Some(
                Act::ResumeScheduled { who: numbered(index), millis: 50 },
            ),
            CreationStage::Execute(index) => Some(Act::Execute(numbered(index))),
            CreationStage::Requested(_) => Some(Act::RequestedThread),
            CreationStage::Records(_, _, _) => Some(Act::ThreadRecords),
            CreationStage::Target(_) => Some(Act::RevokesThread(Who::Third)),
            CreationStage::Closing(n) => {
                let acts = creation_returns();
                Some(acts[n as usize])
            },
            _ => None,
        }
    }

    fn answered(&mut self, seen: Seen)
        requires
            old(self)@.well_formed(),
            old(self).stage == CreationStage::Asking,
        ensures
            final(self)@ == old(self)@.after(seen),
    {
        let count: usize = self.queue.len();
        match accept(self.queue[self.at].want, self.book, seen) {
            Some(book) => {
                self.book = book;
                self.at = self.at + 1;
                assert(self@ =~= CreationView { book, at: old(self)@.at + 1, ..old(self)@ });
                if self.at >= count {
                    self.follow();
                }
            },
            None => {
                if self.next == Following::Pass {
                    self.stage = CreationStage::Failed;
                } else {
                    self.fail();
                }
            },
        }
    }

    fn looked_at(&mut self, index: u64, seen: Seen)
        requires
            old(self)@.well_formed(),
            old(self).stage == CreationStage::Look(index),
        ensures
            final(self)@ == old(self)@.after(seen),
    {
        self.ready[index as usize] = seen == Seen::State(ThreadState::Ready);
        assert(self@ =~= CreationView {
            ready: old(self)@.ready.update(index as int, seen == Seen::State(ThreadState::Ready)),
            ..old(self)@
        });
        self.look(index + 1);
    }

    /// Take the answer to what was asked last.
    pub fn observe(&mut self, seen: Seen)
        requires
            old(self)@.well_formed(),
        ensures
            final(self)@ == old(self)@.after(seen),
            final(self)@.well_formed(),
    {
        proof {
            lemma_stays_well_formed(self@, seen);
        }
        match self.stage {
            CreationStage::Asking => self.answered(seen),
            CreationStage::AskWait => match seen {
                Seen::Flag(true) => {
                    let turn = self.known.finish_wait();
                    self.take(turn, Following::Choose);
                },
                Seen::Flag(false) => self.choose_next(),
                _ => self.fail(),
            },
            CreationStage::Look(index) => self.looked_at(index, seen),
            CreationStage::Dispatch(index) => {
                if seen == Seen::Done {
                    self.stage = CreationStage::Run(index);
                } else {
                    self.fail();
                }
            },
            CreationStage::Run(index) => match seen {
                Seen::Stop(stop) => {
                    let turn = self.known.stopped(index, stop);
                    let next = if stop == Stop::SchedulerCall {
                        Following::Execute(index)
                    } else {
                        Following::EndTurn
                    };
                    self.take(turn, next);
                },
                _ => self.fail(),
            },
            CreationStage::Execute(index) => match seen {
                Seen::Progress(Progress::Preparing) => {
                    self.stage = CreationStage::Requested(index);
                },
                Seen::Progress(Progress::Aborting) => {
                    self.stage = CreationStage::Target(index);
                },
                Seen::Progress(progress) => {
                    let turn = self.known.apply(index, progress, false);
                    self.take(turn, Following::EndTurn);
                },
                _ => self.fail(),
            },
            CreationStage::Requested(index) => match seen {
                Seen::Numbers(entry, stack) => {
                    self.stage = CreationStage::Records(index, entry, stack);
                },
                _ => self.fail(),
            },
            CreationStage::Records(index, entry, stack) => match seen {
                Seen::Number(records) => {
                    let turn = self.known.prepare(
                        index,
                        entry,
                        stack,
                        self.sizes.code_bytes,
                        records,
                        self.sizes.pairs,
                        self.sizes.stack,
                    );
                    self.take(turn, Following::EndTurn);
                },
                _ => self.fail(),
            },
            CreationStage::Target(index) => match seen {
                Seen::Flag(child) => {
                    let turn = self.known.apply(index, Progress::Aborting, child);
                    self.take(turn, Following::EndTurn);
                },
                _ => self.fail(),
            },
            CreationStage::Closing(n) => {
                if seen != Seen::Done {
                    self.stage = CreationStage::Stuck;
                } else if n < 2 {
                    self.stage = CreationStage::Closing(n + 1);
                } else if self.held {
                    self.enqueue(creation_confirming_steps(), Following::Pass);
                } else {
                    self.stage = CreationStage::Failed;
                }
            },
            _ => {},
        }
    }

    /// Whether everything was as expected and everything was given back.
    pub fn passed(&self) -> (yes: bool)
        ensures
            yes == (self@.stage == CreationStage::Passed),
    {
        matches!(self.stage, CreationStage::Passed)
    }
}

/// What holds of a probe whatever it asks.
spec fn sound(run: CreationView) -> bool {
    &&& run.known.well_formed()
    &&& run.sizes.pairs > 0
    &&& run.ready.len() == 3
    &&& 0 <= run.turns <= MOST_TURNS
    &&& run.known.prepared <= run.turns + 1
    &&& run.known.revoked <= run.turns + 1
    &&& run.held
}

/// What holds of a probe before it decides in a turn.
spec fn early(run: CreationView) -> bool {
    &&& sound(run)
    &&& run.turns < MOST_TURNS
    &&& run.known.prepared <= run.turns
    &&& run.known.revoked <= run.turns
}

proof fn lemma_judged(run: CreationView)
    requires
        sound(run),
    ensures
        run.judged().well_formed(),
{
    assert(creation_end().len() == 9);
}

proof fn lemma_looked(run: CreationView, from: int)
    requires
        early(run),
        from >= 0,
    ensures
        run.looked(from).well_formed(),
{
    let index = next_recorded(run.known, from);
    if index >= 3 {
        match run.known.choice(run.ready) {
            Some(chosen) => {
                assert(0 <= chosen < 3);
                assert((chosen + 1) % 3 < 3);
            },
            None => {},
        }
    }
}

proof fn lemma_choosing(run: CreationView)
    requires
        early(run),
    ensures
        run.choosing().well_formed(),
{
    if run.known.over() {
        lemma_judged(run);
    } else {
        lemma_looked(CreationView { ready: seq![false, false, false], ..run }, 0);
    }
}

proof fn lemma_turned(run: CreationView)
    requires
        sound(run),
        run.turns < MOST_TURNS,
    ensures
        run.turned().well_formed(),
{
    let later = CreationView { turns: run.turns + 1, ..run };
    if later.turns >= MOST_TURNS {
        lemma_judged(later);
    } else {
        lemma_choosing(later);
        lemma_judged(later);
    }
}

/// A decision changes each counter by one at most.
spec fn modest(before: Creation, turn: Option<TurnView>) -> bool {
    turn matches Some(view) ==> {
        &&& view.after.well_formed()
        &&& before.prepared <= view.after.prepared <= before.prepared + 1
        &&& before.revoked <= view.after.revoked <= before.revoked + 1
    }
}

proof fn lemma_taking(run: CreationView, turn: Option<TurnView>, next: Following)
    requires
        early(run),
        modest(run.known, turn),
        next == Following::EndTurn || (turn matches Some(view) ==> view.after.prepared
            == run.known.prepared && view.after.revoked == run.known.revoked),
        next != Following::Close,
        next != Following::Pass,
    ensures
        run.taking(turn, next).well_formed(),
{
    match turn {
        Some(view) => {
            let changed = CreationView { known: view.after, ..run };
            if view.steps.len() == 0 {
                lemma_turned(changed);
            }
        },
        None => {},
    }
}

proof fn lemma_stop_is_modest(known: Creation, index: int, stop: Stop)
    requires
        known.well_formed(),
    ensures
        modest(known, known.after_stop(index, stop)),
        known.after_stop(index, stop) matches Some(view) ==> view.after.prepared == known.prepared
            && view.after.revoked == known.revoked,
{
}

proof fn lemma_progress_is_modest(known: Creation, index: int, progress: Progress, child: bool)
    requires
        known.well_formed(),
        known.revoked < MOST_TURNS,
    ensures
        modest(known, known.after_progress(index, progress, child)),
{
}

proof fn lemma_request_is_modest(
    known: Creation,
    index: int,
    entry: u64,
    stack_pages: u64,
    sizes: CreationSizes,
    records: u64,
)
    requires
        known.well_formed(),
        known.prepared < MOST_TURNS,
    ensures
        modest(
            known,
            known.after_request(
                index,
                entry,
                stack_pages,
                sizes.code_bytes,
                records,
                sizes.pairs,
                sizes.stack,
            ),
        ),
{
}

proof fn lemma_stays_well_formed(run: CreationView, seen: Seen)
    requires
        run.well_formed(),
    ensures
        run.after(seen).well_formed(),
{
    match run.stage {
        CreationStage::Asking => {
            match accepted(run.queue[run.at].want, run.book, seen) {
                Some(book) => {
                    let asked = CreationView { book, at: run.at + 1, ..run };
                    match run.next {
                        Following::Choose => lemma_choosing(asked),
                        Following::EndTurn => lemma_turned(asked),
                        _ => {},
                    }
                },
                None => {},
            }
        },
        CreationStage::AskWait => {
            lemma_choosing(run);
            lemma_taking(run, run.known.after_wait(), Following::Choose);
        },
        CreationStage::Look(index) => {
            let looked = CreationView {
                ready: run.ready.update(
                    index as int,
                    seen == Seen::State(ThreadState::Ready),
                ),
                ..run
            };
            lemma_looked(looked, index + 1);
        },
        CreationStage::Run(index) => {
            match seen {
                Seen::Stop(stop) => {
                    lemma_stop_is_modest(run.known, index as int, stop);
                    lemma_taking(
                        run,
                        run.known.after_stop(index as int, stop),
                        if stop == Stop::SchedulerCall {
                            Following::Execute(index)
                        } else {
                            Following::EndTurn
                        },
                    );
                },
                _ => {},
            }
        },
        CreationStage::Execute(index) => {
            match seen {
                Seen::Progress(progress) => {
                    lemma_progress_is_modest(run.known, index as int, progress, false);
                    lemma_taking(
                        run,
                        run.known.after_progress(index as int, progress, false),
                        Following::EndTurn,
                    );
                },
                _ => {},
            }
        },
        CreationStage::Records(index, entry, stack) => {
            match seen {
                Seen::Number(records) => {
                    lemma_request_is_modest(
                        run.known,
                        index as int,
                        entry,
                        stack,
                        run.sizes,
                        records,
                    );
                    lemma_taking(
                        run,
                        run.known.after_request(
                            index as int,
                            entry,
                            stack,
                            run.sizes.code_bytes,
                            records,
                            run.sizes.pairs,
                            run.sizes.stack,
                        ),
                        Following::EndTurn,
                    );
                },
                _ => {},
            }
        },
        CreationStage::Target(index) => {
            match seen {
                Seen::Flag(child) => {
                    lemma_progress_is_modest(run.known, index as int, Progress::Aborting, child);
                    lemma_taking(
                        run,
                        run.known.after_progress(index as int, Progress::Aborting, child),
                        Following::EndTurn,
                    );
                },
                _ => {},
            }
        },
        CreationStage::Closing(_) => {
            assert(creation_confirming().len() == 3);
        },
        _ => {},
    }
}

impl CreationView {
    /// How many kinds of questions follow in this turn at most.
    pub open spec fn stages_left(self) -> int {
        match self.stage {
            CreationStage::AskWait => 20,
            CreationStage::Asking => match self.next {
                Following::Choose => 19,
                Following::Execute(_) => 13,
                Following::EndTurn => 9,
                Following::Close => 8,
                Following::Pass => 6,
            },
            CreationStage::Look(index) => 18 - index,
            CreationStage::Dispatch(_) => 15,
            CreationStage::Run(_) => 14,
            CreationStage::Execute(_) => 12,
            CreationStage::Requested(_) => 11,
            CreationStage::Records(_, _, _) | CreationStage::Target(_) => 10,
            CreationStage::Closing(_) => 7,
            CreationStage::Passed | CreationStage::Failed | CreationStage::Stuck => 0,
        }
    }

    /// How many questions of this kind follow at most.
    pub open spec fn questions_left(self) -> int {
        match self.stage {
            CreationStage::Asking => self.queue.len() - self.at,
            CreationStage::Closing(n) => 3 - n,
            _ => 0,
        }
    }

    /// Whether the probe is nearer to its end than another.
    pub open spec fn nearer_than(self, other: CreationView) -> bool {
        ||| self.turns > other.turns
        ||| self.turns == other.turns && self.stages_left() < other.stages_left()
        ||| self.turns == other.turns && self.stages_left() == other.stages_left()
            && self.questions_left() < other.questions_left()
    }
}

proof fn lemma_choosing_is_nearer(run: CreationView, than: CreationView)
    requires
        early(run),
        run.turns == than.turns,
        than.stages_left() >= 19,
    ensures
        run.choosing().nearer_than(than),
{
}

proof fn lemma_taking_is_nearer(run: CreationView, turn: Option<TurnView>, next: Following)
    requires
        early(run),
        match next {
            Following::Choose => run.stages_left() == 20,
            Following::Execute(_) => run.stages_left() == 14,
            Following::EndTurn => run.stages_left() >= 10,
            _ => false,
        },
    ensures
        run.taking(turn, next).nearer_than(run),
{
}

/// The probe comes to an end: there are at most so many turns, and every answer
/// leaves fewer of them, or fewer questions in the turn.
pub proof fn creations_come_to_an_end(run: CreationView, seen: Seen)
    requires
        run.well_formed(),
        run.question() is Some,
    ensures
        run.after(seen).nearer_than(run),
        run.after(seen).turns <= MOST_TURNS,
        run.after(seen).stages_left() >= 0,
        run.after(seen).questions_left() >= 0,
{
    lemma_stays_well_formed(run, seen);
    match run.stage {
        CreationStage::Asking => {
            match accepted(run.queue[run.at].want, run.book, seen) {
                Some(book) => {
                    let asked = CreationView { book, at: run.at + 1, ..run };
                    match run.next {
                        Following::Choose => lemma_choosing_is_nearer(asked, run),
                        _ => {},
                    }
                },
                None => {},
            }
        },
        CreationStage::AskWait => {
            lemma_choosing_is_nearer(run, run);
            lemma_taking_is_nearer(run, run.known.after_wait(), Following::Choose);
        },
        CreationStage::Run(index) => {
            match seen {
                Seen::Stop(stop) => {
                    lemma_taking_is_nearer(
                        run,
                        run.known.after_stop(index as int, stop),
                        if stop == Stop::SchedulerCall {
                            Following::Execute(index)
                        } else {
                            Following::EndTurn
                        },
                    );
                },
                _ => {},
            }
        },
        CreationStage::Execute(index) => {
            match seen {
                Seen::Progress(progress) => lemma_taking_is_nearer(
                    run,
                    run.known.after_progress(index as int, progress, false),
                    Following::EndTurn,
                ),
                _ => {},
            }
        },
        CreationStage::Records(index, entry, stack) => {
            match seen {
                Seen::Number(records) => lemma_taking_is_nearer(
                    run,
                    run.known.after_request(
                        index as int,
                        entry,
                        stack,
                        run.sizes.code_bytes,
                        records,
                        run.sizes.pairs,
                        run.sizes.stack,
                    ),
                    Following::EndTurn,
                ),
                _ => {},
            }
        },
        CreationStage::Target(index) => {
            match seen {
                Seen::Flag(child) => lemma_taking_is_nearer(
                    run,
                    run.known.after_progress(index as int, Progress::Aborting, child),
                    Following::EndTurn,
                ),
                _ => {},
            }
        },
        _ => {},
    }
}

/// The probe passes only where everything happened that was to happen: no
/// thread and no frames are left, three threads were prepared besides the one
/// that was rolled back, the worker was joined, and one child went with its
/// creator.
pub proof fn passing_takes_everything(run: CreationView)
    requires
        run.well_formed(),
        run.stage == CreationStage::Passed,
    ensures
        run.held,
        run.known.over(),
        !run.known.first_frames && !run.known.second_frames && !run.known.third_frames,
        run.known.injected && run.known.joined,
        run.known.prepared == 3,
        run.known.revoked == 1,
{
}

/// Whatever is seen, the probe ends, unless it gets stuck, only after the last
/// thing was given back.
pub proof fn creations_give_everything_back(run: CreationView, seen: Seen)
    requires
        run.well_formed(),
        run.stage != CreationStage::Passed,
        run.stage != CreationStage::Failed,
        run.after(seen).stage == CreationStage::Passed || run.after(seen).stage
            == CreationStage::Failed,
    ensures
        run.stage == CreationStage::Closing(2) && seen == Seen::Done || run.stage
            == CreationStage::Asking && run.next == Following::Pass,
{
}

/// A creation asks its questions one by one. A surprise gives everything back;
/// once its threads are looked at, the next eligible one is dispatched and run; and
/// calls for a thread are told apart from calls that revoke one.
pub proof fn creations_go_step_by_step(run: CreationView, seen: Seen, n: u64)
    requires
        run.well_formed(),
    ensures
        ({
            let next = run.after(seen);
            &&& run.stage == CreationStage::Asking ==> run.question() == Some(run.queue[run.at].act)
            &&& run.stage == CreationStage::Asking && accepted(
                run.queue[run.at].want,
                run.book,
                seen,
            ) is None ==> {
                &&& run.next == Following::Pass ==> next.stage == CreationStage::Failed
                &&& run.next != Following::Pass ==> next.stage == CreationStage::Closing(0)
                    && !next.held
            }
            &&& run.stage == CreationStage::Asking && accepted(
                run.queue[run.at].want,
                run.book,
                seen,
            ) is Some && run.at + 1 < run.queue.len() ==> next.stage == CreationStage::Asking
                && next.at == run.at + 1
            &&& run.stage == CreationStage::AskWait ==> run.question() == Some(
                Act::WaitIsOver(Who::First),
            )
            &&& (run.stage matches CreationStage::Dispatch(index) ==> {
                &&& seen == Seen::Done ==> next.stage == CreationStage::Run(index)
                &&& seen != Seen::Done ==> next.stage == CreationStage::Closing(0) && !next.held
            })
            &&& (run.stage matches CreationStage::Execute(index) ==> {
                &&& seen == Seen::Progress(Progress::Preparing) ==> next.stage
                    == CreationStage::Requested(index)
                &&& seen == Seen::Progress(Progress::Aborting) ==> next.stage
                    == CreationStage::Target(index)
            })
            &&& (run.stage matches CreationStage::Requested(index) ==> (seen matches Seen::Numbers(
                entry,
                stack,
            ) ==> next.stage == CreationStage::Records(index, entry, stack)))
        }),
        run.stage == CreationStage::Run(0) ==> run.question() == Some(
            Act::ResumeScheduled { who: Who::First, millis: 50 },
        ),
        run.stage == CreationStage::Run(1) ==> run.question() == Some(
            Act::ResumeScheduled { who: Who::Second, millis: 50 },
        ),
        run.stage == CreationStage::Run(2) ==> run.question() == Some(
            Act::ResumeScheduled { who: Who::Third, millis: 50 },
        ),
        run.stage == CreationStage::Closing(0) ==> run.question() == Some(Act::DropContext),
        run.stage == CreationStage::Closing(1) ==> run.question() == Some(Act::FreeSpareFrames),
        run.stage == CreationStage::Closing(2) ==> run.question() == Some(Act::ReclaimAll),
        run.stage == CreationStage::Closing(n) && seen != Seen::Done ==> run.after(seen).stage
            == CreationStage::Stuck,
        run.stage == CreationStage::Closing(n) && n < 2 && seen == Seen::Done ==> (run.after(
            seen,
        ).stage matches CreationStage::Closing(m) && m == n + 1),
        run.stage == CreationStage::Closing(2) && seen == Seen::Done && !run.held ==> run.after(
            seen,
        ).stage == CreationStage::Failed,
        run.stage == CreationStage::Closing(2) && seen == Seen::Done && run.held ==> run.after(
            seen,
        ).stage == CreationStage::Asking && run.after(seen).next == Following::Pass,
{
}

} // verus!
