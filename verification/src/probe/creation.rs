//! Threads that are created by threads: preparing, starting, revoking and
//! joining them.

use crate::probe::layout::METADATA_LIMIT;
use crate::probe::trial::{
    all_sensible, ask, once, sensible, Step,
};
use crate::probe::words::{
    Act, Admission, Backing, Holder, Mark, Progress, StatsMark, Stop, Want, Who, ThreadState,
};
use vstd::prelude::*;

verus! {

/// Status with which the worker exits.
pub const WORKER_STATUS: u64 = 0x7788;

/// Most turns.
pub const MOST_TURNS: u64 = 256;

/// A process whose initial thread is admitted but does not run yet.
pub open spec fn creation_set_up() -> Seq<Step> {
    seq![
        once(Act::TakeThreadFrames(Who::First), Want::Done),
        once(Act::LayOut, Want::Done),
        once(Act::BuildRoot, Want::Done),
        once(Act::AddProcess(Holder::Own), Want::Done),
        once(Act::OpenThreadRight { start: true, create: true }, Want::Done),
        once(Act::SetQuota { holder: Holder::Own, records: 3, pages: 15 }, Want::Done),
        once(Act::AddInitial { who: Who::First, reservation: 1, pages: 5 }, Want::Done),
        once(Act::AddSync, Want::Done),
        once(Act::LayOutThread(Who::First), Want::Done),
        once(Act::MakeContext { contexts: 3, metadata: METADATA_LIMIT, backed: false }, Want::Done),
        once(Act::Stats, Want::KeepStats(StatsMark::Baseline)),
        once(Act::Metadata, Want::Keep(Mark::Metadata)),
        once(Act::Admit { who: Who::First, form: Admission::Right }, Want::Done),
        once(Act::MemoryIs { who: Who::First, cycles: 0 }, Want::Flag(true)),
        once(Act::ResumeScheduled { who: Who::First, millis: 1 }, Want::Refused),
        once(Act::Start(Who::First), Want::Done),
    ]
}

fn ask_creation_set_up(steps: &mut Vec<Step>)
    ensures
        final(steps)@ == old(steps)@ + creation_set_up(),
{
    let ghost before = steps@;
    ask(steps, Act::TakeThreadFrames(Who::First), Want::Done);
    ask(steps, Act::LayOut, Want::Done);
    ask(steps, Act::BuildRoot, Want::Done);
    ask(steps, Act::AddProcess(Holder::Own), Want::Done);
    ask(steps, Act::OpenThreadRight { start: true, create: true }, Want::Done);
    ask(steps, Act::SetQuota { holder: Holder::Own, records: 3, pages: 15 }, Want::Done);
    ask(steps, Act::AddInitial { who: Who::First, reservation: 1, pages: 5 }, Want::Done);
    ask(steps, Act::AddSync, Want::Done);
    ask(steps, Act::LayOutThread(Who::First), Want::Done);
    ask(steps, Act::MakeContext { contexts: 3, metadata: METADATA_LIMIT, backed: false }, Want::Done);
    ask(steps, Act::Stats, Want::KeepStats(StatsMark::Baseline));
    ask(steps, Act::Metadata, Want::Keep(Mark::Metadata));
    ask(steps, Act::Admit { who: Who::First, form: Admission::Right }, Want::Done);
    ask(steps, Act::MemoryIs { who: Who::First, cycles: 0 }, Want::Flag(true));
    ask(steps, Act::ResumeScheduled { who: Who::First, millis: 1 }, Want::Refused);
    ask(steps, Act::Start(Who::First), Want::Done);
    assert(steps@ =~= before + creation_set_up());
}

/// A thread's frames are freed before its record says so.
pub open spec fn reclaim_thread(who: Who) -> Seq<Step> {
    seq![
        once(Act::FreeThreadFrames(who), Want::Done),
        once(Act::Release(who), Want::Number(5)),
    ]
}

fn ask_reclaim_thread(steps: &mut Vec<Step>, who: Who)
    ensures
        final(steps)@ == old(steps)@ + reclaim_thread(who),
{
    let ghost before = steps@;
    ask(steps, Act::FreeThreadFrames(who), Want::Done);
    ask(steps, Act::Release(who), Want::Number(5));
    assert(steps@ =~= before + reclaim_thread(who));
}

/// The revoked child loses its mappings and its frames.
pub open spec fn discard_child() -> Seq<Step> {
    seq![
        once(Act::Discard { who: Who::Third, backing: Backing::Right }, Want::Receipt { who: Who::Third, pages: 3 }),
        once(Act::FreeThreadFrames(Who::Third), Want::Done),
        once(Act::Release(Who::Third), Want::Number(5)),
    ]
}

fn ask_discard_child(steps: &mut Vec<Step>)
    ensures
        final(steps)@ == old(steps)@ + discard_child(),
{
    let ghost before = steps@;
    ask(steps, Act::Discard { who: Who::Third, backing: Backing::Right }, Want::Receipt { who: Who::Third, pages: 3 });
    ask(steps, Act::FreeThreadFrames(Who::Third), Want::Done);
    ask(steps, Act::Release(Who::Third), Want::Number(5));
    assert(steps@ =~= before + discard_child());
}

/// The caller gets its reply and goes on.
pub open spec fn answer_caller(who: Who) -> Seq<Step> {
    seq![
        once(Act::Reply(who), Want::Done),
        once(Act::Yield(who), Want::Done),
    ]
}

fn ask_answer_caller(steps: &mut Vec<Step>, who: Who)
    ensures
        final(steps)@ == old(steps)@ + answer_caller(who),
{
    let ghost before = steps@;
    ask(steps, Act::Reply(who), Want::Done);
    ask(steps, Act::Yield(who), Want::Done);
    assert(steps@ =~= before + answer_caller(who));
}

/// The thread goes on.
pub open spec fn go_on(who: Who) -> Seq<Step> {
    seq![
        once(Act::Yield(who), Want::Done),
    ]
}

fn ask_go_on(steps: &mut Vec<Step>, who: Who)
    ensures
        final(steps)@ == old(steps)@ + go_on(who),
{
    let ghost before = steps@;
    ask(steps, Act::Yield(who), Want::Done);
    assert(steps@ =~= before + go_on(who));
}

/// The worker is started; its creator is answered later.
pub open spec fn start_worker() -> Seq<Step> {
    seq![
        once(Act::CompleteStart, Want::Done),
        once(Act::Yield(Who::First), Want::Done),
    ]
}

fn ask_start_worker(steps: &mut Vec<Step>)
    ensures
        final(steps)@ == old(steps)@ + start_worker(),
{
    let ghost before = steps@;
    ask(steps, Act::CompleteStart, Want::Done);
    ask(steps, Act::Yield(Who::First), Want::Done);
    assert(steps@ =~= before + start_worker());
}

/// The worker ran its first cycle before its creator was told that it was
/// started.
pub open spec fn worker_ran() -> Seq<Step> {
    seq![
        once(Act::MemoryIs { who: Who::Second, cycles: 1 }, Want::Flag(true)),
        once(Act::Reply(Who::First), Want::Done),
        once(Act::Yield(Who::Second), Want::Done),
    ]
}

fn ask_worker_ran(steps: &mut Vec<Step>)
    ensures
        final(steps)@ == old(steps)@ + worker_ran(),
{
    let ghost before = steps@;
    ask(steps, Act::MemoryIs { who: Who::Second, cycles: 1 }, Want::Flag(true));
    ask(steps, Act::Reply(Who::First), Want::Done);
    ask(steps, Act::Yield(Who::Second), Want::Done);
    assert(steps@ =~= before + worker_ran());
}

/// A revocation waits for the memory of the thread.
pub open spec fn abort_begins() -> Seq<Step> {
    seq![
        once(Act::FinishRevocation(Who::Second), Want::Refused),
    ]
}

fn ask_abort_begins(steps: &mut Vec<Step>)
    ensures
        final(steps)@ == old(steps)@ + abort_begins(),
{
    let ghost before = steps@;
    ask(steps, Act::FinishRevocation(Who::Second), Want::Refused);
    assert(steps@ =~= before + abort_begins());
}

/// The revocation ends, and its caller goes on.
pub open spec fn abort_ends() -> Seq<Step> {
    seq![
        once(Act::FinishRevocation(Who::Second), Want::Done),
        once(Act::Reply(Who::Second), Want::Done),
        once(Act::Yield(Who::Second), Want::Done),
    ]
}

fn ask_abort_ends(steps: &mut Vec<Step>)
    ensures
        final(steps)@ == old(steps)@ + abort_ends(),
{
    let ghost before = steps@;
    ask(steps, Act::FinishRevocation(Who::Second), Want::Done);
    ask(steps, Act::Reply(Who::Second), Want::Done);
    ask(steps, Act::Yield(Who::Second), Want::Done);
    assert(steps@ =~= before + abort_ends());
}

/// A thread exits and loses its mappings.
pub open spec fn exit_begins(who: Who) -> Seq<Step> {
    seq![
        once(Act::ExitEffect(who), Want::Flag(false)),
        once(Act::MemoryIs { who, cycles: 1 }, Want::Flag(true)),
        once(Act::Retire { who, backing: Backing::Right }, Want::Receipt { who, pages: 3 }),
        once(Act::FinishExit(who), Want::Done),
    ]
}

fn ask_exit_begins(steps: &mut Vec<Step>, who: Who)
    ensures
        final(steps)@ == old(steps)@ + exit_begins(who),
{
    let ghost before = steps@;
    ask(steps, Act::ExitEffect(who), Want::Flag(false));
    ask(steps, Act::MemoryIs { who, cycles: 1 }, Want::Flag(true));
    ask(steps, Act::Retire { who, backing: Backing::Right }, Want::Receipt { who, pages: 3 });
    ask(steps, Act::FinishExit(who), Want::Done);
    assert(steps@ =~= before + exit_begins(who));
}

/// The worker's child is revoked with it, while the initial thread still waits
/// for the worker.
pub open spec fn child_revoked() -> Seq<Step> {
    seq![
        once(Act::WaitIsOver(Who::First), Want::Flag(false)),
        once(Act::StateOf(Who::Third), Want::State(ThreadState::Revoked)),
        once(Act::MemoryIs { who: Who::Third, cycles: 0 }, Want::Flag(true)),
    ]
}

fn ask_child_revoked(steps: &mut Vec<Step>)
    ensures
        final(steps)@ == old(steps)@ + child_revoked(),
{
    let ghost before = steps@;
    ask(steps, Act::WaitIsOver(Who::First), Want::Flag(false));
    ask(steps, Act::StateOf(Who::Third), Want::State(ThreadState::Revoked));
    ask(steps, Act::MemoryIs { who: Who::Third, cycles: 0 }, Want::Flag(true));
    assert(steps@ =~= before + child_revoked());
}

/// The child is forgotten.
pub open spec fn child_gone() -> Seq<Step> {
    seq![
        once(Act::Reap(Who::Third), Want::Done),
    ]
}

fn ask_child_gone(steps: &mut Vec<Step>)
    ensures
        final(steps)@ == old(steps)@ + child_gone(),
{
    let ghost before = steps@;
    ask(steps, Act::Reap(Who::Third), Want::Done);
    assert(steps@ =~= before + child_gone());
}

/// The initial thread is forgotten.
pub open spec fn initial_gone() -> Seq<Step> {
    seq![
        once(Act::Reap(Who::First), Want::Done),
    ]
}

fn ask_initial_gone(steps: &mut Vec<Step>)
    ensures
        final(steps)@ == old(steps)@ + initial_gone(),
{
    let ghost before = steps@;
    ask(steps, Act::Reap(Who::First), Want::Done);
    assert(steps@ =~= before + initial_gone());
}

/// The initial thread learns the status of the worker, which is forgotten.
pub open spec fn joined() -> Seq<Step> {
    seq![
        once(Act::Dispatch(Who::First), Want::Done),
        once(Act::EndWait(Who::First), Want::Number(WORKER_STATUS)),
        once(Act::Reap(Who::Second), Want::Done),
        once(Act::Reply(Who::First), Want::Done),
        once(Act::Yield(Who::First), Want::Done),
    ]
}

fn ask_joined(steps: &mut Vec<Step>)
    ensures
        final(steps)@ == old(steps)@ + joined(),
{
    let ghost before = steps@;
    ask(steps, Act::Dispatch(Who::First), Want::Done);
    ask(steps, Act::EndWait(Who::First), Want::Number(WORKER_STATUS));
    ask(steps, Act::Reap(Who::Second), Want::Done);
    ask(steps, Act::Reply(Who::First), Want::Done);
    ask(steps, Act::Yield(Who::First), Want::Done);
    assert(steps@ =~= before + joined());
}

/// The right to a call is checked, and the call taken up.
pub open spec fn take_call(who: Who) -> Seq<Step> {
    seq![
        once(Act::Authorize(who), Want::Done),
        once(Act::TakeUp(who), Want::Done),
    ]
}

fn ask_take_call(steps: &mut Vec<Step>, who: Who)
    ensures
        final(steps)@ == old(steps)@ + take_call(who),
{
    let ghost before = steps@;
    ask(steps, Act::Authorize(who), Want::Done);
    ask(steps, Act::TakeUp(who), Want::Done);
    assert(steps@ =~= before + take_call(who));
}

/// A thread is reserved; it cannot be reported as prepared before it is
/// mapped.
pub open spec fn reserve_thread(who: Who, reservation: u64) -> Seq<Step> {
    seq![
        once(Act::TakeThreadFrames(who), Want::Done),
        once(Act::Reserve { who, reservation, pages: 5 }, Want::Done),
        once(Act::LayOutThread(who), Want::Done),
        once(Act::Stats, Want::KeepStats(StatsMark::Before)),
        once(Act::CompletePreparation { moved: false }, Want::Refused),
        once(Act::Stats, Want::SameStats(StatsMark::Before)),
    ]
}

fn ask_reserve_thread(steps: &mut Vec<Step>, who: Who, reservation: u64)
    ensures
        final(steps)@ == old(steps)@ + reserve_thread(who, reservation),
{
    let ghost before = steps@;
    ask(steps, Act::TakeThreadFrames(who), Want::Done);
    ask(steps, Act::Reserve { who, reservation, pages: 5 }, Want::Done);
    ask(steps, Act::LayOutThread(who), Want::Done);
    ask(steps, Act::Stats, Want::KeepStats(StatsMark::Before));
    ask(steps, Act::CompletePreparation { moved: false }, Want::Refused);
    ask(steps, Act::Stats, Want::SameStats(StatsMark::Before));
    assert(steps@ =~= before + reserve_thread(who, reservation));
}

/// Without message pages the thread is revoked again, and nothing of it was
/// mapped.
pub open spec fn roll_back(who: Who, others: u64, stack: u64) -> Seq<Step> {
    seq![
        once(Act::TakeAllPairs, Want::Number(others)),
        once(Act::TakeSpare, Want::Refused),
        once(Act::RevokePreparation, Want::Done),
        once(Act::FinishRollback, Want::Refused),
        once(Act::Stats, Want::SameStats(StatsMark::Before)),
        once(Act::Leaf(stack), Want::Refused),
        once(Act::LookAtThread(who), Want::KeepThread),
        once(Act::FreeThreadFrames(who), Want::Done),
        once(Act::Release(who), Want::Number(5)),
        once(Act::FinishRollback, Want::Done),
        once(Act::DropAllPairs, Want::Done),
    ]
}

fn ask_roll_back(steps: &mut Vec<Step>, who: Who, others: u64, stack: u64)
    ensures
        final(steps)@ == old(steps)@ + roll_back(who, others, stack),
{
    let ghost before = steps@;
    ask(steps, Act::TakeAllPairs, Want::Number(others));
    ask(steps, Act::TakeSpare, Want::Refused);
    ask(steps, Act::RevokePreparation, Want::Done);
    ask(steps, Act::FinishRollback, Want::Refused);
    ask(steps, Act::Stats, Want::SameStats(StatsMark::Before));
    ask(steps, Act::Leaf(stack), Want::Refused);
    ask(steps, Act::LookAtThread(who), Want::KeepThread);
    ask(steps, Act::FreeThreadFrames(who), Want::Done);
    ask(steps, Act::Release(who), Want::Number(5));
    ask(steps, Act::FinishRollback, Want::Done);
    ask(steps, Act::DropAllPairs, Want::Done);
    assert(steps@ =~= before + roll_back(who, others, stack));
}

/// The worker has the slot that was rolled back, in its next incarnation.
pub open spec fn comes_again() -> Seq<Step> {
    seq![
        once(Act::LookAtThread(Who::Second), Want::NextThread),
    ]
}

fn ask_comes_again(steps: &mut Vec<Step>)
    ensures
        final(steps)@ == old(steps)@ + comes_again(),
{
    let ghost before = steps@;
    ask(steps, Act::LookAtThread(Who::Second), Want::NextThread);
    assert(steps@ =~= before + comes_again());
}

/// The thread is mapped with clean memory; it does not run, and is reported
/// with the right code address only.
pub open spec fn map_thread(who: Who) -> Seq<Step> {
    seq![
        once(Act::Admit { who, form: Admission::Right }, Want::Done),
        once(Act::MemoryIs { who, cycles: 0 }, Want::Flag(true)),
        once(Act::ResumeScheduled { who, millis: 1 }, Want::Refused),
        once(Act::CompletePreparation { moved: true }, Want::Refused),
        once(Act::CompletePreparation { moved: false }, Want::Done),
    ]
}

fn ask_map_thread(steps: &mut Vec<Step>, who: Who)
    ensures
        final(steps)@ == old(steps)@ + map_thread(who),
{
    let ghost before = steps@;
    ask(steps, Act::Admit { who, form: Admission::Right }, Want::Done);
    ask(steps, Act::MemoryIs { who, cycles: 0 }, Want::Flag(true));
    ask(steps, Act::ResumeScheduled { who, millis: 1 }, Want::Refused);
    ask(steps, Act::CompletePreparation { moved: true }, Want::Refused);
    ask(steps, Act::CompletePreparation { moved: false }, Want::Done);
    assert(steps@ =~= before + map_thread(who));
}

/// The request is invalid.
pub open spec fn reject_invalid() -> Seq<Step> {
    seq![
        once(Act::RejectPreparation { invalid: true }, Want::Done),
    ]
}

fn ask_reject_invalid(steps: &mut Vec<Step>)
    ensures
        final(steps)@ == old(steps)@ + reject_invalid(),
{
    let ghost before = steps@;
    ask(steps, Act::RejectPreparation { invalid: true }, Want::Done);
    assert(steps@ =~= before + reject_invalid());
}

/// There is no room.
pub open spec fn reject_exhausted() -> Seq<Step> {
    seq![
        once(Act::RejectPreparation { invalid: false }, Want::Done),
    ]
}

fn ask_reject_exhausted(steps: &mut Vec<Step>)
    ensures
        final(steps)@ == old(steps)@ + reject_exhausted(),
{
    let ghost before = steps@;
    ask(steps, Act::RejectPreparation { invalid: false }, Want::Done);
    assert(steps@ =~= before + reject_exhausted());
}

/// Only page tables were spent.
pub open spec fn creation_end() -> Seq<Step> {
    seq![
        once(Act::Stats, Want::Mapped { mark: StatsMark::Baseline, gained: 0, lost: 0 }),
        once(Act::Stats, Want::MoreTables { mark: StatsMark::Baseline, more: 4 }),
        once(Act::Metadata, Want::Kept(Mark::Metadata)),
        once(Act::CommittedPages, Want::Number(0)),
        once(Act::StopContext, Want::Done),
        once(Act::DropContext, Want::Done),
        once(Act::StopSync, Want::Done),
        once(Act::SyncUsage, Want::Numbers(0, 0)),
        once(Act::WithdrawRight, Want::Done),
    ]
}

fn ask_creation_end(steps: &mut Vec<Step>)
    ensures
        final(steps)@ == old(steps)@ + creation_end(),
{
    let ghost before = steps@;
    ask(steps, Act::Stats, Want::Mapped { mark: StatsMark::Baseline, gained: 0, lost: 0 });
    ask(steps, Act::Stats, Want::MoreTables { mark: StatsMark::Baseline, more: 4 });
    ask(steps, Act::Metadata, Want::Kept(Mark::Metadata));
    ask(steps, Act::CommittedPages, Want::Number(0));
    ask(steps, Act::StopContext, Want::Done);
    ask(steps, Act::DropContext, Want::Done);
    ask(steps, Act::StopSync, Want::Done);
    ask(steps, Act::SyncUsage, Want::Numbers(0, 0));
    ask(steps, Act::WithdrawRight, Want::Done);
    assert(steps@ =~= before + creation_end());
}

/// What is given back, whatever was seen: the context before its frames.
pub open spec fn creation_giving_back() -> Seq<Act> {
    seq![Act::DropContext, Act::FreeSpareFrames, Act::ReclaimAll]
}

fn list_creation_giving_back() -> (acts: Vec<Act>)
    ensures
        acts@ == creation_giving_back(),
{
    let mut acts: Vec<Act> = Vec::new();
    acts.push(Act::DropContext);
    acts.push(Act::FreeSpareFrames);
    acts.push(Act::ReclaimAll);
    assert(acts@ =~= creation_giving_back());
    acts
}

/// Nothing is missing.
pub open spec fn creation_confirming() -> Seq<Step> {
    seq![
        once(Act::RemoveProcess(Holder::Own), Want::Done),
        once(Act::CommittedPages, Want::Number(0)),
        once(Act::FreeFrames, Want::Kept(Mark::Free)),
    ]
}

fn ask_creation_confirming(steps: &mut Vec<Step>)
    ensures
        final(steps)@ == old(steps)@ + creation_confirming(),
{
    let ghost before = steps@;
    ask(steps, Act::RemoveProcess(Holder::Own), Want::Done);
    ask(steps, Act::CommittedPages, Want::Number(0));
    ask(steps, Act::FreeFrames, Want::Kept(Mark::Free));
    assert(steps@ =~= before + creation_confirming());
}

/// What a creation probe knows of its three threads.
#[derive(Clone, Copy, Debug, PartialEq, Eq, Structural)]
pub struct Creation {
    /// Whether the initial thread is recorded.
    pub first: bool,
    /// Whether the worker is recorded.
    pub second: bool,
    /// Whether the worker's child is recorded.
    pub third: bool,
    /// Whether the initial thread has frames.
    pub first_frames: bool,
    /// Whether the worker has frames.
    pub second_frames: bool,
    /// Whether the child has frames.
    pub third_frames: bool,
    /// Whether the creator's answer to a start is held back.
    pub start_held: bool,
    /// Whether the initial thread waits for the worker.
    pub waiting: bool,
    /// Whether a preparation was rolled back.
    pub injected: bool,
    /// Whether the worker is held back.
    pub worker_held: bool,
    /// Whether the worker was joined.
    pub joined: bool,
    /// Children that were revoked with their creator.
    pub revoked: u64,
    /// Threads that were prepared.
    pub prepared: u64,
    /// Where the search for the next thread begins.
    pub cursor: u64,
}

/// What follows, and the state once all of it went as expected.
#[derive(Debug)]
pub struct Turn {
    /// Steps.
    pub steps: Vec<Step>,
    /// State afterwards.
    pub after: Creation,
}

/// What follows, as a value.
pub struct TurnView {
    /// Steps.
    pub steps: Seq<Step>,
    /// State afterwards.
    pub after: Creation,
}

impl View for Turn {
    type V = TurnView;

    open spec fn view(&self) -> TurnView {
        TurnView { steps: self.steps@, after: self.after }
    }
}

/// What follows, if anything may.
pub open spec fn turn_view(turn: Option<Turn>) -> Option<TurnView> {
    match turn {
        Some(t) => Some(t@),
        None => None,
    }
}

/// The thread with a number.
pub open spec fn thread(index: int) -> Who {
    if index == 0 {
        Who::First
    } else if index == 1 {
        Who::Second
    } else {
        Who::Third
    }
}

/// A thread by its number.
pub fn numbered(index: u64) -> (who: Who)
    ensures
        who == thread(index as int),
{
    if index == 0 {
        Who::First
    } else if index == 1 {
        Who::Second
    } else {
        Who::Third
    }
}

impl Creation {
    /// Only recorded threads have frames, the initial thread has them as long
    /// as it is recorded, and so has the child; counters are small.
    pub open spec fn well_formed(self) -> bool {
        &&& self.first_frames == self.first
        &&& self.second_frames ==> self.second
        &&& self.third_frames == self.third
        &&& self.prepared <= MOST_TURNS
        &&& self.revoked <= MOST_TURNS
        &&& self.cursor < 3
    }

    /// Whether a thread is recorded.
    pub open spec fn recorded(self, index: int) -> bool {
        if index == 0 {
            self.first
        } else if index == 1 {
            self.second
        } else {
            self.third
        }
    }

    /// The state after a thread was recorded with its frames.
    pub open spec fn with_thread(self, index: int) -> Creation {
        if index == 0 {
            Creation { first: true, first_frames: true, ..self }
        } else if index == 1 {
            Creation { second: true, second_frames: true, ..self }
        } else {
            Creation { third: true, third_frames: true, ..self }
        }
    }

    /// Before the first turn only the initial thread is there.
    pub open spec fn begin() -> Creation {
        Creation {
            first: true,
            second: false,
            third: false,
            first_frames: true,
            second_frames: false,
            third_frames: false,
            start_held: false,
            waiting: false,
            injected: false,
            worker_held: false,
            joined: false,
            revoked: 0,
            prepared: 0,
            cursor: 0,
        }
    }

    /// Begin with the initial thread.
    pub fn new() -> (creation: Creation)
        ensures
            creation == Creation::begin(),
            creation.well_formed(),
    {
        Creation {
            first: true,
            second: false,
            third: false,
            first_frames: true,
            second_frames: false,
            third_frames: false,
            start_held: false,
            waiting: false,
            injected: false,
            worker_held: false,
            joined: false,
            revoked: 0,
            prepared: 0,
            cursor: 0,
        }
    }

    /// Whether no thread is left.
    pub open spec fn over(self) -> bool {
        !self.first && !self.second && !self.third
    }

    /// Whether no thread is left.
    pub fn is_over(&self) -> (yes: bool)
        ensures
            yes == self.over(),
    {
        !self.first && !self.second && !self.third
    }

    /// Whether everything happened that was to happen.
    pub open spec fn complete(self) -> bool {
        &&& self.over()
        &&& !self.first_frames && !self.second_frames && !self.third_frames
        &&& !self.start_held
        &&& !self.waiting
        &&& self.injected
        &&& self.joined
        &&& self.prepared == 3
        &&& self.revoked == 1
    }

    /// Check that everything happened that was to happen.
    pub fn is_complete(&self) -> (yes: bool)
        ensures
            yes == self.complete(),
    {
        self.is_over() && !self.first_frames && !self.second_frames && !self.third_frames
            && !self.start_held && !self.waiting && self.injected && self.joined && self.prepared
            == 3 && self.revoked == 1
    }

    /// Whether a thread may run: it is recorded and ready and not held back.
    pub open spec fn eligible(self, index: int, ready: Seq<bool>) -> bool {
        &&& self.recorded(index)
        &&& ready[index]
        &&& !(index == 0 && self.start_held)
        &&& !(index == 1 && self.worker_held)
    }

    /// The thread that runs next: the first eligible one from the cursor on.
    pub open spec fn choice(self, ready: Seq<bool>) -> Option<int> {
        let a = self.cursor as int;
        let b = (self.cursor + 1) % 3;
        let c = (self.cursor + 2) % 3;
        if self.eligible(a, ready) {
            Some(a)
        } else if self.eligible(b, ready) {
            Some(b)
        } else if self.eligible(c, ready) {
            Some(c)
        } else {
            None
        }
    }

    fn may_run(&self, index: u64, ready: &[bool; 3]) -> (yes: bool)
        requires
            index < 3,
        ensures
            yes == self.eligible(index as int, ready@),
    {
        let recorded = if index == 0 {
            self.first
        } else if index == 1 {
            self.second
        } else {
            self.third
        };
        recorded && ready[index as usize] && !(index == 0 && self.start_held) && !(index == 1
            && self.worker_held)
    }

    /// Choose the thread that runs next and move the cursor behind it.
    pub fn choose_thread(&mut self, ready: &[bool; 3]) -> (chosen: Option<u64>)
        requires
            old(self).well_formed(),
        ensures
            final(self).well_formed(),
            match chosen {
                Some(index) => old(self).choice(ready@) == Some(index as int) && *final(self) == (
                Creation { cursor: ((index + 1) % 3) as u64, ..*old(self) }),
                None => old(self).choice(ready@) is None && *final(self) == *old(self),
            },
    {
        let mut n: u64 = 0;
        while n < 3
            invariant
                n <= 3,
                *self == *old(self),
                self.well_formed(),
                n > 0 ==> !self.eligible(self.cursor as int, ready@),
                n > 1 ==> !self.eligible((self.cursor + 1) % 3, ready@),
                n > 2 ==> !self.eligible((self.cursor + 2) % 3, ready@),
            decreases 3 - n,
        {
            let index: u64 = (self.cursor + n) % 3;
            if self.may_run(index, ready) {
                self.cursor = (index + 1) % 3;
                return Some(index);
            }
            n = n + 1;
        }
        None
    }

    /// What follows when the wait of the initial thread is over.
    pub open spec fn after_wait(self) -> Option<TurnView> {
        if self.waiting && self.revoked == 1 && self.second && !self.second_frames {
            Some(
                TurnView {
                    steps: joined(),
                    after: Creation {
                        waiting: false,
                        second: false,
                        joined: true,
                        ..self
                    },
                },
            )
        } else {
            None
        }
    }

    /// The wait of the initial thread is over. Nothing may follow before the
    /// worker's child and the worker's frames are gone.
    pub fn finish_wait(&self) -> (turn: Option<Turn>)
        requires
            self.well_formed(),
        ensures
            turn_view(turn) == self.after_wait(),
            turn matches Some(t) ==> t.after.well_formed(),
    {
        if !self.waiting || self.revoked != 1 || !self.second || self.second_frames {
            return None;
        }
        let mut steps: Vec<Step> = Vec::new();
        ask_joined(&mut steps);
        assert(steps@ =~= joined());
        Some(Turn { steps, after: Creation { waiting: false, second: false, joined: true, ..*self } })
    }

    /// What follows when a thread came back.
    pub open spec fn after_stop(self, index: int, stop: Stop) -> Option<TurnView> {
        match stop {
            Stop::Preempted => Some(TurnView { steps: go_on(thread(index)), after: self }),
            Stop::Yielded => if index == 1 && self.start_held {
                Some(
                    TurnView {
                        steps: worker_ran(),
                        after: Creation { start_held: false, worker_held: true, ..self },
                    },
                )
            } else {
                None
            },
            Stop::SchedulerCall => Some(TurnView { steps: take_call(thread(index)), after: self }),
            _ => None,
        }
    }

    /// A thread came back. Only the worker gives up the processor, and only
    /// before its creator knows that it was started.
    pub fn stopped(&self, index: u64, stop: Stop) -> (turn: Option<Turn>)
        requires
            self.well_formed(),
        ensures
            turn_view(turn) == self.after_stop(index as int, stop),
            turn matches Some(t) ==> t.after.well_formed(),
    {
        let who = numbered(index);
        let mut steps: Vec<Step> = Vec::new();
        let mut after = *self;
        match stop {
            Stop::Preempted => {
                ask_go_on(&mut steps, who);
                assert(steps@ =~= go_on(who));
            },
            Stop::Yielded => {
                if index != 1 || !self.start_held {
                    return None;
                }
                ask_worker_ran(&mut steps);
                assert(steps@ =~= worker_ran());
                after.start_held = false;
                after.worker_held = true;
            },
            Stop::SchedulerCall => {
                ask_take_call(&mut steps, who);
                assert(steps@ =~= take_call(who));
            },
            _ => return None,
        }
        Some(Turn { steps, after })
    }

    /// What follows an exit of a thread.
    pub open spec fn after_exit(self, index: int) -> Option<TurnView> {
        if index == 0 && self.first {
            Some(
                TurnView {
                    steps: Seq::<Step>::empty() + exit_begins(Who::First) + reclaim_thread(
                        Who::First,
                    ) + initial_gone(),
                    after: Creation { first: false, first_frames: false, ..self },
                },
            )
        } else if index == 1 && self.second_frames && self.waiting && self.third {
            Some(
                TurnView {
                    steps: Seq::<Step>::empty() + exit_begins(Who::Second) + child_revoked()
                        + discard_child() + child_gone() + reclaim_thread(Who::Second),
                    after: Creation {
                        second_frames: false,
                        third: false,
                        third_frames: false,
                        revoked: (self.revoked + 1) as u64,
                        ..self
                    },
                },
            )
        } else {
            None
        }
    }

    /// What follows when an operation was executed; a revocation must be of
    /// the child.
    pub open spec fn after_progress(self, index: int, progress: Progress, of_child: bool) -> Option<
        TurnView,
    > {
        match progress {
            Progress::Complete => Some(
                TurnView { steps: answer_caller(thread(index)), after: self },
            ),
            Progress::Starting => if index == 0 && !self.start_held && self.prepared == 1 {
                Some(
                    TurnView {
                        steps: start_worker(),
                        after: Creation { start_held: true, ..self },
                    },
                )
            } else {
                None
            },
            Progress::Aborting => if index == 1 && self.third && of_child {
                Some(
                    TurnView {
                        steps: Seq::<Step>::empty() + abort_begins() + discard_child()
                            + abort_ends(),
                        after: Creation { third: false, third_frames: false, ..self },
                    },
                )
            } else {
                None
            },
            Progress::Waiting => if index == 0 && !self.waiting && self.worker_held {
                Some(
                    TurnView {
                        steps: Seq::<Step>::empty(),
                        after: Creation { waiting: true, worker_held: false, ..self },
                    },
                )
            } else {
                None
            },
            Progress::Retiring => self.after_exit(index),
            Progress::Preparing => None,
        }
    }

    /// An operation was executed. A preparation is decided elsewhere.
    pub fn apply(&self, index: u64, progress: Progress, of_child: bool) -> (turn: Option<Turn>)
        requires
            self.well_formed(),
            self.revoked < MOST_TURNS,
        ensures
            turn_view(turn) == self.after_progress(index as int, progress, of_child),
            turn matches Some(t) ==> t.after.well_formed(),
    {
        let who = numbered(index);
        let mut steps: Vec<Step> = Vec::new();
        let mut after = *self;
        match progress {
            Progress::Complete => {
                ask_answer_caller(&mut steps, who);
                assert(steps@ =~= answer_caller(who));
            },
            Progress::Starting => {
                if index != 0 || self.start_held || self.prepared != 1 {
                    return None;
                }
                ask_start_worker(&mut steps);
                assert(steps@ =~= start_worker());
                after.start_held = true;
            },
            Progress::Aborting => {
                if index != 1 || !self.third || !of_child {
                    return None;
                }
                ask_abort_begins(&mut steps);
                ask_discard_child(&mut steps);
                ask_abort_ends(&mut steps);
                after.third = false;
                after.third_frames = false;
            },
            Progress::Waiting => {
                if index != 0 || self.waiting || !self.worker_held {
                    return None;
                }
                after.waiting = true;
                after.worker_held = false;
            },
            Progress::Retiring => {
                if index == 0 && self.first {
                    ask_exit_begins(&mut steps, Who::First);
                    ask_reclaim_thread(&mut steps, Who::First);
                    ask_initial_gone(&mut steps);
                    after.first = false;
                    after.first_frames = false;
                } else if index == 1 && self.second_frames && self.waiting && self.third {
                    ask_exit_begins(&mut steps, Who::Second);
                    ask_child_revoked(&mut steps);
                    ask_discard_child(&mut steps);
                    ask_child_gone(&mut steps);
                    ask_reclaim_thread(&mut steps, Who::Second);
                    after.second_frames = false;
                    after.third = false;
                    after.third_frames = false;
                    after.revoked = self.revoked + 1;
                } else {
                    return None;
                }
            },
            Progress::Preparing => return None,
        }
        Some(Turn { steps, after })
    }

    /// The number of the next thread.
    pub open spec fn vacancy(self) -> Option<int> {
        if !self.first {
            Some(0)
        } else if !self.second {
            Some(1)
        } else if !self.third {
            Some(2)
        } else {
            None
        }
    }

    /// What follows a request to prepare a thread in a process with so many
    /// `records`: invalid entries are rejected, so are stacks of other than
    /// one page and threads beyond three; the first valid preparation is
    /// rolled back, later ones succeed.
    pub open spec fn after_request(
        self,
        index: int,
        entry_offset: u64,
        stack_pages: u64,
        code_bytes: u64,
        records: u64,
        pairs: u64,
        stack: u64,
    ) -> Option<TurnView> {
        let caller = thread(index);
        let none = Seq::<Step>::empty();
        if entry_offset >= code_bytes {
            Some(
                TurnView { steps: none + reject_invalid() + answer_caller(caller), after: self },
            )
        } else if stack_pages != 1 || records == 3 {
            Some(
                TurnView { steps: none + reject_exhausted() + answer_caller(caller), after: self },
            )
        } else {
            match self.vacancy() {
                None => None,
                Some(n) => {
                    let reserve = none + reserve_thread(thread(n), (n + 1) as u64);
                    if !self.injected {
                        Some(
                            TurnView {
                                steps: reserve + roll_back(
                                    thread(n),
                                    (pairs - 1) as u64,
                                    stack,
                                ) + answer_caller(caller),
                                after: Creation { injected: true, ..self },
                            },
                        )
                    } else {
                        let again = if n == 1 {
                            reserve + comes_again()
                        } else {
                            reserve
                        };
                        Some(
                            TurnView {
                                steps: again + map_thread(thread(n)) + answer_caller(caller),
                                after: Creation {
                                    prepared: (self.prepared + 1) as u64,
                                    ..self.with_thread(n)
                                },
                            },
                        )
                    }
                },
            }
        }
    }

    /// A thread asks to prepare another; `pairs` are all pairs of message
    /// pages that exist, `stack` is the stack address of the new thread.
    pub fn prepare(
        &self,
        index: u64,
        entry_offset: u64,
        stack_pages: u64,
        code_bytes: u64,
        records: u64,
        pairs: u64,
        stack: u64,
    ) -> (turn: Option<Turn>)
        requires
            self.well_formed(),
            self.prepared < MOST_TURNS,
            pairs > 0,
        ensures
            turn_view(turn) == self.after_request(
                index as int,
                entry_offset,
                stack_pages,
                code_bytes,
                records,
                pairs,
                stack,
            ),
            turn matches Some(t) ==> t.after.well_formed(),
    {
        let caller = numbered(index);
        let mut steps: Vec<Step> = Vec::new();
        let mut after = *self;
        if entry_offset >= code_bytes {
            ask_reject_invalid(&mut steps);
        } else if stack_pages != 1 || records == 3 {
            ask_reject_exhausted(&mut steps);
        } else {
            let vacant: u64 = if !self.first {
                0
            } else if !self.second {
                1
            } else if !self.third {
                2
            } else {
                return None;
            };
            let who = numbered(vacant);
            ask_reserve_thread(&mut steps, who, vacant + 1);
            if !self.injected {
                ask_roll_back(&mut steps, who, pairs - 1, stack);
                after.injected = true;
            } else {
                if vacant == 1 {
                    ask_comes_again(&mut steps);
                }
                ask_map_thread(&mut steps, who);
                after.prepared = self.prepared + 1;
                if vacant == 0 {
                    after.first = true;
                    after.first_frames = true;
                } else if vacant == 1 {
                    after.second = true;
                    after.second_frames = true;
                } else {
                    after.third = true;
                    after.third_frames = true;
                }
            }
        }
        ask_answer_caller(&mut steps, caller);
        Some(Turn { steps, after })
    }
}

/// The creator of a thread does not run between the start of the thread and
/// the reply that says so, and a worker that is held back does not run.
pub proof fn held_threads_do_not_run(creation: Creation, ready: Seq<bool>)
    requires
        creation.well_formed(),
    ensures
        creation.start_held ==> creation.choice(ready) != Some(0int),
        creation.worker_held ==> creation.choice(ready) != Some(1int),
{
}

/// A ready thread that is not held back does not wait for ever: as long as it
/// stays so, it is chosen within three turns.
pub proof fn every_thread_gets_its_turn(creation: Creation, ready: Seq<bool>, index: int)
    requires
        creation.well_formed(),
        0 <= index < 3,
        creation.eligible(index, ready),
    ensures
        ({
            let one = creation.choice(ready)->0;
            let second = Creation { cursor: ((one + 1) % 3) as u64, ..creation };
            let two = second.choice(ready)->0;
            let third = Creation { cursor: ((two + 1) % 3) as u64, ..creation };
            &&& creation.choice(ready) is Some
            &&& second.choice(ready) is Some
            &&& third.choice(ready) is Some
            &&& one == index || two == index || third.choice(ready) == Some(index)
        }),
{
}

/// When no thread is left, no frames are.
pub proof fn frames_go_with_their_threads(creation: Creation)
    requires
        creation.well_formed(),
        creation.over(),
    ensures
        !creation.first_frames,
        !creation.second_frames,
        !creation.third_frames,
{
}

/// The initial thread learns the worker's status only after the child that
/// the worker left behind is gone.
pub proof fn a_join_waits_for_the_child(creation: Creation)
    requires
        creation.well_formed(),
        creation.after_wait() is Some,
    ensures
        creation.revoked == 1,
        creation.after_wait()->0.after.joined,
{
}

/// What a turn begins with.
#[derive(Clone, Copy, Debug, PartialEq, Eq, Structural)]
pub enum TurnStart {
    /// Asking whether the wait of the initial thread is over.
    AskWait,
    /// Ending that wait.
    EndWait,
    /// Choosing a thread.
    Choose,
    /// Nothing: the turns are over.
    Judge,
}

impl Creation {
    /// What a turn begins with, after so many turns; `wait` is what is known
    /// of the wait in this turn.
    pub open spec fn turn_start(self, turns: u64, wait: Option<bool>) -> TurnStart {
        if turns >= MOST_TURNS {
            TurnStart::Judge
        } else if self.waiting && wait is None {
            TurnStart::AskWait
        } else if self.waiting && wait == Some(true) {
            TurnStart::EndWait
        } else if self.over() {
            TurnStart::Judge
        } else {
            TurnStart::Choose
        }
    }

    /// Begin a turn.
    pub fn begin_turn(&self, turns: u64, wait: Option<bool>) -> (start: TurnStart)
        ensures
            start == self.turn_start(turns, wait),
    {
        if turns >= MOST_TURNS {
            return TurnStart::Judge;
        }
        if self.waiting {
            match wait {
                None => return TurnStart::AskWait,
                Some(true) => return TurnStart::EndWait,
                Some(false) => {},
            }
        }
        if self.is_over() {
            TurnStart::Judge
        } else {
            TurnStart::Choose
        }
    }
}

/// Steps before the first turn.
pub fn creation_opening() -> (steps: Vec<Step>)
    ensures
        steps@ == creation_set_up(),
{
    let mut steps: Vec<Step> = Vec::new();
    ask_creation_set_up(&mut steps);
    assert(steps@ =~= creation_set_up());
    steps
}

/// Steps after the last turn.
pub fn creation_closing_steps() -> (steps: Vec<Step>)
    ensures
        steps@ == creation_end(),
{
    let mut steps: Vec<Step> = Vec::new();
    ask_creation_end(&mut steps);
    assert(steps@ =~= creation_end());
    steps
}

/// Steps after everything is given back.
pub fn creation_confirming_steps() -> (steps: Vec<Step>)
    ensures
        steps@ == creation_confirming(),
{
    let mut steps: Vec<Step> = Vec::new();
    ask_creation_confirming(&mut steps);
    assert(steps@ =~= creation_confirming());
    steps
}

/// What is given back, whatever was seen.
pub fn creation_returns() -> (acts: Vec<Act>)
    ensures
        acts@ == creation_giving_back(),
{
    list_creation_giving_back()
}

/// A creation is complete only where no thread and no frame is left, nothing is
/// held or waited for, a preparation was rolled back once, three were carried out,
/// a thread was joined and a child revoked.
pub proof fn complete_creations_tried_everything(creation: Creation)
    ensures
        creation.complete() <==> {
            &&& !creation.first && !creation.second && !creation.third
            &&& !creation.first_frames && !creation.second_frames && !creation.third_frames
            &&& !creation.start_held && !creation.waiting
            &&& creation.injected && creation.joined
            &&& creation.prepared == 3
            &&& creation.revoked == 1
        },
{
}

/// A thread is requested by code of the process with one page of stack: an entry
/// outside the code is rejected as invalid, and another stack, or a fourth thread,
/// as exhausted. The first request is rolled back, and later ones are carried out
/// in the first free place.
pub proof fn requested_threads_are_prepared(
    creation: Creation,
    index: int,
    entry_offset: u64,
    stack_pages: u64,
    code_bytes: u64,
    records: u64,
    pairs: u64,
    stack: u64,
)
    requires
        creation.well_formed(),
        creation.prepared < MOST_TURNS,
    ensures
        ({
            let turn = creation.after_request(
                index,
                entry_offset,
                stack_pages,
                code_bytes,
                records,
                pairs,
                stack,
            );
            let invalid = entry_offset >= code_bytes;
            let exhausted = stack_pages != 1 || records == 3;
            &&& invalid ==> (turn matches Some(view) && view.after == creation && view.steps[0].act
                == (Act::RejectPreparation { invalid: true }))
            &&& !invalid && exhausted ==> (turn matches Some(view) && view.after == creation
                && view.steps[0].act == (Act::RejectPreparation { invalid: false }))
            &&& !invalid && !exhausted && creation.first && creation.second && creation.third
                ==> turn is None
            &&& !invalid && !exhausted && !(creation.first && creation.second && creation.third)
                ==> {
                &&& turn matches Some(view)
                &&& !creation.injected ==> view.after == (Creation { injected: true, ..creation })
                &&& creation.injected ==> {
                    &&& view.after.prepared == creation.prepared + 1
                    &&& view.after.injected && view.after.revoked == creation.revoked
                    &&& !creation.first ==> view.after.first && view.after.first_frames
                    &&& creation.first && !creation.second ==> view.after.second
                        && view.after.second_frames && view.after.third == creation.third
                    &&& creation.first && creation.second ==> view.after.third
                        && view.after.third_frames
                }
                &&& !creation.first ==> view.steps[0].act == Act::TakeThreadFrames(Who::First)
                &&& creation.first && !creation.second ==> view.steps[0].act
                    == Act::TakeThreadFrames(Who::Second)
                &&& creation.first && creation.second ==> view.steps[0].act
                    == Act::TakeThreadFrames(Who::Third)
            }
        }),
{
}

/// A thread that yields may only be the worker that a start waits for; it is then
/// held, and the start is answered. One whose time ran out goes on, and a call is
/// taken up.
pub proof fn stops_are_followed_up(creation: Creation, index: int)
    requires
        0 <= index < 3,
    ensures
        (creation.after_stop(index, Stop::Preempted) matches Some(view) && view.after == creation
            && view.steps == seq![once(Act::Yield(thread(index)), Want::Done)]),
        creation.after_stop(index, Stop::Yielded) is Some <==> index == 1 && creation.start_held,
        (creation.after_stop(index, Stop::Yielded) matches Some(view) ==> !view.after.start_held
            && view.after.worker_held && view.steps[1] == once(Act::Reply(Who::First), Want::Done)),
        (creation.after_stop(index, Stop::SchedulerCall) matches Some(view) && view.after
            == creation && view.steps == seq![
            once(Act::Authorize(thread(index)), Want::Done),
            once(Act::TakeUp(thread(index)), Want::Done),
        ]),
        creation.after_stop(index, Stop::Expired) is None,
        creation.after_stop(index, Stop::HandleCall) is None,
        creation.after_stop(index, Stop::HeapGrowth) is None,
        thread(0) == Who::First && thread(1) == Who::Second && thread(2) == Who::Third,
{
}

/// A finished call is answered; a start holds the starter until the worker ran;
/// an abort discards the child; a join waits; and an exit retires its thread, that
/// of the worker revoking its child.
pub proof fn progress_is_followed_up(creation: Creation, index: int, of_child: bool)
    requires
        0 <= index < 3,
        creation.revoked < u64::MAX,
    ensures
        (creation.after_progress(index, Progress::Complete, of_child) matches Some(view)
            && view.after == creation && view.steps == seq![
            once(Act::Reply(thread(index)), Want::Done),
            once(Act::Yield(thread(index)), Want::Done),
        ]),
        creation.after_progress(index, Progress::Starting, of_child) is Some <==> index == 0
            && !creation.start_held && creation.prepared == 1,
        (creation.after_progress(index, Progress::Starting, of_child) matches Some(view) ==> view.after
            == (Creation { start_held: true, ..creation })),
        creation.after_progress(index, Progress::Aborting, of_child) is Some <==> index == 1
            && creation.third && of_child,
        (creation.after_progress(index, Progress::Aborting, of_child) matches Some(view) ==> view.after
            == (Creation { third: false, third_frames: false, ..creation })),
        creation.after_progress(index, Progress::Waiting, of_child) is Some <==> index == 0
            && !creation.waiting && creation.worker_held,
        (creation.after_progress(index, Progress::Waiting, of_child) matches Some(view) ==> view.after
            == (Creation { waiting: true, worker_held: false, ..creation }) && view.steps.len() == 0),
        creation.after_progress(index, Progress::Retiring, of_child) is Some <==> (index == 0
            && creation.first) || (index == 1 && creation.second_frames && creation.waiting
            && creation.third),
        index == 0 ==> (creation.after_progress(index, Progress::Retiring, of_child) matches Some(
            view,
        ) ==> view.after == (Creation { first: false, first_frames: false, ..creation })),
        index == 1 ==> (creation.after_progress(index, Progress::Retiring, of_child) matches Some(
            view,
        ) ==> !view.after.third && !view.after.third_frames && !view.after.second_frames
            && view.after.second == creation.second && view.after.revoked == creation.revoked + 1),
        creation.after_progress(index, Progress::Preparing, of_child) is None,
        creation.after_wait() is Some <==> creation.waiting && creation.revoked == 1
            && creation.second && !creation.second_frames,
        (creation.after_wait() matches Some(view) ==> view.after == (Creation {
            waiting: false,
            second: false,
            joined: true,
            ..creation
        })),
{
}

/// A turn asks for the end of a wait first, and the run is judged where no thread
/// is left or 256 turns are over.
pub proof fn turns_begin_with_the_wait(creation: Creation, turns: u64)
    ensures
        turns >= 256 ==> creation.turn_start(turns, None) == TurnStart::Judge,
        turns < 256 && creation.waiting ==> {
            &&& creation.turn_start(turns, None) == TurnStart::AskWait
            &&& creation.turn_start(turns, Some(true)) == TurnStart::EndWait
        },
        turns < 256 && !creation.waiting && (creation.first || creation.second || creation.third)
            ==> creation.turn_start(turns, None) == TurnStart::Choose,
        turns < 256 && !creation.waiting && !creation.first && !creation.second && !creation.third
            ==> creation.turn_start(turns, None) == TurnStart::Judge,
{
}

proof fn lemma_creation_set_up_sensible()
    ensures
        all_sensible(creation_set_up()),
{
    let steps = creation_set_up();
    assert forall|i: int| 0 <= i < steps.len() implies sensible(#[trigger] steps[i]) by {}
}

proof fn lemma_reclaim_thread_sensible(who: Who)
    requires
        who != Who::Foreign,
        who != Who::Former,
    ensures
        all_sensible(reclaim_thread(who)),
{
    let steps = reclaim_thread(who);
    assert forall|i: int| 0 <= i < steps.len() implies sensible(#[trigger] steps[i]) by {}
}

proof fn lemma_discard_child_sensible()
    ensures
        all_sensible(discard_child()),
{
    let steps = discard_child();
    assert forall|i: int| 0 <= i < steps.len() implies sensible(#[trigger] steps[i]) by {}
}

proof fn lemma_answer_caller_sensible(who: Who)
    requires
        who != Who::Foreign,
        who != Who::Former,
    ensures
        all_sensible(answer_caller(who)),
{
    let steps = answer_caller(who);
    assert forall|i: int| 0 <= i < steps.len() implies sensible(#[trigger] steps[i]) by {}
}

proof fn lemma_go_on_sensible(who: Who)
    requires
        who != Who::Foreign,
        who != Who::Former,
    ensures
        all_sensible(go_on(who)),
{
    let steps = go_on(who);
    assert forall|i: int| 0 <= i < steps.len() implies sensible(#[trigger] steps[i]) by {}
}

proof fn lemma_start_worker_sensible()
    ensures
        all_sensible(start_worker()),
{
    let steps = start_worker();
    assert forall|i: int| 0 <= i < steps.len() implies sensible(#[trigger] steps[i]) by {}
}

proof fn lemma_worker_ran_sensible()
    ensures
        all_sensible(worker_ran()),
{
    let steps = worker_ran();
    assert forall|i: int| 0 <= i < steps.len() implies sensible(#[trigger] steps[i]) by {}
}

proof fn lemma_abort_begins_sensible()
    ensures
        all_sensible(abort_begins()),
{
    let steps = abort_begins();
    assert forall|i: int| 0 <= i < steps.len() implies sensible(#[trigger] steps[i]) by {}
}

proof fn lemma_abort_ends_sensible()
    ensures
        all_sensible(abort_ends()),
{
    let steps = abort_ends();
    assert forall|i: int| 0 <= i < steps.len() implies sensible(#[trigger] steps[i]) by {}
}

proof fn lemma_exit_begins_sensible(who: Who)
    requires
        who != Who::Foreign,
        who != Who::Former,
    ensures
        all_sensible(exit_begins(who)),
{
    let steps = exit_begins(who);
    assert forall|i: int| 0 <= i < steps.len() implies sensible(#[trigger] steps[i]) by {}
}

proof fn lemma_child_revoked_sensible()
    ensures
        all_sensible(child_revoked()),
{
    let steps = child_revoked();
    assert forall|i: int| 0 <= i < steps.len() implies sensible(#[trigger] steps[i]) by {}
}

proof fn lemma_child_gone_sensible()
    ensures
        all_sensible(child_gone()),
{
    let steps = child_gone();
    assert forall|i: int| 0 <= i < steps.len() implies sensible(#[trigger] steps[i]) by {}
}

proof fn lemma_initial_gone_sensible()
    ensures
        all_sensible(initial_gone()),
{
    let steps = initial_gone();
    assert forall|i: int| 0 <= i < steps.len() implies sensible(#[trigger] steps[i]) by {}
}

proof fn lemma_joined_sensible()
    ensures
        all_sensible(joined()),
{
    let steps = joined();
    assert forall|i: int| 0 <= i < steps.len() implies sensible(#[trigger] steps[i]) by {}
}

proof fn lemma_take_call_sensible(who: Who)
    requires
        who != Who::Foreign,
        who != Who::Former,
    ensures
        all_sensible(take_call(who)),
{
    let steps = take_call(who);
    assert forall|i: int| 0 <= i < steps.len() implies sensible(#[trigger] steps[i]) by {}
}

proof fn lemma_reserve_thread_sensible(who: Who, reservation: u64)
    requires
        who != Who::Foreign,
        who != Who::Former,
    ensures
        all_sensible(reserve_thread(who, reservation)),
{
    let steps = reserve_thread(who, reservation);
    assert forall|i: int| 0 <= i < steps.len() implies sensible(#[trigger] steps[i]) by {}
}

proof fn lemma_roll_back_sensible(who: Who, others: u64, stack: u64)
    requires
        who != Who::Foreign,
        who != Who::Former,
    ensures
        all_sensible(roll_back(who, others, stack)),
{
    let steps = roll_back(who, others, stack);
    assert forall|i: int| 0 <= i < steps.len() implies sensible(#[trigger] steps[i]) by {}
}

proof fn lemma_comes_again_sensible()
    ensures
        all_sensible(comes_again()),
{
    let steps = comes_again();
    assert forall|i: int| 0 <= i < steps.len() implies sensible(#[trigger] steps[i]) by {}
}

proof fn lemma_map_thread_sensible(who: Who)
    requires
        who != Who::Foreign,
        who != Who::Former,
    ensures
        all_sensible(map_thread(who)),
{
    let steps = map_thread(who);
    assert forall|i: int| 0 <= i < steps.len() implies sensible(#[trigger] steps[i]) by {}
}

proof fn lemma_reject_invalid_sensible()
    ensures
        all_sensible(reject_invalid()),
{
    let steps = reject_invalid();
    assert forall|i: int| 0 <= i < steps.len() implies sensible(#[trigger] steps[i]) by {}
}

proof fn lemma_reject_exhausted_sensible()
    ensures
        all_sensible(reject_exhausted()),
{
    let steps = reject_exhausted();
    assert forall|i: int| 0 <= i < steps.len() implies sensible(#[trigger] steps[i]) by {}
}

proof fn lemma_creation_end_sensible()
    ensures
        all_sensible(creation_end()),
{
    let steps = creation_end();
    assert forall|i: int| 0 <= i < steps.len() implies sensible(#[trigger] steps[i]) by {}
}

proof fn lemma_creation_confirming_sensible()
    ensures
        all_sensible(creation_confirming()),
{
    let steps = creation_confirming();
    assert forall|i: int| 0 <= i < steps.len() implies sensible(#[trigger] steps[i]) by {}
}

/// Every step of a creation has an answer that makes sense.
pub proof fn creations_expect_sensible_answers(
    who: Who,
    reservation: u64,
    others: u64,
    stack: u64,
)
    requires
        who != Who::Foreign,
        who != Who::Former,
    ensures
        all_sensible(creation_set_up()),
        all_sensible(reclaim_thread(who)),
        all_sensible(discard_child()),
        all_sensible(answer_caller(who)),
        all_sensible(go_on(who)),
        all_sensible(start_worker()),
        all_sensible(worker_ran()),
        all_sensible(abort_begins()),
        all_sensible(abort_ends()),
        all_sensible(exit_begins(who)),
        all_sensible(child_revoked()),
        all_sensible(child_gone()),
        all_sensible(initial_gone()),
        all_sensible(joined()),
        all_sensible(take_call(who)),
        all_sensible(reserve_thread(who, reservation)),
        all_sensible(roll_back(who, others, stack)),
        all_sensible(comes_again()),
        all_sensible(map_thread(who)),
        all_sensible(reject_invalid()),
        all_sensible(reject_exhausted()),
        all_sensible(creation_end()),
        all_sensible(creation_confirming()),
{
    lemma_creation_set_up_sensible();
    lemma_reclaim_thread_sensible(who);
    lemma_discard_child_sensible();
    lemma_answer_caller_sensible(who);
    lemma_go_on_sensible(who);
    lemma_start_worker_sensible();
    lemma_worker_ran_sensible();
    lemma_abort_begins_sensible();
    lemma_abort_ends_sensible();
    lemma_exit_begins_sensible(who);
    lemma_child_revoked_sensible();
    lemma_child_gone_sensible();
    lemma_initial_gone_sensible();
    lemma_joined_sensible();
    lemma_take_call_sensible(who);
    lemma_reserve_thread_sensible(who, reservation);
    lemma_roll_back_sensible(who, others, stack);
    lemma_comes_again_sensible();
    lemma_map_thread_sensible(who);
    lemma_reject_invalid_sensible();
    lemma_reject_exhausted_sensible();
    lemma_creation_end_sensible();
    lemma_creation_confirming_sensible();
}

} // verus!
