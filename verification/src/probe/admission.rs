//! Threads that are admitted into a running process, and their retirement.

use crate::memory::isolated::{IsolatedAllocation, USER_DATA_BASE, USER_STACK_BASE};
use crate::memory::native::prepare::StartupDescriptor;
use crate::memory::pages::PageRange;
use crate::memory::plan::{MappingPlan, PlannedMapping};
use crate::memory::private::mapping::Permissions;
use crate::probe::contents::HEADER;
use crate::probe::layout::{
    add_all, addable, keep_others, kept, make_user_mapping, page_of, user_mapping, METADATA_LIMIT,
};
use crate::probe::trial::{
    all_sensible, append_steps, ask, ask_within, lemma_sensible_join, once, sensible, within,
    Agenda, AgendaView, Step,
};
use crate::probe::words::{
    Act, Admission, Backing, Fault, Holder, Mark, PairMark, Progress, Refusal, Resumed, StatsMark, Stop, Want, Who,
};
use vstd::prelude::*;

verus! {

/// Where the process page names the initial thread's startup page.
pub const STARTUP_REFERENCE: u64 = 0x4000_0000_1050;

/// The page behind the process page.
pub const ALIAS_PAGE: u64 = 0x4000_0000_2000;

/// A process with one reserved thread, whose memory is laid out.
pub open spec fn admission_set_up(contexts: u64) -> Seq<Step> {
    seq![
        once(Act::TakeThreadFrames(Who::First), Want::Done),
        once(Act::TakeThreadFrames(Who::Second), Want::Done),
        once(Act::LayOut, Want::Done),
        once(Act::BuildRoot, Want::Done),
        once(Act::AddProcess(Holder::Own), Want::Done),
        once(Act::OpenRight, Want::Done),
        once(Act::SetQuota { holder: Holder::Own, records: 2, pages: 10 }, Want::Done),
        once(Act::AddInitial { who: Who::First, reservation: 1, pages: 5 }, Want::Done),
        once(Act::AddSync, Want::Done),
        once(Act::LayOutThread(Who::First), Want::Done),
        once(Act::MakeContext { contexts, metadata: METADATA_LIMIT, backed: false }, Want::Done),
        once(Act::Stats, Want::KeepStats(StatsMark::Baseline)),
        once(Act::Metadata, Want::Keep(Mark::Metadata)),
        once(Act::TakeSpare, Want::KeepPair(PairMark::First)),
        once(Act::LookAtSpare, Want::KeepPair(PairMark::Second)),
    ]
}

fn ask_admission_set_up(steps: &mut Vec<Step>, contexts: u64)
    ensures
        final(steps)@ == old(steps)@ + admission_set_up(contexts),
{
    let ghost before = steps@;
    ask(steps, Act::TakeThreadFrames(Who::First), Want::Done);
    ask(steps, Act::TakeThreadFrames(Who::Second), Want::Done);
    ask(steps, Act::LayOut, Want::Done);
    ask(steps, Act::BuildRoot, Want::Done);
    ask(steps, Act::AddProcess(Holder::Own), Want::Done);
    ask(steps, Act::OpenRight, Want::Done);
    ask(steps, Act::SetQuota { holder: Holder::Own, records: 2, pages: 10 }, Want::Done);
    ask(steps, Act::AddInitial { who: Who::First, reservation: 1, pages: 5 }, Want::Done);
    ask(steps, Act::AddSync, Want::Done);
    ask(steps, Act::LayOutThread(Who::First), Want::Done);
    ask(steps, Act::MakeContext { contexts, metadata: METADATA_LIMIT, backed: false }, Want::Done);
    ask(steps, Act::Stats, Want::KeepStats(StatsMark::Baseline));
    ask(steps, Act::Metadata, Want::Keep(Mark::Metadata));
    ask(steps, Act::TakeSpare, Want::KeepPair(PairMark::First));
    ask(steps, Act::LookAtSpare, Want::KeepPair(PairMark::Second));
    assert(steps@ =~= before + admission_set_up(contexts));
}

/// An admission for which page tables are missing, or whose process page can
/// be written elsewhere, is refused and gives its pair back.
pub open spec fn admission_impossible(reason: Refusal) -> Seq<Step> {
    seq![
        once(Act::Admit { who: Who::First, form: Admission::Right }, Want::RefusedFor(reason)),
        once(Act::IsStopped, Want::Flag(false)),
        once(Act::Stats, Want::SameStats(StatsMark::Baseline)),
        once(Act::PairIsLive, Want::Flag(true)),
        once(Act::DropReturned, Want::Done),
        once(Act::StopContext, Want::Done),
        once(Act::DropContext, Want::Done),
        once(Act::StopSync, Want::Done),
        once(Act::WithdrawRight, Want::Done),
    ]
}

fn ask_admission_impossible(steps: &mut Vec<Step>, reason: Refusal)
    ensures
        final(steps)@ == old(steps)@ + admission_impossible(reason),
{
    let ghost before = steps@;
    ask(steps, Act::Admit { who: Who::First, form: Admission::Right }, Want::RefusedFor(reason));
    ask(steps, Act::IsStopped, Want::Flag(false));
    ask(steps, Act::Stats, Want::SameStats(StatsMark::Baseline));
    ask(steps, Act::PairIsLive, Want::Flag(true));
    ask(steps, Act::DropReturned, Want::Done);
    ask(steps, Act::StopContext, Want::Done);
    ask(steps, Act::DropContext, Want::Done);
    ask(steps, Act::StopSync, Want::Done);
    ask(steps, Act::WithdrawRight, Want::Done);
    assert(steps@ =~= before + admission_impossible(reason));
}

/// An admission whose parts do not belong together is refused, costs nothing
/// and gives its pair back.
pub open spec fn admission_rejections() -> Seq<Step> {
    seq![
        once(Act::Stats, Want::KeepStats(StatsMark::Before)),
        once(Act::Admit { who: Who::First, form: Admission::MovedReference }, Want::Refused),
        once(Act::Admit { who: Who::First, form: Admission::TableAsTls }, Want::Refused),
        once(Act::IsStopped, Want::Flag(false)),
        once(Act::Stats, Want::SameStats(StatsMark::Before)),
        once(Act::PairIsLive, Want::Flag(true)),
        once(Act::Admit { who: Who::First, form: Admission::SharedTls }, Want::Refused),
        once(Act::IsStopped, Want::Flag(false)),
        once(Act::Stats, Want::SameStats(StatsMark::Before)),
        once(Act::PairIsLive, Want::Flag(true)),
        once(Act::Admit { who: Who::First, form: Admission::DataEntry }, Want::Refused),
        once(Act::IsStopped, Want::Flag(false)),
        once(Act::Stats, Want::SameStats(StatsMark::Before)),
        once(Act::PairIsLive, Want::Flag(true)),
        once(Act::Admit { who: Who::First, form: Admission::NextThread }, Want::Refused),
        once(Act::IsStopped, Want::Flag(false)),
        once(Act::Stats, Want::SameStats(StatsMark::Before)),
        once(Act::PairIsLive, Want::Flag(true)),
        once(Act::Admit { who: Who::First, form: Admission::CalledWorker }, Want::Refused),
        once(Act::IsStopped, Want::Flag(false)),
        once(Act::Stats, Want::SameStats(StatsMark::Before)),
        once(Act::PairIsLive, Want::Flag(true)),
    ]
}

fn ask_admission_rejections(steps: &mut Vec<Step>)
    ensures
        final(steps)@ == old(steps)@ + admission_rejections(),
{
    let ghost before = steps@;
    ask(steps, Act::Stats, Want::KeepStats(StatsMark::Before));
    ask(steps, Act::Admit { who: Who::First, form: Admission::MovedReference }, Want::Refused);
    ask(steps, Act::Admit { who: Who::First, form: Admission::TableAsTls }, Want::Refused);
    ask(steps, Act::IsStopped, Want::Flag(false));
    ask(steps, Act::Stats, Want::SameStats(StatsMark::Before));
    ask(steps, Act::PairIsLive, Want::Flag(true));
    ask(steps, Act::Admit { who: Who::First, form: Admission::SharedTls }, Want::Refused);
    ask(steps, Act::IsStopped, Want::Flag(false));
    ask(steps, Act::Stats, Want::SameStats(StatsMark::Before));
    ask(steps, Act::PairIsLive, Want::Flag(true));
    ask(steps, Act::Admit { who: Who::First, form: Admission::DataEntry }, Want::Refused);
    ask(steps, Act::IsStopped, Want::Flag(false));
    ask(steps, Act::Stats, Want::SameStats(StatsMark::Before));
    ask(steps, Act::PairIsLive, Want::Flag(true));
    ask(steps, Act::Admit { who: Who::First, form: Admission::NextThread }, Want::Refused);
    ask(steps, Act::IsStopped, Want::Flag(false));
    ask(steps, Act::Stats, Want::SameStats(StatsMark::Before));
    ask(steps, Act::PairIsLive, Want::Flag(true));
    ask(steps, Act::Admit { who: Who::First, form: Admission::CalledWorker }, Want::Refused);
    ask(steps, Act::IsStopped, Want::Flag(false));
    ask(steps, Act::Stats, Want::SameStats(StatsMark::Before));
    ask(steps, Act::PairIsLive, Want::Flag(true));
    assert(steps@ =~= before + admission_rejections());
}

/// The initial thread is admitted with clean memory of five pages and runs one
/// cycle.
pub open spec fn admission_first() -> Seq<Step> {
    seq![
        once(Act::Admit { who: Who::First, form: Admission::Right }, Want::Done),
        once(Act::MemoryIs { who: Who::First, cycles: 0 }, Want::Flag(true)),
        once(Act::Stats, Want::Mapped { mark: StatsMark::Baseline, gained: 5, lost: 0 }),
        once(Act::Metadata, Want::Kept(Mark::Metadata)),
        once(Act::Start(Who::First), Want::Done),
        once(Act::Dispatch(Who::First), Want::Done),
        within(Act::Resume { who: Who::First, how: Resumed::Timeslice, millis: 50 }, Want::Stop(Stop::Yielded), 20),
        once(Act::MemoryIs { who: Who::First, cycles: 1 }, Want::Flag(true)),
    ]
}

fn ask_admission_first(steps: &mut Vec<Step>)
    ensures
        final(steps)@ == old(steps)@ + admission_first(),
{
    let ghost before = steps@;
    ask(steps, Act::Admit { who: Who::First, form: Admission::Right }, Want::Done);
    ask(steps, Act::MemoryIs { who: Who::First, cycles: 0 }, Want::Flag(true));
    ask(steps, Act::Stats, Want::Mapped { mark: StatsMark::Baseline, gained: 5, lost: 0 });
    ask(steps, Act::Metadata, Want::Kept(Mark::Metadata));
    ask(steps, Act::Start(Who::First), Want::Done);
    ask(steps, Act::Dispatch(Who::First), Want::Done);
    ask_within(steps, Act::Resume { who: Who::First, how: Resumed::Timeslice, millis: 50 }, Want::Stop(Stop::Yielded), 20);
    ask(steps, Act::MemoryIs { who: Who::First, cycles: 1 }, Want::Flag(true));
    assert(steps@ =~= before + admission_first());
}

/// A worker is reserved; it is not admitted with another thread's page as that
/// of the process.
pub open spec fn admission_second() -> Seq<Step> {
    seq![
        once(Act::AddWorker { who: Who::Second, by: Who::First, reservation: 2, pages: 5 }, Want::Done),
        once(Act::LayOutThread(Who::Second), Want::Done),
        once(Act::TakeSpare, Want::KeepPair(PairMark::Second)),
        once(Act::Stats, Want::KeepStats(StatsMark::Before)),
        once(Act::Admit { who: Who::Second, form: Admission::WrongHeader }, Want::Refused),
        once(Act::Stats, Want::SameStats(StatsMark::Before)),
        once(Act::IsStopped, Want::Flag(false)),
    ]
}

fn ask_admission_second(steps: &mut Vec<Step>)
    ensures
        final(steps)@ == old(steps)@ + admission_second(),
{
    let ghost before = steps@;
    ask(steps, Act::AddWorker { who: Who::Second, by: Who::First, reservation: 2, pages: 5 }, Want::Done);
    ask(steps, Act::LayOutThread(Who::Second), Want::Done);
    ask(steps, Act::TakeSpare, Want::KeepPair(PairMark::Second));
    ask(steps, Act::Stats, Want::KeepStats(StatsMark::Before));
    ask(steps, Act::Admit { who: Who::Second, form: Admission::WrongHeader }, Want::Refused);
    ask(steps, Act::Stats, Want::SameStats(StatsMark::Before));
    ask(steps, Act::IsStopped, Want::Flag(false));
    assert(steps@ =~= before + admission_second());
}

/// An admission that fails in the middle stops the process, which keeps what
/// was mapped and the pair.
pub open spec fn admission_cut_short(stack: u64, tls: u64) -> Seq<Step> {
    seq![
        once(Act::Admit { who: Who::Second, form: Admission::CutShort }, Want::Broke),
        once(Act::IsStopped, Want::Flag(true)),
        once(Act::Stats, Want::Mapped { mark: StatsMark::Before, gained: 1, lost: 0 }),
        once(Act::Word(stack), Want::AnyNumber),
        once(Act::Word(tls), Want::Refused),
        once(Act::Resume { who: Who::First, how: Resumed::Timeslice, millis: 1 }, Want::Refused),
        once(Act::TakeSpare, Want::OtherSlot),
        once(Act::DropSpare, Want::Done),
    ]
}

fn ask_admission_cut_short(steps: &mut Vec<Step>, stack: u64, tls: u64)
    ensures
        final(steps)@ == old(steps)@ + admission_cut_short(stack, tls),
{
    let ghost before = steps@;
    ask(steps, Act::Admit { who: Who::Second, form: Admission::CutShort }, Want::Broke);
    ask(steps, Act::IsStopped, Want::Flag(true));
    ask(steps, Act::Stats, Want::Mapped { mark: StatsMark::Before, gained: 1, lost: 0 });
    ask(steps, Act::Word(stack), Want::AnyNumber);
    ask(steps, Act::Word(tls), Want::Refused);
    ask(steps, Act::Resume { who: Who::First, how: Resumed::Timeslice, millis: 1 }, Want::Refused);
    ask(steps, Act::TakeSpare, Want::OtherSlot);
    ask(steps, Act::DropSpare, Want::Done);
    assert(steps@ =~= before + admission_cut_short(stack, tls));
}

/// A thread that is not reserved any more, or for which the context has no
/// room, is refused; the other thread is not touched.
pub open spec fn admission_not_now() -> Seq<Step> {
    seq![
        once(Act::Admit { who: Who::Second, form: Admission::Right }, Want::Refused),
        once(Act::IsStopped, Want::Flag(false)),
        once(Act::Stats, Want::SameStats(StatsMark::Before)),
        once(Act::PairIsLive, Want::Flag(true)),
        once(Act::MemoryIs { who: Who::First, cycles: 1 }, Want::Flag(true)),
        once(Act::DropReturned, Want::Done),
    ]
}

fn ask_admission_not_now(steps: &mut Vec<Step>)
    ensures
        final(steps)@ == old(steps)@ + admission_not_now(),
{
    let ghost before = steps@;
    ask(steps, Act::Admit { who: Who::Second, form: Admission::Right }, Want::Refused);
    ask(steps, Act::IsStopped, Want::Flag(false));
    ask(steps, Act::Stats, Want::SameStats(StatsMark::Before));
    ask(steps, Act::PairIsLive, Want::Flag(true));
    ask(steps, Act::MemoryIs { who: Who::First, cycles: 1 }, Want::Flag(true));
    ask(steps, Act::DropReturned, Want::Done);
    assert(steps@ =~= before + admission_not_now());
}

/// The worker is started too early.
pub open spec fn admission_start() -> Seq<Step> {
    seq![
        once(Act::Start(Who::Second), Want::Done),
    ]
}

fn ask_admission_start(steps: &mut Vec<Step>)
    ensures
        final(steps)@ == old(steps)@ + admission_start(),
{
    let ghost before = steps@;
    ask(steps, Act::Start(Who::Second), Want::Done);
    assert(steps@ =~= before + admission_start());
}

/// The worker is admitted.
pub open spec fn admission_worker() -> Seq<Step> {
    seq![
        once(Act::Admit { who: Who::Second, form: Admission::Right }, Want::Done),
    ]
}

fn ask_admission_worker(steps: &mut Vec<Step>)
    ensures
        final(steps)@ == old(steps)@ + admission_worker(),
{
    let ghost before = steps@;
    ask(steps, Act::Admit { who: Who::Second, form: Admission::Right }, Want::Done);
    assert(steps@ =~= before + admission_worker());
}

/// A worker that is revoked before its start leaves nothing: its slot, frames
/// and pair come again in their next incarnation, and its name is dead.
pub open spec fn admission_reuse() -> Seq<Step> {
    seq![
        once(Act::LookAtThread(Who::Second), Want::KeepThread),
        once(Act::Revoke(Who::Second), Want::Done),
        once(Act::Discard { who: Who::Second, backing: Backing::Right }, Want::Receipt { who: Who::Second, pages: 3 }),
        once(Act::Stats, Want::Mapped { mark: StatsMark::Before, gained: 0, lost: 0 }),
        once(Act::FreeThreadFrames(Who::Second), Want::Done),
        once(Act::Release(Who::Second), Want::AnyNumber),
        once(Act::Reap(Who::Second), Want::Done),
        once(Act::TakeThreadFrames(Who::Second), Want::Done),
        once(Act::AddWorker { who: Who::Second, by: Who::First, reservation: 2, pages: 5 }, Want::Done),
        once(Act::LookAtThread(Who::Second), Want::NextThread),
        once(Act::LayOutThread(Who::Second), Want::Done),
        once(Act::TakeSpare, Want::Reborn(PairMark::Second)),
        once(Act::LookAtSpare, Want::KeepPair(PairMark::Second)),
        once(Act::Admit { who: Who::Second, form: Admission::Right }, Want::Done),
        once(Act::Resume { who: Who::Former, how: Resumed::Timeslice, millis: 1 }, Want::Refused),
        once(Act::Resolve(Who::Former), Want::Refused),
    ]
}

fn ask_admission_reuse(steps: &mut Vec<Step>)
    ensures
        final(steps)@ == old(steps)@ + admission_reuse(),
{
    let ghost before = steps@;
    ask(steps, Act::LookAtThread(Who::Second), Want::KeepThread);
    ask(steps, Act::Revoke(Who::Second), Want::Done);
    ask(steps, Act::Discard { who: Who::Second, backing: Backing::Right }, Want::Receipt { who: Who::Second, pages: 3 });
    ask(steps, Act::Stats, Want::Mapped { mark: StatsMark::Before, gained: 0, lost: 0 });
    ask(steps, Act::FreeThreadFrames(Who::Second), Want::Done);
    ask(steps, Act::Release(Who::Second), Want::AnyNumber);
    ask(steps, Act::Reap(Who::Second), Want::Done);
    ask(steps, Act::TakeThreadFrames(Who::Second), Want::Done);
    ask(steps, Act::AddWorker { who: Who::Second, by: Who::First, reservation: 2, pages: 5 }, Want::Done);
    ask(steps, Act::LookAtThread(Who::Second), Want::NextThread);
    ask(steps, Act::LayOutThread(Who::Second), Want::Done);
    ask(steps, Act::TakeSpare, Want::Reborn(PairMark::Second));
    ask(steps, Act::LookAtSpare, Want::KeepPair(PairMark::Second));
    ask(steps, Act::Admit { who: Who::Second, form: Admission::Right }, Want::Done);
    ask(steps, Act::Resume { who: Who::Former, how: Resumed::Timeslice, millis: 1 }, Want::Refused);
    ask(steps, Act::Resolve(Who::Former), Want::Refused);
    assert(steps@ =~= before + admission_reuse());
}

/// Both threads run their cycles, each in its own memory.
pub open spec fn admission_cycles() -> Seq<Step> {
    seq![
        once(Act::MemoryIs { who: Who::Second, cycles: 0 }, Want::Flag(true)),
        once(Act::MemoryIs { who: Who::First, cycles: 1 }, Want::Flag(true)),
        once(Act::Yield(Who::First), Want::Done),
        once(Act::Start(Who::Second), Want::Done),
        once(Act::Dispatch(Who::Second), Want::Done),
        within(Act::Resume { who: Who::Second, how: Resumed::Timeslice, millis: 50 }, Want::Stop(Stop::Yielded), 20),
        once(Act::MemoryIs { who: Who::Second, cycles: 1 }, Want::Flag(true)),
        once(Act::Yield(Who::Second), Want::Done),
        once(Act::Dispatch(Who::First), Want::Done),
        within(Act::Resume { who: Who::First, how: Resumed::Timeslice, millis: 50 }, Want::Stop(Stop::Yielded), 20),
        once(Act::MemoryIs { who: Who::First, cycles: 2 }, Want::Flag(true)),
        once(Act::Yield(Who::First), Want::Done),
        once(Act::Dispatch(Who::Second), Want::Done),
        within(Act::Resume { who: Who::Second, how: Resumed::Timeslice, millis: 50 }, Want::Stop(Stop::Yielded), 20),
        once(Act::MemoryIs { who: Who::Second, cycles: 2 }, Want::Flag(true)),
        once(Act::Yield(Who::Second), Want::Done),
    ]
}

fn ask_admission_cycles(steps: &mut Vec<Step>)
    ensures
        final(steps)@ == old(steps)@ + admission_cycles(),
{
    let ghost before = steps@;
    ask(steps, Act::MemoryIs { who: Who::Second, cycles: 0 }, Want::Flag(true));
    ask(steps, Act::MemoryIs { who: Who::First, cycles: 1 }, Want::Flag(true));
    ask(steps, Act::Yield(Who::First), Want::Done);
    ask(steps, Act::Start(Who::Second), Want::Done);
    ask(steps, Act::Dispatch(Who::Second), Want::Done);
    ask_within(steps, Act::Resume { who: Who::Second, how: Resumed::Timeslice, millis: 50 }, Want::Stop(Stop::Yielded), 20);
    ask(steps, Act::MemoryIs { who: Who::Second, cycles: 1 }, Want::Flag(true));
    ask(steps, Act::Yield(Who::Second), Want::Done);
    ask(steps, Act::Dispatch(Who::First), Want::Done);
    ask_within(steps, Act::Resume { who: Who::First, how: Resumed::Timeslice, millis: 50 }, Want::Stop(Stop::Yielded), 20);
    ask(steps, Act::MemoryIs { who: Who::First, cycles: 2 }, Want::Flag(true));
    ask(steps, Act::Yield(Who::First), Want::Done);
    ask(steps, Act::Dispatch(Who::Second), Want::Done);
    ask_within(steps, Act::Resume { who: Who::Second, how: Resumed::Timeslice, millis: 50 }, Want::Stop(Stop::Yielded), 20);
    ask(steps, Act::MemoryIs { who: Who::Second, cycles: 2 }, Want::Flag(true));
    ask(steps, Act::Yield(Who::Second), Want::Done);
    assert(steps@ =~= before + admission_cycles());
}

/// A thread exits: its five pages and its frames go back before its record
/// does.
pub open spec fn admission_retire(who: Who) -> Seq<Step> {
    seq![
        within(Act::Resume { who, how: Resumed::Timeslice, millis: 50 }, Want::Stop(Stop::SchedulerCall), 20),
        once(Act::Authorize(who), Want::Done),
        once(Act::IsCaller(who), Want::Flag(true)),
        once(Act::IsExit(who), Want::Flag(true)),
        once(Act::TakeUp(who), Want::Done),
        once(Act::Execute(who), Want::Progress(Progress::Retiring)),
        once(Act::Stats, Want::KeepStats(StatsMark::Before)),
        once(Act::Retire { who, backing: Backing::Right }, Want::Receipt { who, pages: 3 }),
        once(Act::Stats, Want::Mapped { mark: StatsMark::Before, gained: 0, lost: 5 }),
        once(Act::Stats, Want::SameTables(StatsMark::Before)),
        once(Act::FinishExit(who), Want::Done),
        once(Act::FreeThreadFrames(who), Want::Done),
        once(Act::Release(who), Want::Number(5)),
    ]
}

fn ask_admission_retire(steps: &mut Vec<Step>, who: Who)
    ensures
        final(steps)@ == old(steps)@ + admission_retire(who),
{
    let ghost before = steps@;
    ask_within(steps, Act::Resume { who, how: Resumed::Timeslice, millis: 50 }, Want::Stop(Stop::SchedulerCall), 20);
    ask(steps, Act::Authorize(who), Want::Done);
    ask(steps, Act::IsCaller(who), Want::Flag(true));
    ask(steps, Act::IsExit(who), Want::Flag(true));
    ask(steps, Act::TakeUp(who), Want::Done);
    ask(steps, Act::Execute(who), Want::Progress(Progress::Retiring));
    ask(steps, Act::Stats, Want::KeepStats(StatsMark::Before));
    ask(steps, Act::Retire { who, backing: Backing::Right }, Want::Receipt { who, pages: 3 });
    ask(steps, Act::Stats, Want::Mapped { mark: StatsMark::Before, gained: 0, lost: 5 });
    ask(steps, Act::Stats, Want::SameTables(StatsMark::Before));
    ask(steps, Act::FinishExit(who), Want::Done);
    ask(steps, Act::FreeThreadFrames(who), Want::Done);
    ask(steps, Act::Release(who), Want::Number(5));
    assert(steps@ =~= before + admission_retire(who));
}

/// The initial thread is gone: its page cannot be read, the process page still
/// names it, and its pair is free again.
pub open spec fn admission_first_gone(page: u64) -> Seq<Step> {
    seq![
        once(Act::Reap(Who::First), Want::Done),
        once(Act::Word(page), Want::Refused),
        once(Act::Word(STARTUP_REFERENCE), Want::Number(page)),
        once(Act::Word(USER_DATA_BASE), Want::Number(HEADER)),
        once(Act::TakeSpare, Want::Reborn(PairMark::First)),
        once(Act::MemoryIs { who: Who::Second, cycles: 2 }, Want::Flag(true)),
        once(Act::Dispatch(Who::Second), Want::Done),
    ]
}

fn ask_admission_first_gone(steps: &mut Vec<Step>, page: u64)
    ensures
        final(steps)@ == old(steps)@ + admission_first_gone(page),
{
    let ghost before = steps@;
    ask(steps, Act::Reap(Who::First), Want::Done);
    ask(steps, Act::Word(page), Want::Refused);
    ask(steps, Act::Word(STARTUP_REFERENCE), Want::Number(page));
    ask(steps, Act::Word(USER_DATA_BASE), Want::Number(HEADER));
    ask(steps, Act::TakeSpare, Want::Reborn(PairMark::First));
    ask(steps, Act::MemoryIs { who: Who::Second, cycles: 2 }, Want::Flag(true));
    ask(steps, Act::Dispatch(Who::Second), Want::Done);
    assert(steps@ =~= before + admission_first_gone(page));
}

/// The worker is gone as well, and with it all that was mapped.
pub open spec fn admission_second_gone() -> Seq<Step> {
    seq![
        once(Act::Detach(Who::Second), Want::Done),
        once(Act::Reap(Who::Second), Want::Done),
        once(Act::Stats, Want::Mapped { mark: StatsMark::Baseline, gained: 0, lost: 0 }),
    ]
}

fn ask_admission_second_gone(steps: &mut Vec<Step>)
    ensures
        final(steps)@ == old(steps)@ + admission_second_gone(),
{
    let ghost before = steps@;
    ask(steps, Act::Detach(Who::Second), Want::Done);
    ask(steps, Act::Reap(Who::Second), Want::Done);
    ask(steps, Act::Stats, Want::Mapped { mark: StatsMark::Baseline, gained: 0, lost: 0 });
    assert(steps@ =~= before + admission_second_gone());
}

/// The worker touches what it must not, which stops the process.
pub open spec fn admission_fault(fault: Fault) -> Seq<Step> {
    seq![
        within(Act::Resume { who: Who::Second, how: Resumed::Timeslice, millis: 50 }, Want::Stop(Stop::Faulted(fault)), 20),
        once(Act::IsStopped, Want::Flag(true)),
    ]
}

fn ask_admission_fault(steps: &mut Vec<Step>, fault: Fault)
    ensures
        final(steps)@ == old(steps)@ + admission_fault(fault),
{
    let ghost before = steps@;
    ask_within(steps, Act::Resume { who: Who::Second, how: Resumed::Timeslice, millis: 50 }, Want::Stop(Stop::Faulted(fault)), 20);
    ask(steps, Act::IsStopped, Want::Flag(true));
    assert(steps@ =~= before + admission_fault(fault));
}

/// The pair that came again was not written.
pub open spec fn admission_spare() -> Seq<Step> {
    seq![
        once(Act::SpareIsClear, Want::Flag(true)),
        once(Act::Metadata, Want::Kept(Mark::Metadata)),
        once(Act::DropSpare, Want::Done),
    ]
}

fn ask_admission_spare(steps: &mut Vec<Step>)
    ensures
        final(steps)@ == old(steps)@ + admission_spare(),
{
    let ghost before = steps@;
    ask(steps, Act::SpareIsClear, Want::Flag(true));
    ask(steps, Act::Metadata, Want::Kept(Mark::Metadata));
    ask(steps, Act::DropSpare, Want::Done);
    assert(steps@ =~= before + admission_spare());
}

/// The context goes, and leaves its pairs cleared.
pub open spec fn admission_end() -> Seq<Step> {
    seq![
        once(Act::StopContext, Want::Done),
        once(Act::DropContext, Want::Done),
        once(Act::PairsAreClear, Want::Flag(true)),
        once(Act::StopSync, Want::Done),
        once(Act::WithdrawRight, Want::Done),
    ]
}

fn ask_admission_end(steps: &mut Vec<Step>)
    ensures
        final(steps)@ == old(steps)@ + admission_end(),
{
    let ghost before = steps@;
    ask(steps, Act::StopContext, Want::Done);
    ask(steps, Act::DropContext, Want::Done);
    ask(steps, Act::PairsAreClear, Want::Flag(true));
    ask(steps, Act::StopSync, Want::Done);
    ask(steps, Act::WithdrawRight, Want::Done);
    assert(steps@ =~= before + admission_end());
}

/// The initial thread gets the processor.
pub open spec fn admission_begin_turn() -> Seq<Step> {
    seq![
        once(Act::Dispatch(Who::First), Want::Done),
    ]
}

fn ask_admission_begin_turn(steps: &mut Vec<Step>)
    ensures
        final(steps)@ == old(steps)@ + admission_begin_turn(),
{
    let ghost before = steps@;
    ask(steps, Act::Dispatch(Who::First), Want::Done);
    assert(steps@ =~= before + admission_begin_turn());
}

/// What is given back, whatever was seen: the context before its frames.
pub open spec fn admission_giving_back() -> Seq<Act> {
    seq![Act::DropContext, Act::FreeSpareFrames, Act::ReclaimAll]
}

fn list_admission_giving_back() -> (acts: Vec<Act>)
    ensures
        acts@ == admission_giving_back(),
{
    let mut acts: Vec<Act> = Vec::new();
    acts.push(Act::DropContext);
    acts.push(Act::FreeSpareFrames);
    acts.push(Act::ReclaimAll);
    assert(acts@ =~= admission_giving_back());
    acts
}

/// A remaining thread is released and removed.
pub open spec fn release_one(who: Who) -> Seq<Step> {
    seq![
        once(Act::Release(who), Want::AnyNumber),
        once(Act::Reap(who), Want::Done),
    ]
}

fn ask_release_one(steps: &mut Vec<Step>, who: Who)
    ensures
        final(steps)@ == old(steps)@ + release_one(who),
{
    let ghost before = steps@;
    ask(steps, Act::Release(who), Want::AnyNumber);
    ask(steps, Act::Reap(who), Want::Done);
    assert(steps@ =~= before + release_one(who));
}

/// Nothing is missing.
pub open spec fn admission_confirming() -> Seq<Step> {
    seq![
        once(Act::SyncUsage, Want::Numbers(0, 0)),
        once(Act::RemoveProcess(Holder::Own), Want::Done),
        once(Act::CommittedPages, Want::Number(0)),
        once(Act::FreeFrames, Want::Kept(Mark::Free)),
    ]
}

fn ask_admission_confirming(steps: &mut Vec<Step>)
    ensures
        final(steps)@ == old(steps)@ + admission_confirming(),
{
    let ghost before = steps@;
    ask(steps, Act::SyncUsage, Want::Numbers(0, 0));
    ask(steps, Act::RemoveProcess(Holder::Own), Want::Done);
    ask(steps, Act::CommittedPages, Want::Number(0));
    ask(steps, Act::FreeFrames, Want::Kept(Mark::Free));
    assert(steps@ =~= before + admission_confirming());
}

/// What a probe of admission is about.
#[derive(Clone, Copy, Debug, PartialEq, Eq, Structural)]
pub enum AdmissionCase {
    /// Both threads come and go.
    Complete,
    /// A worker is revoked and comes again.
    Reuse,
    /// The worker reads the memory of the thread that is gone.
    RetiredRead,
    /// The worker writes its descriptor.
    DescriptorWrite,
    /// The worker reads below its stack.
    GuardRead,
    /// The worker's admission fails in the middle.
    Partial,
    /// The worker was started before its admission.
    Ready,
    /// The context has room for one thread.
    Capacity,
    /// Page tables are missing.
    Tables,
    /// The process page is mapped twice.
    HeaderAlias,
}

impl AdmissionCase {
    /// The word that tells the worker what to touch in the end.
    pub fn code(self) -> (word: u64)
        ensures
            word == match self {
                AdmissionCase::RetiredRead => 1u64,
                AdmissionCase::DescriptorWrite => 2,
                AdmissionCase::GuardRead => 3,
                _ => 0,
            },
    {
        match self {
            AdmissionCase::RetiredRead => 1,
            AdmissionCase::DescriptorWrite => 2,
            AdmissionCase::GuardRead => 3,
            _ => 0,
        }
    }
}

/// The cases in order.
pub open spec fn all_admission_cases() -> Seq<AdmissionCase> {
    seq![
        AdmissionCase::Complete,
        AdmissionCase::Reuse,
        AdmissionCase::RetiredRead,
        AdmissionCase::DescriptorWrite,
        AdmissionCase::GuardRead,
        AdmissionCase::Partial,
        AdmissionCase::Ready,
        AdmissionCase::Capacity,
        AdmissionCase::Tables,
        AdmissionCase::HeaderAlias,
    ]
}

/// List the cases in order.
pub fn admission_cases() -> (cases: Vec<AdmissionCase>)
    ensures
        cases@ == all_admission_cases(),
{
    let mut cases: Vec<AdmissionCase> = Vec::new();
    cases.push(AdmissionCase::Complete);
    cases.push(AdmissionCase::Reuse);
    cases.push(AdmissionCase::RetiredRead);
    cases.push(AdmissionCase::DescriptorWrite);
    cases.push(AdmissionCase::GuardRead);
    cases.push(AdmissionCase::Partial);
    cases.push(AdmissionCase::Ready);
    cases.push(AdmissionCase::Capacity);
    cases.push(AdmissionCase::Tables);
    cases.push(AdmissionCase::HeaderAlias);
    assert(cases@ =~= all_admission_cases());
    cases
}

/// Threads that the context has room for.
pub open spec fn contexts_for(case: AdmissionCase) -> u64 {
    if case == AdmissionCase::Capacity {
        1
    } else {
        2
    }
}

/// The steps before the worker's admission.
pub open spec fn admission_beginning(case: AdmissionCase) -> Seq<Step> {
    Seq::<Step>::empty() + admission_set_up(contexts_for(case)) + admission_rejections()
        + admission_first() + admission_second()
}

/// The steps after the worker's admission until the initial thread is gone.
pub open spec fn admission_middle(page: u64) -> Seq<Step> {
    Seq::<Step>::empty() + admission_cycles() + admission_begin_turn() + admission_retire(
        Who::First,
    ) + admission_first_gone(page)
}

/// The steps of a case: the descriptors of both threads say where they live.
pub open spec fn admission_steps(
    case: AdmissionCase,
    first: StartupDescriptor,
    second: StartupDescriptor,
) -> Seq<Step> {
    match case {
        AdmissionCase::Tables => Seq::<Step>::empty() + admission_set_up(2) + admission_impossible(
            Refusal::TablesExhausted,
        ),
        AdmissionCase::HeaderAlias => Seq::<Step>::empty() + admission_set_up(2)
            + admission_impossible(Refusal::InvalidContext),
        AdmissionCase::Partial => admission_beginning(case) + admission_cut_short(
            second.stack_bottom,
            second.tls_base,
        ) + admission_end(),
        AdmissionCase::Ready => admission_beginning(case) + admission_start() + admission_not_now()
            + admission_end(),
        AdmissionCase::Capacity => admission_beginning(case) + admission_not_now()
            + admission_end(),
        AdmissionCase::Complete => admission_beginning(case) + admission_worker()
            + admission_middle(first.address) + admission_retire(Who::Second)
            + admission_second_gone() + admission_spare() + admission_end(),
        AdmissionCase::Reuse => admission_beginning(case) + admission_worker() + admission_reuse()
            + admission_middle(first.address) + admission_retire(Who::Second)
            + admission_second_gone() + admission_spare() + admission_end(),
        AdmissionCase::DescriptorWrite => admission_beginning(case) + admission_worker()
            + admission_middle(first.address) + admission_fault(Fault::Permission)
            + admission_spare() + admission_end(),
        AdmissionCase::RetiredRead | AdmissionCase::GuardRead => admission_beginning(case)
            + admission_worker() + admission_middle(first.address) + admission_fault(
            Fault::Translation,
        ) + admission_spare() + admission_end(),
    }
}

/// What is confirmed: the threads that are still recorded are released first.
pub open spec fn admission_last(case: AdmissionCase) -> Seq<Step> {
    let none = Seq::<Step>::empty();
    match case {
        AdmissionCase::Tables | AdmissionCase::HeaderAlias => none + release_one(Who::First)
            + admission_confirming(),
        AdmissionCase::Partial | AdmissionCase::Ready | AdmissionCase::Capacity => none
            + release_one(Who::First) + release_one(Who::Second) + admission_confirming(),
        AdmissionCase::Complete | AdmissionCase::Reuse => none + admission_confirming(),
        _ => none + release_one(Who::Second) + admission_confirming(),
    }
}

fn ask_admission_beginning(steps: &mut Vec<Step>, case: AdmissionCase)
    requires
        old(steps)@ == Seq::<Step>::empty(),
    ensures
        final(steps)@ == admission_beginning(case),
{
    let contexts: u64 = match case {
        AdmissionCase::Capacity => 1,
        _ => 2,
    };
    ask_admission_set_up(steps, contexts);
    ask_admission_rejections(steps);
    ask_admission_first(steps);
    ask_admission_second(steps);
}

fn ask_admission_middle(steps: &mut Vec<Step>, page: u64)
    ensures
        final(steps)@ == old(steps)@ + admission_middle(page),
{
    let mut part: Vec<Step> = Vec::new();
    ask_admission_cycles(&mut part);
    ask_admission_begin_turn(&mut part);
    ask_admission_retire(&mut part, Who::First);
    ask_admission_first_gone(&mut part, page);
    append_steps(steps, &part);
}

fn list_admission_steps(
    case: AdmissionCase,
    first: &StartupDescriptor,
    second: &StartupDescriptor,
) -> (steps: Vec<Step>)
    ensures
        steps@ == admission_steps(case, *first, *second),
{
    let mut steps: Vec<Step> = Vec::new();
    match case {
        AdmissionCase::Tables => {
            ask_admission_set_up(&mut steps, 2);
            ask_admission_impossible(&mut steps, Refusal::TablesExhausted);
            return steps;
        },
        AdmissionCase::HeaderAlias => {
            ask_admission_set_up(&mut steps, 2);
            ask_admission_impossible(&mut steps, Refusal::InvalidContext);
            return steps;
        },
        _ => {},
    }
    ask_admission_beginning(&mut steps, case);
    match case {
        AdmissionCase::Partial => {
            ask_admission_cut_short(&mut steps, second.stack_bottom, second.tls_base);
        },
        AdmissionCase::Ready => {
            ask_admission_start(&mut steps);
            ask_admission_not_now(&mut steps);
        },
        AdmissionCase::Capacity => {
            ask_admission_not_now(&mut steps);
        },
        AdmissionCase::Complete => {
            ask_admission_worker(&mut steps);
            ask_admission_middle(&mut steps, first.address);
            ask_admission_retire(&mut steps, Who::Second);
            ask_admission_second_gone(&mut steps);
            ask_admission_spare(&mut steps);
        },
        AdmissionCase::Reuse => {
            ask_admission_worker(&mut steps);
            ask_admission_reuse(&mut steps);
            ask_admission_middle(&mut steps, first.address);
            ask_admission_retire(&mut steps, Who::Second);
            ask_admission_second_gone(&mut steps);
            ask_admission_spare(&mut steps);
        },
        AdmissionCase::DescriptorWrite => {
            ask_admission_worker(&mut steps);
            ask_admission_middle(&mut steps, first.address);
            ask_admission_fault(&mut steps, Fault::Permission);
            ask_admission_spare(&mut steps);
        },
        _ => {
            ask_admission_worker(&mut steps);
            ask_admission_middle(&mut steps, first.address);
            ask_admission_fault(&mut steps, Fault::Translation);
            ask_admission_spare(&mut steps);
        },
    }
    ask_admission_end(&mut steps);
    steps
}

/// The probe of admission: a thread's memory is checked and cleaned before it
/// is mapped, and goes back page by page when the thread is gone.
pub fn admission_probe(
    case: AdmissionCase,
    first: &StartupDescriptor,
    second: &StartupDescriptor,
) -> (agenda: Agenda)
    ensures
        agenda@ == (AgendaView {
            steps: admission_steps(case, *first, *second),
            closing: admission_giving_back(),
            confirming: admission_last(case),
        }),
{
    let steps = list_admission_steps(case, first, second);
    let mut last: Vec<Step> = Vec::new();
    match case {
        AdmissionCase::Tables | AdmissionCase::HeaderAlias => {
            ask_release_one(&mut last, Who::First);
        },
        AdmissionCase::Partial | AdmissionCase::Ready | AdmissionCase::Capacity => {
            ask_release_one(&mut last, Who::First);
            ask_release_one(&mut last, Who::Second);
        },
        AdmissionCase::Complete | AdmissionCase::Reuse => {},
        _ => {
            ask_release_one(&mut last, Who::Second);
        },
    }
    ask_admission_confirming(&mut last);
    Agenda { steps, closing: list_admission_giving_back(), confirming: last }
}

/// A word to write into the process page.
#[derive(Clone, Copy, Debug, PartialEq, Eq, Structural)]
pub struct PageWord {
    /// Offset.
    pub offset: u64,
    /// Word.
    pub word: u64,
}

/// What the process page holds beside the encoded reference and request: its
/// first word, what the worker is to touch, and the handle of the scheduler.
pub open spec fn process_words(code: u64, handle: u64) -> Seq<PageWord> {
    seq![
        PageWord { offset: 0, word: HEADER },
        PageWord { offset: 112, word: code },
        PageWord { offset: 120, word: handle },
    ]
}

/// What to write into the process page.
pub fn list_process_words(code: u64, handle: u64) -> (words: Vec<PageWord>)
    ensures
        words@ == process_words(code, handle),
{
    let mut words: Vec<PageWord> = Vec::new();
    words.push(PageWord { offset: 0, word: HEADER });
    words.push(PageWord { offset: 112, word: code });
    words.push(PageWord { offset: 120, word: handle });
    assert(words@ =~= process_words(code, handle));
    words
}

/// The mappings of the process page: read-only where programs find it, and in
/// one case writable elsewhere.
pub open spec fn process_mappings(data: PageRange, alias: bool) -> Seq<PlannedMapping> {
    let page = user_mapping(USER_DATA_BASE, page_of(data, 0), Permissions::ReadOnly);
    if alias {
        seq![page, user_mapping(ALIAS_PAGE, page_of(data, 0), Permissions::ReadWrite)]
    } else {
        seq![page]
    }
}

/// The mapping plan of a process whose threads are admitted one by one, from
/// the plan of the isolated task: data and stack give way to the process
/// page. Nothing comes back where that does not fit.
pub fn lay_out_process(base: &MappingPlan, allocation: &IsolatedAllocation, alias: bool) -> (plan:
    Option<MappingPlan>)
    requires
        base.well_formed(),
        allocation.well_formed(),
    ensures
        ({
            let rest = kept(base@, seq![USER_DATA_BASE, USER_STACK_BASE]);
            let extra = process_mappings(allocation.data, alias);
            match plan {
                Some(p) => addable(rest, extra, base.capacity as int) && p@ == rest + extra
                    && p.capacity == base.capacity && p.well_formed(),
                None => !addable(rest, extra, base.capacity as int),
            }
        }),
{
    let rest = keep_others(base, &[USER_DATA_BASE, USER_STACK_BASE]);
    proof {
        let both: [u64; 2] = [USER_DATA_BASE, USER_STACK_BASE];
        assert(both@ =~= seq![USER_DATA_BASE, USER_STACK_BASE]);
    }
    let page = allocation.data.part(0, 1);
    proof {
        PageRange::lemma_spanning(page);
    }
    let mut extra: Vec<PlannedMapping> = Vec::new();
    extra.push(make_user_mapping(USER_DATA_BASE, page, Permissions::ReadOnly));
    if alias {
        extra.push(make_user_mapping(ALIAS_PAGE, page, Permissions::ReadWrite));
    }
    assert(extra@ =~= process_mappings(allocation.data, alias));
    add_all(rest, &extra)
}

/// Whether an act gives up a thread's record.
pub open spec fn is_release(step: Step, who: Who) -> bool {
    step.act == Act::Release(who)
}

/// A thread that exits has its mappings taken away before its frames are
/// freed, and its frames freed before its record says so.
pub proof fn frames_go_before_records(who: Who, i: int, j: int)
    requires
        0 <= i < admission_retire(who).len(),
        0 <= j < admission_retire(who).len(),
    ensures
        admission_retire(who)[i].act == Act::FreeThreadFrames(who) && is_release(
            admission_retire(who)[j],
            who,
        ) ==> i < j,
        admission_retire(who)[i].act == (Act::Retire { who, backing: Backing::Right })
            && admission_retire(who)[j].act == Act::FreeThreadFrames(who) ==> i < j,
{
}

/// Only the case about capacity has room for one context; the process page holds
/// its header, code and handle, read-only, and an alias shows it once more,
/// writable.
pub proof fn admissions_are_set_up(
    case: AdmissionCase,
    code: u64,
    handle: u64,
    data: PageRange,
    alias: bool,
)
    requires
        data.well_formed(),
    ensures
        case == AdmissionCase::Capacity ==> contexts_for(case) == 1,
        case != AdmissionCase::Capacity ==> contexts_for(case) == 2,
        process_words(code, handle) == seq![
            PageWord { offset: 0, word: 0x1234_5678_9abc_def0 },
            PageWord { offset: 112, word: code },
            PageWord { offset: 120, word: handle },
        ],
        ({
            let mappings = process_mappings(data, alias);
            &&& mappings[0].physical.first() == data.first()
            &&& mappings[0].virtual_range.first() * 4096 == 0x4000_0000_1000
            &&& mappings[0].permissions == Permissions::ReadOnly
            &&& !alias ==> mappings.len() == 1
            &&& alias ==> mappings.len() == 2 && mappings[1].physical.first() == data.first()
                && mappings[1].virtual_range.first() * 4096 == 0x4000_0000_2000
                && mappings[1].permissions == Permissions::ReadWrite
        }),
{
    PageRange::lemma_spanning_parts(data.first(), 1);
    PageRange::lemma_spanning_parts(0x4_0000_0001, 1);
    PageRange::lemma_spanning_parts(0x4_0000_0002, 1);
}

proof fn lemma_admission_set_up_sensible(contexts: u64)
    ensures
        all_sensible(admission_set_up(contexts)),
{
    let steps = admission_set_up(contexts);
    assert forall|i: int| 0 <= i < steps.len() implies sensible(#[trigger] steps[i]) by {}
}

proof fn lemma_admission_impossible_sensible(reason: Refusal)
    ensures
        all_sensible(admission_impossible(reason)),
{
    let steps = admission_impossible(reason);
    assert forall|i: int| 0 <= i < steps.len() implies sensible(#[trigger] steps[i]) by {}
}

proof fn lemma_admission_rejections_sensible()
    ensures
        all_sensible(admission_rejections()),
{
    let steps = admission_rejections();
    assert forall|i: int| 0 <= i < steps.len() implies sensible(#[trigger] steps[i]) by {}
}

proof fn lemma_admission_first_sensible()
    ensures
        all_sensible(admission_first()),
{
    let steps = admission_first();
    assert forall|i: int| 0 <= i < steps.len() implies sensible(#[trigger] steps[i]) by {}
}

proof fn lemma_admission_second_sensible()
    ensures
        all_sensible(admission_second()),
{
    let steps = admission_second();
    assert forall|i: int| 0 <= i < steps.len() implies sensible(#[trigger] steps[i]) by {}
}

proof fn lemma_admission_cut_short_sensible(stack: u64, tls: u64)
    ensures
        all_sensible(admission_cut_short(stack, tls)),
{
    let steps = admission_cut_short(stack, tls);
    assert forall|i: int| 0 <= i < steps.len() implies sensible(#[trigger] steps[i]) by {}
}

proof fn lemma_admission_not_now_sensible()
    ensures
        all_sensible(admission_not_now()),
{
    let steps = admission_not_now();
    assert forall|i: int| 0 <= i < steps.len() implies sensible(#[trigger] steps[i]) by {}
}

proof fn lemma_admission_start_sensible()
    ensures
        all_sensible(admission_start()),
{
    let steps = admission_start();
    assert forall|i: int| 0 <= i < steps.len() implies sensible(#[trigger] steps[i]) by {}
}

proof fn lemma_admission_worker_sensible()
    ensures
        all_sensible(admission_worker()),
{
    let steps = admission_worker();
    assert forall|i: int| 0 <= i < steps.len() implies sensible(#[trigger] steps[i]) by {}
}

proof fn lemma_admission_reuse_sensible()
    ensures
        all_sensible(admission_reuse()),
{
    let steps = admission_reuse();
    assert forall|i: int| 0 <= i < steps.len() implies sensible(#[trigger] steps[i]) by {}
}

proof fn lemma_admission_cycles_sensible()
    ensures
        all_sensible(admission_cycles()),
{
    let steps = admission_cycles();
    assert forall|i: int| 0 <= i < steps.len() implies sensible(#[trigger] steps[i]) by {}
}

proof fn lemma_admission_retire_sensible(who: Who)
    requires
        who != Who::Foreign,
        who != Who::Former,
    ensures
        all_sensible(admission_retire(who)),
{
    let steps = admission_retire(who);
    assert forall|i: int| 0 <= i < steps.len() implies sensible(#[trigger] steps[i]) by {}
}

proof fn lemma_admission_first_gone_sensible(page: u64)
    ensures
        all_sensible(admission_first_gone(page)),
{
    let steps = admission_first_gone(page);
    assert forall|i: int| 0 <= i < steps.len() implies sensible(#[trigger] steps[i]) by {}
}

proof fn lemma_admission_second_gone_sensible()
    ensures
        all_sensible(admission_second_gone()),
{
    let steps = admission_second_gone();
    assert forall|i: int| 0 <= i < steps.len() implies sensible(#[trigger] steps[i]) by {}
}

proof fn lemma_admission_fault_sensible(fault: Fault)
    ensures
        all_sensible(admission_fault(fault)),
{
    let steps = admission_fault(fault);
    assert forall|i: int| 0 <= i < steps.len() implies sensible(#[trigger] steps[i]) by {}
}

proof fn lemma_admission_spare_sensible()
    ensures
        all_sensible(admission_spare()),
{
    let steps = admission_spare();
    assert forall|i: int| 0 <= i < steps.len() implies sensible(#[trigger] steps[i]) by {}
}

proof fn lemma_admission_end_sensible()
    ensures
        all_sensible(admission_end()),
{
    let steps = admission_end();
    assert forall|i: int| 0 <= i < steps.len() implies sensible(#[trigger] steps[i]) by {}
}

proof fn lemma_admission_begin_turn_sensible()
    ensures
        all_sensible(admission_begin_turn()),
{
    let steps = admission_begin_turn();
    assert forall|i: int| 0 <= i < steps.len() implies sensible(#[trigger] steps[i]) by {}
}

proof fn lemma_release_one_sensible(who: Who)
    requires
        who != Who::Foreign,
        who != Who::Former,
    ensures
        all_sensible(release_one(who)),
{
    let steps = release_one(who);
    assert forall|i: int| 0 <= i < steps.len() implies sensible(#[trigger] steps[i]) by {}
}

proof fn lemma_admission_confirming_sensible()
    ensures
        all_sensible(admission_confirming()),
{
    let steps = admission_confirming();
    assert forall|i: int| 0 <= i < steps.len() implies sensible(#[trigger] steps[i]) by {}
}

proof fn lemma_admission_beginning_sensible(case: AdmissionCase)
    ensures
        all_sensible(admission_beginning(case)),
{
    lemma_admission_set_up_sensible(contexts_for(case));
    lemma_sensible_join(Seq::<Step>::empty(), admission_set_up(contexts_for(case)));
    let s0 = Seq::<Step>::empty() + admission_set_up(contexts_for(case));
    lemma_admission_rejections_sensible();
    lemma_sensible_join(s0, admission_rejections());
    let s1 = s0 + admission_rejections();
    lemma_admission_first_sensible();
    lemma_sensible_join(s1, admission_first());
    let s2 = s1 + admission_first();
    lemma_admission_second_sensible();
    lemma_sensible_join(s2, admission_second());
    let s3 = s2 + admission_second();
}

proof fn lemma_admission_middle_sensible(page: u64)
    ensures
        all_sensible(admission_middle(page)),
{
    lemma_admission_cycles_sensible();
    lemma_sensible_join(Seq::<Step>::empty(), admission_cycles());
    let s0 = Seq::<Step>::empty() + admission_cycles();
    lemma_admission_begin_turn_sensible();
    lemma_sensible_join(s0, admission_begin_turn());
    let s1 = s0 + admission_begin_turn();
    lemma_admission_retire_sensible(Who::First);
    lemma_sensible_join(s1, admission_retire(Who::First));
    let s2 = s1 + admission_retire(Who::First);
    lemma_admission_first_gone_sensible(page);
    lemma_sensible_join(s2, admission_first_gone(page));
    let s3 = s2 + admission_first_gone(page);
}

/// Every step of an admission has an answer that makes sense: forged admissions are
/// refused, and what is set up is given back.
pub proof fn admissions_expect_sensible_answers(
    case: AdmissionCase,
    first: StartupDescriptor,
    second: StartupDescriptor,
)
    ensures
        all_sensible(admission_steps(case, first, second)),
        all_sensible(admission_last(case)),
{
    lemma_admission_beginning_sensible(case);
    match case {
        AdmissionCase::Tables => {
            lemma_admission_set_up_sensible(2);
            lemma_sensible_join(Seq::<Step>::empty(), admission_set_up(2));
            let s0 = Seq::<Step>::empty() + admission_set_up(2);
            lemma_admission_impossible_sensible(Refusal::TablesExhausted);
            lemma_sensible_join(s0, admission_impossible(Refusal::TablesExhausted));
            let s1 = s0 + admission_impossible(Refusal::TablesExhausted);
        },
        AdmissionCase::HeaderAlias => {
            lemma_admission_set_up_sensible(2);
            lemma_sensible_join(Seq::<Step>::empty(), admission_set_up(2));
            let s0 = Seq::<Step>::empty() + admission_set_up(2);
            lemma_admission_impossible_sensible(Refusal::InvalidContext);
            lemma_sensible_join(s0, admission_impossible(Refusal::InvalidContext));
            let s1 = s0 + admission_impossible(Refusal::InvalidContext);
        },
        AdmissionCase::Partial => {
            lemma_admission_cut_short_sensible(second.stack_bottom, second.tls_base);
            lemma_sensible_join(admission_beginning(case), admission_cut_short(second.stack_bottom, second.tls_base));
            let s0 = admission_beginning(case) + admission_cut_short(second.stack_bottom, second.tls_base);
            lemma_admission_end_sensible();
            lemma_sensible_join(s0, admission_end());
            let s1 = s0 + admission_end();
        },
        AdmissionCase::Ready => {
            lemma_admission_start_sensible();
            lemma_sensible_join(admission_beginning(case), admission_start());
            let s0 = admission_beginning(case) + admission_start();
            lemma_admission_not_now_sensible();
            lemma_sensible_join(s0, admission_not_now());
            let s1 = s0 + admission_not_now();
            lemma_admission_end_sensible();
            lemma_sensible_join(s1, admission_end());
            let s2 = s1 + admission_end();
        },
        AdmissionCase::Capacity => {
            lemma_admission_not_now_sensible();
            lemma_sensible_join(admission_beginning(case), admission_not_now());
            let s0 = admission_beginning(case) + admission_not_now();
            lemma_admission_end_sensible();
            lemma_sensible_join(s0, admission_end());
            let s1 = s0 + admission_end();
        },
        AdmissionCase::Complete => {
            lemma_admission_worker_sensible();
            lemma_sensible_join(admission_beginning(case), admission_worker());
            let s0 = admission_beginning(case) + admission_worker();
            lemma_admission_middle_sensible(first.address);
            lemma_sensible_join(s0, admission_middle(first.address));
            let s1 = s0 + admission_middle(first.address);
            lemma_admission_retire_sensible(Who::Second);
            lemma_sensible_join(s1, admission_retire(Who::Second));
            let s2 = s1 + admission_retire(Who::Second);
            lemma_admission_second_gone_sensible();
            lemma_sensible_join(s2, admission_second_gone());
            let s3 = s2 + admission_second_gone();
            lemma_admission_spare_sensible();
            lemma_sensible_join(s3, admission_spare());
            let s4 = s3 + admission_spare();
            lemma_admission_end_sensible();
            lemma_sensible_join(s4, admission_end());
            let s5 = s4 + admission_end();
        },
        AdmissionCase::Reuse => {
            lemma_admission_worker_sensible();
            lemma_sensible_join(admission_beginning(case), admission_worker());
            let s0 = admission_beginning(case) + admission_worker();
            lemma_admission_reuse_sensible();
            lemma_sensible_join(s0, admission_reuse());
            let s1 = s0 + admission_reuse();
            lemma_admission_middle_sensible(first.address);
            lemma_sensible_join(s1, admission_middle(first.address));
            let s2 = s1 + admission_middle(first.address);
            lemma_admission_retire_sensible(Who::Second);
            lemma_sensible_join(s2, admission_retire(Who::Second));
            let s3 = s2 + admission_retire(Who::Second);
            lemma_admission_second_gone_sensible();
            lemma_sensible_join(s3, admission_second_gone());
            let s4 = s3 + admission_second_gone();
            lemma_admission_spare_sensible();
            lemma_sensible_join(s4, admission_spare());
            let s5 = s4 + admission_spare();
            lemma_admission_end_sensible();
            lemma_sensible_join(s5, admission_end());
            let s6 = s5 + admission_end();
        },
        AdmissionCase::DescriptorWrite => {
            lemma_admission_worker_sensible();
            lemma_sensible_join(admission_beginning(case), admission_worker());
            let s0 = admission_beginning(case) + admission_worker();
            lemma_admission_middle_sensible(first.address);
            lemma_sensible_join(s0, admission_middle(first.address));
            let s1 = s0 + admission_middle(first.address);
            lemma_admission_fault_sensible(Fault::Permission);
            lemma_sensible_join(s1, admission_fault(Fault::Permission));
            let s2 = s1 + admission_fault(Fault::Permission);
            lemma_admission_spare_sensible();
            lemma_sensible_join(s2, admission_spare());
            let s3 = s2 + admission_spare();
            lemma_admission_end_sensible();
            lemma_sensible_join(s3, admission_end());
            let s4 = s3 + admission_end();
        },
        AdmissionCase::RetiredRead | AdmissionCase::GuardRead => {
            lemma_admission_worker_sensible();
            lemma_sensible_join(admission_beginning(case), admission_worker());
            let s0 = admission_beginning(case) + admission_worker();
            lemma_admission_middle_sensible(first.address);
            lemma_sensible_join(s0, admission_middle(first.address));
            let s1 = s0 + admission_middle(first.address);
            lemma_admission_fault_sensible(Fault::Translation);
            lemma_sensible_join(s1, admission_fault(Fault::Translation));
            let s2 = s1 + admission_fault(Fault::Translation);
            lemma_admission_spare_sensible();
            lemma_sensible_join(s2, admission_spare());
            let s3 = s2 + admission_spare();
            lemma_admission_end_sensible();
            lemma_sensible_join(s3, admission_end());
            let s4 = s3 + admission_end();
        },
    }
    match case {
        AdmissionCase::Tables | AdmissionCase::HeaderAlias => {
            lemma_release_one_sensible(Who::First);
            lemma_sensible_join(Seq::<Step>::empty(), release_one(Who::First));
            let s0 = Seq::<Step>::empty() + release_one(Who::First);
            lemma_admission_confirming_sensible();
            lemma_sensible_join(s0, admission_confirming());
            let s1 = s0 + admission_confirming();
        },
        AdmissionCase::Partial | AdmissionCase::Ready | AdmissionCase::Capacity => {
            lemma_release_one_sensible(Who::First);
            lemma_sensible_join(Seq::<Step>::empty(), release_one(Who::First));
            let s0 = Seq::<Step>::empty() + release_one(Who::First);
            lemma_release_one_sensible(Who::Second);
            lemma_sensible_join(s0, release_one(Who::Second));
            let s1 = s0 + release_one(Who::Second);
            lemma_admission_confirming_sensible();
            lemma_sensible_join(s1, admission_confirming());
            let s2 = s1 + admission_confirming();
        },
        AdmissionCase::Complete | AdmissionCase::Reuse => {
            lemma_admission_confirming_sensible();
            lemma_sensible_join(Seq::<Step>::empty(), admission_confirming());
            let s0 = Seq::<Step>::empty() + admission_confirming();
        },
        _ => {
            lemma_release_one_sensible(Who::Second);
            lemma_sensible_join(Seq::<Step>::empty(), release_one(Who::Second));
            let s0 = Seq::<Step>::empty() + release_one(Who::Second);
            lemma_admission_confirming_sensible();
            lemma_sensible_join(s0, admission_confirming());
            let s1 = s0 + admission_confirming();
        },
    }
}

} // verus!
