//! Threads that exit or are revoked while their sibling goes on.

use crate::memory::pages::PageRange;
use crate::memory::plan::{MappingPlan, PlannedMapping};
use crate::memory::private::mapping::Permissions;
use crate::probe::layout::{
    add_all, addable, make_user_mapping, page_of, start, thread_start, user_mapping, FIRST_RX,
    FIRST_STACK, FIRST_TLS, FIRST_TX, METADATA_LIMIT, SECOND_COUNTER, SECOND_TX, STARTUP_PAGE,
};
use crate::probe::trial::{
    all_sensible, append_steps, ask, ask_within, lemma_sensible_join, once, proper, sensible,
    within, Agenda, AgendaView, Step,
};
use crate::probe::words::{
    Act, Backing, Fault, Holder, Mark, PairMark, Progress, Refusal, Resumed, StatsMark, Stop, ThreadStart, Want, Who,
};
use vstd::prelude::*;

verus! {

/// The largest word, as which an exit status comes back.
pub const LARGEST: u64 = 0xffff_ffff_ffff_ffff;

/// Three pages behind the startup page.
pub const ALIAS_PAGE: u64 = 0x4000_0002_5000;

/// Frames for a worker, message pages and an address space.
pub open spec fn retirement_set_up() -> Seq<Step> {
    seq![
        once(Act::TakeThreadFrames(Who::First), Want::Done),
        once(Act::TakePairs, Want::Done),
        once(Act::LookAtPair(0), Want::KeepPair(PairMark::First)),
        once(Act::LookAtPair(1), Want::KeepPair(PairMark::Second)),
        once(Act::LayOut, Want::Done),
        once(Act::BuildRoot, Want::Done),
    ]
}

fn ask_retirement_set_up(steps: &mut Vec<Step>)
    ensures
        final(steps)@ == old(steps)@ + retirement_set_up(),
{
    let ghost before = steps@;
    ask(steps, Act::TakeThreadFrames(Who::First), Want::Done);
    ask(steps, Act::TakePairs, Want::Done);
    ask(steps, Act::LookAtPair(0), Want::KeepPair(PairMark::First));
    ask(steps, Act::LookAtPair(1), Want::KeepPair(PairMark::Second));
    ask(steps, Act::LayOut, Want::Done);
    ask(steps, Act::BuildRoot, Want::Done);
    assert(steps@ =~= before + retirement_set_up());
}

/// A process whose sibling thread is the initial one; the worker comes first in
/// the context, so that its retirement moves the sibling.
pub open spec fn retirement_policy(start: bool) -> Seq<Step> {
    seq![
        once(Act::AddProcess(Holder::Own), Want::Done),
        once(Act::OpenThreadRight { start, create: false }, Want::Done),
        once(Act::SetQuota { holder: Holder::Own, records: 2, pages: 9 }, Want::Done),
        once(Act::AddInitial { who: Who::Second, reservation: 1, pages: 4 }, Want::Done),
        once(Act::Start(Who::Second), Want::Done),
        once(Act::Dispatch(Who::Second), Want::Done),
        once(Act::AddWorker { who: Who::First, by: Who::Second, reservation: 2, pages: 5 }, Want::Done),
    ]
}

fn ask_retirement_policy(steps: &mut Vec<Step>, start: bool)
    ensures
        final(steps)@ == old(steps)@ + retirement_policy(start),
{
    let ghost before = steps@;
    ask(steps, Act::AddProcess(Holder::Own), Want::Done);
    ask(steps, Act::OpenThreadRight { start, create: false }, Want::Done);
    ask(steps, Act::SetQuota { holder: Holder::Own, records: 2, pages: 9 }, Want::Done);
    ask(steps, Act::AddInitial { who: Who::Second, reservation: 1, pages: 4 }, Want::Done);
    ask(steps, Act::Start(Who::Second), Want::Done);
    ask(steps, Act::Dispatch(Who::Second), Want::Done);
    ask(steps, Act::AddWorker { who: Who::First, by: Who::Second, reservation: 2, pages: 5 }, Want::Done);
    assert(steps@ =~= before + retirement_policy(start));
}

/// The worker is started.
pub open spec fn retirement_ready() -> Seq<Step> {
    seq![
        once(Act::Start(Who::First), Want::Done),
    ]
}

fn ask_retirement_ready(steps: &mut Vec<Step>)
    ensures
        final(steps)@ == old(steps)@ + retirement_ready(),
{
    let ghost before = steps@;
    ask(steps, Act::Start(Who::First), Want::Done);
    assert(steps@ =~= before + retirement_ready());
}

/// Both threads are prepared; the worker's startup page is its own and can be
/// read.
pub open spec fn retirement_context(first: ThreadStart, second: ThreadStart) -> Seq<Step> {
    seq![
        once(Act::Yield(Who::Second), Want::Done),
        once(Act::AddSync, Want::Done),
        once(Act::WriteScripts, Want::Done),
        once(Act::MakeContext { contexts: 2, metadata: METADATA_LIMIT, backed: true }, Want::Done),
        once(Act::Prepare { who: Who::First, start: ThreadStart { private_startup: Some(first.tls), ..first } }, Want::Refused),
        once(Act::Prepare { who: Who::First, start: ThreadStart { startup: 0, ..first } }, Want::Refused),
        once(Act::Prepare { who: Who::First, start: first }, Want::Done),
        once(Act::BindPair { who: Who::First, pair: 0, tx: FIRST_TX }, Want::Done),
        once(Act::Prepare { who: Who::Second, start: second }, Want::Done),
        once(Act::BindPair { who: Who::Second, pair: 1, tx: SECOND_TX }, Want::Done),
        once(Act::Stats, Want::KeepStats(StatsMark::Baseline)),
        once(Act::Metadata, Want::Keep(Mark::Metadata)),
    ]
}

fn ask_retirement_context(steps: &mut Vec<Step>, first: ThreadStart, second: ThreadStart)
    ensures
        final(steps)@ == old(steps)@ + retirement_context(first, second),
{
    let ghost before = steps@;
    ask(steps, Act::Yield(Who::Second), Want::Done);
    ask(steps, Act::AddSync, Want::Done);
    ask(steps, Act::WriteScripts, Want::Done);
    ask(steps, Act::MakeContext { contexts: 2, metadata: METADATA_LIMIT, backed: true }, Want::Done);
    ask(steps, Act::Prepare { who: Who::First, start: ThreadStart { private_startup: Some(first.tls), ..first } }, Want::Refused);
    ask(steps, Act::Prepare { who: Who::First, start: ThreadStart { startup: 0, ..first } }, Want::Refused);
    ask(steps, Act::Prepare { who: Who::First, start: first }, Want::Done);
    ask(steps, Act::BindPair { who: Who::First, pair: 0, tx: FIRST_TX }, Want::Done);
    ask(steps, Act::Prepare { who: Who::Second, start: second }, Want::Done);
    ask(steps, Act::BindPair { who: Who::Second, pair: 1, tx: SECOND_TX }, Want::Done);
    ask(steps, Act::Stats, Want::KeepStats(StatsMark::Baseline));
    ask(steps, Act::Metadata, Want::Keep(Mark::Metadata));
    assert(steps@ =~= before + retirement_context(first, second));
}

/// A thread runs until it calls the scheduler; its right is checked and its
/// call taken up.
pub open spec fn retirement_capture(who: Who) -> Seq<Step> {
    seq![
        once(Act::Dispatch(who), Want::Done),
        within(Act::Resume { who, how: Resumed::Timeslice, millis: 50 }, Want::Stop(Stop::SchedulerCall), 128),
        once(Act::Authorize(who), Want::Done),
        once(Act::TakeUp(who), Want::Done),
    ]
}

fn ask_retirement_capture(steps: &mut Vec<Step>, who: Who)
    ensures
        final(steps)@ == old(steps)@ + retirement_capture(who),
{
    let ghost before = steps@;
    ask(steps, Act::Dispatch(who), Want::Done);
    ask_within(steps, Act::Resume { who, how: Resumed::Timeslice, millis: 50 }, Want::Stop(Stop::SchedulerCall), 128);
    ask(steps, Act::Authorize(who), Want::Done);
    ask(steps, Act::TakeUp(who), Want::Done);
    assert(steps@ =~= before + retirement_capture(who));
}

/// A call that is no exit retires nobody.
pub open spec fn retirement_wrong() -> Seq<Step> {
    seq![
        once(Act::Yield(Who::Second), Want::Done),
        once(Act::Retire { who: Who::Second, backing: Backing::Right }, Want::Refused),
    ]
}

fn ask_retirement_wrong(steps: &mut Vec<Step>)
    ensures
        final(steps)@ == old(steps)@ + retirement_wrong(),
{
    let ghost before = steps@;
    ask(steps, Act::Yield(Who::Second), Want::Done);
    ask(steps, Act::Retire { who: Who::Second, backing: Backing::Right }, Want::Refused);
    assert(steps@ =~= before + retirement_wrong());
}

/// The worker exits; frames that are not its own are refused.
pub open spec fn retirement_exit() -> Seq<Step> {
    seq![
        once(Act::IsExit(Who::First), Want::Flag(true)),
        once(Act::Retire { who: Who::First, backing: Backing::Swapped }, Want::Refused),
        once(Act::IsStopped, Want::Flag(false)),
        once(Act::Stats, Want::SameStats(StatsMark::Baseline)),
    ]
}

fn ask_retirement_exit(steps: &mut Vec<Step>)
    ensures
        final(steps)@ == old(steps)@ + retirement_exit(),
{
    let ghost before = steps@;
    ask(steps, Act::IsExit(Who::First), Want::Flag(true));
    ask(steps, Act::Retire { who: Who::First, backing: Backing::Swapped }, Want::Refused);
    ask(steps, Act::IsStopped, Want::Flag(false));
    ask(steps, Act::Stats, Want::SameStats(StatsMark::Baseline));
    assert(steps@ =~= before + retirement_exit());
}

/// The worker holds a mutex that its process cannot lose.
pub open spec fn retirement_essential_lock() -> Seq<Step> {
    seq![
        once(Act::HoldEssential(Who::First), Want::Flag(true)),
    ]
}

fn ask_retirement_essential_lock(steps: &mut Vec<Step>)
    ensures
        final(steps)@ == old(steps)@ + retirement_essential_lock(),
{
    let ghost before = steps@;
    ask(steps, Act::HoldEssential(Who::First), Want::Flag(true));
    assert(steps@ =~= before + retirement_essential_lock());
}

/// The exit ends the thread, or with an essential mutex the process.
pub open spec fn retirement_effect(process: bool) -> Seq<Step> {
    seq![
        once(Act::Execute(Who::First), Want::Progress(Progress::Retiring)),
        once(Act::Corresponds(Who::First), Want::Flag(true)),
        once(Act::ExitEffect(Who::First), Want::Flag(process)),
    ]
}

fn ask_retirement_effect(steps: &mut Vec<Step>, process: bool)
    ensures
        final(steps)@ == old(steps)@ + retirement_effect(process),
{
    let ghost before = steps@;
    ask(steps, Act::Execute(Who::First), Want::Progress(Progress::Retiring));
    ask(steps, Act::Corresponds(Who::First), Want::Flag(true));
    ask(steps, Act::ExitEffect(Who::First), Want::Flag(process));
    assert(steps@ =~= before + retirement_effect(process));
}

/// A stopped process keeps the mappings of the thread that exited.
pub open spec fn retirement_essential() -> Seq<Step> {
    seq![
        once(Act::StopContext, Want::Done),
        once(Act::Retire { who: Who::First, backing: Backing::Right }, Want::Refused),
        once(Act::Stats, Want::SameStats(StatsMark::Baseline)),
        once(Act::Word(FIRST_STACK), Want::AnyNumber),
        once(Act::FinishExit(Who::First), Want::Refused),
    ]
}

fn ask_retirement_essential(steps: &mut Vec<Step>)
    ensures
        final(steps)@ == old(steps)@ + retirement_essential(),
{
    let ghost before = steps@;
    ask(steps, Act::StopContext, Want::Done);
    ask(steps, Act::Retire { who: Who::First, backing: Backing::Right }, Want::Refused);
    ask(steps, Act::Stats, Want::SameStats(StatsMark::Baseline));
    ask(steps, Act::Word(FIRST_STACK), Want::AnyNumber);
    ask(steps, Act::FinishExit(Who::First), Want::Refused);
    assert(steps@ =~= before + retirement_essential());
}

/// Memory that something else still refers to is not taken away.
pub open spec fn retirement_shared() -> Seq<Step> {
    seq![
        once(Act::Retire { who: Who::First, backing: Backing::Right }, Want::Refused),
        once(Act::IsStopped, Want::Flag(false)),
        once(Act::Stats, Want::SameStats(StatsMark::Baseline)),
        once(Act::Word(FIRST_TLS), Want::AnyNumber),
        once(Act::DropClaim(Who::First), Want::Done),
        once(Act::StopContext, Want::Done),
    ]
}

fn ask_retirement_shared(steps: &mut Vec<Step>)
    ensures
        final(steps)@ == old(steps)@ + retirement_shared(),
{
    let ghost before = steps@;
    ask(steps, Act::Retire { who: Who::First, backing: Backing::Right }, Want::Refused);
    ask(steps, Act::IsStopped, Want::Flag(false));
    ask(steps, Act::Stats, Want::SameStats(StatsMark::Baseline));
    ask(steps, Act::Word(FIRST_TLS), Want::AnyNumber);
    ask(steps, Act::DropClaim(Who::First), Want::Done);
    ask(steps, Act::StopContext, Want::Done);
    assert(steps@ =~= before + retirement_shared());
}

/// A retirement that fails in the middle stops the process, which keeps what is
/// still mapped.
pub open spec fn retirement_cut_short() -> Seq<Step> {
    seq![
        once(Act::RetireBadly(Who::First), Want::Refused),
        once(Act::IsStopped, Want::Flag(true)),
        once(Act::Stats, Want::SameStats(StatsMark::Baseline)),
        once(Act::Word(FIRST_STACK), Want::Refused),
        once(Act::Word(FIRST_TLS), Want::AnyNumber),
        once(Act::ReplySuccess(Who::First), Want::Refused),
    ]
}

fn ask_retirement_cut_short(steps: &mut Vec<Step>)
    ensures
        final(steps)@ == old(steps)@ + retirement_cut_short(),
{
    let ghost before = steps@;
    ask(steps, Act::RetireBadly(Who::First), Want::Refused);
    ask(steps, Act::IsStopped, Want::Flag(true));
    ask(steps, Act::Stats, Want::SameStats(StatsMark::Baseline));
    ask(steps, Act::Word(FIRST_STACK), Want::Refused);
    ask(steps, Act::Word(FIRST_TLS), Want::AnyNumber);
    ask(steps, Act::ReplySuccess(Who::First), Want::Refused);
    assert(steps@ =~= before + retirement_cut_short());
}

/// Nothing is answered in a stopped process, and its pairs are not given to
/// anybody before it is gone.
pub open spec fn retirement_stopped() -> Seq<Step> {
    seq![
        once(Act::ReplySuccess(Who::Second), Want::Refused),
        once(Act::AnswerScheduler(Who::Second), Want::Refused),
        once(Act::TakeSpare, Want::OtherSlot),
        once(Act::DropSpare, Want::Done),
        once(Act::StopSync, Want::Done),
        once(Act::DropContext, Want::Done),
        once(Act::PairsAreClear, Want::Flag(true)),
        once(Act::StopSync, Want::Done),
        once(Act::WithdrawRight, Want::Done),
    ]
}

fn ask_retirement_stopped(steps: &mut Vec<Step>)
    ensures
        final(steps)@ == old(steps)@ + retirement_stopped(),
{
    let ghost before = steps@;
    ask(steps, Act::ReplySuccess(Who::Second), Want::Refused);
    ask(steps, Act::AnswerScheduler(Who::Second), Want::Refused);
    ask(steps, Act::TakeSpare, Want::OtherSlot);
    ask(steps, Act::DropSpare, Want::Done);
    ask(steps, Act::StopSync, Want::Done);
    ask(steps, Act::DropContext, Want::Done);
    ask(steps, Act::PairsAreClear, Want::Flag(true));
    ask(steps, Act::StopSync, Want::Done);
    ask(steps, Act::WithdrawRight, Want::Done);
    assert(steps@ =~= before + retirement_stopped());
}

/// The worker's five pages are gone, its call is answered by nobody, and its
/// pair is free again.
pub open spec fn retirement_done() -> Seq<Step> {
    seq![
        once(Act::Retire { who: Who::First, backing: Backing::Right }, Want::Receipt { who: Who::First, pages: 3 }),
        once(Act::Stats, Want::Mapped { mark: StatsMark::Baseline, gained: 0, lost: 5 }),
        once(Act::Stats, Want::SameTables(StatsMark::Baseline)),
        once(Act::Metadata, Want::Kept(Mark::Metadata)),
        once(Act::AnswerScheduler(Who::First), Want::Refused),
        once(Act::TakeUpAgain(Who::First), Want::Refused),
        once(Act::Resume { who: Who::First, how: Resumed::Timeslice, millis: 50 }, Want::Refused),
        once(Act::Word(FIRST_STACK), Want::Refused),
        once(Act::Word(FIRST_TLS), Want::Refused),
        once(Act::Word(STARTUP_PAGE), Want::Refused),
        once(Act::Word(FIRST_TX), Want::Refused),
        once(Act::Word(FIRST_RX), Want::Refused),
        once(Act::TakeSpare, Want::Reborn(PairMark::First)),
        once(Act::FinishExit(Who::First), Want::Done),
    ]
}

fn ask_retirement_done(steps: &mut Vec<Step>)
    ensures
        final(steps)@ == old(steps)@ + retirement_done(),
{
    let ghost before = steps@;
    ask(steps, Act::Retire { who: Who::First, backing: Backing::Right }, Want::Receipt { who: Who::First, pages: 3 });
    ask(steps, Act::Stats, Want::Mapped { mark: StatsMark::Baseline, gained: 0, lost: 5 });
    ask(steps, Act::Stats, Want::SameTables(StatsMark::Baseline));
    ask(steps, Act::Metadata, Want::Kept(Mark::Metadata));
    ask(steps, Act::AnswerScheduler(Who::First), Want::Refused);
    ask(steps, Act::TakeUpAgain(Who::First), Want::Refused);
    ask(steps, Act::Resume { who: Who::First, how: Resumed::Timeslice, millis: 50 }, Want::Refused);
    ask(steps, Act::Word(FIRST_STACK), Want::Refused);
    ask(steps, Act::Word(FIRST_TLS), Want::Refused);
    ask(steps, Act::Word(STARTUP_PAGE), Want::Refused);
    ask(steps, Act::Word(FIRST_TX), Want::Refused);
    ask(steps, Act::Word(FIRST_RX), Want::Refused);
    ask(steps, Act::TakeSpare, Want::Reborn(PairMark::First));
    ask(steps, Act::FinishExit(Who::First), Want::Done);
    assert(steps@ =~= before + retirement_done());
}

/// The call that the sibling made before is answered.
pub open spec fn retirement_sibling() -> Seq<Step> {
    seq![
        once(Act::Dispatch(Who::Second), Want::Done),
        once(Act::Execute(Who::Second), Want::Progress(Progress::Complete)),
        once(Act::Reply(Who::Second), Want::Done),
        once(Act::TailIsClear { tx: SECOND_TX, from: 32 }, Want::Flag(true)),
        once(Act::Yield(Who::Second), Want::Done),
    ]
}

fn ask_retirement_sibling(steps: &mut Vec<Step>)
    ensures
        final(steps)@ == old(steps)@ + retirement_sibling(),
{
    let ghost before = steps@;
    ask(steps, Act::Dispatch(Who::Second), Want::Done);
    ask(steps, Act::Execute(Who::Second), Want::Progress(Progress::Complete));
    ask(steps, Act::Reply(Who::Second), Want::Done);
    ask(steps, Act::TailIsClear { tx: SECOND_TX, from: 32 }, Want::Flag(true));
    ask(steps, Act::Yield(Who::Second), Want::Done);
    assert(steps@ =~= before + retirement_sibling());
}

/// The sibling joins the worker: it waits until the worker's frames are free
/// and its record says so, and learns the exit status.
pub open spec fn retirement_join() -> Seq<Step> {
    seq![
        once(Act::Execute(Who::Second), Want::Progress(Progress::Waiting)),
        once(Act::WaitIsOver(Who::Second), Want::Flag(false)),
        once(Act::FreeFrames, Want::Keep(Mark::FreeNow)),
        once(Act::FreeThreadFrames(Who::First), Want::Done),
        once(Act::FreeFrames, Want::KeptPlus(Mark::FreeNow, 3)),
        once(Act::Release(Who::First), Want::Number(5)),
        once(Act::WaitIsOver(Who::Second), Want::Flag(true)),
        once(Act::Reap(Who::First), Want::Done),
        once(Act::Dispatch(Who::Second), Want::Done),
        once(Act::EndWait(Who::Second), Want::Number(LARGEST)),
        once(Act::Reply(Who::Second), Want::Done),
        once(Act::TailIsClear { tx: SECOND_TX, from: 32 }, Want::Flag(true)),
    ]
}

fn ask_retirement_join(steps: &mut Vec<Step>)
    ensures
        final(steps)@ == old(steps)@ + retirement_join(),
{
    let ghost before = steps@;
    ask(steps, Act::Execute(Who::Second), Want::Progress(Progress::Waiting));
    ask(steps, Act::WaitIsOver(Who::Second), Want::Flag(false));
    ask(steps, Act::FreeFrames, Want::Keep(Mark::FreeNow));
    ask(steps, Act::FreeThreadFrames(Who::First), Want::Done);
    ask(steps, Act::FreeFrames, Want::KeptPlus(Mark::FreeNow, 3));
    ask(steps, Act::Release(Who::First), Want::Number(5));
    ask(steps, Act::WaitIsOver(Who::Second), Want::Flag(true));
    ask(steps, Act::Reap(Who::First), Want::Done);
    ask(steps, Act::Dispatch(Who::Second), Want::Done);
    ask(steps, Act::EndWait(Who::Second), Want::Number(LARGEST));
    ask(steps, Act::Reply(Who::Second), Want::Done);
    ask(steps, Act::TailIsClear { tx: SECOND_TX, from: 32 }, Want::Flag(true));
    assert(steps@ =~= before + retirement_join());
}

/// The sibling touches a page of the worker and stops like this.
pub open spec fn retirement_touch(stop: Stop) -> Seq<Step> {
    seq![
        within(Act::Resume { who: Who::Second, how: Resumed::Timeslice, millis: 50 }, Want::Stop(stop), 128),
        once(Act::Word(SECOND_COUNTER), Want::Number(2)),
    ]
}

fn ask_retirement_touch(steps: &mut Vec<Step>, stop: Stop)
    ensures
        final(steps)@ == old(steps)@ + retirement_touch(stop),
{
    let ghost before = steps@;
    ask_within(steps, Act::Resume { who: Who::Second, how: Resumed::Timeslice, millis: 50 }, Want::Stop(stop), 128);
    ask(steps, Act::Word(SECOND_COUNTER), Want::Number(2));
    assert(steps@ =~= before + retirement_touch(stop));
}

/// The pair that came again was not written.
pub open spec fn retirement_spare() -> Seq<Step> {
    seq![
        once(Act::SpareIsClear, Want::Flag(true)),
        once(Act::DropSpare, Want::Done),
    ]
}

fn ask_retirement_spare(steps: &mut Vec<Step>)
    ensures
        final(steps)@ == old(steps)@ + retirement_spare(),
{
    let ghost before = steps@;
    ask(steps, Act::SpareIsClear, Want::Flag(true));
    ask(steps, Act::DropSpare, Want::Done);
    assert(steps@ =~= before + retirement_spare());
}

/// The process ends, and leaves its pairs cleared.
pub open spec fn retirement_end() -> Seq<Step> {
    seq![
        once(Act::StopSync, Want::Done),
        once(Act::StopContext, Want::Done),
        once(Act::DropContext, Want::Done),
        once(Act::PairsAreClear, Want::Flag(true)),
        once(Act::StopSync, Want::Done),
        once(Act::WithdrawRight, Want::Done),
    ]
}

fn ask_retirement_end(steps: &mut Vec<Step>)
    ensures
        final(steps)@ == old(steps)@ + retirement_end(),
{
    let ghost before = steps@;
    ask(steps, Act::StopSync, Want::Done);
    ask(steps, Act::StopContext, Want::Done);
    ask(steps, Act::DropContext, Want::Done);
    ask(steps, Act::PairsAreClear, Want::Flag(true));
    ask(steps, Act::StopSync, Want::Done);
    ask(steps, Act::WithdrawRight, Want::Done);
    assert(steps@ =~= before + retirement_end());
}

/// What is given back, whatever was seen: the context before its frames.
pub open spec fn retirement_giving_back() -> Seq<Act> {
    seq![Act::DropContext, Act::FreeSpareFrames, Act::ReclaimAll]
}

fn list_retirement_giving_back() -> (acts: Vec<Act>)
    ensures
        acts@ == retirement_giving_back(),
{
    let mut acts: Vec<Act> = Vec::new();
    acts.push(Act::DropContext);
    acts.push(Act::FreeSpareFrames);
    acts.push(Act::ReclaimAll);
    assert(acts@ =~= retirement_giving_back());
    acts
}

/// A remaining thread is released and removed.
pub open spec fn release_thread(who: Who) -> Seq<Step> {
    seq![
        once(Act::Release(who), Want::AnyNumber),
        once(Act::Reap(who), Want::Done),
    ]
}

fn ask_release_thread(steps: &mut Vec<Step>, who: Who)
    ensures
        final(steps)@ == old(steps)@ + release_thread(who),
{
    let ghost before = steps@;
    ask(steps, Act::Release(who), Want::AnyNumber);
    ask(steps, Act::Reap(who), Want::Done);
    assert(steps@ =~= before + release_thread(who));
}

/// Nothing is missing.
pub open spec fn retirement_confirming() -> Seq<Step> {
    seq![
        once(Act::SyncUsage, Want::Numbers(0, 0)),
        once(Act::RemoveProcess(Holder::Own), Want::Done),
        once(Act::CommittedPages, Want::Number(0)),
        once(Act::FreeFrames, Want::Kept(Mark::Free)),
    ]
}

fn ask_retirement_confirming(steps: &mut Vec<Step>)
    ensures
        final(steps)@ == old(steps)@ + retirement_confirming(),
{
    let ghost before = steps@;
    ask(steps, Act::SyncUsage, Want::Numbers(0, 0));
    ask(steps, Act::RemoveProcess(Holder::Own), Want::Done);
    ask(steps, Act::CommittedPages, Want::Number(0));
    ask(steps, Act::FreeFrames, Want::Kept(Mark::Free));
    assert(steps@ =~= before + retirement_confirming());
}

/// A thread that was not revoked is not discarded.
pub open spec fn abort_too_early() -> Seq<Step> {
    seq![
        once(Act::Discard { who: Who::First, backing: Backing::Right }, Want::Refused),
        once(Act::IsStopped, Want::Flag(false)),
        once(Act::Stats, Want::SameStats(StatsMark::Baseline)),
    ]
}

fn ask_abort_too_early(steps: &mut Vec<Step>)
    ensures
        final(steps)@ == old(steps)@ + abort_too_early(),
{
    let ghost before = steps@;
    ask(steps, Act::Discard { who: Who::First, backing: Backing::Right }, Want::Refused);
    ask(steps, Act::IsStopped, Want::Flag(false));
    ask(steps, Act::Stats, Want::SameStats(StatsMark::Baseline));
    assert(steps@ =~= before + abort_too_early());
}

/// The caller first asks for its own name.
pub open spec fn abort_current() -> Seq<Step> {
    seq![
        once(Act::Execute(Who::Second), Want::Progress(Progress::Complete)),
        once(Act::Reply(Who::Second), Want::Done),
        once(Act::Yield(Who::Second), Want::Done),
    ]
}

fn ask_abort_current(steps: &mut Vec<Step>)
    ensures
        final(steps)@ == old(steps)@ + abort_current(),
{
    let ghost before = steps@;
    ask(steps, Act::Execute(Who::Second), Want::Progress(Progress::Complete));
    ask(steps, Act::Reply(Who::Second), Want::Done);
    ask(steps, Act::Yield(Who::Second), Want::Done);
    assert(steps@ =~= before + abort_current());
}

/// A worker that was started before cannot be revoked.
pub open spec fn abort_started() -> Seq<Step> {
    seq![
        once(Act::Execute(Who::Second), Want::Progress(Progress::Complete)),
        once(Act::IsInvalidState(Who::Second), Want::Flag(true)),
        once(Act::Discard { who: Who::First, backing: Backing::Right }, Want::Refused),
        once(Act::Stats, Want::SameStats(StatsMark::Baseline)),
        once(Act::IsStopped, Want::Flag(false)),
    ]
}

fn ask_abort_started(steps: &mut Vec<Step>)
    ensures
        final(steps)@ == old(steps)@ + abort_started(),
{
    let ghost before = steps@;
    ask(steps, Act::Execute(Who::Second), Want::Progress(Progress::Complete));
    ask(steps, Act::IsInvalidState(Who::Second), Want::Flag(true));
    ask(steps, Act::Discard { who: Who::First, backing: Backing::Right }, Want::Refused);
    ask(steps, Act::Stats, Want::SameStats(StatsMark::Baseline));
    ask(steps, Act::IsStopped, Want::Flag(false));
    assert(steps@ =~= before + abort_started());
}

/// The worker is revoked, which ends only after its memory is gone.
pub open spec fn abort_revoked() -> Seq<Step> {
    seq![
        once(Act::Execute(Who::Second), Want::Progress(Progress::Aborting)),
        once(Act::Corresponds(Who::Second), Want::Flag(true)),
        once(Act::RevokesThread(Who::First), Want::Flag(true)),
        once(Act::FinishRevocation(Who::Second), Want::RefusedFor(Refusal::Busy)),
    ]
}

fn ask_abort_revoked(steps: &mut Vec<Step>)
    ensures
        final(steps)@ == old(steps)@ + abort_revoked(),
{
    let ghost before = steps@;
    ask(steps, Act::Execute(Who::Second), Want::Progress(Progress::Aborting));
    ask(steps, Act::Corresponds(Who::Second), Want::Flag(true));
    ask(steps, Act::RevokesThread(Who::First), Want::Flag(true));
    ask(steps, Act::FinishRevocation(Who::Second), Want::RefusedFor(Refusal::Busy));
    assert(steps@ =~= before + abort_revoked());
}

/// Memory that something else still refers to is not taken away; the stopped
/// process answers nothing.
pub open spec fn abort_shared() -> Seq<Step> {
    seq![
        once(Act::Discard { who: Who::First, backing: Backing::Right }, Want::Refused),
        once(Act::IsStopped, Want::Flag(false)),
        once(Act::Stats, Want::SameStats(StatsMark::Baseline)),
        once(Act::Word(FIRST_TLS), Want::AnyNumber),
        once(Act::StopContext, Want::Done),
        once(Act::StopSync, Want::Done),
        once(Act::ReplySuccess(Who::Second), Want::Refused),
        once(Act::FinishRevocation(Who::Second), Want::Refused),
    ]
}

fn ask_abort_shared(steps: &mut Vec<Step>)
    ensures
        final(steps)@ == old(steps)@ + abort_shared(),
{
    let ghost before = steps@;
    ask(steps, Act::Discard { who: Who::First, backing: Backing::Right }, Want::Refused);
    ask(steps, Act::IsStopped, Want::Flag(false));
    ask(steps, Act::Stats, Want::SameStats(StatsMark::Baseline));
    ask(steps, Act::Word(FIRST_TLS), Want::AnyNumber);
    ask(steps, Act::StopContext, Want::Done);
    ask(steps, Act::StopSync, Want::Done);
    ask(steps, Act::ReplySuccess(Who::Second), Want::Refused);
    ask(steps, Act::FinishRevocation(Who::Second), Want::Refused);
    assert(steps@ =~= before + abort_shared());
}

/// The worker's five pages are gone, once, and its pair is free again; the
/// revocation still waits for its frames.
pub open spec fn abort_discarded() -> Seq<Step> {
    seq![
        once(Act::Discard { who: Who::First, backing: Backing::Swapped }, Want::Refused),
        once(Act::IsStopped, Want::Flag(false)),
        once(Act::Stats, Want::SameStats(StatsMark::Baseline)),
        once(Act::Discard { who: Who::First, backing: Backing::Right }, Want::Receipt { who: Who::First, pages: 3 }),
        once(Act::Stats, Want::Mapped { mark: StatsMark::Baseline, gained: 0, lost: 5 }),
        once(Act::Stats, Want::SameTables(StatsMark::Baseline)),
        once(Act::Metadata, Want::Kept(Mark::Metadata)),
        once(Act::Discard { who: Who::First, backing: Backing::Right }, Want::Refused),
        once(Act::Resume { who: Who::First, how: Resumed::Timeslice, millis: 50 }, Want::Refused),
        once(Act::Word(FIRST_STACK), Want::Refused),
        once(Act::Word(FIRST_TLS), Want::Refused),
        once(Act::Word(STARTUP_PAGE), Want::Refused),
        once(Act::Word(FIRST_TX), Want::Refused),
        once(Act::Word(FIRST_RX), Want::Refused),
        once(Act::TakeSpare, Want::Reborn(PairMark::First)),
        once(Act::FinishRevocation(Who::Second), Want::RefusedFor(Refusal::Busy)),
    ]
}

fn ask_abort_discarded(steps: &mut Vec<Step>)
    ensures
        final(steps)@ == old(steps)@ + abort_discarded(),
{
    let ghost before = steps@;
    ask(steps, Act::Discard { who: Who::First, backing: Backing::Swapped }, Want::Refused);
    ask(steps, Act::IsStopped, Want::Flag(false));
    ask(steps, Act::Stats, Want::SameStats(StatsMark::Baseline));
    ask(steps, Act::Discard { who: Who::First, backing: Backing::Right }, Want::Receipt { who: Who::First, pages: 3 });
    ask(steps, Act::Stats, Want::Mapped { mark: StatsMark::Baseline, gained: 0, lost: 5 });
    ask(steps, Act::Stats, Want::SameTables(StatsMark::Baseline));
    ask(steps, Act::Metadata, Want::Kept(Mark::Metadata));
    ask(steps, Act::Discard { who: Who::First, backing: Backing::Right }, Want::Refused);
    ask(steps, Act::Resume { who: Who::First, how: Resumed::Timeslice, millis: 50 }, Want::Refused);
    ask(steps, Act::Word(FIRST_STACK), Want::Refused);
    ask(steps, Act::Word(FIRST_TLS), Want::Refused);
    ask(steps, Act::Word(STARTUP_PAGE), Want::Refused);
    ask(steps, Act::Word(FIRST_TX), Want::Refused);
    ask(steps, Act::Word(FIRST_RX), Want::Refused);
    ask(steps, Act::TakeSpare, Want::Reborn(PairMark::First));
    ask(steps, Act::FinishRevocation(Who::Second), Want::RefusedFor(Refusal::Busy));
    assert(steps@ =~= before + abort_discarded());
}

/// With its frames free the worker is forgotten.
pub open spec fn abort_finished() -> Seq<Step> {
    seq![
        once(Act::FreeFrames, Want::Keep(Mark::FreeNow)),
        once(Act::FreeThreadFrames(Who::First), Want::Done),
        once(Act::FreeFrames, Want::KeptPlus(Mark::FreeNow, 3)),
        once(Act::Release(Who::First), Want::Number(5)),
        once(Act::FinishRevocation(Who::Second), Want::Done),
        once(Act::Resolve(Who::First), Want::Refused),
    ]
}

fn ask_abort_finished(steps: &mut Vec<Step>)
    ensures
        final(steps)@ == old(steps)@ + abort_finished(),
{
    let ghost before = steps@;
    ask(steps, Act::FreeFrames, Want::Keep(Mark::FreeNow));
    ask(steps, Act::FreeThreadFrames(Who::First), Want::Done);
    ask(steps, Act::FreeFrames, Want::KeptPlus(Mark::FreeNow, 3));
    ask(steps, Act::Release(Who::First), Want::Number(5));
    ask(steps, Act::FinishRevocation(Who::Second), Want::Done);
    ask(steps, Act::Resolve(Who::First), Want::Refused);
    assert(steps@ =~= before + abort_finished());
}

/// The caller is answered, once.
pub open spec fn abort_reply() -> Seq<Step> {
    seq![
        once(Act::TakeUpAgain(Who::Second), Want::Refused),
        once(Act::AnswerScheduler(Who::Second), Want::Refused),
        once(Act::Reply(Who::Second), Want::Done),
        once(Act::TailIsClear { tx: SECOND_TX, from: 32 }, Want::Flag(true)),
    ]
}

fn ask_abort_reply(steps: &mut Vec<Step>)
    ensures
        final(steps)@ == old(steps)@ + abort_reply(),
{
    let ghost before = steps@;
    ask(steps, Act::TakeUpAgain(Who::Second), Want::Refused);
    ask(steps, Act::AnswerScheduler(Who::Second), Want::Refused);
    ask(steps, Act::Reply(Who::Second), Want::Done);
    ask(steps, Act::TailIsClear { tx: SECOND_TX, from: 32 }, Want::Flag(true));
    assert(steps@ =~= before + abort_reply());
}

/// The process ends, and leaves its pairs cleared.
pub open spec fn abort_end() -> Seq<Step> {
    seq![
        once(Act::StopContext, Want::Done),
        once(Act::StopSync, Want::Done),
        once(Act::DropContext, Want::Done),
        once(Act::PairsAreClear, Want::Flag(true)),
        once(Act::StopSync, Want::Done),
        once(Act::WithdrawRight, Want::Done),
    ]
}

fn ask_abort_end(steps: &mut Vec<Step>)
    ensures
        final(steps)@ == old(steps)@ + abort_end(),
{
    let ghost before = steps@;
    ask(steps, Act::StopContext, Want::Done);
    ask(steps, Act::StopSync, Want::Done);
    ask(steps, Act::DropContext, Want::Done);
    ask(steps, Act::PairsAreClear, Want::Flag(true));
    ask(steps, Act::StopSync, Want::Done);
    ask(steps, Act::WithdrawRight, Want::Done);
    assert(steps@ =~= before + abort_end());
}

/// A page of the worker that the sibling touches in the end.
#[derive(Clone, Copy, Debug, PartialEq, Eq, Structural)]
pub enum WorkerPage {
    /// Its stack.
    Stack,
    /// Its thread-local storage.
    Tls,
    /// Its transmit page.
    Tx,
    /// Its receive page.
    Rx,
    /// Its startup page.
    Startup,
}

/// What a probe of retirement is about.
#[derive(Clone, Copy, Debug, PartialEq, Eq, Structural)]
pub enum RetirementCase {
    /// The worker exits, and the sibling touches a page of it.
    Exit(WorkerPage),
    /// The worker's thread-local page is mapped twice.
    Alias,
    /// The sibling's startup argument lies in the worker's memory.
    Reference,
    /// The retirement fails in the middle.
    Partial,
    /// The worker holds a mutex that its process cannot lose.
    Essential,
    /// The worker is revoked, and the sibling touches a page of it.
    Abort(WorkerPage),
    /// A worker whose thread-local page is mapped twice is revoked.
    AbortAlias,
    /// A worker whose memory holds the sibling's startup argument is revoked.
    AbortReference,
    /// A worker that was started is to be revoked.
    StartWins,
}

/// Whether the worker is to be revoked.
pub open spec fn revokes(case: RetirementCase) -> bool {
    case is Abort || case is AbortAlias || case is AbortReference || case is StartWins
}

/// Whether the sibling's startup argument lies in the worker's memory.
pub open spec fn refers(case: RetirementCase) -> bool {
    case is Reference || case is AbortReference
}

impl RetirementCase {
    /// Whether the worker is to be revoked.
    pub fn is_revocation(self) -> (yes: bool)
        ensures
            yes == revokes(self),
    {
        matches!(
            self,
            RetirementCase::Abort(_) | RetirementCase::AbortAlias | RetirementCase::AbortReference
            | RetirementCase::StartWins
        )
    }

    /// Address of the page that the sibling touches in the end.
    pub fn touched(self) -> (address: u64)
        ensures
            address == touched_page(self),
    {
        match self {
            RetirementCase::Exit(page) | RetirementCase::Abort(page) => match page {
                WorkerPage::Stack => FIRST_STACK,
                WorkerPage::Tls => FIRST_TLS,
                WorkerPage::Tx => FIRST_TX,
                WorkerPage::Rx => FIRST_RX,
                WorkerPage::Startup => STARTUP_PAGE,
            },
            _ => STARTUP_PAGE,
        }
    }
}

/// The page that the sibling touches in the end.
pub open spec fn touched_page(case: RetirementCase) -> u64 {
    match case {
        RetirementCase::Exit(page) | RetirementCase::Abort(page) => match page {
            WorkerPage::Stack => FIRST_STACK,
            WorkerPage::Tls => FIRST_TLS,
            WorkerPage::Tx => FIRST_TX,
            WorkerPage::Rx => FIRST_RX,
            WorkerPage::Startup => STARTUP_PAGE,
        },
        _ => STARTUP_PAGE,
    }
}

/// The cases in order.
pub open spec fn all_retirement_cases() -> Seq<RetirementCase> {
    seq![
        RetirementCase::Exit(WorkerPage::Stack),
        RetirementCase::Exit(WorkerPage::Tls),
        RetirementCase::Exit(WorkerPage::Tx),
        RetirementCase::Exit(WorkerPage::Rx),
        RetirementCase::Exit(WorkerPage::Startup),
        RetirementCase::Alias,
        RetirementCase::Reference,
        RetirementCase::Partial,
        RetirementCase::Essential,
        RetirementCase::Abort(WorkerPage::Stack),
        RetirementCase::Abort(WorkerPage::Tls),
        RetirementCase::Abort(WorkerPage::Startup),
        RetirementCase::Abort(WorkerPage::Tx),
        RetirementCase::Abort(WorkerPage::Rx),
        RetirementCase::AbortAlias,
        RetirementCase::AbortReference,
        RetirementCase::StartWins,
    ]
}

/// List the cases in order.
pub fn retirement_cases() -> (cases: Vec<RetirementCase>)
    ensures
        cases@ == all_retirement_cases(),
{
    let mut cases: Vec<RetirementCase> = Vec::new();
    cases.push(RetirementCase::Exit(WorkerPage::Stack));
    cases.push(RetirementCase::Exit(WorkerPage::Tls));
    cases.push(RetirementCase::Exit(WorkerPage::Tx));
    cases.push(RetirementCase::Exit(WorkerPage::Rx));
    cases.push(RetirementCase::Exit(WorkerPage::Startup));
    cases.push(RetirementCase::Alias);
    cases.push(RetirementCase::Reference);
    cases.push(RetirementCase::Partial);
    cases.push(RetirementCase::Essential);
    cases.push(RetirementCase::Abort(WorkerPage::Stack));
    cases.push(RetirementCase::Abort(WorkerPage::Tls));
    cases.push(RetirementCase::Abort(WorkerPage::Startup));
    cases.push(RetirementCase::Abort(WorkerPage::Tx));
    cases.push(RetirementCase::Abort(WorkerPage::Rx));
    cases.push(RetirementCase::AbortAlias);
    cases.push(RetirementCase::AbortReference);
    cases.push(RetirementCase::StartWins);
    assert(cases@ =~= all_retirement_cases());
    cases
}

/// Each page of the worker is touched in some case after it exited and in
/// some case after it was revoked.
pub proof fn every_page_is_touched(page: WorkerPage)
    ensures
        all_retirement_cases().contains(RetirementCase::Exit(page)),
        all_retirement_cases().contains(RetirementCase::Abort(page)),
{
    let cases = all_retirement_cases();
    match page {
        WorkerPage::Stack => {
            assert(cases[0] == RetirementCase::Exit(page));
            assert(cases[9] == RetirementCase::Abort(page));
        },
        WorkerPage::Tls => {
            assert(cases[1] == RetirementCase::Exit(page));
            assert(cases[10] == RetirementCase::Abort(page));
        },
        WorkerPage::Tx => {
            assert(cases[2] == RetirementCase::Exit(page));
            assert(cases[12] == RetirementCase::Abort(page));
        },
        WorkerPage::Rx => {
            assert(cases[3] == RetirementCase::Exit(page));
            assert(cases[13] == RetirementCase::Abort(page));
        },
        WorkerPage::Startup => {
            assert(cases[4] == RetirementCase::Exit(page));
            assert(cases[11] == RetirementCase::Abort(page));
        },
    }
}

/// Where the worker starts: with a startup page of its own.
pub open spec fn worker_start() -> ThreadStart {
    ThreadStart {
        startup: STARTUP_PAGE,
        private_startup: Some(STARTUP_PAGE),
        ..start(false)
    }
}

/// Where the sibling starts.
pub open spec fn sibling_start(case: RetirementCase) -> ThreadStart {
    if refers(case) {
        ThreadStart { startup: FIRST_TLS, ..start(true) }
    } else {
        start(true)
    }
}

/// The steps until both threads are prepared.
pub open spec fn retirement_beginning(case: RetirementCase) -> Seq<Step> {
    let policy = Seq::<Step>::empty() + retirement_set_up() + retirement_policy(revokes(case));
    if revokes(case) && !(case is StartWins) {
        policy + retirement_context(worker_start(), sibling_start(case))
    } else {
        policy + retirement_ready() + retirement_context(worker_start(), sibling_start(case))
    }
}

/// The steps from the sibling's first call until the worker's exit is known.
pub open spec fn retirement_exiting(essential: bool) -> Seq<Step> {
    let exit = Seq::<Step>::empty() + retirement_capture(Who::Second) + retirement_wrong()
        + retirement_capture(Who::First) + retirement_exit();
    if essential {
        exit + retirement_essential_lock() + retirement_effect(true)
    } else {
        exit + retirement_effect(false)
    }
}

/// The steps until the caller's request to revoke the worker is held.
pub open spec fn abort_asking() -> Seq<Step> {
    Seq::<Step>::empty() + abort_too_early() + retirement_capture(Who::Second) + abort_current()
        + retirement_capture(Who::Second)
}

/// The steps of a case.
pub open spec fn retirement_steps(case: RetirementCase) -> Seq<Step> {
    let begin = retirement_beginning(case);
    match case {
        RetirementCase::Exit(_) => begin + retirement_exiting(false) + retirement_done()
            + retirement_sibling() + retirement_capture(Who::Second) + retirement_join()
            + retirement_touch(Stop::Faulted(Fault::Translation)) + retirement_spare()
            + retirement_end(),
        RetirementCase::Alias | RetirementCase::Reference => begin + retirement_exiting(false)
            + retirement_shared() + retirement_stopped(),
        RetirementCase::Partial => begin + retirement_exiting(false) + retirement_cut_short()
            + retirement_stopped(),
        RetirementCase::Essential => begin + retirement_exiting(true) + retirement_essential()
            + retirement_stopped(),
        RetirementCase::Abort(_) => begin + abort_asking() + abort_revoked() + abort_discarded()
            + abort_finished() + abort_reply() + retirement_touch(
            Stop::Faulted(Fault::Translation),
        ) + retirement_spare() + abort_end(),
        RetirementCase::AbortAlias | RetirementCase::AbortReference => begin + abort_asking()
            + abort_revoked() + abort_shared() + abort_end(),
        RetirementCase::StartWins => begin + abort_asking() + abort_started() + abort_reply()
            + retirement_touch(Stop::Exited(1)) + abort_end(),
    }
}

/// What is confirmed: the threads that are still recorded are released first.
pub open spec fn retirement_last(case: RetirementCase) -> Seq<Step> {
    let none = Seq::<Step>::empty();
    match case {
        RetirementCase::Exit(_) | RetirementCase::Abort(_) => none + release_thread(Who::Second)
            + retirement_confirming(),
        _ => none + release_thread(Who::First) + release_thread(Who::Second)
            + retirement_confirming(),
    }
}

fn ask_retirement_beginning(steps: &mut Vec<Step>, case: RetirementCase)
    requires
        old(steps)@ == Seq::<Step>::empty(),
    ensures
        final(steps)@ == retirement_beginning(case),
{
    let abort = case.is_revocation();
    let first = ThreadStart {
        startup: STARTUP_PAGE,
        private_startup: Some(STARTUP_PAGE),
        ..thread_start(false)
    };
    let usual = thread_start(true);
    let second = match case {
        RetirementCase::Reference | RetirementCase::AbortReference => ThreadStart {
            startup: FIRST_TLS,
            ..usual
        },
        _ => usual,
    };
    ask_retirement_set_up(steps);
    ask_retirement_policy(steps, abort);
    if !abort || matches!(case, RetirementCase::StartWins) {
        ask_retirement_ready(steps);
    }
    ask_retirement_context(steps, first, second);
}

fn ask_retirement_exiting(steps: &mut Vec<Step>, essential: bool)
    ensures
        final(steps)@ == old(steps)@ + retirement_exiting(essential),
{
    let mut part: Vec<Step> = Vec::new();
    ask_retirement_capture(&mut part, Who::Second);
    ask_retirement_wrong(&mut part);
    ask_retirement_capture(&mut part, Who::First);
    ask_retirement_exit(&mut part);
    if essential {
        ask_retirement_essential_lock(&mut part);
    }
    ask_retirement_effect(&mut part, essential);
    append_steps(steps, &part);
}

fn ask_abort_asking(steps: &mut Vec<Step>)
    ensures
        final(steps)@ == old(steps)@ + abort_asking(),
{
    let mut part: Vec<Step> = Vec::new();
    ask_abort_too_early(&mut part);
    ask_retirement_capture(&mut part, Who::Second);
    ask_abort_current(&mut part);
    ask_retirement_capture(&mut part, Who::Second);
    append_steps(steps, &part);
}

fn list_retirement_steps(case: RetirementCase) -> (steps: Vec<Step>)
    ensures
        steps@ == retirement_steps(case),
{
    let mut steps: Vec<Step> = Vec::new();
    ask_retirement_beginning(&mut steps, case);
    match case {
        RetirementCase::Exit(_) => {
            ask_retirement_exiting(&mut steps, false);
            ask_retirement_done(&mut steps);
            ask_retirement_sibling(&mut steps);
            ask_retirement_capture(&mut steps, Who::Second);
            ask_retirement_join(&mut steps);
            ask_retirement_touch(&mut steps, Stop::Faulted(Fault::Translation));
            ask_retirement_spare(&mut steps);
            ask_retirement_end(&mut steps);
        },
        RetirementCase::Alias | RetirementCase::Reference => {
            ask_retirement_exiting(&mut steps, false);
            ask_retirement_shared(&mut steps);
            ask_retirement_stopped(&mut steps);
        },
        RetirementCase::Partial => {
            ask_retirement_exiting(&mut steps, false);
            ask_retirement_cut_short(&mut steps);
            ask_retirement_stopped(&mut steps);
        },
        RetirementCase::Essential => {
            ask_retirement_exiting(&mut steps, true);
            ask_retirement_essential(&mut steps);
            ask_retirement_stopped(&mut steps);
        },
        RetirementCase::Abort(_) => {
            ask_abort_asking(&mut steps);
            ask_abort_revoked(&mut steps);
            ask_abort_discarded(&mut steps);
            ask_abort_finished(&mut steps);
            ask_abort_reply(&mut steps);
            ask_retirement_touch(&mut steps, Stop::Faulted(Fault::Translation));
            ask_retirement_spare(&mut steps);
            ask_abort_end(&mut steps);
        },
        RetirementCase::AbortAlias | RetirementCase::AbortReference => {
            ask_abort_asking(&mut steps);
            ask_abort_revoked(&mut steps);
            ask_abort_shared(&mut steps);
            ask_abort_end(&mut steps);
        },
        RetirementCase::StartWins => {
            ask_abort_asking(&mut steps);
            ask_abort_started(&mut steps);
            ask_abort_reply(&mut steps);
            ask_retirement_touch(&mut steps, Stop::Exited(1));
            ask_abort_end(&mut steps);
        },
    }
    steps
}

/// The probe of retirement: a thread that exited or was revoked leaves
/// nothing mapped, its frames are free before anybody learns that it is gone,
/// and its sibling is not disturbed.
pub fn retirement_probe(case: RetirementCase) -> (agenda: Agenda)
    ensures
        agenda@ == (AgendaView {
            steps: retirement_steps(case),
            closing: retirement_giving_back(),
            confirming: retirement_last(case),
        }),
{
    let steps = list_retirement_steps(case);
    let mut last: Vec<Step> = Vec::new();
    match case {
        RetirementCase::Exit(_) | RetirementCase::Abort(_) => {},
        _ => {
            ask_release_thread(&mut last, Who::First);
        },
    }
    ask_release_thread(&mut last, Who::Second);
    ask_retirement_confirming(&mut last);
    Agenda { steps, closing: list_retirement_giving_back(), confirming: last }
}

/// Whether some step of a list asks this.
pub open spec fn asks(steps: Seq<Step>, act: Act) -> bool {
    exists|i: int| 0 <= i < steps.len() && (#[trigger] steps[i]).act == act
}

/// A join is over, and a revocation ends, only after the frames of the thread
/// are free and its record says so.
pub proof fn nobody_learns_too_early(j: int)
    ensures
        0 <= j < retirement_join().len() && retirement_join()[j] == once(
            Act::WaitIsOver(Who::Second),
            Want::Flag(true),
        ) ==> asks(retirement_join().take(j), Act::FreeThreadFrames(Who::First)) && asks(
            retirement_join().take(j),
            Act::Release(Who::First),
        ),
        0 <= j < abort_finished().len() && abort_finished()[j] == once(
            Act::FinishRevocation(Who::Second),
            Want::Done,
        ) ==> asks(abort_finished().take(j), Act::FreeThreadFrames(Who::First)) && asks(
            abort_finished().take(j),
            Act::Release(Who::First),
        ),
{
    let join = retirement_join();
    if 0 <= j < join.len() && join[j] == once(Act::WaitIsOver(Who::Second), Want::Flag(true)) {
        assert(j == 6);
        assert(join.take(j)[3].act == Act::FreeThreadFrames(Who::First));
        assert(join.take(j)[5].act == Act::Release(Who::First));
    }
    let finished = abort_finished();
    if 0 <= j < finished.len() && finished[j] == once(
        Act::FinishRevocation(Who::Second),
        Want::Done,
    ) {
        assert(j == 4);
        assert(finished.take(j)[1].act == Act::FreeThreadFrames(Who::First));
        assert(finished.take(j)[3].act == Act::Release(Who::First));
    }
}

/// A mapping of the threads with the worker's own frames behind its stack and
/// its thread-local page.
pub open spec fn retargeted(mapping: PlannedMapping, worker: PageRange) -> PlannedMapping {
    let at = mapping.virtual_range.first() * 4096;
    let single = mapping.virtual_range.pages() == 1;
    if single && at == FIRST_STACK {
        user_mapping(FIRST_STACK, page_of(worker, 0), Permissions::ReadWrite)
    } else if single && at == FIRST_TLS {
        user_mapping(FIRST_TLS, page_of(worker, 1), Permissions::ReadWrite)
    } else {
        mapping
    }
}

/// The mappings that come on top: the worker's startup page, and in two cases
/// its thread-local page once more.
pub open spec fn worker_mappings(worker: PageRange, alias: bool) -> Seq<PlannedMapping> {
    let page = user_mapping(STARTUP_PAGE, page_of(worker, 2), Permissions::ReadOnly);
    if alias {
        seq![page, user_mapping(ALIAS_PAGE, page_of(worker, 1), Permissions::ReadWrite)]
    } else {
        seq![page]
    }
}

fn worker_page(worker: PageRange, index: u64) -> (page: PageRange)
    requires
        worker.well_formed(),
        index < worker.pages(),
    ensures
        page == page_of(worker, index as int),
        page.well_formed(),
        page.pages() == 1,
{
    let page = worker.part(index, 1);
    proof {
        PageRange::lemma_spanning(page);
    }
    page
}

fn retarget(mapping: PlannedMapping, worker: PageRange) -> (after: PlannedMapping)
    requires
        mapping.well_formed(),
        worker.well_formed(),
        worker.pages() == 3,
    ensures
        after == retargeted(mapping, worker),
        after.well_formed(),
        after.virtual_range.first() == mapping.virtual_range.first(),
        after.virtual_range.pages() == mapping.virtual_range.pages(),
{
    let at: u64 = mapping.virtual_range.start();
    let single = mapping.virtual_range.page_count() == 1;
    if single && at == FIRST_STACK {
        make_user_mapping(FIRST_STACK, worker_page(worker, 0), Permissions::ReadWrite)
    } else if single && at == FIRST_TLS {
        make_user_mapping(FIRST_TLS, worker_page(worker, 1), Permissions::ReadWrite)
    } else {
        mapping
    }
}

/// The mapping plan in which the worker has frames of its own, from the plan
/// of the two threads. Nothing comes back where that does not fit.
pub fn lay_out_worker(base: &MappingPlan, worker: PageRange, alias: bool) -> (plan: Option<
    MappingPlan,
>)
    requires
        base.well_formed(),
        worker.well_formed(),
        worker.pages() == 3,
    ensures
        ({
            let rest = base@.map_values(|mapping: PlannedMapping| retargeted(mapping, worker));
            let extra = worker_mappings(worker, alias);
            match plan {
                Some(p) => addable(rest, extra, base.capacity as int) && p@ == rest + extra
                    && p.capacity == base.capacity && p.well_formed(),
                None => !addable(rest, extra, base.capacity as int),
            }
        }),
{
    let ghost change = |mapping: PlannedMapping| retargeted(mapping, worker);
    let mut plan = MappingPlan::new(base.capacity);
    let mut i: usize = 0;
    while i < base.entries.len()
        invariant
            i <= base@.len(),
            base.well_formed(),
            worker.well_formed(),
            worker.pages() == 3,
            change == (|mapping: PlannedMapping| retargeted(mapping, worker)),
            plan.capacity == base.capacity,
            plan.well_formed(),
            plan@ =~= base@.take(i as int).map_values(change),
            forall|k: int|
                0 <= k < i ==> (#[trigger] plan@[k]).virtual_range.first()
                    == base@[k].virtual_range.first() && plan@[k].virtual_range.pages()
                    == base@[k].virtual_range.pages(),
        decreases base@.len() - i,
    {
        let after = retarget(base.entries[i], worker);
        proof {
            assert forall|k: int| 0 <= k < plan@.len() implies (
            #[trigger] plan@[k]).virtual_range.apart(after.virtual_range) by {
                assert(base@[k].virtual_range.apart(base@[i as int].virtual_range));
            }
        }
        let added = plan.insert(after);
        assert(added);
        i = i + 1;
    }
    assert(base@.take(base@.len() as int) =~= base@);
    let mut extra: Vec<PlannedMapping> = Vec::new();
    extra.push(make_user_mapping(STARTUP_PAGE, worker_page(worker, 2), Permissions::ReadOnly));
    if alias {
        extra.push(make_user_mapping(ALIAS_PAGE, worker_page(worker, 1), Permissions::ReadWrite));
    }
    assert(extra@ =~= worker_mappings(worker, alias));
    add_all(plan, &extra)
}

/// A case touches the page that it is named after, and the startup page where it
/// names none.
pub proof fn cases_touch_the_page_they_name(case: RetirementCase)
    ensures
        case == RetirementCase::Exit(WorkerPage::Stack) || case == RetirementCase::Abort(
            WorkerPage::Stack,
        ) ==> touched_page(case) == 0x4000_0001_0000,
        case == RetirementCase::Exit(WorkerPage::Tls) || case == RetirementCase::Abort(
            WorkerPage::Tls,
        ) ==> touched_page(case) == 0x4000_0001_6000,
        case == RetirementCase::Exit(WorkerPage::Tx) || case == RetirementCase::Abort(
            WorkerPage::Tx,
        ) ==> touched_page(case) == 0x4000_0001_c000,
        case == RetirementCase::Exit(WorkerPage::Rx) || case == RetirementCase::Abort(
            WorkerPage::Rx,
        ) ==> touched_page(case) == 0x4000_0001_d000,
        case == RetirementCase::Exit(WorkerPage::Startup) || case == RetirementCase::Abort(
            WorkerPage::Startup,
        ) ==> touched_page(case) == 0x4000_0002_2000,
        !(case is Exit) && !(case is Abort) ==> touched_page(case) == 0x4000_0002_2000,
        revokes(case) <==> case is Abort || case == RetirementCase::AbortAlias || case
            == RetirementCase::AbortReference || case == RetirementCase::StartWins,
        refers(case) <==> case == RetirementCase::Reference || case
            == RetirementCase::AbortReference,
{
}

/// The worker has a startup page of its own; its sibling refers to the worker's
/// storage only where the case is about that.
pub proof fn workers_have_their_own_startup(case: RetirementCase)
    ensures
        worker_start().startup == 0x4000_0002_2000,
        worker_start().private_startup == Some(0x4000_0002_2000u64),
        worker_start().stack == 0x4000_0001_0000 && worker_start().tls == 0x4000_0001_6000,
        refers(case) ==> sibling_start(case).startup == 0x4000_0001_6000,
        !refers(case) ==> sibling_start(case).startup == 0x4000_0000_1008,
        sibling_start(case).stack == 0x4000_0001_3000 && sibling_start(case).tls
            == 0x4000_0001_9000,
        sibling_start(case).private_startup is None,
{
}

/// Stack and storage of the worker lie in its own frames, all else where it was;
/// its startup page is read-only, and an alias shows its storage once more.
pub proof fn workers_lie_in_their_own_frames(
    mapping: PlannedMapping,
    worker: PageRange,
    alias: bool,
)
    requires
        worker.well_formed(),
        worker.pages() >= 3,
    ensures
        ({
            let moved = retargeted(mapping, worker);
            let at = 4096 * mapping.virtual_range.first();
            let single = mapping.virtual_range.pages() == 1;
            &&& single && at == 0x4000_0001_0000 ==> moved.physical.first() == worker.first()
                && moved.physical.pages() == 1 && moved.virtual_range.first() * 4096 == at
                && moved.permissions == Permissions::ReadWrite
            &&& single && at == 0x4000_0001_6000 ==> moved.physical.first() == worker.first() + 1
                && moved.physical.pages() == 1 && moved.virtual_range.first() * 4096 == at
                && moved.permissions == Permissions::ReadWrite
            &&& !single || (at != 0x4000_0001_0000 && at != 0x4000_0001_6000) ==> moved == mapping
        }),
        ({
            let mappings = worker_mappings(worker, alias);
            &&& mappings[0].physical.first() == worker.first() + 2
            &&& mappings[0].virtual_range.first() * 4096 == 0x4000_0002_2000
            &&& mappings[0].permissions == Permissions::ReadOnly
            &&& !alias ==> mappings.len() == 1
            &&& alias ==> mappings.len() == 2 && mappings[1].physical.first() == worker.first() + 1
                && mappings[1].virtual_range.first() * 4096 == 0x4000_0002_5000
                && mappings[1].permissions == Permissions::ReadWrite
        }),
{
    PageRange::lemma_spanning_parts(worker.first(), 1);
    PageRange::lemma_spanning_parts(worker.first() + 1, 1);
    PageRange::lemma_spanning_parts(worker.first() + 2, 1);
    PageRange::lemma_spanning_parts(0x4_0000_0010, 1);
    PageRange::lemma_spanning_parts(0x4_0000_0016, 1);
    PageRange::lemma_spanning_parts(0x4_0000_0022, 1);
    PageRange::lemma_spanning_parts(0x4_0000_0025, 1);
}

/// A thread that a case has not yet given back is released at its end.
pub proof fn remaining_threads_are_released(case: RetirementCase)
    ensures
        retirement_last(case) == (if case is Exit || case is Abort {
            release_thread(Who::Second) + retirement_confirming()
        } else {
            release_thread(Who::First) + release_thread(Who::Second) + retirement_confirming()
        }),
{
    assert(retirement_last(case) =~= (if case is Exit || case is Abort {
        release_thread(Who::Second) + retirement_confirming()
    } else {
        release_thread(Who::First) + release_thread(Who::Second) + retirement_confirming()
    }));
}

proof fn lemma_retirement_set_up_sensible()
    ensures
        all_sensible(retirement_set_up()),
{
    let steps = retirement_set_up();
    assert forall|i: int| 0 <= i < steps.len() implies sensible(#[trigger] steps[i]) by {}
}

proof fn lemma_retirement_policy_sensible(start: bool)
    ensures
        all_sensible(retirement_policy(start)),
{
    let steps = retirement_policy(start);
    assert forall|i: int| 0 <= i < steps.len() implies sensible(#[trigger] steps[i]) by {}
}

proof fn lemma_retirement_ready_sensible()
    ensures
        all_sensible(retirement_ready()),
{
    let steps = retirement_ready();
    assert forall|i: int| 0 <= i < steps.len() implies sensible(#[trigger] steps[i]) by {}
}

proof fn lemma_retirement_context_sensible(first: ThreadStart, second: ThreadStart)
    requires
        proper(first),
        proper(second),
    ensures
        all_sensible(retirement_context(first, second)),
{
    let steps = retirement_context(first, second);
    assert forall|i: int| 0 <= i < steps.len() implies sensible(#[trigger] steps[i]) by {}
}

proof fn lemma_retirement_capture_sensible(who: Who)
    requires
        who != Who::Foreign,
        who != Who::Former,
    ensures
        all_sensible(retirement_capture(who)),
{
    let steps = retirement_capture(who);
    assert forall|i: int| 0 <= i < steps.len() implies sensible(#[trigger] steps[i]) by {}
}

proof fn lemma_retirement_wrong_sensible()
    ensures
        all_sensible(retirement_wrong()),
{
    let steps = retirement_wrong();
    assert forall|i: int| 0 <= i < steps.len() implies sensible(#[trigger] steps[i]) by {}
}

proof fn lemma_retirement_exit_sensible()
    ensures
        all_sensible(retirement_exit()),
{
    let steps = retirement_exit();
    assert forall|i: int| 0 <= i < steps.len() implies sensible(#[trigger] steps[i]) by {}
}

proof fn lemma_retirement_essential_lock_sensible()
    ensures
        all_sensible(retirement_essential_lock()),
{
    let steps = retirement_essential_lock();
    assert forall|i: int| 0 <= i < steps.len() implies sensible(#[trigger] steps[i]) by {}
}

proof fn lemma_retirement_effect_sensible(process: bool)
    ensures
        all_sensible(retirement_effect(process)),
{
    let steps = retirement_effect(process);
    assert forall|i: int| 0 <= i < steps.len() implies sensible(#[trigger] steps[i]) by {}
}

proof fn lemma_retirement_essential_sensible()
    ensures
        all_sensible(retirement_essential()),
{
    let steps = retirement_essential();
    assert forall|i: int| 0 <= i < steps.len() implies sensible(#[trigger] steps[i]) by {}
}

proof fn lemma_retirement_shared_sensible()
    ensures
        all_sensible(retirement_shared()),
{
    let steps = retirement_shared();
    assert forall|i: int| 0 <= i < steps.len() implies sensible(#[trigger] steps[i]) by {}
}

proof fn lemma_retirement_cut_short_sensible()
    ensures
        all_sensible(retirement_cut_short()),
{
    let steps = retirement_cut_short();
    assert forall|i: int| 0 <= i < steps.len() implies sensible(#[trigger] steps[i]) by {}
}

proof fn lemma_retirement_stopped_sensible()
    ensures
        all_sensible(retirement_stopped()),
{
    let steps = retirement_stopped();
    assert forall|i: int| 0 <= i < steps.len() implies sensible(#[trigger] steps[i]) by {}
}

proof fn lemma_retirement_done_sensible()
    ensures
        all_sensible(retirement_done()),
{
    let steps = retirement_done();
    assert forall|i: int| 0 <= i < steps.len() implies sensible(#[trigger] steps[i]) by {}
}

proof fn lemma_retirement_sibling_sensible()
    ensures
        all_sensible(retirement_sibling()),
{
    let steps = retirement_sibling();
    assert forall|i: int| 0 <= i < steps.len() implies sensible(#[trigger] steps[i]) by {}
}

proof fn lemma_retirement_join_sensible()
    ensures
        all_sensible(retirement_join()),
{
    let steps = retirement_join();
    assert forall|i: int| 0 <= i < steps.len() implies sensible(#[trigger] steps[i]) by {}
}

proof fn lemma_retirement_touch_sensible(stop: Stop)
    ensures
        all_sensible(retirement_touch(stop)),
{
    let steps = retirement_touch(stop);
    assert forall|i: int| 0 <= i < steps.len() implies sensible(#[trigger] steps[i]) by {}
}

proof fn lemma_retirement_spare_sensible()
    ensures
        all_sensible(retirement_spare()),
{
    let steps = retirement_spare();
    assert forall|i: int| 0 <= i < steps.len() implies sensible(#[trigger] steps[i]) by {}
}

proof fn lemma_retirement_end_sensible()
    ensures
        all_sensible(retirement_end()),
{
    let steps = retirement_end();
    assert forall|i: int| 0 <= i < steps.len() implies sensible(#[trigger] steps[i]) by {}
}

proof fn lemma_release_thread_sensible(who: Who)
    requires
        who != Who::Foreign,
        who != Who::Former,
    ensures
        all_sensible(release_thread(who)),
{
    let steps = release_thread(who);
    assert forall|i: int| 0 <= i < steps.len() implies sensible(#[trigger] steps[i]) by {}
}

proof fn lemma_retirement_confirming_sensible()
    ensures
        all_sensible(retirement_confirming()),
{
    let steps = retirement_confirming();
    assert forall|i: int| 0 <= i < steps.len() implies sensible(#[trigger] steps[i]) by {}
}

proof fn lemma_abort_too_early_sensible()
    ensures
        all_sensible(abort_too_early()),
{
    let steps = abort_too_early();
    assert forall|i: int| 0 <= i < steps.len() implies sensible(#[trigger] steps[i]) by {}
}

proof fn lemma_abort_current_sensible()
    ensures
        all_sensible(abort_current()),
{
    let steps = abort_current();
    assert forall|i: int| 0 <= i < steps.len() implies sensible(#[trigger] steps[i]) by {}
}

proof fn lemma_abort_started_sensible()
    ensures
        all_sensible(abort_started()),
{
    let steps = abort_started();
    assert forall|i: int| 0 <= i < steps.len() implies sensible(#[trigger] steps[i]) by {}
}

proof fn lemma_abort_revoked_sensible()
    ensures
        all_sensible(abort_revoked()),
{
    let steps = abort_revoked();
    assert forall|i: int| 0 <= i < steps.len() implies sensible(#[trigger] steps[i]) by {}
}

proof fn lemma_abort_shared_sensible()
    ensures
        all_sensible(abort_shared()),
{
    let steps = abort_shared();
    assert forall|i: int| 0 <= i < steps.len() implies sensible(#[trigger] steps[i]) by {}
}

proof fn lemma_abort_discarded_sensible()
    ensures
        all_sensible(abort_discarded()),
{
    let steps = abort_discarded();
    assert forall|i: int| 0 <= i < steps.len() implies sensible(#[trigger] steps[i]) by {}
}

proof fn lemma_abort_finished_sensible()
    ensures
        all_sensible(abort_finished()),
{
    let steps = abort_finished();
    assert forall|i: int| 0 <= i < steps.len() implies sensible(#[trigger] steps[i]) by {}
}

proof fn lemma_abort_reply_sensible()
    ensures
        all_sensible(abort_reply()),
{
    let steps = abort_reply();
    assert forall|i: int| 0 <= i < steps.len() implies sensible(#[trigger] steps[i]) by {}
}

proof fn lemma_abort_end_sensible()
    ensures
        all_sensible(abort_end()),
{
    let steps = abort_end();
    assert forall|i: int| 0 <= i < steps.len() implies sensible(#[trigger] steps[i]) by {}
}

proof fn lemma_retirement_beginning_sensible(case: RetirementCase)
    ensures
        all_sensible(retirement_beginning(case)),
{
    lemma_retirement_set_up_sensible();
    lemma_sensible_join(Seq::<Step>::empty(), retirement_set_up());
    let s0 = Seq::<Step>::empty() + retirement_set_up();
    lemma_retirement_policy_sensible(revokes(case));
    lemma_sensible_join(s0, retirement_policy(revokes(case)));
    let s1 = s0 + retirement_policy(revokes(case));
    if revokes(case) && !(case is StartWins) {
        lemma_retirement_context_sensible(worker_start(), sibling_start(case));
        lemma_sensible_join(s1, retirement_context(worker_start(), sibling_start(case)));
        let t0 = s1 + retirement_context(worker_start(), sibling_start(case));
    } else {
        lemma_retirement_ready_sensible();
        lemma_sensible_join(s1, retirement_ready());
        let t0 = s1 + retirement_ready();
        lemma_retirement_context_sensible(worker_start(), sibling_start(case));
        lemma_sensible_join(t0, retirement_context(worker_start(), sibling_start(case)));
        let t1 = t0 + retirement_context(worker_start(), sibling_start(case));
    }
}

proof fn lemma_retirement_exiting_sensible(essential: bool)
    ensures
        all_sensible(retirement_exiting(essential)),
{
    lemma_retirement_capture_sensible(Who::Second);
    lemma_sensible_join(Seq::<Step>::empty(), retirement_capture(Who::Second));
    let s0 = Seq::<Step>::empty() + retirement_capture(Who::Second);
    lemma_retirement_wrong_sensible();
    lemma_sensible_join(s0, retirement_wrong());
    let s1 = s0 + retirement_wrong();
    lemma_retirement_capture_sensible(Who::First);
    lemma_sensible_join(s1, retirement_capture(Who::First));
    let s2 = s1 + retirement_capture(Who::First);
    lemma_retirement_exit_sensible();
    lemma_sensible_join(s2, retirement_exit());
    let s3 = s2 + retirement_exit();
    if essential {
        lemma_retirement_essential_lock_sensible();
        lemma_sensible_join(s3, retirement_essential_lock());
        let t0 = s3 + retirement_essential_lock();
        lemma_retirement_effect_sensible(true);
        lemma_sensible_join(t0, retirement_effect(true));
        let t1 = t0 + retirement_effect(true);
    } else {
        lemma_retirement_effect_sensible(false);
        lemma_sensible_join(s3, retirement_effect(false));
        let t0 = s3 + retirement_effect(false);
    }
}

proof fn lemma_abort_asking_sensible()
    ensures
        all_sensible(abort_asking()),
{
    lemma_abort_too_early_sensible();
    lemma_sensible_join(Seq::<Step>::empty(), abort_too_early());
    let s0 = Seq::<Step>::empty() + abort_too_early();
    lemma_retirement_capture_sensible(Who::Second);
    lemma_sensible_join(s0, retirement_capture(Who::Second));
    let s1 = s0 + retirement_capture(Who::Second);
    lemma_abort_current_sensible();
    lemma_sensible_join(s1, abort_current());
    let s2 = s1 + abort_current();
    lemma_retirement_capture_sensible(Who::Second);
    lemma_sensible_join(s2, retirement_capture(Who::Second));
    let s3 = s2 + retirement_capture(Who::Second);
}

/// Every step of a retirement has an answer that makes sense.
pub proof fn retirements_expect_sensible_answers(case: RetirementCase)
    ensures
        all_sensible(retirement_steps(case)),
        all_sensible(retirement_last(case)),
{
    lemma_retirement_beginning_sensible(case);
    let begin = retirement_beginning(case);
    match case {
        RetirementCase::Exit(_) => {
            lemma_retirement_exiting_sensible(false);
            lemma_sensible_join(begin, retirement_exiting(false));
            let t0 = begin + retirement_exiting(false);
            lemma_retirement_done_sensible();
            lemma_sensible_join(t0, retirement_done());
            let t1 = t0 + retirement_done();
            lemma_retirement_sibling_sensible();
            lemma_sensible_join(t1, retirement_sibling());
            let t2 = t1 + retirement_sibling();
            lemma_retirement_capture_sensible(Who::Second);
            lemma_sensible_join(t2, retirement_capture(Who::Second));
            let t3 = t2 + retirement_capture(Who::Second);
            lemma_retirement_join_sensible();
            lemma_sensible_join(t3, retirement_join());
            let t4 = t3 + retirement_join();
            lemma_retirement_touch_sensible(Stop::Faulted(Fault::Translation));
            lemma_sensible_join(t4, retirement_touch(Stop::Faulted(Fault::Translation)));
            let t5 = t4 + retirement_touch(Stop::Faulted(Fault::Translation));
            lemma_retirement_spare_sensible();
            lemma_sensible_join(t5, retirement_spare());
            let t6 = t5 + retirement_spare();
            lemma_retirement_end_sensible();
            lemma_sensible_join(t6, retirement_end());
            let t7 = t6 + retirement_end();
        },
        RetirementCase::Alias | RetirementCase::Reference => {
            lemma_retirement_exiting_sensible(false);
            lemma_sensible_join(begin, retirement_exiting(false));
            let t0 = begin + retirement_exiting(false);
            lemma_retirement_shared_sensible();
            lemma_sensible_join(t0, retirement_shared());
            let t1 = t0 + retirement_shared();
            lemma_retirement_stopped_sensible();
            lemma_sensible_join(t1, retirement_stopped());
            let t2 = t1 + retirement_stopped();
        },
        RetirementCase::Partial => {
            lemma_retirement_exiting_sensible(false);
            lemma_sensible_join(begin, retirement_exiting(false));
            let t0 = begin + retirement_exiting(false);
            lemma_retirement_cut_short_sensible();
            lemma_sensible_join(t0, retirement_cut_short());
            let t1 = t0 + retirement_cut_short();
            lemma_retirement_stopped_sensible();
            lemma_sensible_join(t1, retirement_stopped());
            let t2 = t1 + retirement_stopped();
        },
        RetirementCase::Essential => {
            lemma_retirement_exiting_sensible(true);
            lemma_sensible_join(begin, retirement_exiting(true));
            let t0 = begin + retirement_exiting(true);
            lemma_retirement_essential_sensible();
            lemma_sensible_join(t0, retirement_essential());
            let t1 = t0 + retirement_essential();
            lemma_retirement_stopped_sensible();
            lemma_sensible_join(t1, retirement_stopped());
            let t2 = t1 + retirement_stopped();
        },
        RetirementCase::Abort(_) => {
            lemma_abort_asking_sensible();
            lemma_sensible_join(begin, abort_asking());
            let t0 = begin + abort_asking();
            lemma_abort_revoked_sensible();
            lemma_sensible_join(t0, abort_revoked());
            let t1 = t0 + abort_revoked();
            lemma_abort_discarded_sensible();
            lemma_sensible_join(t1, abort_discarded());
            let t2 = t1 + abort_discarded();
            lemma_abort_finished_sensible();
            lemma_sensible_join(t2, abort_finished());
            let t3 = t2 + abort_finished();
            lemma_abort_reply_sensible();
            lemma_sensible_join(t3, abort_reply());
            let t4 = t3 + abort_reply();
            lemma_retirement_touch_sensible(Stop::Faulted(Fault::Translation));
            lemma_sensible_join(t4, retirement_touch(Stop::Faulted(Fault::Translation)));
            let t5 = t4 + retirement_touch(Stop::Faulted(Fault::Translation));
            lemma_retirement_spare_sensible();
            lemma_sensible_join(t5, retirement_spare());
            let t6 = t5 + retirement_spare();
            lemma_abort_end_sensible();
            lemma_sensible_join(t6, abort_end());
            let t7 = t6 + abort_end();
        },
        RetirementCase::AbortAlias | RetirementCase::AbortReference => {
            lemma_abort_asking_sensible();
            lemma_sensible_join(begin, abort_asking());
            let t0 = begin + abort_asking();
            lemma_abort_revoked_sensible();
            lemma_sensible_join(t0, abort_revoked());
            let t1 = t0 + abort_revoked();
            lemma_abort_shared_sensible();
            lemma_sensible_join(t1, abort_shared());
            let t2 = t1 + abort_shared();
            lemma_abort_end_sensible();
            lemma_sensible_join(t2, abort_end());
            let t3 = t2 + abort_end();
        },
        RetirementCase::StartWins => {
            lemma_abort_asking_sensible();
            lemma_sensible_join(begin, abort_asking());
            let t0 = begin + abort_asking();
            lemma_abort_started_sensible();
            lemma_sensible_join(t0, abort_started());
            let t1 = t0 + abort_started();
            lemma_abort_reply_sensible();
            lemma_sensible_join(t1, abort_reply());
            let t2 = t1 + abort_reply();
            lemma_retirement_touch_sensible(Stop::Exited(1));
            lemma_sensible_join(t2, retirement_touch(Stop::Exited(1)));
            let t3 = t2 + retirement_touch(Stop::Exited(1));
            lemma_abort_end_sensible();
            lemma_sensible_join(t3, abort_end());
            let t4 = t3 + abort_end();
        },
    }
    match case {
        RetirementCase::Exit(_) | RetirementCase::Abort(_) => {
            lemma_release_thread_sensible(Who::Second);
            lemma_sensible_join(Seq::<Step>::empty(), release_thread(Who::Second));
            let t0 = Seq::<Step>::empty() + release_thread(Who::Second);
            lemma_retirement_confirming_sensible();
            lemma_sensible_join(t0, retirement_confirming());
            let t1 = t0 + retirement_confirming();
        },
        _ => {
            lemma_release_thread_sensible(Who::First);
            lemma_sensible_join(Seq::<Step>::empty(), release_thread(Who::First));
            let t0 = Seq::<Step>::empty() + release_thread(Who::First);
            lemma_release_thread_sensible(Who::Second);
            lemma_sensible_join(t0, release_thread(Who::Second));
            let t1 = t0 + release_thread(Who::Second);
            lemma_retirement_confirming_sensible();
            lemma_sensible_join(t1, retirement_confirming());
            let t2 = t1 + retirement_confirming();
        },
    }
}

} // verus!
