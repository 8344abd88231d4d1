//! Two threads that synchronize.

use crate::probe::layout::{start, thread_start, FIRST_TX, METADATA_LIMIT, SECOND_RX, SECOND_TX};
use crate::probe::trial::{
    all_sensible, ask, lemma_sensible_join, once, proper, sensible, Agenda, AgendaView, Step,
};
use crate::probe::words::{
    Act, Holder, Mark, PairMark, Payload, Refusal, Resumed, StatsMark, ThreadStart, Want, Who,
};
use vstd::prelude::*;

verus! {

/// Bytes that scripts and held calls may take.
pub const STORAGE_LIMIT: u64 = 4096;

/// A process with two threads that may synchronize.
pub open spec fn sync_set_up() -> Seq<Step> {
    seq![
        once(Act::TakePairs, Want::Done),
        once(Act::LookAtPair(0), Want::KeepPair(PairMark::First)),
        once(Act::LookAtPair(1), Want::KeepPair(PairMark::Second)),
        once(Act::LayOut, Want::Done),
        once(Act::BuildRoot, Want::Done),
        once(Act::AddProcess(Holder::Own), Want::Done),
        once(Act::SetQuota { holder: Holder::Own, records: 2, pages: 8 }, Want::Done),
        once(Act::AddInitial { who: Who::First, reservation: 1, pages: 4 }, Want::Done),
        once(Act::Start(Who::First), Want::Done),
        once(Act::Dispatch(Who::First), Want::Done),
        once(Act::AddWorker { who: Who::Second, by: Who::First, reservation: 2, pages: 4 }, Want::Done),
        once(Act::Start(Who::Second), Want::Done),
        once(Act::AddSync, Want::Done),
        once(Act::OpenRight, Want::Done),
        once(Act::MakeObjects, Want::Done),
        once(Act::Yield(Who::First), Want::Done),
        once(Act::StorageBytes, Want::AtMost(STORAGE_LIMIT)),
        once(Act::WriteScripts, Want::Done),
    ]
}

fn ask_sync_set_up(steps: &mut Vec<Step>)
    ensures
        final(steps)@ == old(steps)@ + sync_set_up(),
{
    let ghost before = steps@;
    ask(steps, Act::TakePairs, Want::Done);
    ask(steps, Act::LookAtPair(0), Want::KeepPair(PairMark::First));
    ask(steps, Act::LookAtPair(1), Want::KeepPair(PairMark::Second));
    ask(steps, Act::LayOut, Want::Done);
    ask(steps, Act::BuildRoot, Want::Done);
    ask(steps, Act::AddProcess(Holder::Own), Want::Done);
    ask(steps, Act::SetQuota { holder: Holder::Own, records: 2, pages: 8 }, Want::Done);
    ask(steps, Act::AddInitial { who: Who::First, reservation: 1, pages: 4 }, Want::Done);
    ask(steps, Act::Start(Who::First), Want::Done);
    ask(steps, Act::Dispatch(Who::First), Want::Done);
    ask(steps, Act::AddWorker { who: Who::Second, by: Who::First, reservation: 2, pages: 4 }, Want::Done);
    ask(steps, Act::Start(Who::Second), Want::Done);
    ask(steps, Act::AddSync, Want::Done);
    ask(steps, Act::OpenRight, Want::Done);
    ask(steps, Act::MakeObjects, Want::Done);
    ask(steps, Act::Yield(Who::First), Want::Done);
    ask(steps, Act::StorageBytes, Want::AtMost(STORAGE_LIMIT));
    ask(steps, Act::WriteScripts, Want::Done);
    assert(steps@ =~= before + sync_set_up());
}

/// Both threads are prepared with clear message pages.
pub open spec fn sync_context(first: ThreadStart, second: ThreadStart) -> Seq<Step> {
    seq![
        once(Act::MakeContext { contexts: 2, metadata: METADATA_LIMIT, backed: true }, Want::Done),
        once(Act::Stats, Want::KeepStats(StatsMark::Baseline)),
        once(Act::Metadata, Want::Keep(Mark::Metadata)),
        once(Act::ThreadMetadata, Want::Keep(Mark::Threads)),
        once(Act::SyncMetadata, Want::Keep(Mark::Syncs)),
        once(Act::Prepare { who: Who::First, start: first }, Want::Done),
        once(Act::BindPair { who: Who::First, pair: 0, tx: FIRST_TX }, Want::Done),
        once(Act::Publish { who: Who::First, payload: Payload::Empty }, Want::Done),
        once(Act::Prepare { who: Who::Second, start: second }, Want::Done),
        once(Act::BindPair { who: Who::Second, pair: 1, tx: SECOND_TX }, Want::Done),
        once(Act::Publish { who: Who::Second, payload: Payload::Empty }, Want::Done),
        once(Act::RunScripts, Want::Flag(true)),
    ]
}

fn ask_sync_context(steps: &mut Vec<Step>, first: ThreadStart, second: ThreadStart)
    ensures
        final(steps)@ == old(steps)@ + sync_context(first, second),
{
    let ghost before = steps@;
    ask(steps, Act::MakeContext { contexts: 2, metadata: METADATA_LIMIT, backed: true }, Want::Done);
    ask(steps, Act::Stats, Want::KeepStats(StatsMark::Baseline));
    ask(steps, Act::Metadata, Want::Keep(Mark::Metadata));
    ask(steps, Act::ThreadMetadata, Want::Keep(Mark::Threads));
    ask(steps, Act::SyncMetadata, Want::Keep(Mark::Syncs));
    ask(steps, Act::Prepare { who: Who::First, start: first }, Want::Done);
    ask(steps, Act::BindPair { who: Who::First, pair: 0, tx: FIRST_TX }, Want::Done);
    ask(steps, Act::Publish { who: Who::First, payload: Payload::Empty }, Want::Done);
    ask(steps, Act::Prepare { who: Who::Second, start: second }, Want::Done);
    ask(steps, Act::BindPair { who: Who::Second, pair: 1, tx: SECOND_TX }, Want::Done);
    ask(steps, Act::Publish { who: Who::Second, payload: Payload::Empty }, Want::Done);
    ask(steps, Act::RunScripts, Want::Flag(true));
    assert(steps@ =~= before + sync_context(first, second));
}

/// The first thread trapped while its sibling waited: the wait is gone with the
/// process, its reply reaches nobody, and nobody runs.
pub open spec fn sync_trap() -> Seq<Step> {
    seq![
        once(Act::IsStopped, Want::Flag(true)),
        once(Act::SyncUsage, Want::Numbers(1, 1)),
        once(Act::Word(SECOND_RX), Want::Keep(Mark::Word)),
        once(Act::StopSync, Want::Done),
        once(Act::WaitIsOver(Who::Second), Want::Refused),
        once(Act::EndWait(Who::Second), Want::Refused),
        once(Act::ReplySuccess(Who::Second), Want::RefusedFor(Refusal::InvalidContext)),
        once(Act::IsCaller(Who::Second), Want::Flag(true)),
        once(Act::Word(SECOND_RX), Want::Kept(Mark::Word)),
        once(Act::SyncUsage, Want::Numbers(0, 0)),
        once(Act::CommittedPages, Want::Number(8)),
        once(Act::Resume { who: Who::First, how: Resumed::Timeslice, millis: 50 }, Want::Refused),
        once(Act::Resume { who: Who::Second, how: Resumed::Timeslice, millis: 50 }, Want::Refused),
    ]
}

fn ask_sync_trap(steps: &mut Vec<Step>)
    ensures
        final(steps)@ == old(steps)@ + sync_trap(),
{
    let ghost before = steps@;
    ask(steps, Act::IsStopped, Want::Flag(true));
    ask(steps, Act::SyncUsage, Want::Numbers(1, 1));
    ask(steps, Act::Word(SECOND_RX), Want::Keep(Mark::Word));
    ask(steps, Act::StopSync, Want::Done);
    ask(steps, Act::WaitIsOver(Who::Second), Want::Refused);
    ask(steps, Act::EndWait(Who::Second), Want::Refused);
    ask(steps, Act::ReplySuccess(Who::Second), Want::RefusedFor(Refusal::InvalidContext));
    ask(steps, Act::IsCaller(Who::Second), Want::Flag(true));
    ask(steps, Act::Word(SECOND_RX), Want::Kept(Mark::Word));
    ask(steps, Act::SyncUsage, Want::Numbers(0, 0));
    ask(steps, Act::CommittedPages, Want::Number(8));
    ask(steps, Act::Resume { who: Who::First, how: Resumed::Timeslice, millis: 50 }, Want::Refused);
    ask(steps, Act::Resume { who: Who::Second, how: Resumed::Timeslice, millis: 50 }, Want::Refused);
    assert(steps@ =~= before + sync_trap());
}

/// Nothing was spent, every right is closed, and the pairs come again
/// cleared.
pub open spec fn sync_end() -> Seq<Step> {
    seq![
        once(Act::IsStopped, Want::Flag(true)),
        once(Act::Stats, Want::SameStats(StatsMark::Baseline)),
        once(Act::Metadata, Want::Kept(Mark::Metadata)),
        once(Act::ThreadMetadata, Want::Kept(Mark::Threads)),
        once(Act::SyncMetadata, Want::Kept(Mark::Syncs)),
        once(Act::CloseRights, Want::Number(1)),
        once(Act::OpenRights, Want::Numbers(0, 0)),
        once(Act::DropContext, Want::Done),
        once(Act::PairsAreClear, Want::Flag(true)),
        once(Act::TakePairs, Want::Done),
        once(Act::LookAtPair(0), Want::Reused(PairMark::First)),
        once(Act::LookAtPair(1), Want::Reused(PairMark::Second)),
        once(Act::DropPairs, Want::Done),
    ]
}

fn ask_sync_end(steps: &mut Vec<Step>)
    ensures
        final(steps)@ == old(steps)@ + sync_end(),
{
    let ghost before = steps@;
    ask(steps, Act::IsStopped, Want::Flag(true));
    ask(steps, Act::Stats, Want::SameStats(StatsMark::Baseline));
    ask(steps, Act::Metadata, Want::Kept(Mark::Metadata));
    ask(steps, Act::ThreadMetadata, Want::Kept(Mark::Threads));
    ask(steps, Act::SyncMetadata, Want::Kept(Mark::Syncs));
    ask(steps, Act::CloseRights, Want::Number(1));
    ask(steps, Act::OpenRights, Want::Numbers(0, 0));
    ask(steps, Act::DropContext, Want::Done);
    ask(steps, Act::PairsAreClear, Want::Flag(true));
    ask(steps, Act::TakePairs, Want::Done);
    ask(steps, Act::LookAtPair(0), Want::Reused(PairMark::First));
    ask(steps, Act::LookAtPair(1), Want::Reused(PairMark::Second));
    ask(steps, Act::DropPairs, Want::Done);
    assert(steps@ =~= before + sync_end());
}

/// What is given back, whatever was seen: the context before its frames.
pub open spec fn sync_giving_back() -> Seq<Act> {
    seq![Act::DropContext, Act::ReclaimAll]
}

fn list_sync_giving_back() -> (acts: Vec<Act>)
    ensures
        acts@ == sync_giving_back(),
{
    let mut acts: Vec<Act> = Vec::new();
    acts.push(Act::DropContext);
    acts.push(Act::ReclaimAll);
    assert(acts@ =~= sync_giving_back());
    acts
}

/// The threads are released after their frames were freed.
pub open spec fn sync_confirming() -> Seq<Step> {
    seq![
        once(Act::Release(Who::First), Want::Number(4)),
        once(Act::Reap(Who::First), Want::Done),
        once(Act::Release(Who::Second), Want::Number(4)),
        once(Act::Reap(Who::Second), Want::Done),
        once(Act::RemoveProcess(Holder::Own), Want::Done),
        once(Act::CommittedPages, Want::Number(0)),
        once(Act::FreeFrames, Want::Kept(Mark::Free)),
    ]
}

fn ask_sync_confirming(steps: &mut Vec<Step>)
    ensures
        final(steps)@ == old(steps)@ + sync_confirming(),
{
    let ghost before = steps@;
    ask(steps, Act::Release(Who::First), Want::Number(4));
    ask(steps, Act::Reap(Who::First), Want::Done);
    ask(steps, Act::Release(Who::Second), Want::Number(4));
    ask(steps, Act::Reap(Who::Second), Want::Done);
    ask(steps, Act::RemoveProcess(Holder::Own), Want::Done);
    ask(steps, Act::CommittedPages, Want::Number(0));
    ask(steps, Act::FreeFrames, Want::Kept(Mark::Free));
    assert(steps@ =~= before + sync_confirming());
}

/// The steps of the probe, with or without a trap.
pub open spec fn sync_steps(trap: bool) -> Seq<Step> {
    let begin = Seq::<Step>::empty() + sync_set_up() + sync_context(start(false), start(true));
    if trap {
        begin + sync_trap() + sync_end()
    } else {
        begin + sync_end()
    }
}

/// The probe of synchronization: two threads run their scripts to the end, or
/// one traps while the other waits.
pub fn sync_probe(trap: bool) -> (agenda: Agenda)
    ensures
        agenda@ == (AgendaView {
            steps: sync_steps(trap),
            closing: sync_giving_back(),
            confirming: sync_confirming(),
        }),
{
    let first = thread_start(false);
    let second = thread_start(true);
    let mut steps: Vec<Step> = Vec::new();
    ask_sync_set_up(&mut steps);
    ask_sync_context(&mut steps, first, second);
    if trap {
        ask_sync_trap(&mut steps);
    }
    ask_sync_end(&mut steps);
    let mut last: Vec<Step> = Vec::new();
    ask_sync_confirming(&mut last);
    assert(last@ =~= sync_confirming());
    Agenda { steps, closing: list_sync_giving_back(), confirming: last }
}

proof fn lemma_sync_set_up_sensible()
    ensures
        all_sensible(sync_set_up()),
{
    let steps = sync_set_up();
    assert forall|i: int| 0 <= i < steps.len() implies sensible(#[trigger] steps[i]) by {}
}

proof fn lemma_sync_context_sensible(first: ThreadStart, second: ThreadStart)
    requires
        proper(first),
        proper(second),
    ensures
        all_sensible(sync_context(first, second)),
{
    let steps = sync_context(first, second);
    assert forall|i: int| 0 <= i < steps.len() implies sensible(#[trigger] steps[i]) by {}
}

proof fn lemma_sync_trap_sensible()
    ensures
        all_sensible(sync_trap()),
{
    let steps = sync_trap();
    assert forall|i: int| 0 <= i < steps.len() implies sensible(#[trigger] steps[i]) by {}
}

proof fn lemma_sync_end_sensible()
    ensures
        all_sensible(sync_end()),
{
    let steps = sync_end();
    assert forall|i: int| 0 <= i < steps.len() implies sensible(#[trigger] steps[i]) by {}
}

proof fn lemma_sync_confirming_sensible()
    ensures
        all_sensible(sync_confirming()),
{
    let steps = sync_confirming();
    assert forall|i: int| 0 <= i < steps.len() implies sensible(#[trigger] steps[i]) by {}
}

/// Every step of a synchronization has an answer that makes sense.
pub proof fn synchronizations_expect_sensible_answers(trap: bool)
    ensures
        all_sensible(sync_steps(trap)),
        all_sensible(sync_confirming()),
{
    lemma_sync_confirming_sensible();
    lemma_sync_set_up_sensible();
    lemma_sensible_join(Seq::<Step>::empty(), sync_set_up());
    let s0 = Seq::<Step>::empty() + sync_set_up();
    lemma_sync_context_sensible(start(false), start(true));
    lemma_sensible_join(s0, sync_context(start(false), start(true)));
    let s1 = s0 + sync_context(start(false), start(true));
    if trap {
        lemma_sync_trap_sensible();
        lemma_sensible_join(s1, sync_trap());
        let t0 = s1 + sync_trap();
        lemma_sync_end_sensible();
        lemma_sensible_join(t0, sync_end());
        let t1 = t0 + sync_end();
    } else {
        lemma_sync_end_sensible();
        lemma_sensible_join(s1, sync_end());
        let t0 = s1 + sync_end();
    }
}

} // verus!
