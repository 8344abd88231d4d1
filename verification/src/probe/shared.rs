//! Two threads in one address space.

use crate::memory::isolated::{USER_CODE_BASE, USER_DATA_BASE};
use crate::probe::layout::{
    start, thread_start, FIRST_RX, FIRST_TLS, FIRST_TX, METADATA_LIMIT, SECOND_RX, SECOND_TX,
    SHARED_COUNTER,
};
use crate::probe::trial::{
    all_sensible, ask, lemma_sensible_join, once, proper, sensible, Agenda, AgendaView, Step,
};
use crate::probe::words::{
    Act, Fault, Holder, Mark, PairMark, Payload, Resumed, StatsMark, Stop, ThreadStart, Want, Who,
};
use vstd::prelude::*;

verus! {

/// The last aligned word address.
pub const LAST_WORD: u64 = 0xffff_ffff_ffff_fff8;

/// A thread pointer that is not aligned.
pub const UNALIGNED_POINTER: u64 = 0x4000_0001_6001;

/// An address of message pages that is not aligned.
pub const UNALIGNED_TX: u64 = 0x4000_0001_c001;

/// Eight pattern bytes.
pub const PATTERN: u64 = 0xa5a5_a5a5_a5a5_a5a5;

/// Last word of the first thread's receive page.
pub const FIRST_LAST_WORD: u64 = 0x4000_0001_dff8;

/// Last word of the sibling's receive page.
pub const SECOND_LAST_WORD: u64 = 0x4000_0002_0ff8;

/// Two processes with their quotas, and the threads of both.
pub open spec fn set_up() -> Seq<Step> {
    seq![
        once(Act::TakePairs, Want::Done),
        once(Act::LayOut, Want::Done),
        once(Act::BuildRoot, Want::Done),
        once(Act::AddProcess(Holder::Own), Want::Done),
        once(Act::AddProcess(Holder::Other), Want::Done),
        once(Act::SetQuota { holder: Holder::Own, records: 2, pages: 8 }, Want::Done),
        once(Act::SetQuota { holder: Holder::Other, records: 1, pages: 2 }, Want::Done),
        once(Act::AddInitial { who: Who::First, reservation: 1, pages: 4 }, Want::Done),
        once(Act::Start(Who::First), Want::Done),
        once(Act::Dispatch(Who::First), Want::Done),
        once(Act::AddWorker { who: Who::Second, by: Who::First, reservation: 2, pages: 4 }, Want::Done),
        once(Act::Start(Who::Second), Want::Done),
        once(Act::Yield(Who::First), Want::Done),
        once(Act::AddInitial { who: Who::Foreign, reservation: 3, pages: 2 }, Want::Done),
    ]
}

fn ask_set_up(steps: &mut Vec<Step>)
    ensures
        final(steps)@ == old(steps)@ + set_up(),
{
    let ghost before = steps@;
    ask(steps, Act::TakePairs, Want::Done);
    ask(steps, Act::LayOut, Want::Done);
    ask(steps, Act::BuildRoot, Want::Done);
    ask(steps, Act::AddProcess(Holder::Own), Want::Done);
    ask(steps, Act::AddProcess(Holder::Other), Want::Done);
    ask(steps, Act::SetQuota { holder: Holder::Own, records: 2, pages: 8 }, Want::Done);
    ask(steps, Act::SetQuota { holder: Holder::Other, records: 1, pages: 2 }, Want::Done);
    ask(steps, Act::AddInitial { who: Who::First, reservation: 1, pages: 4 }, Want::Done);
    ask(steps, Act::Start(Who::First), Want::Done);
    ask(steps, Act::Dispatch(Who::First), Want::Done);
    ask(steps, Act::AddWorker { who: Who::Second, by: Who::First, reservation: 2, pages: 4 }, Want::Done);
    ask(steps, Act::Start(Who::Second), Want::Done);
    ask(steps, Act::Yield(Who::First), Want::Done);
    ask(steps, Act::AddInitial { who: Who::Foreign, reservation: 3, pages: 2 }, Want::Done);
    assert(steps@ =~= before + set_up());
}

/// A context needs its metadata, that of its pairs counted; a refused one
/// gives its pairs back cleared, and they come again in their next
/// incarnation.
pub open spec fn contexts() -> Seq<Step> {
    seq![
        once(Act::MakeContext { contexts: 2, metadata: 0, backed: false }, Want::Refused),
        once(Act::BuildRoot, Want::Done),
        once(Act::MakeContext { contexts: 2, metadata: METADATA_LIMIT, backed: false }, Want::Done),
        once(Act::Metadata, Want::Keep(Mark::Bare)),
        once(Act::DropContext, Want::Done),
        once(Act::LookAtPair(0), Want::KeepPair(PairMark::First)),
        once(Act::LookAtPair(1), Want::KeepPair(PairMark::Second)),
        once(Act::BuildRoot, Want::Done),
        once(Act::MakeTightContext, Want::Refused),
        once(Act::PairsAreClear, Want::Flag(true)),
        once(Act::TakePairs, Want::Done),
        once(Act::LookAtPair(0), Want::Reused(PairMark::First)),
        once(Act::LookAtPair(1), Want::Reused(PairMark::Second)),
        once(Act::PairMetadata, Want::Keep(Mark::Pairs)),
        once(Act::LookAtPair(0), Want::KeepPair(PairMark::First)),
        once(Act::LookAtPair(1), Want::KeepPair(PairMark::Second)),
        once(Act::LayOut, Want::Done),
        once(Act::BuildRoot, Want::Done),
        once(Act::MakeContext { contexts: 2, metadata: METADATA_LIMIT, backed: true }, Want::Done),
        once(Act::Metadata, Want::AtLeastSum(Mark::Bare, Mark::Pairs)),
        once(Act::Stats, Want::KeepStats(StatsMark::Baseline)),
        once(Act::Metadata, Want::Keep(Mark::Metadata)),
    ]
}

fn ask_contexts(steps: &mut Vec<Step>)
    ensures
        final(steps)@ == old(steps)@ + contexts(),
{
    let ghost before = steps@;
    ask(steps, Act::MakeContext { contexts: 2, metadata: 0, backed: false }, Want::Refused);
    ask(steps, Act::BuildRoot, Want::Done);
    ask(steps, Act::MakeContext { contexts: 2, metadata: METADATA_LIMIT, backed: false }, Want::Done);
    ask(steps, Act::Metadata, Want::Keep(Mark::Bare));
    ask(steps, Act::DropContext, Want::Done);
    ask(steps, Act::LookAtPair(0), Want::KeepPair(PairMark::First));
    ask(steps, Act::LookAtPair(1), Want::KeepPair(PairMark::Second));
    ask(steps, Act::BuildRoot, Want::Done);
    ask(steps, Act::MakeTightContext, Want::Refused);
    ask(steps, Act::PairsAreClear, Want::Flag(true));
    ask(steps, Act::TakePairs, Want::Done);
    ask(steps, Act::LookAtPair(0), Want::Reused(PairMark::First));
    ask(steps, Act::LookAtPair(1), Want::Reused(PairMark::Second));
    ask(steps, Act::PairMetadata, Want::Keep(Mark::Pairs));
    ask(steps, Act::LookAtPair(0), Want::KeepPair(PairMark::First));
    ask(steps, Act::LookAtPair(1), Want::KeepPair(PairMark::Second));
    ask(steps, Act::LayOut, Want::Done);
    ask(steps, Act::BuildRoot, Want::Done);
    ask(steps, Act::MakeContext { contexts: 2, metadata: METADATA_LIMIT, backed: true }, Want::Done);
    ask(steps, Act::Metadata, Want::AtLeastSum(Mark::Bare, Mark::Pairs));
    ask(steps, Act::Stats, Want::KeepStats(StatsMark::Baseline));
    ask(steps, Act::Metadata, Want::Keep(Mark::Metadata));
    assert(steps@ =~= before + contexts());
}

/// Only own threads are prepared, each once, with a guarded stack of their own
/// and an aligned thread pointer in their own storage.
pub open spec fn preparing(first: ThreadStart, second: ThreadStart) -> Seq<Step> {
    seq![
        once(Act::Prepare { who: Who::Foreign, start: first }, Want::Refused),
        once(Act::Prepare { who: Who::First, start: ThreadStart { stack: USER_DATA_BASE, ..first } }, Want::Refused),
        once(Act::Prepare { who: Who::First, start: ThreadStart { thread_pointer: 0, ..first } }, Want::Refused),
        once(Act::Prepare { who: Who::First, start: ThreadStart { thread_pointer: LAST_WORD, ..first } }, Want::Refused),
        once(Act::Prepare { who: Who::First, start: ThreadStart { thread_pointer: UNALIGNED_POINTER, ..first } }, Want::Refused),
        once(Act::Prepare { who: Who::First, start: ThreadStart { thread_pointer: USER_CODE_BASE, ..first } }, Want::Refused),
        once(Act::Prepare { who: Who::First, start: first }, Want::Done),
        once(Act::Prepare { who: Who::First, start: second }, Want::Refused),
        once(Act::Prepare { who: Who::Second, start: first }, Want::Refused),
    ]
}

fn ask_preparing(steps: &mut Vec<Step>, first: ThreadStart, second: ThreadStart)
    ensures
        final(steps)@ == old(steps)@ + preparing(first, second),
{
    let ghost before = steps@;
    ask(steps, Act::Prepare { who: Who::Foreign, start: first }, Want::Refused);
    ask(steps, Act::Prepare { who: Who::First, start: ThreadStart { stack: USER_DATA_BASE, ..first } }, Want::Refused);
    ask(steps, Act::Prepare { who: Who::First, start: ThreadStart { thread_pointer: 0, ..first } }, Want::Refused);
    ask(steps, Act::Prepare { who: Who::First, start: ThreadStart { thread_pointer: LAST_WORD, ..first } }, Want::Refused);
    ask(steps, Act::Prepare { who: Who::First, start: ThreadStart { thread_pointer: UNALIGNED_POINTER, ..first } }, Want::Refused);
    ask(steps, Act::Prepare { who: Who::First, start: ThreadStart { thread_pointer: USER_CODE_BASE, ..first } }, Want::Refused);
    ask(steps, Act::Prepare { who: Who::First, start: first }, Want::Done);
    ask(steps, Act::Prepare { who: Who::First, start: second }, Want::Refused);
    ask(steps, Act::Prepare { who: Who::Second, start: first }, Want::Refused);
    assert(steps@ =~= before + preparing(first, second));
}

/// Each thread gets its own pair at its own address, and nothing else may lie
/// there.
pub open spec fn binding(first: ThreadStart, second: ThreadStart) -> Seq<Step> {
    seq![
        once(Act::Addresses(Who::First), Want::Refused),
        once(Act::BindPair { who: Who::Foreign, pair: 0, tx: FIRST_TX }, Want::Refused),
        once(Act::BindPair { who: Who::First, pair: 0, tx: UNALIGNED_TX }, Want::Refused),
        once(Act::BindPair { who: Who::First, pair: 2, tx: FIRST_TX }, Want::Refused),
        once(Act::BindPair { who: Who::First, pair: 1, tx: FIRST_TX }, Want::Refused),
        once(Act::BindPair { who: Who::First, pair: 0, tx: FIRST_TLS }, Want::Refused),
        once(Act::BindPair { who: Who::First, pair: 0, tx: FIRST_TX }, Want::Done),
        once(Act::Prepare { who: Who::Second, start: ThreadStart { tls: FIRST_TX, tls_pages: 2, thread_pointer: FIRST_TX, ..second } }, Want::Refused),
        once(Act::Prepare { who: Who::Second, start: second }, Want::Done),
        once(Act::BindPair { who: Who::Second, pair: 0, tx: FIRST_TX }, Want::Refused),
        once(Act::BindPair { who: Who::First, pair: 1, tx: SECOND_TX }, Want::Refused),
        once(Act::BindPair { who: Who::Second, pair: 1, tx: SECOND_TX }, Want::Done),
        once(Act::CopyTx { who: Who::First, bytes: 4097 }, Want::Untouched),
        once(Act::CopyTx { who: Who::Foreign, bytes: 8 }, Want::Untouched),
        once(Act::Publish { who: Who::Foreign, payload: Payload::Fill { byte: 0xff, count: 8 } }, Want::Refused),
    ]
}

fn ask_binding(steps: &mut Vec<Step>, first: ThreadStart, second: ThreadStart)
    ensures
        final(steps)@ == old(steps)@ + binding(first, second),
{
    let ghost before = steps@;
    ask(steps, Act::Addresses(Who::First), Want::Refused);
    ask(steps, Act::BindPair { who: Who::Foreign, pair: 0, tx: FIRST_TX }, Want::Refused);
    ask(steps, Act::BindPair { who: Who::First, pair: 0, tx: UNALIGNED_TX }, Want::Refused);
    ask(steps, Act::BindPair { who: Who::First, pair: 2, tx: FIRST_TX }, Want::Refused);
    ask(steps, Act::BindPair { who: Who::First, pair: 1, tx: FIRST_TX }, Want::Refused);
    ask(steps, Act::BindPair { who: Who::First, pair: 0, tx: FIRST_TLS }, Want::Refused);
    ask(steps, Act::BindPair { who: Who::First, pair: 0, tx: FIRST_TX }, Want::Done);
    ask(steps, Act::Prepare { who: Who::Second, start: ThreadStart { tls: FIRST_TX, tls_pages: 2, thread_pointer: FIRST_TX, ..second } }, Want::Refused);
    ask(steps, Act::Prepare { who: Who::Second, start: second }, Want::Done);
    ask(steps, Act::BindPair { who: Who::Second, pair: 0, tx: FIRST_TX }, Want::Refused);
    ask(steps, Act::BindPair { who: Who::First, pair: 1, tx: SECOND_TX }, Want::Refused);
    ask(steps, Act::BindPair { who: Who::Second, pair: 1, tx: SECOND_TX }, Want::Done);
    ask(steps, Act::CopyTx { who: Who::First, bytes: 4097 }, Want::Untouched);
    ask(steps, Act::CopyTx { who: Who::Foreign, bytes: 8 }, Want::Untouched);
    ask(steps, Act::Publish { who: Who::Foreign, payload: Payload::Fill { byte: 0xff, count: 8 } }, Want::Refused);
    assert(steps@ =~= before + binding(first, second));
}

/// A full page reaches the first thread, a longer one does not, and what a shorter
/// message leaves of the page is zero.
pub open spec fn first_messages() -> Seq<Step> {
    seq![
        once(Act::Addresses(Who::First), Want::Numbers(FIRST_TX, FIRST_RX)),
        once(Act::Publish { who: Who::First, payload: Payload::Fill { byte: 0xa5, count: 4096 } }, Want::Done),
        once(Act::Publish { who: Who::First, payload: Payload::Fill { byte: 0xa5, count: 4097 } }, Want::Refused),
        once(Act::Word(FIRST_RX), Want::Number(PATTERN)),
        once(Act::Word(FIRST_LAST_WORD), Want::Number(PATTERN)),
        once(Act::Publish { who: Who::First, payload: Payload::Empty }, Want::Done),
        once(Act::TailIsClear { tx: FIRST_TX, from: 0 }, Want::Flag(true)),
        once(Act::Publish { who: Who::First, payload: Payload::Word(11) }, Want::Done),
        once(Act::TailIsClear { tx: FIRST_TX, from: 8 }, Want::Flag(true)),
    ]
}

fn ask_first_messages(steps: &mut Vec<Step>)
    ensures
        final(steps)@ == old(steps)@ + first_messages(),
{
    let ghost before = steps@;
    ask(steps, Act::Addresses(Who::First), Want::Numbers(FIRST_TX, FIRST_RX));
    ask(steps, Act::Publish { who: Who::First, payload: Payload::Fill { byte: 0xa5, count: 4096 } }, Want::Done);
    ask(steps, Act::Publish { who: Who::First, payload: Payload::Fill { byte: 0xa5, count: 4097 } }, Want::Refused);
    ask(steps, Act::Word(FIRST_RX), Want::Number(PATTERN));
    ask(steps, Act::Word(FIRST_LAST_WORD), Want::Number(PATTERN));
    ask(steps, Act::Publish { who: Who::First, payload: Payload::Empty }, Want::Done);
    ask(steps, Act::TailIsClear { tx: FIRST_TX, from: 0 }, Want::Flag(true));
    ask(steps, Act::Publish { who: Who::First, payload: Payload::Word(11) }, Want::Done);
    ask(steps, Act::TailIsClear { tx: FIRST_TX, from: 8 }, Want::Flag(true));
    assert(steps@ =~= before + first_messages());
}

/// A full page reaches the sibling, a longer one does not, and what a shorter
/// message leaves of the page is zero.
pub open spec fn second_messages() -> Seq<Step> {
    seq![
        once(Act::Addresses(Who::Second), Want::Numbers(SECOND_TX, SECOND_RX)),
        once(Act::Publish { who: Who::Second, payload: Payload::Fill { byte: 0xa5, count: 4096 } }, Want::Done),
        once(Act::Publish { who: Who::Second, payload: Payload::Fill { byte: 0xa5, count: 4097 } }, Want::Refused),
        once(Act::Word(SECOND_RX), Want::Number(PATTERN)),
        once(Act::Word(SECOND_LAST_WORD), Want::Number(PATTERN)),
        once(Act::Publish { who: Who::Second, payload: Payload::Empty }, Want::Done),
        once(Act::TailIsClear { tx: SECOND_TX, from: 0 }, Want::Flag(true)),
        once(Act::Publish { who: Who::Second, payload: Payload::Word(22) }, Want::Done),
        once(Act::TailIsClear { tx: SECOND_TX, from: 8 }, Want::Flag(true)),
    ]
}

fn ask_second_messages(steps: &mut Vec<Step>)
    ensures
        final(steps)@ == old(steps)@ + second_messages(),
{
    let ghost before = steps@;
    ask(steps, Act::Addresses(Who::Second), Want::Numbers(SECOND_TX, SECOND_RX));
    ask(steps, Act::Publish { who: Who::Second, payload: Payload::Fill { byte: 0xa5, count: 4096 } }, Want::Done);
    ask(steps, Act::Publish { who: Who::Second, payload: Payload::Fill { byte: 0xa5, count: 4097 } }, Want::Refused);
    ask(steps, Act::Word(SECOND_RX), Want::Number(PATTERN));
    ask(steps, Act::Word(SECOND_LAST_WORD), Want::Number(PATTERN));
    ask(steps, Act::Publish { who: Who::Second, payload: Payload::Empty }, Want::Done);
    ask(steps, Act::TailIsClear { tx: SECOND_TX, from: 0 }, Want::Flag(true));
    ask(steps, Act::Publish { who: Who::Second, payload: Payload::Word(22) }, Want::Done);
    ask(steps, Act::TailIsClear { tx: SECOND_TX, from: 8 }, Want::Flag(true));
    assert(steps@ =~= before + second_messages());
}

/// Only own threads run, for one to fifty milliseconds; both are preempted
/// before they take turns, and taking turns costs nothing.
pub open spec fn running() -> Seq<Step> {
    seq![
        once(Act::Resume { who: Who::Foreign, how: Resumed::Timeslice, millis: 1 }, Want::Refused),
        once(Act::Resume { who: Who::First, how: Resumed::Timeslice, millis: 0 }, Want::Refused),
        once(Act::Resume { who: Who::First, how: Resumed::Timeslice, millis: 51 }, Want::Refused),
        once(Act::Dispatch(Who::First), Want::Done),
        once(Act::Resume { who: Who::First, how: Resumed::Timeslice, millis: 1 }, Want::Stop(Stop::Preempted)),
        once(Act::Yield(Who::First), Want::Done),
        once(Act::Dispatch(Who::Second), Want::Done),
        once(Act::Resume { who: Who::Second, how: Resumed::Timeslice, millis: 1 }, Want::Stop(Stop::Preempted)),
        once(Act::Yield(Who::Second), Want::Done),
        once(Act::TakeTurns, Want::Flag(true)),
        once(Act::Stats, Want::SameStats(StatsMark::Baseline)),
        once(Act::Metadata, Want::Kept(Mark::Metadata)),
    ]
}

fn ask_running(steps: &mut Vec<Step>)
    ensures
        final(steps)@ == old(steps)@ + running(),
{
    let ghost before = steps@;
    ask(steps, Act::Resume { who: Who::Foreign, how: Resumed::Timeslice, millis: 1 }, Want::Refused);
    ask(steps, Act::Resume { who: Who::First, how: Resumed::Timeslice, millis: 0 }, Want::Refused);
    ask(steps, Act::Resume { who: Who::First, how: Resumed::Timeslice, millis: 51 }, Want::Refused);
    ask(steps, Act::Dispatch(Who::First), Want::Done);
    ask(steps, Act::Resume { who: Who::First, how: Resumed::Timeslice, millis: 1 }, Want::Stop(Stop::Preempted));
    ask(steps, Act::Yield(Who::First), Want::Done);
    ask(steps, Act::Dispatch(Who::Second), Want::Done);
    ask(steps, Act::Resume { who: Who::Second, how: Resumed::Timeslice, millis: 1 }, Want::Stop(Stop::Preempted));
    ask(steps, Act::Yield(Who::Second), Want::Done);
    ask(steps, Act::TakeTurns, Want::Flag(true));
    ask(steps, Act::Stats, Want::SameStats(StatsMark::Baseline));
    ask(steps, Act::Metadata, Want::Kept(Mark::Metadata));
    assert(steps@ =~= before + running());
}

/// A fault of one thread stops the process: its sibling neither runs nor is
/// changed, and memory stays as it was.
pub open spec fn faulting(second: ThreadStart) -> Seq<Step> {
    seq![
        once(Act::Dispatch(Who::First), Want::Done),
        once(Act::Resume { who: Who::First, how: Resumed::Yield, millis: 50 }, Want::Stop(Stop::Faulted(Fault::IllegalInstruction))),
        once(Act::IsStopped, Want::Flag(true)),
        once(Act::Resume { who: Who::Second, how: Resumed::Yield, millis: 50 }, Want::Refused),
        once(Act::Prepare { who: Who::Second, start: second }, Want::Refused),
        once(Act::BindPair { who: Who::Second, pair: 1, tx: SECOND_TX }, Want::Refused),
        once(Act::Addresses(Who::Second), Want::Refused),
        once(Act::CopyTx { who: Who::Second, bytes: 8 }, Want::Untouched),
        once(Act::Publish { who: Who::Second, payload: Payload::Fill { byte: 0xff, count: 8 } }, Want::Refused),
        once(Act::Word(SECOND_RX), Want::Number(38)),
        once(Act::Word(SHARED_COUNTER), Want::Number(32)),
    ]
}

fn ask_faulting(steps: &mut Vec<Step>, second: ThreadStart)
    ensures
        final(steps)@ == old(steps)@ + faulting(second),
{
    let ghost before = steps@;
    ask(steps, Act::Dispatch(Who::First), Want::Done);
    ask(steps, Act::Resume { who: Who::First, how: Resumed::Yield, millis: 50 }, Want::Stop(Stop::Faulted(Fault::IllegalInstruction)));
    ask(steps, Act::IsStopped, Want::Flag(true));
    ask(steps, Act::Resume { who: Who::Second, how: Resumed::Yield, millis: 50 }, Want::Refused);
    ask(steps, Act::Prepare { who: Who::Second, start: second }, Want::Refused);
    ask(steps, Act::BindPair { who: Who::Second, pair: 1, tx: SECOND_TX }, Want::Refused);
    ask(steps, Act::Addresses(Who::Second), Want::Refused);
    ask(steps, Act::CopyTx { who: Who::Second, bytes: 8 }, Want::Untouched);
    ask(steps, Act::Publish { who: Who::Second, payload: Payload::Fill { byte: 0xff, count: 8 } }, Want::Refused);
    ask(steps, Act::Word(SECOND_RX), Want::Number(38));
    ask(steps, Act::Word(SHARED_COUNTER), Want::Number(32));
    assert(steps@ =~= before + faulting(second));
}

/// A stopped context keeps its pairs until it is given back; they come again
/// cleared.
pub open spec fn retiring() -> Seq<Step> {
    seq![
        once(Act::StopProcess(Holder::Own), Want::Done),
        once(Act::StopProcess(Holder::Other), Want::Done),
        once(Act::Release(Who::Foreign), Want::AnyNumber),
        once(Act::Reap(Who::Foreign), Want::Done),
        once(Act::RemoveProcess(Holder::Other), Want::Done),
        once(Act::TakeSpare, Want::OtherSlot),
        once(Act::DropSpare, Want::Done),
        once(Act::DropContext, Want::Done),
        once(Act::PairsAreClear, Want::Flag(true)),
        once(Act::TakePairs, Want::Done),
        once(Act::LookAtPair(0), Want::Reused(PairMark::First)),
        once(Act::LookAtPair(1), Want::Reused(PairMark::Second)),
        once(Act::DropPairs, Want::Done),
    ]
}

fn ask_retiring(steps: &mut Vec<Step>)
    ensures
        final(steps)@ == old(steps)@ + retiring(),
{
    let ghost before = steps@;
    ask(steps, Act::StopProcess(Holder::Own), Want::Done);
    ask(steps, Act::StopProcess(Holder::Other), Want::Done);
    ask(steps, Act::Release(Who::Foreign), Want::AnyNumber);
    ask(steps, Act::Reap(Who::Foreign), Want::Done);
    ask(steps, Act::RemoveProcess(Holder::Other), Want::Done);
    ask(steps, Act::TakeSpare, Want::OtherSlot);
    ask(steps, Act::DropSpare, Want::Done);
    ask(steps, Act::DropContext, Want::Done);
    ask(steps, Act::PairsAreClear, Want::Flag(true));
    ask(steps, Act::TakePairs, Want::Done);
    ask(steps, Act::LookAtPair(0), Want::Reused(PairMark::First));
    ask(steps, Act::LookAtPair(1), Want::Reused(PairMark::Second));
    ask(steps, Act::DropPairs, Want::Done);
    assert(steps@ =~= before + retiring());
}

/// What is given back, whatever was seen: the context before its frames.
pub open spec fn giving_back() -> Seq<Act> {
    seq![Act::DropContext, Act::ReclaimAll]
}

fn list_giving_back() -> (acts: Vec<Act>)
    ensures
        acts@ == giving_back(),
{
    let mut acts: Vec<Act> = Vec::new();
    acts.push(Act::DropContext);
    acts.push(Act::ReclaimAll);
    assert(acts@ =~= giving_back());
    acts
}

/// Both threads are released and removed after their frames were freed, and
/// nothing is missing.
pub open spec fn confirming() -> Seq<Step> {
    seq![
        once(Act::Release(Who::First), Want::Number(4)),
        once(Act::Reap(Who::First), Want::Done),
        once(Act::Release(Who::Second), Want::Number(4)),
        once(Act::Reap(Who::Second), Want::Done),
        once(Act::RemoveProcess(Holder::Own), Want::Done),
        once(Act::FreeFrames, Want::Kept(Mark::Free)),
        once(Act::CommittedPages, Want::Number(0)),
    ]
}

fn ask_confirming(steps: &mut Vec<Step>)
    ensures
        final(steps)@ == old(steps)@ + confirming(),
{
    let ghost before = steps@;
    ask(steps, Act::Release(Who::First), Want::Number(4));
    ask(steps, Act::Reap(Who::First), Want::Done);
    ask(steps, Act::Release(Who::Second), Want::Number(4));
    ask(steps, Act::Reap(Who::Second), Want::Done);
    ask(steps, Act::RemoveProcess(Holder::Own), Want::Done);
    ask(steps, Act::FreeFrames, Want::Kept(Mark::Free));
    ask(steps, Act::CommittedPages, Want::Number(0));
    assert(steps@ =~= before + confirming());
}

/// The steps of the probe of a shared address space.
pub open spec fn shared_steps() -> Seq<Step> {
    Seq::<Step>::empty() + set_up() + contexts() + preparing(start(false), start(true)) + binding(
        start(false),
        start(true),
    ) + first_messages() + second_messages() + running() + faulting(start(true)) + retiring()
}

/// The probe of two threads in one address space: guarded stacks,
/// thread-local storage and message pages of their own.
pub fn shared_probe() -> (agenda: Agenda)
    ensures
        agenda@ == (AgendaView {
            steps: shared_steps(),
            closing: giving_back(),
            confirming: confirming(),
        }),
{
    let first = thread_start(false);
    let second = thread_start(true);
    let mut steps: Vec<Step> = Vec::new();
    ask_set_up(&mut steps);
    ask_contexts(&mut steps);
    ask_preparing(&mut steps, first, second);
    ask_binding(&mut steps, first, second);
    ask_first_messages(&mut steps);
    ask_second_messages(&mut steps);
    ask_running(&mut steps);
    ask_faulting(&mut steps, second);
    ask_retiring(&mut steps);
    let mut last: Vec<Step> = Vec::new();
    ask_confirming(&mut last);
    assert(last@ =~= confirming());
    Agenda { steps, closing: list_giving_back(), confirming: last }
}

/// In every probed list, an act comes before another.
pub open spec fn precedes(acts: Seq<Act>, one: Act, other: Act) -> bool {
    forall|i: int, j: int|
        0 <= i < acts.len() && 0 <= j < acts.len() && #[trigger] acts[i] == one
            && #[trigger] acts[j] == other ==> i < j
}

/// The frames go back only after the context that maps them is gone.
pub proof fn context_goes_before_its_frames()
    ensures
        precedes(giving_back(), Act::DropContext, Act::ReclaimAll),
        giving_back().contains(Act::DropContext),
        giving_back().contains(Act::ReclaimAll),
{
    assert(giving_back()[0] == Act::DropContext);
    assert(giving_back()[1] == Act::ReclaimAll);
}

proof fn lemma_set_up_sensible()
    ensures
        all_sensible(set_up()),
{
    let steps = set_up();
    assert forall|i: int| 0 <= i < steps.len() implies sensible(#[trigger] steps[i]) by {}
}

proof fn lemma_contexts_sensible()
    ensures
        all_sensible(contexts()),
{
    let steps = contexts();
    assert forall|i: int| 0 <= i < steps.len() implies sensible(#[trigger] steps[i]) by {}
}

proof fn lemma_preparing_sensible(first: ThreadStart, second: ThreadStart)
    requires
        proper(first),
        proper(second),
    ensures
        all_sensible(preparing(first, second)),
{
    let steps = preparing(first, second);
    assert forall|i: int| 0 <= i < steps.len() implies sensible(#[trigger] steps[i]) by {}
}

proof fn lemma_binding_sensible(first: ThreadStart, second: ThreadStart)
    requires
        proper(first),
        proper(second),
    ensures
        all_sensible(binding(first, second)),
{
    let steps = binding(first, second);
    assert forall|i: int| 0 <= i < steps.len() implies sensible(#[trigger] steps[i]) by {}
}

proof fn lemma_first_messages_sensible()
    ensures
        all_sensible(first_messages()),
{
    let steps = first_messages();
    assert forall|i: int| 0 <= i < steps.len() implies sensible(#[trigger] steps[i]) by {}
}

proof fn lemma_second_messages_sensible()
    ensures
        all_sensible(second_messages()),
{
    let steps = second_messages();
    assert forall|i: int| 0 <= i < steps.len() implies sensible(#[trigger] steps[i]) by {}
}

proof fn lemma_running_sensible()
    ensures
        all_sensible(running()),
{
    let steps = running();
    assert forall|i: int| 0 <= i < steps.len() implies sensible(#[trigger] steps[i]) by {}
}

proof fn lemma_faulting_sensible(second: ThreadStart)
    requires
        proper(second),
    ensures
        all_sensible(faulting(second)),
{
    let steps = faulting(second);
    assert forall|i: int| 0 <= i < steps.len() implies sensible(#[trigger] steps[i]) by {}
}

proof fn lemma_retiring_sensible()
    ensures
        all_sensible(retiring()),
{
    let steps = retiring();
    assert forall|i: int| 0 <= i < steps.len() implies sensible(#[trigger] steps[i]) by {}
}

proof fn lemma_confirming_sensible()
    ensures
        all_sensible(confirming()),
{
    let steps = confirming();
    assert forall|i: int| 0 <= i < steps.len() implies sensible(#[trigger] steps[i]) by {}
}

/// Every step of a shared context has an answer that makes sense.
pub proof fn shared_contexts_expect_sensible_answers()
    ensures
        all_sensible(shared_steps()),
        all_sensible(confirming()),
{
    lemma_confirming_sensible();
    lemma_set_up_sensible();
    lemma_sensible_join(Seq::<Step>::empty(), set_up());
    let s0 = Seq::<Step>::empty() + set_up();
    lemma_contexts_sensible();
    lemma_sensible_join(s0, contexts());
    let s1 = s0 + contexts();
    lemma_preparing_sensible(start(false), start(true));
    lemma_sensible_join(s1, preparing(start(false), start(true)));
    let s2 = s1 + preparing(start(false), start(true));
    lemma_binding_sensible(start(false), start(true));
    lemma_sensible_join(s2, binding(start(false), start(true)));
    let s3 = s2 + binding(start(false), start(true));
    lemma_first_messages_sensible();
    lemma_sensible_join(s3, first_messages());
    let s4 = s3 + first_messages();
    lemma_second_messages_sensible();
    lemma_sensible_join(s4, second_messages());
    let s5 = s4 + second_messages();
    lemma_running_sensible();
    lemma_sensible_join(s5, running());
    let s6 = s5 + running();
    lemma_faulting_sensible(start(true));
    lemma_sensible_join(s6, faulting(start(true)));
    let s7 = s6 + faulting(start(true));
    lemma_retiring_sensible();
    lemma_sensible_join(s7, retiring());
    let s8 = s7 + retiring();
}

} // verus!
