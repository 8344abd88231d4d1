//! Two processes that compete for turns.

use crate::probe::layout::{
    start, thread_start, FIRST_COUNTER, FIRST_TX, METADATA_LIMIT, SECOND_TX,
};
use crate::probe::trial::{
    all_sensible, ask, lemma_sensible_join, once, part, part_label, part_steps, proper, sensible,
    step_label, Agenda, AgendaView, Part, Step,
};
use crate::probe::words::{
    Act, Holder, Mark, StatsMark, Stop, ThreadStart, Want, Who,
};
use crate::text::{append_text, utf8};
use vstd::prelude::*;

verus! {

/// A process with two threads.
pub open spec fn dispatch_own_peer(first: ThreadStart, second: ThreadStart) -> Seq<Step> {
    seq![
        once(Act::TakeOtherAllocation, Want::Done),
        once(Act::TakePairs, Want::Done),
        once(Act::LayOut, Want::Done),
        once(Act::BuildRoot, Want::Done),
        once(Act::AddProcess(Holder::Own), Want::Done),
        once(Act::SetQuota { holder: Holder::Own, records: 2, pages: 8 }, Want::Done),
        once(Act::AddInitial { who: Who::First, reservation: 1, pages: 4 }, Want::Done),
        once(Act::MakeContext { contexts: 2, metadata: METADATA_LIMIT, backed: true }, Want::Done),
        once(Act::Prepare { who: Who::First, start: first }, Want::Done),
        once(Act::BindPair { who: Who::First, pair: 0, tx: FIRST_TX }, Want::Done),
        once(Act::Start(Who::First), Want::Done),
        once(Act::Dispatch(Who::First), Want::Done),
        once(Act::AddWorker { who: Who::Second, by: Who::First, reservation: 2, pages: 4 }, Want::Done),
        once(Act::Prepare { who: Who::Second, start: second }, Want::Done),
        once(Act::BindPair { who: Who::Second, pair: 1, tx: SECOND_TX }, Want::Done),
        once(Act::StartWorker { who: Who::Second, by: Who::First }, Want::Done),
        once(Act::Yield(Who::First), Want::Done),
    ]
}

fn ask_dispatch_own_peer(steps: &mut Vec<Step>, first: ThreadStart, second: ThreadStart)
    ensures
        final(steps)@ == old(steps)@ + dispatch_own_peer(first, second),
{
    let ghost before = steps@;
    ask(steps, Act::TakeOtherAllocation, Want::Done);
    ask(steps, Act::TakePairs, Want::Done);
    ask(steps, Act::LayOut, Want::Done);
    ask(steps, Act::BuildRoot, Want::Done);
    ask(steps, Act::AddProcess(Holder::Own), Want::Done);
    ask(steps, Act::SetQuota { holder: Holder::Own, records: 2, pages: 8 }, Want::Done);
    ask(steps, Act::AddInitial { who: Who::First, reservation: 1, pages: 4 }, Want::Done);
    ask(steps, Act::MakeContext { contexts: 2, metadata: METADATA_LIMIT, backed: true }, Want::Done);
    ask(steps, Act::Prepare { who: Who::First, start: first }, Want::Done);
    ask(steps, Act::BindPair { who: Who::First, pair: 0, tx: FIRST_TX }, Want::Done);
    ask(steps, Act::Start(Who::First), Want::Done);
    ask(steps, Act::Dispatch(Who::First), Want::Done);
    ask(steps, Act::AddWorker { who: Who::Second, by: Who::First, reservation: 2, pages: 4 }, Want::Done);
    ask(steps, Act::Prepare { who: Who::Second, start: second }, Want::Done);
    ask(steps, Act::BindPair { who: Who::Second, pair: 1, tx: SECOND_TX }, Want::Done);
    ask(steps, Act::StartWorker { who: Who::Second, by: Who::First }, Want::Done);
    ask(steps, Act::Yield(Who::First), Want::Done);
    assert(steps@ =~= before + dispatch_own_peer(first, second));
}

/// A process with one thread.
pub open spec fn dispatch_other_peer(first: ThreadStart) -> Seq<Step> {
    seq![
        once(Act::AddProcess(Holder::Other), Want::Done),
        once(Act::SetQuota { holder: Holder::Other, records: 1, pages: 4 }, Want::Done),
        once(Act::AddInitial { who: Who::Foreign, reservation: 3, pages: 4 }, Want::Done),
        once(Act::MakeOtherContext, Want::Done),
        once(Act::PrepareElsewhere { who: Who::Foreign, start: first }, Want::Done),
        once(Act::BindElsewhere { who: Who::Foreign, pair: 0, tx: FIRST_TX }, Want::Done),
        once(Act::Start(Who::Foreign), Want::Done),
        once(Act::Stats, Want::KeepStats(StatsMark::Baseline)),
        once(Act::Metadata, Want::Keep(Mark::Metadata)),
        once(Act::OtherStats, Want::KeepStats(StatsMark::Other)),
        once(Act::OtherMetadata, Want::Keep(Mark::OtherMetadata)),
    ]
}

fn ask_dispatch_other_peer(steps: &mut Vec<Step>, first: ThreadStart)
    ensures
        final(steps)@ == old(steps)@ + dispatch_other_peer(first),
{
    let ghost before = steps@;
    ask(steps, Act::AddProcess(Holder::Other), Want::Done);
    ask(steps, Act::SetQuota { holder: Holder::Other, records: 1, pages: 4 }, Want::Done);
    ask(steps, Act::AddInitial { who: Who::Foreign, reservation: 3, pages: 4 }, Want::Done);
    ask(steps, Act::MakeOtherContext, Want::Done);
    ask(steps, Act::PrepareElsewhere { who: Who::Foreign, start: first }, Want::Done);
    ask(steps, Act::BindElsewhere { who: Who::Foreign, pair: 0, tx: FIRST_TX }, Want::Done);
    ask(steps, Act::Start(Who::Foreign), Want::Done);
    ask(steps, Act::Stats, Want::KeepStats(StatsMark::Baseline));
    ask(steps, Act::Metadata, Want::Keep(Mark::Metadata));
    ask(steps, Act::OtherStats, Want::KeepStats(StatsMark::Other));
    ask(steps, Act::OtherMetadata, Want::Keep(Mark::OtherMetadata));
    assert(steps@ =~= before + dispatch_other_peer(first));
}

/// Time that runs out while a dispatch is prepared costs nothing, and the
/// thread does not run.
pub open spec fn dispatch_preparation() -> Seq<Step> {
    seq![
        once(Act::Dispatch(Who::First), Want::Done),
        once(Act::Switches, Want::Keep(Mark::Work)),
        once(Act::ExpirePreparation(Who::First), Want::Stop(Stop::Expired)),
        once(Act::Stats, Want::SameStats(StatsMark::Baseline)),
        once(Act::Metadata, Want::Kept(Mark::Metadata)),
        once(Act::Switches, Want::Kept(Mark::Work)),
        once(Act::Word(FIRST_COUNTER), Want::Number(0)),
        once(Act::Yield(Who::First), Want::Done),
    ]
}

fn ask_dispatch_preparation(steps: &mut Vec<Step>)
    ensures
        final(steps)@ == old(steps)@ + dispatch_preparation(),
{
    let ghost before = steps@;
    ask(steps, Act::Dispatch(Who::First), Want::Done);
    ask(steps, Act::Switches, Want::Keep(Mark::Work));
    ask(steps, Act::ExpirePreparation(Who::First), Want::Stop(Stop::Expired));
    ask(steps, Act::Stats, Want::SameStats(StatsMark::Baseline));
    ask(steps, Act::Metadata, Want::Kept(Mark::Metadata));
    ask(steps, Act::Switches, Want::Kept(Mark::Work));
    ask(steps, Act::Word(FIRST_COUNTER), Want::Number(0));
    ask(steps, Act::Yield(Who::First), Want::Done);
    assert(steps@ =~= before + dispatch_preparation());
}

/// In a turn whose time is over no thread runs.
pub open spec fn dispatch_late() -> Seq<Step> {
    seq![
        once(Act::BeginExpiredTurn, Want::Done),
        once(Act::ChooseSibling, Want::Done),
        once(Act::TurnIsOver, Want::Flag(true)),
        once(Act::Work, Want::Keep(Mark::Work)),
        once(Act::ResumeChosen, Want::Stop(Stop::Expired)),
        once(Act::IsStopped, Want::Flag(false)),
        once(Act::Work, Want::Kept(Mark::Work)),
        once(Act::Word(FIRST_COUNTER), Want::Number(0)),
        once(Act::YieldChosen, Want::Done),
        once(Act::EndTurn, Want::Done),
    ]
}

fn ask_dispatch_late(steps: &mut Vec<Step>)
    ensures
        final(steps)@ == old(steps)@ + dispatch_late(),
{
    let ghost before = steps@;
    ask(steps, Act::BeginExpiredTurn, Want::Done);
    ask(steps, Act::ChooseSibling, Want::Done);
    ask(steps, Act::TurnIsOver, Want::Flag(true));
    ask(steps, Act::Work, Want::Keep(Mark::Work));
    ask(steps, Act::ResumeChosen, Want::Stop(Stop::Expired));
    ask(steps, Act::IsStopped, Want::Flag(false));
    ask(steps, Act::Work, Want::Kept(Mark::Work));
    ask(steps, Act::Word(FIRST_COUNTER), Want::Number(0));
    ask(steps, Act::YieldChosen, Want::Done);
    ask(steps, Act::EndTurn, Want::Done);
    assert(steps@ =~= before + dispatch_late());
}

/// The turns alternate. A thread that spins is preempted when its turn is
/// over, without a fault.
pub open spec fn dispatch_busy() -> Seq<Step> {
    seq![
        once(Act::Rotate, Want::Flag(true)),
        once(Act::MakeBusy, Want::Done),
        once(Act::BeginTurn { millis: 10, steps: 4 }, Want::Holder(Holder::Other)),
        once(Act::ChooseSibling, Want::Done),
        once(Act::ResumeChosen, Want::Stop(Stop::Preempted)),
        once(Act::OtherIsStopped, Want::Flag(false)),
        once(Act::YieldChosen, Want::Done),
        once(Act::EndTurn, Want::Done),
    ]
}

fn ask_dispatch_busy(steps: &mut Vec<Step>)
    ensures
        final(steps)@ == old(steps)@ + dispatch_busy(),
{
    let ghost before = steps@;
    ask(steps, Act::Rotate, Want::Flag(true));
    ask(steps, Act::MakeBusy, Want::Done);
    ask(steps, Act::BeginTurn { millis: 10, steps: 4 }, Want::Holder(Holder::Other));
    ask(steps, Act::ChooseSibling, Want::Done);
    ask(steps, Act::ResumeChosen, Want::Stop(Stop::Preempted));
    ask(steps, Act::OtherIsStopped, Want::Flag(false));
    ask(steps, Act::YieldChosen, Want::Done);
    ask(steps, Act::EndTurn, Want::Done);
    assert(steps@ =~= before + dispatch_busy());
}

/// Nothing was spent.
pub open spec fn dispatch_end() -> Seq<Step> {
    seq![
        once(Act::Stats, Want::SameStats(StatsMark::Baseline)),
        once(Act::Metadata, Want::Kept(Mark::Metadata)),
        once(Act::StopContext, Want::Done),
        once(Act::StopProcess(Holder::Own), Want::Done),
        once(Act::OtherStats, Want::SameStats(StatsMark::Other)),
        once(Act::OtherMetadata, Want::Kept(Mark::OtherMetadata)),
        once(Act::StopOtherContext, Want::Done),
        once(Act::StopProcess(Holder::Other), Want::Done),
    ]
}

fn ask_dispatch_end(steps: &mut Vec<Step>)
    ensures
        final(steps)@ == old(steps)@ + dispatch_end(),
{
    let ghost before = steps@;
    ask(steps, Act::Stats, Want::SameStats(StatsMark::Baseline));
    ask(steps, Act::Metadata, Want::Kept(Mark::Metadata));
    ask(steps, Act::StopContext, Want::Done);
    ask(steps, Act::StopProcess(Holder::Own), Want::Done);
    ask(steps, Act::OtherStats, Want::SameStats(StatsMark::Other));
    ask(steps, Act::OtherMetadata, Want::Kept(Mark::OtherMetadata));
    ask(steps, Act::StopOtherContext, Want::Done);
    ask(steps, Act::StopProcess(Holder::Other), Want::Done);
    assert(steps@ =~= before + dispatch_end());
}

/// What is given back, whatever was seen: both contexts before their frames.
pub open spec fn dispatch_giving_back() -> Seq<Act> {
    seq![Act::DropContext, Act::ReclaimAll]
}

fn list_dispatch_giving_back() -> (acts: Vec<Act>)
    ensures
        acts@ == dispatch_giving_back(),
{
    let mut acts: Vec<Act> = Vec::new();
    acts.push(Act::DropContext);
    acts.push(Act::ReclaimAll);
    assert(acts@ =~= dispatch_giving_back());
    acts
}

/// The threads are released after their frames were freed.
pub open spec fn dispatch_confirming() -> Seq<Step> {
    seq![
        once(Act::Release(Who::First), Want::AnyNumber),
        once(Act::Reap(Who::First), Want::Done),
        once(Act::Release(Who::Second), Want::AnyNumber),
        once(Act::Reap(Who::Second), Want::Done),
        once(Act::RemoveProcess(Holder::Own), Want::Done),
        once(Act::Release(Who::Foreign), Want::AnyNumber),
        once(Act::Reap(Who::Foreign), Want::Done),
        once(Act::RemoveProcess(Holder::Other), Want::Done),
        once(Act::CommittedPages, Want::Number(0)),
        once(Act::FreeFrames, Want::Kept(Mark::Free)),
    ]
}

fn ask_dispatch_confirming(steps: &mut Vec<Step>)
    ensures
        final(steps)@ == old(steps)@ + dispatch_confirming(),
{
    let ghost before = steps@;
    ask(steps, Act::Release(Who::First), Want::AnyNumber);
    ask(steps, Act::Reap(Who::First), Want::Done);
    ask(steps, Act::Release(Who::Second), Want::AnyNumber);
    ask(steps, Act::Reap(Who::Second), Want::Done);
    ask(steps, Act::RemoveProcess(Holder::Own), Want::Done);
    ask(steps, Act::Release(Who::Foreign), Want::AnyNumber);
    ask(steps, Act::Reap(Who::Foreign), Want::Done);
    ask(steps, Act::RemoveProcess(Holder::Other), Want::Done);
    ask(steps, Act::CommittedPages, Want::Number(0));
    ask(steps, Act::FreeFrames, Want::Kept(Mark::Free));
    assert(steps@ =~= before + dispatch_confirming());
}

/// The steps of the probe of process turns.
pub open spec fn dispatch_steps() -> Seq<Step> {
    Seq::<Step>::empty() + dispatch_own_peer(start(false), start(true)) + dispatch_other_peer(
        start(false),
    ) + dispatch_preparation() + dispatch_late() + dispatch_busy() + dispatch_end()
}

/// The parts of the probe of process turns. The turns and the thread that spins
/// are two parts.
pub open spec fn dispatch_parts() -> Seq<Part> {
    seq![
        part(
            "root and policy construction",
            dispatch_own_peer(start(false), start(true)).len() + dispatch_other_peer(
                start(false),
            ).len(),
        ),
        part(
            "timer preparation expiry restores root and continuation",
            dispatch_preparation().len(),
        ),
        part("expired preparation permits no first entry", dispatch_late().len()),
        part("process rotation and bounded repeated yields", 1),
        part(
            "busy worker is preempted without process fault",
            (dispatch_busy().len() - 1) as nat,
        ),
        part("stop and root accounting", dispatch_end().len()),
    ]
}

fn list_dispatch_parts() -> (parts: Vec<Part>)
    ensures
        parts@ == dispatch_parts(),
{
    let parts = vec![
        Part { label: "root and policy construction", count: 28 },
        Part { label: "timer preparation expiry restores root and continuation", count: 8 },
        Part { label: "expired preparation permits no first entry", count: 10 },
        Part { label: "process rotation and bounded repeated yields", count: 1 },
        Part { label: "busy worker is preempted without process fault", count: 7 },
        Part { label: "stop and root accounting", count: 8 },
    ];
    assert(parts@ =~= dispatch_parts());
    parts
}

/// Every step of the probe of process turns belongs to a part.
pub proof fn dispatch_parts_are_complete()
    ensures
        part_steps(dispatch_parts()) == dispatch_steps().len(),
{
    reveal_with_fuel(part_steps, 7);
    let parts = dispatch_parts();
    assert(parts.drop_first().drop_first() =~= parts.skip(2));
    assert(parts.skip(2).drop_first().drop_first() =~= parts.skip(4));
    assert(parts.skip(4).drop_first().drop_first() =~= Seq::<Part>::empty());
}

/// What is printed when a step of the probe of process turns is not accepted:
/// nothing where the second process got no memory, otherwise the part.
pub open spec fn dispatch_failure(at: int) -> Option<Seq<u8>> {
    match part_label(dispatch_parts(), at) {
        Some(label) if at > 0 => Some(
            utf8("native process dispatch failed: ") + utf8(label) + utf8("\n"),
        ),
        _ => None,
    }
}

/// Write what is printed when a step of the probe of process turns is not
/// accepted.
pub fn dispatch_failure_line(at: usize) -> (line: Option<Vec<u8>>)
    ensures
        match line {
            Some(l) => dispatch_failure(at as int) == Some(l@),
            None => dispatch_failure(at as int) is None,
        },
{
    let parts = list_dispatch_parts();
    match step_label(&parts, at) {
        Some(label) => {
            if at == 0 {
                return None;
            }
            let mut line: Vec<u8> = Vec::new();
            append_text(&mut line, "native process dispatch failed: ");
            append_text(&mut line, label);
            append_text(&mut line, "\n");
            assert(line@ =~= utf8("native process dispatch failed: ") + utf8(label) + utf8("\n"));
            Some(line)
        },
        None => None,
    }
}

/// The probe of process turns: two processes with unequal numbers of threads
/// get the same turns, and a turn that is over runs nobody.
pub fn dispatch_probe() -> (agenda: Agenda)
    ensures
        agenda@ == (AgendaView {
            steps: dispatch_steps(),
            closing: dispatch_giving_back(),
            confirming: dispatch_confirming(),
        }),
{
    let first = thread_start(false);
    let second = thread_start(true);
    let mut steps: Vec<Step> = Vec::new();
    ask_dispatch_own_peer(&mut steps, first, second);
    ask_dispatch_other_peer(&mut steps, first);
    ask_dispatch_preparation(&mut steps);
    ask_dispatch_late(&mut steps);
    ask_dispatch_busy(&mut steps);
    ask_dispatch_end(&mut steps);
    let mut last: Vec<Step> = Vec::new();
    ask_dispatch_confirming(&mut last);
    assert(last@ =~= dispatch_confirming());
    Agenda { steps, closing: list_dispatch_giving_back(), confirming: last }
}

proof fn lemma_dispatch_own_peer_sensible(first: ThreadStart, second: ThreadStart)
    requires
        proper(first),
        proper(second),
    ensures
        all_sensible(dispatch_own_peer(first, second)),
{
    let steps = dispatch_own_peer(first, second);
    assert forall|i: int| 0 <= i < steps.len() implies sensible(#[trigger] steps[i]) by {}
}

proof fn lemma_dispatch_other_peer_sensible(first: ThreadStart)
    requires
        proper(first),
    ensures
        all_sensible(dispatch_other_peer(first)),
{
    let steps = dispatch_other_peer(first);
    assert forall|i: int| 0 <= i < steps.len() implies sensible(#[trigger] steps[i]) by {}
}

proof fn lemma_dispatch_preparation_sensible()
    ensures
        all_sensible(dispatch_preparation()),
{
    let steps = dispatch_preparation();
    assert forall|i: int| 0 <= i < steps.len() implies sensible(#[trigger] steps[i]) by {}
}

proof fn lemma_dispatch_late_sensible()
    ensures
        all_sensible(dispatch_late()),
{
    let steps = dispatch_late();
    assert forall|i: int| 0 <= i < steps.len() implies sensible(#[trigger] steps[i]) by {}
}

proof fn lemma_dispatch_busy_sensible()
    ensures
        all_sensible(dispatch_busy()),
{
    let steps = dispatch_busy();
    assert forall|i: int| 0 <= i < steps.len() implies sensible(#[trigger] steps[i]) by {}
}

proof fn lemma_dispatch_end_sensible()
    ensures
        all_sensible(dispatch_end()),
{
    let steps = dispatch_end();
    assert forall|i: int| 0 <= i < steps.len() implies sensible(#[trigger] steps[i]) by {}
}

proof fn lemma_dispatch_confirming_sensible()
    ensures
        all_sensible(dispatch_confirming()),
{
    let steps = dispatch_confirming();
    assert forall|i: int| 0 <= i < steps.len() implies sensible(#[trigger] steps[i]) by {}
}

/// Every step of a dispatch has an answer that makes sense.
pub proof fn dispatches_expect_sensible_answers()
    ensures
        all_sensible(dispatch_steps()),
        all_sensible(dispatch_confirming()),
{
    lemma_dispatch_confirming_sensible();
    lemma_dispatch_own_peer_sensible(start(false), start(true));
    lemma_sensible_join(Seq::<Step>::empty(), dispatch_own_peer(start(false), start(true)));
    let s0 = Seq::<Step>::empty() + dispatch_own_peer(start(false), start(true));
    lemma_dispatch_other_peer_sensible(start(false));
    lemma_sensible_join(s0, dispatch_other_peer(start(false)));
    let s1 = s0 + dispatch_other_peer(start(false));
    lemma_dispatch_preparation_sensible();
    lemma_sensible_join(s1, dispatch_preparation());
    let s2 = s1 + dispatch_preparation();
    lemma_dispatch_late_sensible();
    lemma_sensible_join(s2, dispatch_late());
    let s3 = s2 + dispatch_late();
    lemma_dispatch_busy_sensible();
    lemma_sensible_join(s3, dispatch_busy());
    let s4 = s3 + dispatch_busy();
    lemma_dispatch_end_sensible();
    lemma_sensible_join(s4, dispatch_end());
    let s5 = s4 + dispatch_end();
}

} // verus!
