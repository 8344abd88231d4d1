//! Heap requests of two threads.

use crate::probe::layout::{
    holds_word, poke_word, start, thread_start, Place, Poke, FIRST_TX, METADATA_LIMIT, SECOND_TX,
};
use crate::probe::trial::{
    all_sensible, ask, lemma_sensible_join, once, proper, sensible, Agenda, AgendaView, Step,
};
use crate::probe::words::{
    Act, Holder, Mark, Payload, Resumed, StatsMark, Stop, ThreadStart, Want, Who,
};
use vstd::prelude::*;

verus! {

/// First heap page.
pub const HEAP: u64 = 0x4000_0fff_e000;

/// Second heap page.
pub const HEAP_SECOND_PAGE: u64 = 0x4000_0fff_f000;

/// Third heap page, behind the next page table.
pub const HEAP_THIRD_PAGE: u64 = 0x4000_1000_0000;

/// A process with two threads, whose heap is bound once.
pub open spec fn heap_set_up() -> Seq<Step> {
    seq![
        once(Act::TakeSpareFrames, Want::Done),
        once(Act::TakePairs, Want::Done),
        once(Act::LayOut, Want::Done),
        once(Act::BuildRoot, Want::Done),
        once(Act::AddProcess(Holder::Own), Want::Done),
        once(Act::MakeContext { contexts: 2, metadata: METADATA_LIMIT, backed: true }, Want::Done),
        once(Act::SetQuota { holder: Holder::Own, records: 2, pages: 8 }, Want::Done),
        once(Act::AddInitial { who: Who::First, reservation: 1, pages: 4 }, Want::Done),
        once(Act::Start(Who::First), Want::Done),
        once(Act::Dispatch(Who::First), Want::Done),
        once(Act::AddWorker { who: Who::Second, by: Who::First, reservation: 2, pages: 4 }, Want::Done),
        once(Act::StartWorker { who: Who::Second, by: Who::First }, Want::Done),
        once(Act::Yield(Who::First), Want::Done),
        once(Act::BindHeap, Want::Done),
        once(Act::BindHeap, Want::Refused),
    ]
}

fn ask_heap_set_up(steps: &mut Vec<Step>)
    ensures
        final(steps)@ == old(steps)@ + heap_set_up(),
{
    let ghost before = steps@;
    ask(steps, Act::TakeSpareFrames, Want::Done);
    ask(steps, Act::TakePairs, Want::Done);
    ask(steps, Act::LayOut, Want::Done);
    ask(steps, Act::BuildRoot, Want::Done);
    ask(steps, Act::AddProcess(Holder::Own), Want::Done);
    ask(steps, Act::MakeContext { contexts: 2, metadata: METADATA_LIMIT, backed: true }, Want::Done);
    ask(steps, Act::SetQuota { holder: Holder::Own, records: 2, pages: 8 }, Want::Done);
    ask(steps, Act::AddInitial { who: Who::First, reservation: 1, pages: 4 }, Want::Done);
    ask(steps, Act::Start(Who::First), Want::Done);
    ask(steps, Act::Dispatch(Who::First), Want::Done);
    ask(steps, Act::AddWorker { who: Who::Second, by: Who::First, reservation: 2, pages: 4 }, Want::Done);
    ask(steps, Act::StartWorker { who: Who::Second, by: Who::First }, Want::Done);
    ask(steps, Act::Yield(Who::First), Want::Done);
    ask(steps, Act::BindHeap, Want::Done);
    ask(steps, Act::BindHeap, Want::Refused);
    assert(steps@ =~= before + heap_set_up());
}

/// Both threads are prepared and told what to do.
pub open spec fn heap_threads(first: ThreadStart, second: ThreadStart, mode: u64) -> Seq<Step> {
    seq![
        once(Act::Prepare { who: Who::First, start: first }, Want::Done),
        once(Act::BindPair { who: Who::First, pair: 0, tx: FIRST_TX }, Want::Done),
        once(Act::SetMode { who: Who::First, mode }, Want::Done),
        once(Act::Prepare { who: Who::Second, start: second }, Want::Done),
        once(Act::BindPair { who: Who::Second, pair: 1, tx: SECOND_TX }, Want::Done),
        once(Act::SetMode { who: Who::Second, mode }, Want::Done),
    ]
}

fn ask_heap_threads(steps: &mut Vec<Step>, first: ThreadStart, second: ThreadStart, mode: u64)
    ensures
        final(steps)@ == old(steps)@ + heap_threads(first, second, mode),
{
    let ghost before = steps@;
    ask(steps, Act::Prepare { who: Who::First, start: first }, Want::Done);
    ask(steps, Act::BindPair { who: Who::First, pair: 0, tx: FIRST_TX }, Want::Done);
    ask(steps, Act::SetMode { who: Who::First, mode }, Want::Done);
    ask(steps, Act::Prepare { who: Who::Second, start: second }, Want::Done);
    ask(steps, Act::BindPair { who: Who::Second, pair: 1, tx: SECOND_TX }, Want::Done);
    ask(steps, Act::SetMode { who: Who::Second, mode }, Want::Done);
    assert(steps@ =~= before + heap_threads(first, second, mode));
}

/// A thread asks for a page. Its request is taken up once, and the thread does
/// not run before it is answered.
pub open spec fn heap_capture(who: Who) -> Seq<Step> {
    seq![
        once(Act::Enter(who), Want::Stop(Stop::HeapGrowth)),
        once(Act::IsCaller(who), Want::Flag(true)),
        once(Act::WantedPages(who), Want::Number(1)),
        once(Act::ClaimHeap(who), Want::Done),
        once(Act::Work, Want::Keep(Mark::Work)),
        once(Act::ClaimHeap(who), Want::Refused),
        once(Act::Resume { who, how: Resumed::HeapGrown { status: 0, bytes: 4096 }, millis: 20 }, Want::Refused),
        once(Act::IsStopped, Want::Flag(false)),
        once(Act::Work, Want::Kept(Mark::Work)),
    ]
}

fn ask_heap_capture(steps: &mut Vec<Step>, who: Who)
    ensures
        final(steps)@ == old(steps)@ + heap_capture(who),
{
    let ghost before = steps@;
    ask(steps, Act::Enter(who), Want::Stop(Stop::HeapGrowth));
    ask(steps, Act::IsCaller(who), Want::Flag(true));
    ask(steps, Act::WantedPages(who), Want::Number(1));
    ask(steps, Act::ClaimHeap(who), Want::Done);
    ask(steps, Act::Work, Want::Keep(Mark::Work));
    ask(steps, Act::ClaimHeap(who), Want::Refused);
    ask(steps, Act::Resume { who, how: Resumed::HeapGrown { status: 0, bytes: 4096 }, millis: 20 }, Want::Refused);
    ask(steps, Act::IsStopped, Want::Flag(false));
    ask(steps, Act::Work, Want::Kept(Mark::Work));
    assert(steps@ =~= before + heap_capture(who));
}

/// Success cannot be reported before pages are mapped.
pub open spec fn heap_early_answer() -> Seq<Step> {
    seq![
        once(Act::AnswerHeap { who: Who::First, grown: true }, Want::Refused),
        once(Act::Work, Want::Keep(Mark::Work)),
        once(Act::Stats, Want::KeepStats(StatsMark::Baseline)),
    ]
}

fn ask_heap_early_answer(steps: &mut Vec<Step>)
    ensures
        final(steps)@ == old(steps)@ + heap_early_answer(),
{
    let ghost before = steps@;
    ask(steps, Act::AnswerHeap { who: Who::First, grown: true }, Want::Refused);
    ask(steps, Act::Work, Want::Keep(Mark::Work));
    ask(steps, Act::Stats, Want::KeepStats(StatsMark::Baseline));
    assert(steps@ =~= before + heap_early_answer());
}

/// Without page tables for the second page mapping fails, the first page stays
/// mapped, and the process is stopped.
pub open spec fn heap_cut_short(frame: u64) -> Seq<Step> {
    seq![
        once(Act::CommitHeap { who: Who::First, skip: 1, count: 2 }, Want::Refused),
        once(Act::IsStopped, Want::Flag(true)),
        once(Act::Leaf(HEAP_SECOND_PAGE), Want::Number(frame)),
        once(Act::Leaf(HEAP_THIRD_PAGE), Want::Refused),
        once(Act::AnswerHeap { who: Who::First, grown: false }, Want::Refused),
        once(Act::Work, Want::Kept(Mark::Work)),
    ]
}

fn ask_heap_cut_short(steps: &mut Vec<Step>, frame: u64)
    ensures
        final(steps)@ == old(steps)@ + heap_cut_short(frame),
{
    let ghost before = steps@;
    ask(steps, Act::CommitHeap { who: Who::First, skip: 1, count: 2 }, Want::Refused);
    ask(steps, Act::IsStopped, Want::Flag(true));
    ask(steps, Act::Leaf(HEAP_SECOND_PAGE), Want::Number(frame));
    ask(steps, Act::Leaf(HEAP_THIRD_PAGE), Want::Refused);
    ask(steps, Act::AnswerHeap { who: Who::First, grown: false }, Want::Refused);
    ask(steps, Act::Work, Want::Kept(Mark::Work));
    assert(steps@ =~= before + heap_cut_short(frame));
}

/// Both requests are answered out of order, each with its own page and only
/// with the truth.
pub open spec fn heap_growing() -> Seq<Step> {
    seq![
        once(Act::Work, Want::Keep(Mark::Work)),
        once(Act::CommitHeap { who: Who::First, skip: 1, count: 1 }, Want::Done),
        once(Act::CommitHeap { who: Who::First, skip: 1, count: 1 }, Want::Refused),
        once(Act::CommitHeap { who: Who::Second, skip: 2, count: 1 }, Want::Done),
        once(Act::AnswerHeap { who: Who::Second, grown: false }, Want::Refused),
        once(Act::AnswerHeap { who: Who::Second, grown: true }, Want::Done),
        once(Act::AnswerHeap { who: Who::First, grown: true }, Want::Done),
        once(Act::Stats, Want::Mapped { mark: StatsMark::Baseline, gained: 2, lost: 0 }),
    ]
}

fn ask_heap_growing(steps: &mut Vec<Step>)
    ensures
        final(steps)@ == old(steps)@ + heap_growing(),
{
    let ghost before = steps@;
    ask(steps, Act::Work, Want::Keep(Mark::Work));
    ask(steps, Act::CommitHeap { who: Who::First, skip: 1, count: 1 }, Want::Done);
    ask(steps, Act::CommitHeap { who: Who::First, skip: 1, count: 1 }, Want::Refused);
    ask(steps, Act::CommitHeap { who: Who::Second, skip: 2, count: 1 }, Want::Done);
    ask(steps, Act::AnswerHeap { who: Who::Second, grown: false }, Want::Refused);
    ask(steps, Act::AnswerHeap { who: Who::Second, grown: true }, Want::Done);
    ask(steps, Act::AnswerHeap { who: Who::First, grown: true }, Want::Done);
    ask(steps, Act::Stats, Want::Mapped { mark: StatsMark::Baseline, gained: 2, lost: 0 });
    assert(steps@ =~= before + heap_growing());
}

/// Both requests are refused, which costs nothing.
pub open spec fn heap_refusing() -> Seq<Step> {
    seq![
        once(Act::Work, Want::Keep(Mark::Work)),
        once(Act::AnswerHeap { who: Who::Second, grown: false }, Want::Done),
        once(Act::AnswerHeap { who: Who::First, grown: false }, Want::Done),
        once(Act::Stats, Want::SameStats(StatsMark::Baseline)),
    ]
}

fn ask_heap_refusing(steps: &mut Vec<Step>)
    ensures
        final(steps)@ == old(steps)@ + heap_refusing(),
{
    let ghost before = steps@;
    ask(steps, Act::Work, Want::Keep(Mark::Work));
    ask(steps, Act::AnswerHeap { who: Who::Second, grown: false }, Want::Done);
    ask(steps, Act::AnswerHeap { who: Who::First, grown: false }, Want::Done);
    ask(steps, Act::Stats, Want::SameStats(StatsMark::Baseline));
    assert(steps@ =~= before + heap_refusing());
}

/// An answered request is gone, and both threads go on.
pub open spec fn heap_going_on() -> Seq<Step> {
    seq![
        once(Act::ClaimHeap(Who::First), Want::Refused),
        once(Act::ClaimHeap(Who::Second), Want::Refused),
        once(Act::Work, Want::Kept(Mark::Work)),
        once(Act::Wake(Who::Second), Want::Done),
        once(Act::Wake(Who::First), Want::Done),
        once(Act::Enter(Who::Second), Want::Stop(Stop::Yielded)),
        once(Act::Enter(Who::First), Want::Stop(Stop::Yielded)),
    ]
}

fn ask_heap_going_on(steps: &mut Vec<Step>)
    ensures
        final(steps)@ == old(steps)@ + heap_going_on(),
{
    let ghost before = steps@;
    ask(steps, Act::ClaimHeap(Who::First), Want::Refused);
    ask(steps, Act::ClaimHeap(Who::Second), Want::Refused);
    ask(steps, Act::Work, Want::Kept(Mark::Work));
    ask(steps, Act::Wake(Who::Second), Want::Done);
    ask(steps, Act::Wake(Who::First), Want::Done);
    ask(steps, Act::Enter(Who::Second), Want::Stop(Stop::Yielded));
    ask(steps, Act::Enter(Who::First), Want::Stop(Stop::Yielded));
    assert(steps@ =~= before + heap_going_on());
}

/// Each thread wrote its marker into its own page.
pub open spec fn heap_contents_seen() -> Seq<Step> {
    seq![
        once(Act::Word(HEAP_SECOND_PAGE), Want::Number(11)),
        once(Act::Word(HEAP_THIRD_PAGE), Want::Number(22)),
    ]
}

fn ask_heap_contents_seen(steps: &mut Vec<Step>)
    ensures
        final(steps)@ == old(steps)@ + heap_contents_seen(),
{
    let ghost before = steps@;
    ask(steps, Act::Word(HEAP_SECOND_PAGE), Want::Number(11));
    ask(steps, Act::Word(HEAP_THIRD_PAGE), Want::Number(22));
    assert(steps@ =~= before + heap_contents_seen());
}

/// The process is stopped.
pub open spec fn heap_stopping() -> Seq<Step> {
    seq![
        once(Act::StopContext, Want::Done),
    ]
}

fn ask_heap_stopping(steps: &mut Vec<Step>)
    ensures
        final(steps)@ == old(steps)@ + heap_stopping(),
{
    let ghost before = steps@;
    ask(steps, Act::StopContext, Want::Done);
    assert(steps@ =~= before + heap_stopping());
}

/// The threads are released after the context is gone.
pub open spec fn heap_end() -> Seq<Step> {
    seq![
        once(Act::StopProcess(Holder::Own), Want::Done),
        once(Act::DropContext, Want::Done),
        once(Act::Release(Who::First), Want::AnyNumber),
        once(Act::Reap(Who::First), Want::Done),
        once(Act::Release(Who::Second), Want::AnyNumber),
        once(Act::Reap(Who::Second), Want::Done),
        once(Act::RemoveProcess(Holder::Own), Want::Done),
        once(Act::CommittedPages, Want::Number(0)),
    ]
}

fn ask_heap_end(steps: &mut Vec<Step>)
    ensures
        final(steps)@ == old(steps)@ + heap_end(),
{
    let ghost before = steps@;
    ask(steps, Act::StopProcess(Holder::Own), Want::Done);
    ask(steps, Act::DropContext, Want::Done);
    ask(steps, Act::Release(Who::First), Want::AnyNumber);
    ask(steps, Act::Reap(Who::First), Want::Done);
    ask(steps, Act::Release(Who::Second), Want::AnyNumber);
    ask(steps, Act::Reap(Who::Second), Want::Done);
    ask(steps, Act::RemoveProcess(Holder::Own), Want::Done);
    ask(steps, Act::CommittedPages, Want::Number(0));
    assert(steps@ =~= before + heap_end());
}

/// What is given back, whatever was seen: the context before its frames.
pub open spec fn heap_giving_back() -> Seq<Act> {
    seq![Act::DropContext, Act::FreeSpareFrames, Act::ReclaimAll]
}

fn list_heap_giving_back() -> (acts: Vec<Act>)
    ensures
        acts@ == heap_giving_back(),
{
    let mut acts: Vec<Act> = Vec::new();
    acts.push(Act::DropContext);
    acts.push(Act::FreeSpareFrames);
    acts.push(Act::ReclaimAll);
    assert(acts@ =~= heap_giving_back());
    acts
}

/// Nothing is missing.
pub open spec fn heap_confirming() -> Seq<Step> {
    seq![
        once(Act::FreeFrames, Want::Kept(Mark::Free)),
    ]
}

fn ask_heap_confirming(steps: &mut Vec<Step>)
    ensures
        final(steps)@ == old(steps)@ + heap_confirming(),
{
    let ghost before = steps@;
    ask(steps, Act::FreeFrames, Want::Kept(Mark::Free));
    assert(steps@ =~= before + heap_confirming());
}

/// What happens to the two requests.
#[derive(Clone, Copy, Debug, PartialEq, Eq, Structural)]
pub enum HeapCase {
    /// Both are granted.
    Granted,
    /// Both are refused.
    Refused,
    /// Mapping fails in the middle.
    CutShort,
}

/// The word that tells the program whether its request is granted.
pub open spec fn heap_mode(case: HeapCase) -> u64 {
    if case == HeapCase::Refused {
        8
    } else {
        7
    }
}

/// The steps of a case; `frame` is the second of the spare frames.
pub open spec fn heap_steps(case: HeapCase, frame: u64) -> Seq<Step> {
    let begin = Seq::<Step>::empty() + heap_set_up() + heap_threads(
        start(false),
        start(true),
        heap_mode(case),
    ) + heap_capture(Who::First) + heap_early_answer();
    match case {
        HeapCase::CutShort => begin + heap_cut_short(frame) + heap_end(),
        HeapCase::Granted => begin + heap_capture(Who::Second) + heap_growing() + heap_going_on()
            + heap_contents_seen() + heap_stopping() + heap_end(),
        HeapCase::Refused => begin + heap_capture(Who::Second) + heap_refusing() + heap_going_on()
            + heap_stopping() + heap_end(),
    }
}

/// The probe of heap requests: sibling requests are held and answered on
/// their own, and a mapping that fails in the middle stops the process.
pub fn heap_probe(case: HeapCase, frame: u64) -> (agenda: Agenda)
    ensures
        agenda@ == (AgendaView {
            steps: heap_steps(case, frame),
            closing: heap_giving_back(),
            confirming: heap_confirming(),
        }),
{
    let first = thread_start(false);
    let second = thread_start(true);
    let mut steps: Vec<Step> = Vec::new();
    let mode: u64 = match case {
        HeapCase::Refused => 8,
        _ => 7,
    };
    ask_heap_set_up(&mut steps);
    ask_heap_threads(&mut steps, first, second, mode);
    ask_heap_capture(&mut steps, Who::First);
    ask_heap_early_answer(&mut steps);
    match case {
        HeapCase::CutShort => {
            ask_heap_cut_short(&mut steps, frame);
        },
        HeapCase::Granted => {
            ask_heap_capture(&mut steps, Who::Second);
            ask_heap_growing(&mut steps);
            ask_heap_going_on(&mut steps);
            ask_heap_contents_seen(&mut steps);
            ask_heap_stopping(&mut steps);
        },
        HeapCase::Refused => {
            ask_heap_capture(&mut steps, Who::Second);
            ask_heap_refusing(&mut steps);
            ask_heap_going_on(&mut steps);
            ask_heap_stopping(&mut steps);
        },
    }
    ask_heap_end(&mut steps);
    let mut last: Vec<Step> = Vec::new();
    ask_heap_confirming(&mut last);
    assert(last@ =~= heap_confirming());
    Agenda { steps, closing: list_heap_giving_back(), confirming: last }
}

/// The cases in order.
pub fn heap_cases() -> (cases: Vec<HeapCase>)
    ensures
        cases@ == seq![HeapCase::Granted, HeapCase::Refused, HeapCase::CutShort],
{
    let mut cases: Vec<HeapCase> = Vec::new();
    cases.push(HeapCase::Granted);
    cases.push(HeapCase::Refused);
    cases.push(HeapCase::CutShort);
    assert(cases@ =~= seq![HeapCase::Granted, HeapCase::Refused, HeapCase::CutShort]);
    cases
}

/// What the threads find beside the usual contents: the address of the heap
/// page that each will write, and the heap's length up to it.
pub open spec fn heap_contents() -> Seq<Poke> {
    seq![
        poke_word(Place::FirstTls, 56, HEAP_SECOND_PAGE),
        poke_word(Place::FirstTls, 64, 0x2000),
        poke_word(Place::SecondTls, 56, HEAP_THIRD_PAGE),
        poke_word(Place::SecondTls, 64, 0x3000),
    ]
}

/// What to write beside the usual contents.
pub fn list_heap_contents() -> (pokes: Vec<Poke>)
    ensures
        pokes@ == heap_contents(),
{
    let mut pokes: Vec<Poke> = Vec::new();
    pokes.push(
        Poke { place: Place::FirstTls, offset: 56, payload: Payload::Word(HEAP_SECOND_PAGE) },
    );
    pokes.push(Poke { place: Place::FirstTls, offset: 64, payload: Payload::Word(0x2000) });
    pokes.push(
        Poke { place: Place::SecondTls, offset: 56, payload: Payload::Word(HEAP_THIRD_PAGE) },
    );
    pokes.push(Poke { place: Place::SecondTls, offset: 64, payload: Payload::Word(0x3000) });
    assert(pokes@ =~= heap_contents());
    pokes
}

/// The third heap page lies behind the next page table, so that mapping the
/// last two pages needs a table more than mapping the first two.
pub proof fn the_third_page_needs_another_table()
    ensures
        HEAP as int / 0x20_0000 == HEAP_SECOND_PAGE as int / 0x20_0000,
        HEAP_THIRD_PAGE as int / 0x20_0000 == HEAP_SECOND_PAGE as int / 0x20_0000 + 1,
        HEAP_SECOND_PAGE == HEAP + 4096,
        HEAP_THIRD_PAGE == HEAP + 8192,
{
}

/// A growth is refused in one mode only, and each thread of the others finds its
/// page and how far the heap then reaches.
pub proof fn heap_modes_and_words(case: HeapCase)
    ensures
        heap_mode(HeapCase::Refused) == 8,
        heap_mode(HeapCase::Granted) == 7,
        heap_mode(HeapCase::CutShort) == 7,
        heap_contents() == seq![
            holds_word(Place::FirstTls, 56, 0x4000_0fff_f000),
            holds_word(Place::FirstTls, 64, 0x2000),
            holds_word(Place::SecondTls, 56, 0x4000_1000_0000),
            holds_word(Place::SecondTls, 64, 0x3000),
        ],
{
}

proof fn lemma_heap_set_up_sensible()
    ensures
        all_sensible(heap_set_up()),
{
    let steps = heap_set_up();
    assert forall|i: int| 0 <= i < steps.len() implies sensible(#[trigger] steps[i]) by {}
}

proof fn lemma_heap_threads_sensible(first: ThreadStart, second: ThreadStart, mode: u64)
    requires
        proper(first),
        proper(second),
    ensures
        all_sensible(heap_threads(first, second, mode)),
{
    let steps = heap_threads(first, second, mode);
    assert forall|i: int| 0 <= i < steps.len() implies sensible(#[trigger] steps[i]) by {}
}

proof fn lemma_heap_capture_sensible(who: Who)
    requires
        who != Who::Foreign,
        who != Who::Former,
    ensures
        all_sensible(heap_capture(who)),
{
    let steps = heap_capture(who);
    assert forall|i: int| 0 <= i < steps.len() implies sensible(#[trigger] steps[i]) by {}
}

proof fn lemma_heap_early_answer_sensible()
    ensures
        all_sensible(heap_early_answer()),
{
    let steps = heap_early_answer();
    assert forall|i: int| 0 <= i < steps.len() implies sensible(#[trigger] steps[i]) by {}
}

proof fn lemma_heap_cut_short_sensible(frame: u64)
    ensures
        all_sensible(heap_cut_short(frame)),
{
    let steps = heap_cut_short(frame);
    assert forall|i: int| 0 <= i < steps.len() implies sensible(#[trigger] steps[i]) by {}
}

proof fn lemma_heap_growing_sensible()
    ensures
        all_sensible(heap_growing()),
{
    let steps = heap_growing();
    assert forall|i: int| 0 <= i < steps.len() implies sensible(#[trigger] steps[i]) by {}
}

proof fn lemma_heap_refusing_sensible()
    ensures
        all_sensible(heap_refusing()),
{
    let steps = heap_refusing();
    assert forall|i: int| 0 <= i < steps.len() implies sensible(#[trigger] steps[i]) by {}
}

proof fn lemma_heap_going_on_sensible()
    ensures
        all_sensible(heap_going_on()),
{
    let steps = heap_going_on();
    assert forall|i: int| 0 <= i < steps.len() implies sensible(#[trigger] steps[i]) by {}
}

proof fn lemma_heap_contents_seen_sensible()
    ensures
        all_sensible(heap_contents_seen()),
{
    let steps = heap_contents_seen();
    assert forall|i: int| 0 <= i < steps.len() implies sensible(#[trigger] steps[i]) by {}
}

proof fn lemma_heap_stopping_sensible()
    ensures
        all_sensible(heap_stopping()),
{
    let steps = heap_stopping();
    assert forall|i: int| 0 <= i < steps.len() implies sensible(#[trigger] steps[i]) by {}
}

proof fn lemma_heap_end_sensible()
    ensures
        all_sensible(heap_end()),
{
    let steps = heap_end();
    assert forall|i: int| 0 <= i < steps.len() implies sensible(#[trigger] steps[i]) by {}
}

proof fn lemma_heap_confirming_sensible()
    ensures
        all_sensible(heap_confirming()),
{
    let steps = heap_confirming();
    assert forall|i: int| 0 <= i < steps.len() implies sensible(#[trigger] steps[i]) by {}
}

/// Every step of a heap growth has an answer that makes sense.
pub proof fn heap_growths_expect_sensible_answers(case: HeapCase, frame: u64)
    ensures
        all_sensible(heap_steps(case, frame)),
        all_sensible(heap_confirming()),
{
    lemma_heap_confirming_sensible();
    lemma_heap_set_up_sensible();
    lemma_sensible_join(Seq::<Step>::empty(), heap_set_up());
    let s0 = Seq::<Step>::empty() + heap_set_up();
    lemma_heap_threads_sensible(start(false), start(true), heap_mode(case));
    lemma_sensible_join(s0, heap_threads(start(false), start(true), heap_mode(case)));
    let s1 = s0 + heap_threads(start(false), start(true), heap_mode(case));
    lemma_heap_capture_sensible(Who::First);
    lemma_sensible_join(s1, heap_capture(Who::First));
    let s2 = s1 + heap_capture(Who::First);
    lemma_heap_early_answer_sensible();
    lemma_sensible_join(s2, heap_early_answer());
    let s3 = s2 + heap_early_answer();
    match case {
        HeapCase::CutShort => {
            lemma_heap_cut_short_sensible(frame);
            lemma_sensible_join(s3, heap_cut_short(frame));
            let t0 = s3 + heap_cut_short(frame);
            lemma_heap_end_sensible();
            lemma_sensible_join(t0, heap_end());
            let t1 = t0 + heap_end();
        },
        HeapCase::Granted => {
            lemma_heap_capture_sensible(Who::Second);
            lemma_sensible_join(s3, heap_capture(Who::Second));
            let t0 = s3 + heap_capture(Who::Second);
            lemma_heap_growing_sensible();
            lemma_sensible_join(t0, heap_growing());
            let t1 = t0 + heap_growing();
            lemma_heap_going_on_sensible();
            lemma_sensible_join(t1, heap_going_on());
            let t2 = t1 + heap_going_on();
            lemma_heap_contents_seen_sensible();
            lemma_sensible_join(t2, heap_contents_seen());
            let t3 = t2 + heap_contents_seen();
            lemma_heap_stopping_sensible();
            lemma_sensible_join(t3, heap_stopping());
            let t4 = t3 + heap_stopping();
            lemma_heap_end_sensible();
            lemma_sensible_join(t4, heap_end());
            let t5 = t4 + heap_end();
        },
        HeapCase::Refused => {
            lemma_heap_capture_sensible(Who::Second);
            lemma_sensible_join(s3, heap_capture(Who::Second));
            let t0 = s3 + heap_capture(Who::Second);
            lemma_heap_refusing_sensible();
            lemma_sensible_join(t0, heap_refusing());
            let t1 = t0 + heap_refusing();
            lemma_heap_going_on_sensible();
            lemma_sensible_join(t1, heap_going_on());
            let t2 = t1 + heap_going_on();
            lemma_heap_stopping_sensible();
            lemma_sensible_join(t2, heap_stopping());
            let t3 = t2 + heap_stopping();
            lemma_heap_end_sensible();
            lemma_sensible_join(t3, heap_end());
            let t4 = t3 + heap_end();
        },
    }
}

} // verus!
