//! Calls of two threads that are held while the other thread runs.

use crate::bytes::append_bytes;
use crate::probe::layout::{
    start, thread_start, FIRST_COUNTER, FIRST_RX, FIRST_TX, METADATA_LIMIT, SECOND_COUNTER,
    SECOND_TX,
};
use crate::probe::trial::{
    all_sensible, append_steps, ask, lemma_sensible_join, once, part, part_label, part_steps,
    proper, sensible, step_label, Agenda, AgendaView, Part, Step,
};
use crate::text::{append_decimal, append_text, decimal, utf8};
use crate::probe::words::{
    Act, Holder, Mark, Payload, Resumed, StatsMark, Stop, ThreadStart, Want, Who,
};
use vstd::prelude::*;

verus! {

/// The handle that the program calls through.
pub const PROBED_HANDLE: u64 = 0x12_3456;

/// A status that no call has.
pub const UNKNOWN_STATUS: u64 = 0xffff_ffff;

/// Where the first thread's message holds its marker.
pub const FIRST_TX_MARKER: u64 = 0x4000_0001_c008;

/// What the sibling writes over the marker.
pub const OVERWRITTEN: u64 = 0xba_dbad;

/// Sizes of a call.
#[derive(Clone, Copy, Debug, PartialEq, Eq, Structural)]
pub struct CallShape {
    /// Bytes of the request.
    pub request: u64,
    /// Bytes that the reply may have.
    pub reply: u64,
    /// Whether the request fills its page.
    pub full: bool,
}

/// A request of three words and a reply of one.
pub open spec fn usual_shape() -> CallShape {
    CallShape { request: 24, reply: 8, full: false }
}

/// A request and a reply of a page.
pub open spec fn full_shape() -> CallShape {
    CallShape { request: 4096, reply: 4096, full: true }
}

/// A request of three words and no reply.
pub open spec fn silent_shape() -> CallShape {
    CallShape { request: 24, reply: 0, full: false }
}

/// Two processes with an address space each; the first has two threads.
pub open spec fn handle_set_up(first: ThreadStart, second: ThreadStart) -> Seq<Step> {
    seq![
        once(Act::TakeOtherAllocation, Want::Done),
        once(Act::TakePairs, Want::Done),
        once(Act::LayOut, Want::Done),
        once(Act::BuildRoot, Want::Done),
        once(Act::AddProcess(Holder::Own), Want::Done),
        once(Act::MakeContext { contexts: 2, metadata: METADATA_LIMIT, backed: true }, Want::Done),
        once(Act::MakeOtherContext, Want::Done),
        once(Act::SetQuota { holder: Holder::Own, records: 2, pages: 8 }, Want::Done),
        once(Act::AddInitial { who: Who::First, reservation: 1, pages: 4 }, Want::Done),
        once(Act::Start(Who::First), Want::Done),
        once(Act::Dispatch(Who::First), Want::Done),
        once(Act::AddWorker { who: Who::Second, by: Who::First, reservation: 2, pages: 4 }, Want::Done),
        once(Act::StartWorker { who: Who::Second, by: Who::First }, Want::Done),
        once(Act::Yield(Who::First), Want::Done),
        once(Act::Prepare { who: Who::First, start: first }, Want::Done),
        once(Act::BindPair { who: Who::First, pair: 0, tx: FIRST_TX }, Want::Done),
        once(Act::Prepare { who: Who::Second, start: second }, Want::Done),
        once(Act::BindPair { who: Who::Second, pair: 1, tx: SECOND_TX }, Want::Done),
        once(Act::Stats, Want::KeepStats(StatsMark::Baseline)),
        once(Act::Metadata, Want::Keep(Mark::Metadata)),
    ]
}

fn ask_handle_set_up(steps: &mut Vec<Step>, first: ThreadStart, second: ThreadStart)
    ensures
        final(steps)@ == old(steps)@ + handle_set_up(first, second),
{
    let ghost before = steps@;
    ask(steps, Act::TakeOtherAllocation, Want::Done);
    ask(steps, Act::TakePairs, Want::Done);
    ask(steps, Act::LayOut, Want::Done);
    ask(steps, Act::BuildRoot, Want::Done);
    ask(steps, Act::AddProcess(Holder::Own), Want::Done);
    ask(steps, Act::MakeContext { contexts: 2, metadata: METADATA_LIMIT, backed: true }, Want::Done);
    ask(steps, Act::MakeOtherContext, Want::Done);
    ask(steps, Act::SetQuota { holder: Holder::Own, records: 2, pages: 8 }, Want::Done);
    ask(steps, Act::AddInitial { who: Who::First, reservation: 1, pages: 4 }, Want::Done);
    ask(steps, Act::Start(Who::First), Want::Done);
    ask(steps, Act::Dispatch(Who::First), Want::Done);
    ask(steps, Act::AddWorker { who: Who::Second, by: Who::First, reservation: 2, pages: 4 }, Want::Done);
    ask(steps, Act::StartWorker { who: Who::Second, by: Who::First }, Want::Done);
    ask(steps, Act::Yield(Who::First), Want::Done);
    ask(steps, Act::Prepare { who: Who::First, start: first }, Want::Done);
    ask(steps, Act::BindPair { who: Who::First, pair: 0, tx: FIRST_TX }, Want::Done);
    ask(steps, Act::Prepare { who: Who::Second, start: second }, Want::Done);
    ask(steps, Act::BindPair { who: Who::Second, pair: 1, tx: SECOND_TX }, Want::Done);
    ask(steps, Act::Stats, Want::KeepStats(StatsMark::Baseline));
    ask(steps, Act::Metadata, Want::Keep(Mark::Metadata));
    assert(steps@ =~= before + handle_set_up(first, second));
}

/// A message outside the own message page stops the process.
pub open spec fn handle_bad_address(mode: u64) -> Seq<Step> {
    seq![
        once(Act::SetMode { who: Who::First, mode }, Want::Done),
        once(Act::Enter(Who::First), Want::Refused),
        once(Act::IsStopped, Want::Flag(true)),
    ]
}

fn ask_handle_bad_address(steps: &mut Vec<Step>, mode: u64)
    ensures
        final(steps)@ == old(steps)@ + handle_bad_address(mode),
{
    let ghost before = steps@;
    ask(steps, Act::SetMode { who: Who::First, mode }, Want::Done);
    ask(steps, Act::Enter(Who::First), Want::Refused);
    ask(steps, Act::IsStopped, Want::Flag(true));
    assert(steps@ =~= before + handle_bad_address(mode));
}

/// A call that is denied before it is taken up gets an empty reply and cannot
/// be taken up later.
pub open spec fn handle_denied(denied: u64) -> Seq<Step> {
    seq![
        once(Act::SetMode { who: Who::First, mode: 6 }, Want::Done),
        once(Act::Enter(Who::First), Want::Stop(Stop::HandleCall)),
        once(Act::Work, Want::Keep(Mark::Work)),
        once(Act::AnswerCall { who: Who::First, status: denied, payload: Payload::Empty }, Want::Done),
        once(Act::ClaimHandle(Who::First), Want::Refused),
        once(Act::Work, Want::Kept(Mark::Work)),
        once(Act::TailIsClear { tx: FIRST_TX, from: 0 }, Want::Flag(true)),
        once(Act::Wake(Who::First), Want::Done),
        once(Act::Enter(Who::First), Want::Stop(Stop::Yielded)),
    ]
}

fn ask_handle_denied(steps: &mut Vec<Step>, denied: u64)
    ensures
        final(steps)@ == old(steps)@ + handle_denied(denied),
{
    let ghost before = steps@;
    ask(steps, Act::SetMode { who: Who::First, mode: 6 }, Want::Done);
    ask(steps, Act::Enter(Who::First), Want::Stop(Stop::HandleCall));
    ask(steps, Act::Work, Want::Keep(Mark::Work));
    ask(steps, Act::AnswerCall { who: Who::First, status: denied, payload: Payload::Empty }, Want::Done);
    ask(steps, Act::ClaimHandle(Who::First), Want::Refused);
    ask(steps, Act::Work, Want::Kept(Mark::Work));
    ask(steps, Act::TailIsClear { tx: FIRST_TX, from: 0 }, Want::Flag(true));
    ask(steps, Act::Wake(Who::First), Want::Done);
    ask(steps, Act::Enter(Who::First), Want::Stop(Stop::Yielded));
    assert(steps@ =~= before + handle_denied(denied));
}

/// Both threads are told what to do.
pub open spec fn handle_modes(mode: u64) -> Seq<Step> {
    seq![
        once(Act::SetMode { who: Who::First, mode }, Want::Done),
        once(Act::SetMode { who: Who::Second, mode }, Want::Done),
    ]
}

fn ask_handle_modes(steps: &mut Vec<Step>, mode: u64)
    ensures
        final(steps)@ == old(steps)@ + handle_modes(mode),
{
    let ghost before = steps@;
    ask(steps, Act::SetMode { who: Who::First, mode }, Want::Done);
    ask(steps, Act::SetMode { who: Who::Second, mode }, Want::Done);
    assert(steps@ =~= before + handle_modes(mode));
}

/// A thread makes a call. It is taken up once, and the thread neither runs nor
/// gets a reply before it is answered.
pub open spec fn handle_capture(who: Who, marker: u64, round: u64, shape: CallShape) -> Seq<Step> {
    seq![
        once(Act::Enter(who), Want::Stop(Stop::HandleCall)),
        once(Act::IsCaller(who), Want::Flag(true)),
        once(Act::CallHandle(who), Want::Number(PROBED_HANDLE)),
        once(Act::CallBytes(who), Want::Number(shape.request)),
        once(Act::CallCapacity(who), Want::Number(shape.reply)),
        once(Act::RequestIs { who, marker, round, full: shape.full }, Want::Flag(true)),
        once(Act::ClaimHandle(who), Want::Done),
        once(Act::Work, Want::Keep(Mark::Work)),
        once(Act::ClaimHandle(who), Want::Refused),
        once(Act::AnswerCall { who, status: 0, payload: Payload::Word(marker) }, Want::Refused),
        once(Act::Resume { who, how: Resumed::HandleReply { status: 0 }, millis: 20 }, Want::Refused),
        once(Act::IsStopped, Want::Flag(false)),
        once(Act::Work, Want::Kept(Mark::Work)),
    ]
}

fn ask_handle_capture(steps: &mut Vec<Step>, who: Who, marker: u64, round: u64, shape: CallShape)
    ensures
        final(steps)@ == old(steps)@ + handle_capture(who, marker, round, shape),
{
    let ghost before = steps@;
    ask(steps, Act::Enter(who), Want::Stop(Stop::HandleCall));
    ask(steps, Act::IsCaller(who), Want::Flag(true));
    ask(steps, Act::CallHandle(who), Want::Number(PROBED_HANDLE));
    ask(steps, Act::CallBytes(who), Want::Number(shape.request));
    ask(steps, Act::CallCapacity(who), Want::Number(shape.reply));
    ask(steps, Act::RequestIs { who, marker, round, full: shape.full }, Want::Flag(true));
    ask(steps, Act::ClaimHandle(who), Want::Done);
    ask(steps, Act::Work, Want::Keep(Mark::Work));
    ask(steps, Act::ClaimHandle(who), Want::Refused);
    ask(steps, Act::AnswerCall { who, status: 0, payload: Payload::Word(marker) }, Want::Refused);
    ask(steps, Act::Resume { who, how: Resumed::HandleReply { status: 0 }, millis: 20 }, Want::Refused);
    ask(steps, Act::IsStopped, Want::Flag(false));
    ask(steps, Act::Work, Want::Kept(Mark::Work));
    assert(steps@ =~= before + handle_capture(who, marker, round, shape));
}

/// The call of the round before is gone.
pub open spec fn handle_old_call() -> Seq<Step> {
    seq![
        once(Act::ClaimOldHandle(Who::First), Want::Refused),
        once(Act::AnswerOldCall(Who::First), Want::Refused),
    ]
}

fn ask_handle_old_call(steps: &mut Vec<Step>)
    ensures
        final(steps)@ == old(steps)@ + handle_old_call(),
{
    let ghost before = steps@;
    ask(steps, Act::ClaimOldHandle(Who::First), Want::Refused);
    ask(steps, Act::AnswerOldCall(Who::First), Want::Refused);
    assert(steps@ =~= before + handle_old_call());
}

/// A fault of the sibling stops the process: the held call is not answered any
/// more, and its caller is not woken.
pub open spec fn handle_fault() -> Seq<Step> {
    seq![
        once(Act::SetMode { who: Who::Second, mode: 1 }, Want::Done),
        once(Act::Enter(Who::Second), Want::AnyFault),
        once(Act::IsStopped, Want::Flag(true)),
        once(Act::Word(FIRST_RX), Want::Keep(Mark::Word)),
        once(Act::AnswerClaim { who: Who::First, status: 0, payload: Payload::Word(99) }, Want::Refused),
        once(Act::Word(FIRST_RX), Want::Kept(Mark::Word)),
        once(Act::ReadRequest(Who::First), Want::Refused),
        once(Act::Wake(Who::First), Want::Refused),
        once(Act::DropClaim(Who::First), Want::Done),
    ]
}

fn ask_handle_fault(steps: &mut Vec<Step>)
    ensures
        final(steps)@ == old(steps)@ + handle_fault(),
{
    let ghost before = steps@;
    ask(steps, Act::SetMode { who: Who::Second, mode: 1 }, Want::Done);
    ask(steps, Act::Enter(Who::Second), Want::AnyFault);
    ask(steps, Act::IsStopped, Want::Flag(true));
    ask(steps, Act::Word(FIRST_RX), Want::Keep(Mark::Word));
    ask(steps, Act::AnswerClaim { who: Who::First, status: 0, payload: Payload::Word(99) }, Want::Refused);
    ask(steps, Act::Word(FIRST_RX), Want::Kept(Mark::Word));
    ask(steps, Act::ReadRequest(Who::First), Want::Refused);
    ask(steps, Act::Wake(Who::First), Want::Refused);
    ask(steps, Act::DropClaim(Who::First), Want::Done);
    assert(steps@ =~= before + handle_fault());
}

/// The sibling changed the first thread's message page, but not the request
/// that is held.
pub open spec fn handle_retained() -> Seq<Step> {
    seq![
        once(Act::Word(FIRST_TX_MARKER), Want::Number(OVERWRITTEN)),
        once(Act::CopyIsRequest { who: Who::First, marker: 11 }, Want::Flag(true)),
    ]
}

fn ask_handle_retained(steps: &mut Vec<Step>)
    ensures
        final(steps)@ == old(steps)@ + handle_retained(),
{
    let ghost before = steps@;
    ask(steps, Act::Word(FIRST_TX_MARKER), Want::Number(OVERWRITTEN));
    ask(steps, Act::CopyIsRequest { who: Who::First, marker: 11 }, Want::Flag(true));
    assert(steps@ =~= before + handle_retained());
}

/// An answer of another process, with an unknown status or too long for the
/// caller changes nothing.
pub open spec fn handle_misdirected() -> Seq<Step> {
    seq![
        once(Act::Work, Want::Keep(Mark::Work)),
        once(Act::Word(FIRST_RX), Want::Keep(Mark::Word)),
        once(Act::OtherWord(FIRST_RX), Want::Keep(Mark::OtherWord)),
        once(Act::AnswerClaimElsewhere { who: Who::First, payload: Payload::Word(11) }, Want::Refused),
        once(Act::AnswerClaim { who: Who::First, status: UNKNOWN_STATUS, payload: Payload::Empty }, Want::Refused),
        once(Act::AnswerClaimTooLong(Who::First), Want::Refused),
        once(Act::Word(FIRST_RX), Want::Kept(Mark::Word)),
        once(Act::OtherWord(FIRST_RX), Want::Kept(Mark::OtherWord)),
        once(Act::OtherIsStopped, Want::Flag(false)),
        once(Act::IsStopped, Want::Flag(false)),
    ]
}

fn ask_handle_misdirected(steps: &mut Vec<Step>)
    ensures
        final(steps)@ == old(steps)@ + handle_misdirected(),
{
    let ghost before = steps@;
    ask(steps, Act::Work, Want::Keep(Mark::Work));
    ask(steps, Act::Word(FIRST_RX), Want::Keep(Mark::Word));
    ask(steps, Act::OtherWord(FIRST_RX), Want::Keep(Mark::OtherWord));
    ask(steps, Act::AnswerClaimElsewhere { who: Who::First, payload: Payload::Word(11) }, Want::Refused);
    ask(steps, Act::AnswerClaim { who: Who::First, status: UNKNOWN_STATUS, payload: Payload::Empty }, Want::Refused);
    ask(steps, Act::AnswerClaimTooLong(Who::First), Want::Refused);
    ask(steps, Act::Word(FIRST_RX), Want::Kept(Mark::Word));
    ask(steps, Act::OtherWord(FIRST_RX), Want::Kept(Mark::OtherWord));
    ask(steps, Act::OtherIsStopped, Want::Flag(false));
    ask(steps, Act::IsStopped, Want::Flag(false));
    assert(steps@ =~= before + handle_misdirected());
}

/// Both calls are answered in reverse order, and once.
pub open spec fn handle_answers(first_reply: Payload, second_reply: Payload) -> Seq<Step> {
    seq![
        once(Act::AnswerClaim { who: Who::Second, status: 0, payload: second_reply }, Want::Done),
        once(Act::AnswerClaim { who: Who::First, status: 0, payload: first_reply }, Want::Done),
        once(Act::Work, Want::Kept(Mark::Work)),
        once(Act::AnswerCall { who: Who::First, status: 0, payload: Payload::Empty }, Want::Refused),
        once(Act::AnswerCall { who: Who::Second, status: 0, payload: Payload::Empty }, Want::Refused),
    ]
}

fn ask_handle_answers(steps: &mut Vec<Step>, first_reply: Payload, second_reply: Payload)
    ensures
        final(steps)@ == old(steps)@ + handle_answers(first_reply, second_reply),
{
    let ghost before = steps@;
    ask(steps, Act::AnswerClaim { who: Who::Second, status: 0, payload: second_reply }, Want::Done);
    ask(steps, Act::AnswerClaim { who: Who::First, status: 0, payload: first_reply }, Want::Done);
    ask(steps, Act::Work, Want::Kept(Mark::Work));
    ask(steps, Act::AnswerCall { who: Who::First, status: 0, payload: Payload::Empty }, Want::Refused);
    ask(steps, Act::AnswerCall { who: Who::Second, status: 0, payload: Payload::Empty }, Want::Refused);
    assert(steps@ =~= before + handle_answers(first_reply, second_reply));
}

/// Each thread goes on with its own reply.
pub open spec fn handle_going_on(from: u64, count: u64) -> Seq<Step> {
    seq![
        once(Act::TailIsClear { tx: FIRST_TX, from }, Want::Flag(true)),
        once(Act::Wake(Who::First), Want::Done),
        once(Act::Enter(Who::First), Want::Stop(Stop::Yielded)),
        once(Act::Word(FIRST_COUNTER), Want::Number(count)),
        once(Act::TailIsClear { tx: SECOND_TX, from }, Want::Flag(true)),
        once(Act::Wake(Who::Second), Want::Done),
        once(Act::Enter(Who::Second), Want::Stop(Stop::Yielded)),
        once(Act::Word(SECOND_COUNTER), Want::Number(count)),
    ]
}

fn ask_handle_going_on(steps: &mut Vec<Step>, from: u64, count: u64)
    ensures
        final(steps)@ == old(steps)@ + handle_going_on(from, count),
{
    let ghost before = steps@;
    ask(steps, Act::TailIsClear { tx: FIRST_TX, from }, Want::Flag(true));
    ask(steps, Act::Wake(Who::First), Want::Done);
    ask(steps, Act::Enter(Who::First), Want::Stop(Stop::Yielded));
    ask(steps, Act::Word(FIRST_COUNTER), Want::Number(count));
    ask(steps, Act::TailIsClear { tx: SECOND_TX, from }, Want::Flag(true));
    ask(steps, Act::Wake(Who::Second), Want::Done);
    ask(steps, Act::Enter(Who::Second), Want::Stop(Stop::Yielded));
    ask(steps, Act::Word(SECOND_COUNTER), Want::Number(count));
    assert(steps@ =~= before + handle_going_on(from, count));
}

/// Nothing was spent.
pub open spec fn handle_end() -> Seq<Step> {
    seq![
        once(Act::Stats, Want::SameStats(StatsMark::Baseline)),
        once(Act::Metadata, Want::Kept(Mark::Metadata)),
        once(Act::StopContext, Want::Done),
        once(Act::StopOtherContext, Want::Done),
        once(Act::StopProcess(Holder::Own), Want::Done),
    ]
}

fn ask_handle_end(steps: &mut Vec<Step>)
    ensures
        final(steps)@ == old(steps)@ + handle_end(),
{
    let ghost before = steps@;
    ask(steps, Act::Stats, Want::SameStats(StatsMark::Baseline));
    ask(steps, Act::Metadata, Want::Kept(Mark::Metadata));
    ask(steps, Act::StopContext, Want::Done);
    ask(steps, Act::StopOtherContext, Want::Done);
    ask(steps, Act::StopProcess(Holder::Own), Want::Done);
    assert(steps@ =~= before + handle_end());
}

/// What is given back, whatever was seen: both contexts before their frames.
pub open spec fn handle_giving_back() -> Seq<Act> {
    seq![Act::DropContext, Act::ReclaimAll]
}

fn list_handle_giving_back() -> (acts: Vec<Act>)
    ensures
        acts@ == handle_giving_back(),
{
    let mut acts: Vec<Act> = Vec::new();
    acts.push(Act::DropContext);
    acts.push(Act::ReclaimAll);
    assert(acts@ =~= handle_giving_back());
    acts
}

/// The threads are released after their frames were freed.
pub open spec fn handle_confirming() -> Seq<Step> {
    seq![
        once(Act::Release(Who::First), Want::AnyNumber),
        once(Act::Reap(Who::First), Want::Done),
        once(Act::Release(Who::Second), Want::AnyNumber),
        once(Act::Reap(Who::Second), Want::Done),
        once(Act::RemoveProcess(Holder::Own), Want::Done),
        once(Act::CommittedPages, Want::Number(0)),
        once(Act::FreeFrames, Want::Kept(Mark::Free)),
    ]
}

fn ask_handle_confirming(steps: &mut Vec<Step>)
    ensures
        final(steps)@ == old(steps)@ + handle_confirming(),
{
    let ghost before = steps@;
    ask(steps, Act::Release(Who::First), Want::AnyNumber);
    ask(steps, Act::Reap(Who::First), Want::Done);
    ask(steps, Act::Release(Who::Second), Want::AnyNumber);
    ask(steps, Act::Reap(Who::Second), Want::Done);
    ask(steps, Act::RemoveProcess(Holder::Own), Want::Done);
    ask(steps, Act::CommittedPages, Want::Number(0));
    ask(steps, Act::FreeFrames, Want::Kept(Mark::Free));
    assert(steps@ =~= before + handle_confirming());
}

/// The steps of one round in which both calls are answered.
pub open spec fn handle_exchange(round: u64, shape: CallShape) -> Seq<Step> {
    let empty = shape.reply == 0;
    Seq::<Step>::empty() + handle_capture(Who::Second, 22, round, shape) + handle_retained()
        + handle_misdirected() + handle_answers(
        if empty {
            Payload::Empty
        } else {
            Payload::Word((11 + round) as u64)
        },
        if empty {
            Payload::Empty
        } else {
            Payload::Word((22 + round) as u64)
        },
    ) + handle_going_on(
        if empty {
            0
        } else {
            8
        },
        (round + 1) as u64,
    )
}

fn ask_handle_exchange(steps: &mut Vec<Step>, round: u64, shape: CallShape)
    requires
        round < 2,
    ensures
        final(steps)@ == old(steps)@ + handle_exchange(round, shape),
{
    let ghost before = steps@;
    let empty = shape.reply == 0;
    let (first_reply, second_reply, from): (Payload, Payload, u64) = if empty {
        (Payload::Empty, Payload::Empty, 0)
    } else {
        (Payload::Word(11 + round), Payload::Word(22 + round), 8)
    };
    let mut part: Vec<Step> = Vec::new();
    ask_handle_capture(&mut part, Who::Second, 22, round, shape);
    ask_handle_retained(&mut part);
    ask_handle_misdirected(&mut part);
    ask_handle_answers(&mut part, first_reply, second_reply);
    ask_handle_going_on(&mut part, from, round + 1);
    assert(part@ == handle_exchange(round, shape));
    append_steps(steps, &part);
}

/// What a probe of handle calls is about.
#[derive(Clone, Copy, Debug, PartialEq, Eq, Structural)]
pub enum HandleCase {
    /// Two calls are held and answered.
    Held,
    /// The sibling faults while a call is held.
    SiblingFault,
    /// The message does not lie in the message page.
    OutsideMessage {
        /// Whether it is another mapped page.
        elsewhere: bool,
    },
    /// Requests fill their page.
    FullPage,
    /// Callers take no reply.
    NoReply,
    /// The call is denied.
    Denied,
}

/// The steps of a case; `denied` is the status of a denied call.
pub open spec fn handle_steps(case: HandleCase, denied: u64) -> Seq<Step> {
    let begin = Seq::<Step>::empty() + handle_set_up(start(false), start(true));
    match case {
        HandleCase::OutsideMessage { elsewhere } => begin + handle_bad_address(
            if elsewhere {
                3
            } else {
                2
            },
        ) + handle_end(),
        HandleCase::Denied => begin + handle_denied(denied) + handle_end(),
        HandleCase::SiblingFault => begin + handle_capture(Who::First, 11, 0, usual_shape())
            + handle_exchange(0, usual_shape()) + handle_capture(Who::First, 11, 1, usual_shape())
            + handle_old_call() + handle_fault() + handle_end(),
        HandleCase::Held => begin + handle_capture(Who::First, 11, 0, usual_shape())
            + handle_exchange(0, usual_shape()) + handle_capture(Who::First, 11, 1, usual_shape())
            + handle_old_call() + handle_exchange(1, usual_shape()) + handle_end(),
        HandleCase::FullPage => begin + handle_modes(4) + handle_capture(
            Who::First,
            11,
            0,
            full_shape(),
        ) + handle_exchange(0, full_shape()) + handle_capture(Who::First, 11, 1, full_shape())
            + handle_old_call() + handle_exchange(1, full_shape()) + handle_end(),
        HandleCase::NoReply => begin + handle_modes(5) + handle_capture(
            Who::First,
            11,
            0,
            silent_shape(),
        ) + handle_exchange(0, silent_shape()) + handle_capture(Who::First, 11, 1, silent_shape())
            + handle_old_call() + handle_exchange(1, silent_shape()) + handle_end(),
    }
}

fn ask_first_round(steps: &mut Vec<Step>, shape: CallShape)
    ensures
        final(steps)@ == old(steps)@ + handle_capture(Who::First, 11, 0, shape) + handle_exchange(
            0,
            shape,
        ) + handle_capture(Who::First, 11, 1, shape) + handle_old_call(),
{
    ask_handle_capture(steps, Who::First, 11, 0, shape);
    ask_handle_exchange(steps, 0, shape);
    ask_handle_capture(steps, Who::First, 11, 1, shape);
    ask_handle_old_call(steps);
}

/// The probe of handle calls: a held call keeps its request while the sibling
/// writes to the same memory, and is answered exactly once, by its own
/// process.
pub fn handle_probe(case: HandleCase, denied: u64) -> (agenda: Agenda)
    ensures
        agenda@ == (AgendaView {
            steps: handle_steps(case, denied),
            closing: handle_giving_back(),
            confirming: handle_confirming(),
        }),
{
    let first = thread_start(false);
    let second = thread_start(true);
    let usual = CallShape { request: 24, reply: 8, full: false };
    let full = CallShape { request: 4096, reply: 4096, full: true };
    let silent = CallShape { request: 24, reply: 0, full: false };
    let mut steps: Vec<Step> = Vec::new();
    ask_handle_set_up(&mut steps, first, second);
    match case {
        HandleCase::OutsideMessage { elsewhere } => {
            let mode: u64 = if elsewhere {
                3
            } else {
                2
            };
            ask_handle_bad_address(&mut steps, mode);
        },
        HandleCase::Denied => {
            ask_handle_denied(&mut steps, denied);
        },
        HandleCase::SiblingFault => {
            ask_first_round(&mut steps, usual);
            ask_handle_fault(&mut steps);
        },
        HandleCase::Held => {
            ask_first_round(&mut steps, usual);
            ask_handle_exchange(&mut steps, 1, usual);
        },
        HandleCase::FullPage => {
            ask_handle_modes(&mut steps, 4);
            ask_first_round(&mut steps, full);
            ask_handle_exchange(&mut steps, 1, full);
        },
        HandleCase::NoReply => {
            ask_handle_modes(&mut steps, 5);
            ask_first_round(&mut steps, silent);
            ask_handle_exchange(&mut steps, 1, silent);
        },
    }
    ask_handle_end(&mut steps);
    let mut last: Vec<Step> = Vec::new();
    ask_handle_confirming(&mut last);
    assert(last@ =~= handle_confirming());
    Agenda { steps, closing: list_handle_giving_back(), confirming: last }
}

/// The cases in order.
pub open spec fn all_handle_cases() -> Seq<HandleCase> {
    seq![
        HandleCase::Held,
        HandleCase::SiblingFault,
        HandleCase::OutsideMessage { elsewhere: false },
        HandleCase::OutsideMessage { elsewhere: true },
        HandleCase::FullPage,
        HandleCase::NoReply,
        HandleCase::Denied,
    ]
}

/// List the cases in order.
pub fn handle_cases() -> (cases: Vec<HandleCase>)
    ensures
        cases@ == all_handle_cases(),
{
    let mut cases: Vec<HandleCase> = Vec::new();
    cases.push(HandleCase::Held);
    cases.push(HandleCase::SiblingFault);
    cases.push(HandleCase::OutsideMessage { elsewhere: false });
    cases.push(HandleCase::OutsideMessage { elsewhere: true });
    cases.push(HandleCase::FullPage);
    cases.push(HandleCase::NoReply);
    cases.push(HandleCase::Denied);
    assert(cases@ =~= all_handle_cases());
    cases
}

/// A line for a probe of handle calls that failed.
pub open spec fn handle_failure(mode: nat, stage: Seq<u8>) -> Seq<u8> {
    utf8("native handle ownership failed: mode=") + decimal(mode) + utf8(" stage=") + stage + utf8(
        "\n",
    )
}

/// Write a line for a probe of handle calls that failed.
pub fn handle_failure_line(mode: u64, stage: &[u8]) -> (line: Vec<u8>)
    ensures
        line@ == handle_failure(mode as nat, stage@),
{
    let mut line: Vec<u8> = Vec::new();
    append_text(&mut line, "native handle ownership failed: mode=");
    append_decimal(&mut line, mode);
    append_text(&mut line, " stage=");
    append_bytes(&mut line, stage);
    append_text(&mut line, "\n");
    assert(line@ =~= handle_failure(mode as nat, stage@));
    line
}

/// The parts of a round in which both calls are answered.
pub open spec fn exchange_parts() -> Seq<Part> {
    seq![
        part(
            "sibling modifies TX while both calls are retained",
            handle_capture(Who::Second, 22, 0, usual_shape()).len() + handle_retained().len(),
        ),
        part(
            "recover foreign and malformed completions without publication",
            handle_misdirected().len(),
        ),
        part(
            "reverse completion and independent native reply validation",
            handle_answers(Payload::Empty, Payload::Empty).len() + handle_going_on(0, 0).len(),
        ),
    ]
}

/// The parts up to the second call of the first caller.
pub open spec fn first_round_parts() -> Seq<Part> {
    seq![
        part("capture first caller", handle_capture(Who::First, 11, 0, usual_shape()).len()),
    ] + exchange_parts() + seq![
        part(
            "capture first caller",
            handle_capture(Who::First, 11, 1, usual_shape()).len() + handle_old_call().len(),
        ),
    ]
}

/// The parts of a case.
pub open spec fn handle_parts(case: HandleCase) -> Seq<Part> {
    let begin = seq![part("construction", handle_set_up(start(false), start(true)).len())];
    let end = seq![part("final stop and retained accounting", handle_end().len())];
    match case {
        HandleCase::OutsideMessage { .. } => begin + seq![
            part(
                "reject a valid user address outside the retained IPC prefix",
                handle_bad_address(0).len(),
            ),
        ] + end,
        HandleCase::Denied => begin + seq![
            part(
                "unclaimed rejection publishes no payload or execution",
                handle_denied(0).len(),
            ),
        ] + end,
        HandleCase::SiblingFault => begin + first_round_parts() + seq![
            part("fault with a sibling call retained", handle_fault().len()),
        ] + end,
        HandleCase::Held => begin + first_round_parts() + exchange_parts() + end,
        HandleCase::FullPage | HandleCase::NoReply => begin + seq![
            part("construction", handle_modes(0).len()),
        ] + first_round_parts() + exchange_parts() + end,
    }
}

fn push_exchange_parts(parts: &mut Vec<Part>)
    ensures
        final(parts)@ == old(parts)@ + exchange_parts(),
{
    let ghost before = parts@;
    parts.push(Part { label: "sibling modifies TX while both calls are retained", count: 15 });
    parts.push(
        Part {
            label: "recover foreign and malformed completions without publication",
            count: 10,
        },
    );
    parts.push(
        Part { label: "reverse completion and independent native reply validation", count: 13 },
    );
    assert(parts@ =~= before + exchange_parts());
}

fn push_first_round_parts(parts: &mut Vec<Part>)
    ensures
        final(parts)@ == old(parts)@ + first_round_parts(),
{
    let ghost before = parts@;
    parts.push(Part { label: "capture first caller", count: 13 });
    push_exchange_parts(parts);
    parts.push(Part { label: "capture first caller", count: 15 });
    assert(parts@ =~= before + first_round_parts());
}

fn list_handle_parts(case: HandleCase) -> (parts: Vec<Part>)
    ensures
        parts@ == handle_parts(case),
{
    let mut parts: Vec<Part> = Vec::new();
    parts.push(Part { label: "construction", count: 20 });
    match case {
        HandleCase::OutsideMessage { .. } => {
            parts.push(
                Part {
                    label: "reject a valid user address outside the retained IPC prefix",
                    count: 3,
                },
            );
        },
        HandleCase::Denied => {
            parts.push(
                Part { label: "unclaimed rejection publishes no payload or execution", count: 9 },
            );
        },
        HandleCase::SiblingFault => {
            push_first_round_parts(&mut parts);
            parts.push(Part { label: "fault with a sibling call retained", count: 9 });
        },
        HandleCase::Held => {
            push_first_round_parts(&mut parts);
            push_exchange_parts(&mut parts);
        },
        HandleCase::FullPage | HandleCase::NoReply => {
            parts.push(Part { label: "construction", count: 2 });
            push_first_round_parts(&mut parts);
            push_exchange_parts(&mut parts);
        },
    }
    parts.push(Part { label: "final stop and retained accounting", count: 5 });
    assert(parts@ =~= handle_parts(case));
    parts
}

proof fn lemma_parts_concat(a: Seq<Part>, b: Seq<Part>)
    ensures
        part_steps(a + b) == part_steps(a) + part_steps(b),
    decreases a.len(),
{
    if a.len() == 0 {
        assert(a + b =~= b);
    } else {
        lemma_parts_concat(a.drop_first(), b);
        assert((a + b).drop_first() =~= a.drop_first() + b);
    }
}

proof fn lemma_one_part(one: Part)
    ensures
        part_steps(seq![one]) == one.count,
{
    reveal_with_fuel(part_steps, 2);
    assert(seq![one].drop_first() =~= Seq::<Part>::empty());
}

proof fn lemma_exchange_parts()
    ensures
        part_steps(exchange_parts()) == 38,
{
    let parts = exchange_parts();
    reveal_with_fuel(part_steps, 4);
    assert(parts.drop_first().drop_first().drop_first() =~= Seq::<Part>::empty());
}

proof fn lemma_first_round_parts()
    ensures
        part_steps(first_round_parts()) == 66,
{
    let first = part("capture first caller", 13);
    let last = part("capture first caller", 15);
    lemma_exchange_parts();
    lemma_one_part(first);
    lemma_one_part(last);
    lemma_parts_concat(seq![first], exchange_parts());
    lemma_parts_concat(seq![first] + exchange_parts(), seq![last]);
}

/// Every step of a case belongs to a part.
pub proof fn handle_parts_are_complete(case: HandleCase, denied: u64)
    ensures
        part_steps(handle_parts(case)) == handle_steps(case, denied).len(),
{
    let begin = seq![part("construction", 20)];
    let end = seq![part("final stop and retained accounting", 5)];
    lemma_one_part(begin[0]);
    lemma_one_part(end[0]);
    lemma_first_round_parts();
    lemma_exchange_parts();
    match case {
        HandleCase::OutsideMessage { .. } => {
            let only = part("reject a valid user address outside the retained IPC prefix", 3);
            lemma_one_part(only);
            lemma_parts_concat(begin, seq![only]);
            lemma_parts_concat(begin + seq![only], end);
        },
        HandleCase::Denied => {
            let only = part("unclaimed rejection publishes no payload or execution", 9);
            lemma_one_part(only);
            lemma_parts_concat(begin, seq![only]);
            lemma_parts_concat(begin + seq![only], end);
        },
        HandleCase::SiblingFault => {
            let only = part("fault with a sibling call retained", 9);
            lemma_one_part(only);
            lemma_parts_concat(begin, first_round_parts());
            lemma_parts_concat(begin + first_round_parts(), seq![only]);
            lemma_parts_concat(begin + first_round_parts() + seq![only], end);
        },
        HandleCase::Held => {
            lemma_parts_concat(begin, first_round_parts());
            lemma_parts_concat(begin + first_round_parts(), exchange_parts());
            lemma_parts_concat(begin + first_round_parts() + exchange_parts(), end);
        },
        HandleCase::FullPage | HandleCase::NoReply => {
            let modes = part("construction", 2);
            lemma_one_part(modes);
            lemma_parts_concat(begin, seq![modes]);
            lemma_parts_concat(begin + seq![modes], first_round_parts());
            lemma_parts_concat(begin + seq![modes] + first_round_parts(), exchange_parts());
            lemma_parts_concat(
                begin + seq![modes] + first_round_parts() + exchange_parts(),
                end,
            );
        },
    }
}

/// The number of a case.
pub open spec fn handle_mode(case: HandleCase) -> u64 {
    match case {
        HandleCase::Held => 0,
        HandleCase::SiblingFault => 1,
        HandleCase::OutsideMessage { elsewhere } => if elsewhere {
            3
        } else {
            2
        },
        HandleCase::FullPage => 4,
        HandleCase::NoReply => 5,
        HandleCase::Denied => 6,
    }
}

/// The number of a case is its place in the order.
pub proof fn cases_are_numbered_in_order(case: HandleCase)
    ensures
        handle_mode(case) < all_handle_cases().len(),
        all_handle_cases()[handle_mode(case) as int] == case,
{
}

fn mode_of(case: HandleCase) -> (mode: u64)
    ensures
        mode == handle_mode(case),
{
    match case {
        HandleCase::Held => 0,
        HandleCase::SiblingFault => 1,
        HandleCase::OutsideMessage { elsewhere } => if elsewhere {
            3
        } else {
            2
        },
        HandleCase::FullPage => 4,
        HandleCase::NoReply => 5,
        HandleCase::Denied => 6,
    }
}

/// What is printed when a step of a case is not accepted: nothing where the
/// second process got no memory, otherwise the number of the case and the part.
pub open spec fn handle_step_failure(case: HandleCase, at: int) -> Option<Seq<u8>> {
    match part_label(handle_parts(case), at) {
        Some(label) if at > 0 => Some(handle_failure(handle_mode(case) as nat, utf8(label))),
        _ => None,
    }
}

/// Write what is printed when a step of a case is not accepted.
pub fn handle_step_failure_line(case: HandleCase, at: usize) -> (line: Option<Vec<u8>>)
    ensures
        match line {
            Some(l) => handle_step_failure(case, at as int) == Some(l@),
            None => handle_step_failure(case, at as int) is None,
        },
{
    let parts = list_handle_parts(case);
    match step_label(&parts, at) {
        Some(label) => {
            if at == 0 {
                None
            } else {
                Some(handle_failure_line(mode_of(case), label.as_bytes()))
            }
        },
        None => None,
    }
}

/// Whether the words of a request are the expected ones: its kind, the
/// caller's marker and the round, and in a full request a running number in
/// each word behind them.
pub open spec fn is_request(words: Seq<u64>, marker: u64, round: u64, full: bool) -> bool {
    &&& words.len() >= 3
    &&& words[0] == 5
    &&& words[1] == marker
    &&& words[2] == round
    &&& full ==> forall|i: int|
        3 <= i < words.len() ==> #[trigger] words[i] == marker + round + i
}

/// Check the words of a request.
pub fn request_matches(words: &[u64], marker: u64, round: u64, full: bool) -> (fine: bool)
    requires
        marker <= 0xffff,
        round <= 0xffff,
        words@.len() <= 512,
    ensures
        fine == is_request(words@, marker, round, full),
{
    if words.len() < 3 || words[0] != 5 || words[1] != marker || words[2] != round {
        return false;
    }
    if full {
        let mut i: usize = 3;
        while i < words.len()
            invariant
                full,
                3 <= i <= words@.len() <= 512,
                marker <= 0xffff,
                round <= 0xffff,
                forall|k: int| 3 <= k < i ==> #[trigger] words@[k] == marker + round + k,
            decreases words@.len() - i,
        {
            if words[i] != marker + round + i as u64 {
                assert(words@[i as int] != marker + round + i);
                return false;
            }
            i = i + 1;
        }
    }
    true
}

/// Whether a copy of a request is the request that is held, with its marker.
pub open spec fn is_copy(copy: Seq<u64>, held: Seq<u64>, marker: u64) -> bool {
    copy == held && copy.len() >= 2 && copy[1] == marker
}

/// Check a copy of a request against the request that is held.
pub fn copy_matches(copy: &[u64], held: &[u64], marker: u64) -> (fine: bool)
    ensures
        fine == is_copy(copy@, held@, marker),
{
    if copy.len() != held.len() || copy.len() < 2 || copy[1] != marker {
        return false;
    }
    let mut i: usize = 0;
    while i < copy.len()
        invariant
            i <= copy@.len(),
            copy@.len() == held@.len(),
            forall|k: int| 0 <= k < i ==> copy@[k] == held@[k],
        decreases copy@.len() - i,
    {
        if copy[i] != held[i] {
            return false;
        }
        i = i + 1;
    }
    assert(copy@ =~= held@);
    true
}

/// A copy of the request that is held is the request that was made, whatever
/// the sibling wrote to the message page since.
pub proof fn a_copy_is_the_request(
    copy: Seq<u64>,
    held: Seq<u64>,
    marker: u64,
    round: u64,
    full: bool,
)
    requires
        is_request(held, marker, round, full),
        is_copy(copy, held, marker),
    ensures
        is_request(copy, marker, round, full),
        full && copy.len() == 512 ==> copy[511] == marker + round + 511,
{
}

/// Calls have the size of their shape: usually three words and one in reply, a
/// whole page both ways, or no reply at all.
pub proof fn calls_have_their_shape()
    ensures
        usual_shape() == (CallShape { request: 24, reply: 8, full: false }),
        full_shape() == (CallShape { request: 4096, reply: 4096, full: true }),
        silent_shape() == (CallShape { request: 24, reply: 0, full: false }),
{
}

/// A request holds the number five, the number of its sender and the round, and
/// in a full page every further word is their sum and its own place.
pub proof fn requests_hold_sender_and_round(words: Seq<u64>, marker: u64, round: u64, i: int)
    ensures
        is_request(words, marker, round, false) <==> words.len() >= 3 && words[0] == 5 && words[1]
            == marker && words[2] == round,
        is_request(words, marker, round, true) && 3 <= i < words.len() ==> words[i] == marker
            + round + i,
        is_copy(words, words, marker) <==> words.len() >= 2 && words[1] == marker,
{
}

/// A failure names its mode and its stage.
pub proof fn handle_failures_name_mode_and_stage(mode: nat, stage: Seq<u8>)
    ensures
        handle_failure(mode, stage) == utf8("native handle ownership failed: mode=") + decimal(mode)
            + utf8(" stage=") + stage + utf8("\n"),
{
}

proof fn lemma_handle_set_up_sensible(first: ThreadStart, second: ThreadStart)
    requires
        proper(first),
        proper(second),
    ensures
        all_sensible(handle_set_up(first, second)),
{
    let steps = handle_set_up(first, second);
    assert forall|i: int| 0 <= i < steps.len() implies sensible(#[trigger] steps[i]) by {}
}

proof fn lemma_handle_bad_address_sensible(mode: u64)
    ensures
        all_sensible(handle_bad_address(mode)),
{
    let steps = handle_bad_address(mode);
    assert forall|i: int| 0 <= i < steps.len() implies sensible(#[trigger] steps[i]) by {}
}

proof fn lemma_handle_denied_sensible(denied: u64)
    ensures
        all_sensible(handle_denied(denied)),
{
    let steps = handle_denied(denied);
    assert forall|i: int| 0 <= i < steps.len() implies sensible(#[trigger] steps[i]) by {}
}

proof fn lemma_handle_modes_sensible(mode: u64)
    ensures
        all_sensible(handle_modes(mode)),
{
    let steps = handle_modes(mode);
    assert forall|i: int| 0 <= i < steps.len() implies sensible(#[trigger] steps[i]) by {}
}

proof fn lemma_handle_capture_sensible(who: Who, marker: u64, round: u64, shape: CallShape)
    requires
        who != Who::Foreign,
        who != Who::Former,
    ensures
        all_sensible(handle_capture(who, marker, round, shape)),
{
    let steps = handle_capture(who, marker, round, shape);
    assert forall|i: int| 0 <= i < steps.len() implies sensible(#[trigger] steps[i]) by {}
}

proof fn lemma_handle_old_call_sensible()
    ensures
        all_sensible(handle_old_call()),
{
    let steps = handle_old_call();
    assert forall|i: int| 0 <= i < steps.len() implies sensible(#[trigger] steps[i]) by {}
}

proof fn lemma_handle_fault_sensible()
    ensures
        all_sensible(handle_fault()),
{
    let steps = handle_fault();
    assert forall|i: int| 0 <= i < steps.len() implies sensible(#[trigger] steps[i]) by {}
}

proof fn lemma_handle_retained_sensible()
    ensures
        all_sensible(handle_retained()),
{
    let steps = handle_retained();
    assert forall|i: int| 0 <= i < steps.len() implies sensible(#[trigger] steps[i]) by {}
}

proof fn lemma_handle_misdirected_sensible()
    ensures
        all_sensible(handle_misdirected()),
{
    let steps = handle_misdirected();
    assert forall|i: int| 0 <= i < steps.len() implies sensible(#[trigger] steps[i]) by {}
}

proof fn lemma_handle_answers_sensible(first_reply: Payload, second_reply: Payload)
    ensures
        all_sensible(handle_answers(first_reply, second_reply)),
{
    let steps = handle_answers(first_reply, second_reply);
    assert forall|i: int| 0 <= i < steps.len() implies sensible(#[trigger] steps[i]) by {}
}

proof fn lemma_handle_going_on_sensible(from: u64, count: u64)
    ensures
        all_sensible(handle_going_on(from, count)),
{
    let steps = handle_going_on(from, count);
    assert forall|i: int| 0 <= i < steps.len() implies sensible(#[trigger] steps[i]) by {}
}

proof fn lemma_handle_end_sensible()
    ensures
        all_sensible(handle_end()),
{
    let steps = handle_end();
    assert forall|i: int| 0 <= i < steps.len() implies sensible(#[trigger] steps[i]) by {}
}

proof fn lemma_handle_confirming_sensible()
    ensures
        all_sensible(handle_confirming()),
{
    let steps = handle_confirming();
    assert forall|i: int| 0 <= i < steps.len() implies sensible(#[trigger] steps[i]) by {}
}

proof fn lemma_handle_exchange_sensible(round: u64, shape: CallShape)
    ensures
        all_sensible(handle_exchange(round, shape)),
{
    let empty = shape.reply == 0;
    let first_reply = if empty {
        Payload::Empty
    } else {
        Payload::Word((11 + round) as u64)
    };
    let second_reply = if empty {
        Payload::Empty
    } else {
        Payload::Word((22 + round) as u64)
    };
    let from: u64 = if empty {
        0
    } else {
        8
    };
    lemma_handle_capture_sensible(Who::Second, 22, round, shape);
    lemma_sensible_join(Seq::<Step>::empty(), handle_capture(Who::Second, 22, round, shape));
    let s0 = Seq::<Step>::empty() + handle_capture(Who::Second, 22, round, shape);
    lemma_handle_retained_sensible();
    lemma_sensible_join(s0, handle_retained());
    let s1 = s0 + handle_retained();
    lemma_handle_misdirected_sensible();
    lemma_sensible_join(s1, handle_misdirected());
    let s2 = s1 + handle_misdirected();
    lemma_handle_answers_sensible(first_reply, second_reply);
    lemma_sensible_join(s2, handle_answers(first_reply, second_reply));
    let s3 = s2 + handle_answers(first_reply, second_reply);
    lemma_handle_going_on_sensible(from, (round + 1) as u64);
    lemma_sensible_join(s3, handle_going_on(from, (round + 1) as u64));
    let s4 = s3 + handle_going_on(from, (round + 1) as u64);
}

/// Every step of a handle call has an answer that makes sense.
pub proof fn handle_calls_expect_sensible_answers(case: HandleCase, denied: u64)
    ensures
        all_sensible(handle_steps(case, denied)),
        all_sensible(handle_confirming()),
{
    lemma_handle_confirming_sensible();
    lemma_handle_set_up_sensible(start(false), start(true));
    lemma_sensible_join(Seq::<Step>::empty(), handle_set_up(start(false), start(true)));
    let s0 = Seq::<Step>::empty() + handle_set_up(start(false), start(true));
    match case {
        HandleCase::OutsideMessage { elsewhere } => {
            let mode: u64 = if elsewhere {
                3
            } else {
                2
            };
            lemma_handle_bad_address_sensible(mode);
            lemma_sensible_join(s0, handle_bad_address(mode));
            let t0 = s0 + handle_bad_address(mode);
            lemma_handle_end_sensible();
            lemma_sensible_join(t0, handle_end());
            let t1 = t0 + handle_end();
        },
        HandleCase::Denied => {
            lemma_handle_denied_sensible(denied);
            lemma_sensible_join(s0, handle_denied(denied));
            let t0 = s0 + handle_denied(denied);
            lemma_handle_end_sensible();
            lemma_sensible_join(t0, handle_end());
            let t1 = t0 + handle_end();
        },
        HandleCase::SiblingFault => {
            lemma_handle_capture_sensible(Who::First, 11, 0, usual_shape());
            lemma_sensible_join(s0, handle_capture(Who::First, 11, 0, usual_shape()));
            let t0 = s0 + handle_capture(Who::First, 11, 0, usual_shape());
            lemma_handle_exchange_sensible(0, usual_shape());
            lemma_sensible_join(t0, handle_exchange(0, usual_shape()));
            let t1 = t0 + handle_exchange(0, usual_shape());
            lemma_handle_capture_sensible(Who::First, 11, 1, usual_shape());
            lemma_sensible_join(t1, handle_capture(Who::First, 11, 1, usual_shape()));
            let t2 = t1 + handle_capture(Who::First, 11, 1, usual_shape());
            lemma_handle_old_call_sensible();
            lemma_sensible_join(t2, handle_old_call());
            let t3 = t2 + handle_old_call();
            lemma_handle_fault_sensible();
            lemma_sensible_join(t3, handle_fault());
            let t4 = t3 + handle_fault();
            lemma_handle_end_sensible();
            lemma_sensible_join(t4, handle_end());
            let t5 = t4 + handle_end();
        },
        HandleCase::Held => {
            lemma_handle_capture_sensible(Who::First, 11, 0, usual_shape());
            lemma_sensible_join(s0, handle_capture(Who::First, 11, 0, usual_shape()));
            let t0 = s0 + handle_capture(Who::First, 11, 0, usual_shape());
            lemma_handle_exchange_sensible(0, usual_shape());
            lemma_sensible_join(t0, handle_exchange(0, usual_shape()));
            let t1 = t0 + handle_exchange(0, usual_shape());
            lemma_handle_capture_sensible(Who::First, 11, 1, usual_shape());
            lemma_sensible_join(t1, handle_capture(Who::First, 11, 1, usual_shape()));
            let t2 = t1 + handle_capture(Who::First, 11, 1, usual_shape());
            lemma_handle_old_call_sensible();
            lemma_sensible_join(t2, handle_old_call());
            let t3 = t2 + handle_old_call();
            lemma_handle_exchange_sensible(1, usual_shape());
            lemma_sensible_join(t3, handle_exchange(1, usual_shape()));
            let t4 = t3 + handle_exchange(1, usual_shape());
            lemma_handle_end_sensible();
            lemma_sensible_join(t4, handle_end());
            let t5 = t4 + handle_end();
        },
        HandleCase::FullPage => {
            lemma_handle_modes_sensible(4);
            lemma_sensible_join(s0, handle_modes(4));
            let t0 = s0 + handle_modes(4);
            lemma_handle_capture_sensible(Who::First, 11, 0, full_shape());
            lemma_sensible_join(t0, handle_capture(Who::First, 11, 0, full_shape()));
            let t1 = t0 + handle_capture(Who::First, 11, 0, full_shape());
            lemma_handle_exchange_sensible(0, full_shape());
            lemma_sensible_join(t1, handle_exchange(0, full_shape()));
            let t2 = t1 + handle_exchange(0, full_shape());
            lemma_handle_capture_sensible(Who::First, 11, 1, full_shape());
            lemma_sensible_join(t2, handle_capture(Who::First, 11, 1, full_shape()));
            let t3 = t2 + handle_capture(Who::First, 11, 1, full_shape());
            lemma_handle_old_call_sensible();
            lemma_sensible_join(t3, handle_old_call());
            let t4 = t3 + handle_old_call();
            lemma_handle_exchange_sensible(1, full_shape());
            lemma_sensible_join(t4, handle_exchange(1, full_shape()));
            let t5 = t4 + handle_exchange(1, full_shape());
            lemma_handle_end_sensible();
            lemma_sensible_join(t5, handle_end());
            let t6 = t5 + handle_end();
        },
        HandleCase::NoReply => {
            lemma_handle_modes_sensible(5);
            lemma_sensible_join(s0, handle_modes(5));
            let t0 = s0 + handle_modes(5);
            lemma_handle_capture_sensible(Who::First, 11, 0, silent_shape());
            lemma_sensible_join(t0, handle_capture(Who::First, 11, 0, silent_shape()));
            let t1 = t0 + handle_capture(Who::First, 11, 0, silent_shape());
            lemma_handle_exchange_sensible(0, silent_shape());
            lemma_sensible_join(t1, handle_exchange(0, silent_shape()));
            let t2 = t1 + handle_exchange(0, silent_shape());
            lemma_handle_capture_sensible(Who::First, 11, 1, silent_shape());
            lemma_sensible_join(t2, handle_capture(Who::First, 11, 1, silent_shape()));
            let t3 = t2 + handle_capture(Who::First, 11, 1, silent_shape());
            lemma_handle_old_call_sensible();
            lemma_sensible_join(t3, handle_old_call());
            let t4 = t3 + handle_old_call();
            lemma_handle_exchange_sensible(1, silent_shape());
            lemma_sensible_join(t4, handle_exchange(1, silent_shape()));
            let t5 = t4 + handle_exchange(1, silent_shape());
            lemma_handle_end_sensible();
            lemma_sensible_join(t5, handle_end());
            let t6 = t5 + handle_end();
        },
    }
}

} // verus!
