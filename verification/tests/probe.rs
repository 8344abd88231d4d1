//! Probes of contexts, heaps, handles, dispatching, admission, retirement,
//! synchronization and creation.

use troe::memory::isolated::{
    build_isolated_plan, split_isolated, Architecture, USER_CODE_BASE, USER_DATA_BASE,
};
use troe::memory::native::prepare::StartupDescriptor;
use troe::memory::native::{ThreadKey, ThreadWindow};
use troe::memory::pages::PageRange;
use troe::memory::plan::{MappingOwner, MappingPlan, MemoryType, PlannedMapping};
use troe::memory::private::mapping::Permissions;
use troe::probe::admission::{
    admission_cases, admission_probe, lay_out_process, list_process_words, AdmissionCase,
};
use troe::probe::contents::{
    describe_probe, memory_is, probe_entry, ThreadMemory, TlsLayout, HEADER, SEED,
};
use troe::probe::creating::{CreationRun, CreationSizes, CreationStage};
use troe::probe::creation::{
    creation_closing_steps, creation_confirming_steps, creation_opening, creation_returns,
    Creation, TurnStart,
};
use troe::probe::dispatch::{dispatch_failure_line, dispatch_probe};
use troe::probe::entering::Entry;
use troe::probe::handle::{
    copy_matches, handle_cases, handle_failure_line, handle_probe, handle_step_failure_line,
    request_matches, HandleCase,
};
use troe::probe::heap::{heap_cases, heap_probe, list_heap_contents};
use troe::probe::layout::{
    lay_out_threads, list_first_contents, thread_start, verify_rx_tail, FIRST_COUNTER, FIRST_RX,
    FIRST_STACK, FIRST_TLS, FIRST_TX, SECOND_COUNTER, SECOND_RX, SHARED_COUNTER,
};
use troe::probe::program::{context_program, sync_program};
use troe::probe::retirement::{
    lay_out_worker, retirement_cases, retirement_probe, RetirementCase, WorkerPage,
};
use troe::probe::rotation::Rotation;
use troe::probe::schedule::{Schedule, FIRST_FINISHED, SECOND_FINISHED};
use troe::probe::script::{
    identity, list_retirement_lines, list_retirement_words, list_script_words, place_script,
    sync_scripts, Kind, Outcome, Request, Script, SyncObjects, Token,
};
use troe::probe::shared::shared_probe;
use troe::probe::synchronization::sync_probe;
use troe::probe::trial::{ask, ask_within, Agenda, Step, Trial};
use troe::probe::turns::Turns;
use troe::probe::words::{
    accept, Act, Book, Holder, Mark, PairMark, PairSeen, Progress, Refusal, Seen, SpaceStats,
    StatsMark, Stop, ThreadSeen, ThreadState, Want, Who,
};

fn pages(start: u64, count: u64) -> PageRange {
    PageRange::from_pages(start, count).unwrap()
}

/// An answer that a step accepts.
fn oblige(want: Want, book: &Book) -> Seen {
    let stats = |mark| match mark {
        StatsMark::Baseline => book.baseline,
        StatsMark::Before => book.before,
        StatsMark::Other => book.other,
    };
    let pair = |mark| match mark {
        PairMark::First => book.first_pair,
        PairMark::Second => book.second_pair,
    };
    let fresh = SpaceStats { mapped: 1000, tables: 50 };
    match want {
        Want::Done => Seen::Done,
        Want::Refused => Seen::Refused(Refusal::Other),
        Want::RefusedFor(reason) => Seen::Refused(reason),
        Want::Untouched => Seen::Untouched,
        Want::Broke => Seen::Broke,
        Want::Stop(stop) => Seen::Stop(stop),
        Want::AnyFault => Seen::Stop(Stop::Faulted(troe::probe::words::Fault::Permission)),
        Want::AnyNumber => Seen::Number(1),
        Want::AtMost(most) => Seen::Number(most),
        Want::Number(number) => Seen::Number(number),
        Want::Numbers(one, other) => Seen::Numbers(one, other),
        Want::Flag(fact) => Seen::Flag(fact),
        Want::Progress(progress) => Seen::Progress(progress),
        Want::Holder(holder) => Seen::Holder(holder),
        Want::Who(who) => Seen::Who(who),
        Want::Receipt { who, pages } => Seen::Receipt { who, pages },
        Want::Keep(_) => Seen::Number(500),
        Want::Kept(mark) => Seen::Number(book.get(mark).unwrap()),
        Want::KeptPlus(mark, more) => Seen::Number(book.get(mark).unwrap() + more),
        Want::AtLeastSum(one, other) => {
            Seen::Number(book.get(one).unwrap() + book.get(other).unwrap())
        },
        Want::KeepStats(_) => Seen::Stats(fresh),
        Want::SameStats(mark) | Want::SameTables(mark) => Seen::Stats(stats(mark).unwrap()),
        Want::Mapped { mark, gained, lost } => {
            let kept = stats(mark).unwrap();
            Seen::Stats(SpaceStats { mapped: kept.mapped + gained - lost, ..kept })
        },
        Want::MoreTables { mark, more } => {
            let kept = stats(mark).unwrap();
            Seen::Stats(SpaceStats { tables: kept.tables + more, ..kept })
        },
        Want::State(state) => Seen::State(state),
        Want::KeepPair(mark) => Seen::Pair(PairSeen {
            slot: if mark == PairMark::First { 1 } else { 2 },
            generation: 5,
            address: if mark == PairMark::First { 0x1000 } else { 0x3000 },
            live: true,
            clear: true,
        }),
        Want::Reused(mark) | Want::Reborn(mark) => {
            let kept = pair(mark).unwrap();
            Seen::Pair(PairSeen { generation: kept.generation + 1, ..kept })
        },
        Want::OtherSlot => Seen::Pair(PairSeen {
            slot: 9,
            generation: 1,
            address: 0x9000,
            live: true,
            clear: true,
        }),
        Want::KeepThread => Seen::Thread(ThreadSeen { slot: 1, generation: 3 }),
        Want::NextThread => {
            let kept = book.thread.unwrap();
            Seen::Thread(ThreadSeen { generation: kept.generation + 1, ..kept })
        },
    }
}

/// Run a probe, with a refusal in place of the answer at step `surprise`. Tells
/// whether it passed, and what was asked.
fn run(agenda: Agenda, surprise: Option<usize>) -> (bool, Vec<Act>) {
    let steps = agenda.steps.clone();
    let confirming = agenda.confirming.clone();
    let tried = surprise.map_or(steps.len(), |at| at + 1);
    let closed = tried + agenda.closing.len();
    let mut book = Book::new(500);
    let mut trial = Trial::new(agenda, 500);
    let mut asked = Vec::new();
    while let Some(act) = trial.next() {
        let at = asked.len();
        asked.push(act);
        let step = if at < tried {
            Some(steps[at])
        } else if at < closed {
            None
        } else {
            Some(confirming[at - closed])
        };
        let seen = match step {
            _ if Some(at) == surprise => Seen::Refused(Refusal::Busy),
            Some(step) => {
                let seen = oblige(step.want, &book);
                book = accept(step.want, book, seen).unwrap();
                seen
            },
            None => Seen::Done,
        };
        trial.observe(seen);
    }
    (trial.passed(), asked)
}

fn passes(make: impl Fn() -> Agenda) {
    let (passed, asked) = run(make(), None);
    assert!(passed);
    let agenda = make();
    assert_eq!(
        asked.len(),
        agenda.steps.len() + agenda.closing.len() + agenda.confirming.len()
    );
}

/// Where a step with this question stands.
fn position(agenda: &Agenda, act: Act) -> usize {
    agenda.steps.iter().position(|step| step.act == act).unwrap()
}

#[test]
fn the_part_of_a_failed_dispatch_step_is_named() {
    let agenda = dispatch_probe();
    let line = |at| dispatch_failure_line(at).map(|line| String::from_utf8(line).unwrap());
    let named = |label: &str| Some(format!("native process dispatch failed: {label}\n"));
    assert_eq!(line(position(&agenda, Act::TakeOtherAllocation)), None);
    let built = named("root and policy construction");
    assert_eq!(line(position(&agenda, Act::TakePairs)), built);
    assert_eq!(line(position(&agenda, Act::OtherMetadata)), built);
    assert_eq!(
        line(position(&agenda, Act::ExpirePreparation(Who::First))),
        named("timer preparation expiry restores root and continuation")
    );
    let late = named("expired preparation permits no first entry");
    assert_eq!(line(position(&agenda, Act::BeginExpiredTurn)), late);
    assert_eq!(line(position(&agenda, Act::EndTurn)), late);
    assert_eq!(
        line(position(&agenda, Act::Rotate)),
        named("process rotation and bounded repeated yields")
    );
    assert_eq!(
        line(position(&agenda, Act::MakeBusy)),
        named("busy worker is preempted without process fault")
    );
    assert_eq!(line(position(&agenda, Act::StopContext)), named("stop and root accounting"));
    assert_eq!(line(agenda.steps.len() - 1), named("stop and root accounting"));
    assert_eq!(line(agenda.steps.len()), None);
}

#[test]
fn the_part_of_a_failed_handle_step_is_named() {
    let line = |case, at| {
        handle_step_failure_line(case, at).map(|line| String::from_utf8(line).unwrap())
    };
    let named = |mode: u64, label: &str| {
        Some(format!("native handle ownership failed: mode={mode} stage={label}\n"))
    };
    for (mode, case) in handle_cases().into_iter().enumerate() {
        let agenda = handle_probe(case, 13);
        let mode = mode as u64;
        let end = agenda.steps.len();
        assert_eq!(line(case, 0), None);
        assert_eq!(line(case, 1), named(mode, "construction"));
        assert_eq!(line(case, end - 1), named(mode, "final stop and retained accounting"));
        assert_eq!(line(case, end - 5), named(mode, "final stop and retained accounting"));
        assert_ne!(line(case, end - 6), named(mode, "final stop and retained accounting"));
        assert_eq!(line(case, end), None);
    }
    let held = handle_probe(HandleCase::Held, 13);
    let first = position(&held, Act::ClaimHandle(Who::First));
    assert_eq!(line(HandleCase::Held, first), named(0, "capture first caller"));
    let second = position(&held, Act::ClaimHandle(Who::Second));
    assert_eq!(
        line(HandleCase::Held, second),
        named(0, "sibling modifies TX while both calls are retained")
    );
    let late = position(&held, Act::AnswerClaimTooLong(Who::First));
    assert_eq!(
        line(HandleCase::Held, late),
        named(0, "recover foreign and malformed completions without publication")
    );
    let woken = position(&held, Act::Wake(Who::Second));
    assert_eq!(
        line(HandleCase::Held, woken),
        named(0, "reverse completion and independent native reply validation")
    );
    let old = position(&held, Act::ClaimOldHandle(Who::First));
    assert_eq!(line(HandleCase::Held, old), named(0, "capture first caller"));
    let fault = handle_probe(HandleCase::SiblingFault, 13);
    let mode = position(&fault, Act::SetMode { who: Who::Second, mode: 1 });
    assert_eq!(
        line(HandleCase::SiblingFault, mode),
        named(1, "fault with a sibling call retained")
    );
    let full = handle_probe(HandleCase::FullPage, 13);
    let mode = position(&full, Act::SetMode { who: Who::Second, mode: 4 });
    assert_eq!(line(HandleCase::FullPage, mode), named(4, "construction"));
    let outside = HandleCase::OutsideMessage { elsewhere: true };
    let mode = position(&handle_probe(outside, 13), Act::SetMode { who: Who::First, mode: 3 });
    assert_eq!(
        line(outside, mode),
        named(3, "reject a valid user address outside the retained IPC prefix")
    );
    let denied = handle_probe(HandleCase::Denied, 13);
    let claim = position(&denied, Act::ClaimHandle(Who::First));
    assert_eq!(
        line(HandleCase::Denied, claim),
        named(6, "unclaimed rejection publishes no payload or execution")
    );
}

#[test]
fn a_trial_tells_which_step_is_not_accepted() {
    let mut steps = Vec::new();
    ask(&mut steps, Act::TakePairs, Want::Done);
    ask_within(&mut steps, Act::Enter(Who::First), Want::Stop(Stop::Yielded), 2);
    let agenda = Agenda { steps, closing: vec![Act::ReclaimAll], confirming: Vec::new() };
    let mut trial = Trial::new(agenda, 500);
    assert_eq!(trial.refused_step(Seen::Done), None);
    assert_eq!(trial.refused_step(Seen::Number(1)), Some(0));
    trial.observe(Seen::Done);
    let preempted = Seen::Stop(Stop::Preempted);
    assert_eq!(trial.refused_step(preempted), None);
    trial.observe(preempted);
    assert_eq!(trial.refused_step(preempted), Some(1));
    trial.observe(preempted);
    assert_eq!(trial.refused_step(Seen::Number(1)), None);
}

#[test]
fn probes_pass_on_an_obliging_machine() {
    passes(shared_probe);
    passes(dispatch_probe);
    for case in heap_cases() {
        passes(|| heap_probe(case, 0x7000));
    }
    for case in handle_cases() {
        passes(|| handle_probe(case, 13));
    }
    for case in retirement_cases() {
        passes(|| retirement_probe(case));
    }
    for case in admission_cases() {
        passes(|| admission_probe(case, &descriptor(false), &descriptor(true)));
    }
    for trap in [false, true] {
        passes(|| sync_probe(trap));
    }
}

#[test]
fn everything_is_given_back_after_a_surprise() {
    let count = shared_probe().steps.len();
    for at in (0..count).step_by(7) {
        let agenda = shared_probe();
        if accept(agenda.steps[at].want, Book::new(500), Seen::Refused(Refusal::Busy)).is_some() {
            continue;
        }
        let closing = shared_probe().closing;
        let (passed, asked) = run(agenda, Some(at));
        assert!(!passed);
        assert_eq!(asked.len(), at + 1 + closing.len());
        assert_eq!(&asked[at + 1..], &closing[..]);
    }
}

#[test]
fn preempted_threads_are_sent_on() {
    let mut steps = Vec::new();
    ask(&mut steps, Act::Stats, Want::KeepStats(StatsMark::Before));
    ask_within(&mut steps, Act::Dispatch(Who::First), Want::Stop(Stop::Yielded), 2);
    let agenda = || Agenda {
        steps: steps.clone(),
        closing: vec![Act::DropContext],
        confirming: vec![Step { act: Act::FreeFrames, want: Want::Kept(Mark::Free), tries: 1 }],
    };
    let stats = Seen::Stats(SpaceStats { mapped: 1, tables: 1 });
    let mut trial = Trial::new(agenda(), 7);
    trial.observe(stats);
    trial.observe(Seen::Stop(Stop::Preempted));
    assert_eq!(trial.next(), Some(Act::Dispatch(Who::First)));
    trial.observe(Seen::Stop(Stop::Yielded));
    trial.observe(Seen::Done);
    assert_eq!(trial.next(), Some(Act::FreeFrames));
    trial.observe(Seen::Number(7));
    assert!(trial.passed());
    let mut tired = Trial::new(agenda(), 7);
    tired.observe(stats);
    tired.observe(Seen::Stop(Stop::Preempted));
    tired.observe(Seen::Stop(Stop::Preempted));
    assert_eq!(tired.next(), Some(Act::DropContext));
    tired.observe(Seen::Broke);
    assert_eq!(tired.next(), None);
    assert!(!tired.passed());
    let mut leaking = Trial::new(agenda(), 7);
    leaking.observe(stats);
    leaking.observe(Seen::Stop(Stop::Yielded));
    leaking.observe(Seen::Done);
    leaking.observe(Seen::Number(6));
    assert!(!leaking.passed());
}

#[test]
fn threads_take_turns() {
    let mut turns = Turns::new();
    let mut counters = [0_u64, 0];
    let mut asked = 0;
    while let Some(act) = turns.next() {
        asked += 1;
        let seen = match act {
            Act::Resume { who, .. } => {
                counters[usize::from(who == Who::Second)] += 1;
                Seen::Stop(Stop::Yielded)
            },
            Act::CopyTx { who, .. } => match list_first_contents()
                [if who == Who::Second { 8 } else { 4 }]
            .payload
            {
                troe::probe::words::Payload::Word(marker) => Seen::Number(marker),
                _ => panic!("marker expected"),
            },
            Act::Word(FIRST_COUNTER) => Seen::Number(counters[0]),
            Act::Word(SECOND_COUNTER) => Seen::Number(counters[1]),
            Act::Word(SHARED_COUNTER) => Seen::Number(counters[0] + counters[1]),
            _ => Seen::Done,
        };
        turns.observe(seen);
    }
    assert!(turns.passed());
    assert_eq!(counters, [16, 16]);
    assert_eq!(asked, 16 * (6 + 7));
    let mut stuck = Turns::new();
    while let Some(act) = stuck.next() {
        stuck.observe(match act {
            Act::Resume { .. } => Seen::Stop(Stop::Preempted),
            _ => Seen::Done,
        });
    }
    assert!(!stuck.passed());
}

#[test]
fn entries_end_and_callers_wait() {
    let enter = |stop| {
        let mut entry = Entry::new(Who::First);
        let mut blocked = false;
        while let Some(act) = entry.next() {
            entry.observe(match act {
                Act::BeginTurn { .. } => Seen::Holder(Holder::Own),
                Act::ResumeInTurn(_) => Seen::Stop(stop),
                Act::Block(_) => {
                    blocked = true;
                    Seen::Done
                },
                _ => Seen::Done,
            });
        }
        (entry.outcome(), blocked)
    };
    assert_eq!(enter(Stop::HandleCall), (Some(Seen::Stop(Stop::HandleCall)), true));
    assert_eq!(enter(Stop::HeapGrowth), (Some(Seen::Stop(Stop::HeapGrowth)), true));
    assert_eq!(enter(Stop::Yielded), (Some(Seen::Stop(Stop::Yielded)), false));
    assert_eq!(enter(Stop::Exited(3)), (Some(Seen::Stop(Stop::Exited(3))), false));
    assert_eq!(enter(Stop::Preempted), (Some(Seen::Refused(Refusal::Other)), false));
}

#[test]
fn processes_take_turns_and_nobody_starves() {
    let mut rotation = Rotation::new();
    let mut turn = 0;
    let mut chosen = 0;
    let mut counts = [0_u64, 0, 0];
    let mut overdrawn = false;
    while let Some(act) = rotation.next() {
        let own = turn % 2 == 1;
        let seen = match act {
            Act::BeginTurn { .. } => {
                chosen = 0;
                Seen::Holder(if own { Holder::Own } else { Holder::Other })
            },
            Act::Deadline => Seen::Number(99),
            Act::ChooseSibling => {
                chosen += 1;
                Seen::Who(match (own, chosen) {
                    (false, _) => Who::Foreign,
                    (true, 1) => Who::First,
                    (true, _) => Who::Second,
                })
            },
            Act::Word(SHARED_COUNTER) | Act::OtherWord(SHARED_COUNTER) => Seen::Number(1),
            Act::ResumeInTurn(_) if overdrawn => Seen::Stop(Stop::Expired),
            Act::ResumeInTurn(who) => {
                counts[match who {
                    Who::First => 0,
                    Who::Second => 1,
                    _ => 2,
                }] += 1;
                Seen::Stop(Stop::Yielded)
            },
            Act::Word(FIRST_COUNTER) => Seen::Number(counts[0]),
            Act::Word(SECOND_COUNTER) => Seen::Number(counts[1]),
            Act::OtherWord(_) => Seen::Number(counts[2]),
            Act::StepsLeft => Seen::Number(0),
            Act::Dispatch(_) => {
                overdrawn = true;
                Seen::Done
            },
            Act::Work => Seen::Number(3),
            Act::EndTurn => {
                overdrawn = false;
                turn += 1;
                Seen::Done
            },
            _ => Seen::Done,
        };
        rotation.observe(seen);
    }
    assert!(rotation.passed());
    assert_eq!(turn, 8);
    assert_eq!(counts, [4, 4, 8]);
}

fn token(kind: Kind, slot: u32) -> Token {
    Token { kind, slot, generation: 1 }
}

fn script(count: usize) -> Script {
    let mut script = Script::new();
    for _ in 0..count {
        assert!(script.push(Request::Unlock(token(Kind::Mutex, 1)), Outcome::Success));
    }
    script
}

fn drive(schedule: &mut Schedule, lengths: [u64; 2], waits: bool) {
    let mut calls = [0_u64, 0];
    let mut blocked = [false, false];
    let index = |who: Who| usize::from(who == Who::Second);
    while let Some(act) = schedule.next() {
        let seen = match act {
            Act::WaitIsOver(who) => {
                blocked[index(who)] = false;
                Seen::Flag(true)
            },
            Act::StateOf(who) if blocked[index(who)] => Seen::State(ThreadState::Blocked),
            Act::StateOf(_) => Seen::State(ThreadState::Ready),
            Act::EndWait(_) => Seen::Number(0),
            Act::Resume { who, .. } if calls[index(who)] < lengths[index(who)] => {
                calls[index(who)] += 1;
                Seen::Stop(Stop::SchedulerCall)
            },
            Act::Resume { .. } => Seen::Stop(Stop::Yielded),
            Act::Execute(Who::First) if waits => {
                blocked[0] = true;
                Seen::Progress(Progress::Waiting)
            },
            Act::Execute(_) => Seen::Progress(Progress::Complete),
            Act::Word(FIRST_RX) | Act::Word(SECOND_RX) => Seen::Number(5),
            Act::Word(FIRST_COUNTER) => Seen::Number(calls[0]),
            Act::Word(SECOND_COUNTER) => Seen::Number(calls[1]),
            Act::Word(FIRST_FINISHED) | Act::Word(SECOND_FINISHED) => Seen::Number(1),
            Act::TakeUpAgain(_) | Act::AnswerScheduler(_) => Seen::Refused(Refusal::Other),
            Act::ReplyIs { .. }
            | Act::TailIsClear { .. }
            | Act::CallIs { .. }
            | Act::IsCaller(_) => Seen::Flag(true),
            Act::SyncUsage => Seen::Numbers(0, 0),
            _ => Seen::Done,
        };
        schedule.observe(seen);
    }
}

#[test]
fn scripts_run_to_their_end() {
    let mut schedule = Schedule::new(script(3), script(1), false);
    drive(&mut schedule, [3, 1], true);
    assert!(schedule.passed());
    let mut idle = Schedule::new(script(3), script(1), false);
    drive(&mut idle, [3, 1], false);
    assert!(!idle.passed());
    let mut short = Schedule::new(script(3), script(1), false);
    drive(&mut short, [2, 1], true);
    assert!(!short.passed());
}

#[test]
fn scripts_are_bounded_and_apart() {
    let mut full = script(16);
    assert!(!full.push(Request::Current, Outcome::Success));
    assert_eq!(full.len(), 16);
    assert!(full.get(16).is_none());
    let first = place_script(false, &full).unwrap();
    let second = place_script(true, &full).unwrap();
    assert_eq!(first[0].request_at, 0x100);
    assert_eq!(first[1].request_at, 0x100 + 96);
    assert_eq!(first[1].reply_at, 0x100 + 96 + 64);
    assert!(first[15].reply_at + 32 <= second[0].request_at);
    assert_eq!(identity(Kind::Thread, 3, 4), Some(Token { kind: Kind::Thread, slot: 3, generation: 4 }));
    assert_eq!(identity(Kind::Thread, 1 << 32, 4), None);
    let words = list_script_words(true, 5, 77, true);
    assert_eq!(
        words.iter().map(|w| (w.offset, w.word)).collect::<Vec<(u64, u64)>>(),
        vec![(8, USER_DATA_BASE + 0x900), (40, 77), (48, 5), (64, 1)]
    );
    let objects = SyncObjects {
        mutex: token(Kind::Mutex, 1),
        condition: token(Kind::Condition, 2),
        permit: token(Kind::Permit, 3),
    };
    let (one, other) = sync_scripts(&objects, false);
    assert!(one.len() > 1 && other.len() > 1);
    let (one, other) = sync_scripts(&objects, true);
    assert_eq!((one.len(), other.len()), (1, 1));
}

#[test]
fn retirements_touch_every_page() {
    let touched: Vec<u64> = [
        WorkerPage::Stack,
        WorkerPage::Tls,
        WorkerPage::Tx,
        WorkerPage::Rx,
        WorkerPage::Startup,
    ]
    .iter()
    .map(|page| RetirementCase::Exit(*page).touched())
    .collect();
    assert_eq!(touched[0], FIRST_STACK);
    assert_eq!(touched[1], FIRST_TLS);
    assert_eq!(touched[2], FIRST_TX);
    assert_eq!(touched[3], FIRST_RX);
    assert!(RetirementCase::Abort(WorkerPage::Tx).is_revocation());
    assert!(!RetirementCase::Partial.is_revocation());
    assert_eq!(list_retirement_words(7, touched[0]).len(), 10);
    let lines = list_retirement_lines(token(Kind::Thread, 1), 9, false, true);
    assert!(lines.iter().all(|line| line.offset >= 0x100));
}

fn isolated() -> (MappingPlan, troe::memory::isolated::IsolatedAllocation) {
    let parts = split_isolated(pages(0x100_0000, 518)).unwrap();
    let mut kernel = MappingPlan::new(32);
    assert!(kernel.insert(PlannedMapping {
        virtual_range: pages(0x100_0000, 1024),
        physical: pages(0x100_0000, 1024),
        permissions: Permissions::ReadWrite,
        memory_type: MemoryType::Normal,
        owner: MappingOwner::KernelRuntime,
        user: false,
    }));
    let plan = build_isolated_plan(&kernel, &parts).unwrap();
    (plan, parts)
}

#[test]
fn probed_threads_share_no_frame() {
    let (plan, parts) = isolated();
    let threads =
        lay_out_threads(&plan, &parts, pages(0x900_0000, 2), pages(0x901_0000, 2)).unwrap();
    let user: Vec<&PlannedMapping> = threads.entries.iter().filter(|m| m.user).collect();
    for (i, one) in user.iter().enumerate() {
        for other in &user[i + 1..] {
            assert!(
                one.physical.end() <= other.physical.start()
                    || other.physical.end() <= one.physical.start()
            );
        }
    }
    assert!(threads.enforces_write_xor_execute());
    let worker = lay_out_worker(&threads, pages(0xa00_0000, 3), false).unwrap();
    let stack = worker
        .entries
        .iter()
        .find(|m| m.virtual_range.start() == FIRST_STACK)
        .unwrap();
    assert_eq!(stack.physical, pages(0xa00_0000, 1));
    let process = lay_out_process(&plan, &parts, true).unwrap();
    let shown = process.entries.iter().filter(|m| m.physical == parts.data).count();
    assert!(shown >= 2);
    assert!(lay_out_threads(
        &MappingPlan { capacity: 7, entries: plan.entries.clone() },
        &parts,
        pages(0x900_0000, 2),
        pages(0x901_0000, 2)
    )
    .is_none());
}

#[test]
fn threads_start_beside_one_another() {
    let first = thread_start(false);
    let second = thread_start(true);
    assert_eq!((first.entry, first.stack, first.tls), (USER_CODE_BASE, FIRST_STACK, FIRST_TLS));
    assert_eq!((first.startup, second.startup), (USER_DATA_BASE, USER_DATA_BASE + 8));
    assert!(verify_rx_tail(&[7, 0, 0], 8));
    assert!(!verify_rx_tail(&[7, 0, 1], 8));
    assert_eq!(list_first_contents().len(), 12);
    assert!(!list_heap_contents().is_empty());
    for architecture in [Architecture::X86_64, Architecture::Aarch64] {
        assert!(context_program(architecture).len() <= 4096);
        assert_ne!(context_program(architecture), sync_program(architecture));
    }
}

fn window() -> ThreadWindow {
    ThreadWindow {
        base: 0x90_0000,
        end: 0x91_0000,
        stack: pages(0x90_1000, 1),
        tls: pages(0x90_3000, 1),
        ipc: pages(0x90_5000, 2),
        startup: pages(0x90_8000, 1),
        thread_pointer: 0x90_3040,
        mapped_pages: 5,
        reserved_pages: 16,
        table_pages: 2,
    }
}

fn descriptor(worker: bool) -> StartupDescriptor {
    describe_probe(worker, ThreadKey { slot: u32::from(worker), generation: 1 }, &window())
}

#[test]
fn fresh_memory_holds_only_what_was_put_there() {
    assert_eq!(descriptor(true).argument, 0x55);
    assert!(descriptor(false).initial);
    assert_eq!(probe_entry(true, 0x40), USER_CODE_BASE + 0x40);
    assert_eq!(probe_entry(false, 0x40), USER_CODE_BASE);
    let memory = ThreadMemory {
        descriptor: descriptor(false),
        window_start: 0x90_0000,
        window_end: 0x91_0000,
        tls: TlsLayout { template: 0x10, pointer: 0x40 },
        architecture: Architecture::X86_64,
    };
    let checks = memory.list_checks(&[1, 2], 0);
    assert_eq!(checks.len(), 2 + 512 + 3 + 512 + 512);
    assert_eq!(checks[0].expected, Some(SEED));
    assert_eq!(checks[2].expected, Some(1));
    assert_eq!(checks[4].expected, Some(0));
    assert_eq!(checks[514].expected, None);
    assert_eq!(checks[517 + 8].expected, Some(0x90_3040));
    let mut words: Vec<Option<u64>> = checks.iter().map(|check| check.expected).collect();
    assert!(memory_is(&checks, &words));
    words[1100] = Some(1);
    assert!(!memory_is(&checks, &words));
    let later = memory.list_checks(&[1, 2], 3);
    assert_eq!(later.len(), 2 + 512 + 3);
    assert_eq!(later[0].expected, Some(SEED + 3 * 0x11));
    assert_eq!(list_process_words(2, 9)[0].word, HEADER);
    assert_eq!(AdmissionCase::GuardRead.code(), 3);
}

#[test]
fn copies_are_their_requests() {
    assert!(request_matches(&[5, 7, 1], 7, 1, false));
    assert!(!request_matches(&[5, 7, 2], 7, 1, false));
    assert!(!request_matches(&[5, 7], 7, 1, false));
    assert!(request_matches(&[5, 7, 1, 11, 12], 7, 1, true));
    assert!(!request_matches(&[5, 7, 1, 11, 13], 7, 1, true));
    assert!(copy_matches(&[5, 7, 1], &[5, 7, 1], 7));
    assert!(!copy_matches(&[5, 7, 1], &[5, 7, 2], 7));
    assert!(!copy_matches(&[5, 8, 1], &[5, 8, 1], 7));
    assert_eq!(
        handle_failure_line(3, b"reply"),
        b"native handle ownership failed: mode=3 stage=reply\n".to_vec()
    );
}

#[test]
fn threads_are_created_joined_and_forgotten() {
    let request = |state: &Creation, records| {
        state.prepare(state.cursor, 0x10, 1, 0x100, records, 20, 0x5000).unwrap()
    };
    let state = Creation::new();
    let rejected = state.prepare(0, 0x100, 1, 0x100, 1, 20, 0x5000).unwrap();
    assert_eq!(rejected.steps[0].act, Act::RejectPreparation { invalid: true });
    let crowded = state.prepare(0, 0x10, 1, 0x100, 3, 20, 0x5000).unwrap();
    assert_eq!(crowded.steps[0].act, Act::RejectPreparation { invalid: false });
    let state = request(&state, 1).after;
    assert!(state.injected && !state.second);
    let state = request(&state, 1).after;
    assert!(state.second && state.second_frames);
    let mut state = state.apply(0, Progress::Starting, false).unwrap().after;
    assert_eq!(state.choose_thread(&[true, true, false]), Some(1));
    assert!(state.stopped(0, Stop::Yielded).is_none());
    let mut state = state.stopped(1, Stop::Yielded).unwrap().after;
    assert!(state.worker_held);
    assert_eq!(state.choose_thread(&[true, true, false]), Some(0));
    let state = state.apply(0, Progress::Waiting, false).unwrap().after;
    assert_eq!(state.begin_turn(0, None), TurnStart::AskWait);
    assert_eq!(state.begin_turn(0, Some(false)), TurnStart::Choose);
    let state = state.prepare(1, 0x10, 1, 0x100, 2, 20, 0x5000).unwrap().after;
    let state = state.apply(1, Progress::Aborting, true).unwrap().after;
    assert!(!state.third);
    let state = state.prepare(1, 0x10, 1, 0x100, 2, 20, 0x5000).unwrap().after;
    assert_eq!(state.revoked, 0);
    let state = state.apply(1, Progress::Retiring, false).unwrap().after;
    assert_eq!(state.revoked, 1);
    assert_eq!(state.begin_turn(9, Some(true)), TurnStart::EndWait);
    let state = state.finish_wait().unwrap().after;
    assert!(state.joined);
    let state = state.apply(0, Progress::Retiring, false).unwrap().after;
    assert!(state.is_over() && state.is_complete());
    assert_eq!(state.begin_turn(9, None), TurnStart::Judge);
    assert_eq!(Creation::new().begin_turn(256, None), TurnStart::Judge);
}

#[test]
fn creations_open_and_close() {
    assert_eq!(creation_opening()[0].act, Act::TakeThreadFrames(Who::First));
    assert!(!creation_closing_steps().is_empty());
    assert!(!creation_confirming_steps().is_empty());
    assert!(!creation_returns().is_empty());
}

fn drive_creation(surprise: Option<usize>) -> (CreationRun, Vec<Act>) {
    let sizes = CreationSizes { code_bytes: 0x100, pairs: 20, stack: 0x5000 };
    let mut run = CreationRun::start(sizes, 500);
    let mut first = vec![
        Progress::Preparing,
        Progress::Preparing,
        Progress::Starting,
        Progress::Waiting,
        Progress::Retiring,
    ]
    .into_iter();
    let mut second = vec![
        Progress::Preparing,
        Progress::Aborting,
        Progress::Preparing,
        Progress::Retiring,
    ]
    .into_iter();
    let mut started = false;
    let mut yielded = false;
    let mut acts = Vec::new();
    while let Some(act) = run.next() {
        let seen = match run.stage {
            CreationStage::Asking => oblige(run.queue[run.at].want, &run.book),
            CreationStage::AskWait => Seen::Flag(!run.known.second_frames),
            CreationStage::Look(index) => {
                let ready = match index {
                    0 => !run.known.waiting,
                    1 => started && run.known.second_frames,
                    _ => false,
                };
                Seen::State(if ready { ThreadState::Ready } else { ThreadState::Revoked })
            },
            CreationStage::Run(1) if !yielded => {
                yielded = true;
                Seen::Stop(Stop::Yielded)
            },
            CreationStage::Run(_) => Seen::Stop(Stop::SchedulerCall),
            CreationStage::Execute(index) => {
                let progress = if index == 0 { first.next() } else { second.next() }.unwrap();
                started = started || progress == Progress::Starting;
                Seen::Progress(progress)
            },
            CreationStage::Requested(_) => Seen::Numbers(0x10, 1),
            CreationStage::Records(_, _, _) => Seen::Number(2),
            CreationStage::Target(_) => Seen::Flag(true),
            _ => Seen::Done,
        };
        let odd = surprise == Some(acts.len());
        acts.push(act);
        run.observe(if odd { Seen::Broke } else { seen });
        assert!(acts.len() < 1000);
    }
    (run, acts)
}

#[test]
fn a_creation_runs_to_its_end() {
    let (run, acts) = drive_creation(None);
    assert!(run.passed());
    assert!(run.known.is_complete());
    assert!(run.turns < 20);
    let back = acts.iter().position(|act| *act == Act::FreeSpareFrames).unwrap();
    assert_eq!(acts[back - 1], Act::DropContext);
    assert_eq!(acts[back + 1], Act::ReclaimAll);
    assert_eq!(acts.len() - back - 2, creation_confirming_steps().len());
}

#[test]
fn a_surprised_creation_gives_everything_back() {
    let (_, all) = drive_creation(None);
    for odd in 0..all.len() - creation_confirming_steps().len() - 3 {
        if matches!(all[odd], Act::StateOf(_)) {
            continue;
        }
        let (run, acts) = drive_creation(Some(odd));
        assert!(!run.passed());
        assert_eq!(*acts.last().unwrap(), Act::ReclaimAll);
        assert_eq!(run.stage, CreationStage::Failed);
    }
    let (run, _) = drive_creation(Some(all.len() - 1));
    assert_eq!(run.stage, CreationStage::Failed);
    let (run, _) = drive_creation(Some(all.len() - creation_confirming_steps().len() - 1));
    assert_eq!(run.stage, CreationStage::Stuck);
}
