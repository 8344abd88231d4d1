//! Calls that wait: routing, decoding, waiting and answering.

use troe::deferred::answer::{
    answer_diagnostics, deferred_reply, diagnostics_wake, finish_reply, fit_reply, write_is_kept,
    AnswerPlan, DiagnosticsWake, Found, Reply, ServerReply, WakeReason,
};
use troe::deferred::calls::{
    bounds_respected, command_handle_interface, nothing_pending, owned_reply_payload, revoke_owner,
    ApplicationHandle, SuspendedCalls, WaitTotals,
};
use troe::deferred::prepare::{
    answered_call, begin_wait, decoded_call, route_call, Answer, Awaited, Block, CallRequest,
    Decode, Decoded, DeferredCodes, DeferredKind, DeferredServices, PipeTarget, Prepared, Question,
    StreamBinding, WaitSpec,
};
use troe::deferred::resume::{ResumeAction, ResumeEvent, ResumeRun, Woken};
use troe::deferred::waiting::{CallWait, WaitAction, WaitEvent};
use troe::reply::ReplyStatus;

const CODES: DeferredCodes = DeferredCodes {
    process_launch: 10,
    pipe: 11,
    standard_input: 12,
    standard_output: 13,
    standard_error: 14,
    timer: 15,
    diagnostics: 16,
    datagram: 17,
    child_wait: 1,
    pipe_read: 1,
    pipe_write: 2,
    stream_read: 1,
    stream_write: 2,
    sleep_until: 1,
    get_snapshot: 1,
    receive: 3,
    terminal_identity: 999,
};

fn services() -> DeferredServices {
    DeferredServices {
        owner: Some(7),
        children: true,
        pipes: true,
        terminal: false,
        diagnostics: true,
        datagram: true,
        streams: vec![StreamBinding { interface: 13, token: 55 }],
    }
}

fn call(interface: u32, opcode: u16, payload_bytes: usize) -> CallRequest {
    CallRequest { task: 4, interface, opcode, payload_bytes }
}

fn route(services: &DeferredServices, interface: u32, opcode: u16, bytes: usize) -> Prepared {
    route_call(&CODES, services, &call(interface, opcode, bytes))
}

#[test]
fn calls_are_routed_by_interface_and_operation() {
    let all = services();
    assert!(matches!(route(&all, 10, 1, 8), Prepared::Decode(Decode::Child { owner: 7 })));
    assert!(matches!(route(&all, 11, 1, 8), Prepared::Decode(Decode::PipeRead { owner: 7 })));
    assert!(matches!(route(&all, 11, 2, 8), Prepared::Decode(Decode::PipeWrite { owner: 7 })));
    assert!(matches!(route(&all, 15, 1, 8), Prepared::Decode(Decode::Deadline)));
    assert!(matches!(route(&all, 17, 3, 2), Prepared::Decode(Decode::Port)));
    assert!(matches!(route(&all, 12, 1, 8), Prepared::NotDeferred));
    assert!(matches!(
        route(&all, 13, 2, 5),
        Prepared::Ask(Question::WritePipe {
            target: PipeTarget::Stream { token: 55 },
            byte_count: 5
        })
    ));
    assert!(matches!(route(&all, 13, 2, 0), Prepared::NotDeferred));
    assert!(matches!(route(&all, 99, 1, 0), Prepared::NotDeferred));
    let with_terminal = DeferredServices { terminal: true, ..services() };
    assert!(matches!(route(&with_terminal, 12, 1, 8), Prepared::Decode(Decode::TerminalRead)));
    let bound = DeferredServices {
        streams: vec![StreamBinding { interface: 12, token: 6 }],
        ..services()
    };
    assert!(matches!(
        route(&bound, 12, 1, 8),
        Prepared::Decode(Decode::StreamRead { token: 6 })
    ));
}

#[test]
fn missing_services_are_reported() {
    let none = DeferredServices { owner: None, ..services() };
    assert!(matches!(route(&none, 10, 1, 8), Prepared::Status(ReplyStatus::Conflict)));
    assert!(matches!(route(&none, 11, 1, 8), Prepared::Status(ReplyStatus::Conflict)));
    let bare =
        DeferredServices { children: false, pipes: false, diagnostics: false, ..services() };
    assert!(matches!(route(&bare, 10, 1, 8), Prepared::Status(ReplyStatus::NotFound)));
    assert!(matches!(route(&bare, 11, 2, 8), Prepared::Status(ReplyStatus::NotFound)));
    assert!(matches!(route(&bare, 16, 1, 0), Prepared::Status(ReplyStatus::NotFound)));
    assert!(matches!(route(&bare, 16, 1, 1), Prepared::Status(ReplyStatus::InvalidRequest)));
    assert!(matches!(
        route(&services(), 16, 1, 0),
        Prepared::Block(Block {
            awaited: Awaited::OwnOperation,
            deadline: None,
            kind: DeferredKind::Diagnostics
        })
    ));
}

#[test]
fn decoded_calls_are_asked_or_answered() {
    let all = services();
    assert!(matches!(
        decoded_call(&all, Decode::Child { owner: 7 }, Decoded::Token(3), 0),
        Prepared::Ask(Question::Child { owner: 7, token: 3 })
    ));
    assert!(matches!(
        decoded_call(&all, Decode::Child { owner: 7 }, Decoded::Malformed, 0),
        Prepared::Status(ReplyStatus::InvalidRequest)
    ));
    assert!(matches!(
        decoded_call(&all, Decode::Deadline, Decoded::Time(10), 10),
        Prepared::Status(ReplyStatus::Success)
    ));
    assert!(matches!(
        decoded_call(&all, Decode::Deadline, Decoded::Time(11), 10),
        Prepared::Block(Block { awaited: Awaited::OnlyTime, deadline: Some(11), .. })
    ));
    let offline = DeferredServices { datagram: false, ..services() };
    assert!(matches!(
        decoded_call(&offline, Decode::Port, Decoded::Port(80), 0),
        Prepared::Status(ReplyStatus::NotFound)
    ));
    assert!(matches!(
        decoded_call(&all, Decode::Port, Decoded::Port(80), 0),
        Prepared::Ask(Question::ClaimPort { port: 80 })
    ));
}

#[test]
fn answers_end_or_block_a_call() {
    let answered = |question, answer, now| answered_call(&CODES, 4, question, answer, now);
    let child = Question::Child { owner: 7, token: 3 };
    assert!(matches!(
        answered(child, Answer::Busy, 0),
        Prepared::Status(ReplyStatus::Conflict)
    ));
    assert!(matches!(
        answered(child, Answer::WouldBlock, 0),
        Prepared::Block(Block {
            awaited: Awaited::Thing { identity: 3, holder: 7 },
            deadline: None,
            kind: DeferredKind::Child { owner: 7, token: 3 }
        })
    ));
    let write = Question::WritePipe { target: PipeTarget::Stream { token: 5 }, byte_count: 9 };
    assert!(matches!(answered(write, Answer::Busy, 0), Prepared::Broken));
    assert!(matches!(answered(write, Answer::Written(8), 0), Prepared::Broken));
    assert!(matches!(
        answered(write, Answer::Written(9), 0),
        Prepared::Status(ReplyStatus::Success)
    ));
    assert!(matches!(
        answered(Question::ReadTerminal { maximum: 2 }, Answer::WouldBlock, 0),
        Prepared::Block(Block { awaited: Awaited::Thing { identity: 999, holder: 4 }, .. })
    ));
    assert!(matches!(
        answered(Question::ClaimPort { port: 80 }, Answer::Claimed(80), 0),
        Prepared::Ask(Question::Receive { port: 80 })
    ));
    assert!(matches!(
        answered(Question::Receive { port: 80 }, Answer::WouldBlock, 100),
        Prepared::Block(Block { deadline: Some(4100), .. })
    ));
    assert!(matches!(
        answered(Question::Receive { port: 80 }, Answer::WouldBlock, u64::MAX),
        Prepared::Block(Block { deadline: Some(u64::MAX), .. })
    ));
    assert!(matches!(
        answered(child, Answer::Error(ReplyStatus::NotFound), 0),
        Prepared::Status(ReplyStatus::NotFound)
    ));
    assert!(matches!(answered(child, Answer::Unencodable, 0), Prepared::Broken));
}

#[test]
fn woken_calls_are_answered_by_cause() {
    let timer = DeferredKind::Timer { deadline: 5 };
    let datagram = DeferredKind::Datagram { port: 80, deadline: 5 };
    assert_eq!(
        deferred_reply(timer, WakeReason::Deadline),
        AnswerPlan::Status(ReplyStatus::Success)
    );
    assert_eq!(
        deferred_reply(datagram, WakeReason::Deadline),
        AnswerPlan::Status(ReplyStatus::Timeout)
    );
    assert_eq!(deferred_reply(DeferredKind::Diagnostics, WakeReason::Deadline), AnswerPlan::Broken);
    for kind in [timer, datagram] {
        assert_eq!(
            deferred_reply(kind, WakeReason::Cancelled),
            AnswerPlan::Status(ReplyStatus::Cancelled)
        );
        assert_eq!(
            deferred_reply(kind, WakeReason::Closed),
            AnswerPlan::Status(ReplyStatus::Conflict)
        );
    }
    assert_eq!(deferred_reply(datagram, WakeReason::ResourceReady), AnswerPlan::Datagram);
    assert_eq!(deferred_reply(timer, WakeReason::ResourceReady), AnswerPlan::Broken);
}

#[test]
fn replies_are_what_was_found() {
    let write = AnswerPlan::WritePipe { target: PipeTarget::Stream { token: 1 }, byte_count: 3 };
    assert!(matches!(
        finish_reply(write, Found::Written(3)),
        Reply::Status(ReplyStatus::Success)
    ));
    assert!(matches!(finish_reply(write, Found::Written(2)), Reply::Broken));
    match finish_reply(AnswerPlan::Datagram, Found::Reply(vec![1, 2])) {
        Reply::Bytes(bytes) => assert_eq!(bytes, vec![1, 2]),
        _ => panic!("bytes expected"),
    }
    assert!(matches!(finish_reply(AnswerPlan::Datagram, Found::Failed), Reply::Broken));
    let own = PipeTarget::Owned { owner: 7, token: 3 };
    assert!(write_is_kept(own, 9, Some((3, 9)), 17));
    assert!(!write_is_kept(own, 9, Some((4, 9)), 17));
    assert!(!write_is_kept(own, 9, None, 17));
    assert!(write_is_kept(PipeTarget::Stream { token: 3 }, 9, None, 9));
    assert!(!write_is_kept(PipeTarget::Stream { token: 3 }, 9, None, 17));
    assert!(matches!(fit_reply(Reply::Bytes(vec![0; 4]), 4), Reply::Bytes(_)));
    assert!(matches!(fit_reply(Reply::Bytes(vec![0; 5]), 4), Reply::Broken));
}

#[test]
fn diagnostics_answer_with_the_server() {
    assert_eq!(diagnostics_wake(WakeReason::ResourceReady), DiagnosticsWake::WakeWaiter);
    let reply = || ServerReply { status: ReplyStatus::Success, payload: vec![1] };
    match answer_diagnostics(WakeReason::ResourceReady, Some(reply())) {
        Reply::Served(answer) => assert_eq!(answer.payload, vec![1]),
        _ => panic!("reply expected"),
    }
    assert!(matches!(
        answer_diagnostics(WakeReason::ResourceReady, None),
        Reply::Broken
    ));
    assert!(matches!(
        answer_diagnostics(WakeReason::Closed, Some(reply())),
        Reply::Status(ReplyStatus::Conflict)
    ));
    assert!(matches!(
        answer_diagnostics(WakeReason::Revoked, None),
        Reply::Status(ReplyStatus::Cancelled)
    ));
}

#[test]
fn one_call_waits_at_a_time() {
    let mut calls: SuspendedCalls<&str> = SuspendedCalls::new();
    let idle =
        WaitTotals { pending: 0, retained_bytes: 0, waits: 0, pending_peak: 1, waits_peak: 1 };
    assert!(calls.is_empty());
    assert_eq!(calls.insert(5, "first"), Ok(()));
    assert_eq!(calls.insert(6, "second"), Err("second"));
    assert!(!nothing_pending(idle, &calls));
    assert_eq!(calls.get(5), Some(&"first"));
    assert_eq!(calls.get(6), None);
    assert_eq!(calls.take(6), None);
    assert_eq!(calls.take(5), Some("first"));
    assert!(calls.is_empty());
    assert!(calls.respected_bounds());
    assert!(nothing_pending(idle, &calls));
    assert!(bounds_respected(idle, &calls));
    assert!(!bounds_respected(WaitTotals { waits_peak: 2, ..idle }, &calls));
    assert_eq!(calls.insert(7, "third"), Ok(()));
    assert!(!revoke_owner(&mut calls, true, false));
    assert!(!calls.is_empty());
    assert!(revoke_owner(&mut calls, true, true));
    assert!(calls.is_empty());
}

#[test]
fn handles_lead_to_interfaces() {
    let handles = vec![
        ApplicationHandle { value: 1, interface: 10 },
        ApplicationHandle { value: 2, interface: 20 },
        ApplicationHandle { value: 1, interface: 30 },
    ];
    assert_eq!(command_handle_interface(&handles, 1), Some(10));
    assert_eq!(command_handle_interface(&handles, 3), None);
    assert_eq!(owned_reply_payload(b"ab"), b"ab".to_vec());
}

#[test]
fn timers_idle_in_slices_and_expire() {
    let mut wait = CallWait::start(DeferredKind::Timer { deadline: 120 });
    assert_eq!(wait.observe(WaitEvent::Looked { waiting: true }), WaitAction::Check);
    assert_eq!(
        wait.observe(WaitEvent::Checked { interrupted: false, now: 0 }),
        WaitAction::Idle(50)
    );
    assert_eq!(wait.observe(WaitEvent::Idled), WaitAction::Look);
    wait.observe(WaitEvent::Looked { waiting: true });
    assert_eq!(
        wait.observe(WaitEvent::Checked { interrupted: false, now: 100 }),
        WaitAction::Idle(20)
    );
    wait.observe(WaitEvent::Idled);
    wait.observe(WaitEvent::Looked { waiting: true });
    assert_eq!(
        wait.observe(WaitEvent::Checked { interrupted: false, now: 120 }),
        WaitAction::Expire
    );
    assert_eq!(wait.observe(WaitEvent::Ended { completed: false }), WaitAction::Look);
}

#[test]
fn datagrams_wake_their_port() {
    let mut wait = CallWait::start(DeferredKind::Datagram { port: 80, deadline: 120 });
    wait.observe(WaitEvent::Looked { waiting: true });
    assert_eq!(
        wait.observe(WaitEvent::Checked { interrupted: false, now: 0 }),
        WaitAction::Receive
    );
    assert_eq!(wait.observe(WaitEvent::Received { arrived: true }), WaitAction::WakePort);
    assert_eq!(wait.observe(WaitEvent::Ended { completed: true }), WaitAction::Complete);
    let mut lost = CallWait::start(DeferredKind::Datagram { port: 80, deadline: 120 });
    assert_eq!(lost.observe(WaitEvent::Looked { waiting: false }), WaitAction::Broken);
    let mut interrupted = CallWait::start(DeferredKind::Timer { deadline: 120 });
    interrupted.observe(WaitEvent::Looked { waiting: true });
    assert_eq!(
        interrupted.observe(WaitEvent::Checked { interrupted: true, now: 0 }),
        WaitAction::CancelOperation
    );
}

#[test]
fn waits_are_numbered_and_registered() {
    let mut next: u64 = 8;
    let sleep = Block {
        awaited: Awaited::OnlyTime,
        deadline: Some(90),
        kind: DeferredKind::Timer { deadline: 90 },
    };
    assert_eq!(
        begin_wait(sleep, 4, Some(31), &mut next),
        Some(WaitSpec { task: 4, operation: 31, resource: None, deadline: Some(90) })
    );
    assert_eq!(next, 9);
    let served =
        Block { awaited: Awaited::OwnOperation, deadline: None, kind: DeferredKind::Diagnostics };
    assert_eq!(
        begin_wait(served, 4, Some(32), &mut next).unwrap().resource,
        Some((32, 4))
    );
    assert_eq!(begin_wait(served, 4, None, &mut next), None);
    assert_eq!(next, 10);
    let mut last = u64::MAX;
    assert_eq!(begin_wait(served, 4, Some(33), &mut last), None);
    assert_eq!(last, u64::MAX);
}

#[test]
fn timers_are_resumed_after_their_wait() {
    let mut run = ResumeRun::start(DeferredKind::Timer { deadline: 1 }, false, 0);
    let events = [
        ResumeEvent::Blocked,
        ResumeEvent::Done,
        ResumeEvent::Done,
        ResumeEvent::Done,
        ResumeEvent::Waited(WakeReason::Deadline),
        ResumeEvent::Done,
        ResumeEvent::Done,
        ResumeEvent::Done,
        ResumeEvent::Taken(DeferredKind::Timer { deadline: 1 }),
    ];
    for event in events {
        run = run.observe(event);
    }
    assert!(matches!(run.doing, ResumeAction::Answer(WakeReason::Deadline)));
    run = run.observe(ResumeEvent::Answered(Reply::Status(ReplyStatus::Success)));
    assert!(matches!(run.doing, ResumeAction::Finish(_)));
    run = run.observe(ResumeEvent::Done);
    assert!(matches!(run.doing, ResumeAction::Resume(Reply::Status(ReplyStatus::Success))));
    let mut early = ResumeRun::start(DeferredKind::Timer { deadline: 1 }, false, 0);
    early = early.observe(ResumeEvent::Ready(WakeReason::Deadline));
    assert!(matches!(early.doing, ResumeAction::MarkReady(WakeReason::Deadline)));
    early = early.observe(ResumeEvent::Done);
    early = early.observe(ResumeEvent::Answered(Reply::Bytes(vec![1])));
    assert!(matches!(early.doing, ResumeAction::Broken));
}

#[test]
fn diagnostics_are_served_while_registered() {
    let blind = ResumeRun::start(DeferredKind::Diagnostics, false, 8);
    assert!(matches!(blind.observe(ResumeEvent::Blocked).doing, ResumeAction::Broken));
    let served = |reason, taken| {
        let mut run = ResumeRun::start(DeferredKind::Diagnostics, true, 8);
        let reply = ServerReply { status: ReplyStatus::Success, payload: vec![7] };
        let events = [
            ResumeEvent::Blocked,
            ResumeEvent::Done,
            ResumeEvent::Done,
            ResumeEvent::Done,
            ResumeEvent::Served(Woken { reason, server: Some(reply) }),
            ResumeEvent::Done,
            ResumeEvent::Done,
            ResumeEvent::Done,
            ResumeEvent::Done,
            ResumeEvent::Taken(taken),
        ];
        for event in events {
            run = run.observe(event);
        }
        run.doing
    };
    match served(WakeReason::ResourceReady, DeferredKind::Diagnostics) {
        ResumeAction::Finish(Reply::Served(reply)) => assert_eq!(reply.payload, vec![7]),
        _ => panic!("reply expected"),
    }
    assert!(matches!(
        served(WakeReason::Revoked, DeferredKind::Diagnostics),
        ResumeAction::Finish(Reply::Status(ReplyStatus::Cancelled))
    ));
    assert!(matches!(
        served(WakeReason::Closed, DeferredKind::Timer { deadline: 1 }),
        ResumeAction::Broken
    ));
}
