//! Message probes: measured runs, fates and launching.

use troe::command::outcome::TaskFault;
use troe::ipc::acceptance::{AcceptAction, AcceptRun};
use troe::ipc::baseline::{
    planned_runs, ratio_passes, run_checks, run_is_accepted, run_opcode, tags_are_fresh,
    warmup_is_complete, MachineCounters, MeasuredRun, PairCounters, PlannedRun, TagCounters,
    TagLiveness,
};
use troe::ipc::failures::{complaint_line, Complaint};
use troe::ipc::fates::{
    client_goes_on, client_survived, death_is_clean, fate_checks, fate_opcodes, fates_report,
    FateAction, FateCounters, FateEvent, FateRun, IpcStop, Observation, CLIENT, SERVER,
};
use troe::ipc::launch::{
    artifact, client_configuration, initial_grant, initial_interfaces, requirements_match,
    CommonVersions, HandleRights, InitialInterface, LaunchAction, LaunchEvent, LaunchRun,
    ProbeRequest, Requirement, Version,
};
use troe::ipc::measuring::{MeasureAction, MeasureEvent, MeasureRun};
use troe::memory::isolated::Architecture;

fn counters(direct: u64, queued: u64, traps: u64) -> MachineCounters {
    let calls = direct + queued;
    MachineCounters {
        pair: PairCounters {
            completed: calls,
            direct,
            queued,
            request_copies: direct + 2 * queued,
            reply_copies: calls,
            additional_lease_programs: 0,
            traps,
            queue_zeroes: queued,
        },
        tags: TagCounters {
            root_writes: 2 * calls,
            full_invalidations: 0,
            targeted_invalidations: 0,
            hits: 2 * calls,
        },
        timer_programs: if calls == 0 { 0 } else { 1 },
        allocation_calls: 5,
    }
}

#[test]
fn runs_advance_their_counters_exactly() {
    let before = counters(0, 0, 0);
    let direct = counters(256, 0, 513);
    assert!(run_checks(&before, &direct, 64, false, true));
    assert!(!run_checks(&before, &direct, 0, false, true));
    assert!(!run_checks(&before, &direct, 64, true, true));
    assert!(!run_checks(&before, &direct, 64, false, false));
    assert!(run_checks(&before, &counters(0, 256, 769), 64, true, true));
    assert!(!run_checks(&direct, &before, 64, false, true));
    let allocating = MachineCounters { allocation_calls: 6, ..direct };
    assert!(!run_checks(&before, &allocating, 64, false, true));
}

#[test]
fn direct_calls_are_fast_enough() {
    assert!(ratio_passes(60, 100, 64));
    assert!(!ratio_passes(61, 100, 64));
    assert!(ratio_passes(70, 100, 4096));
    assert!(ratio_passes(u64::MAX, u64::MAX, 64));
    assert!(run_is_accepted(true, true, false));
    assert!(run_is_accepted(false, false, false));
    assert!(!run_is_accepted(true, false, false));
}

#[test]
fn runs_are_recorded() {
    let run = MeasuredRun {
        queued: false,
        bytes: 64,
        p95: 50,
        compatibility_p95: 100,
        tagged: true,
        request_copies: 256,
        reply_copies: 256,
        root_writes: 512,
        targeted: 0,
        full: 0,
        queue_zeroes: 0,
        traps: 513,
        hits: 512,
        additional_lease_programs: 0,
    };
    assert_eq!(
        String::from_utf8(run.line()).unwrap(),
        "ipc-phase-b path=persistent-direct payload=64 warmup=64 samples=256 p95_ticks=50 \
         compatibility_p95=100 ratio_limit=60 ratio_pass=1 tagged=1 calls=256 request_copies=256 \
         reply_copies=256 root_writes=512 targeted_invalidations=0 full_invalidations=0 \
         queue_slots=0 traps=513 tag_hits=512 steady_allocations=0 scheduler_scans=0 \
         additional_lease_programs=0\n"
    );
    let runs = planned_runs();
    assert_eq!(runs.len(), 8);
    assert_eq!((runs[7].bytes, runs[7].queued), (4096, true));
    assert_eq!((run_opcode(false), run_opcode(true)), (1, 2));
}

const LIVE: TagLiveness = TagLiveness { stale: false, client: true, server: true };
const DEAD: TagLiveness = TagLiveness { stale: true, client: false, server: false };

fn measured(queued: bool, p95: u64, free: u64) -> MeasureAction {
    let mut run = MeasureRun::start(PlannedRun { bytes: 64, queued }, 100, 9);
    let after = if queued { counters(0, 256, 769) } else { counters(256, 0, 513) };
    let counted = |counters| MeasureEvent::Counted { counters, tagged: true, scheduler_idle: true };
    let ran = |samples| MeasureEvent::Ran { yielded: true, quiescent: true, samples };
    let events = [
        MeasureEvent::Done,
        MeasureEvent::Done,
        MeasureEvent::Done,
        MeasureEvent::Tags(LIVE),
        MeasureEvent::Done,
        MeasureEvent::Done,
        ran(64),
        counted(counters(0, 0, 0)),
        ran(256),
        counted(after),
        MeasureEvent::Emitted { p95 },
        MeasureEvent::Done,
        MeasureEvent::Done,
        MeasureEvent::Done,
        MeasureEvent::Tags(DEAD),
        MeasureEvent::Done,
        MeasureEvent::Done,
        MeasureEvent::Cleared { client: true, server: true },
        MeasureEvent::Done,
        MeasureEvent::Free(free),
    ];
    for event in events {
        run.observe(event);
    }
    run.doing
}

#[test]
fn runs_leave_nothing() {
    assert!(tags_are_fresh(LIVE));
    assert!(!tags_are_fresh(TagLiveness { stale: true, ..LIVE }));
    assert!(warmup_is_complete(true, true, 64));
    assert!(!warmup_is_complete(true, true, 63));
    assert_eq!(measured(false, 60, 9), MeasureAction::Passed);
    assert_eq!(measured(false, 61, 9), MeasureAction::Failed);
    assert_eq!(measured(true, 61, 9), MeasureAction::Passed);
    assert_eq!(measured(true, 61, 8), MeasureAction::Failed);
}

#[test]
fn servers_without_a_client_are_ended() {
    let mut run = MeasureRun::start(PlannedRun { bytes: 0, queued: true }, 100, 9);
    let told = ProbeRequest { bytes: 0, opcode: 2, argument: 0 };
    assert_eq!(run.observe(MeasureEvent::Done), MeasureAction::LaunchServer(told));
    assert_eq!(run.observe(MeasureEvent::Done), MeasureAction::LaunchClient(told));
    assert_eq!(run.observe(MeasureEvent::Failed), MeasureAction::EndLoneServer);
    assert_eq!(run.observe(MeasureEvent::Done), MeasureAction::ReclaimLoneServer);
    assert_eq!(run.observe(MeasureEvent::Done), MeasureAction::Failed);
}

fn seen(stop: IpcStop) -> Observation {
    Observation {
        stop,
        counters: FateCounters {
            completed: 2,
            direct: 0,
            queued: 1,
            queue_zeroes: 1,
            timeouts: 1,
            peer_deaths: 1,
        },
        quiescent: true,
        timer_programs: 1,
        elapsed: 50,
    }
}

#[test]
fn every_behaviour_meets_its_fate() {
    let lease = IpcStop::Faulted { peer: SERVER, fault: TaskFault::ExecutionLeaseExpired };
    let invalid = |peer| IpcStop::Faulted { peer, fault: TaskFault::InvalidCall };
    let denied = IpcStop::Faulted { peer: SERVER, fault: TaskFault::Permission };
    let gone = |peer| IpcStop::Exited { peer, status: 0 };
    let fates = [
        (3, lease),
        (4, gone(SERVER)),
        (5, invalid(SERVER)),
        (6, invalid(SERVER)),
        (7, denied),
        (8, denied),
        (9, invalid(CLIENT)),
        (10, gone(CLIENT)),
        (11, invalid(CLIENT)),
        (13, invalid(SERVER)),
        (16, lease),
        (17, gone(SERVER)),
    ];
    assert_eq!(fate_opcodes(), fates.iter().map(|fate| fate.0).collect::<Vec<u16>>());
    for (opcode, stop) in fates {
        assert!(fate_checks(opcode, &seen(stop)));
        assert!(!fate_checks(opcode, &seen(IpcStop::Yielded)));
        assert!(!fate_checks(opcode, &Observation { quiescent: false, ..seen(stop) }));
    }
    assert!(!fate_checks(3, &Observation { elapsed: 48, ..seen(lease) }));
    assert!(!fate_checks(3, &Observation { elapsed: 251, ..seen(lease) }));
    assert!(!fate_checks(12, &seen(gone(SERVER))));
}

#[test]
fn clients_learn_of_a_death() {
    let gone = IpcStop::Exited { peer: SERVER, status: 0 };
    assert!(client_goes_on(gone));
    assert!(!client_goes_on(IpcStop::Yielded));
    assert!(client_survived(IpcStop::Exited { peer: CLIENT, status: 0 }));
    assert!(!client_survived(gone));
    assert!(death_is_clean(&seen(gone).counters, true));
    assert!(!death_is_clean(&seen(gone).counters, false));
    assert!(fates_report().contains("fates=12"));
    let mut run = FateRun::start(4, 7);
    assert_eq!(
        run.observe(FateEvent::Done),
        FateAction::LaunchServer(ProbeRequest { bytes: 8, opcode: 4, argument: 0 })
    );
    assert_eq!(
        run.observe(FateEvent::ServerReady { channel: 4096 }),
        FateAction::LaunchClient(ProbeRequest { bytes: 8, opcode: 4, argument: 4096 })
    );
    run.observe(FateEvent::Done);
    run.observe(FateEvent::Done);
    run.observe(FateEvent::Done);
    run.observe(FateEvent::Started { now: 100, timer_programs: 3 });
    assert_eq!(
        run.observe(FateEvent::Ran {
            stop: gone,
            counters: seen(gone).counters,
            quiescent: true,
            now: 101,
            timer_programs: 4
        }),
        FateAction::CheckDeath
    );
    assert_eq!(run.observe(FateEvent::Death { server_zero: true }), FateAction::RunAgain);
    let ended = IpcStop::Exited { peer: CLIENT, status: 0 };
    assert_eq!(run.observe(FateEvent::Stopped(ended)), FateAction::EndClient);
    for _ in 0..5 {
        run.observe(FateEvent::Done);
    }
    assert_eq!(run.doing, FateAction::CheckCleared);
    let mut leaking = run;
    assert_eq!(
        leaking.observe(FateEvent::Cleared { free: 6, client_zero: true, server_zero: true }),
        FateAction::Failed
    );
    assert_eq!(
        run.observe(FateEvent::Cleared { free: 7, client_zero: true, server_zero: true }),
        FateAction::Passed
    );
}

#[test]
fn both_sides_are_launched() {
    assert_eq!(artifact(Architecture::X86_64, true), "x86_64/ipc-echo-server.kex");
    assert_eq!(artifact(Architecture::Aarch64, false), "aarch64/ipc-client.kex");
    let client = vec![Requirement { interface: 9, major: 1, minor: 0 }];
    assert!(requirements_match(&client, false));
    assert!(!requirements_match(&client, true));
    assert!(!requirements_match(&vec![], false));
    assert_eq!(
        initial_interfaces(true),
        vec![InitialInterface::ServerEndpoint, InitialInterface::WaitSet]
    );
    assert_eq!(initial_interfaces(false).len(), 5);
    let request = ProbeRequest { bytes: 64, opcode: 3, argument: 9 };
    let words = client_configuration(request, 5000);
    assert_eq!(words.len(), 32);
    assert_eq!(&words[0..8], &64_u64.to_le_bytes());
    assert_eq!(&words[8..16], &3_u64.to_le_bytes());
    assert_eq!(&words[16..24], &5000_u64.to_le_bytes());
    assert_eq!(&words[24..32], &9_u64.to_le_bytes());
}

#[test]
fn first_handles_have_their_rights_and_versions() {
    let common = CommonVersions {
        command: Version { major: 3, minor: 4 },
        stream: Version { major: 5, minor: 6 },
    };
    let none = HandleRights { call: false, receive: false, reply: false, wait: false };
    let endpoint = initial_grant(InitialInterface::ServerEndpoint, common);
    assert_eq!(endpoint.rights, HandleRights { receive: true, reply: true, ..none });
    assert_eq!(endpoint.version, Version { major: 2, minor: 0 });
    let set = initial_grant(InitialInterface::WaitSet, common);
    assert_eq!(set.rights, HandleRights { wait: true, ..none });
    assert_eq!(set.version, Version { major: 1, minor: 0 });
    for interface in initial_interfaces(false) {
        assert_eq!(initial_grant(interface, common).rights, HandleRights { call: true, ..none });
    }
    let version = |interface| initial_grant(interface, common).version;
    assert_eq!(version(InitialInterface::Invocation), common.command);
    assert_eq!(version(InitialInterface::StandardInput), common.stream);
    assert_eq!(version(InitialInterface::StandardOutput), common.stream);
    assert_eq!(version(InitialInterface::StandardError), common.stream);
    assert_eq!(version(InitialInterface::Diagnostics), Version { major: 1, minor: 0 });
}

#[test]
fn failures_are_printed() {
    let line = |complaint| String::from_utf8(complaint_line(complaint, b"X", b"Y")).unwrap();
    assert_eq!(line(Complaint::Allocation), "ipc-probe failure=allocation\n");
    assert_eq!(line(Complaint::Bind), "ipc-probe failure=bind error=X\n");
    assert_eq!(
        line(Complaint::Launch { server: true }),
        "ipc-probe failure=launch server=true outcome=X\n"
    );
    assert_eq!(
        line(Complaint::Launch { server: false }),
        "ipc-probe failure=launch server=false outcome=X\n"
    );
    assert_eq!(line(Complaint::ServerLaunch), "ipc-probe failure=server-launch\n");
    assert_eq!(line(Complaint::Pair), "ipc-probe failure=pair error=X\n");
    assert_eq!(line(Complaint::Run), "ipc-probe failure=run stop=X stats=Y\n");
    assert_eq!(
        line(Complaint::Fate { opcode: 16, elapsed: 251 }),
        "ipc-probe failure=fate opcode=16 stop=X elapsed=251 stats=Y\n"
    );
}

#[test]
fn only_some_failures_are_printed() {
    let mut launch = LaunchRun::start(false);
    assert_eq!(launch.complaint(LaunchEvent::Failed), None);
    launch.observe(LaunchEvent::Parsed { as_expected: true });
    launch.observe(LaunchEvent::Planned { image_pages: 3 });
    assert_eq!(launch.complaint(LaunchEvent::Failed), Some(Complaint::Allocation));
    assert_eq!(launch.complaint(LaunchEvent::Done), None);
    for _ in 0..3 {
        launch.observe(LaunchEvent::Done);
    }
    assert_eq!(launch.complaint(LaunchEvent::Failed), Some(Complaint::Bind));
    let stopped = LaunchRun { yielded: false, doing: LaunchAction::Yield, ..launch };
    assert_eq!(
        stopped.complaint(LaunchEvent::Done),
        Some(Complaint::Launch { server: false })
    );
    assert_eq!(stopped.complaint(LaunchEvent::Failed), None);
    let ready = LaunchRun { yielded: true, ..stopped };
    assert_eq!(ready.complaint(LaunchEvent::Done), None);

    let mut run = MeasureRun::start(PlannedRun { bytes: 0, queued: false }, 100, 9);
    assert_eq!(run.complaint(MeasureEvent::Failed), None);
    run.observe(MeasureEvent::Done);
    assert_eq!(run.complaint(MeasureEvent::Failed), Some(Complaint::ServerLaunch));
    run.observe(MeasureEvent::Done);
    assert_eq!(run.complaint(MeasureEvent::Failed), None);
    let pair = MeasureRun { doing: MeasureAction::Pair, ..run };
    assert_eq!(pair.complaint(MeasureEvent::Failed), Some(Complaint::Pair));
    let ran = |quiescent, samples| MeasureEvent::Ran { yielded: true, quiescent, samples };
    let measure = MeasureRun { doing: MeasureAction::Measure, ..run };
    assert_eq!(measure.complaint(ran(false, 256)), Some(Complaint::Run));
    assert_eq!(measure.complaint(ran(true, 255)), None);

    let fate = FateRun { started: 100, doing: FateAction::Run, ..FateRun::start(3, 7) };
    let lease = IpcStop::Faulted { peer: SERVER, fault: TaskFault::ExecutionLeaseExpired };
    let ended = |now| FateEvent::Ran {
        stop: lease,
        counters: seen(lease).counters,
        quiescent: true,
        now,
        timer_programs: 1,
    };
    assert_eq!(fate.complaint(ended(150)), None);
    assert_eq!(
        fate.complaint(ended(351)),
        Some(Complaint::Fate { opcode: 3, elapsed: 251 })
    );
}

fn allocated(server: bool) -> LaunchRun {
    let mut run = LaunchRun::start(server);
    assert_eq!(
        run.observe(LaunchEvent::Parsed { as_expected: true }),
        LaunchAction::ParseImage
    );
    assert_eq!(
        run.observe(LaunchEvent::Planned { image_pages: 3 }),
        LaunchAction::Allocate
    );
    assert_eq!(run.observe(LaunchEvent::Done), LaunchAction::PrepareMemory);
    run
}

#[test]
fn launches_run_to_their_first_yield() {
    let mut server = allocated(true);
    for _ in 0..6 {
        server.observe(LaunchEvent::Done);
    }
    assert_eq!(server.doing, LaunchAction::Open(InitialInterface::ServerEndpoint));
    server.observe(LaunchEvent::Done);
    assert_eq!(server.doing, LaunchAction::Open(InitialInterface::WaitSet));
    for _ in 0..3 {
        server.observe(LaunchEvent::Done);
    }
    assert_eq!(server.doing, LaunchAction::Authorize);
    server.observe(LaunchEvent::Done);
    server.observe(LaunchEvent::Done);
    server.observe(LaunchEvent::Ran { yielded: true });
    assert_eq!(server.observe(LaunchEvent::Done), LaunchAction::Ready);
    let mut client = allocated(false);
    for _ in 0..13 {
        client.observe(LaunchEvent::Done);
    }
    assert_eq!(client.doing, LaunchAction::ReadClock);
    assert_eq!(
        client.observe(LaunchEvent::Now(1000)),
        LaunchAction::Configure { deadline: 5000, offset: 4 * 4096 }
    );
    client.observe(LaunchEvent::Done);
    client.observe(LaunchEvent::Done);
    client.observe(LaunchEvent::Ran { yielded: false });
    assert_eq!(
        client.observe(LaunchEvent::Done),
        LaunchAction::EndTask { handles: true }
    );
}

#[test]
fn failed_launches_give_everything_back() {
    let mut strange = LaunchRun::start(true);
    assert_eq!(
        strange.observe(LaunchEvent::Parsed { as_expected: false }),
        LaunchAction::Failed
    );
    let mut run = allocated(true);
    let mut early = run;
    assert_eq!(early.observe(LaunchEvent::Failed), LaunchAction::Reclaim);
    assert_eq!(early.observe(LaunchEvent::Done), LaunchAction::Failed);
    for _ in 0..5 {
        run.observe(LaunchEvent::Done);
    }
    assert_eq!(run.doing, LaunchAction::MakeOwner);
    assert_eq!(
        run.observe(LaunchEvent::Failed),
        LaunchAction::EndTask { handles: false }
    );
    assert_eq!(run.observe(LaunchEvent::Done), LaunchAction::Reclaim);
    assert_eq!(run.observe(LaunchEvent::Done), LaunchAction::Failed);
}

#[test]
fn acceptance_takes_every_run_and_every_behaviour() {
    let mut run = AcceptRun::start();
    let mut sizes = Vec::new();
    let mut opcodes = Vec::new();
    run.observe(true);
    loop {
        match run.doing {
            AcceptAction::Measure { size, .. } => sizes.push(size),
            AcceptAction::Try(opcode) => opcodes.push(opcode),
            _ => {}
        }
        if run.doing == AcceptAction::Passed {
            break;
        }
        run.observe(true);
    }
    assert_eq!(sizes, vec![0, 0, 1, 1, 2, 2, 3, 3]);
    assert_eq!(opcodes, fate_opcodes());
    let mut broken = AcceptRun::start();
    assert_eq!(broken.observe(false), AcceptAction::Failed);
}
