//! Commands: capabilities, authority, launching, running and jobs.

use troe::command::authority::{decide_authority, Authority, AuthorityBits};
use troe::command::capability::{
    capabilities, Capability, Catalog, InterfaceVersion, Requirements, CAPABILITY_COUNT,
};
use troe::command::execute::{Circumstances, Ending, ExecuteAct, ExecuteEvent, Execution, PendingScript};
use troe::command::foreground::{
    restore_failure, ForegroundAction, ForegroundEvent, ForegroundRun, StepResult,
};
use troe::command::jobs::{
    after_cancel, after_collect, continue_wait, copy_job_log, format_log, job_room, list_jobs,
    printed_status, resident_capacity, wait_pump_failed, JobReply, JobView, LogReply,
    ResidentOwner, WaitAction,
};
use troe::command::launch::{
    admit_manifest, after_lookup, launch_stages, program_path, stage_failure, started_line, Grant,
    LaunchFailure, LaunchStage, Lookup, LookupNext, Reference,
};
use troe::command::outcome::{
    command_status, conclude, error_line, fault_message, ApplicationOutcome, CommandStatus,
    Conclusion, ExitCodes, TaskFault,
};
use troe::command::startup::{
    child_grants, child_streams, choose_provider, launch_needs, startup_resources,
    startup_services, takes_terminal, timezone_entry, waiting_services, Provider, StartupService,
};
use troe::command::supervised::{
    answer_service, list_services, ServiceReply, ServiceRequest, ServiceView, SupervisorAnswer,
};

use troe::nested::{NestedInput, NestedOutput};

const CODES: ExitCodes =
    ExitCodes { success: 0, usage: 2, not_found: 3, denied: 4, cancelled: 130 };

const BITS: AuthorityBits =
    AuthorityBits { datagram: 1, timer: 2, clock_control: 4, wall_clock: 8 };

fn version(n: usize) -> InterfaceVersion {
    InterfaceVersion { interface: 100 + n as u32, major: 1, minor: 0 }
}

fn catalog() -> Catalog {
    Catalog { versions: (0..CAPABILITY_COUNT).map(version).collect() }
}

fn requiring(list: &[Capability]) -> Requirements {
    let mut requirements = Requirements::empty();
    for capability in list {
        requirements.require(*capability);
    }
    requirements
}

#[test]
fn every_capability_stands_once() {
    let list = capabilities();
    assert_eq!(list.len(), CAPABILITY_COUNT);
    for (i, capability) in list.iter().enumerate() {
        assert_eq!(list.iter().filter(|c| *c == capability).count(), 1);
        assert_eq!(catalog().classify(version(i)), Some(*capability));
        let only = requiring(&[*capability]);
        for other in &list {
            assert_eq!(only.requires_capability(*other), other == capability);
        }
    }
    assert_eq!(catalog().classify(version(CAPABILITY_COUNT)), None);
    assert_eq!(catalog().classify(InterfaceVersion { minor: 1, ..version(0) }), None);
}

#[test]
fn manifests_name_requirements() {
    let asked = Requirements::from_manifest(&catalog(), &vec![version(3), version(0)]);
    assert_eq!(asked, Some(requiring(&[Capability::Timer, Capability::Datagram])));
    assert_eq!(Requirements::from_manifest(&catalog(), &vec![]), Some(Requirements::empty()));
    assert_eq!(Requirements::from_manifest(&catalog(), &vec![version(99)]), None);
}

#[test]
fn services_never_exceed_their_authority() {
    let timer = requiring(&[Capability::Timer]);
    let decide = |requirements: &Requirements, entries, handles, allowed| {
        decide_authority(requirements, entries, BITS, handles, allowed)
    };
    assert_eq!(decide(&timer, 1, Some(5), Some(2)), Authority::Granted);
    assert_eq!(decide(&timer, 1, Some(4), Some(2)), Authority::Denied);
    assert_eq!(decide(&timer, 1, Some(5), Some(1)), Authority::Denied);
    let pipe = requiring(&[Capability::Pipe]);
    assert_eq!(decide(&pipe, 1, Some(9), Some(u32::MAX)), Authority::Denied);
    let clock = requiring(&[Capability::ClockControl]);
    assert_eq!(decide(&clock, 1, Some(5), Some(4)), Authority::Granted);
    assert_eq!(decide(&clock, 1, None, None), Authority::ServiceOnly);
    assert_eq!(decide(&pipe, 1, None, None), Authority::Granted);
}

#[test]
fn manifests_are_admitted_or_explained() {
    let free = Grant { bits: BITS, initial_handles: None, authorized: None };
    let service = Grant { bits: BITS, initial_handles: Some(5), authorized: Some(2) };
    assert_eq!(
        admit_manifest(&catalog(), &vec![version(3)], &service),
        Ok(requiring(&[Capability::Timer]))
    );
    assert_eq!(
        admit_manifest(&catalog(), &vec![version(0)], &service),
        Err("SCFG launch authority denied")
    );
    assert_eq!(
        admit_manifest(&catalog(), &vec![version(15)], &free),
        Err("clock-control authority is service-only")
    );
    assert_eq!(
        admit_manifest(&catalog(), &vec![version(99)], &free),
        Err("unsupported capability requirement")
    );
}

#[test]
fn applications_start_with_what_they_require() {
    let both = requiring(&[Capability::Random, Capability::Timer]);
    assert_eq!(
        startup_services(&both),
        vec![
            StartupService::Invocation,
            StartupService::StandardInput,
            StartupService::StandardOutput,
            StartupService::StandardError,
            StartupService::Required(Capability::Timer),
            StartupService::Required(Capability::Random),
        ]
    );
    assert_eq!(startup_resources(&both), (6, 12));
    let needs = launch_needs(&requiring(&[Capability::Pipe]), true, true);
    assert!(needs.owner && needs.pipes && needs.deferred);
    assert!(!needs.children && !needs.network && !needs.timer);
    assert!(!launch_needs(&Requirements::empty(), true, true).deferred);
    assert!(launch_needs(&Requirements::empty(), false, true).deferred);
    assert_eq!(timezone_entry(Some(b"TZ=A".to_vec()), 4), Some(b"TZ=A".to_vec()));
    assert_eq!(timezone_entry(Some(b"TZ=AB".to_vec()), 4), None);
    assert_eq!(timezone_entry(Some(vec![]), 4), None);
    assert_eq!(timezone_entry(None, 4), None);
}

#[test]
fn programs_are_found_by_name_or_path() {
    assert_eq!(program_path(Reference::CatalogName, b"ls"), b"/bin/ls.kex".to_vec());
    assert_eq!(program_path(Reference::Path, b"/a/b"), b"/a/b".to_vec());
    assert!(matches!(
        after_lookup(Reference::CatalogName, Lookup::Missing),
        LookupNext::NotExternal
    ));
    assert!(matches!(
        after_lookup(Reference::Path, Lookup::Missing),
        LookupNext::Report("not found", CommandStatus::NotFound)
    ));
    assert!(matches!(
        after_lookup(Reference::Path, Lookup::OtherNode),
        LookupNext::Report("artifact is not a file", CommandStatus::Failure)
    ));
    assert!(matches!(
        after_lookup(Reference::Path, Lookup::Failed),
        LookupNext::Report("lookup failed", CommandStatus::Failure)
    ));
    assert!(matches!(after_lookup(Reference::Path, Lookup::File), LookupNext::Load));
}

#[test]
fn launches_go_through_the_stages_they_need() {
    assert_eq!(
        launch_stages(&Requirements::empty(), false, true),
        vec![
            LaunchStage::MemoryReport,
            LaunchStage::Dispatcher,
            LaunchStage::Services,
            LaunchStage::Prepare,
            LaunchStage::Deferred,
            LaunchStage::Loan,
            LaunchStage::Run,
            LaunchStage::ReturnLoan,
        ]
    );
    let much = requiring(&[
        Capability::Diagnostics,
        Capability::ProcessLaunch,
        Capability::Datagram,
        Capability::ShellScript,
    ]);
    assert_eq!(
        launch_stages(&much, true, false),
        vec![
            LaunchStage::Snapshot,
            LaunchStage::MemoryReport,
            LaunchStage::Interpreter,
            LaunchStage::Slot,
            LaunchStage::JobRoom,
            LaunchStage::Dispatcher,
            LaunchStage::Log,
            LaunchStage::Network,
            LaunchStage::Children,
            LaunchStage::Pipes,
            LaunchStage::Services,
            LaunchStage::Prepare,
            LaunchStage::Owner,
            LaunchStage::Deferred,
            LaunchStage::Control,
            LaunchStage::Admit,
            LaunchStage::Announce,
        ]
    );
}

#[test]
fn failed_stages_leave_no_application() {
    for background in [false, true] {
        for stage in [
            LaunchStage::Owner,
            LaunchStage::Deferred,
            LaunchStage::Control,
            LaunchStage::Loan,
            LaunchStage::Admit,
        ] {
            assert!(matches!(
                stage_failure(stage, background),
                LaunchFailure::TearDown(_) | LaunchFailure::Fatal(_)
            ));
        }
    }
    assert!(matches!(
        stage_failure(LaunchStage::Deferred, true),
        LaunchFailure::TearDown("wait metadata exhausted")
    ));
    assert!(matches!(
        stage_failure(LaunchStage::Slot, true),
        LaunchFailure::Report("resident process table full")
    ));
    assert!(matches!(stage_failure(LaunchStage::Announce, true), LaunchFailure::Silent));
    assert_eq!(started_line(12, b"ls"), b"[12] started ls\n".to_vec());
}

fn circumstances(background: bool, terminal: bool) -> Circumstances {
    Circumstances { reference: Reference::CatalogName, background, terminal, codes: CODES }
}

fn admitted(
    script: &mut PendingScript,
    now: Circumstances,
    requirements: Requirements,
) -> (Execution, ExecuteAct) {
    let (run, act) = Execution::new(script, Some(Reference::CatalogName));
    assert!(matches!(act, ExecuteAct::LookUp));
    let (run, act) = run.execute(script, now, ExecuteEvent::Looked(Lookup::File));
    assert!(matches!(act, ExecuteAct::Place));
    let (run, act) = run.execute(script, now, ExecuteEvent::Placed(true));
    assert!(matches!(act, ExecuteAct::ReadPackage));
    run.execute(script, now, ExecuteEvent::Admitted(Ok(requirements)))
}

#[test]
fn commands_run_to_their_status() {
    let mut script = PendingScript::new();
    let now = circumstances(false, true);
    let (mut run, mut act) = admitted(&mut script, now, Requirements::empty());
    let mut performed = Vec::new();
    let ending = loop {
        match act {
            ExecuteAct::Perform(stage) => {
                performed.push(stage);
                let event = match stage {
                    LaunchStage::Run => ExecuteEvent::Ran(Some(ApplicationOutcome::Exited(3))),
                    _ => ExecuteEvent::Done,
                };
                (run, act) = run.execute(&mut script, now, event);
            },
            ExecuteAct::End(ending) => break ending,
            _ => panic!("stage expected"),
        }
    };
    assert_eq!(performed, launch_stages(&Requirements::empty(), false, true));
    assert!(matches!(ending, Ending::Silent(CommandStatus::NotFound)));
}

#[test]
fn the_terminal_comes_back_after_a_failed_run() {
    let mut script = PendingScript::new();
    let now = circumstances(false, true);
    let (mut run, mut act) = admitted(&mut script, now, Requirements::empty());
    let mut last = None;
    while let ExecuteAct::Perform(stage) = act {
        let event = match stage {
            LaunchStage::Run => ExecuteEvent::Ran(None),
            _ => ExecuteEvent::Done,
        };
        last = Some(stage);
        (run, act) = run.execute(&mut script, now, event);
    }
    assert_eq!(last, Some(LaunchStage::ReturnLoan));
    assert!(matches!(
        act,
        ExecuteAct::End(Ending::Spoken("application rejected", CommandStatus::Failure))
    ));
}

#[test]
fn scripts_come_only_from_success() {
    let now = circumstances(false, false);
    let mut script = PendingScript::new();
    for (code, expected) in [(0, true), (1, false)] {
        let (mut run, mut act) = admitted(&mut script, now, requiring(&[Capability::ShellScript]));
        assert!(script.lines.is_none());
        let mut staged = false;
        while let ExecuteAct::Perform(stage) = act {
            let event = match stage {
                LaunchStage::Run => ExecuteEvent::Ran(Some(ApplicationOutcome::Exited(code))),
                LaunchStage::Script => ExecuteEvent::Scripted(vec!["ls".to_string()]),
                _ => ExecuteEvent::Done,
            };
            staged = staged || stage == LaunchStage::Script;
            (run, act) = run.execute(&mut script, now, event);
        }
        assert_eq!(staged, expected);
        assert_eq!(script.lines.is_some(), expected);
    }
}

#[test]
fn script_lines_are_handed_out_once() {
    let mut script = PendingScript { lines: Some(vec!["ls".to_string()]) };
    assert_eq!(script.take_script_lines(), Some(vec!["ls".to_string()]));
    assert_eq!(script.take_script_lines(), None);
    script.lines = Some(vec!["cd /".to_string()]);
    let (_, act) = Execution::new(&mut script, None);
    assert!(matches!(act, ExecuteAct::End(Ending::NotExternal)));
    assert_eq!(script.take_script_lines(), None);
    script.lines = Some(vec!["cd /".to_string()]);
    let now = circumstances(false, false);
    let (run, _) = Execution::new(&mut script, Some(Reference::CatalogName));
    let (_, act) = run.execute(&mut script, now, ExecuteEvent::Looked(Lookup::Missing));
    assert!(matches!(act, ExecuteAct::End(Ending::NotExternal)));
    assert_eq!(script.take_script_lines(), None);
}

#[test]
fn interpreters_stay_in_front() {
    let mut script = PendingScript::new();
    let (_, act) = admitted(&mut script, circumstances(true, false), requiring(&[Capability::ShellScript]));
    let (_, act) = match act {
        ExecuteAct::Perform(stage) => {
            assert_eq!(stage, LaunchStage::MemoryReport);
            let now = circumstances(true, false);
            let (run, _) = admitted(&mut script, now, requiring(&[Capability::ShellScript]));
            run.execute(&mut script, now, ExecuteEvent::Done)
        },
        _ => panic!("stage expected"),
    };
    assert!(matches!(
        act,
        ExecuteAct::End(Ending::Spoken(
            "interpreter applications require the foreground session",
            CommandStatus::Failure
        ))
    ));
}

#[test]
fn commands_end_where_they_fail() {
    let mut script = PendingScript::new();
    let now = circumstances(false, false);
    let (run, _) = Execution::new(&mut script, Some(Reference::CatalogName));
    let (_, act) = run.execute(&mut script, now, ExecuteEvent::Looked(Lookup::Missing));
    assert!(matches!(act, ExecuteAct::End(Ending::NotExternal)));
    let (run, _) = Execution::new(&mut script, Some(Reference::CatalogName));
    let (run, _) = run.execute(&mut script, now, ExecuteEvent::Looked(Lookup::File));
    let (_, act) = run.execute(&mut script, now, ExecuteEvent::Placed(false));
    assert!(matches!(
        act,
        ExecuteAct::End(Ending::Spoken("application placement failed", CommandStatus::Failure))
    ));
    let (run, _) = Execution::new(&mut script, Some(Reference::CatalogName));
    let (run, _) = run.execute(&mut script, now, ExecuteEvent::Looked(Lookup::File));
    let (run, _) = run.execute(&mut script, now, ExecuteEvent::Placed(true));
    let (_, act) = run.execute(&mut script, now, ExecuteEvent::BadPackage);
    assert!(matches!(
        act,
        ExecuteAct::End(Ending::Spoken("application package rejected", CommandStatus::Failure))
    ));
    let (run, _) = admitted(&mut script, now, Requirements::empty());
    let (_, act) = run.execute(&mut script, now, ExecuteEvent::Failed);
    assert!(matches!(
        act,
        ExecuteAct::End(Ending::Spoken("memory report refresh failed", CommandStatus::Failure))
    ));
}

#[test]
fn interrupted_applications_come_to_an_end() {
    let mut run = ForegroundRun::start(130);
    let pending = ForegroundEvent::Stepped(StepResult::Pending);
    assert_eq!(run.observe(ForegroundEvent::Released { failed: false }), ForegroundAction::Step);
    assert_eq!(run.observe(pending), ForegroundAction::Check);
    assert_eq!(
        run.observe(ForegroundEvent::Checked { interrupted: true }),
        ForegroundAction::RequestCancel
    );
    assert_eq!(
        run.observe(ForegroundEvent::CancelRequested { delivered: true }),
        ForegroundAction::Step
    );
    let outcome = ApplicationOutcome::Exited(130);
    assert_eq!(
        run.observe(pending),
        ForegroundAction::TearDown { outcome, forced: true, reported: true }
    );
    assert_eq!(
        run.observe(ForegroundEvent::TornDown { failed: false }),
        ForegroundAction::Restore(Some(outcome))
    );
    assert_eq!(
        run.observe(ForegroundEvent::Restored { failed: false }),
        ForegroundAction::Over(Some(outcome))
    );
}

#[test]
fn blocked_applications_wait() {
    let mut run = ForegroundRun::start(130);
    run.observe(ForegroundEvent::Released { failed: false });
    run.observe(ForegroundEvent::Stepped(StepResult::Pending));
    assert_eq!(
        run.observe(ForegroundEvent::Checked { interrupted: false }),
        ForegroundAction::Pump
    );
    let blocked = ForegroundEvent::Pumped { failed: false, blocked: true, runnable: false };
    assert_eq!(run.observe(blocked), ForegroundAction::Wait(10));
    assert_eq!(run.observe(ForegroundEvent::Waited { failed: false }), ForegroundAction::Step);
    assert_eq!(
        run.observe(ForegroundEvent::Stepped(StepResult::Broken)),
        ForegroundAction::TearDown {
            outcome: ApplicationOutcome::Faulted(TaskFault::InvalidCall),
            forced: true,
            reported: true
        }
    );
}

#[test]
fn failing_machines_report_no_outcome() {
    let mut idle = ForegroundRun::start(130);
    assert_eq!(
        idle.observe(ForegroundEvent::Released { failed: true }),
        ForegroundAction::Over(None)
    );
    let mut run = ForegroundRun::start(130);
    run.observe(ForegroundEvent::Released { failed: false });
    run.observe(ForegroundEvent::Stepped(StepResult::Pending));
    run.observe(ForegroundEvent::Checked { interrupted: false });
    let broken = ForegroundEvent::Pumped { failed: true, blocked: false, runnable: false };
    assert_eq!(
        run.observe(broken),
        ForegroundAction::TearDown {
            outcome: ApplicationOutcome::Exited(130),
            forced: true,
            reported: false
        }
    );
    assert_eq!(
        run.observe(ForegroundEvent::TornDown { failed: false }),
        ForegroundAction::Restore(None)
    );
    assert_eq!(run.observe(ForegroundEvent::Restored { failed: true }), ForegroundAction::Fatal);
    assert_eq!(restore_failure(), "fatal: shell scheduler restore failed\n");
}

#[test]
fn background_jobs_see_only_their_own() {
    assert_eq!(choose_provider(StartupService::StandardInput, true), Provider::NoInput);
    assert_eq!(choose_provider(StartupService::StandardError, true), Provider::JobLog);
    assert_eq!(choose_provider(StartupService::StandardInput, false), Provider::SessionInput);
    let diagnostics = StartupService::Required(Capability::Diagnostics);
    assert_eq!(choose_provider(diagnostics, true), Provider::Snapshot);
    assert_eq!(choose_provider(diagnostics, false), Provider::DiagnosticsServer);
    let script = requiring(&[Capability::ShellScript, Capability::Timer]);
    assert_eq!(child_grants(&script), requiring(&[Capability::Timer]));
    assert_eq!(child_streams(true).input, NestedInput::Empty);
    assert_eq!(child_streams(true).error, NestedOutput::Log);
    assert_eq!(child_streams(false).output, NestedOutput::Borrowed);
    let all = requiring(&[Capability::ProcessLaunch, Capability::Diagnostics]);
    let front = waiting_services(&all, false, true, 7).unwrap();
    assert_eq!(front.owner, Some(7));
    assert!(front.children && front.pipes && front.terminal && front.diagnostics);
    assert!(!front.datagram && front.streams.is_empty());
    let back = waiting_services(&all, true, true, 7).unwrap();
    assert!(!back.terminal && !back.diagnostics);
    assert!(waiting_services(&Requirements::empty(), true, true, 7).is_none());
    assert!(takes_terminal(true, true));
    assert!(!takes_terminal(true, false));
}

#[test]
fn exit_codes_stand_for_statuses() {
    let statuses: Vec<CommandStatus> =
        [0, 2, 3, 4, 130, 1].iter().map(|code| command_status(CODES, *code)).collect();
    assert_eq!(
        statuses,
        vec![
            CommandStatus::Success,
            CommandStatus::Usage,
            CommandStatus::NotFound,
            CommandStatus::Denied,
            CommandStatus::Cancelled,
            CommandStatus::Failure,
        ]
    );
    assert_eq!(
        fault_message(TaskFault::ExecutionLeaseExpired),
        "application faulted: execution lease expired"
    );
    assert_eq!(error_line(b"ls", "gone"), b"ls: gone\n".to_vec());
    assert!(matches!(
        conclude(CODES, Some(ApplicationOutcome::Faulted(TaskFault::Permission))),
        Conclusion::Spoken("application faulted: permission")
    ));
    assert!(matches!(conclude(CODES, None), Conclusion::Spoken("application rejected")));
}

fn job(id: u32, owner: ResidentOwner) -> JobView {
    JobView {
        id,
        owner,
        command: b"sleep".to_vec(),
        ended: false,
        cancel_requested: false,
        blocked: true,
    }
}

#[test]
fn only_jobs_of_the_session_are_listed() {
    let mut stopping = job(3, ResidentOwner::Session);
    stopping.cancel_requested = true;
    let jobs = vec![job(1, ResidentOwner::Session), job(2, ResidentOwner::Service(0)), stopping];
    assert_eq!(
        list_jobs(&jobs),
        vec![b"[1] blocked sleep\n".to_vec(), b"[3] stopping sleep\n".to_vec()]
    );
    let mut done = job(4, ResidentOwner::Session);
    done.ended = true;
    assert_eq!(done.line(), b"[4] done sleep\n".to_vec());
}

#[test]
fn logs_tell_what_is_lost() {
    assert_eq!(format_log(b"abc".to_vec(), 0), vec![b"abc".to_vec()]);
    assert_eq!(
        format_log(b"abc".to_vec(), 7),
        vec![b"[log: 7 earlier bytes discarded]\n".to_vec(), b"abc".to_vec()]
    );
    assert!(matches!(copy_job_log(true, None), LogReply::Report("log", "unknown job")));
    assert!(matches!(
        copy_job_log(false, Some((b"abc".to_vec(), 0))),
        LogReply::Report("log", "buffer allocation failed")
    ));
    match copy_job_log(true, Some((b"abc".to_vec(), 0))) {
        LogReply::Print(parts) => assert_eq!(parts, vec![b"abc".to_vec()]),
        _ => panic!("log expected"),
    }
    assert_eq!(printed_status(true), CommandStatus::Success);
    assert_eq!(printed_status(false), CommandStatus::Failure);
}

#[test]
fn a_job_needs_room_in_the_table() {
    assert_eq!(resident_capacity(67), 64);
    assert!(job_room(63, 64));
    assert!(!job_room(64, 64));
    assert!(!job_room(0, 0));
}

#[test]
fn jobs_are_waited_for_and_collected() {
    assert!(matches!(after_cancel(false, true), JobReply::Report("kill", "unknown job")));
    assert!(matches!(
        after_cancel(true, false),
        JobReply::Fatal("fatal: resident cancellation failed\n")
    ));
    assert!(matches!(after_cancel(true, true), JobReply::Status(CommandStatus::Success)));
    assert!(matches!(
        continue_wait(true, true, None, false),
        WaitAction::Report("fg", "unknown job")
    ));
    assert!(matches!(continue_wait(false, true, Some(true), false), WaitAction::Collect));
    assert!(matches!(continue_wait(false, false, None, false), WaitAction::Collect));
    assert!(matches!(continue_wait(true, false, None, true), WaitAction::PrintAndCollect));
    assert!(matches!(continue_wait(true, false, Some(true), true), WaitAction::PrintAndCollect));
    assert!(matches!(continue_wait(true, false, Some(false), true), WaitAction::CancelAndPump(10)));
    assert!(matches!(continue_wait(true, false, Some(false), false), WaitAction::Pump(10)));
    assert!(matches!(wait_pump_failed(), JobReply::Fatal("fatal: resident wait failed\n")));
    assert!(matches!(
        after_collect(CODES, false, None),
        JobReply::Report("wait", "job did not become terminal")
    ));
    assert!(matches!(
        after_collect(CODES, false, Some(ApplicationOutcome::Exited(2))),
        JobReply::Status(CommandStatus::Usage)
    ));
    assert!(matches!(
        after_collect(CODES, true, Some(ApplicationOutcome::Faulted(TaskFault::Translation))),
        JobReply::Status(CommandStatus::Failure)
    ));
}

fn service() -> ServiceView {
    ServiceView {
        name: b"ntp".to_vec(),
        state: b"running".to_vec(),
        restarts: 2,
        log_bytes: 30,
        dropped_log_bytes: 4,
    }
}

#[test]
fn services_are_controlled() {
    match answer_service(ServiceRequest::Status, b"ntp", &SupervisorAnswer::State(service())) {
        ServiceReply::Print(line) => {
            assert_eq!(line, b"ntp running restarts=2 log-bytes=30 dropped=4\n".to_vec());
        },
        _ => panic!("line expected"),
    }
    match answer_service(ServiceRequest::Start, b"ntp", &SupervisorAnswer::Accepted) {
        ServiceReply::Print(line) => assert_eq!(line, b"ntp: requested\n".to_vec()),
        _ => panic!("line expected"),
    }
    let answer = |request, answer| answer_service(request, b"ntp", &answer);
    assert!(matches!(
        answer(ServiceRequest::Log, SupervisorAnswer::Accepted),
        ServiceReply::PrintLog
    ));
    assert!(matches!(
        answer(ServiceRequest::Stop, SupervisorAnswer::Refused),
        ServiceReply::Report("request rejected")
    ));
    assert!(matches!(
        answer(ServiceRequest::Stop, SupervisorAnswer::Unknown),
        ServiceReply::Report("unknown service")
    ));
    assert!(matches!(
        answer(ServiceRequest::Stop, SupervisorAnswer::Unavailable),
        ServiceReply::Report("service supervisor unavailable")
    ));
    assert!(matches!(
        answer(ServiceRequest::Status, SupervisorAnswer::NoState),
        ServiceReply::Report("service state unavailable")
    ));
}

#[test]
fn service_lists_end_at_the_first_gap() {
    let (lines, reply) = list_services(&vec![Some(service()), None, Some(service())]);
    assert_eq!(lines, vec![b"ntp running\n".to_vec()]);
    assert!(matches!(reply, JobReply::Report("svc", "service state unavailable")));
    let (lines, reply) = list_services(&vec![Some(service())]);
    assert_eq!(lines.len(), 1);
    assert!(matches!(reply, JobReply::Status(CommandStatus::Success)));
}
