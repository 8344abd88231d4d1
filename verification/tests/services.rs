//! Clients of served calls, nested streams, namespace, images and mounts.

use troe::artifacts::{
    native_diagnostics_benchmark_artifact, native_diagnostics_server_artifact,
    native_kex_artifact, ApplicationProbe,
};
use troe::client::{
    consume, fate_of, next_client_of, record_submission, submit, CancelAction, CancelEvent,
    CancelRun, Client, ClientKey, Consumption, EndCodes, Fate, Release, ReleaseAction,
    ReleaseEvent, Submission, SubmitAction, SubmitEvent, SubmitRun,
};
use troe::memory::isolated::Architecture;
use troe::mounts::{
    mark_storage_role_mounted, Access, Activation, ConfigureNext, Filesystem, ManifestEntry,
    MountRegistry, MountRequest, MountState, PreparedMount,
};
use troe::namespace::{
    architecture_line, composition_failure, configuration_attachment, configuration_failure, environment_entry,
    resolve_session_timezone, timezone_report, Attachment, CompositionStep, RootMode,
    SessionTimezone, TimezoneSource,
};
use troe::nested::{
    bind_stream, nested_input_for_spawn, nested_input_service, nested_output_for_spawn,
    nested_output_service, NestedInput, NestedOutput, NestedService, PipeCheck, StreamMode,
};
use troe::reply::ReplyStatus;

const KEY: ClientKey = ClientKey { task: 3, operation: 9 };

fn clients() -> Vec<Client> {
    (0..2)
        .map(|actor| Client { actor, key: None, handle: None, continuation: None })
        .collect()
}

#[test]
fn calls_take_a_free_client_and_give_it_back() {
    let mut list = clients();
    assert_eq!(
        submit(&list, Some(1), KEY, 1, 100, 5000),
        Submission::Call { index: 0, request_bytes: 100, reply_capacity: 4096 }
    );
    record_submission(&mut list, 0, KEY, 77, 1, 500);
    assert_eq!(submit(&list, Some(1), KEY, 1, 100, 50), Submission::InProgress);
    assert_eq!(consume(&list, KEY), Consumption::Ask(0));
    let mut release = Release::start(&mut list, 0);
    assert_eq!(release.doing, ReleaseAction::Look { actor: 0, handle: 77 });
    assert_eq!(
        release.observe(&mut list, ReleaseEvent::Looked { present: true }),
        ReleaseAction::Close { actor: 0, handle: 77 }
    );
    assert_eq!(release.observe(&mut list, ReleaseEvent::Done), ReleaseAction::Released);
    assert_eq!(list, clients());
    assert_eq!(consume(&list, KEY), Consumption::NotSubmitted);
}

#[test]
fn calls_are_refused_for_their_reason() {
    let mut list = clients();
    assert_eq!(submit(&list, Some(2), KEY, 1, 100, 50), Submission::Revoked);
    assert_eq!(submit(&list, None, KEY, 1, 100, 50), Submission::Revoked);
    assert_eq!(submit(&list, Some(1), KEY, 1, 65536, 50), Submission::Broken);
    record_submission(&mut list, 0, ClientKey { task: 4, operation: 1 }, 1, 1, 500);
    record_submission(&mut list, 1, ClientKey { task: 4, operation: 2 }, 2, 1, 500);
    assert_eq!(submit(&list, Some(1), KEY, 1, 65536, 50), Submission::Exhausted);
    list[1].continuation = None;
    assert_eq!(consume(&list, ClientKey { task: 4, operation: 2 }), Consumption::Broken);
    list[1].handle = None;
    assert_eq!(next_client_of(&list, 4, 1), Some(1));
    let mut run = CancelRun::start(&list, 4);
    assert_eq!(run.doing, CancelAction::Cancel(0));
    assert_eq!(run.observe(&mut list, CancelEvent::Done), CancelAction::TakeResume(0));
    assert!(matches!(run.observe(&mut list, CancelEvent::Done), CancelAction::Release(_)));
    let gone = CancelEvent::Releasing(ReleaseEvent::Looked { present: false });
    assert_eq!(run.observe(&mut list, gone), CancelAction::Cancel(1));
    run.observe(&mut list, CancelEvent::Done);
    assert_eq!(run.observe(&mut list, CancelEvent::Done), CancelAction::Done);
    assert_eq!(list, clients());
    assert_eq!(CancelRun::start(&list, 4).doing, CancelAction::Done);
}

#[test]
fn calls_are_recorded_once_they_are_made() {
    let mut list = clients();
    let mut successor = Some(3);
    let mut run = SubmitRun::start(&list, 1, KEY, 2, 500);
    assert_eq!(run.doing, SubmitAction::WriteRequest { actor: 1 });
    assert_eq!(
        run.observe(&mut list, &mut successor, SubmitEvent::Done),
        SubmitAction::Open { actor: 1 }
    );
    assert_eq!(
        run.observe(&mut list, &mut successor, SubmitEvent::Opened(77)),
        SubmitAction::Call { actor: 1, handle: 77 }
    );
    let mut refused = run;
    assert_eq!(
        refused.observe(&mut list, &mut successor, SubmitEvent::Failed),
        SubmitAction::Close { actor: 1, handle: 77 }
    );
    assert_eq!(refused.observe(&mut list, &mut successor, SubmitEvent::Done), SubmitAction::Broken);
    assert_eq!(list, clients());
    assert_eq!(
        run.observe(&mut list, &mut successor, SubmitEvent::Called { fault: true, next: Some(4) }),
        SubmitAction::InjectFault { handle: 77, next: Some(4) }
    );
    assert_eq!(successor, Some(3));
    assert_eq!(run.observe(&mut list, &mut successor, SubmitEvent::Done), SubmitAction::Submitted);
    assert_eq!(successor, Some(4));
    assert_eq!(list[1].key, Some(KEY));
    assert_eq!(list[1].handle, Some(77));
    assert_eq!(list[1].continuation.unwrap().deadline, 500);
}

#[test]
fn call_ends_have_fates() {
    let codes = EndCodes { closed: 1, peer_died: 2, deadlock: 3, timeout: 4, cancelled: 5 };
    let fates: Vec<Fate> = (1..7).map(|status| fate_of(codes, status)).collect();
    assert_eq!(
        fates,
        vec![
            Fate::Closed,
            Fate::Revoked,
            Fate::Revoked,
            Fate::Deadline,
            Fate::Cancelled,
            Fate::Replied(6),
        ]
    );
}

#[test]
fn children_never_read_the_terminal() {
    let input = |mode, inherited, terminal, check| {
        nested_input_for_spawn(mode, inherited, terminal, 7, check)
    };
    let none = PipeCheck::NoToken;
    assert_eq!(
        input(StreamMode::Inherit, NestedInput::Borrowed, Some(true), none),
        Ok(NestedInput::Empty)
    );
    assert_eq!(
        input(StreamMode::Inherit, NestedInput::Borrowed, Some(false), none),
        Ok(NestedInput::Borrowed)
    );
    assert_eq!(
        input(StreamMode::Inherit, NestedInput::Borrowed, None, none),
        Err(ReplyStatus::Conflict)
    );
    assert_eq!(input(StreamMode::Null, NestedInput::Borrowed, None, none), Ok(NestedInput::Empty));
    assert_eq!(
        input(StreamMode::Pipe, NestedInput::Empty, None, PipeCheck::Usable(5)),
        Ok(NestedInput::Pipe { owner: 7, token: 5 })
    );
    assert_eq!(
        input(StreamMode::Pipe, NestedInput::Empty, None, none),
        Err(ReplyStatus::InvalidRequest)
    );
    assert_eq!(
        input(StreamMode::Pipe, NestedInput::Empty, None, PipeCheck::Busy),
        Err(ReplyStatus::Conflict)
    );
    assert_eq!(
        input(StreamMode::Pipe, NestedInput::Empty, None, PipeCheck::Error(ReplyStatus::Closed)),
        Err(ReplyStatus::Closed)
    );
}

#[test]
fn child_streams_become_services() {
    assert_eq!(
        nested_output_for_spawn(StreamMode::Inherit, NestedOutput::Log, 7, PipeCheck::NoToken),
        Ok(NestedOutput::Log)
    );
    assert_eq!(
        nested_output_for_spawn(StreamMode::Null, NestedOutput::Log, 7, PipeCheck::NoToken),
        Ok(NestedOutput::Discard)
    );
    assert_eq!(
        nested_output_for_spawn(StreamMode::Pipe, NestedOutput::Log, 7, PipeCheck::Usable(4)),
        Ok(NestedOutput::Pipe { owner: 7, token: 4 })
    );
    assert_eq!(nested_input_service(NestedInput::Empty), NestedService::EmptyInput);
    let writer = nested_output_service(NestedOutput::Pipe { owner: 7, token: 4 });
    assert_eq!(writer, NestedService::PipeWriter { owner: 7, token: 4 });
    let mut streams = Vec::new();
    bind_stream(&mut streams, 13, NestedService::Log);
    assert!(streams.is_empty());
    bind_stream(&mut streams, 13, writer);
    assert_eq!((streams[0].interface, streams[0].token), (13, 4));
}

#[test]
fn configurations_are_attached_where_there_is_a_root() {
    assert_eq!(
        configuration_attachment(RootMode::Recovery, false),
        Attachment { create_store: false, mount: false }
    );
    assert_eq!(
        configuration_attachment(RootMode::ReadOnly, false),
        Attachment { create_store: false, mount: true }
    );
    assert_eq!(
        configuration_attachment(RootMode::ReadWrite, false),
        Attachment { create_store: true, mount: true }
    );
    assert!(!configuration_attachment(RootMode::ReadWrite, true).create_store);
    assert_eq!(
        composition_failure(CompositionStep::WritableMount),
        "fatal: cannot mount the writable filesystem\n"
    );
    assert_eq!(
        composition_failure(CompositionStep::EmbeddedFile),
        "fatal: cannot mount embedded root\n"
    );
    assert_eq!(configuration_failure(), "/config: not attached; configuration is absent\n");
}

#[test]
fn session_time_zones_are_resolved() {
    assert_eq!(environment_entry(b"TZ", b"UTC"), b"TZ=UTC".to_vec());
    assert_eq!(
        timezone_report(b"too long"),
        b"/config/timezone: too long; using UTC\n".to_vec()
    );
    assert!(matches!(
        resolve_session_timezone(b"TZ", TimezoneSource::Absent),
        SessionTimezone::Default
    ));
    match resolve_session_timezone(b"TZ", TimezoneSource::Value(b"CET".to_vec())) {
        SessionTimezone::Entry(entry) => assert_eq!(entry, b"TZ=CET".to_vec()),
        _ => panic!("entry expected"),
    }
    match resolve_session_timezone(b"TZ", TimezoneSource::Unusable(b"bad".to_vec())) {
        SessionTimezone::Report(line) => {
            assert_eq!(line, b"/config/timezone: bad; using UTC\n".to_vec());
        },
        _ => panic!("report expected"),
    }
}

#[test]
fn images_depend_on_the_build() {
    assert_eq!(
        native_kex_artifact(ApplicationProbe::Calls, Architecture::X86_64, false),
        Some("native-calls-x86_64.kex")
    );
    assert_eq!(native_kex_artifact(ApplicationProbe::Spin, Architecture::X86_64, false), None);
    assert_eq!(
        native_kex_artifact(ApplicationProbe::ThreadPointer, Architecture::X86_64, true),
        None
    );
    assert_eq!(
        native_kex_artifact(ApplicationProbe::ThreadPointer, Architecture::Aarch64, true),
        Some("native-thread-pointer-aarch64.kex")
    );
    let mut fault = true;
    assert_eq!(
        native_diagnostics_server_artifact(Architecture::X86_64, &mut fault, false),
        ("x86_64/diagnostics-server.kex", false)
    );
    assert!(fault);
    assert_eq!(
        native_diagnostics_server_artifact(Architecture::X86_64, &mut fault, true),
        ("x86_64/diagnostics-fault-server.kex", true)
    );
    assert!(!fault);
    assert!(native_diagnostics_benchmark_artifact(Architecture::Aarch64).starts_with("aarch64/"));
}

fn entry(name: &str, activation: Activation) -> ManifestEntry {
    ManifestEntry {
        name: name.as_bytes().to_vec(),
        filesystem: Filesystem::Fat32,
        access: Access::ReadOnly,
        activation,
    }
}

fn prepared(path: &str, activation: Activation, plan: u64) -> PreparedMount {
    PreparedMount { path: path.as_bytes().to_vec(), activation, plan }
}

fn manifest() -> Vec<ManifestEntry> {
    vec![
        entry("a", Activation::Auto),
        entry("b", Activation::Manual),
        entry("c", Activation::Auto),
    ]
}

#[test]
fn volumes_are_registered_in_order() {
    let mut registry = MountRegistry::empty();
    let mounts =
        vec![prepared("/vol/b", Activation::Manual, 2), prepared("/vol/a", Activation::Auto, 1)];
    let progress = match registry.configure(&manifest(), mounts) {
        ConfigureNext::Attach(1, progress) => progress,
        _ => panic!("mount expected"),
    };
    assert!(registry.entries.is_empty());
    assert!(matches!(
        registry.configured(&manifest(), progress, true),
        ConfigureNext::Configured
    ));
    let states: Vec<MountState> = registry.entries.iter().map(|e| e.state).collect();
    assert_eq!(states, vec![MountState::Mounted, MountState::Ready, MountState::Unavailable]);
    assert!(matches!(registry.configure(&manifest(), vec![]), ConfigureNext::Refused));
    assert_eq!(registry.entries.len(), 3);
}

#[test]
fn disagreeing_manifests_are_refused() {
    let mut registry = MountRegistry::empty();
    let wrong = vec![prepared("/vol/b", Activation::Auto, 2)];
    assert!(matches!(registry.configure(&manifest(), wrong), ConfigureNext::Refused));
    assert_eq!(registry.entries.len(), 1);
    let mut registry = MountRegistry::empty();
    let extra = vec![prepared("/vol/z", Activation::Auto, 2)];
    assert!(matches!(registry.configure(&manifest(), extra), ConfigureNext::Refused));
    let mut registry = MountRegistry::empty();
    let broken = vec![prepared("/vol/a", Activation::Auto, 1)];
    match registry.configure(&manifest(), broken) {
        ConfigureNext::Attach(1, progress) => assert!(matches!(
            registry.configured(&manifest(), progress, false),
            ConfigureNext::Refused
        )),
        _ => panic!("mount expected"),
    }
}

#[test]
fn mounts_are_performed_once() {
    let mut registry = MountRegistry::empty();
    let mounts = vec![prepared("/vol/b", Activation::Manual, 2)];
    assert!(matches!(registry.configure(&manifest(), mounts), ConfigureNext::Configured));
    assert_eq!(registry.activate(b"a"), MountRequest::Refused(ReplyStatus::NotFound));
    assert_eq!(registry.activate(b"z"), MountRequest::Refused(ReplyStatus::NotFound));
    assert_eq!(registry.activate(b"b"), MountRequest::Attach { index: 1, plan: 2 });
    assert_eq!(registry.activate(b"b"), MountRequest::Refused(ReplyStatus::Corrupt));
    assert_eq!(registry.attached(1, true), Ok(()));
    assert_eq!(registry.activate(b"b"), MountRequest::AlreadyMounted);
    assert_eq!(registry.attached(1, false), Err(ReplyStatus::Failure));
    assert_eq!(registry.activate(b"b"), MountRequest::Refused(ReplyStatus::Failure));
}

#[test]
fn reports_show_mounted_volumes() {
    let report = b"role data state=ready volume=1\nrole data2 state=ready volume=2\n";
    assert_eq!(
        mark_storage_role_mounted(report, b"data").unwrap(),
        b"role data state=mounted volume=1\nrole data2 state=ready volume=2\n".to_vec()
    );
    assert!(mark_storage_role_mounted(report, b"none").is_none());
    assert!(mark_storage_role_mounted(b"role data state=failed\n", b"data").is_none());
}

#[test]
fn the_architecture_is_a_line() {
    assert_eq!(architecture_line(b"aarch64"), b"aarch64\n".to_vec());
}
