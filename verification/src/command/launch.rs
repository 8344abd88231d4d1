//! The stages of a launch and what a failure at each leads to.

use crate::command::authority::{authority, decide_authority, Authority, AuthorityBits};
use crate::command::capability::{Catalog, Capability, InterfaceVersion, Requirements};
use crate::command::outcome::CommandStatus;
use crate::command::startup::needs;
use crate::bytes::append_bytes;
use crate::text::{append_decimal, append_text, decimal, utf8};
use vstd::prelude::*;

verus! {

/// How a command names its program.
#[derive(Clone, Copy, Debug, PartialEq, Eq, Structural)]
pub enum Reference {
    /// By a name of the catalog.
    CatalogName,
    /// By a path.
    Path,
}

/// The path of a command's program.
pub open spec fn program(reference: Reference, command: Seq<u8>) -> Seq<u8> {
    match reference {
        Reference::CatalogName => utf8("/bin/") + command + utf8(".kex"),
        Reference::Path => command,
    }
}

/// The path of a command's program.
pub fn program_path(reference: Reference, command: &[u8]) -> (path: Vec<u8>)
    ensures
        path@ == program(reference, command@),
{
    let mut path: Vec<u8> = Vec::new();
    match reference {
        Reference::CatalogName => {
            append_text(&mut path, "/bin/");
            append_bytes(&mut path, command);
            append_text(&mut path, ".kex");
            assert(path@ =~= program(reference, command@));
        },
        Reference::Path => {
            append_bytes(&mut path, command);
            assert(path@ =~= program(reference, command@));
        },
    }
    path
}

/// What a lookup of the program found.
#[derive(Clone, Copy, Debug, PartialEq, Eq, Structural)]
pub enum Lookup {
    /// A file.
    File,
    /// Something that is not a file.
    OtherNode,
    /// Nothing.
    Missing,
    /// The lookup failed.
    Failed,
}

/// What a lookup leads to.
#[derive(Debug)]
pub enum LookupNext {
    /// Go on with the file.
    Load,
    /// The command is not an external one.
    NotExternal,
    /// A message on standard error and a status.
    Report(&'static str, CommandStatus),
}

/// What a lookup leads to. A missing catalog program may still be another kind
/// of command; a missing path may not.
pub open spec fn lookup_next(reference: Reference, lookup: Lookup) -> LookupNext {
    match lookup {
        Lookup::File => LookupNext::Load,
        Lookup::OtherNode => LookupNext::Report("artifact is not a file", CommandStatus::Failure),
        Lookup::Missing => if reference == Reference::CatalogName {
            LookupNext::NotExternal
        } else {
            LookupNext::Report("not found", CommandStatus::NotFound)
        },
        Lookup::Failed => LookupNext::Report("lookup failed", CommandStatus::Failure),
    }
}

/// Decide what a lookup leads to.
pub fn after_lookup(reference: Reference, lookup: Lookup) -> (next: LookupNext)
    ensures
        next == lookup_next(reference, lookup),
{
    match lookup {
        Lookup::File => LookupNext::Load,
        Lookup::OtherNode => LookupNext::Report("artifact is not a file", CommandStatus::Failure),
        Lookup::Missing => match reference {
            Reference::CatalogName => LookupNext::NotExternal,
            Reference::Path => LookupNext::Report("not found", CommandStatus::NotFound),
        },
        Lookup::Failed => LookupNext::Report("lookup failed", CommandStatus::Failure),
    }
}

/// The grant under which a command starts.
#[derive(Clone, Copy, Debug, PartialEq, Eq, Structural)]
pub struct Grant {
    /// Authority bits.
    pub bits: AuthorityBits,
    /// Initial handles of a configured service.
    pub initial_handles: Option<u8>,
    /// Authorized bits of a configured service.
    pub authorized: Option<u32>,
}

/// Whether requirements are what a manifest asks for.
pub open spec fn is_asked(
    catalog: Catalog,
    manifest: Seq<InterfaceVersion>,
    requirements: Requirements,
) -> bool {
    forall|c: Capability| #[trigger]
        requirements.has(c) == Requirements::asked(catalog, manifest, c)
}

/// Whether a manifest asks only for what is offered.
pub open spec fn all_offered(catalog: Catalog, manifest: Seq<InterfaceVersion>) -> bool {
    forall|i: int| 0 <= i < manifest.len() ==> catalog.offers(#[trigger] manifest[i]) is Some
}

/// Admit a package by its manifest, or say why not.
pub fn admit_manifest(catalog: &Catalog, manifest: &Vec<InterfaceVersion>, grant: &Grant) -> (admitted:
    Result<Requirements, &'static str>)
    requires
        catalog.well_formed(),
    ensures
        match admitted {
            Ok(r) => all_offered(*catalog, manifest@) && is_asked(*catalog, manifest@, r)
                && authority(
                r,
                manifest@.len() as int,
                grant.bits,
                grant.initial_handles,
                grant.authorized,
            ) == Authority::Granted,
            Err(message) => {
                ||| message == "unsupported capability requirement" && !all_offered(
                    *catalog,
                    manifest@,
                )
                ||| all_offered(*catalog, manifest@) && exists|r: Requirements|
                    {
                        &&& #[trigger] is_asked(*catalog, manifest@, r)
                        &&& match authority(
                            r,
                            manifest@.len() as int,
                            grant.bits,
                            grant.initial_handles,
                            grant.authorized,
                        ) {
                            Authority::Denied => message == "SCFG launch authority denied",
                            Authority::ServiceOnly => message
                                == "clock-control authority is service-only",
                            Authority::Granted => false,
                        }
                    }
            },
        },
{
    let requirements = match Requirements::from_manifest(catalog, manifest) {
        Some(requirements) => requirements,
        None => return Err("unsupported capability requirement"),
    };
    assert(is_asked(*catalog, manifest@, requirements));
    match decide_authority(
        &requirements,
        manifest.len(),
        grant.bits,
        grant.initial_handles,
        grant.authorized,
    ) {
        Authority::Granted => Ok(requirements),
        Authority::Denied => Err("SCFG launch authority denied"),
        Authority::ServiceOnly => Err("clock-control authority is service-only"),
    }
}

/// What a manifest asks for is one set of requirements: two sets that it asks
/// for are the same.
pub proof fn requirements_are_determined(
    catalog: Catalog,
    manifest: Seq<InterfaceVersion>,
    a: Requirements,
    b: Requirements,
)
    requires
        is_asked(catalog, manifest, a),
        is_asked(catalog, manifest, b),
    ensures
        a == b,
{
    assert(a.has(Capability::Datagram) == b.has(Capability::Datagram));
    assert(a.has(Capability::FilesystemRead) == b.has(Capability::FilesystemRead));
    assert(a.has(Capability::FilesystemMutate) == b.has(Capability::FilesystemMutate));
    assert(a.has(Capability::Timer) == b.has(Capability::Timer));
    assert(a.has(Capability::Diagnostics) == b.has(Capability::Diagnostics));
    assert(a.has(Capability::ProcessObserve) == b.has(Capability::ProcessObserve));
    assert(a.has(Capability::ProcessLaunch) == b.has(Capability::ProcessLaunch));
    assert(a.has(Capability::Pipe) == b.has(Capability::Pipe));
    assert(a.has(Capability::NetworkObserve) == b.has(Capability::NetworkObserve));
    assert(a.has(Capability::NetworkConfigure) == b.has(Capability::NetworkConfigure));
    assert(a.has(Capability::Echo) == b.has(Capability::Echo));
    assert(a.has(Capability::TcpConnect) == b.has(Capability::TcpConnect));
    assert(a.has(Capability::VolumeControl) == b.has(Capability::VolumeControl));
    assert(a.has(Capability::ShellScript) == b.has(Capability::ShellScript));
    assert(a.has(Capability::WallClock) == b.has(Capability::WallClock));
    assert(a.has(Capability::ClockControl) == b.has(Capability::ClockControl));
    assert(a.has(Capability::PrivateMemory) == b.has(Capability::PrivateMemory));
    assert(a.has(Capability::Random) == b.has(Capability::Random));
}

/// A stage of a launch.
#[derive(Clone, Copy, Debug, PartialEq, Eq, Structural)]
pub enum LaunchStage {
    /// Draw a load address.
    Placement,
    /// Read and check the package.
    Package,
    /// Take the diagnostics snapshot.
    Snapshot,
    /// Refresh the memory report.
    MemoryReport,
    /// Refuse an interpreter in the background.
    Interpreter,
    /// Find a free resident slot.
    Slot,
    /// Find room for a job: `job_room` of the jobs there are.
    JobRoom,
    /// Find the network.
    Network,
    /// Make the dispatcher.
    Dispatcher,
    /// Make the log.
    Log,
    /// Make the table of children.
    Children,
    /// Make the table of pipes.
    Pipes,
    /// Register the services.
    Services,
    /// Load the application.
    Prepare,
    /// Bind the owner of children and pipes.
    Owner,
    /// Install deferred services.
    Deferred,
    /// Give the application control over its children.
    Control,
    /// Lend the session terminal.
    Loan,
    /// Run to the end.
    Run,
    /// Take the session terminal back.
    ReturnLoan,
    /// Take over the submitted script.
    Script,
    /// Enter the job.
    Admit,
    /// Say that the job started.
    Announce,
}

/// A stage, where it is needed.
pub open spec fn stage_if(needed: bool, stage: LaunchStage) -> Seq<LaunchStage> {
    if needed {
        seq![stage]
    } else {
        Seq::empty()
    }
}

/// The stages up to the loaded application, once its manifest is admitted.
pub open spec fn setup_stages(requirements: Requirements, background: bool) -> Seq<LaunchStage> {
    let n = needs(requirements, background, false);
    let front = stage_if(requirements.diagnostics, LaunchStage::Snapshot)
        + seq![LaunchStage::MemoryReport];
    let middle = if background {
        front + stage_if(requirements.shell_script, LaunchStage::Interpreter) + seq![
            LaunchStage::Slot,
        ] + seq![LaunchStage::JobRoom] + seq![LaunchStage::Dispatcher] + seq![LaunchStage::Log]
            + stage_if(n.network, LaunchStage::Network)
    } else {
        front + stage_if(n.network, LaunchStage::Network) + seq![LaunchStage::Dispatcher]
    };
    middle + stage_if(n.children, LaunchStage::Children) + stage_if(n.pipes, LaunchStage::Pipes)
        + seq![LaunchStage::Services] + seq![LaunchStage::Prepare]
}

/// The stages from the loaded application on.
pub open spec fn finish_stages(
    requirements: Requirements,
    background: bool,
    terminal: bool,
) -> Seq<LaunchStage> {
    let n = needs(requirements, background, terminal);
    let front = stage_if(n.owner, LaunchStage::Owner) + seq![LaunchStage::Deferred] + stage_if(
        requirements.process_launch,
        LaunchStage::Control,
    );
    if background {
        front + seq![LaunchStage::Admit] + seq![LaunchStage::Announce]
    } else {
        front + stage_if(terminal, LaunchStage::Loan) + seq![LaunchStage::Run] + stage_if(
            terminal,
            LaunchStage::ReturnLoan,
        ) + stage_if(requirements.shell_script, LaunchStage::Script)
    }
}

/// Append a stage, where it is needed.
fn push_if(stages: &mut Vec<LaunchStage>, needed: bool, stage: LaunchStage)
    ensures
        final(stages)@ == old(stages)@ + stage_if(needed, stage),
{
    let ghost before = stages@;
    if needed {
        stages.push(stage);
    }
    assert(stages@ =~= before + stage_if(needed, stage));
}

/// Append a stage.
fn push_stage(stages: &mut Vec<LaunchStage>, stage: LaunchStage)
    ensures
        final(stages)@ == old(stages)@ + seq![stage],
{
    let ghost before = stages@;
    stages.push(stage);
    assert(stages@ =~= before + seq![stage]);
}

/// The stages up to the loaded application.
fn list_setup(requirements: &Requirements, background: bool) -> (stages: Vec<LaunchStage>)
    ensures
        stages@ == setup_stages(*requirements, background),
{
    let network = requirements.datagram || requirements.tcp_connect;
    let owner = requirements.process_launch || requirements.pipe;
    let mut stages: Vec<LaunchStage> = Vec::new();
    push_if(&mut stages, requirements.diagnostics, LaunchStage::Snapshot);
    assert(stages@ =~= stage_if(requirements.diagnostics, LaunchStage::Snapshot));
    push_stage(&mut stages, LaunchStage::MemoryReport);
    if background {
        push_if(&mut stages, requirements.shell_script, LaunchStage::Interpreter);
        push_stage(&mut stages, LaunchStage::Slot);
        push_stage(&mut stages, LaunchStage::JobRoom);
        push_stage(&mut stages, LaunchStage::Dispatcher);
        push_stage(&mut stages, LaunchStage::Log);
        push_if(&mut stages, network, LaunchStage::Network);
    } else {
        push_if(&mut stages, network, LaunchStage::Network);
        push_stage(&mut stages, LaunchStage::Dispatcher);
    }
    push_if(&mut stages, requirements.process_launch, LaunchStage::Children);
    push_if(&mut stages, owner, LaunchStage::Pipes);
    push_stage(&mut stages, LaunchStage::Services);
    push_stage(&mut stages, LaunchStage::Prepare);
    stages
}

/// The stages from the loaded application on.
fn list_finish(requirements: &Requirements, background: bool, terminal: bool) -> (stages: Vec<
    LaunchStage,
>)
    ensures
        stages@ == finish_stages(*requirements, background, terminal),
{
    let owner = requirements.process_launch || requirements.pipe;
    let mut stages: Vec<LaunchStage> = Vec::new();
    push_if(&mut stages, owner, LaunchStage::Owner);
    assert(stages@ =~= stage_if(owner, LaunchStage::Owner));
    push_stage(&mut stages, LaunchStage::Deferred);
    push_if(&mut stages, requirements.process_launch, LaunchStage::Control);
    if background {
        push_stage(&mut stages, LaunchStage::Admit);
        push_stage(&mut stages, LaunchStage::Announce);
    } else {
        push_if(&mut stages, terminal, LaunchStage::Loan);
        push_stage(&mut stages, LaunchStage::Run);
        push_if(&mut stages, terminal, LaunchStage::ReturnLoan);
        push_if(&mut stages, requirements.shell_script, LaunchStage::Script);
    }
    stages
}

/// The stages of a launch whose manifest is admitted.
pub fn launch_stages(requirements: &Requirements, background: bool, terminal: bool) -> (stages: Vec<
    LaunchStage,
>)
    ensures
        stages@ == setup_stages(*requirements, background) + finish_stages(
            *requirements,
            background,
            terminal,
        ),
{
    let mut stages = list_setup(requirements, background);
    let mut rest = list_finish(requirements, background, terminal);
    stages.append(&mut rest);
    stages
}

/// What a failed stage leads to.
#[derive(Debug)]
pub enum LaunchFailure {
    /// A message on standard error and failure.
    Report(&'static str),
    /// The loaded application is torn down as cancelled; then a message on
    /// standard error and failure.
    TearDown(&'static str),
    /// The machine stops.
    Fatal(&'static str),
    /// Failure without a message.
    Silent,
}

/// What a failed stage leads to.
pub open spec fn failure_of(stage: LaunchStage, background: bool) -> LaunchFailure {
    match stage {
        LaunchStage::Placement => LaunchFailure::Report("application placement failed"),
        LaunchStage::Package => LaunchFailure::Report("application package rejected"),
        LaunchStage::Snapshot => LaunchFailure::Report("diagnostics snapshot failed"),
        LaunchStage::MemoryReport => LaunchFailure::Report("memory report refresh failed"),
        LaunchStage::Interpreter => LaunchFailure::Report(
            "interpreter applications require the foreground session",
        ),
        LaunchStage::Slot => LaunchFailure::Report("resident process table full"),
        LaunchStage::JobRoom => LaunchFailure::Report(
            "reap a completed job before starting another",
        ),
        LaunchStage::Network => LaunchFailure::Report("required capability unavailable"),
        LaunchStage::Dispatcher => LaunchFailure::Report("service resources exhausted"),
        LaunchStage::Log => LaunchFailure::Report("log allocation failed"),
        LaunchStage::Children => LaunchFailure::Report("process metadata exhausted"),
        LaunchStage::Pipes => LaunchFailure::Report("pipe metadata exhausted"),
        LaunchStage::Services => LaunchFailure::Report("service setup failed"),
        LaunchStage::Prepare => LaunchFailure::Report("application rejected"),
        LaunchStage::Owner => if background {
            LaunchFailure::TearDown("invalid process owner")
        } else {
            LaunchFailure::Fatal("fatal: invalid process owner\n")
        },
        LaunchStage::Deferred => if background {
            LaunchFailure::TearDown("wait metadata exhausted")
        } else {
            LaunchFailure::TearDown("application rejected")
        },
        LaunchStage::Control => LaunchFailure::Fatal("fatal: process owner missing\n"),
        LaunchStage::Loan => LaunchFailure::TearDown("application rejected"),
        LaunchStage::Run => LaunchFailure::Report("application rejected"),
        LaunchStage::ReturnLoan => LaunchFailure::Fatal("fatal: session terminal loan leaked\n"),
        LaunchStage::Script => LaunchFailure::Report("script staging conflict"),
        LaunchStage::Admit => LaunchFailure::TearDown("resident admission failed"),
        LaunchStage::Announce => LaunchFailure::Silent,
    }
}

/// Decide what a failed stage leads to.
pub fn stage_failure(stage: LaunchStage, background: bool) -> (failure: LaunchFailure)
    ensures
        failure == failure_of(stage, background),
{
    match stage {
        LaunchStage::Placement => LaunchFailure::Report("application placement failed"),
        LaunchStage::Package => LaunchFailure::Report("application package rejected"),
        LaunchStage::Snapshot => LaunchFailure::Report("diagnostics snapshot failed"),
        LaunchStage::MemoryReport => LaunchFailure::Report("memory report refresh failed"),
        LaunchStage::Interpreter => LaunchFailure::Report(
            "interpreter applications require the foreground session",
        ),
        LaunchStage::Slot => LaunchFailure::Report("resident process table full"),
        LaunchStage::JobRoom => LaunchFailure::Report(
            "reap a completed job before starting another",
        ),
        LaunchStage::Network => LaunchFailure::Report("required capability unavailable"),
        LaunchStage::Dispatcher => LaunchFailure::Report("service resources exhausted"),
        LaunchStage::Log => LaunchFailure::Report("log allocation failed"),
        LaunchStage::Children => LaunchFailure::Report("process metadata exhausted"),
        LaunchStage::Pipes => LaunchFailure::Report("pipe metadata exhausted"),
        LaunchStage::Services => LaunchFailure::Report("service setup failed"),
        LaunchStage::Prepare => LaunchFailure::Report("application rejected"),
        LaunchStage::Owner => if background {
            LaunchFailure::TearDown("invalid process owner")
        } else {
            LaunchFailure::Fatal("fatal: invalid process owner\n")
        },
        LaunchStage::Deferred => if background {
            LaunchFailure::TearDown("wait metadata exhausted")
        } else {
            LaunchFailure::TearDown("application rejected")
        },
        LaunchStage::Control => LaunchFailure::Fatal("fatal: process owner missing\n"),
        LaunchStage::Loan => LaunchFailure::TearDown("application rejected"),
        LaunchStage::Run => LaunchFailure::Report("application rejected"),
        LaunchStage::ReturnLoan => LaunchFailure::Fatal("fatal: session terminal loan leaked\n"),
        LaunchStage::Script => LaunchFailure::Report("script staging conflict"),
        LaunchStage::Admit => LaunchFailure::TearDown("resident admission failed"),
        LaunchStage::Announce => LaunchFailure::Silent,
    }
}

/// Whether a loaded application waits to be run or entered at this stage.
pub open spec fn holds_application(stage: LaunchStage) -> bool {
    match stage {
        LaunchStage::Owner
        | LaunchStage::Deferred
        | LaunchStage::Control
        | LaunchStage::Loan
        | LaunchStage::Admit => true,
        _ => false,
    }
}

/// A loaded application is never left behind: a failure at a stage that holds
/// one tears it down or stops the machine.
pub proof fn failures_leave_no_application(stage: LaunchStage, background: bool)
    requires
        holds_application(stage),
    ensures
        failure_of(stage, background) is TearDown || failure_of(stage, background) is Fatal,
{
}

/// The application is loaded by the last stage of the setup, and no stage
/// before that holds it.
pub proof fn setup_ends_with_the_load(requirements: Requirements, background: bool, i: int)
    requires
        0 <= i < setup_stages(requirements, background).len(),
    ensures
        !holds_application(setup_stages(requirements, background)[i]),
        setup_stages(requirements, background).last() == LaunchStage::Prepare,
        setup_stages(requirements, background)[i] == LaunchStage::Prepare ==> i
            == setup_stages(requirements, background).len() - 1,
{
    let n = needs(requirements, background, false);
    let a = stage_if(requirements.diagnostics, LaunchStage::Snapshot).len() as int;
    let all = setup_stages(requirements, background);
    let k = all.len() as int;
    let p = stage_if(n.pipes, LaunchStage::Pipes).len() as int;
    let c = stage_if(n.children, LaunchStage::Children).len() as int;
    let w = stage_if(n.network, LaunchStage::Network).len() as int;
    let t = stage_if(requirements.shell_script, LaunchStage::Interpreter).len() as int;
    assert(all[k - 1] == LaunchStage::Prepare);
    assert(all[k - 2] == LaunchStage::Services);
    if background {
        assert(k == a + 1 + t + 4 + w + c + p + 2);
    } else {
        assert(k == a + 1 + w + 1 + c + p + 2);
    }
}

/// What is said of a started job.
pub open spec fn started_text(job: nat, command: Seq<u8>) -> Seq<u8> {
    utf8("[") + decimal(job) + utf8("] started ") + command + utf8("\n")
}

/// Format what is said of a started job.
pub fn started_line(job: u32, command: &[u8]) -> (line: Vec<u8>)
    ensures
        line@ == started_text(job as nat, command@),
{
    let mut line: Vec<u8> = Vec::new();
    append_text(&mut line, "[");
    append_decimal(&mut line, job as u64);
    append_text(&mut line, "] started ");
    append_bytes(&mut line, command);
    append_text(&mut line, "\n");
    assert(line@ =~= started_text(job as nat, command@));
    line
}

/// A command of the catalog is the program of its name in `/bin`, and a path is
/// the program itself.
pub proof fn programs_are_found_by_reference(command: Seq<u8>)
    ensures
        program(Reference::Path, command) == command,
        program(Reference::CatalogName, command) == utf8("/bin/") + command + utf8(".kex"),
{
}

/// Only a file is loaded. A missing path is reported as not found, while a name
/// that no program has is left to the shell; any other node and a failed lookup
/// are reported as failures.
pub proof fn only_files_are_loaded(reference: Reference, lookup: Lookup)
    ensures
        lookup_next(reference, lookup) == LookupNext::Load <==> lookup == Lookup::File,
        lookup_next(reference, lookup) == LookupNext::NotExternal <==> lookup == Lookup::Missing
            && reference == Reference::CatalogName,
        lookup_next(Reference::Path, Lookup::Missing) == LookupNext::Report(
            "not found",
            CommandStatus::NotFound,
        ),
        lookup_next(reference, Lookup::OtherNode) == LookupNext::Report(
            "artifact is not a file",
            CommandStatus::Failure,
        ),
        lookup_next(reference, Lookup::Failed) == LookupNext::Report(
            "lookup failed",
            CommandStatus::Failure,
        ),
{
}

/// The failure of each stage has its own words.
pub proof fn failed_stages_are_named(background: bool)
    ensures
        failure_of(LaunchStage::Placement, background) == LaunchFailure::Report(
            "application placement failed",
        ),
        failure_of(LaunchStage::Package, background) == LaunchFailure::Report(
            "application package rejected",
        ),
        failure_of(LaunchStage::Snapshot, background) == LaunchFailure::Report(
            "diagnostics snapshot failed",
        ),
        failure_of(LaunchStage::MemoryReport, background) == LaunchFailure::Report(
            "memory report refresh failed",
        ),
        failure_of(LaunchStage::Interpreter, background) == LaunchFailure::Report(
            "interpreter applications require the foreground session",
        ),
        failure_of(LaunchStage::Slot, background) == LaunchFailure::Report(
            "resident process table full",
        ),
        failure_of(LaunchStage::JobRoom, background) == LaunchFailure::Report(
            "reap a completed job before starting another",
        ),
        failure_of(LaunchStage::Network, background) == LaunchFailure::Report(
            "required capability unavailable",
        ),
        failure_of(LaunchStage::Dispatcher, background) == LaunchFailure::Report(
            "service resources exhausted",
        ),
        failure_of(LaunchStage::Log, background) == LaunchFailure::Report(
            "log allocation failed",
        ),
        failure_of(LaunchStage::Children, background) == LaunchFailure::Report(
            "process metadata exhausted",
        ),
        failure_of(LaunchStage::Pipes, background) == LaunchFailure::Report(
            "pipe metadata exhausted",
        ),
        failure_of(LaunchStage::Services, background) == LaunchFailure::Report(
            "service setup failed",
        ),
        failure_of(LaunchStage::Prepare, background) == LaunchFailure::Report(
            "application rejected",
        ),
        failure_of(LaunchStage::Control, background) == LaunchFailure::Fatal(
            "fatal: process owner missing\n",
        ),
        failure_of(LaunchStage::Loan, background) == LaunchFailure::TearDown(
            "application rejected",
        ),
        failure_of(LaunchStage::Run, background) == LaunchFailure::Report(
            "application rejected",
        ),
        failure_of(LaunchStage::ReturnLoan, background) == LaunchFailure::Fatal(
            "fatal: session terminal loan leaked\n",
        ),
        failure_of(LaunchStage::Script, background) == LaunchFailure::Report(
            "script staging conflict",
        ),
        failure_of(LaunchStage::Admit, background) == LaunchFailure::TearDown(
            "resident admission failed",
        ),
        failure_of(LaunchStage::Announce, background) == LaunchFailure::Silent,
        failure_of(LaunchStage::Owner, true) == LaunchFailure::TearDown("invalid process owner"),
        failure_of(LaunchStage::Owner, false) == LaunchFailure::Fatal(
            "fatal: invalid process owner\n",
        ),
        failure_of(LaunchStage::Deferred, true) == LaunchFailure::TearDown(
            "wait metadata exhausted",
        ),
        failure_of(LaunchStage::Deferred, false) == LaunchFailure::TearDown(
            "application rejected",
        ),
{
}

/// The entries of a list that are wanted, in order.
pub open spec fn wanted_stages(list: Seq<LaunchStage>, wanted: Seq<bool>) -> Seq<LaunchStage>
    decreases list.len(),
{
    if list.len() == 0 {
        Seq::empty()
    } else if wanted.last() {
        wanted_stages(list.drop_last(), wanted.drop_last()).push(list.last())
    } else {
        wanted_stages(list.drop_last(), wanted.drop_last())
    }
}

proof fn lemma_wanted_push(
    list: Seq<LaunchStage>,
    wanted: Seq<bool>,
    stage: LaunchStage,
    needed: bool,
)
    requires
        list.len() == wanted.len(),
    ensures
        wanted_stages(list.push(stage), wanted.push(needed)) == wanted_stages(list, wanted)
            + stage_if(needed, stage),
{
    assert(list.push(stage).drop_last() =~= list);
    assert(wanted.push(needed).drop_last() =~= wanted);
    assert(wanted_stages(list, wanted) + stage_if(needed, stage) =~= wanted_stages(
        list.push(stage),
        wanted.push(needed),
    ));
}

/// A launch in the background goes through these stages in this order, each
/// where it is needed: a job is looked for room before anything is made for it,
/// a log is made before its services, and the application is loaded last.
pub proof fn background_launches_are_set_up_in_order(requirements: Requirements)
    ensures
        setup_stages(requirements, true) == wanted_stages(
            seq![
                LaunchStage::Snapshot,
                LaunchStage::MemoryReport,
                LaunchStage::Interpreter,
                LaunchStage::Slot,
                LaunchStage::JobRoom,
                LaunchStage::Dispatcher,
                LaunchStage::Log,
                LaunchStage::Network,
                LaunchStage::Children,
                LaunchStage::Pipes,
                LaunchStage::Services,
                LaunchStage::Prepare,
            ],
            seq![
                requirements.diagnostics,
                true,
                requirements.shell_script,
                true,
                true,
                true,
                true,
                requirements.datagram || requirements.tcp_connect,
                requirements.process_launch,
                requirements.process_launch || requirements.pipe,
                true,
                true,
            ],
        ),
{
    let r = requirements;
    let l0 = Seq::<LaunchStage>::empty();
    let w0 = Seq::<bool>::empty();
    let l1 = l0.push(LaunchStage::Snapshot);
    let w1 = w0.push(r.diagnostics);
    lemma_wanted_push(l0, w0, LaunchStage::Snapshot, r.diagnostics);
    let l2 = l1.push(LaunchStage::MemoryReport);
    let w2 = w1.push(true);
    lemma_wanted_push(l1, w1, LaunchStage::MemoryReport, true);
    let l3 = l2.push(LaunchStage::Interpreter);
    let w3 = w2.push(r.shell_script);
    lemma_wanted_push(l2, w2, LaunchStage::Interpreter, r.shell_script);
    let l4 = l3.push(LaunchStage::Slot);
    let w4 = w3.push(true);
    lemma_wanted_push(l3, w3, LaunchStage::Slot, true);
    let l5 = l4.push(LaunchStage::JobRoom);
    let w5 = w4.push(true);
    lemma_wanted_push(l4, w4, LaunchStage::JobRoom, true);
    let l6 = l5.push(LaunchStage::Dispatcher);
    let w6 = w5.push(true);
    lemma_wanted_push(l5, w5, LaunchStage::Dispatcher, true);
    let l7 = l6.push(LaunchStage::Log);
    let w7 = w6.push(true);
    lemma_wanted_push(l6, w6, LaunchStage::Log, true);
    lemma_last_setup(r, true, l7, w7);
    let list = seq![
        LaunchStage::Snapshot,
        LaunchStage::MemoryReport,
        LaunchStage::Interpreter,
        LaunchStage::Slot,
        LaunchStage::JobRoom,
        LaunchStage::Dispatcher,
        LaunchStage::Log,
        LaunchStage::Network,
        LaunchStage::Children,
        LaunchStage::Pipes,
        LaunchStage::Services,
        LaunchStage::Prepare,
    ];
    let network = r.datagram || r.tcp_connect;
    let wanted = seq![
        r.diagnostics,
        true,
        r.shell_script,
        true,
        true,
        true,
        true,
        network,
        r.process_launch,
        r.process_launch || r.pipe,
        true,
        true,
    ];
    assert(list =~= last_setup_list(l7, LaunchStage::Network));
    assert(wanted =~= last_setup_wanted(r, w7, network));
    assert(setup_stages(r, true) =~= wanted_stages(list, wanted));
}

/// The stages from the network or the dispatcher on.
pub open spec fn last_setup_list(front: Seq<LaunchStage>, next: LaunchStage) -> Seq<LaunchStage> {
    front.push(next).push(LaunchStage::Children).push(LaunchStage::Pipes).push(
        LaunchStage::Services,
    ).push(LaunchStage::Prepare)
}

/// Which of the stages from the network or the dispatcher on are needed.
pub open spec fn last_setup_wanted(r: Requirements, front: Seq<bool>, next: bool) -> Seq<bool> {
    front.push(next).push(r.process_launch).push(r.process_launch || r.pipe).push(true).push(true)
}

proof fn lemma_last_setup(r: Requirements, background: bool, list: Seq<LaunchStage>, wanted: Seq<bool>)
    requires
        list.len() == wanted.len(),
    ensures
        ({
            let network = r.datagram || r.tcp_connect;
            let next = if background {
                LaunchStage::Network
            } else {
                LaunchStage::Dispatcher
            };
            let needed = if background {
                network
            } else {
                true
            };
            wanted_stages(last_setup_list(list, next), last_setup_wanted(r, wanted, needed))
                == wanted_stages(list, wanted) + stage_if(needed, next) + stage_if(
                r.process_launch,
                LaunchStage::Children,
            ) + stage_if(r.process_launch || r.pipe, LaunchStage::Pipes) + seq![
                LaunchStage::Services,
            ] + seq![LaunchStage::Prepare]
        }),
{
    let next = if background {
        LaunchStage::Network
    } else {
        LaunchStage::Dispatcher
    };
    let needed = if background {
        r.datagram || r.tcp_connect
    } else {
        true
    };
    let l1 = list.push(next);
    let w1 = wanted.push(needed);
    lemma_wanted_push(list, wanted, next, needed);
    let l2 = l1.push(LaunchStage::Children);
    let w2 = w1.push(r.process_launch);
    lemma_wanted_push(l1, w1, LaunchStage::Children, r.process_launch);
    let l3 = l2.push(LaunchStage::Pipes);
    let w3 = w2.push(r.process_launch || r.pipe);
    lemma_wanted_push(l2, w2, LaunchStage::Pipes, r.process_launch || r.pipe);
    let l4 = l3.push(LaunchStage::Services);
    let w4 = w3.push(true);
    lemma_wanted_push(l3, w3, LaunchStage::Services, true);
    lemma_wanted_push(l4, w4, LaunchStage::Prepare, true);
}

/// A launch in the foreground goes through these stages in this order, each where
/// it is needed; it needs no slot, no job and no log.
pub proof fn foreground_launches_are_set_up_in_order(requirements: Requirements)
    ensures
        setup_stages(requirements, false) == wanted_stages(
            seq![
                LaunchStage::Snapshot,
                LaunchStage::MemoryReport,
                LaunchStage::Network,
                LaunchStage::Dispatcher,
                LaunchStage::Children,
                LaunchStage::Pipes,
                LaunchStage::Services,
                LaunchStage::Prepare,
            ],
            seq![
                requirements.diagnostics,
                true,
                requirements.datagram || requirements.tcp_connect,
                true,
                requirements.process_launch,
                requirements.process_launch || requirements.pipe,
                true,
                true,
            ],
        ),
{
    let r = requirements;
    let network = r.datagram || r.tcp_connect;
    let l0 = Seq::<LaunchStage>::empty();
    let w0 = Seq::<bool>::empty();
    let l1 = l0.push(LaunchStage::Snapshot);
    let w1 = w0.push(r.diagnostics);
    lemma_wanted_push(l0, w0, LaunchStage::Snapshot, r.diagnostics);
    let l2 = l1.push(LaunchStage::MemoryReport);
    let w2 = w1.push(true);
    lemma_wanted_push(l1, w1, LaunchStage::MemoryReport, true);
    let l3 = l2.push(LaunchStage::Network);
    let w3 = w2.push(network);
    lemma_wanted_push(l2, w2, LaunchStage::Network, network);
    lemma_last_setup(r, false, l3, w3);
    let list = seq![
        LaunchStage::Snapshot,
        LaunchStage::MemoryReport,
        LaunchStage::Network,
        LaunchStage::Dispatcher,
        LaunchStage::Children,
        LaunchStage::Pipes,
        LaunchStage::Services,
        LaunchStage::Prepare,
    ];
    let wanted = seq![
        r.diagnostics,
        true,
        network,
        true,
        r.process_launch,
        r.process_launch || r.pipe,
        true,
        true,
    ];
    assert(list =~= last_setup_list(l3, LaunchStage::Dispatcher));
    assert(wanted =~= last_setup_wanted(r, w3, true));
    assert(setup_stages(r, false) =~= wanted_stages(list, wanted));
}

/// Once it is loaded, an application gets its owner, what its calls wait with and
/// control over its children, each where it is needed. In the background it is
/// then entered as a job and announced. In the foreground it runs, between the
/// loan of the terminal and its return where there is one, and its script comes
/// last.
pub proof fn loaded_applications_are_finished_in_order(requirements: Requirements, terminal: bool)
    ensures
        finish_stages(requirements, true, terminal) == wanted_stages(
            seq![
                LaunchStage::Owner,
                LaunchStage::Deferred,
                LaunchStage::Control,
                LaunchStage::Admit,
                LaunchStage::Announce,
            ],
            seq![
                requirements.process_launch || requirements.pipe,
                true,
                requirements.process_launch,
                true,
                true,
            ],
        ),
        finish_stages(requirements, false, terminal) == wanted_stages(
            seq![
                LaunchStage::Owner,
                LaunchStage::Deferred,
                LaunchStage::Control,
                LaunchStage::Loan,
                LaunchStage::Run,
                LaunchStage::ReturnLoan,
                LaunchStage::Script,
            ],
            seq![
                requirements.process_launch || requirements.pipe,
                true,
                requirements.process_launch,
                terminal,
                true,
                terminal,
                requirements.shell_script,
            ],
        ),
{
    let r = requirements;
    let owner = r.process_launch || r.pipe;
    let l0 = Seq::<LaunchStage>::empty();
    let w0 = Seq::<bool>::empty();
    let l1 = l0.push(LaunchStage::Owner);
    let w1 = w0.push(owner);
    lemma_wanted_push(l0, w0, LaunchStage::Owner, owner);
    let l2 = l1.push(LaunchStage::Deferred);
    let w2 = w1.push(true);
    lemma_wanted_push(l1, w1, LaunchStage::Deferred, true);
    let l3 = l2.push(LaunchStage::Control);
    let w3 = w2.push(r.process_launch);
    lemma_wanted_push(l2, w2, LaunchStage::Control, r.process_launch);
    let a4 = l3.push(LaunchStage::Admit);
    let v4 = w3.push(true);
    lemma_wanted_push(l3, w3, LaunchStage::Admit, true);
    lemma_wanted_push(a4, v4, LaunchStage::Announce, true);
    let l4 = l3.push(LaunchStage::Loan);
    let w4 = w3.push(terminal);
    lemma_wanted_push(l3, w3, LaunchStage::Loan, terminal);
    let l5 = l4.push(LaunchStage::Run);
    let w5 = w4.push(true);
    lemma_wanted_push(l4, w4, LaunchStage::Run, true);
    let l6 = l5.push(LaunchStage::ReturnLoan);
    let w6 = w5.push(terminal);
    lemma_wanted_push(l5, w5, LaunchStage::ReturnLoan, terminal);
    lemma_wanted_push(l6, w6, LaunchStage::Script, r.shell_script);
    let back = seq![
        LaunchStage::Owner,
        LaunchStage::Deferred,
        LaunchStage::Control,
        LaunchStage::Admit,
        LaunchStage::Announce,
    ];
    let back_wanted = seq![owner, true, r.process_launch, true, true];
    assert(back =~= a4.push(LaunchStage::Announce));
    assert(back_wanted =~= v4.push(true));
    assert(finish_stages(r, true, terminal) =~= wanted_stages(back, back_wanted));
    let fore = seq![
        LaunchStage::Owner,
        LaunchStage::Deferred,
        LaunchStage::Control,
        LaunchStage::Loan,
        LaunchStage::Run,
        LaunchStage::ReturnLoan,
        LaunchStage::Script,
    ];
    let fore_wanted = seq![
        owner,
        true,
        r.process_launch,
        terminal,
        true,
        terminal,
        r.shell_script,
    ];
    assert(fore =~= l6.push(LaunchStage::Script));
    assert(fore_wanted =~= w6.push(r.shell_script));
    assert(finish_stages(r, false, terminal) =~= wanted_stages(fore, fore_wanted));
}

/// A started job is announced with its number and its command.
pub proof fn started_jobs_are_announced(job: nat, command: Seq<u8>)
    ensures
        started_text(job, command) == utf8("[") + decimal(job) + utf8("] started ") + command
            + utf8("\n"),
{
}

} // verus!
