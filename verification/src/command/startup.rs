//! The services that an application starts with.

use crate::command::capability::{
    all_capabilities, capabilities, lemma_listed, position, Capability, Requirements,
    CAPABILITY_COUNT,
};
use crate::deferred::prepare::{DeferredServices, StreamBinding};
use crate::nested::{NestedInput, NestedOutput};
use vstd::prelude::*;

verus! {

/// One service that an application starts with.
#[derive(Clone, Copy, Debug, PartialEq, Eq, Structural)]
pub enum StartupService {
    /// The command itself: words, directory, environment.
    Invocation,
    /// Standard input.
    StandardInput,
    /// Standard output.
    StandardOutput,
    /// Standard error.
    StandardError,
    /// A required capability.
    Required(Capability),
}

/// The required ones among the first `n` capabilities, in order.
pub open spec fn required(requirements: Requirements, n: int) -> Seq<StartupService>
    decreases n,
{
    if n <= 0 {
        Seq::empty()
    } else if requirements.has(all_capabilities()[n - 1]) {
        required(requirements, n - 1).push(StartupService::Required(all_capabilities()[n - 1]))
    } else {
        required(requirements, n - 1)
    }
}

/// Every service that an application starts with, in order.
pub open spec fn startup(requirements: Requirements) -> Seq<StartupService> {
    seq![
        StartupService::Invocation,
        StartupService::StandardInput,
        StartupService::StandardOutput,
        StartupService::StandardError,
    ] + required(requirements, CAPABILITY_COUNT as int)
}

proof fn lemma_required_len(requirements: Requirements, n: int)
    requires
        0 <= n <= CAPABILITY_COUNT,
    ensures
        required(requirements, n).len() <= n,
    decreases n,
{
    if n > 0 {
        lemma_required_len(requirements, n - 1);
    }
}

/// List the services that an application starts with.
pub fn startup_services(requirements: &Requirements) -> (services: Vec<StartupService>)
    ensures
        services@ == startup(*requirements),
        4 <= services@.len() <= 22,
{
    let mut services: Vec<StartupService> = vec![
        StartupService::Invocation,
        StartupService::StandardInput,
        StartupService::StandardOutput,
        StartupService::StandardError,
    ];
    let ghost fixed = services@;
    let list = capabilities();
    let mut i: usize = 0;
    assert(services@ =~= fixed + required(*requirements, 0));
    while i < CAPABILITY_COUNT
        invariant
            i <= CAPABILITY_COUNT,
            list@ == all_capabilities(),
            services@ == fixed + required(*requirements, i as int),
        decreases CAPABILITY_COUNT - i,
    {
        if requirements.requires_capability(list[i]) {
            services.push(StartupService::Required(list[i]));
        }
        i = i + 1;
        assert(services@ =~= fixed + required(*requirements, i as int));
    }
    proof {
        lemma_required_len(*requirements, CAPABILITY_COUNT as int);
        assert(services@ =~= startup(*requirements));
    }
    services
}

/// Number of services and of handles that an application starts with: two
/// handles for each service.
pub fn startup_resources(requirements: &Requirements) -> (counts: (usize, usize))
    ensures
        counts.0 == startup(*requirements).len(),
        counts.1 == 2 * startup(*requirements).len(),
{
    let services: usize = startup_services(requirements).len();
    (services, services * 2)
}

/// Whether the first `n` capabilities put this one on the list.
proof fn lemma_required_members(requirements: Requirements, n: int)
    requires
        0 <= n <= CAPABILITY_COUNT,
    ensures
        forall|i: int|
            0 <= i < required(requirements, n).len() ==> (#[trigger] required(
                requirements,
                n,
            )[i]) is Required && requirements.has(required(requirements, n)[i]->0) && position(
                required(requirements, n)[i]->0,
            ) < n,
        forall|i: int, j: int|
            0 <= i < j < required(requirements, n).len() ==> position(
                (#[trigger] required(requirements, n)[i])->0,
            ) < position((#[trigger] required(requirements, n)[j])->0),
        forall|c: Capability|
            position(c) < n && requirements.has(c) ==> exists|i: int|
                0 <= i < required(requirements, n).len() && #[trigger] required(
                    requirements,
                    n,
                )[i] == StartupService::Required(c),
    decreases n,
{
    if n > 0 {
        lemma_required_members(requirements, n - 1);
        lemma_listed(n - 1);
        let rest = required(requirements, n - 1);
        let all = required(requirements, n);
        let last = all_capabilities()[n - 1];
        assert forall|c: Capability| position(c) < n && requirements.has(c) implies exists|
            i: int,
        |
            0 <= i < all.len() && #[trigger] all[i] == StartupService::Required(c) by {
            crate::command::capability::every_capability_is_listed_once(c);
            if position(c) == n - 1 {
                assert(c == last);
                assert(all[rest.len() as int] == StartupService::Required(c));
            } else {
                let i = choose|i: int|
                    0 <= i < rest.len() && #[trigger] rest[i] == StartupService::Required(c);
                assert(all[i] == rest[i]);
            }
        }
    } else {
        assert forall|c: Capability| position(c) < 0 && requirements.has(c) implies false by {
            crate::command::capability::every_capability_is_listed_once(c);
        }
    }
}

/// An application starts with a service for exactly the capabilities that it
/// requires, each once.
pub proof fn startup_grants_what_is_required(requirements: Requirements, capability: Capability)
    ensures
        requirements.has(capability) == exists|i: int|
            0 <= i < startup(requirements).len() && #[trigger] startup(requirements)[i]
                == StartupService::Required(capability),
        forall|i: int, j: int|
            0 <= i < j < startup(requirements).len() ==> #[trigger] startup(requirements)[i]
                != #[trigger] startup(requirements)[j],
{
    let n = CAPABILITY_COUNT as int;
    lemma_required_members(requirements, n);
    crate::command::capability::every_capability_is_listed_once(capability);
    let rest = required(requirements, n);
    let all = startup(requirements);
    assert forall|i: int| 4 <= i < all.len() implies #[trigger] all[i] == rest[i - 4] by {}
    if requirements.has(capability) {
        let i = choose|i: int|
            0 <= i < rest.len() && #[trigger] rest[i] == StartupService::Required(capability);
        assert(all[i + 4] == rest[i]);
    }
    assert forall|i: int, j: int| 0 <= i < j < all.len() implies #[trigger] all[i]
        != #[trigger] all[j] by {
        if i >= 4 {
            assert(position(rest[i - 4]->0) < position(rest[j - 4]->0));
        } else if j >= 4 {
            assert(rest[j - 4] is Required);
        }
    }
}

/// What a launch needs beside its services.
#[derive(Clone, Copy, Debug, PartialEq, Eq, Structural)]
pub struct LaunchNeeds {
    /// A network.
    pub network: bool,
    /// The file namespace.
    pub namespace: bool,
    /// An owner binding.
    pub owner: bool,
    /// A table of children.
    pub children: bool,
    /// A table of pipes.
    pub pipes: bool,
    /// A timer binding.
    pub timer: bool,
    /// Deferred services.
    pub deferred: bool,
}

/// What a launch needs; `terminal` tells whether a foreground application
/// borrows the session terminal.
pub open spec fn needs(requirements: Requirements, background: bool, terminal: bool) -> LaunchNeeds {
    LaunchNeeds {
        network: requirements.datagram || requirements.tcp_connect,
        namespace: requirements.filesystem_read || requirements.filesystem_mutate
            || requirements.volume_control,
        owner: requirements.process_launch || requirements.pipe,
        children: requirements.process_launch,
        pipes: requirements.process_launch || requirements.pipe,
        timer: requirements.timer,
        deferred: requirements.timer || requirements.datagram || requirements.process_launch
            || requirements.pipe || (!background && (requirements.diagnostics || terminal)),
    }
}

/// Decide what a launch needs.
pub fn launch_needs(requirements: &Requirements, background: bool, terminal: bool) -> (wanted:
    LaunchNeeds)
    ensures
        wanted == needs(*requirements, background, terminal),
{
    LaunchNeeds {
        network: requirements.datagram || requirements.tcp_connect,
        namespace: requirements.filesystem_read || requirements.filesystem_mutate
            || requirements.volume_control,
        owner: requirements.process_launch || requirements.pipe,
        children: requirements.process_launch,
        pipes: requirements.process_launch || requirements.pipe,
        timer: requirements.timer,
        deferred: requirements.timer || requirements.datagram || requirements.process_launch
            || requirements.pipe || (!background && (requirements.diagnostics || terminal)),
    }
}

/// The time zone entry that replaces the default in an application's
/// environment: the resolved one, unless it is empty or too long.
pub fn timezone_entry(resolved: Option<Vec<u8>>, limit: usize) -> (entry: Option<Vec<u8>>)
    ensures
        entry == (match resolved {
            Some(e) if 0 < e@.len() <= limit => Some(e),
            _ => None,
        }),
{
    match resolved {
        Some(entry) => if entry.len() > 0 && entry.len() <= limit {
            Some(entry)
        } else {
            None
        },
        None => None,
    }
}

/// What stands behind a service of an application.
#[derive(Clone, Copy, Debug, PartialEq, Eq, Structural)]
pub enum Provider {
    /// The command's words, directory and environment.
    Command,
    /// An input that is always at its end.
    NoInput,
    /// The input of the session.
    SessionInput,
    /// The output of the session.
    SessionOutput,
    /// The errors of the session.
    SessionError,
    /// The log of the job.
    JobLog,
    /// The diagnostics snapshot of the launch.
    Snapshot,
    /// The diagnostics server, for calls that wait.
    DiagnosticsServer,
    /// The service of a capability.
    Service(Capability),
}

/// What stands behind a service: a job in the background reads nothing, writes
/// to its log and sees the snapshot of its launch.
pub open spec fn provider(service: StartupService, background: bool) -> Provider {
    match service {
        StartupService::Invocation => Provider::Command,
        StartupService::StandardInput => if background {
            Provider::NoInput
        } else {
            Provider::SessionInput
        },
        StartupService::StandardOutput => if background {
            Provider::JobLog
        } else {
            Provider::SessionOutput
        },
        StartupService::StandardError => if background {
            Provider::JobLog
        } else {
            Provider::SessionError
        },
        StartupService::Required(Capability::Diagnostics) => if background {
            Provider::Snapshot
        } else {
            Provider::DiagnosticsServer
        },
        StartupService::Required(capability) => Provider::Service(capability),
    }
}

/// Choose what stands behind a service.
pub fn choose_provider(service: StartupService, background: bool) -> (chosen: Provider)
    ensures
        chosen == provider(service, background),
        service == StartupService::Invocation ==> chosen == Provider::Command,
        service == StartupService::StandardInput && !background ==> chosen
            == Provider::SessionInput,
        service == StartupService::StandardOutput && !background ==> chosen
            == Provider::SessionOutput,
        service == StartupService::StandardError && !background ==> chosen
            == Provider::SessionError,
        service == StartupService::StandardInput && background ==> chosen == Provider::NoInput,
        service == StartupService::StandardOutput && background ==> chosen == Provider::JobLog,
        service == StartupService::StandardError && background ==> chosen == Provider::JobLog,
{
    match service {
        StartupService::Invocation => Provider::Command,
        StartupService::StandardInput => if background {
            Provider::NoInput
        } else {
            Provider::SessionInput
        },
        StartupService::StandardOutput => if background {
            Provider::JobLog
        } else {
            Provider::SessionOutput
        },
        StartupService::StandardError => if background {
            Provider::JobLog
        } else {
            Provider::SessionError
        },
        StartupService::Required(Capability::Diagnostics) => if background {
            Provider::Snapshot
        } else {
            Provider::DiagnosticsServer
        },
        StartupService::Required(capability) => Provider::Service(capability),
    }
}

/// What an application may hand on to the children that it launches: all that
/// it has, but not the right to submit scripts.
pub open spec fn grants(requirements: Requirements) -> Requirements {
    Requirements { shell_script: false, ..requirements }
}

/// Decide what an application may hand on to its children.
pub fn child_grants(requirements: &Requirements) -> (granted: Requirements)
    ensures
        granted == grants(*requirements),
{
    Requirements { shell_script: false, ..*requirements }
}

/// Children never get a capability that their parent does not have, and no
/// child submits scripts.
pub proof fn children_get_no_more(requirements: Requirements, capability: Capability)
    ensures
        grants(requirements).has(capability) == (requirements.has(capability) && capability
            != Capability::ShellScript),
{
}

/// The streams that children inherit.
#[derive(Clone, Copy, Debug, PartialEq, Eq, Structural)]
pub struct ChildStreams {
    /// Input.
    pub input: NestedInput,
    /// Output.
    pub output: NestedOutput,
    /// Errors.
    pub error: NestedOutput,
}

/// Decide which streams children inherit: those of the session in the
/// foreground, nothing and the log of the job in the background.
pub fn child_streams(background: bool) -> (streams: ChildStreams)
    ensures
        streams == (if background {
            ChildStreams {
                input: NestedInput::Empty,
                output: NestedOutput::Log,
                error: NestedOutput::Log,
            }
        } else {
            ChildStreams {
                input: NestedInput::Borrowed,
                output: NestedOutput::Borrowed,
                error: NestedOutput::Borrowed,
            }
        }),
{
    if background {
        ChildStreams {
            input: NestedInput::Empty,
            output: NestedOutput::Log,
            error: NestedOutput::Log,
        }
    } else {
        ChildStreams {
            input: NestedInput::Borrowed,
            output: NestedOutput::Borrowed,
            error: NestedOutput::Borrowed,
        }
    }
}

/// What an application gets for calls that may wait, if it needs anything of
/// the kind; `owner` is what its children and pipes belong to.
pub fn waiting_services(
    requirements: &Requirements,
    background: bool,
    terminal: bool,
    owner: u64,
) -> (services: Option<DeferredServices>)
    ensures
        ({
            let n = needs(*requirements, background, terminal);
            match services {
                Some(s) => {
                    &&& n.deferred
                    &&& s.owner == (if n.owner {
                        Some(owner)
                    } else {
                        None
                    })
                    &&& s.children == n.children
                    &&& s.pipes == n.pipes
                    &&& s.terminal == (terminal && !background)
                    &&& s.diagnostics == (requirements.diagnostics && !background)
                    &&& s.datagram == requirements.datagram
                    &&& s.streams@.len() == 0
                },
                None => !n.deferred,
            }
        }),
{
    let n = launch_needs(requirements, background, terminal);
    if !n.deferred {
        return None;
    }
    let streams: Vec<StreamBinding> = Vec::new();
    Some(
        DeferredServices {
            owner: if n.owner {
                Some(owner)
            } else {
                None
            },
            children: n.children,
            pipes: n.pipes,
            terminal: terminal && !background,
            diagnostics: requirements.diagnostics && !background,
            datagram: requirements.datagram,
            streams,
        },
    )
}

/// Whether an application takes the session terminal: its input is a terminal
/// and the session has one to lend.
pub fn takes_terminal(input_is_terminal: bool, session_has_terminal: bool) -> (takes: bool)
    ensures
        takes == (input_is_terminal && session_has_terminal),
{
    input_is_terminal && session_has_terminal
}

/// In the foreground each standard stream of an application is the stream of
/// the same name of the session, so that no two of them are the same. In the
/// background nothing can be read, and whatever is written goes to the log of
/// the job.
pub proof fn streams_keep_their_names()
    ensures
        provider(StartupService::StandardInput, false) == Provider::SessionInput,
        provider(StartupService::StandardOutput, false) == Provider::SessionOutput,
        provider(StartupService::StandardError, false) == Provider::SessionError,
        provider(StartupService::StandardInput, true) == Provider::NoInput,
        provider(StartupService::StandardOutput, true) == Provider::JobLog,
        provider(StartupService::StandardError, true) == Provider::JobLog,
        forall|background: bool|
            #[trigger] provider(StartupService::Invocation, background) == Provider::Command,
{
}

/// A required capability is served by its own service and by no other; only
/// diagnostics come from the snapshot of the launch in the background and from
/// the server in the foreground.
pub proof fn capabilities_are_served_by_their_own(capability: Capability, background: bool)
    ensures
        capability != Capability::Diagnostics ==> provider(
            StartupService::Required(capability),
            background,
        ) == Provider::Service(capability),
        provider(StartupService::Required(Capability::Diagnostics), true) == Provider::Snapshot,
        provider(StartupService::Required(Capability::Diagnostics), false)
            == Provider::DiagnosticsServer,
{
}

/// An application starts with its command and its three streams, in this order,
/// and with as many services more as it requires capabilities.
pub proof fn startup_begins_with_command_and_streams(requirements: Requirements)
    ensures
        startup(requirements).len() >= 4,
        startup(requirements)[0] == StartupService::Invocation,
        startup(requirements)[1] == StartupService::StandardInput,
        startup(requirements)[2] == StartupService::StandardOutput,
        startup(requirements)[3] == StartupService::StandardError,
        forall|i: int|
            4 <= i < startup(requirements).len() ==> (#[trigger] startup(requirements)[i])
                is Required,
{
    lemma_required_members(requirements, CAPABILITY_COUNT as int);
    let rest = required(requirements, CAPABILITY_COUNT as int);
    assert forall|i: int| 4 <= i < startup(requirements).len() implies (
    #[trigger] startup(requirements)[i]) is Required by {
        assert(startup(requirements)[i] == rest[i - 4]);
    }
}

/// A launch needs each thing for the capabilities that use it, and for no other:
/// a network to send datagrams or to connect, the files to read, change or
/// control volumes, an owner and pipes for children and pipes. Calls can wait
/// where one of the required capabilities has such calls, or where a foreground
/// application has diagnostics or the terminal.
pub proof fn launches_need_what_capabilities_use(
    requirements: Requirements,
    background: bool,
    terminal: bool,
)
    ensures
        ({
            let n = needs(requirements, background, terminal);
            let has = |c: Capability| requirements.has(c);
            &&& n.network == (has(Capability::Datagram) || has(Capability::TcpConnect))
            &&& n.namespace == (has(Capability::FilesystemRead) || has(
                Capability::FilesystemMutate,
            ) || has(Capability::VolumeControl))
            &&& n.owner == (has(Capability::ProcessLaunch) || has(Capability::Pipe))
            &&& n.children == has(Capability::ProcessLaunch)
            &&& n.pipes == (has(Capability::ProcessLaunch) || has(Capability::Pipe))
            &&& n.timer == has(Capability::Timer)
            &&& has(Capability::Timer) || has(Capability::Datagram) || has(
                Capability::ProcessLaunch,
            ) || has(Capability::Pipe) ==> n.deferred
            &&& !background && (terminal || has(Capability::Diagnostics)) ==> n.deferred
            &&& n.deferred ==> has(Capability::Timer) || has(Capability::Datagram) || has(
                Capability::ProcessLaunch,
            ) || has(Capability::Pipe) || (!background && (terminal || has(
                Capability::Diagnostics,
            )))
        }),
{
}

} // verus!
