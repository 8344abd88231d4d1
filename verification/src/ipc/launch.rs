//! Launching the two sides of a message probe.

use crate::bytes::{append_le, le_bytes, le_bytes_round_trip, le_value, lemma_pow256_values};
use crate::memory::isolated::Architecture;
use crate::ipc::failures::Complaint;
use vstd::prelude::*;

verus! {

/// Milliseconds after which a probe client gives up.
pub const CLIENT_DEADLINE_MILLISECONDS: u64 = 4000;

/// The image of a side.
pub fn artifact(architecture: Architecture, server: bool) -> (name: &'static str)
    ensures
        name == (match architecture {
            Architecture::X86_64 => if server {
                "x86_64/ipc-echo-server.kex"
            } else {
                "x86_64/ipc-client.kex"
            },
            Architecture::Aarch64 => if server {
                "aarch64/ipc-echo-server.kex"
            } else {
                "aarch64/ipc-client.kex"
            },
        }),
{
    match architecture {
        Architecture::X86_64 => if server {
            "x86_64/ipc-echo-server.kex"
        } else {
            "x86_64/ipc-client.kex"
        },
        Architecture::Aarch64 => if server {
            "aarch64/ipc-echo-server.kex"
        } else {
            "aarch64/ipc-client.kex"
        },
    }
}

/// A required interface with its version.
#[derive(Clone, Copy, Debug, PartialEq, Eq, Structural)]
pub struct Requirement {
    /// Interface.
    pub interface: u32,
    /// Major version.
    pub major: u16,
    /// Minor version.
    pub minor: u16,
}

/// The interfaces that a side must require, in order.
pub open spec fn expected(server: bool) -> Seq<Requirement> {
    if server {
        seq![
            Requirement { interface: 15, major: 2, minor: 0 },
            Requirement { interface: 24, major: 1, minor: 0 },
        ]
    } else {
        seq![Requirement { interface: 9, major: 1, minor: 0 }]
    }
}

/// Whether a side requires exactly the expected interfaces.
pub fn requirements_match(requirements: &Vec<Requirement>, server: bool) -> (matched: bool)
    ensures
        matched == (requirements@ == expected(server)),
{
    if server {
        let matched = requirements.len() == 2 && requirements[0] == (Requirement {
            interface: 15,
            major: 2,
            minor: 0,
        }) && requirements[1] == (Requirement { interface: 24, major: 1, minor: 0 });
        proof {
            if matched {
                assert(requirements@ =~= expected(server));
            } else if requirements@ == expected(server) {
                assert(requirements@[0] == expected(server)[0]);
                assert(requirements@[1] == expected(server)[1]);
            }
        }
        matched
    } else {
        let matched = requirements.len() == 1 && requirements[0] == (Requirement {
            interface: 9,
            major: 1,
            minor: 0,
        });
        proof {
            if matched {
                assert(requirements@ =~= expected(server));
            } else if requirements@ == expected(server) {
                assert(requirements@[0] == expected(server)[0]);
            }
        }
        matched
    }
}

/// An interface that a side starts with.
#[derive(Clone, Copy, Debug, PartialEq, Eq, Structural)]
pub enum InitialInterface {
    /// The server's endpoint.
    ServerEndpoint,
    /// The server's wait set.
    WaitSet,
    /// The command.
    Invocation,
    /// Standard input.
    StandardInput,
    /// Standard output.
    StandardOutput,
    /// Standard error.
    StandardError,
    /// Diagnostics.
    Diagnostics,
}

/// What the holder of a handle may do with it.
#[derive(Clone, Copy, Debug, PartialEq, Eq, Structural)]
pub struct HandleRights {
    /// Call.
    pub call: bool,
    /// Receive calls.
    pub receive: bool,
    /// Reply to them.
    pub reply: bool,
    /// Wait.
    pub wait: bool,
}

/// The version of an interface.
#[derive(Clone, Copy, Debug, PartialEq, Eq, Structural)]
pub struct Version {
    /// Major number.
    pub major: u16,
    /// Minor number.
    pub minor: u16,
}

/// The versions that the system speaks of the interfaces that every command
/// has.
#[derive(Clone, Copy, Debug, PartialEq, Eq, Structural)]
pub struct CommonVersions {
    /// Of the command itself.
    pub command: Version,
    /// Of its streams.
    pub stream: Version,
}

/// The handle that stands for an interface in the beginning.
#[derive(Clone, Copy, Debug, PartialEq, Eq, Structural)]
pub struct InitialGrant {
    /// Rights.
    pub rights: HandleRights,
    /// Version.
    pub version: Version,
}

/// The rights of the first handle to an interface: a server receives and
/// replies at its endpoint and waits at its wait set, and every other interface
/// is called.
pub open spec fn first_rights(interface: InitialInterface) -> HandleRights {
    HandleRights {
        call: !(interface is ServerEndpoint) && !(interface is WaitSet),
        receive: interface is ServerEndpoint,
        reply: interface is ServerEndpoint,
        wait: interface is WaitSet,
    }
}

/// The version of an interface that a side starts with.
pub open spec fn first_version(interface: InitialInterface, common: CommonVersions) -> Version {
    match interface {
        InitialInterface::ServerEndpoint => Version { major: 2, minor: 0 },
        InitialInterface::WaitSet | InitialInterface::Diagnostics => Version { major: 1, minor: 0 },
        InitialInterface::Invocation => common.command,
        InitialInterface::StandardInput
        | InitialInterface::StandardOutput
        | InitialInterface::StandardError => common.stream,
    }
}

/// The handle with which a side starts for an interface.
pub fn initial_grant(interface: InitialInterface, common: CommonVersions) -> (grant: InitialGrant)
    ensures
        grant == (InitialGrant {
            rights: first_rights(interface),
            version: first_version(interface, common),
        }),
{
    let call = HandleRights { call: true, receive: false, reply: false, wait: false };
    match interface {
        InitialInterface::ServerEndpoint => InitialGrant {
            rights: HandleRights { call: false, receive: true, reply: true, wait: false },
            version: Version { major: 2, minor: 0 },
        },
        InitialInterface::WaitSet => InitialGrant {
            rights: HandleRights { call: false, receive: false, reply: false, wait: true },
            version: Version { major: 1, minor: 0 },
        },
        InitialInterface::Diagnostics => InitialGrant {
            rights: call,
            version: Version { major: 1, minor: 0 },
        },
        InitialInterface::Invocation => InitialGrant { rights: call, version: common.command },
        InitialInterface::StandardInput
        | InitialInterface::StandardOutput
        | InitialInterface::StandardError => InitialGrant { rights: call, version: common.stream },
    }
}

/// The interfaces that a side starts with, in order.
pub open spec fn initial(server: bool) -> Seq<InitialInterface> {
    if server {
        seq![InitialInterface::ServerEndpoint, InitialInterface::WaitSet]
    } else {
        seq![
            InitialInterface::Invocation,
            InitialInterface::StandardInput,
            InitialInterface::StandardOutput,
            InitialInterface::StandardError,
            InitialInterface::Diagnostics,
        ]
    }
}

/// List the interfaces that a side starts with.
pub fn initial_interfaces(server: bool) -> (interfaces: Vec<InitialInterface>)
    ensures
        interfaces@ == initial(server),
{
    if server {
        vec![InitialInterface::ServerEndpoint, InitialInterface::WaitSet]
    } else {
        vec![
            InitialInterface::Invocation,
            InitialInterface::StandardInput,
            InitialInterface::StandardOutput,
            InitialInterface::StandardError,
            InitialInterface::Diagnostics,
        ]
    }
}

/// What the client is asked to do.
#[derive(Clone, Copy, Debug, PartialEq, Eq, Structural)]
pub struct ProbeRequest {
    /// Bytes of each message.
    pub bytes: u64,
    /// Behaviour.
    pub opcode: u16,
    /// Argument.
    pub argument: u64,
}

/// The client's configuration: four little-endian words.
pub open spec fn client_words(request: ProbeRequest, deadline: u64) -> Seq<u8> {
    le_bytes(request.bytes as nat, 8) + le_bytes(request.opcode as nat, 8) + le_bytes(
        deadline as nat,
        8,
    ) + le_bytes(request.argument as nat, 8)
}

/// Encode the client's configuration.
pub fn client_configuration(request: ProbeRequest, deadline: u64) -> (words: Vec<u8>)
    ensures
        words@ == client_words(request, deadline),
{
    proof {
        lemma_pow256_values();
    }
    let mut words: Vec<u8> = Vec::new();
    append_le(&mut words, request.bytes, 8);
    append_le(&mut words, request.opcode as u64, 8);
    append_le(&mut words, deadline, 8);
    append_le(&mut words, request.argument, 8);
    assert(words@ =~= client_words(request, deadline));
    words
}

/// How far a launch has come.
#[derive(Clone, Copy, Debug, PartialEq, Eq, Structural)]
pub enum LaunchReached {
    /// Nothing is held.
    Nothing,
    /// Only memory is held.
    Allocated,
    /// A task was spawned.
    Spawned,
    /// A task that may have handles was spawned.
    Owned,
}

/// What a launch does next.
#[derive(Clone, Copy, Debug, PartialEq, Eq, Structural)]
pub enum LaunchAction {
    /// Take the package apart and compare what it requires.
    ParsePackage,
    /// Plan the image.
    ParseImage,
    /// Allocate memory.
    Allocate,
    /// Fill the memory.
    PrepareMemory,
    /// Build an address space.
    BuildSpace,
    /// Bind the message channel to it.
    BindChannel,
    /// Describe the task's stack and pages.
    DescribeTask,
    /// Spawn the task.
    Spawn,
    /// Make the task an owner of handles.
    MakeOwner,
    /// Open a handle.
    Open(InitialInterface),
    /// Encode the startup page.
    EncodeStartup,
    /// Copy the startup page.
    CopyStartup,
    /// Let the server keep its channel.
    Authorize,
    /// Read the clock.
    ReadClock,
    /// Write the client's configuration, with this deadline, at this byte
    /// offset.
    Configure {
        /// Deadline.
        deadline: u64,
        /// Offset.
        offset: u64,
    },
    /// Let the task run next.
    Dispatch,
    /// Run it.
    Run,
    /// Let it yield.
    Yield,
    /// It is ready.
    Ready,
    /// End the task and collect it.
    EndTask {
        /// Whether its handles are revoked too.
        handles: bool,
    },
    /// Take the memory back.
    Reclaim,
    /// The launch failed.
    Failed,
}

/// What happened.
#[derive(Clone, Copy, Debug, PartialEq, Eq, Structural)]
pub enum LaunchEvent {
    /// It was done.
    Done,
    /// It failed.
    Failed,
    /// The package was taken apart.
    Parsed {
        /// Whether it requires what is expected.
        as_expected: bool,
    },
    /// The image was planned.
    Planned {
        /// Pages of the image.
        image_pages: u64,
    },
    /// The clock was read.
    Now(u64),
    /// The task ran.
    Ran {
        /// Whether it stopped by yielding.
        yielded: bool,
    },
}

/// A launch of one side.
#[derive(Clone, Copy, Debug, PartialEq, Eq, Structural)]
pub struct LaunchRun {
    /// Whether the server is launched.
    pub server: bool,
    /// Byte offset of the client's configuration.
    pub offset: u64,
    /// Handles opened so far.
    pub opened: usize,
    /// Whether the task stopped by yielding.
    pub yielded: bool,
    /// How far it has come.
    pub reached: LaunchReached,
    /// What is being done.
    pub doing: LaunchAction,
}

/// The `i`th interface that a side starts with.
pub open spec fn interface_at(server: bool, i: int) -> Option<InitialInterface> {
    if 0 <= i < initial(server).len() {
        Some(initial(server)[i])
    } else {
        None
    }
}

fn nth_interface(server: bool, i: usize) -> (interface: Option<InitialInterface>)
    ensures
        interface == interface_at(server, i as int),
{
    let interfaces = initial_interfaces(server);
    if i < interfaces.len() {
        Some(interfaces[i])
    } else {
        None
    }
}

impl LaunchRun {
    /// Start a launch.
    pub fn start(server: bool) -> (run: Self)
        ensures
            run == (LaunchRun {
                server,
                offset: 0,
                opened: 0,
                yielded: false,
                reached: LaunchReached::Nothing,
                doing: LaunchAction::ParsePackage,
            }),
    {
        LaunchRun {
            server,
            offset: 0,
            opened: 0,
            yielded: false,
            reached: LaunchReached::Nothing,
            doing: LaunchAction::ParsePackage,
        }
    }

    /// Whether an event answers what is being done. The page after the image
    /// and the startup page has to have an offset.
    pub open spec fn expects(self, event: LaunchEvent) -> bool {
        match self.doing {
            LaunchAction::Ready | LaunchAction::Failed => false,
            LaunchAction::ParsePackage => event is Parsed || event is Failed,
            LaunchAction::ParseImage => event is Failed || (event matches LaunchEvent::Planned {
                image_pages,
            } && (image_pages + 1) * 4096 <= u64::MAX),
            LaunchAction::ReadClock => event is Now || event is Failed,
            LaunchAction::Run => event is Ran || event is Failed,
            _ => event is Done || event is Failed,
        }
    }

    /// What is taken back first when a launch fails: the task and its handles
    /// as far as they came to be, and the memory.
    pub open spec fn undo(self) -> LaunchAction {
        match self.reached {
            LaunchReached::Nothing => LaunchAction::Failed,
            LaunchReached::Allocated => LaunchAction::Reclaim,
            LaunchReached::Spawned => LaunchAction::EndTask { handles: false },
            LaunchReached::Owned => LaunchAction::EndTask { handles: true },
        }
    }

    /// What follows a failure.
    pub open spec fn after_failure(self) -> LaunchAction {
        match self.doing {
            LaunchAction::EndTask { .. } | LaunchAction::Reclaim => LaunchAction::Failed,
            _ => self.undo(),
        }
    }

    /// The next handle, or what follows the last.
    pub open spec fn next_handle(self, opened: int) -> LaunchAction {
        match interface_at(self.server, opened) {
            Some(interface) => LaunchAction::Open(interface),
            None => LaunchAction::EncodeStartup,
        }
    }

    /// The run after a step was done.
    pub open spec fn after_step(self) -> LaunchRun {
        let doing = |action: LaunchAction| LaunchRun { doing: action, ..self };
        match self.doing {
            LaunchAction::Allocate => LaunchRun {
                reached: LaunchReached::Allocated,
                doing: LaunchAction::PrepareMemory,
                ..self
            },
            LaunchAction::PrepareMemory => doing(LaunchAction::BuildSpace),
            LaunchAction::BuildSpace => doing(LaunchAction::BindChannel),
            LaunchAction::BindChannel => doing(LaunchAction::DescribeTask),
            LaunchAction::DescribeTask => doing(LaunchAction::Spawn),
            LaunchAction::Spawn => LaunchRun {
                reached: LaunchReached::Spawned,
                doing: LaunchAction::MakeOwner,
                ..self
            },
            LaunchAction::MakeOwner => LaunchRun {
                reached: LaunchReached::Owned,
                doing: self.next_handle(0),
                ..self
            },
            LaunchAction::Open(_) => LaunchRun {
                opened: (self.opened + 1) as usize,
                doing: self.next_handle(self.opened + 1),
                ..self
            },
            LaunchAction::EncodeStartup => doing(LaunchAction::CopyStartup),
            LaunchAction::CopyStartup => doing(
                if self.server {
                    LaunchAction::Authorize
                } else {
                    LaunchAction::ReadClock
                },
            ),
            LaunchAction::Authorize => doing(LaunchAction::Dispatch),
            LaunchAction::Configure { .. } => doing(LaunchAction::Dispatch),
            LaunchAction::Dispatch => doing(LaunchAction::Run),
            LaunchAction::Yield => doing(
                if self.yielded {
                    LaunchAction::Ready
                } else {
                    self.undo()
                },
            ),
            LaunchAction::EndTask { .. } => doing(LaunchAction::Reclaim),
            _ => doing(LaunchAction::Failed),
        }
    }

    /// The run after an event.
    pub open spec fn after(self, event: LaunchEvent) -> LaunchRun {
        match event {
            LaunchEvent::Failed => LaunchRun { doing: self.after_failure(), ..self },
            LaunchEvent::Parsed { as_expected } => LaunchRun {
                doing: if as_expected {
                    LaunchAction::ParseImage
                } else {
                    self.undo()
                },
                ..self
            },
            LaunchEvent::Planned { image_pages } => LaunchRun {
                offset: ((image_pages + 1) * 4096) as u64,
                doing: LaunchAction::Allocate,
                ..self
            },
            LaunchEvent::Now(now) => LaunchRun {
                doing: if now + CLIENT_DEADLINE_MILLISECONDS <= u64::MAX {
                    LaunchAction::Configure {
                        deadline: (now + CLIENT_DEADLINE_MILLISECONDS) as u64,
                        offset: self.offset,
                    }
                } else {
                    self.undo()
                },
                ..self
            },
            LaunchEvent::Ran { yielded } => LaunchRun {
                yielded,
                doing: LaunchAction::Yield,
                ..self
            },
            LaunchEvent::Done => self.after_step(),
        }
    }

    /// Whether the handles opened so far fit what is being done.
    pub open spec fn well_formed(self) -> bool {
        &&& self.opened <= initial(self.server).len()
        &&& self.doing matches LaunchAction::Open(interface) ==> interface_at(
            self.server,
            self.opened as int,
        ) == Some(interface)
        &&& match self.doing {
            LaunchAction::ParsePackage
            | LaunchAction::ParseImage
            | LaunchAction::Allocate => self.reached == LaunchReached::Nothing && self.opened == 0,
            LaunchAction::PrepareMemory
            | LaunchAction::BuildSpace
            | LaunchAction::BindChannel
            | LaunchAction::DescribeTask
            | LaunchAction::Spawn => self.reached == LaunchReached::Allocated && self.opened == 0,
            LaunchAction::MakeOwner => self.reached == LaunchReached::Spawned && self.opened == 0,
            LaunchAction::EndTask { handles } => self.reached == if handles {
                LaunchReached::Owned
            } else {
                LaunchReached::Spawned
            },
            LaunchAction::Reclaim => self.reached != LaunchReached::Nothing,
            LaunchAction::Ready => self.reached == LaunchReached::Owned && self.opened == initial(
                self.server,
            ).len() && self.yielded,
            LaunchAction::Failed => true,
            LaunchAction::Open(_) => self.reached == LaunchReached::Owned,
            _ => self.reached == LaunchReached::Owned && self.opened == initial(self.server).len(),
        }
    }

    fn begin_undo(&self) -> (action: LaunchAction)
        ensures
            action == self.undo(),
    {
        match self.reached {
            LaunchReached::Nothing => LaunchAction::Failed,
            LaunchReached::Allocated => LaunchAction::Reclaim,
            LaunchReached::Spawned => LaunchAction::EndTask { handles: false },
            LaunchReached::Owned => LaunchAction::EndTask { handles: true },
        }
    }

    fn handle_action(&self, opened: usize) -> (action: LaunchAction)
        ensures
            action == self.next_handle(opened as int),
    {
        match nth_interface(self.server, opened) {
            Some(interface) => LaunchAction::Open(interface),
            None => LaunchAction::EncodeStartup,
        }
    }

    fn step_done(&mut self)
        requires
            old(self).well_formed(),
        ensures
            *final(self) == old(self).after_step(),
    {
        self.doing = match self.doing {
            LaunchAction::Allocate => {
                self.reached = LaunchReached::Allocated;
                LaunchAction::PrepareMemory
            },
            LaunchAction::PrepareMemory => LaunchAction::BuildSpace,
            LaunchAction::BuildSpace => LaunchAction::BindChannel,
            LaunchAction::BindChannel => LaunchAction::DescribeTask,
            LaunchAction::DescribeTask => LaunchAction::Spawn,
            LaunchAction::Spawn => {
                self.reached = LaunchReached::Spawned;
                LaunchAction::MakeOwner
            },
            LaunchAction::MakeOwner => {
                self.reached = LaunchReached::Owned;
                self.handle_action(0)
            },
            LaunchAction::Open(_) => {
                self.opened = self.opened + 1;
                self.handle_action(self.opened)
            },
            LaunchAction::EncodeStartup => LaunchAction::CopyStartup,
            LaunchAction::CopyStartup => if self.server {
                LaunchAction::Authorize
            } else {
                LaunchAction::ReadClock
            },
            LaunchAction::Authorize => LaunchAction::Dispatch,
            LaunchAction::Configure { .. } => LaunchAction::Dispatch,
            LaunchAction::Dispatch => LaunchAction::Run,
            LaunchAction::Yield => if self.yielded {
                LaunchAction::Ready
            } else {
                self.begin_undo()
            },
            LaunchAction::EndTask { .. } => LaunchAction::Reclaim,
            _ => LaunchAction::Failed,
        };
    }

    /// What is printed of an event.
    pub open spec fn complains(self, event: LaunchEvent) -> Option<Complaint> {
        match (self.doing, event) {
            (LaunchAction::Allocate, LaunchEvent::Failed) => Some(Complaint::Allocation),
            (LaunchAction::BindChannel, LaunchEvent::Failed) => Some(Complaint::Bind),
            (LaunchAction::Yield, LaunchEvent::Done) if !self.yielded => Some(
                Complaint::Launch { server: self.server },
            ),
            _ => None,
        }
    }

    /// Say what is printed of an event.
    pub fn complaint(&self, event: LaunchEvent) -> (complaint: Option<Complaint>)
        ensures
            complaint == self.complains(event),
    {
        match (self.doing, event) {
            (LaunchAction::Allocate, LaunchEvent::Failed) => Some(Complaint::Allocation),
            (LaunchAction::BindChannel, LaunchEvent::Failed) => Some(Complaint::Bind),
            (LaunchAction::Yield, LaunchEvent::Done) => if self.yielded {
                None
            } else {
                Some(Complaint::Launch { server: self.server })
            },
            _ => None,
        }
    }

    /// Take an event and go on.
    pub fn observe(&mut self, event: LaunchEvent) -> (action: LaunchAction)
        requires
            old(self).well_formed(),
            old(self).expects(event),
        ensures
            final(self).well_formed(),
            *final(self) == old(self).after(event),
            action == final(self).doing,
    {
        match event {
            LaunchEvent::Failed => {
                self.doing = match self.doing {
                    LaunchAction::EndTask { .. } | LaunchAction::Reclaim => LaunchAction::Failed,
                    _ => self.begin_undo(),
                };
            },
            LaunchEvent::Parsed { as_expected } => {
                self.doing = if as_expected {
                    LaunchAction::ParseImage
                } else {
                    self.begin_undo()
                };
            },
            LaunchEvent::Planned { image_pages } => {
                self.offset = (image_pages + 1) * 4096;
                self.doing = LaunchAction::Allocate;
            },
            LaunchEvent::Now(now) => {
                self.doing = match now.checked_add(CLIENT_DEADLINE_MILLISECONDS) {
                    Some(deadline) => LaunchAction::Configure { deadline, offset: self.offset },
                    None => self.begin_undo(),
                };
            },
            LaunchEvent::Ran { yielded } => {
                self.yielded = yielded;
                self.doing = LaunchAction::Yield;
            },
            LaunchEvent::Done => self.step_done(),
        }
        self.doing
    }

    /// How many steps may still follow.
    pub open spec fn steps_left(self) -> int {
        match self.doing {
            LaunchAction::ParsePackage => 26,
            LaunchAction::ParseImage => 25,
            LaunchAction::Allocate => 24,
            LaunchAction::PrepareMemory => 23,
            LaunchAction::BuildSpace => 22,
            LaunchAction::BindChannel => 21,
            LaunchAction::DescribeTask => 20,
            LaunchAction::Spawn => 19,
            LaunchAction::MakeOwner => 18,
            LaunchAction::Open(_) => 17 - self.opened,
            LaunchAction::EncodeStartup => 11,
            LaunchAction::CopyStartup => 10,
            LaunchAction::ReadClock => 9,
            LaunchAction::Authorize | LaunchAction::Configure { .. } => 8,
            LaunchAction::Dispatch => 7,
            LaunchAction::Run => 6,
            LaunchAction::Yield => 5,
            LaunchAction::EndTask { .. } => 2,
            LaunchAction::Reclaim => 1,
            LaunchAction::Ready | LaunchAction::Failed => 0,
        }
    }
}

/// A launch comes to an end: each event leaves fewer steps.
pub proof fn launches_come_to_an_end(run: LaunchRun, event: LaunchEvent)
    requires
        run.well_formed(),
        run.expects(event),
    ensures
        0 <= run.after(event).steps_left() < run.steps_left(),
{
}

/// A failed launch takes everything back: with memory in hand it fails only
/// from taking it back, or where the task could not be ended; and a task is
/// ended before its memory goes.
pub proof fn failed_launches_are_undone(run: LaunchRun, event: LaunchEvent)
    requires
        run.well_formed(),
        run.expects(event),
    ensures
        run.after(event).doing is Failed && run.reached != LaunchReached::Nothing ==> run.doing
            is Reclaim || (run.doing is EndTask && event is Failed),
        run.after(event).doing is Reclaim && run.reached != LaunchReached::Allocated ==> run.doing
            is EndTask,
{
}

/// A server needs its endpoint and a set to wait on, a client the diagnostics
/// service; each is given just what it needs, and a client the streams besides.
pub proof fn tasks_are_given_what_they_need(common: CommonVersions)
    ensures
        expected(true) == seq![
            Requirement { interface: 15, major: 2, minor: 0 },
            Requirement { interface: 24, major: 1, minor: 0 },
        ],
        expected(false) == seq![Requirement { interface: 9, major: 1, minor: 0 }],
        initial(true) == seq![InitialInterface::ServerEndpoint, InitialInterface::WaitSet],
        initial(false) == seq![
            InitialInterface::Invocation,
            InitialInterface::StandardInput,
            InitialInterface::StandardOutput,
            InitialInterface::StandardError,
            InitialInterface::Diagnostics,
        ],
        first_version(InitialInterface::ServerEndpoint, common) == (Version { major: 2, minor: 0 }),
        first_version(InitialInterface::WaitSet, common) == (Version { major: 1, minor: 0 }),
        first_version(InitialInterface::Diagnostics, common) == (Version { major: 1, minor: 0 }),
        first_version(InitialInterface::Invocation, common) == common.command,
        first_version(InitialInterface::StandardInput, common) == common.stream,
        first_version(InitialInterface::StandardOutput, common) == common.stream,
        first_version(InitialInterface::StandardError, common) == common.stream,
{
}

/// An endpoint may receive and reply, a set may be waited on, and everything else
/// may be called, and nothing more.
pub proof fn handles_have_the_rights_of_their_kind(interface: InitialInterface)
    ensures
        ({
            let rights = first_rights(interface);
            &&& rights.call <==> interface != InitialInterface::ServerEndpoint && interface
                != InitialInterface::WaitSet
            &&& rights.receive <==> interface == InitialInterface::ServerEndpoint
            &&& rights.reply <==> interface == InitialInterface::ServerEndpoint
            &&& rights.wait <==> interface == InitialInterface::WaitSet
        }),
{
}

/// A client reads its payload, opcode, deadline and argument as four words.
pub proof fn clients_read_four_words(request: ProbeRequest, deadline: u64)
    ensures
        ({
            let words = client_words(request, deadline);
            &&& words.len() == 32
            &&& le_value(words.subrange(0, 8)) == request.bytes
            &&& le_value(words.subrange(8, 16)) == request.opcode
            &&& le_value(words.subrange(16, 24)) == deadline
            &&& le_value(words.subrange(24, 32)) == request.argument
        }),
{
    let words = client_words(request, deadline);
    lemma_pow256_values();
    le_bytes_round_trip(request.bytes as nat, 8);
    le_bytes_round_trip(request.opcode as nat, 8);
    le_bytes_round_trip(deadline as nat, 8);
    le_bytes_round_trip(request.argument as nat, 8);
    assert(words.subrange(0, 8) =~= le_bytes(request.bytes as nat, 8));
    assert(words.subrange(8, 16) =~= le_bytes(request.opcode as nat, 8));
    assert(words.subrange(16, 24) =~= le_bytes(deadline as nat, 8));
    assert(words.subrange(24, 32) =~= le_bytes(request.argument as nat, 8));
}

/// A task is launched in this order. Only a server is authorised, and only a
/// client is told a deadline, four seconds from now; the words for it are written
/// behind its image and startup page.
pub proof fn tasks_are_launched_in_order(run: LaunchRun, now: u64, image_pages: u64)
    requires
        run.well_formed(),
    ensures
        run.after(LaunchEvent::Parsed { as_expected: true }).doing == LaunchAction::ParseImage,
        (image_pages + 1) * 4096 <= u64::MAX ==> ({
            let next = run.after(LaunchEvent::Planned { image_pages });
            next.doing == LaunchAction::Allocate && next.offset == 4096 * image_pages + 4096
        }),
        run.doing == LaunchAction::Allocate ==> run.after(LaunchEvent::Done).doing
            == LaunchAction::PrepareMemory,
        run.doing == LaunchAction::PrepareMemory ==> run.after(LaunchEvent::Done).doing
            == LaunchAction::BuildSpace,
        run.doing == LaunchAction::BuildSpace ==> run.after(LaunchEvent::Done).doing
            == LaunchAction::BindChannel,
        run.doing == LaunchAction::BindChannel ==> run.after(LaunchEvent::Done).doing
            == LaunchAction::DescribeTask,
        run.doing == LaunchAction::DescribeTask ==> run.after(LaunchEvent::Done).doing
            == LaunchAction::Spawn,
        run.doing == LaunchAction::Spawn ==> run.after(LaunchEvent::Done).doing
            == LaunchAction::MakeOwner,
        run.doing == LaunchAction::MakeOwner ==> run.after(LaunchEvent::Done).doing
            == LaunchAction::Open(initial(run.server)[0]),
        run.doing is Open && run.opened + 1 < initial(run.server).len() ==> run.after(
            LaunchEvent::Done,
        ).doing == LaunchAction::Open(initial(run.server)[run.opened + 1]),
        run.doing is Open && run.opened + 1 == initial(run.server).len() ==> run.after(
            LaunchEvent::Done,
        ).doing == LaunchAction::EncodeStartup,
        run.doing == LaunchAction::EncodeStartup ==> run.after(LaunchEvent::Done).doing
            == LaunchAction::CopyStartup,
        run.doing == LaunchAction::CopyStartup && run.server ==> run.after(LaunchEvent::Done).doing
            == LaunchAction::Authorize,
        run.doing == LaunchAction::CopyStartup && !run.server ==> run.after(LaunchEvent::Done).doing
            == LaunchAction::ReadClock,
        now + 4000 <= u64::MAX ==> (run.after(LaunchEvent::Now(now)).doing matches
            LaunchAction::Configure { deadline, offset } && deadline == now + 4000 && offset
            == run.offset),
        run.doing == LaunchAction::Authorize || run.doing is Configure ==> run.after(
            LaunchEvent::Done,
        ).doing == LaunchAction::Dispatch,
        run.doing == LaunchAction::Dispatch ==> run.after(LaunchEvent::Done).doing
            == LaunchAction::Run,
        run.after(LaunchEvent::Ran { yielded: true }).doing == LaunchAction::Yield && run.after(
            LaunchEvent::Ran { yielded: true },
        ).yielded,
        !run.after(LaunchEvent::Ran { yielded: false }).yielded,
        run.doing == LaunchAction::Yield && run.yielded ==> run.after(LaunchEvent::Done).doing
            == LaunchAction::Ready,
        run.doing == LaunchAction::Yield && !run.yielded ==> run.after(LaunchEvent::Done).doing
            == (LaunchAction::EndTask { handles: true }),
{
}

/// What a launch has reached is undone: a task is ended, with its handles where
/// it has an owner, and memory is reclaimed behind it.
pub proof fn launches_undo_what_they_reached(run: LaunchRun)
    requires
        run.well_formed(),
        !(run.doing is EndTask),
        !(run.doing is Reclaim),
    ensures
        run.reached == LaunchReached::Nothing ==> run.after(LaunchEvent::Failed).doing
            == LaunchAction::Failed,
        run.reached == LaunchReached::Allocated ==> run.after(LaunchEvent::Failed).doing
            == LaunchAction::Reclaim,
        run.reached == LaunchReached::Spawned ==> run.after(LaunchEvent::Failed).doing
            == (LaunchAction::EndTask { handles: false }),
        run.reached == LaunchReached::Owned ==> run.after(LaunchEvent::Failed).doing
            == (LaunchAction::EndTask { handles: true }),
        run.doing == LaunchAction::Allocate ==> run.after(LaunchEvent::Done).reached
            == LaunchReached::Allocated,
        run.doing == LaunchAction::Spawn ==> run.after(LaunchEvent::Done).reached
            == LaunchReached::Spawned,
        run.doing == LaunchAction::MakeOwner ==> run.after(LaunchEvent::Done).reached
            == LaunchReached::Owned,
        run.complains(LaunchEvent::Failed) == Some(Complaint::Allocation) <==> run.doing
            == LaunchAction::Allocate,
        run.complains(LaunchEvent::Failed) == Some(Complaint::Bind) <==> run.doing
            == LaunchAction::BindChannel,
        run.complains(LaunchEvent::Done) is Some <==> run.doing == LaunchAction::Yield
            && !run.yielded,
{
}

} // verus!
