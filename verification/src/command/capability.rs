//! The capabilities that an application can require.

use vstd::prelude::*;

verus! {

/// A capability beyond the standard streams.
#[derive(Clone, Copy, Debug, PartialEq, Eq, Structural)]
pub enum Capability {
    /// Datagram sockets.
    Datagram,
    /// Reading files.
    FilesystemRead,
    /// Changing files.
    FilesystemMutate,
    /// Timers.
    Timer,
    /// Diagnostics snapshots.
    Diagnostics,
    /// Observing processes.
    ProcessObserve,
    /// Launching processes.
    ProcessLaunch,
    /// Pipes.
    Pipe,
    /// Observing the network.
    NetworkObserve,
    /// Configuring the network.
    NetworkConfigure,
    /// Echo requests.
    Echo,
    /// Connections.
    TcpConnect,
    /// Mounting volumes.
    VolumeControl,
    /// Submitting a script to the session.
    ShellScript,
    /// Reading the wall clock.
    WallClock,
    /// Setting the wall clock.
    ClockControl,
    /// Private memory.
    PrivateMemory,
    /// Random numbers.
    Random,
}

/// Number of capabilities.
pub const CAPABILITY_COUNT: usize = 18;

/// Every capability, in the order in which their services start.
pub open spec fn all_capabilities() -> Seq<Capability> {
    seq![
        Capability::Datagram,
        Capability::FilesystemRead,
        Capability::FilesystemMutate,
        Capability::Timer,
        Capability::Diagnostics,
        Capability::ProcessObserve,
        Capability::ProcessLaunch,
        Capability::Pipe,
        Capability::NetworkObserve,
        Capability::NetworkConfigure,
        Capability::Echo,
        Capability::TcpConnect,
        Capability::VolumeControl,
        Capability::ShellScript,
        Capability::WallClock,
        Capability::ClockControl,
        Capability::PrivateMemory,
        Capability::Random,
    ]
}

/// The position of a capability in [`all_capabilities`].
pub open spec fn position(capability: Capability) -> int {
    match capability {
        Capability::Datagram => 0,
        Capability::FilesystemRead => 1,
        Capability::FilesystemMutate => 2,
        Capability::Timer => 3,
        Capability::Diagnostics => 4,
        Capability::ProcessObserve => 5,
        Capability::ProcessLaunch => 6,
        Capability::Pipe => 7,
        Capability::NetworkObserve => 8,
        Capability::NetworkConfigure => 9,
        Capability::Echo => 10,
        Capability::TcpConnect => 11,
        Capability::VolumeControl => 12,
        Capability::ShellScript => 13,
        Capability::WallClock => 14,
        Capability::ClockControl => 15,
        Capability::PrivateMemory => 16,
        Capability::Random => 17,
    }
}

/// Every capability stands exactly once in the list.
pub proof fn every_capability_is_listed_once(capability: Capability)
    ensures
        0 <= position(capability) < all_capabilities().len() == CAPABILITY_COUNT,
        all_capabilities()[position(capability)] == capability,
        forall|i: int|
            0 <= i < CAPABILITY_COUNT && i != position(capability)
                ==> #[trigger] all_capabilities()[i] != capability,
{
    assert forall|i: int| 0 <= i < CAPABILITY_COUNT && i != position(capability) implies
        #[trigger] all_capabilities()[i] != capability by {
        lemma_listed(i);
    }
}

pub(crate) proof fn lemma_listed(i: int)
    requires
        0 <= i < CAPABILITY_COUNT,
    ensures
        position(all_capabilities()[i]) == i,
{
    if i < 9 {
        if i == 0 || i == 1 || i == 2 || i == 3 || i == 4 || i == 5 || i == 6 || i == 7 || i == 8 {
        }
    } else {
        if i == 9 || i == 10 || i == 11 || i == 12 || i == 13 || i == 14 || i == 15 || i == 16 {
        }
    }
}

/// Every capability, in the order in which their services start.
pub fn capabilities() -> (list: Vec<Capability>)
    ensures
        list@ == all_capabilities(),
{
    vec![
        Capability::Datagram,
        Capability::FilesystemRead,
        Capability::FilesystemMutate,
        Capability::Timer,
        Capability::Diagnostics,
        Capability::ProcessObserve,
        Capability::ProcessLaunch,
        Capability::Pipe,
        Capability::NetworkObserve,
        Capability::NetworkConfigure,
        Capability::Echo,
        Capability::TcpConnect,
        Capability::VolumeControl,
        Capability::ShellScript,
        Capability::WallClock,
        Capability::ClockControl,
        Capability::PrivateMemory,
        Capability::Random,
    ]
}

/// An interface and its version.
#[derive(Clone, Copy, Debug, PartialEq, Eq, Structural)]
pub struct InterfaceVersion {
    /// Interface number.
    pub interface: u32,
    /// Major version.
    pub major: u16,
    /// Minor version.
    pub minor: u16,
}

/// The version of each capability that this machine offers.
#[derive(Debug)]
pub struct Catalog {
    /// Versions in the order of [`all_capabilities`].
    pub versions: Vec<InterfaceVersion>,
}

/// The first capability of the list from `from` on that is offered in exactly
/// this version.
pub open spec fn offered_from(
    versions: Seq<InterfaceVersion>,
    wanted: InterfaceVersion,
    from: int,
) -> Option<Capability>
    decreases CAPABILITY_COUNT - from,
{
    if from >= CAPABILITY_COUNT {
        None
    } else if versions[from] == wanted {
        Some(all_capabilities()[from])
    } else {
        offered_from(versions, wanted, from + 1)
    }
}

impl Catalog {
    /// One version for each capability.
    pub open spec fn well_formed(self) -> bool {
        self.versions@.len() == CAPABILITY_COUNT
    }

    /// The capability that an interface version stands for.
    pub open spec fn offers(self, wanted: InterfaceVersion) -> Option<Capability> {
        offered_from(self.versions@, wanted, 0)
    }

    /// The capability that an interface version stands for.
    pub fn classify(&self, wanted: InterfaceVersion) -> (capability: Option<Capability>)
        requires
            self.well_formed(),
        ensures
            capability == self.offers(wanted),
    {
        let list = capabilities();
        let mut i: usize = 0;
        while i < CAPABILITY_COUNT
            invariant
                i <= CAPABILITY_COUNT,
                self.well_formed(),
                list@ == all_capabilities(),
                offered_from(self.versions@, wanted, i as int) == self.offers(wanted),
            decreases CAPABILITY_COUNT - i,
        {
            if self.versions[i] == wanted {
                return Some(list[i]);
            }
            i = i + 1;
        }
        None
    }
}

/// A set of required capabilities.
#[derive(Clone, Copy, Debug, PartialEq, Eq, Structural)]
pub struct Requirements {
    /// Datagram sockets.
    pub datagram: bool,
    /// Reading files.
    pub filesystem_read: bool,
    /// Changing files.
    pub filesystem_mutate: bool,
    /// Timers.
    pub timer: bool,
    /// Diagnostics snapshots.
    pub diagnostics: bool,
    /// Observing processes.
    pub process_observe: bool,
    /// Launching processes.
    pub process_launch: bool,
    /// Pipes.
    pub pipe: bool,
    /// Observing the network.
    pub network_observe: bool,
    /// Configuring the network.
    pub network_configure: bool,
    /// Echo requests.
    pub echo: bool,
    /// Connections.
    pub tcp_connect: bool,
    /// Mounting volumes.
    pub volume_control: bool,
    /// Submitting a script to the session.
    pub shell_script: bool,
    /// Reading the wall clock.
    pub wall_clock: bool,
    /// Setting the wall clock.
    pub clock_control: bool,
    /// Private memory.
    pub private_memory: bool,
    /// Random numbers.
    pub random: bool,
}

impl Requirements {
    /// Whether a capability is required.
    pub open spec fn has(self, capability: Capability) -> bool {
        match capability {
            Capability::Datagram => self.datagram,
            Capability::FilesystemRead => self.filesystem_read,
            Capability::FilesystemMutate => self.filesystem_mutate,
            Capability::Timer => self.timer,
            Capability::Diagnostics => self.diagnostics,
            Capability::ProcessObserve => self.process_observe,
            Capability::ProcessLaunch => self.process_launch,
            Capability::Pipe => self.pipe,
            Capability::NetworkObserve => self.network_observe,
            Capability::NetworkConfigure => self.network_configure,
            Capability::Echo => self.echo,
            Capability::TcpConnect => self.tcp_connect,
            Capability::VolumeControl => self.volume_control,
            Capability::ShellScript => self.shell_script,
            Capability::WallClock => self.wall_clock,
            Capability::ClockControl => self.clock_control,
            Capability::PrivateMemory => self.private_memory,
            Capability::Random => self.random,
        }
    }

    /// No capability.
    pub fn empty() -> (requirements: Self)
        ensures
            forall|c: Capability| !#[trigger] requirements.has(c),
    {
        Requirements {
            datagram: false,
            filesystem_read: false,
            filesystem_mutate: false,
            timer: false,
            diagnostics: false,
            process_observe: false,
            process_launch: false,
            pipe: false,
            network_observe: false,
            network_configure: false,
            echo: false,
            tcp_connect: false,
            volume_control: false,
            shell_script: false,
            wall_clock: false,
            clock_control: false,
            private_memory: false,
            random: false,
        }
    }

    /// Whether a capability is required.
    pub fn requires_capability(&self, capability: Capability) -> (yes: bool)
        ensures
            yes == self.has(capability),
    {
        match capability {
            Capability::Datagram => self.datagram,
            Capability::FilesystemRead => self.filesystem_read,
            Capability::FilesystemMutate => self.filesystem_mutate,
            Capability::Timer => self.timer,
            Capability::Diagnostics => self.diagnostics,
            Capability::ProcessObserve => self.process_observe,
            Capability::ProcessLaunch => self.process_launch,
            Capability::Pipe => self.pipe,
            Capability::NetworkObserve => self.network_observe,
            Capability::NetworkConfigure => self.network_configure,
            Capability::Echo => self.echo,
            Capability::TcpConnect => self.tcp_connect,
            Capability::VolumeControl => self.volume_control,
            Capability::ShellScript => self.shell_script,
            Capability::WallClock => self.wall_clock,
            Capability::ClockControl => self.clock_control,
            Capability::PrivateMemory => self.private_memory,
            Capability::Random => self.random,
        }
    }

    /// Require a capability.
    #[verifier::rlimit(80)]
    pub fn require(&mut self, capability: Capability)
        ensures
            forall|c: Capability| #[trigger]
                final(self).has(c) == (c == capability || old(self).has(c)),
    {
        match capability {
            Capability::Datagram => {
                self.datagram = true;
            },
            Capability::FilesystemRead => {
                self.filesystem_read = true;
            },
            Capability::FilesystemMutate => {
                self.filesystem_mutate = true;
            },
            Capability::Timer => {
                self.timer = true;
            },
            Capability::Diagnostics => {
                self.diagnostics = true;
            },
            Capability::ProcessObserve => {
                self.process_observe = true;
            },
            Capability::ProcessLaunch => {
                self.process_launch = true;
            },
            Capability::Pipe => {
                self.pipe = true;
            },
            Capability::NetworkObserve => {
                self.network_observe = true;
            },
            Capability::NetworkConfigure => {
                self.network_configure = true;
            },
            Capability::Echo => {
                self.echo = true;
            },
            Capability::TcpConnect => {
                self.tcp_connect = true;
            },
            Capability::VolumeControl => {
                self.volume_control = true;
            },
            Capability::ShellScript => {
                self.shell_script = true;
            },
            Capability::WallClock => {
                self.wall_clock = true;
            },
            Capability::ClockControl => {
                self.clock_control = true;
            },
            Capability::PrivateMemory => {
                self.private_memory = true;
            },
            Capability::Random => {
                self.random = true;
            },
        }
    }

    /// Whether a manifest asks for a capability.
    pub open spec fn asked(
        catalog: Catalog,
        manifest: Seq<InterfaceVersion>,
        capability: Capability,
    ) -> bool {
        exists|i: int|
            0 <= i < manifest.len() && catalog.offers(#[trigger] manifest[i]) == Some(capability)
    }

    /// The capabilities that a manifest asks for; `None` where it asks for
    /// anything that is not offered.
    pub fn from_manifest(catalog: &Catalog, manifest: &Vec<InterfaceVersion>) -> (requirements:
        Option<Self>)
        requires
            catalog.well_formed(),
        ensures
            match requirements {
                Some(r) => {
                    &&& forall|i: int|
                        0 <= i < manifest@.len() ==> catalog.offers(
                            #[trigger] manifest@[i],
                        ) is Some
                    &&& forall|c: Capability| #[trigger]
                        r.has(c) == Requirements::asked(*catalog, manifest@, c)
                },
                None => exists|i: int|
                    0 <= i < manifest@.len() && catalog.offers(#[trigger] manifest@[i]) is None,
            },
    {
        let mut requirements = Requirements::empty();
        let mut i: usize = 0;
        while i < manifest.len()
            invariant
                i <= manifest@.len(),
                catalog.well_formed(),
                forall|k: int|
                    0 <= k < i ==> catalog.offers(#[trigger] manifest@[k]) is Some,
                forall|c: Capability| #[trigger]
                    requirements.has(c) == exists|k: int|
                        0 <= k < i && catalog.offers(#[trigger] manifest@[k]) == Some(c),
            decreases manifest@.len() - i,
        {
            let ghost before = requirements;
            match catalog.classify(manifest[i]) {
                Some(capability) => {
                    requirements.require(capability);
                    proof {
                        assert forall|c: Capability| #[trigger] requirements.has(c) == exists|
                            k: int,
                        |
                            0 <= k < i + 1 && catalog.offers(#[trigger] manifest@[k]) == Some(
                                c,
                            ) by {
                            if c == capability {
                                assert(catalog.offers(manifest@[i as int]) == Some(c));
                            }
                            assert(before.has(c) ==> requirements.has(c));
                        }
                    }
                },
                None => {
                    assert(catalog.offers(manifest@[i as int]) is None);
                    return None;
                },
            }
            i = i + 1;
        }
        Some(requirements)
    }
}

/// Each capability is required under its own name.
pub proof fn capabilities_are_required_by_name(requirements: Requirements)
    ensures
        requirements.has(Capability::Datagram) == requirements.datagram,
        requirements.has(Capability::FilesystemRead) == requirements.filesystem_read,
        requirements.has(Capability::FilesystemMutate) == requirements.filesystem_mutate,
        requirements.has(Capability::Timer) == requirements.timer,
        requirements.has(Capability::Diagnostics) == requirements.diagnostics,
        requirements.has(Capability::ProcessObserve) == requirements.process_observe,
        requirements.has(Capability::ProcessLaunch) == requirements.process_launch,
        requirements.has(Capability::Pipe) == requirements.pipe,
        requirements.has(Capability::NetworkObserve) == requirements.network_observe,
        requirements.has(Capability::NetworkConfigure) == requirements.network_configure,
        requirements.has(Capability::Echo) == requirements.echo,
        requirements.has(Capability::TcpConnect) == requirements.tcp_connect,
        requirements.has(Capability::VolumeControl) == requirements.volume_control,
        requirements.has(Capability::ShellScript) == requirements.shell_script,
        requirements.has(Capability::WallClock) == requirements.wall_clock,
        requirements.has(Capability::ClockControl) == requirements.clock_control,
        requirements.has(Capability::PrivateMemory) == requirements.private_memory,
        requirements.has(Capability::Random) == requirements.random,
{
}

/// The catalog and the services list the capabilities in this order.
pub proof fn capabilities_are_listed_in_order()
    ensures
        all_capabilities()[0] == Capability::Datagram,
        all_capabilities()[1] == Capability::FilesystemRead,
        all_capabilities()[2] == Capability::FilesystemMutate,
        all_capabilities()[3] == Capability::Timer,
        all_capabilities()[4] == Capability::Diagnostics,
        all_capabilities()[5] == Capability::ProcessObserve,
        all_capabilities()[6] == Capability::ProcessLaunch,
        all_capabilities()[7] == Capability::Pipe,
        all_capabilities()[8] == Capability::NetworkObserve,
        all_capabilities()[9] == Capability::NetworkConfigure,
        all_capabilities()[10] == Capability::Echo,
        all_capabilities()[11] == Capability::TcpConnect,
        all_capabilities()[12] == Capability::VolumeControl,
        all_capabilities()[13] == Capability::ShellScript,
        all_capabilities()[14] == Capability::WallClock,
        all_capabilities()[15] == Capability::ClockControl,
        all_capabilities()[16] == Capability::PrivateMemory,
        all_capabilities()[17] == Capability::Random,
        all_capabilities().len() == 18,
{
}

/// A catalog offers the capability at whose place it has the wanted interface
/// in the wanted version, the first one if there are several, and nothing where
/// it has none.
pub proof fn offers_are_found_by_version(catalog: Catalog, wanted: InterfaceVersion, i: int)
    requires
        catalog.well_formed(),
    ensures
        0 <= i < 18 && catalog.versions@[i] == wanted && (forall|k: int|
            0 <= k < i ==> #[trigger] catalog.versions@[k] != wanted) ==> catalog.offers(wanted)
            == Some(all_capabilities()[i]),
        (forall|k: int| 0 <= k < 18 ==> #[trigger] catalog.versions@[k] != wanted)
            ==> catalog.offers(wanted) is None,
        catalog.offers(wanted) is Some ==> exists|k: int|
            0 <= k < 18 && #[trigger] catalog.versions@[k] == wanted,
{
    lemma_offered(catalog.versions@, wanted, 0, i);
}

proof fn lemma_offered(versions: Seq<InterfaceVersion>, wanted: InterfaceVersion, from: int, i: int)
    requires
        versions.len() == 18,
        0 <= from <= 18,
    ensures
        from <= i < 18 && versions[i] == wanted && (forall|k: int|
            from <= k < i ==> #[trigger] versions[k] != wanted) ==> offered_from(
            versions,
            wanted,
            from,
        ) == Some(all_capabilities()[i]),
        (forall|k: int| from <= k < 18 ==> #[trigger] versions[k] != wanted) ==> offered_from(
            versions,
            wanted,
            from,
        ) is None,
        offered_from(versions, wanted, from) is Some ==> exists|k: int|
            from <= k < 18 && #[trigger] versions[k] == wanted,
    decreases 18 - from,
{
    if from < 18 {
        lemma_offered(versions, wanted, from + 1, i);
        assert(versions[from] == versions[from]);
    }
}

} // verus!
