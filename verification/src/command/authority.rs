//! What a configured service may ask for.

use crate::command::capability::{Capability, Requirements};
use vstd::prelude::*;

verus! {

/// The authority bits of the capabilities that a service can be granted.
#[derive(Clone, Copy, Debug, PartialEq, Eq, Structural)]
pub struct AuthorityBits {
    /// Datagram sockets.
    pub datagram: u32,
    /// Timers.
    pub timer: u32,
    /// Setting the wall clock.
    pub clock_control: u32,
    /// Reading the wall clock.
    pub wall_clock: u32,
}

/// Verdict on an application's requirements.
#[derive(Clone, Copy, Debug, PartialEq, Eq, Structural)]
pub enum Authority {
    /// They may be granted.
    Granted,
    /// The service's configuration does not allow them.
    Denied,
    /// Only services may set the wall clock.
    ServiceOnly,
}

/// A bit pattern, or none.
pub open spec fn bits_if(wanted: bool, bits: u32) -> u32 {
    if wanted {
        bits
    } else {
        0
    }
}

/// The authority bits that requirements need.
pub open spec fn needed_bits(requirements: Requirements, bits: AuthorityBits) -> u32 {
    bits_if(requirements.datagram, bits.datagram) | bits_if(requirements.timer, bits.timer)
        | bits_if(requirements.clock_control, bits.clock_control) | bits_if(
        requirements.wall_clock,
        bits.wall_clock,
    )
}

/// Whether a capability can never be granted to a service.
pub open spec fn never_for_services(capability: Capability) -> bool {
    match capability {
        Capability::FilesystemRead
        | Capability::FilesystemMutate
        | Capability::Diagnostics
        | Capability::ProcessObserve
        | Capability::ProcessLaunch
        | Capability::Pipe
        | Capability::NetworkObserve
        | Capability::NetworkConfigure
        | Capability::Echo
        | Capability::TcpConnect
        | Capability::VolumeControl
        | Capability::ShellScript => true,
        _ => false,
    }
}

/// Whether requirements hold something that no service can have.
pub open spec fn beyond_services(requirements: Requirements) -> bool {
    exists|c: Capability| #[trigger] requirements.has(c) && never_for_services(c)
}

/// Verdict on requirements that a manifest of `manifest_entries` entries asks
/// for. A service has a number of initial handles and authorized bits; four
/// handles go to the command and its streams.
pub open spec fn authority(
    requirements: Requirements,
    manifest_entries: int,
    bits: AuthorityBits,
    initial_handles: Option<u8>,
    authorized: Option<u32>,
) -> Authority {
    match (initial_handles, authorized) {
        (Some(handles), Some(allowed)) => if beyond_services(requirements) || needed_bits(
            requirements,
            bits,
        ) & !allowed != 0 || 4 + manifest_entries > handles {
            Authority::Denied
        } else {
            Authority::Granted
        },
        _ => if requirements.clock_control {
            Authority::ServiceOnly
        } else {
            Authority::Granted
        },
    }
}

/// Decide whether requirements may be granted.
pub fn decide_authority(
    requirements: &Requirements,
    manifest_entries: usize,
    bits: AuthorityBits,
    initial_handles: Option<u8>,
    authorized: Option<u32>,
) -> (verdict: Authority)
    ensures
        verdict == authority(
            *requirements,
            manifest_entries as int,
            bits,
            initial_handles,
            authorized,
        ),
{
    let mut wanted: u32 = if requirements.datagram {
        bits.datagram
    } else {
        0
    };
    wanted = wanted | (if requirements.timer {
        bits.timer
    } else {
        0
    });
    wanted = wanted | (if requirements.clock_control {
        bits.clock_control
    } else {
        0
    });
    wanted = wanted | (if requirements.wall_clock {
        bits.wall_clock
    } else {
        0
    });
    match (initial_handles, authorized) {
        (Some(handles), Some(allowed)) => {
            let beyond = requirements.filesystem_read || requirements.filesystem_mutate
                || requirements.diagnostics || requirements.process_observe
                || requirements.process_launch || requirements.pipe
                || requirements.network_observe || requirements.network_configure
                || requirements.echo || requirements.tcp_connect
                || requirements.volume_control || requirements.shell_script;
            proof {
                lemma_beyond(*requirements);
            }
            if beyond || wanted & !allowed != 0 || manifest_entries.saturating_add(4)
                > handles as usize {
                Authority::Denied
            } else {
                Authority::Granted
            }
        },
        _ => if requirements.clock_control {
            Authority::ServiceOnly
        } else {
            Authority::Granted
        },
    }
}

proof fn lemma_beyond(r: Requirements)
    ensures
        beyond_services(r) == (r.filesystem_read || r.filesystem_mutate || r.diagnostics
            || r.process_observe || r.process_launch || r.pipe || r.network_observe
            || r.network_configure || r.echo || r.tcp_connect || r.volume_control
            || r.shell_script),
{
    assert(r.has(Capability::FilesystemRead) == r.filesystem_read);
    assert(r.has(Capability::FilesystemMutate) == r.filesystem_mutate);
    assert(r.has(Capability::Diagnostics) == r.diagnostics);
    assert(r.has(Capability::ProcessObserve) == r.process_observe);
    assert(r.has(Capability::ProcessLaunch) == r.process_launch);
    assert(r.has(Capability::Pipe) == r.pipe);
    assert(r.has(Capability::NetworkObserve) == r.network_observe);
    assert(r.has(Capability::NetworkConfigure) == r.network_configure);
    assert(r.has(Capability::Echo) == r.echo);
    assert(r.has(Capability::TcpConnect) == r.tcp_connect);
    assert(r.has(Capability::VolumeControl) == r.volume_control);
    assert(r.has(Capability::ShellScript) == r.shell_script);
}

/// A session application never gets to set the wall clock, and a service gets
/// nothing beyond its configured bits and handles.
pub proof fn authority_is_never_exceeded(
    requirements: Requirements,
    manifest_entries: int,
    bits: AuthorityBits,
    initial_handles: Option<u8>,
    authorized: Option<u32>,
)
    requires
        authority(requirements, manifest_entries, bits, initial_handles, authorized)
            == Authority::Granted,
    ensures
        initial_handles is None || authorized is None ==> !requirements.clock_control,
        initial_handles is Some && authorized is Some ==> {
            &&& needed_bits(requirements, bits) & !authorized->0 == 0
            &&& 4 + manifest_entries <= initial_handles->0
            &&& forall|c: Capability| never_for_services(c) ==> !#[trigger] requirements.has(c)
        },
{
}

/// A service is granted what it requires exactly where each of its bits is
/// authorized, its handles suffice for the four of every application and one
/// for each entry of the manifest, and it requires nothing that only a session
/// has. An application of the session is granted everything but control over
/// the clock, which is for services alone.
pub proof fn authority_follows_the_configured_bits(
    requirements: Requirements,
    manifest_entries: int,
    bits: AuthorityBits,
    initial_handles: Option<u8>,
    authorized: Option<u32>,
)
    ensures
        ({
            let r = requirements;
            let verdict = authority(r, manifest_entries, bits, initial_handles, authorized);
            let session_only = r.filesystem_read || r.filesystem_mutate || r.diagnostics
                || r.process_observe || r.process_launch || r.pipe || r.network_observe
                || r.network_configure || r.echo || r.tcp_connect || r.volume_control
                || r.shell_script;
            &&& initial_handles is None || authorized is None ==> verdict == if r.clock_control {
                Authority::ServiceOnly
            } else {
                Authority::Granted
            }
            &&& (initial_handles matches Some(handles) ==> (authorized matches Some(allowed) ==> {
                let covered = {
                    &&& r.datagram ==> bits.datagram & !allowed == 0
                    &&& r.timer ==> bits.timer & !allowed == 0
                    &&& r.clock_control ==> bits.clock_control & !allowed == 0
                    &&& r.wall_clock ==> bits.wall_clock & !allowed == 0
                };
                verdict == if covered && !session_only && 4 + manifest_entries <= handles {
                    Authority::Granted
                } else {
                    Authority::Denied
                }
            }))
        }),
{
    let r = requirements;
    assert(r.has(Capability::FilesystemRead) == r.filesystem_read);
    assert(r.has(Capability::FilesystemMutate) == r.filesystem_mutate);
    assert(r.has(Capability::Diagnostics) == r.diagnostics);
    assert(r.has(Capability::ProcessObserve) == r.process_observe);
    assert(r.has(Capability::ProcessLaunch) == r.process_launch);
    assert(r.has(Capability::Pipe) == r.pipe);
    assert(r.has(Capability::NetworkObserve) == r.network_observe);
    assert(r.has(Capability::NetworkConfigure) == r.network_configure);
    assert(r.has(Capability::Echo) == r.echo);
    assert(r.has(Capability::TcpConnect) == r.tcp_connect);
    assert(r.has(Capability::VolumeControl) == r.volume_control);
    assert(r.has(Capability::ShellScript) == r.shell_script);
    if authorized is Some {
        let x = !authorized->0;
        let a = bits_if(r.datagram, bits.datagram);
        let b = bits_if(r.timer, bits.timer);
        let c = bits_if(r.clock_control, bits.clock_control);
        let d = bits_if(r.wall_clock, bits.wall_clock);
        assert((a | b | c | d) & x == 0 <==> (a & x == 0 && b & x == 0 && c & x == 0 && d & x == 0))
            by (bit_vector);
        assert(0u32 & x == 0) by (bit_vector);
    }
}

} // verus!
