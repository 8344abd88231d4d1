//! The embedded application images of the acceptance runs.

use crate::memory::isolated::Architecture;
use vstd::prelude::*;

verus! {

/// What an embedded application does.
#[derive(Clone, Copy, Debug, PartialEq, Eq, Structural)]
pub enum ApplicationProbe {
    /// Makes every kind of call.
    Calls,
    /// Never yields.
    Spin,
    /// Grows its heap to the limit.
    HeapGrowthLimit,
    /// Checks its thread pointer.
    ThreadPointer,
    /// Makes a malformed call.
    InvalidCall,
    /// Returns from its entry.
    UnexpectedReturn,
}

/// Whether a build holds an application: all but the first need acceptance
/// probes, and the thread pointer is checked on one architecture only.
pub open spec fn is_embedded(
    probe: ApplicationProbe,
    architecture: Architecture,
    acceptance: bool,
) -> bool {
    match probe {
        ApplicationProbe::Calls => true,
        ApplicationProbe::ThreadPointer => acceptance && architecture == Architecture::Aarch64,
        _ => acceptance,
    }
}

/// The image of an application.
pub open spec fn image_name(probe: ApplicationProbe, architecture: Architecture) -> &'static str {
    match architecture {
        Architecture::X86_64 => match probe {
            ApplicationProbe::Calls => "native-calls-x86_64.kex",
            ApplicationProbe::Spin => "native-spin-x86_64.kex",
            ApplicationProbe::HeapGrowthLimit => "native-heap-growth-limit-x86_64.kex",
            ApplicationProbe::InvalidCall => "native-invalid-call-x86_64.kex",
            ApplicationProbe::UnexpectedReturn => "native-unexpected-return-x86_64.kex",
            ApplicationProbe::ThreadPointer => "native-thread-pointer-aarch64.kex",
        },
        Architecture::Aarch64 => match probe {
            ApplicationProbe::Calls => "native-calls-aarch64.kex",
            ApplicationProbe::Spin => "native-spin-aarch64.kex",
            ApplicationProbe::HeapGrowthLimit => "native-heap-growth-limit-aarch64.kex",
            ApplicationProbe::InvalidCall => "native-invalid-call-aarch64.kex",
            ApplicationProbe::UnexpectedReturn => "native-unexpected-return-aarch64.kex",
            ApplicationProbe::ThreadPointer => "native-thread-pointer-aarch64.kex",
        },
    }
}

/// The name of an application's image, where the build holds it.
pub fn native_kex_artifact(
    probe: ApplicationProbe,
    architecture: Architecture,
    acceptance: bool,
) -> (name: Option<&'static str>)
    ensures
        match name {
            Some(n) => is_embedded(probe, architecture, acceptance) && n == image_name(
                probe,
                architecture,
            ),
            None => !is_embedded(probe, architecture, acceptance),
        },
{
    match probe {
        ApplicationProbe::Calls => {},
        _ => {
            if !acceptance {
                return None;
            }
        },
    }
    match architecture {
        Architecture::X86_64 => match probe {
            ApplicationProbe::Calls => Some("native-calls-x86_64.kex"),
            ApplicationProbe::Spin => Some("native-spin-x86_64.kex"),
            ApplicationProbe::HeapGrowthLimit => Some("native-heap-growth-limit-x86_64.kex"),
            ApplicationProbe::InvalidCall => Some("native-invalid-call-x86_64.kex"),
            ApplicationProbe::UnexpectedReturn => Some("native-unexpected-return-x86_64.kex"),
            ApplicationProbe::ThreadPointer => None,
        },
        Architecture::Aarch64 => match probe {
            ApplicationProbe::Calls => Some("native-calls-aarch64.kex"),
            ApplicationProbe::Spin => Some("native-spin-aarch64.kex"),
            ApplicationProbe::HeapGrowthLimit => Some("native-heap-growth-limit-aarch64.kex"),
            ApplicationProbe::InvalidCall => Some("native-invalid-call-aarch64.kex"),
            ApplicationProbe::UnexpectedReturn => Some("native-unexpected-return-aarch64.kex"),
            ApplicationProbe::ThreadPointer => Some("native-thread-pointer-aarch64.kex"),
        },
    }
}

/// The image of the diagnostics server, and whether it is the faulting one.
/// That one is used once after it was requested, in acceptance builds only.
pub open spec fn server_image(
    architecture: Architecture,
    fault_requested: bool,
    acceptance: bool,
) -> (&'static str, bool) {
    if acceptance && fault_requested {
        match architecture {
            Architecture::X86_64 => ("x86_64/diagnostics-fault-server.kex", true),
            Architecture::Aarch64 => ("aarch64/diagnostics-fault-server.kex", true),
        }
    } else {
        match architecture {
            Architecture::X86_64 => ("x86_64/diagnostics-server.kex", false),
            Architecture::Aarch64 => ("aarch64/diagnostics-server.kex", false),
        }
    }
}

/// Choose the image of the diagnostics server; a request for the faulting one
/// is used up in acceptance builds.
pub fn native_diagnostics_server_artifact(
    architecture: Architecture,
    fault_requested: &mut bool,
    acceptance: bool,
) -> (image: (&'static str, bool))
    ensures
        image == server_image(architecture, *old(fault_requested), acceptance),
        *final(fault_requested) == (if acceptance {
            false
        } else {
            *old(fault_requested)
        }),
{
    if acceptance {
        let requested = *fault_requested;
        *fault_requested = false;
        if requested {
            return match architecture {
                Architecture::X86_64 => ("x86_64/diagnostics-fault-server.kex", true),
                Architecture::Aarch64 => ("aarch64/diagnostics-fault-server.kex", true),
            };
        }
    }
    match architecture {
        Architecture::X86_64 => ("x86_64/diagnostics-server.kex", false),
        Architecture::Aarch64 => ("aarch64/diagnostics-server.kex", false),
    }
}

/// The image of the diagnostics benchmark server.
pub fn native_diagnostics_benchmark_artifact(architecture: Architecture) -> (name: &'static str)
    ensures
        name == (match architecture {
            Architecture::X86_64 => "x86_64/diagnostics-benchmark-server.kex",
            Architecture::Aarch64 => "aarch64/diagnostics-benchmark-server.kex",
        }),
{
    match architecture {
        Architecture::X86_64 => "x86_64/diagnostics-benchmark-server.kex",
        Architecture::Aarch64 => "aarch64/diagnostics-benchmark-server.kex",
    }
}

/// Each image is named after its probe and architecture. Calls are always built
/// in, the thread pointer only for acceptance on one architecture, and the others
/// only for acceptance.
pub proof fn images_are_named_after_their_probe(
    probe: ApplicationProbe,
    architecture: Architecture,
    acceptance: bool,
)
    ensures
        image_name(ApplicationProbe::Calls, Architecture::X86_64) == "native-calls-x86_64.kex",
        image_name(ApplicationProbe::Calls, Architecture::Aarch64) == "native-calls-aarch64.kex",
        image_name(ApplicationProbe::Spin, Architecture::X86_64) == "native-spin-x86_64.kex",
        image_name(ApplicationProbe::Spin, Architecture::Aarch64) == "native-spin-aarch64.kex",
        image_name(ApplicationProbe::HeapGrowthLimit, Architecture::X86_64)
            == "native-heap-growth-limit-x86_64.kex",
        image_name(ApplicationProbe::HeapGrowthLimit, Architecture::Aarch64)
            == "native-heap-growth-limit-aarch64.kex",
        image_name(ApplicationProbe::InvalidCall, Architecture::X86_64)
            == "native-invalid-call-x86_64.kex",
        image_name(ApplicationProbe::InvalidCall, Architecture::Aarch64)
            == "native-invalid-call-aarch64.kex",
        image_name(ApplicationProbe::UnexpectedReturn, Architecture::X86_64)
            == "native-unexpected-return-x86_64.kex",
        image_name(ApplicationProbe::UnexpectedReturn, Architecture::Aarch64)
            == "native-unexpected-return-aarch64.kex",
        image_name(ApplicationProbe::ThreadPointer, architecture)
            == "native-thread-pointer-aarch64.kex",
        is_embedded(probe, architecture, acceptance) <==> probe == ApplicationProbe::Calls || (
        acceptance && (probe == ApplicationProbe::ThreadPointer ==> architecture
            == Architecture::Aarch64)),
{
}

/// The server that faults is taken only where acceptance asks for it.
pub proof fn faulty_servers_are_asked_for(
    architecture: Architecture,
    fault_requested: bool,
    acceptance: bool,
)
    ensures
        server_image(architecture, fault_requested, acceptance).1 <==> fault_requested
            && acceptance,
        server_image(Architecture::X86_64, true, true).0 == "x86_64/diagnostics-fault-server.kex",
        server_image(Architecture::Aarch64, true, true).0 == "aarch64/diagnostics-fault-server.kex",
        !(fault_requested && acceptance) ==> server_image(
            Architecture::X86_64,
            fault_requested,
            acceptance,
        ).0 == "x86_64/diagnostics-server.kex" && server_image(
            Architecture::Aarch64,
            fault_requested,
            acceptance,
        ).0 == "aarch64/diagnostics-server.kex",
{
}

} // verus!
