//! Taking the machine over from firmware: the order of what is done, and how
//! each failure ends.

use crate::memory::pages::PageRange;
use vstd::prelude::*;

verus! {

/// How the program ends if it returns to firmware.
#[derive(Clone, Copy, Debug, PartialEq, Eq, Structural)]
pub enum EntryStatus {
    /// Firmware support could not be set up.
    DeviceError,
    /// The machine was not taken over.
    Aborted,
}

/// What firmware support reported at the entry.
#[derive(Clone, Copy, Debug, PartialEq, Eq, Structural)]
pub struct EntryReport {
    /// Whether firmware support was set up.
    pub firmware: bool,
    /// Whether the platform is valid.
    pub platform: bool,
    /// Whether the source of the platform description is known.
    pub source: bool,
}

/// What follows at the entry.
#[derive(Clone, Copy, Debug, PartialEq, Eq, Structural)]
pub enum EntryNext {
    /// Prepare to take over.
    Prepare,
    /// Return to firmware; `explain` why platform discovery failed.
    Leave {
        /// Status.
        status: EntryStatus,
        /// Whether the failure is explained.
        explain: bool,
    },
}

/// Decide what follows at the entry.
pub fn enter(report: EntryReport) -> (next: EntryNext)
    ensures
        next == (if !report.firmware {
            EntryNext::Leave { status: EntryStatus::DeviceError, explain: false }
        } else if !report.platform {
            EntryNext::Leave { status: EntryStatus::Aborted, explain: true }
        } else if !report.source {
            EntryNext::Leave { status: EntryStatus::Aborted, explain: false }
        } else {
            EntryNext::Prepare
        }),
{
    if !report.firmware {
        EntryNext::Leave { status: EntryStatus::DeviceError, explain: false }
    } else if !report.platform {
        EntryNext::Leave { status: EntryStatus::Aborted, explain: true }
    } else if !report.source {
        EntryNext::Leave { status: EntryStatus::Aborted, explain: false }
    } else {
        EntryNext::Prepare
    }
}

/// A step of taking the machine over, in order.
#[derive(Clone, Copy, Debug, PartialEq, Eq, Structural)]
pub enum HandoffStage {
    /// Clear the screen.
    ClearScreen,
    /// Report where the platform description comes from.
    ReportPlatform,
    /// Find the loaded image.
    FindImage,
    /// Capture the framebuffer; there may be none.
    CaptureFramebuffer,
    /// Reserve the arena and install the heap.
    ReserveMemory,
    /// Load the mount manifest.
    LoadManifest,
    /// Start the console and the clock.
    StartClock,
    /// Read the wall clock; there may be none.
    ReadWallClock,
    /// Capture an entropy seed.
    CaptureSeed,
    /// Leave firmware and go on with the own stack.
    LeaveFirmware,
    /// Go down to the kernel's execution level.
    DescendLevel,
    /// Check that the stack is the own one.
    CheckStack,
    /// Normalize the final memory map.
    NormalizeMap,
    /// Plan the kernel mappings.
    PlanMappings,
    /// Make the frame allocator.
    MakeFrames,
    /// Reserve what must never be handed out.
    ReserveFrames,
    /// Take one frame and give it back.
    ProbeFrames,
    /// Let a heap allocation fail.
    ProbeHeap,
    /// Install the exception vectors.
    InstallExceptions,
    /// Turn on address translation.
    InstallTranslation,
    /// Report that memory is owned.
    ReportMemory,
    /// Start input interrupts.
    StartInput,
    /// Find block devices.
    FindBlocks,
    /// Report that devices are owned.
    ReportDevices,
    /// Seed the random generator and forget the seed.
    SeedRandom,
}

/// How a failed step ends.
#[derive(Clone, Copy, Debug, PartialEq, Eq, Structural)]
pub enum HandoffFailure {
    /// With a return to firmware.
    ReturnToFirmware {
        /// Whether a status line is printed first.
        reported: bool,
    },
    /// With the machine halted after a message.
    Halt {
        /// Whether the execution level is wrong.
        level: bool,
        /// Whether the stack is wrong.
        stack: bool,
    },
}

/// Position of a step.
pub open spec fn handoff_position(stage: HandoffStage) -> int {
    match stage {
        HandoffStage::ClearScreen => 0,
        HandoffStage::ReportPlatform => 1,
        HandoffStage::FindImage => 2,
        HandoffStage::CaptureFramebuffer => 3,
        HandoffStage::ReserveMemory => 4,
        HandoffStage::LoadManifest => 5,
        HandoffStage::StartClock => 6,
        HandoffStage::ReadWallClock => 7,
        HandoffStage::CaptureSeed => 8,
        HandoffStage::LeaveFirmware => 9,
        HandoffStage::DescendLevel => 10,
        HandoffStage::CheckStack => 11,
        HandoffStage::NormalizeMap => 12,
        HandoffStage::PlanMappings => 13,
        HandoffStage::MakeFrames => 14,
        HandoffStage::ReserveFrames => 15,
        HandoffStage::ProbeFrames => 16,
        HandoffStage::ProbeHeap => 17,
        HandoffStage::InstallExceptions => 18,
        HandoffStage::InstallTranslation => 19,
        HandoffStage::ReportMemory => 20,
        HandoffStage::StartInput => 21,
        HandoffStage::FindBlocks => 22,
        HandoffStage::ReportDevices => 23,
        HandoffStage::SeedRandom => 24,
    }
}

/// The step after a step; nothing after the last.
pub fn next_handoff_stage(stage: HandoffStage) -> (next: Option<HandoffStage>)
    ensures
        match next {
            Some(n) => handoff_position(n) == handoff_position(stage) + 1,
            None => stage == HandoffStage::SeedRandom,
        },
{
    match stage {
        HandoffStage::ClearScreen => Some(HandoffStage::ReportPlatform),
        HandoffStage::ReportPlatform => Some(HandoffStage::FindImage),
        HandoffStage::FindImage => Some(HandoffStage::CaptureFramebuffer),
        HandoffStage::CaptureFramebuffer => Some(HandoffStage::ReserveMemory),
        HandoffStage::ReserveMemory => Some(HandoffStage::LoadManifest),
        HandoffStage::LoadManifest => Some(HandoffStage::StartClock),
        HandoffStage::StartClock => Some(HandoffStage::ReadWallClock),
        HandoffStage::ReadWallClock => Some(HandoffStage::CaptureSeed),
        HandoffStage::CaptureSeed => Some(HandoffStage::LeaveFirmware),
        HandoffStage::LeaveFirmware => Some(HandoffStage::DescendLevel),
        HandoffStage::DescendLevel => Some(HandoffStage::CheckStack),
        HandoffStage::CheckStack => Some(HandoffStage::NormalizeMap),
        HandoffStage::NormalizeMap => Some(HandoffStage::PlanMappings),
        HandoffStage::PlanMappings => Some(HandoffStage::MakeFrames),
        HandoffStage::MakeFrames => Some(HandoffStage::ReserveFrames),
        HandoffStage::ReserveFrames => Some(HandoffStage::ProbeFrames),
        HandoffStage::ProbeFrames => Some(HandoffStage::ProbeHeap),
        HandoffStage::ProbeHeap => Some(HandoffStage::InstallExceptions),
        HandoffStage::InstallExceptions => Some(HandoffStage::InstallTranslation),
        HandoffStage::InstallTranslation => Some(HandoffStage::ReportMemory),
        HandoffStage::ReportMemory => Some(HandoffStage::StartInput),
        HandoffStage::StartInput => Some(HandoffStage::FindBlocks),
        HandoffStage::FindBlocks => Some(HandoffStage::ReportDevices),
        HandoffStage::ReportDevices => Some(HandoffStage::SeedRandom),
        HandoffStage::SeedRandom => None,
    }
}

/// Whether a step may find nothing without failing.
pub open spec fn is_optional(stage: HandoffStage) -> bool {
    stage == HandoffStage::CaptureFramebuffer || stage == HandoffStage::ReadWallClock
}

/// Whether a step uses firmware.
pub open spec fn uses_firmware(stage: HandoffStage) -> bool {
    handoff_position(stage) <= handoff_position(HandoffStage::CaptureSeed)
}

/// How a failed step ends; an optional one does not fail.
pub fn handoff_failure(stage: HandoffStage) -> (failure: Option<HandoffFailure>)
    ensures
        failure == (if is_optional(stage) {
            None::<HandoffFailure>
        } else if uses_firmware(stage) || stage == HandoffStage::LeaveFirmware {
            Some(HandoffFailure::ReturnToFirmware { reported: uses_firmware(stage) })
        } else {
            Some(
                HandoffFailure::Halt {
                    level: stage == HandoffStage::DescendLevel,
                    stack: stage == HandoffStage::CheckStack,
                },
            )
        }),
{
    match stage {
        HandoffStage::CaptureFramebuffer | HandoffStage::ReadWallClock => None,
        HandoffStage::ClearScreen | HandoffStage::ReportPlatform | HandoffStage::FindImage
        | HandoffStage::ReserveMemory | HandoffStage::LoadManifest | HandoffStage::StartClock
        | HandoffStage::CaptureSeed => Some(HandoffFailure::ReturnToFirmware { reported: true }),
        HandoffStage::LeaveFirmware => Some(HandoffFailure::ReturnToFirmware { reported: false }),
        HandoffStage::DescendLevel => Some(HandoffFailure::Halt { level: true, stack: false }),
        HandoffStage::CheckStack => Some(HandoffFailure::Halt { level: false, stack: true }),
        _ => Some(HandoffFailure::Halt { level: false, stack: false }),
    }
}

/// The last words of a machine that is halted.
pub fn handoff_fatal(level: bool, stack: bool) -> (text: &'static str)
    ensures
        text@ == (if level {
            "fatal: unsupported firmware execution level\n"@
        } else if stack {
            "fatal: active stack is not kernel-owned\n"@
        } else {
            "fatal: post-handoff initialization failed\n"@
        }),
{
    if level {
        "fatal: unsupported firmware execution level\n"
    } else if stack {
        "fatal: active stack is not kernel-owned\n"
    } else {
        "fatal: post-handoff initialization failed\n"
    }
}

/// After firmware was left, no step uses it.
pub proof fn firmware_is_left_for_good(stage: HandoffStage)
    requires
        handoff_position(stage) >= handoff_position(HandoffStage::LeaveFirmware),
    ensures
        !uses_firmware(stage),
{
}

/// Exceptions are handled before translation is on, and translation is on
/// before memory is reported as owned.
pub proof fn faults_are_handled_first()
    ensures
        handoff_position(HandoffStage::InstallExceptions) < handoff_position(
            HandoffStage::InstallTranslation,
        ),
        handoff_position(HandoffStage::InstallTranslation) < handoff_position(
            HandoffStage::ReportMemory,
        ),
        handoff_position(HandoffStage::ReserveFrames) < handoff_position(HandoffStage::ProbeFrames),
{
}

/// The frames that are never handed out: the null page, and the framebuffer
/// if there is one.
pub fn withheld_frames(framebuffer: Option<PageRange>) -> (ranges: Vec<PageRange>)
    ensures
        match framebuffer {
            Some(range) => ranges@.len() == 2 && ranges@[1] == range,
            None => ranges@.len() == 1,
        },
        ranges@[0].first() == 0,
        ranges@[0].pages() == 1,
{
    let mut ranges: Vec<PageRange> = Vec::new();
    ranges.push(PageRange::of_numbers(0, 1));
    if let Some(range) = framebuffer {
        ranges.push(range);
    }
    ranges
}

/// Whether the stack pointer lies in the own stack.
pub fn stack_is_owned(stack: PageRange, pointer: u64) -> (owned: bool)
    requires
        stack.well_formed(),
    ensures
        owned == (4096 * stack.first() <= pointer < 4096 * stack.past()),
{
    stack.start() <= pointer && pointer < stack.end()
}

/// The stages of the handoff follow each other in this order. The firmware is
/// needed up to the seed, and only the screen and the wall clock can be missing.
pub proof fn the_handoff_keeps_its_order(stage: HandoffStage)
    ensures
        handoff_position(HandoffStage::ClearScreen) + 1 == handoff_position(HandoffStage::ReportPlatform),
        handoff_position(HandoffStage::ReportPlatform) + 1 == handoff_position(HandoffStage::FindImage),
        handoff_position(HandoffStage::FindImage) + 1 == handoff_position(HandoffStage::CaptureFramebuffer),
        handoff_position(HandoffStage::CaptureFramebuffer) + 1 == handoff_position(HandoffStage::ReserveMemory),
        handoff_position(HandoffStage::ReserveMemory) + 1 == handoff_position(HandoffStage::LoadManifest),
        handoff_position(HandoffStage::LoadManifest) + 1 == handoff_position(HandoffStage::StartClock),
        handoff_position(HandoffStage::StartClock) + 1 == handoff_position(HandoffStage::ReadWallClock),
        handoff_position(HandoffStage::ReadWallClock) + 1 == handoff_position(HandoffStage::CaptureSeed),
        handoff_position(HandoffStage::CaptureSeed) + 1 == handoff_position(HandoffStage::LeaveFirmware),
        handoff_position(HandoffStage::LeaveFirmware) + 1 == handoff_position(HandoffStage::DescendLevel),
        handoff_position(HandoffStage::DescendLevel) + 1 == handoff_position(HandoffStage::CheckStack),
        handoff_position(HandoffStage::CheckStack) + 1 == handoff_position(HandoffStage::NormalizeMap),
        handoff_position(HandoffStage::NormalizeMap) + 1 == handoff_position(HandoffStage::PlanMappings),
        handoff_position(HandoffStage::PlanMappings) + 1 == handoff_position(HandoffStage::MakeFrames),
        handoff_position(HandoffStage::MakeFrames) + 1 == handoff_position(HandoffStage::ReserveFrames),
        handoff_position(HandoffStage::ReserveFrames) + 1 == handoff_position(HandoffStage::ProbeFrames),
        handoff_position(HandoffStage::ProbeFrames) + 1 == handoff_position(HandoffStage::ProbeHeap),
        handoff_position(HandoffStage::ProbeHeap) + 1 == handoff_position(HandoffStage::InstallExceptions),
        handoff_position(HandoffStage::InstallExceptions) + 1 == handoff_position(HandoffStage::InstallTranslation),
        handoff_position(HandoffStage::InstallTranslation) + 1 == handoff_position(HandoffStage::ReportMemory),
        handoff_position(HandoffStage::ReportMemory) + 1 == handoff_position(HandoffStage::StartInput),
        handoff_position(HandoffStage::StartInput) + 1 == handoff_position(HandoffStage::FindBlocks),
        handoff_position(HandoffStage::FindBlocks) + 1 == handoff_position(HandoffStage::ReportDevices),
        handoff_position(HandoffStage::ReportDevices) + 1 == handoff_position(HandoffStage::SeedRandom),
        handoff_position(HandoffStage::ClearScreen) == 0,
        is_optional(stage) <==> stage == HandoffStage::CaptureFramebuffer || stage
            == HandoffStage::ReadWallClock,
        uses_firmware(stage) <==> handoff_position(stage) < handoff_position(
            HandoffStage::LeaveFirmware,
        ),
{
}

} // verus!
