//! The stages of a boot, their reports and their failures.

use crate::bytes::append_bytes;
use crate::text::{append_text, utf8};
use vstd::prelude::*;

verus! {

/// Column in which a boot report's result begins.
pub const BOOT_STATUS_WIDTH: usize = 54;

/// `count` dots.
pub open spec fn dots(count: int) -> Seq<u8> {
    Seq::new(
        if count > 0 {
            count as nat
        } else {
            0
        },
        |i: int| 46u8,
    )
}

/// A boot report: the label, dots up to the result column, the result.
pub open spec fn status_line(label: Seq<u8>, ok: bool) -> Seq<u8> {
    let front = utf8(" * ") + label + utf8(" ");
    front + dots(BOOT_STATUS_WIDTH - front.len()) + (if ok {
        utf8(" [ OK ]\n")
    } else {
        utf8(" [ ERR ]\n")
    })
}

/// Format a boot report.
pub fn boot_status_line(label: &[u8], ok: bool) -> (line: Vec<u8>)
    ensures
        line@ == status_line(label@, ok),
{
    let mut line: Vec<u8> = Vec::new();
    append_text(&mut line, " * ");
    append_bytes(&mut line, label);
    append_text(&mut line, " ");
    let ghost front = line@;
    proof {
        assert(front =~= utf8(" * ") + label@ + utf8(" "));
        assert(line@ =~= front + dots(0));
    }
    let mut added: usize = 0;
    while line.len() < BOOT_STATUS_WIDTH
        invariant
            line@.len() == front.len() + added,
            line@ == front + dots(added as int),
            added > 0 ==> line@.len() <= BOOT_STATUS_WIDTH,
        decreases BOOT_STATUS_WIDTH - line@.len(),
    {
        line.push(46);
        added = added + 1;
        assert(line@ =~= front + dots(added as int));
    }
    assert(dots(added as int) =~= dots(BOOT_STATUS_WIDTH - front.len()));
    if ok {
        append_text(&mut line, " [ OK ]\n");
    } else {
        append_text(&mut line, " [ ERR ]\n");
    }
    line
}

/// A stage of a boot that can end it.
#[derive(Clone, Copy, Debug, PartialEq, Eq, Structural)]
pub enum BootStage {
    /// The processor's execution level.
    ExecutionLevel,
    /// The stack in use.
    Stack,
    /// Taking over from the firmware.
    Handoff,
    /// Counting block devices.
    BlockDevices,
    /// Making the scheduler.
    Scheduler,
    /// Running the cooperative services.
    CooperativeServices,
    /// Checking isolation.
    Isolation,
    /// Checking application loading.
    ApplicationLoad,
    /// Checking messages.
    MessageBaseline,
    /// Reporting the runtime.
    RuntimeReport,
    /// The shell's stack.
    ShellStack,
    /// Spawning the shell.
    ShellSpawn,
    /// Dispatching the shell.
    ShellDispatch,
    /// The shell's accounting.
    ShellAccounting,
    /// Entering the shell's stack.
    ShellEntry,
    /// The shell came back.
    ShellReturn,
}

/// What is printed when a stage ends the boot.
pub open spec fn failure_text(stage: BootStage) -> &'static str {
    match stage {
        BootStage::ExecutionLevel => "fatal: unsupported firmware execution level\n",
        BootStage::Stack => "fatal: active stack is not kernel-owned\n",
        BootStage::Handoff => "fatal: post-handoff initialization failed\n",
        BootStage::BlockDevices => "fatal: native block device accounting exceeded\n",
        BootStage::Scheduler => "fatal: cannot create task scheduler\n",
        BootStage::CooperativeServices => "fatal: cooperative task verification failed\n",
        BootStage::Isolation => "fatal: Stage 6 isolation verification failed\n",
        BootStage::ApplicationLoad => "fatal: Stage 7 load-boundary verification failed\n",
        BootStage::MessageBaseline => "fatal: IPC baseline verification failed\n",
        BootStage::RuntimeReport => "fatal: application loader diagnostic failed\n",
        BootStage::ShellStack => "fatal: invalid shell task stack\n",
        BootStage::ShellSpawn => "fatal: cannot spawn shell task\n",
        BootStage::ShellDispatch => "fatal: shell task dispatch failed\n",
        BootStage::ShellAccounting => "fatal: shell task accounting failed\n",
        BootStage::ShellEntry => "fatal: shell task stack rejected\n",
        BootStage::ShellReturn => "fatal: shell task returned\n",
    }
}

/// What is printed when a stage ends the boot.
pub fn boot_failure(stage: BootStage) -> (text: &'static str)
    ensures
        text@ == failure_text(stage)@,
{
    match stage {
        BootStage::ExecutionLevel => "fatal: unsupported firmware execution level\n",
        BootStage::Stack => "fatal: active stack is not kernel-owned\n",
        BootStage::Handoff => "fatal: post-handoff initialization failed\n",
        BootStage::BlockDevices => "fatal: native block device accounting exceeded\n",
        BootStage::Scheduler => "fatal: cannot create task scheduler\n",
        BootStage::CooperativeServices => "fatal: cooperative task verification failed\n",
        BootStage::Isolation => "fatal: Stage 6 isolation verification failed\n",
        BootStage::ApplicationLoad => "fatal: Stage 7 load-boundary verification failed\n",
        BootStage::MessageBaseline => "fatal: IPC baseline verification failed\n",
        BootStage::RuntimeReport => "fatal: application loader diagnostic failed\n",
        BootStage::ShellStack => "fatal: invalid shell task stack\n",
        BootStage::ShellSpawn => "fatal: cannot spawn shell task\n",
        BootStage::ShellDispatch => "fatal: shell task dispatch failed\n",
        BootStage::ShellAccounting => "fatal: shell task accounting failed\n",
        BootStage::ShellEntry => "fatal: shell task stack rejected\n",
        BootStage::ShellReturn => "fatal: shell task returned\n",
    }
}

/// The stages in the order of a boot; message checks are part of it only in
/// builds with acceptance probes.
pub open spec fn stage_after(stage: BootStage, probes: bool) -> Option<BootStage> {
    match stage {
        BootStage::ExecutionLevel => Some(BootStage::Stack),
        BootStage::Stack => Some(BootStage::Handoff),
        BootStage::Handoff => Some(BootStage::BlockDevices),
        BootStage::BlockDevices => Some(BootStage::Scheduler),
        BootStage::Scheduler => Some(BootStage::CooperativeServices),
        BootStage::CooperativeServices => Some(BootStage::Isolation),
        BootStage::Isolation => Some(BootStage::ApplicationLoad),
        BootStage::ApplicationLoad => if probes {
            Some(BootStage::MessageBaseline)
        } else {
            Some(BootStage::RuntimeReport)
        },
        BootStage::MessageBaseline => Some(BootStage::RuntimeReport),
        BootStage::RuntimeReport => Some(BootStage::ShellStack),
        BootStage::ShellStack => Some(BootStage::ShellSpawn),
        BootStage::ShellSpawn => Some(BootStage::ShellDispatch),
        BootStage::ShellDispatch => Some(BootStage::ShellAccounting),
        BootStage::ShellAccounting => Some(BootStage::ShellEntry),
        BootStage::ShellEntry => Some(BootStage::ShellReturn),
        BootStage::ShellReturn => None,
    }
}

/// The stage after one that succeeded.
pub fn next_stage(stage: BootStage, probes: bool) -> (next: Option<BootStage>)
    ensures
        next == stage_after(stage, probes),
{
    match stage {
        BootStage::ExecutionLevel => Some(BootStage::Stack),
        BootStage::Stack => Some(BootStage::Handoff),
        BootStage::Handoff => Some(BootStage::BlockDevices),
        BootStage::BlockDevices => Some(BootStage::Scheduler),
        BootStage::Scheduler => Some(BootStage::CooperativeServices),
        BootStage::CooperativeServices => Some(BootStage::Isolation),
        BootStage::Isolation => Some(BootStage::ApplicationLoad),
        BootStage::ApplicationLoad => if probes {
            Some(BootStage::MessageBaseline)
        } else {
            Some(BootStage::RuntimeReport)
        },
        BootStage::MessageBaseline => Some(BootStage::RuntimeReport),
        BootStage::RuntimeReport => Some(BootStage::ShellStack),
        BootStage::ShellStack => Some(BootStage::ShellSpawn),
        BootStage::ShellSpawn => Some(BootStage::ShellDispatch),
        BootStage::ShellDispatch => Some(BootStage::ShellAccounting),
        BootStage::ShellAccounting => Some(BootStage::ShellEntry),
        BootStage::ShellEntry => Some(BootStage::ShellReturn),
        BootStage::ShellReturn => None,
    }
}

/// Most native block devices.
pub const MAX_NATIVE_BLOCKS: usize = 8;

/// Whether this many block devices are allowed.
pub fn block_count_allowed(count: usize) -> (allowed: bool)
    ensures
        allowed == (count <= MAX_NATIVE_BLOCKS),
{
    count <= MAX_NATIVE_BLOCKS
}

/// Whether the shell runs as the only stack owner: it was spawned as `spawned`,
/// dispatched as `dispatched`, and its stack alone is in use.
pub fn shell_is_accounted(spawned: u64, dispatched: Option<u64>, owned_stack_pages: u64) -> (yes:
    bool)
    ensures
        yes == (dispatched == Some(spawned) && owned_stack_pages
            == crate::boot::arena::SHELL_TASK_STACK_PAGES),
{
    match dispatched {
        Some(id) => id == spawned && owned_stack_pages
            == crate::boot::arena::SHELL_TASK_STACK_PAGES,
        None => false,
    }
}

/// Whether installed page tables map anything.
pub fn translation_is_usable(mapped_pages: u64, table_pages: u64) -> (usable: bool)
    ensures
        usable == (mapped_pages > 0 && table_pages > 0),
{
    mapped_pages != 0 && table_pages != 0
}

/// Whether a seed holds anything but zeros.
pub fn seed_is_usable(seed: &[u8]) -> (usable: bool)
    ensures
        usable == exists|i: int| 0 <= i < seed@.len() && #[trigger] seed@[i] != 0,
{
    let mut i: usize = 0;
    while i < seed.len()
        invariant
            i <= seed@.len(),
            forall|k: int| 0 <= k < i ==> #[trigger] seed@[k] == 0,
        decreases seed@.len() - i,
    {
        if seed[i] != 0 {
            assert(seed@[i as int] != 0);
            return true;
        }
        i = i + 1;
    }
    false
}

/// Whether a boot manifest is small enough and was read completely.
pub fn manifest_is_complete(file_bytes: usize, read_bytes: usize, most: usize) -> (complete: bool)
    ensures
        complete == (file_bytes <= most && read_bytes == file_bytes),
{
    file_bytes <= most && read_bytes == file_bytes
}

/// Boot goes through its stages in this order; messages are measured only where
/// probes are built in.
pub proof fn boot_keeps_its_order(probes: bool)
    ensures
        stage_after(BootStage::ExecutionLevel, probes) == Some(BootStage::Stack),
        stage_after(BootStage::Stack, probes) == Some(BootStage::Handoff),
        stage_after(BootStage::Handoff, probes) == Some(BootStage::BlockDevices),
        stage_after(BootStage::BlockDevices, probes) == Some(BootStage::Scheduler),
        stage_after(BootStage::Scheduler, probes) == Some(BootStage::CooperativeServices),
        stage_after(BootStage::CooperativeServices, probes) == Some(BootStage::Isolation),
        stage_after(BootStage::Isolation, probes) == Some(BootStage::ApplicationLoad),
        stage_after(BootStage::MessageBaseline, probes) == Some(BootStage::RuntimeReport),
        stage_after(BootStage::RuntimeReport, probes) == Some(BootStage::ShellStack),
        stage_after(BootStage::ShellStack, probes) == Some(BootStage::ShellSpawn),
        stage_after(BootStage::ShellSpawn, probes) == Some(BootStage::ShellDispatch),
        stage_after(BootStage::ShellDispatch, probes) == Some(BootStage::ShellAccounting),
        stage_after(BootStage::ShellAccounting, probes) == Some(BootStage::ShellEntry),
        stage_after(BootStage::ShellEntry, probes) == Some(BootStage::ShellReturn),
        stage_after(BootStage::ApplicationLoad, true) == Some(BootStage::MessageBaseline),
        stage_after(BootStage::ApplicationLoad, false) == Some(BootStage::RuntimeReport),
        stage_after(BootStage::ShellReturn, probes) is None,
{
}

/// Each stage that fails has its own last words.
pub proof fn failed_boots_say_why()
    ensures
        failure_text(BootStage::ExecutionLevel) == "fatal: unsupported firmware execution level\n",
        failure_text(BootStage::Stack) == "fatal: active stack is not kernel-owned\n",
        failure_text(BootStage::Handoff) == "fatal: post-handoff initialization failed\n",
        failure_text(BootStage::BlockDevices) == "fatal: native block device accounting exceeded\n",
        failure_text(BootStage::Scheduler) == "fatal: cannot create task scheduler\n",
        failure_text(BootStage::CooperativeServices) == "fatal: cooperative task verification failed\n",
        failure_text(BootStage::Isolation) == "fatal: Stage 6 isolation verification failed\n",
        failure_text(BootStage::ApplicationLoad) == "fatal: Stage 7 load-boundary verification failed\n",
        failure_text(BootStage::MessageBaseline) == "fatal: IPC baseline verification failed\n",
        failure_text(BootStage::RuntimeReport) == "fatal: application loader diagnostic failed\n",
        failure_text(BootStage::ShellStack) == "fatal: invalid shell task stack\n",
        failure_text(BootStage::ShellSpawn) == "fatal: cannot spawn shell task\n",
        failure_text(BootStage::ShellDispatch) == "fatal: shell task dispatch failed\n",
        failure_text(BootStage::ShellAccounting) == "fatal: shell task accounting failed\n",
        failure_text(BootStage::ShellEntry) == "fatal: shell task stack rejected\n",
        failure_text(BootStage::ShellReturn) == "fatal: shell task returned\n",
{
}

/// A line of the boot report shows its label, is filled up with dots to one
/// width, and ends with how it went.
pub proof fn boot_lines_have_one_width(label: Seq<u8>, ok: bool)
    ensures
        ({
            let front = utf8(" * ") + label + utf8(" ");
            let end = if ok {
                utf8(" [ OK ]\n")
            } else {
                utf8(" [ ERR ]\n")
            };
            let line = status_line(label, ok);
            &&& front.len() <= 54 ==> line.len() == 54 + end.len()
            &&& line.take(front.len() as int) == front
            &&& line.skip(line.len() - end.len()) == end
            &&& forall|i: int|
                front.len() <= i < line.len() - end.len() ==> #[trigger] line[i] == 46
        }),
{
    let front = utf8(" * ") + label + utf8(" ");
    let end = if ok {
        utf8(" [ OK ]\n")
    } else {
        utf8(" [ ERR ]\n")
    };
    let line = status_line(label, ok);
    assert(line.take(front.len() as int) =~= front);
    assert(line.skip(line.len() - end.len()) =~= end);
}

} // verus!
