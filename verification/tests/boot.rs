//! Boot memory, kernel mappings, handoff, services, stages and the hosted
//! model.

use troe::boot::arena::{BootMemory, BOOT_ARENA_PAGES};
use troe::boot::baseline::{
    baseline_failure, baseline_line, boot_interval, excluded_interval, BaselineFailure,
};
use troe::boot::console::{
    clears_screen, mirrored_bytes, platform_report, replay_completed_boot, shell_console,
    PlatformSource, ShellConsole,
};
use troe::boot::handoff::{
    enter, handoff_failure, handoff_fatal, next_handoff_stage, stack_is_owned, withheld_frames,
    EntryNext, EntryReport, EntryStatus, HandoffFailure, HandoffStage,
};
use troe::boot::kernel_plan::{
    build_mapping_plan, classify_regions, framebuffer_device_range, FirmwareKind, FirmwareRegion,
    KernelLayout,
};
use troe::boot::services::{
    after_task_step, cooperative_service_step, task_stacks_are_guarded, CooperativeService,
    Dispatched, SchedulerTotals, ServiceAction, ServiceEvent, ServiceRun, TaskAction, TaskStep,
};
use troe::boot::stages::{
    block_count_allowed, boot_failure, boot_status_line, manifest_is_complete, next_stage,
    seed_is_usable, shell_is_accounted, translation_is_usable, BootStage,
};
use troe::host::{
    is_white, judge_line, line_runs, parse_arguments, trim_newline, HostMode, LineVerdict,
    ScriptRun,
};
use troe::memory::pages::PageRange;
use troe::memory::plan::{MappingOwner, MemoryType};
use troe::memory::private::mapping::Permissions;
use troe::text::{append_decimal, append_text, begins_with, is_text, same_bytes};

fn pages(start: u64, count: u64) -> PageRange {
    PageRange::from_pages(start, count).unwrap()
}

#[test]
fn an_arena_is_cut_without_gaps() {
    let memory = BootMemory::carve(0x100_0000).unwrap();
    assert_eq!(memory.arena, pages(0x100_0000, BOOT_ARENA_PAGES));
    assert_eq!(memory.heap, pages(0x100_0000, 1536));
    assert_eq!(memory.page_tables.start(), memory.heap.end());
    assert_eq!(memory.stack.page_count(), 32);
    assert_eq!(memory.exception_stack.page_count(), 4);
    assert_eq!(memory.task_stack.stack.page_count(), 16);
    assert_eq!(memory.shell_stack.upper_guard.end(), memory.arena.end());
    assert!(memory.server_stack.is_guarded(32));
    assert!(!memory.server_stack.is_guarded(31));
    assert!(task_stacks_are_guarded(&memory));
    assert!(BootMemory::carve(0x100_0001).is_none());
}

#[test]
fn baselines_need_a_forward_interval() {
    assert_eq!(boot_interval(10, 100, 20), Some(70));
    assert_eq!(boot_interval(10, 30, 20), None);
    assert_eq!(boot_interval(30, 10, 0), None);
    assert_eq!(excluded_interval(5, 25), Some(20));
    assert_eq!(excluded_interval(25, 5), None);
    assert_eq!(
        baseline_failure(BaselineFailure::Reversed),
        "fatal: boot counter reversed\n"
    );
    assert_eq!(
        baseline_line(10, 100, 20, 1000).unwrap(),
        b"TROE-BOOT-BASELINE-v1 start_ticks=10 end_ticks=100 excluded_ipc_ticks=20 ticks=70 counter_hz=1000\n"
            .to_vec()
    );
    assert!(baseline_line(10, 10, 0, 1000).is_none());
}

#[test]
fn the_screen_mirrors_the_serial_port() {
    assert_eq!(shell_console(true, true, true), ShellConsole::Mirrored);
    assert_eq!(shell_console(true, true, false), ShellConsole::Serial);
    assert_eq!(shell_console(false, true, true), ShellConsole::Serial);
    assert_eq!(mirrored_bytes(ShellConsole::Mirrored, Some(3)), Some(3));
    assert_eq!(mirrored_bytes(ShellConsole::Mirrored, None), None);
    assert_eq!(mirrored_bytes(ShellConsole::Serial, Some(3)), None);
    assert!(clears_screen(b"\x1b[2J\x1b[H"));
    assert!(!clears_screen(b"\x1b[2J"));
    assert_eq!(platform_report(PlatformSource::Fixed), None);
    assert_eq!(
        platform_report(PlatformSource::Fdt),
        Some("platform discovery: FDT validated\n")
    );
    assert_eq!(
        platform_report(PlatformSource::Acpi),
        Some("platform discovery: ACPI validated\n")
    );
}

#[test]
fn the_entry_explains_a_missing_platform() {
    let fine = EntryReport { firmware: true, platform: true, source: true };
    assert_eq!(enter(fine), EntryNext::Prepare);
    assert_eq!(
        enter(EntryReport { firmware: false, ..fine }),
        EntryNext::Leave { status: EntryStatus::DeviceError, explain: false }
    );
    assert_eq!(
        enter(EntryReport { platform: false, ..fine }),
        EntryNext::Leave { status: EntryStatus::Aborted, explain: true }
    );
    assert_eq!(
        enter(EntryReport { source: false, ..fine }),
        EntryNext::Leave { status: EntryStatus::Aborted, explain: false }
    );
}

#[test]
fn the_machine_is_taken_over_step_by_step() {
    let mut stage = HandoffStage::ClearScreen;
    let mut steps = 1;
    let mut left = false;
    while let Some(next) = next_handoff_stage(stage) {
        if stage == HandoffStage::LeaveFirmware {
            left = true;
        }
        if left {
            assert!(matches!(handoff_failure(next), Some(HandoffFailure::Halt { .. })));
        }
        stage = next;
        steps += 1;
    }
    assert_eq!(stage, HandoffStage::SeedRandom);
    assert_eq!(steps, 25);
    assert_eq!(handoff_failure(HandoffStage::CaptureFramebuffer), None);
    assert_eq!(handoff_failure(HandoffStage::ReadWallClock), None);
    assert_eq!(
        handoff_failure(HandoffStage::LeaveFirmware),
        Some(HandoffFailure::ReturnToFirmware { reported: false })
    );
    assert_eq!(
        handoff_failure(HandoffStage::CaptureSeed),
        Some(HandoffFailure::ReturnToFirmware { reported: true })
    );
    assert_eq!(
        handoff_failure(HandoffStage::CheckStack),
        Some(HandoffFailure::Halt { level: false, stack: true })
    );
    assert_eq!(handoff_fatal(true, true), "fatal: unsupported firmware execution level\n");
    assert_eq!(handoff_fatal(false, true), "fatal: active stack is not kernel-owned\n");
    assert_eq!(handoff_fatal(false, false), "fatal: post-handoff initialization failed\n");
}

#[test]
fn the_null_page_is_never_handed_out() {
    let withheld = withheld_frames(None);
    assert_eq!(withheld.len(), 1);
    assert_eq!((withheld[0].start(), withheld[0].end()), (0, 4096));
    assert_eq!(withheld_frames(Some(pages(0x8000, 2)))[1], pages(0x8000, 2));
    assert!(stack_is_owned(pages(0x8000, 2), 0x8000));
    assert!(stack_is_owned(pages(0x8000, 2), 0x9fff));
    assert!(!stack_is_owned(pages(0x8000, 2), 0xa000));
}

#[test]
fn regions_are_classified() {
    let region = |kind, start, count| FirmwareRegion { kind, start, pages: count };
    let regions = vec![
        region(FirmwareKind::Conventional, 0x1000, 2),
        region(FirmwareKind::Other, 0x3000, 1),
        region(FirmwareKind::BootServicesData, 0x4000, 1),
    ];
    assert_eq!(
        classify_regions(&regions, 3).unwrap(),
        vec![(pages(0x1000, 2), true), (pages(0x3000, 1), false), (pages(0x4000, 1), true)]
    );
    assert!(classify_regions(&regions, 2).is_none());
    assert!(classify_regions(&vec![region(FirmwareKind::Other, 0x1001, 1)], 3).is_none());
}

#[test]
fn memory_is_mapped_around_the_framebuffer() {
    assert_eq!(framebuffer_device_range(0x40_1800, 0x1000), Some(pages(0x40_1000, 2)));
    assert_eq!(framebuffer_device_range(u64::MAX - 10, 0x1000), None);
    let boot = BootMemory::carve(0x100_0000).unwrap();
    let layout = KernelLayout {
        regions: vec![FirmwareRegion {
            kind: FirmwareKind::Conventional,
            start: 0x40_0000,
            pages: 8,
        }],
        boot,
        image: vec![(pages(0x20_0000, 2), Permissions::ReadExecute)],
        devices: vec![pages(0x9000_0000, 1)],
        framebuffer: Some((0x40_1800, 0x1000)),
    };
    let plan = build_mapping_plan(&layout, 64).unwrap();
    assert_eq!(plan.entries.len(), 2 + 7 + 1 + 1 + 1);
    assert_eq!(plan.entries[0].physical, pages(0x40_0000, 1));
    assert_eq!(plan.entries[1].physical, pages(0x40_3000, 5));
    assert_eq!(plan.entries[9].owner, MappingOwner::KernelImage);
    assert_eq!(plan.entries[11].memory_type, MemoryType::Device);
    for entry in &plan.entries {
        assert_eq!(entry.virtual_range, entry.physical);
        assert!(!entry.user);
    }
    assert!(build_mapping_plan(&layout, 11).is_none());
    let clash = KernelLayout { devices: vec![pages(0x20_1000, 1)], ..layout };
    assert!(build_mapping_plan(&clash, 64).is_none());
}

#[test]
fn services_end_after_their_yields() {
    let mut service = CooperativeService { remaining_yields: 2, completed_steps: 0 };
    assert_eq!(cooperative_service_step(&mut service), TaskStep::Yield);
    assert_eq!(cooperative_service_step(&mut service), TaskStep::Yield);
    assert_eq!(cooperative_service_step(&mut service), TaskStep::ExitSuccess);
    assert_eq!(service.completed_steps, 3);
    let mut tired = CooperativeService { remaining_yields: 0, completed_steps: 255 };
    assert_eq!(cooperative_service_step(&mut tired), TaskStep::ExitSuccess);
    assert_eq!(tired.completed_steps, 255);
    assert_eq!(after_task_step(TaskStep::Yield), TaskAction::Requeue);
    assert_eq!(after_task_step(TaskStep::ExitSuccess), TaskAction::Reap(0));
    assert_eq!(after_task_step(TaskStep::ExitFailure), TaskAction::Reap(1));
}

fn turn(run: &mut ServiceRun, who: Dispatched, slot: u32) -> ServiceAction {
    assert_eq!(
        run.observe(ServiceEvent::Dispatched(who)),
        ServiceAction::Step { who, slot }
    );
    run.observe(ServiceEvent::Entered)
}

#[test]
fn two_services_take_turns_and_a_third_reuses_a_stack() {
    let memory = BootMemory::carve(0x100_0000).unwrap();
    let mut run = ServiceRun::start(&memory);
    assert_eq!(run.observe(ServiceEvent::Done), ServiceAction::SpawnSecond);
    assert_eq!(run.observe(ServiceEvent::Done), ServiceAction::Dispatch);
    let mut strange = run;
    assert_eq!(
        strange.observe(ServiceEvent::Dispatched(Dispatched::Other)),
        ServiceAction::Failed
    );
    for _ in 0..2 {
        assert_eq!(turn(&mut run, Dispatched::First, 0), ServiceAction::Requeue);
        run.observe(ServiceEvent::Done);
        assert_eq!(turn(&mut run, Dispatched::Second, 1), ServiceAction::Requeue);
        run.observe(ServiceEvent::Done);
    }
    assert_eq!(turn(&mut run, Dispatched::First, 0), ServiceAction::Reap(0));
    let mut crooked = run;
    assert_eq!(
        crooked.observe(ServiceEvent::Reaped { slot: 0, status: 1 }),
        ServiceAction::Failed
    );
    assert_eq!(
        run.observe(ServiceEvent::Reaped { slot: 0, status: 0 }),
        ServiceAction::Dispatch
    );
    turn(&mut run, Dispatched::Second, 1);
    run.observe(ServiceEvent::Done);
    turn(&mut run, Dispatched::Second, 1);
    assert_eq!(
        run.observe(ServiceEvent::Reaped { slot: 1, status: 0 }),
        ServiceAction::Count
    );
    let totals = SchedulerTotals { yields: 5, reaped: 2, owned_stack_pages: 0 };
    let mut short = run;
    let four = SchedulerTotals { yields: 4, ..totals };
    assert_eq!(short.observe(ServiceEvent::Totals(four)), ServiceAction::Failed);
    assert_eq!(run.observe(ServiceEvent::Totals(totals)), ServiceAction::SpawnReused(0));
    run.observe(ServiceEvent::Done);
    assert_eq!(turn(&mut run, Dispatched::Reused, 0), ServiceAction::Reap(0));
    run.observe(ServiceEvent::Reaped { slot: 0, status: 0 });
    let end = SchedulerTotals { reaped: 3, ..totals };
    assert_eq!(run.observe(ServiceEvent::Totals(end)), ServiceAction::Passed);
}

#[test]
fn boot_reports_are_aligned() {
    let line = boot_status_line(b"memory", true);
    assert_eq!(line.len(), 54 + 8);
    assert!(line.starts_with(b" * memory ......"));
    assert!(line.ends_with(b". [ OK ]\n"));
    assert!(boot_status_line(b"memory", false).ends_with(b". [ ERR ]\n"));
    let long = [b'x'; 60];
    assert_eq!(boot_status_line(&long, true).len(), 64 + 8);
}

#[test]
fn boots_go_through_their_stages() {
    let count = |probes| {
        let mut stage = BootStage::ExecutionLevel;
        let mut n = 1;
        while let Some(next) = next_stage(stage, probes) {
            stage = next;
            n += 1;
        }
        n
    };
    assert_eq!(count(true), 16);
    assert_eq!(count(false), 15);
    assert_eq!(boot_failure(BootStage::ShellReturn), "fatal: shell task returned\n");
    assert!(block_count_allowed(8));
    assert!(!block_count_allowed(9));
    assert!(shell_is_accounted(7, Some(7), 32));
    assert!(!shell_is_accounted(7, Some(8), 32));
    assert!(!shell_is_accounted(7, None, 32));
    assert!(!shell_is_accounted(7, Some(7), 33));
    assert!(translation_is_usable(1, 1));
    assert!(!translation_is_usable(0, 1));
    assert!(seed_is_usable(&[0, 0, 1]));
    assert!(!seed_is_usable(&[0, 0, 0]));
    assert!(manifest_is_complete(10, 10, 10));
    assert!(!manifest_is_complete(10, 9, 10));
    assert!(!manifest_is_complete(11, 11, 10));
}

#[test]
fn host_arguments_choose_a_mode() {
    let parse = |words: &[&str]| {
        parse_arguments(&words.iter().map(|w| w.as_bytes().to_vec()).collect::<Vec<_>>())
    };
    assert!(matches!(parse(&[]), Ok(HostMode::Interactive)));
    assert!(matches!(parse(&["--command", "ls"]), Ok(HostMode::Command(1))));
    assert!(matches!(parse(&["--script", "a"]), Ok(HostMode::Script(1))));
    assert_eq!(parse(&["--command"]).err(), Some("usage: host-model --command 'COMMAND'"));
    assert_eq!(parse(&["--script", "a", "b"]).err(), Some("usage: host-model --script FILE"));
    assert_eq!(
        parse(&["-x"]).err(),
        Some("usage: host-model [--command 'COMMAND' | --script FILE]")
    );
}

#[test]
fn line_ends_are_trimmed_once() {
    let trim = |text: &[u8]| {
        let mut line = text.to_vec();
        trim_newline(&mut line);
        line
    };
    assert_eq!(trim(b"a\r\n"), b"a".to_vec());
    assert_eq!(trim(b"a\n\n"), b"a\n".to_vec());
    assert_eq!(trim(b"a\r"), b"a\r".to_vec());
    assert_eq!(trim(b"\r\n"), b"".to_vec());
    assert_eq!(trim(&trim(b"a\r\n")), b"a".to_vec());
}

#[test]
fn comments_and_empty_lines_do_not_run() {
    let runs = |text: &str| line_runs(&text.chars().collect());
    assert!(runs("  ls"));
    assert!(!runs("  # ls"));
    assert!(!runs(" \t\u{3000}"));
    assert!(!runs(""));
    for n in 0..0x3100_u32 {
        if let Some(c) = char::from_u32(n) {
            assert_eq!(is_white(c), c.is_whitespace());
        }
    }
}

#[test]
fn scripts_end_at_the_first_failure() {
    let mut run = ScriptRun::start();
    run.ran(0, false);
    assert_eq!(run, ScriptRun { last: 0, ended: false });
    run.ran(3, false);
    assert_eq!(run, ScriptRun { last: 3, ended: true });
    let mut stopped = ScriptRun::start();
    stopped.ran(0, true);
    assert_eq!(stopped, ScriptRun { last: 0, ended: true });
    assert_eq!(judge_line(0, 0, 10), LineVerdict::EndOfInput);
    assert_eq!(judge_line(12, 11, 10), LineVerdict::TooLong);
    assert_eq!(judge_line(11, 10, 10), LineVerdict::Run);
}

#[test]
fn decimals_read_back() {
    for number in [0, 7, 10, 99, 100, u64::MAX] {
        let mut out = Vec::new();
        append_decimal(&mut out, number);
        assert_eq!(String::from_utf8(out).unwrap().parse(), Ok(number));
    }
    let mut out = Vec::new();
    append_text(&mut out, "h\u{e9}");
    assert_eq!(out, vec![b'h', 0xc3, 0xa9]);
    assert!(is_text(&out, "h\u{e9}"));
    assert!(!is_text(&out, "h"));
    assert!(begins_with(&out, "h"));
    assert!(!begins_with(b"", "h"));
    assert!(same_bytes(b"ab", b"ab"));
    assert!(!same_bytes(b"ab", b"ac"));
}

#[test]
fn the_screen_shows_the_completed_boot() {
    let lines = replay_completed_boot(ShellConsole::Mirrored);
    assert_eq!(lines.len(), 3);
    assert!(lines[0].starts_with(b" * Initializing memory and protection ."));
    assert!(lines[1].starts_with(b" * Starting devices and input ."));
    assert!(lines[2].starts_with(b" * Starting task and application runtime ."));
    assert!(lines.iter().all(|line| line.ends_with(b". [ OK ]\n")));
    assert!(replay_completed_boot(ShellConsole::Serial).is_empty());
}
