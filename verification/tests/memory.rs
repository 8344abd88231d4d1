//! Frames, private mappings, heap growth, launch and teardown.

use troe::memory::extents::{append_extents, append_frame, count_pages, extent_slice};
use troe::memory::frames::{
    plan_private_tables, table_deficit, ExtentCollection, FrameTrouble, FrameWant, TableRun,
    TableStep,
};
use troe::memory::growth::{
    additional_table_pages, application_resource_totals, commit_heap_growth, plan_heap_growth,
    GrowthPlan,
};
use troe::memory::isolated::{
    build_isolated_plan, exit_call_parameters, isolated_program, prepare_isolated_memory, protect_code,
    split_isolated, Architecture, ExitCall, IsolationProbe, USER_CODE_BASE, USER_DATA_BASE,
    USER_STACK_BASE, USER_UNMAPPED_BASE,
};
use troe::memory::launch::{
    admit_launch, application_regions, build_application_plan, launch_tables_allowed,
    relocation_write, segment_logical_offset, segment_write_offset, split_launch_write, ImagePlan,
    LaunchCollection, PlanRefusal, Segment,
};
use troe::memory::pages::PageRange;
use troe::memory::plan::{MappingOwner, MappingPlan, MemoryType, PlannedMapping};
use troe::memory::private::call::{
    begin_private_call, private_address_reply, private_statistics_reply, AfterAccess, MapRequest,
    NeedRelease, NeedTables, PrivateNext, PrivatePayload, PrivateReply, PrivateRequest,
    ReplyTrouble,
};
use troe::memory::private::edit::{coalesce_private_mappings, split_private_mapping};
use troe::memory::private::gaps::{
    pick_private_range, plan_private_range, private_gap_slots, private_range_available,
    PlacementChoice, PlacementRequest,
};
use troe::memory::private::mapping::{
    private_permissions, Permissions, PrivateMapping, Protection,
};
use troe::memory::private::space::{
    private_heap_end, private_metadata_bytes, private_policy_allows, ApplicationMemory,
    PrivateFailure, PrivateLimits, PrivateMemory, SystemMemory,
};
use troe::memory::growing::{GrowthAction, GrowthEnd, GrowthEvent, GrowthRun};
use troe::memory::image::{image_writes, ImageWrite, Relocation, WriteSource};
use troe::memory::reserving::{ReserveRun, Reserving};
use troe::memory::native::releasing::ReleaseStep;
use troe::memory::teardown::{
    reclaim_accounting, reclaim_failure, rollback_failure, teardown_order, TeardownAction,
    TeardownPlan, TeardownRun,
};
use troe::reply::ReplyStatus;

fn pages(start: u64, count: u64) -> PageRange {
    PageRange::from_pages(start, count).unwrap()
}

fn limits() -> PrivateLimits {
    PrivateLimits {
        maximum_committed_pages: Some(100),
        maximum_reserved_pages: Some(64),
        maximum_mappings: 8,
        maximum_metadata_bytes: 4096,
        operation_quantum_pages: 4,
    }
}

fn system() -> SystemMemory {
    SystemMemory {
        private_metadata_bytes: 0,
        application_committed_pages: 10,
        global_metadata_limit: 8192,
        system_commit_limit: Some(1000),
        minimum_free_pages: 16,
    }
}

const HEAP: u64 = 0x10_0000;
const ARENA_END: u64 = 0x20_0000;

fn application() -> ApplicationMemory {
    ApplicationMemory {
        extent_pages: 10,
        table_pages: 8,
        heap_pages: 4,
        growth_ranges: Vec::new(),
        growth_table_frames: Vec::new(),
        private_memory: PrivateMemory::new(limits(), ARENA_END),
    }
}

fn mapping(start: u64, count: u64, protection: Protection) -> PrivateMapping {
    PrivateMapping { range: pages(start, count), protection, backing: Vec::new() }
}

#[test]
fn ranges_are_whole_representable_pages() {
    assert!(PageRange::from_pages(0x1001, 1).is_none());
    assert!(PageRange::from_pages(0x1000, 0).is_none());
    assert!(PageRange::from_pages(0xffff_ffff_ffff_f000, 1).is_none());
    let range = pages(0x3000, 2);
    assert_eq!((range.start(), range.end(), range.page_count()), (0x3000, 0x5000, 2));
    assert_eq!(range.part(1, 1), pages(0x4000, 1));
}

#[test]
fn touching_frames_are_joined() {
    let mut extents = Vec::new();
    append_frame(&mut extents, pages(0x1000, 1));
    append_frame(&mut extents, pages(0x2000, 1));
    append_frame(&mut extents, pages(0x8000, 1));
    assert_eq!(extents, vec![pages(0x1000, 2), pages(0x8000, 1)]);
    assert_eq!(count_pages(&extents), Some(3));
    append_extents(&mut extents, &vec![pages(0x9000, 2)]);
    assert_eq!(extents, vec![pages(0x1000, 2), pages(0x8000, 3)]);
}

#[test]
fn slices_of_extents_keep_their_frames() {
    let extents = vec![pages(0x1000, 2), pages(0x8000, 3)];
    assert_eq!(extent_slice(&extents, 1, 3).unwrap(), vec![pages(0x2000, 1), pages(0x8000, 2)]);
    assert!(extent_slice(&extents, 3, 3).is_none());
}

#[test]
fn collections_fall_back_to_single_frames() {
    assert_eq!(ExtentCollection::start(3, 0).err(), Some(PrivateFailure::Terminal));
    let collection = ExtentCollection::start(6, 4).unwrap();
    assert_eq!(collection.next_want(), FrameWant::Run(4));
    let collection = collection.take_run(pages(0x1000, 4));
    assert_eq!(collection.next_want(), FrameWant::Run(2));
    let collection = collection.run_refused();
    assert_eq!(collection.next_want(), FrameWant::Single);
    let collection = collection.take_frame(pages(0x5000, 1));
    let collection = collection.take_frame(pages(0x9000, 1));
    assert_eq!(collection.next_want(), FrameWant::Nothing);
    assert_eq!(collection.finish(), vec![pages(0x1000, 5), pages(0x9000, 1)]);
}

#[test]
fn abandoned_collections_hand_everything_back() {
    let collection = ExtentCollection::start(6, 4).unwrap().take_run(pages(0x1000, 4));
    let abandoned = collection.abandon(FrameTrouble::Exhausted, Some(pages(0x7000, 1)));
    assert_eq!(abandoned.extents, vec![pages(0x1000, 4)]);
    assert_eq!(abandoned.in_hand, Some(pages(0x7000, 1)));
    assert_eq!(abandoned.failure, PrivateFailure::Reply(ReplyStatus::Exhausted));
    assert_eq!(abandoned.verdict(true), PrivateFailure::Reply(ReplyStatus::Exhausted));
    assert_eq!(abandoned.verdict(false), PrivateFailure::Terminal);
    let broken = ExtentCollection::start(6, 4).unwrap().abandon(FrameTrouble::ZeroFailed, None);
    assert_eq!(broken.failure, PrivateFailure::Terminal);
}

#[test]
fn page_tables_are_taken_only_where_they_are_missing() {
    assert_eq!(table_deficit(8, 2, 9, 1), Some(0));
    assert_eq!(table_deficit(8, 2, 9, 3), Some(2));
    assert_eq!(table_deficit(8, 0, 9, 1), None);
    assert_eq!(plan_private_tables(8, 0, 8, 2, 20, 16), Ok(2));
    assert_eq!(
        plan_private_tables(8, 0, 8, 2, 17, 16),
        Err(PrivateFailure::Reply(ReplyStatus::Exhausted))
    );
}

#[test]
fn table_needs_count_crossed_boundaries() {
    assert_eq!(additional_table_pages(0x1000, 1), Some(0));
    assert_eq!(additional_table_pages(0x20_0000, 1), Some(1));
    assert_eq!(additional_table_pages(0x4000_0000, 1), Some(2));
    assert_eq!(additional_table_pages(0x1f_f000, 2), Some(1));
    assert_eq!(additional_table_pages(0, 1), None);
    assert_eq!(additional_table_pages(0x1000, 0), None);
}

#[test]
fn table_needs_add_up() {
    let whole = additional_table_pages(0x1f_0000, 1000).unwrap();
    let first = additional_table_pages(0x1f_0000, 300).unwrap();
    let second = additional_table_pages(0x1f_0000 + 300 * 4096, 700).unwrap();
    assert_eq!(whole, first + second);
}

#[test]
fn heaps_grow_within_their_limits() {
    let memory = application();
    assert_eq!(
        plan_heap_growth(&system(), &memory, HEAP, 64, 2, 4, 100),
        GrowthPlan::Grow { table_frames: 0, current_pages: 4 }
    );
    assert_eq!(plan_heap_growth(&system(), &memory, HEAP, 64, 61, 4, 1000), GrowthPlan::Exhausted);
    assert_eq!(plan_heap_growth(&system(), &memory, HEAP, 64, 2, 4, 17), GrowthPlan::Exhausted);
    assert_eq!(plan_heap_growth(&system(), &memory, HEAP, 3, 1, 4, 100), GrowthPlan::Inconsistent);
    assert_eq!(plan_heap_growth(&system(), &memory, HEAP, 64, 0, 4, 100), GrowthPlan::Exhausted);
}

#[test]
fn committed_growth_is_booked_and_torn_down() {
    let mut books = system();
    let mut memory = application();
    let bytes =
        commit_heap_growth(&mut books, &mut memory, 4, vec![pages(0x5000, 2)], vec![0x9000]);
    assert_eq!(bytes, Some(6 * 4096));
    assert_eq!(books.application_committed_pages, 12);
    assert_eq!(application_resource_totals(&memory, 10), Some((9, 12)));
    let plan = teardown_order(&memory, pages(0x2_0000, 8), &vec![pages(0x8_0000, 10)]);
    assert!(plan.whole);
    assert_eq!(
        plan.order,
        vec![pages(0x5000, 2), pages(0x9000, 1), pages(0x2_0000, 8), pages(0x8_0000, 10)]
    );
    assert!(reclaim_accounting(&mut books, &memory));
    assert_eq!(books, SystemMemory { application_committed_pages: 0, ..system() });
    let empty = &mut SystemMemory { application_committed_pages: 1, ..system() };
    assert!(!reclaim_accounting(empty, &memory));
}

#[test]
fn memory_is_zeroed_before_it_is_freed() {
    let plan = |order: Vec<PageRange>, whole| TeardownPlan { order, whole };
    let zero = |range| TeardownAction::Release(ReleaseStep::Zero(range));
    let free = |range| TeardownAction::Release(ReleaseStep::Free(range));
    let mut run = TeardownRun::start(plan(vec![pages(0x5000, 2), pages(0x9000, 1)], true));
    assert_eq!(run.doing, zero(pages(0x5000, 2)));
    assert_eq!(run.observe(true), free(pages(0x5000, 2)));
    assert_eq!(run.observe(true), zero(pages(0x9000, 1)));
    assert_eq!(run.observe(true), free(pages(0x9000, 1)));
    assert_eq!(run.observe(true), TeardownAction::Done);
    let mut stuck = TeardownRun::start(plan(vec![pages(0x5000, 2)], true));
    assert_eq!(stuck.observe(false), TeardownAction::Failed);
    assert_eq!(TeardownRun::start(plan(vec![], true)).doing, TeardownAction::Done);
}

#[test]
fn an_application_that_is_not_given_back_is_fatal() {
    assert_eq!(reclaim_failure(true), None);
    assert_eq!(
        reclaim_failure(false),
        Some("fatal: application reclaim invariant failed\n")
    );
    let rollback = Some("fatal: application rollback invariant failed\n");
    assert_eq!(rollback_failure(true, true), None);
    assert_eq!(rollback_failure(true, false), rollback);
    assert_eq!(rollback_failure(false, false), rollback);
}

#[test]
fn a_broken_table_frame_ends_the_teardown() {
    let mut books = system();
    let mut memory = application();
    commit_heap_growth(&mut books, &mut memory, 4, vec![pages(0x5000, 2)], vec![0x9000, 0x9001]);
    let plan = teardown_order(&memory, pages(0x2_0000, 8), &vec![pages(0x8_0000, 10)]);
    assert_eq!(plan.order, vec![pages(0x5000, 2), pages(0x9000, 1)]);
    assert!(!plan.whole);
    let mut run = TeardownRun::start(plan);
    while let TeardownAction::Release(_) = run.doing {
        run.observe(true);
    }
    assert_eq!(run.doing, TeardownAction::Failed);
    assert_eq!(run.release.freed, 2);
}

#[test]
fn heaps_grow_by_single_frames_where_there_is_no_run() {
    let mut books = system();
    let mut memory = application();
    let mut run = GrowthRun::start(2, 4, 1);
    let mut go = |run: &mut GrowthRun, event| run.observe(&mut books, &mut memory, event);
    assert_eq!(go(&mut run, GrowthEvent::Table(0x9000)), GrowthAction::TakeRun(2));
    assert_eq!(go(&mut run, GrowthEvent::Refused), GrowthAction::TakeFrame);
    let first = pages(0x5000, 1);
    assert_eq!(go(&mut run, GrowthEvent::Frames(first)), GrowthAction::ZeroFrame(first));
    assert_eq!(go(&mut run, GrowthEvent::Done), GrowthAction::TakeFrame);
    go(&mut run, GrowthEvent::Frames(pages(0x6000, 1)));
    assert_eq!(go(&mut run, GrowthEvent::Done), GrowthAction::Install);
    assert_eq!(go(&mut run, GrowthEvent::Done), GrowthAction::Committed(6 * 4096));
    assert_eq!(memory.growth_ranges, vec![pages(0x5000, 2)]);
    assert_eq!(memory.growth_table_frames, vec![0x9000]);
    assert_eq!(books.application_committed_pages, 12);
}

#[test]
fn refused_growth_gives_everything_back() {
    let mut books = system();
    let mut memory = application();
    let mut run = GrowthRun::start(2, 4, 1);
    let mut go = |run: &mut GrowthRun, event| run.observe(&mut books, &mut memory, event);
    go(&mut run, GrowthEvent::Table(0x9000));
    go(&mut run, GrowthEvent::Refused);
    let first = pages(0x5000, 1);
    go(&mut run, GrowthEvent::Frames(first));
    go(&mut run, GrowthEvent::Done);
    assert_eq!(go(&mut run, GrowthEvent::Refused), GrowthAction::ScrubRange(first));
    assert_eq!(go(&mut run, GrowthEvent::Done), GrowthAction::FreeRange(first));
    assert_eq!(go(&mut run, GrowthEvent::Done), GrowthAction::ScrubTable(0x9000));
    assert_eq!(go(&mut run, GrowthEvent::Done), GrowthAction::FreeTable(0x9000));
    assert_eq!(
        go(&mut run, GrowthEvent::Done),
        GrowthAction::Ended(GrowthEnd::Exhausted)
    );
    assert!(memory.growth_ranges.is_empty() && memory.growth_table_frames.is_empty());
    assert_eq!(books, system());
    let mut stuck = GrowthRun::start(1, 4, 1);
    stuck.observe(&mut books, &mut memory, GrowthEvent::Table(0x9000));
    let run_of_one = pages(0x5000, 1);
    stuck.observe(&mut books, &mut memory, GrowthEvent::Frames(run_of_one));
    assert_eq!(
        stuck.observe(&mut books, &mut memory, GrowthEvent::Failed),
        GrowthAction::GiveBack(run_of_one)
    );
    assert_eq!(
        stuck.observe(&mut books, &mut memory, GrowthEvent::Failed),
        GrowthAction::Ended(GrowthEnd::Failed)
    );
    assert_eq!(memory.growth_table_frames, vec![0x9000]);
}

#[test]
fn protections_have_permissions() {
    assert_eq!(private_permissions(Protection::NoAccess), None);
    assert_eq!(private_permissions(Protection::Read), Some(Permissions::ReadOnly));
    assert_eq!(private_permissions(Protection::ReadWrite), Some(Permissions::ReadWrite));
}

#[test]
fn gaps_count_aligned_placements() {
    assert_eq!(private_gap_slots(0x1000, 0x9000, 0x2000, 0x2000), Some((0x2000, 3)));
    assert_eq!(private_gap_slots(0x1000, 0x2000, 0x2000, 0x1000), None);
    assert_eq!(private_gap_slots(0x1000, 0x3000, 0x2000, 0x1000), Some((0x1000, 1)));
}

#[test]
fn hints_win_where_they_fit() {
    let mappings = vec![mapping(0x11_0000, 2, Protection::Read)];
    let free = PlacementRequest { page_count: 2, alignment_pages: 1, address_hint: 0x12_0000 };
    assert_eq!(
        plan_private_range(&mappings, ARENA_END, HEAP, free),
        PlacementChoice::Hinted(pages(0x12_0000, 2))
    );
    assert!(!private_range_available(&mappings, ARENA_END, HEAP, pages(0x11_1000, 2)));
    assert!(private_range_available(&mappings, ARENA_END, HEAP, pages(0x11_2000, 2)));
    let taken = PlacementRequest { address_hint: 0x11_1000, ..free };
    assert_eq!(
        plan_private_range(&mappings, ARENA_END, HEAP, taken),
        PlacementChoice::Draw(15 + 237)
    );
    let none = PlacementRequest { page_count: 300, alignment_pages: 1, address_hint: 0 };
    assert_eq!(
        plan_private_range(&mappings, ARENA_END, HEAP, none),
        PlacementChoice::Exhausted
    );
}

#[test]
fn drawn_slots_are_placements_in_order() {
    let mappings = vec![mapping(0x11_0000, 2, Protection::Read)];
    let request = PlacementRequest { page_count: 2, alignment_pages: 1, address_hint: 0 };
    assert_eq!(pick_private_range(&mappings, ARENA_END, HEAP, request, 0), pages(HEAP, 2));
    assert_eq!(pick_private_range(&mappings, ARENA_END, HEAP, request, 14), pages(0x10_e000, 2));
    assert_eq!(pick_private_range(&mappings, ARENA_END, HEAP, request, 15), pages(0x11_2000, 2));
    assert_eq!(
        pick_private_range(&mappings, ARENA_END, HEAP, request, 251),
        pages(ARENA_END - 0x2000, 2)
    );
}

#[test]
fn splits_change_only_the_request() {
    let whole = PrivateMapping {
        range: pages(0x11_0000, 4),
        protection: Protection::ReadWrite,
        backing: vec![pages(0x3000, 4)],
    };
    let split = split_private_mapping(&whole, pages(0x11_1000, 2), Some(Protection::Read));
    assert_eq!(split.replacements.len(), 3);
    assert_eq!(split.middle, 1);
    assert_eq!(split.replacements[1].range, pages(0x11_1000, 2));
    assert_eq!(split.replacements[1].protection, Protection::Read);
    assert_eq!(split.replacements[1].backing, vec![pages(0x4000, 2)]);
    assert_eq!(split.replacements[2].backing, vec![pages(0x6000, 1)]);
    let cut = split_private_mapping(&whole, pages(0x11_0000, 1), None);
    assert_eq!(cut.replacements.len(), 1);
    assert_eq!(cut.removed, vec![pages(0x3000, 1)]);
}

#[test]
fn equal_neighbours_are_joined() {
    let mut mappings = vec![
        mapping(0x11_0000, 1, Protection::NoAccess),
        mapping(0x11_1000, 2, Protection::NoAccess),
        mapping(0x11_4000, 1, Protection::NoAccess),
    ];
    coalesce_private_mappings(&mut mappings);
    assert_eq!(mappings.len(), 2);
    assert_eq!(mappings[0].range, pages(0x11_0000, 3));
    assert_eq!(private_metadata_bytes(&mappings), Some(96));
    let ranges: Vec<PageRange> = mappings.iter().map(|mapping| mapping.range).collect();
    coalesce_private_mappings(&mut mappings);
    let again: Vec<PageRange> = mappings.iter().map(|mapping| mapping.range).collect();
    assert_eq!(again, ranges);
}

#[test]
fn policies_bound_every_total() {
    let memory = application();
    let allowed = |reserved, committed, mappings, metadata| {
        private_policy_allows(&system(), &memory, reserved, committed, mappings, metadata)
    };
    let refused = Err(PrivateFailure::Reply(ReplyStatus::ResourceLimit));
    assert_eq!(allowed(64, 90, 8, 4096), Ok(()));
    assert_eq!(allowed(65, 0, 1, 48), refused);
    assert_eq!(allowed(1, 91, 1, 48), refused);
    assert_eq!(allowed(1, 0, 9, 48), refused);
    assert_eq!(allowed(1, 0, 1, 4097), refused);
    assert_eq!(private_heap_end(&memory, HEAP), Ok(HEAP + 4 * 4096));
}

#[test]
fn queries_report_statistics() {
    let books = system();
    let memory = application();
    let next = begin_private_call(
        &books,
        &memory,
        HEAP,
        100,
        PrivateRequest::Query { payload_bytes: 0 },
    );
    match next {
        PrivateNext::Done(PrivateReply { payload: PrivatePayload::Statistics(s), .. }) => {
            assert_eq!(s.maximum_reserved_pages, 64);
            assert_eq!(s.mappings, 0);
        },
        _ => panic!("statistics expected"),
    }
    let refused = begin_private_call(
        &books,
        &memory,
        HEAP,
        100,
        PrivateRequest::Query { payload_bytes: 1 },
    );
    assert!(matches!(
        refused,
        PrivateNext::Failed(PrivateFailure::Reply(ReplyStatus::InvalidRequest))
    ));
}

fn placed(hint: u64, page_count: u64) -> PlacementRequest {
    PlacementRequest { page_count, alignment_pages: 1, address_hint: hint }
}

fn with_room(
    books: &mut SystemMemory,
    memory: &mut ApplicationMemory,
    request: PrivateRequest,
) -> PrivateNext {
    match begin_private_call(books, memory, HEAP, 100, request) {
        PrivateNext::Room(need) => need.ask(books, memory, 100),
        next => next,
    }
}

fn map_two_pages(books: &mut SystemMemory, memory: &mut ApplicationMemory) -> u64 {
    let request =
        MapRequest { placement: placed(0x15_0000, 2), protection: Protection::ReadWrite };
    let need = match with_room(books, memory, PrivateRequest::MapZeroed(request)) {
        PrivateNext::Back(need) => need,
        _ => panic!("frames expected"),
    };
    assert_eq!(need.pages, 2);
    let tables = match need.backed(books, memory, Ok(vec![pages(0x3000, 2)])) {
        PrivateNext::Tables(tables) => tables,
        _ => panic!("tables expected"),
    };
    let access = match tables.ready(books, memory, Vec::new(), None) {
        PrivateNext::Access(access) => access,
        _ => panic!("mapping expected"),
    };
    assert_eq!(access.permissions, Some(Permissions::ReadWrite));
    assert!(matches!(access.after, AfterAccess::Fresh { .. }));
    match access.changed(books, memory, true) {
        PrivateNext::Done(PrivateReply { payload: PrivatePayload::Address(at), .. }) => at,
        _ => panic!("address expected"),
    }
}

fn unmap_until_release(books: &mut SystemMemory, memory: &mut ApplicationMemory) -> NeedRelease {
    let unmap = PrivateRequest::Unmap { address: 0x15_0000, page_count: 2 };
    let access = match with_room(books, memory, unmap) {
        PrivateNext::Access(access) => access,
        _ => panic!("unmapping expected"),
    };
    assert_eq!(access.permissions, None);
    match access.changed(books, memory, true) {
        PrivateNext::Release(release) => release,
        _ => panic!("release expected"),
    }
}

#[test]
fn replies_need_their_bytes() {
    assert!(matches!(
        private_address_reply(0x15_0000, None),
        Ok(PrivatePayload::Address(0x15_0000))
    ));
    assert!(matches!(
        private_address_reply(0x15_0000, Some(ReplyTrouble::NotEncoded)),
        Err(PrivateFailure::Terminal)
    ));
    assert!(matches!(
        private_address_reply(0x15_0000, Some(ReplyTrouble::NotOwned)),
        Err(PrivateFailure::Reply(ReplyStatus::Exhausted))
    ));
    let counters = application().private_memory.statistics();
    assert!(matches!(
        private_statistics_reply(counters, None),
        Ok(PrivatePayload::Statistics(s)) if s.reserved_pages == 0
    ));
    assert!(matches!(
        private_statistics_reply(counters, Some(ReplyTrouble::NotOwned)),
        Err(PrivateFailure::Reply(ReplyStatus::Exhausted))
    ));
}

#[test]
fn mapped_pages_are_booked_and_unmapped_again() {
    let mut books = system();
    let mut memory = application();
    assert_eq!(map_two_pages(&mut books, &mut memory), 0x15_0000);
    assert_eq!(memory.private_memory.mappings.len(), 1);
    assert_eq!(memory.private_memory.committed_pages, 2);
    assert_eq!(memory.private_memory.metadata_bytes, 64);
    assert_eq!(books.application_committed_pages, 12);
    let release = unmap_until_release(&mut books, &mut memory);
    assert_eq!(release.extents, vec![pages(0x3000, 2)]);
    assert_eq!(books.application_committed_pages, 12);
    let next = release.released(&mut books, &mut memory, true);
    assert!(matches!(next, PrivateNext::Done(PrivateReply { resources_changed: true, .. })));
    assert_eq!(memory.private_memory.mappings.len(), 0);
    assert_eq!(books.application_committed_pages, 10);
    assert_eq!(memory.private_memory.high_water_reserved_pages, 2);
    assert_eq!(memory.private_memory.high_water_committed_pages, 2);
    assert_eq!(memory.private_memory.high_water_mappings, 1);
    assert_eq!(memory.private_memory.high_water_metadata_bytes, 64);
    match begin_private_call(&books, &memory, HEAP, 100, PrivateRequest::Query { payload_bytes: 0 }) {
        PrivateNext::Done(PrivateReply { payload: PrivatePayload::Statistics(s), .. }) => {
            assert_eq!(s.high_water_metadata_bytes, 64);
            assert_eq!(s.reserved_pages, 0);
        },
        _ => panic!("statistics expected"),
    }
}

#[test]
fn pages_stay_charged_where_their_frames_are_not_released() {
    let mut books = system();
    let mut memory = application();
    map_two_pages(&mut books, &mut memory);
    let release = unmap_until_release(&mut books, &mut memory);
    let next = release.released(&mut books, &mut memory, false);
    assert!(matches!(next, PrivateNext::Failed(PrivateFailure::Terminal)));
    assert_eq!(memory.private_memory.mappings.len(), 0);
    assert_eq!(memory.private_memory.committed_pages, 2);
    assert_eq!(books.application_committed_pages, 12);
}

#[test]
fn metadata_stays_booked_where_pages_cannot_be() {
    let mut books = system();
    let mut memory = application();
    map_two_pages(&mut books, &mut memory);
    let charged = books.private_metadata_bytes;
    let release = unmap_until_release(&mut books, &mut memory);
    books.application_committed_pages = 1;
    let next = release.released(&mut books, &mut memory, true);
    assert!(matches!(next, PrivateNext::Failed(PrivateFailure::Terminal)));
    assert_eq!(books.private_metadata_bytes, charged - 64);
    assert_eq!(books.application_committed_pages, 1);
    assert_eq!(memory.private_memory.committed_pages, 2);
}

#[test]
fn reserved_pages_are_backed_when_they_get_access() {
    let mut books = system();
    let mut memory = application();
    let request = MapRequest { placement: placed(0x15_0000, 4), protection: Protection::NoAccess };
    let next = with_room(&mut books, &mut memory, PrivateRequest::Reserve(request));
    assert!(matches!(
        next,
        PrivateNext::Done(PrivateReply { payload: PrivatePayload::Address(0x15_0000), .. })
    ));
    assert_eq!(memory.private_memory.metadata_bytes, 48);
    let protect = PrivateRequest::Protect {
        address: 0x15_1000,
        page_count: 2,
        protection: Protection::Read,
    };
    let need = match begin_private_call(&books, &memory, HEAP, 100, protect) {
        PrivateNext::Back(need) => need,
        _ => panic!("frames expected"),
    };
    let room = match need.backed(&mut books, &mut memory, Ok(vec![pages(0x3000, 2)])) {
        PrivateNext::Room(room) => room,
        _ => panic!("room expected"),
    };
    assert_eq!(room.additional, 2);
    let tables = match room.answered(&mut books, &mut memory, 100, true) {
        PrivateNext::Tables(tables) => tables,
        _ => panic!("tables expected"),
    };
    let access = match tables.ready(&mut books, &mut memory, vec![7], None) {
        PrivateNext::Access(access) => access,
        _ => panic!("mapping expected"),
    };
    assert_eq!(access.extents, vec![pages(0x3000, 2)]);
    assert!(!access.installed);
    let next = access.changed(&mut books, &mut memory, true);
    assert!(matches!(next, PrivateNext::Done(PrivateReply { resources_changed: true, .. })));
    assert_eq!(memory.private_memory.mappings.len(), 3);
    assert_eq!(memory.private_memory.mappings[1].protection, Protection::Read);
    assert_eq!(memory.private_memory.metadata_bytes, 3 * 48 + 16);
    assert_eq!(memory.private_memory.committed_pages, 2);
    assert_eq!(memory.growth_table_frames, vec![7]);
}

fn map_until_tables(books: &mut SystemMemory, memory: &mut ApplicationMemory) -> NeedTables {
    let request =
        MapRequest { placement: placed(0x15_0000, 2), protection: Protection::ReadWrite };
    let need = match with_room(books, memory, PrivateRequest::MapZeroed(request)) {
        PrivateNext::Back(need) => need,
        _ => panic!("frames expected"),
    };
    match need.backed(books, memory, Ok(vec![pages(0x3000, 2)])) {
        PrivateNext::Tables(tables) => tables,
        _ => panic!("tables expected"),
    }
}

#[test]
fn a_refused_mapping_gives_its_page_tables_back_one_by_one() {
    let mut books = system();
    let mut memory = application();
    memory.growth_table_frames = vec![0x9000];
    let tables = map_until_tables(&mut books, &mut memory);
    books.system_commit_limit = Some(books.application_committed_pages);
    let frames = vec![0xa000, 0xb000];
    let release = match tables.ready(&mut books, &mut memory, frames, None) {
        PrivateNext::Release(release) => release,
        _ => panic!("release expected"),
    };
    assert_eq!(release.extents, vec![pages(0x3000, 2)]);
    assert_eq!(memory.growth_table_frames, vec![0x9000, 0xa000, 0xb000]);
    let free = match release.released(&mut books, &mut memory, true) {
        PrivateNext::Free(free) => free,
        _ => panic!("table frame expected"),
    };
    assert_eq!(free.frame, 0xb000);
    assert_eq!(memory.growth_table_frames, vec![0x9000, 0xa000]);
    let free = match free.freed(&mut memory, true) {
        PrivateNext::Free(free) => free,
        _ => panic!("table frame expected"),
    };
    assert_eq!(free.frame, 0xa000);
    let next = free.freed(&mut memory, true);
    let limit = PrivateFailure::Reply(ReplyStatus::ResourceLimit);
    assert!(matches!(next, PrivateNext::Failed(failure) if failure == limit));
    assert_eq!(memory.growth_table_frames, vec![0x9000]);
    assert_eq!(memory.private_memory.mappings.len(), 0);
}

#[test]
fn page_tables_stay_where_extents_are_not_released() {
    let mut books = system();
    let mut memory = application();
    let tables = map_until_tables(&mut books, &mut memory);
    books.system_commit_limit = Some(books.application_committed_pages);
    let release = match tables.ready(&mut books, &mut memory, vec![0xa000], None) {
        PrivateNext::Release(release) => release,
        _ => panic!("release expected"),
    };
    let next = release.released(&mut books, &mut memory, false);
    assert!(matches!(next, PrivateNext::Failed(PrivateFailure::Terminal)));
    assert_eq!(memory.growth_table_frames, vec![0xa000]);
}

#[test]
fn missing_page_tables_release_the_frames() {
    let mut books = system();
    let mut memory = application();
    let tables = map_until_tables(&mut books, &mut memory);
    let full = PrivateFailure::Reply(ReplyStatus::Exhausted);
    let release = match tables.ready(&mut books, &mut memory, Vec::new(), Some(full)) {
        PrivateNext::Release(release) => release,
        _ => panic!("release expected"),
    };
    assert_eq!(release.extents, vec![pages(0x3000, 2)]);
    let next = release.released(&mut books, &mut memory, true);
    assert!(matches!(next, PrivateNext::Failed(failure) if failure == full));
    assert!(memory.growth_table_frames.is_empty());
}

#[test]
fn a_failed_change_gives_its_page_tables_back_before_its_frames() {
    let mut books = system();
    let mut memory = application();
    let request = MapRequest { placement: placed(0x15_0000, 4), protection: Protection::NoAccess };
    with_room(&mut books, &mut memory, PrivateRequest::Reserve(request));
    let protect = PrivateRequest::Protect {
        address: 0x15_1000,
        page_count: 2,
        protection: Protection::Read,
    };
    let need = match begin_private_call(&books, &memory, HEAP, 100, protect) {
        PrivateNext::Back(need) => need,
        _ => panic!("frames expected"),
    };
    let room = match need.backed(&mut books, &mut memory, Ok(vec![pages(0x3000, 2)])) {
        PrivateNext::Room(room) => room,
        _ => panic!("room expected"),
    };
    let tables = match room.answered(&mut books, &mut memory, 100, true) {
        PrivateNext::Tables(tables) => tables,
        _ => panic!("tables expected"),
    };
    let access = match tables.ready(&mut books, &mut memory, vec![0xa000], None) {
        PrivateNext::Access(access) => access,
        _ => panic!("mapping expected"),
    };
    let free = match access.changed(&mut books, &mut memory, false) {
        PrivateNext::Free(free) => free,
        _ => panic!("table frame expected"),
    };
    assert_eq!(free.frame, 0xa000);
    assert!(memory.growth_table_frames.is_empty());
    let release = match free.freed(&mut memory, true) {
        PrivateNext::Release(release) => release,
        _ => panic!("release expected"),
    };
    assert_eq!(release.extents, vec![pages(0x3000, 2)]);
    let next = release.released(&mut books, &mut memory, true);
    assert!(matches!(next, PrivateNext::Failed(PrivateFailure::Terminal)));
    assert_eq!(memory.private_memory.mappings.len(), 1);
}

#[test]
fn page_table_frames_are_all_taken_or_none() {
    assert_eq!(TableRun::start(0).doing, TableStep::Ready);
    let mut run = TableRun::start(3);
    assert_eq!(run.doing, TableStep::Take);
    run.took(0x1000);
    run.took(0x2000);
    assert_eq!(run.doing, TableStep::Take);
    run.refused();
    assert_eq!(run.doing, TableStep::Free(0x2000));
    run.freed(true);
    assert_eq!(run.doing, TableStep::Free(0x1000));
    run.freed(true);
    let full = PrivateFailure::Reply(ReplyStatus::Exhausted);
    assert_eq!(run.doing, TableStep::Failed(full));
    assert!(run.frames.is_empty());
    let mut stuck = TableRun::start(3);
    stuck.took(0x1000);
    stuck.took(0x2000);
    stuck.refused();
    stuck.freed(false);
    assert_eq!(stuck.doing, TableStep::Failed(PrivateFailure::Terminal));
    assert_eq!(stuck.frames, vec![0x1000]);
    let mut whole = TableRun::start(1);
    whole.took(0x1000);
    assert_eq!(whole.doing, TableStep::Ready);
    assert_eq!(whole.frames, vec![0x1000]);
}

#[test]
fn changes_need_room_for_their_records() {
    let mut books = system();
    let mut memory = application();
    let request =
        MapRequest { placement: placed(0x15_0000, 2), protection: Protection::ReadWrite };
    let map = PrivateRequest::MapZeroed(request);
    let room = match begin_private_call(&books, &memory, HEAP, 100, map) {
        PrivateNext::Room(room) => room,
        _ => panic!("room expected"),
    };
    let full = PrivateFailure::Reply(ReplyStatus::Exhausted);
    let next = room.answered(&mut books, &mut memory, 100, false);
    assert!(matches!(next, PrivateNext::Failed(failure) if failure == full));
    map_two_pages(&mut books, &mut memory);
    let unmap = PrivateRequest::Unmap { address: 0x15_0000, page_count: 1 };
    let room = match begin_private_call(&books, &memory, HEAP, 100, unmap) {
        PrivateNext::Room(room) => room,
        _ => panic!("room expected"),
    };
    assert_eq!(room.additional, 0);
    let next = room.answered(&mut books, &mut memory, 100, false);
    assert!(matches!(next, PrivateNext::Failed(failure) if failure == full));
    assert_eq!(memory.private_memory.mappings.len(), 1);
    let hide = PrivateRequest::Protect {
        address: 0x15_0000,
        page_count: 1,
        protection: Protection::NoAccess,
    };
    let access = match with_room(&mut books, &mut memory, hide) {
        PrivateNext::Access(access) => access,
        _ => panic!("hiding expected"),
    };
    assert_eq!(access.permissions, None);
    assert!(access.installed);
    let next = access.changed(&mut books, &mut memory, true);
    assert!(matches!(next, PrivateNext::Done(PrivateReply { resources_changed: false, .. })));
    assert_eq!(memory.private_memory.mappings.len(), 2);
}

#[test]
fn a_failed_mapping_is_terminal() {
    let mut books = system();
    let mut memory = application();
    map_two_pages(&mut books, &mut memory);
    let unmap = PrivateRequest::Unmap { address: 0x15_0000, page_count: 2 };
    let access = match with_room(&mut books, &mut memory, unmap) {
        PrivateNext::Access(access) => access,
        _ => panic!("unmapping expected"),
    };
    let next = access.changed(&mut books, &mut memory, false);
    assert!(matches!(next, PrivateNext::Failed(PrivateFailure::Terminal)));
}

#[test]
fn foreign_ranges_cannot_be_unmapped() {
    let unmap = PrivateRequest::Unmap { address: 0x15_0000, page_count: 1 };
    assert!(matches!(
        begin_private_call(&system(), &application(), HEAP, 100, unmap),
        PrivateNext::Failed(PrivateFailure::Reply(ReplyStatus::NotFound))
    ));
}

#[test]
fn launches_collect_runs_and_halve_on_refusal() {
    assert!(LaunchCollection::start(0, 4, true).is_none());
    let collection = LaunchCollection::start(6, 4, true).unwrap();
    assert_eq!(collection.next_run(), 4);
    let collection = collection.refused().unwrap();
    assert_eq!(collection.next_run(), 2);
    let collection = collection.granted(pages(0x1000, 2)).unwrap();
    let collection = collection.granted(pages(0x3000, 2)).unwrap();
    let collection = collection.granted(pages(0x9000, 2)).unwrap();
    assert_eq!(collection.finish(), vec![pages(0x1000, 4), pages(0x9000, 2)]);
}

fn segments() -> Vec<Segment> {
    vec![
        Segment {
            image_offset: 0,
            memory_bytes: 0x2000,
            virtual_address: 0x40_0000,
            permissions: Permissions::ReadExecute,
        },
        Segment {
            image_offset: 0x2000,
            memory_bytes: 0x1000,
            virtual_address: 0x40_2000,
            permissions: Permissions::ReadWrite,
        },
    ]
}

#[test]
fn segments_lie_behind_one_another() {
    assert_eq!(segment_logical_offset(&segments(), 0), Some(0));
    assert_eq!(segment_logical_offset(&segments(), 1), Some(0x2000));
    assert_eq!(segment_logical_offset(&segments(), 2), None);
    assert_eq!(segment_write_offset(&segments(), 1, 8, 16), Some(0x2008));
}

#[test]
fn relocations_stay_inside_a_segment() {
    assert_eq!(
        relocation_write(&segments(), 0x40_0000, 0x2010, 0x20),
        Some((0x2010, 0x40_0020))
    );
    assert_eq!(relocation_write(&segments(), 0x40_0000, 0x1ffc, 0x20), None);
    assert_eq!(relocation_write(&segments(), u64::MAX, 0x2010, 0x20), None);
}

#[test]
fn writes_are_split_at_extent_boundaries() {
    let extents = vec![pages(0x1000, 1), pages(0x9000, 1)];
    let chunks = split_launch_write(&extents, 0xff8, 16).unwrap();
    assert_eq!(chunks.len(), 2);
    assert_eq!((chunks[0].extent, chunks[0].within, chunks[0].count), (extents[0], 0xff8, 8));
    assert_eq!((chunks[1].extent, chunks[1].within, chunks[1].count), (extents[1], 0, 8));
    assert!(split_launch_write(&extents, 0x1ff8, 16).is_none());
}

#[test]
fn launches_respect_every_limit() {
    assert_eq!(admit_launch(&system(), Some(50), 50, 100), Some(60));
    assert_eq!(admit_launch(&system(), Some(49), 50, 100), None);
    assert_eq!(admit_launch(&system(), None, 991, 10_000), None);
    assert_eq!(admit_launch(&system(), None, 50, 65), None);
    assert!(launch_tables_allowed(&system(), 4, 20));
    assert!(!launch_tables_allowed(&system(), 5, 20));
}

fn image() -> ImagePlan {
    ImagePlan {
        segments: segments(),
        image_pages: 3,
        heap_pages: 1,
        stack_pages: 1,
        startup_address: 0x50_0000,
        heap_address: 0x60_0000,
        stack_bottom: 0x70_0000,
    }
}

fn kernel_mapping(start: u64, count: u64) -> PlannedMapping {
    PlannedMapping {
        virtual_range: pages(start, count),
        physical: pages(start, count),
        permissions: Permissions::ReadWrite,
        memory_type: MemoryType::Normal,
        owner: MappingOwner::KernelRuntime,
        user: false,
    }
}

#[test]
fn application_regions_fill_the_extents() {
    let regions = application_regions(&image(), 6).unwrap();
    assert_eq!(regions.len(), 5);
    assert_eq!(regions[0].virtual_start, 0x40_0000);
    assert_eq!((regions[0].start_page, regions[0].page_count), (0, 2));
    assert_eq!(regions.iter().map(|r| r.page_count).sum::<u64>(), 6);
    assert!(application_regions(&image(), 7).is_none());
}

#[test]
fn application_plans_keep_code_and_data_apart() {
    let mut kernel = MappingPlan::new(32);
    assert!(kernel.insert(kernel_mapping(0x10_0000, 16)));
    let extents = vec![pages(0x80_0000, 6)];
    let plan =
        build_application_plan(&kernel, pages(0x10_0000, 16), &extents, 6, &image()).unwrap();
    assert!(plan.enforces_write_xor_execute());
    assert_eq!(plan.entries.len(), 6);
    assert!(plan.entries[1].user);
    let mut full = MappingPlan::new(3);
    assert!(full.insert(kernel_mapping(0x10_0000, 16)));
    assert_eq!(
        build_application_plan(&full, pages(0x10_0000, 16), &extents, 6, &image()).err(),
        Some(PlanRefusal::DoesNotFit)
    );
}

#[test]
fn images_are_written_segment_by_segment() {
    let relocation = Relocation { target_offset: 0x2010, value_offset: 0x20 };
    let writes = image_writes(&segments(), &vec![0x1800, 0x20], 3, 0x40_0000, &vec![relocation]);
    assert_eq!(
        writes.unwrap(),
        vec![
            ImageWrite { logical: 0, source: WriteSource::Payload(0) },
            ImageWrite { logical: 0x2000, source: WriteSource::Payload(1) },
            ImageWrite { logical: 0x2010, source: WriteSource::Value(0x40_0020) },
        ]
    );
    assert!(image_writes(&segments(), &vec![0x2001, 0], 3, 0, &vec![]).is_none());
    assert!(image_writes(&segments(), &vec![0, 0], 4, 0, &vec![]).is_none());
    let astray = Relocation { target_offset: 0x1ffc, value_offset: 0 };
    assert!(image_writes(&segments(), &vec![0, 0], 3, 0, &vec![astray]).is_none());
}

#[test]
fn reservations_are_booked_last() {
    let mut kernel = MappingPlan::new(32);
    assert!(kernel.insert(kernel_mapping(0x10_0000, 16)));
    let runtime = pages(0x10_0000, 16);
    let mut books = system();
    assert!(ReserveRun::start(&books, Some(5), 6, 100, 4, true).is_none());
    let start = || ReserveRun::start(&system(), None, 6, 100, 4, true).unwrap();
    let run = start().took(pages(0x80_0000, 4)).zeroed();
    assert!(matches!(run.doing, Reserving::Take(_)));
    let run = run.refused().took(pages(0x80_4000, 1)).zeroed().took(pages(0x80_5000, 1)).zeroed();
    let run = run.plan(&kernel, runtime, &image());
    assert!(matches!(run.doing, Reserving::CountTables(_, _)));
    let run = run.counted(&books, Some(4), 20);
    let tables = pages(0x90_0000, 4);
    match run.took_tables(&mut books, Some(tables)).doing {
        Reserving::Reserved(extents, plan, taken) => {
            assert_eq!(extents, vec![pages(0x80_0000, 6)]);
            assert_eq!(plan.entries.len(), 6);
            assert_eq!(taken, tables);
        }
        _ => panic!("reservation expected"),
    }
    assert_eq!(books.application_committed_pages, 16);
    let failed = start().took(pages(0x80_0000, 4)).zeroed().took(pages(0x90_0000, 2)).zero_failed();
    let failed = failed.gave_back(true);
    assert!(matches!(failed.doing, Reserving::Release(_, 0)));
    assert!(matches!(failed.released(true).doing, Reserving::Failed));
    assert!(matches!(start().refused().refused().refused().doing, Reserving::Failed));
}

#[test]
fn plans_refuse_overlaps() {
    let mut plan = MappingPlan::new(4);
    assert!(plan.insert(kernel_mapping(0x1000, 2)));
    assert!(!plan.insert(kernel_mapping(0x2000, 2)));
    assert!(plan.insert(kernel_mapping(0x3000, 1)));
    let code = PlannedMapping {
        permissions: Permissions::ReadExecute,
        virtual_range: pages(0x9000, 1),
        physical: pages(0x3000, 1),
        ..kernel_mapping(0x3000, 1)
    };
    assert!(plan.enforces_write_xor_execute());
    assert!(plan.insert(code));
    assert!(!plan.enforces_write_xor_execute());
}

#[test]
fn isolated_allocations_are_cut_in_order() {
    assert!(split_isolated(pages(0x100_0000, 517)).is_none());
    let parts = split_isolated(pages(0x100_0000, 518)).unwrap();
    assert_eq!(parts.tables, pages(0x100_0000, 512));
    assert_eq!(parts.code, pages(0x120_0000, 1));
    assert_eq!(parts.stack, pages(0x120_2000, 4));
}

#[test]
fn isolated_plans_protect_their_code() {
    let parts = split_isolated(pages(0x100_0000, 518)).unwrap();
    let mut kernel = MappingPlan::new(16);
    assert!(kernel.insert(kernel_mapping(0x100_0000, 1024)));
    let plan = build_isolated_plan(&kernel, &parts).unwrap();
    assert_eq!(plan.entries.len(), 6);
    assert_eq!(plan.entries[1].permissions, Permissions::ReadOnly);
    assert_eq!(plan.entries[1].physical, parts.code);
    assert_eq!(plan.entries[3].virtual_range.start(), USER_CODE_BASE);
    assert_eq!(plan.entries[4].virtual_range.start(), USER_DATA_BASE);
    assert_eq!(plan.entries[5].virtual_range.start(), USER_STACK_BASE);
    let cut = protect_code(kernel_mapping(0x100_0000, 1024), parts.code);
    assert_eq!(cut.len(), 3);
    let empty = MappingPlan::new(16);
    assert_eq!(build_isolated_plan(&empty, &parts).err(), Some(PlanRefusal::DoesNotFit));
}

#[test]
fn isolation_programs_make_their_calls() {
    let good = ExitCall { opcode: 1, address: USER_DATA_BASE, length: 21, status: 0 };
    let call = |probe| exit_call_parameters(probe, Architecture::X86_64, 5000);
    assert_eq!(call(IsolationProbe::Success), Some(good));
    assert_eq!(call(IsolationProbe::InvalidOpcode), Some(ExitCall { opcode: 99, ..good }));
    assert_eq!(
        call(IsolationProbe::InvalidPointer),
        Some(ExitCall { address: USER_UNMAPPED_BASE, ..good })
    );
    assert_eq!(call(IsolationProbe::OversizeMessage), Some(ExitCall { length: 5000, ..good }));
    assert_eq!(call(IsolationProbe::Translation), None);
    let memory = prepare_isolated_memory(IsolationProbe::InvalidStatus, Architecture::X86_64, 0);
    assert_eq!(memory.data, b"stage6 copied request");
    let memory = prepare_isolated_memory(IsolationProbe::Translation, Architecture::Aarch64, 0);
    assert!(memory.data.is_empty());
    assert_eq!(memory.code.len(), 24);
    let code = isolated_program(IsolationProbe::IllegalInstruction, Architecture::X86_64, 0);
    assert_eq!(code, vec![0x0f, 0x0b, 0x0f, 0x0b]);
    let write = isolated_program(IsolationProbe::WritePermission, Architecture::X86_64, 0);
    assert_eq!(
        write,
        vec![0x48, 0xb8, 0, 0, 0, 0, 0, 0x40, 0, 0, 0xc6, 0x00, 0x00, 0x0f, 0x0b]
    );
}

#[test]
fn room_for_records_changes_no_mapping() {
    let mut memory = PrivateMemory::new(limits(), ARENA_END);
    assert!(memory.make_room(4));
    assert!(memory.mappings.is_empty());
    assert!(!memory.make_room(usize::MAX));
}
