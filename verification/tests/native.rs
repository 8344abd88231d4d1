//! Native processes: loading, workers, heap growth and teardown.

use troe::memory::isolated::Architecture;
use troe::memory::launch::{PlanRefusal, Segment};
use troe::memory::native::execution::{copy_handle_request, may_publish, HeldCall};
use troe::memory::native::heap::{HeapAction, HeapEvent, HeapRun, HeapVerdict};
use troe::memory::native::load::{
    build_native_plan, executable_ranges, owned_metadata_bytes, NativeImage, OwnerSizes,
    ProcessRegion,
};
use troe::memory::native::loading::{
    LoadAction, LoadEvent, LoadPart, LoadRequest, LoadRun, NativeLoadError,
};
use troe::memory::native::prepare::{receipt_matches, worker_descriptor};
use troe::memory::native::preparing::{PrepareAction, PrepareEvent, PrepareRun, WorkerPart};
use troe::memory::native::reclaiming::{ReclaimAction, ReclaimRun};
use troe::memory::native::releasing::ReleaseStep;
use troe::memory::native::retiring::{RetireAction, RetireEvent, RetireRun};
use troe::memory::native::{
    NativeLimits, NativeProcess, NativeThread, PrepareFailure, ProcessPolicy, ThreadBudget,
    ThreadKey, ThreadWindow,
};
use troe::memory::pages::PageRange;
use troe::memory::plan::MappingPlan;
use troe::memory::private::mapping::Permissions;
use troe::memory::private::space::SystemMemory;
use troe::probe::script::{Kind, Request, Token};

fn pages(start: u64, count: u64) -> PageRange {
    PageRange::from_pages(start, count).unwrap()
}

const FIRST: ThreadKey = ThreadKey { slot: 0, generation: 1 };
const WORKER: ThreadKey = ThreadKey { slot: 1, generation: 4 };

fn limits() -> NativeLimits {
    NativeLimits {
        mapped_pages: 64,
        resident_pages: 100,
        reserved_pages: 200,
        ordinary_frames: 90,
        ipc_pairs: 4,
        tls_pages: 8,
        contexts: 3,
        metadata_bytes: 4096,
        extra_table_pages: 4,
    }
}

fn policy() -> ProcessPolicy {
    ProcessPolicy { maximum_committed_pages: Some(60), maximum_metadata_bytes: 2048 }
}

fn system() -> SystemMemory {
    SystemMemory {
        private_metadata_bytes: 100,
        application_committed_pages: 10,
        global_metadata_limit: 8192,
        system_commit_limit: Some(1000),
        minimum_free_pages: 16,
    }
}

fn window(base: u64) -> ThreadWindow {
    ThreadWindow {
        base,
        end: base + 0x1_0000,
        stack: pages(base + 0x1000, 4),
        tls: pages(base + 0x6000, 2),
        ipc: pages(base + 0x9000, 2),
        startup: pages(base + 0xc000, 1),
        thread_pointer: base + 0x7f00,
        mapped_pages: 9,
        reserved_pages: 16,
        table_pages: 2,
    }
}

fn segment(offset: u64, permissions: Permissions) -> (Segment, u64) {
    let segment = Segment {
        image_offset: offset,
        memory_bytes: 0x1000,
        virtual_address: 0x40_0000 + offset,
        permissions,
    };
    (segment, 0x800)
}

fn image() -> NativeImage {
    NativeImage {
        segments: vec![
            segment(0, Permissions::ReadExecute),
            segment(0x1000, Permissions::ReadWrite),
        ],
        architecture: Architecture::Aarch64,
        heap_pages: 2,
        heap_capacity_pages: 16,
        heap_address: 0x60_0000,
        tls_backing_pages: 1,
        tls_layout_pages: 2,
        shared_start: 0x40_0000,
        shared_end: 0x44_0000,
    }
}

fn loaded(books: &mut SystemMemory) -> NativeProcess {
    let mut process = NativeProcess::empty(&image(), limits(), 8).unwrap();
    assert!(process.charge_load(books, &policy(), 20, 100, FIRST, window(0x80_0000)));
    process.take_shared(vec![pages(0x10_0000, 11)]);
    process.add_backing(vec![pages(0x20_0000, 4)]);
    process.add_backing(vec![pages(0x30_0000, 2)]);
    process.add_backing(vec![pages(0x31_0000, 1)]);
    assert_eq!(process.choose_tables(books, 8, 20, 100), Some(12));
    process.take_tables(pages(0x50_0000, 12));
    assert!(process.finish_load(books, 300, 200, 120));
    process
}

#[test]
fn executable_parts_are_file_backed() {
    assert_eq!(executable_ranges(&image().segments), Some(vec![(0, 0x800)]));
    let broken = vec![segment(u64::MAX - 10, Permissions::ReadExecute)];
    assert_eq!(executable_ranges(&broken), None);
    let data = vec![segment(u64::MAX - 10, Permissions::ReadOnly)];
    assert_eq!(executable_ranges(&data), Some(vec![]));
}

#[test]
fn loads_need_threads_and_message_pages() {
    assert!(NativeProcess::empty(&image(), limits(), 3).is_none());
    assert!(NativeProcess::empty(&image(), limits(), 4).is_some());
    assert!(NativeProcess::empty(&image(), NativeLimits { contexts: 0, ..limits() }, 4).is_none());
}

#[test]
fn loads_are_charged_before_frames_are_taken() {
    let mut books = system();
    let mut process = NativeProcess::empty(&image(), limits(), 8).unwrap();
    assert!(!process.charge_load(&mut books, &policy(), 61, 100, FIRST, window(0x80_0000)));
    assert_eq!(books, system());
    assert!(!process.charge_load(&mut books, &policy(), 20, 35, FIRST, window(0x80_0000)));
    assert!(process.charge_load(&mut books, &policy(), 20, 36, FIRST, window(0x80_0000)));
    assert_eq!(books.application_committed_pages, 30);
    assert_eq!(process.choose_tables(&books, 8, 20, 27), None);
    assert_eq!(process.choose_tables(&books, 80, 20, 1000), None);
}

#[test]
fn a_loaded_process_can_be_given_back() {
    let mut books = system();
    let process = loaded(&mut books);
    assert_eq!(books.application_committed_pages, 30);
    assert_eq!(books.private_metadata_bytes, 600);
    assert_eq!(process.resource_totals(), Some((12, 20)));
    assert_eq!(
        process.reclaim_order().unwrap(),
        vec![
            pages(0x20_0000, 4),
            pages(0x30_0000, 2),
            pages(0x31_0000, 1),
            pages(0x10_0000, 11),
            pages(0x50_0000, 12),
        ]
    );
    assert!(process.refund(&mut books));
    assert_eq!(books, system());
    let mut poor = SystemMemory { application_committed_pages: 19, ..system() };
    assert!(!process.refund(&mut poor));
}

fn load_request() -> LoadRequest {
    LoadRequest {
        pages: 20,
        shared_pages: 5,
        stack_pages: 4,
        tls_pages: 2,
        tls_bytes: 0x1800,
        thread_pointer: 9,
        image_pages: 2,
        image_base: 0x40_0000,
    }
}

fn start_load(books: &mut SystemMemory) -> LoadRun {
    let segments = image().segments.iter().map(|part| part.0).collect();
    LoadRun::start(
        &image(),
        segments,
        load_request(),
        limits(),
        8,
        books,
        &policy(),
        100,
        FIRST,
        window(0x80_0000),
    )
    .unwrap()
}

fn shared_regions() -> Vec<ProcessRegion> {
    let region = |thread, start, count, permissions| ProcessRegion {
        thread,
        start,
        pages: count,
        permissions,
    };
    vec![
        region(false, 0x40_0000, 2, Permissions::ReadExecute),
        region(true, 0x80_0000, 4, Permissions::ReadWrite),
        region(false, 0x60_0000, 3, Permissions::ReadWrite),
    ]
}

fn reserve_all(run: &mut LoadRun, books: &mut SystemMemory) {
    assert_eq!(run.doing, LoadAction::Reserve(LoadPart::Shared, 5));
    let frames = vec![pages(0x1000_0000, 5)];
    let action = run.observe(books, &policy(), LoadEvent::Reserved(frames));
    assert_eq!(action, LoadAction::Reserve(LoadPart::Stack, 4));
    let action = run.observe(books, &policy(), LoadEvent::Reserved(vec![pages(0x20_0000, 4)]));
    assert_eq!(action, LoadAction::Reserve(LoadPart::Tls, 2));
    let action = run.observe(books, &policy(), LoadEvent::Reserved(vec![pages(0x30_0000, 2)]));
    assert_eq!(action, LoadAction::Reserve(LoadPart::Startup, 1));
    let action = run.observe(books, &policy(), LoadEvent::Reserved(vec![pages(0x31_0000, 1)]));
    assert_eq!(action, LoadAction::InitializeTls(0));
}

#[test]
fn a_load_goes_through_every_step() {
    let mut books = system();
    let mut run = start_load(&mut books);
    let limit = policy();
    assert_eq!(books.application_committed_pages, 30);
    reserve_all(&mut run, &mut books);
    assert_eq!(run.observe(&mut books, &limit, LoadEvent::Initialized(9)), LoadAction::WriteTls(0));
    assert_eq!(
        run.observe(&mut books, &limit, LoadEvent::Done),
        LoadAction::InitializeTls(0x1000)
    );
    run.observe(&mut books, &limit, LoadEvent::Initialized(9));
    assert_eq!(run.observe(&mut books, &limit, LoadEvent::Done), LoadAction::Plan);
    let kernel = MappingPlan::new(8);
    let action = run.plan_mappings(&kernel, pages(0x10_0000, 1), &shared_regions());
    assert_eq!(action, LoadAction::ReadSegments);
    assert_eq!(run.plan.as_ref().unwrap().entries.len(), 2);
    assert_eq!(
        run.observe(&mut books, &limit, LoadEvent::Segment(1, 0x10)),
        LoadAction::WriteSegment(0x1010)
    );
    assert_eq!(run.observe(&mut books, &limit, LoadEvent::Done), LoadAction::ReadSegments);
    assert_eq!(run.observe(&mut books, &limit, LoadEvent::Done), LoadAction::ReadRelocations);
    assert_eq!(
        run.observe(&mut books, &limit, LoadEvent::Relocation(0x1008, 0x20)),
        LoadAction::WriteAddress(0x1008, 0x40_0020)
    );
    run.observe(&mut books, &limit, LoadEvent::Done);
    assert_eq!(run.observe(&mut books, &limit, LoadEvent::Done), LoadAction::WriteStartup(0x2000));
    assert_eq!(run.observe(&mut books, &limit, LoadEvent::Done), LoadAction::CountTables);
    assert_eq!(
        run.observe(&mut books, &limit, LoadEvent::Counted(8, 100)),
        LoadAction::TakeTables(12)
    );
    let tables = pages(0x50_0000, 12);
    assert_eq!(
        run.observe(&mut books, &limit, LoadEvent::Tables(tables)),
        LoadAction::BuildRoot(tables)
    );
    assert_eq!(
        run.observe(&mut books, &limit, LoadEvent::Root(300, 120)),
        LoadAction::MakeContext(1748)
    );
    assert_eq!(
        run.observe(&mut books, &limit, LoadEvent::Context(200)),
        LoadAction::BindHeap(pages(0x60_0000, 16))
    );
    assert_eq!(run.observe(&mut books, &limit, LoadEvent::Done), LoadAction::Loaded);
    assert_eq!(books.private_metadata_bytes, 600);
    assert_eq!(run.process.threads[0].metadata_bytes, 120);
    assert_eq!(run.process.resource_totals(), Some((12, 20)));
}

#[test]
fn a_load_without_a_heap_window_is_refunded() {
    let mut books = system();
    let before = books;
    let mut run = start_load(&mut books);
    assert_eq!(run.process.heap_address, 0x60_0000);
    assert_eq!(run.process.heap_capacity_pages, 16);
    assert_eq!(run.process.executable.len(), 1);
    run.process.heap_address = 0x60_0001;
    run.doing = LoadAction::MakeContext(1748);
    run.owned = 300;
    let limit = policy();
    assert_eq!(
        run.observe(&mut books, &limit, LoadEvent::Context(200)),
        LoadAction::DropContext
    );
    assert_eq!(books.private_metadata_bytes, before.private_metadata_bytes + 500);
    let action = run.observe(&mut books, &limit, LoadEvent::Done);
    assert_eq!(action, LoadAction::Failed(NativeLoadError::Rejected));
    assert_eq!(books, before);
}

#[test]
fn a_rejected_load_leaves_nothing() {
    let mut books = system();
    let mut run = start_load(&mut books);
    let limit = policy();
    reserve_all(&mut run, &mut books);
    assert_eq!(
        run.observe(&mut books, &limit, LoadEvent::Initialized(8)),
        LoadAction::DropContext
    );
    assert!(run.process.creation_stopped);
    let mut freed = Vec::new();
    let mut action = run.observe(&mut books, &limit, LoadEvent::Done);
    while let LoadAction::Release(step) = action {
        if let ReleaseStep::Free(range) = step {
            freed.push(range);
        }
        action = run.observe(&mut books, &limit, LoadEvent::Done);
    }
    assert_eq!(action, LoadAction::Failed(NativeLoadError::Rejected));
    assert_eq!(
        freed,
        vec![
            pages(0x20_0000, 4),
            pages(0x30_0000, 2),
            pages(0x31_0000, 1),
            pages(0x1000_0000, 5),
        ]
    );
    assert_eq!(books, system());
}

#[test]
fn a_load_that_cannot_give_back_is_not_acknowledged() {
    let mut books = system();
    let mut run = start_load(&mut books);
    let limit = policy();
    reserve_all(&mut run, &mut books);
    run.observe(&mut books, &limit, LoadEvent::Failed);
    run.observe(&mut books, &limit, LoadEvent::Done);
    assert_eq!(
        run.observe(&mut books, &limit, LoadEvent::Failed),
        LoadAction::Failed(NativeLoadError::ReclamationFailed)
    );
    assert_eq!(books.application_committed_pages, 30);
}

#[test]
fn images_that_do_not_fit_are_given_up() {
    let mut books = system();
    let mut run = start_load(&mut books);
    let limit = policy();
    reserve_all(&mut run, &mut books);
    run.observe(&mut books, &limit, LoadEvent::Initialized(9));
    run.observe(&mut books, &limit, LoadEvent::Done);
    run.observe(&mut books, &limit, LoadEvent::Initialized(9));
    run.observe(&mut books, &limit, LoadEvent::Done);
    let kernel = MappingPlan::new(8);
    let action = run.plan_mappings(&kernel, pages(0x10_0000, 1), &vec![]);
    assert_eq!(action, LoadAction::DropContext);
    assert!(run.plan.is_none());
}

#[test]
fn metadata_limits_the_context() {
    let mut books = system();
    let process = loaded(&mut books);
    assert_eq!(process.context_metadata_limit(&books, &policy(), 48), Some(2000));
    assert_eq!(process.context_metadata_limit(&books, &policy(), 2049), None);
    let full = SystemMemory { private_metadata_bytes: 9000, ..books };
    assert_eq!(process.context_metadata_limit(&full, &policy(), 0), None);
    let sizes = OwnerSizes { owner: 100, context: 40, thread: 10, extents: 3 };
    assert_eq!(owned_metadata_bytes(sizes, 4, 5, 6, &vec![1, 2]), Some(60 + 40 + 6 + 15 + 3));
    let wrong = OwnerSizes { context: 101, ..sizes };
    assert_eq!(owned_metadata_bytes(wrong, 4, 5, 6, &vec![]), None);
    assert_eq!(owned_metadata_bytes(sizes, u64::MAX, 5, 6, &vec![]), None);
}

#[test]
fn workers_get_what_is_left() {
    let mut books = system();
    let mut process = loaded(&mut books);
    let budget = process.worker_budget(&books, true, 4, 1, 60);
    assert_eq!(
        budget,
        Ok(ThreadBudget {
            mapped_pages: 44,
            resident_pages: 67,
            reserved_pages: 200 - 64 - 16,
            ordinary_frames: 44,
            ipc_pairs: 3,
        })
    );
    assert_eq!(
        process.worker_budget(&books, true, 2, 1, 60),
        Err(PrepareFailure::InvalidRequest)
    );
    assert_eq!(
        process.worker_budget(&books, true, 0x1000, 1, 60),
        Err(PrepareFailure::InvalidRequest)
    );
    assert_eq!(
        process.worker_budget(&books, true, 4, 0, 60),
        Err(PrepareFailure::InvalidRequest)
    );
    assert_eq!(process.worker_budget(&books, false, 4, 1, 60), Err(PrepareFailure::Exhausted));
    process.creation_stopped = true;
    assert_eq!(process.worker_budget(&books, true, 4, 1, 60), Err(PrepareFailure::Exhausted));
}

#[test]
fn windows_do_not_overlap() {
    let mut books = system();
    let process = loaded(&mut books);
    let verdict = |base, tables| process.accept_window(&books, &policy(), tables, &window(base));
    assert_eq!(verdict(0x90_0000, 10), Ok(()));
    assert_eq!(verdict(0x90_0000, 11), Err(PrepareFailure::Exhausted));
    assert_eq!(verdict(0x80_f000, 10), Err(PrepareFailure::InvalidRequest));
    assert_eq!(verdict(0x43_f000, 10), Err(PrepareFailure::InvalidRequest));
    let large = ThreadWindow { mapped_pages: 41, ..window(0x90_0000) };
    assert_eq!(
        process.accept_window(&books, &policy(), 10, &large),
        Err(PrepareFailure::Exhausted)
    );
}

#[test]
fn an_owned_worker_is_released_and_refunded() {
    let mut books = system();
    let mut process = loaded(&mut books);
    let before = books;
    let worker = NativeThread {
        key: WORKER,
        window: window(0x90_0000),
        backing: vec![pages(0x70_0000, 7)],
        metadata_bytes: 64,
    };
    process.own_thread(&mut books, worker);
    assert_eq!(process.committed_pages, 29);
    assert_eq!(process.find_thread(WORKER), Some(1));
    assert!(process.begin_release(ThreadKey { slot: 1, generation: 5 }).is_none());
    let gone = process.begin_release(WORKER).unwrap();
    assert_eq!(gone.backing, vec![pages(0x70_0000, 7)]);
    assert!(process.reclaim_order().is_none());
    assert!(process.begin_release(FIRST).is_none());
    assert!(process.released(&mut books, 9, 64));
    assert_eq!(books, before);
    assert_eq!(process.find_thread(WORKER), None);
    assert!(process.reclaim_order().is_some());
}

#[test]
fn pages_are_refunded_before_metadata() {
    let mut books = system();
    let mut process = loaded(&mut books);
    assert!(process.begin_unpublished_release());
    let before = books;
    assert!(!process.released(&mut books, 1, before.private_metadata_bytes + 1));
    assert_eq!(books.application_committed_pages, before.application_committed_pages - 1);
    assert_eq!(books.private_metadata_bytes, before.private_metadata_bytes);
    assert!(process.reclamation_failed);
    assert!(!process.released(&mut books, u64::MAX, 0));
    assert_eq!(books.application_committed_pages, before.application_committed_pages - 1);
}

#[test]
fn unpublished_frames_quarantine_the_process() {
    let mut books = system();
    let mut process = loaded(&mut books);
    assert!(process.begin_unpublished_release());
    assert!(!process.begin_unpublished_release());
    assert!(process.reclaim_order().is_none());
    process.unpublished_released();
    assert!(process.reclaim_order().is_some());
}

#[test]
fn metadata_is_charged_within_every_limit() {
    let mut books = system();
    let mut process = loaded(&mut books);
    assert!(process.can_charge_metadata(&books, &policy(), 1548));
    assert!(!process.can_charge_metadata(&books, &policy(), 1549));
    assert!(process.charge_resident_metadata(&mut books, &policy(), 1000));
    assert_eq!((process.metadata_bytes, books.private_metadata_bytes), (1500, 1600));
    assert!(!process.charge_resident_metadata(&mut books, &policy(), 549));
    assert_eq!((process.metadata_bytes, books.private_metadata_bytes), (1500, 1600));
}

#[test]
fn native_heaps_grow_within_their_limits() {
    let mut books = system();
    let mut process = loaded(&mut books);
    let grow = |p: &NativeProcess, b: &SystemMemory, tables, free, n| {
        p.can_grow(b, &policy(), tables, free, n)
    };
    assert_eq!(grow(&process, &books, 10, 60, 14), HeapVerdict::Permitted);
    assert_eq!(grow(&process, &books, 10, 60, 15), HeapVerdict::Exhausted);
    assert_eq!(grow(&process, &books, 10, 60, 0), HeapVerdict::Exhausted);
    assert_eq!(grow(&process, &books, 10, 29, 14), HeapVerdict::Exhausted);
    assert_eq!(grow(&process, &books, 13, 60, 1), HeapVerdict::Exhausted);
    assert!(process
        .own_growth(&mut books, &policy(), vec![pages(0x90_0000, 4)], 4, 16)
        .is_ok());
    process.growth_mapped(4);
    assert_eq!((process.heap_pages, process.committed_pages), (6, 24));
    assert_eq!(books.application_committed_pages, 34);
    let order = process.reclaim_order().unwrap();
    assert_eq!(order[4], pages(0x90_0000, 4));
    let back = process.own_growth(&mut books, &policy(), vec![pages(0xa0_0000, 1)], 1, 5000);
    assert_eq!(back, Err(vec![pages(0xa0_0000, 1)]));
    process.tables = None;
    assert_eq!(grow(&process, &books, 10, 60, 1), HeapVerdict::Broken);
}

#[test]
fn workers_are_described() {
    let mut books = system();
    let process = loaded(&mut books);
    let place = window(0x90_0000);
    let it = worker_descriptor(&process, 0x45_0000, WORKER, &place, 0x10, 77).unwrap();
    assert_eq!((it.entry, it.argument, it.initial), (0x40_0010, 77, false));
    assert_eq!((it.stack_bottom, it.stack_top), (0x90_1000, 0x90_5000));
    assert_eq!((it.tls_base, it.tls_bytes), (0x90_6000, 0x2000));
    assert_eq!((it.ipc_tx, it.address), (0x90_9000, 0x90_c000));
    assert!(worker_descriptor(&process, 0, WORKER, &place, u64::MAX, 0).is_none());
}

fn prepare_call(entry_offset: u64) -> HeldCall {
    HeldCall {
        caller: FIRST,
        request: Request::Prepare { entry_offset, argument: 77, stack_pages: 4 },
    }
}

fn start_prepare(process: &NativeProcess, books: &SystemMemory) -> PrepareRun {
    let call = prepare_call(4);
    PrepareRun::start(process, books, &call, &call, true, 60, 0x45_0000).unwrap()
}

fn prepare_named(process: &mut NativeProcess, books: &mut SystemMemory) -> PrepareRun {
    let mut run = start_prepare(process, books);
    let limit = policy();
    assert!(matches!(run.doing, PrepareAction::PlaceWindow(_)));
    let place = window(0x90_0000);
    let action = run.observe(process, books, &limit, PrepareEvent::Window(place, 10));
    assert_eq!(action, PrepareAction::TakeMessages(place));
    let action = run.observe(process, books, &limit, PrepareEvent::Done);
    assert_eq!(action, PrepareAction::Reserve(place, WorkerPart::Stack));
    let stack = vec![pages(0x70_0000, 4)];
    run.observe(process, books, &limit, PrepareEvent::Reserved(stack, 16));
    let tls = vec![pages(0x71_0000, 2)];
    run.observe(process, books, &limit, PrepareEvent::Reserved(tls, 16));
    let startup = vec![pages(0x72_0000, 1)];
    let action = run.observe(process, books, &limit, PrepareEvent::Reserved(startup, 16));
    assert_eq!(action, PrepareAction::ReserveThread(place));
    run
}

fn prepare_owned(process: &mut NativeProcess, books: &mut SystemMemory) -> PrepareRun {
    let mut run = prepare_named(process, books);
    let limit = policy();
    let action = run.observe(process, books, &limit, PrepareEvent::Named(WORKER));
    let descriptor = match action {
        PrepareAction::CheckDescriptor(_, descriptor) => descriptor,
        _ => panic!("a descriptor is expected"),
    };
    assert_eq!((descriptor.entry, descriptor.argument), (0x40_0004, 77));
    let action = run.observe(process, books, &limit, PrepareEvent::Done);
    assert_eq!(action, PrepareAction::InitializeTls(descriptor, 0));
    let pointer = descriptor.thread_pointer;
    run.observe(process, books, &limit, PrepareEvent::Initialized(pointer));
    let action = run.observe(process, books, &limit, PrepareEvent::Done);
    assert_eq!(action, PrepareAction::InitializeTls(descriptor, 0x1000));
    run.observe(process, books, &limit, PrepareEvent::Initialized(pointer));
    let action = run.observe(process, books, &limit, PrepareEvent::Done);
    assert_eq!(action, PrepareAction::Admit(descriptor));
    run
}

#[test]
fn preparations_are_for_the_held_call() {
    let mut books = system();
    let process = loaded(&mut books);
    let call = prepare_call(4);
    let other = prepare_call(8);
    assert!(PrepareRun::start(&process, &books, &call, &other, true, 60, 0).is_none());
    let wrong = HeldCall { caller: FIRST, request: Request::Current };
    let run = PrepareRun::start(&process, &books, &wrong, &wrong, true, 60, 0).unwrap();
    assert_eq!(run.doing, PrepareAction::Reject(PrepareFailure::InvalidRequest));
    let run = PrepareRun::start(&process, &books, &call, &call, false, 60, 0).unwrap();
    assert_eq!(run.doing, PrepareAction::Reject(PrepareFailure::Exhausted));
}

#[test]
fn a_prepared_worker_is_owned() {
    let mut books = system();
    let mut process = loaded(&mut books);
    let mut run = prepare_owned(&mut process, &mut books);
    let limit = policy();
    assert_eq!((process.committed_pages, process.metadata_bytes), (29, 548));
    assert_eq!(process.threads[1].backing.len(), 3);
    let action = run.observe(&mut process, &mut books, &limit, PrepareEvent::Done);
    assert_eq!(action, PrepareAction::Complete);
    let action = run.observe(&mut process, &mut books, &limit, PrepareEvent::Done);
    assert_eq!(action, PrepareAction::Prepared);
}

#[test]
fn a_refused_worker_is_undone() {
    let mut books = system();
    let mut process = loaded(&mut books);
    let before = books;
    let limit = policy();
    let mut run = prepare_owned(&mut process, &mut books);
    let action = run.observe(&mut process, &mut books, &limit, PrepareEvent::Refused);
    assert_eq!(action, PrepareAction::RevokeOwned(WORKER, PrepareFailure::Exhausted));
    let mut action = run.observe(&mut process, &mut books, &limit, PrepareEvent::Done);
    let mut steps = 0;
    while let PrepareAction::Release(_) = action {
        assert!(process.reclamation_failed);
        action = run.observe(&mut process, &mut books, &limit, PrepareEvent::Done);
        steps += 1;
    }
    assert_eq!(steps, 6);
    assert_eq!(action, PrepareAction::ReleaseResources(WORKER, PrepareFailure::Exhausted));
    assert_eq!(books, before);
    assert_eq!((process.threads.len(), process.committed_pages), (1, 20));
    run.observe(&mut process, &mut books, &limit, PrepareEvent::Done);
    let action = run.observe(&mut process, &mut books, &limit, PrepareEvent::Done);
    assert_eq!(action, PrepareAction::Refused(PrepareFailure::Exhausted));
}

#[test]
fn frames_that_nobody_owns_go_back() {
    let mut books = system();
    let mut process = loaded(&mut books);
    let limit = policy();
    let mut run = prepare_named(&mut process, &mut books);
    let mut action = run.observe(&mut process, &mut books, &limit, PrepareEvent::Refused);
    assert_eq!(action, PrepareAction::Release(ReleaseStep::Zero(pages(0x70_0000, 4))));
    while let PrepareAction::Release(_) = action {
        action = run.observe(&mut process, &mut books, &limit, PrepareEvent::Done);
    }
    assert_eq!(action, PrepareAction::Reject(PrepareFailure::Exhausted));
    assert!(!process.reclamation_failed);

    let mut run = prepare_named(&mut process, &mut books);
    run.observe(&mut process, &mut books, &limit, PrepareEvent::Named(WORKER));
    let action = run.observe(&mut process, &mut books, &limit, PrepareEvent::Refused);
    assert_eq!(action, PrepareAction::RevokeUnowned(WORKER, PrepareFailure::InvalidRequest));
    run.observe(&mut process, &mut books, &limit, PrepareEvent::Done);
    let action = run.observe(&mut process, &mut books, &limit, PrepareEvent::Failed);
    assert_eq!(action, PrepareAction::Terminal);
    assert!(process.reclamation_failed);
}

#[test]
fn metadata_limits_workers() {
    let mut books = system();
    let mut process = loaded(&mut books);
    let limit = policy();
    let mut run = start_prepare(&process, &books);
    run.observe(&mut process, &mut books, &limit, PrepareEvent::Window(window(0x90_0000), 10));
    run.observe(&mut process, &mut books, &limit, PrepareEvent::Done);
    run.observe(&mut process, &mut books, &limit, PrepareEvent::Reserved(vec![pages(0x70_0000, 4)], 1500));
    run.observe(&mut process, &mut books, &limit, PrepareEvent::Reserved(vec![pages(0x71_0000, 2)], 48));
    let last = PrepareEvent::Reserved(vec![pages(0x72_0000, 1)], 1);
    let action = run.observe(&mut process, &mut books, &limit, last);
    assert_eq!(action, PrepareAction::Release(ReleaseStep::Zero(pages(0x70_0000, 4))));
}

fn with_worker(books: &mut SystemMemory) -> NativeProcess {
    let mut process = loaded(books);
    let worker = NativeThread {
        key: WORKER,
        window: window(0x90_0000),
        backing: vec![pages(0x70_0000, 7)],
        metadata_bytes: 64,
    };
    process.own_thread(books, worker);
    process
}

#[test]
fn an_ended_thread_is_retired() {
    let mut books = system();
    let mut process = with_worker(&mut books);
    let exit = HeldCall { caller: WORKER, request: Request::Exit(3) };
    let other = HeldCall { caller: FIRST, request: Request::Exit(3) };
    assert!(RetireRun::retire(&process, &exit, &other).is_none());
    let mut run = RetireRun::retire(&process, &exit, &exit).unwrap();
    assert_eq!(run.doing, RetireAction::DropContext);
    let action = run.observe(&mut process, &mut books, RetireEvent::Receipt(WORKER, 7));
    assert_eq!(action, RetireAction::CompleteThread);
    let action = run.observe(&mut process, &mut books, RetireEvent::Done);
    assert_eq!(action, RetireAction::Release(ReleaseStep::Zero(pages(0x70_0000, 7))));
    assert!(process.reclamation_failed);
    run.observe(&mut process, &mut books, RetireEvent::Done);
    let action = run.observe(&mut process, &mut books, RetireEvent::Done);
    assert_eq!(action, RetireAction::ReleaseResources);
    assert_eq!(books.application_committed_pages, 30);
    assert!(!process.reclamation_failed);
    let action = run.observe(&mut process, &mut books, RetireEvent::Done);
    assert_eq!(action, RetireAction::Retired);
}

#[test]
fn a_revoked_thread_is_discarded_by_its_receipt() {
    let mut books = system();
    let mut process = with_worker(&mut books);
    let nobody = ThreadKey { slot: 9, generation: 9 };
    assert!(RetireRun::discard(&process, nobody).is_none());
    let mut run = RetireRun::discard(&process, WORKER).unwrap();
    let action = run.observe(&mut process, &mut books, RetireEvent::Receipt(WORKER, 7));
    assert_eq!(action, RetireAction::Release(ReleaseStep::Zero(pages(0x70_0000, 7))));
    let action = run.observe(&mut process, &mut books, RetireEvent::Failed);
    assert_eq!(action, RetireAction::Failed);
    assert!(process.reclamation_failed);
    assert_eq!(books.application_committed_pages, 39);

    let mut process = with_worker(&mut books);
    let mut run = RetireRun::discard(&process, WORKER).unwrap();
    let action = run.observe(&mut process, &mut books, RetireEvent::Receipt(WORKER, 6));
    assert_eq!(action, RetireAction::Failed);
}

#[test]
fn heap_growth_is_answered() {
    let mut books = system();
    let mut process = loaded(&mut books);
    let limit = policy();
    let mut run = HeapRun::start(4);
    let action = run.observe(&mut process, &mut books, &limit, HeapEvent::Claimed(10, 60));
    assert_eq!(action, HeapAction::Reserve(4));
    let frames = vec![pages(0x90_0000, 4)];
    let action = run.observe(&mut process, &mut books, &limit, HeapEvent::Reserved(frames, 16));
    assert_eq!(action, HeapAction::Commit);
    assert_eq!(process.heap_pages, 2);
    let action = run.observe(&mut process, &mut books, &limit, HeapEvent::Done);
    assert_eq!(action, HeapAction::Answer(true));
    assert_eq!(process.heap_pages, 6);
    let action = run.observe(&mut process, &mut books, &limit, HeapEvent::Done);
    assert_eq!(action, HeapAction::Answered(true));

    let mut run = HeapRun::start(0);
    let action = run.observe(&mut process, &mut books, &limit, HeapEvent::Claimed(10, 60));
    assert_eq!(action, HeapAction::Answer(false));

    let mut run = HeapRun::start(1);
    run.observe(&mut process, &mut books, &limit, HeapEvent::Claimed(10, 60));
    let frames = vec![pages(0xa0_0000, 1)];
    let action = run.observe(&mut process, &mut books, &limit, HeapEvent::Reserved(frames, 5000));
    assert_eq!(action, HeapAction::Release(ReleaseStep::Zero(pages(0xa0_0000, 1))));
    run.observe(&mut process, &mut books, &limit, HeapEvent::Done);
    let action = run.observe(&mut process, &mut books, &limit, HeapEvent::Done);
    assert_eq!(action, HeapAction::Answer(false));
    assert!(!process.reclamation_failed);
}

#[test]
fn an_ended_process_is_reclaimed() {
    let mut books = system();
    let process = with_worker(&mut books);
    let mut run = ReclaimRun::start(process);
    assert_eq!(run.doing, ReclaimAction::DropContext);
    let mut action = run.observe(&mut books, true);
    let mut freed = 0;
    while let ReclaimAction::Release(step) = action {
        if let ReleaseStep::Free(_) = step {
            freed += 1;
        }
        action = run.observe(&mut books, true);
    }
    assert_eq!((action, freed), (ReclaimAction::Reclaimed, 6));
    assert_eq!(books, system());

    let mut process = with_worker(&mut books);
    process.reclamation_failed = true;
    let mut run = ReclaimRun::start(process);
    assert_eq!(run.observe(&mut books, true), ReclaimAction::Failed);
}

#[test]
fn receipts_name_every_ordinary_page() {
    let place = window(0x90_0000);
    assert!(receipt_matches(WORKER, &place, WORKER, 7));
    assert!(!receipt_matches(WORKER, &place, WORKER, 9));
    assert!(!receipt_matches(WORKER, &place, FIRST, 7));
}

#[test]
fn native_plans_show_the_shared_regions() {
    let regions = shared_regions();
    let kernel = MappingPlan::new(8);
    let runtime = pages(0x10_0000, 1);
    let extents = vec![pages(0x1000_0000, 5)];
    let plan = build_native_plan(&kernel, runtime, &extents, 5, &regions).unwrap();
    assert_eq!(plan.entries.len(), 2);
    assert_eq!(plan.entries[1].virtual_range, pages(0x60_0000, 3));
    assert_eq!(plan.entries[1].physical, pages(0x1000_2000, 3));
    let short = vec![pages(0x1000_0000, 4)];
    assert_eq!(
        build_native_plan(&kernel, runtime, &short, 4, &regions).err(),
        Some(PlanRefusal::DoesNotFit)
    );
}

#[test]
fn completions_are_published_for_their_call() {
    let token = Token { kind: Kind::Mutex, slot: 2, generation: 3 };
    let held = HeldCall { caller: WORKER, request: Request::Unlock(token) };
    assert!(may_publish(&held, &held));
    assert!(!may_publish(&held, &HeldCall { caller: FIRST, ..held }));
    let mut output = [9_u8; 3];
    assert!(!copy_handle_request(b"ab", &mut output));
    assert_eq!(output, [9, 9, 9]);
    assert!(copy_handle_request(b"abc", &mut output));
    assert_eq!(&output, b"abc");
}
