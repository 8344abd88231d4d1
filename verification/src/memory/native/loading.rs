//! The run of a load: reserving frames, filling them, building the address
//! space, and giving everything back where a step fails.

use crate::memory::extents::{
    all_well_formed, count_pages, frames, lemma_frames_concat, total_pages,
};
use crate::memory::launch::{
    bytes_before, launch_commit, lemma_bytes_monotone, relocated, relocation_write,
    segment_logical_offset, Segment,
};
use crate::memory::native::load::{
    build_native_plan, executable_parts, is_native_plan, lemma_either, native_fits, parts_end, NativeImage,
    ProcessRegion,
};
use crate::memory::native::releasing::{FrameRelease, ReleaseStep};
use crate::memory::native::{
    charged, less, smaller, uncharged, NativeLimits, NativeProcess, NativeThread, ProcessPolicy,
    ThreadKey, ThreadWindow,
};
use crate::memory::pages::{PageRange, PAGE_SIZE};
use crate::memory::plan::{write_xor_execute, MappingPlan};
use crate::memory::private::space::SystemMemory;
use vstd::prelude::*;

verus! {

/// Why a load fails.
#[derive(Clone, Copy, Debug, PartialEq, Eq, Structural)]
pub enum NativeLoadError {
    /// The image is refused and everything is given back.
    Rejected,
    /// Frames could not be given back.
    ReclamationFailed,
}

/// A part of the process that gets frames of its own.
#[derive(Clone, Copy, Debug, PartialEq, Eq, Structural)]
pub enum LoadPart {
    /// Image, startup page of the process and initial heap.
    Shared,
    /// Initial stack.
    Stack,
    /// Thread-local storage of the initial thread.
    Tls,
    /// Startup page of the initial thread.
    Startup,
}

/// The sizes and addresses of a load.
#[derive(Clone, Copy, Debug, PartialEq, Eq, Structural)]
pub struct LoadRequest {
    /// Mapped pages in all.
    pub pages: u64,
    /// Pages of image, startup page and initial heap.
    pub shared_pages: u64,
    /// Stack pages of the initial thread.
    pub stack_pages: u64,
    /// Thread-local pages of the initial thread.
    pub tls_pages: u64,
    /// Thread-local bytes of the initial thread.
    pub tls_bytes: u64,
    /// Where its thread pointer has to point.
    pub thread_pointer: u64,
    /// Pages of the image, behind which the startup page lies.
    pub image_pages: u64,
    /// First byte address of the image.
    pub image_base: u64,
}

/// What a load does next.
#[derive(Clone, Copy, Debug, PartialEq, Eq, Structural)]
pub enum LoadAction {
    /// Reserve this many zeroed frames.
    Reserve(LoadPart, u64),
    /// Compute the thread-local page at this byte offset.
    InitializeTls(u64),
    /// Write that page.
    WriteTls(u64),
    /// Plan the mappings.
    Plan,
    /// Go on reading the verified segments.
    ReadSegments,
    /// Write the bytes of a segment at this logical offset.
    WriteSegment(u64),
    /// Go on reading the verified relocations.
    ReadRelocations,
    /// Write a relocated address, the second number, at this logical offset.
    WriteAddress(u64, u64),
    /// Write the startup page at this logical offset.
    WriteStartup(u64),
    /// Count the page tables of the plan.
    CountTables,
    /// Take this many contiguous frames for page tables.
    TakeTables(u64),
    /// Build the address space in the page tables.
    BuildRoot(PageRange),
    /// Make the machine context with at most this much metadata.
    MakeContext(u64),
    /// Give the context its heap window.
    BindHeap(PageRange),
    /// Drop the machine context, if there is one.
    DropContext,
    /// Give frames back.
    Release(ReleaseStep),
    /// The process is loaded.
    Loaded,
    /// The process is not loaded.
    Failed(NativeLoadError),
}

/// What happened.
#[derive(Debug)]
pub enum LoadEvent {
    /// The frames are reserved and zeroed.
    Reserved(Vec<PageRange>),
    /// The thread-local page was computed for this thread pointer.
    Initialized(u64),
    /// Bytes of a segment were read; they belong at this offset inside it.
    Segment(usize, u64),
    /// A relocation was read: the offset of its target and that of its value.
    Relocation(u64, u64),
    /// The plan needs this many page tables, and this many frames are free.
    Counted(u64, u64),
    /// The page tables were taken.
    Tables(PageRange),
    /// The address space stands. The owner has this much metadata, and so much
    /// of it belongs to the frames of the initial thread.
    Root(u64, u64),
    /// The machine context was made with this much metadata.
    Context(u64),
    /// It was done.
    Done,
    /// It failed.
    Failed,
}

/// A load in progress.
#[derive(Debug)]
pub struct LoadRun {
    /// The process so far.
    pub process: NativeProcess,
    /// Loadable parts of the image.
    pub segments: Vec<Segment>,
    /// Sizes and addresses.
    pub request: LoadRequest,
    /// Mappings, once planned.
    pub plan: Option<MappingPlan>,
    /// Metadata of the owner.
    pub owned: u64,
    /// Metadata of the initial thread's frames.
    pub backing: u64,
    /// Frames on their way back.
    pub release: FrameRelease,
    /// What is being done.
    pub doing: LoadAction,
}

/// Metadata that a machine context may take beside the `owned` bytes of the
/// owner.
pub open spec fn context_room(
    limits: NativeLimits,
    system: SystemMemory,
    policy: ProcessPolicy,
    owned: int,
) -> int {
    smaller(
        limits.metadata_bytes as int,
        smaller(
            system.global_metadata_limit - system.private_metadata_bytes,
            policy.maximum_metadata_bytes as int,
        ),
    ) - owned
}

impl LoadRun {
    /// Whether the load still goes forward with nothing but its pages charged.
    pub open spec fn gathering(self) -> bool {
        match self.doing {
            LoadAction::BindHeap(_)
            | LoadAction::DropContext
            | LoadAction::Release(_)
            | LoadAction::Loaded
            | LoadAction::Failed(_) => false,
            _ => true,
        }
    }

    /// What a load requires of itself.
    pub open spec fn well_formed(self) -> bool {
        &&& self.process.well_formed()
        &&& !self.process.reclamation_failed
        &&& self.process.threads@.len() == 1
        &&& self.process.heap_growth@.len() == 0
        &&& self.process.committed_pages == self.request.pages
        &&& self.gathering() ==> {
            &&& self.process.metadata_bytes == 0
            &&& self.process.threads@[0].metadata_bytes == 0
            &&& self.backing <= self.owned
        }
        &&& self.gathering() && !(self.doing is BuildRoot) && !(self.doing is MakeContext)
            ==> self.process.tables is None
        &&& match self.doing {
            LoadAction::Reserve(LoadPart::Shared, _) => self.process.shared@.len() == 0,
            LoadAction::InitializeTls(offset) | LoadAction::WriteTls(offset) => offset
                < self.request.tls_bytes,
            LoadAction::Release(step) => {
                &&& step == self.release.stands()
                &&& step != ReleaseStep::Finished
                &&& frames(self.release.ranges@) == self.process.held_frames()
            },
            LoadAction::Failed(NativeLoadError::Rejected) => {
                &&& self.release.freed == self.release.ranges@.len()
                &&& frames(self.release.ranges@) == self.process.held_frames()
            },
            _ => true,
        }
    }

    /// Whether an event answers what is being done. The mappings are planned by
    /// [`LoadRun::plan_mappings`].
    pub open spec fn expects(self, event: LoadEvent) -> bool {
        match self.doing {
            LoadAction::Reserve(_, count) => event is Failed || (event matches
                LoadEvent::Reserved(extents) && all_well_formed(extents@) && total_pages(extents@)
                == count),
            LoadAction::InitializeTls(_) => event is Initialized || event is Failed,
            LoadAction::ReadSegments => event is Segment || event is Done || event is Failed,
            LoadAction::ReadRelocations => event is Relocation || event is Done || event is Failed,
            LoadAction::CountTables => event is Counted || event is Failed,
            LoadAction::TakeTables(count) => event is Failed || (event matches LoadEvent::Tables(
                range,
            ) && range.well_formed() && range.pages() == count),
            LoadAction::BuildRoot(_) => event is Failed || (event matches LoadEvent::Root(
                owned,
                backing,
            ) && backing <= owned),
            LoadAction::MakeContext(_) => event is Context || event is Failed,
            LoadAction::DropContext => event is Done,
            LoadAction::Plan | LoadAction::Loaded | LoadAction::Failed(_) => false,
            _ => event is Done || event is Failed,
        }
    }

    /// Whether the image and the plan are the same.
    pub open spec fn same_image(self, next: LoadRun) -> bool {
        &&& next.segments == self.segments
        &&& next.request == self.request
        &&& next.plan == self.plan
    }

    /// Whether only what is being done differs.
    pub open spec fn goes_on(self, next: LoadRun, doing: LoadAction) -> bool {
        next == (LoadRun { doing, ..self })
    }

    /// Whether the load is given up: no thread can be created any more, and the
    /// machine context goes first.
    pub open spec fn gives_up(self, next: LoadRun) -> bool {
        next == (LoadRun {
            process: NativeProcess { creation_stopped: true, ..self.process },
            doing: LoadAction::DropContext,
            ..self
        })
    }

    /// What follows the frames of a part.
    pub open spec fn after_part(self, part: LoadPart) -> LoadAction {
        match part {
            LoadPart::Shared => LoadAction::Reserve(LoadPart::Stack, self.request.stack_pages),
            LoadPart::Stack => LoadAction::Reserve(LoadPart::Tls, self.request.tls_pages),
            LoadPart::Tls => LoadAction::Reserve(LoadPart::Startup, 1),
            LoadPart::Startup => if self.request.tls_bytes > 0 {
                LoadAction::InitializeTls(0)
            } else {
                LoadAction::Plan
            },
        }
    }

    /// Whether the process owns the reserved frames of a part.
    pub open spec fn takes_part(self, next: LoadRun, part: LoadPart, extents: Vec<PageRange>) -> bool {
        &&& self.same_image(next)
        &&& next.doing == self.after_part(part)
        &&& next.owned == self.owned && next.backing == self.backing
        &&& next.release == self.release
        &&& match part {
            LoadPart::Shared => next.process == (NativeProcess { shared: extents, ..self.process }),
            _ => {
                &&& next.process == (NativeProcess {
                    threads: next.process.threads,
                    ..self.process
                })
                &&& next.process.threads@.len() == 1
                &&& next.process.threads@[0].key == self.process.threads@[0].key
                &&& next.process.threads@[0].window == self.process.threads@[0].window
                &&& next.process.threads@[0].metadata_bytes
                    == self.process.threads@[0].metadata_bytes
                &&& next.process.threads@[0].backing@ == self.process.threads@[0].backing@
                    + extents@
            },
        }
    }

    /// Where bytes at `offset` inside segment `index` are written.
    pub open spec fn segment_place(self, index: int, offset: int) -> Option<int> {
        let logical = bytes_before(self.segments@, index) + offset;
        if index < self.segments@.len() && logical <= u64::MAX {
            Some(logical)
        } else {
            None
        }
    }

    /// Whether `count` page tables fit the limits of the process and leave the
    /// reserve of the system.
    pub open spec fn tables_fit(self, system: SystemMemory, count: int, free_frames: int) -> bool {
        let resident = self.request.pages + count + self.process.tls_backing_pages;
        &&& 2 <= resident <= self.process.limits.resident_pages
        &&& resident - 2 <= self.process.limits.ordinary_frames
        &&& count <= less(free_frames, system.minimum_free_pages as int)
    }

    /// Whether the metadata of owner and context can be booked.
    pub open spec fn can_finish(self, system: SystemMemory, context: int) -> bool {
        system.private_metadata_bytes + self.owned + context <= u64::MAX
    }

    /// Whether the heap has a window.
    pub open spec fn has_heap_window(self) -> bool {
        PageRange::valid(
            self.process.heap_address as int,
            self.process.heap_capacity_pages as int,
        )
    }

    /// Whether the load is booked and only the heap window is left. A load
    /// without one is given up.
    pub open spec fn finishes(self, next: LoadRun, context: int) -> bool {
        &&& next == (LoadRun { process: next.process, doing: next.doing, ..self })
        &&& next.process == (NativeProcess {
            threads: next.process.threads,
            metadata_bytes: (self.owned + context) as u64,
            creation_stopped: if self.has_heap_window() {
                self.process.creation_stopped
            } else {
                true
            },
            ..self.process
        })
        &&& next.process.threads@ == seq![
            NativeThread { metadata_bytes: self.backing, ..self.process.threads@[0] },
        ]
        &&& if self.has_heap_window() {
            &&& next.doing matches LoadAction::BindHeap(range)
            &&& range.well_formed()
            &&& 4096 * range.first() == self.process.heap_address
            &&& range.pages() == self.process.heap_capacity_pages
        } else {
            next.doing == LoadAction::DropContext
        }
    }

    /// Whether the process can be taken out of the totals.
    pub open spec fn can_refund(self, system: SystemMemory) -> bool {
        &&& self.process.committed_pages <= system.application_committed_pages
        &&& self.process.metadata_bytes <= system.private_metadata_bytes
    }

    /// What follows a state of the release.
    pub open spec fn after_release(self, release: FrameRelease, system: SystemMemory) -> LoadAction {
        if release.stands() != ReleaseStep::Finished {
            LoadAction::Release(release.stands())
        } else if self.can_refund(system) {
            LoadAction::Failed(NativeLoadError::Rejected)
        } else {
            LoadAction::Failed(NativeLoadError::ReclamationFailed)
        }
    }

    /// The totals after an event: it may book the metadata or refund the load.
    pub open spec fn totals_after(self, system: SystemMemory, event: LoadEvent, next: LoadRun) -> SystemMemory {
        match (self.doing, event) {
            (LoadAction::MakeContext(_), LoadEvent::Context(bytes)) if self.can_finish(
                system,
                bytes as int,
            ) => charged(system, 0, self.owned + bytes),
            (LoadAction::DropContext, _)
            | (LoadAction::Release(_), LoadEvent::Done) => if next.release.stands()
                == ReleaseStep::Finished {
                uncharged(system, self.process.committed_pages, self.process.metadata_bytes)
            } else {
                system
            },
            _ => system,
        }
    }

    /// Whether `next` follows an event.
    pub open spec fn leads(
        self,
        system: SystemMemory,
        policy: ProcessPolicy,
        event: LoadEvent,
        next: LoadRun,
    ) -> bool {
        match (self.doing, event) {
            (LoadAction::Reserve(part, _), LoadEvent::Reserved(extents)) => self.takes_part(
                next,
                part,
                extents,
            ),
            (LoadAction::InitializeTls(offset), LoadEvent::Initialized(pointer)) => if pointer
                == self.request.thread_pointer {
                self.goes_on(next, LoadAction::WriteTls(offset))
            } else {
                self.gives_up(next)
            },
            (LoadAction::WriteTls(offset), LoadEvent::Done) => self.goes_on(
                next,
                if offset + 4096 < self.request.tls_bytes {
                    LoadAction::InitializeTls((offset + 4096) as u64)
                } else {
                    LoadAction::Plan
                },
            ),
            (LoadAction::ReadSegments, LoadEvent::Segment(index, offset)) => match self.segment_place(
                index as int,
                offset as int,
            ) {
                Some(logical) => self.goes_on(next, LoadAction::WriteSegment(logical as u64)),
                None => self.gives_up(next),
            },
            (LoadAction::ReadSegments, LoadEvent::Done) => self.goes_on(
                next,
                LoadAction::ReadRelocations,
            ),
            (LoadAction::WriteSegment(_), LoadEvent::Done) => self.goes_on(
                next,
                LoadAction::ReadSegments,
            ),
            (LoadAction::ReadRelocations, LoadEvent::Relocation(target, value)) => match relocated(
                self.segments@,
                self.request.image_base,
                target,
                value,
            ) {
                Some(write) => self.goes_on(
                    next,
                    LoadAction::WriteAddress(write.0 as u64, write.1 as u64),
                ),
                None => self.gives_up(next),
            },
            (LoadAction::ReadRelocations, LoadEvent::Done) => if 4096 * self.request.image_pages
                <= u64::MAX {
                self.goes_on(
                    next,
                    LoadAction::WriteStartup((4096 * self.request.image_pages) as u64),
                )
            } else {
                self.gives_up(next)
            },
            (LoadAction::WriteAddress(_, _), LoadEvent::Done) => self.goes_on(
                next,
                LoadAction::ReadRelocations,
            ),
            (LoadAction::WriteStartup(_), LoadEvent::Done) => self.goes_on(
                next,
                LoadAction::CountTables,
            ),
            (LoadAction::CountTables, LoadEvent::Counted(required, free_frames)) => {
                let count = required + self.process.limits.extra_table_pages;
                if self.tables_fit(system, count, free_frames as int) {
                    self.goes_on(next, LoadAction::TakeTables(count as u64))
                } else {
                    self.gives_up(next)
                }
            },
            (LoadAction::TakeTables(_), LoadEvent::Tables(range)) => next == (LoadRun {
                process: NativeProcess { tables: Some(range), ..self.process },
                doing: LoadAction::BuildRoot(range),
                ..self
            }),
            (LoadAction::BuildRoot(_), LoadEvent::Root(owned, backing)) => {
                let room = context_room(self.process.limits, system, policy, owned as int);
                if system.private_metadata_bytes <= system.global_metadata_limit && room >= 0 {
                    next == (LoadRun {
                        owned,
                        backing,
                        doing: LoadAction::MakeContext(room as u64),
                        ..self
                    })
                } else {
                    self.gives_up(next)
                }
            },
            (LoadAction::MakeContext(_), LoadEvent::Context(bytes)) => if self.can_finish(
                system,
                bytes as int,
            ) {
                self.finishes(next, bytes as int)
            } else {
                self.gives_up(next)
            },
            (LoadAction::BindHeap(_), LoadEvent::Done) => self.goes_on(next, LoadAction::Loaded),
            (LoadAction::DropContext, _) => {
                &&& next == (LoadRun { release: next.release, doing: next.doing, ..self })
                &&& next.release.freed == 0 && !next.release.zeroed && next.release.charge is None
                &&& all_well_formed(next.release.ranges@)
                &&& frames(next.release.ranges@) == self.process.held_frames()
                &&& next.doing == self.after_release(next.release, system)
            },
            (LoadAction::Release(_), LoadEvent::Done) => next == (LoadRun {
                release: self.release.advanced(),
                doing: self.after_release(self.release.advanced(), system),
                ..self
            }),
            (LoadAction::Release(_), _) => self.goes_on(
                next,
                LoadAction::Failed(NativeLoadError::ReclamationFailed),
            ),
            _ => self.gives_up(next),
        }
    }

    /// Start loading an image: its whole reservation is charged before any
    /// frame is taken. A load that does not start is rejected and has taken
    /// nothing.
    pub fn start(
        image: &NativeImage,
        segments: Vec<Segment>,
        request: LoadRequest,
        limits: NativeLimits,
        message_pairs: usize,
        system: &mut SystemMemory,
        policy: &ProcessPolicy,
        free_frames: u64,
        key: ThreadKey,
        window: ThreadWindow,
    ) -> (run: Option<Self>)
        requires
            image.shared_start <= image.shared_end,
            window.mapped_pages <= request.pages,
        ensures
            run is Some == (0 < limits.contexts < message_pairs && parts_end(
                image.segments@,
                image.segments@.len() as int,
            ) && launch_commit(
                *old(system),
                policy.maximum_committed_pages,
                request.pages,
                free_frames,
            ) is Some),
            match run {
                Some(r) => {
                    &&& r.well_formed()
                    &&& r.segments == segments
                    &&& r.request == request
                    &&& r.doing == LoadAction::Reserve(LoadPart::Shared, request.shared_pages)
                    &&& r.process.held_frames() == Seq::<int>::empty()
                    &&& r.plan is None
                    &&& r.owned == 0 && r.backing == 0
                    &&& r.process.shared@.len() == 0 && r.process.heap_growth@.len() == 0
                    &&& r.process.tables is None
                    &&& r.process.committed_pages == request.pages
                    &&& r.process.metadata_bytes == 0
                    &&& r.process.limits == limits
                    &&& r.process.executable@ == executable_parts(
                        image.segments@,
                        image.segments@.len() as int,
                    )
                    &&& r.process.architecture == image.architecture
                    &&& r.process.heap_pages == image.heap_pages
                    &&& r.process.heap_capacity_pages == image.heap_capacity_pages
                    &&& r.process.heap_address == image.heap_address
                    &&& r.process.tls_backing_pages == image.tls_backing_pages
                    &&& r.process.tls_layout_pages == image.tls_layout_pages
                    &&& r.process.shared_start == image.shared_start
                    &&& r.process.shared_end == image.shared_end
                    &&& !r.process.creation_stopped && !r.process.reclamation_failed
                    &&& r.release.is_empty()
                    &&& r.process.threads@.len() == 1
                    &&& r.process.threads@[0].backing@.len() == 0
                    &&& r.process.threads@[0].metadata_bytes == 0
                    &&& r.process.threads@[0].key == key
                    &&& r.process.threads@[0].window == window
                    &&& *final(system) == charged(*old(system), request.pages as int, 0)
                },
                None => *final(system) == *old(system),
            },
    {
        let mut process = match NativeProcess::empty(image, limits, message_pairs) {
            Some(process) => process,
            None => return None,
        };
        if !process.charge_load(system, policy, request.pages, free_frames, key, window) {
            return None;
        }
        proof {
            process.lemma_holds_nothing();
        }
        Some(
            LoadRun {
                process,
                segments,
                request,
                plan: None,
                owned: 0,
                backing: 0,
                release: FrameRelease::start(Vec::new(), None),
                doing: LoadAction::Reserve(LoadPart::Shared, request.shared_pages),
            },
        )
    }

    fn give_up(&mut self)
        requires
            old(self).well_formed(),
        ensures
            final(self).well_formed(),
            old(self).gives_up(*final(self)),
    {
        self.process.creation_stopped = true;
        self.doing = LoadAction::DropContext;
    }

    /// Plan the mappings of the process. An image whose regions do not fill the
    /// frames or do not fit, or that is writable and executable at once, is
    /// given up.
    pub fn plan_mappings(
        &mut self,
        kernel: &MappingPlan,
        runtime: PageRange,
        regions: &Vec<ProcessRegion>,
    ) -> (action: LoadAction)
        requires
            old(self).well_formed(),
            old(self).doing == LoadAction::Plan,
            kernel.well_formed(),
            runtime.well_formed(),
        ensures
            final(self).well_formed(),
            action == final(self).doing,
            match final(self).plan {
                Some(plan) if action == LoadAction::ReadSegments => {
                    &&& *final(self) == (LoadRun {
                        plan: Some(plan),
                        doing: LoadAction::ReadSegments,
                        ..*old(self)
                    })
                    &&& native_fits(*kernel, runtime, old(self).process.shared@, regions@)
                    &&& is_native_plan(
                        plan,
                        *kernel,
                        runtime,
                        old(self).process.shared@,
                        regions@,
                    )
                    &&& write_xor_execute(plan@)
                },
                _ => {
                    &&& old(self).gives_up(*final(self))
                    &&& {
                        ||| total_pages(old(self).process.shared@) > u64::MAX
                        ||| !native_fits(*kernel, runtime, old(self).process.shared@, regions@)
                        ||| exists|plan: MappingPlan|
                            #[trigger] is_native_plan(
                                plan,
                                *kernel,
                                runtime,
                                old(self).process.shared@,
                                regions@,
                            ) && !write_xor_execute(plan@)
                    }
                },
            },
    {
        let total: u64 = match count_pages(&self.process.shared) {
            Some(total) => total,
            None => {
                self.give_up();
                return self.doing;
            },
        };
        match build_native_plan(kernel, runtime, &self.process.shared, total, regions) {
            Ok(plan) => {
                self.plan = Some(plan);
                self.doing = LoadAction::ReadSegments;
            },
            Err(_) => self.give_up(),
        }
        self.doing
    }

    fn take_part(&mut self, part: LoadPart, extents: Vec<PageRange>)
        requires
            old(self).well_formed(),
            old(self).doing matches LoadAction::Reserve(asked, _) && asked == part,
            all_well_formed(extents@),
        ensures
            final(self).well_formed(),
            old(self).takes_part(*final(self), part, extents),
    {
        match part {
            LoadPart::Shared => {
                self.process.take_shared(extents);
                self.doing = LoadAction::Reserve(LoadPart::Stack, self.request.stack_pages);
            },
            LoadPart::Stack => {
                self.process.add_backing(extents);
                self.doing = LoadAction::Reserve(LoadPart::Tls, self.request.tls_pages);
            },
            LoadPart::Tls => {
                self.process.add_backing(extents);
                self.doing = LoadAction::Reserve(LoadPart::Startup, 1);
            },
            LoadPart::Startup => {
                self.process.add_backing(extents);
                self.doing = if self.request.tls_bytes > 0 {
                    LoadAction::InitializeTls(0)
                } else {
                    LoadAction::Plan
                };
            },
        }
    }

    fn go_on_releasing(&mut self, system: &mut SystemMemory)
        requires
            old(self).process.well_formed(),
            !old(self).process.reclamation_failed,
            old(self).process.threads@.len() == 1,
            old(self).process.heap_growth@.len() == 0,
            old(self).process.committed_pages == old(self).request.pages,
            old(self).release.freed <= old(self).release.ranges@.len(),
            frames(old(self).release.ranges@) == old(self).process.held_frames(),
        ensures
            final(self).well_formed(),
            *final(self) == (LoadRun { doing: final(self).doing, ..*old(self) }),
            final(self).doing == old(self).after_release(old(self).release, *old(system)),
            *final(system) == (if old(self).release.stands() == ReleaseStep::Finished {
                uncharged(
                    *old(system),
                    old(self).process.committed_pages,
                    old(self).process.metadata_bytes,
                )
            } else {
                *old(system)
            }),
    {
        let step = self.release.current();
        self.doing = match step {
            ReleaseStep::Finished => if self.process.refund(system) {
                LoadAction::Failed(NativeLoadError::Rejected)
            } else {
                LoadAction::Failed(NativeLoadError::ReclamationFailed)
            },
            step => LoadAction::Release(step),
        };
    }

    fn start_release(&mut self, system: &mut SystemMemory)
        requires
            old(self).well_formed(),
            old(self).doing is DropContext,
        ensures
            final(self).well_formed(),
            old(self).leads(*old(system), arbitrary(), LoadEvent::Done, *final(self)),
            *final(system) == old(self).totals_after(*old(system), LoadEvent::Done, *final(self)),
    {
        match self.process.reclaim_order() {
            Some(order) => {
                self.release = FrameRelease::start(order, None);
                self.go_on_releasing(system);
            },
            None => {},
        }
    }

    fn finish(&mut self, system: &mut SystemMemory, context: u64)
        requires
            old(self).well_formed(),
            old(self).doing is MakeContext,
        ensures
            final(self).well_formed(),
            old(self).leads(*old(system), arbitrary(), LoadEvent::Context(context), *final(self)),
            *final(system) == old(self).totals_after(
                *old(system),
                LoadEvent::Context(context),
                *final(self),
            ),
    {
        if !self.process.finish_load(system, self.owned, context, self.backing) {
            self.give_up();
            return;
        }
        match PageRange::from_pages(self.process.heap_address, self.process.heap_capacity_pages) {
            Some(heap) => {
                self.doing = LoadAction::BindHeap(heap);
            },
            None => {
                self.process.creation_stopped = true;
                self.doing = LoadAction::DropContext;
            },
        }
    }

    /// Take an event and go on.
    pub fn observe(
        &mut self,
        system: &mut SystemMemory,
        policy: &ProcessPolicy,
        event: LoadEvent,
    ) -> (action: LoadAction)
        requires
            old(self).well_formed(),
            old(self).expects(event),
        ensures
            final(self).well_formed(),
            old(self).leads(*old(system), *policy, event, *final(self)),
            *final(system) == old(self).totals_after(*old(system), event, *final(self)),
            action == final(self).doing,
    {
        match (self.doing, event) {
            (LoadAction::Reserve(part, _), LoadEvent::Reserved(extents)) => self.take_part(
                part,
                extents,
            ),
            (LoadAction::InitializeTls(offset), LoadEvent::Initialized(pointer)) => {
                if pointer == self.request.thread_pointer {
                    self.doing = LoadAction::WriteTls(offset);
                } else {
                    self.give_up();
                }
            },
            (LoadAction::WriteTls(offset), LoadEvent::Done) => {
                self.doing = if self.request.tls_bytes - offset > PAGE_SIZE {
                    LoadAction::InitializeTls(offset + PAGE_SIZE)
                } else {
                    LoadAction::Plan
                };
            },
            (LoadAction::ReadSegments, LoadEvent::Segment(index, offset)) => {
                proof {
                    lemma_bytes_monotone(self.segments@, 0, index as int);
                }
                let logical: Option<u64> = match segment_logical_offset(&self.segments, index) {
                    Some(base) => base.checked_add(offset),
                    None => None,
                };
                match logical {
                    Some(at) => {
                        self.doing = LoadAction::WriteSegment(at);
                    },
                    None => self.give_up(),
                }
            },
            (LoadAction::ReadSegments, LoadEvent::Done) => {
                self.doing = LoadAction::ReadRelocations;
            },
            (LoadAction::WriteSegment(_), LoadEvent::Done) => {
                self.doing = LoadAction::ReadSegments;
            },
            (LoadAction::ReadRelocations, LoadEvent::Relocation(target, value)) => {
                match relocation_write(&self.segments, self.request.image_base, target, value) {
                    Some((at, address)) => {
                        self.doing = LoadAction::WriteAddress(at, address);
                    },
                    None => self.give_up(),
                }
            },
            (LoadAction::ReadRelocations, LoadEvent::Done) => {
                match self.request.image_pages.checked_mul(PAGE_SIZE) {
                    Some(at) => {
                        self.doing = LoadAction::WriteStartup(at);
                    },
                    None => self.give_up(),
                }
            },
            (LoadAction::WriteAddress(_, _), LoadEvent::Done) => {
                self.doing = LoadAction::ReadRelocations;
            },
            (LoadAction::WriteStartup(_), LoadEvent::Done) => {
                self.doing = LoadAction::CountTables;
            },
            (LoadAction::CountTables, LoadEvent::Counted(required, free_frames)) => {
                match self.process.choose_tables(system, required, self.request.pages, free_frames) {
                    Some(count) => {
                        self.doing = LoadAction::TakeTables(count);
                    },
                    None => self.give_up(),
                }
            },
            (LoadAction::TakeTables(_), LoadEvent::Tables(range)) => {
                self.process.take_tables(range);
                self.doing = LoadAction::BuildRoot(range);
            },
            (LoadAction::BuildRoot(_), LoadEvent::Root(owned, backing)) => {
                match self.process.context_metadata_limit(system, policy, owned) {
                    Some(room) => {
                        self.owned = owned;
                        self.backing = backing;
                        self.doing = LoadAction::MakeContext(room);
                    },
                    None => self.give_up(),
                }
            },
            (LoadAction::MakeContext(_), LoadEvent::Context(bytes)) => self.finish(system, bytes),
            (LoadAction::BindHeap(_), LoadEvent::Done) => {
                self.doing = LoadAction::Loaded;
            },
            (LoadAction::DropContext, _) => self.start_release(system),
            (LoadAction::Release(_), LoadEvent::Done) => {
                self.release.advance();
                self.go_on_releasing(system);
            },
            (LoadAction::Release(_), _) => {
                self.doing = LoadAction::Failed(NativeLoadError::ReclamationFailed);
            },
            _ => self.give_up(),
        }
        self.doing
    }

    /// Whether the totals show exactly what the load has charged to those that
    /// it started with.
    pub open spec fn booked(self, before: SystemMemory, now: SystemMemory) -> bool {
        if self.doing == LoadAction::Failed(NativeLoadError::Rejected) {
            now == before
        } else {
            &&& now == charged(
                before,
                self.process.committed_pages as int,
                self.process.metadata_bytes as int,
            )
            &&& before.application_committed_pages + self.process.committed_pages <= u64::MAX
            &&& before.private_metadata_bytes + self.process.metadata_bytes <= u64::MAX
        }
    }

    /// How many phases follow at most.
    pub open spec fn phases_left(self) -> int {
        match self.doing {
            LoadAction::Reserve(LoadPart::Shared, _) => 16,
            LoadAction::Reserve(LoadPart::Stack, _) => 15,
            LoadAction::Reserve(LoadPart::Tls, _) => 14,
            LoadAction::Reserve(LoadPart::Startup, _) => 13,
            LoadAction::InitializeTls(_) | LoadAction::WriteTls(_) => 12,
            LoadAction::Plan => 11,
            LoadAction::ReadSegments | LoadAction::WriteSegment(_) => 10,
            LoadAction::ReadRelocations | LoadAction::WriteAddress(_, _) => 9,
            LoadAction::WriteStartup(_) => 8,
            LoadAction::CountTables => 7,
            LoadAction::TakeTables(_) => 6,
            LoadAction::BuildRoot(_) => 5,
            LoadAction::MakeContext(_) => 4,
            LoadAction::BindHeap(_) => 3,
            LoadAction::DropContext => 2,
            LoadAction::Release(_) => 1,
            LoadAction::Loaded | LoadAction::Failed(_) => 0,
        }
    }

    /// How many steps of this phase follow at most, as far as the load decides
    /// it: the image is read in as many parts as its source gives.
    pub open spec fn steps_left(self) -> int {
        match self.doing {
            LoadAction::InitializeTls(offset) => 2 * (self.request.tls_bytes - offset) + 1,
            LoadAction::WriteTls(offset) => 2 * (self.request.tls_bytes - offset),
            LoadAction::WriteSegment(_) | LoadAction::WriteAddress(_, _) => 1,
            LoadAction::Release(_) => self.release.steps_left(),
            _ => 0,
        }
    }
}

/// A load comes to an end: every step but reading a part of the image leaves
/// fewer phases, or fewer steps of the same phase.
pub proof fn loads_come_to_an_end(
    run: LoadRun,
    system: SystemMemory,
    policy: ProcessPolicy,
    event: LoadEvent,
    next: LoadRun,
)
    requires
        run.well_formed(),
        run.expects(event),
        run.leads(system, policy, event, next),
        !(event is Segment),
        !(event is Relocation),
    ensures
        next.phases_left() >= 0,
        next.phases_left() < run.phases_left() || (next.phases_left() == run.phases_left() && 0
            <= next.steps_left() < run.steps_left()),
{
    assert(run.release.ranges.len() == run.release.ranges@.len());
}

/// A load is in the totals from its first step on, and a rejected load is no
/// longer.
pub proof fn the_totals_show_the_load(
    run: LoadRun,
    before: SystemMemory,
    now: SystemMemory,
    policy: ProcessPolicy,
    event: LoadEvent,
    next: LoadRun,
)
    requires
        run.well_formed(),
        run.expects(event),
        run.booked(before, now),
        run.leads(now, policy, event, next),
    ensures
        next.booked(before, run.totals_after(now, event, next)),
{
}

/// The frames that an event brings, none of them owned before.
pub open spec fn brought(event: LoadEvent) -> Seq<int> {
    match event {
        LoadEvent::Reserved(extents) => frames(extents@),
        LoadEvent::Tables(range) => range.numbers(),
        _ => Seq::empty(),
    }
}

/// From the moment frames are taken they are among what giving back releases:
/// a load holds what it held before and what an event brings, and nothing else.
pub proof fn a_load_owns_what_it_takes(
    run: LoadRun,
    system: SystemMemory,
    policy: ProcessPolicy,
    event: LoadEvent,
    next: LoadRun,
    frame: int,
)
    requires
        run.well_formed(),
        run.expects(event),
        run.leads(system, policy, event, next),
    ensures
        next.process.held_frames().contains(frame) <==> run.process.held_frames().contains(frame)
            || brought(event).contains(frame),
{
    run.process.lemma_holds_of_one(frame);
    next.process.lemma_holds_of_one(frame);
    match event {
        LoadEvent::Reserved(extents) => {
            let before = run.process.threads@[0].backing@;
            lemma_frames_concat(before, extents@);
            lemma_either(frames(before), frames(extents@), frame);
            assert(run.process.shared@.len() == 0 ==> frames(run.process.shared@)
                =~= Seq::<int>::empty());
        },
        _ => {},
    }
}

/// A rejected load has zeroed and given back every frame that it held, in the
/// order in which a process gives its frames back.
pub proof fn rejected_loads_leave_nothing(run: LoadRun)
    requires
        run.well_formed(),
        run.doing == LoadAction::Failed(NativeLoadError::Rejected),
    ensures
        frames(run.release.ranges@.take(run.release.freed as int)) == run.process.held_frames(),
{
    assert(run.release.ranges@.take(run.release.freed as int) =~= run.release.ranges@);
}

/// A load that is given up drops the machine context, whose root maps the
/// frames, before it gives the first frame back.
pub proof fn contexts_go_before_frames(
    run: LoadRun,
    system: SystemMemory,
    policy: ProcessPolicy,
    event: LoadEvent,
    next: LoadRun,
)
    requires
        run.well_formed(),
        run.expects(event),
        run.leads(system, policy, event, next),
        next.doing is Release,
        !(run.doing is Release),
    ensures
        run.doing is DropContext,
        next.release.freed == 0 && !next.release.zeroed,
{
}

/// Where nothing fails, a load reserves shared memory, stack, thread-local
/// storage and one startup page, fills the storage page by page, and goes on
/// through segments, relocations, startup page, tables, root and context to the
/// heap.
pub proof fn loads_go_step_by_step(
    run: LoadRun,
    system: SystemMemory,
    policy: ProcessPolicy,
    extents: Vec<PageRange>,
    value: u64,
    next: LoadRun,
)
    ensures
        run.doing matches LoadAction::Reserve(LoadPart::Shared, _) && run.leads(
            system,
            policy,
            LoadEvent::Reserved(extents),
            next,
        ) ==> next.doing == LoadAction::Reserve(LoadPart::Stack, run.request.stack_pages)
            && next.process.shared == extents,
        run.doing matches LoadAction::Reserve(LoadPart::Stack, _) && run.leads(
            system,
            policy,
            LoadEvent::Reserved(extents),
            next,
        ) ==> next.doing == LoadAction::Reserve(LoadPart::Tls, run.request.tls_pages)
            && next.process.threads@[0].backing@ == run.process.threads@[0].backing@ + extents@,
        run.doing matches LoadAction::Reserve(LoadPart::Tls, _) && run.leads(
            system,
            policy,
            LoadEvent::Reserved(extents),
            next,
        ) ==> next.doing == LoadAction::Reserve(LoadPart::Startup, 1)
            && next.process.threads@[0].backing@ == run.process.threads@[0].backing@ + extents@,
        run.doing matches LoadAction::Reserve(LoadPart::Startup, _) && run.leads(
            system,
            policy,
            LoadEvent::Reserved(extents),
            next,
        ) ==> {
            &&& run.request.tls_bytes > 0 ==> next.doing == LoadAction::InitializeTls(0)
            &&& run.request.tls_bytes == 0 ==> next.doing == LoadAction::Plan
            &&& next.process.threads@[0].backing@ == run.process.threads@[0].backing@ + extents@
        },
        (run.doing matches LoadAction::InitializeTls(offset) ==> run.leads(
            system,
            policy,
            LoadEvent::Initialized(value),
            next,
        ) ==> (value == run.request.thread_pointer <==> next.doing == LoadAction::WriteTls(offset))),
        (run.doing matches LoadAction::WriteTls(offset) ==> run.leads(
            system,
            policy,
            LoadEvent::Done,
            next,
        ) ==> if offset + 4096 < run.request.tls_bytes {
            next.doing matches LoadAction::InitializeTls(at) && at == offset + 4096
        } else {
            next.doing == LoadAction::Plan
        }),
        run.doing == LoadAction::ReadSegments && run.leads(system, policy, LoadEvent::Done, next)
            ==> next.doing == LoadAction::ReadRelocations,
        run.doing is WriteSegment && run.leads(system, policy, LoadEvent::Done, next) ==> next.doing
            == LoadAction::ReadSegments,
        run.doing is WriteAddress && run.leads(system, policy, LoadEvent::Done, next) ==> next.doing
            == LoadAction::ReadRelocations,
        run.doing == LoadAction::ReadRelocations && run.leads(system, policy, LoadEvent::Done, next)
            && 4096 * run.request.image_pages <= u64::MAX ==> (next.doing matches
            LoadAction::WriteStartup(at) && at == 4096 * run.request.image_pages),
        run.doing is WriteStartup && run.leads(system, policy, LoadEvent::Done, next) ==> next.doing
            == LoadAction::CountTables,
        run.doing is BindHeap && run.leads(system, policy, LoadEvent::Done, next) ==> next.doing
            == LoadAction::Loaded,
{
}

/// A piece of a segment is written behind the segments before it, and a
/// relocation inside a segment with the base of the image added.
pub proof fn loaded_segments_are_written_in_place(
    run: LoadRun,
    system: SystemMemory,
    policy: ProcessPolicy,
    index: usize,
    offset: u64,
    target: u64,
    value: u64,
    next: LoadRun,
)
    ensures
        run.doing == LoadAction::ReadSegments && run.leads(
            system,
            policy,
            LoadEvent::Segment(index, offset),
            next,
        ) ==> {
            let place = bytes_before(run.segments@, index as int) + offset;
            let fits = index < run.segments@.len() && place <= u64::MAX;
            &&& fits ==> (next.doing matches LoadAction::WriteSegment(at) && at == place)
            &&& !fits ==> next.doing == LoadAction::DropContext
        },
        run.doing == LoadAction::ReadRelocations && run.leads(
            system,
            policy,
            LoadEvent::Relocation(target, value),
            next,
        ) ==> (next.doing matches LoadAction::WriteAddress(at, written) ==> written
            == run.request.image_base + value && exists|i: int|
            {
                &&& 0 <= i < run.segments@.len()
                &&& (#[trigger] run.segments@[i]).image_offset <= target
                &&& target + 8 <= run.segments@[i].image_offset + run.segments@[i].memory_bytes
                &&& at - bytes_before(run.segments@, i) == target - run.segments@[i].image_offset
            }),
{
    crate::memory::launch::lemma_bytes_monotone(run.segments@, 0, index as int);
    crate::memory::launch::relocations_add_the_image_base(
        run.segments@,
        run.request.image_base,
        target,
        value,
    );
    if run.doing == LoadAction::ReadRelocations && run.leads(
        system,
        policy,
        LoadEvent::Relocation(target, value),
        next,
    ) && next.doing is WriteAddress {
        let write = relocated(run.segments@, run.request.image_base, target, value)->0;
        let i = choose|i: int|
            {
                &&& 0 <= i < run.segments@.len()
                &&& (#[trigger] run.segments@[i]).image_offset <= target
                &&& target + 8 <= run.segments@[i].image_offset + run.segments@[i].memory_bytes
                &&& write.0 - bytes_before(run.segments@, i) == target
                    - run.segments@[i].image_offset
                &&& write.0 + 8 <= bytes_before(run.segments@, i + 1)
            };
        crate::memory::launch::lemma_bytes_monotone(run.segments@, 0, i);
    }
}

/// Page tables are taken for the image and for workers, and only where the pages
/// then resident stay within the limits and the free frames above their minimum.
pub proof fn loads_take_tables_within_the_limits(
    run: LoadRun,
    system: SystemMemory,
    policy: ProcessPolicy,
    required: u64,
    free_frames: u64,
    next: LoadRun,
)
    requires
        run.doing == LoadAction::CountTables,
        run.leads(system, policy, LoadEvent::Counted(required, free_frames), next),
    ensures
        ({
            let count = required + run.process.limits.extra_table_pages;
            let resident = run.request.pages + count + run.process.tls_backing_pages;
            let fits = {
                &&& 2 <= resident <= run.process.limits.resident_pages
                &&& resident <= run.process.limits.ordinary_frames + 2
                &&& count == 0 || count + system.minimum_free_pages <= free_frames
            };
            &&& fits ==> (next.doing matches LoadAction::TakeTables(taken) && taken == count)
            &&& !fits ==> next.doing == LoadAction::DropContext && next.process.creation_stopped
        }),
{
}

/// A context may take the metadata that the limits of process, system and policy
/// leave beside what the process owns itself.
pub proof fn contexts_get_the_metadata_that_is_left(
    limits: NativeLimits,
    system: SystemMemory,
    policy: ProcessPolicy,
    owned: int,
)
    ensures
        ({
            let room = context_room(limits, system, policy, owned);
            &&& owned + room <= limits.metadata_bytes
            &&& owned + room <= policy.maximum_metadata_bytes
            &&& system.private_metadata_bytes + owned + room <= system.global_metadata_limit
            &&& {
                ||| owned + room == limits.metadata_bytes
                ||| owned + room == policy.maximum_metadata_bytes
                ||| system.private_metadata_bytes + owned + room == system.global_metadata_limit
            }
        }),
{
}

/// A finished load is charged with the metadata of process and context, and its
/// thread with that of its backing. Its heap is bound to the whole window that
/// it may grow into.
pub proof fn finished_loads_are_charged(
    run: LoadRun,
    system: SystemMemory,
    policy: ProcessPolicy,
    bytes: u64,
    next: LoadRun,
)
    requires
        run.well_formed(),
        run.doing is MakeContext,
        run.leads(system, policy, LoadEvent::Context(bytes), next),
        system.private_metadata_bytes + run.owned + bytes <= u64::MAX,
    ensures
        next.process.metadata_bytes == run.owned + bytes,
        next.process.threads@.len() == 1,
        next.process.threads@[0].metadata_bytes == run.backing,
        next.process.threads@[0].backing == run.process.threads@[0].backing,
        run.totals_after(system, LoadEvent::Context(bytes), next).private_metadata_bytes
            == system.private_metadata_bytes + run.owned + bytes,
        run.totals_after(system, LoadEvent::Context(bytes), next).application_committed_pages
            == system.application_committed_pages,
        (next.doing matches LoadAction::BindHeap(range) ==> 4096 * range.first()
            == run.process.heap_address && range.pages() == run.process.heap_capacity_pages),
        next.doing is BindHeap || next.doing == LoadAction::DropContext,
        next.doing == LoadAction::DropContext <==> !(run.process.heap_address % 4096 == 0
            && run.process.heap_capacity_pages > 0 && run.process.heap_address + 4096
            * run.process.heap_capacity_pages <= u64::MAX),
{
}

} // verus!
