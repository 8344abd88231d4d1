//! Heap growth of native processes.

use crate::memory::extents::{all_well_formed, total_pages};
use crate::memory::growth::{additional_table_pages, new_tables};
use crate::memory::native::releasing::{FrameRelease, ReleaseStep};
use crate::memory::native::{
    charged, less, NativeProcess, ProcessPolicy, MAX_NATIVE_BATCH_PAGES,
};
use crate::memory::pages::{PageRange, PAGE_SIZE};
use crate::memory::private::space::{exceeds, SystemMemory};
use vstd::prelude::*;

verus! {

/// Most heap growth records.
pub const MAX_GROWTH_RECORDS: usize = 128;

/// Verdict on a heap growth.
#[derive(Clone, Copy, Debug, PartialEq, Eq, Structural)]
pub enum HeapVerdict {
    /// Frames may be taken.
    Permitted,
    /// A limit is reached: the caller is told so.
    Exhausted,
    /// The process state is inconsistent: it ends.
    Broken,
}

impl NativeProcess {
    /// Whether the plain limits refuse `pages` more heap pages.
    pub open spec fn heap_full(self, system: SystemMemory, pages: int) -> bool {
        ||| pages == 0
        ||| pages > MAX_NATIVE_BATCH_PAGES
        ||| self.heap_growth@.len() >= MAX_GROWTH_RECORDS
        ||| self.heap_pages + pages > self.heap_capacity_pages
        ||| self.committed_pages + pages > u64::MAX
        ||| system.application_committed_pages + pages > u64::MAX
    }

    /// Verdict on `pages` more heap pages while `table_pages` page tables are
    /// in use.
    pub open spec fn heap_verdict(
        self,
        system: SystemMemory,
        policy: ProcessPolicy,
        table_pages: u64,
        free_frames: u64,
        pages: u64,
    ) -> HeapVerdict {
        let start = self.heap_address + self.heap_pages * 4096;
        let resident = self.resident() + pages;
        if self.heap_full(system, pages as int) {
            HeapVerdict::Exhausted
        } else if self.tables is None || resident > u64::MAX || start > u64::MAX || start < 4096 {
            HeapVerdict::Broken
        } else if self.committed_pages + pages <= self.limits.mapped_pages && resident
            <= self.limits.resident_pages && less(resident, 2 * self.threads@.len() as int)
            <= self.limits.ordinary_frames && pages <= less(
            free_frames as int,
            system.minimum_free_pages as int,
        ) && !exceeds(self.committed_pages + pages, policy.maximum_committed_pages) && !exceeds(
            system.application_committed_pages + pages,
            system.system_commit_limit,
        ) && table_pages + new_tables(start / 4096, pages as int) <= self.tables->0.pages() {
            HeapVerdict::Permitted
        } else {
            HeapVerdict::Exhausted
        }
    }

    /// Decide on `pages` more heap pages.
    pub fn can_grow(
        &self,
        system: &SystemMemory,
        policy: &ProcessPolicy,
        table_pages: u64,
        free_frames: u64,
        pages: u64,
    ) -> (verdict: HeapVerdict)
        requires
            self.well_formed(),
        ensures
            verdict == self.heap_verdict(*system, *policy, table_pages, free_frames, pages),
    {
        if pages == 0 || pages > MAX_NATIVE_BATCH_PAGES || self.heap_growth.len()
            >= MAX_GROWTH_RECORDS {
            return HeapVerdict::Exhausted;
        }
        let heap_pages: u64 = match self.heap_pages.checked_add(pages) {
            Some(total) => total,
            None => return HeapVerdict::Exhausted,
        };
        if heap_pages > self.heap_capacity_pages {
            return HeapVerdict::Exhausted;
        }
        let committed: u64 = match self.committed_pages.checked_add(pages) {
            Some(total) => total,
            None => return HeapVerdict::Exhausted,
        };
        let global: u64 = match system.application_committed_pages.checked_add(pages) {
            Some(total) => total,
            None => return HeapVerdict::Exhausted,
        };
        let tables: u64 = match self.tables {
            Some(tables) => tables.page_count(),
            None => return HeapVerdict::Broken,
        };
        let with_tables: u64 = match committed.checked_add(tables) {
            Some(total) => total,
            None => return HeapVerdict::Broken,
        };
        let resident: u64 = match with_tables.checked_add(self.tls_backing_pages) {
            Some(total) => total,
            None => return HeapVerdict::Broken,
        };
        let mapped: u64 = match self.heap_pages.checked_mul(PAGE_SIZE) {
            Some(bytes) => bytes,
            None => return HeapVerdict::Broken,
        };
        let start: u64 = match self.heap_address.checked_add(mapped) {
            Some(address) => address,
            None => return HeapVerdict::Broken,
        };
        let required: u64 = match additional_table_pages(start, pages) {
            Some(tables) => tables,
            None => return HeapVerdict::Broken,
        };
        let threads: u64 = self.threads.len() as u64;
        let ordinary: u64 = resident.saturating_sub(threads).saturating_sub(threads);
        let process_full = match policy.maximum_committed_pages {
            Some(limit) => committed > limit,
            None => false,
        };
        let system_full = match system.system_commit_limit {
            Some(limit) => global > limit,
            None => false,
        };
        let tables_full = match table_pages.checked_add(required) {
            Some(needed) => needed > tables,
            None => true,
        };
        if committed <= self.limits.mapped_pages && resident <= self.limits.resident_pages
            && ordinary <= self.limits.ordinary_frames && pages <= free_frames.saturating_sub(
            system.minimum_free_pages,
        ) && !process_full && !system_full && !tables_full {
            HeapVerdict::Permitted
        } else {
            HeapVerdict::Exhausted
        }
    }

    /// Own the frames of a permitted growth. The frames stay owned whatever
    /// becomes of mapping them.
    ///
    /// Hands the frames back, for release, where their metadata charge is not
    /// allowed.
    pub fn own_growth(
        &mut self,
        system: &mut SystemMemory,
        policy: &ProcessPolicy,
        extents: Vec<PageRange>,
        pages: u64,
        metadata: u64,
    ) -> (owned: Result<(), Vec<PageRange>>)
        requires
            old(self).well_formed(),
            all_well_formed(extents@),
            !old(self).heap_full(*old(system), pages as int),
        ensures
            final(self).well_formed(),
            owned is Ok == old(self).metadata_allowed(*old(system), *policy, metadata as int),
            match owned {
                Ok(()) => {
                    &&& final(self).heap_growth@ == old(self).heap_growth@.push(extents)
                    &&& *final(self) == (NativeProcess {
                        heap_growth: final(self).heap_growth,
                        committed_pages: (old(self).committed_pages + pages) as u64,
                        metadata_bytes: (old(self).metadata_bytes + metadata) as u64,
                        ..*old(self)
                    })
                    &&& *final(system) == charged(*old(system), pages as int, metadata as int)
                },
                Err(back) => back == extents && *final(self) == *old(self) && *final(system)
                    == *old(system),
            },
    {
        if !self.can_charge_metadata(system, policy, metadata) {
            return Err(extents);
        }
        self.heap_growth.push(extents);
        self.committed_pages = self.committed_pages + pages;
        self.metadata_bytes = self.metadata_bytes + metadata;
        system.application_committed_pages = system.application_committed_pages + pages;
        system.private_metadata_bytes = system.private_metadata_bytes + metadata;
        Ok(())
    }

    /// The frames of a growth are mapped: the heap is larger.
    pub fn growth_mapped(&mut self, pages: u64)
        requires
            old(self).well_formed(),
            old(self).heap_pages + pages <= old(self).heap_capacity_pages,
        ensures
            final(self).well_formed(),
            *final(self) == (NativeProcess {
                heap_pages: (old(self).heap_pages + pages) as u64,
                ..*old(self)
            }),
    {
        self.heap_pages = self.heap_pages + pages;
    }
}

/// A permitted growth keeps the heap inside its reserved window and the
/// process inside its limits.
pub proof fn permitted_growth_respects_limits(
    process: NativeProcess,
    system: SystemMemory,
    policy: ProcessPolicy,
    table_pages: u64,
    free_frames: u64,
    pages: u64,
)
    requires
        process.heap_verdict(system, policy, table_pages, free_frames, pages)
            == HeapVerdict::Permitted,
    ensures
        0 < pages <= MAX_NATIVE_BATCH_PAGES,
        process.heap_pages + pages <= process.heap_capacity_pages,
        process.committed_pages + pages <= process.limits.mapped_pages,
        process.resident() + pages <= process.limits.resident_pages,
        pages + system.minimum_free_pages <= free_frames,
        !exceeds(process.committed_pages + pages, policy.maximum_committed_pages),
        !exceeds(system.application_committed_pages + pages, system.system_commit_limit),
{
}

/// What a heap growth does next.
#[derive(Clone, Copy, Debug, PartialEq, Eq, Structural)]
pub enum HeapAction {
    /// Claim the call.
    Claim,
    /// Reserve this many zeroed frames.
    Reserve(u64),
    /// Map the owned frames behind the heap.
    Commit,
    /// Give frames back.
    Release(ReleaseStep),
    /// Answer the call: whether the heap has grown.
    Answer(bool),
    /// The call has its answer.
    Answered(bool),
    /// The process can no longer go on.
    Failed,
}

/// What happened.
#[derive(Debug)]
pub enum HeapEvent {
    /// The call is claimed, while the machine has so many page tables in use
    /// and so many frames are free.
    Claimed(u64, u64),
    /// Frames were reserved; their list takes so much metadata.
    Reserved(Vec<PageRange>, u64),
    /// It was done.
    Done,
    /// It failed.
    Failed,
}

/// A heap growth in progress.
#[derive(Debug)]
pub struct HeapRun {
    /// Pages that the call asks for.
    pub pages: u64,
    /// Frames on their way back.
    pub release: FrameRelease,
    /// What is being done.
    pub doing: HeapAction,
}

impl HeapRun {
    /// Whether the release is under way exactly where it is being done.
    pub open spec fn well_formed(self) -> bool {
        match self.doing {
            HeapAction::Reserve(pages) => pages == self.pages,
            HeapAction::Release(step) => step == self.release.stands() && step
                != ReleaseStep::Finished && self.release.charge is None,
            _ => true,
        }
    }

    /// What a growth has found out about the process and the system.
    pub open spec fn fits(self, process: NativeProcess, system: SystemMemory) -> bool {
        match self.doing {
            HeapAction::Reserve(_) => !process.heap_full(system, self.pages as int),
            HeapAction::Commit => process.heap_pages + self.pages <= process.heap_capacity_pages,
            _ => true,
        }
    }

    /// Whether an event answers what is being done.
    pub open spec fn expects(self, event: HeapEvent) -> bool {
        match self.doing {
            HeapAction::Claim => event is Claimed || event is Failed,
            HeapAction::Reserve(pages) => event is Failed || (event matches HeapEvent::Reserved(
                extents,
                _,
            ) && all_well_formed(extents@) && total_pages(extents@) == pages),
            HeapAction::Answered(_) | HeapAction::Failed => false,
            _ => event is Done || event is Failed,
        }
    }

    /// Whether only what is being done differs.
    pub open spec fn goes_on(self, next: HeapRun, doing: HeapAction) -> bool {
        next == (HeapRun { doing, ..self })
    }

    /// Whether the frames are owned, or go back because their metadata is not
    /// allowed.
    pub open spec fn takes_frames(
        self,
        process: NativeProcess,
        system: SystemMemory,
        policy: ProcessPolicy,
        extents: Vec<PageRange>,
        metadata: u64,
        next: HeapRun,
        next_process: NativeProcess,
        next_system: SystemMemory,
    ) -> bool {
        if process.metadata_allowed(system, policy, metadata as int) {
            &&& self.goes_on(next, HeapAction::Commit)
            &&& next_process.heap_growth@ == process.heap_growth@.push(extents)
            &&& next_process == (NativeProcess {
                heap_growth: next_process.heap_growth,
                committed_pages: (process.committed_pages + self.pages) as u64,
                metadata_bytes: (process.metadata_bytes + metadata) as u64,
                ..process
            })
            &&& next_system == charged(system, self.pages as int, metadata as int)
        } else if process.reclamation_failed {
            &&& self.goes_on(next, HeapAction::Failed)
            &&& next_process == process && next_system == system
        } else {
            self.releases(
                FrameRelease::of(extents, None),
                NativeProcess { reclamation_failed: true, ..process },
                system,
                next,
                next_process,
                next_system,
            )
        }
    }

    /// Whether the release goes on; at its end the quarantine is lifted and the
    /// caller hears that there is no memory.
    pub open spec fn releases(
        self,
        release: FrameRelease,
        process: NativeProcess,
        system: SystemMemory,
        next: HeapRun,
        next_process: NativeProcess,
        next_system: SystemMemory,
    ) -> bool {
        &&& next.pages == self.pages && next.release == release
        &&& next_system == system
        &&& if release.stands() != ReleaseStep::Finished {
            next.doing == HeapAction::Release(release.stands()) && next_process == process
        } else {
            &&& next.doing == HeapAction::Answer(false)
            &&& next_process == (NativeProcess { reclamation_failed: false, ..process })
        }
    }

    /// Whether the rest follows an event.
    pub open spec fn leads(
        self,
        process: NativeProcess,
        system: SystemMemory,
        policy: ProcessPolicy,
        event: HeapEvent,
        next: HeapRun,
        next_process: NativeProcess,
        next_system: SystemMemory,
    ) -> bool {
        let same = next_process == process && next_system == system;
        match (self.doing, event) {
            (HeapAction::Claim, HeapEvent::Claimed(tables, free_frames)) => same && self.goes_on(
                next,
                match process.heap_verdict(system, policy, tables, free_frames, self.pages) {
                    HeapVerdict::Permitted => HeapAction::Reserve(self.pages),
                    HeapVerdict::Exhausted => HeapAction::Answer(false),
                    HeapVerdict::Broken => HeapAction::Failed,
                },
            ),
            (HeapAction::Reserve(_), HeapEvent::Reserved(extents, metadata)) => self.takes_frames(
                process,
                system,
                policy,
                extents,
                metadata,
                next,
                next_process,
                next_system,
            ),
            (HeapAction::Reserve(_), _) => same && self.goes_on(next, HeapAction::Answer(false)),
            (HeapAction::Commit, HeapEvent::Done) => {
                &&& self.goes_on(next, HeapAction::Answer(true))
                &&& next_process == (NativeProcess {
                    heap_pages: (process.heap_pages + self.pages) as u64,
                    ..process
                })
                &&& next_system == system
            },
            (HeapAction::Release(_), HeapEvent::Done) => self.releases(
                self.release.advanced(),
                process,
                system,
                next,
                next_process,
                next_system,
            ),
            (HeapAction::Answer(grown), HeapEvent::Done) => same && self.goes_on(
                next,
                HeapAction::Answered(grown),
            ),
            _ => same && self.goes_on(next, HeapAction::Failed),
        }
    }

    /// Start a growth by `pages` pages.
    pub fn start(pages: u64) -> (run: Self)
        ensures
            run.well_formed(),
            run.pages == pages,
            run.release.is_empty(),
            run.doing == HeapAction::Claim,
    {
        HeapRun { pages, release: FrameRelease::start(Vec::new(), None), doing: HeapAction::Claim }
    }

    fn go_on_releasing(&mut self, process: &mut NativeProcess)
        requires
            old(self).release.charge is None,
            old(process).well_formed(),
        ensures
            final(self).well_formed(),
            final(process).well_formed(),
            forall|system: SystemMemory|
                #[trigger] final(self).fits(*final(process), system) && old(self).releases(
                    old(self).release,
                    *old(process),
                    system,
                    *final(self),
                    *final(process),
                    system,
                ),
    {
        let step = self.release.current();
        self.doing = match step {
            ReleaseStep::Finished => {
                process.unpublished_released();
                HeapAction::Answer(false)
            },
            step => HeapAction::Release(step),
        };
    }

    fn take_frames(
        &mut self,
        process: &mut NativeProcess,
        system: &mut SystemMemory,
        policy: &ProcessPolicy,
        extents: Vec<PageRange>,
        metadata: u64,
    )
        requires
            old(self).well_formed(),
            old(self).doing is Reserve,
            old(self).fits(*old(process), *old(system)),
            old(process).well_formed(),
            all_well_formed(extents@),
        ensures
            final(self).well_formed(),
            final(self).fits(*final(process), *final(system)),
            final(process).well_formed(),
            old(self).takes_frames(
                *old(process),
                *old(system),
                *policy,
                extents,
                metadata,
                *final(self),
                *final(process),
                *final(system),
            ),
    {
        match process.own_growth(system, policy, extents, self.pages, metadata) {
            Ok(()) => {
                self.doing = HeapAction::Commit;
            },
            Err(back) => {
                if process.begin_unpublished_release() {
                    self.release = FrameRelease::start(back, None);
                    self.go_on_releasing(process);
                    assert(self.fits(*process, *system));
                } else {
                    self.doing = HeapAction::Failed;
                }
            },
        }
    }

    /// Take an event and go on.
    pub fn observe(
        &mut self,
        process: &mut NativeProcess,
        system: &mut SystemMemory,
        policy: &ProcessPolicy,
        event: HeapEvent,
    ) -> (action: HeapAction)
        requires
            old(self).well_formed(),
            old(self).expects(event),
            old(self).fits(*old(process), *old(system)),
            old(process).well_formed(),
        ensures
            final(self).well_formed(),
            final(self).fits(*final(process), *final(system)),
            final(process).well_formed(),
            old(self).leads(
                *old(process),
                *old(system),
                *policy,
                event,
                *final(self),
                *final(process),
                *final(system),
            ),
            action == final(self).doing,
    {
        match (self.doing, event) {
            (HeapAction::Claim, HeapEvent::Claimed(tables, free_frames)) => {
                self.doing = match process.can_grow(
                    system,
                    policy,
                    tables,
                    free_frames,
                    self.pages,
                ) {
                    HeapVerdict::Permitted => HeapAction::Reserve(self.pages),
                    HeapVerdict::Exhausted => HeapAction::Answer(false),
                    HeapVerdict::Broken => HeapAction::Failed,
                };
            },
            (HeapAction::Reserve(_), HeapEvent::Reserved(extents, metadata)) => self.take_frames(
                process,
                system,
                policy,
                extents,
                metadata,
            ),
            (HeapAction::Reserve(_), _) => {
                self.doing = HeapAction::Answer(false);
            },
            (HeapAction::Commit, HeapEvent::Done) => {
                process.growth_mapped(self.pages);
                self.doing = HeapAction::Answer(true);
            },
            (HeapAction::Release(_), HeapEvent::Done) => {
                self.release.advance();
                self.go_on_releasing(process);
                assert(self.fits(*process, *system));
            },
            (HeapAction::Answer(grown), HeapEvent::Done) => {
                self.doing = HeapAction::Answered(grown);
            },
            _ => {
                self.doing = HeapAction::Failed;
            },
        }
        self.doing
    }

    /// How many phases follow at most.
    pub open spec fn phases_left(self) -> int {
        match self.doing {
            HeapAction::Claim => 5,
            HeapAction::Reserve(_) => 4,
            HeapAction::Commit => 3,
            HeapAction::Release(_) => 2,
            HeapAction::Answer(_) => 1,
            HeapAction::Answered(_) | HeapAction::Failed => 0,
        }
    }
}

/// A heap growth comes to an end: each step leaves fewer phases, or fewer steps
/// of the release.
pub proof fn heap_growth_comes_to_an_end(
    run: HeapRun,
    process: NativeProcess,
    system: SystemMemory,
    policy: ProcessPolicy,
    event: HeapEvent,
    next: HeapRun,
    next_process: NativeProcess,
    next_system: SystemMemory,
)
    requires
        run.well_formed(),
        run.expects(event),
        run.leads(process, system, policy, event, next, next_process, next_system),
    ensures
        next.phases_left() >= 0,
        next.phases_left() < run.phases_left() || (next.phases_left() == run.phases_left() && 0
            <= next.release.steps_left() < run.release.steps_left()),
{
    assert(run.release.ranges.len() == run.release.ranges@.len());
}

/// A growth is granted only once the frames are owned and mapped: the pages of
/// the heap change in the step before the caller hears of them, and in no other.
pub proof fn heaps_grow_as_told(
    run: HeapRun,
    process: NativeProcess,
    system: SystemMemory,
    policy: ProcessPolicy,
    event: HeapEvent,
    next: HeapRun,
    next_process: NativeProcess,
    next_system: SystemMemory,
)
    requires
        run.well_formed(),
        run.expects(event),
        run.fits(process, system),
        run.leads(process, system, policy, event, next, next_process, next_system),
    ensures
        next_process.heap_pages == process.heap_pages + (if next.doing == HeapAction::Answer(true) {
            run.pages as int
        } else {
            0
        }),
        next.doing == HeapAction::Answer(true) ==> run.doing == HeapAction::Commit,
        next.doing == HeapAction::Answered(true) ==> run.doing == HeapAction::Answer(true),
{
}

/// A growth is permitted exactly where a positive, bounded number of pages fits
/// into the heap's window, its record into the list of growths, and the pages
/// committed, resident, free and used for tables afterwards into their limits.
pub proof fn heaps_grow_within_every_limit(
    process: NativeProcess,
    system: SystemMemory,
    policy: ProcessPolicy,
    table_pages: u64,
    free_frames: u64,
    pages: u64,
)
    ensures
        ({
            let verdict = process.heap_verdict(system, policy, table_pages, free_frames, pages);
            let committed = process.committed_pages + pages;
            let total = system.application_committed_pages + pages;
            let tables = process.tables->0.pages();
            let resident = process.committed_pages + tables + process.tls_backing_pages + pages;
            let ordinary = resident - 2 * process.threads@.len();
            let start = process.heap_address + 4096 * process.heap_pages;
            verdict == HeapVerdict::Permitted <==> {
                &&& 1 <= pages <= 256
                &&& process.heap_growth@.len() < 128
                &&& process.heap_pages + pages <= process.heap_capacity_pages
                &&& process.tables is Some
                &&& committed <= process.limits.mapped_pages
                &&& committed <= u64::MAX && total <= u64::MAX && resident <= u64::MAX
                &&& 4096 <= start <= u64::MAX
                &&& resident <= process.limits.resident_pages
                &&& ordinary <= process.limits.ordinary_frames
                &&& pages + system.minimum_free_pages <= free_frames
                &&& (policy.maximum_committed_pages matches Some(limit) ==> committed <= limit)
                &&& (system.system_commit_limit matches Some(limit) ==> total <= limit)
                &&& table_pages + new_tables(start / 4096, pages as int) <= tables
            }
        }),
{
}

/// Frames for the heap are owned and charged before they are mapped, and only
/// where their metadata fits into every limit; otherwise they are given back.
pub proof fn heap_frames_are_owned_before_they_are_mapped(
    run: HeapRun,
    process: NativeProcess,
    system: SystemMemory,
    policy: ProcessPolicy,
    extents: Vec<PageRange>,
    metadata: u64,
    next: HeapRun,
    next_process: NativeProcess,
    next_system: SystemMemory,
)
    requires
        run.doing is Reserve,
        run.fits(process, system),
        run.leads(
            process,
            system,
            policy,
            HeapEvent::Reserved(extents, metadata),
            next,
            next_process,
            next_system,
        ),
    ensures
        ({
            let allowed = process.metadata_bytes + metadata <= process.limits.metadata_bytes
                && process.metadata_bytes + metadata <= policy.maximum_metadata_bytes
                && system.private_metadata_bytes + metadata <= system.global_metadata_limit;
            &&& allowed ==> {
                &&& next.doing == HeapAction::Commit
                &&& next_process.heap_growth@ == process.heap_growth@.push(extents)
                &&& next_process.committed_pages == process.committed_pages + run.pages
                &&& next_process.metadata_bytes == process.metadata_bytes + metadata
                &&& next_system.application_committed_pages == system.application_committed_pages
                    + run.pages
                &&& next_system.private_metadata_bytes == system.private_metadata_bytes + metadata
            }
            &&& !allowed ==> {
                &&& next_system == system
                &&& next_process.heap_growth == process.heap_growth
                &&& next_process.committed_pages == process.committed_pages
                &&& next_process.metadata_bytes == process.metadata_bytes
            }
            &&& !allowed && process.reclamation_failed ==> next.doing == HeapAction::Failed
            &&& !allowed && !process.reclamation_failed && extents@.len() > 0 ==> next.doing
                == HeapAction::Release(ReleaseStep::Zero(extents@[0])) && next.release.ranges
                == extents
            &&& !allowed && !process.reclamation_failed && extents@.len() == 0 ==> next.doing
                == HeapAction::Answer(false)
        }),
{
}

/// Where nothing fails, a growth is judged, its frames reserved, mapped and
/// answered with yes; one that is not permitted is answered with no.
pub proof fn heap_growth_goes_step_by_step(
    run: HeapRun,
    process: NativeProcess,
    system: SystemMemory,
    policy: ProcessPolicy,
    tables: u64,
    free_frames: u64,
    next: HeapRun,
    next_process: NativeProcess,
    next_system: SystemMemory,
)
    ensures
        run.doing == HeapAction::Claim && run.leads(
            process,
            system,
            policy,
            HeapEvent::Claimed(tables, free_frames),
            next,
            next_process,
            next_system,
        ) ==> {
            let verdict = process.heap_verdict(system, policy, tables, free_frames, run.pages);
            &&& verdict == HeapVerdict::Permitted <==> next.doing == HeapAction::Reserve(run.pages)
            &&& verdict == HeapVerdict::Exhausted <==> next.doing == HeapAction::Answer(false)
            &&& verdict == HeapVerdict::Broken <==> next.doing == HeapAction::Failed
            &&& next_process == process && next_system == system
        },
        run.doing is Reserve && run.leads(
            process,
            system,
            policy,
            HeapEvent::Failed,
            next,
            next_process,
            next_system,
        ) ==> next.doing == HeapAction::Answer(false) && next_process == process && next_system
            == system,
        (run.doing is Claim || run.doing is Commit || run.doing is Release || run.doing is Answer)
            && run.leads(
            process,
            system,
            policy,
            HeapEvent::Failed,
            next,
            next_process,
            next_system,
        ) ==> next.doing == HeapAction::Failed && next_process == process,
{
}

} // verus!
