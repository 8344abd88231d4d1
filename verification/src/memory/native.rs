//! Native processes: their memory budgets, worker threads and heap growth.

use crate::memory::extents::all_well_formed;
use crate::memory::isolated::Architecture;
use crate::memory::pages::{PageRange, PAGE_SIZE};
use crate::memory::private::space::{exceeds, SystemMemory};
use vstd::prelude::*;

pub mod execution;
pub mod heap;
pub mod load;
pub mod loading;
pub mod prepare;
pub mod preparing;
pub mod reclaiming;
pub mod releasing;
pub mod retiring;

verus! {

/// Most pages that one worker preparation or heap commit takes.
pub const MAX_NATIVE_BATCH_PAGES: u64 = 256;

/// Bounds of one native process.
#[derive(Clone, Copy, Debug, PartialEq, Eq, Structural)]
pub struct NativeLimits {
    /// Most mapped pages.
    pub mapped_pages: u64,
    /// Most resident pages, page tables and TLS backing included.
    pub resident_pages: u64,
    /// Most reserved virtual pages.
    pub reserved_pages: u64,
    /// Most ordinary frames.
    pub ordinary_frames: u64,
    /// Most message page pairs.
    pub ipc_pairs: u64,
    /// Most thread-local pages.
    pub tls_pages: u64,
    /// Most threads.
    pub contexts: usize,
    /// Most metadata bytes.
    pub metadata_bytes: u64,
    /// Page-table pages kept for workers.
    pub extra_table_pages: u64,
}

/// Limits that apply to every process.
#[derive(Clone, Copy, Debug, PartialEq, Eq, Structural)]
pub struct ProcessPolicy {
    /// Most committed pages, if limited.
    pub maximum_committed_pages: Option<u64>,
    /// Most metadata bytes.
    pub maximum_metadata_bytes: u64,
}

/// Name of a thread: its slot, and how often the slot was used before.
#[derive(Clone, Copy, Debug, PartialEq, Eq, Structural)]
pub struct ThreadKey {
    /// Slot.
    pub slot: u32,
    /// Use of the slot.
    pub generation: u32,
}

/// The reserved address window of one thread and what it costs.
#[derive(Clone, Copy, Debug, PartialEq, Eq, Structural)]
pub struct ThreadWindow {
    /// First byte address.
    pub base: u64,
    /// Byte address after the last byte.
    pub end: u64,
    /// Stack pages.
    pub stack: PageRange,
    /// Thread-local pages.
    pub tls: PageRange,
    /// Message pages.
    pub ipc: PageRange,
    /// Startup page.
    pub startup: PageRange,
    /// Thread pointer.
    pub thread_pointer: u64,
    /// Mapped pages.
    pub mapped_pages: u64,
    /// Reserved pages.
    pub reserved_pages: u64,
    /// Page tables that the window may need.
    pub table_pages: u64,
}

impl ThreadWindow {
    /// Whether two windows share an address.
    pub open spec fn overlaps(self, other: ThreadWindow) -> bool {
        self.base < other.end && other.base < self.end
    }
}

/// One thread with its frames.
#[derive(Debug)]
pub struct NativeThread {
    /// Name.
    pub key: ThreadKey,
    /// Address window.
    pub window: ThreadWindow,
    /// Frames behind stack, thread-local storage and startup page.
    pub backing: Vec<PageRange>,
    /// Metadata charge of the backing.
    pub metadata_bytes: u64,
}

/// Memory of one native process.
#[derive(Debug)]
pub struct NativeProcess {
    /// Threads; the first one is the initial thread.
    pub threads: Vec<NativeThread>,
    /// Frames of image, startup page and initial heap.
    pub shared: Vec<PageRange>,
    /// Page-table frames, once allocated.
    pub tables: Option<PageRange>,
    /// Committed pages.
    pub committed_pages: u64,
    /// Metadata charge.
    pub metadata_bytes: u64,
    /// Bounds.
    pub limits: NativeLimits,
    /// Executable image ranges as byte offsets.
    pub executable: Vec<(u64, u64)>,
    /// Processor family.
    pub architecture: Architecture,
    /// Frames of each heap growth.
    pub heap_growth: Vec<Vec<PageRange>>,
    /// Mapped heap pages.
    pub heap_pages: u64,
    /// Most heap pages.
    pub heap_capacity_pages: u64,
    /// Heap address.
    pub heap_address: u64,
    /// Pages behind the thread-local template.
    pub tls_backing_pages: u64,
    /// Thread-local pages of each thread.
    pub tls_layout_pages: u64,
    /// First byte address of the shared reservation.
    pub shared_start: u64,
    /// Byte address after the shared reservation.
    pub shared_end: u64,
    /// Whether no further thread may be created.
    pub creation_stopped: bool,
    /// Whether frames could not be released; everything stays quarantined.
    pub reclamation_failed: bool,
}

/// The sum of the first `n` numbers.
pub open spec fn sum(numbers: Seq<u64>, n: int) -> int
    decreases n,
{
    if n <= 0 {
        0
    } else {
        sum(numbers, n - 1) + numbers[n - 1]
    }
}

/// The reserved pages of each thread.
pub open spec fn reserved_pages(threads: Seq<NativeThread>) -> Seq<u64> {
    Seq::new(threads.len(), |i: int| threads[i].window.reserved_pages)
}

/// The mapped pages of each thread.
pub open spec fn mapped_pages(threads: Seq<NativeThread>) -> Seq<u64> {
    Seq::new(threads.len(), |i: int| threads[i].window.mapped_pages)
}

/// The metadata charge of each thread.
pub open spec fn metadata_charges(threads: Seq<NativeThread>) -> Seq<u64> {
    Seq::new(threads.len(), |i: int| threads[i].metadata_bytes)
}

/// The system totals with pages and metadata added.
pub open spec fn charged(system: SystemMemory, pages: int, metadata: int) -> SystemMemory {
    SystemMemory {
        application_committed_pages: (system.application_committed_pages + pages) as u64,
        private_metadata_bytes: (system.private_metadata_bytes + metadata) as u64,
        ..system
    }
}

/// The system totals without a charge. The pages are taken out first, and stay
/// taken out where the metadata cannot be.
pub open spec fn uncharged(system: SystemMemory, pages: u64, metadata: u64) -> SystemMemory {
    if pages > system.application_committed_pages {
        system
    } else if metadata > system.private_metadata_bytes {
        charged(system, -pages, 0)
    } else {
        charged(system, -pages, -metadata)
    }
}

/// A refund undoes a charge that the totals can hold.
pub proof fn refund_undoes_charge(system: SystemMemory, pages: int, metadata: int)
    requires
        0 <= pages <= u64::MAX - system.application_committed_pages,
        0 <= metadata <= u64::MAX - system.private_metadata_bytes,
    ensures
        charged(charged(system, pages, metadata), -pages, -metadata) == system,
        uncharged(charged(system, pages, metadata), pages as u64, metadata as u64) == system,
{
}

/// Why a worker is not prepared.
#[derive(Clone, Copy, Debug, PartialEq, Eq, Structural)]
pub enum PrepareFailure {
    /// The request is wrong.
    InvalidRequest,
    /// A limit is reached.
    Exhausted,
}

/// Bounds for the window of one more thread.
#[derive(Clone, Copy, Debug, PartialEq, Eq, Structural)]
pub struct ThreadBudget {
    /// Most mapped pages.
    pub mapped_pages: u64,
    /// Most resident pages.
    pub resident_pages: u64,
    /// Most reserved pages.
    pub reserved_pages: u64,
    /// Most ordinary frames.
    pub ordinary_frames: u64,
    /// Most message page pairs.
    pub ipc_pairs: u64,
}

/// `a - b`, or zero where `b` is larger.
pub open spec fn less(a: int, b: int) -> int {
    if a >= b {
        a - b
    } else {
        0
    }
}

/// The smaller of two numbers.
pub open spec fn smaller(a: int, b: int) -> int {
    if a <= b {
        a
    } else {
        b
    }
}

impl NativeProcess {
    /// Pages that are resident: committed ones, page tables, TLS template.
    pub open spec fn resident(self) -> int {
        self.committed_pages + (match self.tables {
            Some(tables) => tables.pages(),
            None => 0,
        }) + self.tls_backing_pages
    }

    /// Reserved virtual pages.
    pub open spec fn reserved(self) -> int {
        (self.shared_end - self.shared_start) / 4096 + sum(
            reserved_pages(self.threads@),
            self.threads@.len() as int,
        )
    }

    /// Whether `entry_offset` lies in executable code and on an instruction.
    pub open spec fn enterable(self, entry_offset: u64) -> bool {
        &&& exists|i: int|
            0 <= i < self.executable@.len() && (#[trigger] self.executable@[i]).0 <= entry_offset
                < self.executable@[i].1
        &&& self.architecture == Architecture::Aarch64 ==> entry_offset % 4 == 0
    }

    /// The bounds for one more thread, or why there can be none.
    pub open spec fn budget(
        self,
        system: SystemMemory,
        running: bool,
        entry_offset: u64,
        stack_pages: u64,
        free_frames: u64,
    ) -> Result<ThreadBudget, PrepareFailure> {
        let count = self.threads@.len() as int;
        if self.creation_stopped || !running {
            Err(PrepareFailure::Exhausted)
        } else if !self.enterable(entry_offset) || stack_pages == 0 {
            Err(PrepareFailure::InvalidRequest)
        } else if count >= self.limits.contexts || self.tables is None || self.resident()
            > u64::MAX || self.reserved() > u64::MAX {
            Err(PrepareFailure::Exhausted)
        } else {
            Ok(
                ThreadBudget {
                    mapped_pages: less(
                        self.limits.mapped_pages as int,
                        self.committed_pages as int,
                    ) as u64,
                    resident_pages: less(
                        self.limits.resident_pages as int,
                        self.resident(),
                    ) as u64,
                    reserved_pages: less(
                        self.limits.reserved_pages as int,
                        self.reserved(),
                    ) as u64,
                    ordinary_frames: smaller(
                        less(free_frames as int, system.minimum_free_pages as int),
                        less(
                            self.limits.ordinary_frames as int,
                            less(self.resident(), 2 * count),
                        ),
                    ) as u64,
                    ipc_pairs: less(self.limits.ipc_pairs as int, count) as u64,
                },
            )
        }
    }

    /// What the owner requires of itself.
    pub open spec fn well_formed(self) -> bool {
        &&& self.shared_start <= self.shared_end
        &&& self.tables matches Some(tables) ==> tables.well_formed()
        &&& all_well_formed(self.shared@)
        &&& forall|i: int|
            0 <= i < self.threads@.len() ==> all_well_formed(
                (#[trigger] self.threads@[i]).backing@,
            )
        &&& forall|i: int|
            0 <= i < self.heap_growth@.len() ==> all_well_formed(
                (#[trigger] self.heap_growth@[i])@,
            )
        &&& sum(mapped_pages(self.threads@), self.threads@.len() as int)
            <= self.committed_pages
        &&& sum(metadata_charges(self.threads@), self.threads@.len() as int)
            <= self.metadata_bytes
    }

    fn entry_is_executable(&self, entry_offset: u64) -> (yes: bool)
        ensures
            yes == self.enterable(entry_offset),
    {
        let mut found = false;
        let mut i: usize = 0;
        while i < self.executable.len()
            invariant
                i <= self.executable@.len(),
                found == exists|k: int|
                    0 <= k < i && (#[trigger] self.executable@[k]).0 <= entry_offset
                        < self.executable@[k].1,
            decreases self.executable@.len() - i,
        {
            let range = self.executable[i];
            if range.0 <= entry_offset && entry_offset < range.1 {
                assert(self.executable@[i as int].0 <= entry_offset
                    < self.executable@[i as int].1);
                found = true;
            }
            i = i + 1;
        }
        found && (matches!(self.architecture, Architecture::X86_64) || entry_offset % 4 == 0)
    }

    fn reserved_pages(&self) -> (pages: Option<u64>)
        requires
            self.well_formed(),
        ensures
            match pages {
                Some(p) => p == self.reserved(),
                None => self.reserved() > u64::MAX,
            },
    {
        let mut total: u64 = (self.shared_end - self.shared_start) / PAGE_SIZE;
        let ghost base = total as int;
        let mut i: usize = 0;
        while i < self.threads.len()
            invariant
                i <= self.threads@.len(),
                base == (self.shared_end - self.shared_start) / 4096,
                total == base + sum(reserved_pages(self.threads@), i as int),
            decreases self.threads@.len() - i,
        {
            proof {
                lemma_sum_monotone(
                    reserved_pages(self.threads@),
                    i + 1,
                    self.threads@.len() as int,
                );
            }
            total = match total.checked_add(self.threads[i].window.reserved_pages) {
                Some(sum) => sum,
                None => return None,
            };
            i = i + 1;
        }
        Some(total)
    }

    fn resident_pages(&self) -> (pages: Option<u64>)
        requires
            self.well_formed(),
        ensures
            match pages {
                Some(p) => self.tables is Some && p == self.resident(),
                None => self.tables is None || self.resident() > u64::MAX,
            },
    {
        let tables: u64 = match self.tables {
            Some(tables) => tables.page_count(),
            None => return None,
        };
        match self.committed_pages.checked_add(tables) {
            Some(pages) => pages.checked_add(self.tls_backing_pages),
            None => None,
        }
    }

    /// The bounds for one more thread that enters at `entry_offset` with
    /// `stack_pages` stack pages; `running` tells whether the process runs.
    pub fn worker_budget(
        &self,
        system: &SystemMemory,
        running: bool,
        entry_offset: u64,
        stack_pages: u64,
        free_frames: u64,
    ) -> (budget: Result<ThreadBudget, PrepareFailure>)
        requires
            self.well_formed(),
        ensures
            budget == self.budget(*system, running, entry_offset, stack_pages, free_frames),
    {
        if self.creation_stopped || !running {
            return Err(PrepareFailure::Exhausted);
        }
        if !self.entry_is_executable(entry_offset) || stack_pages == 0 {
            return Err(PrepareFailure::InvalidRequest);
        }
        if self.threads.len() >= self.limits.contexts {
            return Err(PrepareFailure::Exhausted);
        }
        let resident: u64 = match self.resident_pages() {
            Some(pages) => pages,
            None => return Err(PrepareFailure::Exhausted),
        };
        let reserved: u64 = match self.reserved_pages() {
            Some(pages) => pages,
            None => return Err(PrepareFailure::Exhausted),
        };
        let count: u64 = self.threads.len() as u64;
        let spare: u64 = free_frames.saturating_sub(system.minimum_free_pages);
        let ordinary_held: u64 = resident.saturating_sub(count).saturating_sub(count);
        let ordinary: u64 = self.limits.ordinary_frames.saturating_sub(ordinary_held);
        Ok(
            ThreadBudget {
                mapped_pages: self.limits.mapped_pages.saturating_sub(self.committed_pages),
                resident_pages: self.limits.resident_pages.saturating_sub(resident),
                reserved_pages: self.limits.reserved_pages.saturating_sub(reserved),
                ordinary_frames: if spare <= ordinary {
                    spare
                } else {
                    ordinary
                },
                ipc_pairs: self.limits.ipc_pairs.saturating_sub(count),
            },
        )
    }

    /// Whether a window shares an address with the process so far.
    pub open spec fn window_taken(self, window: ThreadWindow) -> bool {
        ||| window.base < self.shared_end && self.shared_start < window.end
        ||| exists|i: int|
            0 <= i < self.threads@.len() && window.overlaps(
                (#[trigger] self.threads@[i]).window,
            )
    }

    /// Whether a window may be used, or why not; `table_pages` page tables are
    /// in use.
    pub open spec fn window_verdict(
        self,
        system: SystemMemory,
        policy: ProcessPolicy,
        table_pages: u64,
        window: ThreadWindow,
    ) -> Result<(), PrepareFailure> {
        let pages = window.mapped_pages;
        let committed = self.committed_pages + pages;
        let global = system.application_committed_pages + pages;
        if self.window_taken(window) {
            Err(PrepareFailure::InvalidRequest)
        } else if committed > u64::MAX || global > u64::MAX || pages > MAX_NATIVE_BATCH_PAGES
            || exceeds(committed, policy.maximum_committed_pages) || exceeds(
            global,
            system.system_commit_limit,
        ) || self.tables is None || table_pages + window.table_pages > self.tables->0.pages()
            || self.tls_layout_pages * (self.threads@.len() + 1) > self.limits.tls_pages {
            Err(PrepareFailure::Exhausted)
        } else {
            Ok(())
        }
    }

    /// Check a window against the process and the system.
    pub fn accept_window(
        &self,
        system: &SystemMemory,
        policy: &ProcessPolicy,
        table_pages: u64,
        window: &ThreadWindow,
    ) -> (verdict: Result<(), PrepareFailure>)
        requires
            self.well_formed(),
            self.threads@.len() < self.limits.contexts,
        ensures
            verdict == self.window_verdict(*system, *policy, table_pages, *window),
    {
        if window.base < self.shared_end && self.shared_start < window.end {
            return Err(PrepareFailure::InvalidRequest);
        }
        let mut i: usize = 0;
        while i < self.threads.len()
            invariant
                i <= self.threads@.len(),
                !(window.base < self.shared_end && self.shared_start < window.end),
                forall|k: int|
                    0 <= k < i ==> !window.overlaps((#[trigger] self.threads@[k]).window),
            decreases self.threads@.len() - i,
        {
            let other = self.threads[i].window;
            if window.base < other.end && other.base < window.end {
                assert(window.overlaps(self.threads@[i as int].window));
                return Err(PrepareFailure::InvalidRequest);
            }
            i = i + 1;
        }
        let pages: u64 = window.mapped_pages;
        let committed: u64 = match self.committed_pages.checked_add(pages) {
            Some(sum) => sum,
            None => return Err(PrepareFailure::Exhausted),
        };
        let global: u64 = match system.application_committed_pages.checked_add(pages) {
            Some(sum) => sum,
            None => return Err(PrepareFailure::Exhausted),
        };
        let retained: u64 = match self.tables {
            Some(tables) => tables.page_count(),
            None => return Err(PrepareFailure::Exhausted),
        };
        let process_full = match policy.maximum_committed_pages {
            Some(limit) => committed > limit,
            None => false,
        };
        let system_full = match system.system_commit_limit {
            Some(limit) => global > limit,
            None => false,
        };
        let tables_full = match table_pages.checked_add(window.table_pages) {
            Some(needed) => needed > retained,
            None => true,
        };
        let threads: u64 = (self.threads.len() + 1) as u64;
        let tls_full = match self.tls_layout_pages.checked_mul(threads) {
            Some(needed) => needed > self.limits.tls_pages,
            None => true,
        };
        if pages > MAX_NATIVE_BATCH_PAGES || process_full || system_full || tables_full
            || tls_full {
            return Err(PrepareFailure::Exhausted);
        }
        Ok(())
    }

    /// Whether `bytes` more metadata respect every limit.
    pub open spec fn metadata_allowed(
        self,
        system: SystemMemory,
        policy: ProcessPolicy,
        bytes: int,
    ) -> bool {
        &&& self.metadata_bytes + bytes <= self.limits.metadata_bytes
        &&& self.metadata_bytes + bytes <= policy.maximum_metadata_bytes
        &&& system.private_metadata_bytes + bytes <= system.global_metadata_limit
    }

    /// Whether `bytes` more metadata respect every limit.
    pub fn can_charge_metadata(&self, system: &SystemMemory, policy: &ProcessPolicy, bytes: u64) -> (allowed:
        bool)
        ensures
            allowed == self.metadata_allowed(*system, *policy, bytes as int),
    {
        let own = match self.metadata_bytes.checked_add(bytes) {
            Some(total) => total <= self.limits.metadata_bytes && total
                <= policy.maximum_metadata_bytes,
            None => false,
        };
        let global = match system.private_metadata_bytes.checked_add(bytes) {
            Some(total) => total <= system.global_metadata_limit,
            None => false,
        };
        own && global
    }

    /// Charge metadata where every limit allows it.
    pub fn charge_resident_metadata(
        &mut self,
        system: &mut SystemMemory,
        policy: &ProcessPolicy,
        bytes: u64,
    ) -> (charged: bool)
        ensures
            charged == old(self).metadata_allowed(*old(system), *policy, bytes as int),
            charged ==> {
                &&& *final(self) == (NativeProcess {
                    metadata_bytes: (old(self).metadata_bytes + bytes) as u64,
                    ..*old(self)
                })
                &&& *final(system) == (SystemMemory {
                    private_metadata_bytes: (old(system).private_metadata_bytes + bytes) as u64,
                    ..*old(system)
                })
            },
            !charged ==> *final(self) == *old(self) && *final(system) == *old(system),
    {
        if !self.can_charge_metadata(system, policy, bytes) {
            return false;
        }
        self.metadata_bytes = self.metadata_bytes + bytes;
        system.private_metadata_bytes = system.private_metadata_bytes + bytes;
        true
    }

    /// Own a prepared worker: its frames and charges enter the totals.
    pub fn own_thread(&mut self, system: &mut SystemMemory, thread: NativeThread)
        requires
            old(self).well_formed(),
            all_well_formed(thread.backing@),
            old(self).committed_pages + thread.window.mapped_pages <= u64::MAX,
            old(self).metadata_bytes + thread.metadata_bytes <= u64::MAX,
            old(system).application_committed_pages + thread.window.mapped_pages <= u64::MAX,
            old(system).private_metadata_bytes + thread.metadata_bytes <= u64::MAX,
        ensures
            final(self).well_formed(),
            final(self).threads@ == old(self).threads@.push(thread),
            *final(self) == (NativeProcess {
                threads: final(self).threads,
                committed_pages: (old(self).committed_pages + thread.window.mapped_pages) as u64,
                metadata_bytes: (old(self).metadata_bytes + thread.metadata_bytes) as u64,
                ..*old(self)
            }),
            *final(system) == charged(
                *old(system),
                thread.window.mapped_pages as int,
                thread.metadata_bytes as int,
            ),
    {
        let ghost before = self.threads@;
        self.committed_pages = self.committed_pages + thread.window.mapped_pages;
        self.metadata_bytes = self.metadata_bytes + thread.metadata_bytes;
        system.application_committed_pages = system.application_committed_pages
            + thread.window.mapped_pages;
        system.private_metadata_bytes = system.private_metadata_bytes + thread.metadata_bytes;
        self.threads.push(thread);
        proof {
            let n = before.len() as int;
            lemma_sum_same(mapped_pages(before), mapped_pages(self.threads@), n);
            lemma_sum_same(metadata_charges(before), metadata_charges(self.threads@), n);
        }
    }

    /// Quarantine the process while unpublished frames are released, unless it
    /// already is.
    pub fn begin_unpublished_release(&mut self) -> (begun: bool)
        ensures
            begun == !old(self).reclamation_failed,
            *final(self) == (NativeProcess { reclamation_failed: true, ..*old(self) }),
    {
        if self.reclamation_failed {
            return false;
        }
        self.reclamation_failed = true;
        true
    }

    /// Every unpublished frame is free again: lift the quarantine.
    pub fn unpublished_released(&mut self)
        ensures
            *final(self) == (NativeProcess { reclamation_failed: false, ..*old(self) }),
    {
        self.reclamation_failed = false;
    }

    /// Position of a thread.
    pub fn find_thread(&self, key: ThreadKey) -> (found: Option<usize>)
        ensures
            match found {
                Some(i) => i < self.threads@.len() && self.threads@[i as int].key == key
                    && forall|k: int| 0 <= k < i ==> (#[trigger] self.threads@[k]).key != key,
                None => forall|k: int|
                    0 <= k < self.threads@.len() ==> (#[trigger] self.threads@[k]).key != key,
            },
    {
        let mut i: usize = 0;
        while i < self.threads.len()
            invariant
                i <= self.threads@.len(),
                forall|k: int| 0 <= k < i ==> (#[trigger] self.threads@[k]).key != key,
            decreases self.threads@.len() - i,
        {
            if self.threads[i].key == key {
                return Some(i);
            }
            i = i + 1;
        }
        None
    }

    /// Let go of a thread's frames: it leaves the process before anything is
    /// released, and the process stays quarantined until
    /// [`NativeProcess::released`] reports success.
    ///
    /// Refuses an unknown thread and a quarantined process.
    pub fn begin_release(&mut self, key: ThreadKey) -> (thread: Option<NativeThread>)
        requires
            old(self).well_formed(),
        ensures
            final(self).well_formed(),
            match thread {
                Some(t) => {
                    &&& !old(self).reclamation_failed
                    &&& t.key == key
                    &&& exists|i: int|
                        {
                            &&& 0 <= i < old(self).threads@.len()
                            &&& #[trigger] old(self).threads@[i] == t
                            &&& final(self).threads@ =~= old(self).threads@.update(
                                i,
                                old(self).threads@.last(),
                            ).drop_last()
                        }
                    &&& *final(self) == (NativeProcess {
                        threads: final(self).threads,
                        committed_pages: (old(self).committed_pages - t.window.mapped_pages) as u64,
                        metadata_bytes: (old(self).metadata_bytes - t.metadata_bytes) as u64,
                        reclamation_failed: true,
                        ..*old(self)
                    })
                    &&& t.window.mapped_pages <= old(self).committed_pages
                    &&& t.metadata_bytes <= old(self).metadata_bytes
                },
                None => {
                    &&& *final(self) == *old(self)
                    &&& old(self).reclamation_failed || forall|k: int|
                        0 <= k < old(self).threads@.len() ==> (
                        #[trigger] old(self).threads@[k]).key != key
                },
            },
    {
        if self.reclamation_failed {
            return None;
        }
        let index: usize = match self.find_thread(key) {
            Some(index) => index,
            None => return None,
        };
        let pages: u64 = self.threads[index].window.mapped_pages;
        let metadata: u64 = self.threads[index].metadata_bytes;
        let ghost before = self.threads@;
        proof {
            let n = before.len() as int;
            lemma_sum_member(mapped_pages(before), index as int, n);
            lemma_sum_member(metadata_charges(before), index as int, n);
        }
        let thread = self.threads.swap_remove(index);
        self.committed_pages = self.committed_pages - pages;
        self.metadata_bytes = self.metadata_bytes - metadata;
        self.reclamation_failed = true;
        proof {
            assert(old(self).threads@[index as int] == thread);
            assert(self.threads@ =~= before.update(index as int, before.last()).drop_last());
            let mapped = mapped_pages(before);
            assert(mapped_pages(self.threads@) =~= mapped.update(
                index as int,
                mapped.last(),
            ).drop_last());
            lemma_sum_swap(mapped, mapped_pages(self.threads@), index as int);
            let charges = metadata_charges(before);
            assert(metadata_charges(self.threads@) =~= charges.update(
                index as int,
                charges.last(),
            ).drop_last());
            lemma_sum_swap(charges, metadata_charges(self.threads@), index as int);
            assert forall|i: int| 0 <= i < self.threads@.len() implies all_well_formed(
                (#[trigger] self.threads@[i]).backing@,
            ) by {
                if i == index {
                    assert(self.threads@[i] == before[before.len() - 1]);
                } else {
                    assert(self.threads@[i] == before[i]);
                }
            }
        }
        Some(thread)
    }

    /// The frames of a released thread are free again: lift the quarantine and
    /// refund the system.
    pub fn released(&mut self, system: &mut SystemMemory, pages: u64, metadata: u64) -> (refunded: bool)
        ensures
            refunded == (pages <= old(system).application_committed_pages && metadata <= old(system).private_metadata_bytes),
            *final(system) == uncharged(*old(system), pages, metadata),
            *final(self) == (if refunded {
                NativeProcess { reclamation_failed: false, ..*old(self) }
            } else {
                *old(self)
            }),
    {
        if pages > system.application_committed_pages {
            return false;
        }
        system.application_committed_pages = system.application_committed_pages - pages;
        if metadata > system.private_metadata_bytes {
            return false;
        }
        system.private_metadata_bytes = system.private_metadata_bytes - metadata;
        self.reclamation_failed = false;
        true
    }
}

pub(crate) proof fn lemma_sum_monotone(numbers: Seq<u64>, a: int, b: int)
    requires
        0 <= a <= b,
    ensures
        0 <= sum(numbers, a) <= sum(numbers, b),
    decreases b,
{
    if a < b {
        lemma_sum_monotone(numbers, a, b - 1);
    } else if b > 0 {
        lemma_sum_monotone(numbers, a - 1, b - 1);
    }
}

/// Equal prefixes have equal sums.
proof fn lemma_sum_same(a: Seq<u64>, b: Seq<u64>, n: int)
    requires
        0 <= n <= a.len(),
        n <= b.len(),
        forall|i: int| 0 <= i < n ==> a[i] == b[i],
    ensures
        sum(a, n) == sum(b, n),
    decreases n,
{
    if n > 0 {
        lemma_sum_same(a, b, n - 1);
    }
}

/// A number is at most the sum that it is part of.
pub(crate) proof fn lemma_sum_member(numbers: Seq<u64>, i: int, n: int)
    requires
        0 <= i < n <= numbers.len(),
    ensures
        numbers[i] <= sum(numbers, n),
    decreases n,
{
    lemma_sum_monotone(numbers, 0, n - 1);
    if i < n - 1 {
        lemma_sum_member(numbers, i, n - 1);
    }
}

/// Replacing one number changes the sum by the difference.
proof fn lemma_sum_update(numbers: Seq<u64>, i: int, x: u64, n: int)
    requires
        0 <= n <= numbers.len(),
        0 <= i < numbers.len(),
    ensures
        sum(numbers.update(i, x), n) == sum(numbers, n) + (if i < n {
            x - numbers[i]
        } else {
            0
        }),
    decreases n,
{
    if n > 0 {
        lemma_sum_update(numbers, i, x, n - 1);
    }
}

/// Filling the place of one number with the last takes it out of the sum.
proof fn lemma_sum_swap(numbers: Seq<u64>, rest: Seq<u64>, i: int)
    requires
        0 <= i < numbers.len(),
        rest == numbers.update(i, numbers.last()).drop_last(),
    ensures
        sum(rest, rest.len() as int) == sum(numbers, numbers.len() as int) - numbers[i],
{
    let n = numbers.len() as int;
    lemma_sum_update(numbers, i, numbers.last(), n);
    lemma_sum_same(rest, numbers.update(i, numbers.last()), n - 1);
}

/// A worker that fits into its budget keeps the process within each of its
/// limits, and the free frames above their minimum.
pub proof fn budgets_stay_within_the_limits(
    process: NativeProcess,
    system: SystemMemory,
    running: bool,
    entry_offset: u64,
    stack_pages: u64,
    free_frames: u64,
)
    requires
        process.well_formed(),
    ensures
        (process.budget(system, running, entry_offset, stack_pages, free_frames) matches Ok(budget)
            ==> {
            let tables = process.tables->0.pages();
            let resident = process.committed_pages + tables + process.tls_backing_pages;
            let threads = process.threads@.len() as int;
            &&& running && !process.creation_stopped && stack_pages > 0
            &&& threads < process.limits.contexts
            &&& process.tables is Some
            &&& process.committed_pages <= process.limits.mapped_pages ==> budget.mapped_pages
                + process.committed_pages == process.limits.mapped_pages
            &&& resident <= process.limits.resident_pages ==> budget.resident_pages + resident
                == process.limits.resident_pages
            &&& process.reserved() <= process.limits.reserved_pages ==> budget.reserved_pages
                + process.reserved() == process.limits.reserved_pages
            &&& process.committed_pages > process.limits.mapped_pages ==> budget.mapped_pages == 0
            &&& resident > process.limits.resident_pages ==> budget.resident_pages == 0
            &&& process.reserved() > process.limits.reserved_pages ==> budget.reserved_pages == 0
            &&& budget.ordinary_frames > 0 ==> budget.ordinary_frames + system.minimum_free_pages
                <= free_frames
            &&& budget.ordinary_frames > 0 && resident >= 2 * threads ==> budget.ordinary_frames
                + resident - 2 * threads <= process.limits.ordinary_frames
            &&& threads <= process.limits.ipc_pairs ==> budget.ipc_pairs + threads
                == process.limits.ipc_pairs
        }),
{
    lemma_sum_monotone(reserved_pages(process.threads@), 0, process.threads@.len() as int);
}

/// A worker is refused as invalid only where its entry is not in executable code
/// or it has no stack, and as exhausted where no worker could be created.
pub proof fn budgets_are_refused_for_their_reason(
    process: NativeProcess,
    system: SystemMemory,
    running: bool,
    entry_offset: u64,
    stack_pages: u64,
    free_frames: u64,
)
    ensures
        ({
            let budget = process.budget(system, running, entry_offset, stack_pages, free_frames);
            let entered = (exists|i: int|
                0 <= i < process.executable@.len() && (#[trigger] process.executable@[i]).0
                    <= entry_offset < process.executable@[i].1) && (process.architecture
                == Architecture::Aarch64 ==> entry_offset % 4 == 0);
            &&& process.creation_stopped || !running ==> budget == Err::<
                ThreadBudget,
                PrepareFailure,
            >(PrepareFailure::Exhausted)
            &&& !process.creation_stopped && running && (!entered || stack_pages == 0) ==> budget
                == Err::<ThreadBudget, PrepareFailure>(PrepareFailure::InvalidRequest)
            &&& !process.creation_stopped && running && entered && stack_pages > 0 && (
            process.threads@.len() >= process.limits.contexts || process.tables is None)
                ==> budget == Err::<ThreadBudget, PrepareFailure>(PrepareFailure::Exhausted)
        }),
{
}

/// A window is accepted only clear of the shared memory and of every other
/// thread's window, of a bounded size, and where the pages committed afterwards
/// stay within the limits of process and system, its tables within the tables of
/// the process and all thread-local storage within its limit.
pub proof fn accepted_windows_respect_every_limit(
    process: NativeProcess,
    system: SystemMemory,
    policy: ProcessPolicy,
    table_pages: u64,
    window: ThreadWindow,
    i: int,
)
    requires
        process.window_verdict(system, policy, table_pages, window) is Ok,
    ensures
        window.end <= process.shared_start || process.shared_end <= window.base,
        0 <= i < process.threads@.len() ==> window.end <= process.threads@[i].window.base
            || process.threads@[i].window.end <= window.base,
        window.mapped_pages <= 256,
        (policy.maximum_committed_pages matches Some(limit) ==> process.committed_pages
            + window.mapped_pages <= limit),
        (system.system_commit_limit matches Some(limit) ==> system.application_committed_pages
            + window.mapped_pages <= limit),
        process.tables is Some,
        table_pages + window.table_pages <= process.tables->0.pages(),
        process.tls_layout_pages * (process.threads@.len() + 1) <= process.limits.tls_pages,
{
    if 0 <= i < process.threads@.len() {
        assert(!window.overlaps(process.threads@[i].window));
    }
}

/// A window that overlaps shared memory or another thread's is an invalid
/// request, whatever the limits.
pub proof fn taken_windows_are_invalid(
    process: NativeProcess,
    system: SystemMemory,
    policy: ProcessPolicy,
    table_pages: u64,
    window: ThreadWindow,
    i: int,
    address: int,
)
    requires
        window.base <= address < window.end,
        (process.shared_start <= address < process.shared_end) || (0 <= i < process.threads@.len()
            && process.threads@[i].window.base <= address < process.threads@[i].window.end),
    ensures
        process.window_verdict(system, policy, table_pages, window) == Err::<(), PrepareFailure>(
            PrepareFailure::InvalidRequest,
        ),
{
    if 0 <= i < process.threads@.len() && process.threads@[i].window.base <= address
        < process.threads@[i].window.end {
        assert(window.overlaps(process.threads@[i].window));
    }
}

/// Metadata is charged exactly where the bytes of the process afterwards stay
/// within its own limit and that of every process, and those of the system
/// within the system's.
pub proof fn metadata_is_charged_within_every_limit(
    process: NativeProcess,
    system: SystemMemory,
    policy: ProcessPolicy,
    bytes: int,
)
    ensures
        process.metadata_allowed(system, policy, bytes) <==> process.metadata_bytes + bytes
            <= process.limits.metadata_bytes && process.metadata_bytes + bytes
            <= policy.maximum_metadata_bytes && system.private_metadata_bytes + bytes
            <= system.global_metadata_limit,
{
}

/// A charge adds its pages and bytes to the totals and touches nothing else; a
/// refund takes off the pages that the totals hold, and then the bytes.
pub proof fn charges_move_both_totals(system: SystemMemory, pages: u64, metadata: u64)
    ensures
        system.application_committed_pages + pages <= u64::MAX && system.private_metadata_bytes
            + metadata <= u64::MAX ==> {
            let after = charged(system, pages as int, metadata as int);
            &&& after.application_committed_pages == system.application_committed_pages + pages
            &&& after.private_metadata_bytes == system.private_metadata_bytes + metadata
            &&& after.system_commit_limit == system.system_commit_limit
            &&& after.minimum_free_pages == system.minimum_free_pages
            &&& after.global_metadata_limit == system.global_metadata_limit
        },
        ({
            let after = uncharged(system, pages, metadata);
            &&& pages <= system.application_committed_pages ==> after.application_committed_pages
                + pages == system.application_committed_pages
            &&& pages <= system.application_committed_pages && metadata
                <= system.private_metadata_bytes ==> after.private_metadata_bytes + metadata
                == system.private_metadata_bytes
            &&& pages > system.application_committed_pages ==> after == system
            &&& metadata > system.private_metadata_bytes ==> after.private_metadata_bytes
                == system.private_metadata_bytes
        }),
{
}

/// A window is accepted wherever nothing forbids it.
pub proof fn windows_are_accepted_where_nothing_forbids_it(
    process: NativeProcess,
    system: SystemMemory,
    policy: ProcessPolicy,
    table_pages: u64,
    window: ThreadWindow,
)
    requires
        window.end <= process.shared_start || process.shared_end <= window.base,
        forall|i: int|
            0 <= i < process.threads@.len() ==> window.end <= (
            #[trigger] process.threads@[i]).window.base || process.threads@[i].window.end
                <= window.base,
        window.mapped_pages <= 256,
        process.committed_pages + window.mapped_pages <= u64::MAX,
        system.application_committed_pages + window.mapped_pages <= u64::MAX,
        (policy.maximum_committed_pages matches Some(limit) ==> process.committed_pages
            + window.mapped_pages <= limit),
        (system.system_commit_limit matches Some(limit) ==> system.application_committed_pages
            + window.mapped_pages <= limit),
        process.tables is Some,
        table_pages + window.table_pages <= process.tables->0.pages(),
        process.tls_layout_pages * (process.threads@.len() + 1) <= process.limits.tls_pages,
    ensures
        process.window_verdict(system, policy, table_pages, window) is Ok,
{
}

} // verus!
