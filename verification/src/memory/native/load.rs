//! Loading a native process.

use crate::memory::extents::{
    all_well_formed, frames, lemma_frames_concat, lemma_frames_push, total_pages,
};
use crate::memory::launch::{
    admit_launch, keep_visible_kernel, launch_commit, visible_kernel, PlanRefusal, Segment,
};
use crate::memory::native::{
    charged, lemma_sum_monotone, less, mapped_pages, metadata_charges, smaller, sum, uncharged,
    NativeLimits, NativeProcess, NativeThread, ProcessPolicy, ThreadKey, ThreadWindow,
};
use crate::memory::isolated::Architecture;
use crate::memory::pages::PageRange;
use crate::memory::plan::{write_xor_execute, MappingPlan};
use crate::memory::private::mapping::Permissions;
use crate::memory::private::space::SystemMemory;
use crate::memory::regions::{map_regions, regions_fit, shows_regions, LaunchRegion};
use vstd::prelude::*;

verus! {

/// One region of a process image.
#[derive(Clone, Copy, Debug, PartialEq, Eq, Structural)]
pub struct ProcessRegion {
    /// Whether it belongs to a thread rather than to the whole process.
    pub thread: bool,
    /// First byte address.
    pub start: u64,
    /// Number of pages.
    pub pages: u64,
    /// Rights.
    pub permissions: Permissions,
}

/// What a verified image says of its process.
#[derive(Debug)]
pub struct NativeImage {
    /// Loadable parts with the bytes that each holds in the file.
    pub segments: Vec<(Segment, u64)>,
    /// Processor family.
    pub architecture: Architecture,
    /// Mapped heap pages.
    pub heap_pages: u64,
    /// Most heap pages.
    pub heap_capacity_pages: u64,
    /// Heap address.
    pub heap_address: u64,
    /// Pages behind the thread-local template.
    pub tls_backing_pages: u64,
    /// Thread-local pages of each thread.
    pub tls_layout_pages: u64,
    /// First byte address of the shared reservation.
    pub shared_start: u64,
    /// Byte address after the shared reservation.
    pub shared_end: u64,
}

/// The executable parts among the first `n`, as byte ranges of the image.
pub open spec fn executable_parts(segments: Seq<(Segment, u64)>, n: int) -> Seq<(u64, u64)>
    decreases n,
{
    if n <= 0 {
        Seq::empty()
    } else {
        let rest = executable_parts(segments, n - 1);
        let (segment, file_bytes) = segments[n - 1];
        if segment.permissions == Permissions::ReadExecute {
            rest.push((segment.image_offset, (segment.image_offset + file_bytes) as u64))
        } else {
            rest
        }
    }
}

/// Whether every executable part ends at a byte offset.
pub open spec fn parts_end(segments: Seq<(Segment, u64)>, n: int) -> bool {
    forall|i: int|
        0 <= i < n && (#[trigger] segments[i]).0.permissions == Permissions::ReadExecute
            ==> segments[i].0.image_offset + segments[i].1 <= u64::MAX
}

/// The executable parts of an image; fails where one does not end at a byte
/// offset.
pub fn executable_ranges(segments: &Vec<(Segment, u64)>) -> (ranges: Option<Vec<(u64, u64)>>)
    ensures
        match ranges {
            Some(r) => parts_end(segments@, segments@.len() as int) && r@ == executable_parts(
                segments@,
                segments@.len() as int,
            ),
            None => !parts_end(segments@, segments@.len() as int),
        },
{
    let mut ranges: Vec<(u64, u64)> = Vec::new();
    let mut i: usize = 0;
    while i < segments.len()
        invariant
            i <= segments@.len(),
            parts_end(segments@, i as int),
            ranges@ == executable_parts(segments@, i as int),
        decreases segments@.len() - i,
    {
        let (segment, file_bytes) = segments[i];
        if matches!(segment.permissions, Permissions::ReadExecute) {
            let end: u64 = match segment.image_offset.checked_add(file_bytes) {
                Some(end) => end,
                None => {
                    assert(segments@[i as int].0.permissions == Permissions::ReadExecute);
                    return None;
                },
            };
            ranges.push((segment.image_offset, end));
        }
        i = i + 1;
    }
    Some(ranges)
}

impl NativeProcess {
    /// An owner without any frame.
    ///
    /// Fails where no thread, or as many threads as there are message page
    /// pairs, are allowed, or where an executable part is not a byte range.
    pub fn empty(image: &NativeImage, limits: NativeLimits, message_pairs: usize) -> (process: Option<
        Self,
    >)
        requires
            image.shared_start <= image.shared_end,
        ensures
            process is Some == (0 < limits.contexts < message_pairs && parts_end(
                image.segments@,
                image.segments@.len() as int,
            )),
            process matches Some(p) ==> {
                &&& p.well_formed()
                &&& p.threads@.len() == 0 && p.shared@.len() == 0 && p.heap_growth@.len() == 0
                &&& p.tables is None
                &&& p.committed_pages == 0 && p.metadata_bytes == 0
                &&& p.limits == limits
                &&& p.executable@ == executable_parts(
                    image.segments@,
                    image.segments@.len() as int,
                )
                &&& p.architecture == image.architecture
                &&& p.heap_pages == image.heap_pages
                &&& p.heap_capacity_pages == image.heap_capacity_pages
                &&& p.heap_address == image.heap_address
                &&& p.tls_backing_pages == image.tls_backing_pages
                &&& p.tls_layout_pages == image.tls_layout_pages
                &&& p.shared_start == image.shared_start && p.shared_end == image.shared_end
                &&& !p.creation_stopped && !p.reclamation_failed
            },
    {
        if limits.contexts == 0 || limits.contexts >= message_pairs {
            return None;
        }
        let executable = match executable_ranges(&image.segments) {
            Some(ranges) => ranges,
            None => return None,
        };
        let threads: Vec<NativeThread> = Vec::new();
        let shared: Vec<PageRange> = Vec::new();
        let heap_growth: Vec<Vec<PageRange>> = Vec::new();
        Some(
            NativeProcess {
                threads,
                shared,
                tables: None,
                committed_pages: 0,
                metadata_bytes: 0,
                limits,
                executable,
                architecture: image.architecture,
                heap_growth,
                heap_pages: image.heap_pages,
                heap_capacity_pages: image.heap_capacity_pages,
                heap_address: image.heap_address,
                tls_backing_pages: image.tls_backing_pages,
                tls_layout_pages: image.tls_layout_pages,
                shared_start: image.shared_start,
                shared_end: image.shared_end,
                creation_stopped: false,
                reclamation_failed: false,
            },
        )
    }

    /// Charge the whole reservation of `pages` pages before any frame is
    /// taken, and enter the initial thread.
    pub fn charge_load(
        &mut self,
        system: &mut SystemMemory,
        policy: &ProcessPolicy,
        pages: u64,
        free_frames: u64,
        key: ThreadKey,
        window: ThreadWindow,
    ) -> (charged_pages: bool)
        requires
            old(self).well_formed(),
            old(self).threads@.len() == 0,
            window.mapped_pages <= pages,
        ensures
            final(self).well_formed(),
            charged_pages == launch_commit(
                *old(system),
                policy.maximum_committed_pages,
                pages,
                free_frames,
            ) is Some,
            charged_pages ==> {
                &&& final(self).threads@.len() == 1
                &&& final(self).threads@[0].key == key
                &&& final(self).threads@[0].window == window
                &&& final(self).threads@[0].backing@.len() == 0
                &&& final(self).threads@[0].metadata_bytes == 0
                &&& *final(self) == (NativeProcess {
                    threads: final(self).threads,
                    committed_pages: pages,
                    ..*old(self)
                })
                &&& *final(system) == charged(*old(system), pages as int, 0)
            },
            !charged_pages ==> *final(self) == *old(self) && *final(system) == *old(system),
    {
        let committed: u64 = match admit_launch(
            system,
            policy.maximum_committed_pages,
            pages,
            free_frames,
        ) {
            Some(committed) => committed,
            None => return false,
        };
        let backing: Vec<PageRange> = Vec::new();
        system.application_committed_pages = committed;
        self.committed_pages = pages;
        self.threads.push(NativeThread { key, window, backing, metadata_bytes: 0 });
        proof {
            reveal_with_fuel(sum, 2);
        }
        true
    }

    /// Own the frames of the image.
    pub fn take_shared(&mut self, shared: Vec<PageRange>)
        requires
            old(self).well_formed(),
            all_well_formed(shared@),
        ensures
            final(self).well_formed(),
            *final(self) == (NativeProcess { shared, ..*old(self) }),
    {
        self.shared = shared;
    }

    /// Own further frames of the initial thread: its stack, its thread-local
    /// pages or its startup page.
    pub fn add_backing(&mut self, extents: Vec<PageRange>)
        requires
            old(self).well_formed(),
            old(self).threads@.len() == 1,
            old(self).threads@[0].metadata_bytes == 0,
            all_well_formed(extents@),
        ensures
            final(self).well_formed(),
            final(self).threads@.len() == 1,
            final(self).threads@[0].key == old(self).threads@[0].key,
            final(self).threads@[0].window == old(self).threads@[0].window,
            final(self).threads@[0].metadata_bytes == 0,
            final(self).threads@[0].backing@ == old(self).threads@[0].backing@ + extents@,
            *final(self) == (NativeProcess { threads: final(self).threads, ..*old(self) }),
    {
        let key = self.threads[0].key;
        let window = self.threads[0].window;
        let ghost before = self.threads@[0].backing@;
        let mut backing: Vec<PageRange> = Vec::new();
        let mut i: usize = 0;
        while i < self.threads[0].backing.len()
            invariant
                self.threads@.len() == 1,
                before == self.threads@[0].backing@,
                i <= before.len(),
                backing@ == before.take(i as int),
            decreases before.len() - i,
        {
            backing.push(self.threads[0].backing[i]);
            i = i + 1;
            assert(backing@ =~= before.take(i as int));
        }
        assert(backing@ =~= before);
        let mut k: usize = 0;
        while k < extents.len()
            invariant
                k <= extents@.len(),
                backing@ == before + extents@.take(k as int),
            decreases extents@.len() - k,
        {
            backing.push(extents[k]);
            k = k + 1;
            assert(backing@ =~= before + extents@.take(k as int));
        }
        assert(backing@ =~= before + extents@);
        assert(all_well_formed(before));
        let mut threads: Vec<NativeThread> = Vec::new();
        threads.push(NativeThread { key, window, backing, metadata_bytes: 0 });
        self.threads = threads;
        proof {
            reveal_with_fuel(sum, 2);
        }
    }

    /// Own the page tables.
    pub fn take_tables(&mut self, tables: PageRange)
        requires
            old(self).well_formed(),
            tables.well_formed(),
        ensures
            final(self).well_formed(),
            *final(self) == (NativeProcess { tables: Some(tables), ..*old(self) }),
    {
        self.tables = Some(tables);
    }

    /// How many page tables to take, or `None` where the process would not fit:
    /// `required` tables show the image, `pages` pages are mapped.
    pub fn choose_tables(&self, system: &SystemMemory, required: u64, pages: u64, free_frames: u64) -> (tables:
        Option<u64>)
        ensures
            ({
                let wanted = required + self.limits.extra_table_pages;
                let resident = pages + wanted + self.tls_backing_pages;
                match tables {
                    Some(t) => {
                        &&& t == wanted
                        &&& 2 <= resident <= self.limits.resident_pages
                        &&& resident - 2 <= self.limits.ordinary_frames
                        &&& wanted <= less(free_frames as int, system.minimum_free_pages as int)
                    },
                    None => {
                        ||| resident > self.limits.resident_pages
                        ||| resident < 2
                        ||| resident - 2 > self.limits.ordinary_frames
                        ||| wanted > less(free_frames as int, system.minimum_free_pages as int)
                    },
                }
            }),
    {
        let tables: u64 = match required.checked_add(self.limits.extra_table_pages) {
            Some(tables) => tables,
            None => return None,
        };
        let mapped: u64 = match pages.checked_add(tables) {
            Some(total) => total,
            None => return None,
        };
        let resident: u64 = match mapped.checked_add(self.tls_backing_pages) {
            Some(total) => total,
            None => return None,
        };
        if resident > self.limits.resident_pages || resident < 2 || resident - 2
            > self.limits.ordinary_frames || tables > free_frames.saturating_sub(
            system.minimum_free_pages,
        ) {
            return None;
        }
        Some(tables)
    }

    /// The metadata that the machine context may take beside the `owned` bytes
    /// of the owner.
    pub fn context_metadata_limit(
        &self,
        system: &SystemMemory,
        policy: &ProcessPolicy,
        owned: u64,
    ) -> (limit: Option<u64>)
        ensures
            ({
                let remaining = smaller(
                    system.global_metadata_limit - system.private_metadata_bytes,
                    policy.maximum_metadata_bytes as int,
                );
                let allowed = smaller(self.limits.metadata_bytes as int, remaining);
                match limit {
                    Some(l) => system.private_metadata_bytes <= system.global_metadata_limit
                        && owned <= allowed && l == allowed - owned,
                    None => system.private_metadata_bytes > system.global_metadata_limit || owned
                        > allowed,
                }
            }),
    {
        let global: u64 = match system.global_metadata_limit.checked_sub(
            system.private_metadata_bytes,
        ) {
            Some(bytes) => bytes,
            None => return None,
        };
        let remaining: u64 = if global <= policy.maximum_metadata_bytes {
            global
        } else {
            policy.maximum_metadata_bytes
        };
        let allowed: u64 = if self.limits.metadata_bytes <= remaining {
            self.limits.metadata_bytes
        } else {
            remaining
        };
        allowed.checked_sub(owned)
    }

    /// Charge the metadata of owner and machine context; `backing` bytes of it
    /// belong to the initial thread's frames. Fails where a total does not fit.
    pub fn finish_load(
        &mut self,
        system: &mut SystemMemory,
        owned: u64,
        context: u64,
        backing: u64,
    ) -> (finished: bool)
        requires
            old(self).well_formed(),
            old(self).threads@.len() == 1,
            old(self).threads@[0].metadata_bytes == 0,
            old(self).metadata_bytes == 0,
            backing <= owned,
        ensures
            final(self).well_formed(),
            finished == (old(system).private_metadata_bytes + owned + context <= u64::MAX),
            finished ==> {
                &&& final(self).threads@ == seq![
                    NativeThread { metadata_bytes: backing, ..old(self).threads@[0] },
                ]
                &&& *final(self) == (NativeProcess {
                    threads: final(self).threads,
                    metadata_bytes: (owned + context) as u64,
                    ..*old(self)
                })
                &&& *final(system) == charged(*old(system), 0, owned + context)
            },
            !finished ==> *final(self) == *old(self) && *final(system) == *old(system),
    {
        let total: u64 = match owned.checked_add(context) {
            Some(total) => total,
            None => return false,
        };
        let charge: u64 = match system.private_metadata_bytes.checked_add(total) {
            Some(charge) => charge,
            None => return false,
        };
        system.private_metadata_bytes = charge;
        self.metadata_bytes = total;
        let mut threads: Vec<NativeThread> = Vec::new();
        match self.threads.pop() {
            Some(first) => {
                threads.push(
                    NativeThread {
                        key: first.key,
                        window: first.window,
                        backing: first.backing,
                        metadata_bytes: backing,
                    },
                );
            },
            None => {},
        }
        self.threads = threads;
        proof {
            reveal_with_fuel(sum, 2);
            assert(mapped_pages(self.threads@)[0] == mapped_pages(old(self).threads@)[0]);
            assert(metadata_charges(self.threads@)[0] == backing);
        }
        true
    }
}

pub(crate) proof fn lemma_either(left: Seq<int>, right: Seq<int>, frame: int)
    ensures
        (left + right).contains(frame) <==> left.contains(frame) || right.contains(frame),
{
    if left.contains(frame) {
        let i = left.index_of(frame);
        assert((left + right)[i] == frame);
    }
    if right.contains(frame) {
        let i = right.index_of(frame);
        assert((left + right)[left.len() + i] == frame);
    }
}

/// The frames of the first `n` threads, in order.
pub open spec fn thread_frames(threads: Seq<NativeThread>, n: int) -> Seq<int>
    decreases n,
{
    if n <= 0 {
        Seq::empty()
    } else {
        thread_frames(threads, n - 1) + frames(threads[n - 1].backing@)
    }
}

/// The frames of the first `n` heap growths, in order.
pub open spec fn growth_frames(growths: Seq<Vec<PageRange>>, n: int) -> Seq<int>
    decreases n,
{
    if n <= 0 {
        Seq::empty()
    } else {
        growth_frames(growths, n - 1) + frames(growths[n - 1]@)
    }
}

/// Append a list of extents as it is.
fn append_as_is(order: &mut Vec<PageRange>, extents: &Vec<PageRange>)
    requires
        all_well_formed(old(order)@),
        all_well_formed(extents@),
    ensures
        all_well_formed(final(order)@),
        frames(final(order)@) == frames(old(order)@) + frames(extents@),
{
    let ghost before = order@;
    let mut i: usize = 0;
    while i < extents.len()
        invariant
            i <= extents@.len(),
            order@ == before + extents@.take(i as int),
        decreases extents@.len() - i,
    {
        order.push(extents[i]);
        i = i + 1;
        assert(order@ =~= before + extents@.take(i as int));
    }
    proof {
        assert(extents@.take(i as int) =~= extents@);
        lemma_frames_concat(before, extents@);
    }
}

impl NativeProcess {
    /// Every frame that the process holds, in the order of release.
    pub open spec fn held_frames(self) -> Seq<int> {
        thread_frames(self.threads@, self.threads@.len() as int) + frames(self.shared@)
            + growth_frames(self.heap_growth@, self.heap_growth@.len() as int) + (
        match self.tables {
            Some(tables) => tables.numbers(),
            None => Seq::empty(),
        })
    }

    pub(crate) proof fn lemma_holds_nothing(self)
        requires
            self.threads@.len() == 1,
            self.threads@[0].backing@.len() == 0,
            self.shared@.len() == 0,
            self.heap_growth@.len() == 0,
            self.tables is None,
        ensures
            self.held_frames() == Seq::<int>::empty(),
    {
        reveal_with_fuel(thread_frames, 2);
        assert(self.held_frames() =~= Seq::<int>::empty());
    }

    pub(crate) proof fn lemma_holds_of_one(self, frame: int)
        requires
            self.threads@.len() == 1,
            self.heap_growth@.len() == 0,
        ensures
            self.held_frames().contains(frame) <==> {
                ||| frames(self.threads@[0].backing@).contains(frame)
                ||| frames(self.shared@).contains(frame)
                ||| self.tables matches Some(tables) && tables.numbers().contains(frame)
            },
    {
        reveal_with_fuel(thread_frames, 2);
        let own = frames(self.threads@[0].backing@);
        let shared = frames(self.shared@);
        let tables = match self.tables {
            Some(tables) => tables.numbers(),
            None => Seq::<int>::empty(),
        };
        assert(self.held_frames() =~= (own + shared) + tables);
        lemma_either(own + shared, tables, frame);
        lemma_either(own, shared, frame);
    }

    /// The ranges to release when the process ends: threads, image, heap
    /// growth, page tables. Refused once a release has failed, because the
    /// frames of that release are no longer known here.
    pub fn reclaim_order(&self) -> (order: Option<Vec<PageRange>>)
        requires
            self.well_formed(),
        ensures
            match order {
                Some(o) => !self.reclamation_failed && all_well_formed(o@) && frames(o@)
                    == self.held_frames(),
                None => self.reclamation_failed,
            },
    {
        if self.reclamation_failed {
            return None;
        }
        let mut order: Vec<PageRange> = Vec::new();
        let mut i: usize = 0;
        while i < self.threads.len()
            invariant
                i <= self.threads@.len(),
                self.well_formed(),
                all_well_formed(order@),
                frames(order@) == thread_frames(self.threads@, i as int),
            decreases self.threads@.len() - i,
        {
            assert(all_well_formed(self.threads@[i as int].backing@));
            append_as_is(&mut order, &self.threads[i].backing);
            i = i + 1;
        }
        append_as_is(&mut order, &self.shared);
        let ghost first = frames(order@);
        let mut k: usize = 0;
        assert(first =~= first + growth_frames(self.heap_growth@, 0));
        while k < self.heap_growth.len()
            invariant
                k <= self.heap_growth@.len(),
                self.well_formed(),
                all_well_formed(order@),
                frames(order@) == first + growth_frames(self.heap_growth@, k as int),
            decreases self.heap_growth@.len() - k,
        {
            assert(all_well_formed(self.heap_growth@[k as int]@));
            append_as_is(&mut order, &self.heap_growth[k]);
            k = k + 1;
            assert(frames(order@) =~= first + growth_frames(self.heap_growth@, k as int));
        }
        match self.tables {
            Some(tables) => {
                proof {
                    lemma_frames_push(order@, tables);
                }
                order.push(tables);
            },
            None => {
                assert(frames(order@) =~= frames(order@) + Seq::<int>::empty());
            },
        }
        Some(order)
    }

    /// Take the process out of the system totals once its frames are free.
    pub fn refund(&self, system: &mut SystemMemory) -> (refunded: bool)
        ensures
            refunded == (self.committed_pages <= old(system).application_committed_pages
                && self.metadata_bytes <= old(system).private_metadata_bytes),
            *final(system) == uncharged(
                *old(system),
                self.committed_pages,
                self.metadata_bytes,
            ),
    {
        if self.committed_pages > system.application_committed_pages {
            return false;
        }
        system.application_committed_pages = system.application_committed_pages
            - self.committed_pages;
        if self.metadata_bytes > system.private_metadata_bytes {
            return false;
        }
        system.private_metadata_bytes = system.private_metadata_bytes - self.metadata_bytes;
        true
    }

    /// Page tables and committed pages of a loaded process.
    pub fn resource_totals(&self) -> (totals: Option<(u64, u64)>)
        requires
            self.well_formed(),
        ensures
            match totals {
                Some(t) => self.tables is Some && t.0 == self.tables->0.pages() && t.1
                    == self.committed_pages,
                None => self.tables is None,
            },
    {
        match self.tables {
            Some(tables) => Some((tables.page_count(), self.committed_pages)),
            None => None,
        }
    }
}

/// Sizes of the records that a process owner is made of.
#[derive(Clone, Copy, Debug, PartialEq, Eq, Structural)]
pub struct OwnerSizes {
    /// The owner with its machine context.
    pub owner: u64,
    /// The machine context, which accounts for itself.
    pub context: u64,
    /// One thread record.
    pub thread: u64,
    /// One extent list.
    pub extents: u64,
}

/// Metadata bytes of an owner with room for `threads` threads and `growths`
/// heap growths, whose extent lists hold `shared` bytes for the image and
/// `backing` for each list of a thread.
pub fn owned_metadata_bytes(
    sizes: OwnerSizes,
    threads: u64,
    growths: u64,
    shared: u64,
    backing: &Vec<u64>,
) -> (bytes: Option<u64>)
    ensures
        ({
            let total = sizes.owner - sizes.context + threads * sizes.thread + shared + growths
                * sizes.extents + sum(backing@, backing@.len() as int);
            match bytes {
                Some(b) => sizes.context <= sizes.owner && b == total,
                None => sizes.context > sizes.owner || total > u64::MAX,
            }
        }),
{
    let inline: u64 = match sizes.owner.checked_sub(sizes.context) {
        Some(bytes) => bytes,
        None => return None,
    };
    proof {
        lemma_sum_monotone(backing@, 0, backing@.len() as int);
        assert(threads * sizes.thread >= 0) by (nonlinear_arith);
        assert(growths * sizes.extents >= 0) by (nonlinear_arith);
    }
    let thread_records: u64 = match threads.checked_mul(sizes.thread) {
        Some(bytes) => bytes,
        None => return None,
    };
    let growth_records: u64 = match growths.checked_mul(sizes.extents) {
        Some(bytes) => bytes,
        None => return None,
    };
    let mut total: u64 = match inline.checked_add(thread_records) {
        Some(bytes) => bytes,
        None => return None,
    };
    total = match total.checked_add(shared) {
        Some(bytes) => bytes,
        None => return None,
    };
    total = match total.checked_add(growth_records) {
        Some(bytes) => bytes,
        None => return None,
    };
    let ghost fixed = total as int;
    let mut i: usize = 0;
    while i < backing.len()
        invariant
            i <= backing@.len(),
            total == fixed + sum(backing@, i as int),
            sizes.context <= sizes.owner,
            fixed == sizes.owner - sizes.context + threads * sizes.thread + shared + growths
                * sizes.extents,
        decreases backing@.len() - i,
    {
        proof {
            lemma_sum_monotone(backing@, i + 1, backing@.len() as int);
        }
        total = match total.checked_add(backing[i]) {
            Some(bytes) => bytes,
            None => return None,
        };
        i = i + 1;
    }
    Some(total)
}

/// The shared regions among the first `n`, laid out one after the other.
pub open spec fn shared_layout(regions: Seq<ProcessRegion>, n: int) -> Seq<LaunchRegion>
    decreases n,
{
    if n <= 0 {
        Seq::empty()
    } else {
        let rest = shared_layout(regions, n - 1);
        let region = regions[n - 1];
        if region.thread {
            rest
        } else {
            rest.push(
                LaunchRegion {
                    start_page: shared_total(regions, n - 1) as u64,
                    page_count: region.pages,
                    virtual_start: region.start,
                    permissions: region.permissions,
                },
            )
        }
    }
}

/// The pages of the shared regions among the first `n`.
pub open spec fn shared_total(regions: Seq<ProcessRegion>, n: int) -> int
    decreases n,
{
    if n <= 0 {
        0
    } else {
        shared_total(regions, n - 1) + (if regions[n - 1].thread {
            0
        } else {
            regions[n - 1].pages as int
        })
    }
}

proof fn lemma_shared_total(regions: Seq<ProcessRegion>, a: int, b: int)
    requires
        0 <= a <= b,
    ensures
        0 <= shared_total(regions, a) <= shared_total(regions, b),
    decreases b,
{
    if a < b {
        lemma_shared_total(regions, a, b - 1);
    } else if b > 0 {
        lemma_shared_total(regions, a - 1, b - 1);
    }
}

/// Whether a plan shows the visible kernel and then exactly the shared regions.
pub open spec fn is_native_plan(
    plan: MappingPlan,
    kernel: MappingPlan,
    runtime: PageRange,
    extents: Seq<PageRange>,
    regions: Seq<ProcessRegion>,
) -> bool {
    let visible = visible_kernel(kernel@, runtime);
    let layout = shared_layout(regions, regions.len() as int);
    &&& plan.well_formed()
    &&& plan.capacity == kernel.capacity
    &&& visible.len() <= plan@.len()
    &&& plan@.take(visible.len() as int) == visible
    &&& shows_regions(
        plan@.skip(visible.len() as int),
        extents,
        layout,
        layout.len() as int,
    )
}

/// Whether the shared regions fill the frames and fit beside the kernel.
pub open spec fn native_fits(
    kernel: MappingPlan,
    runtime: PageRange,
    extents: Seq<PageRange>,
    regions: Seq<ProcessRegion>,
) -> bool {
    &&& shared_total(regions, regions.len() as int) == total_pages(extents)
    &&& exists|start: MappingPlan|
        start@ == visible_kernel(kernel@, runtime) && start.capacity == kernel.capacity
            && #[trigger] regions_fit(
            start,
            extents,
            shared_layout(regions, regions.len() as int),
        )
}

/// Plan the address space of a native process over its `total` shared pages.
pub fn build_native_plan(
    kernel: &MappingPlan,
    runtime: PageRange,
    extents: &Vec<PageRange>,
    total: u64,
    regions: &Vec<ProcessRegion>,
) -> (plan: Result<MappingPlan, PlanRefusal>)
    requires
        kernel.well_formed(),
        runtime.well_formed(),
        all_well_formed(extents@),
        total == total_pages(extents@),
    ensures
        match plan {
            Ok(p) => {
                &&& native_fits(*kernel, runtime, extents@, regions@)
                &&& is_native_plan(p, *kernel, runtime, extents@, regions@)
                &&& write_xor_execute(p@)
            },
            Err(PlanRefusal::DoesNotFit) => !native_fits(*kernel, runtime, extents@, regions@),
            Err(PlanRefusal::WritableCode) => exists|p: MappingPlan|
                #[trigger] is_native_plan(p, *kernel, runtime, extents@, regions@)
                    && !write_xor_execute(p@),
        },
{
    let mut layout: Vec<LaunchRegion> = Vec::new();
    let mut logical: u64 = 0;
    let mut i: usize = 0;
    while i < regions.len()
        invariant
            i <= regions@.len(),
            logical == shared_total(regions@, i as int),
            layout@ == shared_layout(regions@, i as int),
            total == total_pages(extents@),
        decreases regions@.len() - i,
    {
        let region = regions[i];
        proof {
            lemma_shared_total(regions@, i + 1, regions@.len() as int);
        }
        if !region.thread {
            layout.push(
                LaunchRegion {
                    start_page: logical,
                    page_count: region.pages,
                    virtual_start: region.start,
                    permissions: region.permissions,
                },
            );
            logical = match logical.checked_add(region.pages) {
                Some(next) => next,
                None => return Err(PlanRefusal::DoesNotFit),
            };
        }
        i = i + 1;
    }
    if logical != total {
        return Err(PlanRefusal::DoesNotFit);
    }
    let mut plan = keep_visible_kernel(kernel, runtime);
    let ghost start = plan;
    let mapped = map_regions(&mut plan, extents, &layout);
    proof {
        assert forall|other: MappingPlan|
            other@ == visible_kernel(kernel@, runtime) && other.capacity == kernel.capacity
                && #[trigger] regions_fit(other, extents@, layout@) implies regions_fit(
            start,
            extents@,
            layout@,
        ) by {
            assert(other@ == start@);
            assert forall|i: int, k: int|
                0 <= i < layout@.len() && 0 <= k < start@.len() implies (
            #[trigger] layout@[i]).clear_of(#[trigger] start@[k]) by {
                assert(other@[k] == start@[k]);
            }
        }
    }
    if !mapped {
        return Err(PlanRefusal::DoesNotFit);
    }
    assert(is_native_plan(plan, *kernel, runtime, extents@, regions@));
    if !plan.enforces_write_xor_execute() {
        return Err(PlanRefusal::WritableCode);
    }
    Ok(plan)
}

/// Code can be entered exactly in the file bytes of an executable segment.
pub proof fn only_code_is_executable(segments: Seq<(Segment, u64)>, n: int, entry: int)
    requires
        0 <= n <= segments.len(),
        parts_end(segments, n),
    ensures
        (exists|k: int|
            0 <= k < executable_parts(segments, n).len() && (#[trigger] executable_parts(
                segments,
                n,
            )[k]).0 <= entry < executable_parts(segments, n)[k].1) <==> (exists|i: int|
            0 <= i < n && (#[trigger] segments[i]).0.permissions == Permissions::ReadExecute
                && segments[i].0.image_offset <= entry < segments[i].0.image_offset
                + segments[i].1),
    decreases n,
{
    if n > 0 {
        only_code_is_executable(segments, n - 1, entry);
        let front = executable_parts(segments, n - 1);
        let all = executable_parts(segments, n);
        let last = segments[n - 1];
        if exists|k: int| 0 <= k < all.len() && (#[trigger] all[k]).0 <= entry < all[k].1 {
            let k = choose|k: int| 0 <= k < all.len() && (#[trigger] all[k]).0 <= entry < all[k].1;
            if k < front.len() {
                assert(front[k] == all[k]);
            } else {
                assert(segments[n - 1].0.permissions == Permissions::ReadExecute);
            }
        }
        if exists|i: int|
            0 <= i < n && (#[trigger] segments[i]).0.permissions == Permissions::ReadExecute
                && segments[i].0.image_offset <= entry < segments[i].0.image_offset
                + segments[i].1 {
            let i = choose|i: int|
                0 <= i < n && (#[trigger] segments[i]).0.permissions == Permissions::ReadExecute
                    && segments[i].0.image_offset <= entry < segments[i].0.image_offset
                    + segments[i].1;
            if i < n - 1 {
                let k = choose|k: int|
                    0 <= k < front.len() && (#[trigger] front[k]).0 <= entry < front[k].1;
                assert(all[k] == front[k]);
            } else {
                assert(all[front.len() as int] == (
                    last.0.image_offset,
                    (last.0.image_offset + last.1) as u64,
                ));
            }
        }
    }
}

/// A process holds the frames of every thread, its shared frames, those of every
/// heap growth and its page tables.
pub proof fn processes_hold_every_part(process: NativeProcess, i: int, frame: int)
    ensures
        0 <= i < process.threads@.len() && frames(process.threads@[i].backing@).contains(frame)
            ==> process.held_frames().contains(frame),
        frames(process.shared@).contains(frame) ==> process.held_frames().contains(frame),
        0 <= i < process.heap_growth@.len() && frames(process.heap_growth@[i]@).contains(frame)
            ==> process.held_frames().contains(frame),
        (process.tables matches Some(tables) ==> tables.covers(frame)
            ==> process.held_frames().contains(frame)),
{
    let a = thread_frames(process.threads@, process.threads@.len() as int);
    let b = frames(process.shared@);
    let c = growth_frames(process.heap_growth@, process.heap_growth@.len() as int);
    let all = process.held_frames();
    if 0 <= i < process.threads@.len() && frames(process.threads@[i].backing@).contains(frame) {
        lemma_thread_frames_hold(process.threads@, process.threads@.len() as int, i, frame);
        let k = a.index_of(frame);
        assert(all[k] == frame);
    }
    if b.contains(frame) {
        let k = b.index_of(frame);
        assert(all[a.len() + k] == frame);
    }
    if 0 <= i < process.heap_growth@.len() && frames(process.heap_growth@[i]@).contains(frame) {
        lemma_growth_frames_hold(process.heap_growth@, process.heap_growth@.len() as int, i, frame);
        let k = c.index_of(frame);
        assert(all[a.len() + b.len() + k] == frame);
    }
    if let Some(tables) = process.tables {
        if tables.covers(frame) {
            let k = frame - tables.first();
            assert(tables.numbers()[k] == frame);
            assert(all[a.len() + b.len() + c.len() + k] == frame);
        }
    }
}

proof fn lemma_thread_frames_hold(threads: Seq<NativeThread>, n: int, i: int, frame: int)
    requires
        0 <= i < n <= threads.len(),
        frames(threads[i].backing@).contains(frame),
    ensures
        thread_frames(threads, n).contains(frame),
    decreases n,
{
    let front = thread_frames(threads, n - 1);
    let last = frames(threads[n - 1].backing@);
    if i < n - 1 {
        lemma_thread_frames_hold(threads, n - 1, i, frame);
        let k = front.index_of(frame);
        assert((front + last)[k] == frame);
    } else {
        let k = last.index_of(frame);
        assert((front + last)[front.len() + k] == frame);
    }
}

proof fn lemma_growth_frames_hold(growths: Seq<Vec<PageRange>>, n: int, i: int, frame: int)
    requires
        0 <= i < n <= growths.len(),
        frames(growths[i]@).contains(frame),
    ensures
        growth_frames(growths, n).contains(frame),
    decreases n,
{
    let front = growth_frames(growths, n - 1);
    let last = frames(growths[n - 1]@);
    if i < n - 1 {
        lemma_growth_frames_hold(growths, n - 1, i, frame);
        let k = front.index_of(frame);
        assert((front + last)[k] == frame);
    } else {
        let k = last.index_of(frame);
        assert((front + last)[front.len() + k] == frame);
    }
}

/// Shared regions are laid out one behind the other, each with its own address
/// and rights; those of threads take no place in the shared memory.
pub proof fn shared_regions_follow_each_other(regions: Seq<ProcessRegion>, n: int)
    requires
        0 <= n < regions.len(),
        shared_total(regions, n) <= u64::MAX,
    ensures
        ({
            let before = shared_layout(regions, n);
            let after = shared_layout(regions, n + 1);
            &&& shared_layout(regions, 0).len() == 0 && shared_total(regions, 0) == 0
            &&& regions[n].thread ==> after == before && shared_total(regions, n + 1)
                == shared_total(regions, n)
            &&& !regions[n].thread ==> {
                &&& after.len() == before.len() + 1
                &&& after.take(before.len() as int) == before
                &&& after.last().start_page == shared_total(regions, n)
                &&& after.last().page_count == regions[n].pages
                &&& after.last().virtual_start == regions[n].start
                &&& after.last().permissions == regions[n].permissions
                &&& shared_total(regions, n + 1) == shared_total(regions, n) + regions[n].pages
            }
        }),
{
    lemma_shared_total(regions, 0, n);
    if !regions[n].thread {
        assert(shared_layout(regions, n + 1).take(shared_layout(regions, n).len() as int)
            =~= shared_layout(regions, n));
    }
}

/// A process sees the kernel as an application does, and every page of its shared
/// regions in the frames that were reserved for it.
pub proof fn processes_see_the_visible_kernel(
    plan: MappingPlan,
    kernel: MappingPlan,
    runtime: PageRange,
    extents: Seq<PageRange>,
    regions: Seq<ProcessRegion>,
    k: int,
)
    requires
        is_native_plan(plan, kernel, runtime, extents, regions),
        0 <= k < visible_kernel(kernel@, runtime).len(),
    ensures
        plan@[k] == visible_kernel(kernel@, runtime)[k],
        plan.capacity == kernel.capacity,
        native_fits(kernel, runtime, extents, regions) ==> shared_total(
            regions,
            regions.len() as int,
        ) == total_pages(extents),
{
    assert(plan@.take(visible_kernel(kernel@, runtime).len() as int)[k] == plan@[k]);
}

/// Executable parts can be described exactly where none of them ends beyond the
/// last address.
pub proof fn code_ends_inside_the_addresses(segments: Seq<(Segment, u64)>, n: int, i: int)
    ensures
        (forall|k: int|
            0 <= k < n && (#[trigger] segments[k]).0.permissions == Permissions::ReadExecute
                ==> segments[k].0.image_offset + segments[k].1 <= u64::MAX) ==> parts_end(
            segments,
            n,
        ),
        parts_end(segments, n) && 0 <= i < n && segments[i].0.permissions
            == Permissions::ReadExecute ==> segments[i].0.image_offset + segments[i].1 <= u64::MAX,
{
}

/// A process fits exactly where its shared regions fill the frames reserved for
/// it, lie in free and separate addresses, and find room beside the kernel's
/// mappings.
pub proof fn processes_fit_beside_the_kernel(
    kernel: MappingPlan,
    runtime: PageRange,
    extents: Seq<PageRange>,
    regions: Seq<ProcessRegion>,
    start: MappingPlan,
)
    requires
        start@ == visible_kernel(kernel@, runtime),
        start.capacity == kernel.capacity,
    ensures
        native_fits(kernel, runtime, extents, regions) <==> shared_total(
            regions,
            regions.len() as int,
        ) == total_pages(extents) && regions_fit(
            start,
            extents,
            shared_layout(regions, regions.len() as int),
        ),
        native_fits(kernel, runtime, extents, regions) ==> visible_kernel(kernel@, runtime).len()
            + crate::memory::regions::entries_needed(
            shared_layout(regions, regions.len() as int),
            extents,
            shared_layout(regions, regions.len() as int).len() as int,
        ) <= kernel.capacity,
{
    if native_fits(kernel, runtime, extents, regions) {
        let other = choose|other: MappingPlan|
            other@ == visible_kernel(kernel@, runtime) && other.capacity == kernel.capacity
                && #[trigger] regions_fit(
                other,
                extents,
                shared_layout(regions, regions.len() as int),
            );
        assert(other@ == start@);
    }
}

} // verus!
