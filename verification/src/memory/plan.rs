//! Mapping plans: which virtual pages show which frames, and how.

use crate::memory::extents::{
    all_well_formed, extent_slice, frames, lemma_frames_len, lemma_frames_push, total_pages,
    touched,
};
use crate::memory::pages::PageRange;
use crate::memory::private::mapping::Permissions;
use vstd::prelude::*;

verus! {

/// Who holds the memory behind a mapping.
#[derive(Clone, Copy, Debug, PartialEq, Eq, Structural)]
pub enum MappingOwner {
    /// Memory that the kernel uses at run time.
    KernelRuntime,
    /// The kernel's own image.
    KernelImage,
    /// Device registers.
    MachineDevice,
    /// A task in its own address space.
    IsolatedTask,
}

/// How the processor treats a mapping.
#[derive(Clone, Copy, Debug, PartialEq, Eq, Structural)]
pub enum MemoryType {
    /// Ordinary memory.
    Normal,
    /// Device registers.
    Device,
}

/// One run of pages in a plan.
#[derive(Clone, Copy, Debug, PartialEq, Eq, Structural)]
pub struct PlannedMapping {
    /// Virtual pages.
    pub virtual_range: PageRange,
    /// Frames behind them, in the same order.
    pub physical: PageRange,
    /// Rights.
    pub permissions: Permissions,
    /// Memory type.
    pub memory_type: MemoryType,
    /// Holder of the memory.
    pub owner: MappingOwner,
    /// Whether user code sees the pages.
    pub user: bool,
}

impl PlannedMapping {
    /// One frame for each page.
    pub open spec fn well_formed(self) -> bool {
        &&& self.virtual_range.well_formed()
        &&& self.physical.well_formed()
        &&& self.virtual_range.pages() == self.physical.pages()
    }

    /// Whether page `page` shows frame `frame`.
    pub open spec fn shows(self, page: int, frame: int) -> bool {
        &&& self.virtual_range.covers(page)
        &&& frame == self.physical.first() + (page - self.virtual_range.first())
    }

    /// Whether the pages can be written.
    pub open spec fn writable(self) -> bool {
        self.permissions == Permissions::ReadWrite
    }

    /// Whether the pages can be executed.
    pub open spec fn executable(self) -> bool {
        self.permissions == Permissions::ReadExecute
    }
}

/// No two entries share a virtual page.
pub open spec fn entries_apart(entries: Seq<PlannedMapping>) -> bool {
    forall|i: int, j: int|
        0 <= i < j < entries.len() ==> (#[trigger] entries[i]).virtual_range.apart(
            (#[trigger] entries[j]).virtual_range,
        )
}

/// Whether `range` shares no page with any entry.
pub open spec fn range_apart(entries: Seq<PlannedMapping>, range: PageRange) -> bool {
    forall|i: int|
        0 <= i < entries.len() ==> (#[trigger] entries[i]).virtual_range.apart(range)
}

/// No frame is both writable and executable through the plan.
pub open spec fn write_xor_execute(entries: Seq<PlannedMapping>) -> bool {
    forall|i: int, j: int|
        0 <= i < entries.len() && 0 <= j < entries.len() && (#[trigger] entries[i]).writable() && (
        #[trigger] entries[j]).executable() ==> entries[i].physical.apart(entries[j].physical)
}

/// Whether some entry of `entries` shows `frame` at `page` to user code with
/// these rights.
pub open spec fn user_page(
    entries: Seq<PlannedMapping>,
    page: int,
    frame: int,
    permissions: Permissions,
) -> bool {
    exists|k: int|
        {
            &&& 0 <= k < entries.len()
            &&& (#[trigger] entries[k]).shows(page, frame)
            &&& entries[k].user
            &&& entries[k].permissions == permissions
        }
}

/// A bounded list of mappings without overlap.
#[derive(Debug)]
pub struct MappingPlan {
    /// Mappings in the order in which they were added.
    pub entries: Vec<PlannedMapping>,
    /// Most entries.
    pub capacity: usize,
}

impl View for MappingPlan {
    type V = Seq<PlannedMapping>;

    open spec fn view(&self) -> Seq<PlannedMapping> {
        self.entries@
    }
}

impl MappingPlan {
    /// The entries are valid, apart and within the capacity.
    pub open spec fn well_formed(self) -> bool {
        plan_valid(self@, self.capacity as int)
    }

    /// An empty plan for at most `capacity` entries.
    pub fn new(capacity: usize) -> (plan: Self)
        ensures
            plan@ == Seq::<PlannedMapping>::empty(),
            plan.capacity == capacity,
            plan.well_formed(),
    {
        MappingPlan { entries: Vec::new(), capacity }
    }

    /// Add a mapping whose virtual pages are free.
    ///
    /// Refuses an overlap with an entry and an entry more than the capacity.
    pub fn insert(&mut self, mapping: PlannedMapping) -> (inserted: bool)
        requires
            old(self).well_formed(),
            mapping.well_formed(),
        ensures
            final(self).capacity == old(self).capacity,
            final(self).well_formed(),
            inserted == (old(self)@.len() < old(self).capacity && range_apart(
                old(self)@,
                mapping.virtual_range,
            )),
            final(self)@ == if inserted {
                old(self)@.push(mapping)
            } else {
                old(self)@
            },
    {
        if self.entries.len() >= self.capacity {
            return false;
        }
        let mut i: usize = 0;
        while i < self.entries.len()
            invariant
                i <= self.entries@.len(),
                *self == *old(self),
                self.well_formed(),
                forall|k: int|
                    0 <= k < i ==> (#[trigger] self.entries@[k]).virtual_range.apart(
                        mapping.virtual_range,
                    ),
            decreases self.entries@.len() - i,
        {
            let other = self.entries[i].virtual_range;
            if other.end() > mapping.virtual_range.start() && mapping.virtual_range.end()
                > other.start() {
                assert(!self.entries@[i as int].virtual_range.apart(mapping.virtual_range));
                return false;
            }
            i = i + 1;
        }
        self.entries.push(mapping);
        true
    }

    /// Whether no frame is both writable and executable through the plan.
    pub fn enforces_write_xor_execute(&self) -> (enforced: bool)
        requires
            self.well_formed(),
        ensures
            enforced == write_xor_execute(self@),
    {
        let mut i: usize = 0;
        while i < self.entries.len()
            invariant
                self.well_formed(),
                i <= self@.len(),
                forall|a: int, b: int|
                    0 <= a < i && 0 <= b < self@.len() && (#[trigger] self@[a]).writable() && (
                    #[trigger] self@[b]).executable() ==> self@[a].physical.apart(
                        self@[b].physical,
                    ),
            decreases self@.len() - i,
        {
            let one = self.entries[i];
            if matches!(one.permissions, Permissions::ReadWrite) {
                let mut j: usize = 0;
                while j < self.entries.len()
                    invariant
                        self.well_formed(),
                        i < self@.len(),
                        j <= self@.len(),
                        one == self@[i as int],
                        one.writable(),
                        forall|b: int|
                            0 <= b < j && (#[trigger] self@[b]).executable()
                                ==> one.physical.apart(self@[b].physical),
                    decreases self@.len() - j,
                {
                    let other = self.entries[j];
                    if matches!(other.permissions, Permissions::ReadExecute)
                        && one.physical.end() > other.physical.start() && other.physical.end()
                        > one.physical.start() {
                        assert(self@[i as int].writable() && self@[j as int].executable());
                        return false;
                    }
                    j = j + 1;
                }
            }
            i = i + 1;
        }
        true
    }
}

/// What every plan satisfies.
pub open spec fn plan_valid(entries: Seq<PlannedMapping>, limit: int) -> bool {
    &&& entries.len() <= limit
    &&& entries_apart(entries)
    &&& forall|i: int| 0 <= i < entries.len() ==> (#[trigger] entries[i]).well_formed()
}


/// The entries that show `extents` from virtual page `first` on.
pub open spec fn tiles(
    entries: Seq<PlannedMapping>,
    extents: Seq<PageRange>,
    first: int,
    permissions: Permissions,
) -> bool {
    &&& entries.len() == extents.len()
    &&& forall|k: int|
        0 <= k < entries.len() ==> {
            &&& (#[trigger] entries[k]).well_formed()
            &&& entries[k].physical == extents[k]
            &&& entries[k].virtual_range.first() == first + total_pages(extents.take(k))
            &&& entries[k].permissions == permissions
            &&& entries[k].memory_type == MemoryType::Normal
            &&& entries[k].owner == MappingOwner::IsolatedTask
            &&& entries[k].user
        }
}

/// Entries that tile extents show every frame at its page.
pub proof fn tiles_show_every_page(
    entries: Seq<PlannedMapping>,
    extents: Seq<PageRange>,
    first: int,
    permissions: Permissions,
    i: int,
)
    requires
        all_well_formed(extents),
        tiles(entries, extents, first, permissions),
        0 <= i < frames(extents).len(),
    ensures
        user_page(entries, first + i, frames(extents)[i], permissions),
    decreases extents.len(),
{
    lemma_frames_len(extents);
    let rest = extents.drop_last();
    let n = extents.len() - 1;
    assert(extents.last().well_formed());
    lemma_frames_len(rest);
    assert(extents.take(n) =~= rest);
    if i < frames(rest).len() {
        assert forall|k: int| 0 <= k < entries.drop_last().len() implies {
            &&& (#[trigger] entries.drop_last()[k]).well_formed()
            &&& entries.drop_last()[k].physical == rest[k]
            &&& entries.drop_last()[k].virtual_range.first() == first + total_pages(rest.take(k))
            &&& entries.drop_last()[k].permissions == permissions
            &&& entries.drop_last()[k].memory_type == MemoryType::Normal
            &&& entries.drop_last()[k].owner == MappingOwner::IsolatedTask
            &&& entries.drop_last()[k].user
        } by {
            assert(entries.drop_last()[k] == entries[k]);
            assert(rest.take(k) =~= extents.take(k));
        }
        tiles_show_every_page(entries.drop_last(), rest, first, permissions, i);
        let k = choose|k: int|
            {
                &&& 0 <= k < entries.drop_last().len()
                &&& (#[trigger] entries.drop_last()[k]).shows(first + i, frames(rest)[i])
                &&& entries.drop_last()[k].user
                &&& entries.drop_last()[k].permissions == permissions
            };
        assert(entries.drop_last()[k] == entries[k]);
        assert(entries[k].shows(first + i, frames(extents)[i]));
    } else {
        let j = i - frames(rest).len();
        assert(frames(extents)[i] == extents.last().numbers()[j]);
        assert(entries[n].shows(first + i, frames(extents)[i]));
    }
}

/// Whether a region can be added to a plan.
pub open spec fn region_fits(
    plan: MappingPlan,
    extents: Seq<PageRange>,
    start_page: int,
    page_count: int,
    virtual_start: int,
) -> bool {
    &&& PageRange::valid(virtual_start, page_count)
    &&& start_page + page_count <= total_pages(extents)
    &&& plan@.len() + touched(extents, start_page, start_page + page_count) <= plan.capacity
    &&& forall|i: int|
        0 <= i < plan@.len() ==> (#[trigger] plan@[i]).virtual_range.past() <= virtual_start / 4096
            || virtual_start / 4096 + page_count <= plan@[i].virtual_range.first()
}

/// Map one virtually contiguous region across however many extents back it.
///
/// Fails where the extents do not hold the region, the virtual range is
/// invalid or taken, or the plan is full; an empty region adds nothing.
pub fn map_launch_region(
    plan: &mut MappingPlan,
    extents: &Vec<PageRange>,
    start_page: u64,
    page_count: u64,
    virtual_start: u64,
    permissions: Permissions,
) -> (mapped: bool)
    requires
        old(plan).well_formed(),
        all_well_formed(extents@),
        total_pages(extents@) <= u64::MAX,
    ensures
        final(plan).well_formed(),
        final(plan).capacity == old(plan).capacity,
        mapped == (page_count == 0 || region_fits(
            *old(plan),
            extents@,
            start_page as int,
            page_count as int,
            virtual_start as int,
        )),
        page_count == 0 ==> final(plan)@ == old(plan)@,
        mapped && page_count > 0 ==> exists|slice: Seq<PageRange>|
            {
                &&& all_well_formed(slice)
                &&& frames(slice) == frames(extents@).subrange(
                    start_page as int,
                    start_page + page_count,
                )
                &&& slice.len() == touched(
                    extents@,
                    start_page as int,
                    start_page + page_count,
                )
                &&& final(plan)@.len() == old(plan)@.len() + slice.len()
                &&& final(plan)@.take(old(plan)@.len() as int) == old(plan)@
                &&& #[trigger] tiles(
                    final(plan)@.skip(old(plan)@.len() as int),
                    slice,
                    virtual_start as int / 4096,
                    permissions,
                )
            },
{
    let ghost before = plan@;
    let ghost old_plan = *plan;
    if page_count == 0 {
        return true;
    }
    let region = match PageRange::from_pages(virtual_start, page_count) {
        Some(region) => region,
        None => return false,
    };
    let slice = match extent_slice(extents, start_page, page_count) {
        Some(slice) => slice,
        None => return false,
    };
    let ghost first = region.first();
    let ghost fits = region_fits(
        old_plan,
        extents@,
        start_page as int,
        page_count as int,
        virtual_start as int,
    );
    let mut done: u64 = 0;
    let mut k: usize = 0;
    proof {
        assert(plan@.take(before.len() as int) =~= before);
        assert(plan@.skip(before.len() as int) =~= Seq::<PlannedMapping>::empty());
        assert(slice@.take(0) =~= Seq::<PageRange>::empty());
    }
    while k < slice.len()
        invariant
            k <= slice@.len(),
            all_well_formed(slice@),
            total_pages(slice@) == page_count,
            region.well_formed(),
            region.first() == first,
            region.pages() == page_count,
            plan.well_formed(),
            plan.capacity == old_plan.capacity,
            before == old_plan@,
            *old(plan) == old_plan,
            frames(slice@) == frames(extents@).subrange(
                start_page as int,
                start_page + page_count,
            ),
            page_count > 0,
            done == total_pages(slice@.take(k as int)),
            plan@.len() == before.len() + k,
            plan@.take(before.len() as int) == before,
            tiles(plan@.skip(before.len() as int), slice@.take(k as int), first, permissions),
            slice@.len() == touched(extents@, start_page as int, start_page + page_count),
            4096 * first == virtual_start,
            start_page + page_count <= total_pages(extents@),
            PageRange::valid(virtual_start as int, page_count as int),
            fits == region_fits(
                old_plan,
                extents@,
                start_page as int,
                page_count as int,
                virtual_start as int,
            ),
        decreases slice@.len() - k,
    {
        let physical = slice[k];
        let pages: u64 = physical.page_count();
        let ghost current = plan@;
        let ghost prefix = slice@.take(k as int);
        proof {
            assert(slice@.take(k + 1) =~= prefix.push(physical));
            lemma_frames_push(prefix, physical);
            crate::memory::extents::lemma_total_prefix(slice@, k + 1);
            crate::memory::extents::lemma_total_prefix(slice@, k as int);
        }
        let part = region.part(done, pages);
        let mapping = PlannedMapping {
            virtual_range: part,
            physical,
            permissions,
            memory_type: MemoryType::Normal,
            owner: MappingOwner::IsolatedTask,
            user: true,
        };
        let inserted = plan.insert(mapping);
        proof {
            let tail = current.skip(before.len() as int);
            assert forall|j: int|
                before.len() <= j < current.len() implies (
            #[trigger] current[j]).virtual_range.past() <= part.first() by {
                let t = j - before.len();
                assert(current[j] == tail[t]);
                assert(prefix.take(t + 1) =~= prefix.take(t).push(prefix[t]));
                lemma_frames_push(prefix.take(t), prefix[t]);
                crate::memory::extents::lemma_total_prefix(prefix, t + 1);
            }
            lemma_tile_blocked(old_plan, current, region, part, k as int);
        }
        if !inserted {
            proof {
                if fits {
                    assert forall|i: int| 0 <= i < before.len() implies (
                    #[trigger] before[i]).virtual_range.apart(region) by {
                        assert(old_plan@[i] == before[i]);
                    }
                    assert(range_apart(old_plan@, region));
                }
            }
            return false;
        }
        proof {
            assert(plan@.take(before.len() as int) =~= before);
            let tail = plan@.skip(before.len() as int);
            assert(tail =~= current.skip(before.len() as int).push(mapping));
            assert forall|j: int| 0 <= j < tail.len() implies {
                &&& (#[trigger] tail[j]).well_formed()
                &&& tail[j].physical == slice@.take(k + 1)[j]
                &&& tail[j].virtual_range.first() == first + total_pages(
                    slice@.take(k + 1).take(j),
                )
                &&& tail[j].permissions == permissions
                &&& tail[j].memory_type == MemoryType::Normal
                &&& tail[j].owner == MappingOwner::IsolatedTask
                &&& tail[j].user
            } by {
                assert(slice@.take(k + 1).take(j) =~= slice@.take(j));
                if j < k {
                    assert(current.skip(before.len() as int)[j] == tail[j]);
                    assert(prefix.take(j) =~= slice@.take(j));
                }
            }
        }
        done = done + pages;
        k = k + 1;
    }
    proof {
        assert(slice@.take(k as int) =~= slice@);
        lemma_region_was_free(old_plan, plan@, slice@, region, permissions);
        assert(tiles(
            plan@.skip(before.len() as int),
            slice@,
            virtual_start as int / 4096,
            permissions,
        ));
        assert(region_fits(
            old_plan,
            extents@,
            start_page as int,
            page_count as int,
            virtual_start as int,
        )) by {
            assert forall|i: int| 0 <= i < old_plan@.len() implies (
            #[trigger] old_plan@[i]).virtual_range.past() <= virtual_start / 4096 || virtual_start
                / 4096 + page_count <= old_plan@[i].virtual_range.first() by {
                assert(old_plan@[i].virtual_range.apart(region));
            }
        }
    }
    true
}

proof fn lemma_tile_blocked(
    old_plan: MappingPlan,
    current: Seq<PlannedMapping>,
    region: PageRange,
    part: PageRange,
    k: int,
)
    requires
        0 <= k,
        current.len() == old_plan@.len() + k,
        current.take(old_plan@.len() as int) == old_plan@,
        region.includes(part),
        part.well_formed(),
        forall|j: int|
            old_plan@.len() <= j < current.len() ==> (#[trigger] current[j]).virtual_range.past()
                <= part.first(),
    ensures
        !range_apart(current, part) ==> !range_apart(old_plan@, region),
{
    if range_apart(old_plan@, region) {
        assert forall|i: int| 0 <= i < current.len() implies (
        #[trigger] current[i]).virtual_range.apart(part) by {
            if i < old_plan@.len() {
                assert(current[i] == current.take(old_plan@.len() as int)[i]);
                assert(old_plan@[i].virtual_range.apart(region));
            }
        }
    }
}

proof fn lemma_region_was_free(
    old_plan: MappingPlan,
    entries: Seq<PlannedMapping>,
    slice: Seq<PageRange>,
    region: PageRange,
    permissions: Permissions,
)
    requires
        all_well_formed(slice),
        total_pages(slice) == region.pages(),
        region.well_formed(),
        entries_apart(entries),
        forall|i: int| 0 <= i < entries.len() ==> (#[trigger] entries[i]).well_formed(),
        entries.len() == old_plan@.len() + slice.len(),
        entries.take(old_plan@.len() as int) == old_plan@,
        tiles(entries.skip(old_plan@.len() as int), slice, region.first(), permissions),
    ensures
        range_apart(old_plan@, region),
{
    let n = old_plan@.len() as int;
    let tail = entries.skip(n);
    lemma_frames_len(slice);
    assert forall|i: int| 0 <= i < old_plan@.len() implies (
    #[trigger] old_plan@[i]).virtual_range.apart(region) by {
        let entry = old_plan@[i];
        assert(entries[i] == entries.take(n)[i]);
        assert(entries[i].well_formed());
        if !entry.virtual_range.apart(region) {
            let page = if entry.virtual_range.first() >= region.first() {
                entry.virtual_range.first()
            } else {
                region.first()
            };
            let at = page - region.first();
            tiles_show_every_page(tail, slice, region.first(), permissions, at);
            let k = choose|k: int|
                {
                    &&& 0 <= k < tail.len()
                    &&& (#[trigger] tail[k]).shows(region.first() + at, frames(slice)[at])
                    &&& tail[k].user
                    &&& tail[k].permissions == permissions
                };
            assert(entries[n + k] == tail[k]);
            assert(entries[i].virtual_range.apart(entries[n + k].virtual_range));
        }
    }
}

} // verus!
