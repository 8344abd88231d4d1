//! Heap growth: how many pages and page tables, and what is booked.

use crate::memory::extents::{
    all_well_formed, frames, lemma_frames_concat, lemma_frames_len, total_pages,
};
use crate::memory::frames::{missing_tables, table_deficit};
use crate::memory::pages::{PageRange, PAGE_SIZE};
use crate::memory::private::space::{
    application_growth_pages, exceeds, ApplicationMemory, PrivateMemory, SystemMemory,
};
use vstd::prelude::*;

verus! {

/// Pages that one page table covers at the lowest level.
pub const TABLE_PAGES: u64 = 512;

/// Pages that one table covers at the second level.
pub const DIRECTORY_PAGES: u64 = 262144;

/// Pages that one table covers at the third level.
pub const UPPER_PAGES: u64 = 134217728;

/// Boundaries of `coverage` pages that a walk from page `before` to page
/// `last` steps over.
pub open spec fn crossings(before: int, last: int, coverage: int) -> int {
    last / coverage - before / coverage
}

/// Page tables that `page_count` pages behind mapped page `first - 1` need.
pub open spec fn new_tables(first: int, page_count: int) -> int {
    let last = first + page_count - 1;
    crossings(first - 1, last, 512) + crossings(first - 1, last, 262144) + crossings(
        first - 1,
        last,
        134217728,
    )
}

/// Page tables needed to extend a mapping by `page_count` pages at
/// `virtual_start`.
///
/// Refuses the first page of the address space, an empty extension, and one
/// whose end cannot be represented.
pub fn additional_table_pages(virtual_start: u64, page_count: u64) -> (tables: Option<u64>)
    ensures
        match tables {
            Some(t) => virtual_start >= 4096 && page_count > 0 && virtual_start / 4096 + page_count
                <= u64::MAX && t == new_tables((virtual_start / 4096) as int, page_count as int),
            None => virtual_start < 4096 || page_count == 0 || virtual_start / 4096 + page_count
                > u64::MAX,
        },
{
    let start_page: u64 = virtual_start / PAGE_SIZE;
    let end_page: u64 = match start_page.checked_add(page_count) {
        Some(end) => end,
        None => return None,
    };
    if start_page == 0 || end_page <= start_page {
        return None;
    }
    let before: u64 = start_page - 1;
    let last: u64 = end_page - 1;
    Some(
        (last / TABLE_PAGES - before / TABLE_PAGES) + (last / DIRECTORY_PAGES - before
            / DIRECTORY_PAGES) + (last / UPPER_PAGES - before / UPPER_PAGES),
    )
}

/// Extending in two steps needs as many page tables as extending at once.
pub proof fn table_need_is_additive(first: int, a: int, b: int)
    ensures
        new_tables(first, a + b) == new_tables(first, a) + new_tables(first + a, b),
{
}

/// Extending by `page_count` pages never needs fewer than no tables, and of
/// those that hold single pages at most one for each 512 pages begun.
pub proof fn table_need_is_bounded(first: int, page_count: int)
    requires
        first > 0,
        page_count > 0,
    ensures
        0 <= new_tables(first, page_count),
        512 * crossings(first - 1, first + page_count - 1, 512) <= page_count + 511,
{
}

/// Page-table pages and private pages that an application holds.
pub fn application_resource_totals(memory: &ApplicationMemory, initial_private_pages: u64) -> (totals:
    Option<(u64, u64)>)
    requires
        memory.well_formed(),
    ensures
        ({
            let tables = memory.table_pages + memory.growth_table_frames@.len();
            let private = initial_private_pages + memory.growth_pages()
                + memory.private_memory.committed_pages;
            match totals {
                Some(t) => t.0 == tables && t.1 == private,
                None => tables > u64::MAX || private > u64::MAX,
            }
        }),
{
    proof {
        lemma_frames_len(memory.growth_ranges@);
    }
    let tables: u64 = match memory.table_pages.checked_add(
        memory.growth_table_frames.len() as u64,
    ) {
        Some(pages) => pages,
        None => return None,
    };
    let growth: u64 = match application_growth_pages(memory) {
        Some(pages) => pages,
        None => return None,
    };
    let held: u64 = match initial_private_pages.checked_add(growth) {
        Some(pages) => pages,
        None => return None,
    };
    match held.checked_add(memory.private_memory.committed_pages) {
        Some(private) => Some((tables, private)),
        None => None,
    }
}

/// Whether and how a heap may grow.
#[derive(Clone, Copy, Debug, PartialEq, Eq, Structural)]
pub enum GrowthPlan {
    /// Frames are to be collected.
    Grow {
        /// Page-table frames to allocate first.
        table_frames: u64,
        /// Heap pages that are mapped already.
        current_pages: u64,
    },
    /// The request cannot be granted now.
    Exhausted,
    /// Kernel bookkeeping cannot go on.
    Inconsistent,
}

/// Heap pages below the first private mapping.
pub open spec fn heap_ceiling(private: PrivateMemory, heap_start: int, maximum: int) -> int {
    if private.mappings@.len() == 0 {
        maximum
    } else {
        let first = 4096 * private.mappings@[0].range.first();
        let room = if first >= heap_start {
            (first - heap_start) / 4096
        } else {
            0
        };
        if room < maximum {
            room
        } else {
            maximum
        }
    }
}

/// What growth of a heap by `minimum_pages` depends on.
pub open spec fn growth_plan(
    system: SystemMemory,
    memory: ApplicationMemory,
    heap_start: u64,
    maximum_heap_pages: u64,
    minimum_pages: u64,
    used_tables: u64,
    free_frames: u64,
) -> GrowthPlan {
    let current = memory.heap_pages + memory.growth_pages();
    let ceiling = heap_ceiling(memory.private_memory, heap_start as int, maximum_heap_pages as int);
    let start = heap_start + 4096 * current;
    let missing = missing_tables(
        memory.table_pages as int,
        memory.growth_table_frames@.len() as int,
        used_tables as int,
        new_tables(start / 4096, minimum_pages as int),
    );
    let process = memory.extent_pages + memory.growth_pages()
        + memory.private_memory.committed_pages + minimum_pages;
    let commit = system.application_committed_pages + minimum_pages;
    let spare = if free_frames >= system.minimum_free_pages {
        free_frames - system.minimum_free_pages
    } else {
        0
    };
    if current > u64::MAX || ceiling < current {
        GrowthPlan::Inconsistent
    } else if minimum_pages == 0 || minimum_pages > ceiling - current {
        GrowthPlan::Exhausted
    } else if start > u64::MAX || start < 4096 || start / 4096 + minimum_pages > u64::MAX
        || missing is None || missing->0 + minimum_pages
        > u64::MAX || commit > u64::MAX || process > u64::MAX {
        GrowthPlan::Inconsistent
    } else if exceeds(commit, system.system_commit_limit) || exceeds(
        process,
        memory.private_memory.limits.maximum_committed_pages,
    ) || missing->0 + minimum_pages > spare {
        GrowthPlan::Exhausted
    } else {
        GrowthPlan::Grow { table_frames: missing->0 as u64, current_pages: current as u64 }
    }
}

/// Decide whether a heap grows by `minimum_pages`.
///
/// `used_tables` page-table pages are in use and `free_frames` frames are
/// free.
pub fn plan_heap_growth(
    system: &SystemMemory,
    memory: &ApplicationMemory,
    heap_start: u64,
    maximum_heap_pages: u64,
    minimum_pages: u64,
    used_tables: u64,
    free_frames: u64,
) -> (plan: GrowthPlan)
    requires
        memory.well_formed(),
    ensures
        plan == growth_plan(
            *system,
            *memory,
            heap_start,
            maximum_heap_pages,
            minimum_pages,
            used_tables,
            free_frames,
        ),
        plan matches GrowthPlan::Grow { current_pages, .. } ==> {
            &&& current_pages == memory.heap_pages + total_pages(memory.growth_ranges@)
            &&& heap_start + 4096 * current_pages == memory.heap_end(heap_start as int)
        },
{
    proof {
        lemma_frames_len(memory.growth_ranges@);
    }
    let growth: u64 = match application_growth_pages(memory) {
        Some(pages) => pages,
        None => return GrowthPlan::Inconsistent,
    };
    let current: u64 = match memory.heap_pages.checked_add(growth) {
        Some(pages) => pages,
        None => return GrowthPlan::Inconsistent,
    };
    let mut ceiling: u64 = maximum_heap_pages;
    if memory.private_memory.mappings.len() > 0 {
        let first: u64 = memory.private_memory.mappings[0].range.start();
        let room: u64 = first.saturating_sub(heap_start) / PAGE_SIZE;
        if room < ceiling {
            ceiling = room;
        }
    }
    if ceiling < current {
        return GrowthPlan::Inconsistent;
    }
    if minimum_pages == 0 || minimum_pages > ceiling - current {
        return GrowthPlan::Exhausted;
    }
    let offset: u64 = match current.checked_mul(PAGE_SIZE) {
        Some(bytes) => bytes,
        None => return GrowthPlan::Inconsistent,
    };
    let start: u64 = match heap_start.checked_add(offset) {
        Some(address) => address,
        None => return GrowthPlan::Inconsistent,
    };
    let required: u64 = match additional_table_pages(start, minimum_pages) {
        Some(pages) => pages,
        None => return GrowthPlan::Inconsistent,
    };
    let table_frames: u64 = match table_deficit(
        memory.table_pages,
        memory.growth_table_frames.len(),
        used_tables,
        required,
    ) {
        Some(frames) => frames,
        None => return GrowthPlan::Inconsistent,
    };
    let needed: u64 = match minimum_pages.checked_add(table_frames) {
        Some(frames) => frames,
        None => return GrowthPlan::Inconsistent,
    };
    let commit: u64 = match system.application_committed_pages.checked_add(minimum_pages) {
        Some(pages) => pages,
        None => return GrowthPlan::Inconsistent,
    };
    let fixed: u64 = match memory.extent_pages.checked_add(growth) {
        Some(pages) => pages,
        None => return GrowthPlan::Inconsistent,
    };
    let held: u64 = match fixed.checked_add(memory.private_memory.committed_pages) {
        Some(pages) => pages,
        None => return GrowthPlan::Inconsistent,
    };
    let process: u64 = match held.checked_add(minimum_pages) {
        Some(pages) => pages,
        None => return GrowthPlan::Inconsistent,
    };
    let system_full = match system.system_commit_limit {
        Some(limit) => commit > limit,
        None => false,
    };
    let process_full = match memory.private_memory.limits.maximum_committed_pages {
        Some(limit) => process > limit,
        None => false,
    };
    if system_full || process_full || needed > free_frames.saturating_sub(
        system.minimum_free_pages,
    ) {
        return GrowthPlan::Exhausted;
    }
    GrowthPlan::Grow { table_frames, current_pages: current }
}

/// Book a growth whose pages the machine has mapped.
///
/// Returns the mapped heap bytes, or nothing where they cannot be
/// represented.
pub fn commit_heap_growth(
    system: &mut SystemMemory,
    memory: &mut ApplicationMemory,
    current_pages: u64,
    extents: Vec<PageRange>,
    table_frames: Vec<u64>,
) -> (mapped_bytes: Option<u64>)
    requires
        old(memory).well_formed(),
        all_well_formed(extents@),
        old(system).application_committed_pages + total_pages(extents@) <= u64::MAX,
    ensures
        final(memory).well_formed(),
        final(memory).growth_ranges@ == old(memory).growth_ranges@ + extents@,
        frames(final(memory).growth_ranges@) == frames(old(memory).growth_ranges@) + frames(
            extents@,
        ),
        final(memory).growth_pages() == old(memory).growth_pages() + total_pages(extents@),
        final(memory).growth_table_frames@ == old(memory).growth_table_frames@ + table_frames@,
        final(memory).private_memory == old(memory).private_memory,
        final(memory).extent_pages == old(memory).extent_pages,
        final(memory).table_pages == old(memory).table_pages,
        final(memory).heap_pages == old(memory).heap_pages,
        *final(system) == (SystemMemory {
            application_committed_pages: (old(system).application_committed_pages + total_pages(
                extents@,
            )) as u64,
            ..*old(system)
        }),
        match mapped_bytes {
            Some(bytes) => bytes == 4096 * (current_pages + total_pages(extents@)),
            None => 4096 * (current_pages + total_pages(extents@)) > u64::MAX,
        },
{
    proof {
        lemma_frames_len(extents@);
        lemma_frames_concat(memory.growth_ranges@, extents@);
    }
    let pages: u64 = match crate::memory::extents::count_pages(&extents) {
        Some(pages) => pages,
        None => {
            assert(false);
            0
        },
    };
    let mut extents = extents;
    let mut table_frames = table_frames;
    let ghost both = memory.growth_ranges@ + extents@;
    memory.growth_ranges.append(&mut extents);
    memory.growth_table_frames.append(&mut table_frames);
    system.application_committed_pages = system.application_committed_pages + pages;
    proof {
        assert(memory.growth_ranges@ == both);
        assert forall|i: int| 0 <= i < both.len() implies (#[trigger] both[i]).well_formed() by {}
    }
    match current_pages.checked_add(pages) {
        Some(mapped) => mapped.checked_mul(PAGE_SIZE),
        None => None,
    }
}

/// Growth that the plan allows keeps the heap below every private mapping and
/// within its maximum.
pub proof fn growth_stays_below_private_mappings(
    system: SystemMemory,
    memory: ApplicationMemory,
    heap_start: u64,
    maximum_heap_pages: u64,
    minimum_pages: u64,
    used_tables: u64,
    free_frames: u64,
)
    requires
        memory.well_formed(),
        growth_plan(
            system,
            memory,
            heap_start,
            maximum_heap_pages,
            minimum_pages,
            used_tables,
            free_frames,
        ) is Grow,
    ensures
        memory.heap_pages + memory.growth_pages() + minimum_pages <= maximum_heap_pages,
        forall|i: int|
            0 <= i < memory.private_memory.mappings@.len() ==> memory.heap_end(heap_start as int)
                + 4096 * minimum_pages <= 4096 * (
            #[trigger] memory.private_memory.mappings@[i]).range.first(),
{
    let mappings = memory.private_memory.mappings@;
    lemma_frames_len(memory.growth_ranges@);
    assert forall|i: int| 0 <= i < mappings.len() implies memory.heap_end(heap_start as int) + 4096
        * minimum_pages <= 4096 * (#[trigger] mappings[i]).range.first() by {
        assert(mappings[0].well_formed());
        if i > 0 {
            assert(mappings[0].range.past() <= mappings[i].range.first());
        }
    }
}

/// A table more is needed for each page that begins one: a page whose number is
/// a multiple of 512 begins a table, a multiple of 512 times 512 one of the
/// second level too, and a multiple of 512 times that one of the third. With
/// `table_need_is_additive` this fixes the need of any number of pages.
pub proof fn pages_begin_tables(page: int)
    requires
        page > 0,
    ensures
        new_tables(page, 0) == 0,
        page % 512 != 0 ==> new_tables(page, 1) == 0,
        page % 512 == 0 && page % 262144 != 0 ==> new_tables(page, 1) == 1,
        page % 262144 == 0 && page % 134217728 != 0 ==> new_tables(page, 1) == 2,
        page % 134217728 == 0 ==> new_tables(page, 1) == 3,
{
}

/// A granted plan names the pages that are mapped so far: those of the launch and
/// those of every growth since, so that the new pages begin where the heap ends.
/// It asks for as many page-table frames as are missing and for no more.
pub proof fn plans_start_at_the_end_of_the_heap(
    system: SystemMemory,
    memory: ApplicationMemory,
    heap_start: u64,
    maximum_heap_pages: u64,
    minimum_pages: u64,
    used_tables: u64,
    free_frames: u64,
)
    requires
        memory.well_formed(),
    ensures
        growth_plan(
            system,
            memory,
            heap_start,
            maximum_heap_pages,
            minimum_pages,
            used_tables,
            free_frames,
        ) matches GrowthPlan::Grow { table_frames, current_pages } ==> {
            let owned = memory.table_pages + memory.growth_table_frames@.len();
            let wanted = new_tables(
                (heap_start + 4096 * current_pages) / 4096,
                minimum_pages as int,
            );
            &&& current_pages == memory.heap_pages + total_pages(memory.growth_ranges@)
            &&& heap_start + 4096 * current_pages == memory.heap_end(heap_start as int)
            &&& used_tables <= owned
            &&& owned + table_frames - used_tables >= wanted
            &&& table_frames > 0 ==> owned + table_frames - used_tables == wanted
        },
{
    lemma_frames_len(memory.growth_ranges@);
}

/// A growth is granted only where the application and the system stay within
/// their limits with the new pages, and where enough frames stay free. The
/// pages of the launch reservation, of every growth and of private memory count
/// together.
pub proof fn granted_growth_respects_every_limit(
    system: SystemMemory,
    memory: ApplicationMemory,
    heap_start: u64,
    maximum_heap_pages: u64,
    minimum_pages: u64,
    used_tables: u64,
    free_frames: u64,
)
    requires
        memory.well_formed(),
    ensures
        growth_plan(
            system,
            memory,
            heap_start,
            maximum_heap_pages,
            minimum_pages,
            used_tables,
            free_frames,
        ) matches GrowthPlan::Grow { table_frames, current_pages } ==> {
            &&& minimum_pages > 0
            &&& memory.private_memory.limits.maximum_committed_pages matches Some(most)
                ==> memory.extent_pages + total_pages(memory.growth_ranges@)
                + memory.private_memory.committed_pages + minimum_pages <= most
            &&& system.system_commit_limit matches Some(most)
                ==> system.application_committed_pages + minimum_pages <= most
            &&& system.application_committed_pages + minimum_pages <= u64::MAX
            &&& free_frames >= system.minimum_free_pages + minimum_pages + table_frames
        },
{
    lemma_frames_len(memory.growth_ranges@);
}

/// A growth is granted wherever nothing stands against it: the heap stays below
/// its maximum and the first private mapping, the page tables are counted, no
/// limit is broken and enough frames stay free.
pub proof fn growth_is_granted_where_nothing_forbids_it(
    system: SystemMemory,
    memory: ApplicationMemory,
    heap_start: u64,
    maximum_heap_pages: u64,
    minimum_pages: u64,
    used_tables: u64,
    free_frames: u64,
    table_frames: int,
)
    requires
        memory.well_formed(),
        minimum_pages > 0,
        heap_start >= 4096,
        ({
            let end = memory.heap_end(heap_start as int);
            let owned = memory.table_pages + memory.growth_table_frames@.len();
            &&& end + 4096 * minimum_pages <= u64::MAX
            &&& memory.heap_pages + total_pages(memory.growth_ranges@) + minimum_pages
                <= maximum_heap_pages
            &&& forall|i: int|
                0 <= i < memory.private_memory.mappings@.len() ==> end + 4096 * minimum_pages
                    <= 4096 * (#[trigger] memory.private_memory.mappings@[i]).range.first()
            &&& owned <= u64::MAX
            &&& used_tables <= owned
            &&& table_frames >= 0
            &&& owned + table_frames - used_tables >= new_tables(
                end / 4096,
                minimum_pages as int,
            )
            &&& free_frames >= system.minimum_free_pages + minimum_pages + table_frames
        }),
        system.application_committed_pages + minimum_pages <= u64::MAX,
        memory.extent_pages + total_pages(memory.growth_ranges@)
            + memory.private_memory.committed_pages + minimum_pages <= u64::MAX,
        memory.private_memory.limits.maximum_committed_pages matches Some(most)
            ==> memory.extent_pages + total_pages(memory.growth_ranges@)
            + memory.private_memory.committed_pages + minimum_pages <= most,
        system.system_commit_limit matches Some(most) ==> system.application_committed_pages
            + minimum_pages <= most,
    ensures
        growth_plan(
            system,
            memory,
            heap_start,
            maximum_heap_pages,
            minimum_pages,
            used_tables,
            free_frames,
        ) is Grow,
{
    lemma_frames_len(memory.growth_ranges@);
    let mappings = memory.private_memory.mappings@;
    if mappings.len() > 0 {
        assert(memory.heap_end(heap_start as int) + 4096 * minimum_pages <= 4096
            * mappings[0].range.first());
    }
}

/// A growth by no pages, or beyond the maximum of the heap, is refused, whatever
/// there is; so is one that a limit or the reserve of frames forbids.
pub proof fn excessive_growth_is_refused(
    system: SystemMemory,
    memory: ApplicationMemory,
    heap_start: u64,
    maximum_heap_pages: u64,
    minimum_pages: u64,
    used_tables: u64,
    free_frames: u64,
)
    requires
        memory.well_formed(),
        minimum_pages == 0 || memory.heap_pages + total_pages(memory.growth_ranges@)
            + minimum_pages > maximum_heap_pages,
        memory.heap_pages + total_pages(memory.growth_ranges@) <= maximum_heap_pages,
        forall|i: int|
            0 <= i < memory.private_memory.mappings@.len() ==> memory.heap_end(heap_start as int)
                <= 4096 * (#[trigger] memory.private_memory.mappings@[i]).range.first(),
    ensures
        growth_plan(
            system,
            memory,
            heap_start,
            maximum_heap_pages,
            minimum_pages,
            used_tables,
            free_frames,
        ) == GrowthPlan::Exhausted,
{
    lemma_frames_len(memory.growth_ranges@);
    let mappings = memory.private_memory.mappings@;
    if mappings.len() > 0 {
        assert(memory.heap_end(heap_start as int) <= 4096 * mappings[0].range.first());
    }
}

/// Mapped heap bytes that a growth reports are those of the whole heap
/// afterwards: of the launch, of every growth before and of this one.
pub proof fn reported_bytes_are_the_whole_heap(
    system: SystemMemory,
    memory: ApplicationMemory,
    heap_start: u64,
    maximum_heap_pages: u64,
    minimum_pages: u64,
    used_tables: u64,
    free_frames: u64,
    after: ApplicationMemory,
    extents: Seq<PageRange>,
)
    requires
        memory.well_formed(),
        after.heap_pages == memory.heap_pages,
        after.growth_ranges@ == memory.growth_ranges@ + extents,
    ensures
        growth_plan(
            system,
            memory,
            heap_start,
            maximum_heap_pages,
            minimum_pages,
            used_tables,
            free_frames,
        ) matches GrowthPlan::Grow { current_pages, .. } ==> 4096 * (current_pages + total_pages(
            extents,
        )) == 4096 * (after.heap_pages + total_pages(after.growth_ranges@)),
{
    lemma_frames_len(memory.growth_ranges@);
    lemma_frames_concat(memory.growth_ranges@, extents);
}

} // verus!
