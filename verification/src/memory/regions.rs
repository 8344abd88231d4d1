//! Regions of a reservation and their place in a mapping plan.

use crate::memory::extents::{all_well_formed, frames, lemma_frames_len, total_pages, touched};
use crate::memory::pages::PageRange;
use crate::memory::plan::{
    map_launch_region, region_fits, tiles, tiles_show_every_page, user_page, MappingPlan,
    PlannedMapping,
};
use crate::memory::private::mapping::Permissions;
use vstd::prelude::*;

verus! {

/// A virtually contiguous region and the logical pages behind it.
#[derive(Clone, Copy, Debug, PartialEq, Eq, Structural)]
pub struct LaunchRegion {
    /// First logical page of the reservation.
    pub start_page: u64,
    /// Number of pages.
    pub page_count: u64,
    /// First virtual byte address.
    pub virtual_start: u64,
    /// Rights.
    pub permissions: Permissions,
}

impl LaunchRegion {
    /// First virtual page.
    pub open spec fn first(self) -> int {
        self.virtual_start as int / 4096
    }

    /// Whether the region covers virtual page `page`.
    pub open spec fn covers(self, page: int) -> bool {
        self.first() <= page < self.first() + self.page_count
    }

    /// Whether no page belongs to both regions.
    pub open spec fn apart(self, other: LaunchRegion) -> bool {
        ||| self.page_count == 0
        ||| other.page_count == 0
        ||| self.first() + self.page_count <= other.first()
        ||| other.first() + other.page_count <= self.first()
    }

    /// Whether the region is empty, or a valid range inside the reservation.
    pub open spec fn held(self, extents: Seq<PageRange>) -> bool {
        self.page_count == 0 || (PageRange::valid(
            self.virtual_start as int,
            self.page_count as int,
        ) && self.start_page + self.page_count <= total_pages(extents))
    }

    /// Whether the region shares no page with a mapping.
    pub open spec fn clear_of(self, mapping: PlannedMapping) -> bool {
        ||| self.page_count == 0
        ||| mapping.virtual_range.past() <= self.first()
        ||| self.first() + self.page_count <= mapping.virtual_range.first()
    }

    /// Plan entries that the region needs.
    pub open spec fn entries(self, extents: Seq<PageRange>) -> int {
        if self.page_count == 0 {
            0
        } else {
            touched(extents, self.start_page as int, self.start_page + self.page_count)
        }
    }

    /// The mapping lies inside the region and has its rights.
    pub open spec fn contains(self, mapping: PlannedMapping) -> bool {
        &&& self.first() <= mapping.virtual_range.first()
        &&& mapping.virtual_range.past() <= self.first() + self.page_count
        &&& mapping.permissions == self.permissions
        &&& mapping.user
    }
}

/// Plan entries that the first `n` regions need.
pub open spec fn entries_needed(
    regions: Seq<LaunchRegion>,
    extents: Seq<PageRange>,
    n: int,
) -> int
    decreases n,
{
    if n <= 0 {
        0
    } else {
        entries_needed(regions, extents, n - 1) + regions[n - 1].entries(extents)
    }
}

/// Whether all regions can be added to a plan: each is held, none overlaps
/// another or an entry, and the capacity suffices.
pub open spec fn regions_fit(
    plan: MappingPlan,
    extents: Seq<PageRange>,
    regions: Seq<LaunchRegion>,
) -> bool {
    &&& forall|i: int| 0 <= i < regions.len() ==> (#[trigger] regions[i]).held(extents)
    &&& forall|i: int, j: int|
        0 <= i < j < regions.len() ==> (#[trigger] regions[i]).apart(#[trigger] regions[j])
    &&& forall|i: int, k: int|
        0 <= i < regions.len() && 0 <= k < plan@.len() ==> (#[trigger] regions[i]).clear_of(
            #[trigger] plan@[k],
        )
    &&& plan@.len() + entries_needed(regions, extents, regions.len() as int) <= plan.capacity
}

/// The entries show exactly the regions: every region page shows its frame,
/// and every entry lies inside a region.
pub open spec fn shows_regions(
    entries: Seq<PlannedMapping>,
    extents: Seq<PageRange>,
    regions: Seq<LaunchRegion>,
    n: int,
) -> bool {
    &&& forall|i: int, p: int|
        #![trigger regions[i], frames(extents)[p]]
        0 <= i < n && regions[i].start_page <= p < regions[i].start_page + regions[i].page_count
            ==> user_page(
            entries,
            regions[i].first() + (p - regions[i].start_page),
            frames(extents)[p],
            regions[i].permissions,
        )
    &&& forall|k: int|
        0 <= k < entries.len() ==> exists|i: int|
            0 <= i < n && (#[trigger] regions[i]).contains(#[trigger] entries[k])
}

proof fn lemma_touched_nonnegative(extents: Seq<PageRange>, lo: int, hi: int)
    ensures
        touched(extents, lo, hi) >= 0,
    decreases extents.len(),
{
    if extents.len() > 0 {
        lemma_touched_nonnegative(extents.drop_last(), lo, hi);
    }
}

proof fn lemma_needed_monotone(
    regions: Seq<LaunchRegion>,
    extents: Seq<PageRange>,
    a: int,
    b: int,
)
    requires
        0 <= a <= b,
    ensures
        entries_needed(regions, extents, a) <= entries_needed(regions, extents, b),
    decreases b,
{
    if a < b {
        lemma_needed_monotone(regions, extents, a, b - 1);
        lemma_touched_nonnegative(
            extents,
            regions[b - 1].start_page as int,
            regions[b - 1].start_page + regions[b - 1].page_count,
        );
    }
}

/// A region fits behind the ones already shown exactly when it is held, clear
/// of the old entries and the earlier regions, and there is room.
proof fn lemma_next_region(
    old_plan: MappingPlan,
    plan: MappingPlan,
    extents: Seq<PageRange>,
    regions: Seq<LaunchRegion>,
    i: int,
)
    requires
        plan.well_formed(),
        all_well_formed(extents),
        0 <= i < regions.len(),
        regions[i].page_count > 0,
        old_plan@.len() <= plan@.len(),
        plan@.take(old_plan@.len() as int) == old_plan@,
        plan@.len() == old_plan@.len() + entries_needed(regions, extents, i),
        plan.capacity == old_plan.capacity,
        shows_regions(plan@.skip(old_plan@.len() as int), extents, regions, i),
        forall|j: int| 0 <= j < i ==> (#[trigger] regions[j]).held(extents),
    ensures
        region_fits(
            plan,
            extents,
            regions[i].start_page as int,
            regions[i].page_count as int,
            regions[i].virtual_start as int,
        ) <==> {
            &&& regions[i].held(extents)
            &&& forall|k: int|
                0 <= k < old_plan@.len() ==> regions[i].clear_of(#[trigger] old_plan@[k])
            &&& forall|j: int| 0 <= j < i ==> (#[trigger] regions[j]).apart(regions[i])
            &&& old_plan@.len() + entries_needed(regions, extents, i + 1) <= plan.capacity
        },
{
    let r = regions[i];
    let n = old_plan@.len() as int;
    let tail = plan@.skip(n);
    let fits = region_fits(
        plan,
        extents,
        r.start_page as int,
        r.page_count as int,
        r.virtual_start as int,
    );
    lemma_frames_len(extents);
    if fits {
        assert forall|k: int| 0 <= k < old_plan@.len() implies r.clear_of(#[trigger] old_plan@[k]) by {
            assert(plan@[k] == plan@.take(n)[k]);
        }
        assert forall|j: int| 0 <= j < i implies (#[trigger] regions[j]).apart(r) by {
            let q = regions[j];
            if !q.apart(r) {
                let page = if q.first() >= r.first() {
                    q.first()
                } else {
                    r.first()
                };
                let p = q.start_page + (page - q.first());
                assert(q.held(extents));
                let frame = frames(extents)[p];
                assert(user_page(tail, q.first() + (p - q.start_page), frame, q.permissions));
                let k = choose|k: int|
                    {
                        &&& 0 <= k < tail.len()
                        &&& (#[trigger] tail[k]).shows(page, frame)
                        &&& tail[k].user
                        &&& tail[k].permissions == q.permissions
                    };
                assert(plan@[n + k] == tail[k]);
                assert(tail[k].virtual_range.covers(page));
            }
        }
    } else if r.held(extents) && (forall|k: int|
        0 <= k < old_plan@.len() ==> r.clear_of(#[trigger] old_plan@[k])) && (forall|j: int|
        0 <= j < i ==> (#[trigger] regions[j]).apart(r)) && n + entries_needed(
        regions,
        extents,
        i + 1,
    ) <= plan.capacity {
        assert forall|k: int| 0 <= k < plan@.len() implies (
        #[trigger] plan@[k]).virtual_range.past() <= r.virtual_start as int / 4096
            || r.virtual_start as int / 4096 + r.page_count
            <= plan@[k].virtual_range.first() by {
            assert(plan@[k].well_formed());
            if k < n {
                assert(plan@[k] == plan@.take(n)[k]);
                assert(r.clear_of(old_plan@[k]));
            } else {
                let t = k - n;
                assert(tail[t] == plan@[k]);
                let j = choose|j: int| 0 <= j < i && (#[trigger] regions[j]).contains(tail[t]);
                assert(regions[j].apart(r));
            }
        }
        assert(fits);
    }
}

/// Add all regions to a plan.
///
/// Fails exactly where they do not fit; the plan may then hold some of them.
pub fn map_regions(
    plan: &mut MappingPlan,
    extents: &Vec<PageRange>,
    regions: &Vec<LaunchRegion>,
) -> (mapped: bool)
    requires
        old(plan).well_formed(),
        all_well_formed(extents@),
        total_pages(extents@) <= u64::MAX,
    ensures
        final(plan).well_formed(),
        final(plan).capacity == old(plan).capacity,
        mapped == regions_fit(*old(plan), extents@, regions@),
        mapped ==> {
            &&& old(plan)@.len() <= final(plan)@.len()
            &&& final(plan)@.take(old(plan)@.len() as int) == old(plan)@
            &&& shows_regions(
                final(plan)@.skip(old(plan)@.len() as int),
                extents@,
                regions@,
                regions@.len() as int,
            )
        },
{
    let ghost old_plan = *plan;
    let ghost n = plan@.len() as int;
    let mut i: usize = 0;
    proof {
        assert(plan@.take(n) =~= old_plan@);
        assert(plan@.skip(n) =~= Seq::<PlannedMapping>::empty());
    }
    while i < regions.len()
        invariant
            i <= regions@.len(),
            plan.well_formed(),
            old_plan == *old(plan),
            n == old_plan@.len(),
            plan.capacity == old_plan.capacity,
            all_well_formed(extents@),
            total_pages(extents@) <= u64::MAX,
            n <= plan@.len(),
            plan@.take(n) == old_plan@,
            plan@.len() == n + entries_needed(regions@, extents@, i as int),
            shows_regions(plan@.skip(n), extents@, regions@, i as int),
            forall|j: int| 0 <= j < i ==> (#[trigger] regions@[j]).held(extents@),
            forall|j: int, k: int|
                0 <= j < k < i ==> (#[trigger] regions@[j]).apart(#[trigger] regions@[k]),
            forall|j: int, k: int|
                0 <= j < i && 0 <= k < n ==> (#[trigger] regions@[j]).clear_of(
                    #[trigger] old_plan@[k],
                ),
        decreases regions@.len() - i,
    {
        let region = regions[i];
        let ghost current = *plan;
        let ghost tail = current@.skip(n);
        let mapped = map_launch_region(
            plan,
            extents,
            region.start_page,
            region.page_count,
            region.virtual_start,
            region.permissions,
        );
        proof {
            lemma_needed_monotone(regions@, extents@, i + 1, regions@.len() as int);
            if region.page_count > 0 {
                lemma_next_region(old_plan, current, extents@, regions@, i as int);
            }
            if !mapped && regions_fit(old_plan, extents@, regions@) {
                assert(regions@[i as int].held(extents@));
                assert forall|k: int| 0 <= k < old_plan@.len() implies region.clear_of(
                    #[trigger] old_plan@[k],
                ) by {
                    assert(regions@[i as int].clear_of(old_plan@[k]));
                }
                assert forall|j: int| 0 <= j < i implies (#[trigger] regions@[j]).apart(
                    region,
                ) by {
                    assert(regions@[j].apart(regions@[i as int]));
                }
                assert(false);
            }
        }
        if !mapped {
            return false;
        }
        proof {
            let grown = plan@.skip(n);
            if region.page_count == 0 {
                assert(grown =~= tail);
                lemma_shows_more(tail, tail, extents@, regions@, i as int, Seq::empty());
            } else {
                let m = current@.len() as int;
                let slice = choose|slice: Seq<PageRange>|
                    {
                        &&& all_well_formed(slice)
                        &&& frames(slice) == frames(extents@).subrange(
                            region.start_page as int,
                            region.start_page + region.page_count,
                        )
                        &&& slice.len() == touched(
                            extents@,
                            region.start_page as int,
                            region.start_page + region.page_count,
                        )
                        &&& plan@.len() == m + slice.len()
                        &&& plan@.take(m) == current@
                        &&& #[trigger] tiles(
                            plan@.skip(m),
                            slice,
                            region.virtual_start as int / 4096,
                            region.permissions,
                        )
                    };
                let fresh = plan@.skip(m);
                assert(plan@.take(n) =~= current@.take(n)) by {
                    assert(plan@.take(n) =~= plan@.take(m).take(n));
                }
                assert(grown =~= tail + fresh) by {
                    assert forall|k: int| 0 <= k < grown.len() implies grown[k] == (tail
                        + fresh)[k] by {
                        if k < tail.len() {
                            assert(plan@.take(m)[n + k] == current@[n + k]);
                        }
                    }
                }
                lemma_new_region_shown(fresh, slice, extents@, region);
                lemma_shows_more(tail, grown, extents@, regions@, i as int, fresh);
            }
        }
        i = i + 1;
    }
    true
}

proof fn lemma_new_region_shown(
    fresh: Seq<PlannedMapping>,
    slice: Seq<PageRange>,
    extents: Seq<PageRange>,
    region: LaunchRegion,
)
    requires
        all_well_formed(extents),
        all_well_formed(slice),
        region.held(extents),
        region.page_count > 0,
        frames(slice) == frames(extents).subrange(
            region.start_page as int,
            region.start_page + region.page_count,
        ),
        tiles(fresh, slice, region.first(), region.permissions),
    ensures
        forall|p: int|
            #![trigger frames(extents)[p]]
            region.start_page <= p < region.start_page + region.page_count ==> user_page(
                fresh,
                region.first() + (p - region.start_page),
                frames(extents)[p],
                region.permissions,
            ),
        forall|k: int| 0 <= k < fresh.len() ==> region.contains(#[trigger] fresh[k]),
{
    lemma_frames_len(extents);
    lemma_frames_len(slice);
    assert forall|p: int|
        #![trigger frames(extents)[p]]
        region.start_page <= p < region.start_page + region.page_count implies user_page(
        fresh,
        region.first() + (p - region.start_page),
        frames(extents)[p],
        region.permissions,
    ) by {
        tiles_show_every_page(
            fresh,
            slice,
            region.first(),
            region.permissions,
            p - region.start_page,
        );
    }
    assert forall|k: int| 0 <= k < fresh.len() implies region.contains(#[trigger] fresh[k]) by {
        assert(fresh[k].well_formed());
        assert(slice.take(k + 1) =~= slice.take(k).push(slice[k]));
        crate::memory::extents::lemma_frames_push(slice.take(k), slice[k]);
        crate::memory::extents::lemma_total_prefix(slice, k + 1);
        crate::memory::extents::lemma_total_prefix(slice, k);
    }
}

proof fn lemma_shows_more(
    tail: Seq<PlannedMapping>,
    grown: Seq<PlannedMapping>,
    extents: Seq<PageRange>,
    regions: Seq<LaunchRegion>,
    i: int,
    fresh: Seq<PlannedMapping>,
)
    requires
        0 <= i < regions.len(),
        grown == tail + fresh,
        shows_regions(tail, extents, regions, i),
        forall|p: int|
            #![trigger frames(extents)[p]]
            regions[i].start_page <= p < regions[i].start_page + regions[i].page_count
                ==> user_page(
                fresh,
                regions[i].first() + (p - regions[i].start_page),
                frames(extents)[p],
                regions[i].permissions,
            ),
        forall|k: int| 0 <= k < fresh.len() ==> regions[i].contains(#[trigger] fresh[k]),
    ensures
        shows_regions(grown, extents, regions, i + 1),
{
    assert forall|j: int, p: int|
        #![trigger regions[j], frames(extents)[p]]
        0 <= j < i + 1 && regions[j].start_page <= p < regions[j].start_page
            + regions[j].page_count implies user_page(
        grown,
        regions[j].first() + (p - regions[j].start_page),
        frames(extents)[p],
        regions[j].permissions,
    ) by {
        let page = regions[j].first() + (p - regions[j].start_page);
        let frame = frames(extents)[p];
        if j < i {
            let k = choose|k: int|
                {
                    &&& 0 <= k < tail.len()
                    &&& (#[trigger] tail[k]).shows(page, frame)
                    &&& tail[k].user
                    &&& tail[k].permissions == regions[j].permissions
                };
            assert(user_page(tail, page, frame, regions[j].permissions));
            assert(grown[k] == tail[k]);
        } else {
            assert(user_page(fresh, page, frame, regions[j].permissions));
            let k = choose|k: int|
                {
                    &&& 0 <= k < fresh.len()
                    &&& (#[trigger] fresh[k]).shows(page, frame)
                    &&& fresh[k].user
                    &&& fresh[k].permissions == regions[j].permissions
                };
            assert(grown[tail.len() + k] == fresh[k]);
        }
    }
    assert forall|k: int| 0 <= k < grown.len() implies exists|j: int|
        0 <= j < i + 1 && (#[trigger] regions[j]).contains(#[trigger] grown[k]) by {
        if k < tail.len() {
            assert(grown[k] == tail[k]);
            let j = choose|j: int| 0 <= j < i && (#[trigger] regions[j]).contains(tail[k]);
            assert(regions[j].contains(grown[k]));
        } else {
            assert(grown[k] == fresh[k - tail.len()]);
            assert(regions[i].contains(grown[k]));
        }
    }
}

/// Two regions are apart exactly where no page lies in both, and a region is
/// clear of a mapping exactly where no page lies in both.
pub proof fn regions_apart_share_no_page(
    a: LaunchRegion,
    b: LaunchRegion,
    mapping: PlannedMapping,
)
    requires
        mapping.virtual_range.pages() > 0,
    ensures
        a.apart(b) <==> forall|page: int| !(#[trigger] a.covers(page) && b.covers(page)),
        a.clear_of(mapping) <==> forall|page: int|
            !(#[trigger] a.covers(page) && mapping.virtual_range.covers(page)),
{
    if !a.apart(b) {
        let page = if a.first() >= b.first() {
            a.first()
        } else {
            b.first()
        };
        assert(a.covers(page) && b.covers(page));
    }
    if !a.clear_of(mapping) {
        let page = if a.first() >= mapping.virtual_range.first() {
            a.first()
        } else {
            mapping.virtual_range.first()
        };
        assert(a.covers(page) && mapping.virtual_range.covers(page));
    }
}

} // verus!
