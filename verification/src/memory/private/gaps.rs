//! Placement of a new mapping in the gaps between existing ones.

use crate::memory::pages::{PageRange, PAGE_SIZE};
use crate::memory::private::mapping::{ordered, PrivateMapping};
use crate::numeric::{align_down, align_up, aligned_down, aligned_up};
use vstd::arithmetic::power2::is_pow2;
use vstd::prelude::*;

verus! {

/// Whether `bytes` bytes fit at address `at` inside a gap, on the alignment.
pub open spec fn fits_gap(at: int, gap: (int, int), bytes: int, alignment: int) -> bool {
    at % alignment == 0 && gap.0 <= at && at + bytes <= gap.1
}

/// The number of aligned placements inside a gap.
pub open spec fn gap_slots(gap: (int, int), bytes: int, alignment: int) -> int {
    let first = aligned_up(gap.0, alignment);
    let last = aligned_down(gap.1 - bytes, alignment);
    if first <= last {
        (last - first) / alignment + 1
    } else {
        0
    }
}

/// The placements inside a gap are the `gap_slots` multiples of the alignment
/// from the first one on.
pub proof fn gap_slots_are_the_placements(gap: (int, int), bytes: int, alignment: int, at: int)
    requires
        alignment > 0,
    ensures
        fits_gap(at, gap, bytes, alignment) <==> at % alignment == 0 && aligned_up(
            gap.0,
            alignment,
        ) <= at <= aligned_up(gap.0, alignment) + (gap_slots(gap, bytes, alignment) - 1)
            * alignment,
        gap_slots(gap, bytes, alignment) >= 0,
        aligned_up(gap.0, alignment) % alignment == 0,
{
    let first = aligned_up(gap.0, alignment);
    let last = aligned_down(gap.1 - bytes, alignment);
    crate::numeric::lemma_aligned_up(gap.0, alignment);
    crate::numeric::lemma_aligned_down(gap.1 - bytes, alignment);
    if first <= last {
        let n = (last - first) / alignment;
        assert((last - first) % alignment == 0) by {
            vstd::arithmetic::div_mod::lemma_sub_mod_noop(last, first, alignment);
        }
        vstd::arithmetic::div_mod::lemma_fundamental_div_mod(last - first, alignment);
        assert(n * alignment == last - first) by (nonlinear_arith)
            requires
                last - first == alignment * n + 0,
        ;
        assert(n >= 0) by (nonlinear_arith)
            requires
                n * alignment >= 0,
                alignment > 0,
        ;
        assert((gap_slots(gap, bytes, alignment) - 1) * alignment == last - first);
    } else {
        assert((0int - 1) * alignment == -alignment) by (nonlinear_arith);
        if fits_gap(at, gap, bytes, alignment) {
            assert(at % alignment == 0);
        }
    }
}

/// First placement and number of placements inside a gap; `None` where there
/// is none or their number cannot be represented.
pub fn private_gap_slots(gap_start: u64, gap_end: u64, byte_count: u64, alignment: u64) -> (slots:
    Option<(u64, u64)>)
    ensures
        ({
            let gap = (gap_start as int, gap_end as int);
            let count = gap_slots(gap, byte_count as int, alignment as int);
            match slots {
                Some(s) => is_pow2(alignment as int) && s.0 == aligned_up(
                    gap_start as int,
                    alignment as int,
                ) && s.1 == count && count > 0,
                None => !is_pow2(alignment as int) || count == 0 || count > u64::MAX,
            }
        }),
{
    proof {
        reveal(is_pow2);
    }
    let first: u64 = match align_up(gap_start, alignment) {
        Some(first) => first,
        None => {
            proof {
                if is_pow2(alignment as int) {
                    crate::numeric::lemma_aligned_down(
                        gap_end - byte_count,
                        alignment as int,
                    );
                }
            }
            return None;
        },
    };
    proof {
        crate::numeric::lemma_aligned_up(gap_start as int, alignment as int);
        crate::numeric::lemma_aligned_down(gap_end - byte_count, alignment as int);
    }
    let room: u64 = match gap_end.checked_sub(byte_count) {
        Some(room) => room,
        None => return None,
    };
    let last: u64 = match align_down(room, alignment) {
        Some(last) => last,
        None => return None,
    };
    if first > last {
        return None;
    }
    match ((last - first) / alignment).checked_add(1) {
        Some(slots) => {
            proof {
                assert((last - first) / (alignment as int) >= 0) by (nonlinear_arith)
                    requires
                        last >= first,
                        alignment > 0,
                ;
            }
            Some((first, slots))
        },
        None => None,
    }
}

/// Gap `i` of an arena: before mapping `i`, or behind the last one.
pub open spec fn gap_at(mappings: Seq<PrivateMapping>, floor: int, arena_end: int, i: int) -> (
    int,
    int,
) {
    let start = if i > 0 && 4096 * mappings[i - 1].range.past() > floor {
        4096 * mappings[i - 1].range.past()
    } else {
        floor
    };
    let end = if i < mappings.len() {
        4096 * mappings[i].range.first()
    } else {
        arena_end
    };
    (start, end)
}

/// Placements in the first `i` gaps.
pub open spec fn slots_before(
    mappings: Seq<PrivateMapping>,
    floor: int,
    arena_end: int,
    bytes: int,
    alignment: int,
    i: int,
) -> int
    decreases i,
{
    if i <= 0 {
        0
    } else {
        slots_before(mappings, floor, arena_end, bytes, alignment, i - 1) + gap_slots(
            gap_at(mappings, floor, arena_end, i - 1),
            bytes,
            alignment,
        )
    }
}

/// Placements in all gaps.
pub open spec fn all_slots(
    mappings: Seq<PrivateMapping>,
    floor: int,
    arena_end: int,
    bytes: int,
    alignment: int,
) -> int {
    slots_before(mappings, floor, arena_end, bytes, alignment, mappings.len() as int + 1)
}

/// Whether `at` is the placement number `selected`, counted over gap `i` and
/// the gaps before it.
pub open spec fn is_slot(
    mappings: Seq<PrivateMapping>,
    floor: int,
    arena_end: int,
    bytes: int,
    alignment: int,
    selected: int,
    i: int,
    at: int,
) -> bool {
    let before = slots_before(mappings, floor, arena_end, bytes, alignment, i);
    let gap = gap_at(mappings, floor, arena_end, i);
    &&& 0 <= i <= mappings.len()
    &&& before <= selected < before + gap_slots(gap, bytes, alignment)
    &&& at == aligned_up(gap.0, alignment) + (selected - before) * alignment
}

/// Whether `bytes` bytes at `at` are aligned, inside the arena above `floor`
/// and clear of every mapping.
pub open spec fn is_placement(
    mappings: Seq<PrivateMapping>,
    floor: int,
    arena_end: int,
    bytes: int,
    alignment: int,
    at: int,
) -> bool {
    &&& at % alignment == 0
    &&& floor <= at
    &&& at + bytes <= arena_end
    &&& forall|i: int|
        0 <= i < mappings.len() ==> 4096 * (#[trigger] mappings[i]).range.past() <= at || at + bytes
            <= 4096 * mappings[i].range.first()
}

pub(crate) proof fn lemma_slots_monotone(
    mappings: Seq<PrivateMapping>,
    floor: int,
    arena_end: int,
    bytes: int,
    alignment: int,
    i: int,
    j: int,
)
    requires
        alignment > 0,
        0 <= i <= j,
    ensures
        slots_before(mappings, floor, arena_end, bytes, alignment, i) <= slots_before(
            mappings,
            floor,
            arena_end,
            bytes,
            alignment,
            j,
        ),
    decreases j,
{
    if i < j {
        lemma_slots_monotone(mappings, floor, arena_end, bytes, alignment, i, j - 1);
        gap_slots_are_the_placements(
            gap_at(mappings, floor, arena_end, j - 1),
            bytes,
            alignment,
            0,
        );
    }
}

/// Every slot is a placement: aligned, in the arena and clear of all mappings.
pub proof fn every_slot_is_a_placement(
    mappings: Seq<PrivateMapping>,
    floor: int,
    arena_end: int,
    bytes: int,
    alignment: int,
    selected: int,
    i: int,
    at: int,
)
    requires
        ordered(mappings),
        forall|k: int|
            0 <= k < mappings.len() ==> 4096 * (#[trigger] mappings[k]).range.past() <= arena_end,
        bytes > 0,
        alignment > 0,
        is_slot(mappings, floor, arena_end, bytes, alignment, selected, i, at),
    ensures
        is_placement(mappings, floor, arena_end, bytes, alignment, at),
{
    let gap = gap_at(mappings, floor, arena_end, i);
    let before = slots_before(mappings, floor, arena_end, bytes, alignment, i);
    let k = selected - before;
    let n = gap_slots(gap, bytes, alignment);
    gap_slots_are_the_placements(gap, bytes, alignment, at);
    crate::numeric::lemma_aligned_offset(aligned_up(gap.0, alignment), k, alignment);
    assert(0 <= k * alignment <= (n - 1) * alignment) by (nonlinear_arith)
        requires
            0 <= k <= n - 1,
            alignment > 0,
    ;
    assert(fits_gap(at, gap, bytes, alignment));
    assert forall|j: int| 0 <= j < mappings.len() implies 4096 * (
    #[trigger] mappings[j]).range.past() <= at || at + bytes <= 4096
        * mappings[j].range.first() by {
        assert(mappings[j].well_formed());
        if j < i {
            assert(mappings[i - 1].well_formed());
            if j < i - 1 {
                assert(mappings[j].range.past() <= mappings[i - 1].range.first());
            }
        } else if i < j {
            assert(mappings[i].range.past() <= mappings[j].range.first());
            assert(mappings[i].well_formed());
        }
    }
    if i < mappings.len() {
        assert(mappings[i].well_formed());
    }
}

/// Every placement is one of the slots, so a uniform choice of a slot number
/// can reach each of them.
pub proof fn every_placement_is_a_slot(
    mappings: Seq<PrivateMapping>,
    floor: int,
    arena_end: int,
    bytes: int,
    alignment: int,
    at: int,
) -> (found: (int, int))
    requires
        ordered(mappings),
        bytes > 0,
        alignment > 0,
        is_placement(mappings, floor, arena_end, bytes, alignment, at),
    ensures
        is_slot(mappings, floor, arena_end, bytes, alignment, found.0, found.1, at),
        0 <= found.0 < all_slots(mappings, floor, arena_end, bytes, alignment),
{
    let i = gap_index(mappings, at, mappings.len() as int);
    lemma_gap_index(mappings, at, mappings.len() as int);
    let gap = gap_at(mappings, floor, arena_end, i);
    if i < mappings.len() {
        assert(mappings[i].well_formed());
        assert(at + bytes <= 4096 * mappings[i].range.first());
    }
    if i > 0 {
        assert(4096 * mappings[i - 1].range.past() <= at);
    }
    assert(fits_gap(at, gap, bytes, alignment));
    gap_slots_are_the_placements(gap, bytes, alignment, at);
    let first = aligned_up(gap.0, alignment);
    let n = gap_slots(gap, bytes, alignment);
    lemma_aligned_difference(at, first, alignment);
    vstd::arithmetic::div_mod::lemma_fundamental_div_mod(at - first, alignment);
    let k = (at - first) / alignment;
    assert(at == first + k * alignment) by (nonlinear_arith)
        requires
            at - first == alignment * k + 0,
    ;
    assert(0 <= k < n) by (nonlinear_arith)
        requires
            0 <= k * alignment <= (n - 1) * alignment,
            alignment > 0,
    ;
    let before = slots_before(mappings, floor, arena_end, bytes, alignment, i);
    lemma_slots_monotone(mappings, floor, arena_end, bytes, alignment, 0, i);
    lemma_slots_monotone(
        mappings,
        floor,
        arena_end,
        bytes,
        alignment,
        i + 1,
        mappings.len() as int + 1,
    );
    (before + k, i)
}

proof fn lemma_aligned_difference(a: int, b: int, alignment: int)
    requires
        alignment > 0,
        a % alignment == 0,
        b % alignment == 0,
    ensures
        (a - b) % alignment == 0,
{
    vstd::arithmetic::div_mod::lemma_sub_mod_noop(a, b, alignment);
    vstd::arithmetic::div_mod::lemma_small_mod(0, alignment as nat);
}

/// The number of mappings below `at` among the first `n`.
spec fn gap_index(mappings: Seq<PrivateMapping>, at: int, n: int) -> int
    decreases n,
{
    if n <= 0 {
        0
    } else if 4096 * mappings[n - 1].range.past() <= at {
        n
    } else {
        gap_index(mappings, at, n - 1)
    }
}

proof fn lemma_gap_index(mappings: Seq<PrivateMapping>, at: int, n: int)
    requires
        0 <= n <= mappings.len(),
    ensures
        0 <= gap_index(mappings, at, n) <= n,
        gap_index(mappings, at, n) > 0 ==> 4096 * mappings[gap_index(
            mappings,
            at,
            n,
        ) - 1].range.past() <= at,
        forall|j: int|
            gap_index(mappings, at, n) <= j < n ==> 4096 * (#[trigger] mappings[j]).range.past()
                > at,
    decreases n,
{
    if n > 0 && 4096 * mappings[n - 1].range.past() > at {
        lemma_gap_index(mappings, at, n - 1);
    }
}

/// Later slots lie at higher addresses: different slot numbers are different
/// placements.
pub proof fn slots_ascend(
    mappings: Seq<PrivateMapping>,
    floor: int,
    arena_end: int,
    bytes: int,
    alignment: int,
    low: (int, int, int),
    high: (int, int, int),
)
    requires
        ordered(mappings),
        bytes > 0,
        alignment > 0,
        is_slot(mappings, floor, arena_end, bytes, alignment, low.0, low.1, low.2),
        is_slot(mappings, floor, arena_end, bytes, alignment, high.0, high.1, high.2),
        low.0 < high.0,
    ensures
        low.2 < high.2,
{
    let (m, a) = (low.0, low.1);
    let (n, b) = (high.0, high.1);
    let gap_a = gap_at(mappings, floor, arena_end, a);
    let gap_b = gap_at(mappings, floor, arena_end, b);
    let before_a = slots_before(mappings, floor, arena_end, bytes, alignment, a);
    let before_b = slots_before(mappings, floor, arena_end, bytes, alignment, b);
    gap_slots_are_the_placements(gap_a, bytes, alignment, low.2);
    gap_slots_are_the_placements(gap_b, bytes, alignment, high.2);
    if a == b {
        assert((m - before_a) * alignment < (n - before_a) * alignment) by (nonlinear_arith)
            requires
                m < n,
                alignment > 0,
        ;
    } else if b < a {
        lemma_slots_monotone(mappings, floor, arena_end, bytes, alignment, b + 1, a);
        assert(false);
    } else {
        crate::numeric::lemma_aligned_offset(aligned_up(gap_a.0, alignment), m - before_a, alignment);
        crate::numeric::lemma_aligned_offset(aligned_up(gap_b.0, alignment), n - before_b, alignment);
        assert(0 <= (m - before_a) * alignment <= (gap_slots(gap_a, bytes, alignment) - 1)
            * alignment) by (nonlinear_arith)
            requires
                0 <= m - before_a <= gap_slots(gap_a, bytes, alignment) - 1,
                alignment > 0,
        ;
        assert(0 <= (n - before_b) * alignment <= (gap_slots(gap_b, bytes, alignment) - 1)
            * alignment) by (nonlinear_arith)
            requires
                0 <= n - before_b <= gap_slots(gap_b, bytes, alignment) - 1,
                alignment > 0,
        ;
        assert(fits_gap(low.2, gap_a, bytes, alignment));
        assert(fits_gap(high.2, gap_b, bytes, alignment));
        assert(mappings[a].well_formed());
        assert(mappings[b - 1].well_formed());
        if a < b - 1 {
            assert(mappings[a].range.past() <= mappings[b - 1].range.first());
        }
    }
}

/// What a mapping request asks of placement.
#[derive(Clone, Copy, Debug, PartialEq, Eq, Structural)]
pub struct PlacementRequest {
    /// Number of pages.
    pub page_count: u64,
    /// Alignment in pages, a power of two.
    pub alignment_pages: u64,
    /// Preferred start address, or zero.
    pub address_hint: u64,
}

/// Whether the arena has the hinted range free.
pub open spec fn hint_usable(
    mappings: Seq<PrivateMapping>,
    floor: int,
    arena_end: int,
    request: PlacementRequest,
) -> bool {
    &&& request.address_hint != 0
    &&& request.alignment_pages > 0
    &&& PageRange::valid(request.address_hint as int, request.page_count as int)
    &&& is_placement(
        mappings,
        floor,
        arena_end,
        4096 * request.page_count,
        4096 * request.alignment_pages,
        request.address_hint as int,
    )
}

/// Whether a range is inside the arena above `floor` and clear of every
/// mapping.
pub fn private_range_available(
    mappings: &Vec<PrivateMapping>,
    arena_end: u64,
    floor: u64,
    range: PageRange,
) -> (available: bool)
    requires
        ordered(mappings@),
    ensures
        available == (floor <= 4096 * range.first() && 4096 * range.past() <= arena_end && (forall|
            i: int,
        |
            0 <= i < mappings@.len() ==> range.apart((#[trigger] mappings@[i]).range))),
{
    if range.start() < floor || range.end() > arena_end {
        return false;
    }
    let mut i: usize = 0;
    while i < mappings.len()
        invariant
            i <= mappings@.len(),
            forall|k: int| 0 <= k < i ==> range.apart((#[trigger] mappings@[k]).range),
        decreases mappings@.len() - i,
    {
        let other = mappings[i].range;
        if other.end() > range.start() && range.end() > other.start() {
            assert(!range.apart(mappings@[i as int].range));
            return false;
        }
        i = i + 1;
    }
    true
}

/// How a range is to be chosen.
#[derive(Clone, Copy, Debug, PartialEq, Eq, Structural)]
pub enum PlacementChoice {
    /// The hinted range is free.
    Hinted(PageRange),
    /// One of this many slots is to be drawn uniformly.
    Draw(u64),
    /// The request cannot be represented.
    Overflow,
    /// No gap is large enough.
    Exhausted,
}

/// Decide between the hint and a draw over all placements.
pub fn plan_private_range(
    mappings: &Vec<PrivateMapping>,
    arena_end: u64,
    floor: u64,
    request: PlacementRequest,
) -> (choice: PlacementChoice)
    requires
        ordered(mappings@),
        request.page_count > 0,
    ensures
        ({
            let bytes = 4096 * request.page_count;
            let alignment = 4096 * request.alignment_pages;
            let usable = hint_usable(mappings@, floor as int, arena_end as int, request);
            let slots = all_slots(mappings@, floor as int, arena_end as int, bytes, alignment);
            if bytes > u64::MAX || alignment > u64::MAX {
                choice == PlacementChoice::Overflow
            } else if usable {
                choice matches PlacementChoice::Hinted(range) && range.well_formed() && 4096
                    * range.first() == request.address_hint && range.pages() == request.page_count
            } else if !is_pow2(alignment) || slots == 0 {
                choice == PlacementChoice::Exhausted
            } else if slots > u64::MAX {
                choice == PlacementChoice::Overflow
            } else {
                choice == PlacementChoice::Draw(slots as u64) && 0 < slots
            }
        }),
{
    let byte_count: u64 = match request.page_count.checked_mul(PAGE_SIZE) {
        Some(bytes) => bytes,
        None => return PlacementChoice::Overflow,
    };
    let alignment: u64 = match request.alignment_pages.checked_mul(PAGE_SIZE) {
        Some(bytes) => bytes,
        None => return PlacementChoice::Overflow,
    };
    if request.address_hint != 0 && alignment != 0 && request.address_hint % alignment == 0 {
        match PageRange::from_pages(request.address_hint, request.page_count) {
            Some(range) => {
                let free = private_range_available(mappings, arena_end, floor, range);
                proof {
                    if free {
                        assert forall|i: int| 0 <= i < mappings@.len() implies 4096 * (
                        #[trigger] mappings@[i]).range.past() <= request.address_hint
                            || request.address_hint + byte_count <= 4096
                            * mappings@[i].range.first() by {
                            assert(range.apart(mappings@[i].range));
                        }
                    } else if hint_usable(mappings@, floor as int, arena_end as int, request) {
                        assert forall|i: int| 0 <= i < mappings@.len() implies range.apart(
                            (#[trigger] mappings@[i]).range,
                        ) by {}
                    }
                }
                if free {
                    return PlacementChoice::Hinted(range);
                }
            },
            None => {},
        }
    }
    proof {
        reveal(is_pow2);
    }
    if !crate::numeric::is_power_of_two(alignment) {
        return PlacementChoice::Exhausted;
    }
    let mut total: u64 = 0;
    let mut i: usize = 0;
    let mut gap_start: u64 = floor;
    let ghost bytes = byte_count as int;
    loop
        invariant_except_break
            total == slots_before(
                mappings@,
                floor as int,
                arena_end as int,
                bytes,
                alignment as int,
                i as int,
            ),
            gap_start == gap_at(mappings@, floor as int, arena_end as int, i as int).0,
        invariant
            ordered(mappings@),
            i <= mappings@.len(),
            alignment >= 4096,
            alignment == 4096 * request.alignment_pages,
            byte_count == 4096 * request.page_count,
            !hint_usable(mappings@, floor as int, arena_end as int, request),
            is_pow2(alignment as int),
            bytes == byte_count,
        ensures
            total == all_slots(mappings@, floor as int, arena_end as int, bytes, alignment as int),
        decreases mappings@.len() - i,
    {
        let gap_end: u64 = if i < mappings.len() {
            mappings[i].range.start()
        } else {
            arena_end
        };
        let slots = private_gap_slots(gap_start, gap_end, byte_count, alignment);
        proof {
            lemma_slots_monotone(
                mappings@,
                floor as int,
                arena_end as int,
                bytes,
                alignment as int,
                i + 1,
                mappings@.len() as int + 1,
            );
            if i < mappings@.len() {
                lemma_gap_starts(mappings@, floor as int, arena_end as int, i as int);
            }
            lemma_gap_count_bound(
                gap_at(mappings@, floor as int, arena_end as int, i as int),
                bytes,
                alignment as int,
            );
        }
        match slots {
            Some(found) => {
                total = match total.checked_add(found.1) {
                    Some(sum) => sum,
                    None => return PlacementChoice::Overflow,
                };
            },
            None => {},
        }
        if i == mappings.len() {
            break;
        }
        let end: u64 = mappings[i].range.end();
        if end > gap_start {
            gap_start = end;
        }
        i = i + 1;
    }
    if total == 0 {
        return PlacementChoice::Exhausted;
    }
    PlacementChoice::Draw(total)
}

proof fn lemma_gap_starts(mappings: Seq<PrivateMapping>, floor: int, arena_end: int, i: int)
    requires
        ordered(mappings),
        0 <= i < mappings.len(),
    ensures
        ({
            let start = gap_at(mappings, floor, arena_end, i).0;
            let end = 4096 * mappings[i].range.past();
            gap_at(mappings, floor, arena_end, i + 1).0 == if end > start {
                end
            } else {
                start
            }
        }),
{
    assert(mappings[i].well_formed());
    if i > 0 {
        assert(mappings[i - 1].range.past() <= mappings[i].range.first());
    }
}

/// A gap inside the 64-bit address space has fewer than `2^64` slots when the
/// alignment is at least a page.
proof fn lemma_gap_count_bound(gap: (int, int), bytes: int, alignment: int)
    requires
        alignment >= 4096,
        0 <= gap.0,
        gap.1 <= u64::MAX,
        bytes >= 0,
    ensures
        gap_slots(gap, bytes, alignment) <= u64::MAX,
{
    let first = aligned_up(gap.0, alignment);
    let last = aligned_down(gap.1 - bytes, alignment);
    crate::numeric::lemma_aligned_up(gap.0, alignment);
    crate::numeric::lemma_aligned_down(gap.1 - bytes, alignment);
    if first <= last {
        assert((last - first) / alignment <= last - first) by (nonlinear_arith)
            requires
                last - first >= 0,
                alignment >= 4096,
        ;
        assert((last - first) / alignment * 4096 <= last - first) by (nonlinear_arith)
            requires
                last - first >= 0,
                alignment >= 4096,
        ;
    }
}

/// The range in slot number `selected`.
pub fn pick_private_range(
    mappings: &Vec<PrivateMapping>,
    arena_end: u64,
    floor: u64,
    request: PlacementRequest,
    selected: u64,
) -> (range: PageRange)
    requires
        ordered(mappings@),
        request.page_count > 0,
        4096 * request.page_count <= u64::MAX,
        4096 * request.alignment_pages <= u64::MAX,
        is_pow2(4096 * request.alignment_pages),
        selected < all_slots(
            mappings@,
            floor as int,
            arena_end as int,
            4096 * request.page_count,
            4096 * request.alignment_pages,
        ),
    ensures
        range.well_formed(),
        range.pages() == request.page_count,
        exists|i: int|
            #[trigger] is_slot(
                mappings@,
                floor as int,
                arena_end as int,
                4096 * request.page_count,
                4096 * request.alignment_pages,
                selected as int,
                i,
                4096 * range.first(),
            ),
{
    let byte_count: u64 = request.page_count * PAGE_SIZE;
    let alignment: u64 = request.alignment_pages * PAGE_SIZE;
    proof {
        reveal(is_pow2);
    }
    let mut rest: u64 = selected;
    let mut i: usize = 0;
    let mut gap_start: u64 = floor;
    let ghost bytes = byte_count as int;
    loop
        invariant
            ordered(mappings@),
            i <= mappings@.len(),
            alignment >= 4096,
            alignment == 4096 * request.alignment_pages,
            byte_count == 4096 * request.page_count,
            request.page_count > 0,
            is_pow2(alignment as int),
            bytes == byte_count,
            selected < all_slots(
                mappings@,
                floor as int,
                arena_end as int,
                bytes,
                alignment as int,
            ),
            rest == selected - slots_before(
                mappings@,
                floor as int,
                arena_end as int,
                bytes,
                alignment as int,
                i as int,
            ),
            gap_start == gap_at(mappings@, floor as int, arena_end as int, i as int).0,
        decreases mappings@.len() - i,
    {
        let gap_end: u64 = if i < mappings.len() {
            mappings[i].range.start()
        } else {
            arena_end
        };
        let ghost gap = gap_at(mappings@, floor as int, arena_end as int, i as int);
        let slots = private_gap_slots(gap_start, gap_end, byte_count, alignment);
        proof {
            lemma_gap_count_bound(gap, bytes, alignment as int);
            if i < mappings@.len() {
                lemma_gap_starts(mappings@, floor as int, arena_end as int, i as int);
            }
        }
        match slots {
            Some(found) => {
                if rest < found.1 {
                    let ghost at = found.0 + rest * alignment;
                    proof {
                        assert(0 <= rest * alignment <= (found.1 - 1) * alignment)
                            by (nonlinear_arith)
                            requires
                                0 <= rest <= found.1 - 1,
                                alignment > 0,
                        ;
                        gap_slots_are_the_placements(gap, bytes, alignment as int, at);
                        crate::numeric::lemma_aligned_offset(
                            found.0 as int,
                            rest as int,
                            alignment as int,
                        );
                        assert(fits_gap(at, gap, bytes, alignment as int));
                        lemma_aligned_to_page(at, request.alignment_pages as int);
                    }
                    let start: u64 = found.0 + rest * alignment;
                    let first: u64 = start / PAGE_SIZE;
                    let range = PageRange::of_numbers(first, request.page_count);
                    proof {
                        assert(is_slot(
                            mappings@,
                            floor as int,
                            arena_end as int,
                            bytes,
                            alignment as int,
                            selected as int,
                            i as int,
                            4096 * range.first(),
                        ));
                    }
                    return range;
                }
                rest = rest - found.1;
            },
            None => {},
        }
        if i == mappings.len() {
            proof {
                assert(false);
            }
        } else {
            let end: u64 = mappings[i].range.end();
            if end > gap_start {
                gap_start = end;
            }
            i = i + 1;
        }
    }
}

proof fn lemma_aligned_to_page(at: int, alignment_pages: int)
    requires
        alignment_pages > 0,
        at % (4096 * alignment_pages) == 0,
    ensures
        at % 4096 == 0,
{
    vstd::arithmetic::div_mod::lemma_fundamental_div_mod(at, 4096 * alignment_pages);
    let q = at / (4096 * alignment_pages);
    assert(at == 4096 * (alignment_pages * q)) by (nonlinear_arith)
        requires
            at == (4096 * alignment_pages) * q,
    ;
}

/// A hint is taken exactly where it is an aligned page above the heap, its range
/// ends inside the arena, and no mapping has a page of it.
pub proof fn hints_are_taken_where_they_fit(
    mappings: Seq<PrivateMapping>,
    floor: int,
    arena_end: int,
    request: PlacementRequest,
)
    requires
        arena_end <= u64::MAX,
    ensures
        hint_usable(mappings, floor, arena_end, request) <==> {
            let end = request.address_hint + 4096 * request.page_count;
            &&& request.address_hint > 0
            &&& request.page_count > 0
            &&& request.alignment_pages > 0
            &&& request.address_hint % 4096 == 0
            &&& request.address_hint as int % (4096 * request.alignment_pages) == 0
            &&& floor <= request.address_hint
            &&& end <= arena_end
            &&& forall|i: int|
                0 <= i < mappings.len() ==> 4096 * (#[trigger] mappings[i]).range.past()
                    <= request.address_hint || end <= 4096 * mappings[i].range.first()
        },
{
}

} // verus!
