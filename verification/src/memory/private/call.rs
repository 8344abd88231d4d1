//! Private-memory calls as a sequence of decisions.
//!
//! A call starts with [`begin_private_call`]. Whenever something outside has
//! to happen (drawing a slot, allocating frames, changing page tables,
//! releasing frames) the call stops in a [`PrivateNext`] that says what is
//! needed and goes on with the outcome. Starting a call changes nothing.

use crate::memory::extents::{all_well_formed, frames, lemma_frames_len, total_pages};
use crate::memory::pages::PageRange;
use crate::memory::private::commit::{
    back_middle, change_verdict, commit_map, find_mapping, is_backing, is_change, is_free,
    list_booked, map_verdict, private_replacement_metadata, replace_mapping, settle,
    system_follows, unbooked,
};
use crate::memory::private::course::same_memory;
use crate::memory::private::edit::{
    coalesced, cut, given_up, joined, replaced, replacement_is_local,
    split_changes_only_the_request, split_private_mapping,
};
use crate::memory::private::gaps::{
    all_slots, every_slot_is_a_placement, is_placement, is_slot, lemma_slots_monotone,
    pick_private_range, plan_private_range, PlacementChoice, PlacementRequest,
};
use crate::memory::private::mapping::{
    committed_total, covered_by, lemma_lookup, lemma_reserved_bound, lookup, model_metadata,
    models, private_permissions, reserved_total, MappingModel, PageEntry, Permissions,
    PrivateMapping, Protection,
};
use crate::memory::private::space::{
    bookable, metadata_total, private_heap_end, private_policy_allows, shares_are_counted,
    ApplicationMemory, PrivateFailure, PrivateMemory, PrivateStatistics, SystemMemory,
};
use crate::reply::ReplyStatus;
use vstd::arithmetic::power2::is_pow2;
use vstd::prelude::*;

verus! {

/// A request for new private pages.
#[derive(Clone, Copy, Debug, PartialEq, Eq, Structural)]
pub struct MapRequest {
    /// Where the pages are to lie.
    pub placement: PlacementRequest,
    /// Access to the pages.
    pub protection: Protection,
}

/// A decoded private-memory call.
#[derive(Clone, Copy, Debug, PartialEq, Eq, Structural)]
pub enum PrivateRequest {
    /// Report the counters; a payload is not expected.
    Query {
        /// Bytes of payload that came with the call.
        payload_bytes: u64,
    },
    /// Reserve address space.
    Reserve(MapRequest),
    /// Reserve address space and back it with zeroed frames.
    MapZeroed(MapRequest),
    /// Change the access to mapped pages.
    Protect {
        /// First byte address.
        address: u64,
        /// Number of pages.
        page_count: u64,
        /// New access.
        protection: Protection,
    },
    /// Give mapped pages up.
    Unmap {
        /// First byte address.
        address: u64,
        /// Number of pages.
        page_count: u64,
    },
    /// The operation is unknown or its payload does not decode.
    Malformed,
}

/// What a successful call carries back.
#[derive(Clone, Copy, Debug, PartialEq, Eq, Structural)]
pub enum PrivatePayload {
    /// Nothing.
    Empty,
    /// The address of the new pages.
    Address(u64),
    /// The counters.
    Statistics(PrivateStatistics),
}

/// Answer to a successful call.
#[derive(Clone, Copy, Debug, PartialEq, Eq, Structural)]
pub struct PrivateReply {
    /// Payload of the answer.
    pub payload: PrivatePayload,
    /// Whether frames were committed or released.
    pub resources_changed: bool,
}

/// A change of access to pages of mapping `index`.
#[derive(Clone, Copy, Debug, PartialEq, Eq, Structural)]
pub struct ProtectChange {
    /// Position of the mapping.
    pub index: usize,
    /// Pages that change.
    pub range: PageRange,
    /// New access.
    pub protection: Protection,
    /// Whether the pages need frames first.
    pub needs_backing: bool,
    /// Whether page tables show the pages so far.
    pub installed: bool,
}

/// What the frames of a call are for.
#[derive(Clone, Copy, Debug, PartialEq, Eq, Structural)]
pub enum Job {
    /// New pages.
    Fresh {
        /// Where they lie.
        range: PageRange,
        /// Access to them.
        protection: Protection,
    },
    /// Access to reserved pages.
    Protect(ProtectChange),
}

/// A call that waits for a uniformly drawn slot number.
#[derive(Clone, Copy, Debug, PartialEq, Eq, Structural)]
pub struct DrawSlot {
    /// The request.
    pub request: MapRequest,
    /// Whether the pages are backed.
    pub zeroed: bool,
    /// First address that may be used.
    pub floor: u64,
    /// Number of slots to draw from.
    pub slots: u64,
}

/// What room for mapping records is for.
#[derive(Debug)]
pub enum RoomFor {
    /// A new mapping.
    Fresh {
        /// Where it lies.
        range: PageRange,
        /// Access to it.
        protection: Protection,
        /// Whether the pages are backed.
        zeroed: bool,
    },
    /// The pieces of a mapping whose access changes.
    Protect {
        /// The change.
        change: ProtectChange,
        /// What takes the place of the mapping.
        pieces: Vec<PrivateMapping>,
        /// Position of the changed pages among the pieces.
        middle: usize,
        /// Committed pages afterwards.
        committed: u64,
    },
    /// The pieces of a mapping that gives pages up.
    Unmap {
        /// Position of the mapping.
        index: usize,
        /// Pages that are given up.
        range: PageRange,
        /// What takes the place of the mapping.
        pieces: Vec<PrivateMapping>,
        /// Frames to release.
        removed: Vec<PageRange>,
        /// Reserved pages afterwards.
        reserved: u64,
        /// Committed pages afterwards.
        committed: u64,
    },
}

/// A call that waits for room for mapping records.
#[derive(Debug)]
pub struct NeedRoom {
    /// Further records.
    pub additional: usize,
    /// What they are for.
    pub work: RoomFor,
}

/// A call that waits for frames.
#[derive(Clone, Copy, Debug, PartialEq, Eq, Structural)]
pub struct NeedBacking {
    /// What the frames are for.
    pub job: Job,
    /// Number of zeroed frames.
    pub pages: u64,
}

/// Work that has its frames.
#[derive(Debug)]
pub enum Prepared {
    /// New pages with their frames.
    Fresh {
        /// Where they lie.
        range: PageRange,
        /// Access to them.
        protection: Protection,
        /// Their frames.
        backing: Vec<PageRange>,
    },
    /// A mapping cut around pages that change.
    Protect {
        /// The change.
        change: ProtectChange,
        /// What takes the place of the mapping.
        pieces: Vec<PrivateMapping>,
        /// Position of the changed pages among the pieces.
        middle: usize,
        /// Committed pages afterwards.
        committed: u64,
    },
}

/// A call that waits for page-table frames.
#[derive(Debug)]
pub struct NeedTables {
    /// Pages that the tables have to reach.
    pub range: PageRange,
    /// The work that goes on.
    pub prepared: Prepared,
}

/// What follows a change of the page tables.
#[derive(Debug)]
pub enum AfterAccess {
    /// The new pages are booked; only their address is reported.
    Fresh {
        /// First byte address.
        address: u64,
    },
    /// The pieces still have to be installed.
    Protect {
        /// The change.
        change: ProtectChange,
        /// What takes the place of the mapping.
        pieces: Vec<PrivateMapping>,
        /// Position of the changed pages among the pieces.
        middle: usize,
        /// Committed pages afterwards.
        committed: u64,
        /// Table frames before this call.
        retained_tables: usize,
    },
    /// The pieces still have to be installed and frames released.
    Unmap {
        /// Position of the mapping.
        index: usize,
        /// What takes its place.
        pieces: Vec<PrivateMapping>,
        /// Frames to release.
        removed: Vec<PageRange>,
        /// Reserved pages afterwards.
        reserved: u64,
        /// Committed pages afterwards.
        committed: u64,
    },
}

/// A call that waits for a change of the page tables.
#[derive(Debug)]
pub struct NeedAccess {
    /// First page.
    pub range: PageRange,
    /// Frames behind the pages.
    pub extents: Vec<PageRange>,
    /// Whether the page tables show the pages so far.
    pub installed: bool,
    /// Rights afterwards; none removes the pages.
    pub permissions: Option<Permissions>,
    /// What follows.
    pub after: AfterAccess,
}

/// Why a payload cannot be put into a reply.
#[derive(Clone, Copy, Debug, PartialEq, Eq, Structural)]
pub enum ReplyTrouble {
    /// It cannot be encoded.
    NotEncoded,
    /// There is no memory for its bytes.
    NotOwned,
}

/// What a payload leads to once its bytes were made, or could not be.
pub open spec fn reported(payload: PrivatePayload, trouble: Option<ReplyTrouble>) -> Result<
    PrivatePayload,
    PrivateFailure,
> {
    match trouble {
        None => Ok(payload),
        Some(ReplyTrouble::NotEncoded) => Err(PrivateFailure::Terminal),
        Some(ReplyTrouble::NotOwned) => Err(PrivateFailure::Reply(ReplyStatus::Exhausted)),
    }
}

/// The address of new pages in a reply. It is made before there is room for
/// their record; where it cannot be, the call ends with nothing changed.
pub fn private_address_reply(address: u64, trouble: Option<ReplyTrouble>) -> (payload: Result<
    PrivatePayload,
    PrivateFailure,
>)
    ensures
        payload == reported(PrivatePayload::Address(address), trouble),
{
    match trouble {
        None => Ok(PrivatePayload::Address(address)),
        Some(ReplyTrouble::NotEncoded) => Err(PrivateFailure::Terminal),
        Some(ReplyTrouble::NotOwned) => Err(PrivateFailure::Reply(ReplyStatus::Exhausted)),
    }
}

/// The counters in the reply to a query.
pub fn private_statistics_reply(
    statistics: PrivateStatistics,
    trouble: Option<ReplyTrouble>,
) -> (payload: Result<PrivatePayload, PrivateFailure>)
    ensures
        payload == reported(PrivatePayload::Statistics(statistics), trouble),
{
    match trouble {
        None => Ok(PrivatePayload::Statistics(statistics)),
        Some(ReplyTrouble::NotEncoded) => Err(PrivateFailure::Terminal),
        Some(ReplyTrouble::NotOwned) => Err(PrivateFailure::Reply(ReplyStatus::Exhausted)),
    }
}

/// How a call ends once frames are released.
#[derive(Clone, Copy, Debug, PartialEq, Eq, Structural)]
pub enum Ending {
    /// The mappings are joined and these totals booked.
    Settle {
        /// Reserved pages.
        reserved: u64,
        /// Committed pages.
        committed: u64,
    },
    /// Page-table frames go back too, one by one, then the call fails.
    Unwind {
        /// Table frames that stay.
        retained_tables: usize,
        /// Failure.
        failure: PrivateFailure,
    },
    /// Failure.
    Fail(PrivateFailure),
}

/// A call that waits for frames to be zeroed and released.
#[derive(Debug)]
pub struct NeedRelease {
    /// Extents to release.
    pub extents: Vec<PageRange>,
    /// How the call ends.
    pub ending: Ending,
}

/// A failing call that waits for a page-table frame to go back.
#[derive(Debug)]
pub struct NeedFree {
    /// The frame, which the application no longer holds.
    pub frame: u64,
    /// Table frames that stay.
    pub retained_tables: usize,
    /// Extents to release once no more table frames go back.
    pub extents: Vec<PageRange>,
    /// Failure.
    pub failure: PrivateFailure,
}

/// Where a call stands.
#[derive(Debug)]
pub enum PrivateNext {
    /// The call succeeded.
    Done(PrivateReply),
    /// The call failed.
    Failed(PrivateFailure),
    /// A slot has to be drawn.
    Draw(DrawSlot),
    /// Room for mapping records is needed.
    Room(NeedRoom),
    /// Frames are needed.
    Back(NeedBacking),
    /// Page-table frames are needed.
    Tables(NeedTables),
    /// Page tables have to change.
    Access(NeedAccess),
    /// Frames have to be released.
    Release(NeedRelease),
    /// A page-table frame has to go back.
    Free(NeedFree),
}

/// The change is up to date with the mappings.
pub open spec fn change_valid(memory: ApplicationMemory, change: ProtectChange) -> bool {
    let mappings = memory.private_memory.mappings@;
    &&& change.range.well_formed()
    &&& change.index < mappings.len()
    &&& mappings[change.index as int].range.includes(change.range)
    &&& mappings[change.index as int].protection != change.protection
    &&& change.needs_backing == (!mappings[change.index as int].backed() && change.protection
        != Protection::NoAccess)
    &&& change.installed == (mappings[change.index as int].backed()
        && mappings[change.index as int].protection != Protection::NoAccess)
}

/// The job is up to date with the mappings.
pub open spec fn job_valid(memory: ApplicationMemory, job: Job) -> bool {
    match job {
        Job::Fresh { range, protection } => is_free(memory.private_memory, range),
        Job::Protect(change) => change_valid(memory, change) && change.needs_backing,
    }
}

/// Committed pages once a change is installed.
pub open spec fn committed_after(private: PrivateMemory, change: ProtectChange) -> int {
    if change.needs_backing {
        private.committed_pages + change.range.pages()
    } else {
        private.committed_pages as int
    }
}

/// Fresh extents behind the changed pages, where the change needs them.
pub open spec fn fresh_extents(
    change: ProtectChange,
    pieces: Seq<PrivateMapping>,
    middle: usize,
) -> Seq<PageRange> {
    if change.needs_backing {
        pieces[middle as int].backing@
    } else {
        Seq::empty()
    }
}

/// The pieces of a change: the mapping cut around its range, with totals that
/// can be represented.
pub open spec fn pieces_valid(
    memory: ApplicationMemory,
    change: ProtectChange,
    pieces: Seq<PrivateMapping>,
    middle: usize,
    committed: u64,
) -> bool {
    let private = memory.private_memory;
    let list = replaced(private.mappings@, change.index as int, pieces);
    let fresh = fresh_extents(change, pieces, middle);
    &&& change_valid(memory, change)
    &&& middle < pieces.len()
    &&& pieces[middle as int].range == change.range
    &&& models(pieces) == cut(
        private.mappings@[change.index as int]@,
        change.range,
        Some(change.protection),
        fresh,
    )
    &&& all_well_formed(pieces[middle as int].backing@)
    &&& is_change(
        pieces,
        private.mappings@[change.index as int],
        change.range,
        Some(change.protection),
        fresh,
    )
    &&& change.needs_backing ==> pieces[middle as int].backing@.len() > 0
    &&& (pieces[middle as int].backing@.len() > 0) == (
    private.mappings@[change.index as int].backed() || change.needs_backing)
    &&& reserved_total(list) == private.reserved_pages
    &&& committed_total(list) == committed
    &&& committed == committed_after(private, change)
    &&& metadata_total(list) <= u64::MAX
}

/// The prepared work is up to date with the mappings.
pub open spec fn prepared_valid(memory: ApplicationMemory, prepared: Prepared) -> bool {
    match prepared {
        Prepared::Fresh { range, protection, backing } => {
            &&& is_free(memory.private_memory, range)
            &&& is_backing(backing@, range)
            &&& backing@.len() > 0
            &&& protection != Protection::NoAccess
        },
        Prepared::Protect { change, pieces, middle, committed } => {
            &&& pieces_valid(memory, change, pieces@, middle, committed)
            &&& change.protection != Protection::NoAccess
        },
    }
}

/// A slot number is to be drawn for this request in these mappings.
pub open spec fn draw_valid(memory: ApplicationMemory, draw: DrawSlot) -> bool {
    let placement = draw.request.placement;
    &&& placement.page_count > 0
    &&& 4096 * placement.page_count <= u64::MAX
    &&& 4096 * placement.alignment_pages <= u64::MAX
    &&& is_pow2(4096 * placement.alignment_pages)
    &&& draw.slots == all_slots(
        memory.private_memory.mappings@,
        draw.floor as int,
        memory.private_memory.arena_end as int,
        4096 * placement.page_count,
        4096 * placement.alignment_pages,
    )
    &&& draw.slots > 0
}

/// Pages that a job is about.
pub open spec fn job_pages(job: Job) -> int {
    match job {
        Job::Fresh { range, protection } => range.pages(),
        Job::Protect(change) => change.range.pages(),
    }
}

impl PrivateNext {
    /// What a call stops for is up to date with the mappings, so that it can go
    /// on. Where it failed, the memory can be given back.
    pub open spec fn valid(self, memory: ApplicationMemory) -> bool {
        match self {
            PrivateNext::Done(_) => memory.well_formed(),
            PrivateNext::Failed(_) => memory.parts_well_formed(),
            PrivateNext::Draw(draw) => memory.well_formed() && draw_valid(memory, draw),
            PrivateNext::Room(need) => memory.well_formed() && need.valid(memory),
            PrivateNext::Back(need) => {
                &&& memory.well_formed()
                &&& job_valid(memory, need.job)
                &&& need.pages == job_pages(need.job)
            },
            PrivateNext::Tables(need) => memory.well_formed() && prepared_valid(
                memory,
                need.prepared,
            ),
            PrivateNext::Access(need) => memory.well_formed() && need.valid(memory),
            PrivateNext::Release(need) => memory.parts_well_formed() && need.valid(memory),
            PrivateNext::Free(need) => memory.parts_well_formed() && need.valid(memory),
        }
    }
}

/// Copy a list of extents.
fn copy_extents(extents: &Vec<PageRange>) -> (copy: Vec<PageRange>)
    ensures
        copy@ == extents@,
{
    let mut copy: Vec<PageRange> = Vec::new();
    let mut i: usize = 0;
    while i < extents.len()
        invariant
            i <= extents@.len(),
            copy@ == extents@.take(i as int),
        decreases extents@.len() - i,
    {
        copy.push(extents[i]);
        i = i + 1;
        assert(extents@.take(i as int) =~= extents@.take(i - 1).push(extents@[i - 1]));
    }
    assert(extents@.take(i as int) =~= extents@);
    copy
}

/// Frames that may be taken without touching the reserve.
pub open spec fn available_frames(system: SystemMemory, free_frames: u64) -> int {
    if free_frames >= system.minimum_free_pages {
        free_frames - system.minimum_free_pages
    } else {
        0
    }
}

fn usable_frames(system: &SystemMemory, free_frames: u64) -> (frames: u64)
    ensures
        frames == available_frames(*system, free_frames),
{
    if free_frames >= system.minimum_free_pages {
        free_frames - system.minimum_free_pages
    } else {
        0
    }
}

/// Pages of `range` get one state, the others keep theirs.
pub open spec fn pages_become(
    before: PrivateMemory,
    after: PrivateMemory,
    range: PageRange,
    protection: Protection,
    backing: Seq<PageRange>,
) -> bool {
    forall|page: int|
        #![trigger after.page(page)]
        after.page(page) == if range.covers(page) {
            Some(
                PageEntry {
                    protection,
                    frame: if backing.len() > 0 {
                        Some(frames(backing)[page - range.first()])
                    } else {
                        match before.page(page) {
                            Some(entry) => entry.frame,
                            None => None,
                        }
                    },
                },
            )
        } else {
            before.page(page)
        }
}

/// The outcome of reserving `range` without frames.
pub open spec fn reserved_outcome(
    before: (SystemMemory, ApplicationMemory),
    after: (SystemMemory, ApplicationMemory),
    range: PageRange,
    protection: Protection,
    next: PrivateNext,
) -> bool {
    match map_verdict(before.0, before.1, range, Seq::empty()) {
        Ok(()) => {
            &&& next == PrivateNext::Done(
                PrivateReply {
                    payload: PrivatePayload::Address((4096 * range.first()) as u64),
                    resources_changed: false,
                },
            )
            &&& after.1.well_formed()
            &&& after.1.same_outside(before.1)
            &&& pages_become(
                before.1.private_memory,
                after.1.private_memory,
                range,
                protection,
                Seq::empty(),
            )
            &&& after.1.private_memory.reserved_pages == before.1.private_memory.reserved_pages
                + range.pages()
            &&& after.1.private_memory.committed_pages == before.1.private_memory.committed_pages
            &&& after.1.private_memory.mappings@.len() == before.1.private_memory.mappings@.len()
                + 1
            &&& after.1.private_memory.metadata_bytes == before.1.private_memory.metadata_bytes
                + 48
            &&& after.1.private_memory.marks_follow(before.1.private_memory)
            &&& system_follows(
                before.0,
                after.0,
                before.1.private_memory,
                after.1.private_memory,
            )
        },
        Err(failure) => next == PrivateNext::Failed(failure) && after == before,
    }
}

/// The outcome of a chosen range: a reservation is booked at once, backed
/// pages first need frames, if enough may be taken.
pub open spec fn placed_outcome(
    before: (SystemMemory, ApplicationMemory),
    after: (SystemMemory, ApplicationMemory),
    free_frames: u64,
    range: PageRange,
    protection: Protection,
    zeroed: bool,
    next: PrivateNext,
) -> bool {
    if !zeroed {
        reserved_outcome(before, after, range, protection, next)
    } else if range.pages() > available_frames(before.0, free_frames) {
        next == PrivateNext::Failed(PrivateFailure::Reply(ReplyStatus::Exhausted)) && after
            == before
    } else {
        next == PrivateNext::Back(
            NeedBacking { job: Job::Fresh { range, protection }, pages: range.pages() as u64 },
        ) && after == before
    }
}

fn place(
    system: &mut SystemMemory,
    memory: &mut ApplicationMemory,
    free_frames: u64,
    range: PageRange,
    protection: Protection,
    zeroed: bool,
) -> (next: PrivateNext)
    requires
        old(memory).well_formed(),
        is_free(old(memory).private_memory, range),
    ensures
        placed_outcome(
            (*old(system), *old(memory)),
            (*final(system), *final(memory)),
            free_frames,
            range,
            protection,
            zeroed,
            next,
        ),
        next.valid(*final(memory)),
{
    if zeroed {
        if range.page_count() > usable_frames(system, free_frames) {
            return PrivateNext::Failed(PrivateFailure::Reply(ReplyStatus::Exhausted));
        }
        return PrivateNext::Back(
            NeedBacking { job: Job::Fresh { range, protection }, pages: range.page_count() },
        );
    }
    let nothing: Vec<PageRange> = Vec::new();
    assert(nothing@ =~= Seq::<PageRange>::empty());
    proof {
        lemma_free_pages(memory.private_memory, range);
    }
    match commit_map(system, memory, range, protection, nothing) {
        Ok(()) => PrivateNext::Done(
            PrivateReply {
                payload: PrivatePayload::Address(range.start()),
                resources_changed: false,
            },
        ),
        Err((failure, _)) => PrivateNext::Failed(failure),
    }
}

pub(crate) proof fn lemma_free_pages(private: PrivateMemory, range: PageRange)
    requires
        is_free(private, range),
    ensures
        forall|page: int| range.covers(page) ==> #[trigger] private.page(page) is None,
{
    assert forall|page: int| range.covers(page) implies #[trigger] private.page(page) is None by {
        assert forall|i: int| !covered_by(private.mappings@, i, page) by {
            if covered_by(private.mappings@, i, page) {
                assert(range.apart(private.mappings@[i].range));
            }
        }
    }
}

/// The call stops for room for one more mapping record.
pub open spec fn wants_record(
    next: PrivateNext,
    range: PageRange,
    protection: Protection,
    zeroed: bool,
) -> bool {
    next == PrivateNext::Room(
        NeedRoom { additional: 1, work: RoomFor::Fresh { range, protection, zeroed } },
    )
}

/// What follows a drawn slot: its place stops for a mapping record.
pub open spec fn drawn_outcome(
    memory: ApplicationMemory,
    draw: DrawSlot,
    drawn: Option<u64>,
    next: PrivateNext,
) -> bool {
    match drawn {
        None => next == PrivateNext::Failed(PrivateFailure::Terminal),
        Some(selected) => exists|range: PageRange, i: int|
            {
                &&& range.pages() == draw.request.placement.page_count
                &&& #[trigger] is_slot(
                    memory.private_memory.mappings@,
                    draw.floor as int,
                    memory.private_memory.arena_end as int,
                    4096 * draw.request.placement.page_count,
                    4096 * draw.request.placement.alignment_pages,
                    selected as int,
                    i,
                    4096 * range.first(),
                )
                &&& is_free(memory.private_memory, range)
                &&& wants_record(next, range, draw.request.protection, draw.zeroed)
            },
    }
}

impl DrawSlot {
    /// Go on with the slot that was drawn; without one the call fails.
    pub fn drawn(self, memory: &ApplicationMemory, drawn: Option<u64>) -> (next: PrivateNext)
        requires
            memory.well_formed(),
            draw_valid(*memory, self),
            drawn matches Some(selected) ==> selected < self.slots,
        ensures
            next.valid(*memory),
            drawn_outcome(*memory, self, drawn, next),
    {
        let selected: u64 = match drawn {
            Some(selected) => selected,
            None => return PrivateNext::Failed(PrivateFailure::Terminal),
        };
        let range = pick_private_range(
            &memory.private_memory.mappings,
            memory.private_memory.arena_end,
            self.floor,
            self.request.placement,
            selected,
        );
        proof {
            let mappings = memory.private_memory.mappings@;
            let bytes = 4096 * self.request.placement.page_count;
            let alignment = 4096 * self.request.placement.alignment_pages;
            let arena_end = memory.private_memory.arena_end as int;
            reveal(is_pow2);
            let i = choose|i: int|
                #[trigger] is_slot(
                    mappings,
                    self.floor as int,
                    arena_end,
                    bytes,
                    alignment,
                    selected as int,
                    i,
                    4096 * range.first(),
                );
            lemma_all_inside(memory.private_memory);
            every_slot_is_a_placement(
                mappings,
                self.floor as int,
                arena_end,
                bytes,
                alignment,
                selected as int,
                i,
                4096 * range.first(),
            );
            lemma_placement_is_free(
                memory.private_memory,
                self.floor as int,
                alignment,
                range,
            );
        }
        let work = RoomFor::Fresh {
            range,
            protection: self.request.protection,
            zeroed: self.zeroed,
        };
        PrivateNext::Room(NeedRoom { additional: 1, work })
    }
}

proof fn lemma_all_inside(private: PrivateMemory)
    requires
        private.well_formed(),
    ensures
        forall|k: int|
            0 <= k < private.mappings@.len() ==> 4096 * (
            #[trigger] private.mappings@[k]).range.past() <= private.arena_end,
{
    let mappings = private.mappings@;
    assert forall|k: int| 0 <= k < mappings.len() implies 4096 * (
    #[trigger] mappings[k]).range.past() <= private.arena_end by {
        let last = mappings.len() - 1;
        assert(mappings[last].well_formed());
        if k < last {
            assert(mappings[k].range.past() <= mappings[last].range.first());
        }
    }
}

proof fn lemma_placement_is_free(
    private: PrivateMemory,
    floor: int,
    alignment: int,
    range: PageRange,
)
    requires
        range.well_formed(),
        is_placement(
            private.mappings@,
            floor,
            private.arena_end as int,
            4096 * range.pages(),
            alignment,
            4096 * range.first(),
        ),
    ensures
        is_free(private, range),
{
    assert forall|i: int| 0 <= i < private.mappings@.len() implies range.apart(
        (#[trigger] private.mappings@[i]).range,
    ) by {}
}

/// How a mapping request starts.
pub open spec fn map_begins(
    memory: ApplicationMemory,
    heap_start: u64,
    request: MapRequest,
    zeroed: bool,
    next: PrivateNext,
) -> bool {
    let placement = request.placement;
    let private = memory.private_memory;
    let floor = memory.heap_end(heap_start as int);
    let bytes = 4096 * placement.page_count;
    let alignment = 4096 * placement.alignment_pages;
    let slots = all_slots(private.mappings@, floor, private.arena_end as int, bytes, alignment);
    if placement.page_count == 0 || (!zeroed && request.protection != Protection::NoAccess) {
        next == PrivateNext::Failed(PrivateFailure::Reply(ReplyStatus::InvalidRequest))
    } else if floor > u64::MAX {
        next == PrivateNext::Failed(PrivateFailure::Terminal)
    } else if bytes > u64::MAX || alignment > u64::MAX {
        next == PrivateNext::Failed(PrivateFailure::Reply(ReplyStatus::Overflow))
    } else if crate::memory::private::gaps::hint_usable(
        private.mappings@,
        floor,
        private.arena_end as int,
        placement,
    ) {
        exists|range: PageRange|
            {
                &&& 4096 * range.first() == placement.address_hint
                &&& range.pages() == placement.page_count
                &&& is_free(private, range)
                &&& #[trigger] wants_record(next, range, request.protection, zeroed)
            }
    } else if !is_pow2(alignment) || slots == 0 {
        next == PrivateNext::Failed(PrivateFailure::Reply(ReplyStatus::Exhausted))
    } else if slots > u64::MAX {
        next == PrivateNext::Failed(PrivateFailure::Reply(ReplyStatus::Overflow))
    } else {
        next == PrivateNext::Draw(
            DrawSlot { request, zeroed, floor: floor as u64, slots: slots as u64 },
        )
    }
}

fn begin_map(memory: &ApplicationMemory, heap_start: u64, request: MapRequest, zeroed: bool) -> (next:
    PrivateNext)
    requires
        memory.well_formed(),
    ensures
        next.valid(*memory),
        map_begins(*memory, heap_start, request, zeroed, next),
{
    if request.placement.page_count == 0 || (!zeroed && request.protection
        != Protection::NoAccess) {
        return PrivateNext::Failed(PrivateFailure::Reply(ReplyStatus::InvalidRequest));
    }
    let floor: u64 = match private_heap_end(memory, heap_start) {
        Ok(end) => end,
        Err(failure) => return PrivateNext::Failed(failure),
    };
    let choice = plan_private_range(
        &memory.private_memory.mappings,
        memory.private_memory.arena_end,
        floor,
        request.placement,
    );
    match choice {
        PlacementChoice::Overflow => PrivateNext::Failed(
            PrivateFailure::Reply(ReplyStatus::Overflow),
        ),
        PlacementChoice::Exhausted => PrivateNext::Failed(
            PrivateFailure::Reply(ReplyStatus::Exhausted),
        ),
        PlacementChoice::Hinted(range) => {
            proof {
                lemma_placement_is_free(
                    memory.private_memory,
                    floor as int,
                    4096 * request.placement.alignment_pages,
                    range,
                );
            }
            let work = RoomFor::Fresh { range, protection: request.protection, zeroed };
            let next = PrivateNext::Room(NeedRoom { additional: 1, work });
            assert(wants_record(next, range, request.protection, zeroed));
            next
        },
        PlacementChoice::Draw(slots) => PrivateNext::Draw(
            DrawSlot { request, zeroed, floor, slots },
        ),
    }
}

/// The one mapping that holds all of `range`.
pub open spec fn holder(private: PrivateMemory, range: PageRange, i: int) -> bool {
    0 <= i < private.mappings@.len() && private.mappings@[i].range.includes(range)
}

/// The work of a change: policy decides about the mapping cut around the
/// pages; what it lets through needs room for the pieces.
pub open spec fn checked_outcome(
    system: SystemMemory,
    memory: ApplicationMemory,
    change: ProtectChange,
    fresh: Seq<PageRange>,
    next: PrivateNext,
) -> bool {
    let private = memory.private_memory;
    let pieces = cut(
        private.mappings@[change.index as int]@,
        change.range,
        Some(change.protection),
        fresh,
    );
    match change_verdict(
        system,
        memory,
        change.index as int,
        pieces,
        private.reserved_pages as int,
        committed_after(private, change),
    ) {
        Err(failure) => if fresh.len() > 0 {
            releases(next, fresh, Ending::Fail(failure))
        } else {
            next == PrivateNext::Failed(failure)
        },
        Ok(()) => {
            &&& next matches PrivateNext::Room(need)
            &&& need.additional == pieces.len() - 1
            &&& need.work matches RoomFor::Protect { change: c, pieces: p, middle: m, committed: t }
            &&& c == change
            &&& models(p@) == pieces
            &&& t == committed_after(private, change)
            &&& fresh_extents(change, p@, m) == fresh
            &&& need.valid(memory)
        },
    }
}

/// Frames behind the changed pages are shown or hidden in the page tables; a
/// change without frames is installed at once.
pub open spec fn access_outcome(
    before: (SystemMemory, ApplicationMemory),
    after: (SystemMemory, ApplicationMemory),
    change: ProtectChange,
    pieces: Vec<PrivateMapping>,
    middle: usize,
    committed: u64,
    retained_tables: usize,
    next: PrivateNext,
) -> bool {
    if pieces@[middle as int].backing@.len() > 0 {
        &&& after == before
        &&& next matches PrivateNext::Access(access)
        &&& access.range == change.range
        &&& access.extents@ == pieces@[middle as int].backing@
        &&& access.installed == change.installed
        &&& access.permissions == match change.protection {
            Protection::NoAccess => None,
            Protection::Read => Some(Permissions::ReadOnly),
            Protection::ReadWrite => Some(Permissions::ReadWrite),
        }
        &&& access.after == AfterAccess::Protect {
            change,
            pieces,
            middle,
            committed,
            retained_tables,
        }
    } else {
        protected_outcome(before, after, change, Seq::empty(), next)
    }
}

/// The list of mappings once a change is installed.
pub open spec fn protected_list(
    private: PrivateMemory,
    change: ProtectChange,
    fresh: Seq<PageRange>,
) -> Seq<MappingModel> {
    let pieces = cut(
        private.mappings@[change.index as int]@,
        change.range,
        Some(change.protection),
        fresh,
    );
    joined(replaced(models(private.mappings@), change.index as int, pieces))
}

/// A change is installed: the pages have their new access, frames stay, and
/// the totals are booked. The call fails only where the system totals cannot
/// take them.
pub open spec fn protected_outcome(
    before: (SystemMemory, ApplicationMemory),
    after: (SystemMemory, ApplicationMemory),
    change: ProtectChange,
    fresh: Seq<PageRange>,
    next: PrivateNext,
) -> bool {
    let private = before.1.private_memory;
    let list = protected_list(private, change, fresh);
    let committed = committed_after(private, change) as u64;
    &&& list_booked(before, after, list, private.reserved_pages, committed)
    &&& coalesced(after.1.private_memory.mappings@)
    &&& pages_become(private, after.1.private_memory, change.range, change.protection, fresh)
    &&& next == if bookable(before.0, private, model_metadata(list) as u64, committed) {
        PrivateNext::Done(
            PrivateReply {
                payload: PrivatePayload::Empty,
                resources_changed: change.needs_backing,
            },
        )
    } else {
        PrivateNext::Failed(PrivateFailure::Terminal)
    }
}

proof fn lemma_change_pages(
    before: PrivateMemory,
    between: PrivateMemory,
    after: PrivateMemory,
    change: ProtectChange,
    pieces: Seq<PrivateMapping>,
    fresh: Seq<PageRange>,
)
    requires
        before.well_formed(),
        holder(before, change.range, change.index as int),
        is_change(
            pieces,
            before.mappings@[change.index as int],
            change.range,
            Some(change.protection),
            fresh,
        ),
        forall|page: int|
            #![trigger between.page(page)]
            between.page(page) == if before.mappings@[change.index as int].range.covers(page) {
                lookup(pieces, page)
            } else {
                before.page(page)
            },
        forall|page: int| #![trigger after.page(page)] after.page(page) == between.page(page),
    ensures
        pages_become(before, after, change.range, change.protection, fresh),
{
    let mapping = before.mappings@[change.index as int];
    assert forall|page: int| #![trigger after.page(page)] after.page(page) == (
    if change.range.covers(page) {
        Some(
            PageEntry {
                protection: change.protection,
                frame: if fresh.len() > 0 {
                    Some(frames(fresh)[page - change.range.first()])
                } else {
                    match before.page(page) {
                        Some(entry) => entry.frame,
                        None => None,
                    }
                },
            },
        )
    } else {
        before.page(page)
    }) by {
        let _ = between.page(page);
        if mapping.range.covers(page) {
            assert(covered_by(before.mappings@, change.index as int, page));
            lemma_lookup(before.mappings@, change.index as int, page);
            let _ = lookup(pieces, page);
        }
    }
}

/// Install the pieces of a change.
fn install_change(
    system: &mut SystemMemory,
    memory: &mut ApplicationMemory,
    change: ProtectChange,
    pieces: Vec<PrivateMapping>,
    Ghost(middle): Ghost<usize>,
    committed: u64,
) -> (next: PrivateNext)
    requires
        old(memory).well_formed(),
        pieces_valid(*old(memory), change, pieces@, middle, committed),
    ensures
        protected_outcome(
            (*old(system), *old(memory)),
            (*final(system), *final(memory)),
            change,
            fresh_extents(change, pieces@, middle),
            next,
        ),
        next.valid(*final(memory)),
{
    let ghost before = memory.private_memory;
    let ghost parts = pieces@;
    let ghost fresh = fresh_extents(change, pieces@, middle);
    let reserved: u64 = memory.private_memory.reserved_pages;
    replace_mapping(memory, change.index, pieces, reserved, committed);
    let ghost between = memory.private_memory;
    let booked = settle(system, memory, reserved, committed);
    proof {
        lemma_change_pages(before, between, memory.private_memory, change, parts, fresh);
    }
    if booked {
        PrivateNext::Done(
            PrivateReply {
                payload: PrivatePayload::Empty,
                resources_changed: change.needs_backing,
            },
        )
    } else {
        PrivateNext::Failed(PrivateFailure::Terminal)
    }
}

/// Show or hide the changed pages, or install the change at once.
fn change_access(
    system: &mut SystemMemory,
    memory: &mut ApplicationMemory,
    change: ProtectChange,
    pieces: Vec<PrivateMapping>,
    middle: usize,
    committed: u64,
    retained_tables: usize,
) -> (next: PrivateNext)
    requires
        old(memory).well_formed(),
        pieces_valid(*old(memory), change, pieces@, middle, committed),
        retained_tables <= old(memory).growth_table_frames@.len(),
    ensures
        access_outcome(
            (*old(system), *old(memory)),
            (*final(system), *final(memory)),
            change,
            pieces,
            middle,
            committed,
            retained_tables,
            next,
        ),
        next.valid(*final(memory)),
{
    if pieces[middle].backing.len() > 0 {
        let extents = copy_extents(&pieces[middle].backing);
        return PrivateNext::Access(
            NeedAccess {
                range: change.range,
                extents,
                installed: change.installed,
                permissions: private_permissions(change.protection),
                after: AfterAccess::Protect { change, pieces, middle, committed, retained_tables },
            },
        );
    }
    install_change(system, memory, change, pieces, Ghost(middle), committed)
}

/// Cut the mapping around the change and hold it against policy.
fn check_change(
    system: &SystemMemory,
    memory: &ApplicationMemory,
    change: ProtectChange,
    backing: Vec<PageRange>,
) -> (next: PrivateNext)
    requires
        memory.well_formed(),
        change_valid(*memory, change),
        is_backing(backing@, change.range),
        change.needs_backing == (backing@.len() > 0),
    ensures
        next.valid(*memory),
        checked_outcome(*system, *memory, change, backing@, next),
{
    let ghost extents = backing@;
    let ghost mapping = memory.private_memory.mappings@[change.index as int];
    let ghost list = memory.private_memory.mappings@;
    proof {
        assert(mapping.well_formed());
        lemma_frames_len(mapping.backing@);
    }
    let mut split = split_private_mapping(
        &memory.private_memory.mappings[change.index],
        change.range,
        Some(change.protection),
    );
    proof {
        split_changes_only_the_request(split, mapping, change.range, Some(change.protection));
        crate::memory::pages::lemma_range_identity(
            split.replacements@[split.middle as int].range,
            change.range,
        );
        lemma_frames_len(split.removed@);
    }
    if change.needs_backing {
        back_middle(
            &mut split,
            Ghost(mapping),
            Ghost(change.protection),
            change.range,
            backing,
        );
    }
    let ghost pieces = split.replacements@;
    proof {
        assert(is_change(pieces, mapping, change.range, Some(change.protection), extents));
        assert(models(pieces) == cut(mapping@, change.range, Some(change.protection), extents));
        replacement_is_local(list, change.index as int, pieces);
        lemma_room_for_change(memory.private_memory, change.index as int, change.range);
        if change.needs_backing {
            assert(committed_total(pieces) == change.range.pages());
            assert(mapping.committed() == 0);
        } else {
            assert(committed_total(pieces) == mapping.committed());
        }
    }
    let committed: u64 = if change.needs_backing {
        memory.private_memory.committed_pages + change.range.page_count()
    } else {
        memory.private_memory.committed_pages
    };
    let middle: usize = split.middle;
    let totals = private_replacement_metadata(
        &memory.private_memory,
        change.index,
        &split.replacements,
    );
    let verdict = match totals {
        Some((count, metadata)) => private_policy_allows(
            system,
            memory,
            memory.private_memory.reserved_pages,
            committed,
            count,
            metadata,
        ),
        None => Err(PrivateFailure::Terminal),
    };
    proof {
        assert(verdict == change_verdict(
            *system,
            *memory,
            change.index as int,
            models(pieces),
            memory.private_memory.reserved_pages as int,
            committed as int,
        ));
    }
    match verdict {
        Err(failure) => {
            if change.needs_backing {
                let mut replacements = split.replacements;
                let part = replacements.remove(middle);
                return PrivateNext::Release(
                    NeedRelease {
                        extents: part.backing,
                        ending: Ending::Fail(failure),
                    },
                );
            }
            PrivateNext::Failed(failure)
        },
        Ok(()) => {
            proof {
                assert(fresh_extents(change, pieces, middle) =~= extents);
                assert(pieces_valid(*memory, change, pieces, middle, committed));
            }
            let additional: usize = split.replacements.len() - 1;
            let work = RoomFor::Protect {
                change,
                pieces: split.replacements,
                middle,
                committed,
            };
            PrivateNext::Room(NeedRoom { additional, work })
        },
    }
}

proof fn lemma_room_for_change(private: PrivateMemory, index: int, range: PageRange)
    requires
        private.well_formed(),
        holder(private, range, index),
        range.well_formed(),
    ensures
        private.committed_pages + range.pages() <= u64::MAX,
{
    lemma_reserved_bound(private.mappings@, (private.arena_end / 4096) as int);
}

/// How a change of access starts.
pub open spec fn protect_begins(
    system: SystemMemory,
    memory: ApplicationMemory,
    free_frames: u64,
    address: u64,
    page_count: u64,
    protection: Protection,
    next: PrivateNext,
) -> bool {
    if !PageRange::valid(address as int, page_count as int) {
        next == PrivateNext::Failed(PrivateFailure::Reply(ReplyStatus::InvalidRequest))
    } else {
        exists|range: PageRange|
            {
                &&& range.well_formed()
                &&& 4096 * range.first() == address
                &&& range.pages() == page_count
                &&& #[trigger] protect_range_begins(
                    system,
                    memory,
                    free_frames,
                    range,
                    protection,
                    next,
                )
            }
    }
}

/// How a change of access to `range` starts.
pub open spec fn protect_range_begins(
    system: SystemMemory,
    memory: ApplicationMemory,
    free_frames: u64,
    range: PageRange,
    protection: Protection,
    next: PrivateNext,
) -> bool {
    let private = memory.private_memory;
    if forall|i: int| !holder(private, range, i) {
        next == PrivateNext::Failed(PrivateFailure::Reply(ReplyStatus::NotFound))
    } else {
        exists|index: usize|
            {
                &&& #[trigger] holder(private, range, index as int)
                &&& ({
                    let mapping = private.mappings@[index as int];
                    let change = ProtectChange {
                        index,
                        range,
                        protection,
                        needs_backing: !mapping.backed() && protection != Protection::NoAccess,
                        installed: mapping.backed() && mapping.protection
                            != Protection::NoAccess,
                    };
                    if mapping.protection == protection {
                        next == PrivateNext::Done(
                            PrivateReply {
                                payload: PrivatePayload::Empty,
                                resources_changed: false,
                            },
                        )
                    } else if !change.needs_backing {
                        checked_outcome(system, memory, change, Seq::empty(), next)
                    } else if range.pages() > available_frames(system, free_frames) {
                        next == PrivateNext::Failed(PrivateFailure::Reply(ReplyStatus::Exhausted))
                    } else {
                        next == PrivateNext::Back(
                            NeedBacking {
                                job: Job::Protect(change),
                                pages: range.pages() as u64,
                            },
                        )
                    }
                })
            }
    }
}

fn begin_protect(
    system: &SystemMemory,
    memory: &ApplicationMemory,
    free_frames: u64,
    address: u64,
    page_count: u64,
    protection: Protection,
) -> (next: PrivateNext)
    requires
        memory.well_formed(),
    ensures
        next.valid(*memory),
        protect_begins(
            *system,
            *memory,
            free_frames,
            address,
            page_count,
            protection,
            next,
        ),
{
    let range = match PageRange::from_pages(address, page_count) {
        Some(range) => range,
        None => return PrivateNext::Failed(PrivateFailure::Reply(ReplyStatus::InvalidRequest)),
    };
    let index: usize = match find_mapping(&memory.private_memory.mappings, range) {
        Some(index) => index,
        None => {
            let next = PrivateNext::Failed(PrivateFailure::Reply(ReplyStatus::NotFound));
            proof {
                assert forall|i: int| !holder(memory.private_memory, range, i) by {}
                assert(protect_range_begins(
                    *system,
                    *memory,
                    free_frames,
                    range,
                    protection,
                    next,
                ));
            }
            return next;
        },
    };
    assert(holder(memory.private_memory, range, index as int));
    let old_protection = memory.private_memory.mappings[index].protection;
    let backed = memory.private_memory.mappings[index].backing.len() > 0;
    let change = ProtectChange {
        index,
        range,
        protection,
        needs_backing: !backed && !matches!(protection, Protection::NoAccess),
        installed: backed && !matches!(old_protection, Protection::NoAccess),
    };
    let next = if old_protection == protection {
        PrivateNext::Done(
            PrivateReply { payload: PrivatePayload::Empty, resources_changed: false },
        )
    } else if !change.needs_backing {
        let nothing: Vec<PageRange> = Vec::new();
        assert(nothing@ =~= Seq::<PageRange>::empty());
        check_change(system, memory, change, nothing)
    } else if range.page_count() > usable_frames(system, free_frames) {
        PrivateNext::Failed(PrivateFailure::Reply(ReplyStatus::Exhausted))
    } else {
        PrivateNext::Back(NeedBacking { job: Job::Protect(change), pages: range.page_count() })
    };
    proof {
        assert(protect_range_begins(
            *system,
            *memory,
            free_frames,
            range,
            protection,
            next,
        ));
    }
    next
}


/// The frames are as many as the job needs, where there are any.
pub open spec fn backs(job: Job, result: Result<Vec<PageRange>, PrivateFailure>) -> bool {
    result matches Ok(backing) ==> all_well_formed(backing@) && total_pages(backing@) == job_pages(
        job,
    )
}

/// What follows the frames of a job, or the reason why there are none.
pub open spec fn backed_outcome(
    before: (SystemMemory, ApplicationMemory),
    after: (SystemMemory, ApplicationMemory),
    job: Job,
    result: Result<Vec<PageRange>, PrivateFailure>,
    next: PrivateNext,
) -> bool {
    match (job, result) {
        (_, Err(failure)) => next == PrivateNext::Failed(failure) && after == before,
        (Job::Fresh { range, protection }, Ok(backing)) => fresh_backed(
            before,
            after,
            range,
            protection,
            backing,
            next,
        ),
        (Job::Protect(change), Ok(backing)) => after == before && checked_outcome(
            before.0,
            before.1,
            change,
            backing@,
            next,
        ),
    }
}

impl NeedBacking {
    /// Go on with the frames, or with the reason why there are none.
    pub fn backed(
        self,
        system: &mut SystemMemory,
        memory: &mut ApplicationMemory,
        result: Result<Vec<PageRange>, PrivateFailure>,
    ) -> (next: PrivateNext)
        requires
            old(memory).well_formed(),
            job_valid(*old(memory), self.job),
            backs(self.job, result),
        ensures
            next.valid(*final(memory)),
            backed_outcome(
                (*old(system), *old(memory)),
                (*final(system), *final(memory)),
                self.job,
                result,
                next,
            ),
    {
        let backing = match result {
            Ok(backing) => backing,
            Err(failure) => return PrivateNext::Failed(failure),
        };
        proof {
            lemma_frames_len(backing@);
            if backing@.len() == 0 {
                assert(total_pages(backing@) == 0);
            }
        }
        match self.job {
            Job::Protect(change) => check_change(system, memory, change, backing),
            Job::Fresh { range, protection } => {
                if matches!(protection, Protection::NoAccess) {
                    match commit_map(system, memory, range, protection, backing) {
                        Ok(()) => PrivateNext::Done(
                            PrivateReply {
                                payload: PrivatePayload::Address(range.start()),
                                resources_changed: true,
                            },
                        ),
                        Err((failure, backing)) => {
                            PrivateNext::Release(
                                NeedRelease {
                                    extents: backing,
                                    ending: Ending::Fail(failure),
                                },
                            )
                        },
                    }
                } else {
                    PrivateNext::Tables(
                        NeedTables {
                            range,
                            prepared: Prepared::Fresh { range, protection, backing },
                        },
                    )
                }
            },
        }
    }
}

/// New pages with their frames: without access they are booked at once,
/// otherwise page-table frames come first.
pub open spec fn fresh_backed(
    before: (SystemMemory, ApplicationMemory),
    after: (SystemMemory, ApplicationMemory),
    range: PageRange,
    protection: Protection,
    backing: Vec<PageRange>,
    next: PrivateNext,
) -> bool {
    if protection != Protection::NoAccess {
        &&& after == before
        &&& next == PrivateNext::Tables(
            NeedTables { range, prepared: Prepared::Fresh { range, protection, backing } },
        )
    } else {
        match map_verdict(before.0, before.1, range, backing@) {
            Ok(()) => {
                &&& next == PrivateNext::Done(
                    PrivateReply {
                        payload: PrivatePayload::Address((4096 * range.first()) as u64),
                        resources_changed: true,
                    },
                )
                &&& mapped(before, after, range, protection, backing@)
                &&& after.1.growth_table_frames == before.1.growth_table_frames
            },
            Err(failure) => {
                &&& after == before
                &&& releases(next, backing@, Ending::Fail(failure))
            },
        }
    }
}

/// New pages are booked.
pub open spec fn mapped(
    before: (SystemMemory, ApplicationMemory),
    after: (SystemMemory, ApplicationMemory),
    range: PageRange,
    protection: Protection,
    backing: Seq<PageRange>,
) -> bool {
    let old_private = before.1.private_memory;
    let new_private = after.1.private_memory;
    &&& after.1.well_formed()
    &&& after.1 == (ApplicationMemory {
        private_memory: new_private,
        growth_table_frames: after.1.growth_table_frames,
        ..before.1
    })
    &&& pages_become(old_private, new_private, range, protection, backing)
    &&& new_private.same_arena(old_private)
    &&& new_private.mappings@.len() == old_private.mappings@.len() + 1
    &&& new_private.reserved_pages == old_private.reserved_pages + range.pages()
    &&& new_private.committed_pages == old_private.committed_pages + range.pages()
    &&& new_private.metadata_bytes == old_private.metadata_bytes + 48 + 16 * backing.len()
    &&& new_private.marks_follow(old_private)
    &&& system_follows(before.0, after.0, old_private, new_private)
}

impl NeedTables {
    /// Go on with newly allocated page-table frames. Where they could not all
    /// be had, `frames` holds those that could not be given back, and they stay
    /// with the application.
    pub fn ready(
        self,
        system: &mut SystemMemory,
        memory: &mut ApplicationMemory,
        frames: Vec<u64>,
        failure: Option<PrivateFailure>,
    ) -> (next: PrivateNext)
        requires
            old(memory).well_formed(),
            prepared_valid(*old(memory), self.prepared),
        ensures
            next.valid(*final(memory)),
            tables_outcome(
                (*old(system), *old(memory)),
                (*final(system), *final(memory)),
                self.prepared,
                frames@,
                failure,
                next,
            ),
    {
        match (self.prepared, failure) {
            (Prepared::Fresh { range: _, protection: _, backing }, Some(failure)) => {
                let mut frames = frames;
                memory.growth_table_frames.append(&mut frames);
                PrivateNext::Release(
                    NeedRelease { extents: backing, ending: Ending::Fail(failure) },
                )
            },
            (Prepared::Protect { change, pieces, middle, committed: _ }, Some(failure)) => {
                let mut frames = frames;
                memory.growth_table_frames.append(&mut frames);
                if change.needs_backing {
                    let mut pieces = pieces;
                    let part = pieces.remove(middle);
                    PrivateNext::Release(
                        NeedRelease { extents: part.backing, ending: Ending::Fail(failure) },
                    )
                } else {
                    PrivateNext::Failed(failure)
                }
            },
            (Prepared::Fresh { range, protection, backing }, None) => map_with_tables(
                system,
                memory,
                range,
                protection,
                backing,
                frames,
            ),
            (Prepared::Protect { change, pieces, middle, committed }, None) => {
                protect_with_tables(system, memory, change, pieces, middle, committed, frames)
            },
        }
    }
}

fn map_with_tables(
    system: &mut SystemMemory,
    memory: &mut ApplicationMemory,
    range: PageRange,
    protection: Protection,
    backing: Vec<PageRange>,
    frames: Vec<u64>,
) -> (next: PrivateNext)
    requires
        old(memory).well_formed(),
        prepared_valid(*old(memory), Prepared::Fresh { range, protection, backing }),
    ensures
        next.valid(*final(memory)),
        tables_outcome(
            (*old(system), *old(memory)),
            (*final(system), *final(memory)),
            Prepared::Fresh { range, protection, backing },
            frames@,
            None,
            next,
        ),
{
    let ghost before = (*system, *memory);
    let ghost fresh = frames@;
    let retained: usize = memory.growth_table_frames.len();
    let mut frames = frames;
    memory.growth_table_frames.append(&mut frames);
    let extents = copy_extents(&backing);
    match commit_map(system, memory, range, protection, backing) {
        Ok(()) => PrivateNext::Access(
            NeedAccess {
                range,
                extents,
                installed: false,
                permissions: private_permissions(protection),
                after: AfterAccess::Fresh { address: range.start() },
            },
        ),
        Err((failure, backing)) => PrivateNext::Release(
            NeedRelease {
                extents: backing,
                ending: Ending::Unwind { retained_tables: retained, failure },
            },
        ),
    }
}

fn protect_with_tables(
    system: &mut SystemMemory,
    memory: &mut ApplicationMemory,
    change: ProtectChange,
    pieces: Vec<PrivateMapping>,
    middle: usize,
    committed: u64,
    frames: Vec<u64>,
) -> (next: PrivateNext)
    requires
        old(memory).well_formed(),
        prepared_valid(
            *old(memory),
            Prepared::Protect { change, pieces, middle, committed },
        ),
    ensures
        next.valid(*final(memory)),
        tables_outcome(
            (*old(system), *old(memory)),
            (*final(system), *final(memory)),
            Prepared::Protect { change, pieces, middle, committed },
            frames@,
            None,
            next,
        ),
{
    let ghost before = (*system, *memory);
    let ghost fresh = frames@;
    let retained: usize = memory.growth_table_frames.len();
    let mut frames = frames;
    memory.growth_table_frames.append(&mut frames);
    let ghost grown = *memory;
    proof {
        assert(with_tables(before.1, fresh, grown));
        lemma_change_survives(before.1, grown, change, pieces@, middle, committed);
    }
    if pieces[middle].backing.len() > 0 {
        let extents = copy_extents(&pieces[middle].backing);
        let next = PrivateNext::Access(
            NeedAccess {
                range: change.range,
                extents,
                installed: change.installed,
                permissions: private_permissions(change.protection),
                after: AfterAccess::Protect {
                    change,
                    pieces,
                    middle,
                    committed,
                    retained_tables: retained,
                },
            },
        );
        next
    } else {
        let next = install_change(system, memory, change, pieces, Ghost(middle), committed);
        proof {
            assert(with_tables(before.1, fresh, grown));
            assert(protected_outcome(
                (before.0, grown),
                (*system, *memory),
                change,
                Seq::empty(),
                next,
            ));
            assert(installed_with_tables(before, (*system, *memory), change, fresh, next));
        }
        next
    }
}

/// The application with `fresh` added to its page-table frames.
pub open spec fn with_tables(
    before: ApplicationMemory,
    fresh: Seq<u64>,
    after: ApplicationMemory,
) -> bool {
    &&& after.growth_table_frames@ == before.growth_table_frames@ + fresh
    &&& after == (ApplicationMemory { growth_table_frames: after.growth_table_frames, ..before })
}

proof fn lemma_change_survives(
    before: ApplicationMemory,
    after: ApplicationMemory,
    change: ProtectChange,
    pieces: Seq<PrivateMapping>,
    middle: usize,
    committed: u64,
)
    requires
        before.private_memory == after.private_memory,
        pieces_valid(before, change, pieces, middle, committed),
    ensures
        pieces_valid(after, change, pieces, middle, committed),
{
}

/// A change is installed in an application that keeps the new page-table
/// frames.
pub open spec fn installed_with_tables(
    before: (SystemMemory, ApplicationMemory),
    after: (SystemMemory, ApplicationMemory),
    change: ProtectChange,
    fresh: Seq<u64>,
    next: PrivateNext,
) -> bool {
    exists|grown: ApplicationMemory|
        {
            &&& #[trigger] with_tables(before.1, fresh, grown)
            &&& protected_outcome((before.0, grown), after, change, Seq::empty(), next)
        }
}

/// What follows the page-table frames of prepared work.
pub open spec fn tables_outcome(
    before: (SystemMemory, ApplicationMemory),
    after: (SystemMemory, ApplicationMemory),
    prepared: Prepared,
    fresh: Seq<u64>,
    failure: Option<PrivateFailure>,
    next: PrivateNext,
) -> bool {
    match (prepared, failure) {
        (Prepared::Fresh { range, protection, backing }, Some(failure)) => {
            &&& after.0 == before.0
            &&& with_tables(before.1, fresh, after.1)
            &&& releases(next, backing@, Ending::Fail(failure))
        },
        (Prepared::Protect { change, pieces, middle, committed }, Some(failure)) => {
            &&& after.0 == before.0
            &&& with_tables(before.1, fresh, after.1)
            &&& if change.needs_backing {
                releases(
                    next,
                    pieces@[middle as int].backing@,
                    Ending::Fail(failure),
                )
            } else {
                next == PrivateNext::Failed(failure)
            }
        },
        (Prepared::Fresh { range, protection, backing }, None) => match map_verdict(
            before.0,
            before.1,
            range,
            backing@,
        ) {
            Ok(()) => {
                &&& mapped(before, after, range, protection, backing@)
                &&& after.1.growth_table_frames@ == before.1.growth_table_frames@ + fresh
                &&& next matches PrivateNext::Access(access)
                &&& access.range == range
                &&& access.extents@ == backing@
                &&& !access.installed
                &&& access.permissions == match protection {
                    Protection::NoAccess => None,
                    Protection::Read => Some(Permissions::ReadOnly),
                    Protection::ReadWrite => Some(Permissions::ReadWrite),
                }
                &&& access.after == AfterAccess::Fresh { address: (4096 * range.first()) as u64 }
            },
            Err(failure) => {
                &&& after.0 == before.0
                &&& with_tables(before.1, fresh, after.1)
                &&& releases(
                    next,
                    backing@,
                    Ending::Unwind {
                        retained_tables: before.1.growth_table_frames@.len() as usize,
                        failure,
                    },
                )
            },
        },
        (Prepared::Protect { change, pieces, middle, committed }, None) => {
            if pieces@[middle as int].backing@.len() > 0 {
                &&& after.0 == before.0
                &&& with_tables(before.1, fresh, after.1)
                &&& next matches PrivateNext::Access(access)
                &&& access.range == change.range
                &&& access.extents@ == pieces@[middle as int].backing@
                &&& access.installed == change.installed
                &&& access.permissions == match change.protection {
                    Protection::NoAccess => None,
                    Protection::Read => Some(Permissions::ReadOnly),
                    Protection::ReadWrite => Some(Permissions::ReadWrite),
                }
                &&& access.after == AfterAccess::Protect {
                    change,
                    pieces,
                    middle,
                    committed,
                    retained_tables: before.1.growth_table_frames@.len() as usize,
                }
            } else {
                installed_with_tables(before, after, change, fresh, next)
            }
        },
    }
}

/// The call stops to release these frames.
pub open spec fn releases(
    next: PrivateNext,
    extents: Seq<PageRange>,
    ending: Ending,
) -> bool {
    &&& next matches PrivateNext::Release(release)
    &&& release.extents@ == extents
    &&& release.ending == ending
}

/// What follows the release of frames: pages that were given up are settled
/// only now, so that they stay charged where their frames were not released.
pub open spec fn released_outcome(
    before: (SystemMemory, ApplicationMemory),
    after: (SystemMemory, ApplicationMemory),
    ending: Ending,
    success: bool,
    next: PrivateNext,
) -> bool {
    let private = before.1.private_memory;
    if !success {
        after == before && next == PrivateNext::Failed(PrivateFailure::Terminal)
    } else {
        match ending {
            Ending::Fail(failure) => after == before && next == PrivateNext::Failed(failure),
            Ending::Unwind { retained_tables, failure } => {
                &&& after.0 == before.0
                &&& unwound(before.1, after.1, retained_tables, Seq::empty(), failure, next)
            },
            Ending::Settle { reserved, committed } => {
                let list = joined(models(private.mappings@));
                &&& list_booked(before, after, list, reserved, committed)
                &&& coalesced(after.1.private_memory.mappings@)
                &&& forall|page: int|
                    #![trigger after.1.private_memory.page(page)]
                    after.1.private_memory.page(page) == private.page(page)
                &&& next == if bookable(
                    before.0,
                    private,
                    model_metadata(list) as u64,
                    committed,
                ) {
                    PrivateNext::Done(
                        PrivateReply {
                            payload: PrivatePayload::Empty,
                            resources_changed: true,
                        },
                    )
                } else {
                    PrivateNext::Failed(PrivateFailure::Terminal)
                }
            },
        }
    }
}

impl NeedRelease {
    /// The totals to book are those of the mappings, and no more table frames
    /// stay than there are.
    pub open spec fn valid(self, memory: ApplicationMemory) -> bool {
        match self.ending {
            Ending::Settle { reserved, committed } => unbooked(memory, reserved, committed),
            Ending::Unwind { retained_tables, failure } => {
                retained_tables <= memory.growth_table_frames@.len()
            },
            Ending::Fail(failure) => true,
        }
    }

    /// Go on once the frames are zeroed and released, or failed to be.
    pub fn released(
        self,
        system: &mut SystemMemory,
        memory: &mut ApplicationMemory,
        success: bool,
    ) -> (next: PrivateNext)
        requires
            old(memory).parts_well_formed(),
            self.valid(*old(memory)),
        ensures
            next.valid(*final(memory)),
            released_outcome(
                (*old(system), *old(memory)),
                (*final(system), *final(memory)),
                self.ending,
                success,
                next,
            ),
    {
        if !success {
            return PrivateNext::Failed(PrivateFailure::Terminal);
        }
        match self.ending {
            Ending::Settle { reserved, committed } => {
                if settle(system, memory, reserved, committed) {
                    PrivateNext::Done(
                        PrivateReply { payload: PrivatePayload::Empty, resources_changed: true },
                    )
                } else {
                    PrivateNext::Failed(PrivateFailure::Terminal)
                }
            },
            Ending::Unwind { retained_tables, failure } => {
                let nothing: Vec<PageRange> = Vec::new();
                assert(nothing@ =~= Seq::<PageRange>::empty());
                unwind_tables(memory, retained_tables, nothing, failure)
            },
            Ending::Fail(failure) => PrivateNext::Failed(failure),
        }
    }
}

/// A failing call gives back the page-table frames beyond those that stay,
/// the newest first, then the extents, and then it ends.
pub open spec fn unwound(
    before: ApplicationMemory,
    after: ApplicationMemory,
    retained_tables: usize,
    extents: Seq<PageRange>,
    failure: PrivateFailure,
    next: PrivateNext,
) -> bool {
    let tables = before.growth_table_frames@;
    if retained_tables < tables.len() {
        &&& after.growth_table_frames@ == tables.drop_last()
        &&& after == (ApplicationMemory { growth_table_frames: after.growth_table_frames, ..before })
        &&& next matches PrivateNext::Free(need)
        &&& need.frame == tables.last()
        &&& need.retained_tables == retained_tables
        &&& need.extents@ == extents
        &&& need.failure == failure
    } else {
        &&& after == before
        &&& if extents.len() > 0 {
            releases(next, extents, Ending::Fail(failure))
        } else {
            next == PrivateNext::Failed(failure)
        }
    }
}

fn unwind_tables(
    memory: &mut ApplicationMemory,
    retained_tables: usize,
    extents: Vec<PageRange>,
    failure: PrivateFailure,
) -> (next: PrivateNext)
    requires
        old(memory).parts_well_formed(),
        retained_tables <= old(memory).growth_table_frames@.len(),
    ensures
        next.valid(*final(memory)),
        unwound(*old(memory), *final(memory), retained_tables, extents@, failure, next),
{
    if retained_tables < memory.growth_table_frames.len() {
        match memory.growth_table_frames.pop() {
            Some(frame) => {
                return PrivateNext::Free(
                    NeedFree { frame, retained_tables, extents, failure },
                );
            },
            None => {},
        }
    }
    if extents.len() > 0 {
        PrivateNext::Release(NeedRelease { extents, ending: Ending::Fail(failure) })
    } else {
        PrivateNext::Failed(failure)
    }
}

/// What follows a page-table frame that went back, or could not.
pub open spec fn freed_outcome(
    before: ApplicationMemory,
    after: ApplicationMemory,
    need: NeedFree,
    success: bool,
    next: PrivateNext,
) -> bool {
    if success {
        unwound(before, after, need.retained_tables, need.extents@, need.failure, next)
    } else {
        after == before && next == PrivateNext::Failed(PrivateFailure::Terminal)
    }
}

impl NeedFree {
    /// No more table frames stay than there are.
    pub open spec fn valid(self, memory: ApplicationMemory) -> bool {
        self.retained_tables <= memory.growth_table_frames@.len()
    }

    /// Go on once the page-table frame is given back, or failed to be. A
    /// failure leaves the remaining table frames with the application.
    pub fn freed(self, memory: &mut ApplicationMemory, success: bool) -> (next: PrivateNext)
        requires
            old(memory).parts_well_formed(),
            self.valid(*old(memory)),
        ensures
            next.valid(*final(memory)),
            freed_outcome(*old(memory), *final(memory), self, success, next),
    {
        if !success {
            return PrivateNext::Failed(PrivateFailure::Terminal);
        }
        unwind_tables(memory, self.retained_tables, self.extents, self.failure)
    }
}

/// Pages of `range` are gone, the others keep their state.
pub open spec fn pages_vanish(before: PrivateMemory, after: PrivateMemory, range: PageRange) -> bool {
    forall|page: int|
        #![trigger after.page(page)]
        after.page(page) == if range.covers(page) {
            None
        } else {
            before.page(page)
        }
}

/// The list of mappings without the pages of `range`, before it is joined.
pub open spec fn unmapped_list(private: PrivateMemory, index: int, range: PageRange) -> Seq<
    MappingModel,
> {
    replaced(
        models(private.mappings@),
        index,
        cut(private.mappings@[index]@, range, None, Seq::empty()),
    )
}

/// Pages are given up. Where frames stand behind them, they are released before
/// the list is joined and the totals are booked; otherwise both happens at
/// once, and fails only where the system totals cannot take the new ones.
pub open spec fn unmapped_outcome(
    before: (SystemMemory, ApplicationMemory),
    after: (SystemMemory, ApplicationMemory),
    index: int,
    range: PageRange,
    reserved: u64,
    committed: u64,
    next: PrivateNext,
) -> bool {
    let old_private = before.1.private_memory;
    let new_private = after.1.private_memory;
    let removed = given_up(old_private.mappings@[index]@, range);
    let list = unmapped_list(old_private, index, range);
    &&& pages_vanish(old_private, new_private, range)
    &&& if removed.len() > 0 {
        &&& after.0 == before.0
        &&& after.1 == (ApplicationMemory { private_memory: new_private, ..before.1 })
        &&& new_private.same_books(old_private)
        &&& models(new_private.mappings@) == list
        &&& unbooked(after.1, reserved, committed)
        &&& releases(next, removed, Ending::Settle { reserved, committed })
    } else {
        &&& list_booked(before, after, joined(list), reserved, committed)
        &&& coalesced(new_private.mappings@)
        &&& next == if bookable(
            before.0,
            old_private,
            model_metadata(joined(list)) as u64,
            committed,
        ) {
            PrivateNext::Done(
                PrivateReply { payload: PrivatePayload::Empty, resources_changed: false },
            )
        } else {
            PrivateNext::Failed(PrivateFailure::Terminal)
        }
    }
}

/// The pieces of an unmapping: the mapping cut around the range, with totals
/// that can be represented.
pub open spec fn unmap_valid(
    memory: ApplicationMemory,
    index: int,
    range: PageRange,
    pieces: Seq<PrivateMapping>,
    removed: Seq<PageRange>,
    reserved: u64,
    committed: u64,
) -> bool {
    let private = memory.private_memory;
    let list = replaced(private.mappings@, index, pieces);
    &&& range.well_formed()
    &&& holder(private, range, index)
    &&& models(pieces) == cut(private.mappings@[index]@, range, None, Seq::empty())
    &&& removed == given_up(private.mappings@[index]@, range)
    &&& is_change(pieces, private.mappings@[index], range, None, Seq::empty())
    &&& all_well_formed(removed)
    &&& frames(removed) == if private.mappings@[index].backed() {
        private.mappings@[index].frames().subrange(
            range.first() - private.mappings@[index].range.first(),
            range.past() - private.mappings@[index].range.first(),
        )
    } else {
        Seq::empty()
    }
    &&& reserved == private.reserved_pages - range.pages()
    &&& committed == private.committed_pages - total_pages(removed)
    &&& reserved_total(list) == reserved
    &&& committed_total(list) == committed
    &&& metadata_total(list) <= u64::MAX
}

proof fn lemma_unmapped_pages(
    before: PrivateMemory,
    between: PrivateMemory,
    index: int,
    range: PageRange,
    pieces: Seq<PrivateMapping>,
)
    requires
        before.well_formed(),
        holder(before, range, index),
        is_change(pieces, before.mappings@[index], range, None, Seq::empty()),
        forall|page: int|
            #![trigger between.page(page)]
            between.page(page) == if before.mappings@[index].range.covers(page) {
                lookup(pieces, page)
            } else {
                before.page(page)
            },
    ensures
        pages_vanish(before, between, range),
{
    let mapping = before.mappings@[index];
    assert forall|page: int| #![trigger between.page(page)] between.page(page) == (
    if range.covers(page) {
        None
    } else {
        before.page(page)
    }) by {
        if mapping.range.covers(page) {
            assert(covered_by(before.mappings@, index, page));
            lemma_lookup(before.mappings@, index, page);
            let _ = lookup(pieces, page);
        }
    }
}

proof fn lemma_vanish_kept(
    before: PrivateMemory,
    between: PrivateMemory,
    after: PrivateMemory,
    range: PageRange,
)
    requires
        pages_vanish(before, between, range),
        forall|page: int| #![trigger after.page(page)] after.page(page) == between.page(page),
    ensures
        pages_vanish(before, after, range),
{
    assert forall|page: int| #![trigger after.page(page)] after.page(page) == (
    if range.covers(page) {
        None
    } else {
        before.page(page)
    }) by {
        let _ = between.page(page);
    }
}

fn install_unmap(
    system: &mut SystemMemory,
    memory: &mut ApplicationMemory,
    index: usize,
    range: PageRange,
    pieces: Vec<PrivateMapping>,
    removed: Vec<PageRange>,
    reserved: u64,
    committed: u64,
) -> (next: PrivateNext)
    requires
        old(memory).well_formed(),
        unmap_valid(
            *old(memory),
            index as int,
            range,
            pieces@,
            removed@,
            reserved,
            committed,
        ),
    ensures
        next.valid(*final(memory)),
        unmapped_outcome(
            (*old(system), *old(memory)),
            (*final(system), *final(memory)),
            index as int,
            range,
            reserved,
            committed,
            next,
        ),
{
    let ghost before = memory.private_memory;
    let ghost parts = pieces@;
    replace_mapping(memory, index, pieces, reserved, committed);
    let ghost between = memory.private_memory;
    proof {
        lemma_unmapped_pages(before, between, index as int, range, parts);
    }
    if removed.len() > 0 {
        return PrivateNext::Release(
            NeedRelease {
                extents: removed,
                ending: Ending::Settle { reserved, committed },
            },
        );
    }
    let booked = settle(system, memory, reserved, committed);
    proof {
        let after = memory.private_memory;
        assert forall|page: int| #![trigger after.page(page)] after.page(page) == between.page(
            page,
        ) by {}
        lemma_vanish_kept(before, between, after, range);
    }
    if booked {
        PrivateNext::Done(
            PrivateReply { payload: PrivatePayload::Empty, resources_changed: false },
        )
    } else {
        PrivateNext::Failed(PrivateFailure::Terminal)
    }
}

/// How giving up `range` starts: policy decides about the mapping cut around
/// it; what it lets through needs room for the pieces.
pub open spec fn unmap_range_begins(
    system: SystemMemory,
    memory: ApplicationMemory,
    range: PageRange,
    next: PrivateNext,
) -> bool {
    let private = memory.private_memory;
    if forall|i: int| !holder(private, range, i) {
        next == PrivateNext::Failed(PrivateFailure::Reply(ReplyStatus::NotFound))
    } else {
        exists|index: usize|
            {
                &&& #[trigger] holder(private, range, index as int)
                &&& ({
                    let mapping = private.mappings@[index as int];
                    let pieces = cut(mapping@, range, None, Seq::empty());
                    let removed = given_up(mapping@, range);
                    let reserved = private.reserved_pages - range.pages();
                    let committed = private.committed_pages - total_pages(removed);
                    match change_verdict(
                        system,
                        memory,
                        index as int,
                        pieces,
                        reserved,
                        committed,
                    ) {
                        Err(failure) => next == PrivateNext::Failed(failure),
                        Ok(()) => {
                            &&& next matches PrivateNext::Room(need)
                            &&& need.additional == if pieces.len() > 0 {
                                pieces.len() - 1
                            } else {
                                0
                            }
                            &&& need.work matches RoomFor::Unmap {
                                index: i,
                                range: g,
                                pieces: p,
                                removed: r,
                                reserved: s,
                                committed: t,
                            }
                            &&& i == index
                            &&& g == range
                            &&& models(p@) == pieces
                            &&& r@ == removed
                            &&& s == reserved
                            &&& t == committed
                            &&& need.valid(memory)
                        },
                    }
                })
            }
    }
}

fn begin_unmap(system: &SystemMemory, memory: &ApplicationMemory, range: PageRange) -> (next:
    PrivateNext)
    requires
        memory.well_formed(),
        range.well_formed(),
    ensures
        next.valid(*memory),
        unmap_range_begins(*system, *memory, range, next),
{
    let index: usize = match find_mapping(&memory.private_memory.mappings, range) {
        Some(index) => index,
        None => {
            assert forall|i: int| !holder(memory.private_memory, range, i) by {}
            return PrivateNext::Failed(PrivateFailure::Reply(ReplyStatus::NotFound));
        },
    };
    assert(holder(memory.private_memory, range, index as int));
    let ghost mapping = memory.private_memory.mappings@[index as int];
    let ghost list = memory.private_memory.mappings@;
    assert(mapping.well_formed());
    let split = split_private_mapping(&memory.private_memory.mappings[index], range, None);
    let ghost pieces = split.replacements@;
    let ghost removed = split.removed@;
    proof {
        split_changes_only_the_request(split, mapping, range, None);
        assert(is_change(pieces, mapping, range, None, Seq::empty()));
        replacement_is_local(list, index as int, pieces);
        lemma_frames_len(removed);
        lemma_frames_len(mapping.backing@);
        lemma_holder_totals(memory.private_memory, index as int);
    }
    let count: u64 = range.page_count();
    let reserved: u64 = memory.private_memory.reserved_pages - count;
    let committed: u64 = if split.removed.len() > 0 {
        memory.private_memory.committed_pages - count
    } else {
        memory.private_memory.committed_pages
    };
    let verdict = match private_replacement_metadata(
        &memory.private_memory,
        index,
        &split.replacements,
    ) {
        Some((mapping_count, metadata)) => private_policy_allows(
            system,
            memory,
            reserved,
            committed,
            mapping_count,
            metadata,
        ),
        None => Err(PrivateFailure::Terminal),
    };
    proof {
        assert(verdict == change_verdict(
            *system,
            *memory,
            index as int,
            models(pieces),
            memory.private_memory.reserved_pages - range.pages(),
            memory.private_memory.committed_pages - total_pages(removed),
        ));
    }
    match verdict {
        Err(failure) => PrivateNext::Failed(failure),
        Ok(()) => {
            proof {
                assert(unmap_valid(
                    *memory,
                    index as int,
                    range,
                    pieces,
                    removed,
                    reserved,
                    committed,
                ));
            }
            let additional: usize = if split.replacements.len() > 0 {
                split.replacements.len() - 1
            } else {
                0
            };
            let work = RoomFor::Unmap {
                index,
                range,
                pieces: split.replacements,
                removed: split.removed,
                reserved,
                committed,
            };
            PrivateNext::Room(NeedRoom { additional, work })
        },
    }
}

/// What follows an answer to a request for room.
pub open spec fn room_outcome(
    before: (SystemMemory, ApplicationMemory),
    after: (SystemMemory, ApplicationMemory),
    free_frames: u64,
    work: RoomFor,
    room: bool,
    next: PrivateNext,
) -> bool {
    let full = PrivateFailure::Reply(ReplyStatus::Exhausted);
    match work {
        RoomFor::Fresh { range, protection, zeroed } => if room {
            placed_outcome(before, after, free_frames, range, protection, zeroed, next)
        } else {
            after == before && next == PrivateNext::Failed(full)
        },
        RoomFor::Protect { change, pieces, middle, committed } => if !room {
            &&& after == before
            &&& if change.needs_backing {
                releases(next, pieces@[middle as int].backing@, Ending::Fail(full))
            } else {
                next == PrivateNext::Failed(full)
            }
        } else if change.protection != Protection::NoAccess {
            &&& after == before
            &&& next == PrivateNext::Tables(
                NeedTables {
                    range: change.range,
                    prepared: Prepared::Protect { change, pieces, middle, committed },
                },
            )
        } else {
            access_outcome(
                before,
                after,
                change,
                pieces,
                middle,
                committed,
                before.1.growth_table_frames@.len() as usize,
                next,
            )
        },
        RoomFor::Unmap { index, range, pieces, removed, reserved, committed } => if !room {
            after == before && next == PrivateNext::Failed(full)
        } else if removed@.len() > 0 && before.1.private_memory.mappings@[index as int].protection
            != Protection::NoAccess {
            &&& after == before
            &&& next matches PrivateNext::Access(access)
            &&& access.range == range
            &&& access.extents@ == removed@
            &&& access.installed
            &&& access.permissions is None
            &&& access.after == AfterAccess::Unmap { index, pieces, removed, reserved, committed }
        } else {
            unmapped_outcome(before, after, index as int, range, reserved, committed, next)
        },
    }
}

impl NeedRoom {
    /// The work is up to date with the mappings.
    pub open spec fn valid(self, memory: ApplicationMemory) -> bool {
        match self.work {
            RoomFor::Fresh { range, protection, zeroed } => is_free(memory.private_memory, range),
            RoomFor::Protect { change, pieces, middle, committed } => pieces_valid(
                memory,
                change,
                pieces@,
                middle,
                committed,
            ),
            RoomFor::Unmap { index, range, pieces, removed, reserved, committed } => unmap_valid(
                memory,
                index as int,
                range,
                pieces@,
                removed@,
                reserved,
                committed,
            ),
        }
    }

    /// Ask the allocator for the room and go on with its answer.
    pub fn ask(self, system: &mut SystemMemory, memory: &mut ApplicationMemory, free_frames: u64) -> (next:
        PrivateNext)
        requires
            old(memory).well_formed(),
            self.valid(*old(memory)),
        ensures
            next.valid(*final(memory)),
            exists|room: bool, asked: ApplicationMemory|
                {
                    &&& same_memory(*old(memory), asked)
                    &&& #[trigger] room_outcome(
                        (*old(system), asked),
                        (*final(system), *final(memory)),
                        free_frames,
                        self.work,
                        room,
                        next,
                    )
                },
    {
        let room = memory.private_memory.make_room(self.additional);
        self.answered(system, memory, free_frames, room)
    }

    /// Go on once there is room, or none.
    pub fn answered(
        self,
        system: &mut SystemMemory,
        memory: &mut ApplicationMemory,
        free_frames: u64,
        room: bool,
    ) -> (next: PrivateNext)
        requires
            old(memory).well_formed(),
            self.valid(*old(memory)),
        ensures
            next.valid(*final(memory)),
            room_outcome(
                (*old(system), *old(memory)),
                (*final(system), *final(memory)),
                free_frames,
                self.work,
                room,
                next,
            ),
    {
        let full = PrivateFailure::Reply(ReplyStatus::Exhausted);
        match self.work {
            RoomFor::Fresh { range, protection, zeroed } => {
                if !room {
                    return PrivateNext::Failed(full);
                }
                place(system, memory, free_frames, range, protection, zeroed)
            },
            RoomFor::Protect { change, pieces, middle, committed } => {
                if !room {
                    if !change.needs_backing {
                        return PrivateNext::Failed(full);
                    }
                    let mut pieces = pieces;
                    let part = pieces.remove(middle);
                    return PrivateNext::Release(
                        NeedRelease {
                            extents: part.backing,
                            ending: Ending::Fail(full),
                        },
                    );
                }
                if matches!(change.protection, Protection::NoAccess) {
                    let retained: usize = memory.growth_table_frames.len();
                    change_access(system, memory, change, pieces, middle, committed, retained)
                } else {
                    PrivateNext::Tables(
                        NeedTables {
                            range: change.range,
                            prepared: Prepared::Protect { change, pieces, middle, committed },
                        },
                    )
                }
            },
            RoomFor::Unmap { index, range, pieces, removed, reserved, committed } => {
                if !room {
                    return PrivateNext::Failed(full);
                }
                let protection = memory.private_memory.mappings[index].protection;
                if removed.len() > 0 && !matches!(protection, Protection::NoAccess) {
                    let extents = copy_extents(&removed);
                    PrivateNext::Access(
                        NeedAccess {
                            range,
                            extents,
                            installed: true,
                            permissions: None,
                            after: AfterAccess::Unmap {
                                index,
                                pieces,
                                removed,
                                reserved,
                                committed,
                            },
                        },
                    )
                } else {
                    install_unmap(
                        system,
                        memory,
                        index,
                        range,
                        pieces,
                        removed,
                        reserved,
                        committed,
                    )
                }
            },
        }
    }
}

proof fn lemma_holder_totals(private: PrivateMemory, index: int)
    requires
        private.well_formed(),
        0 <= index < private.mappings@.len(),
    ensures
        private.mappings@[index].range.pages() <= private.reserved_pages,
        private.mappings@[index].committed() <= private.committed_pages,
{
    let mappings = private.mappings@;
    let none = Seq::<PrivateMapping>::empty();
    replacement_is_local(mappings, index, none);
    let list = replaced(mappings, index, none);
    lemma_reserved_bound(
        list,
        if list.len() > 0 {
            list.last().range.past()
        } else {
            0
        },
    );
}

/// What follows a change of the page tables, or its failure.
pub open spec fn changed_outcome(
    before: (SystemMemory, ApplicationMemory),
    after: (SystemMemory, ApplicationMemory),
    need: NeedAccess,
    success: bool,
    next: PrivateNext,
) -> bool {
    let dead = next == PrivateNext::Failed(PrivateFailure::Terminal);
    match need.after {
        AfterAccess::Fresh { address } => after == before && next == if success {
            PrivateNext::Done(
                PrivateReply {
                    payload: PrivatePayload::Address(address),
                    resources_changed: true,
                },
            )
        } else {
            PrivateNext::Failed(PrivateFailure::Terminal)
        },
        AfterAccess::Protect { change, pieces, middle, committed, retained_tables } => {
            let backing = fresh_extents(change, pieces@, middle);
            if success {
                protected_outcome(before, after, change, backing, next)
            } else {
                &&& after.0 == before.0
                &&& unwound(
                    before.1,
                    after.1,
                    retained_tables,
                    backing,
                    PrivateFailure::Terminal,
                    next,
                )
            }
        },
        AfterAccess::Unmap { index, pieces, removed, reserved, committed } => {
            if success {
                unmapped_outcome(
                    before,
                    after,
                    index as int,
                    need.range,
                    reserved,
                    committed,
                    next,
                )
            } else {
                after == before && dead
            }
        },
    }
}

impl NeedAccess {
    /// The work is up to date with the mappings.
    pub open spec fn valid(self, memory: ApplicationMemory) -> bool {
        match self.after {
            AfterAccess::Fresh { address } => true,
            AfterAccess::Protect { change, pieces, middle, committed, retained_tables } => {
                &&& self.range == change.range
                &&& pieces_valid(memory, change, pieces@, middle, committed)
                &&& retained_tables <= memory.growth_table_frames@.len()
            },
            AfterAccess::Unmap { index, pieces, removed, reserved, committed } => unmap_valid(
                memory,
                index as int,
                self.range,
                pieces@,
                removed@,
                reserved,
                committed,
            ),
        }
    }

    /// Go on once the page tables changed, or failed to.
    pub fn changed(self, system: &mut SystemMemory, memory: &mut ApplicationMemory, success: bool) -> (next:
        PrivateNext)
        requires
            old(memory).well_formed(),
            self.valid(*old(memory)),
        ensures
            next.valid(*final(memory)),
            changed_outcome(
                (*old(system), *old(memory)),
                (*final(system), *final(memory)),
                self,
                success,
                next,
            ),
    {
        match self.after {
            AfterAccess::Fresh { address } => {
                if success {
                    PrivateNext::Done(
                        PrivateReply {
                            payload: PrivatePayload::Address(address),
                            resources_changed: true,
                        },
                    )
                } else {
                    PrivateNext::Failed(PrivateFailure::Terminal)
                }
            },
            AfterAccess::Protect { change, pieces, middle, committed, retained_tables } => {
                if success {
                    install_change(system, memory, change, pieces, Ghost(middle), committed)
                } else {
                    let mut extents: Vec<PageRange> = Vec::new();
                    assert(extents@ =~= Seq::<PageRange>::empty());
                    if change.needs_backing {
                        let mut pieces = pieces;
                        let part = pieces.remove(middle);
                        extents = part.backing;
                    }
                    unwind_tables(memory, retained_tables, extents, PrivateFailure::Terminal)
                }
            },
            AfterAccess::Unmap { index, pieces, removed, reserved, committed } => {
                if success {
                    install_unmap(
                        system,
                        memory,
                        index,
                        self.range,
                        pieces,
                        removed,
                        reserved,
                        committed,
                    )
                } else {
                    PrivateNext::Failed(PrivateFailure::Terminal)
                }
            },
        }
    }
}

/// How a private-memory call starts.
pub open spec fn call_begins(
    system: SystemMemory,
    memory: ApplicationMemory,
    heap_start: u64,
    free_frames: u64,
    request: PrivateRequest,
    next: PrivateNext,
) -> bool {
    let invalid = next == PrivateNext::Failed(PrivateFailure::Reply(ReplyStatus::InvalidRequest));
    match request {
        PrivateRequest::Malformed => invalid,
        PrivateRequest::Query { payload_bytes } => if payload_bytes != 0 {
            invalid
        } else {
            next == PrivateNext::Done(
                PrivateReply {
                    payload: PrivatePayload::Statistics(memory.private_memory.counters()),
                    resources_changed: false,
                },
            )
        },
        PrivateRequest::Reserve(map) => map_begins(memory, heap_start, map, false, next),
        PrivateRequest::MapZeroed(map) => map_begins(memory, heap_start, map, true, next),
        PrivateRequest::Protect { address, page_count, protection } => protect_begins(
            system,
            memory,
            free_frames,
            address,
            page_count,
            protection,
            next,
        ),
        PrivateRequest::Unmap { address, page_count } => if !PageRange::valid(
            address as int,
            page_count as int,
        ) {
            invalid
        } else {
            exists|range: PageRange|
                {
                    &&& range.well_formed()
                    &&& 4096 * range.first() == address
                    &&& range.pages() == page_count
                    &&& #[trigger] unmap_range_begins(system, memory, range, next)
                }
        },
    }
}

/// Start a private-memory call of an application whose heap starts at
/// `heap_start`, while `free_frames` frames are free.
pub fn begin_private_call(
    system: &SystemMemory,
    memory: &ApplicationMemory,
    heap_start: u64,
    free_frames: u64,
    request: PrivateRequest,
) -> (next: PrivateNext)
    requires
        memory.well_formed(),
    ensures
        next.valid(*memory),
        call_begins(*system, *memory, heap_start, free_frames, request, next),
{
    match request {
        PrivateRequest::Malformed => PrivateNext::Failed(
            PrivateFailure::Reply(ReplyStatus::InvalidRequest),
        ),
        PrivateRequest::Query { payload_bytes } => {
            if payload_bytes != 0 {
                return PrivateNext::Failed(PrivateFailure::Reply(ReplyStatus::InvalidRequest));
            }
            PrivateNext::Done(
                PrivateReply {
                    payload: PrivatePayload::Statistics(memory.private_memory.statistics()),
                    resources_changed: false,
                },
            )
        },
        PrivateRequest::Reserve(map) => begin_map(memory, heap_start, map, false),
        PrivateRequest::MapZeroed(map) => begin_map(memory, heap_start, map, true),
        PrivateRequest::Protect { address, page_count, protection } => begin_protect(
            system,
            memory,
            free_frames,
            address,
            page_count,
            protection,
        ),
        PrivateRequest::Unmap { address, page_count } => {
            match PageRange::from_pages(address, page_count) {
                Some(range) => begin_unmap(system, memory, range),
                None => PrivateNext::Failed(PrivateFailure::Reply(ReplyStatus::InvalidRequest)),
            }
        },
    }
}

/// Which step of a call comes next: the later, the lower. Whatever the answer
/// to what a call needs, it goes on with a later step, so it comes to an end.
pub open spec fn phase(next: PrivateNext) -> int {
    match next {
        PrivateNext::Draw(_) => 9,
        PrivateNext::Room(need) => room_phase(need.work),
        PrivateNext::Back(_) => 7,
        PrivateNext::Tables(_) => 5,
        PrivateNext::Access(_) => 4,
        PrivateNext::Release(need) => release_phase(need.ending),
        PrivateNext::Free(_) => 2,
        PrivateNext::Done(_) | PrivateNext::Failed(_) => 0,
    }
}

/// Which step room for mapping records is: new pages get their frames
/// afterwards, changed ones before.
pub open spec fn room_phase(work: RoomFor) -> int {
    match work {
        RoomFor::Fresh { .. } => 8,
        _ => 6,
    }
}

/// Which step the release of frames is: page-table frames may follow it, or
/// nothing.
pub open spec fn release_phase(ending: Ending) -> int {
    match ending {
        Ending::Unwind { .. } => 3,
        _ => 1,
    }
}

/// A drawn slot leads on: what follows is a later step.
pub proof fn drawn_slots_lead_on(
    draw: DrawSlot,
    range: PageRange,
    protection: Protection,
    zeroed: bool,
    next: PrivateNext,
)
    requires
        wants_record(next, range, protection, zeroed),
    ensures
        phase(next) < phase(PrivateNext::Draw(draw)),
{
}

/// Whether there is room or not, what follows is a later step.
pub proof fn answers_on_room_lead_on(
    before: (SystemMemory, ApplicationMemory),
    after: (SystemMemory, ApplicationMemory),
    free_frames: u64,
    need: NeedRoom,
    room: bool,
    next: PrivateNext,
)
    requires
        room_outcome(before, after, free_frames, need.work, room, next),
    ensures
        phase(next) < phase(PrivateNext::Room(need)),
{
}

/// New pages with their frames lead on to a later step.
pub proof fn backed_pages_lead_on(
    before: (SystemMemory, ApplicationMemory),
    after: (SystemMemory, ApplicationMemory),
    need: NeedBacking,
    range: PageRange,
    protection: Protection,
    backing: Vec<PageRange>,
    next: PrivateNext,
)
    requires
        fresh_backed(before, after, range, protection, backing, next),
    ensures
        phase(next) < phase(PrivateNext::Back(need)),
{
}

/// A change whose frames are there leads on to a later step.
pub proof fn checked_changes_lead_on(
    system: SystemMemory,
    memory: ApplicationMemory,
    need: NeedBacking,
    change: ProtectChange,
    backing: Seq<PageRange>,
    next: PrivateNext,
)
    requires
        checked_outcome(system, memory, change, backing, next),
    ensures
        phase(next) < phase(PrivateNext::Back(need)),
{
}

/// Whether there are page-table frames or not, what follows is a later step.
pub proof fn page_tables_lead_on(
    before: (SystemMemory, ApplicationMemory),
    after: (SystemMemory, ApplicationMemory),
    need: NeedTables,
    fresh: Seq<u64>,
    failure: Option<PrivateFailure>,
    next: PrivateNext,
)
    requires
        tables_outcome(before, after, need.prepared, fresh, failure, next),
    ensures
        phase(next) < phase(PrivateNext::Tables(need)),
{
}

/// Changed page tables lead on to a later step.
pub proof fn changed_access_leads_on(
    before: (SystemMemory, ApplicationMemory),
    after: (SystemMemory, ApplicationMemory),
    need: NeedAccess,
    change: ProtectChange,
    backing: Seq<PageRange>,
    next: PrivateNext,
)
    requires
        protected_outcome(before, after, change, backing, next),
    ensures
        phase(next) < phase(PrivateNext::Access(need)),
{
}

/// Hidden pages that are given up lead on to a later step.
pub proof fn hidden_pages_lead_on(
    before: (SystemMemory, ApplicationMemory),
    after: (SystemMemory, ApplicationMemory),
    need: NeedAccess,
    index: int,
    range: PageRange,
    reserved: u64,
    committed: u64,
    next: PrivateNext,
)
    requires
        unmapped_outcome(before, after, index, range, reserved, committed, next),
    ensures
        phase(next) < phase(PrivateNext::Access(need)),
{
}

/// Released frames lead on to a later step.
pub proof fn released_frames_lead_on(
    before: (SystemMemory, ApplicationMemory),
    after: (SystemMemory, ApplicationMemory),
    need: NeedRelease,
    success: bool,
    next: PrivateNext,
)
    requires
        released_outcome(before, after, need.ending, success, next),
    ensures
        phase(next) < phase(PrivateNext::Release(need)),
{
}

/// Giving page-table frames back comes to an end: what follows is a later step,
/// or one more of them goes back and fewer are left.
pub proof fn unwinding_leads_on(
    before: ApplicationMemory,
    after: ApplicationMemory,
    need: NeedFree,
    retained_tables: usize,
    extents: Seq<PageRange>,
    failure: PrivateFailure,
    next: PrivateNext,
)
    requires
        unwound(before, after, retained_tables, extents, failure, next),
    ensures
        phase(next) <= phase(PrivateNext::Free(need)),
        phase(next) == phase(PrivateNext::Free(need)) ==> after.growth_table_frames@.len()
            < before.growth_table_frames@.len(),
{
}

/// Unmapping undoes mapping: pages that were free, were mapped with frames and
/// are unmapped again are free, every other page is as before, exactly the
/// frames behind them are released, in order, the page totals of the
/// application and of the system are what they were, and no mark is lowered.
#[verifier::rlimit(60)]
pub proof fn unmapping_undoes_mapping(
    before: (SystemMemory, ApplicationMemory),
    between: (SystemMemory, ApplicationMemory),
    released: (SystemMemory, ApplicationMemory),
    after: (SystemMemory, ApplicationMemory),
    range: PageRange,
    protection: Protection,
    backing: Seq<PageRange>,
    index: int,
    pieces: Seq<PrivateMapping>,
    removed: Seq<PageRange>,
    reserved: u64,
    committed: u64,
    release: PrivateNext,
    next: PrivateNext,
)
    requires
        is_free(before.1.private_memory, range),
        shares_are_counted(before.0, before.1.private_memory),
        before.0.application_committed_pages + range.pages() <= u64::MAX,
        is_backing(backing, range),
        backing.len() > 0,
        mapped(before, between, range, protection, backing),
        unmap_valid(between.1, index, range, pieces, removed, reserved, committed),
        unmapped_outcome(between, released, index, range, reserved, committed, release),
        released_outcome(
            released,
            after,
            Ending::Settle { reserved, committed },
            true,
            next,
        ),
        next is Done,
    ensures
        releases(release, removed, Ending::Settle { reserved, committed }),
        frames(removed) == frames(backing),
        forall|page: int|
            #![trigger after.1.private_memory.page(page)]
            after.1.private_memory.page(page) == before.1.private_memory.page(page),
        after.1.private_memory.reserved_pages == before.1.private_memory.reserved_pages,
        after.1.private_memory.committed_pages == before.1.private_memory.committed_pages,
        after.0.application_committed_pages == before.0.application_committed_pages,
        after.1.private_memory.high_water_reserved_pages
            >= before.1.private_memory.high_water_reserved_pages,
        after.1.private_memory.high_water_committed_pages
            >= before.1.private_memory.high_water_committed_pages,
        after.1.private_memory.high_water_mappings
            >= before.1.private_memory.high_water_mappings,
        after.1.private_memory.high_water_metadata_bytes
            >= before.1.private_memory.high_water_metadata_bytes,
{
    let first = before.1.private_memory;
    let middle = between.1.private_memory;
    let last = after.1.private_memory;
    lemma_removed_frames(first, middle, range, protection, backing, index, removed);
    lemma_pages_come_back(
        first,
        middle,
        released.1.private_memory,
        last,
        range,
        protection,
        backing,
    );
    lemma_frames_len(backing);
    lemma_frames_len(removed);
}

/// The frames behind pages that were mapped as one are those that they were
/// mapped with.
pub(crate) proof fn lemma_removed_frames(
    before: PrivateMemory,
    after: PrivateMemory,
    range: PageRange,
    protection: Protection,
    backing: Seq<PageRange>,
    index: int,
    removed: Seq<PageRange>,
)
    requires
        after.well_formed(),
        range.well_formed(),
        is_backing(backing, range),
        backing.len() > 0,
        pages_become(before, after, range, protection, backing),
        holder(after, range, index),
        all_well_formed(removed),
        frames(removed) == if after.mappings@[index].backed() {
            after.mappings@[index].frames().subrange(
                range.first() - after.mappings@[index].range.first(),
                range.past() - after.mappings@[index].range.first(),
            )
        } else {
            Seq::empty()
        },
    ensures
        frames(removed) == frames(backing),
        removed.len() > 0,
{
    let mapping = after.mappings@[index];
    lemma_frames_len(backing);
    lemma_frames_len(removed);
    assert(mapping.well_formed());
    lemma_frames_len(mapping.backing@);
    assert forall|page: int| range.covers(page) implies mapping.backed() && mapping.frames()[page
        - mapping.range.first()] == frames(backing)[page - range.first()] by {
        assert(covered_by(after.mappings@, index, page));
        lemma_lookup(after.mappings@, index, page);
        assert(after.page(page) == Some(mapping.entry(page)));
    }
    assert(range.covers(range.first()));
    assert forall|k: int| 0 <= k < frames(backing).len() implies frames(removed)[k] == frames(
        backing,
    )[k] by {
        assert(range.covers(range.first() + k));
    }
    assert(frames(removed) =~= frames(backing));
}

/// Pages that were free, became mapped and vanished are as they were.
proof fn lemma_pages_come_back(
    before: PrivateMemory,
    between: PrivateMemory,
    released: PrivateMemory,
    after: PrivateMemory,
    range: PageRange,
    protection: Protection,
    backing: Seq<PageRange>,
)
    requires
        is_free(before, range),
        pages_become(before, between, range, protection, backing),
        pages_vanish(between, released, range),
        forall|page: int| #![trigger after.page(page)] after.page(page) == released.page(page),
    ensures
        forall|page: int| #![trigger after.page(page)] after.page(page) == before.page(page),
{
    lemma_free_pages(before, range);
    assert forall|page: int| #![trigger after.page(page)] after.page(page) == before.page(page) by {
        assert(released.page(page) == after.page(page));
        assert(between.page(page) == between.page(page));
    }
}

/// A request that says nothing sensible is invalid, one for pages that are not in
/// one mapping finds nothing, and a query reports the counters.
pub proof fn requests_are_refused_for_their_reason(
    system: SystemMemory,
    memory: ApplicationMemory,
    heap_start: u64,
    free_frames: u64,
    request: PrivateRequest,
    next: PrivateNext,
)
    requires
        call_begins(system, memory, heap_start, free_frames, request, next),
    ensures
        ({
            let invalid = next == PrivateNext::Failed(
                PrivateFailure::Reply(ReplyStatus::InvalidRequest),
            );
            let mappings = memory.private_memory.mappings@;
            match request {
                PrivateRequest::Malformed => invalid,
                PrivateRequest::Query { payload_bytes } => {
                    &&& payload_bytes > 0 <==> invalid
                    &&& payload_bytes == 0 ==> next == PrivateNext::Done(
                        PrivateReply {
                            payload: PrivatePayload::Statistics(memory.private_memory.counters()),
                            resources_changed: false,
                        },
                    )
                },
                PrivateRequest::Reserve(map) => map.placement.page_count == 0 || map.protection
                    == Protection::Read || map.protection == Protection::ReadWrite ==> invalid,
                PrivateRequest::MapZeroed(map) => map.placement.page_count == 0 ==> invalid,
                PrivateRequest::Protect { address, page_count, .. }
                | PrivateRequest::Unmap { address, page_count } => {
                    let sensible = address % 4096 == 0 && page_count > 0 && address + 4096
                        * page_count <= u64::MAX;
                    let held = exists|i: int|
                        0 <= i < mappings.len() && 4096 * (
                        #[trigger] mappings[i]).range.first() <= address && address + 4096
                            * page_count <= 4096 * mappings[i].range.past();
                    &&& !sensible ==> invalid
                    &&& sensible && !held ==> next == PrivateNext::Failed(
                        PrivateFailure::Reply(ReplyStatus::NotFound),
                    )
                    &&& sensible && held ==> next != PrivateNext::Failed(
                        PrivateFailure::Reply(ReplyStatus::NotFound),
                    )
                },
            }
        }),
{
    let mappings = memory.private_memory.mappings@;
    match request {
        PrivateRequest::Protect { address, page_count, protection } => {
            if PageRange::valid(address as int, page_count as int) {
                let range = choose|range: PageRange|
                    {
                        &&& range.well_formed()
                        &&& 4096 * range.first() == address
                        &&& range.pages() == page_count
                        &&& #[trigger] protect_range_begins(
                            system,
                            memory,
                            free_frames,
                            range,
                            protection,
                            next,
                        )
                    };
                lemma_held_where_some_mapping_has_it(memory.private_memory, range);
            }
        },
        PrivateRequest::Unmap { address, page_count } => {
            if PageRange::valid(address as int, page_count as int) {
                let range = choose|range: PageRange|
                    {
                        &&& range.well_formed()
                        &&& 4096 * range.first() == address
                        &&& range.pages() == page_count
                        &&& #[trigger] unmap_range_begins(system, memory, range, next)
                    };
                lemma_held_where_some_mapping_has_it(memory.private_memory, range);
            }
        },
        _ => {},
    }
}

proof fn lemma_held_where_some_mapping_has_it(private: PrivateMemory, range: PageRange)
    ensures
        (exists|i: int| holder(private, range, i)) <==> exists|i: int|
            0 <= i < private.mappings@.len() && 4096 * (
            #[trigger] private.mappings@[i]).range.first() <= 4096 * range.first() && 4096
                * range.first() + 4096 * range.pages() <= 4096 * private.mappings@[i].range.past(),
{
    if exists|i: int| holder(private, range, i) {
        let i = choose|i: int| holder(private, range, i);
        assert(private.mappings@[i].range.includes(range));
    }
    if exists|i: int|
        0 <= i < private.mappings@.len() && 4096 * (#[trigger] private.mappings@[i]).range.first()
            <= 4096 * range.first() && 4096 * range.first() + 4096 * range.pages() <= 4096
            * private.mappings@[i].range.past() {
        let i = choose|i: int|
            0 <= i < private.mappings@.len() && 4096 * (
            #[trigger] private.mappings@[i]).range.first() <= 4096 * range.first() && 4096
                * range.first() + 4096 * range.pages() <= 4096 * private.mappings@[i].range.past();
        assert(holder(private, range, i));
    }
}

/// New pages are placed above the heap: where the hint fits, at the hint, and
/// otherwise in one of the slots between the end of the heap and that of the
/// arena. A request that cannot be counted in bytes overflows, and one without a
/// slot is refused as exhausted.
pub proof fn mappings_are_placed_above_the_heap(
    memory: ApplicationMemory,
    heap_start: u64,
    request: MapRequest,
    zeroed: bool,
    next: PrivateNext,
)
    requires
        memory.well_formed(),
        map_begins(memory, heap_start, request, zeroed, next),
        request.placement.page_count > 0,
        zeroed || request.protection == Protection::NoAccess,
        memory.heap_end(heap_start as int) <= u64::MAX,
    ensures
        4096 * request.placement.page_count > u64::MAX || 4096 * request.placement.alignment_pages
            > u64::MAX ==> next == PrivateNext::Failed(PrivateFailure::Reply(ReplyStatus::Overflow)),
        (next matches PrivateNext::Draw(draw) ==> {
            &&& draw.floor == memory.heap_end(heap_start as int)
            &&& draw.request == request
            &&& draw.zeroed == zeroed
            &&& draw.slots > 0
            &&& draw.slots == all_slots(
                memory.private_memory.mappings@,
                memory.heap_end(heap_start as int),
                memory.private_memory.arena_end as int,
                4096 * request.placement.page_count,
                4096 * request.placement.alignment_pages,
            )
        }),
        (next matches PrivateNext::Room(need) ==> {
            &&& need.additional == 1
            &&& need.work matches RoomFor::Fresh { range, protection, zeroed: filled }
            &&& 4096 * range.first() == request.placement.address_hint
            &&& range.pages() == request.placement.page_count
            &&& protection == request.protection
            &&& filled == zeroed
        }),
        next is Draw || next is Room || next is Failed,
{
    crate::memory::extents::lemma_frames_len(memory.growth_ranges@);
    if 0 < 4096 * request.placement.alignment_pages {
        let mappings = memory.private_memory.mappings@;
        lemma_slots_monotone(
            mappings,
            memory.heap_end(heap_start as int),
            memory.private_memory.arena_end as int,
            4096 * request.placement.page_count,
            4096 * request.placement.alignment_pages,
            0,
            mappings.len() as int + 1,
        );
    } else {
        reveal(is_pow2);
    }
}

/// Frames are asked for only where enough are free above their minimum, and as
/// many as there are pages; otherwise the request is refused as exhausted.
pub proof fn zeroed_mappings_need_free_frames(
    before: (SystemMemory, ApplicationMemory),
    after: (SystemMemory, ApplicationMemory),
    free_frames: u64,
    range: PageRange,
    protection: Protection,
    next: PrivateNext,
)
    requires
        placed_outcome(before, after, free_frames, range, protection, true, next),
        range.well_formed(),
    ensures
        after == before,
        range.pages() + before.0.minimum_free_pages <= free_frames ==> (next matches
            PrivateNext::Back(need) && need.pages == range.pages() && need.job == (Job::Fresh {
            range,
            protection,
        })),
        range.pages() + before.0.minimum_free_pages > free_frames ==> next == PrivateNext::Failed(
            PrivateFailure::Reply(ReplyStatus::Exhausted),
        ),
{
}

/// Pages can be read where they may be read, and written where they may be
/// written, and pages that are to be hidden are not mapped at all.
pub proof fn access_follows_the_protection(
    before: (SystemMemory, ApplicationMemory),
    after: (SystemMemory, ApplicationMemory),
    change: ProtectChange,
    pieces: Vec<PrivateMapping>,
    middle: usize,
    committed: u64,
    retained_tables: usize,
    next: PrivateNext,
)
    requires
        access_outcome(
            before,
            after,
            change,
            pieces,
            middle,
            committed,
            retained_tables,
            next,
        ),
        pieces@[middle as int].backing@.len() > 0,
    ensures
        (next matches PrivateNext::Access(access) && {
            &&& access.range == change.range
            &&& access.extents@ == pieces@[middle as int].backing@
            &&& access.installed == change.installed
            &&& change.protection == Protection::NoAccess ==> access.permissions is None
            &&& change.protection == Protection::Read ==> access.permissions == Some(
                Permissions::ReadOnly,
            )
            &&& change.protection == Protection::ReadWrite ==> access.permissions == Some(
                Permissions::ReadWrite,
            )
        }),
{
}

/// Fresh pages are mapped with their own frames and the access that was asked
/// for, once tables for them are there; without tables their frames are given
/// back and the failure is reported.
pub proof fn fresh_pages_are_mapped_with_their_frames(
    before: (SystemMemory, ApplicationMemory),
    after: (SystemMemory, ApplicationMemory),
    range: PageRange,
    protection: Protection,
    backing: Vec<PageRange>,
    fresh: Seq<u64>,
    failure: PrivateFailure,
    next: PrivateNext,
)
    requires
        range.well_formed(),
    ensures
        tables_outcome(
            before,
            after,
            Prepared::Fresh { range, protection, backing },
            fresh,
            None,
            next,
        ) ==> {
            &&& after.1.growth_table_frames@ == before.1.growth_table_frames@ + fresh
            &&& (next matches PrivateNext::Access(access) ==> {
                &&& access.range == range
                &&& access.extents@ == backing@
                &&& !access.installed
                &&& access.after matches AfterAccess::Fresh { address }
                &&& address == 4096 * range.first()
                &&& protection == Protection::Read ==> access.permissions == Some(
                    Permissions::ReadOnly,
                )
                &&& protection == Protection::ReadWrite ==> access.permissions == Some(
                    Permissions::ReadWrite,
                )
            })
            &&& (next matches PrivateNext::Release(need) ==> need.extents@ == backing@)
            &&& next is Access || next is Release
        },
        tables_outcome(
            before,
            after,
            Prepared::Fresh { range, protection, backing },
            fresh,
            Some(failure),
            next,
        ) ==> (next matches PrivateNext::Release(need) && need.extents@ == backing@ && need.ending
            == Ending::Fail(failure)) && after.0 == before.0,
{
}

/// Tables that a failed call took are freed, the last first, down to those that
/// were there before; then its frames are given back, and then it fails.
pub proof fn unwinding_frees_what_was_taken(
    before: ApplicationMemory,
    after: ApplicationMemory,
    retained_tables: usize,
    extents: Seq<PageRange>,
    failure: PrivateFailure,
    next: PrivateNext,
)
    requires
        unwound(before, after, retained_tables, extents, failure, next),
    ensures
        ({
            let n = before.growth_table_frames@.len() as int;
            &&& n > retained_tables ==> (next matches PrivateNext::Free(need) && need.frame
                == before.growth_table_frames@[n - 1] && need.extents@ == extents && need.failure
                == failure && need.retained_tables == retained_tables) && n
                == after.growth_table_frames@.len() + 1 && after.private_memory
                == before.private_memory
            &&& n <= retained_tables && extents.len() > 0 ==> after == before && (next matches
                PrivateNext::Release(need) && need.extents@ == extents && need.ending
                == Ending::Fail(failure))
            &&& n <= retained_tables && extents.len() == 0 ==> after == before && next
                == PrivateNext::Failed(failure)
        }),
{
}

/// Mapped pages are hidden before their frames are given back, and frames that
/// cannot be hidden are not.
pub proof fn unmapped_pages_are_hidden_first(
    before: (SystemMemory, ApplicationMemory),
    after: (SystemMemory, ApplicationMemory),
    free_frames: u64,
    index: usize,
    range: PageRange,
    pieces: Vec<PrivateMapping>,
    removed: Vec<PageRange>,
    reserved: u64,
    committed: u64,
    next: PrivateNext,
)
    requires
        room_outcome(
            before,
            after,
            free_frames,
            RoomFor::Unmap { index, range, pieces, removed, reserved, committed },
            true,
            next,
        ),
        removed@.len() > 0,
        before.1.private_memory.mappings@[index as int].protection == Protection::Read
            || before.1.private_memory.mappings@[index as int].protection == Protection::ReadWrite,
    ensures
        (next matches PrivateNext::Access(access) && access.permissions is None && access.installed
            && access.range == range && access.extents@ == removed@),
        after == before,
        (next matches PrivateNext::Access(access) ==> forall|later: PrivateNext|
            #[trigger] changed_outcome(before, after, access, false, later) ==> later
                == PrivateNext::Failed(PrivateFailure::Terminal)),
{
}

/// A call without room for its records, or without frames, is refused as
/// exhausted and changes nothing.
pub proof fn calls_without_room_are_exhausted(
    before: (SystemMemory, ApplicationMemory),
    after: (SystemMemory, ApplicationMemory),
    free_frames: u64,
    work: RoomFor,
    next: PrivateNext,
)
    requires
        room_outcome(before, after, free_frames, work, false, next),
    ensures
        after == before,
        next == PrivateNext::Failed(PrivateFailure::Reply(ReplyStatus::Exhausted)) || (work matches
            RoomFor::Protect { change, pieces, middle, .. } && change.needs_backing && (next matches
            PrivateNext::Release(need) && need.extents@ == pieces@[middle as int].backing@
            && need.ending == Ending::Fail(PrivateFailure::Reply(ReplyStatus::Exhausted)))),
{
}

/// What was done is reported unless the reply cannot be encoded, which ends the
/// process, or the buffer for it cannot be had, which exhausts the call.
pub proof fn replies_are_reported(payload: PrivatePayload)
    ensures
        reported(payload, None) == Ok::<PrivatePayload, PrivateFailure>(payload),
        reported(payload, Some(ReplyTrouble::NotEncoded)) == Err::<PrivatePayload, PrivateFailure>(
            PrivateFailure::Terminal,
        ),
        reported(payload, Some(ReplyTrouble::NotOwned)) == Err::<PrivatePayload, PrivateFailure>(
            PrivateFailure::Reply(ReplyStatus::Exhausted),
        ),
{
}

} // verus!
