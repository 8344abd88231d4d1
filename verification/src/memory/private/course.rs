//! The course of whole private-memory calls, from the request to the reply.

use crate::memory::extents::{lemma_frames_len, total_pages};
use crate::memory::pages::{lemma_range_identity, PageRange};
use crate::memory::private::call::{
    answers_on_room_lead_on, available_frames, backed_outcome, backed_pages_lead_on, backs, call_begins,
    change_valid, changed_access_leads_on, changed_outcome, checked_changes_lead_on,
    checked_outcome, committed_after, drawn_outcome, fresh_backed,
    fresh_extents, freed_outcome, hidden_pages_lead_on, holder, installed_with_tables, lemma_free_pages, lemma_removed_frames,
    map_begins, mapped, page_tables_lead_on, pages_vanish, phase, protect_range_begins, protected_outcome, placed_outcome, released_frames_lead_on, reserved_outcome,
    released_outcome, releases, room_outcome, tables_outcome, unmap_range_begins, unmap_valid,
    unmapped_outcome, unmapping_undoes_mapping, wants_record, with_tables, AfterAccess, DrawSlot, Ending, Job,
    MapRequest, NeedAccess, NeedBacking, NeedFree, NeedRelease, NeedRoom, NeedTables, Prepared,
    PrivateNext, PrivatePayload, PrivateReply, PrivateRequest, ProtectChange,
    RoomFor,
};
use crate::memory::private::commit::{
    allowed_changes_respect_every_limit, allowed_mappings_respect_every_limit, change_verdict, is_backing, is_free, map_verdict};
use crate::memory::private::edit::cut;
use crate::memory::private::mapping::{covered_by, lemma_lookup, ordered, PrivateMapping, Protection};
use crate::memory::private::space::{
    ApplicationMemory, PrivateFailure, PrivateMemory, SystemMemory,
};
use crate::reply::ReplyStatus;
use vstd::prelude::*;

verus! {

/// A call between two steps.
pub struct Moment {
    /// The books of the system and the application's memory.
    pub books: (SystemMemory, ApplicationMemory),
    /// Where the call stands.
    pub next: PrivateNext,
}

/// A call that stands here with these books.
pub open spec fn moment(
    system: SystemMemory,
    memory: ApplicationMemory,
    next: PrivateNext,
) -> Moment {
    Moment { books: (system, memory), next }
}

/// The same memory, with room for more mapping records or without.
pub open spec fn same_memory(before: ApplicationMemory, after: ApplicationMemory) -> bool {
    &&& after.private_memory.mappings@ == before.private_memory.mappings@
    &&& after.private_memory.same_books(before.private_memory)
    &&& after == (ApplicationMemory { private_memory: after.private_memory, ..before })
}

/// One step of a call, whatever the answer to what it stopped for.
pub open spec fn goes_on(from: Moment, to: Moment) -> bool {
    let before = from.books;
    let after = to.books;
    &&& to.next.valid(after.1)
    &&& match from.next {
        PrivateNext::Draw(draw) => {
            &&& after == before
            &&& exists|drawn: Option<u64>|
                {
                    &&& drawn matches Some(selected) ==> selected < draw.slots
                    &&& #[trigger] drawn_outcome(before.1, draw, drawn, to.next)
                }
        },
        PrivateNext::Room(need) => exists|asked: ApplicationMemory, free_frames: u64, room: bool|
            {
                &&& same_memory(before.1, asked)
                &&& #[trigger] room_outcome(
                    (before.0, asked),
                    after,
                    free_frames,
                    need.work,
                    room,
                    to.next,
                )
            },
        PrivateNext::Back(need) => exists|result: Result<Vec<PageRange>, PrivateFailure>|
            {
                &&& backs(need.job, result)
                &&& #[trigger] backed_outcome(before, after, need.job, result, to.next)
            },
        PrivateNext::Tables(need) => exists|fresh: Seq<u64>, failure: Option<PrivateFailure>|
            tables_outcome(before, after, need.prepared, fresh, failure, to.next),
        PrivateNext::Access(need) => exists|success: bool|
            changed_outcome(before, after, need, success, to.next),
        PrivateNext::Release(need) => exists|success: bool|
            released_outcome(before, after, need.ending, success, to.next),
        PrivateNext::Free(need) => {
            &&& after.0 == before.0
            &&& exists|success: bool| freed_outcome(before.1, after.1, need, success, to.next)
        },
        PrivateNext::Done(_) | PrivateNext::Failed(_) => false,
    }
}

/// A drawn slot, or none, is a step.
pub proof fn drawing_is_a_step(
    system: SystemMemory,
    memory: ApplicationMemory,
    draw: DrawSlot,
    drawn: Option<u64>,
    next: PrivateNext,
)
    requires
        next.valid(memory),
        drawn matches Some(selected) ==> selected < draw.slots,
        drawn_outcome(memory, draw, drawn, next),
    ensures
        goes_on(
            moment(system, memory, PrivateNext::Draw(draw)),
            moment(system, memory, next),
        ),
{
    let from = moment(system, memory, PrivateNext::Draw(draw));
    let to = moment(system, memory, next);
    assert(drawn_outcome(from.books.1, draw, drawn, to.next));
}

/// An answer on room is a step.
pub proof fn answering_is_a_step(
    before: (SystemMemory, ApplicationMemory),
    after: (SystemMemory, ApplicationMemory),
    asked: ApplicationMemory,
    need: NeedRoom,
    free_frames: u64,
    room: bool,
    next: PrivateNext,
)
    requires
        next.valid(after.1),
        same_memory(before.1, asked),
        room_outcome((before.0, asked), after, free_frames, need.work, room, next),
    ensures
        goes_on(
            moment(before.0, before.1, PrivateNext::Room(need)),
            moment(after.0, after.1, next),
        ),
{
    let from = moment(before.0, before.1, PrivateNext::Room(need));
    let to = moment(after.0, after.1, next);
    assert(after == to.books);
    assert(room_outcome((from.books.0, asked), to.books, free_frames, need.work, room, to.next));
}

/// Frames for a job, or a reason why there are none, are a step.
pub proof fn backing_is_a_step(
    before: (SystemMemory, ApplicationMemory),
    after: (SystemMemory, ApplicationMemory),
    need: NeedBacking,
    result: Result<Vec<PageRange>, PrivateFailure>,
    next: PrivateNext,
)
    requires
        next.valid(after.1),
        backs(need.job, result),
        backed_outcome(before, after, need.job, result, next),
    ensures
        goes_on(
            moment(before.0, before.1, PrivateNext::Back(need)),
            moment(after.0, after.1, next),
        ),
{
    let from = moment(before.0, before.1, PrivateNext::Back(need));
    let to = moment(after.0, after.1, next);
    assert(before == from.books && after == to.books);
    assert(backed_outcome(from.books, to.books, need.job, result, to.next));
}

/// Page-table frames, or a reason why there are none, are a step.
pub proof fn taking_tables_is_a_step(
    before: (SystemMemory, ApplicationMemory),
    after: (SystemMemory, ApplicationMemory),
    need: NeedTables,
    fresh: Seq<u64>,
    failure: Option<PrivateFailure>,
    next: PrivateNext,
)
    requires
        next.valid(after.1),
        tables_outcome(before, after, need.prepared, fresh, failure, next),
    ensures
        goes_on(
            moment(before.0, before.1, PrivateNext::Tables(need)),
            moment(after.0, after.1, next),
        ),
{
    let from = moment(before.0, before.1, PrivateNext::Tables(need));
    let to = moment(after.0, after.1, next);
    assert(before == from.books && after == to.books);
    assert(tables_outcome(from.books, to.books, need.prepared, fresh, failure, to.next));
}

/// A change of the page tables, or its failure, is a step.
pub proof fn changing_access_is_a_step(
    before: (SystemMemory, ApplicationMemory),
    after: (SystemMemory, ApplicationMemory),
    need: NeedAccess,
    success: bool,
    next: PrivateNext,
)
    requires
        next.valid(after.1),
        changed_outcome(before, after, need, success, next),
    ensures
        goes_on(
            moment(before.0, before.1, PrivateNext::Access(need)),
            moment(after.0, after.1, next),
        ),
{
    let from = moment(before.0, before.1, PrivateNext::Access(need));
    let to = moment(after.0, after.1, next);
    assert(before == from.books && after == to.books);
    assert(changed_outcome(from.books, to.books, need, success, to.next));
}

/// The release of frames, or its failure, is a step.
pub proof fn releasing_is_a_step(
    before: (SystemMemory, ApplicationMemory),
    after: (SystemMemory, ApplicationMemory),
    need: NeedRelease,
    success: bool,
    next: PrivateNext,
)
    requires
        next.valid(after.1),
        released_outcome(before, after, need.ending, success, next),
    ensures
        goes_on(
            moment(before.0, before.1, PrivateNext::Release(need)),
            moment(after.0, after.1, next),
        ),
{
    let from = moment(before.0, before.1, PrivateNext::Release(need));
    let to = moment(after.0, after.1, next);
    assert(before == from.books && after == to.books);
    assert(released_outcome(from.books, to.books, need.ending, success, to.next));
}

/// A page-table frame that goes back, or does not, is a step.
pub proof fn freeing_is_a_step(
    system: SystemMemory,
    before: ApplicationMemory,
    after: ApplicationMemory,
    need: NeedFree,
    success: bool,
    next: PrivateNext,
)
    requires
        next.valid(after),
        freed_outcome(before, after, need, success, next),
    ensures
        goes_on(
            moment(system, before, PrivateNext::Free(need)),
            moment(system, after, next),
        ),
{
    let from = moment(system, before, PrivateNext::Free(need));
    let to = moment(system, after, next);
    assert(freed_outcome(from.books.1, to.books.1, need, success, to.next));
}

/// The moments of a call from its beginning on.
pub open spec fn is_course(
    heap_start: u64,
    free_frames: u64,
    request: PrivateRequest,
    course: Seq<Moment>,
) -> bool {
    &&& course.len() > 0
    &&& course[0].books.1.well_formed()
    &&& course[0].next.valid(course[0].books.1)
    &&& call_begins(
        course[0].books.0,
        course[0].books.1,
        heap_start,
        free_frames,
        request,
        course[0].next,
    )
    &&& forall|i: int, j: int|
        0 <= i && j == i + 1 && j < course.len() ==> goes_on(
            #[trigger] course[i],
            #[trigger] course[j],
        )
}

/// Calls come to an end: whatever the answer, a step leads to a later one, or one
/// more page-table frame goes back and fewer are left.
pub proof fn every_step_leads_on(from: Moment, to: Moment)
    requires
        goes_on(from, to),
    ensures
        phase(to.next) < phase(from.next) || (from.next is Free && to.next is Free
            && to.books.1.growth_table_frames@.len() < from.books.1.growth_table_frames@.len()),
{
    let before = from.books;
    let after = to.books;
    let next = to.next;
    match from.next {
        PrivateNext::Draw(draw) => {
            let drawn = choose|drawn: Option<u64>|
                {
                    &&& drawn matches Some(selected) ==> selected < draw.slots
                    &&& #[trigger] drawn_outcome(before.1, draw, drawn, next)
                };
            assert(drawn_outcome(before.1, draw, drawn, next));
        },
        PrivateNext::Room(need) => {
            let (asked, free_frames, room) = choose|
                asked: ApplicationMemory,
                free_frames: u64,
                room: bool,
            |
                {
                    &&& same_memory(before.1, asked)
                    &&& #[trigger] room_outcome(
                        (before.0, asked),
                        after,
                        free_frames,
                        need.work,
                        room,
                        next,
                    )
                };
            answers_on_room_lead_on((before.0, asked), after, free_frames, need, room, next);
        },
        PrivateNext::Back(need) => {
            let result = choose|result: Result<Vec<PageRange>, PrivateFailure>|
                {
                    &&& backs(need.job, result)
                    &&& #[trigger] backed_outcome(before, after, need.job, result, next)
                };
            match (need.job, result) {
                (Job::Fresh { range, protection }, Ok(backing)) => {
                    backed_pages_lead_on(before, after, need, range, protection, backing, next);
                },
                (Job::Protect(change), Ok(backing)) => {
                    checked_changes_lead_on(before.0, before.1, need, change, backing@, next);
                },
                _ => {},
            }
        },
        PrivateNext::Tables(need) => {
            let (fresh, failure) = choose|fresh: Seq<u64>, failure: Option<PrivateFailure>|
                tables_outcome(before, after, need.prepared, fresh, failure, next);
            page_tables_lead_on(before, after, need, fresh, failure, next);
        },
        PrivateNext::Access(need) => {
            let success = choose|success: bool|
                changed_outcome(before, after, need, success, next);
            match need.after {
                AfterAccess::Protect { change, pieces, middle, .. } if success => {
                    let backing = fresh_extents(change, pieces@, middle);
                    changed_access_leads_on(before, after, need, change, backing, next);
                },
                AfterAccess::Unmap { index, reserved, committed, .. } if success => {
                    hidden_pages_lead_on(
                        before,
                        after,
                        need,
                        index as int,
                        need.range,
                        reserved,
                        committed,
                        next,
                    );
                },
                _ => {},
            }
        },
        PrivateNext::Release(need) => {
            let success = choose|success: bool|
                released_outcome(before, after, need.ending, success, next);
            released_frames_lead_on(before, after, need, success, next);
        },
        PrivateNext::Free(need) => {
            let success = choose|success: bool|
                freed_outcome(before.1, after.1, need, success, next);
            assert(freed_outcome(before.1, after.1, need, success, next));
        },
        _ => {},
    }
}

/// A call that can only fail any more.
pub open spec fn is_failing(next: PrivateNext) -> bool {
    match next {
        PrivateNext::Failed(_) | PrivateNext::Free(_) => true,
        PrivateNext::Release(need) => !(need.ending is Settle),
        _ => false,
    }
}

proof fn lemma_failing_goes_on(from: Moment, to: Moment)
    requires
        goes_on(from, to),
        is_failing(from.next),
    ensures
        is_failing(to.next),
{
    match from.next {
        PrivateNext::Release(need) => {
            let success = choose|success: bool|
                released_outcome(from.books, to.books, need.ending, success, to.next);
        },
        PrivateNext::Free(need) => {
            let success = choose|success: bool|
                freed_outcome(from.books.1, to.books.1, need, success, to.next);
        },
        _ => {},
    }
}

/// A failing call does not succeed.
pub proof fn failing_calls_fail(
    heap_start: u64,
    free_frames: u64,
    request: PrivateRequest,
    course: Seq<Moment>,
    at: int,
)
    requires
        is_course(heap_start, free_frames, request, course),
        0 <= at < course.len(),
        is_failing(course[at].next),
    ensures
        is_failing(course.last().next),
    decreases course.len() - at,
{
    if at + 1 < course.len() {
        lemma_failing_goes_on(course[at], course[at + 1]);
        failing_calls_fail(heap_start, free_frames, request, course, at + 1);
    }
}

/// A call that is not done has another moment, and one that succeeds in the end
/// is not failing there.
proof fn lemma_step(
    heap_start: u64,
    free_frames: u64,
    request: PrivateRequest,
    course: Seq<Moment>,
    at: int,
)
    requires
        is_course(heap_start, free_frames, request, course),
        course.last().next is Done,
        0 <= at < course.len(),
    ensures
        !is_failing(course[at].next),
        course[at].next is Done ==> at == course.len() - 1,
        !(course[at].next is Done) ==> at + 1 < course.len() && goes_on(
            course[at],
            course[at + 1],
        ),
{
    if is_failing(course[at].next) {
        failing_calls_fail(heap_start, free_frames, request, course, at);
    }
    if at + 1 < course.len() {
        assert(goes_on(course[at], course[at + 1]));
    }
}

/// New pages are mapped with frames, and their address is reported.
pub open spec fn maps(
    before: (SystemMemory, ApplicationMemory),
    after: (SystemMemory, ApplicationMemory),
    range: PageRange,
    protection: Protection,
    backing: Seq<PageRange>,
    next: PrivateNext,
) -> bool {
    &&& is_free(before.1.private_memory, range)
    &&& is_backing(backing, range)
    &&& backing.len() > 0
    &&& map_verdict(before.0, before.1, range, backing) == Ok::<(), PrivateFailure>(())
    &&& mapped(before, after, range, protection, backing)
    &&& next == PrivateNext::Done(
        PrivateReply {
            payload: PrivatePayload::Address((4096 * range.first()) as u64),
            resources_changed: true,
        },
    )
}

proof fn lemma_tables_then_done(
    heap_start: u64,
    free_frames: u64,
    request: PrivateRequest,
    course: Seq<Moment>,
    at: int,
    range: PageRange,
    protection: Protection,
    backing: Vec<PageRange>,
)
    requires
        is_course(heap_start, free_frames, request, course),
        course.last().next is Done,
        0 <= at < course.len(),
        course[at].next.valid(course[at].books.1),
        course[at].next == PrivateNext::Tables(
            NeedTables { range, prepared: Prepared::Fresh { range, protection, backing } },
        ),
    ensures
        maps(
            course[at].books,
            course.last().books,
            range,
            protection,
            backing@,
            course.last().next,
        ),
{
    lemma_step(heap_start, free_frames, request, course, at);
    let from = course[at];
    let to = course[at + 1];
    let prepared = Prepared::Fresh { range, protection, backing };
    let (fresh, failure) = choose|fresh: Seq<u64>, failure: Option<PrivateFailure>|
        tables_outcome(from.books, to.books, prepared, fresh, failure, to.next);
    assert(tables_outcome(from.books, to.books, prepared, fresh, failure, to.next));
    lemma_step(heap_start, free_frames, request, course, at + 1);
    let last = course[at + 2];
    match to.next {
        PrivateNext::Access(need) => {
            let success = choose|success: bool|
                changed_outcome(to.books, last.books, need, success, last.next);
            assert(changed_outcome(to.books, last.books, need, success, last.next));
        },
        _ => {},
    }
    lemma_step(heap_start, free_frames, request, course, at + 2);
}

proof fn lemma_frames_then_done(
    heap_start: u64,
    free_frames: u64,
    request: PrivateRequest,
    course: Seq<Moment>,
    at: int,
    range: PageRange,
    protection: Protection,
)
    requires
        is_course(heap_start, free_frames, request, course),
        course.last().next is Done,
        0 <= at < course.len(),
        course[at].next.valid(course[at].books.1),
        course[at].next matches PrivateNext::Back(need) && need.job == (Job::Fresh {
            range,
            protection,
        }),
    ensures
        exists|backing: Seq<PageRange>| #[trigger]
            maps(
                course[at].books,
                course.last().books,
                range,
                protection,
                backing,
                course.last().next,
            ),
{
    lemma_step(heap_start, free_frames, request, course, at);
    let from = course[at];
    let to = course[at + 1];
    let job = Job::Fresh { range, protection };
    let result = choose|result: Result<Vec<PageRange>, PrivateFailure>|
        {
            &&& backs(job, result)
            &&& #[trigger] backed_outcome(from.books, to.books, job, result, to.next)
        };
    assert(backs(job, result) && backed_outcome(from.books, to.books, job, result, to.next));
    lemma_step(heap_start, free_frames, request, course, at + 1);
    let backing = result->Ok_0;
    lemma_frames_len(backing@);
    if backing@.len() == 0 {
        assert(total_pages(backing@) == 0);
    }
    assert(fresh_backed(from.books, to.books, range, protection, backing, to.next));
    if protection == Protection::NoAccess {
        assert(maps(from.books, to.books, range, protection, backing@, to.next));
    } else {
        lemma_tables_then_done(
            heap_start,
            free_frames,
            request,
            course,
            at + 1,
            range,
            protection,
            backing,
        );
    }
}

/// A mapping request was carried out: pages of the requested number are mapped
/// with frames where nothing was.
pub open spec fn carried_out(
    map: MapRequest,
    before: (SystemMemory, ApplicationMemory),
    after: (SystemMemory, ApplicationMemory),
    first: ApplicationMemory,
    range: PageRange,
    backing: Seq<PageRange>,
    next: PrivateNext,
) -> bool {
    &&& same_memory(before.1, first)
    &&& range.pages() == map.placement.page_count
    &&& maps((before.0, first), after, range, map.protection, backing, next)
}

proof fn lemma_room_then_done(
    heap_start: u64,
    free_frames: u64,
    request: PrivateRequest,
    course: Seq<Moment>,
    at: int,
    range: PageRange,
    map: MapRequest,
)
    requires
        is_course(heap_start, free_frames, request, course),
        course.last().next is Done,
        0 <= at < course.len(),
        wants_record(course[at].next, range, map.protection, true),
        range.pages() == map.placement.page_count,
    ensures
        exists|first: ApplicationMemory, backing: Seq<PageRange>| #[trigger]
            carried_out(
                map,
                course[at].books,
                course.last().books,
                first,
                range,
                backing,
                course.last().next,
            ),
{
    lemma_step(heap_start, free_frames, request, course, at);
    let from = course[at];
    let to = course[at + 1];
    let work = RoomFor::Fresh { range, protection: map.protection, zeroed: true };
    let (asked, free, room) = choose|asked: ApplicationMemory, free: u64, room: bool|
        {
            &&& same_memory(from.books.1, asked)
            &&& #[trigger] room_outcome(
                (from.books.0, asked),
                to.books,
                free,
                work,
                room,
                to.next,
            )
        };
    assert(room_outcome((from.books.0, asked), to.books, free, work, room, to.next));
    lemma_step(heap_start, free_frames, request, course, at + 1);
    assert(placed_outcome(
        (from.books.0, asked),
        to.books,
        free,
        range,
        map.protection,
        true,
        to.next,
    ));
    lemma_frames_then_done(
        heap_start,
        free_frames,
        request,
        course,
        at + 1,
        range,
        map.protection,
    );
    let backing = choose|backing: Seq<PageRange>| #[trigger]
        maps(
            to.books,
            course.last().books,
            range,
            map.protection,
            backing,
            course.last().next,
        );
    assert(carried_out(
        map,
        from.books,
        course.last().books,
        asked,
        range,
        backing,
        course.last().next,
    ));
}

/// A request for pages with frames that succeeds was carried out.
pub proof fn successful_mappings_are_carried_out(
    heap_start: u64,
    free_frames: u64,
    map: MapRequest,
    course: Seq<Moment>,
)
    requires
        is_course(heap_start, free_frames, PrivateRequest::MapZeroed(map), course),
        course.last().next is Done,
    ensures
        map.placement.page_count > 0,
        exists|first: ApplicationMemory, range: PageRange, backing: Seq<PageRange>| #[trigger]
            carried_out(
                map,
                course[0].books,
                course.last().books,
                first,
                range,
                backing,
                course.last().next,
            ),
{
    let request = PrivateRequest::MapZeroed(map);
    let from = course[0];
    assert(map_begins(from.books.1, heap_start, map, true, from.next));
    lemma_step(heap_start, free_frames, request, course, 0);
    match from.next {
        PrivateNext::Draw(draw) => {
            let to = course[1];
            let drawn = choose|drawn: Option<u64>|
                {
                    &&& drawn matches Some(selected) ==> selected < draw.slots
                    &&& #[trigger] drawn_outcome(from.books.1, draw, drawn, to.next)
                };
            assert(drawn_outcome(from.books.1, draw, drawn, to.next));
            lemma_step(heap_start, free_frames, request, course, 1);
            match to.next {
                PrivateNext::Room(need) => {
                    match need.work {
                        RoomFor::Fresh { range, protection, zeroed } => {
                            lemma_room_then_done(
                                heap_start,
                                free_frames,
                                request,
                                course,
                                1,
                                range,
                                map,
                            );
                        },
                        _ => {},
                    }
                },
                _ => {},
            }
        },
        PrivateNext::Room(need) => {
            match need.work {
                RoomFor::Fresh { range, protection, zeroed } => {
                    lemma_room_then_done(heap_start, free_frames, request, course, 0, range, map);
                },
                _ => {},
            }
        },
        _ => {},
    }
}

/// Pages are given up and their frames released.
pub open spec fn gives_up(
    before: (SystemMemory, ApplicationMemory),
    released: (SystemMemory, ApplicationMemory),
    after: (SystemMemory, ApplicationMemory),
    index: int,
    range: PageRange,
    pieces: Seq<PrivateMapping>,
    removed: Seq<PageRange>,
    reserved: u64,
    committed: u64,
    release: PrivateNext,
    next: PrivateNext,
) -> bool {
    &&& unmap_valid(before.1, index, range, pieces, removed, reserved, committed)
    &&& unmapped_outcome(before, released, index, range, reserved, committed, release)
    &&& if removed.len() > 0 {
        released_outcome(released, after, Ending::Settle { reserved, committed }, true, next)
    } else {
        after == released && next == release
    }
}

proof fn lemma_given_up_then_done(
    heap_start: u64,
    free_frames: u64,
    request: PrivateRequest,
    course: Seq<Moment>,
    at: int,
    before: (SystemMemory, ApplicationMemory),
    index: int,
    range: PageRange,
    pieces: Seq<PrivateMapping>,
    removed: Seq<PageRange>,
    reserved: u64,
    committed: u64,
)
    requires
        is_course(heap_start, free_frames, request, course),
        course.last().next is Done,
        0 <= at < course.len(),
        unmap_valid(before.1, index, range, pieces, removed, reserved, committed),
        unmapped_outcome(
            before,
            course[at].books,
            index,
            range,
            reserved,
            committed,
            course[at].next,
        ),
    ensures
        gives_up(
            before,
            course[at].books,
            course.last().books,
            index,
            range,
            pieces,
            removed,
            reserved,
            committed,
            course[at].next,
            course.last().next,
        ),
{
    lemma_step(heap_start, free_frames, request, course, at);
    let from = course[at];
    if removed.len() > 0 {
        let ending = Ending::Settle { reserved, committed };
        assert(releases(from.next, removed, ending));
        let to = course[at + 1];
        let success = choose|success: bool|
            released_outcome(from.books, to.books, ending, success, to.next);
        assert(released_outcome(from.books, to.books, ending, success, to.next));
        lemma_step(heap_start, free_frames, request, course, at + 1);
    }
}

/// An unmapping request was carried out on pages of this address and number.
pub open spec fn given_up_at(
    address: u64,
    page_count: u64,
    before: (SystemMemory, ApplicationMemory),
    after: (SystemMemory, ApplicationMemory),
    first: ApplicationMemory,
    range: PageRange,
    next: PrivateNext,
) -> bool {
    &&& same_memory(before.1, first)
    &&& range.well_formed()
    &&& 4096 * range.first() == address
    &&& range.pages() == page_count
    &&& exists|
        released: (SystemMemory, ApplicationMemory),
        index: int,
        pieces: Seq<PrivateMapping>,
        removed: Seq<PageRange>,
        reserved: u64,
        committed: u64,
        release: PrivateNext,
    | #[trigger]
        gives_up(
            (before.0, first),
            released,
            after,
            index,
            range,
            pieces,
            removed,
            reserved,
            committed,
            release,
            next,
        )
}

/// An unmapping request that succeeds was carried out.
pub proof fn successful_unmappings_are_carried_out(
    heap_start: u64,
    free_frames: u64,
    address: u64,
    page_count: u64,
    course: Seq<Moment>,
)
    requires
        is_course(
            heap_start,
            free_frames,
            PrivateRequest::Unmap { address, page_count },
            course,
        ),
        course.last().next is Done,
    ensures
        exists|first: ApplicationMemory, range: PageRange| #[trigger]
            given_up_at(
                address,
                page_count,
                course[0].books,
                course.last().books,
                first,
                range,
                course.last().next,
            ),
{
    let request = PrivateRequest::Unmap { address, page_count };
    let from = course[0];
    lemma_step(heap_start, free_frames, request, course, 0);
    assert(PageRange::valid(address as int, page_count as int));
    let range = choose|range: PageRange|
        {
            &&& range.well_formed()
            &&& 4096 * range.first() == address
            &&& range.pages() == page_count
            &&& #[trigger] unmap_range_begins(from.books.0, from.books.1, range, from.next)
        };
    assert(unmap_range_begins(from.books.0, from.books.1, range, from.next));
    let need = from.next->Room_0;
    let to = course[1];
    let (asked, free, room) = choose|asked: ApplicationMemory, free: u64, room: bool|
        {
            &&& same_memory(from.books.1, asked)
            &&& #[trigger] room_outcome(
                (from.books.0, asked),
                to.books,
                free,
                need.work,
                room,
                to.next,
            )
        };
    assert(room_outcome((from.books.0, asked), to.books, free, need.work, room, to.next));
    lemma_step(heap_start, free_frames, request, course, 1);
    match need.work {
        RoomFor::Unmap { index, range: whole, pieces, removed, reserved, committed } => {
            let before = (from.books.0, asked);
            assert(unmap_valid(asked, index as int, range, pieces@, removed@, reserved, committed));
            let at: int = if to.next is Access {
                2
            } else {
                1
            };
            if to.next is Access {
                let access = to.next->Access_0;
                let last = course[2];
                let success = choose|success: bool|
                    changed_outcome(to.books, last.books, access, success, last.next);
                assert(changed_outcome(to.books, last.books, access, success, last.next));
                lemma_step(heap_start, free_frames, request, course, 2);
            }
            lemma_given_up_then_done(
                heap_start,
                free_frames,
                request,
                course,
                at,
                before,
                index as int,
                range,
                pieces@,
                removed@,
                reserved,
                committed,
            );
            assert(given_up_at(
                address,
                page_count,
                from.books,
                course.last().books,
                asked,
                range,
                course.last().next,
            ));
        },
        _ => {},
    }
}

/// Room for mapping records makes no difference to what was mapped.
proof fn lemma_still_mapped(
    before: (SystemMemory, ApplicationMemory),
    between: (SystemMemory, ApplicationMemory),
    asked: ApplicationMemory,
    range: PageRange,
    protection: Protection,
    backing: Seq<PageRange>,
)
    requires
        mapped(before, between, range, protection, backing),
        same_memory(between.1, asked),
    ensures
        mapped(before, (between.0, asked), range, protection, backing),
{
    let old_private = between.1.private_memory;
    let new_private = asked.private_memory;
    assert forall|page: int| #![trigger new_private.page(page)] new_private.page(page)
        == old_private.page(page) by {}
}

/// Pages without a state belong to no mapping.
proof fn lemma_no_mapping(private: PrivateMemory, range: PageRange)
    requires
        ordered(private.mappings@),
        forall|page: int| #![trigger private.page(page)] range.covers(page) ==> private.page(page)
            is None,
    ensures
        forall|i: int, page: int|
            range.covers(page) ==> !(#[trigger] covered_by(private.mappings@, i, page)),
{
    assert forall|i: int, page: int| range.covers(page) implies !(#[trigger] covered_by(
        private.mappings@,
        i,
        page,
    )) by {
        if covered_by(private.mappings@, i, page) {
            lemma_lookup(private.mappings@, i, page);
            assert(private.page(page) is Some);
        }
    }
}

/// Whoever maps pages with frames and unmaps them with the next call, both with
/// success, is where they were. The page totals of the application and of the
/// system are as before the first call, every page is as it was, and the mapped
/// ones are in no mapping; the second call reports changed resources and
/// nothing else; and no mark is lowered.
pub proof fn unmapped_calls_leave_no_trace(
    map: MapRequest,
    map_heap: u64,
    map_free: u64,
    mapping: Seq<Moment>,
    address: u64,
    unmap_heap: u64,
    unmap_free: u64,
    unmapping: Seq<Moment>,
)
    requires
        is_course(map_heap, map_free, PrivateRequest::MapZeroed(map), mapping),
        mapping.last().next matches PrivateNext::Done(reply) && reply.payload
            == PrivatePayload::Address(address),
        is_course(
            unmap_heap,
            unmap_free,
            PrivateRequest::Unmap { address, page_count: map.placement.page_count },
            unmapping,
        ),
        unmapping[0].books == mapping.last().books,
        unmapping.last().next is Done,
    ensures
        ({
            let before = mapping[0].books;
            let after = unmapping.last().books;
            let old_private = before.1.private_memory;
            let new_private = after.1.private_memory;
            let first = address as int / 4096;
            &&& new_private.reserved_pages == old_private.reserved_pages
            &&& new_private.committed_pages == old_private.committed_pages
            &&& after.0.application_committed_pages == before.0.application_committed_pages
            &&& forall|page: int|
                #![trigger new_private.page(page)]
                new_private.page(page) == old_private.page(page)
            &&& forall|i: int, page: int|
                first <= page < first + map.placement.page_count ==> !(#[trigger] covered_by(
                    new_private.mappings@,
                    i,
                    page,
                ))
            &&& unmapping.last().next == PrivateNext::Done(
                PrivateReply { payload: PrivatePayload::Empty, resources_changed: true },
            )
            &&& new_private.high_water_reserved_pages >= old_private.high_water_reserved_pages
            &&& new_private.high_water_committed_pages >= old_private.high_water_committed_pages
            &&& new_private.high_water_mappings >= old_private.high_water_mappings
            &&& new_private.high_water_metadata_bytes >= old_private.high_water_metadata_bytes
        }),
{
    let page_count = map.placement.page_count;
    let between = mapping.last().books;
    let after = unmapping.last().books;
    let next = unmapping.last().next;
    successful_mappings_are_carried_out(map_heap, map_free, map, mapping);
    let (first, range, backing) = choose|
        first: ApplicationMemory,
        range: PageRange,
        backing: Seq<PageRange>,
    | #[trigger]
        carried_out(
            map,
            mapping[0].books,
            between,
            first,
            range,
            backing,
            mapping.last().next,
        );
    let before = (mapping[0].books.0, first);
    successful_unmappings_are_carried_out(unmap_heap, unmap_free, address, page_count, unmapping);
    let (asked, same_range) = choose|asked: ApplicationMemory, same_range: PageRange| #[trigger]
        given_up_at(address, page_count, between, after, asked, same_range, next);
    lemma_range_identity(range, same_range);
    let (released, index, pieces, removed, reserved, committed, release) = choose|
        released: (SystemMemory, ApplicationMemory),
        index: int,
        pieces: Seq<PrivateMapping>,
        removed: Seq<PageRange>,
        reserved: u64,
        committed: u64,
        release: PrivateNext,
    | #[trigger]
        gives_up(
            (between.0, asked),
            released,
            after,
            index,
            range,
            pieces,
            removed,
            reserved,
            committed,
            release,
            next,
        );
    lemma_still_mapped(before, between, asked, range, map.protection, backing);
    lemma_removed_frames(
        first.private_memory,
        asked.private_memory,
        range,
        map.protection,
        backing,
        index,
        removed,
    );
    unmapping_undoes_mapping(
        before,
        (between.0, asked),
        released,
        after,
        range,
        map.protection,
        backing,
        index,
        pieces,
        removed,
        reserved,
        committed,
        release,
        next,
    );
    lemma_free_pages(first.private_memory, range);
    assert forall|page: int| #![trigger after.1.private_memory.page(page)]
        after.1.private_memory.page(page) == mapping[0].books.1.private_memory.page(page) by {
        assert(first.private_memory.page(page) == mapping[0].books.1.private_memory.page(page));
    }
    lemma_no_mapping(after.1.private_memory, range);
}

/// The memories of a change that is under way: the same mappings and books, and
/// nothing else that counts against a limit.
pub open spec fn same_holdings(before: ApplicationMemory, after: ApplicationMemory) -> bool {
    &&& after.private_memory.mappings@ == before.private_memory.mappings@
    &&& after.private_memory.same_books(before.private_memory)
    &&& after.extent_pages == before.extent_pages
    &&& after.growth_ranges == before.growth_ranges
    &&& after.heap_pages == before.heap_pages
}

/// A change of access was allowed with the first books and installed in the
/// last.
pub open spec fn protects(
    before: (SystemMemory, ApplicationMemory),
    base: (SystemMemory, ApplicationMemory),
    after: (SystemMemory, ApplicationMemory),
    change: ProtectChange,
    fresh: Seq<PageRange>,
    next: PrivateNext,
) -> bool {
    &&& base.0 == before.0
    &&& same_holdings(before.1, base.1)
    &&& change_valid(before.1, change)
    &&& change.needs_backing == (fresh.len() > 0)
    &&& is_backing(fresh, change.range)
    &&& change_verdict(
        before.0,
        before.1,
        change.index as int,
        cut(
            before.1.private_memory.mappings@[change.index as int]@,
            change.range,
            Some(change.protection),
            fresh,
        ),
        before.1.private_memory.reserved_pages as int,
        committed_after(before.1.private_memory, change),
    ) is Ok
    &&& protected_outcome(base, after, change, fresh, next)
}

proof fn lemma_access_protects(
    heap_start: u64,
    free_frames: u64,
    request: PrivateRequest,
    course: Seq<Moment>,
    at: int,
)
    requires
        is_course(heap_start, free_frames, request, course),
        course.last().next is Done,
        0 <= at < course.len(),
        course[at].next matches PrivateNext::Access(need) && need.after is Protect,
    ensures
        course[at].next matches PrivateNext::Access(need) && (need.after
            matches AfterAccess::Protect { change, pieces, middle, .. } && protected_outcome(
            course[at].books,
            course.last().books,
            change,
            fresh_extents(change, pieces@, middle),
            course.last().next,
        )),
{
    lemma_step(heap_start, free_frames, request, course, at);
    let need = course[at].next->Access_0;
    let to = course[at + 1];
    let success = choose|success: bool|
        changed_outcome(course[at].books, to.books, need, success, to.next);
    assert(changed_outcome(course[at].books, to.books, need, success, to.next));
    lemma_step(heap_start, free_frames, request, course, at + 1);
}

proof fn lemma_tables_protect(
    heap_start: u64,
    free_frames: u64,
    request: PrivateRequest,
    course: Seq<Moment>,
    at: int,
    change: ProtectChange,
    pieces: Vec<PrivateMapping>,
    middle: usize,
    committed: u64,
) -> (base: (SystemMemory, ApplicationMemory))
    requires
        is_course(heap_start, free_frames, request, course),
        course.last().next is Done,
        0 <= at < course.len(),
        course[at].next.valid(course[at].books.1),
        course[at].next matches PrivateNext::Tables(need) && need.prepared == (
        Prepared::Protect { change, pieces, middle, committed }),
    ensures
        base.0 == course[at].books.0,
        same_holdings(course[at].books.1, base.1),
        protected_outcome(
            base,
            course.last().books,
            change,
            fresh_extents(change, pieces@, middle),
            course.last().next,
        ),
{
    lemma_step(heap_start, free_frames, request, course, at);
    let from = course[at];
    let to = course[at + 1];
    let prepared = Prepared::Protect { change, pieces, middle, committed };
    let (fresh, failure) = choose|fresh: Seq<u64>, failure: Option<PrivateFailure>|
        tables_outcome(from.books, to.books, prepared, fresh, failure, to.next);
    assert(tables_outcome(from.books, to.books, prepared, fresh, failure, to.next));
    lemma_step(heap_start, free_frames, request, course, at + 1);
    if failure is Some {
        assert(false);
    }
    if pieces@[middle as int].backing@.len() > 0 {
        lemma_access_protects(heap_start, free_frames, request, course, at + 1);
        to.books
    } else {
        assert(installed_with_tables(from.books, to.books, change, fresh, to.next));
        let grown = choose|grown: ApplicationMemory|
            {
                &&& #[trigger] with_tables(from.books.1, fresh, grown)
                &&& protected_outcome(
                    (from.books.0, grown),
                    to.books,
                    change,
                    Seq::empty(),
                    to.next,
                )
            };
        assert(fresh_extents(change, pieces@, middle) =~= Seq::<PageRange>::empty());
        (from.books.0, grown)
    }
}

proof fn lemma_room_protects(
    heap_start: u64,
    free_frames: u64,
    request: PrivateRequest,
    course: Seq<Moment>,
    at: int,
    change: ProtectChange,
    fresh: Seq<PageRange>,
) -> (base: (SystemMemory, ApplicationMemory))
    requires
        is_course(heap_start, free_frames, request, course),
        course.last().next is Done,
        0 <= at < course.len(),
        course[at].next.valid(course[at].books.1),
        change_valid(course[at].books.1, change),
        change.needs_backing == (fresh.len() > 0),
        is_backing(fresh, change.range),
        checked_outcome(
            course[at].books.0,
            course[at].books.1,
            change,
            fresh,
            course[at].next,
        ),
    ensures
        protects(
            course[at].books,
            base,
            course.last().books,
            change,
            fresh,
            course.last().next,
        ),
{
    lemma_step(heap_start, free_frames, request, course, at);
    let from = course[at];
    let to = course[at + 1];
    let need = from.next->Room_0;
    let (asked, free, room) = choose|asked: ApplicationMemory, free: u64, room: bool|
        {
            &&& same_memory(from.books.1, asked)
            &&& #[trigger] room_outcome(
                (from.books.0, asked),
                to.books,
                free,
                need.work,
                room,
                to.next,
            )
        };
    assert(room_outcome((from.books.0, asked), to.books, free, need.work, room, to.next));
    lemma_step(heap_start, free_frames, request, course, at + 1);
    match need.work {
        RoomFor::Protect { change: c, pieces, middle, committed } => {
            assert(c == change);
            assert(fresh_extents(change, pieces@, middle) == fresh);
            if change.protection != Protection::NoAccess {
                let base = lemma_tables_protect(
                    heap_start,
                    free_frames,
                    request,
                    course,
                    at + 1,
                    change,
                    pieces,
                    middle,
                    committed,
                );
                base
            } else if pieces@[middle as int].backing@.len() > 0 {
                lemma_access_protects(heap_start, free_frames, request, course, at + 1);
                to.books
            } else {
                assert(fresh =~= Seq::<PageRange>::empty());
                (from.books.0, asked)
            }
        },
        _ => {
            assert(false);
            from.books
        },
    }
}

proof fn lemma_protect_course(
    heap_start: u64,
    free_frames: u64,
    address: u64,
    page_count: u64,
    protection: Protection,
    course: Seq<Moment>,
) -> (found: (PageRange, usize, (SystemMemory, ApplicationMemory), ProtectChange, Seq<PageRange>))
    requires
        is_course(
            heap_start,
            free_frames,
            PrivateRequest::Protect { address, page_count, protection },
            course,
        ),
        course.last().next is Done,
    ensures
        ({
            let (range, index, base, change, fresh) = found;
            let before = course[0].books;
            &&& range.well_formed()
            &&& 4096 * range.first() == address
            &&& range.pages() == page_count
            &&& holder(before.1.private_memory, range, index as int)
            &&& if before.1.private_memory.mappings@[index as int].protection == protection {
                &&& course.last().books == before
                &&& course.last().next == PrivateNext::Done(
                    PrivateReply { payload: PrivatePayload::Empty, resources_changed: false },
                )
            } else {
                &&& change.index == index
                &&& change.range == range
                &&& change.protection == protection
                &&& protects(
                    before,
                    base,
                    course.last().books,
                    change,
                    fresh,
                    course.last().next,
                )
            }
        }),
{
    let request = PrivateRequest::Protect { address, page_count, protection };
    let from = course[0];
    let memory = from.books.1;
    let private = memory.private_memory;
    lemma_step(heap_start, free_frames, request, course, 0);
    assert(PageRange::valid(address as int, page_count as int));
    let range = choose|range: PageRange|
        {
            &&& range.well_formed()
            &&& 4096 * range.first() == address
            &&& range.pages() == page_count
            &&& #[trigger] protect_range_begins(
                from.books.0,
                memory,
                free_frames,
                range,
                protection,
                from.next,
            )
        };
    assert(protect_range_begins(
        from.books.0,
        memory,
        free_frames,
        range,
        protection,
        from.next,
    ));
    let index = choose|index: usize|
        {
            &&& #[trigger] holder(private, range, index as int)
            &&& ({
                let mapping = private.mappings@[index as int];
                let change = ProtectChange {
                    index,
                    range,
                    protection,
                    needs_backing: !mapping.backed() && protection != Protection::NoAccess,
                    installed: mapping.backed() && mapping.protection != Protection::NoAccess,
                };
                if mapping.protection == protection {
                    from.next == PrivateNext::Done(
                        PrivateReply { payload: PrivatePayload::Empty, resources_changed: false },
                    )
                } else if !change.needs_backing {
                    checked_outcome(from.books.0, memory, change, Seq::empty(), from.next)
                } else if range.pages() > available_frames(from.books.0, free_frames) {
                    from.next == PrivateNext::Failed(
                        PrivateFailure::Reply(ReplyStatus::Exhausted),
                    )
                } else {
                    from.next == PrivateNext::Back(
                        NeedBacking { job: Job::Protect(change), pages: range.pages() as u64 },
                    )
                }
            })
        };
    let mapping = private.mappings@[index as int];
    let change = ProtectChange {
        index,
        range,
        protection,
        needs_backing: !mapping.backed() && protection != Protection::NoAccess,
        installed: mapping.backed() && mapping.protection != Protection::NoAccess,
    };
    if mapping.protection == protection {
        (range, index, from.books, change, Seq::empty())
    } else if !change.needs_backing {
        let none = Seq::<PageRange>::empty();
        let base = lemma_room_protects(
            heap_start,
            free_frames,
            request,
            course,
            0,
            change,
            none,
        );
        (range, index, base, change, none)
    } else {
        let to = course[1];
        let job = Job::Protect(change);
        let result = choose|result: Result<Vec<PageRange>, PrivateFailure>|
            {
                &&& backs(job, result)
                &&& #[trigger] backed_outcome(from.books, to.books, job, result, to.next)
            };
        assert(backs(job, result) && backed_outcome(
            from.books,
            to.books,
            job,
            result,
            to.next,
        ));
        lemma_step(heap_start, free_frames, request, course, 1);
        let backing = result->Ok_0;
        lemma_frames_len(backing@);
        if backing@.len() == 0 {
            assert(total_pages(backing@) == 0);
        }
        let base = lemma_room_protects(
            heap_start,
            free_frames,
            request,
            course,
            1,
            change,
            backing@,
        );
        (range, index, base, change, backing@)
    }
}

/// A change of access that succeeds gives each of the requested pages, all of
/// which were mapped, the requested access. Every frame stays behind its page,
/// a page that gets access has a frame, and no other page changes. The
/// number of reserved pages stays, and the reply carries nothing.
pub proof fn protected_pages_have_the_access_asked_for(
    heap_start: u64,
    free_frames: u64,
    address: u64,
    page_count: u64,
    protection: Protection,
    course: Seq<Moment>,
)
    requires
        is_course(
            heap_start,
            free_frames,
            PrivateRequest::Protect { address, page_count, protection },
            course,
        ),
        course.last().next is Done,
    ensures
        ({
            let old_private = course[0].books.1.private_memory;
            let new_private = course.last().books.1.private_memory;
            let first = address as int / 4096;
            &&& forall|page: int|
                #![trigger new_private.page(page)]
                first <= page < first + page_count ==> {
                    &&& old_private.page(page) matches Some(old_entry)
                    &&& new_private.page(page) matches Some(new_entry)
                    &&& new_entry.protection == protection
                    &&& old_entry.frame is Some ==> new_entry.frame == old_entry.frame
                    &&& protection != Protection::NoAccess && protection
                        != old_entry.protection ==> new_entry.frame is Some
                }
            &&& forall|page: int|
                #![trigger new_private.page(page)]
                !(first <= page < first + page_count) ==> new_private.page(page)
                    == old_private.page(page)
            &&& new_private.reserved_pages == old_private.reserved_pages
            &&& course.last().next matches PrivateNext::Done(reply) && reply.payload
                == PrivatePayload::Empty
        }),
{
    let (range, index, base, change, fresh) = lemma_protect_course(
        heap_start,
        free_frames,
        address,
        page_count,
        protection,
        course,
    );
    let old_private = course[0].books.1.private_memory;
    let new_private = course.last().books.1.private_memory;
    let mapping = old_private.mappings@[index as int];
    assert(mapping.well_formed());
    lemma_frames_len(mapping.backing@);
    assert forall|page: int| range.covers(page) implies old_private.page(page) == Some(
        mapping.entry(page),
    ) by {
        assert(covered_by(old_private.mappings@, index as int, page));
        lemma_lookup(old_private.mappings@, index as int, page);
    }
    if mapping.protection != protection {
        lemma_frames_len(fresh);
        assert(base.1.private_memory.mappings@ == old_private.mappings@);
        assert forall|page: int| #![trigger new_private.page(page)] base.1.private_memory.page(page)
            == old_private.page(page) by {}
    }
}

proof fn lemma_room_then_reserved(
    heap_start: u64,
    free_frames: u64,
    request: PrivateRequest,
    course: Seq<Moment>,
    at: int,
    range: PageRange,
    protection: Protection,
) -> (first: ApplicationMemory)
    requires
        is_course(heap_start, free_frames, request, course),
        course.last().next is Done,
        0 <= at < course.len(),
        wants_record(course[at].next, range, protection, false),
    ensures
        same_memory(course[at].books.1, first),
        reserved_outcome(
            (course[at].books.0, first),
            course.last().books,
            range,
            protection,
            course.last().next,
        ),
{
    lemma_step(heap_start, free_frames, request, course, at);
    let from = course[at];
    let to = course[at + 1];
    let work = RoomFor::Fresh { range, protection, zeroed: false };
    let (asked, free, room) = choose|asked: ApplicationMemory, free: u64, room: bool|
        {
            &&& same_memory(from.books.1, asked)
            &&& #[trigger] room_outcome(
                (from.books.0, asked),
                to.books,
                free,
                work,
                room,
                to.next,
            )
        };
    assert(room_outcome((from.books.0, asked), to.books, free, work, room, to.next));
    lemma_step(heap_start, free_frames, request, course, at + 1);
    asked
}

proof fn lemma_reserve_course(
    heap_start: u64,
    free_frames: u64,
    map: MapRequest,
    course: Seq<Moment>,
) -> (found: (ApplicationMemory, PageRange))
    requires
        is_course(heap_start, free_frames, PrivateRequest::Reserve(map), course),
        course.last().next is Done,
    ensures
        map.protection == Protection::NoAccess,
        same_memory(course[0].books.1, found.0),
        is_free(course[0].books.1.private_memory, found.1),
        found.1.pages() == map.placement.page_count,
        reserved_outcome(
            (course[0].books.0, found.0),
            course.last().books,
            found.1,
            map.protection,
            course.last().next,
        ),
{
    let request = PrivateRequest::Reserve(map);
    let from = course[0];
    assert(map_begins(from.books.1, heap_start, map, false, from.next));
    lemma_step(heap_start, free_frames, request, course, 0);
    match from.next {
        PrivateNext::Draw(draw) => {
            let to = course[1];
            let drawn = choose|drawn: Option<u64>|
                {
                    &&& drawn matches Some(selected) ==> selected < draw.slots
                    &&& #[trigger] drawn_outcome(from.books.1, draw, drawn, to.next)
                };
            assert(drawn_outcome(from.books.1, draw, drawn, to.next));
            lemma_step(heap_start, free_frames, request, course, 1);
            let range = to.next->Room_0.work->Fresh_range;
            let first = lemma_room_then_reserved(
                heap_start,
                free_frames,
                request,
                course,
                1,
                range,
                map.protection,
            );
            (first, range)
        },
        _ => {
            let range = from.next->Room_0.work->Fresh_range;
            let first = lemma_room_then_reserved(
                heap_start,
                free_frames,
                request,
                course,
                0,
                range,
                map.protection,
            );
            (first, range)
        },
    }
}

/// Pages that are reserved, or mapped with frames, lie where nothing was, at the
/// address that the reply names. A reservation takes no frame and gives no
/// access; mapped pages have the requested access and a frame each. No other
/// page changes.
pub proof fn new_pages_are_as_requested(
    heap_start: u64,
    free_frames: u64,
    request: PrivateRequest,
    map: MapRequest,
    course: Seq<Moment>,
    address: u64,
)
    requires
        request == PrivateRequest::Reserve(map) || request == PrivateRequest::MapZeroed(map),
        is_course(heap_start, free_frames, request, course),
        course.last().next matches PrivateNext::Done(reply) && reply.payload
            == PrivatePayload::Address(address),
    ensures
        ({
            let old_private = course[0].books.1.private_memory;
            let new_private = course.last().books.1.private_memory;
            let count = map.placement.page_count;
            let first = address as int / 4096;
            &&& address % 4096 == 0
            &&& count > 0
            &&& address + 4096 * count <= new_private.arena_end
            &&& forall|page: int|
                #![trigger new_private.page(page)]
                first <= page < first + count ==> {
                    &&& old_private.page(page) is None
                    &&& new_private.page(page) matches Some(entry)
                    &&& entry.protection == map.protection
                    &&& entry.frame is Some == request is MapZeroed
                }
            &&& forall|page: int|
                #![trigger new_private.page(page)]
                !(first <= page < first + count) ==> new_private.page(page) == old_private.page(
                    page,
                )
            &&& new_private.reserved_pages == old_private.reserved_pages + count
            &&& new_private.committed_pages == old_private.committed_pages + if request
                is MapZeroed {
                count as int
            } else {
                0
            }
            &&& new_private.mappings@.len() == old_private.mappings@.len() + 1
            &&& course.last().next matches PrivateNext::Done(reply) && reply.resources_changed
                == request is MapZeroed
        }),
{
    let old_private = course[0].books.1.private_memory;
    let new_private = course.last().books.1.private_memory;
    if request is MapZeroed {
        successful_mappings_are_carried_out(heap_start, free_frames, map, course);
        let (first, range, backing) = choose|
            first: ApplicationMemory,
            range: PageRange,
            backing: Seq<PageRange>,
        | #[trigger]
            carried_out(
                map,
                course[0].books,
                course.last().books,
                first,
                range,
                backing,
                course.last().next,
            );
        lemma_frames_len(backing);
        lemma_free_pages(first.private_memory, range);
        assert forall|page: int| #![trigger new_private.page(page)] first.private_memory.page(page)
            == old_private.page(page) by {}
    } else {
        let (first, range) = lemma_reserve_course(heap_start, free_frames, map, course);
        lemma_free_pages(old_private, range);
        assert forall|page: int| #![trigger new_private.page(page)] first.private_memory.page(page)
            == old_private.page(page) by {}
    }
}

/// Whatever a call reserves, maps or gives access to, the application stays
/// within its limits and the system within its own: the pages of the launch
/// reservation, of every heap growth and of private memory count together. Only
/// a call that changes nothing at all may leave a limit as it found it.
pub proof fn successful_calls_respect_the_limits(
    heap_start: u64,
    free_frames: u64,
    request: PrivateRequest,
    course: Seq<Moment>,
)
    requires
        is_course(heap_start, free_frames, request, course),
        course.last().next is Done,
        !(request is Unmap),
    ensures
        course.last().books == course[0].books || {
            let (system, memory) = course.last().books;
            let private = memory.private_memory;
            &&& private.limits == course[0].books.1.private_memory.limits
            &&& system.system_commit_limit == course[0].books.0.system_commit_limit
            &&& private.limits.maximum_committed_pages matches Some(most) ==> memory.extent_pages
                + total_pages(memory.growth_ranges@) + private.committed_pages <= most
            &&& private.limits.maximum_reserved_pages matches Some(most) ==> private.reserved_pages
                <= most
            &&& system.system_commit_limit matches Some(most)
                ==> system.application_committed_pages <= most
        },
{
    match request {
        PrivateRequest::MapZeroed(map) => {
            successful_mappings_are_carried_out(heap_start, free_frames, map, course);
            let (first, range, backing) = choose|
                first: ApplicationMemory,
                range: PageRange,
                backing: Seq<PageRange>,
            | #[trigger]
                carried_out(
                    map,
                    course[0].books,
                    course.last().books,
                    first,
                    range,
                    backing,
                    course.last().next,
                );
            allowed_mappings_respect_every_limit(course[0].books.0, first, range, backing);
        },
        PrivateRequest::Reserve(map) => {
            let (first, range) = lemma_reserve_course(heap_start, free_frames, map, course);
            allowed_mappings_respect_every_limit(
                course[0].books.0,
                first,
                range,
                Seq::empty(),
            );
        },
        PrivateRequest::Protect { address, page_count, protection } => {
            let (range, index, base, change, fresh) = lemma_protect_course(
                heap_start,
                free_frames,
                address,
                page_count,
                protection,
                course,
            );
            let memory = course[0].books.1;
            if memory.private_memory.mappings@[index as int].protection != protection {
                allowed_changes_respect_every_limit(
                    course[0].books.0,
                    memory,
                    index as int,
                    cut(
                        memory.private_memory.mappings@[index as int]@,
                        range,
                        Some(protection),
                        fresh,
                    ),
                    memory.private_memory.reserved_pages as int,
                    committed_after(memory.private_memory, change),
                );
            }
        },
        _ => {
            lemma_step(heap_start, free_frames, request, course, 0);
        },
    }
}

proof fn lemma_removed_count(
    memory: ApplicationMemory,
    index: int,
    range: PageRange,
    pieces: Seq<PrivateMapping>,
    removed: Seq<PageRange>,
    reserved: u64,
    committed: u64,
)
    requires
        ordered(memory.private_memory.mappings@),
        unmap_valid(memory, index, range, pieces, removed, reserved, committed),
    ensures
        total_pages(removed) == if removed.len() > 0 {
            range.pages()
        } else {
            0
        },
{
    let mapping = memory.private_memory.mappings@[index];
    assert(mapping.well_formed());
    lemma_frames_len(mapping.backing@);
    lemma_frames_len(removed);
}

proof fn lemma_given_up(
    before: (SystemMemory, ApplicationMemory),
    released: (SystemMemory, ApplicationMemory),
    after: (SystemMemory, ApplicationMemory),
    index: int,
    range: PageRange,
    pieces: Seq<PrivateMapping>,
    removed: Seq<PageRange>,
    reserved: u64,
    committed: u64,
    release: PrivateNext,
    next: PrivateNext,
)
    requires
        gives_up(
            before,
            released,
            after,
            index,
            range,
            pieces,
            removed,
            reserved,
            committed,
            release,
            next,
        ),
        next is Done,
    ensures
        pages_vanish(before.1.private_memory, after.1.private_memory, range),
        after.1.private_memory.reserved_pages == reserved,
        after.1.private_memory.committed_pages == committed,
        after.0.application_committed_pages == before.0.application_committed_pages
            - before.1.private_memory.committed_pages + committed,
        next == PrivateNext::Done(
            PrivateReply { payload: PrivatePayload::Empty, resources_changed: removed.len() > 0 },
        ),
{
    let first = before.1.private_memory;
    let middle = released.1.private_memory;
    let last = after.1.private_memory;
    if removed.len() > 0 {
        assert forall|page: int| #![trigger last.page(page)] last.page(page) == (if range.covers(
            page,
        ) {
            None
        } else {
            first.page(page)
        }) by {
            assert(middle.page(page) == last.page(page));
        }
    }
}

/// Unmapped pages are gone and no other page changes; as many pages are no
/// longer reserved, and the system is given back exactly the frames that stood
/// behind them.
pub proof fn unmapped_pages_are_gone(
    heap_start: u64,
    free_frames: u64,
    address: u64,
    page_count: u64,
    course: Seq<Moment>,
)
    requires
        is_course(
            heap_start,
            free_frames,
            PrivateRequest::Unmap { address, page_count },
            course,
        ),
        course.last().next is Done,
    ensures
        ({
            let old_private = course[0].books.1.private_memory;
            let new_private = course.last().books.1.private_memory;
            let first = address as int / 4096;
            &&& forall|page: int|
                #![trigger new_private.page(page)]
                first <= page < first + page_count ==> old_private.page(page) is Some
                    && new_private.page(page) is None
            &&& forall|page: int|
                #![trigger new_private.page(page)]
                !(first <= page < first + page_count) ==> new_private.page(page)
                    == old_private.page(page)
            &&& new_private.reserved_pages == old_private.reserved_pages - page_count
            &&& new_private.committed_pages == old_private.committed_pages
                || new_private.committed_pages == old_private.committed_pages - page_count
            &&& course.last().books.0.application_committed_pages
                - course[0].books.0.application_committed_pages == new_private.committed_pages
                - old_private.committed_pages
            &&& course.last().next matches PrivateNext::Done(reply) && reply.payload
                == PrivatePayload::Empty && reply.resources_changed == (new_private.committed_pages
                != old_private.committed_pages)
        }),
{
    let before = course[0].books;
    let after = course.last().books;
    let next = course.last().next;
    let old_private = before.1.private_memory;
    let new_private = after.1.private_memory;
    successful_unmappings_are_carried_out(heap_start, free_frames, address, page_count, course);
    let (asked, range) = choose|asked: ApplicationMemory, range: PageRange| #[trigger]
        given_up_at(address, page_count, before, after, asked, range, next);
    let (released, index, pieces, removed, reserved, committed, release) = choose|
        released: (SystemMemory, ApplicationMemory),
        index: int,
        pieces: Seq<PrivateMapping>,
        removed: Seq<PageRange>,
        reserved: u64,
        committed: u64,
        release: PrivateNext,
    | #[trigger]
        gives_up(
            (before.0, asked),
            released,
            after,
            index,
            range,
            pieces,
            removed,
            reserved,
            committed,
            release,
            next,
        );
    lemma_given_up(
        (before.0, asked),
        released,
        after,
        index,
        range,
        pieces,
        removed,
        reserved,
        committed,
        release,
        next,
    );
    lemma_removed_count(asked, index, range, pieces, removed, reserved, committed);
    assert forall|page: int| #![trigger new_private.page(page)] range.covers(page) implies
        old_private.page(page) is Some by {
        assert(covered_by(old_private.mappings@, index, page));
        lemma_lookup(old_private.mappings@, index, page);
    }
    assert forall|page: int| #![trigger new_private.page(page)] asked.private_memory.page(page)
        == old_private.page(page) by {}
}

} // verus!
