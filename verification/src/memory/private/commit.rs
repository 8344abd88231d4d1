//! Changes of the private mappings together with their accounting.

use crate::memory::extents::{all_well_formed, frames, lemma_frames_len, total_pages};
use crate::memory::pages::PageRange;
use crate::memory::private::edit::{
    coalesce_private_mappings, coalesced, cut, insert_private_mapping,
    install_private_replacements, is_split, joined, joining_charges_no_more,
    lemma_models_replaced, part_after, part_before, part_between, replaced, replacement_is_local, split_changes_only_the_request, Split,
};
use crate::memory::private::mapping::model_extents;
use crate::memory::private::mapping::{
    committed_total, covered_by, extent_total, lemma_lookup, lemma_model_extents,
    lemma_reserved_bound, lookup, model_metadata, models, ordered, reserved_total, MappingModel,
    PageEntry, PrivateMapping, Protection,
};
use crate::memory::private::space::{
    bookable, booked_totals, commit_private_accounting, metadata_total, policy_verdict, private_metadata_bytes,
    private_policy_allows, ApplicationMemory, PrivateFailure, PrivateMemory, SystemMemory,
    EXTENT_RECORD_BYTES, MAPPING_RECORD_BYTES,
};
use vstd::prelude::*;

verus! {

/// Frames for exactly the pages of `range`, or none.
pub open spec fn is_backing(backing: Seq<PageRange>, range: PageRange) -> bool {
    &&& all_well_formed(backing)
    &&& backing.len() == 0 || total_pages(backing) == range.pages()
}

/// Whether `range` is free in the arena.
pub open spec fn is_free(private: PrivateMemory, range: PageRange) -> bool {
    &&& range.well_formed()
    &&& 4096 * range.past() <= private.arena_end
    &&& forall|i: int|
        0 <= i < private.mappings@.len() ==> range.apart((#[trigger] private.mappings@[i]).range)
}

/// What policy says about adding a mapping.
pub open spec fn map_verdict(
    system: SystemMemory,
    memory: ApplicationMemory,
    range: PageRange,
    backing: Seq<PageRange>,
) -> Result<(), PrivateFailure> {
    let private = memory.private_memory;
    let metadata = private.metadata_bytes + 48 + 16 * backing.len();
    if metadata > u64::MAX {
        Err(PrivateFailure::Terminal)
    } else {
        policy_verdict(
            system,
            memory,
            private.reserved_pages + range.pages(),
            private.committed_pages + total_pages(backing),
            private.mappings@.len() as int + 1,
            metadata,
        )
    }
}

/// The system totals move with this application's share.
pub open spec fn system_follows(
    before: SystemMemory,
    after: SystemMemory,
    old_share: PrivateMemory,
    new_share: PrivateMemory,
) -> bool {
    after == (SystemMemory {
        private_metadata_bytes: (before.private_metadata_bytes - old_share.metadata_bytes
            + new_share.metadata_bytes) as u64,
        application_committed_pages: (before.application_committed_pages
            - old_share.committed_pages + new_share.committed_pages) as u64,
        ..before
    })
}

/// Add a mapping where policy allows it; otherwise nothing changes and the
/// frames are handed back.
pub fn commit_map(
    system: &mut SystemMemory,
    memory: &mut ApplicationMemory,
    range: PageRange,
    protection: Protection,
    backing: Vec<PageRange>,
) -> (result: Result<(), (PrivateFailure, Vec<PageRange>)>)
    requires
        old(memory).well_formed(),
        is_free(old(memory).private_memory, range),
        is_backing(backing@, range),
    ensures
        match result {
            Ok(()) => {
                let before = old(memory).private_memory;
                let after = final(memory).private_memory;
                &&& map_verdict(*old(system), *old(memory), range, backing@) is Ok
                &&& final(memory).well_formed()
                &&& final(memory).same_outside(*old(memory))
                &&& forall|page: int|
                    #![trigger after.page(page)]
                    after.page(page) == if range.covers(page) {
                        Some(
                            PageEntry {
                                protection,
                                frame: if backing@.len() > 0 {
                                    Some(frames(backing@)[page - range.first()])
                                } else {
                                    None
                                },
                            },
                        )
                    } else {
                        before.page(page)
                    }
                &&& after.mappings@.len() == before.mappings@.len() + 1
                &&& after.reserved_pages == before.reserved_pages + range.pages()
                &&& after.committed_pages == before.committed_pages + total_pages(backing@)
                &&& after.metadata_bytes == before.metadata_bytes + 48 + 16 * backing@.len()
                &&& after.marks_follow(before)
                &&& system_follows(*old(system), *final(system), before, after)
                &&& after.limits.maximum_committed_pages matches Some(most)
                    ==> final(memory).extent_pages + total_pages(final(memory).growth_ranges@)
                    + after.committed_pages <= most
                &&& after.limits.maximum_reserved_pages matches Some(most) ==> after.reserved_pages
                    <= most
                &&& after.mappings@.len() <= after.limits.maximum_mappings
                &&& after.metadata_bytes <= after.limits.maximum_metadata_bytes
                &&& final(system).private_metadata_bytes <= final(system).global_metadata_limit
                &&& final(system).system_commit_limit matches Some(most)
                    ==> final(system).application_committed_pages <= most
            },
            Err((failure, returned)) => {
                &&& map_verdict(*old(system), *old(memory), range, backing@)
                    == Err::<(), PrivateFailure>(failure)
                &&& returned@ == backing@
                &&& *final(memory) == *old(memory)
                &&& *final(system) == *old(system)
            },
        },
{
    let ghost before = memory.private_memory;
    proof {
        let mappings = before.mappings@;
        lemma_reserved_bound(mappings, before.arena_end as int);
        lemma_frames_len(backing@);
        lemma_room(before, range);
    }
    let pages: u64 = range.page_count();
    let reserved: u64 = memory.private_memory.reserved_pages + pages;
    let committed: u64 = if backing.len() > 0 {
        memory.private_memory.committed_pages + pages
    } else {
        memory.private_memory.committed_pages
    };
    let charge: u64 = match (backing.len() as u64).checked_mul(EXTENT_RECORD_BYTES) {
        Some(bytes) => match bytes.checked_add(MAPPING_RECORD_BYTES) {
            Some(bytes) => bytes,
            None => return Err((PrivateFailure::Terminal, backing)),
        },
        None => return Err((PrivateFailure::Terminal, backing)),
    };
    let metadata: u64 = match memory.private_memory.metadata_bytes.checked_add(charge) {
        Some(bytes) => bytes,
        None => return Err((PrivateFailure::Terminal, backing)),
    };
    let mapping_count: u64 = memory.private_memory.mappings.len() as u64 + 1;
    match private_policy_allows(system, memory, reserved, committed, mapping_count, metadata) {
        Ok(()) => {},
        Err(failure) => return Err((failure, backing)),
    }
    let mapping = PrivateMapping { range, protection, backing };
    let at = insert_private_mapping(&mut memory.private_memory.mappings, mapping);
    let ghost inserted = memory.private_memory;
    proof {
        if at == before.mappings@.len() {
            assert(inserted.mappings@.last() == mapping);
        } else {
            assert(inserted.mappings@.last() == before.mappings@.last());
        }
        assert forall|page: int| #![trigger inserted.page(page)] inserted.page(page) == (
        if range.covers(page) {
            Some(mapping.entry(page))
        } else {
            before.page(page)
        }) by {
            assert(lookup(inserted.mappings@, page) == inserted.page(page));
        }
    }
    let booked = commit_private_accounting(
        system,
        &mut memory.private_memory,
        reserved,
        committed,
        metadata,
    );
    proof {
        assert(booked is Ok);
        let after = memory.private_memory;
        assert forall|page: int| #![trigger after.page(page)] after.page(page) == inserted.page(
            page,
        ) by {}
    }
    Ok(())
}

/// A free range leaves room in the page counters.
proof fn lemma_room(private: PrivateMemory, range: PageRange)
    requires
        private.well_formed(),
        is_free(private, range),
    ensures
        private.reserved_pages + range.pages() <= u64::MAX,
        private.mappings@.len() + 1 <= u64::MAX,
{
    let mappings = private.mappings@;
    let limit = (private.arena_end / 4096) as int;
    lemma_reserved_bound(mappings, limit);
}

/// Position of the mapping that holds all of `range`.
pub fn find_mapping(mappings: &Vec<PrivateMapping>, range: PageRange) -> (found: Option<usize>)
    requires
        ordered(mappings@),
        range.well_formed(),
    ensures
        match found {
            Some(i) => i < mappings@.len() && mappings@[i as int].range.includes(range),
            None => forall|i: int|
                0 <= i < mappings@.len() ==> !(#[trigger] mappings@[i]).range.includes(range),
        },
{
    let mut i: usize = 0;
    while i < mappings.len()
        invariant
            i <= mappings@.len(),
            forall|k: int| 0 <= k < i ==> !(#[trigger] mappings@[k]).range.includes(range),
        decreases mappings@.len() - i,
    {
        let held = mappings[i].range;
        if held.start() <= range.start() && range.end() <= held.end() {
            return Some(i);
        }
        i = i + 1;
    }
    None
}

/// The pieces that take the place of a mapping whose requested pages change.
pub open spec fn is_change(
    pieces: Seq<PrivateMapping>,
    mapping: PrivateMapping,
    range: PageRange,
    middle: Option<Protection>,
    backing: Seq<PageRange>,
) -> bool {
    &&& ordered(pieces)
    &&& forall|i: int|
        0 <= i < pieces.len() ==> mapping.range.includes((#[trigger] pieces[i]).range)
    &&& forall|page: int|
        #![trigger lookup(pieces, page)]
        lookup(pieces, page) == if !mapping.range.covers(page) {
            None
        } else if !range.covers(page) {
            Some(mapping.entry(page))
        } else {
            match middle {
                Some(protection) => Some(
                    PageEntry {
                        protection,
                        frame: if backing.len() > 0 {
                            Some(frames(backing)[page - range.first()])
                        } else {
                            mapping.entry(page).frame
                        },
                    },
                ),
                None => None,
            }
        }
}

/// Put frames behind the requested pages of a split reservation.
pub(crate) fn back_middle(split: &mut Split, Ghost(mapping): Ghost<PrivateMapping>, Ghost(protection): Ghost<
    Protection,
>, range: PageRange, backing: Vec<PageRange>)
    requires
        mapping.well_formed(),
        range.well_formed(),
        mapping.range.includes(range),
        !mapping.backed(),
        is_split(*old(split), mapping, range, Some(protection)),
        models(old(split).replacements@) == cut(
            mapping@,
            range,
            Some(protection),
            Seq::empty(),
        ),
        is_backing(backing@, range),
        backing@.len() > 0,
    ensures
        models(final(split).replacements@) == cut(mapping@, range, Some(protection), backing@),
        is_change(final(split).replacements@, mapping, range, Some(protection), backing@),
        final(split).replacements@.len() == old(split).replacements@.len(),
        reserved_total(final(split).replacements@) == mapping.range.pages(),
        committed_total(final(split).replacements@) == range.pages(),
        extent_total(final(split).replacements@) == backing@.len(),
        final(split).middle == old(split).middle,
        final(split).middle < final(split).replacements@.len(),
        final(split).replacements@[final(split).middle as int].backing@ == backing@,
        final(split).replacements@[final(split).middle as int].range == old(split).replacements@[old(split).middle as int].range,
{
    let ghost before = split.replacements@;
    let ghost extents = backing@;
    let at: usize = split.middle;
    proof {
        split_changes_only_the_request(*split, mapping, range, Some(protection));
    }
    let old_middle = split.replacements.remove(at);
    let middle = PrivateMapping {
        range: old_middle.range,
        protection: old_middle.protection,
        backing,
    };
    let ghost whole = middle;
    split.replacements.insert(at, middle);
    proof {
        let pieces = split.replacements@;
        assert(pieces =~= before.update(at as int, whole));
        assert(models(pieces) =~= cut(mapping@, range, Some(protection), extents)) by {
            let head = part_before(mapping@, range);
            let tail = part_after(mapping@, range);
            let bare = part_between(mapping@, range, Some(protection), Seq::empty());
            let full = part_between(mapping@, range, Some(protection), extents);
            let list = models(before);
            assert(list == head + bare + tail);
            assert(head.len() == at);
            assert(list[at as int] == bare[0]);
            assert(list[at as int] == before[at as int]@);
            assert(whole@ == full[0]);
            assert(models(pieces) =~= list.update(at as int, whole@));
            assert(head + full + tail =~= list.update(at as int, full[0]));
        }
        lemma_frames_len(extents);
        assert forall|i: int, j: int| 0 <= i < j < pieces.len() implies (
        #[trigger] pieces[i]).range.past() <= (#[trigger] pieces[j]).range.first() by {
            assert(before[i].range.past() <= before[j].range.first());
        }
        assert forall|i: int| 0 <= i < pieces.len() implies (#[trigger] pieces[i]).well_formed() by {
            assert(before[i].well_formed());
        }
        assert forall|i: int| 0 <= i < pieces.len() implies mapping.range.includes(
            (#[trigger] pieces[i]).range,
        ) by {
            assert(mapping.range.includes(before[i].range));
        }
        assert forall|page: int| #![trigger lookup(pieces, page)] lookup(pieces, page) == (
        if !mapping.range.covers(page) {
            None
        } else if !range.covers(page) {
            Some(mapping.entry(page))
        } else {
            Some(PageEntry { protection, frame: Some(frames(extents)[page - range.first()]) })
        }) by {
            let _ = lookup(before, page);
            if exists|k: int| covered_by(pieces, k, page) {
                let k = choose|k: int| covered_by(pieces, k, page);
                lemma_lookup(pieces, k, page);
                assert(covered_by(before, k, page));
                lemma_lookup(before, k, page);
                if k != at {
                    if k < at {
                        assert(before[k].range.past() <= before[at as int].range.first());
                    } else {
                        assert(before[at as int].range.past() <= before[k].range.first());
                    }
                }
            } else {
                assert forall|k: int| !covered_by(before, k, page) by {
                    if covered_by(before, k, page) {
                        assert(covered_by(pieces, k, page));
                    }
                }
            }
        }
        reveal_with_fuel(reserved_total, 4);
        reveal_with_fuel(committed_total, 4);
        reveal_with_fuel(extent_total, 4);
    }
}

/// What policy says about replacing mapping `index` by `pieces`.
pub open spec fn change_verdict(
    system: SystemMemory,
    memory: ApplicationMemory,
    index: int,
    pieces: Seq<MappingModel>,
    reserved: int,
    committed: int,
) -> Result<(), PrivateFailure> {
    let list = replaced(models(memory.private_memory.mappings@), index, pieces);
    if model_metadata(list) > u64::MAX {
        Err(PrivateFailure::Terminal)
    } else {
        policy_verdict(
            system,
            memory,
            reserved,
            committed,
            list.len() as int,
            model_metadata(list),
        )
    }
}

/// Number of mappings and metadata charge after replacing mapping `index`.
pub fn private_replacement_metadata(
    private: &PrivateMemory,
    index: usize,
    replacements: &Vec<PrivateMapping>,
) -> (totals: Option<(u64, u64)>)
    requires
        private.well_formed(),
        index < private.mappings@.len(),
    ensures
        ({
            let list = replaced(private.mappings@, index as int, replacements@);
            &&& match totals {
                Some(t) => t.0 == list.len() && t.1 == metadata_total(list),
                None => metadata_total(list) > u64::MAX,
            }
            &&& metadata_total(list) == model_metadata(
                replaced(models(private.mappings@), index as int, models(replacements@)),
            )
        }),
{
    let ghost list = replaced(private.mappings@, index as int, replacements@);
    proof {
        lemma_models_replaced(private.mappings@, index as int, replacements@);
        lemma_model_extents(list);
        lemma_replaced_totals(private.mappings@, index as int, replacements@);
        lemma_extents_nonnegative(private.mappings@);
        lemma_extents_nonnegative(replacements@);
        lemma_extent_share(private.mappings@, index as int);
    }
    let fresh: u64 = match private_metadata_bytes(replacements) {
        Some(bytes) => bytes,
        None => return None,
    };
    let stale: u64 = MAPPING_RECORD_BYTES + private.mappings[index].backing.len() as u64
        * EXTENT_RECORD_BYTES;
    match (private.metadata_bytes - stale).checked_add(fresh) {
        Some(bytes) => {
            Some(
                (
                    (private.mappings.len() as u64 - 1) + replacements.len() as u64,
                    bytes,
                ),
            )
        },
        None => None,
    }
}

proof fn lemma_replaced_totals(
    mappings: Seq<PrivateMapping>,
    index: int,
    pieces: Seq<PrivateMapping>,
)
    requires
        0 <= index < mappings.len(),
    ensures
        extent_total(replaced(mappings, index, pieces)) == extent_total(mappings)
            - mappings[index].backing@.len() + extent_total(pieces),
        replaced(mappings, index, pieces).len() == mappings.len() - 1 + pieces.len(),
{
    let head = mappings.take(index);
    let tail = mappings.skip(index + 1);
    let one = Seq::<PrivateMapping>::empty().push(mappings[index]);
    assert(mappings =~= head + one + tail);
    crate::memory::private::mapping::lemma_totals_concat(head + one, tail);
    crate::memory::private::mapping::lemma_totals_concat(head, one);
    crate::memory::private::mapping::lemma_totals_concat(head + pieces, tail);
    crate::memory::private::mapping::lemma_totals_concat(head, pieces);
    assert(one.drop_last() =~= Seq::<PrivateMapping>::empty());
    reveal_with_fuel(extent_total, 2);
}

proof fn lemma_extents_nonnegative(mappings: Seq<PrivateMapping>)
    ensures
        extent_total(mappings) >= 0,
    decreases mappings.len(),
{
    if mappings.len() > 0 {
        lemma_extents_nonnegative(mappings.drop_last());
    }
}

proof fn lemma_extent_share(mappings: Seq<PrivateMapping>, index: int)
    requires
        0 <= index < mappings.len(),
    ensures
        mappings[index].backing@.len() <= extent_total(mappings),
    decreases mappings.len(),
{
    lemma_extents_nonnegative(mappings.drop_last());
    if index < mappings.len() - 1 {
        lemma_extent_share(mappings.drop_last(), index);
        assert(mappings.drop_last()[index] == mappings[index]);
    }
}

/// A list of mappings whose totals are not booked yet.
pub open spec fn unbooked(memory: ApplicationMemory, reserved: u64, committed: u64) -> bool {
    let private = memory.private_memory;
    &&& all_well_formed(memory.growth_ranges@)
    &&& ordered(private.mappings@)
    &&& private.mappings@.len() > 0 ==> 4096 * private.mappings@.last().range.past()
        <= private.arena_end
    &&& reserved == reserved_total(private.mappings@)
    &&& committed == committed_total(private.mappings@)
    &&& metadata_total(private.mappings@) <= u64::MAX
}

/// The mappings are `list`, and its totals are booked for the application and
/// the system. Where the system totals cannot take them, the application's
/// stay as they were.
pub open spec fn list_booked(
    before: (SystemMemory, ApplicationMemory),
    after: (SystemMemory, ApplicationMemory),
    list: Seq<MappingModel>,
    reserved: u64,
    committed: u64,
) -> bool {
    let old_private = before.1.private_memory;
    let new_private = after.1.private_memory;
    let metadata = model_metadata(list) as u64;
    &&& after.1.same_outside(before.1)
    &&& models(new_private.mappings@) == list
    &&& ordered(new_private.mappings@)
    &&& after.0 == booked_totals(before.0, old_private, metadata, committed)
    &&& if bookable(before.0, old_private, metadata, committed) {
        &&& after.1.well_formed()
        &&& new_private.reserved_pages == reserved
        &&& new_private.committed_pages == committed
        &&& new_private.metadata_bytes == metadata
        &&& new_private.marks_follow(old_private)
    } else {
        new_private.same_books(old_private)
    }
}

/// Join neighbours of one kind and book the totals of the list.
pub fn settle(
    system: &mut SystemMemory,
    memory: &mut ApplicationMemory,
    reserved: u64,
    committed: u64,
) -> (booked: bool)
    requires
        unbooked(*old(memory), reserved, committed),
    ensures
        ({
            let before = old(memory).private_memory;
            let after = final(memory).private_memory;
            let list = joined(models(before.mappings@));
            &&& list_booked(
                (*old(system), *old(memory)),
                (*final(system), *final(memory)),
                list,
                reserved,
                committed,
            )
            &&& booked == bookable(*old(system), before, model_metadata(list) as u64, committed)
            &&& coalesced(after.mappings@)
            &&& forall|page: int|
                #![trigger after.page(page)]
                after.page(page) == before.page(page)
        }),
{
    let ghost before = memory.private_memory;
    proof {
        joining_charges_no_more(before.mappings@);
        lemma_model_extents(before.mappings@);
        lemma_extents_nonnegative(before.mappings@);
    }
    coalesce_private_mappings(&mut memory.private_memory.mappings);
    let ghost whole = memory.private_memory.mappings@;
    proof {
        lemma_model_extents(whole);
        lemma_extents_nonnegative(whole);
        lemma_reserved_bound(
            whole,
            if whole.len() > 0 {
                whole.last().range.past()
            } else {
                0
            },
        );
        assert forall|page: int| #![trigger lookup(whole, page)] lookup(whole, page)
            == before.page(page) by {}
    }
    let metadata: u64 = match private_metadata_bytes(&memory.private_memory.mappings) {
        Some(bytes) => bytes,
        None => {
            assert(false);
            return false;
        },
    };
    let booked = commit_private_accounting(
        system,
        &mut memory.private_memory,
        reserved,
        committed,
        metadata,
    );
    proof {
        let after = memory.private_memory;
        assert(after.mappings@ == whole);
        assert forall|page: int| #![trigger after.page(page)] after.page(page) == before.page(
            page,
        ) by {
            let _ = lookup(whole, page);
        }
    }
    booked.is_ok()
}

/// Put pieces inside its range in the place of mapping `index`; nothing is
/// booked.
pub fn replace_mapping(
    memory: &mut ApplicationMemory,
    index: usize,
    pieces: Vec<PrivateMapping>,
    reserved: u64,
    committed: u64,
)
    requires
        old(memory).well_formed(),
        index < old(memory).private_memory.mappings@.len(),
        ordered(pieces@),
        forall|i: int|
            0 <= i < pieces@.len() ==> old(memory).private_memory.mappings@[index as int].range.includes(
                (#[trigger] pieces@[i]).range,
            ),
        reserved == reserved_total(
            replaced(old(memory).private_memory.mappings@, index as int, pieces@),
        ),
        committed == committed_total(
            replaced(old(memory).private_memory.mappings@, index as int, pieces@),
        ),
        metadata_total(replaced(old(memory).private_memory.mappings@, index as int, pieces@))
            <= u64::MAX,
    ensures
        ({
            let before = old(memory).private_memory;
            let after = final(memory).private_memory;
            &&& *final(memory) == (ApplicationMemory { private_memory: after, ..*old(memory) })
            &&& after.same_books(before)
            &&& models(after.mappings@) == replaced(
                models(before.mappings@),
                index as int,
                models(pieces@),
            )
            &&& unbooked(*final(memory), reserved, committed)
            &&& forall|page: int|
                #![trigger after.page(page)]
                after.page(page) == if before.mappings@[index as int].range.covers(page) {
                    lookup(pieces@, page)
                } else {
                    before.page(page)
                }
        }),
{
    let ghost before = memory.private_memory;
    let ghost list = replaced(before.mappings@, index as int, pieces@);
    proof {
        replacement_is_local(before.mappings@, index as int, pieces@);
        lemma_replaced_end(before.mappings@, index as int, pieces@);
        lemma_models_replaced(before.mappings@, index as int, pieces@);
    }
    install_private_replacements(&mut memory.private_memory.mappings, index, pieces);
    proof {
        let after = memory.private_memory;
        assert forall|page: int| #![trigger after.page(page)] after.page(page) == (
        if before.mappings@[index as int].range.covers(page) {
            lookup(pieces@, page)
        } else {
            before.page(page)
        }) by {
            let _ = lookup(list, page);
        }
    }
}

/// A change that policy lets through can be booked: joining the pieces to their
/// neighbours only lowers the metadata charge.
pub proof fn allowed_changes_are_booked(
    system: SystemMemory,
    memory: ApplicationMemory,
    index: int,
    pieces: Seq<PrivateMapping>,
    reserved: int,
    committed: u64,
)
    requires
        memory.well_formed(),
        0 <= index < memory.private_memory.mappings@.len(),
        ordered(pieces),
        forall|i: int|
            0 <= i < pieces.len() ==> memory.private_memory.mappings@[index].range.includes(
                (#[trigger] pieces[i]).range,
            ),
        change_verdict(
            system,
            memory,
            index,
            models(pieces),
            reserved,
            committed as int,
        ) is Ok,
    ensures
        bookable(
            system,
            memory.private_memory,
            model_metadata(
                joined(
                    replaced(models(memory.private_memory.mappings@), index, models(pieces)),
                ),
            ) as u64,
            committed,
        ),
{
    let mappings = memory.private_memory.mappings@;
    let list = replaced(mappings, index, pieces);
    replacement_is_local(mappings, index, pieces);
    lemma_models_replaced(mappings, index, pieces);
    joining_charges_no_more(list);
    lemma_joined_charge(joined(models(list)));
}

proof fn lemma_joined_charge(list: Seq<MappingModel>)
    ensures
        model_metadata(list) >= 0,
    decreases list.len(),
{
    if list.len() > 0 {
        lemma_joined_charge(list.drop_last());
    }
}

proof fn lemma_replaced_end(
    mappings: Seq<PrivateMapping>,
    index: int,
    pieces: Seq<PrivateMapping>,
)
    requires
        ordered(mappings),
        0 <= index < mappings.len(),
        ordered(pieces),
        forall|i: int|
            0 <= i < pieces.len() ==> mappings[index].range.includes((#[trigger] pieces[i]).range),
    ensures
        replaced(mappings, index, pieces).len() > 0 ==> replaced(
            mappings,
            index,
            pieces,
        ).last().range.past() <= mappings.last().range.past(),
{
    let list = replaced(mappings, index, pieces);
    if list.len() > 0 {
        if index + 1 < mappings.len() {
            assert(list.last() == mappings.last());
        } else if pieces.len() > 0 {
            assert(list.last() == pieces.last());
            assert(mappings[index].range.includes(pieces[pieces.len() - 1].range));
        } else {
            assert(list.last() == mappings[index - 1]);
            assert(mappings[index - 1].range.past() <= mappings[index].range.first());
            assert(mappings[index].well_formed());
        }
    }
}

/// A new mapping is allowed only where everything that the application would
/// then hold stays within its limits and those of the system.
pub proof fn allowed_mappings_respect_every_limit(
    system: SystemMemory,
    memory: ApplicationMemory,
    range: PageRange,
    backing: Seq<PageRange>,
)
    requires
        map_verdict(system, memory, range, backing) is Ok,
    ensures
        ({
            let private = memory.private_memory;
            let limits = private.limits;
            &&& limits.maximum_committed_pages matches Some(most) ==> memory.extent_pages
                + total_pages(memory.growth_ranges@) + private.committed_pages + total_pages(
                backing,
            ) <= most
            &&& limits.maximum_reserved_pages matches Some(most) ==> private.reserved_pages
                + range.pages() <= most
            &&& private.mappings@.len() + 1 <= limits.maximum_mappings
            &&& private.metadata_bytes + 48 + 16 * backing.len() <= limits.maximum_metadata_bytes
            &&& system.system_commit_limit matches Some(most)
                ==> system.application_committed_pages + total_pages(backing) <= most
            &&& system.private_metadata_bytes + 48 + 16 * backing.len()
                <= system.global_metadata_limit
        }),
{
}

/// A change of a mapping is allowed only where everything that the application
/// would then hold, before its mappings are joined, stays within its limits and
/// those of the system.
pub proof fn allowed_changes_respect_every_limit(
    system: SystemMemory,
    memory: ApplicationMemory,
    index: int,
    pieces: Seq<MappingModel>,
    reserved: int,
    committed: int,
)
    requires
        0 <= index < memory.private_memory.mappings@.len(),
        change_verdict(system, memory, index, pieces, reserved, committed) is Ok,
    ensures
        ({
            let private = memory.private_memory;
            let limits = private.limits;
            let list = models(private.mappings@).take(index) + pieces + models(
                private.mappings@,
            ).skip(index + 1);
            &&& limits.maximum_committed_pages matches Some(most) ==> memory.extent_pages
                + total_pages(memory.growth_ranges@) + committed <= most
            &&& limits.maximum_reserved_pages matches Some(most) ==> reserved <= most
            &&& private.mappings@.len() - 1 + pieces.len() <= limits.maximum_mappings
            &&& 48 * list.len() + 16 * model_extents(list) <= limits.maximum_metadata_bytes
            &&& system.system_commit_limit matches Some(most)
                ==> system.application_committed_pages - private.committed_pages + committed
                <= most
            &&& system.private_metadata_bytes - private.metadata_bytes + 48 * list.len() + 16
                * model_extents(list) <= system.global_metadata_limit
        }),
{
}

/// Where the totals can take them, the books show the pages of the list: what is
/// reserved, what is committed and what it takes to keep it. Memory outside the
/// private mappings stays.
pub proof fn books_show_the_list(
    before: (SystemMemory, ApplicationMemory),
    after: (SystemMemory, ApplicationMemory),
    list: Seq<MappingModel>,
    reserved: u64,
    committed: u64,
)
    requires
        list_booked(before, after, list, reserved, committed),
        bookable(
            before.0,
            before.1.private_memory,
            model_metadata(list) as u64,
            committed,
        ),
    ensures
        after.1.private_memory.reserved_pages == reserved,
        after.1.private_memory.committed_pages == committed,
        after.1.private_memory.metadata_bytes == model_metadata(list) as u64,
        after.1.private_memory.mappings@.len() == list.len(),
        after.1.extent_pages == before.1.extent_pages,
        after.1.heap_pages == before.1.heap_pages,
        after.1.growth_ranges == before.1.growth_ranges,
        after.1.growth_table_frames == before.1.growth_table_frames,
        after.1.private_memory.arena_end == before.1.private_memory.arena_end,
        after.1.private_memory.limits == before.1.private_memory.limits,
{
    assert(models(after.1.private_memory.mappings@).len()
        == after.1.private_memory.mappings@.len());
}

} // verus!
