//! Splitting, replacing and joining private mappings.

use crate::memory::extents::{
    all_well_formed, append_extents, extent_slice, frames, lemma_frames_len, seamed,
    sliced, total_pages,
};
use crate::memory::pages::PageRange;
use crate::memory::private::mapping::{
    committed_total, covered_by, extent_total, lemma_lookup, lemma_totals_concat, lookup,
    model_extents, model_metadata, models, ordered, reserved_total, MappingModel, PageEntry,
    PrivateMapping, Protection,
};
use vstd::prelude::*;

verus! {

/// `piece` holds the `count` pages of `mapping` from page `first` on, with the
/// frames behind them and the given protection.
pub open spec fn is_piece(
    piece: PrivateMapping,
    mapping: PrivateMapping,
    first: int,
    count: int,
    protection: Protection,
) -> bool {
    let skip = first - mapping.range.first();
    &&& piece.well_formed()
    &&& piece.range.first() == first
    &&& piece.range.pages() == count
    &&& piece.protection == protection
    &&& piece.backed() == mapping.backed()
    &&& piece.backed() ==> piece.frames() == mapping.frames().subrange(skip, skip + count)
}

/// The `count` pages of `mapping` from page `first` on, with the extents behind
/// them and the given protection.
pub open spec fn part(
    mapping: MappingModel,
    first: int,
    count: int,
    protection: Protection,
) -> MappingModel {
    let skip = first - mapping.range.first();
    MappingModel {
        range: PageRange::spanning(first, count),
        protection,
        backing: sliced(mapping.backing, skip, skip + count),
    }
}

/// The part of a mapping before a requested range, if any.
pub open spec fn part_before(mapping: MappingModel, request: PageRange) -> Seq<MappingModel> {
    let count = request.first() - mapping.range.first();
    if count > 0 {
        seq![part(mapping, mapping.range.first(), count, mapping.protection)]
    } else {
        Seq::empty()
    }
}

/// The part of a mapping after a requested range, if any.
pub open spec fn part_after(mapping: MappingModel, request: PageRange) -> Seq<MappingModel> {
    let count = mapping.range.past() - request.past();
    if count > 0 {
        seq![part(mapping, request.past(), count, mapping.protection)]
    } else {
        Seq::empty()
    }
}

/// The requested part of a mapping with its new protection, and with fresh
/// extents where there are any; nothing where it is given up.
pub open spec fn part_between(
    mapping: MappingModel,
    request: PageRange,
    middle: Option<Protection>,
    fresh: Seq<PageRange>,
) -> Seq<MappingModel> {
    match middle {
        Some(protection) => {
            let kept = part(mapping, request.first(), request.pages(), protection);
            seq![
                MappingModel {
                    backing: if fresh.len() > 0 {
                        fresh
                    } else {
                        kept.backing
                    },
                    ..kept
                },
            ]
        },
        None => Seq::empty(),
    }
}

/// A mapping cut around a requested range: the parts before and after keep
/// their protection, the requested one gets `middle` or is given up.
pub open spec fn cut(
    mapping: MappingModel,
    request: PageRange,
    middle: Option<Protection>,
    fresh: Seq<PageRange>,
) -> Seq<MappingModel> {
    part_before(mapping, request) + part_between(mapping, request, middle, fresh) + part_after(
        mapping,
        request,
    )
}

/// The extents behind a requested range.
pub open spec fn given_up(mapping: MappingModel, request: PageRange) -> Seq<PageRange> {
    let skip = request.first() - mapping.range.first();
    sliced(mapping.backing, skip, skip + request.pages())
}

/// A mapping cut around a requested range.
#[derive(Debug)]
pub struct Split {
    /// What takes the place of the mapping, in address order.
    pub replacements: Vec<PrivateMapping>,
    /// Frames that the requested range gives up.
    pub removed: Vec<PageRange>,
    /// Position of the requested range among the replacements.
    pub middle: usize,
}

/// `split` is `mapping` cut around `request`: the pages before and after keep
/// their protection, the requested ones get `middle` or are given up.
pub open spec fn is_split(
    split: Split,
    mapping: PrivateMapping,
    request: PageRange,
    middle: Option<Protection>,
) -> bool {
    let before = request.first() - mapping.range.first();
    let after = mapping.range.past() - request.past();
    let b = if before > 0 {
        1int
    } else {
        0
    };
    let m = if middle is Some {
        1int
    } else {
        0
    };
    let a = if after > 0 {
        1int
    } else {
        0
    };
    let pieces = split.replacements@;
    &&& pieces.len() == b + m + a
    &&& b == 1 ==> is_piece(
        pieces[0],
        mapping,
        mapping.range.first(),
        before,
        mapping.protection,
    )
    &&& m == 1 ==> is_piece(
        pieces[b],
        mapping,
        request.first(),
        request.pages(),
        middle->0,
    )
    &&& a == 1 ==> is_piece(pieces[b + m], mapping, request.past(), after, mapping.protection)
    &&& split.middle == b
    &&& all_well_formed(split.removed@)
    &&& frames(split.removed@) == if middle is None && mapping.backed() {
        mapping.frames().subrange(before, before + request.pages())
    } else {
        Seq::<int>::empty()
    }
    &&& (split.removed@.len() == 0) == (middle is Some || !mapping.backed())
}

fn piece(mapping: &PrivateMapping, skip: u64, count: u64, protection: Protection) -> (piece:
    PrivateMapping)
    requires
        mapping.well_formed(),
        0 < count,
        skip + count <= mapping.range.pages(),
    ensures
        is_piece(piece, *mapping, mapping.range.first() + skip, count as int, protection),
        piece@ == part(mapping@, mapping.range.first() + skip, count as int, protection),
{
    let range = mapping.range.part(skip, count);
    proof {
        PageRange::lemma_spanning(range);
    }
    let backing = private_backing_slice(mapping, skip, count);
    PrivateMapping { range, protection, backing }
}

/// The extents behind `page_count` pages of a mapping; none for a reservation.
pub fn private_backing_slice(mapping: &PrivateMapping, start_page: u64, page_count: u64) -> (slice:
    Vec<PageRange>)
    requires
        mapping.well_formed(),
        0 < page_count,
        start_page + page_count <= mapping.range.pages(),
    ensures
        slice@ == sliced(mapping.backing@, start_page as int, start_page + page_count),
        all_well_formed(slice@),
        (slice@.len() == 0) == !mapping.backed(),
        mapping.backed() ==> frames(slice@) == mapping.frames().subrange(
            start_page as int,
            start_page + page_count,
        ) && total_pages(slice@) == page_count,
{
    if mapping.backing.len() == 0 {
        let nothing: Vec<PageRange> = Vec::new();
        assert(nothing@ =~= sliced(mapping.backing@, start_page as int, start_page + page_count));
        return nothing;
    }
    match extent_slice(&mapping.backing, start_page, page_count) {
        Some(slice) => {
            proof {
                lemma_frames_len(slice@);
                if slice@.len() == 0 {
                    assert(total_pages(slice@) == 0);
                }
            }
            slice
        },
        None => {
            assert(false);
            Vec::new()
        },
    }
}

/// Cut `mapping` around `request`.
pub fn split_private_mapping(
    mapping: &PrivateMapping,
    request: PageRange,
    middle: Option<Protection>,
) -> (split: Split)
    requires
        mapping.well_formed(),
        request.well_formed(),
        mapping.range.includes(request),
    ensures
        is_split(split, *mapping, request, middle),
        models(split.replacements@) == cut(mapping@, request, middle, Seq::empty()),
        split.removed@ == if middle is None {
            given_up(mapping@, request)
        } else {
            Seq::empty()
        },
{
    let before: u64 = request.first_page() - mapping.range.first_page();
    let count: u64 = request.page_count();
    let after: u64 = mapping.range.page_count() - before - count;
    let mut replacements: Vec<PrivateMapping> = Vec::new();
    let mut removed: Vec<PageRange> = Vec::new();
    if before != 0 {
        replacements.push(piece(mapping, 0, before, mapping.protection));
    }
    let at: usize = replacements.len();
    match middle {
        Some(protection) => {
            replacements.push(piece(mapping, before, count, protection));
        },
        None => {
            removed = private_backing_slice(mapping, before, count);
        },
    }
    if after != 0 {
        replacements.push(piece(mapping, before + count, after, mapping.protection));
    }
    assert(models(replacements@) =~= cut(mapping@, request, middle, Seq::empty()));
    Split { replacements, removed, middle: at }
}

proof fn lemma_piece_entry(
    piece: PrivateMapping,
    mapping: PrivateMapping,
    first: int,
    count: int,
    protection: Protection,
    page: int,
)
    requires
        mapping.well_formed(),
        is_piece(piece, mapping, first, count, protection),
        mapping.range.first() <= first,
        first + count <= mapping.range.past(),
        piece.range.covers(page),
    ensures
        piece.entry(page) == (PageEntry { protection, frame: mapping.entry(page).frame }),
        mapping.range.covers(page),
{
    lemma_frames_len(mapping.backing@);
}

/// A split changes the requested pages only: they take the new protection and
/// keep their frames, or disappear and give up exactly those frames.
pub proof fn split_changes_only_the_request(
    split: Split,
    mapping: PrivateMapping,
    request: PageRange,
    middle: Option<Protection>,
)
    requires
        mapping.well_formed(),
        request.well_formed(),
        mapping.range.includes(request),
        is_split(split, mapping, request, middle),
    ensures
        ordered(split.replacements@),
        forall|i: int|
            0 <= i < split.replacements@.len() ==> mapping.range.includes(
                (#[trigger] split.replacements@[i]).range,
            ),
        forall|page: int|
            #![trigger lookup(split.replacements@, page)]
            lookup(split.replacements@, page) == if !mapping.range.covers(page) {
                None
            } else if !request.covers(page) {
                Some(mapping.entry(page))
            } else {
                match middle {
                    Some(protection) => Some(
                        PageEntry { protection, frame: mapping.entry(page).frame },
                    ),
                    None => None,
                }
            },
        reserved_total(split.replacements@) == mapping.range.pages() - if middle is None {
            request.pages()
        } else {
            0
        },
        committed_total(split.replacements@) == mapping.committed() - total_pages(split.removed@),
        total_pages(split.removed@) == if middle is None && mapping.backed() {
            request.pages()
        } else {
            0
        },
{
    let before = request.first() - mapping.range.first();
    let after = mapping.range.past() - request.past();
    let pieces = split.replacements@;
    let b = if before > 0 {
        1int
    } else {
        0
    };
    let m = if middle is Some {
        1int
    } else {
        0
    };
    lemma_frames_len(mapping.backing@);
    lemma_frames_len(split.removed@);
    assert forall|page: int| #![trigger lookup(pieces, page)] lookup(pieces, page) == (
    if !mapping.range.covers(page) {
        None
    } else if !request.covers(page) {
        Some(mapping.entry(page))
    } else {
        match middle {
            Some(protection) => Some(PageEntry { protection, frame: mapping.entry(page).frame }),
            None => None,
        }
    }) by {
        if before > 0 && pieces[0].range.covers(page) {
            assert(covered_by(pieces, 0, page));
            lemma_lookup(pieces, 0, page);
            lemma_piece_entry(
                pieces[0],
                mapping,
                mapping.range.first(),
                before,
                mapping.protection,
                page,
            );
        } else if middle is Some && pieces[b].range.covers(page) {
            assert(covered_by(pieces, b, page));
            lemma_lookup(pieces, b, page);
            lemma_piece_entry(
                pieces[b],
                mapping,
                request.first(),
                request.pages(),
                middle->0,
                page,
            );
        } else if after > 0 && pieces[b + m].range.covers(page) {
            assert(covered_by(pieces, b + m, page));
            lemma_lookup(pieces, b + m, page);
            lemma_piece_entry(
                pieces[b + m],
                mapping,
                request.past(),
                after,
                mapping.protection,
                page,
            );
        } else {
            assert forall|i: int| !covered_by(pieces, i, page) by {}
        }
    }
    reveal_with_fuel(reserved_total, 4);
    reveal_with_fuel(committed_total, 4);
    if mapping.backed() {
        assert forall|i: int| 0 <= i < pieces.len() implies (#[trigger] pieces[i]).committed()
            == pieces[i].range.pages() by {}
    } else {
        assert(mapping.committed() == 0);
        assert forall|i: int| 0 <= i < pieces.len() implies (#[trigger] pieces[i]).committed()
            == 0 by {}
    }
}

/// The list with mapping `index` replaced by `pieces`.
pub open spec fn replaced<A>(mappings: Seq<A>, index: int, pieces: Seq<A>) -> Seq<A> {
    mappings.take(index) + pieces + mappings.skip(index + 1)
}

pub(crate) proof fn lemma_models_replaced(
    mappings: Seq<PrivateMapping>,
    index: int,
    pieces: Seq<PrivateMapping>,
)
    requires
        0 <= index < mappings.len(),
    ensures
        models(replaced(mappings, index, pieces)) == replaced(
            models(mappings),
            index,
            models(pieces),
        ),
{
    assert(models(replaced(mappings, index, pieces)) =~= replaced(
        models(mappings),
        index,
        models(pieces),
    ));
}

/// Replacing a mapping by pieces inside its range keeps the list ordered and
/// every page outside that range as it was.
pub proof fn replacement_is_local(
    mappings: Seq<PrivateMapping>,
    index: int,
    pieces: Seq<PrivateMapping>,
)
    requires
        ordered(mappings),
        0 <= index < mappings.len(),
        ordered(pieces),
        forall|i: int|
            0 <= i < pieces.len() ==> mappings[index].range.includes((#[trigger] pieces[i]).range),
    ensures
        ordered(replaced(mappings, index, pieces)),
        forall|page: int|
            #![trigger lookup(replaced(mappings, index, pieces), page)]
            lookup(replaced(mappings, index, pieces), page) == if mappings[index].range.covers(
                page,
            ) {
                lookup(pieces, page)
            } else {
                lookup(mappings, page)
            },
        reserved_total(replaced(mappings, index, pieces)) == reserved_total(mappings)
            - mappings[index].range.pages() + reserved_total(pieces),
        committed_total(replaced(mappings, index, pieces)) == committed_total(mappings)
            - mappings[index].committed() + committed_total(pieces),
        extent_total(replaced(mappings, index, pieces)) == extent_total(mappings)
            - mappings[index].backing@.len() + extent_total(pieces),
        replaced(mappings, index, pieces).len() == mappings.len() - 1 + pieces.len(),
{
    let old_one = mappings[index];
    let new = replaced(mappings, index, pieces);
    let n = pieces.len() as int;
    assert(old_one.well_formed());
    assert(forall|k: int| 0 <= k < index ==> new[k] == mappings[k]);
    assert(forall|k: int| index <= k < index + n ==> new[k] == pieces[k - index]);
    assert(forall|k: int| index + n <= k < new.len() ==> new[k] == mappings[k - n + 1]);
    assert forall|i: int, j: int| 0 <= i < j < new.len() implies (#[trigger] new[i]).range.past()
        <= (#[trigger] new[j]).range.first() by {
        if j < index {
            assert(mappings[i].range.past() <= mappings[j].range.first());
        } else if j < index + n {
            assert(old_one.range.includes(pieces[j - index].range));
            if i < index {
                assert(mappings[i].range.past() <= mappings[index].range.first());
            } else {
                assert(pieces[i - index].range.past() <= pieces[j - index].range.first());
            }
        } else {
            let tj = j - n + 1;
            assert(mappings[index].range.past() <= mappings[tj].range.first());
            if i < index {
                assert(mappings[i].range.past() <= mappings[tj].range.first());
            } else if i < index + n {
                assert(old_one.range.includes(pieces[i - index].range));
            } else {
                assert(mappings[i - n + 1].range.past() <= mappings[tj].range.first());
            }
        }
    }
    assert forall|i: int| 0 <= i < new.len() implies (#[trigger] new[i]).well_formed() by {
        if i < index {
            assert(mappings[i].well_formed());
        } else if i < index + n {
            assert(pieces[i - index].well_formed());
        } else {
            assert(mappings[i - n + 1].well_formed());
        }
    }
    assert forall|page: int| #![trigger lookup(new, page)] lookup(new, page) == (
    if old_one.range.covers(page) {
        lookup(pieces, page)
    } else {
        lookup(mappings, page)
    }) by {
        if exists|k: int| covered_by(new, k, page) {
            let k = choose|k: int| covered_by(new, k, page);
            lemma_lookup(new, k, page);
            if k < index {
                assert(covered_by(mappings, k, page));
                lemma_lookup(mappings, k, page);
                assert(mappings[k].range.past() <= mappings[index].range.first());
            } else if k < index + n {
                assert(covered_by(pieces, k - index, page));
                lemma_lookup(pieces, k - index, page);
                assert(old_one.range.includes(pieces[k - index].range));
            } else {
                let t = k - n + 1;
                assert(covered_by(mappings, t, page));
                lemma_lookup(mappings, t, page);
                assert(mappings[index].range.past() <= mappings[t].range.first());
            }
        } else {
            assert forall|k: int| !covered_by(pieces, k, page) by {
                if covered_by(pieces, k, page) {
                    assert(covered_by(new, index + k, page));
                }
            }
            if !old_one.range.covers(page) {
                assert forall|k: int| !covered_by(mappings, k, page) by {
                    if covered_by(mappings, k, page) {
                        if k < index {
                            assert(covered_by(new, k, page));
                        } else if k > index {
                            assert(covered_by(new, k - 1 + n, page));
                        }
                    }
                }
            }
        }
    }
    let head = mappings.take(index);
    let tail = mappings.skip(index + 1);
    let one = Seq::<PrivateMapping>::empty().push(old_one);
    assert(mappings =~= head + one + tail);
    lemma_totals_concat(head + one, tail);
    lemma_totals_concat(head, one);
    lemma_totals_concat(head + pieces, tail);
    lemma_totals_concat(head, pieces);
    assert(one.drop_last() =~= Seq::<PrivateMapping>::empty());
    reveal_with_fuel(reserved_total, 2);
    reveal_with_fuel(committed_total, 2);
    reveal_with_fuel(extent_total, 2);
}

/// Put `replacements` in the place of mapping `index`.
pub fn install_private_replacements(
    mappings: &mut Vec<PrivateMapping>,
    index: usize,
    replacements: Vec<PrivateMapping>,
)
    requires
        index < old(mappings)@.len(),
    ensures
        final(mappings)@ == replaced(old(mappings)@, index as int, replacements@),
{
    let ghost before = mappings@;
    let ghost pieces = replacements@;
    let mut tail = mappings.split_off(index);
    let mut rest = tail.split_off(1);
    let mut replacements = replacements;
    mappings.append(&mut replacements);
    mappings.append(&mut rest);
    assert(mappings@ =~= replaced(before, index as int, pieces));
}

/// Whether two neighbours are one run of pages of one kind.
pub open spec fn joinable(left: PrivateMapping, right: PrivateMapping) -> bool {
    &&& left.range.past() == right.range.first()
    &&& left.protection == right.protection
    &&& left.backed() == right.backed()
}

/// Whether two neighbours are one run of pages of one kind.
pub open spec fn alike(left: MappingModel, right: MappingModel) -> bool {
    &&& left.range.past() == right.range.first()
    &&& left.protection == right.protection
    &&& (left.backing.len() > 0) == (right.backing.len() > 0)
}

/// Two neighbours as one mapping.
pub open spec fn fused(left: MappingModel, right: MappingModel) -> MappingModel {
    MappingModel {
        range: PageRange::spanning(left.range.first(), left.range.pages() + right.range.pages()),
        protection: left.protection,
        backing: seamed(left.backing, right.backing),
    }
}

/// The list with one more mapping, joined to the last one where it can be.
pub open spec fn with_joined(list: Seq<MappingModel>, next: MappingModel) -> Seq<MappingModel> {
    if list.len() > 0 && alike(list.last(), next) {
        list.drop_last().push(fused(list.last(), next))
    } else {
        list.push(next)
    }
}

/// The list with all neighbours of one kind joined, from the first on.
pub open spec fn joined(list: Seq<MappingModel>) -> Seq<MappingModel>
    decreases list.len(),
{
    if list.len() == 0 {
        Seq::empty()
    } else {
        with_joined(joined(list.drop_last()), list.last())
    }
}

/// No two neighbours could be joined.
pub open spec fn settled(list: Seq<MappingModel>) -> bool {
    forall|i: int| 0 < i < list.len() ==> !alike(list[i - 1], #[trigger] list[i])
}

spec fn ranges_fit(list: Seq<MappingModel>) -> bool {
    forall|i: int| 0 <= i < list.len() ==> (#[trigger] list[i]).range.well_formed()
}

proof fn lemma_joined_is_settled(list: Seq<MappingModel>)
    requires
        ranges_fit(list),
    ensures
        settled(joined(list)),
        ranges_fit(joined(list)),
        joined(list).len() <= list.len(),
        model_extents(joined(list)) <= model_extents(list),
    decreases list.len(),
{
    if list.len() > 0 {
        let rest = joined(list.drop_last());
        let next = list.last();
        assert(ranges_fit(list.drop_last())) by {
            assert forall|i: int| 0 <= i < list.len() - 1 implies (
            #[trigger] list.drop_last()[i]).range.well_formed() by {
                assert(list.drop_last()[i] == list[i]);
            }
        }
        assert(next == list[list.len() - 1]);
        lemma_joined_is_settled(list.drop_last());
        if rest.len() > 0 && alike(rest.last(), next) {
            let left = rest.last();
            let whole = fused(left, next);
            let new = rest.drop_last().push(whole);
            assert(rest[rest.len() - 1].range.well_formed());
            PageRange::lemma_spanning_parts(
                left.range.first(),
                left.range.pages() + next.range.pages(),
            );
            assert forall|i: int| 0 < i < new.len() implies !alike(new[i - 1], #[trigger] new[i]) by {
                assert(!alike(rest[i - 1], rest[i]));
            }
            assert forall|i: int| 0 <= i < new.len() implies (
            #[trigger] new[i]).range.well_formed() by {
                if i < new.len() - 1 {
                    assert(new[i] == rest[i]);
                }
            }
            assert(new.drop_last() =~= rest.drop_last());
        } else {
            let new = rest.push(next);
            assert forall|i: int| 0 < i < new.len() implies !alike(new[i - 1], #[trigger] new[i]) by {
                if i < rest.len() {
                    assert(!alike(rest[i - 1], rest[i]));
                }
            }
            assert forall|i: int| 0 <= i < new.len() implies (
            #[trigger] new[i]).range.well_formed() by {
                if i < rest.len() {
                    assert(new[i] == rest[i]);
                }
            }
            assert(new.drop_last() =~= rest);
        }
    }
}

proof fn lemma_settled_is_joined(list: Seq<MappingModel>)
    requires
        settled(list),
    ensures
        joined(list) == list,
    decreases list.len(),
{
    if list.len() > 0 {
        let rest = list.drop_last();
        assert forall|i: int| 0 < i < rest.len() implies !alike(rest[i - 1], #[trigger] rest[i]) by {
            assert(!alike(list[i - 1], list[i]));
        }
        lemma_settled_is_joined(rest);
        if rest.len() > 0 {
            assert(!alike(list[list.len() - 2], list[list.len() - 1]));
        }
        assert(rest.push(list.last()) =~= list);
    } else {
        assert(list =~= Seq::<MappingModel>::empty());
    }
}

/// Joining settles: a list that was joined, or whose neighbours could not be
/// joined in the first place, is left as it is down to its extents, so that
/// joining a second time changes nothing.
pub proof fn joining_settles(mappings: Seq<PrivateMapping>)
    requires
        ordered(mappings),
    ensures
        joined(joined(models(mappings))) == joined(models(mappings)),
        coalesced(mappings) ==> joined(models(mappings)) == models(mappings),
{
    let list = models(mappings);
    assert forall|i: int| 0 <= i < list.len() implies (#[trigger] list[i]).range.well_formed() by {
        assert(mappings[i].well_formed());
    }
    lemma_joined_is_settled(list);
    lemma_settled_is_joined(joined(list));
    if coalesced(mappings) {
        assert forall|i: int| 0 < i < list.len() implies !alike(list[i - 1], #[trigger] list[i]) by {
            assert(!joinable(mappings[i - 1], mappings[i]));
        }
        lemma_settled_is_joined(list);
    }
}

/// Joining mappings charges no more metadata.
pub proof fn joining_charges_no_more(mappings: Seq<PrivateMapping>)
    requires
        ordered(mappings),
    ensures
        model_metadata(joined(models(mappings))) <= model_metadata(models(mappings)),
        joined(models(mappings)).len() <= mappings.len(),
{
    let list = models(mappings);
    assert forall|i: int| 0 <= i < list.len() implies (#[trigger] list[i]).range.well_formed() by {
        assert(mappings[i].well_formed());
    }
    lemma_joined_is_settled(list);
}

/// No two neighbours could be joined.
pub open spec fn coalesced(mappings: Seq<PrivateMapping>) -> bool {
    forall|i: int, j: int|
        0 <= i && j == i + 1 && j < mappings.len() ==> !joinable(
            #[trigger] mappings[i],
            #[trigger] mappings[j],
        )
}

proof fn lemma_join_totals(mappings: Seq<PrivateMapping>, index: int, whole: PrivateMapping)
    requires
        0 < index < mappings.len(),
        whole.range.pages() == mappings[index - 1].range.pages() + mappings[index].range.pages(),
        whole.committed() == mappings[index - 1].committed() + mappings[index].committed(),
        whole.backing@.len() <= mappings[index - 1].backing@.len() + mappings[index].backing@.len(),
    ensures
        ({
            let new = mappings.remove(index).update(index - 1, whole);
            &&& reserved_total(new) == reserved_total(mappings)
            &&& committed_total(new) == committed_total(mappings)
            &&& extent_total(new) <= extent_total(mappings)
        }),
{
    let new = mappings.remove(index).update(index - 1, whole);
    let left = mappings[index - 1];
    let right = mappings[index];
    let head = mappings.take(index - 1);
    let tail = mappings.skip(index + 1);
    let pair = Seq::<PrivateMapping>::empty().push(left).push(right);
    let one = Seq::<PrivateMapping>::empty().push(whole);
    assert(mappings =~= head + pair + tail);
    assert(new =~= head + one + tail);
    lemma_totals_concat(head + pair, tail);
    lemma_totals_concat(head, pair);
    lemma_totals_concat(head + one, tail);
    lemma_totals_concat(head, one);
    assert(one.drop_last() =~= Seq::<PrivateMapping>::empty());
    assert(pair.drop_last() =~= Seq::<PrivateMapping>::empty().push(left));
    assert(pair.drop_last().drop_last() =~= Seq::<PrivateMapping>::empty());
    reveal_with_fuel(reserved_total, 3);
    reveal_with_fuel(committed_total, 3);
    reveal_with_fuel(extent_total, 3);
}

proof fn lemma_join(mappings: Seq<PrivateMapping>, index: int, whole: PrivateMapping)
    requires
        ordered(mappings),
        0 < index < mappings.len(),
        joinable(mappings[index - 1], mappings[index]),
        whole.well_formed(),
        whole.range.first() == mappings[index - 1].range.first(),
        whole.range.pages() == mappings[index - 1].range.pages() + mappings[index].range.pages(),
        whole.protection == mappings[index].protection,
        whole.backed() == mappings[index].backed(),
        whole.frames() == mappings[index - 1].frames() + mappings[index].frames(),
        whole.backing@.len() <= mappings[index - 1].backing@.len() + mappings[index].backing@.len(),
    ensures
        ({
            let new = mappings.remove(index).update(index - 1, whole);
            &&& ordered(new)
            &&& forall|page: int|
                #![trigger lookup(new, page)]
                lookup(new, page) == lookup(mappings, page)
            &&& reserved_total(new) == reserved_total(mappings)
            &&& committed_total(new) == committed_total(mappings)
            &&& extent_total(new) <= extent_total(mappings)
            &&& new.len() == mappings.len() - 1
        }),
{
    let new = mappings.remove(index).update(index - 1, whole);
    let left = mappings[index - 1];
    let right = mappings[index];
    assert(left.well_formed() && right.well_formed());
    lemma_frames_len(left.backing@);
    lemma_frames_len(right.backing@);
    lemma_frames_len(whole.backing@);
    assert(forall|k: int| 0 <= k < index - 1 ==> new[k] == mappings[k]);
    assert(forall|k: int| index <= k < new.len() ==> new[k] == mappings[k + 1]);
    assert forall|i: int, j: int| 0 <= i < j < new.len() implies (#[trigger] new[i]).range.past()
        <= (#[trigger] new[j]).range.first() by {
        let oi = if i < index {
            i
        } else {
            i + 1
        };
        let oj = if j < index {
            j
        } else {
            j + 1
        };
        assert(mappings[oi].range.past() <= mappings[oj].range.first());
        if i == index - 1 {
            assert(mappings[index].range.past() <= mappings[oj].range.first());
        }
    }
    assert forall|i: int| 0 <= i < new.len() implies (#[trigger] new[i]).well_formed() by {
        if i != index - 1 {
            let oi = if i < index {
                i
            } else {
                i + 1
            };
            assert(mappings[oi].well_formed());
        }
    }
    assert forall|page: int| #![trigger lookup(new, page)] lookup(new, page) == lookup(
        mappings,
        page,
    ) by {
        if exists|k: int| covered_by(mappings, k, page) {
            let k = choose|k: int| covered_by(mappings, k, page);
            lemma_lookup(mappings, k, page);
            let nk = if k < index {
                k
            } else {
                k - 1
            };
            assert(covered_by(new, nk, page));
            lemma_lookup(new, nk, page);
            if k == index - 1 || k == index {
                assert(whole.entry(page) == mappings[k].entry(page));
            }
        } else {
            assert forall|k: int| !covered_by(new, k, page) by {
                if covered_by(new, k, page) {
                    if k < index - 1 {
                        assert(covered_by(mappings, k, page));
                    } else if k >= index {
                        assert(covered_by(mappings, k + 1, page));
                    } else {
                        assert(covered_by(mappings, index - 1, page) || covered_by(
                            mappings,
                            index,
                            page,
                        ));
                    }
                }
            }
        }
    }
    lemma_join_totals(mappings, index, whole);
}

/// Join neighbours of one kind.
///
/// Every page keeps its protection and frame; afterwards no two neighbours
/// could be joined.
pub fn coalesce_private_mappings(mappings: &mut Vec<PrivateMapping>)
    requires
        ordered(old(mappings)@),
    ensures
        models(final(mappings)@) == joined(models(old(mappings)@)),
        ordered(final(mappings)@),
        coalesced(final(mappings)@),
        forall|page: int|
            #![trigger lookup(final(mappings)@, page)]
            lookup(final(mappings)@, page) == lookup(old(mappings)@, page),
        reserved_total(final(mappings)@) == reserved_total(old(mappings)@),
        committed_total(final(mappings)@) == committed_total(old(mappings)@),
        extent_total(final(mappings)@) <= extent_total(old(mappings)@),
        final(mappings)@.len() <= old(mappings)@.len(),
        old(mappings)@.len() > 0 ==> final(mappings)@.len() > 0 && final(mappings)@.last().range.past() == old(mappings)@.last().range.past(),
{
    let ghost list = models(mappings@);
    if mappings.len() == 0 {
        assert(models(mappings@) =~= joined(list));
        return;
    }
    let mut index: usize = 1;
    let ghost mut seen: int = 1;
    proof {
        reveal_with_fuel(joined, 2);
        assert(list.take(1).drop_last() =~= Seq::<MappingModel>::empty());
        assert(joined(list.take(1)) =~= list.take(1));
        assert(models(mappings@) =~= joined(list.take(1)) + list.skip(1));
    }
    while index < mappings.len()
        invariant
            1 <= index,
            1 <= seen <= list.len(),
            list == models(old(mappings)@),
            models(mappings@) == joined(list.take(seen)) + list.skip(seen),
            joined(list.take(seen)).len() == index,
            ordered(mappings@),
            forall|page: int|
                #![trigger lookup(mappings@, page)]
                lookup(mappings@, page) == lookup(old(mappings)@, page),
            reserved_total(mappings@) == reserved_total(old(mappings)@),
            committed_total(mappings@) == committed_total(old(mappings)@),
            extent_total(mappings@) <= extent_total(old(mappings)@),
            mappings@.len() <= old(mappings)@.len(),
            old(mappings)@.len() > 0 ==> mappings@.len() > 0 && mappings@.last().range.past()
                == old(mappings)@.last().range.past(),
            forall|i: int|
                0 < i < index && i < mappings@.len() ==> !joinable(
                    mappings@[i - 1],
                    #[trigger] mappings@[i],
                ),
        decreases mappings@.len(), mappings@.len() - index,
    {
        let ghost before = mappings@;
        let left_end: u64 = mappings[index - 1].range.end();
        let right_start: u64 = mappings[index].range.start();
        let same = left_end == right_start && mappings[index - 1].protection
            == mappings[index].protection && (mappings[index - 1].backing.len() == 0) == (
        mappings[index].backing.len() == 0);
        let ghost whole = joined(list.take(seen));
        proof {
            let all = models(mappings@);
            assert(all[index as int] == list[seen]);
            assert(all[index - 1] == whole.last());
            assert(list.take(seen + 1).drop_last() =~= list.take(seen));
            assert(joined(list.take(seen + 1)) == with_joined(whole, list[seen]));
        }
        if !same {
            proof {
                assert(models(mappings@) =~= joined(list.take(seen + 1)) + list.skip(seen + 1));
                seen = seen + 1;
            }
            index = index + 1;
            continue ;
        }
        join_neighbours(mappings, index);
        proof {
            assert(models(mappings@) =~= joined(list.take(seen + 1)) + list.skip(seen + 1));
            seen = seen + 1;
            assert forall|i: int|
                0 < i < index && i < mappings@.len() implies !joinable(
                mappings@[i - 1],
                #[trigger] mappings@[i],
            ) by {
                assert(mappings@[i - 1] == mappings@.take(index - 1)[i - 1]);
                assert(before[i - 1] == before.take(index - 1)[i - 1]);
                if i < index - 1 {
                    assert(mappings@[i] == mappings@.take(index - 1)[i]);
                    assert(before[i] == before.take(index - 1)[i]);
                }
                assert(!joinable(before[i - 1], before[i]));
            }
            assert forall|page: int| #![trigger lookup(mappings@, page)] lookup(mappings@, page)
                == lookup(old(mappings)@, page) by {
                let _ = lookup(before, page);
            }
        }
    }
    proof {
        assert(list.take(seen) =~= list);
        assert(models(mappings@) =~= joined(list));
    }
}

/// Join mapping `index` to the one before it.
fn join_neighbours(mappings: &mut Vec<PrivateMapping>, index: usize)
    requires
        ordered(old(mappings)@),
        0 < index < old(mappings)@.len(),
        joinable(old(mappings)@[index - 1], old(mappings)@[index as int]),
    ensures
        models(final(mappings)@) == models(old(mappings)@).remove(index as int).update(
            index - 1,
            fused(models(old(mappings)@)[index - 1], models(old(mappings)@)[index as int]),
        ),
        ordered(final(mappings)@),
        forall|page: int|
            #![trigger lookup(final(mappings)@, page)]
            lookup(final(mappings)@, page) == lookup(old(mappings)@, page),
        reserved_total(final(mappings)@) == reserved_total(old(mappings)@),
        committed_total(final(mappings)@) == committed_total(old(mappings)@),
        extent_total(final(mappings)@) <= extent_total(old(mappings)@),
        final(mappings)@.len() == old(mappings)@.len() - 1,
        final(mappings)@.last().range.past() == old(mappings)@.last().range.past(),
        final(mappings)@.take(index - 1) == old(mappings)@.take(index - 1),
        final(mappings)@[index - 1].range.first() == old(mappings)@[index - 1].range.first(),
        final(mappings)@[index - 1].protection == old(mappings)@[index - 1].protection,
        final(mappings)@[index - 1].backed() == old(mappings)@[index - 1].backed(),
{
    let ghost before = mappings@;
    proof {
        assert(before[index as int].well_formed());
        assert(before[index - 1].well_formed());
        lemma_frames_len(before[index as int].backing@);
        lemma_frames_len(before[index - 1].backing@);
    }
    let right = mappings.remove(index);
    let mut left = mappings.remove(index - 1);
    left.range = left.range.joined(right.range);
    append_extents(&mut left.backing, &right.backing);
    let ghost whole = left;
    mappings.insert(index - 1, left);
    proof {
        assert(mappings@ =~= before.remove(index as int).update(index - 1, whole));
        lemma_join(before, index as int, whole);
        assert(mappings@.take(index - 1) =~= before.take(index - 1));
        PageRange::lemma_spanning(whole.range);
        assert(models(mappings@) =~= models(before).remove(index as int).update(
            index - 1,
            fused(models(before)[index - 1], models(before)[index as int]),
        ));
    }
}

/// Insert a mapping at its place in the address order.
pub fn insert_private_mapping(mappings: &mut Vec<PrivateMapping>, mapping: PrivateMapping) -> (at:
    usize)
    requires
        ordered(old(mappings)@),
        mapping.well_formed(),
        forall|i: int|
            0 <= i < old(mappings)@.len() ==> mapping.range.apart(
                (#[trigger] old(mappings)@[i]).range,
            ),
    ensures
        at <= old(mappings)@.len(),
        final(mappings)@ == old(mappings)@.insert(at as int, mapping),
        ordered(final(mappings)@),
        forall|page: int|
            #![trigger lookup(final(mappings)@, page)]
            lookup(final(mappings)@, page) == if mapping.range.covers(page) {
                Some(mapping.entry(page))
            } else {
                lookup(old(mappings)@, page)
            },
        reserved_total(final(mappings)@) == reserved_total(old(mappings)@)
            + mapping.range.pages(),
        committed_total(final(mappings)@) == committed_total(old(mappings)@)
            + mapping.committed(),
        extent_total(final(mappings)@) == extent_total(old(mappings)@) + mapping.backing@.len(),
{
    let ghost before = mappings@;
    let start: u64 = mapping.range.start();
    let mut at: usize = 0;
    while at < mappings.len() && mappings[at].range.start() < start
        invariant
            at <= mappings@.len(),
            mappings@ == before,
            ordered(before),
            start == 4096 * mapping.range.first(),
            forall|i: int| 0 <= i < at ==> (#[trigger] before[i]).range.first() < mapping.range.first(),
        decreases mappings@.len() - at,
    {
        at = at + 1;
    }
    let ghost new = before.insert(at as int, mapping);
    proof {
        assert forall|i: int, j: int| 0 <= i < j < new.len() implies (
        #[trigger] new[i]).range.past() <= (#[trigger] new[j]).range.first() by {
            let oi = if i < at {
                i
            } else {
                i - 1
            };
            let oj = if j < at {
                j
            } else {
                j - 1
            };
            if i != at && j != at {
                assert(before[oi].range.past() <= before[oj].range.first());
            } else if j == at {
                assert(before[i].range.first() < mapping.range.first());
                assert(mapping.range.apart(before[i].range));
                assert(before[i].well_formed());
            } else {
                assert(mapping.range.apart(before[oj].range));
                assert(before[oj].well_formed());
                if oj > at {
                    assert(before[at as int].range.past() <= before[oj].range.first());
                    assert(before[at as int].well_formed());
                }
            }
        }
        assert forall|i: int| 0 <= i < new.len() implies (#[trigger] new[i]).well_formed() by {
            if i < at {
                assert(before[i].well_formed());
            } else if i > at {
                assert(before[i - 1].well_formed());
            }
        }
        assert forall|page: int| #![trigger lookup(new, page)] lookup(new, page) == (
        if mapping.range.covers(page) {
            Some(mapping.entry(page))
        } else {
            lookup(before, page)
        }) by {
            if mapping.range.covers(page) {
                assert(covered_by(new, at as int, page));
                lemma_lookup(new, at as int, page);
            } else if exists|k: int| covered_by(before, k, page) {
                let k = choose|k: int| covered_by(before, k, page);
                lemma_lookup(before, k, page);
                let nk = if k < at {
                    k
                } else {
                    k + 1
                };
                assert(covered_by(new, nk, page));
                lemma_lookup(new, nk, page);
            } else {
                assert forall|k: int| !covered_by(new, k, page) by {
                    if covered_by(new, k, page) {
                        if k < at {
                            assert(covered_by(before, k, page));
                        } else if k > at {
                            assert(covered_by(before, k - 1, page));
                        }
                    }
                }
            }
        }
        let head = before.take(at as int);
        let tail = before.skip(at as int);
        let one = Seq::<PrivateMapping>::empty().push(mapping);
        assert(before =~= head + tail);
        assert(new =~= head + one + tail);
        lemma_totals_concat(head, tail);
        lemma_totals_concat(head + one, tail);
        lemma_totals_concat(head, one);
        assert(one.drop_last() =~= Seq::<PrivateMapping>::empty());
        reveal_with_fuel(reserved_total, 2);
        reveal_with_fuel(committed_total, 2);
        reveal_with_fuel(extent_total, 2);
    }
    mappings.insert(at, mapping);
    at
}

/// Cutting a mapping leaves the pages before and behind the request as they were
/// and makes the middle what is asked for: other access, fresh frames, or nothing.
pub proof fn cutting_keeps_what_lies_outside(
    mapping: MappingModel,
    request: PageRange,
    middle: Option<Protection>,
    fresh: Seq<PageRange>,
)
    requires
        mapping.range.well_formed(),
        request.well_formed(),
        mapping.range.includes(request),
    ensures
        ({
            let pieces = cut(mapping, request, middle, fresh);
            let before = request.first() - mapping.range.first();
            let behind = mapping.range.past() - request.past();
            let at = if before > 0 {
                1int
            } else {
                0
            };
            &&& before > 0 ==> pieces[0].range.first() == mapping.range.first()
                && pieces[0].range.pages() == before && pieces[0].protection == mapping.protection
            &&& behind > 0 ==> pieces.last().range.first() == request.past()
                && pieces.last().range.past() == mapping.range.past() && pieces.last().protection
                == mapping.protection
            &&& (middle matches Some(protection) ==> {
                &&& pieces[at].range.first() == request.first()
                &&& pieces[at].range.pages() == request.pages()
                &&& pieces[at].protection == protection
                &&& fresh.len() > 0 ==> pieces[at].backing == fresh
            })
            &&& pieces.len() == at + (if middle is Some {
                1int
            } else {
                0
            }) + (if behind > 0 {
                1int
            } else {
                0
            })
        }),
{
    let before = request.first() - mapping.range.first();
    let behind = mapping.range.past() - request.past();
    if before > 0 {
        PageRange::lemma_spanning_parts(mapping.range.first(), before);
    }
    if behind > 0 {
        PageRange::lemma_spanning_parts(request.past(), behind);
    }
    PageRange::lemma_spanning_parts(request.first(), request.pages());
}

/// Neighbours are joined only where the second begins behind the first with the
/// same access, both with frames or both without; joined, they cover both.
pub proof fn only_like_neighbours_are_joined(left: MappingModel, right: MappingModel)
    requires
        left.range.well_formed(),
        right.range.well_formed(),
    ensures
        alike(left, right) <==> left.range.past() == right.range.first() && left.protection
            == right.protection && (left.backing.len() > 0 <==> right.backing.len() > 0),
        alike(left, right) ==> {
            let whole = fused(left, right);
            &&& whole.range.first() == left.range.first()
            &&& whole.range.past() == right.range.past()
            &&& whole.protection == left.protection
        },
{
    if alike(left, right) {
        PageRange::lemma_spanning_parts(
            left.range.first(),
            left.range.pages() + right.range.pages(),
        );
    }
}

} // verus!
