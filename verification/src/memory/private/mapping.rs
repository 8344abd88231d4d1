//! One private mapping and ordered lists of them.

use crate::memory::extents::{all_well_formed, frames, total_pages};
use crate::memory::pages::PageRange;
use vstd::prelude::*;

verus! {

/// What an application may do with its private pages.
#[derive(Clone, Copy, Debug, PartialEq, Eq, Structural)]
pub enum Protection {
    /// No access.
    NoAccess,
    /// Reads.
    Read,
    /// Reads and writes.
    ReadWrite,
}

/// Rights of an installed page mapping.
#[derive(Clone, Copy, Debug, PartialEq, Eq, Structural)]
pub enum Permissions {
    /// Reads.
    ReadOnly,
    /// Reads and writes.
    ReadWrite,
    /// Reads and instruction fetches.
    ReadExecute,
}

/// The page-table rights that a protection needs; none for no access.
pub fn private_permissions(protection: Protection) -> (permissions: Option<Permissions>)
    ensures
        permissions == match protection {
            Protection::NoAccess => None,
            Protection::Read => Some(Permissions::ReadOnly),
            Protection::ReadWrite => Some(Permissions::ReadWrite),
        },
{
    match protection {
        Protection::NoAccess => None,
        Protection::Read => Some(Permissions::ReadOnly),
        Protection::ReadWrite => Some(Permissions::ReadWrite),
    }
}

/// A run of private pages with one protection, either reserved only or backed
/// page by page by physical extents.
#[derive(Debug)]
pub struct PrivateMapping {
    /// Virtual pages.
    pub range: PageRange,
    /// Access that the application asked for.
    pub protection: Protection,
    /// Physical extents in page order; empty for a reservation.
    pub backing: Vec<PageRange>,
}

/// What a mapping is: its pages, the access to them, and its extents.
pub ghost struct MappingModel {
    /// Virtual pages.
    pub range: PageRange,
    /// Access that the application asked for.
    pub protection: Protection,
    /// Physical extents in page order; empty for a reservation.
    pub backing: Seq<PageRange>,
}

impl View for PrivateMapping {
    type V = MappingModel;

    open spec fn view(&self) -> MappingModel {
        MappingModel {
            range: self.range,
            protection: self.protection,
            backing: self.backing@,
        }
    }
}

/// What each mapping of a list is.
pub open spec fn models(mappings: Seq<PrivateMapping>) -> Seq<MappingModel> {
    Seq::new(mappings.len(), |i: int| mappings[i]@)
}

/// The number of extents behind all mappings.
pub open spec fn model_extents(list: Seq<MappingModel>) -> int
    decreases list.len(),
{
    if list.len() == 0 {
        0
    } else {
        model_extents(list.drop_last()) + list.last().backing.len()
    }
}

/// Metadata charge of a list of mappings.
pub open spec fn model_metadata(list: Seq<MappingModel>) -> int {
    48 * list.len() + 16 * model_extents(list)
}

pub(crate) proof fn lemma_model_extents(mappings: Seq<PrivateMapping>)
    ensures
        model_extents(models(mappings)) == extent_total(mappings),
    decreases mappings.len(),
{
    if mappings.len() > 0 {
        lemma_model_extents(mappings.drop_last());
        assert(models(mappings).drop_last() =~= models(mappings.drop_last()));
    }
}

/// State of one private page.
pub ghost struct PageEntry {
    /// Access that the application asked for.
    pub protection: Protection,
    /// The physical frame behind the page, if it is committed.
    pub frame: Option<int>,
}

impl PrivateMapping {
    /// Whether physical frames stand behind the pages.
    pub open spec fn backed(self) -> bool {
        self.backing@.len() > 0
    }

    /// The frames behind the pages, in page order.
    pub open spec fn frames(self) -> Seq<int> {
        frames(self.backing@)
    }

    /// The backing is absent or holds exactly one frame for each page.
    pub open spec fn well_formed(self) -> bool {
        &&& self.range.well_formed()
        &&& all_well_formed(self.backing@)
        &&& self.backed() ==> total_pages(self.backing@) == self.range.pages()
    }

    /// State of page `page`, which the mapping covers.
    pub open spec fn entry(self, page: int) -> PageEntry {
        PageEntry {
            protection: self.protection,
            frame: if self.backed() {
                Some(self.frames()[page - self.range.first()])
            } else {
                None
            },
        }
    }

    /// Pages with a frame behind them.
    pub open spec fn committed(self) -> int {
        total_pages(self.backing@)
    }
}

/// Mappings in ascending order without overlap, each well formed.
pub open spec fn ordered(mappings: Seq<PrivateMapping>) -> bool {
    &&& forall|i: int| 0 <= i < mappings.len() ==> (#[trigger] mappings[i]).well_formed()
    &&& forall|i: int, j: int|
        0 <= i < j < mappings.len() ==> (#[trigger] mappings[i]).range.past() <= (
        #[trigger] mappings[j]).range.first()
}

/// Whether mapping `i` covers `page`.
pub open spec fn covered_by(mappings: Seq<PrivateMapping>, i: int, page: int) -> bool {
    0 <= i < mappings.len() && mappings[i].range.covers(page)
}

/// State of page `page` in an address space with these mappings.
pub open spec fn lookup(mappings: Seq<PrivateMapping>, page: int) -> Option<PageEntry> {
    if exists|i: int| covered_by(mappings, i, page) {
        let i = choose|i: int| covered_by(mappings, i, page);
        Some(mappings[i].entry(page))
    } else {
        None
    }
}

/// The sum of the mappings' pages.
pub open spec fn reserved_total(mappings: Seq<PrivateMapping>) -> int
    decreases mappings.len(),
{
    if mappings.len() == 0 {
        0
    } else {
        reserved_total(mappings.drop_last()) + mappings.last().range.pages()
    }
}

/// The sum of the mappings' committed pages.
pub open spec fn committed_total(mappings: Seq<PrivateMapping>) -> int
    decreases mappings.len(),
{
    if mappings.len() == 0 {
        0
    } else {
        committed_total(mappings.drop_last()) + mappings.last().committed()
    }
}

/// The number of extents behind all mappings.
pub open spec fn extent_total(mappings: Seq<PrivateMapping>) -> int
    decreases mappings.len(),
{
    if mappings.len() == 0 {
        0
    } else {
        extent_total(mappings.drop_last()) + mappings.last().backing@.len()
    }
}

pub(crate) proof fn lemma_lookup(mappings: Seq<PrivateMapping>, i: int, page: int)
    requires
        ordered(mappings),
        covered_by(mappings, i, page),
    ensures
        lookup(mappings, page) == Some(mappings[i].entry(page)),
{
    let j = choose|j: int| covered_by(mappings, j, page);
    assert(covered_by(mappings, j, page));
    if j < i {
        assert(mappings[j].range.past() <= mappings[i].range.first());
    } else if i < j {
        assert(mappings[i].range.past() <= mappings[j].range.first());
    }
}

pub(crate) proof fn lemma_totals_concat(a: Seq<PrivateMapping>, b: Seq<PrivateMapping>)
    ensures
        reserved_total(a + b) == reserved_total(a) + reserved_total(b),
        committed_total(a + b) == committed_total(a) + committed_total(b),
        extent_total(a + b) == extent_total(a) + extent_total(b),
    decreases b.len(),
{
    if b.len() == 0 {
        assert(a + b =~= a);
    } else {
        lemma_totals_concat(a, b.drop_last());
        assert((a + b).drop_last() =~= a + b.drop_last());
    }
}

/// Ordered mappings below page `limit` reserve at most `limit` pages.
pub(crate) proof fn lemma_reserved_bound(mappings: Seq<PrivateMapping>, limit: int)
    requires
        ordered(mappings),
        mappings.len() > 0 ==> mappings.last().range.past() <= limit,
        0 <= limit,
    ensures
        0 <= reserved_total(mappings) <= limit,
        mappings.len() <= reserved_total(mappings),
        0 <= committed_total(mappings) <= reserved_total(mappings),
        0 <= extent_total(mappings) <= committed_total(mappings),
    decreases mappings.len(),
{
    if mappings.len() > 0 {
        let last = mappings.last();
        assert(last.well_formed());
        crate::memory::extents::lemma_frames_len(last.backing@);
        let rest = mappings.drop_last();
        assert(ordered(rest)) by {
            assert forall|i: int, j: int| 0 <= i < j < rest.len() implies (
            #[trigger] rest[i]).range.past() <= (#[trigger] rest[j]).range.first() by {
                assert(rest[i] == mappings[i] && rest[j] == mappings[j]);
            }
            assert forall|i: int| 0 <= i < rest.len() implies (#[trigger] rest[i]).well_formed() by {
                assert(rest[i] == mappings[i]);
            }
        }
        if rest.len() > 0 {
            assert(rest.last() == mappings[mappings.len() - 2]);
        }
        lemma_reserved_bound(rest, last.range.first());
    }
}

/// Metadata is 48 bytes for each mapping and 16 for each of its extents.
pub proof fn metadata_counts_mappings_and_extents(list: Seq<MappingModel>, more: MappingModel)
    ensures
        model_metadata(Seq::empty()) == 0,
        model_metadata(list.push(more)) == model_metadata(list) + 48 + 16 * more.backing.len(),
{
    assert(list.push(more).drop_last() =~= list);
}

/// Reserved are all pages of every mapping, committed those of its frames.
pub proof fn totals_count_every_mapping(mappings: Seq<PrivateMapping>, more: PrivateMapping)
    requires
        more.well_formed(),
    ensures
        reserved_total(mappings.push(more)) == reserved_total(mappings) + more.range.pages(),
        more.backed() ==> committed_total(mappings.push(more)) == committed_total(mappings)
            + more.range.pages(),
        !more.backed() ==> committed_total(mappings.push(more)) == committed_total(mappings),
        extent_total(mappings.push(more)) == extent_total(mappings) + more.backing@.len(),
{
    assert(mappings.push(more).drop_last() =~= mappings);
}

/// A page has the protection of the mapping that it lies in, and a frame exactly
/// where that mapping is backed. Pages outside every mapping have no entry.
pub proof fn pages_are_found_in_their_mapping(mappings: Seq<PrivateMapping>, i: int, page: int)
    requires
        ordered(mappings),
    ensures
        0 <= i < mappings.len() && mappings[i].range.covers(page) ==> {
            &&& lookup(mappings, page) matches Some(entry)
            &&& entry.protection == mappings[i].protection
            &&& entry.frame is Some <==> mappings[i].backed()
            &&& mappings[i].backed() ==> entry.frame == Some(
                mappings[i].frames()[page - mappings[i].range.first()],
            )
        },
        (forall|k: int|
            0 <= k < mappings.len() ==> !(#[trigger] mappings[k]).range.covers(page)) ==> lookup(
            mappings,
            page,
        ) is None,
{
    if 0 <= i < mappings.len() && mappings[i].range.covers(page) {
        lemma_lookup(mappings, i, page);
    }
    if forall|k: int| 0 <= k < mappings.len() ==> !(#[trigger] mappings[k]).range.covers(page) {
        assert forall|k: int| !covered_by(mappings, k, page) by {}
    }
}

} // verus!
