//! The private part of an application's address space and its policy.

use crate::memory::extents::{all_well_formed, count_pages, total_pages};
use crate::memory::pages::{PageRange, PAGE_SIZE};
use crate::memory::private::mapping::{
    committed_total, extent_total, lookup, ordered, reserved_total, PageEntry, PrivateMapping,
};
use crate::reply::ReplyStatus;
use vstd::prelude::*;

verus! {

/// Metadata charge of one mapping record.
pub const MAPPING_RECORD_BYTES: u64 = 48;

/// Metadata charge of one extent record.
pub const EXTENT_RECORD_BYTES: u64 = 16;

/// Limits of one application's private memory.
#[derive(Clone, Copy, Debug, PartialEq, Eq, Structural)]
pub struct PrivateLimits {
    /// Most committed pages of the whole process, if limited.
    pub maximum_committed_pages: Option<u64>,
    /// Most reserved private pages, if limited.
    pub maximum_reserved_pages: Option<u64>,
    /// Most mapping records.
    pub maximum_mappings: u64,
    /// Most metadata bytes.
    pub maximum_metadata_bytes: u64,
    /// Most pages that one allocation step takes.
    pub operation_quantum_pages: u64,
}

/// Private mappings of one application with their accounting.
#[derive(Debug)]
pub struct PrivateMemory {
    /// Mappings in address order.
    pub mappings: Vec<PrivateMapping>,
    /// First byte address behind the arena.
    pub arena_end: u64,
    /// Limits of this application.
    pub limits: PrivateLimits,
    /// Pages of all mappings.
    pub reserved_pages: u64,
    /// Pages with a frame behind them.
    pub committed_pages: u64,
    /// Metadata charge of all mappings.
    pub metadata_bytes: u64,
    /// Most pages ever reserved.
    pub high_water_reserved_pages: u64,
    /// Most pages ever committed.
    pub high_water_committed_pages: u64,
    /// Most mappings ever held.
    pub high_water_mappings: u64,
    /// Highest metadata charge ever held.
    pub high_water_metadata_bytes: u64,
}

/// Metadata charge of a list of mappings.
pub open spec fn metadata_total(mappings: Seq<PrivateMapping>) -> int {
    48 * mappings.len() + 16 * extent_total(mappings)
}

/// Why a private-memory call did not succeed.
#[derive(Clone, Copy, Debug, PartialEq, Eq, Structural)]
pub enum PrivateFailure {
    /// The call is answered with this status.
    Reply(ReplyStatus),
    /// Kernel bookkeeping cannot go on; the application has to end.
    Terminal,
}

/// Counters that a query reports.
#[derive(Clone, Copy, Debug, PartialEq, Eq, Structural)]
pub struct PrivateStatistics {
    /// Whether committed pages are limited.
    pub committed_limited: bool,
    /// Whether reserved pages are limited.
    pub reserved_limited: bool,
    /// Limit of committed pages, or zero.
    pub maximum_committed_pages: u64,
    /// Limit of reserved pages, or zero.
    pub maximum_reserved_pages: u64,
    /// Limit of mapping records.
    pub maximum_mappings: u64,
    /// Limit of metadata bytes.
    pub maximum_metadata_bytes: u64,
    /// Most pages that one allocation step takes.
    pub operation_quantum_pages: u64,
    /// Pages of all mappings.
    pub reserved_pages: u64,
    /// Pages with a frame behind them.
    pub committed_pages: u64,
    /// Mapping records.
    pub mappings: u64,
    /// Metadata charge.
    pub metadata_bytes: u64,
    /// Most pages ever reserved.
    pub high_water_reserved_pages: u64,
    /// Most pages ever committed.
    pub high_water_committed_pages: u64,
    /// Most mappings ever held.
    pub high_water_mappings: u64,
    /// Highest metadata charge ever held.
    pub high_water_metadata_bytes: u64,
}

impl PrivateMemory {
    /// The mappings are ordered inside the arena and the counters are exact.
    pub open spec fn well_formed(self) -> bool {
        &&& ordered(self.mappings@)
        &&& self.mappings@.len() > 0 ==> 4096 * self.mappings@.last().range.past()
            <= self.arena_end
        &&& self.reserved_pages == reserved_total(self.mappings@)
        &&& self.committed_pages == committed_total(self.mappings@)
        &&& self.metadata_bytes == metadata_total(self.mappings@)
        &&& self.high_water_reserved_pages >= self.reserved_pages
        &&& self.high_water_committed_pages >= self.committed_pages
        &&& self.high_water_mappings >= self.mappings@.len()
        &&& self.high_water_metadata_bytes >= self.metadata_bytes
    }

    /// State of page `page`.
    pub open spec fn page(self, page: int) -> Option<PageEntry> {
        lookup(self.mappings@, page)
    }

    /// Nothing but the mappings and counters differs from `other`.
    pub open spec fn same_arena(self, other: PrivateMemory) -> bool {
        self.arena_end == other.arena_end && self.limits == other.limits
    }

    /// An empty arena.
    pub fn new(limits: PrivateLimits, arena_end: u64) -> (memory: Self)
        ensures
            memory.well_formed(),
            memory.mappings@.len() == 0,
            memory.arena_end == arena_end,
            memory.limits == limits,
            memory.high_water_reserved_pages == 0,
            memory.high_water_committed_pages == 0,
            memory.high_water_mappings == 0,
            memory.high_water_metadata_bytes == 0,
    {
        PrivateMemory {
            mappings: Vec::new(),
            arena_end,
            limits,
            reserved_pages: 0,
            committed_pages: 0,
            metadata_bytes: 0,
            high_water_reserved_pages: 0,
            high_water_committed_pages: 0,
            high_water_mappings: 0,
            high_water_metadata_bytes: 0,
        }
    }

    /// Counters that a query reports.
    pub open spec fn counters(self) -> PrivateStatistics {
        PrivateStatistics {
            committed_limited: self.limits.maximum_committed_pages is Some,
            reserved_limited: self.limits.maximum_reserved_pages is Some,
            maximum_committed_pages: match self.limits.maximum_committed_pages {
                Some(limit) => limit,
                None => 0,
            },
            maximum_reserved_pages: match self.limits.maximum_reserved_pages {
                Some(limit) => limit,
                None => 0,
            },
            maximum_mappings: self.limits.maximum_mappings,
            maximum_metadata_bytes: self.limits.maximum_metadata_bytes,
            operation_quantum_pages: self.limits.operation_quantum_pages,
            reserved_pages: self.reserved_pages,
            committed_pages: self.committed_pages,
            mappings: self.mappings@.len() as u64,
            metadata_bytes: self.metadata_bytes,
            high_water_reserved_pages: self.high_water_reserved_pages,
            high_water_committed_pages: self.high_water_committed_pages,
            high_water_mappings: self.high_water_mappings,
            high_water_metadata_bytes: self.high_water_metadata_bytes,
        }
    }

    /// Nothing but the list of mappings differs from `other`.
    pub open spec fn same_books(self, other: PrivateMemory) -> bool {
        self == (PrivateMemory { mappings: self.mappings, ..other })
    }

    /// Each mark is the larger one of what it was and of the present total.
    pub open spec fn marks_follow(self, before: PrivateMemory) -> bool {
        &&& self.high_water_reserved_pages == higher(
            before.high_water_reserved_pages,
            self.reserved_pages,
        )
        &&& self.high_water_committed_pages == higher(
            before.high_water_committed_pages,
            self.committed_pages,
        )
        &&& self.high_water_mappings == higher(
            before.high_water_mappings,
            self.mappings@.len() as u64,
        )
        &&& self.high_water_metadata_bytes == higher(
            before.high_water_metadata_bytes,
            self.metadata_bytes,
        )
    }

    /// Counters that a query reports.
    pub fn statistics(&self) -> (statistics: PrivateStatistics)
        ensures
            statistics == self.counters(),
    {
        PrivateStatistics {
            committed_limited: self.limits.maximum_committed_pages.is_some(),
            reserved_limited: self.limits.maximum_reserved_pages.is_some(),
            maximum_committed_pages: self.limits.maximum_committed_pages.unwrap_or(0),
            maximum_reserved_pages: self.limits.maximum_reserved_pages.unwrap_or(0),
            maximum_mappings: self.limits.maximum_mappings,
            maximum_metadata_bytes: self.limits.maximum_metadata_bytes,
            operation_quantum_pages: self.limits.operation_quantum_pages,
            reserved_pages: self.reserved_pages,
            committed_pages: self.committed_pages,
            mappings: self.mappings.len() as u64,
            metadata_bytes: self.metadata_bytes,
            high_water_reserved_pages: self.high_water_reserved_pages,
            high_water_committed_pages: self.high_water_committed_pages,
            high_water_mappings: self.high_water_mappings,
            high_water_metadata_bytes: self.high_water_metadata_bytes,
        }
    }

    /// Ask the allocator for room for `additional` more mapping records.
    ///
    /// Whether there is room is the allocator's word; the mappings stay as
    /// they are.
    pub fn make_room(&mut self, additional: usize) -> (room: bool)
        ensures
            final(self).mappings@ == old(self).mappings@,
            *final(self) == (PrivateMemory { mappings: final(self).mappings, ..*old(self) }),
    {
        self.mappings.try_reserve(additional).is_ok()
    }
}

/// Metadata charge of a list of mappings, when it can be represented.
pub fn private_metadata_bytes(mappings: &Vec<PrivateMapping>) -> (bytes: Option<u64>)
    ensures
        match bytes {
            Some(b) => b == metadata_total(mappings@),
            None => metadata_total(mappings@) > u64::MAX,
        },
{
    let mut extents: u64 = 0;
    let mut i: usize = 0;
    while i < mappings.len()
        invariant
            i <= mappings@.len(),
            extents == extent_total(mappings@.take(i as int)),
        decreases mappings@.len() - i,
    {
        proof {
            assert(mappings@.take(i + 1).drop_last() =~= mappings@.take(i as int));
            lemma_extent_prefix(mappings@, i + 1);
        }
        extents = match extents.checked_add(mappings[i].backing.len() as u64) {
            Some(sum) => sum,
            None => return None,
        };
        i = i + 1;
    }
    assert(mappings@.take(i as int) =~= mappings@);
    let records: u64 = match (mappings.len() as u64).checked_mul(MAPPING_RECORD_BYTES) {
        Some(bytes) => bytes,
        None => {
            proof {
                lemma_extent_prefix(mappings@, 0);
                assert(mappings@.take(0) =~= Seq::<PrivateMapping>::empty());
            }
            return None;
        },
    };
    match extents.checked_mul(EXTENT_RECORD_BYTES) {
        Some(bytes) => records.checked_add(bytes),
        None => None,
    }
}

proof fn lemma_extent_prefix(mappings: Seq<PrivateMapping>, i: int)
    requires
        0 <= i <= mappings.len(),
    ensures
        0 <= extent_total(mappings.take(i)) <= extent_total(mappings),
    decreases mappings.len(),
{
    if i < mappings.len() {
        lemma_extent_prefix(mappings.drop_last(), i);
        assert(mappings.drop_last().take(i) =~= mappings.take(i));
    } else {
        assert(mappings.take(i) =~= mappings);
        if mappings.len() > 0 {
            lemma_extent_prefix(mappings.drop_last(), mappings.len() - 1);
            assert(mappings.drop_last().take(mappings.len() - 1) =~= mappings.drop_last());
        }
    }
}

/// System-wide memory accounting and policy.
#[derive(Clone, Copy, Debug, PartialEq, Eq, Structural)]
pub struct SystemMemory {
    /// Metadata charge of all applications.
    pub private_metadata_bytes: u64,
    /// Committed pages of all applications.
    pub application_committed_pages: u64,
    /// Limit of the metadata charge of all applications.
    pub global_metadata_limit: u64,
    /// Limit of the committed pages of all applications, if any.
    pub system_commit_limit: Option<u64>,
    /// Frames that always stay free.
    pub minimum_free_pages: u64,
}

/// One application's memory: its fixed reservation, heap growth and private
/// mappings.
#[derive(Debug)]
pub struct ApplicationMemory {
    /// Pages of the launch reservation.
    pub extent_pages: u64,
    /// Pages of the initial page-table arena.
    pub table_pages: u64,
    /// Heap pages inside the launch reservation.
    pub heap_pages: u64,
    /// Physical ranges behind heap growth.
    pub growth_ranges: Vec<PageRange>,
    /// Page-table frames added since launch.
    pub growth_table_frames: Vec<u64>,
    /// Private mappings.
    pub private_memory: PrivateMemory,
}

impl ApplicationMemory {
    /// Pages added to the heap since launch.
    pub open spec fn growth_pages(self) -> int {
        total_pages(self.growth_ranges@)
    }

    /// The parts are well formed and their counters fit.
    pub open spec fn well_formed(self) -> bool {
        &&& all_well_formed(self.growth_ranges@)
        &&& self.private_memory.well_formed()
    }

    /// The parts are well formed, whatever is booked for them. That is enough
    /// to give the memory back.
    pub open spec fn parts_well_formed(self) -> bool {
        &&& all_well_formed(self.growth_ranges@)
        &&& ordered(self.private_memory.mappings@)
    }

    /// Nothing but the private memory differs from `other`.
    pub open spec fn same_outside(self, other: ApplicationMemory) -> bool {
        &&& self.extent_pages == other.extent_pages
        &&& self.table_pages == other.table_pages
        &&& self.heap_pages == other.heap_pages
        &&& self.growth_ranges == other.growth_ranges
        &&& self.growth_table_frames == other.growth_table_frames
        &&& self.private_memory.same_arena(other.private_memory)
    }

    /// Memory of a program that was just launched: a reservation, its page
    /// tables, and an empty private arena.
    pub fn launched(
        extent_pages: u64,
        table_pages: u64,
        heap_pages: u64,
        limits: PrivateLimits,
        arena_end: u64,
    ) -> (memory: Self)
        ensures
            memory.well_formed(),
            memory.extent_pages == extent_pages,
            memory.table_pages == table_pages,
            memory.heap_pages == heap_pages,
            memory.growth_ranges@.len() == 0,
            memory.growth_table_frames@.len() == 0,
            memory.private_memory.mappings@.len() == 0,
            memory.private_memory.arena_end == arena_end,
            memory.private_memory.limits == limits,
    {
        ApplicationMemory {
            extent_pages,
            table_pages,
            heap_pages,
            growth_ranges: Vec::new(),
            growth_table_frames: Vec::new(),
            private_memory: PrivateMemory::new(limits, arena_end),
        }
    }

    /// First byte address behind the heap, if it can be represented.
    pub open spec fn heap_end(self, heap_start: int) -> int {
        heap_start + 4096 * (self.heap_pages + self.growth_pages())
    }
}

/// Pages added to the heap since launch.
pub fn application_growth_pages(memory: &ApplicationMemory) -> (pages: Option<u64>)
    requires
        all_well_formed(memory.growth_ranges@),
    ensures
        match pages {
            Some(p) => p == memory.growth_pages(),
            None => memory.growth_pages() > u64::MAX,
        },
{
    count_pages(&memory.growth_ranges)
}

/// First byte address behind the heap.
pub fn private_heap_end(memory: &ApplicationMemory, heap_start: u64) -> (end: Result<
    u64,
    PrivateFailure,
>)
    requires
        all_well_formed(memory.growth_ranges@),
    ensures
        match end {
            Ok(e) => e == memory.heap_end(heap_start as int),
            Err(f) => memory.heap_end(heap_start as int) > u64::MAX && f
                == PrivateFailure::Terminal,
        },
{
    proof {
        crate::memory::extents::lemma_frames_len(memory.growth_ranges@);
    }
    match application_growth_pages(memory) {
        Some(growth) => match memory.heap_pages.checked_add(growth) {
            Some(pages) => match pages.checked_mul(PAGE_SIZE) {
                Some(bytes) => match heap_start.checked_add(bytes) {
                    Some(end) => Ok(end),
                    None => Err(PrivateFailure::Terminal),
                },
                None => Err(PrivateFailure::Terminal),
            },
            None => Err(PrivateFailure::Terminal),
        },
        None => Err(PrivateFailure::Terminal),
    }
}

/// Whether `limit` forbids `value`.
pub open spec fn exceeds(value: int, limit: Option<u64>) -> bool {
    match limit {
        Some(l) => value > l,
        None => false,
    }
}

/// What policy says about an application that would hold these totals.
pub open spec fn policy_verdict(
    system: SystemMemory,
    memory: ApplicationMemory,
    reserved_pages: int,
    committed_pages: int,
    mappings: int,
    metadata_bytes: int,
) -> Result<(), PrivateFailure> {
    let limits = memory.private_memory.limits;
    let process = memory.extent_pages + memory.growth_pages() + committed_pages;
    let metadata = system.private_metadata_bytes - memory.private_memory.metadata_bytes
        + metadata_bytes;
    let commit = system.application_committed_pages - memory.private_memory.committed_pages
        + committed_pages;
    if process > u64::MAX {
        Err(PrivateFailure::Terminal)
    } else if exceeds(reserved_pages, limits.maximum_reserved_pages) || exceeds(
        process,
        limits.maximum_committed_pages,
    ) || mappings > limits.maximum_mappings || metadata_bytes > limits.maximum_metadata_bytes {
        Err(PrivateFailure::Reply(ReplyStatus::ResourceLimit))
    } else if !shares_are_counted(system, memory.private_memory) || metadata > u64::MAX || commit
        > u64::MAX {
        Err(PrivateFailure::Terminal)
    } else if metadata > system.global_metadata_limit || exceeds(
        commit,
        system.system_commit_limit,
    ) {
        Err(PrivateFailure::Reply(ReplyStatus::ResourceLimit))
    } else {
        Ok(())
    }
}

/// The system-wide totals contain this application's share.
pub open spec fn shares_are_counted(system: SystemMemory, private: PrivateMemory) -> bool {
    &&& private.metadata_bytes <= system.private_metadata_bytes
    &&& private.committed_pages <= system.application_committed_pages
}

fn over(value: u64, limit: Option<u64>) -> (yes: bool)
    ensures
        yes == exceeds(value as int, limit),
{
    match limit {
        Some(maximum) => value > maximum,
        None => false,
    }
}

/// Replace one share of a total.
pub open spec fn exchanged(total: u64, share: u64, new_share: u64) -> Option<u64> {
    if share <= total && total - share + new_share <= u64::MAX {
        Some((total - share + new_share) as u64)
    } else {
        None
    }
}

fn exchange(total: u64, share: u64, new_share: u64) -> (new_total: Option<u64>)
    ensures
        new_total == exchanged(total, share, new_share),
{
    match total.checked_sub(share) {
        Some(rest) => rest.checked_add(new_share),
        None => None,
    }
}

/// Check every limit of an application that would hold these totals.
pub fn private_policy_allows(
    system: &SystemMemory,
    memory: &ApplicationMemory,
    reserved_pages: u64,
    committed_pages: u64,
    mappings: u64,
    metadata_bytes: u64,
) -> (verdict: Result<(), PrivateFailure>)
    requires
        all_well_formed(memory.growth_ranges@),
    ensures
        verdict == policy_verdict(
            *system,
            *memory,
            reserved_pages as int,
            committed_pages as int,
            mappings as int,
            metadata_bytes as int,
        ),
        verdict is Ok ==> {
            let limits = memory.private_memory.limits;
            &&& limits.maximum_committed_pages matches Some(most) ==> memory.extent_pages
                + total_pages(memory.growth_ranges@) + committed_pages <= most
            &&& limits.maximum_reserved_pages matches Some(most) ==> reserved_pages <= most
            &&& mappings <= limits.maximum_mappings
            &&& metadata_bytes <= limits.maximum_metadata_bytes
            &&& system.private_metadata_bytes - memory.private_memory.metadata_bytes
                + metadata_bytes <= system.global_metadata_limit
            &&& system.system_commit_limit matches Some(most)
                ==> system.application_committed_pages - memory.private_memory.committed_pages
                + committed_pages <= most
        },
{
    proof {
        crate::memory::extents::lemma_frames_len(memory.growth_ranges@);
    }
    let limits = memory.private_memory.limits;
    let growth: u64 = match application_growth_pages(memory) {
        Some(pages) => pages,
        None => return Err(PrivateFailure::Terminal),
    };
    let held: u64 = match memory.extent_pages.checked_add(growth) {
        Some(pages) => pages,
        None => return Err(PrivateFailure::Terminal),
    };
    let process_commit: u64 = match held.checked_add(committed_pages) {
        Some(pages) => pages,
        None => return Err(PrivateFailure::Terminal),
    };
    if over(reserved_pages, limits.maximum_reserved_pages) || over(
        process_commit,
        limits.maximum_committed_pages,
    ) || mappings > limits.maximum_mappings || metadata_bytes > limits.maximum_metadata_bytes {
        return Err(PrivateFailure::Reply(ReplyStatus::ResourceLimit));
    }
    let global_metadata: u64 = match exchange(
        system.private_metadata_bytes,
        memory.private_memory.metadata_bytes,
        metadata_bytes,
    ) {
        Some(bytes) => bytes,
        None => return Err(PrivateFailure::Terminal),
    };
    let system_commit: u64 = match exchange(
        system.application_committed_pages,
        memory.private_memory.committed_pages,
        committed_pages,
    ) {
        Some(pages) => pages,
        None => return Err(PrivateFailure::Terminal),
    };
    if global_metadata > system.global_metadata_limit || over(
        system_commit,
        system.system_commit_limit,
    ) {
        return Err(PrivateFailure::Reply(ReplyStatus::ResourceLimit));
    }
    Ok(())
}

/// The larger one of two totals.
pub open spec fn higher(a: u64, b: u64) -> u64 {
    if a >= b {
        a
    } else {
        b
    }
}

fn highest(a: u64, b: u64) -> (c: u64)
    ensures
        c == higher(a, b),
{
    if a >= b {
        a
    } else {
        b
    }
}

/// Whether the system totals can take an application's new share.
pub open spec fn bookable(
    system: SystemMemory,
    private: PrivateMemory,
    metadata_bytes: u64,
    committed_pages: u64,
) -> bool {
    &&& exchanged(
        system.private_metadata_bytes,
        private.metadata_bytes,
        metadata_bytes,
    ) is Some
    &&& exchanged(
        system.application_committed_pages,
        private.committed_pages,
        committed_pages,
    ) is Some
}

/// The system totals after booking an application's new share. The metadata is
/// booked first, and stays booked where the pages cannot be.
pub open spec fn booked_totals(
    system: SystemMemory,
    private: PrivateMemory,
    metadata_bytes: u64,
    committed_pages: u64,
) -> SystemMemory {
    match exchanged(system.private_metadata_bytes, private.metadata_bytes, metadata_bytes) {
        None => system,
        Some(metadata) => match exchanged(
            system.application_committed_pages,
            private.committed_pages,
            committed_pages,
        ) {
            None => SystemMemory { private_metadata_bytes: metadata, ..system },
            Some(commit) => SystemMemory {
                private_metadata_bytes: metadata,
                application_committed_pages: commit,
                ..system
            },
        },
    }
}

/// Book new totals for the application and the system, whose totals hold the
/// application's share so far.
pub fn commit_private_accounting(
    system: &mut SystemMemory,
    private: &mut PrivateMemory,
    reserved_pages: u64,
    committed_pages: u64,
    metadata_bytes: u64,
) -> (booked: Result<(), PrivateFailure>)
    ensures
        final(private).mappings == old(private).mappings,
        final(private).same_arena(*old(private)),
        *final(system) == booked_totals(
            *old(system),
            *old(private),
            metadata_bytes,
            committed_pages,
        ),
        booked == (if bookable(*old(system), *old(private), metadata_bytes, committed_pages) {
            Ok::<(), PrivateFailure>(())
        } else {
            Err::<(), PrivateFailure>(PrivateFailure::Terminal)
        }),
        booked is Ok ==> {
            &&& final(private).reserved_pages == reserved_pages
            &&& final(private).committed_pages == committed_pages
            &&& final(private).metadata_bytes == metadata_bytes
            &&& final(private).marks_follow(*old(private))
        },
        booked is Err ==> *final(private) == *old(private),
{
    system.private_metadata_bytes = match exchange(
        system.private_metadata_bytes,
        private.metadata_bytes,
        metadata_bytes,
    ) {
        Some(bytes) => bytes,
        None => return Err(PrivateFailure::Terminal),
    };
    system.application_committed_pages = match exchange(
        system.application_committed_pages,
        private.committed_pages,
        committed_pages,
    ) {
        Some(pages) => pages,
        None => return Err(PrivateFailure::Terminal),
    };
    private.reserved_pages = reserved_pages;
    private.committed_pages = committed_pages;
    private.metadata_bytes = metadata_bytes;
    private.high_water_reserved_pages = highest(private.high_water_reserved_pages, reserved_pages);
    private.high_water_committed_pages = highest(
        private.high_water_committed_pages,
        committed_pages,
    );
    private.high_water_mappings = highest(
        private.high_water_mappings,
        private.mappings.len() as u64,
    );
    private.high_water_metadata_bytes = highest(private.high_water_metadata_bytes, metadata_bytes);
    Ok(())
}

/// Policy lets an application's totals through exactly where no limit is broken
/// and the books hold what is counted. The pages of the launch reservation, of
/// every heap growth and of private memory together count against the limit of
/// committed pages; the other applications' shares count against the limits of
/// the system. A broken limit is answered as such, and nothing else is.
pub proof fn policy_counts_every_page(
    system: SystemMemory,
    memory: ApplicationMemory,
    reserved_pages: int,
    committed_pages: int,
    mappings: int,
    metadata_bytes: int,
)
    ensures
        ({
            let private = memory.private_memory;
            let limits = private.limits;
            let verdict = policy_verdict(
                system,
                memory,
                reserved_pages,
                committed_pages,
                mappings,
                metadata_bytes,
            );
            let held = memory.extent_pages + total_pages(memory.growth_ranges@) + committed_pages;
            let others_pages = system.application_committed_pages - private.committed_pages;
            let others_bytes = system.private_metadata_bytes - private.metadata_bytes;
            let process_full = {
                ||| limits.maximum_committed_pages matches Some(most) && held > most
                ||| limits.maximum_reserved_pages matches Some(most) && reserved_pages > most
                ||| mappings > limits.maximum_mappings
                ||| metadata_bytes > limits.maximum_metadata_bytes
            };
            let system_full = {
                ||| system.system_commit_limit matches Some(most) && others_pages
                    + committed_pages > most
                ||| others_bytes + metadata_bytes > system.global_metadata_limit
            };
            let uncounted = {
                ||| others_pages < 0
                ||| others_bytes < 0
                ||| others_pages + committed_pages > u64::MAX
                ||| others_bytes + metadata_bytes > u64::MAX
            };
            &&& verdict is Ok <==> held <= u64::MAX && !process_full && !uncounted && !system_full
            &&& verdict == Err::<(), PrivateFailure>(
                PrivateFailure::Reply(ReplyStatus::ResourceLimit),
            ) <==> held <= u64::MAX && (process_full || (!uncounted && system_full))
            &&& verdict == Err::<(), PrivateFailure>(PrivateFailure::Terminal) <==> held > u64::MAX
                || (!process_full && uncounted)
        }),
{
}

/// Booking an application's new share moves the system totals by the difference
/// and leaves the limits alone; where the books cannot take it, the committed
/// pages stay.
pub proof fn booking_moves_totals_by_the_difference(
    system: SystemMemory,
    private: PrivateMemory,
    metadata_bytes: u64,
    committed_pages: u64,
)
    ensures
        ({
            let after = booked_totals(system, private, metadata_bytes, committed_pages);
            let fits = bookable(system, private, metadata_bytes, committed_pages);
            &&& fits ==> after.application_committed_pages - system.application_committed_pages
                == committed_pages - private.committed_pages
            &&& fits ==> after.private_metadata_bytes - system.private_metadata_bytes
                == metadata_bytes - private.metadata_bytes
            &&& !fits ==> after.application_committed_pages == system.application_committed_pages
            &&& fits <==> {
                &&& private.committed_pages <= system.application_committed_pages
                &&& private.metadata_bytes <= system.private_metadata_bytes
                &&& system.application_committed_pages - private.committed_pages
                    + committed_pages <= u64::MAX
                &&& system.private_metadata_bytes - private.metadata_bytes + metadata_bytes
                    <= u64::MAX
            }
            &&& after.global_metadata_limit == system.global_metadata_limit
            &&& after.system_commit_limit == system.system_commit_limit
            &&& after.minimum_free_pages == system.minimum_free_pages
        }),
{
}

/// Marks never fall and never lie below what they mark.
pub proof fn marks_never_fall(before: PrivateMemory, after: PrivateMemory)
    requires
        after.marks_follow(before),
        after.mappings@.len() <= u64::MAX,
    ensures
        after.high_water_reserved_pages >= before.high_water_reserved_pages,
        after.high_water_reserved_pages >= after.reserved_pages,
        after.high_water_committed_pages >= before.high_water_committed_pages,
        after.high_water_committed_pages >= after.committed_pages,
        after.high_water_mappings >= before.high_water_mappings,
        after.high_water_mappings >= after.mappings@.len(),
        after.high_water_metadata_bytes >= before.high_water_metadata_bytes,
        after.high_water_metadata_bytes >= after.metadata_bytes,
        after.high_water_reserved_pages == before.high_water_reserved_pages
            || after.high_water_reserved_pages == after.reserved_pages,
        after.high_water_committed_pages == before.high_water_committed_pages
            || after.high_water_committed_pages == after.committed_pages,
        after.high_water_mappings == before.high_water_mappings || after.high_water_mappings
            == after.mappings@.len(),
        after.high_water_metadata_bytes == before.high_water_metadata_bytes
            || after.high_water_metadata_bytes == after.metadata_bytes,
{
}

/// A query reports each counter and each limit under its own name.
pub proof fn queries_report_what_they_name(private: PrivateMemory)
    ensures
        ({
            let s = private.counters();
            &&& s.reserved_pages == private.reserved_pages
            &&& s.committed_pages == private.committed_pages
            &&& s.high_water_reserved_pages == private.high_water_reserved_pages
            &&& s.high_water_committed_pages == private.high_water_committed_pages
            &&& s.high_water_metadata_bytes == private.high_water_metadata_bytes
            &&& s.committed_limited == private.limits.maximum_committed_pages is Some
            &&& s.reserved_limited == private.limits.maximum_reserved_pages is Some
            &&& s.high_water_mappings == private.high_water_mappings
            &&& s.metadata_bytes == private.metadata_bytes
            &&& private.mappings@.len() <= u64::MAX ==> s.mappings == private.mappings@.len()
            &&& s.maximum_mappings == private.limits.maximum_mappings
            &&& s.maximum_metadata_bytes == private.limits.maximum_metadata_bytes
            &&& s.operation_quantum_pages == private.limits.operation_quantum_pages
            &&& private.limits.maximum_committed_pages matches Some(most)
                ==> s.maximum_committed_pages == most
            &&& private.limits.maximum_reserved_pages matches Some(most)
                ==> s.maximum_reserved_pages == most
        }),
{
}

/// Metadata is 48 bytes for each mapping and 16 for each extent, and a total
/// changes by the difference of one share.
pub proof fn metadata_and_shares_are_counted(
    mappings: Seq<PrivateMapping>,
    more: PrivateMapping,
    total: u64,
    share: u64,
    new_share: u64,
)
    ensures
        metadata_total(Seq::empty()) == 0,
        metadata_total(mappings.push(more)) == metadata_total(mappings) + 48 + 16
            * more.backing@.len(),
        (exchanged(total, share, new_share) matches Some(after) ==> after - new_share == total
            - share),
        exchanged(total, share, new_share) is None <==> share > total || total - share + new_share
            > u64::MAX,
        higher(total, share) >= total && higher(total, share) >= share && (higher(total, share)
            == total || higher(total, share) == share),
{
    assert(mappings.push(more).drop_last() =~= mappings);
}

} // verus!
