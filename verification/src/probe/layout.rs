//! Memory of two probed threads: addresses, mapping plan and first contents.

use crate::memory::isolated::{
    IsolatedAllocation, USER_CODE_BASE, USER_DATA_BASE, USER_STACK_BASE,
};
use crate::memory::pages::PageRange;
use crate::memory::plan::{
    range_apart, write_xor_execute, MappingOwner, MappingPlan, MemoryType, PlannedMapping,
};
use crate::memory::private::mapping::Permissions;
use crate::probe::words::{Payload, ThreadStart};
use vstd::prelude::*;

verus! {

/// Metadata bytes that a context may take.
pub const METADATA_LIMIT: u64 = 16_384;

/// Address of the first thread's stack page.
pub const FIRST_STACK: u64 = 0x4000_0001_0000;

/// Address of the sibling's stack page.
pub const SECOND_STACK: u64 = 0x4000_0001_3000;

/// Address of the first thread's thread-local storage.
pub const FIRST_TLS: u64 = 0x4000_0001_6000;

/// Address of the sibling's thread-local storage.
pub const SECOND_TLS: u64 = 0x4000_0001_9000;

/// Address of the first thread's transmit page.
pub const FIRST_TX: u64 = 0x4000_0001_c000;

/// Address of the first thread's receive page.
pub const FIRST_RX: u64 = 0x4000_0001_d000;

/// Address of the sibling's transmit page.
pub const SECOND_TX: u64 = 0x4000_0001_f000;

/// Address of the sibling's receive page.
pub const SECOND_RX: u64 = 0x4000_0002_0000;

/// Address of a private startup page.
pub const STARTUP_PAGE: u64 = 0x4000_0002_2000;

/// Address of the counter that both threads count up.
pub const SHARED_COUNTER: u64 = 0x4000_0000_1010;

/// Address of the first thread's own counter.
pub const FIRST_COUNTER: u64 = 0x4000_0001_6010;

/// Address of the sibling's own counter.
pub const SECOND_COUNTER: u64 = 0x4000_0001_9010;

/// The addresses are three pages apart from the stack base on, so that a page
/// without a mapping follows each stack.
pub proof fn addresses_follow_the_stack_base()
    ensures
        FIRST_STACK == USER_STACK_BASE,
        SECOND_STACK == USER_STACK_BASE + 3 * 4096,
        FIRST_TLS == USER_STACK_BASE + 6 * 4096,
        SECOND_TLS == USER_STACK_BASE + 9 * 4096,
        FIRST_TX == USER_STACK_BASE + 12 * 4096,
        FIRST_RX == FIRST_TX + 4096,
        SECOND_TX == USER_STACK_BASE + 15 * 4096,
        SECOND_RX == SECOND_TX + 4096,
        STARTUP_PAGE == USER_STACK_BASE + 18 * 4096,
        SHARED_COUNTER == USER_DATA_BASE + 16,
        FIRST_COUNTER == FIRST_TLS + 16,
        SECOND_COUNTER == SECOND_TLS + 16,
{
}

/// Where the threads start: both at the program's first instruction, each with
/// its own stack page, thread-local page and eight bytes of argument.
pub open spec fn start(second: bool) -> ThreadStart {
    if second {
        ThreadStart {
            entry: USER_CODE_BASE,
            stack: SECOND_STACK,
            tls: SECOND_TLS,
            tls_pages: 1,
            thread_pointer: SECOND_TLS,
            startup: (USER_DATA_BASE + 8) as u64,
            startup_bytes: 8,
            private_startup: None,
        }
    } else {
        ThreadStart {
            entry: USER_CODE_BASE,
            stack: FIRST_STACK,
            tls: FIRST_TLS,
            tls_pages: 1,
            thread_pointer: FIRST_TLS,
            startup: USER_DATA_BASE,
            startup_bytes: 8,
            private_startup: None,
        }
    }
}

/// Where a thread starts.
pub fn thread_start(second: bool) -> (begin: ThreadStart)
    ensures
        begin == start(second),
{
    let (stack, tls, startup): (u64, u64, u64) = if second {
        (SECOND_STACK, SECOND_TLS, USER_DATA_BASE + 8)
    } else {
        (FIRST_STACK, FIRST_TLS, USER_DATA_BASE)
    };
    ThreadStart {
        entry: USER_CODE_BASE,
        stack,
        tls,
        tls_pages: 1,
        thread_pointer: tls,
        startup,
        startup_bytes: 8,
        private_startup: None,
    }
}

/// The word by which a thread is known.
pub open spec fn marker(second: bool) -> u64 {
    if second {
        22
    } else {
        11
    }
}

/// Which entries are kept when some addresses are laid out anew.
pub open spec fn starts_elsewhere(mapping: PlannedMapping, addresses: Seq<u64>) -> bool {
    forall|i: int|
        0 <= i < addresses.len() ==> mapping.virtual_range.first() * 4096 != #[trigger] addresses[i]
}

/// The entries that do not start at one of the addresses, in order.
pub open spec fn kept(base: Seq<PlannedMapping>, addresses: Seq<u64>) -> Seq<PlannedMapping>
    decreases base.len(),
{
    if base.len() == 0 {
        Seq::empty()
    } else if starts_elsewhere(base.last(), addresses) {
        kept(base.drop_last(), addresses).push(base.last())
    } else {
        kept(base.drop_last(), addresses)
    }
}

/// A user mapping of `physical` from `address` on.
pub open spec fn user_mapping(
    address: u64,
    physical: PageRange,
    permissions: Permissions,
) -> PlannedMapping {
    PlannedMapping {
        virtual_range: PageRange::spanning(address as int / 4096, physical.pages()),
        physical,
        permissions,
        memory_type: MemoryType::Normal,
        owner: MappingOwner::IsolatedTask,
        user: true,
    }
}

/// Make a user mapping.
pub fn make_user_mapping(address: u64, physical: PageRange, permissions: Permissions) -> (mapping:
    PlannedMapping)
    requires
        physical.well_formed(),
        address % 4096 == 0,
        address + 4096 * physical.pages() <= u64::MAX,
    ensures
        mapping == user_mapping(address, physical, permissions),
        mapping.well_formed(),
        mapping.virtual_range.first() == address as int / 4096,
        mapping.virtual_range.pages() == physical.pages(),
{
    let virtual_range = PageRange::of_numbers(address / 4096, physical.page_count());
    proof {
        PageRange::lemma_spanning(virtual_range);
    }
    PlannedMapping {
        virtual_range,
        physical,
        permissions,
        memory_type: MemoryType::Normal,
        owner: MappingOwner::IsolatedTask,
        user: true,
    }
}

/// One page of a range.
pub open spec fn page_of(range: PageRange, index: int) -> PageRange {
    PageRange::spanning(range.first() + index, 1)
}

fn single_page(range: PageRange, index: u64) -> (page: PageRange)
    requires
        range.well_formed(),
        index < range.pages(),
    ensures
        page == page_of(range, index as int),
        page.well_formed(),
        page.first() == range.first() + index,
        page.pages() == 1,
{
    let page = range.part(index, 1);
    proof {
        PageRange::lemma_spanning(page);
    }
    page
}

/// What the threads need beside the code and the data page: two stacks and
/// two thread-local pages cut from the allocation's stack frames, and two
/// pairs of message pages.
pub open spec fn thread_mappings(
    stack: PageRange,
    first_pair: PageRange,
    second_pair: PageRange,
) -> Seq<PlannedMapping> {
    seq![
        user_mapping(FIRST_STACK, page_of(stack, 0), Permissions::ReadWrite),
        user_mapping(SECOND_STACK, page_of(stack, 1), Permissions::ReadWrite),
        user_mapping(FIRST_TLS, page_of(stack, 2), Permissions::ReadWrite),
        user_mapping(SECOND_TLS, page_of(stack, 3), Permissions::ReadWrite),
        user_mapping(FIRST_TX, first_pair, Permissions::ReadWrite),
        user_mapping(SECOND_TX, second_pair, Permissions::ReadWrite),
    ]
}

/// Whether `extra` can be added to `entries` within `capacity` entries.
pub open spec fn addable(
    entries: Seq<PlannedMapping>,
    extra: Seq<PlannedMapping>,
    capacity: int,
) -> bool {
    &&& entries.len() + extra.len() <= capacity
    &&& forall|i: int|
        0 <= i < extra.len() ==> range_apart(entries + extra.take(i), (#[trigger] extra[i]).virtual_range)
}

/// Leave out the entries that start at one of the addresses.
pub fn keep_others(base: &MappingPlan, addresses: &[u64]) -> (plan: MappingPlan)
    requires
        base.well_formed(),
    ensures
        plan.well_formed(),
        plan.capacity == base.capacity,
        plan@ == kept(base@, addresses@),
{
    let mut plan = MappingPlan::new(base.capacity);
    let mut i: usize = 0;
    proof {
        assert(base@.take(0) =~= Seq::<PlannedMapping>::empty());
    }
    while i < base.entries.len()
        invariant
            base.well_formed(),
            i <= base@.len(),
            plan.capacity == base.capacity,
            plan.well_formed(),
            plan@ == kept(base@.take(i as int), addresses@),
            plan@.len() <= i,
            forall|k: int, j: int|
                0 <= k < plan@.len() && i <= j < base@.len() ==> (
                #[trigger] plan@[k]).virtual_range.apart((#[trigger] base@[j]).virtual_range),
        decreases base@.len() - i,
    {
        let mapping = base.entries[i];
        let mut elsewhere = true;
        let mut j: usize = 0;
        while j < addresses.len()
            invariant
                j <= addresses@.len(),
                mapping.well_formed(),
                elsewhere == forall|k: int|
                    0 <= k < j ==> mapping.virtual_range.first() * 4096 != #[trigger] addresses@[k],
            decreases addresses@.len() - j,
        {
            if mapping.virtual_range.start() == addresses[j] {
                elsewhere = false;
            }
            j = j + 1;
        }
        proof {
            assert(base@.take(i + 1).drop_last() =~= base@.take(i as int));
            assert(base@.take(i + 1).last() == mapping);
            assert(elsewhere == starts_elsewhere(mapping, addresses@));
            assert forall|k: int, j: int|
                0 <= k < plan@.push(mapping).len() && i + 1 <= j < base@.len() implies (
            #[trigger] plan@.push(mapping)[k]).virtual_range.apart(
                (#[trigger] base@[j]).virtual_range,
            ) by {
                if k == plan@.len() {
                    assert(base@[i as int].virtual_range.apart(base@[j].virtual_range));
                }
            }
        }
        if elsewhere {
            let added = plan.insert(mapping);
            assert(added);
        }
        i = i + 1;
    }
    proof {
        assert(base@.take(base@.len() as int) =~= base@);
    }
    plan
}

/// Add mappings one after another; nothing comes back where one does not fit.
pub fn add_all(base: MappingPlan, extra: &Vec<PlannedMapping>) -> (plan: Option<MappingPlan>)
    requires
        base.well_formed(),
        forall|i: int| 0 <= i < extra@.len() ==> (#[trigger] extra@[i]).well_formed(),
    ensures
        match plan {
            Some(p) => addable(base@, extra@, base.capacity as int) && p@ == base@ + extra@
                && p.capacity == base.capacity && p.well_formed(),
            None => !addable(base@, extra@, base.capacity as int),
        },
{
    let mut plan = base;
    let ghost before = base@;
    let mut i: usize = 0;
    proof {
        assert(before + extra@.take(0) =~= before);
    }
    while i < extra.len()
        invariant
            i <= extra@.len(),
            before == base@,
            plan.capacity == base.capacity,
            plan.well_formed(),
            plan@ == before + extra@.take(i as int),
            forall|k: int| 0 <= k < extra@.len() ==> (#[trigger] extra@[k]).well_formed(),
            forall|k: int|
                0 <= k < i ==> range_apart(
                    before + extra@.take(k),
                    (#[trigger] extra@[k]).virtual_range,
                ),
        decreases extra@.len() - i,
    {
        if !plan.insert(extra[i]) {
            proof {
                if addable(before, extra@, base.capacity as int) {
                    assert(range_apart(before + extra@.take(i as int), extra@[i as int].virtual_range));
                }
            }
            return None;
        }
        i = i + 1;
        assert(before + extra@.take(i as int) =~= (before + extra@.take(i - 1)).push(extra@[i - 1]));
    }
    assert(extra@.take(extra@.len() as int) =~= extra@);
    Some(plan)
}

/// The mapping plan of the two threads, from the plan of the isolated task:
/// its stack gives way to what the threads need. Nothing comes back where
/// that does not fit or a frame would be writable and executable.
pub fn lay_out_threads(
    base: &MappingPlan,
    allocation: &IsolatedAllocation,
    first_pair: PageRange,
    second_pair: PageRange,
) -> (plan: Option<MappingPlan>)
    requires
        base.well_formed(),
        allocation.well_formed(),
        first_pair.well_formed(),
        second_pair.well_formed(),
        first_pair.pages() == 2,
        second_pair.pages() == 2,
    ensures
        ({
            let rest = kept(base@, seq![USER_STACK_BASE]);
            let extra = thread_mappings(allocation.stack, first_pair, second_pair);
            match plan {
                Some(p) => addable(rest, extra, base.capacity as int) && p@ == rest + extra
                    && p.capacity == base.capacity && write_xor_execute(p@) && p.well_formed(),
                None => !addable(rest, extra, base.capacity as int) || !write_xor_execute(
                    rest + extra,
                ),
            }
        }),
{
    let stack = allocation.stack;
    let rest = keep_others(base, &[USER_STACK_BASE]);
    proof {
        let one: [u64; 1] = [USER_STACK_BASE];
        assert(one@ =~= seq![USER_STACK_BASE]);
    }
    let mut extra: Vec<PlannedMapping> = Vec::new();
    extra.push(make_user_mapping(FIRST_STACK, single_page(stack, 0), Permissions::ReadWrite));
    extra.push(make_user_mapping(SECOND_STACK, single_page(stack, 1), Permissions::ReadWrite));
    extra.push(make_user_mapping(FIRST_TLS, single_page(stack, 2), Permissions::ReadWrite));
    extra.push(make_user_mapping(SECOND_TLS, single_page(stack, 3), Permissions::ReadWrite));
    extra.push(make_user_mapping(FIRST_TX, first_pair, Permissions::ReadWrite));
    extra.push(make_user_mapping(SECOND_TX, second_pair, Permissions::ReadWrite));
    assert(extra@ =~= thread_mappings(stack, first_pair, second_pair));
    match add_all(rest, &extra) {
        Some(plan) => if plan.enforces_write_xor_execute() {
            Some(plan)
        } else {
            None
        },
        None => None,
    }
}

/// Below and above each thread's stack lies a page that none of the threads'
/// mappings shows.
pub proof fn stacks_are_guarded(stack: PageRange, first_pair: PageRange, second_pair: PageRange)
    requires
        stack.well_formed(),
        stack.pages() == 4,
        first_pair.well_formed(),
        second_pair.well_formed(),
        first_pair.pages() == 2,
        second_pair.pages() == 2,
    ensures
        forall|i: int|
            0 <= i < 6 ==> {
                let shown = (#[trigger] thread_mappings(stack, first_pair, second_pair)[i]).virtual_range;
                &&& !shown.covers(FIRST_STACK as int / 4096 - 1)
                &&& !shown.covers(FIRST_STACK as int / 4096 + 1)
                &&& !shown.covers(SECOND_STACK as int / 4096 - 1)
                &&& !shown.covers(SECOND_STACK as int / 4096 + 1)
            },
{
    PageRange::lemma_spanning_parts(FIRST_STACK as int / 4096, 1);
    PageRange::lemma_spanning_parts(SECOND_STACK as int / 4096, 1);
    PageRange::lemma_spanning_parts(FIRST_TLS as int / 4096, 1);
    PageRange::lemma_spanning_parts(SECOND_TLS as int / 4096, 1);
    PageRange::lemma_spanning_parts(FIRST_TX as int / 4096, 2);
    PageRange::lemma_spanning_parts(SECOND_TX as int / 4096, 2);
    lemma_pages(stack);
}

proof fn lemma_pages(stack: PageRange)
    requires
        stack.well_formed(),
        stack.pages() == 4,
    ensures
        forall|i: int|
            0 <= i < 4 ==> {
                &&& (#[trigger] page_of(stack, i)).first() == stack.first() + i
                &&& page_of(stack, i).pages() == 1
                &&& page_of(stack, i).well_formed()
            },
{
    assert forall|i: int| 0 <= i < 4 implies {
        &&& (#[trigger] page_of(stack, i)).first() == stack.first() + i
        &&& page_of(stack, i).pages() == 1
        &&& page_of(stack, i).well_formed()
    } by {
        PageRange::lemma_spanning_parts(stack.first() + i, 1);
    }
}

/// No frame is shown twice by the threads' mappings, if the pairs lie outside
/// the allocation and apart.
pub proof fn threads_share_no_frame(stack: PageRange, first_pair: PageRange, second_pair: PageRange)
    requires
        stack.well_formed(),
        stack.pages() == 4,
        first_pair.well_formed(),
        second_pair.well_formed(),
        first_pair.apart(second_pair),
        stack.apart(first_pair),
        stack.apart(second_pair),
    ensures
        forall|i: int, j: int|
            0 <= i < j < 6 ==> (#[trigger] thread_mappings(
                stack,
                first_pair,
                second_pair,
            )[i]).physical.apart((#[trigger] thread_mappings(stack, first_pair, second_pair)[j]).physical),
{
    lemma_pages(stack);
    assert(page_of(stack, 0).first() == stack.first());
    assert(page_of(stack, 1).first() == stack.first() + 1);
    assert(page_of(stack, 2).first() == stack.first() + 2);
    assert(page_of(stack, 3).first() == stack.first() + 3);
}

/// Where bytes are written before the threads run.
#[derive(Clone, Copy, Debug, PartialEq, Eq, Structural)]
pub enum Place {
    /// The data page.
    Data,
    /// The first thread's thread-local page.
    FirstTls,
    /// The sibling's thread-local page.
    SecondTls,
    /// The first pair of message pages.
    FirstPair,
    /// The second pair of message pages.
    SecondPair,
}

/// Bytes to write.
#[derive(Clone, Copy, Debug, PartialEq, Eq, Structural)]
pub struct Poke {
    /// Where.
    pub place: Place,
    /// Offset.
    pub offset: u64,
    /// What.
    pub payload: Payload,
}

/// A word to write.
pub open spec fn poke_word(place: Place, offset: u64, word: u64) -> Poke {
    Poke { place, offset, payload: Payload::Word(word) }
}

/// A page to fill with a pattern.
pub open spec fn poke_fill(place: Place, offset: u64) -> Poke {
    Poke { place, offset, payload: Payload::Fill { byte: 0xa5, count: 4096 } }
}

/// What memory holds before the threads run: a pattern in the message pages,
/// each thread's marker as its argument, and in its thread-local page the
/// marker, the address of the shared counter and that of its transmit page.
pub open spec fn first_contents() -> Seq<Poke> {
    seq![
        poke_fill(Place::FirstPair, 0),
        poke_fill(Place::FirstPair, 4096),
        poke_fill(Place::SecondPair, 0),
        poke_fill(Place::SecondPair, 4096),
        poke_word(Place::Data, 0, marker(false)),
        poke_word(Place::FirstTls, 0, marker(false)),
        poke_word(Place::FirstTls, 8, SHARED_COUNTER),
        poke_word(Place::FirstTls, 24, FIRST_TX),
        poke_word(Place::Data, 8, marker(true)),
        poke_word(Place::SecondTls, 0, marker(true)),
        poke_word(Place::SecondTls, 8, SHARED_COUNTER),
        poke_word(Place::SecondTls, 24, SECOND_TX),
    ]
}

fn word_at(place: Place, offset: u64, word: u64) -> (poke: Poke)
    ensures
        poke == poke_word(place, offset, word),
{
    Poke { place, offset, payload: Payload::Word(word) }
}

fn fill_at(place: Place, offset: u64) -> (poke: Poke)
    ensures
        poke == poke_fill(place, offset),
{
    Poke { place, offset, payload: Payload::Fill { byte: 0xa5, count: 4096 } }
}

/// What to write before the threads run.
pub fn list_first_contents() -> (pokes: Vec<Poke>)
    ensures
        pokes@ == first_contents(),
{
    let mut pokes: Vec<Poke> = Vec::new();
    pokes.push(fill_at(Place::FirstPair, 0));
    pokes.push(fill_at(Place::FirstPair, 4096));
    pokes.push(fill_at(Place::SecondPair, 0));
    pokes.push(fill_at(Place::SecondPair, 4096));
    pokes.push(word_at(Place::Data, 0, 11));
    pokes.push(word_at(Place::FirstTls, 0, 11));
    pokes.push(word_at(Place::FirstTls, 8, SHARED_COUNTER));
    pokes.push(word_at(Place::FirstTls, 24, FIRST_TX));
    pokes.push(word_at(Place::Data, 8, 22));
    pokes.push(word_at(Place::SecondTls, 0, 22));
    pokes.push(word_at(Place::SecondTls, 8, SHARED_COUNTER));
    pokes.push(word_at(Place::SecondTls, 24, SECOND_TX));
    assert(pokes@ =~= first_contents());
    pokes
}

/// Whether the words of a receive page are zero from a byte offset on.
pub open spec fn clear_from(words: Seq<u64>, from: int) -> bool {
    forall|i: int| from <= 8 * i && 0 <= i < words.len() ==> #[trigger] words[i] == 0
}

/// Check the words of a receive page from a byte offset on.
pub fn verify_rx_tail(words: &[u64], from: u64) -> (clear: bool)
    requires
        from % 8 == 0,
        words@.len() <= 512,
    ensures
        clear == clear_from(words@, from as int),
{
    let mut i: usize = 0;
    while i < words.len()
        invariant
            i <= words@.len() <= 512,
            forall|k: int| from <= 8 * k && 0 <= k < i ==> #[trigger] words@[k] == 0,
        decreases words@.len() - i,
    {
        if 8 * (i as u64) >= from && words[i] != 0 {
            assert(words@[i as int] != 0);
            return false;
        }
        i = i + 1;
    }
    true
}

/// Each thread begins in the code with its own stack, storage and startup word.
pub proof fn threads_begin_with_their_own_pages()
    ensures
        start(false).entry == 0x4000_0000_0000 && start(true).entry == 0x4000_0000_0000,
        start(false).stack == 0x4000_0001_0000 && start(true).stack == 0x4000_0001_3000,
        start(false).tls == 0x4000_0001_6000 && start(true).tls == 0x4000_0001_9000,
        start(false).thread_pointer == start(false).tls,
        start(true).thread_pointer == start(true).tls,
        start(false).startup == 0x4000_0000_1000 && start(true).startup == 0x4000_0000_1008,
        start(false).tls_pages == 1 && start(true).tls_pages == 1,
        start(false).startup_bytes == 8 && start(true).startup_bytes == 8,
        start(false).private_startup is None && start(true).private_startup is None,
        marker(false) == 11 && marker(true) == 22,
{
}

/// The first thread has the first and third page of the memory as its stack and
/// storage, the second the second and fourth; each has its own message pair.
pub proof fn threads_are_mapped_to_their_own_frames(
    stack: PageRange,
    first_pair: PageRange,
    second_pair: PageRange,
)
    requires
        stack.well_formed(),
        stack.pages() >= 4,
    ensures
        ({
            let mappings = thread_mappings(stack, first_pair, second_pair);
            &&& mappings.len() == 6
            &&& mappings[0].physical.first() == stack.first()
            &&& mappings[1].physical.first() == stack.first() + 1
            &&& mappings[2].physical.first() == stack.first() + 2
            &&& mappings[3].physical.first() == stack.first() + 3
            &&& mappings[4].physical == first_pair
            &&& mappings[5].physical == second_pair
            &&& mappings[0].virtual_range.first() == 0x4_0000_0010
            &&& mappings[1].virtual_range.first() == 0x4_0000_0013
            &&& mappings[2].virtual_range.first() == 0x4_0000_0016
            &&& mappings[3].virtual_range.first() == 0x4_0000_0019
            &&& forall|i: int|
                0 <= i < 6 ==> (#[trigger] mappings[i]).user && mappings[i].permissions
                    == Permissions::ReadWrite
        }),
{
    PageRange::lemma_spanning_parts(stack.first(), 1);
    PageRange::lemma_spanning_parts(stack.first() + 1, 1);
    PageRange::lemma_spanning_parts(stack.first() + 2, 1);
    PageRange::lemma_spanning_parts(stack.first() + 3, 1);
    PageRange::lemma_spanning_parts(0x4_0000_0010, 1);
    PageRange::lemma_spanning_parts(0x4_0000_0013, 1);
    PageRange::lemma_spanning_parts(0x4_0000_0016, 1);
    PageRange::lemma_spanning_parts(0x4_0000_0019, 1);
}

/// What is kept of a plan is everything that begins at none of these addresses.
pub proof fn other_mappings_are_kept(
    base: Seq<PlannedMapping>,
    addresses: Seq<u64>,
    mapping: PlannedMapping,
)
    ensures
        kept(base, addresses).contains(mapping) <==> base.contains(mapping) && forall|i: int|
            0 <= i < addresses.len() ==> 4096 * mapping.virtual_range.first()
                != #[trigger] addresses[i],
    decreases base.len(),
{
    if base.len() > 0 {
        let front = base.drop_last();
        let rest = kept(front, addresses);
        let all = kept(base, addresses);
        other_mappings_are_kept(front, addresses, mapping);
        if front.contains(mapping) {
            let k = front.index_of(mapping);
            assert(base[k] == mapping);
        }
        if base.contains(mapping) && mapping != base.last() {
            let k = base.index_of(mapping);
            assert(front[k] == mapping);
        }
        if rest.contains(mapping) {
            let k = rest.index_of(mapping);
            assert(all[k] == mapping);
        }
        if all.contains(mapping) && mapping != base.last() {
            let k = all.index_of(mapping);
            assert(rest[k] == mapping);
        }
        assert(base[base.len() - 1] == base.last());
        if starts_elsewhere(base.last(), addresses) {
            assert(all[all.len() - 1] == base.last());
        }
    }
}

/// Threads find their numbers, the shared counter and their own transmit page in
/// their storage, and message pairs are filled before anything is sent.
pub proof fn threads_find_their_words()
    ensures
        ({
            let pokes = first_contents();
            &&& pokes.len() == 12
            &&& forall|i: int|
                0 <= i < 4 ==> (#[trigger] pokes[i]).payload == (Payload::Fill {
                    byte: 0xa5,
                    count: 4096,
                })
            &&& pokes.contains(holds_page(Place::FirstPair, 0, 0xa5))
            &&& pokes[4] == holds_word(Place::Data, 0, 11)
            &&& pokes[5] == holds_word(Place::FirstTls, 0, 11)
            &&& pokes[6] == holds_word(Place::FirstTls, 8, 0x4000_0000_1010)
            &&& pokes[7] == holds_word(Place::FirstTls, 24, 0x4000_0001_c000)
            &&& pokes[8] == holds_word(Place::Data, 8, 22)
            &&& pokes[9] == holds_word(Place::SecondTls, 0, 22)
            &&& pokes[10] == holds_word(Place::SecondTls, 8, 0x4000_0000_1010)
            &&& pokes[11] == holds_word(Place::SecondTls, 24, 0x4000_0001_f000)
        }),
{
    assert(first_contents()[0] == holds_page(Place::FirstPair, 0, 0xa5));
}

/// A whole page of one byte at an offset.
pub open spec fn holds_page(place: Place, offset: u64, byte: u8) -> Poke {
    Poke { place, offset, payload: Payload::Fill { byte, count: 4096 } }
}

/// One word at an offset.
pub open spec fn holds_word(place: Place, offset: u64, word: u64) -> Poke {
    Poke { place, offset, payload: Payload::Word(word) }
}

} // verus!
