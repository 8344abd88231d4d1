//! Page-granular address ranges.

use vstd::prelude::*;

verus! {

/// Bytes of one page.
pub const PAGE_SIZE: u64 = 4096;

/// A nonempty run of whole pages whose last byte plus one is addressable.
///
/// The same type describes physical frames and virtual pages.
#[derive(Clone, Copy, Debug, PartialEq, Eq, Structural)]
pub struct PageRange {
    first: u64,
    count: u64,
}

impl PageRange {
    /// Number of the first page.
    pub closed spec fn first(self) -> int {
        self.first as int
    }

    /// Number of pages.
    pub closed spec fn pages(self) -> int {
        self.count as int
    }

    /// Number of the page after the last one.
    pub open spec fn past(self) -> int {
        self.first() + self.pages()
    }

    /// What every range satisfies.
    pub open spec fn well_formed(self) -> bool {
        &&& 0 <= self.first()
        &&& 0 < self.pages()
        &&& 4096 * self.past() <= u64::MAX
    }

    /// Whether the range holds page `page`.
    pub open spec fn covers(self, page: int) -> bool {
        self.first() <= page < self.past()
    }

    /// Whether the range holds every page of `other`.
    pub open spec fn includes(self, other: PageRange) -> bool {
        self.first() <= other.first() && other.past() <= self.past()
    }

    /// Whether no page belongs to both ranges.
    pub open spec fn apart(self, other: PageRange) -> bool {
        self.past() <= other.first() || other.past() <= self.first()
    }

    /// The page numbers of the range, in order.
    pub open spec fn numbers(self) -> Seq<int> {
        Seq::new(self.pages() as nat, |i: int| self.first() + i)
    }

    #[verifier::type_invariant]
    spec fn is_addressable(self) -> bool {
        self.well_formed()
    }

    /// Whether `count` pages from byte address `start` form a range.
    pub open spec fn valid(start: int, count: int) -> bool {
        &&& 0 <= start
        &&& start % 4096 == 0
        &&& 0 < count
        &&& start + 4096 * count <= u64::MAX
    }

    /// The `count` pages from page number `first`.
    pub closed spec fn spanning(first: int, count: int) -> PageRange {
        PageRange { first: first as u64, count: count as u64 }
    }

    /// A range is what its first page and its length span.
    pub proof fn lemma_spanning(range: PageRange)
        ensures
            range == PageRange::spanning(range.first(), range.pages()),
    {
    }

    /// First page and length of what they span.
    pub proof fn lemma_spanning_parts(first: int, count: int)
        requires
            0 <= first,
            0 < count,
            4096 * (first + count) <= u64::MAX,
        ensures
            PageRange::spanning(first, count).first() == first,
            PageRange::spanning(first, count).pages() == count,
            PageRange::spanning(first, count).well_formed(),
    {
    }

    /// The range of `count` pages that starts at byte address `start`.
    pub fn from_pages(start: u64, count: u64) -> (range: Option<PageRange>)
        ensures
            match range {
                Some(r) => PageRange::valid(start as int, count as int) && 4096 * r.first()
                    == start && r.pages() == count && r.well_formed(),
                None => !PageRange::valid(start as int, count as int),
            },
    {
        if start % PAGE_SIZE != 0 || count == 0 || count > (u64::MAX - start) / PAGE_SIZE {
            return None;
        }
        Some(PageRange { first: start / PAGE_SIZE, count })
    }

    /// The run of `count` pages from page number `first`.
    pub(crate) fn of_numbers(first: u64, count: u64) -> (range: PageRange)
        requires
            0 < count,
            4096 * (first + count) <= u64::MAX,
        ensures
            range.first() == first,
            range.pages() == count,
            range.well_formed(),
    {
        PageRange { first, count }
    }

    /// First byte address.
    pub fn start(self) -> (address: u64)
        ensures
            address == 4096 * self.first(),
            self.well_formed(),
    {
        proof {
            use_type_invariant(&self);
        }
        self.first * PAGE_SIZE
    }

    /// Byte address after the last byte.
    pub fn end(self) -> (address: u64)
        ensures
            address == 4096 * self.past(),
            self.well_formed(),
    {
        proof {
            use_type_invariant(&self);
        }
        (self.first + self.count) * PAGE_SIZE
    }

    /// Number of pages.
    pub fn page_count(self) -> (count: u64)
        ensures
            count == self.pages(),
            self.well_formed(),
    {
        proof {
            use_type_invariant(&self);
        }
        self.count
    }

    /// Number of the first page.
    pub fn first_page(self) -> (number: u64)
        ensures
            number == self.first(),
            self.well_formed(),
    {
        proof {
            use_type_invariant(&self);
        }
        self.first
    }

    /// The `count` pages that start `skip` pages into the range.
    pub fn part(self, skip: u64, count: u64) -> (part: PageRange)
        requires
            0 < count,
            skip + count <= self.pages(),
        ensures
            part.well_formed(),
            part.first() == self.first() + skip,
            part.pages() == count,
            part.numbers() == self.numbers().subrange(skip as int, skip + count),
    {
        proof {
            use_type_invariant(&self);
        }
        let part = PageRange { first: self.first + skip, count };
        assert(part.numbers() =~= self.numbers().subrange(skip as int, skip + count));
        part
    }

    /// Two ranges that touch, as one.
    pub fn joined(self, next: PageRange) -> (whole: PageRange)
        requires
            self.past() == next.first(),
        ensures
            whole.well_formed(),
            whole.first() == self.first(),
            whole.pages() == self.pages() + next.pages(),
            whole.numbers() == self.numbers() + next.numbers(),
    {
        proof {
            use_type_invariant(&self);
            use_type_invariant(&next);
        }
        let whole = PageRange { first: self.first, count: self.count + next.count };
        assert(whole.numbers() =~= self.numbers() + next.numbers());
        whole
    }
}

/// Two ranges with the same first page and length are the same range.
pub(crate) proof fn lemma_range_identity(a: PageRange, b: PageRange)
    requires
        a.first() == b.first(),
        a.pages() == b.pages(),
    ensures
        a == b,
{
}

} // verus!
