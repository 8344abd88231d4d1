//! Sequences of physical extents and the frames that they hold in order.

use crate::memory::pages::PageRange;
use vstd::prelude::*;

verus! {

/// Every extent is a valid range.
pub open spec fn all_well_formed(extents: Seq<PageRange>) -> bool {
    forall|i: int| 0 <= i < extents.len() ==> (#[trigger] extents[i]).well_formed()
}

/// The frame numbers behind `extents`, in logical order.
pub open spec fn frames(extents: Seq<PageRange>) -> Seq<int>
    decreases extents.len(),
{
    if extents.len() == 0 {
        Seq::empty()
    } else {
        frames(extents.drop_last()) + extents.last().numbers()
    }
}

/// The number of frames behind `extents`.
pub open spec fn total_pages(extents: Seq<PageRange>) -> int
    decreases extents.len(),
{
    if extents.len() == 0 {
        0
    } else {
        total_pages(extents.drop_last()) + extents.last().pages()
    }
}

pub(crate) proof fn lemma_frames_len(extents: Seq<PageRange>)
    requires
        all_well_formed(extents),
    ensures
        frames(extents).len() == total_pages(extents),
        total_pages(extents) >= extents.len(),
    decreases extents.len(),
{
    if extents.len() > 0 {
        lemma_frames_len(extents.drop_last());
        assert(extents.last().well_formed());
    }
}

pub(crate) proof fn lemma_frames_push(extents: Seq<PageRange>, range: PageRange)
    ensures
        frames(extents.push(range)) == frames(extents) + range.numbers(),
        total_pages(extents.push(range)) == total_pages(extents) + range.pages(),
{
    assert(extents.push(range).drop_last() =~= extents);
}

pub(crate) proof fn lemma_frames_concat(a: Seq<PageRange>, b: Seq<PageRange>)
    ensures
        frames(a + b) == frames(a) + frames(b),
        total_pages(a + b) == total_pages(a) + total_pages(b),
    decreases b.len(),
{
    if b.len() == 0 {
        assert(a + b =~= a);
        assert(frames(a) + frames(b) =~= frames(a));
    } else {
        lemma_frames_concat(a, b.drop_last());
        assert((a + b).drop_last() =~= a + b.drop_last());
        assert(frames(a + b) =~= frames(a) + frames(b));
    }
}

pub(crate) proof fn lemma_total_prefix(extents: Seq<PageRange>, i: int)
    requires
        all_well_formed(extents),
        0 <= i <= extents.len(),
    ensures
        0 <= total_pages(extents.take(i)) <= total_pages(extents),
    decreases extents.len(),
{
    if i < extents.len() {
        lemma_total_prefix(extents.drop_last(), i);
        assert(extents.drop_last().take(i) =~= extents.take(i));
        assert(extents.last().well_formed());
    } else {
        assert(extents.take(i) =~= extents);
        lemma_frames_len(extents);
    }
}

/// The sum of the extents' pages, when it can be represented.
pub fn count_pages(extents: &Vec<PageRange>) -> (count: Option<u64>)
    requires
        all_well_formed(extents@),
    ensures
        match count {
            Some(c) => c == total_pages(extents@),
            None => total_pages(extents@) > u64::MAX,
        },
{
    let mut total: u64 = 0;
    let mut i: usize = 0;
    while i < extents.len()
        invariant
            i <= extents@.len(),
            all_well_formed(extents@),
            total == total_pages(extents@.take(i as int)),
        decreases extents@.len() - i,
    {
        proof {
            assert(extents@.take(i + 1).drop_last() =~= extents@.take(i as int));
            lemma_total_prefix(extents@, i + 1);
        }
        total = match total.checked_add(extents[i].page_count()) {
            Some(sum) => sum,
            None => return None,
        };
        i = i + 1;
    }
    assert(extents@.take(i as int) =~= extents@);
    Some(total)
}

/// The list with `run` behind it: the last extent is lengthened where the run
/// follows it.
pub open spec fn appended(extents: Seq<PageRange>, run: PageRange) -> Seq<PageRange> {
    if extents.len() > 0 && extents.last().past() == run.first() {
        extents.drop_last().push(
            PageRange::spanning(extents.last().first(), extents.last().pages() + run.pages()),
        )
    } else {
        extents.push(run)
    }
}

/// Append one frame, lengthening the last extent where the frame follows it.
pub fn append_frame(extents: &mut Vec<PageRange>, frame: PageRange)
    requires
        all_well_formed(old(extents)@),
        frame.well_formed(),
    ensures
        final(extents)@ == appended(old(extents)@, frame),
        all_well_formed(final(extents)@),
        frames(final(extents)@) == frames(old(extents)@) + frame.numbers(),
        total_pages(final(extents)@) == total_pages(old(extents)@) + frame.pages(),
        final(extents)@.len() == old(extents)@.len() + if old(extents)@.len() > 0 && old(extents)@.last().past() == frame.first() {
            0int
        } else {
            1
        },
{
    let ghost before = extents@;
    if extents.len() > 0 {
        let at: usize = extents.len() - 1;
        let last = extents[at];
        if last.end() == frame.start() {
            let whole = last.joined(frame);
            proof {
                PageRange::lemma_spanning(whole);
                assert(before =~= before.drop_last().push(last));
                lemma_frames_push(before.drop_last(), last);
                lemma_frames_push(before.drop_last(), whole);
                assert(before.update(at as int, whole) =~= before.drop_last().push(whole));
                assert(frames(before) + frame.numbers() =~= frames(before.drop_last())
                    + whole.numbers());
            }
            extents.set(at, whole);
            return;
        }
    }
    proof {
        lemma_frames_push(before, frame);
    }
    extents.push(frame);
}

/// The number of extents that hold a page of the logical window `lo .. hi`.
pub open spec fn touched(extents: Seq<PageRange>, lo: int, hi: int) -> int
    decreases extents.len(),
{
    if extents.len() == 0 {
        0
    } else {
        let start = total_pages(extents.drop_last());
        let end = start + extents.last().pages();
        touched(extents.drop_last(), lo, hi) + if start < hi && lo < end && lo < hi {
            1int
        } else {
            0
        }
    }
}

/// The parts of the extents that hold the logical window `lo .. hi`.
pub open spec fn sliced(extents: Seq<PageRange>, lo: int, hi: int) -> Seq<PageRange>
    decreases extents.len(),
{
    if extents.len() == 0 {
        Seq::empty()
    } else {
        let start = total_pages(extents.drop_last());
        let end = start + extents.last().pages();
        let a = if start >= lo {
            start
        } else {
            lo
        };
        let b = if end <= hi {
            end
        } else {
            hi
        };
        let rest = sliced(extents.drop_last(), lo, hi);
        if a < b {
            rest.push(PageRange::spanning(extents.last().first() + (a - start), b - a))
        } else {
            rest
        }
    }
}

/// The extents that hold the `page_count` frames from logical page
/// `start_page` on.
///
/// Refuses a window that the extents do not hold completely.
pub fn extent_slice(extents: &Vec<PageRange>, start_page: u64, page_count: u64) -> (slice: Option<
    Vec<PageRange>,
>)
    requires
        all_well_formed(extents@),
        total_pages(extents@) <= u64::MAX,
    ensures
        match slice {
            Some(s) => {
                &&& start_page + page_count <= total_pages(extents@) || page_count == 0
                &&& s@ == sliced(extents@, start_page as int, start_page + page_count)
                &&& all_well_formed(s@)
                &&& frames(s@) == if page_count == 0 {
                    Seq::<int>::empty()
                } else {
                    frames(extents@).subrange(start_page as int, start_page + page_count)
                }
                &&& total_pages(s@) == page_count
                &&& s@.len() == touched(
                    extents@,
                    start_page as int,
                    start_page + page_count,
                )
            },
            None => page_count > 0 && start_page + page_count > total_pages(extents@),
        },
{
    let mut result: Vec<PageRange> = Vec::new();
    if page_count == 0 {
        proof {
            lemma_empty_window(extents@, start_page as int);
        }
        return Some(result);
    }
    let wanted_end: u64 = match start_page.checked_add(page_count) {
        Some(end) => end,
        None => return None,
    };
    let ghost all = frames(extents@);
    proof {
        lemma_frames_len(extents@);
    }
    let mut logical_start: u64 = 0;
    let mut i: usize = 0;
    while i < extents.len()
        invariant
            i <= extents@.len(),
            all_well_formed(extents@),
            total_pages(extents@) <= u64::MAX,
            all == frames(extents@),
            wanted_end == start_page + page_count,
            page_count > 0,
            logical_start == total_pages(extents@.take(i as int)),
            all_well_formed(result@),
            result@ == sliced(extents@.take(i as int), start_page as int, wanted_end as int),
            result@.len() == touched(
                extents@.take(i as int),
                start_page as int,
                wanted_end as int,
            ),
            frames(result@) == window(
                frames(extents@.take(i as int)),
                start_page as int,
                wanted_end as int,
            ),
        decreases extents@.len() - i,
    {
        let extent = extents[i];
        let pages: u64 = extent.page_count();
        let ghost before = extents@.take(i as int);
        proof {
            assert(extents@.take(i + 1) =~= before.push(extent));
            assert(extents@.take(i + 1).drop_last() =~= before);
            lemma_frames_push(before, extent);
            lemma_total_prefix(extents@, i + 1);
            lemma_frames_len(before);
            lemma_window_grows(
                frames(before),
                extent.numbers(),
                start_page as int,
                wanted_end as int,
            );
        }
        let logical_end: u64 = logical_start + pages;
        let overlap_start: u64 = if logical_start >= start_page {
            logical_start
        } else {
            start_page
        };
        let overlap_end: u64 = if logical_end <= wanted_end {
            logical_end
        } else {
            wanted_end
        };
        if overlap_start < overlap_end {
            let part = extent.part(overlap_start - logical_start, overlap_end - overlap_start);
            proof {
                lemma_frames_push(result@, part);
                PageRange::lemma_spanning(part);
            }
            result.push(part);
        }
        logical_start = logical_end;
        i = i + 1;
    }
    proof {
        assert(extents@.take(i as int) =~= extents@);
        lemma_frames_len(result@);
    }
    if wanted_end > logical_start {
        return None;
    }
    Some(result)
}

proof fn lemma_empty_window(extents: Seq<PageRange>, lo: int)
    ensures
        touched(extents, lo, lo) == 0,
        sliced(extents, lo, lo) == Seq::<PageRange>::empty(),
    decreases extents.len(),
{
    if extents.len() > 0 {
        lemma_empty_window(extents.drop_last(), lo);
    }
}

/// The items of `s` whose positions lie in `lo .. hi`.
spec fn window(s: Seq<int>, lo: int, hi: int) -> Seq<int> {
    let a = if lo <= s.len() {
        lo
    } else {
        s.len() as int
    };
    let b = if hi <= s.len() {
        hi
    } else {
        s.len() as int
    };
    s.subrange(a, b)
}

proof fn lemma_window_grows(s: Seq<int>, t: Seq<int>, lo: int, hi: int)
    requires
        0 <= lo < hi,
    ensures
        ({
            let n = s.len() as int;
            let a = if lo <= n {
                n
            } else {
                lo
            };
            let b = if hi <= n + t.len() {
                hi
            } else {
                n + t.len()
            };
            window(s + t, lo, hi) == window(s, lo, hi) + if a < b {
                t.subrange(a - n, b - n)
            } else {
                Seq::empty()
            }
        }),
{
    let n = s.len() as int;
    let a = if lo <= n {
        n
    } else {
        lo
    };
    let b = if hi <= n + t.len() {
        hi
    } else {
        n + t.len()
    };
    let piece = if a < b {
        t.subrange(a - n, b - n)
    } else {
        Seq::<int>::empty()
    };
    assert(window(s + t, lo, hi) =~= window(s, lo, hi) + piece);
}

/// Two lists one behind the other, with the extents at the seam joined where
/// they touch.
pub open spec fn seamed(left: Seq<PageRange>, right: Seq<PageRange>) -> Seq<PageRange> {
    if right.len() == 0 {
        left
    } else {
        appended(left, right[0]) + right.skip(1)
    }
}

/// The concatenation of two backings, with the extents at the seam joined
/// where they touch.
pub fn append_extents(left: &mut Vec<PageRange>, right: &Vec<PageRange>)
    requires
        all_well_formed(old(left)@),
        all_well_formed(right@),
    ensures
        final(left)@ == seamed(old(left)@, right@),
        all_well_formed(final(left)@),
        frames(final(left)@) == frames(old(left)@) + frames(right@),
        total_pages(final(left)@) == total_pages(old(left)@) + total_pages(right@),
        final(left)@.len() <= old(left)@.len() + right@.len(),
        old(left)@.len() == 0 ==> final(left)@.len() == right@.len(),
        old(left)@.len() > 0 && right@.len() > 0 ==> final(left)@.len() > 0,
{
    let ghost before = left@;
    if right.len() == 0 {
        assert(frames(before) + frames(right@) =~= frames(before));
        return;
    }
    let first = right[0];
    append_frame(left, first);
    let ghost seam = left@.len() - before.len();
    let mut i: usize = 1;
    proof {
        assert(right@.take(1) =~= Seq::<PageRange>::empty().push(first));
        lemma_frames_push(Seq::<PageRange>::empty(), first);
        assert(frames(right@.take(1)) =~= first.numbers());
        assert(left@ =~= appended(before, first) + right@.subrange(1, 1));
    }
    while i < right.len()
        invariant
            1 <= i <= right@.len(),
            first == right@[0],
            left@ == appended(before, first) + right@.subrange(1, i as int),
            all_well_formed(left@),
            all_well_formed(right@),
            frames(left@) == frames(before) + frames(right@.take(i as int)),
            total_pages(left@) == total_pages(before) + total_pages(right@.take(i as int)),
            left@.len() == before.len() + seam + (i - 1),
            0 <= seam <= 1,
            before.len() == 0 ==> seam == 1,
        decreases right@.len() - i,
    {
        let next = right[i];
        proof {
            assert(right@.take(i + 1) =~= right@.take(i as int).push(next));
            lemma_frames_push(right@.take(i as int), next);
            lemma_frames_push(left@, next);
            assert(frames(before) + frames(right@.take(i as int)) + next.numbers() =~= frames(
                before,
            ) + (frames(right@.take(i as int)) + next.numbers()));
        }
        left.push(next);
        i = i + 1;
        assert(left@ =~= appended(before, first) + right@.subrange(1, i as int));
    }
    assert(right@.take(i as int) =~= right@);
    assert(right@.subrange(1, i as int) =~= right@.skip(1));
}

} // verus!
