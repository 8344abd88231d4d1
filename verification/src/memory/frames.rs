//! Collecting frames from an allocator that may refuse.

use crate::memory::extents::{
    all_well_formed, append_frame, appended, frames, lemma_frames_len, lemma_frames_push, total_pages,
};
use crate::memory::pages::PageRange;
use crate::memory::private::space::PrivateFailure;
use crate::reply::ReplyStatus;
use vstd::prelude::*;

verus! {

/// What a collection asks of the allocator next.
#[derive(Clone, Copy, Debug, PartialEq, Eq, Structural)]
pub enum FrameWant {
    /// A contiguous run of this many frames.
    Run(u64),
    /// One frame.
    Single,
    /// Nothing: the collection is complete.
    Nothing,
}

/// Why a collection ends early.
#[derive(Clone, Copy, Debug, PartialEq, Eq, Structural)]
pub enum FrameTrouble {
    /// No frame is left.
    Exhausted,
    /// The list of extents cannot grow.
    NoRoom,
    /// A frame could not be zeroed.
    ZeroFailed,
    /// The allocator failed otherwise.
    AllocatorFailed,
}

/// Frames to give back after a collection ended early.
#[derive(Debug)]
pub struct Abandoned {
    /// Zeroed extents that were collected.
    pub extents: Vec<PageRange>,
    /// Frames in hand that were not collected.
    pub in_hand: Option<PageRange>,
    /// What the caller of the collection is told.
    pub failure: PrivateFailure,
}

impl Abandoned {
    /// What the caller is told once everything was given back, or could not
    /// be.
    pub fn verdict(&self, returned: bool) -> (failure: PrivateFailure)
        ensures
            failure == (if returned {
                self.failure
            } else {
                PrivateFailure::Terminal
            }),
    {
        if returned {
            self.failure
        } else {
            PrivateFailure::Terminal
        }
    }
}

/// A growing collection of zeroed frames.
///
/// It asks for runs of at most a quantum. Where the allocator has no such run
/// it takes the same number of single frames, joining those that touch.
#[derive(Debug)]
pub struct ExtentCollection {
    wanted: u64,
    remaining: u64,
    singles: u64,
    quantum: u64,
    extents: Vec<PageRange>,
}

impl ExtentCollection {
    /// Frames collected so far, in order.
    pub closed spec fn collected(self) -> Seq<int> {
        frames(self.extents@)
    }

    /// Extents collected so far.
    pub closed spec fn parts(self) -> Seq<PageRange> {
        self.extents@
    }

    /// The number of frames that were asked for.
    pub closed spec fn target(self) -> int {
        self.wanted as int
    }

    /// Single frames that are still due in place of a refused run.
    pub closed spec fn due(self) -> int {
        self.singles as int
    }

    /// Most frames in one run.
    pub closed spec fn step(self) -> int {
        self.quantum as int
    }

    #[verifier::type_invariant]
    spec fn counts(self) -> bool {
        &&& all_well_formed(self.extents@)
        &&& self.quantum > 0
        &&& total_pages(self.extents@) + self.singles + self.remaining == self.wanted
        &&& frames(self.extents@).len() == total_pages(self.extents@)
    }

    /// What the collection asks for next.
    pub open spec fn want(self) -> FrameWant {
        let missing = self.target() - self.collected().len();
        if self.due() > 0 {
            FrameWant::Single
        } else if missing == 0 {
            FrameWant::Nothing
        } else if missing <= self.step() {
            FrameWant::Run(missing as u64)
        } else {
            FrameWant::Run(self.step() as u64)
        }
    }

    /// Start collecting `page_count` frames in runs of at most `quantum`.
    pub fn start(page_count: u64, quantum: u64) -> (collection: Result<Self, PrivateFailure>)
        ensures
            match collection {
                Ok(c) => quantum > 0 && c.target() == page_count && c.step() == quantum
                    && c.due() == 0 && c.collected() == Seq::<int>::empty() && c.parts() == Seq::<
                    PageRange,
                >::empty(),
                Err(failure) => quantum == 0 && failure == PrivateFailure::Terminal,
            },
    {
        if quantum == 0 {
            return Err(PrivateFailure::Terminal);
        }
        let extents: Vec<PageRange> = Vec::new();
        assert(frames(extents@) =~= Seq::<int>::empty());
        Ok(
            ExtentCollection {
                wanted: page_count,
                remaining: page_count,
                singles: 0,
                quantum,
                extents,
            },
        )
    }

    /// What to ask the allocator for.
    pub fn next_want(&self) -> (want: FrameWant)
        ensures
            want == self.want(),
    {
        proof {
            use_type_invariant(self);
        }
        if self.singles > 0 {
            FrameWant::Single
        } else if self.remaining == 0 {
            FrameWant::Nothing
        } else if self.remaining <= self.quantum {
            FrameWant::Run(self.remaining)
        } else {
            FrameWant::Run(self.quantum)
        }
    }

    /// Take a zeroed run of exactly the size asked for.
    pub fn take_run(self, range: PageRange) -> (next: Self)
        requires
            self.want() == FrameWant::Run(range.pages() as u64),
            range.pages() <= u64::MAX,
        ensures
            next.parts() == self.parts().push(range),
            next.collected() == self.collected() + range.numbers(),
            next.target() == self.target(),
            next.step() == self.step(),
            next.due() == 0,
    {
        proof {
            use_type_invariant(&self);
        }
        let count: u64 = range.page_count();
        let mut extents = self.extents;
        proof {
            lemma_frames_push(extents@, range);
        }
        extents.push(range);
        proof {
            lemma_frames_len(extents@);
        }
        ExtentCollection {
            wanted: self.wanted,
            remaining: self.remaining - count,
            singles: 0,
            quantum: self.quantum,
            extents,
        }
    }

    /// The allocator has no such run: take single frames instead.
    pub fn run_refused(self) -> (next: Self)
        requires
            self.want() is Run,
        ensures
            next.parts() == self.parts(),
            next.collected() == self.collected(),
            next.target() == self.target(),
            next.step() == self.step(),
            self.want() == FrameWant::Run(next.due() as u64),
            next.due() > 0,
    {
        proof {
            use_type_invariant(&self);
        }
        let count: u64 = if self.remaining <= self.quantum {
            self.remaining
        } else {
            self.quantum
        };
        ExtentCollection {
            wanted: self.wanted,
            remaining: self.remaining - count,
            singles: count,
            quantum: self.quantum,
            extents: self.extents,
        }
    }

    /// Take one zeroed frame.
    pub fn take_frame(self, frame: PageRange) -> (next: Self)
        requires
            self.want() is Single,
            frame.well_formed(),
            frame.pages() == 1,
        ensures
            next.parts() == appended(self.parts(), frame),
            next.collected() == self.collected() + frame.numbers(),
            next.target() == self.target(),
            next.step() == self.step(),
            next.due() == self.due() - 1,
    {
        proof {
            use_type_invariant(&self);
        }
        let mut extents = self.extents;
        append_frame(&mut extents, frame);
        proof {
            lemma_frames_len(extents@);
        }
        ExtentCollection {
            wanted: self.wanted,
            remaining: self.remaining,
            singles: self.singles - 1,
            quantum: self.quantum,
            extents,
        }
    }

    /// The complete collection.
    pub fn finish(self) -> (extents: Vec<PageRange>)
        requires
            self.want() is Nothing,
        ensures
            extents@ == self.parts(),
            all_well_formed(extents@),
            frames(extents@) == self.collected(),
            total_pages(extents@) == self.target(),
    {
        proof {
            use_type_invariant(&self);
        }
        self.extents
    }

    /// Give up: everything collected goes back.
    pub fn abandon(self, trouble: FrameTrouble, in_hand: Option<PageRange>) -> (abandoned: Abandoned)
        ensures
            abandoned.extents@ == self.parts(),
            all_well_formed(abandoned.extents@),
            frames(abandoned.extents@) == self.collected(),
            abandoned.in_hand == in_hand,
            abandoned.failure == match trouble {
                FrameTrouble::Exhausted | FrameTrouble::NoRoom => PrivateFailure::Reply(
                    ReplyStatus::Exhausted,
                ),
                FrameTrouble::ZeroFailed | FrameTrouble::AllocatorFailed => PrivateFailure::Terminal,
            },
    {
        proof {
            use_type_invariant(&self);
        }
        let failure = match trouble {
            FrameTrouble::Exhausted | FrameTrouble::NoRoom => PrivateFailure::Reply(
                ReplyStatus::Exhausted,
            ),
            FrameTrouble::ZeroFailed | FrameTrouble::AllocatorFailed => PrivateFailure::Terminal,
        };
        Abandoned { extents: self.extents, in_hand, failure }
    }
}

/// Page-table frames that are missing.
pub open spec fn missing_tables(
    arena_pages: int,
    added_frames: int,
    used_pages: int,
    required: int,
) -> Option<int> {
    let retained = arena_pages + added_frames;
    if retained > u64::MAX || used_pages > retained {
        None
    } else if required <= retained - used_pages {
        Some(0)
    } else {
        Some(required - (retained - used_pages))
    }
}

/// Page-table frames that are missing when `required` more may be needed.
///
/// Fails when more pages are in use than the application owns.
pub fn table_deficit(arena_pages: u64, added_frames: usize, used_pages: u64, required: u64) -> (deficit:
    Option<u64>)
    ensures
        match deficit {
            Some(d) => missing_tables(
                arena_pages as int,
                added_frames as int,
                used_pages as int,
                required as int,
            ) == Some(d as int),
            None => missing_tables(
                arena_pages as int,
                added_frames as int,
                used_pages as int,
                required as int,
            ) is None,
        },
{
    let retained: u64 = match arena_pages.checked_add(added_frames as u64) {
        Some(pages) => pages,
        None => return None,
    };
    let available: u64 = match retained.checked_sub(used_pages) {
        Some(pages) => pages,
        None => return None,
    };
    Some(required.saturating_sub(available))
}

/// What a reservation of page-table frames starts with.
pub open spec fn table_plan(
    arena_pages: u64,
    added_frames: usize,
    used_pages: u64,
    required: u64,
    free_frames: u64,
    minimum_free: u64,
) -> Result<int, PrivateFailure> {
    let spare = if free_frames >= minimum_free {
        free_frames - minimum_free
    } else {
        0
    };
    match missing_tables(
        arena_pages as int,
        added_frames as int,
        used_pages as int,
        required as int,
    ) {
        None => Err(PrivateFailure::Terminal),
        Some(deficit) => if spare < deficit {
            Err(PrivateFailure::Reply(ReplyStatus::Exhausted))
        } else {
            Ok(deficit)
        },
    }
}

/// Frames to allocate so that `required` more page tables can be built,
/// leaving the reserve alone.
pub fn plan_private_tables(
    arena_pages: u64,
    added_frames: usize,
    used_pages: u64,
    required: u64,
    free_frames: u64,
    minimum_free: u64,
) -> (deficit: Result<u64, PrivateFailure>)
    ensures
        match deficit {
            Ok(d) => table_plan(
                arena_pages,
                added_frames,
                used_pages,
                required,
                free_frames,
                minimum_free,
            ) == Ok::<int, PrivateFailure>(d as int),
            Err(failure) => table_plan(
                arena_pages,
                added_frames,
                used_pages,
                required,
                free_frames,
                minimum_free,
            ) == Err::<int, PrivateFailure>(failure),
        },
{
    match table_deficit(arena_pages, added_frames, used_pages, required) {
        None => Err(PrivateFailure::Terminal),
        Some(deficit) => {
            if free_frames.saturating_sub(minimum_free) < deficit {
                Err(PrivateFailure::Reply(ReplyStatus::Exhausted))
            } else {
                Ok(deficit)
            }
        },
    }
}

/// What taking page-table frames comes to next.
#[derive(Clone, Copy, Debug, PartialEq, Eq, Structural)]
pub enum TableStep {
    /// A frame has to be taken.
    Take,
    /// This frame has to go back.
    Free(u64),
    /// All frames are there.
    Ready,
    /// The frames cannot be had.
    Failed(PrivateFailure),
}

/// Taking page-table frames one by one: all of them, or none.
#[derive(Debug)]
pub struct TableRun {
    /// Frames held so far.
    pub frames: Vec<u64>,
    /// Frames wanted in all.
    pub wanted: u64,
    /// What comes next.
    pub doing: TableStep,
}

impl TableRun {
    /// More is taken only while frames are missing. All are there at the end,
    /// or none, unless one could not go back.
    pub open spec fn well_formed(self) -> bool {
        match self.doing {
            TableStep::Take => self.frames@.len() < self.wanted,
            TableStep::Free(frame) => self.frames@.len() < self.wanted,
            TableStep::Ready => self.frames@.len() == self.wanted,
            TableStep::Failed(failure) => {
                ||| failure == PrivateFailure::Terminal
                ||| failure == PrivateFailure::Reply(ReplyStatus::Exhausted) && self.frames@.len()
                    == 0
            },
        }
    }

    /// The next step while frames are taken.
    pub open spec fn taking(held: nat, wanted: u64) -> TableStep {
        if held < wanted {
            TableStep::Take
        } else {
            TableStep::Ready
        }
    }

    /// The newest frame leaves to go back, or none is left and the run failed.
    pub open spec fn gives_back(before: Self, after: Self) -> bool {
        &&& after.wanted == before.wanted
        &&& if before.frames@.len() > 0 {
            &&& after.frames@ == before.frames@.drop_last()
            &&& after.doing == TableStep::Free(before.frames@.last())
        } else {
            &&& after.frames@ == before.frames@
            &&& after.doing == TableStep::Failed(PrivateFailure::Reply(ReplyStatus::Exhausted))
        }
    }

    /// Start to take `wanted` frames.
    pub fn start(wanted: u64) -> (run: Self)
        ensures
            run.well_formed(),
            run.frames@ == Seq::<u64>::empty(),
            run.wanted == wanted,
            run.doing == Self::taking(0, wanted),
    {
        let frames: Vec<u64> = Vec::new();
        assert(frames@ =~= Seq::<u64>::empty());
        let doing = if wanted > 0 {
            TableStep::Take
        } else {
            TableStep::Ready
        };
        TableRun { frames, wanted, doing }
    }

    /// A frame was taken.
    pub fn took(&mut self, frame: u64)
        requires
            old(self).well_formed(),
            old(self).doing is Take,
        ensures
            final(self).well_formed(),
            final(self).frames@ == old(self).frames@.push(frame),
            final(self).wanted == old(self).wanted,
            final(self).doing == Self::taking(final(self).frames@.len(), old(self).wanted),
    {
        self.frames.push(frame);
        if self.frames.len() as u64 == self.wanted {
            self.doing = TableStep::Ready;
        }
    }

    /// No frame could be taken: those held go back.
    pub fn refused(&mut self)
        requires
            old(self).well_formed(),
            old(self).doing is Take,
        ensures
            final(self).well_formed(),
            Self::gives_back(*old(self), *final(self)),
    {
        self.give_back();
    }

    /// The frame went back, or could not.
    pub fn freed(&mut self, success: bool)
        requires
            old(self).well_formed(),
            old(self).doing is Free,
        ensures
            final(self).well_formed(),
            if success {
                Self::gives_back(*old(self), *final(self))
            } else {
                *final(self) == (TableRun {
                    doing: TableStep::Failed(PrivateFailure::Terminal),
                    ..*old(self)
                })
            },
    {
        if success {
            self.give_back();
        } else {
            self.doing = TableStep::Failed(PrivateFailure::Terminal);
        }
    }

    fn give_back(&mut self)
        requires
            old(self).frames@.len() < old(self).wanted,
        ensures
            final(self).well_formed(),
            Self::gives_back(*old(self), *final(self)),
    {
        self.doing = match self.frames.pop() {
            Some(frame) => TableStep::Free(frame),
            None => TableStep::Failed(PrivateFailure::Reply(ReplyStatus::Exhausted)),
        };
    }
}

/// New tables make up exactly what is missing: with them, the tables in use and
/// those that are required fit into the arena and the frames added to it. No
/// answer is given only where the books are wrong.
pub proof fn tables_make_up_what_is_missing(
    arena_pages: int,
    added_frames: int,
    used_pages: int,
    required: int,
)
    requires
        required >= 0,
    ensures
        missing_tables(arena_pages, added_frames, used_pages, required) is None <==> arena_pages
            + added_frames > u64::MAX || used_pages > arena_pages + added_frames,
        (missing_tables(arena_pages, added_frames, used_pages, required) matches Some(deficit)
            ==> deficit >= 0 && used_pages + required <= arena_pages + added_frames + deficit && (
        deficit > 0 ==> used_pages + required == arena_pages + added_frames + deficit)),
{
}

/// Tables are taken only from frames above the free minimum, and refused as
/// exhausted only where too few are above it.
pub proof fn new_tables_leave_the_free_minimum(
    arena_pages: u64,
    added_frames: usize,
    used_pages: u64,
    required: u64,
    free_frames: u64,
    minimum_free: u64,
)
    ensures
        ({
            let plan = table_plan(
                arena_pages,
                added_frames,
                used_pages,
                required,
                free_frames,
                minimum_free,
            );
            let retained = arena_pages + added_frames;
            let short = used_pages + required - retained;
            let sound = retained <= u64::MAX && used_pages <= retained;
            &&& !sound <==> plan == Err::<int, PrivateFailure>(PrivateFailure::Terminal)
            &&& sound && short <= 0 ==> plan == Ok::<int, PrivateFailure>(0)
            &&& sound && short > 0 && minimum_free + short <= free_frames ==> plan == Ok::<
                int,
                PrivateFailure,
            >(short)
            &&& sound && short > 0 && minimum_free + short > free_frames ==> plan == Err::<
                int,
                PrivateFailure,
            >(PrivateFailure::Reply(ReplyStatus::Exhausted))
        }),
{
}

/// Frames are asked for until the target is met, never more than a step at a
/// time and never more than are missing.
pub proof fn requests_stop_at_the_target(collection: ExtentCollection)
    requires
        collection.step() > 0,
        collection.collected().len() + collection.due() <= collection.target(),
        collection.due() >= 0,
        collection.target() <= u64::MAX,
    ensures
        collection.want() is Nothing <==> collection.collected().len() == collection.target(),
        collection.want() is Single <==> collection.due() > 0,
        (collection.want() matches FrameWant::Run(pages) ==> 1 <= pages <= collection.step()
            && collection.collected().len() + pages <= collection.target() && (pages
            == collection.step() || collection.collected().len() + pages == collection.target())),
{
}

/// Taking tables goes on while fewer are held than wanted. A refusal gives back
/// every frame, the last one first, and then reports exhaustion.
pub proof fn refused_tables_are_given_back(before: TableRun, after: TableRun, held: nat, wanted: u64)
    requires
        TableRun::gives_back(before, after),
    ensures
        TableRun::taking(held, wanted) == TableStep::Take <==> held < wanted,
        TableRun::taking(held, wanted) == TableStep::Ready <==> held >= wanted,
        before.frames@.len() > 0 ==> after.doing == TableStep::Free(
            before.frames@[before.frames@.len() - 1],
        ) && before.frames@ == after.frames@.push(before.frames@[before.frames@.len() - 1]),
        before.frames@.len() == 0 ==> after.frames@.len() == 0 && after.doing == TableStep::Failed(
            PrivateFailure::Reply(ReplyStatus::Exhausted),
        ),
{
    if before.frames@.len() > 0 {
        assert(before.frames@ =~= after.frames@.push(before.frames@.last()));
    }
}

} // verus!
