//! Growing a heap: collecting frames, mapping them, and giving them back where
//! that fails.

use crate::memory::extents::{
    all_well_formed, append_frame, appended, frames, lemma_frames_concat, lemma_frames_len,
    lemma_frames_push, total_pages,
};
use crate::memory::growth::commit_heap_growth;
use crate::memory::pages::PageRange;
use crate::memory::private::space::{ApplicationMemory, SystemMemory};
use vstd::prelude::*;

verus! {

/// How a growth ends that is not granted.
#[derive(Clone, Copy, Debug, PartialEq, Eq, Structural)]
pub enum GrowthEnd {
    /// The request cannot be granted now.
    Exhausted,
    /// Something is inconsistent: the application ends.
    Failed,
}

/// What a growth does next.
#[derive(Clone, Copy, Debug, PartialEq, Eq, Structural)]
pub enum GrowthAction {
    /// Take a page-table frame.
    TakeTable,
    /// Take a run of this many frames.
    TakeRun(u64),
    /// Zero the run.
    ZeroRun(PageRange),
    /// Take one frame.
    TakeFrame,
    /// Zero the frame.
    ZeroFrame(PageRange),
    /// Map the collected frames behind the heap.
    Install,
    /// Give frames back that could not be zeroed.
    GiveBack(PageRange),
    /// Zero a collected range again.
    ScrubRange(PageRange),
    /// Give it back.
    FreeRange(PageRange),
    /// Zero a page-table frame.
    ScrubTable(u64),
    /// Give it back.
    FreeTable(u64),
    /// The heap is this many bytes long.
    Committed(u64),
    /// The growth ended without being granted.
    Ended(GrowthEnd),
}

/// What happened.
#[derive(Clone, Copy, Debug, PartialEq, Eq, Structural)]
pub enum GrowthEvent {
    /// A page-table frame was taken.
    Table(u64),
    /// Frames were taken.
    Frames(PageRange),
    /// There are no such frames.
    Refused,
    /// It was done.
    Done,
    /// It failed.
    Failed,
}

/// A growth in progress.
#[derive(Debug)]
pub struct GrowthRun {
    /// Pages to add.
    pub pages: u64,
    /// Heap pages that are mapped already.
    pub current_pages: u64,
    /// Page-table frames to take first.
    pub wanted_tables: u64,
    /// Single frames that are still due.
    pub singles: u64,
    /// Zeroed frames collected so far.
    pub ranges: Vec<PageRange>,
    /// Page-table frames taken so far.
    pub tables: Vec<u64>,
    /// How the growth ends once everything is given back.
    pub ending: GrowthEnd,
    /// What is being done.
    pub doing: GrowthAction,
}

impl GrowthRun {
    /// Frames collected so far, in order.
    pub open spec fn collected(self) -> Seq<int> {
        frames(self.ranges@)
    }

    /// Whether it is the same request.
    pub open spec fn same_request(self, other: GrowthRun) -> bool {
        &&& self.pages == other.pages
        &&& self.current_pages == other.current_pages
        &&& self.wanted_tables == other.wanted_tables
    }

    /// Whether nothing is collected.
    pub open spec fn holds_nothing(self) -> bool {
        self.ranges@.len() == 0 && self.tables@.len() == 0
    }

    /// Whether the counts fit what is being done: a growth that ended without
    /// being granted holds nothing.
    pub open spec fn well_formed(self) -> bool {
        &&& self.pages > 0
        &&& all_well_formed(self.ranges@)
        &&& self.tables@.len() <= self.wanted_tables
        &&& total_pages(self.ranges@) + self.singles <= self.pages
        &&& match self.doing {
            GrowthAction::TakeTable => self.ranges@.len() == 0 && self.singles == 0
                && self.tables@.len() < self.wanted_tables,
            GrowthAction::TakeRun(count) => self.ranges@.len() == 0 && self.singles == 0 && count
                == self.pages && self.tables@.len() == self.wanted_tables,
            GrowthAction::ZeroRun(range) => self.ranges@.len() == 0 && self.singles == 0
                && range.well_formed() && range.pages() == self.pages && self.tables@.len()
                == self.wanted_tables,
            GrowthAction::TakeFrame => self.singles > 0 && total_pages(self.ranges@) + self.singles
                == self.pages && self.tables@.len() == self.wanted_tables,
            GrowthAction::ZeroFrame(frame) => self.singles > 0 && total_pages(self.ranges@)
                + self.singles == self.pages && frame.well_formed() && frame.pages() == 1
                && self.tables@.len() == self.wanted_tables,
            GrowthAction::Install => total_pages(self.ranges@) == self.pages && self.tables@.len()
                == self.wanted_tables,
            GrowthAction::GiveBack(_) => true,
            GrowthAction::ScrubRange(range) => self.ranges@.len() > 0 && range
                == self.ranges@.last(),
            GrowthAction::FreeRange(range) => self.ranges@.len() > 0 && range
                == self.ranges@.last(),
            GrowthAction::ScrubTable(frame) => self.ranges@.len() == 0 && self.tables@.len() > 0
                && frame == self.tables@.last(),
            GrowthAction::FreeTable(frame) => self.ranges@.len() == 0 && self.tables@.len() > 0
                && frame == self.tables@.last(),
            GrowthAction::Committed(_) | GrowthAction::Ended(_) => self.holds_nothing(),
        }
    }

    /// Whether an event answers what is being done.
    pub open spec fn expects(self, event: GrowthEvent) -> bool {
        match self.doing {
            GrowthAction::TakeTable => event is Table || event is Refused || event is Failed,
            GrowthAction::TakeRun(count) => event is Refused || event is Failed || (event matches
                GrowthEvent::Frames(range) && range.well_formed() && range.pages() == count),
            GrowthAction::TakeFrame => event is Refused || event is Failed || (event matches
                GrowthEvent::Frames(range) && range.well_formed() && range.pages() == 1),
            GrowthAction::Committed(_) | GrowthAction::Ended(_) => false,
            _ => event is Done || event is Failed,
        }
    }

    /// What is given back next: ranges from the last to the first, then
    /// page-table frames.
    pub open spec fn unwinding(self, end: GrowthEnd) -> GrowthAction {
        if self.ranges@.len() > 0 {
            GrowthAction::ScrubRange(self.ranges@.last())
        } else if self.tables@.len() > 0 {
            GrowthAction::ScrubTable(self.tables@.last())
        } else {
            GrowthAction::Ended(end)
        }
    }

    /// Whether `next` goes on to give everything back.
    pub open spec fn turns_back(self, next: GrowthRun, end: GrowthEnd) -> bool {
        &&& next.ranges@ == self.ranges@
        &&& next.tables@ == self.tables@
        &&& next.ending == end
        &&& next.doing == self.unwinding(end)
    }

    /// Whether `next` has the same frames.
    pub open spec fn keeps(self, next: GrowthRun) -> bool {
        next.ranges@ == self.ranges@ && next.tables@ == self.tables@
    }

    /// What follows once the frames are collected, or before.
    pub open spec fn after_frame(singles: int) -> GrowthAction {
        if singles == 0 {
            GrowthAction::Install
        } else {
            GrowthAction::TakeFrame
        }
    }

    /// Whether `next` follows an event, apart from what a commit or a failure to
    /// give back does.
    pub open spec fn leads(self, event: GrowthEvent, next: GrowthRun) -> bool {
        match (self.doing, event) {
            (GrowthAction::TakeTable, GrowthEvent::Table(frame)) => {
                &&& next.ranges@ == self.ranges@
                &&& next.tables@ == self.tables@.push(frame)
                &&& next.doing == if self.tables@.len() + 1 < self.wanted_tables {
                    GrowthAction::TakeTable
                } else {
                    GrowthAction::TakeRun(self.pages)
                }
            },
            (GrowthAction::TakeTable, _) => self.turns_back(next, GrowthEnd::Exhausted),
            (GrowthAction::TakeRun(_), GrowthEvent::Frames(range)) => self.keeps(next) && next.doing
                == GrowthAction::ZeroRun(range),
            (GrowthAction::TakeRun(_), GrowthEvent::Refused) => self.keeps(next) && next.singles
                == self.pages && next.doing == GrowthAction::TakeFrame,
            (GrowthAction::TakeRun(_), _) => self.turns_back(next, GrowthEnd::Failed),
            (GrowthAction::ZeroRun(range), GrowthEvent::Done) => {
                &&& next.ranges@ == self.ranges@.push(range)
                &&& next.collected() == self.collected() + range.numbers()
                &&& next.tables@ == self.tables@
                &&& next.doing == GrowthAction::Install
            },
            (GrowthAction::ZeroRun(range), _) => self.keeps(next) && next.ending
                == GrowthEnd::Failed && next.doing == GrowthAction::GiveBack(range),
            (GrowthAction::TakeFrame, GrowthEvent::Frames(frame)) => self.keeps(next) && next.doing
                == GrowthAction::ZeroFrame(frame) && next.singles == self.singles,
            (GrowthAction::TakeFrame, _) => self.turns_back(next, GrowthEnd::Exhausted),
            (GrowthAction::ZeroFrame(frame), GrowthEvent::Done) => {
                &&& next.ranges@ == appended(self.ranges@, frame)
                &&& next.collected() == self.collected() + frame.numbers()
                &&& next.tables@ == self.tables@
                &&& next.singles == self.singles - 1
                &&& next.doing == GrowthRun::after_frame(self.singles - 1)
            },
            (GrowthAction::ZeroFrame(frame), _) => self.keeps(next) && next.ending
                == GrowthEnd::Failed && next.doing == GrowthAction::GiveBack(frame),
            (GrowthAction::GiveBack(_), GrowthEvent::Done) => self.turns_back(next, self.ending),
            (GrowthAction::Install, GrowthEvent::Failed) => self.turns_back(next, GrowthEnd::Failed),
            (GrowthAction::ScrubRange(range), GrowthEvent::Done) => self.keeps(next) && next.doing
                == GrowthAction::FreeRange(range) && next.ending == self.ending,
            (GrowthAction::FreeRange(_), GrowthEvent::Done) => {
                &&& next.ranges@ == self.ranges@.drop_last()
                &&& next.tables@ == self.tables@
                &&& next.ending == self.ending
                &&& next.doing == next.unwinding(self.ending)
            },
            (GrowthAction::ScrubTable(frame), GrowthEvent::Done) => self.keeps(next) && next.doing
                == GrowthAction::FreeTable(frame) && next.ending == self.ending,
            (GrowthAction::FreeTable(_), GrowthEvent::Done) => {
                &&& next.ranges@ == self.ranges@
                &&& next.tables@ == self.tables@.drop_last()
                &&& next.ending == self.ending
                &&& next.doing == next.unwinding(self.ending)
            },
            _ => next.holds_nothing(),
        }
    }

    /// Whether the growth is booked by an event.
    pub open spec fn commits(self, event: GrowthEvent) -> bool {
        self.doing is Install && event is Done
    }

    /// Whether frames cannot be given back: they stay with the application,
    /// whose end takes them.
    pub open spec fn strands(self, event: GrowthEvent) -> bool {
        event is Failed && match self.doing {
            GrowthAction::GiveBack(_)
            | GrowthAction::ScrubRange(_)
            | GrowthAction::FreeRange(_)
            | GrowthAction::ScrubTable(_)
            | GrowthAction::FreeTable(_) => true,
            _ => false,
        }
    }

    /// Whether the application took over everything collected, behind the
    /// ranges and page-table frames that it had.
    pub open spec fn taken_over(self, before: ApplicationMemory, after: ApplicationMemory) -> bool {
        &&& after.growth_ranges@ == before.growth_ranges@ + self.ranges@
        &&& frames(after.growth_ranges@) == frames(before.growth_ranges@) + self.collected()
        &&& after.growth_table_frames@ == before.growth_table_frames@ + self.tables@
        &&& after.private_memory == before.private_memory
        &&& after.extent_pages == before.extent_pages
        &&& after.table_pages == before.table_pages
        &&& after.heap_pages == before.heap_pages
    }

    /// Start growing a heap of `current_pages` pages by `pages` pages, with
    /// `wanted_tables` page-table frames.
    pub fn start(pages: u64, current_pages: u64, wanted_tables: u64) -> (run: Self)
        requires
            pages > 0,
        ensures
            run.well_formed(),
            run.holds_nothing(),
            run.pages == pages,
            run.current_pages == current_pages,
            run.wanted_tables == wanted_tables,
            run.singles == 0,
            run.ending == GrowthEnd::Failed,
            run.doing == (if wanted_tables > 0 {
                GrowthAction::TakeTable
            } else {
                GrowthAction::TakeRun(pages)
            }),
    {
        GrowthRun {
            pages,
            current_pages,
            wanted_tables,
            singles: 0,
            ranges: Vec::new(),
            tables: Vec::new(),
            ending: GrowthEnd::Failed,
            doing: if wanted_tables > 0 {
                GrowthAction::TakeTable
            } else {
                GrowthAction::TakeRun(pages)
            },
        }
    }

    fn turn_back(&mut self, end: GrowthEnd)
        requires
            all_well_formed(old(self).ranges@),
            old(self).pages > 0,
            old(self).tables@.len() <= old(self).wanted_tables,
            total_pages(old(self).ranges@) <= old(self).pages,
        ensures
            final(self).well_formed(),
            final(self).same_request(*old(self)),
            old(self).turns_back(*final(self), end),
    {
        self.singles = 0;
        self.ending = end;
        let ranges: usize = self.ranges.len();
        let tables: usize = self.tables.len();
        self.doing = if ranges > 0 {
            GrowthAction::ScrubRange(self.ranges[ranges - 1])
        } else if tables > 0 {
            GrowthAction::ScrubTable(self.tables[tables - 1])
        } else {
            GrowthAction::Ended(end)
        };
    }

    fn strand(&mut self, memory: &mut ApplicationMemory)
        requires
            old(self).well_formed(),
            old(memory).well_formed(),
        ensures
            final(self).well_formed(),
            final(self).same_request(*old(self)),
            final(self).holds_nothing(),
            final(self).doing == GrowthAction::Ended(GrowthEnd::Failed),
            final(memory).well_formed(),
            old(self).taken_over(*old(memory), *final(memory)),
    {
        let ghost both = memory.growth_ranges@ + self.ranges@;
        proof {
            lemma_frames_concat(memory.growth_ranges@, self.ranges@);
        }
        memory.growth_ranges.append(&mut self.ranges);
        memory.growth_table_frames.append(&mut self.tables);
        self.singles = 0;
        self.doing = GrowthAction::Ended(GrowthEnd::Failed);
        proof {
            assert(memory.growth_ranges@ == both);
            assert forall|i: int| 0 <= i < both.len() implies (
            #[trigger] both[i]).well_formed() by {}
            lemma_frames_len(self.ranges@);
        }
    }

    fn commit(&mut self, system: &mut SystemMemory, memory: &mut ApplicationMemory)
        requires
            old(self).well_formed(),
            old(self).doing is Install,
            old(memory).well_formed(),
            old(system).application_committed_pages + old(self).pages <= u64::MAX,
        ensures
            final(self).well_formed(),
            final(self).same_request(*old(self)),
            final(memory).well_formed(),
            old(self).taken_over(*old(memory), *final(memory)),
            *final(system) == (SystemMemory {
                application_committed_pages: (old(system).application_committed_pages + old(
                    self,
                ).pages) as u64,
                ..*old(system)
            }),
            final(self).doing == (if 4096 * (old(self).current_pages + old(self).pages)
                <= u64::MAX {
                GrowthAction::Committed(
                    (4096 * (old(self).current_pages + old(self).pages)) as u64,
                )
            } else {
                GrowthAction::Ended(GrowthEnd::Failed)
            }),
    {
        let mut ranges: Vec<PageRange> = Vec::new();
        let mut tables: Vec<u64> = Vec::new();
        std::mem::swap(&mut ranges, &mut self.ranges);
        std::mem::swap(&mut tables, &mut self.tables);
        self.doing = match commit_heap_growth(system, memory, self.current_pages, ranges, tables) {
            Some(bytes) => GrowthAction::Committed(bytes),
            None => GrowthAction::Ended(GrowthEnd::Failed),
        };
    }

    /// Take an event and go on. The books change only where the growth is
    /// booked, and the application's memory only there or where frames cannot be
    /// given back.
    pub fn observe(
        &mut self,
        system: &mut SystemMemory,
        memory: &mut ApplicationMemory,
        event: GrowthEvent,
    ) -> (action: GrowthAction)
        requires
            old(self).well_formed(),
            old(self).expects(event),
            old(memory).well_formed(),
            old(self).commits(event) ==> old(system).application_committed_pages + old(self).pages
                <= u64::MAX,
        ensures
            final(self).well_formed(),
            final(self).same_request(*old(self)),
            old(self).leads(event, *final(self)),
            action == final(self).doing,
            final(memory).well_formed(),
            if old(self).commits(event) {
                &&& old(self).taken_over(*old(memory), *final(memory))
                &&& *final(system) == (SystemMemory {
                    application_committed_pages: (old(system).application_committed_pages + old(
                        self,
                    ).pages) as u64,
                    ..*old(system)
                })
                &&& action == (if 4096 * (old(self).current_pages + old(self).pages) <= u64::MAX {
                    GrowthAction::Committed(
                        (4096 * (old(self).current_pages + old(self).pages)) as u64,
                    )
                } else {
                    GrowthAction::Ended(GrowthEnd::Failed)
                })
            } else if old(self).strands(event) {
                &&& old(self).taken_over(*old(memory), *final(memory))
                &&& *final(system) == *old(system)
                &&& action == GrowthAction::Ended(GrowthEnd::Failed)
            } else {
                *final(memory) == *old(memory) && *final(system) == *old(system)
            },
    {
        proof {
            lemma_frames_len(self.ranges@);
        }
        match (self.doing, event) {
            (GrowthAction::TakeTable, GrowthEvent::Table(frame)) => {
                self.tables.push(frame);
                self.doing = if (self.tables.len() as u64) < self.wanted_tables {
                    GrowthAction::TakeTable
                } else {
                    GrowthAction::TakeRun(self.pages)
                };
            },
            (GrowthAction::TakeTable, _) => self.turn_back(GrowthEnd::Exhausted),
            (GrowthAction::TakeRun(_), GrowthEvent::Frames(range)) => {
                self.doing = GrowthAction::ZeroRun(range);
            },
            (GrowthAction::TakeRun(_), GrowthEvent::Refused) => {
                self.singles = self.pages;
                self.doing = GrowthAction::TakeFrame;
            },
            (GrowthAction::TakeRun(_), _) => self.turn_back(GrowthEnd::Failed),
            (GrowthAction::ZeroRun(range), GrowthEvent::Done) => {
                proof {
                    lemma_frames_push(self.ranges@, range);
                }
                self.ranges.push(range);
                self.doing = GrowthAction::Install;
            },
            (GrowthAction::ZeroRun(range), _) => {
                self.ending = GrowthEnd::Failed;
                self.doing = GrowthAction::GiveBack(range);
            },
            (GrowthAction::TakeFrame, GrowthEvent::Frames(frame)) => {
                self.doing = GrowthAction::ZeroFrame(frame);
            },
            (GrowthAction::TakeFrame, _) => self.turn_back(GrowthEnd::Exhausted),
            (GrowthAction::ZeroFrame(frame), GrowthEvent::Done) => {
                append_frame(&mut self.ranges, frame);
                self.singles = self.singles - 1;
                self.doing = if self.singles == 0 {
                    GrowthAction::Install
                } else {
                    GrowthAction::TakeFrame
                };
            },
            (GrowthAction::ZeroFrame(frame), _) => {
                self.ending = GrowthEnd::Failed;
                self.doing = GrowthAction::GiveBack(frame);
            },
            (GrowthAction::GiveBack(_), GrowthEvent::Done) => self.turn_back(self.ending),
            (GrowthAction::Install, GrowthEvent::Done) => self.commit(system, memory),
            (GrowthAction::Install, _) => self.turn_back(GrowthEnd::Failed),
            (GrowthAction::ScrubRange(range), GrowthEvent::Done) => {
                self.doing = GrowthAction::FreeRange(range);
            },
            (GrowthAction::FreeRange(_), GrowthEvent::Done) => {
                let ghost before = self.ranges@;
                self.ranges.pop();
                proof {
                    assert(self.ranges@ =~= before.drop_last());
                    assert(before.last().well_formed());
                    assert(total_pages(before) == total_pages(self.ranges@)
                        + before.last().pages());
                }
                self.turn_back(self.ending);
            },
            (GrowthAction::ScrubTable(frame), GrowthEvent::Done) => {
                self.doing = GrowthAction::FreeTable(frame);
            },
            (GrowthAction::FreeTable(_), GrowthEvent::Done) => {
                let ghost before = self.tables@;
                self.tables.pop();
                assert(self.tables@ =~= before.drop_last());
                self.turn_back(self.ending);
            },
            _ => self.strand(memory),
        }
        self.doing
    }

    /// How many steps may still follow.
    pub open spec fn steps_left(self) -> int {
        let undo: int = (2 * (self.ranges@.len() + self.tables@.len()) + 2) as int;
        let build = 4 * self.wanted_tables - 2 * self.tables@.len() + 6 * self.pages - 4
            * total_pages(self.ranges@) + 2;
        match self.doing {
            GrowthAction::TakeTable => build + 9,
            GrowthAction::TakeRun(_) => build + 8,
            GrowthAction::ZeroRun(_) => build + 6,
            GrowthAction::TakeFrame => build + 5,
            GrowthAction::ZeroFrame(_) => build + 4,
            GrowthAction::Install => build + 3,
            GrowthAction::GiveBack(_) => undo + 2,
            GrowthAction::ScrubRange(_) | GrowthAction::ScrubTable(_) => undo + 1,
            GrowthAction::FreeRange(_) | GrowthAction::FreeTable(_) => undo,
            GrowthAction::Committed(_) | GrowthAction::Ended(_) => 0,
        }
    }
}

/// A growth comes to an end: each event leaves fewer steps.
pub proof fn growth_comes_to_an_end(run: GrowthRun, event: GrowthEvent, next: GrowthRun)
    requires
        run.well_formed(),
        run.expects(event),
        next.well_formed(),
        next.same_request(run),
        run.leads(event, next),
        run.commits(event) || run.strands(event) ==> next.doing is Committed || next.doing
            is Ended,
    ensures
        0 <= next.steps_left() < run.steps_left(),
{
    lemma_frames_len(run.ranges@);
    lemma_frames_len(next.ranges@);
    if run.ranges@.len() > 0 {
        let rest = run.ranges@.drop_last();
        assert forall|i: int| 0 <= i < rest.len() implies (#[trigger] rest[i]).well_formed() by {
            assert(rest[i] == run.ranges@[i]);
        }
        lemma_frames_len(rest);
    }
}

/// A growth that is refused leaves nothing behind: everything collected was
/// given back before it ended.
pub proof fn refused_growth_leaves_nothing(run: GrowthRun)
    requires
        run.well_formed(),
        run.doing is Ended,
    ensures
        run.ranges@.len() == 0,
        run.tables@.len() == 0,
        run.collected().len() == 0,
{
    lemma_frames_len(run.ranges@);
}

/// A growth that is committed reports the whole heap: with the number of pages
/// that were mapped before, the reported bytes are those of the heap of the
/// application afterwards, and as many pages were added as were asked for.
pub proof fn committed_growth_reports_the_whole_heap(
    run: GrowthRun,
    before: ApplicationMemory,
    after: ApplicationMemory,
)
    requires
        run.well_formed(),
        run.doing is Install,
        run.taken_over(before, after),
        run.current_pages == before.heap_pages + total_pages(before.growth_ranges@),
    ensures
        4096 * (run.current_pages + run.pages) == 4096 * (after.heap_pages + total_pages(
            after.growth_ranges@,
        )),
        total_pages(after.growth_ranges@) == total_pages(before.growth_ranges@) + run.pages,
        after.growth_table_frames@.len() == before.growth_table_frames@.len() + run.wanted_tables,
{
    crate::memory::extents::lemma_frames_concat(before.growth_ranges@, run.ranges@);
}

/// A growth for which a frame could not be taken ends as exhausted, one whose
/// frames could not be zeroed or mapped as failed, once everything is given
/// back. Ranges go before page tables, the newest first.
pub proof fn growth_ends_as_it_stopped(run: GrowthRun, event: GrowthEvent, next: GrowthRun)
    requires
        run.well_formed(),
        run.expects(event),
        run.leads(event, next),
        next.well_formed(),
    ensures
        run.doing is TakeTable && !(event is Table) ==> next.ending == GrowthEnd::Exhausted,
        run.doing is TakeFrame && !(event is Frames) ==> next.ending == GrowthEnd::Exhausted,
        run.doing is TakeRun && event is Failed ==> next.ending == GrowthEnd::Failed,
        run.doing is TakeRun && event is Refused ==> next.doing == GrowthAction::TakeFrame
            && next.singles == run.pages,
        (run.doing is ZeroRun || run.doing is ZeroFrame || run.doing is Install) && event is Failed
            ==> next.ending == GrowthEnd::Failed,
        next.doing is ScrubTable || next.doing is FreeTable ==> next.ranges@.len() == 0,
        next.doing matches GrowthAction::ScrubRange(range) ==> next.ranges@.len() > 0 && range
            == next.ranges@.last(),
        next.doing matches GrowthAction::ScrubTable(frame) ==> next.tables@.len() > 0 && frame
            == next.tables@.last(),
        run.doing is ScrubRange && event is Done ==> next.doing == GrowthAction::FreeRange(
            run.ranges@.last(),
        ),
        run.doing is ScrubTable && event is Done ==> next.doing == GrowthAction::FreeTable(
            run.tables@.last(),
        ),
{
}

/// Tables come first, then one run of all the pages, or each page alone where no
/// such run is free. Frames are zeroed before they are kept, and whatever is kept
/// is scrubbed before it is freed, the last first, frames before tables.
pub proof fn growth_goes_step_by_step(
    run: GrowthRun,
    event: GrowthEvent,
    next: GrowthRun,
)
    requires
        run.well_formed(),
        run.leads(event, next),
    ensures
        (event matches GrowthEvent::Table(frame) ==> run.doing == GrowthAction::TakeTable ==> {
            &&& next.tables@ == run.tables@.push(frame)
            &&& next.tables@.len() < run.wanted_tables ==> next.doing == GrowthAction::TakeTable
            &&& next.tables@.len() == run.wanted_tables ==> next.doing == GrowthAction::TakeRun(
                run.pages,
            )
        }),
        (event matches GrowthEvent::Frames(range) ==> {
            &&& run.doing is TakeRun ==> next.doing == GrowthAction::ZeroRun(range)
            &&& run.doing is TakeFrame ==> next.doing == GrowthAction::ZeroFrame(range)
        }),
        run.doing is TakeRun && event == GrowthEvent::Refused ==> next.doing
            == GrowthAction::TakeFrame && next.singles == run.pages,
        (run.doing matches GrowthAction::ZeroRun(range) ==> event == GrowthEvent::Done ==> next.doing
            == GrowthAction::Install && next.ranges@ == run.ranges@.push(range)),
        (run.doing matches GrowthAction::ZeroRun(range) ==> event == GrowthEvent::Failed
            ==> next.doing == GrowthAction::GiveBack(range) && next.ranges@ == run.ranges@),
        (run.doing matches GrowthAction::ZeroFrame(frame) ==> event == GrowthEvent::Failed
            ==> next.doing == GrowthAction::GiveBack(frame) && next.ranges@ == run.ranges@),
        run.doing is ZeroFrame && event == GrowthEvent::Done ==> {
            &&& run.singles == 1 ==> next.doing == GrowthAction::Install
            &&& run.singles > 1 ==> next.doing == GrowthAction::TakeFrame
            &&& next.singles == run.singles - 1
        },
        run.doing is ScrubRange && event == GrowthEvent::Done ==> next.doing
            == GrowthAction::FreeRange(run.ranges@[run.ranges@.len() - 1]),
        run.doing is ScrubTable && event == GrowthEvent::Done ==> next.doing
            == GrowthAction::FreeTable(run.tables@[run.tables@.len() - 1]),
        run.doing is FreeRange && event == GrowthEvent::Done && run.ranges@.len() > 1
            ==> next.doing == GrowthAction::ScrubRange(run.ranges@[run.ranges@.len() - 2]),
        run.doing is FreeRange && event == GrowthEvent::Done && run.ranges@.len() == 1
            && run.tables@.len() > 0 ==> next.doing == GrowthAction::ScrubTable(
            run.tables@[run.tables@.len() - 1],
        ),
{
}

} // verus!
