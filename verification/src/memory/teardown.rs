//! Giving an application's memory back.

use crate::memory::extents::{
    all_well_formed, frames, lemma_frames_concat, lemma_frames_len, lemma_frames_push,
};
use crate::memory::native::releasing::{FrameRelease, ReleaseStep};
use crate::memory::pages::PageRange;
use crate::memory::private::mapping::PrivateMapping;
use crate::memory::private::space::{application_growth_pages, ApplicationMemory, SystemMemory};
use vstd::prelude::*;

verus! {

/// The frames behind a list of private mappings, in order.
pub open spec fn mapping_frames(mappings: Seq<PrivateMapping>) -> Seq<int>
    decreases mappings.len(),
{
    if mappings.len() == 0 {
        Seq::empty()
    } else {
        mapping_frames(mappings.drop_last()) + mappings.last().frames()
    }
}

/// Committed pages of an application.
pub open spec fn held_pages(memory: ApplicationMemory) -> int {
    memory.extent_pages + memory.growth_pages() + memory.private_memory.committed_pages
}

/// The last words where the task of a command application could not be ended
/// or its memory not be given back, if so. Memory is given back only once the
/// task is ended.
pub fn rollback_failure(ended: bool, reclaimed: bool) -> (text: Option<&'static str>)
    ensures
        text == (if ended && reclaimed {
            None
        } else {
            Some("fatal: application rollback invariant failed\n")
        }),
{
    if ended && reclaimed {
        None
    } else {
        Some("fatal: application rollback invariant failed\n")
    }
}

/// The last words where the memory of a command application could not be given
/// back, if so.
pub fn reclaim_failure(reclaimed: bool) -> (text: Option<&'static str>)
    ensures
        text == (if reclaimed {
            None
        } else {
            Some("fatal: application reclaim invariant failed\n")
        }),
{
    if reclaimed {
        None
    } else {
        Some("fatal: application reclaim invariant failed\n")
    }
}

/// Take an application's share out of the system totals.
///
/// Fails where the totals do not contain it; pages are taken out before
/// metadata.
pub fn reclaim_accounting(system: &mut SystemMemory, memory: &ApplicationMemory) -> (reclaimed: bool)
    requires
        memory.parts_well_formed(),
    ensures
        ({
            let pages = old(system).application_committed_pages - held_pages(*memory);
            let bytes = old(system).private_metadata_bytes - memory.private_memory.metadata_bytes;
            &&& reclaimed == (pages >= 0 && bytes >= 0)
            &&& *final(system) == (SystemMemory {
                application_committed_pages: if pages >= 0 {
                    pages as u64
                } else {
                    old(system).application_committed_pages
                },
                private_metadata_bytes: if reclaimed {
                    bytes as u64
                } else {
                    old(system).private_metadata_bytes
                },
                ..*old(system)
            })
        }),
{
    proof {
        lemma_frames_len(memory.growth_ranges@);
    }
    let growth: u64 = match application_growth_pages(memory) {
        Some(pages) => pages,
        None => return false,
    };
    let fixed: u64 = match memory.extent_pages.checked_add(growth) {
        Some(pages) => pages,
        None => return false,
    };
    let held: u64 = match fixed.checked_add(memory.private_memory.committed_pages) {
        Some(pages) => pages,
        None => return false,
    };
    let committed: u64 = match system.application_committed_pages.checked_sub(held) {
        Some(pages) => pages,
        None => return false,
    };
    system.application_committed_pages = committed;
    system.private_metadata_bytes = match system.private_metadata_bytes.checked_sub(
        memory.private_memory.metadata_bytes,
    ) {
        Some(bytes) => bytes,
        None => return false,
    };
    true
}

/// Whether the first `n` added page-table frames are pages.
pub open spec fn table_frames_valid(table_frames: Seq<u64>, n: int) -> bool {
    forall|i: int| 0 <= i < n ==> PageRange::valid((#[trigger] table_frames[i]) as int, 1)
}

/// The page numbers of page-table frames.
pub open spec fn table_numbers(table_frames: Seq<u64>) -> Seq<int> {
    Seq::new(table_frames.len(), |i: int| table_frames[i] as int / 4096)
}

/// Every frame of an application, in the order of release: private mappings,
/// heap growth, added page tables, page tables, reservation.
pub open spec fn application_frames(
    memory: ApplicationMemory,
    tables: PageRange,
    extents: Seq<PageRange>,
) -> Seq<int> {
    mapping_frames(memory.private_memory.mappings@) + frames(memory.growth_ranges@)
        + table_numbers(memory.growth_table_frames@) + tables.numbers() + frames(extents)
}

/// What a teardown gives back.
#[derive(Debug)]
pub struct TeardownPlan {
    /// Ranges, in order.
    pub order: Vec<PageRange>,
    /// Whether that is everything: an added page-table frame that is not a page
    /// ends the list.
    pub whole: bool,
}

/// List every range that an application holds, in the order of release.
pub fn teardown_order(
    memory: &ApplicationMemory,
    tables: PageRange,
    extents: &Vec<PageRange>,
) -> (plan: TeardownPlan)
    requires
        memory.parts_well_formed(),
        tables.well_formed(),
        all_well_formed(extents@),
    ensures
        all_well_formed(plan.order@),
        plan.whole == table_frames_valid(
            memory.growth_table_frames@,
            memory.growth_table_frames@.len() as int,
        ),
        plan.whole ==> frames(plan.order@) == application_frames(*memory, tables, extents@),
        !plan.whole ==> exists|k: int|
            {
                &&& 0 <= k < memory.growth_table_frames@.len()
                &&& #[trigger] table_frames_valid(memory.growth_table_frames@, k)
                &&& !PageRange::valid(memory.growth_table_frames@[k] as int, 1)
                &&& frames(plan.order@) == mapping_frames(memory.private_memory.mappings@)
                    + frames(memory.growth_ranges@) + table_numbers(
                    memory.growth_table_frames@.take(k),
                )
            },
{
    let mut order: Vec<PageRange> = Vec::new();
    let mappings = &memory.private_memory.mappings;
    let mut i: usize = 0;
    assert(frames(order@) =~= mapping_frames(mappings@.take(0)));
    while i < mappings.len()
        invariant
            i <= mappings@.len(),
            *mappings == memory.private_memory.mappings,
            memory.parts_well_formed(),
            all_well_formed(order@),
            frames(order@) == mapping_frames(mappings@.take(i as int)),
        decreases mappings@.len() - i,
    {
        proof {
            assert(mappings@[i as int].well_formed());
            assert(mappings@.take(i + 1).drop_last() =~= mappings@.take(i as int));
        }
        append_all(&mut order, &mappings[i].backing);
        i = i + 1;
    }
    assert(mappings@.take(i as int) =~= mappings@);
    append_all(&mut order, &memory.growth_ranges);
    let ghost second = frames(order@);
    let mut k: usize = 0;
    assert(second =~= second + table_numbers(memory.growth_table_frames@.take(0)));
    while k < memory.growth_table_frames.len()
        invariant
            k <= memory.growth_table_frames@.len(),
            all_well_formed(order@),
            second == mapping_frames(memory.private_memory.mappings@) + frames(
                memory.growth_ranges@,
            ),
            frames(order@) == second + table_numbers(
                memory.growth_table_frames@.take(k as int),
            ),
            table_frames_valid(memory.growth_table_frames@, k as int),
        decreases memory.growth_table_frames@.len() - k,
    {
        let range = match PageRange::from_pages(memory.growth_table_frames[k], 1) {
            Some(range) => range,
            None => {
                assert(!PageRange::valid(memory.growth_table_frames@[k as int] as int, 1));
                return TeardownPlan { order, whole: false };
            },
        };
        proof {
            lemma_frames_push(order@, range);
            let done = memory.growth_table_frames@.take(k as int);
            let more = memory.growth_table_frames@.take(k + 1);
            assert(second + table_numbers(more) =~= second + table_numbers(done)
                + range.numbers());
        }
        order.push(range);
        k = k + 1;
    }
    assert(memory.growth_table_frames@.take(k as int) =~= memory.growth_table_frames@);
    proof {
        lemma_frames_push(order@, tables);
    }
    order.push(tables);
    append_all(&mut order, extents);
    TeardownPlan { order, whole: true }
}

/// Append a list of extents.
fn append_all(order: &mut Vec<PageRange>, extents: &Vec<PageRange>)
    requires
        all_well_formed(old(order)@),
        all_well_formed(extents@),
    ensures
        all_well_formed(final(order)@),
        final(order)@ == old(order)@ + extents@,
        frames(final(order)@) == frames(old(order)@) + frames(extents@),
{
    let ghost before = order@;
    let mut i: usize = 0;
    while i < extents.len()
        invariant
            i <= extents@.len(),
            all_well_formed(before),
            all_well_formed(extents@),
            order@ == before + extents@.take(i as int),
        decreases extents@.len() - i,
    {
        order.push(extents[i]);
        i = i + 1;
        assert(order@ =~= before + extents@.take(i as int));
    }
    proof {
        assert(extents@.take(i as int) =~= extents@);
        lemma_frames_concat(before, extents@);
    }
}

/// What giving memory back does next.
#[derive(Clone, Copy, Debug, PartialEq, Eq, Structural)]
pub enum TeardownAction {
    /// Give frames back.
    Release(ReleaseStep),
    /// Everything was given back.
    Done,
    /// The rest is kept: memory that may hold old bytes is never reused.
    Failed,
}

/// Giving an application's memory back.
#[derive(Debug)]
pub struct TeardownRun {
    /// Ranges on their way back.
    pub release: FrameRelease,
    /// Whether they are everything.
    pub whole: bool,
    /// What is being done.
    pub doing: TeardownAction,
}

impl TeardownRun {
    /// What is done in a state of the release.
    pub open spec fn turn(release: FrameRelease, whole: bool) -> TeardownAction {
        if release.stands() != ReleaseStep::Finished {
            TeardownAction::Release(release.stands())
        } else if whole {
            TeardownAction::Done
        } else {
            TeardownAction::Failed
        }
    }

    /// Whether the release fits what is being done.
    pub open spec fn well_formed(self) -> bool {
        match self.doing {
            TeardownAction::Release(step) => step == self.release.stands() && step
                != ReleaseStep::Finished,
            TeardownAction::Done => self.whole && self.release.freed
                == self.release.ranges@.len(),
            TeardownAction::Failed => true,
        }
    }

    /// The teardown after a step that was done or failed.
    pub open spec fn after(self, done: bool) -> TeardownRun {
        if done {
            TeardownRun {
                release: self.release.advanced(),
                doing: TeardownRun::turn(self.release.advanced(), self.whole),
                ..self
            }
        } else {
            TeardownRun { doing: TeardownAction::Failed, ..self }
        }
    }

    fn take_turn(&mut self)
        ensures
            *final(self) == (TeardownRun {
                doing: TeardownRun::turn(old(self).release, old(self).whole),
                ..*old(self)
            }),
    {
        self.doing = match self.release.current() {
            ReleaseStep::Finished => if self.whole {
                TeardownAction::Done
            } else {
                TeardownAction::Failed
            },
            step => TeardownAction::Release(step),
        };
    }

    /// Start giving memory back.
    pub fn start(plan: TeardownPlan) -> (run: Self)
        ensures
            run.well_formed(),
            run == (TeardownRun {
                release: FrameRelease::of(plan.order, None),
                whole: plan.whole,
                doing: TeardownRun::turn(FrameRelease::of(plan.order, None), plan.whole),
            }),
    {
        let mut run = TeardownRun {
            release: FrameRelease::start(plan.order, None),
            whole: plan.whole,
            doing: TeardownAction::Failed,
        };
        run.take_turn();
        run
    }

    /// Go on after a step that was done or failed. A range is given back only
    /// once it is zero.
    pub fn observe(&mut self, done: bool) -> (action: TeardownAction)
        requires
            old(self).well_formed(),
            old(self).doing is Release,
        ensures
            final(self).well_formed(),
            *final(self) == old(self).after(done),
            action == final(self).doing,
    {
        if !done {
            self.doing = TeardownAction::Failed;
            return self.doing;
        }
        self.release.advance();
        self.take_turn();
        self.doing
    }
}

/// A teardown comes to an end: each step leaves fewer.
pub proof fn teardowns_come_to_an_end(run: TeardownRun, done: bool)
    requires
        run.well_formed(),
        run.doing is Release,
        run.after(done).doing is Release,
    ensures
        0 <= run.after(done).release.steps_left() < run.release.steps_left(),
{
    assert(run.release.ranges.len() == run.release.ranges@.len());
}

/// A teardown that is done has zeroed and given back exactly what the
/// application held: its reservation, its page tables and all that was added
/// since.
pub proof fn torn_down_applications_hold_nothing(
    run: TeardownRun,
    memory: ApplicationMemory,
    tables: PageRange,
    extents: Seq<PageRange>,
)
    requires
        run.well_formed(),
        run.doing == TeardownAction::Done,
        frames(run.release.ranges@) == application_frames(memory, tables, extents),
    ensures
        frames(run.release.ranges@.take(run.release.freed as int)) == application_frames(
            memory,
            tables,
            extents,
        ),
{
    assert(run.release.ranges@.take(run.release.freed as int) =~= run.release.ranges@);
}

/// A program that is torn down right after its launch takes out of the totals
/// what the launch put in.
pub proof fn teardown_undoes_the_launch(before: SystemMemory, memory: ApplicationMemory)
    requires
        memory.well_formed(),
        memory.growth_ranges@.len() == 0,
        memory.private_memory.mappings@.len() == 0,
        before.application_committed_pages + memory.extent_pages <= u64::MAX,
    ensures
        ({
            let launched = SystemMemory {
                application_committed_pages: (before.application_committed_pages
                    + memory.extent_pages) as u64,
                ..before
            };
            before == (SystemMemory {
                application_committed_pages: (launched.application_committed_pages - held_pages(
                    memory,
                )) as u64,
                private_metadata_bytes: (launched.private_metadata_bytes
                    - memory.private_memory.metadata_bytes) as u64,
                ..launched
            })
        }),
{
    lemma_frames_len(memory.growth_ranges@);
}

/// Everything that an application holds is given back: each frame of a private
/// mapping, of heap growth, of the page tables, old and new, and of the launch
/// reservation.
pub proof fn everything_held_is_given_back(
    memory: ApplicationMemory,
    tables: PageRange,
    extents: Seq<PageRange>,
    m: int,
    frame: int,
)
    ensures
        ({
            let all = application_frames(memory, tables, extents);
            let mappings = memory.private_memory.mappings@;
            &&& 0 <= m < mappings.len() && mappings[m].frames().contains(frame) ==> all.contains(
                frame,
            )
            &&& frames(memory.growth_ranges@).contains(frame) ==> all.contains(frame)
            &&& 0 <= m < memory.growth_table_frames@.len() ==> all.contains(
                memory.growth_table_frames@[m] as int / 4096,
            )
            &&& tables.covers(frame) ==> all.contains(frame)
            &&& frames(extents).contains(frame) ==> all.contains(frame)
        }),
{
    let mappings = memory.private_memory.mappings@;
    let a = mapping_frames(mappings);
    let b = frames(memory.growth_ranges@);
    let c = table_numbers(memory.growth_table_frames@);
    let d = tables.numbers();
    let e = frames(extents);
    let all = application_frames(memory, tables, extents);
    if 0 <= m < mappings.len() && mappings[m].frames().contains(frame) {
        lemma_mapping_frames_hold(mappings, m, frame);
        let k = a.index_of(frame);
        assert(all[k] == frame);
    }
    if b.contains(frame) {
        let k = b.index_of(frame);
        assert(all[a.len() + k] == frame);
    }
    if 0 <= m < memory.growth_table_frames@.len() {
        assert(all[a.len() + b.len() + m] == c[m]);
    }
    if tables.covers(frame) {
        let k = frame - tables.first();
        assert(d[k] == frame);
        assert(all[a.len() + b.len() + c.len() + k] == frame);
    }
    if e.contains(frame) {
        let k = e.index_of(frame);
        assert(all[a.len() + b.len() + c.len() + d.len() + k] == frame);
    }
}

proof fn lemma_mapping_frames_hold(mappings: Seq<PrivateMapping>, m: int, frame: int)
    requires
        0 <= m < mappings.len(),
        mappings[m].frames().contains(frame),
    ensures
        mapping_frames(mappings).contains(frame),
    decreases mappings.len(),
{
    let front = mapping_frames(mappings.drop_last());
    let last = mappings.last().frames();
    let all = mapping_frames(mappings);
    if m < mappings.len() - 1 {
        lemma_mapping_frames_hold(mappings.drop_last(), m, frame);
        let k = front.index_of(frame);
        assert(all[k] == frame);
    } else {
        let k = last.index_of(frame);
        assert(all[front.len() + k] == frame);
    }
}

/// An application holds the pages of its launch reservation, of every heap growth
/// and of its private memory.
pub proof fn held_pages_count_every_part(memory: ApplicationMemory)
    requires
        all_well_formed(memory.growth_ranges@),
    ensures
        held_pages(memory) == memory.extent_pages + frames(memory.growth_ranges@).len()
            + memory.private_memory.committed_pages,
{
    lemma_frames_len(memory.growth_ranges@);
}

/// A teardown releases range after range and is done only behind the last and
/// with nothing left out; a step that fails ends it.
pub proof fn teardowns_release_every_range(run: TeardownRun)
    requires
        run.well_formed(),
        run.doing is Release,
        run.release.ranges@.len() < usize::MAX,
    ensures
        run.after(false).doing == TeardownAction::Failed,
        run.after(true).doing == TeardownAction::Done <==> run.whole && run.release.zeroed
            && run.release.freed + 1 == run.release.ranges@.len(),
        run.after(true).doing is Failed ==> !run.whole,
        !run.release.zeroed ==> run.doing == TeardownAction::Release(
            ReleaseStep::Zero(run.release.ranges@[run.release.freed as int]),
        ) && run.after(true).doing == TeardownAction::Release(
            ReleaseStep::Free(run.release.ranges@[run.release.freed as int]),
        ),
{
}

/// Table frames are valid exactly where each of them begins a page.
pub proof fn table_frames_begin_pages(table_frames: Seq<u64>, i: int)
    ensures
        (forall|k: int|
            0 <= k < table_frames.len() ==> (#[trigger] table_frames[k]) % 4096 == 0
                && table_frames[k] + 4096 <= u64::MAX) ==> table_frames_valid(
            table_frames,
            table_frames.len() as int,
        ),
        table_frames_valid(table_frames, table_frames.len() as int) && 0 <= i < table_frames.len()
            ==> table_frames[i] % 4096 == 0 && table_frames[i] + 4096 <= u64::MAX && 4096
            * table_numbers(table_frames)[i] == table_frames[i],
        table_numbers(table_frames).len() == table_frames.len(),
{
}

} // verus!
