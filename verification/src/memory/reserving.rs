//! Reserving a program's memory: frames, mapping plan and page tables, and
//! giving everything back where a step fails.

use crate::memory::extents::{all_well_formed, frames, total_pages};
use crate::memory::launch::{
    admit_launch, application_fits, build_application_plan, is_application_plan, launch_commit,
    launch_tables_allowed, ImagePlan, LaunchCollection,
};
use crate::memory::pages::PageRange;
use crate::memory::plan::{write_xor_execute, MappingPlan};
use crate::memory::private::space::SystemMemory;
use vstd::prelude::*;

verus! {

/// What a reservation does next.
#[derive(Debug)]
pub enum Reserving {
    /// Take a run of the size that the collection asks for.
    Take(LaunchCollection),
    /// Zero the run that was taken.
    Zero(LaunchCollection, PageRange),
    /// Give a run back that is not part of the reservation.
    GiveBack(Vec<PageRange>, PageRange),
    /// Plan the mappings of the collected frames.
    Plan(Vec<PageRange>),
    /// Count the page tables that the plan needs.
    CountTables(Vec<PageRange>, MappingPlan),
    /// Take this many contiguous frames for page tables.
    TakeTables(Vec<PageRange>, MappingPlan, u64),
    /// Give the extents back from this one on.
    Release(Vec<PageRange>, usize),
    /// The memory is reserved: frames, mapping plan and page tables.
    Reserved(Vec<PageRange>, MappingPlan, PageRange),
    /// The memory is not reserved.
    Failed,
}

/// A reservation of a program's memory.
#[derive(Debug)]
pub struct ReserveRun {
    /// Pages of the program.
    pub private_pages: u64,
    /// Committed pages of all programs with this one.
    pub committed: u64,
    /// What is being done.
    pub doing: Reserving,
}

/// Whether everything in `extents` is given back next.
pub open spec fn gives_back(doing: Reserving, extents: Seq<PageRange>) -> bool {
    if extents.len() == 0 {
        doing == Reserving::Failed
    } else {
        doing matches Reserving::Release(list, at) && list@ == extents && at == 0
    }
}

fn give_back(extents: Vec<PageRange>) -> (doing: Reserving)
    ensures
        gives_back(doing, extents@),
{
    if extents.len() == 0 {
        Reserving::Failed
    } else {
        Reserving::Release(extents, 0)
    }
}

/// What follows a run that joins the reservation: the next request is for as
/// much as is missing, at most a quantum; with all frames the plan follows.
pub open spec fn takes_more(doing: Reserving, before: LaunchCollection, range: PageRange) -> bool {
    let missing = before.missing() - range.pages();
    if missing > 0 {
        &&& doing matches Reserving::Take(more)
        &&& more.parts() == before.parts_with(range)
        &&& more.collected() == before.collected() + range.numbers()
        &&& more.target() == before.target()
        &&& more.missing() == missing
        &&& more.want() == LaunchCollection::first_request(missing, before.step())
        &&& more.step() == before.step()
        &&& more.joins() == before.joins()
    } else {
        &&& doing matches Reserving::Plan(extents)
        &&& extents@ == before.parts_with(range)
        &&& frames(extents@) == before.collected() + range.numbers()
    }
}

impl ReserveRun {
    /// Whether the parts belong to the request.
    pub open spec fn well_formed(self) -> bool {
        &&& self.private_pages > 0
        &&& match self.doing {
            Reserving::Take(collection) => collection.target() == self.private_pages
                && collection.missing() > 0 && collection.want() > 0,
            Reserving::Zero(collection, range) => collection.target() == self.private_pages
                && range.well_formed() && collection.want() == range.pages(),
            Reserving::Plan(extents) => all_well_formed(extents@) && total_pages(extents@)
                == self.private_pages,
            Reserving::CountTables(extents, plan) => all_well_formed(extents@) && total_pages(
                extents@,
            ) == self.private_pages && write_xor_execute(plan@),
            Reserving::TakeTables(extents, plan, pages) => all_well_formed(extents@)
                && total_pages(extents@) == self.private_pages && write_xor_execute(plan@) && pages
                > 0,
            Reserving::Release(extents, at) => at < extents@.len(),
            Reserving::Reserved(extents, plan, tables) => all_well_formed(extents@)
                && total_pages(extents@) == self.private_pages && write_xor_execute(plan@)
                && tables.well_formed(),
            Reserving::GiveBack(_, _) | Reserving::Failed => true,
        }
    }

    /// Whether it is the same request.
    pub open spec fn same_request(self, other: ReserveRun) -> bool {
        self.private_pages == other.private_pages && self.committed == other.committed
    }

    /// Start reserving `private_pages` pages, if policy and free memory allow
    /// it.
    pub fn start(
        system: &SystemMemory,
        process_limit: Option<u64>,
        private_pages: u64,
        free_frames: u64,
        quantum: u64,
        coalesce: bool,
    ) -> (run: Option<Self>)
        ensures
            match run {
                Some(r) => {
                    &&& r.well_formed()
                    &&& r.private_pages == private_pages
                    &&& launch_commit(*system, process_limit, private_pages, free_frames) == Some(
                        r.committed as int,
                    )
                    &&& r.doing matches Reserving::Take(collection)
                    &&& collection.collected() == Seq::<int>::empty()
                    &&& collection.step() == quantum
                    &&& collection.joins() == coalesce
                    &&& collection.want() == LaunchCollection::first_request(
                        private_pages as int,
                        quantum as int,
                    )
                },
                None => quantum == 0 || private_pages == 0 || launch_commit(
                    *system,
                    process_limit,
                    private_pages,
                    free_frames,
                ) is None,
            },
    {
        let committed: u64 = match admit_launch(system, process_limit, private_pages, free_frames) {
            Some(pages) => pages,
            None => return None,
        };
        match LaunchCollection::start(private_pages, quantum, coalesce) {
            Some(collection) => Some(
                ReserveRun { private_pages, committed, doing: Reserving::Take(collection) },
            ),
            None => None,
        }
    }

    /// A run of the wanted size was taken.
    pub fn took(self, range: PageRange) -> (next: Self)
        requires
            self.well_formed(),
            self.doing matches Reserving::Take(collection) && range.well_formed()
                && range.pages() == collection.want(),
        ensures
            next.well_formed(),
            next.same_request(self),
            self.doing matches Reserving::Take(collection) && next.doing == Reserving::Zero(
                collection,
                range,
            ),
    {
        let doing = match self.doing {
            Reserving::Take(collection) => Reserving::Zero(collection, range),
            doing => doing,
        };
        ReserveRun { private_pages: self.private_pages, committed: self.committed, doing }
    }

    /// There is no run of the wanted size: ask for half, or give up at one
    /// frame.
    pub fn refused(self) -> (next: Self)
        requires
            self.well_formed(),
            self.doing is Take,
        ensures
            next.well_formed(),
            next.same_request(self),
            self.doing matches Reserving::Take(collection) && if collection.want() > 1 {
                next.doing matches Reserving::Take(smaller) && smaller.want() == collection.want()
                    / 2 && smaller.parts() == collection.parts() && smaller.missing()
                    == collection.missing() && smaller.target() == collection.target()
                    && smaller.step() == collection.step() && smaller.joins()
                    == collection.joins()
            } else {
                gives_back(next.doing, collection.parts())
            },
    {
        let doing = match self.doing {
            Reserving::Take(collection) => match collection.refused() {
                Ok(smaller) => Reserving::Take(smaller),
                Err(extents) => give_back(extents),
            },
            doing => doing,
        };
        ReserveRun { private_pages: self.private_pages, committed: self.committed, doing }
    }

    /// The run was zeroed: it joins the reservation, unless that has too many
    /// separate parts.
    pub fn zeroed(self) -> (next: Self)
        requires
            self.well_formed(),
            self.doing is Zero,
        ensures
            next.well_formed(),
            next.same_request(self),
            self.doing matches Reserving::Zero(collection, range) && if collection.too_scattered(
                range,
            ) {
                &&& next.doing matches Reserving::GiveBack(extents, back)
                &&& back == range
                &&& extents@ == collection.parts()
            } else {
                takes_more(next.doing, collection, range)
            },
    {
        let doing = match self.doing {
            Reserving::Zero(collection, range) => match collection.granted(range) {
                Ok(more) => {
                    if more.next_run() == 0 {
                        let extents = more.finish();
                        proof {
                            crate::memory::extents::lemma_frames_len(extents@);
                        }
                        Reserving::Plan(extents)
                    } else {
                        Reserving::Take(more)
                    }
                },
                Err(extents) => Reserving::GiveBack(extents, range),
            },
            doing => doing,
        };
        ReserveRun { private_pages: self.private_pages, committed: self.committed, doing }
    }

    /// The run could not be zeroed.
    pub fn zero_failed(self) -> (next: Self)
        requires
            self.well_formed(),
            self.doing is Zero,
        ensures
            next.well_formed(),
            next.same_request(self),
            self.doing matches Reserving::Zero(collection, range) && (next.doing matches
                Reserving::GiveBack(extents, back) && back == range && extents@
                == collection.parts()),
    {
        let doing = match self.doing {
            Reserving::Zero(collection, range) => Reserving::GiveBack(collection.abandon(), range),
            doing => doing,
        };
        ReserveRun { private_pages: self.private_pages, committed: self.committed, doing }
    }

    /// A run was given back, or could not be.
    pub fn gave_back(self, done: bool) -> (next: Self)
        requires
            self.well_formed(),
            self.doing is GiveBack,
        ensures
            next.well_formed(),
            next.same_request(self),
            self.doing matches Reserving::GiveBack(extents, _) && if done {
                gives_back(next.doing, extents@)
            } else {
                next.doing == Reserving::Failed
            },
    {
        let doing = match self.doing {
            Reserving::GiveBack(extents, _) => if done {
                give_back(extents)
            } else {
                Reserving::Failed
            },
            doing => doing,
        };
        ReserveRun { private_pages: self.private_pages, committed: self.committed, doing }
    }

    /// Plan the mappings of the reservation.
    pub fn plan(self, kernel: &MappingPlan, runtime: PageRange, image: &ImagePlan) -> (next: Self)
        requires
            self.well_formed(),
            self.doing is Plan,
            kernel.well_formed(),
            runtime.well_formed(),
        ensures
            next.well_formed(),
            next.same_request(self),
            self.doing matches Reserving::Plan(extents) && match next.doing {
                Reserving::CountTables(kept, plan) => {
                    &&& kept@ == extents@
                    &&& application_fits(*kernel, runtime, extents@, *image)
                    &&& is_application_plan(plan, *kernel, runtime, extents@, *image)
                },
                _ => {
                    &&& gives_back(next.doing, extents@)
                    &&& !application_fits(*kernel, runtime, extents@, *image) || exists|
                        plan: MappingPlan,
                    |
                        #[trigger] is_application_plan(plan, *kernel, runtime, extents@, *image)
                            && !write_xor_execute(plan@)
                },
            },
    {
        let doing = match self.doing {
            Reserving::Plan(extents) => {
                match build_application_plan(kernel, runtime, &extents, self.private_pages, image) {
                    Ok(plan) => Reserving::CountTables(extents, plan),
                    Err(_) => give_back(extents),
                }
            },
            doing => doing,
        };
        ReserveRun { private_pages: self.private_pages, committed: self.committed, doing }
    }

    /// The plan needs this many page tables, if it could be counted.
    pub fn counted(self, system: &SystemMemory, table_pages: Option<u64>, free_frames: u64) -> (next:
        Self)
        requires
            self.well_formed(),
            self.doing is CountTables,
        ensures
            next.well_formed(),
            next.same_request(self),
            self.doing matches Reserving::CountTables(extents, plan) && match table_pages {
                Some(pages) if pages > 0 && pages + system.minimum_free_pages <= free_frames =>
                    next.doing == Reserving::TakeTables(extents, plan, pages),
                _ => gives_back(next.doing, extents@),
            },
    {
        let doing = match self.doing {
            Reserving::CountTables(extents, plan) => match table_pages {
                Some(pages) => if launch_tables_allowed(system, pages, free_frames) {
                    Reserving::TakeTables(extents, plan, pages)
                } else {
                    give_back(extents)
                },
                None => give_back(extents),
            },
            doing => doing,
        };
        ReserveRun { private_pages: self.private_pages, committed: self.committed, doing }
    }

    /// The page tables were taken, or could not be. Only now are the program's
    /// pages booked.
    pub fn took_tables(self, system: &mut SystemMemory, tables: Option<PageRange>) -> (next: Self)
        requires
            self.well_formed(),
            self.doing is TakeTables,
            tables matches Some(range) ==> range.well_formed(),
        ensures
            next.well_formed(),
            next.same_request(self),
            self.doing matches Reserving::TakeTables(extents, plan, _) && match tables {
                Some(range) => next.doing == Reserving::Reserved(extents, plan, range)
                    && *final(system) == (SystemMemory {
                    application_committed_pages: self.committed,
                    ..*old(system)
                }),
                None => gives_back(next.doing, extents@) && *final(system) == *old(system),
            },
    {
        let doing = match self.doing {
            Reserving::TakeTables(extents, plan, _) => match tables {
                Some(range) => {
                    system.application_committed_pages = self.committed;
                    Reserving::Reserved(extents, plan, range)
                },
                None => give_back(extents),
            },
            doing => doing,
        };
        ReserveRun { private_pages: self.private_pages, committed: self.committed, doing }
    }

    /// An extent was given back, or could not be.
    pub fn released(self, done: bool) -> (next: Self)
        requires
            self.well_formed(),
            self.doing is Release,
        ensures
            next.well_formed(),
            next.same_request(self),
            self.doing matches Reserving::Release(extents, at) && if done && at + 1
                < extents@.len() {
                next.doing matches Reserving::Release(rest, next_at) && rest@ == extents@
                    && next_at == at + 1
            } else {
                next.doing == Reserving::Failed
            },
    {
        let doing = match self.doing {
            Reserving::Release(extents, at) => if done && extents.len() - at > 1 {
                Reserving::Release(extents, at + 1)
            } else {
                Reserving::Failed
            },
            doing => doing,
        };
        ReserveRun { private_pages: self.private_pages, committed: self.committed, doing }
    }
}

/// A reservation that is taken back frees every extent, and one that goes on asks
/// for what is missing, at most a quantum at a time, until all pages are there.
pub proof fn reservations_ask_for_what_is_missing(
    doing: Reserving,
    before: LaunchCollection,
    range: PageRange,
    extents: Seq<PageRange>,
)
    ensures
        gives_back(doing, extents) && extents.len() > 0 ==> (doing matches Reserving::Release(
            list,
            at,
        ) && list@ == extents && at == 0),
        gives_back(doing, extents) && extents.len() == 0 ==> doing == Reserving::Failed,
        takes_more(doing, before, range) && before.missing() > range.pages() ==> (doing matches
            Reserving::Take(more) && more.missing() == before.missing() - range.pages()
            && more.collected() == before.collected() + range.numbers() && more.want()
            <= before.step() && more.want() <= more.missing() && (more.want() == before.step()
            || more.want() == more.missing())),
        takes_more(doing, before, range) && before.missing() <= range.pages() ==> (doing matches
            Reserving::Plan(list) && frames(list@) == before.collected() + range.numbers()),
{
}

/// What a reservation is for stays the same while it goes on.
pub proof fn reservations_keep_their_target(
    doing: Reserving,
    before: LaunchCollection,
    range: PageRange,
    a: ReserveRun,
    b: ReserveRun,
)
    ensures
        takes_more(doing, before, range) ==> (doing matches Reserving::Take(more) ==> more.target()
            == before.target() && more.step() == before.step() && more.joins() == before.joins()
            && more.parts() == before.parts_with(range)),
        a.same_request(b) <==> a.private_pages == b.private_pages && a.committed == b.committed,
{
}

} // verus!
