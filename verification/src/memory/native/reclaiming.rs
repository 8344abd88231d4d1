//! The end of a process: no thread any more, no machine context, no frames.

use crate::memory::extents::{all_well_formed, frames};
use crate::memory::native::releasing::{FrameRelease, ReleaseStep};
use crate::memory::native::{uncharged, NativeProcess};
use crate::memory::private::space::SystemMemory;
use vstd::prelude::*;

verus! {

/// What reclaiming does next.
#[derive(Clone, Copy, Debug, PartialEq, Eq, Structural)]
pub enum ReclaimAction {
    /// Stop the machine context and drop it, if there is one.
    DropContext,
    /// Give frames back.
    Release(ReleaseStep),
    /// Nothing of the process is left.
    Reclaimed,
    /// Something of the process is not accounted for.
    Failed,
}

/// A process that is being reclaimed.
#[derive(Debug)]
pub struct ReclaimRun {
    /// The process.
    pub process: NativeProcess,
    /// Its frames, once the context is gone.
    pub release: FrameRelease,
    /// What is being done.
    pub doing: ReclaimAction,
}

impl ReclaimRun {
    /// Whether the release takes every frame of the process.
    pub open spec fn well_formed(self) -> bool {
        &&& self.process.well_formed()
        &&& self.process.creation_stopped
        &&& match self.doing {
            ReclaimAction::Release(step) => {
                &&& step == self.release.stands()
                &&& step != ReleaseStep::Finished
                &&& frames(self.release.ranges@) == self.process.held_frames()
                &&& !self.process.reclamation_failed
            },
            ReclaimAction::Reclaimed => {
                &&& self.release.freed == self.release.ranges@.len()
                &&& frames(self.release.ranges@) == self.process.held_frames()
                &&& !self.process.reclamation_failed
            },
            _ => true,
        }
    }

    /// Whether the process can be taken out of the totals.
    pub open spec fn can_refund(self, system: SystemMemory) -> bool {
        &&& self.process.committed_pages <= system.application_committed_pages
        &&& self.process.metadata_bytes <= system.private_metadata_bytes
    }

    /// What follows a state of the release.
    pub open spec fn after_release(self, release: FrameRelease, system: SystemMemory) -> ReclaimAction {
        if release.stands() != ReleaseStep::Finished {
            ReclaimAction::Release(release.stands())
        } else if self.can_refund(system) {
            ReclaimAction::Reclaimed
        } else {
            ReclaimAction::Failed
        }
    }

    /// Whether a step may be the last one before the refund.
    pub open spec fn ends_release(self, done: bool) -> bool {
        match self.doing {
            ReclaimAction::DropContext => !self.process.reclamation_failed,
            ReclaimAction::Release(_) => done,
            _ => false,
        }
    }

    /// Whether the rest follows what was done, or failed.
    pub open spec fn leads(
        self,
        system: SystemMemory,
        done: bool,
        next: ReclaimRun,
        next_system: SystemMemory,
    ) -> bool {
        &&& next.process == self.process
        &&& match self.doing {
            ReclaimAction::DropContext => if self.process.reclamation_failed {
                next.release == self.release && next.doing == ReclaimAction::Failed
            } else {
                &&& next.release.freed == 0 && !next.release.zeroed && next.release.charge is None
                &&& all_well_formed(next.release.ranges@)
                &&& frames(next.release.ranges@) == self.process.held_frames()
                &&& next.doing == self.after_release(next.release, system)
            },
            ReclaimAction::Release(_) => if done {
                &&& next.release == self.release.advanced()
                &&& next.doing == self.after_release(next.release, system)
            } else {
                next.release == self.release && next.doing == ReclaimAction::Failed
            },
            _ => next == self,
        }
        &&& next_system == if self.ends_release(done) && next.release.stands()
            == ReleaseStep::Finished {
            uncharged(system, self.process.committed_pages, self.process.metadata_bytes)
        } else {
            system
        }
    }

    /// Start reclaiming a process. No thread is created any more.
    pub fn start(process: NativeProcess) -> (run: Self)
        requires
            process.well_formed(),
        ensures
            run.well_formed(),
            run.process == (NativeProcess { creation_stopped: true, ..process }),
            run.release.is_empty(),
            run.doing == ReclaimAction::DropContext,
    {
        let mut process = process;
        process.creation_stopped = true;
        ReclaimRun {
            process,
            release: FrameRelease::start(Vec::new(), None),
            doing: ReclaimAction::DropContext,
        }
    }

    fn go_on_releasing(&mut self, system: &mut SystemMemory)
        requires
            old(self).process.well_formed(),
            old(self).process.creation_stopped,
            !old(self).process.reclamation_failed,
            old(self).release.freed <= old(self).release.ranges@.len(),
            frames(old(self).release.ranges@) == old(self).process.held_frames(),
        ensures
            final(self).well_formed(),
            *final(self) == (ReclaimRun { doing: final(self).doing, ..*old(self) }),
            final(self).doing == old(self).after_release(old(self).release, *old(system)),
            *final(system) == (if old(self).release.stands() == ReleaseStep::Finished {
                uncharged(
                    *old(system),
                    old(self).process.committed_pages,
                    old(self).process.metadata_bytes,
                )
            } else {
                *old(system)
            }),
    {
        let step = self.release.current();
        self.doing = match step {
            ReleaseStep::Finished => if self.process.refund(system) {
                ReclaimAction::Reclaimed
            } else {
                ReclaimAction::Failed
            },
            step => ReclaimAction::Release(step),
        };
    }

    /// What was asked for is done, or failed.
    pub fn observe(&mut self, system: &mut SystemMemory, done: bool) -> (action: ReclaimAction)
        requires
            old(self).well_formed(),
        ensures
            final(self).well_formed(),
            old(self).leads(*old(system), done, *final(self), *final(system)),
            action == final(self).doing,
    {
        match self.doing {
            ReclaimAction::DropContext => {
                match self.process.reclaim_order() {
                    Some(order) => {
                        self.release = FrameRelease::start(order, None);
                        self.go_on_releasing(system);
                    },
                    None => {
                        self.doing = ReclaimAction::Failed;
                    },
                }
            },
            ReclaimAction::Release(_) => {
                if done {
                    self.release.advance();
                    self.go_on_releasing(system);
                } else {
                    self.doing = ReclaimAction::Failed;
                }
            },
            _ => {},
        }
        self.doing
    }

    /// Steps that are left at most once the context is gone.
    pub open spec fn steps_left(self) -> int {
        match self.doing {
            ReclaimAction::Release(_) => self.release.steps_left(),
            _ => 0,
        }
    }
}

/// Reclaiming comes to an end, and it ends well only for a process without
/// quarantined frames.
pub proof fn reclaiming_comes_to_an_end(
    run: ReclaimRun,
    system: SystemMemory,
    done: bool,
    next: ReclaimRun,
    next_system: SystemMemory,
)
    requires
        run.well_formed(),
        next.well_formed(),
        run.doing is DropContext || run.doing is Release,
        run.leads(system, done, next, next_system),
    ensures
        !(next.doing is DropContext),
        run.doing is Release && next.doing is Release ==> 0 <= next.steps_left()
            < run.steps_left(),
        next.doing is Reclaimed ==> !run.process.reclamation_failed,
{
    assert(run.release.ranges.len() == run.release.ranges@.len());
}

/// A reclaimed process has zeroed and given back every frame that it held.
pub proof fn reclaimed_processes_hold_nothing(run: ReclaimRun)
    requires
        run.well_formed(),
        run.doing == ReclaimAction::Reclaimed,
    ensures
        frames(run.release.ranges@.take(run.release.freed as int)) == run.process.held_frames(),
{
    assert(run.release.ranges@.take(run.release.freed as int) =~= run.release.ranges@);
}

/// The machine context, whose root maps the frames, is gone before the first
/// frame is given back.
pub proof fn the_root_goes_first(
    run: ReclaimRun,
    system: SystemMemory,
    done: bool,
    next: ReclaimRun,
    next_system: SystemMemory,
)
    requires
        run.well_formed(),
        run.leads(system, done, next, next_system),
        next.doing is Release,
        !(run.doing is Release),
    ensures
        run.doing is DropContext,
        next.release.freed == 0 && !next.release.zeroed,
{
}

/// Once its frames are back, exactly the committed pages and the metadata of the
/// process leave the totals; until then they stay. A process whose books are
/// broken, or a step that fails, ends in failure.
pub proof fn reclaimed_processes_leave_the_totals(
    run: ReclaimRun,
    system: SystemMemory,
    done: bool,
    next: ReclaimRun,
    next_system: SystemMemory,
)
    requires
        run.well_formed(),
        run.doing is DropContext || run.doing is Release,
        run.leads(system, done, next, next_system),
    ensures
        next.doing == ReclaimAction::Reclaimed ==> {
            &&& next_system.application_committed_pages + run.process.committed_pages
                == system.application_committed_pages
            &&& next_system.private_metadata_bytes + run.process.metadata_bytes
                == system.private_metadata_bytes
        },
        next.doing is Release ==> next_system == system,
        run.doing is Release && !done ==> next.doing == ReclaimAction::Failed && next_system
            == system,
        run.doing is DropContext && run.process.reclamation_failed ==> next.doing
            == ReclaimAction::Failed && next_system == system,
        run.doing is DropContext && !run.process.reclamation_failed && run.process.held_frames().len()
            > 0 ==> next.doing is Release,
        run.doing == ReclaimAction::Release(
            ReleaseStep::Zero(run.release.ranges@[run.release.freed as int]),
        ) && done ==> next.doing == ReclaimAction::Release(
            ReleaseStep::Free(run.release.ranges@[run.release.freed as int]),
        ),
{
    if next.release.ranges@.len() == 0 {
        assert(frames(next.release.ranges@) =~= Seq::<int>::empty());
    }
}

} // verus!
