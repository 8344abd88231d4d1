//! Retiring a thread: its machine context goes first, its frames after that.

use crate::memory::native::execution::{may_publish, HeldCall};
use crate::memory::native::prepare::receipt_matches;
use crate::memory::native::releasing::{
    refundable, refunded, settle, FrameRelease, ReleaseStep,
};
use crate::memory::native::{NativeProcess, NativeThread, ThreadKey};
use crate::memory::private::space::SystemMemory;
use vstd::prelude::*;

verus! {

/// Why a thread goes.
#[derive(Clone, Copy, Debug, PartialEq, Eq, Structural)]
pub enum Leaving {
    /// It ended.
    Ended,
    /// It was prepared and never started.
    Revoked,
}

/// What retiring does next.
#[derive(Clone, Copy, Debug, PartialEq, Eq, Structural)]
pub enum RetireAction {
    /// Retire or discard the machine context.
    DropContext,
    /// Tell the waiting threads of the end.
    CompleteThread,
    /// Give frames back.
    Release(ReleaseStep),
    /// Give the thread's name and address window back.
    ReleaseResources,
    /// The thread is gone.
    Retired,
    /// The process can no longer go on.
    Failed,
}

/// What happened.
#[derive(Clone, Copy, Debug, PartialEq, Eq, Structural)]
pub enum RetireEvent {
    /// The context is gone; its receipt names a thread and its ordinary pages.
    Receipt(ThreadKey, u64),
    /// It was done.
    Done,
    /// It failed.
    Failed,
}

/// A thread that is being retired.
#[derive(Debug)]
pub struct RetireRun {
    /// The thread.
    pub target: ThreadKey,
    /// Why it goes.
    pub leaving: Leaving,
    /// Its frames, once it has let go of them.
    pub release: FrameRelease,
    /// What is being done.
    pub doing: RetireAction,
}

/// Whether a process lets go of a thread and is quarantined until its frames
/// are free.
pub open spec fn lets_go(before: NativeProcess, after: NativeProcess, thread: NativeThread) -> bool {
    &&& exists|i: int|
        {
            &&& 0 <= i < before.threads@.len()
            &&& #[trigger] before.threads@[i] == thread
            &&& after.threads@ =~= before.threads@.update(i, before.threads@.last()).drop_last()
        }
    &&& after == (NativeProcess {
        threads: after.threads,
        committed_pages: (before.committed_pages - thread.window.mapped_pages) as u64,
        metadata_bytes: (before.metadata_bytes - thread.metadata_bytes) as u64,
        reclamation_failed: true,
        ..before
    })
}

/// Whether a process has a thread of this name.
pub open spec fn has_thread(process: NativeProcess, key: ThreadKey) -> bool {
    exists|i: int| 0 <= i < process.threads@.len() && (#[trigger] process.threads@[i]).key == key
}

impl RetireRun {
    /// Whether the release is under way exactly where it is being done.
    pub open spec fn well_formed(self) -> bool {
        self.doing matches RetireAction::Release(step) ==> step == self.release.stands() && step
            != ReleaseStep::Finished
    }

    /// Whether an event answers what is being done.
    pub open spec fn expects(self, event: RetireEvent) -> bool {
        match self.doing {
            RetireAction::DropContext => event is Receipt || event is Failed,
            RetireAction::Retired | RetireAction::Failed => false,
            _ => event is Done || event is Failed,
        }
    }

    /// Whether only what is being done differs.
    pub open spec fn goes_on(self, next: RetireRun, doing: RetireAction) -> bool {
        next == (RetireRun { doing, ..self })
    }

    /// Whether nothing but the run changes.
    pub open spec fn keeps(
        process: NativeProcess,
        system: SystemMemory,
        next_process: NativeProcess,
        next_system: SystemMemory,
    ) -> bool {
        next_process == process && next_system == system
    }

    /// Whether a receipt names the thread and every ordinary page of its window.
    pub open spec fn accounts_for(self, process: NativeProcess, named: ThreadKey, ordinary: int) -> bool {
        &&& named == self.target
        &&& exists|i: int|
            {
                &&& 0 <= i < process.threads@.len()
                &&& (#[trigger] process.threads@[i]).key == self.target
                &&& process.threads@[i].window.mapped_pages == ordinary + 2
                &&& forall|k: int|
                    0 <= k < i ==> (#[trigger] process.threads@[k]).key != self.target
            }
    }

    /// Whether the release goes on, or its end is settled.
    pub open spec fn releases(
        self,
        release: FrameRelease,
        process: NativeProcess,
        system: SystemMemory,
        next: RetireRun,
        next_process: NativeProcess,
        next_system: SystemMemory,
    ) -> bool {
        &&& next.target == self.target && next.leaving == self.leaving && next.release == release
        &&& if release.stands() != ReleaseStep::Finished {
            &&& next.doing == RetireAction::Release(release.stands())
            &&& RetireRun::keeps(process, system, next_process, next_system)
        } else if refundable(release.charge, system) {
            &&& next.doing == RetireAction::ReleaseResources
            &&& next_process == (NativeProcess { reclamation_failed: false, ..process })
            &&& next_system == refunded(release.charge, system)
        } else {
            &&& next.doing == RetireAction::Failed
            &&& next_process == process
            &&& next_system == refunded(release.charge, system)
        }
    }

    /// Whether the thread lets go of its frames, where it can.
    pub open spec fn starts_release(
        self,
        process: NativeProcess,
        system: SystemMemory,
        next: RetireRun,
        next_process: NativeProcess,
        next_system: SystemMemory,
    ) -> bool {
        if process.reclamation_failed || !has_thread(process, self.target) {
            &&& self.goes_on(next, RetireAction::Failed)
            &&& RetireRun::keeps(process, system, next_process, next_system)
        } else {
            exists|thread: NativeThread, between: NativeProcess|
                {
                    &&& thread.key == self.target
                    &&& #[trigger] lets_go(process, between, thread)
                    &&& self.releases(
                        FrameRelease::of(
                            thread.backing,
                            Some((thread.window.mapped_pages, thread.metadata_bytes)),
                        ),
                        between,
                        system,
                        next,
                        next_process,
                        next_system,
                    )
                }
        }
    }

    /// Whether the rest follows an event.
    pub open spec fn leads(
        self,
        process: NativeProcess,
        system: SystemMemory,
        event: RetireEvent,
        next: RetireRun,
        next_process: NativeProcess,
        next_system: SystemMemory,
    ) -> bool {
        match (self.doing, event) {
            (RetireAction::DropContext, RetireEvent::Receipt(named, ordinary)) => {
                if !self.accounts_for(process, named, ordinary as int) {
                    &&& self.goes_on(next, RetireAction::Failed)
                    &&& RetireRun::keeps(process, system, next_process, next_system)
                } else if self.leaving == Leaving::Ended {
                    &&& self.goes_on(next, RetireAction::CompleteThread)
                    &&& RetireRun::keeps(process, system, next_process, next_system)
                } else {
                    self.starts_release(process, system, next, next_process, next_system)
                }
            },
            (RetireAction::CompleteThread, RetireEvent::Done) => self.starts_release(
                process,
                system,
                next,
                next_process,
                next_system,
            ),
            (RetireAction::Release(_), RetireEvent::Done) => self.releases(
                self.release.advanced(),
                process,
                system,
                next,
                next_process,
                next_system,
            ),
            (RetireAction::ReleaseResources, RetireEvent::Done) => {
                &&& self.goes_on(next, RetireAction::Retired)
                &&& RetireRun::keeps(process, system, next_process, next_system)
            },
            _ => {
                &&& self.goes_on(next, RetireAction::Failed)
                &&& RetireRun::keeps(process, system, next_process, next_system)
            },
        }
    }

    /// Start discarding a revoked thread that the process has.
    pub fn discard(process: &NativeProcess, target: ThreadKey) -> (run: Option<Self>)
        ensures
            match run {
                Some(r) => has_thread(*process, target) && r.well_formed() && r.target == target
                    && r.leaving == Leaving::Revoked && r.release.is_empty() && r.doing
                    == RetireAction::DropContext,
                None => !has_thread(*process, target),
            },
    {
        match process.find_thread(target) {
            Some(_) => Some(
                RetireRun {
                    target,
                    leaving: Leaving::Revoked,
                    release: FrameRelease::start(Vec::new(), None),
                    doing: RetireAction::DropContext,
                },
            ),
            None => None,
        }
    }

    /// Start retiring the caller of an exit that is held; `action` is the same
    /// call as its handler knows it.
    pub fn retire(process: &NativeProcess, held: &HeldCall, action: &HeldCall) -> (run: Option<Self>)
        ensures
            match run {
                Some(r) => *held == *action && has_thread(*process, action.caller)
                    && r.well_formed() && r.target == action.caller && r.leaving == Leaving::Ended
                    && r.release.is_empty() && r.doing == RetireAction::DropContext,
                None => *held != *action || !has_thread(*process, action.caller),
            },
    {
        if !may_publish(held, action) {
            return None;
        }
        match process.find_thread(action.caller) {
            Some(_) => Some(
                RetireRun {
                    target: action.caller,
                    leaving: Leaving::Ended,
                    release: FrameRelease::start(Vec::new(), None),
                    doing: RetireAction::DropContext,
                },
            ),
            None => None,
        }
    }

    fn receipt_fits(&self, process: &NativeProcess, named: ThreadKey, ordinary: u64) -> (fits: bool)
        ensures
            fits == self.accounts_for(*process, named, ordinary as int),
    {
        match process.find_thread(self.target) {
            Some(index) => receipt_matches(
                self.target,
                &process.threads[index].window,
                named,
                ordinary,
            ),
            None => false,
        }
    }

    fn go_on_releasing(&mut self, process: &mut NativeProcess, system: &mut SystemMemory)
        requires
            old(process).well_formed(),
        ensures
            final(self).well_formed(),
            final(process).well_formed(),
            old(self).releases(
                old(self).release,
                *old(process),
                *old(system),
                *final(self),
                *final(process),
                *final(system),
            ),
    {
        let step = self.release.current();
        self.doing = match step {
            ReleaseStep::Finished => if settle(self.release.charge, process, system) {
                RetireAction::ReleaseResources
            } else {
                RetireAction::Failed
            },
            step => RetireAction::Release(step),
        };
    }

    fn start_release(&mut self, process: &mut NativeProcess, system: &mut SystemMemory)
        requires
            old(process).well_formed(),
        ensures
            final(self).well_formed(),
            final(process).well_formed(),
            old(self).starts_release(
                *old(process),
                *old(system),
                *final(self),
                *final(process),
                *final(system),
            ),
    {
        match process.begin_release(self.target) {
            Some(thread) => {
                let ghost gone = thread;
                let ghost between = *process;
                let pages: u64 = thread.window.mapped_pages;
                let metadata: u64 = thread.metadata_bytes;
                self.release = FrameRelease::start(thread.backing, Some((pages, metadata)));
                self.go_on_releasing(process, system);
                proof {
                    assert(lets_go(*old(process), between, gone));
                    let i = choose|i: int|
                        0 <= i < old(process).threads@.len() && #[trigger] old(process).threads@[i]
                            == gone;
                    assert(old(process).threads@[i].key == self.target);
                }
            },
            None => {
                self.doing = RetireAction::Failed;
            },
        }
    }

    /// Take an event and go on.
    pub fn observe(
        &mut self,
        process: &mut NativeProcess,
        system: &mut SystemMemory,
        event: RetireEvent,
    ) -> (action: RetireAction)
        requires
            old(self).well_formed(),
            old(self).expects(event),
            old(process).well_formed(),
        ensures
            final(self).well_formed(),
            final(process).well_formed(),
            old(self).leads(
                *old(process),
                *old(system),
                event,
                *final(self),
                *final(process),
                *final(system),
            ),
            action == final(self).doing,
    {
        match (self.doing, event) {
            (RetireAction::DropContext, RetireEvent::Receipt(named, ordinary)) => {
                if !self.receipt_fits(process, named, ordinary) {
                    self.doing = RetireAction::Failed;
                } else if matches!(self.leaving, Leaving::Ended) {
                    self.doing = RetireAction::CompleteThread;
                } else {
                    self.start_release(process, system);
                }
            },
            (RetireAction::CompleteThread, RetireEvent::Done) => self.start_release(
                process,
                system,
            ),
            (RetireAction::Release(_), RetireEvent::Done) => {
                self.release.advance();
                self.go_on_releasing(process, system);
            },
            (RetireAction::ReleaseResources, RetireEvent::Done) => {
                self.doing = RetireAction::Retired;
            },
            _ => {
                self.doing = RetireAction::Failed;
            },
        }
        self.doing
    }

    /// Steps that are left at most, apart from those of the release.
    pub open spec fn phases_left(self) -> int {
        match self.doing {
            RetireAction::DropContext => 4,
            RetireAction::CompleteThread => 3,
            RetireAction::Release(_) => 2,
            RetireAction::ReleaseResources => 1,
            RetireAction::Retired | RetireAction::Failed => 0,
        }
    }
}

/// Retiring comes to an end: each step leaves fewer phases, or fewer steps of
/// the release.
pub proof fn retiring_comes_to_an_end(
    run: RetireRun,
    process: NativeProcess,
    system: SystemMemory,
    event: RetireEvent,
    next: RetireRun,
    next_process: NativeProcess,
    next_system: SystemMemory,
)
    requires
        run.well_formed(),
        run.expects(event),
        run.leads(process, system, event, next, next_process, next_system),
    ensures
        next.phases_left() >= 0,
        next.phases_left() < run.phases_left() || (next.phases_left() == run.phases_left() && 0
            <= next.release.steps_left() < run.release.steps_left()),
{
    assert(run.release.ranges.len() == run.release.ranges@.len());
}

/// While frames of a thread are on their way back, and for good where they
/// cannot be given back, the process is quarantined and the system still has
/// them charged.
pub proof fn unreturned_frames_stay_charged(
    run: RetireRun,
    process: NativeProcess,
    system: SystemMemory,
    event: RetireEvent,
    next: RetireRun,
    next_process: NativeProcess,
    next_system: SystemMemory,
)
    requires
        run.well_formed(),
        run.expects(event),
        run.leads(process, system, event, next, next_process, next_system),
        run.doing is Release ==> process.reclamation_failed,
        !(run.doing is Release) ==> !process.reclamation_failed,
    ensures
        next.doing is Release ==> next_process.reclamation_failed && next_system == system,
        run.doing is Release && next.doing is Failed ==> next_process.reclamation_failed,
        run.doing is Release && event is Failed ==> next.doing is Failed && next_system == system,
        next.doing is ReleaseResources ==> !next_process.reclamation_failed && next_system
            == refunded(next.release.charge, system),
{
}

/// A receipt is accepted only for the thread itself and with all the pages that
/// its window maps, of which two are for messages. A thread that ended is
/// completed first; one that was revoked gives its frames back at once.
pub proof fn receipts_name_the_whole_thread(
    run: RetireRun,
    process: NativeProcess,
    system: SystemMemory,
    named: ThreadKey,
    ordinary: u64,
    next: RetireRun,
    next_process: NativeProcess,
    next_system: SystemMemory,
)
    requires
        run.doing == RetireAction::DropContext,
        run.leads(
            process,
            system,
            RetireEvent::Receipt(named, ordinary),
            next,
            next_process,
            next_system,
        ),
    ensures
        named != run.target ==> next.doing == RetireAction::Failed,
        (forall|i: int|
            0 <= i < process.threads@.len() && (#[trigger] process.threads@[i]).key == run.target
                ==> process.threads@[i].window.mapped_pages != ordinary + 2) ==> next.doing
            == RetireAction::Failed,
        next.doing == RetireAction::CompleteThread ==> run.leaving == Leaving::Ended
            && next_process == process && next_system == system,
        next.doing is Release || next.doing == RetireAction::ReleaseResources ==> run.leaving
            == Leaving::Revoked,
        next.doing != RetireAction::Retired,
{
}

/// Once a thread is let go, it is no longer among the threads, the pages and the
/// metadata of the process fall by what was its own, and what is then given back
/// is its own backing.
pub proof fn retired_threads_are_gone(
    run: RetireRun,
    process: NativeProcess,
    system: SystemMemory,
    next: RetireRun,
    next_process: NativeProcess,
    next_system: SystemMemory,
)
    requires
        process.well_formed(),
        run.starts_release(process, system, next, next_process, next_system),
        next.doing is Release,
        !process.reclamation_failed,
        has_thread(process, run.target),
    ensures
        exists|i: int|
            {
                &&& 0 <= i < process.threads@.len()
                &&& (#[trigger] process.threads@[i]).key == run.target
                &&& next.release.ranges == process.threads@[i].backing
                &&& next.release.freed == 0
                &&& !next.release.zeroed
                &&& next.release.charge == Some(
                    (
                        process.threads@[i].window.mapped_pages,
                        process.threads@[i].metadata_bytes,
                    ),
                )
                &&& next_process.threads@.len() == process.threads@.len() - 1
                &&& next_process.committed_pages + process.threads@[i].window.mapped_pages
                    == process.committed_pages
                &&& next_process.metadata_bytes + process.threads@[i].metadata_bytes
                    == process.metadata_bytes
            },
        next_system == system,
        next_process.shared == process.shared,
        next_process.heap_growth == process.heap_growth,
{
    let (thread, between) = choose|thread: NativeThread, between: NativeProcess|
        {
            &&& thread.key == run.target
            &&& #[trigger] lets_go(process, between, thread)
            &&& run.releases(
                FrameRelease::of(
                    thread.backing,
                    Some((thread.window.mapped_pages, thread.metadata_bytes)),
                ),
                between,
                system,
                next,
                next_process,
                next_system,
            )
        };
    let i = choose|i: int|
        {
            &&& 0 <= i < process.threads@.len()
            &&& #[trigger] process.threads@[i] == thread
            &&& between.threads@ =~= process.threads@.update(
                i,
                process.threads@.last(),
            ).drop_last()
        };
    let n = process.threads@.len() as int;
    let mapped = crate::memory::native::mapped_pages(process.threads@);
    let bytes = crate::memory::native::metadata_charges(process.threads@);
    crate::memory::native::lemma_sum_member(mapped, i, n);
    crate::memory::native::lemma_sum_member(bytes, i, n);
    assert(mapped[i] == thread.window.mapped_pages);
    assert(bytes[i] == thread.metadata_bytes);
    assert(process.threads@[i].key == run.target);
}

/// What follows the last frame is the refund of exactly the thread's charge, then
/// its other resources, and then it is retired. Whatever fails ends in failure.
pub proof fn threads_are_retired_in_order(
    run: RetireRun,
    process: NativeProcess,
    system: SystemMemory,
    next: RetireRun,
    next_process: NativeProcess,
    next_system: SystemMemory,
)
    ensures
        run.doing is Release && run.leads(
            process,
            system,
            RetireEvent::Done,
            next,
            next_process,
            next_system,
        ) && next.doing == RetireAction::ReleaseResources ==> {
            &&& !next_process.reclamation_failed
            &&& (run.release.charge matches Some((pages, metadata)) ==> {
                &&& next_system.application_committed_pages + pages
                    == system.application_committed_pages
                &&& next_system.private_metadata_bytes + metadata == system.private_metadata_bytes
            })
        },
        run.doing == RetireAction::ReleaseResources && run.leads(
            process,
            system,
            RetireEvent::Done,
            next,
            next_process,
            next_system,
        ) ==> next.doing == RetireAction::Retired && next_process == process && next_system
            == system,
        run.leads(process, system, RetireEvent::Failed, next, next_process, next_system)
            ==> next.doing == RetireAction::Failed && next_process == process && next_system
            == system,
{
}

/// A process has a thread exactly where one of its threads has that name.
pub proof fn threads_are_known_by_name(process: NativeProcess, key: ThreadKey, i: int)
    ensures
        0 <= i < process.threads@.len() && process.threads@[i].key == key ==> has_thread(
            process,
            key,
        ),
        (forall|k: int| 0 <= k < process.threads@.len() ==> (#[trigger] process.threads@[k]).key
            != key) ==> !has_thread(process, key),
{
}

} // verus!
