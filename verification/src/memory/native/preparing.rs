//! The run of a worker preparation: window, message pages, frames, name,
//! thread-local storage and machine context, and the rollback of each.

use crate::memory::extents::all_well_formed;
use crate::memory::native::execution::{may_publish, HeldCall};
use crate::memory::native::prepare::{worker, worker_descriptor, StartupDescriptor};
use crate::memory::native::releasing::{
    refundable, refunded, settle, FrameRelease, ReleaseStep,
};
use crate::memory::native::retiring::{has_thread, lets_go};
use crate::memory::native::{
    charged, refund_undoes_charge, NativeProcess, NativeThread, PrepareFailure, ProcessPolicy,
    ThreadBudget, ThreadKey, ThreadWindow,
};
use crate::memory::pages::{PageRange, PAGE_SIZE};
use crate::memory::private::space::SystemMemory;
use crate::probe::script::Request;
use vstd::prelude::*;

verus! {

/// A part of a worker that gets frames of its own.
#[derive(Clone, Copy, Debug, PartialEq, Eq, Structural)]
pub enum WorkerPart {
    /// Stack.
    Stack,
    /// Thread-local storage.
    Tls,
    /// Startup page.
    Startup,
}

/// What a preparation does next.
#[derive(Clone, Copy, Debug, PartialEq, Eq, Structural)]
pub enum PrepareAction {
    /// Place a window within these bounds.
    PlaceWindow(ThreadBudget),
    /// Take a pair of message pages.
    TakeMessages(ThreadWindow),
    /// Reserve the zeroed frames of a part.
    Reserve(ThreadWindow, WorkerPart),
    /// Reserve the name of the thread.
    ReserveThread(ThreadWindow),
    /// Check that the startup descriptor can be encoded.
    CheckDescriptor(ThreadWindow, StartupDescriptor),
    /// Compute the thread-local page at this byte offset.
    InitializeTls(StartupDescriptor, u64),
    /// Write that page.
    WriteTls(StartupDescriptor, u64),
    /// Publish the machine context.
    Admit(StartupDescriptor),
    /// Answer the caller with the new thread.
    Complete,
    /// Take the name of a thread back whose frames the process does not own.
    RevokeUnowned(ThreadKey, PrepareFailure),
    /// Take the name of a thread back whose frames the process owns.
    RevokeOwned(ThreadKey, PrepareFailure),
    /// Give frames back.
    Release(ReleaseStep),
    /// Give the thread's name and address window back.
    ReleaseResources(ThreadKey, PrepareFailure),
    /// Answer the caller after a revocation.
    FinishRollback(PrepareFailure),
    /// Answer the caller with a failure.
    Reject(PrepareFailure),
    /// The caller has its thread.
    Prepared,
    /// The caller has its failure.
    Refused(PrepareFailure),
    /// The process can no longer go on; what is mapped stays owned by it.
    Terminal,
}

/// What happened.
#[derive(Debug)]
pub enum PrepareEvent {
    /// The window was placed, while the machine has so many page tables in use.
    Window(ThreadWindow, u64),
    /// Frames were reserved; their list takes so much metadata.
    Reserved(Vec<PageRange>, u64),
    /// The thread has this name.
    Named(ThreadKey),
    /// The thread-local page was computed for this thread pointer.
    Initialized(u64),
    /// It was done.
    Done,
    /// It was refused and had no effect.
    Refused,
    /// It failed for good.
    Failed,
}

/// What a release of frames leads to.
#[derive(Clone, Copy, Debug, PartialEq, Eq, Structural)]
pub enum Rollback {
    /// The caller is refused.
    Reject(PrepareFailure),
    /// The name is given back, too.
    Revoked(ThreadKey, PrepareFailure),
}

/// A preparation in progress.
#[derive(Debug)]
pub struct PrepareRun {
    /// Offset of the entry in the image.
    pub entry_offset: u64,
    /// Argument of the thread.
    pub argument: u64,
    /// Address of the process startup page.
    pub process_startup: u64,
    /// Frames that the process does not own yet.
    pub backing: Vec<PageRange>,
    /// Metadata of their lists.
    pub metadata: u64,
    /// Frames on their way back.
    pub release: FrameRelease,
    /// What follows their return.
    pub rollback: Rollback,
    /// What is being done.
    pub doing: PrepareAction,
}

/// The pages of a part.
pub open spec fn part_pages(window: ThreadWindow, part: WorkerPart) -> int {
    match part {
        WorkerPart::Stack => window.stack.pages(),
        WorkerPart::Tls => window.tls.pages(),
        WorkerPart::Startup => window.startup.pages(),
    }
}

/// Whether the totals can take the pages of a window.
pub open spec fn has_room(process: NativeProcess, system: SystemMemory, window: ThreadWindow) -> bool {
    &&& process.committed_pages + window.mapped_pages <= u64::MAX
    &&& system.application_committed_pages + window.mapped_pages <= u64::MAX
}

/// Whether the parts of a window are page ranges.
pub open spec fn is_window(window: ThreadWindow) -> bool {
    &&& window.stack.well_formed()
    &&& window.tls.well_formed()
    &&& window.ipc.well_formed()
    &&& window.startup.well_formed()
}

impl PrepareRun {
    /// What a preparation requires of itself.
    pub open spec fn well_formed(self) -> bool {
        &&& all_well_formed(self.backing@)
        &&& match self.doing {
            PrepareAction::TakeMessages(window)
            | PrepareAction::Reserve(window, _)
            | PrepareAction::ReserveThread(window)
            | PrepareAction::CheckDescriptor(window, _) => is_window(window),
            PrepareAction::InitializeTls(descriptor, offset)
            | PrepareAction::WriteTls(descriptor, offset) => offset < descriptor.tls_bytes,
            PrepareAction::Release(step) => step == self.release.stands() && step
                != ReleaseStep::Finished,
            _ => true,
        }
    }

    /// What a preparation has found out about the process and the system.
    pub open spec fn fits(self, process: NativeProcess, system: SystemMemory) -> bool {
        match self.doing {
            PrepareAction::PlaceWindow(_) => process.threads@.len() < process.limits.contexts,
            PrepareAction::TakeMessages(window) | PrepareAction::Reserve(window, _) => has_room(
                process,
                system,
                window,
            ),
            PrepareAction::ReserveThread(window) | PrepareAction::CheckDescriptor(window, _) => {
                &&& has_room(process, system, window)
                &&& process.metadata_bytes + self.metadata <= u64::MAX
                &&& system.private_metadata_bytes + self.metadata <= u64::MAX
            },
            _ => true,
        }
    }

    /// Whether an event answers what is being done. A name that is reserved is
    /// new to the process.
    pub open spec fn expects(self, process: NativeProcess, event: PrepareEvent) -> bool {
        match self.doing {
            PrepareAction::PlaceWindow(_) => event is Refused || (event matches
                PrepareEvent::Window(window, _) && is_window(window)),
            PrepareAction::Reserve(window, part) => event is Refused || (event matches
                PrepareEvent::Reserved(extents, _) && all_well_formed(extents@)
                && crate::memory::extents::total_pages(extents@) == part_pages(window, part)),
            PrepareAction::ReserveThread(_) => event is Refused || (event matches
                PrepareEvent::Named(key) && !has_thread(process, key)),
            PrepareAction::InitializeTls(_, _) => event is Initialized || event is Failed,
            PrepareAction::TakeMessages(_) | PrepareAction::CheckDescriptor(_, _) => event is Done
                || event is Refused,
            PrepareAction::Admit(_) => event is Done || event is Refused || event is Failed,
            PrepareAction::Prepared | PrepareAction::Refused(_) | PrepareAction::Terminal => false,
            _ => event is Done || event is Failed,
        }
    }

    /// Whether only what is being done differs.
    pub open spec fn goes_on(self, next: PrepareRun, doing: PrepareAction) -> bool {
        next == (PrepareRun { doing, ..self })
    }

    /// What follows the frames of a part.
    pub open spec fn after_part(window: ThreadWindow, part: WorkerPart) -> PrepareAction {
        match part {
            WorkerPart::Stack => PrepareAction::Reserve(window, WorkerPart::Tls),
            WorkerPart::Tls => PrepareAction::Reserve(window, WorkerPart::Startup),
            WorkerPart::Startup => PrepareAction::ReserveThread(window),
        }
    }

    /// What follows a release.
    pub open spec fn after_release(rollback: Rollback) -> PrepareAction {
        match rollback {
            Rollback::Reject(failure) => PrepareAction::Reject(failure),
            Rollback::Revoked(key, failure) => PrepareAction::ReleaseResources(key, failure),
        }
    }

    /// Whether nothing but the run changes.
    pub open spec fn keeps(
        process: NativeProcess,
        system: SystemMemory,
        next_process: NativeProcess,
        next_system: SystemMemory,
    ) -> bool {
        next_process == process && next_system == system
    }

    /// Whether the release goes on, or its end is settled.
    pub open spec fn releases(
        self,
        release: FrameRelease,
        process: NativeProcess,
        system: SystemMemory,
        next: PrepareRun,
        next_process: NativeProcess,
        next_system: SystemMemory,
    ) -> bool {
        &&& next == (PrepareRun { release, doing: next.doing, ..self })
        &&& if release.stands() != ReleaseStep::Finished {
            &&& next.doing == PrepareAction::Release(release.stands())
            &&& PrepareRun::keeps(process, system, next_process, next_system)
        } else if refundable(release.charge, system) {
            &&& next.doing == PrepareRun::after_release(self.rollback)
            &&& next_process == (NativeProcess { reclamation_failed: false, ..process })
            &&& next_system == refunded(release.charge, system)
        } else {
            &&& next.doing == PrepareAction::Terminal
            &&& next_process == process
            &&& next_system == refunded(release.charge, system)
        }
    }

    /// Whether the frames that the process does not own go back, unless it is
    /// quarantined already.
    pub open spec fn drops_backing(
        self,
        rollback: Rollback,
        process: NativeProcess,
        system: SystemMemory,
        next: PrepareRun,
        next_process: NativeProcess,
        next_system: SystemMemory,
    ) -> bool {
        if process.reclamation_failed {
            &&& self.goes_on(next, PrepareAction::Terminal)
            &&& PrepareRun::keeps(process, system, next_process, next_system)
        } else {
            exists|empty: Vec<PageRange>|
                #![trigger empty@]
                {
                    &&& empty@.len() == 0
                    &&& (PrepareRun { backing: empty, rollback, ..self }).releases(
                        FrameRelease::of(self.backing, None),
                        NativeProcess { reclamation_failed: true, ..process },
                        system,
                        next,
                        next_process,
                        next_system,
                    )
                }
        }
    }

    /// Whether the process lets go of the worker, unless it is quarantined.
    pub open spec fn drops_thread(
        self,
        key: ThreadKey,
        failure: PrepareFailure,
        process: NativeProcess,
        system: SystemMemory,
        next: PrepareRun,
        next_process: NativeProcess,
        next_system: SystemMemory,
    ) -> bool {
        if process.reclamation_failed || !has_thread(process, key) {
            &&& self.goes_on(next, PrepareAction::Terminal)
            &&& PrepareRun::keeps(process, system, next_process, next_system)
        } else {
            exists|thread: NativeThread, between: NativeProcess|
                {
                    &&& thread.key == key
                    &&& #[trigger] lets_go(process, between, thread)
                    &&& (PrepareRun {
                        rollback: Rollback::Revoked(key, failure),
                        ..self
                    }).releases(
                        FrameRelease::of(
                            thread.backing,
                            Some((thread.window.mapped_pages, thread.metadata_bytes)),
                        ),
                        between,
                        system,
                        next,
                        next_process,
                        next_system,
                    )
                }
        }
    }

    /// Whether the process owns the worker with all its frames and charges.
    pub open spec fn owns_worker(
        self,
        window: ThreadWindow,
        descriptor: StartupDescriptor,
        process: NativeProcess,
        system: SystemMemory,
        next: PrepareRun,
        next_process: NativeProcess,
        next_system: SystemMemory,
    ) -> bool {
        &&& next == (PrepareRun {
            backing: next.backing,
            doing: if descriptor.tls_bytes > 0 {
                PrepareAction::InitializeTls(descriptor, 0)
            } else {
                PrepareAction::Admit(descriptor)
            },
            ..self
        })
        &&& next.backing@.len() == 0
        &&& next_process.threads@ == process.threads@.push(
            NativeThread {
                key: descriptor.thread,
                window,
                backing: self.backing,
                metadata_bytes: self.metadata,
            },
        )
        &&& next_process == (NativeProcess {
            threads: next_process.threads,
            committed_pages: (process.committed_pages + window.mapped_pages) as u64,
            metadata_bytes: (process.metadata_bytes + self.metadata) as u64,
            ..process
        })
        &&& next_system == charged(system, window.mapped_pages as int, self.metadata as int)
    }

    /// Whether the reserved frames are kept, or everything goes back because
    /// the metadata is not allowed.
    pub open spec fn takes_part(
        self,
        window: ThreadWindow,
        part: WorkerPart,
        extents: Seq<PageRange>,
        bytes: u64,
        policy: ProcessPolicy,
        process: NativeProcess,
        system: SystemMemory,
        next: PrepareRun,
        next_process: NativeProcess,
        next_system: SystemMemory,
    ) -> bool {
        let metadata = self.metadata + bytes;
        if metadata > u64::MAX {
            &&& self.goes_on(next, PrepareAction::Terminal)
            &&& PrepareRun::keeps(process, system, next_process, next_system)
        } else if part == WorkerPart::Startup && !process.metadata_allowed(system, policy, metadata) {
            exists|held: PrepareRun|
                {
                    &&& held == (PrepareRun {
                        backing: held.backing,
                        metadata: metadata as u64,
                        ..self
                    })
                    &&& held.backing@ == self.backing@ + extents
                    &&& #[trigger] held.drops_backing(
                        Rollback::Reject(PrepareFailure::Exhausted),
                        process,
                        system,
                        next,
                        next_process,
                        next_system,
                    )
                }
        } else {
            &&& next == (PrepareRun {
                backing: next.backing,
                metadata: metadata as u64,
                doing: PrepareRun::after_part(window, part),
                ..self
            })
            &&& next.backing@ == self.backing@ + extents
            &&& PrepareRun::keeps(process, system, next_process, next_system)
        }
    }

    /// Whether the rest follows an event.
    pub open spec fn leads(
        self,
        process: NativeProcess,
        system: SystemMemory,
        policy: ProcessPolicy,
        event: PrepareEvent,
        next: PrepareRun,
        next_process: NativeProcess,
        next_system: SystemMemory,
    ) -> bool {
        let same = PrepareRun::keeps(process, system, next_process, next_system);
        match (self.doing, event) {
            (PrepareAction::PlaceWindow(_), PrepareEvent::Window(window, tables)) => same
                && self.goes_on(
                next,
                match process.window_verdict(system, policy, tables, window) {
                    Ok(()) => PrepareAction::TakeMessages(window),
                    Err(failure) => PrepareAction::Reject(failure),
                },
            ),
            (PrepareAction::PlaceWindow(_), _) => same && self.goes_on(
                next,
                PrepareAction::Reject(PrepareFailure::Exhausted),
            ),
            (PrepareAction::TakeMessages(window), PrepareEvent::Done) => same && self.goes_on(
                next,
                PrepareAction::Reserve(window, WorkerPart::Stack),
            ),
            (PrepareAction::TakeMessages(_), _) => same && self.goes_on(
                next,
                PrepareAction::Reject(PrepareFailure::Exhausted),
            ),
            (PrepareAction::Reserve(window, part), PrepareEvent::Reserved(extents, bytes)) =>
                self.takes_part(
                window,
                part,
                extents@,
                bytes,
                policy,
                process,
                system,
                next,
                next_process,
                next_system,
            ),
            (PrepareAction::Reserve(_, _), _) | (PrepareAction::ReserveThread(_), PrepareEvent::Refused) =>
                self.drops_backing(
                Rollback::Reject(PrepareFailure::Exhausted),
                process,
                system,
                next,
                next_process,
                next_system,
            ),
            (PrepareAction::ReserveThread(window), PrepareEvent::Named(key)) => same
                && self.goes_on(
                next,
                if process.shared_start + self.entry_offset <= u64::MAX {
                    PrepareAction::CheckDescriptor(
                        window,
                        worker(
                            key,
                            self.process_startup,
                            process.shared_start,
                            window,
                            self.entry_offset,
                            self.argument,
                        ),
                    )
                } else {
                    PrepareAction::RevokeUnowned(key, PrepareFailure::InvalidRequest)
                },
            ),
            (PrepareAction::CheckDescriptor(window, descriptor), PrepareEvent::Done) =>
                self.owns_worker(
                window,
                descriptor,
                process,
                system,
                next,
                next_process,
                next_system,
            ),
            (PrepareAction::CheckDescriptor(_, descriptor), _) => same && self.goes_on(
                next,
                PrepareAction::RevokeUnowned(descriptor.thread, PrepareFailure::InvalidRequest),
            ),
            (PrepareAction::InitializeTls(descriptor, offset), PrepareEvent::Initialized(pointer)) =>
                same && self.goes_on(
                next,
                if pointer == descriptor.thread_pointer {
                    PrepareAction::WriteTls(descriptor, offset)
                } else {
                    PrepareAction::Terminal
                },
            ),
            (PrepareAction::WriteTls(descriptor, offset), PrepareEvent::Done) => same
                && self.goes_on(
                next,
                if offset + 4096 < descriptor.tls_bytes {
                    PrepareAction::InitializeTls(descriptor, (offset + 4096) as u64)
                } else {
                    PrepareAction::Admit(descriptor)
                },
            ),
            (PrepareAction::Admit(_), PrepareEvent::Done) => same && self.goes_on(
                next,
                PrepareAction::Complete,
            ),
            (PrepareAction::Admit(descriptor), PrepareEvent::Refused) => same && self.goes_on(
                next,
                PrepareAction::RevokeOwned(descriptor.thread, PrepareFailure::Exhausted),
            ),
            (PrepareAction::Complete, PrepareEvent::Done) => same && self.goes_on(
                next,
                PrepareAction::Prepared,
            ),
            (PrepareAction::RevokeUnowned(key, failure), PrepareEvent::Done) => self.drops_backing(
                Rollback::Revoked(key, failure),
                process,
                system,
                next,
                next_process,
                next_system,
            ),
            (PrepareAction::RevokeOwned(key, failure), PrepareEvent::Done) => self.drops_thread(
                key,
                failure,
                process,
                system,
                next,
                next_process,
                next_system,
            ),
            (PrepareAction::Release(_), PrepareEvent::Done) => self.releases(
                self.release.advanced(),
                process,
                system,
                next,
                next_process,
                next_system,
            ),
            (PrepareAction::ReleaseResources(_, failure), PrepareEvent::Done) => same
                && self.goes_on(next, PrepareAction::FinishRollback(failure)),
            (PrepareAction::FinishRollback(failure), PrepareEvent::Done)
            | (PrepareAction::Reject(failure), PrepareEvent::Done) => same && self.goes_on(
                next,
                PrepareAction::Refused(failure),
            ),
            _ => same && self.goes_on(next, PrepareAction::Terminal),
        }
    }

    /// Start preparing a worker for a call that is held; `action` is the same
    /// call as its handler knows it, and `running` tells whether the process
    /// runs. A call that is not the held one has no preparation.
    pub fn start(
        process: &NativeProcess,
        system: &SystemMemory,
        held: &HeldCall,
        action: &HeldCall,
        running: bool,
        free_frames: u64,
        process_startup: u64,
    ) -> (run: Option<Self>)
        requires
            process.well_formed(),
        ensures
            run is Some == (*held == *action),
            run matches Some(r) ==> {
                &&& r.well_formed()
                &&& r.fits(*process, *system)
                &&& r.backing@.len() == 0
                &&& r.metadata == 0
                &&& r.release.is_empty()
                &&& r.process_startup == process_startup
                &&& match action.request {
                    Request::Prepare { entry_offset, argument, stack_pages } => {
                        &&& r.entry_offset == entry_offset
                        &&& r.argument == argument
                        &&& r.doing == match process.budget(
                            *system,
                            running,
                            entry_offset,
                            stack_pages,
                            free_frames,
                        ) {
                            Ok(budget) => PrepareAction::PlaceWindow(budget),
                            Err(failure) => PrepareAction::Reject(failure),
                        }
                    },
                    _ => {
                        &&& r.entry_offset == 0
                        &&& r.argument == 0
                        &&& r.doing == PrepareAction::Reject(PrepareFailure::InvalidRequest)
                    },
                }
            },
    {
        if !may_publish(held, action) {
            return None;
        }
        let mut run = PrepareRun {
            entry_offset: 0,
            argument: 0,
            process_startup,
            backing: Vec::new(),
            metadata: 0,
            release: FrameRelease::start(Vec::new(), None),
            rollback: Rollback::Reject(PrepareFailure::Exhausted),
            doing: PrepareAction::Reject(PrepareFailure::InvalidRequest),
        };
        match action.request {
            Request::Prepare { entry_offset, argument, stack_pages } => {
                run.entry_offset = entry_offset;
                run.argument = argument;
                run.doing = match process.worker_budget(
                    system,
                    running,
                    entry_offset,
                    stack_pages,
                    free_frames,
                ) {
                    Ok(budget) => PrepareAction::PlaceWindow(budget),
                    Err(failure) => PrepareAction::Reject(failure),
                };
            },
            _ => {},
        }
        Some(run)
    }

    fn go_on_releasing(&mut self, process: &mut NativeProcess, system: &mut SystemMemory)
        requires
            all_well_formed(old(self).backing@),
            old(process).well_formed(),
        ensures
            final(self).well_formed(),
            final(self).fits(*final(process), *final(system)),
            final(process).well_formed(),
            old(self).releases(
                old(self).release,
                *old(process),
                *old(system),
                *final(self),
                *final(process),
                *final(system),
            ),
    {
        let step = self.release.current();
        self.doing = match step {
            ReleaseStep::Finished => if settle(self.release.charge, process, system) {
                match self.rollback {
                    Rollback::Reject(failure) => PrepareAction::Reject(failure),
                    Rollback::Revoked(key, failure) => PrepareAction::ReleaseResources(
                        key,
                        failure,
                    ),
                }
            } else {
                PrepareAction::Terminal
            },
            step => PrepareAction::Release(step),
        };
    }

    fn drop_backing(
        &mut self,
        rollback: Rollback,
        process: &mut NativeProcess,
        system: &mut SystemMemory,
    )
        requires
            all_well_formed(old(self).backing@),
            old(process).well_formed(),
        ensures
            final(self).well_formed(),
            final(self).fits(*final(process), *final(system)),
            final(process).well_formed(),
            old(self).drops_backing(
                rollback,
                *old(process),
                *old(system),
                *final(self),
                *final(process),
                *final(system),
            ),
    {
        if !process.begin_unpublished_release() {
            self.doing = PrepareAction::Terminal;
            return;
        }
        let mut ranges: Vec<PageRange> = Vec::new();
        let ghost empty = ranges;
        std::mem::swap(&mut ranges, &mut self.backing);
        self.rollback = rollback;
        self.release = FrameRelease::start(ranges, None);
        self.go_on_releasing(process, system);
        assert(empty@.len() == 0);
    }

    fn drop_thread(
        &mut self,
        key: ThreadKey,
        failure: PrepareFailure,
        process: &mut NativeProcess,
        system: &mut SystemMemory,
    )
        requires
            all_well_formed(old(self).backing@),
            old(process).well_formed(),
        ensures
            final(self).well_formed(),
            final(self).fits(*final(process), *final(system)),
            final(process).well_formed(),
            old(self).drops_thread(
                key,
                failure,
                *old(process),
                *old(system),
                *final(self),
                *final(process),
                *final(system),
            ),
    {
        match process.begin_release(key) {
            Some(thread) => {
                let ghost gone = thread;
                let ghost between = *process;
                let pages: u64 = thread.window.mapped_pages;
                let metadata: u64 = thread.metadata_bytes;
                self.rollback = Rollback::Revoked(key, failure);
                self.release = FrameRelease::start(thread.backing, Some((pages, metadata)));
                self.go_on_releasing(process, system);
                proof {
                    assert(lets_go(*old(process), between, gone));
                    let i = choose|i: int|
                        0 <= i < old(process).threads@.len() && #[trigger] old(process).threads@[i]
                            == gone;
                    assert(old(process).threads@[i].key == key);
                }
            },
            None => {
                self.doing = PrepareAction::Terminal;
            },
        }
    }

    fn own_worker(
        &mut self,
        window: ThreadWindow,
        descriptor: StartupDescriptor,
        process: &mut NativeProcess,
        system: &mut SystemMemory,
    )
        requires
            old(self).well_formed(),
            old(self).doing == PrepareAction::CheckDescriptor(window, descriptor),
            old(self).fits(*old(process), *old(system)),
            old(process).well_formed(),
        ensures
            final(self).well_formed(),
            final(process).well_formed(),
            old(self).owns_worker(
                window,
                descriptor,
                *old(process),
                *old(system),
                *final(self),
                *final(process),
                *final(system),
            ),
    {
        let mut backing: Vec<PageRange> = Vec::new();
        std::mem::swap(&mut backing, &mut self.backing);
        let thread = NativeThread {
            key: descriptor.thread,
            window,
            backing,
            metadata_bytes: self.metadata,
        };
        process.own_thread(system, thread);
        self.doing = if descriptor.tls_bytes > 0 {
            PrepareAction::InitializeTls(descriptor, 0)
        } else {
            PrepareAction::Admit(descriptor)
        };
    }

    fn take_part(
        &mut self,
        window: ThreadWindow,
        part: WorkerPart,
        extents: Vec<PageRange>,
        bytes: u64,
        policy: &ProcessPolicy,
        process: &mut NativeProcess,
        system: &mut SystemMemory,
    )
        requires
            old(self).well_formed(),
            old(self).doing == PrepareAction::Reserve(window, part),
            old(self).fits(*old(process), *old(system)),
            old(process).well_formed(),
            all_well_formed(extents@),
        ensures
            final(self).well_formed(),
            final(self).fits(*final(process), *final(system)),
            final(process).well_formed(),
            old(self).takes_part(
                window,
                part,
                extents@,
                bytes,
                *policy,
                *old(process),
                *old(system),
                *final(self),
                *final(process),
                *final(system),
            ),
    {
        let metadata: u64 = match self.metadata.checked_add(bytes) {
            Some(total) => total,
            None => {
                self.doing = PrepareAction::Terminal;
                return;
            },
        };
        let mut more = extents;
        self.backing.append(&mut more);
        self.metadata = metadata;
        proof {
            assert(self.backing@ =~= old(self).backing@ + extents@);
            assert forall|i: int| 0 <= i < self.backing@.len() implies (
            #[trigger] self.backing@[i]).well_formed() by {}
        }
        self.doing = match part {
            WorkerPart::Stack => PrepareAction::Reserve(window, WorkerPart::Tls),
            WorkerPart::Tls => PrepareAction::Reserve(window, WorkerPart::Startup),
            WorkerPart::Startup => {
                if !process.can_charge_metadata(system, policy, metadata) {
                    self.doing = PrepareAction::Reserve(window, part);
                    let ghost held = *self;
                    self.drop_backing(
                        Rollback::Reject(PrepareFailure::Exhausted),
                        process,
                        system,
                    );
                    assert(held.drops_backing(
                        Rollback::Reject(PrepareFailure::Exhausted),
                        *old(process),
                        *old(system),
                        *self,
                        *process,
                        *system,
                    ));
                    return;
                }
                PrepareAction::ReserveThread(window)
            },
        };
    }

    /// Take an event and go on.
    pub fn observe(
        &mut self,
        process: &mut NativeProcess,
        system: &mut SystemMemory,
        policy: &ProcessPolicy,
        event: PrepareEvent,
    ) -> (action: PrepareAction)
        requires
            old(self).well_formed(),
            old(self).expects(*old(process), event),
            old(self).fits(*old(process), *old(system)),
            old(process).well_formed(),
        ensures
            final(self).well_formed(),
            final(self).fits(*final(process), *final(system)),
            final(process).well_formed(),
            old(self).leads(
                *old(process),
                *old(system),
                *policy,
                event,
                *final(self),
                *final(process),
                *final(system),
            ),
            action == final(self).doing,
    {
        match (self.doing, event) {
            (PrepareAction::PlaceWindow(_), PrepareEvent::Window(window, tables)) => {
                self.doing = match process.accept_window(system, policy, tables, &window) {
                    Ok(()) => PrepareAction::TakeMessages(window),
                    Err(failure) => PrepareAction::Reject(failure),
                };
            },
            (PrepareAction::PlaceWindow(_), _) => {
                self.doing = PrepareAction::Reject(PrepareFailure::Exhausted);
            },
            (PrepareAction::TakeMessages(window), PrepareEvent::Done) => {
                self.doing = PrepareAction::Reserve(window, WorkerPart::Stack);
            },
            (PrepareAction::TakeMessages(_), _) => {
                self.doing = PrepareAction::Reject(PrepareFailure::Exhausted);
            },
            (PrepareAction::Reserve(window, part), PrepareEvent::Reserved(extents, bytes)) => {
                self.take_part(window, part, extents, bytes, policy, process, system);
            },
            (PrepareAction::Reserve(_, _), _) | (
                PrepareAction::ReserveThread(_),
                PrepareEvent::Refused,
            ) => self.drop_backing(Rollback::Reject(PrepareFailure::Exhausted), process, system),
            (PrepareAction::ReserveThread(window), PrepareEvent::Named(key)) => {
                self.doing = match worker_descriptor(
                    process,
                    self.process_startup,
                    key,
                    &window,
                    self.entry_offset,
                    self.argument,
                ) {
                    Some(descriptor) => PrepareAction::CheckDescriptor(window, descriptor),
                    None => PrepareAction::RevokeUnowned(key, PrepareFailure::InvalidRequest),
                };
            },
            (PrepareAction::CheckDescriptor(window, descriptor), PrepareEvent::Done) => {
                self.own_worker(window, descriptor, process, system);
            },
            (PrepareAction::CheckDescriptor(_, descriptor), _) => {
                self.doing = PrepareAction::RevokeUnowned(
                    descriptor.thread,
                    PrepareFailure::InvalidRequest,
                );
            },
            (
                PrepareAction::InitializeTls(descriptor, offset),
                PrepareEvent::Initialized(pointer),
            ) => {
                self.doing = if pointer == descriptor.thread_pointer {
                    PrepareAction::WriteTls(descriptor, offset)
                } else {
                    PrepareAction::Terminal
                };
            },
            (PrepareAction::WriteTls(descriptor, offset), PrepareEvent::Done) => {
                self.doing = if descriptor.tls_bytes - offset > PAGE_SIZE {
                    PrepareAction::InitializeTls(descriptor, offset + PAGE_SIZE)
                } else {
                    PrepareAction::Admit(descriptor)
                };
            },
            (PrepareAction::Admit(_), PrepareEvent::Done) => {
                self.doing = PrepareAction::Complete;
            },
            (PrepareAction::Admit(descriptor), PrepareEvent::Refused) => {
                self.doing = PrepareAction::RevokeOwned(
                    descriptor.thread,
                    PrepareFailure::Exhausted,
                );
            },
            (PrepareAction::Complete, PrepareEvent::Done) => {
                self.doing = PrepareAction::Prepared;
            },
            (PrepareAction::RevokeUnowned(key, failure), PrepareEvent::Done) => {
                self.drop_backing(Rollback::Revoked(key, failure), process, system);
            },
            (PrepareAction::RevokeOwned(key, failure), PrepareEvent::Done) => {
                self.drop_thread(key, failure, process, system);
            },
            (PrepareAction::Release(_), PrepareEvent::Done) => {
                self.release.advance();
                self.go_on_releasing(process, system);
            },
            (PrepareAction::ReleaseResources(_, failure), PrepareEvent::Done) => {
                self.doing = PrepareAction::FinishRollback(failure);
            },
            (PrepareAction::FinishRollback(failure), PrepareEvent::Done)
            | (PrepareAction::Reject(failure), PrepareEvent::Done) => {
                self.doing = PrepareAction::Refused(failure);
            },
            _ => {
                self.doing = PrepareAction::Terminal;
            },
        }
        self.doing
    }

    /// How many phases follow at most.
    pub open spec fn phases_left(self) -> int {
        match self.doing {
            PrepareAction::PlaceWindow(_) => 16,
            PrepareAction::TakeMessages(_) => 15,
            PrepareAction::Reserve(_, WorkerPart::Stack) => 14,
            PrepareAction::Reserve(_, WorkerPart::Tls) => 13,
            PrepareAction::Reserve(_, WorkerPart::Startup) => 12,
            PrepareAction::ReserveThread(_) => 11,
            PrepareAction::CheckDescriptor(_, _) => 10,
            PrepareAction::InitializeTls(_, _) | PrepareAction::WriteTls(_, _) => 9,
            PrepareAction::Admit(_) => 8,
            PrepareAction::Complete => 7,
            PrepareAction::RevokeUnowned(_, _) | PrepareAction::RevokeOwned(_, _) => 6,
            PrepareAction::Release(_) => 5,
            PrepareAction::ReleaseResources(_, _) => 4,
            PrepareAction::FinishRollback(_) => 3,
            PrepareAction::Reject(_) => 2,
            PrepareAction::Prepared | PrepareAction::Refused(_) | PrepareAction::Terminal => 0,
        }
    }

    /// How many steps of this phase follow at most.
    pub open spec fn steps_left(self) -> int {
        match self.doing {
            PrepareAction::InitializeTls(descriptor, offset) => 2 * (descriptor.tls_bytes - offset)
                + 1,
            PrepareAction::WriteTls(descriptor, offset) => 2 * (descriptor.tls_bytes - offset),
            PrepareAction::Release(_) => self.release.steps_left(),
            _ => 0,
        }
    }

    /// How process and totals stand to those before the preparation: changed
    /// only while the process owns the worker or while frames go back.
    pub open spec fn accounts(
        self,
        process: NativeProcess,
        system: SystemMemory,
        now: NativeProcess,
        totals: SystemMemory,
    ) -> bool {
        match self.doing {
            PrepareAction::CheckDescriptor(_, descriptor) => {
                &&& same_process(now, process)
                &&& totals == system
                &&& !has_thread(process, descriptor.thread)
            },
            PrepareAction::InitializeTls(descriptor, _)
            | PrepareAction::WriteTls(descriptor, _)
            | PrepareAction::Admit(descriptor) => has_worker(
                process,
                system,
                now,
                totals,
                descriptor.thread,
            ),
            PrepareAction::RevokeOwned(key, _) => has_worker(process, system, now, totals, key),
            PrepareAction::Release(_) => {
                &&& same_process(now, NativeProcess { reclamation_failed: true, ..process })
                &&& match self.release.charge {
                    Some((pages, metadata)) => totals == charged(
                        system,
                        pages as int,
                        metadata as int,
                    ) && system.application_committed_pages + pages <= u64::MAX
                        && system.private_metadata_bytes + metadata <= u64::MAX,
                    None => totals == system,
                }
            },
            PrepareAction::Complete | PrepareAction::Prepared | PrepareAction::Terminal => true,
            _ => same_process(now, process) && totals == system,
        }
    }
}

/// Whether two processes own the same.
pub open spec fn same_process(a: NativeProcess, b: NativeProcess) -> bool {
    &&& a.threads@ == b.threads@
    &&& a == (NativeProcess { threads: a.threads, ..b })
}

/// Whether process and totals have a worker of this name more than before.
pub open spec fn has_worker(
    process: NativeProcess,
    system: SystemMemory,
    now: NativeProcess,
    totals: SystemMemory,
    key: ThreadKey,
) -> bool {
    &&& !has_thread(process, key)
    &&& now.threads@.len() == process.threads@.len() + 1
    &&& now.threads@.drop_last() == process.threads@
    &&& ({
        let worker = now.threads@.last();
        &&& worker.key == key
        &&& now == (NativeProcess {
            threads: now.threads,
            committed_pages: (process.committed_pages + worker.window.mapped_pages) as u64,
            metadata_bytes: (process.metadata_bytes + worker.metadata_bytes) as u64,
            ..process
        })
        &&& process.committed_pages + worker.window.mapped_pages <= u64::MAX
        &&& process.metadata_bytes + worker.metadata_bytes <= u64::MAX
        &&& system.application_committed_pages + worker.window.mapped_pages <= u64::MAX
        &&& system.private_metadata_bytes + worker.metadata_bytes <= u64::MAX
        &&& totals == charged(
            system,
            worker.window.mapped_pages as int,
            worker.metadata_bytes as int,
        )
    })
}

/// A preparation comes to an end: each step leaves fewer phases, or fewer steps
/// of the same phase.
pub proof fn preparations_come_to_an_end(
    run: PrepareRun,
    process: NativeProcess,
    system: SystemMemory,
    policy: ProcessPolicy,
    event: PrepareEvent,
    next: PrepareRun,
    next_process: NativeProcess,
    next_system: SystemMemory,
)
    requires
        run.well_formed(),
        run.expects(process, event),
        run.leads(process, system, policy, event, next, next_process, next_system),
    ensures
        next.phases_left() >= 0,
        next.phases_left() < run.phases_left() || (next.phases_left() == run.phases_left() && 0
            <= next.steps_left() < run.steps_left()),
{
    assert(run.release.ranges.len() == run.release.ranges@.len());
}

/// Whatever a refused preparation took is given back: process and totals stand
/// as before. Until that is so the caller is not answered.
pub proof fn refused_preparations_leave_nothing(
    before: NativeProcess,
    totals: SystemMemory,
    run: PrepareRun,
    process: NativeProcess,
    system: SystemMemory,
    policy: ProcessPolicy,
    event: PrepareEvent,
    next: PrepareRun,
    next_process: NativeProcess,
    next_system: SystemMemory,
)
    requires
        !before.reclamation_failed,
        run.well_formed(),
        run.expects(process, event),
        run.fits(process, system),
        run.accounts(before, totals, process, system),
        run.leads(process, system, policy, event, next, next_process, next_system),
    ensures
        next.accounts(before, totals, next_process, next_system),
        next.doing is Refused ==> same_process(next_process, before) && next_system == totals,
{
    match (run.doing, event) {
        (PrepareAction::ReserveThread(_), PrepareEvent::Named(key)) => {
            assert forall|i: int| 0 <= i < before.threads@.len() implies (
            #[trigger] before.threads@[i]).key != key by {
                assert(process.threads@[i].key != key);
            }
        },
        (PrepareAction::CheckDescriptor(_, _), PrepareEvent::Done) => {
            assert(next_process.threads@.drop_last() =~= before.threads@);
        },
        (PrepareAction::RevokeOwned(key, failure), PrepareEvent::Done) => {
            let n = before.threads@.len() as int;
            assert(process.threads@[n].key == key);
            let (thread, between) = choose|thread: NativeThread, between: NativeProcess|
                {
                    &&& thread.key == key
                    &&& #[trigger] lets_go(process, between, thread)
                    &&& (PrepareRun {
                        rollback: Rollback::Revoked(key, failure),
                        ..run
                    }).releases(
                        FrameRelease::of(
                            thread.backing,
                            Some((thread.window.mapped_pages, thread.metadata_bytes)),
                        ),
                        between,
                        system,
                        next,
                        next_process,
                        next_system,
                    )
                };
            let i = choose|i: int|
                {
                    &&& 0 <= i < process.threads@.len()
                    &&& #[trigger] process.threads@[i] == thread
                    &&& between.threads@ =~= process.threads@.update(
                        i,
                        process.threads@.last(),
                    ).drop_last()
                };
            if i < n {
                assert(process.threads@.drop_last()[i] == before.threads@[i]);
                assert(before.threads@[i].key == key);
            }
            assert(between.threads@ =~= before.threads@);
            refund_undoes_charge(
                totals,
                thread.window.mapped_pages as int,
                thread.metadata_bytes as int,
            );
        },
        _ => {},
    }
}

/// Where nothing fails, a worker's window is judged, its message buffers taken,
/// its stack, thread-local storage and startup page reserved, its name taken, its
/// descriptor checked, its storage filled page by page, and then it is admitted
/// and completed.
pub proof fn preparations_go_step_by_step(
    run: PrepareRun,
    process: NativeProcess,
    system: SystemMemory,
    policy: ProcessPolicy,
    placed: ThreadWindow,
    tables: u64,
    pointer: u64,
    next: PrepareRun,
    next_process: NativeProcess,
    next_system: SystemMemory,
)
    ensures
        run.doing is PlaceWindow && run.leads(
            process,
            system,
            policy,
            PrepareEvent::Window(placed, tables),
            next,
            next_process,
            next_system,
        ) ==> match process.window_verdict(system, policy, tables, placed) {
            Ok(_) => next.doing == PrepareAction::TakeMessages(placed),
            Err(failure) => next.doing == PrepareAction::Reject(failure),
        },
        (run.doing matches PrepareAction::TakeMessages(window) ==> run.leads(
            process,
            system,
            policy,
            PrepareEvent::Done,
            next,
            next_process,
            next_system,
        ) ==> next.doing == PrepareAction::Reserve(window, WorkerPart::Stack)),
        run.doing is PlaceWindow || run.doing is TakeMessages ==> run.leads(
            process,
            system,
            policy,
            PrepareEvent::Refused,
            next,
            next_process,
            next_system,
        ) ==> next.doing == PrepareAction::Reject(PrepareFailure::Exhausted),
        (run.doing matches PrepareAction::InitializeTls(descriptor, offset) ==> run.leads(
            process,
            system,
            policy,
            PrepareEvent::Initialized(pointer),
            next,
            next_process,
            next_system,
        ) ==> if pointer == descriptor.thread_pointer {
            next.doing == PrepareAction::WriteTls(descriptor, offset)
        } else {
            next.doing == PrepareAction::Terminal
        }),
        (run.doing matches PrepareAction::WriteTls(descriptor, offset) ==> run.leads(
            process,
            system,
            policy,
            PrepareEvent::Done,
            next,
            next_process,
            next_system,
        ) ==> if offset + 4096 < descriptor.tls_bytes {
            next.doing matches PrepareAction::InitializeTls(same, at) && same == descriptor && at
                == offset + 4096
        } else {
            next.doing == PrepareAction::Admit(descriptor)
        }),
        run.doing is Admit && run.leads(
            process,
            system,
            policy,
            PrepareEvent::Done,
            next,
            next_process,
            next_system,
        ) ==> next.doing == PrepareAction::Complete,
        (run.doing matches PrepareAction::Admit(descriptor) ==> run.leads(
            process,
            system,
            policy,
            PrepareEvent::Refused,
            next,
            next_process,
            next_system,
        ) ==> next.doing == PrepareAction::RevokeOwned(
            descriptor.thread,
            PrepareFailure::Exhausted,
        )),
        run.doing is Complete && run.leads(
            process,
            system,
            policy,
            PrepareEvent::Done,
            next,
            next_process,
            next_system,
        ) ==> next.doing == PrepareAction::Prepared,
        (run.doing matches PrepareAction::ReleaseResources(_, failure) ==> run.leads(
            process,
            system,
            policy,
            PrepareEvent::Done,
            next,
            next_process,
            next_system,
        ) ==> next.doing == PrepareAction::FinishRollback(failure)),
        (run.doing matches PrepareAction::FinishRollback(failure) ==> run.leads(
            process,
            system,
            policy,
            PrepareEvent::Done,
            next,
            next_process,
            next_system,
        ) ==> next.doing == PrepareAction::Refused(failure)),
        (run.doing matches PrepareAction::Reject(failure) ==> run.leads(
            process,
            system,
            policy,
            PrepareEvent::Done,
            next,
            next_process,
            next_system,
        ) ==> next.doing == PrepareAction::Refused(failure)),
{
}

/// A worker's frames are kept in the order of stack, storage and startup page,
/// and their metadata is added up. Behind the startup page it must fit into every
/// limit.
pub proof fn reserved_parts_are_kept_in_order(
    run: PrepareRun,
    process: NativeProcess,
    system: SystemMemory,
    policy: ProcessPolicy,
    extents: Vec<PageRange>,
    bytes: u64,
    next: PrepareRun,
    next_process: NativeProcess,
    next_system: SystemMemory,
)
    requires
        run.doing is Reserve,
        run.leads(
            process,
            system,
            policy,
            PrepareEvent::Reserved(extents, bytes),
            next,
            next_process,
            next_system,
        ),
        run.metadata + bytes <= u64::MAX,
    ensures
        next.metadata == run.metadata + bytes,
        next_system == system,
        (run.doing matches PrepareAction::Reserve(window, part) && {
            let fits = process.metadata_bytes + run.metadata + bytes
                <= process.limits.metadata_bytes && process.metadata_bytes + run.metadata + bytes
                <= policy.maximum_metadata_bytes && system.private_metadata_bytes + run.metadata
                + bytes <= system.global_metadata_limit;
            &&& part == WorkerPart::Stack ==> next.doing == PrepareAction::Reserve(
                window,
                WorkerPart::Tls,
            )
            &&& part == WorkerPart::Tls ==> next.doing == PrepareAction::Reserve(
                window,
                WorkerPart::Startup,
            )
            &&& part == WorkerPart::Startup && fits ==> next.doing
                == PrepareAction::ReserveThread(window)
            &&& part == WorkerPart::Startup && !fits ==> !(next.doing is ReserveThread)
            &&& part != WorkerPart::Startup || fits ==> next.backing@ == run.backing@ + extents@
        }),
{
}

/// A named worker is described by its own window, with its entry counted from
/// where the image begins; one whose entry lies beyond the last address is an
/// invalid request.
pub proof fn named_workers_are_described(
    run: PrepareRun,
    process: NativeProcess,
    system: SystemMemory,
    policy: ProcessPolicy,
    key: ThreadKey,
    next: PrepareRun,
    next_process: NativeProcess,
    next_system: SystemMemory,
)
    requires
        run.well_formed(),
        run.doing is ReserveThread,
        run.leads(
            process,
            system,
            policy,
            PrepareEvent::Named(key),
            next,
            next_process,
            next_system,
        ),
    ensures
        (run.doing matches PrepareAction::ReserveThread(window) && if process.shared_start
            + run.entry_offset <= u64::MAX {
            &&& next.doing matches PrepareAction::CheckDescriptor(same, told)
            &&& same == window
            &&& told.thread == key
            &&& told.entry == process.shared_start + run.entry_offset
            &&& told.argument == run.argument
            &&& told.process_startup == run.process_startup
            &&& told.stack_bottom == 4096 * window.stack.first()
            &&& told.stack_top == 4096 * window.stack.past()
            &&& told.tls_base == 4096 * window.tls.first()
            &&& told.tls_bytes == 4096 * window.tls.pages()
            &&& told.ipc_tx == 4096 * window.ipc.first()
            &&& told.address == 4096 * window.startup.first()
            &&& told.thread_pointer == window.thread_pointer
            &&& !told.initial
        } else {
            next.doing == PrepareAction::RevokeUnowned(key, PrepareFailure::InvalidRequest)
        }),
{
}

/// A worker that is owned is the last of the threads, with its window, all the
/// frames reserved for it and their metadata, and both totals rise by what it
/// takes.
pub proof fn owned_workers_are_charged(
    run: PrepareRun,
    process: NativeProcess,
    system: SystemMemory,
    policy: ProcessPolicy,
    next: PrepareRun,
    next_process: NativeProcess,
    next_system: SystemMemory,
)
    requires
        run.doing is CheckDescriptor,
        run.fits(process, system),
        run.leads(
            process,
            system,
            policy,
            PrepareEvent::Done,
            next,
            next_process,
            next_system,
        ),
    ensures
        (run.doing matches PrepareAction::CheckDescriptor(window, told) && {
            let worker = next_process.threads@.last();
            &&& next_process.threads@.len() == process.threads@.len() + 1
            &&& next_process.threads@.drop_last() == process.threads@
            &&& worker.key == told.thread
            &&& worker.window == window
            &&& worker.backing == run.backing
            &&& worker.metadata_bytes == run.metadata
            &&& next_process.committed_pages == process.committed_pages + window.mapped_pages
            &&& next_process.metadata_bytes == process.metadata_bytes + run.metadata
            &&& next_system.application_committed_pages == system.application_committed_pages
                + window.mapped_pages
            &&& next_system.private_metadata_bytes == system.private_metadata_bytes + run.metadata
            &&& told.tls_bytes > 0 ==> next.doing == PrepareAction::InitializeTls(told, 0)
            &&& told.tls_bytes == 0 ==> next.doing == PrepareAction::Admit(told)
        }),
{
    assert(next_process.threads@.drop_last() =~= process.threads@);
}

} // verus!
