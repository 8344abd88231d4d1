//! What a probe can ask, be told, and accept.

use crate::probe::script::{Outcome, Request};
use vstd::prelude::*;

verus! {

/// A thread that a probe works with.
#[derive(Clone, Copy, Debug, PartialEq, Eq, Structural)]
pub enum Who {
    /// The first thread of the probed process.
    First,
    /// Its sibling.
    Second,
    /// A thread that the sibling prepared.
    Third,
    /// A thread of another process.
    Foreign,
    /// A thread that held the sibling's slot before.
    Former,
}

/// A process that a probe works with.
#[derive(Clone, Copy, Debug, PartialEq, Eq, Structural)]
pub enum Holder {
    /// The probed process.
    Own,
    /// The other process.
    Other,
}

/// Why user code was stopped for good.
#[derive(Clone, Copy, Debug, PartialEq, Eq, Structural)]
pub enum Fault {
    /// It executed an illegal instruction.
    IllegalInstruction,
    /// It touched an address that is not mapped.
    Translation,
    /// It touched an address without the right to.
    Permission,
}

/// Why a native thread came back.
#[derive(Clone, Copy, Debug, PartialEq, Eq, Structural)]
pub enum Stop {
    /// It gave up the processor.
    Yielded,
    /// Its time was over.
    Preempted,
    /// Its process had no turn left.
    Expired,
    /// It asked the scheduler for something.
    SchedulerCall,
    /// It made a call through a handle.
    HandleCall,
    /// It asked for heap pages.
    HeapGrowth,
    /// It ended its process with a status.
    Exited(u64),
    /// It was stopped by a fault.
    Faulted(Fault),
}

/// How a native thread is sent on.
#[derive(Clone, Copy, Debug, PartialEq, Eq, Structural)]
pub enum Resumed {
    /// After a preemption, or for the first time.
    Timeslice,
    /// After it gave up the processor.
    Yield,
    /// With an answer to a heap request.
    HeapGrown {
        /// Status.
        status: u64,
        /// Bytes that were mapped.
        bytes: u64,
    },
    /// With an empty reply to a handle call.
    HandleReply {
        /// Status.
        status: u64,
    },
}

/// Bytes that are copied.
#[derive(Clone, Copy, Debug, PartialEq, Eq, Structural)]
pub enum Payload {
    /// Nothing.
    Empty,
    /// A little-endian word.
    Word(u64),
    /// One byte again and again.
    Fill {
        /// The byte.
        byte: u8,
        /// How often.
        count: u64,
    },
}

/// Where a native thread starts.
#[derive(Clone, Copy, Debug, PartialEq, Eq, Structural)]
pub struct ThreadStart {
    /// Entry address.
    pub entry: u64,
    /// Address of its one stack page.
    pub stack: u64,
    /// Address of thread-local storage.
    pub tls: u64,
    /// Pages of thread-local storage.
    pub tls_pages: u64,
    /// Thread pointer.
    pub thread_pointer: u64,
    /// Address of its startup argument.
    pub startup: u64,
    /// Bytes of its startup argument.
    pub startup_bytes: u64,
    /// Address of its own startup page, if it has one.
    pub private_startup: Option<u64>,
}

/// Which frames are named as the memory of a thread.
#[derive(Clone, Copy, Debug, PartialEq, Eq, Structural)]
pub enum Backing {
    /// Those that it has.
    Right,
    /// Those that it has, with stack and thread-local storage exchanged.
    Swapped,
}

/// How an admission differs from the right one.
#[derive(Clone, Copy, Debug, PartialEq, Eq, Structural)]
pub enum Admission {
    /// Not at all.
    Right,
    /// The process page names a startup page one page further.
    MovedReference,
    /// Thread-local storage lies in a page table.
    TableAsTls,
    /// Thread-local storage is the process page.
    SharedTls,
    /// The entry lies in data.
    DataEntry,
    /// The descriptor names the next incarnation of the thread.
    NextThread,
    /// The descriptor says that the thread is a worker.
    CalledWorker,
    /// The descriptor names the startup page of another thread as that of the
    /// process.
    WrongHeader,
    /// Not at all, but mapping ends after the first page.
    CutShort,
}

/// What a probe asks of the machine.
#[derive(Clone, Copy, Debug, PartialEq, Eq, Structural)]
pub enum Act {
    /// Count free frames.
    FreeFrames,
    /// Take two pairs of message pages.
    TakePairs,
    /// Look at a pair that is held.
    LookAtPair(u64),
    /// Give the held pairs back.
    DropPairs,
    /// Take one more pair and look at it.
    TakeSpare,
    /// Look at the spare pair.
    LookAtSpare,
    /// Look whether the spare pair still holds only zeros.
    SpareIsClear,
    /// Give the spare pair back.
    DropSpare,
    /// Take pairs until there are none, and count them.
    TakeAllPairs,
    /// Look whether the pages of both first pairs hold only zeros.
    PairsAreClear,
    /// Count bytes that the list of pairs takes.
    PairMetadata,
    /// Lay out the mapping plan and fill memory.
    LayOut,
    /// Build the address space.
    BuildRoot,
    /// Make a context for `contexts` threads within `metadata` bytes.
    MakeContext {
        /// Threads.
        contexts: u64,
        /// Bytes.
        metadata: u64,
        /// Whether it owns the pairs.
        backed: bool,
    },
    /// Make a context that owns the pairs within as many bytes as one without
    /// them takes.
    MakeTightContext,
    /// Give the context and what it owns back.
    DropContext,
    /// Stop the context.
    StopContext,
    /// Look whether the context is stopped.
    IsStopped,
    /// Look whether the other process's context is stopped.
    OtherIsStopped,
    /// Count what the context takes.
    Stats,
    /// Count metadata bytes of the context.
    Metadata,
    /// Count what the other process's context takes.
    OtherStats,
    /// Count metadata bytes of the other process's context.
    OtherMetadata,
    /// Count entries and switches of the whole machine.
    Work,
    /// Register a process.
    AddProcess(Holder),
    /// Give a process a quota of threads and pages.
    SetQuota {
        /// Process.
        holder: Holder,
        /// Threads.
        records: u64,
        /// Pages.
        pages: u64,
    },
    /// Reserve the initial thread of its process.
    AddInitial {
        /// Thread.
        who: Who,
        /// Reservation number.
        reservation: u64,
        /// Pages.
        pages: u64,
    },
    /// Reserve a worker.
    AddWorker {
        /// Thread.
        who: Who,
        /// Its creator.
        by: Who,
        /// Reservation number.
        reservation: u64,
        /// Pages.
        pages: u64,
    },
    /// Make a reserved thread ready.
    Start(Who),
    /// Let a creator make its worker ready.
    StartWorker {
        /// Worker.
        who: Who,
        /// Creator.
        by: Who,
    },
    /// Make a ready thread the running one.
    Dispatch(Who),
    /// Make a running thread ready.
    Yield(Who),
    /// Make a running thread wait.
    Block(Who),
    /// Make a waiting thread ready.
    Wake(Who),
    /// Revoke a reserved thread.
    Revoke(Who),
    /// Find a thread by its slot and incarnation.
    Resolve(Who),
    /// Look at slot and incarnation of a thread.
    LookAtThread(Who),
    /// Let go of a thread's exit status.
    Detach(Who),
    /// Acknowledge that a thread's pages are free.
    Release(Who),
    /// Remove an ended thread.
    Reap(Who),
    /// Stop every thread of a process.
    StopProcess(Holder),
    /// Remove a process without threads.
    RemoveProcess(Holder),
    /// Count pages that threads hold.
    CommittedPages,
    /// Count synchronization objects and waits.
    SyncUsage,
    /// Withdraw the right to call the scheduler.
    WithdrawRight,
    /// Open a right to call the scheduler.
    OpenRight,
    /// Open a right to observe and join threads, and perhaps to start and
    /// create them.
    OpenThreadRight {
        /// Whether threads may be started.
        start: bool,
        /// Whether threads may be created.
        create: bool,
    },
    /// Write the requests that the programs make, and the replies that they
    /// expect.
    WriteScripts,
    /// Let a process synchronize its threads.
    AddSync,
    /// Stop a process together with its synchronization.
    StopSync,
    /// Prepare a thread in the context.
    Prepare {
        /// Thread.
        who: Who,
        /// Its start.
        start: ThreadStart,
    },
    /// Prepare a thread in the other process's context.
    PrepareElsewhere {
        /// Thread.
        who: Who,
        /// Its start.
        start: ThreadStart,
    },
    /// Give a thread a pair of message pages in the other process's context.
    BindElsewhere {
        /// Thread.
        who: Who,
        /// Pair.
        pair: u64,
        /// Address of the transmit page.
        tx: u64,
    },
    /// Give a thread a pair of message pages.
    BindPair {
        /// Thread.
        who: Who,
        /// Pair.
        pair: u64,
        /// Address of the transmit page.
        tx: u64,
    },
    /// Ask for the addresses of a thread's message pages.
    Addresses(Who),
    /// Copy bytes out of a thread's transmit page.
    CopyTx {
        /// Thread.
        who: Who,
        /// Bytes.
        bytes: u64,
    },
    /// Write a thread's receive page.
    Publish {
        /// Thread.
        who: Who,
        /// Bytes.
        payload: Payload,
    },
    /// Look whether a receive page holds only zeros from an offset on.
    TailIsClear {
        /// Address of the transmit page.
        tx: u64,
        /// Offset.
        from: u64,
    },
    /// Read a word of user memory.
    Word(u64),
    /// Read a word of the other process's memory.
    OtherWord(u64),
    /// Look up the frame behind a page.
    Leaf(u64),
    /// Run a thread.
    Resume {
        /// Thread.
        who: Who,
        /// How it is sent on.
        how: Resumed,
        /// Milliseconds that it may take.
        millis: u64,
    },
    /// Let two threads take turns.
    TakeTurns,
    /// Let two processes take turns.
    Rotate,
    /// Let a thread run in a turn of its process until it stops.
    Enter(Who),
    /// Bind the heap.
    BindHeap,
    /// Write the word that tells a thread's program what to do.
    SetMode {
        /// Thread.
        who: Who,
        /// The word.
        mode: u64,
    },
    /// Look whether a call was made by a thread.
    IsCaller(Who),
    /// Ask how many pages a heap request wants at least.
    WantedPages(Who),
    /// Take up a heap request.
    ClaimHeap(Who),
    /// Map frames for a heap request that was taken up.
    CommitHeap {
        /// Thread.
        who: Who,
        /// Frames to skip.
        skip: u64,
        /// Frames.
        count: u64,
    },
    /// Answer a heap request that was taken up.
    AnswerHeap {
        /// Thread.
        who: Who,
        /// Whether pages were mapped.
        grown: bool,
    },
    /// Ask for the handle of a call.
    CallHandle(Who),
    /// Ask for the request bytes of a call.
    CallBytes(Who),
    /// Ask for the reply capacity of a call.
    CallCapacity(Who),
    /// Look whether the retained request is the expected one.
    RequestIs {
        /// Thread.
        who: Who,
        /// Marker in the request.
        marker: u64,
        /// Round in the request.
        round: u64,
        /// Whether the request fills a page.
        full: bool,
    },
    /// Look whether a copy of the request is the retained request.
    CopyIsRequest {
        /// Thread.
        who: Who,
        /// Marker in the request.
        marker: u64,
    },
    /// Look whether the retained request can still be read.
    ReadRequest(Who),
    /// Take up a handle call.
    ClaimHandle(Who),
    /// Take up the handle call of the round before.
    ClaimOldHandle(Who),
    /// Answer a handle call that was not taken up.
    AnswerCall {
        /// Thread.
        who: Who,
        /// Status.
        status: u64,
        /// Reply.
        payload: Payload,
    },
    /// Answer the handle call of the round before.
    AnswerOldCall(Who),
    /// Answer a handle call that was taken up.
    AnswerClaim {
        /// Thread.
        who: Who,
        /// Status.
        status: u64,
        /// Reply.
        payload: Payload,
    },
    /// Let the other process's context answer a call that was taken up.
    AnswerClaimElsewhere {
        /// Thread.
        who: Who,
        /// Reply.
        payload: Payload,
    },
    /// Answer a taken-up call with one byte more than fits.
    AnswerClaimTooLong(Who),
    /// Check the right to a scheduler call.
    Authorize(Who),
    /// Take up a scheduler call whose right was checked.
    TakeUp(Who),
    /// Take up the same scheduler call again.
    TakeUpAgain(Who),
    /// Answer a scheduler call that was not taken up.
    AnswerScheduler(Who),
    /// Look whether the call is an exit with the largest status.
    IsExit(Who),
    /// Execute the operation of a call.
    Execute(Who),
    /// Look whether operation and taken-up call name the same caller and
    /// request.
    Corresponds(Who),
    /// Look whether an executed operation found an invalid state.
    IsInvalidState(Who),
    /// Publish the reply of an executed operation.
    Reply(Who),
    /// Publish a made-up success as reply.
    ReplySuccess(Who),
    /// Make a mutex whose owner's death fails the process, and lock it.
    HoldEssential(Who),
    /// Ask what an exit ends.
    ExitEffect(Who),
    /// Take a thread's mappings away after its exit.
    Retire {
        /// Thread.
        who: Who,
        /// Frames that are named.
        backing: Backing,
    },
    /// Take a thread's mappings away, but fail after the first.
    RetireBadly(Who),
    /// Take a revoked thread's mappings away.
    Discard {
        /// Thread.
        who: Who,
        /// Frames that are named.
        backing: Backing,
    },
    /// Let the scheduler finish an exit.
    FinishExit(Who),
    /// Look whether a revocation is for a thread.
    RevokesThread(Who),
    /// Let the scheduler finish a revocation.
    FinishRevocation(Who),
    /// Look whether a wait is over.
    WaitIsOver(Who),
    /// End a wait and ask for its value.
    EndWait(Who),
    /// Clear a thread's own frames and free them.
    FreeThreadFrames(Who),
    /// Take frames for a thread.
    TakeThreadFrames(Who),
    /// Lay out a thread's memory.
    LayOutThread(Who),
    /// Admit a thread into the context.
    Admit {
        /// Thread.
        who: Who,
        /// How the admission differs from the right one.
        form: Admission,
    },
    /// Look whether the pair that came back is live.
    PairIsLive,
    /// Give back the pair that came back.
    DropReturned,
    /// Look whether a thread's memory is as it must be after `cycles` cycles.
    MemoryIs {
        /// Thread.
        who: Who,
        /// Cycles.
        cycles: u64,
    },
    /// Ask for the entry offset and the stack pages of the thread that is to be
    /// prepared.
    RequestedThread,
    /// Count the threads of the process.
    ThreadRecords,
    /// Refuse to prepare a thread.
    RejectPreparation {
        /// Whether the request is invalid, rather than resources exhausted.
        invalid: bool,
    },
    /// Reserve the thread that is being prepared.
    Reserve {
        /// Thread.
        who: Who,
        /// Reservation number.
        reservation: u64,
        /// Pages.
        pages: u64,
    },
    /// Report a thread as prepared; `moved` with a code address one page off.
    CompletePreparation {
        /// Whether the code address is wrong.
        moved: bool,
    },
    /// Revoke the thread that is being prepared.
    RevokePreparation,
    /// Let the scheduler finish the revocation.
    FinishRollback,
    /// Give back all pairs that were taken.
    DropAllPairs,
    /// Start the native thread whose start was asked for.
    CompleteStart,
    /// Run a thread if it is the running one.
    ResumeScheduled {
        /// Thread.
        who: Who,
        /// Milliseconds that it may take.
        millis: u64,
    },
    /// Ask for the state of a thread.
    StateOf(Who),
    /// Look whether a thread's call is this request.
    CallIs {
        /// Thread.
        who: Who,
        /// Request.
        request: Request,
    },
    /// Look whether the reply of an executed operation is this one.
    ReplyIs {
        /// Thread.
        who: Who,
        /// Request.
        request: Request,
        /// Outcome.
        outcome: Outcome,
    },
    /// Let two threads run their scripts.
    RunScripts,
    /// Count metadata bytes of the thread table.
    ThreadMetadata,
    /// Count metadata bytes of the synchronization table.
    SyncMetadata,
    /// Make the objects that the scripts use.
    MakeObjects,
    /// Count bytes that scripts and held calls take.
    StorageBytes,
    /// Close the rights of the process and count them.
    CloseRights,
    /// Count open rights and ports.
    OpenRights,
    /// Let the timer run out while a dispatch is prepared.
    ExpirePreparation(Who),
    /// Begin a turn whose time is over.
    BeginExpiredTurn,
    /// Begin a turn and look whose it is.
    BeginTurn {
        /// Milliseconds.
        millis: u64,
        /// Steps.
        steps: u64,
    },
    /// Choose a thread for the turn.
    ChooseSibling,
    /// Look whether the turn's time is over.
    TurnIsOver,
    /// Run a thread in the turn.
    ResumeInTurn(Who),
    /// Run the thread that was chosen for the turn.
    ResumeChosen,
    /// Make the thread that was chosen for the turn ready.
    YieldChosen,
    /// Ask when the turn is over.
    Deadline,
    /// Ask how many steps the turn has left.
    StepsLeft,
    /// End the turn.
    EndTurn,
    /// Make the other process's program spin.
    MakeBusy,
    /// Give every allocation back.
    ReclaimAll,
    /// Take spare frames.
    TakeSpareFrames,
    /// Clear the spare frames that are held and free them.
    FreeSpareFrames,
    /// Take a second allocation.
    TakeOtherAllocation,
    /// Build the other process's address space and context.
    MakeOtherContext,
    /// Stop the other process's context.
    StopOtherContext,
    /// Let go of a call that was taken up.
    DropClaim(Who),
    /// Count address space switches.
    Switches,
}

/// How far an executed operation is.
#[derive(Clone, Copy, Debug, PartialEq, Eq, Structural)]
pub enum Progress {
    /// It is complete.
    Complete,
    /// Its caller waits.
    Waiting,
    /// Its caller ends.
    Retiring,
    /// A thread is revoked.
    Aborting,
    /// A thread is being prepared.
    Preparing,
    /// A thread is being started.
    Starting,
}

/// Why an admission was refused.
#[derive(Clone, Copy, Debug, PartialEq, Eq, Structural)]
pub enum Refusal {
    /// Page tables ran out.
    TablesExhausted,
    /// The context or the admission is not valid.
    InvalidContext,
    /// The resources are still held.
    Busy,
    /// Another reason.
    Other,
}

/// State of a thread.
#[derive(Clone, Copy, Debug, PartialEq, Eq, Structural)]
pub enum ThreadState {
    /// It can run.
    Ready,
    /// It waits.
    Blocked,
    /// It was revoked.
    Revoked,
    /// Another state.
    Other,
}

/// What a context takes.
#[derive(Clone, Copy, Debug, PartialEq, Eq, Structural)]
pub struct SpaceStats {
    /// Mapped pages.
    pub mapped: u64,
    /// Page-table pages.
    pub tables: u64,
}

/// What is seen of a pair of message pages.
#[derive(Clone, Copy, Debug, PartialEq, Eq, Structural)]
pub struct PairSeen {
    /// Slot.
    pub slot: u64,
    /// Incarnation of the slot.
    pub generation: u64,
    /// Physical address.
    pub address: u64,
    /// Whether the pair is live.
    pub live: bool,
    /// Whether both pages hold only zeros.
    pub clear: bool,
}

/// Slot and incarnation of a thread.
#[derive(Clone, Copy, Debug, PartialEq, Eq, Structural)]
pub struct ThreadSeen {
    /// Slot.
    pub slot: u64,
    /// Incarnation of the slot.
    pub generation: u64,
}

/// What the machine answered.
#[derive(Clone, Copy, Debug, PartialEq, Eq, Structural)]
pub enum Seen {
    /// It did as asked.
    Done,
    /// It refused.
    Refused(Refusal),
    /// It refused, and left the caller's buffer alone.
    Untouched,
    /// It failed and stopped the context.
    Broke,
    /// A thread came back.
    Stop(Stop),
    /// A number.
    Number(u64),
    /// Two numbers.
    Numbers(u64, u64),
    /// A fact.
    Flag(bool),
    /// What the context takes.
    Stats(SpaceStats),
    /// A pair of message pages.
    Pair(PairSeen),
    /// A thread.
    Thread(ThreadSeen),
    /// How far an operation is.
    Progress(Progress),
    /// A process.
    Holder(Holder),
    /// A thread of the probe.
    Who(Who),
    /// State of a thread.
    State(ThreadState),
    /// A receipt for a thread's pages.
    Receipt {
        /// Thread.
        who: Who,
        /// Ordinary pages.
        pages: u64,
    },
}

/// A number that is kept.
#[derive(Clone, Copy, Debug, PartialEq, Eq, Structural)]
pub enum Mark {
    /// Free frames.
    Free,
    /// Metadata bytes.
    Metadata,
    /// Metadata bytes of a context without pairs.
    Bare,
    /// Metadata bytes of the pairs.
    Pairs,
    /// Entries and switches.
    Work,
    /// A word.
    Word,
    /// A word of the other process.
    OtherWord,
    /// Metadata bytes of the other process.
    OtherMetadata,
    /// Free frames for the moment.
    FreeNow,
    /// Metadata bytes of the thread table.
    Threads,
    /// Metadata bytes of the synchronization table.
    Syncs,
}

/// Stats that are kept.
#[derive(Clone, Copy, Debug, PartialEq, Eq, Structural)]
pub enum StatsMark {
    /// At the beginning.
    Baseline,
    /// Before a change.
    Before,
    /// Of the other process.
    Other,
}

/// A pair that is kept.
#[derive(Clone, Copy, Debug, PartialEq, Eq, Structural)]
pub enum PairMark {
    /// Of the first thread.
    First,
    /// Of its sibling.
    Second,
}

/// What a probe accepts as an answer.
#[derive(Clone, Copy, Debug, PartialEq, Eq, Structural)]
pub enum Want {
    /// That it was done.
    Done,
    /// A refusal for any reason.
    Refused,
    /// A refusal for this reason.
    RefusedFor(Refusal),
    /// A refusal that left the buffer alone.
    Untouched,
    /// A failure that stopped the context.
    Broke,
    /// That a thread came back like this.
    Stop(Stop),
    /// That a thread was stopped by some fault.
    AnyFault,
    /// Any number.
    AnyNumber,
    /// A number that is not larger.
    AtMost(u64),
    /// This number.
    Number(u64),
    /// These numbers.
    Numbers(u64, u64),
    /// This fact.
    Flag(bool),
    /// An operation this far.
    Progress(Progress),
    /// This process.
    Holder(Holder),
    /// This thread.
    Who(Who),
    /// A receipt.
    Receipt {
        /// Thread.
        who: Who,
        /// Ordinary pages.
        pages: u64,
    },
    /// Any number, which is kept.
    Keep(Mark),
    /// The kept number.
    Kept(Mark),
    /// The kept number and some more.
    KeptPlus(Mark, u64),
    /// At least the sum of two kept numbers.
    AtLeastSum(Mark, Mark),
    /// Any stats, which are kept.
    KeepStats(StatsMark),
    /// The kept stats.
    SameStats(StatsMark),
    /// As many mapped pages as the kept stats, after gaining and losing some.
    Mapped {
        /// Kept stats.
        mark: StatsMark,
        /// Pages gained.
        gained: u64,
        /// Pages lost.
        lost: u64,
    },
    /// As many page tables as the kept stats.
    SameTables(StatsMark),
    /// Some page tables more than the kept stats.
    MoreTables {
        /// Kept stats.
        mark: StatsMark,
        /// Page tables gained.
        more: u64,
    },
    /// A thread in this state.
    State(ThreadState),
    /// Any pair, which is kept.
    KeepPair(PairMark),
    /// A live pair in the next incarnation of the kept one.
    Reused(PairMark),
    /// A cleared pair in the next incarnation of the kept one.
    Reborn(PairMark),
    /// A pair in another slot than both kept ones.
    OtherSlot,
    /// Any thread, which is kept.
    KeepThread,
    /// The next incarnation of the kept thread.
    NextThread,
}

/// What a probe remembers of what it saw.
#[derive(Clone, Copy, Debug, PartialEq, Eq, Structural)]
pub struct Book {
    /// Free frames.
    pub free: Option<u64>,
    /// Metadata bytes.
    pub metadata: Option<u64>,
    /// Metadata bytes of a context without pairs.
    pub bare: Option<u64>,
    /// Metadata bytes of the pairs.
    pub pairs: Option<u64>,
    /// Entries and switches.
    pub work: Option<u64>,
    /// A word.
    pub word: Option<u64>,
    /// A word of the other process.
    pub other_word: Option<u64>,
    /// Metadata bytes of the other process.
    pub other_metadata: Option<u64>,
    /// Free frames for the moment.
    pub free_now: Option<u64>,
    /// Metadata bytes of the thread table.
    pub threads: Option<u64>,
    /// Metadata bytes of the synchronization table.
    pub syncs: Option<u64>,
    /// Stats at the beginning.
    pub baseline: Option<SpaceStats>,
    /// Stats before a change.
    pub before: Option<SpaceStats>,
    /// Stats of the other process.
    pub other: Option<SpaceStats>,
    /// Pair of the first thread.
    pub first_pair: Option<PairSeen>,
    /// Pair of its sibling.
    pub second_pair: Option<PairSeen>,
    /// A thread.
    pub thread: Option<ThreadSeen>,
}

impl Book {
    /// The kept number.
    pub open spec fn number(self, mark: Mark) -> Option<u64> {
        match mark {
            Mark::Free => self.free,
            Mark::Metadata => self.metadata,
            Mark::Bare => self.bare,
            Mark::Pairs => self.pairs,
            Mark::Work => self.work,
            Mark::Word => self.word,
            Mark::OtherWord => self.other_word,
            Mark::OtherMetadata => self.other_metadata,
            Mark::FreeNow => self.free_now,
            Mark::Threads => self.threads,
            Mark::Syncs => self.syncs,
        }
    }

    /// The book after a number was kept.
    pub open spec fn with_number(self, mark: Mark, number: u64) -> Book {
        match mark {
            Mark::Free => Book { free: Some(number), ..self },
            Mark::Metadata => Book { metadata: Some(number), ..self },
            Mark::Bare => Book { bare: Some(number), ..self },
            Mark::Pairs => Book { pairs: Some(number), ..self },
            Mark::Work => Book { work: Some(number), ..self },
            Mark::Word => Book { word: Some(number), ..self },
            Mark::OtherWord => Book { other_word: Some(number), ..self },
            Mark::OtherMetadata => Book { other_metadata: Some(number), ..self },
            Mark::FreeNow => Book { free_now: Some(number), ..self },
            Mark::Threads => Book { threads: Some(number), ..self },
            Mark::Syncs => Book { syncs: Some(number), ..self },
        }
    }

    /// The kept stats.
    pub open spec fn stats(self, mark: StatsMark) -> Option<SpaceStats> {
        match mark {
            StatsMark::Baseline => self.baseline,
            StatsMark::Before => self.before,
            StatsMark::Other => self.other,
        }
    }

    /// The kept pair.
    pub open spec fn pair(self, mark: PairMark) -> Option<PairSeen> {
        match mark {
            PairMark::First => self.first_pair,
            PairMark::Second => self.second_pair,
        }
    }

    /// A book in which nothing but the free frames is kept.
    pub fn new(free: u64) -> (book: Book)
        ensures
            book == Book::blank(free),
    {
        Book {
            free: Some(free),
            metadata: None,
            bare: None,
            pairs: None,
            work: None,
            word: None,
            other_word: None,
            other_metadata: None,
            free_now: None,
            threads: None,
            syncs: None,
            baseline: None,
            before: None,
            other: None,
            first_pair: None,
            second_pair: None,
            thread: None,
        }
    }

    /// A book in which nothing but the free frames is kept.
    pub open spec fn blank(free: u64) -> Book {
        Book {
            free: Some(free),
            metadata: None,
            bare: None,
            pairs: None,
            work: None,
            word: None,
            other_word: None,
            other_metadata: None,
            free_now: None,
            threads: None,
            syncs: None,
            baseline: None,
            before: None,
            other: None,
            first_pair: None,
            second_pair: None,
            thread: None,
        }
    }

    /// The kept number.
    pub fn get(&self, mark: Mark) -> (number: Option<u64>)
        ensures
            number == self.number(mark),
    {
        match mark {
            Mark::Free => self.free,
            Mark::Metadata => self.metadata,
            Mark::Bare => self.bare,
            Mark::Pairs => self.pairs,
            Mark::Work => self.work,
            Mark::Word => self.word,
            Mark::OtherWord => self.other_word,
            Mark::OtherMetadata => self.other_metadata,
            Mark::FreeNow => self.free_now,
            Mark::Threads => self.threads,
            Mark::Syncs => self.syncs,
        }
    }

    fn get_stats(&self, mark: StatsMark) -> (stats: Option<SpaceStats>)
        ensures
            stats == self.stats(mark),
    {
        match mark {
            StatsMark::Baseline => self.baseline,
            StatsMark::Before => self.before,
            StatsMark::Other => self.other,
        }
    }

    fn get_pair(&self, mark: PairMark) -> (pair: Option<PairSeen>)
        ensures
            pair == self.pair(mark),
    {
        match mark {
            PairMark::First => self.first_pair,
            PairMark::Second => self.second_pair,
        }
    }
}

/// Whether `pair` is the next incarnation of `kept`, in the same place.
pub open spec fn next_incarnation(kept: PairSeen, pair: PairSeen) -> bool {
    &&& pair.slot == kept.slot
    &&& pair.generation == kept.generation + 1
    &&& pair.address == kept.address
}

/// The book after an answer was accepted, or nothing where it is not.
pub open spec fn accepted(want: Want, book: Book, seen: Seen) -> Option<Book> {
    let when = |fine: bool|
        if fine {
            Some(book)
        } else {
            None
        };
    match want {
        Want::Done => when(seen == Seen::Done),
        Want::Refused => when(seen is Refused),
        Want::RefusedFor(reason) => when(seen == Seen::Refused(reason)),
        Want::Untouched => when(seen == Seen::Untouched),
        Want::Broke => when(seen == Seen::Broke),
        Want::Stop(stop) => when(seen == Seen::Stop(stop)),
        Want::AnyFault => when(seen matches Seen::Stop(Stop::Faulted(fault))),
        Want::AnyNumber => when(seen is Number),
        Want::AtMost(most) => when(seen matches Seen::Number(number) && number <= most),
        Want::Number(number) => when(seen == Seen::Number(number)),
        Want::Numbers(one, other) => when(seen == Seen::Numbers(one, other)),
        Want::Flag(fact) => when(seen == Seen::Flag(fact)),
        Want::Progress(progress) => when(seen == Seen::Progress(progress)),
        Want::Holder(holder) => when(seen == Seen::Holder(holder)),
        Want::Who(who) => when(seen == Seen::Who(who)),
        Want::Receipt { who, pages } => when(seen == (Seen::Receipt { who, pages })),
        Want::Keep(mark) => match seen {
            Seen::Number(number) => Some(book.with_number(mark, number)),
            _ => None,
        },
        Want::Kept(mark) => when(
            seen matches Seen::Number(number) && book.number(mark) == Some(number),
        ),
        Want::KeptPlus(mark, more) => when(
            seen matches Seen::Number(number) && book.number(mark) matches Some(kept) && number
                == kept + more,
        ),
        Want::AtLeastSum(one, other) => when(
            seen matches Seen::Number(number) && book.number(one) matches Some(a) && book.number(
                other,
            ) matches Some(b) && number >= a + b,
        ),
        Want::KeepStats(mark) => match seen {
            Seen::Stats(stats) => Some(
                match mark {
                    StatsMark::Baseline => Book { baseline: Some(stats), ..book },
                    StatsMark::Before => Book { before: Some(stats), ..book },
                    StatsMark::Other => Book { other: Some(stats), ..book },
                },
            ),
            _ => None,
        },
        Want::SameStats(mark) => when(
            seen matches Seen::Stats(stats) && book.stats(mark) == Some(stats),
        ),
        Want::Mapped { mark, gained, lost } => when(
            seen matches Seen::Stats(stats) && book.stats(mark) matches Some(kept) && stats.mapped
                + lost == kept.mapped + gained,
        ),
        Want::SameTables(mark) => when(
            seen matches Seen::Stats(stats) && book.stats(mark) matches Some(kept) && stats.tables
                == kept.tables,
        ),
        Want::MoreTables { mark, more } => when(
            seen matches Seen::Stats(stats) && book.stats(mark) matches Some(kept) && stats.tables
                == kept.tables + more,
        ),
        Want::State(state) => when(seen == Seen::State(state)),
        Want::KeepPair(mark) => match seen {
            Seen::Pair(pair) => Some(
                match mark {
                    PairMark::First => Book { first_pair: Some(pair), ..book },
                    PairMark::Second => Book { second_pair: Some(pair), ..book },
                },
            ),
            _ => None,
        },
        Want::Reused(mark) => when(
            seen matches Seen::Pair(pair) && book.pair(mark) matches Some(kept) && next_incarnation(
                kept,
                pair,
            ) && pair.live,
        ),
        Want::Reborn(mark) => when(
            seen matches Seen::Pair(pair) && book.pair(mark) matches Some(kept) && next_incarnation(
                kept,
                pair,
            ) && pair.clear,
        ),
        Want::OtherSlot => when(
            seen matches Seen::Pair(pair) && book.first_pair matches Some(first)
                && book.second_pair matches Some(second) && pair.slot != first.slot && pair.slot
                != second.slot,
        ),
        Want::KeepThread => match seen {
            Seen::Thread(thread) => Some(Book { thread: Some(thread), ..book }),
            _ => None,
        },
        Want::NextThread => when(
            seen matches Seen::Thread(thread) && book.thread matches Some(kept) && thread.slot
                == kept.slot && thread.generation == kept.generation + 1,
        ),
    }
}

fn same_sum(a: u64, b: u64, c: u64, d: u64) -> (same: bool)
    ensures
        same == (a + b == c + d),
{
    a as u128 + b as u128 == c as u128 + d as u128
}

fn plain(want: Want, seen: Seen) -> (fine: Option<bool>)
    ensures
        match fine {
            Some(f) => forall|book: Book|
                #[trigger] accepted(want, book, seen) == if f {
                    Some(book)
                } else {
                    None
                },
            None => want is Keep || want is Kept || want is KeptPlus || want is AtLeastSum
                || want is KeepStats || want is SameStats || want is Mapped || want is SameTables || want is MoreTables
                || want is KeepPair || want is Reused || want is Reborn || want is OtherSlot
                || want is KeepThread || want is NextThread,
        },
{
    match want {
        Want::Done => Some(matches!(seen, Seen::Done)),
        Want::Refused => Some(matches!(seen, Seen::Refused(_))),
        Want::RefusedFor(reason) => Some(seen == Seen::Refused(reason)),
        Want::Untouched => Some(matches!(seen, Seen::Untouched)),
        Want::Broke => Some(matches!(seen, Seen::Broke)),
        Want::Stop(stop) => Some(seen == Seen::Stop(stop)),
        Want::AnyFault => Some(matches!(seen, Seen::Stop(Stop::Faulted(_)))),
        Want::AnyNumber => Some(matches!(seen, Seen::Number(_))),
        Want::AtMost(most) => match seen {
            Seen::Number(number) => Some(number <= most),
            _ => Some(false),
        },
        Want::Number(number) => Some(seen == Seen::Number(number)),
        Want::Numbers(one, other) => Some(seen == Seen::Numbers(one, other)),
        Want::Flag(fact) => Some(seen == Seen::Flag(fact)),
        Want::Progress(progress) => Some(seen == Seen::Progress(progress)),
        Want::Holder(holder) => Some(seen == Seen::Holder(holder)),
        Want::State(state) => Some(seen == Seen::State(state)),
        Want::Who(who) => Some(seen == Seen::Who(who)),
        Want::Receipt { who, pages } => Some(seen == (Seen::Receipt { who, pages })),
        _ => None,
    }
}

/// Judge an answer.
pub fn accept(want: Want, book: Book, seen: Seen) -> (after: Option<Book>)
    ensures
        after == accepted(want, book, seen),
{
    if let Some(fine) = plain(want, seen) {
        return if fine {
            Some(book)
        } else {
            None
        };
    }
    match (want, seen) {
        (Want::Keep(mark), Seen::Number(number)) => {
            let mut after = book;
            match mark {
                Mark::Free => {
                    after.free = Some(number);
                },
                Mark::Metadata => {
                    after.metadata = Some(number);
                },
                Mark::Bare => {
                    after.bare = Some(number);
                },
                Mark::Pairs => {
                    after.pairs = Some(number);
                },
                Mark::Work => {
                    after.work = Some(number);
                },
                Mark::Word => {
                    after.word = Some(number);
                },
                Mark::OtherWord => {
                    after.other_word = Some(number);
                },
                Mark::OtherMetadata => {
                    after.other_metadata = Some(number);
                },
                Mark::FreeNow => {
                    after.free_now = Some(number);
                },
                Mark::Threads => {
                    after.threads = Some(number);
                },
                Mark::Syncs => {
                    after.syncs = Some(number);
                },
            }
            Some(after)
        },
        (Want::Kept(mark), Seen::Number(number)) => match book.get(mark) {
            Some(kept) if kept == number => Some(book),
            _ => None,
        },
        (Want::KeptPlus(mark, more), Seen::Number(number)) => match book.get(mark) {
            Some(kept) if same_sum(kept, more, number, 0) => Some(book),
            _ => None,
        },
        (Want::AtLeastSum(one, other), Seen::Number(number)) => match (
            book.get(one),
            book.get(other),
        ) {
            (Some(a), Some(b)) if number as u128 >= a as u128 + b as u128 => Some(book),
            _ => None,
        },
        (Want::KeepStats(mark), Seen::Stats(stats)) => Some(
            match mark {
                StatsMark::Baseline => Book { baseline: Some(stats), ..book },
                StatsMark::Before => Book { before: Some(stats), ..book },
                    StatsMark::Other => Book { other: Some(stats), ..book },
            },
        ),
        (Want::SameStats(mark), Seen::Stats(stats)) => match book.get_stats(mark) {
            Some(kept) if kept == stats => Some(book),
            _ => None,
        },
        (Want::Mapped { mark, gained, lost }, Seen::Stats(stats)) => match book.get_stats(mark) {
            Some(kept) if same_sum(stats.mapped, lost, kept.mapped, gained) => Some(book),
            _ => None,
        },
        (Want::SameTables(mark), Seen::Stats(stats)) => match book.get_stats(mark) {
            Some(kept) if stats.tables == kept.tables => Some(book),
            _ => None,
        },
        (Want::MoreTables { mark, more }, Seen::Stats(stats)) => match book.get_stats(mark) {
            Some(kept) if same_sum(stats.tables, 0, kept.tables, more) => Some(book),
            _ => None,
        },
        (Want::KeepPair(mark), Seen::Pair(pair)) => Some(
            match mark {
                PairMark::First => Book { first_pair: Some(pair), ..book },
                PairMark::Second => Book { second_pair: Some(pair), ..book },
            },
        ),
        (Want::Reused(mark), Seen::Pair(pair)) => match book.get_pair(mark) {
            Some(kept) if follows(kept, pair) && pair.live => Some(book),
            _ => None,
        },
        (Want::Reborn(mark), Seen::Pair(pair)) => match book.get_pair(mark) {
            Some(kept) if follows(kept, pair) && pair.clear => Some(book),
            _ => None,
        },
        (Want::OtherSlot, Seen::Pair(pair)) => match (book.first_pair, book.second_pair) {
            (Some(first), Some(second)) if pair.slot != first.slot && pair.slot != second.slot => Some(
                book,
            ),
            _ => None,
        },
        (Want::KeepThread, Seen::Thread(thread)) => Some(Book { thread: Some(thread), ..book }),
        (Want::NextThread, Seen::Thread(thread)) => match book.thread {
            Some(kept) if thread.slot == kept.slot && same_sum(
                kept.generation,
                1,
                thread.generation,
                0,
            ) => Some(book),
            _ => None,
        },
        _ => None,
    }
}

fn follows(kept: PairSeen, pair: PairSeen) -> (yes: bool)
    ensures
        yes == next_incarnation(kept, pair),
{
    pair.slot == kept.slot && same_sum(kept.generation, 1, pair.generation, 0) && pair.address
        == kept.address
}

/// What is kept under a mark is what is compared with it later: the same number
/// again, or that number and so many more. Nothing under another mark changes.
pub proof fn kept_numbers_are_compared(
    book: Book,
    mark: Mark,
    other: Mark,
    number: u64,
    later: u64,
    more: u64,
)
    ensures
        ({
            let after = accepted(Want::Keep(mark), book, Seen::Number(number));
            &&& after is Some
            &&& accepted(Want::Kept(mark), after->0, Seen::Number(later)) is Some <==> later
                == number
            &&& accepted(Want::KeptPlus(mark, more), after->0, Seen::Number(later)) is Some <==> later
                == number + more
            &&& other != mark ==> after->0.number(other) == book.number(other)
            &&& after->0.first_pair == book.first_pair && after->0.second_pair == book.second_pair
            &&& after->0.baseline == book.baseline && after->0.before == book.before
        }),
        accepted(Want::Keep(Mark::Bare), book, Seen::Number(number)) is Some,
        ({
            let bare = accepted(Want::Keep(Mark::Bare), book, Seen::Number(number))->0;
            let both = accepted(Want::Keep(Mark::Pairs), bare, Seen::Number(more))->0;
            accepted(Want::AtLeastSum(Mark::Bare, Mark::Pairs), both, Seen::Number(later)) is Some
                <==> later >= number + more
        }),
        (book.number(mark) is None ==> accepted(Want::Kept(mark), book, Seen::Number(later)) is None),
{
}

/// Counts of mapped pages and tables are compared with those kept under the same
/// mark.
pub proof fn kept_counts_are_compared(
    book: Book,
    mark: StatsMark,
    kept: SpaceStats,
    later: SpaceStats,
    gained: u64,
    lost: u64,
)
    ensures
        ({
            let after = accepted(Want::KeepStats(mark), book, Seen::Stats(kept));
            &&& after is Some
            &&& accepted(Want::SameStats(mark), after->0, Seen::Stats(later)) is Some <==> later
                == kept
            &&& accepted(
                Want::Mapped { mark, gained, lost },
                after->0,
                Seen::Stats(later),
            ) is Some <==> later.mapped == kept.mapped + gained - lost
            &&& accepted(Want::SameTables(mark), after->0, Seen::Stats(later)) is Some
                <==> later.tables == kept.tables
            &&& accepted(
                Want::MoreTables { mark, more: gained },
                after->0,
                Seen::Stats(later),
            ) is Some <==> later.tables == kept.tables + gained
        }),
{
}

/// A pair or a thread comes again in its slot, one generation later; a pair is
/// then at the same address and live, or clear where it is born again.
pub proof fn slots_come_again_one_generation_later(
    book: Book,
    mark: PairMark,
    kept: PairSeen,
    later: PairSeen,
    thread: ThreadSeen,
    next: ThreadSeen,
)
    ensures
        ({
            let after = accepted(Want::KeepPair(mark), book, Seen::Pair(kept));
            let again = later.slot == kept.slot && later.generation == kept.generation + 1
                && later.address == kept.address;
            &&& after is Some
            &&& accepted(Want::Reused(mark), after->0, Seen::Pair(later)) is Some <==> again
                && later.live
            &&& accepted(Want::Reborn(mark), after->0, Seen::Pair(later)) is Some <==> again
                && later.clear
        }),
        ({
            let first = accepted(Want::KeepPair(PairMark::First), book, Seen::Pair(kept))->0;
            let both = accepted(Want::KeepPair(PairMark::Second), first, Seen::Pair(later))->0;
            forall|other: PairSeen|
                (#[trigger] accepted(Want::OtherSlot, both, Seen::Pair(other))) is Some
                    <==> other.slot != kept.slot && other.slot != later.slot
        }),
        ({
            let after = accepted(Want::KeepThread, book, Seen::Thread(thread));
            &&& after is Some
            &&& accepted(Want::NextThread, after->0, Seen::Thread(next)) is Some <==> next.slot
                == thread.slot && next.generation == thread.generation + 1
        }),
{
}

/// An answer is accepted where it is the one that was wanted, and no other.
pub proof fn only_wanted_answers_are_accepted(
    book: Book,
    seen: Seen,
    stop: Stop,
    number: u64,
    fact: bool,
    reason: Refusal,
    progress: Progress,
    who: Who,
    state: ThreadState,
)
    ensures
        accepted(Want::Done, book, seen) is Some <==> seen == Seen::Done,
        accepted(Want::Refused, book, seen) is Some <==> seen is Refused,
        accepted(Want::RefusedFor(reason), book, seen) is Some <==> seen == Seen::Refused(reason),
        accepted(Want::Untouched, book, seen) is Some <==> seen == Seen::Untouched,
        accepted(Want::Broke, book, seen) is Some <==> seen == Seen::Broke,
        accepted(Want::Stop(stop), book, seen) is Some <==> seen == Seen::Stop(stop),
        accepted(Want::AnyFault, book, seen) is Some <==> (seen matches Seen::Stop(found) && found
            is Faulted),
        accepted(Want::AnyNumber, book, seen) is Some <==> seen is Number,
        accepted(Want::AtMost(number), book, seen) is Some <==> (seen matches Seen::Number(found)
            && found <= number),
        accepted(Want::Number(number), book, seen) is Some <==> seen == Seen::Number(number),
        accepted(Want::Flag(fact), book, seen) is Some <==> seen == Seen::Flag(fact),
        accepted(Want::Progress(progress), book, seen) is Some <==> seen == Seen::Progress(progress),
        accepted(Want::Who(who), book, seen) is Some <==> seen == Seen::Who(who),
        accepted(Want::State(state), book, seen) is Some <==> seen == Seen::State(state),
        accepted(Want::Receipt { who, pages: number }, book, seen) is Some <==> seen
            == (Seen::Receipt { who, pages: number }),
{
}

} // verus!
