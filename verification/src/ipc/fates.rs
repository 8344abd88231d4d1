//! The fates of a message exchange in which one side fails.

use crate::command::outcome::TaskFault;
use crate::ipc::failures::Complaint;
use crate::ipc::launch::ProbeRequest;
use vstd::prelude::*;

verus! {

/// The side that calls.
pub const CLIENT: u8 = 0;

/// The side that serves.
pub const SERVER: u8 = 1;

/// How an exchange stopped.
#[derive(Clone, Copy, Debug, PartialEq, Eq, Structural)]
pub enum IpcStop {
    /// Both sides yielded.
    Yielded,
    /// A side ended.
    Exited {
        /// Side.
        peer: u8,
        /// Exit code.
        status: u32,
    },
    /// A side was stopped.
    Faulted {
        /// Side.
        peer: u8,
        /// Why.
        fault: TaskFault,
    },
}

/// Counters of an exchange.
#[derive(Clone, Copy, Debug, PartialEq, Eq, Structural)]
pub struct FateCounters {
    /// Completed calls.
    pub completed: u64,
    /// Calls handed over directly.
    pub direct: u64,
    /// Calls that went through the queue.
    pub queued: u64,
    /// Queue slots cleared.
    pub queue_zeroes: u64,
    /// Calls that ran out of time.
    pub timeouts: u64,
    /// Dead peers.
    pub peer_deaths: u64,
}

/// The behaviours that are tried, in order.
pub open spec fn behaviours() -> Seq<u16> {
    seq![3u16, 4, 5, 6, 7, 8, 9, 10, 11, 13, 16, 17]
}

/// List the behaviours that are tried.
pub fn fate_opcodes() -> (opcodes: Vec<u16>)
    ensures
        opcodes@ == behaviours(),
{
    vec![3u16, 4, 5, 6, 7, 8, 9, 10, 11, 13, 16, 17]
}

/// Whether an exchange stopped as its behaviour must make it stop.
pub open spec fn stop_is_valid(opcode: u16, stop: IpcStop, counters: FateCounters) -> bool {
    if opcode == 3 {
        stop == (IpcStop::Faulted { peer: SERVER, fault: TaskFault::ExecutionLeaseExpired })
    } else if opcode == 4 || opcode == 17 {
        stop == (IpcStop::Exited { peer: SERVER, status: 0 })
    } else if opcode == 5 || opcode == 6 || opcode == 13 {
        stop == (IpcStop::Faulted { peer: SERVER, fault: TaskFault::InvalidCall })
    } else if opcode == 7 || opcode == 8 {
        stop == (IpcStop::Faulted { peer: SERVER, fault: TaskFault::Permission })
    } else if opcode == 9 || opcode == 11 {
        stop == (IpcStop::Faulted { peer: CLIENT, fault: TaskFault::InvalidCall })
    } else if opcode == 10 {
        stop == (IpcStop::Exited { peer: CLIENT, status: 0 }) && counters.direct == 0
            && counters.timeouts == 1
    } else if opcode == 16 {
        (stop matches IpcStop::Faulted { fault, .. } && fault == TaskFault::ExecutionLeaseExpired)
            && counters.completed > 1
    } else {
        false
    }
}

fn stop_matches(opcode: u16, stop: IpcStop, counters: &FateCounters) -> (valid: bool)
    ensures
        valid == stop_is_valid(opcode, stop, *counters),
{
    if opcode == 3 {
        stop == (IpcStop::Faulted { peer: SERVER, fault: TaskFault::ExecutionLeaseExpired })
    } else if opcode == 4 || opcode == 17 {
        stop == (IpcStop::Exited { peer: SERVER, status: 0 })
    } else if opcode == 5 || opcode == 6 || opcode == 13 {
        stop == (IpcStop::Faulted { peer: SERVER, fault: TaskFault::InvalidCall })
    } else if opcode == 7 || opcode == 8 {
        stop == (IpcStop::Faulted { peer: SERVER, fault: TaskFault::Permission })
    } else if opcode == 9 || opcode == 11 {
        stop == (IpcStop::Faulted { peer: CLIENT, fault: TaskFault::InvalidCall })
    } else if opcode == 10 {
        stop == (IpcStop::Exited { peer: CLIENT, status: 0 }) && counters.direct == 0
            && counters.timeouts == 1
    } else if opcode == 16 {
        match stop {
            IpcStop::Faulted { fault, .. } => fault == TaskFault::ExecutionLeaseExpired
                && counters.completed > 1,
            _ => false,
        }
    } else {
        false
    }
}

/// What was observed of an exchange.
#[derive(Clone, Copy, Debug, PartialEq, Eq, Structural)]
pub struct Observation {
    /// How it stopped.
    pub stop: IpcStop,
    /// Counters.
    pub counters: FateCounters,
    /// Whether nothing is in progress.
    pub quiescent: bool,
    /// Timer programs during the exchange.
    pub timer_programs: u64,
    /// Milliseconds that it took.
    pub elapsed: u64,
}

/// Whether an exchange met its fate: it stopped as it must, is quiet, took one
/// timer program and, where a side was to overrun its lease, about one lease.
pub open spec fn fate_is_met(opcode: u16, seen: Observation) -> bool {
    &&& stop_is_valid(opcode, seen.stop, seen.counters)
    &&& opcode == 17 ==> seen.counters.queued == 1 && seen.counters.queue_zeroes == 1
    &&& seen.quiescent
    &&& seen.timer_programs == 1
    &&& opcode == 3 || opcode == 16 ==> 49 <= seen.elapsed <= 250
}

/// Check that an exchange met its fate.
pub fn fate_checks(opcode: u16, seen: &Observation) -> (met: bool)
    ensures
        met == fate_is_met(opcode, *seen),
{
    stop_matches(opcode, seen.stop, &seen.counters) && (opcode != 17 || (seen.counters.queued == 1
        && seen.counters.queue_zeroes == 1)) && seen.quiescent && seen.timer_programs == 1 && ((
    opcode != 3 && opcode != 16) || (49 <= seen.elapsed && seen.elapsed <= 250))
}

/// Whether the server is the side that stopped, so that the client still has to
/// learn of it.
pub open spec fn server_stopped(stop: IpcStop) -> bool {
    match stop {
        IpcStop::Faulted { peer, .. } => peer == SERVER,
        IpcStop::Exited { peer, .. } => peer == SERVER,
        IpcStop::Yielded => false,
    }
}

/// Whether the client still has to learn of the server's end.
pub fn client_goes_on(stop: IpcStop) -> (yes: bool)
    ensures
        yes == server_stopped(stop),
{
    match stop {
        IpcStop::Faulted { peer, .. } => peer == SERVER,
        IpcStop::Exited { peer, .. } => peer == SERVER,
        IpcStop::Yielded => false,
    }
}

/// Whether the server's death was noticed once and its messages are cleared.
pub fn death_is_clean(counters: &FateCounters, server_zero: bool) -> (clean: bool)
    ensures
        clean == (counters.peer_deaths == 1 && server_zero),
{
    counters.peer_deaths == 1 && server_zero
}

/// Whether the client, having learned of the server's end, ended with success.
pub fn client_survived(stop: IpcStop) -> (survived: bool)
    ensures
        survived == (stop == IpcStop::Exited { peer: CLIENT, status: 0 }),
{
    stop == (IpcStop::Exited { peer: CLIENT, status: 0 })
}

/// What is printed when every fate was met.
pub fn fates_report() -> (text: &'static str)
    ensures
        text
            == "ipc-phase-b-checks pool=20 fates=12 terminal_zeroization=1 stale_tags=1 lease_millis=50\n",
{
    "ipc-phase-b-checks pool=20 fates=12 terminal_zeroization=1 stale_tags=1 lease_millis=50\n"
}

/// What trying a behaviour does next.
#[derive(Clone, Copy, Debug, PartialEq, Eq, Structural)]
pub enum FateAction {
    /// Open a port.
    OpenPort,
    /// Launch the server.
    LaunchServer(ProbeRequest),
    /// Launch the client.
    LaunchClient(ProbeRequest),
    /// Open a badge for the client.
    OpenBadge,
    /// Make both sides a pair.
    Pair,
    /// Read the clock and the number of timer programs.
    CountBefore,
    /// Let the pair run.
    Run,
    /// Look whether the server's channel is zero.
    CheckDeath,
    /// Let the client go on.
    RunAgain,
    /// End the client.
    EndClient,
    /// End the server.
    EndServer,
    /// Take the client's memory back.
    ReclaimClient,
    /// Take the server's memory back.
    ReclaimServer,
    /// Close the port.
    ClosePort,
    /// Count free frames and look whether the channels are zero.
    CheckCleared,
    /// The fate was met and nothing is left.
    Passed,
    /// It was not.
    Failed,
}

/// What happened.
#[derive(Clone, Copy, Debug, PartialEq, Eq, Structural)]
pub enum FateEvent {
    /// It was done.
    Done,
    /// It failed.
    Failed,
    /// The server is ready.
    ServerReady {
        /// Where its channel lies.
        channel: u64,
    },
    /// Clock and timer were read.
    Started {
        /// Milliseconds.
        now: u64,
        /// Timer programs so far.
        timer_programs: u64,
    },
    /// The pair ran.
    Ran {
        /// How it stopped.
        stop: IpcStop,
        /// Counters.
        counters: FateCounters,
        /// Whether nothing is in progress.
        quiescent: bool,
        /// Milliseconds.
        now: u64,
        /// Timer programs so far.
        timer_programs: u64,
    },
    /// The server's channel was looked at.
    Death {
        /// Whether it is zero.
        server_zero: bool,
    },
    /// The client went on and stopped.
    Stopped(IpcStop),
    /// What is left was looked at.
    Cleared {
        /// Free frames.
        free: u64,
        /// Whether the client's channel is zero.
        client_zero: bool,
        /// Whether the server's channel is zero.
        server_zero: bool,
    },
}

/// Bytes of each message of a behaviour.
pub const FATE_BYTES: u64 = 8;

/// Trying one behaviour.
#[derive(Clone, Copy, Debug, PartialEq, Eq, Structural)]
pub struct FateRun {
    /// Behaviour.
    pub opcode: u16,
    /// Free frames at the start.
    pub free: u64,
    /// When the pair started.
    pub started: u64,
    /// Timer programs before.
    pub timer_programs: u64,
    /// Counters of the pair.
    pub counters: FateCounters,
    /// What is being done.
    pub doing: FateAction,
}

/// What was observed between two readings of clock and timer.
pub open spec fn observed(
    run: FateRun,
    stop: IpcStop,
    counters: FateCounters,
    quiescent: bool,
    now: u64,
    timer_programs: u64,
) -> Observation {
    Observation {
        stop,
        counters,
        quiescent,
        timer_programs: if timer_programs >= run.timer_programs {
            (timer_programs - run.timer_programs) as u64
        } else {
            0
        },
        elapsed: if now >= run.started {
            (now - run.started) as u64
        } else {
            0
        },
    }
}

impl FateRun {
    /// Start trying a behaviour with this many free frames.
    pub fn start(opcode: u16, free: u64) -> (run: Self)
        ensures
            run == (FateRun {
                opcode,
                free,
                started: 0,
                timer_programs: 0,
                counters: FateCounters {
                    completed: 0,
                    direct: 0,
                    queued: 0,
                    queue_zeroes: 0,
                    timeouts: 0,
                    peer_deaths: 0,
                },
                doing: FateAction::OpenPort,
            }),
    {
        FateRun {
            opcode,
            free,
            started: 0,
            timer_programs: 0,
            counters: FateCounters {
                completed: 0,
                direct: 0,
                queued: 0,
                queue_zeroes: 0,
                timeouts: 0,
                peer_deaths: 0,
            },
            doing: FateAction::OpenPort,
        }
    }

    /// Whether an event answers what is being done.
    pub open spec fn expects(self, event: FateEvent) -> bool {
        event is Failed && !(self.doing is Passed) && !(self.doing is Failed) || match self.doing {
            FateAction::LaunchServer(_) => event is ServerReady,
            FateAction::CountBefore => event is Started,
            FateAction::Run => event is Ran,
            FateAction::CheckDeath => event is Death,
            FateAction::RunAgain => event is Stopped,
            FateAction::CheckCleared => event is Cleared,
            FateAction::Passed | FateAction::Failed => false,
            _ => event is Done,
        }
    }

    /// What follows a step that was done.
    pub open spec fn after_step(self) -> FateAction {
        match self.doing {
            FateAction::OpenPort => FateAction::LaunchServer(
                ProbeRequest { bytes: FATE_BYTES, opcode: self.opcode, argument: 0 },
            ),
            FateAction::LaunchClient(_) => FateAction::OpenBadge,
            FateAction::OpenBadge => FateAction::Pair,
            FateAction::Pair => FateAction::CountBefore,
            FateAction::EndClient => FateAction::EndServer,
            FateAction::EndServer => FateAction::ReclaimClient,
            FateAction::ReclaimClient => FateAction::ReclaimServer,
            FateAction::ReclaimServer => FateAction::ClosePort,
            FateAction::ClosePort => FateAction::CheckCleared,
            _ => FateAction::Failed,
        }
    }

    /// The run after an event. The client is told where the server's channel
    /// lies. Where the server is the side that stopped, its death has to be
    /// noticed once, its channel cleared, and the client ends well.
    pub open spec fn next(self, event: FateEvent) -> FateRun {
        let doing = |action: FateAction| FateRun { doing: action, ..self };
        match event {
            FateEvent::Failed => doing(FateAction::Failed),
            FateEvent::Done => doing(self.after_step()),
            FateEvent::ServerReady { channel } => doing(
                FateAction::LaunchClient(
                    ProbeRequest { bytes: FATE_BYTES, opcode: self.opcode, argument: channel },
                ),
            ),
            FateEvent::Started { now, timer_programs } => FateRun {
                started: now,
                timer_programs,
                doing: FateAction::Run,
                ..self
            },
            FateEvent::Ran { stop, counters, quiescent, now, timer_programs } => FateRun {
                counters,
                doing: if !fate_is_met(
                    self.opcode,
                    observed(self, stop, counters, quiescent, now, timer_programs),
                ) {
                    FateAction::Failed
                } else if server_stopped(stop) {
                    FateAction::CheckDeath
                } else {
                    FateAction::EndClient
                },
                ..self
            },
            FateEvent::Death { server_zero } => doing(
                if self.counters.peer_deaths == 1 && server_zero {
                    FateAction::RunAgain
                } else {
                    FateAction::Failed
                },
            ),
            FateEvent::Stopped(stop) => doing(
                if stop == (IpcStop::Exited { peer: CLIENT, status: 0 }) {
                    FateAction::EndClient
                } else {
                    FateAction::Failed
                },
            ),
            FateEvent::Cleared { free, client_zero, server_zero } => doing(
                if free == self.free && client_zero && server_zero {
                    FateAction::Passed
                } else {
                    FateAction::Failed
                },
            ),
        }
    }

    fn step_on(&self) -> (action: FateAction)
        ensures
            action == self.after_step(),
    {
        match self.doing {
            FateAction::OpenPort => FateAction::LaunchServer(
                ProbeRequest { bytes: FATE_BYTES, opcode: self.opcode, argument: 0 },
            ),
            FateAction::LaunchClient(_) => FateAction::OpenBadge,
            FateAction::OpenBadge => FateAction::Pair,
            FateAction::Pair => FateAction::CountBefore,
            FateAction::EndClient => FateAction::EndServer,
            FateAction::EndServer => FateAction::ReclaimClient,
            FateAction::ReclaimClient => FateAction::ReclaimServer,
            FateAction::ReclaimServer => FateAction::ClosePort,
            FateAction::ClosePort => FateAction::CheckCleared,
            _ => FateAction::Failed,
        }
    }

    fn seen(
        &self,
        stop: IpcStop,
        counters: FateCounters,
        quiescent: bool,
        now: u64,
        timer_programs: u64,
    ) -> (seen: Observation)
        ensures
            seen == observed(*self, stop, counters, quiescent, now, timer_programs),
    {
        Observation {
            stop,
            counters,
            quiescent,
            timer_programs: timer_programs.saturating_sub(self.timer_programs),
            elapsed: now.saturating_sub(self.started),
        }
    }

    /// What is printed of an event: a fate that was not met.
    pub open spec fn complains(self, event: FateEvent) -> Option<Complaint> {
        match event {
            FateEvent::Ran { stop, counters, quiescent, now, timer_programs } => {
                let seen = observed(self, stop, counters, quiescent, now, timer_programs);
                if fate_is_met(self.opcode, seen) {
                    None
                } else {
                    Some(Complaint::Fate { opcode: self.opcode, elapsed: seen.elapsed })
                }
            },
            _ => None,
        }
    }

    /// Say what is printed of an event.
    pub fn complaint(&self, event: FateEvent) -> (complaint: Option<Complaint>)
        ensures
            complaint == self.complains(event),
    {
        match event {
            FateEvent::Ran { stop, counters, quiescent, now, timer_programs } => {
                let seen = self.seen(stop, counters, quiescent, now, timer_programs);
                if fate_checks(self.opcode, &seen) {
                    None
                } else {
                    Some(Complaint::Fate { opcode: self.opcode, elapsed: seen.elapsed })
                }
            },
            _ => None,
        }
    }

    /// Take an event and go on.
    pub fn observe(&mut self, event: FateEvent) -> (action: FateAction)
        requires
            old(self).expects(event),
        ensures
            *final(self) == old(self).next(event),
            action == final(self).doing,
    {
        match event {
            FateEvent::Failed => {
                self.doing = FateAction::Failed;
            },
            FateEvent::Done => {
                self.doing = self.step_on();
            },
            FateEvent::ServerReady { channel } => {
                self.doing = FateAction::LaunchClient(
                    ProbeRequest { bytes: FATE_BYTES, opcode: self.opcode, argument: channel },
                );
            },
            FateEvent::Started { now, timer_programs } => {
                self.started = now;
                self.timer_programs = timer_programs;
                self.doing = FateAction::Run;
            },
            FateEvent::Ran { stop, counters, quiescent, now, timer_programs } => {
                let seen = self.seen(stop, counters, quiescent, now, timer_programs);
                self.counters = counters;
                self.doing = if !fate_checks(self.opcode, &seen) {
                    FateAction::Failed
                } else if client_goes_on(stop) {
                    FateAction::CheckDeath
                } else {
                    FateAction::EndClient
                };
            },
            FateEvent::Death { server_zero } => {
                self.doing = if death_is_clean(&self.counters, server_zero) {
                    FateAction::RunAgain
                } else {
                    FateAction::Failed
                };
            },
            FateEvent::Stopped(stop) => {
                self.doing = if client_survived(stop) {
                    FateAction::EndClient
                } else {
                    FateAction::Failed
                };
            },
            FateEvent::Cleared { free, client_zero, server_zero } => {
                self.doing = if free == self.free && client_zero && server_zero {
                    FateAction::Passed
                } else {
                    FateAction::Failed
                };
            },
        }
        self.doing
    }

    /// How many steps may still follow.
    pub open spec fn steps_left(self) -> nat {
        match self.doing {
            FateAction::OpenPort => 15,
            FateAction::LaunchServer(_) => 14,
            FateAction::LaunchClient(_) => 13,
            FateAction::OpenBadge => 12,
            FateAction::Pair => 11,
            FateAction::CountBefore => 10,
            FateAction::Run => 9,
            FateAction::CheckDeath => 8,
            FateAction::RunAgain => 7,
            FateAction::EndClient => 6,
            FateAction::EndServer => 5,
            FateAction::ReclaimClient => 4,
            FateAction::ReclaimServer => 3,
            FateAction::ClosePort => 2,
            FateAction::CheckCleared => 1,
            FateAction::Passed | FateAction::Failed => 0,
        }
    }
}

/// Trying a behaviour comes to an end: each event leaves fewer steps.
pub proof fn fates_come_to_an_end(run: FateRun, event: FateEvent)
    requires
        run.expects(event),
    ensures
        run.next(event).steps_left() < run.steps_left(),
{
}

/// A behaviour passes only where every frame is free again and both channels
/// are zero.
pub proof fn met_fates_leave_nothing(run: FateRun, event: FateEvent)
    requires
        run.expects(event),
        run.next(event).doing is Passed,
    ensures
        event == (FateEvent::Cleared { free: run.free, client_zero: true, server_zero: true }),
{
}

/// No fate is met by both sides merely yielding.
pub proof fn yielding_is_no_fate(opcode: u16, seen: Observation)
    requires
        seen.stop == IpcStop::Yielded,
    ensures
        !fate_is_met(opcode, seen),
{
}

/// Each behaviour has the one end that it is made for, and no other is taken for
/// it.
pub proof fn behaviours_meet_their_own_fate(stop: IpcStop, counters: FateCounters, opcode: u16)
    ensures
        behaviours() == seq![3u16, 4, 5, 6, 7, 8, 9, 10, 11, 13, 16, 17],
        stop_is_valid(3, stop, counters) <==> stop == (IpcStop::Faulted {
            peer: 1,
            fault: TaskFault::ExecutionLeaseExpired,
        }),
        stop_is_valid(4, stop, counters) <==> stop == (IpcStop::Exited { peer: 1, status: 0 }),
        stop_is_valid(17, stop, counters) <==> stop == (IpcStop::Exited { peer: 1, status: 0 }),
        stop_is_valid(5, stop, counters) <==> stop == (IpcStop::Faulted {
            peer: 1,
            fault: TaskFault::InvalidCall,
        }),
        stop_is_valid(6, stop, counters) <==> stop == (IpcStop::Faulted {
            peer: 1,
            fault: TaskFault::InvalidCall,
        }),
        stop_is_valid(13, stop, counters) <==> stop == (IpcStop::Faulted {
            peer: 1,
            fault: TaskFault::InvalidCall,
        }),
        stop_is_valid(7, stop, counters) <==> stop == (IpcStop::Faulted {
            peer: 1,
            fault: TaskFault::Permission,
        }),
        stop_is_valid(8, stop, counters) <==> stop == (IpcStop::Faulted {
            peer: 1,
            fault: TaskFault::Permission,
        }),
        stop_is_valid(9, stop, counters) <==> stop == (IpcStop::Faulted {
            peer: 0,
            fault: TaskFault::InvalidCall,
        }),
        stop_is_valid(11, stop, counters) <==> stop == (IpcStop::Faulted {
            peer: 0,
            fault: TaskFault::InvalidCall,
        }),
        stop_is_valid(10, stop, counters) <==> stop == (IpcStop::Exited { peer: 0, status: 0 })
            && counters.direct == 0 && counters.timeouts == 1,
        stop_is_valid(16, stop, counters) <==> (stop matches IpcStop::Faulted { fault, .. } && fault
            == TaskFault::ExecutionLeaseExpired) && counters.completed > 1,
        stop_is_valid(opcode, stop, counters) ==> behaviours().contains(opcode),
{
    let all = behaviours();
    assert(all[0] == 3 && all[1] == 4 && all[2] == 5 && all[3] == 6 && all[4] == 7 && all[5] == 8
        && all[6] == 9 && all[7] == 10 && all[8] == 11 && all[9] == 13 && all[10] == 16 && all[11]
        == 17);
}

/// A fate is met only where the pair is quiet again, one timer was programmed, a
/// queued call left its slot zeroed, and an expired lease lasted as long as it
/// should.
pub proof fn met_fates_are_quiet(opcode: u16, seen: Observation)
    ensures
        fate_is_met(opcode, seen) <==> {
            &&& stop_is_valid(opcode, seen.stop, seen.counters)
            &&& seen.quiescent
            &&& seen.timer_programs == 1
            &&& opcode == 17 ==> seen.counters.queued == 1 && seen.counters.queue_zeroes == 1
            &&& opcode == 3 ==> 49 <= seen.elapsed && seen.elapsed <= 250
            &&& opcode == 16 ==> 49 <= seen.elapsed && seen.elapsed <= 250
        },
{
}

/// What is observed of a run are the programs and the time since it was started.
pub proof fn fates_are_observed_since_the_start(
    run: FateRun,
    stop: IpcStop,
    counters: FateCounters,
    quiescent: bool,
    now: u64,
    timer_programs: u64,
)
    requires
        now >= run.started,
        timer_programs >= run.timer_programs,
    ensures
        ({
            let seen = observed(run, stop, counters, quiescent, now, timer_programs);
            &&& run.started + seen.elapsed == now
            &&& run.timer_programs + seen.timer_programs == timer_programs
            &&& seen.stop == stop && seen.counters == counters && seen.quiescent == quiescent
        }),
{
}

/// A fate is tried in this order. The client is told the server's channel; where
/// the server stopped, its death is seen by the client, which then exits well;
/// and it passes only with as many free frames as before and all memory zeroed.
pub proof fn fates_are_tried_in_order(
    run: FateRun,
    channel: u64,
    stop: IpcStop,
    counters: FateCounters,
    quiescent: bool,
    now: u64,
    timer_programs: u64,
    free: u64,
    client_zero: bool,
    server_zero: bool,
)
    ensures
        run.doing == FateAction::OpenPort ==> run.next(FateEvent::Done).doing
            == FateAction::LaunchServer(
            ProbeRequest { bytes: 8, opcode: run.opcode, argument: 0 },
        ),
        run.next(FateEvent::ServerReady { channel }).doing == FateAction::LaunchClient(
            ProbeRequest { bytes: 8, opcode: run.opcode, argument: channel },
        ),
        run.doing is LaunchClient ==> run.next(FateEvent::Done).doing == FateAction::OpenBadge,
        run.doing == FateAction::OpenBadge ==> run.next(FateEvent::Done).doing == FateAction::Pair,
        run.doing == FateAction::Pair ==> run.next(FateEvent::Done).doing
            == FateAction::CountBefore,
        ({
            let next = run.next(FateEvent::Started { now, timer_programs });
            next.doing == FateAction::Run && next.started == now && next.timer_programs
                == timer_programs
        }),
        ({
            let next = run.next(FateEvent::Ran { stop, counters, quiescent, now, timer_programs });
            let met = fate_is_met(
                run.opcode,
                observed(run, stop, counters, quiescent, now, timer_programs),
            );
            let server = match stop {
                IpcStop::Faulted { peer, .. } => peer == 1,
                IpcStop::Exited { peer, .. } => peer == 1,
                IpcStop::Yielded => false,
            };
            &&& !met <==> next.doing == FateAction::Failed
            &&& met && server <==> next.doing == FateAction::CheckDeath
            &&& met && !server <==> next.doing == FateAction::EndClient
            &&& next.counters == counters
        }),
        run.next(FateEvent::Death { server_zero }).doing == FateAction::RunAgain
            <==> run.counters.peer_deaths == 1 && server_zero,
        run.next(FateEvent::Stopped(stop)).doing == FateAction::EndClient <==> stop
            == (IpcStop::Exited { peer: 0, status: 0 }),
        run.doing == FateAction::EndClient ==> run.next(FateEvent::Done).doing
            == FateAction::EndServer,
        run.doing == FateAction::EndServer ==> run.next(FateEvent::Done).doing
            == FateAction::ReclaimClient,
        run.doing == FateAction::ReclaimClient ==> run.next(FateEvent::Done).doing
            == FateAction::ReclaimServer,
        run.doing == FateAction::ReclaimServer ==> run.next(FateEvent::Done).doing
            == FateAction::ClosePort,
        run.doing == FateAction::ClosePort ==> run.next(FateEvent::Done).doing
            == FateAction::CheckCleared,
        run.next(FateEvent::Cleared { free, client_zero, server_zero }).doing == FateAction::Passed
            <==> free == run.free && client_zero && server_zero,
        run.next(FateEvent::Failed).doing == FateAction::Failed,
{
}

} // verus!
