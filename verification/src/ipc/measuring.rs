//! One measured run, from the launch of both sides to their removal.

use crate::ipc::baseline::{
    fast_enough, ratio_passes, run_checks, run_is_accepted, run_is_exact, tags_are_fresh,
    warmup_is_complete, MachineCounters, MeasuredRun, PairCounters, PlannedRun, TagCounters,
    TagLiveness, SAMPLES, WARMUP_CALLS,
};
use crate::ipc::failures::Complaint;
use crate::ipc::launch::ProbeRequest;
use vstd::prelude::*;

verus! {

/// What a measured run does next.
#[derive(Clone, Copy, Debug, PartialEq, Eq, Structural)]
pub enum MeasureAction {
    /// Open a port.
    OpenPort,
    /// Launch the server.
    LaunchServer(ProbeRequest),
    /// Launch the client.
    LaunchClient(ProbeRequest),
    /// End the server that has no client.
    EndLoneServer,
    /// Take its memory back.
    ReclaimLoneServer,
    /// Look at the tags of both sides and of the run before.
    CheckTags,
    /// Open a badge for the client.
    OpenBadge,
    /// Make both sides a pair.
    Pair,
    /// Let the pair warm up.
    WarmUp,
    /// Read the counters.
    CountBefore,
    /// Let the pair make the measured calls.
    Measure,
    /// Read the counters again.
    CountAfter,
    /// Print the samples and find the time that 95 of 100 stay within.
    Emit,
    /// Print the record.
    Report(MeasuredRun),
    /// End the client.
    EndClient,
    /// End the server.
    EndServer,
    /// Drop the pair and look at the tags.
    CheckRetired,
    /// Take the client's memory back.
    ReclaimClient,
    /// Take the server's memory back.
    ReclaimServer,
    /// Look whether the channels of both sides are zero.
    CheckCleared,
    /// Close the port.
    ClosePort,
    /// Count free frames.
    CountFree,
    /// The run is accepted.
    Passed,
    /// The run is not accepted.
    Failed,
}

/// What happened.
#[derive(Clone, Copy, Debug, PartialEq, Eq, Structural)]
pub enum MeasureEvent {
    /// It was done.
    Done,
    /// It failed.
    Failed,
    /// The tags were looked at.
    Tags(TagLiveness),
    /// The pair ran.
    Ran {
        /// Whether it stopped by yielding.
        yielded: bool,
        /// Whether nothing is in progress.
        quiescent: bool,
        /// Calls that were timed.
        samples: u64,
    },
    /// The counters were read.
    Counted {
        /// Counters.
        counters: MachineCounters,
        /// Whether the machine has tags.
        tagged: bool,
        /// Whether the scheduler did nothing since they were last read.
        scheduler_idle: bool,
    },
    /// The samples were printed.
    Emitted {
        /// Time that 95 of 100 calls stay within.
        p95: u64,
    },
    /// The channels were looked at.
    Cleared {
        /// Whether the client's is zero.
        client: bool,
        /// Whether the server's is zero.
        server: bool,
    },
    /// Free frames were counted.
    Free(u64),
}

/// A measured run.
#[derive(Clone, Copy, Debug, PartialEq, Eq, Structural)]
pub struct MeasureRun {
    /// What is measured.
    pub plan: PlannedRun,
    /// Time of the compatible path.
    pub compatibility_p95: u64,
    /// Free frames at the start.
    pub free: u64,
    /// Whether the machine has tags.
    pub tagged: bool,
    /// Counters before the measured calls.
    pub before: MachineCounters,
    /// Counters after them.
    pub after: MachineCounters,
    /// Time that 95 of 100 calls stay within.
    pub p95: u64,
    /// What is being done.
    pub doing: MeasureAction,
}

/// Counters that never counted.
pub open spec fn no_counts() -> MachineCounters {
    MachineCounters {
        pair: PairCounters {
            completed: 0,
            direct: 0,
            queued: 0,
            request_copies: 0,
            reply_copies: 0,
            additional_lease_programs: 0,
            traps: 0,
            queue_zeroes: 0,
        },
        tags: TagCounters {
            root_writes: 0,
            full_invalidations: 0,
            targeted_invalidations: 0,
            hits: 0,
        },
        timer_programs: 0,
        allocation_calls: 0,
    }
}

fn zero_counts() -> (counters: MachineCounters)
    ensures
        counters == no_counts(),
{
    MachineCounters {
        pair: PairCounters {
            completed: 0,
            direct: 0,
            queued: 0,
            request_copies: 0,
            reply_copies: 0,
            additional_lease_programs: 0,
            traps: 0,
            queue_zeroes: 0,
        },
        tags: TagCounters {
            root_writes: 0,
            full_invalidations: 0,
            targeted_invalidations: 0,
            hits: 0,
        },
        timer_programs: 0,
        allocation_calls: 0,
    }
}

impl MeasureRun {
    /// Start a run with this many free frames.
    pub fn start(plan: PlannedRun, compatibility_p95: u64, free: u64) -> (run: Self)
        ensures
            run == (MeasureRun {
                plan,
                compatibility_p95,
                free,
                tagged: false,
                before: no_counts(),
                after: no_counts(),
                p95: 0,
                doing: MeasureAction::OpenPort,
            }),
            run.well_formed(),
    {
        MeasureRun {
            plan,
            compatibility_p95,
            free,
            tagged: false,
            before: zero_counts(),
            after: zero_counts(),
            p95: 0,
            doing: MeasureAction::OpenPort,
        }
    }

    /// What both sides are told: how many bytes a message has, and whether it
    /// is queued.
    pub open spec fn request(self) -> ProbeRequest {
        ProbeRequest {
            bytes: self.plan.bytes,
            opcode: if self.plan.queued {
                2
            } else {
                1
            },
            argument: 0,
        }
    }

    fn probe_request(&self) -> (request: ProbeRequest)
        ensures
            request == self.request(),
    {
        ProbeRequest {
            bytes: self.plan.bytes,
            opcode: if self.plan.queued {
                2
            } else {
                1
            },
            argument: 0,
        }
    }

    /// Whether the counters advanced as they must, where that is needed.
    pub open spec fn well_formed(self) -> bool {
        self.doing is Emit ==> run_is_exact(
            self.before,
            self.after,
            self.plan.bytes,
            self.plan.queued,
            self.tagged,
        )
    }

    /// Whether an event answers what is being done.
    pub open spec fn expects(self, event: MeasureEvent) -> bool {
        event is Failed && !(self.doing is Passed) && !(self.doing is Failed) || match self.doing {
            MeasureAction::CheckTags | MeasureAction::CheckRetired => event is Tags,
            MeasureAction::WarmUp | MeasureAction::Measure => event is Ran,
            MeasureAction::CountBefore | MeasureAction::CountAfter => event is Counted,
            MeasureAction::Emit => event is Emitted,
            MeasureAction::CheckCleared => event is Cleared,
            MeasureAction::CountFree => event is Free,
            MeasureAction::Passed | MeasureAction::Failed => false,
            _ => event is Done,
        }
    }

    /// The record of the run, with the time that 95 of 100 calls stay within.
    pub open spec fn record(self, p95: u64) -> MeasuredRun {
        let p = self.before.pair;
        let q = self.after.pair;
        let s = self.before.tags;
        let t = self.after.tags;
        MeasuredRun {
            queued: self.plan.queued,
            bytes: self.plan.bytes,
            p95,
            compatibility_p95: self.compatibility_p95,
            tagged: self.tagged,
            request_copies: (q.request_copies - p.request_copies) as u64,
            reply_copies: (q.reply_copies - p.reply_copies) as u64,
            root_writes: (t.root_writes - s.root_writes) as u64,
            targeted: (t.targeted_invalidations - s.targeted_invalidations) as u64,
            full: (t.full_invalidations - s.full_invalidations) as u64,
            queue_zeroes: (q.queue_zeroes - p.queue_zeroes) as u64,
            traps: (q.traps - p.traps) as u64,
            hits: (t.hits - s.hits) as u64,
            additional_lease_programs: (q.additional_lease_programs
                - p.additional_lease_programs) as u64,
        }
    }

    /// Whether a run that left `free` frames is accepted: no frame is missing,
    /// and a direct run on a machine with tags is fast enough.
    pub open spec fn accepted(self, free: u64) -> bool {
        &&& free == self.free
        &&& self.tagged && !self.plan.queued ==> fast_enough(
            self.p95,
            self.compatibility_p95,
            self.plan.bytes,
        )
    }

    /// What follows a step that was done.
    pub open spec fn after_step(self) -> MeasureAction {
        match self.doing {
            MeasureAction::OpenPort => MeasureAction::LaunchServer(self.request()),
            MeasureAction::LaunchServer(_) => MeasureAction::LaunchClient(self.request()),
            MeasureAction::LaunchClient(_) => MeasureAction::CheckTags,
            MeasureAction::EndLoneServer => MeasureAction::ReclaimLoneServer,
            MeasureAction::OpenBadge => MeasureAction::Pair,
            MeasureAction::Pair => MeasureAction::WarmUp,
            MeasureAction::Report(_) => MeasureAction::EndClient,
            MeasureAction::EndClient => MeasureAction::EndServer,
            MeasureAction::EndServer => MeasureAction::CheckRetired,
            MeasureAction::ReclaimClient => MeasureAction::ReclaimServer,
            MeasureAction::ReclaimServer => MeasureAction::CheckCleared,
            MeasureAction::ClosePort => MeasureAction::CountFree,
            _ => MeasureAction::Failed,
        }
    }

    /// A step where a condition holds, failure otherwise.
    pub open spec fn step_if(condition: bool, action: MeasureAction) -> MeasureAction {
        if condition {
            action
        } else {
            MeasureAction::Failed
        }
    }

    /// The run after an event.
    pub open spec fn next(self, event: MeasureEvent) -> MeasureRun {
        let doing = |action: MeasureAction| MeasureRun { doing: action, ..self };
        match event {
            MeasureEvent::Done => doing(self.after_step()),
            MeasureEvent::Failed => doing(
                if self.doing is LaunchClient {
                    MeasureAction::EndLoneServer
                } else {
                    MeasureAction::Failed
                },
            ),
            MeasureEvent::Tags(tags) => if self.doing is CheckTags {
                doing(
                    MeasureRun::step_if(
                        !tags.stale && tags.client && tags.server,
                        MeasureAction::OpenBadge,
                    ),
                )
            } else {
                doing(
                    MeasureRun::step_if(
                        !tags.client && !tags.server,
                        MeasureAction::ReclaimClient,
                    ),
                )
            },
            MeasureEvent::Ran { yielded, quiescent, samples } => if self.doing is WarmUp {
                doing(
                    MeasureRun::step_if(
                        yielded && quiescent && samples == WARMUP_CALLS,
                        MeasureAction::CountBefore,
                    ),
                )
            } else {
                doing(
                    MeasureRun::step_if(
                        yielded && quiescent && samples == SAMPLES,
                        MeasureAction::CountAfter,
                    ),
                )
            },
            MeasureEvent::Counted { counters, tagged, scheduler_idle } => if self.doing
                is CountBefore {
                MeasureRun { before: counters, tagged, doing: MeasureAction::Measure, ..self }
            } else {
                MeasureRun {
                    after: counters,
                    doing: MeasureRun::step_if(
                        scheduler_idle && run_is_exact(
                            self.before,
                            counters,
                            self.plan.bytes,
                            self.plan.queued,
                            self.tagged,
                        ),
                        MeasureAction::Emit,
                    ),
                    ..self
                }
            },
            MeasureEvent::Emitted { p95 } => MeasureRun {
                p95,
                doing: MeasureAction::Report(self.record(p95)),
                ..self
            },
            MeasureEvent::Cleared { client, server } => doing(
                MeasureRun::step_if(client && server, MeasureAction::ClosePort),
            ),
            MeasureEvent::Free(free) => doing(
                MeasureRun::step_if(self.accepted(free), MeasureAction::Passed),
            ),
        }
    }

    fn make_record(&self, p95: u64) -> (record: MeasuredRun)
        requires
            run_is_exact(
                self.before,
                self.after,
                self.plan.bytes,
                self.plan.queued,
                self.tagged,
            ),
        ensures
            record == self.record(p95),
    {
        let p = self.before.pair;
        let q = self.after.pair;
        let s = self.before.tags;
        let t = self.after.tags;
        MeasuredRun {
            queued: self.plan.queued,
            bytes: self.plan.bytes,
            p95,
            compatibility_p95: self.compatibility_p95,
            tagged: self.tagged,
            request_copies: q.request_copies - p.request_copies,
            reply_copies: q.reply_copies - p.reply_copies,
            root_writes: t.root_writes - s.root_writes,
            targeted: t.targeted_invalidations - s.targeted_invalidations,
            full: t.full_invalidations - s.full_invalidations,
            queue_zeroes: q.queue_zeroes - p.queue_zeroes,
            traps: q.traps - p.traps,
            hits: t.hits - s.hits,
            additional_lease_programs: q.additional_lease_programs - p.additional_lease_programs,
        }
    }

    fn step_on(&self) -> (action: MeasureAction)
        ensures
            action == self.after_step(),
    {
        match self.doing {
            MeasureAction::OpenPort => MeasureAction::LaunchServer(self.probe_request()),
            MeasureAction::LaunchServer(_) => MeasureAction::LaunchClient(self.probe_request()),
            MeasureAction::LaunchClient(_) => MeasureAction::CheckTags,
            MeasureAction::EndLoneServer => MeasureAction::ReclaimLoneServer,
            MeasureAction::OpenBadge => MeasureAction::Pair,
            MeasureAction::Pair => MeasureAction::WarmUp,
            MeasureAction::Report(_) => MeasureAction::EndClient,
            MeasureAction::EndClient => MeasureAction::EndServer,
            MeasureAction::EndServer => MeasureAction::CheckRetired,
            MeasureAction::ReclaimClient => MeasureAction::ReclaimServer,
            MeasureAction::ReclaimServer => MeasureAction::CheckCleared,
            MeasureAction::ClosePort => MeasureAction::CountFree,
            _ => MeasureAction::Failed,
        }
    }

    fn step_or_fail(condition: bool, action: MeasureAction) -> (chosen: MeasureAction)
        ensures
            chosen == MeasureRun::step_if(condition, action),
    {
        if condition {
            action
        } else {
            MeasureAction::Failed
        }
    }

    /// What is printed of an event.
    pub open spec fn complains(self, event: MeasureEvent) -> Option<Complaint> {
        match (self.doing, event) {
            (MeasureAction::LaunchServer(_), MeasureEvent::Failed) => Some(Complaint::ServerLaunch),
            (MeasureAction::Pair, MeasureEvent::Failed) => Some(Complaint::Pair),
            (MeasureAction::Measure, MeasureEvent::Ran { yielded, quiescent, .. }) if !yielded
                || !quiescent => Some(Complaint::Run),
            _ => None,
        }
    }

    /// Say what is printed of an event.
    pub fn complaint(&self, event: MeasureEvent) -> (complaint: Option<Complaint>)
        ensures
            complaint == self.complains(event),
    {
        match (self.doing, event) {
            (MeasureAction::LaunchServer(_), MeasureEvent::Failed) => Some(Complaint::ServerLaunch),
            (MeasureAction::Pair, MeasureEvent::Failed) => Some(Complaint::Pair),
            (MeasureAction::Measure, MeasureEvent::Ran { yielded, quiescent, .. }) => if yielded
                && quiescent {
                None
            } else {
                Some(Complaint::Run)
            },
            _ => None,
        }
    }

    /// Take an event and go on.
    pub fn observe(&mut self, event: MeasureEvent) -> (action: MeasureAction)
        requires
            old(self).well_formed(),
            old(self).expects(event),
        ensures
            final(self).well_formed(),
            *final(self) == old(self).next(event),
            action == final(self).doing,
    {
        match event {
            MeasureEvent::Done => {
                self.doing = self.step_on();
            },
            MeasureEvent::Failed => {
                self.doing = match self.doing {
                    MeasureAction::LaunchClient(_) => MeasureAction::EndLoneServer,
                    _ => MeasureAction::Failed,
                };
            },
            MeasureEvent::Tags(tags) => {
                self.doing = match self.doing {
                    MeasureAction::CheckTags => MeasureRun::step_or_fail(
                        tags_are_fresh(tags),
                        MeasureAction::OpenBadge,
                    ),
                    _ => MeasureRun::step_or_fail(
                        !tags.client && !tags.server,
                        MeasureAction::ReclaimClient,
                    ),
                };
            },
            MeasureEvent::Ran { yielded, quiescent, samples } => {
                self.doing = match self.doing {
                    MeasureAction::WarmUp => MeasureRun::step_or_fail(
                        warmup_is_complete(yielded, quiescent, samples),
                        MeasureAction::CountBefore,
                    ),
                    _ => MeasureRun::step_or_fail(
                        yielded && quiescent && samples == SAMPLES,
                        MeasureAction::CountAfter,
                    ),
                };
            },
            MeasureEvent::Counted { counters, tagged, scheduler_idle } => {
                match self.doing {
                    MeasureAction::CountBefore => {
                        self.before = counters;
                        self.tagged = tagged;
                        self.doing = MeasureAction::Measure;
                    },
                    _ => {
                        self.after = counters;
                        let exact = run_checks(
                            &self.before,
                            &counters,
                            self.plan.bytes,
                            self.plan.queued,
                            self.tagged,
                        );
                        self.doing = MeasureRun::step_or_fail(
                            scheduler_idle && exact,
                            MeasureAction::Emit,
                        );
                    },
                }
            },
            MeasureEvent::Emitted { p95 } => {
                self.p95 = p95;
                let record = self.make_record(p95);
                self.doing = MeasureAction::Report(record);
            },
            MeasureEvent::Cleared { client, server } => {
                self.doing = MeasureRun::step_or_fail(client && server, MeasureAction::ClosePort);
            },
            MeasureEvent::Free(free) => {
                let fast = ratio_passes(self.p95, self.compatibility_p95, self.plan.bytes);
                let accepted = run_is_accepted(self.tagged, self.plan.queued, fast);
                self.doing = MeasureRun::step_or_fail(
                    free == self.free && accepted,
                    MeasureAction::Passed,
                );
            },
        }
        self.doing
    }

    /// How many steps may still follow.
    pub open spec fn steps_left(self) -> nat {
        match self.doing {
            MeasureAction::OpenPort => 21,
            MeasureAction::LaunchServer(_) => 20,
            MeasureAction::LaunchClient(_) => 19,
            MeasureAction::CheckTags => 18,
            MeasureAction::OpenBadge => 17,
            MeasureAction::Pair => 16,
            MeasureAction::WarmUp => 15,
            MeasureAction::CountBefore => 14,
            MeasureAction::Measure => 13,
            MeasureAction::CountAfter => 12,
            MeasureAction::Emit => 11,
            MeasureAction::Report(_) => 10,
            MeasureAction::EndClient => 9,
            MeasureAction::EndServer => 8,
            MeasureAction::CheckRetired => 7,
            MeasureAction::ReclaimClient => 6,
            MeasureAction::ReclaimServer => 5,
            MeasureAction::CheckCleared => 4,
            MeasureAction::ClosePort => 3,
            MeasureAction::CountFree | MeasureAction::EndLoneServer => 2,
            MeasureAction::ReclaimLoneServer => 1,
            MeasureAction::Passed | MeasureAction::Failed => 0,
        }
    }
}

/// A measured run comes to an end: each event leaves fewer steps.
pub proof fn measured_runs_come_to_an_end(run: MeasureRun, event: MeasureEvent)
    requires
        run.expects(event),
    ensures
        run.next(event).steps_left() < run.steps_left(),
{
}

/// A run is accepted only where every frame is free again, and, on a direct run
/// of a machine with tags, only where it is fast enough.
pub proof fn accepted_runs_leave_nothing(run: MeasureRun, event: MeasureEvent)
    requires
        run.expects(event),
        run.next(event).doing is Passed,
    ensures
        event == MeasureEvent::Free(run.free),
        run.tagged && !run.plan.queued ==> fast_enough(
            run.p95,
            run.compatibility_p95,
            run.plan.bytes,
        ),
{
}

/// A record is printed only of counters that advanced exactly as they must: no
/// heap allocation, one timer program, and two root writes for each call.
pub proof fn records_are_exact(run: MeasureRun, event: MeasureEvent)
    requires
        run.well_formed(),
        run.expects(event),
    ensures
        run.next(event).doing matches MeasureAction::Report(record) ==> {
            &&& run.after.allocation_calls == run.before.allocation_calls
            &&& run.after.timer_programs == run.before.timer_programs + 1
            &&& record.root_writes == 2 * SAMPLES
            &&& record.targeted == 0
            &&& record.additional_lease_programs == 0
        },
{
}

/// A run is measured in this order: both tasks are launched with one request and
/// paired, warmed up with 64 calls, measured with 256, and reported; then both
/// are ended, reclaimed and found cleared.
pub proof fn runs_are_measured_in_order(
    run: MeasureRun,
    tags: TagLiveness,
    yielded: bool,
    quiescent: bool,
    samples: u64,
    counters: MachineCounters,
    tagged: bool,
    scheduler_idle: bool,
    p95: u64,
    free: u64,
)
    ensures
        run.request().bytes == run.plan.bytes,
        run.plan.queued ==> run.request().opcode == 2,
        !run.plan.queued ==> run.request().opcode == 1,
        run.doing == MeasureAction::OpenPort ==> run.next(MeasureEvent::Done).doing
            == MeasureAction::LaunchServer(run.request()),
        run.doing is LaunchServer ==> run.next(MeasureEvent::Done).doing
            == MeasureAction::LaunchClient(run.request()),
        run.doing is LaunchClient ==> run.next(MeasureEvent::Done).doing == MeasureAction::CheckTags
            && run.next(MeasureEvent::Failed).doing == MeasureAction::EndLoneServer,
        run.doing == MeasureAction::EndLoneServer ==> run.next(MeasureEvent::Done).doing
            == MeasureAction::ReclaimLoneServer,
        run.doing == MeasureAction::ReclaimLoneServer ==> run.next(MeasureEvent::Done).doing
            == MeasureAction::Failed,
        run.doing == MeasureAction::CheckTags ==> (run.next(MeasureEvent::Tags(tags)).doing
            == MeasureAction::OpenBadge <==> tags.client && tags.server && !tags.stale),
        run.doing == MeasureAction::OpenBadge ==> run.next(MeasureEvent::Done).doing
            == MeasureAction::Pair,
        run.doing == MeasureAction::Pair ==> run.next(MeasureEvent::Done).doing
            == MeasureAction::WarmUp,
        run.doing == MeasureAction::WarmUp ==> (run.next(
            MeasureEvent::Ran { yielded, quiescent, samples },
        ).doing == MeasureAction::CountBefore <==> yielded && quiescent && samples == 64),
        run.doing == MeasureAction::CountBefore ==> ({
            let next = run.next(MeasureEvent::Counted { counters, tagged, scheduler_idle });
            next.doing == MeasureAction::Measure && next.before == counters && next.tagged == tagged
        }),
        run.doing == MeasureAction::Measure ==> (run.next(
            MeasureEvent::Ran { yielded, quiescent, samples },
        ).doing == MeasureAction::CountAfter <==> yielded && quiescent && samples == 256),
        run.doing == MeasureAction::CountAfter ==> ({
            let next = run.next(MeasureEvent::Counted { counters, tagged, scheduler_idle });
            &&& next.after == counters && next.before == run.before
            &&& next.doing == MeasureAction::Emit <==> scheduler_idle && run_is_exact(
                run.before,
                counters,
                run.plan.bytes,
                run.plan.queued,
                run.tagged,
            )
        }),
        (run.next(MeasureEvent::Emitted { p95 }).doing matches MeasureAction::Report(line)
            && line.p95 == p95),
        run.next(MeasureEvent::Emitted { p95 }).p95 == p95,
        run.doing is Report ==> run.next(MeasureEvent::Done).doing == MeasureAction::EndClient,
        run.doing == MeasureAction::EndClient ==> run.next(MeasureEvent::Done).doing
            == MeasureAction::EndServer,
        run.doing == MeasureAction::EndServer ==> run.next(MeasureEvent::Done).doing
            == MeasureAction::CheckRetired,
        run.doing == MeasureAction::CheckRetired ==> (run.next(MeasureEvent::Tags(tags)).doing
            == MeasureAction::ReclaimClient <==> !tags.client && !tags.server),
        run.doing == MeasureAction::ReclaimClient ==> run.next(MeasureEvent::Done).doing
            == MeasureAction::ReclaimServer,
        run.doing == MeasureAction::ReclaimServer ==> run.next(MeasureEvent::Done).doing
            == MeasureAction::CheckCleared,
        run.doing == MeasureAction::ClosePort ==> run.next(MeasureEvent::Done).doing
            == MeasureAction::CountFree,
        run.next(MeasureEvent::Free(free)).doing == MeasureAction::Passed ==> free == run.free,
        run.tagged && !run.plan.queued ==> (run.next(MeasureEvent::Free(free)).doing
            == MeasureAction::Passed <==> free == run.free && fast_enough(
            run.p95,
            run.compatibility_p95,
            run.plan.bytes,
        )),
        !run.tagged || run.plan.queued ==> (run.next(MeasureEvent::Free(free)).doing
            == MeasureAction::Passed <==> free == run.free),
        !(run.doing is LaunchClient) ==> run.next(MeasureEvent::Failed).doing
            == MeasureAction::Failed,
{
}

/// Memory is closed only where both tasks left theirs cleared.
pub proof fn measured_tasks_leave_cleared_memory(run: MeasureRun, client: bool, server: bool)
    ensures
        run.next(MeasureEvent::Cleared { client, server }).doing == MeasureAction::ClosePort
            <==> client && server,
        !(client && server) ==> run.next(MeasureEvent::Cleared { client, server }).doing
            == MeasureAction::Failed,
{
}

/// A record shows how far each counter went under its own name.
pub proof fn records_show_how_far_counters_went(run: MeasureRun, p95: u64)
    requires
        run_is_exact(run.before, run.after, run.plan.bytes, run.plan.queued, run.tagged),
    ensures
        ({
            let line = run.record(p95);
            &&& line.p95 == p95 && line.bytes == run.plan.bytes && line.queued == run.plan.queued
            &&& line.compatibility_p95 == run.compatibility_p95 && line.tagged == run.tagged
            &&& run.before.pair.request_copies + line.request_copies
                == run.after.pair.request_copies
            &&& run.before.pair.reply_copies + line.reply_copies == run.after.pair.reply_copies
            &&& run.before.tags.root_writes + line.root_writes == run.after.tags.root_writes
            &&& run.before.tags.targeted_invalidations + line.targeted
                == run.after.tags.targeted_invalidations
            &&& run.before.tags.full_invalidations + line.full == run.after.tags.full_invalidations
            &&& run.before.pair.queue_zeroes + line.queue_zeroes == run.after.pair.queue_zeroes
            &&& run.before.pair.traps + line.traps == run.after.pair.traps
            &&& run.before.tags.hits + line.hits == run.after.tags.hits
            &&& run.before.pair.additional_lease_programs + line.additional_lease_programs
                == run.after.pair.additional_lease_programs
        }),
{
}

} // verus!
