//! The cost of a message exchange.

use crate::text::{append_decimal, append_text, decimal, utf8};
use vstd::prelude::*;

verus! {

/// Calls before measuring.
pub const WARMUP_CALLS: u64 = 64;

/// Measured calls.
pub const SAMPLES: u64 = 256;

/// Counters of a pair of sides.
#[derive(Clone, Copy, Debug, PartialEq, Eq, Structural)]
pub struct PairCounters {
    /// Completed calls.
    pub completed: u64,
    /// Calls handed over directly.
    pub direct: u64,
    /// Calls that went through the queue.
    pub queued: u64,
    /// Request copies.
    pub request_copies: u64,
    /// Reply copies.
    pub reply_copies: u64,
    /// Additional lease programs.
    pub additional_lease_programs: u64,
    /// Traps.
    pub traps: u64,
    /// Queue slots cleared.
    pub queue_zeroes: u64,
}

/// Counters of address space tags.
#[derive(Clone, Copy, Debug, PartialEq, Eq, Structural)]
pub struct TagCounters {
    /// Root writes.
    pub root_writes: u64,
    /// Full invalidations.
    pub full_invalidations: u64,
    /// Targeted invalidations.
    pub targeted_invalidations: u64,
    /// Tag hits.
    pub hits: u64,
}

/// Counters of the whole machine.
#[derive(Clone, Copy, Debug, PartialEq, Eq, Structural)]
pub struct MachineCounters {
    /// Pair counters.
    pub pair: PairCounters,
    /// Tag counters.
    pub tags: TagCounters,
    /// Timer programs.
    pub timer_programs: u64,
    /// Heap allocations.
    pub allocation_calls: u64,
}

/// How far a counter advanced.
pub open spec fn advance(after: u64, before: u64) -> int {
    after - before
}

fn advanced_by(after: u64, before: u64, expected: u64) -> (yes: bool)
    ensures
        yes == (advance(after, before) == expected),
{
    match after.checked_sub(before) {
        Some(delta) => delta == expected,
        None => false,
    }
}

/// A number of calls, or none.
pub open spec fn calls_if(condition: bool, calls: int) -> int {
    if condition {
        calls
    } else {
        0
    }
}

/// Whether the counters advanced exactly as a run of measured calls of `bytes`
/// bytes must make them advance.
pub open spec fn run_is_exact(
    before: MachineCounters,
    after: MachineCounters,
    bytes: u64,
    queued: bool,
    tagged: bool,
) -> bool {
    let calls = SAMPLES as int;
    let p = before.pair;
    let q = after.pair;
    let s = before.tags;
    let t = after.tags;
    &&& advance(q.completed, p.completed) == calls
    &&& advance(q.direct, p.direct) == calls_if(!queued, calls)
    &&& advance(q.queued, p.queued) == calls_if(queued, calls)
    &&& advance(q.request_copies, p.request_copies) == calls_if(
        bytes != 0,
        if queued {
            2 * calls
        } else {
            calls
        },
    )
    &&& advance(q.reply_copies, p.reply_copies) == calls_if(bytes != 0, calls)
    &&& advance(t.root_writes, s.root_writes) == 2 * calls
    &&& advance(t.targeted_invalidations, s.targeted_invalidations) == 0
    &&& advance(q.additional_lease_programs, p.additional_lease_programs) == 0
    &&& advance(q.traps, p.traps) == (if queued {
        3 * calls
    } else {
        2 * calls
    }) + 1
    &&& advance(t.hits, s.hits) == calls_if(tagged, 2 * calls)
    &&& advance(after.timer_programs, before.timer_programs) == 1
    &&& advance(t.full_invalidations, s.full_invalidations) == calls_if(!tagged, 2 * calls)
    &&& advance(q.queue_zeroes, p.queue_zeroes) == calls_if(queued, calls)
    &&& after.allocation_calls == before.allocation_calls
}

/// Check that the counters advanced exactly as they must.
pub fn run_checks(
    before: &MachineCounters,
    after: &MachineCounters,
    bytes: u64,
    queued: bool,
    tagged: bool,
) -> (exact: bool)
    ensures
        exact == run_is_exact(*before, *after, bytes, queued, tagged),
{
    let p = before.pair;
    let q = after.pair;
    let s = before.tags;
    let t = after.tags;
    let copies: u64 = if bytes == 0 {
        0
    } else if queued {
        512
    } else {
        256
    };
    advanced_by(q.completed, p.completed, SAMPLES) && advanced_by(
        q.direct,
        p.direct,
        if queued {
            0
        } else {
            SAMPLES
        },
    ) && advanced_by(
        q.queued,
        p.queued,
        if queued {
            SAMPLES
        } else {
            0
        },
    ) && advanced_by(q.request_copies, p.request_copies, copies) && advanced_by(
        q.reply_copies,
        p.reply_copies,
        if bytes == 0 {
            0
        } else {
            SAMPLES
        },
    ) && advanced_by(t.root_writes, s.root_writes, 512) && advanced_by(
        t.targeted_invalidations,
        s.targeted_invalidations,
        0,
    ) && advanced_by(q.additional_lease_programs, p.additional_lease_programs, 0) && advanced_by(
        q.traps,
        p.traps,
        if queued {
            769
        } else {
            513
        },
    ) && advanced_by(
        t.hits,
        s.hits,
        if tagged {
            512
        } else {
            0
        },
    ) && advanced_by(after.timer_programs, before.timer_programs, 1) && advanced_by(
        t.full_invalidations,
        s.full_invalidations,
        if tagged {
            0
        } else {
            512
        },
    ) && advanced_by(
        q.queue_zeroes,
        p.queue_zeroes,
        if queued {
            SAMPLES
        } else {
            0
        },
    ) && after.allocation_calls == before.allocation_calls
}

/// Largest share, in percent, of the compatible path's time that the direct
/// path may take.
pub open spec fn ratio_limit(bytes: u64) -> u64 {
    if bytes == 4096 {
        70
    } else {
        60
    }
}

/// `a * b`, or the largest number where that does not fit.
pub open spec fn product(a: u64, b: u64) -> int {
    if a * b <= u64::MAX {
        a * b
    } else {
        u64::MAX as int
    }
}

/// Whether a run is fast enough beside the compatible path.
pub open spec fn fast_enough(p95: u64, compatibility_p95: u64, bytes: u64) -> bool {
    product(p95, 100) <= product(compatibility_p95, ratio_limit(bytes))
}

fn multiply(a: u64, b: u64) -> (result: u64)
    ensures
        result == product(a, b),
{
    match a.checked_mul(b) {
        Some(result) => result,
        None => u64::MAX,
    }
}

/// Decide whether a run is fast enough beside the compatible path.
pub fn ratio_passes(p95: u64, compatibility_p95: u64, bytes: u64) -> (passes: bool)
    ensures
        passes == fast_enough(p95, compatibility_p95, bytes),
{
    let limit: u64 = if bytes == 4096 {
        70
    } else {
        60
    };
    multiply(p95, 100) <= multiply(compatibility_p95, limit)
}

/// Whether a run that is too slow fails the acceptance: only on the direct path
/// of a machine with tags.
pub fn run_is_accepted(tagged: bool, queued: bool, ratio_pass: bool) -> (accepted: bool)
    ensures
        accepted == !(tagged && !queued && !ratio_pass),
{
    !tagged || queued || ratio_pass
}

/// One measured run.
#[derive(Clone, Copy, Debug, PartialEq, Eq, Structural)]
pub struct MeasuredRun {
    /// Whether calls went through the queue.
    pub queued: bool,
    /// Bytes of each message.
    pub bytes: u64,
    /// Time of the run, in ticks, that 95 of 100 calls stay within.
    pub p95: u64,
    /// The same of the compatible path.
    pub compatibility_p95: u64,
    /// Whether the machine has tags.
    pub tagged: bool,
    /// Request copies.
    pub request_copies: u64,
    /// Reply copies.
    pub reply_copies: u64,
    /// Root writes.
    pub root_writes: u64,
    /// Targeted invalidations.
    pub targeted: u64,
    /// Full invalidations.
    pub full: u64,
    /// Queue slots cleared.
    pub queue_zeroes: u64,
    /// Traps.
    pub traps: u64,
    /// Tag hits.
    pub hits: u64,
    /// Additional lease programs.
    pub additional_lease_programs: u64,
}

/// Name of the path that a run took.
pub open spec fn path_name(queued: bool) -> &'static str {
    if queued {
        "persistent-queued"
    } else {
        "persistent-direct"
    }
}

/// One, or zero.
pub open spec fn flag(value: bool) -> nat {
    if value {
        1
    } else {
        0
    }
}

impl MeasuredRun {
    /// The first half of the record of a run.
    pub open spec fn head(self) -> Seq<u8> {
        utf8("ipc-phase-b path=") + utf8(path_name(self.queued)) + utf8(" payload=") + decimal(
            self.bytes as nat,
        ) + utf8(" warmup=64 samples=256 p95_ticks=") + decimal(self.p95 as nat) + utf8(
            " compatibility_p95=",
        ) + decimal(self.compatibility_p95 as nat) + utf8(" ratio_limit=") + decimal(
            ratio_limit(self.bytes) as nat,
        ) + utf8(" ratio_pass=") + decimal(
            flag(fast_enough(self.p95, self.compatibility_p95, self.bytes)),
        ) + utf8(" tagged=") + decimal(flag(self.tagged)) + utf8(" calls=256 request_copies=")
            + decimal(self.request_copies as nat)
    }

    /// The record of a run.
    pub open spec fn text(self) -> Seq<u8> {
        self.head() + utf8(" reply_copies=") + decimal(self.reply_copies as nat) + utf8(
            " root_writes=",
        ) + decimal(self.root_writes as nat) + utf8(" targeted_invalidations=") + decimal(
            self.targeted as nat,
        ) + utf8(" full_invalidations=") + decimal(self.full as nat) + utf8(" queue_slots=")
            + decimal(self.queue_zeroes as nat) + utf8(" traps=") + decimal(self.traps as nat)
            + utf8(" tag_hits=") + decimal(self.hits as nat) + utf8(
            " steady_allocations=0 scheduler_scans=0 additional_lease_programs=",
        ) + decimal(self.additional_lease_programs as nat) + utf8("\n")
    }

    fn append_head(&self, line: &mut Vec<u8>)
        requires
            old(line)@.len() == 0,
        ensures
            final(line)@ == self.head(),
    {
        append_text(line, "ipc-phase-b path=");
        assert(line@ =~= utf8("ipc-phase-b path="));
        append_text(
            line,
            if self.queued {
                "persistent-queued"
            } else {
                "persistent-direct"
            },
        );
        append_text(line, " payload=");
        append_decimal(line, self.bytes);
        append_text(line, " warmup=64 samples=256 p95_ticks=");
        append_decimal(line, self.p95);
        append_text(line, " compatibility_p95=");
        append_decimal(line, self.compatibility_p95);
        append_text(line, " ratio_limit=");
        append_decimal(
            line,
            if self.bytes == 4096 {
                70
            } else {
                60
            },
        );
        append_text(line, " ratio_pass=");
        append_decimal(
            line,
            if ratio_passes(self.p95, self.compatibility_p95, self.bytes) {
                1
            } else {
                0
            },
        );
        append_text(line, " tagged=");
        append_decimal(
            line,
            if self.tagged {
                1
            } else {
                0
            },
        );
        append_text(line, " calls=256 request_copies=");
        append_decimal(line, self.request_copies);
    }

    /// Format the record of a run.
    pub fn line(&self) -> (line: Vec<u8>)
        ensures
            line@ == self.text(),
    {
        let mut line: Vec<u8> = Vec::new();
        self.append_head(&mut line);
        append_text(&mut line, " reply_copies=");
        append_decimal(&mut line, self.reply_copies);
        append_text(&mut line, " root_writes=");
        append_decimal(&mut line, self.root_writes);
        append_text(&mut line, " targeted_invalidations=");
        append_decimal(&mut line, self.targeted);
        append_text(&mut line, " full_invalidations=");
        append_decimal(&mut line, self.full);
        append_text(&mut line, " queue_slots=");
        append_decimal(&mut line, self.queue_zeroes);
        append_text(&mut line, " traps=");
        append_decimal(&mut line, self.traps);
        append_text(&mut line, " tag_hits=");
        append_decimal(&mut line, self.hits);
        append_text(
            &mut line,
            " steady_allocations=0 scheduler_scans=0 additional_lease_programs=",
        );
        append_decimal(&mut line, self.additional_lease_programs);
        append_text(&mut line, "\n");
        line
    }
}

/// One measurement of the acceptance.
#[derive(Clone, Copy, Debug, PartialEq, Eq, Structural)]
pub struct PlannedRun {
    /// Bytes of each message.
    pub bytes: u64,
    /// Whether calls go through the queue.
    pub queued: bool,
}

/// The measurements in order: every size, direct and queued.
pub open spec fn planned() -> Seq<PlannedRun> {
    seq![
        PlannedRun { bytes: 0, queued: false },
        PlannedRun { bytes: 0, queued: true },
        PlannedRun { bytes: 64, queued: false },
        PlannedRun { bytes: 64, queued: true },
        PlannedRun { bytes: 256, queued: false },
        PlannedRun { bytes: 256, queued: true },
        PlannedRun { bytes: 4096, queued: false },
        PlannedRun { bytes: 4096, queued: true },
    ]
}

/// List the measurements.
pub fn planned_runs() -> (runs: Vec<PlannedRun>)
    ensures
        runs@ == planned(),
{
    vec![
        PlannedRun { bytes: 0, queued: false },
        PlannedRun { bytes: 0, queued: true },
        PlannedRun { bytes: 64, queued: false },
        PlannedRun { bytes: 64, queued: true },
        PlannedRun { bytes: 256, queued: false },
        PlannedRun { bytes: 256, queued: true },
        PlannedRun { bytes: 4096, queued: false },
        PlannedRun { bytes: 4096, queued: true },
    ]
}

/// The client's behaviour in a measurement.
pub fn run_opcode(queued: bool) -> (opcode: u16)
    ensures
        opcode == (if queued {
            2
        } else {
            1u16
        }),
{
    if queued {
        2
    } else {
        1
    }
}

/// The tags of both sides.
#[derive(Clone, Copy, Debug, PartialEq, Eq, Structural)]
pub struct TagLiveness {
    /// Whether a tag of the run before is still in use.
    pub stale: bool,
    /// Whether the client's tag is in use.
    pub client: bool,
    /// Whether the server's tag is in use.
    pub server: bool,
}

/// Whether the tags are as they must be while both sides run: both in use, and
/// none left over.
pub fn tags_are_fresh(tags: TagLiveness) -> (fresh: bool)
    ensures
        fresh == (!tags.stale && tags.client && tags.server),
{
    !tags.stale && tags.client && tags.server
}

/// Whether the warm-up ended as it must: yielded, quiet, with its calls done.
pub fn warmup_is_complete(yielded: bool, quiescent: bool, samples: u64) -> (complete: bool)
    ensures
        complete == (yielded && quiescent && samples == WARMUP_CALLS),
{
    yielded && quiescent && samples == WARMUP_CALLS
}

/// In an exact run of 256 calls each call completes once and switches twice; a
/// queued call copies its request once more, takes one slot of the queue and one
/// trap more, and payloads are copied only where there are any. Tagged switches
/// hit, others invalidate everything. Nothing is allocated.
pub proof fn exact_runs_count_every_call(
    before: MachineCounters,
    after: MachineCounters,
    bytes: u64,
    queued: bool,
    tagged: bool,
)
    requires
        run_is_exact(before, after, bytes, queued, tagged),
    ensures
        after.pair.completed == before.pair.completed + 256,
        after.pair.direct + after.pair.queued == before.pair.direct + before.pair.queued + 256,
        queued ==> after.pair.direct == before.pair.direct,
        !queued ==> after.pair.queued == before.pair.queued,
        bytes == 0 ==> after.pair.request_copies == before.pair.request_copies
            && after.pair.reply_copies == before.pair.reply_copies,
        bytes > 0 && queued ==> after.pair.request_copies == before.pair.request_copies + 512,
        bytes > 0 && !queued ==> after.pair.request_copies == before.pair.request_copies + 256,
        bytes > 0 ==> after.pair.reply_copies == before.pair.reply_copies + 256,
        queued ==> after.pair.traps == before.pair.traps + 769 && after.pair.queue_zeroes
            == before.pair.queue_zeroes + 256,
        !queued ==> after.pair.traps == before.pair.traps + 513 && after.pair.queue_zeroes
            == before.pair.queue_zeroes,
        after.pair.additional_lease_programs == before.pair.additional_lease_programs,
        after.tags.root_writes == before.tags.root_writes + 512,
        after.tags.targeted_invalidations == before.tags.targeted_invalidations,
        tagged ==> after.tags.hits == before.tags.hits + 512 && after.tags.full_invalidations
            == before.tags.full_invalidations,
        !tagged ==> after.tags.hits == before.tags.hits && after.tags.full_invalidations
            == before.tags.full_invalidations + 512,
        after.timer_programs == before.timer_programs + 1,
        after.allocation_calls == before.allocation_calls,
{
}

/// A run is fast enough where it takes at most sixty hundredths of the time of
/// the compatible path, and seventy with the largest payload.
pub proof fn fast_runs_stay_below_their_ratio(p95: u64, compatibility_p95: u64, bytes: u64)
    requires
        100 * p95 <= u64::MAX,
        70 * compatibility_p95 <= u64::MAX,
    ensures
        bytes == 4096 ==> (fast_enough(p95, compatibility_p95, bytes) <==> 100 * p95 <= 70
            * compatibility_p95),
        bytes != 4096 ==> (fast_enough(p95, compatibility_p95, bytes) <==> 100 * p95 <= 60
            * compatibility_p95),
{
}

/// Every payload is measured directly and then queued, from none to a whole page.
pub proof fn every_payload_is_measured_twice(i: int)
    requires
        0 <= i < 4,
    ensures
        planned().len() == 8,
        !planned()[2 * i].queued,
        planned()[2 * i + 1].queued,
        planned()[2 * i].bytes == planned()[2 * i + 1].bytes,
        planned()[2 * i].bytes == if i == 0 {
            0int
        } else if i == 1 {
            64
        } else if i == 2 {
            256
        } else {
            4096
        },
{
    assert(i == 0 || i == 1 || i == 2 || i == 3);
}

/// A line of the measurement shows each value under its name, in this order.
pub proof fn measured_lines_name_their_values(run: MeasuredRun)
    ensures
        run.queued ==> path_name(run.queued) == "persistent-queued",
        !run.queued ==> path_name(run.queued) == "persistent-direct",
        run.text() == utf8("ipc-phase-b path=") + utf8(
            if run.queued {
                "persistent-queued"
            } else {
                "persistent-direct"
            },
        ) + utf8(" payload=") + decimal(run.bytes as nat) + utf8(
            " warmup=64 samples=256 p95_ticks=",
        ) + decimal(run.p95 as nat) + utf8(" compatibility_p95=") + decimal(
            run.compatibility_p95 as nat,
        ) + utf8(" ratio_limit=") + decimal(
            if run.bytes == 4096 {
                70nat
            } else {
                60nat
            },
        ) + utf8(" ratio_pass=") + decimal(
            if fast_enough(run.p95, run.compatibility_p95, run.bytes) {
                1nat
            } else {
                0nat
            },
        ) + utf8(" tagged=") + decimal(
            if run.tagged {
                1nat
            } else {
                0nat
            },
        ) + utf8(" calls=256 request_copies=") + decimal(run.request_copies as nat) + utf8(
            " reply_copies=",
        ) + decimal(run.reply_copies as nat) + utf8(" root_writes=") + decimal(
            run.root_writes as nat,
        ) + utf8(" targeted_invalidations=") + decimal(run.targeted as nat) + utf8(
            " full_invalidations=",
        ) + decimal(run.full as nat) + utf8(" queue_slots=") + decimal(run.queue_zeroes as nat)
            + utf8(" traps=") + decimal(run.traps as nat) + utf8(" tag_hits=") + decimal(
            run.hits as nat,
        ) + utf8(" steady_allocations=0 scheduler_scans=0 additional_lease_programs=") + decimal(
            run.additional_lease_programs as nat,
        ) + utf8("\n"),
{
}

} // verus!
