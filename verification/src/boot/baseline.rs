//! The boot interval of acceptance runs.

use crate::text::{append_decimal, append_text, decimal, utf8};
use vstd::prelude::*;

verus! {

/// Ticks from `start` to `end` without the excluded ones; `None` where the
/// counter ran backwards or nothing is left.
pub fn boot_interval(start: u64, end: u64, excluded: u64) -> (ticks: Option<u64>)
    ensures
        match ticks {
            Some(t) => t > 0 && t == end - start - excluded,
            None => end - start - excluded <= 0,
        },
{
    match end.checked_sub(start) {
        Some(elapsed) => if elapsed > excluded {
            Some(elapsed - excluded)
        } else {
            None
        },
        None => None,
    }
}

/// Ticks that message checks took and that do not count; `None` where the
/// counter ran backwards.
pub fn excluded_interval(start: u64, end: u64) -> (ticks: Option<u64>)
    ensures
        ticks == (if end >= start {
            Some((end - start) as u64)
        } else {
            None
        }),
{
    end.checked_sub(start)
}

/// Why there is no record of a boot interval.
#[derive(Clone, Copy, Debug, PartialEq, Eq, Structural)]
pub enum BaselineFailure {
    /// The counter ran backwards during message checks.
    Reversed,
    /// There is no interval.
    Invalid,
    /// The counter's frequency is unknown.
    Unavailable,
    /// The record could not be printed.
    Output,
}

/// What is printed where there is no record.
pub fn baseline_failure(failure: BaselineFailure) -> (text: &'static str)
    ensures
        text@ == (match failure {
            BaselineFailure::Reversed => "fatal: boot counter reversed\n"@,
            BaselineFailure::Invalid => "fatal: boot counter interval invalid\n"@,
            BaselineFailure::Unavailable => "fatal: boot counter unavailable\n"@,
            BaselineFailure::Output => "fatal: boot counter output failed\n"@,
        }),
{
    match failure {
        BaselineFailure::Reversed => "fatal: boot counter reversed\n",
        BaselineFailure::Invalid => "fatal: boot counter interval invalid\n",
        BaselineFailure::Unavailable => "fatal: boot counter unavailable\n",
        BaselineFailure::Output => "fatal: boot counter output failed\n",
    }
}

/// The record of a boot interval.
pub open spec fn baseline_text(
    start: nat,
    end: nat,
    excluded: nat,
    ticks: nat,
    frequency: nat,
) -> Seq<u8> {
    utf8("TROE-BOOT-BASELINE-v1 start_ticks=") + decimal(start) + utf8(" end_ticks=") + decimal(end)
        + utf8(" excluded_ipc_ticks=") + decimal(excluded) + utf8(" ticks=") + decimal(ticks)
        + utf8(" counter_hz=") + decimal(frequency) + utf8("\n")
}

/// Format the record of a boot interval; `None` where there is no interval.
pub fn baseline_line(start: u64, end: u64, excluded: u64, frequency: u64) -> (line: Option<Vec<u8>>)
    ensures
        match line {
            Some(l) => end - start - excluded > 0 && l@ == baseline_text(
                start as nat,
                end as nat,
                excluded as nat,
                (end - start - excluded) as nat,
                frequency as nat,
            ),
            None => end - start - excluded <= 0,
        },
{
    let ticks: u64 = match boot_interval(start, end, excluded) {
        Some(ticks) => ticks,
        None => return None,
    };
    let mut line: Vec<u8> = Vec::new();
    append_text(&mut line, "TROE-BOOT-BASELINE-v1 start_ticks=");
    append_decimal(&mut line, start);
    append_text(&mut line, " end_ticks=");
    append_decimal(&mut line, end);
    append_text(&mut line, " excluded_ipc_ticks=");
    append_decimal(&mut line, excluded);
    append_text(&mut line, " ticks=");
    append_decimal(&mut line, ticks);
    append_text(&mut line, " counter_hz=");
    append_decimal(&mut line, frequency);
    append_text(&mut line, "\n");
    assert(line@ =~= baseline_text(
        start as nat,
        end as nat,
        excluded as nat,
        ticks as nat,
        frequency as nat,
    ));
    Some(line)
}

/// The baseline line shows each measure under its name, in this order.
pub proof fn baselines_name_their_measures(
    start: nat,
    end: nat,
    excluded: nat,
    ticks: nat,
    frequency: nat,
)
    ensures
        baseline_text(start, end, excluded, ticks, frequency) == utf8(
            "TROE-BOOT-BASELINE-v1 start_ticks=",
        ) + decimal(start) + utf8(" end_ticks=") + decimal(end) + utf8(" excluded_ipc_ticks=")
            + decimal(excluded) + utf8(" ticks=") + decimal(ticks) + utf8(" counter_hz=") + decimal(
            frequency,
        ) + utf8("\n"),
{
}

} // verus!
