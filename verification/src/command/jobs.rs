//! Background jobs of the session.

use crate::bytes::append_bytes;
use crate::command::foreground::RESIDENT_POLL_MILLISECONDS;
use crate::command::outcome::{
    command_status, status_of, ApplicationOutcome, CommandStatus, ExitCodes,
};
use crate::text::{append_decimal, append_text, decimal, utf8};
use vstd::prelude::*;

verus! {

/// Bytes of a job's log that are kept.
pub const RESIDENT_LOG_BYTES: usize = 65536;

/// Tasks that are never resident jobs.
pub const FIXED_TASKS: usize = 3;

/// Resident jobs that fit where there are `tasks` tasks at most.
pub fn resident_capacity(tasks: usize) -> (capacity: usize)
    requires
        tasks >= FIXED_TASKS,
    ensures
        capacity == tasks - FIXED_TASKS,
{
    tasks - FIXED_TASKS
}

/// Whether another job finds room. Jobs that ended count until they are
/// collected.
pub fn job_room(jobs: usize, capacity: usize) -> (room: bool)
    ensures
        room == (jobs < capacity),
{
    jobs < capacity
}

/// Who a resident job belongs to.
#[derive(Clone, Copy, Debug, PartialEq, Eq, Structural)]
pub enum ResidentOwner {
    /// The session.
    Session,
    /// A configured service.
    Service(u32),
}

/// What is seen of a resident job.
#[derive(Debug)]
pub struct JobView {
    /// Job number.
    pub id: u32,
    /// Owner.
    pub owner: ResidentOwner,
    /// Command line.
    pub command: Vec<u8>,
    /// Whether it has ended.
    pub ended: bool,
    /// Whether it was asked to stop.
    pub cancel_requested: bool,
    /// Whether it waits.
    pub blocked: bool,
}

impl JobView {
    /// The job's state in a word.
    pub open spec fn state(self) -> &'static str {
        if self.ended {
            "done"
        } else if self.cancel_requested {
            "stopping"
        } else if self.blocked {
            "blocked"
        } else {
            "running"
        }
    }

    /// The job in a list.
    pub open spec fn text(self) -> Seq<u8> {
        utf8("[") + decimal(self.id as nat) + utf8("] ") + utf8(self.state()) + utf8(" ")
            + self.command@ + utf8("\n")
    }

    /// Format the job for a list.
    pub fn line(&self) -> (line: Vec<u8>)
        ensures
            line@ == self.text(),
    {
        let mut line: Vec<u8> = Vec::new();
        append_text(&mut line, "[");
        append_decimal(&mut line, self.id as u64);
        append_text(&mut line, "] ");
        let state = if self.ended {
            "done"
        } else if self.cancel_requested {
            "stopping"
        } else if self.blocked {
            "blocked"
        } else {
            "running"
        };
        append_text(&mut line, state);
        append_text(&mut line, " ");
        append_bytes(&mut line, self.command.as_slice());
        append_text(&mut line, "\n");
        assert(line@ =~= self.text());
        line
    }
}

/// The lines of the session's jobs among the first `n`.
pub open spec fn session_lines(jobs: Seq<JobView>, n: int) -> Seq<Seq<u8>>
    decreases n,
{
    if n <= 0 {
        Seq::empty()
    } else if jobs[n - 1].owner == ResidentOwner::Session {
        session_lines(jobs, n - 1).push(jobs[n - 1].text())
    } else {
        session_lines(jobs, n - 1)
    }
}

/// The bytes of each line.
pub open spec fn line_bytes(lines: Seq<Vec<u8>>) -> Seq<Seq<u8>> {
    Seq::new(lines.len(), |i: int| lines[i]@)
}

/// List the session's jobs, one line each.
pub fn list_jobs(jobs: &Vec<JobView>) -> (lines: Vec<Vec<u8>>)
    ensures
        line_bytes(lines@) == session_lines(jobs@, jobs@.len() as int),
{
    let mut lines: Vec<Vec<u8>> = Vec::new();
    let mut i: usize = 0;
    assert(line_bytes(lines@) =~= session_lines(jobs@, 0));
    while i < jobs.len()
        invariant
            i <= jobs@.len(),
            line_bytes(lines@) == session_lines(jobs@, i as int),
        decreases jobs@.len() - i,
    {
        let ghost before = lines@;
        if jobs[i].owner == ResidentOwner::Session {
            let line = jobs[i].line();
            lines.push(line);
            assert(line_bytes(lines@) =~= line_bytes(before).push(line@));
        }
        i = i + 1;
    }
    lines
}

/// What is said of a log whose beginning is lost.
pub open spec fn discarded_text(dropped: nat) -> Seq<u8> {
    utf8("[log: ") + decimal(dropped) + utf8(" earlier bytes discarded]\n")
}

/// A log as it is printed: a note on lost bytes, if any, and the bytes.
pub open spec fn log_text(bytes: Seq<u8>, dropped: nat) -> Seq<Seq<u8>> {
    if dropped == 0 {
        seq![bytes]
    } else {
        seq![discarded_text(dropped), bytes]
    }
}

/// Format a log.
pub fn format_log(bytes: Vec<u8>, dropped: u64) -> (parts: Vec<Vec<u8>>)
    ensures
        line_bytes(parts@) == log_text(bytes@, dropped as nat),
{
    let mut parts: Vec<Vec<u8>> = Vec::new();
    if dropped != 0 {
        let mut notice: Vec<u8> = Vec::new();
        append_text(&mut notice, "[log: ");
        append_decimal(&mut notice, dropped);
        append_text(&mut notice, " earlier bytes discarded]\n");
        assert(notice@ =~= discarded_text(dropped as nat));
        parts.push(notice);
    }
    parts.push(bytes);
    assert(line_bytes(parts@) =~= log_text(bytes@, dropped as nat));
    parts
}

/// What a request for a job's log leads to.
#[derive(Debug)]
pub enum LogReply {
    /// Print these parts, in order.
    Print(Vec<Vec<u8>>),
    /// A message of a command on standard error, and failure.
    Report(&'static str, &'static str),
}

/// Decide what a request for a job's log leads to. `buffer` tells whether there
/// is memory for a whole log; `found` are the bytes of the log and the number of
/// lost ones, of a job that is known.
pub fn copy_job_log(buffer: bool, found: Option<(Vec<u8>, u64)>) -> (reply: LogReply)
    ensures
        if !buffer {
            reply == LogReply::Report("log", "buffer allocation failed")
        } else {
            match found {
                Some((bytes, dropped)) => reply matches LogReply::Print(parts) && line_bytes(parts@)
                    == log_text(bytes@, dropped as nat),
                None => reply == LogReply::Report("log", "unknown job"),
            }
        },
{
    if !buffer {
        return LogReply::Report("log", "buffer allocation failed");
    }
    match found {
        Some((bytes, dropped)) => LogReply::Print(format_log(bytes, dropped)),
        None => LogReply::Report("log", "unknown job"),
    }
}

/// The status of a command that only prints.
pub fn printed_status(printed: bool) -> (status: CommandStatus)
    ensures
        status == (if printed {
            CommandStatus::Success
        } else {
            CommandStatus::Failure
        }),
{
    if printed {
        CommandStatus::Success
    } else {
        CommandStatus::Failure
    }
}

/// What a request about a job leads to.
#[derive(Debug)]
pub enum JobReply {
    /// A status.
    Status(CommandStatus),
    /// A message of a command on standard error, and failure.
    Report(&'static str, &'static str),
    /// The machine stops.
    Fatal(&'static str),
}

/// What cancelling a job leads to: an unknown job is reported; after the
/// request the resident processes are pumped, which must not fail.
pub open spec fn cancel_reply(known: bool, pumped: bool) -> JobReply {
    if !known {
        JobReply::Report("kill", "unknown job")
    } else if !pumped {
        JobReply::Fatal("fatal: resident cancellation failed\n")
    } else {
        JobReply::Status(CommandStatus::Success)
    }
}

/// Decide what cancelling a job leads to.
pub fn after_cancel(known: bool, pumped: bool) -> (reply: JobReply)
    ensures
        reply == cancel_reply(known, pumped),
{
    if !known {
        JobReply::Report("kill", "unknown job")
    } else if !pumped {
        JobReply::Fatal("fatal: resident cancellation failed\n")
    } else {
        JobReply::Status(CommandStatus::Success)
    }
}

/// What waiting for a job does next.
#[derive(Debug)]
pub enum WaitAction {
    /// Ask the job to stop, then pump the resident processes and wait for an
    /// event, this many milliseconds at most.
    CancelAndPump(u32),
    /// Pump the resident processes and wait for an event, this many
    /// milliseconds at most.
    Pump(u32),
    /// Print the log, then collect the job.
    PrintAndCollect,
    /// Collect the job.
    Collect,
    /// A message of a command on standard error, and failure.
    Report(&'static str, &'static str),
    /// The machine stops.
    Fatal(&'static str),
}

/// The name of the command that waits.
pub open spec fn waiter(foreground: bool) -> &'static str {
    if foreground {
        "fg"
    } else {
        "wait"
    }
}

/// What waiting for a job does next. `ended` tells whether the job has ended; it
/// is `None` for an unknown job. The first look reports such a job; on a later
/// one the waiting is over, as it is for a job that has ended.
pub open spec fn wait_next(
    foreground: bool,
    first: bool,
    ended: Option<bool>,
    interrupted: bool,
) -> WaitAction {
    match ended {
        None if first => WaitAction::Report(waiter(foreground), "unknown job"),
        None | Some(true) => if foreground {
            WaitAction::PrintAndCollect
        } else {
            WaitAction::Collect
        },
        Some(false) => if interrupted {
            WaitAction::CancelAndPump(RESIDENT_POLL_MILLISECONDS)
        } else {
            WaitAction::Pump(RESIDENT_POLL_MILLISECONDS)
        },
    }
}

/// Decide what waiting for a job does next.
pub fn continue_wait(foreground: bool, first: bool, ended: Option<bool>, interrupted: bool) -> (action:
    WaitAction)
    ensures
        action == wait_next(foreground, first, ended, interrupted),
{
    match ended {
        None if first => WaitAction::Report(
            if foreground {
                "fg"
            } else {
                "wait"
            },
            "unknown job",
        ),
        None | Some(true) => if foreground {
            WaitAction::PrintAndCollect
        } else {
            WaitAction::Collect
        },
        Some(false) => if interrupted {
            WaitAction::CancelAndPump(RESIDENT_POLL_MILLISECONDS)
        } else {
            WaitAction::Pump(RESIDENT_POLL_MILLISECONDS)
        },
    }
}

/// What a failed pump leads to while waiting.
pub fn wait_pump_failed() -> (reply: JobReply)
    ensures
        reply == JobReply::Fatal("fatal: resident wait failed\n"),
{
    JobReply::Fatal("fatal: resident wait failed\n")
}

/// What a collected job leads to; `None` is a job that cannot be collected.
pub open spec fn collected(
    codes: ExitCodes,
    foreground: bool,
    outcome: Option<ApplicationOutcome>,
) -> JobReply {
    match outcome {
        Some(ApplicationOutcome::Exited(code)) => JobReply::Status(status_of(codes, code)),
        Some(ApplicationOutcome::Faulted(_)) => JobReply::Status(CommandStatus::Failure),
        None => JobReply::Report(waiter(foreground), "job did not become terminal"),
    }
}

/// Decide what a collected job leads to.
pub fn after_collect(codes: ExitCodes, foreground: bool, outcome: Option<ApplicationOutcome>) -> (reply:
    JobReply)
    ensures
        reply == collected(codes, foreground, outcome),
{
    match outcome {
        Some(ApplicationOutcome::Exited(code)) => JobReply::Status(command_status(codes, code)),
        Some(ApplicationOutcome::Faulted(_)) => JobReply::Status(CommandStatus::Failure),
        None => JobReply::Report(
            if foreground {
                "fg"
            } else {
                "wait"
            },
            "job did not become terminal",
        ),
    }
}

/// A job that ended is done, whatever else holds of it; one that was asked to
/// stop is stopping; one that waits is blocked; any other is running. Its line
/// shows its number, its state and its command.
pub proof fn jobs_are_listed_by_their_state(job: JobView)
    ensures
        job.ended ==> job.state() == "done",
        !job.ended && job.cancel_requested ==> job.state() == "stopping",
        !job.ended && !job.cancel_requested && job.blocked ==> job.state() == "blocked",
        !job.ended && !job.cancel_requested && !job.blocked ==> job.state() == "running",
        job.text() == utf8("[") + decimal(job.id as nat) + utf8("] ") + utf8(job.state()) + utf8(
            " ",
        ) + job.command@ + utf8("\n"),
{
}

/// The list holds a line for each job of the session, in order, and none for a
/// job of a service.
pub proof fn only_jobs_of_the_session_are_listed(jobs: Seq<JobView>, n: int)
    requires
        0 < n <= jobs.len(),
    ensures
        session_lines(jobs, 0) == Seq::<Seq<u8>>::empty(),
        jobs[n - 1].owner is Service ==> session_lines(jobs, n) == session_lines(jobs, n - 1),
        jobs[n - 1].owner is Session ==> {
            &&& session_lines(jobs, n).len() == session_lines(jobs, n - 1).len() + 1
            &&& session_lines(jobs, n).last() == jobs[n - 1].text()
            &&& session_lines(jobs, n).drop_last() == session_lines(jobs, n - 1)
        },
{
    if jobs[n - 1].owner is Session {
        assert(session_lines(jobs, n).drop_last() =~= session_lines(jobs, n - 1));
    }
}

/// The bytes of a log are printed last and unchanged; a note comes before them
/// exactly where bytes were lost, and says how many.
pub proof fn logs_are_printed_behind_their_note(bytes: Seq<u8>, dropped: nat)
    ensures
        log_text(bytes, dropped).last() == bytes,
        log_text(bytes, 0).len() == 1,
        dropped > 0 ==> log_text(bytes, dropped).len() == 2 && log_text(bytes, dropped)[0] == utf8(
            "[log: ",
        ) + decimal(dropped) + utf8(" earlier bytes discarded]\n"),
{
}

/// Cancelling an unknown job is reported, cancelling a known one succeeds once
/// the resident processes ran, and stops the machine where they could not.
pub proof fn cancelling_reports_unknown_jobs(pumped: bool)
    ensures
        cancel_reply(false, pumped) == JobReply::Report("kill", "unknown job"),
        cancel_reply(true, true) == JobReply::Status(CommandStatus::Success),
        cancel_reply(true, false) == JobReply::Fatal("fatal: resident cancellation failed\n"),
{
}

/// Waiting goes on while the job has not ended, ten milliseconds at a time, and
/// asks it to stop exactly where the user interrupted. It is over once the job
/// ended or is gone; in the foreground the log is printed then. An unknown job
/// is reported at the first look only, under the name of the command.
pub proof fn waiting_lasts_until_the_job_ended(foreground: bool, first: bool, interrupted: bool)
    ensures
        wait_next(foreground, first, Some(false), true) == WaitAction::CancelAndPump(10),
        wait_next(foreground, first, Some(false), false) == WaitAction::Pump(10),
        wait_next(true, first, Some(true), interrupted) == WaitAction::PrintAndCollect,
        wait_next(false, first, Some(true), interrupted) == WaitAction::Collect,
        wait_next(true, false, None, interrupted) == WaitAction::PrintAndCollect,
        wait_next(false, false, None, interrupted) == WaitAction::Collect,
        wait_next(true, true, None, interrupted) == WaitAction::Report("fg", "unknown job"),
        wait_next(false, true, None, interrupted) == WaitAction::Report("wait", "unknown job"),
{
}

/// A collected job leaves the status of its exit code, and failure where it
/// faulted; one that cannot be collected is reported.
pub proof fn collected_jobs_leave_their_status(
    codes: ExitCodes,
    foreground: bool,
    outcome: Option<ApplicationOutcome>,
)
    ensures
        (outcome matches Some(ApplicationOutcome::Exited(code)) ==> collected(
            codes,
            foreground,
            outcome,
        ) == JobReply::Status(status_of(codes, code))),
        (outcome matches Some(ApplicationOutcome::Faulted(_)) ==> collected(
            codes,
            foreground,
            outcome,
        ) == JobReply::Status(CommandStatus::Failure)),
        collected(codes, true, None) == JobReply::Report("fg", "job did not become terminal"),
        collected(codes, false, None) == JobReply::Report("wait", "job did not become terminal"),
{
}

} // verus!
