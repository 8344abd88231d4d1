//! How an application ends and what is said about it.

use crate::bytes::append_bytes;
use crate::text::{append_text, utf8};
use vstd::prelude::*;

verus! {

/// Status of a finished command.
#[derive(Clone, Copy, Debug, PartialEq, Eq, Structural)]
pub enum CommandStatus {
    /// It did what it was asked.
    Success,
    /// It was called wrongly.
    Usage,
    /// Something was not found.
    NotFound,
    /// Something was not allowed.
    Denied,
    /// It was cancelled.
    Cancelled,
    /// Anything else.
    Failure,
}

/// Why an application was stopped.
#[derive(Clone, Copy, Debug, PartialEq, Eq, Structural)]
pub enum TaskFault {
    /// A page was not mapped.
    Translation,
    /// A page did not allow the access.
    Permission,
    /// An instruction was not allowed.
    IllegalInstruction,
    /// A call was malformed.
    InvalidCall,
    /// It did not yield in time.
    ExecutionLeaseExpired,
    /// It made too many calls.
    ServiceCallLimitExceeded,
}

/// How an application ended.
#[derive(Clone, Copy, Debug, PartialEq, Eq, Structural)]
pub enum ApplicationOutcome {
    /// It ended with an exit code.
    Exited(u32),
    /// It was stopped.
    Faulted(TaskFault),
}

/// The exit codes that stand for a status.
#[derive(Clone, Copy, Debug, PartialEq, Eq, Structural)]
pub struct ExitCodes {
    /// Success.
    pub success: u32,
    /// Wrong usage.
    pub usage: u32,
    /// Not found.
    pub not_found: u32,
    /// Denied.
    pub denied: u32,
    /// Cancelled.
    pub cancelled: u32,
}

/// The status that an exit code stands for.
pub open spec fn status_of(codes: ExitCodes, code: u32) -> CommandStatus {
    if code == codes.success {
        CommandStatus::Success
    } else if code == codes.usage {
        CommandStatus::Usage
    } else if code == codes.not_found {
        CommandStatus::NotFound
    } else if code == codes.denied {
        CommandStatus::Denied
    } else if code == codes.cancelled {
        CommandStatus::Cancelled
    } else {
        CommandStatus::Failure
    }
}

/// The status that an exit code stands for.
pub fn command_status(codes: ExitCodes, code: u32) -> (status: CommandStatus)
    ensures
        status == status_of(codes, code),
{
    if code == codes.success {
        CommandStatus::Success
    } else if code == codes.usage {
        CommandStatus::Usage
    } else if code == codes.not_found {
        CommandStatus::NotFound
    } else if code == codes.denied {
        CommandStatus::Denied
    } else if code == codes.cancelled {
        CommandStatus::Cancelled
    } else {
        CommandStatus::Failure
    }
}

/// What is said of a stopped application.
pub open spec fn fault_text(fault: TaskFault) -> &'static str {
    match fault {
        TaskFault::Translation => "application faulted: translation",
        TaskFault::Permission => "application faulted: permission",
        TaskFault::IllegalInstruction => "application faulted: illegal instruction",
        TaskFault::InvalidCall => "application faulted: invalid call",
        TaskFault::ExecutionLeaseExpired => "application faulted: execution lease expired",
        TaskFault::ServiceCallLimitExceeded => "application faulted: service call limit exceeded",
    }
}

/// What is said of a stopped application.
pub fn fault_message(fault: TaskFault) -> (text: &'static str)
    ensures
        text == fault_text(fault),
{
    match fault {
        TaskFault::Translation => "application faulted: translation",
        TaskFault::Permission => "application faulted: permission",
        TaskFault::IllegalInstruction => "application faulted: illegal instruction",
        TaskFault::InvalidCall => "application faulted: invalid call",
        TaskFault::ExecutionLeaseExpired => "application faulted: execution lease expired",
        TaskFault::ServiceCallLimitExceeded => "application faulted: service call limit exceeded",
    }
}

/// A message of a command.
pub open spec fn error_text(command: Seq<u8>, message: Seq<u8>) -> Seq<u8> {
    command + utf8(": ") + message + utf8("\n")
}

/// Format a message of a command.
pub fn error_line(command: &[u8], message: &str) -> (line: Vec<u8>)
    ensures
        line@ == error_text(command@, utf8(message)),
{
    let mut line: Vec<u8> = Vec::new();
    append_bytes(&mut line, command);
    append_text(&mut line, ": ");
    append_text(&mut line, message);
    append_text(&mut line, "\n");
    assert(line@ =~= error_text(command@, utf8(message)));
    line
}

/// What a finished foreground application leads to.
#[derive(Debug)]
pub enum Conclusion {
    /// Only a status.
    Silent(CommandStatus),
    /// A message on standard error and failure.
    Spoken(&'static str),
}

/// What a finished foreground application leads to; `None` is an application
/// that could not be run to its end.
pub open spec fn conclusion(codes: ExitCodes, outcome: Option<ApplicationOutcome>) -> Conclusion {
    match outcome {
        Some(ApplicationOutcome::Exited(code)) => Conclusion::Silent(status_of(codes, code)),
        Some(ApplicationOutcome::Faulted(fault)) => Conclusion::Spoken(fault_text(fault)),
        None => Conclusion::Spoken("application rejected"),
    }
}

/// Decide what a finished foreground application leads to.
pub fn conclude(codes: ExitCodes, outcome: Option<ApplicationOutcome>) -> (result: Conclusion)
    ensures
        result == conclusion(codes, outcome),
{
    match outcome {
        Some(ApplicationOutcome::Exited(code)) => Conclusion::Silent(command_status(codes, code)),
        Some(ApplicationOutcome::Faulted(fault)) => Conclusion::Spoken(fault_message(fault)),
        None => Conclusion::Spoken("application rejected"),
    }
}

/// An exit code stands for the status of its name, and a code without a name for
/// failure.
pub proof fn exit_codes_stand_for_their_status(codes: ExitCodes, code: u32)
    requires
        codes.success != codes.usage,
        codes.success != codes.not_found,
        codes.success != codes.denied,
        codes.success != codes.cancelled,
        codes.usage != codes.not_found,
        codes.usage != codes.denied,
        codes.usage != codes.cancelled,
        codes.not_found != codes.denied,
        codes.not_found != codes.cancelled,
        codes.denied != codes.cancelled,
    ensures
        status_of(codes, codes.success) == CommandStatus::Success,
        status_of(codes, codes.usage) == CommandStatus::Usage,
        status_of(codes, codes.not_found) == CommandStatus::NotFound,
        status_of(codes, codes.denied) == CommandStatus::Denied,
        status_of(codes, codes.cancelled) == CommandStatus::Cancelled,
        code != codes.success && code != codes.usage && code != codes.not_found && code
            != codes.denied && code != codes.cancelled ==> status_of(codes, code)
            == CommandStatus::Failure,
{
}

/// An application that ended says nothing and leaves the status of its code; one
/// that faulted, or could not be run, is spoken of, each fault in its own words.
pub proof fn ends_are_spoken_of_by_kind(codes: ExitCodes, code: u32)
    ensures
        conclusion(codes, Some(ApplicationOutcome::Exited(code))) == Conclusion::Silent(
            status_of(codes, code),
        ),
        conclusion(codes, None) == Conclusion::Spoken("application rejected"),
        conclusion(codes, Some(ApplicationOutcome::Faulted(TaskFault::Translation)))
            == Conclusion::Spoken("application faulted: translation"),
        conclusion(codes, Some(ApplicationOutcome::Faulted(TaskFault::Permission)))
            == Conclusion::Spoken("application faulted: permission"),
        conclusion(codes, Some(ApplicationOutcome::Faulted(TaskFault::IllegalInstruction)))
            == Conclusion::Spoken("application faulted: illegal instruction"),
        conclusion(codes, Some(ApplicationOutcome::Faulted(TaskFault::InvalidCall)))
            == Conclusion::Spoken("application faulted: invalid call"),
        conclusion(codes, Some(ApplicationOutcome::Faulted(TaskFault::ExecutionLeaseExpired)))
            == Conclusion::Spoken("application faulted: execution lease expired"),
        conclusion(codes, Some(ApplicationOutcome::Faulted(TaskFault::ServiceCallLimitExceeded)))
            == Conclusion::Spoken("application faulted: service call limit exceeded"),
{
}

/// A message names its command first and ends its line.
pub proof fn messages_name_their_command(command: Seq<u8>, message: Seq<u8>)
    ensures
        ({
            let text = error_text(command, message);
            let front = command + utf8(": ");
            &&& text.len() == front.len() + message.len() + utf8("\n").len()
            &&& text.take(command.len() as int) == command
            &&& text.subrange(command.len() as int, front.len() as int) == utf8(": ")
            &&& text.subrange(front.len() as int, (front.len() + message.len()) as int) == message
            &&& text.skip((front.len() + message.len()) as int) == utf8("\n")
        }),
{
    let text = error_text(command, message);
    let front = command + utf8(": ");
    assert(text.take(command.len() as int) =~= command);
    assert(text.subrange(command.len() as int, front.len() as int) =~= utf8(": "));
    assert(text.subrange(front.len() as int, (front.len() + message.len()) as int) =~= message);
    assert(text.skip((front.len() + message.len()) as int) =~= utf8("\n"));
}

} // verus!
