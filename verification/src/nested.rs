//! Standard streams of the children that an application spawns.

use crate::reply::ReplyStatus;
use vstd::prelude::*;

verus! {

/// How a parent sets a child's stream.
#[derive(Clone, Copy, Debug, PartialEq, Eq, Structural)]
pub enum StreamMode {
    /// The parent's own stream.
    Inherit,
    /// Nothing.
    Null,
    /// A pipe of the parent.
    Pipe,
}

/// Where a child's input comes from.
#[derive(Clone, Copy, Debug, PartialEq, Eq, Structural)]
pub enum NestedInput {
    /// Nowhere.
    Empty,
    /// The parent's input.
    Borrowed,
    /// A pipe.
    Pipe {
        /// Owner.
        owner: u64,
        /// Token.
        token: u64,
    },
}

/// Where a child's output goes.
#[derive(Clone, Copy, Debug, PartialEq, Eq, Structural)]
pub enum NestedOutput {
    /// Nowhere.
    Discard,
    /// The parent's output.
    Borrowed,
    /// A job's log.
    Log,
    /// A pipe.
    Pipe {
        /// Owner.
        owner: u64,
        /// Token.
        token: u64,
    },
}

/// What a look at the pipe that a parent named found.
#[derive(Clone, Copy, Debug, PartialEq, Eq, Structural)]
pub enum PipeCheck {
    /// The number is no token.
    NoToken,
    /// The table is in use elsewhere.
    Busy,
    /// The pipe cannot be used so.
    Error(ReplyStatus),
    /// The pipe with this token can be used.
    Usable(u64),
}

/// The pipe of a check, or the status of its refusal.
pub open spec fn usable_token(check: PipeCheck) -> Result<u64, ReplyStatus> {
    match check {
        PipeCheck::NoToken => Err(ReplyStatus::InvalidRequest),
        PipeCheck::Busy => Err(ReplyStatus::Conflict),
        PipeCheck::Error(status) => Err(status),
        PipeCheck::Usable(token) => Ok(token),
    }
}

fn token_of(check: PipeCheck) -> (token: Result<u64, ReplyStatus>)
    ensures
        token == usable_token(check),
{
    match check {
        PipeCheck::NoToken => Err(ReplyStatus::InvalidRequest),
        PipeCheck::Busy => Err(ReplyStatus::Conflict),
        PipeCheck::Error(status) => Err(status),
        PipeCheck::Usable(token) => Ok(token),
    }
}

/// A child's input. `terminal` tells whether the parent's borrowed input is the
/// session terminal; it is `None` while that input is in use elsewhere.
pub open spec fn input_for(
    mode: StreamMode,
    inherited: NestedInput,
    terminal: Option<bool>,
    owner: u64,
    check: PipeCheck,
) -> Result<NestedInput, ReplyStatus> {
    match mode {
        StreamMode::Inherit => if inherited == NestedInput::Borrowed {
            match terminal {
                None => Err(ReplyStatus::Conflict),
                Some(true) => Ok(NestedInput::Empty),
                Some(false) => Ok(inherited),
            }
        } else {
            Ok(inherited)
        },
        StreamMode::Null => Ok(NestedInput::Empty),
        StreamMode::Pipe => match usable_token(check) {
            Ok(token) => Ok(NestedInput::Pipe { owner, token }),
            Err(status) => Err(status),
        },
    }
}

/// Decide where a child's input comes from.
pub fn nested_input_for_spawn(
    mode: StreamMode,
    inherited: NestedInput,
    terminal: Option<bool>,
    owner: u64,
    check: PipeCheck,
) -> (input: Result<NestedInput, ReplyStatus>)
    ensures
        input == input_for(mode, inherited, terminal, owner, check),
{
    match mode {
        StreamMode::Inherit => match inherited {
            NestedInput::Borrowed => match terminal {
                None => Err(ReplyStatus::Conflict),
                Some(true) => Ok(NestedInput::Empty),
                Some(false) => Ok(inherited),
            },
            _ => Ok(inherited),
        },
        StreamMode::Null => Ok(NestedInput::Empty),
        StreamMode::Pipe => match token_of(check) {
            Ok(token) => Ok(NestedInput::Pipe { owner, token }),
            Err(status) => Err(status),
        },
    }
}

/// A child's output.
pub open spec fn output_for(
    mode: StreamMode,
    inherited: NestedOutput,
    owner: u64,
    check: PipeCheck,
) -> Result<NestedOutput, ReplyStatus> {
    match mode {
        StreamMode::Inherit => Ok(inherited),
        StreamMode::Null => Ok(NestedOutput::Discard),
        StreamMode::Pipe => match usable_token(check) {
            Ok(token) => Ok(NestedOutput::Pipe { owner, token }),
            Err(status) => Err(status),
        },
    }
}

/// Decide where a child's output goes.
pub fn nested_output_for_spawn(
    mode: StreamMode,
    inherited: NestedOutput,
    owner: u64,
    check: PipeCheck,
) -> (output: Result<NestedOutput, ReplyStatus>)
    ensures
        output == output_for(mode, inherited, owner, check),
{
    match mode {
        StreamMode::Inherit => Ok(inherited),
        StreamMode::Null => Ok(NestedOutput::Discard),
        StreamMode::Pipe => match token_of(check) {
            Ok(token) => Ok(NestedOutput::Pipe { owner, token }),
            Err(status) => Err(status),
        },
    }
}

/// The session terminal is never handed on: no child reads it, whatever it
/// asks for.
pub proof fn the_terminal_is_not_inherited(
    mode: StreamMode,
    inherited: NestedInput,
    owner: u64,
    check: PipeCheck,
)
    ensures
        input_for(mode, inherited, Some(true), owner, check) != Ok::<NestedInput, ReplyStatus>(
            NestedInput::Borrowed,
        ),
{
}

/// How a nested stream is served.
#[derive(Clone, Copy, Debug, PartialEq, Eq, Structural)]
pub enum NestedService {
    /// Input without bytes.
    EmptyInput,
    /// The parent's input.
    Input,
    /// Output that goes nowhere.
    DiscardOutput,
    /// The parent's output.
    Output,
    /// A job's log.
    Log,
    /// The reading end of a pipe, which is also bound as a stream that may
    /// wait.
    PipeReader {
        /// Owner.
        owner: u64,
        /// Token.
        token: u64,
    },
    /// The writing end of a pipe, which is also bound as a stream that may
    /// wait.
    PipeWriter {
        /// Owner.
        owner: u64,
        /// Token.
        token: u64,
    },
}

/// How a child's input is served.
pub fn nested_input_service(input: NestedInput) -> (service: NestedService)
    ensures
        service == (match input {
            NestedInput::Empty => NestedService::EmptyInput,
            NestedInput::Borrowed => NestedService::Input,
            NestedInput::Pipe { owner, token } => NestedService::PipeReader { owner, token },
        }),
{
    match input {
        NestedInput::Empty => NestedService::EmptyInput,
        NestedInput::Borrowed => NestedService::Input,
        NestedInput::Pipe { owner, token } => NestedService::PipeReader { owner, token },
    }
}

/// How a child's output is served.
pub fn nested_output_service(output: NestedOutput) -> (service: NestedService)
    ensures
        service == (match output {
            NestedOutput::Discard => NestedService::DiscardOutput,
            NestedOutput::Borrowed => NestedService::Output,
            NestedOutput::Log => NestedService::Log,
            NestedOutput::Pipe { owner, token } => NestedService::PipeWriter { owner, token },
        }),
{
    match output {
        NestedOutput::Discard => NestedService::DiscardOutput,
        NestedOutput::Borrowed => NestedService::Output,
        NestedOutput::Log => NestedService::Log,
        NestedOutput::Pipe { owner, token } => NestedService::PipeWriter { owner, token },
    }
}

/// Bind a served pipe end as a stream that may wait; other services are not
/// bound.
pub fn bind_stream(
    streams: &mut Vec<crate::deferred::prepare::StreamBinding>,
    interface: u32,
    service: NestedService,
)
    ensures
        final(streams)@ == (match service {
            NestedService::PipeReader { token, .. } | NestedService::PipeWriter { token, .. } =>
                old(streams)@.push(
                crate::deferred::prepare::StreamBinding { interface, token },
            ),
            _ => old(streams)@,
        }),
{
    match service {
        NestedService::PipeReader { token, .. } | NestedService::PipeWriter { token, .. } => {
            streams.push(crate::deferred::prepare::StreamBinding { interface, token });
        },
        _ => {},
    }
}

/// A child's stream is what it was asked to be: inherited, nothing, or a pipe of
/// the parent that can be used. A pipe that cannot be used is refused for its
/// reason.
pub proof fn child_streams_are_as_asked(
    input: NestedInput,
    output: NestedOutput,
    terminal: Option<bool>,
    owner: u64,
    token: u64,
    check: PipeCheck,
    status: ReplyStatus,
)
    ensures
        input_for(StreamMode::Null, input, terminal, owner, check) == Ok::<
            NestedInput,
            ReplyStatus,
        >(NestedInput::Empty),
        output_for(StreamMode::Null, output, owner, check) == Ok::<NestedOutput, ReplyStatus>(
            NestedOutput::Discard,
        ),
        output_for(StreamMode::Inherit, output, owner, check) == Ok::<NestedOutput, ReplyStatus>(
            output,
        ),
        input != NestedInput::Borrowed ==> input_for(
            StreamMode::Inherit,
            input,
            terminal,
            owner,
            check,
        ) == Ok::<NestedInput, ReplyStatus>(input),
        input_for(StreamMode::Inherit, NestedInput::Borrowed, Some(false), owner, check) == Ok::<
            NestedInput,
            ReplyStatus,
        >(NestedInput::Borrowed),
        input_for(StreamMode::Inherit, NestedInput::Borrowed, Some(true), owner, check) == Ok::<
            NestedInput,
            ReplyStatus,
        >(NestedInput::Empty),
        input_for(StreamMode::Inherit, NestedInput::Borrowed, None, owner, check) == Err::<
            NestedInput,
            ReplyStatus,
        >(ReplyStatus::Conflict),
        input_for(StreamMode::Pipe, input, terminal, owner, PipeCheck::Usable(token)) == Ok::<
            NestedInput,
            ReplyStatus,
        >(NestedInput::Pipe { owner, token }),
        output_for(StreamMode::Pipe, output, owner, PipeCheck::Usable(token)) == Ok::<
            NestedOutput,
            ReplyStatus,
        >(NestedOutput::Pipe { owner, token }),
        input_for(StreamMode::Pipe, input, terminal, owner, PipeCheck::NoToken) == Err::<
            NestedInput,
            ReplyStatus,
        >(ReplyStatus::InvalidRequest),
        output_for(StreamMode::Pipe, output, owner, PipeCheck::NoToken) == Err::<
            NestedOutput,
            ReplyStatus,
        >(ReplyStatus::InvalidRequest),
        input_for(StreamMode::Pipe, input, terminal, owner, PipeCheck::Busy) == Err::<
            NestedInput,
            ReplyStatus,
        >(ReplyStatus::Conflict),
        output_for(StreamMode::Pipe, output, owner, PipeCheck::Busy) == Err::<
            NestedOutput,
            ReplyStatus,
        >(ReplyStatus::Conflict),
        input_for(StreamMode::Pipe, input, terminal, owner, PipeCheck::Error(status)) == Err::<
            NestedInput,
            ReplyStatus,
        >(status),
        output_for(StreamMode::Pipe, output, owner, PipeCheck::Error(status)) == Err::<
            NestedOutput,
            ReplyStatus,
        >(status),
{
}

} // verus!
