//! Deciding whether a call is answered at once, waits, or is not a waiting
//! call at all.

use crate::reply::ReplyStatus;
use vstd::prelude::*;

verus! {

/// Milliseconds that a call waits for a datagram.
pub const DATAGRAM_WAIT_MILLISECONDS: u64 = 4000;

/// The numbers of interfaces and operations that may wait.
#[derive(Clone, Copy, Debug, PartialEq, Eq, Structural)]
pub struct DeferredCodes {
    /// Interface for launching processes.
    pub process_launch: u32,
    /// Interface for pipes.
    pub pipe: u32,
    /// Standard input.
    pub standard_input: u32,
    /// Standard output.
    pub standard_output: u32,
    /// Standard error.
    pub standard_error: u32,
    /// Interface for timers.
    pub timer: u32,
    /// Interface for diagnostics.
    pub diagnostics: u32,
    /// Interface for datagrams.
    pub datagram: u32,
    /// Waiting for a child.
    pub child_wait: u16,
    /// Reading a pipe.
    pub pipe_read: u16,
    /// Writing a pipe.
    pub pipe_write: u16,
    /// Reading a stream.
    pub stream_read: u16,
    /// Writing a stream.
    pub stream_write: u16,
    /// Sleeping.
    pub sleep_until: u16,
    /// Taking a snapshot.
    pub get_snapshot: u16,
    /// Receiving a datagram.
    pub receive: u16,
    /// Identity of the session terminal among awaited things.
    pub terminal_identity: u64,
}

/// A standard stream that is a pipe.
#[derive(Clone, Copy, Debug, PartialEq, Eq, Structural)]
pub struct StreamBinding {
    /// Interface of the stream.
    pub interface: u32,
    /// Token of the pipe.
    pub token: u64,
}

/// What an application has for calls that may wait.
#[derive(Debug)]
pub struct DeferredServices {
    /// Owner of children and pipes.
    pub owner: Option<u64>,
    /// Whether there is a table of children.
    pub children: bool,
    /// Whether there is a table of pipes.
    pub pipes: bool,
    /// Whether it holds the session terminal.
    pub terminal: bool,
    /// Whether it holds a diagnostics snapshot.
    pub diagnostics: bool,
    /// Whether it has datagram sockets.
    pub datagram: bool,
    /// Standard streams that are pipes.
    pub streams: Vec<StreamBinding>,
}

/// A call of an application.
#[derive(Clone, Copy, Debug, PartialEq, Eq, Structural)]
pub struct CallRequest {
    /// Calling task.
    pub task: u64,
    /// Interface.
    pub interface: u32,
    /// Operation.
    pub opcode: u16,
    /// Bytes of the request.
    pub payload_bytes: usize,
}

/// Where a waiting read or write goes.
#[derive(Clone, Copy, Debug, PartialEq, Eq, Structural)]
pub enum PipeTarget {
    /// A pipe of an owner.
    Owned {
        /// Owner.
        owner: u64,
        /// Token.
        token: u64,
    },
    /// A standard stream.
    Stream {
        /// Token.
        token: u64,
    },
}

/// A call that waits.
#[derive(Clone, Copy, Debug, PartialEq, Eq, Structural)]
pub enum DeferredKind {
    /// For a time.
    Timer {
        /// Time.
        deadline: u64,
    },
    /// For a datagram.
    Datagram {
        /// Local port.
        port: u16,
        /// Time after which it no longer waits.
        deadline: u64,
    },
    /// For the diagnostics server.
    Diagnostics,
    /// For the end of a child.
    Child {
        /// Owner of the child.
        owner: u64,
        /// Token of the child.
        token: u64,
    },
    /// For bytes of a pipe.
    PipeRead {
        /// Pipe.
        target: PipeTarget,
        /// Most bytes.
        maximum: usize,
    },
    /// For room in a pipe.
    PipeWrite {
        /// Pipe.
        target: PipeTarget,
        /// Bytes to write.
        byte_count: usize,
    },
    /// For input.
    TerminalRead {
        /// Most bytes.
        maximum: usize,
    },
}

/// What a call waits on.
#[derive(Clone, Copy, Debug, PartialEq, Eq, Structural)]
pub enum Awaited {
    /// Nothing but time.
    OnlyTime,
    /// A thing with an identity, for an owner or task.
    Thing {
        /// Identity.
        identity: u64,
        /// Owner or task.
        holder: u64,
    },
    /// The call's own operation.
    OwnOperation,
}

/// How a call waits.
#[derive(Clone, Copy, Debug, PartialEq, Eq, Structural)]
pub struct Block {
    /// What it waits on.
    pub awaited: Awaited,
    /// Time after which it is woken, if any.
    pub deadline: Option<u64>,
    /// What it is.
    pub kind: DeferredKind,
}

/// What is to be decoded from a request.
#[derive(Clone, Copy, Debug, PartialEq, Eq, Structural)]
pub enum Decode {
    /// A child.
    Child {
        /// Owner.
        owner: u64,
    },
    /// A read of a pipe.
    PipeRead {
        /// Owner.
        owner: u64,
    },
    /// A write to a pipe.
    PipeWrite {
        /// Owner.
        owner: u64,
    },
    /// A read of the session terminal.
    TerminalRead,
    /// A read of a standard stream.
    StreamRead {
        /// Token of its pipe.
        token: u64,
    },
    /// A time.
    Deadline,
    /// A port.
    Port,
}

/// What was decoded.
#[derive(Clone, Copy, Debug, PartialEq, Eq, Structural)]
pub enum Decoded {
    /// A token alone.
    Token(u64),
    /// A token and a number of bytes.
    TokenAndBytes(u64, usize),
    /// A number of bytes.
    Bytes(usize),
    /// A time.
    Time(u64),
    /// A port.
    Port(u16),
    /// The request is malformed.
    Malformed,
}

/// What is to be done before a call can be decided.
#[derive(Clone, Copy, Debug, PartialEq, Eq, Structural)]
pub enum Question {
    /// Look at a child.
    Child {
        /// Owner.
        owner: u64,
        /// Token.
        token: u64,
    },
    /// Read a pipe.
    ReadPipe {
        /// Pipe.
        target: PipeTarget,
        /// Most bytes.
        maximum: usize,
    },
    /// Write a pipe.
    WritePipe {
        /// Pipe.
        target: PipeTarget,
        /// Bytes to write.
        byte_count: usize,
    },
    /// Read the session terminal.
    ReadTerminal {
        /// Most bytes.
        maximum: usize,
    },
    /// Claim a port.
    ClaimPort {
        /// Port.
        port: u16,
    },
    /// Look for a datagram.
    Receive {
        /// Port.
        port: u16,
    },
}

/// What came of a question.
#[derive(Debug)]
pub enum Answer {
    /// The thing is in use elsewhere.
    Busy,
    /// An error with a status.
    Error(ReplyStatus),
    /// It would have to wait.
    WouldBlock,
    /// Bytes for the reply.
    Reply(Vec<u8>),
    /// The reply cannot be made.
    Unencodable,
    /// This many bytes were written.
    Written(usize),
    /// A port was claimed.
    Claimed(u16),
}

/// What is decided about a call.
#[derive(Debug)]
pub enum Prepared {
    /// It is not a waiting call.
    NotDeferred,
    /// It is answered with a status alone.
    Status(ReplyStatus),
    /// It succeeds with these bytes.
    Reply(Vec<u8>),
    /// Decode the request first.
    Decode(Decode),
    /// Do something first.
    Ask(Question),
    /// It waits.
    Block(Block),
    /// Something is inconsistent: the application ends.
    Broken,
}

/// The first stream bound to an interface.
pub open spec fn bound_stream(streams: Seq<StreamBinding>, interface: u32) -> Option<u64>
    decreases streams.len(),
{
    if streams.len() == 0 {
        None
    } else if streams[0].interface == interface {
        Some(streams[0].token)
    } else {
        bound_stream(streams.drop_first(), interface)
    }
}

fn find_stream(streams: &Vec<StreamBinding>, interface: u32) -> (token: Option<u64>)
    ensures
        token == bound_stream(streams@, interface),
{
    let mut i: usize = 0;
    assert(streams@.skip(0) =~= streams@);
    while i < streams.len()
        invariant
            i <= streams@.len(),
            bound_stream(streams@.skip(i as int), interface) == bound_stream(streams@, interface),
        decreases streams@.len() - i,
    {
        if streams[i].interface == interface {
            return Some(streams[i].token);
        }
        assert(streams@.skip(i as int).drop_first() =~= streams@.skip(i + 1));
        i = i + 1;
    }
    None
}

/// What a stream call leads to, or `None` where it does not wait.
pub open spec fn stream_route(
    codes: DeferredCodes,
    services: DeferredServices,
    request: CallRequest,
) -> Option<Prepared> {
    let is_stream = request.interface == codes.standard_input || request.interface
        == codes.standard_output || request.interface == codes.standard_error;
    match bound_stream(services.streams@, request.interface) {
        Some(token) if is_stream => if request.interface == codes.standard_input && request.opcode
            == codes.stream_read {
            Some(Prepared::Decode(Decode::StreamRead { token }))
        } else if (request.interface == codes.standard_output || request.interface
            == codes.standard_error) && request.opcode == codes.stream_write
            && request.payload_bytes > 0 {
            Some(
                Prepared::Ask(
                    Question::WritePipe {
                        target: PipeTarget::Stream { token },
                        byte_count: request.payload_bytes,
                    },
                ),
            )
        } else {
            None
        },
        _ => None,
    }
}

/// What a call that is neither about processes nor about streams leads to.
pub open spec fn other_route(
    codes: DeferredCodes,
    services: DeferredServices,
    request: CallRequest,
) -> Prepared {
    if request.interface == codes.timer && request.opcode == codes.sleep_until {
        Prepared::Decode(Decode::Deadline)
    } else if request.interface == codes.diagnostics {
        if request.opcode != codes.get_snapshot || request.payload_bytes > 0 {
            Prepared::Status(ReplyStatus::InvalidRequest)
        } else if !services.diagnostics {
            Prepared::Status(ReplyStatus::NotFound)
        } else {
            Prepared::Block(
                Block {
                    awaited: Awaited::OwnOperation,
                    deadline: None,
                    kind: DeferredKind::Diagnostics,
                },
            )
        }
    } else if request.interface == codes.datagram && request.opcode == codes.receive {
        Prepared::Decode(Decode::Port)
    } else {
        Prepared::NotDeferred
    }
}

/// The first decision about a call.
pub open spec fn route(
    codes: DeferredCodes,
    services: DeferredServices,
    request: CallRequest,
) -> Prepared {
    if request.interface == codes.process_launch && request.opcode == codes.child_wait {
        match services.owner {
            None => Prepared::Status(ReplyStatus::Conflict),
            Some(owner) => if services.children {
                Prepared::Decode(Decode::Child { owner })
            } else {
                Prepared::Status(ReplyStatus::NotFound)
            },
        }
    } else if request.interface == codes.pipe && (request.opcode == codes.pipe_read
        || request.opcode == codes.pipe_write) {
        match services.owner {
            None => Prepared::Status(ReplyStatus::Conflict),
            Some(owner) => if !services.pipes {
                Prepared::Status(ReplyStatus::NotFound)
            } else if request.opcode == codes.pipe_read {
                Prepared::Decode(Decode::PipeRead { owner })
            } else {
                Prepared::Decode(Decode::PipeWrite { owner })
            },
        }
    } else if request.interface == codes.standard_input && request.opcode == codes.stream_read
        && services.terminal {
        Prepared::Decode(Decode::TerminalRead)
    } else {
        match stream_route(codes, services, request) {
            Some(prepared) => prepared,
            None => other_route(codes, services, request),
        }
    }
}

/// Make the first decision about a call.
pub fn route_call(codes: &DeferredCodes, services: &DeferredServices, request: &CallRequest) -> (prepared:
    Prepared)
    ensures
        prepared == route(*codes, *services, *request),
{
    if request.interface == codes.process_launch && request.opcode == codes.child_wait {
        return match services.owner {
            None => Prepared::Status(ReplyStatus::Conflict),
            Some(owner) => if services.children {
                Prepared::Decode(Decode::Child { owner })
            } else {
                Prepared::Status(ReplyStatus::NotFound)
            },
        };
    }
    if request.interface == codes.pipe && (request.opcode == codes.pipe_read || request.opcode
        == codes.pipe_write) {
        return match services.owner {
            None => Prepared::Status(ReplyStatus::Conflict),
            Some(owner) => if !services.pipes {
                Prepared::Status(ReplyStatus::NotFound)
            } else if request.opcode == codes.pipe_read {
                Prepared::Decode(Decode::PipeRead { owner })
            } else {
                Prepared::Decode(Decode::PipeWrite { owner })
            },
        };
    }
    if request.interface == codes.standard_input && request.opcode == codes.stream_read
        && services.terminal {
        return Prepared::Decode(Decode::TerminalRead);
    }
    let input = request.interface == codes.standard_input;
    let output = request.interface == codes.standard_output || request.interface
        == codes.standard_error;
    if input || output {
        match find_stream(&services.streams, request.interface) {
            Some(token) => {
                if input && request.opcode == codes.stream_read {
                    return Prepared::Decode(Decode::StreamRead { token });
                }
                if output && request.opcode == codes.stream_write && request.payload_bytes > 0 {
                    return Prepared::Ask(
                        Question::WritePipe {
                            target: PipeTarget::Stream { token },
                            byte_count: request.payload_bytes,
                        },
                    );
                }
            },
            None => {},
        }
    }
    if request.interface == codes.timer && request.opcode == codes.sleep_until {
        return Prepared::Decode(Decode::Deadline);
    }
    if request.interface == codes.diagnostics {
        if request.opcode != codes.get_snapshot || request.payload_bytes > 0 {
            return Prepared::Status(ReplyStatus::InvalidRequest);
        }
        if !services.diagnostics {
            return Prepared::Status(ReplyStatus::NotFound);
        }
        return Prepared::Block(
            Block {
                awaited: Awaited::OwnOperation,
                deadline: None,
                kind: DeferredKind::Diagnostics,
            },
        );
    }
    if request.interface == codes.datagram && request.opcode == codes.receive {
        Prepared::Decode(Decode::Port)
    } else {
        Prepared::NotDeferred
    }
}

/// Whether a decoded value is of the kind that was to be decoded.
pub open spec fn decodes(wanted: Decode, decoded: Decoded) -> bool {
    match decoded {
        Decoded::Malformed => true,
        Decoded::Token(_) => wanted is Child,
        Decoded::TokenAndBytes(_, _) => wanted is PipeRead || wanted is PipeWrite,
        Decoded::Bytes(_) => wanted is TerminalRead || wanted is StreamRead,
        Decoded::Time(_) => wanted is Deadline,
        Decoded::Port(_) => wanted is Port,
    }
}

/// The decision about a call whose request is decoded at time `now`.
pub open spec fn after_decode(
    services: DeferredServices,
    wanted: Decode,
    decoded: Decoded,
    now: u64,
) -> Prepared {
    match (wanted, decoded) {
        (Decode::Child { owner }, Decoded::Token(token)) => Prepared::Ask(
            Question::Child { owner, token },
        ),
        (Decode::PipeRead { owner }, Decoded::TokenAndBytes(token, maximum)) => Prepared::Ask(
            Question::ReadPipe { target: PipeTarget::Owned { owner, token }, maximum },
        ),
        (Decode::PipeWrite { owner }, Decoded::TokenAndBytes(token, byte_count)) => Prepared::Ask(
            Question::WritePipe { target: PipeTarget::Owned { owner, token }, byte_count },
        ),
        (Decode::TerminalRead, Decoded::Bytes(maximum)) => Prepared::Ask(
            Question::ReadTerminal { maximum },
        ),
        (Decode::StreamRead { token }, Decoded::Bytes(maximum)) => Prepared::Ask(
            Question::ReadPipe { target: PipeTarget::Stream { token }, maximum },
        ),
        (Decode::Deadline, Decoded::Time(deadline)) => if deadline <= now {
            Prepared::Status(ReplyStatus::Success)
        } else {
            Prepared::Block(
                Block {
                    awaited: Awaited::OnlyTime,
                    deadline: Some(deadline),
                    kind: DeferredKind::Timer { deadline },
                },
            )
        },
        (Decode::Port, Decoded::Port(port)) => if services.datagram {
            Prepared::Ask(Question::ClaimPort { port })
        } else {
            Prepared::Status(ReplyStatus::NotFound)
        },
        _ => Prepared::Status(ReplyStatus::InvalidRequest),
    }
}

/// Decide about a call whose request is decoded at time `now`.
pub fn decoded_call(services: &DeferredServices, wanted: Decode, decoded: Decoded, now: u64) -> (prepared:
    Prepared)
    requires
        decodes(wanted, decoded),
    ensures
        prepared == after_decode(*services, wanted, decoded, now),
        (wanted matches Decode::PipeWrite { owner } ==> (decoded matches Decoded::TokenAndBytes(
            token,
            byte_count,
        ) ==> prepared == Prepared::Ask(
            Question::WritePipe { target: PipeTarget::Owned { owner, token }, byte_count },
        ))),
        (wanted matches Decode::PipeRead { owner } ==> (decoded matches Decoded::TokenAndBytes(
            token,
            maximum,
        ) ==> prepared == Prepared::Ask(
            Question::ReadPipe { target: PipeTarget::Owned { owner, token }, maximum },
        ))),
{
    match (wanted, decoded) {
        (Decode::Child { owner }, Decoded::Token(token)) => Prepared::Ask(
            Question::Child { owner, token },
        ),
        (Decode::PipeRead { owner }, Decoded::TokenAndBytes(token, maximum)) => Prepared::Ask(
            Question::ReadPipe { target: PipeTarget::Owned { owner, token }, maximum },
        ),
        (Decode::PipeWrite { owner }, Decoded::TokenAndBytes(token, byte_count)) => Prepared::Ask(
            Question::WritePipe { target: PipeTarget::Owned { owner, token }, byte_count },
        ),
        (Decode::TerminalRead, Decoded::Bytes(maximum)) => Prepared::Ask(
            Question::ReadTerminal { maximum },
        ),
        (Decode::StreamRead { token }, Decoded::Bytes(maximum)) => Prepared::Ask(
            Question::ReadPipe { target: PipeTarget::Stream { token }, maximum },
        ),
        (Decode::Deadline, Decoded::Time(deadline)) => if deadline <= now {
            Prepared::Status(ReplyStatus::Success)
        } else {
            Prepared::Block(
                Block {
                    awaited: Awaited::OnlyTime,
                    deadline: Some(deadline),
                    kind: DeferredKind::Timer { deadline },
                },
            )
        },
        (Decode::Port, Decoded::Port(port)) => if services.datagram {
            Prepared::Ask(Question::ClaimPort { port })
        } else {
            Prepared::Status(ReplyStatus::NotFound)
        },
        _ => Prepared::Status(ReplyStatus::InvalidRequest),
    }
}

/// `now` plus the time that a call waits for a datagram.
pub open spec fn datagram_deadline(now: u64) -> u64 {
    if now + DATAGRAM_WAIT_MILLISECONDS <= u64::MAX {
        (now + DATAGRAM_WAIT_MILLISECONDS) as u64
    } else {
        u64::MAX
    }
}

/// How a call waits that a question found not ready.
pub open spec fn blocked(codes: DeferredCodes, task: u64, question: Question, now: u64) -> Block {
    match question {
        Question::Child { owner, token } => Block {
            awaited: Awaited::Thing { identity: token, holder: owner },
            deadline: None,
            kind: DeferredKind::Child { owner, token },
        },
        Question::ReadPipe { target, maximum } => Block {
            awaited: pipe_wait(target, task),
            deadline: None,
            kind: DeferredKind::PipeRead { target, maximum },
        },
        Question::WritePipe { target, byte_count } => Block {
            awaited: pipe_wait(target, task),
            deadline: None,
            kind: DeferredKind::PipeWrite { target, byte_count },
        },
        Question::ReadTerminal { maximum } => Block {
            awaited: Awaited::Thing { identity: codes.terminal_identity, holder: task },
            deadline: None,
            kind: DeferredKind::TerminalRead { maximum },
        },
        Question::Receive { port } | Question::ClaimPort { port } => Block {
            awaited: Awaited::Thing { identity: port as u64, holder: task },
            deadline: Some(datagram_deadline(now)),
            kind: DeferredKind::Datagram { port, deadline: datagram_deadline(now) },
        },
    }
}

/// What a call on a pipe waits on: an owner's pipe for the owner, a stream for
/// the task.
pub open spec fn pipe_wait(target: PipeTarget, task: u64) -> Awaited {
    match target {
        PipeTarget::Owned { owner, token } => Awaited::Thing { identity: token, holder: owner },
        PipeTarget::Stream { token } => Awaited::Thing { identity: token, holder: task },
    }
}

fn pipe_block(target: PipeTarget, task: u64) -> (awaited: Awaited)
    ensures
        awaited == pipe_wait(target, task),
{
    match target {
        PipeTarget::Owned { owner, token } => Awaited::Thing { identity: token, holder: owner },
        PipeTarget::Stream { token } => Awaited::Thing { identity: token, holder: task },
    }
}

fn block_on(codes: &DeferredCodes, task: u64, question: Question, now: u64) -> (block: Block)
    ensures
        block == blocked(*codes, task, question, now),
{
    match question {
        Question::Child { owner, token } => Block {
            awaited: Awaited::Thing { identity: token, holder: owner },
            deadline: None,
            kind: DeferredKind::Child { owner, token },
        },
        Question::ReadPipe { target, maximum } => Block {
            awaited: pipe_block(target, task),
            deadline: None,
            kind: DeferredKind::PipeRead { target, maximum },
        },
        Question::WritePipe { target, byte_count } => Block {
            awaited: pipe_block(target, task),
            deadline: None,
            kind: DeferredKind::PipeWrite { target, byte_count },
        },
        Question::ReadTerminal { maximum } => Block {
            awaited: Awaited::Thing { identity: codes.terminal_identity, holder: task },
            deadline: None,
            kind: DeferredKind::TerminalRead { maximum },
        },
        Question::Receive { port } | Question::ClaimPort { port } => {
            let deadline: u64 = now.saturating_add(DATAGRAM_WAIT_MILLISECONDS);
            Block {
                awaited: Awaited::Thing { identity: port as u64, holder: task },
                deadline: Some(deadline),
                kind: DeferredKind::Datagram { port, deadline },
            }
        },
    }
}

/// Whether an answer can come of a question.
pub open spec fn answers(question: Question, answer: Answer) -> bool {
    match answer {
        Answer::Busy | Answer::Error(_) => true,
        Answer::WouldBlock => !(question is ClaimPort),
        Answer::Reply(_) | Answer::Unencodable => !(question is ClaimPort) && !(
        question is WritePipe),
        Answer::Written(_) => question is WritePipe,
        Answer::Claimed(_) => question is ClaimPort,
    }
}

/// The decision that an answer leads to.
pub open spec fn after_answer(
    codes: DeferredCodes,
    task: u64,
    question: Question,
    answer: Answer,
    now: u64,
) -> Prepared {
    match answer {
        Answer::Busy => if question is Child {
            Prepared::Status(ReplyStatus::Conflict)
        } else {
            Prepared::Broken
        },
        Answer::Error(status) => Prepared::Status(status),
        Answer::Reply(bytes) => Prepared::Reply(bytes),
        Answer::Unencodable => Prepared::Broken,
        Answer::Written(count) => match question {
            Question::WritePipe { byte_count, .. } if count == byte_count => Prepared::Status(
                ReplyStatus::Success,
            ),
            _ => Prepared::Broken,
        },
        Answer::Claimed(port) => Prepared::Ask(Question::Receive { port }),
        Answer::WouldBlock => Prepared::Block(blocked(codes, task, question, now)),
    }
}

/// Decide about a call by the answer to a question.
pub fn answered_call(
    codes: &DeferredCodes,
    task: u64,
    question: Question,
    answer: Answer,
    now: u64,
) -> (prepared: Prepared)
    requires
        answers(question, answer),
    ensures
        prepared == after_answer(*codes, task, question, answer, now),
{
    match answer {
        Answer::Busy => match question {
            Question::Child { .. } => Prepared::Status(ReplyStatus::Conflict),
            _ => Prepared::Broken,
        },
        Answer::Error(status) => Prepared::Status(status),
        Answer::Reply(bytes) => Prepared::Reply(bytes),
        Answer::Unencodable => Prepared::Broken,
        Answer::Written(count) => match question {
            Question::WritePipe { byte_count, .. } => if count == byte_count {
                Prepared::Status(ReplyStatus::Success)
            } else {
                Prepared::Broken
            },
            _ => Prepared::Broken,
        },
        Answer::Claimed(port) => Prepared::Ask(Question::Receive { port }),
        Answer::WouldBlock => Prepared::Block(block_on(codes, task, question, now)),
    }
}

/// How a wait is registered.
#[derive(Clone, Copy, Debug, PartialEq, Eq)]
pub struct WaitSpec {
    /// Waiting task.
    pub task: u64,
    /// Operation that waits.
    pub operation: u64,
    /// Identity and holder of what it waits on; the wait ends when that is
    /// ready.
    pub resource: Option<(u64, u64)>,
    /// Time at which the wait ends, if any.
    pub deadline: Option<u64>,
}

/// How a blocked call's wait is registered.
pub open spec fn wait_spec(block: Block, task: u64, operation: u64) -> WaitSpec {
    WaitSpec {
        task,
        operation,
        resource: match block.awaited {
            Awaited::OnlyTime => None,
            Awaited::Thing { identity, holder } => Some((identity, holder)),
            Awaited::OwnOperation => Some((operation, task)),
        },
        deadline: block.deadline,
    }
}

/// Number a blocked call and say how its wait is registered. `begun` is the
/// operation under which the call was recorded with the number
/// `next_request_id`, if it could be. Nothing comes back where it could not,
/// or where the numbers have run out.
pub fn begin_wait(block: Block, task: u64, begun: Option<u64>, next_request_id: &mut u64) -> (spec:
    Option<WaitSpec>)
    ensures
        match begun {
            Some(operation) if *old(next_request_id) < u64::MAX => spec == Some(
                wait_spec(block, task, operation),
            ) && *final(next_request_id) == *old(next_request_id) + 1,
            _ => spec is None && *final(next_request_id) == *old(next_request_id),
        },
{
    let operation: u64 = match begun {
        Some(operation) => operation,
        None => return None,
    };
    *next_request_id = match (*next_request_id).checked_add(1) {
        Some(next) => next,
        None => return None,
    };
    let resource = match block.awaited {
        Awaited::OnlyTime => None,
        Awaited::Thing { identity, holder } => Some((identity, holder)),
        Awaited::OwnOperation => Some((operation, task)),
    };
    Some(WaitSpec { task, operation, resource, deadline: block.deadline })
}

/// A call that waits can be woken: its wait ends at a time of its own or when
/// something is ready. A sleep ends at a later time, and a call for a datagram
/// both when one is there and at a time.
pub proof fn waiting_calls_can_be_woken(
    codes: DeferredCodes,
    services: DeferredServices,
    request: CallRequest,
    wanted: Decode,
    decoded: Decoded,
    question: Question,
    answer: Answer,
    operation: u64,
    now: u64,
)
    ensures
        route(codes, services, request) matches Prepared::Block(block) ==> wait_spec(
            block,
            request.task,
            operation,
        ).resource == Some((operation, request.task)),
        after_decode(services, wanted, decoded, now) matches Prepared::Block(block) ==> {
            &&& wait_spec(block, request.task, operation).deadline matches Some(deadline)
                && deadline > now
            &&& block.kind is Timer
        },
        after_answer(codes, request.task, question, answer, now) matches Prepared::Block(block)
            ==> {
            let spec = wait_spec(block, request.task, operation);
            &&& spec.resource is Some
            &&& spec.deadline is Some == block.kind is Datagram
        },
{
}

/// Interfaces and operations with different meanings have different numbers.
pub open spec fn codes_differ(codes: DeferredCodes) -> bool {
    &&& codes.process_launch != codes.pipe
    &&& codes.process_launch != codes.standard_input
    &&& codes.process_launch != codes.standard_output
    &&& codes.process_launch != codes.standard_error
    &&& codes.process_launch != codes.timer
    &&& codes.process_launch != codes.diagnostics
    &&& codes.process_launch != codes.datagram
    &&& codes.pipe != codes.standard_input
    &&& codes.pipe != codes.standard_output
    &&& codes.pipe != codes.standard_error
    &&& codes.pipe != codes.timer
    &&& codes.pipe != codes.diagnostics
    &&& codes.pipe != codes.datagram
    &&& codes.standard_input != codes.standard_output
    &&& codes.standard_input != codes.standard_error
    &&& codes.standard_input != codes.timer
    &&& codes.standard_input != codes.diagnostics
    &&& codes.standard_input != codes.datagram
    &&& codes.standard_output != codes.standard_error
    &&& codes.standard_output != codes.timer
    &&& codes.standard_output != codes.diagnostics
    &&& codes.standard_output != codes.datagram
    &&& codes.standard_error != codes.timer
    &&& codes.standard_error != codes.diagnostics
    &&& codes.standard_error != codes.datagram
    &&& codes.timer != codes.diagnostics
    &&& codes.timer != codes.datagram
    &&& codes.diagnostics != codes.datagram
    &&& codes.pipe_read != codes.pipe_write
}

/// A call that writes a pipe leads from its opcode to a write of the decoded
/// number of bytes to the decoded pipe of its owner, and to nothing else. Where
/// there is no room it waits as such a write, on that pipe, without a time. It
/// succeeds once all bytes are written.
pub proof fn pipe_writes_write(
    codes: DeferredCodes,
    services: DeferredServices,
    request: CallRequest,
    owner: u64,
    token: u64,
    byte_count: usize,
    now: u64,
)
    requires
        codes_differ(codes),
        request.interface == codes.pipe,
        request.opcode == codes.pipe_write,
        services.owner == Some(owner),
        services.pipes,
    ensures
        ({
            let target = PipeTarget::Owned { owner, token };
            let write = Question::WritePipe { target, byte_count };
            &&& route(codes, services, request) matches Prepared::Decode(wanted)
            &&& decodes(wanted, Decoded::TokenAndBytes(token, byte_count))
            &&& after_decode(
                services,
                wanted,
                Decoded::TokenAndBytes(token, byte_count),
                now,
            ) == Prepared::Ask(write)
            &&& after_answer(codes, request.task, write, Answer::WouldBlock, now)
                == Prepared::Block(
                Block {
                    awaited: Awaited::Thing { identity: token, holder: owner },
                    deadline: None,
                    kind: DeferredKind::PipeWrite { target, byte_count },
                },
            )
            &&& after_answer(codes, request.task, write, Answer::Written(byte_count), now)
                == Prepared::Status(ReplyStatus::Success)
        }),
{
}

/// A call that reads a pipe leads from its opcode to a read of at most the
/// decoded number of bytes from the decoded pipe of its owner, and to nothing
/// else. Where there are none it waits as such a read, on that pipe, without a
/// time. The bytes that were read are the reply.
pub proof fn pipe_reads_read(
    codes: DeferredCodes,
    services: DeferredServices,
    request: CallRequest,
    owner: u64,
    token: u64,
    maximum: usize,
    bytes: Vec<u8>,
    now: u64,
)
    requires
        codes_differ(codes),
        request.interface == codes.pipe,
        request.opcode == codes.pipe_read,
        services.owner == Some(owner),
        services.pipes,
    ensures
        ({
            let target = PipeTarget::Owned { owner, token };
            let read = Question::ReadPipe { target, maximum };
            &&& route(codes, services, request) matches Prepared::Decode(wanted)
            &&& decodes(wanted, Decoded::TokenAndBytes(token, maximum))
            &&& after_decode(services, wanted, Decoded::TokenAndBytes(token, maximum), now)
                == Prepared::Ask(read)
            &&& after_answer(codes, request.task, read, Answer::WouldBlock, now)
                == Prepared::Block(
                Block {
                    awaited: Awaited::Thing { identity: token, holder: owner },
                    deadline: None,
                    kind: DeferredKind::PipeRead { target, maximum },
                },
            )
            &&& after_answer(codes, request.task, read, Answer::Reply(bytes), now)
                == Prepared::Reply(bytes)
        }),
{
}

/// A call that waits for a child looks at the decoded child of its owner, and
/// waits on that child without a time.
pub proof fn child_waits_wait_for_the_child(
    codes: DeferredCodes,
    services: DeferredServices,
    request: CallRequest,
    owner: u64,
    token: u64,
    now: u64,
)
    requires
        codes_differ(codes),
        request.interface == codes.process_launch,
        request.opcode == codes.child_wait,
        services.owner == Some(owner),
        services.children,
    ensures
        ({
            let look = Question::Child { owner, token };
            &&& route(codes, services, request) matches Prepared::Decode(wanted)
            &&& decodes(wanted, Decoded::Token(token))
            &&& after_decode(services, wanted, Decoded::Token(token), now) == Prepared::Ask(look)
            &&& after_answer(codes, request.task, look, Answer::WouldBlock, now)
                == Prepared::Block(
                Block {
                    awaited: Awaited::Thing { identity: token, holder: owner },
                    deadline: None,
                    kind: DeferredKind::Child { owner, token },
                },
            )
            &&& after_answer(codes, request.task, look, Answer::Busy, now) == Prepared::Status(
                ReplyStatus::Conflict,
            )
        }),
{
}

/// Children and pipes need an owner, whose absence is a conflict, and a table,
/// without which nothing is found.
pub proof fn children_and_pipes_need_owner_and_table(
    codes: DeferredCodes,
    services: DeferredServices,
    request: CallRequest,
)
    requires
        codes_differ(codes),
        (request.interface == codes.process_launch && request.opcode == codes.child_wait) || (
        request.interface == codes.pipe && (request.opcode == codes.pipe_read || request.opcode
            == codes.pipe_write)),
    ensures
        services.owner is None ==> route(codes, services, request) == Prepared::Status(
            ReplyStatus::Conflict,
        ),
        services.owner is Some && request.interface == codes.process_launch && !services.children
            ==> route(codes, services, request) == Prepared::Status(ReplyStatus::NotFound),
        services.owner is Some && request.interface == codes.pipe && !services.pipes ==> route(
            codes,
            services,
            request,
        ) == Prepared::Status(ReplyStatus::NotFound),
{
}

/// A read of standard input goes to the session terminal where the application
/// holds it, and otherwise to the pipe that the stream is bound to. It waits as
/// it was asked for, for its task.
pub proof fn input_is_read_from_terminal_or_pipe(
    codes: DeferredCodes,
    services: DeferredServices,
    request: CallRequest,
    maximum: usize,
    now: u64,
)
    requires
        codes_differ(codes),
        request.interface == codes.standard_input,
        request.opcode == codes.stream_read,
    ensures
        services.terminal ==> {
            let read = Question::ReadTerminal { maximum };
            &&& route(codes, services, request) matches Prepared::Decode(wanted)
            &&& after_decode(services, wanted, Decoded::Bytes(maximum), now) == Prepared::Ask(read)
            &&& after_answer(codes, request.task, read, Answer::WouldBlock, now)
                == Prepared::Block(
                Block {
                    awaited: Awaited::Thing {
                        identity: codes.terminal_identity,
                        holder: request.task,
                    },
                    deadline: None,
                    kind: DeferredKind::TerminalRead { maximum },
                },
            )
        },
        forall|i: int|
            !services.terminal && 0 <= i < services.streams@.len() && (
            #[trigger] services.streams@[i]).interface == request.interface && (forall|j: int|
                0 <= j < i ==> (#[trigger] services.streams@[j]).interface != request.interface)
                ==> {
                let target = PipeTarget::Stream { token: services.streams@[i].token };
                let read = Question::ReadPipe { target, maximum };
                &&& route(codes, services, request) matches Prepared::Decode(wanted)
                &&& after_decode(services, wanted, Decoded::Bytes(maximum), now) == Prepared::Ask(
                    read,
                )
                &&& after_answer(codes, request.task, read, Answer::WouldBlock, now)
                    == Prepared::Block(
                    Block {
                        awaited: Awaited::Thing {
                            identity: services.streams@[i].token,
                            holder: request.task,
                        },
                        deadline: None,
                        kind: DeferredKind::PipeRead { target, maximum },
                    },
                )
            },
{
    assert forall|i: int|
        !services.terminal && 0 <= i < services.streams@.len() && (
        #[trigger] services.streams@[i]).interface == request.interface && (forall|j: int|
            0 <= j < i ==> (#[trigger] services.streams@[j]).interface != request.interface)
        implies bound_stream(services.streams@, request.interface) == Some(
        services.streams@[i].token,
    ) by {
        lemma_bound_stream(services.streams@, request.interface, i);
    }
}

/// The stream of an interface is the first that is bound to it.
proof fn lemma_bound_stream(streams: Seq<StreamBinding>, interface: u32, i: int)
    requires
        0 <= i < streams.len(),
        streams[i].interface == interface,
        forall|j: int| 0 <= j < i ==> (#[trigger] streams[j]).interface != interface,
    ensures
        bound_stream(streams, interface) == Some(streams[i].token),
    decreases i,
{
    if i > 0 {
        assert(streams[0].interface != interface);
        let rest = streams.drop_first();
        assert forall|j: int| 0 <= j < i - 1 implies (#[trigger] rest[j]).interface
            != interface by {
            assert(rest[j] == streams[j + 1]);
        }
        lemma_bound_stream(rest, interface, i - 1);
    }
}

/// A stream that is bound to no pipe has none.
proof fn lemma_unbound_stream(streams: Seq<StreamBinding>, interface: u32)
    requires
        forall|j: int| 0 <= j < streams.len() ==> (#[trigger] streams[j]).interface != interface,
    ensures
        bound_stream(streams, interface) is None,
    decreases streams.len(),
{
    if streams.len() > 0 {
        assert(streams[0].interface != interface);
        let rest = streams.drop_first();
        assert forall|j: int| 0 <= j < rest.len() implies (#[trigger] rest[j]).interface
            != interface by {
            assert(rest[j] == streams[j + 1]);
        }
        lemma_unbound_stream(rest, interface);
    }
}

/// Bytes written to standard output or standard error go to the pipe that the
/// stream is bound to, all of them.
pub proof fn output_is_written_to_its_pipe(
    codes: DeferredCodes,
    services: DeferredServices,
    request: CallRequest,
    i: int,
    now: u64,
)
    requires
        codes_differ(codes),
        request.interface == codes.standard_output || request.interface == codes.standard_error,
        request.opcode == codes.stream_write,
        request.payload_bytes > 0,
        0 <= i < services.streams@.len(),
        services.streams@[i].interface == request.interface,
        forall|j: int| 0 <= j < i ==> (#[trigger] services.streams@[j]).interface
            != request.interface,
    ensures
        ({
            let target = PipeTarget::Stream { token: services.streams@[i].token };
            let write = Question::WritePipe { target, byte_count: request.payload_bytes };
            &&& route(codes, services, request) == Prepared::Ask(write)
            &&& after_answer(codes, request.task, write, Answer::WouldBlock, now)
                == Prepared::Block(
                Block {
                    awaited: Awaited::Thing {
                        identity: services.streams@[i].token,
                        holder: request.task,
                    },
                    deadline: None,
                    kind: DeferredKind::PipeWrite {
                        target,
                        byte_count: request.payload_bytes,
                    },
                },
            )
        }),
{
    lemma_bound_stream(services.streams@, request.interface, i);
}

/// A sleep ends at once where its time is not later than now, and otherwise
/// waits for exactly that time and nothing else.
pub proof fn sleeps_last_until_their_time(
    codes: DeferredCodes,
    services: DeferredServices,
    request: CallRequest,
    deadline: u64,
    now: u64,
)
    requires
        codes_differ(codes),
        request.interface == codes.timer,
        request.opcode == codes.sleep_until,
    ensures
        route(codes, services, request) matches Prepared::Decode(wanted) && decodes(
            wanted,
            Decoded::Time(deadline),
        ) && after_decode(services, wanted, Decoded::Time(deadline), now) == if deadline <= now {
            Prepared::Status(ReplyStatus::Success)
        } else {
            Prepared::Block(
                Block {
                    awaited: Awaited::OnlyTime,
                    deadline: Some(deadline),
                    kind: DeferredKind::Timer { deadline },
                },
            )
        },
{
}

/// A call for a datagram claims the decoded port, looks for a datagram at the
/// claimed one and waits there for four seconds at most.
pub proof fn datagrams_are_received_at_their_port(
    codes: DeferredCodes,
    services: DeferredServices,
    request: CallRequest,
    port: u16,
    claimed: u16,
    now: u64,
)
    requires
        codes_differ(codes),
        request.interface == codes.datagram,
        request.opcode == codes.receive,
    ensures
        ({
            let receive = Question::Receive { port: claimed };
            &&& route(codes, services, request) matches Prepared::Decode(wanted)
            &&& decodes(wanted, Decoded::Port(port))
            &&& after_decode(services, wanted, Decoded::Port(port), now) == if services.datagram {
                Prepared::Ask(Question::ClaimPort { port })
            } else {
                Prepared::Status(ReplyStatus::NotFound)
            }
            &&& after_answer(
                codes,
                request.task,
                Question::ClaimPort { port },
                Answer::Claimed(claimed),
                now,
            ) == Prepared::Ask(receive)
            &&& after_answer(codes, request.task, receive, Answer::WouldBlock, now)
                matches Prepared::Block(block)
            &&& block.awaited == (Awaited::Thing {
                identity: claimed as u64,
                holder: request.task,
            })
            &&& block.deadline matches Some(deadline)
            &&& block.kind == (DeferredKind::Datagram { port: claimed, deadline })
            &&& now <= deadline
            &&& deadline - now <= 4000
            &&& deadline < u64::MAX ==> deadline - now == 4000
        }),
{
}

/// A call for diagnostics waits for its own operation where there is a snapshot
/// to give; any other operation, or one with a payload, is invalid.
pub proof fn diagnostics_wait_for_their_operation(
    codes: DeferredCodes,
    services: DeferredServices,
    request: CallRequest,
)
    requires
        codes_differ(codes),
        request.interface == codes.diagnostics,
    ensures
        request.opcode != codes.get_snapshot || request.payload_bytes > 0 ==> route(
            codes,
            services,
            request,
        ) == Prepared::Status(ReplyStatus::InvalidRequest),
        request.opcode == codes.get_snapshot && request.payload_bytes == 0 && !services.diagnostics
            ==> route(codes, services, request) == Prepared::Status(ReplyStatus::NotFound),
        request.opcode == codes.get_snapshot && request.payload_bytes == 0 && services.diagnostics
            ==> route(codes, services, request) == Prepared::Block(
            Block {
                awaited: Awaited::OwnOperation,
                deadline: None,
                kind: DeferredKind::Diagnostics,
            },
        ),
{
}

/// Calls on other interfaces, and other operations on interfaces that have
/// waiting ones, are left alone; so are calls on streams that are bound to
/// nothing.
pub proof fn other_calls_are_left_alone(
    codes: DeferredCodes,
    services: DeferredServices,
    request: CallRequest,
)
    requires
        codes_differ(codes),
        request.interface != codes.diagnostics,
        request.interface == codes.process_launch ==> request.opcode != codes.child_wait,
        request.interface == codes.pipe ==> request.opcode != codes.pipe_read && request.opcode
            != codes.pipe_write,
        request.interface == codes.timer ==> request.opcode != codes.sleep_until,
        request.interface == codes.datagram ==> request.opcode != codes.receive,
        request.interface == codes.standard_input ==> request.opcode != codes.stream_read || (
        !services.terminal && forall|j: int|
            0 <= j < services.streams@.len() ==> (#[trigger] services.streams@[j]).interface
                != request.interface),
        request.interface == codes.standard_output || request.interface == codes.standard_error
            ==> request.opcode != codes.stream_write || request.payload_bytes == 0 || forall|
            j: int,
        |
            0 <= j < services.streams@.len() ==> (#[trigger] services.streams@[j]).interface
                != request.interface,
    ensures
        route(codes, services, request) == Prepared::NotDeferred,
{
    if forall|j: int|
        0 <= j < services.streams@.len() ==> (#[trigger] services.streams@[j]).interface
            != request.interface {
        lemma_unbound_stream(services.streams@, request.interface);
    }
}

/// A malformed request is invalid, an error is answered with its status, and
/// only a write of every byte succeeds; a table in use breaks everything but the
/// look at a child.
pub proof fn troubles_are_answered(
    codes: DeferredCodes,
    services: DeferredServices,
    task: u64,
    wanted: Decode,
    question: Question,
    status: ReplyStatus,
    written: usize,
    now: u64,
)
    ensures
        after_decode(services, wanted, Decoded::Malformed, now) == Prepared::Status(
            ReplyStatus::InvalidRequest,
        ),
        after_answer(codes, task, question, Answer::Error(status), now) == Prepared::Status(status),
        after_answer(codes, task, question, Answer::Unencodable, now) == Prepared::Broken,
        !(question is Child) ==> after_answer(codes, task, question, Answer::Busy, now)
            == Prepared::Broken,
        (question is WritePipe && written != question->WritePipe_byte_count) ==> after_answer(
            codes,
            task,
            question,
            Answer::Written(written),
            now,
        ) == Prepared::Broken,
{
}

/// A wait is registered for the task and the operation that wait, on what the
/// call waits on and until its time: a thing for its holder, and the own
/// operation for the task.
pub proof fn waits_are_registered_as_blocked(block: Block, task: u64, operation: u64)
    ensures
        ({
            let spec = wait_spec(block, task, operation);
            &&& spec.task == task
            &&& spec.operation == operation
            &&& spec.deadline == block.deadline
            &&& block.awaited == Awaited::OnlyTime ==> spec.resource is None
            &&& block.awaited == Awaited::OwnOperation ==> spec.resource == Some((operation, task))
            &&& (block.awaited matches Awaited::Thing { identity, holder } ==> spec.resource
                == Some((identity, holder)))
        }),
{
}

} // verus!
