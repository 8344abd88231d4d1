//! Kernel clients of the diagnostics server: one record for each call in
//! progress.

use vstd::prelude::*;

verus! {

/// Largest reply of a kernel client.
pub const MAX_REPLY_BYTES: usize = 4096;

/// The call that a client works for.
#[derive(Clone, Copy, Debug, PartialEq, Eq, Structural)]
pub struct ClientKey {
    /// Calling task.
    pub task: u64,
    /// Operation of the call.
    pub operation: u64,
}

/// What a client goes on with when the reply comes.
#[derive(Clone, Copy, Debug, PartialEq, Eq, Structural)]
pub struct Continuation {
    /// Calling task.
    pub task: u64,
    /// Operation of the call.
    pub operation: u64,
    /// Incarnation of the server.
    pub incarnation: u32,
    /// Time after which the call is given up.
    pub deadline: u64,
}

/// A client record.
#[derive(Clone, Copy, Debug, PartialEq, Eq, Structural)]
pub struct Client {
    /// Actor that makes the call.
    pub actor: u64,
    /// Call that the client works for.
    pub key: Option<ClientKey>,
    /// Open handle to the server.
    pub handle: Option<u64>,
    /// What follows the reply.
    pub continuation: Option<Continuation>,
}

impl Client {
    /// Whether the record can take a call.
    pub open spec fn is_free(self) -> bool {
        self.key is None && self.handle is None
    }

    /// The record without a call.
    pub open spec fn cleared(self) -> Client {
        Client { actor: self.actor, key: None, handle: None, continuation: None }
    }
}

/// Whether some client works for a call.
pub open spec fn works_for(clients: Seq<Client>, key: ClientKey) -> bool {
    exists|i: int| 0 <= i < clients.len() && (#[trigger] clients[i]).key == Some(key)
}

/// Whether `i` is the first free client.
pub open spec fn first_free(clients: Seq<Client>, i: int) -> bool {
    &&& 0 <= i < clients.len()
    &&& clients[i].is_free()
    &&& forall|k: int| 0 <= k < i ==> !(#[trigger] clients[k]).is_free()
}

/// Whether `i` is the first client that works for a call.
pub open spec fn first_for(clients: Seq<Client>, key: ClientKey, i: int) -> bool {
    &&& 0 <= i < clients.len()
    &&& clients[i].key == Some(key)
    &&& forall|k: int| 0 <= k < i ==> (#[trigger] clients[k]).key != Some(key)
}

/// What submitting a call leads to.
#[derive(Clone, Copy, Debug, PartialEq, Eq, Structural)]
pub enum Submission {
    /// The call is already in progress.
    InProgress,
    /// The server that was meant is gone: the call ends as revoked.
    Revoked,
    /// No client is free: the call is answered at once, as exhausted.
    Exhausted,
    /// The request is too large.
    Broken,
    /// Make the call with this client.
    Call {
        /// Index of the client.
        index: usize,
        /// Bytes of the request.
        request_bytes: u16,
        /// Most bytes of the reply.
        reply_capacity: u16,
    },
}

/// Decide what submitting a call leads to.
pub fn submit(
    clients: &Vec<Client>,
    generation: Option<u32>,
    key: ClientKey,
    incarnation: u32,
    request_bytes: usize,
    reply_capacity: usize,
) -> (submission: Submission)
    ensures
        match submission {
            Submission::InProgress => works_for(clients@, key),
            Submission::Revoked => !works_for(clients@, key) && generation != Some(incarnation),
            Submission::Exhausted => !works_for(clients@, key) && generation == Some(incarnation)
                && forall|i: int| 0 <= i < clients@.len() ==> !(#[trigger] clients@[i]).is_free(),
            Submission::Broken => !works_for(clients@, key) && generation == Some(incarnation)
                && request_bytes > u16::MAX && exists|i: int|
                0 <= i < clients@.len() && (#[trigger] clients@[i]).is_free(),
            Submission::Call { index, request_bytes: bytes, reply_capacity: capacity } => {
                &&& !works_for(clients@, key)
                &&& generation == Some(incarnation)
                &&& first_free(clients@, index as int)
                &&& bytes == request_bytes
                &&& capacity == (if reply_capacity <= MAX_REPLY_BYTES {
                    reply_capacity
                } else {
                    MAX_REPLY_BYTES
                })
            },
        },
{
    let mut i: usize = 0;
    while i < clients.len()
        invariant
            i <= clients@.len(),
            forall|k: int| 0 <= k < i ==> (#[trigger] clients@[k]).key != Some(key),
        decreases clients@.len() - i,
    {
        match clients[i].key {
            Some(other) => {
                if other == key {
                    assert(clients@[i as int].key == Some(key));
                    return Submission::InProgress;
                }
            },
            None => {},
        }
        i = i + 1;
    }
    let current = match generation {
        Some(current) => current == incarnation,
        None => false,
    };
    if !current {
        return Submission::Revoked;
    }
    let mut index: usize = 0;
    while index < clients.len()
        invariant
            index <= clients@.len(),
            generation == Some(incarnation),
            !works_for(clients@, key),
            forall|k: int| 0 <= k < index ==> !(#[trigger] clients@[k]).is_free(),
        decreases clients@.len() - index,
    {
        let client = clients[index];
        if client.key.is_none() && client.handle.is_none() {
            assert(clients@[index as int].is_free());
            if request_bytes > 65535 {
                return Submission::Broken;
            }
            let capacity: usize = if reply_capacity <= MAX_REPLY_BYTES {
                reply_capacity
            } else {
                MAX_REPLY_BYTES
            };
            return Submission::Call {
                index,
                request_bytes: request_bytes as u16,
                reply_capacity: capacity as u16,
            };
        }
        index = index + 1;
    }
    Submission::Exhausted
}

/// The clients with a submitted call.
pub open spec fn submitted(
    clients: Seq<Client>,
    index: int,
    key: ClientKey,
    handle: u64,
    incarnation: u32,
    deadline: u64,
) -> Seq<Client> {
    clients.update(
        index,
        Client {
            actor: clients[index].actor,
            key: Some(key),
            handle: Some(handle),
            continuation: Some(
                Continuation { task: key.task, operation: key.operation, incarnation, deadline },
            ),
        },
    )
}

/// Record a call that was made.
pub fn record_submission(
    clients: &mut Vec<Client>,
    index: usize,
    key: ClientKey,
    handle: u64,
    incarnation: u32,
    deadline: u64,
)
    requires
        index < old(clients)@.len(),
    ensures
        final(clients)@ == submitted(
            old(clients)@,
            index as int,
            key,
            handle,
            incarnation,
            deadline,
        ),
{
    let actor: u64 = clients[index].actor;
    clients.set(
        index,
        Client {
            actor,
            key: Some(key),
            handle: Some(handle),
            continuation: Some(
                Continuation { task: key.task, operation: key.operation, incarnation, deadline },
            ),
        },
    );
}

/// What making a call does next.
#[derive(Clone, Copy, Debug, PartialEq, Eq, Structural)]
pub enum SubmitAction {
    /// Write the request into the client's message page.
    WriteRequest {
        /// Actor of the client.
        actor: u64,
    },
    /// Open a handle to the server.
    Open {
        /// Actor of the client.
        actor: u64,
    },
    /// Make the call.
    Call {
        /// Actor of the client.
        actor: u64,
        /// Handle to the server.
        handle: u64,
    },
    /// Close the handle again.
    Close {
        /// Actor of the client.
        actor: u64,
        /// Handle to the server.
        handle: u64,
    },
    /// Let the server fail before its reply.
    InjectFault {
        /// Handle to the server.
        handle: u64,
        /// The actor that runs next, if the call named one.
        next: Option<u64>,
    },
    /// The call is recorded.
    Submitted,
    /// Something is inconsistent.
    Broken,
}

/// What happened.
#[derive(Clone, Copy, Debug, PartialEq, Eq, Structural)]
pub enum SubmitEvent {
    /// It was done.
    Done,
    /// It failed.
    Failed,
    /// A handle was opened.
    Opened(u64),
    /// The call was made.
    Called {
        /// Whether the server is to fail, for a test.
        fault: bool,
        /// The actor that runs next, if the call named one.
        next: Option<u64>,
    },
}

/// Making a call with a free client.
#[derive(Clone, Copy, Debug, PartialEq, Eq, Structural)]
pub struct SubmitRun {
    /// Index of the client.
    pub index: usize,
    /// Call that it works for.
    pub key: ClientKey,
    /// Incarnation of the server.
    pub incarnation: u32,
    /// Time after which the call is given up.
    pub deadline: u64,
    /// What is being done.
    pub doing: SubmitAction,
}

impl SubmitRun {
    /// Start making a call with the client at `index`.
    pub fn start(
        clients: &Vec<Client>,
        index: usize,
        key: ClientKey,
        incarnation: u32,
        deadline: u64,
    ) -> (run: Self)
        requires
            index < clients@.len(),
        ensures
            run == (SubmitRun {
                index,
                key,
                incarnation,
                deadline,
                doing: SubmitAction::WriteRequest { actor: clients@[index as int].actor },
            }),
    {
        SubmitRun {
            index,
            key,
            incarnation,
            deadline,
            doing: SubmitAction::WriteRequest { actor: clients[index].actor },
        }
    }

    /// Whether an event answers what is being done.
    pub open spec fn expects(self, event: SubmitEvent) -> bool {
        match self.doing {
            SubmitAction::Submitted | SubmitAction::Broken => false,
            SubmitAction::Open { .. } => event is Opened || event is Failed,
            SubmitAction::Call { .. } => event is Called || event is Failed,
            _ => event is Done || event is Failed,
        }
    }

    /// What follows an event. A call that cannot be made closes its handle; one
    /// that is made is recorded, after a fault for the server if there is to be
    /// one.
    pub open spec fn next(self, event: SubmitEvent) -> SubmitAction {
        match (self.doing, event) {
            (SubmitAction::WriteRequest { actor }, SubmitEvent::Done) => SubmitAction::Open {
                actor,
            },
            (SubmitAction::Open { actor }, SubmitEvent::Opened(handle)) => SubmitAction::Call {
                actor,
                handle,
            },
            (SubmitAction::Call { handle, .. }, SubmitEvent::Called { fault, next }) => if fault {
                SubmitAction::InjectFault { handle, next }
            } else {
                SubmitAction::Submitted
            },
            (SubmitAction::Call { actor, handle }, SubmitEvent::Failed) => SubmitAction::Close {
                actor,
                handle,
            },
            (SubmitAction::InjectFault { .. }, SubmitEvent::Done) => SubmitAction::Submitted,
            _ => SubmitAction::Broken,
        }
    }

    /// The handle of a call that was made.
    pub open spec fn called_handle(self) -> Option<u64> {
        match self.doing {
            SubmitAction::Call { handle, .. } => Some(handle),
            SubmitAction::InjectFault { handle, .. } => Some(handle),
            _ => None,
        }
    }

    /// The actor that runs next after a call that was made.
    pub open spec fn called_next(self, event: SubmitEvent) -> Option<u64> {
        match (self.doing, event) {
            (SubmitAction::Call { .. }, SubmitEvent::Called { next, .. }) => next,
            (SubmitAction::InjectFault { next, .. }, _) => next,
            _ => None,
        }
    }

    /// Take an event and go on; the clients change only where the call is
    /// recorded. A recorded call that names the actor that runs next makes it
    /// the successor.
    pub fn observe(
        &mut self,
        clients: &mut Vec<Client>,
        successor: &mut Option<u64>,
        event: SubmitEvent,
    ) -> (action: SubmitAction)
        requires
            old(self).expects(event),
            old(self).index < old(clients)@.len(),
        ensures
            action == old(self).next(event),
            *final(self) == (SubmitRun { doing: action, ..*old(self) }),
            match old(self).called_handle() {
                Some(handle) if action is Submitted => final(clients)@ == submitted(
                    old(clients)@,
                    old(self).index as int,
                    old(self).key,
                    handle,
                    old(self).incarnation,
                    old(self).deadline,
                ),
                _ => !(action is Submitted) && final(clients)@ == old(clients)@,
            },
            *final(successor) == (if action is Submitted && old(self).called_next(event) is Some {
                old(self).called_next(event)
            } else {
                *old(successor)
            }),
    {
        let mut made: Option<(u64, Option<u64>)> = None;
        let action = match (self.doing, event) {
            (SubmitAction::WriteRequest { actor }, SubmitEvent::Done) => SubmitAction::Open {
                actor,
            },
            (SubmitAction::Open { actor }, SubmitEvent::Opened(handle)) => SubmitAction::Call {
                actor,
                handle,
            },
            (SubmitAction::Call { handle, .. }, SubmitEvent::Called { fault, next }) => if fault {
                SubmitAction::InjectFault { handle, next }
            } else {
                made = Some((handle, next));
                SubmitAction::Submitted
            },
            (SubmitAction::Call { actor, handle }, SubmitEvent::Failed) => SubmitAction::Close {
                actor,
                handle,
            },
            (SubmitAction::InjectFault { handle, next }, SubmitEvent::Done) => {
                made = Some((handle, next));
                SubmitAction::Submitted
            },
            _ => SubmitAction::Broken,
        };
        match made {
            Some((handle, next)) => {
                record_submission(
                    clients,
                    self.index,
                    self.key,
                    handle,
                    self.incarnation,
                    self.deadline,
                );
                if next.is_some() {
                    *successor = next;
                }
            },
            None => {},
        }
        self.doing = action;
        action
    }
}

/// What looking for a reply leads to.
#[derive(Clone, Copy, Debug, PartialEq, Eq, Structural)]
pub enum Consumption {
    /// The call was never submitted.
    NotSubmitted,
    /// The record does not belong to the call.
    Broken,
    /// Ask for the reply of this client.
    Ask(usize),
}

/// Decide what looking for a reply leads to.
pub fn consume(clients: &Vec<Client>, key: ClientKey) -> (consumption: Consumption)
    ensures
        match consumption {
            Consumption::NotSubmitted => !works_for(clients@, key),
            Consumption::Broken => exists|i: int| #[trigger]
                first_for(clients@, key, i) && !(clients@[i].continuation matches Some(c) && c.task
                    == key.task && c.operation == key.operation),
            Consumption::Ask(i) => first_for(clients@, key, i as int) && (
            clients@[i as int].continuation matches Some(c) && c.task == key.task && c.operation
                == key.operation),
        },
{
    let mut i: usize = 0;
    while i < clients.len()
        invariant
            i <= clients@.len(),
            forall|k: int| 0 <= k < i ==> (#[trigger] clients@[k]).key != Some(key),
        decreases clients@.len() - i,
    {
        let client = clients[i];
        match client.key {
            Some(other) => {
                if other == key {
                    assert(first_for(clients@, key, i as int));
                    return match client.continuation {
                        Some(next) => if next.task == key.task && next.operation
                            == key.operation {
                            Consumption::Ask(i)
                        } else {
                            Consumption::Broken
                        },
                        None => Consumption::Broken,
                    };
                }
            },
            None => {},
        }
        i = i + 1;
    }
    Consumption::NotSubmitted
}

/// What releasing a client does next.
#[derive(Clone, Copy, Debug, PartialEq, Eq, Structural)]
pub enum ReleaseAction {
    /// Look whether the actor still has the handle; a handle whose server is
    /// gone has been taken away.
    Look {
        /// Actor.
        actor: u64,
        /// Handle.
        handle: u64,
    },
    /// Close the handle.
    Close {
        /// Actor.
        actor: u64,
        /// Handle.
        handle: u64,
    },
    /// The client is free.
    Released,
    /// Something is inconsistent.
    Broken,
}

/// What came of a step.
#[derive(Clone, Copy, Debug, PartialEq, Eq, Structural)]
pub enum ReleaseEvent {
    /// The handle was looked for.
    Looked {
        /// Whether it is there.
        present: bool,
    },
    /// It was done.
    Done,
    /// It failed.
    Failed,
}

/// Releasing the client of a call that ended.
#[derive(Clone, Copy, Debug, PartialEq, Eq, Structural)]
pub struct Release {
    /// Index of the client.
    pub index: usize,
    /// What is being done.
    pub doing: ReleaseAction,
}

/// The clients with one of them free.
pub open spec fn freed(clients: Seq<Client>, index: int) -> Seq<Client> {
    clients.update(index, clients[index].cleared())
}

fn clear_client(clients: &mut Vec<Client>, index: usize)
    requires
        index < old(clients)@.len(),
    ensures
        final(clients)@ == freed(old(clients)@, index as int),
{
    let actor: u64 = clients[index].actor;
    clients.set(index, Client { actor, key: None, handle: None, continuation: None });
}

impl Release {
    /// Begin to release a client: its handle is taken out first.
    pub fn start(clients: &mut Vec<Client>, index: usize) -> (release: Self)
        requires
            index < old(clients)@.len(),
        ensures
            release.index == index,
            match old(clients)@[index as int].handle {
                Some(handle) => {
                    &&& release.doing == (ReleaseAction::Look {
                        actor: old(clients)@[index as int].actor,
                        handle,
                    })
                    &&& final(clients)@ == old(clients)@.update(
                        index as int,
                        Client { handle: None, ..old(clients)@[index as int] },
                    )
                },
                None => release.doing == ReleaseAction::Released && final(clients)@ == freed(
                    old(clients)@,
                    index as int,
                ),
            },
    {
        let mut client = clients[index];
        match client.handle {
            Some(handle) => {
                client.handle = None;
                clients.set(index, client);
                Release { index, doing: ReleaseAction::Look { actor: client.actor, handle } }
            },
            None => {
                clear_client(clients, index);
                Release { index, doing: ReleaseAction::Released }
            },
        }
    }

    /// Whether an event answers what is being done.
    pub open spec fn expects(self, event: ReleaseEvent) -> bool {
        match self.doing {
            ReleaseAction::Look { .. } => event is Looked,
            ReleaseAction::Close { .. } => event is Done || event is Failed,
            ReleaseAction::Released | ReleaseAction::Broken => false,
        }
    }

    /// What follows an event.
    pub open spec fn next(self, event: ReleaseEvent) -> ReleaseAction {
        match (self.doing, event) {
            (ReleaseAction::Look { actor, handle }, ReleaseEvent::Looked { present }) => if present {
                ReleaseAction::Close { actor, handle }
            } else {
                ReleaseAction::Released
            },
            (ReleaseAction::Close { .. }, ReleaseEvent::Done) => ReleaseAction::Released,
            _ => ReleaseAction::Broken,
        }
    }

    /// Take an event and go on; the client is free once nothing is left to
    /// close.
    pub fn observe(&mut self, clients: &mut Vec<Client>, event: ReleaseEvent) -> (action:
        ReleaseAction)
        requires
            old(self).expects(event),
            old(self).index < old(clients)@.len(),
        ensures
            action == old(self).next(event),
            *final(self) == (Release { doing: action, ..*old(self) }),
            final(clients)@ == (if action is Released {
                freed(old(clients)@, old(self).index as int)
            } else {
                old(clients)@
            }),
    {
        let action = match (self.doing, event) {
            (ReleaseAction::Look { actor, handle }, ReleaseEvent::Looked { present }) => if present {
                ReleaseAction::Close { actor, handle }
            } else {
                ReleaseAction::Released
            },
            (ReleaseAction::Close { .. }, ReleaseEvent::Done) => ReleaseAction::Released,
            _ => ReleaseAction::Broken,
        };
        match action {
            ReleaseAction::Released => clear_client(clients, self.index),
            _ => {},
        }
        self.doing = action;
        action
    }
}

/// Releasing the client of a call brings back the clients from before it was
/// submitted.
pub proof fn releasing_undoes_submitting(
    clients: Seq<Client>,
    index: int,
    key: ClientKey,
    handle: u64,
    incarnation: u32,
    deadline: u64,
)
    requires
        first_free(clients, index),
        clients[index].continuation is None,
    ensures
        ({
            let busy = submitted(clients, index, key, handle, incarnation, deadline);
            &&& busy[index].key == Some(key)
            &&& freed(busy, index) =~= clients
        }),
{
}

/// Statuses with which a call can end without a reply.
#[derive(Clone, Copy, Debug, PartialEq, Eq, Structural)]
pub struct EndCodes {
    /// The server closed the endpoint.
    pub closed: u32,
    /// The server died.
    pub peer_died: u32,
    /// The call could never complete.
    pub deadlock: u32,
    /// Time ran out.
    pub timeout: u32,
    /// The call was cancelled.
    pub cancelled: u32,
}

/// How a call ended.
#[derive(Clone, Copy, Debug, PartialEq, Eq, Structural)]
pub enum Fate {
    /// The server is gone.
    Closed,
    /// The call cannot be answered any more.
    Revoked,
    /// Time ran out.
    Deadline,
    /// It was cancelled.
    Cancelled,
    /// The server replied with a status.
    Replied(u32),
}

/// How a call ended.
pub open spec fn fate(codes: EndCodes, status: u32) -> Fate {
    if status == codes.closed {
        Fate::Closed
    } else if status == codes.peer_died || status == codes.deadlock {
        Fate::Revoked
    } else if status == codes.timeout {
        Fate::Deadline
    } else if status == codes.cancelled {
        Fate::Cancelled
    } else {
        Fate::Replied(status)
    }
}

/// Decide how a call ended.
pub fn fate_of(codes: EndCodes, status: u32) -> (ended: Fate)
    ensures
        ended == fate(codes, status),
{
    if status == codes.closed {
        Fate::Closed
    } else if status == codes.peer_died || status == codes.deadlock {
        Fate::Revoked
    } else if status == codes.timeout {
        Fate::Deadline
    } else if status == codes.cancelled {
        Fate::Cancelled
    } else {
        Fate::Replied(status)
    }
}

/// Whether a client works for a task.
pub open spec fn works_for_task(client: Client, task: u64) -> bool {
    client.key matches Some(key) && key.task == task
}

/// Whether `i` is the first client from `from` on that works for a task.
pub open spec fn next_for(clients: Seq<Client>, task: u64, from: int, i: int) -> bool {
    &&& from <= i < clients.len()
    &&& works_for_task(clients[i], task)
    &&& forall|k: int| from <= k < i ==> !works_for_task(#[trigger] clients[k], task)
}

/// The first client from `from` on that works for a task.
pub fn next_client_of(clients: &Vec<Client>, task: u64, from: usize) -> (index: Option<usize>)
    requires
        from <= clients@.len(),
    ensures
        match index {
            Some(i) => next_for(clients@, task, from as int, i as int),
            None => forall|k: int|
                from <= k < clients@.len() ==> !works_for_task(#[trigger] clients@[k], task),
        },
{
    let mut i: usize = from;
    while i < clients.len()
        invariant
            from <= i <= clients@.len(),
            forall|k: int| from <= k < i ==> !works_for_task(#[trigger] clients@[k], task),
        decreases clients@.len() - i,
    {
        match clients[i].key {
            Some(key) => {
                if key.task == task {
                    return Some(i);
                }
            },
            None => {},
        }
        i = i + 1;
    }
    None
}

/// What giving up the calls of a task does next.
#[derive(Clone, Copy, Debug, PartialEq, Eq, Structural)]
pub enum CancelAction {
    /// Cancel the call of an actor.
    Cancel(u64),
    /// Take what would resume the actor.
    TakeResume(u64),
    /// Release the client.
    Release(Release),
    /// No call of the task is left.
    Done,
    /// Something is inconsistent.
    Broken,
}

/// What came of a step.
#[derive(Clone, Copy, Debug, PartialEq, Eq, Structural)]
pub enum CancelEvent {
    /// It was done.
    Done,
    /// It failed.
    Failed,
    /// A step of releasing the client.
    Releasing(ReleaseEvent),
}

/// Giving up the calls of a task, client by client.
#[derive(Clone, Copy, Debug, PartialEq, Eq, Structural)]
pub struct CancelRun {
    /// Task.
    pub task: u64,
    /// Client that is dealt with.
    pub at: usize,
    /// What is being done.
    pub doing: CancelAction,
}

impl CancelRun {
    /// Whether every client before the one that is dealt with is free of the
    /// task, and all of them in the end.
    pub open spec fn well_formed(self, clients: Seq<Client>) -> bool {
        &&& self.at <= clients.len()
        &&& forall|k: int|
            0 <= k < self.at ==> !works_for_task(#[trigger] clients[k], self.task)
        &&& match self.doing {
            CancelAction::Cancel(actor) | CancelAction::TakeResume(actor) => self.at
                < clients.len() && clients[self.at as int].actor == actor && works_for_task(
                clients[self.at as int],
                self.task,
            ),
            CancelAction::Release(release) => self.at < clients.len() && release.index == self.at
                && (release.doing is Look || release.doing is Close),
            CancelAction::Done => self.at == clients.len(),
            CancelAction::Broken => true,
        }
    }

    /// Whether the run deals with the first client of the task from `from` on.
    pub open spec fn deals_with(self, clients: Seq<Client>, task: u64, from: int) -> bool {
        &&& self.task == task
        &&& if self.doing is Done {
            self.at == clients.len() && forall|k: int|
                from <= k < clients.len() ==> !works_for_task(#[trigger] clients[k], task)
        } else {
            &&& next_for(clients, task, from, self.at as int)
            &&& self.doing == CancelAction::Cancel(clients[self.at as int].actor)
        }
    }

    fn turn_to(clients: &Vec<Client>, task: u64, from: usize) -> (run: Self)
        requires
            from <= clients@.len(),
            forall|k: int| 0 <= k < from ==> !works_for_task(#[trigger] clients@[k], task),
        ensures
            run.well_formed(clients@),
            run.deals_with(clients@, task, from as int),
    {
        match next_client_of(clients, task, from) {
            Some(at) => CancelRun { task, at, doing: CancelAction::Cancel(clients[at].actor) },
            None => CancelRun { task, at: clients.len(), doing: CancelAction::Done },
        }
    }

    /// Begin to give up the calls of a task.
    pub fn start(clients: &Vec<Client>, task: u64) -> (run: Self)
        ensures
            run.well_formed(clients@),
            run.deals_with(clients@, task, 0),
    {
        CancelRun::turn_to(clients, task, 0)
    }

    /// Whether an event answers what is being done.
    pub open spec fn expects(self, event: CancelEvent) -> bool {
        match self.doing {
            CancelAction::Cancel(_) | CancelAction::TakeResume(_) => event is Done || event
                is Failed,
            CancelAction::Release(release) => event matches CancelEvent::Releasing(step)
                && release.expects(step),
            CancelAction::Done | CancelAction::Broken => false,
        }
    }

    /// Whether the run goes on to the next client once one is free.
    pub open spec fn goes_on(
        self,
        before: Seq<Client>,
        after: Seq<Client>,
        next: CancelRun,
    ) -> bool {
        &&& after == freed(before, self.at as int)
        &&& next.deals_with(after, self.task, self.at + 1)
    }

    /// Whether `next`, with the clients `after`, follows an event.
    pub open spec fn leads(
        self,
        event: CancelEvent,
        before: Seq<Client>,
        after: Seq<Client>,
        next: CancelRun,
    ) -> bool {
        match (self.doing, event) {
            (CancelAction::Cancel(actor), CancelEvent::Done) => after == before && next
                == (CancelRun { doing: CancelAction::TakeResume(actor), ..self }),
            (CancelAction::TakeResume(actor), CancelEvent::Done) => match before[self.at as int].handle {
                Some(handle) => {
                    &&& after == before.update(
                        self.at as int,
                        Client { handle: None, ..before[self.at as int] },
                    )
                    &&& next == (CancelRun {
                        doing: CancelAction::Release(
                            Release {
                                index: self.at,
                                doing: ReleaseAction::Look { actor, handle },
                            },
                        ),
                        ..self
                    })
                },
                None => self.goes_on(before, after, next),
            },
            (CancelAction::Release(release), CancelEvent::Releasing(step)) => match release.next(
                step,
            ) {
                ReleaseAction::Released => self.goes_on(before, after, next),
                ReleaseAction::Broken => after == before && next == (CancelRun {
                    doing: CancelAction::Broken,
                    ..self
                }),
                doing => after == before && next == (CancelRun {
                    doing: CancelAction::Release(Release { doing, ..release }),
                    ..self
                }),
            },
            _ => after == before && next == (CancelRun { doing: CancelAction::Broken, ..self }),
        }
    }

    /// Take an event and go on.
    pub fn observe(&mut self, clients: &mut Vec<Client>, event: CancelEvent) -> (action:
        CancelAction)
        requires
            old(self).well_formed(old(clients)@),
            old(self).expects(event),
        ensures
            final(self).well_formed(final(clients)@),
            old(self).leads(event, old(clients)@, final(clients)@, *final(self)),
            action == final(self).doing,
    {
        let at: usize = self.at;
        let count: usize = clients.len();
        let ghost before = clients@;
        match (self.doing, event) {
            (CancelAction::Cancel(actor), CancelEvent::Done) => {
                self.doing = CancelAction::TakeResume(actor);
            },
            (CancelAction::TakeResume(_), CancelEvent::Done) => {
                assert(at < count);
                let release = Release::start(clients, at);
                match release.doing {
                    ReleaseAction::Released => {
                        proof {
                            assert forall|k: int| 0 <= k < at + 1 implies !works_for_task(
                                #[trigger] clients@[k],
                                self.task,
                            ) by {
                                if k < at {
                                    assert(clients@[k] == before[k]);
                                }
                            }
                        }
                        *self = CancelRun::turn_to(clients, self.task, at + 1);
                    },
                    _ => {
                        proof {
                            assert forall|k: int| 0 <= k < at implies !works_for_task(
                                #[trigger] clients@[k],
                                self.task,
                            ) by {
                                assert(clients@[k] == before[k]);
                            }
                        }
                        self.doing = CancelAction::Release(release);
                    },
                }
            },
            (CancelAction::Release(mut release), CancelEvent::Releasing(step)) => {
                assert(at < count);
                match release.observe(clients, step) {
                    ReleaseAction::Released => {
                        proof {
                            assert forall|k: int| 0 <= k < at + 1 implies !works_for_task(
                                #[trigger] clients@[k],
                                self.task,
                            ) by {
                                if k < at {
                                    assert(clients@[k] == before[k]);
                                }
                            }
                        }
                        *self = CancelRun::turn_to(clients, self.task, at + 1);
                    },
                    ReleaseAction::Broken => {
                        self.doing = CancelAction::Broken;
                    },
                    _ => {
                        self.doing = CancelAction::Release(release);
                    },
                }
            },
            _ => {
                self.doing = CancelAction::Broken;
            },
        }
        self.doing
    }
}

/// Once the calls of a task are given up, no client works for it.
pub proof fn cancelled_tasks_have_no_clients(run: CancelRun, clients: Seq<Client>, key: ClientKey)
    requires
        run.well_formed(clients),
        run.doing is Done,
        key.task == run.task,
    ensures
        !works_for(clients, key),
{
    if works_for(clients, key) {
        let i = choose|i: int| 0 <= i < clients.len() && (#[trigger] clients[i]).key == Some(key);
        assert(works_for_task(clients[i], run.task));
    }
}

/// A call ends in the fate that its status stands for.
pub proof fn statuses_stand_for_their_fate(codes: EndCodes, status: u32)
    requires
        codes.closed != codes.peer_died && codes.closed != codes.deadlock,
        codes.closed != codes.timeout && codes.closed != codes.cancelled,
        codes.peer_died != codes.timeout && codes.peer_died != codes.cancelled,
        codes.deadlock != codes.timeout && codes.deadlock != codes.cancelled,
        codes.timeout != codes.cancelled,
    ensures
        fate(codes, codes.closed) == Fate::Closed,
        fate(codes, codes.peer_died) == Fate::Revoked,
        fate(codes, codes.deadlock) == Fate::Revoked,
        fate(codes, codes.timeout) == Fate::Deadline,
        fate(codes, codes.cancelled) == Fate::Cancelled,
        status != codes.closed && status != codes.peer_died && status != codes.deadlock && status
            != codes.timeout && status != codes.cancelled ==> fate(codes, status)
            == Fate::Replied(status),
{
}

/// A request is written, a handle opened, and the call made on that handle; a
/// call that fails closes the handle again, and any other failure is an
/// inconsistency.
pub proof fn requests_are_submitted_in_order(
    run: SubmitRun,
    actor: u64,
    handle: u64,
    following: Option<u64>,
)
    ensures
        run.doing == (SubmitAction::WriteRequest { actor }) ==> run.next(SubmitEvent::Done)
            == (SubmitAction::Open { actor }) && run.next(SubmitEvent::Failed)
            == SubmitAction::Broken,
        run.doing == (SubmitAction::Open { actor }) ==> run.next(SubmitEvent::Opened(handle))
            == (SubmitAction::Call { actor, handle }) && run.next(SubmitEvent::Failed)
            == SubmitAction::Broken,
        run.doing == (SubmitAction::Call { actor, handle }) ==> {
            &&& run.next(SubmitEvent::Called { fault: false, next: following })
                == SubmitAction::Submitted
            &&& run.next(SubmitEvent::Called { fault: true, next: following })
                == (SubmitAction::InjectFault { handle, next: following })
            &&& run.next(SubmitEvent::Failed) == (SubmitAction::Close { actor, handle })
        },
        run.doing is InjectFault ==> run.next(SubmitEvent::Done) == SubmitAction::Submitted
            && run.next(SubmitEvent::Failed) == SubmitAction::Broken,
        run.doing is Close ==> run.next(SubmitEvent::Done) == SubmitAction::Broken && run.next(
            SubmitEvent::Failed,
        ) == SubmitAction::Broken,
{
}

/// A submitted call is kept with its own key, handle, incarnation and deadline,
/// and no other client changes.
pub proof fn submitted_calls_are_kept(
    clients: Seq<Client>,
    index: int,
    key: ClientKey,
    handle: u64,
    incarnation: u32,
    deadline: u64,
    k: int,
)
    requires
        0 <= index < clients.len(),
        0 <= k < clients.len(),
    ensures
        ({
            let after = submitted(clients, index, key, handle, incarnation, deadline);
            &&& after.len() == clients.len()
            &&& k != index ==> after[k] == clients[k]
            &&& after[index].actor == clients[index].actor
            &&& after[index].key == Some(key)
            &&& after[index].handle == Some(handle)
            &&& (after[index].continuation matches Some(kept) && kept.task == key.task
                && kept.operation == key.operation && kept.incarnation == incarnation
                && kept.deadline == deadline)
            &&& !after[index].is_free()
        }),
        ({
            let after = freed(clients, index);
            &&& after.len() == clients.len()
            &&& k != index ==> after[k] == clients[k]
            &&& after[index].is_free() && after[index].continuation is None
            &&& after[index].actor == clients[index].actor
        }),
{
}

/// A handle is closed only where it is still there; then the client is released.
pub proof fn present_handles_are_closed(release: Release, actor: u64, handle: u64)
    ensures
        release.doing == (ReleaseAction::Look { actor, handle }) ==> release.next(
            ReleaseEvent::Looked { present: true },
        ) == (ReleaseAction::Close { actor, handle }) && release.next(
            ReleaseEvent::Looked { present: false },
        ) == ReleaseAction::Released,
        release.doing is Close ==> release.next(ReleaseEvent::Done) == ReleaseAction::Released
            && release.next(ReleaseEvent::Failed) == ReleaseAction::Broken,
{
}

/// A task is cancelled client by client: the call is cancelled, its resumption
/// taken, its handle released, and the client freed before the next one of the
/// task. Clients of other tasks stay.
pub proof fn clients_are_cancelled_in_order(
    run: CancelRun,
    event: CancelEvent,
    before: Seq<Client>,
    after: Seq<Client>,
    next: CancelRun,
    k: int,
)
    requires
        run.well_formed(before),
        run.expects(event),
        run.leads(event, before, after, next),
        0 <= k < before.len(),
    ensures
        after.len() == before.len(),
        k != run.at ==> after[k] == before[k],
        next.task == run.task,
        (run.doing matches CancelAction::Cancel(actor) ==> event == CancelEvent::Done ==> next.doing
            == CancelAction::TakeResume(actor) && after == before),
        (run.doing matches CancelAction::TakeResume(actor) ==> event == CancelEvent::Done ==> (
        before[run.at as int].handle matches Some(handle) ==> (next.doing matches
            CancelAction::Release(release) && release.index == run.at && release.doing
            == (ReleaseAction::Look { actor, handle })))),
        event == CancelEvent::Failed ==> next.doing == CancelAction::Broken && after == before,
        next.doing is Cancel || next.doing is Done ==> after[run.at as int].is_free() && next.at
            > run.at,
{
}

/// A client is found wherever it stands, and of several the first is taken.
pub proof fn the_first_client_is_taken(
    clients: Seq<Client>,
    key: ClientKey,
    task: u64,
    from: int,
    i: int,
    k: int,
)
    requires
        0 <= k < clients.len(),
    ensures
        clients[k].key == Some(key) ==> works_for(clients, key),
        first_free(clients, i) && clients[k].key is None && clients[k].handle is None ==> i <= k,
        first_for(clients, key, i) && clients[k].key == Some(key) ==> i <= k,
        next_for(clients, task, from, i) && from <= k && (clients[k].key matches Some(held)
            && held.task == task) ==> i <= k,
        first_free(clients, i) ==> clients[i].key is None && clients[i].handle is None,
        first_for(clients, key, i) ==> clients[i].key == Some(key),
        clients[0].key is None && clients[0].handle is None ==> first_free(clients, 0),
        clients[0].key == Some(key) ==> first_for(clients, key, 0),
{
}

/// The next client of a task is one of the clients, at or behind the place where
/// the search begins, and works for that task.
pub proof fn the_next_client_works_for_the_task(
    clients: Seq<Client>,
    task: u64,
    from: int,
    i: int,
)
    requires
        next_for(clients, task, from, i),
    ensures
        from <= i < clients.len(),
        (clients[i].key matches Some(held) && held.task == task),
{
}

} // verus!
