//! Requests to the network, step by step.
//!
//! Each request says what is to be done next and goes on with what came of it.
//! Whoever waits reads the clock, asks the session and looks for the answer, in
//! turn.

use crate::network::address::{Ipv4Address, MacAddress};
use crate::network::exchange::{completes, hop, next_hop, ping_answer, PingReply, PingStart};
use crate::network::frames::{EchoReply, NetworkState};
use crate::network::lease::{
    accept_lease, answer_deadline, deadline_after, lease_of, offering_server, DhcpMessageType,
    DhcpPacket, Ipv4Configuration,
};
use crate::network::NetworkError;
use vstd::prelude::*;

verus! {

/// What happened.
#[derive(Clone, Copy, Debug, PartialEq, Eq)]
pub enum RequestEvent {
    /// The hardware address of the next hop was looked up.
    Found(Option<MacAddress>),
    /// A frame was made, or could not be.
    Built {
        /// Why it could not.
        failed: Option<NetworkError>,
    },
    /// A frame was sent, or could not be.
    Sent {
        /// Why it could not.
        failed: Option<NetworkError>,
    },
    /// The clock was read.
    Now(u64),
    /// The session was asked whether to go on.
    Checked {
        /// Whether the request is cancelled.
        cancelled: bool,
    },
    /// An address message was looked for.
    TookDhcp(Option<DhcpPacket>),
    /// An echo answer was looked for.
    TookEcho(Option<EchoReply>),
    /// A sequence number was used.
    Sequence(u16),
    /// A free port was chosen, or there was none.
    Chosen(Result<u16, NetworkError>),
    /// A port was bound, or could not be.
    Bound {
        /// Why it could not.
        failed: Option<NetworkError>,
    },
}

/// What getting an address does next.
#[derive(Clone, Copy, Debug, PartialEq, Eq)]
pub enum LeaseAction {
    /// Make a message that looks for servers.
    BuildDiscover,
    /// Make a message that asks a server for an address.
    BuildRequest {
        /// Address.
        address: Ipv4Address,
        /// Server.
        server: Ipv4Address,
    },
    /// Send the message.
    Transmit,
    /// Read the clock; the wait begins.
    Start,
    /// Read the clock.
    Clock,
    /// Ask the session whether to go on.
    Checkpoint,
    /// Look for an answer.
    Take,
    /// This is the configuration.
    Configured(Ipv4Configuration),
    /// There is no address.
    Failed(NetworkError),
}

/// Getting an address.
#[derive(Clone, Copy, Debug, PartialEq, Eq)]
pub struct LeaseRun {
    /// Transaction.
    pub transaction: u32,
    /// The offer that was accepted.
    pub offer: Option<DhcpPacket>,
    /// When the wait ends.
    pub deadline: u64,
    /// What is being done.
    pub doing: LeaseAction,
}

impl LeaseRun {
    /// Begin another address transaction.
    pub fn start(state: &mut NetworkState) -> (run: Self)
        requires
            old(state).well_formed(),
        ensures
            final(state).well_formed(),
            *final(state) == (NetworkState {
                dhcp_generation: crate::network::exchange::next_sequence(
                    old(state).dhcp_generation,
                ),
                ..*old(state)
            }),
            run == (LeaseRun {
                transaction: crate::network::exchange::transaction(
                    old(state).mac,
                    final(state).dhcp_generation,
                ),
                offer: None,
                deadline: 0,
                doing: LeaseAction::BuildDiscover,
            }),
    {
        let transaction: u32 = state.next_dhcp_transaction();
        LeaseRun { transaction, offer: None, deadline: 0, doing: LeaseAction::BuildDiscover }
    }

    /// Whether an event answers what is being done.
    pub open spec fn expects(self, event: RequestEvent) -> bool {
        match self.doing {
            LeaseAction::BuildDiscover | LeaseAction::BuildRequest { .. } => event is Built,
            LeaseAction::Transmit => event is Sent,
            LeaseAction::Start | LeaseAction::Clock => event is Now,
            LeaseAction::Checkpoint => event is Checked,
            LeaseAction::Take => event is TookDhcp,
            LeaseAction::Configured(_) | LeaseAction::Failed(_) => false,
        }
    }

    /// The run after a message of its transaction came. A refusal ends it. The
    /// first offer is accepted, and an acknowledgement of it completes the
    /// configuration; other messages are passed over.
    pub open spec fn answered(self, packet: DhcpPacket) -> LeaseRun {
        let failed = |error: NetworkError| LeaseRun { doing: LeaseAction::Failed(error), ..self };
        if packet.message_type == DhcpMessageType::NegativeAcknowledge {
            failed(NetworkError::Protocol)
        } else {
            match self.offer {
                None => if packet.message_type != DhcpMessageType::Offer {
                    LeaseRun { doing: LeaseAction::Clock, ..self }
                } else {
                    match packet.server_identifier {
                        Some(server) => LeaseRun {
                            offer: Some(packet),
                            doing: LeaseAction::BuildRequest { address: packet.your_ip, server },
                            ..self
                        },
                        None => failed(NetworkError::Protocol),
                    }
                },
                Some(offer) => if packet.message_type != DhcpMessageType::Acknowledge {
                    LeaseRun { doing: LeaseAction::Clock, ..self }
                } else {
                    match lease_of(offer, packet) {
                        Ok(configuration) => LeaseRun {
                            doing: LeaseAction::Configured(configuration),
                            ..self
                        },
                        Err(error) => failed(error),
                    }
                },
            }
        }
    }

    /// The run after an event.
    pub open spec fn after(self, event: RequestEvent) -> LeaseRun {
        let doing = |action: LeaseAction| LeaseRun { doing: action, ..self };
        match event {
            RequestEvent::Built { failed } => match failed {
                None => doing(LeaseAction::Transmit),
                Some(error) => doing(LeaseAction::Failed(error)),
            },
            RequestEvent::Sent { failed } => match failed {
                None => doing(LeaseAction::Start),
                Some(error) => doing(LeaseAction::Failed(error)),
            },
            RequestEvent::Now(now) => if self.doing is Start {
                LeaseRun { deadline: deadline_after(now), doing: LeaseAction::Clock, ..self }
            } else if now < self.deadline {
                doing(LeaseAction::Checkpoint)
            } else {
                doing(LeaseAction::Failed(NetworkError::Timeout))
            },
            RequestEvent::Checked { cancelled } => if cancelled {
                doing(LeaseAction::Failed(NetworkError::Cancelled))
            } else {
                doing(LeaseAction::Take)
            },
            RequestEvent::TookDhcp(Some(packet)) => self.answered(packet),
            _ => doing(LeaseAction::Clock),
        }
    }

    fn answer(&mut self, packet: DhcpPacket)
        ensures
            *final(self) == old(self).answered(packet),
    {
        if packet.message_type == DhcpMessageType::NegativeAcknowledge {
            self.doing = LeaseAction::Failed(NetworkError::Protocol);
            return;
        }
        match self.offer {
            None => {
                if packet.message_type != DhcpMessageType::Offer {
                    self.doing = LeaseAction::Clock;
                    return;
                }
                match offering_server(&packet) {
                    Ok(server) => {
                        self.offer = Some(packet);
                        self.doing = LeaseAction::BuildRequest { address: packet.your_ip, server };
                    },
                    Err(error) => {
                        self.doing = LeaseAction::Failed(error);
                    },
                }
            },
            Some(offer) => {
                if packet.message_type != DhcpMessageType::Acknowledge {
                    self.doing = LeaseAction::Clock;
                    return;
                }
                self.doing = match accept_lease(&offer, &packet) {
                    Ok(configuration) => LeaseAction::Configured(configuration),
                    Err(error) => LeaseAction::Failed(error),
                };
            },
        }
    }

    /// Take an event and go on.
    pub fn observe(&mut self, event: RequestEvent) -> (action: LeaseAction)
        requires
            old(self).expects(event),
        ensures
            *final(self) == old(self).after(event),
            action == final(self).doing,
    {
        match event {
            RequestEvent::Built { failed } => {
                self.doing = match failed {
                    None => LeaseAction::Transmit,
                    Some(error) => LeaseAction::Failed(error),
                };
            },
            RequestEvent::Sent { failed } => {
                self.doing = match failed {
                    None => LeaseAction::Start,
                    Some(error) => LeaseAction::Failed(error),
                };
            },
            RequestEvent::Now(now) => {
                match self.doing {
                    LeaseAction::Start => {
                        self.deadline = answer_deadline(now);
                        self.doing = LeaseAction::Clock;
                    },
                    _ => {
                        self.doing = if now < self.deadline {
                            LeaseAction::Checkpoint
                        } else {
                            LeaseAction::Failed(NetworkError::Timeout)
                        };
                    },
                }
            },
            RequestEvent::Checked { cancelled } => {
                self.doing = if cancelled {
                    LeaseAction::Failed(NetworkError::Cancelled)
                } else {
                    LeaseAction::Take
                };
            },
            RequestEvent::TookDhcp(Some(packet)) => self.answer(packet),
            _ => {
                self.doing = LeaseAction::Clock;
            },
        }
        self.doing
    }
}

/// A configuration comes only of an acknowledged offer, and its address is
/// never zero.
pub proof fn leases_are_acknowledged(run: LeaseRun, event: RequestEvent)
    requires
        run.expects(event),
    ensures
        run.after(event).doing matches LeaseAction::Configured(configuration) ==> {
            &&& event matches RequestEvent::TookDhcp(Some(packet))
            &&& packet.message_type == DhcpMessageType::Acknowledge
            &&& run.offer matches Some(offer) && lease_of(offer, packet) == Ok::<
                Ipv4Configuration,
                NetworkError,
            >(configuration)
            &&& configuration.address != Ipv4Address { a: 0, b: 0, c: 0, d: 0 }
        },
{
}

/// What resolving an address does next.
#[derive(Clone, Copy, Debug, PartialEq, Eq)]
pub enum ResolveAction {
    /// Look the address up.
    Lookup(Ipv4Address),
    /// Make a message that asks for it.
    Build(Ipv4Address),
    /// Send the message.
    Transmit,
    /// Read the clock; the wait begins.
    Start,
    /// Read the clock.
    Clock,
    /// Ask the session whether to go on.
    Checkpoint,
    /// Look the address up again.
    LookAgain(Ipv4Address),
    /// This is the hardware address.
    Known(MacAddress),
    /// It cannot be found.
    Failed(NetworkError),
}

/// Resolving the next hop to a destination.
#[derive(Clone, Copy, Debug, PartialEq, Eq)]
pub struct ResolveRun {
    /// Next hop.
    pub hop: Ipv4Address,
    /// When the wait ends.
    pub deadline: u64,
    /// What is being done.
    pub doing: ResolveAction,
}

impl ResolveRun {
    /// The first step towards a destination.
    pub open spec fn first(configuration: Ipv4Configuration, destination: Ipv4Address) -> ResolveRun {
        ResolveRun {
            hop: hop(configuration, destination),
            deadline: 0,
            doing: ResolveAction::Lookup(hop(configuration, destination)),
        }
    }

    /// Begin to resolve the next hop to a destination.
    pub fn start(configuration: &Ipv4Configuration, destination: Ipv4Address) -> (run: Self)
        ensures
            run == ResolveRun::first(*configuration, destination),
    {
        let hop = next_hop(configuration, destination);
        ResolveRun { hop, deadline: 0, doing: ResolveAction::Lookup(hop) }
    }

    /// Whether an event answers what is being done.
    pub open spec fn expects(self, event: RequestEvent) -> bool {
        match self.doing {
            ResolveAction::Lookup(_) | ResolveAction::LookAgain(_) => event is Found,
            ResolveAction::Build(_) => event is Built,
            ResolveAction::Transmit => event is Sent,
            ResolveAction::Start | ResolveAction::Clock => event is Now,
            ResolveAction::Checkpoint => event is Checked,
            ResolveAction::Known(_) | ResolveAction::Failed(_) => false,
        }
    }

    /// The run after an event. What is known is not asked for.
    pub open spec fn after(self, event: RequestEvent) -> ResolveRun {
        let doing = |action: ResolveAction| ResolveRun { doing: action, ..self };
        match event {
            RequestEvent::Found(Some(mac)) => doing(ResolveAction::Known(mac)),
            RequestEvent::Found(None) => if self.doing is Lookup {
                doing(ResolveAction::Build(self.hop))
            } else {
                doing(ResolveAction::Clock)
            },
            RequestEvent::Built { failed } => match failed {
                None => doing(ResolveAction::Transmit),
                Some(error) => doing(ResolveAction::Failed(error)),
            },
            RequestEvent::Sent { failed } => match failed {
                None => doing(ResolveAction::Start),
                Some(error) => doing(ResolveAction::Failed(error)),
            },
            RequestEvent::Now(now) => if self.doing is Start {
                ResolveRun { deadline: deadline_after(now), doing: ResolveAction::Clock, ..self }
            } else if now < self.deadline {
                doing(ResolveAction::Checkpoint)
            } else {
                doing(ResolveAction::Failed(NetworkError::Timeout))
            },
            RequestEvent::Checked { cancelled } => if cancelled {
                doing(ResolveAction::Failed(NetworkError::Cancelled))
            } else {
                doing(ResolveAction::LookAgain(self.hop))
            },
            _ => self,
        }
    }

    /// Take an event and go on.
    pub fn observe(&mut self, event: RequestEvent) -> (action: ResolveAction)
        requires
            old(self).expects(event),
        ensures
            *final(self) == old(self).after(event),
            action == final(self).doing,
    {
        match event {
            RequestEvent::Found(Some(mac)) => {
                self.doing = ResolveAction::Known(mac);
            },
            RequestEvent::Found(None) => {
                self.doing = match self.doing {
                    ResolveAction::Lookup(_) => ResolveAction::Build(self.hop),
                    _ => ResolveAction::Clock,
                };
            },
            RequestEvent::Built { failed } => {
                self.doing = match failed {
                    None => ResolveAction::Transmit,
                    Some(error) => ResolveAction::Failed(error),
                };
            },
            RequestEvent::Sent { failed } => {
                self.doing = match failed {
                    None => ResolveAction::Start,
                    Some(error) => ResolveAction::Failed(error),
                };
            },
            RequestEvent::Now(now) => {
                match self.doing {
                    ResolveAction::Start => {
                        self.deadline = answer_deadline(now);
                        self.doing = ResolveAction::Clock;
                    },
                    _ => {
                        self.doing = if now < self.deadline {
                            ResolveAction::Checkpoint
                        } else {
                            ResolveAction::Failed(NetworkError::Timeout)
                        };
                    },
                }
            },
            RequestEvent::Checked { cancelled } => {
                self.doing = if cancelled {
                    ResolveAction::Failed(NetworkError::Cancelled)
                } else {
                    ResolveAction::LookAgain(self.hop)
                };
            },
            _ => {},
        }
        self.doing
    }
}

/// What a ping does next.
#[derive(Clone, Copy, Debug, PartialEq, Eq)]
pub enum PingAction {
    /// Resolve the destination.
    Resolve(ResolveRun),
    /// Use a sequence number.
    TakeSequence(MacAddress),
    /// Make an echo.
    Build {
        /// Next hop.
        mac: MacAddress,
    },
    /// Send it.
    Transmit,
    /// Read the clock; the wait begins.
    Start,
    /// Read the clock.
    Clock,
    /// Ask the session whether to go on.
    Checkpoint,
    /// Look for an answer.
    Take,
    /// It was answered.
    Answered(PingReply),
    /// It failed.
    Failed(NetworkError),
}

/// A ping.
#[derive(Clone, Copy, Debug, PartialEq, Eq)]
pub struct PingRun {
    /// Destination.
    pub destination: Ipv4Address,
    /// Sequence number.
    pub sequence: u16,
    /// When the wait ends.
    pub deadline: u64,
    /// What is being done.
    pub doing: PingAction,
}

impl PingRun {
    /// Begin a ping; one to this machine is answered at once and uses a
    /// sequence number.
    pub fn start(state: &mut NetworkState, destination: Ipv4Address) -> (run: Self)
        requires
            old(state).well_formed(),
        ensures
            final(state).well_formed(),
            run == (PingRun {
                destination,
                sequence: 0,
                deadline: 0,
                doing: match old(state).configuration {
                    None => PingAction::Failed(NetworkError::NotConfigured),
                    Some(c) => if destination == c.address {
                        PingAction::Answered(
                            PingReply {
                                source: destination,
                                sequence: old(state).next_sequence,
                                bytes: crate::network::exchange::OWN_ECHO_BYTES,
                            },
                        )
                    } else {
                        PingAction::Resolve(ResolveRun::first(c, destination))
                    },
                },
            }),
            *final(state) == (NetworkState {
                next_sequence: if run.doing is Answered {
                    crate::network::exchange::next_sequence(old(state).next_sequence)
                } else {
                    old(state).next_sequence
                },
                ..*old(state)
            }),
    {
        let doing = match state.begin_ping(destination) {
            PingStart::Fail(error) => PingAction::Failed(error),
            PingStart::Own(reply) => PingAction::Answered(reply),
            PingStart::Resolve => match state.configuration {
                Some(c) => PingAction::Resolve(ResolveRun::start(&c, destination)),
                None => PingAction::Failed(NetworkError::NotConfigured),
            },
        };
        PingRun { destination, sequence: 0, deadline: 0, doing }
    }

    /// Whether an event answers what is being done.
    pub open spec fn expects(self, event: RequestEvent) -> bool {
        match self.doing {
            PingAction::Resolve(run) => run.expects(event),
            PingAction::TakeSequence(_) => event is Sequence,
            PingAction::Build { .. } => event is Built,
            PingAction::Transmit => event is Sent,
            PingAction::Start | PingAction::Clock => event is Now,
            PingAction::Checkpoint => event is Checked,
            PingAction::Take => event is TookEcho,
            PingAction::Answered(_) | PingAction::Failed(_) => false,
        }
    }

    /// The run after an event, once the destination is resolved. An answer of
    /// somebody else is passed over.
    pub open spec fn sent(self, event: RequestEvent) -> PingRun {
        let doing = |action: PingAction| PingRun { doing: action, ..self };
        match event {
            RequestEvent::Sequence(sequence) => match self.doing {
                PingAction::TakeSequence(mac) => PingRun {
                    sequence,
                    doing: PingAction::Build { mac },
                    ..self
                },
                _ => self,
            },
            RequestEvent::Built { failed } => match failed {
                None => doing(PingAction::Transmit),
                Some(error) => doing(PingAction::Failed(error)),
            },
            RequestEvent::Sent { failed } => match failed {
                None => doing(PingAction::Start),
                Some(error) => doing(PingAction::Failed(error)),
            },
            RequestEvent::Now(now) => if self.doing is Start {
                PingRun { deadline: deadline_after(now), doing: PingAction::Clock, ..self }
            } else if now < self.deadline {
                doing(PingAction::Checkpoint)
            } else {
                doing(PingAction::Failed(NetworkError::Timeout))
            },
            RequestEvent::Checked { cancelled } => if cancelled {
                doing(PingAction::Failed(NetworkError::Cancelled))
            } else {
                doing(PingAction::Take)
            },
            RequestEvent::TookEcho(reply) => match completes(
                reply,
                self.destination,
                self.sequence,
            ) {
                Some(answer) => doing(PingAction::Answered(answer)),
                None => doing(PingAction::Clock),
            },
            _ => self,
        }
    }

    /// The run after an event.
    pub open spec fn after(self, event: RequestEvent) -> PingRun {
        match self.doing {
            PingAction::Resolve(run) => PingRun {
                doing: match run.after(event).doing {
                    ResolveAction::Known(mac) => PingAction::TakeSequence(mac),
                    ResolveAction::Failed(error) => PingAction::Failed(error),
                    _ => PingAction::Resolve(run.after(event)),
                },
                ..self
            },
            _ => self.sent(event),
        }
    }

    /// Take an event and go on.
    pub fn observe(&mut self, event: RequestEvent) -> (action: PingAction)
        requires
            old(self).expects(event),
        ensures
            *final(self) == old(self).after(event),
            action == final(self).doing,
    {
        match self.doing {
            PingAction::Resolve(mut run) => {
                self.doing = match run.observe(event) {
                    ResolveAction::Known(mac) => PingAction::TakeSequence(mac),
                    ResolveAction::Failed(error) => PingAction::Failed(error),
                    _ => PingAction::Resolve(run),
                };
                return self.doing;
            },
            _ => {},
        }
        match event {
            RequestEvent::Sequence(sequence) => {
                match self.doing {
                    PingAction::TakeSequence(mac) => {
                        self.sequence = sequence;
                        self.doing = PingAction::Build { mac };
                    },
                    _ => {},
                }
            },
            RequestEvent::Built { failed } => {
                self.doing = match failed {
                    None => PingAction::Transmit,
                    Some(error) => PingAction::Failed(error),
                };
            },
            RequestEvent::Sent { failed } => {
                self.doing = match failed {
                    None => PingAction::Start,
                    Some(error) => PingAction::Failed(error),
                };
            },
            RequestEvent::Now(now) => {
                match self.doing {
                    PingAction::Start => {
                        self.deadline = answer_deadline(now);
                        self.doing = PingAction::Clock;
                    },
                    _ => {
                        self.doing = if now < self.deadline {
                            PingAction::Checkpoint
                        } else {
                            PingAction::Failed(NetworkError::Timeout)
                        };
                    },
                }
            },
            RequestEvent::Checked { cancelled } => {
                self.doing = if cancelled {
                    PingAction::Failed(NetworkError::Cancelled)
                } else {
                    PingAction::Take
                };
            },
            RequestEvent::TookEcho(reply) => {
                self.doing = match ping_answer(reply, self.destination, self.sequence) {
                    Some(answer) => PingAction::Answered(answer),
                    None => PingAction::Clock,
                };
            },
            _ => {},
        }
        self.doing
    }
}

/// What sending a datagram does next.
#[derive(Clone, Copy, Debug, PartialEq, Eq)]
pub enum SendAction {
    /// Resolve the destination.
    Resolve(ResolveRun),
    /// Choose a free port.
    ChoosePort(MacAddress),
    /// Bind a port.
    Bind {
        /// Next hop.
        mac: MacAddress,
        /// Port.
        port: u16,
    },
    /// Make the datagram.
    Build {
        /// Next hop.
        mac: MacAddress,
        /// Port.
        port: u16,
    },
    /// Send it.
    Transmit {
        /// Port.
        port: u16,
    },
    /// It left from this port.
    Sent(u16),
    /// It failed.
    Failed(NetworkError),
}

/// Sending a datagram.
#[derive(Clone, Copy, Debug, PartialEq, Eq)]
pub struct SendRun {
    /// The port that it is to leave from; any free port otherwise.
    pub source_port: Option<u16>,
    /// What is being done.
    pub doing: SendAction,
}

impl SendRun {
    /// Begin to send a datagram of `bytes` bytes, at most `most`.
    pub fn start(
        configuration: Option<Ipv4Configuration>,
        destination: Ipv4Address,
        source_port: Option<u16>,
        bytes: usize,
        most: usize,
    ) -> (run: Self)
        ensures
            run == (SendRun {
                source_port,
                doing: if bytes > most {
                    SendAction::Failed(NetworkError::TooLarge)
                } else {
                    match configuration {
                        None => SendAction::Failed(NetworkError::NotConfigured),
                        Some(c) => SendAction::Resolve(ResolveRun::first(c, destination)),
                    }
                },
            }),
    {
        let doing = if bytes > most {
            SendAction::Failed(NetworkError::TooLarge)
        } else {
            match configuration {
                None => SendAction::Failed(NetworkError::NotConfigured),
                Some(c) => SendAction::Resolve(ResolveRun::start(&c, destination)),
            }
        };
        SendRun { source_port, doing }
    }

    /// Whether an event answers what is being done.
    pub open spec fn expects(self, event: RequestEvent) -> bool {
        match self.doing {
            SendAction::Resolve(run) => run.expects(event),
            SendAction::ChoosePort(_) => event is Chosen,
            SendAction::Bind { .. } => event is Bound,
            SendAction::Build { .. } => event is Built,
            SendAction::Transmit { .. } => event is Sent,
            SendAction::Sent(_) | SendAction::Failed(_) => false,
        }
    }

    /// What follows an event.
    pub open spec fn next(self, event: RequestEvent) -> SendAction {
        match (self.doing, event) {
            (SendAction::Resolve(run), _) => match run.after(event).doing {
                ResolveAction::Known(mac) => match self.source_port {
                    Some(port) => SendAction::Bind { mac, port },
                    None => SendAction::ChoosePort(mac),
                },
                ResolveAction::Failed(error) => SendAction::Failed(error),
                _ => SendAction::Resolve(run.after(event)),
            },
            (SendAction::ChoosePort(mac), RequestEvent::Chosen(Ok(port))) => SendAction::Bind {
                mac,
                port,
            },
            (SendAction::ChoosePort(_), RequestEvent::Chosen(Err(error))) => SendAction::Failed(
                error,
            ),
            (SendAction::Bind { mac, port }, RequestEvent::Bound { failed: None }) =>
                SendAction::Build { mac, port },
            (SendAction::Bind { .. }, RequestEvent::Bound { failed: Some(error) }) =>
                SendAction::Failed(error),
            (SendAction::Build { port, .. }, RequestEvent::Built { failed: None }) =>
                SendAction::Transmit { port },
            (SendAction::Build { .. }, RequestEvent::Built { failed: Some(error) }) =>
                SendAction::Failed(error),
            (SendAction::Transmit { port }, RequestEvent::Sent { failed: None }) =>
                SendAction::Sent(port),
            (SendAction::Transmit { .. }, RequestEvent::Sent { failed: Some(error) }) =>
                SendAction::Failed(error),
            _ => self.doing,
        }
    }

    /// Take an event and go on.
    pub fn observe(&mut self, event: RequestEvent) -> (action: SendAction)
        requires
            old(self).expects(event),
        ensures
            action == old(self).next(event),
            *final(self) == (SendRun { doing: action, ..*old(self) }),
    {
        let action = match (self.doing, event) {
            (SendAction::Resolve(mut run), _) => match run.observe(event) {
                ResolveAction::Known(mac) => match self.source_port {
                    Some(port) => SendAction::Bind { mac, port },
                    None => SendAction::ChoosePort(mac),
                },
                ResolveAction::Failed(error) => SendAction::Failed(error),
                _ => SendAction::Resolve(run),
            },
            (SendAction::ChoosePort(mac), RequestEvent::Chosen(Ok(port))) => SendAction::Bind {
                mac,
                port,
            },
            (SendAction::ChoosePort(_), RequestEvent::Chosen(Err(error))) => SendAction::Failed(
                error,
            ),
            (SendAction::Bind { mac, port }, RequestEvent::Bound { failed: None }) =>
                SendAction::Build { mac, port },
            (SendAction::Bind { .. }, RequestEvent::Bound { failed: Some(error) }) =>
                SendAction::Failed(error),
            (SendAction::Build { port, .. }, RequestEvent::Built { failed: None }) =>
                SendAction::Transmit { port },
            (SendAction::Build { .. }, RequestEvent::Built { failed: Some(error) }) =>
                SendAction::Failed(error),
            (SendAction::Transmit { port }, RequestEvent::Sent { failed: None }) =>
                SendAction::Sent(port),
            (SendAction::Transmit { .. }, RequestEvent::Sent { failed: Some(error) }) =>
                SendAction::Failed(error),
            _ => self.doing,
        };
        self.doing = action;
        action
    }
}

/// No wait outlasts its deadline, and none begins before its message is sent.
pub proof fn waits_end_at_their_deadline(
    lease: LeaseRun,
    resolve: ResolveRun,
    ping: PingRun,
    event: RequestEvent,
    now: u64,
)
    ensures
        lease.doing is Clock && now >= lease.deadline ==> lease.after(RequestEvent::Now(now)).doing
            == LeaseAction::Failed(NetworkError::Timeout),
        resolve.doing is Clock && now >= resolve.deadline ==> resolve.after(
            RequestEvent::Now(now),
        ).doing == ResolveAction::Failed(NetworkError::Timeout),
        ping.doing is Clock && now >= ping.deadline ==> ping.after(RequestEvent::Now(now)).doing
            == PingAction::Failed(NetworkError::Timeout),
        lease.expects(event) && lease.after(event).doing is Start ==> lease.doing is Transmit,
        resolve.expects(event) && resolve.after(event).doing is Start ==> resolve.doing
            is Transmit,
        ping.expects(event) && ping.after(event).doing is Start ==> ping.doing is Transmit,
{
}

/// A datagram leaves only from a port that was bound for it, and from the port
/// that was asked for, if one was.
pub proof fn datagrams_leave_from_bound_ports(run: SendRun, event: RequestEvent)
    requires
        run.expects(event),
    ensures
        run.next(event) matches SendAction::Sent(port) ==> run.doing == (SendAction::Transmit {
            port,
        }),
        run.next(event) matches SendAction::Transmit { port } ==> run.doing matches
            SendAction::Build { port: p, .. } && p == port,
        run.next(event) matches SendAction::Build { mac, port } ==> run.doing == (
        SendAction::Bind { mac, port }) && event == (RequestEvent::Bound { failed: None }),
        run.next(event) matches SendAction::Bind { port, .. } ==> match run.source_port {
            Some(asked) => run.doing is Resolve ==> port == asked,
            None => event == RequestEvent::Chosen(Ok(port)),
        },
{
}

/// The address that is asked for and the server that is asked are those of the
/// first offer. A refusal, and an offer without a server, end the transaction.
/// The configuration that comes of it takes each field from the acknowledgement
/// where that names one and from the offer otherwise.
pub proof fn leases_follow_the_offer(run: LeaseRun, packet: DhcpPacket)
    ensures
        ({
            let next = run.after(RequestEvent::TookDhcp(Some(packet)));
            let kind = packet.message_type;
            &&& next.transaction == run.transaction
            &&& next.deadline == run.deadline
            &&& kind == DhcpMessageType::NegativeAcknowledge ==> next.doing == LeaseAction::Failed(
                NetworkError::Protocol,
            )
            &&& run.offer is None && kind == DhcpMessageType::Offer
                && packet.server_identifier is None ==> next.doing == LeaseAction::Failed(
                NetworkError::Protocol,
            )
            &&& run.offer is None && kind == DhcpMessageType::Offer ==> (
            packet.server_identifier matches Some(server) ==> next.offer == Some(packet)
                && next.doing == (LeaseAction::BuildRequest { address: packet.your_ip, server }))
            &&& run.offer is None && kind != DhcpMessageType::Offer && kind
                != DhcpMessageType::NegativeAcknowledge ==> next == (LeaseRun {
                doing: LeaseAction::Clock,
                ..run
            })
            &&& run.offer is Some && kind != DhcpMessageType::Acknowledge && kind
                != DhcpMessageType::NegativeAcknowledge ==> next == (LeaseRun {
                doing: LeaseAction::Clock,
                ..run
            })
            &&& (next.doing matches LeaseAction::Configured(c) ==> (run.offer matches Some(offer)
                && {
                &&& kind == DhcpMessageType::Acknowledge
                &&& c.address == packet.your_ip
                &&& (packet.router matches Some(router) ==> c.gateway == router)
                &&& packet.router is None ==> offer.router == Some(c.gateway)
                &&& (packet.subnet_mask matches Some(mask) ==> c.subnet_mask == mask)
                &&& packet.subnet_mask is None ==> offer.subnet_mask == Some(c.subnet_mask)
                &&& packet.lease_seconds is Some ==> c.lease_seconds == packet.lease_seconds
                &&& packet.lease_seconds is None ==> c.lease_seconds == offer.lease_seconds
            }))
            &&& (run.offer matches Some(offer) ==> kind == DhcpMessageType::Acknowledge && (
            packet.router is Some || offer.router is Some) && (packet.subnet_mask is Some
                || offer.subnet_mask is Some) && packet.your_ip != (Ipv4Address {
                a: 0,
                b: 0,
                c: 0,
                d: 0,
            }) ==> next.doing is Configured)
        }),
{
}

/// Whatever stops a message, a wait or the session ends the request with that
/// error, and with no other: what could not be made or sent, the deadline, and
/// the user. While there is time left the request goes on.
pub proof fn requests_fail_for_their_reason(
    lease: LeaseRun,
    resolve: ResolveRun,
    ping: PingRun,
    error: NetworkError,
    now: u64,
)
    requires
        !(ping.doing is Resolve),
    ensures
        lease.after(RequestEvent::Built { failed: Some(error) }).doing == LeaseAction::Failed(
            error,
        ),
        lease.after(RequestEvent::Sent { failed: Some(error) }).doing == LeaseAction::Failed(error),
        lease.after(RequestEvent::Checked { cancelled: true }).doing == LeaseAction::Failed(
            NetworkError::Cancelled,
        ),
        lease.doing is Clock && now < lease.deadline ==> lease.after(RequestEvent::Now(now)).doing
            == LeaseAction::Checkpoint,
        lease.after(RequestEvent::Checked { cancelled: false }).doing == LeaseAction::Take,
        lease.after(RequestEvent::TookDhcp(None)).doing == LeaseAction::Clock,
        lease.after(RequestEvent::Built { failed: None }).doing == LeaseAction::Transmit,
        lease.after(RequestEvent::Sent { failed: None }).doing == LeaseAction::Start,
        resolve.after(RequestEvent::Built { failed: Some(error) }).doing == ResolveAction::Failed(
            error,
        ),
        resolve.after(RequestEvent::Sent { failed: Some(error) }).doing == ResolveAction::Failed(
            error,
        ),
        resolve.after(RequestEvent::Checked { cancelled: true }).doing == ResolveAction::Failed(
            NetworkError::Cancelled,
        ),
        resolve.doing is Clock && now < resolve.deadline ==> resolve.after(
            RequestEvent::Now(now),
        ).doing == ResolveAction::Checkpoint,
        resolve.after(RequestEvent::Built { failed: None }).doing == ResolveAction::Transmit,
        resolve.after(RequestEvent::Sent { failed: None }).doing == ResolveAction::Start,
        ping.after(RequestEvent::Built { failed: Some(error) }).doing == PingAction::Failed(error),
        ping.after(RequestEvent::Sent { failed: Some(error) }).doing == PingAction::Failed(error),
        ping.after(RequestEvent::Checked { cancelled: true }).doing == PingAction::Failed(
            NetworkError::Cancelled,
        ),
        ping.doing is Clock && now < ping.deadline ==> ping.after(RequestEvent::Now(now)).doing
            == PingAction::Checkpoint,
        ping.after(RequestEvent::Checked { cancelled: false }).doing == PingAction::Take,
        ping.after(RequestEvent::Built { failed: None }).doing == PingAction::Transmit,
        ping.after(RequestEvent::Sent { failed: None }).doing == PingAction::Start,
{
}

/// A wait begins when the clock is first read after sending, and lasts two
/// seconds at most.
pub proof fn waits_last_two_seconds(
    lease: LeaseRun,
    resolve: ResolveRun,
    ping: PingRun,
    now: u64,
)
    ensures
        lease.doing is Start ==> {
            let next = lease.after(RequestEvent::Now(now));
            &&& next.doing is Clock
            &&& now <= next.deadline <= now + 2000
            &&& next.deadline < u64::MAX ==> next.deadline == now + 2000
        },
        resolve.doing is Start ==> {
            let next = resolve.after(RequestEvent::Now(now));
            &&& next.doing is Clock
            &&& now <= next.deadline <= now + 2000
            &&& next.deadline < u64::MAX ==> next.deadline == now + 2000
        },
        ping.doing is Start ==> {
            let next = ping.after(RequestEvent::Now(now));
            &&& next.doing is Clock
            &&& now <= next.deadline <= now + 2000
            &&& next.deadline < u64::MAX ==> next.deadline == now + 2000
        },
{
}

/// The hardware address that is looked for and asked for is that of the next
/// hop: of the destination in the own subnet, of the gateway otherwise. It is
/// known exactly when it is found, and what is known is not asked for.
pub proof fn the_next_hop_is_resolved(
    configuration: Ipv4Configuration,
    destination: Ipv4Address,
    run: ResolveRun,
    event: RequestEvent,
    mac: MacAddress,
)
    requires
        run.expects(event),
    ensures
        ({
            let own = configuration.address;
            let mask = configuration.subnet_mask;
            let near = {
                &&& own.a & mask.a == destination.a & mask.a
                &&& own.b & mask.b == destination.b & mask.b
                &&& own.c & mask.c == destination.c & mask.c
                &&& own.d & mask.d == destination.d & mask.d
            };
            let first = ResolveRun::first(configuration, destination);
            &&& first.hop == if near {
                destination
            } else {
                configuration.gateway
            }
            &&& first.doing == ResolveAction::Lookup(first.hop)
        }),
        run.after(event).hop == run.hop,
        run.after(event).doing == ResolveAction::Known(mac) <==> event == RequestEvent::Found(
            Some(mac),
        ),
        run.after(event).doing is Build <==> run.doing is Lookup && event == RequestEvent::Found(
            None,
        ),
        (run.after(event).doing matches ResolveAction::Build(asked) ==> asked == run.hop),
        (run.after(event).doing matches ResolveAction::LookAgain(asked) ==> asked == run.hop
            && event == (RequestEvent::Checked { cancelled: false })),
{
}

/// An echo is sent to the hardware address that was resolved, with the sequence
/// number that was taken for it, and the ping is answered only by its
/// destination, with that sequence number.
pub proof fn pings_keep_their_destination(run: PingRun, event: RequestEvent)
    requires
        run.expects(event),
    ensures
        run.after(event).destination == run.destination,
        (run.after(event).doing matches PingAction::TakeSequence(mac) ==> event
            == RequestEvent::Found(Some(mac))),
        (run.after(event).doing matches PingAction::Build { mac } ==> run.doing
            == PingAction::TakeSequence(mac) && event == RequestEvent::Sequence(
            run.after(event).sequence,
        )),
        !(event is Sequence) ==> run.after(event).sequence == run.sequence,
        (run.after(event).doing matches PingAction::Answered(answer) ==> {
            &&& event matches RequestEvent::TookEcho(Some(echo))
            &&& echo.source == run.destination
            &&& answer.source == run.destination
            &&& answer.sequence == run.sequence
            &&& answer.bytes == echo.bytes
        }),
        (event matches RequestEvent::TookEcho(Some(echo)) ==> run.doing is Take && echo.source
            == run.destination ==> run.after(event).doing is Answered),
        run.doing is Take && !(run.after(event).doing is Answered) ==> run.after(event).doing
            is Clock,
{
}

/// A datagram is sent to the hardware address that was resolved; whatever fails
/// ends the sending with that error.
pub proof fn datagrams_go_to_the_resolved_address(
    run: SendRun,
    event: RequestEvent,
    error: NetworkError,
)
    requires
        run.expects(event),
    ensures
        (run.doing matches SendAction::Resolve(resolve) ==> {
            &&& (event matches RequestEvent::Found(Some(mac)) ==> run.next(event)
                == match run.source_port {
                Some(port) => SendAction::Bind { mac, port },
                None => SendAction::ChoosePort(mac),
            })
            &&& (event == (RequestEvent::Checked { cancelled: true }) ==> run.next(event)
                == SendAction::Failed(NetworkError::Cancelled))
        }),
        (run.doing matches SendAction::ChoosePort(mac) ==> {
            &&& (event matches RequestEvent::Chosen(Ok(port)) ==> run.next(event) == (
            SendAction::Bind { mac, port }))
            &&& event == RequestEvent::Chosen(Err(error)) ==> run.next(event)
                == SendAction::Failed(error)
        }),
        (run.doing matches SendAction::Bind { mac, port } ==> {
            &&& event == (RequestEvent::Bound { failed: None }) ==> run.next(event) == (
            SendAction::Build { mac, port })
            &&& event == (RequestEvent::Bound { failed: Some(error) }) ==> run.next(event)
                == SendAction::Failed(error)
        }),
        (run.doing matches SendAction::Build { mac, port } ==> {
            &&& event == (RequestEvent::Built { failed: None }) ==> run.next(event) == (
            SendAction::Transmit { port })
            &&& event == (RequestEvent::Built { failed: Some(error) }) ==> run.next(event)
                == SendAction::Failed(error)
        }),
        (run.doing matches SendAction::Transmit { port } ==> {
            &&& event == (RequestEvent::Sent { failed: None }) ==> run.next(event)
                == SendAction::Sent(port)
            &&& event == (RequestEvent::Sent { failed: Some(error) }) ==> run.next(event)
                == SendAction::Failed(error)
        }),
{
}

} // verus!
