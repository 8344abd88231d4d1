//! Received frames and the state that they change.

use crate::network::address::{Ipv4Address, MacAddress, NetworkStatus};
use crate::network::lease::{network_status, status_of, DhcpPacket, Ipv4Configuration};
use crate::network::NetworkError;
use std::collections::VecDeque;
use vstd::prelude::*;

verus! {

/// Frames handled in one poll.
pub const POLL_BUDGET: usize = 8;

/// Messages kept of each kind.
pub const INBOX_CAPACITY: usize = 4;

/// First port that is given out.
pub const FIRST_PORT: u16 = 49152;

/// An address resolution message.
#[derive(Clone, Copy, Debug, PartialEq, Eq, Structural)]
pub struct ArpFrame {
    /// Operation; 1 asks.
    pub operation: u16,
    /// Sender.
    pub sender_ip: Ipv4Address,
    /// Sender.
    pub sender_mac: MacAddress,
    /// Who is asked for.
    pub target_ip: Ipv4Address,
}

/// An echo message.
#[derive(Clone, Copy, Debug, PartialEq, Eq, Structural)]
pub struct EchoFrame {
    /// Kind; 8 asks, 0 answers.
    pub kind: u8,
    /// Sender.
    pub source_ip: Ipv4Address,
    /// Sender.
    pub source_mac: MacAddress,
    /// Receiver.
    pub destination_ip: Ipv4Address,
    /// Identifier.
    pub identifier: u16,
    /// Sequence number.
    pub sequence: u16,
    /// Bytes of the payload.
    pub bytes: usize,
}

/// A segment of a connection.
#[derive(Clone, Copy, Debug, PartialEq, Eq, Structural)]
pub struct SegmentFrame {
    /// Sender.
    pub source_ip: Ipv4Address,
    /// Receiver.
    pub destination_ip: Ipv4Address,
    /// Sender's hardware address, where the frame holds a valid one.
    pub source_mac: Option<MacAddress>,
    /// Connection that takes the segment.
    pub connection: Option<usize>,
}

/// A datagram.
#[derive(Clone, Copy, Debug, PartialEq, Eq, Structural)]
pub struct DatagramFrame {
    /// Sender.
    pub source_ip: Ipv4Address,
    /// Sender.
    pub source_mac: MacAddress,
    /// Receiver.
    pub destination_ip: Ipv4Address,
}

/// A frame as each parser sees it.
#[derive(Clone, Copy, Debug, PartialEq, Eq, Structural)]
pub struct ParsedFrame {
    /// As an address message.
    pub dhcp: Option<DhcpPacket>,
    /// As an address resolution message.
    pub arp: Option<ArpFrame>,
    /// As an echo message.
    pub echo: Option<EchoFrame>,
    /// As a segment.
    pub segment: Option<SegmentFrame>,
    /// As a datagram.
    pub datagram: Option<DatagramFrame>,
}

/// What is done with a frame once its sender is learned.
#[derive(Clone, Copy, Debug, PartialEq, Eq, Structural)]
pub enum FrameAction {
    /// Nothing.
    Done,
    /// Keep an address message.
    KeepDhcp(DhcpPacket),
    /// Answer an address resolution.
    ReplyArp(ArpFrame),
    /// Answer an echo.
    ReplyEcho(EchoFrame),
    /// Keep an echo answer.
    KeepEcho(EchoFrame),
    /// Hand the segment to a connection.
    Deliver(usize),
    /// Hand the datagram to its port.
    Admit,
    /// Count the frame as ignored.
    Ignore,
    /// The frame is out of protocol.
    Malformed,
}

/// What is done with a frame: first the sender is learned, if there is one.
#[derive(Clone, Copy, Debug, PartialEq, Eq)]
pub struct FramePlan {
    /// Sender to learn.
    pub learn: Option<(Ipv4Address, MacAddress)>,
    /// What follows.
    pub action: FrameAction,
}

/// What is done with an address resolution message.
pub open spec fn arp_plan(arp: ArpFrame, configuration: Option<Ipv4Configuration>) -> FramePlan {
    FramePlan {
        learn: Some((arp.sender_ip, arp.sender_mac)),
        action: match configuration {
            Some(c) if arp.operation == 1 && arp.target_ip == c.address => FrameAction::ReplyArp(
                arp,
            ),
            _ => FrameAction::Done,
        },
    }
}

/// What is done with an echo message.
pub open spec fn echo_plan(echo: EchoFrame) -> FramePlan {
    FramePlan {
        learn: Some((echo.source_ip, echo.source_mac)),
        action: if echo.kind == 8 {
            FrameAction::ReplyEcho(echo)
        } else if echo.kind == 0 {
            FrameAction::KeepEcho(echo)
        } else {
            FrameAction::Done
        },
    }
}

/// What is done with a segment.
pub open spec fn segment_plan(segment: SegmentFrame) -> FramePlan {
    match segment.source_mac {
        Some(mac) => FramePlan {
            learn: Some((segment.source_ip, mac)),
            action: match segment.connection {
                Some(connection) => FrameAction::Deliver(connection),
                None => FrameAction::Ignore,
            },
        },
        None => FramePlan { learn: None, action: FrameAction::Malformed },
    }
}

/// What is done with a frame.
pub open spec fn frame_plan(
    frame: ParsedFrame,
    configuration: Option<Ipv4Configuration>,
) -> FramePlan {
    let ignore = FramePlan { learn: None, action: FrameAction::Ignore };
    match frame.dhcp {
        Some(packet) => FramePlan { learn: None, action: FrameAction::KeepDhcp(packet) },
        None => match frame.arp {
            Some(arp) => arp_plan(arp, configuration),
            None => match configuration {
                None => ignore,
                Some(c) => match frame.echo {
                    Some(echo) if echo.destination_ip == c.address => echo_plan(echo),
                    _ => match frame.segment {
                        Some(segment) if segment.destination_ip == c.address => segment_plan(
                            segment,
                        ),
                        _ => match frame.datagram {
                            Some(datagram) if datagram.destination_ip == c.address => FramePlan {
                                learn: Some((datagram.source_ip, datagram.source_mac)),
                                action: FrameAction::Admit,
                            },
                            _ => ignore,
                        },
                    },
                },
            },
        },
    }
}

/// Decide what is done with a frame.
pub fn plan_frame(frame: &ParsedFrame, configuration: Option<Ipv4Configuration>) -> (plan:
    FramePlan)
    ensures
        plan == frame_plan(*frame, configuration),
{
    match frame.dhcp {
        Some(packet) => return FramePlan { learn: None, action: FrameAction::KeepDhcp(packet) },
        None => {},
    }
    match frame.arp {
        Some(arp) => {
            let asks = match configuration {
                Some(c) => arp.operation == 1 && arp.target_ip == c.address,
                None => false,
            };
            return FramePlan {
                learn: Some((arp.sender_ip, arp.sender_mac)),
                action: if asks {
                    FrameAction::ReplyArp(arp)
                } else {
                    FrameAction::Done
                },
            };
        },
        None => {},
    }
    let address = match configuration {
        Some(c) => c.address,
        None => return FramePlan { learn: None, action: FrameAction::Ignore },
    };
    match frame.echo {
        Some(echo) => {
            if echo.destination_ip == address {
                return FramePlan {
                    learn: Some((echo.source_ip, echo.source_mac)),
                    action: if echo.kind == 8 {
                        FrameAction::ReplyEcho(echo)
                    } else if echo.kind == 0 {
                        FrameAction::KeepEcho(echo)
                    } else {
                        FrameAction::Done
                    },
                };
            }
        },
        None => {},
    }
    match frame.segment {
        Some(segment) => {
            if segment.destination_ip == address {
                return match segment.source_mac {
                    Some(mac) => FramePlan {
                        learn: Some((segment.source_ip, mac)),
                        action: match segment.connection {
                            Some(connection) => FrameAction::Deliver(connection),
                            None => FrameAction::Ignore,
                        },
                    },
                    None => FramePlan { learn: None, action: FrameAction::Malformed },
                };
            }
        },
        None => {},
    }
    match frame.datagram {
        Some(datagram) => {
            if datagram.destination_ip == address {
                return FramePlan {
                    learn: Some((datagram.source_ip, datagram.source_mac)),
                    action: FrameAction::Admit,
                };
            }
        },
        None => {},
    }
    FramePlan { learn: None, action: FrameAction::Ignore }
}

/// Only frames for this machine are answered, delivered or admitted.
pub proof fn only_own_frames_have_effect(frame: ParsedFrame, configuration: Option<Ipv4Configuration>)
    ensures
        frame_plan(frame, configuration).action matches FrameAction::ReplyArp(arp) ==> (
        configuration matches Some(c) && arp.target_ip == c.address),
        frame_plan(frame, configuration).action matches FrameAction::ReplyEcho(echo) ==> (
        configuration matches Some(c) && echo.destination_ip == c.address),
        frame_plan(frame, configuration).action is Deliver ==> (configuration matches Some(c)
            && frame.segment matches Some(s) && s.destination_ip == c.address),
        frame_plan(frame, configuration).action is Admit ==> (configuration matches Some(c)
            && frame.datagram matches Some(d) && d.destination_ip == c.address),
{
}

/// An echo answer that is kept.
#[derive(Clone, Copy, Debug, PartialEq, Eq, Structural)]
pub struct EchoReply {
    /// Sender.
    pub source: Ipv4Address,
    /// Identifier.
    pub identifier: u16,
    /// Sequence number.
    pub sequence: u16,
    /// Bytes of the payload.
    pub bytes: usize,
}

/// Counters of the network service.
#[derive(Clone, Copy, Debug, PartialEq, Eq, Structural)]
pub struct NetworkStats {
    /// Polls.
    pub checkpoints: u64,
    /// Frames received.
    pub received_frames: u64,
    /// Frames sent.
    pub transmitted_frames: u64,
    /// Frames ignored.
    pub ignored_frames: u64,
    /// Address resolutions answered.
    pub arp_replies: u64,
    /// Echoes answered.
    pub echo_replies: u64,
    /// Datagrams kept.
    pub udp_retained: u64,
    /// Datagrams for ports that nobody has.
    pub udp_unbound: u64,
    /// Datagrams for full ports.
    pub udp_dropped: u64,
    /// Failures.
    pub errors: u64,
}

/// One more, up to the largest number.
pub open spec fn one_more(count: u64) -> u64 {
    if count == u64::MAX {
        count
    } else {
        (count + 1) as u64
    }
}

/// What became of a datagram at its port.
#[derive(Clone, Copy, Debug, PartialEq, Eq, Structural)]
pub enum Admission {
    /// It is kept.
    Retained,
    /// Nobody has the port.
    Unbound,
    /// The port is full.
    Dropped,
}

/// What happened to the service.
#[derive(Clone, Copy, Debug, PartialEq, Eq, Structural)]
pub enum Counted {
    /// A poll began.
    Checkpoint,
    /// A frame came.
    Received,
    /// A frame went out.
    Transmitted,
    /// A frame was ignored.
    Ignored,
    /// An address resolution was answered.
    ArpReply,
    /// An echo was answered.
    EchoReply,
    /// A datagram reached its port.
    Datagram(Admission),
    /// Something failed.
    Error,
}

/// Counters of a network that has done nothing.
pub open spec fn no_traffic() -> NetworkStats {
    NetworkStats {
        checkpoints: 0,
        received_frames: 0,
        transmitted_frames: 0,
        ignored_frames: 0,
        arp_replies: 0,
        echo_replies: 0,
        udp_retained: 0,
        udp_unbound: 0,
        udp_dropped: 0,
        errors: 0,
    }
}

impl NetworkStats {
    /// The counters after an event.
    pub open spec fn after(self, event: Counted) -> NetworkStats {
        match event {
            Counted::Checkpoint => NetworkStats { checkpoints: one_more(self.checkpoints), ..self },
            Counted::Received => NetworkStats {
                received_frames: one_more(self.received_frames),
                ..self
            },
            Counted::Transmitted => NetworkStats {
                transmitted_frames: one_more(self.transmitted_frames),
                ..self
            },
            Counted::Ignored => NetworkStats {
                ignored_frames: one_more(self.ignored_frames),
                ..self
            },
            Counted::ArpReply => NetworkStats { arp_replies: one_more(self.arp_replies), ..self },
            Counted::EchoReply => NetworkStats {
                echo_replies: one_more(self.echo_replies),
                ..self
            },
            Counted::Datagram(Admission::Retained) => NetworkStats {
                udp_retained: one_more(self.udp_retained),
                ..self
            },
            Counted::Datagram(Admission::Unbound) => NetworkStats {
                udp_unbound: one_more(self.udp_unbound),
                ..self
            },
            Counted::Datagram(Admission::Dropped) => NetworkStats {
                udp_dropped: one_more(self.udp_dropped),
                ..self
            },
            Counted::Error => NetworkStats { errors: one_more(self.errors), ..self },
        }
    }

    /// Counters at zero.
    pub fn new() -> (stats: Self)
        ensures
            stats == no_traffic(),
    {
        NetworkStats {
            checkpoints: 0,
            received_frames: 0,
            transmitted_frames: 0,
            ignored_frames: 0,
            arp_replies: 0,
            echo_replies: 0,
            udp_retained: 0,
            udp_unbound: 0,
            udp_dropped: 0,
            errors: 0,
        }
    }

    /// Count an event.
    pub fn count(&mut self, event: Counted)
        ensures
            *final(self) == old(self).after(event),
    {
        match event {
            Counted::Checkpoint => {
                self.checkpoints = self.checkpoints.saturating_add(1);
            },
            Counted::Received => {
                self.received_frames = self.received_frames.saturating_add(1);
            },
            Counted::Transmitted => {
                self.transmitted_frames = self.transmitted_frames.saturating_add(1);
            },
            Counted::Ignored => {
                self.ignored_frames = self.ignored_frames.saturating_add(1);
            },
            Counted::ArpReply => {
                self.arp_replies = self.arp_replies.saturating_add(1);
            },
            Counted::EchoReply => {
                self.echo_replies = self.echo_replies.saturating_add(1);
            },
            Counted::Datagram(Admission::Retained) => {
                self.udp_retained = self.udp_retained.saturating_add(1);
            },
            Counted::Datagram(Admission::Unbound) => {
                self.udp_unbound = self.udp_unbound.saturating_add(1);
            },
            Counted::Datagram(Admission::Dropped) => {
                self.udp_dropped = self.udp_dropped.saturating_add(1);
            },
            Counted::Error => {
                self.errors = self.errors.saturating_add(1);
            },
        }
    }
}

/// What carrying out an action led to.
#[derive(Clone, Copy, Debug, PartialEq, Eq, Structural)]
pub enum Performed {
    /// It was done.
    Done,
    /// The datagram reached its port.
    Admitted(Admission),
    /// It failed.
    Failed(NetworkError),
    /// The answer could not be sent.
    NotSent(NetworkError),
}

/// What is kept of the network between calls.
#[derive(Debug)]
pub struct NetworkState {
    /// Own hardware address.
    pub mac: MacAddress,
    /// Address in use.
    pub configuration: Option<Ipv4Configuration>,
    /// Next echo sequence number.
    pub next_sequence: u16,
    /// Next port to give out.
    pub next_port: u16,
    /// Address transactions so far.
    pub dhcp_generation: u16,
    /// Address messages that wait.
    pub dhcp_inbox: VecDeque<DhcpPacket>,
    /// Echo answers that wait.
    pub echo_inbox: VecDeque<EchoReply>,
    /// Counters.
    pub stats: NetworkStats,
}

/// A bounded queue with one more entry, if there is room.
pub open spec fn kept<T>(queue: Seq<T>, entry: T) -> Seq<T> {
    if queue.len() < INBOX_CAPACITY {
        queue.push(entry)
    } else {
        queue
    }
}

/// Whether `i` is the first entry for a transaction of this machine.
pub open spec fn first_dhcp(
    queue: Seq<DhcpPacket>,
    transaction: u32,
    mac: MacAddress,
    i: int,
) -> bool {
    &&& 0 <= i < queue.len()
    &&& queue[i].transaction_id == transaction && queue[i].client_mac == mac
    &&& forall|k: int|
        0 <= k < i ==> !((#[trigger] queue[k]).transaction_id == transaction
            && queue[k].client_mac == mac)
}

/// Whether `i` is the first answer to an echo.
pub open spec fn first_echo(
    queue: Seq<EchoReply>,
    identifier: u16,
    sequence: u16,
    i: int,
) -> bool {
    &&& 0 <= i < queue.len()
    &&& queue[i].identifier == identifier && queue[i].sequence == sequence
    &&& forall|k: int|
        0 <= k < i ==> !((#[trigger] queue[k]).identifier == identifier && queue[k].sequence
            == sequence)
}

impl NetworkState {
    /// Whether the queues are within their bounds and the next port is one
    /// that is given out.
    pub open spec fn well_formed(self) -> bool {
        &&& self.dhcp_inbox@.len() <= INBOX_CAPACITY
        &&& self.echo_inbox@.len() <= INBOX_CAPACITY
        &&& self.next_port >= FIRST_PORT
    }

    /// A network without an address.
    pub fn new(mac: MacAddress) -> (state: Self)
        ensures
            state.well_formed(),
            state.mac == mac,
            state.configuration is None,
            state.next_sequence == 1,
            state.next_port == FIRST_PORT,
            state.dhcp_generation == 0,
            state.dhcp_inbox@.len() == 0,
            state.echo_inbox@.len() == 0,
            state.stats == no_traffic(),
    {
        NetworkState {
            mac,
            configuration: None,
            next_sequence: 1,
            next_port: FIRST_PORT,
            dhcp_generation: 0,
            dhcp_inbox: VecDeque::new(),
            echo_inbox: VecDeque::new(),
            stats: NetworkStats::new(),
        }
    }

    /// The state after an action was carried out.
    pub open spec fn after_action(
        self,
        after: NetworkState,
        action: FrameAction,
        performed: Performed,
    ) -> bool {
        let counted = match performed {
            Performed::Failed(_) => self.stats.after(Counted::Error),
            Performed::NotSent(_) => self.stats.after(Counted::Error).after(Counted::Error),
            _ => match action {
                FrameAction::Malformed => self.stats.after(Counted::Error),
                FrameAction::ReplyArp(_) => self.stats.after(Counted::Transmitted).after(
                    Counted::ArpReply,
                ),
                FrameAction::ReplyEcho(_) => self.stats.after(Counted::Transmitted).after(
                    Counted::EchoReply,
                ),
                FrameAction::Ignore => self.stats.after(Counted::Ignored),
                FrameAction::Admit => match performed {
                    Performed::Admitted(admission) => self.stats.after(
                        Counted::Datagram(admission),
                    ),
                    _ => self.stats,
                },
                _ => self.stats,
            },
        };
        &&& after.mac == self.mac
        &&& after.configuration == self.configuration
        &&& after.next_sequence == self.next_sequence
        &&& after.next_port == self.next_port
        &&& after.dhcp_generation == self.dhcp_generation
        &&& after.stats == counted
        &&& after.dhcp_inbox@ == (match (action, performed) {
            (FrameAction::KeepDhcp(packet), Performed::Done) => kept(self.dhcp_inbox@, packet),
            _ => self.dhcp_inbox@,
        })
        &&& after.echo_inbox@ == (match (action, performed) {
            (FrameAction::KeepEcho(echo), Performed::Done) => kept(
                self.echo_inbox@,
                EchoReply {
                    source: echo.source_ip,
                    identifier: echo.identifier,
                    sequence: echo.sequence,
                    bytes: echo.bytes,
                },
            ),
            _ => self.echo_inbox@,
        })
    }

    /// Record what became of a frame. A frame that is not handled counts as an
    /// error, and so does an answer that is not sent.
    pub fn handled(&mut self, action: FrameAction, performed: Performed) -> (result: Result<
        (),
        NetworkError,
    >)
        requires
            old(self).well_formed(),
        ensures
            final(self).well_formed(),
            old(self).after_action(*final(self), action, performed),
            result == (match performed {
                Performed::Failed(error) => Err(error),
                Performed::NotSent(error) => Err(error),
                _ => if action is Malformed {
                    Err(NetworkError::Protocol)
                } else {
                    Ok(())
                },
            }),
    {
        match performed {
            Performed::Failed(error) => {
                self.stats.count(Counted::Error);
                return Err(error);
            },
            Performed::NotSent(error) => {
                self.stats.count(Counted::Error);
                self.stats.count(Counted::Error);
                return Err(error);
            },
            _ => {},
        }
        match action {
            FrameAction::KeepDhcp(packet) => {
                match performed {
                    Performed::Done => {
                        if self.dhcp_inbox.len() < INBOX_CAPACITY {
                            self.dhcp_inbox.push_back(packet);
                        }
                    },
                    _ => {},
                }
            },
            FrameAction::KeepEcho(echo) => {
                match performed {
                    Performed::Done => {
                        if self.echo_inbox.len() < INBOX_CAPACITY {
                            self.echo_inbox.push_back(
                                EchoReply {
                                    source: echo.source_ip,
                                    identifier: echo.identifier,
                                    sequence: echo.sequence,
                                    bytes: echo.bytes,
                                },
                            );
                        }
                    },
                    _ => {},
                }
            },
            FrameAction::ReplyArp(_) => {
                self.stats.count(Counted::Transmitted);
                self.stats.count(Counted::ArpReply);
            },
            FrameAction::ReplyEcho(_) => {
                self.stats.count(Counted::Transmitted);
                self.stats.count(Counted::EchoReply);
            },
            FrameAction::Ignore => {
                self.stats.count(Counted::Ignored);
            },
            FrameAction::Admit => {
                match performed {
                    Performed::Admitted(admission) => {
                        self.stats.count(Counted::Datagram(admission));
                    },
                    _ => {},
                }
            },
            FrameAction::Malformed => {
                self.stats.count(Counted::Error);
                return Err(NetworkError::Protocol);
            },
            _ => {},
        }
        Ok(())
    }

    /// Take the first address message for a transaction of this machine.
    pub fn take_dhcp(&mut self, transaction_id: u32) -> (packet: Option<DhcpPacket>)
        requires
            old(self).well_formed(),
        ensures
            final(self).well_formed(),
            match packet {
                Some(p) => exists|i: int|
                    {
                        &&& #[trigger] first_dhcp(
                            old(self).dhcp_inbox@,
                            transaction_id,
                            old(self).mac,
                            i,
                        )
                        &&& p == old(self).dhcp_inbox@[i]
                        &&& final(self).dhcp_inbox@ == old(self).dhcp_inbox@.remove(i)
                    },
                None => final(self).dhcp_inbox@ == old(self).dhcp_inbox@ && forall|k: int|
                    0 <= k < old(self).dhcp_inbox@.len() ==> !((
                    #[trigger] old(self).dhcp_inbox@[k]).transaction_id == transaction_id
                        && old(self).dhcp_inbox@[k].client_mac == old(self).mac),
            },
            *final(self) == (NetworkState { dhcp_inbox: final(self).dhcp_inbox, ..*old(self) }),
    {
        let mut i: usize = 0;
        while i < self.dhcp_inbox.len()
            invariant
                i <= self.dhcp_inbox@.len(),
                *self == *old(self),
                self.well_formed(),
                forall|k: int|
                    0 <= k < i ==> !((#[trigger] self.dhcp_inbox@[k]).transaction_id
                        == transaction_id && self.dhcp_inbox@[k].client_mac == self.mac),
            decreases self.dhcp_inbox@.len() - i,
        {
            let packet = self.dhcp_inbox[i];
            if packet.transaction_id == transaction_id && packet.client_mac == self.mac {
                assert(first_dhcp(self.dhcp_inbox@, transaction_id, self.mac, i as int));
                return self.dhcp_inbox.remove(i);
            }
            i = i + 1;
        }
        None
    }

    /// Take the first answer to an echo.
    pub fn take_echo(&mut self, identifier: u16, sequence: u16) -> (reply: Option<EchoReply>)
        requires
            old(self).well_formed(),
        ensures
            final(self).well_formed(),
            match reply {
                Some(r) => exists|i: int|
                    {
                        &&& #[trigger] first_echo(old(self).echo_inbox@, identifier, sequence, i)
                        &&& r == old(self).echo_inbox@[i]
                        &&& final(self).echo_inbox@ == old(self).echo_inbox@.remove(i)
                    },
                None => final(self).echo_inbox@ == old(self).echo_inbox@ && forall|k: int|
                    0 <= k < old(self).echo_inbox@.len() ==> !((
                    #[trigger] old(self).echo_inbox@[k]).identifier == identifier
                        && old(self).echo_inbox@[k].sequence == sequence),
            },
            *final(self) == (NetworkState { echo_inbox: final(self).echo_inbox, ..*old(self) }),
    {
        let mut i: usize = 0;
        while i < self.echo_inbox.len()
            invariant
                i <= self.echo_inbox@.len(),
                *self == *old(self),
                self.well_formed(),
                forall|k: int|
                    0 <= k < i ==> !((#[trigger] self.echo_inbox@[k]).identifier == identifier
                        && self.echo_inbox@[k].sequence == sequence),
            decreases self.echo_inbox@.len() - i,
        {
            let reply = self.echo_inbox[i];
            if reply.identifier == identifier && reply.sequence == sequence {
                assert(first_echo(self.echo_inbox@, identifier, sequence, i as int));
                return self.echo_inbox.remove(i);
            }
            i = i + 1;
        }
        None
    }
}

/// What a look at the device found.
#[derive(Clone, Copy, Debug, PartialEq, Eq, Structural)]
pub enum PollResult {
    /// A frame.
    Frame,
    /// Nothing.
    Empty,
    /// A failure.
    Failed(NetworkError),
}

/// What a poll does next.
#[derive(Clone, Copy, Debug, PartialEq, Eq, Structural)]
pub enum PollAction {
    /// Look at the device.
    Receive,
    /// Handle the frame.
    Handle,
    /// The poll is done.
    Done,
    /// The poll ends with an error.
    Fail(NetworkError),
}

/// A poll of the device.
#[derive(Clone, Copy, Debug, PartialEq, Eq, Structural)]
pub struct PollRun {
    /// Frames handled so far.
    pub handled: usize,
    /// What is being done.
    pub doing: PollAction,
}

impl PollRun {
    /// Whether the budget is kept.
    pub open spec fn well_formed(self) -> bool {
        &&& self.handled <= POLL_BUDGET
        &&& self.doing is Receive || self.doing is Handle ==> self.handled < POLL_BUDGET
    }

    /// Begin a poll.
    pub fn start(state: &mut NetworkState) -> (run: Self)
        requires
            old(state).well_formed(),
        ensures
            final(state).well_formed(),
            run == (PollRun { handled: 0, doing: PollAction::Receive }),
            run.well_formed(),
            *final(state) == (NetworkState {
                stats: old(state).stats.after(Counted::Checkpoint),
                ..*old(state)
            }),
    {
        state.stats.count(Counted::Checkpoint);
        PollRun { handled: 0, doing: PollAction::Receive }
    }

    /// Go on after a look at the device: a frame is counted and handled, a
    /// failure is counted and ends the poll.
    pub fn received(&mut self, state: &mut NetworkState, result: PollResult)
        requires
            old(self).well_formed(),
            old(self).doing is Receive,
            old(state).well_formed(),
        ensures
            final(self).well_formed(),
            final(state).well_formed(),
            *final(self) == (PollRun {
                doing: match result {
                    PollResult::Frame => PollAction::Handle,
                    PollResult::Empty => PollAction::Done,
                    PollResult::Failed(error) => PollAction::Fail(error),
                },
                ..*old(self)
            }),
            *final(state) == (NetworkState {
                stats: match result {
                    PollResult::Frame => old(state).stats.after(Counted::Received),
                    PollResult::Empty => old(state).stats,
                    PollResult::Failed(_) => old(state).stats.after(Counted::Error),
                },
                ..*old(state)
            }),
    {
        self.doing = match result {
            PollResult::Frame => {
                state.stats.count(Counted::Received);
                PollAction::Handle
            },
            PollResult::Empty => PollAction::Done,
            PollResult::Failed(error) => {
                state.stats.count(Counted::Error);
                PollAction::Fail(error)
            },
        };
    }

    /// Go on after a frame was handled, well or not: look again while the
    /// budget allows.
    pub fn frame_handled(&mut self)
        requires
            old(self).well_formed(),
            old(self).doing is Handle,
        ensures
            final(self).well_formed(),
            final(self).handled == old(self).handled + 1,
            final(self).doing == (if old(self).handled + 1 < POLL_BUDGET {
                PollAction::Receive
            } else {
                PollAction::Done
            }),
    {
        self.handled = self.handled + 1;
        self.doing = if self.handled < POLL_BUDGET {
            PollAction::Receive
        } else {
            PollAction::Done
        };
    }
}

impl NetworkState {
    /// Count a frame that was sent, or could not be.
    pub fn transmitted(&mut self, failed: Option<NetworkError>)
        requires
            old(self).well_formed(),
        ensures
            final(self).well_formed(),
            *final(self) == (NetworkState {
                stats: old(self).stats.after(
                    if failed is None {
                        Counted::Transmitted
                    } else {
                        Counted::Error
                    },
                ),
                ..*old(self)
            }),
    {
        match failed {
            None => self.stats.count(Counted::Transmitted),
            Some(_) => self.stats.count(Counted::Error),
        }
    }

    /// Use a configuration from now on; what is then seen of the network comes
    /// back.
    pub fn configure(&mut self, configuration: Ipv4Configuration) -> (status: NetworkStatus)
        requires
            old(self).well_formed(),
        ensures
            final(self).well_formed(),
            *final(self) == (NetworkState { configuration: Some(configuration), ..*old(self) }),
            status == status_of(old(self).mac, Some(configuration)),
    {
        self.configuration = Some(configuration);
        network_status(self.mac, self.configuration)
    }
}

/// An address message is kept whatever else the frame could be. A question for
/// the own address is answered, and its sender is learned, as is the sender of
/// every other resolution message.
pub proof fn address_messages_come_first(
    frame: ParsedFrame,
    configuration: Option<Ipv4Configuration>,
)
    ensures
        (frame.dhcp matches Some(packet) ==> frame_plan(frame, configuration) == (FramePlan {
            learn: None,
            action: FrameAction::KeepDhcp(packet),
        })),
        frame.dhcp is None ==> (frame.arp matches Some(arp) ==> {
            let plan = frame_plan(frame, configuration);
            let asked = arp.operation == 1 && (configuration matches Some(c) && c.address
                == arp.target_ip);
            &&& plan.learn == Some((arp.sender_ip, arp.sender_mac))
            &&& asked ==> plan.action == FrameAction::ReplyArp(arp)
            &&& !asked ==> plan.action == FrameAction::Done
        }),
        frame.dhcp is None && frame.arp is None && configuration is None ==> frame_plan(
            frame,
            configuration,
        ) == (FramePlan { learn: None, action: FrameAction::Ignore }),
{
}

/// A message for the own address is taken for an echo where it is one, else for
/// a segment, else for a datagram, and its sender is learned. An echo request
/// is answered and an echo answer kept; a segment goes to its connection. A
/// message for somebody else is ignored and teaches nothing.
pub proof fn own_messages_are_taken_in_order(frame: ParsedFrame, c: Ipv4Configuration)
    requires
        frame.dhcp is None,
        frame.arp is None,
    ensures
        ({
            let plan = frame_plan(frame, Some(c));
            let echo_here = frame.echo matches Some(echo) && echo.destination_ip == c.address;
            let segment_here = frame.segment matches Some(segment) && segment.destination_ip
                == c.address;
            let datagram_here = frame.datagram matches Some(datagram) && datagram.destination_ip
                == c.address;
            &&& echo_here ==> (frame.echo matches Some(echo) && {
                &&& plan.learn == Some((echo.source_ip, echo.source_mac))
                &&& echo.kind == 8 ==> plan.action == FrameAction::ReplyEcho(echo)
                &&& echo.kind == 0 ==> plan.action == FrameAction::KeepEcho(echo)
                &&& echo.kind != 8 && echo.kind != 0 ==> plan.action == FrameAction::Done
            })
            &&& !echo_here && segment_here ==> (frame.segment matches Some(segment) && {
                &&& segment.source_mac is None ==> plan == (FramePlan {
                    learn: None,
                    action: FrameAction::Malformed,
                })
                &&& (segment.source_mac matches Some(mac) ==> plan.learn == Some(
                    (segment.source_ip, mac),
                ))
                &&& (segment.connection matches Some(connection) ==> segment.source_mac is Some
                    ==> plan.action == FrameAction::Deliver(connection))
                &&& segment.connection is None && segment.source_mac is Some ==> plan.action
                    == FrameAction::Ignore
            })
            &&& !echo_here && !segment_here && datagram_here ==> (frame.datagram matches Some(
                datagram,
            ) && plan == (FramePlan {
                learn: Some((datagram.source_ip, datagram.source_mac)),
                action: FrameAction::Admit,
            }))
            &&& !echo_here && !segment_here && !datagram_here ==> plan == (FramePlan {
                learn: None,
                action: FrameAction::Ignore,
            })
        }),
{
}

/// Each event is counted once, under its own name, up to the largest number; no
/// other counter moves.
pub proof fn events_are_counted_under_their_names(stats: NetworkStats, event: Counted)
    ensures
        ({
            let after = stats.after(event);
            let moved = |before: u64, now: u64, named: bool|
                now == if named && before < u64::MAX {
                    before + 1
                } else {
                    before as int
                };
            &&& moved(stats.checkpoints, after.checkpoints, event == Counted::Checkpoint)
            &&& moved(stats.received_frames, after.received_frames, event == Counted::Received)
            &&& moved(
                stats.transmitted_frames,
                after.transmitted_frames,
                event == Counted::Transmitted,
            )
            &&& moved(stats.ignored_frames, after.ignored_frames, event == Counted::Ignored)
            &&& moved(stats.arp_replies, after.arp_replies, event == Counted::ArpReply)
            &&& moved(stats.echo_replies, after.echo_replies, event == Counted::EchoReply)
            &&& moved(
                stats.udp_retained,
                after.udp_retained,
                event == Counted::Datagram(Admission::Retained),
            )
            &&& moved(
                stats.udp_unbound,
                after.udp_unbound,
                event == Counted::Datagram(Admission::Unbound),
            )
            &&& moved(
                stats.udp_dropped,
                after.udp_dropped,
                event == Counted::Datagram(Admission::Dropped),
            )
            &&& moved(stats.errors, after.errors, event == Counted::Error)
        }),
{
}

/// A frame that was handled changes only what it is about: an address message
/// and an echo answer join their queues, four of each at most, and everything
/// else only the counters. An answer that was sent is counted as sent and as an
/// answer; a failure counts as an error and as nothing else.
pub proof fn handled_frames_change_what_they_are_about(
    before: NetworkState,
    after: NetworkState,
    action: FrameAction,
    performed: Performed,
)
    requires
        before.after_action(after, action, performed),
        before.stats.errors < u64::MAX - 2,
        before.stats.transmitted_frames < u64::MAX,
        before.stats.arp_replies < u64::MAX,
        before.stats.echo_replies < u64::MAX,
        before.stats.ignored_frames < u64::MAX,
    ensures
        after.configuration == before.configuration,
        after.mac == before.mac,
        after.next_port == before.next_port,
        after.next_sequence == before.next_sequence,
        after.stats.received_frames == before.stats.received_frames,
        after.stats.checkpoints == before.stats.checkpoints,
        (action matches FrameAction::KeepDhcp(packet) ==> performed == Performed::Done
            && before.dhcp_inbox@.len() < 4 ==> after.dhcp_inbox@ == before.dhcp_inbox@.push(
            packet,
        )),
        !(action is KeepDhcp) || before.dhcp_inbox@.len() >= 4 || performed != Performed::Done
            ==> after.dhcp_inbox@ == before.dhcp_inbox@,
        (action matches FrameAction::KeepEcho(echo) ==> performed == Performed::Done
            && before.echo_inbox@.len() < 4 ==> {
            &&& after.echo_inbox@.len() == before.echo_inbox@.len() + 1
            &&& after.echo_inbox@.drop_last() == before.echo_inbox@
            &&& after.echo_inbox@.last().source == echo.source_ip
            &&& after.echo_inbox@.last().identifier == echo.identifier
            &&& after.echo_inbox@.last().sequence == echo.sequence
            &&& after.echo_inbox@.last().bytes == echo.bytes
        }),
        !(action is KeepEcho) || before.echo_inbox@.len() >= 4 || performed != Performed::Done
            ==> after.echo_inbox@ == before.echo_inbox@,
        performed is Failed ==> after.stats == (NetworkStats {
            errors: (before.stats.errors + 1) as u64,
            ..before.stats
        }),
        performed is NotSent ==> after.stats == (NetworkStats {
            errors: (before.stats.errors + 2) as u64,
            ..before.stats
        }),
        performed is Done && action is ReplyArp ==> after.stats == (NetworkStats {
            transmitted_frames: (before.stats.transmitted_frames + 1) as u64,
            arp_replies: (before.stats.arp_replies + 1) as u64,
            ..before.stats
        }),
        performed is Done && action is ReplyEcho ==> after.stats == (NetworkStats {
            transmitted_frames: (before.stats.transmitted_frames + 1) as u64,
            echo_replies: (before.stats.echo_replies + 1) as u64,
            ..before.stats
        }),
        performed is Done && action is Ignore ==> after.stats == (NetworkStats {
            ignored_frames: (before.stats.ignored_frames + 1) as u64,
            ..before.stats
        }),
        performed is Done && action is Malformed ==> after.stats == (NetworkStats {
            errors: (before.stats.errors + 1) as u64,
            ..before.stats
        }),
        performed is Done && (action is Done || action is KeepDhcp || action is KeepEcho || action
            is Deliver) ==> after.stats == before.stats,
        (performed matches Performed::Admitted(admission) ==> action is Admit ==> after.stats
            == before.stats.after(Counted::Datagram(admission))),
{
    if action is KeepEcho && performed == Performed::Done && before.echo_inbox@.len() < 4 {
        assert(after.echo_inbox@.drop_last() =~= before.echo_inbox@);
    }
}

/// The first message in the queue that fits is the one that is taken.
pub proof fn the_first_fitting_message_is_taken(
    dhcp: Seq<DhcpPacket>,
    transaction: u32,
    mac: MacAddress,
    echo: Seq<EchoReply>,
    identifier: u16,
    sequence: u16,
    i: int,
    k: int,
)
    ensures
        dhcp.len() > 0 && dhcp[0].transaction_id == transaction && dhcp[0].client_mac == mac
            ==> first_dhcp(dhcp, transaction, mac, 0),
        echo.len() > 0 && echo[0].identifier == identifier && echo[0].sequence == sequence
            ==> first_echo(echo, identifier, sequence, 0),
        first_dhcp(dhcp, transaction, mac, i) && 0 <= k < dhcp.len() && dhcp[k].transaction_id
            == transaction && dhcp[k].client_mac == mac ==> i <= k,
        first_echo(echo, identifier, sequence, i) && 0 <= k < echo.len() && echo[k].identifier
            == identifier && echo[k].sequence == sequence ==> i <= k,
        first_dhcp(dhcp, transaction, mac, i) ==> dhcp[i].transaction_id == transaction
            && dhcp[i].client_mac == mac,
        first_echo(echo, identifier, sequence, i) ==> echo[i].identifier == identifier
            && echo[i].sequence == sequence,
{
}

/// A network that has just begun has counted nothing.
pub proof fn nothing_is_counted_at_first()
    ensures
        no_traffic().checkpoints == 0 && no_traffic().received_frames == 0,
        no_traffic().transmitted_frames == 0 && no_traffic().ignored_frames == 0,
        no_traffic().arp_replies == 0 && no_traffic().echo_replies == 0,
        no_traffic().udp_retained == 0 && no_traffic().udp_unbound == 0,
        no_traffic().udp_dropped == 0 && no_traffic().errors == 0,
{
}

} // verus!
