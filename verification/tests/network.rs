//! Addresses, leases, frames and exchanges.

use troe::network::address::{
    network_boot_label, same_subnet, subnet_prefix, write_ipv4, Ipv4Address, MacAddress,
};
use troe::network::exchange::{next_hop, ping_answer, PingReply, PingStart};
use troe::network::frames::{
    plan_frame, Admission, ArpFrame, Counted, DatagramFrame, EchoFrame, EchoReply, FrameAction,
    FramePlan, NetworkState, NetworkStats, ParsedFrame, Performed, PollAction, PollResult,
    PollRun, SegmentFrame,
};
use troe::network::lease::{
    accept_lease, answer_deadline, network_status, offering_server, DhcpMessageType, DhcpPacket,
    Ipv4Configuration,
};
use troe::network::requests::{
    LeaseAction, LeaseRun, PingAction, PingRun, RequestEvent, ResolveAction, ResolveRun,
    SendAction, SendRun,
};
use troe::network::{
    application_network_status, map_network_error, map_tcp_error, NetError, NetworkError, TcpError,
};
use troe::reply::ReplyStatus;

const MAC: MacAddress = MacAddress { vendor: 0x5254, serial: 0x0012_3456 };
const OTHER: MacAddress = MacAddress { vendor: 1, serial: 2 };

fn ip(a: u8, b: u8, c: u8, d: u8) -> Ipv4Address {
    Ipv4Address { a, b, c, d }
}

fn configuration() -> Ipv4Configuration {
    Ipv4Configuration {
        address: ip(10, 0, 2, 15),
        subnet_mask: ip(255, 255, 255, 0),
        gateway: ip(10, 0, 2, 2),
        lease_seconds: Some(3600),
    }
}

fn packet(kind: DhcpMessageType, transaction_id: u32) -> DhcpPacket {
    DhcpPacket {
        message_type: kind,
        transaction_id,
        client_mac: MAC,
        your_ip: ip(10, 0, 2, 15),
        server_identifier: Some(ip(10, 0, 2, 2)),
        subnet_mask: Some(ip(255, 255, 255, 0)),
        router: Some(ip(10, 0, 2, 2)),
        lease_seconds: Some(60),
    }
}

const EMPTY: ParsedFrame =
    ParsedFrame { dhcp: None, arp: None, echo: None, segment: None, datagram: None };

#[test]
fn addresses_are_written_and_compared() {
    let mut out = b"ip ".to_vec();
    write_ipv4(&mut out, ip(192, 168, 0, 1));
    assert_eq!(out, b"ip 192.168.0.1".to_vec());
    assert!(ip(0, 0, 0, 0).is_zero());
    assert!(!ip(0, 0, 0, 1).is_zero());
    assert_eq!(subnet_prefix(ip(255, 255, 254, 0)), 23);
    assert_eq!(subnet_prefix(ip(255, 0, 255, 1)), 17);
    let mask = ip(255, 255, 255, 0);
    assert!(same_subnet(ip(10, 0, 2, 1), ip(10, 0, 2, 9), mask));
    assert!(!same_subnet(ip(10, 0, 2, 1), ip(10, 0, 3, 1), mask));
}

#[test]
fn boot_labels_name_the_address() {
    let up = network_status(MAC, Some(configuration()));
    assert_eq!(network_boot_label(up), b"Configuring network: 10.0.2.15/24".to_vec());
    let down = network_status(MAC, None);
    assert_eq!(network_boot_label(down), b"Configuring network".to_vec());
}

#[test]
fn leases_come_from_offer_and_acknowledgement() {
    let offer = packet(DhcpMessageType::Offer, 1);
    let bare = DhcpPacket {
        subnet_mask: None,
        router: None,
        lease_seconds: None,
        ..packet(DhcpMessageType::Acknowledge, 1)
    };
    assert_eq!(
        accept_lease(&offer, &bare),
        Ok(Ipv4Configuration { lease_seconds: Some(60), ..configuration() })
    );
    assert_eq!(accept_lease(&bare, &bare), Err(NetworkError::Protocol));
    let zero = DhcpPacket { your_ip: ip(0, 0, 0, 0), ..offer };
    assert_eq!(accept_lease(&offer, &zero), Err(NetworkError::Protocol));
    assert_eq!(offering_server(&offer), Ok(ip(10, 0, 2, 2)));
    let nameless = DhcpPacket { server_identifier: None, ..offer };
    assert_eq!(offering_server(&nameless), Err(NetworkError::Protocol));
    assert_eq!(answer_deadline(5), 2005);
    assert_eq!(answer_deadline(u64::MAX), u64::MAX);
}

const BUILT: RequestEvent = RequestEvent::Built { failed: None };
const SENT: RequestEvent = RequestEvent::Sent { failed: None };
const GO_ON: RequestEvent = RequestEvent::Checked { cancelled: false };

fn sent_discover(state: &mut NetworkState) -> LeaseRun {
    let mut run = LeaseRun::start(state);
    assert_eq!(run.doing, LeaseAction::BuildDiscover);
    assert_eq!(run.observe(BUILT), LeaseAction::Transmit);
    assert_eq!(run.observe(SENT), LeaseAction::Start);
    assert_eq!(run.observe(RequestEvent::Now(100)), LeaseAction::Clock);
    run
}

#[test]
fn addresses_are_offered_and_acknowledged() {
    let mut state = NetworkState::new(MAC);
    let mut run = sent_discover(&mut state);
    let id = run.transaction;
    assert_eq!(run.observe(RequestEvent::Now(101)), LeaseAction::Checkpoint);
    assert_eq!(run.observe(GO_ON), LeaseAction::Take);
    assert_eq!(run.observe(RequestEvent::TookDhcp(None)), LeaseAction::Clock);
    run.observe(RequestEvent::Now(102));
    run.observe(GO_ON);
    let early = packet(DhcpMessageType::Acknowledge, id);
    assert_eq!(run.observe(RequestEvent::TookDhcp(Some(early))), LeaseAction::Clock);
    run.observe(RequestEvent::Now(103));
    run.observe(GO_ON);
    let offer = packet(DhcpMessageType::Offer, id);
    assert_eq!(
        run.observe(RequestEvent::TookDhcp(Some(offer))),
        LeaseAction::BuildRequest { address: offer.your_ip, server: ip(10, 0, 2, 2) }
    );
    run.observe(BUILT);
    run.observe(SENT);
    run.observe(RequestEvent::Now(200));
    run.observe(RequestEvent::Now(2199));
    run.observe(GO_ON);
    let leased = Ipv4Configuration { lease_seconds: Some(60), ..configuration() };
    assert_eq!(
        run.observe(RequestEvent::TookDhcp(Some(early))),
        LeaseAction::Configured(leased)
    );
    assert_eq!(state.configure(leased), network_status(MAC, Some(leased)));
    assert_eq!(state.configuration, Some(leased));
}

#[test]
fn lease_waits_end() {
    let mut state = NetworkState::new(MAC);
    let waiting = sent_discover(&mut state);
    let mut late = waiting;
    assert_eq!(
        late.observe(RequestEvent::Now(2100)),
        LeaseAction::Failed(NetworkError::Timeout)
    );
    let mut cancelled = waiting;
    cancelled.observe(RequestEvent::Now(101));
    assert_eq!(
        cancelled.observe(RequestEvent::Checked { cancelled: true }),
        LeaseAction::Failed(NetworkError::Cancelled)
    );
    let answered = |packet| {
        let mut run = waiting;
        run.observe(RequestEvent::Now(101));
        run.observe(GO_ON);
        run.observe(RequestEvent::TookDhcp(Some(packet)))
    };
    let protocol = LeaseAction::Failed(NetworkError::Protocol);
    assert_eq!(answered(packet(DhcpMessageType::NegativeAcknowledge, 1)), protocol);
    let nameless =
        DhcpPacket { server_identifier: None, ..packet(DhcpMessageType::Offer, 1) };
    assert_eq!(answered(nameless), protocol);
    let mut unsent = LeaseRun::start(&mut state);
    unsent.observe(BUILT);
    assert_eq!(
        unsent.observe(RequestEvent::Sent { failed: Some(NetworkError::Device) }),
        LeaseAction::Failed(NetworkError::Device)
    );
}

#[test]
fn frames_for_others_have_no_effect() {
    let own = configuration();
    let arp = ArpFrame {
        operation: 1,
        sender_ip: ip(10, 0, 2, 3),
        sender_mac: OTHER,
        target_ip: own.address,
    };
    let learned = Some((ip(10, 0, 2, 3), OTHER));
    let with_arp = |arp| ParsedFrame { arp: Some(arp), ..EMPTY };
    assert_eq!(
        plan_frame(&with_arp(arp), Some(own)),
        FramePlan { learn: learned, action: FrameAction::ReplyArp(arp) }
    );
    let elsewhere = ArpFrame { target_ip: ip(10, 0, 2, 4), ..arp };
    assert_eq!(
        plan_frame(&with_arp(elsewhere), Some(own)),
        FramePlan { learn: learned, action: FrameAction::Done }
    );
    assert_eq!(plan_frame(&with_arp(arp), None).action, FrameAction::Done);
    let echo = EchoFrame {
        kind: 8,
        source_ip: ip(10, 0, 2, 3),
        source_mac: OTHER,
        destination_ip: own.address,
        identifier: 1,
        sequence: 2,
        bytes: 3,
    };
    let with_echo = |echo| ParsedFrame { echo: Some(echo), ..EMPTY };
    assert_eq!(plan_frame(&with_echo(echo), Some(own)).action, FrameAction::ReplyEcho(echo));
    let answer = EchoFrame { kind: 0, ..echo };
    assert_eq!(plan_frame(&with_echo(answer), Some(own)).action, FrameAction::KeepEcho(answer));
    assert_eq!(plan_frame(&with_echo(echo), None).action, FrameAction::Ignore);
    let foreign = EchoFrame { destination_ip: ip(1, 2, 3, 4), ..echo };
    assert_eq!(
        plan_frame(&with_echo(foreign), Some(own)),
        FramePlan { learn: None, action: FrameAction::Ignore }
    );
}

#[test]
fn segments_and_datagrams_find_their_owner() {
    let own = configuration();
    let segment = SegmentFrame {
        source_ip: ip(1, 1, 1, 1),
        destination_ip: own.address,
        source_mac: Some(OTHER),
        connection: Some(3),
    };
    let plan = |segment| plan_frame(&ParsedFrame { segment: Some(segment), ..EMPTY }, Some(own));
    assert_eq!(plan(segment).action, FrameAction::Deliver(3));
    assert_eq!(
        plan(SegmentFrame { connection: None, ..segment }).action,
        FrameAction::Ignore
    );
    assert_eq!(
        plan(SegmentFrame { source_mac: None, ..segment }),
        FramePlan { learn: None, action: FrameAction::Malformed }
    );
    let datagram = DatagramFrame {
        source_ip: ip(1, 1, 1, 1),
        source_mac: OTHER,
        destination_ip: own.address,
    };
    let frame = ParsedFrame { datagram: Some(datagram), ..EMPTY };
    assert_eq!(
        plan_frame(&frame, Some(own)),
        FramePlan { learn: Some((ip(1, 1, 1, 1), OTHER)), action: FrameAction::Admit }
    );
    let dhcp = packet(DhcpMessageType::Offer, 9);
    let both = ParsedFrame { dhcp: Some(dhcp), ..frame };
    assert_eq!(plan_frame(&both, Some(own)).action, FrameAction::KeepDhcp(dhcp));
}

#[test]
fn handled_frames_are_counted() {
    let mut state = NetworkState::new(MAC);
    assert_eq!(state.stats, NetworkStats::new());
    let mut poll = PollRun::start(&mut state);
    poll.received(&mut state, PollResult::Frame);
    assert_eq!(poll.doing, PollAction::Handle);
    assert_eq!(
        state.handled(FrameAction::Admit, Performed::Admitted(Admission::Dropped)),
        Ok(())
    );
    assert_eq!(state.handled(FrameAction::Ignore, Performed::Done), Ok(()));
    assert_eq!(
        state.handled(FrameAction::Malformed, Performed::Done),
        Err(NetworkError::Protocol)
    );
    assert_eq!(
        state.handled(FrameAction::Done, Performed::NotSent(NetworkError::Device)),
        Err(NetworkError::Device)
    );
    poll.frame_handled();
    assert_eq!(poll, PollRun { handled: 1, doing: PollAction::Receive });
    let mut broken = poll;
    poll.received(&mut state, PollResult::Empty);
    assert_eq!(poll.doing, PollAction::Done);
    broken.received(&mut state, PollResult::Failed(NetworkError::Device));
    assert_eq!(broken.doing, PollAction::Fail(NetworkError::Device));
    state.transmitted(None);
    assert_eq!(
        state.stats,
        NetworkStats {
            checkpoints: 1,
            received_frames: 1,
            transmitted_frames: 1,
            ignored_frames: 1,
            udp_dropped: 1,
            errors: 4,
            ..NetworkStats::new()
        }
    );
    state.transmitted(Some(NetworkError::Device));
    assert_eq!(state.stats.errors, 5);
    let mut last = PollRun { handled: 7, doing: PollAction::Handle };
    last.frame_handled();
    assert_eq!(last, PollRun { handled: 8, doing: PollAction::Done });
    let mut full = NetworkStats { errors: u64::MAX, ..NetworkStats::new() };
    full.count(Counted::Error);
    assert_eq!(full.errors, u64::MAX);
}

#[test]
fn inboxes_are_bounded_and_matched() {
    let mut state = NetworkState::new(MAC);
    for id in 0..6 {
        let offer = packet(DhcpMessageType::Offer, id);
        state.handled(FrameAction::KeepDhcp(offer), Performed::Done).unwrap();
    }
    assert_eq!(state.dhcp_inbox.len(), 4);
    assert!(state.take_dhcp(5).is_none());
    assert_eq!(state.take_dhcp(2), Some(packet(DhcpMessageType::Offer, 2)));
    assert!(state.take_dhcp(2).is_none());
    let foreign = DhcpPacket { client_mac: OTHER, ..packet(DhcpMessageType::Offer, 7) };
    state.handled(FrameAction::KeepDhcp(foreign), Performed::Done).unwrap();
    assert!(state.take_dhcp(7).is_none());
    let echo = EchoFrame {
        kind: 0,
        source_ip: ip(1, 1, 1, 1),
        source_mac: OTHER,
        destination_ip: ip(2, 2, 2, 2),
        identifier: 5,
        sequence: 6,
        bytes: 7,
    };
    state.handled(FrameAction::KeepEcho(echo), Performed::Done).unwrap();
    assert!(state.take_echo(5, 7).is_none());
    assert_eq!(
        state.take_echo(5, 6),
        Some(EchoReply { source: ip(1, 1, 1, 1), identifier: 5, sequence: 6, bytes: 7 })
    );
}

#[test]
fn packets_go_to_the_next_hop() {
    let own = configuration();
    assert_eq!(next_hop(&own, ip(10, 0, 2, 9)), ip(10, 0, 2, 9));
    assert_eq!(next_hop(&own, ip(8, 8, 8, 8)), own.gateway);
    let far = ip(8, 8, 8, 8);
    let mut known = ResolveRun::start(&own, far);
    assert_eq!(known.doing, ResolveAction::Lookup(own.gateway));
    assert_eq!(known.observe(RequestEvent::Found(Some(OTHER))), ResolveAction::Known(OTHER));
    let mut asked = ResolveRun::start(&own, far);
    assert_eq!(asked.observe(RequestEvent::Found(None)), ResolveAction::Build(own.gateway));
    asked.observe(BUILT);
    asked.observe(SENT);
    asked.observe(RequestEvent::Now(0));
    let mut late = asked;
    assert_eq!(
        late.observe(RequestEvent::Now(2000)),
        ResolveAction::Failed(NetworkError::Timeout)
    );
    assert_eq!(asked.observe(RequestEvent::Now(1999)), ResolveAction::Checkpoint);
    assert_eq!(asked.observe(GO_ON), ResolveAction::LookAgain(own.gateway));
    assert_eq!(asked.observe(RequestEvent::Found(None)), ResolveAction::Clock);
}

#[test]
fn pings_are_answered_by_their_destination() {
    let mut state = NetworkState::new(MAC);
    let near = ip(10, 0, 2, 3);
    assert_eq!(
        PingRun::start(&mut state, near).doing,
        PingAction::Failed(NetworkError::NotConfigured)
    );
    state.configuration = Some(configuration());
    let mut run = PingRun::start(&mut state, near);
    assert_eq!(
        run.observe(RequestEvent::Found(Some(OTHER))),
        PingAction::TakeSequence(OTHER)
    );
    let sequence = state.take_sequence();
    assert_eq!(
        run.observe(RequestEvent::Sequence(sequence)),
        PingAction::Build { mac: OTHER }
    );
    run.observe(BUILT);
    run.observe(SENT);
    run.observe(RequestEvent::Now(0));
    run.observe(RequestEvent::Now(1));
    assert_eq!(run.observe(GO_ON), PingAction::Take);
    let stranger = EchoReply { source: ip(9, 9, 9, 9), identifier: 0x5452, sequence, bytes: 9 };
    assert_eq!(run.observe(RequestEvent::TookEcho(Some(stranger))), PingAction::Clock);
    run.observe(RequestEvent::Now(2));
    run.observe(GO_ON);
    let answer = EchoReply { source: near, ..stranger };
    assert_eq!(
        run.observe(RequestEvent::TookEcho(Some(answer))),
        PingAction::Answered(PingReply { source: near, sequence: 1, bytes: 9 })
    );
}

#[test]
fn datagrams_leave_from_their_port() {
    let own = Some(configuration());
    let near = ip(10, 0, 2, 3);
    assert_eq!(
        SendRun::start(own, near, None, 5, 4).doing,
        SendAction::Failed(NetworkError::TooLarge)
    );
    assert_eq!(
        SendRun::start(None, near, None, 4, 4).doing,
        SendAction::Failed(NetworkError::NotConfigured)
    );
    let mut chosen = SendRun::start(own, near, None, 4, 4);
    assert_eq!(
        chosen.observe(RequestEvent::Found(Some(OTHER))),
        SendAction::ChoosePort(OTHER)
    );
    assert_eq!(
        chosen.observe(RequestEvent::Chosen(Ok(50000))),
        SendAction::Bind { mac: OTHER, port: 50000 }
    );
    assert_eq!(
        chosen.observe(RequestEvent::Bound { failed: None }),
        SendAction::Build { mac: OTHER, port: 50000 }
    );
    assert_eq!(chosen.observe(BUILT), SendAction::Transmit { port: 50000 });
    assert_eq!(chosen.observe(SENT), SendAction::Sent(50000));
    let mut fixed = SendRun::start(own, near, Some(7), 4, 4);
    assert_eq!(
        fixed.observe(RequestEvent::Found(Some(OTHER))),
        SendAction::Bind { mac: OTHER, port: 7 }
    );
    assert_eq!(
        fixed.observe(RequestEvent::Bound { failed: Some(NetworkError::Exhausted) }),
        SendAction::Failed(NetworkError::Exhausted)
    );
}

#[test]
fn pings_to_this_machine_are_answered_at_once() {
    let mut state = NetworkState::new(MAC);
    assert_eq!(
        state.begin_ping(ip(10, 0, 2, 15)),
        PingStart::Fail(NetworkError::NotConfigured)
    );
    state.configuration = Some(configuration());
    assert_eq!(
        state.begin_ping(ip(10, 0, 2, 15)),
        PingStart::Own(PingReply { source: ip(10, 0, 2, 15), sequence: 1, bytes: 9 })
    );
    assert_eq!(state.begin_ping(ip(10, 0, 2, 3)), PingStart::Resolve);
    assert_eq!(state.take_sequence(), 2);
    state.next_sequence = u16::MAX;
    assert_eq!(state.take_sequence(), u16::MAX);
    assert_eq!(state.take_sequence(), 0);
    let echo = EchoReply { source: ip(1, 1, 1, 1), identifier: 5, sequence: 6, bytes: 7 };
    assert_eq!(
        ping_answer(Some(echo), ip(1, 1, 1, 1), 6),
        Some(PingReply { source: ip(1, 1, 1, 1), sequence: 6, bytes: 7 })
    );
    assert_eq!(ping_answer(Some(echo), ip(1, 1, 1, 2), 6), None);
    assert_eq!(ping_answer(None, ip(1, 1, 1, 1), 6), None);
}

#[test]
fn transactions_do_not_repeat() {
    let mut state = NetworkState::new(MAC);
    let first = state.next_dhcp_transaction();
    let second = state.next_dhcp_transaction();
    assert_ne!(first, second);
    assert_eq!(first ^ MAC.serial ^ 0x5452_4f45, u32::from(state.dhcp_generation) - 1);
}

#[test]
fn ports_are_chosen_among_the_free_ones() {
    let mut state = NetworkState::new(MAC);
    assert_eq!(state.choose_port(&vec![49152, 49153], 4), Ok(49154));
    assert_eq!(state.next_port, 49155);
    state.next_port = u16::MAX;
    assert_eq!(state.choose_port(&vec![u16::MAX], 2), Ok(49152));
    state.next_port = 50000;
    assert_eq!(state.choose_port(&vec![50000, 50001], 2), Err(NetworkError::Exhausted));
}

#[test]
fn network_errors_become_statuses() {
    assert_eq!(
        application_network_status(NetworkError::Protocol),
        ReplyStatus::NetworkProtocol
    );
    assert_eq!(application_network_status(NetworkError::Closed), ReplyStatus::Failure);
    assert_eq!(
        application_network_status(NetworkError::NotConfigured),
        ReplyStatus::NotConfigured
    );
    assert_eq!(map_network_error(NetError::Checksum), NetworkError::Protocol);
    assert_eq!(map_network_error(NetError::Device), NetworkError::Device);
}

#[test]
fn connection_errors_are_network_errors() {
    assert_eq!(map_tcp_error(TcpError::Invalid), NetworkError::Protocol);
    assert_eq!(map_tcp_error(TcpError::WindowClosed), NetworkError::Exhausted);
    assert_eq!(map_tcp_error(TcpError::Timeout), NetworkError::Timeout);
    assert_eq!(map_tcp_error(TcpError::Reset), NetworkError::Closed);
}
