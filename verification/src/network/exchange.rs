//! Requests to the network and their answers.

use crate::network::address::{in_subnet, same_subnet, Ipv4Address, MacAddress};
use crate::network::frames::{EchoReply, NetworkState, FIRST_PORT};
use crate::network::lease::Ipv4Configuration;
use crate::network::NetworkError;
use vstd::prelude::*;

verus! {

/// Identifier of this machine's echoes.
pub const ECHO_IDENTIFIER: u16 = 0x5452;

/// Bytes of an echo to this machine itself.
pub const OWN_ECHO_BYTES: usize = 9;

/// The mark that is mixed into every address transaction.
pub const TRANSACTION_MARK: u32 = 0x5452_4f45;

/// The address that a packet is sent to first.
pub open spec fn hop(configuration: Ipv4Configuration, destination: Ipv4Address) -> Ipv4Address {
    if in_subnet(configuration.address, destination, configuration.subnet_mask) {
        destination
    } else {
        configuration.gateway
    }
}

/// The address that a packet is sent to first: the destination itself in the
/// own subnet, the gateway otherwise.
pub fn next_hop(configuration: &Ipv4Configuration, destination: Ipv4Address) -> (address:
    Ipv4Address)
    ensures
        address == hop(*configuration, destination),
{
    if same_subnet(configuration.address, destination, configuration.subnet_mask) {
        destination
    } else {
        configuration.gateway
    }
}

/// An answered ping.
#[derive(Clone, Copy, Debug, PartialEq, Eq, Structural)]
pub struct PingReply {
    /// Who answered.
    pub source: Ipv4Address,
    /// Sequence number.
    pub sequence: u16,
    /// Bytes of the payload.
    pub bytes: usize,
}

/// How a ping begins.
#[derive(Clone, Copy, Debug, PartialEq, Eq, Structural)]
pub enum PingStart {
    /// There is no address yet.
    Fail(NetworkError),
    /// This machine answers itself.
    Own(PingReply),
    /// Resolve the destination, then send the echo.
    Resolve,
}

/// The number after a sequence number.
pub open spec fn next_sequence(sequence: u16) -> u16 {
    if sequence == u16::MAX {
        0
    } else {
        (sequence + 1) as u16
    }
}

/// The transaction of an address request.
pub open spec fn transaction(mac: MacAddress, generation: u16) -> u32 {
    mac.serial ^ (generation as u32) ^ TRANSACTION_MARK
}

impl NetworkState {
    /// Begin a ping; a ping to this machine is answered at once and uses a
    /// sequence number.
    pub fn begin_ping(&mut self, destination: Ipv4Address) -> (start: PingStart)
        requires
            old(self).well_formed(),
        ensures
            final(self).well_formed(),
            match old(self).configuration {
                None => start == PingStart::Fail(NetworkError::NotConfigured) && *final(self)
                    == *old(self),
                Some(c) => if destination == c.address {
                    &&& start == PingStart::Own(
                        PingReply {
                            source: destination,
                            sequence: old(self).next_sequence,
                            bytes: OWN_ECHO_BYTES,
                        },
                    )
                    &&& *final(self) == (NetworkState {
                        next_sequence: next_sequence(old(self).next_sequence),
                        ..*old(self)
                    })
                } else {
                    start == PingStart::Resolve && *final(self) == *old(self)
                },
            },
    {
        let address = match self.configuration {
            None => return PingStart::Fail(NetworkError::NotConfigured),
            Some(c) => c.address,
        };
        if destination == address {
            let sequence: u16 = self.take_sequence();
            return PingStart::Own(
                PingReply { source: destination, sequence, bytes: OWN_ECHO_BYTES },
            );
        }
        PingStart::Resolve
    }

    /// Use a sequence number.
    pub fn take_sequence(&mut self) -> (sequence: u16)
        requires
            old(self).well_formed(),
        ensures
            final(self).well_formed(),
            sequence == old(self).next_sequence,
            *final(self) == (NetworkState {
                next_sequence: next_sequence(old(self).next_sequence),
                ..*old(self)
            }),
    {
        let sequence: u16 = self.next_sequence;
        self.next_sequence = if sequence == u16::MAX {
            0
        } else {
            sequence + 1
        };
        sequence
    }

    /// Begin another address transaction.
    pub fn next_dhcp_transaction(&mut self) -> (id: u32)
        requires
            old(self).well_formed(),
        ensures
            final(self).well_formed(),
            final(self).dhcp_generation == next_sequence(old(self).dhcp_generation),
            id == transaction(old(self).mac, final(self).dhcp_generation),
            *final(self) == (NetworkState {
                dhcp_generation: next_sequence(old(self).dhcp_generation),
                ..*old(self)
            }),
    {
        self.dhcp_generation = if self.dhcp_generation == u16::MAX {
            0
        } else {
            self.dhcp_generation + 1
        };
        self.mac.serial ^ (self.dhcp_generation as u32) ^ TRANSACTION_MARK
    }
}

/// Two transactions of a machine differ unless their generations are the same.
pub proof fn transactions_differ(mac: MacAddress, a: u16, b: u16)
    requires
        a != b,
    ensures
        transaction(mac, a) != transaction(mac, b),
{
    let serial = mac.serial;
    let x = a as u32;
    let y = b as u32;
    assert(x != y ==> (serial ^ x ^ 0x5452_4f45u32) != (serial ^ y ^ 0x5452_4f45u32)) by (bit_vector);
}

/// What an echo answer makes of a ping: it completes only a ping to its
/// sender.
pub open spec fn completes(reply: Option<EchoReply>, destination: Ipv4Address, sequence: u16) -> Option<
    PingReply,
> {
    match reply {
        Some(echo) if echo.source == destination => Some(
            PingReply { source: echo.source, sequence, bytes: echo.bytes },
        ),
        _ => None,
    }
}

/// Complete a ping by an echo answer, if it does.
pub fn ping_answer(reply: Option<EchoReply>, destination: Ipv4Address, sequence: u16) -> (answer:
    Option<PingReply>)
    ensures
        answer == completes(reply, destination, sequence),
{
    match reply {
        Some(echo) => if echo.source == destination {
            Some(PingReply { source: echo.source, sequence, bytes: echo.bytes })
        } else {
            None
        },
        None => None,
    }
}

/// The port after one that was given out.
pub open spec fn port_after(port: u16) -> u16 {
    if port == u16::MAX {
        FIRST_PORT
    } else {
        (port + 1) as u16
    }
}

/// The port that is `n` ports after one.
pub open spec fn ports_after(port: u16, n: nat) -> u16
    decreases n,
{
    if n == 0 {
        port
    } else {
        port_after(ports_after(port, (n - 1) as nat))
    }
}

/// Whether a port is in use.
pub open spec fn in_use(bound: Seq<u16>, port: u16) -> bool {
    exists|i: int| 0 <= i < bound.len() && #[trigger] bound[i] == port
}

fn is_bound(bound: &Vec<u16>, port: u16) -> (yes: bool)
    ensures
        yes == in_use(bound@, port),
{
    let mut i: usize = 0;
    while i < bound.len()
        invariant
            i <= bound@.len(),
            forall|k: int| 0 <= k < i ==> #[trigger] bound@[k] != port,
        decreases bound@.len() - i,
    {
        if bound[i] == port {
            assert(bound@[i as int] == port);
            return true;
        }
        i = i + 1;
    }
    false
}

/// Whether `n` is the number of used ports before the first free one.
pub open spec fn first_unused(bound: Seq<u16>, port: u16, n: int) -> bool {
    &&& 0 <= n
    &&& !in_use(bound, ports_after(port, n as nat))
    &&& forall|k: int| 0 <= k < n ==> in_use(bound, #[trigger] ports_after(port, k as nat))
}

impl NetworkState {
    /// Choose a port that is not in use, trying at most `attempts` ports.
    pub fn choose_port(&mut self, bound: &Vec<u16>, attempts: usize) -> (port: Result<
        u16,
        NetworkError,
    >)
        requires
            old(self).well_formed(),
        ensures
            final(self).well_formed(),
            match port {
                Ok(p) => exists|n: int|
                    {
                        &&& n < attempts
                        &&& #[trigger] first_unused(bound@, old(self).next_port, n)
                        &&& p == ports_after(old(self).next_port, n as nat)
                        &&& *final(self) == (NetworkState {
                            next_port: ports_after(old(self).next_port, (n + 1) as nat),
                            ..*old(self)
                        })
                    },
                Err(error) => {
                    &&& error == NetworkError::Exhausted
                    &&& forall|k: int|
                        0 <= k < attempts ==> in_use(
                            bound@,
                            #[trigger] ports_after(old(self).next_port, k as nat),
                        )
                    &&& *final(self) == (NetworkState {
                        next_port: ports_after(old(self).next_port, attempts as nat),
                        ..*old(self)
                    })
                },
            },
    {
        let mut tried: usize = 0;
        while tried < attempts
            invariant
                tried <= attempts,
                old(self).well_formed(),
                self.well_formed(),
                *self == (NetworkState {
                    next_port: ports_after(old(self).next_port, tried as nat),
                    ..*old(self)
                }),
                forall|k: int|
                    0 <= k < tried ==> in_use(
                        bound@,
                        #[trigger] ports_after(old(self).next_port, k as nat),
                    ),
            decreases attempts - tried,
        {
            let port: u16 = self.next_port;
            self.next_port = if port == u16::MAX {
                FIRST_PORT
            } else {
                port + 1
            };
            assert(self.next_port == ports_after(old(self).next_port, (tried + 1) as nat));
            if !is_bound(bound, port) {
                assert(first_unused(bound@, old(self).next_port, tried as int));
                return Ok(port);
            }
            tried = tried + 1;
        }
        Err(NetworkError::Exhausted)
    }
}

/// A chosen port is never one in use, and always one of those given out.
pub proof fn chosen_ports_are_free(bound: Seq<u16>, port: u16, n: int)
    requires
        port >= FIRST_PORT,
        first_unused(bound, port, n),
    ensures
        !in_use(bound, ports_after(port, n as nat)),
        ports_after(port, n as nat) >= FIRST_PORT,
    decreases n,
{
    lemma_port_range(port, n as nat);
}

proof fn lemma_port_range(port: u16, n: nat)
    requires
        port >= FIRST_PORT,
    ensures
        ports_after(port, n) >= FIRST_PORT,
    decreases n,
{
    if n > 0 {
        lemma_port_range(port, (n - 1) as nat);
    }
}

/// A packet to a machine in the own subnet is sent to that machine, and any
/// other packet to the gateway.
pub proof fn packets_leave_through_the_gateway(
    configuration: Ipv4Configuration,
    destination: Ipv4Address,
)
    ensures
        ({
            let own = configuration.address;
            let mask = configuration.subnet_mask;
            let near = {
                &&& own.a & mask.a == destination.a & mask.a
                &&& own.b & mask.b == destination.b & mask.b
                &&& own.c & mask.c == destination.c & mask.c
                &&& own.d & mask.d == destination.d & mask.d
            };
            &&& near ==> hop(configuration, destination) == destination
            &&& !near ==> hop(configuration, destination) == configuration.gateway
        }),
{
}

/// Sequence numbers and generations count up and start again from zero after
/// 65535; ports count up and start again from 49152.
pub proof fn numbers_count_up_and_wrap(number: u16)
    ensures
        next_sequence(number) == (number + 1) % 65536,
        number < 65535 ==> port_after(number) == number + 1,
        port_after(65535) == 49152,
        ports_after(number, 0) == number,
        ports_after(number, 1) == port_after(number),
{
    reveal_with_fuel(ports_after, 2);
}

/// A transaction mixes the machine, the generation and the mark of this system.
pub proof fn transactions_are_mixed(mac: MacAddress, generation: u16)
    ensures
        transaction(mac, generation) == mac.serial ^ (generation as u32) ^ 0x5452_4f45u32,
{
}

/// An echo answer completes a ping exactly where it comes from the pinged
/// machine; the reply shows that machine, the sequence number of the ping and
/// the bytes that came back.
pub proof fn pings_are_answered_by_their_destination(
    reply: Option<EchoReply>,
    destination: Ipv4Address,
    sequence: u16,
)
    ensures
        completes(reply, destination, sequence) is Some <==> (reply matches Some(echo)
            && echo.source == destination),
        (completes(reply, destination, sequence) matches Some(answer) ==> {
            &&& answer.source == destination
            &&& answer.sequence == sequence
            &&& reply matches Some(echo) && answer.bytes == echo.bytes
        }),
{
}

/// A port is in use where anything is bound to it, and the port that is chosen is
/// the first one, counted on from the last, that is not.
pub proof fn ports_in_use_are_passed_over(bound: Seq<u16>, port: u16, i: int, n: int, k: int)
    ensures
        0 <= i < bound.len() ==> in_use(bound, bound[i]),
        (forall|j: int| 0 <= j < bound.len() ==> #[trigger] bound[j] != port) ==> !in_use(
            bound,
            port,
        ),
        first_unused(bound, port, n) && 0 <= k < n ==> in_use(bound, ports_after(port, k as nat)),
        first_unused(bound, port, n) ==> !in_use(bound, ports_after(port, n as nat)),
        !in_use(bound, port) ==> first_unused(bound, port, 0),
{
    if 0 <= i < bound.len() {
        assert(bound[i] == bound[i]);
    }
}

} // verus!
