//! Getting an address.

use crate::network::address::{Ipv4Address, MacAddress, NetworkStatus};
use crate::network::NetworkError;
use vstd::prelude::*;

verus! {

/// Milliseconds that an answer is waited for.
pub const WAIT_MILLISECONDS: u64 = 2000;

/// Kind of an address message.
#[derive(Clone, Copy, Debug, PartialEq, Eq, Structural)]
pub enum DhcpMessageType {
    /// A client looks for a server.
    Discover,
    /// A server offers an address.
    Offer,
    /// A client asks for the address.
    Request,
    /// The server agrees.
    Acknowledge,
    /// The server refuses.
    NegativeAcknowledge,
}

/// What an address message says.
#[derive(Clone, Copy, Debug, PartialEq, Eq, Structural)]
pub struct DhcpPacket {
    /// Kind.
    pub message_type: DhcpMessageType,
    /// Transaction.
    pub transaction_id: u32,
    /// Client.
    pub client_mac: MacAddress,
    /// Address for the client.
    pub your_ip: Ipv4Address,
    /// Server.
    pub server_identifier: Option<Ipv4Address>,
    /// Subnet mask.
    pub subnet_mask: Option<Ipv4Address>,
    /// Gateway.
    pub router: Option<Ipv4Address>,
    /// Seconds that the address may be used.
    pub lease_seconds: Option<u32>,
}

/// The address in use.
#[derive(Clone, Copy, Debug, PartialEq, Eq, Structural)]
pub struct Ipv4Configuration {
    /// Own address.
    pub address: Ipv4Address,
    /// Subnet mask.
    pub subnet_mask: Ipv4Address,
    /// Gateway.
    pub gateway: Ipv4Address,
    /// Seconds that the address may be used.
    pub lease_seconds: Option<u32>,
}

/// What is seen of the network with a configuration, if there is one.
pub open spec fn status_of(mac: MacAddress, configuration: Option<Ipv4Configuration>) -> NetworkStatus {
    match configuration {
        Some(c) => NetworkStatus {
            mac,
            address: Some(c.address),
            subnet_mask: Some(c.subnet_mask),
            gateway: Some(c.gateway),
            lease_seconds: c.lease_seconds,
        },
        None => NetworkStatus {
            mac,
            address: None,
            subnet_mask: None,
            gateway: None,
            lease_seconds: None,
        },
    }
}

/// What is seen of the network with a configuration, if there is one.
pub fn network_status(mac: MacAddress, configuration: Option<Ipv4Configuration>) -> (status:
    NetworkStatus)
    ensures
        status == status_of(mac, configuration),
{
    match configuration {
        Some(c) => NetworkStatus {
            mac,
            address: Some(c.address),
            subnet_mask: Some(c.subnet_mask),
            gateway: Some(c.gateway),
            lease_seconds: c.lease_seconds,
        },
        None => NetworkStatus {
            mac,
            address: None,
            subnet_mask: None,
            gateway: None,
            lease_seconds: None,
        },
    }
}

/// The server of an offer; an offer without one is out of protocol.
pub fn offering_server(offer: &DhcpPacket) -> (server: Result<Ipv4Address, NetworkError>)
    ensures
        server == (match offer.server_identifier {
            Some(s) => Ok(s),
            None => Err(NetworkError::Protocol),
        }),
{
    match offer.server_identifier {
        Some(server) => Ok(server),
        None => Err(NetworkError::Protocol),
    }
}

/// The first of two values that is there.
pub open spec fn either<T>(first: Option<T>, second: Option<T>) -> Option<T> {
    match first {
        Some(_) => first,
        None => second,
    }
}

/// The configuration of an acknowledged offer. What the acknowledgement leaves
/// out is taken from the offer; mask, gateway and a nonzero address are
/// needed.
pub open spec fn lease_of(offer: DhcpPacket, acknowledgement: DhcpPacket) -> Result<
    Ipv4Configuration,
    NetworkError,
> {
    match (
        either(acknowledgement.subnet_mask, offer.subnet_mask),
        either(acknowledgement.router, offer.router),
    ) {
        (Some(subnet_mask), Some(gateway)) => if acknowledgement.your_ip == (Ipv4Address {
            a: 0,
            b: 0,
            c: 0,
            d: 0,
        }) {
            Err(NetworkError::Protocol)
        } else {
            Ok(
                Ipv4Configuration {
                    address: acknowledgement.your_ip,
                    subnet_mask,
                    gateway,
                    lease_seconds: either(acknowledgement.lease_seconds, offer.lease_seconds),
                },
            )
        },
        _ => Err(NetworkError::Protocol),
    }
}

/// Make the configuration of an acknowledged offer.
pub fn accept_lease(offer: &DhcpPacket, acknowledgement: &DhcpPacket) -> (configuration: Result<
    Ipv4Configuration,
    NetworkError,
>)
    ensures
        configuration == lease_of(*offer, *acknowledgement),
        configuration matches Ok(c) ==> {
            &&& c.address == acknowledgement.your_ip
            &&& acknowledgement.router matches Some(router) ==> c.gateway == router
            &&& acknowledgement.router is None ==> offer.router == Some(c.gateway)
            &&& acknowledgement.subnet_mask matches Some(mask) ==> c.subnet_mask == mask
            &&& acknowledgement.subnet_mask is None ==> offer.subnet_mask == Some(c.subnet_mask)
            &&& acknowledgement.lease_seconds is Some ==> c.lease_seconds
                == acknowledgement.lease_seconds
            &&& acknowledgement.lease_seconds is None ==> c.lease_seconds == offer.lease_seconds
        },
{
    let mask = match acknowledgement.subnet_mask {
        Some(mask) => Some(mask),
        None => offer.subnet_mask,
    };
    let router = match acknowledgement.router {
        Some(router) => Some(router),
        None => offer.router,
    };
    let subnet_mask = match mask {
        Some(mask) => mask,
        None => return Err(NetworkError::Protocol),
    };
    let gateway = match router {
        Some(gateway) => gateway,
        None => return Err(NetworkError::Protocol),
    };
    if acknowledgement.your_ip.is_zero() {
        return Err(NetworkError::Protocol);
    }
    Ok(
        Ipv4Configuration {
            address: acknowledgement.your_ip,
            subnet_mask,
            gateway,
            lease_seconds: match acknowledgement.lease_seconds {
                Some(seconds) => Some(seconds),
                None => offer.lease_seconds,
            },
        },
    )
}

/// `now` plus the time that an answer is waited for.
pub open spec fn deadline_after(now: u64) -> u64 {
    if now + WAIT_MILLISECONDS <= u64::MAX {
        (now + WAIT_MILLISECONDS) as u64
    } else {
        u64::MAX
    }
}

/// `now` plus the time that an answer is waited for.
pub fn answer_deadline(now: u64) -> (deadline: u64)
    ensures
        deadline == deadline_after(now),
{
    now.saturating_add(WAIT_MILLISECONDS)
}

/// Each field of a configuration comes from the field of its name: from the
/// acknowledgement where that names one, and from the offer otherwise. The
/// address is the acknowledged one.
pub proof fn configurations_take_each_field_by_its_name(
    offer: DhcpPacket,
    acknowledgement: DhcpPacket,
    configuration: Ipv4Configuration,
)
    requires
        lease_of(offer, acknowledgement) == Ok::<Ipv4Configuration, NetworkError>(configuration),
    ensures
        configuration.address == acknowledgement.your_ip,
        acknowledgement.router matches Some(router) ==> configuration.gateway == router,
        acknowledgement.router is None ==> offer.router == Some(configuration.gateway),
        acknowledgement.subnet_mask matches Some(mask) ==> configuration.subnet_mask == mask,
        acknowledgement.subnet_mask is None ==> offer.subnet_mask == Some(
            configuration.subnet_mask,
        ),
        acknowledgement.lease_seconds is Some ==> configuration.lease_seconds
            == acknowledgement.lease_seconds,
        acknowledgement.lease_seconds is None ==> configuration.lease_seconds
            == offer.lease_seconds,
{
}

/// An acknowledged offer is accepted exactly where one of the two messages names
/// a mask, one of them a router, and the address is not zero; otherwise it is
/// out of protocol.
pub proof fn leases_need_mask_router_and_address(offer: DhcpPacket, acknowledgement: DhcpPacket)
    ensures
        lease_of(offer, acknowledgement) is Ok <==> {
            &&& acknowledgement.subnet_mask is Some || offer.subnet_mask is Some
            &&& acknowledgement.router is Some || offer.router is Some
            &&& !(acknowledgement.your_ip.a == 0 && acknowledgement.your_ip.b == 0
                && acknowledgement.your_ip.c == 0 && acknowledgement.your_ip.d == 0)
        },
        lease_of(offer, acknowledgement) matches Err(error) ==> error == NetworkError::Protocol,
{
}

/// The status shows each field of the configuration under its name, and nothing
/// without one; the hardware address is always shown.
pub proof fn status_shows_the_configuration(
    mac: MacAddress,
    configuration: Option<Ipv4Configuration>,
)
    ensures
        ({
            let status = status_of(mac, configuration);
            &&& status.mac == mac
            &&& configuration matches Some(c) ==> {
                &&& status.address == Some(c.address)
                &&& status.subnet_mask == Some(c.subnet_mask)
                &&& status.gateway == Some(c.gateway)
                &&& status.lease_seconds == c.lease_seconds
            }
            &&& configuration is None ==> {
                &&& status.address is None
                &&& status.subnet_mask is None
                &&& status.gateway is None
                &&& status.lease_seconds is None
            }
        }),
{
}

/// An answer is waited for for two seconds, or to the end of time.
pub proof fn answers_are_awaited_for_two_seconds(now: u64)
    ensures
        now <= deadline_after(now),
        deadline_after(now) - now <= 2000,
        deadline_after(now) < u64::MAX ==> deadline_after(now) - now == 2000,
{
}

} // verus!
