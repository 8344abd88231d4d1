//! The network service: addresses, frames, leases and ports.

pub mod address;
pub mod exchange;
pub mod frames;
pub mod lease;
pub mod requests;

use crate::reply::ReplyStatus;
use vstd::prelude::*;

verus! {

/// Why a network request fails.
#[derive(Clone, Copy, Debug, PartialEq, Eq, Structural)]
pub enum NetworkError {
    /// There is no address yet.
    NotConfigured,
    /// No answer came in time.
    Timeout,
    /// The device failed.
    Device,
    /// An answer was out of protocol.
    Protocol,
    /// A payload is too large.
    TooLarge,
    /// A bounded resource ran out.
    Exhausted,
    /// The request was cancelled.
    Cancelled,
    /// The connection is closed.
    Closed,
}

/// The status with which an application learns of an error.
pub fn application_network_status(error: NetworkError) -> (status: ReplyStatus)
    ensures
        status == (match error {
            NetworkError::NotConfigured => ReplyStatus::NotConfigured,
            NetworkError::Timeout => ReplyStatus::Timeout,
            NetworkError::TooLarge => ReplyStatus::TooLarge,
            NetworkError::Exhausted => ReplyStatus::Exhausted,
            NetworkError::Cancelled => ReplyStatus::Cancelled,
            NetworkError::Closed | NetworkError::Device => ReplyStatus::Failure,
            NetworkError::Protocol => ReplyStatus::NetworkProtocol,
        }),
{
    match error {
        NetworkError::NotConfigured => ReplyStatus::NotConfigured,
        NetworkError::Timeout => ReplyStatus::Timeout,
        NetworkError::TooLarge => ReplyStatus::TooLarge,
        NetworkError::Exhausted => ReplyStatus::Exhausted,
        NetworkError::Cancelled => ReplyStatus::Cancelled,
        NetworkError::Closed | NetworkError::Device => ReplyStatus::Failure,
        NetworkError::Protocol => ReplyStatus::NetworkProtocol,
    }
}

/// Why a packet or a device operation fails.
#[derive(Clone, Copy, Debug, PartialEq, Eq, Structural)]
pub enum NetError {
    /// A field is invalid.
    Invalid,
    /// The packet ends early.
    Truncated,
    /// A checksum is wrong.
    Checksum,
    /// A feature is not supported.
    Unsupported,
    /// A bounded resource ran out.
    Exhausted,
    /// The device failed.
    Device,
    /// No answer came in time.
    Timeout,
}

/// The network error of a packet or device error.
pub fn map_network_error(error: NetError) -> (mapped: NetworkError)
    ensures
        mapped == (match error {
            NetError::Invalid | NetError::Truncated | NetError::Checksum | NetError::Unsupported =>
                NetworkError::Protocol,
            NetError::Exhausted => NetworkError::Exhausted,
            NetError::Device => NetworkError::Device,
            NetError::Timeout => NetworkError::Timeout,
        }),
{
    match error {
        NetError::Invalid | NetError::Truncated | NetError::Checksum | NetError::Unsupported =>
            NetworkError::Protocol,
        NetError::Exhausted => NetworkError::Exhausted,
        NetError::Device => NetworkError::Device,
        NetError::Timeout => NetworkError::Timeout,
    }
}

/// Why a connection fails.
#[derive(Clone, Copy, Debug, PartialEq, Eq, Structural)]
pub enum TcpError {
    /// A segment is invalid.
    Invalid,
    /// Another operation is in progress.
    Busy,
    /// The peer takes no more bytes.
    WindowClosed,
    /// A bounded resource ran out.
    Exhausted,
    /// No answer came in time.
    Timeout,
    /// The peer reset the connection.
    Reset,
    /// The connection is closed.
    Closed,
}

/// The network error of a connection error.
pub fn map_tcp_error(error: TcpError) -> (mapped: NetworkError)
    ensures
        mapped == (match error {
            TcpError::Invalid => NetworkError::Protocol,
            TcpError::Busy | TcpError::WindowClosed | TcpError::Exhausted =>
                NetworkError::Exhausted,
            TcpError::Timeout => NetworkError::Timeout,
            TcpError::Reset | TcpError::Closed => NetworkError::Closed,
        }),
{
    match error {
        TcpError::Invalid => NetworkError::Protocol,
        TcpError::Busy | TcpError::WindowClosed | TcpError::Exhausted => NetworkError::Exhausted,
        TcpError::Timeout => NetworkError::Timeout,
        TcpError::Reset | TcpError::Closed => NetworkError::Closed,
    }
}

} // verus!
