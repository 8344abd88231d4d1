//! Transport-independent modern virtio block profile.

use vstd::prelude::*;

pub mod adapter;
pub mod profile;
pub mod queue;
pub mod request;

verus! {

/// Virtio block device type identifier.
pub const VIRTIO_DEVICE_ID_BLOCK: u32 = 2;

/// The initial profile uses request virtqueue zero.
pub const REQUEST_QUEUE_INDEX: u16 = 0;

/// Small power-of-two split queue sufficient for one three-descriptor request.
pub const REQUEST_QUEUE_SIZE: u16 = 8;

/// Virtio block capacity and request sectors are always 512 bytes.
pub const VIRTIO_SECTOR_BYTES: u32 = 512;

/// Bytes in the fixed virtio block request header.
pub const REQUEST_HEADER_BYTES: u32 = 16;

/// Bytes in the device-written request status trailer.
pub const REQUEST_STATUS_BYTES: u32 = 1;

/// Invalid device negotiation, configuration, queue, request, or completion.
#[derive(Clone, Copy, Debug, PartialEq, Eq, Structural)]
pub enum VirtioBlockError {
    /// The device did not offer the mandatory modern virtio feature.
    LegacyOnly,
    /// Capacity, block size, or optional limits are outside the bounded profile.
    InvalidConfiguration,
    /// Queue size is not a supported power of two with room for one request.
    InvalidQueue,
    /// Queue-layout size or offset arithmetic overflowed.
    QueueOverflow,
    /// A request cannot be represented in exact 512-byte virtio sectors.
    InvalidRequest,
    /// A completion returned a wrong head, length, or unknown status.
    InvalidCompletion,
}

} // verus!
