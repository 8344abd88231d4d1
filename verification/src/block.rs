//! Block-device vocabulary shared by device drivers and their users.

use vstd::prelude::*;

verus! {

/// Smallest logical block that a device may report.
pub const MIN_LOGICAL_BLOCK_BYTES: u32 = 512;

/// Largest logical block that a device may report.
pub const MAX_LOGICAL_BLOCK_BYTES: u32 = 4096;

/// Most bytes that one request moves.
pub const MAX_TRANSFER_BYTES: u32 = 65536;

/// Failure at the block boundary.
#[derive(Clone, Copy, Debug, PartialEq, Eq, Structural)]
pub enum BlockError {
    /// The request lies outside the device or does not match its buffer.
    OutOfBounds,
    /// The device forbids writes.
    ReadOnly,
    /// The device does not have the operation.
    Unsupported,
    /// The device failed or answered out of protocol.
    Device,
}

/// Bounds that every negotiated device has to respect.
#[derive(Clone, Copy, Debug, PartialEq, Eq, Structural)]
pub struct BlockLimits {
    /// Smallest accepted logical block.
    pub min_block_bytes: u32,
    /// Largest accepted logical block.
    pub max_block_bytes: u32,
    /// Most bytes in one transfer; one status byte more still fits 32 bits.
    pub max_transfer_bytes: u32,
}

impl BlockLimits {
    /// A transfer and its status byte fit a 32-bit length.
    pub open spec fn well_formed(self) -> bool {
        self.max_transfer_bytes < u32::MAX
    }

    /// The limits of this system.
    pub fn standard() -> (limits: Self)
        ensures
            limits.well_formed(),
            limits.min_block_bytes == MIN_LOGICAL_BLOCK_BYTES,
            limits.max_block_bytes == MAX_LOGICAL_BLOCK_BYTES,
            limits.max_transfer_bytes == MAX_TRANSFER_BYTES,
    {
        BlockLimits {
            min_block_bytes: MIN_LOGICAL_BLOCK_BYTES,
            max_block_bytes: MAX_LOGICAL_BLOCK_BYTES,
            max_transfer_bytes: MAX_TRANSFER_BYTES,
        }
    }
}

/// Immutable shape of a block device.
#[derive(Clone, Copy, Debug, PartialEq, Eq, Structural)]
pub struct BlockGeometry {
    logical_block_bytes: u32,
    block_count: u64,
    flush: bool,
    force_unit_access: bool,
}

impl BlockGeometry {
    /// Bytes of one logical block.
    pub closed spec fn block_bytes(self) -> nat {
        self.logical_block_bytes as nat
    }

    /// Number of logical blocks.
    pub closed spec fn blocks(self) -> nat {
        self.block_count as nat
    }

    /// Whether an explicit cache flush exists.
    pub closed spec fn flushes(self) -> bool {
        self.flush
    }

    /// Whether a single write can be forced to stable storage.
    pub closed spec fn forces_unit_access(self) -> bool {
        self.force_unit_access
    }

    /// Describe a device.
    pub fn new(
        logical_block_bytes: u32,
        block_count: u64,
        flush: bool,
        force_unit_access: bool,
    ) -> (geometry: Self)
        ensures
            geometry.block_bytes() == logical_block_bytes,
            geometry.blocks() == block_count,
            geometry.flushes() == flush,
            geometry.forces_unit_access() == force_unit_access,
    {
        BlockGeometry { logical_block_bytes, block_count, flush, force_unit_access }
    }

    /// Bytes of one logical block.
    pub fn logical_block_bytes(self) -> (bytes: u32)
        ensures
            bytes == self.block_bytes(),
    {
        self.logical_block_bytes
    }

    /// Number of logical blocks.
    pub fn block_count(self) -> (count: u64)
        ensures
            count == self.blocks(),
    {
        self.block_count
    }

    /// Whether an explicit cache flush exists.
    pub fn supports_flush(self) -> (supported: bool)
        ensures
            supported == self.flushes(),
    {
        self.flush
    }

    /// Whether a single write can be forced to stable storage.
    pub fn supports_force_unit_access(self) -> (supported: bool)
        ensures
            supported == self.forces_unit_access(),
    {
        self.force_unit_access
    }
}

} // verus!
