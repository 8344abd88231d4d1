//! Split-virtqueue memory layout.

use crate::numeric::is_power_of_two;
use crate::virtio::VirtioBlockError;
use vstd::arithmetic::power2::is_pow2;
use vstd::prelude::*;

verus! {

const DESCRIPTOR_BYTES: usize = 16;

const AVAILABLE_HEADER_BYTES: usize = 4;

const AVAILABLE_ELEMENT_BYTES: usize = 2;

const AVAILABLE_TRAILER_BYTES: usize = 2;

const USED_HEADER_BYTES: usize = 4;

const USED_ELEMENT_BYTES: usize = 8;

const USED_TRAILER_BYTES: usize = 2;

/// Largest queue that virtio allows.
pub const MAX_QUEUE_SIZE: u16 = 32768;

/// The least multiple of `alignment` that is at least `value`.
pub open spec fn aligned_up(value: int, alignment: int) -> int {
    ((value + alignment - 1) / alignment) * alignment
}

/// The queue sizes with room for one request chain.
pub open spec fn valid_queue_size(queue_size: int) -> bool {
    3 <= queue_size <= MAX_QUEUE_SIZE && is_pow2(queue_size)
}

/// Byte offsets and sizes for three physically contiguous split-queue parts.
#[derive(Clone, Copy, Debug, PartialEq, Eq, Structural)]
pub struct SplitQueueLayout {
    queue_size: u16,
    descriptor_offset: usize,
    descriptor_bytes: usize,
    available_offset: usize,
    available_bytes: usize,
    used_offset: usize,
    used_bytes: usize,
    total_bytes: usize,
}

impl SplitQueueLayout {
    /// Queue entry count.
    pub closed spec fn entries(self) -> int {
        self.queue_size as int
    }

    /// Offset and length of the descriptor table.
    pub closed spec fn descriptor_part(self) -> (int, int) {
        (self.descriptor_offset as int, self.descriptor_bytes as int)
    }

    /// Offset and length of the available ring.
    pub closed spec fn available_part(self) -> (int, int) {
        (self.available_offset as int, self.available_bytes as int)
    }

    /// Offset and length of the used ring.
    pub closed spec fn used_part(self) -> (int, int) {
        (self.used_offset as int, self.used_bytes as int)
    }

    /// Length of the complete allocation.
    pub closed spec fn total(self) -> int {
        self.total_bytes as int
    }

    /// The canonical layout of a queue with `entries` entries: the descriptor
    /// table first, the available ring on the next even byte, the used ring on
    /// the next multiple of four after that, nothing behind it.
    pub open spec fn canonical(self) -> bool {
        let n = self.entries();
        &&& valid_queue_size(n)
        &&& self.descriptor_part() == (0int, 16 * n)
        &&& self.available_part() == (aligned_up(16 * n, 2), 4 + 2 * n + 2)
        &&& self.used_part() == (
            aligned_up(self.available_part().0 + self.available_part().1, 4),
            4 + 8 * n + 2,
        )
        &&& self.total() == self.used_part().0 + self.used_part().1
    }

    #[verifier::type_invariant]
    spec fn is_canonical(self) -> bool {
        self.canonical()
    }

    /// Calculate a canonical modern split-queue layout.
    ///
    /// Rejects sizes that are not a power of two, fewer than three entries and
    /// sizes above the virtio maximum.
    pub fn new(queue_size: u16) -> (layout: Result<Self, VirtioBlockError>)
        ensures
            match layout {
                Ok(l) => valid_queue_size(queue_size as int) && l.entries() == queue_size
                    && l.canonical(),
                Err(e) => !valid_queue_size(queue_size as int) && e
                    == VirtioBlockError::InvalidQueue,
            },
    {
        if queue_size < 3 || !is_power_of_two(queue_size as u64) || queue_size > MAX_QUEUE_SIZE {
            return Err(VirtioBlockError::InvalidQueue);
        }
        let count: usize = queue_size as usize;
        let descriptor_bytes: usize = count * DESCRIPTOR_BYTES;
        let available_bytes: usize = AVAILABLE_HEADER_BYTES + count * AVAILABLE_ELEMENT_BYTES
            + AVAILABLE_TRAILER_BYTES;
        let available_offset: usize = align_up(descriptor_bytes, 2)?;
        let used_offset: usize = align_up(available_offset + available_bytes, 4)?;
        let used_bytes: usize = USED_HEADER_BYTES + count * USED_ELEMENT_BYTES
            + USED_TRAILER_BYTES;
        let total_bytes: usize = used_offset + used_bytes;
        Ok(
            SplitQueueLayout {
                queue_size,
                descriptor_offset: 0,
                descriptor_bytes,
                available_offset,
                available_bytes,
                used_offset,
                used_bytes,
                total_bytes,
            },
        )
    }

    /// Queue entry count.
    pub fn queue_size(self) -> (size: u16)
        ensures
            size == self.entries(),
    {
        self.queue_size
    }

    /// Descriptor-table byte offset.
    pub fn descriptor_offset(self) -> (offset: usize)
        ensures
            offset == self.descriptor_part().0,
    {
        self.descriptor_offset
    }

    /// Descriptor-table byte count.
    pub fn descriptor_bytes(self) -> (bytes: usize)
        ensures
            bytes == self.descriptor_part().1,
    {
        self.descriptor_bytes
    }

    /// Available-ring byte offset.
    pub fn available_offset(self) -> (offset: usize)
        ensures
            offset == self.available_part().0,
    {
        self.available_offset
    }

    /// Available-ring byte count.
    pub fn available_bytes(self) -> (bytes: usize)
        ensures
            bytes == self.available_part().1,
    {
        self.available_bytes
    }

    /// Used-ring byte offset.
    pub fn used_offset(self) -> (offset: usize)
        ensures
            offset == self.used_part().0,
    {
        self.used_offset
    }

    /// Used-ring byte count.
    pub fn used_bytes(self) -> (bytes: usize)
        ensures
            bytes == self.used_part().1,
    {
        self.used_bytes
    }

    /// Complete allocation bytes with required internal padding.
    pub fn total_bytes(self) -> (bytes: usize)
        ensures
            bytes == self.total(),
    {
        self.total_bytes
    }
}

/// Round `value` up to a multiple of `alignment`.
pub fn align_up(value: usize, alignment: usize) -> (aligned: Result<usize, VirtioBlockError>)
    requires
        alignment > 0,
    ensures
        match aligned {
            Ok(a) => value + alignment - 1 <= usize::MAX && a == aligned_up(
                value as int,
                alignment as int,
            ),
            Err(e) => value + alignment - 1 > usize::MAX && e == VirtioBlockError::QueueOverflow,
        },
{
    match value.checked_add(alignment - 1) {
        Some(sum) => {
            proof {
                assert((sum / alignment) * alignment <= sum) by (nonlinear_arith)
                    requires
                        alignment > 0,
                ;
            }
            Ok((sum / alignment) * alignment)
        },
        None => Err(VirtioBlockError::QueueOverflow),
    }
}

/// Every canonical layout aligns its three parts to 16, 2 and 4 bytes, keeps
/// them in order without overlap, and holds them exactly.
pub proof fn layout_parts_are_aligned_and_disjoint(layout: SplitQueueLayout)
    requires
        layout.canonical(),
    ensures
        layout.descriptor_part().0 % 16 == 0,
        layout.available_part().0 % 2 == 0,
        layout.used_part().0 % 4 == 0,
        layout.descriptor_part().0 + layout.descriptor_part().1 <= layout.available_part().0,
        layout.available_part().0 + layout.available_part().1 <= layout.used_part().0,
        layout.used_part().0 + layout.used_part().1 == layout.total(),
        layout.total() < 26 * layout.entries() + 20,
{
}

/// A queue has sixteen bytes of descriptors, two of available ring and eight of
/// used ring for each entry, and six more for each ring. The available ring
/// follows the descriptors at once, and the used ring at the next multiple of
/// four.
pub proof fn queues_have_room_for_every_entry(layout: SplitQueueLayout)
    requires
        layout.canonical(),
    ensures
        ({
            let n = layout.entries();
            &&& 3 <= n <= 32768
            &&& is_pow2(n)
            &&& layout.descriptor_part() == (0int, 16 * n)
            &&& layout.available_part() == (16 * n, 2 * n + 6)
            &&& layout.used_part().1 == 8 * n + 6
            &&& 18 * n + 6 <= layout.used_part().0 < 18 * n + 10
            &&& layout.used_part().0 % 4 == 0
            &&& layout.total() == layout.used_part().0 + 8 * n + 6
        }),
{
}

} // verus!
