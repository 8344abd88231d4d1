//! Feature negotiation and request planning.

use crate::block::{BlockGeometry, BlockLimits};
use crate::bytes::{le_field, le_value, read_le};
use crate::numeric::is_power_of_two;
use crate::virtio::request::{RequestKind, RequestPlan, RequestView};
use crate::virtio::{VirtioBlockError, VIRTIO_SECTOR_BYTES};
use vstd::arithmetic::power2::is_pow2;
use vstd::prelude::*;

verus! {

/// The device limits the bytes of one data segment.
pub const FEATURE_SIZE_MAX: u64 = 0x2;

/// The device limits the number of data segments.
pub const FEATURE_SEG_MAX: u64 = 0x4;

/// The device forbids writes.
pub const FEATURE_READ_ONLY: u64 = 0x20;

/// The device reports a logical block size.
pub const FEATURE_BLOCK_SIZE: u64 = 0x40;

/// The device flushes its cache on request.
pub const FEATURE_FLUSH: u64 = 0x200;

/// The device follows the modern virtio interface.
pub const FEATURE_VERSION_1: u64 = 0x1_0000_0000;

/// Every feature that this profile understands.
pub const ACCEPTED_FEATURES: u64 = 0x1_0000_0266;

/// Logical block bytes that a configuration reports.
pub open spec fn configured_block_bytes(offered: u64, configuration: Seq<u8>) -> Option<nat> {
    if offered & FEATURE_BLOCK_SIZE != 0 {
        le_field(configuration, 20, 4)
    } else {
        Some(512)
    }
}

/// Largest data segment that a configuration allows.
pub open spec fn configured_size_max(
    limits: BlockLimits,
    offered: u64,
    configuration: Seq<u8>,
) -> Option<nat> {
    if offered & FEATURE_SIZE_MAX != 0 {
        le_field(configuration, 8, 4)
    } else {
        Some(limits.max_transfer_bytes as nat)
    }
}

/// Number of data segments that a configuration allows.
pub open spec fn configured_seg_max(offered: u64, configuration: Seq<u8>) -> Option<nat> {
    if offered & FEATURE_SEG_MAX != 0 {
        le_field(configuration, 12, 4)
    } else {
        Some(1)
    }
}

/// Whether a configuration describes a nonempty device of whole logical blocks
/// of a supported size, whose limits leave room for one block in one segment.
pub open spec fn valid_configuration(
    limits: BlockLimits,
    offered: u64,
    configuration: Seq<u8>,
) -> bool {
    &&& le_field(configuration, 0, 8) matches Some(sectors)
    &&& configured_block_bytes(offered, configuration) matches Some(block)
    &&& configured_size_max(limits, offered, configuration) matches Some(size_max)
    &&& configured_seg_max(offered, configuration) matches Some(seg_max)
    &&& sectors > 0
    &&& limits.min_block_bytes <= block <= limits.max_block_bytes
    &&& is_pow2(block as int)
    &&& block % 512 == 0
    &&& sectors * 512 <= u64::MAX
    &&& (sectors * 512) % block == 0
    &&& size_max >= block
    &&& seg_max > 0
}

/// Feature subset and immutable geometry accepted before queue activation.
#[derive(Clone, Copy, Debug, PartialEq, Eq, Structural)]
pub struct VirtioBlockProfile {
    negotiated_features: u64,
    geometry: BlockGeometry,
    max_segment_bytes: u32,
}

/// What a profile says.
pub ghost struct ProfileView {
    /// Feature subset to acknowledge.
    pub features: u64,
    /// Shape of the device.
    pub geometry: BlockGeometry,
    /// Longest data descriptor.
    pub max_segment_bytes: nat,
}

impl ProfileView {
    /// Whether the device forbids writes.
    pub open spec fn read_only(self) -> bool {
        self.features & FEATURE_READ_ONLY != 0
    }

    /// Whether a data request is nonempty, inside the device, exactly as long
    /// as its buffer and within one segment.
    pub open spec fn data_request_valid(
        self,
        start_block: nat,
        block_count: nat,
        buffer_bytes: nat,
    ) -> bool {
        &&& block_count > 0
        &&& start_block + block_count <= self.geometry.blocks()
        &&& block_count * self.geometry.block_bytes() == buffer_bytes
        &&& buffer_bytes <= self.max_segment_bytes
    }

    /// The plan of a valid data request.
    pub open spec fn data_request(
        self,
        kind: RequestKind,
        start_block: nat,
        buffer_bytes: nat,
    ) -> RequestView {
        RequestView {
            kind,
            sector: start_block * (self.geometry.block_bytes() / 512),
            data_bytes: buffer_bytes,
        }
    }

    /// What a profile always satisfies.
    pub open spec fn well_formed(self) -> bool {
        &&& self.features & FEATURE_VERSION_1 != 0
        &&& self.features & ACCEPTED_FEATURES == self.features
        &&& self.geometry.block_bytes() > 0
        &&& self.geometry.block_bytes() % 512 == 0
        &&& self.geometry.blocks() > 0
        &&& self.geometry.blocks() * self.geometry.block_bytes() <= u64::MAX
        &&& self.max_segment_bytes < u32::MAX
        &&& self.geometry.flushes() == (self.features & FEATURE_FLUSH != 0)
        &&& !self.geometry.forces_unit_access()
    }
}

impl View for VirtioBlockProfile {
    type V = ProfileView;

    closed spec fn view(&self) -> ProfileView {
        ProfileView {
            features: self.negotiated_features,
            geometry: self.geometry,
            max_segment_bytes: self.max_segment_bytes as nat,
        }
    }
}

/// Read a 32-bit configuration field.
pub fn read_u32(bytes: &[u8], offset: usize) -> (value: Result<u32, VirtioBlockError>)
    ensures
        match value {
            Ok(v) => le_field(bytes@, offset as nat, 4) == Some(v as nat),
            Err(e) => le_field(bytes@, offset as nat, 4) is None && e
                == VirtioBlockError::InvalidConfiguration,
        },
{
    match read_le(bytes, offset, 4) {
        Some(value) => {
            proof {
                crate::bytes::le_value_is_bounded(
                    bytes@.subrange(offset as int, (offset + 4) as int),
                );
                crate::bytes::lemma_pow256_values();
            }
            Ok(value as u32)
        },
        None => Err(VirtioBlockError::InvalidConfiguration),
    }
}

/// Read a 64-bit configuration field.
pub fn read_u64(bytes: &[u8], offset: usize) -> (value: Result<u64, VirtioBlockError>)
    ensures
        match value {
            Ok(v) => le_field(bytes@, offset as nat, 8) == Some(v as nat),
            Err(e) => le_field(bytes@, offset as nat, 8) is None && e
                == VirtioBlockError::InvalidConfiguration,
        },
{
    match read_le(bytes, offset, 8) {
        Some(value) => Ok(value),
        None => Err(VirtioBlockError::InvalidConfiguration),
    }
}

/// What negotiation yields for a modern device with a valid configuration.
pub open spec fn negotiated(
    profile: ProfileView,
    limits: BlockLimits,
    offered: u64,
    configuration: Seq<u8>,
) -> bool {
    let sectors = le_field(configuration, 0, 8)->0;
    let block = configured_block_bytes(offered, configuration)->0;
    let size_max = configured_size_max(limits, offered, configuration)->0;
    &&& profile.features == offered & ACCEPTED_FEATURES
    &&& profile.geometry.block_bytes() == block
    &&& profile.geometry.blocks() == (sectors * 512) / block
    &&& profile.geometry.flushes() == (offered & FEATURE_FLUSH != 0)
    &&& !profile.geometry.forces_unit_access()
    &&& profile.max_segment_bytes == if size_max <= limits.max_transfer_bytes {
        size_max
    } else {
        limits.max_transfer_bytes as nat
    }
}

impl VirtioBlockProfile {
    #[verifier::type_invariant]
    spec fn is_negotiated(self) -> bool {
        self@.well_formed()
    }

    /// Validate offered features and a stable block configuration snapshot
    /// within the limits of this system.
    ///
    /// The snapshot begins with the mandatory little-endian capacity field and
    /// includes conditional fields through `blk_size` when those features are
    /// offered. The caller must obtain it using the transport's stable config
    /// generation procedure before committing the returned feature subset.
    ///
    /// Rejects legacy-only devices, zero or overflowing capacity, unsupported
    /// logical block sizes, a capacity not divisible by that block size, and
    /// optional segment limits too small for the fixed request profile.
    pub fn negotiate(offered_features: u64, configuration: &[u8]) -> (profile: Result<
        Self,
        VirtioBlockError,
    >)
        ensures
            ({
                let limits = BlockLimits {
                    min_block_bytes: crate::block::MIN_LOGICAL_BLOCK_BYTES,
                    max_block_bytes: crate::block::MAX_LOGICAL_BLOCK_BYTES,
                    max_transfer_bytes: crate::block::MAX_TRANSFER_BYTES,
                };
                match profile {
                    Ok(p) => offered_features & FEATURE_VERSION_1 != 0 && valid_configuration(
                        limits,
                        offered_features,
                        configuration@,
                    ) && negotiated(p@, limits, offered_features, configuration@)
                        && p@.well_formed(),
                    Err(VirtioBlockError::LegacyOnly) => offered_features & FEATURE_VERSION_1 == 0,
                    Err(e) => offered_features & FEATURE_VERSION_1 != 0 && !valid_configuration(
                        limits,
                        offered_features,
                        configuration@,
                    ) && e == VirtioBlockError::InvalidConfiguration,
                }
            }),
    {
        Self::negotiate_within(BlockLimits::standard(), offered_features, configuration)
    }

    /// Validate offered features and a configuration snapshot within `limits`.
    pub fn negotiate_within(
        limits: BlockLimits,
        offered_features: u64,
        configuration: &[u8],
    ) -> (profile: Result<Self, VirtioBlockError>)
        requires
            limits.well_formed(),
        ensures
            match profile {
                Ok(p) => offered_features & FEATURE_VERSION_1 != 0 && valid_configuration(
                    limits,
                    offered_features,
                    configuration@,
                ) && negotiated(p@, limits, offered_features, configuration@) && p@.well_formed(),
                Err(VirtioBlockError::LegacyOnly) => offered_features & FEATURE_VERSION_1 == 0,
                Err(e) => offered_features & FEATURE_VERSION_1 != 0 && !valid_configuration(
                    limits,
                    offered_features,
                    configuration@,
                ) && e == VirtioBlockError::InvalidConfiguration,
            },
    {
        if offered_features & FEATURE_VERSION_1 == 0 {
            return Err(VirtioBlockError::LegacyOnly);
        }
        let capacity_sectors: u64 = match read_u64(configuration, 0) {
            Ok(value) => value,
            Err(error) => return Err(error),
        };
        if capacity_sectors == 0 {
            return Err(VirtioBlockError::InvalidConfiguration);
        }
        let negotiated_features: u64 = offered_features & ACCEPTED_FEATURES;
        let logical_block_bytes: u32 = if offered_features & FEATURE_BLOCK_SIZE != 0 {
            match read_u32(configuration, 20) {
                Ok(value) => value,
                Err(error) => return Err(error),
            }
        } else {
            VIRTIO_SECTOR_BYTES
        };
        if logical_block_bytes < limits.min_block_bytes || logical_block_bytes
            > limits.max_block_bytes || !is_power_of_two(logical_block_bytes as u64)
            || logical_block_bytes % VIRTIO_SECTOR_BYTES != 0 {
            return Err(VirtioBlockError::InvalidConfiguration);
        }
        proof {
            reveal(is_pow2);
        }
        let capacity_bytes: u64 = match capacity_sectors.checked_mul(VIRTIO_SECTOR_BYTES as u64) {
            Some(value) => value,
            None => return Err(VirtioBlockError::InvalidConfiguration),
        };
        if capacity_bytes % (logical_block_bytes as u64) != 0 {
            return Err(VirtioBlockError::InvalidConfiguration);
        }
        let block_count: u64 = capacity_bytes / (logical_block_bytes as u64);
        let size_max: u32 = if offered_features & FEATURE_SIZE_MAX != 0 {
            match read_u32(configuration, 8) {
                Ok(value) => value,
                Err(error) => return Err(error),
            }
        } else {
            limits.max_transfer_bytes
        };
        let seg_max: u32 = if offered_features & FEATURE_SEG_MAX != 0 {
            match read_u32(configuration, 12) {
                Ok(value) => value,
                Err(error) => return Err(error),
            }
        } else {
            1
        };
        if size_max < logical_block_bytes || seg_max == 0 {
            return Err(VirtioBlockError::InvalidConfiguration);
        }
        let max_segment_bytes: u32 = if size_max <= limits.max_transfer_bytes {
            size_max
        } else {
            limits.max_transfer_bytes
        };
        let geometry = BlockGeometry::new(
            logical_block_bytes,
            block_count,
            negotiated_features & FEATURE_FLUSH != 0,
            false,
        );
        proof {
            features_are_never_invented(offered_features);
            assert(block_count * logical_block_bytes == capacity_bytes) by (nonlinear_arith)
                requires
                    block_count == capacity_bytes / (logical_block_bytes as u64),
                    capacity_bytes % (logical_block_bytes as u64) == 0,
                    logical_block_bytes > 0,
            ;
            assert(block_count > 0) by (nonlinear_arith)
                requires
                    block_count * logical_block_bytes == capacity_bytes,
                    capacity_bytes > 0,
            ;
        }
        Ok(VirtioBlockProfile { negotiated_features, geometry, max_segment_bytes })
    }

    /// Exact feature subset to write before setting `FEATURES_OK`.
    pub fn negotiated_features(self) -> (features: u64)
        ensures
            features == self@.features,
    {
        self.negotiated_features
    }

    /// Immutable block geometry derived from the stable configuration.
    pub fn geometry(self) -> (geometry: BlockGeometry)
        ensures
            geometry == self@.geometry,
    {
        self.geometry
    }

    /// Whether the device itself forbids writes.
    pub fn read_only(self) -> (forbidden: bool)
        ensures
            forbidden == self@.read_only(),
    {
        self.negotiated_features & FEATURE_READ_ONLY != 0
    }

    /// Maximum bytes accepted in the single data descriptor.
    pub fn max_segment_bytes(self) -> (bytes: usize)
        ensures
            bytes == self@.max_segment_bytes,
    {
        self.max_segment_bytes as usize
    }

    /// Plan an exact read request.
    ///
    /// Rejects empty, overflowing, out-of-capacity, incorrectly buffered, or
    /// over-profile requests.
    pub fn plan_read(self, start_block: u64, block_count: u32, buffer_bytes: usize) -> (plan:
        Result<RequestPlan, VirtioBlockError>)
        ensures
            is_plan(
                plan,
                planned_data(
                    self@,
                    RequestKind::Read,
                    start_block as nat,
                    block_count as nat,
                    buffer_bytes as nat,
                ),
            ),
    {
        self.plan_data(RequestKind::Read, start_block, block_count, buffer_bytes)
    }

    /// Plan an exact write request.
    ///
    /// Rejects device read-only policy plus every invalid read condition.
    pub fn plan_write(self, start_block: u64, block_count: u32, buffer_bytes: usize) -> (plan:
        Result<RequestPlan, VirtioBlockError>)
        ensures
            is_plan(
                plan,
                if self@.read_only() {
                    None
                } else {
                    planned_data(
                        self@,
                        RequestKind::Write,
                        start_block as nat,
                        block_count as nat,
                        buffer_bytes as nat,
                    )
                },
            ),
    {
        if self.read_only() {
            return Err(VirtioBlockError::InvalidRequest);
        }
        self.plan_data(RequestKind::Write, start_block, block_count, buffer_bytes)
    }

    /// Plan an explicit cache flush request.
    ///
    /// Rejects a read-only device or one without negotiated flush support.
    pub fn plan_flush(self) -> (plan: Result<RequestPlan, VirtioBlockError>)
        ensures
            is_plan(plan, planned_flush(self@)),
    {
        if self.read_only() || !self.geometry.supports_flush() {
            return Err(VirtioBlockError::InvalidRequest);
        }
        Ok(RequestPlan::new(RequestKind::Flush, 0, 0))
    }

    fn plan_data(
        self,
        kind: RequestKind,
        start_block: u64,
        block_count: u32,
        buffer_bytes: usize,
    ) -> (plan: Result<RequestPlan, VirtioBlockError>)
        ensures
            is_plan(
                plan,
                planned_data(
                    self@,
                    kind,
                    start_block as nat,
                    block_count as nat,
                    buffer_bytes as nat,
                ),
            ),
    {
        proof {
            use_type_invariant(&self);
        }
        if block_count == 0 {
            return Err(VirtioBlockError::InvalidRequest);
        }
        let total_blocks: u64 = self.geometry.block_count();
        let end_block: u64 = match start_block.checked_add(block_count as u64) {
            Some(value) => value,
            None => return Err(VirtioBlockError::InvalidRequest),
        };
        if end_block > total_blocks {
            return Err(VirtioBlockError::InvalidRequest);
        }
        let block_bytes: u64 = self.geometry.logical_block_bytes() as u64;
        let data_bytes: u64 = match (block_count as u64).checked_mul(block_bytes) {
            Some(value) => value,
            None => return Err(VirtioBlockError::InvalidRequest),
        };
        if data_bytes != buffer_bytes as u64 || data_bytes > self.max_segment_bytes as u64 {
            return Err(VirtioBlockError::InvalidRequest);
        }
        let byte_offset: u64 = match start_block.checked_mul(block_bytes) {
            Some(value) => value,
            None => {
                proof {
                    assert(start_block * block_bytes <= self@.geometry.blocks()
                        * self@.geometry.block_bytes()) by (nonlinear_arith)
                        requires
                            start_block <= self@.geometry.blocks(),
                            block_bytes == self@.geometry.block_bytes(),
                    ;
                }
                return Err(VirtioBlockError::InvalidRequest);
            },
        };
        proof {
            let per = block_bytes / 512;
            assert(byte_offset == 512 * (start_block * per)) by (nonlinear_arith)
                requires
                    byte_offset == start_block * block_bytes,
                    block_bytes == 512 * per,
            ;
        }
        if byte_offset % (VIRTIO_SECTOR_BYTES as u64) != 0 {
            return Err(VirtioBlockError::InvalidRequest);
        }
        Ok(
            RequestPlan::new(
                kind,
                byte_offset / (VIRTIO_SECTOR_BYTES as u64),
                data_bytes as u32,
            ),
        )
    }
}

/// The plan of a data request, if it is valid.
pub open spec fn planned_data(
    profile: ProfileView,
    kind: RequestKind,
    start_block: nat,
    block_count: nat,
    buffer_bytes: nat,
) -> Option<RequestView> {
    if profile.data_request_valid(start_block, block_count, buffer_bytes) {
        Some(profile.data_request(kind, start_block, buffer_bytes))
    } else {
        None
    }
}

/// The plan of a flush, if the device takes one.
pub open spec fn planned_flush(profile: ProfileView) -> Option<RequestView> {
    if !profile.read_only() && profile.geometry.flushes() {
        Some(RequestView { kind: RequestKind::Flush, sector: 0, data_bytes: 0 })
    } else {
        None
    }
}

/// `plan` is the expected request, or the one error of a refused one.
pub open spec fn is_plan(
    plan: Result<RequestPlan, VirtioBlockError>,
    expected: Option<RequestView>,
) -> bool {
    match plan {
        Ok(p) => expected == Some(p@),
        Err(e) => expected is None && e == VirtioBlockError::InvalidRequest,
    }
}

/// Every planned data request stays inside the device's sectors.
pub proof fn planned_data_stays_on_the_device(
    profile: ProfileView,
    kind: RequestKind,
    start_block: nat,
    block_count: nat,
    buffer_bytes: nat,
)
    requires
        profile.well_formed(),
        planned_data(profile, kind, start_block, block_count, buffer_bytes) is Some,
    ensures
        ({
            let plan = planned_data(profile, kind, start_block, block_count, buffer_bytes)->0;
            let capacity = profile.geometry.blocks() * profile.geometry.block_bytes();
            &&& plan.kind == kind
            &&& plan.data_bytes > 0
            &&& plan.sector * 512 == start_block * profile.geometry.block_bytes()
            &&& plan.sector * 512 + plan.data_bytes <= capacity
        }),
{
    let block = profile.geometry.block_bytes();
    let per = block / 512;
    assert((start_block * per) * 512 == start_block * block) by (nonlinear_arith)
        requires
            block == 512 * per,
    ;
    assert(start_block * block + block_count * block <= profile.geometry.blocks() * block)
        by (nonlinear_arith)
        requires
            start_block + block_count <= profile.geometry.blocks(),
    ;
    assert(block_count * block > 0) by (nonlinear_arith)
        requires
            block_count > 0,
            block > 0,
    ;
}

/// Negotiation keeps exactly those offered features that the profile knows.
pub proof fn features_are_never_invented(offered: u64)
    ensures
        ({
            let kept = offered & ACCEPTED_FEATURES;
            &&& kept & offered == kept
            &&& kept & ACCEPTED_FEATURES == kept
            &&& (kept & FEATURE_VERSION_1 != 0) == (offered & FEATURE_VERSION_1 != 0)
            &&& (kept & FEATURE_READ_ONLY != 0) == (offered & FEATURE_READ_ONLY != 0)
            &&& (kept & FEATURE_FLUSH != 0) == (offered & FEATURE_FLUSH != 0)
        }),
{
    assert({
        let kept = offered & 0x1_0000_0266u64;
        &&& kept & offered == kept
        &&& kept & 0x1_0000_0266u64 == kept
        &&& (kept & 0x1_0000_0000u64 != 0) == (offered & 0x1_0000_0000u64 != 0)
        &&& (kept & 0x20u64 != 0) == (offered & 0x20u64 != 0)
        &&& (kept & 0x200u64 != 0) == (offered & 0x200u64 != 0)
    }) by (bit_vector);
}

/// A device's whole capacity is used: its blocks hold exactly its sectors of 512
/// bytes. Its blocks have the configured size where it offers that feature and
/// 512 bytes otherwise.
pub proof fn the_whole_device_is_used(
    profile: ProfileView,
    limits: BlockLimits,
    offered: u64,
    configuration: Seq<u8>,
)
    requires
        valid_configuration(limits, offered, configuration),
        negotiated(profile, limits, offered, configuration),
    ensures
        configuration.len() >= 8,
        profile.geometry.blocks() * profile.geometry.block_bytes() == 512 * le_value(
            configuration.subrange(0, 8),
        ),
        offered & 0x40 == 0 ==> profile.geometry.block_bytes() == 512,
        offered & 0x40 != 0 ==> configuration.len() >= 24 && profile.geometry.block_bytes()
            == le_value(configuration.subrange(20, 24)),
        profile.geometry.flushes() == (offered & 0x200 != 0),
        !profile.geometry.forces_unit_access(),
        profile.max_segment_bytes <= limits.max_transfer_bytes,
        offered & 0x2 != 0 ==> configuration.len() >= 12 && profile.max_segment_bytes <= le_value(
            configuration.subrange(8, 12),
        ),
        profile.max_segment_bytes == limits.max_transfer_bytes || (offered & 0x2 != 0
            && profile.max_segment_bytes == le_value(configuration.subrange(8, 12))),
{
    let bytes = le_value(configuration.subrange(0, 8)) * 512;
    let block = profile.geometry.block_bytes();
    assert(is_pow2(block as int) ==> block > 0) by {
        reveal(is_pow2);
    }
    vstd::arithmetic::div_mod::lemma_fundamental_div_mod(bytes as int, block as int);
    assert(bytes / block * block == block * (bytes / block)) by (nonlinear_arith);
}

/// A configuration is refused where a field that it must hold is missing, where
/// it has no sectors, where its blocks are not a power of two within the limits
/// that divides the capacity, or where a block does not fit into a segment.
pub proof fn bad_configurations_are_refused(
    limits: BlockLimits,
    offered: u64,
    configuration: Seq<u8>,
)
    ensures
        configuration.len() < 8 ==> !valid_configuration(limits, offered, configuration),
        offered & 0x40 != 0 && configuration.len() < 24 ==> !valid_configuration(
            limits,
            offered,
            configuration,
        ),
        offered & 0x2 != 0 && configuration.len() < 12 ==> !valid_configuration(
            limits,
            offered,
            configuration,
        ),
        offered & 0x4 != 0 && configuration.len() < 16 ==> !valid_configuration(
            limits,
            offered,
            configuration,
        ),
        configuration.len() >= 24 ==> {
            let sectors = le_value(configuration.subrange(0, 8));
            let size_max = le_value(configuration.subrange(8, 12));
            let seg_max = le_value(configuration.subrange(12, 16));
            let block = if offered & 0x40 != 0 {
                le_value(configuration.subrange(20, 24))
            } else {
                512
            };
            valid_configuration(limits, offered, configuration) <==> {
                &&& sectors > 0
                &&& limits.min_block_bytes <= block <= limits.max_block_bytes
                &&& is_pow2(block as int)
                &&& block % 512 == 0
                &&& 512 * sectors <= u64::MAX
                &&& (512 * sectors) % block == 0
                &&& if offered & 0x2 != 0 {
                    block <= size_max
                } else {
                    block <= limits.max_transfer_bytes
                }
                &&& offered & 0x4 != 0 ==> seg_max > 0
            }
        },
{
}

/// A request is planned exactly for a positive number of blocks that the device
/// has, with a buffer of exactly their size that fits into a segment.
pub proof fn requests_are_planned_for_existing_blocks(
    profile: ProfileView,
    kind: RequestKind,
    start_block: nat,
    block_count: nat,
    buffer_bytes: nat,
)
    ensures
        planned_data(profile, kind, start_block, block_count, buffer_bytes) is Some <==> {
            &&& block_count >= 1
            &&& start_block + block_count <= profile.geometry.blocks()
            &&& buffer_bytes == block_count * profile.geometry.block_bytes()
            &&& buffer_bytes <= profile.max_segment_bytes
        },
        (planned_data(profile, kind, start_block, block_count, buffer_bytes) matches Some(plan)
            ==> plan.kind == kind && plan.data_bytes == buffer_bytes),
{
}

/// A flush is planned exactly where the device can be written and flushes; it
/// carries no data.
pub proof fn flushes_need_a_writable_device(profile: ProfileView)
    requires
        profile.well_formed(),
    ensures
        planned_flush(profile) is Some <==> profile.features & 0x20 == 0 && profile.features
            & 0x200 != 0,
        (planned_flush(profile) matches Some(plan) ==> plan.kind == RequestKind::Flush
            && plan.data_bytes == 0 && plan.sector == 0),
{
}

} // verus!
