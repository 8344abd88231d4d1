//! Negotiation, request plans, completions and the block adapter.

use troe::block::BlockError;
use troe::virtio::adapter::{VirtioBlock, VirtioBlockTransport};
use troe::virtio::profile::{
    VirtioBlockProfile, FEATURE_BLOCK_SIZE, FEATURE_FLUSH, FEATURE_READ_ONLY, FEATURE_SEG_MAX,
    FEATURE_SIZE_MAX, FEATURE_VERSION_1,
};
use troe::virtio::queue::SplitQueueLayout;
use troe::virtio::request::{RequestKind, RequestPlan};
use troe::virtio::{VirtioBlockError, REQUEST_HEADER_BYTES, REQUEST_QUEUE_SIZE};

fn configuration(
    capacity_sectors: u64,
    size_max: u32,
    seg_max: u32,
    block_size: u32,
) -> [u8; 24] {
    let mut bytes = [0_u8; 24];
    bytes[..8].copy_from_slice(&capacity_sectors.to_le_bytes());
    bytes[8..12].copy_from_slice(&size_max.to_le_bytes());
    bytes[12..16].copy_from_slice(&seg_max.to_le_bytes());
    bytes[20..24].copy_from_slice(&block_size.to_le_bytes());
    bytes
}

fn writable_profile() -> VirtioBlockProfile {
    VirtioBlockProfile::negotiate(
        FEATURE_VERSION_1 | FEATURE_BLOCK_SIZE | FEATURE_FLUSH,
        &configuration(32_768, 0, 0, 4096),
    ).unwrap()
}

#[test]
fn negotiation_requires_modern_bounded_geometry() {
    let config = configuration(32_768, 0, 0, 4096);
    assert_eq!(
        VirtioBlockProfile::negotiate(FEATURE_BLOCK_SIZE, &config),
        Err(VirtioBlockError::LegacyOnly)
    );
    let profile = writable_profile();
    assert_eq!(profile.geometry().logical_block_bytes(), 4096);
    assert_eq!(profile.geometry().block_count(), 4096);
    assert!(profile.geometry().supports_flush());
    assert!(!profile.geometry().supports_force_unit_access());
    assert!(!profile.read_only());
    assert_eq!(
        profile.negotiated_features(),
        FEATURE_VERSION_1 | FEATURE_BLOCK_SIZE | FEATURE_FLUSH
    );
}

#[test]
fn configuration_capacity_block_and_segment_limits_fail_closed() {
    let features = FEATURE_VERSION_1 | FEATURE_BLOCK_SIZE | FEATURE_SIZE_MAX | FEATURE_SEG_MAX;
    for config in [
        configuration(0, 4096, 1, 4096),
        configuration(9, 4096, 1, 4096),
        configuration(32_768, 4096, 1, 1000),
        configuration(32_768, 2048, 1, 4096),
        configuration(32_768, 4096, 0, 4096),
    ] {
        assert_eq!(
            VirtioBlockProfile::negotiate(features, &config),
            Err(VirtioBlockError::InvalidConfiguration)
        );
    }
    assert_eq!(
        VirtioBlockProfile::negotiate(FEATURE_VERSION_1, &[0; 7]),
        Err(VirtioBlockError::InvalidConfiguration)
    );
}

#[test]
fn unknown_features_are_not_accepted_and_read_only_is_retained() {
    let unknown = 1_u64 << 63;
    let profile = VirtioBlockProfile::negotiate(
        FEATURE_VERSION_1 | FEATURE_READ_ONLY | unknown,
        &configuration(128, 0, 0, 0),
    ).unwrap();
    assert_eq!(
        profile.negotiated_features(),
        FEATURE_VERSION_1 | FEATURE_READ_ONLY
    );
    assert!(profile.read_only());
    assert_eq!(profile.geometry().logical_block_bytes(), 512);
    assert!(!profile.geometry().supports_flush());
}

#[test]
fn request_plans_translate_logical_blocks_to_exact_sectors() {
    let profile = writable_profile();
    let read = profile
        .plan_read(2, 3, 12 * 1024).unwrap();
    assert_eq!(read.kind(), RequestKind::Read);
    assert_eq!(read.sector(), 16);
    assert_eq!(read.data_bytes(), 12 * 1024);
    assert_eq!(read.descriptor_count(), 3);
    assert_eq!(read.expected_used_bytes(), 12 * 1024 + 1);
    let header = read.header();
    assert_eq!(header.len(), REQUEST_HEADER_BYTES as usize);
    assert_eq!(&header[..4], &0_u32.to_le_bytes());
    assert_eq!(&header[4..8], &[0; 4]);
    assert_eq!(&header[8..], &16_u64.to_le_bytes());

    let write = profile
        .plan_write(4, 1, 4096).unwrap();
    assert_eq!(&write.header()[..4], &1_u32.to_le_bytes());
    assert_eq!(write.expected_used_bytes(), 1);

    let flush = profile
        .plan_flush().unwrap();
    assert_eq!(flush.kind(), RequestKind::Flush);
    assert_eq!(flush.descriptor_count(), 2);
    assert_eq!(&flush.header()[..4], &4_u32.to_le_bytes());
}

#[test]
fn request_bounds_and_read_only_policy_fail_before_transport() {
    let profile = writable_profile();
    assert_eq!(
        profile.plan_read(0, 0, 0),
        Err(VirtioBlockError::InvalidRequest)
    );
    assert_eq!(
        profile.plan_read(4095, 2, 8192),
        Err(VirtioBlockError::InvalidRequest)
    );
    assert_eq!(
        profile.plan_read(0, 1, 512),
        Err(VirtioBlockError::InvalidRequest)
    );

    let read_only = VirtioBlockProfile::negotiate(
        FEATURE_VERSION_1 | FEATURE_READ_ONLY | FEATURE_FLUSH,
        &configuration(128, 0, 0, 0),
    ).unwrap();
    assert_eq!(
        read_only.plan_write(0, 1, 512),
        Err(VirtioBlockError::InvalidRequest)
    );
    assert_eq!(
        read_only.plan_flush(),
        Err(VirtioBlockError::InvalidRequest)
    );
}

#[test]
fn completions_require_exact_head_length_and_known_status() {
    let read = writable_profile()
        .plan_read(0, 1, 4096).unwrap();
    assert_eq!(read.validate_completion(0, 4097, 0), Ok(()));
    assert_eq!(
        read.validate_completion(1, 4097, 0),
        Err(BlockError::Device)
    );
    assert_eq!(read.validate_completion(0, 1, 0), Err(BlockError::Device));
    assert_eq!(
        read.validate_completion(0, 4097, 1),
        Err(BlockError::Device)
    );
    assert_eq!(
        read.validate_completion(0, 4097, 2),
        Err(BlockError::Unsupported)
    );
    assert_eq!(
        read.validate_completion(0, 4097, 3),
        Err(BlockError::Device)
    );
}

#[test]
fn split_queue_layout_obeys_each_part_alignment_and_exact_size() {
    let layout =
        SplitQueueLayout::new(REQUEST_QUEUE_SIZE).unwrap();
    assert_eq!(layout.queue_size(), 8);
    assert_eq!(layout.descriptor_offset(), 0);
    assert_eq!(layout.descriptor_bytes(), 128);
    assert_eq!(layout.available_offset(), 128);
    assert_eq!(layout.available_bytes(), 22);
    assert_eq!(layout.used_offset(), 152);
    assert_eq!(layout.used_bytes(), 70);
    assert_eq!(layout.total_bytes(), 222);
    assert!(layout.descriptor_offset().is_multiple_of(16));
    assert!(layout.available_offset().is_multiple_of(2));
    assert!(layout.used_offset().is_multiple_of(4));
    for invalid in [0, 2, 3, 6, 32_769] {
        assert_eq!(
            SplitQueueLayout::new(invalid),
            Err(VirtioBlockError::InvalidQueue)
        );
    }
}

#[derive(Debug, Default)]
struct MockTransport {
    operations: Vec<RequestKind>,
}

impl VirtioBlockTransport for MockTransport {
    fn read(
        &mut self,
        request: RequestPlan,
        destination: &mut [u8],
    ) -> Result<(), BlockError> {
        self.operations.push(request.kind());
        destination.fill(0xa5);
        Ok(())
    }

    fn write(&mut self, request: RequestPlan, _source: &[u8]) -> Result<(), BlockError> {
        self.operations.push(request.kind());
        Ok(())
    }

    fn flush(&mut self, request: RequestPlan) -> Result<(), BlockError> {
        self.operations.push(request.kind());
        Ok(())
    }
}

#[test]
fn block_adapter_forwards_only_checked_requests_and_never_claims_fua() {
    let mut device = VirtioBlock::new(MockTransport::default(), writable_profile());
    let mut destination = vec![0_u8; 4096];
    assert_eq!(device.read_blocks(0, 1, &mut destination), Ok(()));
    assert!(destination.iter().all(|byte| *byte == 0xa5));
    assert_eq!(device.write_blocks(1, 1, &[7; 4096], false), Ok(()));
    assert_eq!(device.flush(), Ok(()));
    assert_eq!(
        device.write_blocks(1, 1, &[7; 4096], true),
        Err(BlockError::Unsupported)
    );
    assert_eq!(
        device.into_transport().operations,
        [RequestKind::Read, RequestKind::Write, RequestKind::Flush]
    );
}
