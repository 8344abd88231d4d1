//! Block device over an initialized virtio transport.

use crate::block::{BlockError, BlockGeometry};
use crate::virtio::profile::{planned_data, planned_flush, VirtioBlockProfile};
use crate::virtio::request::{RequestKind, RequestPlan, RequestView};
use crate::virtio::VirtioBlockError;
use vstd::prelude::*;

verus! {

/// Synchronous DMA mechanism supplied by a bus-specific implementation.
///
/// `read_step`, `write_step` and `flush_step` are whatever relation an
/// implementation says its calls keep; by default nothing is promised.
pub trait VirtioBlockTransport: Sized {
    /// How one read relates the transport, the request and the buffer.
    open spec fn read_step(
        before: Self,
        request: RequestView,
        empty: Seq<u8>,
        after: Self,
        filled: Seq<u8>,
        result: Result<(), BlockError>,
    ) -> bool {
        true
    }

    /// How one write relates the transport, the request and its data.
    open spec fn write_step(
        before: Self,
        request: RequestView,
        source: Seq<u8>,
        after: Self,
        result: Result<(), BlockError>,
    ) -> bool {
        true
    }

    /// How one flush relates the transport and the request.
    open spec fn flush_step(
        before: Self,
        request: RequestView,
        after: Self,
        result: Result<(), BlockError>,
    ) -> bool {
        true
    }

    /// Execute one checked read chain to exact completion, or return a stable
    /// block-boundary error without claiming partial success.
    fn read(&mut self, request: RequestPlan, destination: &mut [u8]) -> (result: Result<
        (),
        BlockError,
    >)
        ensures
            Self::read_step(
                *old(self),
                request@,
                old(destination)@,
                *final(self),
                final(destination)@,
                result,
            ),
    ;

    /// Execute one checked write chain to exact completion, or return a stable
    /// block-boundary error without claiming partial success.
    fn write(&mut self, request: RequestPlan, source: &[u8]) -> (result: Result<(), BlockError>)
        ensures
            Self::write_step(*old(self), request@, source@, *final(self), result),
    ;

    /// Execute one checked flush chain to exact completion, or return a stable
    /// block-boundary error when durable completion is not confirmed.
    fn flush(&mut self, request: RequestPlan) -> (result: Result<(), BlockError>)
        ensures
            Self::flush_step(*old(self), request@, *final(self), result),
    ;
}

/// Checked block device over one initialized virtio transport.
#[derive(Debug)]
pub struct VirtioBlock<T> {
    transport: T,
    profile: VirtioBlockProfile,
}

impl<T> VirtioBlock<T> {
    /// The transport below this device.
    pub closed spec fn lower(self) -> T {
        self.transport
    }

    /// The profile that this device keeps.
    pub closed spec fn negotiated(self) -> VirtioBlockProfile {
        self.profile
    }

    /// Bind an initialized transport to its previously negotiated profile.
    pub fn new(transport: T, profile: VirtioBlockProfile) -> (device: Self)
        ensures
            device.lower() == transport,
            device.negotiated() == profile,
    {
        VirtioBlock { transport, profile }
    }

    /// Immutable negotiated profile.
    pub fn profile(&self) -> (profile: VirtioBlockProfile)
        ensures
            profile == self.negotiated(),
    {
        self.profile
    }

    /// Recover the transport during explicit device teardown.
    pub fn into_transport(self) -> (transport: T)
        ensures
            transport == self.lower(),
    {
        self.transport
    }

    /// Shape of the device.
    pub fn geometry(&self) -> (geometry: BlockGeometry)
        ensures
            geometry == self.negotiated()@.geometry,
    {
        self.profile.geometry()
    }
}

impl<T: VirtioBlockTransport> VirtioBlock<T> {
    /// Read whole blocks into a buffer of exactly their size.
    ///
    /// The transport sees the planned request and nothing else; a request that
    /// cannot be planned reaches neither the transport nor the buffer.
    pub fn read_blocks(&mut self, start_block: u64, block_count: u32, destination: &mut [u8]) -> (result:
        Result<(), BlockError>)
        ensures
            final(self).negotiated() == old(self).negotiated(),
            match planned_data(
                old(self).negotiated()@,
                RequestKind::Read,
                start_block as nat,
                block_count as nat,
                old(destination)@.len(),
            ) {
                Some(request) => T::read_step(
                    old(self).lower(),
                    request,
                    old(destination)@,
                    final(self).lower(),
                    final(destination)@,
                    result,
                ),
                None => result == Err::<(), BlockError>(BlockError::OutOfBounds)
                    && final(self).lower() == old(self).lower() && final(destination)@ == old(destination)@,
            },
    {
        match self.profile.plan_read(start_block, block_count, destination.len()) {
            Ok(request) => self.transport.read(request, destination),
            Err(error) => Err(map_request_error(error)),
        }
    }

    /// Write whole blocks from a buffer of exactly their size.
    ///
    /// Forced unit access is never claimed; a read-only device is refused
    /// before its transport is asked.
    pub fn write_blocks(
        &mut self,
        start_block: u64,
        block_count: u32,
        source: &[u8],
        force_unit_access: bool,
    ) -> (result: Result<(), BlockError>)
        ensures
            final(self).negotiated() == old(self).negotiated(),
            ({
                let profile = old(self).negotiated()@;
                let refused = |error: BlockError|
                    result == Err::<(), BlockError>(error) && final(self).lower() == old(self).lower();
                if force_unit_access {
                    refused(BlockError::Unsupported)
                } else if profile.read_only() {
                    refused(BlockError::ReadOnly)
                } else {
                    match planned_data(
                        profile,
                        RequestKind::Write,
                        start_block as nat,
                        block_count as nat,
                        source@.len(),
                    ) {
                        Some(request) => T::write_step(
                            old(self).lower(),
                            request,
                            source@,
                            final(self).lower(),
                            result,
                        ),
                        None => refused(BlockError::OutOfBounds),
                    }
                }
            }),
    {
        if force_unit_access {
            return Err(BlockError::Unsupported);
        }
        if self.profile.read_only() {
            return Err(BlockError::ReadOnly);
        }
        match self.profile.plan_write(start_block, block_count, source.len()) {
            Ok(request) => self.transport.write(request, source),
            Err(error) => Err(map_request_error(error)),
        }
    }

    /// Flush volatile device state.
    pub fn flush(&mut self) -> (result: Result<(), BlockError>)
        ensures
            final(self).negotiated() == old(self).negotiated(),
            ({
                let profile = old(self).negotiated()@;
                let refused = |error: BlockError|
                    result == Err::<(), BlockError>(error) && final(self).lower() == old(self).lower();
                if profile.read_only() {
                    refused(BlockError::ReadOnly)
                } else {
                    match planned_flush(profile) {
                        Some(request) => T::flush_step(
                            old(self).lower(),
                            request,
                            final(self).lower(),
                            result,
                        ),
                        None => refused(BlockError::OutOfBounds),
                    }
                }
            }),
    {
        if self.profile.read_only() {
            return Err(BlockError::ReadOnly);
        }
        match self.profile.plan_flush() {
            Ok(request) => self.transport.flush(request),
            Err(error) => Err(map_request_error(error)),
        }
    }
}

/// The block-boundary error of a planning error.
pub fn map_request_error(error: VirtioBlockError) -> (mapped: BlockError)
    ensures
        mapped == if error == VirtioBlockError::InvalidRequest {
            BlockError::OutOfBounds
        } else {
            BlockError::Device
        },
{
    match error {
        VirtioBlockError::InvalidRequest => BlockError::OutOfBounds,
        _ => BlockError::Device,
    }
}

} // verus!
