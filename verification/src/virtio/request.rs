//! Checked block requests: their header, descriptor chain and completion.

use crate::block::BlockError;
use crate::bytes::{append_le, le_value};
use crate::virtio::{REQUEST_HEADER_BYTES, REQUEST_STATUS_BYTES};
use vstd::prelude::*;

verus! {

/// Closed operation set for the initial virtio block profile.
#[derive(Clone, Copy, Debug, PartialEq, Eq, Structural)]
pub enum RequestKind {
    /// Device writes the data descriptor.
    Read,
    /// Device reads the data descriptor.
    Write,
    /// Device flushes volatile write state; no data descriptor is present.
    Flush,
}

impl RequestKind {
    /// Type number in the request header.
    pub open spec fn type_number(self) -> nat {
        match self {
            RequestKind::Read => 0,
            RequestKind::Write => 1,
            RequestKind::Flush => 4,
        }
    }
}

/// Fully checked request metadata consumed by a transport queue implementation.
#[derive(Clone, Copy, Debug, PartialEq, Eq, Structural)]
pub struct RequestPlan {
    kind: RequestKind,
    sector: u64,
    data_bytes: u32,
}

/// What a request plan says: the operation, its first sector and its length.
pub ghost struct RequestView {
    /// Operation.
    pub kind: RequestKind,
    /// Starting 512-byte sector.
    pub sector: nat,
    /// Length of the data descriptor.
    pub data_bytes: nat,
}

impl View for RequestPlan {
    type V = RequestView;

    closed spec fn view(&self) -> RequestView {
        RequestView {
            kind: self.kind,
            sector: self.sector as nat,
            data_bytes: self.data_bytes as nat,
        }
    }
}

impl RequestView {
    /// Bytes that the device writes: the status, and the data of a read.
    pub open spec fn used_bytes(self) -> nat {
        match self.kind {
            RequestKind::Read => self.data_bytes + 1,
            _ => 1,
        }
    }
}

/// The canonical request header: type, four zero bytes, sector.
pub open spec fn is_header(header: Seq<u8>, request: RequestView) -> bool {
    &&& header.len() == 16
    &&& le_value(header.subrange(0, 4)) == request.kind.type_number()
    &&& le_value(header.subrange(4, 8)) == 0
    &&& le_value(header.subrange(8, 16)) == request.sector
}

/// What a used-ring element and a status byte mean for `request`.
pub open spec fn completion(
    request: RequestView,
    descriptor_head: u32,
    used_bytes: u32,
    status: u8,
) -> Result<(), BlockError> {
    if descriptor_head != 0 || used_bytes != request.used_bytes() {
        Err(BlockError::Device)
    } else if status == 0 {
        Ok(())
    } else if status == 2 {
        Err(BlockError::Unsupported)
    } else {
        Err(BlockError::Device)
    }
}

impl RequestPlan {
    #[verifier::type_invariant]
    spec fn fits_completion_length(self) -> bool {
        self.data_bytes < u32::MAX
    }

    pub(crate) fn new(kind: RequestKind, sector: u64, data_bytes: u32) -> (plan: Self)
        requires
            data_bytes < u32::MAX,
        ensures
            plan@ == (RequestView { kind, sector: sector as nat, data_bytes: data_bytes as nat }),
    {
        RequestPlan { kind, sector, data_bytes }
    }

    /// Operation encoded in the fixed request header.
    pub fn kind(self) -> (kind: RequestKind)
        ensures
            kind == self@.kind,
    {
        self.kind
    }

    /// Starting 512-byte sector, or zero for flush.
    pub fn sector(self) -> (sector: u64)
        ensures
            sector == self@.sector,
    {
        self.sector
    }

    /// Exact data descriptor length; zero only for flush.
    pub fn data_bytes(self) -> (bytes: u32)
        ensures
            bytes == self@.data_bytes,
    {
        self.data_bytes
    }

    /// Canonical 16-byte little-endian virtio block request header.
    pub fn header(self) -> (header: [u8; 16])
        ensures
            is_header(header@, self@),
            header@.len() == REQUEST_HEADER_BYTES,
    {
        let request_type: u64 = match self.kind {
            RequestKind::Read => 0,
            RequestKind::Write => 1,
            RequestKind::Flush => 4,
        };
        let mut bytes: Vec<u8> = Vec::new();
        proof {
            crate::bytes::lemma_pow256_values();
        }
        append_le(&mut bytes, request_type, 4);
        let ghost first = bytes@;
        append_le(&mut bytes, 0, 4);
        let ghost second = bytes@;
        append_le(&mut bytes, self.sector, 8);
        proof {
            assert(first =~= first.subrange(0, 4));
            assert(second.subrange(0, 4) =~= first);
            assert(bytes@.subrange(0, 8) =~= second);
            assert(bytes@.subrange(0, 4) =~= second.subrange(0, 4));
            assert(bytes@.subrange(4, 8) =~= second.subrange(4, 8));
        }
        let header = [
            bytes[0], bytes[1], bytes[2], bytes[3], bytes[4], bytes[5], bytes[6], bytes[7],
            bytes[8], bytes[9], bytes[10], bytes[11], bytes[12], bytes[13], bytes[14], bytes[15],
        ];
        assert(header@ =~= bytes@);
        header
    }

    /// Number of direct descriptors in this request chain.
    pub fn descriptor_count(self) -> (count: u16)
        ensures
            count == if self@.kind is Flush {
                2int
            } else {
                3
            },
    {
        if matches!(self.kind, RequestKind::Flush) {
            2
        } else {
            3
        }
    }

    /// Expected used-ring byte count for exact completion.
    pub fn expected_used_bytes(self) -> (bytes: u32)
        ensures
            bytes == self@.used_bytes(),
    {
        proof {
            use_type_invariant(&self);
        }
        match self.kind {
            RequestKind::Read => self.data_bytes + REQUEST_STATUS_BYTES,
            RequestKind::Write | RequestKind::Flush => REQUEST_STATUS_BYTES,
        }
    }

    /// Validate a used-ring element and final device status byte.
    ///
    /// Rejects a nonzero descriptor head, incomplete or overlong device write,
    /// I/O error, unsupported operation, and every unknown status.
    pub fn validate_completion(self, descriptor_head: u32, used_bytes: u32, status: u8) -> (result:
        Result<(), BlockError>)
        ensures
            result == completion(self@, descriptor_head, used_bytes, status),
    {
        if descriptor_head != 0 || used_bytes != self.expected_used_bytes() {
            return Err(BlockError::Device);
        }
        match status {
            0 => Ok(()),
            2 => Err(BlockError::Unsupported),
            _ => Err(BlockError::Device),
        }
    }
}

/// A header determines the operation and the sector of its request, and two
/// headers of one request are equal.
pub proof fn header_identifies_request(a: Seq<u8>, b: Seq<u8>, x: RequestView, y: RequestView)
    requires
        is_header(a, x),
        is_header(b, y),
    ensures
        a == b <==> x.kind == y.kind && x.sector == y.sector,
{
    if x.kind == y.kind && x.sector == y.sector {
        crate::bytes::le_value_is_injective(a.subrange(0, 4), b.subrange(0, 4));
        crate::bytes::le_value_is_injective(a.subrange(4, 8), b.subrange(4, 8));
        crate::bytes::le_value_is_injective(a.subrange(8, 16), b.subrange(8, 16));
        assert(a =~= a.subrange(0, 4) + a.subrange(4, 8) + a.subrange(8, 16));
        assert(b =~= b.subrange(0, 4) + b.subrange(4, 8) + b.subrange(8, 16));
    }
}

/// A completion is accepted only with head zero, the exact length and status
/// zero.
pub proof fn completion_is_exact(request: RequestView, head: u32, used: u32, status: u8)
    ensures
        completion(request, head, used, status) is Ok <==> head == 0 && used
            == request.used_bytes() && status == 0,
{
}

/// Operations have their numbers of the protocol. A device reports the bytes
/// that it wrote: those of a read and the status, and of any other request the
/// status alone.
pub proof fn operations_have_their_numbers(request: RequestView)
    ensures
        RequestKind::Read.type_number() == 0,
        RequestKind::Write.type_number() == 1,
        RequestKind::Flush.type_number() == 4,
        request.kind == RequestKind::Read ==> request.used_bytes() == request.data_bytes + 1,
        request.kind != RequestKind::Read ==> request.used_bytes() == 1,
{
}

/// A completion of another request, or of another length, is the device's error
/// whatever its status; otherwise status two means that the request is not
/// supported, and any other than zero that the device failed.
pub proof fn completions_report_their_status(
    request: RequestView,
    head: u32,
    used: u32,
    status: u8,
)
    ensures
        head != 0 || used != request.used_bytes() ==> completion(request, head, used, status)
            == Err::<(), BlockError>(BlockError::Device),
        head == 0 && used == request.used_bytes() && status == 2 ==> completion(
            request,
            head,
            used,
            status,
        ) == Err::<(), BlockError>(BlockError::Unsupported),
        head == 0 && used == request.used_bytes() && status != 2 && status != 0 ==> completion(
            request,
            head,
            used,
            status,
        ) == Err::<(), BlockError>(BlockError::Device),
{
}

/// A header holds the operation in its first four bytes, nothing in the next
/// four and the sector in its last eight.
pub proof fn headers_hold_operation_and_sector(header: Seq<u8>, request: RequestView)
    requires
        is_header(header, request),
    ensures
        header.len() == 16,
        le_value(header.subrange(0, 4)) == match request.kind {
            RequestKind::Read => 0nat,
            RequestKind::Write => 1nat,
            RequestKind::Flush => 4nat,
        },
        le_value(header.subrange(4, 8)) == 0,
        le_value(header.subrange(8, 16)) == request.sector,
{
}

} // verus!
