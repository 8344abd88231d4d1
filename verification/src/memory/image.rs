//! Writing a program's image into its reservation.

use crate::memory::launch::{
    bytes_before, relocated, relocation_write, segment_write_offset, Segment,
};
use crate::memory::pages::PAGE_SIZE;
use vstd::prelude::*;

verus! {

/// Eight bytes of an image that hold an address of the image.
#[derive(Clone, Copy, Debug, PartialEq, Eq, Structural)]
pub struct Relocation {
    /// Image offset of the eight bytes.
    pub target_offset: u64,
    /// Image offset of the address.
    pub value_offset: u64,
}

/// What is written.
#[derive(Clone, Copy, Debug, PartialEq, Eq, Structural)]
pub enum WriteSource {
    /// The payload of a segment.
    Payload(usize),
    /// An address, in little-endian order.
    Value(u64),
}

/// A write at a logical offset of the reservation.
#[derive(Clone, Copy, Debug, PartialEq, Eq, Structural)]
pub struct ImageWrite {
    /// Logical byte offset.
    pub logical: u64,
    /// Source.
    pub source: WriteSource,
}

/// Whether the payloads of the first `n` segments fit their segments.
pub open spec fn payloads_fit(segments: Seq<Segment>, file_bytes: Seq<usize>, n: int) -> bool {
    forall|i: int|
        0 <= i < n ==> (#[trigger] file_bytes[i]) <= segments[i].memory_bytes && bytes_before(
            segments,
            i,
        ) <= u64::MAX
}

/// Whether the first `n` relocations have their places.
pub open spec fn relocations_fit(
    segments: Seq<Segment>,
    image_base: u64,
    relocations: Seq<Relocation>,
    n: int,
) -> bool {
    forall|i: int|
        0 <= i < n ==> relocated(
            segments,
            image_base,
            (#[trigger] relocations[i]).target_offset,
            relocations[i].value_offset,
        ) is Some
}

/// Whether an image can be written: every payload fits its segment, the
/// segments fill the image pages, and every relocation has its place.
pub open spec fn image_fits(
    segments: Seq<Segment>,
    file_bytes: Seq<usize>,
    image_pages: u64,
    image_base: u64,
    relocations: Seq<Relocation>,
) -> bool {
    &&& payloads_fit(segments, file_bytes, segments.len() as int)
    &&& bytes_before(segments, segments.len() as int) == 4096 * image_pages
    &&& 4096 * image_pages <= u64::MAX
    &&& relocations_fit(segments, image_base, relocations, relocations.len() as int)
}

/// The writes of an image, in order: payloads, then relocated addresses.
pub open spec fn writes_of(
    segments: Seq<Segment>,
    image_base: u64,
    relocations: Seq<Relocation>,
) -> Seq<ImageWrite> {
    Seq::new(
        segments.len() + relocations.len(),
        |i: int|
            if i < segments.len() {
                ImageWrite {
                    logical: bytes_before(segments, i) as u64,
                    source: WriteSource::Payload(i as usize),
                }
            } else {
                let relocation = relocations[i - segments.len()];
                let write = relocated(
                    segments,
                    image_base,
                    relocation.target_offset,
                    relocation.value_offset,
                )->0;
                ImageWrite {
                    logical: write.0 as u64,
                    source: WriteSource::Value(write.1 as u64),
                }
            },
    )
}

/// The writes that put an image into its reservation, in order.
///
/// Fails where a payload does not fit its segment, where the segments do not
/// fill the image pages, or where a relocation has no place.
pub fn image_writes(
    segments: &Vec<Segment>,
    file_bytes: &Vec<usize>,
    image_pages: u64,
    image_base: u64,
    relocations: &Vec<Relocation>,
) -> (writes: Option<Vec<ImageWrite>>)
    requires
        file_bytes@.len() == segments@.len(),
    ensures
        match writes {
            Some(w) => image_fits(
                segments@,
                file_bytes@,
                image_pages,
                image_base,
                relocations@,
            ) && w@ == writes_of(segments@, image_base, relocations@),
            None => !image_fits(segments@, file_bytes@, image_pages, image_base, relocations@),
        },
{
    let ghost all = writes_of(segments@, image_base, relocations@);
    let mut writes: Vec<ImageWrite> = Vec::new();
    let mut total: u64 = 0;
    let mut i: usize = 0;
    while i < segments.len()
        invariant
            i <= segments@.len() == file_bytes@.len(),
            total == bytes_before(segments@, i as int),
            payloads_fit(segments@, file_bytes@, i as int),
            all == writes_of(segments@, image_base, relocations@),
            writes@ == all.take(i as int),
        decreases segments@.len() - i,
    {
        let logical: u64 = match segment_write_offset(segments, i, 0, file_bytes[i]) {
            Some(logical) => logical,
            None => {
                assert(file_bytes@[i as int] > segments@[i as int].memory_bytes || bytes_before(
                    segments@,
                    i as int,
                ) > u64::MAX);
                return None;
            },
        };
        writes.push(ImageWrite { logical, source: WriteSource::Payload(i) });
        assert(writes@ =~= all.take(i + 1));
        proof {
            crate::memory::launch::lemma_bytes_monotone(
                segments@,
                i + 1,
                segments@.len() as int,
            );
        }
        total = match total.checked_add(segments[i].memory_bytes) {
            Some(sum) => sum,
            None => return None,
        };
        i = i + 1;
    }
    match image_pages.checked_mul(PAGE_SIZE) {
        Some(bytes) => {
            if bytes != total {
                return None;
            }
        },
        None => return None,
    }
    let ghost count = segments@.len();
    let mut k: usize = 0;
    while k < relocations.len()
        invariant
            k <= relocations@.len(),
            count == segments@.len(),
            relocations_fit(segments@, image_base, relocations@, k as int),
            all == writes_of(segments@, image_base, relocations@),
            writes@ == all.take(count + k),
        decreases relocations@.len() - k,
    {
        let relocation = relocations[k];
        match relocation_write(
            segments,
            image_base,
            relocation.target_offset,
            relocation.value_offset,
        ) {
            Some((logical, value)) => {
                writes.push(ImageWrite { logical, source: WriteSource::Value(value) });
                assert(writes@ =~= all.take(count + k + 1));
            },
            None => {
                assert(relocations@[k as int] == relocation);
                return None;
            },
        }
        k = k + 1;
    }
    assert(writes@ =~= all);
    Some(writes)
}

/// Every payload of an image stays inside its segment: where image and
/// reservation agree, no payload reaches the startup page.
pub proof fn payloads_stay_in_the_image(
    segments: Seq<Segment>,
    file_bytes: Seq<usize>,
    image_pages: u64,
    image_base: u64,
    relocations: Seq<Relocation>,
    i: int,
)
    requires
        image_fits(segments, file_bytes, image_pages, image_base, relocations),
        file_bytes.len() == segments.len(),
        0 <= i < segments.len(),
    ensures
        writes_of(segments, image_base, relocations)[i].logical + file_bytes[i] <= bytes_before(
            segments,
            i + 1,
        ) <= 4096 * image_pages,
{
    crate::memory::launch::lemma_bytes_monotone(segments, i + 1, segments.len() as int);
    crate::memory::launch::lemma_bytes_monotone(segments, 0, i);
    assert(file_bytes[i] <= segments[i].memory_bytes);
}

/// Every payload is written where its segment begins, and every relocation
/// writes the base of the image plus its value, inside a segment.
pub proof fn images_are_written_in_place(
    segments: Seq<Segment>,
    file_bytes: Seq<usize>,
    image_pages: u64,
    image_base: u64,
    relocations: Seq<Relocation>,
    i: int,
    r: int,
)
    requires
        image_fits(segments, file_bytes, image_pages, image_base, relocations),
        file_bytes.len() == segments.len(),
        segments.len() <= usize::MAX,
    ensures
        writes_of(segments, image_base, relocations).len() == segments.len() + relocations.len(),
        0 <= i < segments.len() ==> {
            let write = writes_of(segments, image_base, relocations)[i];
            write.source == WriteSource::Payload(i as usize) && write.logical == bytes_before(
                segments,
                i,
            )
        },
        0 <= r < relocations.len() ==> {
            let write = writes_of(segments, image_base, relocations)[segments.len() + r];
            let target = relocations[r].target_offset;
            &&& write.source matches WriteSource::Value(value)
            &&& value == image_base + relocations[r].value_offset
            &&& exists|k: int|
                {
                    &&& 0 <= k < segments.len()
                    &&& (#[trigger] segments[k]).image_offset <= target
                    &&& target + 8 <= segments[k].image_offset + segments[k].memory_bytes
                    &&& write.logical - bytes_before(segments, k) == target
                        - segments[k].image_offset
                }
        },
{
    if 0 <= i < segments.len() {
        crate::memory::launch::lemma_bytes_monotone(segments, 0, i);
        assert(file_bytes[i] <= segments[i].memory_bytes);
    }
    if 0 <= r < relocations.len() {
        let relocation = relocations[r];
        crate::memory::launch::relocations_add_the_image_base(
            segments,
            image_base,
            relocation.target_offset,
            relocation.value_offset,
        );
        let write = relocated(
            segments,
            image_base,
            relocation.target_offset,
            relocation.value_offset,
        )->0;
        let k = choose|k: int|
            {
                &&& 0 <= k < segments.len()
                &&& (#[trigger] segments[k]).image_offset <= relocation.target_offset
                &&& relocation.target_offset + 8 <= segments[k].image_offset
                    + segments[k].memory_bytes
                &&& write.0 - bytes_before(segments, k) == relocation.target_offset
                    - segments[k].image_offset
                &&& write.0 + 8 <= bytes_before(segments, k + 1)
            };
        crate::memory::launch::lemma_bytes_monotone(segments, 0, k);
    }
}

/// An image fits exactly where no payload is longer than its segment, the segments
/// fill the pages of the image, and every relocation has its place.
pub proof fn images_fit_their_pages(
    segments: Seq<Segment>,
    file_bytes: Seq<usize>,
    image_pages: u64,
    image_base: u64,
    relocations: Seq<Relocation>,
)
    requires
        file_bytes.len() == segments.len(),
    ensures
        image_fits(segments, file_bytes, image_pages, image_base, relocations) <==> {
            &&& forall|i: int|
                0 <= i < segments.len() ==> (#[trigger] file_bytes[i]) <= segments[i].memory_bytes
            &&& bytes_before(segments, segments.len() as int) == 4096 * image_pages
            &&& 4096 * image_pages <= u64::MAX
            &&& forall|i: int|
                0 <= i < relocations.len() ==> relocated(
                    segments,
                    image_base,
                    (#[trigger] relocations[i]).target_offset,
                    relocations[i].value_offset,
                ) is Some
        },
{
    assert forall|i: int|
        0 <= i < segments.len() && bytes_before(segments, segments.len() as int) == 4096
            * image_pages && 4096 * image_pages <= u64::MAX implies #[trigger] bytes_before(
        segments,
        i,
    ) <= u64::MAX by {
        crate::memory::launch::lemma_bytes_monotone(segments, i, segments.len() as int);
    }
}

} // verus!
