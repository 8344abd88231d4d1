//! Launching a program: its reservation, image and teardown.

use crate::memory::extents::{
    all_well_formed, appended, frames, lemma_frames_len, lemma_frames_push, lemma_total_prefix,
    total_pages,
};
use crate::memory::pages::{PageRange, PAGE_SIZE};
use crate::memory::plan::{
    plan_valid, user_page, write_xor_execute, MappingOwner, MappingPlan, PlannedMapping,
};
use crate::memory::private::mapping::Permissions;
use crate::memory::private::space::{exceeds, SystemMemory};
use crate::memory::regions::{map_regions, regions_fit, shows_regions, LaunchRegion};
use vstd::prelude::*;

verus! {

/// Most physical extents behind one launch reservation.
pub const MAX_APPLICATION_EXTENTS: usize = 256;

/// Pages of the startup page between image and heap.
pub const APPLICATION_STARTUP_PAGES: u64 = 1;

/// Pages taken in one step where every launch is to be fragmented.
pub const ACCEPTANCE_LAUNCH_QUANTUM_PAGES: u64 = 4;

/// A growing launch reservation.
///
/// It asks for runs of at most a quantum and halves the request whenever no
/// such run is free, down to single frames.
#[derive(Debug)]
pub struct LaunchCollection {
    wanted: u64,
    remaining: u64,
    request: u64,
    quantum: u64,
    coalesce: bool,
    extents: Vec<PageRange>,
}

impl LaunchCollection {
    /// Frames collected so far, in order.
    pub closed spec fn collected(self) -> Seq<int> {
        frames(self.extents@)
    }

    /// Extents collected so far.
    pub closed spec fn parts(self) -> Seq<PageRange> {
        self.extents@
    }

    /// The number of frames that were asked for.
    pub closed spec fn target(self) -> int {
        self.wanted as int
    }

    /// Frames that are still missing.
    pub closed spec fn missing(self) -> int {
        self.remaining as int
    }

    /// The run to ask the allocator for; zero once complete.
    pub closed spec fn want(self) -> int {
        self.request as int
    }

    /// Most frames in one run.
    pub closed spec fn step(self) -> int {
        self.quantum as int
    }

    /// Whether touching runs are joined.
    pub closed spec fn joins(self) -> bool {
        self.coalesce
    }

    /// Whether a run lengthens the last extent.
    pub open spec fn touches(self, range: PageRange) -> bool {
        self.joins() && self.parts().len() > 0 && self.parts().last().past() == range.first()
    }

    /// The extents with one more run.
    pub open spec fn parts_with(self, range: PageRange) -> Seq<PageRange> {
        if self.touches(range) {
            appended(self.parts(), range)
        } else {
            self.parts().push(range)
        }
    }

    /// Whether a run would be one separate extent too many.
    pub open spec fn too_scattered(self, range: PageRange) -> bool {
        !self.touches(range) && self.parts().len() >= MAX_APPLICATION_EXTENTS
    }

    #[verifier::type_invariant]
    spec fn counts(self) -> bool {
        &&& all_well_formed(self.extents@)
        &&& self.quantum > 0
        &&& total_pages(self.extents@) + self.remaining == self.wanted
        &&& self.request <= self.remaining
        &&& self.request <= self.quantum
        &&& (self.request == 0) == (self.remaining == 0)
        &&& self.extents@.len() <= MAX_APPLICATION_EXTENTS
    }

    /// The first request for `missing` frames.
    pub open spec fn first_request(missing: int, quantum: int) -> int {
        if missing <= quantum {
            missing
        } else {
            quantum
        }
    }

    /// Start a reservation of `page_count` frames.
    pub fn start(page_count: u64, quantum: u64, coalesce: bool) -> (collection: Option<Self>)
        ensures
            match collection {
                Some(c) => {
                    &&& quantum > 0 && page_count > 0
                    &&& c.target() == page_count
                    &&& c.missing() == page_count
                    &&& c.step() == quantum
                    &&& c.joins() == coalesce
                    &&& c.collected() == Seq::<int>::empty()
                    &&& c.parts() == Seq::<PageRange>::empty()
                    &&& c.want() == Self::first_request(page_count as int, quantum as int)
                },
                None => quantum == 0 || page_count == 0,
            },
    {
        if quantum == 0 || page_count == 0 {
            return None;
        }
        let extents: Vec<PageRange> = Vec::new();
        assert(frames(extents@) =~= Seq::<int>::empty());
        let request: u64 = if page_count <= quantum {
            page_count
        } else {
            quantum
        };
        Some(
            LaunchCollection {
                wanted: page_count,
                remaining: page_count,
                request,
                quantum,
                coalesce,
                extents,
            },
        )
    }

    /// The run to ask for.
    pub fn next_run(&self) -> (pages: u64)
        ensures
            pages == self.want(),
            pages == 0 <==> self.missing() == 0,
            self.collected().len() + self.missing() == self.target(),
    {
        proof {
            use_type_invariant(self);
            lemma_frames_len(self.extents@);
        }
        self.request
    }

    /// No run of this size is free: halve the request, or give up at one
    /// frame and hand everything back.
    pub fn refused(self) -> (next: Result<Self, Vec<PageRange>>)
        requires
            self.want() > 0,
        ensures
            match next {
                Ok(n) => {
                    &&& self.want() > 1
                    &&& n.want() == self.want() / 2
                    &&& n.collected() == self.collected()
                    &&& n.parts() == self.parts()
                    &&& n.missing() == self.missing()
                    &&& n.target() == self.target()
                    &&& n.step() == self.step()
                    &&& n.joins() == self.joins()
                },
                Err(extents) => self.want() == 1 && extents@ == self.parts(),
            },
    {
        proof {
            use_type_invariant(&self);
        }
        if self.request <= 1 {
            return Err(self.extents);
        }
        Ok(
            LaunchCollection {
                wanted: self.wanted,
                remaining: self.remaining,
                request: self.request / 2,
                quantum: self.quantum,
                coalesce: self.coalesce,
                extents: self.extents,
            },
        )
    }

    /// Take a zeroed run of exactly the size asked for; too many separate
    /// extents end the reservation and everything but the run goes back.
    pub fn granted(self, range: PageRange) -> (next: Result<Self, Vec<PageRange>>)
        requires
            range.well_formed(),
            range.pages() == self.want(),
            self.want() > 0,
        ensures
            match next {
                Ok(n) => {
                    &&& !self.too_scattered(range)
                    &&& n.parts() == self.parts_with(range)
                    &&& n.collected() == self.collected() + range.numbers()
                    &&& n.missing() == self.missing() - range.pages()
                    &&& n.want() == Self::first_request(n.missing(), self.step())
                    &&& n.target() == self.target()
                    &&& n.step() == self.step()
                    &&& n.joins() == self.joins()
                },
                Err(extents) => self.too_scattered(range) && extents@ == self.parts(),
            },
    {
        proof {
            use_type_invariant(&self);
        }
        let remaining: u64 = self.remaining - range.page_count();
        let request: u64 = if remaining <= self.quantum {
            remaining
        } else {
            self.quantum
        };
        let mut extents = self.extents;
        let count: usize = extents.len();
        let touches = self.coalesce && count > 0 && extents[count - 1].end() == range.start();
        if touches {
            crate::memory::extents::append_frame(&mut extents, range);
        } else {
            if count >= MAX_APPLICATION_EXTENTS {
                return Err(extents);
            }
            proof {
                lemma_frames_push(extents@, range);
            }
            extents.push(range);
        }
        Ok(
            LaunchCollection {
                wanted: self.wanted,
                remaining,
                request,
                quantum: self.quantum,
                coalesce: self.coalesce,
                extents,
            },
        )
    }

    /// The complete reservation.
    pub fn finish(self) -> (extents: Vec<PageRange>)
        requires
            self.missing() == 0,
        ensures
            extents@ == self.parts(),
            all_well_formed(extents@),
            frames(extents@) == self.collected(),
            total_pages(extents@) == self.target(),
            extents@.len() <= MAX_APPLICATION_EXTENTS,
    {
        proof {
            use_type_invariant(&self);
        }
        self.extents
    }

    /// Everything collected, to be handed back.
    pub fn abandon(self) -> (extents: Vec<PageRange>)
        ensures
            extents@ == self.parts(),
            frames(extents@) == self.collected(),
    {
        self.extents
    }
}

/// One loadable part of an image.
#[derive(Clone, Copy, Debug, PartialEq, Eq, Structural)]
pub struct Segment {
    /// Byte offset inside the image.
    pub image_offset: u64,
    /// Bytes that the part takes in memory.
    pub memory_bytes: u64,
    /// First virtual byte address.
    pub virtual_address: u64,
    /// Rights.
    pub permissions: Permissions,
}

/// Bytes of the first `n` segments.
pub open spec fn bytes_before(segments: Seq<Segment>, n: int) -> int
    decreases n,
{
    if n <= 0 {
        0
    } else {
        bytes_before(segments, n - 1) + segments[n - 1].memory_bytes
    }
}

pub(crate) proof fn lemma_bytes_monotone(segments: Seq<Segment>, a: int, b: int)
    requires
        0 <= a <= b,
    ensures
        0 <= bytes_before(segments, a) <= bytes_before(segments, b),
    decreases b,
{
    if a < b {
        lemma_bytes_monotone(segments, a, b - 1);
    } else if b > 0 {
        lemma_bytes_monotone(segments, a - 1, b - 1);
    }
}

/// Logical byte offset of one segment within the launch reservation, which
/// holds the segments in order from its first byte on.
pub fn segment_logical_offset(segments: &Vec<Segment>, wanted: usize) -> (offset: Option<u64>)
    ensures
        match offset {
            Some(o) => wanted < segments@.len() && o == bytes_before(segments@, wanted as int),
            None => wanted >= segments@.len() || bytes_before(segments@, wanted as int)
                > u64::MAX,
        },
{
    if wanted >= segments.len() {
        return None;
    }
    let mut offset: u64 = 0;
    let mut i: usize = 0;
    while i < wanted
        invariant
            i <= wanted < segments@.len(),
            offset == bytes_before(segments@, i as int),
        decreases wanted - i,
    {
        proof {
            lemma_bytes_monotone(segments@, i + 1, wanted as int);
        }
        offset = match offset.checked_add(segments[i].memory_bytes) {
            Some(sum) => sum,
            None => return None,
        };
        i = i + 1;
    }
    Some(offset)
}

/// Logical offset of payload bytes inside segment `index`.
///
/// A write that would leave the segment is refused rather than spilled into
/// what follows.
pub fn segment_write_offset(segments: &Vec<Segment>, index: usize, offset: u64, length: usize) -> (logical:
    Option<u64>)
    ensures
        match logical {
            Some(l) => {
                &&& index < segments@.len()
                &&& offset + length <= segments@[index as int].memory_bytes
                &&& l == bytes_before(segments@, index as int) + offset
            },
            None => {
                ||| index >= segments@.len()
                ||| offset + length > segments@[index as int].memory_bytes
                ||| bytes_before(segments@, index as int) + offset > u64::MAX
            },
        },
{
    proof {
        lemma_bytes_monotone(segments@, 0, index as int);
    }
    if index >= segments.len() {
        return None;
    }
    let end: u64 = match offset.checked_add(length as u64) {
        Some(end) => end,
        None => return None,
    };
    if end > segments[index].memory_bytes {
        return None;
    }
    match segment_logical_offset(segments, index) {
        Some(base) => base.checked_add(offset),
        None => None,
    }
}

/// Whether segment `i` holds the eight bytes at image offset `target`.
pub open spec fn holds_target(segments: Seq<Segment>, i: int, target: int) -> bool {
    &&& 0 <= i < segments.len()
    &&& segments[i].image_offset <= target
    &&& target + 8 <= segments[i].image_offset + segments[i].memory_bytes
}

/// The first segment from `i` on that holds all eight bytes at image offset
/// `target`, where every segment up to it ends within the address space.
pub open spec fn relocation_site(segments: Seq<Segment>, target: int, i: int) -> Option<int>
    decreases segments.len() - i,
{
    if i < 0 || i >= segments.len() || segments[i].image_offset + segments[i].memory_bytes
        > u64::MAX {
        None
    } else if holds_target(segments, i, target) {
        Some(i)
    } else {
        relocation_site(segments, target, i + 1)
    }
}

/// Where a relative relocation writes, and what.
pub open spec fn relocated(
    segments: Seq<Segment>,
    image_base: u64,
    target_offset: u64,
    value_offset: u64,
) -> Option<(int, int)> {
    match relocation_site(segments, target_offset as int, 0) {
        Some(i) => {
            let logical = bytes_before(segments, i) + (target_offset - segments[i].image_offset);
            let value = image_base + value_offset;
            if logical <= u64::MAX && value <= u64::MAX {
                Some((logical, value))
            } else {
                None
            }
        },
        None => None,
    }
}

/// Where a relative relocation writes, and what.
///
/// The first segment that holds all eight target bytes takes the write.
pub fn relocation_write(
    segments: &Vec<Segment>,
    image_base: u64,
    target_offset: u64,
    value_offset: u64,
) -> (write: Option<(u64, u64)>)
    ensures
        match write {
            Some(w) => relocated(segments@, image_base, target_offset, value_offset) == Some(
                (w.0 as int, w.1 as int),
            ),
            None => relocated(segments@, image_base, target_offset, value_offset) is None,
        },
{
    let target_end: u64 = match target_offset.checked_add(8) {
        Some(end) => end,
        None => {
            proof {
                lemma_no_site(segments@, target_offset as int, 0);
            }
            return None;
        },
    };
    let mut i: usize = 0;
    while i < segments.len()
        invariant
            i <= segments@.len(),
            target_end == target_offset + 8,
            relocation_site(segments@, target_offset as int, 0) == relocation_site(
                segments@,
                target_offset as int,
                i as int,
            ),
        decreases segments@.len() - i,
    {
        let segment = segments[i];
        let segment_end: u64 = match segment.image_offset.checked_add(segment.memory_bytes) {
            Some(end) => end,
            None => return None,
        };
        if segment.image_offset <= target_offset && target_end <= segment_end {
            assert(holds_target(segments@, i as int, target_offset as int));
            proof {
                lemma_bytes_monotone(segments@, 0, i as int);
            }
            let base: u64 = match segment_logical_offset(segments, i) {
                Some(base) => base,
                None => return None,
            };
            let logical: u64 = match base.checked_add(target_offset - segment.image_offset) {
                Some(logical) => logical,
                None => return None,
            };
            return match image_base.checked_add(value_offset) {
                Some(value) => Some((logical, value)),
                None => None,
            };
        }
        assert(!holds_target(segments@, i as int, target_offset as int));
        i = i + 1;
    }
    None
}

proof fn lemma_no_site(segments: Seq<Segment>, target: int, i: int)
    requires
        target + 8 > u64::MAX,
    ensures
        relocation_site(segments, target, i) is None,
    decreases segments.len() - i,
{
    if 0 <= i < segments.len() && segments[i].image_offset + segments[i].memory_bytes <= u64::MAX {
        lemma_no_site(segments, target, i + 1);
    }
}

/// Physical byte address of logical byte `at` of a reservation.
pub open spec fn physical_byte(extents: Seq<PageRange>, at: int) -> int {
    4096 * frames(extents)[at / 4096] + at % 4096
}

/// A piece of a write that lies in one extent.
#[derive(Clone, Copy, Debug, PartialEq, Eq, Structural)]
pub struct WriteChunk {
    /// Extent that takes the piece.
    pub extent: PageRange,
    /// Byte offset inside the extent.
    pub within: u64,
    /// First source byte.
    pub start: u64,
    /// Number of bytes.
    pub count: u64,
}

impl WriteChunk {
    /// The piece goes where the reservation holds those logical bytes.
    pub open spec fn places(self, extents: Seq<PageRange>, offset: int) -> bool {
        &&& self.extent.well_formed()
        &&& self.count > 0
        &&& self.within + self.count <= 4096 * self.extent.pages()
        &&& forall|b: int|
            self.start <= b < self.start + self.count ==> #[trigger] physical_byte(
                extents,
                offset + b,
            ) == 4096 * self.extent.first() + self.within + (b - self.start)
    }
}

/// The pieces follow one another from source byte 0 to `end` and each goes to
/// its place.
pub open spec fn is_write(
    chunks: Seq<WriteChunk>,
    extents: Seq<PageRange>,
    offset: int,
    end: int,
) -> bool {
    &&& forall|k: int|
        0 <= k < chunks.len() ==> (#[trigger] chunks[k]).places(extents, offset)
            && chunks[k].start == (if k == 0 {
            0
        } else {
            chunks[k - 1].start + chunks[k - 1].count
        })
    &&& end == if chunks.len() == 0 {
        0
    } else {
        chunks.last().start + chunks.last().count
    }
}

proof fn lemma_frame_at(extents: Seq<PageRange>, i: int, q: int)
    requires
        all_well_formed(extents),
        0 <= i < extents.len(),
        0 <= q < extents[i].pages(),
    ensures
        0 <= total_pages(extents.take(i)) + q < frames(extents).len(),
        frames(extents)[total_pages(extents.take(i)) + q] == extents[i].first() + q,
    decreases extents.len(),
{
    let n = extents.len() - 1;
    let rest = extents.drop_last();
    lemma_frames_len(extents);
    lemma_frames_len(rest);
    if i == n {
        assert(extents.take(n) =~= rest);
    } else {
        lemma_frame_at(rest, i, q);
        assert(rest.take(i) =~= extents.take(i));
    }
}

proof fn lemma_chunk_places(extents: Seq<PageRange>, i: int, offset: int, chunk: WriteChunk)
    requires
        all_well_formed(extents),
        0 <= i < extents.len(),
        chunk.extent == extents[i],
        chunk.count > 0,
        offset + chunk.start == 4096 * total_pages(extents.take(i)) + chunk.within,
        chunk.within + chunk.count <= 4096 * extents[i].pages(),
    ensures
        chunk.places(extents, offset),
{
    let base = total_pages(extents.take(i));
    assert(extents[i].well_formed());
    assert forall|b: int|
        chunk.start <= b < chunk.start + chunk.count implies #[trigger] physical_byte(
        extents,
        offset + b,
    ) == 4096 * chunk.extent.first() + chunk.within + (b - chunk.start) by {
        let inside = chunk.within + (b - chunk.start);
        let q = inside / 4096;
        assert(offset + b == 4096 * base + inside);
        assert((offset + b) / 4096 == base + q);
        assert((offset + b) % 4096 == inside % 4096);
        lemma_frame_at(extents, i, q);
    }
}

proof fn lemma_write_grows(
    chunks: Seq<WriteChunk>,
    extents: Seq<PageRange>,
    offset: int,
    chunk: WriteChunk,
)
    requires
        is_write(chunks, extents, offset, chunk.start as int),
        chunk.places(extents, offset),
    ensures
        is_write(chunks.push(chunk), extents, offset, chunk.start + chunk.count),
{
    let grown = chunks.push(chunk);
    assert forall|k: int| 0 <= k < grown.len() implies (#[trigger] grown[k]).places(
        extents,
        offset,
    ) && grown[k].start == (if k == 0 {
        0
    } else {
        grown[k - 1].start + grown[k - 1].count
    }) by {
        if k < chunks.len() {
            assert(grown[k] == chunks[k]);
        }
    }
}

/// Split a write of `length` bytes at a logical offset at the extents that it
/// crosses.
///
/// Fails where the reservation does not hold all of it.
pub fn split_launch_write(extents: &Vec<PageRange>, byte_offset: u64, length: u64) -> (chunks: Option<
    Vec<WriteChunk>,
>)
    requires
        all_well_formed(extents@),
        4096 * total_pages(extents@) <= u64::MAX,
    ensures
        match chunks {
            Some(c) => {
                &&& length == 0 || byte_offset + length <= 4096 * total_pages(extents@)
                &&& is_write(c@, extents@, byte_offset as int, length as int)
            },
            None => length > 0 && byte_offset + length > 4096 * total_pages(extents@),
        },
{
    let mut chunks: Vec<WriteChunk> = Vec::new();
    if length == 0 {
        return Some(chunks);
    }
    let end: u64 = match byte_offset.checked_add(length) {
        Some(end) => end,
        None => return None,
    };
    let mut at: u64 = 0;
    let mut done: u64 = 0;
    let mut i: usize = 0;
    while i < extents.len()
        invariant
            i <= extents@.len(),
            all_well_formed(extents@),
            4096 * total_pages(extents@) <= u64::MAX,
            end == byte_offset + length,
            length > 0,
            at == 4096 * total_pages(extents@.take(i as int)),
            done == if at <= byte_offset {
                0
            } else if at < end {
                at - byte_offset
            } else {
                length as int
            },
            is_write(chunks@, extents@, byte_offset as int, done as int),
        decreases extents@.len() - i,
    {
        let extent = extents[i];
        let pages: u64 = extent.page_count();
        proof {
            assert(extents@.take(i + 1) =~= extents@.take(i as int).push(extent));
            lemma_frames_push(extents@.take(i as int), extent);
            lemma_total_prefix(extents@, i + 1);
        }
        let next: u64 = at + pages * PAGE_SIZE;
        let from: u64 = if at >= byte_offset {
            at
        } else {
            byte_offset
        };
        let to: u64 = if next <= end {
            next
        } else {
            end
        };
        if from < to {
            let chunk = WriteChunk {
                extent,
                within: from - at,
                start: from - byte_offset,
                count: to - from,
            };
            proof {
                lemma_chunk_places(extents@, i as int, byte_offset as int, chunk);
                lemma_write_grows(chunks@, extents@, byte_offset as int, chunk);
            }
            chunks.push(chunk);
            done = to - byte_offset;
        }
        at = next;
        i = i + 1;
    }
    assert(extents@.take(i as int) =~= extents@);
    if end > at {
        return None;
    }
    Some(chunks)
}

/// Where the parts of a program lie in its address space and reservation.
#[derive(Debug)]
pub struct ImagePlan {
    /// Loadable parts in image order.
    pub segments: Vec<Segment>,
    /// Pages of the image.
    pub image_pages: u64,
    /// Pages of the initial heap.
    pub heap_pages: u64,
    /// Pages of the stack.
    pub stack_pages: u64,
    /// Address of the startup page.
    pub startup_address: u64,
    /// Address of the heap.
    pub heap_address: u64,
    /// Lowest address of the stack.
    pub stack_bottom: u64,
}

/// Committed pages after a launch, if policy and free memory allow it.
pub open spec fn launch_commit(
    system: SystemMemory,
    process_limit: Option<u64>,
    private_pages: u64,
    free_frames: u64,
) -> Option<int> {
    let committed = system.application_committed_pages + private_pages;
    let spare = if free_frames >= system.minimum_free_pages {
        free_frames - system.minimum_free_pages
    } else {
        0
    };
    if committed > u64::MAX || exceeds(committed, system.system_commit_limit) || exceeds(
        private_pages as int,
        process_limit,
    ) || private_pages > spare {
        None
    } else {
        Some(committed)
    }
}

/// Committed pages after a launch of `private_pages`.
pub fn admit_launch(
    system: &SystemMemory,
    process_limit: Option<u64>,
    private_pages: u64,
    free_frames: u64,
) -> (committed: Option<u64>)
    ensures
        match committed {
            Some(c) => launch_commit(*system, process_limit, private_pages, free_frames) == Some(
                c as int,
            ),
            None => launch_commit(*system, process_limit, private_pages, free_frames) is None,
        },
{
    let committed: u64 = match system.application_committed_pages.checked_add(private_pages) {
        Some(pages) => pages,
        None => return None,
    };
    let system_full = match system.system_commit_limit {
        Some(limit) => committed > limit,
        None => false,
    };
    let process_full = match process_limit {
        Some(limit) => private_pages > limit,
        None => false,
    };
    if system_full || process_full || private_pages > free_frames.saturating_sub(
        system.minimum_free_pages,
    ) {
        return None;
    }
    Some(committed)
}

/// Whether page tables of this size may be allocated.
pub fn launch_tables_allowed(system: &SystemMemory, table_pages: u64, free_frames: u64) -> (allowed:
    bool)
    ensures
        allowed == (table_pages > 0 && table_pages + system.minimum_free_pages <= free_frames),
{
    table_pages != 0 && table_pages <= free_frames.saturating_sub(system.minimum_free_pages)
}

/// The regions of a program: segments in order, the startup page, the heap
/// unless empty, the stack.
pub open spec fn regions_of(image: ImagePlan) -> Seq<LaunchRegion> {
    let n = image.segments@.len();
    let behind = image.image_pages + 1;
    let parts = Seq::new(
        n,
        |i: int|
            LaunchRegion {
                start_page: (bytes_before(image.segments@, i) / 4096) as u64,
                page_count: (image.segments@[i].memory_bytes / 4096) as u64,
                virtual_start: image.segments@[i].virtual_address,
                permissions: image.segments@[i].permissions,
            },
    );
    let startup = LaunchRegion {
        start_page: image.image_pages,
        page_count: 1,
        virtual_start: image.startup_address,
        permissions: Permissions::ReadOnly,
    };
    let heap = LaunchRegion {
        start_page: behind as u64,
        page_count: image.heap_pages,
        virtual_start: image.heap_address,
        permissions: Permissions::ReadWrite,
    };
    let stack = LaunchRegion {
        start_page: (behind + image.heap_pages) as u64,
        page_count: image.stack_pages,
        virtual_start: image.stack_bottom,
        permissions: Permissions::ReadWrite,
    };
    if image.heap_pages == 0 {
        parts.push(startup).push(stack)
    } else {
        parts.push(startup).push(heap).push(stack)
    }
}

/// Whether the parts of a program fill its reservation exactly, and the offset
/// of every segment fits.
pub open spec fn fills_reservation(image: ImagePlan, total: int) -> bool {
    &&& image.image_pages + 1 + image.heap_pages + image.stack_pages == total
    &&& image.segments@.len() > 0 ==> bytes_before(image.segments@, image.segments@.len() - 1)
        <= u64::MAX
}

/// The regions of a program whose parts fill a reservation of `total` pages.
pub fn application_regions(image: &ImagePlan, total: u64) -> (regions: Option<Vec<LaunchRegion>>)
    ensures
        match regions {
            Some(r) => fills_reservation(*image, total as int) && r@ == regions_of(*image),
            None => !fills_reservation(*image, total as int),
        },
{
    let behind: u64 = match image.image_pages.checked_add(APPLICATION_STARTUP_PAGES) {
        Some(pages) => pages,
        None => return None,
    };
    let stack_start: u64 = match behind.checked_add(image.heap_pages) {
        Some(pages) => pages,
        None => return None,
    };
    match stack_start.checked_add(image.stack_pages) {
        Some(sum) => {
            if sum != total {
                return None;
            }
        },
        None => return None,
    }
    let mut regions: Vec<LaunchRegion> = Vec::new();
    let mut offset: u64 = 0;
    let mut i: usize = 0;
    let ghost all = regions_of(*image);
    while i < image.segments.len()
        invariant
            i <= image.segments@.len(),
            i < image.segments@.len() ==> offset == bytes_before(image.segments@, i as int),
            i > 0 ==> bytes_before(image.segments@, i - 1) <= u64::MAX,
            all == regions_of(*image),
            regions@ == all.take(i as int),
            all.len() >= image.segments@.len(),
        decreases image.segments@.len() - i,
    {
        let segment = image.segments[i];
        regions.push(
            LaunchRegion {
                start_page: offset / PAGE_SIZE,
                page_count: segment.memory_bytes / PAGE_SIZE,
                virtual_start: segment.virtual_address,
                permissions: segment.permissions,
            },
        );
        i = i + 1;
        if i < image.segments.len() {
            proof {
                lemma_bytes_monotone(image.segments@, i as int, image.segments@.len() - 1);
            }
            offset = match offset.checked_add(segment.memory_bytes) {
                Some(sum) => sum,
                None => return None,
            };
        }
        assert(regions@ =~= all.take(i as int));
    }
    regions.push(
        LaunchRegion {
            start_page: image.image_pages,
            page_count: APPLICATION_STARTUP_PAGES,
            virtual_start: image.startup_address,
            permissions: Permissions::ReadOnly,
        },
    );
    if image.heap_pages != 0 {
        regions.push(
            LaunchRegion {
                start_page: behind,
                page_count: image.heap_pages,
                virtual_start: image.heap_address,
                permissions: Permissions::ReadWrite,
            },
        );
    }
    regions.push(
        LaunchRegion {
            start_page: stack_start,
            page_count: image.stack_pages,
            virtual_start: image.stack_bottom,
            permissions: Permissions::ReadWrite,
        },
    );
    assert(regions@ =~= all);
    Some(regions)
}

/// Whether a kernel mapping stays visible while a program runs.
pub open spec fn stays_visible(mapping: PlannedMapping, runtime: PageRange) -> bool {
    mapping.owner != MappingOwner::KernelRuntime || runtime.includes(mapping.physical)
}

/// The kernel mappings that stay visible, in order.
pub open spec fn visible_kernel(
    kernel: Seq<PlannedMapping>,
    runtime: PageRange,
) -> Seq<PlannedMapping>
    decreases kernel.len(),
{
    if kernel.len() == 0 {
        Seq::empty()
    } else {
        let rest = visible_kernel(kernel.drop_last(), runtime);
        if stays_visible(kernel.last(), runtime) {
            rest.push(kernel.last())
        } else {
            rest
        }
    }
}

proof fn lemma_visible_from_kernel(kernel: Seq<PlannedMapping>, runtime: PageRange, limit: int)
    requires
        plan_valid(kernel, limit),
    ensures
        plan_valid(visible_kernel(kernel, runtime), kernel.len() as int),
        forall|k: int|
            0 <= k < visible_kernel(kernel, runtime).len() ==> exists|i: int|
                0 <= i < kernel.len() && kernel[i] == #[trigger] visible_kernel(
                    kernel,
                    runtime,
                )[k],
    decreases kernel.len(),
{
    if kernel.len() > 0 {
        let front = kernel.drop_last();
        assert(plan_valid(front, limit)) by {
            assert forall|i: int, j: int| 0 <= i < j < front.len() implies (
            #[trigger] front[i]).virtual_range.apart((#[trigger] front[j]).virtual_range) by {
                assert(front[i] == kernel[i] && front[j] == kernel[j]);
            }
            assert forall|i: int| 0 <= i < front.len() implies (
            #[trigger] front[i]).well_formed() by {
                assert(front[i] == kernel[i]);
            }
        }
        lemma_visible_from_kernel(front, runtime, limit);
        let rest = visible_kernel(front, runtime);
        let all = visible_kernel(kernel, runtime);
        let last = kernel.len() - 1;
        assert forall|k: int| 0 <= k < all.len() implies exists|i: int|
            0 <= i < kernel.len() && kernel[i] == #[trigger] all[k] by {
            if k < rest.len() {
                let i = choose|i: int| 0 <= i < front.len() && front[i] == rest[k];
                assert(kernel[i] == all[k]);
            } else {
                assert(kernel[last] == all[k]);
            }
        }
        assert forall|a: int, b: int| 0 <= a < b < all.len() implies (
        #[trigger] all[a]).virtual_range.apart((#[trigger] all[b]).virtual_range) by {
            if b < rest.len() {
                assert(rest[a].virtual_range.apart(rest[b].virtual_range));
            } else {
                let i = choose|i: int| 0 <= i < front.len() && front[i] == rest[a];
                assert(kernel[i].virtual_range.apart(kernel[last].virtual_range));
            }
        }
        assert forall|a: int| 0 <= a < all.len() implies (#[trigger] all[a]).well_formed() by {
            if a < rest.len() {
                assert(rest[a].well_formed());
            } else {
                assert(kernel[last].well_formed());
            }
        }
    }
}

/// Copy the kernel mappings that stay visible into a new plan.
pub fn keep_visible_kernel(kernel: &MappingPlan, runtime: PageRange) -> (plan: MappingPlan)
    requires
        kernel.well_formed(),
        runtime.well_formed(),
    ensures
        plan@ == visible_kernel(kernel@, runtime),
        plan.capacity == kernel.capacity,
        plan.well_formed(),
{
    let mut plan = MappingPlan::new(kernel.capacity);
    let mut i: usize = 0;
    while i < kernel.entries.len()
        invariant
            i <= kernel@.len(),
            kernel.well_formed(),
            plan@ == visible_kernel(kernel@.take(i as int), runtime),
            plan.capacity == kernel.capacity,
        decreases kernel@.len() - i,
    {
        let mapping = kernel.entries[i];
        proof {
            assert(kernel@.take(i + 1).drop_last() =~= kernel@.take(i as int));
        }
        if !matches!(mapping.owner, MappingOwner::KernelRuntime) || (mapping.physical.start()
            >= runtime.start() && mapping.physical.end() <= runtime.end()) {
            plan.entries.push(mapping);
        }
        i = i + 1;
    }
    proof {
        assert(kernel@.take(i as int) =~= kernel@);
        lemma_visible_from_kernel(kernel@, runtime, kernel.capacity as int);
    }
    plan
}

/// Why a program has no mapping plan.
#[derive(Clone, Copy, Debug, PartialEq, Eq, Structural)]
pub enum PlanRefusal {
    /// Its parts do not fill the reservation, overlap, or are too many.
    DoesNotFit,
    /// Some frame would be both writable and executable.
    WritableCode,
}

/// The plan shows the visible kernel mappings and the parts of the program.
pub open spec fn is_application_plan(
    plan: MappingPlan,
    kernel: MappingPlan,
    runtime: PageRange,
    extents: Seq<PageRange>,
    image: ImagePlan,
) -> bool {
    let visible = visible_kernel(kernel@, runtime);
    &&& plan.well_formed()
    &&& plan.capacity == kernel.capacity
    &&& visible.len() <= plan@.len()
    &&& plan@.take(visible.len() as int) == visible
    &&& shows_regions(
        plan@.skip(visible.len() as int),
        extents,
        regions_of(image),
        regions_of(image).len() as int,
    )
}

/// Whether the parts of a program fit beside the visible kernel mappings.
pub open spec fn application_fits(
    kernel: MappingPlan,
    runtime: PageRange,
    extents: Seq<PageRange>,
    image: ImagePlan,
) -> bool {
    &&& fills_reservation(image, total_pages(extents))
    &&& exists|start: MappingPlan|
        start@ == visible_kernel(kernel@, runtime) && start.capacity == kernel.capacity
            && #[trigger] regions_fit(start, extents, regions_of(image))
}

/// The mapping plan of a program: visible kernel mappings, then the parts of
/// the program behind their frames, with no frame writable and executable.
pub fn build_application_plan(
    kernel: &MappingPlan,
    runtime: PageRange,
    extents: &Vec<PageRange>,
    total: u64,
    image: &ImagePlan,
) -> (plan: Result<MappingPlan, PlanRefusal>)
    requires
        kernel.well_formed(),
        runtime.well_formed(),
        all_well_formed(extents@),
        total == total_pages(extents@),
    ensures
        match plan {
            Ok(p) => {
                &&& application_fits(*kernel, runtime, extents@, *image)
                &&& is_application_plan(p, *kernel, runtime, extents@, *image)
                &&& write_xor_execute(p@)
            },
            Err(PlanRefusal::DoesNotFit) => !application_fits(*kernel, runtime, extents@, *image),
            Err(PlanRefusal::WritableCode) => exists|p: MappingPlan|
                #[trigger] is_application_plan(p, *kernel, runtime, extents@, *image)
                    && !write_xor_execute(p@),
        },
{
    let regions = match application_regions(image, total) {
        Some(regions) => regions,
        None => return Err(PlanRefusal::DoesNotFit),
    };
    let mut plan = keep_visible_kernel(kernel, runtime);
    let ghost start = plan;
    let mapped = map_regions(&mut plan, extents, &regions);
    proof {
        lemma_fits_same(start, *kernel, runtime, extents@, *image);
    }
    if !mapped {
        return Err(PlanRefusal::DoesNotFit);
    }
    assert(is_application_plan(plan, *kernel, runtime, extents@, *image));
    if !plan.enforces_write_xor_execute() {
        return Err(PlanRefusal::WritableCode);
    }
    Ok(plan)
}

proof fn lemma_fits_same(
    start: MappingPlan,
    kernel: MappingPlan,
    runtime: PageRange,
    extents: Seq<PageRange>,
    image: ImagePlan,
)
    requires
        start@ == visible_kernel(kernel@, runtime),
        start.capacity == kernel.capacity,
        fills_reservation(image, total_pages(extents)),
    ensures
        application_fits(kernel, runtime, extents, image) == regions_fit(
            start,
            extents,
            regions_of(image),
        ),
{
    let regions = regions_of(image);
    if application_fits(kernel, runtime, extents, image) {
        let other = choose|other: MappingPlan|
            other@ == visible_kernel(kernel@, runtime) && other.capacity == kernel.capacity
                && #[trigger] regions_fit(other, extents, regions);
        assert forall|i: int, k: int|
            0 <= i < regions.len() && 0 <= k < start@.len() implies (
        #[trigger] regions[i]).clear_of(#[trigger] start@[k]) by {
            assert(regions[i].clear_of(other@[k]));
        }
    }
}

/// A launch is admitted exactly where the committed pages afterwards stay within
/// the system's limit, its own pages within that of a process, and the free
/// frames above their minimum.
pub proof fn launches_are_admitted_within_every_limit(
    system: SystemMemory,
    process_limit: Option<u64>,
    private_pages: u64,
    free_frames: u64,
)
    ensures
        ({
            let after = system.application_committed_pages + private_pages;
            let commit = launch_commit(system, process_limit, private_pages, free_frames);
            &&& commit is Some <==> {
                &&& after <= u64::MAX
                &&& (system.system_commit_limit matches Some(limit) ==> after <= limit)
                &&& (process_limit matches Some(limit) ==> private_pages <= limit)
                &&& private_pages == 0 || system.minimum_free_pages + private_pages <= free_frames
            }
            &&& (commit matches Some(pages) ==> pages == after)
        }),
{
}

/// A relocation is written where its target lies among the payloads, inside a
/// segment, and writes the base of the image plus the value.
pub proof fn relocations_add_the_image_base(
    segments: Seq<Segment>,
    image_base: u64,
    target_offset: u64,
    value_offset: u64,
)
    ensures
        (relocated(segments, image_base, target_offset, value_offset) matches Some(write) ==> {
            &&& write.1 == image_base + value_offset
            &&& exists|i: int|
                {
                    &&& 0 <= i < segments.len()
                    &&& (#[trigger] segments[i]).image_offset <= target_offset
                    &&& target_offset + 8 <= segments[i].image_offset + segments[i].memory_bytes
                    &&& write.0 - bytes_before(segments, i) == target_offset
                        - segments[i].image_offset
                    &&& write.0 + 8 <= bytes_before(segments, i + 1)
                }
        }),
{
    if let Some(write) = relocated(segments, image_base, target_offset, value_offset) {
        let site = relocation_site(segments, target_offset as int, 0)->0;
        lemma_site_holds_target(segments, target_offset as int, 0);
        assert(bytes_before(segments, site + 1) == bytes_before(segments, site)
            + segments[site].memory_bytes);
    }
}

proof fn lemma_site_holds_target(segments: Seq<Segment>, target: int, i: int)
    requires
        0 <= i <= segments.len(),
    ensures
        (relocation_site(segments, target, i) matches Some(site) ==> i <= site < segments.len()
            && segments[site].image_offset <= target && target + 8 <= segments[site].image_offset
            + segments[site].memory_bytes && forall|k: int|
            i <= k < site ==> !holds_target(segments, k, target)),
    decreases segments.len() - i,
{
    if i < segments.len() {
        lemma_site_holds_target(segments, target, i + 1);
    }
}

/// Payloads lie one behind the other in the order of their segments.
pub proof fn payloads_lie_one_behind_the_other(segments: Seq<Segment>, i: int)
    requires
        0 <= i < segments.len(),
    ensures
        bytes_before(segments, 0) == 0,
        bytes_before(segments, i + 1) - bytes_before(segments, i) == segments[i].memory_bytes,
{
}

/// A reservation holds the segments in their order, the read-only startup page,
/// the heap and the stack, each right behind the one before. Segments have their
/// own rights; heap and stack can be written.
pub proof fn reservations_are_divided_in_order(image: ImagePlan, total: u64, i: int)
    requires
        fills_reservation(image, total as int),
        bytes_before(image.segments@, image.segments@.len() as int) == 4096 * image.image_pages,
        0 <= i < image.segments@.len(),
        forall|k: int|
            0 <= k < image.segments@.len() ==> (#[trigger] image.segments@[k]).memory_bytes % 4096
                == 0,
    ensures
        ({
            let regions = regions_of(image);
            let n = image.segments@.len() as int;
            &&& regions[i].virtual_start == image.segments@[i].virtual_address
            &&& regions[i].permissions == image.segments@[i].permissions
            &&& 4096 * regions[i].page_count == image.segments@[i].memory_bytes
            &&& regions[0].start_page == 0
            &&& regions[i + 1].start_page == regions[i].start_page + regions[i].page_count
            &&& regions[n].permissions == Permissions::ReadOnly
            &&& regions[n].virtual_start == image.startup_address
            &&& regions[n].page_count == 1
            &&& image.heap_pages > 0 ==> {
                &&& regions.len() == n + 3
                &&& regions[n + 1].virtual_start == image.heap_address
                &&& regions[n + 1].page_count == image.heap_pages
                &&& regions[n + 1].permissions == Permissions::ReadWrite
                &&& regions[n + 1].start_page == regions[n].start_page + 1
            }
            &&& image.heap_pages == 0 ==> regions.len() == n + 2
            &&& regions.last().virtual_start == image.stack_bottom
            &&& regions.last().page_count == image.stack_pages
            &&& regions.last().permissions == Permissions::ReadWrite
            &&& regions.last().start_page + image.stack_pages == total
        }),
{
    let segments = image.segments@;
    let n = segments.len() as int;
    lemma_whole_pages(segments, i);
    lemma_whole_pages(segments, i + 1);
    lemma_bytes_monotone(segments, 0, i);
    lemma_bytes_monotone(segments, i, i + 1);
    lemma_bytes_monotone(segments, i + 1, n);
    assert(segments[i].memory_bytes % 4096 == 0);
}

proof fn lemma_whole_pages(segments: Seq<Segment>, n: int)
    requires
        0 <= n <= segments.len(),
        forall|k: int|
            0 <= k < segments.len() ==> (#[trigger] segments[k]).memory_bytes % 4096 == 0,
    ensures
        bytes_before(segments, n) % 4096 == 0,
    decreases n,
{
    if n > 0 {
        lemma_whole_pages(segments, n - 1);
    }
}

/// An application sees exactly the kernel's mappings that are not its runtime
/// memory, and of that memory only what lies in the shared runtime range.
pub proof fn applications_see_only_the_shared_runtime(
    kernel: Seq<PlannedMapping>,
    runtime: PageRange,
    mapping: PlannedMapping,
)
    ensures
        visible_kernel(kernel, runtime).contains(mapping) <==> kernel.contains(mapping) && (
        mapping.owner != MappingOwner::KernelRuntime || (runtime.first()
            <= mapping.physical.first() && mapping.physical.past() <= runtime.past())),
    decreases kernel.len(),
{
    if kernel.len() > 0 {
        let front = kernel.drop_last();
        let rest = visible_kernel(front, runtime);
        let all = visible_kernel(kernel, runtime);
        applications_see_only_the_shared_runtime(front, runtime, mapping);
        if front.contains(mapping) {
            let k = front.index_of(mapping);
            assert(kernel[k] == mapping);
        }
        if kernel.contains(mapping) && mapping != kernel.last() {
            let k = kernel.index_of(mapping);
            assert(front[k] == mapping);
        }
        if rest.contains(mapping) {
            let k = rest.index_of(mapping);
            assert(all[k] == mapping);
        }
        if all.contains(mapping) && mapping != kernel.last() {
            let k = all.index_of(mapping);
            assert(rest[k] == mapping);
        }
        assert(kernel[kernel.len() - 1] == kernel.last());
        if stays_visible(kernel.last(), runtime) {
            assert(all[all.len() - 1] == kernel.last());
        }
    }
}

/// Runs are joined only where the new one begins behind the last, and a
/// reservation never has more parts than it may have.
pub proof fn scattered_launches_are_refused(collection: LaunchCollection, range: PageRange)
    ensures
        collection.too_scattered(range) ==> collection.parts().len() >= 256,
        !collection.too_scattered(range) && collection.parts().len() <= 256
            ==> collection.parts_with(range).len() <= 256,
        !collection.joins() ==> collection.parts_with(range) == collection.parts().push(range),
        collection.parts().len() > 0 && collection.parts().last().past() != range.first()
            ==> collection.parts_with(range) == collection.parts().push(range),
        collection.joins() && collection.parts().len() > 0 && collection.parts().last().past()
            == range.first() ==> collection.parts_with(range).len() == collection.parts().len(),
{
}

/// An application finds its startup page, its heap and its stack at their
/// addresses, each in the frames behind the one before: the startup page to read,
/// the others to write.
pub proof fn applications_see_heap_and_stack(
    plan: MappingPlan,
    kernel: MappingPlan,
    runtime: PageRange,
    extents: Seq<PageRange>,
    image: ImagePlan,
    k: int,
)
    requires
        is_application_plan(plan, kernel, runtime, extents, image),
        application_fits(kernel, runtime, extents, image),
        all_well_formed(extents),
        total_pages(extents) <= u64::MAX,
    ensures
        ({
            let own = plan@.skip(visible_kernel(kernel@, runtime).len() as int);
            let pages = frames(extents);
            &&& user_page(
                own,
                image.startup_address as int / 4096,
                pages[image.image_pages as int],
                Permissions::ReadOnly,
            )
            &&& 0 <= k < image.heap_pages ==> user_page(
                own,
                image.heap_address as int / 4096 + k,
                pages[image.image_pages + 1 + k],
                Permissions::ReadWrite,
            )
            &&& 0 <= k < image.stack_pages ==> user_page(
                own,
                image.stack_bottom as int / 4096 + k,
                pages[image.image_pages + 1 + image.heap_pages + k],
                Permissions::ReadWrite,
            )
        }),
{
    let own = plan@.skip(visible_kernel(kernel@, runtime).len() as int);
    let regions = regions_of(image);
    let pages = frames(extents);
    let n = image.segments@.len() as int;
    let last = regions.len() - 1;
    assert(regions[n].start_page == image.image_pages);
    assert(pages[image.image_pages as int] == pages[image.image_pages as int]);
    assert(user_page(
        own,
        regions[n].first() + (image.image_pages - regions[n].start_page),
        pages[image.image_pages as int],
        regions[n].permissions,
    ));
    if 0 <= k < image.heap_pages {
        let p = image.image_pages + 1 + k;
        assert(regions[n + 1].start_page <= p < regions[n + 1].start_page
            + regions[n + 1].page_count);
        assert(user_page(
            own,
            regions[n + 1].first() + (p - regions[n + 1].start_page),
            pages[p],
            regions[n + 1].permissions,
        ));
    }
    if 0 <= k < image.stack_pages {
        let p = image.image_pages + 1 + image.heap_pages + k;
        assert(regions[last].start_page <= p < regions[last].start_page
            + regions[last].page_count);
        assert(user_page(
            own,
            regions[last].first() + (p - regions[last].start_page),
            pages[p],
            regions[last].permissions,
        ));
    }
}

/// An application's plan begins with what it sees of the kernel, unchanged.
pub proof fn applications_keep_the_visible_kernel(
    plan: MappingPlan,
    kernel: MappingPlan,
    runtime: PageRange,
    extents: Seq<PageRange>,
    image: ImagePlan,
    k: int,
)
    requires
        is_application_plan(plan, kernel, runtime, extents, image),
        0 <= k < visible_kernel(kernel@, runtime).len(),
    ensures
        plan@[k] == visible_kernel(kernel@, runtime)[k],
        plan.capacity == kernel.capacity,
{
    assert(plan@.take(visible_kernel(kernel@, runtime).len() as int)[k] == plan@[k]);
}

/// An application fits exactly where its parts fill the reservation, lie in free
/// and separate addresses, and find room beside the kernel's mappings.
pub proof fn applications_fit_beside_the_kernel(
    kernel: MappingPlan,
    runtime: PageRange,
    extents: Seq<PageRange>,
    image: ImagePlan,
    start: MappingPlan,
)
    requires
        start@ == visible_kernel(kernel@, runtime),
        start.capacity == kernel.capacity,
    ensures
        application_fits(kernel, runtime, extents, image) <==> fills_reservation(
            image,
            total_pages(extents),
        ) && regions_fit(start, extents, regions_of(image)),
        fills_reservation(image, total_pages(extents)) ==> image.image_pages + 1 + image.heap_pages
            + image.stack_pages == total_pages(extents),
{
    if application_fits(kernel, runtime, extents, image) {
        let other = choose|other: MappingPlan|
            other@ == visible_kernel(kernel@, runtime) && other.capacity == kernel.capacity
                && #[trigger] regions_fit(other, extents, regions_of(image));
        assert(other@ == start@);
    }
}

} // verus!
