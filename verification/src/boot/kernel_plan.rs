//! The kernel's address space.

use crate::boot::arena::BootMemory;
use crate::memory::pages::{PageRange, PAGE_SIZE};
use crate::memory::plan::{plan_valid, MappingOwner, MappingPlan, MemoryType, PlannedMapping};
use crate::memory::private::mapping::Permissions;
use vstd::prelude::*;

verus! {

/// What the firmware says a region is for.
#[derive(Clone, Copy, Debug, PartialEq, Eq, Structural)]
pub enum FirmwareKind {
    /// Free memory.
    Conventional,
    /// Code of firmware services that have ended.
    BootServicesCode,
    /// Data of firmware services that have ended.
    BootServicesData,
    /// Anything else.
    Other,
}

/// One region of the firmware's memory map.
#[derive(Clone, Copy, Debug, PartialEq, Eq, Structural)]
pub struct FirmwareRegion {
    /// Use.
    pub kind: FirmwareKind,
    /// First byte address.
    pub start: u64,
    /// Number of pages.
    pub pages: u64,
}

impl FirmwareRegion {
    /// Whether the kernel may use the region as memory.
    pub open spec fn is_ram(self) -> bool {
        self.kind != FirmwareKind::Other
    }

    /// Whether the kernel may use the region as memory.
    pub fn is_runtime_ram(&self) -> (yes: bool)
        ensures
            yes == self.is_ram(),
    {
        !matches!(self.kind, FirmwareKind::Other)
    }

    /// The region as a page range.
    pub open spec fn range(self) -> PageRange {
        PageRange::spanning(self.start as int / 4096, self.pages as int)
    }
}

/// Classify the regions of a final memory map: usable or reserved.
///
/// Fails where there are more than `limit` regions or one is not a page range.
pub fn classify_regions(regions: &Vec<FirmwareRegion>, limit: usize) -> (classified: Option<
    Vec<(PageRange, bool)>,
>)
    ensures
        match classified {
            Some(c) => {
                &&& c@.len() == regions@.len() <= limit
                &&& forall|i: int|
                    0 <= i < regions@.len() ==> PageRange::valid(
                        (#[trigger] regions@[i]).start as int,
                        regions@[i].pages as int,
                    ) && c@[i] == (regions@[i].range(), regions@[i].is_ram())
            },
            None => regions@.len() > limit || exists|i: int|
                0 <= i < regions@.len() && !PageRange::valid(
                    (#[trigger] regions@[i]).start as int,
                    regions@[i].pages as int,
                ),
        },
{
    let mut classified: Vec<(PageRange, bool)> = Vec::new();
    let mut i: usize = 0;
    while i < regions.len()
        invariant
            i <= regions@.len(),
            i <= limit,
            classified@.len() == i,
            forall|k: int|
                0 <= k < i ==> PageRange::valid(
                    (#[trigger] regions@[k]).start as int,
                    regions@[k].pages as int,
                ) && classified@[k] == (regions@[k].range(), regions@[k].is_ram()),
        decreases regions@.len() - i,
    {
        if classified.len() >= limit {
            return None;
        }
        let region = regions[i];
        let range = match PageRange::from_pages(region.start, region.pages) {
            Some(range) => range,
            None => {
                assert(!PageRange::valid(
                    regions@[i as int].start as int,
                    regions@[i as int].pages as int,
                ));
                return None;
            },
        };
        proof {
            PageRange::lemma_spanning(range);
        }
        classified.push((range, region.is_runtime_ram()));
        i = i + 1;
    }
    Some(classified)
}

/// A kernel mapping of a range onto itself.
pub open spec fn identity(
    range: PageRange,
    permissions: Permissions,
    memory_type: MemoryType,
    owner: MappingOwner,
) -> PlannedMapping {
    PlannedMapping {
        virtual_range: range,
        physical: range,
        permissions,
        memory_type,
        owner,
        user: false,
    }
}

/// A kernel mapping of a range onto itself.
fn identity_mapping(
    range: PageRange,
    permissions: Permissions,
    memory_type: MemoryType,
    owner: MappingOwner,
) -> (mapping: PlannedMapping)
    ensures
        mapping == identity(range, permissions, memory_type, owner),
{
    PlannedMapping {
        virtual_range: range,
        physical: range,
        permissions,
        memory_type,
        owner,
        user: false,
    }
}

/// Ordinary memory that the kernel writes.
pub open spec fn runtime(range: PageRange) -> PlannedMapping {
    identity(range, Permissions::ReadWrite, MemoryType::Normal, MappingOwner::KernelRuntime)
}

/// Device registers that the kernel writes.
pub open spec fn device(range: PageRange) -> PlannedMapping {
    identity(range, Permissions::ReadWrite, MemoryType::Device, MappingOwner::MachineDevice)
}

/// The pages that a framebuffer touches: first page and number.
pub open spec fn framebuffer_pages(base: int, bytes: int) -> (int, int) {
    let first = base / 4096;
    (first, (base + bytes + 4095) / 4096 - first)
}

/// Whether a framebuffer touches a page range.
pub open spec fn framebuffer_valid(base: int, bytes: int) -> bool {
    let (first, count) = framebuffer_pages(base, bytes);
    base + bytes + 4095 <= u64::MAX && PageRange::valid(4096 * first, count)
}

/// The page range that a framebuffer of `bytes` bytes at `base` touches.
pub fn framebuffer_device_range(base: u64, bytes: u64) -> (range: Option<PageRange>)
    ensures
        match range {
            Some(r) => framebuffer_valid(base as int, bytes as int) && r == PageRange::spanning(
                framebuffer_pages(base as int, bytes as int).0,
                framebuffer_pages(base as int, bytes as int).1,
            ) && r.well_formed(),
            None => !framebuffer_valid(base as int, bytes as int),
        },
{
    let start: u64 = base - base % PAGE_SIZE;
    let end: u64 = match base.checked_add(bytes) {
        Some(end) => end,
        None => return None,
    };
    let padded: u64 = match end.checked_add(4095) {
        Some(padded) => padded,
        None => return None,
    };
    let aligned: u64 = padded - padded % PAGE_SIZE;
    let range = PageRange::from_pages(start, (aligned - start) / PAGE_SIZE);
    proof {
        assert((aligned - start) / 4096 == (base + bytes + 4095) / 4096 - base as int / 4096);
        match range {
            Some(r) => PageRange::lemma_spanning(r),
            None => {},
        }
    }
    range
}

/// The runtime mappings of one memory range around an excluded one.
pub open spec fn runtime_around(
    range: PageRange,
    excluded: Option<PageRange>,
) -> Seq<PlannedMapping> {
    match excluded {
        Some(hole) if !range.apart(hole) => (if range.first() < hole.first() {
            seq![runtime(PageRange::spanning(range.first(), hole.first() - range.first()))]
        } else {
            Seq::empty()
        }) + (if range.past() > hole.past() {
            seq![runtime(PageRange::spanning(hole.past(), range.past() - hole.past()))]
        } else {
            Seq::empty()
        }),
        _ => seq![runtime(range)],
    }
}

/// Append the runtime mappings of one memory range around an excluded one.
fn append_runtime_excluding(
    wanted: &mut Vec<PlannedMapping>,
    range: PageRange,
    excluded: Option<PageRange>,
)
    ensures
        final(wanted)@ == old(wanted)@ + runtime_around(range, excluded),
{
    let ghost before = wanted@;
    let range_end: u64 = range.end();
    let hole = match excluded {
        Some(hole) if range_end > hole.start() && range.start() < hole.end() => hole,
        _ => {
            push_runtime(wanted, range);
            assert(wanted@ =~= before + runtime_around(range, excluded));
            return;
        },
    };
    let hole_end: u64 = hole.end();
    if range.first_page() < hole.first_page() {
        let front = range.part(0, hole.first_page() - range.first_page());
        proof {
            PageRange::lemma_spanning(front);
        }
        push_runtime(wanted, front);
    }
    if range_end > hole_end {
        let count: u64 = (range_end - hole_end) / PAGE_SIZE;
        let back = range.part(range.page_count() - count, count);
        proof {
            PageRange::lemma_spanning(back);
        }
        push_runtime(wanted, back);
    }
    assert(wanted@ =~= before + runtime_around(range, excluded));
}

fn push_runtime(wanted: &mut Vec<PlannedMapping>, range: PageRange)
    ensures
        final(wanted)@ == old(wanted)@.push(runtime(range)),
{
    wanted.push(
        identity_mapping(
            range,
            Permissions::ReadWrite,
            MemoryType::Normal,
            MappingOwner::KernelRuntime,
        ),
    );
}

fn push_device(wanted: &mut Vec<PlannedMapping>, range: PageRange)
    ensures
        final(wanted)@ == old(wanted)@.push(device(range)),
{
    wanted.push(
        identity_mapping(
            range,
            Permissions::ReadWrite,
            MemoryType::Device,
            MappingOwner::MachineDevice,
        ),
    );
}

/// The runtime mappings of the first `n` firmware regions.
pub open spec fn memory_mappings(
    regions: Seq<FirmwareRegion>,
    excluded: Option<PageRange>,
    n: int,
) -> Seq<PlannedMapping>
    decreases n,
{
    if n <= 0 {
        Seq::empty()
    } else if regions[n - 1].is_ram() {
        memory_mappings(regions, excluded, n - 1) + runtime_around(
            regions[n - 1].range(),
            excluded,
        )
    } else {
        memory_mappings(regions, excluded, n - 1)
    }
}

/// Whether every region of usable memory is a page range.
pub open spec fn memory_valid(regions: Seq<FirmwareRegion>) -> bool {
    forall|i: int|
        0 <= i < regions.len() && (#[trigger] regions[i]).is_ram() ==> PageRange::valid(
            regions[i].start as int,
            regions[i].pages as int,
        )
}

/// The mappings of the parts of the boot arena that are used.
pub open spec fn boot_mappings(boot: BootMemory) -> Seq<PlannedMapping> {
    seq![
        runtime(boot.heap),
        runtime(boot.page_tables),
        runtime(boot.stack),
        runtime(boot.exception_stack),
        runtime(boot.task_stack.stack),
        runtime(boot.server_stack.stack),
        runtime(boot.shell_stack.stack),
    ]
}

/// The mappings of the kernel image.
pub open spec fn image_mappings(image: Seq<(PageRange, Permissions)>) -> Seq<PlannedMapping> {
    Seq::new(
        image.len(),
        |i: int| identity(image[i].0, image[i].1, MemoryType::Normal, MappingOwner::KernelImage),
    )
}

/// The mappings of devices.
pub open spec fn device_mappings(devices: Seq<PageRange>) -> Seq<PlannedMapping> {
    Seq::new(devices.len(), |i: int| device(devices[i]))
}

/// What the kernel's address space is made from.
#[derive(Debug)]
pub struct KernelLayout {
    /// Final memory map of the firmware.
    pub regions: Vec<FirmwareRegion>,
    /// Parts of the boot arena.
    pub boot: BootMemory,
    /// Parts of the kernel image with their rights.
    pub image: Vec<(PageRange, Permissions)>,
    /// Device ranges: input devices, then block devices.
    pub devices: Vec<PageRange>,
    /// Framebuffer, if there is one: byte address and length.
    pub framebuffer: Option<(u64, u64)>,
}

impl KernelLayout {
    /// The framebuffer's page range.
    pub open spec fn screen(self) -> Option<PageRange> {
        match self.framebuffer {
            Some((base, bytes)) => Some(
                PageRange::spanning(
                    framebuffer_pages(base as int, bytes as int).0,
                    framebuffer_pages(base as int, bytes as int).1,
                ),
            ),
            None => None,
        }
    }

    /// Whether framebuffer and memory map can be described in pages.
    pub open spec fn describable(self) -> bool {
        &&& self.framebuffer matches Some((base, bytes)) ==> framebuffer_valid(
            base as int,
            bytes as int,
        )
        &&& memory_valid(self.regions@)
    }

    /// Every mapping of the kernel's address space, in order.
    pub open spec fn mappings(self) -> Seq<PlannedMapping> {
        memory_mappings(self.regions@, self.screen(), self.regions@.len() as int)
            + boot_mappings(self.boot) + image_mappings(self.image@) + device_mappings(
            self.devices@,
        ) + (match self.screen() {
            Some(screen) => seq![device(screen)],
            None => Seq::empty(),
        })
    }
}

/// Plan the kernel's address space with at most `capacity` mappings.
///
/// Fails where a region is not a page range, mappings overlap or are too many.
pub fn build_mapping_plan(layout: &KernelLayout, capacity: usize) -> (plan: Option<MappingPlan>)
    ensures
        match plan {
            Some(p) => layout.describable() && p@ == layout.mappings() && p.capacity == capacity
                && p.well_formed(),
            None => !layout.describable() || !plan_valid(layout.mappings(), capacity as int),
        },
{
    let screen = match layout.framebuffer {
        Some((base, bytes)) => match framebuffer_device_range(base, bytes) {
            Some(range) => Some(range),
            None => return None,
        },
        None => None,
    };
    let mut wanted: Vec<PlannedMapping> = Vec::new();
    let mut i: usize = 0;
    while i < layout.regions.len()
        invariant
            i <= layout.regions@.len(),
            screen == layout.screen(),
            wanted@ == memory_mappings(layout.regions@, screen, i as int),
            forall|k: int|
                0 <= k < i && (#[trigger] layout.regions@[k]).is_ram() ==> PageRange::valid(
                    layout.regions@[k].start as int,
                    layout.regions@[k].pages as int,
                ),
        decreases layout.regions@.len() - i,
    {
        let region = layout.regions[i];
        if region.is_runtime_ram() {
            let range = match PageRange::from_pages(region.start, region.pages) {
                Some(range) => range,
                None => {
                    assert(layout.regions@[i as int].is_ram());
                    return None;
                },
            };
            proof {
                PageRange::lemma_spanning(range);
            }
            append_runtime_excluding(&mut wanted, range, screen);
        }
        i = i + 1;
    }
    let ghost memory = wanted@;
    push_runtime(&mut wanted, layout.boot.heap);
    push_runtime(&mut wanted, layout.boot.page_tables);
    push_runtime(&mut wanted, layout.boot.stack);
    push_runtime(&mut wanted, layout.boot.exception_stack);
    push_runtime(&mut wanted, layout.boot.task_stack.stack);
    push_runtime(&mut wanted, layout.boot.server_stack.stack);
    push_runtime(&mut wanted, layout.boot.shell_stack.stack);
    assert(wanted@ =~= memory + boot_mappings(layout.boot));
    let ghost with_boot = wanted@;
    let mut j: usize = 0;
    while j < layout.image.len()
        invariant
            j <= layout.image@.len(),
            wanted@ == with_boot + image_mappings(layout.image@).take(j as int),
        decreases layout.image@.len() - j,
    {
        let (range, permissions) = layout.image[j];
        wanted.push(
            identity_mapping(range, permissions, MemoryType::Normal, MappingOwner::KernelImage),
        );
        j = j + 1;
        assert(wanted@ =~= with_boot + image_mappings(layout.image@).take(j as int));
    }
    assert(image_mappings(layout.image@).take(j as int) =~= image_mappings(layout.image@));
    let ghost with_image = wanted@;
    let mut k: usize = 0;
    while k < layout.devices.len()
        invariant
            k <= layout.devices@.len(),
            wanted@ == with_image + device_mappings(layout.devices@).take(k as int),
        decreases layout.devices@.len() - k,
    {
        push_device(&mut wanted, layout.devices[k]);
        k = k + 1;
        assert(wanted@ =~= with_image + device_mappings(layout.devices@).take(k as int));
    }
    assert(device_mappings(layout.devices@).take(k as int) =~= device_mappings(layout.devices@));
    match screen {
        Some(range) => push_device(&mut wanted, range),
        None => {},
    }
    proof {
        assert(wanted@ =~= layout.mappings());
        assert forall|i: int| 0 <= i < wanted@.len() implies (
        #[trigger] wanted@[i]).virtual_range == wanted@[i].physical by {
            kernel_space_is_identity(*layout, i);
        }
    }
    insert_all(&wanted, capacity)
}

/// Insert identity mappings one by one.
fn insert_all(wanted: &Vec<PlannedMapping>, capacity: usize) -> (plan: Option<MappingPlan>)
    requires
        forall|i: int|
            0 <= i < wanted@.len() ==> (#[trigger] wanted@[i]).virtual_range
                == wanted@[i].physical,
    ensures
        match plan {
            Some(p) => p@ == wanted@ && p.capacity == capacity && p.well_formed(),
            None => !plan_valid(wanted@, capacity as int),
        },
{
    let mut plan = MappingPlan::new(capacity);
    let mut i: usize = 0;
    while i < wanted.len()
        invariant
            i <= wanted@.len(),
            forall|i: int|
                0 <= i < wanted@.len() ==> (#[trigger] wanted@[i]).virtual_range
                    == wanted@[i].physical,
            plan.well_formed(),
            plan.capacity == capacity,
            plan@ == wanted@.take(i as int),
        decreases wanted@.len() - i,
    {
        let mapping = wanted[i];
        let _ = mapping.virtual_range.page_count();
        let _ = mapping.physical.page_count();
        assert(mapping == wanted@[i as int]);
        if !plan.insert(mapping) {
            proof {
                if plan_valid(wanted@, capacity as int) {
                    assert forall|k: int| 0 <= k < plan@.len() implies (
                    #[trigger] plan@[k]).virtual_range.apart(mapping.virtual_range) by {
                        assert(plan@[k] == wanted@[k]);
                    }
                }
            }
            return None;
        }
        i = i + 1;
        assert(plan@ =~= wanted@.take(i as int));
    }
    assert(wanted@.take(i as int) =~= wanted@);
    Some(plan)
}

/// Whether a mapping shows each of its pages at the frame of the same number.
pub open spec fn shows_itself(mapping: PlannedMapping) -> bool {
    mapping.virtual_range == mapping.physical && !mapping.user
}

proof fn lemma_memory_shows_itself(
    regions: Seq<FirmwareRegion>,
    excluded: Option<PageRange>,
    n: int,
)
    ensures
        forall|i: int|
            0 <= i < memory_mappings(regions, excluded, n).len() ==> shows_itself(
                #[trigger] memory_mappings(regions, excluded, n)[i],
            ),
    decreases n,
{
    if n > 0 {
        lemma_memory_shows_itself(regions, excluded, n - 1);
        let rest = memory_mappings(regions, excluded, n - 1);
        let more = runtime_around(regions[n - 1].range(), excluded);
        let all = memory_mappings(regions, excluded, n);
        assert forall|i: int| 0 <= i < all.len() implies shows_itself(#[trigger] all[i]) by {
            if i < rest.len() {
                assert(all[i] == rest[i]);
            } else {
                assert(all[i] == more[i - rest.len()]);
            }
        }
    }
}

/// The kernel sees every page at the frame of the same number, and user code
/// sees none of it.
pub proof fn kernel_space_is_identity(layout: KernelLayout, i: int)
    requires
        0 <= i < layout.mappings().len(),
    ensures
        shows_itself(layout.mappings()[i]),
{
    let n = layout.regions@.len() as int;
    lemma_memory_shows_itself(layout.regions@, layout.screen(), n);
    let memory = memory_mappings(layout.regions@, layout.screen(), n);
    let boot = boot_mappings(layout.boot);
    let image = image_mappings(layout.image@);
    let devices = device_mappings(layout.devices@);
    let a = memory.len() as int;
    let b = a + boot.len();
    let c = b + image.len();
    let d = c + devices.len();
    if i < a {
        assert(layout.mappings()[i] == memory[i]);
    } else if i < b {
        assert(layout.mappings()[i] == boot[i - a]);
    } else if i < c {
        assert(layout.mappings()[i] == image[i - b]);
    } else if i < d {
        assert(layout.mappings()[i] == devices[i - c]);
    }
}

/// Ordinary memory is never mapped over the framebuffer.
pub proof fn memory_keeps_off_the_framebuffer(
    regions: Seq<FirmwareRegion>,
    screen: PageRange,
    n: int,
    i: int,
)
    requires
        memory_valid(regions),
        screen.well_formed(),
        0 <= n <= regions.len(),
        0 <= i < memory_mappings(regions, Some(screen), n).len(),
    ensures
        memory_mappings(regions, Some(screen), n)[i].physical.apart(screen),
    decreases n,
{
    let rest = memory_mappings(regions, Some(screen), n - 1);
    if n > 0 {
        if i < rest.len() {
            memory_keeps_off_the_framebuffer(regions, screen, n - 1, i);
        } else {
            let range = regions[n - 1].range();
            assert(regions[n - 1].is_ram());
            PageRange::lemma_spanning_parts(
                regions[n - 1].start as int / 4096,
                regions[n - 1].pages as int,
            );
            if !range.apart(screen) {
                if range.first() < screen.first() {
                    PageRange::lemma_spanning_parts(
                        range.first(),
                        screen.first() - range.first(),
                    );
                }
                if range.past() > screen.past() {
                    PageRange::lemma_spanning_parts(screen.past(), range.past() - screen.past());
                }
            }
        }
    }
}

/// Every part of the kernel is mapped to itself as what it is: the image with the
/// rights of each part, the parts of the boot arena but for the guard pages as
/// normal memory, and devices and the screen as device memory. Nothing of it is
/// for users.
pub proof fn kernel_parts_are_mapped_as_what_they_are(layout: KernelLayout, i: int)
    ensures
        0 <= i < layout.image@.len() ==> layout.mappings().contains(
            PlannedMapping {
                virtual_range: layout.image@[i].0,
                physical: layout.image@[i].0,
                permissions: layout.image@[i].1,
                memory_type: MemoryType::Normal,
                owner: MappingOwner::KernelImage,
                user: false,
            },
        ),
        0 <= i < layout.devices@.len() ==> layout.mappings().contains(
            device_memory(layout.devices@[i]),
        ),
        (layout.screen() matches Some(screen) ==> layout.mappings().contains(
            device_memory(screen),
        )),
        layout.mappings().contains(kernel_memory(layout.boot.heap)),
        layout.mappings().contains(kernel_memory(layout.boot.page_tables)),
        layout.mappings().contains(kernel_memory(layout.boot.stack)),
        layout.mappings().contains(kernel_memory(layout.boot.exception_stack)),
        layout.mappings().contains(kernel_memory(layout.boot.task_stack.stack)),
        layout.mappings().contains(kernel_memory(layout.boot.server_stack.stack)),
        layout.mappings().contains(kernel_memory(layout.boot.shell_stack.stack)),
{
    let all = layout.mappings();
    let memory = memory_mappings(layout.regions@, layout.screen(), layout.regions@.len() as int);
    let n = memory.len() as int;
    let images = layout.image@.len() as int;
    let devices = layout.devices@.len() as int;
    assert(all[n] == kernel_memory(layout.boot.heap));
    assert(all[n + 1] == kernel_memory(layout.boot.page_tables));
    assert(all[n + 2] == kernel_memory(layout.boot.stack));
    assert(all[n + 3] == kernel_memory(layout.boot.exception_stack));
    assert(all[n + 4] == kernel_memory(layout.boot.task_stack.stack));
    assert(all[n + 5] == kernel_memory(layout.boot.server_stack.stack));
    assert(all[n + 6] == kernel_memory(layout.boot.shell_stack.stack));
    if 0 <= i < images {
        assert(all[n + 7 + i] == image_mappings(layout.image@)[i]);
    }
    if 0 <= i < devices {
        assert(all[n + 7 + images + i] == device_mappings(layout.devices@)[i]);
    }
    if layout.screen() is Some {
        assert(all[n + 7 + images + devices] == device(layout.screen()->0));
    }
}

/// Normal memory of the kernel at its own address.
pub open spec fn kernel_memory(range: PageRange) -> PlannedMapping {
    PlannedMapping {
        virtual_range: range,
        physical: range,
        permissions: Permissions::ReadWrite,
        memory_type: MemoryType::Normal,
        owner: MappingOwner::KernelRuntime,
        user: false,
    }
}

/// Device memory at its own address.
pub open spec fn device_memory(range: PageRange) -> PlannedMapping {
    PlannedMapping {
        virtual_range: range,
        physical: range,
        permissions: Permissions::ReadWrite,
        memory_type: MemoryType::Device,
        owner: MappingOwner::MachineDevice,
        user: false,
    }
}

/// A mapping shows this page at its own address, as kernel memory.
pub open spec fn shows_ram(mappings: Seq<PlannedMapping>, page: int) -> bool {
    exists|m: int|
        0 <= m < mappings.len() && (#[trigger] mappings[m]).virtual_range.covers(page)
            && mappings[m].memory_type == MemoryType::Normal && mappings[m].permissions
            == Permissions::ReadWrite && mappings[m].owner == MappingOwner::KernelRuntime
            && mappings[m].physical == mappings[m].virtual_range
}

/// Every page that the firmware reports as memory is mapped, apart from those of
/// the screen.
pub proof fn all_memory_is_mapped(
    regions: Seq<FirmwareRegion>,
    excluded: Option<PageRange>,
    n: int,
    i: int,
    page: int,
)
    requires
        0 <= i < n <= regions.len(),
        memory_valid(regions),
        regions[i].kind != FirmwareKind::Other,
        regions[i].start as int / 4096 <= page < regions[i].start as int / 4096 + regions[i].pages,
        (excluded matches Some(hole) ==> !hole.covers(page)),
    ensures
        shows_ram(memory_mappings(regions, excluded, n), page),
    decreases n,
{
    let front = memory_mappings(regions, excluded, n - 1);
    let all = memory_mappings(regions, excluded, n);
    if i < n - 1 {
        all_memory_is_mapped(regions, excluded, n - 1, i, page);
        let m = choose|m: int|
            0 <= m < front.len() && (#[trigger] front[m]).virtual_range.covers(page)
                && front[m].memory_type == MemoryType::Normal && front[m].permissions
                == Permissions::ReadWrite && front[m].owner == MappingOwner::KernelRuntime
                && front[m].physical == front[m].virtual_range;
        assert(all[m] == front[m]);
    } else {
        let range = regions[i].range();
        let part = runtime_around(range, excluded);
        assert(regions[i].is_ram());
        PageRange::lemma_spanning_parts(regions[i].start as int / 4096, regions[i].pages as int);
        if excluded is Some && !range.apart(excluded->0) {
            let hole = excluded->0;
            if range.first() < hole.first() {
                PageRange::lemma_spanning_parts(range.first(), hole.first() - range.first());
            }
            if range.past() > hole.past() {
                PageRange::lemma_spanning_parts(hole.past(), range.past() - hole.past());
            }
            let k: int = if page < hole.first() {
                0
            } else {
                part.len() - 1
            };
            assert(all[front.len() + k] == part[k]);
        } else {
            assert(all[front.len() as int] == part[0]);
        }
    }
}

/// The pages of a framebuffer hold every byte of it, and no page more than they
/// need; it can be described exactly where its end can be rounded up to a page.
pub proof fn framebuffers_are_covered(base: int, bytes: int)
    requires
        base >= 0,
        bytes > 0,
    ensures
        ({
            let (first, count) = framebuffer_pages(base, bytes);
            &&& 4096 * first <= base < 4096 * (first + 1)
            &&& 4096 * (first + count - 1) < base + bytes <= 4096 * (first + count)
        }),
        framebuffer_valid(base, bytes) <==> base + bytes + 4095 <= u64::MAX,
{
}

/// Memory that the kernel may use is what was free or belonged to services that
/// have ended, and nothing else.
pub proof fn ended_services_leave_their_memory(region: FirmwareRegion)
    ensures
        region.is_ram() <==> region.kind == FirmwareKind::Conventional || region.kind
            == FirmwareKind::BootServicesCode || region.kind == FirmwareKind::BootServicesData,
{
}

} // verus!
