//! The boot arena and its parts.

use crate::memory::pages::PageRange;
use vstd::prelude::*;

verus! {

/// Pages of the kernel heap.
pub const HEAP_PAGES: u64 = 1536;

/// Pages of the kernel page tables.
pub const PAGE_TABLE_PAGES: u64 = 512;

/// Pages of the boot stack.
pub const OWNED_STACK_PAGES: u64 = 32;

/// Pages of the exception stack.
pub const EXCEPTION_STACK_PAGES: u64 = 4;

/// Pages of the first task stack.
pub const TASK_STACK_PAGES: u64 = 16;

/// Pages of the server task stack.
pub const SERVER_TASK_STACK_PAGES: u64 = 32;

/// Pages of the shell task stack.
pub const SHELL_TASK_STACK_PAGES: u64 = 32;

/// Pages of a stack guard.
pub const GUARD_PAGES: u64 = 1;

/// Pages of the whole arena.
pub const BOOT_ARENA_PAGES: u64 = 2170;

/// A task stack between two guards.
#[derive(Clone, Copy, Debug, PartialEq, Eq, Structural)]
pub struct TaskStackLayout {
    /// Unmapped pages below.
    pub lower_guard: PageRange,
    /// Stack pages.
    pub stack: PageRange,
    /// Unmapped pages above.
    pub upper_guard: PageRange,
}

impl TaskStackLayout {
    /// Whether the stack has `pages` pages and touches one guard page on each
    /// side.
    pub open spec fn guards(self, pages: int) -> bool {
        &&& self.lower_guard.past() == self.stack.first()
        &&& self.stack.past() == self.upper_guard.first()
        &&& self.lower_guard.pages() == GUARD_PAGES
        &&& self.stack.pages() == pages
        &&& self.upper_guard.pages() == GUARD_PAGES
    }

    /// Whether the stack has `pages` pages and touches one guard page on each
    /// side.
    pub fn is_guarded(&self, pages: u64) -> (yes: bool)
        ensures
            yes == self.guards(pages as int),
    {
        self.lower_guard.end() == self.stack.start() && self.stack.end()
            == self.upper_guard.start() && self.lower_guard.page_count() == GUARD_PAGES
            && self.stack.page_count() == pages && self.upper_guard.page_count() == GUARD_PAGES
    }
}

/// The parts of the boot arena.
#[derive(Clone, Copy, Debug, PartialEq, Eq, Structural)]
pub struct BootMemory {
    /// The whole arena.
    pub arena: PageRange,
    /// Kernel heap.
    pub heap: PageRange,
    /// Kernel page tables.
    pub page_tables: PageRange,
    /// Boot stack.
    pub stack: PageRange,
    /// Exception stack.
    pub exception_stack: PageRange,
    /// First task stack.
    pub task_stack: TaskStackLayout,
    /// Server task stack.
    pub server_stack: TaskStackLayout,
    /// Shell task stack.
    pub shell_stack: TaskStackLayout,
}

impl BootMemory {
    /// The parts in order of address.
    pub open spec fn parts(self) -> Seq<PageRange> {
        seq![
            self.heap,
            self.page_tables,
            self.stack,
            self.exception_stack,
            self.task_stack.lower_guard,
            self.task_stack.stack,
            self.task_stack.upper_guard,
            self.server_stack.lower_guard,
            self.server_stack.stack,
            self.server_stack.upper_guard,
            self.shell_stack.lower_guard,
            self.shell_stack.stack,
            self.shell_stack.upper_guard,
        ]
    }

    /// Whether the parts have their sizes and fill the arena without a gap.
    pub open spec fn well_formed(self) -> bool {
        &&& self.arena.pages() == BOOT_ARENA_PAGES
        &&& self.heap.first() == self.arena.first()
        &&& forall|i: int|
            0 <= i < 12 ==> (#[trigger] self.parts()[i]).past() == self.parts()[i + 1].first()
        &&& self.shell_stack.upper_guard.past() == self.arena.past()
        &&& self.heap.pages() == HEAP_PAGES
        &&& self.page_tables.pages() == PAGE_TABLE_PAGES
        &&& self.stack.pages() == OWNED_STACK_PAGES
        &&& self.exception_stack.pages() == EXCEPTION_STACK_PAGES
        &&& self.task_stack.guards(TASK_STACK_PAGES as int)
        &&& self.server_stack.guards(SERVER_TASK_STACK_PAGES as int)
        &&& self.shell_stack.guards(SHELL_TASK_STACK_PAGES as int)
    }

    /// Cut an arena that starts at byte address `start` into its parts.
    pub fn carve(start: u64) -> (memory: Option<Self>)
        ensures
            match memory {
                Some(m) => PageRange::valid(start as int, BOOT_ARENA_PAGES as int)
                    && m.well_formed() && 4096 * m.arena.first() == start,
                None => !PageRange::valid(start as int, BOOT_ARENA_PAGES as int),
            },
    {
        let arena = match PageRange::from_pages(start, BOOT_ARENA_PAGES) {
            Some(arena) => arena,
            None => return None,
        };
        let heap = arena.part(0, HEAP_PAGES);
        let page_tables = arena.part(1536, PAGE_TABLE_PAGES);
        let stack = arena.part(2048, OWNED_STACK_PAGES);
        let exception_stack = arena.part(2080, EXCEPTION_STACK_PAGES);
        let memory = BootMemory {
            arena,
            heap,
            page_tables,
            stack,
            exception_stack,
            task_stack: carve_stack(arena, 2084, TASK_STACK_PAGES),
            server_stack: carve_stack(arena, 2102, SERVER_TASK_STACK_PAGES),
            shell_stack: carve_stack(arena, 2136, SHELL_TASK_STACK_PAGES),
        };
        proof {
            assert forall|i: int| 0 <= i < 12 implies (#[trigger] memory.parts()[i]).past()
                == memory.parts()[i + 1].first() by {
                if i == 0 || i == 1 || i == 2 || i == 3 || i == 4 || i == 5 {
                } else if i == 6 || i == 7 || i == 8 || i == 9 || i == 10 || i == 11 {
                }
            }
        }
        Some(memory)
    }
}

/// A guarded stack of `pages` pages, `skip` pages into the arena.
fn carve_stack(arena: PageRange, skip: u64, pages: u64) -> (layout: TaskStackLayout)
    requires
        0 < pages <= 64,
        skip <= 4096,
        skip + pages + 2 <= arena.pages(),
    ensures
        layout.guards(pages as int),
        layout.lower_guard.first() == arena.first() + skip,
        layout.upper_guard.past() == arena.first() + skip + pages + 2,
{
    TaskStackLayout {
        lower_guard: arena.part(skip, GUARD_PAGES),
        stack: arena.part(skip + 1, pages),
        upper_guard: arena.part(skip + 1 + pages, GUARD_PAGES),
    }
}

proof fn lemma_parts_ascend(memory: BootMemory, i: int, j: int)
    requires
        memory.well_formed(),
        forall|k: int| 0 <= k < 13 ==> (#[trigger] memory.parts()[k]).well_formed(),
        0 <= i < j < 13,
    ensures
        memory.parts()[i].past() <= memory.parts()[j].first(),
    decreases j - i,
{
    assert(memory.parts()[i].past() == memory.parts()[i + 1].first());
    if i + 1 < j {
        lemma_parts_ascend(memory, i + 1, j);
        assert(memory.parts()[i + 1].well_formed());
    }
}

/// No two parts of a boot arena share a page, and every part lies inside the
/// arena.
pub proof fn boot_parts_are_disjoint(memory: BootMemory, i: int, j: int)
    requires
        memory.well_formed(),
        forall|k: int| 0 <= k < 13 ==> (#[trigger] memory.parts()[k]).well_formed(),
        0 <= i < j < 13,
    ensures
        memory.parts()[i].apart(memory.parts()[j]),
        memory.arena.includes(memory.parts()[i]),
        memory.arena.includes(memory.parts()[j]),
{
    lemma_parts_ascend(memory, i, j);
    assert(memory.parts()[i].well_formed() && memory.parts()[j].well_formed());
    if i > 0 {
        lemma_parts_ascend(memory, 0, i);
    }
    if j < 12 {
        lemma_parts_ascend(memory, j, 12);
    }
    assert(memory.parts()[0].well_formed() && memory.parts()[12].well_formed());
}

/// The boot arena holds these parts and nothing else, in this order, each task
/// stack between two guard pages of its own.
pub proof fn the_boot_arena_is_divided(boot: BootMemory)
    requires
        boot.well_formed(),
    ensures
        boot.arena.pages() == 2170,
        boot.heap.first() == boot.arena.first(),
        boot.heap.pages() == 1536,
        boot.page_tables.first() == boot.arena.first() + 1536,
        boot.page_tables.pages() == 512,
        boot.stack.first() == boot.arena.first() + 2048,
        boot.stack.pages() == 32,
        boot.exception_stack.first() == boot.arena.first() + 2080,
        boot.exception_stack.pages() == 4,
        boot.task_stack.stack.first() == boot.arena.first() + 2085,
        boot.task_stack.stack.pages() == 16,
        boot.server_stack.stack.first() == boot.arena.first() + 2103,
        boot.server_stack.stack.pages() == 32,
        boot.shell_stack.stack.first() == boot.arena.first() + 2137,
        boot.shell_stack.stack.pages() == 32,
        boot.shell_stack.upper_guard.past() == boot.arena.past(),
{
    let parts = boot.parts();
    assert(parts[0].past() == parts[1].first());
    assert(parts[1].past() == parts[2].first());
    assert(parts[2].past() == parts[3].first());
    assert(parts[3].past() == parts[4].first());
    assert(parts[4].past() == parts[5].first());
    assert(parts[5].past() == parts[6].first());
    assert(parts[6].past() == parts[7].first());
    assert(parts[7].past() == parts[8].first());
    assert(parts[8].past() == parts[9].first());
    assert(parts[9].past() == parts[10].first());
    assert(parts[10].past() == parts[11].first());
    assert(parts[11].past() == parts[12].first());
}

/// An arena is divided well exactly where each part begins behind the one before,
/// with these sizes, from the first page of the arena to its last.
pub proof fn every_page_of_the_arena_has_its_part(boot: BootMemory)
    ensures
        boot.well_formed() <==> {
            let first = boot.arena.first();
            &&& boot.arena.pages() == 2170
            &&& boot.heap.first() == first && boot.heap.pages() == 1536
            &&& boot.page_tables.first() == first + 1536 && boot.page_tables.pages() == 512
            &&& boot.stack.first() == first + 2048 && boot.stack.pages() == 32
            &&& boot.exception_stack.first() == first + 2080 && boot.exception_stack.pages() == 4
            &&& boot.task_stack.lower_guard.first() == first + 2084
            &&& boot.task_stack.lower_guard.pages() == 1
            &&& boot.task_stack.stack.first() == first + 2085 && boot.task_stack.stack.pages() == 16
            &&& boot.task_stack.upper_guard.first() == first + 2101
            &&& boot.task_stack.upper_guard.pages() == 1
            &&& boot.server_stack.lower_guard.first() == first + 2102
            &&& boot.server_stack.lower_guard.pages() == 1
            &&& boot.server_stack.stack.first() == first + 2103 && boot.server_stack.stack.pages()
                == 32
            &&& boot.server_stack.upper_guard.first() == first + 2135
            &&& boot.server_stack.upper_guard.pages() == 1
            &&& boot.shell_stack.lower_guard.first() == first + 2136
            &&& boot.shell_stack.lower_guard.pages() == 1
            &&& boot.shell_stack.stack.first() == first + 2137 && boot.shell_stack.stack.pages()
                == 32
            &&& boot.shell_stack.upper_guard.first() == first + 2169
            &&& boot.shell_stack.upper_guard.pages() == 1
        },
{
    let parts = boot.parts();
    if boot.well_formed() {
        the_boot_arena_is_divided(boot);
        assert(parts[3].past() == parts[4].first());
        assert(parts[6].past() == parts[7].first());
        assert(parts[9].past() == parts[10].first());
    }
}

} // verus!
