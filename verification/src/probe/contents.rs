//! Memory of an admitted thread: its descriptor and what it must hold.

use crate::memory::isolated::{Architecture, USER_CODE_BASE, USER_DATA_BASE};
use crate::memory::native::prepare::StartupDescriptor;
use crate::memory::native::{ThreadKey, ThreadWindow};
use vstd::prelude::*;

verus! {

/// First word of thread-local storage.
pub const SEED: u64 = 0x1122_3344_5566_7788;

/// First word of the process page.
pub const HEADER: u64 = 0x1234_5678_9abc_def0;

/// The descriptor of a probed thread: a worker starts at the code with an
/// argument, the initial thread without.
pub open spec fn probe_descriptor(worker: bool, thread: ThreadKey, window: ThreadWindow) -> StartupDescriptor {
    StartupDescriptor {
        thread,
        process_startup: USER_DATA_BASE,
        stack_bottom: (window.stack.first() * 4096) as u64,
        stack_top: (window.stack.past() * 4096) as u64,
        tls_base: (window.tls.first() * 4096) as u64,
        tls_bytes: 4096,
        thread_pointer: window.thread_pointer,
        ipc_tx: (window.ipc.first() * 4096) as u64,
        entry: if worker {
            USER_CODE_BASE
        } else {
            0
        },
        argument: if worker {
            0x55
        } else {
            0
        },
        initial: !worker,
        address: (window.startup.first() * 4096) as u64,
    }
}

/// Describe a probed thread.
pub fn describe_probe(worker: bool, thread: ThreadKey, window: &ThreadWindow) -> (descriptor:
    StartupDescriptor)
    requires
        window.stack.well_formed(),
        window.tls.well_formed(),
        window.ipc.well_formed(),
        window.startup.well_formed(),
    ensures
        descriptor == probe_descriptor(worker, thread, *window),
{
    StartupDescriptor {
        thread,
        process_startup: USER_DATA_BASE,
        stack_bottom: window.stack.start(),
        stack_top: window.stack.end(),
        tls_base: window.tls.start(),
        tls_bytes: 4096,
        thread_pointer: window.thread_pointer,
        ipc_tx: window.ipc.start(),
        entry: if worker {
            USER_CODE_BASE
        } else {
            0
        },
        argument: if worker {
            0x55
        } else {
            0
        },
        initial: !worker,
        address: window.startup.start(),
    }
}

/// Entry address of a probed thread; workers enter `worker_offset` bytes into
/// the program.
pub fn probe_entry(worker: bool, worker_offset: u64) -> (entry: u64)
    requires
        worker_offset <= 0x1000,
    ensures
        entry == USER_CODE_BASE + if worker {
            worker_offset
        } else {
            0
        },
{
    if worker {
        USER_CODE_BASE + worker_offset
    } else {
        USER_CODE_BASE
    }
}

/// Where a thread-local template and the thread pointer lie in the page.
#[derive(Clone, Copy, Debug, PartialEq, Eq, Structural)]
pub struct TlsLayout {
    /// Offset of the template.
    pub template: u64,
    /// Offset to which the thread pointer points.
    pub pointer: u64,
}

/// What a word of user memory must be.
#[derive(Clone, Copy, Debug, PartialEq, Eq, Structural)]
pub struct WordCheck {
    /// Address.
    pub address: u64,
    /// The word, or nothing where the address must not be readable.
    pub expected: Option<u64>,
}

/// What a probed thread's memory looks like.
#[derive(Clone, Copy, Debug, PartialEq, Eq, Structural)]
pub struct ThreadMemory {
    /// Its descriptor.
    pub descriptor: StartupDescriptor,
    /// Where its window starts.
    pub window_start: u64,
    /// Where its window ends.
    pub window_end: u64,
    /// Layout of thread-local storage.
    pub tls: TlsLayout,
    /// Processor family.
    pub architecture: Architecture,
}

/// How much a cycle adds to the first thread-local word.
pub open spec fn increment(initial: bool) -> int {
    if initial {
        0x11
    } else {
        0x22
    }
}

impl ThreadMemory {
    /// Addresses that are looked at can be formed.
    pub open spec fn well_formed(self) -> bool {
        &&& self.descriptor.tls_base <= u64::MAX - 8192
        &&& self.descriptor.address <= u64::MAX - 8192
        &&& self.descriptor.stack_bottom <= u64::MAX - 8192
        &&& self.tls.template <= 4088
        &&& self.window_end >= 4096
    }

    /// What counts: the first word grows with each cycle, the second counts
    /// the cycles.
    pub open spec fn counters(self, cycles: u64) -> Seq<WordCheck> {
        let word = self.descriptor.tls_base + self.tls.template;
        seq![
            WordCheck {
                address: word as u64,
                expected: Some((SEED + cycles * increment(self.descriptor.initial)) as u64),
            },
            WordCheck { address: (word + 8) as u64, expected: Some(cycles) },
        ]
    }

    /// The startup page: the encoded descriptor, then zeros.
    pub open spec fn startup_page(self, encoded: Seq<u64>) -> Seq<WordCheck> {
        Seq::new(
            512,
            |i: int|
                WordCheck {
                    address: (self.descriptor.address + 8 * i) as u64,
                    expected: Some(
                        if i < encoded.len() {
                            encoded[i]
                        } else {
                            0
                        },
                    ),
                },
        )
    }

    /// Pages that are not mapped: below and above the stack, and at the end.
    pub open spec fn guards(self) -> Seq<WordCheck> {
        seq![
            WordCheck { address: self.window_start, expected: None },
            WordCheck { address: self.descriptor.stack_top, expected: None },
            WordCheck { address: (self.window_end - 4096) as u64, expected: None },
        ]
    }

    /// What thread-local storage holds before the thread ran.
    pub open spec fn fresh_tls_word(self, offset: int) -> u64 {
        if offset == self.tls.template {
            SEED
        } else if self.architecture == Architecture::X86_64 && offset == self.tls.pointer {
            self.descriptor.thread_pointer
        } else {
            0
        }
    }

    /// Thread-local storage before the thread ran.
    pub open spec fn fresh_tls(self) -> Seq<WordCheck> {
        Seq::new(
            512,
            |i: int|
                WordCheck {
                    address: (self.descriptor.tls_base + 8 * i) as u64,
                    expected: Some(self.fresh_tls_word(8 * i)),
                },
        )
    }

    /// The stack before the thread ran.
    pub open spec fn fresh_stack(self) -> Seq<WordCheck> {
        Seq::new(
            512,
            |i: int|
                WordCheck {
                    address: (self.descriptor.stack_bottom + 8 * i) as u64,
                    expected: Some(0),
                },
        )
    }

    /// Everything that is looked at after some cycles.
    pub open spec fn checks(self, encoded: Seq<u64>, cycles: u64) -> Seq<WordCheck> {
        let always = Seq::<WordCheck>::empty() + self.counters(cycles) + self.startup_page(encoded)
            + self.guards();
        if cycles == 0 {
            always + self.fresh_tls() + self.fresh_stack()
        } else {
            always
        }
    }

    fn push_counters(&self, out: &mut Vec<WordCheck>, cycles: u64)
        requires
            self.well_formed(),
            cycles <= 0xffff,
        ensures
            final(out)@ == old(out)@ + self.counters(cycles),
    {
        let ghost before = out@;
        let word: u64 = self.descriptor.tls_base + self.tls.template;
        let grown: u64 = if self.descriptor.initial {
            SEED + cycles * 0x11
        } else {
            SEED + cycles * 0x22
        };
        out.push(WordCheck { address: word, expected: Some(grown) });
        out.push(WordCheck { address: word + 8, expected: Some(cycles) });
        assert(out@ =~= before + self.counters(cycles));
    }

    fn push_startup(&self, out: &mut Vec<WordCheck>, encoded: &[u64])
        requires
            self.well_formed(),
        ensures
            final(out)@ == old(out)@ + self.startup_page(encoded@),
    {
        let ghost before = out@;
        let ghost page = self.startup_page(encoded@);
        let mut i: usize = 0;
        while i < 512
            invariant
                i <= 512,
                self.well_formed(),
                page == self.startup_page(encoded@),
                out@ == before + page.take(i as int),
            decreases 512 - i,
        {
            let word: u64 = if i < encoded.len() {
                encoded[i]
            } else {
                0
            };
            out.push(
                WordCheck {
                    address: self.descriptor.address + 8 * (i as u64),
                    expected: Some(word),
                },
            );
            i = i + 1;
            assert(out@ =~= before + page.take(i as int));
        }
        assert(page.take(512) =~= page);
    }

    fn push_guards(&self, out: &mut Vec<WordCheck>)
        requires
            self.well_formed(),
        ensures
            final(out)@ == old(out)@ + self.guards(),
    {
        let ghost before = out@;
        out.push(WordCheck { address: self.window_start, expected: None });
        out.push(WordCheck { address: self.descriptor.stack_top, expected: None });
        out.push(WordCheck { address: self.window_end - 4096, expected: None });
        assert(out@ =~= before + self.guards());
    }

    fn push_fresh_tls(&self, out: &mut Vec<WordCheck>)
        requires
            self.well_formed(),
        ensures
            final(out)@ == old(out)@ + self.fresh_tls(),
    {
        let ghost before = out@;
        let ghost page = self.fresh_tls();
        let mut i: u64 = 0;
        while i < 512
            invariant
                i <= 512,
                self.well_formed(),
                page == self.fresh_tls(),
                out@ == before + page.take(i as int),
            decreases 512 - i,
        {
            let offset: u64 = 8 * i;
            let word: u64 = if offset == self.tls.template {
                SEED
            } else if matches!(self.architecture, Architecture::X86_64) && offset
                == self.tls.pointer {
                self.descriptor.thread_pointer
            } else {
                0
            };
            out.push(
                WordCheck { address: self.descriptor.tls_base + offset, expected: Some(word) },
            );
            i = i + 1;
            assert(out@ =~= before + page.take(i as int));
        }
        assert(page.take(512) =~= page);
    }

    fn push_fresh_stack(&self, out: &mut Vec<WordCheck>)
        requires
            self.well_formed(),
        ensures
            final(out)@ == old(out)@ + self.fresh_stack(),
    {
        let ghost before = out@;
        let ghost page = self.fresh_stack();
        let mut i: u64 = 0;
        while i < 512
            invariant
                i <= 512,
                self.well_formed(),
                page == self.fresh_stack(),
                out@ == before + page.take(i as int),
            decreases 512 - i,
        {
            out.push(
                WordCheck { address: self.descriptor.stack_bottom + 8 * i, expected: Some(0) },
            );
            i = i + 1;
            assert(out@ =~= before + page.take(i as int));
        }
        assert(page.take(512) =~= page);
    }

    /// List what is looked at after some cycles; `encoded` are the words of
    /// the encoded descriptor.
    pub fn list_checks(&self, encoded: &[u64], cycles: u64) -> (checks: Vec<WordCheck>)
        requires
            self.well_formed(),
            cycles <= 0xffff,
        ensures
            checks@ == self.checks(encoded@, cycles),
    {
        let mut out: Vec<WordCheck> = Vec::new();
        self.push_counters(&mut out, cycles);
        self.push_startup(&mut out, encoded);
        self.push_guards(&mut out);
        if cycles == 0 {
            self.push_fresh_tls(&mut out);
            self.push_fresh_stack(&mut out);
        }
        out
    }
}

/// Whether every word is as it must be; an address that cannot be read has no
/// word.
pub open spec fn all_as_expected(checks: Seq<WordCheck>, words: Seq<Option<u64>>) -> bool {
    &&& checks.len() == words.len()
    &&& forall|i: int| 0 <= i < checks.len() ==> (#[trigger] checks[i]).expected == words[i]
}

/// Check words that were read.
pub fn memory_is(checks: &[WordCheck], words: &[Option<u64>]) -> (fine: bool)
    ensures
        fine == all_as_expected(checks@, words@),
{
    if checks.len() != words.len() {
        return false;
    }
    let mut i: usize = 0;
    while i < checks.len()
        invariant
            i <= checks@.len(),
            checks@.len() == words@.len(),
            forall|k: int| 0 <= k < i ==> (#[trigger] checks@[k]).expected == words@[k],
        decreases checks@.len() - i,
    {
        let same = match (checks[i].expected, words[i]) {
            (Some(expected), Some(word)) => expected == word,
            (None, None) => true,
            _ => false,
        };
        if !same {
            assert(checks@[i as int].expected != words@[i as int]);
            return false;
        }
        i = i + 1;
    }
    true
}

/// Before a thread ran, its stack holds zeros, its thread-local storage the
/// template, the pointer to it and zeros, and its window ends with a page that
/// cannot be read.
pub proof fn fresh_memory_leaks_nothing(
    memory: ThreadMemory,
    encoded: Seq<u64>,
    words: Seq<Option<u64>>,
    i: int,
)
    requires
        memory.well_formed(),
        all_as_expected(memory.checks(encoded, 0), words),
        0 <= i < 512,
    ensures
        words[517 + i] == Some(memory.fresh_tls_word(8 * i)),
        words[1029 + i] == Some(0u64),
        words[516] is None,
{
    let checks = memory.checks(encoded, 0);
    assert(checks.len() == 1541);
    assert(checks[517 + i] == memory.fresh_tls()[i]);
    assert(checks[1029 + i] == memory.fresh_stack()[i]);
    assert(checks[516] == memory.guards()[2]);
}

/// A worker begins in its code with its argument, and the initial thread with
/// neither; each is told its own window.
pub proof fn described_threads_are_told_their_window(
    worker: bool,
    key: ThreadKey,
    window: ThreadWindow,
)
    requires
        window.stack.well_formed(),
        window.tls.well_formed(),
        window.ipc.well_formed(),
        window.startup.well_formed(),
    ensures
        ({
            let told = probe_descriptor(worker, key, window);
            &&& told.thread == key
            &&& told.process_startup == 0x4000_0000_1000
            &&& told.stack_bottom == 4096 * window.stack.first()
            &&& told.stack_top == 4096 * window.stack.past()
            &&& told.tls_base == 4096 * window.tls.first()
            &&& told.tls_bytes == 4096
            &&& told.thread_pointer == window.thread_pointer
            &&& told.ipc_tx == 4096 * window.ipc.first()
            &&& told.address == 4096 * window.startup.first()
            &&& worker ==> told.entry == 0x4000_0000_0000 && told.argument == 0x55 && !told.initial
            &&& !worker ==> told.entry == 0 && told.argument == 0 && told.initial
        }),
{
}

/// A thread counts its cycles behind the seed in its own storage: the initial
/// thread adds seventeen to the seed each time, and a worker twice as much.
pub proof fn threads_count_in_their_own_storage(memory: ThreadMemory, cycles: u64)
    requires
        memory.well_formed(),
        cycles < 0x1000_0000,
    ensures
        ({
            let words = memory.counters(cycles);
            &&& words.len() == 2
            &&& words[0].address == memory.descriptor.tls_base + memory.tls.template
            &&& words[1].address == words[0].address + 8
            &&& words[1].expected == Some(cycles)
            &&& (words[0].expected matches Some(word) && if memory.descriptor.initial {
                word == 0x1122_3344_5566_7788 + 17 * cycles
            } else {
                word == 0x1122_3344_5566_7788 + 34 * cycles
            })
        }),
{
    assert(cycles * 0x11 <= 0x1000_0000 * 0x11) by (nonlinear_arith)
        requires
            cycles < 0x1000_0000,
    ;
    assert(cycles * 0x22 <= 0x1000_0000 * 0x22) by (nonlinear_arith)
        requires
            cycles < 0x1000_0000,
    ;
}

/// Nothing can be read below the window, above the stack and in the last page of
/// the window.
pub proof fn guards_cannot_be_read(memory: ThreadMemory)
    requires
        memory.well_formed(),
    ensures
        ({
            let words = memory.guards();
            &&& words.len() == 3
            &&& words[0].address == memory.window_start && words[0].expected is None
            &&& words[1].address == memory.descriptor.stack_top && words[1].expected is None
            &&& words[2].address + 4096 == memory.window_end && words[2].expected is None
        }),
{
}

/// Fresh storage holds the seed and on one architecture the pointer to itself, and
/// a fresh stack nothing; both are looked at word by word, but only before the
/// first cycle.
pub proof fn fresh_memory_is_looked_at_once(
    memory: ThreadMemory,
    encoded: Seq<u64>,
    cycles: u64,
    i: int,
)
    requires
        memory.well_formed(),
        0 <= i < 512,
    ensures
        memory.fresh_stack()[i].address == memory.descriptor.stack_bottom + 8 * i
            && memory.fresh_stack()[i].expected == Some(0u64),
        memory.fresh_tls()[i].address == memory.descriptor.tls_base + 8 * i,
        8 * i == memory.tls.template ==> memory.fresh_tls()[i].expected == Some(
            0x1122_3344_5566_7788u64,
        ),
        8 * i != memory.tls.template && 8 * i == memory.tls.pointer && memory.architecture
            == Architecture::X86_64 ==> memory.fresh_tls()[i].expected == Some(
            memory.descriptor.thread_pointer,
        ),
        8 * i != memory.tls.template && (8 * i != memory.tls.pointer || memory.architecture
            == Architecture::Aarch64) ==> memory.fresh_tls()[i].expected == Some(0u64),
        i < encoded.len() ==> memory.startup_page(encoded)[i].expected == Some(encoded[i]),
        i >= encoded.len() ==> memory.startup_page(encoded)[i].expected == Some(0u64),
        memory.startup_page(encoded)[i].address == memory.descriptor.address + 8 * i,
        memory.checks(encoded, 0).len() == 2 + 512 + 3 + 512 + 512,
        cycles > 0 ==> memory.checks(encoded, cycles).len() == 2 + 512 + 3,
{
}

} // verus!
