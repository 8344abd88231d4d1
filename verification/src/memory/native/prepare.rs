//! What a new thread finds, and what a retired one leaves.

use crate::memory::native::{NativeProcess, ThreadKey, ThreadWindow};
use vstd::prelude::*;

verus! {

/// What a new thread finds at its entry.
#[derive(Clone, Copy, Debug, PartialEq, Eq, Structural)]
pub struct StartupDescriptor {
    /// Name of the thread.
    pub thread: ThreadKey,
    /// Address of the process startup page.
    pub process_startup: u64,
    /// Lowest stack address.
    pub stack_bottom: u64,
    /// Address after the stack.
    pub stack_top: u64,
    /// Address of thread-local storage.
    pub tls_base: u64,
    /// Bytes of thread-local storage.
    pub tls_bytes: u64,
    /// Thread pointer.
    pub thread_pointer: u64,
    /// Address of the transmit page.
    pub ipc_tx: u64,
    /// Entry address.
    pub entry: u64,
    /// Argument.
    pub argument: u64,
    /// Whether this is the initial thread.
    pub initial: bool,
    /// Address of the thread's startup page.
    pub address: u64,
}

/// The descriptor of a worker.
pub open spec fn worker(
    thread: ThreadKey,
    process_startup: u64,
    shared_start: u64,
    window: ThreadWindow,
    entry_offset: u64,
    argument: u64,
) -> StartupDescriptor {
    StartupDescriptor {
        thread,
        process_startup,
        stack_bottom: (window.stack.first() * 4096) as u64,
        stack_top: (window.stack.past() * 4096) as u64,
        tls_base: (window.tls.first() * 4096) as u64,
        tls_bytes: (window.tls.pages() * 4096) as u64,
        thread_pointer: window.thread_pointer,
        ipc_tx: (window.ipc.first() * 4096) as u64,
        entry: (shared_start + entry_offset) as u64,
        argument,
        initial: false,
        address: (window.startup.first() * 4096) as u64,
    }
}

/// Describe a worker. Fails where its entry address does not fit.
pub fn worker_descriptor(
    process: &NativeProcess,
    process_startup: u64,
    thread: ThreadKey,
    window: &ThreadWindow,
    entry_offset: u64,
    argument: u64,
) -> (descriptor: Option<StartupDescriptor>)
    requires
        window.stack.well_formed(),
        window.tls.well_formed(),
        window.ipc.well_formed(),
        window.startup.well_formed(),
    ensures
        match descriptor {
            Some(d) => {
                &&& process.shared_start + entry_offset <= u64::MAX
                &&& d == worker(
                    thread,
                    process_startup,
                    process.shared_start,
                    *window,
                    entry_offset,
                    argument,
                )
            },
            None => process.shared_start + entry_offset > u64::MAX,
        },
{
    let entry: u64 = match process.shared_start.checked_add(entry_offset) {
        Some(entry) => entry,
        None => return None,
    };
    let tls_base: u64 = window.tls.start();
    let tls_end: u64 = window.tls.end();
    Some(
        StartupDescriptor {
            thread,
            process_startup,
            stack_bottom: window.stack.start(),
            stack_top: window.stack.end(),
            tls_base,
            tls_bytes: tls_end - tls_base,
            thread_pointer: window.thread_pointer,
            ipc_tx: window.ipc.start(),
            entry,
            argument,
            initial: false,
            address: window.startup.start(),
        },
    )
}

/// Whether a receipt for a retired thread names the thread and every page of
/// its window but the two message pages.
pub fn receipt_matches(target: ThreadKey, window: &ThreadWindow, receipt: ThreadKey, ordinary_pages: u64) -> (matches:
    bool)
    ensures
        matches == (receipt == target && ordinary_pages + 2 == window.mapped_pages),
{
    receipt == target && window.mapped_pages >= 2 && window.mapped_pages - 2 == ordinary_pages
}

/// A worker is told its own stack, thread-local storage, message buffers and
/// startup page, an entry counted from where the image begins, and its argument.
/// It is never the initial thread.
pub proof fn workers_are_told_their_window(
    thread: ThreadKey,
    process_startup: u64,
    shared_start: u64,
    window: ThreadWindow,
    entry_offset: u64,
    argument: u64,
)
    requires
        window.stack.well_formed(),
        window.tls.well_formed(),
        window.ipc.well_formed(),
        window.startup.well_formed(),
        shared_start + entry_offset <= u64::MAX,
    ensures
        ({
            let told = worker(
                thread,
                process_startup,
                shared_start,
                window,
                entry_offset,
                argument,
            );
            &&& told.thread == thread
            &&& told.process_startup == process_startup
            &&& told.stack_bottom == 4096 * window.stack.first()
            &&& told.stack_top - told.stack_bottom == 4096 * window.stack.pages()
            &&& told.tls_base == 4096 * window.tls.first()
            &&& told.tls_bytes == 4096 * window.tls.pages()
            &&& told.thread_pointer == window.thread_pointer
            &&& told.ipc_tx == 4096 * window.ipc.first()
            &&& told.address == 4096 * window.startup.first()
            &&& told.entry - entry_offset == shared_start
            &&& told.argument == argument
            &&& !told.initial
        }),
{
}

} // verus!
