# troe

The decisions of a small capability operating system, verified with Verus.

`src/` computes on plain values only. Where the system has to act (allocate or
zero a frame, change a page table, send a frame, run a thread, ask the firmware)
the library returns an action and takes what happened as the next event. Each
such run says in its contract which action follows which event, and a proof
function says that it comes to an end and what it leaves behind.

| Module | Contents |
| --- | --- |
| `virtio`, `block` | block profile: negotiation, request plans, completions, queue layout |
| `boot` | arena and kernel address space before the firmware is left, the handoff, first services |
| `memory` | launch reservations, heap growth, private mappings, native processes and their threads |
| `command` | commands from their name to their status: manifest, authority, launch stages, jobs |
| `deferred`, `client` | calls that wait, and what wakes and answers them |
| `network` | addresses, leases, exchanges, frames |
| `ipc`, `probe` | acceptance runs: what is asked of the machine and what must come back |
| `mounts`, `namespace`, `nested`, `artifacts`, `host` | composition of volumes, names and streams |
| `bytes`, `text`, `numeric`, `reply` | shared ground |

`app/` holds what touches the outside; `tests/` runs the library.
