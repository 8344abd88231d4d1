//! Decision logic of a small capability operating system: block devices,
//! private address spaces, program launch, deferred calls and networking.
//!
//! Everything here computes on plain values. Hardware access, firmware calls
//! and services are performed by the program around this library, which hands
//! in what it observed and carries out what comes back.

pub mod artifacts;
pub mod block;
pub mod boot;
pub mod bytes;
pub mod client;
pub mod command;
pub mod deferred;
pub mod host;
pub mod ipc;
pub mod memory;
pub mod mounts;
pub mod namespace;
pub mod nested;
pub mod network;
pub mod numeric;
pub mod probe;
pub mod reply;
pub mod text;
pub mod virtio;
