//! From firmware to the owned machine.

pub mod arena;
pub mod baseline;
pub mod console;
pub mod handoff;
pub mod kernel_plan;
pub mod services;
pub mod stages;
