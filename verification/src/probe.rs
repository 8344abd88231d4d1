//! Acceptance probes of native processes: what they ask of the machine, what
//! they accept as an answer, and in which order everything is given back.

pub mod admission;
pub mod contents;
pub mod creating;
pub mod creation;
pub mod dispatch;
pub mod entering;
pub mod handle;
pub mod heap;
pub mod layout;
pub mod program;
pub mod retirement;
pub mod rotation;
pub mod schedule;
pub mod script;
pub mod shared;
pub mod synchronization;
pub mod trial;
pub mod turns;
pub mod words;
