//! Calls that wait: how they are parked, woken and answered.

pub mod answer;
pub mod calls;
pub mod prepare;
pub mod resume;
pub mod waiting;
