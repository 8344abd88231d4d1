//! Private application memory: mappings, placement, policy and calls.

pub mod call;
pub mod commit;
pub mod course;
pub mod edit;
pub mod gaps;
pub mod mapping;
pub mod space;
