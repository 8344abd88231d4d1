//! Physical and virtual memory of applications.

pub mod extents;
pub mod frames;
pub mod growing;
pub mod growth;
pub mod image;
pub mod isolated;
pub mod launch;
pub mod native;
pub mod pages;
pub mod plan;
pub mod private;
pub mod regions;
pub mod reserving;
pub mod teardown;
