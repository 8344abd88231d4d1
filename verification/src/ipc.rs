//! Acceptance of message passing between an application and its server.

pub mod acceptance;
pub mod baseline;
pub mod failures;
pub mod fates;
pub mod launch;
pub mod measuring;
