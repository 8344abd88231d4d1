//! External commands: what they may ask for, how they start and how they end.

pub mod authority;
pub mod capability;
pub mod execute;
pub mod foreground;
pub mod jobs;
pub mod launch;
pub mod outcome;
pub mod startup;
pub mod supervised;
