//! Splitting a file into numbered parts and putting the parts together again.

pub mod combine;
pub mod layout;
pub mod locate;
pub mod memory;
pub mod naming;
pub mod planner;
pub mod report;
pub mod split;
