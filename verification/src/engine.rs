//! The embedded engine: assembly, lifecycle decisions and schedules.

pub mod api;
pub mod builder;
pub mod gate;
pub mod handles;
pub mod outcome;
pub mod schedules;
