//! Durable timers.

pub mod named;
pub mod recovery;
pub mod service;
