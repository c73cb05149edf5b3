//! What workflow processes call into.

pub mod nif_timer;
pub mod timer_bridge;
