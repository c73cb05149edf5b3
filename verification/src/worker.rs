//! Remote activity workers: registration, dispatch and completion.

pub mod bridge;
pub mod dispatch;
pub mod pending;
pub mod registry;
