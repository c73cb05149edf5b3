//! Lifecycle of workflow runs.

pub mod visibility;
