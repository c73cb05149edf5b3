//! Queries to live workflows.

pub mod service;
