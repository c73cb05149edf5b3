//! Behavioural suite for event stores.
//!
//! A store is put on trial: every request and its answer go into a log, and nothing is taken for
//! granted of the answers. A scenario is a script of requests with the answers that are expected; it
//! ends at the first answer that is not. A store that keeps the contract of
//! [`EventStore`](crate::store::EventStore) passes every scenario.

pub mod expect;
pub mod fixtures;
pub mod scenarios;
pub mod script;
pub mod trial;
