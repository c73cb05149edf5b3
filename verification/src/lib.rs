//! Verified core of the Aion durable workflow engine.
//!
//! The crate holds the rules that decide what the engine does: event histories and the stores that
//! keep them, the single-writer recorder, projections of a history, worker registration and
//! dispatch, durable timers, live queries and engine assembly. Everything that waits, sends or
//! touches a disk lives outside and hands plain values in.

pub mod append;
pub mod attributes;
pub mod conformance;
pub mod durability;
pub mod engine;
pub mod error;
pub mod event;
pub mod ids;
pub mod lifecycle;
pub mod memory;
pub mod nif;
pub mod order;
pub mod payload;
pub mod projection;
pub mod query;
pub mod recorder;
pub mod runtime;
pub mod schedule;
pub mod seam;
pub mod store;
pub mod table;
pub mod text;
pub mod time;
pub mod timestamp;
pub mod visibility;
pub mod worker;
