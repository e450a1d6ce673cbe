//! Event synchronization core: a shared append-only event log with a broker
//! that assigns dense monotonic sequence ids, a binary wire codec for the
//! client/server messages, the broker's dispatch and fan-out rules, and the
//! client's cache with gap detection and backfill.

pub mod broker;
pub mod client;
pub mod codec;
pub mod event;
pub mod registry;
pub mod session;
pub mod store;
