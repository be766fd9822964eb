//! Persistence and session-lifecycle layer of an automated trading bot.
//!
//! Per-user trading configuration, time-bounded wallet sessions and trade
//! history are stored as one record per user in a durable embedded store;
//! a single global record aggregates performance statistics. Every record
//! is carried through a versioned binary codec whose round-trip behaviour
//! is proved, and the store operations are specified against an abstract
//! map from keys to stored bytes.

pub mod codec;
pub mod db;
pub mod records;
pub mod store;
