//! A safe configuration-and-lifecycle layer over a pluggable memory-arena
//! engine reached through a C-shaped keyword-argument protocol.
//!
//! The crate has three parts, built on one another:
//!
//! * [`registry`] scans the engine's public header text for configuration-key
//!   declarations and produces the key registry: the single source of truth
//!   for which configuration keys exist and which payload field each one
//!   fills.
//! * [`args`] turns a sequence of logical `(key, value)` pairs into the
//!   sentinel-terminated argument block that the engine's creation entry
//!   point expects, rejecting any key absent from the registry before a
//!   block is ever handed out.
//! * [`arena`] and [`vm`] wrap the engine's raw arena handles in a
//!   shared-ownership ledger that guarantees exactly-once destruction, and
//!   drive the creation state machine for virtual-memory-backed arenas.
//!
//! The engine itself (creation, destruction, and introspection entry points)
//! stays outside this crate: callers perform those calls and feed the
//! results back in as plain values, so every decision this layer makes is
//! verified for every outcome the engine can produce.

pub mod args;
pub mod arena;
pub mod errors;
pub mod registry;
pub mod vm;
