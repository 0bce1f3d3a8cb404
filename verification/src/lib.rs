//! Coordination core for concurrent ticket-acquisition workers.
//!
//! The crate models one acquisition lifecycle per monitored target
//! (`state_machine`), an in-process registry of lifecycles (`registry`),
//! and the shared coordination store that grants exclusive, time-bounded
//! claims and keeps durable snapshots, metrics, alerts and proxy health
//! (`store`). The `control` module holds the decision logic behind the
//! streaming control surface, `codec` the proven-lossless text form of
//! persisted lifecycles, and `http2_fingerprint` the transport
//! fingerprint parameters the workers rotate through. Transport,
//! clocks and the networked key-value service itself live outside the
//! verified boundary: every function here takes the current time and
//! outside outcomes as plain values and pins its result exactly.

pub mod codec;
pub mod control;
pub mod http2_fingerprint;
pub mod kv;
pub mod models;
pub mod registry;
pub mod state_machine;
pub mod store;
