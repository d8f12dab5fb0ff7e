//! Core of a lightweight request/reply and publish/subscribe messaging
//! library: wire codecs, per-peer session state, backend bookkeeping,
//! subscription tracking and the client-side pending-request table.
//! Transports and the async event loops that drive these types live outside
//! the library.

pub mod auth;
pub mod backend;
pub mod pubsub;
pub mod pubsub_wire;
pub mod reqtable;
pub mod sub;
pub mod rep;
pub mod wire;
