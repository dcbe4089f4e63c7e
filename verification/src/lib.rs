//! A recorder that decouples producing records from persisting them.
//!
//! Producers submit records and queries as [`protocol::Command`] values; a
//! single worker ([`actor::Actor`]) owns the storage backend, batches
//! bursts of writes into bulk `save` calls following a [`plan`], and
//! answers queries only after every write submitted ahead of them has been
//! flushed. The [`recorder::Recorder`] handle queues commands without ever
//! waiting on the backend and hands the backend back on close; the general
//! guarantees of the protocol are stated and proved in [`laws`].

pub mod actor;
pub mod laws;
pub mod plan;
pub mod protocol;
pub mod recorder;
pub mod storage;

pub use recorder::Recorder;
pub use storage::Storage;
