//! An event-publication core for a ledger contract.
//!
//! A strongly typed record is split into indexed *topic* fields, used for
//! cheap filtering, and the remaining *data* fields, packed into one keyed
//! container. Both halves are encoded into a canonical wire representation
//! and appended as a single atomic entry to the execution context's event
//! log.

pub mod bytes;
pub mod emitter;
pub mod event;
pub mod laws;
pub mod publish;
pub mod value;
pub mod wire;
