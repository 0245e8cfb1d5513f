//! The coordination core of a durable-workflow backend: fencing tokens,
//! checkpoint leases, the idempotent checkpoint ledger and the workflow
//! lifecycle.
//!
//! Each decision of the protocol is a function from what was read to what
//! is answered and written. The whole protocol runs on a store held in
//! memory, whose state is a value of mathematics; what the protocol
//! guarantees is proved of that state.

pub mod checkpoint_service;
mod clock;
pub mod error;
pub mod fencing;
pub mod helpers;
pub mod laws;
pub mod lease;
pub mod ledger;
pub mod lifecycle;
pub mod model;
mod rows;
pub mod schema;
pub mod server;
pub mod store;
pub mod table;
pub mod text;
pub mod workflow_service;
