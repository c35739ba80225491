//! Core of an interchain messaging protocol: canonical message encoding and
//! identity, an incremental Merkle accumulator over dispatched message ids,
//! fan-out dispatch to post-processing hooks with packed per-hook metadata,
//! a domain-keyed routing table, and a token-bridge state machine.
//!
//! All state lives in plain values handed in and out by the host; every
//! operation is a pure transition returning either its result and the
//! side-effect messages to emit, or an error that aborts the invocation.

pub mod addr;
pub mod aggregate;
pub mod codec;
pub mod crypto;
pub mod error;
pub mod merkle;
pub mod message;
pub mod metadata;
pub mod router;
pub mod warp;

pub use error::ContractError;
