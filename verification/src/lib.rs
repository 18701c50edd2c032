//! Consensus and fork-resolution engine for a two-cadence blockchain node.
//!
//! A validator alternates between fast single-leader "micro" blocks and a
//! BFT-agreed "macro" block that closes each epoch.  The crate provides the
//! signed message envelope and multi-signature aggregation, the pBFT-style
//! round engine for macro blocks, the view-change collector that replaces a
//! silent leader, the fork resolver, the node driver state machine, and the
//! wallet's coin selection and transaction builders.
//!
//! The node driver is a pure state machine: it performs no I/O and instead
//! accumulates outbound messages and notifications in queues that the caller
//! drains.  Curve and pairing arithmetic is out of scope and is modeled by
//! plain 64-bit values that keep the additive homomorphism signatures rely
//! on; the storage layer is modeled by an in-memory chain with a proved
//! integrity invariant.

pub mod block;
pub mod chain;
pub mod change;
pub mod config;
pub mod consensus;
pub mod crypto;
pub mod election;
pub mod mempool;
pub mod error;
pub mod message;
pub mod multisignature;
pub mod node;
pub mod tx;
pub mod view_change;
pub mod wallet;
