//! A minimal deterministic state-transition engine in the shape of a ledger.
//!
//! The state is split into independent modules (pallets). It changes only
//! through blocks: ordered batches of extrinsics, each a caller together with
//! a call addressed to one pallet. Every operation is specified against a
//! mathematical model of the state, and the executable code is proved to
//! follow that model.

pub mod balances;
pub mod chain;
mod numeric;
pub mod proof_of_existence;
pub mod runtime;
pub mod storage;
pub mod support;
pub mod system;
pub mod types;

pub use runtime::{Runtime, RuntimeCall};
