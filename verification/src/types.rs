//! The concrete types that the runtime binds every pallet to.

use vstd::prelude::*;

verus! {

/// The identifier of an account.
pub type AccountId = String;

/// An amount of funds.
pub type Balance = u128;

/// The number of a block.
pub type BlockNumber = u32;

/// The number of extrinsics that an account has submitted.
pub type Nonce = u32;

/// The content that a claim is made on.
pub type Content = String;

/// One submitted operation: the account that asks, and the call.
pub type Extrinsic = crate::support::Extrinsic<AccountId, crate::runtime::RuntimeCall>;

/// The header of a block.
pub type Header = crate::support::Header<BlockNumber>;

/// A block as the runtime executes it.
pub type Block = crate::support::Block<Header, Extrinsic>;

} // verus!
