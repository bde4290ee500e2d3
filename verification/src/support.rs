//! The shapes shared by every pallet: blocks, extrinsics, errors and dispatch.

use vstd::prelude::*;

verus! {

/// The reasons for which a call, or a whole block, is refused.
#[derive(Debug, Clone, Copy, PartialEq, Eq, Structural)]
pub enum DispatchError {
    /// The header of a block does not carry the number that follows the last
    /// executed block. The whole block is refused.
    BlockNumberMismatch { expected: u32, got: u32 },
    /// The caller of a transfer holds less than the amount.
    InsufficientBalance,
    /// The balance of the recipient of a transfer would leave the numeric range.
    Overflow,
    /// The content has an owner already.
    AlreadyClaimed,
    /// The content has no owner.
    ClaimNotFound,
    /// The content is owned by another account than the caller.
    NotClaimOwner,
}

/// The outcome of a call: nothing on success, the reason on refusal.
pub type DispatchResult = Result<(), DispatchError>;

impl DispatchError {
    /// The words in which the error is reported.
    pub open spec fn text(self) -> Seq<char> {
        match self {
            DispatchError::BlockNumberMismatch { .. } => {
                "block number does not match what is expected"@
            },
            DispatchError::InsufficientBalance => "Not enough funds."@,
            DispatchError::Overflow => "Overflow"@,
            DispatchError::AlreadyClaimed => "This content has already been claimed."@,
            DispatchError::ClaimNotFound => "This claim does not exist."@,
            DispatchError::NotClaimOwner => "You are not the owner of this claim."@,
        }
    }

    /// A human-readable reason for the refusal.
    pub fn message(&self) -> (r: &'static str)
        ensures
            r@ == self.text(),
    {
        match self {
            DispatchError::BlockNumberMismatch { .. } => {
                "block number does not match what is expected"
            },
            DispatchError::InsufficientBalance => "Not enough funds.",
            DispatchError::Overflow => "Overflow",
            DispatchError::AlreadyClaimed => "This content has already been claimed.",
            DispatchError::ClaimNotFound => "This claim does not exist.",
            DispatchError::NotClaimOwner => "You are not the owner of this claim.",
        }
    }
}

/// The header of a block: the number that the block claims for itself.
#[derive(Debug)]
pub struct Header<BlockNumber> {
    pub block_number: BlockNumber,
}

/// One submitted operation: who asks, and what for.
#[derive(Debug)]
pub struct Extrinsic<Caller, Call> {
    pub caller: Caller,
    pub call: Call,
}

/// An ordered batch of extrinsics under one header.
#[derive(Debug)]
pub struct Block<Header, Extrinsic> {
    pub header: Header,
    pub extrinsics: Vec<Extrinsic>,
}

/// A part of the state that can carry out calls on behalf of a caller.
///
/// Each pallet routes its own calls; the runtime routes every call to the
/// pallet that it names.
pub trait Dispatch {
    /// Who a call is made for.
    type Caller;

    /// The calls that can be made.
    type Call;

    /// Carries out `call` on behalf of `caller`.
    fn dispatch(&mut self, caller: Self::Caller, call: Self::Call) -> DispatchResult;
}

} // verus!
