//! The system ledger: the number of the current block and the nonce of each
//! account.

use crate::numeric::{one_u32, zero_u32};
use crate::storage::StorageMap;
use crate::types::{AccountId, BlockNumber, Nonce};
use vstd::prelude::*;

verus! {

/// The system ledger as a mathematical value.
///
/// Both counters are natural numbers here: the model never overflows.
pub struct SystemState {
    /// The number of blocks executed so far.
    pub block_number: nat,
    /// The number of extrinsics submitted by each account that has submitted
    /// any.
    pub nonce: Map<Seq<char>, nat>,
}

impl SystemState {
    /// The ledger before any block: block number zero, no nonce recorded.
    pub open spec fn genesis() -> Self {
        SystemState { block_number: 0, nonce: Map::empty() }
    }

    /// The nonce of `who`: zero for an account that has none recorded.
    pub open spec fn nonce_of(self, who: Seq<char>) -> nat {
        if self.nonce.contains_key(who) {
            self.nonce[who]
        } else {
            0
        }
    }

    /// The ledger one block later.
    pub open spec fn inc_block_number(self) -> Self {
        SystemState { block_number: self.block_number + 1, ..self }
    }

    /// The ledger after one more extrinsic of `who`.
    pub open spec fn inc_nonce(self, who: Seq<char>) -> Self {
        SystemState { nonce: self.nonce.insert(who, self.nonce_of(who) + 1), ..self }
    }
}

/// The system ledger.
#[derive(Debug)]
pub struct Pallet {
    block_number: BlockNumber,
    nonce: StorageMap<Nonce>,
}

impl View for Pallet {
    type V = SystemState;

    closed spec fn view(&self) -> SystemState {
        SystemState {
            block_number: self.block_number as nat,
            nonce: Map::new(
                |who: Seq<char>| self.nonce@.contains_key(who),
                |who: Seq<char>| self.nonce@[who] as nat,
            ),
        }
    }
}

impl Pallet {
    /// A ledger at block number zero, with no nonce recorded.
    pub fn new() -> (pallet: Self)
        ensures
            pallet@ == SystemState::genesis(),
    {
        let pallet = Pallet { block_number: zero_u32(), nonce: StorageMap::new() };
        assert(pallet@.nonce =~= Map::empty());
        pallet
    }

    /// The number of the current block.
    pub fn block_number(&self) -> (n: BlockNumber)
        ensures
            n == self@.block_number,
    {
        self.block_number
    }

    /// The counters of a ledger in memory are within the ranges of their
    /// types.
    pub proof fn lemma_counters_in_range(&self)
        ensures
            self@.block_number <= BlockNumber::MAX,
            forall|who: Seq<char>| #[trigger] self@.nonce_of(who) <= Nonce::MAX,
    {
    }

    /// The nonce recorded for `who`, if one is recorded.
    pub fn get_nonce(&self, who: &AccountId) -> (n: Option<&Nonce>)
        ensures
            match n {
                Some(nonce) => self@.nonce.contains_key(who@) && *nonce == self@.nonce[who@],
                None => !self@.nonce.contains_key(who@),
            },
    {
        self.nonce.get(who)
    }

    /// The nonce of `who`: zero for an account that has none recorded.
    pub fn nonce(&self, who: &AccountId) -> (n: Nonce)
        ensures
            n == self@.nonce_of(who@),
    {
        match self.nonce.get(who) {
            Some(nonce) => *nonce,
            None => zero_u32(),
        }
    }

    /// Moves on to the next block.
    pub fn inc_block_number(&mut self)
        requires
            old(self)@.block_number < BlockNumber::MAX,
        ensures
            final(self)@ == old(self)@.inc_block_number(),
    {
        self.block_number = self.block_number + one_u32();
    }

    /// Counts one more extrinsic of `who`.
    pub fn inc_nonce(&mut self, who: &AccountId)
        requires
            old(self)@.nonce_of(who@) < Nonce::MAX,
        ensures
            final(self)@ == old(self)@.inc_nonce(who@),
    {
        let actual_nonce = self.nonce(who);
        let new_nonce = actual_nonce + one_u32();
        self.nonce.insert(who.clone(), new_nonce);
        assert(self@.nonce =~= old(self)@.nonce.insert(who@, old(self)@.nonce_of(who@) + 1));
    }
}

} // verus!
