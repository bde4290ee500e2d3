//! The runtime: the three pallets side by side, the router that hands each
//! call to its pallet, and the executor that applies a block.

use crate::balances;
use crate::proof_of_existence;
use crate::support::{Dispatch, DispatchError, DispatchResult};
use crate::system;
use crate::types::{AccountId, Block, BlockNumber, Extrinsic, Nonce};
use vstd::prelude::*;

verus! {

/// Every call that the runtime takes: for each pallet, the calls of that
/// pallet.
///
/// A new pallet adds one variant here and one arm to the router.
#[derive(Debug)]
pub enum RuntimeCall {
    Balances(balances::Call),
    ProofOfExistence(proof_of_existence::Call),
}

/// The report of an extrinsic that a block carried and that was refused.
#[derive(Debug, Clone, Copy, PartialEq, Eq, Structural)]
pub struct ExtrinsicFailure {
    /// The number of the block.
    pub block_number: BlockNumber,
    /// The position of the extrinsic in the block, from zero.
    pub index: usize,
    /// Why the call was refused.
    pub error: DispatchError,
}

/// The whole state as a mathematical value.
pub struct RuntimeState {
    pub system: system::SystemState,
    pub balances: balances::BalancesState,
    pub proof_of_existence: proof_of_existence::ClaimsState,
}

/// How many of `extrinsics` were submitted by `who`.
pub open spec fn submissions(extrinsics: Seq<Extrinsic>, who: Seq<char>) -> nat
    decreases extrinsics.len(),
{
    if extrinsics.len() == 0 {
        0
    } else if extrinsics.last().caller@ == who {
        submissions(extrinsics.drop_last(), who) + 1
    } else {
        submissions(extrinsics.drop_last(), who)
    }
}

impl RuntimeState {
    /// The state before any block: every pallet empty, block number zero.
    pub open spec fn genesis() -> Self {
        RuntimeState {
            system: system::SystemState::genesis(),
            balances: balances::BalancesState::empty(),
            proof_of_existence: proof_of_existence::ClaimsState::empty(),
        }
    }

    /// What the pallet that `call` names answers to it.
    pub open spec fn dispatch_result(self, caller: Seq<char>, call: RuntimeCall)
        -> DispatchResult {
        match call {
            RuntimeCall::Balances(call) => self.balances.dispatch_result(caller, call),
            RuntimeCall::ProofOfExistence(call) => self.proof_of_existence.dispatch_result(
                caller,
                call,
            ),
        }
    }

    /// The state after `call` was routed: the pallet that it names has
    /// carried it out, and the others are as they were.
    pub open spec fn dispatch(self, caller: Seq<char>, call: RuntimeCall) -> Self {
        match call {
            RuntimeCall::Balances(call) => RuntimeState {
                balances: self.balances.dispatch(caller, call),
                ..self
            },
            RuntimeCall::ProofOfExistence(call) => RuntimeState {
                proof_of_existence: self.proof_of_existence.dispatch(caller, call),
                ..self
            },
        }
    }

    /// The state once the submission of `extrinsic` has been counted, before
    /// its call is routed.
    pub open spec fn count(self, extrinsic: Extrinsic) -> Self {
        RuntimeState { system: self.system.inc_nonce(extrinsic.caller@), ..self }
    }

    /// What the call of `extrinsic` is answered.
    pub open spec fn apply_result(self, extrinsic: Extrinsic) -> DispatchResult {
        self.count(extrinsic).dispatch_result(extrinsic.caller@, extrinsic.call)
    }

    /// The state after `extrinsic`: its caller's nonce has gone up by one,
    /// whatever became of the call, and the call has been routed.
    pub open spec fn apply(self, extrinsic: Extrinsic) -> Self {
        self.count(extrinsic).dispatch(extrinsic.caller@, extrinsic.call)
    }

    /// The state after each of `extrinsics` in turn, first to last.
    pub open spec fn apply_all(self, extrinsics: Seq<Extrinsic>) -> Self
        decreases extrinsics.len(),
    {
        if extrinsics.len() == 0 {
            self
        } else {
            self.apply_all(extrinsics.drop_last()).apply(extrinsics.last())
        }
    }

    /// The reports of those of `extrinsics` that are refused when they are
    /// applied in turn, in the order of the block.
    pub open spec fn failures(self, block_number: BlockNumber, extrinsics: Seq<Extrinsic>) -> Seq<
        ExtrinsicFailure,
    >
        decreases extrinsics.len(),
    {
        if extrinsics.len() == 0 {
            Seq::empty()
        } else {
            let earlier = extrinsics.drop_last();
            let reports = self.failures(block_number, earlier);
            match self.apply_all(earlier).apply_result(extrinsics.last()) {
                Ok(_) => reports,
                Err(error) => reports.push(
                    ExtrinsicFailure { block_number, index: earlier.len() as usize, error },
                ),
            }
        }
    }

    /// The number that the header of the next block has to carry.
    pub open spec fn next_block_number(self) -> nat {
        self.system.block_number + 1
    }

    /// What executing `block` answers: the block is refused as a whole when
    /// its header does not carry the next block number, and accepted
    /// otherwise, whatever becomes of its extrinsics.
    pub open spec fn execute_block_result(self, block: Block) -> DispatchResult {
        if block.header.block_number == self.next_block_number() {
            Ok(())
        } else {
            Err(
                DispatchError::BlockNumberMismatch {
                    expected: self.next_block_number() as BlockNumber,
                    got: block.header.block_number,
                },
            )
        }
    }

    /// The state after executing `block`. The block number goes up by one in
    /// any case. The extrinsics of an accepted block are applied in order;
    /// none of a refused block is.
    pub open spec fn execute_block(self, block: Block) -> Self {
        let started = RuntimeState { system: self.system.inc_block_number(), ..self };
        if self.execute_block_result(block).is_ok() {
            started.apply_all(block.extrinsics@)
        } else {
            started
        }
    }

    /// The reports of the extrinsics of `block` that are refused when the
    /// block is executed: none for a block that is refused as a whole.
    pub open spec fn execute_block_failures(self, block: Block) -> Seq<ExtrinsicFailure> {
        let started = RuntimeState { system: self.system.inc_block_number(), ..self };
        if self.execute_block_result(block).is_ok() {
            started.failures(block.header.block_number, block.extrinsics@)
        } else {
            Seq::empty()
        }
    }

    /// Every counter that executing `block` moves stays within its range:
    /// the block number, and for an accepted block the nonce of each account
    /// that submitted an extrinsic of it.
    pub open spec fn has_room_for(self, block: Block) -> bool {
        &&& self.system.block_number < BlockNumber::MAX
        &&& self.execute_block_result(block).is_ok() ==> forall|who: Seq<char>|
            self.system.nonce_of(who) + #[trigger] submissions(block.extrinsics@, who)
                <= Nonce::MAX
    }
}

/// Applying extrinsics raises the nonce of each account by the number of
/// extrinsics that it submitted, whatever became of their calls, and leaves
/// the block number alone.
pub proof fn lemma_apply_all_counts(
    state: RuntimeState,
    extrinsics: Seq<Extrinsic>,
    who: Seq<char>,
)
    ensures
        state.apply_all(extrinsics).system.nonce_of(who) == state.system.nonce_of(who)
            + submissions(extrinsics, who),
        state.apply_all(extrinsics).system.block_number == state.system.block_number,
    decreases extrinsics.len(),
{
    if extrinsics.len() > 0 {
        lemma_apply_all_counts(state, extrinsics.drop_last(), who);
    }
}

/// An account has submitted no more of the first `n` extrinsics than of all
/// of them.
proof fn lemma_submissions_of_prefix(extrinsics: Seq<Extrinsic>, n: int, who: Seq<char>)
    requires
        0 <= n <= extrinsics.len(),
    ensures
        submissions(extrinsics.take(n), who) <= submissions(extrinsics, who),
    decreases extrinsics.len(),
{
    if n == extrinsics.len() {
        assert(extrinsics.take(n) =~= extrinsics);
    } else {
        lemma_submissions_of_prefix(extrinsics.drop_last(), n, who);
        assert(extrinsics.drop_last().take(n) =~= extrinsics.take(n));
    }
}

/// An account that has submitted some of the extrinsics is the caller of one
/// of them.
proof fn lemma_submitter_is_a_caller(extrinsics: Seq<Extrinsic>, who: Seq<char>)
    ensures
        submissions(extrinsics, who) > 0 ==> exists|k: int|
            0 <= k < extrinsics.len() && (#[trigger] extrinsics[k]).caller@ == who,
    decreases extrinsics.len(),
{
    if extrinsics.len() > 0 {
        let earlier = extrinsics.drop_last();
        let end = extrinsics.len() - 1;
        if extrinsics[end].caller@ == who {
        } else {
            lemma_submitter_is_a_caller(earlier, who);
            if submissions(earlier, who) > 0 {
                let k = choose|k: int|
                    0 <= k < earlier.len() && (#[trigger] earlier[k]).caller@ == who;
                assert(extrinsics[k] == earlier[k]);
            }
        }
    }
}

/// How many of `extrinsics` were submitted by `who`.
fn count_submissions(extrinsics: &Vec<Extrinsic>, who: &AccountId) -> (n: usize)
    ensures
        n == submissions(extrinsics@, who@),
{
    let mut n: usize = 0;
    let mut index: usize = 0;
    while index < extrinsics.len()
        invariant
            index <= extrinsics.len(),
            n <= index,
            n == submissions(extrinsics@.take(index as int), who@),
        decreases extrinsics.len() - index,
    {
        proof {
            let upto = extrinsics@.take(index + 1);
            assert(upto.drop_last() =~= extrinsics@.take(index as int));
            assert(upto.last() == extrinsics@[index as int]);
        }
        if extrinsics[index].caller == *who {
            n = n + 1;
        }
        index = index + 1;
    }
    proof {
        assert(extrinsics@.take(index as int) =~= extrinsics@);
    }
    n
}

/// The runtime: one instance of each pallet.
#[derive(Debug)]
pub struct Runtime {
    pub system: system::Pallet,
    pub balances: balances::Pallet,
    pub proof_of_existence: proof_of_existence::Pallet,
}

impl View for Runtime {
    type V = RuntimeState;

    open spec fn view(&self) -> RuntimeState {
        RuntimeState {
            system: self.system@,
            balances: self.balances@,
            proof_of_existence: self.proof_of_existence@,
        }
    }
}

impl Runtime {
    /// A runtime before any block: every pallet empty, block number zero.
    pub fn new() -> (runtime: Self)
        ensures
            runtime@ == RuntimeState::genesis(),
    {
        Runtime {
            system: system::Pallet::new(),
            balances: balances::Pallet::new(),
            proof_of_existence: proof_of_existence::Pallet::new(),
        }
    }

    /// Whether every counter that executing `block` moves has room to move.
    ///
    /// Executing a block asks for this. It fails only where the block number,
    /// or the nonce of an account, has reached the end of its range.
    pub fn has_room_for(&self, block: &Block) -> (r: bool)
        ensures
            r == self@.has_room_for(*block),
    {
        proof {
            self.system.lemma_counters_in_range();
        }
        let current = self.system.block_number();
        if current == BlockNumber::MAX {
            return false;
        }
        if block.header.block_number != current + 1 {
            return true;
        }
        let ghost extrinsics = block.extrinsics@;
        let mut index: usize = 0;
        while index < block.extrinsics.len()
            invariant
                extrinsics == block.extrinsics@,
                index <= extrinsics.len(),
                self@.execute_block_result(*block).is_ok(),
                forall|k: int|
                    0 <= k < index ==> self@.system.nonce_of((#[trigger] extrinsics[k]).caller@)
                        + submissions(extrinsics, extrinsics[k].caller@) <= Nonce::MAX,
            decreases extrinsics.len() - index,
        {
            let caller = &block.extrinsics[index].caller;
            let submitted = count_submissions(&block.extrinsics, caller);
            let nonce = self.system.nonce(caller);
            if submitted > (Nonce::MAX - nonce) as usize {
                assert(self@.system.nonce_of(caller@) + submissions(block.extrinsics@, caller@)
                    > Nonce::MAX);
                return false;
            }
            index = index + 1;
        }
        proof {
            assert forall|who: Seq<char>|
                self@.system.nonce_of(who) + #[trigger] submissions(extrinsics, who)
                    <= Nonce::MAX by {
                lemma_submitter_is_a_caller(extrinsics, who);
                if submissions(extrinsics, who) > 0 {
                    let k = choose|k: int|
                        0 <= k < extrinsics.len() && (#[trigger] extrinsics[k]).caller@ == who;
                    assert(self@.system.nonce_of(extrinsics[k].caller@) + submissions(
                        extrinsics,
                        extrinsics[k].caller@,
                    ) <= Nonce::MAX);
                }
            }
        }
        true
    }

    /// Executes `block` and reports the extrinsics that were refused.
    ///
    /// The block number goes up by one. A block whose header does not carry
    /// the new number is refused as a whole: none of its extrinsics is
    /// applied, and the block number stays raised. The extrinsics of an
    /// accepted block are applied in order. Each one first raises the nonce
    /// of its caller; a refused call is reported, changes nothing else, and
    /// does not stop the block.
    pub fn execute_block_reporting(&mut self, block: Block) -> (r: Result<
        Vec<ExtrinsicFailure>,
        DispatchError,
    >)
        requires
            old(self)@.has_room_for(block),
        ensures
            final(self)@ == old(self)@.execute_block(block),
            match r {
                Ok(reports) => old(self)@.execute_block_result(block).is_ok() && reports@ == old(
                    self,
                )@.execute_block_failures(block),
                Err(error) => old(self)@.execute_block_result(block) == Err::<(), DispatchError>(
                    error,
                ),
            },
    {
        self.system.inc_block_number();
        let block_number = block.header.block_number;
        if block_number != self.system.block_number() {
            return Err(
                DispatchError::BlockNumberMismatch {
                    expected: self.system.block_number(),
                    got: block_number,
                },
            );
        }
        let ghost started = self@;
        let ghost extrinsics = block.extrinsics@;
        assert(extrinsics.len() <= usize::MAX) by {
            assert(block.extrinsics.len() == extrinsics.len());
        }
        let mut reports: Vec<ExtrinsicFailure> = Vec::new();
        let mut index: usize = 0;
        for extrinsic in iter: block.extrinsics.into_iter()
            invariant
                iter.seq() == extrinsics,
                index == iter.index(),
                extrinsics.len() <= usize::MAX,
                self@ == started.apply_all(extrinsics.take(index as int)),
                reports@ == started.failures(block_number, extrinsics.take(index as int)),
                forall|who: Seq<char>|
                    started.system.nonce_of(who) + #[trigger] submissions(extrinsics, who)
                        <= Nonce::MAX,
        {
            proof {
                let who = extrinsic.caller@;
                let earlier = extrinsics.take(index as int);
                let upto = extrinsics.take(index + 1);
                assert(upto.drop_last() =~= earlier);
                assert(upto.last() == extrinsic);
                lemma_apply_all_counts(started, earlier, who);
                lemma_submissions_of_prefix(extrinsics, index + 1, who);
                assert(submissions(upto, who) == submissions(earlier, who) + 1);
                assert(started.system.nonce_of(who) + submissions(extrinsics, who) <= Nonce::MAX);
            }
            self.system.inc_nonce(&extrinsic.caller);
            let outcome = self.dispatch(extrinsic.caller, extrinsic.call);
            if let Err(error) = outcome {
                reports.push(ExtrinsicFailure { block_number, index, error });
            }
            index = index + 1;
        }
        proof {
            assert(extrinsics.take(index as int) =~= extrinsics);
        }
        Ok(reports)
    }

    /// Executes `block`.
    ///
    /// The answer is that of the block as a whole: an accepted block is a
    /// success even where some of its extrinsics were refused.
    pub fn execute_block(&mut self, block: Block) -> (r: DispatchResult)
        requires
            old(self)@.has_room_for(block),
        ensures
            r == old(self)@.execute_block_result(block),
            final(self)@ == old(self)@.execute_block(block),
    {
        match self.execute_block_reporting(block) {
            Ok(_) => Ok(()),
            Err(error) => Err(error),
        }
    }
}

impl Dispatch for Runtime {
    type Caller = AccountId;

    type Call = RuntimeCall;

    /// Routes `call` to the pallet that it names, and answers what that
    /// pallet answers.
    fn dispatch(&mut self, caller: AccountId, call: RuntimeCall) -> (r: DispatchResult)
        ensures
            r == old(self)@.dispatch_result(caller@, call),
            final(self)@ == old(self)@.dispatch(caller@, call),
    {
        match call {
            RuntimeCall::Balances(call) => self.balances.dispatch(caller, call),
            RuntimeCall::ProofOfExistence(call) => self.proof_of_existence.dispatch(caller, call),
        }
    }
}

} // verus!
