//! What holds of a runtime over one block, and over a run of blocks executed
//! one after another.

use crate::balances;
use crate::runtime::{
    lemma_apply_all_counts, submissions, ExtrinsicFailure, RuntimeCall, RuntimeState,
};
use crate::support::DispatchError;
use crate::types::{Block, BlockNumber, Extrinsic};
use vstd::prelude::*;

verus! {

impl RuntimeCall {
    /// The call asks to give funds to `who`.
    pub open spec fn credits(self, who: Seq<char>) -> bool {
        match self {
            RuntimeCall::Balances(call) => call.credits(who),
            RuntimeCall::ProofOfExistence(_) => false,
        }
    }

    /// The call asks to claim `content`.
    pub open spec fn claims(self, content: Seq<char>) -> bool {
        match self {
            RuntimeCall::Balances(_) => false,
            RuntimeCall::ProofOfExistence(call) => call.claims(content),
        }
    }
}

/// None of `extrinsics` asks to give funds to `who`.
pub open spec fn none_credits(extrinsics: Seq<Extrinsic>, who: Seq<char>) -> bool {
    forall|i: int| 0 <= i < extrinsics.len() ==> !(#[trigger] extrinsics[i]).call.credits(who)
}

/// None of `extrinsics` is a claim of `who` on `content`.
pub open spec fn none_claims(extrinsics: Seq<Extrinsic>, who: Seq<char>, content: Seq<char>)
    -> bool {
    forall|i: int|
        0 <= i < extrinsics.len() ==> !((#[trigger] extrinsics[i]).caller@ == who
            && extrinsics[i].call.claims(content))
}

/// None of `extrinsics` asks to move funds from an account to itself.
pub open spec fn none_to_self(extrinsics: Seq<Extrinsic>) -> bool {
    forall|i: int|
        0 <= i < extrinsics.len() ==> !(#[trigger] extrinsics[i]).call.credits(
            extrinsics[i].caller@,
        )
}

/// Extrinsics of which none credits an account leave it with no more funds
/// than it had.
pub proof fn lemma_apply_all_needs_a_credit(
    state: RuntimeState,
    extrinsics: Seq<Extrinsic>,
    who: Seq<char>,
)
    requires
        none_credits(extrinsics, who),
    ensures
        state.apply_all(extrinsics).balances.balance_of(who) <= state.balances.balance_of(who),
    decreases extrinsics.len(),
{
    if extrinsics.len() > 0 {
        let earlier = extrinsics.drop_last();
        let last = extrinsics[extrinsics.len() - 1];
        assert forall|i: int| 0 <= i < earlier.len() implies !(#[trigger] earlier[i]).call.credits(
            who,
        ) by {
            assert(earlier[i] == extrinsics[i]);
        }
        lemma_apply_all_needs_a_credit(state, earlier, who);
        assert(!last.call.credits(who));
    }
}

/// Extrinsics among which an account makes no claim on a piece of content
/// do not make it the owner of that content.
pub proof fn lemma_apply_all_needs_a_claim(
    state: RuntimeState,
    extrinsics: Seq<Extrinsic>,
    who: Seq<char>,
    content: Seq<char>,
)
    requires
        none_claims(extrinsics, who, content),
        state.proof_of_existence.owner_of(content) != Some(who),
    ensures
        state.apply_all(extrinsics).proof_of_existence.owner_of(content) != Some(who),
    decreases extrinsics.len(),
{
    if extrinsics.len() > 0 {
        let earlier = extrinsics.drop_last();
        let last = extrinsics[extrinsics.len() - 1];
        assert forall|i: int| 0 <= i < earlier.len() implies !((#[trigger] earlier[i]).caller@
            == who && earlier[i].call.claims(content)) by {
            assert(earlier[i] == extrinsics[i]);
        }
        lemma_apply_all_needs_a_claim(state, earlier, who, content);
        assert(!(last.caller@ == who && last.call.claims(content)));
    }
}

/// Extrinsics of which none moves funds from an account to itself leave the
/// total of all funds as it was.
pub proof fn lemma_apply_all_conserves_funds(state: RuntimeState, extrinsics: Seq<Extrinsic>)
    requires
        state.balances.finite(),
        none_to_self(extrinsics),
    ensures
        state.apply_all(extrinsics).balances.finite(),
        state.apply_all(extrinsics).balances.total() == state.balances.total(),
    decreases extrinsics.len(),
{
    if extrinsics.len() > 0 {
        let earlier = extrinsics.drop_last();
        let last = extrinsics[extrinsics.len() - 1];
        assert forall|i: int| 0 <= i < earlier.len() implies !(#[trigger] earlier[i]).call.credits(
            earlier[i].caller@,
        ) by {
            assert(earlier[i] == extrinsics[i]);
        }
        lemma_apply_all_conserves_funds(state, earlier);
        assert(!last.call.credits(last.caller@));
        match last.call {
            RuntimeCall::Balances(balances::Call::Transfer { to, amount }) => {
                balances::lemma_transfer_total(
                    state.apply_all(earlier).balances,
                    last.caller@,
                    to@,
                    amount as nat,
                );
            },
            RuntimeCall::ProofOfExistence(_) => {},
        }
    }
}

/// A block of which no extrinsic moves funds from an account to itself
/// leaves the total of all funds as it was.
pub proof fn lemma_block_conserves_funds(state: RuntimeState, block: Block)
    requires
        state.balances.finite(),
        none_to_self(block.extrinsics@),
    ensures
        state.execute_block(block).balances.finite(),
        state.execute_block(block).balances.total() == state.balances.total(),
{
    let started = RuntimeState { system: state.system.inc_block_number(), ..state };
    lemma_apply_all_conserves_funds(started, block.extrinsics@);
}

/// Executing a block raises the block number by one, whether the block is
/// accepted or not, and the block is accepted exactly when its header carries
/// the raised number.
pub proof fn lemma_block_number_advances(state: RuntimeState, block: Block)
    ensures
        state.execute_block(block).system.block_number == state.system.block_number + 1,
        state.execute_block_result(block).is_ok() <==> block.header.block_number
            == state.system.block_number + 1,
{
    let started = RuntimeState { system: state.system.inc_block_number(), ..state };
    lemma_apply_all_counts(started, block.extrinsics@, Seq::empty());
}

/// A block whose header carries another number than the next is refused as a
/// whole: the error names the number that was expected and the number that
/// came, no extrinsic is applied or reported, and nothing but the block
/// number has changed.
pub proof fn lemma_refused_block_applies_nothing(state: RuntimeState, block: Block)
    requires
        block.header.block_number != state.system.block_number + 1,
    ensures
        state.execute_block_result(block) == Err::<(), DispatchError>(
            DispatchError::BlockNumberMismatch {
                expected: (state.system.block_number + 1) as BlockNumber,
                got: block.header.block_number,
            },
        ),
        state.execute_block(block).system.block_number == state.system.block_number + 1,
        state.execute_block(block).system.nonce == state.system.nonce,
        state.execute_block(block).balances == state.balances,
        state.execute_block(block).proof_of_existence == state.proof_of_existence,
        state.execute_block_failures(block) == Seq::<ExtrinsicFailure>::empty(),
{
}

/// An accepted block raises the nonce of each account by the number of
/// extrinsics that the account submitted in it, whether their calls were
/// accepted or refused; a refused block raises no nonce.
pub proof fn lemma_block_counts_submissions(state: RuntimeState, block: Block, who: Seq<char>)
    ensures
        state.execute_block_result(block).is_ok() ==> state.execute_block(
            block,
        ).system.nonce_of(who) == state.system.nonce_of(who) + submissions(
            block.extrinsics@,
            who,
        ),
        state.execute_block_result(block).is_err() ==> state.execute_block(
            block,
        ).system.nonce_of(who) == state.system.nonce_of(who),
{
    let started = RuntimeState { system: state.system.inc_block_number(), ..state };
    lemma_apply_all_counts(started, block.extrinsics@, who);
}

/// A block that carries `k` extrinsics, all of them submitted by an account
/// that has submitted none before, leaves the nonce of that account at `k`.
pub proof fn lemma_first_block_of_an_account(state: RuntimeState, block: Block, who: Seq<char>)
    requires
        state.execute_block_result(block).is_ok(),
        state.system.nonce_of(who) == 0,
        forall|i: int|
            0 <= i < block.extrinsics@.len() ==> (#[trigger] block.extrinsics@[i]).caller@ == who,
    ensures
        state.execute_block(block).system.nonce_of(who) == block.extrinsics@.len(),
{
    lemma_block_counts_submissions(state, block, who);
    lemma_submissions_of_sole_caller(block.extrinsics@, who);
}

/// Where every extrinsic was submitted by one account, that account has
/// submitted as many as there are.
proof fn lemma_submissions_of_sole_caller(extrinsics: Seq<Extrinsic>, who: Seq<char>)
    requires
        forall|i: int| 0 <= i < extrinsics.len() ==> (#[trigger] extrinsics[i]).caller@ == who,
    ensures
        submissions(extrinsics, who) == extrinsics.len(),
    decreases extrinsics.len(),
{
    if extrinsics.len() > 0 {
        let earlier = extrinsics.drop_last();
        assert forall|i: int| 0 <= i < earlier.len() implies (#[trigger] earlier[i]).caller@
            == who by {
            assert(earlier[i] == extrinsics[i]);
        }
        lemma_submissions_of_sole_caller(earlier, who);
        assert(extrinsics[extrinsics.len() - 1].caller@ == who);
    }
}

/// The state after each of `blocks` has been executed in turn, first to last.
pub open spec fn execute_blocks(state: RuntimeState, blocks: Seq<Block>) -> RuntimeState
    decreases blocks.len(),
{
    if blocks.len() == 0 {
        state
    } else {
        execute_blocks(state, blocks.drop_last()).execute_block(blocks.last())
    }
}

/// The headers of `blocks` carry the numbers that follow `last`, one by one.
pub open spec fn numbered_after(blocks: Seq<Block>, last: nat) -> bool {
    forall|i: int|
        0 <= i < blocks.len() ==> (#[trigger] blocks[i]).header.block_number == last + i + 1
}

/// No extrinsic of `blocks` asks to give funds to `who`.
pub open spec fn never_credited(blocks: Seq<Block>, who: Seq<char>) -> bool {
    forall|i: int| 0 <= i < blocks.len() ==> none_credits((#[trigger] blocks[i]).extrinsics@, who)
}

/// No extrinsic of `blocks` is a claim of `who` on `content`.
pub open spec fn never_claimed(blocks: Seq<Block>, who: Seq<char>, content: Seq<char>) -> bool {
    forall|i: int|
        0 <= i < blocks.len() ==> none_claims((#[trigger] blocks[i]).extrinsics@, who, content)
}

/// No extrinsic of `blocks` asks to move funds from an account to itself.
pub open spec fn never_to_self(blocks: Seq<Block>) -> bool {
    forall|i: int| 0 <= i < blocks.len() ==> none_to_self((#[trigger] blocks[i]).extrinsics@)
}

/// Each block raises the block number by one, accepted or not.
pub proof fn lemma_each_block_counts(state: RuntimeState, blocks: Seq<Block>)
    ensures
        execute_blocks(state, blocks).system.block_number == state.system.block_number
            + blocks.len(),
    decreases blocks.len(),
{
    if blocks.len() > 0 {
        lemma_each_block_counts(state, blocks.drop_last());
        lemma_block_number_advances(execute_blocks(state, blocks.drop_last()), blocks.last());
    }
}

/// Blocks whose headers carry the numbers that follow the current block
/// number, one by one, are all accepted, and leave the block number raised by
/// their count: from block number zero, blocks numbered 1 to N leave it at N.
pub proof fn lemma_sequential_blocks_are_accepted(state: RuntimeState, blocks: Seq<Block>)
    requires
        numbered_after(blocks, state.system.block_number),
    ensures
        execute_blocks(state, blocks).system.block_number == state.system.block_number
            + blocks.len(),
        forall|i: int|
            0 <= i < blocks.len() ==> execute_blocks(state, #[trigger] blocks.take(i))
                .execute_block_result(blocks[i]).is_ok(),
{
    lemma_each_block_counts(state, blocks);
    assert forall|i: int| 0 <= i < blocks.len() implies execute_blocks(
        state,
        #[trigger] blocks.take(i),
    ).execute_block_result(blocks[i]).is_ok() by {
        lemma_each_block_counts(state, blocks.take(i));
    }
}

/// After a run of blocks, a block whose header skips a number is refused as
/// a whole. The error names the number that was due and the number that came.
/// No extrinsic of the block is applied: balances, claims and nonces are as
/// the run left them. The block number is raised all the same.
pub proof fn lemma_skipping_block_is_refused(
    state: RuntimeState,
    blocks: Seq<Block>,
    late: Block,
)
    requires
        late.header.block_number == state.system.block_number + blocks.len() + 2,
    ensures
        ({
            let before = execute_blocks(state, blocks);
            let after = before.execute_block(late);
            &&& before.execute_block_result(late) == Err::<(), DispatchError>(
                DispatchError::BlockNumberMismatch {
                    expected: (late.header.block_number - 1) as BlockNumber,
                    got: late.header.block_number,
                },
            )
            &&& after.system.block_number == before.system.block_number + 1
            &&& after.system.nonce == before.system.nonce
            &&& after.balances == before.balances
            &&& after.proof_of_existence == before.proof_of_existence
        }),
{
    lemma_each_block_counts(state, blocks);
    lemma_refused_block_applies_nothing(execute_blocks(state, blocks), late);
}

/// An account that no extrinsic credits ends a run of blocks with no more
/// funds than it began with. An account that was never credited holds
/// nothing.
pub proof fn lemma_funds_come_from_credits(
    state: RuntimeState,
    blocks: Seq<Block>,
    who: Seq<char>,
)
    requires
        never_credited(blocks, who),
    ensures
        execute_blocks(state, blocks).balances.balance_of(who) <= state.balances.balance_of(who),
        state.balances.balance_of(who) == 0 ==> execute_blocks(state, blocks).balances.balance_of(
            who,
        ) == 0,
    decreases blocks.len(),
{
    if blocks.len() > 0 {
        let earlier = blocks.drop_last();
        let last = blocks[blocks.len() - 1];
        assert forall|i: int| 0 <= i < earlier.len() implies none_credits(
            (#[trigger] earlier[i]).extrinsics@,
            who,
        ) by {
            assert(earlier[i] == blocks[i]);
        }
        lemma_funds_come_from_credits(state, earlier, who);
        let before = execute_blocks(state, earlier);
        let started = RuntimeState { system: before.system.inc_block_number(), ..before };
        assert(none_credits(last.extrinsics@, who));
        lemma_apply_all_needs_a_credit(started, last.extrinsics@, who);
    }
}

/// An account that never claims a piece of content, and does not own it at
/// the start, does not own it after a run of blocks.
pub proof fn lemma_ownership_comes_from_claims(
    state: RuntimeState,
    blocks: Seq<Block>,
    who: Seq<char>,
    content: Seq<char>,
)
    requires
        never_claimed(blocks, who, content),
        state.proof_of_existence.owner_of(content) != Some(who),
    ensures
        execute_blocks(state, blocks).proof_of_existence.owner_of(content) != Some(who),
    decreases blocks.len(),
{
    if blocks.len() > 0 {
        let earlier = blocks.drop_last();
        let last = blocks[blocks.len() - 1];
        assert forall|i: int| 0 <= i < earlier.len() implies none_claims(
            (#[trigger] earlier[i]).extrinsics@,
            who,
            content,
        ) by {
            assert(earlier[i] == blocks[i]);
        }
        lemma_ownership_comes_from_claims(state, earlier, who, content);
        let before = execute_blocks(state, earlier);
        let started = RuntimeState { system: before.system.inc_block_number(), ..before };
        assert(none_claims(last.extrinsics@, who, content));
        lemma_apply_all_needs_a_claim(started, last.extrinsics@, who, content);
    }
}

/// Blocks move funds and make none: where no extrinsic moves funds from an
/// account to itself, the total of all funds after a run of blocks is the
/// total before it.
pub proof fn lemma_blocks_conserve_funds(state: RuntimeState, blocks: Seq<Block>)
    requires
        state.balances.finite(),
        never_to_self(blocks),
    ensures
        execute_blocks(state, blocks).balances.finite(),
        execute_blocks(state, blocks).balances.total() == state.balances.total(),
    decreases blocks.len(),
{
    if blocks.len() > 0 {
        let earlier = blocks.drop_last();
        assert forall|i: int| 0 <= i < earlier.len() implies none_to_self(
            (#[trigger] earlier[i]).extrinsics@,
        ) by {
            assert(earlier[i] == blocks[i]);
        }
        lemma_blocks_conserve_funds(state, earlier);
        assert(none_to_self(blocks[blocks.len() - 1].extrinsics@));
        lemma_block_conserves_funds(execute_blocks(state, earlier), blocks.last());
    }
}

/// From the state before any block, an account that no extrinsic credits
/// holds nothing, and content that an account never claimed is not owned by
/// it.
pub proof fn lemma_nothing_comes_from_nothing(
    blocks: Seq<Block>,
    who: Seq<char>,
    content: Seq<char>,
)
    ensures
        never_credited(blocks, who) ==> execute_blocks(
            RuntimeState::genesis(),
            blocks,
        ).balances.balance_of(who) == 0,
        never_claimed(blocks, who, content) ==> execute_blocks(
            RuntimeState::genesis(),
            blocks,
        ).proof_of_existence.owner_of(content) != Some(who),
{
    if never_credited(blocks, who) {
        lemma_funds_come_from_credits(RuntimeState::genesis(), blocks, who);
    }
    if never_claimed(blocks, who, content) {
        lemma_ownership_comes_from_claims(RuntimeState::genesis(), blocks, who, content);
    }
}

} // verus!
