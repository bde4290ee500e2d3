use state_machine::balances;
use state_machine::proof_of_existence;
use state_machine::runtime::ExtrinsicFailure;
use state_machine::support::{Block, Dispatch, DispatchError, Extrinsic, Header};
use state_machine::types;
use state_machine::{Runtime, RuntimeCall};

fn transfer(caller: &str, to: &str, amount: u128) -> types::Extrinsic {
    Extrinsic {
        caller: caller.to_string(),
        call: RuntimeCall::Balances(balances::Call::Transfer { to: to.to_string(), amount }),
    }
}

fn create_claim(caller: &str, claim: &str) -> types::Extrinsic {
    Extrinsic {
        caller: caller.to_string(),
        call: RuntimeCall::ProofOfExistence(proof_of_existence::Call::CreateClaim {
            claim: claim.to_string(),
        }),
    }
}

fn revoke_claim(caller: &str, claim: &str) -> types::Extrinsic {
    Extrinsic {
        caller: caller.to_string(),
        call: RuntimeCall::ProofOfExistence(proof_of_existence::Call::RevokeClaim {
            claim: claim.to_string(),
        }),
    }
}

fn block(block_number: u32, extrinsics: Vec<types::Extrinsic>) -> types::Block {
    Block { header: Header { block_number }, extrinsics }
}

#[test]
fn new_runtime_is_empty() {
    let runtime = Runtime::new();
    let alice = "alice".to_string();
    assert_eq!(runtime.system.block_number(), 0);
    assert_eq!(runtime.system.nonce(&alice), 0);
    assert_eq!(runtime.balances.balance(&alice), 0);
    assert_eq!(runtime.proof_of_existence.get_claim(&"hola".to_string()), None);
}

#[test]
fn end_to_end_scenario() {
    let mut runtime = Runtime::new();
    let alice = "alice".to_string();
    let bob = "bob".to_string();
    let charlie = "charlie".to_string();
    let hola = "hola".to_string();

    runtime.balances.set_balance(&alice, 100);

    let block_1 = block(1, vec![transfer("alice", "bob", 30), transfer("alice", "charlie", 20)]);
    assert_eq!(runtime.execute_block(block_1), Ok(()));
    assert_eq!(runtime.balances.balance(&alice), 50);
    assert_eq!(runtime.balances.balance(&bob), 30);
    assert_eq!(runtime.balances.balance(&charlie), 20);
    assert_eq!(runtime.system.block_number(), 1);
    assert_eq!(runtime.system.nonce(&alice), 2);

    let block_2 = block(2, vec![create_claim("alice", "hola")]);
    assert_eq!(runtime.execute_block(block_2), Ok(()));
    assert_eq!(runtime.proof_of_existence.get_claim(&hola), Some(&alice));
    assert_eq!(runtime.system.block_number(), 2);

    let block_3 = block(3, vec![create_claim("alice", "hola")]);
    assert_eq!(
        runtime.execute_block_reporting(block_3),
        Ok(vec![ExtrinsicFailure {
            block_number: 3,
            index: 0,
            error: DispatchError::AlreadyClaimed
        }])
    );
    assert_eq!(runtime.proof_of_existence.get_claim(&hola), Some(&alice));
    assert_eq!(runtime.balances.balance(&alice), 50);
    assert_eq!(runtime.balances.balance(&bob), 30);
    assert_eq!(runtime.balances.balance(&charlie), 20);
    assert_eq!(runtime.system.block_number(), 3);

    let block_4 = block(4, vec![revoke_claim("alice", "hola")]);
    assert_eq!(runtime.execute_block(block_4), Ok(()));
    assert_eq!(runtime.proof_of_existence.get_claim(&hola), None);
    assert_eq!(runtime.system.block_number(), 4);
    assert_eq!(runtime.system.nonce(&alice), 5);
}

#[test]
fn block_with_a_refused_extrinsic_still_succeeds() {
    let mut runtime = Runtime::new();
    let alice = "alice".to_string();
    runtime.balances.set_balance(&alice, 100);
    assert_eq!(runtime.execute_block(block(1, vec![create_claim("alice", "hola")])), Ok(()));
    assert_eq!(runtime.execute_block(block(2, vec![create_claim("alice", "hola")])), Ok(()));
    assert_eq!(runtime.system.block_number(), 2);
    assert_eq!(runtime.system.nonce(&alice), 2);
    assert_eq!(runtime.proof_of_existence.get_claim(&"hola".to_string()), Some(&alice));
}

#[test]
fn nonce_counts_every_extrinsic_of_the_caller() {
    let mut runtime = Runtime::new();
    let alice = "alice".to_string();
    let bob = "bob".to_string();
    runtime.balances.set_balance(&alice, 10);
    let extrinsics = vec![
        transfer("alice", "bob", 5),
        transfer("alice", "bob", 50),
        create_claim("alice", "doc"),
        create_claim("alice", "doc"),
        revoke_claim("alice", "none"),
    ];
    assert_eq!(
        runtime.execute_block_reporting(block(1, extrinsics)),
        Ok(vec![
            ExtrinsicFailure {
                block_number: 1,
                index: 1,
                error: DispatchError::InsufficientBalance
            },
            ExtrinsicFailure { block_number: 1, index: 3, error: DispatchError::AlreadyClaimed },
            ExtrinsicFailure { block_number: 1, index: 4, error: DispatchError::ClaimNotFound },
        ])
    );
    assert_eq!(runtime.system.nonce(&alice), 5);
    assert_eq!(runtime.system.nonce(&bob), 0);
    assert_eq!(runtime.system.get_nonce(&bob), None);
    assert_eq!(runtime.balances.balance(&alice), 5);
    assert_eq!(runtime.balances.balance(&bob), 5);
}

#[test]
fn sequential_blocks_count_up() {
    let mut runtime = Runtime::new();
    for number in 1..=10u32 {
        assert_eq!(runtime.execute_block(block(number, vec![])), Ok(()));
        assert_eq!(runtime.system.block_number(), number);
    }
    assert_eq!(runtime.system.block_number(), 10);
}

#[test]
fn block_that_skips_a_number_is_refused() {
    let mut runtime = Runtime::new();
    let alice = "alice".to_string();
    let bob = "bob".to_string();
    runtime.balances.set_balance(&alice, 100);
    for number in 1..=3u32 {
        assert_eq!(runtime.execute_block(block(number, vec![])), Ok(()));
    }
    let late = block(5, vec![transfer("alice", "bob", 30), create_claim("alice", "hola")]);
    assert_eq!(
        runtime.execute_block(late),
        Err(DispatchError::BlockNumberMismatch { expected: 4, got: 5 })
    );
    assert_eq!(runtime.balances.balance(&alice), 100);
    assert_eq!(runtime.balances.balance(&bob), 0);
    assert_eq!(runtime.proof_of_existence.get_claim(&"hola".to_string()), None);
    assert_eq!(runtime.system.nonce(&alice), 0);
    assert_eq!(runtime.system.get_nonce(&alice), None);
    assert_eq!(runtime.system.block_number(), 4);
}

#[test]
fn refused_block_reports_its_reason() {
    let mut runtime = Runtime::new();
    let refused = runtime.execute_block_reporting(block(0, vec![transfer("alice", "bob", 0)]));
    assert_eq!(refused, Err(DispatchError::BlockNumberMismatch { expected: 1, got: 0 }));
    assert_eq!(
        runtime.execute_block(block(7, vec![])).map_err(|e| e.message()),
        Err("block number does not match what is expected")
    );
    assert_eq!(runtime.system.block_number(), 2);
    assert_eq!(runtime.execute_block(block(3, vec![])), Ok(()));
}

#[test]
fn later_extrinsics_see_earlier_ones() {
    let mut runtime = Runtime::new();
    let alice = "alice".to_string();
    let bob = "bob".to_string();
    let charlie = "charlie".to_string();
    runtime.balances.set_balance(&alice, 10);
    let extrinsics = vec![
        transfer("bob", "charlie", 10),
        transfer("alice", "bob", 10),
        transfer("bob", "charlie", 10),
        create_claim("bob", "doc"),
        revoke_claim("charlie", "doc"),
        revoke_claim("bob", "doc"),
        create_claim("charlie", "doc"),
    ];
    assert_eq!(
        runtime.execute_block_reporting(block(1, extrinsics)),
        Ok(vec![
            ExtrinsicFailure {
                block_number: 1,
                index: 0,
                error: DispatchError::InsufficientBalance
            },
            ExtrinsicFailure { block_number: 1, index: 4, error: DispatchError::NotClaimOwner },
        ])
    );
    assert_eq!(runtime.balances.balance(&alice), 0);
    assert_eq!(runtime.balances.balance(&bob), 0);
    assert_eq!(runtime.balances.balance(&charlie), 10);
    assert_eq!(runtime.proof_of_existence.get_claim(&"doc".to_string()), Some(&charlie));
    assert_eq!(runtime.system.nonce(&alice), 1);
    assert_eq!(runtime.system.nonce(&bob), 4);
    assert_eq!(runtime.system.nonce(&charlie), 2);
}

#[test]
fn overflow_in_a_block_is_reported_and_isolated() {
    let mut runtime = Runtime::new();
    let alice = "alice".to_string();
    let bob = "bob".to_string();
    runtime.balances.set_balance(&alice, 10);
    runtime.balances.set_balance(&bob, u128::MAX - 5);
    let extrinsics = vec![transfer("alice", "bob", 6), transfer("alice", "bob", 5)];
    assert_eq!(
        runtime.execute_block_reporting(block(1, extrinsics)),
        Ok(vec![ExtrinsicFailure { block_number: 1, index: 0, error: DispatchError::Overflow }])
    );
    assert_eq!(runtime.balances.balance(&alice), 5);
    assert_eq!(runtime.balances.balance(&bob), u128::MAX);
}

#[test]
fn runtime_dispatch_routes_to_the_named_pallet() {
    let mut runtime = Runtime::new();
    let alice = "alice".to_string();
    let bob = "bob".to_string();
    runtime.balances.set_balance(&alice, 100);
    assert_eq!(runtime.dispatch(alice.clone(), transfer("alice", "bob", 30).call), Ok(()));
    assert_eq!(runtime.balances.balance(&alice), 70);
    assert_eq!(runtime.balances.balance(&bob), 30);
    assert_eq!(
        runtime.dispatch(bob.clone(), transfer("bob", "alice", 31).call),
        Err(DispatchError::InsufficientBalance)
    );
    assert_eq!(runtime.dispatch(bob.clone(), create_claim("bob", "doc").call), Ok(()));
    assert_eq!(runtime.proof_of_existence.get_claim(&"doc".to_string()), Some(&bob));
    assert_eq!(
        runtime.dispatch(alice.clone(), revoke_claim("alice", "doc").call),
        Err(DispatchError::NotClaimOwner)
    );
    assert_eq!(runtime.system.nonce(&alice), 0);
    assert_eq!(runtime.system.block_number(), 0);
    assert_eq!(runtime.balances.balance(&alice), 70);
}

#[test]
fn there_is_room_for_ordinary_blocks() {
    let mut runtime = Runtime::new();
    let first = block(1, vec![transfer("alice", "bob", 1), transfer("alice", "bob", 1)]);
    assert!(runtime.has_room_for(&first));
    assert_eq!(runtime.execute_block(first), Ok(()));
    let skipped = block(9, vec![create_claim("alice", "doc")]);
    assert!(runtime.has_room_for(&skipped));
    assert!(runtime.has_room_for(&block(2, vec![])));
}

#[test]
fn uncredited_account_holds_nothing_and_unclaimed_content_has_no_owner() {
    let mut runtime = Runtime::new();
    let alice = "alice".to_string();
    let dave = "dave".to_string();
    runtime.balances.set_balance(&alice, 100);
    let first = vec![
        transfer("alice", "bob", 30),
        transfer("dave", "bob", 1),
        create_claim("alice", "doc"),
        revoke_claim("dave", "doc"),
    ];
    assert_eq!(runtime.execute_block(block(1, first)), Ok(()));
    let second = vec![transfer("bob", "charlie", 10), create_claim("dave", "doc")];
    assert_eq!(runtime.execute_block(block(2, second)), Ok(()));
    assert_eq!(runtime.balances.balance(&dave), 0);
    assert_eq!(runtime.balances.balance(&"erin".to_string()), 0);
    assert_eq!(runtime.proof_of_existence.get_claim(&"doc".to_string()), Some(&alice));
    assert_eq!(runtime.proof_of_existence.get_claim(&"other".to_string()), None);
    assert_eq!(runtime.system.nonce(&dave), 3);
}

#[test]
fn blocks_move_funds_and_make_none() {
    let mut runtime = Runtime::new();
    let alice = "alice".to_string();
    let bob = "bob".to_string();
    let charlie = "charlie".to_string();
    runtime.balances.set_balance(&alice, 100);
    runtime.balances.set_balance(&bob, 50);
    let extrinsics = vec![
        transfer("alice", "bob", 30),
        transfer("bob", "charlie", 80),
        transfer("charlie", "alice", 81),
        transfer("charlie", "alice", 5),
    ];
    assert_eq!(
        runtime.execute_block_reporting(block(1, extrinsics)),
        Ok(vec![ExtrinsicFailure {
            block_number: 1,
            index: 2,
            error: DispatchError::InsufficientBalance
        }])
    );
    assert_eq!(runtime.balances.balance(&alice), 75);
    assert_eq!(runtime.balances.balance(&bob), 0);
    assert_eq!(runtime.balances.balance(&charlie), 75);
    assert_eq!(
        runtime.balances.balance(&alice)
            + runtime.balances.balance(&bob)
            + runtime.balances.balance(&charlie),
        150
    );
}

#[test]
fn empty_block_changes_only_the_block_number() {
    let mut runtime = Runtime::new();
    let alice = "alice".to_string();
    runtime.balances.set_balance(&alice, 100);
    assert_eq!(runtime.execute_block_reporting(block(1, vec![])), Ok(vec![]));
    assert_eq!(runtime.system.block_number(), 1);
    assert_eq!(runtime.system.get_nonce(&alice), None);
    assert_eq!(runtime.balances.balance(&alice), 100);
}
