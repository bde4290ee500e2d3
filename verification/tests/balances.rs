use state_machine::balances::{Call, Pallet};
use state_machine::support::{Dispatch, DispatchError};

#[test]
fn init_balances() {
    let mut balances = Pallet::new();
    let alice = "alice".to_string();
    let bob = "bob".to_string();
    assert_eq!(balances.balance(&alice), 0);
    balances.set_balance(&alice, 100);
    assert_eq!(balances.balance(&alice), 100);
    assert_eq!(balances.balance(&bob), 0);
}

#[test]
fn set_balance_overwrites() {
    let mut balances = Pallet::new();
    let alice = "alice".to_string();
    balances.set_balance(&alice, 100);
    balances.set_balance(&alice, 7);
    assert_eq!(balances.balance(&alice), 7);
    balances.set_balance(&alice, 0);
    assert_eq!(balances.balance(&alice), 0);
}

#[test]
fn transfer_balance() {
    let mut balances = Pallet::new();
    let alice = "alice".to_string();
    let bob = "bob".to_string();
    assert_eq!(
        balances.transfer(alice.clone(), bob.clone(), 51),
        Err(DispatchError::InsufficientBalance)
    );
    balances.set_balance(&alice, 100);
    assert_eq!(balances.transfer(alice.clone(), bob.clone(), 51), Ok(()));
    assert_eq!(balances.balance(&alice), 49);
    assert_eq!(balances.balance(&bob), 51);
    assert_eq!(
        balances.transfer(alice.clone(), bob.clone(), 51),
        Err(DispatchError::InsufficientBalance)
    );
    assert_eq!(balances.balance(&alice), 49);
    assert_eq!(balances.balance(&bob), 51);
}

#[test]
fn transfer_conserves_the_total() {
    let mut balances = Pallet::new();
    let alice = "alice".to_string();
    let bob = "bob".to_string();
    let charlie = "charlie".to_string();
    balances.set_balance(&alice, 1_000);
    balances.set_balance(&bob, 250);
    balances.set_balance(&charlie, 5);
    assert_eq!(balances.transfer(alice.clone(), bob.clone(), 300), Ok(()));
    assert_eq!(balances.balance(&alice), 700);
    assert_eq!(balances.balance(&bob), 550);
    assert_eq!(balances.balance(&alice) + balances.balance(&bob), 1_250);
    assert_eq!(balances.balance(&charlie), 5);
}

#[test]
fn transfer_of_the_whole_balance_and_of_nothing() {
    let mut balances = Pallet::new();
    let alice = "alice".to_string();
    let bob = "bob".to_string();
    balances.set_balance(&alice, 10);
    assert_eq!(balances.transfer(alice.clone(), bob.clone(), 0), Ok(()));
    assert_eq!(balances.balance(&alice), 10);
    assert_eq!(balances.balance(&bob), 0);
    assert_eq!(balances.transfer(alice.clone(), bob.clone(), 10), Ok(()));
    assert_eq!(balances.balance(&alice), 0);
    assert_eq!(balances.balance(&bob), 10);
    assert_eq!(balances.transfer(bob.clone(), alice.clone(), 0), Ok(()));
    assert_eq!(
        balances.transfer(alice.clone(), bob.clone(), 1),
        Err(DispatchError::InsufficientBalance)
    );
}

#[test]
fn transfer_beyond_the_balance_changes_nothing() {
    let mut balances = Pallet::new();
    let alice = "alice".to_string();
    let bob = "bob".to_string();
    balances.set_balance(&alice, 100);
    balances.set_balance(&bob, 3);
    assert_eq!(
        balances.transfer(alice.clone(), bob.clone(), 101),
        Err(DispatchError::InsufficientBalance)
    );
    assert_eq!(
        balances.transfer(alice.clone(), bob.clone(), 101).map_err(|e| e.message()),
        Err("Not enough funds.")
    );
    assert_eq!(balances.balance(&alice), 100);
    assert_eq!(balances.balance(&bob), 3);
}

#[test]
fn transfer_that_overflows_changes_nothing() {
    let mut balances = Pallet::new();
    let alice = "alice".to_string();
    let bob = "bob".to_string();
    balances.set_balance(&alice, 100);
    balances.set_balance(&bob, u128::MAX);
    assert_eq!(balances.transfer(alice.clone(), bob.clone(), 1), Err(DispatchError::Overflow));
    assert_eq!(
        balances.transfer(alice.clone(), bob.clone(), 1).map_err(|e| e.message()),
        Err("Overflow")
    );
    assert_eq!(balances.balance(&alice), 100);
    assert_eq!(balances.balance(&bob), u128::MAX);
    balances.set_balance(&bob, u128::MAX - 100);
    assert_eq!(balances.transfer(alice.clone(), bob.clone(), 100), Ok(()));
    assert_eq!(balances.balance(&alice), 0);
    assert_eq!(balances.balance(&bob), u128::MAX);
}

#[test]
fn want_of_funds_is_found_before_overflow() {
    let mut balances = Pallet::new();
    let alice = "alice".to_string();
    let bob = "bob".to_string();
    balances.set_balance(&alice, 1);
    balances.set_balance(&bob, u128::MAX);
    assert_eq!(
        balances.transfer(alice.clone(), bob.clone(), 2),
        Err(DispatchError::InsufficientBalance)
    );
}

#[test]
fn transfer_to_oneself_debits_then_credits() {
    let mut balances = Pallet::new();
    let alice = "alice".to_string();
    balances.set_balance(&alice, 100);
    assert_eq!(balances.transfer(alice.clone(), alice.clone(), 30), Ok(()));
    assert_eq!(balances.balance(&alice), 130);
    assert_eq!(
        balances.transfer(alice.clone(), alice.clone(), 131),
        Err(DispatchError::InsufficientBalance)
    );
    assert_eq!(balances.balance(&alice), 130);
    balances.set_balance(&alice, u128::MAX);
    assert_eq!(balances.transfer(alice.clone(), alice.clone(), 1), Err(DispatchError::Overflow));
    assert_eq!(balances.balance(&alice), u128::MAX);
    assert_eq!(balances.transfer(alice.clone(), alice.clone(), 0), Ok(()));
    assert_eq!(balances.balance(&alice), u128::MAX);
}

#[test]
fn balances_dispatch_routes_transfer() {
    let mut balances = Pallet::new();
    let alice = "alice".to_string();
    let bob = "bob".to_string();
    balances.set_balance(&alice, 100);
    assert_eq!(
        balances.dispatch(alice.clone(), Call::Transfer { to: bob.clone(), amount: 40 }),
        Ok(())
    );
    assert_eq!(balances.balance(&alice), 60);
    assert_eq!(balances.balance(&bob), 40);
    assert_eq!(
        balances.dispatch(alice.clone(), Call::Transfer { to: bob.clone(), amount: 61 }),
        Err(DispatchError::InsufficientBalance)
    );
    assert_eq!(balances.balance(&alice), 60);
    assert_eq!(balances.balance(&bob), 40);
}
