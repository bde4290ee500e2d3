//! The balances ledger: the funds of each account, and transfers between
//! accounts.

use crate::numeric::{checked_add_u128, checked_sub_u128, zero_u128};
use crate::storage::StorageMap;
use crate::support::{Dispatch, DispatchError, DispatchResult};
use crate::types::{AccountId, Balance};
use vstd::prelude::*;

verus! {

/// The balances ledger as a mathematical value: the funds of each account
/// that has been credited.
pub struct BalancesState {
    pub balances: Map<Seq<char>, nat>,
}

impl BalancesState {
    /// The ledger in which no account has been credited.
    pub open spec fn empty() -> Self {
        BalancesState { balances: Map::empty() }
    }

    /// The funds of `who`: zero for an account that was never credited.
    pub open spec fn balance_of(self, who: Seq<char>) -> nat {
        if self.balances.contains_key(who) {
            self.balances[who]
        } else {
            0
        }
    }

    /// The ledger after the funds of `who` have been set to `amount`.
    pub open spec fn set_balance(self, who: Seq<char>, amount: nat) -> Self {
        BalancesState { balances: self.balances.insert(who, amount) }
    }

    /// What `transfer` answers. The caller must hold the amount, and the
    /// recipient's funds must stay within the range of `Balance`.
    pub open spec fn transfer_result(self, caller: Seq<char>, to: Seq<char>, amount: nat)
        -> DispatchResult {
        if self.balance_of(caller) < amount {
            Err(DispatchError::InsufficientBalance)
        } else if self.balance_of(to) + amount > Balance::MAX {
            Err(DispatchError::Overflow)
        } else {
            Ok(())
        }
    }

    /// The ledger after `transfer`. An accepted transfer debits the caller and
    /// then credits the recipient, both from the funds that they held before
    /// the call; a refused transfer changes nothing.
    pub open spec fn transfer(self, caller: Seq<char>, to: Seq<char>, amount: nat) -> Self {
        if self.transfer_result(caller, to, amount).is_ok() {
            BalancesState {
                balances: self.balances.insert(
                    caller,
                    (self.balance_of(caller) - amount) as nat,
                ).insert(to, self.balance_of(to) + amount),
            }
        } else {
            self
        }
    }

    /// What dispatching `call` for `caller` answers.
    pub open spec fn dispatch_result(self, caller: Seq<char>, call: Call) -> DispatchResult {
        match call {
            Call::Transfer { to, amount } => self.transfer_result(caller, to@, amount as nat),
        }
    }

    /// The ledger records finitely many accounts, as every ledger in memory
    /// does.
    pub open spec fn finite(self) -> bool {
        self.balances.dom().finite()
    }

    /// All the funds that the ledger holds.
    pub open spec fn total(self) -> nat {
        sum_of(self.balances)
    }

    /// The ledger after dispatching `call` for `caller`.
    pub open spec fn dispatch(self, caller: Seq<char>, call: Call) -> Self {
        match call {
            Call::Transfer { to, amount } => self.transfer(caller, to@, amount as nat),
        }
    }
}

/// The sum of the funds that `balances` records, over its finitely many
/// accounts.
pub open spec fn sum_of(balances: Map<Seq<char>, nat>) -> nat
    decreases balances.dom().len(),
{
    if balances.dom().finite() && balances.dom().len() > 0 {
        let who = balances.dom().choose();
        balances[who] + sum_of(balances.remove(who))
    } else {
        0
    }
}

/// The sum of the funds can be taken starting from any account.
proof fn lemma_sum_from(balances: Map<Seq<char>, nat>, who: Seq<char>)
    requires
        balances.dom().finite(),
        balances.contains_key(who),
    ensures
        sum_of(balances) == balances[who] + sum_of(balances.remove(who)),
    decreases balances.dom().len(),
{
    let first = balances.dom().choose();
    if first != who {
        lemma_sum_from(balances.remove(first), who);
        lemma_sum_from(balances.remove(who), first);
        assert(balances.remove(first).remove(who) =~= balances.remove(who).remove(first));
    }
}

/// Setting the funds of one account changes the sum by the difference.
proof fn lemma_sum_after_insert(balances: Map<Seq<char>, nat>, who: Seq<char>, funds: nat)
    requires
        balances.dom().finite(),
    ensures
        sum_of(balances.insert(who, funds)) + (BalancesState { balances }).balance_of(who)
            == sum_of(balances) + funds,
{
    let after = balances.insert(who, funds);
    lemma_sum_from(after, who);
    assert(after.remove(who) =~= balances.remove(who));
    if balances.contains_key(who) {
        lemma_sum_from(balances, who);
    } else {
        assert(balances.remove(who) =~= balances);
    }
}

/// A ledger in which no account was credited holds no funds for anyone.
pub proof fn lemma_empty_ledger_holds_nothing(who: Seq<char>)
    ensures
        BalancesState::empty().balance_of(who) == 0,
{
}

/// An accepted transfer between two different accounts takes the amount from
/// the caller and gives it to the recipient: what the two hold together is
/// what they held together before, and no other account is touched.
pub proof fn lemma_transfer_conserves(
    ledger: BalancesState,
    caller: Seq<char>,
    to: Seq<char>,
    amount: nat,
)
    requires
        caller != to,
        ledger.transfer_result(caller, to, amount).is_ok(),
    ensures
        ledger.transfer(caller, to, amount).balance_of(caller) == ledger.balance_of(caller)
            - amount,
        ledger.transfer(caller, to, amount).balance_of(to) == ledger.balance_of(to) + amount,
        ledger.transfer(caller, to, amount).balance_of(caller) + ledger.transfer(
            caller,
            to,
            amount,
        ).balance_of(to) == ledger.balance_of(caller) + ledger.balance_of(to),
        forall|other: Seq<char>|
            other != caller && other != to ==> ledger.transfer(caller, to, amount).balance_of(
                other,
            ) == ledger.balance_of(other),
{
}

/// A transfer of more than the caller holds is refused for want of funds, and
/// leaves the ledger as it was.
pub proof fn lemma_transfer_needs_funds(
    ledger: BalancesState,
    caller: Seq<char>,
    to: Seq<char>,
    amount: nat,
)
    requires
        amount > ledger.balance_of(caller),
    ensures
        ledger.transfer_result(caller, to, amount) == Err::<(), DispatchError>(
            DispatchError::InsufficientBalance,
        ),
        ledger.transfer(caller, to, amount) == ledger,
{
}

/// A transfer is accepted exactly when the caller holds the amount and the
/// recipient's funds stay within the range of `Balance`; a refused transfer
/// changes nothing.
pub proof fn lemma_transfer_outcomes(
    ledger: BalancesState,
    caller: Seq<char>,
    to: Seq<char>,
    amount: nat,
)
    ensures
        ledger.transfer_result(caller, to, amount).is_ok() <==> amount <= ledger.balance_of(caller)
            && ledger.balance_of(to) + amount <= Balance::MAX,
        ledger.transfer_result(caller, to, amount).is_err() ==> ledger.transfer(caller, to, amount)
            == ledger,
{
}

/// Seeding an account changes the total by what the account gains or loses.
pub proof fn lemma_set_balance_total(ledger: BalancesState, who: Seq<char>, amount: nat)
    requires
        ledger.finite(),
    ensures
        ledger.set_balance(who, amount).finite(),
        ledger.set_balance(who, amount).total() + ledger.balance_of(who) == ledger.total()
            + amount,
{
    lemma_sum_after_insert(ledger.balances, who, amount);
}

/// A transfer between two different accounts leaves the total of all funds
/// as it was, accepted or not. An accepted transfer of an account to itself
/// credits the funds that the account held before the debit, and so raises
/// the total by the amount.
pub proof fn lemma_transfer_total(
    ledger: BalancesState,
    caller: Seq<char>,
    to: Seq<char>,
    amount: nat,
)
    requires
        ledger.finite(),
    ensures
        ledger.transfer(caller, to, amount).finite(),
        ledger.transfer(caller, to, amount).total() == ledger.total() + if caller == to
            && ledger.transfer_result(caller, to, amount).is_ok() {
            amount
        } else {
            0
        },
{
    if ledger.transfer_result(caller, to, amount).is_ok() {
        let debited = ledger.balances.insert(caller, (ledger.balance_of(caller) - amount) as nat);
        lemma_sum_after_insert(
            ledger.balances,
            caller,
            (ledger.balance_of(caller) - amount) as nat,
        );
        lemma_sum_after_insert(debited, to, ledger.balance_of(to) + amount);
    }
}

/// A call gives funds to nobody but the account that it credits.
pub proof fn lemma_funds_need_a_credit(
    ledger: BalancesState,
    caller: Seq<char>,
    call: Call,
    who: Seq<char>,
)
    requires
        !call.credits(who),
    ensures
        ledger.dispatch(caller, call).balance_of(who) <= ledger.balance_of(who),
{
}

/// The balances ledger.
#[derive(Debug)]
pub struct Pallet {
    balances: StorageMap<Balance>,
}

impl View for Pallet {
    type V = BalancesState;

    closed spec fn view(&self) -> BalancesState {
        BalancesState {
            balances: Map::new(
                |who: Seq<char>| self.balances@.contains_key(who),
                |who: Seq<char>| self.balances@[who] as nat,
            ),
        }
    }
}

/// The calls that the balances ledger takes.
#[derive(Debug)]
pub enum Call {
    /// Move `amount` from the caller to `to`.
    Transfer { to: AccountId, amount: Balance },
}

impl Call {
    /// The call asks to give funds to `who`.
    pub open spec fn credits(self, who: Seq<char>) -> bool {
        match self {
            Call::Transfer { to, .. } => to@ == who,
        }
    }
}

impl Pallet {
    /// A ledger in memory records finitely many accounts, and funds within
    /// the range of `Balance`.
    pub proof fn lemma_in_range(&self)
        ensures
            self@.finite(),
            forall|who: Seq<char>| #[trigger] self@.balance_of(who) <= Balance::MAX,
    {
        self.balances.lemma_finite();
        assert(self@.balances.dom() =~= self.balances@.dom());
    }

    /// A ledger in which no account has been credited.
    pub fn new() -> (pallet: Self)
        ensures
            pallet@ == BalancesState::empty(),
    {
        let pallet = Pallet { balances: StorageMap::new() };
        assert(pallet@.balances =~= Map::empty());
        pallet
    }

    /// Sets the funds of `who` to `amount`, whatever they were.
    ///
    /// Nothing is asked of the caller: this is for seeding the ledger before
    /// the first block.
    pub fn set_balance(&mut self, who: &AccountId, amount: Balance)
        ensures
            final(self)@ == old(self)@.set_balance(who@, amount as nat),
    {
        self.balances.insert(who.clone(), amount);
        assert(self@.balances =~= old(self)@.balances.insert(who@, amount as nat));
    }

    /// The funds of `who`: zero for an account that was never credited.
    pub fn balance(&self, who: &AccountId) -> (funds: Balance)
        ensures
            funds == self@.balance_of(who@),
    {
        match self.balances.get(who) {
            Some(funds) => *funds,
            None => zero_u128(),
        }
    }

    /// Moves `amount` from `caller` to `to`.
    ///
    /// The transfer is refused, and nothing changes, when the caller holds
    /// less than `amount` or when the funds of `to` would overflow.
    pub fn transfer(&mut self, caller: AccountId, to: AccountId, amount: Balance) -> (r:
        DispatchResult)
        ensures
            r == old(self)@.transfer_result(caller@, to@, amount as nat),
            final(self)@ == old(self)@.transfer(caller@, to@, amount as nat),
    {
        let caller_balance = self.balance(&caller);
        let to_balance = self.balance(&to);
        let new_caller_balance = match checked_sub_u128(&caller_balance, &amount) {
            Some(funds) => funds,
            None => {
                return Err(DispatchError::InsufficientBalance);
            },
        };
        let new_to_balance = match checked_add_u128(&to_balance, &amount) {
            Some(funds) => funds,
            None => {
                return Err(DispatchError::Overflow);
            },
        };
        self.balances.insert(caller, new_caller_balance);
        self.balances.insert(to, new_to_balance);
        assert(self@.balances =~= old(self)@.transfer(caller@, to@, amount as nat).balances);
        Ok(())
    }
}

impl Dispatch for Pallet {
    type Caller = AccountId;

    type Call = Call;

    /// Routes `call` to the operation that it names.
    fn dispatch(&mut self, caller: AccountId, call: Call) -> (r: DispatchResult)
        ensures
            r == old(self)@.dispatch_result(caller@, call),
            final(self)@ == old(self)@.dispatch(caller@, call),
    {
        match call {
            Call::Transfer { to, amount } => self.transfer(caller, to, amount),
        }
    }
}

} // verus!
