//! The claims registry: which account was first to claim a piece of content.

use crate::storage::StorageMap;
use crate::support::{Dispatch, DispatchError, DispatchResult};
use crate::types::{AccountId, Content};
use vstd::prelude::*;

verus! {

/// The registry as a mathematical value: the owner of each claimed content.
pub struct ClaimsState {
    pub claims: Map<Seq<char>, Seq<char>>,
}

impl ClaimsState {
    /// The registry in which nothing is claimed.
    pub open spec fn empty() -> Self {
        ClaimsState { claims: Map::empty() }
    }

    /// The owner of `claim`, if it has one.
    pub open spec fn owner_of(self, claim: Seq<char>) -> Option<Seq<char>> {
        if self.claims.contains_key(claim) {
            Some(self.claims[claim])
        } else {
            None
        }
    }

    /// What `create_claim` answers: content that has an owner cannot be
    /// claimed again.
    pub open spec fn create_claim_result(self, caller: Seq<char>, claim: Seq<char>)
        -> DispatchResult {
        if self.claims.contains_key(claim) {
            Err(DispatchError::AlreadyClaimed)
        } else {
            Ok(())
        }
    }

    /// The registry after `create_claim`: the caller owns the content if the
    /// call was accepted, and nothing has changed if it was refused.
    pub open spec fn create_claim(self, caller: Seq<char>, claim: Seq<char>) -> Self {
        if self.create_claim_result(caller, claim).is_ok() {
            ClaimsState { claims: self.claims.insert(claim, caller) }
        } else {
            self
        }
    }

    /// What `revoke_claim` answers: only the owner of a claim can revoke it.
    pub open spec fn revoke_claim_result(self, caller: Seq<char>, claim: Seq<char>)
        -> DispatchResult {
        if !self.claims.contains_key(claim) {
            Err(DispatchError::ClaimNotFound)
        } else if self.claims[claim] != caller {
            Err(DispatchError::NotClaimOwner)
        } else {
            Ok(())
        }
    }

    /// The registry after `revoke_claim`: the content has no owner if the call
    /// was accepted, and nothing has changed if it was refused.
    pub open spec fn revoke_claim(self, caller: Seq<char>, claim: Seq<char>) -> Self {
        if self.revoke_claim_result(caller, claim).is_ok() {
            ClaimsState { claims: self.claims.remove(claim) }
        } else {
            self
        }
    }

    /// What dispatching `call` for `caller` answers.
    pub open spec fn dispatch_result(self, caller: Seq<char>, call: Call) -> DispatchResult {
        match call {
            Call::CreateClaim { claim } => self.create_claim_result(caller, claim@),
            Call::RevokeClaim { claim } => self.revoke_claim_result(caller, claim@),
        }
    }

    /// The registry after dispatching `call` for `caller`.
    pub open spec fn dispatch(self, caller: Seq<char>, call: Call) -> Self {
        match call {
            Call::CreateClaim { claim } => self.create_claim(caller, claim@),
            Call::RevokeClaim { claim } => self.revoke_claim(caller, claim@),
        }
    }
}

/// In a registry in which nothing was claimed, no content has an owner.
pub proof fn lemma_empty_registry_owns_nothing(claim: Seq<char>)
    ensures
        ClaimsState::empty().owner_of(claim).is_none(),
{
}

/// The life of a claim. Content without an owner is claimed by the first
/// account that asks. While it is claimed, a second claim is refused and the
/// owner stays, and nobody but the owner can revoke it. Once the owner has
/// revoked it, it has no owner, and there is nothing left to revoke.
pub proof fn lemma_claim_lifecycle(
    registry: ClaimsState,
    owner: Seq<char>,
    other: Seq<char>,
    claim: Seq<char>,
)
    requires
        registry.owner_of(claim).is_none(),
        owner != other,
    ensures
        ({
            let claimed = registry.create_claim(owner, claim);
            let revoked = claimed.revoke_claim(owner, claim);
            &&& registry.create_claim_result(owner, claim).is_ok()
            &&& claimed.owner_of(claim) == Some(owner)
            &&& claimed.create_claim_result(other, claim) == Err::<(), DispatchError>(
                DispatchError::AlreadyClaimed,
            )
            &&& claimed.create_claim(other, claim) == claimed
            &&& claimed.revoke_claim_result(other, claim) == Err::<(), DispatchError>(
                DispatchError::NotClaimOwner,
            )
            &&& claimed.revoke_claim(other, claim) == claimed
            &&& claimed.revoke_claim_result(owner, claim).is_ok()
            &&& revoked.owner_of(claim).is_none()
            &&& revoked.revoke_claim_result(owner, claim) == Err::<(), DispatchError>(
                DispatchError::ClaimNotFound,
            )
            &&& revoked.revoke_claim(owner, claim) == revoked
        }),
{
}

/// A claim is created exactly when the content has no owner, and revoked
/// exactly when the caller owns the content. No call touches the owner of any
/// other content, and a refused call changes nothing.
pub proof fn lemma_claim_outcomes(registry: ClaimsState, caller: Seq<char>, claim: Seq<char>)
    ensures
        registry.create_claim_result(caller, claim).is_ok() <==> registry.owner_of(claim).is_none(),
        registry.revoke_claim_result(caller, claim).is_ok() <==> registry.owner_of(claim) == Some(
            caller,
        ),
        registry.create_claim_result(caller, claim).is_err() ==> registry.create_claim(
            caller,
            claim,
        ) == registry,
        registry.revoke_claim_result(caller, claim).is_err() ==> registry.revoke_claim(
            caller,
            claim,
        ) == registry,
        forall|content: Seq<char>|
            content != claim ==> registry.create_claim(caller, claim).owner_of(content)
                == registry.owner_of(content) && registry.revoke_claim(caller, claim).owner_of(
                content,
            ) == registry.owner_of(content),
{
}

/// Content comes to be owned by an account only through a claim that this
/// account creates on it.
pub proof fn lemma_ownership_needs_a_claim(
    registry: ClaimsState,
    caller: Seq<char>,
    call: Call,
    who: Seq<char>,
    content: Seq<char>,
)
    requires
        registry.owner_of(content) != Some(who),
        !(caller == who && call.claims(content)),
    ensures
        registry.dispatch(caller, call).owner_of(content) != Some(who),
{
}

/// The owner of a piece of content stays its owner until the owner revokes
/// the claim.
pub proof fn lemma_owner_stays_until_revoked(
    registry: ClaimsState,
    caller: Seq<char>,
    call: Call,
    owner: Seq<char>,
    content: Seq<char>,
)
    requires
        registry.owner_of(content) == Some(owner),
        !(caller == owner && call.revokes(content)),
    ensures
        registry.dispatch(caller, call).owner_of(content) == Some(owner),
{
}

/// The claims registry.
///
/// An account can hold any number of claims; a piece of content has at most
/// one owner.
#[derive(Debug)]
pub struct Pallet {
    claims: StorageMap<AccountId>,
}

impl View for Pallet {
    type V = ClaimsState;

    closed spec fn view(&self) -> ClaimsState {
        ClaimsState {
            claims: Map::new(
                |claim: Seq<char>| self.claims@.contains_key(claim),
                |claim: Seq<char>| self.claims@[claim]@,
            ),
        }
    }
}

/// The calls that the claims registry takes.
#[derive(Debug)]
pub enum Call {
    /// Claim `claim` for the caller.
    CreateClaim { claim: Content },
    /// Give up the caller's claim on `claim`.
    RevokeClaim { claim: Content },
}

impl Call {
    /// The call asks to claim `content`.
    pub open spec fn claims(self, content: Seq<char>) -> bool {
        match self {
            Call::CreateClaim { claim } => claim@ == content,
            Call::RevokeClaim { .. } => false,
        }
    }

    /// The call asks to give up the claim on `content`.
    pub open spec fn revokes(self, content: Seq<char>) -> bool {
        match self {
            Call::CreateClaim { .. } => false,
            Call::RevokeClaim { claim } => claim@ == content,
        }
    }
}

impl Pallet {
    /// A registry in which nothing is claimed.
    pub fn new() -> (pallet: Self)
        ensures
            pallet@ == ClaimsState::empty(),
    {
        let pallet = Pallet { claims: StorageMap::new() };
        assert(pallet@.claims =~= Map::empty());
        pallet
    }

    /// The owner of `claim`, if it has one.
    pub fn get_claim(&self, claim: &Content) -> (owner: Option<&AccountId>)
        ensures
            match owner {
                Some(account) => self@.owner_of(claim@) == Some(account@),
                None => self@.owner_of(claim@).is_none(),
            },
    {
        self.claims.get(claim)
    }

    /// Records `caller` as the owner of `claim`, unless it has an owner.
    pub fn create_claim(&mut self, caller: AccountId, claim: Content) -> (r: DispatchResult)
        ensures
            r == old(self)@.create_claim_result(caller@, claim@),
            final(self)@ == old(self)@.create_claim(caller@, claim@),
    {
        if self.claims.contains_key(&claim) {
            return Err(DispatchError::AlreadyClaimed);
        }
        self.claims.insert(claim, caller);
        assert(self@.claims =~= old(self)@.claims.insert(claim@, caller@));
        Ok(())
    }

    /// Removes the claim on `claim`, if `caller` is its owner.
    pub fn revoke_claim(&mut self, caller: AccountId, claim: Content) -> (r: DispatchResult)
        ensures
            r == old(self)@.revoke_claim_result(caller@, claim@),
            final(self)@ == old(self)@.revoke_claim(caller@, claim@),
    {
        let owned = match self.claims.get(&claim) {
            Some(owner) => Some(*owner == caller),
            None => None,
        };
        match owned {
            Some(true) => {
                self.claims.remove(&claim);
                assert(self@.claims =~= old(self)@.claims.remove(claim@));
                Ok(())
            },
            Some(false) => Err(DispatchError::NotClaimOwner),
            None => Err(DispatchError::ClaimNotFound),
        }
    }
}

impl Dispatch for Pallet {
    type Caller = AccountId;

    type Call = Call;

    /// Routes `call` to the operation that it names.
    fn dispatch(&mut self, caller: AccountId, call: Call) -> (r: DispatchResult)
        ensures
            r == old(self)@.dispatch_result(caller@, call),
            final(self)@ == old(self)@.dispatch(caller@, call),
    {
        match call {
            Call::CreateClaim { claim } => self.create_claim(caller, claim),
            Call::RevokeClaim { claim } => self.revoke_claim(caller, claim),
        }
    }
}

} // verus!
