//! The numeric primitives of the ledger, as the `num` crate provides them for
//! the integer types that the runtime counts and accounts in.
//!
//! Each function below hands its work to `num`; what it states of the result
//! is taken on trust from that crate.

use vstd::prelude::*;

verus! {

/// `num::traits::Zero::zero` at `u32`: the additive identity, which is 0.
#[verifier::external_body]
pub(crate) fn zero_u32() -> (r: u32)
    ensures
        r == 0,
{
    num::traits::Zero::zero()
}

/// `num::traits::One::one` at `u32`: the multiplicative identity, which is 1.
#[verifier::external_body]
pub(crate) fn one_u32() -> (r: u32)
    ensures
        r == 1,
{
    num::traits::One::one()
}

/// `num::traits::Zero::zero` at `u128`: the additive identity, which is 0.
#[verifier::external_body]
pub(crate) fn zero_u128() -> (r: u128)
    ensures
        r == 0,
{
    num::traits::Zero::zero()
}

/// `num::traits::CheckedAdd::checked_add` at `u128`: the sum of the two
/// numbers, or nothing when the sum is greater than `u128::MAX`.
#[verifier::external_body]
pub(crate) fn checked_add_u128(a: &u128, b: &u128) -> (r: Option<u128>)
    ensures
        *a + *b <= u128::MAX ==> r == Some((*a + *b) as u128),
        *a + *b > u128::MAX ==> r.is_none(),
{
    num::traits::CheckedAdd::checked_add(a, b)
}

/// `num::traits::CheckedSub::checked_sub` at `u128`: the difference of the
/// two numbers, or nothing when the second is greater than the first.
#[verifier::external_body]
pub(crate) fn checked_sub_u128(a: &u128, b: &u128) -> (r: Option<u128>)
    ensures
        *a >= *b ==> r == Some((*a - *b) as u128),
        *a < *b ==> r.is_none(),
{
    num::traits::CheckedSub::checked_sub(a, b)
}

} // verus!
