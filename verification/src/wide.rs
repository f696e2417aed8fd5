//! Unsigned 256-bit integers, held as four little-endian limbs. The arithmetic
//! is that of `bigint`, which stops the program when a result does not fit.

use crate::field::{limbs_to_nat, montgomery_radix};
use vstd::prelude::*;

verus! {

/// An unsigned integer below `2^256`.
#[derive(Clone, Copy, Debug, PartialEq, Eq)]
pub struct U256(pub [u64; 4]);

impl View for U256 {
    type V = nat;

    /// The integer that the limbs stand for.
    open spec fn view(&self) -> nat {
        limbs_to_nat(self.0)
    }
}

/// `bigint::U256 + bigint::U256`, which panics when the sum needs more than
/// 256 bits.
#[verifier::external_body]
pub(crate) fn bigint_add(a: &U256, b: &U256) -> (r: U256)
    requires
        a@ + b@ < montgomery_radix(),
    ensures
        r@ == a@ + b@,
{
    U256((bigint::U256(a.0) + bigint::U256(b.0)).0)
}

/// `bigint::U256 - bigint::U256`, which panics when the difference is
/// negative.
#[verifier::external_body]
pub(crate) fn bigint_sub(a: &U256, b: &U256) -> (r: U256)
    requires
        b@ <= a@,
    ensures
        r@ == a@ - b@,
{
    U256((bigint::U256(a.0) - bigint::U256(b.0)).0)
}

/// `bigint::U256 * bigint::U256`, which panics when the product needs more
/// than 256 bits.
#[verifier::external_body]
pub(crate) fn bigint_mul(a: &U256, b: &U256) -> (r: U256)
    requires
        a@ * b@ < montgomery_radix(),
    ensures
        r@ == a@ * b@,
{
    U256((bigint::U256(a.0) * bigint::U256(b.0)).0)
}

/// `bigint::U256 % bigint::U256`, which panics on a zero divisor.
#[verifier::external_body]
pub(crate) fn bigint_rem(a: &U256, b: &U256) -> (r: U256)
    requires
        b@ > 0,
    ensures
        r@ == a@ % b@,
{
    U256((bigint::U256(a.0) % bigint::U256(b.0)).0)
}

impl U256 {
    /// Zero.
    pub fn zero() -> (r: U256)
        ensures
            r@ == 0,
    {
        U256([0, 0, 0, 0])
    }

    /// The integer `val`.
    pub fn from_u64(val: u64) -> (r: U256)
        ensures
            r@ == val,
    {
        U256([val, 0, 0, 0])
    }

    /// The integer as a machine word.
    pub fn low_u64(&self) -> (r: u64)
        requires
            self@ <= u64::MAX,
        ensures
            r == self@,
    {
        self.0[0]
    }
}

} // verus!
