//! Elements of the BLS12-381 scalar field, held as four little-endian limbs in
//! Montgomery form, together with their mathematical model.
//!
//! The arithmetic itself is done by `dusk_bls12_381`. This module states what
//! that arithmetic computes, first on the limbs and then on the field elements
//! that the limbs stand for.

use dusk_bls12_381::BlsScalar;
use vstd::arithmetic::div_mod::{
    lemma_add_mod_noop, lemma_mod_twice, lemma_mul_mod_noop, lemma_mul_mod_noop_left,
    lemma_mul_mod_noop_right, lemma_small_mod,
};
use vstd::prelude::*;

verus! {

/// The order `p` of the scalar field.
pub open spec fn modulus() -> nat {
    0x73eda753299d7d483339d80809a1d80553bda402fffe5bfeffffffff00000001nat
}

/// The Montgomery radix `2^256`.
pub open spec fn montgomery_radix() -> nat {
    0x1_0000_0000_0000_0000_0000_0000_0000_0000_0000_0000_0000_0000_0000_0000_0000_0000nat
}

/// The inverse of the Montgomery radix modulo `p`.
pub open spec fn montgomery_radix_inverse() -> nat {
    0x1bbe869330009d577204078a4f77266aab6fca8f09dc705f13f75b69fe75c040nat
}

/// The integer that four little-endian 64-bit limbs stand for.
pub open spec fn limbs_to_nat(l: [u64; 4]) -> nat {
    (l[0] as nat) + (l[1] as nat) * 0x1_0000_0000_0000_0000nat + (l[2] as nat)
        * 0x1_0000_0000_0000_0000_0000_0000_0000_0000nat + (l[3] as nat)
        * 0x1_0000_0000_0000_0000_0000_0000_0000_0000_0000_0000_0000_0000nat
}

/// Sum of two field elements.
pub open spec fn field_add(a: nat, b: nat) -> nat {
    (a + b) % modulus()
}

/// Product of two field elements.
pub open spec fn field_mul(a: nat, b: nat) -> nat {
    (a * b) % modulus()
}

/// The radix and its inverse cancel modulo `p`.
pub proof fn lemma_montgomery_radix_inverse()
    ensures
        (montgomery_radix() * montgomery_radix_inverse()) % modulus() == 1,
        montgomery_radix_inverse() < modulus(),
{
}

/// A digit below `2^64` and what stands above it are determined by their sum.
proof fn lemma_limb_split(low: int, high: int, other_low: int, other_high: int)
    requires
        0 <= low < 0x1_0000_0000_0000_0000,
        0 <= other_low < 0x1_0000_0000_0000_0000,
        low + 0x1_0000_0000_0000_0000 * high == other_low + 0x1_0000_0000_0000_0000 * other_high,
    ensures
        low == other_low,
        high == other_high,
{
}

/// Two limb arrays that stand for the same integer are the same array.
pub proof fn lemma_limbs_injective(a: [u64; 4], b: [u64; 4])
    requires
        limbs_to_nat(a) == limbs_to_nat(b),
    ensures
        a == b,
{
    let a2 = a[2] + 0x1_0000_0000_0000_0000 * a[3];
    let b2 = b[2] + 0x1_0000_0000_0000_0000 * b[3];
    let a1 = a[1] + 0x1_0000_0000_0000_0000 * a2;
    let b1 = b[1] + 0x1_0000_0000_0000_0000 * b2;
    assert(limbs_to_nat(a) == a[0] + 0x1_0000_0000_0000_0000 * a1);
    assert(limbs_to_nat(b) == b[0] + 0x1_0000_0000_0000_0000 * b1);
    lemma_limb_split(a[0] as int, a1, b[0] as int, b1);
    lemma_limb_split(a[1] as int, a2, b[1] as int, b2);
    lemma_limb_split(a[2] as int, a[3] as int, b[2] as int, b[3] as int);
    assert(a@ =~= b@);
}

/// A field element: the limbs of `v * 2^256 mod p` for the element `v`.
#[derive(Clone, Copy, Debug, PartialEq, Eq)]
pub struct Scalar(pub [u64; 4]);

/// The limbs `dusk_bls12_381` computes for `a * b`. On reduced limbs this is the
/// Montgomery product `a * b / 2^256 mod p`, reduced again.
#[verifier::external_body]
fn bls_mul(a: &Scalar, b: &Scalar) -> (r: Scalar)
    requires
        a.wf(),
        b.wf(),
    ensures
        r.wf(),
        r.raw() == (a.raw() * b.raw() * montgomery_radix_inverse()) % modulus(),
{
    Scalar((BlsScalar(a.0) * BlsScalar(b.0)).0)
}

/// The limbs `dusk_bls12_381` computes for `a + b`. On reduced limbs this is
/// the sum modulo `p`.
#[verifier::external_body]
fn bls_add(a: &Scalar, b: &Scalar) -> (r: Scalar)
    requires
        a.wf(),
        b.wf(),
    ensures
        r.wf(),
        r.raw() == (a.raw() + b.raw()) % modulus(),
{
    Scalar((BlsScalar(a.0) + BlsScalar(b.0)).0)
}

/// `BlsScalar::reduce`: one Montgomery reduction, which takes reduced limbs
/// out of Montgomery form.
#[verifier::external_body]
fn bls_reduce(a: &Scalar) -> (r: Scalar)
    requires
        a.wf(),
    ensures
        r.wf(),
        r.raw() == (a.raw() * montgomery_radix_inverse()) % modulus(),
{
    Scalar(BlsScalar(a.0).reduce().0)
}

/// `BlsScalar::from_raw`: the Montgomery form of any 256-bit integer.
#[verifier::external_body]
fn bls_from_raw(val: [u64; 4]) -> (r: Scalar)
    ensures
        r.wf(),
        r.raw() == (limbs_to_nat(val) * montgomery_radix()) % modulus(),
{
    Scalar(BlsScalar::from_raw(val).0)
}

impl Scalar {
    /// The limbs read as one integer.
    pub open spec fn raw(self) -> nat {
        limbs_to_nat(self.0)
    }

    /// The limbs are reduced: they stand for an integer below `p`.
    pub open spec fn wf(self) -> bool {
        self.raw() < modulus()
    }

    /// The field element that the limbs stand for.
    pub open spec fn value(self) -> nat {
        (self.raw() * montgomery_radix_inverse()) % modulus()
    }

    /// The additive identity.
    pub fn zero() -> (r: Scalar)
        ensures
            r == Scalar([0, 0, 0, 0]),
            r.wf(),
            r.value() == 0,
            r.raw() == 0,
    {
        Scalar([0, 0, 0, 0])
    }

    /// The multiplicative identity.
    pub fn one() -> (r: Scalar)
        ensures
            r.wf(),
            r.value() == 1,
    {
        Scalar(
            [0x0000_0001_ffff_fffe, 0x5884_b7fa_0003_4802, 0x998c_4fef_ecbc_4ff5, 0x1824_b159_acc5_056f],
        )
    }

    /// The element that a 256-bit integer stands for.
    pub fn from_raw(val: [u64; 4]) -> (r: Scalar)
        ensures
            r.wf(),
            r.value() == limbs_to_nat(val) % modulus(),
    {
        let r = bls_from_raw(val);
        proof {
            lemma_from_raw_value(limbs_to_nat(val));
        }
        r
    }

    /// The element that a machine integer stands for.
    pub fn from_u64(val: u64) -> (r: Scalar)
        ensures
            r.wf(),
            r.value() == val,
    {
        let limbs: [u64; 4] = [val, 0, 0, 0];
        let r = Scalar::from_raw(limbs);
        proof {
            lemma_small_mod(val as nat, modulus());
        }
        r
    }

    /// The element taken out of Montgomery form: the limbs of the result are
    /// those of the integer `self.value()`.
    pub fn reduce(&self) -> (r: Scalar)
        requires
            self.wf(),
        ensures
            r.wf(),
            r.raw() == self.value(),
    {
        bls_reduce(self)
    }

    /// Field multiplication.
    pub fn mul(&self, rhs: &Scalar) -> (r: Scalar)
        requires
            self.wf(),
            rhs.wf(),
        ensures
            r.wf(),
            r.value() == field_mul(self.value(), rhs.value()),
            r.raw() == (self.raw() * rhs.raw() * montgomery_radix_inverse()) % modulus(),
    {
        let r = bls_mul(self, rhs);
        proof {
            lemma_montgomery_product_value(self.raw(), rhs.raw());
        }
        r
    }

    /// Field addition.
    pub fn add(&self, rhs: &Scalar) -> (r: Scalar)
        requires
            self.wf(),
            rhs.wf(),
        ensures
            r.wf(),
            r.value() == field_add(self.value(), rhs.value()),
    {
        let r = bls_add(self, rhs);
        proof {
            lemma_montgomery_sum_value(self.raw(), rhs.raw());
        }
        r
    }
}

/// Taking `x * 2^256 mod p` out of Montgomery form gives `x mod p`.
pub proof fn lemma_from_raw_value(x: nat)
    ensures
        (((x * montgomery_radix()) % modulus()) * montgomery_radix_inverse()) % modulus() == x % modulus(),
{
    let p = modulus() as int;
    let r = montgomery_radix() as int;
    let ri = montgomery_radix_inverse() as int;
    let xi = x as int;
    lemma_montgomery_radix_inverse();
    lemma_mul_mod_noop_left(xi * r, ri, p);
    assert((xi * r) * ri == xi * (r * ri)) by (nonlinear_arith);
    lemma_mul_mod_noop_right(xi, r * ri, p);
}

/// The Montgomery product of two Montgomery forms is the Montgomery form of
/// the product.
pub proof fn lemma_montgomery_product_value(a: nat, b: nat)
    ensures
        (((a * b * montgomery_radix_inverse()) % modulus()) * montgomery_radix_inverse()) % modulus() == field_mul(
            (a * montgomery_radix_inverse()) % modulus(),
            (b * montgomery_radix_inverse()) % modulus(),
        ),
{
    let p = modulus() as int;
    let ri = montgomery_radix_inverse() as int;
    let ai = a as int;
    let bi = b as int;
    lemma_mul_mod_noop_left(ai * bi * ri, ri, p);
    lemma_mul_mod_noop(ai * ri, bi * ri, p);
    assert((ai * bi * ri) * ri == (ai * ri) * (bi * ri)) by (nonlinear_arith);
}

/// The sum of two Montgomery forms is the Montgomery form of the sum.
pub proof fn lemma_montgomery_sum_value(a: nat, b: nat)
    ensures
        (((a + b) % modulus()) * montgomery_radix_inverse()) % modulus() == field_add(
            (a * montgomery_radix_inverse()) % modulus(),
            (b * montgomery_radix_inverse()) % modulus(),
        ),
{
    let p = modulus() as int;
    let ri = montgomery_radix_inverse() as int;
    let ai = a as int;
    let bi = b as int;
    lemma_mul_mod_noop_left(ai + bi, ri, p);
    lemma_add_mod_noop(ai * ri, bi * ri, p);
    assert((ai + bi) * ri == ai * ri + bi * ri) by (nonlinear_arith);
}

/// Two integers that leave the same remainder modulo `p`.
pub open spec fn congruent(a: int, b: int) -> bool {
    a % (modulus() as int) == b % (modulus() as int)
}

/// A field product stands for the product of whatever its factors stand for.
pub proof fn lemma_field_mul_congruent(a: nat, b: nat, x: int, y: int)
    requires
        congruent(a as int, x),
        congruent(b as int, y),
    ensures
        congruent(field_mul(a, b) as int, x * y),
{
    let p = modulus() as int;
    lemma_mul_mod_noop(a as int, b as int, p);
    lemma_mul_mod_noop(x, y, p);
    lemma_mod_twice((a * b) as int, p);
}

/// A field sum stands for the sum of whatever its terms stand for.
pub proof fn lemma_field_add_congruent(a: nat, b: nat, x: int, y: int)
    requires
        congruent(a as int, x),
        congruent(b as int, y),
    ensures
        congruent(field_add(a, b) as int, x + y),
{
    let p = modulus() as int;
    lemma_add_mod_noop(a as int, b as int, p);
    lemma_add_mod_noop(x, y, p);
    lemma_mod_twice((a + b) as int, p);
}

/// A field element that stands for `x` is `x mod p`.
pub proof fn lemma_congruent_value(s: Scalar, x: int)
    requires
        congruent(s.value() as int, x),
    ensures
        s.value() == x % (modulus() as int),
{
    lemma_mod_twice((s.raw() * montgomery_radix_inverse()) as int, modulus() as int);
}

/// Reduced limbs are determined by the field element they stand for: they are
/// the limbs of `value * 2^256 mod p`.
pub proof fn lemma_raw_of_value(s: Scalar)
    requires
        s.wf(),
    ensures
        s.raw() == (s.value() * montgomery_radix()) % modulus(),
{
    let p = modulus() as int;
    let r = montgomery_radix() as int;
    let ri = montgomery_radix_inverse() as int;
    let x = s.raw() as int;
    lemma_montgomery_radix_inverse();
    lemma_mul_mod_noop_left(x * ri, r, p);
    assert((x * ri) * r == x * (r * ri)) by (nonlinear_arith);
    lemma_mul_mod_noop_right(x, r * ri, p);
    lemma_small_mod(s.raw(), modulus());
}

/// Two reduced scalars that stand for the same field element are equal limb
/// by limb.
pub proof fn lemma_value_injective(a: Scalar, b: Scalar)
    requires
        a.wf(),
        b.wf(),
        a.value() == b.value(),
    ensures
        a == b,
{
    lemma_raw_of_value(a);
    lemma_raw_of_value(b);
    lemma_limbs_injective(a.0, b.0);
}

} // verus!
