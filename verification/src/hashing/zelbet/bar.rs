//! The bar layer: a field element is written in a mixed-radix system, each
//! digit is sent through the substitution table, and the digits are put
//! together again.

use crate::constants::sbox::{lemma_sbox_range, sbox_at, sbox_entry, SBOX_LEN, SBOX_THRESHOLD};
use crate::constants::{
    lemma_radix_inverse, lemma_radix_range, radix_at, BLS_SCALAR_REAL, DECOMPOSITION_S_I,
    INVERSES_S_I,
};
use crate::field::{modulus, montgomery_radix, montgomery_radix_inverse, Scalar};
use crate::wide::{bigint_add, bigint_mul, bigint_rem, bigint_sub, U256};
use vstd::arithmetic::div_mod::{
    lemma_div_is_ordered, lemma_fundamental_div_mod, lemma_mod_bound, lemma_mul_mod_noop_right,
    lemma_small_mod,
};
use vstd::prelude::*;

verus! {

/// What is left of `x` once its `k` least significant digits are taken off.
pub open spec fn quotient(x: nat, k: nat) -> nat
    decreases k,
{
    if k == 0 {
        x
    } else {
        quotient(x, (k - 1) as nat) / radix_at(k - 1)
    }
}

/// Digit `k` of `x`. The last digit takes whatever is left.
pub open spec fn digit(x: nat, k: int) -> nat {
    if k < 26 {
        quotient(x, k as nat) % radix_at(k)
    } else {
        quotient(x, 26)
    }
}

/// The 27 digits of `x`, least significant first.
pub open spec fn decomposition(x: nat) -> Seq<nat> {
    Seq::new(27, |k: int| digit(x, k))
}

/// Horner's rule on the digits from `k` upwards.
pub open spec fn horner(d: Seq<nat>, k: int) -> nat
    decreases 26 - k,
{
    if k >= 26 {
        d[26]
    } else {
        d[k] + radix_at(k) * horner(d, k + 1)
    }
}

/// The integer that 27 digits stand for.
pub open spec fn composition(d: Seq<nat>) -> nat {
    horner(d, 0)
}

/// Every digit is smaller than its radix.
pub open spec fn digits_in_range(d: Seq<nat>) -> bool {
    &&& d.len() == 27
    &&& forall|k: int| 0 <= k < 27 ==> #[trigger] d[k] < radix_at(k)
}

/// The substitution of one digit.
pub open spec fn substitute(x: nat) -> nat {
    if x < SBOX_THRESHOLD {
        sbox_at(x as int)
    } else {
        x
    }
}

/// The substitution of every digit.
pub open spec fn substituted(d: Seq<nat>) -> Seq<nat> {
    Seq::new(27, |k: int| substitute(d[k]))
}

/// The bar function on a field element.
pub open spec fn bar_value(x: nat) -> nat {
    composition(substituted(decomposition(x))) % modulus()
}

/// The digits that an array of machine words holds.
pub open spec fn digits_of(d: [u64; 27]) -> Seq<nat> {
    Seq::new(27, |k: int| d[k] as nat)
}

/// The number of integers that the digits from `k` upwards can tell apart.
pub open spec fn capacity(k: int) -> nat
    decreases 27 - k,
{
    if k >= 27 {
        1
    } else {
        radix_at(k) * capacity(k + 1)
    }
}

/// Horner's rule on the digits of `x` from `k` upwards gives back what was
/// left of `x` at digit `k`.
pub proof fn lemma_horner_of_decomposition(x: nat, k: int)
    requires
        0 <= k <= 26,
    ensures
        horner(decomposition(x), k) == quotient(x, k as nat),
    decreases 26 - k,
{
    if k < 26 {
        lemma_horner_of_decomposition(x, k + 1);
        lemma_radix_range(k);
        lemma_fundamental_div_mod(quotient(x, k as nat) as int, radix_at(k) as int);
        assert(quotient(x, (k + 1) as nat) == quotient(x, k as nat) / radix_at(k));
    }
}

/// Decomposition followed by composition is the identity.
pub proof fn lemma_composition_of_decomposition(x: nat)
    ensures
        composition(decomposition(x)) == x,
{
    lemma_horner_of_decomposition(x, 0);
}

/// Taking digits off keeps the order of two integers.
pub proof fn lemma_quotient_ordered(x: nat, y: nat, k: nat)
    requires
        x <= y,
        k <= 26,
    ensures
        quotient(x, k) <= quotient(y, k),
    decreases k,
{
    if k > 0 {
        lemma_quotient_ordered(x, y, (k - 1) as nat);
        lemma_radix_range(k - 1);
        lemma_div_is_ordered(
            quotient(x, (k - 1) as nat) as int,
            quotient(y, (k - 1) as nat) as int,
            radix_at(k - 1) as int,
        );
    }
}

/// Digit `k` of `p - 1` is what the table of its digits holds, and its last
/// digit is 678.
proof fn lemma_digit_of_top(k: int)
    requires
        0 <= k < 27,
    ensures
        quotient((modulus() - 1) as nat, 26) == 678,
        digit((modulus() - 1) as nat, k) == BLS_SCALAR_REAL[k],
{
    let top = (modulus() - 1) as nat;
    assert(quotient(top, 0) == 52435875175126190479447740508185965837690552500527637822603658699938581184512nat);
    assert(radix_at(0) == 693);
    assert(quotient(top, 1) == quotient(top, 0) / radix_at(0));
    assert(quotient(top, 1) == 75665043542750635612478702032014380718168185426446807824824904328915701564nat);
    assert(digit(top, 0) == 660);
    assert(BLS_SCALAR_REAL[0] == 660);
    assert(radix_at(1) == 696);
    assert(quotient(top, 2) == quotient(top, 1) / radix_at(1));
    assert(quotient(top, 2) == 108714143021193441971952158091974684939896818141446562966702448748442099nat);
    assert(digit(top, 1) == 660);
    assert(BLS_SCALAR_REAL[1] == 660);
    assert(radix_at(2) == 694);
    assert(quotient(top, 3) == quotient(top, 2) / radix_at(2));
    assert(quotient(top, 3) == 156648621068002077769383513100828076282272072249923001392943009723979nat);
    assert(digit(top, 2) == 673);
    assert(BLS_SCALAR_REAL[2] == 673);
    assert(radix_at(3) == 668);
    assert(quotient(top, 4) == quotient(top, 3) / radix_at(3));
    assert(quotient(top, 4) == 234503923754494128397280708234772569284838431511860780528357798987nat);
    assert(digit(top, 3) == 663);
    assert(BLS_SCALAR_REAL[3] == 663);
    assert(radix_at(4) == 679);
    assert(quotient(top, 5) == quotient(top, 4) / radix_at(4));
    assert(quotient(top, 5) == 345366603467590763471694710213214387753812122992431193708921647nat);
    assert(digit(top, 4) == 674);
    assert(BLS_SCALAR_REAL[4] == 674);
    assert(radix_at(5) == 695);
    assert(quotient(top, 6) == quotient(top, 5) / radix_at(5));
    assert(quotient(top, 6) == 496930364701569443844165050666495521947931112219325458573987nat);
    assert(digit(top, 5) == 682);
    assert(BLS_SCALAR_REAL[5] == 682);
    assert(radix_at(6) == 691);
    assert(quotient(top, 7) == quotient(top, 6) / radix_at(6));
    assert(quotient(top, 7) == 719146692766381250136273589965984836393532723906404426300nat);
    assert(digit(top, 6) == 687);
    assert(BLS_SCALAR_REAL[6] == 687);
    assert(radix_at(7) == 693);
    assert(quotient(top, 8) == quotient(top, 7) / radix_at(7));
    assert(quotient(top, 8) == 1037729715391603535550178340499256618172485893082834669nat);
    assert(digit(top, 7) == 683);
    assert(BLS_SCALAR_REAL[7] == 683);
    assert(radix_at(8) == 700);
    assert(quotient(top, 9) == quotient(top, 8) / radix_at(8));
    assert(quotient(top, 9) == 1482471021988005050785969057856080883103551275832620nat);
    assert(digit(top, 8) == 669);
    assert(BLS_SCALAR_REAL[8] == 669);
    assert(radix_at(9) == 688);
    assert(quotient(top, 10) == quotient(top, 9) / radix_at(9));
    assert(quotient(top, 10) == 2154754392424425945909838746883838492883068714872nat);
    assert(digit(top, 9) == 684);
    assert(BLS_SCALAR_REAL[9] == 684);
    assert(radix_at(10) == 700);
    assert(quotient(top, 11) == quotient(top, 10) / radix_at(10));
    assert(quotient(top, 11) == 3078220560606322779871198209834054989832955306nat);
    assert(digit(top, 10) == 672);
    assert(BLS_SCALAR_REAL[10] == 672);
    assert(radix_at(11) == 694);
    assert(quotient(top, 12) == quotient(top, 11) / radix_at(11));
    assert(quotient(top, 12) == 4435476312112857031514694826850223328289560nat);
    assert(digit(top, 11) == 666);
    assert(BLS_SCALAR_REAL[11] == 666);
    assert(radix_at(12) == 701);
    assert(quotient(top, 13) == quotient(top, 12) / radix_at(12));
    assert(quotient(top, 13) == 6327355652086814595598708740157237272880nat);
    assert(digit(top, 12) == 680);
    assert(BLS_SCALAR_REAL[12] == 680);
    assert(radix_at(13) == 694);
    assert(quotient(top, 14) == quotient(top, 13) / radix_at(13));
    assert(quotient(top, 14) == 9117227164390222760228686945471523447nat);
    assert(digit(top, 13) == 662);
    assert(BLS_SCALAR_REAL[13] == 662);
    assert(radix_at(14) == 699);
    assert(quotient(top, 15) == quotient(top, 14) / radix_at(14));
    assert(quotient(top, 15) == 13043243439757114106192685186654539nat);
    assert(digit(top, 14) == 686);
    assert(BLS_SCALAR_REAL[14] == 686);
    assert(radix_at(15) == 701);
    assert(quotient(top, 16) == quotient(top, 15) / radix_at(15));
    assert(quotient(top, 16) == 18606624022478051506694272734171nat);
    assert(digit(top, 15) == 668);
    assert(BLS_SCALAR_REAL[15] == 668);
    assert(radix_at(16) == 701);
    assert(quotient(top, 17) == quotient(top, 16) / radix_at(16));
    assert(quotient(top, 17) == 26542972927928746799849176510nat);
    assert(digit(top, 16) == 661);
    assert(BLS_SCALAR_REAL[16] == 661);
    assert(radix_at(17) == 701);
    assert(quotient(top, 18) == quotient(top, 17) / radix_at(17));
    assert(quotient(top, 18) == 37864440696046714407773432nat);
    assert(digit(top, 17) == 678);
    assert(BLS_SCALAR_REAL[17] == 678);
    assert(radix_at(18) == 695);
    assert(quotient(top, 19) == quotient(top, 18) / radix_at(18));
    assert(quotient(top, 19) == 54481209634599589075932nat);
    assert(digit(top, 18) == 692);
    assert(BLS_SCALAR_REAL[18] == 692);
    assert(radix_at(19) == 698);
    assert(quotient(top, 20) == quotient(top, 19) / radix_at(19));
    assert(quotient(top, 20) == 78053308932091101827nat);
    assert(digit(top, 19) == 686);
    assert(BLS_SCALAR_REAL[19] == 686);
    assert(radix_at(20) == 697);
    assert(quotient(top, 21) == quotient(top, 20) / radix_at(20));
    assert(quotient(top, 21) == 111984661308595554nat);
    assert(digit(top, 20) == 689);
    assert(BLS_SCALAR_REAL[20] == 689);
    assert(radix_at(21) == 703);
    assert(quotient(top, 22) == quotient(top, 21) / radix_at(21));
    assert(quotient(top, 22) == 159295393042098nat);
    assert(digit(top, 21) == 660);
    assert(BLS_SCALAR_REAL[21] == 660);
    assert(radix_at(22) == 702);
    assert(quotient(top, 23) == quotient(top, 22) / radix_at(22));
    assert(quotient(top, 23) == 226916514304nat);
    assert(digit(top, 22) == 690);
    assert(BLS_SCALAR_REAL[22] == 690);
    assert(radix_at(23) == 691);
    assert(quotient(top, 24) == quotient(top, 23) / radix_at(23));
    assert(quotient(top, 24) == 328388587nat);
    assert(digit(top, 23) == 687);
    assert(BLS_SCALAR_REAL[23] == 687);
    assert(radix_at(24) == 688);
    assert(quotient(top, 25) == quotient(top, 24) / radix_at(24));
    assert(quotient(top, 25) == 477308nat);
    assert(digit(top, 24) == 683);
    assert(BLS_SCALAR_REAL[24] == 683);
    assert(radix_at(25) == 703);
    assert(quotient(top, 26) == quotient(top, 25) / radix_at(25));
    assert(quotient(top, 26) == 678nat);
    assert(digit(top, 25) == 674);
    assert(BLS_SCALAR_REAL[25] == 674);
    assert(digit(top, 26) == 678);
    assert(BLS_SCALAR_REAL[26] == 678);
}

/// The table of the digits of the largest field element holds the
/// decomposition of `p - 1`.
pub proof fn lemma_field_order_digits()
    ensures
        digits_of(BLS_SCALAR_REAL) == decomposition((modulus() - 1) as nat),
{
    assert forall|k: int| 0 <= k < 27 implies digits_of(BLS_SCALAR_REAL)[k] == decomposition(
        (modulus() - 1) as nat,
    )[k] by {
        lemma_digit_of_top(k);
    }
    assert(digits_of(BLS_SCALAR_REAL) =~= decomposition((modulus() - 1) as nat));
}

/// The digits of a field element are smaller than their radices.
pub proof fn lemma_decomposition_in_range(x: nat)
    requires
        x < modulus(),
    ensures
        digits_in_range(decomposition(x)),
{
    assert forall|k: int| 0 <= k < 27 implies #[trigger] decomposition(x)[k] < radix_at(k) by {
        lemma_radix_range(k);
        if k < 26 {
            lemma_mod_bound(quotient(x, k as nat) as int, radix_at(k) as int);
        } else {
            lemma_digit_of_top(26);
            lemma_quotient_ordered(x, (modulus() - 1) as nat, 26);
        }
    }
}

/// Substitution keeps digits smaller than their radices.
pub proof fn lemma_substituted_in_range(d: Seq<nat>)
    requires
        digits_in_range(d),
    ensures
        digits_in_range(substituted(d)),
{
    assert forall|k: int| 0 <= k < 27 implies #[trigger] substituted(d)[k] < radix_at(k) by {
        lemma_radix_range(k);
        if d[k] < SBOX_THRESHOLD {
            lemma_sbox_range(d[k] as int);
        }
    }
}

/// The digit system as a whole tells fewer than `2^256` integers apart.
proof fn lemma_capacity_of_all()
    ensures
        capacity(0) < montgomery_radix(),
{
    assert(capacity(27) == 1);
    assert(radix_at(26) == 679);
    assert(capacity(26) == radix_at(26) * capacity(27));
    assert(capacity(26) == 679nat);
    assert(radix_at(25) == 703);
    assert(capacity(25) == radix_at(25) * capacity(26));
    assert(capacity(25) == 477337nat);
    assert(radix_at(24) == 688);
    assert(capacity(24) == radix_at(24) * capacity(25));
    assert(capacity(24) == 328407856nat);
    assert(radix_at(23) == 691);
    assert(capacity(23) == radix_at(23) * capacity(24));
    assert(capacity(23) == 226929828496nat);
    assert(radix_at(22) == 702);
    assert(capacity(22) == radix_at(22) * capacity(23));
    assert(capacity(22) == 159304739604192nat);
    assert(radix_at(21) == 703);
    assert(capacity(21) == radix_at(21) * capacity(22));
    assert(capacity(21) == 111991231941746976nat);
    assert(radix_at(20) == 697);
    assert(capacity(20) == radix_at(20) * capacity(21));
    assert(capacity(20) == 78057888663397642272nat);
    assert(radix_at(19) == 698);
    assert(capacity(19) == radix_at(19) * capacity(20));
    assert(capacity(19) == 54484406287051554305856nat);
    assert(radix_at(18) == 695);
    assert(capacity(18) == radix_at(18) * capacity(19));
    assert(capacity(18) == 37866662369500830242569920nat);
    assert(radix_at(17) == 701);
    assert(capacity(17) == radix_at(17) * capacity(18));
    assert(capacity(17) == 26544530321020082000041513920nat);
    assert(radix_at(16) == 701);
    assert(capacity(16) == radix_at(16) * capacity(17));
    assert(capacity(16) == 18607715755035077482029101257920nat);
    assert(radix_at(15) == 701);
    assert(capacity(15) == radix_at(15) * capacity(16));
    assert(capacity(15) == 13044008744279589314902399981801920nat);
    assert(radix_at(14) == 699);
    assert(capacity(14) == radix_at(14) * capacity(15));
    assert(capacity(14) == 9117762112251432931116777587279542080nat);
    assert(radix_at(13) == 694);
    assert(capacity(13) == radix_at(13) * capacity(14));
    assert(capacity(13) == 6327726905902494454195043645572002203520nat);
    assert(radix_at(12) == 701);
    assert(capacity(12) == radix_at(12) * capacity(13));
    assert(capacity(12) == 4435736561037648612390725595545973544667520nat);
    assert(radix_at(11) == 694);
    assert(capacity(11) == radix_at(11) * capacity(12));
    assert(capacity(11) == 3078401173360128136999163563308905639999258880nat);
    assert(radix_at(10) == 700);
    assert(capacity(10) == radix_at(10) * capacity(11));
    assert(capacity(10) == 2154880821352089695899414494316233947999481216000nat);
    assert(radix_at(9) == 688);
    assert(capacity(9) == radix_at(9) * capacity(10));
    assert(capacity(9) == 1482558005090237710778797172089568956223643076608000nat);
    assert(radix_at(8) == 700);
    assert(capacity(8) == radix_at(8) * capacity(9));
    assert(capacity(8) == 1037790603563166397545158020462698269356550153625600000nat);
    assert(radix_at(7) == 693);
    assert(capacity(7) == radix_at(7) * capacity(8));
    assert(capacity(7) == 719188888269274313498794508180649900664089256462540800000nat);
    assert(radix_at(6) == 691);
    assert(capacity(6) == radix_at(6) * capacity(7));
    assert(capacity(6) == 496959521794068550627667005152829081358885676215615692800000nat);
    assert(radix_at(5) == 695);
    assert(capacity(5) == radix_at(5) * capacity(6));
    assert(capacity(5) == 345386867646877642686228568581216211544425544969852906496000000nat);
    assert(radix_at(4) == 679);
    assert(capacity(4) == radix_at(4) * capacity(5));
    assert(capacity(4) == 234517683132229919383949198066645807638664945034530123510784000000nat);
    assert(radix_at(3) == 668);
    assert(capacity(3) == radix_at(3) * capacity(4));
    assert(capacity(3) == 156657812332329586148478064308519399502628183283066122505203712000000nat);
    assert(radix_at(2) == 694);
    assert(capacity(2) == radix_at(2) * capacity(3));
    assert(capacity(2) == 108720521758636732787043776630112463254823959198447889018611376128000000nat);
    assert(radix_at(1) == 696);
    assert(capacity(1) == radix_at(1) * capacity(2));
    assert(capacity(1) == 75669483144011166019782468534558274425357475602119730756953517785088000000nat);
    assert(radix_at(0) == 693);
    assert(capacity(0) == radix_at(0) * capacity(1));
    assert(capacity(0) == 52438951818799738051709250694448884176772730592268973414568787825065984000000nat);
}

/// The digits from `k` upwards tell at least one integer apart.
proof fn lemma_capacity_positive(k: int)
    requires
        0 <= k <= 27,
    ensures
        1 <= capacity(k),
    decreases 27 - k,
{
    if k < 27 {
        lemma_capacity_positive(k + 1);
        lemma_radix_range(k);
        assert(radix_at(k) * capacity(k + 1) >= 1) by (nonlinear_arith)
            requires
                radix_at(k) >= 1,
                capacity(k + 1) >= 1,
        ;
    }
}

/// The digits from `k` upwards tell no more integers apart than all digits
/// do, which is fewer than `2^256`.
proof fn lemma_capacity(k: int)
    requires
        0 <= k <= 27,
    ensures
        capacity(0) < montgomery_radix(),
        1 <= capacity(k) <= capacity(0),
    decreases k,
{
    lemma_capacity_of_all();
    lemma_capacity_positive(k);
    if k > 0 {
        lemma_capacity(k - 1);
        lemma_radix_range(k - 1);
        assert(radix_at(k - 1) * capacity(k) >= capacity(k)) by (nonlinear_arith)
            requires
                radix_at(k - 1) >= 1,
        ;
    }
}

/// Digits within range stand for an integer below the capacity of their
/// digit system.
pub proof fn lemma_horner_bound(d: Seq<nat>, k: int)
    requires
        digits_in_range(d),
        0 <= k <= 26,
    ensures
        horner(d, k) < capacity(k),
        capacity(k) <= capacity(0),
        capacity(0) < montgomery_radix(),
    decreases 26 - k,
{
    lemma_capacity(k);
    lemma_radix_range(k);
    if k < 26 {
        lemma_horner_bound(d, k + 1);
        let s = radix_at(k) as int;
        let h = horner(d, k + 1) as int;
        let c = capacity(k + 1) as int;
        assert(s * h <= s * (c - 1)) by (nonlinear_arith)
            requires
                h <= c - 1,
                s >= 0,
        ;
        assert(s * (c - 1) == s * c - s) by (nonlinear_arith);
    } else {
        assert(capacity(27) == 1);
        assert(capacity(26) == radix_at(26) * capacity(27));
    }
}

/// Division without dividing: where `s` divides `t` and `inverse` is the
/// Montgomery form of the inverse of `s`, the Montgomery product of `t` and
/// `inverse` is the quotient.
pub proof fn lemma_exact_division(t: nat, s: nat, inverse: nat)
    requires
        s > 0,
        t % s == 0,
        t < modulus(),
        (s * ((inverse * montgomery_radix_inverse()) % modulus())) % modulus() == 1,
    ensures
        (t * inverse * montgomery_radix_inverse()) % modulus() == t / s,
{
    let p = modulus() as int;
    let q = (t / s) as int;
    let e = (inverse * montgomery_radix_inverse()) as int;
    lemma_fundamental_div_mod(t as int, s as int);
    assert(t == s * q);
    lemma_mul_mod_noop_right(s as int, e, p);
    assert((s * e) % p == 1);
    assert(t * inverse * montgomery_radix_inverse() == q * (s * e)) by (nonlinear_arith)
        requires
            t == s * q,
            e == inverse * montgomery_radix_inverse(),
    ;
    lemma_mul_mod_noop_right(q, s * e, p);
    assert(q <= t) by (nonlinear_arith)
        requires
            t == s * q,
            s > 0,
            q >= 0,
    ;
    lemma_small_mod(q as nat, modulus());
}

/// The digits of a field element, least significant first.
pub fn decompose(x: &Scalar) -> (digits: [u64; 27])
    requires
        x.wf(),
    ensures
        digits_of(digits) == decomposition(x.value()),
{
    let mut digits = [0u64; 27];
    let reduced = x.reduce();
    let mut intermediate = U256(reduced.0);
    let mut k: usize = 0;
    while k < 26
        invariant
            0 <= k <= 26,
            intermediate@ == quotient(x.value(), k as nat),
            intermediate@ < modulus(),
            forall|j: int| 0 <= j < k ==> digits[j] as nat == digit(x.value(), j),
        decreases 26 - k,
    {
        proof {
            lemma_radix_range(k as int);
            lemma_radix_inverse(k as int);
        }
        let radix = U256::from_u64(DECOMPOSITION_S_I[k]);
        let remainder = bigint_rem(&intermediate, &radix);
        proof {
            lemma_mod_bound(intermediate@ as int, radix@ as int);
            lemma_fundamental_div_mod(intermediate@ as int, radix@ as int);
        }
        let difference = bigint_sub(&intermediate, &remainder);
        let inverse = Scalar(INVERSES_S_I[k]);
        let divided = Scalar(difference.0).mul(&inverse);
        proof {
            let s = radix_at(k as int);
            let q = intermediate@ / s;
            assert(difference@ == s * q);
            assert(difference@ % s == 0) by (nonlinear_arith)
                requires
                    difference@ == s * q,
                    s > 0,
            ;
            assert(difference@ / s == q) by (nonlinear_arith)
                requires
                    difference@ == s * q,
                    s > 0,
            ;
            lemma_exact_division(difference@, s, inverse.raw());
            assert(quotient(x.value(), (k + 1) as nat) == quotient(x.value(), k as nat) / s);
        }
        intermediate = U256(divided.0);
        digits[k] = remainder.low_u64();
        k = k + 1;
    }
    proof {
        lemma_quotient_ordered(x.value(), (modulus() - 1) as nat, 26);
        lemma_digit_of_top(26);
        lemma_mod_bound((x.raw() * montgomery_radix_inverse()) as int, modulus() as int);
    }
    digits[26] = intermediate.low_u64();
    proof {
        assert(digits_of(digits) =~= decomposition(x.value()));
    }
    digits
}

/// The field element that 27 digits stand for.
pub fn compute_whole_representation(decomposition: [u64; 27]) -> (r: Scalar)
    requires
        digits_in_range(digits_of(decomposition)),
    ensures
        r.wf(),
        r.value() == composition(digits_of(decomposition)) % modulus(),
{
    let ghost d = digits_of(decomposition);
    let mut single = U256::zero();
    let mut k: usize = 27;
    while k > 0
        invariant
            0 <= k <= 27,
            d == digits_of(decomposition),
            digits_in_range(d),
            k == 27 ==> single@ == 0,
            0 < k < 27 ==> single@ == radix_at(k - 1) * horner(d, k as int),
            k == 0 ==> single@ == horner(d, 0),
        decreases k,
    {
        let i = k - 1;
        let next = U256::from_u64(decomposition[i]);
        proof {
            lemma_horner_bound(d, i as int);
            assert(d[i as int] == decomposition[i as int] as nat);
            assert(single@ + next@ == horner(d, i as int));
        }
        let sum = bigint_add(&single, &next);
        if i > 0 {
            proof {
                lemma_horner_bound(d, i - 1);
                lemma_radix_range(i - 1);
                assert(horner(d, i - 1) == d[i - 1] + radix_at(i - 1) * horner(d, i as int));
                assert(sum@ * radix_at(i - 1) == radix_at(i - 1) * horner(d, i as int))
                    by (nonlinear_arith)
                    requires
                        sum@ == horner(d, i as int),
                ;
            }
            let radix = U256::from_u64(DECOMPOSITION_S_I[i - 1]);
            single = bigint_mul(&sum, &radix);
            proof {
                assert(single@ == radix_at(i - 1) * horner(d, i as int)) by (nonlinear_arith)
                    requires
                        single@ == sum@ * radix@,
                        radix@ == radix_at(i - 1),
                        sum@ == horner(d, i as int),
                ;
            }
        } else {
            single = sum;
        }
        k = i;
    }
    Scalar::from_raw(single.0)
}

/// The substitution of one digit.
pub fn small_s_box(x: u64) -> (y: u64)
    ensures
        y == substitute(x as nat),
        x < SBOX_THRESHOLD ==> y < SBOX_THRESHOLD,
        x >= SBOX_THRESHOLD ==> y == x,
{
    if x < SBOX_LEN {
        sbox_entry(x)
    } else {
        x
    }
}

/// The bar function on one field element.
pub fn bar_scalar(x: &Scalar) -> (y: Scalar)
    requires
        x.wf(),
    ensures
        y.wf(),
        y.value() == bar_value(x.value()),
{
    let digits = decompose(x);
    let mut nibbles = [0u64; 27];
    let mut k: usize = 0;
    while k < 27
        invariant
            0 <= k <= 27,
            forall|j: int| 0 <= j < k ==> nibbles[j] as nat == substitute(digits[j] as nat),
        decreases 27 - k,
    {
        nibbles[k] = small_s_box(digits[k]);
        k = k + 1;
    }
    proof {
        let d = decomposition(x.value());
        assert(digits_of(digits) == d);
        assert forall|j: int| 0 <= j < 27 implies digits_of(nibbles)[j] == substituted(d)[j] by {
            assert(digits_of(digits)[j] == d[j]);
        }
        assert(digits_of(nibbles) =~= substituted(d));
        lemma_mod_bound((x.raw() * montgomery_radix_inverse()) as int, modulus() as int);
        lemma_decomposition_in_range(x.value());
        lemma_substituted_in_range(d);
    }
    compute_whole_representation(nibbles)
}

/// The bar layer: the bar function on each coordinate of the state.
pub fn bar(state: &mut [Scalar; 3])
    requires
        forall|i: int| 0 <= i < 3 ==> old(state)[i].wf(),
    ensures
        forall|i: int| 0 <= i < 3 ==> (#[trigger] final(state)[i]).wf(),
        forall|i: int| 0 <= i < 3 ==> (#[trigger] final(state)[i]).value() == bar_value(old(state)[i].value()),
{
    let mut i: usize = 0;
    while i < 3
        invariant
            0 <= i <= 3,
            forall|j: int| 0 <= j < i ==> (#[trigger] state[j]).wf() && state[j].value() == bar_value(old(state)[j].value()),
            forall|j: int| i <= j < 3 ==> state[j] == old(state)[j],
            forall|j: int| 0 <= j < 3 ==> old(state)[j].wf(),
        decreases 3 - i,
    {
        let y = bar_scalar(&state[i]);
        state[i] = y;
        i = i + 1;
    }
}

} // verus!
