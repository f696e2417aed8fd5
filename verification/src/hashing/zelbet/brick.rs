//! The brick layer: a power map on the first coordinate and two quadratic
//! maps that tie each of the other coordinates to the one before it.

use crate::constants::{lemma_small_constants, MONTGOMERY_FOUR, MONTGOMERY_THREE, MONTGOMERY_TWO};
use crate::field::{
    lemma_congruent_value, lemma_field_add_congruent, lemma_field_mul_congruent, modulus, Scalar,
};
use crate::hashing::zelbet::{state_values, state_wf};
use vstd::prelude::*;

verus! {

/// First coordinate of the brick layer: the fifth power.
pub open spec fn brick_first(x1: nat) -> nat {
    (x1 * x1 * x1 * x1 * x1) % modulus()
}

/// A later coordinate of the brick layer: `x * (w^2 + alpha * w + beta)`,
/// where `w` is the coordinate before `x`.
pub open spec fn brick_quadratic(w: nat, x: nat, alpha: nat, beta: nat) -> nat {
    (x * (w * w + alpha * w + beta)) % modulus()
}

/// The brick layer on three field elements.
pub open spec fn brick_values(s: Seq<nat>) -> Seq<nat> {
    seq![brick_first(s[0]), brick_quadratic(s[0], s[1], 1, 2), brick_quadratic(s[1], s[2], 3, 4)]
}

/// The brick layer.
pub fn brick(state: [Scalar; 3]) -> (new_state: [Scalar; 3])
    requires
        state_wf(state),
    ensures
        state_wf(new_state),
        state_values(new_state) == brick_values(state_values(state)),
{
    let two = Scalar(MONTGOMERY_TWO);
    let three = Scalar(MONTGOMERY_THREE);
    let four = Scalar(MONTGOMERY_FOUR);
    proof {
        lemma_small_constants();
    }
    let ghost x1 = state[0].value() as int;
    let ghost x2 = state[1].value() as int;
    let ghost x3 = state[2].value() as int;

    let x_squared = state[0].mul(&state[0]);
    let x_fourth = x_squared.mul(&x_squared);
    let first = x_fourth.mul(&state[0]);
    proof {
        lemma_field_mul_congruent(state[0].value(), state[0].value(), x1, x1);
        lemma_field_mul_congruent(x_squared.value(), x_squared.value(), x1 * x1, x1 * x1);
        lemma_field_mul_congruent(x_fourth.value(), state[0].value(), (x1 * x1) * (x1 * x1), x1);
        assert(((x1 * x1) * (x1 * x1)) * x1 == x1 * x1 * x1 * x1 * x1) by (nonlinear_arith);
        lemma_congruent_value(first, x1 * x1 * x1 * x1 * x1);
    }

    let sum = x_squared.add(&state[0]);
    let quadratic = sum.add(&two);
    let second = state[1].mul(&quadratic);
    proof {
        lemma_field_add_congruent(x_squared.value(), state[0].value(), x1 * x1, x1);
        lemma_field_add_congruent(sum.value(), two.value(), x1 * x1 + x1, 2);
        lemma_field_mul_congruent(state[1].value(), quadratic.value(), x2, x1 * x1 + x1 + 2);
        assert(x1 * x1 + 1 * x1 + 2 == x1 * x1 + x1 + 2);
        lemma_congruent_value(second, x2 * (x1 * x1 + 1 * x1 + 2));
    }

    let y_squared = state[1].mul(&state[1]);
    let scaled = three.mul(&state[1]);
    let sum = y_squared.add(&scaled);
    let quadratic = sum.add(&four);
    let third = state[2].mul(&quadratic);
    proof {
        lemma_field_mul_congruent(state[1].value(), state[1].value(), x2, x2);
        lemma_field_mul_congruent(three.value(), state[1].value(), 3, x2);
        lemma_field_add_congruent(y_squared.value(), scaled.value(), x2 * x2, 3 * x2);
        lemma_field_add_congruent(sum.value(), four.value(), x2 * x2 + 3 * x2, 4);
        lemma_field_mul_congruent(state[2].value(), quadratic.value(), x3, x2 * x2 + 3 * x2 + 4);
        lemma_congruent_value(third, x3 * (x2 * x2 + 3 * x2 + 4));
    }

    let new_state = [first, second, third];
    proof {
        assert(state_values(new_state) =~= brick_values(state_values(state)));
    }
    new_state
}

} // verus!
