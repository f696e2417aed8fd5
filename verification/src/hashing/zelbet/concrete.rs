//! The concrete layer: the state is multiplied by a fixed matrix and a vector
//! of round constants is added.

use crate::constants::{lemma_matrix, matrix_at, MATRIX_BLS};
use crate::field::{
    congruent, lemma_congruent_value, lemma_field_add_congruent, lemma_field_mul_congruent, modulus,
    Scalar,
};
use crate::hashing::zelbet::{state_values, state_wf};
use vstd::prelude::*;

verus! {

/// All nine entries of a matrix are reduced.
pub open spec fn matrix_wf(matrix: [[Scalar; 3]; 3]) -> bool {
    state_wf(matrix[0]) && state_wf(matrix[1]) && state_wf(matrix[2])
}

/// The field elements that a matrix stands for, row by row.
pub open spec fn matrix_values(matrix: [[Scalar; 3]; 3]) -> Seq<Seq<nat>> {
    seq![state_values(matrix[0]), state_values(matrix[1]), state_values(matrix[2])]
}

/// The mixing matrix `circ(2, 1, 1)`.
pub open spec fn mds() -> Seq<Seq<nat>> {
    seq![seq![2nat, 1nat, 1nat], seq![1nat, 2nat, 1nat], seq![1nat, 1nat, 2nat]]
}

/// Coordinate `i` of the concrete layer: `c[i] + sum over j of m[i][j] * u[j]`.
pub open spec fn concrete_coordinate(u: Seq<nat>, m: Seq<Seq<nat>>, c: Seq<nat>, i: int) -> nat {
    (c[i] + m[i][0] * u[0] + m[i][1] * u[1] + m[i][2] * u[2]) % modulus()
}

/// The concrete layer with the matrix `m` and the constants `c`.
pub open spec fn concrete_values_with(u: Seq<nat>, m: Seq<Seq<nat>>, c: Seq<nat>) -> Seq<nat> {
    seq![
        concrete_coordinate(u, m, c, 0),
        concrete_coordinate(u, m, c, 1),
        concrete_coordinate(u, m, c, 2),
    ]
}

/// The concrete layer with the fixed matrix and the constants `c`.
pub open spec fn concrete_values(u: Seq<nat>, c: Seq<nat>) -> Seq<nat> {
    concrete_values_with(u, mds(), c)
}

/// One coordinate of the concrete layer: the constant and the products of
/// one row of the matrix with the state.
fn mix_row(state: &[Scalar; 3], row: &[Scalar; 3], constant: Scalar) -> (r: Scalar)
    requires
        state_wf(*state),
        state_wf(*row),
        constant.wf(),
    ensures
        r.wf(),
        r.value() == (constant.value() + row[0].value() * state[0].value() + row[1].value()
            * state[1].value() + row[2].value() * state[2].value()) % modulus(),
{
    let ghost p0 = (row[0].value() * state[0].value()) as int;
    let ghost p1 = (row[1].value() * state[1].value()) as int;
    let ghost p2 = (row[2].value() * state[2].value()) as int;
    let ghost c = constant.value() as int;
    let mut r = constant;
    let mut j: usize = 0;
    while j < 3
        invariant
            0 <= j <= 3,
            state_wf(*state),
            state_wf(*row),
            r.wf(),
            p0 == row[0].value() * state[0].value(),
            p1 == row[1].value() * state[1].value(),
            p2 == row[2].value() * state[2].value(),
            j == 0 ==> congruent(r.value() as int, c),
            j == 1 ==> congruent(r.value() as int, c + p0),
            j == 2 ==> congruent(r.value() as int, c + p0 + p1),
            j == 3 ==> congruent(r.value() as int, c + p0 + p1 + p2),
        decreases 3 - j,
    {
        let product = row[j].mul(&state[j]);
        let sum = r.add(&product);
        proof {
            let ghost pj = (row[j as int].value() * state[j as int].value()) as int;
            lemma_field_mul_congruent(
                row[j as int].value(),
                state[j as int].value(),
                row[j as int].value() as int,
                state[j as int].value() as int,
            );
            if j == 0 {
                lemma_field_add_congruent(r.value(), product.value(), c, pj);
            } else if j == 1 {
                lemma_field_add_congruent(r.value(), product.value(), c + p0, pj);
            } else {
                lemma_field_add_congruent(r.value(), product.value(), c + p0 + p1, pj);
            }
        }
        r = sum;
        j = j + 1;
    }
    proof {
        lemma_congruent_value(r, c + p0 + p1 + p2);
    }
    r
}

/// The concrete layer with a matrix of the caller's choice.
pub fn concrete_with_matrix(
    state: [Scalar; 3],
    matrix: [[Scalar; 3]; 3],
    constants: [Scalar; 3],
) -> (new_state: [Scalar; 3])
    requires
        state_wf(state),
        matrix_wf(matrix),
        state_wf(constants),
    ensures
        state_wf(new_state),
        state_values(new_state) == concrete_values_with(
            state_values(state),
            matrix_values(matrix),
            state_values(constants),
        ),
{
    let new_state = [
        mix_row(&state, &matrix[0], constants[0]),
        mix_row(&state, &matrix[1], constants[1]),
        mix_row(&state, &matrix[2], constants[2]),
    ];
    proof {
        let u = state_values(state);
        let m = matrix_values(matrix);
        let c = state_values(constants);
        assert(m[0] == state_values(matrix[0]));
        assert(m[1] == state_values(matrix[1]));
        assert(m[2] == state_values(matrix[2]));
        assert(new_state[0].value() == concrete_coordinate(u, m, c, 0));
        assert(new_state[1].value() == concrete_coordinate(u, m, c, 1));
        assert(new_state[2].value() == concrete_coordinate(u, m, c, 2));
        assert(state_values(new_state) =~= concrete_values_with(u, m, c));
    }
    new_state
}

/// The fixed mixing matrix.
pub fn mixing_matrix() -> (matrix: [[Scalar; 3]; 3])
    ensures
        matrix_wf(matrix),
        matrix_values(matrix) == mds(),
        forall|i: int, j: int| 0 <= i < 3 && 0 <= j < 3 ==> matrix[i][j] == Scalar(MATRIX_BLS[i][j]),
{
    let matrix = [
        [Scalar(MATRIX_BLS[0][0]), Scalar(MATRIX_BLS[0][1]), Scalar(MATRIX_BLS[0][2])],
        [Scalar(MATRIX_BLS[1][0]), Scalar(MATRIX_BLS[1][1]), Scalar(MATRIX_BLS[1][2])],
        [Scalar(MATRIX_BLS[2][0]), Scalar(MATRIX_BLS[2][1]), Scalar(MATRIX_BLS[2][2])],
    ];
    proof {
        assert forall|i: int, j: int| 0 <= i < 3 && 0 <= j < 3 implies (#[trigger] matrix[i][j]).wf()
            && matrix[i][j].value() == matrix_at(i, j) by {
            lemma_matrix(i, j);
        }
        assert(matrix_values(matrix)[0] =~= mds()[0]);
        assert(matrix_values(matrix)[1] =~= mds()[1]);
        assert(matrix_values(matrix)[2] =~= mds()[2]);
        assert(matrix_values(matrix) =~= mds());
    }
    matrix
}

/// The concrete layer.
pub fn concrete(state: [Scalar; 3], constants: [Scalar; 3]) -> (new_state: [Scalar; 3])
    requires
        state_wf(state),
        state_wf(constants),
    ensures
        state_wf(new_state),
        state_values(new_state) == concrete_values(state_values(state), state_values(constants)),
{
    concrete_with_matrix(state, mixing_matrix(), constants)
}

} // verus!
