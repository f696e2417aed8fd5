//! The layers of the permutation as circuits: each gadget appends witnesses
//! and gates to a composer and gives the variables of its outputs, whose
//! values are those of the layer itself.

use crate::composer::{
    add_input, assert_equal, big_add, big_mul, big_mul_value, composer_gates, composer_witnesses,
    equality_gate, extends, grows_by, holds, lemma_extends_transitive, lemma_grows_by_both,
    lemma_grows_by_nothing, lemma_holds_extends, lookup_gate, output_gate, plookup_gate,
    zero_variable, Gate, Variable,
};
use crate::constants::sbox::SBOX_THRESHOLD;
use crate::constants::{radix_at, BLS_SCALAR_REAL};
use crate::field::{congruent, lemma_congruent_value, modulus, montgomery_radix_inverse, Scalar};
use crate::hashing::zelbet::bar::{
    bar_value, composition, decompose, decomposition, digits_in_range, digits_of, horner,
    lemma_decomposition_in_range, lemma_horner_of_decomposition, small_s_box, substitute,
    substituted,
};
use crate::hashing::zelbet::brick::{brick_first, brick_quadratic};
use crate::hashing::zelbet::concrete::{concrete_coordinate, concrete_values, mds, mixing_matrix};
use dusk_plonk::constraint_system::TurboComposer;
use vstd::arithmetic::div_mod::{
    lemma_add_mod_noop, lemma_mod_bound, lemma_mod_twice, lemma_mul_mod_noop,
    lemma_mul_mod_noop_left, lemma_mul_mod_noop_right, lemma_small_mod,
};
use vstd::prelude::*;

verus! {

/// The composer holds each of the three variables.
pub open spec fn holds_state(composer: TurboComposer, state: [Variable; 3]) -> bool {
    holds(composer, state[0]) && holds(composer, state[1]) && holds(composer, state[2])
}

/// The field elements that three variables stand for.
pub open spec fn variable_values(state: [Variable; 3]) -> Seq<nat> {
    seq![state[0].value(), state[1].value(), state[2].value()]
}

/// The seven gates of the brick layer on the wires `s`, where `n` is the
/// index of the first new witness: three products for the fifth power, and a
/// sum and a product for each of the two quadratic maps.
#[verifier::opaque]
pub open spec fn brick_gates(n: nat, s: Seq<nat>, two: nat, three: nat, four: nat) -> Seq<Gate> {
    seq![
        output_gate(1, 0, 0, 0, 0, s[0], s[0], n, 0),
        output_gate(1, 0, 0, 0, 0, n, n, n + 1, 0),
        output_gate(1, 0, 0, 0, 0, n + 1, s[0], n + 2, 0),
        output_gate(0, 1, 1, 1, 0, n, s[0], n + 3, two),
        output_gate(1, 0, 0, 0, 0, s[1], n + 3, n + 4, 0),
        output_gate(1, 0, 0, three, four, s[1], s[1], n + 5, s[1]),
        output_gate(1, 0, 0, 0, 0, n + 5, s[2], n + 6, 0),
    ]
}

/// The second power of a field element.
pub open spec fn second_power(x: nat) -> nat {
    (x * x) % modulus()
}

/// The fourth power of a field element.
pub open spec fn fourth_power(x: nat) -> nat {
    (x * x * x * x) % modulus()
}

/// The quadratic term `w^2 + alpha * w + beta` of a field element.
pub open spec fn quadratic_term(w: nat, alpha: nat, beta: nat) -> nat {
    (w * w + alpha * w + beta) % modulus()
}

/// The field elements of the seven witnesses of the brick layer on the state
/// `(x1, x2, x3)`: the second, fourth and fifth power of `x1`, and the
/// quadratic term and the product of each of the two quadratic maps.
pub open spec fn brick_witnesses(x1: nat, x2: nat, x3: nat, two: nat, three: nat, four: nat) -> Seq<
    nat,
> {
    seq![
        second_power(x1),
        fourth_power(x1),
        brick_first(x1),
        quadratic_term(x1, 1, two),
        brick_quadratic(x1, x2, 1, two),
        quadratic_term(x2, three, four),
        brick_quadratic(x2, x3, three, four),
    ]
}

/// The indices of three variables.
pub open spec fn variable_indices(state: [Variable; 3]) -> Seq<nat> {
    seq![state[0].index(), state[1].index(), state[2].index()]
}

/// The fifth power as a circuit: three products. The variables of the
/// second and of the fifth power come back.
fn fifth_power_gadget(composer: &mut TurboComposer, x: Variable) -> (powers: (Variable, Variable))
    requires
        holds(*old(composer), x),
    ensures
        extends(*old(composer), *final(composer)),
        holds(*final(composer), powers.0),
        holds(*final(composer), powers.1),
        powers.0.value() == second_power(x.value()),
        powers.1.value() == brick_first(x.value()),
        powers.0.index() == composer_witnesses(*old(composer)).len(),
        powers.1.index() == composer_witnesses(*old(composer)).len() + 2,
        grows_by(
            *old(composer),
            *final(composer),
            seq![second_power(x.value()), fourth_power(x.value()), brick_first(x.value())],
        ),
        composer_gates(*final(composer)) == composer_gates(*old(composer)) + seq![
            output_gate(1, 0, 0, 0, 0, x.index(), x.index(), composer_witnesses(*old(composer)).len(), 0),
            output_gate(
                1,
                0,
                0,
                0,
                0,
                composer_witnesses(*old(composer)).len(),
                composer_witnesses(*old(composer)).len(),
                composer_witnesses(*old(composer)).len() + 1,
                0,
            ),
            output_gate(
                1,
                0,
                0,
                0,
                0,
                composer_witnesses(*old(composer)).len() + 1,
                x.index(),
                composer_witnesses(*old(composer)).len() + 2,
                0,
            ),
        ],
{
    let one = Scalar::one();
    let zero = Scalar::zero();
    let ghost c0 = *composer;
    let x_squared = crate::composer::mul(composer, one, x, x, zero);
    let ghost c1 = *composer;
    let x_fourth = crate::composer::mul(composer, one, x_squared, x_squared, zero);
    let ghost c2 = *composer;
    proof {
        lemma_holds_extends(c0, c1, x);
        lemma_holds_extends(c1, c2, x);
        lemma_holds_extends(c1, c2, x_squared);
    }
    let x_fifth = crate::composer::mul(composer, one, x_fourth, x, zero);
    proof {
        let v = x.value() as int;
        lemma_power_values(v, x_squared.value() as int, x_fourth.value() as int);
        lemma_holds_extends(c2, *composer, x_squared);
        lemma_grows_by_both(c0, c1, c2, seq![x_squared.value()], seq![x_fourth.value()]);
        assert(seq![x_squared.value()] + seq![x_fourth.value()] =~= seq![
            x_squared.value(),
            x_fourth.value(),
        ]);
        lemma_grows_by_both(
            c0,
            c2,
            *composer,
            seq![x_squared.value(), x_fourth.value()],
            seq![x_fifth.value()],
        );
        assert(seq![x_squared.value(), x_fourth.value()] + seq![x_fifth.value()] =~= seq![
            second_power(x.value()),
            fourth_power(x.value()),
            brick_first(x.value()),
        ]);
        lemma_extends_transitive(c0, c1, c2);
        lemma_extends_transitive(c0, c2, *composer);
        let n = composer_witnesses(c0).len();
        assert(composer_gates(*composer) =~= composer_gates(c0) + seq![
            output_gate(1, 0, 0, 0, 0, x.index(), x.index(), n, 0),
            output_gate(1, 0, 0, 0, 0, n, n, n + 1, 0),
            output_gate(1, 0, 0, 0, 0, n + 1, x.index(), n + 2, 0),
        ]);
    }
    (x_squared, x_fifth)
}

/// The values along the three products of the fifth power.
proof fn lemma_power_values(x: int, squared: int, fourth: int)
    requires
        0 <= x,
        squared == (1 * x * x + 0 * 0 + 0) % (modulus() as int),
        fourth == (1 * squared * squared + 0 * 0 + 0) % (modulus() as int),
    ensures
        squared == (x * x) % (modulus() as int),
        fourth == (x * x * x * x) % (modulus() as int),
        (1 * fourth * x + 0 * 0 + 0) % (modulus() as int) == (x * x * x * x * x) % (
        modulus() as int),
{
    let p = modulus() as int;
    assert(1 * x * x + 0 * 0 + 0 == x * x) by (nonlinear_arith);
    assert(1 * squared * squared + 0 * 0 + 0 == squared * squared) by (nonlinear_arith);
    assert(1 * fourth * x + 0 * 0 + 0 == fourth * x) by (nonlinear_arith);
    assert((x * x) * (x * x) == x * x * x * x) by (nonlinear_arith);
    assert(((x * x) * (x * x)) * x == x * x * x * x * x) by (nonlinear_arith);
    lemma_mul_mod_noop(x * x, x * x, p);
    lemma_mul_mod_noop_left((x * x) * (x * x), x, p);
}

/// A quadratic map of the brick layer as a circuit: the quadratic term on
/// the coordinate `w` comes from a gate of its own, and the product with `x`
/// follows. Where `squared` stands for the square of `w`, the term is a sum;
/// else it is the product of `w` with itself, to which the rest is added.
fn quadratic_gadget(
    composer: &mut TurboComposer,
    squared: Option<Variable>,
    w: Variable,
    x: Variable,
    alpha: (Scalar, Variable),
    beta: (Scalar, Variable),
) -> (output: Variable)
    requires
        holds(*old(composer), w),
        holds(*old(composer), x),
        alpha.0.wf(),
        beta.0.wf(),
        match squared {
            Some(s) => holds(*old(composer), s) && s.value() == second_power(w.value())
                && alpha.0.value() == 1 && alpha.1 == w && holds(*old(composer), beta.1)
                && beta.0.value() == 1,
            None => alpha.1 == w && holds(*old(composer), beta.1),
        },
    ensures
        extends(*old(composer), *final(composer)),
        holds(*final(composer), output),
        output.index() == composer_witnesses(*old(composer)).len() + 1,
        output.value() == brick_quadratic(
            w.value(),
            x.value(),
            alpha.0.value(),
            quadratic_constant(squared, beta),
        ),
        grows_by(
            *old(composer),
            *final(composer),
            seq![
                quadratic_term(w.value(), alpha.0.value(), quadratic_constant(squared, beta)),
                brick_quadratic(
                    w.value(),
                    x.value(),
                    alpha.0.value(),
                    quadratic_constant(squared, beta),
                ),
            ],
        ),
        composer_gates(*final(composer)) == composer_gates(*old(composer)) + quadratic_gates(
            composer_witnesses(*old(composer)).len(),
            squared,
            w.index(),
            x.index(),
            alpha.0.value(),
            beta,
        ),
{
    let one = Scalar::one();
    let zero = Scalar::zero();
    let ghost c0 = *composer;
    let ghost p = modulus() as int;
    let ghost wv = w.value() as int;
    let ghost xv = x.value() as int;
    let term = match squared {
        Some(s) => big_add(composer, (one, s), (one, w), (one, beta.1), zero),
        None => big_mul(composer, one, w, w, (alpha.0, w), beta.0),
    };
    let ghost c1 = *composer;
    proof {
        lemma_holds_extends(c0, c1, x);
        let b = quadratic_constant(squared, beta) as int;
        let a = alpha.0.value() as int;
        match squared {
            Some(s) => {
                assert(1 * s.value() + 1 * wv + 1 * beta.1.value() + 0 == s.value() + (wv + b));
                lemma_add_mod_noop(wv * wv, wv + b, p);
                lemma_add_mod_noop(s.value() as int, wv + b, p);
                lemma_mod_twice(wv * wv, p);
                assert(a * wv == wv) by (nonlinear_arith)
                    requires
                        a == 1,
                ;
            },
            None => {
                assert(1 * wv * wv + a * wv + b == wv * wv + a * wv + b) by (nonlinear_arith);
            },
        }
        assert(term.value() == (wv * wv + a * wv + b) % p);
    }
    let output = match squared {
        Some(_) => crate::composer::mul(composer, one, x, term, zero),
        None => crate::composer::mul(composer, one, term, x, zero),
    };
    proof {
        let b = quadratic_constant(squared, beta) as int;
        let a = alpha.0.value() as int;
        let t = term.value() as int;
        assert(1 * xv * t + 0 * 0 + 0 == xv * t) by (nonlinear_arith);
        assert(1 * t * xv + 0 * 0 + 0 == xv * t) by (nonlinear_arith);
        lemma_mul_mod_noop_right(xv, wv * wv + a * wv + b, p);
        lemma_grows_by_both(c0, c1, *composer, seq![term.value()], seq![output.value()]);
        assert(seq![term.value()] + seq![output.value()] =~= seq![term.value(), output.value()]);
        lemma_extends_transitive(c0, c1, *composer);
        assert(composer_gates(*composer) =~= composer_gates(c0) + quadratic_gates(
            composer_witnesses(c0).len(),
            squared,
            w.index(),
            x.index(),
            alpha.0.value(),
            beta,
        ));
    }
    output
}

/// The constant of a quadratic map: the value of a wire where the term is a
/// sum, and else a coefficient.
pub open spec fn quadratic_constant(squared: Option<Variable>, beta: (Scalar, Variable)) -> nat {
    match squared {
        Some(_) => beta.1.value(),
        None => beta.0.value(),
    }
}

/// The two gates of a quadratic map of the brick layer, where `n` is the
/// index of the first new witness.
pub open spec fn quadratic_gates(
    n: nat,
    squared: Option<Variable>,
    w: nat,
    x: nat,
    alpha: nat,
    beta: (Scalar, Variable),
) -> Seq<Gate> {
    match squared {
        Some(s) => seq![
            output_gate(0, 1, 1, 1, 0, s.index(), w, n, beta.1.index()),
            output_gate(1, 0, 0, 0, 0, x, n, n + 1, 0),
        ],
        None => seq![
            output_gate(1, 0, 0, alpha, beta.0.value(), w, w, n, w),
            output_gate(1, 0, 0, 0, 0, n, x, n + 1, 0),
        ],
    }
}

/// The brick layer as a circuit. The variable `two` and the scalars `three`
/// and `four` stand for the constants of the two quadratic maps.
#[verifier::rlimit(40)]
pub fn brick_gadget(
    composer: &mut TurboComposer,
    state: &[Variable; 3],
    two: Variable,
    three: Scalar,
    four: Scalar,
) -> (output: [Variable; 3])
    requires
        holds_state(*old(composer), *state),
        holds(*old(composer), two),
        three.wf(),
        four.wf(),
    ensures
        extends(*old(composer), *final(composer)),
        holds_state(*final(composer), output),
        output[0].value() == brick_first(state[0].value()),
        output[1].value() == brick_quadratic(state[0].value(), state[1].value(), 1, two.value()),
        output[2].value() == brick_quadratic(
            state[1].value(),
            state[2].value(),
            three.value(),
            four.value(),
        ),
        grows_by(
            *old(composer),
            *final(composer),
            brick_witnesses(
                state[0].value(),
                state[1].value(),
                state[2].value(),
                two.value(),
                three.value(),
                four.value(),
            ),
        ),
        output[0].index() == composer_witnesses(*old(composer)).len() + 2,
        output[1].index() == composer_witnesses(*old(composer)).len() + 4,
        output[2].index() == composer_witnesses(*old(composer)).len() + 6,
        composer_gates(*final(composer)) == composer_gates(*old(composer)) + brick_gates(
            composer_witnesses(*old(composer)).len(),
            variable_indices(*state),
            two.index(),
            three.value(),
            four.value(),
        ),
{
    let ghost c0 = *composer;
    let ghost n = composer_witnesses(c0).len();
    let one = Scalar::one();

    // x1^5
    let (x_squared, y_1) = fifth_power_gadget(composer, state[0]);
    let ghost c1 = *composer;
    proof {
        lemma_holds_extends(c0, c1, state[0]);
        lemma_holds_extends(c0, c1, state[1]);
        lemma_holds_extends(c0, c1, state[2]);
        lemma_holds_extends(c0, c1, two);
    }

    // x2 · (x1^2 + α1 · x1 + β1)
    let y_2 = quadratic_gadget(
        composer,
        Some(x_squared),
        state[0],
        state[1],
        (one, state[0]),
        (one, two),
    );
    let ghost c2 = *composer;
    proof {
        lemma_holds_extends(c1, c2, state[1]);
        lemma_holds_extends(c1, c2, state[2]);
        lemma_holds_extends(c1, c2, y_1);
    }

    // x3 · (x2^2 + α2 · x2 + β2)
    let y_3 = quadratic_gadget(
        composer,
        None,
        state[1],
        state[2],
        (three, state[1]),
        (four, state[1]),
    );
    let output = [y_1, y_2, y_3];
    proof {
        let x1 = state[0].value();
        let x2 = state[1].value();
        let x3 = state[2].value();
        let first = seq![second_power(x1), fourth_power(x1), brick_first(x1)];
        let second = seq![
            quadratic_term(x1, 1, two.value()),
            brick_quadratic(x1, x2, 1, two.value()),
        ];
        let third = seq![
            quadratic_term(x2, three.value(), four.value()),
            brick_quadratic(x2, x3, three.value(), four.value()),
        ];
        lemma_grows_by_both(c0, c1, c2, first, second);
        lemma_grows_by_both(c0, c2, *composer, first + second, third);
        assert(first + second + third =~= brick_witnesses(
            x1,
            x2,
            x3,
            two.value(),
            three.value(),
            four.value(),
        ));
        lemma_holds_extends(c2, *composer, y_1);
        lemma_holds_extends(c2, *composer, y_2);
        lemma_extends_transitive(c0, c1, c2);
        lemma_extends_transitive(c0, c2, *composer);
        reveal(brick_gates);
        assert(composer_gates(*composer) =~= composer_gates(c0) + brick_gates(
            n,
            variable_indices(*state),
            two.index(),
            three.value(),
            four.value(),
        ));
    }
    output
}

/// The two gates of one coordinate of the concrete layer, where `n` is the
/// index of the first new witness: the row of the matrix times the state,
/// and the round constant added to it.
pub open spec fn concrete_row_gates(n: nat, row: Seq<nat>, s: Seq<nat>, c: nat) -> Seq<Gate> {
    seq![
        output_gate(0, row[0], row[1], row[2], 0, s[0], s[1], n, s[2]),
        output_gate(0, 1, 1, 0, 0, n, c, n + 1, 0),
    ]
}

/// The product of one row of a matrix with a state.
pub open spec fn row_product(row: Seq<nat>, u: Seq<nat>) -> nat {
    (row[0] * u[0] + row[1] * u[1] + row[2] * u[2]) % modulus()
}

/// The field elements of the six witnesses of the concrete layer on the
/// state `u` with the constants `c`: for each coordinate the product of its
/// row with the state, and the coordinate itself.
pub open spec fn concrete_witnesses(u: Seq<nat>, c: Seq<nat>) -> Seq<nat> {
    seq![
        row_product(mds()[0], u),
        concrete_coordinate(u, mds(), c, 0),
        row_product(mds()[1], u),
        concrete_coordinate(u, mds(), c, 1),
        row_product(mds()[2], u),
        concrete_coordinate(u, mds(), c, 2),
    ]
}

/// The six gates of the concrete layer on the wires `s` with the constants
/// on the wires `c`, where `n` is the index of the first new witness.
#[verifier::opaque]
pub open spec fn concrete_gates(n: nat, s: Seq<nat>, c: Seq<nat>) -> Seq<Gate> {
    concrete_row_gates(n, mds()[0], s, c[0]) + concrete_row_gates(n + 2, mds()[1], s, c[1])
        + concrete_row_gates(n + 4, mds()[2], s, c[2])
}

/// One coordinate of the concrete layer as a circuit.
fn concrete_row_gadget(
    composer: &mut TurboComposer,
    state: &[Variable; 3],
    row: &[Scalar; 3],
    constant: Variable,
) -> (output: Variable)
    requires
        holds_state(*old(composer), *state),
        holds(*old(composer), constant),
        row[0].wf(),
        row[1].wf(),
        row[2].wf(),
    ensures
        extends(*old(composer), *final(composer)),
        holds(*final(composer), output),
        output.value() == (constant.value() + row[0].value() * state[0].value() + row[1].value()
            * state[1].value() + row[2].value() * state[2].value()) % modulus(),
        grows_by(
            *old(composer),
            *final(composer),
            seq![
                row_product(
                    seq![row[0].value(), row[1].value(), row[2].value()],
                    variable_values(*state),
                ),
                output.value(),
            ],
        ),
        output.index() == composer_witnesses(*old(composer)).len() + 1,
        composer_gates(*final(composer)) == composer_gates(*old(composer)) + concrete_row_gates(
            composer_witnesses(*old(composer)).len(),
            seq![row[0].value(), row[1].value(), row[2].value()],
            variable_indices(*state),
            constant.index(),
        ),
{
    let zero = Scalar::zero();
    let one = Scalar::one();
    let unused = zero_variable(composer);
    let ghost c0 = *composer;
    let mixed = big_add(
        composer,
        (row[0], state[0]),
        (row[1], state[1]),
        (row[2], state[2]),
        zero,
    );
    let ghost c1 = *composer;
    let output = big_add(composer, (one, mixed), (one, constant), (zero, unused), zero);
    proof {
        lemma_extends_transitive(c0, c1, *composer);
        lemma_grows_by_both(c0, c1, *composer, seq![mixed.value()], seq![output.value()]);
        assert(seq![mixed.value()] + seq![output.value()] =~= seq![mixed.value(), output.value()]);
        let p = modulus() as int;
        let m = (row[0].value() * state[0].value() + row[1].value() * state[1].value()
            + row[2].value() * state[2].value()) as int;
        assert(mixed.value() == (m + 0) % p);
        assert(1 * mixed.value() + 1 * constant.value() + 0 * 0 + 0 == mixed.value()
            + constant.value()) by (nonlinear_arith);
        vstd::arithmetic::div_mod::lemma_add_mod_noop(m, constant.value() as int, p);
        vstd::arithmetic::div_mod::lemma_add_mod_noop(
            mixed.value() as int,
            constant.value() as int,
            p,
        );
        vstd::arithmetic::div_mod::lemma_mod_twice(m, p);
        assert(composer_gates(*composer) =~= composer_gates(*old(composer)) + concrete_row_gates(
            composer_witnesses(*old(composer)).len(),
            seq![row[0].value(), row[1].value(), row[2].value()],
            variable_indices(*state),
            constant.index(),
        ));
    }
    output
}

/// The concrete layer as a circuit, with the round constants as variables.
#[verifier::rlimit(40)]
pub fn concrete_gadget(
    composer: &mut TurboComposer,
    state: &[Variable; 3],
    constants: &[Variable; 3],
) -> (output: [Variable; 3])
    requires
        holds_state(*old(composer), *state),
        holds_state(*old(composer), *constants),
    ensures
        extends(*old(composer), *final(composer)),
        holds_state(*final(composer), output),
        variable_values(output) == concrete_values(
            variable_values(*state),
            variable_values(*constants),
        ),
        grows_by(
            *old(composer),
            *final(composer),
            concrete_witnesses(variable_values(*state), variable_values(*constants)),
        ),
        output[0].index() == composer_witnesses(*old(composer)).len() + 1,
        output[1].index() == composer_witnesses(*old(composer)).len() + 3,
        output[2].index() == composer_witnesses(*old(composer)).len() + 5,
        composer_gates(*final(composer)) == composer_gates(*old(composer)) + concrete_gates(
            composer_witnesses(*old(composer)).len(),
            variable_indices(*state),
            variable_indices(*constants),
        ),
{
    reveal(concrete_gates);
    let matrix = mixing_matrix();
    let ghost n = composer_witnesses(*composer).len();
    let ghost s = variable_indices(*state);
    let ghost c = variable_indices(*constants);
    let ghost u = variable_values(*state);
    let ghost k = variable_values(*constants);
    proof {
        assert(mds()[0] =~= seq![matrix[0][0].value(), matrix[0][1].value(), matrix[0][2].value()]);
        assert(mds()[1] =~= seq![matrix[1][0].value(), matrix[1][1].value(), matrix[1][2].value()]);
        assert(mds()[2] =~= seq![matrix[2][0].value(), matrix[2][1].value(), matrix[2][2].value()]);
    }
    let ghost c0 = *composer;
    let y_1 = concrete_row_gadget(composer, state, &matrix[0], constants[0]);
    let ghost c1 = *composer;
    let y_2 = concrete_row_gadget(composer, state, &matrix[1], constants[1]);
    let ghost c2 = *composer;
    let y_3 = concrete_row_gadget(composer, state, &matrix[2], constants[2]);
    let output = [y_1, y_2, y_3];
    proof {
        assert(y_1.value() == concrete_coordinate(u, mds(), k, 0));
        assert(y_2.value() == concrete_coordinate(u, mds(), k, 1));
        assert(y_3.value() == concrete_coordinate(u, mds(), k, 2));
        let first = seq![row_product(mds()[0], u), y_1.value()];
        let second = seq![row_product(mds()[1], u), y_2.value()];
        let third = seq![row_product(mds()[2], u), y_3.value()];
        lemma_extends_transitive(c0, c1, c2);
        lemma_extends_transitive(c0, c2, *composer);
        lemma_grows_by_both(c0, c1, c2, first, second);
        lemma_grows_by_both(c0, c2, *composer, first + second, third);
        assert(first + second + third =~= concrete_witnesses(u, k));
        assert(variable_values(output) =~= concrete_values(u, k));
        assert(composer_gates(*composer) =~= composer_gates(*old(composer)) + concrete_gates(
            n,
            s,
            c,
        ));
    }
    output
}

/// The counter counts one of the 27 digits, from the most significant one.
pub open spec fn counts_digit(counter: nat) -> bool {
    1 <= counter <= 27
}

/// The digit of `p - 1` that stands against the digit that is handled as
/// number `counter`, counted from the most significant one.
pub open spec fn field_order_digit(counter: nat) -> nat
    recommends
        counts_digit(counter),
{
    BLS_SCALAR_REAL[27 - counter] as nat
}

/// Whether the digits handled so far, this one included, have already told
/// the number apart from `p - 1`: a digit below the threshold or above its
/// digit of `p - 1` does so, another digit leaves things as they were. Where
/// the counter counts no digit, no digit of `p - 1` stands against the
/// digit, and only the threshold tells.
pub open spec fn carried(digit: nat, counter: nat, conditional: bool) -> bool {
    digit < SBOX_THRESHOLD || (counts_digit(counter) && digit > field_order_digit(counter))
        || conditional
}

/// The flag `c` of a digit: 1 below the threshold and below its digit of
/// `p - 1`; 2 above its digit of `p - 1`; at that digit, 2 where the digits
/// before have told the number apart from `p - 1`, else 0. Where the counter
/// counts no digit, the flag is 1.
pub open spec fn consistency_flag(digit: nat, counter: nat, conditional: bool) -> nat {
    if digit < SBOX_THRESHOLD {
        1
    } else if !counts_digit(counter) {
        1
    } else if digit > field_order_digit(counter) {
        2
    } else if digit == field_order_digit(counter) {
        if conditional {
            2
        } else {
            0
        }
    } else {
        1
    }
}

/// The flag `z` of a digit: 0 below the threshold, 1 from the threshold on.
pub open spec fn threshold_flag(digit: nat) -> nat {
    if digit < SBOX_THRESHOLD {
        0
    } else {
        1
    }
}

/// The one of three variables that stands for a flag.
pub open spec fn flag_variable(flag: nat, zero: Variable, one: Variable, two: Variable) -> Variable {
    if flag == 0 {
        zero
    } else if flag == 1 {
        one
    } else {
        two
    }
}

/// The one of three wires that stands for a flag.
pub open spec fn flag_wire(flag: nat, zero: nat, one: nat, two: nat) -> nat {
    if flag == 0 {
        zero
    } else if flag == 1 {
        one
    } else {
        two
    }
}

/// The field elements of the witnesses of the substitution of one digit:
/// the substitute of a digit below the threshold, and `counter · z`.
pub open spec fn s_box_witnesses(digit: nat, counter: nat) -> Seq<nat> {
    if digit < SBOX_THRESHOLD {
        seq![substitute(digit), 0nat]
    } else {
        seq![counter]
    }
}

/// The two flags of a digit and whether the digits so far, this one
/// included, have told the number apart from `p - 1`. Every counter is
/// taken: one that counts none of the 27 digits has no digit of `p - 1`
/// against it.
pub fn digit_flags(input_reduced: u64, counter: u64, conditional: bool) -> (flags: (u64, bool, u64))
    ensures
        flags.0 == consistency_flag(input_reduced as nat, counter as nat, conditional),
        flags.1 == carried(input_reduced as nat, counter as nat, conditional),
        flags.2 == threshold_flag(input_reduced as nat),
{
    if input_reduced < SBOX_THRESHOLD {
        (1, true, 0)
    } else if counter < 1 || counter > 27 {
        (1, conditional, 1)
    } else {
        let top = BLS_SCALAR_REAL[27 - counter as usize];
        if input_reduced > top {
            (2, true, 1)
        } else if input_reduced == top {
            if conditional {
                (2, true, 1)
            } else {
                (0, conditional, 1)
            }
        } else {
            (1, conditional, 1)
        }
    }
}

/// The one of three variables that stands for a flag.
fn pick_flag(flag: u64, zero: Variable, one: Variable, two: Variable) -> (v: Variable)
    ensures
        v == flag_variable(flag as nat, zero, one, two),
{
    if flag == 0 {
        zero
    } else if flag == 1 {
        one
    } else {
        two
    }
}

/// The substitution of one digit as a circuit, with its two flags. The
/// result holds the substituted digit, the flag `c`, whether the digits so
/// far have told the number apart from `p - 1`, and the flag `z`.
///
/// A digit below the threshold gets a new witness for its substitute. In
/// either case a witness for `counter · z` follows, and a lookup gate on the
/// digit, that witness, the substitute and the flag `c`. Every counter is
/// taken.
pub fn s_box_and_constraints(
    composer: &mut TurboComposer,
    input_mont: Variable,
    input_reduced: u64,
    counter: u64,
    conditional: bool,
    zero: Variable,
    one: Variable,
    two: Variable,
) -> (result: (Variable, Variable, bool, Variable))
    requires
        holds(*old(composer), input_mont),
        holds(*old(composer), zero),
        holds(*old(composer), one),
        holds(*old(composer), two),
    ensures
        extends(*old(composer), *final(composer)),
        holds(*final(composer), result.0),
        input_reduced < SBOX_THRESHOLD ==> result.0.value() == substitute(input_reduced as nat),
        input_reduced >= SBOX_THRESHOLD ==> result.0 == input_mont,
        input_reduced < SBOX_THRESHOLD ==> result.0.index() == composer_witnesses(
            *old(composer),
        ).len(),
        result.1 == flag_variable(
            consistency_flag(input_reduced as nat, counter as nat, conditional),
            zero,
            one,
            two,
        ),
        result.2 == carried(input_reduced as nat, counter as nat, conditional),
        result.3 == flag_variable(threshold_flag(input_reduced as nat), zero, one, two),
        composer_witnesses(*final(composer)).len() == composer_witnesses(*old(composer)).len() + 2
            - threshold_flag(input_reduced as nat),
        grows_by(
            *old(composer),
            *final(composer),
            s_box_witnesses(input_reduced as nat, counter as nat),
        ),
        composer_gates(*final(composer)) == composer_gates(*old(composer)).push(
            lookup_gate(
                input_mont.index(),
                (composer_witnesses(*final(composer)).len() - 1) as nat,
                result.0.index(),
                result.1.index(),
            ),
        ),
{
    let (flag_c, conditional_new, flag_z) = digit_flags(input_reduced, counter, conditional);
    let c_i = pick_flag(flag_c, zero, one, two);
    let z_i = pick_flag(flag_z, zero, one, two);
    let y_i = if input_reduced < SBOX_THRESHOLD {
        add_input(composer, Scalar::from_u64(small_s_box(input_reduced)))
    } else {
        proof {
            assert(input_mont.value() < modulus());
        }
        input_mont
    };
    let ghost middle = *composer;
    proof {
        assert(extends(*old(composer), middle));
        assert(holds(middle, y_i));
        assert(holds(middle, input_mont));
        assert(holds(middle, c_i));
        if input_reduced >= SBOX_THRESHOLD {
            lemma_grows_by_nothing(*old(composer), middle);
        }
    }
    let scaled = if flag_z == 0 {
        0
    } else {
        counter
    };
    let scaled_z_i = add_input(composer, Scalar::from_u64(scaled));
    let ghost added = *composer;
    plookup_gate(composer, input_mont, scaled_z_i, y_i, c_i);
    proof {
        let first = if input_reduced < SBOX_THRESHOLD {
            seq![substitute(input_reduced as nat)]
        } else {
            Seq::<nat>::empty()
        };
        lemma_grows_by_both(*old(composer), middle, added, first, seq![scaled as nat]);
        lemma_grows_by_both(
            *old(composer),
            added,
            *composer,
            first + seq![scaled as nat],
            Seq::<nat>::empty(),
        );
        assert(first + seq![scaled as nat] + Seq::<nat>::empty() =~= s_box_witnesses(
            input_reduced as nat,
            counter as nat,
        ));
    }
    (y_i, c_i, conditional_new, z_i)
}

/// The composer holds each of the 27 variables.
pub open spec fn holds_all(composer: TurboComposer, variables: [Variable; 27]) -> bool {
    forall|k: int| 0 <= k < 27 ==> holds(composer, #[trigger] variables[k])
}

/// The indices of 27 variables.
pub open spec fn indices_of(variables: [Variable; 27]) -> Seq<nat> {
    Seq::new(27, |k: int| variables[k].index())
}

/// The field elements that 27 variables stand for.
pub open spec fn values_of_all(variables: [Variable; 27]) -> Seq<nat> {
    Seq::new(27, |k: int| variables[k].value())
}

/// The 27 variables stand for the radices.
pub open spec fn holds_radices(composer: TurboComposer, variables: [Variable; 27]) -> bool {
    &&& holds_all(composer, variables)
    &&& forall|k: int| 0 <= k < 27 ==> (#[trigger] variables[k]).value() == radix_at(k)
}

/// The 26 gates of Horner's rule on the digit wires `d` with the radix wires
/// `s`. Gate `j` multiplies what was gathered so far by radix `25 - j` and
/// adds digit `25 - j`. The first gate takes the wire `first`, each later one
/// the output of the one before; the outputs are the witnesses from `n` on.
pub open spec fn horner_gates(first: nat, d: Seq<nat>, s: Seq<nat>, n: nat) -> Seq<Gate> {
    Seq::new(
        26,
        |j: int|
            output_gate(
                1,
                0,
                0,
                1,
                0,
                if j == 0 {
                    first
                } else {
                    (n + j - 1) as nat
                },
                s[25 - j],
                (n + j) as nat,
                d[25 - j],
            ),
    )
}

/// Horner's rule in the field, on the digits from `k` upwards.
pub open spec fn field_horner(d: Seq<nat>, s: Seq<nat>, k: int) -> nat
    decreases 26 - k,
{
    if k >= 26 {
        d[26]
    } else {
        big_mul_value(1, field_horner(d, s, k + 1), s[k], 1, d[k], 0)
    }
}

/// The field elements of the 26 witnesses of Horner's rule: what is gathered
/// from digit 25 on, from digit 24 on, and so on.
pub open spec fn horner_witnesses(d: Seq<nat>, s: Seq<nat>) -> Seq<nat> {
    Seq::new(26, |j: int| field_horner(d, s, 25 - j))
}

/// Horner's rule as a circuit: the 26 gates of `horner_gates`, whose last
/// output comes back.
fn horner_gadget(
    composer: &mut TurboComposer,
    first: Variable,
    digits: &[Variable; 27],
    s_i_decomposition: &[Variable; 27],
) -> (output: Variable)
    requires
        holds(*old(composer), first),
        holds_all(*old(composer), *digits),
        holds_all(*old(composer), *s_i_decomposition),
        first.value() == digits[26].value(),
    ensures
        extends(*old(composer), *final(composer)),
        holds(*final(composer), output),
        output.value() == field_horner(
            values_of_all(*digits),
            values_of_all(*s_i_decomposition),
            0,
        ),
        composer_witnesses(*final(composer)).len() == composer_witnesses(*old(composer)).len()
            + 26,
        grows_by(
            *old(composer),
            *final(composer),
            horner_witnesses(values_of_all(*digits), values_of_all(*s_i_decomposition)),
        ),
        output.index() == composer_witnesses(*old(composer)).len() + 25,
        composer_gates(*final(composer)) == composer_gates(*old(composer)) + horner_gates(
            first.index(),
            indices_of(*digits),
            indices_of(*s_i_decomposition),
            composer_witnesses(*old(composer)).len(),
        ),
{
    let ghost n = composer_witnesses(*composer).len();
    let ghost d = values_of_all(*digits);
    let ghost s = values_of_all(*s_i_decomposition);
    let ghost gates = horner_gates(
        first.index(),
        indices_of(*digits),
        indices_of(*s_i_decomposition),
        n,
    );
    let ghost fresh = horner_witnesses(d, s);
    let one = Scalar::one();
    let zero = Scalar::zero();
    let mut accumulator = first;
    let mut k: usize = 26;
    proof {
        lemma_grows_by_nothing(*composer, *composer);
        assert(fresh.subrange(0, 0) =~= Seq::<nat>::empty());
    }
    while k > 0
        invariant
            0 <= k <= 26,
            fresh == horner_witnesses(d, s),
            grows_by(*old(composer), *composer, fresh.subrange(0, 26 - k)),
            one.wf(),
            one.value() == 1,
            zero.wf(),
            zero.value() == 0,
            n == composer_witnesses(*old(composer)).len(),
            d == values_of_all(*digits),
            s == values_of_all(*s_i_decomposition),
            gates == horner_gates(
                first.index(),
                indices_of(*digits),
                indices_of(*s_i_decomposition),
                n,
            ),
            extends(*old(composer), *composer),
            holds_all(*composer, *digits),
            holds_all(*composer, *s_i_decomposition),
            holds(*composer, accumulator),
            accumulator.value() == field_horner(d, s, k as int),
            composer_witnesses(*composer).len() == n + 26 - k,
            k == 26 ==> accumulator == first,
            k < 26 ==> accumulator.index() == n + 25 - k,
            composer_gates(*composer) == composer_gates(*old(composer)) + gates.subrange(
                0,
                26 - k,
            ),
        decreases k,
    {
        let ghost before = *composer;
        let ghost j = 26 - k;
        accumulator =
        big_mul(
            composer,
            one,
            accumulator,
            s_i_decomposition[k - 1],
            (one, digits[k - 1]),
            zero,
        );
        proof {
            assert(s[k - 1] == s_i_decomposition[k - 1].value());
            assert(d[k - 1] == digits[k - 1].value());
            lemma_extends_transitive(*old(composer), before, *composer);
            lemma_grows_by_both(
                *old(composer),
                before,
                *composer,
                fresh.subrange(0, j),
                seq![accumulator.value()],
            );
            assert(fresh[j] == field_horner(d, s, k - 1));
            assert(fresh.subrange(0, j) + seq![accumulator.value()] =~= fresh.subrange(0, j + 1));
            assert(gates[j] == output_gate(
                1,
                0,
                0,
                1,
                0,
                if j == 0 {
                    first.index()
                } else {
                    (n + j - 1) as nat
                },
                s_i_decomposition[k - 1].index(),
                (n + j) as nat,
                digits[k - 1].index(),
            ));
            assert(gates.subrange(0, j + 1) =~= gates.subrange(0, j).push(gates[j]));
            assert(composer_gates(*composer) =~= composer_gates(*old(composer)) + gates.subrange(
                0,
                j + 1,
            ));
            assert forall|i: int| 0 <= i < 27 implies holds(*composer, #[trigger] digits[i]) by {
                assert(holds(before, digits[i]));
            }
            assert forall|i: int| 0 <= i < 27 implies holds(
                *composer,
                #[trigger] s_i_decomposition[i],
            ) by {
                assert(holds(before, s_i_decomposition[i]));
            }
        }
        k = k - 1;
    }
    proof {
        assert(gates.subrange(0, 26) =~= gates);
        assert(fresh.subrange(0, 26) =~= fresh);
    }
    accumulator
}

/// Horner's rule in the field, on wires that stand for the radices, gives
/// the remainder of Horner's rule on the integers.
pub proof fn lemma_field_horner(d: Seq<nat>, s: Seq<nat>, k: int)
    requires
        0 <= k <= 26,
        d.len() == 27,
        s.len() == 27,
        forall|j: int| 0 <= j < 27 ==> s[j] == radix_at(j),
    ensures
        congruent(field_horner(d, s, k) as int, horner(d, k) as int),
    decreases 26 - k,
{
    if k < 26 {
        lemma_field_horner(d, s, k + 1);
        let p = modulus() as int;
        let f = field_horner(d, s, k + 1) as int;
        let h = horner(d, k + 1) as int;
        let r = radix_at(k) as int;
        assert(1 * f * r + 1 * d[k] + 0 == f * r + d[k]) by (nonlinear_arith);
        lemma_mul_mod_noop_left(f, r, p);
        lemma_mul_mod_noop_left(h, r, p);
        lemma_add_mod_noop(f * r, d[k] as int, p);
        lemma_add_mod_noop(h * r, d[k] as int, p);
        lemma_mod_twice(f * r + d[k], p);
        assert(h * r == r * h) by (nonlinear_arith);
    }
}

/// The gates of the decomposition, where `n` is the index of the first new
/// witness: the 26 gates of Horner's rule on the digit wires `n` to
/// `n + 26`, and a gate that ties their last output to the wire `input`.
pub open spec fn decomposition_gates(n: nat, input: nat, s: Seq<nat>) -> Seq<Gate> {
    horner_gates(n + 26, Seq::new(27, |k: int| (n + k) as nat), s, n + 27).push(
        equality_gate(n + 52, input),
    )
}

/// The field elements of the 53 witnesses of the decomposition of `x` with
/// the radices `s`: the 27 digits, and the 26 witnesses of Horner's rule on
/// them.
pub open spec fn decomposition_witnesses(x: nat, s: Seq<nat>) -> Seq<nat> {
    decomposition(x) + horner_witnesses(decomposition(x), s)
}

/// The decomposition as a circuit: the 27 digits of the input become
/// witnesses, and the gates of `decomposition_gates` tie them to the input.
/// The digits come back as variables and as machine words.
pub fn decomposition_gadget(
    composer: &mut TurboComposer,
    input: Variable,
    s_i_decomposition: &[Variable; 27],
) -> (tuple: ([Variable; 27], [u64; 27]))
    requires
        holds(*old(composer), input),
        holds_radices(*old(composer), *s_i_decomposition),
    ensures
        extends(*old(composer), *final(composer)),
        holds_all(*final(composer), tuple.0),
        values_of_all(tuple.0) == decomposition(input.value()),
        digits_of(tuple.1) == decomposition(input.value()),
        forall|k: int| 0 <= k < 27 ==> (#[trigger] tuple.0[k]).index() == composer_witnesses(
            *old(composer),
        ).len() + k,
        composer_witnesses(*final(composer)).len() == composer_witnesses(*old(composer)).len()
            + 53,
        grows_by(
            *old(composer),
            *final(composer),
            decomposition_witnesses(input.value(), values_of_all(*s_i_decomposition)),
        ),
        composer_gates(*final(composer)) == composer_gates(*old(composer)) + decomposition_gates(
            composer_witnesses(*old(composer)).len(),
            input.index(),
            indices_of(*s_i_decomposition),
        ),
{
    let ghost n = composer_witnesses(*composer).len();
    let ghost x = input.value();
    let digits = decompose(&input.scalar);
    proof {
        lemma_mod_bound(
            (input.scalar.raw() * montgomery_radix_inverse()) as int,
            modulus() as int,
        );
        lemma_decomposition_in_range(x);
    }
    let mut nibbles = [input; 27];
    let mut k: usize = 0;
    proof {
        lemma_grows_by_nothing(*composer, *composer);
        assert(decomposition(x).subrange(0, 0) =~= Seq::<nat>::empty());
    }
    while k < 27
        invariant
            0 <= k <= 27,
            grows_by(*old(composer), *composer, decomposition(x).subrange(0, k as int)),
            n == composer_witnesses(*old(composer)).len(),
            x == input.value(),
            digits_of(digits) == decomposition(x),
            digits_in_range(decomposition(x)),
            extends(*old(composer), *composer),
            holds(*composer, input),
            holds_all(*composer, *s_i_decomposition),
            composer_witnesses(*composer).len() == n + k,
            composer_gates(*composer) == composer_gates(*old(composer)),
            forall|j: int| 0 <= j < k ==> holds(*composer, #[trigger] nibbles[j]),
            forall|j: int| 0 <= j < k ==> (#[trigger] nibbles[j]).index() == n + j,
            forall|j: int| 0 <= j < k ==> (#[trigger] nibbles[j]).value() == digits[j],
            forall|j: int| k <= j < 27 ==> nibbles[j] == input,
        decreases 27 - k,
    {
        let ghost before = *composer;
        let ghost held = nibbles;
        let nibble = add_input(composer, Scalar::from_u64(digits[k]));
        nibbles[k] = nibble;
        proof {
            assert(digits_of(digits)[k as int] == decomposition(x)[k as int]);
            lemma_extends_transitive(*old(composer), before, *composer);
            lemma_grows_by_both(
                *old(composer),
                before,
                *composer,
                decomposition(x).subrange(0, k as int),
                seq![nibble.value()],
            );
            assert(decomposition(x).subrange(0, k as int) + seq![nibble.value()]
                =~= decomposition(x).subrange(0, k + 1));
            assert forall|j: int| 0 <= j < k + 1 implies holds(*composer, #[trigger] nibbles[j]) by {
                if j < k {
                    assert(holds(before, held[j]));
                }
            }
            assert forall|i: int| 0 <= i < 27 implies holds(
                *composer,
                #[trigger] s_i_decomposition[i],
            ) by {
                assert(holds(before, s_i_decomposition[i]));
            }
        }
        k = k + 1;
    }
    proof {
        assert(values_of_all(nibbles) =~= decomposition(x)) by {
            assert forall|j: int| 0 <= j < 27 implies values_of_all(nibbles)[j] == decomposition(
                x,
            )[j] by {
                assert(digits_of(digits)[j] == decomposition(x)[j]);
            }
        }
        assert(indices_of(nibbles) =~= Seq::new(27, |k: int| (n + k) as nat));
    }
    let ghost middle = *composer;
    let recomposed = horner_gadget(composer, nibbles[26], &nibbles, s_i_decomposition);
    let ghost gathered = *composer;
    proof {
        assert(holds(middle, input));
        lemma_extends_transitive(*old(composer), middle, gathered);
        let d = decomposition(x);
        let s = values_of_all(*s_i_decomposition);
        lemma_field_horner(d, s, 0);
        lemma_horner_of_decomposition(x, 0);
        lemma_small_mod(x, modulus());
        lemma_mod_bound(
            (recomposed.scalar.raw() * montgomery_radix_inverse()) as int,
            modulus() as int,
        );
        lemma_small_mod(recomposed.value(), modulus());
        assert(recomposed.value() == input.value());
    }
    assert_equal(composer, recomposed, input);
    proof {
        lemma_extends_transitive(*old(composer), gathered, *composer);
        assert(decomposition(x).subrange(0, 27) =~= decomposition(x));
        let rest = horner_witnesses(decomposition(x), values_of_all(*s_i_decomposition));
        lemma_grows_by_both(*old(composer), middle, gathered, decomposition(x), rest);
        lemma_grows_by_both(
            *old(composer),
            gathered,
            *composer,
            decomposition(x) + rest,
            Seq::<nat>::empty(),
        );
        assert(decomposition(x) + rest + Seq::<nat>::empty() =~= decomposition_witnesses(
            x,
            values_of_all(*s_i_decomposition),
        ));
        assert forall|j: int| 0 <= j < 27 implies holds(*composer, #[trigger] nibbles[j]) by {
            assert(holds(middle, nibbles[j]));
        }
        assert(composer_gates(*composer) =~= composer_gates(*old(composer)) + decomposition_gates(
            n,
            input.index(),
            indices_of(*s_i_decomposition),
        ));
    }
    (nibbles, digits)
}

/// Whether the `j` most significant digits have told the number apart from
/// `p - 1`.
pub open spec fn told_apart(digits: Seq<nat>, j: nat) -> bool
    decreases j,
{
    if j == 0 {
        false
    } else {
        carried(digits[27 - j], j, told_apart(digits, (j - 1) as nat))
    }
}

/// The number of witnesses that the substitution of the `j` most significant
/// digits appends: two for a digit below the threshold, one for another.
pub open spec fn fresh_witnesses(digits: Seq<nat>, j: nat) -> nat
    decreases j,
{
    if j == 0 {
        0
    } else {
        (fresh_witnesses(digits, (j - 1) as nat) + 2 - threshold_flag(digits[27 - j])) as nat
    }
}

/// The field elements of the witnesses of the substitution of the `j` most
/// significant digits, most significant digit first.
pub open spec fn substitution_witnesses(digits: Seq<nat>, j: nat) -> Seq<nat>
    decreases j,
{
    if j == 0 {
        Seq::empty()
    } else {
        substitution_witnesses(digits, (j - 1) as nat) + s_box_witnesses(digits[27 - j], j)
    }
}

/// The wire of the substitute of digit `k`: a new witness for a digit below
/// the threshold, the wire of the digit itself for another. The new
/// witnesses start at `m`.
pub open spec fn substituted_wire(wires: Seq<nat>, digits: Seq<nat>, m: nat, k: int) -> nat {
    if digits[k] < SBOX_THRESHOLD {
        m + fresh_witnesses(digits, (26 - k) as nat)
    } else {
        wires[k]
    }
}

/// The flag `c` of digit `k`.
pub open spec fn consistency_flag_at(digits: Seq<nat>, k: int) -> nat {
    consistency_flag(digits[k], (27 - k) as nat, told_apart(digits, (26 - k) as nat))
}

/// The 27 lookup gates of the substitution, most significant digit first:
/// each on the wire of the digit, the wire of `counter · z`, the wire of the
/// substitute and the wire of the flag `c`.
pub open spec fn substitution_gates(
    wires: Seq<nat>,
    digits: Seq<nat>,
    m: nat,
    zero: nat,
    one: nat,
    two: nat,
) -> Seq<Gate> {
    Seq::new(
        27,
        |j: int|
            lookup_gate(
                wires[26 - j],
                (m + fresh_witnesses(digits, (j + 1) as nat) - 1) as nat,
                substituted_wire(wires, digits, m, 26 - j),
                flag_wire(consistency_flag_at(digits, 26 - j), zero, one, two),
            ),
    )
}

/// The substitution of all digits as a circuit, most significant digit
/// first. The substitutes come back, and the flags `c` and `z` of each digit.
#[verifier::rlimit(40)]
pub fn substitution_gadget(
    composer: &mut TurboComposer,
    tuple_mont: [Variable; 27],
    tuple_reduced: [u64; 27],
    zero: Variable,
    one: Variable,
    two: Variable,
) -> (result: ([Variable; 27], [Variable; 27], [Variable; 27]))
    requires
        holds_all(*old(composer), tuple_mont),
        values_of_all(tuple_mont) == digits_of(tuple_reduced),
        holds(*old(composer), zero),
        holds(*old(composer), one),
        holds(*old(composer), two),
    ensures
        extends(*old(composer), *final(composer)),
        holds_all(*final(composer), result.0),
        values_of_all(result.0) == substituted(digits_of(tuple_reduced)),
        forall|k: int| 0 <= k < 27 ==> (#[trigger] result.0[k]).index() == substituted_wire(
            indices_of(tuple_mont),
            digits_of(tuple_reduced),
            composer_witnesses(*old(composer)).len(),
            k,
        ),
        forall|k: int| 0 <= k < 27 ==> #[trigger] result.1[k] == flag_variable(
            consistency_flag_at(digits_of(tuple_reduced), k),
            zero,
            one,
            two,
        ),
        forall|k: int| 0 <= k < 27 ==> #[trigger] result.2[k] == flag_variable(
            threshold_flag(tuple_reduced[k] as nat),
            zero,
            one,
            two,
        ),
        composer_witnesses(*final(composer)).len() == composer_witnesses(*old(composer)).len()
            + fresh_witnesses(digits_of(tuple_reduced), 27),
        grows_by(
            *old(composer),
            *final(composer),
            substitution_witnesses(digits_of(tuple_reduced), 27),
        ),
        composer_gates(*final(composer)) == composer_gates(*old(composer)) + substitution_gates(
            indices_of(tuple_mont),
            digits_of(tuple_reduced),
            composer_witnesses(*old(composer)).len(),
            zero.index(),
            one.index(),
            two.index(),
        ),
{
    let ghost m = composer_witnesses(*composer).len();
    let ghost digits = digits_of(tuple_reduced);
    let ghost wires = indices_of(tuple_mont);
    let ghost gates = substitution_gates(wires, digits, m, zero.index(), one.index(), two.index());
    let mut substitutes = tuple_mont;
    let mut c_i = [zero; 27];
    let mut z_i = [zero; 27];
    let mut conditional = false;
    let mut k: usize = 27;
    proof {
        lemma_grows_by_nothing(*composer, *composer);
    }
    while k > 0
        invariant
            0 <= k <= 27,
            grows_by(
                *old(composer),
                *composer,
                substitution_witnesses(digits, (27 - k) as nat),
            ),
            m == composer_witnesses(*old(composer)).len(),
            digits == digits_of(tuple_reduced),
            wires == indices_of(tuple_mont),
            gates == substitution_gates(wires, digits, m, zero.index(), one.index(), two.index()),
            values_of_all(tuple_mont) == digits,
            extends(*old(composer), *composer),
            holds(*composer, zero),
            holds(*composer, one),
            holds(*composer, two),
            holds_all(*composer, tuple_mont),
            holds_all(*composer, substitutes),
            conditional == told_apart(digits, (27 - k) as nat),
            composer_witnesses(*composer).len() == m + fresh_witnesses(digits, (27 - k) as nat),
            forall|i: int| 0 <= i < k ==> substitutes[i] == tuple_mont[i],
            forall|i: int| k <= i < 27 ==> (#[trigger] substitutes[i]).value() == substitute(digits[i]),
            forall|i: int| k <= i < 27 ==> (#[trigger] substitutes[i]).index() == substituted_wire(
                wires,
                digits,
                m,
                i,
            ),
            forall|i: int| k <= i < 27 ==> #[trigger] c_i[i] == flag_variable(
                consistency_flag_at(digits, i),
                zero,
                one,
                two,
            ),
            forall|i: int| k <= i < 27 ==> #[trigger] z_i[i] == flag_variable(
                threshold_flag(digits[i]),
                zero,
                one,
                two,
            ),
            composer_gates(*composer) == composer_gates(*old(composer)) + gates.subrange(
                0,
                27 - k,
            ),
        decreases k,
    {
        let i = k - 1;
        let ghost j = 26 - i;
        let ghost before = *composer;
        let ghost held = substitutes;
        proof {
            assert(holds(before, tuple_mont[i as int]));
            assert(digits[i as int] == tuple_reduced[i as int]);
            assert(values_of_all(tuple_mont)[i as int] == tuple_mont[i as int].value());
            assert(wires[i as int] == tuple_mont[i as int].index());
        }
        let result = s_box_and_constraints(
            composer,
            substitutes[i],
            tuple_reduced[i],
            (27 - i) as u64,
            conditional,
            zero,
            one,
            two,
        );
        substitutes[i] = result.0;
        c_i[i] = result.1;
        conditional = result.2;
        z_i[i] = result.3;
        proof {
            lemma_extends_transitive(*old(composer), before, *composer);
            lemma_grows_by_both(
                *old(composer),
                before,
                *composer,
                substitution_witnesses(digits, j as nat),
                s_box_witnesses(digits[i as int], (j + 1) as nat),
            );
            assert(substitution_witnesses(digits, (j + 1) as nat) == substitution_witnesses(
                digits,
                j as nat,
            ) + s_box_witnesses(digits[i as int], (j + 1) as nat));
            assert(fresh_witnesses(digits, (j + 1) as nat) == fresh_witnesses(digits, j as nat) + 2
                - threshold_flag(digits[i as int]));
            assert(told_apart(digits, (j + 1) as nat) == carried(
                digits[i as int],
                (j + 1) as nat,
                told_apart(digits, j as nat),
            ));
            assert(gates[j] == lookup_gate(
                wires[i as int],
                (m + fresh_witnesses(digits, (j + 1) as nat) - 1) as nat,
                substituted_wire(wires, digits, m, i as int),
                flag_wire(
                    consistency_flag_at(digits, i as int),
                    zero.index(),
                    one.index(),
                    two.index(),
                ),
            ));
            assert(gates.subrange(0, j + 1) =~= gates.subrange(0, j).push(gates[j]));
            assert(composer_gates(*composer) =~= composer_gates(*old(composer)) + gates.subrange(
                0,
                j + 1,
            ));
            assert forall|t: int| 0 <= t < 27 implies holds(*composer, #[trigger] tuple_mont[t]) by {
                assert(holds(before, tuple_mont[t]));
            }
            assert forall|t: int| 0 <= t < 27 implies holds(*composer, #[trigger] substitutes[t]) by {
                if t != i {
                    assert(holds(before, held[t]));
                }
            }
        }
        k = i;
    }
    proof {
        assert(gates.subrange(0, 27) =~= gates);
        assert(values_of_all(substitutes) =~= substituted(digits));
    }
    (substitutes, c_i, z_i)
}

/// The lookup gate on the flag wires `k`, `k - 1`, `k - 2` and `k - 3`.
pub open spec fn flags_gate(flags: Seq<nat>, k: int) -> Gate {
    lookup_gate(flags[k], flags[k - 1], flags[k - 2], flags[k - 3])
}

/// The lookup gates on the flag wires from `k` upwards, every `stride`
/// positions.
pub open spec fn chain_gates(flags: Seq<nat>, k: int, stride: int) -> Seq<Gate>
    decreases
            if k <= 26 {
                27 - k
            } else {
                0
            },
{
    if k > 26 || stride <= 0 {
        Seq::empty()
    } else {
        seq![flags_gate(flags, k)] + chain_gates(flags, k + stride, stride)
    }
}

/// The lookup gates that tie the flags of neighbouring digits together: one
/// on the flag at `first` and the three before it, one at every `stride`
/// positions from there upwards, and a last one on the flags 3, 2, 1 and 0.
pub open spec fn consistency_gates(flags: Seq<nat>, first: int, stride: int) -> Seq<Gate> {
    chain_gates(flags, first, stride).push(flags_gate(flags, 3))
}

/// The gates of `consistency_gates` as a circuit.
fn consistency_gadget(
    composer: &mut TurboComposer,
    flags: &[Variable; 27],
    first: usize,
    stride: usize,
)
    requires
        holds_all(*old(composer), *flags),
        3 <= first <= 26,
        1 <= stride <= 26,
    ensures
        extends(*old(composer), *final(composer)),
        composer_witnesses(*final(composer)) == composer_witnesses(*old(composer)),
        grows_by(*old(composer), *final(composer), Seq::empty()),
        composer_gates(*final(composer)) == composer_gates(*old(composer)) + consistency_gates(
            indices_of(*flags),
            first as int,
            stride as int,
        ),
{
    let ghost wires = indices_of(*flags);
    let mut k: usize = first;
    while k <= 26
        invariant
            3 <= first <= k <= 26 + stride,
            1 <= stride <= 26,
            wires == indices_of(*flags),
            holds_all(*composer, *flags),
            extends(*old(composer), *composer),
            composer_witnesses(*composer) == composer_witnesses(*old(composer)),
            composer_gates(*composer) + chain_gates(wires, k as int, stride as int)
                == composer_gates(*old(composer)) + chain_gates(wires, first as int, stride as int),
        decreases 27 + stride - k,
    {
        let ghost before = composer_gates(*composer);
        plookup_gate(composer, flags[k], flags[k - 1], flags[k - 2], flags[k - 3]);
        proof {
            let rest = chain_gates(wires, k + stride, stride as int);
            assert(chain_gates(wires, k as int, stride as int) == seq![flags_gate(wires, k as int)]
                + rest);
            assert(before.push(flags_gate(wires, k as int)) + rest =~= before + (seq![
                flags_gate(wires, k as int),
            ] + rest));
        }
        k = k + stride;
    }
    plookup_gate(composer, flags[3], flags[2], flags[1], flags[0]);
    proof {
        lemma_grows_by_nothing(*old(composer), *composer);
        assert(chain_gates(wires, k as int, stride as int) =~= Seq::<Gate>::empty());
        assert(composer_gates(*composer) =~= composer_gates(*old(composer)) + consistency_gates(
            wires,
            first as int,
            stride as int,
        ));
    }
}

/// The gates that gather the substituted digits on the wires `d` into one
/// field element, where `n` is the index of the first new witness: a gate
/// that adds the most significant digit to a witness of value zero, and the
/// 26 gates of Horner's rule.
pub open spec fn accumulator_gates(n: nat, d: Seq<nat>, s: Seq<nat>) -> Seq<Gate> {
    seq![output_gate(0, 1, 1, 0, 0, n, d[26], n + 1, 0)] + horner_gates(n + 1, d, s, n + 2)
}

/// The field elements of the 28 witnesses that gather the digits `d` with the
/// radices `s`: zero, the most significant digit, and the 26 witnesses of
/// Horner's rule.
pub open spec fn accumulator_witnesses(d: Seq<nat>, s: Seq<nat>) -> Seq<nat> {
    seq![0nat, d[26]] + horner_witnesses(d, s)
}

/// The gates of `accumulator_gates` as a circuit. The variable that comes
/// back stands for the integer of the digits, reduced modulo `p`.
fn accumulator_gadget(
    composer: &mut TurboComposer,
    digits: &[Variable; 27],
    s_i_decomposition: &[Variable; 27],
) -> (output: Variable)
    requires
        holds_all(*old(composer), *digits),
        holds_radices(*old(composer), *s_i_decomposition),
    ensures
        extends(*old(composer), *final(composer)),
        holds(*final(composer), output),
        output.value() == composition(values_of_all(*digits)) % modulus(),
        composer_witnesses(*final(composer)).len() == composer_witnesses(*old(composer)).len()
            + 28,
        grows_by(
            *old(composer),
            *final(composer),
            accumulator_witnesses(values_of_all(*digits), values_of_all(*s_i_decomposition)),
        ),
        output.index() == composer_witnesses(*old(composer)).len() + 27,
        composer_gates(*final(composer)) == composer_gates(*old(composer)) + accumulator_gates(
            composer_witnesses(*old(composer)).len(),
            indices_of(*digits),
            indices_of(*s_i_decomposition),
        ),
{
    let ghost n = composer_witnesses(*composer).len();
    let ghost start = *composer;
    let zero = Scalar::zero();
    let one = Scalar::one();
    let accumulator_var = add_input(composer, zero);
    let ghost first_at = *composer;
    let unused = zero_variable(composer);
    proof {
        assert(holds(start, digits[26]));
    }
    let accumulator_var = big_add(
        composer,
        (one, accumulator_var),
        (one, digits[26]),
        (zero, unused),
        zero,
    );
    let ghost middle = *composer;
    proof {
        let p = modulus() as int;
        let top = digits[26].value();
        assert(1 * 0 + 1 * top + 0 * 0 + 0 == top) by (nonlinear_arith);
        lemma_mod_bound(
            (digits[26].scalar.raw() * montgomery_radix_inverse()) as int,
            modulus() as int,
        );
        lemma_small_mod(top, modulus());
        assert forall|i: int| 0 <= i < 27 implies holds(middle, #[trigger] digits[i]) by {
            assert(holds(start, digits[i]));
        }
        assert forall|i: int| 0 <= i < 27 implies holds(
            middle,
            #[trigger] s_i_decomposition[i],
        ) by {
            assert(holds(start, s_i_decomposition[i]));
        }
    }
    let output = horner_gadget(composer, accumulator_var, digits, s_i_decomposition);
    proof {
        let d = values_of_all(*digits);
        let rest = horner_witnesses(d, values_of_all(*s_i_decomposition));
        assert(accumulator_var.value() == d[26]);
        lemma_extends_transitive(start, first_at, middle);
        lemma_extends_transitive(start, middle, *composer);
        lemma_grows_by_both(start, first_at, middle, seq![0nat], seq![d[26]]);
        assert(seq![0nat] + seq![d[26]] =~= seq![0nat, d[26]]);
        lemma_grows_by_both(start, middle, *composer, seq![0nat, d[26]], rest);
        lemma_field_horner(values_of_all(*digits), values_of_all(*s_i_decomposition), 0);
        lemma_congruent_value(output.scalar, composition(values_of_all(*digits)) as int);
        assert(composer_gates(*composer) =~= composer_gates(*old(composer)) + accumulator_gates(
            n,
            indices_of(*digits),
            indices_of(*s_i_decomposition),
        ));
    }
    output
}

/// The wires of the flags `c` of the digits.
pub open spec fn consistency_wires(digits: Seq<nat>, zero: nat, one: nat, two: nat) -> Seq<nat> {
    Seq::new(27, |k: int| flag_wire(consistency_flag_at(digits, k), zero, one, two))
}

/// The wires of the flags `z` of the digits.
pub open spec fn threshold_wires(digits: Seq<nat>, zero: nat, one: nat, two: nat) -> Seq<nat> {
    Seq::new(27, |k: int| flag_wire(threshold_flag(digits[k]), zero, one, two))
}

/// The gates of the bar function on the field element `x`, where `n` is the
/// index of the first new witness: the gates of the decomposition, the 27
/// lookup gates of the substitution, the lookup gates on the flags `c`, from
/// digit 5 upwards and every third digit, those on the flags `z`, from digit
/// 6 upwards and every fourth digit, and the gates that gather the
/// substituted digits.
#[verifier::opaque]
pub open spec fn bar_gates(
    n: nat,
    x: nat,
    input: nat,
    s: Seq<nat>,
    zero: nat,
    one: nat,
    two: nat,
) -> Seq<Gate> {
    let digits = decomposition(x);
    let wires = Seq::new(27, |k: int| (n + k) as nat);
    let substitutes = Seq::new(27, |k: int| substituted_wire(wires, digits, n + 53, k));
    decomposition_gates(n, input, s) + substitution_gates(wires, digits, n + 53, zero, one, two)
        + consistency_gates(consistency_wires(digits, zero, one, two), 5, 3) + consistency_gates(
        threshold_wires(digits, zero, one, two),
        6,
        4,
    ) + accumulator_gates(n + 53 + fresh_witnesses(digits, 27), substitutes, s)
}

/// The radices.
pub open spec fn radices() -> Seq<nat> {
    Seq::new(27, |k: int| radix_at(k))
}

/// The field elements of the witnesses of the bar function on `x`: those of
/// the decomposition, those of the substitution, and those that gather the
/// substituted digits.
pub open spec fn bar_witnesses(x: nat) -> Seq<nat> {
    decomposition_witnesses(x, radices()) + substitution_witnesses(decomposition(x), 27)
        + accumulator_witnesses(substituted(decomposition(x)), radices())
}

/// The bar function as a circuit.
#[verifier::rlimit(40)]
pub fn bar_gadget(
    composer: &mut TurboComposer,
    input: Variable,
    s_i_decomposition: [Variable; 27],
    zero: Variable,
    one: Variable,
    two: Variable,
) -> (output: Variable)
    requires
        holds(*old(composer), input),
        holds_radices(*old(composer), s_i_decomposition),
        holds(*old(composer), zero),
        holds(*old(composer), one),
        holds(*old(composer), two),
    ensures
        extends(*old(composer), *final(composer)),
        holds(*final(composer), output),
        output.value() == bar_value(input.value()),
        composer_witnesses(*final(composer)).len() == composer_witnesses(*old(composer)).len() + 81
            + fresh_witnesses(decomposition(input.value()), 27),
        grows_by(*old(composer), *final(composer), bar_witnesses(input.value())),
        output.index() == composer_witnesses(*final(composer)).len() - 1,
        composer_gates(*final(composer)) == composer_gates(*old(composer)) + bar_gates(
            composer_witnesses(*old(composer)).len(),
            input.value(),
            input.index(),
            indices_of(s_i_decomposition),
            zero.index(),
            one.index(),
            two.index(),
        ),
{
    reveal(bar_gates);
    let ghost n = composer_witnesses(*composer).len();
    let ghost x = input.value();
    let ghost digits = decomposition(x);
    let ghost s = indices_of(s_i_decomposition);
    let ghost start = *composer;

    // Decomposition
    let (tuple_mont, tuple_reduced) = decomposition_gadget(composer, input, &s_i_decomposition);
    let ghost decomposed = *composer;
    proof {
        assert(indices_of(tuple_mont) =~= Seq::new(27, |k: int| (n + k) as nat));
        lemma_holds_extends(start, decomposed, zero);
        lemma_holds_extends(start, decomposed, one);
        lemma_holds_extends(start, decomposed, two);
    }

    // S-box and flags, most significant digit first
    let (substitutes, c_i, z_i) = substitution_gadget(
        composer,
        tuple_mont,
        tuple_reduced,
        zero,
        one,
        two,
    );
    let ghost substituted_at = *composer;
    proof {
        lemma_holds_extends(decomposed, substituted_at, zero);
        lemma_holds_extends(decomposed, substituted_at, one);
        lemma_holds_extends(decomposed, substituted_at, two);
        assert(holds_all(substituted_at, c_i));
        assert(holds_all(substituted_at, z_i));
        assert(indices_of(c_i) =~= consistency_wires(
            digits,
            zero.index(),
            one.index(),
            two.index(),
        ));
        assert(indices_of(z_i) =~= threshold_wires(digits, zero.index(), one.index(), two.index()))
            by {
            assert forall|k: int| 0 <= k < 27 implies indices_of(z_i)[k] == threshold_wires(
                digits,
                zero.index(),
                one.index(),
                two.index(),
            )[k] by {
                assert(digits_of(tuple_reduced)[k] == tuple_reduced[k]);
            }
        }
        assert(indices_of(substitutes) =~= Seq::new(
            27,
            |k: int| substituted_wire(Seq::new(27, |k: int| (n + k) as nat), digits, n + 53, k),
        ));
    }

    // Checks on the flags c
    consistency_gadget(composer, &c_i, 5, 3);
    let ghost checked_c = *composer;
    proof {
        assert forall|k: int| 0 <= k < 27 implies holds(checked_c, #[trigger] z_i[k]) by {
            assert(holds(substituted_at, z_i[k]));
        }
    }

    // Checks on the flags z
    consistency_gadget(composer, &z_i, 6, 4);
    let ghost checked_z = *composer;
    proof {
        lemma_extends_transitive(start, decomposed, substituted_at);
        lemma_extends_transitive(start, substituted_at, checked_c);
        lemma_extends_transitive(start, checked_c, checked_z);
        assert forall|k: int| 0 <= k < 27 implies holds(checked_z, #[trigger] substitutes[k]) by {
            assert(holds(substituted_at, substitutes[k]));
        }
        assert forall|k: int| 0 <= k < 27 implies holds(
            checked_z,
            #[trigger] s_i_decomposition[k],
        ) by {
            assert(holds(start, s_i_decomposition[k]));
        }
    }

    // The substituted digits, gathered again
    let output = accumulator_gadget(composer, &substitutes, &s_i_decomposition);
    proof {
        assert(values_of_all(s_i_decomposition) =~= radices());
        let first = decomposition_witnesses(x, radices());
        let second = substitution_witnesses(digits, 27);
        let third = accumulator_witnesses(substituted(digits), radices());
        lemma_grows_by_both(start, decomposed, substituted_at, first, second);
        lemma_grows_by_both(start, substituted_at, checked_c, first + second, Seq::<nat>::empty());
        assert(first + second + Seq::<nat>::empty() =~= first + second);
        lemma_grows_by_both(start, checked_c, checked_z, first + second, Seq::<nat>::empty());
        lemma_grows_by_both(start, checked_z, *composer, first + second, third);
        lemma_extends_transitive(start, checked_z, *composer);
        assert(composer_gates(*composer) =~= composer_gates(*old(composer)) + bar_gates(
            n,
            x,
            input.index(),
            s,
            zero.index(),
            one.index(),
            two.index(),
        ));
    }
    output
}

/// What a composer holds of 27 variables, it still holds once more is
/// appended.
pub proof fn lemma_holds_all_extends(
    before: TurboComposer,
    after: TurboComposer,
    variables: [Variable; 27],
)
    requires
        holds_all(before, variables),
        extends(before, after),
    ensures
        holds_all(after, variables),
{
    assert forall|k: int| 0 <= k < 27 implies holds(after, #[trigger] variables[k]) by {
        assert(holds(before, variables[k]));
    }
}

} // verus!
