//! The Zelbet permutation and its layers.

use crate::composer::{
    composer_gates, composer_values, composer_witnesses, extends, holds, lemma_extends_transitive,
    lemma_grows_by_length, lemma_holds_extends, lemma_reduced_extends, lemma_reduced_from_grows,
    reduced_from, Gate, Variable,
};
use crate::constants::{
    lemma_round_constants, lemma_small_constants, round_constant_at, CONSTANTS_BLS, MONTGOMERY_FOUR,
    MONTGOMERY_THREE,
};
use crate::field::Scalar;
use crate::hashing::gadgets::{
    bar_gadget, bar_gates, bar_witnesses, brick_gadget, brick_gates, brick_witnesses,
    concrete_gadget, concrete_gates, concrete_witnesses, holds_radices, holds_state, indices_of,
    lemma_holds_all_extends, variable_indices, variable_values,
};
use dusk_plonk::constraint_system::TurboComposer;
use vstd::prelude::*;

pub mod bar;
pub mod brick;
pub mod concrete;

pub use bar::bar;
pub use brick::brick;
pub use concrete::concrete;

use bar::bar_value;
use brick::brick_values;
use concrete::{
    concrete_values, concrete_values_with, concrete_with_matrix, matrix_values, matrix_wf, mds,
};

verus! {

/// All three coordinates are reduced.
pub open spec fn state_wf(state: [Scalar; 3]) -> bool {
    state[0].wf() && state[1].wf() && state[2].wf()
}

/// The field elements that a state stands for.
pub open spec fn state_values(state: [Scalar; 3]) -> Seq<nat> {
    seq![state[0].value(), state[1].value(), state[2].value()]
}

/// The bar layer on three field elements.
pub open spec fn bar_values(s: Seq<nat>) -> Seq<nat> {
    seq![bar_value(s[0]), bar_value(s[1]), bar_value(s[2])]
}

/// The permutation with the matrix `m` and the six vectors `rc` of round
/// constants: concrete and brick twice, concrete and bar, concrete and brick
/// twice, and a last concrete.
pub open spec fn permutation_values_with(s: Seq<nat>, m: Seq<Seq<nat>>, rc: Seq<Seq<nat>>) -> Seq<
    nat,
> {
    let s1 = brick_values(concrete_values_with(s, m, rc[0]));
    let s2 = brick_values(concrete_values_with(s1, m, rc[1]));
    let s3 = bar_values(concrete_values_with(s2, m, rc[2]));
    let s4 = brick_values(concrete_values_with(s3, m, rc[3]));
    let s5 = brick_values(concrete_values_with(s4, m, rc[4]));
    concrete_values_with(s5, m, rc[5])
}

/// The round constants of the six rounds.
pub open spec fn round_constants() -> Seq<Seq<nat>> {
    Seq::new(6, |round: int| Seq::new(3, |i: int| round_constant_at(round, i)))
}

/// The permutation with the fixed matrix and round constants.
#[verifier::opaque]
pub open spec fn permutation_values(s: Seq<nat>) -> Seq<nat> {
    permutation_values_with(s, mds(), round_constants())
}

/// All six vectors of round constants are reduced.
pub open spec fn rounds_wf(constants: [[Scalar; 3]; 6]) -> bool {
    forall|round: int| 0 <= round < 6 ==> state_wf(#[trigger] constants[round])
}

/// The field elements that six vectors of round constants stand for.
pub open spec fn rounds_values(constants: [[Scalar; 3]; 6]) -> Seq<Seq<nat>> {
    Seq::new(6, |round: int| state_values(constants[round]))
}

/// The constants of one round.
pub fn round_constants_of(round: usize) -> (constants: [Scalar; 3])
    requires
        round < 6,
    ensures
        state_wf(constants),
        state_values(constants) == round_constants()[round as int],
        forall|i: int| 0 <= i < 3 ==> constants[i] == Scalar(CONSTANTS_BLS[round as int][i]),
{
    let constants = [
        Scalar(CONSTANTS_BLS[round][0]),
        Scalar(CONSTANTS_BLS[round][1]),
        Scalar(CONSTANTS_BLS[round][2]),
    ];
    proof {
        lemma_round_constants(round as int, 0);
        lemma_round_constants(round as int, 1);
        lemma_round_constants(round as int, 2);
        assert(state_values(constants) =~= round_constants()[round as int]);
    }
    constants
}

/// The bar layer on a state held by value.
fn bar_layer(state: [Scalar; 3]) -> (new_state: [Scalar; 3])
    requires
        state_wf(state),
    ensures
        state_wf(new_state),
        state_values(new_state) == bar_values(state_values(state)),
{
    let mut new_state = state;
    bar(&mut new_state);
    proof {
        assert(state_values(new_state) =~= bar_values(state_values(state)));
    }
    new_state
}

/// The permutation with a matrix and round constants of the caller's choice.
pub fn zelbet_hash(
    scalar_inputs: [Scalar; 3],
    matrix: [[Scalar; 3]; 3],
    constants: [[Scalar; 3]; 6],
) -> (new_state: [Scalar; 3])
    requires
        state_wf(scalar_inputs),
        matrix_wf(matrix),
        rounds_wf(constants),
    ensures
        state_wf(new_state),
        state_values(new_state) == permutation_values_with(
            state_values(scalar_inputs),
            matrix_values(matrix),
            rounds_values(constants),
        ),
{
    let mut new_state = concrete_with_matrix(scalar_inputs, matrix, constants[0]);
    new_state = brick(new_state);
    new_state = concrete_with_matrix(new_state, matrix, constants[1]);
    new_state = brick(new_state);
    new_state = concrete_with_matrix(new_state, matrix, constants[2]);
    new_state = bar_layer(new_state);
    new_state = concrete_with_matrix(new_state, matrix, constants[3]);
    new_state = brick(new_state);
    new_state = concrete_with_matrix(new_state, matrix, constants[4]);
    new_state = brick(new_state);
    new_state = concrete_with_matrix(new_state, matrix, constants[5]);
    new_state
}

/// The Reinforced Concrete permutation of three field elements.
pub fn zelbet_out_of_circuit(scalar_inputs: [Scalar; 3]) -> (new_state: [Scalar; 3])
    requires
        state_wf(scalar_inputs),
    ensures
        state_wf(new_state),
        state_values(new_state) == permutation_values(state_values(scalar_inputs)),
{
    reveal(permutation_values);
    let mut new_state = concrete(scalar_inputs, round_constants_of(0));
    new_state = brick(new_state);
    new_state = concrete(new_state, round_constants_of(1));
    new_state = brick(new_state);
    new_state = concrete(new_state, round_constants_of(2));
    new_state = bar_layer(new_state);
    new_state = concrete(new_state, round_constants_of(3));
    new_state = brick(new_state);
    new_state = concrete(new_state, round_constants_of(4));
    new_state = brick(new_state);
    new_state = concrete(new_state, round_constants_of(5));
    new_state
}

/// The composer holds each of the 18 variables.
pub open spec fn holds_rounds(composer: TurboComposer, constants: [Variable; 18]) -> bool {
    forall|j: int| 0 <= j < 18 ==> holds(composer, #[trigger] constants[j])
}

/// The field elements that 18 variables stand for, three by three.
pub open spec fn rounds_of(constants: [Variable; 18]) -> Seq<Seq<nat>> {
    Seq::new(6, |round: int| Seq::new(3, |i: int| constants[3 * round + i].value()))
}

/// What a composer holds of the constants of a permutation, it still holds
/// once more is appended.
pub proof fn lemma_holds_rounds_extends(
    before: TurboComposer,
    after: TurboComposer,
    constants: [Variable; 18],
)
    requires
        holds_rounds(before, constants),
        extends(before, after),
    ensures
        holds_rounds(after, constants),
{
    assert forall|j: int| 0 <= j < 18 implies holds(after, #[trigger] constants[j]) by {
        assert(holds(before, constants[j]));
    }
}

/// The indices of 18 variables, three by three.
pub open spec fn round_wires_of(constants: [Variable; 18]) -> Seq<Seq<nat>> {
    Seq::new(6, |round: int| Seq::new(3, |i: int| constants[3 * round + i].index()))
}

/// A point in the building of a circuit around a state of three variables.
pub struct Trace {
    /// The field elements that the witnesses of the composer stand for.
    pub witnesses: Seq<nat>,
    /// The gates that the composer holds.
    pub gates: Seq<Gate>,
    /// The indices of the three variables of the state.
    pub wires: Seq<nat>,
    /// The field elements that the state stands for.
    pub values: Seq<nat>,
}

/// The point at which a composer and a state stand.
pub open spec fn trace_at(composer: TurboComposer, state: [Variable; 3]) -> Trace {
    Trace {
        witnesses: composer_values(composer),
        gates: composer_gates(composer),
        wires: variable_indices(state),
        values: variable_values(state),
    }
}

/// The concrete layer as a step of a circuit: the six witnesses and the six
/// gates of the layer, with the round constants on the wires `c`.
#[verifier::opaque]
pub open spec fn concrete_trace(t: Trace, c: Seq<nat>, constants: Seq<nat>) -> Trace {
    let n = t.witnesses.len();
    Trace {
        witnesses: t.witnesses + concrete_witnesses(t.values, constants),
        gates: t.gates + concrete_gates(n, t.wires, c),
        wires: seq![n + 1, n + 3, n + 5],
        values: concrete_values(t.values, constants),
    }
}

/// The brick layer as a step of a circuit: the seven witnesses and the seven
/// gates of the layer, with the constant two on the wire `two`.
#[verifier::opaque]
pub open spec fn brick_trace(t: Trace, two: nat) -> Trace {
    let n = t.witnesses.len();
    Trace {
        witnesses: t.witnesses + brick_witnesses(t.values[0], t.values[1], t.values[2], 2, 3, 4),
        gates: t.gates + brick_gates(n, t.wires, two, 3, 4),
        wires: seq![n + 2, n + 4, n + 6],
        values: brick_values(t.values),
    }
}

/// The bar function on coordinate `k` of the state as a step of a circuit.
/// The witness that comes last stands for the new coordinate.
pub open spec fn bar_coordinate_trace(
    t: Trace,
    k: int,
    s: Seq<nat>,
    zero: nat,
    one: nat,
    two: nat,
) -> Trace {
    let witnesses = t.witnesses + bar_witnesses(t.values[k]);
    Trace {
        witnesses,
        gates: t.gates + bar_gates(t.witnesses.len(), t.values[k], t.wires[k], s, zero, one, two),
        wires: t.wires.update(k, (witnesses.len() - 1) as nat),
        values: t.values.update(k, bar_value(t.values[k])),
    }
}

/// The bar layer as a step of a circuit: the bar function on the three
/// coordinates, one after another.
#[verifier::opaque]
pub open spec fn bar_trace(t: Trace, s: Seq<nat>, zero: nat, one: nat, two: nat) -> Trace {
    bar_coordinate_trace(
        bar_coordinate_trace(bar_coordinate_trace(t, 0, s, zero, one, two), 1, s, zero, one, two),
        2,
        s,
        zero,
        one,
        two,
    )
}

/// The permutation as steps of a circuit, with the round constants on the
/// wires `c` and the radices on the wires `s`.
pub open spec fn permutation_trace(
    t: Trace,
    c: Seq<Seq<nat>>,
    constants: Seq<Seq<nat>>,
    s: Seq<nat>,
    zero: nat,
    one: nat,
    two: nat,
) -> Trace {
    let t1 = brick_trace(concrete_trace(t, c[0], constants[0]), two);
    let t2 = brick_trace(concrete_trace(t1, c[1], constants[1]), two);
    let t3 = bar_trace(concrete_trace(t2, c[2], constants[2]), s, zero, one, two);
    let t4 = brick_trace(concrete_trace(t3, c[3], constants[3]), two);
    let t5 = brick_trace(concrete_trace(t4, c[4], constants[4]), two);
    concrete_trace(t5, c[5], constants[5])
}

/// The state at the end of the steps of the permutation stands for the
/// permutation of the state at their beginning.
pub proof fn lemma_permutation_trace_values(
    t: Trace,
    c: Seq<Seq<nat>>,
    constants: Seq<Seq<nat>>,
    s: Seq<nat>,
    zero: nat,
    one: nat,
    two: nat,
)
    requires
        t.values.len() == 3,
    ensures
        permutation_trace(t, c, constants, s, zero, one, two).values == permutation_values_with(
            t.values,
            mds(),
            constants,
        ),
{
    let t2 = brick_trace(
        concrete_trace(brick_trace(concrete_trace(t, c[0], constants[0]), two), c[1], constants[1]),
        two,
    );
    reveal(concrete_trace);
    reveal(brick_trace);
    reveal(bar_trace);
    let before = concrete_trace(t2, c[2], constants[2]);
    assert(bar_trace(before, s, zero, one, two).values =~= bar_values(before.values));
}

/// The three variables of the constants of one round.
fn round_variables(
    Ghost(composer): Ghost<TurboComposer>,
    constants_for_rounds: &[Variable; 18],
    round: usize,
) -> (constants: [Variable; 3])
    requires
        round < 6,
        holds_rounds(composer, *constants_for_rounds),
    ensures
        holds_state(composer, constants),
        variable_values(constants) == rounds_of(*constants_for_rounds)[round as int],
        variable_indices(constants) == round_wires_of(*constants_for_rounds)[round as int],
{
    let constants = [
        constants_for_rounds[3 * round],
        constants_for_rounds[3 * round + 1],
        constants_for_rounds[3 * round + 2],
    ];
    proof {
        assert(variable_values(constants) =~= rounds_of(*constants_for_rounds)[round as int]);
        assert(variable_indices(constants) =~= round_wires_of(*constants_for_rounds)[round as int]);
    }
    constants
}

/// The bar layer as a circuit: the bar function on each coordinate.
#[verifier::rlimit(40)]
fn bar_layer_gadget(
    composer: &mut TurboComposer,
    state: [Variable; 3],
    s_i_decomposition: [Variable; 27],
    zero: Variable,
    one: Variable,
    two: Variable,
) -> (output: [Variable; 3])
    requires
        holds_state(*old(composer), state),
        holds_radices(*old(composer), s_i_decomposition),
        holds(*old(composer), zero),
        holds(*old(composer), one),
        holds(*old(composer), two),
    ensures
        extends(*old(composer), *final(composer)),
        holds_state(*final(composer), output),
        reduced_from(*final(composer), composer_witnesses(*old(composer)).len()),
        trace_at(*final(composer), output) == bar_trace(
            trace_at(*old(composer), state),
            indices_of(s_i_decomposition),
            zero.index(),
            one.index(),
            two.index(),
        ),
{
    reveal(bar_trace);
    let ghost start = *composer;
    let ghost s = indices_of(s_i_decomposition);
    let ghost t0 = trace_at(start, state);
    let first = bar_gadget(composer, state[0], s_i_decomposition, zero, one, two);
    let ghost after_first = *composer;
    let ghost t1 = bar_coordinate_trace(t0, 0, s, zero.index(), one.index(), two.index());
    proof {
        lemma_holds_all_extends(start, after_first, s_i_decomposition);
        lemma_holds_extends(start, after_first, state[1]);
        lemma_holds_extends(start, after_first, state[2]);
        lemma_holds_extends(start, after_first, zero);
        lemma_holds_extends(start, after_first, one);
        lemma_holds_extends(start, after_first, two);
        lemma_grows_by_length(start, after_first, bar_witnesses(state[0].value()));
        assert(trace_at(after_first, [first, state[1], state[2]]).wires =~= t1.wires);
        assert(trace_at(after_first, [first, state[1], state[2]]).values =~= t1.values);
        assert(trace_at(after_first, [first, state[1], state[2]]) == t1);
    }
    let second = bar_gadget(composer, state[1], s_i_decomposition, zero, one, two);
    let ghost after_second = *composer;
    let ghost t2 = bar_coordinate_trace(t1, 1, s, zero.index(), one.index(), two.index());
    proof {
        lemma_holds_all_extends(after_first, after_second, s_i_decomposition);
        lemma_holds_extends(after_first, after_second, state[2]);
        lemma_holds_extends(after_first, after_second, zero);
        lemma_holds_extends(after_first, after_second, one);
        lemma_holds_extends(after_first, after_second, two);
        lemma_holds_extends(after_first, after_second, first);
        lemma_grows_by_length(after_first, after_second, bar_witnesses(state[1].value()));
        lemma_reduced_from_grows(
            composer_witnesses(start).len(),
            after_first,
            after_second,
            bar_witnesses(state[1].value()),
        );
        assert(trace_at(after_second, [first, second, state[2]]).wires =~= t2.wires);
        assert(trace_at(after_second, [first, second, state[2]]).values =~= t2.values);
        assert(trace_at(after_second, [first, second, state[2]]) == t2);
    }
    let third = bar_gadget(composer, state[2], s_i_decomposition, zero, one, two);
    let output = [first, second, third];
    proof {
        let t3 = bar_coordinate_trace(t2, 2, s, zero.index(), one.index(), two.index());
        lemma_holds_extends(after_second, *composer, first);
        lemma_holds_extends(after_second, *composer, second);
        lemma_extends_transitive(start, after_first, after_second);
        lemma_extends_transitive(start, after_second, *composer);
        lemma_grows_by_length(after_second, *composer, bar_witnesses(state[2].value()));
        lemma_reduced_from_grows(
            composer_witnesses(start).len(),
            after_second,
            *composer,
            bar_witnesses(state[2].value()),
        );
        assert(trace_at(*composer, output).wires =~= t3.wires);
        assert(trace_at(*composer, output).values =~= t3.values);
        assert(trace_at(*composer, output) == t3);
    }
    output
}

/// The concrete layer as a circuit, as a step from one point to the next.
fn concrete_step(
    composer: &mut TurboComposer,
    state: &[Variable; 3],
    constants: &[Variable; 3],
) -> (output: [Variable; 3])
    requires
        holds_state(*old(composer), *state),
        holds_state(*old(composer), *constants),
    ensures
        extends(*old(composer), *final(composer)),
        holds_state(*final(composer), output),
        reduced_from(*final(composer), composer_witnesses(*old(composer)).len()),
        trace_at(*final(composer), output) == concrete_trace(
            trace_at(*old(composer), *state),
            variable_indices(*constants),
            variable_values(*constants),
        ),
{
    let output = concrete_gadget(composer, state, constants);
    proof {
        reveal(concrete_trace);
        lemma_grows_by_length(
            *old(composer),
            *composer,
            concrete_witnesses(variable_values(*state), variable_values(*constants)),
        );
        let t = concrete_trace(
            trace_at(*old(composer), *state),
            variable_indices(*constants),
            variable_values(*constants),
        );
        assert(trace_at(*composer, output).wires =~= t.wires);
        assert(trace_at(*composer, output) == t);
    }
    output
}

/// The brick layer as a circuit, as a step from one point to the next.
fn brick_step(composer: &mut TurboComposer, state: &[Variable; 3], two: Variable) -> (output: [Variable;
    3])
    requires
        holds_state(*old(composer), *state),
        holds(*old(composer), two),
        two.value() == 2,
    ensures
        extends(*old(composer), *final(composer)),
        holds_state(*final(composer), output),
        reduced_from(*final(composer), composer_witnesses(*old(composer)).len()),
        trace_at(*final(composer), output) == brick_trace(
            trace_at(*old(composer), *state),
            two.index(),
        ),
{
    proof {
        lemma_small_constants();
    }
    let output = brick_gadget(
        composer,
        state,
        two,
        Scalar(MONTGOMERY_THREE),
        Scalar(MONTGOMERY_FOUR),
    );
    proof {
        reveal(brick_trace);
        lemma_grows_by_length(
            *old(composer),
            *composer,
            brick_witnesses(state[0].value(), state[1].value(), state[2].value(), 2, 3, 4),
        );
        let t = brick_trace(trace_at(*old(composer), *state), two.index());
        assert(variable_values(output)[0] == t.values[0]);
        assert(variable_values(output)[1] == t.values[1]);
        assert(variable_values(output)[2] == t.values[2]);
        assert(variable_values(output) =~= t.values);
        assert(trace_at(*composer, output).wires =~= t.wires);
        assert(trace_at(*composer, output) == t);
    }
    output
}

/// A concrete layer and a brick layer as a circuit.
fn round_gadget(
    composer: &mut TurboComposer,
    state: &[Variable; 3],
    constants: &[Variable; 3],
    two: Variable,
) -> (output: [Variable; 3])
    requires
        holds_state(*old(composer), *state),
        holds_state(*old(composer), *constants),
        holds(*old(composer), two),
        two.value() == 2,
    ensures
        extends(*old(composer), *final(composer)),
        holds_state(*final(composer), output),
        reduced_from(*final(composer), composer_witnesses(*old(composer)).len()),
        trace_at(*final(composer), output) == brick_trace(
            concrete_trace(
                trace_at(*old(composer), *state),
                variable_indices(*constants),
                variable_values(*constants),
            ),
            two.index(),
        ),
{
    let ghost start = *composer;
    let item = concrete_step(composer, state, constants);
    let ghost middle = *composer;
    proof {
        lemma_holds_extends(start, middle, two);
    }
    let output = brick_step(composer, &item, two);
    proof {
        lemma_extends_transitive(start, middle, *composer);
        lemma_reduced_extends(composer_witnesses(start).len(), middle, *composer);
    }
    output
}

/// The permutation as a circuit. The 18 variables of `constants_for_rounds`
/// stand for the constants of the six rounds, and `two` for the constant of
/// the brick layer. The circuit is the one of `permutation_trace`: each
/// layer appends its witnesses and gates, and its outputs are the state of
/// the next.
#[verifier::rlimit(40)]
pub fn zelbet_gadget(
    composer: &mut TurboComposer,
    state: &[Variable; 3],
    s_i_decomposition: [Variable; 27],
    constants_for_rounds: [Variable; 18],
    zero: Variable,
    one: Variable,
    two: Variable,
) -> (output: [Variable; 3])
    requires
        holds_state(*old(composer), *state),
        holds_radices(*old(composer), s_i_decomposition),
        holds_rounds(*old(composer), constants_for_rounds),
        holds(*old(composer), zero),
        holds(*old(composer), one),
        holds(*old(composer), two),
        two.value() == 2,
    ensures
        extends(*old(composer), *final(composer)),
        holds_state(*final(composer), output),
        reduced_from(*final(composer), composer_witnesses(*old(composer)).len()),
        variable_values(output) == permutation_values_with(
            variable_values(*state),
            mds(),
            rounds_of(constants_for_rounds),
        ),
        trace_at(*final(composer), output) == permutation_trace(
            trace_at(*old(composer), *state),
            round_wires_of(constants_for_rounds),
            rounds_of(constants_for_rounds),
            indices_of(s_i_decomposition),
            zero.index(),
            one.index(),
            two.index(),
        ),
{
    let ghost start = *composer;

    // Round 1
    let round1_constants = round_variables(Ghost(*composer), &constants_for_rounds, 0);
    let item = round_gadget(composer, state, &round1_constants, two);
    let ghost after1 = *composer;
    proof {
        lemma_holds_rounds_extends(start, after1, constants_for_rounds);
        lemma_holds_extends(start, after1, two);
    }

    // Round 2
    let round2_constants = round_variables(Ghost(*composer), &constants_for_rounds, 1);
    let item = round_gadget(composer, &item, &round2_constants, two);
    let ghost after2 = *composer;
    proof {
        lemma_extends_transitive(start, after1, after2);
        lemma_holds_rounds_extends(start, after2, constants_for_rounds);
        lemma_reduced_extends(composer_witnesses(start).len(), after1, after2);
    }

    // Round 3
    let round3_constants = round_variables(Ghost(*composer), &constants_for_rounds, 2);
    let item = concrete_step(composer, &item, &round3_constants);
    let ghost after3 = *composer;
    proof {
        lemma_extends_transitive(start, after2, after3);
        lemma_reduced_extends(composer_witnesses(start).len(), after2, after3);
        lemma_holds_all_extends(start, after3, s_i_decomposition);
        lemma_holds_extends(start, after3, zero);
        lemma_holds_extends(start, after3, one);
        lemma_holds_extends(start, after3, two);
    }
    let item = bar_layer_gadget(composer, item, s_i_decomposition, zero, one, two);
    let ghost after_bar = *composer;
    proof {
        lemma_extends_transitive(start, after3, after_bar);
        lemma_reduced_extends(composer_witnesses(start).len(), after3, after_bar);
        lemma_holds_rounds_extends(start, after_bar, constants_for_rounds);
        lemma_holds_extends(start, after_bar, two);
    }

    // Round 4
    let round4_constants = round_variables(Ghost(*composer), &constants_for_rounds, 3);
    let item = round_gadget(composer, &item, &round4_constants, two);
    let ghost after4 = *composer;
    proof {
        lemma_extends_transitive(start, after_bar, after4);
        lemma_reduced_extends(composer_witnesses(start).len(), after_bar, after4);
        lemma_holds_rounds_extends(start, after4, constants_for_rounds);
        lemma_holds_extends(start, after4, two);
    }

    // Round 5
    let round5_constants = round_variables(Ghost(*composer), &constants_for_rounds, 4);
    let item = round_gadget(composer, &item, &round5_constants, two);
    let ghost after5 = *composer;
    proof {
        lemma_extends_transitive(start, after4, after5);
        lemma_reduced_extends(composer_witnesses(start).len(), after4, after5);
        lemma_holds_rounds_extends(start, after5, constants_for_rounds);
    }

    // Final concrete
    let round6_constants = round_variables(Ghost(*composer), &constants_for_rounds, 5);
    let item = concrete_step(composer, &item, &round6_constants);
    proof {
        lemma_extends_transitive(start, after5, *composer);
        lemma_reduced_extends(composer_witnesses(start).len(), after5, *composer);
        lemma_permutation_trace_values(
            trace_at(start, *state),
            round_wires_of(constants_for_rounds),
            rounds_of(constants_for_rounds),
            indices_of(s_i_decomposition),
            zero.index(),
            one.index(),
            two.index(),
        );
    }
    item
}

} // verus!
