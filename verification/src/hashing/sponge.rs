//! The sponge: field elements are absorbed two at a time into a state of
//! three, and the output is squeezed out two at a time.

use crate::composer::{
    add_witness_to_circuit_description, big_add, composer_gates, composer_values,
    composer_witnesses, extends, field_neg, grows_by, holds, lemma_extends_transitive,
    lemma_grows_by_both, lemma_grows_by_nothing, lemma_holds_extends, lemma_reduced_extends,
    output_gate, reduced_from, zero_variable, Gate, Variable,
};
use crate::constants::{
    lemma_radix_montgomery, lemma_round_constants, lemma_small_constants, radix_at,
    round_constant_at, CONSTANTS_BLS, MONTGOMERY_TWO, S_I_DECOMPOSITION_MONTGOMERY,
};
use crate::field::{field_add, lemma_value_injective, Scalar};
use crate::hashing::gadgets::{
    holds_radices, holds_state, indices_of, lemma_holds_all_extends, radices, variable_indices,
    variable_values,
};
use crate::hashing::zelbet::{
    holds_rounds, lemma_holds_rounds_extends, permutation_trace, permutation_values,
    round_constants, round_wires_of, rounds_of, state_values, state_wf, trace_at, zelbet_gadget,
    zelbet_out_of_circuit, Trace,
};
use dusk_plonk::constraint_system::TurboComposer;
use vstd::prelude::*;

verus! {

/// Every scalar of a sequence is reduced.
pub open spec fn all_wf(s: Seq<Scalar>) -> bool {
    forall|i: int| 0 <= i < s.len() ==> (#[trigger] s[i]).wf()
}

/// The field elements that a sequence of scalars stands for.
pub open spec fn values_of(s: Seq<Scalar>) -> Seq<nat> {
    Seq::new(s.len(), |i: int| s[i].value())
}

/// The input with a one at its end where its length is odd.
pub open spec fn padded(input: Seq<nat>) -> Seq<nat> {
    if input.len() % 2 == 1 {
        input.push(1)
    } else {
        input
    }
}

/// The state once the first `blocks` pairs of the input are absorbed. The
/// first pair fills the state, beside a one; each later pair is added to the
/// first two coordinates. The permutation follows each pair.
pub open spec fn absorbed(input: Seq<nat>, blocks: nat) -> Seq<nat>
    decreases blocks,
{
    if blocks <= 1 {
        permutation_values(seq![input[0], input[1], 1nat])
    } else {
        let s = absorbed(input, (blocks - 1) as nat);
        permutation_values(
            seq![
                field_add(s[0], input[2 * (blocks - 1)]),
                field_add(s[1], input[2 * (blocks - 1) + 1]),
                s[2],
            ],
        )
    }
}

/// The state after `k` more permutations.
pub open spec fn squeezed(state: Seq<nat>, k: nat) -> Seq<nat>
    decreases k,
{
    if k == 0 {
        state
    } else {
        permutation_values(squeezed(state, (k - 1) as nat))
    }
}

/// The sponge: output `i` is coordinate `i mod 2` of the state after the
/// absorption and `i / 2` more permutations.
pub open spec fn sponge_values(input: Seq<nat>, length_out: nat) -> Seq<nat> {
    let p = padded(input);
    let a = absorbed(p, p.len() / 2);
    Seq::new(length_out, |i: int| squeezed(a, (i / 2) as nat)[i % 2])
}

/// The sponge gives as many elements as it is asked for.
pub proof fn lemma_sponge_length(input: Seq<nat>, length_out: nat)
    ensures
        sponge_values(input, length_out).len() == length_out,
{
}

/// A shorter output is the beginning of a longer one.
pub proof fn lemma_sponge_prefix(input: Seq<nat>, shorter: nat, longer: nat)
    requires
        shorter <= longer,
    ensures
        sponge_values(input, shorter) == sponge_values(input, longer).subrange(0, shorter as int),
{
    assert(sponge_values(input, shorter) =~= sponge_values(input, longer).subrange(
        0,
        shorter as int,
    ));
}

/// Two sequences of reduced scalars that stand for the same field elements
/// are the same, limb by limb. So the output of the sponge, which its input
/// determines as a sequence of field elements, is the same whenever the input
/// is.
pub proof fn lemma_values_determine_scalars(a: Seq<Scalar>, b: Seq<Scalar>)
    requires
        all_wf(a),
        all_wf(b),
        values_of(a) == values_of(b),
    ensures
        a == b,
{
    assert(a.len() == values_of(a).len());
    assert(b.len() == values_of(b).len());
    assert forall|i: int| 0 <= i < a.len() implies a[i] == b[i] by {
        assert(values_of(a)[i] == a[i].value());
        assert(values_of(b)[i] == b[i].value());
        lemma_value_injective(a[i], b[i]);
    }
    assert(a =~= b);
}

/// Sponge for the Reinforced Concrete hash, with input and output of any
/// length. The input holds at least one element.
pub fn sponge_zelbet_out_of(input: Vec<Scalar>, length_out: usize) -> (output: Vec<Scalar>)
    requires
        input.len() >= 1,
        all_wf(input@),
    ensures
        output.len() == length_out,
        all_wf(output@),
        values_of(output@) == sponge_values(values_of(input@), length_out as nat),
{
    let ghost given = values_of(input@);
    let mut input = input;
    if input.len() % 2 == 1 {
        input.push(Scalar::one());
    }
    let ghost p = values_of(input@);
    proof {
        assert(p =~= padded(given));
    }
    let length_in = input.len();

    let initial = [input[0], input[1], Scalar::one()];
    proof {
        assert(p[0] == input@[0].value());
        assert(p[1] == input@[1].value());
        assert(state_values(initial) =~= seq![p[0], p[1], 1nat]);
    }
    let mut state = zelbet_out_of_circuit(initial);

    let mut k: usize = 1;
    while k < length_in / 2
        invariant
            1 <= k <= length_in / 2,
            length_in == input.len(),
            length_in % 2 == 0,
            all_wf(input@),
            p == values_of(input@),
            state_wf(state),
            state_values(state) == absorbed(p, k as nat),
        decreases length_in / 2 - k,
    {
        let first = state[0].add(&input[2 * k]);
        let second = state[1].add(&input[2 * k + 1]);
        let ghost before = state_values(state);
        proof {
            assert(p[2 * k] == input@[2 * k].value());
            assert(p[2 * k + 1] == input@[2 * k + 1].value());
            assert(state_values([first, second, state[2]]) =~= seq![
                field_add(before[0], p[2 * k]),
                field_add(before[1], p[2 * k + 1]),
                before[2],
            ]);
        }
        state = zelbet_out_of_circuit([first, second, state[2]]);
        k = k + 1;
    }

    let ghost a = state_values(state);
    let mut output: Vec<Scalar> = Vec::new();
    let mut i: usize = 0;
    while i < length_out
        invariant
            0 <= i <= length_out,
            output.len() == i,
            all_wf(output@),
            state_wf(state),
            i == 0 ==> state_values(state) == a,
            i > 0 ==> state_values(state) == squeezed(a, ((i - 1) / 2) as nat),
            forall|j: int| 0 <= j < i ==> (#[trigger] output@[j]).value() == squeezed(a, (j / 2) as nat)[j % 2],
        decreases length_out - i,
    {
        if i % 2 == 0 && i > 0 {
            proof {
                assert((i / 2) as nat == ((i - 1) / 2) as nat + 1);
            }
            state = zelbet_out_of_circuit(state);
        }
        proof {
            assert(state_values(state) == squeezed(a, (i / 2) as nat));
        }
        output.push(state[i % 2]);
        i = i + 1;
    }
    proof {
        assert(a == absorbed(padded(given), padded(given).len() / 2));
        assert(values_of(output@) =~= sponge_values(given, length_out as nat));
    }
    output
}

/// The composer holds every variable of a sequence.
pub open spec fn holds_each(composer: TurboComposer, s: Seq<Variable>) -> bool {
    forall|i: int| 0 <= i < s.len() ==> holds(composer, #[trigger] s[i])
}

/// The field elements that a sequence of variables stands for.
pub open spec fn variables_values(s: Seq<Variable>) -> Seq<nat> {
    Seq::new(s.len(), |i: int| s[i].value())
}

/// The indices of a sequence of variables.
pub open spec fn variables_indices(s: Seq<Variable>) -> Seq<nat> {
    Seq::new(s.len(), |i: int| s[i].index())
}

/// What a composer holds of a sequence of variables, it still holds once
/// more is appended.
pub proof fn lemma_holds_each_extends(before: TurboComposer, after: TurboComposer, s: Seq<Variable>)
    requires
        holds_each(before, s),
        extends(before, after),
    ensures
        holds_each(after, s),
{
    assert forall|i: int| 0 <= i < s.len() implies holds(after, #[trigger] s[i]) by {
        assert(holds(before, s[i]));
    }
}

/// The scalars that a sequence of variables carries.
pub open spec fn variables_scalars(s: Seq<Variable>) -> Seq<Scalar> {
    Seq::new(s.len(), |i: int| s[i].scalar)
}

/// Where the variables that a composer holds stand for the same field
/// elements as a sequence of reduced scalars, they carry those scalars, limb
/// by limb. So what the sponge gives as a circuit is what it gives outside
/// a circuit.
pub proof fn lemma_variables_agree(
    composer: TurboComposer,
    variables: Seq<Variable>,
    scalars: Seq<Scalar>,
)
    requires
        holds_each(composer, variables),
        all_wf(scalars),
        variables_values(variables) == values_of(scalars),
    ensures
        variables_scalars(variables) == scalars,
{
    assert(variables.len() == variables_values(variables).len());
    assert(scalars.len() == values_of(scalars).len());
    assert forall|i: int| 0 <= i < variables.len() implies variables[i].scalar == scalars[i] by {
        assert(holds(composer, variables[i]));
        assert(variables_values(variables)[i] == variables[i].value());
        assert(values_of(scalars)[i] == scalars[i].value());
        lemma_value_injective(variables[i].scalar, scalars[i]);
    }
    assert(variables_scalars(variables) =~= scalars);
}

/// A gate that fixes the value of a wire.
pub open spec fn fixing_gate(wire: nat, value: nat) -> Gate {
    Gate::Arithmetic {
        q_m: 0,
        q_l: 1,
        q_r: 0,
        q_o: 0,
        q_4: 0,
        q_c: field_neg(value),
        a: wire,
        b: 0,
        o: 0,
        d: 0,
    }
}

/// The 18 round constants, round by round.
pub open spec fn round_constant_values() -> Seq<nat> {
    Seq::new(18, |j: int| round_constant_at(j / 3, j % 3))
}

/// The 18 gates that fix the round constants on the wires from `n` on.
pub open spec fn round_constant_gates(n: nat) -> Seq<Gate> {
    Seq::new(18, |j: int| fixing_gate((n + j) as nat, round_constant_at(j / 3, j % 3)))
}

/// The 27 gates that fix the radices on the wires from `n` on.
pub open spec fn radix_gates(n: nat) -> Seq<Gate> {
    Seq::new(27, |k: int| fixing_gate((n + k) as nat, radix_at(k)))
}

/// The constants of the six rounds as witnesses with a gate each that fixes
/// the value.
fn round_constant_variables(composer: &mut TurboComposer, filler: Variable) -> (constants: [Variable;
    18])
    ensures
        extends(*old(composer), *final(composer)),
        holds_rounds(*final(composer), constants),
        rounds_of(constants) == round_constants(),
        forall|j: int| 0 <= j < 18 ==> (#[trigger] constants[j]).index() == composer_witnesses(
            *old(composer),
        ).len() + j,
        composer_witnesses(*final(composer)).len() == composer_witnesses(*old(composer)).len()
            + 18,
        grows_by(*old(composer), *final(composer), round_constant_values()),
        composer_gates(*final(composer)) == composer_gates(*old(composer)) + round_constant_gates(
            composer_witnesses(*old(composer)).len(),
        ),
{
    let ghost n = composer_witnesses(*composer).len();
    let ghost gates = round_constant_gates(n);
    let ghost fresh = round_constant_values();
    let mut constants = [filler; 18];
    let mut j: usize = 0;
    proof {
        lemma_grows_by_nothing(*composer, *composer);
        assert(fresh.subrange(0, 0) =~= Seq::<nat>::empty());
    }
    while j < 18
        invariant
            0 <= j <= 18,
            fresh == round_constant_values(),
            grows_by(*old(composer), *composer, fresh.subrange(0, j as int)),
            n == composer_witnesses(*old(composer)).len(),
            gates == round_constant_gates(n),
            extends(*old(composer), *composer),
            composer_witnesses(*composer).len() == n + j,
            composer_gates(*composer) == composer_gates(*old(composer)) + gates.subrange(
                0,
                j as int,
            ),
            forall|i: int| 0 <= i < j ==> holds(*composer, #[trigger] constants[i]),
            forall|i: int| 0 <= i < j ==> (#[trigger] constants[i]).index() == n + i,
            forall|i: int| 0 <= i < j ==> (#[trigger] constants[i]).scalar == Scalar(
                CONSTANTS_BLS[i / 3][i % 3],
            ),
        decreases 18 - j,
    {
        let ghost before = *composer;
        let ghost held = constants;
        proof {
            lemma_round_constants((j / 3) as int, (j % 3) as int);
        }
        let constant = add_witness_to_circuit_description(
            composer,
            Scalar(CONSTANTS_BLS[j / 3][j % 3]),
        );
        constants[j] = constant;
        proof {
            assert forall|i: int| 0 <= i < j + 1 implies holds(*composer, #[trigger] constants[i]) by {
                if i < j {
                    assert(holds(before, held[i]));
                }
            }
            lemma_extends_transitive(*old(composer), before, *composer);
            lemma_grows_by_both(
                *old(composer),
                before,
                *composer,
                fresh.subrange(0, j as int),
                seq![constant.value()],
            );
            assert(fresh.subrange(0, j as int) + seq![constant.value()] =~= fresh.subrange(
                0,
                j + 1,
            ));
            assert(gates[j as int] == fixing_gate(
                (n + j) as nat,
                round_constant_at((j / 3) as int, (j % 3) as int),
            ));
            assert(gates.subrange(0, j + 1) =~= gates.subrange(0, j as int).push(gates[j as int]));
            assert(composer_gates(*composer) =~= composer_gates(*old(composer)) + gates.subrange(
                0,
                j + 1,
            ));
        }
        j = j + 1;
    }
    proof {
        assert(gates.subrange(0, 18) =~= gates);
        assert(fresh.subrange(0, 18) =~= fresh);
        assert forall|round: int| 0 <= round < 6 implies rounds_of(constants)[round]
            == round_constants()[round] by {
            assert forall|i: int| 0 <= i < 3 implies rounds_of(constants)[round][i]
                == round_constants()[round][i] by {
                assert(constants[3 * round + i].scalar == Scalar(
                    CONSTANTS_BLS[(3 * round + i) / 3][(3 * round + i) % 3],
                ));
            }
            assert(rounds_of(constants)[round] =~= round_constants()[round]);
        }
        assert(rounds_of(constants) =~= round_constants());
    }
    constants
}

/// The radices as witnesses with a gate each that fixes the value.
fn radix_variables(composer: &mut TurboComposer, filler: Variable) -> (variables: [Variable; 27])
    ensures
        extends(*old(composer), *final(composer)),
        holds_radices(*final(composer), variables),
        forall|k: int| 0 <= k < 27 ==> (#[trigger] variables[k]).index() == composer_witnesses(
            *old(composer),
        ).len() + k,
        composer_witnesses(*final(composer)).len() == composer_witnesses(*old(composer)).len()
            + 27,
        grows_by(*old(composer), *final(composer), radices()),
        composer_gates(*final(composer)) == composer_gates(*old(composer)) + radix_gates(
            composer_witnesses(*old(composer)).len(),
        ),
{
    let ghost n = composer_witnesses(*composer).len();
    let ghost gates = radix_gates(n);
    let ghost fresh = radices();
    let mut variables = [filler; 27];
    let mut k: usize = 0;
    proof {
        lemma_grows_by_nothing(*composer, *composer);
        assert(fresh.subrange(0, 0) =~= Seq::<nat>::empty());
    }
    while k < 27
        invariant
            0 <= k <= 27,
            fresh == radices(),
            grows_by(*old(composer), *composer, fresh.subrange(0, k as int)),
            n == composer_witnesses(*old(composer)).len(),
            gates == radix_gates(n),
            extends(*old(composer), *composer),
            composer_witnesses(*composer).len() == n + k,
            composer_gates(*composer) == composer_gates(*old(composer)) + gates.subrange(
                0,
                k as int,
            ),
            forall|i: int| 0 <= i < k ==> holds(*composer, #[trigger] variables[i]),
            forall|i: int| 0 <= i < k ==> (#[trigger] variables[i]).index() == n + i,
            forall|i: int| 0 <= i < k ==> (#[trigger] variables[i]).value() == radix_at(i),
        decreases 27 - k,
    {
        let ghost before = *composer;
        let ghost held = variables;
        proof {
            lemma_radix_montgomery(k as int);
        }
        let radix = add_witness_to_circuit_description(
            composer,
            Scalar(S_I_DECOMPOSITION_MONTGOMERY[k]),
        );
        variables[k] = radix;
        proof {
            assert forall|i: int| 0 <= i < k + 1 implies holds(*composer, #[trigger] variables[i]) by {
                if i < k {
                    assert(holds(before, held[i]));
                }
            }
            lemma_extends_transitive(*old(composer), before, *composer);
            lemma_grows_by_both(
                *old(composer),
                before,
                *composer,
                fresh.subrange(0, k as int),
                seq![radix.value()],
            );
            assert(fresh.subrange(0, k as int) + seq![radix.value()] =~= fresh.subrange(0, k + 1));
            assert(gates[k as int] == fixing_gate((n + k) as nat, radix_at(k as int)));
            assert(gates.subrange(0, k + 1) =~= gates.subrange(0, k as int).push(gates[k as int]));
            assert(composer_gates(*composer) =~= composer_gates(*old(composer)) + gates.subrange(
                0,
                k + 1,
            ));
        }
        k = k + 1;
    }
    proof {
        assert(gates.subrange(0, 27) =~= gates);
        assert(fresh.subrange(0, 27) =~= fresh);
    }
    variables
}

/// The constants of the permutation as variables of one circuit.
#[derive(Clone, Copy, Debug)]
pub struct CircuitConstants {
    pub zero: Variable,
    pub one: Variable,
    pub two: Variable,
    pub constants_for_rounds: [Variable; 18],
    pub s_i_decomposition: [Variable; 27],
}

/// The wires on which the constants of the permutation stand.
pub struct Wiring {
    pub zero: nat,
    pub one: nat,
    pub two: nat,
    /// The wires of the round constants, round by round.
    pub rounds: Seq<Seq<nat>>,
    /// The wires of the radices.
    pub radices: Seq<nat>,
}

/// The wires of constants that were appended to a composer of `n`
/// witnesses: zero, one, two, the 18 round constants and the 27 radices.
pub open spec fn wiring_at(n: nat) -> Wiring {
    Wiring {
        zero: n,
        one: n + 1,
        two: n + 2,
        rounds: Seq::new(6, |round: int| Seq::new(3, |i: int| (n + 3 + 3 * round + i) as nat)),
        radices: Seq::new(27, |k: int| (n + 21 + k) as nat),
    }
}

/// The wires of the constants of a circuit.
pub open spec fn wiring_of(constants: CircuitConstants) -> Wiring {
    Wiring {
        zero: constants.zero.index(),
        one: constants.one.index(),
        two: constants.two.index(),
        rounds: round_wires_of(constants.constants_for_rounds),
        radices: indices_of(constants.s_i_decomposition),
    }
}

/// The 48 constants of the permutation: zero, one, two, the 18 round
/// constants and the 27 radices.
pub open spec fn constants_values() -> Seq<nat> {
    seq![0nat, 1nat, 2nat] + round_constant_values() + radices()
}

/// The 48 gates that fix the constants of the permutation on the wires from
/// `n` on.
pub open spec fn constants_gates(n: nat) -> Seq<Gate> {
    seq![fixing_gate(n, 0), fixing_gate(n + 1, 1), fixing_gate(n + 2, 2)] + round_constant_gates(
        n + 3,
    ) + radix_gates(n + 21)
}

/// The composer holds the constants of the permutation, each with its value.
pub open spec fn constants_ready(composer: TurboComposer, constants: CircuitConstants) -> bool {
    &&& holds(composer, constants.zero)
    &&& holds(composer, constants.one)
    &&& holds(composer, constants.two)
    &&& constants.zero.value() == 0
    &&& constants.one.value() == 1
    &&& constants.two.value() == 2
    &&& holds_rounds(composer, constants.constants_for_rounds)
    &&& rounds_of(constants.constants_for_rounds) == round_constants()
    &&& holds_radices(composer, constants.s_i_decomposition)
}

/// What a composer holds of the constants of the permutation, it still holds
/// once more is appended.
pub proof fn lemma_constants_ready_extends(
    before: TurboComposer,
    after: TurboComposer,
    constants: CircuitConstants,
)
    requires
        constants_ready(before, constants),
        extends(before, after),
    ensures
        constants_ready(after, constants),
{
    lemma_holds_rounds_extends(before, after, constants.constants_for_rounds);
    lemma_holds_all_extends(before, after, constants.s_i_decomposition);
}

/// The constants of the permutation as witnesses with a gate each that fixes
/// the value: zero, one, two, the constants of the six rounds and the
/// radices, in this order.
pub fn circuit_constants(composer: &mut TurboComposer) -> (constants: CircuitConstants)
    ensures
        extends(*old(composer), *final(composer)),
        constants_ready(*final(composer), constants),
        wiring_of(constants) == wiring_at(composer_witnesses(*old(composer)).len()),
        composer_witnesses(*final(composer)).len() == composer_witnesses(*old(composer)).len()
            + 48,
        grows_by(*old(composer), *final(composer), constants_values()),
        composer_gates(*final(composer)) == composer_gates(*old(composer)) + constants_gates(
            composer_witnesses(*old(composer)).len(),
        ),
{
    let ghost start = *composer;
    let ghost n = composer_witnesses(*composer).len();
    let zero = add_witness_to_circuit_description(composer, Scalar::zero());
    let ghost c1 = *composer;
    let one = add_witness_to_circuit_description(composer, Scalar::one());
    let ghost c2 = *composer;
    proof {
        lemma_small_constants();
    }
    let two = add_witness_to_circuit_description(composer, Scalar(MONTGOMERY_TWO));
    let ghost small = *composer;
    proof {
        lemma_extends_transitive(start, c1, c2);
        lemma_extends_transitive(start, c2, small);
        lemma_grows_by_both(start, c1, c2, seq![0nat], seq![1nat]);
        assert(seq![0nat] + seq![1nat] =~= seq![0nat, 1nat]);
        lemma_grows_by_both(start, c2, small, seq![0nat, 1nat], seq![2nat]);
        assert(seq![0nat, 1nat] + seq![2nat] =~= seq![0nat, 1nat, 2nat]);
    }
    let constants_for_rounds = round_constant_variables(composer, one);
    let ghost with_rounds = *composer;
    let s_i_decomposition = radix_variables(composer, one);
    let constants = CircuitConstants { zero, one, two, constants_for_rounds, s_i_decomposition };
    proof {
        lemma_grows_by_both(
            start,
            small,
            with_rounds,
            seq![0nat, 1nat, 2nat],
            round_constant_values(),
        );
        lemma_grows_by_both(
            start,
            with_rounds,
            *composer,
            seq![0nat, 1nat, 2nat] + round_constant_values(),
            radices(),
        );
        lemma_extends_transitive(small, with_rounds, *composer);
        lemma_holds_rounds_extends(with_rounds, *composer, constants_for_rounds);
        lemma_holds_extends(small, *composer, zero);
        lemma_holds_extends(small, *composer, one);
        lemma_holds_extends(small, *composer, two);
        lemma_extends_transitive(start, small, *composer);
        assert(composer_gates(small) =~= composer_gates(start) + seq![
            fixing_gate(n, 0),
            fixing_gate(n + 1, 1),
            fixing_gate(n + 2, 2),
        ]);
        assert(composer_gates(*composer) =~= composer_gates(start) + constants_gates(n));
        assert forall|round: int| 0 <= round < 6 implies wiring_of(constants).rounds[round]
            == wiring_at(n).rounds[round] by {
            assert(wiring_of(constants).rounds[round] =~= wiring_at(n).rounds[round]);
        }
        assert(wiring_of(constants).rounds =~= wiring_at(n).rounds);
        assert(wiring_of(constants).radices =~= wiring_at(n).radices);
    }
    constants
}

/// The permutation with the fixed round constants as steps of a circuit,
/// with the constants on the wires of `w`.
#[verifier::opaque]
pub open spec fn fixed_permutation_trace(t: Trace, w: Wiring) -> Trace {
    permutation_trace(t, w.rounds, round_constants(), w.radices, w.zero, w.one, w.two)
}

/// The permutation as a circuit, with the constants that the composer holds.
pub fn permutation_gadget(
    composer: &mut TurboComposer,
    state: &[Variable; 3],
    constants: &CircuitConstants,
) -> (output: [Variable; 3])
    requires
        holds_state(*old(composer), *state),
        constants_ready(*old(composer), *constants),
    ensures
        extends(*old(composer), *final(composer)),
        constants_ready(*final(composer), *constants),
        holds_state(*final(composer), output),
        reduced_from(*final(composer), composer_witnesses(*old(composer)).len()),
        variable_values(output) == permutation_values(variable_values(*state)),
        trace_at(*final(composer), output) == fixed_permutation_trace(
            trace_at(*old(composer), *state),
            wiring_of(*constants),
        ),
{
    let output = zelbet_gadget(
        composer,
        state,
        constants.s_i_decomposition,
        constants.constants_for_rounds,
        constants.zero,
        constants.one,
        constants.two,
    );
    proof {
        reveal(permutation_values);
        reveal(fixed_permutation_trace);
        lemma_constants_ready_extends(*old(composer), *composer, *constants);
    }
    output
}

/// A gate that defines the wire `sum` as the sum of the wires `a` and `b`.
pub open spec fn sum_gate(a: nat, b: nat, sum: nat) -> Gate {
    output_gate(0, 1, 1, 0, 0, a, b, sum, 0)
}

/// The sum of two variables as a circuit.
fn sum_gadget(composer: &mut TurboComposer, a: Variable, b: Variable) -> (sum: Variable)
    requires
        holds(*old(composer), a),
        holds(*old(composer), b),
    ensures
        extends(*old(composer), *final(composer)),
        holds(*final(composer), sum),
        sum.value() == field_add(a.value(), b.value()),
        sum.index() == composer_witnesses(*old(composer)).len(),
        grows_by(*old(composer), *final(composer), seq![sum.value()]),
        composer_gates(*final(composer)) == composer_gates(*old(composer)).push(
            sum_gate(a.index(), b.index(), sum.index()),
        ),
{
    let unused = zero_variable(composer);
    let sum = big_add(
        composer,
        (Scalar::one(), a),
        (Scalar::one(), b),
        (Scalar::zero(), unused),
        Scalar::zero(),
    );
    proof {
        assert(1 * a.value() + 1 * b.value() + 0 * 0 + 0 == a.value() + b.value())
            by (nonlinear_arith);
    }
    sum
}

/// A pair of the input, on the wires `first` and `second`, is added to the
/// first two coordinates of the state, and the permutation follows.
pub open spec fn absorb_trace(
    t: Trace,
    first: nat,
    first_value: nat,
    second: nat,
    second_value: nat,
    w: Wiring,
) -> Trace {
    let n = t.witnesses.len();
    fixed_permutation_trace(
        Trace {
            witnesses: t.witnesses + seq![
                field_add(t.values[0], first_value),
                field_add(t.values[1], second_value),
            ],
            gates: t.gates.push(sum_gate(t.wires[0], first, n)).push(
                sum_gate(t.wires[1], second, n + 1),
            ),
            wires: seq![n, n + 1, t.wires[2]],
            values: seq![
                field_add(t.values[0], first_value),
                field_add(t.values[1], second_value),
                t.values[2],
            ],
        },
        w,
    )
}

/// A pair of the input is added to the first two coordinates of the state,
/// and the permutation follows.
fn absorb_gadget(
    composer: &mut TurboComposer,
    state: &[Variable; 3],
    first: Variable,
    second: Variable,
    constants: &CircuitConstants,
) -> (output: [Variable; 3])
    requires
        holds_state(*old(composer), *state),
        holds(*old(composer), first),
        holds(*old(composer), second),
        constants_ready(*old(composer), *constants),
    ensures
        extends(*old(composer), *final(composer)),
        constants_ready(*final(composer), *constants),
        holds_state(*final(composer), output),
        reduced_from(*final(composer), composer_witnesses(*old(composer)).len()),
        variable_values(output) == permutation_values(
            seq![
                field_add(state[0].value(), first.value()),
                field_add(state[1].value(), second.value()),
                state[2].value(),
            ],
        ),
        trace_at(*final(composer), output) == absorb_trace(
            trace_at(*old(composer), *state),
            first.index(),
            first.value(),
            second.index(),
            second.value(),
            wiring_of(*constants),
        ),
{
    let ghost before = *composer;
    let sum_first = sum_gadget(composer, state[0], first);
    let ghost after_first = *composer;
    proof {
        lemma_holds_extends(before, after_first, state[1]);
        lemma_holds_extends(before, after_first, state[2]);
        lemma_holds_extends(before, after_first, second);
    }
    let sum_second = sum_gadget(composer, state[1], second);
    let ghost after_second = *composer;
    let next = [sum_first, sum_second, state[2]];
    proof {
        lemma_holds_extends(after_first, after_second, sum_first);
        lemma_holds_extends(after_first, after_second, state[2]);
        lemma_extends_transitive(before, after_first, after_second);
        lemma_constants_ready_extends(before, after_second, *constants);
        assert(variable_values(next) =~= seq![
            field_add(state[0].value(), first.value()),
            field_add(state[1].value(), second.value()),
            state[2].value(),
        ]);
        let t = trace_at(before, *state);
        let n = t.witnesses.len();
        lemma_grows_by_both(
            before,
            after_first,
            after_second,
            seq![sum_first.value()],
            seq![sum_second.value()],
        );
        assert(seq![sum_first.value()] + seq![sum_second.value()] =~= seq![
            field_add(t.values[0], first.value()),
            field_add(t.values[1], second.value()),
        ]);
        assert(variable_indices(next) =~= seq![n, n + 1, t.wires[2]]);
    }
    let output = permutation_gadget(composer, &next, constants);
    proof {
        lemma_extends_transitive(before, after_second, *composer);
        lemma_reduced_extends(composer_witnesses(before).len(), after_second, *composer);
    }
    output
}

/// The point of the circuit once the first `blocks` pairs of the input are
/// absorbed, from a composer of the witnesses `n` and the gates `gates`.
pub open spec fn absorbed_trace(
    n: Seq<nat>,
    gates: Seq<Gate>,
    wires: Seq<nat>,
    values: Seq<nat>,
    w: Wiring,
    blocks: nat,
) -> Trace
    decreases blocks,
{
    if blocks <= 1 {
        fixed_permutation_trace(
            Trace {
                witnesses: n,
                gates,
                wires: seq![wires[0], wires[1], w.one],
                values: seq![values[0], values[1], 1nat],
            },
            w,
        )
    } else {
        absorb_trace(
            absorbed_trace(n, gates, wires, values, w, (blocks - 1) as nat),
            wires[2 * (blocks - 1)],
            values[2 * (blocks - 1)],
            wires[2 * (blocks - 1) + 1],
            values[2 * (blocks - 1) + 1],
            w,
        )
    }
}

/// The point of the circuit after `k` more permutations.
pub open spec fn squeezed_trace(t: Trace, w: Wiring, k: nat) -> Trace
    decreases k,
{
    if k == 0 {
        t
    } else {
        fixed_permutation_trace(squeezed_trace(t, w, (k - 1) as nat), w)
    }
}

/// The wires of the input with the wire `one` at its end where its length is
/// odd.
pub open spec fn padded_wires(wires: Seq<nat>, one: nat) -> Seq<nat> {
    if wires.len() % 2 == 1 {
        wires.push(one)
    } else {
        wires
    }
}

/// The point of the circuit of the sponge once the input on the wires
/// `wires` is absorbed, from a composer of the witnesses `n` and the gates
/// `gates`: the constants of the permutation come first.
pub open spec fn sponge_absorbed_trace(
    n: Seq<nat>,
    gates: Seq<Gate>,
    wires: Seq<nat>,
    values: Seq<nat>,
) -> Trace {
    let w = wiring_at(n.len());
    let p = padded_wires(wires, w.one);
    absorbed_trace(
        n + constants_values(),
        gates + constants_gates(n.len()),
        p,
        padded(values),
        w,
        p.len() / 2,
    )
}

/// The number of permutations that follow the absorption for an output of
/// the length `length_out`.
pub open spec fn squeezes(length_out: nat) -> nat {
    if length_out == 0 {
        0
    } else {
        ((length_out - 1) / 2) as nat
    }
}

/// The point at which the circuit of the sponge ends.
pub open spec fn sponge_trace(
    n: Seq<nat>,
    gates: Seq<Gate>,
    wires: Seq<nat>,
    values: Seq<nat>,
    length_out: nat,
) -> Trace {
    squeezed_trace(
        sponge_absorbed_trace(n, gates, wires, values),
        wiring_at(n.len()),
        squeezes(length_out),
    )
}

/// The wires of the output of the sponge: output `i` is coordinate `i mod 2`
/// of the state after the absorption and `i / 2` more permutations.
pub open spec fn sponge_wires(
    n: Seq<nat>,
    gates: Seq<Gate>,
    wires: Seq<nat>,
    values: Seq<nat>,
    length_out: nat,
) -> Seq<nat> {
    let a = sponge_absorbed_trace(n, gates, wires, values);
    Seq::new(
        length_out,
        |i: int| squeezed_trace(a, wiring_at(n.len()), (i / 2) as nat).wires[i % 2],
    )
}

/// The input, of even length, is absorbed: the first pair fills the state,
/// beside the constant one, and each later pair is added to it; the
/// permutation follows each pair.
fn absorption_gadget(
    composer: &mut TurboComposer,
    input: &Vec<Variable>,
    constants: &CircuitConstants,
) -> (state: [Variable; 3])
    requires
        input.len() >= 2,
        input.len() % 2 == 0,
        holds_each(*old(composer), input@),
        constants_ready(*old(composer), *constants),
    ensures
        extends(*old(composer), *final(composer)),
        constants_ready(*final(composer), *constants),
        holds_state(*final(composer), state),
        reduced_from(*final(composer), composer_witnesses(*old(composer)).len()),
        variable_values(state) == absorbed(variables_values(input@), (input.len() / 2) as nat),
        trace_at(*final(composer), state) == absorbed_trace(
            composer_values(*old(composer)),
            composer_gates(*old(composer)),
            variables_indices(input@),
            variables_values(input@),
            wiring_of(*constants),
            (input.len() / 2) as nat,
        ),
{
    let ghost ready = *composer;
    let ghost p = variables_values(input@);
    let ghost pw = variables_indices(input@);
    let ghost w = wiring_of(*constants);
    let length_in = input.len();
    let initial = [input[0], input[1], constants.one];
    proof {
        assert(holds(ready, input@[0]));
        assert(holds(ready, input@[1]));
        assert(p[0] == input@[0].value());
        assert(p[1] == input@[1].value());
        assert(pw[0] == input@[0].index());
        assert(pw[1] == input@[1].index());
        assert(variable_values(initial) =~= seq![p[0], p[1], 1nat]);
        assert(variable_indices(initial) =~= seq![pw[0], pw[1], w.one]);
    }
    let mut state = permutation_gadget(composer, &initial, constants);

    let mut k: usize = 1;
    while k < length_in / 2
        invariant
            1 <= k <= length_in / 2,
            length_in == input.len(),
            length_in % 2 == 0,
            p == variables_values(input@),
            pw == variables_indices(input@),
            w == wiring_of(*constants),
            extends(ready, *composer),
            holds_each(ready, input@),
            constants_ready(*composer, *constants),
            holds_state(*composer, state),
            reduced_from(*composer, composer_witnesses(ready).len()),
            variable_values(state) == absorbed(p, k as nat),
            trace_at(*composer, state) == absorbed_trace(
                composer_values(ready),
                composer_gates(ready),
                pw,
                p,
                w,
                k as nat,
            ),
        decreases length_in / 2 - k,
    {
        let ghost before = *composer;
        proof {
            assert(holds(ready, input@[2 * k]));
            assert(holds(ready, input@[2 * k + 1]));
            lemma_holds_extends(ready, before, input@[2 * k]);
            lemma_holds_extends(ready, before, input@[2 * k + 1]);
            assert(p[2 * k] == input@[2 * k].value());
            assert(p[2 * k + 1] == input@[2 * k + 1].value());
            assert(pw[2 * k] == input@[2 * k].index());
            assert(pw[2 * k + 1] == input@[2 * k + 1].index());
            assert(variable_values(state)[0] == state[0].value());
            assert(variable_values(state)[1] == state[1].value());
            assert(variable_values(state)[2] == state[2].value());
        }
        state = absorb_gadget(composer, &state, input[2 * k], input[2 * k + 1], constants);
        proof {
            lemma_extends_transitive(ready, before, *composer);
            lemma_reduced_extends(composer_witnesses(ready).len(), before, *composer);
        }
        k = k + 1;
    }
    state
}

/// The output is squeezed out of the state: two coordinates at a time, with
/// a permutation before each pair but the first.
#[verifier::rlimit(40)]
fn squeezing_gadget(
    composer: &mut TurboComposer,
    absorbed: [Variable; 3],
    constants: &CircuitConstants,
    length_out: usize,
) -> (output: Vec<Variable>)
    requires
        holds_state(*old(composer), absorbed),
        constants_ready(*old(composer), *constants),
    ensures
        extends(*old(composer), *final(composer)),
        output.len() == length_out,
        holds_each(*final(composer), output@),
        reduced_from(*final(composer), composer_witnesses(*old(composer)).len()),
        forall|j: int|
            0 <= j < length_out ==> (#[trigger] output@[j]).value() == squeezed(
                variable_values(absorbed),
                (j / 2) as nat,
            )[j % 2],
        forall|j: int|
            0 <= j < length_out ==> (#[trigger] output@[j]).index() == squeezed_trace(
                trace_at(*old(composer), absorbed),
                wiring_of(*constants),
                (j / 2) as nat,
            ).wires[j % 2],
        composer_values(*final(composer)) == squeezed_trace(
            trace_at(*old(composer), absorbed),
            wiring_of(*constants),
            squeezes(length_out as nat),
        ).witnesses,
        composer_gates(*final(composer)) == squeezed_trace(
            trace_at(*old(composer), absorbed),
            wiring_of(*constants),
            squeezes(length_out as nat),
        ).gates,
{
    let ghost start = *composer;
    let ghost a = variable_values(absorbed);
    let ghost absorbed_at = trace_at(start, absorbed);
    let ghost w = wiring_of(*constants);
    let mut state = absorbed;
    let mut output: Vec<Variable> = Vec::new();
    let mut i: usize = 0;
    while i < length_out
        invariant
            0 <= i <= length_out,
            output.len() == i,
            w == wiring_of(*constants),
            extends(start, *composer),
            constants_ready(*composer, *constants),
            holds_state(*composer, state),
            holds_each(*composer, output@),
            reduced_from(*composer, composer_witnesses(start).len()),
            i == 0 ==> variable_values(state) == a,
            i > 0 ==> variable_values(state) == squeezed(a, ((i - 1) / 2) as nat),
            trace_at(*composer, state) == squeezed_trace(absorbed_at, w, squeezes(i as nat)),
            forall|j: int|
                0 <= j < i ==> (#[trigger] output@[j]).value() == squeezed(a, (j / 2) as nat)[j % 2],
            forall|j: int|
                0 <= j < i ==> (#[trigger] output@[j]).index() == squeezed_trace(
                    absorbed_at,
                    w,
                    (j / 2) as nat,
                ).wires[j % 2],
        decreases length_out - i,
    {
        if i % 2 == 0 && i > 0 {
            let ghost before = *composer;
            proof {
                assert((i / 2) as nat == ((i - 1) / 2) as nat + 1);
                assert(squeezes(i as nat) == ((i - 1) / 2) as nat);
            }
            state = permutation_gadget(composer, &state, constants);
            proof {
                lemma_extends_transitive(start, before, *composer);
                lemma_holds_each_extends(before, *composer, output@);
                lemma_reduced_extends(composer_witnesses(start).len(), before, *composer);
            }
        }
        proof {
            assert(variable_values(state) == squeezed(a, (i / 2) as nat));
            assert(squeezes((i + 1) as nat) == (i / 2) as nat);
            assert(trace_at(*composer, state) == squeezed_trace(absorbed_at, w, (i / 2) as nat));
            assert(trace_at(*composer, state).wires[(i % 2) as int] == state[(i % 2) as int].index());
        }
        let ghost held = output@;
        output.push(state[i % 2]);
        proof {
            assert forall|j: int| 0 <= j < output@.len() implies holds(
                *composer,
                #[trigger] output@[j],
            ) by {
                if j < i {
                    assert(holds(*composer, held[j]));
                }
            }
        }
        i = i + 1;
    }
    output
}

/// Sponge for the Reinforced Concrete hash as a circuit, with input and
/// output of any length. The input holds at least one variable. The
/// constants of the permutation become witnesses once, before anything
/// else, and serve every permutation.
pub fn sponge_zelbet_gadget(
    composer: &mut TurboComposer,
    input: Vec<Variable>,
    length_out: usize,
) -> (output: Vec<Variable>)
    requires
        input.len() >= 1,
        holds_each(*old(composer), input@),
    ensures
        extends(*old(composer), *final(composer)),
        output.len() == length_out,
        holds_each(*final(composer), output@),
        variables_values(output@) == sponge_values(variables_values(input@), length_out as nat),
        variables_indices(output@) == sponge_wires(
            composer_values(*old(composer)),
            composer_gates(*old(composer)),
            variables_indices(input@),
            variables_values(input@),
            length_out as nat,
        ),
        reduced_from(*final(composer), composer_witnesses(*old(composer)).len()),
        composer_values(*final(composer)) == sponge_trace(
            composer_values(*old(composer)),
            composer_gates(*old(composer)),
            variables_indices(input@),
            variables_values(input@),
            length_out as nat,
        ).witnesses,
        composer_gates(*final(composer)) == sponge_trace(
            composer_values(*old(composer)),
            composer_gates(*old(composer)),
            variables_indices(input@),
            variables_values(input@),
            length_out as nat,
        ).gates,
{
    let ghost start = *composer;
    let ghost n = composer_witnesses(start).len();
    let ghost given = variables_values(input@);
    let ghost given_wires = variables_indices(input@);
    let constants = circuit_constants(composer);
    let ghost ready = *composer;
    proof {
        lemma_holds_each_extends(start, ready, input@);
        assert(composer_values(start).len() == n);
    }

    // Pad an input of odd length
    let mut input = input;
    if input.len() % 2 == 1 {
        input.push(constants.one);
    }
    proof {
        assert(variables_values(input@) =~= padded(given));
        assert(variables_indices(input@) =~= padded_wires(given_wires, wiring_at(n).one));
        assert(holds_each(ready, input@));
    }

    let state = absorption_gadget(composer, &input, &constants);
    let ghost absorbed_at = *composer;
    proof {
        lemma_extends_transitive(start, ready, absorbed_at);
        lemma_reduced_extends(n, ready, absorbed_at);
        assert(trace_at(absorbed_at, state) == sponge_absorbed_trace(
            composer_values(start),
            composer_gates(start),
            given_wires,
            given,
        ));
    }
    let output = squeezing_gadget(composer, state, &constants, length_out);
    proof {
        lemma_extends_transitive(start, absorbed_at, *composer);
        lemma_reduced_extends(n, absorbed_at, *composer);
        assert(variables_values(output@) =~= sponge_values(given, length_out as nat));
        assert(variables_indices(output@) =~= sponge_wires(
            composer_values(start),
            composer_gates(start),
            given_wires,
            given,
            length_out as nat,
        ));
    }
    output
}

} // verus!
