//! The circuit builder of `dusk-plonk`, as far as the gadgets use it.
//!
//! A composer is modelled by two sequences: the values of its witnesses, by
//! witness index, and its gates, in the order in which they were appended.
//! The gadgets work on [`Variable`]s, which carry the value of a witness
//! beside the witness itself.

use crate::field::{
    field_add, lemma_congruent_value, lemma_field_add_congruent, lemma_field_mul_congruent,
    lemma_value_injective, modulus, montgomery_radix_inverse, Scalar,
};
use dusk_bls12_381::BlsScalar;
use dusk_plonk::constraint_system::{Constraint, TurboComposer, Witness};
use vstd::arithmetic::div_mod::{
    lemma_fundamental_div_mod, lemma_mod_bound, lemma_mod_multiples_basic, lemma_small_mod,
};
use vstd::prelude::*;

verus! {

/// `dusk_plonk::constraint_system::TurboComposer`, the builder of a circuit.
#[verifier::external_type_specification]
#[verifier::external_body]
pub struct ExTurboComposer(TurboComposer);

/// `dusk_plonk::constraint_system::Witness`, the handle of a witness in a
/// composer.
#[verifier::external_type_specification]
#[verifier::external_body]
pub struct ExWitness(Witness);

/// One gate of a circuit. Coefficients are field elements, wires are witness
/// indices.
pub enum Gate {
    /// `q_m·a·b + q_l·a + q_r·b + q_o·o + q_4·d + q_c = 0`, without a public
    /// input.
    Arithmetic {
        q_m: nat,
        q_l: nat,
        q_r: nat,
        q_o: nat,
        q_4: nat,
        q_c: nat,
        a: nat,
        b: nat,
        o: nat,
        d: nat,
    },
    /// The row `(a, b, c, d)` stands in the lookup table.
    Lookup { a: nat, b: nat, c: nat, d: nat },
    /// A gate of another kind.
    Other,
}

/// The values of the witnesses that a composer holds, by witness index.
pub uninterp spec fn composer_witnesses(composer: TurboComposer) -> Seq<Scalar>;

/// The gates that a composer holds, in the order in which they were appended.
/// A gate whose only selector beside those of the arithmetic equation is the
/// arithmetic one, set to one, is an `Arithmetic` gate; one whose only
/// selector is the lookup one, set to one, is a `Lookup` gate.
pub uninterp spec fn composer_gates(composer: TurboComposer) -> Seq<Gate>;

/// The index of a witness.
pub uninterp spec fn witness_index(witness: Witness) -> nat;

/// The additive inverse of a field element.
pub open spec fn field_neg(a: nat) -> nat {
    ((modulus() - a % modulus()) % (modulus() as int)) as nat
}

/// The witness has a reduced value in the composer.
pub open spec fn witness_ready(composer: TurboComposer, witness: Witness) -> bool {
    &&& witness_index(witness) < composer_witnesses(composer).len()
    &&& composer_witnesses(composer)[witness_index(witness) as int].wf()
}

/// The value of a witness in the composer, as a field element.
pub open spec fn witness_value(composer: TurboComposer, witness: Witness) -> nat {
    composer_witnesses(composer)[witness_index(witness) as int].value()
}

/// The witness that an arithmetic gate defines was appended with the value
/// `value`, and after it a gate.
pub open spec fn appended_output(
    before: TurboComposer,
    after: TurboComposer,
    output: Witness,
    value: nat,
    gate: Gate,
) -> bool {
    let o = composer_witnesses(after).last();
    &&& composer_witnesses(after) == composer_witnesses(before).push(o)
    &&& witness_index(output) == composer_witnesses(before).len()
    &&& o.wf()
    &&& o.value() == value
    &&& composer_gates(after) == composer_gates(before).push(gate)
}

/// `TurboComposer::constant_zero`: the witness that every composer holds
/// from the start. Its index is zero and its value is zero.
#[verifier::external_body]
fn constant_zero(composer: &TurboComposer) -> (zero: Witness)
    ensures
        witness_index(zero) == 0,
        witness_index(zero) < composer_witnesses(*composer).len(),
        composer_witnesses(*composer)[witness_index(zero) as int] == Scalar([0, 0, 0, 0]),
{
    let _ = composer;
    TurboComposer::constant_zero()
}

/// `TurboComposer::append_witness`: the value is stored under the next free
/// index, and no gate is appended.
#[verifier::external_body]
fn append_witness(composer: &mut TurboComposer, scalar: &Scalar) -> (witness: Witness)
    ensures
        composer_witnesses(*final(composer)) == composer_witnesses(*old(composer)).push(*scalar),
        composer_gates(*final(composer)) == composer_gates(*old(composer)),
        witness_index(witness) == composer_witnesses(*old(composer)).len(),
{
    composer.append_witness(BlsScalar(scalar.0))
}

/// `TurboComposer::append_constant`: the value is stored under the next free
/// index, and a gate ties that witness to the value: `1·a - value = 0`, with
/// the witness of index zero on the three wires that are not used.
#[verifier::external_body]
fn append_constant(composer: &mut TurboComposer, scalar: &Scalar) -> (witness: Witness)
    requires
        scalar.wf(),
    ensures
        composer_witnesses(*final(composer)) == composer_witnesses(*old(composer)).push(*scalar),
        witness_index(witness) == composer_witnesses(*old(composer)).len(),
        composer_gates(*final(composer)) == composer_gates(*old(composer)).push(
            (Gate::Arithmetic {
                q_m: 0,
                q_l: 1,
                q_r: 0,
                q_o: 0,
                q_4: 0,
                q_c: field_neg(scalar.value()),
                a: witness_index(witness),
                b: 0,
                o: 0,
                d: 0,
            }),
        ),
{
    composer.append_constant(BlsScalar(scalar.0))
}

/// `TurboComposer::gate_add` on a constraint with the coefficients `q_l`,
/// `q_r`, `q_4`, `q_c` and the wires `a`, `b`, `d`: a new witness takes the
/// value `q_l·a + q_r·b + q_4·d + q_c`, and a gate with the output
/// coefficient `-1` ties it to the three wires.
#[verifier::external_body]
fn gate_add(
    composer: &mut TurboComposer,
    q_l: &Scalar,
    a: Witness,
    q_r: &Scalar,
    b: Witness,
    q_4: &Scalar,
    d: Witness,
    q_c: &Scalar,
) -> (o: Witness)
    requires
        q_l.wf(),
        q_r.wf(),
        q_4.wf(),
        q_c.wf(),
        witness_ready(*old(composer), a),
        witness_ready(*old(composer), b),
        witness_ready(*old(composer), d),
    ensures
        appended_output(
            *old(composer),
            *final(composer),
            o,
            (q_l.value() * witness_value(*old(composer), a) + q_r.value() * witness_value(
                *old(composer),
                b,
            ) + q_4.value() * witness_value(*old(composer), d) + q_c.value()) % modulus(),
            (Gate::Arithmetic {
                q_m: 0,
                q_l: q_l.value(),
                q_r: q_r.value(),
                q_o: field_neg(1),
                q_4: q_4.value(),
                q_c: q_c.value(),
                a: witness_index(a),
                b: witness_index(b),
                o: witness_index(o),
                d: witness_index(d),
            }),
        ),
{
    let constraint = Constraint::new()
        .left(BlsScalar(q_l.0))
        .right(BlsScalar(q_r.0))
        .fourth(BlsScalar(q_4.0))
        .constant(BlsScalar(q_c.0))
        .a(a)
        .b(b)
        .d(d);
    composer.gate_add(constraint)
}

/// `TurboComposer::gate_mul` on a constraint with the coefficients `q_m`,
/// `q_4`, `q_c` and the wires `a`, `b`, `d`: a new witness takes the value
/// `q_m·a·b + q_4·d + q_c`, and a gate with the output coefficient `-1` ties
/// it to the three wires.
#[verifier::external_body]
fn gate_mul(
    composer: &mut TurboComposer,
    q_m: &Scalar,
    a: Witness,
    b: Witness,
    q_4: &Scalar,
    d: Witness,
    q_c: &Scalar,
) -> (o: Witness)
    requires
        q_m.wf(),
        q_4.wf(),
        q_c.wf(),
        witness_ready(*old(composer), a),
        witness_ready(*old(composer), b),
        witness_ready(*old(composer), d),
    ensures
        appended_output(
            *old(composer),
            *final(composer),
            o,
            (q_m.value() * witness_value(*old(composer), a) * witness_value(*old(composer), b)
                + q_4.value() * witness_value(*old(composer), d) + q_c.value()) % modulus(),
            (Gate::Arithmetic {
                q_m: q_m.value(),
                q_l: 0,
                q_r: 0,
                q_o: field_neg(1),
                q_4: q_4.value(),
                q_c: q_c.value(),
                a: witness_index(a),
                b: witness_index(b),
                o: witness_index(o),
                d: witness_index(d),
            }),
        ),
{
    let constraint = Constraint::new()
        .mult(BlsScalar(q_m.0))
        .fourth(BlsScalar(q_4.0))
        .constant(BlsScalar(q_c.0))
        .a(a)
        .b(b)
        .d(d);
    composer.gate_mul(constraint)
}

/// `TurboComposer::append_plonkup_gate` without a public input: a lookup
/// gate on the four wires is appended, no witness is, and the third wire
/// comes back.
#[verifier::external_body]
fn append_plonkup_gate(
    composer: &mut TurboComposer,
    a: Witness,
    b: Witness,
    c: Witness,
    d: Witness,
) -> (output: Witness)
    requires
        witness_index(a) < composer_witnesses(*old(composer)).len(),
        witness_index(b) < composer_witnesses(*old(composer)).len(),
        witness_index(c) < composer_witnesses(*old(composer)).len(),
        witness_index(d) < composer_witnesses(*old(composer)).len(),
    ensures
        output == c,
        composer_witnesses(*final(composer)) == composer_witnesses(*old(composer)),
        composer_gates(*final(composer)) == composer_gates(*old(composer)).push(
            (Gate::Lookup {
                a: witness_index(a),
                b: witness_index(b),
                c: witness_index(c),
                d: witness_index(d),
            }),
        ),
{
    composer.append_plonkup_gate(a, b, c, d, None)
}

/// `TurboComposer::assert_equal`: a gate `1·a - 1·b = 0` is appended, with
/// the witness of index zero on the two wires that are not used, and no
/// witness is.
#[verifier::external_body]
fn assert_equal_witnesses(composer: &mut TurboComposer, a: Witness, b: Witness)
    requires
        witness_index(a) < composer_witnesses(*old(composer)).len(),
        witness_index(b) < composer_witnesses(*old(composer)).len(),
    ensures
        composer_witnesses(*final(composer)) == composer_witnesses(*old(composer)),
        composer_gates(*final(composer)) == composer_gates(*old(composer)).push(
            (Gate::Arithmetic {
                q_m: 0,
                q_l: 1,
                q_r: field_neg(1),
                q_o: 0,
                q_4: 0,
                q_c: 0,
                a: witness_index(a),
                b: witness_index(b),
                o: 0,
                d: 0,
            }),
        ),
{
    composer.assert_equal(a, b)
}

/// A witness of a composer together with the value that the composer holds
/// for it.
#[derive(Clone, Copy, Debug)]
pub struct Variable {
    pub witness: Witness,
    pub scalar: Scalar,
}

impl Variable {
    /// The field element that the variable stands for.
    pub open spec fn value(self) -> nat {
        self.scalar.value()
    }

    /// The index of the variable's witness.
    pub open spec fn index(self) -> nat {
        witness_index(self.witness)
    }
}

/// The composer holds the variable's witness, with the variable's value, and
/// that value is reduced.
pub open spec fn holds(composer: TurboComposer, v: Variable) -> bool {
    &&& v.index() < composer_witnesses(composer).len()
    &&& composer_witnesses(composer)[v.index() as int] == v.scalar
    &&& v.scalar.wf()
}

/// An arithmetic gate holds of the field elements `w` on its wires; of a
/// gate of another kind nothing is asked.
#[verifier::opaque]
pub open spec fn gate_holds(gate: Gate, w: Seq<nat>) -> bool {
    match gate {
        Gate::Arithmetic { q_m, q_l, q_r, q_o, q_4, q_c, a, b, o, d } => {
            &&& a < w.len()
            &&& b < w.len()
            &&& o < w.len()
            &&& d < w.len()
            &&& (q_m * w[a as int] * w[b as int] + q_l * w[a as int] + q_r * w[b as int] + q_o
                * w[o as int] + q_4 * w[d as int] + q_c) % modulus() == 0
        },
        _ => true,
    }
}

/// The gates of the composer from number `n` on hold of its witnesses.
pub open spec fn gates_hold_from(composer: TurboComposer, n: nat) -> bool {
    forall|i: int|
        n <= i < composer_gates(composer).len() ==> gate_holds(
            #[trigger] composer_gates(composer)[i],
            composer_values(composer),
        )
}

/// The second composer holds every witness and gate of the first, at the
/// same place, and the gates that it holds beyond them hold of its
/// witnesses.
pub open spec fn extends(before: TurboComposer, after: TurboComposer) -> bool {
    &&& composer_witnesses(before).is_prefix_of(composer_witnesses(after))
    &&& composer_gates(before).is_prefix_of(composer_gates(after))
    &&& gates_hold_from(after, composer_gates(before).len())
}

/// The arithmetic gate that defines the output `o` from the wires `a`, `b`
/// and `d`.
pub open spec fn output_gate(
    q_m: nat,
    q_l: nat,
    q_r: nat,
    q_4: nat,
    q_c: nat,
    a: nat,
    b: nat,
    o: nat,
    d: nat,
) -> Gate {
    Gate::Arithmetic { q_m, q_l, q_r, q_o: field_neg(1), q_4, q_c, a, b, o, d }
}

/// The lookup gate on four wires.
pub open spec fn lookup_gate(a: nat, b: nat, c: nat, d: nat) -> Gate {
    Gate::Lookup { a, b, c, d }
}

/// The variable `v` is the one new witness of `after`, and `gate` its one new
/// gate.
pub open spec fn appended(before: TurboComposer, after: TurboComposer, v: Variable, gate: Gate) -> bool {
    &&& composer_witnesses(after) == composer_witnesses(before).push(v.scalar)
    &&& composer_gates(after) == composer_gates(before).push(gate)
    &&& v.index() == composer_witnesses(before).len()
    &&& v.scalar.wf()
}

/// The field elements that the witnesses of a composer stand for, by witness
/// index.
pub open spec fn composer_values(composer: TurboComposer) -> Seq<nat> {
    Seq::new(composer_witnesses(composer).len(), |i: int| composer_witnesses(composer)[i].value())
}

/// Every witness of the composer from the index `n` on has a reduced value.
pub open spec fn reduced_from(composer: TurboComposer, n: nat) -> bool {
    forall|i: int| n <= i < composer_witnesses(composer).len() ==> (#[trigger] composer_witnesses(
        composer,
    )[i]).wf()
}

/// The second composer holds the witnesses of the first and after them
/// reduced witnesses for the field elements of `fresh`, and no others.
pub open spec fn grows_by(before: TurboComposer, after: TurboComposer, fresh: Seq<nat>) -> bool {
    &&& composer_witnesses(before).is_prefix_of(composer_witnesses(after))
    &&& composer_values(after) == composer_values(before) + fresh
    &&& reduced_from(after, composer_witnesses(before).len())
}

/// A composer that gets one reduced witness grows by its value.
pub proof fn lemma_grows_by_one(before: TurboComposer, after: TurboComposer, scalar: Scalar)
    requires
        composer_witnesses(after) == composer_witnesses(before).push(scalar),
        scalar.wf(),
    ensures
        grows_by(before, after, seq![scalar.value()]),
{
    assert(composer_values(after) =~= composer_values(before) + seq![scalar.value()]);
}

/// A composer whose witnesses stay as they are grows by nothing.
pub proof fn lemma_grows_by_nothing(before: TurboComposer, after: TurboComposer)
    requires
        composer_witnesses(after) == composer_witnesses(before),
    ensures
        grows_by(before, after, Seq::empty()),
{
    assert(composer_values(after) =~= composer_values(before) + Seq::<nat>::empty());
}

/// Growing twice is growing once by both.
pub proof fn lemma_grows_by_both(
    a: TurboComposer,
    b: TurboComposer,
    c: TurboComposer,
    first: Seq<nat>,
    second: Seq<nat>,
)
    requires
        grows_by(a, b, first),
        grows_by(b, c, second),
    ensures
        grows_by(a, c, first + second),
        composer_witnesses(b).len() == composer_witnesses(a).len() + first.len(),
{
    assert(composer_values(a).len() == composer_witnesses(a).len());
    assert(composer_values(b).len() == composer_witnesses(b).len());
    assert(composer_values(c) =~= composer_values(a) + (first + second));
    assert forall|i: int|
        composer_witnesses(a).len() <= i < composer_witnesses(c).len() implies (
    #[trigger] composer_witnesses(c)[i]).wf() by {
        if i < composer_witnesses(b).len() {
            assert(composer_witnesses(b)[i].wf());
            assert(composer_witnesses(c)[i] == composer_witnesses(b)[i]);
        }
    }
    assert(composer_witnesses(a).is_prefix_of(composer_witnesses(c)));
}

/// Where the witnesses of a composer are reduced from an index on, they
/// still are once the composer grows.
pub proof fn lemma_reduced_from_grows(
    n: nat,
    before: TurboComposer,
    after: TurboComposer,
    fresh: Seq<nat>,
)
    requires
        reduced_from(before, n),
        n <= composer_witnesses(before).len(),
        grows_by(before, after, fresh),
    ensures
        reduced_from(after, n),
{
    assert forall|i: int| n <= i < composer_witnesses(after).len() implies (
    #[trigger] composer_witnesses(after)[i]).wf() by {
        if i < composer_witnesses(before).len() {
            assert(composer_witnesses(before)[i].wf());
            assert(composer_witnesses(after)[i] == composer_witnesses(before)[i]);
        }
    }
}

/// Where the witnesses of a composer are reduced from an index on and those
/// that a longer composer holds beyond it are reduced too, the witnesses of
/// the longer composer are reduced from that index on.
pub proof fn lemma_reduced_extends(n: nat, before: TurboComposer, after: TurboComposer)
    requires
        reduced_from(before, n),
        extends(before, after),
        reduced_from(after, composer_witnesses(before).len()),
    ensures
        reduced_from(after, n),
{
    assert forall|i: int| n <= i < composer_witnesses(after).len() implies (
    #[trigger] composer_witnesses(after)[i]).wf() by {
        if i < composer_witnesses(before).len() {
            assert(composer_witnesses(before)[i].wf());
            assert(composer_witnesses(after)[i] == composer_witnesses(before)[i]);
        }
    }
}

/// A composer that grows by `fresh` holds as many witnesses more.
pub proof fn lemma_grows_by_length(before: TurboComposer, after: TurboComposer, fresh: Seq<nat>)
    requires
        grows_by(before, after, fresh),
    ensures
        composer_witnesses(after).len() == composer_witnesses(before).len() + fresh.len(),
{
    assert(composer_values(before).len() == composer_witnesses(before).len());
    assert(composer_values(after).len() == composer_witnesses(after).len());
}

/// What a composer holds, it still holds once more is appended.
pub proof fn lemma_holds_extends(before: TurboComposer, after: TurboComposer, v: Variable)
    requires
        holds(before, v),
        extends(before, after),
    ensures
        holds(after, v),
{
}

/// A gate that holds of field elements still holds once more of them
/// follow.
pub proof fn lemma_gate_holds_prefix(gate: Gate, w: Seq<nat>, longer: Seq<nat>)
    requires
        gate_holds(gate, w),
        w.is_prefix_of(longer),
    ensures
        gate_holds(gate, longer),
{
    reveal(gate_holds);
    match gate {
        Gate::Arithmetic { q_m, q_l, q_r, q_o, q_4, q_c, a, b, o, d } => {
            assert(longer[a as int] == w[a as int]);
            assert(longer[b as int] == w[b as int]);
            assert(longer[o as int] == w[o as int]);
            assert(longer[d as int] == w[d as int]);
        },
        _ => {},
    }
}

/// The field elements of the witnesses of a composer stay in front where
/// the witnesses do.
pub proof fn lemma_values_prefix(before: TurboComposer, after: TurboComposer)
    requires
        composer_witnesses(before).is_prefix_of(composer_witnesses(after)),
    ensures
        composer_values(before).is_prefix_of(composer_values(after)),
{
}

/// Extending is transitive.
pub proof fn lemma_extends_transitive(a: TurboComposer, b: TurboComposer, c: TurboComposer)
    requires
        extends(a, b),
        extends(b, c),
    ensures
        extends(a, c),
{
    lemma_values_prefix(b, c);
    assert forall|i: int| composer_gates(a).len() <= i < composer_gates(c).len() implies gate_holds(
        #[trigger] composer_gates(c)[i],
        composer_values(c),
    ) by {
        if i < composer_gates(b).len() {
            assert(composer_gates(c)[i] == composer_gates(b)[i]);
            assert(gate_holds(composer_gates(b)[i], composer_values(b)));
            lemma_gate_holds_prefix(composer_gates(b)[i], composer_values(b), composer_values(c));
        }
    }
}

/// A composer that gets witnesses and no gate is extended.
pub proof fn lemma_extends_by_witnesses(before: TurboComposer, after: TurboComposer)
    requires
        composer_witnesses(before).is_prefix_of(composer_witnesses(after)),
        composer_gates(after) == composer_gates(before),
    ensures
        extends(before, after),
{
}

/// A composer that gets witnesses and one gate that holds of them is
/// extended.
pub proof fn lemma_extends_by_gate(before: TurboComposer, after: TurboComposer, gate: Gate)
    requires
        composer_witnesses(before).is_prefix_of(composer_witnesses(after)),
        composer_gates(after) == composer_gates(before).push(gate),
        gate_holds(gate, composer_values(after)),
    ensures
        extends(before, after),
{
}

/// A gate that defines its output as the remainder of what stands on its
/// other wires holds.
pub proof fn lemma_output_gate_holds(
    w: Seq<nat>,
    q_m: nat,
    q_l: nat,
    q_r: nat,
    q_4: nat,
    q_c: nat,
    a: nat,
    b: nat,
    o: nat,
    d: nat,
)
    requires
        a < w.len(),
        b < w.len(),
        o < w.len(),
        d < w.len(),
        w[o as int] == (q_m * w[a as int] * w[b as int] + q_l * w[a as int] + q_r * w[b as int]
            + q_4 * w[d as int] + q_c) % modulus(),
    ensures
        gate_holds(output_gate(q_m, q_l, q_r, q_4, q_c, a, b, o, d), w),
{
    reveal(gate_holds);
    let p = modulus() as int;
    let x = (q_m * w[a as int] * w[b as int] + q_l * w[a as int] + q_r * w[b as int] + q_4
        * w[d as int] + q_c) as int;
    let r = x % p;
    lemma_fundamental_div_mod(x, p);
    assert(field_neg(1) == p - 1);
    assert(x + (p - 1) * r == p * (x / p + r)) by (nonlinear_arith)
        requires
            x == p * (x / p) + r,
    ;
    lemma_mod_multiples_basic(x / p + r, p);
    assert((x / p + r) * p == p * (x / p + r)) by (nonlinear_arith);
    assert(q_m * w[a as int] * w[b as int] + q_l * w[a as int] + q_r * w[b as int] + field_neg(1)
        * w[o as int] + q_4 * w[d as int] + q_c == x + (p - 1) * r) by (nonlinear_arith)
        requires
            x == q_m * w[a as int] * w[b as int] + q_l * w[a as int] + q_r * w[b as int] + q_4
                * w[d as int] + q_c,
            field_neg(1) == p - 1,
            w[o as int] == r,
    ;
}

/// A gate that fixes the value of a wire holds where the wire has that
/// value.
pub proof fn lemma_fixing_gate_holds(w: Seq<nat>, a: nat, value: nat)
    requires
        a < w.len(),
        w[a as int] == value,
        value < modulus(),
    ensures
        gate_holds(
            (Gate::Arithmetic {
                q_m: 0,
                q_l: 1,
                q_r: 0,
                q_o: 0,
                q_4: 0,
                q_c: field_neg(value),
                a,
                b: 0,
                o: 0,
                d: 0,
            }),
            w,
        ),
{
    reveal(gate_holds);
    let p = modulus() as int;
    lemma_small_mod(value, modulus());
    if value == 0 {
        assert(field_neg(value) == 0);
    } else {
        lemma_small_mod((p - value) as nat, modulus());
        assert(field_neg(value) == p - value);
    }
    assert(0 * w[a as int] * w[0] + 1 * w[a as int] + 0 * w[0] + 0 * w[0] + 0 * w[0] + field_neg(
        value,
    ) == value + field_neg(value)) by (nonlinear_arith)
        requires
            w[a as int] == value,
    ;
}

/// A gate that ties two wires to the same value holds where they have the
/// same value.
pub proof fn lemma_equality_gate_holds(w: Seq<nat>, a: nat, b: nat)
    requires
        a < w.len(),
        b < w.len(),
        w[a as int] == w[b as int],
    ensures
        gate_holds(equality_gate(a, b), w),
{
    reveal(gate_holds);
    let p = modulus() as int;
    let v = w[a as int] as int;
    assert(field_neg(1) == p - 1);
    assert(0 * v * w[b as int] + 1 * v + field_neg(1) * w[b as int] + 0 * w[0] + 0 * w[0] + 0 == v
        * p) by (nonlinear_arith)
        requires
            w[b as int] == v,
            field_neg(1) == p - 1,
    ;
    lemma_mod_multiples_basic(v, p);
}

/// Adds a witness to the circuit.
pub fn add_input(composer: &mut TurboComposer, scalar: Scalar) -> (v: Variable)
    requires
        scalar.wf(),
    ensures
        v.scalar == scalar,
        v.index() == composer_witnesses(*old(composer)).len(),
        composer_witnesses(*final(composer)) == composer_witnesses(*old(composer)).push(scalar),
        composer_gates(*final(composer)) == composer_gates(*old(composer)),
        holds(*final(composer), v),
        extends(*old(composer), *final(composer)),
        grows_by(*old(composer), *final(composer), seq![scalar.value()]),
{
    let witness = append_witness(composer, &scalar);
    proof {
        lemma_grows_by_one(*old(composer), *composer, scalar);
    }
    Variable { witness, scalar }
}

/// Adds a witness to the circuit and a gate that fixes its value.
pub fn add_witness_to_circuit_description(composer: &mut TurboComposer, scalar: Scalar) -> (v:
    Variable)
    requires
        scalar.wf(),
    ensures
        v.scalar == scalar,
        appended(
            *old(composer),
            *final(composer),
            v,
            (Gate::Arithmetic {
                q_m: 0,
                q_l: 1,
                q_r: 0,
                q_o: 0,
                q_4: 0,
                q_c: field_neg(scalar.value()),
                a: v.index(),
                b: 0,
                o: 0,
                d: 0,
            }),
        ),
        holds(*final(composer), v),
        extends(*old(composer), *final(composer)),
        grows_by(*old(composer), *final(composer), seq![scalar.value()]),
{
    let witness = append_constant(composer, &scalar);
    proof {
        lemma_grows_by_one(*old(composer), *composer, scalar);
        lemma_mod_bound((scalar.raw() * montgomery_radix_inverse()) as int, modulus() as int);
        lemma_fixing_gate_holds(composer_values(*composer), witness_index(witness), scalar.value());
        lemma_extends_by_gate(
            *old(composer),
            *composer,
            (Gate::Arithmetic {
                q_m: 0,
                q_l: 1,
                q_r: 0,
                q_o: 0,
                q_4: 0,
                q_c: field_neg(scalar.value()),
                a: witness_index(witness),
                b: 0,
                o: 0,
                d: 0,
            }),
        );
    }
    Variable { witness, scalar }
}

/// The value `q_l·a + q_r·b + q_4·d + q_c` of an addition gate.
pub open spec fn big_add_value(q_l: nat, a: nat, q_r: nat, b: nat, q_4: nat, d: nat, q_c: nat) -> nat {
    (q_l * a + q_r * b + q_4 * d + q_c) % modulus()
}

/// The value `q_m·a·b + q_4·d + q_c` of a multiplication gate.
pub open spec fn big_mul_value(q_m: nat, a: nat, b: nat, q_4: nat, d: nat, q_c: nat) -> nat {
    (q_m * a * b + q_4 * d + q_c) % modulus()
}

/// Adds a gate `o = q_l·a + q_r·b + q_4·d + q_c` to the circuit and gives
/// its output.
pub fn big_add(
    composer: &mut TurboComposer,
    q_l_a: (Scalar, Variable),
    q_r_b: (Scalar, Variable),
    q_4_d: (Scalar, Variable),
    q_c: Scalar,
) -> (o: Variable)
    requires
        q_l_a.0.wf(),
        q_r_b.0.wf(),
        q_4_d.0.wf(),
        q_c.wf(),
        holds(*old(composer), q_l_a.1),
        holds(*old(composer), q_r_b.1),
        holds(*old(composer), q_4_d.1),
    ensures
        o.value() == big_add_value(
            q_l_a.0.value(),
            q_l_a.1.value(),
            q_r_b.0.value(),
            q_r_b.1.value(),
            q_4_d.0.value(),
            q_4_d.1.value(),
            q_c.value(),
        ),
        appended(
            *old(composer),
            *final(composer),
            o,
            output_gate(
                0,
                q_l_a.0.value(),
                q_r_b.0.value(),
                q_4_d.0.value(),
                q_c.value(),
                q_l_a.1.index(),
                q_r_b.1.index(),
                o.index(),
                q_4_d.1.index(),
            ),
        ),
        holds(*final(composer), o),
        extends(*old(composer), *final(composer)),
        grows_by(*old(composer), *final(composer), seq![o.value()]),
{
    let (q_l, a) = q_l_a;
    let (q_r, b) = q_r_b;
    let (q_4, d) = q_4_d;
    let witness = gate_add(composer, &q_l, a.witness, &q_r, b.witness, &q_4, d.witness, &q_c);
    let left = q_l.mul(&a.scalar);
    let right = q_r.mul(&b.scalar);
    let fourth = q_4.mul(&d.scalar);
    let sum = left.add(&right);
    let sum = sum.add(&fourth);
    let scalar = sum.add(&q_c);
    proof {
        let l = (q_l.value() * a.value()) as int;
        let r = (q_r.value() * b.value()) as int;
        let f = (q_4.value() * d.value()) as int;
        lemma_field_mul_congruent(q_l.value(), a.value(), q_l.value() as int, a.value() as int);
        lemma_field_mul_congruent(q_r.value(), b.value(), q_r.value() as int, b.value() as int);
        lemma_field_mul_congruent(q_4.value(), d.value(), q_4.value() as int, d.value() as int);
        lemma_field_add_congruent(left.value(), right.value(), l, r);
        lemma_field_add_congruent(field_add(left.value(), right.value()), fourth.value(), l + r, f);
        lemma_field_add_congruent(sum.value(), q_c.value(), l + r + f, q_c.value() as int);
        lemma_congruent_value(scalar, l + r + f + q_c.value());
        lemma_value_injective(scalar, composer_witnesses(*composer).last());
        lemma_grows_by_one(*old(composer), *composer, scalar);
        let w = composer_values(*composer);
        assert(w[a.index() as int] == a.value());
        assert(w[b.index() as int] == b.value());
        assert(w[d.index() as int] == d.value());
        assert(w[witness_index(witness) as int] == scalar.value());
        assert(0 * a.value() * b.value() == 0) by (nonlinear_arith);
        lemma_output_gate_holds(
            w,
            0,
            q_l.value(),
            q_r.value(),
            q_4.value(),
            q_c.value(),
            a.index(),
            b.index(),
            witness_index(witness),
            d.index(),
        );
        lemma_extends_by_gate(
            *old(composer),
            *composer,
            output_gate(
                0,
                q_l.value(),
                q_r.value(),
                q_4.value(),
                q_c.value(),
                a.index(),
                b.index(),
                witness_index(witness),
                d.index(),
            ),
        );
    }
    Variable { witness, scalar }
}

/// Adds a gate `o = q_m·a·b + q_4·d + q_c` to the circuit and gives its
/// output.
pub fn big_mul(
    composer: &mut TurboComposer,
    q_m: Scalar,
    a: Variable,
    b: Variable,
    q_4_d: (Scalar, Variable),
    q_c: Scalar,
) -> (o: Variable)
    requires
        q_m.wf(),
        q_4_d.0.wf(),
        q_c.wf(),
        holds(*old(composer), a),
        holds(*old(composer), b),
        holds(*old(composer), q_4_d.1),
    ensures
        o.value() == big_mul_value(
            q_m.value(),
            a.value(),
            b.value(),
            q_4_d.0.value(),
            q_4_d.1.value(),
            q_c.value(),
        ),
        appended(
            *old(composer),
            *final(composer),
            o,
            output_gate(
                q_m.value(),
                0,
                0,
                q_4_d.0.value(),
                q_c.value(),
                a.index(),
                b.index(),
                o.index(),
                q_4_d.1.index(),
            ),
        ),
        holds(*final(composer), o),
        extends(*old(composer), *final(composer)),
        grows_by(*old(composer), *final(composer), seq![o.value()]),
{
    let (q_4, d) = q_4_d;
    let witness = gate_mul(composer, &q_m, a.witness, b.witness, &q_4, d.witness, &q_c);
    let scaled = q_m.mul(&a.scalar);
    let product = scaled.mul(&b.scalar);
    let fourth = q_4.mul(&d.scalar);
    let sum = product.add(&fourth);
    let scalar = sum.add(&q_c);
    proof {
        let m = (q_m.value() * a.value()) as int;
        let f = (q_4.value() * d.value()) as int;
        lemma_field_mul_congruent(q_m.value(), a.value(), q_m.value() as int, a.value() as int);
        lemma_field_mul_congruent(scaled.value(), b.value(), m, b.value() as int);
        lemma_field_mul_congruent(q_4.value(), d.value(), q_4.value() as int, d.value() as int);
        lemma_field_add_congruent(product.value(), fourth.value(), m * b.value(), f);
        lemma_field_add_congruent(sum.value(), q_c.value(), m * b.value() + f, q_c.value() as int);
        lemma_congruent_value(scalar, m * b.value() + f + q_c.value());
        lemma_value_injective(scalar, composer_witnesses(*composer).last());
        lemma_grows_by_one(*old(composer), *composer, scalar);
        let w = composer_values(*composer);
        assert(w[a.index() as int] == a.value());
        assert(w[b.index() as int] == b.value());
        assert(w[d.index() as int] == d.value());
        assert(w[witness_index(witness) as int] == scalar.value());
        assert(0 * a.value() == 0 && 0 * b.value() == 0) by (nonlinear_arith);
        lemma_output_gate_holds(
            w,
            q_m.value(),
            0,
            0,
            q_4.value(),
            q_c.value(),
            a.index(),
            b.index(),
            witness_index(witness),
            d.index(),
        );
        lemma_extends_by_gate(
            *old(composer),
            *composer,
            output_gate(
                q_m.value(),
                0,
                0,
                q_4.value(),
                q_c.value(),
                a.index(),
                b.index(),
                witness_index(witness),
                d.index(),
            ),
        );
    }
    Variable { witness, scalar }
}

/// The variable of the witness of index zero, whose value is zero.
pub fn zero_variable(composer: &TurboComposer) -> (zero: Variable)
    ensures
        zero.index() == 0,
        zero.value() == 0,
        holds(*composer, zero),
{
    let witness = constant_zero(composer);
    Variable { witness, scalar: Scalar::zero() }
}

/// Adds a gate `o = q_m·a·b + q_c` to the circuit and gives its output. Its
/// fourth wire is the witness of index zero.
pub fn mul(composer: &mut TurboComposer, q_m: Scalar, a: Variable, b: Variable, q_c: Scalar) -> (o:
    Variable)
    requires
        q_m.wf(),
        q_c.wf(),
        holds(*old(composer), a),
        holds(*old(composer), b),
    ensures
        o.value() == big_mul_value(q_m.value(), a.value(), b.value(), 0, 0, q_c.value()),
        appended(
            *old(composer),
            *final(composer),
            o,
            output_gate(q_m.value(), 0, 0, 0, q_c.value(), a.index(), b.index(), o.index(), 0),
        ),
        holds(*final(composer), o),
        extends(*old(composer), *final(composer)),
        grows_by(*old(composer), *final(composer), seq![o.value()]),
{
    let zero = zero_variable(composer);
    big_mul(composer, q_m, a, b, (Scalar::zero(), zero), q_c)
}

/// A gate that ties two wires to the same value.
pub open spec fn equality_gate(a: nat, b: nat) -> Gate {
    Gate::Arithmetic { q_m: 0, q_l: 1, q_r: field_neg(1), q_o: 0, q_4: 0, q_c: 0, a, b, o: 0, d: 0 }
}

/// Adds a gate to the circuit that ties two variables to the same value. The
/// gate holds where they have the same value.
pub fn assert_equal(composer: &mut TurboComposer, a: Variable, b: Variable)
    requires
        holds(*old(composer), a),
        holds(*old(composer), b),
    ensures
        composer_witnesses(*final(composer)) == composer_witnesses(*old(composer)),
        composer_gates(*final(composer)) == composer_gates(*old(composer)).push(
            equality_gate(a.index(), b.index()),
        ),
        a.value() == b.value() ==> extends(*old(composer), *final(composer)),
        grows_by(*old(composer), *final(composer), Seq::empty()),
{
    assert_equal_witnesses(composer, a.witness, b.witness);
    proof {
        lemma_grows_by_nothing(*old(composer), *composer);
        if a.value() == b.value() {
            let w = composer_values(*composer);
            assert(w[a.index() as int] == a.value());
            assert(w[b.index() as int] == b.value());
            lemma_equality_gate_holds(w, a.index(), b.index());
            lemma_extends_by_gate(*old(composer), *composer, equality_gate(a.index(), b.index()));
        }
    }
}

/// Adds a lookup gate on four variables to the circuit.
pub fn plookup_gate(
    composer: &mut TurboComposer,
    a: Variable,
    b: Variable,
    c: Variable,
    d: Variable,
) -> (output: Variable)
    requires
        holds(*old(composer), a),
        holds(*old(composer), b),
        holds(*old(composer), c),
        holds(*old(composer), d),
    ensures
        output == c,
        composer_witnesses(*final(composer)) == composer_witnesses(*old(composer)),
        composer_gates(*final(composer)) == composer_gates(*old(composer)).push(
            lookup_gate(a.index(), b.index(), c.index(), d.index()),
        ),
        extends(*old(composer), *final(composer)),
        grows_by(*old(composer), *final(composer), Seq::empty()),
{
    let witness = append_plonkup_gate(composer, a.witness, b.witness, c.witness, d.witness);
    proof {
        lemma_grows_by_nothing(*old(composer), *composer);
        let gate = lookup_gate(a.index(), b.index(), c.index(), d.index());
        assert(gate_holds(gate, composer_values(*composer))) by {
            reveal(gate_holds);
        }
        lemma_extends_by_gate(*old(composer), *composer, gate);
    }
    Variable { witness, scalar: c.scalar }
}

} // verus!
