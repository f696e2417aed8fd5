use dusk_bls12_381::BlsScalar;
use dusk_plonk::commitment_scheme::PublicParameters;
use dusk_plonk::constraint_system::TurboComposer;
use dusk_plonk::error::Error;
use dusk_plonk::plonkup::LookupTable;
use dusk_plonk::proof_system::{Prover, Verifier};
use rand::rngs::OsRng;
use zelbet::composer::{add_input, add_witness_to_circuit_description, Variable};
use zelbet::constants::{
    BLS_SCALAR_REAL, CONSTANTS_BLS, MONTGOMERY_FOUR, MONTGOMERY_THREE,
    S_I_DECOMPOSITION_MONTGOMERY,
};
use zelbet::field::Scalar;
use zelbet::hashing::gadgets::{
    bar_gadget, brick_gadget, concrete_gadget, decomposition_gadget, digit_flags,
    s_box_and_constraints, substitution_gadget,
};
use zelbet::hashing::zelbet::bar::{bar_scalar, decompose, small_s_box};
use zelbet::hashing::zelbet::{brick, concrete};

fn scalar(b: BlsScalar) -> Scalar {
    Scalar(b.0)
}

/// Proves the circuit that `gadget` builds and verifies the proof.
fn gadget_tester(gadget: fn(composer: &mut TurboComposer), n: usize) -> Result<(), Error> {
    // Common View
    let public_parameters = PublicParameters::setup(2 * n, &mut OsRng)?;
    // Provers View
    let (proof, public_inputs) = {
        let mut prover = Prover::new(b"demo");
        prover.key_transcript(b"key", b"additional seed information");
        gadget(prover.composer_mut());
        let (ck, _) =
            public_parameters.trim(2 * prover.composer_mut().gates().next_power_of_two())?;
        prover.preprocess(&ck)?;
        let public_inputs = vec![BlsScalar::zero(); prover.composer_mut().gates()];
        (prover.prove(&ck)?, public_inputs)
    };
    // Verifiers view
    let mut verifier = Verifier::new(b"demo");
    verifier.key_transcript(b"key", b"additional seed information");
    gadget(verifier.composer_mut());
    let (ck, vk) = public_parameters.trim(verifier.composer_mut().gates().next_power_of_two())?;
    verifier.preprocess(&ck)?;
    verifier.verify(&proof, &vk, &public_inputs)
}

/// The rows of the table of the hash that hold flags only, and those that
/// begin with one of `pairs`.
fn hash_table_rows(pairs: &[(u64, u64)]) -> LookupTable {
    let flags = [BlsScalar::zero(), BlsScalar::one(), BlsScalar::from(2)];
    let wanted: Vec<(BlsScalar, BlsScalar)> = pairs
        .iter()
        .map(|(first, second)| (BlsScalar::from(*first), BlsScalar::from(*second)))
        .collect();
    let rows = LookupTable::create_hash_table()
        .0
        .into_iter()
        .filter(|row| {
            row.iter().all(|entry| flags.contains(entry)) || wanted.contains(&(row[0], row[1]))
        })
        .collect();
    LookupTable(rows)
}

fn radices(composer: &mut TurboComposer, one: Variable) -> [Variable; 27] {
    let mut s_i_decomposition = [one; 27];
    (0..27).for_each(|k| {
        s_i_decomposition[k] = add_input(composer, Scalar(S_I_DECOMPOSITION_MONTGOMERY[k]));
    });
    s_i_decomposition
}

#[test]
fn test_bar_gadget() {
    let res = gadget_tester(
        |composer| {
            // the rows of the table for the digits of 1, and for those of -5 with
            // their counters
            let mut pairs = vec![(1, 0), (0, 0), (656, 0)];
            (1..27).for_each(|k| pairs.push((BLS_SCALAR_REAL[k], 27 - k as u64)));
            composer.append_plonkup_table(&hash_table_rows(&pairs));
            let zero = add_input(composer, Scalar::zero());
            let one = add_input(composer, Scalar::one());
            let two = add_input(composer, Scalar::from_u64(2));
            let s_i_decomposition = radices(composer, one);
            // Check bar function on input of 1
            let output = bar_gadget(composer, one, s_i_decomposition, zero, one, two);
            let expected = BlsScalar([
                2921300856332839541,
                8943181998193365483,
                12554333934768435622,
                1625679107374292725,
            ]);
            // Check that the output is what we expected (in Montgomery)
            composer.assert_equal_constant(output.witness, expected, None);
            assert_eq!(output.scalar, scalar(expected));

            // Check bar function on input of -5
            let minus_five = add_input(composer, scalar(-BlsScalar::from(5)));
            let output2 = bar_gadget(composer, minus_five, s_i_decomposition, zero, one, two);
            let expected2 = BlsScalar([
                18446742991377793276,
                7975156907413507843,
                7849958771744875838,
                2157424182152352530,
            ]);
            composer.assert_equal_constant(output2.witness, expected2, None);
            assert_eq!(output2.scalar, scalar(expected2));

            // Plookup is designed to not pass if the number of plookup
            // checks is much smaller than the size of the lookup table, so
            // these extra checks are to increase the number of plookup
            // gates
            let one_eight_seven = add_input(composer, Scalar::from_u64(187));
            let zero = add_input(composer, Scalar::from_u64(0));
            (0..60).for_each(|_| {
                composer.append_plonkup_gate(
                    one.witness,
                    zero.witness,
                    one_eight_seven.witness,
                    one.witness,
                    None,
                );
                composer.append_plonkup_gate(
                    one.witness,
                    one.witness,
                    one.witness,
                    one.witness,
                    None,
                );
            });
        },
        512,
    );
    assert!(res.is_ok());
}

#[test]
fn gadgets_test_bricks_gadget() {
    let res = gadget_tester(
        |composer| {
            let two = add_witness_to_circuit_description(composer, Scalar::from_u64(2));
            let three = add_witness_to_circuit_description(composer, Scalar::from_u64(3));
            let four = add_witness_to_circuit_description(composer, Scalar::from_u64(4));
            let output = brick_gadget(
                composer,
                &[two, three, four],
                two,
                Scalar(MONTGOMERY_THREE),
                Scalar(MONTGOMERY_FOUR),
            );

            let output_1 = brick([Scalar::from_u64(2), Scalar::from_u64(3), Scalar::from_u64(4)]);
            // Check in circuit result against out of circuit result
            for i in 0..3 {
                composer.assert_equal_constant(output[i].witness, BlsScalar(output_1[i].0), None);
                assert_eq!(output[i].scalar, output_1[i]);
            }

            // Check in circuit result against expected result
            let expected_result = [
                BlsScalar::from(32),
                BlsScalar::from(24),
                BlsScalar::from(88),
            ];
            for i in 0..3 {
                composer.assert_equal_constant(output[i].witness, expected_result[i], None);
                assert_eq!(output[i].scalar, scalar(expected_result[i]));
            }
        },
        32,
    );
    assert!(res.is_ok());
}

#[test]
fn gadgets_test_concrete_gadget() {
    let res = gadget_tester(
        |composer| {
            let one = add_witness_to_circuit_description(composer, Scalar::one());
            let two = add_witness_to_circuit_description(composer, Scalar::from_u64(2));
            let three = add_witness_to_circuit_description(composer, Scalar::from_u64(3));
            // the constants of round 1 stand on wires of their own
            let round = [
                Scalar(CONSTANTS_BLS[1][0]),
                Scalar(CONSTANTS_BLS[1][1]),
                Scalar(CONSTANTS_BLS[1][2]),
            ];
            let constants = [
                add_witness_to_circuit_description(composer, round[0]),
                add_witness_to_circuit_description(composer, round[1]),
                add_witness_to_circuit_description(composer, round[2]),
            ];
            let output = concrete_gadget(composer, &[one, two, three], &constants);
            let output_1 = concrete(
                [Scalar::one(), Scalar::from_u64(2), Scalar::from_u64(3)],
                round,
            );

            // Check in circuit result against out of circuit result
            for i in 0..3 {
                composer.assert_equal_constant(output[i].witness, BlsScalar(output_1[i].0), None);
                assert_eq!(output[i].scalar, output_1[i]);
            }

            // Check in circuit result against expected result
            let output = concrete_gadget(composer, &[one, two, three], &[two; 3]);
            let expected_result = [
                BlsScalar::from(9),
                BlsScalar::from(10),
                BlsScalar::from(11),
            ];
            for i in 0..3 {
                composer.assert_equal_constant(output[i].witness, expected_result[i], None);
                assert_eq!(output[i].scalar, scalar(expected_result[i]));
            }
        },
        32,
    );
    assert!(res.is_ok());
}

#[test]
fn test_s_box_and_constraints() {
    let res = gadget_tester(
        |composer| {
            composer
                .append_plonkup_table(&hash_table_rows(&[(700, 2), (1, 0), (659, 2), (659, 1)]));
            let seven_hundred = add_input(composer, Scalar::from_u64(700));
            let zero = add_input(composer, Scalar::zero());
            let one = add_input(composer, Scalar::one());
            let two = add_input(composer, Scalar::from_u64(2));
            let prime = add_input(composer, Scalar::from_u64(659));
            let counter: u64 = 1;
            let counter2: u64 = 2;
            let conditional = true;
            let output_700 = s_box_and_constraints(
                composer,
                seven_hundred,
                700,
                counter2,
                conditional,
                zero,
                one,
                two,
            );
            let output_one =
                s_box_and_constraints(composer, one, 1, counter, conditional, zero, one, two);
            let output_prime =
                s_box_and_constraints(composer, prime, 659, counter2, conditional, zero, one, two);
            let output_prime_false =
                s_box_and_constraints(composer, prime, 659, counter, false, zero, one, two);

            // Check that the s-box works as expected
            composer.assert_equal_constant(
                output_700.0.witness,
                BlsScalar::from_raw([700, 0, 0, 0]),
                None,
            );
            composer.assert_equal_constant(
                output_one.0.witness,
                BlsScalar::from_raw([187, 0, 0, 0]),
                None,
            );
            composer.assert_equal_constant(
                output_prime.0.witness,
                BlsScalar::from_raw([659, 0, 0, 0]),
                None,
            );
            assert_eq!(output_700.0.scalar, Scalar::from_raw([700, 0, 0, 0]));
            assert_eq!(output_one.0.scalar, Scalar::from_raw([187, 0, 0, 0]));
            assert_eq!(output_prime.0.scalar, Scalar::from_raw([659, 0, 0, 0]));

            (0..100).for_each(|_| {
                composer.append_plonkup_gate(
                    prime.witness,
                    one.witness,
                    prime.witness,
                    one.witness,
                    None,
                );
            });

            // Check that the c_i are output as expected
            composer.assert_equal_constant(output_700.1.witness, BlsScalar::from(2), None);
            composer.assert_equal_constant(output_one.1.witness, BlsScalar::one(), None);
            composer.assert_equal_constant(output_prime.1.witness, BlsScalar::one(), None);
            composer.assert_equal_constant(output_prime_false.1.witness, BlsScalar::one(), None);
            assert_eq!(output_700.1.scalar, Scalar::from_u64(2));
            assert_eq!(output_one.1.scalar, Scalar::one());
            assert_eq!(output_prime.1.scalar, Scalar::one());
            assert_eq!(output_prime_false.1.scalar, Scalar::one());

            // Check that the counter is output correctly
            assert!(output_700.2);
            assert!(output_one.2);
            assert!(output_prime.2);
            assert!(!output_prime_false.2);

            // Check that z_i is output correctly
            composer.assert_equal_constant(output_700.3.witness, BlsScalar::one(), None);
            composer.assert_equal_constant(output_one.3.witness, BlsScalar::zero(), None);
            composer.assert_equal_constant(output_prime.3.witness, BlsScalar::one(), None);
            composer.assert_equal_constant(output_prime_false.3.witness, BlsScalar::one(), None);
            assert_eq!(output_700.3.scalar, Scalar::one());
            assert_eq!(output_one.3.scalar, Scalar::zero());
            assert_eq!(output_prime.3.scalar, Scalar::one());
            assert_eq!(output_prime_false.3.scalar, Scalar::one());
        },
        256,
    );
    assert!(res.is_ok());
}

#[test]
fn test_s_box_and_constraints_fails() {
    let res = gadget_tester(
        |composer| {
            composer.append_plonkup_table(&hash_table_rows(&[(100, 0), (659, 1)]));
            let one_hundred = add_input(composer, Scalar::from_u64(100));
            let zero = add_input(composer, Scalar::zero());
            let one = add_input(composer, Scalar::one());
            let two = add_input(composer, Scalar::from_u64(2));
            let counter: u64 = 1;
            let conditional = true;
            let output = s_box_and_constraints(
                composer,
                one_hundred,
                100,
                counter,
                conditional,
                zero,
                one,
                two,
            );
            composer.assert_equal_constant(
                output.0.witness,
                BlsScalar::from_raw([200, 0, 0, 0]),
                None,
            );
            composer.assert_equal_constant(
                output.0.witness,
                BlsScalar::from_raw([200, 0, 0, 0]),
                None,
            );
            composer.assert_equal_constant(
                output.0.witness,
                BlsScalar::from_raw([200, 0, 0, 0]),
                None,
            );

            // these lookups stand in the table, so that the proof fails on the
            // output alone
            let prime = add_input(composer, Scalar::from_u64(659));
            (0..100).for_each(|_| {
                composer.append_plonkup_gate(
                    prime.witness,
                    one.witness,
                    prime.witness,
                    one.witness,
                    None,
                );
            });
        },
        256,
    );
    assert!(res.is_err());
}

#[test]
fn test_bricks_gadget_with_another_output_is_not_proved() {
    let res = gadget_tester(
        |composer| {
            let two = add_witness_to_circuit_description(composer, Scalar::from_u64(2));
            let three = add_witness_to_circuit_description(composer, Scalar::from_u64(3));
            let four = add_witness_to_circuit_description(composer, Scalar::from_u64(4));
            let output = brick_gadget(
                composer,
                &[two, three, four],
                two,
                Scalar(MONTGOMERY_THREE),
                Scalar(MONTGOMERY_FOUR),
            );
            composer.assert_equal_constant(output[1].witness, BlsScalar::from(25), None);
        },
        32,
    );
    assert!(res.is_err());
}

#[test]
fn test_s_box_of_one_hundred() {
    let mut composer = TurboComposer::default();
    let one_hundred = add_input(&mut composer, Scalar::from_u64(100));
    let zero = add_input(&mut composer, Scalar::zero());
    let one = add_input(&mut composer, Scalar::one());
    let two = add_input(&mut composer, Scalar::from_u64(2));
    let output = s_box_and_constraints(&mut composer, one_hundred, 100, 1, true, zero, one, two);
    assert_ne!(output.0.scalar, Scalar::from_raw([200, 0, 0, 0]));
    assert_eq!(output.0.scalar, Scalar::from_u64(small_s_box(100)));
}

#[test]
fn test_flags_for_every_counter() {
    // a counter that counts none of the 27 digits has no digit of the field order
    // against it
    for counter in [0, 28, 100, u64::MAX] {
        assert_eq!(digit_flags(659, counter, false), (1, false, 1));
        assert_eq!(digit_flags(702, counter, false), (1, false, 1));
        assert_eq!(digit_flags(u64::MAX, counter, true), (1, true, 1));
        assert_eq!(digit_flags(658, counter, false), (1, true, 0));
    }
    let mut composer = TurboComposer::default();
    let zero = add_input(&mut composer, Scalar::zero());
    let one = add_input(&mut composer, Scalar::one());
    let two = add_input(&mut composer, Scalar::from_u64(2));
    let input = add_input(&mut composer, Scalar::from_u64(700));
    let gates = composer.gates();
    for counter in [0, 28, u64::MAX] {
        let output = s_box_and_constraints(&mut composer, input, 700, counter, false, zero, one, two);
        assert_eq!(output.0.witness.index(), input.witness.index());
        assert_eq!(output.1.witness.index(), one.witness.index());
        assert!(!output.2);
        assert_eq!(output.3.witness.index(), one.witness.index());
    }
    assert_eq!(composer.gates(), gates + 3);
}

#[test]
fn test_flags_at_the_digits_of_the_field_order() {
    // most significant digit: 678 stands against it
    assert_eq!(digit_flags(678, 1, false), (0, false, 1));
    assert_eq!(digit_flags(678, 1, true), (2, true, 1));
    assert_eq!(digit_flags(679, 1, false), (2, true, 1));
    assert_eq!(digit_flags(677, 1, false), (1, false, 1));
    assert_eq!(digit_flags(677, 1, true), (1, true, 1));
    assert_eq!(digit_flags(658, 1, false), (1, true, 0));
    // least significant digit: 660 stands against it
    assert_eq!(BLS_SCALAR_REAL[0], 660);
    assert_eq!(digit_flags(660, 27, false), (0, false, 1));
    assert_eq!(digit_flags(661, 27, false), (2, true, 1));
    assert_eq!(digit_flags(659, 27, false), (1, false, 1));
    assert_eq!(digit_flags(0, 27, false), (1, true, 0));
    // no digit of the field order is looked up below the threshold
    assert_eq!(digit_flags(5, 0, false), (1, true, 0));
    assert_eq!(digit_flags(5, 99, true), (1, true, 0));
}

#[test]
fn test_gate_and_witness_counts() {
    let mut composer = TurboComposer::default();
    let zero = add_input(&mut composer, Scalar::zero());
    let one = add_input(&mut composer, Scalar::one());
    let two = add_input(&mut composer, Scalar::from_u64(2));
    assert_eq!((zero.witness.index(), one.witness.index(), two.witness.index()), (5, 6, 7));
    let gates = composer.gates();

    let output = brick_gadget(
        &mut composer,
        &[two, one, two],
        two,
        Scalar(MONTGOMERY_THREE),
        Scalar(MONTGOMERY_FOUR),
    );
    assert_eq!(composer.gates(), gates + 7);
    assert_eq!(
        [output[0].witness.index(), output[1].witness.index(), output[2].witness.index()],
        [10, 12, 14]
    );

    let output = concrete_gadget(&mut composer, &output, &[one, one, one]);
    assert_eq!(composer.gates(), gates + 13);
    assert_eq!(
        [output[0].witness.index(), output[1].witness.index(), output[2].witness.index()],
        [16, 18, 20]
    );

    let below = s_box_and_constraints(&mut composer, one, 1, 3, false, zero, one, two);
    assert_eq!(composer.gates(), gates + 14);
    assert_eq!(below.0.witness.index(), 21);
    let next = add_input(&mut composer, Scalar::from_u64(700));
    assert_eq!(next.witness.index(), 23);
    let above = s_box_and_constraints(&mut composer, next, 700, 3, false, zero, one, two);
    assert_eq!(composer.gates(), gates + 15);
    assert_eq!(above.0.witness.index(), 23);
    assert_eq!(add_input(&mut composer, Scalar::zero()).witness.index(), 25);
}

#[test]
fn test_decomposition_gadget() {
    let mut composer = TurboComposer::default();
    let one = add_input(&mut composer, Scalar::one());
    let s_i_decomposition = radices(&mut composer, one);
    let value = scalar(-BlsScalar::from(5));
    let input = add_input(&mut composer, value);
    let gates = composer.gates();
    let (variables, digits) = decomposition_gadget(&mut composer, input, &s_i_decomposition);
    assert_eq!(digits, decompose(&value));
    assert_eq!(digits[0], 656);
    for k in 0..27 {
        assert_eq!(variables[k].scalar, Scalar::from_u64(digits[k]));
        assert_eq!(variables[k].witness.index(), input.witness.index() + 1 + k);
    }
    assert_eq!(composer.gates(), gates + 27);
}

#[test]
fn test_substitution_gadget() {
    let mut composer = TurboComposer::default();
    let zero = add_input(&mut composer, Scalar::zero());
    let one = add_input(&mut composer, Scalar::one());
    let two = add_input(&mut composer, Scalar::from_u64(2));
    let mut digits = BLS_SCALAR_REAL;
    digits[0] = 656;
    digits[1] = 3;
    let mut variables = [zero; 27];
    for k in 0..27 {
        variables[k] = add_input(&mut composer, Scalar::from_u64(digits[k]));
    }
    let gates = composer.gates();
    let (substitutes, c_i, z_i) =
        substitution_gadget(&mut composer, variables, digits, zero, one, two);
    assert_eq!(composer.gates(), gates + 27);
    for k in 0..27 {
        assert_eq!(substitutes[k].scalar, Scalar::from_u64(small_s_box(digits[k])));
    }
    // digits 26 to 2 are those of the field order: nothing tells the number apart
    for k in 2..27 {
        assert_eq!(c_i[k].scalar, Scalar::zero());
        assert_eq!(z_i[k].scalar, Scalar::one());
        assert_eq!(substitutes[k].witness.index(), variables[k].witness.index());
    }
    // digit 1 lies below the threshold
    assert_eq!(c_i[1].scalar, Scalar::one());
    assert_eq!(z_i[1].scalar, Scalar::zero());
    assert_ne!(substitutes[1].witness.index(), variables[1].witness.index());
    // digit 0 lies below the threshold too
    assert_eq!(c_i[0].scalar, Scalar::one());
    assert_eq!(z_i[0].scalar, Scalar::zero());
}

#[test]
fn test_bar_gadget_agrees_with_bar() {
    let samples = [
        BlsScalar::zero(),
        BlsScalar::one(),
        -BlsScalar::one(),
        -BlsScalar::from(2),
        BlsScalar::from(659),
        BlsScalar::from(658),
        BlsScalar::from(23848872923).square(),
    ];
    let mut composer = TurboComposer::default();
    let zero = add_input(&mut composer, Scalar::zero());
    let one = add_input(&mut composer, Scalar::one());
    let two = add_input(&mut composer, Scalar::from_u64(2));
    let s_i_decomposition = radices(&mut composer, one);
    for sample in samples {
        let value = scalar(sample);
        let input = add_input(&mut composer, value);
        let output = bar_gadget(&mut composer, input, s_i_decomposition, zero, one, two);
        assert_eq!(output.scalar, bar_scalar(&value));
    }
}
