use dusk_bls12_381::BlsScalar;
use dusk_plonk::commitment_scheme::PublicParameters;
use dusk_plonk::constraint_system::TurboComposer;
use dusk_plonk::error::Error;
use dusk_plonk::plonkup::LookupTable;
use dusk_plonk::proof_system::{Prover, Verifier};
use rand::rngs::OsRng;
use zelbet::composer::{add_input, add_witness_to_circuit_description, Variable};
use zelbet::constants::{CONSTANTS_BLS, S_I_DECOMPOSITION_MONTGOMERY};
use zelbet::field::Scalar;
use zelbet::hashing::zelbet::bar::decompose;
use zelbet::hashing::zelbet::{brick, concrete, zelbet_gadget, zelbet_out_of_circuit};

/// Proves the circuit that `gadget` builds and verifies the proof.
fn gadget_tester(gadget: fn(composer: &mut TurboComposer), n: usize) -> Result<(), Error> {
    // Common View
    let public_parameters = PublicParameters::setup(2 * n, &mut OsRng)?;
    // Provers View
    let (proof, public_inputs) = {
        let mut prover = Prover::new(b"demo");
        prover.key_transcript(b"key", b"additional seed information");
        gadget(prover.composer_mut());
        let (ck, _) =
            public_parameters.trim(2 * prover.composer_mut().gates().next_power_of_two())?;
        prover.preprocess(&ck)?;
        let public_inputs = vec![BlsScalar::zero(); prover.composer_mut().gates()];
        (prover.prove(&ck)?, public_inputs)
    };
    // Verifiers view
    let mut verifier = Verifier::new(b"demo");
    verifier.key_transcript(b"key", b"additional seed information");
    gadget(verifier.composer_mut());
    let (ck, vk) = public_parameters.trim(verifier.composer_mut().gates().next_power_of_two())?;
    verifier.preprocess(&ck)?;
    verifier.verify(&proof, &vk, &public_inputs)
}

fn round(k: usize) -> [Scalar; 3] {
    [
        Scalar(CONSTANTS_BLS[k][0]),
        Scalar(CONSTANTS_BLS[k][1]),
        Scalar(CONSTANTS_BLS[k][2]),
    ]
}

/// The rows of the table of the hash that hold flags only, and those that
/// the digits of the state of the third round look up.
fn hash_table_rows(state: [Scalar; 3]) -> LookupTable {
    let before_bar = concrete(
        brick(concrete(brick(concrete(state, round(0))), round(1))),
        round(2),
    );
    let flags = [BlsScalar::zero(), BlsScalar::one(), BlsScalar::from(2)];
    // the row of the digit 1 serves the lookups that fill the circuit
    let mut wanted = vec![(BlsScalar::one(), BlsScalar::zero())];
    for coordinate in before_bar {
        let digits = decompose(&coordinate);
        for k in 0..27 {
            let counter = if digits[k] < 659 { 0 } else { 27 - k as u64 };
            wanted.push((BlsScalar::from(digits[k]), BlsScalar::from(counter)));
        }
    }
    let rows = LookupTable::create_hash_table()
        .0
        .into_iter()
        .filter(|row| {
            row.iter().all(|entry| flags.contains(entry)) || wanted.contains(&(row[0], row[1]))
        })
        .collect();
    LookupTable(rows)
}

fn scalar(b: BlsScalar) -> Scalar {
    Scalar(b.0)
}

fn permutation_in_circuit(composer: &mut TurboComposer, state: [Scalar; 3]) -> [Variable; 3] {
    let zero = add_input(composer, Scalar::zero());
    let one = add_input(composer, Scalar::one());
    let two = add_input(composer, Scalar::from_u64(2));
    let mut s_i_decomposition = [one; 27];
    (0..27).for_each(|k| {
        s_i_decomposition[k] =
            add_witness_to_circuit_description(composer, Scalar(S_I_DECOMPOSITION_MONTGOMERY[k]));
    });
    let mut constants_for_rounds = [one; 18];
    (0..6).for_each(|k| {
        (0..3).for_each(|j| {
            constants_for_rounds[3 * k + j] = add_input(composer, Scalar(CONSTANTS_BLS[k][j]));
        })
    });
    let inputs = [
        add_input(composer, state[0]),
        add_input(composer, state[1]),
        add_input(composer, state[2]),
    ];
    zelbet_gadget(
        composer,
        &inputs,
        s_i_decomposition,
        constants_for_rounds,
        zero,
        one,
        two,
    )
}

#[test]
fn test_zelbet_gadget_circuit() {
    let res = gadget_tester(
        |composer| {
            let hash_table = hash_table_rows([Scalar::one(); 3]);
            composer.append_plonkup_table(&hash_table);
            let zero = add_input(composer, Scalar::zero());
            let one = add_input(composer, Scalar::one());
            let two = add_input(composer, Scalar::from_u64(2));
            let mut s_i_decomposition = [one; 27];
            (0..27).for_each(|k| {
                s_i_decomposition[k] = add_witness_to_circuit_description(
                    composer,
                    Scalar(S_I_DECOMPOSITION_MONTGOMERY[k]),
                );
            });
            let mut constants_for_rounds = [one; 18];
            (0..6).for_each(|k| {
                (0..3).for_each(|j| {
                    constants_for_rounds[3 * k + j] =
                        add_input(composer, Scalar(CONSTANTS_BLS[k][j]));
                })
            });
            let result = zelbet_gadget(
                composer,
                &[one; 3],
                s_i_decomposition,
                constants_for_rounds,
                zero,
                one,
                two,
            );
            let expected = zelbet_out_of_circuit([Scalar::one(); 3]);
            for i in 0..3 {
                assert_eq!(result[i].scalar, expected[i]);
                composer.assert_equal_constant(result[i].witness, BlsScalar(expected[i].0), None);
            }

            let one_eight_seven = add_input(composer, Scalar::from_u64(187));
            let zero = add_input(composer, Scalar::from_u64(0));

            // Plookup is designed to not pass if the number of plookup
            // checks is much smaller than the size of the lookup table, so
            // these extra checks are to increase the number of plookup
            // gates
            (0..50).for_each(|_| {
                composer.append_plonkup_gate(
                    one.witness,
                    zero.witness,
                    one_eight_seven.witness,
                    one.witness,
                    None,
                );
                composer.append_plonkup_gate(
                    one.witness,
                    one.witness,
                    one.witness,
                    one.witness,
                    None,
                );
            });
        },
        520,
    );
    assert!(res.is_ok());
}

#[test]
fn test_zelbet_gadget_on_ones() {
    let mut composer = TurboComposer::default();
    let result = permutation_in_circuit(&mut composer, [Scalar::one(); 3]);
    let expected = zelbet_out_of_circuit([Scalar::one(); 3]);
    for i in 0..3 {
        assert_eq!(result[i].scalar, expected[i]);
    }
}

#[test]
fn test_zelbet_gadget_on_large_elements() {
    let state = [
        scalar(-BlsScalar::one()),
        scalar(-BlsScalar::from(5)),
        scalar(BlsScalar::from(298375439085).square()),
    ];
    let mut composer = TurboComposer::default();
    let result = permutation_in_circuit(&mut composer, state);
    let expected = zelbet_out_of_circuit(state);
    for i in 0..3 {
        assert_eq!(result[i].scalar, expected[i]);
    }
}

#[test]
fn test_zelbet_gadget_appends_the_gates_of_its_layers() {
    let mut composer = TurboComposer::default();
    let zero = add_input(&mut composer, Scalar::zero());
    let one = add_input(&mut composer, Scalar::one());
    let two = add_input(&mut composer, Scalar::from_u64(2));
    let mut s_i_decomposition = [one; 27];
    (0..27).for_each(|k| {
        s_i_decomposition[k] = add_input(&mut composer, Scalar(S_I_DECOMPOSITION_MONTGOMERY[k]));
    });
    let mut constants_for_rounds = [one; 18];
    (0..18).for_each(|j| {
        constants_for_rounds[j] = add_input(&mut composer, Scalar(CONSTANTS_BLS[j / 3][j % 3]));
    });
    let gates = composer.gates();
    let result = zelbet_gadget(
        &mut composer,
        &[one; 3],
        s_i_decomposition,
        constants_for_rounds,
        zero,
        one,
        two,
    );
    // six concrete layers of 6 gates, four brick layers of 7, three bar functions of 97
    assert_eq!(composer.gates(), gates + 36 + 28 + 3 * 97);
    // the last concrete layer gives the witnesses before last of its three pairs
    let next = add_input(&mut composer, Scalar::zero()).witness.index();
    assert_eq!(
        [result[0].witness.index(), result[1].witness.index(), result[2].witness.index()],
        [next - 5, next - 3, next - 1]
    );
}

#[test]
fn test_permutation_of_ones() {
    let output = zelbet_out_of_circuit([Scalar::one(); 3]);
    assert_eq!(
        output,
        [
            Scalar([
                7094210979501847472,
                12332850280713853447,
                9462587388044722543,
                3086408069033699668
            ]),
            Scalar([
                11478214242892382010,
                12973387588596929998,
                1299213321571153107,
                5258507511046587997
            ]),
            Scalar([
                4703530274869228689,
                15567205799631227061,
                3860837663710459854,
                7931246370148965070
            ]),
        ]
    );
}

#[test]
fn test_permutation_tells_inputs_apart() {
    let first = zelbet_out_of_circuit([Scalar::one(), Scalar::one(), Scalar::zero()]);
    let second = zelbet_out_of_circuit([Scalar::one(), Scalar::zero(), Scalar::one()]);
    assert_ne!(first, second);
    assert_eq!(
        first,
        zelbet_out_of_circuit([Scalar::one(), Scalar::one(), Scalar::zero()])
    );
}
