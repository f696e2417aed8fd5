use dusk_bls12_381::BlsScalar;
use dusk_plonk::commitment_scheme::PublicParameters;
use dusk_plonk::constraint_system::TurboComposer;
use dusk_plonk::error::Error;
use dusk_plonk::plonkup::LookupTable;
use dusk_plonk::proof_system::{Prover, Verifier};
use rand::rngs::OsRng;
use zelbet::composer::add_input;
use zelbet::constants::CONSTANTS_BLS;
use zelbet::field::Scalar;
use zelbet::hashing::sponge::{sponge_zelbet_gadget, sponge_zelbet_out_of};
use zelbet::hashing::zelbet::bar::decompose;
use zelbet::hashing::zelbet::{brick, concrete, zelbet_out_of_circuit};

/// Proves the circuit that `gadget` builds and verifies the proof.
fn gadget_tester(gadget: fn(composer: &mut TurboComposer), n: usize) -> Result<(), Error> {
    // Common View
    let public_parameters = PublicParameters::setup(2 * n, &mut OsRng)?;
    // Provers View
    let (proof, public_inputs) = {
        let mut prover = Prover::new(b"demo");
        prover.key_transcript(b"key", b"additional seed information");
        gadget(prover.composer_mut());
        let (ck, _) =
            public_parameters.trim(2 * prover.composer_mut().gates().next_power_of_two())?;
        prover.preprocess(&ck)?;
        let public_inputs = vec![BlsScalar::zero(); prover.composer_mut().gates()];
        (prover.prove(&ck)?, public_inputs)
    };
    // Verifiers view
    let mut verifier = Verifier::new(b"demo");
    verifier.key_transcript(b"key", b"additional seed information");
    gadget(verifier.composer_mut());
    let (ck, vk) = public_parameters.trim(verifier.composer_mut().gates().next_power_of_two())?;
    verifier.preprocess(&ck)?;
    verifier.verify(&proof, &vk, &public_inputs)
}

fn round(k: usize) -> [Scalar; 3] {
    [
        Scalar(CONSTANTS_BLS[k][0]),
        Scalar(CONSTANTS_BLS[k][1]),
        Scalar(CONSTANTS_BLS[k][2]),
    ]
}

/// The rows of the table of the hash that hold flags only, and those that
/// the digits of the state of the third round look up.
fn hash_table_rows(state: [Scalar; 3]) -> LookupTable {
    let before_bar = concrete(
        brick(concrete(brick(concrete(state, round(0))), round(1))),
        round(2),
    );
    let flags = [BlsScalar::zero(), BlsScalar::one(), BlsScalar::from(2)];
    // the row of the digit 1 serves the lookups that fill the circuit
    let mut wanted = vec![(BlsScalar::one(), BlsScalar::zero())];
    for coordinate in before_bar {
        let digits = decompose(&coordinate);
        for k in 0..27 {
            let counter = if digits[k] < 659 { 0 } else { 27 - k as u64 };
            wanted.push((BlsScalar::from(digits[k]), BlsScalar::from(counter)));
        }
    }
    let rows = LookupTable::create_hash_table()
        .0
        .into_iter()
        .filter(|row| {
            row.iter().all(|entry| flags.contains(entry)) || wanted.contains(&(row[0], row[1]))
        })
        .collect();
    LookupTable(rows)
}

fn scalar(b: BlsScalar) -> Scalar {
    Scalar(b.0)
}

#[test]
fn test_sponge_gadget_agrees_with_sponge() {
    let mut composer = TurboComposer::default();
    let values = vec![
        Scalar::one(),
        scalar(-BlsScalar::one()),
        Scalar::from_u64(23848872923),
        Scalar::from_u64(298375439085),
        scalar(-BlsScalar::from(45)),
    ];
    let one = add_input(&mut composer, values[0]);
    let minus_one = add_input(&mut composer, values[1]);
    let in3 = add_input(&mut composer, values[2]);
    let in4 = add_input(&mut composer, values[3]);
    let in5 = add_input(&mut composer, values[4]);
    let result = sponge_zelbet_gadget(&mut composer, vec![one, minus_one, in3, in4, in5], 5);
    let out_result = sponge_zelbet_out_of(values.clone(), 5);
    assert_eq!(result.len(), 5);
    for k in 0..5 {
        assert_eq!(result[k].scalar, out_result[k]);
    }
    assert_ne!(result[4].scalar, result[0].scalar);

    let two = add_input(&mut composer, Scalar::from_u64(2));
    let result2 = sponge_zelbet_gadget(&mut composer, vec![two, minus_one, in3, in4], 4);
    let out_result2 = sponge_zelbet_out_of(
        vec![Scalar::from_u64(2), values[1], values[2], values[3]],
        4,
    );
    assert_eq!(result2.len(), 4);
    for k in 0..4 {
        assert_eq!(result2[k].scalar, out_result2[k]);
    }
}

#[test]
fn test_sponge_of_one_block_is_proved() {
    let res = gadget_tester(
        |composer| {
            let values = [Scalar::one(), scalar(-BlsScalar::one())];
            composer.append_plonkup_table(&hash_table_rows([values[0], values[1], Scalar::one()]));
            let one = add_input(composer, values[0]);
            let minus_one = add_input(composer, values[1]);
            let result = sponge_zelbet_gadget(composer, vec![one, minus_one], 2);
            let expected = sponge_zelbet_out_of(values.to_vec(), 2);
            for k in 0..2 {
                assert_eq!(result[k].scalar, expected[k]);
                composer.assert_equal_constant(result[k].witness, BlsScalar(expected[k].0), None);
            }

            // The lookup argument wants about as many lookups as the table has rows
            let zero = add_input(composer, Scalar::zero());
            let one_eight_seven = add_input(composer, Scalar::from_u64(187));
            (0..40).for_each(|_| {
                composer.append_plonkup_gate(
                    one.witness,
                    zero.witness,
                    one_eight_seven.witness,
                    one.witness,
                    None,
                );
                composer.append_plonkup_gate(
                    one.witness,
                    one.witness,
                    one.witness,
                    one.witness,
                    None,
                );
            });
        },
        520,
    );
    assert!(res.is_ok());
}

#[test]
fn test_sponge_gadget_appends_constants_once() {
    let mut composer = TurboComposer::default();
    let inputs: Vec<_> = (1..6)
        .map(|value| add_input(&mut composer, Scalar::from_u64(value)))
        .collect();
    let gates = composer.gates();
    let first = inputs[0].witness.index();
    let output = sponge_zelbet_gadget(&mut composer, inputs, 5);
    // 48 constants; three blocks, of which two are added to the state with 2 gates each;
    // three permutations to absorb and two more to squeeze, of 355 gates each
    assert_eq!(composer.gates(), gates + 48 + 4 + 5 * 355);
    // the first two outputs are the first two witnesses of the last pairs of the third
    // permutation; the constants stand right after the inputs
    assert!(output[0].witness.index() > first + 4 + 48);
    assert_eq!(output[1].witness.index(), output[0].witness.index() + 2);
    assert_eq!(output[3].witness.index(), output[2].witness.index() + 2);
    assert!(output[2].witness.index() > output[1].witness.index() + 2);
    assert!(output[4].witness.index() > output[3].witness.index() + 2);
}

#[test]
fn test_sponge_gadget_lengths() {
    for length_in in 1..4 {
        for length_out in 0..4 {
            let mut composer = TurboComposer::default();
            let values = vec![Scalar::from_u64(9); length_in];
            let inputs: Vec<_> = values
                .iter()
                .map(|value| add_input(&mut composer, *value))
                .collect();
            let output = sponge_zelbet_gadget(&mut composer, inputs, length_out);
            let expected = sponge_zelbet_out_of(values, length_out);
            assert_eq!(output.len(), length_out);
            for k in 0..length_out {
                assert_eq!(output[k].scalar, expected[k]);
            }
        }
    }
}

#[test]
fn test_sponge_zelbet() {
    let state = vec![Scalar::from_u64(1); 5];
    let mut length_out = 5;
    let output = sponge_zelbet_out_of(state, length_out);
    (0..length_out).for_each(|k| {
        println!("value {} is {:?}", k + 1, output[k].0);
    });

    length_out = 4;
    let output2 = sponge_zelbet_out_of(vec![Scalar::from_u64(2); 4], length_out);
    (0..length_out).for_each(|k| {
        println!("second value {} is {:?}", k + 1, output2[k].0);
    });
}

#[test]
fn test_sponge_of_five_ones() {
    let output = sponge_zelbet_out_of(vec![Scalar::from_u64(1); 5], 5);
    assert_eq!(
        output,
        vec![
            Scalar([
                1109517004973505944,
                266904992071118402,
                10130279736057489667,
                253134760377507595
            ]),
            Scalar([
                7783765112221983141,
                3502495325394479825,
                6217497374718729095,
                1380980458961231784
            ]),
            Scalar([
                16729630479808618643,
                3577264889009558412,
                13047125443549213372,
                7276751828461347877
            ]),
            Scalar([
                5075014359234527497,
                13811847062887874433,
                17036040781754246247,
                5136242347717771718
            ]),
            Scalar([
                5469246524273609748,
                6289544748540416551,
                8757322187569183001,
                6634637205469822377
            ]),
        ]
    );
}

#[test]
fn test_sponge_of_four_twos() {
    let output = sponge_zelbet_out_of(vec![Scalar::from_u64(2); 4], 4);
    assert_eq!(
        output,
        vec![
            Scalar([
                11579792014922627373,
                2934221241967416843,
                8345478288467627804,
                7623670637766636891
            ]),
            Scalar([
                4874119729451523912,
                8725796636719379660,
                7985091090312449276,
                8228914025318238834
            ]),
            Scalar([
                14622228267955924779,
                9615659355454524416,
                2250804130334070584,
                6587213602798012345
            ]),
            Scalar([
                18368122655394568764,
                410839651173137500,
                18398795598074206863,
                2720386774260300492
            ]),
        ]
    );
}

#[test]
fn test_sponge_gives_the_length_asked_for() {
    for length_in in 1..5 {
        let input = vec![Scalar::from_u64(3); length_in];
        for length_out in 0..6 {
            assert_eq!(sponge_zelbet_out_of(input.clone(), length_out).len(), length_out);
        }
    }
}

#[test]
fn test_sponge_with_no_output() {
    assert_eq!(sponge_zelbet_out_of(vec![Scalar::from_u64(7)], 0), vec![]);
}

#[test]
fn test_sponge_is_a_function_of_its_input() {
    let input = vec![
        Scalar::from_u64(11),
        scalar(-BlsScalar::from(12)),
        Scalar::from_u64(13),
    ];
    assert_eq!(
        sponge_zelbet_out_of(input.clone(), 7),
        sponge_zelbet_out_of(input, 7)
    );
}

#[test]
fn test_sponge_pads_odd_input_with_one() {
    let odd = vec![Scalar::from_u64(7)];
    let even = vec![Scalar::from_u64(7), Scalar::one()];
    assert_eq!(sponge_zelbet_out_of(odd, 3), sponge_zelbet_out_of(even, 3));
}

#[test]
fn test_sponge_order_of_outputs() {
    let input = vec![Scalar::from_u64(7), Scalar::from_u64(8)];
    let absorbed = zelbet_out_of_circuit([input[0], input[1], Scalar::one()]);
    let again = zelbet_out_of_circuit(absorbed);
    let output = sponge_zelbet_out_of(input, 3);
    assert_eq!(output, vec![absorbed[0], absorbed[1], again[0]]);
    assert_eq!(
        output[2],
        Scalar([
            4388598996970019634,
            14511114582868636578,
            8431148824998181,
            1113905263811493265
        ])
    );
}

#[test]
fn test_sponge_absorbs_later_pairs_by_addition() {
    let input = vec![
        Scalar::from_u64(1),
        Scalar::from_u64(2),
        Scalar::from_u64(3),
        Scalar::from_u64(4),
    ];
    let first = zelbet_out_of_circuit([input[0], input[1], Scalar::one()]);
    let second = zelbet_out_of_circuit([first[0].add(&input[2]), first[1].add(&input[3]), first[2]]);
    assert_eq!(sponge_zelbet_out_of(input, 2), vec![second[0], second[1]]);
}

#[test]
fn test_sponge_single_output() {
    assert_eq!(
        sponge_zelbet_out_of(vec![Scalar::from_u64(7)], 1),
        vec![Scalar([
            4527511786538362635,
            2680735966533074788,
            3976275182419679597,
            2294677660180144
        ])]
    );
}
