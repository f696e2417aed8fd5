use dusk_bls12_381::BlsScalar;
use zelbet::constants::{CONSTANTS_BLS, DECOMPOSITION_S_I, INVERSES_S_I};
use zelbet::field::Scalar;
use zelbet::hashing::zelbet::concrete::{concrete_with_matrix, mixing_matrix};
use zelbet::hashing::zelbet::{brick, zelbet_hash, zelbet_out_of_circuit};

fn scalar(b: BlsScalar) -> Scalar {
    Scalar(b.0)
}

fn bls(s: Scalar) -> BlsScalar {
    BlsScalar(s.0)
}

fn rounds() -> [[Scalar; 3]; 6] {
    let mut constants = [[Scalar::zero(); 3]; 6];
    for k in 0..6 {
        for j in 0..3 {
            constants[k][j] = Scalar(CONSTANTS_BLS[k][j]);
        }
    }
    constants
}

#[test]
fn test_inverses_correct() {
    for k in 0..27 {
        let product = Scalar([DECOMPOSITION_S_I[k], 0, 0, 0]).mul(&Scalar(INVERSES_S_I[k]));
        assert_eq!(Scalar::from_raw(product.0), Scalar::one());
    }
}

#[test]
fn modular_hashing_test_bricks() {
    let input = [Scalar::from_u64(4), Scalar::from_u64(3), Scalar::from_u64(2)];
    let output = brick(input);

    let two = BlsScalar([
        17179869180,
        12756850513266774020,
        3681868479150465002,
        3479420709561305823,
    ]);
    let three = BlsScalar([
        25769803770,
        688531696190609414,
        14746174755580473312,
        5219131064341958734,
    ]);
    let four = BlsScalar([
        34359738360,
        7066956952823996424,
        7363736958300930005,
        6958841419122611646,
    ]);
    let quadratic_x = BlsScalar::from(4) * BlsScalar::from(4);
    let quadratic_y = BlsScalar::from(3) * BlsScalar::from(3);
    let element_1 = quadratic_x * quadratic_x * BlsScalar::from(4);
    let element_2 = BlsScalar::from(3) * (quadratic_x + BlsScalar::from(4) + two);
    let element_3 = BlsScalar::from(2) * (quadratic_y + (three * BlsScalar::from(3)) + four);
    let calculated_output = [scalar(element_1), scalar(element_2), scalar(element_3)];
    assert_eq!(output[0], calculated_output[0]);
    assert_eq!(output[1], calculated_output[1]);
    assert_eq!(output[2], calculated_output[2]);
}

#[test]
fn modular_hashing_test_concrete() {
    let state = [Scalar::from_u64(4), Scalar::from_u64(3), Scalar::from_u64(2)];
    let matrix = mixing_matrix();
    let constants = rounds();
    let output = concrete_with_matrix(state, matrix, constants[0]);

    let copy_matrix = [
        [BlsScalar::from(2), BlsScalar::from(1), BlsScalar::from(1)],
        [BlsScalar::from(1), BlsScalar::from(2), BlsScalar::from(1)],
        [BlsScalar::from(1), BlsScalar::from(1), BlsScalar::from(2)],
    ];

    let mut new_state = [bls(constants[0][0]), bls(constants[0][1]), bls(constants[0][2])];
    for i in 0..3 {
        for j in 0..3 {
            new_state[i] += copy_matrix[i][j] * bls(state[j]);
        }
    }

    assert_eq!(
        [scalar(new_state[0]), scalar(new_state[1]), scalar(new_state[2])],
        output
    );
    assert_ne!(scalar(new_state[0]), Scalar::from_u64(30));
}

#[test]
fn test_zelbet_hash_with_fixed_parameters_is_the_permutation() {
    let inputs = [
        [Scalar::from_u64(1); 3],
        [Scalar::from_u64(0), Scalar::from_u64(5), scalar(-BlsScalar::one())],
    ];
    for input in inputs {
        assert_eq!(
            zelbet_hash(input, mixing_matrix(), rounds()),
            zelbet_out_of_circuit(input)
        );
    }
}

#[test]
fn test_zelbet_hash_depends_on_the_round_constants() {
    let input = [Scalar::from_u64(1); 3];
    let mut constants = rounds();
    constants[5][2] = Scalar::from_u64(1);
    let changed = zelbet_hash(input, mixing_matrix(), constants);
    let fixed = zelbet_out_of_circuit(input);
    assert_eq!(changed[0], fixed[0]);
    assert_eq!(changed[1], fixed[1]);
    assert_ne!(changed[2], fixed[2]);
}
