use dusk_bls12_381::BlsScalar;
use zelbet::constants::{CONSTANTS_BLS, MATRIX_BLS};
use zelbet::field::Scalar;
use zelbet::hashing::zelbet::concrete;
use zelbet::hashing::zelbet::concrete::{concrete_with_matrix, mixing_matrix};

fn bls(s: Scalar) -> BlsScalar {
    BlsScalar(s.0)
}

fn round(k: usize) -> [Scalar; 3] {
    [
        Scalar(CONSTANTS_BLS[k][0]),
        Scalar(CONSTANTS_BLS[k][1]),
        Scalar(CONSTANTS_BLS[k][2]),
    ]
}

#[test]
fn concrete_test_concrete() {
    let state = [Scalar::from_u64(4), Scalar::from_u64(3), Scalar::from_u64(2)];
    let output = concrete(state, round(0));

    let copy_matrix = [
        [BlsScalar::from(2), BlsScalar::from(1), BlsScalar::from(1)],
        [BlsScalar::from(1), BlsScalar::from(2), BlsScalar::from(1)],
        [BlsScalar::from(1), BlsScalar::from(1), BlsScalar::from(2)],
    ];

    let mut new_state = [bls(round(0)[0]), bls(round(0)[1]), bls(round(0)[2])];
    for i in 0..3 {
        for j in 0..3 {
            new_state[i] += copy_matrix[i][j] * bls(state[j]);
        }
    }

    assert_eq!(
        [Scalar(new_state[0].0), Scalar(new_state[1].0), Scalar(new_state[2].0)],
        output
    );
}

#[test]
fn test_concrete_fixed_vector() {
    let state = [Scalar::from_u64(1), Scalar::from_u64(2), Scalar::from_u64(3)];
    let constants = [Scalar::from_u64(2); 3];
    assert_eq!(
        concrete(state, constants),
        [Scalar::from_u64(9), Scalar::from_u64(10), Scalar::from_u64(11)]
    );
}

#[test]
fn test_matrix_is_circulant() {
    let matrix = mixing_matrix();
    for i in 0..3 {
        for j in 0..3 {
            assert_eq!(matrix[i][j], Scalar(MATRIX_BLS[i][j]));
            let expected = if i == j { 2 } else { 1 };
            assert_eq!(matrix[i][j], Scalar::from_u64(expected));
        }
    }
}

#[test]
fn test_concrete_with_other_matrix() {
    let state = [Scalar::from_u64(1), Scalar::from_u64(2), Scalar::from_u64(3)];
    let constants = [Scalar::from_u64(10), Scalar::from_u64(20), Scalar::from_u64(30)];
    let matrix = [
        [Scalar::from_u64(1), Scalar::from_u64(0), Scalar::from_u64(0)],
        [Scalar::from_u64(0), Scalar::from_u64(5), Scalar::from_u64(0)],
        [Scalar::from_u64(7), Scalar::from_u64(0), Scalar::from_u64(1)],
    ];
    assert_eq!(
        concrete_with_matrix(state, matrix, constants),
        [Scalar::from_u64(11), Scalar::from_u64(30), Scalar::from_u64(40)]
    );
}
