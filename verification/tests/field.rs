use dusk_bls12_381::BlsScalar;
use zelbet::field::Scalar;
use zelbet::wide::U256;

fn scalar(b: BlsScalar) -> Scalar {
    Scalar(b.0)
}

#[test]
fn test_zero_and_one() {
    assert_eq!(Scalar::zero(), scalar(BlsScalar::zero()));
    assert_eq!(Scalar::one(), scalar(BlsScalar::one()));
    assert_eq!(Scalar::from_u64(0), Scalar::zero());
    assert_eq!(Scalar::from_u64(1), Scalar::one());
}

#[test]
fn test_from_u64_is_the_montgomery_form() {
    assert_eq!(Scalar::from_u64(7), scalar(BlsScalar::from(7)));
    assert_eq!(
        Scalar::from_u64(2),
        Scalar([
            17179869180,
            12756850513266774020,
            3681868479150465002,
            3479420709561305823
        ])
    );
    assert_eq!(Scalar::from_u64(u64::MAX), scalar(BlsScalar::from(u64::MAX)));
}

#[test]
fn test_from_raw_reduces_any_integer() {
    // 2^256 - 1 is larger than the order of the field
    let all_ones = Scalar::from_raw([u64::MAX; 4]);
    assert_eq!(all_ones, scalar(BlsScalar::from_raw([u64::MAX; 4])));
    // reduced, it is 2^256 - 1 - 2 * p
    assert_eq!(
        all_ones.reduce().0,
        [8589934589, 6378425256633387010, 11064306276430008309, 1739710354780652911]
    );
    // the order itself stands for zero
    let order = [
        0xffffffff00000001,
        0x53bda402fffe5bfe,
        0x3339d80809a1d805,
        0x73eda753299d7d48,
    ];
    assert_eq!(Scalar::from_raw(order), Scalar::zero());
}

#[test]
fn test_reduce_takes_out_of_montgomery_form() {
    assert_eq!(Scalar::from_u64(12).reduce().0, [12, 0, 0, 0]);
    assert_eq!(Scalar::one().reduce().0, [1, 0, 0, 0]);
    let minus_one = scalar(-BlsScalar::one());
    assert_eq!(
        minus_one.reduce().0,
        [
            0xffffffff00000000,
            0x53bda402fffe5bfe,
            0x3339d80809a1d805,
            0x73eda753299d7d48
        ]
    );
    assert_eq!(Scalar::from_raw(minus_one.reduce().0), minus_one);
}

#[test]
fn test_mul_and_add_are_those_of_the_field() {
    let three = Scalar::from_u64(3);
    let four = Scalar::from_u64(4);
    assert_eq!(three.mul(&four), Scalar::from_u64(12));
    assert_eq!(three.add(&four), Scalar::from_u64(7));
    assert_ne!(three.mul(&four), three);
    assert_ne!(three.add(&four), three);
    let minus_one = scalar(-BlsScalar::one());
    assert_eq!(minus_one.mul(&minus_one), Scalar::one());
    assert_eq!(minus_one.add(&Scalar::one()), Scalar::zero());
    let a = scalar(BlsScalar::from(23848872923).square());
    let b = scalar(-BlsScalar::from(298375439085));
    assert_eq!(a.mul(&b), scalar(BlsScalar(a.0) * BlsScalar(b.0)));
    assert_eq!(a.add(&b), scalar(BlsScalar(a.0) + BlsScalar(b.0)));
}

#[test]
fn test_wide_integers() {
    assert_eq!(U256::zero().0, [0, 0, 0, 0]);
    assert_eq!(U256::from_u64(703).0, [703, 0, 0, 0]);
    assert_eq!(U256::from_u64(u64::MAX).low_u64(), u64::MAX);
    assert_eq!(U256::zero().low_u64(), 0);
}
