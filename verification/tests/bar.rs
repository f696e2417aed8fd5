use dusk_bls12_381::BlsScalar;
use zelbet::constants::{BLS_SCALAR_REAL, DECOMPOSITION_S_I, INVERSES_S_I};
use zelbet::field::Scalar;
use zelbet::hashing::zelbet::bar::{bar, compute_whole_representation, decompose, small_s_box};

fn scalar(b: BlsScalar) -> Scalar {
    Scalar(b.0)
}

#[test]
fn bar_test_bar() {
    let mut input = [Scalar::one(); 3];
    bar(&mut input);
    let mut breakdown = [15u64; 27];
    breakdown[0] = 187;
    let composed = compute_whole_representation(breakdown);
    assert_eq!(input[0], composed);

    // Check whether -5 is dealt with correctly
    let mut input2 = [
        scalar(-BlsScalar::from(5)),
        scalar(-BlsScalar::from(3)),
        scalar(-BlsScalar::from(1)),
    ];
    bar(&mut input2);

    assert_eq!(
        input2[0],
        Scalar([
            18446742991377793276,
            7975156907413507843,
            7849958771744875838,
            2157424182152352530
        ])
    );
    assert_eq!(
        input2[1],
        Scalar([
            18446741084412314296,
            12364043610437066055,
            4990927207653396091,
            3323350968747990091
        ])
    );
    assert_eq!(
        input2[2],
        Scalar([
            18446744060824649731,
            18102478225614246908,
            11073656695919314959,
            6613806504683796440
        ])
    );
}

#[test]
fn test_compute_whole() {
    // Check if -5 is composed correctly
    let expected_breakdown = [
        656, 660, 673, 663, 674, 682, 687, 683, 669, 684, 672, 666, 680, 662, 686, 668, 661, 678,
        692, 686, 689, 660, 690, 687, 683, 674, 678, 658, 660, 673, 663, 674, 682, 687, 683, 669,
        684, 672, 666, 680, 662, 686, 668, 661, 678, 692, 686, 689, 660, 690, 687, 683, 674, 678,
        658, 660, 673, 663, 674, 682, 687, 683, 669, 684, 672, 666, 680, 662, 686, 668, 661, 678,
        692, 686, 689, 660, 690, 687, 683, 674, 678,
    ];
    let mut expected = [0u64; 27];
    (0..27).for_each(|k| {
        expected[k] = expected_breakdown[k];
    });
    let composition = compute_whole_representation(expected);
    assert_eq!(composition, scalar(-BlsScalar::from(5)));
}

#[test]
fn test_s_box() {
    assert_eq!(small_s_box(658), 346);
    assert_eq!(small_s_box(659), 659);
    assert_eq!(small_s_box(30), 179);
    assert_eq!(small_s_box(670), 670);
}

#[test]
fn test_field_size_decomposition() {
    let size = compute_whole_representation(BLS_SCALAR_REAL);
    assert_eq!(size.add(&Scalar::one()), Scalar::zero());
}

#[test]
fn test_bar_minus_one() {
    let mut input = [scalar(-BlsScalar::one()); 3];
    bar(&mut input);
    let breakdown = [
        660, 660, 673, 663, 674, 682, 687, 683, 669, 684, 672, 666, 680, 662, 686, 668, 661, 678,
        692, 686, 689, 660, 690, 687, 683, 674, 678,
    ];
    let composed = compute_whole_representation(breakdown);
    assert_eq!(input[0], composed);
}

#[test]
fn test_inverses() {
    for k in 0..27 {
        let product = Scalar([DECOMPOSITION_S_I[k], 0, 0, 0]).mul(&Scalar(INVERSES_S_I[k]));
        assert_eq!(Scalar::from_raw(product.0), Scalar::one());
    }
}

#[test]
fn test_decompose_known_digits() {
    let mut one = [0u64; 27];
    one[0] = 1;
    assert_eq!(decompose(&Scalar::one()), one);
    assert_eq!(decompose(&Scalar::zero()), [0u64; 27]);
    assert_eq!(decompose(&scalar(-BlsScalar::one())), BLS_SCALAR_REAL);
    let mut minus_five = BLS_SCALAR_REAL;
    minus_five[0] = 656;
    assert_eq!(decompose(&scalar(-BlsScalar::from(5))), minus_five);
}

#[test]
fn test_decompose_then_compose_is_identity() {
    let samples = [
        BlsScalar::zero(),
        BlsScalar::one(),
        -BlsScalar::one(),
        -BlsScalar::from(2),
        -BlsScalar::from(5),
        BlsScalar::from(693),
        BlsScalar::from(692),
        BlsScalar::from(u64::MAX),
        BlsScalar::from(23848872923),
        BlsScalar::from(298375439085).square(),
        BlsScalar::from(7).pow(&[1234567, 89, 3, 0]),
    ];
    for sample in samples {
        let x = scalar(sample);
        assert_eq!(compute_whole_representation(decompose(&x)), x);
    }
}

#[test]
fn test_decompose_digits_below_radices() {
    let x = scalar(BlsScalar::from(11).pow(&[987654321, 5, 0, 0]));
    let digits = decompose(&x);
    for k in 0..27 {
        assert!(digits[k] < DECOMPOSITION_S_I[k]);
    }
}

#[test]
fn test_s_box_keeps_digits_above_threshold() {
    for x in 659..703 {
        assert_eq!(small_s_box(x), x);
    }
    assert_eq!(small_s_box(0), 15);
    assert_eq!(small_s_box(1), 187);
    assert_eq!(small_s_box(u64::MAX), u64::MAX);
}
