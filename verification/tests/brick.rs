use dusk_bls12_381::BlsScalar;
use zelbet::field::Scalar;
use zelbet::hashing::zelbet::brick;

fn scalar(b: BlsScalar) -> Scalar {
    Scalar(b.0)
}

#[test]
fn brick_test_bricks() {
    let input = [Scalar::from_u64(4), Scalar::from_u64(3), Scalar::from_u64(2)];
    let output = brick(input);

    let two = BlsScalar([
        17179869180,
        12756850513266774020,
        3681868479150465002,
        3479420709561305823,
    ]);
    let three = BlsScalar([
        25769803770,
        688531696190609414,
        14746174755580473312,
        5219131064341958734,
    ]);
    let four = BlsScalar([
        34359738360,
        7066956952823996424,
        7363736958300930005,
        6958841419122611646,
    ]);
    let quadratic_x = BlsScalar::from(4) * BlsScalar::from(4);
    let quadratic_y = BlsScalar::from(3) * BlsScalar::from(3);
    let element_1 = quadratic_x * quadratic_x * BlsScalar::from(4);
    let element_2 = BlsScalar::from(3) * (quadratic_x + BlsScalar::from(4) + two);
    let element_3 = BlsScalar::from(2) * (quadratic_y + (three * BlsScalar::from(3)) + four);
    let calculated_output = [scalar(element_1), scalar(element_2), scalar(element_3)];
    assert_eq!(output[0], calculated_output[0]);
    assert_eq!(output[1], calculated_output[1]);
    assert_eq!(output[2], calculated_output[2]);
}

#[test]
fn test_brick_fixed_vector() {
    let output = brick([Scalar::from_u64(2), Scalar::from_u64(3), Scalar::from_u64(4)]);
    assert_eq!(
        output,
        [Scalar::from_u64(32), Scalar::from_u64(24), Scalar::from_u64(88)]
    );
    assert_eq!(
        output[2],
        Scalar([
            833223655230,
            9964695461023336642,
            3326552538556812278,
            2731207750337367881
        ])
    );
}

#[test]
fn test_brick_of_zero_and_of_minus_one() {
    let zero = Scalar::zero();
    assert_eq!(brick([zero, zero, zero]), [zero, zero, zero]);
    let minus_one = scalar(-BlsScalar::one());
    // (-1)^5 = -1, -1 * (1 - 1 + 2) = -2, -1 * (1 - 3 + 4) = -2
    let minus_two = scalar(-BlsScalar::from(2));
    assert_eq!(
        brick([minus_one, minus_one, minus_one]),
        [minus_one, minus_two, minus_two]
    );
}
