use dusk_plonk::constraint_system::TurboComposer;
use zelbet::composer::add_witness_to_circuit_description;
use zelbet::constants::{MONTGOMERY_FOUR, MONTGOMERY_THREE, MONTGOMERY_TWO};
use zelbet::field::Scalar;
use zelbet::hashing::gadgets::{brick_gadget, concrete_gadget};

#[test]
fn zk_test_bricks_gadget() {
    let mut composer = TurboComposer::default();
    let one = add_witness_to_circuit_description(&mut composer, Scalar::one());
    let two = add_witness_to_circuit_description(&mut composer, Scalar(MONTGOMERY_TWO));
    let output = brick_gadget(
        &mut composer,
        &[one, one, one],
        two,
        Scalar(MONTGOMERY_THREE),
        Scalar(MONTGOMERY_FOUR),
    );
    // 1^5, 1 * (1 + 1 + 2), 1 * (1 + 3 + 4)
    assert_eq!(
        [output[0].scalar, output[1].scalar, output[2].scalar],
        [Scalar::from_u64(1), Scalar::from_u64(4), Scalar::from_u64(8)]
    );
}

#[test]
fn zk_test_concrete_gadget() {
    let mut composer = TurboComposer::default();
    let one = add_witness_to_circuit_description(&mut composer, Scalar::one());
    let two = add_witness_to_circuit_description(&mut composer, Scalar::from_u64(2));
    let three = add_witness_to_circuit_description(&mut composer, Scalar::from_u64(3));
    let state = [one, two, three];
    let output = concrete_gadget(&mut composer, &state, &[three; 3]);
    let expected0 = add_witness_to_circuit_description(&mut composer, Scalar::from_u64(10));
    let expected1 = add_witness_to_circuit_description(&mut composer, Scalar::from_u64(11));
    let expected2 = add_witness_to_circuit_description(&mut composer, Scalar::from_u64(12));

    assert_eq!(output[0].scalar, expected0.scalar);
    assert_eq!(output[1].scalar, expected1.scalar);
    assert_eq!(output[2].scalar, expected2.scalar);
}
