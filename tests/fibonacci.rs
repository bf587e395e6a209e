use halo2_gadgets_verified::failure::VerifyFailure;
use halo2_gadgets_verified::fibonacci::{FiboChip, FiboCircuit, FIBO_ROWS};
use halo2_gadgets_verified::field::Fe;

#[test]
fn test_example2() {
    let a = Fe::from_u64(1);
    let b = Fe::from_u64(1);
    let out = Fe::from_u64(55);

    let circuit = FiboCircuit;
    let mut public_input = vec![a, b, out];
    assert_eq!(circuit.synthesize(&public_input), Ok(()));

    public_input[2] = public_input[2].add(&Fe::one());
    assert_eq!(circuit.synthesize(&public_input), Err(VerifyFailure::InstanceMismatch { row: 2 }));
}

#[test]
fn fibo_column_holds_the_sequence() {
    let chip = FiboChip::construct(FiboChip::configure(0, 1));
    let instance = vec![Fe::from_u64(2), Fe::from_u64(3)];
    let column = chip.assign(&instance, FIBO_ROWS);
    let expected = [2u64, 3, 5, 8, 13, 21, 34, 55, 89, 144];
    assert_eq!(column.len(), expected.len());
    for (cell, want) in column.iter().zip(expected.iter()) {
        assert_eq!(*cell, Fe::from_u64(*want));
    }
    assert_eq!(chip.check_add(&column), Ok(()));
    assert_eq!(chip.expose_public(&column[9], &vec![Fe::from_u64(144)], 0), Ok(()));
}

#[test]
fn fibo_add_check_reports_first_bad_row() {
    let chip = FiboChip::construct(FiboChip::configure(0, 1));
    let column = vec![Fe::from_u64(1), Fe::from_u64(1), Fe::from_u64(2), Fe::from_u64(4), Fe::from_u64(6)];
    match chip.check_add(&column) {
        Err(VerifyFailure::ConstraintNotSatisfied { offset, .. }) => assert_eq!(offset, 1),
        other => panic!("unexpected result {:?}", other),
    }
}
