use halo2_gadgets_verified::decompose::{DecomposeConfig, DecomposeRangeCheckCircuit, DECOMPOSE_REGION};
use halo2_gadgets_verified::failure::VerifyFailure;
use halo2_gadgets_verified::field::Fe;
use halo2_gadgets_verified::helpers::{compute_running_sum, lebs2ip};
use halo2_gadgets_verified::is_equal::{IsEqualChip, IsEqualCircuit, IsEqualRow, indicator_of, IS_EQUAL_GATE, IS_ZERO_GATE};
use halo2_gadgets_verified::is_zero::{is_zero, is_zero_constraint, is_zero_expr, IsZeroChip};
use halo2_gadgets_verified::range_check::{
    range_check_expr, RangeCheckCircuit, RangeCheckConfig, SimpleRangeCheckCircuit, LOOKUP_REGION,
    SIMPLE_REGION,
};
use halo2_gadgets_verified::table::RangeTableConfig;

fn fe(n: u64) -> Fe {
    Fe::from_u64(n)
}

#[test]
fn test_decompose_range_check1() {
    let value: u64 = rand::random();
    let config = DecomposeConfig::configure(8);
    let circuit = DecomposeRangeCheckCircuit { value: fe(value), num_bits: 64 };
    assert_eq!(circuit.synthesize(&config), Ok(()));
}

#[test]
fn test_is_equal() {
    let circuit = IsEqualCircuit { a: fe(42), b: fe(42) };
    assert_eq!(circuit.synthesize(), Ok(()));
}

#[test]
fn test_range_check1() {
    const RANGE: u64 = 8;
    for i in 0..RANGE {
        let circuit = SimpleRangeCheckCircuit { value: fe(i) };
        assert_eq!(circuit.synthesize(RANGE), Ok(()));
    }
    let circuit = SimpleRangeCheckCircuit { value: fe(RANGE) };
    assert_eq!(
        circuit.synthesize(RANGE),
        Err(VerifyFailure::ConstraintNotSatisfied {
            gate: 0,
            constraint: 0,
            region: 0,
            offset: 0,
            value: fe(8),
        })
    );
}

#[test]
fn test_range_check2() {
    const RANGE: u64 = 8;
    const NUM_BITS: usize = 4;
    let config = RangeCheckConfig::configure(RANGE, NUM_BITS);
    for i in 0..RANGE {
        for j in 0..(1u64 << NUM_BITS) {
            let circuit = RangeCheckCircuit { value: fe(i), lookup_value: fe(j) };
            assert_eq!(circuit.synthesize(&config), Ok(()));
        }
    }
}

#[test]
fn test_out_of_range_check2() {
    const RANGE: u64 = 8;
    const NUM_BITS: usize = 4;
    let config = RangeCheckConfig::configure(RANGE, NUM_BITS);
    let circuit = RangeCheckCircuit { value: fe(RANGE), lookup_value: fe(1u64 << NUM_BITS) };
    assert_eq!(
        circuit.synthesize(&config),
        Err(vec![
            VerifyFailure::ConstraintNotSatisfied {
                gate: 0,
                constraint: 0,
                region: 1,
                offset: 0,
                value: fe(RANGE),
            },
            VerifyFailure::Lookup { lookup_index: 0, region: 2, offset: 0 },
        ])
    );
}

#[test]
fn table_holds_zero_to_two_pow_k_in_order() {
    for k in 1..=8usize {
        let table = RangeTableConfig::load(k);
        assert_eq!(table.len(), 1usize << k);
        assert_eq!(table.num_bits(), k);
        for i in 0..table.len() {
            assert_eq!(table.entry(i), fe(i as u64));
        }
        assert!(table.contains(&fe((1u64 << k) - 1)));
        assert!(!table.contains(&fe(1u64 << k)));
    }
}

#[test]
fn lebs2ip_reads_little_endian_bits() {
    assert_eq!(lebs2ip(&[]), 0);
    assert_eq!(lebs2ip(&[true, false, true, true]), 13);
    assert_eq!(lebs2ip(&[false, false, false, false, false, false, false, true]), 128);
    assert_eq!(lebs2ip(&[true; 64]), u64::MAX);
}

#[test]
fn running_sum_shifts_out_one_limb_per_step() {
    let value = 0x1234_5678_9abc_def0u64;
    let zs = compute_running_sum(fe(value), 64, 8);
    assert_eq!(zs.len(), 8);
    for (i, z) in zs.iter().enumerate() {
        let expected = if i == 7 { 0 } else { value >> (8 * (i + 1)) };
        assert_eq!(*z, fe(expected));
    }
}

#[test]
fn decompose_limbs_reconstruct_the_value() {
    let config = DecomposeConfig::configure(8);
    let value = 0xfedc_ba98_7654_3210u64;
    let zs = config.assign(fe(value), 64);
    assert_eq!(zs.len(), 9);
    assert_eq!(zs[0], fe(value));
    assert_eq!(zs[8], fe(0));
    let two_k = fe(256);
    let mut rebuilt: u128 = 0;
    for i in 0..8 {
        let c = zs[i].sub(&zs[i + 1].mul(&two_k));
        let limb = (value >> (8 * i)) & 0xff;
        assert_eq!(c, fe(limb));
        assert!(config.lookup_table().contains(&c));
        rebuilt += (limb as u128) << (8 * i);
    }
    assert_eq!(rebuilt, value as u128);
    assert_eq!(config.verify(&zs), Ok(()));
}

#[test]
fn decompose_end_to_end_random_64_bit_values() {
    let config = DecomposeConfig::configure(8);
    for _ in 0..4 {
        let value: u64 = rand::random();
        let zs = config.assign(fe(value), 64);
        assert_eq!(zs.len(), 9);
        assert_eq!(zs[8], fe(0));
        assert_eq!(config.verify(&zs), Ok(()));
    }
}

#[test]
fn decompose_rejects_value_above_the_bit_width() {
    let config = DecomposeConfig::configure(8);
    let circuit = DecomposeRangeCheckCircuit { value: fe(256), num_bits: 8 };
    assert_eq!(
        circuit.synthesize(&config),
        Err(VerifyFailure::ConstantMismatch { region: DECOMPOSE_REGION, offset: 1 })
    );
    let zs = config.assign(fe(256), 8);
    assert_eq!(zs, vec![fe(256), fe(1)]);
    let ok = DecomposeRangeCheckCircuit { value: fe(255), num_bits: 8 };
    assert_eq!(ok.synthesize(&config), Ok(()));
}

#[test]
fn decompose_with_zero_bits_accepts_only_zero() {
    let config = DecomposeConfig::configure(4);
    assert_eq!(DecomposeRangeCheckCircuit { value: fe(0), num_bits: 0 }.synthesize(&config), Ok(()));
    assert_eq!(
        DecomposeRangeCheckCircuit { value: fe(1), num_bits: 0 }.synthesize(&config),
        Err(VerifyFailure::ConstantMismatch { region: DECOMPOSE_REGION, offset: 0 })
    );
}

#[test]
fn decompose_verify_reports_first_bad_limb() {
    let config = DecomposeConfig::configure(4);
    // z_0 - 16 * z_1 = 17 is no 4-bit limb.
    let zs = vec![fe(17), fe(0), fe(0)];
    assert_eq!(
        config.verify(&zs),
        Err(VerifyFailure::Lookup { lookup_index: 0, region: DECOMPOSE_REGION, offset: 0 })
    );
}

#[test]
fn is_zero_indicator_of_zero_and_nonzero() {
    let (ind, inv) = is_zero(&fe(0));
    assert_eq!(ind, fe(1));
    assert_eq!(inv, fe(0));
    for v in [1u64, 2, 42, u64::MAX] {
        let (ind, inv) = is_zero(&fe(v));
        assert_eq!(ind, fe(0));
        assert_eq!(fe(v).mul(&inv), fe(1));
        assert_eq!(is_zero_constraint(&fe(v), &inv), fe(0));
    }
}

#[test]
fn is_zero_gate_catches_a_dishonest_witness() {
    let v = fe(5);
    let wrong = fe(3);
    assert_ne!(is_zero_expr(&v, &wrong), fe(0));
    assert_ne!(is_zero_constraint(&v, &wrong), fe(0));
    let chip = IsZeroChip::construct(IsZeroChip::configure(7));
    assert_eq!(chip.config().value_inv, 7);
    assert_eq!(chip.assign(&fe(0)), fe(0));
    assert_eq!(fe(2).mul(&chip.assign(&fe(2))), fe(1));
}

#[test]
fn is_equal_rejects_distinct_values() {
    let circuit = IsEqualCircuit { a: fe(42), b: fe(43) };
    match circuit.synthesize() {
        Err(VerifyFailure::ConstraintNotSatisfied { gate, region, offset, value, .. }) => {
            assert_eq!(gate, IS_EQUAL_GATE);
            assert_eq!(region, 0);
            assert_eq!(offset, 0);
            assert_eq!(value, fe(0).sub(&fe(1)));
        }
        other => panic!("unexpected result {:?}", other),
    }
    assert_eq!(indicator_of(&fe(42), &fe(42)), fe(1));
    assert_eq!(indicator_of(&fe(42), &fe(43)), fe(0));
}

#[test]
fn is_equal_reports_the_zero_test_for_a_bad_witness() {
    let chip = IsEqualChip::construct(IsEqualChip::configure());
    let row = IsEqualRow { a: fe(9), b: fe(4), value_inv: fe(0) };
    match chip.verify(&row) {
        Err(VerifyFailure::ConstraintNotSatisfied { gate, value, .. }) => {
            assert_eq!(gate, IS_ZERO_GATE);
            assert_eq!(value, fe(5));
        }
        other => panic!("unexpected result {:?}", other),
    }
    let honest = chip.assign(fe(7), fe(7));
    assert_eq!(honest.value_inv, fe(0));
    assert_eq!(chip.verify(&honest), Ok(()));
}

#[test]
fn small_range_check_polynomial() {
    for v in 0..8u64 {
        assert_eq!(range_check_expr(&fe(v), 8), fe(0));
    }
    // (0 - 8)(1 - 8)...(7 - 8) = 8! = 40320
    assert_eq!(range_check_expr(&fe(8), 8), fe(40320));
    assert_eq!(range_check_expr(&fe(0), 1), fe(0));
    assert_ne!(range_check_expr(&fe(1), 1), fe(0));
}

#[test]
fn range_check_circuit_failure_regions() {
    let config = RangeCheckConfig::configure(8, 4);
    let only_lookup = RangeCheckCircuit { value: fe(7), lookup_value: fe(16) };
    assert_eq!(
        only_lookup.synthesize(&config),
        Err(vec![VerifyFailure::Lookup { lookup_index: 0, region: LOOKUP_REGION, offset: 0 }])
    );
    let only_simple = RangeCheckCircuit { value: fe(8), lookup_value: fe(15) };
    assert_eq!(
        only_simple.synthesize(&config),
        Err(vec![VerifyFailure::ConstraintNotSatisfied {
            gate: 0,
            constraint: 0,
            region: SIMPLE_REGION,
            offset: 0,
            value: fe(8),
        }])
    );
}

#[test]
fn field_wrappers_compute() {
    assert_eq!(fe(3).add(&fe(4)), fe(7));
    assert_eq!(fe(10).sub(&fe(4)), fe(6));
    assert_eq!(fe(6).mul(&fe(7)), fe(42));
    assert_eq!(fe(0).invert(), None);
    let inv = fe(256).invert().unwrap();
    assert_eq!(inv.mul(&fe(256)), fe(1));
    assert_ne!(inv, fe(256));
    let bits = fe(5).to_le_bits();
    assert_eq!(bits.len(), 256);
    assert!(bits[0] && !bits[1] && bits[2] && !bits[3]);
    assert!(fe(0).is_zero());
    assert!(!fe(1).is_zero());
    assert!(fe(9).equals(&fe(9)));
    assert!(!fe(9).equals(&fe(10)));
    assert_eq!(Fe::zero(), fe(0));
    assert_eq!(Fe::one(), fe(1));
}

#[test]
fn field_bytes_round_trip_and_reject_non_canonical() {
    let x = fe(0x0102_0304_0506_0708);
    let bytes = x.to_bytes();
    assert_eq!(bytes[0], 0x08);
    assert_eq!(bytes[7], 0x01);
    assert_eq!(bytes[8], 0);
    assert_eq!(Fe::from_bytes(bytes), Some(x));
    assert_eq!(Fe::from_bytes([0xff; 32]), None);
    // The modulus itself is not canonical; one less is the largest element.
    let mut modulus = [0u8; 32];
    modulus[..8].copy_from_slice(&0x992d30ed00000001u64.to_le_bytes());
    modulus[8..16].copy_from_slice(&0x224698fc094cf91bu64.to_le_bytes());
    modulus[24..].copy_from_slice(&0x4000000000000000u64.to_le_bytes());
    assert_eq!(Fe::from_bytes(modulus), None);
    let mut largest = modulus;
    largest[0] = 0;
    assert_eq!(Fe::from_bytes(largest), Some(fe(0).sub(&fe(1))));
}

#[test]
fn table_of_width_sixteen() {
    let table = RangeTableConfig::load(16);
    assert_eq!(table.len(), 65536);
    assert_eq!(table.entry(65535), fe(65535));
    assert!(table.contains(&fe(65535)));
    assert!(!table.contains(&fe(65536)));
}
