use axal::circuit::{BoolTarget, CircuitBuilder};
use axal::comparison::{compare_ge_same_sign, compare_gate_unsafe, is_nonneg, is_positive};
use axal::field::{MAX_POSITIVE_AMOUNT, MAX_POSITIVE_AMOUNT_LOG, P};
use axal::witness::{generate_witness, PartialWitness, WitnessError};

const SMALLEST_POSITIVE: u64 = 0;
const LARGEST_POSITIVE: u64 = MAX_POSITIVE_AMOUNT;
const SMALLEST_NEGATIVE: u64 = P - (1 << MAX_POSITIVE_AMOUNT_LOG);
const LARGEST_NEGATIVE: u64 = P - 1;

/// Builds `is_positive` over the top bits of `x`, binds `x` and the expected
/// result, and completes the witness.
fn run_is_positive(x: u64, expected: bool) -> Result<Vec<u64>, WitnessError> {
    let mut builder = CircuitBuilder::new();
    let mut pw = PartialWitness::new();
    let x_target = builder.add_virtual_target();
    let x_bits = builder.split_le(x_target, 64);
    let out = is_positive(&mut builder, x_bits[63], x_bits[62]);
    pw.set_target(x_target, x)?;
    pw.set_target(out.target, expected as u64)?;
    generate_witness(&builder, &pw)
}

/// Builds the comparison of two inputs, binds them and the expected result,
/// and completes the witness.
fn run_compare(x: u64, y: u64, expected: bool) -> Result<Vec<u64>, WitnessError> {
    let mut builder = CircuitBuilder::new();
    let mut pw = PartialWitness::new();
    let x_target = builder.add_virtual_target();
    let y_target = builder.add_virtual_target();
    let result_target: BoolTarget = compare_gate_unsafe(&mut builder, x_target, y_target);
    pw.set_target(x_target, x)?;
    pw.set_target(y_target, y)?;
    pw.set_target(result_target.target, expected as u64)?;
    generate_witness(&builder, &pw)
}

#[test]
fn test_is_positive() {
    assert!(run_is_positive(SMALLEST_POSITIVE, true).is_ok());
    assert!(run_is_positive(LARGEST_POSITIVE, true).is_ok());
    assert!(run_is_positive(LARGEST_NEGATIVE, false).is_ok());
    assert!(run_is_positive(SMALLEST_NEGATIVE, false).is_ok());
}

#[test]
fn test_compare_gate_unsafe() {
    assert!(run_compare(LARGEST_POSITIVE, SMALLEST_POSITIVE, true).is_ok());
    assert!(run_compare(SMALLEST_POSITIVE, LARGEST_POSITIVE, false).is_ok());
    assert!(run_compare(12, 12, true).is_ok());
    assert!(run_compare(LARGEST_NEGATIVE, SMALLEST_NEGATIVE, true).is_ok());
    assert!(run_compare(SMALLEST_NEGATIVE, LARGEST_NEGATIVE, false).is_ok());
    assert!(run_compare(16835058050987196417, 16835058050987196417, true).is_ok());
}

#[test]
fn is_positive_rejects_wrong_expectation() {
    assert!(matches!(run_is_positive(LARGEST_POSITIVE, false), Err(WitnessError::Conflict(_))));
    assert!(matches!(run_is_positive(SMALLEST_NEGATIVE, true), Err(WitnessError::Conflict(_))));
}

#[test]
fn compare_gate_rejects_wrong_expectation() {
    assert_eq!(run_compare(12, 12, false), Err(WitnessError::Conflict(67 + 2)));
    assert!(matches!(run_compare(0, LARGEST_POSITIVE, true), Err(WitnessError::Conflict(_))));
    assert!(matches!(run_compare(SMALLEST_NEGATIVE, LARGEST_NEGATIVE, true), Err(WitnessError::Conflict(_))));
}

#[test]
fn is_nonneg_reads_top_bits() {
    assert!(is_nonneg(false, false));
    assert!(!is_nonneg(true, false));
    assert!(!is_nonneg(false, true));
    assert!(!is_nonneg(true, true));
    let bits = |x: u64| ((x >> 62) & 1 == 1, (x >> 63) & 1 == 1);
    for x in [0u64, 1, 12, LARGEST_POSITIVE] {
        let (b62, b63) = bits(x);
        assert!(is_nonneg(b62, b63));
    }
    for x in [SMALLEST_NEGATIVE, SMALLEST_NEGATIVE + 1, 16835058050987196417, LARGEST_NEGATIVE] {
        let (b62, b63) = bits(x);
        assert!(!is_nonneg(b62, b63));
    }
}

#[test]
fn compare_values_positive_band() {
    assert!(compare_ge_same_sign(LARGEST_POSITIVE, 0));
    assert!(!compare_ge_same_sign(0, LARGEST_POSITIVE));
    assert!(compare_ge_same_sign(12, 12));
    assert!(compare_ge_same_sign(13, 12));
    assert!(!compare_ge_same_sign(12, 13));
}

#[test]
fn compare_values_negative_band() {
    assert!(compare_ge_same_sign(LARGEST_NEGATIVE, SMALLEST_NEGATIVE));
    assert!(!compare_ge_same_sign(SMALLEST_NEGATIVE, LARGEST_NEGATIVE));
    assert!(compare_ge_same_sign(SMALLEST_NEGATIVE, SMALLEST_NEGATIVE));
    assert!(compare_ge_same_sign(LARGEST_NEGATIVE - 1, SMALLEST_NEGATIVE + 5));
}

#[test]
fn compare_values_across_bands_is_unreliable() {
    // 2^62 - 1 against -2^62: operands of different bands, outside the
    // primitive's precondition, give the wrong answer.
    assert!(!compare_ge_same_sign(LARGEST_POSITIVE, SMALLEST_NEGATIVE));
}

#[test]
fn split_le_bits_match_value() {
    let mut builder = CircuitBuilder::new();
    let x_target = builder.add_virtual_target();
    let bits = builder.split_le(x_target, 64);
    assert_eq!(bits.len(), 64);
    let mut pw = PartialWitness::new();
    let x: u64 = 0xB000_0000_0000_0005;
    pw.set_target(x_target, x).unwrap();
    let w = generate_witness(&builder, &pw).unwrap();
    for (k, b) in bits.iter().enumerate() {
        assert_eq!(w[b.target], (x >> k) & 1);
    }
}
