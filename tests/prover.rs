use axal::chain_data::{PriceDataProvingInputs, SingleChainProvingInputs};
use axal::circuit::CircuitBuilder;
use axal::field::{field_add, field_mul, field_sub, P};
use axal::prover::{public_input_values, standard_config, PriceCircuitTargets, Prover, ProvingError, PRICE_CIRCUIT_WIRES};
use axal::witness::{check_witness, generate_witness, PartialWitness, WitnessError};

fn inputs(a: u64, b: u64, threshold: u64) -> PriceDataProvingInputs {
    PriceDataProvingInputs {
        price_proving_pis_1: SingleChainProvingInputs { block_number: 19_000_001, sqrt_price_x96: a },
        price_proving_pis_2: SingleChainProvingInputs { block_number: 7_500_002, sqrt_price_x96: b },
        diff_threshold: threshold,
    }
}

/// Runs a fresh prover and returns the published values.
fn published(a: u64, b: u64, threshold: u64) -> Vec<u64> {
    let mut prover = Prover::new(standard_config());
    let w = prover.prove(&inputs(a, b, threshold)).unwrap();
    assert!(check_witness(&prover.builder, &w));
    public_input_values(&prover.builder, &w)
}

#[test]
fn divergence_above_threshold_is_published_true() {
    // 3000^2 - 1000^2 = 8_000_000
    assert_eq!(published(3000, 1000, 7_999_999), vec![19_000_001, 7_500_002, 7_999_999, 1]);
    assert_eq!(published(1000, 3000, 7_999_999), vec![19_000_001, 7_500_002, 7_999_999, 1]);
}

#[test]
fn divergence_below_threshold_is_published_false() {
    assert_eq!(published(3000, 1000, 8_000_001), vec![19_000_001, 7_500_002, 8_000_001, 0]);
    assert_eq!(published(1000, 3000, 8_000_001), vec![19_000_001, 7_500_002, 8_000_001, 0]);
}

#[test]
fn divergence_equal_to_threshold_is_inclusive() {
    assert_eq!(published(3000, 1000, 8_000_000)[3], 1);
    assert_eq!(published(1000, 3000, 8_000_000)[3], 1);
    assert_eq!(published(42, 42, 0)[3], 1);
    assert_eq!(published(42, 42, 1)[3], 0);
}

#[test]
fn largest_encodable_prices() {
    // 2147483647^2 = 2^62 - 2^32 + 1, the largest square below 2^62.
    let a: u64 = 2_147_483_647;
    let sq = a * a;
    assert_eq!(published(a, 0, sq)[3], 1);
    assert_eq!(published(0, a, sq + 1)[3], 0);
}

#[test]
fn fuzzed_witnesses_satisfy_every_gate() {
    let mut state: u64 = 0x9E37_79B9_7F4A_7C15;
    let mut next = || {
        state = state.wrapping_mul(6364136223846793005).wrapping_add(1442695040888963407);
        state >> 33
    };
    for _ in 0..200 {
        let a = next() % (1 << 31);
        let b = next() % (1 << 31);
        let t = next() % (1 << 62);
        let mut prover = Prover::new(standard_config());
        let w = prover.prove(&inputs(a, b, t)).unwrap();
        assert_eq!(w.len(), PRICE_CIRCUIT_WIRES);
        assert!(check_witness(&prover.builder, &w));
        let gap = (a as i128 * a as i128 - b as i128 * b as i128).abs();
        assert_eq!(w[145], (gap >= t as i128) as u64);
    }
}

#[test]
fn altered_witness_is_rejected() {
    let mut prover = Prover::new(standard_config());
    let mut w = prover.prove(&inputs(3000, 1000, 10)).unwrap();
    assert!(check_witness(&prover.builder, &w));
    w[5] = field_add(w[5], 1);
    assert!(!check_witness(&prover.builder, &w));
    w[5] = field_sub(w[5], 1);
    assert!(check_witness(&prover.builder, &w));
    w[145] = 0;
    assert!(!check_witness(&prover.builder, &w));
    w[145] = 1;
    w.pop();
    assert!(!check_witness(&prover.builder, &w));
}

#[test]
fn construction_is_repeatable() {
    let mut b1 = CircuitBuilder::new();
    let mut b2 = CircuitBuilder::new();
    let t1 = PriceCircuitTargets::create_price_diff_circuit(&mut b1);
    let t2 = PriceCircuitTargets::create_price_diff_circuit(&mut b2);
    assert_eq!(t1, t2);
    assert_eq!(b1.gates, b2.gates);
    assert_eq!(b1.public_inputs, b2.public_inputs);
    assert_eq!(b1.public_inputs, vec![2, 3, 4, 145]);
    assert_eq!(b1.num_wires(), PRICE_CIRCUIT_WIRES);
}

#[test]
fn out_of_band_inputs_are_refused() {
    let mut prover = Prover::new(standard_config());
    // 2^31 squared is 2^62, outside the non-negative band.
    assert_eq!(prover.prove(&inputs(1 << 31, 5, 1)), Err(ProvingError::EncodingViolation));
    let mut prover = Prover::new(standard_config());
    assert_eq!(prover.prove(&inputs(5, 1 << 31, 1)), Err(ProvingError::EncodingViolation));
    let mut prover = Prover::new(standard_config());
    assert_eq!(prover.prove(&inputs(5, 6, 1 << 62)), Err(ProvingError::EncodingViolation));
    let mut prover = Prover::new(standard_config());
    let mut bad = inputs(5, 6, 1);
    bad.price_proving_pis_2.block_number = P;
    assert_eq!(prover.prove(&bad), Err(ProvingError::EncodingViolation));
}

#[test]
fn set_price_diff_circuit_binds_inputs() {
    let mut builder = CircuitBuilder::new();
    let targets = PriceCircuitTargets::create_price_diff_circuit(&mut builder);
    let mut pw = PartialWitness::new();
    targets.set_price_diff_circuit(&mut pw, &inputs(3, 4, 5)).unwrap();
    assert_eq!(pw.get_target(targets.pool_1_sqrt_price_x96_target), Some(3));
    assert_eq!(pw.get_target(targets.pool_2_sqrt_price_x96_target), Some(4));
    assert_eq!(pw.get_target(targets.pool_1_block_number_target), Some(19_000_001));
    assert_eq!(pw.get_target(targets.pool_2_block_number_target), Some(7_500_002));
    assert_eq!(pw.get_target(targets.diff_threshold), Some(5));
    assert_eq!(pw.get_target(targets.exceeds_threshold.target), None);
    assert_eq!(
        targets.set_price_diff_circuit(&mut pw, &inputs(9, 4, 5)),
        Err(ProvingError::Witness(WitnessError::Conflict(0)))
    );
}

#[test]
fn witness_errors() {
    let mut builder = CircuitBuilder::new();
    let x = builder.add_virtual_target();
    let y = builder.add_virtual_target();
    let z = builder.mul(x, y);
    let mut pw = PartialWitness::new();
    assert_eq!(pw.set_target(x, P), Err(WitnessError::NonCanonical(x)));
    pw.set_target(x, 6).unwrap();
    assert_eq!(generate_witness(&builder, &pw), Err(WitnessError::Unassigned(y)));
    assert_eq!(pw.set_target(x, 7), Err(WitnessError::Conflict(x)));
    pw.set_target(x, 6).unwrap();
    pw.set_target(y, 7).unwrap();
    pw.set_target(z, 41).unwrap();
    assert_eq!(generate_witness(&builder, &pw), Err(WitnessError::Conflict(z)));
    let mut pw = PartialWitness::new();
    pw.set_target(x, 6).unwrap();
    pw.set_target(y, 7).unwrap();
    pw.set_target(z, 42).unwrap();
    assert_eq!(generate_witness(&builder, &pw), Ok(vec![6, 7, 42]));
}

#[test]
fn field_arithmetic_wraps_modulo_p() {
    assert_eq!(field_add(P - 1, 2), 1);
    assert_eq!(field_add(3, 4), 7);
    assert_eq!(field_sub(0, 1), P - 1);
    assert_eq!(field_sub(10, 3), 7);
    assert_eq!(field_mul(P - 1, P - 1), 1);
    assert_eq!(field_mul(1 << 32, 1 << 32), (1 << 32) - 1);
}

#[test]
fn standard_config_values() {
    let c = standard_config();
    assert_eq!(c.num_wires, 170);
    assert_eq!(c.num_routed_wires, 80);
    assert_eq!(c.security_bits, 100);
    assert!(!c.zero_knowledge);
    assert_eq!(c.fri_num_query_rounds, 28);
}
