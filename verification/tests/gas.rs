use callchain::protocol::gas::{update_base_fee, FeeParams, MIN_PRIORITY_FEE_PER_GAS};

#[test]
fn test_min_priority_fee_constant() {
    assert_eq!(MIN_PRIORITY_FEE_PER_GAS, 1);
}

#[test]
fn test_fee_params_default() {
    let p = FeeParams::default();
    assert_eq!(p.base_fee, 10);
    assert_eq!(p.target_gas_per_block, 10_000_000);
    assert_eq!(p.max_gas_per_block, 20_000_000);
    assert_eq!(p.adjustment_coefficient, 1);
    assert_eq!(p.min_base_fee, 1);
    assert_eq!(p.max_base_fee, 1_000_000_000);
    assert_eq!(p.initial_base_fee, 10);
    assert_eq!(p.oracle_fee_share_bps, 100);
    assert_eq!(p.validator_fee_share_bps, 0);
}

#[test]
fn test_update_base_fee_no_change_when_exact_target() {
    let mut p = FeeParams::default();
    let target = p.target_gas_per_block;
    update_base_fee(&mut p, target);
    assert_eq!(p.base_fee, 10);
}

#[test]
fn test_update_base_fee_increases_when_above_target() {
    let mut p = FeeParams {
        base_fee: 80,
        ..FeeParams::default()
    };
    let target = p.target_gas_per_block;
    update_base_fee(&mut p, target + 5_000_000);
    // diff = 5M, increase = 80 * 5M / 80M = 5
    assert!(p.base_fee > 80, "base fee should increase when gas_used > target");
}

#[test]
fn test_update_base_fee_decreases_when_below_target() {
    let mut p = FeeParams {
        base_fee: 80,
        ..FeeParams::default()
    };
    let target = p.target_gas_per_block;
    update_base_fee(&mut p, target - 5_000_000);
    // diff = -5M, decrease = 80 * 5M / 80M = 5
    assert!(p.base_fee < 80, "base fee should decrease when gas_used < target");
}

#[test]
fn test_update_base_fee_clamps_to_max() {
    let mut p = FeeParams {
        base_fee: 999_999_990,
        target_gas_per_block: 10_000_000,
        max_gas_per_block: 20_000_000,
        adjustment_coefficient: 1,
        min_base_fee: 1,
        max_base_fee: 1_000_000_000,
        initial_base_fee: 10,
        oracle_fee_share_bps: 0,
        validator_fee_share_bps: 0,
    };
    update_base_fee(&mut p, 20_000_000); // max gas
    assert_eq!(p.base_fee, 1_000_000_000, "base fee should clamp to max_base_fee");
}

#[test]
fn test_update_base_fee_clamps_to_min() {
    let mut p = FeeParams {
        base_fee: 2,
        target_gas_per_block: 10_000_000,
        max_gas_per_block: 20_000_000,
        adjustment_coefficient: 8, // max coefficient so decrease = 2 * 10M * 8 / 80M = 2
        min_base_fee: 1,
        max_base_fee: 1_000_000_000,
        initial_base_fee: 10,
        oracle_fee_share_bps: 0,
        validator_fee_share_bps: 0,
    };
    update_base_fee(&mut p, 0); // zero gas
    assert_eq!(p.base_fee, 1, "base fee should clamp to min_base_fee");
}

#[test]
fn test_update_base_fee_zero_gas_used() {
    let mut p = FeeParams::default();
    update_base_fee(&mut p, 0);
    // base_fee * (1 - target/target * 1/8) = base_fee * 7/8
    assert_eq!(p.base_fee, 9, "10 * 7/8 = 8.75 floored to 9 via i128 math");
}

#[test]
fn test_update_base_fee_max_gas_used() {
    let mut p = FeeParams::default();
    let max = p.max_gas_per_block;
    update_base_fee(&mut p, max);
    // diff = 10M, numerator = 10M, denominator = 80M
    // increase = 10 * 10M / 80M = 1.25 -> 1
    assert_eq!(p.base_fee, 11);
}

#[test]
fn test_update_base_fee_double_target() {
    let mut p = FeeParams::default();
    // gas_used = 2 * target
    update_base_fee(&mut p, 20_000_000);
    // diff = 10M, increase = 10 * 10M / 80M = 1
    assert_eq!(p.base_fee, 11);
}

#[test]
fn test_update_base_fee_half_target() {
    let mut p = FeeParams::default();
    update_base_fee(&mut p, 5_000_000);
    // diff = -5M, decrease = 10 * 5M / 80M = 0
    assert_eq!(p.base_fee, 10);
}

#[test]
fn test_update_base_fee_with_higher_coefficient() {
    let mut p = FeeParams {
        base_fee: 80,
        target_gas_per_block: 10_000_000,
        max_gas_per_block: 20_000_000,
        adjustment_coefficient: 2,
        min_base_fee: 1,
        max_base_fee: 1_000_000_000,
        initial_base_fee: 10,
        oracle_fee_share_bps: 0,
        validator_fee_share_bps: 0,
    };
    update_base_fee(&mut p, 20_000_000);
    // diff = 10M, numerator = 20M, denominator = 80M
    // increase = 80 * 20M / 80M = 20
    assert_eq!(p.base_fee, 100);
}

#[test]
fn test_consecutive_blocks_converge_to_target() {
    let mut p = FeeParams {
        base_fee: 1_000,
        target_gas_per_block: 10_000_000,
        max_gas_per_block: 20_000_000,
        adjustment_coefficient: 1,
        min_base_fee: 1,
        max_base_fee: 1_000_000_000,
        initial_base_fee: 10,
        oracle_fee_share_bps: 0,
        validator_fee_share_bps: 0,
    };

    // Two full blocks in a row
    update_base_fee(&mut p, 20_000_000);
    let after_first = p.base_fee;
    update_base_fee(&mut p, 20_000_000);
    let after_second = p.base_fee;
    assert!(after_second > after_first, "fee should keep rising with full blocks");

    // Then two empty blocks
    update_base_fee(&mut p, 0);
    let after_empty = p.base_fee;
    assert!(after_empty < after_second, "fee should drop with empty blocks");

    update_base_fee(&mut p, 0);
    let after_empty2 = p.base_fee;
    assert!(after_empty2 < after_empty, "fee should keep dropping");
}

#[test]
fn test_base_fee_never_overflows_or_panics() {
    let mut p = FeeParams {
        base_fee: u128::MAX / 2,
        target_gas_per_block: 10_000_000,
        max_gas_per_block: 20_000_000,
        adjustment_coefficient: 1,
        min_base_fee: 1,
        max_base_fee: u128::MAX,
        initial_base_fee: 10,
        oracle_fee_share_bps: 0,
        validator_fee_share_bps: 0,
    };
    // Should not panic despite large base_fee
    update_base_fee(&mut p, 20_000_000);
    // Because of saturating_mul, the result should be clamped reasonably
    assert!(p.base_fee >= 1);
}

#[test]
fn test_base_fee_stability_at_target() {
    let mut p = FeeParams::default();
    let target = p.target_gas_per_block;
    // Run many blocks exactly at target
    for _ in 0..100 {
        update_base_fee(&mut p, target);
    }
    assert_eq!(p.base_fee, 10, "fee should remain stable when demand = target");
}

#[test]
fn base_fee_follows_demand_exactly() {
    let mut p = FeeParams { base_fee: 1000, ..FeeParams::default() };
    p.max_base_fee = 1_000_000;
    update_base_fee(&mut p, 15_000_000);
    assert_eq!(p.base_fee, 1062);
    update_base_fee(&mut p, 5_000_000);
    assert_eq!(p.base_fee, 996);
}

#[test]
fn base_fee_stays_within_bounds() {
    let mut p = FeeParams { base_fee: 990, max_base_fee: 1000, ..FeeParams::default() };
    update_base_fee(&mut p, 20_000_000);
    assert_eq!(p.base_fee, 1000);
    let mut p = FeeParams { base_fee: 1000, min_base_fee: 950, ..FeeParams::default() };
    p.max_base_fee = 2000;
    update_base_fee(&mut p, 0);
    assert_eq!(p.base_fee, 950);
}
