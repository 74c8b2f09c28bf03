//! Supply, release schedules and the distribution of fees.

use crate::protocol::account::amount_of;
use crate::vec_map::VecMap;
use crate::words::Address;
use vstd::prelude::*;

verus! {

/// The fixed total supply, in the smallest unit: a thousand million at 18 decimals.
pub const TOTAL_SUPPLY: u128 = 1_000_000_000_000_000_000_000_000_000;

/// The smallest unit.
pub const MINIMUM_UNIT: u128 = 1;

/// What is set aside for validators.
pub const VALIDATOR_ALLOCATION: u128 = 350_000_000_000_000_000_000_000_000;

/// What is set aside for the ecosystem.
pub const ECOSYSTEM_ALLOCATION: u128 = 100_000_000_000_000_000_000_000_000;

/// What is set aside for the airdrop.
pub const AIRDROP_ALLOCATION: u128 = 50_000_000_000_000_000_000_000_000;

/// What was allocated before the start.
pub const HISTORICAL_ALLOCATION: u128 = 500_000_000_000_000_000_000_000_000;

/// Who gets what of the total supply.
#[derive(Clone, Copy, Debug)]
pub struct Distribution {
    pub validator_rewards: u128,
    pub ecosystem_fund: u128,
    pub community_airdrop: u128,
    pub historical_allocation: u128,
}

impl Distribution {
    /// The sum of all parts.
    pub open spec fn sum(self) -> int {
        self.validator_rewards + self.ecosystem_fund + self.community_airdrop
            + self.historical_allocation
    }

    /// The distribution at the start, which adds up to the total supply.
    pub fn genesis() -> (r: Self)
        ensures
            r == (Distribution {
                validator_rewards: VALIDATOR_ALLOCATION,
                ecosystem_fund: ECOSYSTEM_ALLOCATION,
                community_airdrop: AIRDROP_ALLOCATION,
                historical_allocation: HISTORICAL_ALLOCATION,
            }),
            r.sum() == TOTAL_SUPPLY,
    {
        Distribution {
            validator_rewards: VALIDATOR_ALLOCATION,
            ecosystem_fund: ECOSYSTEM_ALLOCATION,
            community_airdrop: AIRDROP_ALLOCATION,
            historical_allocation: HISTORICAL_ALLOCATION,
        }
    }

    pub fn total(&self) -> (r: u128)
        requires
            self.sum() <= u128::MAX,
        ensures
            r == self.sum(),
    {
        self.validator_rewards + self.ecosystem_fund + self.community_airdrop
            + self.historical_allocation
    }
}

/// Over how many years the validators' part is released.
pub const VALIDATOR_RELEASE_YEARS: u64 = 8;

/// Blocks in a year, at four blocks a second.
pub const BLOCKS_PER_YEAR: u64 = 126_144_000;

/// The part of the airdrop that is released at the start, in percent.
pub const AIRDROP_INITIAL_PCT: u128 = 30;

/// Over how many months the rest of the airdrop is released.
pub const AIRDROP_VESTING_MONTHS: u64 = 24;

/// Blocks in a month.
pub const BLOCKS_PER_MONTH: u64 = BLOCKS_PER_YEAR / 12;

/// What validators have been released after so many blocks: an eighth for each full year, up to
/// everything.
pub open spec fn validator_released(blocks: int) -> int {
    let yearly = VALIDATOR_ALLOCATION as int / VALIDATOR_RELEASE_YEARS as int;
    let due = (blocks / BLOCKS_PER_YEAR as int) * yearly;
    if due < VALIDATOR_ALLOCATION {
        due
    } else {
        VALIDATOR_ALLOCATION as int
    }
}

/// What has been released of the airdrop after so many blocks: a first part at once, then an equal
/// part for each full month, up to everything.
pub open spec fn airdrop_released(blocks: int) -> int {
    let first = AIRDROP_ALLOCATION * AIRDROP_INITIAL_PCT / 100;
    let rest = AIRDROP_ALLOCATION - first;
    let due = (blocks / BLOCKS_PER_MONTH as int) * (rest / AIRDROP_VESTING_MONTHS as int);
    first + if due < rest {
        due
    } else {
        rest
    }
}

pub fn calculate_validator_rewards_released(blocks_elapsed: u64) -> (r: u128)
    ensures
        r == validator_released(blocks_elapsed as int),
{
    let years: u128 = blocks_elapsed as u128 / BLOCKS_PER_YEAR as u128;
    let yearly: u128 = VALIDATOR_ALLOCATION / VALIDATOR_RELEASE_YEARS as u128;
    proof {
        assert(BLOCKS_PER_YEAR == 126_144_000);
        assert(VALIDATOR_RELEASE_YEARS == 8);
        assert(yearly == VALIDATOR_ALLOCATION as int / 8);
        assert(years == blocks_elapsed as int / 126_144_000);
        assert(years * yearly <= 0x3fff_ffff_ffff * 43_750_000_000_000_000_000_000_000)
            by (nonlinear_arith)
            requires
                years <= 0x3fff_ffff_ffff,
                yearly <= 43_750_000_000_000_000_000_000_000,
        ;
    }
    let due: u128 = years * yearly;
    if due < VALIDATOR_ALLOCATION {
        due
    } else {
        VALIDATOR_ALLOCATION
    }
}

pub fn calculate_airdrop_released(blocks_elapsed: u64) -> (r: u128)
    ensures
        r == airdrop_released(blocks_elapsed as int),
{
    let first: u128 = AIRDROP_ALLOCATION * AIRDROP_INITIAL_PCT / 100;
    let rest: u128 = AIRDROP_ALLOCATION - first;
    let monthly: u128 = rest / AIRDROP_VESTING_MONTHS as u128;
    let months: u128 = blocks_elapsed as u128 / BLOCKS_PER_MONTH as u128;
    proof {
        assert(BLOCKS_PER_MONTH == 10_512_000);
        assert(AIRDROP_VESTING_MONTHS == 24);
        assert(months == blocks_elapsed as int / 10_512_000);
        assert(months * monthly <= 0x3fff_ffff_ffff * 2_000_000_000_000_000_000_000_000)
            by (nonlinear_arith)
            requires
                months <= 0x3fff_ffff_ffff,
                monthly <= 2_000_000_000_000_000_000_000_000,
        ;
    }
    let due: u128 = months * monthly;
    let vested: u128 = if due < rest {
        due
    } else {
        rest
    };
    first + vested
}

/// Releases never shrink and never exceed what was set aside.
pub proof fn law_releases_are_monotone_and_bounded(earlier: u64, later: u64)
    requires
        earlier <= later,
    ensures
        validator_released(earlier as int) <= validator_released(later as int)
            <= VALIDATOR_ALLOCATION,
        airdrop_released(earlier as int) <= airdrop_released(later as int) <= AIRDROP_ALLOCATION,
{
    let y1 = earlier as int / BLOCKS_PER_YEAR as int;
    let y2 = later as int / BLOCKS_PER_YEAR as int;
    vstd::arithmetic::div_mod::lemma_div_is_ordered(
        earlier as int,
        later as int,
        BLOCKS_PER_YEAR as int,
    );
    let yearly = VALIDATOR_ALLOCATION as int / VALIDATOR_RELEASE_YEARS as int;
    assert(yearly >= 0) by (nonlinear_arith)
        requires
            yearly == VALIDATOR_ALLOCATION as int / VALIDATOR_RELEASE_YEARS as int,
            VALIDATOR_RELEASE_YEARS == 8,
            VALIDATOR_ALLOCATION >= 0,
    ;
    assert(y1 * yearly <= y2 * yearly) by (nonlinear_arith)
        requires
            y1 <= y2,
            yearly >= 0,
    ;
    let m1 = earlier as int / BLOCKS_PER_MONTH as int;
    let m2 = later as int / BLOCKS_PER_MONTH as int;
    vstd::arithmetic::div_mod::lemma_div_is_ordered(
        earlier as int,
        later as int,
        BLOCKS_PER_MONTH as int,
    );
    let first = AIRDROP_ALLOCATION * AIRDROP_INITIAL_PCT / 100;
    let rest = AIRDROP_ALLOCATION - first;
    let monthly = rest / AIRDROP_VESTING_MONTHS as int;
    assert(m1 * monthly <= m2 * monthly) by (nonlinear_arith)
        requires
            m1 <= m2,
            monthly >= 0,
    ;
}

/// Who gets what of the fees of a block.
#[derive(Debug)]
pub struct FeeDistribution {
    pub burn: u128,
    pub validator_rewards: Vec<(Address, u128)>,
    pub proposer_reward: u128,
    pub proposer: Address,
    pub treasury: u128,
}

/// The sum of all stakes.
pub open spec fn total_stake(stakes: Seq<(Address, u128)>) -> int
    decreases stakes.len(),
{
    if stakes.len() == 0 {
        0
    } else {
        total_stake(stakes.drop_last()) + stakes.last().1
    }
}

/// The part of `pool` that goes to a stake out of `total`. A product that outgrows 128 bits counts
/// as the largest that fits.
pub open spec fn share(pool: int, stake: int, total: int) -> int {
    if total > 0 {
        (if pool * stake > u128::MAX {
            u128::MAX as int
        } else {
            pool * stake
        }) / total
    } else {
        0
    }
}

/// Every validator with its part of `pool`.
pub open spec fn shares(pool: int, stakes: Seq<(Address, u128)>) -> Seq<(Address, u128)> {
    Seq::new(
        stakes.len(),
        |i: int| (stakes[i].0, share(pool, stakes[i].1 as int, total_stake(stakes)) as u128),
    )
}

fn sum_stakes(stakes: &[(Address, u128)]) -> (r: u128)
    requires
        total_stake(stakes@) <= u128::MAX,
    ensures
        r == total_stake(stakes@),
{
    let mut sum: u128 = 0;
    let mut i: usize = 0;
    while i < stakes.len()
        invariant
            i <= stakes@.len(),
            total_stake(stakes@) <= u128::MAX,
            sum == total_stake(stakes@.subrange(0, i as int)),
        decreases stakes@.len() - i,
    {
        proof {
            assert(stakes@.subrange(0, i + 1).drop_last() =~= stakes@.subrange(0, i as int));
            lemma_prefix_stake(stakes@, i + 1);
        }
        sum = sum + stakes[i].1;
        i += 1;
    }
    proof {
        assert(stakes@.subrange(0, stakes@.len() as int) =~= stakes@);
    }
    sum
}

proof fn lemma_prefix_stake(stakes: Seq<(Address, u128)>, i: int)
    requires
        0 <= i <= stakes.len(),
    ensures
        0 <= total_stake(stakes.subrange(0, i)) <= total_stake(stakes),
    decreases stakes.len() - i,
{
    if i < stakes.len() {
        lemma_prefix_stake(stakes, i + 1);
        assert(stakes.subrange(0, i + 1).drop_last() =~= stakes.subrange(0, i));
    } else {
        assert(stakes.subrange(0, i) =~= stakes);
    }
    lemma_stake_not_negative(stakes.subrange(0, i));
}

proof fn lemma_stake_not_negative(stakes: Seq<(Address, u128)>)
    ensures
        total_stake(stakes) >= 0,
    decreases stakes.len(),
{
    if stakes.len() > 0 {
        lemma_stake_not_negative(stakes.drop_last());
    }
}

fn compute_share(pool: u128, stake: u128, total: u128) -> (r: u128)
    ensures
        r == share(pool as int, stake as int, total as int),
{
    if total > 0 {
        match pool.checked_mul(stake) {
            Some(v) => v / total,
            None => u128::MAX / total,
        }
    } else {
        0
    }
}

fn compute_shares(pool: u128, stakes: &[(Address, u128)]) -> (r: Vec<(Address, u128)>)
    requires
        total_stake(stakes@) <= u128::MAX,
    ensures
        r@ == shares(pool as int, stakes@),
{
    let total: u128 = sum_stakes(stakes);
    let mut out: Vec<(Address, u128)> = Vec::new();
    let mut i: usize = 0;
    while i < stakes.len()
        invariant
            i <= stakes@.len(),
            total == total_stake(stakes@),
            out@ == shares(pool as int, stakes@).subrange(0, i as int),
        decreases stakes@.len() - i,
    {
        out.push((stakes[i].0, compute_share(pool, stakes[i].1, total)));
        proof {
            let all = shares(pool as int, stakes@);
            assert(all.subrange(0, i + 1) =~= all.subrange(0, i as int).push(all[i as int]));
        }
        i += 1;
    }
    proof {
        let all = shares(pool as int, stakes@);
        assert(all.subrange(0, all.len() as int) =~= all);
    }
    out
}

/// Distributes fees in the native asset: half of the base fees is burned, the other half goes to
/// the validators by stake; the priority fees go to the proposer.
pub fn distribute_call_fee(
    base_fee_total: u128,
    priority_fee_total: u128,
    proposer: Address,
    validator_stakes: &[(Address, u128)],
) -> (r: FeeDistribution)
    requires
        total_stake(validator_stakes@) <= u128::MAX,
    ensures
        r.burn == base_fee_total / 2,
        r.validator_rewards@ == shares(base_fee_total - r.burn, validator_stakes@),
        r.proposer_reward == priority_fee_total,
        r.proposer == proposer,
        r.treasury == 0,
{
    let burn: u128 = base_fee_total / 2;
    FeeDistribution {
        burn,
        validator_rewards: compute_shares(base_fee_total - burn, validator_stakes),
        proposer_reward: priority_fee_total,
        proposer,
        treasury: 0,
    }
}

/// Distributes fees in a stablecoin: half of the base fees goes to the treasury, the other half to
/// the validators by stake; the priority fees go to the proposer.
pub fn distribute_stablecoin_fee(
    base_fee_total: u128,
    priority_fee_total: u128,
    proposer: Address,
    validator_stakes: &[(Address, u128)],
) -> (r: FeeDistribution)
    requires
        total_stake(validator_stakes@) <= u128::MAX,
    ensures
        r.burn == 0,
        r.validator_rewards@ == shares(base_fee_total - r.treasury, validator_stakes@),
        r.proposer_reward == priority_fee_total,
        r.proposer == proposer,
        r.treasury == base_fee_total / 2,
{
    let treasury: u128 = base_fee_total / 2;
    FeeDistribution {
        burn: 0,
        validator_rewards: compute_shares(base_fee_total - treasury, validator_stakes),
        proposer_reward: priority_fee_total,
        proposer,
        treasury,
    }
}

proof fn lemma_shares_bound(pool: int, stakes: Seq<(Address, u128)>, total: int)
    requires
        0 <= pool <= u128::MAX,
        0 < total <= u128::MAX,
    ensures
        ({
            let given = Seq::new(
                stakes.len(),
                |i: int| (stakes[i].0, share(pool, stakes[i].1 as int, total) as u128),
            );
            0 <= total_stake(given) * total <= pool * total_stake(stakes)
        }),
    decreases stakes.len(),
{
    let given = Seq::new(
        stakes.len(),
        |i: int| (stakes[i].0, share(pool, stakes[i].1 as int, total) as u128),
    );
    if stakes.len() > 0 {
        let before = stakes.drop_last();
        lemma_shares_bound(pool, before, total);
        let given_before = Seq::new(
            before.len(),
            |i: int| (before[i].0, share(pool, before[i].1 as int, total) as u128),
        );
        assert(given.drop_last() =~= given_before);
        let s = stakes.last().1 as int;
        let product = pool * s;
        assert(product >= 0) by (nonlinear_arith)
            requires
                pool >= 0,
                s >= 0,
                product == pool * s,
        ;
        let capped = if product > u128::MAX {
            u128::MAX as int
        } else {
            product
        };
        let q = capped / total;
        assert(0 <= q * total <= capped && 0 <= q <= capped) by (nonlinear_arith)
            requires
                q == capped / total,
                total > 0,
                capped >= 0,
        ;
        assert(given.last().1 == q);
        let a = total_stake(given_before);
        let b = total_stake(before);
        assert((a + q) * total == a * total + q * total) by (nonlinear_arith);
        assert(pool * (b + s) == pool * b + pool * s) by (nonlinear_arith);
    } else {
        assert(total_stake(given) == 0);
        assert(total_stake(stakes) == 0);
    }
}

/// What validators are given out of a pool is no more than the pool.
pub proof fn law_rewards_within_pool(pool: u128, stakes: Seq<(Address, u128)>)
    requires
        total_stake(stakes) <= u128::MAX,
    ensures
        0 <= total_stake(shares(pool as int, stakes)) <= pool,
{
    let total = total_stake(stakes);
    lemma_stake_not_negative(stakes);
    if total > 0 {
        lemma_shares_bound(pool as int, stakes, total);
        let given = total_stake(shares(pool as int, stakes));
        assert(0 <= given <= pool) by (nonlinear_arith)
            requires
                0 <= given * total <= pool * total,
                total > 0,
        ;
    } else {
        lemma_no_shares(shares(pool as int, stakes));
    }
}

/// What is burned or set aside of the base fees and what validators are given is together no more
/// than the base fees.
pub proof fn law_base_fees_suffice(base_fee_total: u128, stakes: Seq<(Address, u128)>)
    requires
        total_stake(stakes) <= u128::MAX,
    ensures
        base_fee_total / 2 + total_stake(shares(base_fee_total - base_fee_total / 2, stakes))
            <= base_fee_total,
{
    law_rewards_within_pool((base_fee_total - base_fee_total / 2) as u128, stakes);
}

proof fn lemma_no_shares(given: Seq<(Address, u128)>)
    requires
        forall|i: int| 0 <= i < given.len() ==> (#[trigger] given[i]).1 == 0,
    ensures
        total_stake(given) == 0,
    decreases given.len(),
{
    if given.len() > 0 {
        let before = given.drop_last();
        assert forall|i: int| 0 <= i < before.len() implies (#[trigger] before[i]).1 == 0 by {
            assert(before[i] == given[i]);
        }
        lemma_no_shares(before);
    }
}

/// Fees of a block, by currency.
#[derive(Debug)]
pub struct BlockFeeAggregator {
    pub call_base_fee: u128,
    pub call_priority_fee: u128,
    pub stablecoin_fees: VecMap<u64, u128>,
}

/// What a block has collected.
#[verifier::ext_equal]
pub struct BlockFees {
    pub call_base_fee: u128,
    pub call_priority_fee: u128,
    pub stablecoin_fees: Map<u64, u128>,
}

impl View for BlockFeeAggregator {
    type V = BlockFees;

    open spec fn view(&self) -> BlockFees {
        BlockFees {
            call_base_fee: self.call_base_fee,
            call_priority_fee: self.call_priority_fee,
            stablecoin_fees: self.stablecoin_fees@,
        }
    }
}

/// A block that has collected nothing.
pub open spec fn no_fees() -> BlockFees {
    BlockFees { call_base_fee: 0, call_priority_fee: 0, stablecoin_fees: Map::empty() }
}

/// A fee in a stablecoin is added to what was collected in it.
pub open spec fn stablecoin_fee_effect(f: BlockFees, asset_id: u64, amount: u128) -> BlockFees {
    BlockFees {
        stablecoin_fees: f.stablecoin_fees.insert(
            asset_id,
            (amount_of(f.stablecoin_fees, asset_id) + amount) as u128,
        ),
        ..f
    }
}

/// What a block has collected after fees in stablecoins, each an asset and an amount.
pub open spec fn fees_after(fees: Seq<(u64, u128)>) -> BlockFees
    decreases fees.len(),
{
    if fees.len() == 0 {
        no_fees()
    } else {
        let (asset_id, amount) = fees.last();
        stablecoin_fee_effect(fees_after(fees.drop_last()), asset_id, amount)
    }
}

/// Whether one of the fees is in an asset.
pub open spec fn paid_in(fees: Seq<(u64, u128)>, asset_id: u64) -> bool {
    exists|i: int| 0 <= i < fees.len() && (#[trigger] fees[i]).0 == asset_id
}

/// What a fee adds in an asset.
pub open spec fn fee_in(asset_id: u64) -> spec_fn((u64, u128), int) -> int {
    |fee: (u64, u128), sum: int| if fee.0 == asset_id { sum + fee.1 } else { sum }
}

/// What the fees in an asset come to.
pub open spec fn fee_sum(fees: Seq<(u64, u128)>, asset_id: u64) -> int {
    fees.fold_right(fee_in(asset_id), 0int)
}

proof fn lemma_fee_sum(fees: Seq<(u64, u128)>, asset_id: u64)
    requires
        fees.len() > 0,
    ensures
        fee_sum(fees, asset_id) == fee_sum(fees.drop_last(), asset_id) + if fees.last().0
            == asset_id {
            fees.last().1 as int
        } else {
            0
        },
{
    lemma_fold_shifts(fees.drop_last(), asset_id, fee_in(asset_id)(fees.last(), 0int));
}

proof fn lemma_fold_shifts(fees: Seq<(u64, u128)>, asset_id: u64, start: int)
    ensures
        fees.fold_right(fee_in(asset_id), start) == fee_sum(fees, asset_id) + start,
    decreases fees.len(),
{
    if fees.len() > 0 {
        let f = fee_in(asset_id);
        lemma_fold_shifts(fees.drop_last(), asset_id, f(fees.last(), start));
        lemma_fold_shifts(fees.drop_last(), asset_id, f(fees.last(), 0int));
    }
}

proof fn lemma_fee_sum_not_negative(fees: Seq<(u64, u128)>, asset_id: u64)
    ensures
        fee_sum(fees, asset_id) >= 0,
    decreases fees.len(),
{
    if fees.len() > 0 {
        lemma_fee_sum(fees, asset_id);
        lemma_fee_sum_not_negative(fees.drop_last(), asset_id);
    }
}

/// After fees in stablecoins a block has, for every asset that one of them was in and for no other,
/// what the fees in it come to; the fees in the native asset stay nothing.
pub proof fn law_fees_add_up(fees: Seq<(u64, u128)>)
    requires
        forall|id: u64| #[trigger] fee_sum(fees, id) <= u128::MAX,
    ensures
        ({
            let f = fees_after(fees);
            &&& f.call_base_fee == 0
            &&& f.call_priority_fee == 0
            &&& forall|id: u64| #[trigger]
                f.stablecoin_fees.contains_key(id) <==> paid_in(fees, id)
            &&& forall|id: u64| #[trigger]
                f.stablecoin_fees.contains_key(id) ==> f.stablecoin_fees[id] == fee_sum(fees, id)
        }),
    decreases fees.len(),
{
    if fees.len() > 0 {
        let rest = fees.drop_last();
        let (last, amount) = fees.last();
        assert forall|id: u64| #[trigger] fee_sum(rest, id) <= u128::MAX by {
            lemma_fee_sum(fees, id);
            assert(fee_sum(fees, id) <= u128::MAX);
        }
        law_fees_add_up(rest);
        let before = fees_after(rest).stablecoin_fees;
        let after = fees_after(fees).stablecoin_fees;
        assert forall|id: u64| #[trigger] after.contains_key(id) <==> paid_in(fees, id) by {
            if paid_in(rest, id) {
                let i = choose|i: int| 0 <= i < rest.len() && (#[trigger] rest[i]).0 == id;
                assert(fees[i].0 == id);
            }
            if paid_in(fees, id) && id != last {
                let i = choose|i: int| 0 <= i < fees.len() && (#[trigger] fees[i]).0 == id;
                assert(rest[i].0 == id);
            }
            assert(fees[fees.len() - 1].0 == last);
            assert(before.contains_key(id) <==> paid_in(rest, id));
        }
        assert forall|id: u64| #[trigger] after.contains_key(id) implies after[id] == fee_sum(
            fees,
            id,
        ) by {
            lemma_fee_sum(fees, id);
            lemma_fee_sum_not_negative(rest, id);
            assert(fee_sum(fees, id) <= u128::MAX);
            if !before.contains_key(id) {
                lemma_unpaid(rest, id);
            }
        }
    }
}

proof fn lemma_unpaid(fees: Seq<(u64, u128)>, id: u64)
    requires
        !paid_in(fees, id),
    ensures
        fee_sum(fees, id) == 0,
    decreases fees.len(),
{
    if fees.len() > 0 {
        let rest = fees.drop_last();
        lemma_fee_sum(fees, id);
        assert(fees[fees.len() - 1].0 != id);
        assert forall|i: int| 0 <= i < rest.len() implies (#[trigger] rest[i]).0 != id by {
            assert(fees[i].0 != id);
        }
        lemma_unpaid(rest, id);
    }
}

/// What a block has collected does not depend on the order of the fees.
pub proof fn law_fees_in_any_order(fees: Seq<(u64, u128)>, others: Seq<(u64, u128)>)
    requires
        fees.to_multiset() == others.to_multiset(),
        forall|id: u64| #[trigger] fee_sum(fees, id) <= u128::MAX,
    ensures
        fees_after(fees) == fees_after(others),
{
    assert forall|id: u64| #[trigger] fee_sum(others, id) == fee_sum(fees, id) by {
        vstd::seq_lib::lemma_fold_right_permutation(fees, others, fee_in(id), 0int);
    }
    law_fees_add_up(fees);
    law_fees_add_up(others);
    let a = fees_after(fees).stablecoin_fees;
    let b = fees_after(others).stablecoin_fees;
    assert forall|id: u64| #[trigger] a.contains_key(id) <==> b.contains_key(id) by {
        lemma_paid_in_multiset(fees, id);
        lemma_paid_in_multiset(others, id);
    }
    assert forall|id: u64| #[trigger] a.contains_key(id) implies a[id] == b[id] by {
        assert(b.contains_key(id));
        assert(fee_sum(others, id) == fee_sum(fees, id));
    }
    assert(a =~= b);
}

proof fn lemma_paid_in_multiset(fees: Seq<(u64, u128)>, id: u64)
    ensures
        paid_in(fees, id) <==> exists|amount: u128| #[trigger]
            fees.to_multiset().count((id, amount)) > 0,
{
    broadcast use vstd::seq_lib::group_to_multiset_ensures;

    if paid_in(fees, id) {
        let i = choose|i: int| 0 <= i < fees.len() && (#[trigger] fees[i]).0 == id;
        assert(fees.contains((id, fees[i].1)));
        assert(fees.to_multiset().count((id, fees[i].1)) > 0);
    }
    if exists|amount: u128| #[trigger] fees.to_multiset().count((id, amount)) > 0 {
        let amount = choose|amount: u128| #[trigger] fees.to_multiset().count((id, amount)) > 0;
        assert(fees.contains((id, amount)));
    }
}

impl BlockFeeAggregator {
    pub fn new() -> (r: Self)
        ensures
            r@ == no_fees(),
    {
        BlockFeeAggregator {
            call_base_fee: 0,
            call_priority_fee: 0,
            stablecoin_fees: VecMap::new(),
        }
    }

    pub fn add_call_fee(&mut self, base: u128, priority: u128)
        requires
            old(self).call_base_fee + base <= u128::MAX,
            old(self).call_priority_fee + priority <= u128::MAX,
        ensures
            final(self).call_base_fee == old(self).call_base_fee + base,
            final(self).call_priority_fee == old(self).call_priority_fee + priority,
            final(self).stablecoin_fees == old(self).stablecoin_fees,
    {
        self.call_base_fee = self.call_base_fee + base;
        self.call_priority_fee = self.call_priority_fee + priority;
    }

    pub fn add_stablecoin_fee(&mut self, asset_id: u64, amount: u128)
        requires
            amount_of(old(self).stablecoin_fees@, asset_id) + amount <= u128::MAX,
        ensures
            final(self)@ == stablecoin_fee_effect(old(self)@, asset_id, amount),
    {
        let before: u128 = match self.stablecoin_fees.get(asset_id) {
            Some(v) => *v,
            None => 0,
        };
        self.stablecoin_fees.insert(asset_id, before + amount);
    }
}

/// Whether what circulates, what is burned and what is not yet released make up the total supply.
pub fn verify_supply_invariant(
    circulating: u128,
    burned: u128,
    validator_unreleased: u128,
    airdrop_unvested: u128,
) -> (r: bool)
    requires
        circulating + burned + validator_unreleased + airdrop_unvested <= u128::MAX,
    ensures
        r == (circulating + burned + validator_unreleased + airdrop_unvested == TOTAL_SUPPLY),
{
    circulating + burned + validator_unreleased + airdrop_unvested == TOTAL_SUPPLY
}

} // verus!
