//! Fee parameters and the adjustment of the base fee to demand.

use vstd::prelude::*;

verus! {

/// The least priority fee per unit of gas.
pub const MIN_PRIORITY_FEE_PER_GAS: u128 = 1;

/// Parameters of the fee market.
#[derive(Clone, Copy, Debug)]
pub struct FeeParams {
    /// The current base fee.
    pub base_fee: u128,
    /// The gas that a block should use.
    pub target_gas_per_block: u64,
    /// The gas that a block may use.
    pub max_gas_per_block: u64,
    /// How strongly the base fee reacts, in eighths.
    pub adjustment_coefficient: u128,
    pub min_base_fee: u128,
    pub max_base_fee: u128,
    pub initial_base_fee: u128,
    /// The oracle's share of block fees, in hundredths of a percent.
    pub oracle_fee_share_bps: u16,
    /// The proposer's share of block fees, in hundredths of a percent.
    pub validator_fee_share_bps: u16,
}

/// The parameters that a chain starts with.
pub open spec fn default_params() -> FeeParams {
    FeeParams {
        base_fee: 10,
        target_gas_per_block: 10_000_000,
        max_gas_per_block: 20_000_000,
        adjustment_coefficient: 1,
        min_base_fee: 1,
        max_base_fee: 1_000_000_000,
        initial_base_fee: 10,
        oracle_fee_share_bps: 100,
        validator_fee_share_bps: 0,
    }
}

impl Default for FeeParams {
    fn default() -> (r: Self)
        ensures
            r == default_params(),
    {
        FeeParams {
            base_fee: 10,
            target_gas_per_block: 10_000_000,
            max_gas_per_block: 20_000_000,
            adjustment_coefficient: 1,
            min_base_fee: 1,
            max_base_fee: 1_000_000_000,
            initial_base_fee: 10,
            oracle_fee_share_bps: 100,
            validator_fee_share_bps: 0,
        }
    }
}

/// `2^128`.
pub open spec fn modulus() -> int {
    0x1_0000_0000_0000_0000_0000_0000_0000_0000int
}

/// The signed number with the same 128 bits.
pub open spec fn as_signed(v: u128) -> int {
    if v <= i128::MAX {
        v as int
    } else {
        v - modulus()
    }
}

/// The unsigned number with the same 128 bits.
pub open spec fn as_unsigned(v: int) -> int {
    if v >= 0 {
        v
    } else {
        v + modulus()
    }
}

/// The nearest signed 128-bit number.
pub open spec fn saturated(v: int) -> int {
    if v > i128::MAX {
        i128::MAX as int
    } else if v < i128::MIN {
        i128::MIN as int
    } else {
        v
    }
}

/// Division towards zero.
pub open spec fn quotient(a: int, b: int) -> int {
    if a >= 0 {
        a / b
    } else {
        -((-a) / b)
    }
}

pub open spec fn least(a: int, b: int) -> int {
    if a <= b {
        a
    } else {
        b
    }
}

pub open spec fn greatest(a: int, b: int) -> int {
    if a >= b {
        a
    } else {
        b
    }
}

/// By how much the base fee changes when a block misses the target by `miss`.
pub open spec fn fee_step(p: FeeParams, miss: int) -> int {
    quotient(
        saturated(as_signed(p.base_fee) * (miss * as_signed(p.adjustment_coefficient))),
        p.target_gas_per_block * 8,
    )
}

/// The base fee after a block that used `gas_used`: it rises with the share by which the target was
/// exceeded, falls with the share by which it was missed, and stays within its bounds.
pub open spec fn next_base_fee(p: FeeParams, gas_used: u64) -> int {
    let miss = gas_used - p.target_gas_per_block;
    let base = as_signed(p.base_fee);
    let floor = as_signed(p.min_base_fee);
    if miss > 0 {
        as_unsigned(
            greatest(
                least(saturated(base + fee_step(p, miss)), as_signed(p.max_base_fee)),
                floor,
            ),
        )
    } else if miss < 0 {
        as_unsigned(greatest(saturated(base - fee_step(p, -miss)), floor))
    } else {
        p.base_fee as int
    }
}

/// Whether the adjustment can be computed: the target is not zero, unless it is met, and the weight
/// of the miss fits 128 bits.
pub open spec fn adjustable(p: FeeParams, gas_used: u64) -> bool {
    let miss = gas_used - p.target_gas_per_block;
    let size = if miss >= 0 {
        miss
    } else {
        -miss
    };
    &&& gas_used > p.target_gas_per_block ==> p.target_gas_per_block > 0
    &&& i128::MIN <= size * as_signed(p.adjustment_coefficient) <= i128::MAX
}

fn to_signed(v: u128) -> (r: i128)
    ensures
        r as int == as_signed(v),
{
    if v <= i128::MAX as u128 {
        v as i128
    } else {
        -((u128::MAX - v) as i128) - 1
    }
}

fn to_unsigned(v: i128) -> (r: u128)
    ensures
        r as int == as_unsigned(v as int),
{
    if v >= 0 {
        v as u128
    } else {
        u128::MAX - (-(v + 1)) as u128
    }
}

fn saturating_product(a: i128, b: i128) -> (r: i128)
    ensures
        r as int == saturated(a * b),
{
    match a.checked_mul(b) {
        Some(v) => v,
        None => {
            proof {
                assert((a >= 0 && b >= 0 || a <= 0 && b <= 0) ==> a * b >= 0) by (nonlinear_arith);
                assert((a >= 0 && b <= 0 || a <= 0 && b >= 0) ==> a * b <= 0) by (nonlinear_arith);
            }
            if (a >= 0) == (b >= 0) {
                i128::MAX
            } else {
                i128::MIN
            }
        },
    }
}

fn saturating_total(a: i128, b: i128) -> (r: i128)
    ensures
        r as int == saturated(a + b),
{
    match a.checked_add(b) {
        Some(v) => v,
        None => if b > 0 {
            i128::MAX
        } else {
            i128::MIN
        },
    }
}

fn saturating_rest(a: i128, b: i128) -> (r: i128)
    ensures
        r as int == saturated(a - b),
{
    match a.checked_sub(b) {
        Some(v) => v,
        None => if b < 0 {
            i128::MAX
        } else {
            i128::MIN
        },
    }
}

fn divide(a: i128, b: i128) -> (r: i128)
    requires
        b > 0,
    ensures
        r as int == quotient(a as int, b as int),
{
    if a >= 0 {
        a / b
    } else {
        let size: u128 = (-(a + 1)) as u128 + 1;
        let q: u128 = size / b as u128;
        proof {
            assert(q <= size) by (nonlinear_arith)
                requires
                    q == size as int / b as int,
                    b > 0,
            ;
        }
        if q == 0 {
            0
        } else {
            -((q - 1) as i128) - 1
        }
    }
}

fn step_size(p: &FeeParams, miss: i128) -> (r: i128)
    requires
        p.target_gas_per_block > 0,
        0 <= miss,
        i128::MIN <= miss * as_signed(p.adjustment_coefficient) <= i128::MAX,
    ensures
        r as int == fee_step(*p, miss as int),
{
    let weight: i128 = miss * to_signed(p.adjustment_coefficient);
    divide(
        saturating_product(to_signed(p.base_fee), weight),
        p.target_gas_per_block as i128 * 8,
    )
}

/// Adjusts the base fee after a block.
pub fn update_base_fee(params: &mut FeeParams, gas_used: u64)
    requires
        adjustable(*old(params), gas_used),
    ensures
        final(params).base_fee as int == next_base_fee(*old(params), gas_used),
        *final(params) == (FeeParams { base_fee: final(params).base_fee, ..*old(params) }),
{
    let miss: i128 = gas_used as i128 - params.target_gas_per_block as i128;
    let base: i128 = to_signed(params.base_fee);
    let floor: i128 = to_signed(params.min_base_fee);
    if miss > 0 {
        let ceiling: i128 = to_signed(params.max_base_fee);
        let raised: i128 = saturating_total(base, step_size(params, miss));
        let capped: i128 = if raised <= ceiling {
            raised
        } else {
            ceiling
        };
        params.base_fee = to_unsigned(
            if capped >= floor {
                capped
            } else {
                floor
            },
        );
    } else if miss < 0 {
        let lowered: i128 = saturating_rest(base, step_size(params, -miss));
        params.base_fee = to_unsigned(
            if lowered >= floor {
                lowered
            } else {
                floor
            },
        );
    }
}

/// Parameters as a chain uses them: bounds in order, and every number below `2^127`.
pub open spec fn sensible(p: FeeParams) -> bool {
    &&& 0 < p.target_gas_per_block
    &&& p.min_base_fee <= p.base_fee <= p.max_base_fee <= i128::MAX
    &&& p.adjustment_coefficient <= 0xffff_ffff_ffff
}

/// The base fee stays within its bounds, whatever a block uses.
pub proof fn law_base_fee_within_bounds(p: FeeParams, gas_used: u64)
    requires
        sensible(p),
    ensures
        adjustable(p, gas_used),
        p.min_base_fee <= next_base_fee(p, gas_used) <= p.max_base_fee,
{
    lemma_step_not_negative(p, gas_used);
}

proof fn lemma_step_not_negative(p: FeeParams, gas_used: u64)
    requires
        sensible(p),
    ensures
        adjustable(p, gas_used),
        gas_used > p.target_gas_per_block ==> fee_step(p, gas_used - p.target_gas_per_block) >= 0,
        gas_used < p.target_gas_per_block ==> fee_step(p, p.target_gas_per_block - gas_used) >= 0,
{
    let miss = gas_used - p.target_gas_per_block;
    let size = if miss >= 0 {
        miss
    } else {
        -miss
    };
    let c = p.adjustment_coefficient as int;
    assert(0 <= size * c <= 0xffff_ffff_ffff_ffff * 0xffff_ffff_ffff) by (nonlinear_arith)
        requires
            0 <= size <= 0xffff_ffff_ffff_ffff,
            0 <= c <= 0xffff_ffff_ffff,
    ;
    let b = p.base_fee as int;
    assert(b * (size * c) >= 0) by (nonlinear_arith)
        requires
            b >= 0,
            size * c >= 0,
    ;
    let s = saturated(b * (size * c));
    let d = p.target_gas_per_block * 8;
    assert(s / d >= 0) by (nonlinear_arith)
        requires
            s >= 0,
            d > 0,
    ;
}

/// The base fee moves with demand: never down after a block over the target, never up after a
/// block under it, and not at all after a block that meets it.
pub proof fn law_base_fee_follows_demand(p: FeeParams, gas_used: u64)
    requires
        sensible(p),
    ensures
        gas_used > p.target_gas_per_block ==> next_base_fee(p, gas_used) >= p.base_fee,
        gas_used < p.target_gas_per_block ==> next_base_fee(p, gas_used) <= p.base_fee,
        gas_used == p.target_gas_per_block ==> next_base_fee(p, gas_used) == p.base_fee,
{
    lemma_step_not_negative(p, gas_used);
}

} // verus!
