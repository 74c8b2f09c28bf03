//! What accounts, fees, releases and registries come to, said of what goes in and what comes out.

use crate::bytes::{be_bytes, be_nat, lemma_base_values, lemma_be_bytes_len, lemma_read_of_write};
use crate::primitives::decimal;
use crate::protocol::account::{
    credit_effect, debit_effect, next_nonce, nonce_check, nonce_of, spend_effect, transfer_effect,
};
use crate::protocol::compliance::{compliance_check, ComplianceStatus};
use crate::protocol::economics::{
    airdrop_released, shares, stablecoin_fee_effect, total_stake, validator_released, BlockFees,
    BLOCKS_PER_MONTH,
};
use crate::protocol::errors::ProtocolError;
use crate::protocol::fee_currency::{call_price, entry_at, FeeCurrencyEntry, FeeCurrencyRegistry};
use crate::protocol::gas::{
    as_signed, as_unsigned, fee_step, law_base_fee_follows_demand, law_base_fee_within_bounds, next_base_fee, sensible,
    FeeParams,
};
use crate::protocol::instructions::requests::readable;
use crate::protocol::oracle::OracleBook;
use crate::protocol::receipts::{receipt_bytes, receipt_position, ProtocolReceipt};
use crate::protocol::smart_accounts::{
    approvals, finalize_effect, multisig_check, session_check, with_request, without_request,
    RecoveryRequest, SessionKeyConfig, SocialRecoveryConfig,
};
use crate::protocol::sponsor::{pool_check, usage_effect, GasSponsorAuth, GasSponsorPool, Usage};
use crate::words::{lemma_word_from_be_of_bytes, Address, U256};
use vstd::prelude::*;

verus! {

/// What is on record under a key, or nothing.
pub open spec fn on_record<K>(m: Map<K, u128>, k: K) -> int {
    if m.contains_key(k) {
        m[k] as int
    } else {
        0
    }
}

/// A transfer goes through exactly where the sender holds the amount and, unless it goes to the
/// sender, the recipient has room; it moves just the amount, and touches no other balance.
pub proof fn law_transfer_is_exact(
    m: Map<(u64, Address), u128>,
    asset_id: u64,
    from: Address,
    to: Address,
    amount: u128,
)
    ensures
        ({
            let (r, n) = transfer_effect(m, asset_id, from, to, amount);
            let a = on_record(m, (asset_id, from));
            let b = on_record(m, (asset_id, to));
            &&& r is Ok <==> a >= amount && (from == to || b + amount <= u128::MAX)
            &&& r is Err ==> n == m
            &&& r is Ok && from == to ==> n == m
            &&& r is Ok && from != to ==> n == m.insert(
                (asset_id, from),
                (a - amount) as u128,
            ).insert((asset_id, to), (b + amount) as u128)
            &&& a < amount ==> r == Err::<(), ProtocolError>(ProtocolError::InsufficientBalance)
        }),
{
}

/// A transfer between plain balances goes through exactly where the sender holds the amount; it
/// moves just the amount, and touches no other balance.
pub proof fn law_plain_transfer_is_exact(
    m: Map<(u64, Address), u128>,
    asset_id: u64,
    from: Address,
    to: Address,
    amount: u128,
)
    ensures
        ({
            let (r, n) = crate::protocol::balances::transfer_effect(m, asset_id, from, to, amount);
            let a = on_record(m, (asset_id, from));
            let b = on_record(m, (asset_id, to));
            &&& r is Ok <==> a >= amount
            &&& r is Err ==> n == m
            &&& r is Ok && from == to ==> n == m
            &&& r is Ok && from != to ==> n == m.insert(
                (asset_id, from),
                (a - amount) as u128,
            ).insert((asset_id, to), (b + amount) as u128)
        }),
{
}

/// A credit goes through exactly where the balance has room, a debit exactly where it covers the
/// amount, and spending an allowance exactly where it does; each changes just its own entry.
pub proof fn law_entries_change_exactly(
    m: Map<(u64, Address), u128>,
    allowances: Map<(u64, Address, Address), u128>,
    asset_id: u64,
    account: Address,
    spender: Address,
    amount: u128,
)
    ensures
        ({
            let (credited, more) = credit_effect(m, asset_id, account, amount);
            let (debited, less) = debit_effect(m, asset_id, account, amount);
            let (spent, left) = spend_effect(allowances, asset_id, account, spender, amount);
            let k = (asset_id, account);
            let s = (asset_id, account, spender);
            let held = on_record(m, k);
            let allowed = on_record(allowances, s);
            &&& credited is Ok <==> held + amount <= u128::MAX
            &&& more == if credited is Ok {
                m.insert(k, (held + amount) as u128)
            } else {
                m
            }
            &&& debited is Ok <==> held >= amount
            &&& less == if debited is Ok {
                m.insert(k, (held - amount) as u128)
            } else {
                m
            }
            &&& spent is Ok <==> allowed >= amount
            &&& left == if spent is Ok {
                allowances.insert(s, (allowed - amount) as u128)
            } else {
                allowances
            }
        }),
{
}

/// A nonce counts from 0, goes up by one and stays at its limit; only the one that is due is taken,
/// and any other is answered with the one that was.
pub proof fn law_nonces_are_exact(m: Map<Address, u64>, account: Address, nonce: u64)
    ensures
        ({
            let due = nonce_of(m, account);
            &&& !m.contains_key(account) ==> due == 0
            &&& m.contains_key(account) ==> due == m[account]
            &&& due < u64::MAX ==> next_nonce(due) == due + 1
            &&& next_nonce(u64::MAX) == u64::MAX
            &&& nonce_check(due, nonce) is Ok <==> nonce == due
            &&& nonce != due ==> nonce_check(due, nonce) == Err::<(), ProtocolError>(
                ProtocolError::NonceError { expected: due, got: nonce },
            )
        }),
{
}

/// Above the target the base fee rises by the part of itself that the excess is of eight times the
/// target, times the coefficient, rounded down, up to the highest fee; below it falls likewise, down
/// to the lowest; at the target it stays.
pub proof fn law_base_fee_moves_exactly(p: FeeParams, gas_used: u64)
    requires
        sensible(p),
        ({
            let miss = if gas_used >= p.target_gas_per_block {
                gas_used - p.target_gas_per_block
            } else {
                p.target_gas_per_block - gas_used
            };
            p.base_fee * (miss * p.adjustment_coefficient) <= i128::MAX
        }),
    ensures
        ({
            let next = next_base_fee(p, gas_used);
            let miss = if gas_used >= p.target_gas_per_block {
                gas_used - p.target_gas_per_block
            } else {
                p.target_gas_per_block - gas_used
            };
            let pull = p.base_fee * (miss * p.adjustment_coefficient);
            let unit = p.target_gas_per_block * 8;
            &&& gas_used > p.target_gas_per_block ==> {
                let rise = next - p.base_fee;
                &&& unit * rise <= pull
                &&& next < p.max_base_fee ==> pull < unit * rise + unit
            }
            &&& gas_used < p.target_gas_per_block ==> {
                let fall = p.base_fee - next;
                &&& unit * fall <= pull
                &&& next > p.min_base_fee ==> pull < unit * fall + unit
            }
            &&& gas_used == p.target_gas_per_block ==> next == p.base_fee
            &&& p.min_base_fee <= next <= p.max_base_fee
        }),
{
    law_base_fee_within_bounds(p, gas_used);
    law_base_fee_follows_demand(p, gas_used);
    let miss = if gas_used >= p.target_gas_per_block {
        gas_used - p.target_gas_per_block
    } else {
        p.target_gas_per_block - gas_used
    };
    let pull = p.base_fee * (miss * p.adjustment_coefficient);
    let unit = p.target_gas_per_block * 8;
    assert(pull >= 0) by (nonlinear_arith)
        requires
            pull == p.base_fee * (miss * p.adjustment_coefficient),
            miss >= 0,
    ;
    let step = pull / unit;
    assert(step >= 0 && unit * step <= pull < unit * step + unit) by (nonlinear_arith)
        requires
            unit > 0,
            pull >= 0,
            step == pull / unit,
    ;
    assert(step <= pull) by (nonlinear_arith)
        requires
            unit >= 8,
            pull >= 0,
            step == pull / unit,
    ;
    assert(fee_step(p, miss) == step);
    let next = next_base_fee(p, gas_used);
    if gas_used > p.target_gas_per_block {
        let rise = next - p.base_fee;
        assert(rise <= step);
        assert(unit * rise <= unit * step) by (nonlinear_arith)
            requires
                rise <= step,
                unit > 0,
        ;
        if next < p.max_base_fee {
            assert(rise == step);
        }
    } else if gas_used < p.target_gas_per_block {
        let fall = p.base_fee - next;
        assert(fall <= step);
        assert(unit * fall <= unit * step) by (nonlinear_arith)
            requires
                fall <= step,
                unit > 0,
        ;
        if next > p.min_base_fee {
            assert(fall == step);
        }
    }
}

/// An eighth of the validators' 350 million is released with every year of 126 144 000 blocks, until
/// all of it is.
pub proof fn law_validator_release_is_exact(blocks: u64)
    ensures
        ({
            let years = blocks as int / 126_144_000;
            validator_released(blocks as int) * 8 == 350_000_000_000_000_000_000_000_000int * if years
                < 8 {
                years
            } else {
                8
            }
        }),
{
    let years = blocks as int / 126_144_000;
    let yearly = 43_750_000_000_000_000_000_000_000int;
    assert(validator_released(blocks as int) == if years * yearly < 8 * yearly {
        years * yearly
    } else {
        8 * yearly
    });
}

/// Of the 50 million of the airdrop 15 are released at once, and a 24th of the rest, rounded down,
/// with every month of 10 512 000 blocks, until all of it is.
pub proof fn law_airdrop_release_is_exact(blocks: u64)
    ensures
        ({
            let months = blocks as int / 10_512_000;
            let later = airdrop_released(blocks as int) - 15_000_000_000_000_000_000_000_000int;
            let rest = 35_000_000_000_000_000_000_000_000int;
            &&& months <= 24 ==> 24 * later <= months * rest < 24 * later + 24 * months + 1
            &&& months > 24 ==> later == rest
        }),
{
    let months = blocks as int / 10_512_000;
    let each = 1_458_333_333_333_333_333_333_333int;
    let rest = 35_000_000_000_000_000_000_000_000int;
    assert(rest / 24 == each);
    assert(BLOCKS_PER_MONTH == 10_512_000);
    assert(airdrop_released(blocks as int) == 15_000_000_000_000_000_000_000_000int + if months * each
        < rest {
        months * each
    } else {
        rest
    });
}

/// A share of a pool is in proportion to the stake, rounded down; nothing is shared out where there
/// is no stake, and every staker gets the share of their own stake.
pub proof fn law_shares_are_exact(pool: u128, stakes: Seq<(Address, u128)>, total: int, at: int)
    requires
        0 <= at < stakes.len(),
        total == total_stake(stakes),
        0 <= total <= u128::MAX,
        pool * stakes[at].1 <= u128::MAX,
        stakes[at].1 <= total,
    ensures
        ({
            let given = shares(pool as int, stakes);
            let part = given[at].1 as int;
            &&& given.len() == stakes.len()
            &&& given[at].0 == stakes[at].0
            &&& total > 0 ==> total * part <= pool * stakes[at].1 < total * part + total
            &&& total == 0 ==> part == 0
        }),
{
    let product = pool * stakes[at].1;
    assert(product >= 0) by (nonlinear_arith)
        requires
            product == pool * stakes[at].1,
    ;
    if total > 0 {
        let q = product / total;
        assert(0 <= q <= product && total * q <= product < total * q + total) by (nonlinear_arith)
            requires
                total > 0,
                product >= 0,
                q == product / total,
        ;
    }
}

/// Stakes add up one by one, from nothing.
pub proof fn law_stakes_add_up(stakes: Seq<(Address, u128)>, more: (Address, u128))
    ensures
        total_stake(Seq::empty()) == 0,
        total_stake(stakes.push(more)) == total_stake(stakes) + more.1,
{
    assert(stakes.push(more).drop_last() =~= stakes);
}

/// A fee is read as a signed number of the same bits: one that fits stays what it is, and every one
/// is got back.
pub proof fn law_signed_fees_round_trip(v: u128)
    ensures
        v <= i128::MAX ==> as_signed(v) == v,
        i128::MIN <= as_signed(v) <= i128::MAX,
        as_unsigned(as_signed(v)) == v,
{
}

/// A fee in a currency adds just its amount to what was paid in that currency.
pub proof fn law_fee_is_added(f: BlockFees, asset_id: u64, amount: u128)
    requires
        on_record(f.stablecoin_fees, asset_id) + amount <= u128::MAX,
    ensures
        ({
            let g = stablecoin_fee_effect(f, asset_id, amount);
            &&& g.call_base_fee == f.call_base_fee
            &&& g.call_priority_fee == f.call_priority_fee
            &&& on_record(g.stablecoin_fees, asset_id) == on_record(f.stablecoin_fees, asset_id)
                + amount
            &&& g.stablecoin_fees.remove(asset_id) == f.stablecoin_fees.remove(asset_id)
        }),
{
    let g = stablecoin_fee_effect(f, asset_id, amount);
    assert(g.stablecoin_fees.remove(asset_id) =~= f.stablecoin_fees.remove(asset_id));
}

/// What a sponsor has on record as paid on a day.
pub open spec fn paid_on(usage: Map<Address, Usage>, sponsor: Address, day: u64) -> int {
    if usage.contains_key(sponsor) && usage[sponsor].1 == day {
        usage[sponsor].0 as int
    } else {
        0
    }
}

/// An authorised sponsor stands in for a fee exactly where it is registered, its authorisation has
/// not expired, it is for the sender, and, on a day on which it has paid already, the day's limit is
/// kept. The fee then counts towards that day, and nothing else on record changes.
pub proof fn law_sponsoring_is_exact(
    auths: Map<Address, GasSponsorAuth>,
    usage: Map<Address, Usage>,
    sponsor: Address,
    sender: Address,
    fee: u128,
    day: u64,
)
    requires
        paid_on(usage, sponsor, day) + fee <= u128::MAX,
    ensures
        ({
            let (r, after) = usage_effect(auths, usage, sponsor, sender, fee, day);
            let auth = auths[sponsor];
            let begun = if usage.contains_key(sponsor) {
                usage[sponsor].1 == day
            } else {
                day == 0
            };
            &&& r is Ok <==> {
                &&& auths.contains_key(sponsor)
                &&& day < auth.expires_at
                &&& auth.allowed_senders@.len() == 0 || auth.allowed_senders@.contains(sender)
                &&& !begun || paid_on(usage, sponsor, day) + fee <= auth.max_daily
            }
            &&& r is Ok ==> after == usage.insert(
                sponsor,
                ((paid_on(usage, sponsor, day) + fee) as u128, day),
            )
            &&& r is Err ==> after == usage
        }),
{
}

/// A pool stands in for a fee exactly where it exists, is for the sender, allows as much for one
/// transaction, and holds it.
pub proof fn law_pool_is_exact(
    pools: Map<Address, GasSponsorPool>,
    sponsor: Address,
    sender: Address,
    fee: u128,
)
    ensures
        ({
            let pool = pools[sponsor];
            pool_check(pools, sponsor, sender, fee) is Ok <==> {
                &&& pools.contains_key(sponsor)
                &&& pool.delegated_to@.len() == 0 || pool.delegated_to@.contains(sender)
                &&& pool.per_tx_limit == 0 || fee <= pool.per_tx_limit
                &&& fee <= pool.balance
            }
        }),
{
}

/// Signers make a multi-signature account exactly where there are 2 to 10 of them, all different, and
/// the threshold is at least one and at most their number.
pub proof fn law_signers_are_exact(signers: Seq<Address>, threshold: u32)
    ensures
        multisig_check(signers, threshold) is Ok <==> {
            &&& 2 <= signers.len() <= 10
            &&& 1 <= threshold <= signers.len()
            &&& forall|i: int, j: int|
                0 <= i < j < signers.len() ==> (#[trigger] signers[i]) != (#[trigger] signers[j])
        },
{
    if signers.no_duplicates() {
        assert forall|i: int, j: int| 0 <= i < j < signers.len() implies (#[trigger] signers[i])
            != (#[trigger] signers[j]) by {}
    }
}

/// An approval by a signer that had not approved counts for one; an approval by anybody else for
/// nothing; and without approvals nothing is approved.
pub proof fn law_approvals_add_up(signers: Seq<Address>, given: Seq<Address>, extra: Address)
    ensures
        approvals(signers, Seq::empty()) == 0,
        approvals(signers, given.push(extra)) == approvals(signers, given) + if signers.contains(
            extra,
        ) && !given.contains(extra) {
            1int
        } else {
            0
        },
        approvals(signers, given) <= signers.len(),
{
    broadcast use vstd::seq_lib::seq_to_set_is_finite;

    let all = signers.to_set();
    let old_set = all.intersect(given.to_set());
    assert(all.intersect(Seq::<Address>::empty().to_set()) =~= Set::empty());
    assert forall|a: Address| #[trigger] given.push(extra).contains(a) <==> given.contains(a) || a
        == extra by {
        if given.contains(a) {
            let i = given.index_of(a);
            assert(given.push(extra)[i] == a);
        }
        if a == extra {
            assert(given.push(extra)[given.len() as int] == a);
        }
        if given.push(extra).contains(a) {
            let i = given.push(extra).index_of(a);
            if i < given.len() {
                assert(given[i] == a);
            }
        }
    }
    let new_set = all.intersect(given.push(extra).to_set());
    if signers.contains(extra) && !given.contains(extra) {
        assert(new_set =~= old_set.insert(extra));
        assert(!old_set.contains(extra));
    } else {
        assert(new_set =~= old_set);
    }
    signers.lemma_cardinality_of_set();
    vstd::set_lib::lemma_len_subset(old_set, all);
}

/// A session key is good exactly where the account has it and it has not expired.
pub proof fn law_session_is_exact(
    accounts: Set<Address>,
    keys: Map<(Address, Address), SessionKeyConfig>,
    account: Address,
    session_key: Address,
    now: u64,
)
    ensures
        session_check(accounts, keys, account, session_key, now) is Ok <==> {
            &&& accounts.contains(account)
            &&& keys.contains_key((account, session_key))
            &&& now <= keys[(account, session_key)].expires_at
        },
{
}

/// A recovery hands out the key that was asked for exactly where one is pending, and leaves none
/// pending; no other account and nothing else of this one changes.
pub proof fn law_recovery_is_exact(
    configs: Map<Address, SocialRecoveryConfig>,
    account: Address,
)
    ensures
        ({
            let (r, after) = finalize_effect(configs, account);
            let c = configs[account];
            &&& r is Ok <==> configs.contains_key(account) && c.pending_recovery is Some
            &&& r matches Ok(key) ==> {
                &&& key == c.pending_recovery->0.new_key
                &&& after.dom() == configs.dom()
                &&& after[account].pending_recovery is None
                &&& after[account].guardians == c.guardians
                &&& after[account].recovery_delay_secs == c.recovery_delay_secs
                &&& after.remove(account) == configs.remove(account)
            }
            &&& r is Err ==> after == configs
        }),
{
    let after = finalize_effect(configs, account).1;
    if finalize_effect(configs, account).0 is Ok {
        assert(after.dom() =~= configs.dom());
        assert(after.remove(account) =~= configs.remove(account));
    }
}

/// Asking for a recovery, and cancelling it, change just the pending request of that account.
pub proof fn law_requests_are_exact(
    configs: Map<Address, SocialRecoveryConfig>,
    account: Address,
    request: RecoveryRequest,
)
    ensures
        ({
            let c = configs[account];
            let asked = with_request(configs, account, request);
            let dropped = without_request(configs, account);
            &&& asked[account].pending_recovery == Some(request)
            &&& asked[account].guardians == c.guardians
            &&& asked[account].recovery_delay_secs == c.recovery_delay_secs
            &&& asked.remove(account) == configs.remove(account)
            &&& dropped[account].pending_recovery is None
            &&& dropped[account].guardians == c.guardians
            &&& dropped[account].recovery_delay_secs == c.recovery_delay_secs
            &&& dropped.remove(account) == configs.remove(account)
        }),
{
    assert(with_request(configs, account, request).remove(account) =~= configs.remove(account));
    assert(without_request(configs, account).remove(account) =~= configs.remove(account));
}

/// The native asset is priced as asset 0 was last published, or at two dollars where it was not.
pub proof fn law_native_price_is_exact(book: Option<OracleBook>)
    ensures
        call_price(book) == if book is Some && book->0.aggregated.contains_key(0) {
            book->0.aggregated[0].median_price
        } else {
            2_000_000
        },
{
}

/// The part of a block that stablecoins may take is the block's gas times the cap in basis points,
/// rounded down.
pub proof fn law_cap_is_exact(r: FeeCurrencyRegistry)
    ensures
        10_000 * r.cap() <= r.block_gas_limit * r.stablecoin_cap_bps < 10_000 * r.cap() + 10_000,
{
}

/// A currency is found at the first entry for its asset, exactly where there is one.
pub proof fn law_currency_is_found(entries: Seq<FeeCurrencyEntry>, asset_id: u64, from: int)
    requires
        0 <= from <= entries.len(),
    ensures
        ({
            let at = entry_at(entries, asset_id, from);
            &&& from <= at <= entries.len()
            &&& at < entries.len() ==> entries[at].asset_id == asset_id
            &&& forall|i: int| from <= i < at ==> (#[trigger] entries[i]).asset_id != asset_id
        }),
    decreases entries.len() - from,
{
    if from < entries.len() && entries[from].asset_id != asset_id {
        law_currency_is_found(entries, asset_id, from + 1);
    }
}

/// A receipt is found at the first entry for its transaction, exactly where there is one.
pub proof fn law_receipt_is_found(
    receipts: Seq<(U256, ProtocolReceipt)>,
    tx_hash: U256,
    from: int,
)
    requires
        0 <= from <= receipts.len(),
    ensures
        ({
            let at = receipt_position(receipts, tx_hash, from);
            &&& from <= at <= receipts.len()
            &&& at < receipts.len() ==> receipts[at].0 == tx_hash
            &&& forall|i: int| from <= i < at ==> (#[trigger] receipts[i]).0 != tx_hash
        }),
    decreases receipts.len() - from,
{
    if from < receipts.len() && receipts[from].0 != tx_hash {
        law_receipt_is_found(receipts, tx_hash, from + 1);
    }
}

/// An account passes a policy exactly where it is policy 0, or the account is not on record under it,
/// or is on record as clear.
pub proof fn law_check_is_exact(
    m: Map<(Address, u64), ComplianceStatus>,
    account: Address,
    policy: u8,
)
    ensures
        compliance_check(m, account, policy) is Ok <==> policy == 0 || !m.contains_key(
            (account, policy as u64),
        ) || m[(account, policy as u64)] == ComplianceStatus::Clear,
{
}

/// The bytes of a receipt tell its transaction, whether it succeeded, and the gas that it used: two
/// receipts with the same bytes agree in all three.
pub proof fn law_receipt_bytes_tell_apart(a: ProtocolReceipt, b: ProtocolReceipt)
    requires
        receipt_bytes(a) == receipt_bytes(b),
    ensures
        a.tx_hash == b.tx_hash,
        a.status is Success <==> b.status is Success,
        a.gas_used == b.gas_used,
{
    lemma_receipt_parts(a);
    lemma_receipt_parts(b);
}

proof fn lemma_receipt_parts(a: ProtocolReceipt)
    ensures
        U256::from_be(receipt_bytes(a).subrange(0, 32)) == a.tx_hash,
        receipt_bytes(a)[32] == 1 <==> a.status is Success,
        be_nat(receipt_bytes(a).subrange(33, 41)) == a.gas_used,
        receipt_bytes(a).len() == 41,
{
    lemma_word_from_be_of_bytes(a.tx_hash);
    lemma_base_values();
    lemma_be_bytes_len(a.gas_used as nat, 8);
    lemma_read_of_write(a.gas_used as nat, 8);
    let s = receipt_bytes(a);
    assert(s.subrange(0, 32) =~= a.tx_hash.bytes());
    assert(s.subrange(33, 41) =~= be_bytes(a.gas_used as nat, 8));
}

/// What a row of digits stands for.
pub open spec fn stands_for(s: Seq<char>) -> int
    decreases s.len(),
{
    if s.len() == 0 {
        0
    } else {
        10 * stands_for(s.drop_last()) + (s.last() as int - '0' as int)
    }
}

/// A number is written in digits that stand for it, without a leading zero.
pub proof fn law_decimal_is_exact(n: nat)
    ensures
        stands_for(decimal(n)) == n,
        forall|i: int| 0 <= i < decimal(n).len() ==> '0' <= (#[trigger] decimal(n)[i]) <= '9',
        n > 0 ==> decimal(n)[0] != '0',
        decimal(n).len() >= 1,
    decreases n,
{
    reveal_with_fuel(stands_for, 2);
    let s = decimal(n);
    if n >= 10 {
        law_decimal_is_exact(n / 10);
        assert(s.drop_last() =~= decimal(n / 10));
        assert(s[0] == decimal(n / 10)[0]);
    } else {
        assert(s.drop_last().len() == 0);
    }
}

/// Notes that could be read are kept, in their order, and the others dropped.
pub proof fn law_readable_notes_are_kept<N>(decoded: Seq<Option<N>>, note: N)
    ensures
        readable(Seq::<Option<N>>::empty()).len() == 0,
        readable(decoded.push(Some(note))) == readable(decoded).push(note),
        readable(decoded.push(None)) == readable(decoded),
{
    assert(decoded.push(Some(note)).drop_last() =~= decoded);
    assert(decoded.push(None).drop_last() =~= decoded);
}

} // verus!
