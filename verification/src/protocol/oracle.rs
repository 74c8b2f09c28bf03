//! Prices submitted by validators, aggregated once a quorum has submitted.

pub mod laws;

use crate::bytes::{
    le_bytes, lemma_base_values, lemma_le_bytes_injective, lemma_le_bytes_len, push_le,
};
use crate::crypto::{
    ed25519_accepts, ed25519_public, ed25519_sign, ed25519_signature, ed25519_verify,
};
use crate::vec_map::{
    distinct_keys, lemma_prefix, lemma_seqs_insert, list_of, map_of, seqs, VecMap,
};
use vstd::prelude::*;

verus! {

/// Blocks between two updates of a price.
pub const ORACLE_UPDATE_INTERVAL: u64 = 1000;

/// The length of a period in seconds.
pub const ORACLE_PERIOD_SECS: u64 = 240;

/// The deviation from the median, in basis points, beyond which a price is an outlier.
pub const ORACLE_OUTLIER_THRESHOLD_BPS: u64 = 500;

/// How many outliers disable a validator.
pub const ORACLE_OUTLIER_TOLERANCE: u32 = 10;

/// How far back the average over time reaches, in seconds.
pub const ORACLE_TWAP_WINDOW_SECS: u64 = 86_400;

/// After how many seconds a price is stale.
pub const ORACLE_STALENESS_SECS: u64 = 900;

/// How many independent sources a validator must have.
pub const ORACLE_MIN_DATA_SOURCES: usize = 2;

/// How many of `n` validators make a quorum: two thirds, rounded up.
pub open spec fn quorum(n: int) -> int {
    if n == 0 {
        0
    } else {
        (2 * n + 2) / 3
    }
}

pub fn oracle_quorum(active_count: usize) -> (r: usize)
    requires
        2 * active_count + 2 <= usize::MAX,
    ensures
        r == quorum(active_count as int),
{
    if active_count == 0 {
        return 0;
    }
    (2 * active_count + 2) / 3
}

/// A quorum is the smallest number that is at least two thirds of the validators; it is never more
/// than all of them.
pub proof fn law_quorum_is_two_thirds(n: nat)
    ensures
        3 * quorum(n as int) >= 2 * n,
        3 * (quorum(n as int) - 1) < 2 * n,
        quorum(n as int) <= n,
        n > 0 ==> quorum(n as int) >= 1,
        n > 1 ==> quorum(n as int) >= 2,
{
}

/// A price submitted by a validator.
#[derive(Clone, Copy, Debug)]
pub struct OracleSubmission {
    pub validator_id: u32,
    pub asset_id: u64,
    pub price: u128,
    pub block_number: u64,
    pub timestamp: u64,
    pub signature: [u8; 64],
}

/// The price that a quorum has agreed on.
#[derive(Clone, Copy, Debug)]
pub struct AggregatedPrice {
    pub asset_id: u64,
    pub median_price: u128,
    pub block_number: u64,
    pub timestamp: u64,
    pub submission_count: usize,
    pub outlier_count: usize,
}

/// What is known of a validator.
#[derive(Clone, Copy, Debug)]
pub struct OracleValidatorInfo {
    pub validator_id: u32,
    pub public_key: [u8; 32],
    pub is_active: bool,
    pub outlier_count: u32,
    pub last_submission_block: u64,
    pub submission_count: u64,
}

/// A price of the past.
#[derive(Clone, Copy, Debug)]
pub struct HistoricalPrice {
    pub price: u128,
    pub timestamp: u64,
    pub block_number: u64,
}

/// The rules of aggregation.
#[derive(Clone, Copy, Debug)]
pub struct OracleConfig {
    pub update_interval: u64,
    pub outlier_threshold_bps: u64,
    pub outlier_tolerance: u32,
    pub twap_window_secs: u64,
    pub staleness_secs: u64,
    pub min_data_sources: usize,
}

/// The usual rules.
#[verifier::allow_in_spec]
pub fn default_config() -> OracleConfig
    returns
        (OracleConfig {
            update_interval: ORACLE_UPDATE_INTERVAL,
            outlier_threshold_bps: ORACLE_OUTLIER_THRESHOLD_BPS,
            outlier_tolerance: ORACLE_OUTLIER_TOLERANCE,
            twap_window_secs: ORACLE_TWAP_WINDOW_SECS,
            staleness_secs: ORACLE_STALENESS_SECS,
            min_data_sources: ORACLE_MIN_DATA_SOURCES,
        }),
{
    OracleConfig {
        update_interval: ORACLE_UPDATE_INTERVAL,
        outlier_threshold_bps: ORACLE_OUTLIER_THRESHOLD_BPS,
        outlier_tolerance: ORACLE_OUTLIER_TOLERANCE,
        twap_window_secs: ORACLE_TWAP_WINDOW_SECS,
        staleness_secs: ORACLE_STALENESS_SECS,
        min_data_sources: ORACLE_MIN_DATA_SOURCES,
    }
}

impl Default for OracleConfig {
    fn default() -> (r: Self)
        ensures
            r == default_config(),
    {
        default_config()
    }
}

/// Why a submission is refused.
#[derive(Clone, Copy, Debug)]
pub enum OracleError {
    ValidatorNotFound,
    ValidatorDisabled,
    DuplicateSubmission,
    WrongPeriod,
    InvalidSignature,
    NoSubmissions,
}

/// The bytes that a validator signs: the fields in turn, little-endian.
pub open spec fn message_of(
    validator_id: u32,
    asset_id: u64,
    price: u128,
    block_number: u64,
    timestamp: u64,
) -> Seq<u8> {
    le_bytes(validator_id as nat, 4) + le_bytes(asset_id as nat, 8) + le_bytes(price as nat, 16)
        + le_bytes(block_number as nat, 8) + le_bytes(timestamp as nat, 8)
}

pub fn oracle_message_hash(
    validator_id: u32,
    asset_id: u64,
    price: u128,
    block_number: u64,
    timestamp: u64,
) -> (r: Vec<u8>)
    ensures
        r@ == message_of(validator_id, asset_id, price, block_number, timestamp),
{
    let mut msg: Vec<u8> = Vec::new();
    push_le(&mut msg, validator_id as u128, 4);
    push_le(&mut msg, asset_id as u128, 8);
    push_le(&mut msg, price, 16);
    push_le(&mut msg, block_number as u128, 8);
    push_le(&mut msg, timestamp as u128, 8);
    msg
}

/// Signs a submission with a validator's secret key. The signature is accepted under the public key
/// of that secret.
pub fn sign_oracle_submission(
    secret: &[u8; 32],
    validator_id: u32,
    asset_id: u64,
    price: u128,
    block_number: u64,
    timestamp: u64,
) -> (r: [u8; 64])
    ensures
        r@ == ed25519_signature(
            secret@,
            message_of(validator_id, asset_id, price, block_number, timestamp),
        ),
        ed25519_accepts(
            ed25519_public(secret@),
            r@,
            message_of(validator_id, asset_id, price, block_number, timestamp),
        ),
{
    let message: Vec<u8> = oracle_message_hash(
        validator_id,
        asset_id,
        price,
        block_number,
        timestamp,
    );
    ed25519_sign(secret, message.as_slice())
}

/// Different submissions have different messages.
pub proof fn law_message_is_canonical(a: OracleSubmission, b: OracleSubmission)
    requires
        message_of(a.validator_id, a.asset_id, a.price, a.block_number, a.timestamp) == message_of(
            b.validator_id,
            b.asset_id,
            b.price,
            b.block_number,
            b.timestamp,
        ),
    ensures
        a.validator_id == b.validator_id,
        a.asset_id == b.asset_id,
        a.price == b.price,
        a.block_number == b.block_number,
        a.timestamp == b.timestamp,
{
    let m = message_of(a.validator_id, a.asset_id, a.price, a.block_number, a.timestamp);
    lemma_base_values();
    lemma_message_parts(a);
    lemma_message_parts(b);
    lemma_le_bytes_injective(a.validator_id as nat, b.validator_id as nat, 4);
    lemma_le_bytes_injective(a.asset_id as nat, b.asset_id as nat, 8);
    lemma_le_bytes_injective(a.price as nat, b.price as nat, 16);
    lemma_le_bytes_injective(a.block_number as nat, b.block_number as nat, 8);
    lemma_le_bytes_injective(a.timestamp as nat, b.timestamp as nat, 8);
}

proof fn lemma_message_parts(a: OracleSubmission)
    ensures
        ({
            let m = message_of(a.validator_id, a.asset_id, a.price, a.block_number, a.timestamp);
            &&& m.len() == 44
            &&& m.subrange(0, 4) == le_bytes(a.validator_id as nat, 4)
            &&& m.subrange(4, 12) == le_bytes(a.asset_id as nat, 8)
            &&& m.subrange(12, 28) == le_bytes(a.price as nat, 16)
            &&& m.subrange(28, 36) == le_bytes(a.block_number as nat, 8)
            &&& m.subrange(36, 44) == le_bytes(a.timestamp as nat, 8)
        }),
{
    lemma_le_bytes_len(a.validator_id as nat, 4);
    lemma_le_bytes_len(a.asset_id as nat, 8);
    lemma_le_bytes_len(a.price as nat, 16);
    lemma_le_bytes_len(a.block_number as nat, 8);
    lemma_le_bytes_len(a.timestamp as nat, 8);
    let m = message_of(a.validator_id, a.asset_id, a.price, a.block_number, a.timestamp);
    assert(m.subrange(0, 4) =~= le_bytes(a.validator_id as nat, 4));
    assert(m.subrange(4, 12) =~= le_bytes(a.asset_id as nat, 8));
    assert(m.subrange(12, 28) =~= le_bytes(a.price as nat, 16));
    assert(m.subrange(28, 36) =~= le_bytes(a.block_number as nat, 8));
    assert(m.subrange(36, 44) =~= le_bytes(a.timestamp as nat, 8));
}

/// A validator and its price.
pub type Quote = (u32, u128);

/// The quotes with one more, behind those that are no higher.
pub open spec fn place(s: Seq<Quote>, q: Quote) -> Seq<Quote>
    decreases s.len(),
{
    if s.len() == 0 || s.last().1 <= q.1 {
        s.push(q)
    } else {
        place(s.drop_last(), q).push(s.last())
    }
}

/// The quotes of all submissions from the lowest price to the highest; equal prices stand in the
/// order in which they were submitted.
pub open spec fn ordered(subs: Seq<OracleSubmission>) -> Seq<Quote>
    decreases subs.len(),
{
    if subs.len() == 0 {
        Seq::empty()
    } else {
        place(ordered(subs.drop_last()), (subs.last().validator_id, subs.last().price))
    }
}

/// The quotes in the order of submission.
pub open spec fn quotes(subs: Seq<OracleSubmission>) -> Seq<Quote> {
    subs.map_values(|s: OracleSubmission| (s.validator_id, s.price))
}

pub open spec fn is_ordered(s: Seq<Quote>) -> bool {
    forall|i: int, j: int| 0 <= i <= j < s.len() ==> (#[trigger] s[i]).1 <= (#[trigger] s[j]).1
}

proof fn lemma_place(s: Seq<Quote>, q: Quote)
    ensures
        place(s, q).len() == s.len() + 1,
        place(s, q).to_multiset() == s.to_multiset().insert(q),
        is_ordered(s) ==> is_ordered(place(s, q)),
        forall|i: int| 0 <= i <= s.len() ==> (#[trigger] place(s, q)[i]).1 <= q.1 || exists|j: int|
            0 <= j < s.len() && place(s, q)[i] == #[trigger] s[j],
    decreases s.len(),
{
    broadcast use vstd::seq_lib::group_to_multiset_ensures;

    if s.len() == 0 || s.last().1 <= q.1 {
        assert forall|i: int| 0 <= i <= s.len() implies (#[trigger] place(s, q)[i]).1 <= q.1
            || exists|j: int| 0 <= j < s.len() && place(s, q)[i] == #[trigger] s[j] by {
            if i < s.len() {
                assert(place(s, q)[i] == s[i]);
            }
        }
    } else {
        let head = s.drop_last();
        lemma_place(head, q);
        let p = place(head, q);
        assert(s =~= head.push(s.last()));
        assert(place(s, q) == p.push(s.last()));
        assert(place(s, q).to_multiset() =~= s.to_multiset().insert(q));
        assert forall|i: int| 0 <= i <= s.len() implies (#[trigger] place(s, q)[i]).1 <= q.1
            || exists|j: int| 0 <= j < s.len() && place(s, q)[i] == #[trigger] s[j] by {
            if i < s.len() {
                assert(place(s, q)[i] == p[i]);
                if p[i].1 > q.1 {
                    let j = choose|j: int| 0 <= j < head.len() && p[i] == #[trigger] head[j];
                    assert(s[j] == p[i]);
                }
            } else {
                assert(place(s, q)[i] == s[s.len() - 1]);
            }
        }
        if is_ordered(s) {
            assert(is_ordered(head)) by {
                assert forall|i: int, j: int| 0 <= i <= j < head.len() implies (
                #[trigger] head[i]).1 <= (#[trigger] head[j]).1 by {
                    assert(s[i] == head[i] && s[j] == head[j]);
                }
            }
            let out = place(s, q);
            assert forall|i: int, j: int| 0 <= i <= j < out.len() implies (#[trigger] out[i]).1
                <= (#[trigger] out[j]).1 by {
                if j < p.len() {
                    assert(out[i] == p[i] && out[j] == p[j]);
                } else if i < p.len() {
                    assert(out[i] == p[i]);
                    if p[i].1 > q.1 {
                        let k = choose|k: int| 0 <= k < head.len() && p[i] == #[trigger] head[k];
                        assert(s[k] == p[i]);
                    }
                }
            }
        }
    }
}

/// The quotes are in order, and they are those that were submitted, each as often.
pub proof fn law_ordered_sorts(subs: Seq<OracleSubmission>)
    ensures
        is_ordered(ordered(subs)),
        ordered(subs).len() == subs.len(),
        ordered(subs).to_multiset() == quotes(subs).to_multiset(),
    decreases subs.len(),
{
    broadcast use vstd::seq_lib::group_to_multiset_ensures;

    if subs.len() > 0 {
        let head = subs.drop_last();
        let q = (subs.last().validator_id, subs.last().price);
        law_ordered_sorts(head);
        lemma_place(ordered(head), q);
        assert(quotes(subs) =~= quotes(head).push(q));
    } else {
        assert(ordered(subs) =~= quotes(subs));
    }
}

/// The price in the middle.
pub open spec fn median(prices: Seq<Quote>) -> u128 {
    prices[prices.len() as int / 2].1
}

/// The distance of two prices.
pub open spec fn distance(a: u128, b: u128) -> int {
    if a > b {
        a - b
    } else {
        b - a
    }
}

/// Whether a price deviates from the median by more than the threshold.
pub open spec fn is_outlier(price: u128, mid: u128, threshold_bps: u64) -> bool {
    mid != 0 && (distance(price, mid) * 10_000) / (mid as int) > threshold_bps
}

pub open spec fn ids(s: Seq<Quote>) -> Seq<u32> {
    s.map_values(|q: Quote| q.0)
}

/// The validators whose prices deviate too much.
pub open spec fn outlier_ids(prices: Seq<Quote>, mid: u128, threshold_bps: u64) -> Seq<u32> {
    ids(prices.filter(|q: Quote| is_outlier(q.1, mid, threshold_bps)))
}

/// The validators that are not among `outliers`.
pub open spec fn reliable_ids(prices: Seq<Quote>, outliers: Seq<u32>) -> Seq<u32> {
    ids(prices.filter(|q: Quote| !outliers.contains(q.0)))
}

/// The earliest time of any submission.
pub open spec fn earliest(subs: Seq<OracleSubmission>) -> u64
    decreases subs.len(),
{
    if subs.len() == 0 {
        0
    } else if subs.len() == 1 || subs.last().timestamp < earliest(subs.drop_last()) {
        subs.last().timestamp
    } else {
        earliest(subs.drop_last())
    }
}

/// A validator whose price was an outlier once more.
pub open spec fn struck(v: OracleValidatorInfo, tolerance: u32) -> OracleValidatorInfo {
    OracleValidatorInfo {
        outlier_count: (v.outlier_count + 1) as u32,
        is_active: v.is_active && v.outlier_count + 1 < tolerance,
        ..v
    }
}

/// The validators once each of `outliers` is struck.
pub open spec fn strike(
    validators: Map<u32, OracleValidatorInfo>,
    outliers: Seq<u32>,
    tolerance: u32,
) -> Map<u32, OracleValidatorInfo>
    decreases outliers.len(),
{
    if outliers.len() == 0 {
        validators
    } else {
        let before = strike(validators, outliers.drop_last(), tolerance);
        let id = outliers.last();
        if before.contains_key(id) {
            before.insert(id, struck(before[id], tolerance))
        } else {
            before
        }
    }
}

/// No count of outliers outgrows its range.
pub open spec fn strikes_fit(
    validators: Map<u32, OracleValidatorInfo>,
    outliers: Seq<u32>,
    tolerance: u32,
) -> bool
    decreases outliers.len(),
{
    outliers.len() == 0 || {
        let before = strike(validators, outliers.drop_last(), tolerance);
        let id = outliers.last();
        &&& strikes_fit(validators, outliers.drop_last(), tolerance)
        &&& before.contains_key(id) ==> before[id].outlier_count < u32::MAX
    }
}

/// The prices since `cutoff`.
pub open spec fn since(entries: Seq<HistoricalPrice>, cutoff: u64) -> Seq<HistoricalPrice> {
    entries.filter(|e: HistoricalPrice| e.timestamp >= cutoff)
}

/// `t - d`, or 0.
pub open spec fn back(t: u64, d: u64) -> u64 {
    if t > d {
        (t - d) as u64
    } else {
        0
    }
}

/// The history without what is older than the window; a single price stays.
pub open spec fn pruned(entries: Seq<HistoricalPrice>, now: u64, window: u64) -> Seq<
    HistoricalPrice,
> {
    if entries.len() > 1 {
        since(entries, back(now, window))
    } else {
        entries
    }
}

/// What an oracle knows.
pub struct OracleBook {
    pub validators: Map<u32, OracleValidatorInfo>,
    pub pending: Map<u64, Seq<OracleSubmission>>,
    pub aggregated: Map<u64, AggregatedPrice>,
    pub history: Map<u64, Seq<HistoricalPrice>>,
    pub contributors: Seq<u32>,
    pub outliers: Seq<u32>,
}

/// The first submission of a validator, or the number of submissions where there is none.
pub open spec fn submission_of(subs: Seq<OracleSubmission>, validator_id: u32, from: int) -> int
    decreases subs.len() - from,
{
    if from >= subs.len() || subs[from].validator_id == validator_id {
        from
    } else {
        submission_of(subs, validator_id, from + 1)
    }
}

/// The submissions with one more, in the place of an earlier one by the same validator.
pub open spec fn submitted(subs: Seq<OracleSubmission>, s: OracleSubmission) -> Seq<
    OracleSubmission,
> {
    let at = submission_of(subs, s.validator_id, 0);
    if at < subs.len() {
        subs.update(at, s)
    } else {
        subs.push(s)
    }
}

/// The pending submissions of an asset are aggregated to its price.
pub open spec fn publish(c: OracleConfig, b: OracleBook, asset_id: u64) -> OracleBook {
    let subs = b.pending[asset_id];
    let prices = ordered(subs);
    let mid = median(prices);
    let outliers = outlier_ids(prices, mid, c.outlier_threshold_bps);
    let time = earliest(subs);
    let block = subs[0].block_number;
    OracleBook {
        validators: strike(b.validators, outliers, c.outlier_tolerance),
        pending: b.pending.remove(asset_id),
        aggregated: b.aggregated.insert(
            asset_id,
            AggregatedPrice {
                asset_id,
                median_price: mid,
                block_number: block,
                timestamp: time,
                submission_count: subs.len() as usize,
                outlier_count: outliers.len() as usize,
            },
        ),
        history: b.history.insert(
            asset_id,
            pruned(
                list_of(b.history, asset_id).push(
                    HistoricalPrice { price: mid, timestamp: time, block_number: block },
                ),
                time,
                c.twap_window_secs,
            ),
        ),
        contributors: reliable_ids(prices, outliers),
        outliers,
    }
}

/// No deviation from the median outgrows its range.
pub open spec fn deviations_fit(prices: Seq<Quote>) -> bool {
    median(prices) == 0 || forall|i: int|
        0 <= i < prices.len() ==> distance((#[trigger] prices[i]).1, median(prices)) * 10_000
            <= u128::MAX
}

/// Aggregating the pending submissions of an asset stays in range.
pub open spec fn publish_fits(c: OracleConfig, b: OracleBook, asset_id: u64) -> bool {
    let prices = ordered(b.pending[asset_id]);
    &&& deviations_fit(prices)
    &&& strikes_fit(
        b.validators,
        outlier_ids(prices, median(prices), c.outlier_threshold_bps),
        c.outlier_tolerance,
    )
}

/// Whether `block` starts a period.
pub open spec fn on_period(block: u64, interval: u64) -> bool {
    if interval == 0 {
        block == 0
    } else {
        block as int % interval as int == 0
    }
}

/// Whether a submission is signed by its validator.
pub open spec fn is_signed(b: OracleBook, s: OracleSubmission) -> bool {
    ed25519_accepts(
        b.validators[s.validator_id].public_key@,
        s.signature@,
        message_of(s.validator_id, s.asset_id, s.price, s.block_number, s.timestamp),
    )
}

/// The answer to a submission; `signed` says whether its signature was accepted.
pub open spec fn submission_check(
    c: OracleConfig,
    b: OracleBook,
    s: OracleSubmission,
    signed: bool,
) -> Result<(), OracleError> {
    if !b.validators.contains_key(s.validator_id) {
        Err(OracleError::ValidatorNotFound)
    } else {
        let v = b.validators[s.validator_id];
        if !v.is_active {
            Err(OracleError::ValidatorDisabled)
        } else if v.last_submission_block == s.block_number {
            Err(OracleError::DuplicateSubmission)
        } else if !on_period(s.block_number, c.update_interval) {
            Err(OracleError::WrongPeriod)
        } else if !signed {
            Err(OracleError::InvalidSignature)
        } else {
            Ok(())
        }
    }
}

/// The book once a submission is taken up.
pub open spec fn taken_up(b: OracleBook, s: OracleSubmission) -> OracleBook {
    let v = b.validators[s.validator_id];
    OracleBook {
        pending: b.pending.insert(s.asset_id, submitted(list_of(b.pending, s.asset_id), s)),
        validators: b.validators.insert(
            s.validator_id,
            OracleValidatorInfo {
                last_submission_block: s.block_number,
                submission_count: (v.submission_count + 1) as u64,
                ..v
            },
        ),
        ..b
    }
}

/// The validators that are active.
pub open spec fn active_ids(validators: Map<u32, OracleValidatorInfo>) -> Set<u32> {
    Set::new(|id: u32| validators.contains_key(id) && validators[id].is_active)
}

/// Whether the pending submissions of an asset make a quorum of the active validators.
pub open spec fn has_quorum(b: OracleBook, asset_id: u64) -> bool {
    list_of(b.pending, asset_id).len() >= quorum(active_ids(b.validators).len() as int)
}

/// A submission is checked and taken up; where it completes a quorum, the price is published.
pub open spec fn submit_effect(
    c: OracleConfig,
    b: OracleBook,
    s: OracleSubmission,
    signed: bool,
) -> (Result<(), OracleError>, OracleBook) {
    match submission_check(c, b, s, signed) {
        Err(e) => (Err(e), b),
        Ok(_) => {
            let taken = taken_up(b, s);
            if has_quorum(taken, s.asset_id) {
                (Ok(()), publish(c, taken, s.asset_id))
            } else {
                (Ok(()), taken)
            }
        },
    }
}

/// Taking up a submission stays in range.
pub open spec fn submission_fits(
    c: OracleConfig,
    b: OracleBook,
    s: OracleSubmission,
    signed: bool,
) -> bool {
    submission_check(c, b, s, signed) is Ok ==> {
        let taken = taken_up(b, s);
        &&& b.validators[s.validator_id].submission_count < u64::MAX
        &&& 2 * active_ids(taken.validators).len() + 2 <= usize::MAX
        &&& has_quorum(taken, s.asset_id) ==> publish_fits(c, taken, s.asset_id)
    }
}

fn count_active(validators: &VecMap<u32, OracleValidatorInfo>) -> (r: usize)
    ensures
        active_ids(validators@).finite(),
        r == active_ids(validators@).len(),
{
    let entries: &Vec<(u32, OracleValidatorInfo)> = validators.entries();
    let mut count: usize = 0;
    let mut i: usize = 0;
    proof {
        assert(active_ids(map_of(entries@.subrange(0, 0))) =~= Set::<u32>::empty());
    }
    while i < entries.len()
        invariant
            i <= entries@.len(),
            count <= i,
            distinct_keys(entries@),
            active_ids(map_of(entries@.subrange(0, i as int))).finite(),
            count == active_ids(map_of(entries@.subrange(0, i as int))).len(),
        decreases entries@.len() - i,
    {
        proof {
            lemma_prefix(entries@, i as int);
            let before = active_ids(map_of(entries@.subrange(0, i as int)));
            let after = active_ids(map_of(entries@.subrange(0, i + 1)));
            if entries@[i as int].1.is_active {
                assert(after =~= before.insert(entries@[i as int].0));
            } else {
                assert(after =~= before);
            }
        }
        if entries[i].1.is_active {
            count += 1;
        }
        i += 1;
    }
    proof {
        assert(entries@.subrange(0, entries@.len() as int) =~= entries@);
    }
    count
}

fn place_quote(prices: &mut Vec<Quote>, q: Quote)
    ensures
        final(prices)@ == place(old(prices)@, q),
{
    let mut at: usize = prices.len();
    proof {
        assert(prices@.subrange(0, at as int) =~= prices@);
        assert(prices@.subrange(at as int, prices@.len() as int) =~= Seq::<Quote>::empty());
        assert(place(prices@, q) =~= place(prices@.subrange(0, at as int), q)
            + prices@.subrange(at as int, prices@.len() as int));
    }
    while at > 0 && prices[at - 1].1 > q.1
        invariant
            at <= prices@.len(),
            prices@ == old(prices)@,
            place(prices@, q) == place(prices@.subrange(0, at as int), q) + prices@.subrange(
                at as int,
                prices@.len() as int,
            ),
        decreases at,
    {
        proof {
            let head = prices@.subrange(0, at as int);
            assert(head.drop_last() =~= prices@.subrange(0, at - 1));
            let tail = prices@.subrange(at as int, prices@.len() as int);
            assert(prices@.subrange(at - 1, prices@.len() as int) =~= seq![head.last()] + tail);
            assert(place(head.drop_last(), q).push(head.last()) + tail =~= place(
                head.drop_last(),
                q,
            ) + (seq![head.last()] + tail));
        }
        at -= 1;
    }
    prices.insert(at, q);
    proof {
        let head = old(prices)@.subrange(0, at as int);
        let tail = old(prices)@.subrange(at as int, old(prices)@.len() as int);
        assert(place(head, q) == head.push(q));
        assert(prices@ =~= head.push(q) + tail);
    }
}

fn order_quotes(subs: &Vec<OracleSubmission>) -> (r: Vec<Quote>)
    ensures
        r@ == ordered(subs@),
{
    let mut prices: Vec<Quote> = Vec::new();
    let mut i: usize = 0;
    while i < subs.len()
        invariant
            i <= subs@.len(),
            prices@ == ordered(subs@.subrange(0, i as int)),
        decreases subs@.len() - i,
    {
        proof {
            assert(subs@.subrange(0, i + 1).drop_last() =~= subs@.subrange(0, i as int));
        }
        place_quote(&mut prices, (subs[i].validator_id, subs[i].price));
        i += 1;
    }
    proof {
        assert(subs@.subrange(0, subs@.len() as int) =~= subs@);
    }
    prices
}

fn deviates(price: u128, mid: u128, threshold_bps: u64) -> (r: bool)
    requires
        mid == 0 || distance(price, mid) * 10_000 <= u128::MAX,
    ensures
        r == is_outlier(price, mid, threshold_bps),
{
    if mid == 0 {
        return false;
    }
    let gap: u128 = if price > mid {
        price - mid
    } else {
        mid - price
    };
    (gap * 10_000) / mid > threshold_bps as u128
}

fn contains_id(list: &Vec<u32>, id: u32) -> (r: bool)
    ensures
        r == list@.contains(id),
{
    let mut i: usize = 0;
    while i < list.len()
        invariant
            i <= list@.len(),
            forall|j: int| 0 <= j < i ==> (#[trigger] list@[j]) != id,
        decreases list@.len() - i,
    {
        if list[i] == id {
            return true;
        }
        i += 1;
    }
    false
}

fn find_outliers(prices: &Vec<Quote>, mid: u128, threshold_bps: u64) -> (r: Vec<u32>)
    requires
        mid == 0 || forall|i: int|
            0 <= i < prices@.len() ==> distance((#[trigger] prices@[i]).1, mid) * 10_000
                <= u128::MAX,
    ensures
        r@ == outlier_ids(prices@, mid, threshold_bps),
{
    let mut out: Vec<u32> = Vec::new();
    let mut i: usize = 0;
    proof {
        reveal(Seq::filter);
        assert(outlier_ids(prices@.subrange(0, 0), mid, threshold_bps) =~= Seq::<u32>::empty());
    }
    while i < prices.len()
        invariant
            i <= prices@.len(),
            mid == 0 || forall|i: int|
                0 <= i < prices@.len() ==> distance((#[trigger] prices@[i]).1, mid) * 10_000
                    <= u128::MAX,
            out@ == outlier_ids(prices@.subrange(0, i as int), mid, threshold_bps),
        decreases prices@.len() - i,
    {
        let (id, price) = prices[i];
        let found = deviates(price, mid, threshold_bps);
        if found {
            out.push(id);
        }
        proof {
            reveal(Seq::filter);
            let next = prices@.subrange(0, i + 1);
            assert(next.drop_last() =~= prices@.subrange(0, i as int));
            assert(next.last() == (id, price));
            assert(out@ =~= outlier_ids(next, mid, threshold_bps));
        }
        i += 1;
    }
    proof {
        assert(prices@.subrange(0, prices@.len() as int) =~= prices@);
    }
    out
}

fn find_reliable(prices: &Vec<Quote>, outliers: &Vec<u32>) -> (r: Vec<u32>)
    ensures
        r@ == reliable_ids(prices@, outliers@),
{
    let mut out: Vec<u32> = Vec::new();
    let mut i: usize = 0;
    proof {
        reveal(Seq::filter);
        assert(reliable_ids(prices@.subrange(0, 0), outliers@) =~= Seq::<u32>::empty());
    }
    while i < prices.len()
        invariant
            i <= prices@.len(),
            out@ == reliable_ids(prices@.subrange(0, i as int), outliers@),
        decreases prices@.len() - i,
    {
        let (id, price) = prices[i];
        let found = contains_id(outliers, id);
        if !found {
            out.push(id);
        }
        proof {
            reveal(Seq::filter);
            let next = prices@.subrange(0, i + 1);
            assert(next.drop_last() =~= prices@.subrange(0, i as int));
            assert(next.last() == (id, price));
            assert(out@ =~= reliable_ids(next, outliers@));
        }
        i += 1;
    }
    proof {
        assert(prices@.subrange(0, prices@.len() as int) =~= prices@);
    }
    out
}

fn find_earliest(subs: &Vec<OracleSubmission>) -> (r: u64)
    requires
        subs@.len() > 0,
    ensures
        r == earliest(subs@),
{
    let mut first: u64 = subs[0].timestamp;
    let mut i: usize = 1;
    while i < subs.len()
        invariant
            1 <= i <= subs@.len(),
            first == earliest(subs@.subrange(0, i as int)),
        decreases subs@.len() - i,
    {
        proof {
            assert(subs@.subrange(0, i + 1).drop_last() =~= subs@.subrange(0, i as int));
        }
        if subs[i].timestamp < first {
            first = subs[i].timestamp;
        }
        i += 1;
    }
    proof {
        assert(subs@.subrange(0, subs@.len() as int) =~= subs@);
    }
    first
}

fn keep_since(entries: &Vec<HistoricalPrice>, cutoff: u64) -> (r: Vec<HistoricalPrice>)
    ensures
        r@ == since(entries@, cutoff),
{
    let mut out: Vec<HistoricalPrice> = Vec::new();
    let mut i: usize = 0;
    proof {
        reveal(Seq::filter);
        assert(since(entries@.subrange(0, 0), cutoff) =~= Seq::<HistoricalPrice>::empty());
    }
    while i < entries.len()
        invariant
            i <= entries@.len(),
            out@ == since(entries@.subrange(0, i as int), cutoff),
        decreases entries@.len() - i,
    {
        let e: HistoricalPrice = entries[i];
        if e.timestamp >= cutoff {
            out.push(e);
        }
        proof {
            reveal(Seq::filter);
            let next = entries@.subrange(0, i + 1);
            assert(next.drop_last() =~= entries@.subrange(0, i as int));
            assert(next.last() == e);
        }
        i += 1;
    }
    proof {
        assert(entries@.subrange(0, entries@.len() as int) =~= entries@);
    }
    out
}

proof fn lemma_submission_of(subs: Seq<OracleSubmission>, validator_id: u32, from: int)
    requires
        0 <= from <= subs.len(),
    ensures
        from <= submission_of(subs, validator_id, from) <= subs.len(),
    decreases subs.len() - from,
{
    if from < subs.len() && subs[from].validator_id != validator_id {
        lemma_submission_of(subs, validator_id, from + 1);
    }
}

fn put_submission(subs: &mut Vec<OracleSubmission>, s: OracleSubmission)
    ensures
        final(subs)@ == submitted(old(subs)@, s),
{
    let mut at: usize = 0;
    while at < subs.len() && subs[at].validator_id != s.validator_id
        invariant
            at <= subs@.len(),
            subs@ == old(subs)@,
            submission_of(subs@, s.validator_id, 0) == submission_of(
                subs@,
                s.validator_id,
                at as int,
            ),
        decreases subs@.len() - at,
    {
        at += 1;
    }
    if at < subs.len() {
        subs.set(at, s);
    } else {
        subs.push(s);
    }
}

/// The sum of all prices.
pub open spec fn price_sum(entries: Seq<HistoricalPrice>) -> int
    decreases entries.len(),
{
    if entries.len() == 0 {
        0
    } else {
        price_sum(entries.drop_last()) + entries.last().price
    }
}

/// The average of the prices since `cutoff`.
pub open spec fn average_since(entries: Seq<HistoricalPrice>, cutoff: u64) -> Option<u128> {
    let recent = since(entries, cutoff);
    if recent.len() == 0 {
        None
    } else {
        Some((price_sum(recent) / recent.len() as int) as u128)
    }
}

proof fn lemma_sum_prefix(s: Seq<HistoricalPrice>, i: int)
    requires
        0 <= i <= s.len(),
    ensures
        0 <= price_sum(s.subrange(0, i)) <= price_sum(s),
    decreases s.len() - i, i,
{
    if i < s.len() {
        lemma_sum_prefix(s, i + 1);
        assert(s.subrange(0, i + 1).drop_last() =~= s.subrange(0, i));
    } else {
        assert(s.subrange(0, i) =~= s);
    }
    lemma_sum_not_negative(s.subrange(0, i));
}

proof fn lemma_sum_not_negative(s: Seq<HistoricalPrice>)
    ensures
        price_sum(s) >= 0,
    decreases s.len(),
{
    if s.len() > 0 {
        lemma_sum_not_negative(s.drop_last());
    }
}

fn sum_prices(entries: &Vec<HistoricalPrice>) -> (r: u128)
    requires
        price_sum(entries@) <= u128::MAX,
    ensures
        r == price_sum(entries@),
{
    let mut sum: u128 = 0;
    let mut i: usize = 0;
    while i < entries.len()
        invariant
            i <= entries@.len(),
            price_sum(entries@) <= u128::MAX,
            sum == price_sum(entries@.subrange(0, i as int)),
        decreases entries@.len() - i,
    {
        proof {
            assert(entries@.subrange(0, i + 1).drop_last() =~= entries@.subrange(0, i as int));
            lemma_sum_prefix(entries@, i + 1);
        }
        sum = sum + entries[i].price;
        i += 1;
    }
    proof {
        assert(entries@.subrange(0, entries@.len() as int) =~= entries@);
    }
    sum
}

/// Validators, their submissions and the prices of all assets.
#[derive(Debug)]
pub struct OracleManager {
    pub config: OracleConfig,
    pub validators: VecMap<u32, OracleValidatorInfo>,
    /// The assets that validators submit prices for.
    pub tracked_assets: Vec<u64>,
    /// Submissions of the current period by asset.
    pub pending: VecMap<u64, Vec<OracleSubmission>>,
    pub aggregated: VecMap<u64, AggregatedPrice>,
    pub history: VecMap<u64, Vec<HistoricalPrice>>,
    pub current_block: u64,
    /// Fees set aside for validators.
    pub reward_pool: u128,
    /// Who took part in the last aggregation without being an outlier.
    pub current_contributors: Vec<u32>,
    /// The outliers of the last aggregation.
    pub last_outliers: Vec<u32>,
}

impl Default for OracleManager {
    fn default() -> (r: Self)
        ensures
            r.is_new(default_config()),
    {
        OracleManager::new(default_config())
    }
}

impl OracleManager {
    pub open spec fn book(self) -> OracleBook {
        OracleBook {
            validators: self.validators@,
            pending: seqs(self.pending@),
            aggregated: self.aggregated@,
            history: seqs(self.history@),
            contributors: self.current_contributors@,
            outliers: self.last_outliers@,
        }
    }

    /// All but the book is the same.
    pub open spec fn same_settings(self, other: Self) -> bool {
        &&& self.config == other.config
        &&& self.tracked_assets == other.tracked_assets
        &&& self.current_block == other.current_block
        &&& self.reward_pool == other.reward_pool
    }

    pub open spec fn is_new(self, config: OracleConfig) -> bool {
        &&& self.config == config
        &&& self.tracked_assets@ == Seq::<u64>::empty()
        &&& self.current_block == 0
        &&& self.reward_pool == 0
        &&& self.book() == OracleBook {
            validators: Map::empty(),
            pending: Map::empty(),
            aggregated: Map::empty(),
            history: Map::empty(),
            contributors: Seq::empty(),
            outliers: Seq::empty(),
        }
    }

    pub fn new(config: OracleConfig) -> (r: Self)
        ensures
            r.is_new(config),
    {
        let r = OracleManager {
            config,
            validators: VecMap::new(),
            tracked_assets: Vec::new(),
            pending: VecMap::new(),
            aggregated: VecMap::new(),
            history: VecMap::new(),
            current_block: 0,
            reward_pool: 0,
            current_contributors: Vec::new(),
            last_outliers: Vec::new(),
        };
        proof {
            assert(r.book().pending =~= Map::<u64, Seq<OracleSubmission>>::empty());
            assert(r.book().history =~= Map::<u64, Seq<HistoricalPrice>>::empty());
        }
        r
    }

    /// Lets a validator submit prices. What was known of it is forgotten.
    pub fn register_validator(&mut self, validator_id: u32, public_key: [u8; 32])
        ensures
            final(self).book() == (OracleBook {
                validators: old(self).book().validators.insert(
                    validator_id,
                    (OracleValidatorInfo {
                        validator_id,
                        public_key,
                        is_active: true,
                        outlier_count: 0,
                        last_submission_block: 0,
                        submission_count: 0,
                    }),
                ),
                ..old(self).book()
            }),
            final(self).same_settings(*old(self)),
    {
        self.validators.insert(
            validator_id,
            OracleValidatorInfo {
                validator_id,
                public_key,
                is_active: true,
                outlier_count: 0,
                last_submission_block: 0,
                submission_count: 0,
            },
        );
    }

    pub fn set_tracked_assets(&mut self, asset_ids: Vec<u64>)
        ensures
            *final(self) == (OracleManager { tracked_assets: asset_ids, ..*old(self) }),
    {
        self.tracked_assets = asset_ids;
    }

    /// Takes up a submission, and publishes the price of its asset where that completes a quorum.
    pub fn submit_price(&mut self, submission: OracleSubmission) -> (r: Result<(), OracleError>)
        requires
            submission_fits(old(self).config, old(self).book(), submission, true),
        ensures
            (r, final(self).book()) == submit_effect(
                old(self).config,
                old(self).book(),
                submission,
                is_signed(old(self).book(), submission),
            ),
            final(self).same_settings(*old(self)),
    {
        let signed = match self.validators.get(submission.validator_id) {
            None => false,
            Some(v) => {
                let message: Vec<u8> = oracle_message_hash(
                    submission.validator_id,
                    submission.asset_id,
                    submission.price,
                    submission.block_number,
                    submission.timestamp,
                );
                ed25519_verify(&v.public_key, &submission.signature, message.as_slice())
            },
        };
        self.submit_signed(submission, signed)
    }

    /// Takes up a submission, given whether its signature was accepted.
    pub fn submit_signed(&mut self, submission: OracleSubmission, signed: bool) -> (r: Result<
        (),
        OracleError,
    >)
        requires
            submission_fits(old(self).config, old(self).book(), submission, signed),
        ensures
            (r, final(self).book()) == submit_effect(
                old(self).config,
                old(self).book(),
                submission,
                signed,
            ),
            final(self).same_settings(*old(self)),
    {
        let info: OracleValidatorInfo = match self.validators.get(submission.validator_id) {
            None => {
                return Err(OracleError::ValidatorNotFound);
            },
            Some(v) => *v,
        };
        if !info.is_active {
            return Err(OracleError::ValidatorDisabled);
        }
        if info.last_submission_block == submission.block_number {
            return Err(OracleError::DuplicateSubmission);
        }
        let interval: u64 = self.config.update_interval;
        if if interval == 0 {
            submission.block_number != 0
        } else {
            submission.block_number % interval != 0
        } {
            return Err(OracleError::WrongPeriod);
        }
        if !signed {
            return Err(OracleError::InvalidSignature);
        }
        let asset_id: u64 = submission.asset_id;
        let mut subs: Vec<OracleSubmission> = match self.pending.remove(asset_id) {
            Some(v) => v,
            None => Vec::new(),
        };
        put_submission(&mut subs, submission);
        let count: usize = subs.len();
        proof {
            lemma_seqs_insert(old(self).pending@, asset_id, subs);
        }
        self.pending.insert(asset_id, subs);
        self.validators.insert(
            submission.validator_id,
            OracleValidatorInfo {
                last_submission_block: submission.block_number,
                submission_count: info.submission_count + 1,
                ..info
            },
        );
        proof {
            assert(self.book() == taken_up(old(self).book(), submission));
            lemma_submission_of(
                list_of(old(self).book().pending, asset_id),
                submission.validator_id,
                0,
            );
        }
        if count >= oracle_quorum(count_active(&self.validators)) {
            self.aggregate_and_publish_price(asset_id);
        }
        Ok(())
    }

    fn strike_outliers(&mut self, outliers: &Vec<u32>)
        requires
            strikes_fit(
                old(self).validators@,
                outliers@,
                old(self).config.outlier_tolerance,
            ),
        ensures
            *final(self) == (OracleManager { validators: final(self).validators, ..*old(self) }),
            final(self).validators@ == strike(
                old(self).validators@,
                outliers@,
                old(self).config.outlier_tolerance,
            ),
    {
        let tolerance: u32 = self.config.outlier_tolerance;
        let mut i: usize = 0;
        while i < outliers.len()
            invariant
                i <= outliers@.len(),
                tolerance == old(self).config.outlier_tolerance,
                *self == (OracleManager { validators: self.validators, ..*old(self) }),
                self.validators@ == strike(
                    old(self).validators@,
                    outliers@.subrange(0, i as int),
                    tolerance,
                ),
                strikes_fit(old(self).validators@, outliers@, tolerance),
            decreases outliers@.len() - i,
        {
            proof {
                let next = outliers@.subrange(0, i + 1);
                assert(next.drop_last() =~= outliers@.subrange(0, i as int));
                lemma_strikes_fit_prefix(old(self).validators@, outliers@, tolerance, i + 1);
            }
            let id: u32 = outliers[i];
            if let Some(v) = self.validators.get(id) {
                let count: u32 = v.outlier_count + 1;
                let changed = OracleValidatorInfo {
                    outlier_count: count,
                    is_active: v.is_active && count < tolerance,
                    ..*v
                };
                self.validators.insert(id, changed);
            }
            i += 1;
        }
        proof {
            assert(outliers@.subrange(0, outliers@.len() as int) =~= outliers@);
        }
    }

    /// Turns the pending submissions of an asset into its price.
    fn aggregate_and_publish_price(&mut self, asset_id: u64)
        requires
            old(self).book().pending.contains_key(asset_id),
            old(self).book().pending[asset_id].len() > 0,
            publish_fits(old(self).config, old(self).book(), asset_id),
        ensures
            final(self).book() == publish(old(self).config, old(self).book(), asset_id),
            final(self).same_settings(*old(self)),
    {
        let submissions: Vec<OracleSubmission> = match self.pending.remove(asset_id) {
            Some(v) => v,
            None => Vec::new(),
        };
        proof {
            lemma_seqs_insert(old(self).pending@, asset_id, submissions);
            law_ordered_sorts(submissions@);
        }
        let prices: Vec<Quote> = order_quotes(&submissions);
        let mid: u128 = prices[prices.len() / 2].1;
        let outliers: Vec<u32> = find_outliers(&prices, mid, self.config.outlier_threshold_bps);
        self.strike_outliers(&outliers);
        let first: u64 = find_earliest(&submissions);
        let block: u64 = submissions[0].block_number;
        self.aggregated.insert(
            asset_id,
            AggregatedPrice {
                asset_id,
                median_price: mid,
                block_number: block,
                timestamp: first,
                submission_count: submissions.len(),
                outlier_count: outliers.len(),
            },
        );
        self.current_contributors = find_reliable(&prices, &outliers);
        self.last_outliers = outliers;
        let ghost past = self.history@;
        let mut entries: Vec<HistoricalPrice> = match self.history.remove(asset_id) {
            Some(v) => v,
            None => Vec::new(),
        };
        entries.push(HistoricalPrice { price: mid, timestamp: first, block_number: block });
        if entries.len() > 1 {
            let cutoff: u64 = first.saturating_sub(self.config.twap_window_secs);
            entries = keep_since(&entries, cutoff);
        }
        proof {
            lemma_seqs_insert(past, asset_id, entries);
        }
        self.history.insert(asset_id, entries);
    }

    /// The price of an asset.
    pub fn get_price(&self, asset_id: u64) -> (r: Option<&AggregatedPrice>)
        ensures
            match r {
                Some(p) => self.book().aggregated.contains_key(asset_id) && *p
                    == self.book().aggregated[asset_id],
                None => !self.book().aggregated.contains_key(asset_id),
            },
    {
        self.aggregated.get(asset_id)
    }

    /// The average price of an asset over the window.
    pub fn get_twap(&self, asset_id: u64, current_timestamp: u64) -> (r: Option<u128>)
        requires
            price_sum(
                since(
                    list_of(self.book().history, asset_id),
                    back(current_timestamp, self.config.twap_window_secs),
                ),
            ) <= u128::MAX,
        ensures
            r == average_since(
                list_of(self.book().history, asset_id),
                back(current_timestamp, self.config.twap_window_secs),
            ),
    {
        match self.history.get(asset_id) {
            None => {
                proof {
                    reveal(Seq::filter);
                }
                None
            },
            Some(entries) => {
                let cutoff: u64 = current_timestamp.saturating_sub(self.config.twap_window_secs);
                let relevant: Vec<HistoricalPrice> = keep_since(entries, cutoff);
                if relevant.len() == 0 {
                    return None;
                }
                let sum: u128 = sum_prices(&relevant);
                Some(sum / relevant.len() as u128)
            },
        }
    }

    /// Whether the price of an asset is too old, or missing.
    pub fn is_stale(&self, asset_id: u64, current_timestamp: u64) -> (r: bool)
        ensures
            r == if self.book().aggregated.contains_key(asset_id) {
                back(current_timestamp, self.book().aggregated[asset_id].timestamp)
                    > self.config.staleness_secs
            } else {
                true
            },
    {
        match self.aggregated.get(asset_id) {
            Some(p) => current_timestamp.saturating_sub(p.timestamp) > self.config.staleness_secs,
            None => true,
        }
    }

    pub fn get_validator_info(&self, validator_id: u32) -> (r: Option<&OracleValidatorInfo>)
        ensures
            match r {
                Some(v) => self.book().validators.contains_key(validator_id) && *v
                    == self.book().validators[validator_id],
                None => !self.book().validators.contains_key(validator_id),
            },
    {
        self.validators.get(validator_id)
    }

    pub fn set_current_block(&mut self, block: u64)
        ensures
            *final(self) == (OracleManager { current_block: block, ..*old(self) }),
    {
        self.current_block = block;
    }

    /// How many submissions for an asset are pending.
    pub fn pending_count(&self, asset_id: u64) -> (r: usize)
        ensures
            r == list_of(self.book().pending, asset_id).len(),
    {
        match self.pending.get(asset_id) {
            Some(v) => v.len(),
            None => 0,
        }
    }

    pub fn add_reward(&mut self, amount: u128)
        requires
            old(self).reward_pool + amount <= u128::MAX,
        ensures
            *final(self) == (OracleManager {
                reward_pool: (old(self).reward_pool + amount) as u128,
                ..*old(self)
            }),
    {
        self.reward_pool = self.reward_pool + amount;
    }

    /// The outliers of the last aggregation.
    pub fn last_outliers(&self) -> (r: &[u32])
        ensures
            r@ == self.book().outliers,
    {
        self.last_outliers.as_slice()
    }

    /// Forgets who took part in the last aggregation.
    pub fn clear_tracking(&mut self)
        ensures
            final(self).book() == (OracleBook {
                contributors: Seq::empty(),
                outliers: Seq::empty(),
                ..old(self).book()
            }),
            final(self).same_settings(*old(self)),
    {
        self.current_contributors = Vec::new();
        self.last_outliers = Vec::new();
    }

    /// Sets a price without signatures or quorum.
    pub fn simple_submit_price(
        &mut self,
        asset_id: u64,
        price: u128,
        timestamp: u64,
        block_number: u64,
    )
        ensures
            final(self).book() == (OracleBook {
                history: old(self).book().history.insert(
                    asset_id,
                    list_of(old(self).book().history, asset_id).push(
                        (HistoricalPrice { price, timestamp, block_number }),
                    ),
                ),
                aggregated: old(self).book().aggregated.insert(
                    asset_id,
                    (AggregatedPrice {
                        asset_id,
                        median_price: price,
                        block_number,
                        timestamp,
                        submission_count: 1,
                        outlier_count: 0,
                    }),
                ),
                ..old(self).book()
            }),
            final(self).same_settings(*old(self)),
    {
        let mut entries: Vec<HistoricalPrice> = match self.history.remove(asset_id) {
            Some(v) => v,
            None => Vec::new(),
        };
        entries.push(HistoricalPrice { price, timestamp, block_number });
        proof {
            lemma_seqs_insert(old(self).history@, asset_id, entries);
        }
        self.history.insert(asset_id, entries);
        self.aggregated.insert(
            asset_id,
            AggregatedPrice {
                asset_id,
                median_price: price,
                block_number,
                timestamp,
                submission_count: 1,
                outlier_count: 0,
            },
        );
    }
}

proof fn lemma_strikes_fit_prefix(
    validators: Map<u32, OracleValidatorInfo>,
    outliers: Seq<u32>,
    tolerance: u32,
    i: int,
)
    requires
        strikes_fit(validators, outliers, tolerance),
        0 <= i <= outliers.len(),
    ensures
        strikes_fit(validators, outliers.subrange(0, i), tolerance),
    decreases outliers.len(),
{
    if i == outliers.len() {
        assert(outliers.subrange(0, i) =~= outliers);
    } else {
        lemma_strikes_fit_prefix(validators, outliers.drop_last(), tolerance, i);
        assert(outliers.drop_last().subrange(0, i) =~= outliers.subrange(0, i));
    }
}

/// A validator's second submission for the same block is refused.
pub proof fn law_no_second_submission(
    c: OracleConfig,
    b: OracleBook,
    s: OracleSubmission,
    signed: bool,
    again: OracleSubmission,
    again_signed: bool,
)
    requires
        submit_effect(c, b, s, signed).0 is Ok,
        again.validator_id == s.validator_id,
        again.block_number == s.block_number,
    ensures
        submit_effect(c, submit_effect(c, b, s, signed).1, again, again_signed).0 is Err,
{
    let taken = taken_up(b, s);
    if has_quorum(taken, s.asset_id) {
        let prices = ordered(taken.pending[s.asset_id]);
        let outliers = outlier_ids(prices, median(prices), c.outlier_threshold_bps);
        lemma_strike_keeps(taken.validators, outliers, c.outlier_tolerance, s.validator_id);
    }
}

proof fn lemma_strike_keeps(
    validators: Map<u32, OracleValidatorInfo>,
    outliers: Seq<u32>,
    tolerance: u32,
    id: u32,
)
    ensures
        ({
            let after = strike(validators, outliers, tolerance);
            &&& after.contains_key(id) == validators.contains_key(id)
            &&& after.contains_key(id) ==> after[id].last_submission_block
                == validators[id].last_submission_block && after[id].public_key
                == validators[id].public_key && after[id].submission_count
                == validators[id].submission_count
        }),
    decreases outliers.len(),
{
    if outliers.len() > 0 {
        lemma_strike_keeps(validators, outliers.drop_last(), tolerance, id);
    }
}

/// As many submissions as there are active validators make a quorum, however many are disabled.
pub proof fn law_active_validators_suffice(b: OracleBook, asset_id: u64)
    requires
        list_of(b.pending, asset_id).len() >= active_ids(b.validators).len(),
    ensures
        has_quorum(b, asset_id),
{
    law_quorum_is_two_thirds(active_ids(b.validators).len());
}

/// A price that is published is one that a validator has submitted.
pub proof fn law_published_price_was_submitted(c: OracleConfig, b: OracleBook, asset_id: u64)
    requires
        b.pending[asset_id].len() > 0,
    ensures
        exists|i: int|
            0 <= i < b.pending[asset_id].len() && (#[trigger] b.pending[asset_id][i]).price
                == publish(c, b, asset_id).aggregated[asset_id].median_price,
{
    broadcast use vstd::seq_lib::group_to_multiset_ensures;

    let subs = b.pending[asset_id];
    let prices = ordered(subs);
    law_ordered_sorts(subs);
    let q = prices[prices.len() as int / 2];
    assert(prices.contains(q));
    assert(prices.to_multiset().count(q) > 0);
    assert(quotes(subs).to_multiset().count(q) > 0);
    assert(quotes(subs).contains(q));
    let i = choose|i: int| 0 <= i < quotes(subs).len() && quotes(subs)[i] == q;
    assert(subs[i].price == q.1);
}

/// Only a signed submission by an active validator at the start of a period is taken up.
pub proof fn law_only_signed_submissions_count(
    c: OracleConfig,
    b: OracleBook,
    s: OracleSubmission,
    signed: bool,
)
    requires
        submit_effect(c, b, s, signed).0 is Ok,
    ensures
        signed,
        b.validators.contains_key(s.validator_id),
        b.validators[s.validator_id].is_active,
        on_period(s.block_number, c.update_interval),
{
}

/// A submission that is refused changes nothing.
pub proof fn law_refused_submission_changes_nothing(
    c: OracleConfig,
    b: OracleBook,
    s: OracleSubmission,
    signed: bool,
)
    requires
        submit_effect(c, b, s, signed).0 is Err,
    ensures
        submit_effect(c, b, s, signed).1 == b,
{
}

/// An average lies between the lowest and the highest of its prices.
pub proof fn law_average_is_between(
    entries: Seq<HistoricalPrice>,
    cutoff: u64,
    low: u128,
    high: u128,
)
    requires
        since(entries, cutoff).len() > 0,
        forall|i: int|
            0 <= i < since(entries, cutoff).len() ==> low <= (#[trigger] since(
                entries,
                cutoff,
            )[i]).price <= high,
    ensures
        average_since(entries, cutoff) matches Some(avg) && low <= avg <= high,
{
    let recent = since(entries, cutoff);
    lemma_sum_between(recent, low, high);
    let n = recent.len() as int;
    let sum = price_sum(recent);
    let avg = sum / n;
    assert(low <= avg <= high) by (nonlinear_arith)
        requires
            low * n <= sum <= high * n,
            n > 0,
            avg == sum / n,
    ;
}

proof fn lemma_sum_between(s: Seq<HistoricalPrice>, low: u128, high: u128)
    requires
        forall|i: int| 0 <= i < s.len() ==> low <= (#[trigger] s[i]).price <= high,
    ensures
        low * s.len() <= price_sum(s) <= high * s.len(),
    decreases s.len(),
{
    let n = s.len() as int;
    if n > 0 {
        let head = s.drop_last();
        assert forall|i: int| 0 <= i < head.len() implies low <= (#[trigger] head[i]).price
            <= high by {
            assert(head[i] == s[i]);
        }
        lemma_sum_between(head, low, high);
        assert(low * n == low * (n - 1) + low) by (nonlinear_arith);
        assert(high * n == high * (n - 1) + high) by (nonlinear_arith);
    }
}

} // verus!
