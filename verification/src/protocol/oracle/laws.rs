//! What submissions come to, said of the prices that were submitted and of the book before and after.

use crate::protocol::oracle::{
    active_ids, average_since, back, earliest, ids, is_outlier, law_ordered_sorts,
    median, ordered, outlier_ids, place, price_sum, publish, reliable_ids, since, strike,
    struck, submission_of, submit_effect, submitted, HistoricalPrice, OracleBook,
    OracleConfig, OracleError, OracleSubmission, OracleValidatorInfo, Quote,
};
use crate::vec_map::list_of;
use vstd::prelude::*;

verus! {

/// How many submissions have a price that `f` holds of.
pub open spec fn prices_where(subs: Seq<OracleSubmission>, f: spec_fn(u128) -> bool) -> int
    decreases subs.len(),
{
    if subs.len() == 0 {
        0
    } else {
        prices_where(subs.drop_last(), f) + if f(subs.last().price) {
            1int
        } else {
            0
        }
    }
}

/// How many quotes have a price that `f` holds of.
pub open spec fn quotes_where(s: Seq<Quote>, f: spec_fn(u128) -> bool) -> int
    decreases s.len(),
{
    if s.len() == 0 {
        0
    } else {
        quotes_where(s.drop_last(), f) + if f(s.last().1) {
            1int
        } else {
            0
        }
    }
}

proof fn lemma_place_counts(s: Seq<Quote>, q: Quote, f: spec_fn(u128) -> bool)
    ensures
        quotes_where(place(s, q), f) == quotes_where(s, f) + if f(q.1) {
            1int
        } else {
            0
        },
    decreases s.len(),
{
    if s.len() == 0 || s.last().1 <= q.1 {
        assert(place(s, q).drop_last() =~= s);
    } else {
        lemma_place_counts(s.drop_last(), q, f);
        assert(place(s, q).drop_last() =~= place(s.drop_last(), q));
    }
}

proof fn lemma_ordered_counts(subs: Seq<OracleSubmission>, f: spec_fn(u128) -> bool)
    ensures
        quotes_where(ordered(subs), f) == prices_where(subs, f),
    decreases subs.len(),
{
    if subs.len() > 0 {
        lemma_ordered_counts(subs.drop_last(), f);
        lemma_place_counts(
            ordered(subs.drop_last()),
            (subs.last().validator_id, subs.last().price),
            f,
        );
    }
}

proof fn lemma_few_before(s: Seq<Quote>, f: spec_fn(u128) -> bool, k: int)
    requires
        0 <= k <= s.len(),
        forall|i: int| k <= i < s.len() ==> !f((#[trigger] s[i]).1),
    ensures
        quotes_where(s, f) <= k,
    decreases s.len(),
{
    if s.len() > 0 {
        let rest = s.drop_last();
        if k == s.len() {
            assert forall|i: int| k - 1 <= i < rest.len() implies !f((#[trigger] rest[i]).1) by {}
            lemma_few_before(rest, f, k - 1);
        } else {
            assert forall|i: int| k <= i < rest.len() implies !f((#[trigger] rest[i]).1) by {
                assert(rest[i] == s[i]);
            }
            assert(!f(s[s.len() - 1].1));
            lemma_few_before(rest, f, k);
        }
    }
}

proof fn lemma_few_after(s: Seq<Quote>, f: spec_fn(u128) -> bool, k: int)
    requires
        0 <= k <= s.len(),
        forall|i: int| 0 <= i < k ==> !f((#[trigger] s[i]).1),
    ensures
        0 <= quotes_where(s, f) <= s.len() - k,
    decreases s.len(),
{
    if s.len() > 0 {
        let rest = s.drop_last();
        let j = if k == s.len() {
            k - 1
        } else {
            k
        };
        assert forall|i: int| 0 <= i < j implies !f((#[trigger] rest[i]).1) by {
            assert(rest[i] == s[i]);
        }
        lemma_few_after(rest, f, j);
        if k == s.len() {
            assert(!f(s[k - 1].1));
        }
    }
}

/// The published price splits the submissions: no more than half of them are below it, and fewer
/// than half above it; it is one of them.
pub proof fn law_published_price_is_the_middle(c: OracleConfig, b: OracleBook, asset_id: u64)
    requires
        b.pending[asset_id].len() > 0,
    ensures
        ({
            let subs = b.pending[asset_id];
            let n = subs.len() as int;
            let m = publish(c, b, asset_id).aggregated[asset_id].median_price;
            &&& prices_where(subs, |p: u128| p < m) <= n / 2
            &&& prices_where(subs, |p: u128| p > m) <= n - 1 - n / 2
            &&& prices_where(subs, |p: u128| p == m) >= 1
        }),
{
    let subs = b.pending[asset_id];
    let n = subs.len() as int;
    let m = publish(c, b, asset_id).aggregated[asset_id].median_price;
    let s = ordered(subs);
    law_ordered_sorts(subs);
    let k = n / 2;
    let below = |p: u128| p < m;
    let above = |p: u128| p > m;
    let same = |p: u128| p == m;
    let others = |p: u128| p != m;
    assert(s[k].1 == m);
    assert forall|i: int| k <= i < s.len() implies !below((#[trigger] s[i]).1) by {
        assert(s[k].1 <= s[i].1);
    }
    assert forall|i: int| 0 <= i < k + 1 implies !above((#[trigger] s[i]).1) by {
        assert(s[i].1 <= s[k].1);
    }
    lemma_few_before(s, below, k);
    lemma_few_after(s, above, k + 1);
    lemma_ordered_counts(subs, below);
    lemma_ordered_counts(subs, above);
    lemma_ordered_counts(subs, same);
    lemma_some_where(s, same, k);
}

proof fn lemma_some_where(s: Seq<Quote>, f: spec_fn(u128) -> bool, k: int)
    requires
        0 <= k < s.len(),
        f(s[k].1),
    ensures
        quotes_where(s, f) >= 1,
    decreases s.len(),
{
    lemma_few_after(s.drop_last(), f, 0);
    if k < s.len() - 1 {
        assert(s.drop_last()[k] == s[k]);
        lemma_some_where(s.drop_last(), f, k);
    }
}

/// No two submissions are by the same validator.
pub open spec fn one_each(subs: Seq<OracleSubmission>) -> bool {
    forall|i: int, j: int|
        0 <= i < subs.len() && 0 <= j < subs.len() && (#[trigger] subs[i]).validator_id == (
        #[trigger] subs[j]).validator_id ==> i == j
}

/// A validator has one submission at a time: a later one takes the place of the earlier, and all
/// others stay.
pub proof fn law_submission_takes_its_place(subs: Seq<OracleSubmission>, s: OracleSubmission)
    requires
        one_each(subs),
    ensures
        one_each(submitted(subs, s)),
        submitted(subs, s).contains(s),
        forall|t: OracleSubmission|
            t.validator_id != s.validator_id ==> (#[trigger] submitted(subs, s).contains(t)
                <==> subs.contains(t)),
        submitted(subs, s).len() == subs.len() + if exists|i: int|
            0 <= i < subs.len() && (#[trigger] subs[i]).validator_id == s.validator_id {
            0int
        } else {
            1
        },
{
    let out = submitted(subs, s);
    lemma_place_of(subs, s.validator_id, 0);
    let at = submission_of(subs, s.validator_id, 0);
    assert(out[at] == s);
    assert forall|i: int, j: int|
        0 <= i < out.len() && 0 <= j < out.len() && (#[trigger] out[i]).validator_id == (
        #[trigger] out[j]).validator_id implies i == j by {
        if i != at && j != at {
            assert(out[i] == subs[i] && out[j] == subs[j]);
        } else if i != at {
            assert(out[i] == subs[i]);
        } else if j != at {
            assert(out[j] == subs[j]);
        }
    }
    assert forall|t: OracleSubmission| t.validator_id != s.validator_id implies (
    #[trigger] out.contains(t) <==> subs.contains(t)) by {
        if out.contains(t) {
            let i = out.index_of(t);
            assert(out[i] == t);
            assert(subs[i] == t);
        }
        if subs.contains(t) {
            let i = subs.index_of(t);
            assert(subs[i] == t);
            assert(out[i] == t);
        }
    }
}

proof fn lemma_place_of(subs: Seq<OracleSubmission>, validator_id: u32, from: int)
    requires
        0 <= from <= subs.len(),
    ensures
        ({
            let at = submission_of(subs, validator_id, from);
            &&& from <= at <= subs.len()
            &&& at < subs.len() ==> subs[at].validator_id == validator_id
            &&& forall|i: int| from <= i < at ==> (#[trigger] subs[i]).validator_id != validator_id
        }),
    decreases subs.len() - from,
{
    if from < subs.len() && subs[from].validator_id != validator_id {
        lemma_place_of(subs, validator_id, from + 1);
    }
}

/// A submission is taken exactly from a validator that is registered and active, for a block that is
/// a multiple of the interval and at which it has not submitted, and only signed. It is put down for
/// the asset and the validator. The price is published exactly where at least two thirds of the
/// active validators have submitted.
pub proof fn law_submission_is_exact(
    c: OracleConfig,
    b: OracleBook,
    s: OracleSubmission,
    signed: bool,
)
    requires
        b.validators.contains_key(s.validator_id) ==> b.validators[s.validator_id].submission_count
            < u64::MAX,
    ensures
        ({
            let (r, h) = submit_effect(c, b, s, signed);
            let v = b.validators[s.validator_id];
            let taken = submitted(list_of(b.pending, s.asset_id), s);
            let active = Set::new(
                |id: u32| b.validators.contains_key(id) && b.validators[id].is_active,
            ).len();
            let entered = OracleValidatorInfo {
                last_submission_block: s.block_number,
                submission_count: (v.submission_count + 1) as u64,
                ..v
            };
            &&& r is Ok <==> {
                &&& b.validators.contains_key(s.validator_id)
                &&& v.is_active
                &&& v.last_submission_block != s.block_number
                &&& if c.update_interval == 0 {
                    s.block_number == 0
                } else {
                    s.block_number as int % c.update_interval as int == 0
                }
                &&& signed
            }
            &&& r is Err ==> h == b
            &&& !b.validators.contains_key(s.validator_id) ==> r == Err::<(), OracleError>(
                OracleError::ValidatorNotFound,
            )
            &&& b.validators.contains_key(s.validator_id) && !v.is_active ==> r == Err::<
                (),
                OracleError,
            >(OracleError::ValidatorDisabled)
            &&& r is Ok && 3 * taken.len() < 2 * active ==> {
                &&& h.pending == b.pending.insert(s.asset_id, taken)
                &&& h.validators == b.validators.insert(s.validator_id, entered)
                &&& h.aggregated == b.aggregated
                &&& h.history == b.history
                &&& h.contributors == b.contributors
                &&& h.outliers == b.outliers
            }
            &&& r is Ok && 3 * taken.len() >= 2 * active ==> h == publish(
                c,
                OracleBook {
                    pending: b.pending.insert(s.asset_id, taken),
                    validators: b.validators.insert(s.validator_id, entered),
                    ..b
                },
                s.asset_id,
            )
        }),
{
    let v = b.validators[s.validator_id];
    let entered = OracleValidatorInfo {
        last_submission_block: s.block_number,
        submission_count: (v.submission_count + 1) as u64,
        ..v
    };
    if b.validators.contains_key(s.validator_id) {
        assert(active_ids(b.validators.insert(s.validator_id, entered)) =~= Set::new(
            |id: u32| b.validators.contains_key(id) && b.validators[id].is_active,
        ));
    }
}

/// Whether a price is further from the published one than the threshold allows.
pub open spec fn strays(price: u128, m: u128, threshold_bps: u64) -> bool {
    let gap: int = if price > m {
        price - m
    } else {
        m - price
    };
    m > 0 && gap * 10_000 >= (threshold_bps + 1) * m
}

proof fn lemma_strays(price: u128, m: u128, threshold_bps: u64)
    ensures
        is_outlier(price, m, threshold_bps) == strays(price, m, threshold_bps),
{
    if m > 0 {
        let x: int = if price > m {
            (price - m) * 10_000
        } else {
            (m - price) * 10_000
        };
        let t = threshold_bps as int;
        let d = m as int;
        assert(x / d > t <==> x >= (t + 1) * d) by (nonlinear_arith)
            requires
                d > 0,
                x >= 0,
                t >= 0,
        ;
    }
}

proof fn lemma_filter_counts(s: Seq<Quote>, f: spec_fn(u128) -> bool, g: spec_fn(Quote) -> bool)
    requires
        forall|q: Quote| #[trigger] g(q) == f(q.1),
    ensures
        s.filter(g).len() == quotes_where(s, f),
    decreases s.len(),
{
    reveal(Seq::filter);
    if s.len() > 0 {
        lemma_filter_counts(s.drop_last(), f, g);
    }
}

proof fn lemma_filter_holds(s: Seq<Quote>, g: spec_fn(Quote) -> bool)
    ensures
        forall|i: int| 0 <= i < s.filter(g).len() ==> g(#[trigger] s.filter(g)[i]) && s.contains(
            s.filter(g)[i],
        ),
        forall|q: Quote| s.contains(q) && #[trigger] g(q) ==> s.filter(g).contains(q),
{
    broadcast use vstd::seq_lib::group_filter_ensures;

    assert forall|q: Quote| s.contains(q) && #[trigger] g(q) implies s.filter(g).contains(q) by {
        let i = s.index_of(q);
        assert(s[i] == q);
    }
    assert forall|i: int| 0 <= i < s.filter(g).len() implies g(#[trigger] s.filter(g)[i])
        && s.contains(s.filter(g)[i]) by {
        assert(s.filter(g).contains(s.filter(g)[i]));
        lemma_filter_from(s, g, i);
    }
}

proof fn lemma_filter_from(s: Seq<Quote>, g: spec_fn(Quote) -> bool, i: int)
    requires
        0 <= i < s.filter(g).len(),
    ensures
        s.contains(s.filter(g)[i]),
    decreases s.len(),
{
    reveal(Seq::filter);
    if s.len() > 0 {
        let rest = s.drop_last();
        let kept = rest.filter(g);
        if i < kept.len() {
            lemma_filter_from(rest, g, i);
            let j = rest.index_of(kept[i]);
            assert(rest[j] == kept[i]);
            assert(s[j] == kept[i]);
        } else {
            assert(s[s.len() - 1] == s.filter(g)[i]);
        }
    }
}

proof fn lemma_ordered_contains(subs: Seq<OracleSubmission>, q: Quote)
    ensures
        ordered(subs).contains(q) <==> exists|i: int|
            0 <= i < subs.len() && (#[trigger] subs[i]).validator_id == q.0 && subs[i].price == q.1,
{
    broadcast use vstd::seq_lib::group_to_multiset_ensures;

    law_ordered_sorts(subs);
    let all = crate::protocol::oracle::quotes(subs);
    assert(ordered(subs).contains(q) <==> ordered(subs).to_multiset().count(q) > 0);
    assert(all.contains(q) <==> all.to_multiset().count(q) > 0);
    if all.contains(q) {
        let i = all.index_of(q);
        assert(all[i] == q);
        assert(subs[i].validator_id == q.0);
    }
    if exists|i: int|
        0 <= i < subs.len() && (#[trigger] subs[i]).validator_id == q.0 && subs[i].price == q.1 {
        let i = choose|i: int|
            0 <= i < subs.len() && (#[trigger] subs[i]).validator_id == q.0 && subs[i].price == q.1;
        assert(all[i] == q);
    }
}

/// The outliers are exactly the validators whose price strays from the published one; they are
/// counted, and the others count as contributors.
pub proof fn law_outliers_are_exact(c: OracleConfig, b: OracleBook, asset_id: u64)
    requires
        b.pending[asset_id].len() > 0,
        b.pending[asset_id].len() <= usize::MAX,
        one_each(b.pending[asset_id]),
    ensures
        ({
            let subs = b.pending[asset_id];
            let h = publish(c, b, asset_id);
            let m = h.aggregated[asset_id].median_price;
            let t = c.outlier_threshold_bps;
            &&& forall|id: u32| #[trigger]
                h.outliers.contains(id) <==> exists|i: int|
                    0 <= i < subs.len() && (#[trigger] subs[i]).validator_id == id && strays(
                        subs[i].price,
                        m,
                        t,
                    )
            &&& forall|id: u32| #[trigger]
                h.contributors.contains(id) <==> exists|i: int|
                    0 <= i < subs.len() && (#[trigger] subs[i]).validator_id == id && !strays(
                        subs[i].price,
                        m,
                        t,
                    )
            &&& h.aggregated[asset_id].outlier_count == prices_where(
                subs,
                |p: u128| strays(p, m, t),
            )
            &&& h.aggregated[asset_id].submission_count == subs.len()
            &&& h.aggregated[asset_id].asset_id == asset_id
            &&& h.outliers.len() == h.aggregated[asset_id].outlier_count
        }),
{
    let subs = b.pending[asset_id];
    let h = publish(c, b, asset_id);
    let s = ordered(subs);
    let m = median(s);
    let t = c.outlier_threshold_bps;
    law_ordered_sorts(subs);
    let bad = |q: Quote| is_outlier(q.1, m, t);
    let f = |p: u128| strays(p, m, t);
    assert forall|q: Quote| #[trigger] bad(q) == f(q.1) by {
        lemma_strays(q.1, m, t);
    }
    lemma_filter_counts(s, f, bad);
    lemma_ordered_counts(subs, f);
    lemma_few_after(s, f, 0);
    lemma_filter_holds(s, bad);
    let out = outlier_ids(s, m, t);
    assert(out == ids(s.filter(bad)));
    assert forall|id: u32| #[trigger] out.contains(id) <==> exists|i: int|
        0 <= i < subs.len() && (#[trigger] subs[i]).validator_id == id && strays(
            subs[i].price,
            m,
            t,
        ) by {
        if out.contains(id) {
            let k = out.index_of(id);
            let q = s.filter(bad)[k];
            assert(out[k] == id && q.0 == id && bad(q));
            lemma_ordered_contains(subs, q);
            let i = choose|i: int|
                0 <= i < subs.len() && (#[trigger] subs[i]).validator_id == q.0 && subs[i].price
                    == q.1;
            assert(subs[i].validator_id == id && f(subs[i].price));
        }
        if exists|i: int|
            0 <= i < subs.len() && (#[trigger] subs[i]).validator_id == id && strays(
                subs[i].price,
                m,
                t,
            ) {
            let i = choose|i: int|
                0 <= i < subs.len() && (#[trigger] subs[i]).validator_id == id && strays(
                    subs[i].price,
                    m,
                    t,
                );
            let q = (id, subs[i].price);
            lemma_ordered_contains(subs, q);
            assert(bad(q));
            let k = s.filter(bad).index_of(q);
            assert(s.filter(bad)[k] == q);
            assert(out[k] == id);
        }
    }
    let good = |q: Quote| !out.contains(q.0);
    lemma_filter_holds(s, good);
    let kept = reliable_ids(s, out);
    assert(kept == ids(s.filter(good)));
    assert forall|id: u32| #[trigger] kept.contains(id) <==> exists|i: int|
        0 <= i < subs.len() && (#[trigger] subs[i]).validator_id == id && !strays(
            subs[i].price,
            m,
            t,
        ) by {
        if kept.contains(id) {
            let k = kept.index_of(id);
            let q = s.filter(good)[k];
            assert(kept[k] == id && q.0 == id && good(q));
            lemma_ordered_contains(subs, q);
            let i = choose|i: int|
                0 <= i < subs.len() && (#[trigger] subs[i]).validator_id == q.0 && subs[i].price
                    == q.1;
            assert(!out.contains(id));
            assert(subs[i].validator_id == id);
        }
        if exists|i: int|
            0 <= i < subs.len() && (#[trigger] subs[i]).validator_id == id && !strays(
                subs[i].price,
                m,
                t,
            ) {
            let i = choose|i: int|
                0 <= i < subs.len() && (#[trigger] subs[i]).validator_id == id && !strays(
                    subs[i].price,
                    m,
                    t,
                );
            let q = (id, subs[i].price);
            lemma_ordered_contains(subs, q);
            if out.contains(id) {
                let j = choose|j: int|
                    0 <= j < subs.len() && (#[trigger] subs[j]).validator_id == id && strays(
                        subs[j].price,
                        m,
                        t,
                    );
                assert(subs[i].validator_id == subs[j].validator_id);
                assert(i == j);
            }
            assert(good(q));
            let k = s.filter(good).index_of(q);
            assert(s.filter(good)[k] == q);
            assert(kept[k] == id);
        }
    }
}

/// No two quotes are by the same validator.
spec fn quoted_once(s: Seq<Quote>) -> bool {
    forall|i: int, j: int|
        0 <= i < s.len() && 0 <= j < s.len() && (#[trigger] s[i]).0 == (#[trigger] s[j]).0 ==> i
            == j
}

proof fn lemma_place_once(s: Seq<Quote>, q: Quote)
    requires
        quoted_once(s),
        forall|i: int| 0 <= i < s.len() ==> (#[trigger] s[i]).0 != q.0,
    ensures
        quoted_once(place(s, q)),
        forall|i: int|
            0 <= i < place(s, q).len() ==> s.contains(#[trigger] place(s, q)[i]) || place(s, q)[i]
                == q,
        place(s, q).len() == s.len() + 1,
    decreases s.len(),
{
    let out = place(s, q);
    if s.len() == 0 || s.last().1 <= q.1 {
        assert forall|i: int| 0 <= i < out.len() implies s.contains(#[trigger] out[i]) || out[i]
            == q by {
            if i < s.len() {
                assert(s[i] == out[i]);
            }
        }
    } else {
        let rest = s.drop_last();
        assert forall|i: int| 0 <= i < rest.len() implies (#[trigger] rest[i]).0 != q.0 by {
            assert(rest[i] == s[i]);
        }
        lemma_place_once(rest, q);
        let inner = place(rest, q);
        assert forall|i: int| 0 <= i < out.len() implies s.contains(#[trigger] out[i]) || out[i]
            == q by {
            if i < inner.len() {
                assert(out[i] == inner[i]);
                if rest.contains(inner[i]) {
                    let k = rest.index_of(inner[i]);
                    assert(rest[k] == inner[i]);
                    assert(s[k] == inner[i]);
                }
            } else {
                assert(s[s.len() - 1] == out[i]);
            }
        }
        assert forall|i: int, j: int|
            0 <= i < out.len() && 0 <= j < out.len() && (#[trigger] out[i]).0 == (
            #[trigger] out[j]).0 implies i == j by {
            if i < inner.len() && j < inner.len() {
                assert(out[i] == inner[i] && out[j] == inner[j]);
            } else if i < inner.len() || j < inner.len() {
                let k = if i < inner.len() {
                    i
                } else {
                    j
                };
                assert(out[k] == inner[k]);
                assert(s[s.len() - 1] == s.last());
                if rest.contains(inner[k]) {
                    let l = rest.index_of(inner[k]);
                    assert(rest[l] == inner[k]);
                    assert(s[l] == inner[k]);
                }
            }
        }
    }
}

proof fn lemma_ordered_once(subs: Seq<OracleSubmission>)
    requires
        one_each(subs),
    ensures
        quoted_once(ordered(subs)),
    decreases subs.len(),
{
    if subs.len() > 0 {
        let rest = subs.drop_last();
        assert forall|i: int, j: int|
            0 <= i < rest.len() && 0 <= j < rest.len() && (#[trigger] rest[i]).validator_id == (
            #[trigger] rest[j]).validator_id implies i == j by {
            assert(rest[i] == subs[i] && rest[j] == subs[j]);
        }
        lemma_ordered_once(rest);
        let s = ordered(rest);
        let q = (subs.last().validator_id, subs.last().price);
        assert forall|i: int| 0 <= i < s.len() implies (#[trigger] s[i]).0 != q.0 by {
            lemma_ordered_contains(rest, s[i]);
            assert(s.contains(s[i]));
            let k = choose|k: int|
                0 <= k < rest.len() && (#[trigger] rest[k]).validator_id == s[i].0
                    && rest[k].price == s[i].1;
            assert(rest[k] == subs[k]);
            assert(subs[subs.len() - 1] == subs.last());
        }
        lemma_place_once(s, q);
    }
}

proof fn lemma_filter_once(s: Seq<Quote>, g: spec_fn(Quote) -> bool)
    requires
        quoted_once(s),
    ensures
        ids(s.filter(g)).no_duplicates(),
    decreases s.len(),
{
    reveal(Seq::filter);
    if s.len() > 0 {
        let rest = s.drop_last();
        let kept = rest.filter(g);
        assert forall|i: int, j: int|
            0 <= i < rest.len() && 0 <= j < rest.len() && (#[trigger] rest[i]).0 == (
            #[trigger] rest[j]).0 implies i == j by {
            assert(rest[i] == s[i] && rest[j] == s[j]);
        }
        lemma_filter_once(rest, g);
        let out = s.filter(g);
        assert forall|i: int, j: int| 0 <= i < out.len() && 0 <= j < out.len() && i != j implies ids(
            out,
        )[i] != ids(out)[j] by {
            if i < kept.len() && j < kept.len() {
                assert(ids(kept)[i] != ids(kept)[j]);
            } else {
                let k = if i < kept.len() {
                    i
                } else {
                    j
                };
                lemma_filter_from(rest, g, k);
                let l = rest.index_of(kept[k]);
                assert(rest[l] == kept[k]);
                assert(s[l] == kept[k]);
                assert(s[s.len() - 1] == s.last());
            }
        }
    }
}

proof fn lemma_strike(
    validators: Map<u32, OracleValidatorInfo>,
    outliers: Seq<u32>,
    tolerance: u32,
    id: u32,
)
    requires
        outliers.no_duplicates(),
    ensures
        ({
            let after = strike(validators, outliers, tolerance);
            &&& after.dom() == validators.dom()
            &&& !outliers.contains(id) ==> after[id] == validators[id]
            &&& outliers.contains(id) && validators.contains_key(id) ==> after[id] == struck(
                validators[id],
                tolerance,
            )
        }),
    decreases outliers.len(),
{
    if outliers.len() > 0 {
        let rest = outliers.drop_last();
        let last = outliers.last();
        assert(outliers[outliers.len() - 1] == last);
        assert forall|i: int, j: int|
            0 <= i < rest.len() && 0 <= j < rest.len() && i != j implies rest[i] != rest[j] by {
            assert(rest[i] == outliers[i] && rest[j] == outliers[j]);
        }
        lemma_strike(validators, rest, tolerance, id);
        if outliers.contains(id) {
            let i = outliers.index_of(id);
            if i < rest.len() {
                assert(rest[i] == id);
            }
        }
        if rest.contains(id) {
            let i = rest.index_of(id);
            assert(rest[i] == outliers[i]);
            assert(outliers[i] == id);
        }
        assert(strike(validators, outliers, tolerance).dom() =~= validators.dom());
    }
}

/// Every validator whose price strays is charged one more outlier, and is put out of action once the
/// tolerance is reached; nothing else about a validator changes, and no other validator changes.
pub proof fn law_strikes_are_exact(c: OracleConfig, b: OracleBook, asset_id: u64, id: u32)
    requires
        b.pending[asset_id].len() > 0,
        one_each(b.pending[asset_id]),
        b.validators.contains_key(id),
        b.validators[id].outlier_count < u32::MAX,
    ensures
        ({
            let subs = b.pending[asset_id];
            let h = publish(c, b, asset_id);
            let m = h.aggregated[asset_id].median_price;
            let v = b.validators[id];
            let strayed = exists|i: int|
                0 <= i < subs.len() && (#[trigger] subs[i]).validator_id == id && strays(
                    subs[i].price,
                    m,
                    c.outlier_threshold_bps,
                );
            &&& h.validators.dom() == b.validators.dom()
            &&& !strayed ==> h.validators[id] == v
            &&& strayed ==> {
                &&& h.validators[id].outlier_count == v.outlier_count + 1
                &&& h.validators[id].is_active == (v.is_active && v.outlier_count + 1
                    < c.outlier_tolerance)
                &&& h.validators[id].validator_id == v.validator_id
                &&& h.validators[id].public_key == v.public_key
                &&& h.validators[id].last_submission_block == v.last_submission_block
                &&& h.validators[id].submission_count == v.submission_count
            }
        }),
{
    let subs = b.pending[asset_id];
    let s = ordered(subs);
    let m = median(s);
    let t = c.outlier_threshold_bps;
    let h = publish(c, b, asset_id);
    let bad = |q: Quote| is_outlier(q.1, m, t);
    lemma_ordered_once(subs);
    lemma_filter_once(s, bad);
    assert(h.outliers == ids(s.filter(bad)));
    lemma_strike(b.validators, h.outliers, c.outlier_tolerance, id);
    lemma_outlier_set(c, b, asset_id, id);
}

proof fn lemma_outlier_set(c: OracleConfig, b: OracleBook, asset_id: u64, id: u32)
    requires
        b.pending[asset_id].len() > 0,
    ensures
        ({
            let subs = b.pending[asset_id];
            let h = publish(c, b, asset_id);
            let m = h.aggregated[asset_id].median_price;
            h.outliers.contains(id) <==> exists|i: int|
                0 <= i < subs.len() && (#[trigger] subs[i]).validator_id == id && strays(
                    subs[i].price,
                    m,
                    c.outlier_threshold_bps,
                )
        }),
{
    let subs = b.pending[asset_id];
    let s = ordered(subs);
    let m = median(s);
    let t = c.outlier_threshold_bps;
    let bad = |q: Quote| is_outlier(q.1, m, t);
    let out = outlier_ids(s, m, t);
    assert(out == ids(s.filter(bad)));
    lemma_filter_holds(s, bad);
    if out.contains(id) {
        let k = out.index_of(id);
        let q = s.filter(bad)[k];
        assert(out[k] == id && q.0 == id && bad(q));
        lemma_ordered_contains(subs, q);
        lemma_strays(q.1, m, t);
        let i = choose|i: int|
            0 <= i < subs.len() && (#[trigger] subs[i]).validator_id == q.0 && subs[i].price == q.1;
        assert(subs[i].validator_id == id);
    }
    if exists|i: int|
        0 <= i < subs.len() && (#[trigger] subs[i]).validator_id == id && strays(
            subs[i].price,
            m,
            t,
        ) {
        let i = choose|i: int|
            0 <= i < subs.len() && (#[trigger] subs[i]).validator_id == id && strays(
                subs[i].price,
                m,
                t,
            );
        let q = (id, subs[i].price);
        lemma_ordered_contains(subs, q);
        lemma_strays(q.1, m, t);
        assert(bad(q));
        let k = s.filter(bad).index_of(q);
        assert(s.filter(bad)[k] == q);
        assert(out[k] == id);
    }
}

proof fn lemma_earliest(subs: Seq<OracleSubmission>)
    requires
        subs.len() > 0,
    ensures
        forall|i: int| 0 <= i < subs.len() ==> earliest(subs) <= (#[trigger] subs[i]).timestamp,
        exists|i: int| 0 <= i < subs.len() && (#[trigger] subs[i]).timestamp == earliest(subs),
    decreases subs.len(),
{
    let rest = subs.drop_last();
    assert(subs[subs.len() - 1] == subs.last());
    if rest.len() > 0 {
        lemma_earliest(rest);
        assert forall|i: int| 0 <= i < subs.len() implies earliest(subs) <= (
        #[trigger] subs[i]).timestamp by {
            if i < rest.len() {
                assert(rest[i] == subs[i]);
            }
        }
        let k = choose|k: int|
            0 <= k < rest.len() && (#[trigger] rest[k]).timestamp == earliest(rest);
        assert(subs[k] == rest[k]);
    }
}

/// How many entries are no older than `time - window`.
pub open spec fn entries_within(entries: Seq<HistoricalPrice>, time: u64, window: u64) -> int
    decreases entries.len(),
{
    if entries.len() == 0 {
        0
    } else {
        entries_within(entries.drop_last(), time, window) + if entries.last().timestamp + window
            >= time {
            1int
        } else {
            0
        }
    }
}

/// What the prices of the entries that are no older than `time - window` add up to.
pub open spec fn sum_within(entries: Seq<HistoricalPrice>, time: u64, window: u64) -> int
    decreases entries.len(),
{
    if entries.len() == 0 {
        0
    } else {
        sum_within(entries.drop_last(), time, window) + if entries.last().timestamp + window
            >= time {
            entries.last().price as int
        } else {
            0
        }
    }
}

proof fn lemma_since(entries: Seq<HistoricalPrice>, time: u64, window: u64)
    ensures
        ({
            let kept = since(entries, back(time, window));
            &&& kept.len() == entries_within(entries, time, window)
            &&& price_sum(kept) == sum_within(entries, time, window)
            &&& 0 <= price_sum(kept) <= kept.len() * u128::MAX
            &&& forall|e: HistoricalPrice| #[trigger]
                kept.contains(e) <==> entries.contains(e) && e.timestamp + window >= time
            &&& (forall|i: int|
                0 <= i < entries.len() ==> (#[trigger] entries[i]).timestamp + window >= time)
                ==> kept == entries
        }),
    decreases entries.len(),
{
    let f = |e: HistoricalPrice| e.timestamp >= back(time, window);
    let kept = since(entries, back(time, window));
    assert(kept == entries.filter(f));
    reveal(Seq::filter);
    if entries.len() > 0 {
        let rest = entries.drop_last();
        let last = entries.last();
        lemma_since(rest, time, window);
        let before = since(rest, back(time, window));
        assert(before == rest.filter(f));
        assert(entries[entries.len() - 1] == last);
        assert(kept == if f(last) {
            before.push(last)
        } else {
            before
        });
        if f(last) {
            assert(kept.drop_last() =~= before);
            assert(kept.len() * u128::MAX == before.len() * u128::MAX + u128::MAX) by (
                nonlinear_arith)
                requires
                    kept.len() == before.len() + 1,
            ;
        }
        assert forall|e: HistoricalPrice| #[trigger] kept.contains(e) <==> entries.contains(e)
            && e.timestamp + window >= time by {
            if kept.contains(e) {
                let i = kept.index_of(e);
                if i < before.len() {
                    assert(before[i] == e);
                    assert(before.contains(e));
                    let j = rest.index_of(e);
                    assert(rest[j] == e);
                    assert(entries[j] == e);
                }
            }
            if entries.contains(e) && e.timestamp + window >= time {
                let j = entries.index_of(e);
                if j < rest.len() {
                    assert(rest[j] == e);
                    assert(before.contains(e));
                    let i = before.index_of(e);
                    assert(kept[i] == e);
                } else {
                    assert(kept[kept.len() - 1] == e);
                }
            }
        }
        if forall|i: int|
            0 <= i < entries.len() ==> (#[trigger] entries[i]).timestamp + window >= time {
            assert forall|i: int| 0 <= i < rest.len() implies (#[trigger] rest[i]).timestamp
                + window >= time by {
                assert(rest[i] == entries[i]);
            }
            assert(before == rest);
            assert(rest.push(last) =~= entries);
        }
    }
}

/// Publishing clears the submissions of the asset and of no other, dates the price by the earliest of
/// them, and adds it to the history of that asset alone, from which it drops just what is older than
/// the window.
pub proof fn law_publication_is_exact(c: OracleConfig, b: OracleBook, asset_id: u64)
    requires
        b.pending[asset_id].len() > 0,
    ensures
        ({
            let subs = b.pending[asset_id];
            let h = publish(c, b, asset_id);
            let a = h.aggregated[asset_id];
            let old_entries = list_of(b.history, asset_id);
            let entries = h.history[asset_id];
            let e = HistoricalPrice {
                price: a.median_price,
                timestamp: a.timestamp,
                block_number: a.block_number,
            };
            let w = c.twap_window_secs;
            &&& h.pending == b.pending.remove(asset_id)
            &&& forall|i: int| 0 <= i < subs.len() ==> a.timestamp <= (#[trigger] subs[i]).timestamp
            &&& exists|i: int| 0 <= i < subs.len() && (#[trigger] subs[i]).timestamp == a.timestamp
            &&& a.block_number == subs[0].block_number
            &&& h.aggregated.remove(asset_id) == b.aggregated.remove(asset_id)
            &&& h.aggregated.contains_key(asset_id)
            &&& h.history.remove(asset_id) == b.history.remove(asset_id)
            &&& h.history.contains_key(asset_id)
            &&& entries.len() == 1 + entries_within(old_entries, a.timestamp, w)
            &&& entries.last() == e
            &&& forall|x: HistoricalPrice| #[trigger]
                entries.contains(x) <==> x == e || (old_entries.contains(x) && x.timestamp + w
                    >= a.timestamp)
            &&& (forall|i: int|
                0 <= i < old_entries.len() ==> (#[trigger] old_entries[i]).timestamp + w
                    >= a.timestamp) ==> entries == old_entries.push(e)
        }),
{
    let subs = b.pending[asset_id];
    let h = publish(c, b, asset_id);
    let a = h.aggregated[asset_id];
    let w = c.twap_window_secs;
    lemma_earliest(subs);
    let old_entries = list_of(b.history, asset_id);
    let e = HistoricalPrice {
        price: a.median_price,
        timestamp: a.timestamp,
        block_number: a.block_number,
    };
    let full = old_entries.push(e);
    assert(full.drop_last() =~= old_entries);
    assert(full[full.len() - 1] == e);
    assert(h.aggregated.remove(asset_id) =~= b.aggregated.remove(asset_id));
    assert(h.history.remove(asset_id) =~= b.history.remove(asset_id));
    lemma_since(full, a.timestamp, w);
    lemma_since(old_entries, a.timestamp, w);
    let kept = since(full, back(a.timestamp, w));
    let entries = h.history[asset_id];
    assert(entries_within(full, a.timestamp, w) == entries_within(old_entries, a.timestamp, w) + 1);
    if full.len() <= 1 {
        assert(old_entries.len() == 0);
        assert(entries_within(old_entries, a.timestamp, w) == 0);
        assert(entries == full);
        assert(forall|i: int| 0 <= i < full.len() ==> (#[trigger] full[i]) == e);
        assert(kept == full);
    }
    assert(entries == kept);
    let f = |x: HistoricalPrice| x.timestamp >= back(a.timestamp, w);
    assert(kept == full.filter(f));
    assert(kept.last() == e) by {
        reveal(Seq::filter);
        assert(f(full.last()));
    }
    assert forall|x: HistoricalPrice| #[trigger] full.contains(x) <==> x == e
        || old_entries.contains(x) by {
        if full.contains(x) {
            let i = full.index_of(x);
            if i < old_entries.len() {
                assert(old_entries[i] == x);
            }
        }
        if old_entries.contains(x) {
            let i = old_entries.index_of(x);
            assert(full[i] == x);
        }
    }
    if forall|i: int|
        0 <= i < old_entries.len() ==> (#[trigger] old_entries[i]).timestamp + w >= a.timestamp {
        assert forall|i: int| 0 <= i < full.len() implies (#[trigger] full[i]).timestamp + w
            >= a.timestamp by {
            if i < old_entries.len() {
                assert(full[i] == old_entries[i]);
            }
        }
    }
}

/// The average over a window is the sum of the prices of the entries in it over their number,
/// rounded down; there is none exactly where no entry is in it, and it is the price of all of them
/// where they have the same.
pub proof fn law_average_is_exact(
    entries: Seq<HistoricalPrice>,
    time: u64,
    window: u64,
    price: u128,
)
    ensures
        ({
            let r = average_since(entries, back(time, window));
            let n = entries_within(entries, time, window);
            let sum = sum_within(entries, time, window);
            &&& r is None <==> n == 0
            &&& n == 0 <==> forall|i: int|
                0 <= i < entries.len() ==> (#[trigger] entries[i]).timestamp + window < time
            &&& r matches Some(p) ==> n * p <= sum < n * p + n
            &&& (forall|i: int|
                0 <= i < entries.len() && (#[trigger] entries[i]).timestamp + window >= time
                    ==> entries[i].price == price) && n > 0 ==> r == Some(price)
        }),
{
    let kept = since(entries, back(time, window));
    let n = kept.len() as int;
    let sum = price_sum(kept);
    lemma_since(entries, time, window);
    lemma_none_within(entries, time, window);
    if n > 0 {
        let q = sum / n;
        assert(0 <= q <= u128::MAX && n * q <= sum < n * q + n) by (nonlinear_arith)
            requires
                n > 0,
                0 <= sum <= n * u128::MAX,
                q == sum / n,
        ;
        if forall|i: int|
            0 <= i < entries.len() && (#[trigger] entries[i]).timestamp + window >= time
                ==> entries[i].price == price {
            lemma_same_price(entries, time, window, price);
            assert(q == price) by (nonlinear_arith)
                requires
                    n > 0,
                    sum == n * price,
                    q == sum / n,
            ;
        }
    }
}

proof fn lemma_none_within(entries: Seq<HistoricalPrice>, time: u64, window: u64)
    ensures
        entries_within(entries, time, window) >= 0,
        entries_within(entries, time, window) == 0 <==> forall|i: int|
            0 <= i < entries.len() ==> (#[trigger] entries[i]).timestamp + window < time,
    decreases entries.len(),
{
    if entries.len() > 0 {
        let rest = entries.drop_last();
        lemma_none_within(rest, time, window);
        assert(entries[entries.len() - 1] == entries.last());
        assert(forall|i: int| 0 <= i < rest.len() ==> (#[trigger] rest[i]) == entries[i]);
        if forall|i: int|
            0 <= i < entries.len() ==> (#[trigger] entries[i]).timestamp + window < time {
            assert forall|i: int| 0 <= i < rest.len() implies (#[trigger] rest[i]).timestamp
                + window < time by {
                assert(rest[i] == entries[i]);
            }
        }
        if entries_within(entries, time, window) == 0 {
            assert forall|i: int| 0 <= i < entries.len() implies (#[trigger] entries[i]).timestamp
                + window < time by {
                if i < rest.len() {
                    assert(rest[i] == entries[i]);
                }
            }
        }
    }
}

proof fn lemma_same_price(
    entries: Seq<HistoricalPrice>,
    time: u64,
    window: u64,
    price: u128,
)
    requires
        forall|i: int|
            0 <= i < entries.len() && (#[trigger] entries[i]).timestamp + window >= time
                ==> entries[i].price == price,
    ensures
        sum_within(entries, time, window) == entries_within(entries, time, window) * price,
    decreases entries.len(),
{
    if entries.len() > 0 {
        let rest = entries.drop_last();
        assert forall|i: int|
            0 <= i < rest.len() && (#[trigger] rest[i]).timestamp + window
                >= time implies rest[i].price == price by {
            assert(rest[i] == entries[i]);
        }
        lemma_same_price(rest, time, window, price);
        assert(entries[entries.len() - 1] == entries.last());
        let k = entries_within(rest, time, window);
        assert((k + 1) * price == k * price + price) by (nonlinear_arith);
    }
}

/// A published price is too old exactly where more than the allowed time has passed since.
pub proof fn law_age_is_exact(now: u64, published: u64, allowed: u64)
    ensures
        back(now, published) > allowed <==> now > published + allowed,
{
}

} // verus!
