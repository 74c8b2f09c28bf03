//! Limits on what peers and senders may submit: rates, replays and message sizes.

pub mod laws;

use crate::vec_map::{by_name, distinct_keys, lemma_prefix, map_of, NameMap, VecMap};
use crate::words::{Address, U256};
use vstd::prelude::*;

verus! {

/// Why a submission was turned down.
#[derive(Clone, Copy, Debug)]
pub enum SecurityError {
    RateLimited,
    ReplayDetected,
    AddressSaturation,
    MessageTooLarge { size: usize, max: usize },
    PeerRateLimited,
}

/// The counter of one sender: how many requests since when.
pub type Counter = (u32, u64);

/// The counter that a request at `now` meets.
pub open spec fn counter_at<K>(m: Map<K, Counter>, k: K, now: u64) -> Counter {
    if m.contains_key(k) {
        m[k]
    } else {
        (0, now)
    }
}

/// Whether a request at `now` is allowed, and the counter after it: a request that comes when the
/// window is over starts a new one; in a window, `max` requests are allowed.
pub open spec fn count_request(c: Counter, now: u64, window_ms: u64, max: u32) -> (bool, Counter) {
    if now >= c.1 + window_ms {
        (true, (1, now))
    } else if c.0 < max {
        (true, ((c.0 + 1) as u32, c.1))
    } else {
        (false, c)
    }
}

/// The counters whose windows are not over at `now`.
pub open spec fn live<K>(m: Map<K, Counter>, now: u64, window_ms: u64) -> Map<K, Counter> {
    Map::new(|k: K| m.contains_key(k) && now < m[k].1 + window_ms, |k: K| m[k])
}

/// No window ends beyond the range of the clock.
pub open spec fn windows_fit<K>(m: Map<K, Counter>, window_ms: u64) -> bool {
    forall|k: K| #[trigger] m.contains_key(k) ==> m[k].1 + window_ms <= u64::MAX
}

/// How many requests at the given times are allowed, in turn.
pub open spec fn allowed_count(c: Counter, times: Seq<u64>, window_ms: u64, max: u32) -> nat
    decreases times.len(),
{
    if times.len() == 0 {
        0
    } else {
        let (ok, next) = count_request(c, times[0], window_ms, max);
        allowed_count(next, times.drop_first(), window_ms, max) + if ok {
            1nat
        } else {
            0nat
        }
    }
}

/// Within one window exactly the first `max` requests are allowed, whenever they come.
pub proof fn law_rate_limit(c: Counter, times: Seq<u64>, window_ms: u64, max: u32)
    requires
        c.0 <= max,
        forall|i: int| 0 <= i < times.len() ==> (#[trigger] times[i]) < c.1 + window_ms,
    ensures
        c.0 + allowed_count(c, times, window_ms, max) == if c.0 + times.len() <= max {
            c.0 + times.len()
        } else {
            max as int
        },
    decreases times.len(),
{
    if times.len() > 0 {
        let (ok, next) = count_request(c, times[0], window_ms, max);
        let rest = times.drop_first();
        assert forall|i: int| 0 <= i < rest.len() implies (#[trigger] rest[i]) < next.1
            + window_ms by {
            assert(rest[i] == times[i + 1]);
        }
        law_rate_limit(next, rest, window_ms, max);
    }
}

fn step(c: Counter, now: u64, window_ms: u64, max: u32) -> (r: (bool, Counter))
    requires
        c.1 + window_ms <= u64::MAX,
    ensures
        r == count_request(c, now, window_ms, max),
{
    if now >= c.1 + window_ms {
        (true, (1, now))
    } else if c.0 < max {
        (true, (c.0 + 1, c.1))
    } else {
        (false, c)
    }
}

/// A limit on requests per sender and window.
#[derive(Debug)]
pub struct RateLimiter {
    pub max_requests: u32,
    pub window_ms: u64,
    pub counters: VecMap<Address, Counter>,
}

impl RateLimiter {
    pub fn new(max_requests: u32, window_ms: u64) -> (r: Self)
        ensures
            r.max_requests == max_requests,
            r.window_ms == window_ms,
            r.counters@ == Map::<Address, Counter>::empty(),
    {
        RateLimiter { max_requests, window_ms, counters: VecMap::new() }
    }

    /// Counts a request and says whether it is allowed.
    pub fn allow(&mut self, address: Address, current_time_ms: u64) -> (r: bool)
        requires
            counter_at(old(self).counters@, address, current_time_ms).1 + old(self).window_ms
                <= u64::MAX,
        ensures
            ({
                let (ok, next) = count_request(
                    counter_at(old(self).counters@, address, current_time_ms),
                    current_time_ms,
                    old(self).window_ms,
                    old(self).max_requests,
                );
                r == ok && final(self).counters@ == old(self).counters@.insert(address, next)
            }),
            final(self).max_requests == old(self).max_requests,
            final(self).window_ms == old(self).window_ms,
    {
        let before: Counter = match self.counters.get(address) {
            Some(c) => *c,
            None => (0, current_time_ms),
        };
        let (ok, next) = step(before, current_time_ms, self.window_ms, self.max_requests);
        self.counters.insert(address, next);
        ok
    }

    /// Forgets the counters whose windows are over.
    pub fn cleanup(&mut self, current_time_ms: u64)
        requires
            windows_fit(old(self).counters@, old(self).window_ms),
        ensures
            final(self).counters@ == live(
                old(self).counters@,
                current_time_ms,
                old(self).window_ms,
            ),
            final(self).max_requests == old(self).max_requests,
            final(self).window_ms == old(self).window_ms,
    {
        let mut kept: VecMap<Address, Counter> = VecMap::new();
        let entries: &Vec<(Address, Counter)> = self.counters.entries();
        let mut i: usize = 0;
        proof {
            assert(map_of(entries@.subrange(0, 0)) =~= Map::<Address, Counter>::empty());
            assert(live(map_of(entries@.subrange(0, 0)), current_time_ms, self.window_ms)
                =~= kept@);
        }
        while i < entries.len()
            invariant
                i <= entries@.len(),
                distinct_keys(entries@),
                map_of(entries@) == self.counters@,
                windows_fit(self.counters@, self.window_ms),
                kept@ == live(
                    map_of(entries@.subrange(0, i as int)),
                    current_time_ms,
                    self.window_ms,
                ),
            decreases entries@.len() - i,
        {
            let (k, c) = entries[i];
            proof {
                lemma_prefix(entries@, i as int);
            }
            if current_time_ms < c.1 + self.window_ms {
                kept.insert(k, c);
            }
            proof {
                let m = map_of(entries@.subrange(0, i as int));
                assert(live(m.insert(k, c), current_time_ms, self.window_ms) =~= kept@);
            }
            i += 1;
        }
        proof {
            assert(entries@.subrange(0, entries@.len() as int) =~= entries@);
        }
        self.counters = kept;
    }
}

/// The hashes left when `n` of those seen just before the last one are dropped.
pub open spec fn without_recent(seen: Seq<U256>, n: int) -> Seq<U256> {
    seen.subrange(0, seen.len() - 1 - n).push(seen.last())
}

/// The hashes seen once `hash` is recorded: a new one is kept, and makes room for itself when there
/// are too many.
pub open spec fn record(seen: Seq<U256>, hash: U256, max_seen: int) -> Seq<U256> {
    let all = if seen.contains(hash) {
        seen
    } else {
        seen.push(hash)
    };
    if all.len() > max_seen {
        without_recent(all, max_seen / 4)
    } else {
        all
    }
}

/// The hashes left when `hash` is forgotten.
pub open spec fn forget(seen: Seq<U256>, hash: U256) -> Seq<U256> {
    seen.filter(|h: U256| h != hash)
}

/// Remembers which transactions were seen.
#[derive(Debug)]
pub struct ReplayProtector {
    pub seen_hashes: Vec<U256>,
    pub max_seen: usize,
}

impl ReplayProtector {
    /// Each hash is kept once.
    pub open spec fn wf(self) -> bool {
        self.seen_hashes@.no_duplicates()
    }

    pub fn new(max_seen: usize) -> (r: Self)
        ensures
            r.seen_hashes@ == Seq::<U256>::empty(),
            r.max_seen == max_seen,
            r.wf(),
    {
        ReplayProtector { seen_hashes: Vec::new(), max_seen }
    }

    fn find(&self, hash: U256) -> (r: Option<usize>)
        ensures
            match r {
                Some(i) => i < self.seen_hashes@.len() && self.seen_hashes@[i as int] == hash,
                None => !self.seen_hashes@.contains(hash),
            },
    {
        let mut i: usize = 0;
        while i < self.seen_hashes.len()
            invariant
                i <= self.seen_hashes@.len(),
                forall|j: int| 0 <= j < i ==> (#[trigger] self.seen_hashes@[j]) != hash,
            decreases self.seen_hashes@.len() - i,
        {
            if self.seen_hashes[i] == hash {
                return Some(i);
            }
            i += 1;
        }
        None
    }

    /// How many hashes are remembered.
    pub fn seen_count(&self) -> (r: usize)
        ensures
            r == self.seen_hashes@.len(),
    {
        self.seen_hashes.len()
    }

    /// Records a hash and says whether it was seen for the first time.
    pub fn check_and_record(&mut self, hash: U256) -> (r: bool)
        requires
            old(self).wf(),
        ensures
            r == !old(self).seen_hashes@.contains(hash),
            final(self).seen_hashes@ == record(
                old(self).seen_hashes@,
                hash,
                old(self).max_seen as int,
            ),
            final(self).max_seen == old(self).max_seen,
            final(self).wf(),
    {
        let first_seen = self.find(hash).is_none();
        if first_seen {
            self.seen_hashes.push(hash);
        }
        let ghost all = self.seen_hashes@;
        proof {
            assert(all.no_duplicates());
        }
        if self.seen_hashes.len() > self.max_seen {
            let drop: usize = self.max_seen / 4;
            let newest: U256 = self.seen_hashes[self.seen_hashes.len() - 1];
            let keep: usize = self.seen_hashes.len() - 1 - drop;
            self.seen_hashes.truncate(keep);
            self.seen_hashes.push(newest);
            proof {
                assert(self.seen_hashes@ =~= without_recent(all, drop as int));
            }
        }
        first_seen
    }

    /// Forgets a hash.
    pub fn remove_hash(&mut self, hash: &U256)
        requires
            old(self).wf(),
        ensures
            final(self).seen_hashes@ == forget(old(self).seen_hashes@, *hash),
            final(self).max_seen == old(self).max_seen,
            final(self).wf(),
    {
        let ghost before = self.seen_hashes@;
        match self.find(*hash) {
            Some(i) => {
                self.seen_hashes.remove(i);
                proof {
                    lemma_remove_is_forget(before, i as int, *hash);
                }
            },
            None => {
                proof {
                    lemma_forget_none(before, *hash);
                }
            },
        }
    }
}

proof fn lemma_forget_none(s: Seq<U256>, hash: U256)
    requires
        !s.contains(hash),
    ensures
        forget(s, hash) == s,
    decreases s.len(),
{
    reveal(Seq::filter);
    if s.len() > 0 {
        assert forall|i: int| 0 <= i < s.drop_last().len() implies s.drop_last()[i] != hash by {
            assert(s.contains(s[i]));
        }
        assert(s.contains(s.last()));
        lemma_forget_none(s.drop_last(), hash);
        assert(s =~= s.drop_last().push(s.last()));
    }
}

proof fn lemma_remove_is_forget(s: Seq<U256>, i: int, hash: U256)
    requires
        s.no_duplicates(),
        0 <= i < s.len(),
        s[i] == hash,
    ensures
        s.remove(i) == forget(s, hash),
        s.remove(i).no_duplicates(),
    decreases s.len(),
{
    reveal(Seq::filter);
    let head = s.drop_last();
    assert(head.no_duplicates());
    if i == s.len() - 1 {
        assert(!head.contains(hash));
        lemma_forget_none(head, hash);
        assert(s.remove(i) =~= head);
    } else {
        lemma_remove_is_forget(head, i, hash);
        assert(s.last() != hash);
        assert(s.remove(i) =~= head.remove(i).push(s.last()));
    }
    assert(s.remove(i).no_duplicates());
}

/// With room for four hashes or more, there are never more hashes than room, and the hash that was
/// just recorded is remembered.
pub proof fn law_replay_memory_is_bounded(seen: Seq<U256>, hash: U256, max_seen: usize)
    requires
        seen.len() <= max_seen,
        max_seen >= 4,
    ensures
        record(seen, hash, max_seen as int).len() <= max_seen,
        record(seen, hash, max_seen as int).contains(hash),
{
    let all = if seen.contains(hash) {
        seen
    } else {
        seen.push(hash)
    };
    assert(all.contains(hash)) by {
        if !seen.contains(hash) {
            assert(all[seen.len() as int] == hash);
        }
    }
    if all.len() > max_seen {
        let out = without_recent(all, max_seen as int / 4);
        assert(out[out.len() - 1] == hash);
    }
}

/// A hash that was forgotten is taken as new again.
pub proof fn law_removed_hash_is_new(seen: Seq<U256>, hash: U256)
    ensures
        !forget(seen, hash).contains(hash),
{
    let kept = forget(seen, hash);
    if kept.contains(hash) {
        let i = choose|i: int| 0 <= i < kept.len() && kept[i] == hash;
        seen.lemma_filter_pred(|h: U256| h != hash, i);
    }
}

/// What a defense of the mempool may admit.
pub struct Limits {
    pub rate: u32,
    pub window_ms: u64,
    pub max_seen: int,
    pub max_txs: u32,
}

/// What a defense of the mempool has seen.
pub struct Traffic {
    pub counters: Map<Address, Counter>,
    pub seen: Seq<U256>,
    pub tx_counts: Map<Address, u32>,
}

/// How many transactions of `sender` are pending.
pub open spec fn pending(m: Map<Address, u32>, sender: Address) -> u32 {
    if m.contains_key(sender) {
        m[sender]
    } else {
        0
    }
}

/// A submission is counted against the sender's rate, then its hash is recorded, then it is counted
/// as pending; the first of these that is refused ends it, and what came before stays.
pub open spec fn submit(l: Limits, t: Traffic, sender: Address, hash: U256, now: u64) -> (
    Result<(), SecurityError>,
    Traffic,
) {
    let (ok, next) = count_request(
        counter_at(t.counters, sender, now),
        now,
        l.window_ms,
        l.rate,
    );
    let counted = Traffic { counters: t.counters.insert(sender, next), ..t };
    if !ok {
        (Err(SecurityError::RateLimited), counted)
    } else {
        let recorded = Traffic { seen: record(t.seen, hash, l.max_seen), ..counted };
        let n = pending(t.tx_counts, sender);
        if t.seen.contains(hash) {
            (Err(SecurityError::ReplayDetected), recorded)
        } else if n >= l.max_txs {
            (
                Err(SecurityError::AddressSaturation),
                Traffic { tx_counts: t.tx_counts.insert(sender, n), ..recorded },
            )
        } else {
            (
                Ok(()),
                Traffic { tx_counts: t.tx_counts.insert(sender, (n + 1) as u32), ..recorded },
            )
        }
    }
}

/// One transaction of `sender` is pending no longer.
pub open spec fn release(m: Map<Address, u32>, sender: Address) -> Map<Address, u32> {
    if m.contains_key(sender) {
        m.insert(sender, if m[sender] > 0 {
            (m[sender] - 1) as u32
        } else {
            0
        })
    } else {
        m
    }
}

/// What is admitted to the mempool.
#[derive(Debug)]
pub struct MempoolDefense {
    pub rate_limiter: RateLimiter,
    pub replay_protector: ReplayProtector,
    /// Pending transactions by sender.
    pub tx_counts: VecMap<Address, u32>,
    pub max_txs_per_address: u32,
}

impl MempoolDefense {
    pub open spec fn wf(self) -> bool {
        self.replay_protector.wf()
    }

    pub open spec fn limits(self) -> Limits {
        Limits {
            rate: self.rate_limiter.max_requests,
            window_ms: self.rate_limiter.window_ms,
            max_seen: self.replay_protector.max_seen as int,
            max_txs: self.max_txs_per_address,
        }
    }

    pub open spec fn traffic(self) -> Traffic {
        Traffic {
            counters: self.rate_limiter.counters@,
            seen: self.replay_protector.seen_hashes@,
            tx_counts: self.tx_counts@,
        }
    }

    pub fn new(
        rate_limit: u32,
        rate_window_ms: u64,
        max_seen_hashes: usize,
        max_txs_per_address: u32,
    ) -> (r: Self)
        ensures
            r.wf(),
            r.limits() == (Limits {
                rate: rate_limit,
                window_ms: rate_window_ms,
                max_seen: max_seen_hashes as int,
                max_txs: max_txs_per_address,
            }),
            r.traffic() == (Traffic {
                counters: Map::empty(),
                seen: Seq::empty(),
                tx_counts: Map::empty(),
            }),
    {
        MempoolDefense {
            rate_limiter: RateLimiter::new(rate_limit, rate_window_ms),
            replay_protector: ReplayProtector::new(max_seen_hashes),
            tx_counts: VecMap::new(),
            max_txs_per_address,
        }
    }

    fn tx_count(&self, sender: Address) -> (r: u32)
        ensures
            r == pending(self.tx_counts@, sender),
    {
        match self.tx_counts.get(sender) {
            Some(n) => *n,
            None => 0,
        }
    }

    /// Says whether a transaction is admitted.
    pub fn validate_tx_submission(
        &mut self,
        sender: Address,
        hash: U256,
        current_time_ms: u64,
    ) -> (r: Result<(), SecurityError>)
        requires
            old(self).wf(),
            counter_at(old(self).traffic().counters, sender, current_time_ms).1 + old(
                self,
            ).limits().window_ms <= u64::MAX,
        ensures
            final(self).wf(),
            final(self).limits() == old(self).limits(),
            (r, final(self).traffic()) == submit(
                old(self).limits(),
                old(self).traffic(),
                sender,
                hash,
                current_time_ms,
            ),
    {
        if !self.rate_limiter.allow(sender, current_time_ms) {
            return Err(SecurityError::RateLimited);
        }
        if !self.replay_protector.check_and_record(hash) {
            return Err(SecurityError::ReplayDetected);
        }
        let count: u32 = self.tx_count(sender);
        if count >= self.max_txs_per_address {
            self.tx_counts.insert(sender, count);
            return Err(SecurityError::AddressSaturation);
        }
        self.tx_counts.insert(sender, count + 1);
        Ok(())
    }

    fn release_one(&mut self, sender: Address)
        ensures
            final(self).tx_counts@ == release(old(self).tx_counts@, sender),
            final(self).rate_limiter == old(self).rate_limiter,
            final(self).replay_protector == old(self).replay_protector,
            final(self).max_txs_per_address == old(self).max_txs_per_address,
    {
        if self.tx_counts.contains_key(sender) {
            let count: u32 = self.tx_count(sender);
            self.tx_counts.insert(sender, count.saturating_sub(1));
        }
    }

    /// A transaction of `sender` was included in a block.
    pub fn on_tx_confirmed(&mut self, sender: Address)
        requires
            old(self).wf(),
        ensures
            final(self).wf(),
            final(self).limits() == old(self).limits(),
            final(self).traffic() == (Traffic {
                tx_counts: release(old(self).traffic().tx_counts, sender),
                ..old(self).traffic()
            }),
    {
        self.release_one(sender);
    }

    /// Takes back an admitted transaction that could not be inserted, so that it can be submitted
    /// again.
    pub fn rollback_submission(&mut self, sender: Address, hash: U256)
        requires
            old(self).wf(),
        ensures
            final(self).wf(),
            final(self).limits() == old(self).limits(),
            final(self).traffic() == (Traffic {
                tx_counts: release(old(self).traffic().tx_counts, sender),
                seen: forget(old(self).traffic().seen, hash),
                ..old(self).traffic()
            }),
    {
        self.release_one(sender);
        self.replay_protector.remove_hash(&hash);
    }

    /// Forgets the rates whose windows are over.
    pub fn cleanup(&mut self, current_time_ms: u64)
        requires
            old(self).wf(),
            windows_fit(old(self).traffic().counters, old(self).limits().window_ms),
        ensures
            final(self).wf(),
            final(self).limits() == old(self).limits(),
            final(self).traffic() == (Traffic {
                counters: live(
                    old(self).traffic().counters,
                    current_time_ms,
                    old(self).limits().window_ms,
                ),
                ..old(self).traffic()
            }),
    {
        self.rate_limiter.cleanup(current_time_ms);
    }
}

/// A transaction that was admitted and taken back is admitted again, unless its sender's rate is
/// used up.
pub proof fn law_rollback_allows_resubmission(
    l: Limits,
    t: Traffic,
    sender: Address,
    hash: U256,
    now: u64,
    later: u64,
)
    requires
        submit(l, t, sender, hash, now).0 is Ok,
    ensures
        ({
            let admitted = submit(l, t, sender, hash, now).1;
            let back = Traffic {
                tx_counts: release(admitted.tx_counts, sender),
                seen: forget(admitted.seen, hash),
                ..admitted
            };
            let again = submit(l, back, sender, hash, later).0;
            &&& pending(back.tx_counts, sender) == pending(t.tx_counts, sender)
            &&& again is Ok || again == Err::<(), SecurityError>(SecurityError::RateLimited)
        }),
{
    let admitted = submit(l, t, sender, hash, now).1;
    law_removed_hash_is_new(admitted.seen, hash);
}

/// A transaction is not admitted twice in a row.
pub proof fn law_replay_is_refused(
    l: Limits,
    t: Traffic,
    sender: Address,
    other: Address,
    hash: U256,
    now: u64,
    later: u64,
)
    requires
        submit(l, t, sender, hash, now).0 is Ok,
        l.max_seen >= 4,
    ensures
        submit(l, submit(l, t, sender, hash, now).1, other, hash, later).0 is Err,
{
    let admitted = submit(l, t, sender, hash, now).1;
    let all = t.seen.push(hash);
    assert(all[t.seen.len() as int] == hash);
    if all.len() > l.max_seen {
        let out = without_recent(all, l.max_seen / 4);
        assert(out[out.len() - 1] == hash);
    }
    assert(admitted.seen.contains(hash));
}

/// What a peer may send: how many messages in a window of what length, and how large.
pub struct MessageLimits {
    pub max_msgs_per_window: u32,
    pub window_ms: u64,
    pub max_message_size: usize,
}

/// A message as its receiver sees it: from whom, how large and when.
pub struct MessageSeen {
    pub peer: Seq<char>,
    pub size: usize,
    pub at: u64,
}

/// Whether a message is admitted, and the counters after it.
pub open spec fn message_effect(
    m: Map<Seq<char>, Counter>,
    msg: MessageSeen,
    limits: MessageLimits,
) -> (Result<(), SecurityError>, Map<Seq<char>, Counter>) {
    if msg.size > limits.max_message_size {
        (
            Err(
                SecurityError::MessageTooLarge { size: msg.size, max: limits.max_message_size },
            ),
            m,
        )
    } else {
        let (ok, next) = count_request(
            counter_at(m, msg.peer, msg.at),
            msg.at,
            limits.window_ms,
            limits.max_msgs_per_window,
        );
        (
            if ok {
                Ok(())
            } else {
                Err(SecurityError::PeerRateLimited)
            },
            m.insert(msg.peer, next),
        )
    }
}

/// The counters after the first `n` messages.
pub open spec fn counters_after(
    m: Map<Seq<char>, Counter>,
    msgs: Seq<MessageSeen>,
    limits: MessageLimits,
    n: int,
) -> Map<Seq<char>, Counter>
    decreases n,
{
    if n <= 0 {
        m
    } else {
        message_effect(counters_after(m, msgs, limits, n - 1), msgs[n - 1], limits).1
    }
}

/// How many of the first `n` messages come from a peer.
pub open spec fn sent_by(msgs: Seq<MessageSeen>, peer: Seq<char>, n: int) -> nat
    decreases n,
{
    if n <= 0 {
        0
    } else {
        sent_by(msgs, peer, n - 1) + if msgs[n - 1].peer == peer {
            1nat
        } else {
            0nat
        }
    }
}

/// The messages of a peer are of a size that is admitted, and all come in the window that the first
/// of them opens.
pub open spec fn in_one_window(
    msgs: Seq<MessageSeen>,
    peer: Seq<char>,
    limits: MessageLimits,
    opened: u64,
) -> bool {
    &&& opened + limits.window_ms <= u64::MAX
    &&& forall|i: int|
        0 <= i < msgs.len() && (#[trigger] msgs[i]).peer == peer ==> {
            &&& msgs[i].size <= limits.max_message_size
            &&& opened <= msgs[i].at < opened + limits.window_ms
            &&& sent_by(msgs, peer, i) == 0 ==> msgs[i].at == opened
        }
}

proof fn lemma_counter_of_peer(
    m: Map<Seq<char>, Counter>,
    msgs: Seq<MessageSeen>,
    peer: Seq<char>,
    limits: MessageLimits,
    opened: u64,
    n: int,
)
    requires
        !m.contains_key(peer),
        limits.max_msgs_per_window >= 1,
        in_one_window(msgs, peer, limits, opened),
        0 <= n <= msgs.len(),
    ensures
        ({
            let after = counters_after(m, msgs, limits, n);
            let k = sent_by(msgs, peer, n);
            if k == 0 {
                !after.contains_key(peer)
            } else {
                after.contains_key(peer) && after[peer] == (
                    if k <= limits.max_msgs_per_window {
                        k as u32
                    } else {
                        limits.max_msgs_per_window
                    },
                    opened,
                )
            }
        }),
    decreases n,
{
    if n > 0 {
        lemma_counter_of_peer(m, msgs, peer, limits, opened, n - 1);
        assert(msgs[n - 1].peer == peer || msgs[n - 1].peer != peer);
    }
}

/// Of the messages that a new peer sends within one window, the first `max_msgs_per_window` are
/// admitted and every later one is not, whatever other peers send in between.
pub proof fn law_first_messages_are_admitted(
    m: Map<Seq<char>, Counter>,
    msgs: Seq<MessageSeen>,
    peer: Seq<char>,
    limits: MessageLimits,
    opened: u64,
)
    requires
        !m.contains_key(peer),
        limits.max_msgs_per_window >= 1,
        in_one_window(msgs, peer, limits, opened),
    ensures
        forall|i: int|
            0 <= i < msgs.len() && (#[trigger] msgs[i]).peer == peer ==> message_effect(
                counters_after(m, msgs, limits, i),
                msgs[i],
                limits,
            ).0 == if sent_by(msgs, peer, i) < limits.max_msgs_per_window {
                Ok::<(), SecurityError>(())
            } else {
                Err::<(), SecurityError>(SecurityError::PeerRateLimited)
            },
{
    assert forall|i: int| 0 <= i < msgs.len() && (#[trigger] msgs[i]).peer == peer implies
        message_effect(counters_after(m, msgs, limits, i), msgs[i], limits).0 == if sent_by(
        msgs,
        peer,
        i,
    ) < limits.max_msgs_per_window {
        Ok::<(), SecurityError>(())
    } else {
        Err::<(), SecurityError>(SecurityError::PeerRateLimited)
    } by {
        lemma_counter_of_peer(m, msgs, peer, limits, opened, i);
    }
}

/// What is admitted from peers.
#[derive(Debug)]
pub struct P2PDefense {
    pub peer_rates: NameMap<Counter>,
    pub max_msgs_per_window: u32,
    pub window_ms: u64,
    pub max_message_size: usize,
}

impl P2PDefense {
    pub open spec fn limits(&self) -> MessageLimits {
        MessageLimits {
            max_msgs_per_window: self.max_msgs_per_window,
            window_ms: self.window_ms,
            max_message_size: self.max_message_size,
        }
    }

    pub fn new(max_msgs_per_window: u32, window_ms: u64, max_message_size: usize) -> (r: Self)
        ensures
            r.peer_rates@ == Map::<Seq<char>, Counter>::empty(),
            r.max_msgs_per_window == max_msgs_per_window,
            r.window_ms == window_ms,
            r.max_message_size == max_message_size,
    {
        P2PDefense { peer_rates: NameMap::new(), max_msgs_per_window, window_ms, max_message_size }
    }

    /// Says whether a message is admitted: it is not too large, and its peer has not sent too many.
    pub fn validate_message(
        &mut self,
        peer_id: String,
        message_size: usize,
        current_time_ms: u64,
    ) -> (r: Result<(), SecurityError>)
        requires
            message_size <= old(self).max_message_size ==> counter_at(
                old(self).peer_rates@,
                peer_id@,
                current_time_ms,
            ).1 + old(self).window_ms <= u64::MAX,
        ensures
            (r, final(self).peer_rates@) == message_effect(
                old(self).peer_rates@,
                (MessageSeen { peer: peer_id@, size: message_size, at: current_time_ms }),
                old(self).limits(),
            ),
            final(self).limits() == old(self).limits(),
    {
        if message_size > self.max_message_size {
            return Err(
                SecurityError::MessageTooLarge { size: message_size, max: self.max_message_size },
            );
        }
        let before: Counter = match self.peer_rates.get(&peer_id) {
            Some(c) => *c,
            None => (0, current_time_ms),
        };
        let (ok, next) = step(before, current_time_ms, self.window_ms, self.max_msgs_per_window);
        self.peer_rates.insert(peer_id, next);
        if ok {
            Ok(())
        } else {
            Err(SecurityError::PeerRateLimited)
        }
    }

    /// Forgets the peers whose windows are over.
    pub fn cleanup(&mut self, current_time_ms: u64)
        requires
            windows_fit(old(self).peer_rates@, old(self).window_ms),
        ensures
            final(self).peer_rates@ == live(
                old(self).peer_rates@,
                current_time_ms,
                old(self).window_ms,
            ),
            final(self).limits() == old(self).limits(),
    {
        let mut kept: NameMap<Counter> = NameMap::new();
        let entries: &Vec<(String, Counter)> = self.peer_rates.entries();
        let mut i: usize = 0;
        proof {
            let none = by_name(entries@).subrange(0, 0);
            assert(map_of(none) =~= Map::<Seq<char>, Counter>::empty());
            assert(live(map_of(none), current_time_ms, self.window_ms) =~= kept@);
        }
        while i < entries.len()
            invariant
                i <= entries@.len(),
                distinct_keys(by_name(entries@)),
                map_of(by_name(entries@)) == self.peer_rates@,
                windows_fit(self.peer_rates@, self.window_ms),
                kept@ == live(
                    map_of(by_name(entries@).subrange(0, i as int)),
                    current_time_ms,
                    self.window_ms,
                ),
            decreases entries@.len() - i,
        {
            let c: Counter = entries[i].1;
            proof {
                lemma_prefix(by_name(entries@), i as int);
            }
            if current_time_ms < c.1 + self.window_ms {
                kept.insert(entries[i].0.clone(), c);
            }
            proof {
                let m = map_of(by_name(entries@).subrange(0, i as int));
                let k = entries@[i as int].0@;
                assert(live(m.insert(k, c), current_time_ms, self.window_ms) =~= kept@);
            }
            i += 1;
        }
        proof {
            let all = by_name(entries@);
            assert(all.subrange(0, all.len() as int) =~= all);
        }
        self.peer_rates = kept;
    }
}

} // verus!
