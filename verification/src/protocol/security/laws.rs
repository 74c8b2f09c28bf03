//! What the limits let through, said of what was on record and what came in.

use crate::protocol::security::{
    count_request, forget, live, message_effect, record, release, submit, Counter, Limits,
    MessageLimits, MessageSeen, SecurityError, Traffic,
};
use crate::words::{Address, U256};
use vstd::prelude::*;

verus! {

/// How many requests have been let through in the window that is open now.
pub open spec fn used(c: Counter, now: u64, window_ms: u64) -> int {
    if now >= c.1 + window_ms {
        0
    } else {
        c.0 as int
    }
}

/// A request is let through exactly where the window has passed or has room; it opens a window where
/// the last has passed, and counts for one. A request that is turned down counts for nothing.
pub proof fn law_request_is_counted(c: Counter, now: u64, window_ms: u64, max: u32)
    ensures
        ({
            let (ok, d) = count_request(c, now, window_ms, max);
            let passed = now >= c.1 + window_ms;
            &&& ok <==> passed || c.0 < max
            &&& !ok ==> d == c
            &&& ok ==> d.0 == used(c, now, window_ms) + 1
            &&& ok && passed ==> d.1 == now
            &&& !passed ==> d.1 == c.1
        }),
{
}

/// The counter that is on record for a sender, or one that opens now.
pub open spec fn counter_of(t: Traffic, sender: Address, now: u64) -> Counter {
    if t.counters.contains_key(sender) {
        t.counters[sender]
    } else {
        (0, now)
    }
}

/// How many transactions of a sender are pending.
pub open spec fn waiting(t: Traffic, sender: Address) -> int {
    if t.tx_counts.contains_key(sender) {
        t.tx_counts[sender] as int
    } else {
        0
    }
}

/// A submission is taken exactly where the sender is within its rate, the transaction has not been
/// seen, and the sender has fewer pending than it may; one more is then pending, and the rate of no
/// other sender is touched. The first of the three that fails names the refusal.
pub proof fn law_submission_is_exact(
    l: Limits,
    t: Traffic,
    sender: Address,
    hash: U256,
    now: u64,
)
    ensures
        ({
            let (r, after) = submit(l, t, sender, hash, now);
            let c = counter_of(t, sender, now);
            let within = now >= c.1 + l.window_ms || c.0 < l.rate;
            let new = !t.seen.contains(hash);
            let room = waiting(t, sender) < l.max_txs;
            &&& r is Ok <==> within && new && room
            &&& !within ==> r == Err::<(), SecurityError>(SecurityError::RateLimited)
            &&& within && !new ==> r == Err::<(), SecurityError>(SecurityError::ReplayDetected)
            &&& within && new && !room ==> r == Err::<(), SecurityError>(
                SecurityError::AddressSaturation,
            )
            &&& waiting(after, sender) == waiting(t, sender) + if r is Ok {
                1int
            } else {
                0
            }
            &&& after.tx_counts.remove(sender) == t.tx_counts.remove(sender)
            &&& after.counters.remove(sender) == t.counters.remove(sender)
            &&& after.counters.contains_key(sender)
            &&& within ==> after.counters[sender].0 == used(c, now, l.window_ms) + 1
            &&& !within ==> after.counters[sender] == c && after.seen == t.seen
            &&& within && new && t.seen.len() < l.max_seen ==> after.seen == t.seen.push(hash)
        }),
{
    let after = submit(l, t, sender, hash, now).1;
    assert(after.tx_counts.remove(sender) =~= t.tx_counts.remove(sender));
    assert(after.counters.remove(sender) =~= t.counters.remove(sender));
}

/// What was seen is kept once; beyond the limit a quarter of it is dropped, from the latest before
/// the last, which stays.
pub proof fn law_memory_is_exact(seen: Seq<U256>, hash: U256, max_seen: int)
    requires
        max_seen >= 0,
    ensures
        ({
            let after = record(seen, hash, max_seen);
            let all = if seen.contains(hash) {
                seen
            } else {
                seen.push(hash)
            };
            &&& all.len() <= max_seen ==> after == all
            &&& all.len() > max_seen ==> {
                &&& after.len() == all.len() - max_seen / 4
                &&& after.last() == all.last()
                &&& forall|i: int| 0 <= i < after.len() - 1 ==> (#[trigger] after[i]) == all[i]
            }
        }),
{
}

proof fn lemma_forget(seen: Seq<U256>, hash: U256, other: U256)
    ensures
        forget(seen, hash).contains(other) <==> seen.contains(other) && other != hash,
    decreases seen.len(),
{
    let kept = forget(seen, hash);
    reveal(Seq::filter);
    if seen.len() > 0 {
        let rest = seen.drop_last();
        lemma_forget(rest, hash, other);
        let before = forget(rest, hash);
        assert(kept == if seen.last() != hash {
            before.push(seen.last())
        } else {
            before
        });
        if kept.contains(other) {
            let i = kept.index_of(other);
            if i < before.len() {
                assert(before[i] == other);
                let j = rest.index_of(other);
                assert(rest[j] == other);
                assert(seen[j] == other);
            } else {
                assert(seen[seen.len() - 1] == other);
            }
        }
        if seen.contains(other) && other != hash {
            let j = seen.index_of(other);
            if j < rest.len() {
                assert(rest[j] == other);
                let i = before.index_of(other);
                assert(before[i] == other);
                assert(kept[i] == other);
            } else {
                assert(kept[kept.len() - 1] == other);
            }
        }
    }
}

/// Rolling a submission back forgets just that transaction, and frees one place of its sender and no
/// other's.
pub proof fn law_rollback_is_exact(
    seen: Seq<U256>,
    hash: U256,
    other: U256,
    counts: Map<Address, u32>,
    sender: Address,
)
    ensures
        forget(seen, hash).contains(other) <==> seen.contains(other) && other != hash,
        ({
            let after = release(counts, sender);
            &&& after.dom() == counts.dom()
            &&& after.remove(sender) == counts.remove(sender)
            &&& counts.contains_key(sender) ==> after[sender] == if counts[sender] > 0 {
                counts[sender] - 1
            } else {
                0
            }
        }),
{
    lemma_forget(seen, hash, other);
    let after = release(counts, sender);
    assert(after.dom() =~= counts.dom());
    assert(after.remove(sender) =~= counts.remove(sender));
}

/// Cleaning up drops just the counters whose window has passed, and so lets nobody through sooner.
pub proof fn law_cleanup_is_exact(
    m: Map<Address, Counter>,
    now: u64,
    window_ms: u64,
    k: Address,
    max: u32,
)
    requires
        max > 0,
    ensures
        ({
            let after = live(m, now, window_ms);
            &&& after.contains_key(k) <==> m.contains_key(k) && now < m[k].1 + window_ms
            &&& after.contains_key(k) ==> after[k] == m[k]
            &&& m.contains_key(k) && !after.contains_key(k) ==> count_request(
                m[k],
                now,
                window_ms,
                max,
            ).0
        }),
{
}

/// A message is taken exactly where it is not too large and its peer is within its rate; one that is
/// too large does not count. No other peer's rate is touched.
pub proof fn law_message_is_exact(
    m: Map<Seq<char>, Counter>,
    msg: MessageSeen,
    limits: MessageLimits,
)
    ensures
        ({
            let (r, after) = message_effect(m, msg, limits);
            let c = if m.contains_key(msg.peer) {
                m[msg.peer]
            } else {
                (0, msg.at)
            };
            let within = msg.at >= c.1 + limits.window_ms || c.0 < limits.max_msgs_per_window;
            let large = msg.size > limits.max_message_size;
            &&& r is Ok <==> !large && within
            &&& large ==> after == m && r == Err::<(), SecurityError>(
                SecurityError::MessageTooLarge { size: msg.size, max: limits.max_message_size },
            )
            &&& !large && !within ==> r == Err::<(), SecurityError>(SecurityError::PeerRateLimited)
            &&& after.remove(msg.peer) == m.remove(msg.peer)
            &&& r is Ok ==> after[msg.peer].0 == used(c, msg.at, limits.window_ms) + 1
            &&& !large && !within ==> after[msg.peer] == c
        }),
{
    let after = message_effect(m, msg, limits).1;
    assert(after.remove(msg.peer) =~= m.remove(msg.peer));
}

} // verus!
