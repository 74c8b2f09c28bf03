//! The commitment tree of the shielded pool: what its stored nodes stand for, and that its root is
//! always the root of all commitments.

use crate::precompiles::abi::{u128_at, u64_at, word_at, words_at};
use crate::precompiles::asset::{balance_read, balance_write, holding};
use crate::precompiles::shielded::{
    any_spent, append_all, append_effect, climb, deposit_effect, empty_node, insert_effect,
    is_spent, lemma_any_spent, pair_hash, spend, spend_all, transfer_effect, DEPTH,
};
use crate::precompiles::slots::{
    asset_address, commitment_slot, shielded_address, tag_slot, tagged_slot, tree_node_slot,
};
use crate::precompiles::steps::{able, group_steps};
use crate::precompiles::storage::World;
use crate::words::{law_word_round_trips, u64_of, zero_word, Address, U256};
use vstd::prelude::*;

verus! {

/// The position at `level` above the leaf at position `n`.
pub open spec fn position(n: nat, level: nat) -> nat
    decreases level,
{
    if level == 0 {
        n
    } else {
        position(n, (level - 1) as nat) / 2
    }
}

/// The node of the tree over `leaves`; beyond the last leaf all leaves are zero.
pub open spec fn tree_node<H: Fn(U256, U256) -> U256>(
    hash: H,
    leaves: Seq<U256>,
    level: nat,
    index: nat,
) -> U256
    decreases level,
{
    if level == 0 {
        if index < leaves.len() {
            leaves[index as int]
        } else {
            zero_word()
        }
    } else {
        pair_hash(
            hash,
            tree_node(hash, leaves, (level - 1) as nat, 2 * index),
            tree_node(hash, leaves, (level - 1) as nat, 2 * index + 1),
        )
    }
}

/// The root of the tree over `leaves`.
pub open spec fn tree_root<H: Fn(U256, U256) -> U256>(hash: H, leaves: Seq<U256>) -> U256 {
    tree_node(hash, leaves, DEPTH as nat, 0)
}

/// How many leaves the tree has room for.
pub open spec fn capacity() -> int {
    0x1_0000_0000
}

/// What the pool keeps in a slot.
pub open spec fn kept(w: World, key: U256) -> U256 {
    w.slot(shielded_address(), key)
}

/// The stored node at a level and a position.
pub open spec fn stored_node(w: World, level: nat, index: nat) -> U256 {
    kept(w, tree_node_slot(level as u8, index as u64))
}

/// Every node that stands over commitments alone is stored.
pub open spec fn stores_full_nodes<H: Fn(U256, U256) -> U256>(
    w: World,
    hash: H,
    leaves: Seq<U256>,
) -> bool {
    forall|level: nat, index: nat|
        level < DEPTH && index < position(leaves.len(), level) ==> #[trigger] stored_node(
            w,
            level,
            index,
        ) == tree_node(hash, leaves, level, index)
}

/// The pool holds exactly these commitments, in this order.
pub open spec fn holds_commitments<H: Fn(U256, U256) -> U256>(
    w: World,
    hash: H,
    leaves: Seq<U256>,
) -> bool {
    &&& u64_of(kept(w, tag_slot("cm_count"))) == leaves.len()
    &&& forall|i: nat|
        i < leaves.len() ==> kept(w, #[trigger] commitment_slot(i as u64)) == leaves[i as int]
    &&& stores_full_nodes(w, hash, leaves)
}

/// The slots of the pool with room for one commitment more than `n` do not collide.
pub open spec fn slots_apart(n: nat) -> bool {
    &&& tag_slot("cm_count") != tag_slot("merkle_root")
    &&& forall|i: nat|
        i <= n ==> (#[trigger] commitment_slot(i as u64)) != tag_slot("cm_count")
            && commitment_slot(i as u64) != tag_slot("merkle_root")
    &&& forall|i: nat, j: nat|
        i <= n && j <= n && i != j ==> #[trigger] commitment_slot(i as u64)
            != #[trigger] commitment_slot(j as u64)
    &&& forall|level: nat, index: nat|
        level < DEPTH && index <= position(n, level) ==> (#[trigger] tree_node_slot(
            level as u8,
            index as u64,
        )) != tag_slot("cm_count") && tree_node_slot(level as u8, index as u64) != tag_slot(
            "merkle_root",
        )
    &&& forall|level: nat, index: nat, i: nat|
        level < DEPTH && index <= position(n, level) && i <= n ==> #[trigger] tree_node_slot(
            level as u8,
            index as u64,
        ) != #[trigger] commitment_slot(i as u64)
    &&& forall|l1: nat, i1: nat, l2: nat, i2: nat|
        l1 < DEPTH && l2 < DEPTH && i1 <= position(n, l1) && i2 <= position(n, l2) && (l1, i1) != (
            l2,
            i2,
        ) ==> #[trigger] tree_node_slot(l1 as u8, i1 as u64) != #[trigger] tree_node_slot(
            l2 as u8,
            i2 as u64,
        )
}

proof fn lemma_position_small(n: nat, level: nat)
    requires
        n < capacity(),
        level <= 32,
    ensures
        position(n, level) <= n,
        position(n, level) < vstd::arithmetic::power2::pow2((32 - level) as nat),
    decreases level,
{
    vstd::arithmetic::power2::lemma2_to64();
    if level > 0 {
        lemma_position_small(n, (level - 1) as nat);
        vstd::arithmetic::power2::lemma_pow2_unfold((33 - level) as nat);
    }
}

proof fn lemma_position_next(n: nat, level: nat)
    ensures
        position(n, level) <= position(n + 1, level) <= position(n, level) + 1,
    decreases level,
{
    if level > 0 {
        lemma_position_next(n, (level - 1) as nat);
    }
}

/// One more leaf changes no node that stood over leaves alone.
proof fn lemma_full_node<H: Fn(U256, U256) -> U256>(
    hash: H,
    leaves: Seq<U256>,
    leaf: U256,
    level: nat,
    index: nat,
)
    requires
        index < position(leaves.len(), level),
    ensures
        tree_node(hash, leaves.push(leaf), level, index) == tree_node(hash, leaves, level, index),
    decreases level,
{
    if level > 0 {
        lemma_full_node(hash, leaves, leaf, (level - 1) as nat, 2 * index);
        lemma_full_node(hash, leaves, leaf, (level - 1) as nat, 2 * index + 1);
    }
}

/// A node beyond the last leaf is empty.
proof fn lemma_empty_node<H: Fn(U256, U256) -> U256>(
    hash: H,
    leaves: Seq<U256>,
    leaf: U256,
    level: nat,
    index: nat,
)
    requires
        index > position(leaves.len(), level),
    ensures
        tree_node(hash, leaves.push(leaf), level, index) == empty_node(hash, level),
    decreases level,
{
    if level > 0 {
        lemma_empty_node(hash, leaves, leaf, (level - 1) as nat, 2 * index);
        lemma_empty_node(hash, leaves, leaf, (level - 1) as nat, 2 * index + 1);
    }
}

/// The path above the new leaf is stored below `level`.
pub open spec fn stores_path<H: Fn(U256, U256) -> U256>(
    w: World,
    hash: H,
    leaves: Seq<U256>,
    leaf: U256,
    level: nat,
) -> bool {
    forall|l: nat|
        l < level ==> stored_node(w, l, #[trigger] position(leaves.len(), l)) == tree_node(
            hash,
            leaves.push(leaf),
            l,
            position(leaves.len(), l),
        )
}

/// Only slots of the pool that belong to the path differ.
pub open spec fn off_path(w: World, after: World, n: nat) -> bool {
    &&& forall|address: Address, key: U256|
        address != shielded_address() ==> #[trigger] after.slot(address, key) == w.slot(
            address,
            key,
        )
    &&& forall|key: U256|
        (forall|l: nat|
            l < DEPTH ==> key != tree_node_slot(l as u8, #[trigger] position(n, l) as u64))
            ==> #[trigger] kept(after, key) == kept(w, key)
}

/// The most gas that it takes to write a path from `level` up: a read and a write at each level.
pub open spec fn climb_gas(level: int) -> int {
    24_200 * (32 - level)
}

proof fn lemma_climb<H: Fn(U256, U256) -> U256>(
    w: World,
    hash: H,
    leaves: Seq<U256>,
    leaf: U256,
    level: u8,
)
    requires
        level <= DEPTH,
        leaves.len() < capacity(),
        slots_apart(leaves.len()),
        able(w, climb_gas(level as int)),
        stores_full_nodes(w, hash, leaves),
        stores_path(w, hash, leaves, leaf, level as nat),
    ensures
        ({
            let n = leaves.len();
            let (root, after) = climb(
                w,
                hash,
                level,
                position(n, level as nat) as u64,
                tree_node(hash, leaves.push(leaf), level as nat, position(n, level as nat)),
            );
            &&& root == tree_root(hash, leaves.push(leaf))
            &&& able(after, w.gas - climb_gas(level as int))
            &&& stores_full_nodes(after, hash, leaves)
            &&& stores_path(after, hash, leaves, leaf, DEPTH as nat)
            &&& off_path(w, after, n)
        }),
    decreases DEPTH - level,
{
    broadcast use group_steps;

    let n = leaves.len();
    let new = leaves.push(leaf);
    let l = level as nat;
    let p = position(n, l);
    lemma_position_small(n, l);
    if level >= DEPTH {
        vstd::arithmetic::power2::lemma2_to64();
        assert(p == 0);
    } else {
        let node = tree_node(hash, new, l, p);
        let key = tree_node_slot(level, p as u64);
        let w1 = w.write(shielded_address(), key, node);
        assert forall|a: Address, k: U256| #[trigger] w1.slot(a, k) == if a == shielded_address()
            && k == key {
            node
        } else {
            w.slot(a, k)
        } by {}
        assert(stores_full_nodes(w1, hash, leaves)) by {
            assert forall|l2: nat, i2: nat|
                l2 < DEPTH && i2 < position(n, l2) implies #[trigger] stored_node(
                w1,
                l2,
                i2,
            ) == tree_node(hash, leaves, l2, i2) by {
                assert((l2, i2) != (l, p));
                assert(tree_node_slot(l2 as u8, i2 as u64) != tree_node_slot(l as u8, p as u64));
                assert(stored_node(w, l2, i2) == tree_node(hash, leaves, l2, i2));
            }
        }
        assert(stores_path(w1, hash, leaves, leaf, l + 1)) by {
            assert forall|l2: nat| l2 < l + 1 implies stored_node(
                w1,
                l2,
                #[trigger] position(n, l2),
            ) == tree_node(hash, new, l2, position(n, l2)) by {
                if l2 < l {
                    let p2 = position(n, l2);
                    assert((l2, p2) != (l, p));
                    assert(tree_node_slot(l2 as u8, p2 as u64) != tree_node_slot(
                        l as u8,
                        p as u64,
                    ));
                    assert(stored_node(w, l2, p2) == tree_node(hash, new, l2, p2));
                }
            }
        }
        let up = (level + 1) as u8;
        assert(position(n, up as nat) == p / 2);
        if p % 2 == 0 {
            lemma_empty_node(hash, leaves, leaf, l, p + 1);
            assert(2 * (p / 2) == p);
            assert(tree_node(hash, new, up as nat, p / 2) == pair_hash(
                hash,
                node,
                empty_node(hash, l),
            ));
            lemma_climb(w1, hash, leaves, leaf, up);
            let above = tree_node(hash, new, up as nat, p / 2);
            lemma_off_path(w, w1, climb(w1, hash, up, (p / 2) as u64, above).1, n, level);
        } else {
            let left_at = (p - 1) as nat;
            lemma_full_node(hash, leaves, leaf, l, left_at);
            assert(stored_node(w1, l, left_at) == tree_node(hash, leaves, l, left_at));
            let (left, w2) = w1.sload(shielded_address(), tree_node_slot(level, left_at as u64));
            assert(w2.slots == w1.slots);
            assert(2 * (p / 2) == left_at);
            assert(tree_node(hash, new, up as nat, p / 2) == pair_hash(
                hash,
                tree_node(hash, new, l, left_at),
                node,
            ));
            assert(stores_full_nodes(w2, hash, leaves)) by {
                assert forall|l2: nat, i2: nat|
                    l2 < DEPTH && i2 < position(n, l2) implies #[trigger] stored_node(
                    w2,
                    l2,
                    i2,
                ) == tree_node(hash, leaves, l2, i2) by {
                    assert(stored_node(w1, l2, i2) == tree_node(hash, leaves, l2, i2));
                }
            }
            assert(stores_path(w2, hash, leaves, leaf, l + 1)) by {
                assert forall|l2: nat| l2 < l + 1 implies stored_node(
                    w2,
                    l2,
                    #[trigger] position(n, l2),
                ) == tree_node(hash, new, l2, position(n, l2)) by {
                    assert(stored_node(w1, l2, position(n, l2)) == tree_node(
                        hash,
                        new,
                        l2,
                        position(n, l2),
                    ));
                }
            }
            lemma_climb(w2, hash, leaves, leaf, up);
            let above = tree_node(hash, new, up as nat, p / 2);
            lemma_off_path(w, w2, climb(w2, hash, up, (p / 2) as u64, above).1, n, level);
        }
    }
}

proof fn lemma_off_path(w: World, mid: World, after: World, n: nat, level: u8)
    requires
        level < DEPTH,
        forall|a: Address, k: U256|
            (a, k) != (shielded_address(), tree_node_slot(level, position(n, level as nat) as u64))
                ==> #[trigger] mid.slot(a, k) == w.slot(a, k),
        off_path(mid, after, n),
    ensures
        off_path(w, after, n),
{
    assert forall|a: Address, k: U256| a != shielded_address() implies #[trigger] after.slot(a, k)
        == w.slot(a, k) by {
        assert(after.slot(a, k) == mid.slot(a, k));
    }
    assert forall|key: U256|
        (forall|l: nat|
            l < DEPTH ==> key != tree_node_slot(l as u8, #[trigger] position(n, l) as u64))
        implies #[trigger] kept(after, key) == kept(w, key) by {
        assert(key != tree_node_slot(level, position(n, level as nat) as u64));
        assert(kept(after, key) == kept(mid, key));
    }
}

/// A pool without commitments holds none.
pub proof fn law_new_pool_is_empty<H: Fn(U256, U256) -> U256>(w: World, hash: H)
    requires
        kept(w, tag_slot("cm_count")) == zero_word(),
    ensures
        holds_commitments(w, hash, Seq::empty()),
{
    assert forall|level: nat| position(0, level) == 0 by {
        lemma_position_zero(level);
    }
}

proof fn lemma_position_zero(level: nat)
    ensures
        position(0, level) == 0,
    decreases level,
{
    if level > 0 {
        lemma_position_zero((level - 1) as nat);
    }
}

/// What the pool does not keep in its tree, its list, its count or its root.
pub open spec fn outside_pool(key: U256, n: nat) -> bool {
    &&& key != tag_slot("cm_count")
    &&& key != tag_slot("merkle_root")
    &&& forall|i: nat| i <= n ==> key != #[trigger] commitment_slot(i as u64)
    &&& forall|level: nat, index: nat|
        level < DEPTH && index <= position(n, level) ==> key != #[trigger] tree_node_slot(
            level as u8,
            index as u64,
        )
}

/// Entering a commitment puts it behind all others, and the stored root is the root of the tree of
/// all commitments.
pub proof fn law_root_is_that_of_all_commitments<H: Fn(U256, U256) -> U256>(
    w: World,
    hash: H,
    leaves: Seq<U256>,
    commitment: U256,
)
    requires
        holds_commitments(w, hash, leaves),
        leaves.len() < capacity(),
        slots_apart(leaves.len()),
        able(w, 900_000),
    ensures
        ({
            let (ok, after) = append_effect(w, hash, commitment);
            let new = leaves.push(commitment);
            &&& ok
            &&& holds_commitments(after, hash, new)
            &&& kept(after, tag_slot("merkle_root")) == tree_root(hash, new)
            &&& able(after, w.gas - 900_000)
            &&& forall|address: Address, key: U256|
                address != shielded_address() ==> #[trigger] after.slot(address, key) == w.slot(
                    address,
                    key,
                )
            &&& forall|key: U256|
                outside_pool(key, leaves.len()) ==> #[trigger] kept(after, key) == kept(w, key)
        }),
{
    broadcast use group_steps;

    let n = leaves.len();
    let new = leaves.push(commitment);
    law_word_round_trips((n + 1) as u64, 0, Address { hi: 0, lo: 0 }, 0);
    let (count, w0) = w.read(shielded_address(), tag_slot("cm_count"));
    assert(w0.slots == w.slots);
    lemma_same_nodes(w, w0, hash, leaves);
    assert(position(n, 0) == n);
    assert(tree_node(hash, new, 0, n) == commitment);
    assert(stores_path(w0, hash, leaves, commitment, 0));
    lemma_climb(w0, hash, leaves, commitment, 0);
    let (root, w1) = climb(w0, hash, 0, n as u64, commitment);
    let w2 = w1.write(shielded_address(), tag_slot("merkle_root"), root);
    assert(insert_effect(w, hash, commitment) == (root, w2));
    assert(kept(w1, tag_slot("cm_count")) == kept(w0, tag_slot("cm_count")));
    let w3 = w2.read(shielded_address(), tag_slot("cm_count")).1;
    let w4 = w3.write(shielded_address(), commitment_slot(n as u64), commitment);
    let w5 = w4.write(
        shielded_address(),
        tag_slot("cm_count"),
        crate::words::word((n + 1) as u128),
    );
    assert(append_effect(w, hash, commitment) == (true, w5));
    let after = w5;
    assert forall|key: U256|
        key != tag_slot("cm_count") && key != tag_slot("merkle_root") && key != commitment_slot(
            n as u64,
        ) implies #[trigger] kept(after, key) == kept(w1, key) by {}
    assert forall|i: nat| i < new.len() implies kept(after, #[trigger] commitment_slot(i as u64))
        == new[i as int] by {
        if i < n {
            let key = commitment_slot(i as u64);
            assert(key != commitment_slot(n as u64));
            assert(kept(w1, key) == kept(w0, key)) by {
                assert forall|l: nat| l < DEPTH implies key != tree_node_slot(
                    l as u8,
                    #[trigger] position(n, l) as u64,
                ) by {}
            }
            assert(kept(w, key) == leaves[i as int]);
        }
    }
    assert forall|level: nat, index: nat|
        level < DEPTH && index < position(new.len(), level) implies #[trigger] stored_node(
        after,
        level,
        index,
    ) == tree_node(hash, new, level, index) by {
        lemma_position_next(n, level);
        let p = position(n, level);
        let key = tree_node_slot(level as u8, index as u64);
        assert(key != tag_slot("cm_count") && key != tag_slot("merkle_root"));
        assert(key != commitment_slot(n as u64));
        assert(stored_node(after, level, index) == stored_node(w1, level, index));
        if index < p {
            lemma_full_node(hash, leaves, commitment, level, index);
            assert(stored_node(w1, level, index) == tree_node(hash, leaves, level, index));
        } else {
            assert(index == p);
            assert(stored_node(w1, level, position(n, level)) == tree_node(hash, new, level, p));
        }
    }
    assert forall|address: Address, key: U256|
        address != shielded_address() implies #[trigger] after.slot(address, key) == w.slot(
        address,
        key,
    ) by {
        assert(w1.slot(address, key) == w0.slot(address, key));
    }
    assert forall|key: U256| outside_pool(key, n) implies #[trigger] kept(after, key) == kept(
        w,
        key,
    ) by {
        assert(key != commitment_slot(n as u64));
        assert forall|l: nat| l < DEPTH implies key != tree_node_slot(
            l as u8,
            #[trigger] position(n, l) as u64,
        ) by {}
        assert(kept(w1, key) == kept(w0, key));
    }
}

proof fn lemma_same_nodes<H: Fn(U256, U256) -> U256>(
    w: World,
    after: World,
    hash: H,
    leaves: Seq<U256>,
)
    requires
        after.slots == w.slots,
        stores_full_nodes(w, hash, leaves),
    ensures
        stores_full_nodes(after, hash, leaves),
{
    assert forall|level: nat, index: nat|
        level < DEPTH && index < position(leaves.len(), level) implies #[trigger] stored_node(
        after,
        level,
        index,
    ) == tree_node(hash, leaves, level, index) by {
        assert(stored_node(w, level, index) == tree_node(hash, leaves, level, index));
    }
}

/// A deposit takes its amount from the sender and enters its commitment.
pub proof fn law_deposit_enters_commitment<H: Fn(U256, U256) -> U256>(
    w: World,
    hash: H,
    input: Seq<u8>,
    sender: Address,
    leaves: Seq<U256>,
)
    requires
        input.len() >= 100,
        holding(w, u64_at(input, 4), sender) >= u128_at(input, 36),
        holds_commitments(w, hash, leaves),
        leaves.len() < capacity(),
        slots_apart(leaves.len()),
        able(w, 1_000_000),
    ensures
        ({
            let (o, after) = deposit_effect(w, hash, input, sender);
            let new = leaves.push(word_at(input, 68));
            &&& o is Done
            &&& holding(after, u64_at(input, 4), sender) == holding(w, u64_at(input, 4), sender)
                - u128_at(input, 36)
            &&& holds_commitments(after, hash, new)
            &&& kept(after, tag_slot("merkle_root")) == tree_root(hash, new)
        }),
{
    broadcast use group_steps;

    let asset_id = u64_at(input, 4);
    let w1 = w.charge(50000).1;
    let (held, w2) = balance_read(w1, asset_id, sender);
    let w3 = balance_write(w2, asset_id, sender, (held - u128_at(input, 36)) as u128);
    assert(shielded_address() != asset_address());
    assert forall|key: U256| #[trigger] kept(w3, key) == kept(w, key) by {}
    lemma_same_pool(w, w3, hash, leaves);
    law_root_is_that_of_all_commitments(w3, hash, leaves, word_at(input, 68));
    let after = append_effect(w3, hash, word_at(input, 68)).1;
    assert(holding(after, asset_id, sender) == holding(w3, asset_id, sender));
}

proof fn lemma_same_pool<H: Fn(U256, U256) -> U256>(
    w: World,
    after: World,
    hash: H,
    leaves: Seq<U256>,
)
    requires
        holds_commitments(w, hash, leaves),
        kept(after, tag_slot("cm_count")) == kept(w, tag_slot("cm_count")),
        forall|i: nat|
            i < leaves.len() ==> kept(after, #[trigger] commitment_slot(i as u64)) == kept(
                w,
                commitment_slot(i as u64),
            ),
        forall|level: nat, index: nat|
            level < DEPTH && index < position(leaves.len(), level) ==> #[trigger] stored_node(
                after,
                level,
                index,
            ) == stored_node(w, level, index),
    ensures
        holds_commitments(after, hash, leaves),
{
    assert forall|level: nat, index: nat|
        level < DEPTH && index < position(leaves.len(), level) implies #[trigger] stored_node(
        after,
        level,
        index,
    ) == tree_node(hash, leaves, level, index) by {
        assert(stored_node(w, level, index) == tree_node(hash, leaves, level, index));
    }
}

proof fn lemma_position_grows(n: nat, m: nat, level: nat)
    requires
        n <= m,
    ensures
        position(n, level) <= position(m, level),
    decreases level,
{
    if level > 0 {
        lemma_position_grows(n, m, (level - 1) as nat);
    }
}

proof fn lemma_fewer_apart(n: nat, m: nat)
    requires
        n <= m,
        slots_apart(m),
    ensures
        slots_apart(n),
        forall|key: U256| outside_pool(key, m) ==> outside_pool(key, n),
{
    assert forall|level: nat| #[trigger] position(n, level) <= position(m, level) by {
        lemma_position_grows(n, m, level);
    }
}

/// Entering several commitments, one after the other.
proof fn lemma_append_all<H: Fn(U256, U256) -> U256>(
    w: World,
    hash: H,
    leaves: Seq<U256>,
    commitments: Seq<U256>,
    i: int,
)
    requires
        0 <= i <= commitments.len(),
        holds_commitments(w, hash, leaves),
        leaves.len() + commitments.len() - i <= capacity(),
        slots_apart((leaves.len() + commitments.len() - i) as nat),
        able(w, 900_000 * (commitments.len() - i)),
    ensures
        ({
            let (ok, after) = append_all(w, hash, commitments, i);
            let new = leaves + commitments.subrange(i, commitments.len() as int);
            &&& ok
            &&& holds_commitments(after, hash, new)
            &&& i < commitments.len() ==> kept(after, tag_slot("merkle_root")) == tree_root(
                hash,
                new,
            )
            &&& i == commitments.len() ==> after == w
            &&& forall|key: U256|
                outside_pool(key, (leaves.len() + commitments.len() - i) as nat)
                    ==> #[trigger] kept(after, key) == kept(w, key)
        }),
    decreases commitments.len() - i,
{
    let rest = commitments.subrange(i, commitments.len() as int);
    if i < commitments.len() {
        let m = (leaves.len() + commitments.len() - i) as nat;
        lemma_fewer_apart(leaves.len(), m);
        law_root_is_that_of_all_commitments(w, hash, leaves, commitments[i]);
        let next = append_effect(w, hash, commitments[i]).1;
        let more = leaves.push(commitments[i]);
        lemma_append_all(next, hash, more, commitments, i + 1);
        let tail = commitments.subrange(i + 1, commitments.len() as int);
        assert(more + tail =~= leaves + rest);
        assert forall|key: U256| outside_pool(key, m) implies #[trigger] kept(
            append_all(w, hash, commitments, i).1,
            key,
        ) == kept(w, key) by {
            assert(outside_pool(key, leaves.len()));
            assert(kept(next, key) == kept(w, key));
        }
    } else {
        assert(leaves + rest =~= leaves);
    }
}

/// The slot that marks a nullifier as spent.
pub open spec fn nullifier_slot(nullifier: U256) -> U256 {
    tagged_slot("nullifier", nullifier)
}

proof fn lemma_spend_all(w: World, nullifiers: Seq<U256>, i: int, n: nat)
    requires
        0 <= i <= nullifiers.len(),
        able(w, 22_100 * (nullifiers.len() - i)),
        forall|j: int|
            0 <= j < nullifiers.len() ==> outside_pool(nullifier_slot(#[trigger] nullifiers[j]), n),
    ensures
        ({
            let after = spend_all(w, nullifiers, i);
            &&& able(after, w.gas - 22_100 * (nullifiers.len() - i))
            &&& forall|j: int|
                i <= j < nullifiers.len() ==> is_spent(after, #[trigger] nullifiers[j])
            &&& forall|x: U256| is_spent(w, x) ==> #[trigger] is_spent(after, x)
            &&& forall|key: U256|
                !outside_pool(key, n) ==> #[trigger] kept(after, key) == kept(w, key)
        }),
    decreases nullifiers.len() - i,
{
    broadcast use group_steps;

    if i < nullifiers.len() {
        law_word_round_trips(0, 0, Address { hi: 0, lo: 0 }, 1);
        let next = spend(w, nullifiers[i]);
        assert(outside_pool(nullifier_slot(nullifiers[i]), n));
        assert forall|x: U256| is_spent(w, x) implies #[trigger] is_spent(next, x) by {}
        assert(is_spent(next, nullifiers[i]));
        lemma_spend_all(next, nullifiers, i + 1, n);
        let after = spend_all(w, nullifiers, i);
        assert forall|j: int| i <= j < nullifiers.len() implies is_spent(
            after,
            #[trigger] nullifiers[j],
        ) by {
            if j == i {
                assert(is_spent(after, nullifiers[i]));
            }
        }
        assert forall|key: U256| !outside_pool(key, n) implies #[trigger] kept(after, key) == kept(
            w,
            key,
        ) by {
            assert(kept(after, key) == kept(next, key));
        }
    }
}

/// A transfer within the pool spends all its nullifiers and enters all its commitments.
pub proof fn law_transfer_spends_and_enters<H: Fn(U256, U256) -> U256>(
    w: World,
    hash: H,
    input: Seq<u8>,
    nullifiers: Seq<U256>,
    commitments: Seq<U256>,
    leaves: Seq<U256>,
)
    requires
        input.len() >= 100,
        words_at(input, 36) == Some(nullifiers),
        words_at(input, 68) == Some(commitments),
        forall|j: int| 0 <= j < nullifiers.len() ==> !is_spent(w, #[trigger] nullifiers[j]),
        holds_commitments(w, hash, leaves),
        leaves.len() + commitments.len() <= capacity(),
        slots_apart(leaves.len() + commitments.len()),
        forall|j: int|
            0 <= j < nullifiers.len() ==> outside_pool(
                nullifier_slot(#[trigger] nullifiers[j]),
                leaves.len() + commitments.len(),
            ),
        able(w, 100_000 + 24_200 * nullifiers.len() as int + 900_000 * commitments.len() as int),
    ensures
        ({
            let (o, after) = transfer_effect(w, hash, input);
            let new = leaves + commitments;
            &&& o is Done
            &&& forall|j: int|
                0 <= j < nullifiers.len() ==> is_spent(after, #[trigger] nullifiers[j])
            &&& holds_commitments(after, hash, new)
            &&& commitments.len() > 0 ==> kept(after, tag_slot("merkle_root")) == tree_root(
                hash,
                new,
            )
        }),
{
    broadcast use group_steps;

    let m = leaves.len() + commitments.len();
    let w1 = w.charge(100000).1;
    lemma_any_spent(w1, nullifiers, 0);
    assert forall|j: int| 0 <= j < nullifiers.len() implies !is_spent(
        w1,
        #[trigger] nullifiers[j],
    ) by {
        assert(!is_spent(w, nullifiers[j]));
    }
    let w2 = any_spent(w1, nullifiers, 0).1;
    assert(w2.slots == w.slots);
    lemma_spend_all(w2, nullifiers, 0, m);
    let w3 = spend_all(w2, nullifiers, 0);
    assert forall|i: nat| i < leaves.len() implies kept(w3, #[trigger] commitment_slot(i as u64))
        == kept(w, commitment_slot(i as u64)) by {
        assert(!outside_pool(commitment_slot(i as u64), m));
    }
    assert forall|level: nat, index: nat|
        level < DEPTH && index < position(leaves.len(), level) implies #[trigger] stored_node(
        w3,
        level,
        index,
    ) == stored_node(w, level, index) by {
        lemma_position_grows(leaves.len(), m, level);
        assert(!outside_pool(tree_node_slot(level as u8, index as u64), m));
    }
    assert(!outside_pool(tag_slot("cm_count"), m));
    lemma_same_pool(w, w3, hash, leaves);
    lemma_append_all(w3, hash, leaves, commitments, 0);
    assert(commitments.subrange(0, commitments.len() as int) =~= commitments);
    let after = append_all(w3, hash, commitments, 0).1;
    assert forall|j: int| 0 <= j < nullifiers.len() implies is_spent(
        after,
        #[trigger] nullifiers[j],
    ) by {
        assert(is_spent(w3, nullifiers[j]));
        let key = nullifier_slot(nullifiers[j]);
        assert(outside_pool(key, m));
        assert(kept(after, key) == kept(w3, key));
    }
}

} // verus!
