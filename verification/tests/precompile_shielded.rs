use callchain::crypto::keccak256;
use callchain::precompiles::shielded::{
    empty_hashes, insert_commitment, ProofRequest, ShieldedPrecompile,
};
use callchain::precompiles::slots::{asset_address, shielded_address, slot_balance, slot_tag};
use callchain::precompiles::storage::{
    HashMapStorageProvider, PrecompileError, PrecompileResult, StatefulPrecompile, StorageCtx,
};
use callchain::words::{
    address_to_u256, u128_to_u256, u256_to_u128, u64_to_u256, zero_address, zero_word, Address,
    U256,
};

fn pair(l: U256, r: U256) -> U256 {
    let mut data = l.to_be_bytes();
    data.extend_from_slice(&r.to_be_bytes());
    keccak256(&data)
}

fn accept(_: ProofRequest) -> Result<bool, String> {
    Ok(true)
}

struct Tree {
    leaves: Vec<U256>,
}

impl Tree {
    fn new() -> Self {
        Tree { leaves: Vec::new() }
    }

    fn insert(&mut self, leaf: &[u8; 32]) -> [u8; 32] {
        self.leaves.push(U256::from_be_slice(leaf));
        self.root()
    }

    fn root(&self) -> [u8; 32] {
        let mut level = self.leaves.clone();
        let mut empty = zero_word();
        for _ in 0..32 {
            level = level
                .chunks(2)
                .map(|c| pair(c[0], if c.len() == 2 { c[1] } else { empty }))
                .collect();
            empty = pair(empty, empty);
        }
        level[0].to_be_bytes().try_into().unwrap()
    }
}

#[test]
fn test_shielded_address() {
    assert_eq!(
        shielded_address(),
        Address { hi: 0, lo: 0x202 }
    );
}

#[test]
fn test_shielded_precompile_deposit_and_get() {
    let mut provider = HashMapStorageProvider::new(5_000_000);
    let sender = Address::repeat_byte(0x55);

    {
        // Seed sender balance
        let sender_slot = slot_balance(1, sender);
        StorageCtx::sstore(&mut provider,
            asset_address(),
            sender_slot,
            u128_to_u256(10_000),
        );

        let mut precompile = ShieldedPrecompile { hash: pair, verify: accept };

        // deposit(assetId=1, amount=1_000, commitment)
        let mut input = vec![0u8; 100];
        input[0..4].copy_from_slice(&[0x16, 0x8f, 0x44, 0xf5]);
        input[28..36].copy_from_slice(&1u64.to_be_bytes());
        input[52..68].copy_from_slice(&1_000u128.to_be_bytes());
        input[68..100].copy_from_slice(&test_commitment(1));

        let result = precompile.call(&mut provider, &input, sender);
        assert!(result.is_ok(), "deposit failed: {:?}", result.err());

        // getCommitmentCount
        let mut input = vec![0u8; 4];
        input[0..4].copy_from_slice(&[0x11, 0x98, 0x5b, 0xa9]);
        let result = precompile.call(&mut provider, &input, zero_address()).unwrap();
        let count = u64::from_be_bytes({
            let mut buf = [0u8; 8];
            buf.copy_from_slice(&result.bytes[24..32]);
            buf
        });
        assert_eq!(count, 1);

        // getCommitment(0)
        let mut input = vec![0u8; 36];
        input[0..4].copy_from_slice(&[0x23, 0x82, 0xd4, 0xc4]);
        input[28..36].copy_from_slice(&0u64.to_be_bytes());
        let result = precompile.call(&mut provider, &input, zero_address()).unwrap();
        assert_eq!(&result.bytes[..], &test_commitment(1));

        // isNullifierSpent(commitment) -> false
        let mut input = vec![0u8; 36];
        input[0..4].copy_from_slice(&[0x37, 0x1d, 0xff, 0x59]);
        input[4..36].copy_from_slice(&test_commitment(1));
        let result = precompile.call(&mut provider, &input, zero_address()).unwrap();
        assert_eq!(result.bytes[31], 0);
    }
}

#[test]
fn test_shielded_precompile_withdraw() {
    let mut provider = HashMapStorageProvider::new(1_000_000);
    let sender = Address::repeat_byte(0x55);
    let target = Address::repeat_byte(0x66);

    {
        // Seed target balance area (not needed but ok)
        let mut precompile = ShieldedPrecompile { hash: pair, verify: accept };

        // withdraw(assetId=0, target, amount=500, nullifier)
        let mut input = vec![0u8; 132];
        input[0..4].copy_from_slice(&[0x17, 0x52, 0x31, 0xd5]);
        input[28..36].copy_from_slice(&0u64.to_be_bytes());
        input[48..68].copy_from_slice(&target.to_bytes());
        input[84..100].copy_from_slice(&500u128.to_be_bytes());
        input[100..132].copy_from_slice(&[0xBBu8; 32]);

        let result = precompile.call(&mut provider, &input, sender);
        assert!(result.is_ok(), "withdraw failed: {:?}", result.err());

        // isNullifierSpent(0xBB) -> true
        let mut input = vec![0u8; 36];
        input[0..4].copy_from_slice(&[0x37, 0x1d, 0xff, 0x59]);
        input[4..36].copy_from_slice(&[0xBBu8; 32]);
        let result = precompile.call(&mut provider, &input, zero_address()).unwrap();
        assert_eq!(result.bytes[31], 1);

        // Target balance should be 500
        let target_slot = slot_balance(0, target);
        let bal = StorageCtx::sload(&mut provider, asset_address(), target_slot)
            .map(u256_to_u128)
            .unwrap_or(0);
        assert_eq!(bal, 500);
    }
}

#[test]
fn test_shielded_precompile_transfer() {
    let mut provider = HashMapStorageProvider::new(5_000_000);
    let sender = Address::repeat_byte(0x55);

    {
        let mut precompile = ShieldedPrecompile { hash: pair, verify: accept };

        // transfer(assetId=1, nullifiers=[0xCC], commitments=[0xDD, 0xEE])
        // Layout: selector(4) + assetId(32) + nullifiers_offset(32) + commitments_offset(32)
        let mut input = vec![0u8; 264];
        input[0..4].copy_from_slice(&[0x1c, 0x3b, 0x10, 0xf8]);
        input[28..36].copy_from_slice(&1u64.to_be_bytes());
        // nullifiers_offset = 96 (0x60) at last 8 bytes of word at offset 36
        input[60..68].copy_from_slice(&96u64.to_be_bytes());
        // commitments_offset = 160 (0xA0) at last 8 bytes of word at offset 68
        input[92..100].copy_from_slice(&160u64.to_be_bytes());

        // nullifiers array at abs_offset = 4 + 96 = 100
        // length word at 100-131, value in last 8 bytes (124-131)
        input[124..132].copy_from_slice(&1u64.to_be_bytes());
        // element 0 at 132-163
        input[132..164].copy_from_slice(&[0xCCu8; 32]);

        // commitments array at abs_offset = 4 + 160 = 164
        // length word at 164-195, value in last 8 bytes (188-195)
        input[188..196].copy_from_slice(&2u64.to_be_bytes());
        // element 0 at 196-227
        input[196..228].copy_from_slice(&test_commitment(3));
        // element 1 at 228-259
        input[228..260].copy_from_slice(&test_commitment(4));

        let result = precompile.call(&mut provider, &input, sender);
        assert!(result.is_ok(), "transfer failed: {:?}", result.err());

        // getCommitmentCount should be 2
        let mut input = vec![0u8; 4];
        input[0..4].copy_from_slice(&[0x11, 0x98, 0x5b, 0xa9]);
        let result = precompile.call(&mut provider, &input, zero_address()).unwrap();
        let count = u64::from_be_bytes({
            let mut buf = [0u8; 8];
            buf.copy_from_slice(&result.bytes[24..32]);
            buf
        });
        assert_eq!(count, 2);

        // isNullifierSpent(0xCC) -> true
        let mut input = vec![0u8; 36];
        input[0..4].copy_from_slice(&[0x37, 0x1d, 0xff, 0x59]);
        input[4..36].copy_from_slice(&[0xCCu8; 32]);
        let result = precompile.call(&mut provider, &input, zero_address()).unwrap();
        assert_eq!(result.bytes[31], 1);
    }
}

fn test_commitment(n: u8) -> [u8; 32] {
    let mut out = [0u8; 32];
    out[0] = n;
    out
}

#[test]
fn test_shielded_precompile_deposit_updates_merkle_root() {
    let mut provider = HashMapStorageProvider::new(5_000_000);
    let sender = Address::repeat_byte(0x55);

    {
        let sender_slot = slot_balance(1, sender);
        StorageCtx::sstore(&mut provider,
            asset_address(),
            sender_slot,
            u128_to_u256(10_000),
        );

        let mut precompile = ShieldedPrecompile { hash: pair, verify: accept };
        let commitment = test_commitment(1);

        // deposit
        let mut input = vec![0u8; 100];
        input[0..4].copy_from_slice(&[0x16, 0x8f, 0x44, 0xf5]);
        input[28..36].copy_from_slice(&1u64.to_be_bytes());
        input[52..68].copy_from_slice(&1_000u128.to_be_bytes());
        input[68..100].copy_from_slice(&commitment);
        precompile.call(&mut provider, &input, sender).unwrap();

        // getMerkleRoot — should return non-zero
        let mut input = vec![0u8; 4];
        input[0..4].copy_from_slice(&[0xe0, 0xc7, 0x49, 0x7f]);
        let result = precompile.call(&mut provider, &input, zero_address()).unwrap();
        let root1: [u8; 32] = result.bytes[..32].try_into().unwrap();
        assert_ne!(root1, [0u8; 32], "merkle root should not be zero after deposit");

        // Compute expected root locally using the same Poseidon tree
        let mut tree = Tree::new();
        let tree_root = tree.insert(&commitment);
        assert_eq!(root1, tree_root, "merkle root should match local computation");

        // Second deposit — root should change
        let commitment2 = test_commitment(2);
        let mut input = vec![0u8; 100];
        input[0..4].copy_from_slice(&[0x16, 0x8f, 0x44, 0xf5]);
        input[28..36].copy_from_slice(&1u64.to_be_bytes());
        input[52..68].copy_from_slice(&2_000u128.to_be_bytes());
        input[68..100].copy_from_slice(&commitment2);
        precompile.call(&mut provider, &input, sender).unwrap();

        let mut input = vec![0u8; 4];
        input[0..4].copy_from_slice(&[0xe0, 0xc7, 0x49, 0x7f]);
        let result = precompile.call(&mut provider, &input, zero_address()).unwrap();
        let root2: [u8; 32] = result.bytes[..32].try_into().unwrap();
        assert_ne!(root1, root2, "merkle root should change after second deposit");

        let mut tree = Tree::new();
        tree.insert(&commitment);
        tree.insert(&commitment2);
        let expected_root2 = tree.root();
        assert_eq!(root2, expected_root2);
    }
}

#[test]
fn test_shielded_precompile_transfer_updates_merkle_root() {
    let mut provider = HashMapStorageProvider::new(5_000_000);
    let sender = Address::repeat_byte(0x55);

    {
        let mut precompile = ShieldedPrecompile { hash: pair, verify: accept };

        // transfer(nullifiers=[0xCC], commitments=[0xDD])
        // Layout: selector(4) + assetId(32) + nullifiers_offset(32) + commitments_offset(32)
        // = 100 bytes fixed
        // nullifiers_offset = 96 -> abs = 100, len = 1, elem = 32 -> total 64
        // commitments_offset = 160 -> abs = 164, len = 1, elem = 32 -> total 64
        // total = 100 + 64 + 64 = 228
        let mut input = vec![0u8; 228];
        input[0..4].copy_from_slice(&[0x1c, 0x3b, 0x10, 0xf8]);
        input[28..36].copy_from_slice(&1u64.to_be_bytes());
        // nullifiers_offset = 96 (0x60)
        input[60..68].copy_from_slice(&96u64.to_be_bytes());
        // commitments_offset = 160 (0xA0)
        input[92..100].copy_from_slice(&160u64.to_be_bytes());

        // nullifiers array at abs_offset = 4 + 96 = 100
        input[124..132].copy_from_slice(&1u64.to_be_bytes());
        input[132..164].copy_from_slice(&[0xCCu8; 32]);

        // commitments array at abs_offset = 4 + 160 = 164
        input[188..196].copy_from_slice(&1u64.to_be_bytes());
        input[196..228].copy_from_slice(&test_commitment(3));

        precompile.call(&mut provider, &input, sender).unwrap();

        // getMerkleRoot — should reflect the new commitment
        let mut input = vec![0u8; 4];
        input[0..4].copy_from_slice(&[0xe0, 0xc7, 0x49, 0x7f]);
        let result = precompile.call(&mut provider, &input, zero_address()).unwrap();
        let root: [u8; 32] = result.bytes[..32].try_into().unwrap();
        assert_ne!(root, [0u8; 32], "merkle root should not be zero after transfer");

        let mut tree = Tree::new();
        tree.insert(&test_commitment(3));
        assert_eq!(root, tree.root());
    }
}

/// Calldata: a selector, which methods do not read, and words.
fn args(words: &[U256]) -> Vec<u8> {
    let mut out = vec![0; 4];
    for w in words {
        w.push_to(&mut out);
    }
    out
}

fn why(r: PrecompileResult) -> &'static str {
    match r {
        Err(PrecompileError::Other(s)) => s,
        Err(PrecompileError::Fatal(s)) => s,
        Err(PrecompileError::OutOfGas) => "out of gas",
        Err(_) => "other",
        Ok(_) => "done",
    }
}

fn pool() -> ShieldedPrecompile<fn(U256, U256) -> U256, fn(ProofRequest) -> Result<bool, String>> {
    ShieldedPrecompile { hash: pair, verify: judge }
}

/// Accepts a proof of one byte, 1; cannot do its work on an empty one.
fn judge(q: ProofRequest) -> Result<bool, String> {
    if q.proof_data.is_empty() {
        Err("no proof".into())
    } else {
        Ok(q.proof_data == [1] && q.asset_id == 1 && q.amount == 40)
    }
}

fn target() -> Address {
    Address::repeat_byte(6)
}

fn withdrawal(extra: &[U256]) -> Vec<u8> {
    let mut words = vec![
        u64_to_u256(1),
        address_to_u256(target()),
        u128_to_u256(40),
        U256::repeat_byte(5),
    ];
    words.extend_from_slice(extra);
    args(&words)
}

#[test]
fn nullifier_pays_once() {
    let mut p = HashMapStorageProvider::new(100_000_000);
    assert_eq!(why(pool().withdraw(&mut p, &withdrawal(&[]))), "done");
    let again = pool().withdraw(&mut p, &withdrawal(&[]));
    assert_eq!(why(again), "shielded withdraw: nullifier already spent");
    let held = p.get(asset_address(), slot_balance(1, target()));
    assert_eq!(held, Some(u128_to_u256(40)));
    let spent = pool().is_nullifier_spent(&mut p, &args(&[U256::repeat_byte(5)])).unwrap().bytes;
    assert_eq!(spent, u64_to_u256(1).to_be_bytes());
    let moved = args(&[
        u64_to_u256(1),
        u64_to_u256(96),
        u64_to_u256(160),
        u64_to_u256(1),
        U256::repeat_byte(5),
        u64_to_u256(0),
    ]);
    let r = pool().transfer(&mut p, &moved);
    assert_eq!(why(r), "shielded transfer: nullifier already spent");
}

#[test]
fn claims_of_a_withdrawal_are_checked() {
    let mut p = HashMapStorageProvider::new(100_000_000);
    let root = U256::repeat_byte(9);
    let r = pool().withdraw(&mut p, &withdrawal(&[root]));
    assert_eq!(why(r), "shielded withdraw: merkle root mismatch");
    p.set(shielded_address(), slot_tag("merkle_root"), root);
    let mut proof = withdrawal(&[root, u64_to_u256(192), u64_to_u256(1)]);
    proof.push(2);
    let r = pool().withdraw(&mut p, &proof);
    assert_eq!(why(r), "shielded withdraw: invalid ZK proof");
    let empty = withdrawal(&[root, u64_to_u256(192), u64_to_u256(0)]);
    let r = pool().withdraw(&mut p, &empty);
    assert!(matches!(r, Err(PrecompileError::ProofSystem(e)) if e == "no proof"));
    let n = proof.len();
    proof[n - 1] = 1;
    assert_eq!(why(pool().withdraw(&mut p, &proof)), "done");
    assert_eq!(why(pool().withdraw(&mut p, &proof[..131])), "invalid input");
}

#[test]
fn payment_that_does_not_fit_is_refused() {
    let mut p = HashMapStorageProvider::new(100_000_000);
    p.set(asset_address(), slot_balance(1, target()), u128_to_u256(u128::MAX));
    let r = pool().withdraw(&mut p, &withdrawal(&[]));
    assert_eq!(why(r), "shielded withdraw: balance overflow");
}

#[test]
fn root_is_that_of_all_commitments() {
    let mut p = HashMapStorageProvider::new(1_000_000_000);
    let mut tree = Tree::new();
    for n in 1..8 {
        let root = insert_commitment(&mut p, &pair, U256::repeat_byte(n));
        let expected = tree.insert(&[n; 32]);
        assert_eq!(root.to_be_bytes(), expected);
        p.set(shielded_address(), slot_tag("cm_count"), u64_to_u256(n as u64));
    }
    let empties = empty_hashes(&pair);
    assert_eq!(empties.len(), 32);
    assert_eq!(empties[0], zero_word());
    assert_eq!(empties[2], pair(empties[1], empties[1]));
}

#[test]
fn deposit_needs_the_balance() {
    let mut p = HashMapStorageProvider::new(100_000_000);
    let input = args(&[u64_to_u256(1), u128_to_u256(10), U256::repeat_byte(3)]);
    let r = pool().deposit(&mut p, &input, target());
    assert_eq!(why(r), "shielded deposit: insufficient balance");
    p.set(asset_address(), slot_balance(1, target()), u128_to_u256(10));
    assert_eq!(why(pool().deposit(&mut p, &input, target())), "done");
    let first = pool().get_commitment(&mut p, &args(&[u64_to_u256(0)])).unwrap().bytes;
    assert_eq!(first, vec![3; 32]);
    let count = pool().get_commitment_count(&mut p, &[0; 4]).unwrap().bytes;
    assert_eq!(count, u64_to_u256(1).to_be_bytes());
}

#[test]
fn withdrawal_changes_nothing_else() {
    let mut p = HashMapStorageProvider::new(100_000_000);
    let other = Address::repeat_byte(7);
    p.set(asset_address(), slot_balance(1, other), u128_to_u256(11));
    p.set(asset_address(), slot_balance(2, target()), u128_to_u256(12));
    p.set(asset_address(), slot_balance(1, target()), u128_to_u256(13));
    assert_eq!(withdrawal(&[]).len(), 132);
    assert_eq!(why(pool().withdraw(&mut p, &withdrawal(&[]))), "done");
    assert_eq!(p.get(asset_address(), slot_balance(1, target())), Some(u128_to_u256(53)));
    assert_eq!(p.get(asset_address(), slot_balance(1, other)), Some(u128_to_u256(11)));
    assert_eq!(p.get(asset_address(), slot_balance(2, target())), Some(u128_to_u256(12)));
    let spent = pool().is_nullifier_spent(&mut p, &args(&[U256::repeat_byte(4)])).unwrap().bytes;
    assert_eq!(spent, u64_to_u256(0).to_be_bytes());
    let again = pool().withdraw(&mut p, &withdrawal(&[]));
    assert_eq!(why(again), "shielded withdraw: nullifier already spent");
    assert_eq!(p.get(asset_address(), slot_balance(1, target())), Some(u128_to_u256(53)));
}
