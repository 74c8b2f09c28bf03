use callchain::crypto::keccak256;
use callchain::precompiles::asset::AssetPrecompile;
use callchain::precompiles::dispatch::{charge, mutate, settle_mutation, settle_view, view};
use callchain::precompiles::journal_backend::JournalBackend;
use callchain::precompiles::meter::GasMeter;
use callchain::precompiles::slots::{asset_address, slot_asset_meta, slot_balance};
use callchain::precompiles::storage::{
    add_saturating, event_gas, input_cost, storage_slot, HashMapStorageProvider, LogData,
    PrecompileError, StorageCtx,
};
use callchain::protocol::storage_backend::StorageBackend;
use callchain::words::{address_to_u256, u64_to_u256, zero_address, zero_word, Address, U256};

#[test]
fn test_hashmap_storage_provider() {
    let mut provider = HashMapStorageProvider::new(1_000_000);
    let addr = Address::repeat_byte(0x01);
    let key = u64_to_u256(42);

    {
        StorageCtx::sstore(&mut provider, addr, key, u64_to_u256(100));
        let val = StorageCtx::sload(&mut provider, addr, key).unwrap();
        assert_eq!(val, u64_to_u256(100));
    }
}

#[test]
fn test_checkpoint_guard_commit() {
    let mut provider = HashMapStorageProvider::new(1_000_000);
    let addr = zero_address();
    let key = u64_to_u256(1);

    {
        StorageCtx::sstore(&mut provider, addr, key, u64_to_u256(42));
        let guard = StorageCtx::checkpoint(&mut provider);
        StorageCtx::sstore(&mut provider, addr, key, u64_to_u256(99));
        guard.commit(&mut provider);
        assert_eq!(StorageCtx::sload(&mut provider, addr, key).unwrap(), u64_to_u256(99));
    }
}

#[test]
fn test_checkpoint_guard_revert() {
    let mut provider = HashMapStorageProvider::new(1_000_000);
    let addr = zero_address();
    let key = u64_to_u256(1);

    {
        StorageCtx::sstore(&mut provider, addr, key, u64_to_u256(42));
        let guard = StorageCtx::checkpoint(&mut provider);
        StorageCtx::sstore(&mut provider, addr, key, u64_to_u256(99));
        guard.revert(&mut provider);
        // reverted
        assert_eq!(StorageCtx::sload(&mut provider, addr, key).unwrap(), u64_to_u256(42));
    }
}

#[test]
fn test_storage_slot() {
    let slot = storage_slot(&[b"validators"]);
    assert_eq!(slot, keccak256(b"validators"));
}

#[test]
fn test_input_cost() {
    assert_eq!(input_cost(0), 0);
    assert_eq!(input_cost(32), 6);
    assert_eq!(input_cost(64), 12);
    assert_eq!(input_cost(33), 12);
}

fn slot(n: u64) -> U256 {
    u64_to_u256(n)
}

#[test]
fn reads_give_back_writes() {
    let mut p = HashMapStorageProvider::with_block(1_000_000, 7, 8);
    let a = Address::repeat_byte(1);
    assert_eq!(StorageCtx::read(&mut p, a, slot(1)), zero_word());
    StorageCtx::write(&mut p, a, slot(1), slot(5));
    assert_eq!(StorageCtx::read(&mut p, a, slot(1)), slot(5));
    assert_eq!(StorageCtx::read(&mut p, a, slot(2)), zero_word());
    assert_eq!(StorageCtx::read(&mut p, zero_address(), slot(1)), zero_word());
    StorageCtx::tstore(&mut p, a, slot(1), slot(6)).unwrap();
    assert_eq!(StorageCtx::tload(&mut p, a, slot(1)), Some(slot(6)));
    assert_eq!(p.get(a, slot(1)), Some(slot(5)));
    assert_eq!(StorageCtx::gas_used(&p), 4 * 100 + 20_000 + 2 * 100);
    assert_eq!((StorageCtx::chain_id(&p), StorageCtx::block_number(&p)), (7, 8));
    assert_eq!(StorageCtx::timestamp(&p), zero_word());
    assert_eq!(StorageCtx::beneficiary(&p), zero_address());
}

#[test]
fn static_call_changes_nothing() {
    let mut p = HashMapStorageProvider::new(1_000_000);
    let a = Address::repeat_byte(1);
    p.set_static(true);
    assert!(StorageCtx::is_static(&p));
    assert_eq!(StorageCtx::sstore(&mut p, a, slot(1), slot(5)), None);
    assert_eq!(StorageCtx::tstore(&mut p, a, slot(1), slot(5)), None);
    assert_eq!(StorageCtx::balance_add(&mut p, a, slot(5)), None);
    assert_eq!(StorageCtx::balance_sub(&mut p, a, slot(0)), None);
    assert_eq!(p.get(a, slot(1)), None);
}

#[test]
fn reverting_undoes_everything_behind_a_checkpoint() {
    let mut p = HashMapStorageProvider::new(1_000_000);
    let a = Address::repeat_byte(1);
    StorageCtx::balance_add(&mut p, a, slot(10)).unwrap();
    let outer = StorageCtx::checkpoint(&mut p);
    StorageCtx::write(&mut p, a, slot(1), slot(5));
    let inner = StorageCtx::checkpoint(&mut p);
    StorageCtx::balance_sub(&mut p, a, slot(4)).unwrap();
    let event = LogData { topics: vec![slot(1)], data: vec![1, 2] };
    StorageCtx::emit_event(&mut p, a, event).unwrap();
    inner.commit(&mut p);
    assert_eq!(StorageCtx::balance_get(&mut p, a), Some(slot(6)));
    assert_eq!(p.events(a).len(), 1);
    outer.revert(&mut p);
    assert_eq!(StorageCtx::balance_get(&mut p, a), Some(slot(10)));
    assert_eq!(p.get(a, slot(1)), None);
    assert!(p.events(a).is_empty());
}

#[test]
fn gas_is_never_overdrawn() {
    let mut p = HashMapStorageProvider::new(150);
    assert_eq!(StorageCtx::deduct_gas(&mut p, 100), Some(()));
    assert_eq!(StorageCtx::deduct_gas(&mut p, 51), None);
    assert_eq!(StorageCtx::gas_used(&p), 100);
    assert_eq!(StorageCtx::sload(&mut p, zero_address(), slot(1)), None);
    StorageCtx::refund_gas(&mut p, 30);
    assert_eq!(StorageCtx::gas_refunded(&p), 30);
    assert_eq!(add_saturating(i64::MAX, 1), i64::MAX);
    assert_eq!(add_saturating(i64::MIN, -1), i64::MIN);
}

#[test]
fn native_balances_stay_in_range() {
    let mut p = HashMapStorageProvider::new(1_000_000);
    let a = Address::repeat_byte(1);
    assert_eq!(StorageCtx::balance_sub(&mut p, a, slot(1)), None);
    let top = U256 { hi: u128::MAX, lo: u128::MAX };
    StorageCtx::balance_add(&mut p, a, top).unwrap();
    assert_eq!(StorageCtx::balance_add(&mut p, a, slot(1)), None);
    assert_eq!(StorageCtx::balance_get(&mut p, a), Some(top));
}

#[test]
fn prices_follow_size() {
    assert_eq!(input_cost(0), 0);
    assert_eq!(input_cost(1), 6);
    assert_eq!(input_cost(33), 12);
    assert_eq!(event_gas(2, 10), Some(375 + 2 * 375 + 10 * 8));
    assert_eq!(event_gas(0, usize::MAX), None);
    let joined = storage_slot(&[b"ab", b"c"]);
    assert_eq!(joined, keccak256(b"abc"));
}

#[test]
fn meter_settles_each_access() {
    let mut m = GasMeter::new(100_000);
    m.settle_read(true).unwrap();
    m.settle_read(false).unwrap();
    assert_eq!(m.used(), 2200);
    m.settle_write(true, slot(1), slot(1), slot(2)).unwrap();
    m.settle_write(false, slot(1), slot(2), slot(1)).unwrap();
    assert_eq!((m.used(), m.refunded), (2200 + 22_100 + 20_000, 4800));
    m.settle_write(false, slot(0), slot(3), slot(0)).unwrap();
    assert_eq!(m.refunded, 9600);
    m.settle_transient().unwrap();
    m.settle_log(1, 4).unwrap();
    let before = m.used();
    assert!(m.deduct(100_000).unwrap_err().is_oog());
    assert!(m.settle_log(0, usize::MAX).is_err());
    assert_eq!(m.used(), before);
    m.refund(-9600);
    assert_eq!(m.refunded, 0);
}

#[test]
fn store_of_slots_reads_what_it_stored() {
    let mut store = JournalBackend { provider: HashMapStorageProvider::new(30_000) };
    let a = Address::repeat_byte(1);
    store.store(a, slot(1), slot(9));
    assert_eq!(store.load(a, slot(1)), slot(9));
    store.store(a, slot(1), slot(8));
    assert_eq!(store.load(a, slot(1)), slot(9));
}

#[test]
fn failed_mutation_is_undone() {
    let mut p = HashMapStorageProvider::new(1_000_000);
    let a = Address::repeat_byte(1);
    p.set(asset_address(), slot_asset_meta(1, "supply"), slot(60));
    p.set(asset_address(), slot_balance(1, a), slot(30));
    let mut input = vec![0x73, 0x71, 0x28, 0x63];
    slot(1).push_to(&mut input);
    address_to_u256(a).push_to(&mut input);
    slot(40).push_to(&mut input);
    assert!(mutate(&mut p, &mut AssetPrecompile, &input, a, 10).is_err());
    assert_eq!(p.get(asset_address(), slot_asset_meta(1, "supply")), Some(slot(60)));
    let n = input.len();
    input[n - 1] = 20;
    mutate(&mut p, &mut AssetPrecompile, &input, a, 10).unwrap();
    assert_eq!(p.get(asset_address(), slot_asset_meta(1, "supply")), Some(slot(40)));
    assert!(mutate(&mut p, &mut AssetPrecompile, &input, a, u64::MAX).unwrap_err().is_oog());
}

#[test]
fn views_pay_first_and_hand_out_the_result() {
    let mut p = HashMapStorageProvider::new(1_000_000);
    let a = Address::repeat_byte(1);
    p.set(asset_address(), slot_balance(1, a), slot(30));
    let mut input = vec![0xd2, 0x14, 0x25, 0xdf];
    slot(1).push_to(&mut input);
    address_to_u256(a).push_to(&mut input);
    let output = view(&mut p, &mut AssetPrecompile, &input, a, 10).unwrap();
    assert_eq!(output.bytes, slot(30).to_be_bytes());
    assert_eq!(output.gas_used, 10 + 800 + 100);
    charge(&mut p, 90).unwrap();
    let output = settle_view(&mut p, Ok(vec![1])).unwrap();
    assert_eq!((output.bytes, output.gas_used), (vec![1], 1000));
    let guard = StorageCtx::checkpoint(&mut p);
    StorageCtx::write(&mut p, a, slot(1), slot(5));
    assert!(settle_mutation(&mut p, guard, Err(PrecompileError::Other("no"))).is_err());
    assert_eq!(p.get(a, slot(1)), None);
}
