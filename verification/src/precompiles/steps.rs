//! What storage promises: reads give back writes, checkpoints undo, static calls change nothing; and
//! how accesses behave while the store answers and there is gas.

use crate::precompiles::storage::{log_gas, Backend, LogModel, Reply, World};
use crate::words::{Address, U256};
use vstd::prelude::*;

verus! {

/// The most gas that a read takes.
pub const MAX_READ_GAS: u64 = 2100;

/// The most gas that a write takes.
pub const MAX_WRITE_GAS: u64 = 22_100;

/// The store answers every access, at no more than the usual cost.
pub open spec fn serves(b: Backend) -> bool {
    &&& forall|n: nat|
        match #[trigger] b.reads[n] {
            Reply::Served { gas, .. } => gas <= MAX_READ_GAS,
            Reply::Lost => false,
        }
    &&& forall|n: nat|
        match #[trigger] b.writes[n] {
            Reply::Served { gas, .. } => gas <= MAX_WRITE_GAS,
            Reply::Lost => false,
        }
}

/// A call that may write, with this much gas, on a store that answers.
pub open spec fn able(w: World, gas: int) -> bool {
    serves(w.backend) && !w.is_static && w.gas >= gas
}

/// Nothing but the gas left, within `cost`, the refund and the count of accesses differs.
pub open spec fn spent(w: World, after: World, cost: int) -> bool {
    &&& after.slots == w.slots
    &&& after.transient == w.transient
    &&& after.balances == w.balances
    &&& after.logs == w.logs
    &&& after.saved == w.saved
    &&& same_setting(w, after)
    &&& w.gas - cost <= after.gas <= w.gas
}

/// The block, the call and the store are the same.
pub open spec fn same_setting(w: World, after: World) -> bool {
    &&& after.gas_limit == w.gas_limit
    &&& after.is_static == w.is_static
    &&& after.chain_id == w.chain_id
    &&& after.timestamp == w.timestamp
    &&& after.block_number == w.block_number
    &&& after.beneficiary == w.beneficiary
    &&& after.backend == w.backend
}

pub broadcast proof fn lemma_step_charge(w: World, gas: int)
    requires
        0 <= gas <= w.gas,
    ensures
        (#[trigger] w.charge(gas)).0,
        spent(w, w.charge(gas).1, gas),
{
    reveal(World::charge);
}

pub broadcast proof fn lemma_step_sload(w: World, address: Address, key: U256)
    requires
        able(w, MAX_READ_GAS as int),
    ensures
        (#[trigger] w.sload(address, key)).0 == Some(w.slot(address, key)),
        spent(w, w.sload(address, key).1, MAX_READ_GAS as int),
{
    reveal(World::sload);
    assert(w.backend.reads[w.accesses] is Served);
}

pub broadcast proof fn lemma_step_sstore(w: World, address: Address, key: U256, value: U256)
    requires
        able(w, MAX_WRITE_GAS as int),
    ensures
        (#[trigger] w.sstore(address, key, value)).0,
        spent(
            w.with_slot(address, key, value),
            w.sstore(address, key, value).1,
            MAX_WRITE_GAS as int,
        ),
{
    reveal(World::sstore);
    assert(w.backend.writes[w.accesses] is Served);
}

pub broadcast proof fn lemma_step_emit(w: World, log: LogModel)
    requires
        w.gas >= log_gas(log.topics.len(), log.data.len()),
    ensures
        (#[trigger] w.emit(log)).0,
        spent(
            World { logs: w.logs.push(log), ..w },
            w.emit(log).1,
            log_gas(log.topics.len(), log.data.len()) as int,
        ),
{
    reveal(World::emit);
}

pub broadcast group group_steps {
    lemma_step_charge,
    lemma_step_sload,
    lemma_step_sstore,
    lemma_step_emit,
}

/// Only gas and the count of accesses differ, whether the access went through or not.
pub open spec fn untouched(w: World, after: World) -> bool {
    &&& after.slots == w.slots
    &&& after.transient == w.transient
    &&& after.balances == w.balances
    &&& after.logs == w.logs
    &&& after.saved == w.saved
    &&& same_setting(w, after)
    &&& after.gas <= w.gas
}

pub broadcast proof fn lemma_charge_keeps(w: World, gas: int)
    requires
        gas >= 0,
    ensures
        untouched(w, (#[trigger] w.charge(gas)).1),
{
    reveal(World::charge);
}

pub broadcast proof fn lemma_sload_keeps(w: World, address: Address, key: U256)
    ensures
        untouched(w, (#[trigger] w.sload(address, key)).1),
{
    reveal(World::sload);
}

pub broadcast group group_reads {
    lemma_charge_keeps,
    lemma_sload_keeps,
}

pub broadcast proof fn lemma_sstore_keeps_saved(w: World, address: Address, key: U256, value: U256)
    ensures
        (#[trigger] w.sstore(address, key, value)).1.saved == w.saved,
{
    reveal(World::sstore);
}

pub broadcast proof fn lemma_balance_add_keeps_saved(w: World, address: Address, value: U256)
    ensures
        (#[trigger] w.balance_add(address, value)).1.saved == w.saved,
{
    reveal(World::balance_add);
}

pub broadcast proof fn lemma_balance_sub_keeps_saved(w: World, address: Address, value: U256)
    ensures
        (#[trigger] w.balance_sub(address, value)).1.saved == w.saved,
{
    reveal(World::balance_sub);
}

pub broadcast group group_saved {
    lemma_sstore_keeps_saved,
    lemma_balance_add_keeps_saved,
    lemma_balance_sub_keeps_saved,
}

/// A slot that was written holds what was written, and every other slot what it held.
pub proof fn law_read_gives_back_write(
    w: World,
    address: Address,
    key: U256,
    value: U256,
    other: Address,
    other_key: U256,
)
    requires
        w.sstore(address, key, value).0,
    ensures
        ({
            let after = w.sstore(address, key, value).1;
            &&& after.slot(address, key) == value
            &&& (other, other_key) != (address, key) ==> after.slot(other, other_key) == w.slot(
                other,
                other_key,
            )
        }),
{
    reveal(World::sstore);
}

/// A read changes no slot.
pub proof fn law_read_changes_nothing(w: World, address: Address, key: U256)
    ensures
        w.sload(address, key).1.slots == w.slots,
        w.sload(address, key).1.logs == w.logs,
        w.sload(address, key).1.balances == w.balances,
{
    reveal(World::sload);
}

/// In a static call no slot and no balance changes.
pub proof fn law_static_call_changes_nothing(w: World, address: Address, key: U256, value: U256)
    requires
        w.is_static,
    ensures
        w.sstore(address, key, value) == (false, w),
        w.tstore(address, key, value) == (false, w),
        w.balance_add(address, value) == (false, w),
        w.balance_sub(address, value) == (false, w),
{
    reveal(World::sstore);
    reveal(World::tstore);
    reveal(World::balance_add);
    reveal(World::balance_sub);
}

/// Whatever is done behind a checkpoint is undone by reverting it, and kept by committing it.
pub proof fn law_checkpoint(w: World, done: World)
    requires
        done.saved == w.checkpoint().saved,
    ensures
        done.revert().slots == w.slots,
        done.revert().transient == w.transient,
        done.revert().balances == w.balances,
        done.revert().logs == w.logs,
        done.revert().saved == w.saved,
        done.commit().slots == done.slots,
        done.commit().transient == done.transient,
        done.commit().balances == done.balances,
        done.commit().logs == done.logs,
        done.commit().saved == w.saved,
{
    reveal(World::checkpoint);
    reveal(World::commit);
    reveal(World::revert);
    assert(w.saved.push(w.snapshot()).drop_last() =~= w.saved);
}

/// Gas that is not there is not taken.
pub proof fn law_gas_is_never_overdrawn(w: World, gas: u64)
    ensures
        w.charge(gas as int).0 == (gas <= w.gas),
        w.charge(gas as int).0 ==> w.charge(gas as int).1.gas == w.gas - gas,
        !w.charge(gas as int).0 ==> w.charge(gas as int).1 == w,
{
    reveal(World::charge);
}

} // verus!
