//! Running a method of a precompile: gas first, and changes kept only if it succeeds.

use crate::precompiles::storage::{
    ok_bytes, out_of_gas, outcome, CheckpointGuard, Fault, Outcome, PrecompileError,
    PrecompileResult, StatefulPrecompile, StorageCtx, StorageProvider, World,
};
use crate::words::Address;
use vstd::prelude::*;

verus! {

/// A method that only reads: its gas is taken, then it runs, and its output is handed back at the
/// gas used by the end.
pub open spec fn view_effect<H: StatefulPrecompile>(
    handler: H,
    w: World,
    calldata: Seq<u8>,
    sender: Address,
    gas: u64,
) -> (Outcome, World) {
    let (paid, w1) = w.charge(gas as int);
    if !paid {
        (out_of_gas(), w1)
    } else {
        let (o, w2) = handler.effect(w1, calldata, sender);
        view_settled(w2, result_of(o))
    }
}

/// A method that changes state: it runs behind a checkpoint, which is kept where it succeeds and
/// undone where it fails.
pub open spec fn mutate_effect<H: StatefulPrecompile>(
    handler: H,
    w: World,
    calldata: Seq<u8>,
    sender: Address,
    gas: u64,
) -> (Outcome, World) {
    let (paid, w1) = w.charge(gas as int);
    if !paid {
        (out_of_gas(), w1)
    } else {
        let (o, w2) = handler.effect(w1.checkpoint(), calldata, sender);
        mutation_settled(w2, result_of(o))
    }
}

/// Takes the gas of a method.
pub fn charge<P: StorageProvider>(storage: &mut P, gas: u64) -> (r: Result<(), PrecompileError>)
    ensures
        (r is Ok, final(storage).world()) == old(storage).world().charge(gas as int),
        r matches Err(e) ==> e is OutOfGas,
{
    StorageCtx::deduct_gas(storage, gas).ok_or(PrecompileError::OutOfGas)
}

/// What a method that only reads comes to, given its result.
pub open spec fn view_settled(
    w: World,
    result: Result<Seq<u8>, Fault>,
) -> (Outcome, World) {
    match result {
        Ok(data) => (w.done(data), w),
        Err(e) => (Outcome::Failed(e), w),
    }
}

/// What a method that changes state comes to, given its result and the state that it left behind
/// its checkpoint.
pub open spec fn mutation_settled(
    w: World,
    result: Result<Seq<u8>, Fault>,
) -> (Outcome, World) {
    match result {
        Ok(data) => (w.commit().done(data), w.commit()),
        Err(e) => (Outcome::Failed(e), w.revert()),
    }
}

/// What an outcome holds besides the gas.
pub open spec fn result_of(o: Outcome) -> Result<Seq<u8>, Fault> {
    match o {
        Outcome::Failed(e) => Err(e),
        Outcome::Done { data, .. } => Ok(data),
    }
}

/// The bytes of a result.
pub open spec fn output_of(result: Result<Vec<u8>, PrecompileError>) -> Result<
    Seq<u8>,
    Fault,
> {
    match result {
        Ok(bytes) => Ok(bytes@),
        Err(e) => Err(e@),
    }
}

/// Hands back the result of a method that only reads, at the gas used so far.
pub fn settle_view<P: StorageProvider>(
    storage: &mut P,
    result: Result<Vec<u8>, PrecompileError>,
) -> (r: PrecompileResult)
    ensures
        (outcome(r), final(storage).world()) == view_settled(
            old(storage).world(),
            output_of(result),
        ),
{
    match result {
        Ok(bytes) => ok_bytes(storage, bytes),
        Err(e) => Err(e),
    }
}

/// Keeps what a method did behind a checkpoint where it succeeded, and undoes it where it failed.
pub fn settle_mutation<P: StorageProvider>(
    storage: &mut P,
    guard: CheckpointGuard,
    result: Result<Vec<u8>, PrecompileError>,
) -> (r: PrecompileResult)
    ensures
        (outcome(r), final(storage).world()) == mutation_settled(
            old(storage).world(),
            output_of(result),
        ),
{
    match result {
        Ok(bytes) => {
            guard.commit(storage);
            ok_bytes(storage, bytes)
        },
        Err(e) => {
            guard.revert(storage);
            Err(e)
        },
    }
}

/// Runs a method that only reads.
pub fn view<P: StorageProvider, H: StatefulPrecompile>(
    storage: &mut P,
    handler: &mut H,
    calldata: &[u8],
    sender: Address,
    gas: u64,
) -> (r: PrecompileResult)
    requires
        old(handler).ready(),
    ensures
        (outcome(r), final(storage).world()) == view_effect(
            *old(handler),
            old(storage).world(),
            calldata@,
            sender,
            gas,
        ),
        *final(handler) == *old(handler),
{
    charge(storage, gas)?;
    let result = match handler.call(storage, calldata, sender) {
        Ok(output) => Ok(output.bytes),
        Err(e) => Err(e),
    };
    settle_view(storage, result)
}

/// Runs a method that changes state.
pub fn mutate<P: StorageProvider, H: StatefulPrecompile>(
    storage: &mut P,
    handler: &mut H,
    calldata: &[u8],
    sender: Address,
    gas: u64,
) -> (r: PrecompileResult)
    requires
        old(handler).ready(),
    ensures
        (outcome(r), final(storage).world()) == mutate_effect(
            *old(handler),
            old(storage).world(),
            calldata@,
            sender,
            gas,
        ),
        *final(handler) == *old(handler),
{
    charge(storage, gas)?;
    let guard = StorageCtx::checkpoint(storage);
    let result = match handler.call(storage, calldata, sender) {
        Ok(output) => Ok(output.bytes),
        Err(e) => Err(e),
    };
    settle_mutation(storage, guard, result)
}

/// A method that fails leaves storage, balances and logs as they were, if it closes the checkpoints
/// that it opens itself.
pub proof fn law_failed_mutation_is_undone<H: StatefulPrecompile>(
    handler: H,
    w: World,
    calldata: Seq<u8>,
    sender: Address,
    gas: u64,
)
    requires
        mutate_effect(handler, w, calldata, sender, gas).0 is Failed,
        handler.effect(w.charge(gas as int).1.checkpoint(), calldata, sender).1.saved
            == w.charge(gas as int).1.checkpoint().saved,
    ensures
        ({
            let after = mutate_effect(handler, w, calldata, sender, gas).1;
            &&& after.slots == w.slots
            &&& after.transient == w.transient
            &&& after.balances == w.balances
            &&& after.logs == w.logs
            &&& after.saved == w.saved
        }),
{
    reveal(World::charge);
    reveal(World::checkpoint);
    reveal(World::commit);
    reveal(World::revert);
    assert(w.saved.push(w.charge(gas as int).1.snapshot()).drop_last() =~= w.saved);
}

} // verus!
