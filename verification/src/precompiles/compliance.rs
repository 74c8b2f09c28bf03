//! Compliance precompile: issuers set the standing of accounts, anyone may ask for it.

pub mod laws;

use crate::precompiles::abi::{
    address_at, decode_address, decode_selector, decode_u64, decode_u8, encode_u8, number_word,
    selector_of, u64_at,
};
use crate::precompiles::asset::{cleared, field, meta_read};
use crate::precompiles::slots::{
    asset_address, compliance_address, compliance_slot, slot_asset_meta, slot_compliance,
};
use crate::precompiles::steps::{able, group_steps};
use crate::precompiles::storage::{
    ok_bytes, ok_empty, out_of_gas, outcome, refused, Outcome, PrecompileError, PrecompileResult,
    StatefulPrecompile, StorageCtx, StorageProvider, World,
};
use crate::protocol::compliance::ComplianceStatus;
use crate::words::{
    address_of, u256_to_address, u256_to_u8, u64_of, u64_to_u256, u8_of, word, zero_address,
    Address,
};
use vstd::prelude::*;

verus! {

/// The standing that a byte stands for.
pub open spec fn status_of(b: u8) -> Option<ComplianceStatus> {
    if b == 0 {
        Some(ComplianceStatus::Clear)
    } else if b == 1 {
        Some(ComplianceStatus::UnderReview)
    } else if b == 2 {
        Some(ComplianceStatus::Flagged)
    } else if b == 3 {
        Some(ComplianceStatus::Restricted)
    } else {
        None
    }
}

pub fn decode_compliance_status(b: u8) -> (r: Option<ComplianceStatus>)
    ensures
        r == status_of(b),
{
    match b {
        0 => Some(ComplianceStatus::Clear),
        1 => Some(ComplianceStatus::UnderReview),
        2 => Some(ComplianceStatus::Flagged),
        3 => Some(ComplianceStatus::Restricted),
        _ => None,
    }
}

pub open spec fn update_compliance_effect(w: World, input: Seq<u8>, sender: Address) -> (
    Outcome,
    World,
) {
    let (paid, w) = w.charge(10000);
    if !paid {
        (out_of_gas(), w)
    } else if input.len() < 100 {
        (refused("invalid input"), w)
    } else if status_of(input[99]) is None {
        (refused("invalid compliance status value"), w)
    } else if sender == zero_address() {
        (refused("caller not available"), w)
    } else {
        let asset_id = u64_at(input, 4);
        let (issuer, w) = meta_read(w, asset_id, "issuer");
        if address_of(issuer) != sender {
            (refused("not asset issuer"), w)
        } else {
            let (policy, w) = meta_read(w, asset_id, "compliance");
            let w = w.write(
                compliance_address(),
                compliance_slot(address_at(input, 36), u8_of(policy)),
                word(input[99] as u128),
            );
            (w.done(Seq::empty()), w)
        }
    }
}

pub open spec fn check_compliance_effect(w: World, input: Seq<u8>) -> (Outcome, World) {
    let (paid, w) = w.charge(1000);
    if !paid {
        (out_of_gas(), w)
    } else if input.len() < 68 {
        (refused("invalid input"), w)
    } else {
        let policy_id = input[67];
        if policy_id == 0 {
            (w.done(number_word(1, 1)), w)
        } else {
            let (status, w) = w.read(
                compliance_address(),
                compliance_slot(address_at(input, 4), policy_id),
            );
            (
                w.done(
                    number_word(
                        if u8_of(status) == 0 {
                            1
                        } else {
                            0
                        },
                        1,
                    ),
                ),
                w,
            )
        }
    }
}

/// The compliance precompile.
#[derive(Clone, Copy, Debug)]
pub struct CompliancePrecompile;

impl CompliancePrecompile {
    pub fn update_compliance<P: StorageProvider>(
        &self,
        storage: &mut P,
        input: &[u8],
        msg_sender: Address,
    ) -> (r: PrecompileResult)
        ensures
            (outcome(r), final(storage).world()) == update_compliance_effect(
                old(storage).world(),
                input@,
                msg_sender,
            ),
    {
        StorageCtx::deduct_gas(storage, 10000).ok_or(PrecompileError::OutOfGas)?;
        if input.len() < 100 {
            return Err(PrecompileError::Other("invalid input"));
        }
        let asset_id: u64 = decode_u64(input, 4).ok_or(PrecompileError::Other("invalid asset_id"))?;
        let target = decode_address(input, 36).ok_or(
            PrecompileError::Other("invalid target address"),
        )?;
        let status: u8 = decode_u8(input, 68).ok_or(PrecompileError::Other("invalid status"))?;
        let _known = decode_compliance_status(status).ok_or(
            PrecompileError::Other("invalid compliance status value"),
        )?;
        if msg_sender.is_zero() {
            return Err(PrecompileError::Other("caller not available"));
        }
        let issuer = u256_to_address(
            StorageCtx::read(storage, asset_address(), slot_asset_meta(asset_id, "issuer")),
        );
        if issuer != msg_sender {
            return Err(PrecompileError::Other("not asset issuer"));
        }
        let policy_id: u8 = u256_to_u8(
            StorageCtx::read(storage, asset_address(), slot_asset_meta(asset_id, "compliance")),
        );
        StorageCtx::write(
            storage,
            compliance_address(),
            slot_compliance(target, policy_id),
            u64_to_u256(status as u64),
        );
        ok_empty(storage)
    }

    pub fn check_compliance<P: StorageProvider>(&self, storage: &mut P, input: &[u8]) -> (r:
        PrecompileResult)
        ensures
            (outcome(r), final(storage).world()) == check_compliance_effect(
                old(storage).world(),
                input@,
            ),
    {
        StorageCtx::deduct_gas(storage, 1000).ok_or(PrecompileError::OutOfGas)?;
        if input.len() < 68 {
            return Err(PrecompileError::Other("invalid input"));
        }
        let target = decode_address(input, 4).ok_or(
            PrecompileError::Other("invalid target address"),
        )?;
        let policy_id: u8 = decode_u8(input, 36).ok_or(
            PrecompileError::Other("invalid policy_id"),
        )?;
        let passes: bool = if policy_id == 0 {
            true
        } else {
            let slot = slot_compliance(target, policy_id);
            u256_to_u8(StorageCtx::read(storage, compliance_address(), slot)) == 0
        };
        ok_bytes(
            storage,
            encode_u8(
                if passes {
                    1
                } else {
                    0
                },
            ),
        )
    }
}

/// What a call of the compliance precompile comes to.
pub open spec fn compliance_effect(w: World, calldata: Seq<u8>, sender: Address) -> (
    Outcome,
    World,
) {
    if calldata.len() < 4 {
        (refused("invalid input"), w)
    } else {
        match selector_of(calldata) {
            0xa4b7f66d => update_compliance_effect(w, calldata, sender),
            0x0ae9b34b => check_compliance_effect(w, calldata),
            _ => (refused("unknown selector"), w),
        }
    }
}

impl StatefulPrecompile for CompliancePrecompile {
    open spec fn effect(&self, w: World, calldata: Seq<u8>, sender: Address) -> (Outcome, World) {
        compliance_effect(w, calldata, sender)
    }

    open spec fn ready(&self) -> bool {
        true
    }

    fn call<P: StorageProvider>(
        &mut self,
        storage: &mut P,
        calldata: &[u8],
        msg_sender: Address,
    ) -> (r: PrecompileResult) {
        if calldata.len() < 4 {
            return Err(PrecompileError::Other("invalid input"));
        }
        match decode_selector(calldata) {
            0xa4b7f66d => self.update_compliance(storage, calldata, msg_sender),
            0x0ae9b34b => self.check_compliance(storage, calldata),
            _ => Err(PrecompileError::Other("unknown selector")),
        }
    }
}

/// What an issuer sets is what a later check finds: under a policy an account passes only if it was
/// set to clear, and without a policy it always passes.
pub proof fn law_check_finds_update(
    w: World,
    input: Seq<u8>,
    sender: Address,
    query: Seq<u8>,
)
    requires
        able(w, 50_000),
        input.len() >= 100,
        status_of(input[99]) is Some,
        sender != zero_address(),
        address_of(field(w, u64_at(input, 4), "issuer")) == sender,
        query.len() >= 68,
        address_at(query, 4) == address_at(input, 36),
        query[67] == u8_of(field(w, u64_at(input, 4), "compliance")),
        u64_of(field(w, u64_at(input, 4), "compliance")) < 0x100,
    ensures
        ({
            let (o, after) = update_compliance_effect(w, input, sender);
            let (answer, end) = check_compliance_effect(after, query);
            let passes = query[67] == 0 || input[99] == 0;
            &&& o is Done
            &&& answer == end.done(
                number_word(
                    if passes {
                        1
                    } else {
                        0
                    },
                    1,
                ),
            )
            &&& cleared(after, u64_at(input, 4), address_at(input, 36)) == passes
        }),
{
    broadcast use group_steps;

    let policy = field(w, u64_at(input, 4), "compliance");
    assert(u8_of(policy) == u64_of(policy) % 0x100);
}

/// No one but the issuer of an asset changes a standing.
pub proof fn law_only_issuer_updates(w: World, input: Seq<u8>, sender: Address)
    requires
        able(w, 50_000),
        input.len() >= 100,
        status_of(input[99]) is Some,
        sender != zero_address(),
        address_of(field(w, u64_at(input, 4), "issuer")) != sender,
    ensures
        update_compliance_effect(w, input, sender).0 == refused("not asset issuer"),
        update_compliance_effect(w, input, sender).1.slots == w.slots,
{
    broadcast use group_steps;

}

} // verus!
