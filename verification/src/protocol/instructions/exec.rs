//! Execution of instructions, one at a time or as a whole transaction.

use crate::protocol::CALL_ASSET_ID;
use crate::protocol::account::{
    amount_of, credit_effect, debit_effect, law_transfer_keeps_total_of_all, lemma_total_insert,
    spend_effect, total_of, transfer_effect, AccountState,
};
use crate::protocol::compliance::{compliance_check, ComplianceEngine, ComplianceStatus};
use crate::protocol::errors::{ProtocolError, ProtocolResult};
use crate::protocol::instructions::types::{
    memo_check, Instruction, InstructionResult, PaymentEntry, PaymentMemo,
};
use crate::protocol::registry::{issuer_check, mint_effect, Asset, AssetRegistry, AssetStatus};
use crate::words::Address;
use vstd::prelude::*;

verus! {

/// What instructions read and change.
pub struct Ledger {
    pub balances: Map<(u64, Address), u128>,
    pub allowances: Map<(u64, Address, Address), u128>,
    pub nonces: Map<Address, u64>,
    pub assets: Map<u64, Asset>,
    pub statuses: Map<(Address, u64), ComplianceStatus>,
}

pub open spec fn ledger(
    account: AccountState,
    registry: AssetRegistry,
    compliance: ComplianceEngine,
) -> Ledger {
    Ledger {
        balances: account.balances@,
        allowances: account.allowances@,
        nonces: account.nonces@,
        assets: registry.assets(),
        statuses: compliance@,
    }
}

/// Which services are there.
#[derive(Clone, Copy, Debug)]
pub struct Services {
    pub oracle: bool,
    pub governance: bool,
}

/// What a service is asked to do for an instruction: first to look something up or to check it,
/// afterwards to carry the instruction out, with the number that was looked up.
#[derive(Clone, Copy, Debug)]
pub enum Stage {
    Check,
    Perform { with: u128 },
}

/// What a service answers: whether it agrees, the number that was looked up, and why it refuses.
#[derive(Clone, Copy, Debug)]
pub struct Reply {
    pub accepted: bool,
    pub number: u128,
    pub reason: &'static str,
}

/// No service was asked.
#[verifier::allow_in_spec]
pub fn unasked() -> Reply
    returns
        (Reply { accepted: false, number: 0, reason: "" }),
{
    Reply { accepted: false, number: 0, reason: "" }
}

/// What agents reply to an instruction: nothing, where it is not theirs.
pub type AgentReply = Option<ProtocolResult<InstructionResult>>;

/// All that was answered for one instruction.
pub struct Replies {
    pub agent: AgentReply,
    pub checked: Reply,
    pub performed: Reply,
}

pub open spec fn active_check(assets: Map<u64, Asset>, asset_id: u64) -> ProtocolResult<()> {
    if !assets.contains_key(asset_id) {
        Err(ProtocolError::AssetError("asset not found"))
    } else {
        match assets[asset_id].status {
            AssetStatus::Active => Ok(()),
            AssetStatus::Frozen => Err(ProtocolError::AssetError("asset is frozen")),
            AssetStatus::Delisted => Err(ProtocolError::AssetError("asset is delisted")),
        }
    }
}

/// Whether an asset can be used.
pub fn check_asset_active(registry: &AssetRegistry, asset_id: u64) -> (r: ProtocolResult<()>)
    ensures
        r == active_check(registry.assets(), asset_id),
{
    match registry.get_asset(asset_id) {
        None => Err(ProtocolError::AssetError("asset not found")),
        Some(asset) => match asset.status {
            AssetStatus::Active => Ok(()),
            AssetStatus::Frozen => Err(ProtocolError::AssetError("asset is frozen")),
            AssetStatus::Delisted => Err(ProtocolError::AssetError("asset is delisted")),
        },
    }
}

/// Whether an account may take part in a transfer of an asset.
pub open spec fn party_check(l: Ledger, asset_id: u64, account: Address) -> ProtocolResult<()> {
    compliance_check(l.statuses, account, l.assets[asset_id].compliance_policy)
}

/// One payment of several: its memo, its recipient and the sender's balance are checked in turn.
pub open spec fn payment_effect(l: Ledger, asset_id: u64, sender: Address, p: PaymentEntry) -> (
    ProtocolResult<()>,
    Ledger,
) {
    match memo_check(p.memo) {
        Err(e) => (Err(e), l),
        Ok(_) => match party_check(l, asset_id, p.to) {
            Err(e) => (Err(e), l),
            Ok(_) => {
                let (r, balances) = transfer_effect(l.balances, asset_id, sender, p.to, p.amount);
                (r, Ledger { balances, ..l })
            },
        },
    }
}

/// Payments from `i` on, up to the first that fails.
pub open spec fn payments_effect(
    l: Ledger,
    asset_id: u64,
    sender: Address,
    payments: Seq<PaymentEntry>,
    i: int,
) -> (ProtocolResult<()>, Ledger)
    decreases payments.len() - i,
{
    if i >= payments.len() {
        (Ok(()), l)
    } else {
        let (r, next) = payment_effect(l, asset_id, sender, payments[i]);
        match r {
            Err(e) => (Err(e), next),
            Ok(_) => payments_effect(next, asset_id, sender, payments, i + 1),
        }
    }
}

/// An outcome without a result of its own.
pub open spec fn concluded(o: (ProtocolResult<()>, Ledger)) -> (
    ProtocolResult<InstructionResult>,
    Ledger,
) {
    match o.0 {
        Ok(_) => (Ok(InstructionResult::Success), o.1),
        Err(e) => (Err(e), o.1),
    }
}

pub open spec fn refuse(l: Ledger, why: &'static str) -> (
    ProtocolResult<InstructionResult>,
    Ledger,
) {
    (Err(ProtocolError::InvalidInstruction(why)), l)
}

/// A service's answer, as the outcome of an instruction.
pub open spec fn by_reply(l: Ledger, reply: Reply, by: &'static str) -> (
    ProtocolResult<InstructionResult>,
    Ledger,
) {
    if reply.accepted {
        (Ok(InstructionResult::Success), l)
    } else {
        (Err(ProtocolError::Refused { by, reason: reply.reason }), l)
    }
}

pub open spec fn transfer_outcome(
    l: Ledger,
    sender: Address,
    asset_id: u64,
    to: Address,
    amount: u128,
    memo: Option<PaymentMemo>,
) -> (ProtocolResult<()>, Ledger) {
    match active_check(l.assets, asset_id) {
        Err(e) => (Err(e), l),
        Ok(_) => match memo_check(memo) {
            Err(e) => (Err(e), l),
            Ok(_) => match party_check(l, asset_id, sender) {
                Err(e) => (Err(e), l),
                Ok(_) => match party_check(l, asset_id, to) {
                    Err(e) => (Err(e), l),
                    Ok(_) => {
                        let (r, balances) = transfer_effect(
                            l.balances,
                            asset_id,
                            sender,
                            to,
                            amount,
                        );
                        (r, Ledger { balances, ..l })
                    },
                },
            },
        },
    }
}

pub open spec fn batch_outcome(
    l: Ledger,
    sender: Address,
    asset_id: u64,
    payments: Seq<PaymentEntry>,
) -> (ProtocolResult<()>, Ledger) {
    match active_check(l.assets, asset_id) {
        Err(e) => (Err(e), l),
        Ok(_) => match party_check(l, asset_id, sender) {
            Err(e) => (Err(e), l),
            Ok(_) => payments_effect(l, asset_id, sender, payments, 0),
        },
    }
}

pub open spec fn approve_outcome(
    l: Ledger,
    sender: Address,
    asset_id: u64,
    spender: Address,
    amount: u128,
) -> (ProtocolResult<()>, Ledger) {
    match active_check(l.assets, asset_id) {
        Err(e) => (Err(e), l),
        Ok(_) => (
            Ok(()),
            Ledger {
                allowances: l.allowances.insert((asset_id, sender, spender), amount),
                ..l
            },
        ),
    }
}

pub open spec fn transfer_from_outcome(
    l: Ledger,
    sender: Address,
    asset_id: u64,
    from: Address,
    to: Address,
    amount: u128,
) -> (ProtocolResult<()>, Ledger) {
    match active_check(l.assets, asset_id) {
        Err(e) => (Err(e), l),
        Ok(_) => match party_check(l, asset_id, sender) {
            Err(e) => (Err(e), l),
            Ok(_) => match party_check(l, asset_id, from) {
                Err(e) => (Err(e), l),
                Ok(_) => match party_check(l, asset_id, to) {
                    Err(e) => (Err(e), l),
                    Ok(_) => {
                        let (spent, allowances) = spend_effect(
                            l.allowances,
                            asset_id,
                            from,
                            sender,
                            amount,
                        );
                        match spent {
                            Err(e) => (Err(e), l),
                            Ok(_) => {
                                let (r, balances) = transfer_effect(
                                    l.balances,
                                    asset_id,
                                    from,
                                    to,
                                    amount,
                                );
                                (r, Ledger { balances, allowances, ..l })
                            },
                        }
                    },
                },
            },
        },
    }
}

pub open spec fn mint_outcome(
    l: Ledger,
    sender: Address,
    asset_id: u64,
    to: Address,
    amount: u128,
) -> (ProtocolResult<()>, Ledger) {
    match active_check(l.assets, asset_id) {
        Err(e) => (Err(e), l),
        Ok(_) => {
            let (minted, assets) = mint_effect(l.assets, asset_id, sender, amount);
            match minted {
                Err(e) => (Err(e), l),
                Ok(_) => {
                    let (r, balances) = credit_effect(l.balances, asset_id, to, amount);
                    (r, Ledger { balances, assets, ..l })
                },
            }
        },
    }
}

pub open spec fn burn_outcome(
    l: Ledger,
    sender: Address,
    asset_id: u64,
    from: Address,
    amount: u128,
) -> (ProtocolResult<()>, Ledger) {
    match active_check(l.assets, asset_id) {
        Err(e) => (Err(e), l),
        Ok(_) => match issuer_check(l.assets, asset_id, sender) {
            Err(e) => (Err(e), l),
            Ok(_) => {
                let (r, balances) = debit_effect(l.balances, asset_id, from, amount);
                (r, Ledger { balances, ..l })
            },
        },
    }
}

pub open spec fn bridge_deposit_outcome(
    l: Ledger,
    asset_id: u64,
    target: Address,
    amount: u128,
    proof: Seq<u8>,
) -> (ProtocolResult<()>, Ledger) {
    if !l.assets.contains_key(asset_id) {
        (Err(ProtocolError::AssetError("asset not found")), l)
    } else if proof.len() == 0 {
        (Err(ProtocolError::InvalidInstruction("bridge deposit: empty proof")), l)
    } else {
        let (r, balances) = credit_effect(l.balances, asset_id, target, amount);
        (r, Ledger { balances, ..l })
    }
}

pub open spec fn compliance_outcome(
    l: Ledger,
    sender: Address,
    asset_id: u64,
    target: Address,
    status: ComplianceStatus,
) -> (ProtocolResult<()>, Ledger) {
    match issuer_check(l.assets, asset_id, sender) {
        Err(e) => (Err(e), l),
        Ok(_) => (
            Ok(()),
            Ledger {
                statuses: l.statuses.insert(
                    (target, l.assets[asset_id].compliance_policy as u64),
                    status,
                ),
                ..l
            },
        ),
    }
}

/// The pool is asked to check the proof and to use up the nullifier; the target is credited in the
/// asset with the number 0.
pub open spec fn shielded_withdraw_outcome(
    l: Ledger,
    target: Address,
    amount: u128,
    checked: Reply,
    performed: Reply,
) -> (ProtocolResult<InstructionResult>, Ledger) {
    if !checked.accepted {
        refuse(l, "shielded withdraw: invalid ZK proof")
    } else if !performed.accepted {
        (
            Err(ProtocolError::Refused { by: "shielded withdraw", reason: performed.reason }),
            l,
        )
    } else {
        let (r, balances) = credit_effect(l.balances, 0, target, amount);
        concluded((r, Ledger { balances, ..l }))
    }
}

/// The sender is charged before the note is read and put into the pool.
pub open spec fn shielded_deposit_outcome(
    l: Ledger,
    sender: Address,
    asset_id: u64,
    amount: u128,
    checked: Reply,
    performed: Reply,
) -> (ProtocolResult<InstructionResult>, Ledger) {
    let (r, balances) = debit_effect(l.balances, asset_id, sender, amount);
    let charged = Ledger { balances, ..l };
    match r {
        Err(e) => (Err(e), charged),
        Ok(_) => if !checked.accepted {
            (
                Err(
                    ProtocolError::Refused {
                        by: "shielded deposit: invalid encrypted note",
                        reason: checked.reason,
                    },
                ),
                charged,
            )
        } else {
            by_reply(charged, performed, "shielded deposit")
        },
    }
}

/// The sender must be a validator of the oracle, and the signature have the right length.
pub open spec fn oracle_outcome(
    services: Services,
    l: Ledger,
    signature: Seq<u8>,
    checked: Reply,
    performed: Reply,
) -> (ProtocolResult<InstructionResult>, Ledger) {
    if !services.oracle {
        refuse(l, "oracle not available")
    } else if !checked.accepted {
        refuse(l, "oracle: sender not a registered validator")
    } else if signature.len() != 64 {
        refuse(l, "oracle: signature must be 64 bytes")
    } else {
        by_reply(l, performed, "oracle")
    }
}

/// The deposit that governance asks for is taken from the sender.
pub open spec fn proposal_outcome(
    services: Services,
    l: Ledger,
    sender: Address,
    checked: Reply,
    performed: Reply,
) -> (ProtocolResult<InstructionResult>, Ledger) {
    if !services.governance {
        refuse(l, "governance not available")
    } else if amount_of(l.balances, (CALL_ASSET_ID, sender)) < checked.number {
        refuse(l, "governance: insufficient balance for proposal deposit")
    } else {
        let charged = Ledger {
            balances: debit_effect(l.balances, CALL_ASSET_ID, sender, checked.number).1,
            ..l
        };
        by_reply(charged, performed, "governance")
    }
}

/// A request that governance decides on alone.
pub open spec fn governance_outcome(services: Services, l: Ledger, performed: Reply) -> (
    ProtocolResult<InstructionResult>,
    Ledger,
) {
    if !services.governance {
        refuse(l, "governance not available")
    } else {
        by_reply(l, performed, "governance")
    }
}

/// Only a validator may sign for a pause.
pub open spec fn pause_outcome(
    services: Services,
    l: Ledger,
    checked: Reply,
    performed: Reply,
) -> (ProtocolResult<InstructionResult>, Ledger) {
    if !services.governance {
        refuse(l, "governance not available")
    } else if !checked.accepted {
        refuse(l, "governance: sender not a registered validator")
    } else {
        by_reply(l, performed, "governance")
    }
}

/// What an instruction comes to, given all answers. Instructions that agents reply to are theirs;
/// some are executed with the block, and refused here.
pub open spec fn instruction_effect(
    services: Services,
    l: Ledger,
    sender: Address,
    instruction: Instruction,
    replies: Replies,
) -> (ProtocolResult<InstructionResult>, Ledger) {
    let checked = replies.checked;
    let performed = replies.performed;
    match replies.agent {
        Some(r) => (r, l),
        None => match instruction {
            Instruction::Transfer { asset_id, to, amount, memo } => concluded(
                transfer_outcome(l, sender, asset_id, to, amount, memo),
            ),
            Instruction::BatchTransfer { asset_id, payments } => concluded(
                batch_outcome(l, sender, asset_id, payments@),
            ),
            Instruction::Approve { asset_id, spender, amount } => concluded(
                approve_outcome(l, sender, asset_id, spender, amount),
            ),
            Instruction::TransferFrom { asset_id, from, to, amount } => concluded(
                transfer_from_outcome(l, sender, asset_id, from, to, amount),
            ),
            Instruction::Mint { asset_id, to, amount } => concluded(
                mint_outcome(l, sender, asset_id, to, amount),
            ),
            Instruction::Burn { asset_id, from, amount } => concluded(
                burn_outcome(l, sender, asset_id, from, amount),
            ),
            Instruction::AgentPay { .. } => refuse(l, "AgentPay requires an agent executor"),
            Instruction::AgentBatchPay { .. } => refuse(
                l,
                "AgentBatchPay requires an agent executor",
            ),
            Instruction::AgentCall { .. } => refuse(l, "AgentCall requires an agent executor"),
            Instruction::AgentBridgeDeposit { .. } => refuse(
                l,
                "AgentBridgeDeposit requires an agent executor",
            ),
            Instruction::BridgeDeposit { target_address, amount, asset_id, proof, .. } => concluded(
                bridge_deposit_outcome(l, asset_id, target_address, amount, proof@),
            ),
            Instruction::UpdateCompliance { asset_id, target, status } => concluded(
                compliance_outcome(l, sender, asset_id, target, status),
            ),
            Instruction::ShieldedTransfer { .. } => if !checked.accepted {
                refuse(l, "shielded transfer: invalid ZK proof structure")
            } else {
                by_reply(l, performed, "shielded transfer")
            },
            Instruction::ShieldedWithdraw { target, amount, .. } => shielded_withdraw_outcome(
                l,
                target,
                amount,
                checked,
                performed,
            ),
            Instruction::ShieldedDeposit { asset_id, amount, .. } => shielded_deposit_outcome(
                l,
                sender,
                asset_id,
                amount,
                checked,
                performed,
            ),
            Instruction::OracleSubmit { signature, .. } => oracle_outcome(
                services,
                l,
                signature@,
                checked,
                performed,
            ),
            Instruction::GovernanceSubmitProposal { .. } => proposal_outcome(
                services,
                l,
                sender,
                checked,
                performed,
            ),
            Instruction::GovernanceVote { .. } => governance_outcome(services, l, performed),
            Instruction::GovernanceQueue { .. } => governance_outcome(services, l, performed),
            Instruction::GovernanceExecute { .. } => governance_outcome(services, l, performed),
            Instruction::GovernanceEmergencyPause { .. } => pause_outcome(
                services,
                l,
                checked,
                performed,
            ),
            Instruction::GovernanceEmergencyResume => governance_outcome(services, l, performed),
            Instruction::ExternalBridgeDeposit { .. } => refuse(
                l,
                "ExternalBridgeDeposit must be executed inline in Block::execute",
            ),
            Instruction::ExternalBridgeWithdraw { .. } => refuse(
                l,
                "ExternalBridgeWithdraw must be executed inline in Block::execute",
            ),
            Instruction::ChallengeBridgeDeposit { .. } => refuse(
                l,
                "ChallengeBridgeDeposit must be executed inline in Block::execute",
            ),
            Instruction::RegisterAsset { .. } => refuse(
                l,
                "RegisterAsset must be executed inline in Block::execute",
            ),
            Instruction::BridgeToEvm { .. } => refuse(
                l,
                "BridgeToEvm must be executed inline in Block::execute",
            ),
            Instruction::BridgeToProtocol { .. } => refuse(
                l,
                "BridgeToProtocol must be executed inline in Block::execute",
            ),
            Instruction::ValidatorStake { .. } => refuse(
                l,
                "ValidatorStake must be executed inline in Block::execute",
            ),
            Instruction::ValidatorUnstake { .. } => refuse(
                l,
                "ValidatorUnstake must be executed inline in Block::execute",
            ),
            Instruction::ValidatorClaimUnbonded { .. } => refuse(
                l,
                "ValidatorClaimUnbonded must be executed inline in Block::execute",
            ),
            Instruction::RegisterAgent { .. } => refuse(
                l,
                "RegisterAgent must be executed inline in Block::execute",
            ),
            Instruction::GrantAgentBalance { .. } => refuse(
                l,
                "GrantAgentBalance must be executed inline in Block::execute",
            ),
            Instruction::RevokeAgentBalance { .. } => refuse(
                l,
                "RevokeAgentBalance must be executed inline in Block::execute",
            ),
            Instruction::SubmitRollbackSignature { .. } => refuse(
                l,
                "SubmitRollbackSignature must be executed inline in Block::execute",
            ),
            Instruction::EvmIssuerMint { .. } => refuse(
                l,
                "EvmIssuerMint must be executed inline in Block::execute",
            ),
        },
    }
}

/// Whether a service is first asked to check something.
pub open spec fn asks_check(
    services: Services,
    l: Ledger,
    sender: Address,
    instruction: Instruction,
) -> bool {
    match instruction {
        Instruction::ShieldedTransfer { .. } => true,
        Instruction::ShieldedWithdraw { .. } => true,
        Instruction::ShieldedDeposit { asset_id, amount, .. } => amount_of(
            l.balances,
            (asset_id, sender),
        ) >= amount,
        Instruction::OracleSubmit { .. } => services.oracle,
        Instruction::GovernanceSubmitProposal { .. } => services.governance,
        Instruction::GovernanceEmergencyPause { .. } => services.governance,
        _ => false,
    }
}

/// With what number, if at all, a service is asked to carry the instruction out.
pub open spec fn asks_perform(
    services: Services,
    l: Ledger,
    sender: Address,
    instruction: Instruction,
    checked: Reply,
) -> Option<u128> {
    let wanted = match instruction {
        Instruction::ShieldedTransfer { .. } => checked.accepted,
        Instruction::ShieldedWithdraw { .. } => checked.accepted,
        Instruction::ShieldedDeposit { .. } => asks_check(services, l, sender, instruction)
            && checked.accepted,
        Instruction::OracleSubmit { signature, .. } => services.oracle && checked.accepted
            && signature@.len() == 64,
        Instruction::GovernanceSubmitProposal { .. } => services.governance && amount_of(
            l.balances,
            (CALL_ASSET_ID, sender),
        ) >= checked.number,
        Instruction::GovernanceEmergencyPause { .. } => services.governance && checked.accepted,
        Instruction::GovernanceVote { .. } => services.governance,
        Instruction::GovernanceQueue { .. } => services.governance,
        Instruction::GovernanceExecute { .. } => services.governance,
        Instruction::GovernanceEmergencyResume => services.governance,
        _ => false,
    };
    if wanted {
        Some(checked.number)
    } else {
        None
    }
}

fn policy_of(registry: &AssetRegistry, asset_id: u64) -> (r: u8)
    requires
        registry.assets().contains_key(asset_id),
    ensures
        r == registry.assets()[asset_id].compliance_policy,
{
    match registry.get_asset(asset_id) {
        Some(a) => a.compliance_policy,
        None => 0,
    }
}

fn check_issuer(registry: &AssetRegistry, asset_id: u64, sender: Address) -> (r: ProtocolResult<()>)
    ensures
        r == issuer_check(registry.assets(), asset_id, sender),
{
    match registry.get_asset(asset_id) {
        None => Err(ProtocolError::AssetError("asset not found")),
        Some(a) => if a.issuer != sender {
            Err(ProtocolError::Unauthorized)
        } else {
            Ok(())
        },
    }
}

fn check_memo(memo: &Option<PaymentMemo>) -> (r: ProtocolResult<()>)
    ensures
        r == memo_check(*memo),
{
    match memo {
        Some(m) => m.validate(),
        None => Ok(()),
    }
}

fn run_transfer(
    account: &mut AccountState,
    registry: &AssetRegistry,
    compliance: &ComplianceEngine,
    sender: Address,
    asset_id: u64,
    to: Address,
    amount: u128,
    memo: &Option<PaymentMemo>,
) -> (r: ProtocolResult<()>)
    ensures
        (r, ledger(*final(account), *registry, *compliance)) == transfer_outcome(
            ledger(*old(account), *registry, *compliance),
            sender,
            asset_id,
            to,
            amount,
            *memo,
        ),
{
    check_asset_active(registry, asset_id)?;
    check_memo(memo)?;
    let policy_id: u8 = policy_of(registry, asset_id);
    compliance.check_compliance_by_policy_id(&sender, policy_id)?;
    compliance.check_compliance_by_policy_id(&to, policy_id)?;
    account.transfer(asset_id, sender, to, amount)
}

fn run_batch(
    account: &mut AccountState,
    registry: &AssetRegistry,
    compliance: &ComplianceEngine,
    sender: Address,
    asset_id: u64,
    payments: &Vec<PaymentEntry>,
) -> (r: ProtocolResult<()>)
    ensures
        (r, ledger(*final(account), *registry, *compliance)) == batch_outcome(
            ledger(*old(account), *registry, *compliance),
            sender,
            asset_id,
            payments@,
        ),
{
    check_asset_active(registry, asset_id)?;
    let policy_id: u8 = policy_of(registry, asset_id);
    compliance.check_compliance_by_policy_id(&sender, policy_id)?;
    let mut i: usize = 0;
    while i < payments.len()
        invariant
            i <= payments@.len(),
            registry.assets().contains_key(asset_id),
            policy_id == registry.assets()[asset_id].compliance_policy,
            payments_effect(
                ledger(*account, *registry, *compliance),
                asset_id,
                sender,
                payments@,
                i as int,
            ) == payments_effect(
                ledger(*old(account), *registry, *compliance),
                asset_id,
                sender,
                payments@,
                0,
            ),
            batch_outcome(
                ledger(*old(account), *registry, *compliance),
                sender,
                asset_id,
                payments@,
            ) == payments_effect(
                ledger(*old(account), *registry, *compliance),
                asset_id,
                sender,
                payments@,
                0,
            ),
        decreases payments@.len() - i,
    {
        let p: &PaymentEntry = &payments[i];
        check_memo(&p.memo)?;
        compliance.check_compliance_by_policy_id(&p.to, policy_id)?;
        account.transfer(asset_id, sender, p.to, p.amount)?;
        i += 1;
    }
    Ok(())
}

fn run_transfer_from(
    account: &mut AccountState,
    registry: &AssetRegistry,
    compliance: &ComplianceEngine,
    sender: Address,
    asset_id: u64,
    from: Address,
    to: Address,
    amount: u128,
) -> (r: ProtocolResult<()>)
    ensures
        (r, ledger(*final(account), *registry, *compliance)) == transfer_from_outcome(
            ledger(*old(account), *registry, *compliance),
            sender,
            asset_id,
            from,
            to,
            amount,
        ),
{
    check_asset_active(registry, asset_id)?;
    let policy_id: u8 = policy_of(registry, asset_id);
    compliance.check_compliance_by_policy_id(&sender, policy_id)?;
    compliance.check_compliance_by_policy_id(&from, policy_id)?;
    compliance.check_compliance_by_policy_id(&to, policy_id)?;
    account.allowances.spend_allowance(asset_id, from, sender, amount)?;
    account.transfer(asset_id, from, to, amount)
}

fn run_mint(
    account: &mut AccountState,
    registry: &mut AssetRegistry,
    sender: Address,
    asset_id: u64,
    to: Address,
    amount: u128,
    compliance: &ComplianceEngine,
) -> (r: ProtocolResult<()>)
    ensures
        (r, ledger(*final(account), *final(registry), *compliance)) == mint_outcome(
            ledger(*old(account), *old(registry), *compliance),
            sender,
            asset_id,
            to,
            amount,
        ),
        final(registry).same_index(*old(registry)),
{
    check_asset_active(registry, asset_id)?;
    registry.mint_supply(asset_id, &sender, amount)?;
    account.mint(asset_id, &sender, to, amount)
}

fn accept(reply: Reply, by: &'static str) -> (r: ProtocolResult<InstructionResult>)
    ensures
        r == if reply.accepted {
            Ok(InstructionResult::Success)
        } else {
            Err(ProtocolError::Refused { by, reason: reply.reason })
        },
{
    if reply.accepted {
        Ok(InstructionResult::Success)
    } else {
        Err(ProtocolError::Refused { by, reason: reply.reason })
    }
}

fn succeed(r: ProtocolResult<()>) -> (o: ProtocolResult<InstructionResult>)
    ensures
        o == match r {
            Ok(_) => Ok(InstructionResult::Success),
            Err(e) => Err(e),
        },
{
    match r {
        Ok(_) => Ok(InstructionResult::Success),
        Err(e) => Err(e),
    }
}

/// Executes an instruction once everything that services and agents say about it is known.
#[verifier::rlimit(40)]
pub fn settle_instruction(
    instruction: &Instruction,
    account: &mut AccountState,
    registry: &mut AssetRegistry,
    compliance: &mut ComplianceEngine,
    sender: Address,
    services: Services,
    agent: AgentReply,
    checked: Reply,
    performed: Reply,
) -> (r: ProtocolResult<InstructionResult>)
    ensures
        (r, ledger(*final(account), *final(registry), *final(compliance))) == instruction_effect(
            services,
            ledger(*old(account), *old(registry), *old(compliance)),
            sender,
            *instruction,
            (Replies { agent, checked, performed }),
        ),
        final(registry).same_index(*old(registry)),
{
    if let Some(result) = agent {
        return result;
    }
    match instruction {
        Instruction::Transfer { asset_id, to, amount, memo } => succeed(
            run_transfer(account, registry, compliance, sender, *asset_id, *to, *amount, memo),
        ),
        Instruction::BatchTransfer { asset_id, payments } => succeed(
            run_batch(account, registry, compliance, sender, *asset_id, payments),
        ),
        Instruction::Approve { asset_id, spender, amount } => {
            check_asset_active(registry, *asset_id)?;
            account.allowances.set_allowance(*asset_id, sender, *spender, *amount);
            Ok(InstructionResult::Success)
        },
        Instruction::TransferFrom { asset_id, from, to, amount } => succeed(
            run_transfer_from(
                account,
                registry,
                compliance,
                sender,
                *asset_id,
                *from,
                *to,
                *amount,
            ),
        ),
        Instruction::Mint { asset_id, to, amount } => succeed(
            run_mint(account, registry, sender, *asset_id, *to, *amount, compliance),
        ),
        Instruction::Burn { asset_id, from, amount } => {
            check_asset_active(registry, *asset_id)?;
            check_issuer(registry, *asset_id, sender)?;
            succeed(account.burn(*asset_id, *from, *amount))
        },
        Instruction::AgentPay { .. } => Err(
            ProtocolError::InvalidInstruction("AgentPay requires an agent executor"),
        ),
        Instruction::AgentBatchPay { .. } => Err(
            ProtocolError::InvalidInstruction("AgentBatchPay requires an agent executor"),
        ),
        Instruction::AgentCall { .. } => Err(
            ProtocolError::InvalidInstruction("AgentCall requires an agent executor"),
        ),
        Instruction::AgentBridgeDeposit { .. } => Err(
            ProtocolError::InvalidInstruction("AgentBridgeDeposit requires an agent executor"),
        ),
        Instruction::BridgeDeposit { target_address, amount, asset_id, proof, .. } => {
            if registry.get_asset(*asset_id).is_none() {
                return Err(ProtocolError::AssetError("asset not found"));
            }
            if proof.len() == 0 {
                return Err(ProtocolError::InvalidInstruction("bridge deposit: empty proof"));
            }
            succeed(account.mint(*asset_id, &sender, *target_address, *amount))
        },
        Instruction::UpdateCompliance { asset_id, target, status } => {
            check_issuer(registry, *asset_id, sender)?;
            let policy_id: u8 = policy_of(registry, *asset_id);
            compliance.set_address_compliance(*target, policy_id, *status);
            Ok(InstructionResult::Success)
        },
        Instruction::ShieldedTransfer { .. } => {
            if !checked.accepted {
                return Err(
                    ProtocolError::InvalidInstruction(
                        "shielded transfer: invalid ZK proof structure",
                    ),
                );
            }
            accept(performed, "shielded transfer")
        },
        Instruction::ShieldedWithdraw { target, amount, .. } => {
            if !checked.accepted {
                return Err(
                    ProtocolError::InvalidInstruction("shielded withdraw: invalid ZK proof"),
                );
            }
            if !performed.accepted {
                return Err(
                    ProtocolError::Refused { by: "shielded withdraw", reason: performed.reason },
                );
            }
            succeed(account.credit_balance(0, *target, *amount))
        },
        Instruction::ShieldedDeposit { asset_id, amount, .. } => {
            account.deduct_balance(*asset_id, sender, *amount)?;
            if !checked.accepted {
                return Err(
                    ProtocolError::Refused {
                        by: "shielded deposit: invalid encrypted note",
                        reason: checked.reason,
                    },
                );
            }
            accept(performed, "shielded deposit")
        },
        Instruction::OracleSubmit { signature, .. } => {
            if !services.oracle {
                return Err(ProtocolError::InvalidInstruction("oracle not available"));
            }
            if !checked.accepted {
                return Err(
                    ProtocolError::InvalidInstruction("oracle: sender not a registered validator"),
                );
            }
            if signature.len() != 64 {
                return Err(
                    ProtocolError::InvalidInstruction("oracle: signature must be 64 bytes"),
                );
            }
            accept(performed, "oracle")
        },
        Instruction::GovernanceSubmitProposal { .. } => {
            if !services.governance {
                return Err(ProtocolError::InvalidInstruction("governance not available"));
            }
            if account.get_balance(CALL_ASSET_ID, &sender) < checked.number {
                return Err(
                    ProtocolError::InvalidInstruction(
                        "governance: insufficient balance for proposal deposit",
                    ),
                );
            }
            account.deduct_balance(CALL_ASSET_ID, sender, checked.number)?;
            accept(performed, "governance")
        },
        Instruction::GovernanceEmergencyPause { .. } => {
            if !services.governance {
                return Err(ProtocolError::InvalidInstruction("governance not available"));
            }
            if !checked.accepted {
                return Err(
                    ProtocolError::InvalidInstruction(
                        "governance: sender not a registered validator",
                    ),
                );
            }
            accept(performed, "governance")
        },
        Instruction::GovernanceVote { .. } | Instruction::GovernanceQueue { .. }
        | Instruction::GovernanceExecute { .. } | Instruction::GovernanceEmergencyResume => {
            if !services.governance {
                return Err(ProtocolError::InvalidInstruction("governance not available"));
            }
            accept(performed, "governance")
        },
        Instruction::ExternalBridgeDeposit { .. } => Err(
            ProtocolError::InvalidInstruction(
                "ExternalBridgeDeposit must be executed inline in Block::execute",
            ),
        ),
        Instruction::ExternalBridgeWithdraw { .. } => Err(
            ProtocolError::InvalidInstruction(
                "ExternalBridgeWithdraw must be executed inline in Block::execute",
            ),
        ),
        Instruction::ChallengeBridgeDeposit { .. } => Err(
            ProtocolError::InvalidInstruction(
                "ChallengeBridgeDeposit must be executed inline in Block::execute",
            ),
        ),
        Instruction::RegisterAsset { .. } => Err(
            ProtocolError::InvalidInstruction(
                "RegisterAsset must be executed inline in Block::execute",
            ),
        ),
        Instruction::BridgeToEvm { .. } => Err(
            ProtocolError::InvalidInstruction(
                "BridgeToEvm must be executed inline in Block::execute",
            ),
        ),
        Instruction::BridgeToProtocol { .. } => Err(
            ProtocolError::InvalidInstruction(
                "BridgeToProtocol must be executed inline in Block::execute",
            ),
        ),
        Instruction::ValidatorStake { .. } => Err(
            ProtocolError::InvalidInstruction(
                "ValidatorStake must be executed inline in Block::execute",
            ),
        ),
        Instruction::ValidatorUnstake { .. } => Err(
            ProtocolError::InvalidInstruction(
                "ValidatorUnstake must be executed inline in Block::execute",
            ),
        ),
        Instruction::ValidatorClaimUnbonded { .. } => Err(
            ProtocolError::InvalidInstruction(
                "ValidatorClaimUnbonded must be executed inline in Block::execute",
            ),
        ),
        Instruction::RegisterAgent { .. } => Err(
            ProtocolError::InvalidInstruction(
                "RegisterAgent must be executed inline in Block::execute",
            ),
        ),
        Instruction::GrantAgentBalance { .. } => Err(
            ProtocolError::InvalidInstruction(
                "GrantAgentBalance must be executed inline in Block::execute",
            ),
        ),
        Instruction::RevokeAgentBalance { .. } => Err(
            ProtocolError::InvalidInstruction(
                "RevokeAgentBalance must be executed inline in Block::execute",
            ),
        ),
        Instruction::SubmitRollbackSignature { .. } => Err(
            ProtocolError::InvalidInstruction(
                "SubmitRollbackSignature must be executed inline in Block::execute",
            ),
        ),
        Instruction::EvmIssuerMint { .. } => Err(
            ProtocolError::InvalidInstruction(
                "EvmIssuerMint must be executed inline in Block::execute",
            ),
        ),
    }
}

fn needs_check(
    services: Services,
    account: &AccountState,
    sender: Address,
    instruction: &Instruction,
) -> (r: bool)
    ensures
        forall|registry: AssetRegistry, compliance: ComplianceEngine|
            r == #[trigger] asks_check(
                services,
                ledger(*account, registry, compliance),
                sender,
                *instruction,
            ),
{
    match instruction {
        Instruction::ShieldedTransfer { .. } => true,
        Instruction::ShieldedWithdraw { .. } => true,
        Instruction::ShieldedDeposit { asset_id, amount, .. } => account.get_balance(
            *asset_id,
            &sender,
        ) >= *amount,
        Instruction::OracleSubmit { .. } => services.oracle,
        Instruction::GovernanceSubmitProposal { .. } => services.governance,
        Instruction::GovernanceEmergencyPause { .. } => services.governance,
        _ => false,
    }
}

fn needs_perform(
    services: Services,
    account: &AccountState,
    sender: Address,
    instruction: &Instruction,
    checked: Reply,
) -> (r: Option<u128>)
    ensures
        forall|registry: AssetRegistry, compliance: ComplianceEngine|
            r == #[trigger] asks_perform(
                services,
                ledger(*account, registry, compliance),
                sender,
                *instruction,
                checked,
            ),
{
    let wanted = match instruction {
        Instruction::ShieldedTransfer { .. } => checked.accepted,
        Instruction::ShieldedWithdraw { .. } => checked.accepted,
        Instruction::ShieldedDeposit { asset_id, amount, .. } => account.get_balance(
            *asset_id,
            &sender,
        ) >= *amount && checked.accepted,
        Instruction::OracleSubmit { signature, .. } => services.oracle && checked.accepted
            && signature.len() == 64,
        Instruction::GovernanceSubmitProposal { .. } => services.governance && account.get_balance(
            CALL_ASSET_ID,
            &sender,
        ) >= checked.number,
        Instruction::GovernanceEmergencyPause { .. } => services.governance && checked.accepted,
        Instruction::GovernanceVote { .. } => services.governance,
        Instruction::GovernanceQueue { .. } => services.governance,
        Instruction::GovernanceExecute { .. } => services.governance,
        Instruction::GovernanceEmergencyResume => services.governance,
        _ => false,
    };
    if wanted {
        Some(checked.number)
    } else {
        None
    }
}

/// The replies are those of the agents and services to what an instruction asks of them; whoever is
/// not asked replies nothing.
pub open spec fn replied<
    A: Fn(&Instruction, Address) -> AgentReply,
    S: Fn(&Instruction, Address, Stage) -> Reply,
>(
    agent: A,
    service: S,
    services: Services,
    l: Ledger,
    sender: Address,
    instruction: Instruction,
    replies: Replies,
) -> bool {
    &&& agent.ensures((&instruction, sender), replies.agent)
    &&& if replies.agent is None && asks_check(services, l, sender, instruction) {
        service.ensures((&instruction, sender, Stage::Check), replies.checked)
    } else {
        replies.checked == unasked()
    }
    &&& match asks_perform(services, l, sender, instruction, replies.checked) {
        Some(with) if replies.agent is None => service.ensures(
            (&instruction, sender, Stage::Perform { with }),
            replies.performed,
        ),
        _ => replies.performed == unasked(),
    }
}

/// The agents and the services can be asked about any instruction.
pub open spec fn answerable<
    A: Fn(&Instruction, Address) -> AgentReply,
    S: Fn(&Instruction, Address, Stage) -> Reply,
>(agent: A, service: S) -> bool {
    &&& forall|i: &Instruction, a: Address| #[trigger] agent.requires((i, a))
    &&& forall|i: &Instruction, a: Address, s: Stage| #[trigger] service.requires((i, a, s))
}

/// Executes one instruction. Agents are asked first; then, as far as the instruction needs it, the
/// services.
pub fn execute_instruction<
    A: Fn(&Instruction, Address) -> AgentReply,
    S: Fn(&Instruction, Address, Stage) -> Reply,
>(
    instruction: &Instruction,
    account: &mut AccountState,
    registry: &mut AssetRegistry,
    compliance: &mut ComplianceEngine,
    sender: Address,
    services: Services,
    agent: &A,
    service: &S,
) -> (r: ProtocolResult<InstructionResult>)
    requires
        answerable(*agent, *service),
    ensures
        exists|replies: Replies|
            {
                &&& #[trigger] replied(
                    *agent,
                    *service,
                    services,
                    ledger(*old(account), *old(registry), *old(compliance)),
                    sender,
                    *instruction,
                    replies,
                )
                &&& (r, ledger(*final(account), *final(registry), *final(compliance)))
                    == instruction_effect(
                    services,
                    ledger(*old(account), *old(registry), *old(compliance)),
                    sender,
                    *instruction,
                    replies,
                )
            },
        final(registry).same_index(*old(registry)),
{
    let agent_reply: AgentReply = agent(instruction, sender);
    let mut checked: Reply = unasked();
    let mut performed: Reply = unasked();
    if agent_reply.is_none() {
        if needs_check(services, account, sender, instruction) {
            checked = service(instruction, sender, Stage::Check);
        }
        if let Some(with) = needs_perform(services, account, sender, instruction, checked) {
            performed = service(instruction, sender, Stage::Perform { with });
        }
    }
    let ghost replies = Replies { agent: agent_reply, checked, performed };
    proof {
        assert(replied(
            *agent,
            *service,
            services,
            ledger(*account, *registry, *compliance),
            sender,
            *instruction,
            replies,
        ));
    }
    settle_instruction(
        instruction,
        account,
        registry,
        compliance,
        sender,
        services,
        agent_reply,
        checked,
        performed,
    )
}

/// The instruction at which a transaction failed, and why.
#[derive(Clone, Copy, Debug)]
pub struct InstructionFailure {
    pub index: usize,
    pub error: ProtocolError,
}

/// The ledger after the first `n` instructions.
pub open spec fn after(
    services: Services,
    l: Ledger,
    sender: Address,
    instructions: Seq<Instruction>,
    replies: Seq<Replies>,
    n: int,
) -> Ledger
    decreases n,
{
    if n <= 0 {
        l
    } else {
        let before = after(services, l, sender, instructions, replies, n - 1);
        instruction_effect(services, before, sender, instructions[n - 1], replies[n - 1]).1
    }
}

/// What the instruction at `i` comes to, after those before it.
pub open spec fn step(
    services: Services,
    l: Ledger,
    sender: Address,
    instructions: Seq<Instruction>,
    replies: Seq<Replies>,
    i: int,
) -> ProtocolResult<InstructionResult> {
    instruction_effect(
        services,
        after(services, l, sender, instructions, replies, i),
        sender,
        instructions[i],
        replies[i],
    ).0
}

/// The first `n` replies are to the first `n` instructions.
pub open spec fn all_replied<
    A: Fn(&Instruction, Address) -> AgentReply,
    S: Fn(&Instruction, Address, Stage) -> Reply,
>(
    agent: A,
    service: S,
    services: Services,
    l: Ledger,
    sender: Address,
    instructions: Seq<Instruction>,
    replies: Seq<Replies>,
    n: int,
) -> bool {
    forall|i: int|
        0 <= i < n ==> replied(
            agent,
            service,
            services,
            after(services, l, sender, instructions, replies, i),
            sender,
            instructions[i],
            #[trigger] replies[i],
        )
}

/// What a transaction comes to. All its instructions succeed, or it fails at the first that does
/// not: then everything is as it was.
pub open spec fn transaction_outcome(
    services: Services,
    l: Ledger,
    sender: Address,
    instructions: Seq<Instruction>,
    replies: Seq<Replies>,
    result: Result<Seq<InstructionResult>, InstructionFailure>,
    end: Ledger,
) -> bool {
    match result {
        Ok(results) => {
            &&& replies.len() == instructions.len()
            &&& results.len() == instructions.len()
            &&& forall|i: int|
                0 <= i < instructions.len() ==> step(
                    services,
                    l,
                    sender,
                    instructions,
                    replies,
                    i,
                ) == Ok::<InstructionResult, ProtocolError>(#[trigger] results[i])
            &&& end == after(
                services,
                l,
                sender,
                instructions,
                replies,
                instructions.len() as int,
            )
        },
        Err(failure) => {
            let at = failure.index as int;
            &&& at < instructions.len()
            &&& replies.len() == at + 1
            &&& forall|i: int|
                0 <= i < at ==> (#[trigger] step(
                    services,
                    l,
                    sender,
                    instructions,
                    replies,
                    i,
                )) is Ok
            &&& step(services, l, sender, instructions, replies, at) == Err::<
                InstructionResult,
                ProtocolError,
            >(failure.error)
            &&& end == l
        },
    }
}

proof fn lemma_after_prefix(
    services: Services,
    l: Ledger,
    sender: Address,
    instructions: Seq<Instruction>,
    replies: Seq<Replies>,
    more: Replies,
    n: int,
)
    requires
        0 <= n <= replies.len(),
    ensures
        after(services, l, sender, instructions, replies.push(more), n) == after(
            services,
            l,
            sender,
            instructions,
            replies,
            n,
        ),
    decreases n,
{
    if n > 0 {
        lemma_after_prefix(services, l, sender, instructions, replies, more, n - 1);
    }
}

/// The results by their sequence.
pub open spec fn result_seq(r: Result<Vec<InstructionResult>, InstructionFailure>) -> Result<
    Seq<InstructionResult>,
    InstructionFailure,
> {
    match r {
        Ok(v) => Ok(v@),
        Err(f) => Err(f),
    }
}

/// Executes the instructions of a transaction, all or none.
pub fn execute_protocol_instructions<
    A: Fn(&Instruction, Address) -> AgentReply,
    S: Fn(&Instruction, Address, Stage) -> Reply,
>(
    instructions: &[Instruction],
    account: &mut AccountState,
    registry: &mut AssetRegistry,
    compliance: &mut ComplianceEngine,
    sender: Address,
    services: Services,
    agent: &A,
    service: &S,
) -> (r: Result<Vec<InstructionResult>, InstructionFailure>)
    requires
        answerable(*agent, *service),
    ensures
        exists|replies: Seq<Replies>|
            {
                &&& #[trigger] all_replied(
                    *agent,
                    *service,
                    services,
                    ledger(*old(account), *old(registry), *old(compliance)),
                    sender,
                    instructions@,
                    replies,
                    replies.len() as int,
                )
                &&& transaction_outcome(
                    services,
                    ledger(*old(account), *old(registry), *old(compliance)),
                    sender,
                    instructions@,
                    replies,
                    result_seq(r),
                    ledger(*final(account), *final(registry), *final(compliance)),
                )
            },
        final(registry).same_index(*old(registry)),
{
    let balance_snapshot: AccountState = account.duplicate();
    let registry_snapshot: AssetRegistry = registry.duplicate();
    let compliance_snapshot: ComplianceEngine = compliance.duplicate();
    let ghost l = ledger(*account, *registry, *compliance);
    let ghost mut replies: Seq<Replies> = Seq::empty();
    let mut results: Vec<InstructionResult> = Vec::new();
    let mut i: usize = 0;
    while i < instructions.len()
        invariant
            i <= instructions@.len(),
            answerable(*agent, *service),
            l == ledger(*old(account), *old(registry), *old(compliance)),
            ledger(balance_snapshot, registry_snapshot, compliance_snapshot) == l,
            registry_snapshot.same_index(*old(registry)),
            registry.same_index(*old(registry)),
            replies.len() == i,
            results@.len() == i,
            all_replied(
                *agent,
                *service,
                services,
                l,
                sender,
                instructions@,
                replies,
                i as int,
            ),
            forall|j: int|
                0 <= j < i ==> step(services, l, sender, instructions@, replies, j) == Ok::<
                    InstructionResult,
                    ProtocolError,
                >(#[trigger] results@[j]),
            ledger(*account, *registry, *compliance) == after(
                services,
                l,
                sender,
                instructions@,
                replies,
                i as int,
            ),
        decreases instructions@.len() - i,
    {
        let ghost before = ledger(*account, *registry, *compliance);
        let ghost so_far = replies;
        let outcome = execute_instruction(
            &instructions[i],
            account,
            registry,
            compliance,
            sender,
            services,
            agent,
            service,
        );
        proof {
            let reply = choose|reply: Replies|
                {
                    &&& #[trigger] replied(
                        *agent,
                        *service,
                        services,
                        before,
                        sender,
                        instructions@[i as int],
                        reply,
                    )
                    &&& (outcome, ledger(*account, *registry, *compliance)) == instruction_effect(
                        services,
                        before,
                        sender,
                        instructions@[i as int],
                        reply,
                    )
                };
            replies = so_far.push(reply);
            assert forall|j: int| 0 <= j <= i implies after(
                services,
                l,
                sender,
                instructions@,
                replies,
                j,
            ) == #[trigger] after(services, l, sender, instructions@, so_far, j) by {
                lemma_after_prefix(services, l, sender, instructions@, so_far, reply, j);
            }
            assert forall|j: int| 0 <= j < i + 1 implies replied(
                *agent,
                *service,
                services,
                after(services, l, sender, instructions@, replies, j),
                sender,
                instructions@[j],
                #[trigger] replies[j],
            ) by {
                assert(after(services, l, sender, instructions@, so_far, j) == after(
                    services,
                    l,
                    sender,
                    instructions@,
                    replies,
                    j,
                ));
                if j < i {
                    assert(replies[j] == so_far[j]);
                }
            }
            assert forall|j: int| 0 <= j < i implies step(
                services,
                l,
                sender,
                instructions@,
                replies,
                j,
            ) == #[trigger] step(services, l, sender, instructions@, so_far, j) by {
                assert(after(services, l, sender, instructions@, so_far, j) == after(
                    services,
                    l,
                    sender,
                    instructions@,
                    replies,
                    j,
                ));
                assert(replies[j] == so_far[j]);
            }
            assert(after(services, l, sender, instructions@, so_far, i as int) == before);
            assert(replies[i as int] == reply);
            assert(after(services, l, sender, instructions@, replies, i + 1) == ledger(
                *account,
                *registry,
                *compliance,
            ));
            assert(step(services, l, sender, instructions@, replies, i as int) == outcome);
        }
        match outcome {
            Ok(result) => {
                let ghost earlier = results@;
                results.push(result);
                proof {
                    assert forall|j: int| 0 <= j < i + 1 implies step(
                        services,
                        l,
                        sender,
                        instructions@,
                        replies,
                        j,
                    ) == Ok::<InstructionResult, ProtocolError>(#[trigger] results@[j]) by {
                        if j < i {
                            assert(results@[j] == earlier[j]);
                            assert(step(services, l, sender, instructions@, so_far, j) == step(
                                services,
                                l,
                                sender,
                                instructions@,
                                replies,
                                j,
                            ));
                        }
                    }
                }
            },
            Err(error) => {
                proof {
                    assert forall|j: int| 0 <= j < i implies (#[trigger] step(
                        services,
                        l,
                        sender,
                        instructions@,
                        replies,
                        j,
                    )) is Ok by {
                        assert(step(services, l, sender, instructions@, so_far, j) == step(
                            services,
                            l,
                            sender,
                            instructions@,
                            replies,
                            j,
                        ));
                        assert(step(services, l, sender, instructions@, so_far, j) == Ok::<
                            InstructionResult,
                            ProtocolError,
                        >(results@[j]));
                    }
                }
                *account = balance_snapshot;
                *registry = registry_snapshot;
                *compliance = compliance_snapshot;
                let failure = InstructionFailure { index: i, error };
                proof {
                    assert(all_replied(
                        *agent,
                        *service,
                        services,
                        l,
                        sender,
                        instructions@,
                        replies,
                        replies.len() as int,
                    ));
                    assert(transaction_outcome(
                        services,
                        l,
                        sender,
                        instructions@,
                        replies,
                        Err(failure),
                        ledger(*account, *registry, *compliance),
                    ));
                }
                return Err(failure);
            },
        }
        i += 1;
    }
    proof {
        assert(transaction_outcome(
            services,
            l,
            sender,
            instructions@,
            replies,
            Ok(results@),
            ledger(*account, *registry, *compliance),
        ));
    }
    Ok(results)
}

/// A transaction that fails leaves balances, allowances, nonces, assets and standings as they were.
pub proof fn law_failed_transaction_is_taken_back(
    services: Services,
    l: Ledger,
    sender: Address,
    instructions: Seq<Instruction>,
    replies: Seq<Replies>,
    failure: InstructionFailure,
    end: Ledger,
)
    requires
        transaction_outcome(services, l, sender, instructions, replies, Err(failure), end),
    ensures
        end.balances == l.balances,
        end.allowances == l.allowances,
        end.nonces == l.nonces,
        end.assets == l.assets,
        end.statuses == l.statuses,
{
}

/// The accounts that a payment instruction moves balances between are among the given ones.
pub open spec fn pays_among(
    instruction: Instruction,
    sender: Address,
    accounts: Seq<Address>,
) -> bool {
    match instruction {
        Instruction::Transfer { to, .. } => accounts.contains(sender) && accounts.contains(to),
        Instruction::BatchTransfer { payments, .. } => {
            &&& accounts.contains(sender)
            &&& forall|i: int|
                0 <= i < payments@.len() ==> accounts.contains((#[trigger] payments@[i]).to)
        },
        Instruction::TransferFrom { from, to, .. } => accounts.contains(from)
            && accounts.contains(to),
        _ => false,
    }
}

proof fn lemma_payments_keep_total(
    l: Ledger,
    asset_id: u64,
    sender: Address,
    payments: Seq<PaymentEntry>,
    i: int,
    other: u64,
    accounts: Seq<Address>,
)
    requires
        0 <= i <= payments.len(),
        accounts.no_duplicates(),
        accounts.contains(sender),
        forall|k: int| 0 <= k < payments.len() ==> accounts.contains((#[trigger] payments[k]).to),
    ensures
        total_of(payments_effect(l, asset_id, sender, payments, i).1.balances, other, accounts)
            == total_of(l.balances, other, accounts),
    decreases payments.len() - i,
{
    if i < payments.len() {
        let p = payments[i];
        law_transfer_keeps_total_of_all(
            l.balances,
            asset_id,
            sender,
            p.to,
            p.amount,
            other,
            accounts,
        );
        let (r, next) = payment_effect(l, asset_id, sender, p);
        if r is Ok {
            lemma_payments_keep_total(next, asset_id, sender, payments, i + 1, other, accounts);
        }
    }
}

/// Payments keep what the accounts that take part hold together, of every asset, whether they
/// succeed or not.
pub proof fn law_payments_keep_total(
    services: Services,
    l: Ledger,
    sender: Address,
    instruction: Instruction,
    replies: Replies,
    other: u64,
    accounts: Seq<Address>,
)
    requires
        replies.agent is None,
        accounts.no_duplicates(),
        pays_among(instruction, sender, accounts),
    ensures
        total_of(
            instruction_effect(services, l, sender, instruction, replies).1.balances,
            other,
            accounts,
        ) == total_of(l.balances, other, accounts),
{
    match instruction {
        Instruction::Transfer { asset_id, to, amount, .. } => {
            law_transfer_keeps_total_of_all(
                l.balances,
                asset_id,
                sender,
                to,
                amount,
                other,
                accounts,
            );
        },
        Instruction::BatchTransfer { asset_id, payments } => {
            lemma_payments_keep_total(l, asset_id, sender, payments@, 0, other, accounts);
        },
        Instruction::TransferFrom { asset_id, from, to, amount } => {
            law_transfer_keeps_total_of_all(
                l.balances,
                asset_id,
                from,
                to,
                amount,
                other,
                accounts,
            );
        },
        _ => {},
    }
}

/// Minting raises what accounts hold together, and the supply on record, by exactly its amount;
/// burning lowers what they hold together by exactly its amount.
pub proof fn law_mint_and_burn_are_exact(
    services: Services,
    l: Ledger,
    sender: Address,
    asset_id: u64,
    account: Address,
    amount: u128,
    replies: Replies,
    accounts: Seq<Address>,
)
    requires
        replies.agent is None,
        accounts.no_duplicates(),
        accounts.contains(account),
    ensures
        ({
            let (r, after) = instruction_effect(
                services,
                l,
                sender,
                Instruction::Mint { asset_id, to: account, amount },
                replies,
            );
            r is Ok ==> {
                &&& total_of(after.balances, asset_id, accounts) == total_of(
                    l.balances,
                    asset_id,
                    accounts,
                ) + amount
                &&& after.assets[asset_id].protocol_supply == l.assets[asset_id].protocol_supply
                    + amount
            }
        }),
        ({
            let (r, after) = instruction_effect(
                services,
                l,
                sender,
                Instruction::Burn { asset_id, from: account, amount },
                replies,
            );
            r is Ok ==> total_of(after.balances, asset_id, accounts) == total_of(
                l.balances,
                asset_id,
                accounts,
            ) - amount
        }),
{
    let key = (asset_id, account);
    let held = amount_of(l.balances, key);
    if held + amount <= u128::MAX {
        lemma_total_insert(l.balances, key, (held + amount) as u128, asset_id, accounts);
    }
    if held >= amount {
        lemma_total_insert(l.balances, key, (held - amount) as u128, asset_id, accounts);
    }
}

/// An asset that is not active is neither transferred, approved, minted nor burned.
pub proof fn law_inactive_asset_is_untouched(
    services: Services,
    l: Ledger,
    sender: Address,
    instruction: Instruction,
    replies: Replies,
    asset_id: u64,
)
    requires
        replies.agent is None,
        active_check(l.assets, asset_id) is Err,
        match instruction {
            Instruction::Transfer { asset_id: a, .. } => a == asset_id,
            Instruction::BatchTransfer { asset_id: a, .. } => a == asset_id,
            Instruction::Approve { asset_id: a, .. } => a == asset_id,
            Instruction::TransferFrom { asset_id: a, .. } => a == asset_id,
            Instruction::Mint { asset_id: a, .. } => a == asset_id,
            Instruction::Burn { asset_id: a, .. } => a == asset_id,
            _ => false,
        },
    ensures
        ({
            let (r, after) = instruction_effect(services, l, sender, instruction, replies);
            r is Err && after == l
        }),
{
}

/// No one but the issuer of an asset mints it, burns it, or changes a standing under its policy.
pub proof fn law_only_issuer_mints_and_burns(
    services: Services,
    l: Ledger,
    sender: Address,
    instruction: Instruction,
    replies: Replies,
    asset_id: u64,
)
    requires
        replies.agent is None,
        l.assets.contains_key(asset_id) ==> l.assets[asset_id].issuer != sender,
        match instruction {
            Instruction::Mint { asset_id: a, .. } => a == asset_id,
            Instruction::Burn { asset_id: a, .. } => a == asset_id,
            Instruction::UpdateCompliance { asset_id: a, .. } => a == asset_id,
            _ => false,
        },
    ensures
        ({
            let (r, after) = instruction_effect(services, l, sender, instruction, replies);
            r is Err && after == l
        }),
{
}

/// Who is not clear under an asset's policy neither sends nor receives it.
pub proof fn law_compliance_is_enforced(
    services: Services,
    l: Ledger,
    sender: Address,
    asset_id: u64,
    to: Address,
    amount: u128,
    memo: Option<PaymentMemo>,
    replies: Replies,
)
    requires
        replies.agent is None,
        party_check(l, asset_id, sender) is Err || party_check(l, asset_id, to) is Err,
    ensures
        ({
            let (r, after) = instruction_effect(
                services,
                l,
                sender,
                Instruction::Transfer { asset_id, to, amount, memo },
                replies,
            );
            r is Err && after == l
        }),
{
}

} // verus!
