//! The instructions of a transaction and what they carry.

use crate::protocol::compliance::ComplianceStatus;
use crate::protocol::errors::{ProtocolError, ProtocolResult};
use crate::protocol::governance::{ProposalType, Vote};
use crate::words::{Address, U256};
use vstd::prelude::*;
use vstd::utf8::encode_utf8;

verus! {

/// One step of a transaction.
#[allow(inconsistent_fields)]
#[derive(Debug)]
pub enum Instruction {
    Transfer { asset_id: u64, to: Address, amount: u128, memo: Option<PaymentMemo> },
    BatchTransfer { asset_id: u64, payments: Vec<PaymentEntry> },
    Approve { asset_id: u64, spender: Address, amount: u128 },
    TransferFrom { asset_id: u64, from: Address, to: Address, amount: u128 },
    Mint { asset_id: u64, to: Address, amount: u128 },
    Burn { asset_id: u64, from: Address, amount: u128 },
    AgentPay { payment: AgentPayment },
    AgentBatchPay { payments: Vec<AgentPayment> },
    AgentCall { agent_id: u64, target: Address, data: Vec<u8> },
    AgentBridgeDeposit {
        agent_id: u64,
        asset_id: u64,
        amount: u128,
        target_chain: u64,
        target_address: Vec<u8>,
    },
    BridgeDeposit {
        source_chain: u64,
        target_address: Address,
        amount: u128,
        asset_id: u64,
        proof: Vec<u8>,
    },
    /// Registers an asset and deploys its wrapped token.
    RegisterAsset { symbol: String, name: String, decimals: u8, max_supply: u128 },
    /// Moves a balance to the EVM layer.
    BridgeToEvm { asset_id: u64, to: Address, amount: u128 },
    /// Moves a balance back from the EVM layer.
    BridgeToProtocol { asset_id: u64, to: Address, amount: u128 },
    /// Mints wrapped tokens on the EVM layer, for the issuer.
    EvmIssuerMint { asset_id: u64, to: Address, amount: u128 },
    UpdateCompliance { asset_id: u64, target: Address, status: ComplianceStatus },
    ShieldedTransfer {
        asset_id: u64,
        proof: Vec<u8>,
        nullifiers: Vec<U256>,
        commitments: Vec<U256>,
        encrypted_notes: Vec<Vec<u8>>,
    },
    ShieldedWithdraw {
        asset_id: u64,
        target: Address,
        amount: u128,
        proof: Vec<u8>,
        nullifier: U256,
    },
    ShieldedDeposit { asset_id: u64, amount: u128, commitment: U256, encrypted_note: Vec<u8> },
    OracleSubmit {
        asset_id: u64,
        price: u128,
        block_number: u64,
        timestamp: u64,
        signature: Vec<u8>,
        sources: Vec<String>,
    },
    GovernanceSubmitProposal {
        proposal_type: ProposalType,
        title: String,
        description: String,
        execution_data: Vec<u8>,
    },
    GovernanceVote { proposal_id: u64, vote: Vote },
    GovernanceQueue { proposal_id: u64 },
    GovernanceExecute { proposal_id: u64 },
    GovernanceEmergencyPause { reason: String },
    GovernanceEmergencyResume,
    /// Claims a deposit made on another chain, with the signatures of validators.
    ExternalBridgeDeposit {
        source_tx_hash: [u8; 32],
        source_chain: u8,
        source_block_number: u64,
        external_sender: Vec<u8>,
        recipient: Address,
        asset_id: u64,
        amount: u128,
        validator_signatures: Vec<(u32, Vec<u8>)>,
    },
    /// Withdraws to an account on another chain.
    ExternalBridgeWithdraw {
        target_chain: u8,
        target_address: Vec<u8>,
        asset_id: u64,
        sender: Address,
        amount: u128,
    },
    /// Objects to a deposit that is still pending.
    ChallengeBridgeDeposit { source_tx_hash: [u8; 32], proof: Vec<u8> },
    /// Stakes to become a validator.
    ValidatorStake { ed25519_pubkey: [u8; 32], self_stake: u128 },
    /// Leaves the validators; the stake can be claimed later.
    ValidatorUnstake { validator_id: u32 },
    /// Claims the stake once the wait is over.
    ValidatorClaimUnbonded { validator_id: u32 },
    /// Registers an agent owned by the sender.
    RegisterAgent { pubkey: Vec<u8>, name: String, url: String },
    /// Gives an agent a balance, for its owner.
    GrantAgentBalance { agent_id: u64, asset_id: u64, amount: u128 },
    /// Takes an agent's balance away, for its owner.
    RevokeAgentBalance { agent_id: u64, asset_id: u64 },
    /// Signs for a rollback of the chain.
    SubmitRollbackSignature {
        validator_id: u32,
        target_height: u64,
        target_version_major: u16,
        target_version_minor: u16,
        target_version_patch: u16,
        nonce: u64,
        signature: Vec<u8>,
    },
}

/// The most bytes of a memo's message.
pub const MAX_MEMO_MESSAGE: usize = 256;

/// The most bytes of a memo's reference.
pub const MAX_MEMO_REFERENCE: usize = 128;

/// The most bytes of a memo's metadata.
pub const MAX_MEMO_METADATA: usize = 1024;

/// A note on a payment.
#[derive(Debug)]
pub struct PaymentMemo {
    pub message: String,
    pub reference: Option<String>,
    pub metadata: Option<Vec<u8>>,
}

impl PaymentMemo {
    /// Whether the parts of a memo are short enough.
    pub open spec fn check(self) -> ProtocolResult<()> {
        if encode_utf8(self.message@).len() > MAX_MEMO_MESSAGE {
            Err(ProtocolError::InvalidInstruction("memo message too long"))
        } else if self.reference matches Some(r) && encode_utf8(r@).len() > MAX_MEMO_REFERENCE {
            Err(ProtocolError::InvalidInstruction("memo reference too long"))
        } else if self.metadata matches Some(m) && m@.len() > MAX_MEMO_METADATA {
            Err(ProtocolError::InvalidInstruction("memo metadata too long"))
        } else {
            Ok(())
        }
    }

    pub fn validate(&self) -> (r: ProtocolResult<()>)
        ensures
            r == self.check(),
    {
        if self.message.as_str().as_bytes().len() > MAX_MEMO_MESSAGE {
            return Err(ProtocolError::InvalidInstruction("memo message too long"));
        }
        if let Some(r) = &self.reference {
            if r.as_str().as_bytes().len() > MAX_MEMO_REFERENCE {
                return Err(ProtocolError::InvalidInstruction("memo reference too long"));
            }
        }
        if let Some(m) = &self.metadata {
            if m.len() > MAX_MEMO_METADATA {
                return Err(ProtocolError::InvalidInstruction("memo metadata too long"));
            }
        }
        Ok(())
    }
}

/// Whether a memo, if there is one, is short enough.
pub open spec fn memo_check(memo: Option<PaymentMemo>) -> ProtocolResult<()> {
    match memo {
        Some(m) => m.check(),
        None => Ok(()),
    }
}

/// One payment of several.
#[derive(Debug)]
pub struct PaymentEntry {
    pub to: Address,
    pub amount: u128,
    pub memo: Option<PaymentMemo>,
}

/// A payment by an agent.
#[derive(Clone, Copy, Debug)]
pub struct AgentPayment {
    pub agent_id: u64,
    pub asset_id: u64,
    pub to: Address,
    pub amount: u128,
}

/// How an instruction ended.
#[derive(Debug)]
pub enum InstructionResult {
    Success,
    Reverted { reason: String },
}

} // verus!
