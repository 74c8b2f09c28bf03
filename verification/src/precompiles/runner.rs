//! Running calls against the whole set of precompiles: the protocol's own and the standard ones.

use crate::bytes::be_nat;
use crate::precompiles::agent::{agent_effect, AgentPrecompile};
use crate::precompiles::asset::{asset_effect, AssetPrecompile};
use crate::precompiles::bridge::{bridge_effect, BridgePrecompile};
use crate::precompiles::compliance::{compliance_effect, CompliancePrecompile};
use crate::precompiles::governance::{governance_effect, GovernancePrecompile};
use crate::precompiles::oracle::{oracle_effect, OraclePrecompile};
use crate::precompiles::shielded::{
    is_decision, is_function, shielded_effect, ProofRequest, ShieldedPrecompile,
};
use crate::precompiles::slots::{
    agent_address, asset_address, bridge_address, compliance_address, governance_address,
    oracle_address, shielded_address, switch_address, validator_address,
};
use crate::precompiles::storage::{
    outcome, Fault, Outcome, PrecompileError, PrecompileResult, StatefulPrecompile,
    StorageProvider, World,
};
use crate::precompiles::switch::{switch_effect, SwitchPrecompile};
use crate::precompiles::validator::{validator_effect, ValidatorPrecompile};
use crate::words::{Address, U256};
use vstd::prelude::*;

verus! {

/// The number of the hard fork that the chain runs on.
pub const CANCUN: u8 = 17;

/// The number of the last known hard fork.
pub const LAST_FORK: u8 = 20;

/// The addresses of the protocol's own precompiles.
pub open spec fn custom_addresses() -> Seq<Address> {
    seq![
        oracle_address(),
        bridge_address(),
        asset_address(),
        shielded_address(),
        governance_address(),
        validator_address(),
        compliance_address(),
        switch_address(),
        agent_address(),
    ]
}

/// Lists the addresses of the protocol's own precompiles.
pub fn all_precompiles() -> (r: Vec<Address>)
    ensures
        r@ == custom_addresses(),
{
    vec![
        oracle_address(),
        bridge_address(),
        asset_address(),
        shielded_address(),
        governance_address(),
        validator_address(),
        compliance_address(),
        switch_address(),
        agent_address(),
    ]
}

/// Whether an address is one of the protocol's own precompiles.
pub fn is_custom(address: Address) -> (r: bool)
    ensures
        r == custom_addresses().contains(address),
{
    let all = all_precompiles();
    let mut i: usize = 0;
    while i < all.len()
        invariant
            i <= all@.len(),
            all@ == custom_addresses(),
            forall|j: int| 0 <= j < i ==> all@[j] != address,
        decreases all@.len() - i,
    {
        if all[i] == address {
            proof {
                assert(custom_addresses()[i as int] == address);
            }
            return true;
        }
        i += 1;
    }
    false
}

/// The standard precompiles of a hard fork lie at 1, 2, 3 and so on, up to this address.
pub open spec fn last_standard(spec: u8) -> nat {
    if spec < 6 {
        4
    } else if spec < 9 {
        8
    } else if spec < 17 {
        9
    } else if spec == 17 {
        10
    } else {
        17
    }
}

/// Whether a hard fork has the signature check at address 256.
pub open spec fn has_signature_check(spec: u8) -> bool {
    spec >= 19
}

/// How many standard precompiles a hard fork has.
pub open spec fn standard_count(spec: u8) -> nat {
    last_standard(spec) + if has_signature_check(spec) {
        1nat
    } else {
        0nat
    }
}

/// Whether a hard fork has a standard precompile at the address with the given bytes.
pub open spec fn standard_at(spec: u8, address: Seq<u8>) -> bool {
    ||| 1 <= be_nat(address) <= last_standard(spec)
    ||| has_signature_check(spec) && be_nat(address) == 256
}

/// `revm_precompile::Precompiles::len` for the precompiles of a hard fork: how many there are.
#[verifier::external_body]
fn count_standard(spec: u8) -> (r: usize)
    requires
        spec <= LAST_FORK,
    ensures
        r as nat == standard_count(spec),
{
    let id = revm::primitives::hardfork::SpecId::try_from_u8(spec).unwrap();
    revm_precompile::Precompiles::new(revm_precompile::PrecompileSpecId::from_spec_id(id)).len()
}

/// `revm_precompile::Precompiles::contains` for the precompiles of a hard fork: whether the
/// address with these bytes is one of them.
#[verifier::external_body]
fn has_standard(spec: u8, address: &[u8]) -> (r: bool)
    requires
        spec <= LAST_FORK,
        address@.len() == 20,
    ensures
        r == standard_at(spec, address@),
{
    let id = revm::primitives::hardfork::SpecId::try_from_u8(spec).unwrap();
    let set = revm_precompile::Precompiles::new(
        revm_precompile::PrecompileSpecId::from_spec_id(id),
    );
    set.contains(&alloy_primitives::Address::from_slice(address))
}

/// What a standard precompile replies.
#[derive(Debug)]
pub enum StandardReply {
    Done { gas_used: u64, gas_refunded: i64, bytes: Vec<u8>, reverted: bool },
    OutOfGas,
    Failed(String),
    Fatal(String),
}

/// A reply as a mathematical value: gas used, gas refunded, output and whether it is reverted, or
/// which failure it is, with its text.
pub open spec fn reply_view(reply: StandardReply) -> Result<
    (u64, i64, Seq<u8>, bool),
    (u8, Seq<char>),
> {
    match reply {
        StandardReply::Done { gas_used, gas_refunded, bytes, reverted } => Ok(
            (gas_used, gas_refunded, bytes@, reverted),
        ),
        StandardReply::OutOfGas => Err((0, Seq::empty())),
        StandardReply::Failed(e) => Err((1, e@)),
        StandardReply::Fatal(e) => Err((2, e@)),
    }
}

/// Whether a standard precompile of a hard fork may give this reply to an input with this much gas.
pub uninterp spec fn standard_may_reply(
    spec: u8,
    address: Seq<u8>,
    input: Seq<u8>,
    gas_limit: u64,
    reply: Result<(u64, i64, Seq<u8>, bool), (u8, Seq<char>)>,
) -> bool;

/// `revm_precompile::Precompile::execute` of the precompile that a hard fork has at an address;
/// `None` exactly where it has none. The reply is one that the precompile may give to this input with
/// this much gas. It is not claimed to be the only one: which it is also depends on the crypto
/// provider that the process has installed.
#[verifier::external_body]
fn run_standard(spec: u8, address: &[u8], input: &[u8], gas_limit: u64) -> (r: Option<
    StandardReply,
>)
    requires
        spec <= LAST_FORK,
        address@.len() == 20,
    ensures
        r is Some <==> standard_at(spec, address@),
        r matches Some(reply) ==> standard_may_reply(
            spec,
            address@,
            input@,
            gas_limit,
            reply_view(reply),
        ),
{
    let id = revm::primitives::hardfork::SpecId::try_from_u8(spec).unwrap();
    revm_precompile::Precompiles::new(revm_precompile::PrecompileSpecId::from_spec_id(id))
        .get(&alloy_primitives::Address::from_slice(address))
        .map(|p| match p.execute(input, gas_limit) {
            Ok(o) => StandardReply::Done {
                gas_used: o.gas_used,
                gas_refunded: o.gas_refunded,
                bytes: o.bytes.to_vec(),
                reverted: o.reverted,
            },
            Err(revm_precompile::PrecompileError::OutOfGas) => StandardReply::OutOfGas,
            Err(revm_precompile::PrecompileError::Fatal(e)) => StandardReply::Fatal(e),
            Err(e) => StandardReply::Failed(e.to_string()),
        })
}

/// How a call ended.
#[derive(Clone, Copy, Debug, PartialEq, Eq, Structural)]
pub enum CallStatus {
    Return,
    Revert,
    OutOfGas,
    Error,
}

/// Why a call failed.
#[derive(Debug)]
pub enum CallError {
    Custom(PrecompileError),
    Standard(String),
}

/// Why a call failed, as a mathematical value.
pub enum ErrorModel {
    Custom(Fault),
    Standard(Seq<char>),
}

/// The error that a report holds, as a mathematical value.
pub open spec fn error_model(error: Option<CallError>) -> Option<ErrorModel> {
    match error {
        None => None,
        Some(CallError::Custom(e)) => Some(ErrorModel::Custom(e@)),
        Some(CallError::Standard(text)) => Some(ErrorModel::Standard(text@)),
    }
}

/// What the interpreter is told of a call. Where the call failed, no gas is counted.
#[derive(Debug)]
pub struct CallReport {
    pub status: CallStatus,
    pub gas_remaining: u64,
    pub gas_refunded: i64,
    pub output: Vec<u8>,
    pub error: Option<CallError>,
}

/// What stops the execution.
#[derive(Debug)]
pub enum Halt {
    /// A precompile reported more gas than the call had.
    GasUnderflow,
    /// The call could not be carried out.
    Custom(&'static str),
    /// A standard precompile could not carry out the call.
    Standard(String),
}

/// A report, as a mathematical value.
pub struct ReportModel {
    pub status: CallStatus,
    pub gas_remaining: u64,
    pub gas_refunded: i64,
    pub output: Seq<u8>,
    pub error: Option<ErrorModel>,
}

impl View for CallReport {
    type V = ReportModel;

    open spec fn view(&self) -> ReportModel {
        ReportModel {
            status: self.status,
            gas_remaining: self.gas_remaining,
            gas_refunded: self.gas_refunded,
            output: self.output@,
            error: error_model(self.error),
        }
    }
}

/// The report of a call that failed.
pub open spec fn failed_report(
    status: CallStatus,
    gas_limit: u64,
    error: Option<ErrorModel>,
) -> ReportModel {
    ReportModel { status, gas_remaining: gas_limit, gas_refunded: 0, output: Seq::empty(), error }
}

/// What a protocol precompile's result means for the interpreter.
pub open spec fn custom_report(o: Outcome, gas_limit: u64) -> Result<ReportModel, Halt> {
    match o {
        Outcome::Done { gas_used, gas_refunded, data, reverted } => if gas_used > gas_limit {
            Err(Halt::GasUnderflow)
        } else {
            Ok(
                ReportModel {
                    status: if reverted {
                        CallStatus::Revert
                    } else {
                        CallStatus::Return
                    },
                    gas_remaining: (gas_limit - gas_used) as u64,
                    gas_refunded,
                    output: data,
                    error: None,
                },
            )
        },
        Outcome::Failed(Fault::Fatal(e)) => Err(Halt::Custom(e)),
        Outcome::Failed(Fault::OutOfGas) => Ok(
            failed_report(CallStatus::OutOfGas, gas_limit, None),
        ),
        Outcome::Failed(e) => Ok(
            failed_report(CallStatus::Error, gas_limit, Some(ErrorModel::Custom(e))),
        ),
    }
}

/// What a standard precompile's reply means for the interpreter.
pub open spec fn standard_report(reply: StandardReply, gas_limit: u64) -> Result<
    ReportModel,
    Halt,
> {
    match reply {
        StandardReply::Done { gas_used, gas_refunded, bytes, reverted } => if gas_used
            > gas_limit {
            Err(Halt::GasUnderflow)
        } else {
            Ok(
                ReportModel {
                    status: if reverted {
                        CallStatus::Revert
                    } else {
                        CallStatus::Return
                    },
                    gas_remaining: (gas_limit - gas_used) as u64,
                    gas_refunded,
                    output: bytes@,
                    error: None,
                },
            )
        },
        StandardReply::Fatal(e) => Err(Halt::Standard(e)),
        StandardReply::OutOfGas => Ok(failed_report(CallStatus::OutOfGas, gas_limit, None)),
        StandardReply::Failed(e) => Ok(
            failed_report(CallStatus::Error, gas_limit, Some(ErrorModel::Standard(e@))),
        ),
    }
}

pub open spec fn report_model(r: Result<CallReport, Halt>) -> Result<ReportModel, Halt> {
    match r {
        Ok(report) => Ok(report@),
        Err(h) => Err(h),
    }
}

fn failure(status: CallStatus, gas_limit: u64, error: Option<CallError>) -> (r: CallReport)
    ensures
        r@ == failed_report(status, gas_limit, error_model(error)),
{
    CallReport { status, gas_remaining: gas_limit, gas_refunded: 0, output: Vec::new(), error }
}

/// Turns the result of a protocol precompile into a report.
pub fn settle_custom(result: PrecompileResult, gas_limit: u64) -> (r: Result<CallReport, Halt>)
    ensures
        report_model(r) == custom_report(outcome(result), gas_limit),
{
    match result {
        Ok(o) => if o.gas_used > gas_limit {
            Err(Halt::GasUnderflow)
        } else {
            Ok(
                CallReport {
                    status: if o.reverted {
                        CallStatus::Revert
                    } else {
                        CallStatus::Return
                    },
                    gas_remaining: gas_limit - o.gas_used,
                    gas_refunded: o.gas_refunded,
                    output: o.bytes,
                    error: None,
                },
            )
        },
        Err(PrecompileError::Fatal(e)) => Err(Halt::Custom(e)),
        Err(PrecompileError::OutOfGas) => Ok(failure(CallStatus::OutOfGas, gas_limit, None)),
        Err(e) => Ok(failure(CallStatus::Error, gas_limit, Some(CallError::Custom(e)))),
    }
}

/// Turns the reply of a standard precompile into a report.
pub fn settle_standard(reply: StandardReply, gas_limit: u64) -> (r: Result<CallReport, Halt>)
    ensures
        report_model(r) == standard_report(reply, gas_limit),
{
    match reply {
        StandardReply::Done { gas_used, gas_refunded, bytes, reverted } => if gas_used
            > gas_limit {
            Err(Halt::GasUnderflow)
        } else {
            Ok(
                CallReport {
                    status: if reverted {
                        CallStatus::Revert
                    } else {
                        CallStatus::Return
                    },
                    gas_remaining: gas_limit - gas_used,
                    gas_refunded,
                    output: bytes,
                    error: None,
                },
            )
        },
        StandardReply::Fatal(e) => Err(Halt::Standard(e)),
        StandardReply::OutOfGas => Ok(failure(CallStatus::OutOfGas, gas_limit, None)),
        StandardReply::Failed(e) => Ok(
            failure(CallStatus::Error, gas_limit, Some(CallError::Standard(e))),
        ),
    }
}

/// What a call of the protocol precompile at an address comes to; `None` where there is none.
pub open spec fn custom_effect<
    H: Fn(U256, U256) -> U256,
    V: Fn(ProofRequest) -> Result<bool, String>,
>(
    hash: H,
    verify: V,
    address: Address,
    w: World,
    calldata: Seq<u8>,
    sender: Address,
) -> Option<(Outcome, World)> {
    if address == oracle_address() {
        Some(oracle_effect(w, calldata, sender))
    } else if address == bridge_address() {
        Some(bridge_effect(w, calldata, sender))
    } else if address == asset_address() {
        Some(asset_effect(w, calldata, sender))
    } else if address == shielded_address() {
        Some(shielded_effect(w, hash, verify, calldata, sender))
    } else if address == governance_address() {
        Some(governance_effect(w, calldata, sender))
    } else if address == validator_address() {
        Some(validator_effect(w, calldata, sender))
    } else if address == compliance_address() {
        Some(compliance_effect(w, calldata, sender))
    } else if address == switch_address() {
        Some(switch_effect(w, calldata, sender))
    } else if address == agent_address() {
        Some(agent_effect(w, calldata, sender))
    } else {
        None
    }
}

/// A protocol precompile answers exactly at the addresses that are listed.
pub proof fn law_custom_addresses<
    H: Fn(U256, U256) -> U256,
    V: Fn(ProofRequest) -> Result<bool, String>,
>(hash: H, verify: V, address: Address, w: World, calldata: Seq<u8>, sender: Address)
    ensures
        custom_effect(hash, verify, address, w, calldata, sender) is Some
            <==> custom_addresses().contains(address),
{
    let all = custom_addresses();
    assert(all[0] == oracle_address() && all[1] == bridge_address() && all[2] == asset_address()
        && all[3] == shielded_address() && all[4] == governance_address() && all[5]
        == validator_address() && all[6] == compliance_address() && all[7] == switch_address()
        && all[8] == agent_address());
}

/// The precompiles of a hard fork together with the protocol's own.
pub struct CallPrecompiles<H, V> {
    spec: u8,
    shielded: ShieldedPrecompile<H, V>,
}

impl<H: Fn(U256, U256) -> U256, V: Fn(ProofRequest) -> Result<bool, String>> CallPrecompiles<
    H,
    V,
> {
    /// The number of the hard fork.
    pub closed spec fn fork(self) -> u8 {
        self.spec
    }

    pub closed spec fn node_hash(self) -> H {
        self.shielded.hash
    }

    pub closed spec fn proof_verifier(self) -> V {
        self.shielded.verify
    }

    /// Whether the hard fork is known and the parts handed in can be relied on.
    pub open spec fn valid(self) -> bool {
        &&& self.fork() <= LAST_FORK
        &&& is_function(self.node_hash())
        &&& is_decision(self.proof_verifier())
    }

    pub fn new(spec: u8, hash: H, verify: V) -> (r: Self)
        requires
            spec <= LAST_FORK,
            is_function(hash),
            is_decision(verify),
        ensures
            r.valid(),
            r.fork() == spec,
            r.node_hash() == hash,
            r.proof_verifier() == verify,
    {
        CallPrecompiles { spec, shielded: ShieldedPrecompile { hash, verify } }
    }

    /// Goes over to another hard fork; returns whether that changes anything.
    pub fn set_spec(&mut self, spec: u8) -> (r: bool)
        requires
            spec <= LAST_FORK,
            old(self).valid(),
        ensures
            r == (old(self).fork() != spec),
            final(self).valid(),
            final(self).fork() == spec,
            final(self).node_hash() == old(self).node_hash(),
            final(self).proof_verifier() == old(self).proof_verifier(),
    {
        if self.spec == spec {
            return false;
        }
        self.spec = spec;
        true
    }

    /// How many precompiles there are.
    pub fn len(&self) -> (r: usize)
        requires
            self.valid(),
        ensures
            r as nat == standard_count(self.fork()) + custom_addresses().len(),
    {
        count_standard(self.spec) + all_precompiles().len()
    }

    /// Whether there is a precompile at an address.
    pub fn contains(&self, address: &Address) -> (r: bool)
        requires
            self.valid(),
        ensures
            r == (standard_at(self.fork(), address.bytes()) || custom_addresses().contains(
                *address,
            )),
    {
        proof {
            crate::words::lemma_address_from_be_of_bytes(*address);
        }
        has_standard(self.spec, address.to_bytes().as_slice()) || is_custom(*address)
    }

    fn run_custom<P: StorageProvider>(
        &mut self,
        storage: &mut P,
        address: Address,
        calldata: &[u8],
        caller: Address,
    ) -> (r: Option<PrecompileResult>)
        requires
            old(self).valid(),
        ensures
            match custom_effect(
                old(self).node_hash(),
                old(self).proof_verifier(),
                address,
                old(storage).world(),
                calldata@,
                caller,
            ) {
                None => r is None && final(storage).world() == old(storage).world(),
                Some((o, w)) => r matches Some(result) && outcome(result) == o
                    && final(storage).world() == w,
            },
            *final(self) == *old(self),
    {
        if address == oracle_address() {
            Some(OraclePrecompile.call(storage, calldata, caller))
        } else if address == bridge_address() {
            Some(BridgePrecompile.call(storage, calldata, caller))
        } else if address == asset_address() {
            Some(AssetPrecompile.call(storage, calldata, caller))
        } else if address == shielded_address() {
            Some(self.shielded.call(storage, calldata, caller))
        } else if address == governance_address() {
            Some(GovernancePrecompile.call(storage, calldata, caller))
        } else if address == validator_address() {
            Some(ValidatorPrecompile.call(storage, calldata, caller))
        } else if address == compliance_address() {
            Some(CompliancePrecompile.call(storage, calldata, caller))
        } else if address == switch_address() {
            Some(SwitchPrecompile.call(storage, calldata, caller))
        } else if address == agent_address() {
            Some(AgentPrecompile.call(storage, calldata, caller))
        } else {
            None
        }
    }

    /// Runs a call of the precompile at an address: a protocol precompile if there is one, else a
    /// standard one; `None` where there is neither.
    pub fn run<P: StorageProvider>(
        &mut self,
        storage: &mut P,
        address: Address,
        calldata: &[u8],
        caller: Address,
        gas_limit: u64,
    ) -> (r: Result<Option<CallReport>, Halt>)
        requires
            old(self).valid(),
        ensures
            *final(self) == *old(self),
            match custom_effect(
                old(self).node_hash(),
                old(self).proof_verifier(),
                address,
                old(storage).world(),
                calldata@,
                caller,
            ) {
                Some((o, w)) => {
                    &&& final(storage).world() == w
                    &&& match r {
                        Ok(report) => report matches Some(report) && custom_report(o, gas_limit)
                            == Ok::<ReportModel, Halt>(report@),
                        Err(h) => custom_report(o, gas_limit) == Err::<ReportModel, Halt>(h),
                    }
                },
                None => {
                    &&& final(storage).world() == old(storage).world()
                    &&& (!standard_at(old(self).fork(), address.bytes()) ==> r == Ok::<Option<CallReport>, Halt>(None))
                    &&& match r {
                        Ok(None) => !standard_at(old(self).fork(), address.bytes()),
                        Ok(Some(report)) => exists|reply: StandardReply|
                            standard_may_reply(
                                old(self).fork(),
                                address.bytes(),
                                calldata@,
                                gas_limit,
                                reply_view(reply),
                            ) && #[trigger] standard_report(reply, gas_limit) == Ok::<
                                ReportModel,
                                Halt,
                            >(report@),
                        Err(h) => exists|reply: StandardReply|
                            standard_may_reply(
                                old(self).fork(),
                                address.bytes(),
                                calldata@,
                                gas_limit,
                                reply_view(reply),
                            ) && #[trigger] standard_report(reply, gas_limit) == Err::<
                                ReportModel,
                                Halt,
                            >(h),
                    }
                },
            },
    {
        match self.run_custom(storage, address, calldata, caller) {
            Some(result) => match settle_custom(result, gas_limit) {
                Ok(report) => Ok(Some(report)),
                Err(h) => Err(h),
            },
            None => {
                proof {
                    crate::words::lemma_address_from_be_of_bytes(address);
                }
                let bytes = address.to_bytes();
                match run_standard(self.spec, bytes.as_slice(), calldata, gas_limit) {
                    None => Ok(None),
                    Some(reply) => {
                        let ghost asked = reply;
                        match settle_standard(reply, gas_limit) {
                            Ok(report) => {
                                proof {
                                    assert(standard_report(asked, gas_limit) == Ok::<
                                        ReportModel,
                                        Halt,
                                    >(report@));
                                }
                                Ok(Some(report))
                            },
                            Err(h) => {
                                proof {
                                    assert(standard_report(asked, gas_limit) == Err::<
                                        ReportModel,
                                        Halt,
                                    >(h));
                                }
                                Err(h)
                            },
                        }
                    },
                }
            },
        }
    }
}

/// The precompiles of the hard fork that the chain runs on.
pub fn build_precompiles<
    H: Fn(U256, U256) -> U256,
    V: Fn(ProofRequest) -> Result<bool, String>,
>(hash: H, verify: V) -> (r: CallPrecompiles<H, V>)
    requires
        is_function(hash),
        is_decision(verify),
    ensures
        r.valid(),
        r.fork() == CANCUN,
        r.node_hash() == hash,
        r.proof_verifier() == verify,
{
    CallPrecompiles::new(CANCUN, hash, verify)
}

} // verus!
