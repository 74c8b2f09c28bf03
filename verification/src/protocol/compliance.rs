//! Compliance policies and the standing of accounts under them.

use crate::protocol::errors::{ProtocolError, ProtocolResult};
use crate::vec_map::VecMap;
use crate::words::Address;
use vstd::prelude::*;

verus! {

/// How an asset restricts who may hold it.
#[derive(Clone, Copy, Debug, PartialEq, Eq, Structural)]
pub enum CompliancePolicy {
    /// Nobody is kept out.
    Unrestricted,
    /// Sanctioned accounts are kept out.
    OfacBlacklist,
    /// Accounts need a verified identity.
    KycRequired,
    /// Only listed accounts are let in.
    Whitelist,
    /// A handler decides.
    Custom,
}

/// The standing of an account.
#[derive(Clone, Copy, Debug, PartialEq, Eq, Structural)]
pub enum ComplianceStatus {
    Clear,
    UnderReview,
    Flagged,
    Restricted,
}

impl Default for ComplianceStatus {
    fn default() -> (r: Self)
        ensures
            r == ComplianceStatus::Clear,
    {
        ComplianceStatus::Clear
    }
}

/// A decision procedure for policies of one's own.
pub trait CustomComplianceHandler {
    fn check(&self, address: &Address) -> bool;
}

impl CompliancePolicy {
    /// The number of the policy.
    pub open spec fn id(self) -> u8 {
        match self {
            CompliancePolicy::Unrestricted => 0,
            CompliancePolicy::OfacBlacklist => 1,
            CompliancePolicy::KycRequired => 2,
            CompliancePolicy::Whitelist => 3,
            CompliancePolicy::Custom => 4,
        }
    }

    pub fn policy_id(&self) -> (r: u8)
        ensures
            r == self.id(),
    {
        match self {
            CompliancePolicy::Unrestricted => 0,
            CompliancePolicy::OfacBlacklist => 1,
            CompliancePolicy::KycRequired => 2,
            CompliancePolicy::Whitelist => 3,
            CompliancePolicy::Custom => 4,
        }
    }
}

/// The standing of an account under a policy.
pub open spec fn standing(
    m: Map<(Address, u64), ComplianceStatus>,
    address: Address,
    policy_id: u8,
) -> ComplianceStatus {
    if m.contains_key((address, policy_id as u64)) {
        m[(address, policy_id as u64)]
    } else {
        ComplianceStatus::Clear
    }
}

/// Whether an account may take part under a policy: policy 0 keeps nobody out, any other whoever is
/// not clear.
pub open spec fn compliance_check(
    m: Map<(Address, u64), ComplianceStatus>,
    address: Address,
    policy_id: u8,
) -> ProtocolResult<()> {
    if policy_id == 0 || standing(m, address, policy_id) == ComplianceStatus::Clear {
        Ok(())
    } else {
        Err(ProtocolError::Compliance("compliance check failed"))
    }
}

/// The standing of all accounts.
#[derive(Debug)]
pub struct ComplianceEngine {
    statuses: VecMap<(Address, u64), ComplianceStatus>,
}

impl View for ComplianceEngine {
    type V = Map<(Address, u64), ComplianceStatus>;

    closed spec fn view(&self) -> Map<(Address, u64), ComplianceStatus> {
        self.statuses@
    }
}

impl ComplianceEngine {
    pub fn new() -> (r: Self)
        ensures
            r@ == Map::<(Address, u64), ComplianceStatus>::empty(),
    {
        ComplianceEngine { statuses: VecMap::new() }
    }

    /// Whether an account may take part under the policy with this number.
    pub fn check_compliance_by_policy_id(&self, address: &Address, policy_id: u8) -> (r:
        ProtocolResult<()>)
        ensures
            r == compliance_check(self@, *address, policy_id),
    {
        if policy_id == 0 {
            return Ok(());
        }
        match self.statuses.get((*address, policy_id as u64)) {
            None => Ok(()),
            Some(status) => if *status == ComplianceStatus::Clear {
                Ok(())
            } else {
                Err(ProtocolError::Compliance("compliance check failed"))
            },
        }
    }

    /// Whether an account may take part under a policy.
    pub fn check_compliance(&self, address: &Address, policy: CompliancePolicy) -> (r:
        ProtocolResult<()>)
        ensures
            r == compliance_check(self@, *address, policy.id()),
    {
        self.check_compliance_by_policy_id(address, policy.policy_id())
    }

    /// Sets the standing of an account under a policy.
    pub fn set_address_compliance(
        &mut self,
        address: Address,
        policy_id: u8,
        status: ComplianceStatus,
    )
        ensures
            final(self)@ == old(self)@.insert((address, policy_id as u64), status),
    {
        self.statuses.insert((address, policy_id as u64), status);
    }

    /// An engine with the same standings.
    pub fn duplicate(&self) -> (r: Self)
        ensures
            r@ == self@,
    {
        ComplianceEngine { statuses: self.statuses.duplicate() }
    }
}

/// The standing that was set last decides, for that account and policy alone.
pub proof fn law_check_finds_standing(
    m: Map<(Address, u64), ComplianceStatus>,
    address: Address,
    policy_id: u8,
    status: ComplianceStatus,
    other: Address,
    other_policy: u8,
)
    ensures
        ({
            let n = m.insert((address, policy_id as u64), status);
            &&& compliance_check(n, address, policy_id) is Ok <==> policy_id == 0 || status
                == ComplianceStatus::Clear
            &&& (other, other_policy) != (address, policy_id) ==> compliance_check(
                n,
                other,
                other_policy,
            ) == compliance_check(m, other, other_policy)
        }),
{
    if (other, other_policy) != (address, policy_id) {
        assert((other, other_policy as u64) != (address, policy_id as u64));
    }
}

} // verus!
