//! Proposals, votes, the wait before execution, and the emergency pause.

pub mod laws;

use crate::protocol::account::amount_of;
use crate::protocol::economics::TOTAL_SUPPLY;
use crate::vec_map::{distinct_keys, lemma_prefix, map_of, VecMap};
use crate::words::Address;
use vstd::prelude::*;
use vstd::set::fold::is_fun_commutative;

verus! {

/// What a proposer deposits: ten thousand of the native asset.
pub const PROPOSAL_DEPOSIT: u128 = 10_000_000_000_000_000_000_000;

/// Blocks between the proposal and the first vote.
pub const REVIEW_PERIOD_BLOCKS: u64 = 691_200;

/// Blocks in which votes are cast.
pub const VOTING_PERIOD_BLOCKS: u64 = 2_419_200;

/// Blocks between the end of the vote and the execution.
pub const TIMELOCK_PERIOD_BLOCKS: u64 = 2_419_200;

/// Blocks after which a proposal that was not executed expires.
pub const EXECUTION_TIMEOUT_BLOCKS: u64 = 10_368_000;

/// The weight of an issuer in votes on compliance.
pub const ISSUER_WEIGHT: u128 = TOTAL_SUPPLY / 10;

/// What is proposed.
#[derive(Debug)]
pub enum ProposalType {
    ParameterChange { param_id: String, new_value: String },
    ProtocolUpgrade { activation_block: u64, changelog: String },
    TreasurySpend { recipient: Address, amount: u128, asset_id: u64 },
    ValidatorSlash { validator_id: u32, reason: String },
    ComplianceUpdate { asset_id: u64, new_policy: u8 },
    EmergencyPause { reason: String },
    FeeCurrencyAdd { asset_id: u64, name: String, oracle_price_key: String },
    FeeCurrencyRemove { asset_id: u64, grace_period_blocks: u64 },
    FeeCurrencyCap { new_cap_bps: u32 },
}

/// Proposals on which each validator has one vote.
pub open spec fn by_validators(kind: ProposalType) -> bool {
    kind is ParameterChange || kind is ProtocolUpgrade || kind is ValidatorSlash
        || kind is EmergencyPause
}

impl ProposalType {
    /// Whether each validator has one vote.
    pub fn is_validator_proposal(&self) -> (r: bool)
        ensures
            r == by_validators(*self),
    {
        matches!(
            self,
            ProposalType::ParameterChange { .. } | ProposalType::ProtocolUpgrade { .. }
            | ProposalType::ValidatorSlash { .. } | ProposalType::EmergencyPause { .. }
        )
    }

    /// Whether votes weigh as much as the voter holds.
    pub fn is_balance_weighted(&self) -> (r: bool)
        ensures
            r == (self is TreasurySpend),
    {
        matches!(self, ProposalType::TreasurySpend { .. })
    }

    /// Whether issuers and validators vote together.
    pub fn is_joint_voting(&self) -> (r: bool)
        ensures
            r == (self is ComplianceUpdate),
    {
        matches!(self, ProposalType::ComplianceUpdate { .. })
    }
}

/// Where a proposal stands.
#[derive(Clone, Copy, Debug, PartialEq, Eq, Structural)]
pub enum ProposalState {
    Pending,
    Active,
    Passed,
    Defeated,
    Queued,
    Executed,
    Expired,
}

/// How a vote is cast.
#[derive(Clone, Copy, Debug, PartialEq, Eq, Structural)]
pub enum Vote {
    Yes,
    No,
    Abstain,
}

/// A proposal and the votes on it.
#[derive(Debug)]
pub struct Proposal {
    pub id: u64,
    pub proposer: Address,
    pub proposal_type: ProposalType,
    pub title: String,
    pub description: String,
    pub voting_power_yes: u128,
    pub voting_power_no: u128,
    pub voting_power_abstain: u128,
    pub start_block: u64,
    pub end_block: u64,
    pub execution_block: Option<u64>,
    pub state: ProposalState,
    pub quorum_required: u128,
    pub execution_data: Vec<u8>,
    pub deposit: u128,
}

impl Proposal {
    /// All votes cast, or the largest amount where they do not fit.
    pub open spec fn votes_cast(self) -> int {
        let sum = self.voting_power_yes + self.voting_power_no + self.voting_power_abstain;
        if sum > u128::MAX {
            u128::MAX as int
        } else {
            sum
        }
    }

    /// Enough votes were cast, and more for it than against it.
    pub open spec fn carried(self) -> bool {
        self.votes_cast() >= self.quorum_required && self.voting_power_yes > self.voting_power_no
    }

    pub fn total_voted(&self) -> (r: u128)
        ensures
            r == self.votes_cast(),
    {
        match self.voting_power_yes.checked_add(self.voting_power_no) {
            None => u128::MAX,
            Some(sum) => match sum.checked_add(self.voting_power_abstain) {
                None => u128::MAX,
                Some(all) => all,
            },
        }
    }

    /// Whether enough votes were cast.
    pub fn has_quorum(&self) -> (r: bool)
        ensures
            r == (self.votes_cast() >= self.quorum_required),
    {
        self.total_voted() >= self.quorum_required
    }

    /// Whether more votes are for it than against it.
    pub fn is_majority_yes(&self) -> (r: bool)
        ensures
            r == (self.voting_power_yes > self.voting_power_no),
    {
        self.voting_power_yes > self.voting_power_no
    }
}

/// Voting power lent to another account.
#[derive(Clone, Copy, Debug)]
pub struct VoteDelegation {
    pub delegator: Address,
    pub delegate: Address,
    pub amount: u128,
    /// The last block at which it counts.
    pub expires_at: u64,
}

/// Whether the chain is paused, and who has signed for it.
#[derive(Debug)]
pub struct EmergencyPauseState {
    pub is_paused: bool,
    pub pause_reason: String,
    pub pause_signatures: VecMap<Address, bool>,
}

impl EmergencyPauseState {
    pub fn new() -> (r: Self)
        ensures
            !r.is_paused,
            r.pause_reason@ == Seq::<char>::empty(),
            r.pause_signatures@ == Map::<Address, bool>::empty(),
    {
        EmergencyPauseState {
            is_paused: false,
            pause_reason: String::new(),
            pause_signatures: VecMap::new(),
        }
    }
}

/// Why a request is refused.
#[derive(Clone, Copy, Debug)]
pub enum GovernanceError {
    ProposalNotFound,
    InsufficientDeposit,
    VotingNotStarted,
    VotingPeriodClosed,
    NoVotingPower,
    ProposalDefeated,
    ProposalNotQueued,
    TimelockNotElapsed,
    VotingPeriodNotEnded,
    ExecutionTimeoutNotReached,
    InsufficientBalanceForDelegation,
    NoDelegation,
    NoValidators,
    ValidatorNotFound,
    NotPaused,
    AlreadyVoted,
    ExecutionFailed(&'static str),
}

/// Whether the bytes are a JSON value.
pub uninterp spec fn json_valid(data: Seq<u8>) -> bool;

/// `serde_json::from_slice` to a `serde_json::Value`: whether the bytes parse. Claimed is only that
/// the answer depends on the bytes alone.
#[verifier::external_body]
fn parses_as_json(data: &[u8]) -> (r: bool)
    ensures
        r == json_valid(data@),
{
    serde_json::from_slice::<serde_json::Value>(data).is_ok()
}

/// All that governance knows.
pub struct Chamber {
    pub proposals: Map<u64, Proposal>,
    pub next_id: u64,
    pub validators: Map<u32, Address>,
    pub balances: Map<Address, u128>,
    pub issuers: Map<u64, Address>,
    pub delegations: Map<Address, VoteDelegation>,
    pub deposits: Map<Address, u128>,
    /// Who has voted on which proposal.
    pub voted: Set<(u64, Address)>,
    pub block: u64,
    pub paused: bool,
    pub reason: Seq<char>,
    pub signatures: Set<Address>,
}

/// The keys bound to `v`.
pub open spec fn keys_with<K>(m: Map<K, Address>, v: Address) -> Set<K> {
    Set::new(|k: K| m.contains_key(k) && m[k] == v)
}

/// What a delegation adds to `delegate`'s votes at a block.
pub open spec fn lent(d: VoteDelegation, delegate: Address, block: u64) -> int {
    if d.delegate == delegate && block <= d.expires_at {
        d.amount as int
    } else {
        0
    }
}

pub open spec fn add_lent(
    m: Map<Address, VoteDelegation>,
    delegate: Address,
    block: u64,
) -> spec_fn(int, Address) -> int {
    |sum: int, k: Address| sum + lent(m[k], delegate, block)
}

/// All that is lent to `delegate` at a block.
pub open spec fn delegated(
    m: Map<Address, VoteDelegation>,
    delegate: Address,
    block: u64,
) -> int {
    m.dom().fold(0, add_lent(m, delegate, block))
}

/// The weight of a voter on a kind of proposal. Validators have one vote each; on most of their
/// proposals holders vote too, by what they hold or were lent. Treasury spending is decided by
/// holders alone. On compliance each seat counts once and an issuer a tenth of the supply.
pub open spec fn voting_power(g: Chamber, voter: Address, kind: ProposalType) -> int {
    let stake = amount_of(g.balances, voter) + delegated(g.delegations, voter, g.block);
    let seats = keys_with(g.validators, voter).len() as int;
    if by_validators(kind) {
        let seat: int = if seats > 0 {
            1
        } else {
            0
        };
        if kind is EmergencyPause || stake < seat {
            seat
        } else {
            stake
        }
    } else if kind is TreasurySpend {
        stake
    } else if kind is ComplianceUpdate {
        if keys_with(g.issuers, voter) != Set::<u64>::empty() && seats < ISSUER_WEIGHT {
            ISSUER_WEIGHT as int
        } else {
            seats
        }
    } else {
        0
    }
}

/// `a / b`, rounded up, for two thirds of `n`.
pub open spec fn two_thirds(n: int) -> int {
    (2 * n + 2) / 3
}

/// The votes that a kind of proposal needs where there are `n` validators.
pub open spec fn quorum_for(kind: ProposalType, n: int) -> int {
    match kind {
        ProposalType::ProtocolUpgrade { .. } => if two_thirds(n) > TOTAL_SUPPLY / 5 {
            two_thirds(n)
        } else {
            TOTAL_SUPPLY as int / 5
        },
        ProposalType::TreasurySpend { .. } => TOTAL_SUPPLY as int / 5,
        ProposalType::ParameterChange { .. } => two_thirds(n),
        ProposalType::ValidatorSlash { .. } => two_thirds(n),
        ProposalType::EmergencyPause { .. } => two_thirds(n),
        _ => n / 2 + 1,
    }
}

/// A proposal is made: its deposit is taken, and the vote begins after the review.
pub open spec fn submit_effect(
    g: Chamber,
    proposer: Address,
    proposal_type: ProposalType,
    title: String,
    description: String,
    execution_data: Vec<u8>,
) -> (Result<u64, GovernanceError>, Chamber) {
    let balance = amount_of(g.balances, proposer);
    if balance < PROPOSAL_DEPOSIT {
        (Err(GovernanceError::InsufficientDeposit), g)
    } else {
        let start = (g.block + REVIEW_PERIOD_BLOCKS) as u64;
        (
            Ok(g.next_id),
            Chamber {
                balances: g.balances.insert(proposer, (balance - PROPOSAL_DEPOSIT) as u128),
                deposits: g.deposits.insert(proposer, PROPOSAL_DEPOSIT),
                next_id: (g.next_id + 1) as u64,
                proposals: g.proposals.insert(
                    g.next_id,
                    Proposal {
                        id: g.next_id,
                        proposer,
                        proposal_type,
                        title,
                        description,
                        voting_power_yes: 0,
                        voting_power_no: 0,
                        voting_power_abstain: 0,
                        start_block: start,
                        end_block: (start + VOTING_PERIOD_BLOCKS) as u64,
                        execution_block: None,
                        state: ProposalState::Pending,
                        quorum_required: quorum_for(
                            proposal_type,
                            g.validators.dom().len() as int,
                        ) as u128,
                        execution_data,
                        deposit: PROPOSAL_DEPOSIT,
                    },
                ),
                ..g
            },
        )
    }
}

/// The proposal with `power` more for one side.
pub open spec fn tallied(p: Proposal, vote: Vote, power: int) -> Proposal {
    match vote {
        Vote::Yes => Proposal { voting_power_yes: (p.voting_power_yes + power) as u128, ..p },
        Vote::No => Proposal { voting_power_no: (p.voting_power_no + power) as u128, ..p },
        Vote::Abstain => Proposal {
            voting_power_abstain: (p.voting_power_abstain + power) as u128,
            ..p
        },
    }
}

/// Whether one side can take `power` more.
pub open spec fn tally_fits(p: Proposal, vote: Vote, power: int) -> bool {
    match vote {
        Vote::Yes => p.voting_power_yes + power <= u128::MAX,
        Vote::No => p.voting_power_no + power <= u128::MAX,
        Vote::Abstain => p.voting_power_abstain + power <= u128::MAX,
    }
}

/// Whether votes on a proposal are taken.
pub open spec fn window_check(g: Chamber, proposal_id: u64) -> Result<(), GovernanceError> {
    if !g.proposals.contains_key(proposal_id) {
        Err(GovernanceError::ProposalNotFound)
    } else {
        let p = g.proposals[proposal_id];
        if g.block < p.start_block {
            Err(GovernanceError::VotingNotStarted)
        } else if g.block > p.end_block || (p.state != ProposalState::Pending && p.state
            != ProposalState::Active) {
            Err(GovernanceError::VotingPeriodClosed)
        } else {
            Ok(())
        }
    }
}

/// A vote is cast. The first vote makes the proposal active; a voter without power has voted
/// nonetheless.
pub open spec fn vote_effect(g: Chamber, proposal_id: u64, voter: Address, vote: Vote) -> (
    Result<(), GovernanceError>,
    Chamber,
) {
    match window_check(g, proposal_id) {
        Err(e) => (Err(e), g),
        Ok(_) => {
            let p = Proposal { state: ProposalState::Active, ..g.proposals[proposal_id] };
            let opened = Chamber { proposals: g.proposals.insert(proposal_id, p), ..g };
            if g.voted.contains((proposal_id, voter)) {
                (Err(GovernanceError::AlreadyVoted), opened)
            } else {
                let marked = Chamber { voted: g.voted.insert((proposal_id, voter)), ..opened };
                let power = voting_power(g, voter, p.proposal_type);
                if power == 0 {
                    (Err(GovernanceError::NoVotingPower), marked)
                } else {
                    (
                        Ok(()),
                        Chamber {
                            proposals: g.proposals.insert(proposal_id, tallied(p, vote, power)),
                            ..marked
                        },
                    )
                }
            }
        },
    }
}

/// Casting a vote stays in range.
pub open spec fn vote_fits(g: Chamber, proposal_id: u64, voter: Address, vote: Vote) -> bool {
    window_check(g, proposal_id) is Ok && !g.voted.contains((proposal_id, voter)) ==> {
        let p = g.proposals[proposal_id];
        let power = voting_power(g, voter, p.proposal_type);
        power <= u128::MAX && tally_fits(p, vote, power)
    }
}

/// The proposal in another state.
pub open spec fn moved(p: Proposal, state: ProposalState, execution_block: Option<u64>) -> Proposal {
    Proposal { state, execution_block, ..p }
}

/// Whether a proposal has come to its end.
pub open spec fn is_final(state: ProposalState) -> bool {
    state == ProposalState::Executed || state == ProposalState::Expired || state
        == ProposalState::Defeated
}

/// The votes are counted: a proposal that is carried waits for its execution, a pause without the
/// wait; one that is not is defeated, and its deposit is kept. One that was executed or has expired
/// is not queued again.
pub open spec fn queue_effect(g: Chamber, proposal_id: u64) -> (
    Result<(), GovernanceError>,
    Chamber,
) {
    if !g.proposals.contains_key(proposal_id) {
        (Err(GovernanceError::ProposalNotFound), g)
    } else {
        let p = g.proposals[proposal_id];
        if g.block <= p.end_block {
            (Err(GovernanceError::VotingPeriodNotEnded), g)
        } else if p.state == ProposalState::Executed || p.state == ProposalState::Expired {
            (Err(GovernanceError::ProposalNotQueued), g)
        } else if p.state == ProposalState::Passed || (p.state != ProposalState::Defeated
            && p.carried()) {
            let at = if p.state != ProposalState::Passed && p.proposal_type is EmergencyPause {
                g.block
            } else {
                (g.block + TIMELOCK_PERIOD_BLOCKS) as u64
            };
            (
                Ok(()),
                Chamber {
                    proposals: g.proposals.insert(
                        proposal_id,
                        moved(p, ProposalState::Queued, Some(at)),
                    ),
                    ..g
                },
            )
        } else {
            (
                Err(GovernanceError::ProposalDefeated),
                Chamber {
                    proposals: g.proposals.insert(
                        proposal_id,
                        moved(p, ProposalState::Defeated, p.execution_block),
                    ),
                    deposits: g.deposits.remove(p.proposer),
                    ..g
                },
            )
        }
    }
}

/// Whether a proposal can be carried out with its data: only a change of parameters reads them, and
/// it takes a JSON value or nothing.
pub open spec fn readable(p: Proposal) -> bool {
    p.proposal_type is ParameterChange && p.execution_data@.len() > 0 ==> json_valid(
        p.execution_data@,
    )
}

/// The block at which a proposal may be executed is in range.
pub open spec fn queue_fits(g: Chamber, proposal_id: u64) -> bool {
    g.proposals.contains_key(proposal_id) && g.block > g.proposals[proposal_id].end_block ==> {
        let p = g.proposals[proposal_id];
        p.state == ProposalState::Passed || (!is_final(p.state) && p.carried() && !(
        p.proposal_type is EmergencyPause)) ==> g.block + TIMELOCK_PERIOD_BLOCKS <= u64::MAX
    }
}

/// What an executed proposal changes here; `parsed` says whether its data could be read. The rest is
/// for the layers that watch governance.
pub open spec fn apply_effect(g: Chamber, p: Proposal, parsed: bool) -> (
    Result<(), GovernanceError>,
    Chamber,
) {
    match p.proposal_type {
        ProposalType::ParameterChange { .. } => if !parsed {
            (Err(GovernanceError::ExecutionFailed("invalid execution_data JSON")), g)
        } else {
            (Ok(()), g)
        },
        ProposalType::TreasurySpend { recipient, amount, .. } => {
            let current = amount_of(g.balances, p.proposer);
            if current >= amount {
                let paid = g.balances.insert(p.proposer, (current - amount) as u128);
                (
                    Ok(()),
                    Chamber {
                        balances: paid.insert(
                            recipient,
                            (amount_of(paid, recipient) + amount) as u128,
                        ),
                        ..g
                    },
                )
            } else {
                (Ok(()), g)
            }
        },
        ProposalType::ValidatorSlash { validator_id, .. } => if g.validators.contains_key(
            validator_id,
        ) {
            (
                Ok(()),
                Chamber {
                    validators: g.validators.remove(validator_id),
                    balances: g.balances.remove(g.validators[validator_id]),
                    ..g
                },
            )
        } else {
            (Ok(()), g)
        },
        ProposalType::EmergencyPause { reason } => (
            Ok(()),
            Chamber { paused: true, reason: reason@, ..g },
        ),
        _ => (Ok(()), g),
    }
}

/// Whether a proposal may be executed.
pub open spec fn execution_check(g: Chamber, proposal_id: u64) -> Result<(), GovernanceError> {
    if !g.proposals.contains_key(proposal_id) {
        Err(GovernanceError::ProposalNotFound)
    } else {
        let p = g.proposals[proposal_id];
        match p.execution_block {
            Some(at) => if p.state != ProposalState::Queued {
                Err(GovernanceError::ProposalNotQueued)
            } else if g.block < at {
                Err(GovernanceError::TimelockNotElapsed)
            } else {
                Ok(())
            },
            None => Err(GovernanceError::ProposalNotQueued),
        }
    }
}

/// The proposal counts as executed.
pub open spec fn marked_executed(g: Chamber, proposal_id: u64) -> Chamber {
    Chamber {
        proposals: g.proposals.insert(
            proposal_id,
            Proposal { state: ProposalState::Executed, ..g.proposals[proposal_id] },
        ),
        ..g
    }
}

/// The deposit goes back to the proposer.
pub open spec fn refunded(g: Chamber, proposer: Address) -> Chamber {
    if g.deposits.contains_key(proposer) {
        Chamber {
            deposits: g.deposits.remove(proposer),
            balances: g.balances.insert(
                proposer,
                (amount_of(g.balances, proposer) + g.deposits[proposer]) as u128,
            ),
            ..g
        }
    } else {
        g
    }
}

/// A proposal is executed after its wait, and its deposit returned.
pub open spec fn execute_effect(g: Chamber, proposal_id: u64, parsed: bool) -> (
    Result<(), GovernanceError>,
    Chamber,
) {
    match execution_check(g, proposal_id) {
        Err(e) => (Err(e), g),
        Ok(_) => {
            let p = g.proposals[proposal_id];
            let (r, applied) = apply_effect(marked_executed(g, proposal_id), p, parsed);
            match r {
                Err(e) => (Err(e), applied),
                Ok(_) => (Ok(()), refunded(applied, p.proposer)),
            }
        },
    }
}

/// Executing a proposal stays in range.
pub open spec fn execute_fits(g: Chamber, proposal_id: u64, parsed: bool) -> bool {
    execution_check(g, proposal_id) is Ok ==> {
        let p = g.proposals[proposal_id];
        let (r, applied) = apply_effect(marked_executed(g, proposal_id), p, parsed);
        &&& p.proposal_type matches ProposalType::TreasurySpend { recipient, amount, .. } ==> {
            let current = amount_of(g.balances, p.proposer);
            current >= amount ==> amount_of(
                g.balances.insert(p.proposer, (current - amount) as u128),
                recipient,
            ) + amount <= u128::MAX
        }
        &&& r is Ok && applied.deposits.contains_key(p.proposer) ==> amount_of(applied.balances, p.proposer)
            + applied.deposits[p.proposer] <= u128::MAX
    }
}

/// A proposal that waits too long expires, and its deposit is kept.
pub open spec fn expire_effect(g: Chamber, proposal_id: u64) -> (
    Result<(), GovernanceError>,
    Chamber,
) {
    if !g.proposals.contains_key(proposal_id) {
        (Err(GovernanceError::ProposalNotFound), g)
    } else {
        let p = g.proposals[proposal_id];
        match p.execution_block {
            Some(at) if p.state == ProposalState::Queued => if g.block < at
                + EXECUTION_TIMEOUT_BLOCKS {
                (Err(GovernanceError::ExecutionTimeoutNotReached), g)
            } else {
                (
                    Ok(()),
                    Chamber {
                        proposals: g.proposals.insert(
                            proposal_id,
                            Proposal { state: ProposalState::Expired, ..p },
                        ),
                        deposits: g.deposits.remove(p.proposer),
                        ..g
                    },
                )
            },
            _ => (Err(GovernanceError::ProposalNotQueued), g),
        }
    }
}

/// Whether an account is that of a validator.
pub open spec fn seated(validators: Map<u32, Address>, account: Address) -> bool {
    exists|id: u32| #[trigger] validators.contains_key(id) && validators[id] == account
}

/// Who has signed for a pause and is a validator.
pub open spec fn active_signers(
    signatures: Set<Address>,
    validators: Map<u32, Address>,
) -> Set<Address> {
    Set::new(|a: Address| signatures.contains(a) && seated(validators, a))
}

/// A validator signs for a pause, which begins once two thirds of the validators have signed.
pub open spec fn pause_effect(g: Chamber, validator_id: u32, reason: Seq<char>) -> (
    Result<bool, GovernanceError>,
    Chamber,
) {
    let n = g.validators.dom().len() as int;
    if n == 0 {
        (Err(GovernanceError::NoValidators), g)
    } else if !g.validators.contains_key(validator_id) {
        (Err(GovernanceError::ValidatorNotFound), g)
    } else {
        let signed = Chamber { signatures: g.signatures.insert(g.validators[validator_id]), ..g };
        if active_signers(signed.signatures, g.validators).len() >= two_thirds(n) {
            (Ok(true), Chamber { paused: true, reason, ..signed })
        } else {
            (Ok(false), signed)
        }
    }
}

/// Voting power is lent, in place of what was lent before.
pub open spec fn delegate_effect(g: Chamber, d: VoteDelegation) -> (
    Result<(), GovernanceError>,
    Chamber,
) {
    if amount_of(g.balances, d.delegator) < d.amount {
        (Err(GovernanceError::InsufficientBalanceForDelegation), g)
    } else {
        (Ok(()), Chamber { delegations: g.delegations.insert(d.delegator, d), ..g })
    }
}

/// Lent voting power is taken back.
pub open spec fn undelegate_effect(g: Chamber, delegator: Address) -> (
    Result<(), GovernanceError>,
    Chamber,
) {
    if g.delegations.contains_key(delegator) {
        (Ok(()), Chamber { delegations: g.delegations.remove(delegator), ..g })
    } else {
        (Err(GovernanceError::NoDelegation), g)
    }
}

/// A pause ends.
pub open spec fn resume_effect(g: Chamber) -> (Result<(), GovernanceError>, Chamber) {
    if !g.paused {
        (Err(GovernanceError::NotPaused), g)
    } else {
        (
            Ok(()),
            Chamber { paused: false, reason: Seq::empty(), signatures: Set::empty(), ..g },
        )
    }
}

fn count_keys(m: &VecMap<u32, Address>, v: Address) -> (r: usize)
    ensures
        keys_with(m@, v).finite(),
        r == keys_with(m@, v).len(),
{
    let entries: &Vec<(u32, Address)> = m.entries();
    let mut count: usize = 0;
    let mut i: usize = 0;
    proof {
        assert(keys_with(map_of(entries@.subrange(0, 0)), v) =~= Set::<u32>::empty());
    }
    while i < entries.len()
        invariant
            i <= entries@.len(),
            count <= i,
            distinct_keys(entries@),
            keys_with(map_of(entries@.subrange(0, i as int)), v).finite(),
            count == keys_with(map_of(entries@.subrange(0, i as int)), v).len(),
        decreases entries@.len() - i,
    {
        proof {
            lemma_prefix(entries@, i as int);
            let before = keys_with(map_of(entries@.subrange(0, i as int)), v);
            let after = keys_with(map_of(entries@.subrange(0, i + 1)), v);
            if entries@[i as int].1 == v {
                assert(after =~= before.insert(entries@[i as int].0));
            } else {
                assert(after =~= before);
            }
        }
        if entries[i].1 == v {
            count += 1;
        }
        i += 1;
    }
    proof {
        assert(entries@.subrange(0, entries@.len() as int) =~= entries@);
    }
    count
}

fn count_signers(signatures: &VecMap<Address, bool>, validators: &VecMap<u32, Address>) -> (r: usize)
    ensures
        r == active_signers(signatures@.dom(), validators@).len(),
{
    let entries: &Vec<(Address, bool)> = signatures.entries();
    let mut count: usize = 0;
    let mut i: usize = 0;
    proof {
        assert(active_signers(map_of(entries@.subrange(0, 0)).dom(), validators@) =~= Set::<
            Address,
        >::empty());
    }
    while i < entries.len()
        invariant
            i <= entries@.len(),
            count <= i,
            distinct_keys(entries@),
            active_signers(map_of(entries@.subrange(0, i as int)).dom(), validators@).finite(),
            count == active_signers(
                map_of(entries@.subrange(0, i as int)).dom(),
                validators@,
            ).len(),
        decreases entries@.len() - i,
    {
        let seats: usize = count_keys(validators, entries[i].0);
        proof {
            lemma_prefix(entries@, i as int);
            let a = entries@[i as int].0;
            lemma_seats(validators@, a);
            let before = active_signers(map_of(entries@.subrange(0, i as int)).dom(), validators@);
            let after = active_signers(map_of(entries@.subrange(0, i + 1)).dom(), validators@);
            if seated(validators@, a) {
                assert(after =~= before.insert(a));
            } else {
                assert(after =~= before);
            }
        }
        if seats > 0 {
            count += 1;
        }
        i += 1;
    }
    proof {
        assert(entries@.subrange(0, entries@.len() as int) =~= entries@);
    }
    count
}

proof fn lemma_seats(validators: Map<u32, Address>, account: Address)
    requires
        keys_with(validators, account).finite(),
    ensures
        seated(validators, account) == (keys_with(validators, account).len() > 0),
{
    let seats = keys_with(validators, account);
    if seated(validators, account) {
        let id = choose|id: u32| #[trigger]
            validators.contains_key(id) && validators[id] == account;
        assert(seats.contains(id));
        if seats.len() == 0 {
            assert(seats =~= Set::<u32>::empty());
        }
    } else {
        assert(seats =~= Set::<u32>::empty());
    }
}

fn issues_any(m: &VecMap<u64, Address>, v: Address) -> (r: bool)
    ensures
        r == (keys_with(m@, v) != Set::<u64>::empty()),
{
    let entries: &Vec<(u64, Address)> = m.entries();
    let mut i: usize = 0;
    proof {
        assert(keys_with(map_of(entries@.subrange(0, 0)), v) =~= Set::<u64>::empty());
    }
    while i < entries.len()
        invariant
            i <= entries@.len(),
            distinct_keys(entries@),
            map_of(entries@) == m@,
            keys_with(map_of(entries@.subrange(0, i as int)), v) == Set::<u64>::empty(),
        decreases entries@.len() - i,
    {
        proof {
            lemma_prefix(entries@, i as int);
        }
        if entries[i].1 == v {
            proof {
                assert(keys_with(m@, v).contains(entries@[i as int].0));
            }
            return true;
        }
        proof {
            assert(keys_with(map_of(entries@.subrange(0, i + 1)), v) =~= keys_with(
                map_of(entries@.subrange(0, i as int)),
                v,
            ));
        }
        i += 1;
    }
    proof {
        assert(entries@.subrange(0, entries@.len() as int) =~= entries@);
    }
    false
}

pub(crate) proof fn lemma_fold_lent(
    m: Map<Address, VoteDelegation>,
    delegate: Address,
    block: u64,
    s: Set<Address>,
    k: Address,
)
    requires
        s.finite(),
        !s.contains(k),
    ensures
        s.insert(k).fold(0, add_lent(m, delegate, block)) == s.fold(
            0,
            add_lent(m, delegate, block),
        ) + lent(m[k], delegate, block),
{
    let f = add_lent(m, delegate, block);
    assert(is_fun_commutative(f));
    vstd::set::fold::lemma_fold_insert(s, 0, f, k);
}

proof fn lemma_lent_prefix(
    entries: Seq<(Address, VoteDelegation)>,
    delegate: Address,
    block: u64,
    i: int,
)
    requires
        distinct_keys(entries),
        0 <= i <= entries.len(),
    ensures
        ({
            let m = map_of(entries);
            let part = map_of(entries.subrange(0, i)).dom();
            &&& part.finite()
            &&& 0 <= part.fold(0, add_lent(m, delegate, block)) <= delegated(m, delegate, block)
        }),
    decreases entries.len() - i,
{
    let m = map_of(entries);
    let f = add_lent(m, delegate, block);
    lemma_lent_sum(entries, delegate, block, i);
    if i == entries.len() {
        assert(entries.subrange(0, i) =~= entries);
    } else {
        lemma_lent_prefix(entries, delegate, block, i + 1);
        lemma_lent_sum(entries, delegate, block, i + 1);
        lemma_prefix(entries, i);
        let part = map_of(entries.subrange(0, i)).dom();
        assert(map_of(entries.subrange(0, i + 1)).dom() =~= part.insert(entries[i].0));
        lemma_fold_lent(m, delegate, block, part, entries[i].0);
    }
}

proof fn lemma_lent_sum(
    entries: Seq<(Address, VoteDelegation)>,
    delegate: Address,
    block: u64,
    i: int,
)
    requires
        distinct_keys(entries),
        0 <= i <= entries.len(),
    ensures
        ({
            let part = map_of(entries.subrange(0, i)).dom();
            part.finite() && part.fold(0, add_lent(map_of(entries), delegate, block)) >= 0
        }),
    decreases i,
{
    let m = map_of(entries);
    if i == 0 {
        assert(map_of(entries.subrange(0, 0)).dom() =~= Set::<Address>::empty());
        vstd::set::fold::lemma_fold_empty::<Address, int>(0, add_lent(m, delegate, block));
    } else {
        lemma_lent_sum(entries, delegate, block, i - 1);
        lemma_prefix(entries, i - 1);
        let part = map_of(entries.subrange(0, i - 1)).dom();
        assert(map_of(entries.subrange(0, i)).dom() =~= part.insert(entries[i - 1].0));
        lemma_fold_lent(m, delegate, block, part, entries[i - 1].0);
    }
}

/// Proposals and all that is needed to decide on them.
#[derive(Debug)]
pub struct GovernanceManager {
    pub proposals: VecMap<u64, Proposal>,
    pub next_proposal_id: u64,
    pub validator_addresses: VecMap<u32, Address>,
    /// What accounts hold of the native asset.
    pub call_balances: VecMap<Address, u128>,
    pub asset_issuers: VecMap<u64, Address>,
    pub delegations: VecMap<Address, VoteDelegation>,
    pub deposits: VecMap<Address, u128>,
    /// Who has voted on which proposal.
    pub voted_addresses: VecMap<(u64, Address), bool>,
    pub current_block: u64,
    pub emergency_pause: EmergencyPauseState,
}

impl Default for GovernanceManager {
    fn default() -> (r: Self)
        ensures
            r.chamber() == empty_chamber(),
    {
        GovernanceManager::new()
    }
}

/// Nothing is known yet.
pub open spec fn empty_chamber() -> Chamber {
    Chamber {
        proposals: Map::empty(),
        next_id: 0,
        validators: Map::empty(),
        balances: Map::empty(),
        issuers: Map::empty(),
        delegations: Map::empty(),
        deposits: Map::empty(),
        voted: Set::empty(),
        block: 0,
        paused: false,
        reason: Seq::empty(),
        signatures: Set::empty(),
    }
}

impl GovernanceManager {
    pub open spec fn chamber(self) -> Chamber {
        Chamber {
            proposals: self.proposals@,
            next_id: self.next_proposal_id,
            validators: self.validator_addresses@,
            balances: self.call_balances@,
            issuers: self.asset_issuers@,
            delegations: self.delegations@,
            deposits: self.deposits@,
            voted: self.voted_addresses@.dom(),
            block: self.current_block,
            paused: self.emergency_pause.is_paused,
            reason: self.emergency_pause.pause_reason@,
            signatures: self.emergency_pause.pause_signatures@.dom(),
        }
    }

    pub fn new() -> (r: Self)
        ensures
            r.chamber() == empty_chamber(),
    {
        let r = GovernanceManager {
            proposals: VecMap::new(),
            next_proposal_id: 0,
            validator_addresses: VecMap::new(),
            call_balances: VecMap::new(),
            asset_issuers: VecMap::new(),
            delegations: VecMap::new(),
            deposits: VecMap::new(),
            voted_addresses: VecMap::new(),
            current_block: 0,
            emergency_pause: EmergencyPauseState::new(),
        };
        proof {
            assert(r.chamber().voted =~= Set::<(u64, Address)>::empty());
            assert(r.chamber().signatures =~= Set::<Address>::empty());
        }
        r
    }

    pub fn set_current_block(&mut self, block: u64)
        ensures
            final(self).chamber() == (Chamber { block, ..old(self).chamber() }),
    {
        self.current_block = block;
    }

    pub fn register_validator(&mut self, validator_id: u32, address: Address)
        ensures
            final(self).chamber() == (Chamber {
                validators: old(self).chamber().validators.insert(validator_id, address),
                ..old(self).chamber()
            }),
    {
        self.validator_addresses.insert(validator_id, address);
    }

    pub fn set_call_balance(&mut self, address: Address, balance: u128)
        ensures
            final(self).chamber() == (Chamber {
                balances: old(self).chamber().balances.insert(address, balance),
                ..old(self).chamber()
            }),
    {
        self.call_balances.insert(address, balance);
    }

    pub fn register_asset_issuer(&mut self, asset_id: u64, issuer: Address)
        ensures
            final(self).chamber() == (Chamber {
                issuers: old(self).chamber().issuers.insert(asset_id, issuer),
                ..old(self).chamber()
            }),
    {
        self.asset_issuers.insert(asset_id, issuer);
    }

    fn balance_of(&self, account: Address) -> (r: u128)
        ensures
            r == amount_of(self.call_balances@, account),
    {
        match self.call_balances.get(account) {
            Some(v) => *v,
            None => 0,
        }
    }

    /// Makes a proposal. Its deposit is taken from what the proposer holds.
    pub fn submit_proposal(
        &mut self,
        proposer: Address,
        proposal_type: ProposalType,
        title: String,
        description: String,
        execution_data: Vec<u8>,
    ) -> (r: Result<u64, GovernanceError>)
        requires
            amount_of(old(self).chamber().balances, proposer) >= PROPOSAL_DEPOSIT ==> {
                &&& old(self).chamber().next_id < u64::MAX
                &&& old(self).chamber().block + REVIEW_PERIOD_BLOCKS + VOTING_PERIOD_BLOCKS
                    <= u64::MAX
            },
        ensures
            (r, final(self).chamber()) == submit_effect(
                old(self).chamber(),
                proposer,
                proposal_type,
                title,
                description,
                execution_data,
            ),
    {
        let balance: u128 = self.balance_of(proposer);
        if balance < PROPOSAL_DEPOSIT {
            return Err(GovernanceError::InsufficientDeposit);
        }
        self.call_balances.insert(proposer, balance - PROPOSAL_DEPOSIT);
        self.deposits.insert(proposer, PROPOSAL_DEPOSIT);
        let id: u64 = self.next_proposal_id;
        self.next_proposal_id = id + 1;
        let (quorum_required, start_block, end_block) = self.calculate_quorum_and_windows(
            &proposal_type,
        );
        let proposal = Proposal {
            id,
            proposer,
            proposal_type,
            title,
            description,
            voting_power_yes: 0,
            voting_power_no: 0,
            voting_power_abstain: 0,
            start_block,
            end_block,
            execution_block: None,
            state: ProposalState::Pending,
            quorum_required,
            execution_data,
            deposit: PROPOSAL_DEPOSIT,
        };
        self.proposals.insert(id, proposal);
        Ok(id)
    }

    /// The votes that a proposal needs, and when they are cast.
    fn calculate_quorum_and_windows(&self, proposal_type: &ProposalType) -> (r: (u128, u64, u64))
        requires
            self.current_block + REVIEW_PERIOD_BLOCKS + VOTING_PERIOD_BLOCKS <= u64::MAX,
        ensures
            r.0 == quorum_for(*proposal_type, self.validator_addresses@.dom().len() as int),
            r.1 == self.current_block + REVIEW_PERIOD_BLOCKS,
            r.2 == r.1 + VOTING_PERIOD_BLOCKS,
    {
        let total: u128 = self.validator_addresses.len() as u128;
        let start: u64 = self.current_block + REVIEW_PERIOD_BLOCKS;
        let end: u64 = start + VOTING_PERIOD_BLOCKS;
        let most: u128 = (2 * total + 2) / 3;
        let quorum: u128 = match proposal_type {
            ProposalType::ParameterChange { .. } => most,
            ProposalType::ProtocolUpgrade { .. } => if most > TOTAL_SUPPLY / 5 {
                most
            } else {
                TOTAL_SUPPLY / 5
            },
            ProposalType::TreasurySpend { .. } => TOTAL_SUPPLY / 5,
            ProposalType::ValidatorSlash { .. } => most,
            ProposalType::ComplianceUpdate { .. } => total / 2 + 1,
            ProposalType::EmergencyPause { .. } => most,
            ProposalType::FeeCurrencyAdd { .. } => total / 2 + 1,
            ProposalType::FeeCurrencyRemove { .. } => total / 2 + 1,
            ProposalType::FeeCurrencyCap { .. } => total / 2 + 1,
        };
        (quorum, start, end)
    }

    /// The weight of a voter.
    fn calculate_voting_power(&self, voter: Address, proposal_type: &ProposalType) -> (r: u128)
        requires
            voting_power(self.chamber(), voter, *proposal_type) <= u128::MAX,
        ensures
            r == voting_power(self.chamber(), voter, *proposal_type),
    {
        if proposal_type.is_validator_proposal() {
            let seat: u128 = if count_keys(&self.validator_addresses, voter) > 0 {
                1
            } else {
                0
            };
            if matches!(proposal_type, ProposalType::EmergencyPause { .. }) {
                return seat;
            }
            let stake: u128 = self.balance_of(voter) + self.get_delegated_voting_power(voter);
            return if stake < seat {
                seat
            } else {
                stake
            };
        }
        if proposal_type.is_balance_weighted() {
            return self.balance_of(voter) + self.get_delegated_voting_power(voter);
        }
        if proposal_type.is_joint_voting() {
            let seats: u128 = count_keys(&self.validator_addresses, voter) as u128;
            if issues_any(&self.asset_issuers, voter) && seats < ISSUER_WEIGHT {
                return ISSUER_WEIGHT;
            }
            return seats;
        }
        0
    }

    fn replace_proposal(&mut self, proposal_id: u64, state: ProposalState, execution_block: Option<
        u64,
    >)
        requires
            old(self).proposals@.contains_key(proposal_id),
        ensures
            *final(self) == (GovernanceManager { proposals: final(self).proposals, ..*old(self) }),
            final(self).proposals@ == old(self).proposals@.insert(
                proposal_id,
                moved(old(self).proposals@[proposal_id], state, execution_block),
            ),
    {
        if let Some(p) = self.proposals.remove(proposal_id) {
            let changed = Proposal { state, execution_block, ..p };
            self.proposals.insert(proposal_id, changed);
            proof {
                assert(self.proposals@ =~= old(self).proposals@.insert(proposal_id, changed));
            }
        }
    }

    fn add_votes(&mut self, proposal_id: u64, vote: Vote, power: u128)
        requires
            old(self).proposals@.contains_key(proposal_id),
            tally_fits(old(self).proposals@[proposal_id], vote, power as int),
        ensures
            *final(self) == (GovernanceManager { proposals: final(self).proposals, ..*old(self) }),
            final(self).proposals@ == old(self).proposals@.insert(
                proposal_id,
                tallied(old(self).proposals@[proposal_id], vote, power as int),
            ),
    {
        if let Some(mut p) = self.proposals.remove(proposal_id) {
            match vote {
                Vote::Yes => {
                    p.voting_power_yes = p.voting_power_yes + power;
                },
                Vote::No => {
                    p.voting_power_no = p.voting_power_no + power;
                },
                Vote::Abstain => {
                    p.voting_power_abstain = p.voting_power_abstain + power;
                },
            }
            self.proposals.insert(proposal_id, p);
            proof {
                assert(self.proposals@ =~= old(self).proposals@.insert(proposal_id, p));
            }
        }
    }

    /// Casts a vote.
    pub fn vote(&mut self, proposal_id: u64, voter: Address, vote: Vote) -> (r: Result<
        (),
        GovernanceError,
    >)
        requires
            vote_fits(old(self).chamber(), proposal_id, voter, vote),
        ensures
            (r, final(self).chamber()) == vote_effect(
                old(self).chamber(),
                proposal_id,
                voter,
                vote,
            ),
    {
        let (execution_block, power) = match self.proposals.get(proposal_id) {
            None => {
                return Err(GovernanceError::ProposalNotFound);
            },
            Some(p) => {
                if self.current_block < p.start_block {
                    return Err(GovernanceError::VotingNotStarted);
                }
                if self.current_block > p.end_block {
                    return Err(GovernanceError::VotingPeriodClosed);
                }
                if p.state != ProposalState::Pending && p.state != ProposalState::Active {
                    return Err(GovernanceError::VotingPeriodClosed);
                }
                if self.voted_addresses.contains_key((proposal_id, voter)) {
                    (p.execution_block, None)
                } else {
                    (
                        p.execution_block,
                        Some(self.calculate_voting_power(voter, &p.proposal_type)),
                    )
                }
            },
        };
        self.replace_proposal(proposal_id, ProposalState::Active, execution_block);
        match power {
            None => Err(GovernanceError::AlreadyVoted),
            Some(power) => {
                self.voted_addresses.insert((proposal_id, voter), true);
                proof {
                    assert(self.voted_addresses@.dom() =~= old(
                        self,
                    ).voted_addresses@.dom().insert((proposal_id, voter)));
                }
                if power == 0 {
                    return Err(GovernanceError::NoVotingPower);
                }
                let ghost opened = self.proposals@;
                self.add_votes(proposal_id, vote, power);
                proof {
                    let p = opened[proposal_id];
                    assert(self.proposals@ =~= old(self).proposals@.insert(
                        proposal_id,
                        tallied(p, vote, power as int),
                    ));
                }
                Ok(())
            },
        }
    }

    /// Counts the votes once they are all cast.
    pub fn queue_proposal(&mut self, proposal_id: u64) -> (r: Result<(), GovernanceError>)
        requires
            queue_fits(old(self).chamber(), proposal_id),
        ensures
            (r, final(self).chamber()) == queue_effect(old(self).chamber(), proposal_id),
    {
        let (state, end_block, proposer, is_pause, carried, execution_block) =
            match self.proposals.get(proposal_id) {
            None => {
                return Err(GovernanceError::ProposalNotFound);
            },
            Some(p) => (
                p.state,
                p.end_block,
                p.proposer,
                matches!(p.proposal_type, ProposalType::EmergencyPause { .. }),
                p.has_quorum() && p.is_majority_yes(),
                p.execution_block,
            ),
        };
        if self.current_block <= end_block {
            return Err(GovernanceError::VotingPeriodNotEnded);
        }
        if state == ProposalState::Executed || state == ProposalState::Expired {
            return Err(GovernanceError::ProposalNotQueued);
        }
        if state == ProposalState::Passed {
            let later: u64 = self.current_block + TIMELOCK_PERIOD_BLOCKS;
            self.replace_proposal(proposal_id, ProposalState::Queued, Some(later));
            return Ok(());
        }
        if carried && state != ProposalState::Defeated {
            let at: u64 = if is_pause {
                self.current_block
            } else {
                self.current_block + TIMELOCK_PERIOD_BLOCKS
            };
            self.replace_proposal(proposal_id, ProposalState::Queued, Some(at));
            Ok(())
        } else {
            self.replace_proposal(proposal_id, ProposalState::Defeated, execution_block);
            self.deposits.remove(proposer);
            Err(GovernanceError::ProposalDefeated)
        }
    }

    /// Executes a proposal whose wait is over.
    pub fn execute_proposal(&mut self, proposal_id: u64) -> (r: Result<(), GovernanceError>)
        requires
            execute_fits(old(self).chamber(), proposal_id, true),
        ensures
            (r, final(self).chamber()) == execute_effect(
                old(self).chamber(),
                proposal_id,
                readable(old(self).chamber().proposals[proposal_id]),
            ),
    {
        let parsed = match self.proposals.get(proposal_id) {
            None => true,
            Some(p) => !matches!(p.proposal_type, ProposalType::ParameterChange { .. })
                || p.execution_data.len() == 0 || parses_as_json(p.execution_data.as_slice()),
        };
        self.execute_parsed(proposal_id, parsed)
    }

    /// Executes a proposal whose wait is over, given whether its data could be read.
    pub fn execute_parsed(&mut self, proposal_id: u64, parsed: bool) -> (r: Result<
        (),
        GovernanceError,
    >)
        requires
            execute_fits(old(self).chamber(), proposal_id, parsed),
        ensures
            (r, final(self).chamber()) == execute_effect(old(self).chamber(), proposal_id, parsed),
    {
        let (proposer, at) = match self.proposals.get(proposal_id) {
            None => {
                return Err(GovernanceError::ProposalNotFound);
            },
            Some(p) => {
                if p.state != ProposalState::Queued {
                    return Err(GovernanceError::ProposalNotQueued);
                }
                match p.execution_block {
                    None => {
                        return Err(GovernanceError::ProposalNotQueued);
                    },
                    Some(at) => (p.proposer, at),
                }
            },
        };
        if self.current_block < at {
            return Err(GovernanceError::TimelockNotElapsed);
        }
        self.replace_proposal(proposal_id, ProposalState::Executed, Some(at));
        proof {
            assert(self.chamber() == marked_executed(old(self).chamber(), proposal_id));
        }
        self.apply_proposal(proposal_id, parsed)?;
        if let Some(deposit) = self.deposits.remove(proposer) {
            let current: u128 = self.balance_of(proposer);
            self.call_balances.insert(proposer, current + deposit);
        } else {
            proof {
                let applied = apply_effect(
                    marked_executed(old(self).chamber(), proposal_id),
                    old(self).proposals@[proposal_id],
                    parsed,
                ).1;
                assert(applied.deposits.remove(proposer) =~= applied.deposits);
            }
        }
        Ok(())
    }

    /// Changes what an executed proposal changes.
    fn apply_proposal(&mut self, proposal_id: u64, parsed: bool) -> (r: Result<(), GovernanceError>)
        requires
            old(self).proposals@.contains_key(proposal_id),
            old(self).proposals@[proposal_id].proposal_type matches ProposalType::TreasurySpend {
                recipient,
                amount,
                ..
            } ==> {
                let g = old(self).chamber();
                let p = g.proposals[proposal_id];
                let current = amount_of(g.balances, p.proposer);
                current >= amount ==> amount_of(
                    g.balances.insert(p.proposer, (current - amount) as u128),
                    recipient,
                ) + amount <= u128::MAX
            },
        ensures
            (r, final(self).chamber()) == apply_effect(
                old(self).chamber(),
                old(self).proposals@[proposal_id],
                parsed,
            ),
    {
        match self.proposals.get(proposal_id) {
            None => Err(GovernanceError::ProposalNotFound),
            Some(p) => {
                let proposer: Address = p.proposer;
                match &p.proposal_type {
                    ProposalType::ParameterChange { .. } => {
                        if !parsed {
                            return Err(
                                GovernanceError::ExecutionFailed("invalid execution_data JSON"),
                            );
                        }
                    },
                    ProposalType::TreasurySpend { recipient, amount, .. } => {
                        let recipient: Address = *recipient;
                        let amount: u128 = *amount;
                        let current: u128 = self.balance_of(proposer);
                        if current >= amount {
                            self.call_balances.insert(proposer, current - amount);
                            let before: u128 = self.balance_of(recipient);
                            self.call_balances.insert(recipient, before + amount);
                        }
                    },
                    ProposalType::ValidatorSlash { validator_id, .. } => {
                        let validator_id: u32 = *validator_id;
                        match self.validator_addresses.remove(validator_id) {
                            Some(address) => {
                                self.call_balances.remove(address);
                            },
                            None => {
                                proof {
                                    let before = old(self).validator_addresses@;
                                    assert(before.remove(validator_id) =~= before);
                                }
                            },
                        }
                    },
                    ProposalType::EmergencyPause { reason } => {
                        let reason: String = reason.clone();
                        self.emergency_pause.is_paused = true;
                        self.emergency_pause.pause_reason = reason;
                    },
                    _ => {},
                }
                Ok(())
            },
        }
    }

    /// Lets a proposal expire that was not executed in time.
    pub fn expire_proposal(&mut self, proposal_id: u64) -> (r: Result<(), GovernanceError>)
        requires
            ({
                let g = old(self).chamber();
                g.proposals.contains_key(proposal_id) && g.proposals[proposal_id].state
                    == ProposalState::Queued ==> match g.proposals[proposal_id].execution_block {
                    Some(at) => at + EXECUTION_TIMEOUT_BLOCKS <= u64::MAX,
                    None => true,
                }
            }),
        ensures
            (r, final(self).chamber()) == expire_effect(old(self).chamber(), proposal_id),
    {
        let (state, execution_block, proposer) = match self.proposals.get(proposal_id) {
            None => {
                return Err(GovernanceError::ProposalNotFound);
            },
            Some(p) => (p.state, p.execution_block, p.proposer),
        };
        if state != ProposalState::Queued {
            return Err(GovernanceError::ProposalNotQueued);
        }
        match execution_block {
            None => Err(GovernanceError::ProposalNotQueued),
            Some(at) => {
                if self.current_block < at + EXECUTION_TIMEOUT_BLOCKS {
                    return Err(GovernanceError::ExecutionTimeoutNotReached);
                }
                self.replace_proposal(proposal_id, ProposalState::Expired, execution_block);
                self.deposits.remove(proposer);
                Ok(())
            },
        }
    }

    /// Counts a validator's signature for a pause; says whether the pause has begun.
    pub fn emergency_pause_initiate(&mut self, validator_id: u32, reason: String) -> (r: Result<
        bool,
        GovernanceError,
    >)
        ensures
            (r, final(self).chamber()) == pause_effect(
                old(self).chamber(),
                validator_id,
                reason@,
            ),
    {
        let total: u128 = self.validator_addresses.len() as u128;
        if total == 0 {
            return Err(GovernanceError::NoValidators);
        }
        let address: Address = match self.validator_addresses.get(validator_id) {
            None => {
                return Err(GovernanceError::ValidatorNotFound);
            },
            Some(a) => *a,
        };
        self.emergency_pause.pause_signatures.insert(address, true);
        proof {
            assert(self.emergency_pause.pause_signatures@.dom() =~= old(
                self,
            ).emergency_pause.pause_signatures@.dom().insert(address));
        }
        let signed: u128 = count_signers(
            &self.emergency_pause.pause_signatures,
            &self.validator_addresses,
        ) as u128;
        if signed >= (2 * total + 2) / 3 {
            self.emergency_pause.is_paused = true;
            self.emergency_pause.pause_reason = reason;
            Ok(true)
        } else {
            Ok(false)
        }
    }

    /// Ends a pause.
    pub fn emergency_pause_resume(&mut self) -> (r: Result<(), GovernanceError>)
        ensures
            (r, final(self).chamber()) == resume_effect(old(self).chamber()),
    {
        if !self.emergency_pause.is_paused {
            return Err(GovernanceError::NotPaused);
        }
        self.emergency_pause = EmergencyPauseState::new();
        proof {
            assert(self.chamber().signatures =~= Set::<Address>::empty());
        }
        Ok(())
    }

    /// Lends voting power to another account, in place of what was lent before.
    pub fn delegate_vote(
        &mut self,
        delegator: Address,
        delegate: Address,
        amount: u128,
        expires_at: u64,
    ) -> (r: Result<(), GovernanceError>)
        ensures
            (r, final(self).chamber()) == delegate_effect(
                old(self).chamber(),
                (VoteDelegation { delegator, delegate, amount, expires_at }),
            ),
    {
        if self.balance_of(delegator) < amount {
            return Err(GovernanceError::InsufficientBalanceForDelegation);
        }
        self.delegations.insert(
            delegator,
            VoteDelegation { delegator, delegate, amount, expires_at },
        );
        Ok(())
    }

    /// Takes lent voting power back.
    pub fn undelegate_vote(&mut self, delegator: Address) -> (r: Result<(), GovernanceError>)
        ensures
            (r, final(self).chamber()) == undelegate_effect(old(self).chamber(), delegator),
    {
        match self.delegations.remove(delegator) {
            Some(_) => Ok(()),
            None => {
                assert(self.delegations@ =~= old(self).delegations@);
                Err(GovernanceError::NoDelegation)
            },
        }
    }

    /// All voting power that is lent to an account and has not expired.
    pub fn get_delegated_voting_power(&self, delegate: Address) -> (r: u128)
        requires
            delegated(self.chamber().delegations, delegate, self.chamber().block) <= u128::MAX,
        ensures
            r == delegated(self.chamber().delegations, delegate, self.chamber().block),
    {
        let entries: &Vec<(Address, VoteDelegation)> = self.delegations.entries();
        let ghost m = self.delegations@;
        let ghost f = add_lent(m, delegate, self.current_block);
        let mut sum: u128 = 0;
        let mut i: usize = 0;
        proof {
            assert(map_of(entries@.subrange(0, 0)).dom() =~= Set::<Address>::empty());
            vstd::set::fold::lemma_fold_empty::<Address, int>(0, f);
        }
        while i < entries.len()
            invariant
                i <= entries@.len(),
                distinct_keys(entries@),
                map_of(entries@) == m,
                f == add_lent(m, delegate, self.current_block),
                delegated(m, delegate, self.current_block) <= u128::MAX,
                sum == map_of(entries@.subrange(0, i as int)).dom().fold(0, f),
            decreases entries@.len() - i,
        {
            let d: VoteDelegation = entries[i].1;
            proof {
                lemma_prefix(entries@, i as int);
                lemma_lent_sum(entries@, delegate, self.current_block, i as int);
                lemma_lent_prefix(entries@, delegate, self.current_block, i + 1);
                let part = map_of(entries@.subrange(0, i as int)).dom();
                let k = entries@[i as int].0;
                assert(map_of(entries@.subrange(0, i + 1)).dom() =~= part.insert(k));
                lemma_fold_lent(m, delegate, self.current_block, part, k);
            }
            if d.delegate == delegate && self.current_block <= d.expires_at {
                sum = sum + d.amount;
            }
            i += 1;
        }
        proof {
            assert(entries@.subrange(0, entries@.len() as int) =~= entries@);
        }
        sum
    }

    pub fn get_proposal(&self, proposal_id: u64) -> (r: Option<&Proposal>)
        ensures
            match r {
                Some(p) => self.chamber().proposals.contains_key(proposal_id) && *p
                    == self.chamber().proposals[proposal_id],
                None => !self.chamber().proposals.contains_key(proposal_id),
            },
    {
        self.proposals.get(proposal_id)
    }

    pub fn get_all_proposals(&self) -> (r: &VecMap<u64, Proposal>)
        ensures
            r@ == self.chamber().proposals,
    {
        &self.proposals
    }

    /// Whether the chain is paused.
    pub fn is_paused(&self) -> (r: bool)
        ensures
            r == self.chamber().paused,
    {
        self.emergency_pause.is_paused
    }
}

/// Who has voted on a proposal does not vote on it again: a second vote changes nothing but that
/// the proposal is active.
pub proof fn law_no_double_vote(
    g: Chamber,
    proposal_id: u64,
    voter: Address,
    vote: Vote,
    again: Vote,
)
    requires
        vote_effect(g, proposal_id, voter, vote).0 is Ok,
    ensures
        ({
            let once = vote_effect(g, proposal_id, voter, vote).1;
            vote_effect(once, proposal_id, voter, again) == (
                Err::<(), GovernanceError>(GovernanceError::AlreadyVoted),
                once,
            )
        }),
{
    let once = vote_effect(g, proposal_id, voter, vote).1;
    let p = once.proposals[proposal_id];
    assert(once.proposals.insert(proposal_id, p) =~= once.proposals);
}

/// A pause begins with a validator's signature exactly where at least two thirds of those who are
/// validators have signed by now.
pub proof fn law_pause_needs_two_thirds(g: Chamber, validator_id: u32, reason: Seq<char>)
    requires
        g.validators.dom().finite(),
        g.validators.contains_key(validator_id),
    ensures
        ({
            let (r, after) = pause_effect(g, validator_id, reason);
            &&& after.validators == g.validators
            &&& after.signatures == g.signatures.insert(g.validators[validator_id])
            &&& r matches Ok(begun) && begun == (3 * active_signers(
                after.signatures,
                g.validators,
            ).len() >= 2 * g.validators.dom().len())
            &&& r == Ok::<bool, GovernanceError>(true) ==> after.paused && after.reason == reason
            &&& r == Ok::<bool, GovernanceError>(false) ==> after.paused == g.paused
        }),
{
    if g.validators.dom().len() == 0 {
        assert(g.validators.dom() =~= Set::<u32>::empty());
        assert(g.validators.dom().contains(validator_id));
    }
}

/// A proposal is executed only after it was queued and its wait is over, and a second execution is
/// refused.
pub proof fn law_executed_once_after_wait(
    g: Chamber,
    proposal_id: u64,
    parsed: bool,
    parsed_again: bool,
)
    requires
        execute_effect(g, proposal_id, parsed).0 is Ok,
    ensures
        g.proposals.contains_key(proposal_id),
        g.proposals[proposal_id].state == ProposalState::Queued,
        g.proposals[proposal_id].execution_block matches Some(at) && g.block >= at,
        execute_effect(execute_effect(g, proposal_id, parsed).1, proposal_id, parsed_again).0
            == Err::<(), GovernanceError>(GovernanceError::ProposalNotQueued),
{
}

/// Anything that may be asked of governance.
pub enum Motion {
    Block(u64),
    Seat { validator_id: u32, address: Address },
    Balance { address: Address, balance: u128 },
    Issuer { asset_id: u64, issuer: Address },
    Submit {
        proposer: Address,
        proposal_type: ProposalType,
        title: String,
        description: String,
        execution_data: Vec<u8>,
    },
    Vote { proposal_id: u64, voter: Address, vote: Vote },
    Queue { proposal_id: u64 },
    Execute { proposal_id: u64, parsed: bool },
    Expire { proposal_id: u64 },
    Pause { validator_id: u32, reason: Seq<char> },
    Resume,
    Delegate(VoteDelegation),
    Undelegate { delegator: Address },
}

/// What governance knows after it was asked something.
pub open spec fn motion_effect(g: Chamber, m: Motion) -> Chamber {
    match m {
        Motion::Block(block) => Chamber { block, ..g },
        Motion::Seat { validator_id, address } => Chamber {
            validators: g.validators.insert(validator_id, address),
            ..g
        },
        Motion::Balance { address, balance } => Chamber {
            balances: g.balances.insert(address, balance),
            ..g
        },
        Motion::Issuer { asset_id, issuer } => Chamber {
            issuers: g.issuers.insert(asset_id, issuer),
            ..g
        },
        Motion::Submit { proposer, proposal_type, title, description, execution_data } => {
            submit_effect(g, proposer, proposal_type, title, description, execution_data).1
        },
        Motion::Vote { proposal_id, voter, vote } => vote_effect(g, proposal_id, voter, vote).1,
        Motion::Queue { proposal_id } => queue_effect(g, proposal_id).1,
        Motion::Execute { proposal_id, parsed } => execute_effect(g, proposal_id, parsed).1,
        Motion::Expire { proposal_id } => expire_effect(g, proposal_id).1,
        Motion::Pause { validator_id, reason } => pause_effect(g, validator_id, reason).1,
        Motion::Resume => resume_effect(g).1,
        Motion::Delegate(d) => delegate_effect(g, d).1,
        Motion::Undelegate { delegator } => undelegate_effect(g, delegator).1,
    }
}

/// What governance knows after the first `n` of several motions.
pub open spec fn after_motions(g: Chamber, motions: Seq<Motion>, n: int) -> Chamber
    decreases n,
{
    if n <= 0 {
        g
    } else {
        motion_effect(after_motions(g, motions, n - 1), motions[n - 1])
    }
}

/// Proposals are numbered in turn, and there are numbers for `more` of them.
pub open spec fn numbered(g: Chamber, more: int) -> bool {
    &&& g.next_id + more <= u64::MAX
    &&& forall|id: u64| #[trigger] g.proposals.contains_key(id) ==> id < g.next_id
}

/// Whether a motion carries a proposal out.
pub open spec fn executes(g: Chamber, m: Motion, proposal_id: u64) -> bool {
    &&& m matches Motion::Execute { proposal_id: id, .. }
    &&& id == proposal_id
    &&& execution_check(g, proposal_id) is Ok
}

proof fn lemma_end_is_kept(g: Chamber, m: Motion, proposal_id: u64)
    requires
        numbered(g, 1),
    ensures
        motion_effect(g, m).next_id <= g.next_id + 1,
        forall|id: u64| #[trigger]
            motion_effect(g, m).proposals.contains_key(id) ==> id < motion_effect(g, m).next_id,
        g.proposals.contains_key(proposal_id) && is_final(g.proposals[proposal_id].state) ==> {
            &&& motion_effect(g, m).proposals.contains_key(proposal_id)
            &&& motion_effect(g, m).proposals[proposal_id].state == g.proposals[proposal_id].state
        },
{
    let after = motion_effect(g, m);
    assert forall|id: u64| #[trigger] after.proposals.contains_key(id) implies id
        < after.next_id by {
        assert(g.proposals.contains_key(id) ==> id < g.next_id);
    }
}

proof fn lemma_numbered(g: Chamber, motions: Seq<Motion>, n: int)
    requires
        0 <= n <= motions.len(),
        numbered(g, motions.len() as int),
    ensures
        numbered(after_motions(g, motions, n), motions.len() - n),
    decreases n,
{
    if n > 0 {
        lemma_numbered(g, motions, n - 1);
        lemma_end_is_kept(after_motions(g, motions, n - 1), motions[n - 1], 0);
    }
}

/// A proposal that was executed, was defeated or has expired stays so, whatever is asked of
/// governance.
pub proof fn law_end_is_kept(g: Chamber, motions: Seq<Motion>, n: int, proposal_id: u64)
    requires
        0 <= n <= motions.len(),
        numbered(g, motions.len() as int),
        g.proposals.contains_key(proposal_id),
        is_final(g.proposals[proposal_id].state),
    ensures
        after_motions(g, motions, n).proposals.contains_key(proposal_id),
        after_motions(g, motions, n).proposals[proposal_id].state
            == g.proposals[proposal_id].state,
    decreases n,
{
    if n > 0 {
        law_end_is_kept(g, motions, n - 1, proposal_id);
        lemma_numbered(g, motions, n - 1);
        lemma_end_is_kept(after_motions(g, motions, n - 1), motions[n - 1], proposal_id);
    }
}

proof fn lemma_executed_stays(g: Chamber, motions: Seq<Motion>, i: int, n: int, proposal_id: u64)
    requires
        0 <= i < n <= motions.len(),
        numbered(g, motions.len() as int),
        executes(after_motions(g, motions, i), motions[i], proposal_id),
    ensures
        after_motions(g, motions, n).proposals.contains_key(proposal_id),
        after_motions(g, motions, n).proposals[proposal_id].state == ProposalState::Executed,
    decreases n,
{
    let before = after_motions(g, motions, n - 1);
    lemma_numbered(g, motions, n - 1);
    if n - 1 > i {
        lemma_executed_stays(g, motions, i, n - 1, proposal_id);
        lemma_end_is_kept(before, motions[n - 1], proposal_id);
    }
}

/// A proposal is executed at most once, whatever is asked of governance and in what order.
pub proof fn law_executed_at_most_once(
    g: Chamber,
    motions: Seq<Motion>,
    i: int,
    j: int,
    proposal_id: u64,
)
    requires
        0 <= i < j < motions.len(),
        numbered(g, motions.len() as int),
        executes(after_motions(g, motions, i), motions[i], proposal_id),
    ensures
        !executes(after_motions(g, motions, j), motions[j], proposal_id),
{
    lemma_executed_stays(g, motions, i, j, proposal_id);
}

/// Whatever is queued by a vote, but for a pause, waits the whole time before it is executed.
pub proof fn law_queued_proposals_wait(
    g: Chamber,
    proposal_id: u64,
    later: Chamber,
    parsed: bool,
)
    requires
        queue_effect(g, proposal_id).0 is Ok,
        !(g.proposals[proposal_id].proposal_type is EmergencyPause),
        g.block + TIMELOCK_PERIOD_BLOCKS <= u64::MAX,
        later.proposals.contains_key(proposal_id),
        later.proposals[proposal_id] == queue_effect(g, proposal_id).1.proposals[proposal_id],
        later.block < g.block + TIMELOCK_PERIOD_BLOCKS,
    ensures
        execute_effect(later, proposal_id, parsed) == (
            Err::<(), GovernanceError>(GovernanceError::TimelockNotElapsed),
            later,
        ),
{
}

/// A proposal that fails for want of votes is defeated and its deposit is gone; it cannot be
/// executed.
pub proof fn law_defeat_keeps_deposit(g: Chamber, proposal_id: u64, parsed: bool)
    requires
        queue_effect(g, proposal_id).0 == Err::<(), GovernanceError>(
            GovernanceError::ProposalDefeated,
        ),
    ensures
        ({
            let after = queue_effect(g, proposal_id).1;
            &&& after.proposals[proposal_id].state == ProposalState::Defeated
            &&& !after.deposits.contains_key(g.proposals[proposal_id].proposer)
            &&& after.balances == g.balances
            &&& execute_effect(after, proposal_id, parsed) == (
                Err::<(), GovernanceError>(GovernanceError::ProposalNotQueued),
                after,
            )
        }),
{
}

/// The deposit that was taken comes back when a proposal without effect on balances is executed.
pub proof fn law_deposit_comes_back(
    g: Chamber,
    proposer: Address,
    kind: ProposalType,
    title: String,
    description: String,
    data: Vec<u8>,
    done: Chamber,
    parsed: bool,
)
    requires
        submit_effect(g, proposer, kind, title, description, data).0 is Ok,
        !(kind is TreasurySpend),
        !(kind is ValidatorSlash),
        ({
            let after = submit_effect(g, proposer, kind, title, description, data).1;
            &&& done.balances == after.balances
            &&& done.deposits == after.deposits
            &&& done.proposals.contains_key(g.next_id)
            &&& done.proposals[g.next_id].proposer == proposer
            &&& done.proposals[g.next_id].proposal_type == kind
        }),
        execute_effect(done, g.next_id, parsed).0 is Ok,
    ensures
        amount_of(execute_effect(done, g.next_id, parsed).1.balances, proposer) == amount_of(
            g.balances,
            proposer,
        ),
{
}

} // verus!
