//! What each request does to governance, said of its inputs and of what governance knows before and
//! after.

use crate::protocol::account::amount_of;
use crate::protocol::governance::{
    add_lent, delegate_effect, delegated, empty_chamber, execute_effect, expire_effect, json_valid,
    keys_with,
    lemma_fold_lent, pause_effect, queue_effect, readable, resume_effect, seated, submit_effect,
    undelegate_effect, vote_effect, voting_power, Chamber, GovernanceError, Proposal,
    ProposalState, ProposalType, Vote, VoteDelegation,
};
use crate::words::Address;
use vstd::prelude::*;

verus! {

/// Nothing but the proposals differs.
pub open spec fn same_but_proposals(g: Chamber, h: Chamber) -> bool {
    &&& h.next_id == g.next_id
    &&& h.validators == g.validators
    &&& h.balances == g.balances
    &&& h.issuers == g.issuers
    &&& h.delegations == g.delegations
    &&& h.deposits == g.deposits
    &&& h.voted == g.voted
    &&& h.block == g.block
    &&& h.paused == g.paused
    &&& h.reason == g.reason
    &&& h.signatures == g.signatures
}

/// No proposal but one differs.
pub open spec fn same_but_proposal(g: Chamber, h: Chamber, id: u64) -> bool {
    forall|k: u64|
        k != id ==> (#[trigger] h.proposals.contains_key(k) <==> g.proposals.contains_key(k)) && (
        g.proposals.contains_key(k) ==> h.proposals[k] == g.proposals[k])
}

/// What was proposed, by whom and under what rules is the same.
pub open spec fn same_terms(p: Proposal, q: Proposal) -> bool {
    &&& q.id == p.id
    &&& q.proposer == p.proposer
    &&& q.proposal_type == p.proposal_type
    &&& q.title == p.title
    &&& q.description == p.description
    &&& q.start_block == p.start_block
    &&& q.end_block == p.end_block
    &&& q.quorum_required == p.quorum_required
    &&& q.execution_data == p.execution_data
    &&& q.deposit == p.deposit
}

/// The votes on a proposal are the same.
pub open spec fn same_votes(p: Proposal, q: Proposal) -> bool {
    &&& q.voting_power_yes == p.voting_power_yes
    &&& q.voting_power_no == p.voting_power_no
    &&& q.voting_power_abstain == p.voting_power_abstain
}

/// The quorum of a proposal among `n` validators: at least two thirds of them, and no more than is
/// needed for that, for what validators decide; a fifth of the supply for spending; the larger of the
/// two for an upgrade; more than half of the validators for the rest.
pub open spec fn fair_quorum(kind: ProposalType, n: int, q: int) -> bool {
    let fifth: int = 200_000_000_000_000_000_000_000_000;
    if kind is ParameterChange || kind is ValidatorSlash || kind is EmergencyPause {
        2 * n <= 3 * q < 2 * n + 3
    } else if kind is TreasurySpend {
        q == fifth
    } else if kind is ProtocolUpgrade {
        q >= fifth && 3 * q >= 2 * n && (q == fifth || 3 * q < 2 * n + 3)
    } else {
        n < 2 * q <= n + 2
    }
}

/// A proposal is taken exactly where the proposer has ten thousand of the native asset, which it
/// deposits. It gets the next number; votes are taken from two days on and for seven days; it has no
/// votes yet and needs its quorum.
pub proof fn law_submission_is_exact(
    g: Chamber,
    proposer: Address,
    kind: ProposalType,
    title: String,
    description: String,
    data: Vec<u8>,
)
    requires
        g.next_id < u64::MAX,
        g.block + 691_200 + 2_419_200 <= u64::MAX,
        g.validators.dom().len() <= 0x1_0000_0000,
    ensures
        ({
            let (r, h) = submit_effect(g, proposer, kind, title, description, data);
            let deposit: int = 10_000_000_000_000_000_000_000;
            let id = g.next_id;
            &&& amount_of(g.balances, proposer) < deposit ==> r == Err::<u64, GovernanceError>(
                GovernanceError::InsufficientDeposit,
            ) && h == g
            &&& amount_of(g.balances, proposer) >= deposit ==> {
                &&& r == Ok::<u64, GovernanceError>(id)
                &&& h.next_id == id + 1
                &&& amount_of(h.balances, proposer) == amount_of(g.balances, proposer) - deposit
                &&& forall|a: Address|
                    a != proposer ==> #[trigger] amount_of(h.balances, a) == amount_of(
                        g.balances,
                        a,
                    )
                &&& h.deposits.contains_key(proposer) && h.deposits[proposer] == deposit
                &&& forall|a: Address|
                    a != proposer ==> (#[trigger] h.deposits.contains_key(a)
                        <==> g.deposits.contains_key(a)) && h.deposits[a] == g.deposits[a]
                &&& h.proposals.contains_key(id)
                &&& h.proposals[id].id == id
                &&& h.proposals[id].proposer == proposer
                &&& h.proposals[id].proposal_type == kind
                &&& h.proposals[id].title == title
                &&& h.proposals[id].description == description
                &&& h.proposals[id].execution_data == data
                &&& h.proposals[id].voting_power_yes == 0
                &&& h.proposals[id].voting_power_no == 0
                &&& h.proposals[id].voting_power_abstain == 0
                &&& h.proposals[id].start_block == g.block + 691_200
                &&& h.proposals[id].end_block == g.block + 691_200 + 2_419_200
                &&& h.proposals[id].execution_block is None
                &&& h.proposals[id].state == ProposalState::Pending
                &&& h.proposals[id].deposit == deposit
                &&& fair_quorum(
                    kind,
                    g.validators.dom().len() as int,
                    h.proposals[id].quorum_required as int,
                )
                &&& same_but_proposal(g, h, id)
                &&& h.validators == g.validators
                &&& h.issuers == g.issuers
                &&& h.delegations == g.delegations
                &&& h.voted == g.voted
                &&& h.block == g.block
                &&& h.paused == g.paused
                &&& h.reason == g.reason
                &&& h.signatures == g.signatures
            }
        }),
{
}

/// A vote counts exactly where the proposal is there and not yet settled, its time for votes has
/// come and is not over, and the voter has not voted and has weight. It adds the weight to the side
/// that was chosen and to no other; nothing else changes but that the proposal is active and the
/// voter has voted.
pub proof fn law_vote_is_exact(g: Chamber, id: u64, voter: Address, vote: Vote)
    requires
        ({
            let p = g.proposals[id];
            let power = voting_power(g, voter, p.proposal_type);
            &&& 0 <= power
            &&& p.voting_power_yes + power <= u128::MAX
            &&& p.voting_power_no + power <= u128::MAX
            &&& p.voting_power_abstain + power <= u128::MAX
        }),
    ensures
        ({
            let (r, h) = vote_effect(g, id, voter, vote);
            let p = g.proposals[id];
            let q = h.proposals[id];
            let power = voting_power(g, voter, p.proposal_type);
            &&& r is Ok <==> {
                &&& g.proposals.contains_key(id)
                &&& p.start_block <= g.block <= p.end_block
                &&& p.state == ProposalState::Pending || p.state == ProposalState::Active
                &&& !g.voted.contains((id, voter))
                &&& power > 0
            }
            &&& r is Ok ==> {
                &&& h.proposals.contains_key(id)
                &&& same_terms(p, q)
                &&& q.execution_block == p.execution_block
                &&& q.state == ProposalState::Active
                &&& q.voting_power_yes == p.voting_power_yes + if vote == Vote::Yes {
                    power
                } else {
                    0
                }
                &&& q.voting_power_no == p.voting_power_no + if vote == Vote::No {
                    power
                } else {
                    0
                }
                &&& q.voting_power_abstain == p.voting_power_abstain + if vote == Vote::Abstain {
                    power
                } else {
                    0
                }
                &&& h.voted == g.voted.insert((id, voter))
            }
            &&& r is Err && g.proposals.contains_key(id) ==> h.proposals.contains_key(id)
                && same_terms(p, q) && same_votes(p, q) && q.execution_block == p.execution_block
                && (q.state == p.state || p.state == ProposalState::Pending && q.state
                == ProposalState::Active)
            &&& !g.proposals.contains_key(id) ==> r == Err::<(), GovernanceError>(
                GovernanceError::ProposalNotFound,
            ) && h == g
            &&& g.proposals.contains_key(id) && g.block < p.start_block ==> r == Err::<
                (),
                GovernanceError,
            >(GovernanceError::VotingNotStarted) && h == g
            &&& g.proposals.contains_key(id) && g.block > p.end_block && g.block >= p.start_block
                ==> r == Err::<(), GovernanceError>(GovernanceError::VotingPeriodClosed) && h == g
            &&& same_but_proposal(g, h, id)
            &&& h.next_id == g.next_id
            &&& h.validators == g.validators
            &&& h.balances == g.balances
            &&& h.issuers == g.issuers
            &&& h.delegations == g.delegations
            &&& h.deposits == g.deposits
            &&& h.block == g.block
            &&& h.paused == g.paused
            &&& h.reason == g.reason
            &&& h.signatures == g.signatures
        }),
{
}

/// The weight of a voter. On what validators decide a validator has one vote, and but for a pause
/// anyone votes with what they hold or were lent, where that is more. On spending anyone votes with
/// that alone. On compliance a validator votes once per seat, and an issuer with a tenth of the supply
/// where that is more. On the rest nobody has weight.
pub proof fn law_weight_is_exact(g: Chamber, voter: Address, kind: ProposalType)
    requires
        keys_with(g.validators, voter).finite(),
        g.delegations.dom().finite(),
    ensures
        ({
            let power = voting_power(g, voter, kind);
            let stake = amount_of(g.balances, voter) + delegated(g.delegations, voter, g.block);
            let seated = exists|v: u32| #[trigger]
                g.validators.contains_key(v) && g.validators[v] == voter;
            let issues = exists|a: u64| #[trigger]
                g.issuers.contains_key(a) && g.issuers[a] == voter;
            let tenth: int = 100_000_000_000_000_000_000_000_000;
            &&& kind is EmergencyPause ==> power == if seated {
                1int
            } else {
                0
            }
            &&& kind is ParameterChange || kind is ProtocolUpgrade || kind is ValidatorSlash ==> {
                &&& power >= stake
                &&& seated ==> power >= 1
                &&& power == stake || seated && power == 1
            }
            &&& kind is TreasurySpend ==> power == stake
            &&& kind is ComplianceUpdate ==> {
                &&& seated <==> keys_with(g.validators, voter).len() > 0
                &&& issues ==> power >= tenth
                &&& power >= keys_with(g.validators, voter).len()
                &&& power == keys_with(g.validators, voter).len() || issues && power == tenth
            }
            &&& kind is FeeCurrencyAdd || kind is FeeCurrencyRemove || kind is FeeCurrencyCap
                ==> power == 0
        }),
{
    lemma_lent_not_negative(g.delegations, voter, g.block, g.delegations.dom());
    let seats = keys_with(g.validators, voter);
    if exists|v: u32| #[trigger] g.validators.contains_key(v) && g.validators[v] == voter {
        let v = choose|v: u32| #[trigger]
            g.validators.contains_key(v) && g.validators[v] == voter;
        assert(seats.contains(v));
        if seats.len() == 0 {
            assert(seats =~= Set::<u32>::empty());
        }
    } else {
        assert(seats =~= Set::<u32>::empty());
    }
    let issued = keys_with(g.issuers, voter);
    if exists|a: u64| #[trigger] g.issuers.contains_key(a) && g.issuers[a] == voter {
        let a = choose|a: u64| #[trigger] g.issuers.contains_key(a) && g.issuers[a] == voter;
        assert(issued.contains(a));
    } else {
        assert(issued =~= Set::<u64>::empty());
    }
}

proof fn lemma_lent_not_negative(
    m: Map<Address, VoteDelegation>,
    delegate: Address,
    block: u64,
    s: Set<Address>,
)
    requires
        s.finite(),
    ensures
        s.fold(0, add_lent(m, delegate, block)) >= 0,
    decreases s.len(),
{
    if s.len() == 0 {
        assert(s =~= Set::<Address>::empty());
        vstd::set::fold::lemma_fold_empty::<Address, int>(0, add_lent(m, delegate, block));
    } else {
        let k = s.choose();
        let rest = s.remove(k);
        assert(rest.insert(k) =~= s);
        lemma_lent_not_negative(m, delegate, block, rest);
        lemma_fold_lent(m, delegate, block, rest, k);
    }
}

proof fn lemma_fold_same(
    m: Map<Address, VoteDelegation>,
    n: Map<Address, VoteDelegation>,
    delegate: Address,
    block: u64,
    s: Set<Address>,
)
    requires
        s.finite(),
        forall|k: Address| #[trigger] s.contains(k) ==> m[k] == n[k],
    ensures
        s.fold(0, add_lent(m, delegate, block)) == s.fold(0, add_lent(n, delegate, block)),
    decreases s.len(),
{
    if s.len() == 0 {
        assert(s =~= Set::<Address>::empty());
        vstd::set::fold::lemma_fold_empty::<Address, int>(0, add_lent(m, delegate, block));
        vstd::set::fold::lemma_fold_empty::<Address, int>(0, add_lent(n, delegate, block));
    } else {
        let k = s.choose();
        let rest = s.remove(k);
        assert(rest.insert(k) =~= s);
        lemma_fold_same(m, n, delegate, block, rest);
        lemma_fold_lent(m, delegate, block, rest, k);
        lemma_fold_lent(n, delegate, block, rest, k);
    }
}

/// What an account is lent: nothing where nobody lends; and a delegation adds its amount for the
/// account that it names until its last block, in place of an earlier one by the same account.
pub proof fn law_lent_power_adds_up(
    m: Map<Address, VoteDelegation>,
    d: VoteDelegation,
    delegate: Address,
    block: u64,
)
    requires
        m.dom().finite(),
    ensures
        delegated(Map::<Address, VoteDelegation>::empty(), delegate, block) == 0,
        delegated(m.insert(d.delegator, d), delegate, block) == delegated(
            m.remove(d.delegator),
            delegate,
            block,
        ) + if d.delegate == delegate && block <= d.expires_at {
            d.amount as int
        } else {
            0
        },
{
    let none = Map::<Address, VoteDelegation>::empty();
    vstd::set::fold::lemma_fold_empty::<Address, int>(0, add_lent(none, delegate, block));
    assert(none.dom() =~= Set::<Address>::empty());
    let n = m.insert(d.delegator, d);
    let o = m.remove(d.delegator);
    let s = o.dom();
    assert(s.finite());
    assert(n.dom() =~= s.insert(d.delegator));
    lemma_fold_lent(n, delegate, block, s, d.delegator);
    lemma_fold_same(n, o, delegate, block, s);
}

/// Voting power is lent exactly where the lender has that much; it replaces what the lender lent
/// before. It is taken back exactly where it was lent. Nothing else changes.
pub proof fn law_lending_is_exact(g: Chamber, d: VoteDelegation, delegator: Address)
    ensures
        ({
            let (r, h) = delegate_effect(g, d);
            &&& r is Ok <==> amount_of(g.balances, d.delegator) >= d.amount
            &&& r is Ok ==> {
                &&& h.delegations == g.delegations.insert(d.delegator, d)
                &&& h.proposals == g.proposals
                &&& same_but_proposals(Chamber { delegations: h.delegations, ..g }, h)
            }
            &&& r is Err ==> h == g && r == Err::<(), GovernanceError>(
                GovernanceError::InsufficientBalanceForDelegation,
            )
        }),
        ({
            let (r, h) = undelegate_effect(g, delegator);
            &&& r is Ok <==> g.delegations.contains_key(delegator)
            &&& r is Ok ==> {
                &&& h.delegations == g.delegations.remove(delegator)
                &&& h.proposals == g.proposals
                &&& same_but_proposals(Chamber { delegations: h.delegations, ..g }, h)
            }
            &&& r is Err ==> h == g && r == Err::<(), GovernanceError>(
                GovernanceError::NoDelegation,
            )
        }),
{
}

/// A proposal that is voted on is queued exactly where its vote has ended, at least its quorum of
/// votes was cast and more of them are for it than against it. It may be executed seven days later, a
/// pause at once. Where the vote has ended otherwise, it is defeated and the proposer's deposit is
/// gone.
pub proof fn law_queue_is_exact(g: Chamber, id: u64)
    requires
        g.proposals.contains_key(id),
        g.proposals[id].state == ProposalState::Pending || g.proposals[id].state
            == ProposalState::Active || g.proposals[id].state == ProposalState::Queued,
        g.block + 2_419_200 <= u64::MAX,
    ensures
        ({
            let (r, h) = queue_effect(g, id);
            let p = g.proposals[id];
            let q = h.proposals[id];
            let cast = p.voting_power_yes + p.voting_power_no + p.voting_power_abstain;
            let won = cast >= p.quorum_required && p.voting_power_yes > p.voting_power_no;
            &&& r is Ok <==> g.block > p.end_block && won
            &&& r is Ok ==> {
                &&& q.state == ProposalState::Queued
                &&& q.execution_block == Some(
                    if p.proposal_type is EmergencyPause {
                        g.block
                    } else {
                        (g.block + 2_419_200) as u64
                    },
                )
                &&& h.deposits == g.deposits
            }
            &&& g.block <= p.end_block ==> h == g && r == Err::<(), GovernanceError>(
                GovernanceError::VotingPeriodNotEnded,
            )
            &&& g.block > p.end_block && !won ==> {
                &&& r == Err::<(), GovernanceError>(GovernanceError::ProposalDefeated)
                &&& q.state == ProposalState::Defeated
                &&& h.deposits == g.deposits.remove(p.proposer)
            }
            &&& h.proposals.contains_key(id)
            &&& same_terms(p, q)
            &&& same_votes(p, q)
            &&& same_but_proposal(g, h, id)
            &&& h.next_id == g.next_id
            &&& h.validators == g.validators
            &&& h.balances == g.balances
            &&& h.issuers == g.issuers
            &&& h.delegations == g.delegations
            &&& h.voted == g.voted
            &&& h.block == g.block
            &&& h.paused == g.paused
            &&& h.reason == g.reason
            &&& h.signatures == g.signatures
        }),
{
}

/// What was executed or has expired is not queued again and stays as it is; what was defeated stays
/// defeated; what has passed is queued for the wait.
pub proof fn law_ended_proposals_are_not_queued(g: Chamber, id: u64)
    requires
        g.proposals.contains_key(id),
        g.block > g.proposals[id].end_block,
        g.block + 2_419_200 <= u64::MAX,
    ensures
        ({
            let (r, h) = queue_effect(g, id);
            let p = g.proposals[id];
            &&& p.state == ProposalState::Executed || p.state == ProposalState::Expired ==> h == g
                && r == Err::<(), GovernanceError>(GovernanceError::ProposalNotQueued)
            &&& p.state == ProposalState::Defeated ==> h.proposals[id].state
                == ProposalState::Defeated && r == Err::<(), GovernanceError>(
                GovernanceError::ProposalDefeated,
            )
            &&& p.state == ProposalState::Passed ==> r is Ok && h.proposals[id].state
                == ProposalState::Queued && h.proposals[id].execution_block == Some(
                (g.block + 2_419_200) as u64,
            )
        }),
{
}

/// Governance begins with nothing: no proposals, the first of which is to be number 0, no votes, no
/// stakes, no deposits, and not paused.
pub proof fn law_governance_begins_empty(id: u64, voter: Address)
    ensures
        ({
            let g = empty_chamber();
            &&& !g.proposals.contains_key(id)
            &&& g.next_id == 0
            &&& !g.voted.contains((id, voter))
            &&& amount_of(g.balances, voter) == 0
            &&& !g.deposits.contains_key(voter)
            &&& g.validators.dom() == Set::<u32>::empty()
            &&& g.block == 0
            &&& !g.paused
            &&& g.reason.len() == 0
        }),
{
}

/// Only a change of parameters can fail on its data: where there are some, and they are not JSON.
pub proof fn law_unreadable_data(p: Proposal)
    ensures
        !readable(p) <==> p.proposal_type is ParameterChange && p.execution_data@.len() >= 1
            && !json_valid(p.execution_data@),
{
}

/// What is voted down, or has no quorum, is never executed: it is defeated when it is to be queued.
pub proof fn law_what_is_voted_down_is_not_executed(g: Chamber, id: u64, parsed: bool)
    requires
        g.proposals.contains_key(id),
        g.proposals[id].state == ProposalState::Pending || g.proposals[id].state
            == ProposalState::Active,
        g.block > g.proposals[id].end_block,
        g.proposals[id].voting_power_yes <= g.proposals[id].voting_power_no
            || g.proposals[id].voting_power_yes + g.proposals[id].voting_power_no
            + g.proposals[id].voting_power_abstain < g.proposals[id].quorum_required,
    ensures
        queue_effect(g, id).0 == Err::<(), GovernanceError>(GovernanceError::ProposalDefeated),
        execute_effect(g, id, parsed).0 is Err,
        execute_effect(queue_effect(g, id).1, id, parsed).0 is Err,
{
}

/// A queued proposal is executed exactly from its block on. It is marked as executed. Spending moves
/// the amount from the proposer to the recipient, where the proposer has it; slashing strikes the
/// validator off with what it holds; a pause pauses; the rest changes nothing here. The deposit on
/// record goes back to the proposer.
pub proof fn law_execution_is_exact(g: Chamber, id: u64, parsed: bool)
    requires
        g.proposals.contains_key(id),
        ({
            let p = g.proposals[id];
            &&& p.proposal_type matches ProposalType::TreasurySpend { recipient, amount, .. }
                ==> amount_of(g.balances, recipient) + amount + amount_of(g.deposits, p.proposer)
                <= u128::MAX
            &&& amount_of(g.balances, p.proposer) + amount_of(g.deposits, p.proposer) <= u128::MAX
        }),
    ensures
        ({
            let (r, h) = execute_effect(g, id, parsed);
            let p = g.proposals[id];
            let q = h.proposals[id];
            let due = p.state == ProposalState::Queued && (p.execution_block matches Some(at)
                && at <= g.block);
            let refund = amount_of(g.deposits, p.proposer) as int;
            &&& !due ==> r is Err && h == g
            &&& p.state != ProposalState::Queued ==> r == Err::<(), GovernanceError>(
                GovernanceError::ProposalNotQueued,
            )
            &&& due ==> {
                &&& r is Ok <==> !(p.proposal_type is ParameterChange) || parsed
                &&& h.proposals.contains_key(id)
                &&& q.state == ProposalState::Executed
                &&& same_terms(p, q)
                &&& same_votes(p, q)
                &&& q.execution_block == p.execution_block
                &&& same_but_proposal(g, h, id)
                &&& h.next_id == g.next_id
                &&& h.issuers == g.issuers
                &&& h.delegations == g.delegations
                &&& h.voted == g.voted
                &&& h.block == g.block
                &&& h.signatures == g.signatures
            }
            &&& due && r is Ok ==> {
                &&& h.deposits == g.deposits.remove(p.proposer)
                &&& forall|a: Address|
                    !(p.proposal_type is TreasurySpend) && !(p.proposal_type is ValidatorSlash)
                        ==> #[trigger] amount_of(h.balances, a) == amount_of(g.balances, a) + if a
                        == p.proposer {
                        refund
                    } else {
                        0
                    }
                &&& p.proposal_type matches ProposalType::TreasurySpend { recipient, amount, .. }
                    ==> {
                    let moved: int = if amount_of(g.balances, p.proposer) >= amount {
                        amount as int
                    } else {
                        0
                    };
                    forall|a: Address| #[trigger]
                        amount_of(h.balances, a) == amount_of(g.balances, a) + if a == p.proposer {
                            refund - moved
                        } else {
                            0
                        } + if a == recipient {
                            moved
                        } else {
                            0
                        }
                }
                &&& p.proposal_type matches ProposalType::ValidatorSlash { validator_id, .. } ==> {
                    &&& h.validators == g.validators.remove(validator_id)
                    &&& forall|a: Address| #[trigger]
                        amount_of(h.balances, a) == if g.validators.contains_key(validator_id)
                            && g.validators[validator_id] == a {
                            0
                        } else {
                            amount_of(g.balances, a) as int
                        } + if a == p.proposer {
                            refund
                        } else {
                            0
                        }
                }
                &&& !(p.proposal_type is ValidatorSlash) ==> h.validators == g.validators
                &&& p.proposal_type matches ProposalType::EmergencyPause { reason } ==> h.paused
                    && h.reason == reason@
                &&& !(p.proposal_type is EmergencyPause) ==> h.paused == g.paused && h.reason
                    == g.reason
            }
            &&& due && r is Err ==> h.balances == g.balances && h.deposits == g.deposits
        }),
{
    let p = g.proposals[id];
    assert(!g.deposits.contains_key(p.proposer) ==> g.deposits.remove(p.proposer) =~= g.deposits);
    if let ProposalType::ValidatorSlash { validator_id, .. } = p.proposal_type {
        assert(!g.validators.contains_key(validator_id) ==> g.validators.remove(validator_id)
            =~= g.validators);
    }
}

/// A proposal expires exactly where it is queued and thirty days have passed since it could be
/// executed; the deposit on record is gone and nothing else changes.
pub proof fn law_expiry_is_exact(g: Chamber, id: u64)
    ensures
        ({
            let (r, h) = expire_effect(g, id);
            let p = g.proposals[id];
            &&& r is Ok <==> {
                &&& g.proposals.contains_key(id)
                &&& p.state == ProposalState::Queued
                &&& p.execution_block matches Some(at) && g.block >= at + 10_368_000
            }
            &&& r is Ok ==> {
                &&& h.proposals.contains_key(id)
                &&& h.proposals[id].state == ProposalState::Expired
                &&& same_terms(p, h.proposals[id])
                &&& same_votes(p, h.proposals[id])
                &&& same_but_proposal(g, h, id)
                &&& h.deposits == g.deposits.remove(p.proposer)
                &&& same_but_proposals(Chamber { deposits: h.deposits, ..g }, h)
            }
            &&& r is Err ==> h == g
        }),
{
}

/// A signature for a pause is taken exactly from a validator, and changes nothing but who has signed
/// and, where the pause begins, that the chain is paused and why. A pause ends exactly where there is
/// one; then nobody has signed for the next.
pub proof fn law_pausing_is_exact(g: Chamber, validator_id: u32, reason: Seq<char>)
    requires
        g.validators.dom().finite(),
    ensures
        ({
            let (r, h) = pause_effect(g, validator_id, reason);
            &&& r is Ok <==> g.validators.contains_key(validator_id)
            &&& r is Ok ==> {
                &&& h.signatures == g.signatures.insert(g.validators[validator_id])
                &&& h.proposals == g.proposals
                &&& same_but_proposals(
                    Chamber {
                        signatures: h.signatures,
                        paused: h.paused,
                        reason: h.reason,
                        ..g
                    },
                    h,
                )
                &&& g.paused ==> h.paused
            }
            &&& r is Err ==> h == g
        }),
        ({
            let (r, h) = resume_effect(g);
            &&& r is Ok <==> g.paused
            &&& r is Ok ==> {
                &&& !h.paused
                &&& h.reason == Seq::<char>::empty()
                &&& h.signatures == Set::<Address>::empty()
                &&& h.proposals == g.proposals
                &&& same_but_proposals(
                    Chamber {
                        signatures: h.signatures,
                        paused: h.paused,
                        reason: h.reason,
                        ..g
                    },
                    h,
                )
            }
            &&& r is Err ==> h == g
        }),
{
    if g.validators.contains_key(validator_id) && g.validators.dom().len() == 0 {
        assert(g.validators.dom() =~= Set::<u32>::empty());
        assert(g.validators.dom().contains(validator_id));
    }
}

/// Two validators of three pause the chain, and one does not; in general, where all signers are
/// validators, a pause begins with the first signature that makes them two thirds.
pub proof fn law_pause_begins_with_two_thirds(g: Chamber, validator_id: u32, reason: Seq<char>)
    requires
        g.validators.dom().finite(),
        g.validators.contains_key(validator_id),
        forall|a: Address| #[trigger] g.signatures.contains(a) ==> seated(g.validators, a),
    ensures
        pause_effect(g, validator_id, reason).0 == Ok::<bool, GovernanceError>(
            3 * g.signatures.insert(g.validators[validator_id]).len() >= 2
                * g.validators.dom().len(),
        ),
{
    let signed = g.signatures.insert(g.validators[validator_id]);
    assert(seated(g.validators, g.validators[validator_id]));
    assert(crate::protocol::governance::active_signers(signed, g.validators) =~= signed);
    if g.validators.dom().len() == 0 {
        assert(g.validators.dom() =~= Set::<u32>::empty());
        assert(g.validators.dom().contains(validator_id));
    }
}

} // verus!
