//! What the governance calls come to, said of the call and the slots.

use crate::precompiles::abi::{number_word, selector_of, u64_at, word_at};
use crate::precompiles::governance::{
    emergency_pause_effect, emergency_resume_effect, execute_effect, get_count_effect,
    get_status_effect, get_votes_effect, governance_effect, is_paused_effect, queue_effect,
    submit_proposal_effect, vote_effect,
};
use crate::precompiles::slots::{
    asset_address, balance_slot, governance_address, proposal_slot, tag_slot, validator_address,
    validator_slot, voter_slot,
};
use crate::precompiles::steps::{able, group_steps};
use crate::precompiles::storage::{Fault, Outcome, World};
use crate::words::{address_word, u64_of, u8_of, word, zero_word, Address, U256};
use vstd::prelude::*;

verus! {

/// What is on record about a proposal.
pub open spec fn noted(w: World, id: u64, name: &str) -> U256 {
    w.slot(governance_address(), proposal_slot(id, name))
}

/// What an account holds of the native asset.
pub open spec fn held(w: World, account: Address) -> int {
    w.slot(asset_address(), balance_slot(1, account)).lo as int
}

/// A proposal is entered exactly where the proposer can put down 10 000 of the native asset and the
/// count has room. It gets the next number and is open to votes, with none so far.
pub proof fn law_submission_is_exact(w: World, input: Seq<u8>, sender: Address)
    requires
        able(w, 500_000),
    ensures
        ({
            let (o, after) = submit_proposal_effect(w, input, sender);
            let count = u64_of(w.slot(governance_address(), zero_word()));
            let id = (count + 1) as u64;
            let g = governance_address();
            &&& o is Done <==> input.len() >= 100 && held(w, sender) >= 10_000 && count < u64::MAX
            &&& input.len() < 100 || held(w, sender) < 10_000 ==> after.slots == w.slots
            &&& o is Done ==> after.slots == w.slots.insert(
                (asset_address(), balance_slot(1, sender)),
                word((held(w, sender) - 10_000) as u128),
            ).insert((g, zero_word()), word(id as u128)).insert(
                (g, proposal_slot(id, "proposer")),
                address_word(sender),
            ).insert((g, proposal_slot(id, "title")), word_at(input, 4)).insert(
                (g, proposal_slot(id, "desc")),
                word_at(input, 36),
            ).insert((g, proposal_slot(id, "data")), word_at(input, 68)).insert(
                (g, proposal_slot(id, "status")),
                word(1),
            ).insert((g, proposal_slot(id, "votes_for")), zero_word()).insert(
                (g, proposal_slot(id, "votes_against")),
                zero_word(),
            ).insert((g, proposal_slot(id, "votes_abstain")), zero_word()).insert(
                (g, proposal_slot(id, "deposit")),
                word(10_000),
            )
        }),
{
    broadcast use group_steps;

}

/// A vote counts exactly where the proposal is open and the voter has not voted on it: 1 for, 2
/// against, 3 abstaining. The voter's vote is recorded and just its tally rises by one.
pub proof fn law_vote_is_exact(w: World, input: Seq<u8>, sender: Address)
    requires
        able(w, 200_000),
        input.len() >= 68 ==> {
            let id = u64_at(input, 4);
            &&& voter_slot(id, sender) != proposal_slot(id, "votes_for")
            &&& voter_slot(id, sender) != proposal_slot(id, "votes_against")
            &&& voter_slot(id, sender) != proposal_slot(id, "votes_abstain")
        },
    ensures
        ({
            let (o, after) = vote_effect(w, input, sender);
            let id = u64_at(input, 4);
            let vote = input[67];
            let g = governance_address();
            let name = if vote == 1 {
                "votes_for"
            } else if vote == 2 {
                "votes_against"
            } else {
                "votes_abstain"
            };
            let good = {
                &&& input.len() >= 68
                &&& 1 <= vote <= 3
                &&& u8_of(noted(w, id, "status")) == 1
                &&& w.slot(g, voter_slot(id, sender)) == zero_word()
            };
            &&& o is Done <==> good && noted(w, id, name).lo < u128::MAX
            &&& !good ==> o is Failed && after.slots == w.slots
            &&& o is Done ==> after.slots == w.slots.insert(
                (g, voter_slot(id, sender)),
                word(vote as u128),
            ).insert(
                (g, proposal_slot(id, name)),
                word((noted(w, id, name).lo + 1) as u128),
            )
        }),
{
    broadcast use group_steps;

}

/// A proposal is queued exactly where it is open, somebody has voted, and at least 33.33% of all
/// votes are in favour. It is queued as of this block.
pub proof fn law_queue_is_exact(w: World, input: Seq<u8>)
    requires
        able(w, 200_000),
        ({
            let id = u64_at(input, 4);
            let all = noted(w, id, "votes_for").lo + noted(w, id, "votes_against").lo + noted(
                w,
                id,
                "votes_abstain",
            ).lo;
            all * 10_000 <= u128::MAX
        }),
    ensures
        ({
            let (o, after) = queue_effect(w, input);
            let id = u64_at(input, 4);
            let g = governance_address();
            let yes = noted(w, id, "votes_for").lo;
            let all = yes + noted(w, id, "votes_against").lo + noted(w, id, "votes_abstain").lo;
            &&& o is Done <==> {
                &&& input.len() >= 36
                &&& u8_of(noted(w, id, "status")) == 1
                &&& all > 0
                &&& yes * 10_000 >= all * 3_333
            }
            &&& o is Failed ==> after.slots == w.slots
            &&& o is Done ==> after.slots == w.slots.insert(
                (g, proposal_slot(id, "status")),
                word(2),
            ).insert((g, proposal_slot(id, "queued_at")), word(w.block_number as u128))
        }),
{
    broadcast use group_steps;

}

/// A proposal is executed exactly where it is queued and 100 blocks have passed since.
pub proof fn law_execution_is_exact(w: World, input: Seq<u8>)
    requires
        able(w, 200_000),
    ensures
        ({
            let (o, after) = execute_effect(w, input);
            let id = u64_at(input, 4);
            &&& o is Done <==> {
                &&& input.len() >= 36
                &&& u8_of(noted(w, id, "status")) == 2
                &&& w.block_number >= u64_of(noted(w, id, "queued_at")) + 100
            }
            &&& o is Failed ==> after.slots == w.slots
            &&& o is Done ==> after.slots == w.slots.insert(
                (governance_address(), proposal_slot(id, "status")),
                word(3),
            )
        }),
{
    broadcast use group_steps;

}

/// A validator, and nobody else, stops and resumes; the reason is kept while it is stopped.
pub proof fn law_stop_is_exact(w: World, input: Seq<u8>, sender: Address)
    requires
        able(w, 200_000),
    ensures
        ({
            let (o, after) = emergency_pause_effect(w, input, sender);
            let (o2, after2) = emergency_resume_effect(w, input, sender);
            let g = governance_address();
            let validator = u64_of(
                w.slot(validator_address(), validator_slot(sender, "validator_id")),
            ) != 0;
            &&& o is Done <==> input.len() >= 36 && validator
            &&& o is Done ==> after.slots == w.slots.insert((g, tag_slot("paused")), word(1)).insert(
                (g, tag_slot("pause_reason")),
                word_at(input, 4),
            )
            &&& o is Failed ==> after.slots == w.slots
            &&& o2 is Done <==> input.len() >= 4 && validator
            &&& o2 is Done ==> after2.slots == w.slots.insert(
                (g, tag_slot("paused")),
                zero_word(),
            ).insert((g, tag_slot("pause_reason")), zero_word())
            &&& o2 is Failed ==> after2.slots == w.slots
        }),
{
    broadcast use group_steps;

}

/// What is asked is answered with what is on record, and asking changes no slot.
pub proof fn law_governance_answers(w: World, input: Seq<u8>)
    requires
        able(w, 20_000),
        input.len() >= 36,
    ensures
        ({
            let id = u64_at(input, 4);
            let (status, w1) = get_status_effect(w, input);
            let (votes, w2) = get_votes_effect(w, input);
            let (stopped, w3) = is_paused_effect(w, input);
            let (count, w4) = get_count_effect(w, input);
            &&& status is Done && status->data == number_word(
                u8_of(noted(w, id, "status")) as nat,
                1,
            )
            &&& votes is Done && votes->data == number_word(
                noted(w, id, "votes_for").lo as nat,
                16,
            ) + number_word(noted(w, id, "votes_against").lo as nat, 16) + number_word(
                noted(w, id, "votes_abstain").lo as nat,
                16,
            )
            &&& stopped is Done && stopped->data == number_word(
                if u8_of(w.slot(governance_address(), tag_slot("paused"))) == 1 {
                    1
                } else {
                    0
                },
                1,
            )
            &&& count is Done && count->data == number_word(
                u64_of(w.slot(governance_address(), zero_word())) as nat,
                8,
            )
            &&& w1.slots == w.slots && w2.slots == w.slots && w3.slots == w.slots && w4.slots
                == w.slots
        }),
{
    broadcast use group_steps;

}

/// The first four bytes of the call decide what it does, and its price; any others are refused and
/// change nothing.
pub proof fn law_governance_selectors(w: World, calldata: Seq<u8>, sender: Address)
    requires
        calldata.len() >= 4,
    ensures
        ({
            let s = selector_of(calldata);
            let r = governance_effect(w, calldata, sender);
            let out = Outcome::Failed(Fault::OutOfGas);
            &&& s == 0x13169e1c ==> r == submit_proposal_effect(w, calldata, sender)
            &&& s == 0x023d033b ==> r == vote_effect(w, calldata, sender)
            &&& s == 0xfe72d010 ==> r == queue_effect(w, calldata)
            &&& s == 0x50f701f4 ==> r == execute_effect(w, calldata)
            &&& s == 0x7b391c64 ==> r == emergency_pause_effect(w, calldata, sender)
            &&& s == 0x597c1a8d ==> r == emergency_resume_effect(w, calldata, sender)
            &&& s == 0x7d62d795 ==> r == get_status_effect(w, calldata)
            &&& s == 0xeb795856 ==> r == get_votes_effect(w, calldata)
            &&& s == 0x2dfe3874 ==> r == is_paused_effect(w, calldata)
            &&& s == 0x96ce4373 ==> r == get_count_effect(w, calldata)
            &&& s == 0x13169e1c ==> (r.0 == out <==> w.gas < 50_000)
            &&& s == 0x7b391c64 ==> (r.0 == out <==> w.gas < 30_000)
            &&& s == 0x023d033b || s == 0xfe72d010 || s == 0x50f701f4 || s == 0x597c1a8d ==> (r.0
                == out <==> w.gas < 20_000)
            &&& s != 0x13169e1c && s != 0x023d033b && s != 0xfe72d010 && s != 0x50f701f4 && s
                != 0x7b391c64 && s != 0x597c1a8d && s != 0x7d62d795 && s != 0xeb795856 && s
                != 0x2dfe3874 && s != 0x96ce4373 ==> r.0 is Failed && r.1 == w
        }),
{
    reveal(World::charge);
}

} // verus!
