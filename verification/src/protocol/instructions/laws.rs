//! What each instruction does to the ledger, said of its inputs and of the ledger before and after.

use crate::protocol::account::amount_of;
use crate::protocol::compliance::ComplianceStatus;
use crate::protocol::errors::ProtocolError;
use crate::protocol::instructions::exec::{
    after, asks_check, asks_perform, instruction_effect, payment_effect, payments_effect, replied,
    step, transaction_outcome, AgentReply, InstructionFailure, Ledger, Replies, Reply, Services,
    Stage,
};
use crate::protocol::instructions::types::{
    Instruction, InstructionResult, PaymentEntry, PaymentMemo,
};
use crate::protocol::registry::{Asset, AssetStatus};
use crate::words::Address;
use vstd::prelude::*;
use vstd::utf8::encode_utf8;

verus! {

/// Whether an asset is registered and neither frozen nor delisted.
pub open spec fn usable(l: Ledger, asset_id: u64) -> bool {
    l.assets.contains_key(asset_id) && l.assets[asset_id].status == AssetStatus::Active
}

/// Whether nothing is held against an account under the policy of an asset.
pub open spec fn clear(l: Ledger, asset_id: u64, account: Address) -> bool {
    let policy = l.assets[asset_id].compliance_policy;
    policy == 0 || !l.statuses.contains_key((account, policy as u64)) || l.statuses[(
        account,
        policy as u64,
    )] == ComplianceStatus::Clear
}

/// Whether the parts of a memo keep to their limits.
pub open spec fn short(memo: Option<PaymentMemo>) -> bool {
    memo matches Some(m) ==> {
        &&& encode_utf8(m.message@).len() <= 256
        &&& m.reference matches Some(r) ==> encode_utf8(r@).len() <= 128
        &&& m.metadata matches Some(d) ==> d@.len() <= 1024
    }
}

/// What an account has of an asset.
pub open spec fn has(l: Ledger, asset_id: u64, account: Address) -> int {
    amount_of(l.balances, (asset_id, account)) as int
}

/// What a spender may take of an owner's asset.
pub open spec fn may_take(l: Ledger, asset_id: u64, owner: Address, spender: Address) -> int {
    amount_of(l.allowances, (asset_id, owner, spender)) as int
}

/// From `l` to `m` an amount of one asset went from one account to another, and no other balance
/// changed.
pub open spec fn paid(
    l: Ledger,
    m: Ledger,
    asset_id: u64,
    from: Address,
    to: Address,
    amount: u128,
) -> bool {
    forall|id: u64, a: Address| #[trigger]
        has(m, id, a) == has(l, id, a) + if id == asset_id && a == to {
            amount as int
        } else {
            0
        } - if id == asset_id && a == from {
            amount as int
        } else {
            0
        }
}

/// From `l` to `m` one balance changed by `change`, and no other.
pub open spec fn changed_by(
    l: Ledger,
    m: Ledger,
    asset_id: u64,
    account: Address,
    change: int,
) -> bool {
    forall|id: u64, a: Address| #[trigger]
        has(m, id, a) == has(l, id, a) + if id == asset_id && a == account {
            change
        } else {
            0
        }
}

/// An account can pay another an amount.
pub open spec fn can_pay(
    l: Ledger,
    asset_id: u64,
    from: Address,
    to: Address,
    amount: u128,
) -> bool {
    &&& has(l, asset_id, from) >= amount
    &&& from != to ==> has(l, asset_id, to) + amount <= u128::MAX
}

/// A transfer goes through exactly where the asset is usable, the memo short, both parties clear and
/// the amount there; it moves the amount and changes nothing else. One that fails changes nothing.
pub proof fn law_transfer_is_exact(
    services: Services,
    l: Ledger,
    sender: Address,
    asset_id: u64,
    to: Address,
    amount: u128,
    memo: Option<PaymentMemo>,
    replies: Replies,
)
    requires
        replies.agent is None,
    ensures
        ({
            let (r, m) = instruction_effect(
                services,
                l,
                sender,
                Instruction::Transfer { asset_id, to, amount, memo },
                replies,
            );
            &&& r is Ok <==> {
                &&& usable(l, asset_id)
                &&& short(memo)
                &&& clear(l, asset_id, sender)
                &&& clear(l, asset_id, to)
                &&& can_pay(l, asset_id, sender, to, amount)
            }
            &&& r is Ok ==> {
                &&& r == Ok::<InstructionResult, ProtocolError>(InstructionResult::Success)
                &&& paid(l, m, asset_id, sender, to, amount)
                &&& m.allowances == l.allowances
                &&& m.nonces == l.nonces
                &&& m.assets == l.assets
                &&& m.statuses == l.statuses
            }
            &&& r is Err ==> m == l
            &&& usable(l, asset_id) && short(memo) && clear(l, asset_id, sender) && clear(
                l,
                asset_id,
                to,
            ) && has(l, asset_id, sender) < amount ==> r == Err::<InstructionResult, ProtocolError>(
                ProtocolError::InsufficientBalance,
            )
        }),
{
}

/// A transfer on behalf of another goes through exactly where the asset is usable, all three parties
/// are clear, and the amount is both allowed and there. It moves the amount, lowers the allowance of
/// the sender by it, and changes nothing else. Where less is allowed it fails and changes nothing.
pub proof fn law_transfer_from_is_exact(
    services: Services,
    l: Ledger,
    sender: Address,
    asset_id: u64,
    from: Address,
    to: Address,
    amount: u128,
    replies: Replies,
)
    requires
        replies.agent is None,
    ensures
        ({
            let (r, m) = instruction_effect(
                services,
                l,
                sender,
                Instruction::TransferFrom { asset_id, from, to, amount },
                replies,
            );
            &&& r is Ok <==> {
                &&& usable(l, asset_id)
                &&& clear(l, asset_id, sender)
                &&& clear(l, asset_id, from)
                &&& clear(l, asset_id, to)
                &&& may_take(l, asset_id, from, sender) >= amount
                &&& can_pay(l, asset_id, from, to, amount)
            }
            &&& r is Ok ==> {
                &&& paid(l, m, asset_id, from, to, amount)
                &&& may_take(m, asset_id, from, sender) == may_take(l, asset_id, from, sender)
                    - amount
                &&& forall|id: u64, a: Address, b: Address|
                    (id, a, b) != (asset_id, from, sender) ==> #[trigger] may_take(m, id, a, b)
                        == may_take(l, id, a, b)
                &&& m.nonces == l.nonces
                &&& m.assets == l.assets
                &&& m.statuses == l.statuses
            }
            &&& r is Err ==> m.balances == l.balances
            &&& may_take(l, asset_id, from, sender) < amount ==> r is Err && m == l
            &&& usable(l, asset_id) && clear(l, asset_id, sender) && clear(l, asset_id, from)
                && clear(l, asset_id, to) && may_take(l, asset_id, from, sender) < amount ==> r
                == Err::<InstructionResult, ProtocolError>(
                ProtocolError::BalanceError("insufficient allowance"),
            )
        }),
{
}

/// Repeated transfers on behalf of another never take more than was allowed.
pub proof fn law_allowance_bounds_what_is_taken(
    services: Services,
    l: Ledger,
    sender: Address,
    asset_id: u64,
    from: Address,
    to: Address,
    first: u128,
    second: u128,
    replies: Replies,
    again: Replies,
)
    requires
        replies.agent is None,
        again.agent is None,
        may_take(l, asset_id, from, sender) < first + second,
    ensures
        ({
            let (r, m) = instruction_effect(
                services,
                l,
                sender,
                Instruction::TransferFrom { asset_id, from, to, amount: first },
                replies,
            );
            let (s, n) = instruction_effect(
                services,
                m,
                sender,
                Instruction::TransferFrom { asset_id, from, to, amount: second },
                again,
            );
            r is Ok ==> s is Err && n.balances == m.balances
        }),
{
    law_transfer_from_is_exact(services, l, sender, asset_id, from, to, first, replies);
    let m = instruction_effect(
        services,
        l,
        sender,
        Instruction::TransferFrom { asset_id, from, to, amount: first },
        replies,
    ).1;
    law_transfer_from_is_exact(services, m, sender, asset_id, from, to, second, again);
}

/// An approval of a usable asset sets one allowance and changes nothing else.
pub proof fn law_approval_is_exact(
    services: Services,
    l: Ledger,
    sender: Address,
    asset_id: u64,
    spender: Address,
    amount: u128,
    replies: Replies,
)
    requires
        replies.agent is None,
    ensures
        ({
            let (r, m) = instruction_effect(
                services,
                l,
                sender,
                Instruction::Approve { asset_id, spender, amount },
                replies,
            );
            &&& r is Ok <==> usable(l, asset_id)
            &&& r is Ok ==> {
                &&& may_take(m, asset_id, sender, spender) == amount
                &&& forall|id: u64, a: Address, b: Address|
                    (id, a, b) != (asset_id, sender, spender) ==> #[trigger] may_take(m, id, a, b)
                        == may_take(l, id, a, b)
                &&& m.balances == l.balances
                &&& m.nonces == l.nonces
                &&& m.assets == l.assets
                &&& m.statuses == l.statuses
            }
            &&& r is Err ==> m == l
        }),
{
}

/// What an account is paid by the payments from the `i`-th on.
pub open spec fn paid_to(payments: Seq<PaymentEntry>, account: Address, i: int) -> int
    decreases payments.len() - i,
{
    if i >= payments.len() {
        0
    } else {
        paid_to(payments, account, i + 1) + if payments[i].to == account {
            payments[i].amount as int
        } else {
            0
        }
    }
}

/// What the payments from the `i`-th on come to.
pub open spec fn paid_in_all(payments: Seq<PaymentEntry>, i: int) -> int
    decreases payments.len() - i,
{
    if i >= payments.len() {
        0
    } else {
        payments[i].amount + paid_in_all(payments, i + 1)
    }
}

proof fn lemma_paid_to(payments: Seq<PaymentEntry>, account: Address, i: int)
    requires
        0 <= i <= payments.len(),
    ensures
        0 <= paid_to(payments, account, i) <= paid_in_all(payments, i),
    decreases payments.len() - i,
{
    if i < payments.len() {
        lemma_paid_to(payments, account, i + 1);
    }
}

/// Where an asset's rules let every payment through.
pub open spec fn all_pass(l: Ledger, asset_id: u64, payments: Seq<PaymentEntry>, i: int) -> bool {
    forall|k: int|
        i <= k < payments.len() ==> short((#[trigger] payments[k]).memo) && clear(
            l,
            asset_id,
            payments[k].to,
        )
}

/// Every account but the sender can take what it is paid.
pub open spec fn all_fit(
    l: Ledger,
    asset_id: u64,
    sender: Address,
    payments: Seq<PaymentEntry>,
    i: int,
) -> bool {
    forall|k: int|
        i <= k < payments.len() && (#[trigger] payments[k]).to != sender ==> has(
            l,
            asset_id,
            payments[k].to,
        ) + paid_to(payments, payments[k].to, i) <= u128::MAX
}

proof fn lemma_payments(
    l: Ledger,
    asset_id: u64,
    sender: Address,
    payments: Seq<PaymentEntry>,
    i: int,
)
    requires
        0 <= i <= payments.len(),
    ensures
        ({
            let (r, m) = payments_effect(l, asset_id, sender, payments, i);
            &&& r is Ok ==> {
                &&& all_pass(l, asset_id, payments, i)
                &&& forall|id: u64, a: Address| #[trigger]
                    has(m, id, a) == has(l, id, a) + if id == asset_id {
                        paid_to(payments, a, i) - if a == sender {
                            paid_in_all(payments, i)
                        } else {
                            0
                        }
                    } else {
                        0
                    }
            }
            &&& all_pass(l, asset_id, payments, i) && has(l, asset_id, sender) >= paid_in_all(
                payments,
                i,
            ) && all_fit(l, asset_id, sender, payments, i) ==> r is Ok
            &&& m.allowances == l.allowances
            &&& m.nonces == l.nonces
            &&& m.assets == l.assets
            &&& m.statuses == l.statuses
        }),
    decreases payments.len() - i,
{
    if i < payments.len() {
        let p = payments[i];
        let (r, next) = payment_effect(l, asset_id, sender, p);
        lemma_paid_to(payments, p.to, i + 1);
        if r is Ok {
            lemma_payments(next, asset_id, sender, payments, i + 1);
            assert(next.assets == l.assets && next.statuses == l.statuses);
            assert forall|k: int| i + 1 <= k < payments.len() implies clear(
                next,
                asset_id,
                (#[trigger] payments[k]).to,
            ) == clear(l, asset_id, payments[k].to) by {}
            if all_fit(l, asset_id, sender, payments, i) {
                assert forall|k: int|
                    i + 1 <= k < payments.len() && (#[trigger] payments[k]).to != sender implies has(
                    next,
                    asset_id,
                    payments[k].to,
                ) + paid_to(payments, payments[k].to, i + 1) <= u128::MAX by {
                    assert(has(l, asset_id, payments[k].to) + paid_to(
                        payments,
                        payments[k].to,
                        i,
                    ) <= u128::MAX);
                }
            }
            if all_pass(l, asset_id, payments, i) {
                assert forall|k: int| i + 1 <= k < payments.len() implies short(
                    (#[trigger] payments[k]).memo,
                ) && clear(next, asset_id, payments[k].to) by {
                    assert(short(payments[k].memo) && clear(l, asset_id, payments[k].to));
                }
            }
            let m = payments_effect(next, asset_id, sender, payments, i + 1).1;
            if payments_effect(next, asset_id, sender, payments, i + 1).0 is Ok {
                assert forall|k: int| i <= k < payments.len() implies short(
                    (#[trigger] payments[k]).memo,
                ) && clear(l, asset_id, payments[k].to) by {
                    if k > i {
                        assert(short(payments[k].memo) && clear(next, asset_id, payments[k].to));
                    }
                }
                assert forall|id: u64, a: Address| #[trigger] has(m, id, a) == has(l, id, a)
                    + if id == asset_id {
                    paid_to(payments, a, i) - if a == sender {
                        paid_in_all(payments, i)
                    } else {
                        0
                    }
                } else {
                    0
                } by {
                    assert(has(m, id, a) == has(next, id, a) + if id == asset_id {
                        paid_to(payments, a, i + 1) - if a == sender {
                            paid_in_all(payments, i + 1)
                        } else {
                            0
                        }
                    } else {
                        0
                    });
                    assert(has(next, id, a) == has(l, id, a) + if id == asset_id && a == p.to {
                        p.amount as int
                    } else {
                        0
                    } - if id == asset_id && a == sender {
                        p.amount as int
                    } else {
                        0
                    });
                }
            }
        } else {
            assert(payments[i] == p);
            lemma_paid_to(payments, sender, i + 1);
        }
    }
}

/// A batch goes through where the asset is usable, the sender and all recipients are clear, the memos
/// are short, the sender has the sum and all recipients can take what they are paid. Where it goes
/// through, the asset is usable, everyone clear and every memo short; every account gets what is paid
/// to it, the sender pays the sum, and nothing else changes.
pub proof fn law_batch_is_exact(
    services: Services,
    l: Ledger,
    sender: Address,
    asset_id: u64,
    payments: Vec<PaymentEntry>,
    replies: Replies,
)
    requires
        replies.agent is None,
    ensures
        ({
            let (r, m) = instruction_effect(
                services,
                l,
                sender,
                Instruction::BatchTransfer { asset_id, payments },
                replies,
            );
            &&& r is Ok ==> {
                &&& usable(l, asset_id)
                &&& clear(l, asset_id, sender)
                &&& all_pass(l, asset_id, payments@, 0)
                &&& forall|id: u64, a: Address| #[trigger]
                    has(m, id, a) == has(l, id, a) + if id == asset_id {
                        paid_to(payments@, a, 0) - if a == sender {
                            paid_in_all(payments@, 0)
                        } else {
                            0
                        }
                    } else {
                        0
                    }
            }
            &&& usable(l, asset_id) && clear(l, asset_id, sender) && all_pass(
                l,
                asset_id,
                payments@,
                0,
            ) && has(l, asset_id, sender) >= paid_in_all(payments@, 0) && all_fit(
                l,
                asset_id,
                sender,
                payments@,
                0,
            ) ==> r is Ok
            &&& m.allowances == l.allowances
            &&& m.nonces == l.nonces
            &&& m.assets == l.assets
            &&& m.statuses == l.statuses
        }),
{
    lemma_payments(l, asset_id, sender, payments@, 0);
}

/// Minting goes through exactly where the asset is usable, the sender is its issuer, no cap is
/// exceeded and the numbers fit. It adds the amount to one balance and to the supply on record, and
/// changes nothing else.
pub proof fn law_mint_is_exact(
    services: Services,
    l: Ledger,
    sender: Address,
    asset_id: u64,
    to: Address,
    amount: u128,
    replies: Replies,
)
    requires
        replies.agent is None,
    ensures
        ({
            let (r, m) = instruction_effect(
                services,
                l,
                sender,
                Instruction::Mint { asset_id, to, amount },
                replies,
            );
            let a = l.assets[asset_id];
            &&& r is Ok <==> {
                &&& usable(l, asset_id)
                &&& a.issuer == sender
                &&& a.max_supply == 0 || a.protocol_supply + a.evm_supply + amount <= a.max_supply
                    || (a.max_supply == u128::MAX)
                &&& a.protocol_supply + amount <= u128::MAX
                &&& has(l, asset_id, to) + amount <= u128::MAX
            }
            &&& r is Ok ==> {
                &&& changed_by(l, m, asset_id, to, amount as int)
                &&& m.assets.dom() == l.assets.dom()
                &&& m.assets[asset_id] == (Asset {
                    protocol_supply: (a.protocol_supply + amount) as u128,
                    ..a
                })
                &&& forall|id: u64|
                    id != asset_id && l.assets.contains_key(id) ==> #[trigger] m.assets[id]
                        == l.assets[id]
                &&& m.allowances == l.allowances
                &&& m.nonces == l.nonces
                &&& m.statuses == l.statuses
            }
            &&& r is Err ==> m.balances == l.balances
        }),
{
    let m = instruction_effect(
        services,
        l,
        sender,
        Instruction::Mint { asset_id, to, amount },
        replies,
    ).1;
    if l.assets.contains_key(asset_id) {
        assert(m.assets.dom() =~= l.assets.dom());
    }
}

/// Burning goes through exactly where the asset is usable, the sender is its issuer and the amount is
/// there. It takes the amount from one balance and changes nothing else.
pub proof fn law_burn_is_exact(
    services: Services,
    l: Ledger,
    sender: Address,
    asset_id: u64,
    from: Address,
    amount: u128,
    replies: Replies,
)
    requires
        replies.agent is None,
    ensures
        ({
            let (r, m) = instruction_effect(
                services,
                l,
                sender,
                Instruction::Burn { asset_id, from, amount },
                replies,
            );
            &&& r is Ok <==> {
                &&& usable(l, asset_id)
                &&& l.assets[asset_id].issuer == sender
                &&& has(l, asset_id, from) >= amount
            }
            &&& r is Ok ==> {
                &&& changed_by(l, m, asset_id, from, -(amount as int))
                &&& m.assets == l.assets
                &&& m.allowances == l.allowances
                &&& m.nonces == l.nonces
                &&& m.statuses == l.statuses
            }
            &&& r is Err ==> m == l
        }),
{
}

/// A deposit over the bridge goes through exactly where the asset is registered, a proof is given
/// and the amount fits. It adds the amount to one balance and changes nothing else.
pub proof fn law_bridge_deposit_is_exact(
    services: Services,
    l: Ledger,
    sender: Address,
    source_chain: u64,
    target_address: Address,
    amount: u128,
    asset_id: u64,
    proof_data: Vec<u8>,
    replies: Replies,
)
    requires
        replies.agent is None,
    ensures
        ({
            let (r, m) = instruction_effect(
                services,
                l,
                sender,
                Instruction::BridgeDeposit {
                    source_chain,
                    target_address,
                    amount,
                    asset_id,
                    proof: proof_data,
                },
                replies,
            );
            &&& r is Ok <==> {
                &&& l.assets.contains_key(asset_id)
                &&& proof_data@.len() > 0
                &&& has(l, asset_id, target_address) + amount <= u128::MAX
            }
            &&& r is Ok ==> {
                &&& changed_by(l, m, asset_id, target_address, amount as int)
                &&& m.assets == l.assets
                &&& m.allowances == l.allowances
                &&& m.nonces == l.nonces
                &&& m.statuses == l.statuses
            }
            &&& r is Err ==> m == l
        }),
{
}

/// A standing is changed exactly where the sender is the issuer of the asset: it is set for the
/// target under the policy of the asset, and nothing else changes.
pub proof fn law_compliance_update_is_exact(
    services: Services,
    l: Ledger,
    sender: Address,
    asset_id: u64,
    target: Address,
    status: ComplianceStatus,
    replies: Replies,
)
    requires
        replies.agent is None,
    ensures
        ({
            let (r, m) = instruction_effect(
                services,
                l,
                sender,
                Instruction::UpdateCompliance { asset_id, target, status },
                replies,
            );
            &&& r is Ok <==> l.assets.contains_key(asset_id) && l.assets[asset_id].issuer == sender
            &&& r is Ok ==> {
                let key = (target, l.assets[asset_id].compliance_policy as u64);
                &&& m.statuses.contains_key(key)
                &&& m.statuses[key] == status
                &&& forall|k: (Address, u64)|
                    k != key ==> (#[trigger] m.statuses.contains_key(k) <==> l.statuses.contains_key(k))
                        && m.statuses[k] == l.statuses[k]
                &&& m.balances == l.balances
                &&& m.allowances == l.allowances
                &&& m.nonces == l.nonces
                &&& m.assets == l.assets
            }
            &&& r is Err ==> m == l
        }),
{
}

/// Where a standing was set that is not clear, the target neither sends nor receives an asset of
/// that policy; once it is cleared again, it does.
pub proof fn law_standing_decides_transfers(
    services: Services,
    l: Ledger,
    issuer: Address,
    asset_id: u64,
    target: Address,
    status: ComplianceStatus,
    other: Address,
    amount: u128,
    replies: Replies,
)
    requires
        replies.agent is None,
        usable(l, asset_id),
        l.assets[asset_id].issuer == issuer,
        l.assets[asset_id].compliance_policy != 0,
        other != target,
        clear(l, asset_id, other),
        can_pay(l, asset_id, target, other, amount),
    ensures
        ({
            let m = instruction_effect(
                services,
                l,
                issuer,
                Instruction::UpdateCompliance { asset_id, target, status },
                replies,
            ).1;
            let sent = instruction_effect(
                services,
                m,
                target,
                Instruction::Transfer { asset_id, to: other, amount, memo: None },
                replies,
            ).0;
            let got = instruction_effect(
                services,
                m,
                other,
                Instruction::Transfer { asset_id, to: target, amount: 0, memo: None },
                replies,
            ).0;
            &&& sent is Ok <==> status == ComplianceStatus::Clear
            &&& got is Ok <==> status == ComplianceStatus::Clear
        }),
{
}

/// A withdrawal from the shielded pool goes through exactly where the pool accepts its proof and uses
/// up its nullifier, and the amount fits. It credits the target in the asset with the number 0 and
/// changes nothing else.
pub proof fn law_shielded_withdrawal_is_exact(
    services: Services,
    l: Ledger,
    sender: Address,
    instruction: Instruction,
    replies: Replies,
)
    requires
        replies.agent is None,
        instruction is ShieldedWithdraw,
    ensures
        ({
            let (r, m) = instruction_effect(services, l, sender, instruction, replies);
            let target = instruction->ShieldedWithdraw_target;
            let amount = instruction->ShieldedWithdraw_amount;
            &&& r is Ok <==> {
                &&& replies.checked.accepted
                &&& replies.performed.accepted
                &&& has(l, 0, target) + amount <= u128::MAX
            }
            &&& r is Ok ==> changed_by(l, m, 0, target, amount as int)
            &&& r is Err ==> m == l
            &&& m.allowances == l.allowances
            &&& m.nonces == l.nonces
            &&& m.assets == l.assets
            &&& m.statuses == l.statuses
        }),
{
}

/// A deposit into the shielded pool goes through exactly where the sender has the amount and the pool
/// reads the note and takes it. It takes the amount from the sender and changes nothing else.
pub proof fn law_shielded_deposit_is_exact(
    services: Services,
    l: Ledger,
    sender: Address,
    instruction: Instruction,
    replies: Replies,
)
    requires
        replies.agent is None,
        instruction is ShieldedDeposit,
    ensures
        ({
            let (r, m) = instruction_effect(services, l, sender, instruction, replies);
            let asset_id = instruction->ShieldedDeposit_asset_id;
            let amount = instruction->ShieldedDeposit_amount;
            &&& r is Ok <==> {
                &&& has(l, asset_id, sender) >= amount
                &&& replies.checked.accepted
                &&& replies.performed.accepted
            }
            &&& r is Ok ==> changed_by(l, m, asset_id, sender, -(amount as int))
            &&& has(l, asset_id, sender) < amount ==> m == l
            &&& m.allowances == l.allowances
            &&& m.nonces == l.nonces
            &&& m.assets == l.assets
            &&& m.statuses == l.statuses
        }),
{
}

/// A transfer within the shielded pool goes through exactly where the pool accepts its proof and
/// carries it out. The ledger does not change.
pub proof fn law_shielded_transfer_is_exact(
    services: Services,
    l: Ledger,
    sender: Address,
    instruction: Instruction,
    replies: Replies,
)
    requires
        replies.agent is None,
        instruction is ShieldedTransfer,
    ensures
        ({
            let (r, m) = instruction_effect(services, l, sender, instruction, replies);
            &&& r is Ok <==> replies.checked.accepted && replies.performed.accepted
            &&& m == l
        }),
{
}

/// A price goes through exactly where there is an oracle, the sender is one of its validators, the
/// signature has 64 bytes and the oracle takes it. The ledger does not change.
pub proof fn law_price_submission_is_exact(
    services: Services,
    l: Ledger,
    sender: Address,
    instruction: Instruction,
    replies: Replies,
)
    requires
        replies.agent is None,
        instruction is OracleSubmit,
    ensures
        ({
            let (r, m) = instruction_effect(services, l, sender, instruction, replies);
            &&& r is Ok <==> {
                &&& services.oracle
                &&& replies.checked.accepted
                &&& instruction->OracleSubmit_signature@.len() == 64
                &&& replies.performed.accepted
            }
            &&& m == l
        }),
{
}

/// Governance decides on what is asked of it, where it is there. A proposal goes through exactly
/// where the sender has the deposit and governance takes the proposal: the deposit is taken from the
/// sender's native balance. A pause is for validators. Nothing else changes the ledger.
pub proof fn law_governance_instructions_are_exact(
    services: Services,
    l: Ledger,
    sender: Address,
    instruction: Instruction,
    replies: Replies,
)
    requires
        replies.agent is None,
    ensures
        ({
            let (r, m) = instruction_effect(services, l, sender, instruction, replies);
            let deposit = replies.checked.number;
            &&& instruction is GovernanceSubmitProposal ==> {
                &&& r is Ok <==> services.governance && has(l, 1, sender) >= deposit
                    && replies.performed.accepted
                &&& r is Ok ==> changed_by(l, m, 1, sender, -(deposit as int))
                &&& !services.governance || has(l, 1, sender) < deposit ==> m == l
                &&& m.allowances == l.allowances
                &&& m.nonces == l.nonces
                &&& m.assets == l.assets
                &&& m.statuses == l.statuses
            }
            &&& instruction is GovernanceVote || instruction is GovernanceQueue
                || instruction is GovernanceExecute || instruction is GovernanceEmergencyResume ==> {
                &&& r is Ok <==> services.governance && replies.performed.accepted
                &&& m == l
            }
            &&& instruction is GovernanceEmergencyPause ==> {
                &&& r is Ok <==> services.governance && replies.checked.accepted
                    && replies.performed.accepted
                &&& m == l
            }
        }),
{
}

/// Instructions of agents, and those that are executed with the block, fail here and change nothing,
/// unless agents reply to them; what agents reply is the result, and the ledger does not change.
pub proof fn law_other_instructions_are_left(
    services: Services,
    l: Ledger,
    sender: Address,
    instruction: Instruction,
    replies: Replies,
)
    ensures
        ({
            let (r, m) = instruction_effect(services, l, sender, instruction, replies);
            &&& replies.agent matches Some(reply) ==> r == reply && m == l
            &&& replies.agent is None && (instruction is AgentPay || instruction is AgentBatchPay
                || instruction is AgentCall || instruction is AgentBridgeDeposit
                || instruction is RegisterAsset || instruction is BridgeToEvm
                || instruction is BridgeToProtocol || instruction is EvmIssuerMint
                || instruction is ExternalBridgeDeposit || instruction is ExternalBridgeWithdraw
                || instruction is ChallengeBridgeDeposit || instruction is ValidatorStake
                || instruction is ValidatorUnstake || instruction is ValidatorClaimUnbonded
                || instruction is RegisterAgent || instruction is GrantAgentBalance
                || instruction is RevokeAgentBalance || instruction is SubmitRollbackSignature)
                ==> r is Err && m == l
        }),
{
}

/// No instruction changes a nonce.
pub proof fn law_nonces_are_kept(
    services: Services,
    l: Ledger,
    sender: Address,
    instruction: Instruction,
    replies: Replies,
)
    ensures
        instruction_effect(services, l, sender, instruction, replies).1.nonces == l.nonces,
{
    if let Instruction::BatchTransfer { asset_id, payments } = instruction {
        lemma_payments(l, asset_id, sender, payments@, 0);
    }
}

/// A service is asked to check only what it decides on, and to carry out only what it did not refuse
/// and the sender can pay for; it is told the number that it gave.
pub proof fn law_services_are_asked_in_turn(
    services: Services,
    l: Ledger,
    sender: Address,
    instruction: Instruction,
    checked: Reply,
)
    ensures
        asks_check(services, l, sender, instruction) <==> {
            ||| instruction is ShieldedTransfer
            ||| instruction is ShieldedWithdraw
            ||| instruction is ShieldedDeposit && has(
                l,
                instruction->ShieldedDeposit_asset_id,
                sender,
            ) >= instruction->ShieldedDeposit_amount
            ||| instruction is OracleSubmit && services.oracle
            ||| (instruction is GovernanceSubmitProposal || instruction is GovernanceEmergencyPause)
                && services.governance
        },
        asks_perform(services, l, sender, instruction, checked) is Some <==> {
            ||| (instruction is ShieldedTransfer || instruction is ShieldedWithdraw)
                && checked.accepted
            ||| instruction is ShieldedDeposit && has(
                l,
                instruction->ShieldedDeposit_asset_id,
                sender,
            ) >= instruction->ShieldedDeposit_amount && checked.accepted
            ||| instruction is OracleSubmit && services.oracle && checked.accepted
                && instruction->OracleSubmit_signature@.len() == 64
            ||| instruction is GovernanceSubmitProposal && services.governance && has(l, 1, sender)
                >= checked.number
            ||| instruction is GovernanceEmergencyPause && services.governance && checked.accepted
            ||| (instruction is GovernanceVote || instruction is GovernanceQueue
                || instruction is GovernanceExecute || instruction is GovernanceEmergencyResume)
                && services.governance
        },
        asks_perform(services, l, sender, instruction, checked) matches Some(with) ==> with
            == checked.number,
{
}

/// Agents are asked first, about the instruction and its sender. A service is asked about the same
/// where agents leave the instruction: to check it, and then to carry it out with the number that it
/// gave. Whoever is not asked has accepted nothing.
pub proof fn law_replies_are_to_the_instruction<
    A: Fn(&Instruction, Address) -> AgentReply,
    S: Fn(&Instruction, Address, Stage) -> Reply,
>(
    agent: A,
    service: S,
    services: Services,
    l: Ledger,
    sender: Address,
    instruction: Instruction,
    replies: Replies,
)
    requires
        replied(agent, service, services, l, sender, instruction, replies),
    ensures
        agent.ensures((&instruction, sender), replies.agent),
        replies.checked.accepted || replies.checked.number != 0 ==> replies.agent is None
            && asks_check(services, l, sender, instruction) && service.ensures(
            (&instruction, sender, Stage::Check),
            replies.checked,
        ),
        replies.performed.accepted ==> replies.agent is None && asks_perform(
            services,
            l,
            sender,
            instruction,
            replies.checked,
        ) is Some && service.ensures(
            (&instruction, sender, Stage::Perform { with: replies.checked.number }),
            replies.performed,
        ),
        replies.agent is None && asks_check(services, l, sender, instruction) ==> service.ensures(
            (&instruction, sender, Stage::Check),
            replies.checked,
        ),
{
}

/// Nothing goes through that a service was not asked to carry out and did not accept.
pub proof fn law_nothing_goes_through_unasked(
    services: Services,
    l: Ledger,
    sender: Address,
    instruction: Instruction,
    replies: Replies,
)
    requires
        replies.agent is None,
        instruction is ShieldedTransfer || instruction is ShieldedWithdraw
            || instruction is ShieldedDeposit || instruction is OracleSubmit
            || instruction is GovernanceSubmitProposal || instruction is GovernanceVote
            || instruction is GovernanceQueue || instruction is GovernanceExecute
            || instruction is GovernanceEmergencyPause || instruction is GovernanceEmergencyResume,
        instruction_effect(services, l, sender, instruction, replies).0 is Ok,
    ensures
        asks_perform(services, l, sender, instruction, replies.checked) is Some,
        replies.performed.accepted,
{
}

/// A transaction that succeeds takes the ledger from one instruction to the next: there is a ledger
/// before each and after the last, every instruction succeeds on the one before it and leaves the
/// next, and the last is what the transaction leaves.
pub proof fn law_transaction_runs_in_order(
    services: Services,
    l: Ledger,
    sender: Address,
    instructions: Seq<Instruction>,
    replies: Seq<Replies>,
    results: Seq<InstructionResult>,
    end: Ledger,
) -> (stages: Seq<Ledger>)
    requires
        transaction_outcome(services, l, sender, instructions, replies, Ok(results), end),
    ensures
        stages.len() == instructions.len() + 1,
        stages[0] == l,
        stages[instructions.len() as int] == end,
        results.len() == instructions.len(),
        replies.len() == instructions.len(),
        forall|i: int|
            0 <= i < instructions.len() ==> instruction_effect(
                services,
                stages[i],
                sender,
                #[trigger] instructions[i],
                replies[i],
            ) == (Ok::<InstructionResult, ProtocolError>(results[i]), stages[i + 1]),
{
    let stages = Seq::new(
        instructions.len() + 1,
        |i: int| after(services, l, sender, instructions, replies, i),
    );
    assert forall|i: int| 0 <= i < instructions.len() implies instruction_effect(
        services,
        stages[i],
        sender,
        #[trigger] instructions[i],
        replies[i],
    ) == (Ok::<InstructionResult, ProtocolError>(results[i]), stages[i + 1]) by {
        assert(step(services, l, sender, instructions, replies, i) == Ok::<
            InstructionResult,
            ProtocolError,
        >(results[i]));
    }
    stages
}

/// A transaction that fails does so at an instruction that fails on what the ones before it left,
/// and these all succeeded; it reports that place and that error, and the ledger is as it was.
pub proof fn law_transaction_fails_at_first_failure(
    services: Services,
    l: Ledger,
    sender: Address,
    instructions: Seq<Instruction>,
    replies: Seq<Replies>,
    failure: InstructionFailure,
    end: Ledger,
) -> (stages: Seq<Ledger>)
    requires
        transaction_outcome(services, l, sender, instructions, replies, Err(failure), end),
    ensures
        end == l,
        failure.index < instructions.len(),
        replies.len() == failure.index + 1,
        stages.len() == failure.index + 1,
        stages[0] == l,
        forall|i: int|
            0 <= i < failure.index ==> {
                &&& instruction_effect(
                    services,
                    stages[i],
                    sender,
                    #[trigger] instructions[i],
                    replies[i],
                ).0 is Ok
                &&& instruction_effect(
                    services,
                    stages[i],
                    sender,
                    instructions[i],
                    replies[i],
                ).1 == stages[i + 1]
            },
        instruction_effect(
            services,
            stages[failure.index as int],
            sender,
            instructions[failure.index as int],
            replies[failure.index as int],
        ).0 == Err::<InstructionResult, ProtocolError>(failure.error),
{
    let stages = Seq::new(
        (failure.index + 1) as nat,
        |i: int| after(services, l, sender, instructions, replies, i),
    );
    assert forall|i: int| 0 <= i < failure.index implies instruction_effect(
        services,
        stages[i],
        sender,
        #[trigger] instructions[i],
        replies[i],
    ).0 is Ok && instruction_effect(
        services,
        stages[i],
        sender,
        instructions[i],
        replies[i],
    ).1 == stages[i + 1] by {
        assert(step(services, l, sender, instructions, replies, i) is Ok);
    }
    stages
}

} // verus!
