//! Balance state: balances and allowances, where a credit is expected to fit.

use crate::protocol::account::{amount_of, credit_effect, debit_effect, spend_effect};
use crate::protocol::errors::{ProtocolError, ProtocolResult};
use crate::vec_map::{distinct_keys, map_of, VecMap};
use crate::words::Address;
use vstd::prelude::*;

verus! {

/// Moving an amount between two accounts. An account that pays itself keeps what it has.
pub open spec fn transfer_effect(
    m: Map<(u64, Address), u128>,
    asset_id: u64,
    from: Address,
    to: Address,
    amount: u128,
) -> (ProtocolResult<()>, Map<(u64, Address), u128>) {
    let from_balance = amount_of(m, (asset_id, from));
    let to_balance = amount_of(m, (asset_id, to));
    if from_balance < amount {
        (Err(ProtocolError::InsufficientBalance), m)
    } else if from == to {
        (Ok(()), m)
    } else {
        (
            Ok(()),
            m.insert((asset_id, from), (from_balance - amount) as u128).insert(
                (asset_id, to),
                (to_balance + amount) as u128,
            ),
        )
    }
}

/// Moving an amount between two accounts stays in range.
pub open spec fn transfer_fits(
    m: Map<(u64, Address), u128>,
    asset_id: u64,
    from: Address,
    to: Address,
    amount: u128,
) -> bool {
    from != to && amount_of(m, (asset_id, from)) >= amount ==> amount_of(m, (asset_id, to)) + amount
        <= u128::MAX
}

/// Balances by asset and account.
#[derive(Debug)]
pub struct ProtocolBalances {
    balances: VecMap<(u64, Address), u128>,
}

impl View for ProtocolBalances {
    type V = Map<(u64, Address), u128>;

    closed spec fn view(&self) -> Map<(u64, Address), u128> {
        self.balances@
    }
}

impl ProtocolBalances {
    /// The balance of an account.
    pub open spec fn balance(self, asset_id: u64, account: Address) -> u128 {
        amount_of(self@, (asset_id, account))
    }

    pub fn new() -> (r: Self)
        ensures
            r@ == Map::<(u64, Address), u128>::empty(),
    {
        ProtocolBalances { balances: VecMap::new() }
    }

    pub fn get_balance(&self, asset_id: u64, address: &Address) -> (r: u128)
        ensures
            r == self.balance(asset_id, *address),
    {
        match self.balances.get((asset_id, *address)) {
            Some(v) => *v,
            None => 0,
        }
    }

    pub fn set_balance(&mut self, asset_id: u64, address: Address, amount: u128) -> (r:
        ProtocolResult<()>)
        ensures
            r == Ok::<(), ProtocolError>(()),
            final(self)@ == old(self)@.insert((asset_id, address), amount),
    {
        self.balances.insert((asset_id, address), amount);
        Ok(())
    }

    pub fn transfer_balance(
        &mut self,
        asset_id: u64,
        from: Address,
        to: Address,
        amount: u128,
    ) -> (r: ProtocolResult<()>)
        requires
            transfer_fits(old(self)@, asset_id, from, to, amount),
        ensures
            (r, final(self)@) == transfer_effect(old(self)@, asset_id, from, to, amount),
    {
        let from_balance: u128 = self.get_balance(asset_id, &from);
        if from_balance < amount {
            return Err(ProtocolError::InsufficientBalance);
        }
        if from == to {
            return Ok(());
        }
        let to_balance: u128 = self.get_balance(asset_id, &to);
        self.balances.insert((asset_id, from), from_balance - amount);
        self.balances.insert((asset_id, to), to_balance + amount);
        Ok(())
    }

    /// Creates an amount; who may do so is decided where instructions are executed.
    pub fn mint_balance(&mut self, asset_id: u64, issuer: &Address, to: Address, amount: u128) -> (r:
        ProtocolResult<()>)
        ensures
            (r, final(self)@) == credit_effect(old(self)@, asset_id, to, amount),
    {
        self.credit_balance(asset_id, to, amount)
    }

    pub fn burn_balance(&mut self, asset_id: u64, from: Address, amount: u128) -> (r: ProtocolResult<
        (),
    >)
        ensures
            (r, final(self)@) == debit_effect(old(self)@, asset_id, from, amount),
    {
        self.deduct_balance(asset_id, from, amount)
    }

    pub fn deduct_balance(&mut self, asset_id: u64, address: Address, amount: u128) -> (r:
        ProtocolResult<()>)
        ensures
            (r, final(self)@) == debit_effect(old(self)@, asset_id, address, amount),
    {
        let held: u128 = self.get_balance(asset_id, &address);
        if held < amount {
            return Err(ProtocolError::InsufficientBalance);
        }
        self.balances.insert((asset_id, address), held - amount);
        Ok(())
    }

    pub fn credit_balance(&mut self, asset_id: u64, address: Address, amount: u128) -> (r:
        ProtocolResult<()>)
        ensures
            (r, final(self)@) == credit_effect(old(self)@, asset_id, address, amount),
    {
        let held: u128 = self.get_balance(asset_id, &address);
        let sum: u128 = held.checked_add(amount).ok_or(ProtocolError::BalanceError("overflow"))?;
        self.balances.insert((asset_id, address), sum);
        Ok(())
    }

    /// All balances on record, each once.
    pub fn iter(&self) -> (r: &Vec<((u64, Address), u128)>)
        ensures
            distinct_keys(r@),
            map_of(r@) == self@,
    {
        self.balances.entries()
    }
}

/// Allowances by asset, owner and spender.
#[derive(Debug)]
pub struct Allowances {
    allowances: VecMap<(u64, Address, Address), u128>,
}

impl View for Allowances {
    type V = Map<(u64, Address, Address), u128>;

    closed spec fn view(&self) -> Map<(u64, Address, Address), u128> {
        self.allowances@
    }
}

impl Allowances {
    pub fn new() -> (r: Self)
        ensures
            r@ == Map::<(u64, Address, Address), u128>::empty(),
    {
        Allowances { allowances: VecMap::new() }
    }

    pub fn get_allowance(&self, asset_id: u64, owner: &Address, spender: &Address) -> (r: u128)
        ensures
            r == amount_of(self@, (asset_id, *owner, *spender)),
    {
        match self.allowances.get((asset_id, *owner, *spender)) {
            Some(v) => *v,
            None => 0,
        }
    }

    pub fn set_allowance(&mut self, asset_id: u64, owner: Address, spender: Address, amount: u128)
        ensures
            final(self)@ == old(self)@.insert((asset_id, owner, spender), amount),
    {
        self.allowances.insert((asset_id, owner, spender), amount);
    }

    pub fn spend_allowance(
        &mut self,
        asset_id: u64,
        owner: Address,
        spender: Address,
        amount: u128,
    ) -> (r: ProtocolResult<()>)
        ensures
            (r, final(self)@) == spend_effect(old(self)@, asset_id, owner, spender, amount),
    {
        let allowed: u128 = self.get_allowance(asset_id, &owner, &spender);
        if allowed < amount {
            return Err(ProtocolError::BalanceError("insufficient allowance"));
        }
        self.allowances.insert((asset_id, owner, spender), allowed - amount);
        Ok(())
    }
}

/// Balances and allowances of all accounts.
#[derive(Debug)]
pub struct BalanceState {
    pub balances: ProtocolBalances,
    pub allowances: Allowances,
}

impl BalanceState {
    pub fn new() -> (r: Self)
        ensures
            r.balances@ == Map::<(u64, Address), u128>::empty(),
            r.allowances@ == Map::<(u64, Address, Address), u128>::empty(),
    {
        BalanceState { balances: ProtocolBalances::new(), allowances: Allowances::new() }
    }

    pub fn get_balance(&self, asset_id: u64, address: &Address) -> (r: u128)
        ensures
            r == self.balances.balance(asset_id, *address),
    {
        self.balances.get_balance(asset_id, address)
    }

    pub fn transfer(&mut self, asset_id: u64, from: Address, to: Address, amount: u128) -> (r:
        ProtocolResult<()>)
        requires
            transfer_fits(old(self).balances@, asset_id, from, to, amount),
        ensures
            (r, final(self).balances@) == transfer_effect(
                old(self).balances@,
                asset_id,
                from,
                to,
                amount,
            ),
            final(self).allowances == old(self).allowances,
    {
        self.balances.transfer_balance(asset_id, from, to, amount)
    }

    pub fn mint(&mut self, asset_id: u64, issuer: &Address, to: Address, amount: u128) -> (r:
        ProtocolResult<()>)
        ensures
            (r, final(self).balances@) == credit_effect(old(self).balances@, asset_id, to, amount),
            final(self).allowances == old(self).allowances,
    {
        self.balances.mint_balance(asset_id, issuer, to, amount)
    }

    pub fn burn(&mut self, asset_id: u64, from: Address, amount: u128) -> (r: ProtocolResult<()>)
        ensures
            (r, final(self).balances@) == debit_effect(old(self).balances@, asset_id, from, amount),
            final(self).allowances == old(self).allowances,
    {
        self.balances.burn_balance(asset_id, from, amount)
    }

    pub fn deduct_balance(&mut self, asset_id: u64, address: Address, amount: u128) -> (r:
        ProtocolResult<()>)
        ensures
            (r, final(self).balances@) == debit_effect(
                old(self).balances@,
                asset_id,
                address,
                amount,
            ),
            final(self).allowances == old(self).allowances,
    {
        self.balances.deduct_balance(asset_id, address, amount)
    }

    pub fn credit_balance(&mut self, asset_id: u64, address: Address, amount: u128) -> (r:
        ProtocolResult<()>)
        ensures
            (r, final(self).balances@) == credit_effect(
                old(self).balances@,
                asset_id,
                address,
                amount,
            ),
            final(self).allowances == old(self).allowances,
    {
        self.balances.credit_balance(asset_id, address, amount)
    }
}

/// A transfer keeps what sender and recipient hold together, and touches no one else.
pub proof fn law_transfer_preserves_total(
    m: Map<(u64, Address), u128>,
    asset_id: u64,
    from: Address,
    to: Address,
    amount: u128,
)
    requires
        transfer_fits(m, asset_id, from, to, amount),
    ensures
        ({
            let n = transfer_effect(m, asset_id, from, to, amount).1;
            &&& amount_of(n, (asset_id, from)) + amount_of(n, (asset_id, to)) == amount_of(
                m,
                (asset_id, from),
            ) + amount_of(m, (asset_id, to))
            &&& forall|k: (u64, Address)|
                k != (asset_id, from) && k != (asset_id, to) ==> #[trigger] amount_of(n, k)
                    == amount_of(m, k)
        }),
{
    if from != to {
        assert((asset_id, from) != (asset_id, to));
    }
}

} // verus!
