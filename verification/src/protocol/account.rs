//! Account state: balances, allowances and nonces.

use crate::protocol::errors::{ProtocolError, ProtocolResult};
use crate::vec_map::{distinct_keys, map_of, VecMap};
use crate::words::Address;
use vstd::prelude::*;

verus! {

/// The amount bound to `k`, or nothing.
pub open spec fn amount_of<K>(m: Map<K, u128>, k: K) -> u128 {
    if m.contains_key(k) {
        m[k]
    } else {
        0
    }
}

/// Moving an amount between two accounts. An account that pays itself keeps what it has.
pub open spec fn transfer_effect(
    m: Map<(u64, Address), u128>,
    asset_id: u64,
    from: Address,
    to: Address,
    amount: u128,
) -> (ProtocolResult<()>, Map<(u64, Address), u128>) {
    let from_balance = amount_of(m, (asset_id, from));
    let to_balance = amount_of(m, (asset_id, to));
    if from_balance < amount {
        (Err(ProtocolError::InsufficientBalance), m)
    } else if from == to {
        (Ok(()), m)
    } else if to_balance + amount > u128::MAX {
        (Err(ProtocolError::BalanceError("overflow")), m)
    } else {
        (
            Ok(()),
            m.insert((asset_id, from), (from_balance - amount) as u128).insert(
                (asset_id, to),
                (to_balance + amount) as u128,
            ),
        )
    }
}

/// Adding to an account.
pub open spec fn credit_effect(
    m: Map<(u64, Address), u128>,
    asset_id: u64,
    account: Address,
    amount: u128,
) -> (ProtocolResult<()>, Map<(u64, Address), u128>) {
    let held = amount_of(m, (asset_id, account));
    if held + amount > u128::MAX {
        (Err(ProtocolError::BalanceError("overflow")), m)
    } else {
        (Ok(()), m.insert((asset_id, account), (held + amount) as u128))
    }
}

/// Taking from an account.
pub open spec fn debit_effect(
    m: Map<(u64, Address), u128>,
    asset_id: u64,
    account: Address,
    amount: u128,
) -> (ProtocolResult<()>, Map<(u64, Address), u128>) {
    let held = amount_of(m, (asset_id, account));
    if held < amount {
        (Err(ProtocolError::InsufficientBalance), m)
    } else {
        (Ok(()), m.insert((asset_id, account), (held - amount) as u128))
    }
}

/// Balances by asset and account.
#[derive(Debug)]
pub struct AccountBalances {
    balances: VecMap<(u64, Address), u128>,
}

impl View for AccountBalances {
    type V = Map<(u64, Address), u128>;

    closed spec fn view(&self) -> Map<(u64, Address), u128> {
        self.balances@
    }
}

impl AccountBalances {
    /// The balance of an account.
    pub open spec fn balance(self, asset_id: u64, account: Address) -> u128 {
        amount_of(self@, (asset_id, account))
    }

    pub fn new() -> (r: Self)
        ensures
            r@ == Map::<(u64, Address), u128>::empty(),
    {
        AccountBalances { balances: VecMap::new() }
    }

    pub fn get_balance(&self, asset_id: u64, address: &Address) -> (r: u128)
        ensures
            r == self.balance(asset_id, *address),
    {
        match self.balances.get((asset_id, *address)) {
            Some(v) => *v,
            None => 0,
        }
    }

    pub fn set_balance(&mut self, asset_id: u64, address: Address, amount: u128) -> (r:
        ProtocolResult<()>)
        ensures
            r == Ok::<(), ProtocolError>(()),
            final(self)@ == old(self)@.insert((asset_id, address), amount),
    {
        self.balances.insert((asset_id, address), amount);
        Ok(())
    }

    pub fn transfer_balance(
        &mut self,
        asset_id: u64,
        from: Address,
        to: Address,
        amount: u128,
    ) -> (r: ProtocolResult<()>)
        ensures
            (r, final(self)@) == transfer_effect(old(self)@, asset_id, from, to, amount),
    {
        let from_balance: u128 = self.get_balance(asset_id, &from);
        if from_balance < amount {
            return Err(ProtocolError::InsufficientBalance);
        }
        if from == to {
            return Ok(());
        }
        let to_balance: u128 = self.get_balance(asset_id, &to);
        let credited: u128 = to_balance.checked_add(amount).ok_or(
            ProtocolError::BalanceError("overflow"),
        )?;
        self.balances.insert((asset_id, from), from_balance - amount);
        self.balances.insert((asset_id, to), credited);
        Ok(())
    }

    /// Creates an amount; who may do so is decided where instructions are executed.
    pub fn mint_balance(&mut self, asset_id: u64, issuer: &Address, to: Address, amount: u128) -> (r:
        ProtocolResult<()>)
        ensures
            (r, final(self)@) == credit_effect(old(self)@, asset_id, to, amount),
    {
        self.credit_balance(asset_id, to, amount)
    }

    pub fn burn_balance(&mut self, asset_id: u64, from: Address, amount: u128) -> (r: ProtocolResult<
        (),
    >)
        ensures
            (r, final(self)@) == debit_effect(old(self)@, asset_id, from, amount),
    {
        self.deduct_balance(asset_id, from, amount)
    }

    pub fn deduct_balance(&mut self, asset_id: u64, address: Address, amount: u128) -> (r:
        ProtocolResult<()>)
        ensures
            (r, final(self)@) == debit_effect(old(self)@, asset_id, address, amount),
    {
        let held: u128 = self.get_balance(asset_id, &address);
        if held < amount {
            return Err(ProtocolError::InsufficientBalance);
        }
        self.balances.insert((asset_id, address), held - amount);
        Ok(())
    }

    pub fn credit_balance(&mut self, asset_id: u64, address: Address, amount: u128) -> (r:
        ProtocolResult<()>)
        ensures
            (r, final(self)@) == credit_effect(old(self)@, asset_id, address, amount),
    {
        let held: u128 = self.get_balance(asset_id, &address);
        let sum: u128 = held.checked_add(amount).ok_or(ProtocolError::BalanceError("overflow"))?;
        self.balances.insert((asset_id, address), sum);
        Ok(())
    }

    /// All balances on record, each once.
    pub fn iter(&self) -> (r: &Vec<((u64, Address), u128)>)
        ensures
            distinct_keys(r@),
            map_of(r@) == self@,
    {
        self.balances.entries()
    }

    /// The map of balances.
    pub fn balances_map(&self) -> (r: &VecMap<(u64, Address), u128>)
        ensures
            r@ == self@,
    {
        &self.balances
    }

    pub fn duplicate(&self) -> (r: Self)
        ensures
            r@ == self@,
    {
        AccountBalances { balances: self.balances.duplicate() }
    }
}

/// Allowances by asset, owner and spender.
#[derive(Debug)]
pub struct Allowances {
    allowances: VecMap<(u64, Address, Address), u128>,
}

impl View for Allowances {
    type V = Map<(u64, Address, Address), u128>;

    closed spec fn view(&self) -> Map<(u64, Address, Address), u128> {
        self.allowances@
    }
}

/// Using up part of an allowance.
pub open spec fn spend_effect(
    m: Map<(u64, Address, Address), u128>,
    asset_id: u64,
    owner: Address,
    spender: Address,
    amount: u128,
) -> (ProtocolResult<()>, Map<(u64, Address, Address), u128>) {
    let allowed = amount_of(m, (asset_id, owner, spender));
    if allowed < amount {
        (Err(ProtocolError::BalanceError("insufficient allowance")), m)
    } else {
        (Ok(()), m.insert((asset_id, owner, spender), (allowed - amount) as u128))
    }
}

impl Allowances {
    pub fn new() -> (r: Self)
        ensures
            r@ == Map::<(u64, Address, Address), u128>::empty(),
    {
        Allowances { allowances: VecMap::new() }
    }

    pub fn get_allowance(&self, asset_id: u64, owner: &Address, spender: &Address) -> (r: u128)
        ensures
            r == amount_of(self@, (asset_id, *owner, *spender)),
    {
        match self.allowances.get((asset_id, *owner, *spender)) {
            Some(v) => *v,
            None => 0,
        }
    }

    pub fn set_allowance(&mut self, asset_id: u64, owner: Address, spender: Address, amount: u128)
        ensures
            final(self)@ == old(self)@.insert((asset_id, owner, spender), amount),
    {
        self.allowances.insert((asset_id, owner, spender), amount);
    }

    pub fn spend_allowance(
        &mut self,
        asset_id: u64,
        owner: Address,
        spender: Address,
        amount: u128,
    ) -> (r: ProtocolResult<()>)
        ensures
            (r, final(self)@) == spend_effect(old(self)@, asset_id, owner, spender, amount),
    {
        let allowed: u128 = self.get_allowance(asset_id, &owner, &spender);
        if allowed < amount {
            return Err(ProtocolError::BalanceError("insufficient allowance"));
        }
        self.allowances.insert((asset_id, owner, spender), allowed - amount);
        Ok(())
    }

    /// The map of allowances.
    pub fn allowances_map(&self) -> (r: &VecMap<(u64, Address, Address), u128>)
        ensures
            r@ == self@,
    {
        &self.allowances
    }

    pub fn duplicate(&self) -> (r: Self)
        ensures
            r@ == self@,
    {
        Allowances { allowances: self.allowances.duplicate() }
    }
}

/// Nonces by account, against replay: a nonce goes up whenever a transaction of the account is
/// taken into a block.
#[derive(Debug)]
pub struct AccountNonces {
    nonces: VecMap<Address, u64>,
}

impl View for AccountNonces {
    type V = Map<Address, u64>;

    closed spec fn view(&self) -> Map<Address, u64> {
        self.nonces@
    }
}

/// The nonce of an account, starting from zero.
pub open spec fn nonce_of(m: Map<Address, u64>, account: Address) -> u64 {
    if m.contains_key(account) {
        m[account]
    } else {
        0
    }
}

/// The nonce after `n`; the last one stays.
pub open spec fn next_nonce(n: u64) -> u64 {
    if n == u64::MAX {
        n
    } else {
        (n + 1) as u64
    }
}

/// Whether a nonce is the one that is expected.
pub open spec fn nonce_check(expected: u64, nonce: u64) -> ProtocolResult<()> {
    if nonce == expected {
        Ok(())
    } else {
        Err(ProtocolError::NonceError { expected, got: nonce })
    }
}

impl AccountNonces {
    pub fn new() -> (r: Self)
        ensures
            r@ == Map::<Address, u64>::empty(),
    {
        AccountNonces { nonces: VecMap::new() }
    }

    pub fn get_nonce(&self, address: &Address) -> (r: u64)
        ensures
            r == nonce_of(self@, *address),
    {
        match self.nonces.get(*address) {
            Some(n) => *n,
            None => 0,
        }
    }

    pub fn set_nonce(&mut self, address: Address, nonce: u64)
        ensures
            final(self)@ == old(self)@.insert(address, nonce),
    {
        self.nonces.insert(address, nonce);
    }

    /// Moves the nonce of an account on, and returns it.
    pub fn increment_nonce(&mut self, address: Address) -> (r: u64)
        ensures
            r == next_nonce(nonce_of(old(self)@, address)),
            final(self)@ == old(self)@.insert(address, r),
    {
        let next: u64 = self.get_nonce(&address).saturating_add(1);
        self.nonces.insert(address, next);
        next
    }

    pub fn validate_nonce(&self, address: &Address, nonce: u64) -> (r: ProtocolResult<()>)
        ensures
            r == nonce_check(nonce_of(self@, *address), nonce),
    {
        let expected: u64 = self.get_nonce(address);
        if nonce != expected {
            return Err(ProtocolError::NonceError { expected, got: nonce });
        }
        Ok(())
    }

    pub fn duplicate(&self) -> (r: Self)
        ensures
            r@ == self@,
    {
        AccountNonces { nonces: self.nonces.duplicate() }
    }
}

/// Balances, allowances and nonces of all accounts.
#[derive(Debug)]
pub struct AccountState {
    pub balances: AccountBalances,
    pub allowances: Allowances,
    pub nonces: AccountNonces,
}

impl AccountState {
    pub fn new() -> (r: Self)
        ensures
            r.balances@ == Map::<(u64, Address), u128>::empty(),
            r.allowances@ == Map::<(u64, Address, Address), u128>::empty(),
            r.nonces@ == Map::<Address, u64>::empty(),
    {
        AccountState { balances: AccountBalances::new(), allowances: Allowances::new(), nonces: AccountNonces::new() }
    }

    pub fn get_balance(&self, asset_id: u64, address: &Address) -> (r: u128)
        ensures
            r == self.balances.balance(asset_id, *address),
    {
        self.balances.get_balance(asset_id, address)
    }

    pub fn transfer(&mut self, asset_id: u64, from: Address, to: Address, amount: u128) -> (r:
        ProtocolResult<()>)
        ensures
            (r, final(self).balances@) == transfer_effect(
                old(self).balances@,
                asset_id,
                from,
                to,
                amount,
            ),
            final(self).allowances == old(self).allowances,
            final(self).nonces == old(self).nonces,
    {
        self.balances.transfer_balance(asset_id, from, to, amount)
    }

    pub fn mint(&mut self, asset_id: u64, issuer: &Address, to: Address, amount: u128) -> (r:
        ProtocolResult<()>)
        ensures
            (r, final(self).balances@) == credit_effect(old(self).balances@, asset_id, to, amount),
            final(self).allowances == old(self).allowances,
            final(self).nonces == old(self).nonces,
    {
        self.balances.mint_balance(asset_id, issuer, to, amount)
    }

    pub fn burn(&mut self, asset_id: u64, from: Address, amount: u128) -> (r: ProtocolResult<()>)
        ensures
            (r, final(self).balances@) == debit_effect(old(self).balances@, asset_id, from, amount),
            final(self).allowances == old(self).allowances,
            final(self).nonces == old(self).nonces,
    {
        self.balances.burn_balance(asset_id, from, amount)
    }

    pub fn deduct_balance(&mut self, asset_id: u64, address: Address, amount: u128) -> (r:
        ProtocolResult<()>)
        ensures
            (r, final(self).balances@) == debit_effect(
                old(self).balances@,
                asset_id,
                address,
                amount,
            ),
            final(self).allowances == old(self).allowances,
            final(self).nonces == old(self).nonces,
    {
        self.balances.deduct_balance(asset_id, address, amount)
    }

    pub fn credit_balance(&mut self, asset_id: u64, address: Address, amount: u128) -> (r:
        ProtocolResult<()>)
        ensures
            (r, final(self).balances@) == credit_effect(
                old(self).balances@,
                asset_id,
                address,
                amount,
            ),
            final(self).allowances == old(self).allowances,
            final(self).nonces == old(self).nonces,
    {
        self.balances.credit_balance(asset_id, address, amount)
    }

    pub fn get_nonce(&self, address: &Address) -> (r: u64)
        ensures
            r == nonce_of(self.nonces@, *address),
    {
        self.nonces.get_nonce(address)
    }

    pub fn increment_nonce(&mut self, address: Address) -> (r: u64)
        ensures
            r == next_nonce(nonce_of(old(self).nonces@, address)),
            final(self).nonces@ == old(self).nonces@.insert(address, r),
            final(self).balances == old(self).balances,
            final(self).allowances == old(self).allowances,
    {
        self.nonces.increment_nonce(address)
    }

    pub fn validate_nonce(&self, address: &Address, nonce: u64) -> (r: ProtocolResult<()>)
        ensures
            r == nonce_check(nonce_of(self.nonces@, *address), nonce),
    {
        self.nonces.validate_nonce(address, nonce)
    }

    pub fn duplicate(&self) -> (r: Self)
        ensures
            r.balances@ == self.balances@,
            r.allowances@ == self.allowances@,
            r.nonces@ == self.nonces@,
    {
        AccountState {
            balances: self.balances.duplicate(),
            allowances: self.allowances.duplicate(),
            nonces: self.nonces.duplicate(),
        }
    }
}

/// A transfer keeps what sender and recipient hold together, and touches no one else.
pub proof fn law_transfer_preserves_total(
    m: Map<(u64, Address), u128>,
    asset_id: u64,
    from: Address,
    to: Address,
    amount: u128,
)
    ensures
        ({
            let n = transfer_effect(m, asset_id, from, to, amount).1;
            &&& amount_of(n, (asset_id, from)) + amount_of(n, (asset_id, to)) == amount_of(
                m,
                (asset_id, from),
            ) + amount_of(m, (asset_id, to))
            &&& forall|k: (u64, Address)|
                k != (asset_id, from) && k != (asset_id, to) ==> #[trigger] amount_of(n, k)
                    == amount_of(m, k)
        }),
{
    if from != to {
        assert((asset_id, from) != (asset_id, to));
    }
}

/// What accounts hold of an asset together.
pub open spec fn total_of(
    m: Map<(u64, Address), u128>,
    asset_id: u64,
    accounts: Seq<Address>,
) -> int
    decreases accounts.len(),
{
    if accounts.len() == 0 {
        0
    } else {
        total_of(m, asset_id, accounts.drop_last()) + amount_of(m, (asset_id, accounts.last()))
    }
}

/// Setting one balance changes what accounts hold together by the difference.
pub proof fn lemma_total_insert(
    m: Map<(u64, Address), u128>,
    key: (u64, Address),
    v: u128,
    asset_id: u64,
    accounts: Seq<Address>,
)
    requires
        accounts.no_duplicates(),
    ensures
        total_of(m.insert(key, v), asset_id, accounts) == total_of(m, asset_id, accounts) + if key.0
            == asset_id && accounts.contains(key.1) {
            v - amount_of(m, key)
        } else {
            0
        },
    decreases accounts.len(),
{
    if accounts.len() > 0 {
        let rest = accounts.drop_last();
        lemma_total_insert(m, key, v, asset_id, rest);
        assert forall|i: int| 0 <= i < rest.len() implies (#[trigger] rest[i]) != accounts.last() by {
            assert(rest[i] == accounts[i]);
        }
        if rest.contains(key.1) {
            let i = choose|i: int| 0 <= i < rest.len() && rest[i] == key.1;
            assert(accounts[i] == key.1);
        }
        if accounts.contains(key.1) && key.1 != accounts.last() {
            let i = choose|i: int| 0 <= i < accounts.len() && accounts[i] == key.1;
            assert(rest[i] == key.1);
        }
        if key.1 == accounts.last() {
            assert(accounts[accounts.len() - 1] == key.1);
        }
    }
}

/// A transfer among accounts keeps what they hold together, of its asset and of any other.
pub proof fn law_transfer_keeps_total_of_all(
    m: Map<(u64, Address), u128>,
    asset_id: u64,
    from: Address,
    to: Address,
    amount: u128,
    other: u64,
    accounts: Seq<Address>,
)
    requires
        accounts.no_duplicates(),
        accounts.contains(from),
        accounts.contains(to),
    ensures
        total_of(transfer_effect(m, asset_id, from, to, amount).1, other, accounts) == total_of(
            m,
            other,
            accounts,
        ),
{
    if transfer_effect(m, asset_id, from, to, amount).0 is Ok && from != to {
        let left = (amount_of(m, (asset_id, from)) - amount) as u128;
        let n = m.insert((asset_id, from), left);
        lemma_total_insert(m, (asset_id, from), left, other, accounts);
        lemma_total_insert(
            n,
            (asset_id, to),
            (amount_of(m, (asset_id, to)) + amount) as u128,
            other,
            accounts,
        );
    }
}

/// A transfer moves exactly its amount, and only where the sender has it; to oneself it moves
/// nothing.
pub proof fn law_transfer_moves_amount(
    m: Map<(u64, Address), u128>,
    asset_id: u64,
    from: Address,
    to: Address,
    amount: u128,
)
    requires
        transfer_effect(m, asset_id, from, to, amount).0 is Ok,
    ensures
        ({
            let n = transfer_effect(m, asset_id, from, to, amount).1;
            &&& amount_of(m, (asset_id, from)) >= amount
            &&& from == to ==> n == m
            &&& from != to ==> amount_of(n, (asset_id, from)) == amount_of(m, (asset_id, from))
                - amount
            &&& from != to ==> amount_of(n, (asset_id, to)) == amount_of(m, (asset_id, to))
                + amount
        }),
{
    if from != to {
        assert((asset_id, from) != (asset_id, to));
    }
}

/// What is credited can be taken back, and that restores the balance.
pub proof fn law_debit_undoes_credit(
    m: Map<(u64, Address), u128>,
    asset_id: u64,
    account: Address,
    amount: u128,
)
    requires
        credit_effect(m, asset_id, account, amount).0 is Ok,
    ensures
        ({
            let n = credit_effect(m, asset_id, account, amount).1;
            let (r, back) = debit_effect(n, asset_id, account, amount);
            &&& r is Ok
            &&& forall|k: (u64, Address)| #[trigger] amount_of(back, k) == amount_of(m, k)
        }),
{
}

/// A failed operation changes nothing.
pub proof fn law_failure_changes_nothing(
    m: Map<(u64, Address), u128>,
    a: Map<(u64, Address, Address), u128>,
    asset_id: u64,
    from: Address,
    to: Address,
    amount: u128,
)
    ensures
        transfer_effect(m, asset_id, from, to, amount).0 is Err ==> transfer_effect(
            m,
            asset_id,
            from,
            to,
            amount,
        ).1 == m,
        credit_effect(m, asset_id, to, amount).0 is Err ==> credit_effect(
            m,
            asset_id,
            to,
            amount,
        ).1 == m,
        debit_effect(m, asset_id, from, amount).0 is Err ==> debit_effect(
            m,
            asset_id,
            from,
            amount,
        ).1 == m,
        spend_effect(a, asset_id, from, to, amount).0 is Err ==> spend_effect(
            a,
            asset_id,
            from,
            to,
            amount,
        ).1 == a,
{
}

/// Spending an allowance lowers it by exactly what is spent.
pub proof fn law_allowance_decrease_exact(
    a: Map<(u64, Address, Address), u128>,
    asset_id: u64,
    owner: Address,
    spender: Address,
    amount: u128,
)
    requires
        spend_effect(a, asset_id, owner, spender, amount).0 is Ok,
    ensures
        amount_of(
            spend_effect(a, asset_id, owner, spender, amount).1,
            (asset_id, owner, spender),
        ) == amount_of(a, (asset_id, owner, spender)) - amount,
{
}

/// A nonce that was used is not accepted again, as long as nonces last.
pub proof fn law_used_nonce_is_refused(m: Map<Address, u64>, account: Address, nonce: u64)
    requires
        nonce_check(nonce_of(m, account), nonce) is Ok,
        nonce < u64::MAX,
    ensures
        ({
            let n = m.insert(account, next_nonce(nonce_of(m, account)));
            &&& nonce_of(n, account) == nonce + 1
            &&& nonce_check(nonce_of(n, account), nonce) is Err
            &&& nonce_check(nonce_of(n, account), (nonce + 1) as u64) is Ok
        }),
{
}

} // verus!
