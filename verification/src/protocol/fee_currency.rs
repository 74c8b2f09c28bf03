//! The currencies that fees can be paid in.

use crate::protocol::errors::{ProtocolError, ProtocolResult};
use crate::protocol::oracle::{OracleBook, OracleManager};
use vstd::prelude::*;

verus! {

/// The smallest market capitalisation of a fee currency, in US dollars.
pub const MIN_MARKET_CAP_USD: u128 = 100_000_000;

/// How many failures of the oracle disable a currency.
pub const ORACLE_STRIKES_BEFORE_DISABLE: u32 = 10;

/// How long a currency stays in use once its removal is decided, in blocks.
pub const FEE_CURRENCY_GRACE_PERIOD: u64 = 86_400;

/// The price of the native asset where the oracle has none: two dollars, at six decimals.
pub const FALLBACK_CALL_PRICE: u128 = 2_000_000;

/// The unit of prices, at six decimals.
pub const PRICE_UNIT: u128 = 1_000_000;

/// A currency that fees can be paid in.
#[derive(Debug)]
pub struct FeeCurrencyEntry {
    pub asset_id: u64,
    pub name: String,
    pub decimals: u8,
    pub oracle_price_key: Option<[u8; 32]>,
    pub added_at_block: u64,
    pub added_by_proposal: u64,
}

/// All such currencies, and how much of a block they may take.
#[derive(Debug)]
pub struct FeeCurrencyRegistry {
    pub allowed_currencies: Vec<FeeCurrencyEntry>,
    /// The part of a block that stablecoins may take, in basis points.
    pub stablecoin_cap_bps: u32,
    pub current_stablecoin_used: u128,
    pub block_gas_limit: u128,
}

/// The first entry for an asset from `from` on, or the number of entries where there is none.
pub open spec fn entry_at(entries: Seq<FeeCurrencyEntry>, asset_id: u64, from: int) -> int
    decreases entries.len() - from,
{
    if from >= entries.len() || entries[from].asset_id == asset_id {
        from
    } else {
        entry_at(entries, asset_id, from + 1)
    }
}

/// Whether fees can be paid in an asset.
pub open spec fn allows(entries: Seq<FeeCurrencyEntry>, asset_id: u64) -> bool {
    exists|i: int| 0 <= i < entries.len() && (#[trigger] entries[i]).asset_id == asset_id
}

/// No asset is entered twice.
pub open spec fn distinct_assets(entries: Seq<FeeCurrencyEntry>) -> bool {
    forall|i: int, j: int|
        0 <= i < j < entries.len() ==> (#[trigger] entries[i]).asset_id != (
        #[trigger] entries[j]).asset_id
}

proof fn lemma_entry_at(entries: Seq<FeeCurrencyEntry>, asset_id: u64, from: int)
    requires
        0 <= from <= entries.len(),
    ensures
        ({
            let at = entry_at(entries, asset_id, from);
            &&& from <= at <= entries.len()
            &&& at < entries.len() ==> entries[at].asset_id == asset_id
            &&& forall|i: int| from <= i < at ==> (#[trigger] entries[i]).asset_id != asset_id
        }),
    decreases entries.len() - from,
{
    if from < entries.len() && entries[from].asset_id != asset_id {
        lemma_entry_at(entries, asset_id, from + 1);
    }
}

/// The price of the native asset.
pub open spec fn call_price(oracle: Option<OracleBook>) -> u128 {
    match oracle {
        Some(b) => if b.aggregated.contains_key(0) {
            b.aggregated[0].median_price
        } else {
            FALLBACK_CALL_PRICE
        },
        None => FALLBACK_CALL_PRICE,
    }
}

/// What an oracle knows, where there is one.
pub open spec fn book_of(oracle: Option<&OracleManager>) -> Option<OracleBook> {
    match oracle {
        Some(o) => Some(o.book()),
        None => None,
    }
}

impl Default for FeeCurrencyRegistry {
    fn default() -> (r: Self)
        ensures
            r.is_new(),
    {
        FeeCurrencyRegistry::new()
    }
}

impl FeeCurrencyRegistry {
    pub open spec fn is_new(self) -> bool {
        &&& self.allowed_currencies@ == Seq::<FeeCurrencyEntry>::empty()
        &&& self.stablecoin_cap_bps == 5000
        &&& self.current_stablecoin_used == 0
        &&& self.block_gas_limit == 20_000_000
    }

    /// What stablecoins may take of a block.
    pub open spec fn cap(self) -> int {
        (self.block_gas_limit * self.stablecoin_cap_bps) / 10_000
    }

    pub fn new() -> (r: Self)
        ensures
            r.is_new(),
    {
        FeeCurrencyRegistry {
            allowed_currencies: Vec::new(),
            stablecoin_cap_bps: 5000,
            current_stablecoin_used: 0,
            block_gas_limit: 20_000_000,
        }
    }

    fn find(&self, asset_id: u64) -> (r: Option<usize>)
        ensures
            match r {
                Some(i) => i < self.allowed_currencies@.len() && i == entry_at(
                    self.allowed_currencies@,
                    asset_id,
                    0,
                ) && self.allowed_currencies@[i as int].asset_id == asset_id,
                None => !allows(self.allowed_currencies@, asset_id),
            },
    {
        let mut i: usize = 0;
        while i < self.allowed_currencies.len()
            invariant
                i <= self.allowed_currencies@.len(),
                entry_at(self.allowed_currencies@, asset_id, 0) == entry_at(
                    self.allowed_currencies@,
                    asset_id,
                    i as int,
                ),
                forall|j: int|
                    0 <= j < i ==> (#[trigger] self.allowed_currencies@[j]).asset_id != asset_id,
            decreases self.allowed_currencies@.len() - i,
        {
            if self.allowed_currencies[i].asset_id == asset_id {
                return Some(i);
            }
            i += 1;
        }
        None
    }

    pub fn is_allowed(&self, asset_id: u64) -> (r: bool)
        ensures
            r == allows(self.allowed_currencies@, asset_id),
    {
        self.find(asset_id).is_some()
    }

    /// The first entry for an asset.
    pub fn get_entry(&self, asset_id: u64) -> (r: Option<&FeeCurrencyEntry>)
        ensures
            match r {
                Some(e) => allows(self.allowed_currencies@, asset_id) && *e
                    == self.allowed_currencies@[entry_at(self.allowed_currencies@, asset_id, 0)],
                None => !allows(self.allowed_currencies@, asset_id),
            },
    {
        match self.find(asset_id) {
            Some(i) => Some(&self.allowed_currencies[i]),
            None => None,
        }
    }

    /// Lets fees be paid in one more asset.
    pub fn add_fee_currency(&mut self, entry: FeeCurrencyEntry, _proposal_id: u64) -> (r:
        ProtocolResult<()>)
        ensures
            (r, final(self).allowed_currencies@) == if allows(
                old(self).allowed_currencies@,
                entry.asset_id,
            ) {
                (
                    Err(ProtocolError::RegistryError("currency already registered")),
                    old(self).allowed_currencies@,
                )
            } else {
                (Ok(()), old(self).allowed_currencies@.push(entry))
            },
            final(self).stablecoin_cap_bps == old(self).stablecoin_cap_bps,
            final(self).current_stablecoin_used == old(self).current_stablecoin_used,
            final(self).block_gas_limit == old(self).block_gas_limit,
    {
        if self.is_allowed(entry.asset_id) {
            return Err(ProtocolError::RegistryError("currency already registered"));
        }
        self.allowed_currencies.push(entry);
        Ok(())
    }

    /// Takes an asset out of use. Whoever decides on it has waited for the grace period.
    pub fn remove_fee_currency(&mut self, asset_id: u64, grace_period_blocks: u64) -> (r:
        ProtocolResult<()>)
        ensures
            (r, final(self).allowed_currencies@) == if allows(
                old(self).allowed_currencies@,
                asset_id,
            ) {
                (
                    Ok(()),
                    old(self).allowed_currencies@.remove(
                        entry_at(old(self).allowed_currencies@, asset_id, 0),
                    ),
                )
            } else {
                (
                    Err(ProtocolError::RegistryError("currency not found")),
                    old(self).allowed_currencies@,
                )
            },
            final(self).stablecoin_cap_bps == old(self).stablecoin_cap_bps,
            final(self).current_stablecoin_used == old(self).current_stablecoin_used,
            final(self).block_gas_limit == old(self).block_gas_limit,
    {
        match self.find(asset_id) {
            None => Err(ProtocolError::RegistryError("currency not found")),
            Some(i) => {
                self.allowed_currencies.remove(i);
                Ok(())
            },
        }
    }

    /// The price of the native asset, by the oracle where it has one.
    pub fn get_call_price(&self, oracle: Option<&OracleManager>) -> (r: u128)
        ensures
            r == call_price(book_of(oracle)),
    {
        match oracle {
            Some(o) => match o.get_price(0) {
                Some(p) => p.median_price,
                None => FALLBACK_CALL_PRICE,
            },
            None => FALLBACK_CALL_PRICE,
        }
    }

    /// Whether stablecoins may pay `amount` more.
    pub fn check_stablecoin_cap(&self, amount: u128) -> (r: ProtocolResult<()>)
        requires
            self.block_gas_limit * self.stablecoin_cap_bps <= u128::MAX,
            self.current_stablecoin_used + amount <= u128::MAX,
        ensures
            r == if self.current_stablecoin_used + amount > self.cap() {
                Err(ProtocolError::GasError("stablecoin fee cap exceeded"))
            } else {
                Ok(())
            },
    {
        let cap: u128 = (self.block_gas_limit * self.stablecoin_cap_bps as u128) / 10_000;
        if self.current_stablecoin_used + amount > cap {
            return Err(ProtocolError::GasError("stablecoin fee cap exceeded"));
        }
        Ok(())
    }

    /// Counts what stablecoins have paid.
    pub fn increment_stablecoin_used(&mut self, amount: u128) -> (r: ProtocolResult<()>)
        ensures
            (r, *final(self)) == if old(self).current_stablecoin_used + amount > u128::MAX {
                (Err(ProtocolError::GasError("stablecoin used overflow")), *old(self))
            } else {
                (
                    Ok(()),
                    (FeeCurrencyRegistry {
                        current_stablecoin_used: (old(self).current_stablecoin_used
                            + amount) as u128,
                        ..*old(self)
                    }),
                )
            },
    {
        self.current_stablecoin_used = self.current_stablecoin_used.checked_add(amount).ok_or(
            ProtocolError::GasError("stablecoin used overflow"),
        )?;
        Ok(())
    }

    pub fn reset_stablecoin_used(&mut self)
        ensures
            *final(self) == (FeeCurrencyRegistry { current_stablecoin_used: 0, ..*old(self) }),
    {
        self.current_stablecoin_used = 0;
    }

    pub fn stablecoin_used(&self) -> (r: u128)
        ensures
            r == self.current_stablecoin_used,
    {
        self.current_stablecoin_used
    }

    /// The rank of a fee among others: a fee in the native asset counts as it is, another by the
    /// price of the native asset.
    pub fn priority_score(&self, fee: u128, is_call: bool, oracle: Option<&OracleManager>) -> (r:
        u128)
        requires
            !is_call ==> fee * call_price(book_of(oracle)) <= u128::MAX,
        ensures
            r == if is_call {
                fee as int
            } else {
                (fee * call_price(book_of(oracle))) / PRICE_UNIT as int
            },
    {
        if is_call {
            fee
        } else {
            fee * self.get_call_price(oracle) / PRICE_UNIT
        }
    }
}

/// A currency that was added and removed again leaves the currencies as they were.
pub proof fn law_remove_undoes_add(entries: Seq<FeeCurrencyEntry>, entry: FeeCurrencyEntry)
    requires
        !allows(entries, entry.asset_id),
    ensures
        ({
            let more = entries.push(entry);
            more.remove(entry_at(more, entry.asset_id, 0)) == entries
        }),
{
    let more = entries.push(entry);
    lemma_entry_at(more, entry.asset_id, 0);
    let at = entry_at(more, entry.asset_id, 0);
    if at < entries.len() {
        assert(entries[at].asset_id == entry.asset_id);
    }
    if at == more.len() {
        assert(more[entries.len() as int].asset_id == entry.asset_id);
    }
    assert(more.remove(at) =~= entries);
}

/// No asset is ever entered twice, and one that was removed is no longer allowed.
pub proof fn law_currencies_are_distinct(
    entries: Seq<FeeCurrencyEntry>,
    entry: FeeCurrencyEntry,
    asset_id: u64,
)
    requires
        distinct_assets(entries),
    ensures
        !allows(entries, entry.asset_id) ==> distinct_assets(entries.push(entry)),
        allows(entries, asset_id) ==> {
            let fewer = entries.remove(entry_at(entries, asset_id, 0));
            distinct_assets(fewer) && !allows(fewer, asset_id)
        },
{
    lemma_entry_at(entries, asset_id, 0);
    let at = entry_at(entries, asset_id, 0);
    if allows(entries, asset_id) {
        let i = choose|i: int| 0 <= i < entries.len() && (#[trigger] entries[i]).asset_id == asset_id;
        assert(at <= i);
        let fewer = entries.remove(at);
        assert forall|j: int| 0 <= j < fewer.len() implies (#[trigger] fewer[j]).asset_id
            != asset_id by {
            if j < at {
                assert(fewer[j] == entries[j]);
            } else {
                assert(fewer[j] == entries[j + 1]);
                assert(entries[at].asset_id != entries[j + 1].asset_id);
            }
        }
        assert forall|a: int, b: int| 0 <= a < b < fewer.len() implies (
        #[trigger] fewer[a]).asset_id != (#[trigger] fewer[b]).asset_id by {
            let a2 = if a < at {
                a
            } else {
                a + 1
            };
            let b2 = if b < at {
                b
            } else {
                b + 1
            };
            assert(entries[a2].asset_id != entries[b2].asset_id);
        }
    }
}

} // verus!
