//! Registration, lookup and lifecycle of assets.

pub mod laws;

use crate::protocol::errors::{ProtocolError, ProtocolResult};
use crate::vec_map::NameMap;
use crate::words::Address;
use vstd::prelude::*;
use vstd::utf8::encode_utf8;

verus! {

/// The most bytes a symbol may have.
pub const MAX_SYMBOL_LEN: usize = 12;

/// Whether an asset can be used.
#[derive(Clone, Copy, Debug, PartialEq, Eq, Structural)]
pub enum AssetStatus {
    Active,
    Frozen,
    Delisted,
}

/// What is known of an asset.
#[derive(Clone, Debug)]
pub struct Asset {
    pub id: u64,
    pub symbol: String,
    pub name: String,
    pub decimals: u8,
    pub issuer: Address,
    /// What accounts of the protocol layer hold.
    pub protocol_supply: u128,
    /// What circulates wrapped on the EVM layer.
    pub evm_supply: u128,
    /// The most that may exist, or 0 for no limit.
    pub max_supply: u128,
    pub status: AssetStatus,
    pub compliance_policy: u8,
    pub registered_at: u64,
    /// The contract of the wrapped token, once it is deployed.
    pub evm_contract_address: Option<Address>,
}

/// `a + b`, or the largest amount where that does not fit.
pub open spec fn capped_sum(a: int, b: int) -> int {
    if a + b > u128::MAX {
        u128::MAX as int
    } else {
        a + b
    }
}

fn capped_add(a: u128, b: u128) -> (r: u128)
    ensures
        r == capped_sum(a as int, b as int),
{
    match a.checked_add(b) {
        Some(v) => v,
        None => u128::MAX,
    }
}

impl Asset {
    /// What exists on both layers.
    pub open spec fn supply(self) -> int {
        capped_sum(self.protocol_supply as int, self.evm_supply as int)
    }

    /// Whether `amount` more would be more than may exist.
    pub open spec fn over_cap(self, amount: u128) -> bool {
        self.max_supply != 0 && capped_sum(self.supply(), amount as int) > self.max_supply
    }

    /// The same asset once more.
    pub fn duplicate(&self) -> (r: Self)
        ensures
            r == *self,
    {
        Asset { symbol: self.symbol.clone(), name: self.name.clone(), ..*self }
    }

    pub fn all_supply(&self) -> (r: u128)
        ensures
            r == self.supply(),
    {
        capped_add(self.protocol_supply, self.evm_supply)
    }

    pub fn would_exceed_cap(&self, amount: u128) -> (r: bool)
        ensures
            r == self.over_cap(amount),
    {
        if self.max_supply == 0 {
            false
        } else {
            capped_add(self.all_supply(), amount) > self.max_supply
        }
    }
}

/// All assets, numbered in the order of their registration.
#[derive(Debug)]
pub struct AssetRegistry {
    assets: Vec<Asset>,
    assets_by_symbol: NameMap<u64>,
    next_id: u64,
}

/// An asset that was just registered.
pub open spec fn fresh_asset(
    a: Asset,
    id: u64,
    symbol: Seq<char>,
    name: Seq<char>,
    decimals: u8,
    issuer: Address,
    compliance_policy: u8,
    registered_at: u64,
    max_supply: u128,
) -> bool {
    &&& a.id == id
    &&& a.symbol@ == symbol
    &&& a.name@ == name
    &&& a.decimals == decimals
    &&& a.issuer == issuer
    &&& a.protocol_supply == 0
    &&& a.evm_supply == 0
    &&& a.max_supply == max_supply
    &&& a.status == AssetStatus::Active
    &&& a.compliance_policy == compliance_policy
    &&& a.registered_at == registered_at
    &&& a.evm_contract_address is None
}

/// The answer to a request that only the issuer of `id` may make.
pub open spec fn issuer_check(
    assets: Map<u64, Asset>,
    id: u64,
    caller: Address,
) -> ProtocolResult<()> {
    if !assets.contains_key(id) {
        Err(ProtocolError::AssetError("asset not found"))
    } else if assets[id].issuer != caller {
        Err(ProtocolError::Unauthorized)
    } else {
        Ok(())
    }
}

/// The asset with another status.
pub open spec fn set_status(
    assets: Map<u64, Asset>,
    id: u64,
    caller: Address,
    status: AssetStatus,
) -> (ProtocolResult<()>, Map<u64, Asset>) {
    match issuer_check(assets, id, caller) {
        Err(e) => (Err(e), assets),
        Ok(_) => (Ok(()), assets.insert(id, Asset { status, ..assets[id] })),
    }
}

/// Adds to what the protocol layer holds.
pub open spec fn mint_effect(assets: Map<u64, Asset>, id: u64, caller: Address, amount: u128) -> (
    ProtocolResult<()>,
    Map<u64, Asset>,
) {
    match issuer_check(assets, id, caller) {
        Err(e) => (Err(e), assets),
        Ok(_) => {
            let a = assets[id];
            if a.over_cap(amount) {
                (Err(ProtocolError::AssetError("mint would exceed max supply cap")), assets)
            } else if a.protocol_supply + amount > u128::MAX {
                (Err(ProtocolError::BalanceError("overflow")), assets)
            } else {
                (
                    Ok(()),
                    assets.insert(
                        id,
                        Asset { protocol_supply: (a.protocol_supply + amount) as u128, ..a },
                    ),
                )
            }
        },
    }
}

/// Takes from what the protocol layer holds.
pub open spec fn burn_effect(assets: Map<u64, Asset>, id: u64, caller: Address, amount: u128) -> (
    ProtocolResult<()>,
    Map<u64, Asset>,
) {
    match issuer_check(assets, id, caller) {
        Err(e) => (Err(e), assets),
        Ok(_) => {
            let a = assets[id];
            if a.protocol_supply < amount {
                (Err(ProtocolError::BalanceError("insufficient supply")), assets)
            } else {
                (
                    Ok(()),
                    assets.insert(
                        id,
                        Asset { protocol_supply: (a.protocol_supply - amount) as u128, ..a },
                    ),
                )
            }
        },
    }
}

/// Adds to what circulates on the EVM layer.
pub open spec fn evm_mint_effect(assets: Map<u64, Asset>, id: u64, amount: u128) -> (
    ProtocolResult<()>,
    Map<u64, Asset>,
) {
    if !assets.contains_key(id) {
        (Err(ProtocolError::AssetError("asset not found")), assets)
    } else {
        let a = assets[id];
        if a.over_cap(amount) {
            (Err(ProtocolError::AssetError("evm mint would exceed max supply cap")), assets)
        } else if a.evm_supply + amount > u128::MAX {
            (Err(ProtocolError::BalanceError("overflow")), assets)
        } else {
            (
                Ok(()),
                assets.insert(id, Asset { evm_supply: (a.evm_supply + amount) as u128, ..a }),
            )
        }
    }
}

/// Takes from what circulates on the EVM layer.
pub open spec fn evm_burn_effect(assets: Map<u64, Asset>, id: u64, amount: u128) -> (
    ProtocolResult<()>,
    Map<u64, Asset>,
) {
    if !assets.contains_key(id) {
        (Err(ProtocolError::AssetError("asset not found")), assets)
    } else {
        let a = assets[id];
        if a.evm_supply < amount {
            (Err(ProtocolError::BalanceError("insufficient evm supply")), assets)
        } else {
            (
                Ok(()),
                assets.insert(id, Asset { evm_supply: (a.evm_supply - amount) as u128, ..a }),
            )
        }
    }
}

impl AssetRegistry {
    /// The assets by their ids.
    pub closed spec fn assets(self) -> Map<u64, Asset> {
        Map::new(
            |id: u64| id < self.next_id && self.next_id - id <= self.assets@.len(),
            |id: u64| self.assets@[self.assets@.len() - (self.next_id - id)],
        )
    }

    /// The ids by symbol.
    pub closed spec fn symbols(self) -> Map<Seq<char>, u64> {
        self.assets_by_symbol@
    }

    /// The id of the asset that is registered next.
    pub closed spec fn upcoming(self) -> u64 {
        self.next_id
    }

    /// Only the assets may differ.
    pub open spec fn same_index(self, other: Self) -> bool {
        self.symbols() == other.symbols() && self.upcoming() == other.upcoming()
    }

    pub fn new() -> (r: Self)
        ensures
            r.assets() == Map::<u64, Asset>::empty(),
            r.symbols() == Map::<Seq<char>, u64>::empty(),
            r.upcoming() == 1,
    {
        let r = AssetRegistry {
            assets: Vec::new(),
            assets_by_symbol: NameMap::new(),
            next_id: 1,
        };
        proof {
            assert(r.assets() =~= Map::<u64, Asset>::empty());
        }
        r
    }

    /// A registry with the same assets.
    pub fn duplicate(&self) -> (r: Self)
        ensures
            r.assets() == self.assets(),
            r.same_index(*self),
    {
        let mut assets: Vec<Asset> = Vec::new();
        let mut i: usize = 0;
        while i < self.assets.len()
            invariant
                i <= self.assets@.len(),
                assets@ == self.assets@.subrange(0, i as int),
            decreases self.assets@.len() - i,
        {
            assets.push(self.assets[i].duplicate());
            i += 1;
        }
        proof {
            assert(assets@ =~= self.assets@);
        }
        AssetRegistry {
            assets,
            assets_by_symbol: self.assets_by_symbol.duplicate(),
            next_id: self.next_id,
        }
    }

    fn find(&self, id: u64) -> (r: Option<usize>)
        ensures
            match r {
                Some(i) => i < self.assets@.len() && self.assets().contains_key(id) && i
                    == self.assets@.len() - (self.next_id - id) && self.assets()[id]
                    == self.assets@[i as int],
                None => !self.assets().contains_key(id),
            },
    {
        if id >= self.next_id {
            return None;
        }
        let back: u64 = self.next_id - id;
        if back > self.assets.len() as u64 {
            return None;
        }
        Some(self.assets.len() - back as usize)
    }

    /// Puts `a` in the place of the asset at `i`.
    proof fn lemma_replaced(self, other: Self, i: int, id: u64, a: Asset)
        requires
            0 <= i < self.assets@.len(),
            self.assets().contains_key(id),
            i == self.assets@.len() - (self.next_id - id),
            other.next_id == self.next_id,
            other.assets@ == self.assets@.update(i, a),
        ensures
            other.assets() == self.assets().insert(id, a),
    {
        assert(other.assets() =~= self.assets().insert(id, a));
    }

    /// Registers an asset under the next id, unless its symbol is taken or too long.
    pub fn register_asset(
        &mut self,
        symbol: String,
        name: String,
        decimals: u8,
        issuer: Address,
        compliance_policy: u8,
        registered_at: u64,
        max_supply: u128,
    ) -> (r: ProtocolResult<u64>)
        requires
            !old(self).symbols().contains_key(symbol@) && encode_utf8(symbol@).len()
                <= MAX_SYMBOL_LEN ==> old(self).upcoming() < u64::MAX,
        ensures
            r == if old(self).symbols().contains_key(symbol@) {
                Err(ProtocolError::RegistryError("duplicate symbol"))
            } else if encode_utf8(symbol@).len() > MAX_SYMBOL_LEN {
                Err(ProtocolError::RegistryError("symbol too long (max 12 chars)"))
            } else {
                Ok(old(self).upcoming())
            },
            r is Err ==> *final(self) == *old(self),
            r matches Ok(id) ==> {
                &&& final(self).upcoming() == id + 1
                &&& final(self).symbols() == old(self).symbols().insert(symbol@, id)
                &&& final(self).assets().contains_key(id)
                &&& final(self).assets() == old(self).assets().insert(
                    id,
                    final(self).assets()[id],
                )
                &&& fresh_asset(
                    final(self).assets()[id],
                    id,
                    symbol@,
                    name@,
                    decimals,
                    issuer,
                    compliance_policy,
                    registered_at,
                    max_supply,
                )
            },
    {
        if self.assets_by_symbol.contains_key(&symbol) {
            return Err(ProtocolError::RegistryError("duplicate symbol"));
        }
        if symbol.as_str().as_bytes().len() > MAX_SYMBOL_LEN {
            return Err(ProtocolError::RegistryError("symbol too long (max 12 chars)"));
        }
        let id: u64 = self.next_id;
        let asset = Asset {
            id,
            symbol: symbol.clone(),
            name,
            decimals,
            issuer,
            protocol_supply: 0,
            evm_supply: 0,
            max_supply,
            status: AssetStatus::Active,
            compliance_policy,
            registered_at,
            evm_contract_address: None,
        };
        self.next_id = id + 1;
        self.assets.push(asset);
        self.assets_by_symbol.insert(symbol, id);
        proof {
            assert(self.assets() =~= old(self).assets().insert(id, asset));
        }
        Ok(id)
    }

    /// The asset with this id.
    pub fn get_asset(&self, id: u64) -> (r: Option<&Asset>)
        ensures
            match r {
                Some(a) => self.assets().contains_key(id) && *a == self.assets()[id],
                None => !self.assets().contains_key(id),
            },
    {
        match self.find(id) {
            Some(i) => Some(&self.assets[i]),
            None => None,
        }
    }

    /// The asset with this id, to be changed.
    pub fn get_asset_mut(&mut self, id: u64) -> (r: Option<&mut Asset>)
        ensures
            match r {
                Some(a) => {
                    &&& old(self).assets().contains_key(id)
                    &&& *a == old(self).assets()[id]
                    &&& final(self).assets() == old(self).assets().insert(id, *final(a))
                    &&& final(self).same_index(*old(self))
                },
                None => !old(self).assets().contains_key(id) && *final(self) == *old(self),
            },
    {
        match self.find(id) {
            Some(i) => {
                proof {
                    assert forall|other: Self, a: Asset|
                        other.next_id == self.next_id && #[trigger] (self.assets@.update(
                            i as int,
                            a,
                        )) == other.assets@ implies #[trigger] other.assets()
                        == self.assets().insert(id, a) by {
                        self.lemma_replaced(other, i as int, id, a);
                    }
                }
                Some(&mut self.assets[i])
            },
            None => None,
        }
    }

    /// The asset with this symbol.
    pub fn get_asset_by_symbol(&self, symbol: &str) -> (r: Option<&Asset>)
        ensures
            match r {
                Some(a) => {
                    &&& self.symbols().contains_key(symbol@)
                    &&& self.assets().contains_key(self.symbols()[symbol@])
                    &&& *a == self.assets()[self.symbols()[symbol@]]
                },
                None => !(self.symbols().contains_key(symbol@) && self.assets().contains_key(
                    self.symbols()[symbol@],
                )),
            },
    {
        match self.assets_by_symbol.get(&symbol.to_owned()) {
            Some(id) => self.get_asset(*id),
            None => None,
        }
    }

    fn check_issuer(&self, id: u64, caller: Address) -> (r: ProtocolResult<()>)
        ensures
            r == issuer_check(self.assets(), id, caller),
    {
        match self.get_asset(id) {
            None => Err(ProtocolError::AssetError("asset not found")),
            Some(a) => if a.issuer != caller {
                Err(ProtocolError::Unauthorized)
            } else {
                Ok(())
            },
        }
    }

    fn change_status(&mut self, id: u64, caller: Address, status: AssetStatus) -> (r: ProtocolResult<
        (),
    >)
        ensures
            (r, final(self).assets()) == set_status(old(self).assets(), id, caller, status),
            final(self).same_index(*old(self)),
    {
        self.check_issuer(id, caller)?;
        if let Some(a) = self.get_asset_mut(id) {
            a.status = status;
        }
        Ok(())
    }

    /// Freezes an asset, for its issuer.
    pub fn freeze_asset(&mut self, id: u64, caller: &Address) -> (r: ProtocolResult<()>)
        ensures
            (r, final(self).assets()) == set_status(
                old(self).assets(),
                id,
                *caller,
                AssetStatus::Frozen,
            ),
            final(self).same_index(*old(self)),
    {
        self.change_status(id, *caller, AssetStatus::Frozen)
    }

    /// Makes an asset active again, for its issuer.
    pub fn unfreeze_asset(&mut self, id: u64, caller: &Address) -> (r: ProtocolResult<()>)
        ensures
            (r, final(self).assets()) == set_status(
                old(self).assets(),
                id,
                *caller,
                AssetStatus::Active,
            ),
            final(self).same_index(*old(self)),
    {
        self.change_status(id, *caller, AssetStatus::Active)
    }

    /// Delists an asset, for its issuer.
    pub fn delist_asset(&mut self, id: u64, caller: &Address) -> (r: ProtocolResult<()>)
        ensures
            (r, final(self).assets()) == set_status(
                old(self).assets(),
                id,
                *caller,
                AssetStatus::Delisted,
            ),
            final(self).same_index(*old(self)),
    {
        self.change_status(id, *caller, AssetStatus::Delisted)
    }

    /// Adds to the supply of the protocol layer, for the issuer and within the cap.
    pub fn mint_supply(&mut self, id: u64, caller: &Address, amount: u128) -> (r: ProtocolResult<()>)
        ensures
            (r, final(self).assets()) == mint_effect(old(self).assets(), id, *caller, amount),
            final(self).same_index(*old(self)),
    {
        self.check_issuer(id, *caller)?;
        if let Some(a) = self.get_asset(id) {
            if a.would_exceed_cap(amount) {
                return Err(ProtocolError::AssetError("mint would exceed max supply cap"));
            }
            let supply: u128 = a.protocol_supply.checked_add(amount).ok_or(
                ProtocolError::BalanceError("overflow"),
            )?;
            if let Some(a) = self.get_asset_mut(id) {
                a.protocol_supply = supply;
            }
        }
        Ok(())
    }

    /// Takes from the supply of the protocol layer, for the issuer.
    pub fn burn_supply(&mut self, id: u64, caller: &Address, amount: u128) -> (r: ProtocolResult<()>)
        ensures
            (r, final(self).assets()) == burn_effect(old(self).assets(), id, *caller, amount),
            final(self).same_index(*old(self)),
    {
        self.check_issuer(id, *caller)?;
        if let Some(a) = self.get_asset(id) {
            let supply: u128 = a.protocol_supply.checked_sub(amount).ok_or(
                ProtocolError::BalanceError("insufficient supply"),
            )?;
            if let Some(a) = self.get_asset_mut(id) {
                a.protocol_supply = supply;
            }
        }
        Ok(())
    }

    /// Adds to the supply of the EVM layer, within the cap.
    pub fn add_evm_supply(&mut self, id: u64, amount: u128) -> (r: ProtocolResult<()>)
        ensures
            (r, final(self).assets()) == evm_mint_effect(old(self).assets(), id, amount),
            final(self).same_index(*old(self)),
    {
        match self.get_asset(id) {
            None => Err(ProtocolError::AssetError("asset not found")),
            Some(a) => {
                if a.would_exceed_cap(amount) {
                    return Err(ProtocolError::AssetError("evm mint would exceed max supply cap"));
                }
                let supply: u128 = a.evm_supply.checked_add(amount).ok_or(
                    ProtocolError::BalanceError("overflow"),
                )?;
                if let Some(a) = self.get_asset_mut(id) {
                    a.evm_supply = supply;
                }
                Ok(())
            },
        }
    }

    /// Takes from the supply of the EVM layer.
    pub fn sub_evm_supply(&mut self, id: u64, amount: u128) -> (r: ProtocolResult<()>)
        ensures
            (r, final(self).assets()) == evm_burn_effect(old(self).assets(), id, amount),
            final(self).same_index(*old(self)),
    {
        match self.get_asset(id) {
            None => Err(ProtocolError::AssetError("asset not found")),
            Some(a) => {
                let supply: u128 = a.evm_supply.checked_sub(amount).ok_or(
                    ProtocolError::BalanceError("insufficient evm supply"),
                )?;
                if let Some(a) = self.get_asset_mut(id) {
                    a.evm_supply = supply;
                }
                Ok(())
            },
        }
    }

    /// The id that the next asset gets.
    pub fn next_id(&self) -> (r: u64)
        ensures
            r == self.upcoming(),
    {
        self.next_id
    }

    /// Whether there is no asset.
    pub fn is_empty(&self) -> (r: bool)
        ensures
            r == (self.assets() == Map::<u64, Asset>::empty()),
    {
        if self.next_id == 0 || self.assets.len() == 0 {
            proof {
                assert(self.assets() =~= Map::<u64, Asset>::empty());
            }
            true
        } else {
            proof {
                assert(self.assets().contains_key((self.next_id - 1) as u64));
            }
            false
        }
    }

    /// Hands an asset to another issuer.
    pub fn transfer_asset_issuer(&mut self, id: u64, caller: Address, new_issuer: Address) -> (r:
        ProtocolResult<()>)
        ensures
            (r, final(self).assets()) == match issuer_check(old(self).assets(), id, caller) {
                Err(e) => (Err(e), old(self).assets()),
                Ok(_) => if caller == new_issuer {
                    (Err(ProtocolError::Unauthorized), old(self).assets())
                } else {
                    (
                        Ok(()),
                        old(self).assets().insert(
                            id,
                            (Asset { issuer: new_issuer, ..old(self).assets()[id] }),
                        ),
                    )
                },
            },
            final(self).same_index(*old(self)),
    {
        self.check_issuer(id, caller)?;
        if caller == new_issuer {
            return Err(ProtocolError::Unauthorized);
        }
        if let Some(a) = self.get_asset_mut(id) {
            a.issuer = new_issuer;
        }
        Ok(())
    }

    /// Sets the compliance policy of an asset, for its issuer.
    pub fn update_asset_compliance_policy(&mut self, id: u64, caller: Address, new_policy: u8) -> (r:
        ProtocolResult<()>)
        ensures
            (r, final(self).assets()) == match issuer_check(old(self).assets(), id, caller) {
                Err(e) => (Err(e), old(self).assets()),
                Ok(_) => (
                    Ok(()),
                    old(self).assets().insert(
                        id,
                        (Asset { compliance_policy: new_policy, ..old(self).assets()[id] }),
                    ),
                ),
            },
            final(self).same_index(*old(self)),
    {
        self.check_issuer(id, caller)?;
        if let Some(a) = self.get_asset_mut(id) {
            a.compliance_policy = new_policy;
        }
        Ok(())
    }

    /// Notes the contract of the wrapped token, where there is such an asset.
    pub fn set_evm_contract_address(&mut self, id: u64, addr: Address)
        ensures
            final(self).assets() == if old(self).assets().contains_key(id) {
                old(self).assets().insert(
                    id,
                    (Asset { evm_contract_address: Some(addr), ..old(self).assets()[id] }),
                )
            } else {
                old(self).assets()
            },
            final(self).same_index(*old(self)),
    {
        if let Some(a) = self.get_asset_mut(id) {
            a.evm_contract_address = Some(addr);
        }
    }

    /// The contract of the wrapped token, where it is known.
    pub fn get_evm_contract_address(&self, id: u64) -> (r: Option<Address>)
        ensures
            r == if self.assets().contains_key(id) {
                self.assets()[id].evm_contract_address
            } else {
                None
            },
    {
        match self.get_asset(id) {
            Some(a) => a.evm_contract_address,
            None => None,
        }
    }
}

/// Everything that a registry has issued under its caps.
pub open spec fn within_caps(assets: Map<u64, Asset>) -> bool {
    forall|id: u64| #[trigger]
        assets.contains_key(id) && assets[id].max_supply != 0 ==> assets[id].supply()
            <= assets[id].max_supply
}

/// No change of supply takes an asset over its cap.
pub proof fn law_caps_hold(assets: Map<u64, Asset>, id: u64, caller: Address, amount: u128)
    requires
        within_caps(assets),
    ensures
        within_caps(mint_effect(assets, id, caller, amount).1),
        within_caps(burn_effect(assets, id, caller, amount).1),
        within_caps(evm_mint_effect(assets, id, amount).1),
        within_caps(evm_burn_effect(assets, id, amount).1),
{
}

/// Minting raises the supply by exactly its amount and burning lowers it by exactly its amount; a
/// refused request changes nothing.
pub proof fn law_supply_changes_exactly(
    assets: Map<u64, Asset>,
    id: u64,
    caller: Address,
    amount: u128,
)
    ensures
        ({
            let (r, after) = mint_effect(assets, id, caller, amount);
            if r is Ok {
                after[id].protocol_supply == assets[id].protocol_supply + amount
                    && after.remove(id) == assets.remove(id)
            } else {
                after == assets
            }
        }),
        ({
            let (r, after) = burn_effect(assets, id, caller, amount);
            if r is Ok {
                after[id].protocol_supply == assets[id].protocol_supply - amount
                    && after.remove(id) == assets.remove(id)
            } else {
                after == assets
            }
        }),
{
    let minted = mint_effect(assets, id, caller, amount).1;
    let burned = burn_effect(assets, id, caller, amount).1;
    assert(minted.remove(id) =~= assets.remove(id));
    assert(burned.remove(id) =~= assets.remove(id));
}

/// Burning what was just minted gives the supply back as it was.
pub proof fn law_burn_undoes_mint(assets: Map<u64, Asset>, id: u64, caller: Address, amount: u128)
    requires
        mint_effect(assets, id, caller, amount).0 is Ok,
    ensures
        burn_effect(mint_effect(assets, id, caller, amount).1, id, caller, amount) == (
            Ok::<(), ProtocolError>(()),
            assets,
        ),
{
    let after = mint_effect(assets, id, caller, amount).1;
    let back = burn_effect(after, id, caller, amount).1;
    assert(back[id] == assets[id]);
    assert(back =~= assets);
}

/// No one but the issuer changes an asset's status, supply on the protocol layer, or policy.
pub proof fn law_only_issuer_changes(
    assets: Map<u64, Asset>,
    id: u64,
    caller: Address,
    amount: u128,
    status: AssetStatus,
)
    requires
        assets.contains_key(id),
        assets[id].issuer != caller,
    ensures
        set_status(assets, id, caller, status) == (
            Err::<(), ProtocolError>(ProtocolError::Unauthorized),
            assets,
        ),
        mint_effect(assets, id, caller, amount) == (
            Err::<(), ProtocolError>(ProtocolError::Unauthorized),
            assets,
        ),
        burn_effect(assets, id, caller, amount) == (
            Err::<(), ProtocolError>(ProtocolError::Unauthorized),
            assets,
        ),
{
}

/// Freezing and unfreezing leaves an active asset as it was.
pub proof fn law_unfreeze_undoes_freeze(assets: Map<u64, Asset>, id: u64, caller: Address)
    requires
        issuer_check(assets, id, caller) is Ok,
        assets[id].status == AssetStatus::Active,
    ensures
        set_status(
            set_status(assets, id, caller, AssetStatus::Frozen).1,
            id,
            caller,
            AssetStatus::Active,
        ) == (Ok::<(), ProtocolError>(()), assets),
{
    let frozen = set_status(assets, id, caller, AssetStatus::Frozen).1;
    let back = set_status(frozen, id, caller, AssetStatus::Active).1;
    assert(back[id] == assets[id]);
    assert(back =~= assets);
}

} // verus!
