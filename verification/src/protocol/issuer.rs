//! What the issuer of an asset may do.

use crate::protocol::account::{credit_effect, debit_effect};
use crate::protocol::balances::BalanceState;
use crate::protocol::errors::{ProtocolError, ProtocolResult};
use crate::protocol::registry::{issuer_check, Asset, AssetRegistry};
use crate::vec_map::VecMap;
use crate::words::Address;
use vstd::prelude::*;

verus! {

/// A request of an issuer.
#[derive(Clone, Copy, Debug)]
pub enum IssuerAction {
    Mint { to: Address, amount: u128 },
    Burn { from: Address, amount: u128 },
    FreezeAddress { target: Address },
    UnfreezeAddress { target: Address },
    UpdatePolicy { new_policy: u8 },
    TransferOwnership { new_issuer: Address },
}

/// What an action does to the frozen accounts and to the balances. A new policy or a new issuer is
/// only checked here; the registry makes the change.
pub open spec fn action_effect(
    assets: Map<u64, Asset>,
    frozen: Set<(u64, Address)>,
    balances: Map<(u64, Address), u128>,
    asset_id: u64,
    caller: Address,
    action: IssuerAction,
) -> (ProtocolResult<()>, Set<(u64, Address)>, Map<(u64, Address), u128>) {
    match issuer_check(assets, asset_id, caller) {
        Err(e) => (Err(e), frozen, balances),
        Ok(_) => match action {
            IssuerAction::Mint { to, amount } => {
                let (r, after) = credit_effect(balances, asset_id, to, amount);
                (r, frozen, after)
            },
            IssuerAction::Burn { from, amount } => {
                let (r, after) = debit_effect(balances, asset_id, from, amount);
                (r, frozen, after)
            },
            IssuerAction::FreezeAddress { target } => (
                Ok(()),
                frozen.insert((asset_id, target)),
                balances,
            ),
            IssuerAction::UnfreezeAddress { target } => (
                Ok(()),
                frozen.remove((asset_id, target)),
                balances,
            ),
            IssuerAction::UpdatePolicy { new_policy: _ } => (Ok(()), frozen, balances),
            IssuerAction::TransferOwnership { new_issuer: _ } => (Ok(()), frozen, balances),
        },
    }
}

/// Which accounts are frozen, by asset.
#[derive(Debug)]
pub struct IssuerState {
    pub frozen: VecMap<(u64, Address), bool>,
}

impl View for IssuerState {
    type V = Set<(u64, Address)>;

    closed spec fn view(&self) -> Set<(u64, Address)> {
        self.frozen@.dom()
    }
}

impl IssuerState {
    pub fn new() -> (r: Self)
        ensures
            r@ == Set::<(u64, Address)>::empty(),
    {
        let r = IssuerState { frozen: VecMap::new() };
        proof {
            assert(r@ =~= Set::<(u64, Address)>::empty());
        }
        r
    }

    /// Does what an issuer asks for, if it is the issuer who asks.
    pub fn execute_issuer_action(
        &mut self,
        asset_id: u64,
        caller: Address,
        action: IssuerAction,
        registry: &mut AssetRegistry,
        balances: &mut BalanceState,
    ) -> (r: ProtocolResult<()>)
        ensures
            (r, final(self)@, final(balances).balances@) == action_effect(
                old(registry).assets(),
                old(self)@,
                old(balances).balances@,
                asset_id,
                caller,
                action,
            ),
            final(balances).allowances == old(balances).allowances,
            *final(registry) == *old(registry),
    {
        match registry.get_asset(asset_id) {
            None => {
                return Err(ProtocolError::AssetError("asset not found"));
            },
            Some(a) => {
                if a.issuer != caller {
                    return Err(ProtocolError::Unauthorized);
                }
            },
        }
        match action {
            IssuerAction::Mint { to, amount } => balances.mint(asset_id, &caller, to, amount),
            IssuerAction::Burn { from, amount } => balances.burn(asset_id, from, amount),
            IssuerAction::FreezeAddress { target } => {
                self.frozen.insert((asset_id, target), true);
                proof {
                    assert(self@ =~= old(self)@.insert((asset_id, target)));
                }
                Ok(())
            },
            IssuerAction::UnfreezeAddress { target } => {
                self.frozen.remove((asset_id, target));
                proof {
                    assert(self@ =~= old(self)@.remove((asset_id, target)));
                }
                Ok(())
            },
            IssuerAction::UpdatePolicy { new_policy: _ } => Ok(()),
            IssuerAction::TransferOwnership { new_issuer: _ } => Ok(()),
        }
    }

    /// Whether an account is frozen for an asset.
    pub fn is_frozen(&self, asset_id: u64, address: &Address) -> (r: bool)
        ensures
            r == self@.contains((asset_id, *address)),
    {
        self.frozen.contains_key((asset_id, *address))
    }

    /// Whether an account may transfer an asset.
    pub fn check_can_transfer(&self, asset_id: u64, address: &Address) -> (r: ProtocolResult<()>)
        ensures
            r == if self@.contains((asset_id, *address)) {
                Err(ProtocolError::Compliance("address is frozen"))
            } else {
                Ok(())
            },
    {
        if self.is_frozen(asset_id, address) {
            return Err(ProtocolError::Compliance("address is frozen"));
        }
        Ok(())
    }

    /// Checks that the caller may hand the asset on. The registry makes the change.
    pub fn transfer_ownership(
        &mut self,
        asset_id: u64,
        caller: Address,
        new_issuer: Address,
        registry: &mut AssetRegistry,
    ) -> (r: ProtocolResult<()>)
        ensures
            r == issuer_check(old(registry).assets(), asset_id, caller),
            *final(self) == *old(self),
            *final(registry) == *old(registry),
    {
        match registry.get_asset(asset_id) {
            None => Err(ProtocolError::AssetError("asset not found")),
            Some(a) => if a.issuer != caller {
                Err(ProtocolError::Unauthorized)
            } else {
                Ok(())
            },
        }
    }
}

/// Whether an issuer may ask for an action: only for its own asset, not to freeze itself, and not to
/// hand the asset to itself.
pub open spec fn limitation(
    assets: Map<u64, Asset>,
    asset_id: u64,
    caller: Address,
    action: IssuerAction,
) -> ProtocolResult<()> {
    match issuer_check(assets, asset_id, caller) {
        Err(e) => Err(e),
        Ok(_) => match action {
            IssuerAction::FreezeAddress { target } if target == caller => Err(
                ProtocolError::Compliance("cannot freeze issuer"),
            ),
            IssuerAction::TransferOwnership { new_issuer } if new_issuer == caller => Err(
                ProtocolError::Unauthorized,
            ),
            _ => Ok(()),
        },
    }
}

pub fn verify_issuer_limitations(
    action: &IssuerAction,
    asset_id: u64,
    caller: Address,
    registry: &AssetRegistry,
) -> (r: ProtocolResult<()>)
    ensures
        r == limitation(registry.assets(), asset_id, caller, *action),
{
    let issuer: Address = match registry.get_asset(asset_id) {
        None => {
            return Err(ProtocolError::AssetError("asset not found"));
        },
        Some(a) => a.issuer,
    };
    if issuer != caller {
        return Err(ProtocolError::Unauthorized);
    }
    match *action {
        IssuerAction::FreezeAddress { target } => if target == issuer {
            Err(ProtocolError::Compliance("cannot freeze issuer"))
        } else {
            Ok(())
        },
        IssuerAction::TransferOwnership { new_issuer } => if new_issuer == caller {
            Err(ProtocolError::Unauthorized)
        } else {
            Ok(())
        },
        _ => Ok(()),
    }
}

/// Who is not the issuer of an asset changes nothing.
pub proof fn law_only_issuer_acts(
    assets: Map<u64, Asset>,
    frozen: Set<(u64, Address)>,
    balances: Map<(u64, Address), u128>,
    asset_id: u64,
    caller: Address,
    action: IssuerAction,
)
    requires
        assets.contains_key(asset_id) ==> assets[asset_id].issuer != caller,
    ensures
        ({
            let (r, f, b) = action_effect(assets, frozen, balances, asset_id, caller, action);
            r is Err && f == frozen && b == balances
        }),
{
}

/// An action on one asset leaves the accounts and balances of every other asset as they are.
pub proof fn law_other_assets_untouched(
    assets: Map<u64, Asset>,
    frozen: Set<(u64, Address)>,
    balances: Map<(u64, Address), u128>,
    asset_id: u64,
    caller: Address,
    action: IssuerAction,
    other: u64,
    account: Address,
)
    requires
        other != asset_id,
    ensures
        ({
            let (r, f, b) = action_effect(assets, frozen, balances, asset_id, caller, action);
            &&& f.contains((other, account)) == frozen.contains((other, account))
            &&& b.contains_key((other, account)) == balances.contains_key((other, account))
            &&& b.contains_key((other, account)) ==> b[(other, account)] == balances[(
                other,
                account,
            )]
        }),
{
}

/// An account that was frozen and then unfrozen is not frozen.
pub proof fn law_unfreeze_undoes_freeze(
    assets: Map<u64, Asset>,
    frozen: Set<(u64, Address)>,
    balances: Map<(u64, Address), u128>,
    asset_id: u64,
    caller: Address,
    target: Address,
)
    requires
        issuer_check(assets, asset_id, caller) is Ok,
        !frozen.contains((asset_id, target)),
    ensures
        ({
            let (_, f1, b1) = action_effect(
                assets,
                frozen,
                balances,
                asset_id,
                caller,
                IssuerAction::FreezeAddress { target },
            );
            let (_, f2, b2) = action_effect(
                assets,
                f1,
                b1,
                asset_id,
                caller,
                IssuerAction::UnfreezeAddress { target },
            );
            f1.contains((asset_id, target)) && f2 == frozen && b2 == balances
        }),
{
    assert(frozen.insert((asset_id, target)).remove((asset_id, target)) =~= frozen);
}

} // verus!
