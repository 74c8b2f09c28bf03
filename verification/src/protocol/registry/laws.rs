//! What changes to assets, by issuers and on the EVM side, come to, said of the assets before and
//! after.

use crate::protocol::account::amount_of;
use crate::protocol::errors::ProtocolError;
use crate::protocol::issuer::{action_effect, limitation, IssuerAction};
use crate::protocol::registry::{
    burn_effect, evm_burn_effect, evm_mint_effect, issuer_check, mint_effect, set_status, Asset,
    AssetStatus,
};
use crate::words::Address;
use vstd::prelude::*;

verus! {

/// Whether an account is the issuer of an asset that is on record.
pub open spec fn issues(assets: Map<u64, Asset>, id: u64, caller: Address) -> bool {
    assets.contains_key(id) && assets[id].issuer == caller
}

/// What there is of an asset on both sides.
pub open spec fn in_all(a: Asset) -> int {
    a.protocol_supply + a.evm_supply
}

/// Only the issuer of an asset on record passes for it; a missing asset and a wrong caller are told
/// apart.
pub proof fn law_issuer_is_told(assets: Map<u64, Asset>, id: u64, caller: Address)
    ensures
        issuer_check(assets, id, caller) is Ok <==> issues(assets, id, caller),
        assets.contains_key(id) && assets[id].issuer != caller ==> issuer_check(assets, id, caller)
            == Err::<(), ProtocolError>(ProtocolError::Unauthorized),
        !assets.contains_key(id) ==> issuer_check(assets, id, caller) == Err::<(), ProtocolError>(
            ProtocolError::AssetError("asset not found"),
        ),
{
}

/// The issuer, and nobody else, sets the standing of an asset, and only that.
pub proof fn law_status_is_set_exactly(
    assets: Map<u64, Asset>,
    id: u64,
    caller: Address,
    status: AssetStatus,
)
    ensures
        ({
            let (r, after) = set_status(assets, id, caller, status);
            &&& r is Ok <==> issues(assets, id, caller)
            &&& r is Ok ==> after == assets.insert(id, (Asset { status, ..assets[id] }))
            &&& r is Err ==> after == assets
        }),
{
}

/// Minting goes through exactly where the issuer asks and what there is on both sides stays within
/// the cap, if there is one, and within its type; it raises the protocol's supply by the amount and
/// changes nothing else.
pub proof fn law_mint_is_exact(assets: Map<u64, Asset>, id: u64, caller: Address, amount: u128)
    requires
        assets.contains_key(id) ==> in_all(assets[id]) + amount <= u128::MAX,
    ensures
        ({
            let (r, after) = mint_effect(assets, id, caller, amount);
            let a = assets[id];
            &&& r is Ok <==> issues(assets, id, caller) && (a.max_supply == 0 || in_all(a) + amount
                <= a.max_supply)
            &&& r is Ok ==> after == assets.insert(
                id,
                (Asset { protocol_supply: (a.protocol_supply + amount) as u128, ..a }),
            )
            &&& r is Err ==> after == assets
        }),
{
}

/// Burning goes through exactly where the issuer asks and the protocol's supply covers the amount; it
/// lowers that supply by the amount and changes nothing else.
pub proof fn law_burn_is_exact(assets: Map<u64, Asset>, id: u64, caller: Address, amount: u128)
    ensures
        ({
            let (r, after) = burn_effect(assets, id, caller, amount);
            let a = assets[id];
            &&& r is Ok <==> issues(assets, id, caller) && a.protocol_supply >= amount
            &&& r is Ok ==> after == assets.insert(
                id,
                (Asset { protocol_supply: (a.protocol_supply - amount) as u128, ..a }),
            )
            &&& r is Err ==> after == assets
        }),
{
}

/// On the EVM side supply rises exactly where both sides together stay within the cap, if there is
/// one, and falls exactly where it covers the amount; nothing else changes.
pub proof fn law_evm_supply_is_exact(assets: Map<u64, Asset>, id: u64, amount: u128)
    requires
        assets.contains_key(id) ==> in_all(assets[id]) + amount <= u128::MAX,
    ensures
        ({
            let (r, more) = evm_mint_effect(assets, id, amount);
            let (s, less) = evm_burn_effect(assets, id, amount);
            let a = assets[id];
            &&& r is Ok <==> assets.contains_key(id) && (a.max_supply == 0 || in_all(a) + amount
                <= a.max_supply)
            &&& r is Ok ==> more == assets.insert(
                id,
                (Asset { evm_supply: (a.evm_supply + amount) as u128, ..a }),
            )
            &&& r is Err ==> more == assets
            &&& s is Ok <==> assets.contains_key(id) && a.evm_supply >= amount
            &&& s is Ok ==> less == assets.insert(
                id,
                (Asset { evm_supply: (a.evm_supply - amount) as u128, ..a }),
            )
            &&& s is Err ==> less == assets
        }),
{
}

/// Minting never takes the protocol's supply past its type: it fails and changes nothing.
pub proof fn law_no_mint_past_the_type(
    assets: Map<u64, Asset>,
    id: u64,
    caller: Address,
    amount: u128,
)
    requires
        assets.contains_key(id),
        assets[id].protocol_supply + amount > u128::MAX,
    ensures
        mint_effect(assets, id, caller, amount).0 is Err,
        mint_effect(assets, id, caller, amount).1 == assets,
{
}

/// An issuer's action does just what it says: minting and burning change the balance of the account
/// named by the amount, freezing and unfreezing the standing of the account named, and the others
/// neither; it takes the issuer, room to mint and cover to burn.
pub proof fn law_action_is_exact(
    assets: Map<u64, Asset>,
    frozen: Set<(u64, Address)>,
    balances: Map<(u64, Address), u128>,
    asset_id: u64,
    caller: Address,
    action: IssuerAction,
)
    ensures
        ({
            let (r, f, b) = action_effect(assets, frozen, balances, asset_id, caller, action);
            let known = issues(assets, asset_id, caller);
            &&& r is Err ==> f == frozen && b == balances
            &&& action matches IssuerAction::Mint { to, amount } ==> {
                let held = amount_of(balances, (asset_id, to));
                &&& r is Ok <==> known && held + amount <= u128::MAX
                &&& r is Ok ==> f == frozen && b == balances.insert(
                    (asset_id, to),
                    (held + amount) as u128,
                )
            }
            &&& action matches IssuerAction::Burn { from, amount } ==> {
                let held = amount_of(balances, (asset_id, from));
                &&& r is Ok <==> known && held >= amount
                &&& r is Ok ==> f == frozen && b == balances.insert(
                    (asset_id, from),
                    (held - amount) as u128,
                )
            }
            &&& action matches IssuerAction::FreezeAddress { target } ==> {
                &&& r is Ok <==> known
                &&& r is Ok ==> f == frozen.insert((asset_id, target)) && b == balances
            }
            &&& action matches IssuerAction::UnfreezeAddress { target } ==> {
                &&& r is Ok <==> known
                &&& r is Ok ==> f == frozen.remove((asset_id, target)) && b == balances
            }
            &&& action is UpdatePolicy || action is TransferOwnership ==> {
                &&& r is Ok <==> known
                &&& f == frozen
                &&& b == balances
            }
        }),
{
}

/// An issuer may not freeze itself nor hand an asset to itself; whatever else it may do, nobody else
/// may.
pub proof fn law_limits_of_issuers(
    assets: Map<u64, Asset>,
    asset_id: u64,
    caller: Address,
    action: IssuerAction,
)
    ensures
        limitation(assets, asset_id, caller, action) is Ok <==> {
            &&& issues(assets, asset_id, caller)
            &&& action != (IssuerAction::FreezeAddress { target: caller })
            &&& action != (IssuerAction::TransferOwnership { new_issuer: caller })
        },
{
}

} // verus!
