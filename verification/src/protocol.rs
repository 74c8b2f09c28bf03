//! Accounts, assets, fees and the rules of the protocol layer.

pub mod account;
pub mod balances;
pub mod compliance;
pub mod economics;
pub mod errors;
pub mod fee_currency;
pub mod gas;
pub mod governance;
pub mod instructions;
pub mod issuer;
pub mod laws;
pub mod oracle;
pub mod receipts;
pub mod registry;
pub mod security;
pub mod smart_accounts;
pub mod sponsor;
pub mod storage_backend;

use crate::words::Address;
use vstd::prelude::*;

verus! {

/// The id of the native asset.
pub const CALL_ASSET_ID: u64 = 1;

/// The account that the bridge uses on the EVM layer: every byte of it is 0xff.
#[verifier::allow_in_spec]
pub fn bridge_evm_address() -> Address
    returns
        (Address { hi: 0xffff_ffff, lo: u128::MAX }),
{
    Address { hi: 0xffff_ffff, lo: u128::MAX }
}

} // verus!
