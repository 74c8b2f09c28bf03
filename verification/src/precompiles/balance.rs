//! Balances of the protocol layer, as a precompile sees them.

use crate::protocol::account::amount_of;
use crate::vec_map::VecMap;
use crate::words::Address;
use vstd::prelude::*;

verus! {

/// Balances by asset and account.
#[derive(Debug)]
pub struct ProtocolBalanceState {
    balances: VecMap<(u64, Address), u128>,
}

impl View for ProtocolBalanceState {
    type V = Map<(u64, Address), u128>;

    closed spec fn view(&self) -> Map<(u64, Address), u128> {
        self.balances@
    }
}

impl ProtocolBalanceState {
    pub fn new() -> (r: Self)
        ensures
            r@ == Map::<(u64, Address), u128>::empty(),
    {
        ProtocolBalanceState { balances: VecMap::new() }
    }

    pub fn get_balance(&self, asset_id: u64, address: &Address) -> (r: u128)
        ensures
            r == amount_of(self@, (asset_id, *address)),
    {
        match self.balances.get((asset_id, *address)) {
            Some(v) => *v,
            None => 0,
        }
    }

    pub fn set_balance(&mut self, asset_id: u64, address: Address, amount: u128)
        ensures
            final(self)@ == old(self)@.insert((asset_id, address), amount),
    {
        self.balances.insert((asset_id, address), amount);
    }
}

} // verus!
