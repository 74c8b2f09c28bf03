//! Storage slots behind any store.

use crate::words::{Address, U256};
use vstd::prelude::*;

verus! {

/// A store of slots. Reading may change the store, which can note what was read.
pub trait StorageBackend {
    fn load(&mut self, address: Address, slot: U256) -> U256;

    fn store(&mut self, address: Address, slot: U256, value: U256);
}

} // verus!
