//! The storage of a running call as a store of slots.

use crate::precompiles::storage::{StorageCtx, StorageProvider};
use crate::protocol::storage_backend::StorageBackend;
use crate::words::{Address, U256};
use vstd::prelude::*;

verus! {

/// A store of slots kept by a provider. A read that fails reads as zero, and a write that fails
/// passes in silence.
#[derive(Debug)]
pub struct JournalBackend<P: StorageProvider> {
    pub provider: P,
}

impl<P: StorageProvider> StorageBackend for JournalBackend<P> {
    fn load(&mut self, address: Address, slot: U256) -> (r: U256)
        ensures
            (r, final(self).provider.world()) == old(self).provider.world().read(address, slot),
    {
        StorageCtx::read(&mut self.provider, address, slot)
    }

    fn store(&mut self, address: Address, slot: U256, value: U256)
        ensures
            final(self).provider.world() == old(self).provider.world().write(address, slot, value),
    {
        StorageCtx::write(&mut self.provider, address, slot, value);
    }
}

} // verus!
