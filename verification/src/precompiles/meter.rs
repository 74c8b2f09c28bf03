//! Gas rules for storage that is backed by a journal: what each access costs once the journal has
//! said whether the slot was cold and what it held.

use crate::precompiles::storage::{
    add_saturating, event_gas, log_gas, saturating_sum, PrecompileError,
};
use crate::words::{zero_word, U256};
use vstd::prelude::*;

verus! {

/// The gas counters of a call.
#[derive(Clone, Copy, Debug)]
pub struct GasMeter {
    pub limit: u64,
    pub remaining: u64,
    pub refunded: i64,
}

/// The cost of reading a slot.
pub open spec fn read_cost(is_cold: bool) -> u64 {
    if is_cold {
        2100
    } else {
        100
    }
}

/// The cost of writing a slot.
pub open spec fn write_cost(is_cold: bool) -> u64 {
    if is_cold {
        22100
    } else {
        20000
    }
}

/// The refund for writing a slot: for restoring its original value, and for clearing it.
pub open spec fn write_refund(original: U256, present: U256, value: U256) -> i64 {
    if original == value && present != value {
        4800
    } else if present != zero_word() && value == zero_word() {
        4800
    } else {
        0
    }
}

impl GasMeter {
    /// The counters after paying `gas`; unchanged where it is not there.
    pub open spec fn paid(self, gas: int) -> GasMeter {
        if gas <= self.remaining {
            GasMeter { remaining: (self.remaining - gas) as u64, ..self }
        } else {
            self
        }
    }

    pub fn new(limit: u64) -> (r: Self)
        ensures
            r == (GasMeter { limit, remaining: limit, refunded: 0 }),
    {
        GasMeter { limit, remaining: limit, refunded: 0 }
    }

    pub fn deduct(&mut self, gas: u64) -> (r: Result<(), PrecompileError>)
        ensures
            *final(self) == old(self).paid(gas as int),
            r == if gas <= old(self).remaining {
                Ok(())
            } else {
                Err(PrecompileError::OutOfGas)
            },
    {
        match self.remaining.checked_sub(gas) {
            Some(left) => {
                self.remaining = left;
                Ok(())
            },
            None => Err(PrecompileError::OutOfGas),
        }
    }

    pub fn refund(&mut self, gas: i64)
        ensures
            *final(self) == (GasMeter {
                refunded: saturating_sum(old(self).refunded, gas),
                ..*old(self)
            }),
    {
        self.refunded = add_saturating(self.refunded, gas);
    }

    /// The gas used so far.
    pub fn used(&self) -> (r: u64)
        ensures
            r == if self.remaining <= self.limit {
                self.limit - self.remaining
            } else {
                0
            },
    {
        self.limit.saturating_sub(self.remaining)
    }

    /// Pays for a slot that was read.
    pub fn settle_read(&mut self, is_cold: bool) -> (r: Result<(), PrecompileError>)
        ensures
            *final(self) == old(self).paid(read_cost(is_cold) as int),
            r == if read_cost(is_cold) <= old(self).remaining {
                Ok(())
            } else {
                Err(PrecompileError::OutOfGas)
            },
    {
        self.deduct(
            if is_cold {
                2100
            } else {
                100
            },
        )
    }

    /// Pays for a slot that was written, and takes the refund if there is one.
    pub fn settle_write(&mut self, is_cold: bool, original: U256, present: U256, value: U256) -> (r:
        Result<(), PrecompileError>)
        ensures
            write_cost(is_cold) > old(self).remaining ==> r == Err::<(), PrecompileError>(
                PrecompileError::OutOfGas,
            ) && *final(self) == *old(self),
            write_cost(is_cold) <= old(self).remaining ==> r == Ok::<(), PrecompileError>(())
                && *final(self) == (GasMeter {
                refunded: saturating_sum(
                    old(self).refunded,
                    write_refund(original, present, value),
                ),
                ..old(self).paid(write_cost(is_cold) as int)
            }),
    {
        self.deduct(
            if is_cold {
                22100
            } else {
                20000
            },
        )?;
        if original == value && present != value {
            self.refund(4800);
        } else if !present.is_zero() && value.is_zero() {
            self.refund(4800);
        }
        Ok(())
    }

    /// Pays for an access to transient storage.
    pub fn settle_transient(&mut self) -> (r: Result<(), PrecompileError>)
        ensures
            *final(self) == old(self).paid(100),
            r == if 100 <= old(self).remaining {
                Ok(())
            } else {
                Err(PrecompileError::OutOfGas)
            },
    {
        self.deduct(100)
    }

    /// Pays for a log record with so many topics and bytes.
    pub fn settle_log(&mut self, topics: usize, data: usize) -> (r: Result<(), PrecompileError>)
        ensures
            *final(self) == old(self).paid(log_gas(topics as nat, data as nat) as int),
            r == if log_gas(topics as nat, data as nat) <= old(self).remaining {
                Ok(())
            } else {
                Err(PrecompileError::OutOfGas)
            },
    {
        match event_gas(topics, data) {
            Some(gas) => self.deduct(gas),
            None => Err(PrecompileError::OutOfGas),
        }
    }
}

/// A call never uses more than its limit.
pub proof fn law_used_within_limit(m: GasMeter, gas: int)
    requires
        m.remaining <= m.limit,
        0 <= gas,
    ensures
        m.paid(gas).remaining <= m.paid(gas).limit,
        m.paid(gas).limit == m.limit,
{
}

} // verus!
