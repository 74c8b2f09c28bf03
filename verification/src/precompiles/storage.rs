//! EVM storage as the precompiles see it: slots, transient slots, native balances, logs, gas and
//! nested checkpoints.
//!
//! [`World`] is the mathematical state; every operation of a [`StorageProvider`] is a function on
//! worlds. How the store behind a provider answers is part of the world: [`Backend`] lists, access
//! by access, whether the store answered and what the access cost.

use crate::bytes::push_all;
use crate::crypto::{keccak256, keccak256_word};
use crate::vec_map::VecMap;
use crate::words::{zero_address, zero_word, Address, U256};
use vstd::prelude::*;

verus! {

/// Why a precompile call failed.
#[derive(Debug)]
pub enum PrecompileError {
    /// The gas limit of the call is used up.
    OutOfGas,
    /// The call is refused, for the reason given.
    Other(&'static str),
    /// The amount of an agent payment is over the limit per payment.
    OverLimit { amount: u128, limit: u128 },
    /// The verifier of zero-knowledge proofs could not do its work.
    ProofSystem(String),
    /// A counter or a sum does not fit its type; the execution cannot go on.
    Fatal(&'static str),
}

/// Why a precompile call failed, as a mathematical value.
pub enum Fault {
    OutOfGas,
    Other(&'static str),
    OverLimit { amount: u128, limit: u128 },
    ProofSystem(Seq<char>),
    Fatal(&'static str),
}

impl View for PrecompileError {
    type V = Fault;

    open spec fn view(&self) -> Fault {
        match *self {
            PrecompileError::OutOfGas => Fault::OutOfGas,
            PrecompileError::Other(reason) => Fault::Other(reason),
            PrecompileError::OverLimit { amount, limit } => Fault::OverLimit { amount, limit },
            PrecompileError::ProofSystem(text) => Fault::ProofSystem(text@),
            PrecompileError::Fatal(reason) => Fault::Fatal(reason),
        }
    }
}

impl PrecompileError {
    pub fn is_oog(&self) -> (r: bool)
        ensures
            r == (*self is OutOfGas),
    {
        match self {
            PrecompileError::OutOfGas => true,
            _ => false,
        }
    }
}

/// What a precompile call hands back.
#[derive(Debug)]
pub struct PrecompileOutput {
    pub gas_used: u64,
    pub gas_refunded: i64,
    pub bytes: Vec<u8>,
    pub reverted: bool,
}

pub type PrecompileResult = Result<PrecompileOutput, PrecompileError>;

/// A log record without its emitter.
#[derive(Debug)]
pub struct LogData {
    pub topics: Vec<U256>,
    pub data: Vec<u8>,
}

impl LogData {
    pub fn duplicate(&self) -> (r: LogData)
        ensures
            r.topics@ == self.topics@,
            r.data@ == self.data@,
    {
        let mut topics: Vec<U256> = Vec::new();
        let mut i: usize = 0;
        while i < self.topics.len()
            invariant
                i <= self.topics@.len(),
                topics@ == self.topics@.subrange(0, i as int),
            decreases self.topics@.len() - i,
        {
            topics.push(self.topics[i]);
            i += 1;
        }
        let mut data: Vec<u8> = Vec::new();
        push_all(&mut data, self.data.as_slice());
        LogData { topics, data }
    }
}

/// A log record: emitter, topics and data.
pub struct LogModel {
    pub address: Address,
    pub topics: Seq<U256>,
    pub data: Seq<u8>,
}

/// How the store behind a provider answers one access.
pub enum Reply {
    /// The store did not answer.
    Lost,
    /// The store answered, at this cost and with this refund.
    Served { gas: u64, refund: i64 },
}

/// How the store behind a provider answers, access by access.
pub struct Backend {
    pub reads: Map<nat, Reply>,
    pub writes: Map<nat, Reply>,
    /// Whether a slot is written before the gas of the write is settled.
    pub writes_through: bool,
    /// Whether reverting to a checkpoint restores the gas counters.
    pub restores_gas: bool,
}

/// What a checkpoint remembers.
#[verifier::ext_equal]
pub struct Snapshot {
    pub slots: Map<(Address, U256), U256>,
    pub transient: Map<(Address, U256), U256>,
    pub balances: Map<Address, U256>,
    pub logs: Seq<LogModel>,
    pub gas: u64,
    pub refunded: i64,
}

/// The state that a precompile reads and changes.
#[verifier::ext_equal]
pub struct World {
    pub slots: Map<(Address, U256), U256>,
    pub transient: Map<(Address, U256), U256>,
    pub balances: Map<Address, U256>,
    pub logs: Seq<LogModel>,
    pub gas: u64,
    pub refunded: i64,
    pub gas_limit: u64,
    pub is_static: bool,
    pub chain_id: u64,
    pub timestamp: U256,
    pub block_number: u64,
    pub beneficiary: Address,
    pub saved: Seq<Snapshot>,
    pub backend: Backend,
    /// How many accesses the store has seen.
    pub accesses: nat,
}

/// The value bound to `k`, or the zero word.
pub open spec fn or_zero<K>(m: Map<K, U256>, k: K) -> U256 {
    if m.contains_key(k) {
        m[k]
    } else {
        zero_word()
    }
}

pub open spec fn saturating_sum(a: i64, b: i64) -> i64 {
    if a + b > i64::MAX {
        i64::MAX
    } else if a + b < i64::MIN {
        i64::MIN
    } else {
        (a + b) as i64
    }
}

/// The gas of a log record.
pub open spec fn log_gas(topics: nat, data: nat) -> nat {
    375 + 375 * topics + 8 * data
}

impl World {
    /// The word in a storage slot.
    pub open spec fn slot(self, address: Address, key: U256) -> U256 {
        or_zero(self.slots, (address, key))
    }

    pub open spec fn with_gas(self, gas: u64) -> World {
        World { gas, ..self }
    }

    /// The world after one more access.
    pub open spec fn accessed(self) -> World {
        World { accesses: self.accesses + 1, ..self }
    }

    pub open spec fn with_slot(self, address: Address, key: U256, value: U256) -> World {
        World { slots: self.slots.insert((address, key), value), ..self }
    }

    /// Paying for gas: fails, without effect, if there is not enough left.
    #[verifier::opaque]
    pub open spec fn charge(self, gas: int) -> (bool, World) {
        if gas <= self.gas {
            (true, self.with_gas((self.gas - gas) as u64))
        } else {
            (false, self)
        }
    }

    /// Reading a slot: the word, unless the store did not answer or the gas ran out.
    #[verifier::opaque]
    pub open spec fn sload(self, address: Address, key: U256) -> (Option<U256>, World) {
        match self.backend.reads[self.accesses] {
            Reply::Lost => (None, self.accessed()),
            Reply::Served { gas, .. } => if gas <= self.gas {
                (
                    Some(self.slot(address, key)),
                    self.accessed().with_gas((self.gas - gas) as u64),
                )
            } else {
                (None, self.accessed())
            },
        }
    }

    /// Writing a slot; refused in a static call.
    #[verifier::opaque]
    pub open spec fn sstore(self, address: Address, key: U256, value: U256) -> (bool, World) {
        if self.is_static {
            (false, self)
        } else {
            match self.backend.writes[self.accesses] {
                Reply::Lost => (false, self.accessed()),
                Reply::Served { gas, refund } => if gas <= self.gas {
                    (
                        true,
                        World {
                            refunded: saturating_sum(self.refunded, refund),
                            ..self.accessed().with_gas((self.gas - gas) as u64).with_slot(
                                address,
                                key,
                                value,
                            )
                        },
                    )
                } else if self.backend.writes_through {
                    (false, self.accessed().with_slot(address, key, value))
                } else {
                    (false, self.accessed())
                },
            }
        }
    }

    /// Reading a slot, where an access that fails reads as zero.
    pub open spec fn read(self, address: Address, key: U256) -> (U256, World) {
        let (r, w) = self.sload(address, key);
        (
            match r {
                Some(v) => v,
                None => zero_word(),
            },
            w,
        )
    }

    /// Writing a slot, whether or not the write goes through.
    pub open spec fn write(self, address: Address, key: U256, value: U256) -> World {
        self.sstore(address, key, value).1
    }

    #[verifier::opaque]
    pub open spec fn tload(self, address: Address, key: U256) -> (Option<U256>, World) {
        if 100 <= self.gas {
            (
                Some(or_zero(self.transient, (address, key))),
                self.with_gas((self.gas - 100) as u64),
            )
        } else {
            (None, self)
        }
    }

    #[verifier::opaque]
    pub open spec fn tstore(self, address: Address, key: U256, value: U256) -> (bool, World) {
        if !self.is_static && 100 <= self.gas {
            (
                true,
                World {
                    transient: self.transient.insert((address, key), value),
                    ..self.with_gas((self.gas - 100) as u64)
                },
            )
        } else {
            (false, self)
        }
    }

    /// Appending a log record, if its gas is there.
    #[verifier::opaque]
    pub open spec fn emit(self, log: LogModel) -> (bool, World) {
        let gas = log_gas(log.topics.len(), log.data.len());
        if gas <= self.gas {
            (true, World { logs: self.logs.push(log), ..self.with_gas((self.gas - gas) as u64) })
        } else {
            (false, self)
        }
    }

    pub open spec fn snapshot(self) -> Snapshot {
        Snapshot {
            slots: self.slots,
            transient: self.transient,
            balances: self.balances,
            logs: self.logs,
            gas: self.gas,
            refunded: self.refunded,
        }
    }

    /// Opening a checkpoint.
    #[verifier::opaque]
    pub open spec fn checkpoint(self) -> World {
        World { saved: self.saved.push(self.snapshot()), ..self }
    }

    /// Keeping what was done since the last checkpoint.
    #[verifier::opaque]
    pub open spec fn commit(self) -> World {
        if self.saved.len() > 0 {
            World { saved: self.saved.drop_last(), ..self }
        } else {
            self
        }
    }

    /// Undoing what was done since the last checkpoint.
    #[verifier::opaque]
    pub open spec fn revert(self) -> World {
        if self.saved.len() > 0 {
            let s = self.saved.last();
            World {
                slots: s.slots,
                transient: s.transient,
                balances: s.balances,
                logs: s.logs,
                gas: if self.backend.restores_gas { s.gas } else { self.gas },
                refunded: if self.backend.restores_gas { s.refunded } else { self.refunded },
                saved: self.saved.drop_last(),
                ..self
            }
        } else {
            self
        }
    }

    pub open spec fn refund(self, gas: i64) -> World {
        World { refunded: saturating_sum(self.refunded, gas), ..self }
    }

    pub open spec fn gas_used(self) -> u64 {
        if self.gas <= self.gas_limit {
            (self.gas_limit - self.gas) as u64
        } else {
            0
        }
    }

    /// Reading a native balance.
    #[verifier::opaque]
    pub open spec fn balance_get(self, address: Address) -> (Option<U256>, World) {
        match self.backend.reads[self.accesses] {
            Reply::Lost => (None, self.accessed()),
            Reply::Served { .. } => (Some(or_zero(self.balances, address)), self.accessed()),
        }
    }

    pub open spec fn with_balance(self, address: Address, value: U256) -> World {
        World { balances: self.balances.insert(address, value), ..self }
    }

    /// Crediting a native balance: refused in a static call and where the sum does not fit a word.
    #[verifier::opaque]
    pub open spec fn balance_add(self, address: Address, value: U256) -> (bool, World) {
        let sum = word_sum(or_zero(self.balances, address), value);
        if self.is_static {
            (false, self)
        } else if self.backend.writes[self.accesses] is Lost || sum is None {
            (false, self.accessed())
        } else {
            (true, self.accessed().with_balance(address, sum->0))
        }
    }

    /// Debiting a native balance: refused in a static call and where the balance is too low.
    #[verifier::opaque]
    pub open spec fn balance_sub(self, address: Address, value: U256) -> (bool, World) {
        let rest = word_difference(or_zero(self.balances, address), value);
        if self.is_static {
            (false, self)
        } else if self.backend.writes[self.accesses] is Lost || rest is None {
            (false, self.accessed())
        } else {
            (true, self.accessed().with_balance(address, rest->0))
        }
    }
}

/// The word of a number, if it fits.
pub open spec fn word_of_value(v: int) -> U256 {
    U256 { hi: (v / crate::words::limb()) as u128, lo: (v % crate::words::limb()) as u128 }
}

pub open spec fn word_sum(a: U256, b: U256) -> Option<U256> {
    if a.value() + b.value() < crate::words::limb() * crate::words::limb() {
        Some(word_of_value(a.value() + b.value()))
    } else {
        None
    }
}

pub open spec fn word_difference(a: U256, b: U256) -> Option<U256> {
    if a.value() >= b.value() {
        Some(word_of_value(a.value() - b.value()))
    } else {
        None
    }
}

/// A word is determined by its number.
pub proof fn lemma_word_of_value(w: U256)
    ensures
        word_of_value(w.value()) == w,
{
    let l = crate::words::limb();
    assert((w.hi * l + w.lo) / l == w.hi && (w.hi * l + w.lo) % l == w.lo as int)
        by (nonlinear_arith)
        requires
            0 <= w.lo < l,
            l > 0,
    ;
}

/// A journal position, as a provider hands it out.
#[derive(Clone, Copy, Debug, PartialEq, Eq)]
pub struct Checkpoint {
    pub log_index: usize,
    pub journal_index: usize,
}

/// Access to EVM storage on behalf of a precompile.
pub trait StorageProvider {
    /// The state behind the provider.
    spec fn world(&self) -> World;

    fn sload(&mut self, address: Address, key: U256) -> (r: Result<U256, PrecompileError>)
        ensures
            (r.ok(), final(self).world()) == old(self).world().sload(address, key),
    ;

    fn sstore(&mut self, address: Address, key: U256, value: U256) -> (r: Result<
        (),
        PrecompileError,
    >)
        ensures
            (r is Ok, final(self).world()) == old(self).world().sstore(address, key, value),
    ;

    fn tload(&mut self, address: Address, key: U256) -> (r: Result<U256, PrecompileError>)
        ensures
            (r.ok(), final(self).world()) == old(self).world().tload(address, key),
    ;

    fn tstore(&mut self, address: Address, key: U256, value: U256) -> (r: Result<
        (),
        PrecompileError,
    >)
        ensures
            (r is Ok, final(self).world()) == old(self).world().tstore(address, key, value),
    ;

    fn emit_event(&mut self, address: Address, event: LogData) -> (r: Result<(), PrecompileError>)
        ensures
            (r is Ok, final(self).world()) == old(self).world().emit(
                (LogModel { address, topics: event.topics@, data: event.data@ }),
            ),
    ;

    fn checkpoint(&mut self) -> (r: Checkpoint)
        ensures
            final(self).world() == old(self).world().checkpoint(),
    ;

    fn checkpoint_commit(&mut self, checkpoint: Checkpoint)
        ensures
            final(self).world() == old(self).world().commit(),
    ;

    fn checkpoint_revert(&mut self, checkpoint: Checkpoint)
        ensures
            final(self).world() == old(self).world().revert(),
    ;

    fn deduct_gas(&mut self, gas: u64) -> (r: Result<(), PrecompileError>)
        ensures
            (r is Ok, final(self).world()) == old(self).world().charge(gas as int),
    ;

    fn refund_gas(&mut self, gas: i64)
        ensures
            final(self).world() == old(self).world().refund(gas),
    ;

    fn gas_used(&self) -> (r: u64)
        ensures
            r == self.world().gas_used(),
    ;

    fn gas_refunded(&self) -> (r: i64)
        ensures
            r == self.world().refunded,
    ;

    fn is_static(&self) -> (r: bool)
        ensures
            r == self.world().is_static,
    ;

    fn chain_id(&self) -> (r: u64)
        ensures
            r == self.world().chain_id,
    ;

    fn timestamp(&self) -> (r: U256)
        ensures
            r == self.world().timestamp,
    ;

    fn block_number(&self) -> (r: u64)
        ensures
            r == self.world().block_number,
    ;

    fn beneficiary(&self) -> (r: Address)
        ensures
            r == self.world().beneficiary,
    ;

    fn balance_get(&mut self, address: Address) -> (r: Option<U256>)
        ensures
            (r, final(self).world()) == old(self).world().balance_get(address),
    ;

    fn balance_add(&mut self, address: Address, value: U256) -> (r: Option<()>)
        ensures
            (r is Some, final(self).world()) == old(self).world().balance_add(address, value),
    ;

    fn balance_sub(&mut self, address: Address, value: U256) -> (r: Option<()>)
        ensures
            (r is Some, final(self).world()) == old(self).world().balance_sub(address, value),
    ;
}

/// A provider that keeps everything in memory, at flat prices.
pub struct HashMapStorageProvider {
    persistent: VecMap<(Address, U256), U256>,
    transient: VecMap<(Address, U256), U256>,
    balances: VecMap<Address, U256>,
    logs: Vec<(Address, LogData)>,
    gas_remaining: u64,
    gas_refunded: i64,
    gas_limit: u64,
    is_static: bool,
    chain_id: u64,
    timestamp: U256,
    block_number: u64,
    beneficiary: Address,
    checkpoints: Vec<SavedState>,
    accesses: Ghost<nat>,
}

#[derive(Debug)]
struct SavedState {
    persistent: VecMap<(Address, U256), U256>,
    transient: VecMap<(Address, U256), U256>,
    balances: VecMap<Address, U256>,
    logs: Vec<(Address, LogData)>,
    gas_remaining: u64,
    gas_refunded: i64,
}

/// A store that always answers, at 100 gas a read and 20 000 gas a write.
pub open spec fn flat_backend() -> Backend {
    Backend {
        reads: Map::new(|n: nat| true, |n: nat| Reply::Served { gas: 100, refund: 0 }),
        writes: Map::new(|n: nat| true, |n: nat| Reply::Served { gas: 20000, refund: 0 }),
        writes_through: false,
        restores_gas: true,
    }
}

pub open spec fn log_model(l: (Address, LogData)) -> LogModel {
    LogModel { address: l.0, topics: l.1.topics@, data: l.1.data@ }
}

pub open spec fn log_models(s: Seq<(Address, LogData)>) -> Seq<LogModel> {
    Seq::new(s.len(), |i: int| log_model(s[i]))
}

impl SavedState {
    closed spec fn model(self) -> Snapshot {
        Snapshot {
            slots: self.persistent@,
            transient: self.transient@,
            balances: self.balances@,
            logs: log_models(self.logs@),
            gas: self.gas_remaining,
            refunded: self.gas_refunded,
        }
    }
}

spec fn saved_models(s: Seq<SavedState>) -> Seq<Snapshot> {
    Seq::new(s.len(), |i: int| s[i].model())
}

/// The records of `logs` that `address` emitted, in order.
pub open spec fn logs_of(logs: Seq<LogModel>, address: Address) -> Seq<LogModel> {
    logs.filter(|l: LogModel| l.address == address)
}

/// The state of a provider that nothing has used yet.
pub open spec fn fresh_world(gas_limit: u64, chain_id: u64, block_number: u64) -> World {
    World {
        slots: Map::empty(),
        transient: Map::empty(),
        balances: Map::empty(),
        logs: Seq::empty(),
        gas: gas_limit,
        refunded: 0,
        gas_limit,
        is_static: false,
        chain_id,
        timestamp: zero_word(),
        block_number,
        beneficiary: zero_address(),
        saved: Seq::empty(),
        backend: flat_backend(),
        accesses: 0,
    }
}

impl HashMapStorageProvider {
    closed spec fn model(&self) -> World {
        World {
            slots: self.persistent@,
            transient: self.transient@,
            balances: self.balances@,
            logs: log_models(self.logs@),
            gas: self.gas_remaining,
            refunded: self.gas_refunded,
            gas_limit: self.gas_limit,
            is_static: self.is_static,
            chain_id: self.chain_id,
            timestamp: self.timestamp,
            block_number: self.block_number,
            beneficiary: self.beneficiary,
            saved: saved_models(self.checkpoints@),
            backend: flat_backend(),
            accesses: self.accesses@,
        }
    }

    pub fn new(gas_limit: u64) -> (r: Self)
        ensures
            r.world() == fresh_world(gas_limit, 0, 0),
    {
        HashMapStorageProvider::with_block(gas_limit, 0, 0)
    }

    pub fn with_block(gas_limit: u64, chain_id: u64, block_number: u64) -> (r: Self)
        ensures
            r.world() == fresh_world(gas_limit, chain_id, block_number),
    {
        let r = HashMapStorageProvider {
            persistent: VecMap::new(),
            transient: VecMap::new(),
            balances: VecMap::new(),
            logs: Vec::new(),
            gas_remaining: gas_limit,
            gas_refunded: 0,
            gas_limit,
            is_static: false,
            chain_id,
            timestamp: zero_word(),
            block_number,
            beneficiary: zero_address(),
            checkpoints: Vec::new(),
            accesses: Ghost(0),
        };
        proof {
            assert(r.world().logs =~= Seq::<LogModel>::empty());
            assert(r.world().saved =~= Seq::<Snapshot>::empty());
        }
        r
    }

    /// The word in a slot, if the slot was ever written.
    pub fn get(&self, address: Address, key: U256) -> (r: Option<U256>)
        ensures
            r == if self.world().slots.contains_key((address, key)) {
                Some(self.world().slots[(address, key)])
            } else {
                None
            },
    {
        match self.persistent.get((address, key)) {
            Some(v) => Some(*v),
            None => None,
        }
    }

    /// Writes a slot without charging for it.
    pub fn set(&mut self, address: Address, key: U256, value: U256)
        ensures
            final(self).world() == old(self).world().with_slot(address, key, value),
    {
        self.persistent.insert((address, key), value);
    }

    pub fn set_block_number(&mut self, block_number: u64)
        ensures
            final(self).world() == (World { block_number, ..old(self).world() }),
    {
        self.block_number = block_number;
    }

    pub fn set_timestamp(&mut self, timestamp: U256)
        ensures
            final(self).world() == (World { timestamp, ..old(self).world() }),
    {
        self.timestamp = timestamp;
    }

    pub fn set_static(&mut self, is_static: bool)
        ensures
            final(self).world() == (World { is_static, ..old(self).world() }),
    {
        self.is_static = is_static;
    }

    /// The log records that `address` emitted, in order.
    pub fn events(&self, address: Address) -> (r: Vec<LogData>)
        ensures
            Seq::new(r@.len(), |i: int| log_model((address, r@[i]))) == logs_of(
                self.world().logs,
                address,
            ),
    {
        let mut out: Vec<LogData> = Vec::new();
        let mut i: usize = 0;
        let ghost all = log_models(self.logs@);
        let ghost keep = |l: LogModel| l.address == address;
        proof {
            assert(all.subrange(0, 0).filter(keep) =~= Seq::<LogModel>::empty()) by {
                reveal(Seq::filter);
            }
        }
        while i < self.logs.len()
            invariant
                i <= self.logs@.len(),
                all == log_models(self.logs@),
                keep == (|l: LogModel| l.address == address),
                Seq::new(out@.len(), |j: int| log_model((address, out@[j]))) == all.subrange(
                    0,
                    i as int,
                ).filter(keep),
            decreases self.logs@.len() - i,
        {
            let ghost before = out@;
            let ghost shown = Seq::new(before.len(), |j: int| log_model((address, before[j])));
            proof {
                let next = all.subrange(0, i + 1);
                assert(next.drop_last() =~= all.subrange(0, i as int));
                assert(next.last() == log_model(self.logs@[i as int]));
                reveal(Seq::filter);
            }
            if self.logs[i].0 == address {
                out.push(self.logs[i].1.duplicate());
                proof {
                    let now = Seq::new(out@.len(), |j: int| log_model((address, out@[j])));
                    assert(now =~= shown.push(log_model(self.logs@[i as int])));
                }
            }
            i += 1;
        }
        proof {
            assert(all.subrange(0, all.len() as int) =~= all);
        }
        out
    }
}

fn duplicate_logs(logs: &Vec<(Address, LogData)>) -> (r: Vec<(Address, LogData)>)
    ensures
        log_models(r@) == log_models(logs@),
{
    let mut out: Vec<(Address, LogData)> = Vec::new();
    let mut i: usize = 0;
    while i < logs.len()
        invariant
            i <= logs@.len(),
            log_models(out@) == log_models(logs@).subrange(0, i as int),
        decreases logs@.len() - i,
    {
        let ghost before = out@;
        out.push((logs[i].0, logs[i].1.duplicate()));
        proof {
            assert(log_models(before).len() == i);
            assert(log_models(out@) =~= log_models(before).push(log_model(logs@[i as int])));
            assert(log_models(logs@).subrange(0, i + 1) =~= log_models(logs@).subrange(
                0,
                i as int,
            ).push(log_model(logs@[i as int])));
        }
        i += 1;
    }
    proof {
        assert(log_models(logs@).subrange(0, logs@.len() as int) =~= log_models(logs@));
    }
    out
}

impl StorageProvider for HashMapStorageProvider {
    closed spec fn world(&self) -> World {
        self.model()
    }

    fn sload(&mut self, address: Address, key: U256) -> (r: Result<U256, PrecompileError>)
        ensures
            r matches Err(e) ==> e is OutOfGas,
    {
        proof {
            reveal(World::sload);
            self.accesses = Ghost(self.accesses@ + 1);
        }
        if self.gas_remaining < 100 {
            return Err(PrecompileError::OutOfGas);
        }
        self.gas_remaining = self.gas_remaining - 100;
        match self.persistent.get((address, key)) {
            Some(v) => Ok(*v),
            None => Ok(zero_word()),
        }
    }

    fn sstore(&mut self, address: Address, key: U256, value: U256) -> (r: Result<
        (),
        PrecompileError,
    >)
        ensures
            r matches Err(e) ==> e == if old(self).world().is_static {
                PrecompileError::Other("static call")
            } else {
                PrecompileError::OutOfGas
            },
    {
        proof {
            reveal(World::sstore);
        }
        if self.is_static {
            return Err(PrecompileError::Other("static call"));
        }
        proof {
            self.accesses = Ghost(self.accesses@ + 1);
        }
        if self.gas_remaining < 20000 {
            return Err(PrecompileError::OutOfGas);
        }
        self.gas_remaining = self.gas_remaining - 20000;
        self.persistent.insert((address, key), value);
        Ok(())
    }

    fn tload(&mut self, address: Address, key: U256) -> (r: Result<U256, PrecompileError>)
        ensures
            r matches Err(e) ==> e is OutOfGas,
    {
        proof {
            reveal(World::tload);
        }
        if self.gas_remaining < 100 {
            return Err(PrecompileError::OutOfGas);
        }
        self.gas_remaining = self.gas_remaining - 100;
        match self.transient.get((address, key)) {
            Some(v) => Ok(*v),
            None => Ok(zero_word()),
        }
    }

    fn tstore(&mut self, address: Address, key: U256, value: U256) -> (r: Result<
        (),
        PrecompileError,
    >)
        ensures
            r matches Err(e) ==> e == if old(self).world().is_static {
                PrecompileError::Other("static call")
            } else {
                PrecompileError::OutOfGas
            },
    {
        proof {
            reveal(World::tstore);
        }
        if self.is_static {
            return Err(PrecompileError::Other("static call"));
        }
        if self.gas_remaining < 100 {
            return Err(PrecompileError::OutOfGas);
        }
        self.gas_remaining = self.gas_remaining - 100;
        self.transient.insert((address, key), value);
        Ok(())
    }

    fn emit_event(&mut self, address: Address, event: LogData) -> (r: Result<(), PrecompileError>)
        ensures
            r matches Err(e) ==> e is OutOfGas,
    {
        proof {
            reveal(World::emit);
        }
        let gas: u64 = match event_gas(event.topics.len(), event.data.len()) {
            Some(g) => g,
            None => {
                return Err(PrecompileError::OutOfGas);
            },
        };
        if self.gas_remaining < gas {
            return Err(PrecompileError::OutOfGas);
        }
        self.gas_remaining = self.gas_remaining - gas;
        let ghost before = self.logs@;
        let ghost record = log_model((address, event));
        self.logs.push((address, event));
        proof {
            assert(log_models(self.logs@) =~= log_models(before).push(record));
        }
        Ok(())
    }

    fn checkpoint(&mut self) -> (r: Checkpoint) {
        proof {
            reveal(World::checkpoint);
        }
        let saved = SavedState {
            persistent: self.persistent.duplicate(),
            transient: self.transient.duplicate(),
            balances: self.balances.duplicate(),
            logs: duplicate_logs(&self.logs),
            gas_remaining: self.gas_remaining,
            gas_refunded: self.gas_refunded,
        };
        self.checkpoints.push(saved);
        proof {
            assert(self.world().saved =~= old(self).world().saved.push(old(self).world().snapshot()));
        }
        Checkpoint { log_index: 0, journal_index: 0 }
    }

    fn checkpoint_commit(&mut self, checkpoint: Checkpoint) {
        proof {
            reveal(World::commit);
        }
        let _ = self.checkpoints.pop();
        proof {
            if old(self).world().saved.len() > 0 {
                assert(self.world().saved =~= old(self).world().saved.drop_last());
            }
        }
    }

    fn checkpoint_revert(&mut self, checkpoint: Checkpoint) {
        proof {
            reveal(World::revert);
        }
        match self.checkpoints.pop() {
            Some(s) => {
                self.persistent = s.persistent;
                self.transient = s.transient;
                self.balances = s.balances;
                self.logs = s.logs;
                self.gas_remaining = s.gas_remaining;
                self.gas_refunded = s.gas_refunded;
                proof {
                    assert(self.world().saved =~= old(self).world().saved.drop_last());
                }
            },
            None => {},
        }
    }

    fn deduct_gas(&mut self, gas: u64) -> (r: Result<(), PrecompileError>)
        ensures
            r matches Err(e) ==> e is OutOfGas,
    {
        proof {
            reveal(World::charge);
        }
        if self.gas_remaining < gas {
            return Err(PrecompileError::OutOfGas);
        }
        self.gas_remaining = self.gas_remaining - gas;
        Ok(())
    }

    fn refund_gas(&mut self, gas: i64) {
        self.gas_refunded = add_saturating(self.gas_refunded, gas);
    }

    fn gas_used(&self) -> (r: u64) {
        self.gas_limit.saturating_sub(self.gas_remaining)
    }

    fn gas_refunded(&self) -> (r: i64) {
        self.gas_refunded
    }

    fn is_static(&self) -> (r: bool) {
        self.is_static
    }

    fn chain_id(&self) -> (r: u64) {
        self.chain_id
    }

    fn timestamp(&self) -> (r: U256) {
        self.timestamp
    }

    fn block_number(&self) -> (r: u64) {
        self.block_number
    }

    fn beneficiary(&self) -> (r: Address) {
        self.beneficiary
    }

    fn balance_get(&mut self, address: Address) -> (r: Option<U256>) {
        proof {
            reveal(World::balance_get);
            self.accesses = Ghost(self.accesses@ + 1);
        }
        match self.balances.get(address) {
            Some(v) => Some(*v),
            None => Some(zero_word()),
        }
    }

    fn balance_add(&mut self, address: Address, value: U256) -> (r: Option<()>) {
        proof {
            reveal(World::balance_add);
        }
        if self.is_static {
            return None;
        }
        proof {
            self.accesses = Ghost(self.accesses@ + 1);
        }
        let held = match self.balances.get(address) {
            Some(v) => *v,
            None => zero_word(),
        };
        match held.checked_add(value) {
            Some(sum) => {
                proof {
                    lemma_word_of_value(sum);
                }
                self.balances.insert(address, sum);
                Some(())
            },
            None => None,
        }
    }

    fn balance_sub(&mut self, address: Address, value: U256) -> (r: Option<()>) {
        proof {
            reveal(World::balance_sub);
        }
        if self.is_static {
            return None;
        }
        proof {
            self.accesses = Ghost(self.accesses@ + 1);
        }
        let held = match self.balances.get(address) {
            Some(v) => *v,
            None => zero_word(),
        };
        match held.checked_sub(value) {
            Some(rest) => {
                proof {
                    lemma_word_of_value(rest);
                }
                self.balances.insert(address, rest);
                Some(())
            },
            None => None,
        }
    }
}

/// The gas of a log record, if it fits 64 bits.
pub fn event_gas(topics: usize, data: usize) -> (r: Option<u64>)
    ensures
        match r {
            Some(g) => g as nat == log_gas(topics as nat, data as nat),
            None => log_gas(topics as nat, data as nat) > u64::MAX,
        },
{
    let gas: u128 = 375 + 375 * (topics as u128) + 8 * (data as u128);
    if gas <= u64::MAX as u128 {
        Some(gas as u64)
    } else {
        None
    }
}

/// The sum, cut off at the ends of the range.
pub fn add_saturating(a: i64, b: i64) -> (r: i64)
    ensures
        r == saturating_sum(a, b),
{
    match a.checked_add(b) {
        Some(s) => s,
        None => if b > 0 {
            i64::MAX
        } else {
            i64::MIN
        },
    }
}

/// Storage access for precompiles, where a failed access is an absent result.
#[derive(Clone, Copy, Debug)]
pub struct StorageCtx;

impl StorageCtx {
    pub fn sload<P: StorageProvider>(provider: &mut P, address: Address, key: U256) -> (r: Option<
        U256,
    >)
        ensures
            (r, final(provider).world()) == old(provider).world().sload(address, key),
    {
        provider.sload(address, key).ok()
    }

    pub fn sstore<P: StorageProvider>(
        provider: &mut P,
        address: Address,
        key: U256,
        value: U256,
    ) -> (r: Option<()>)
        ensures
            (r is Some, final(provider).world()) == old(provider).world().sstore(
                address,
                key,
                value,
            ),
    {
        provider.sstore(address, key, value).ok()
    }

    /// The word in a slot; zero where the access fails.
    pub fn read<P: StorageProvider>(provider: &mut P, address: Address, key: U256) -> (r: U256)
        ensures
            (r, final(provider).world()) == old(provider).world().read(address, key),
    {
        match StorageCtx::sload(provider, address, key) {
            Some(v) => v,
            None => zero_word(),
        }
    }

    /// Writes a slot; nothing is reported where the access fails.
    pub fn write<P: StorageProvider>(provider: &mut P, address: Address, key: U256, value: U256)
        ensures
            final(provider).world() == old(provider).world().write(address, key, value),
    {
        let _ = StorageCtx::sstore(provider, address, key, value);
    }

    pub fn tload<P: StorageProvider>(provider: &mut P, address: Address, key: U256) -> (r: Option<
        U256,
    >)
        ensures
            (r, final(provider).world()) == old(provider).world().tload(address, key),
    {
        provider.tload(address, key).ok()
    }

    pub fn tstore<P: StorageProvider>(
        provider: &mut P,
        address: Address,
        key: U256,
        value: U256,
    ) -> (r: Option<()>)
        ensures
            (r is Some, final(provider).world()) == old(provider).world().tstore(
                address,
                key,
                value,
            ),
    {
        provider.tstore(address, key, value).ok()
    }

    pub fn is_static<P: StorageProvider>(provider: &P) -> (r: bool)
        ensures
            r == provider.world().is_static,
    {
        provider.is_static()
    }

    pub fn gas_used<P: StorageProvider>(provider: &P) -> (r: u64)
        ensures
            r == provider.world().gas_used(),
    {
        provider.gas_used()
    }

    pub fn gas_refunded<P: StorageProvider>(provider: &P) -> (r: i64)
        ensures
            r == provider.world().refunded,
    {
        provider.gas_refunded()
    }

    pub fn chain_id<P: StorageProvider>(provider: &P) -> (r: u64)
        ensures
            r == provider.world().chain_id,
    {
        provider.chain_id()
    }

    pub fn timestamp<P: StorageProvider>(provider: &P) -> (r: U256)
        ensures
            r == provider.world().timestamp,
    {
        provider.timestamp()
    }

    pub fn block_number<P: StorageProvider>(provider: &P) -> (r: u64)
        ensures
            r == provider.world().block_number,
    {
        provider.block_number()
    }

    pub fn beneficiary<P: StorageProvider>(provider: &P) -> (r: Address)
        ensures
            r == provider.world().beneficiary,
    {
        provider.beneficiary()
    }

    pub fn emit_event<P: StorageProvider>(
        provider: &mut P,
        address: Address,
        event: LogData,
    ) -> (r: Option<()>)
        ensures
            (r is Some, final(provider).world()) == old(provider).world().emit(
                (LogModel { address, topics: event.topics@, data: event.data@ }),
            ),
    {
        provider.emit_event(address, event).ok()
    }

    /// Opens a checkpoint; the guard closes it, one way or the other.
    pub fn checkpoint<P: StorageProvider>(provider: &mut P) -> (r: CheckpointGuard)
        ensures
            final(provider).world() == old(provider).world().checkpoint(),
    {
        CheckpointGuard { checkpoint: provider.checkpoint() }
    }

    pub fn deduct_gas<P: StorageProvider>(provider: &mut P, gas: u64) -> (r: Option<()>)
        ensures
            (r is Some, final(provider).world()) == old(provider).world().charge(gas as int),
    {
        provider.deduct_gas(gas).ok()
    }

    pub fn refund_gas<P: StorageProvider>(provider: &mut P, gas: i64)
        ensures
            final(provider).world() == old(provider).world().refund(gas),
    {
        provider.refund_gas(gas);
    }

    pub fn balance_get<P: StorageProvider>(provider: &mut P, address: Address) -> (r: Option<U256>)
        ensures
            (r, final(provider).world()) == old(provider).world().balance_get(address),
    {
        provider.balance_get(address)
    }

    pub fn balance_add<P: StorageProvider>(
        provider: &mut P,
        address: Address,
        value: U256,
    ) -> (r: Option<()>)
        ensures
            (r is Some, final(provider).world()) == old(provider).world().balance_add(
                address,
                value,
            ),
    {
        provider.balance_add(address, value)
    }

    pub fn balance_sub<P: StorageProvider>(
        provider: &mut P,
        address: Address,
        value: U256,
    ) -> (r: Option<()>)
        ensures
            (r is Some, final(provider).world()) == old(provider).world().balance_sub(
                address,
                value,
            ),
    {
        provider.balance_sub(address, value)
    }
}

/// An open checkpoint: what was done since is kept by [`CheckpointGuard::commit`] and undone by
/// [`CheckpointGuard::revert`].
#[derive(Debug)]
pub struct CheckpointGuard {
    checkpoint: Checkpoint,
}

impl CheckpointGuard {
    pub fn commit<P: StorageProvider>(self, provider: &mut P)
        ensures
            final(provider).world() == old(provider).world().commit(),
    {
        provider.checkpoint_commit(self.checkpoint);
    }

    pub fn revert<P: StorageProvider>(self, provider: &mut P)
        ensures
            final(provider).world() == old(provider).world().revert(),
    {
        provider.checkpoint_revert(self.checkpoint);
    }
}

/// Gas for decoding one 32-byte word of calldata.
pub const INPUT_PER_WORD_COST: u64 = 6;

/// The gas for decoding `len` bytes of calldata: so much per word begun.
pub fn input_cost(len: usize) -> (r: u64)
    ensures
        r == if ((len + 31) / 32) * 6 <= usize::MAX {
            ((len + 31) / 32) * 6
        } else {
            usize::MAX as int
        },
{
    let words: usize = len / 32 + if len % 32 == 0 { 0 } else { 1 };
    if words <= usize::MAX / 6 {
        (words * 6) as u64
    } else {
        usize::MAX as u64
    }
}

/// All byte strings of `parts` in a row.
pub open spec fn concatenation(parts: Seq<&[u8]>) -> Seq<u8>
    decreases parts.len(),
{
    if parts.len() == 0 {
        Seq::empty()
    } else {
        concatenation(parts.drop_last()) + parts.last()@
    }
}

/// The storage slot of a key given in parts: the hash of the parts in a row.
pub fn storage_slot(parts: &[&[u8]]) -> (r: U256)
    ensures
        r == keccak256_word(concatenation(parts@)),
{
    let mut key: Vec<u8> = Vec::new();
    let mut i: usize = 0;
    while i < parts.len()
        invariant
            i <= parts@.len(),
            key@ == concatenation(parts@.subrange(0, i as int)),
        decreases parts@.len() - i,
    {
        push_all(&mut key, parts[i]);
        proof {
            assert(parts@.subrange(0, i + 1).drop_last() =~= parts@.subrange(0, i as int));
        }
        i += 1;
    }
    proof {
        assert(parts@.subrange(0, parts@.len() as int) =~= parts@);
    }
    keccak256(key.as_slice())
}

/// What a call comes to, as a mathematical value.
pub enum Outcome {
    Done { gas_used: u64, gas_refunded: i64, data: Seq<u8>, reverted: bool },
    Failed(Fault),
}

/// The outcome that a result stands for.
pub open spec fn outcome(r: PrecompileResult) -> Outcome {
    match r {
        Ok(o) => Outcome::Done {
            gas_used: o.gas_used,
            gas_refunded: o.gas_refunded,
            data: o.bytes@,
            reverted: o.reverted,
        },
        Err(e) => Outcome::Failed(e@),
    }
}

/// A call that is refused with a reason.
pub open spec fn refused(reason: &'static str) -> Outcome {
    Outcome::Failed(Fault::Other(reason))
}

/// A call that ran out of gas.
pub open spec fn out_of_gas() -> Outcome {
    Outcome::Failed(Fault::OutOfGas)
}

/// A call that cannot go on because a number outgrew its type.
pub open spec fn fatal(reason: &'static str) -> Outcome {
    Outcome::Failed(Fault::Fatal(reason))
}

impl World {
    /// Success with `data`, at the gas used so far.
    pub open spec fn done(self, data: Seq<u8>) -> Outcome {
        Outcome::Done {
            gas_used: self.gas_used(),
            gas_refunded: self.refunded,
            data,
            reverted: false,
        }
    }
}

/// Fills in the gas used and, unless the output is reverted, the gas refunded.
pub fn fill_precompile_output<P: StorageProvider>(output: PrecompileOutput, provider: &P) -> (r:
    PrecompileOutput)
    ensures
        r == (PrecompileOutput {
            gas_used: provider.world().gas_used(),
            gas_refunded: if output.reverted {
                output.gas_refunded
            } else {
                provider.world().refunded
            },
            ..output
        }),
{
    PrecompileOutput {
        gas_used: provider.gas_used(),
        gas_refunded: if output.reverted {
            output.gas_refunded
        } else {
            provider.gas_refunded()
        },
        ..output
    }
}

/// Success with `bytes`.
pub fn ok_bytes<P: StorageProvider>(provider: &P, bytes: Vec<u8>) -> (r: PrecompileResult)
    ensures
        outcome(r) == provider.world().done(bytes@),
{
    Ok(
        fill_precompile_output(
            PrecompileOutput { gas_used: 0, gas_refunded: 0, bytes, reverted: false },
            provider,
        ),
    )
}

/// Success without output.
pub fn ok_empty<P: StorageProvider>(provider: &P) -> (r: PrecompileResult)
    ensures
        outcome(r) == provider.world().done(Seq::empty()),
{
    ok_bytes(provider, Vec::new())
}

/// A precompile: it answers calls against storage.
pub trait StatefulPrecompile: Sized {
    /// What a call comes to, and the state it leaves.
    spec fn effect(&self, w: World, calldata: Seq<u8>, sender: Address) -> (Outcome, World);

    /// Whether what the precompile was given to work with can be relied on.
    spec fn ready(&self) -> bool;

    fn call<P: StorageProvider>(
        &mut self,
        storage: &mut P,
        calldata: &[u8],
        msg_sender: Address,
    ) -> (r: PrecompileResult)
        requires
            old(self).ready(),
        ensures
            (outcome(r), final(storage).world()) == old(self).effect(
                old(storage).world(),
                calldata@,
                msg_sender,
            ),
            *final(self) == *old(self),
    ;
}

} // verus!
