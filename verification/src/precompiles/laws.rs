//! What calls read and answer, where they go, and what they cost, said of bytes and numbers.

use crate::bytes::{
    base, be_bytes, be_nat, lemma_base_values, lemma_be_bytes_len, lemma_be_nat_bound,
    lemma_be_nat_concat, lemma_read_of_write,
};
use crate::precompiles::abi::{
    address_at, address_word_bytes, addresses_at, amounts_at, bytes_at, number_word, selector_of,
    u128_at, u64_at, word_at, words_at,
};
use crate::precompiles::agent::agent_effect;
use crate::precompiles::asset::asset_effect;
use crate::precompiles::bridge::bridge_effect;
use crate::precompiles::compliance::compliance_effect;
use crate::precompiles::dispatch::{mutate_effect, view_effect};
use crate::precompiles::governance::governance_effect;
use crate::precompiles::meter::{read_cost, write_cost, write_refund, GasMeter};
use crate::precompiles::oracle::oracle_effect;
use crate::precompiles::runner::{
    custom_effect, custom_report, standard_report, ErrorModel, StandardReply,
};
use crate::precompiles::shielded::{shielded_effect, ProofRequest};
use crate::precompiles::steps::law_checkpoint;
use crate::precompiles::storage::{
    or_zero, saturating_sum, Fault, LogModel, Outcome, Reply, StatefulPrecompile, World,
};
use crate::precompiles::switch::switch_effect;
use crate::precompiles::validator::validator_effect;
use crate::words::{
    address_of, lemma_address_from_be_of_bytes, lemma_word_from_be_of_bytes, limb, u64_of, u8_of,
    zero_word, Address, U256,
};
use vstd::prelude::*;

verus! {

/// A number in a call is in the last bytes of its word, the most significant first.
pub proof fn law_numbers_are_big_endian(input: Seq<u8>, at: int)
    requires
        0 <= at,
        at + 32 <= input.len(),
    ensures
        u64_at(input, at) % 0x100 == input[at + 31],
        u64_at(input, at) / 0x100_0000_0000_0000 == input[at + 24],
        u128_at(input, at) % 0x100 == input[at + 31],
        u128_at(input, at) / 0x100_0000_0000_0000_0000_0000_0000_0000 == input[at + 16],
        u64_at(input, at) == u128_at(input, at) % 0x1_0000_0000_0000_0000,
{
    reveal(u64_at);
    reveal(u128_at);
    lemma_base_values();
    let short = input.subrange(at + 24, at + 32);
    let long = input.subrange(at + 16, at + 32);
    lemma_be_nat_bound(short);
    lemma_be_nat_bound(long);
    lemma_ends(short);
    lemma_ends(long);
    let front = input.subrange(at + 16, at + 24);
    assert(front + short =~= long);
    lemma_be_nat_concat(front, short);
    let x = be_nat(front);
    let y = be_nat(short);
    assert((x * 0x1_0000_0000_0000_0000 + y) % 0x1_0000_0000_0000_0000 == y) by (nonlinear_arith)
        requires
            0 <= y < 0x1_0000_0000_0000_0000,
            x >= 0,
    ;
}

proof fn lemma_ends(s: Seq<u8>)
    requires
        s.len() == 8 || s.len() == 16,
    ensures
        be_nat(s) % 256 == s.last(),
        s.len() == 8 ==> be_nat(s) / 0x100_0000_0000_0000 == s[0],
        s.len() == 16 ==> be_nat(s) / 0x100_0000_0000_0000_0000_0000_0000_0000 == s[0],
{
    lemma_base_values();
    let head = s.subrange(0, 1);
    let rest = s.subrange(1, s.len() as int);
    assert(head + rest =~= s);
    lemma_be_nat_concat(head, rest);
    lemma_be_nat_bound(rest);
    reveal_with_fuel(be_nat, 2);
    reveal_with_fuel(base, 16);
    assert(be_nat(head) == s[0]) by {
        assert(head.drop_last().len() == 0);
    }
    let x = s[0] as nat;
    let y = be_nat(rest);
    if s.len() == 8 {
        assert(base(7) == 0x100_0000_0000_0000);
        assert((x * 0x100_0000_0000_0000 + y) / 0x100_0000_0000_0000 == x) by (nonlinear_arith)
            requires
                0 <= y < 0x100_0000_0000_0000,
        ;
    } else {
        assert(base(15) == 0x100_0000_0000_0000_0000_0000_0000_0000);
        assert((x * 0x100_0000_0000_0000_0000_0000_0000_0000 + y)
            / 0x100_0000_0000_0000_0000_0000_0000_0000 == x) by (nonlinear_arith)
            requires
                0 <= y < 0x100_0000_0000_0000_0000_0000_0000_0000,
        ;
    }
}

/// What is written into a call, or answered, is read back: a number, an amount, an account, a word.
pub proof fn law_written_is_read(
    input: Seq<u8>,
    at: int,
    number: u64,
    amount: u128,
    account: Address,
    w: U256,
)
    requires
        0 <= at,
        at + 32 <= input.len(),
    ensures
        input.subrange(at, at + 32) == number_word(number as nat, 8) ==> u64_at(input, at) == number,
        input.subrange(at, at + 32) == number_word(amount as nat, 16) ==> u128_at(input, at)
            == amount,
        input.subrange(at, at + 32) == address_word_bytes(account) ==> address_at(input, at)
            == account,
        input.subrange(at, at + 32) == w.bytes() ==> word_at(input, at) == w,
{
    reveal(u64_at);
    reveal(u128_at);
    reveal(address_at);
    reveal(word_at);
    lemma_base_values();
    lemma_be_bytes_len(number as nat, 8);
    lemma_be_bytes_len(amount as nat, 16);
    lemma_read_of_write(number as nat, 8);
    lemma_read_of_write(amount as nat, 16);
    lemma_address_from_be_of_bytes(account);
    lemma_word_from_be_of_bytes(w);
    let s = input.subrange(at, at + 32);
    assert(s.subrange(24, 32) =~= input.subrange(at + 24, at + 32));
    assert(s.subrange(16, 32) =~= input.subrange(at + 16, at + 32));
    assert(s.subrange(12, 32) =~= input.subrange(at + 12, at + 32));
    assert(number_word(number as nat, 8).subrange(24, 32) =~= be_bytes(number as nat, 8));
    assert(number_word(amount as nat, 16).subrange(16, 32) =~= be_bytes(amount as nat, 16));
    assert(address_word_bytes(account).subrange(12, 32) =~= account.bytes());
}

/// Calls are told apart by their first four bytes, the most significant first.
pub proof fn law_selector_is_big_endian(calldata: Seq<u8>)
    requires
        calldata.len() >= 4,
    ensures
        ({
            let s = selector_of(calldata);
            &&& s / 0x100_0000 == calldata[0]
            &&& (s / 0x1_0000) % 0x100 == calldata[1]
            &&& (s / 0x100) % 0x100 == calldata[2]
            &&& s % 0x100 == calldata[3]
        }),
{
}

/// A byte string in a call is where its word points, four bytes on, behind its length, and has just
/// that many bytes; there is none exactly where the call ends before.
pub proof fn law_byte_string_is_exact(input: Seq<u8>, slot: int)
    requires
        0 <= slot,
    ensures
        ({
            let head = 4 + u64_at(input, slot);
            let n = u64_at(input, head);
            let fits = {
                &&& slot + 32 <= input.len()
                &&& head + 32 <= input.len()
                &&& head + 32 + n <= input.len()
            };
            &&& bytes_at(input, slot) is Some <==> fits
            &&& bytes_at(input, slot) matches Some(b) ==> b.len() == n && forall|i: int|
                0 <= i < n ==> (#[trigger] b[i]) == input[head + 32 + i]
        }),
{
}

/// A list in a call is where its word points, four bytes on, behind its length, one word for each
/// element; words, accounts and amounts are read alike.
pub proof fn law_list_is_exact(input: Seq<u8>, slot: int, i: int)
    requires
        0 <= slot,
        0 <= i < u64_at(input, 4 + u64_at(input, slot)),
    ensures
        ({
            let head = 4 + u64_at(input, slot);
            let n = u64_at(input, head);
            let fits = {
                &&& slot + 32 <= input.len()
                &&& head + 32 <= input.len()
                &&& head + 32 + 32 * n <= input.len()
            };
            &&& words_at(input, slot) is Some <==> fits
            &&& addresses_at(input, slot) is Some <==> fits
            &&& amounts_at(input, slot) is Some <==> fits
            &&& fits ==> {
                &&& words_at(input, slot)->0.len() == n
                &&& words_at(input, slot)->0[i] == word_at(input, head + 32 + 32 * i)
                &&& addresses_at(input, slot)->0.len() == n
                &&& addresses_at(input, slot)->0[i] == address_at(input, head + 32 + 32 * i)
                &&& amounts_at(input, slot)->0.len() == n
                &&& amounts_at(input, slot)->0[i] == u128_at(input, head + 32 + 32 * i)
            }
        }),
{
}

/// Words are cut down to numbers, bytes and accounts by their low bits, and counted on from without
/// regard to what falls over the top.
pub proof fn law_words_are_cut_down(v: U256, n: u64)
    ensures
        u64_of(v) == v.lo % 0x1_0000_0000_0000_0000,
        u8_of(v) == u64_of(v) % 0x100,
        address_of(v).lo == v.lo,
        address_of(v).hi == v.hi % 0x1_0000_0000,
        v.value() + n < limb() * limb() ==> v.plus(n).value() == v.value() + n,
        v.value() + n >= limb() * limb() ==> v.plus(n).value() == v.value() + n - limb() * limb(),
{
    let h = v.hi as int;
    assert((h + 1) * limb() == h * limb() + limb()) by (nonlinear_arith);
    if h < u128::MAX {
        assert((h + 1) * limb() <= (limb() - 1) * limb()) by (nonlinear_arith)
            requires
                h + 1 <= limb() - 1,
                limb() > 0,
        ;
        assert((limb() - 1) * limb() == limb() * limb() - limb()) by (nonlinear_arith);
    } else {
        assert(h * limb() == limb() * limb() - limb()) by (nonlinear_arith)
            requires
                h == limb() - 1,
        ;
    }
}

/// Every precompile is called at its own address, and no other address is one.
pub proof fn law_calls_are_routed<
    H: Fn(U256, U256) -> U256,
    V: Fn(ProofRequest) -> Result<bool, String>,
>(hash: H, verify: V, address: Address, w: World, calldata: Seq<u8>, sender: Address)
    ensures
        ({
            let r = custom_effect(hash, verify, address, w, calldata, sender);
            let at = address.lo;
            let known = at == 0x101 || at == 0x103 || (0x201 <= at <= 0x205) || at == 0x207 || at
                == 0x209;
            &&& address.hi != 0 || !known ==> r is None
            &&& address.hi == 0 ==> {
                &&& at == 0x101 ==> r == Some(oracle_effect(w, calldata, sender))
                &&& at == 0x103 ==> r == Some(bridge_effect(w, calldata, sender))
                &&& at == 0x201 ==> r == Some(asset_effect(w, calldata, sender))
                &&& at == 0x202 ==> r == Some(shielded_effect(w, hash, verify, calldata, sender))
                &&& at == 0x203 ==> r == Some(governance_effect(w, calldata, sender))
                &&& at == 0x204 ==> r == Some(validator_effect(w, calldata, sender))
                &&& at == 0x205 ==> r == Some(compliance_effect(w, calldata, sender))
                &&& at == 0x207 ==> r == Some(switch_effect(w, calldata, sender))
                &&& at == 0x209 ==> r == Some(agent_effect(w, calldata, sender))
            }
        }),
{
}

/// What a precompile answers is reported as it is, with the gas that is left; one that fails is
/// reported with all its gas, and one that cannot go on stops the execution.
pub proof fn law_custom_report_is_exact(o: Outcome, gas_limit: u64)
    ensures
        ({
            let r = custom_report(o, gas_limit);
            &&& o matches Outcome::Done { gas_used, gas_refunded, data, reverted } ==> {
                &&& r is Ok <==> gas_used <= gas_limit
                &&& r is Err ==> r->Err_0 is GasUnderflow
                &&& r matches Ok(report) ==> {
                    &&& report.gas_remaining + gas_used == gas_limit
                    &&& report.gas_refunded == gas_refunded
                    &&& report.output == data
                    &&& report.status is Revert <==> reverted
                    &&& report.status is Return <==> !reverted
                    &&& report.error is None
                }
            }
            &&& o matches Outcome::Failed(e) ==> {
                &&& r is Err <==> e is Fatal
                &&& r matches Ok(report) ==> {
                    &&& report.gas_remaining == gas_limit
                    &&& report.gas_refunded == 0
                    &&& report.output == Seq::<u8>::empty()
                    &&& report.status is OutOfGas <==> e is OutOfGas
                    &&& report.status is Error <==> !(e is OutOfGas)
                    &&& report.error == if e is OutOfGas {
                        None
                    } else {
                        Some(ErrorModel::Custom(e))
                    }
                }
            }
        }),
{
}

/// A standard precompile's answer is reported likewise.
pub proof fn law_standard_report_is_exact(reply: StandardReply, gas_limit: u64)
    ensures
        ({
            let r = standard_report(reply, gas_limit);
            &&& reply matches StandardReply::Done { gas_used, gas_refunded, bytes, reverted } ==> {
                &&& r is Ok <==> gas_used <= gas_limit
                &&& r is Err ==> r->Err_0 is GasUnderflow
                &&& r matches Ok(report) ==> {
                    &&& report.gas_remaining + gas_used == gas_limit
                    &&& report.gas_refunded == gas_refunded
                    &&& report.output == bytes@
                    &&& report.status is Revert <==> reverted
                    &&& report.status is Return <==> !reverted
                    &&& report.error is None
                }
            }
            &&& reply is Fatal ==> r is Err
            &&& reply is OutOfGas || reply is Failed ==> {
                &&& r matches Ok(report)
                &&& report.gas_remaining == gas_limit
                &&& report.output == Seq::<u8>::empty()
                &&& report.status is OutOfGas <==> reply is OutOfGas
                &&& report.status is Error <==> reply is Failed
            }
        }),
{
}

/// A call that only looks is charged, run, and answered with what the precompile answers; a call that
/// changes is the same, and keeps its changes where the precompile succeeds.
pub proof fn law_dispatch_is_exact<H: StatefulPrecompile>(
    handler: H,
    w: World,
    calldata: Seq<u8>,
    sender: Address,
    gas: u64,
)
    requires
        ({
            let opened = w.charge(gas as int).1.checkpoint();
            handler.effect(opened, calldata, sender).1.saved == opened.saved
        }),
    ensures
        ({
            let out = Outcome::Failed(Fault::OutOfGas);
            let (o, after) = view_effect(handler, w, calldata, sender, gas);
            let charged = w.charge(gas as int).1;
            let (seen, left) = handler.effect(charged, calldata, sender);
            let (p, changed) = mutate_effect(handler, w, calldata, sender, gas);
            let (done, made) = handler.effect(charged.checkpoint(), calldata, sender);
            &&& w.gas < gas ==> (o, after) == (out, w) && (p, changed) == (out, w)
            &&& w.gas >= gas ==> {
                &&& o is Done <==> seen is Done
                &&& seen is Done ==> o->data == seen->data
                &&& seen is Failed ==> o == seen
                &&& after == left
                &&& p is Done <==> done is Done
                &&& done is Done ==> p->data == done->data && changed.slots == made.slots
                    && changed.balances == made.balances && changed.logs == made.logs
                    && changed.transient == made.transient
                &&& done is Failed ==> p == done && changed.slots == w.slots && changed.balances
                    == w.balances && changed.logs == w.logs
            }
        }),
{
    reveal(World::charge);
    let charged = w.charge(gas as int).1;
    let made = handler.effect(charged.checkpoint(), calldata, sender).1;
    law_checkpoint(charged, made);
}

/// A first access costs 2000 more than a later one to read, and 2100 more to write; writing a slot
/// back to what it was at the start, or clearing it, refunds 4800, and nothing else refunds anything.
pub proof fn law_access_prices(original: U256, present: U256, value: U256)
    ensures
        read_cost(false) == 100,
        read_cost(true) == read_cost(false) + 2000,
        write_cost(false) == 20_000,
        write_cost(true) == write_cost(false) + 2100,
        write_refund(original, present, value) == 4800 || write_refund(original, present, value)
            == 0,
        write_refund(original, present, value) == 4800 <==> (value == original && present != value)
            || (value == zero_word() && present != zero_word()),
{
}

/// A meter takes just the gas that is asked for, where it has it, and nothing where it has not.
pub proof fn law_meter_is_exact(m: GasMeter, gas: u64)
    ensures
        m.paid(gas as int).remaining == if gas <= m.remaining {
            m.remaining - gas
        } else {
            m.remaining as int
        },
        m.paid(gas as int).limit == m.limit,
        m.paid(gas as int).refunded == m.refunded,
{
}

/// A slot is read and written exactly where the store answers and there is the gas that it asks; a
/// read gives what the slot holds, a write changes that slot alone, and each costs just what was
/// asked.
pub proof fn law_store_is_exact(w: World, address: Address, key: U256, value: U256)
    ensures
        ({
            let (got, after) = w.sload(address, key);
            let (done, made) = w.sstore(address, key, value);
            &&& w.backend.reads[w.accesses] matches Reply::Served { gas, .. } ==> {
                &&& got is Some <==> gas <= w.gas
                &&& got matches Some(v) ==> v == or_zero(w.slots, (address, key)) && after.gas
                    == w.gas - gas
            }
            &&& w.backend.reads[w.accesses] is Lost ==> got is None
            &&& after.slots == w.slots
            &&& w.backend.writes[w.accesses] matches Reply::Served { gas, refund } ==> {
                &&& done <==> gas <= w.gas && !w.is_static
                &&& done ==> made.slots == w.slots.insert((address, key), value) && made.gas
                    == w.gas - gas && made.refunded == saturating_sum(w.refunded, refund)
            }
            &&& w.backend.writes[w.accesses] is Lost ==> !done
            &&& w.is_static ==> !done && made == w
            &&& !done && !w.backend.writes_through ==> made.slots == w.slots
        }),
{
    reveal(World::sload);
    reveal(World::sstore);
}

/// What lasts for one transaction is read back as it was written, at 100 gas each, and apart from
/// what lasts longer.
pub proof fn law_transient_is_exact(w: World, address: Address, key: U256, value: U256)
    ensures
        ({
            let (done, made) = w.tstore(address, key, value);
            let (got, after) = w.tload(address, key);
            &&& done <==> !w.is_static && w.gas >= 100
            &&& done ==> made.transient == w.transient.insert((address, key), value) && made.gas
                == w.gas - 100 && made.slots == w.slots
            &&& !done ==> made == w
            &&& got is Some <==> w.gas >= 100
            &&& got matches Some(v) ==> v == or_zero(w.transient, (address, key)) && after.gas
                == w.gas - 100
            &&& after.transient == w.transient && after.slots == w.slots
        }),
{
    reveal(World::tload);
    reveal(World::tstore);
}

/// A log costs 375, as much again for every topic, and 8 for every byte; it is added last, exactly
/// where there is the gas.
pub proof fn law_log_is_exact(w: World, log: LogModel)
    ensures
        ({
            let (done, after) = w.emit(log);
            let price = 375 * (1 + log.topics.len()) + 8 * log.data.len();
            &&& done <==> w.gas >= price
            &&& done ==> after.logs == w.logs.push(log) && after.gas == w.gas - price
            &&& !done ==> after == w
            &&& after.slots == w.slots && after.balances == w.balances
        }),
{
    reveal(World::emit);
}

/// What is used of the gas is the limit less what is left; refunds add up, within their type.
pub proof fn law_gas_is_accounted(w: World, gas: i64)
    requires
        w.gas <= w.gas_limit,
    ensures
        w.gas_used() + w.gas == w.gas_limit,
        i64::MIN <= w.refunded + gas <= i64::MAX ==> w.refund(gas).refunded == w.refunded + gas,
        w.refunded + gas > i64::MAX ==> w.refund(gas).refunded == i64::MAX,
        w.refunded + gas < i64::MIN ==> w.refund(gas).refunded == i64::MIN,
        w.refund(gas).slots == w.slots,
{
}

} // verus!
