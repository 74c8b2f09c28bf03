//! Sponsors that pay the fees of others.

use crate::protocol::CALL_ASSET_ID;
use crate::protocol::account::{debit_effect, AccountState};
use crate::protocol::errors::{ProtocolError, ProtocolResult};
use crate::vec_map::VecMap;
use crate::words::Address;
use vstd::prelude::*;

verus! {

/// A sponsor's consent to pay for certain senders, up to an amount each day.
#[derive(Debug)]
pub struct GasSponsorAuth {
    pub sponsor: Address,
    /// Whose fees are paid; everyone's where it is empty.
    pub allowed_senders: Vec<Address>,
    pub max_daily: u128,
    pub expires_at: u64,
    pub sponsor_signature: [u8; 65],
}

/// A pool from which fees are paid.
#[derive(Debug)]
pub struct GasSponsorPool {
    pub sponsor: Address,
    pub balance: u128,
    /// Whose fees are paid; everyone's where it is empty.
    pub delegated_to: Vec<Address>,
    /// The most for one transaction, or 0 for no limit.
    pub per_tx_limit: u128,
}

/// What a sponsor has paid on a day.
pub type Usage = (u128, u64);

pub open spec fn usage_of(m: Map<Address, Usage>, sponsor: Address) -> Usage {
    if m.contains_key(sponsor) {
        m[sponsor]
    } else {
        (0, 0)
    }
}

/// Whether a list admits a sender.
pub open spec fn admits(list: Seq<Address>, sender: Address) -> bool {
    list.len() == 0 || list.contains(sender)
}

/// What a sponsor has paid on this day so far.
pub open spec fn paid_today(m: Map<Address, Usage>, sponsor: Address, current_day: u64) -> u128 {
    let (used, day) = usage_of(m, sponsor);
    if day == current_day {
        used
    } else {
        0
    }
}

/// What a sponsor's consent has used when it is asked to pay `fee`. The first fee of a new day is
/// not held to the limit.
pub open spec fn usage_effect(
    auths: Map<Address, GasSponsorAuth>,
    usage: Map<Address, Usage>,
    sponsor: Address,
    sender: Address,
    fee: u128,
    current_day: u64,
) -> (ProtocolResult<()>, Map<Address, Usage>) {
    if !auths.contains_key(sponsor) {
        (Err(ProtocolError::SponsorError("sponsor not registered")), usage)
    } else if current_day >= auths[sponsor].expires_at {
        (Err(ProtocolError::SponsorError("sponsor expired")), usage)
    } else if !admits(auths[sponsor].allowed_senders@, sender) {
        (Err(ProtocolError::SponsorError("sender not whitelisted")), usage)
    } else {
        let sum = paid_today(usage, sponsor, current_day) + fee;
        if usage_of(usage, sponsor).1 == current_day && sum > auths[sponsor].max_daily {
            (Err(ProtocolError::SponsorError("daily limit exceeded")), usage)
        } else {
            (Ok(()), usage.insert(sponsor, (sum as u128, current_day)))
        }
    }
}

/// What a sponsor's consent has used stays in range when it is asked to pay `fee`.
pub open spec fn usage_fits(
    auths: Map<Address, GasSponsorAuth>,
    usage: Map<Address, Usage>,
    sponsor: Address,
    sender: Address,
    fee: u128,
    current_day: u64,
) -> bool {
    auths.contains_key(sponsor) && current_day < auths[sponsor].expires_at && admits(
        auths[sponsor].allowed_senders@,
        sender,
    ) ==> paid_today(usage, sponsor, current_day) + fee <= u128::MAX
}

/// The answer to a request that a pool pay `fee`.
pub open spec fn pool_check(
    pools: Map<Address, GasSponsorPool>,
    sponsor: Address,
    sender: Address,
    fee: u128,
) -> ProtocolResult<()> {
    if !pools.contains_key(sponsor) {
        Err(ProtocolError::SponsorError("pool not found"))
    } else if !admits(pools[sponsor].delegated_to@, sender) {
        Err(ProtocolError::SponsorError("sender not delegated"))
    } else if fee > pools[sponsor].per_tx_limit && pools[sponsor].per_tx_limit > 0 {
        Err(ProtocolError::SponsorError("exceeds per-tx limit"))
    } else if pools[sponsor].balance < fee {
        Err(ProtocolError::SponsorError("insufficient pool balance"))
    } else {
        Ok(())
    }
}

fn is_admitted(list: &Vec<Address>, sender: &Address) -> (r: bool)
    ensures
        r == admits(list@, *sender),
{
    if list.len() == 0 {
        return true;
    }
    let mut i: usize = 0;
    while i < list.len()
        invariant
            i <= list@.len(),
            forall|j: int| 0 <= j < i ==> (#[trigger] list@[j]) != *sender,
        decreases list@.len() - i,
    {
        if list[i] == *sender {
            return true;
        }
        i += 1;
    }
    false
}

/// Sponsors, their pools and what they have paid.
#[derive(Debug)]
pub struct SponsorRegistry {
    pub auths: VecMap<Address, GasSponsorAuth>,
    pub pools: VecMap<Address, GasSponsorPool>,
    pub daily_usage: VecMap<Address, Usage>,
}

impl SponsorRegistry {
    pub fn new() -> (r: Self)
        ensures
            r.auths@ == Map::<Address, GasSponsorAuth>::empty(),
            r.pools@ == Map::<Address, GasSponsorPool>::empty(),
            r.daily_usage@ == Map::<Address, Usage>::empty(),
    {
        SponsorRegistry { auths: VecMap::new(), pools: VecMap::new(), daily_usage: VecMap::new() }
    }

    pub fn register_sponsor_auth(&mut self, auth: GasSponsorAuth) -> (r: ProtocolResult<()>)
        ensures
            (r, final(self).auths@) == if old(self).auths@.contains_key(auth.sponsor) {
                (
                    Err(ProtocolError::SponsorError("sponsor already registered")),
                    old(self).auths@,
                )
            } else {
                (Ok(()), old(self).auths@.insert(auth.sponsor, auth))
            },
            final(self).pools == old(self).pools,
            final(self).daily_usage == old(self).daily_usage,
    {
        if self.auths.contains_key(auth.sponsor) {
            return Err(ProtocolError::SponsorError("sponsor already registered"));
        }
        self.auths.insert(auth.sponsor, auth);
        Ok(())
    }

    pub fn revoke_sponsor_auth(&mut self, sponsor: Address) -> (r: ProtocolResult<()>)
        ensures
            r == if old(self).auths@.contains_key(sponsor) {
                Ok(())
            } else {
                Err(ProtocolError::SponsorError("sponsor not found"))
            },
            final(self).auths@ == old(self).auths@.remove(sponsor),
            final(self).pools == old(self).pools,
            final(self).daily_usage == old(self).daily_usage,
    {
        match self.auths.remove(sponsor) {
            Some(_) => Ok(()),
            None => Err(ProtocolError::SponsorError("sponsor not found")),
        }
    }

    /// Lets a sponsor pay a fee out of its account. The fee counts against the day's limit also
    /// where the account does not hold it.
    pub fn verify_and_deduct_authorized_sponsor(
        &mut self,
        sponsor: &Address,
        sender: &Address,
        fee: u128,
        current_day: u64,
        account: &mut AccountState,
    ) -> (r: ProtocolResult<()>)
        requires
            usage_fits(
                old(self).auths@,
                old(self).daily_usage@,
                *sponsor,
                *sender,
                fee,
                current_day,
            ),
        ensures
            ({
                let (allowed, usage) = usage_effect(
                    old(self).auths@,
                    old(self).daily_usage@,
                    *sponsor,
                    *sender,
                    fee,
                    current_day,
                );
                let before = old(account).balances@;
                &&& final(self).daily_usage@ == usage
                &&& (r, final(account).balances@) == match allowed {
                    Err(e) => (Err(e), before),
                    Ok(_) => debit_effect(before, CALL_ASSET_ID, *sponsor, fee),
                }
            }),
            final(self).auths == old(self).auths,
            final(self).pools == old(self).pools,
            final(account).allowances == old(account).allowances,
            final(account).nonces == old(account).nonces,
    {
        let max_daily: u128 = match self.auths.get(*sponsor) {
            None => {
                return Err(ProtocolError::SponsorError("sponsor not registered"));
            },
            Some(auth) => {
                if current_day >= auth.expires_at {
                    return Err(ProtocolError::SponsorError("sponsor expired"));
                }
                if !is_admitted(&auth.allowed_senders, sender) {
                    return Err(ProtocolError::SponsorError("sender not whitelisted"));
                }
                auth.max_daily
            },
        };
        let (used, day): Usage = match self.daily_usage.get(*sponsor) {
            Some(u) => *u,
            None => (0, 0),
        };
        if day != current_day {
            self.daily_usage.insert(*sponsor, (fee, current_day));
        } else if used + fee > max_daily {
            return Err(ProtocolError::SponsorError("daily limit exceeded"));
        } else {
            self.daily_usage.insert(*sponsor, (used + fee, current_day));
        }
        account.balances.deduct_balance(CALL_ASSET_ID, *sponsor, fee)
    }

    /// Adds to a sponsor's pool; the first deposit makes it.
    pub fn deposit_to_pool(&mut self, sponsor: Address, amount: u128) -> (r: ProtocolResult<()>)
        ensures
            ({
                let before = old(self).pools@;
                if !before.contains_key(sponsor) {
                    &&& r is Ok
                    &&& final(self).pools@.contains_key(sponsor)
                    &&& final(self).pools@ == before.insert(sponsor, final(self).pools@[sponsor])
                    &&& final(self).pools@[sponsor].sponsor == sponsor
                    &&& final(self).pools@[sponsor].balance == amount
                    &&& final(self).pools@[sponsor].delegated_to@ == Seq::<Address>::empty()
                    &&& final(self).pools@[sponsor].per_tx_limit == 0
                } else if before[sponsor].balance + amount > u128::MAX {
                    &&& r == Err::<(), ProtocolError>(ProtocolError::SponsorError("overflow"))
                    &&& final(self).pools@ == before
                } else {
                    &&& r is Ok
                    &&& final(self).pools@ == before.insert(
                        sponsor,
                        (GasSponsorPool {
                            balance: (before[sponsor].balance + amount) as u128,
                            ..before[sponsor]
                        }),
                    )
                }
            }),
            final(self).auths == old(self).auths,
            final(self).daily_usage == old(self).daily_usage,
    {
        match self.pools.remove(sponsor) {
            Some(mut pool) => {
                match pool.balance.checked_add(amount) {
                    Some(sum) => {
                        pool.balance = sum;
                        self.pools.insert(sponsor, pool);
                        proof {
                            assert(self.pools@ =~= old(self).pools@.insert(sponsor, pool));
                        }
                        Ok(())
                    },
                    None => {
                        self.pools.insert(sponsor, pool);
                        proof {
                            assert(self.pools@ =~= old(self).pools@);
                        }
                        Err(ProtocolError::SponsorError("overflow"))
                    },
                }
            },
            None => {
                let pool = GasSponsorPool {
                    sponsor,
                    balance: amount,
                    delegated_to: Vec::new(),
                    per_tx_limit: 0,
                };
                self.pools.insert(sponsor, pool);
                proof {
                    assert(self.pools@ =~= old(self).pools@.insert(sponsor, pool));
                }
                Ok(())
            },
        }
    }

    fn take_from_pool(&mut self, sponsor: Address, amount: u128)
        requires
            old(self).pools@.contains_key(sponsor),
            old(self).pools@[sponsor].balance >= amount,
        ensures
            final(self).pools@ == old(self).pools@.insert(
                sponsor,
                (GasSponsorPool {
                    balance: (old(self).pools@[sponsor].balance - amount) as u128,
                    ..old(self).pools@[sponsor]
                }),
            ),
            final(self).auths == old(self).auths,
            final(self).daily_usage == old(self).daily_usage,
    {
        if let Some(mut pool) = self.pools.remove(sponsor) {
            pool.balance = pool.balance - amount;
            self.pools.insert(sponsor, pool);
            proof {
                assert(self.pools@ =~= old(self).pools@.insert(sponsor, pool));
            }
        }
    }

    /// Takes from a sponsor's pool.
    pub fn withdraw_from_pool(&mut self, sponsor: Address, amount: u128) -> (r: ProtocolResult<()>)
        ensures
            (r, final(self).pools@) == ({
                let before = old(self).pools@;
                if !before.contains_key(sponsor) {
                    (Err(ProtocolError::SponsorError("pool not found")), before)
                } else if before[sponsor].balance < amount {
                    (Err(ProtocolError::SponsorError("insufficient pool balance")), before)
                } else {
                    (
                        Ok(()),
                        before.insert(
                            sponsor,
                            (GasSponsorPool {
                                balance: (before[sponsor].balance - amount) as u128,
                                ..before[sponsor]
                            }),
                        ),
                    )
                }
            }),
            final(self).auths == old(self).auths,
            final(self).daily_usage == old(self).daily_usage,
    {
        match self.pools.get(sponsor) {
            None => {
                return Err(ProtocolError::SponsorError("pool not found"));
            },
            Some(pool) => {
                if pool.balance < amount {
                    return Err(ProtocolError::SponsorError("insufficient pool balance"));
                }
            },
        }
        self.take_from_pool(sponsor, amount);
        Ok(())
    }

    /// Lets a pool pay a fee. The pool is charged also where the sponsor's account does not hold
    /// the fee.
    pub fn verify_and_deduct_pool_sponsor(
        &mut self,
        sponsor: &Address,
        sender: &Address,
        fee: u128,
        account: &mut AccountState,
    ) -> (r: ProtocolResult<()>)
        ensures
            ({
                let pools = old(self).pools@;
                let before = old(account).balances@;
                match pool_check(pools, *sponsor, *sender, fee) {
                    Err(e) => {
                        &&& r == Err::<(), ProtocolError>(e)
                        &&& final(self).pools@ == pools
                        &&& final(account).balances@ == before
                    },
                    Ok(_) => {
                        &&& (r, final(account).balances@) == debit_effect(
                            before,
                            CALL_ASSET_ID,
                            *sponsor,
                            fee,
                        )
                        &&& final(self).pools@ == pools.insert(
                            *sponsor,
                            (GasSponsorPool {
                                balance: (pools[*sponsor].balance - fee) as u128,
                                ..pools[*sponsor]
                            }),
                        )
                    },
                }
            }),
            final(self).auths == old(self).auths,
            final(self).daily_usage == old(self).daily_usage,
            final(account).allowances == old(account).allowances,
            final(account).nonces == old(account).nonces,
    {
        match self.pools.get(*sponsor) {
            None => {
                return Err(ProtocolError::SponsorError("pool not found"));
            },
            Some(pool) => {
                if !is_admitted(&pool.delegated_to, sender) {
                    return Err(ProtocolError::SponsorError("sender not delegated"));
                }
                if fee > pool.per_tx_limit && pool.per_tx_limit > 0 {
                    return Err(ProtocolError::SponsorError("exceeds per-tx limit"));
                }
                if pool.balance < fee {
                    return Err(ProtocolError::SponsorError("insufficient pool balance"));
                }
            },
        }
        self.take_from_pool(*sponsor, fee);
        account.balances.deduct_balance(CALL_ASSET_ID, *sponsor, fee)
    }

    /// Lets a sponsor pay the fee of one transaction out of its account.
    pub fn verify_and_deduct_per_tx_sponsor(
        &mut self,
        sponsor: &Address,
        fee: u128,
        account: &mut AccountState,
    ) -> (r: ProtocolResult<()>)
        ensures
            (r, final(account).balances@) == ({
                let before = old(account).balances@;
                if old(account).balances.balance(CALL_ASSET_ID, *sponsor) < fee {
                    (Err(ProtocolError::SponsorError("sponsor insufficient balance")), before)
                } else {
                    debit_effect(before, CALL_ASSET_ID, *sponsor, fee)
                }
            }),
            final(account).allowances == old(account).allowances,
            final(account).nonces == old(account).nonces,
            *final(self) == *old(self),
    {
        if account.balances.get_balance(CALL_ASSET_ID, sponsor) < fee {
            return Err(ProtocolError::SponsorError("sponsor insufficient balance"));
        }
        account.balances.deduct_balance(CALL_ASSET_ID, *sponsor, fee)
    }
}

/// What a sponsor pays on a day stays within its limit from the day's second fee on; a fee that would
/// go beyond it is refused and not counted.
pub proof fn law_daily_limit(
    auths: Map<Address, GasSponsorAuth>,
    usage: Map<Address, Usage>,
    sponsor: Address,
    sender: Address,
    fee: u128,
    current_day: u64,
)
    requires
        usage_fits(auths, usage, sponsor, sender, fee, current_day),
    ensures
        ({
            let (r, after) = usage_effect(auths, usage, sponsor, sender, fee, current_day);
            let before = paid_today(usage, sponsor, current_day);
            if r is Ok {
                &&& usage_of(after, sponsor).1 == current_day
                &&& paid_today(after, sponsor, current_day) == before + fee
                &&& usage_of(usage, sponsor).1 == current_day ==> before + fee
                    <= auths[sponsor].max_daily
            } else {
                after == usage
            }
        }),
{
}

} // verus!
