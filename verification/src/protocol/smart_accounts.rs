//! Accounts with several signers, guardians or session keys.

use crate::protocol::errors::{ProtocolError, ProtocolResult};
use crate::vec_map::VecMap;
use crate::words::Address;
use vstd::prelude::*;

verus! {

/// The shortest wait before a recovery takes effect, in seconds: a day.
pub const MIN_RECOVERY_DELAY: u64 = 86_400;

/// The longest wait before a recovery takes effect, in seconds: three days.
pub const MAX_RECOVERY_DELAY: u64 = 259_200;

fn contains(list: &[Address], a: Address) -> (r: bool)
    ensures
        r == list@.contains(a),
{
    let mut i: usize = 0;
    while i < list.len()
        invariant
            i <= list@.len(),
            forall|j: int| 0 <= j < i ==> (#[trigger] list@[j]) != a,
        decreases list@.len() - i,
    {
        if list[i] == a {
            return true;
        }
        i += 1;
    }
    false
}

/// Whether the address at `i` stands in the list before that.
fn stands_before(list: &[Address], i: usize) -> (r: bool)
    requires
        i < list@.len(),
    ensures
        r == list@.subrange(0, i as int).contains(list@[i as int]),
{
    let mut j: usize = 0;
    while j < i
        invariant
            j <= i < list@.len(),
            forall|k: int| 0 <= k < j ==> (#[trigger] list@[k]) != list@[i as int],
        decreases i - j,
    {
        if list[j] == list[i] {
            proof {
                assert(list@.subrange(0, i as int)[j as int] == list@[i as int]);
            }
            return true;
        }
        j += 1;
    }
    false
}

fn has_duplicates(list: &[Address]) -> (r: bool)
    ensures
        r == !list@.no_duplicates(),
{
    let mut i: usize = 0;
    while i < list.len()
        invariant
            i <= list@.len(),
            list@.subrange(0, i as int).no_duplicates(),
        decreases list@.len() - i,
    {
        if stands_before(list, i) {
            proof {
                let head = list@.subrange(0, i as int);
                let k = choose|k: int| 0 <= k < head.len() && head[k] == list@[i as int];
                assert(list@[k] == list@[i as int]);
            }
            return true;
        }
        proof {
            let head = list@.subrange(0, i as int);
            let next = list@.subrange(0, i + 1);
            assert(next =~= head.push(list@[i as int]));
            assert forall|a: int, b: int|
                0 <= a < next.len() && 0 <= b < next.len() && a != b implies next[a] != next[b] by {
                if a < i && b < i {
                    assert(head[a] != head[b]);
                } else if a < i {
                    assert(head.contains(head[a]));
                } else {
                    assert(head.contains(head[b]));
                }
            }
        }
        i += 1;
    }
    proof {
        assert(list@.subrange(0, list@.len() as int) =~= list@);
    }
    false
}

/// The signers of an account and how many of them it takes.
#[derive(Debug)]
pub struct MultiSigConfig {
    pub version: u64,
    pub signers: Vec<Address>,
    pub threshold: u32,
}

/// Whether there can be an account with these signers.
pub open spec fn multisig_check(signers: Seq<Address>, threshold: u32) -> ProtocolResult<()> {
    if signers.len() < 2 || signers.len() > 10 {
        Err(ProtocolError::Recovery("signer count must be 2-10"))
    } else if threshold < 1 || threshold > signers.len() {
        Err(ProtocolError::Recovery("threshold must be 1..=n"))
    } else if !signers.no_duplicates() {
        Err(ProtocolError::Recovery("duplicate signer"))
    } else {
        Ok(())
    }
}

/// How many of `signers` stand in `given`, each counted once.
pub open spec fn approvals(signers: Seq<Address>, given: Seq<Address>) -> nat {
    signers.to_set().intersect(given.to_set()).len()
}

impl MultiSigConfig {
    pub fn new(signers: Vec<Address>, threshold: u32) -> (r: ProtocolResult<Self>)
        ensures
            r == match multisig_check(signers@, threshold) {
                Err(e) => Err(e),
                Ok(_) => Ok((MultiSigConfig { version: 1, signers, threshold })),
            },
    {
        if signers.len() < 2 || signers.len() > 10 {
            return Err(ProtocolError::Recovery("signer count must be 2-10"));
        }
        if threshold < 1 || threshold as usize > signers.len() {
            return Err(ProtocolError::Recovery("threshold must be 1..=n"));
        }
        if has_duplicates(signers.as_slice()) {
            return Err(ProtocolError::Recovery("duplicate signer"));
        }
        Ok(MultiSigConfig { version: 1, signers, threshold })
    }
}

/// A request to put a new key in the place of a lost one.
#[derive(Debug)]
pub struct RecoveryRequest {
    pub new_key: [u8; 64],
    pub approved_by: Vec<Address>,
    pub initiated_at: u64,
    pub initiator_signature: [u8; 65],
}

/// Who may recover an account, and how soon.
#[derive(Debug)]
pub struct SocialRecoveryConfig {
    pub recovery_delay_secs: u64,
    pub guardians: Vec<Address>,
    pub pending_recovery: Option<RecoveryRequest>,
}

impl SocialRecoveryConfig {
    pub fn new(delay_secs: u64, guardians: Vec<Address>) -> (r: ProtocolResult<Self>)
        ensures
            r == if delay_secs < MIN_RECOVERY_DELAY || delay_secs > MAX_RECOVERY_DELAY {
                Err(ProtocolError::Recovery("delay must be 24-72 hours (86400-259200s)"))
            } else if guardians@.len() < 2 {
                Err(ProtocolError::Recovery("at least 2 guardians required"))
            } else {
                Ok(
                    (SocialRecoveryConfig {
                        recovery_delay_secs: delay_secs,
                        guardians,
                        pending_recovery: None,
                    }),
                )
            },
    {
        if delay_secs < MIN_RECOVERY_DELAY || delay_secs > MAX_RECOVERY_DELAY {
            return Err(ProtocolError::Recovery("delay must be 24-72 hours (86400-259200s)"));
        }
        if guardians.len() < 2 {
            return Err(ProtocolError::Recovery("at least 2 guardians required"));
        }
        Ok(
            SocialRecoveryConfig {
                recovery_delay_secs: delay_secs,
                guardians,
                pending_recovery: None,
            },
        )
    }
}

/// What a session key may do.
#[derive(Debug)]
pub struct SessionPermissions {
    pub max_per_tx: u128,
    pub max_daily: u128,
    pub allowed_targets: Vec<Address>,
    pub allowed_assets: Vec<u64>,
}

/// A session key of an account.
#[derive(Debug)]
pub struct SessionKeyConfig {
    pub session_key: Address,
    pub permissions: SessionPermissions,
    pub expires_at: u64,
}

/// What a session key has spent on a day.
#[derive(Clone, Copy, Debug)]
pub struct SessionKeyDailyUsage {
    pub session_key: Address,
    pub used_today: u128,
    pub day_start: u64,
}

/// The configurations of all such accounts.
#[derive(Debug)]
pub struct SmartAccountRegistry {
    pub multi_sigs: VecMap<Address, MultiSigConfig>,
    pub recovery_configs: VecMap<Address, SocialRecoveryConfig>,
    /// Accounts that have or had a session key.
    pub session_accounts: VecMap<Address, bool>,
    /// Session keys by account and key.
    pub session_keys: VecMap<(Address, Address), SessionKeyConfig>,
}

/// Whether a session key is valid at a time.
pub open spec fn session_check(
    accounts: Set<Address>,
    keys: Map<(Address, Address), SessionKeyConfig>,
    account: Address,
    session_key: Address,
    current_time: u64,
) -> ProtocolResult<()> {
    if !accounts.contains(account) {
        Err(ProtocolError::SessionKey("no session key config"))
    } else if !keys.contains_key((account, session_key)) {
        Err(ProtocolError::Unauthorized)
    } else if current_time > keys[(account, session_key)].expires_at {
        Err(ProtocolError::SessionKey("session expired"))
    } else {
        Ok(())
    }
}

/// The key of a pending recovery, which is used up; or why there is none.
pub open spec fn finalize_effect(
    configs: Map<Address, SocialRecoveryConfig>,
    account: Address,
) -> (ProtocolResult<[u8; 64]>, Map<Address, SocialRecoveryConfig>) {
    if !configs.contains_key(account) {
        (Err(ProtocolError::Recovery("no recovery config")), configs)
    } else {
        match configs[account].pending_recovery {
            None => (Err(ProtocolError::Recovery("no pending recovery")), configs),
            Some(request) => (Ok(request.new_key), without_request(configs, account)),
        }
    }
}

/// The configurations without a pending recovery of an account.
pub open spec fn without_request(
    configs: Map<Address, SocialRecoveryConfig>,
    account: Address,
) -> Map<Address, SocialRecoveryConfig> {
    configs.insert(
        account,
        (SocialRecoveryConfig { pending_recovery: None, ..configs[account] }),
    )
}

/// The configurations after a recovery of an account was asked for, which goes on under `request`.
pub open spec fn with_request(
    configs: Map<Address, SocialRecoveryConfig>,
    account: Address,
    request: RecoveryRequest,
) -> Map<Address, SocialRecoveryConfig> {
    configs.insert(
        account,
        (SocialRecoveryConfig { pending_recovery: Some(request), ..configs[account] }),
    )
}

impl SmartAccountRegistry {
    /// All but the accounts with several signers is the same.
    pub open spec fn same_but_signers(self, other: Self) -> bool {
        self.recovery_configs == other.recovery_configs && self.session_accounts
            == other.session_accounts && self.session_keys == other.session_keys
    }

    /// All but the recoveries is the same.
    pub open spec fn same_but_recovery(self, other: Self) -> bool {
        self.multi_sigs == other.multi_sigs && self.session_accounts == other.session_accounts
            && self.session_keys == other.session_keys
    }

    /// All but the session keys is the same.
    pub open spec fn same_but_sessions(self, other: Self) -> bool {
        self.multi_sigs == other.multi_sigs && self.recovery_configs == other.recovery_configs
    }

    pub fn new() -> (r: Self)
        ensures
            r.multi_sigs@ == Map::<Address, MultiSigConfig>::empty(),
            r.recovery_configs@ == Map::<Address, SocialRecoveryConfig>::empty(),
            r.session_accounts@ == Map::<Address, bool>::empty(),
            r.session_keys@ == Map::<(Address, Address), SessionKeyConfig>::empty(),
    {
        SmartAccountRegistry {
            multi_sigs: VecMap::new(),
            recovery_configs: VecMap::new(),
            session_accounts: VecMap::new(),
            session_keys: VecMap::new(),
        }
    }

    /// Gives an account its signers, in place of those it had.
    pub fn register_multi_sig(&mut self, account: Address, signers: Vec<Address>, threshold: u32) -> (r:
        ProtocolResult<()>)
        ensures
            r == multisig_check(signers@, threshold),
            final(self).multi_sigs@ == if r is Ok {
                old(self).multi_sigs@.insert(
                    account,
                    (MultiSigConfig { version: 1, signers, threshold }),
                )
            } else {
                old(self).multi_sigs@
            },
            final(self).same_but_signers(*old(self)),
    {
        match MultiSigConfig::new(signers, threshold) {
            Err(e) => Err(e),
            Ok(config) => {
                self.multi_sigs.insert(account, config);
                Ok(())
            },
        }
    }

    /// Gives an account other signers, as its next version.
    pub fn update_multi_sig(&mut self, account: Address, signers: Vec<Address>, threshold: u32) -> (r:
        ProtocolResult<()>)
        requires
            multisig_check(signers@, threshold) is Ok && old(self).multi_sigs@.contains_key(account)
                ==> old(self).multi_sigs@[account].version < u64::MAX,
        ensures
            r == match multisig_check(signers@, threshold) {
                Err(e) => Err(e),
                Ok(_) => if old(self).multi_sigs@.contains_key(account) {
                    Ok(())
                } else {
                    Err(ProtocolError::Recovery("account not registered"))
                },
            },
            final(self).multi_sigs@ == if r is Ok {
                old(self).multi_sigs@.insert(
                    account,
                    (MultiSigConfig {
                        version: (old(self).multi_sigs@[account].version + 1) as u64,
                        signers,
                        threshold,
                    }),
                )
            } else {
                old(self).multi_sigs@
            },
            final(self).same_but_signers(*old(self)),
    {
        match MultiSigConfig::new(signers, threshold) {
            Err(e) => Err(e),
            Ok(config) => match self.multi_sigs.get(account) {
                None => Err(ProtocolError::Recovery("account not registered")),
                Some(existing) => {
                    let version: u64 = existing.version + 1;
                    self.multi_sigs.insert(account, MultiSigConfig { version, ..config });
                    Ok(())
                },
            },
        }
    }

    pub fn get_multisig_config(&self, account: &Address) -> (r: Option<&MultiSigConfig>)
        ensures
            match r {
                Some(c) => self.multi_sigs@.contains_key(*account) && *c
                    == self.multi_sigs@[*account],
                None => !self.multi_sigs@.contains_key(*account),
            },
    {
        self.multi_sigs.get(*account)
    }

    /// Whether enough of an account's signers have signed.
    pub fn verify_multisig(&self, account: &Address, signers: &[Address]) -> (r: ProtocolResult<()>)
        ensures
            r == if !self.multi_sigs@.contains_key(*account) {
                Err(ProtocolError::Recovery("no multi-sig config"))
            } else if approvals(self.multi_sigs@[*account].signers@, signers@)
                < self.multi_sigs@[*account].threshold {
                Err(ProtocolError::Unauthorized)
            } else {
                Ok(())
            },
    {
        let config: &MultiSigConfig = match self.multi_sigs.get(*account) {
            None => {
                return Err(ProtocolError::Recovery("no multi-sig config"));
            },
            Some(config) => config,
        };
        let mut valid_count: usize = 0;
        let mut i: usize = 0;
        let ghost given = signers@.to_set();
        proof {
            let none = config.signers@.subrange(0, 0).to_set().intersect(given);
            assert(none =~= Set::<Address>::empty());
        }
        while i < config.signers.len()
            invariant
                i <= config.signers@.len(),
                valid_count <= i,
                given == signers@.to_set(),
                valid_count == approvals(config.signers@.subrange(0, i as int), signers@),
            decreases config.signers@.len() - i,
        {
            let s: Address = config.signers[i];
            let repeated = stands_before(config.signers.as_slice(), i);
            let present = contains(signers, s);
            proof {
                let head = config.signers@.subrange(0, i as int);
                let next = config.signers@.subrange(0, i + 1);
                assert(next =~= head.push(s));
                assert(next.to_set() =~= head.to_set().insert(s)) by {
                    assert forall|a: Address| #[trigger]
                        next.to_set().contains(a) == head.to_set().insert(s).contains(a) by {
                        if head.contains(a) {
                            let k = choose|k: int| 0 <= k < head.len() && head[k] == a;
                            assert(next[k] == a);
                        }
                        assert(next[i as int] == s);
                    }
                }
                let before = head.to_set().intersect(given);
                let after = next.to_set().intersect(given);
                vstd::seq_lib::seq_to_set_is_finite(head);
                if present {
                    assert(after =~= before.insert(s));
                } else {
                    assert(after =~= before);
                }
            }
            if present && !repeated {
                valid_count += 1;
            }
            i += 1;
        }
        proof {
            let all = config.signers@;
            assert(all.subrange(0, all.len() as int) =~= all);
        }
        if valid_count >= config.threshold as usize {
            Ok(())
        } else {
            Err(ProtocolError::Unauthorized)
        }
    }

    /// Asks for a new key, where no recovery is pending.
    pub fn initiate_recovery(
        &mut self,
        account: Address,
        new_key: [u8; 64],
        initiator: Address,
        signature: [u8; 65],
    ) -> (r: ProtocolResult<()>)
        ensures
            ({
                let before = old(self).recovery_configs@;
                let after = final(self).recovery_configs@;
                if !before.contains_key(account) {
                    &&& r == Err::<(), ProtocolError>(
                        ProtocolError::Recovery("no recovery config"),
                    )
                    &&& after == before
                } else if before[account].pending_recovery is Some {
                    &&& r == Err::<(), ProtocolError>(
                        ProtocolError::Recovery("recovery already pending"),
                    )
                    &&& after == before
                } else {
                    &&& r is Ok
                    &&& after[account].pending_recovery matches Some(request)
                    &&& after == with_request(before, account, request)
                    &&& request.new_key == new_key
                    &&& request.approved_by@ == seq![initiator]
                    &&& request.initiated_at == 0
                    &&& request.initiator_signature == signature
                }
            }),
            final(self).same_but_recovery(*old(self)),
    {
        match self.recovery_configs.get(account) {
            None => {
                return Err(ProtocolError::Recovery("no recovery config"));
            },
            Some(config) => {
                if config.pending_recovery.is_some() {
                    return Err(ProtocolError::Recovery("recovery already pending"));
                }
            },
        }
        let mut approved_by: Vec<Address> = Vec::new();
        approved_by.push(initiator);
        if let Some(config) = self.recovery_configs.remove(account) {
            let changed = SocialRecoveryConfig {
                pending_recovery: Some(
                    RecoveryRequest {
                        new_key,
                        approved_by,
                        initiated_at: 0,
                        initiator_signature: signature,
                    },
                ),
                ..config
            };
            self.recovery_configs.insert(account, changed);
            proof {
                assert(self.recovery_configs@ =~= old(self).recovery_configs@.insert(
                    account,
                    changed,
                ));
            }
        }
        Ok(())
    }

    /// Counts a guardian's approval, once.
    pub fn guardian_approve(&mut self, account: Address, guardian: Address) -> (r: ProtocolResult<
        (),
    >)
        ensures
            ({
                let before = old(self).recovery_configs@;
                let after = final(self).recovery_configs@;
                if !before.contains_key(account) {
                    &&& r == Err::<(), ProtocolError>(
                        ProtocolError::Recovery("no recovery config"),
                    )
                    &&& after == before
                } else if !before[account].guardians@.contains(guardian) {
                    &&& r == Err::<(), ProtocolError>(ProtocolError::Unauthorized)
                    &&& after == before
                } else if before[account].pending_recovery is None {
                    &&& r == Err::<(), ProtocolError>(
                        ProtocolError::Recovery("no pending recovery"),
                    )
                    &&& after == before
                } else {
                    let asked = before[account].pending_recovery->0;
                    &&& r is Ok
                    &&& after[account].pending_recovery matches Some(request)
                    &&& after == with_request(before, account, request)
                    &&& request == (RecoveryRequest { approved_by: request.approved_by, ..asked })
                    &&& request.approved_by@ == if asked.approved_by@.contains(guardian) {
                        asked.approved_by@
                    } else {
                        asked.approved_by@.push(guardian)
                    }
                }
            }),
            final(self).same_but_recovery(*old(self)),
    {
        match self.recovery_configs.get(account) {
            None => {
                return Err(ProtocolError::Recovery("no recovery config"));
            },
            Some(config) => {
                if !contains(config.guardians.as_slice(), guardian) {
                    return Err(ProtocolError::Unauthorized);
                }
                if config.pending_recovery.is_none() {
                    return Err(ProtocolError::Recovery("no pending recovery"));
                }
            },
        }
        if let Some(config) = self.recovery_configs.remove(account) {
            let SocialRecoveryConfig { recovery_delay_secs, guardians, pending_recovery } = config;
            if let Some(mut request) = pending_recovery {
                if !contains(request.approved_by.as_slice(), guardian) {
                    request.approved_by.push(guardian);
                }
                let changed = SocialRecoveryConfig {
                    recovery_delay_secs,
                    guardians,
                    pending_recovery: Some(request),
                };
                self.recovery_configs.insert(account, changed);
                proof {
                    assert(self.recovery_configs@ =~= old(self).recovery_configs@.insert(
                        account,
                        changed,
                    ));
                }
            }
        }
        Ok(())
    }

    /// Ends a pending recovery and hands out its key.
    pub fn finalize_recovery(&mut self, account: Address) -> (r: ProtocolResult<[u8; 64]>)
        ensures
            (r, final(self).recovery_configs@) == finalize_effect(
                old(self).recovery_configs@,
                account,
            ),
            final(self).same_but_recovery(*old(self)),
    {
        let new_key: [u8; 64] = match self.recovery_configs.get(account) {
            None => {
                return Err(ProtocolError::Recovery("no recovery config"));
            },
            Some(config) => match &config.pending_recovery {
                None => {
                    return Err(ProtocolError::Recovery("no pending recovery"));
                },
                Some(request) => request.new_key,
            },
        };
        self.drop_request(account);
        Ok(new_key)
    }

    fn drop_request(&mut self, account: Address)
        requires
            old(self).recovery_configs@.contains_key(account),
        ensures
            final(self).recovery_configs@ == without_request(old(self).recovery_configs@, account),
            final(self).same_but_recovery(*old(self)),
    {
        if let Some(config) = self.recovery_configs.remove(account) {
            let changed = SocialRecoveryConfig { pending_recovery: None, ..config };
            self.recovery_configs.insert(account, changed);
            proof {
                assert(self.recovery_configs@ =~= old(self).recovery_configs@.insert(
                    account,
                    changed,
                ));
            }
        }
    }

    /// Drops a recovery, pending or not.
    pub fn cancel_recovery(&mut self, account: Address) -> (r: ProtocolResult<()>)
        ensures
            (r, final(self).recovery_configs@) == ({
                let before = old(self).recovery_configs@;
                if !before.contains_key(account) {
                    (Err(ProtocolError::Recovery("no recovery config")), before)
                } else {
                    (Ok(()), without_request(before, account))
                }
            }),
            final(self).same_but_recovery(*old(self)),
    {
        if !self.recovery_configs.contains_key(account) {
            return Err(ProtocolError::Recovery("no recovery config"));
        }
        self.drop_request(account);
        Ok(())
    }

    /// Gives an account a session key.
    pub fn create_session_key(
        &mut self,
        account: Address,
        session_key: Address,
        permissions: SessionPermissions,
        expires_at: u64,
    ) -> (r: ProtocolResult<()>)
        ensures
            r is Ok,
            final(self).session_accounts@.dom() == old(self).session_accounts@.dom().insert(
                account,
            ),
            final(self).session_keys@ == old(self).session_keys@.insert(
                (account, session_key),
                (SessionKeyConfig { session_key, permissions, expires_at }),
            ),
            final(self).same_but_sessions(*old(self)),
    {
        self.session_accounts.insert(account, true);
        self.session_keys.insert(
            (account, session_key),
            SessionKeyConfig { session_key, permissions, expires_at },
        );
        proof {
            assert(self.session_accounts@.dom() =~= old(self).session_accounts@.dom().insert(
                account,
            ));
        }
        Ok(())
    }

    /// Takes a session key away.
    pub fn revoke_session_key(&mut self, account: Address, session_key: &Address) -> (r:
        ProtocolResult<()>)
        ensures
            r == if old(self).session_keys@.contains_key((account, *session_key)) {
                Ok(())
            } else {
                Err(ProtocolError::SessionKey("no session key"))
            },
            final(self).session_keys@ == old(self).session_keys@.remove((account, *session_key)),
            final(self).session_accounts == old(self).session_accounts,
            final(self).same_but_sessions(*old(self)),
    {
        match self.session_keys.remove((account, *session_key)) {
            Some(_) => Ok(()),
            None => Err(ProtocolError::SessionKey("no session key")),
        }
    }

    /// Whether a session key is valid.
    pub fn verify_session_key(&self, account: &Address, session_key: &Address, current_time: u64) -> (r:
        ProtocolResult<()>)
        ensures
            r == session_check(
                self.session_accounts@.dom(),
                self.session_keys@,
                *account,
                *session_key,
                current_time,
            ),
    {
        if !self.session_accounts.contains_key(*account) {
            return Err(ProtocolError::SessionKey("no session key config"));
        }
        match self.session_keys.get((*account, *session_key)) {
            None => Err(ProtocolError::Unauthorized),
            Some(config) => if current_time > config.expires_at {
                Err(ProtocolError::SessionKey("session expired"))
            } else {
                Ok(())
            },
        }
    }
}

/// All signers of a valid configuration together always suffice.
pub proof fn law_all_signers_suffice(signers: Seq<Address>, threshold: u32)
    requires
        multisig_check(signers, threshold) is Ok,
    ensures
        approvals(signers, signers) >= threshold,
{
    signers.unique_seq_to_set();
    assert(signers.to_set().intersect(signers.to_set()) =~= signers.to_set());
}

/// Signing more than once, or signatures of others, add nothing.
pub proof fn law_only_distinct_signers_count(
    signers: Seq<Address>,
    given: Seq<Address>,
    extra: Address,
)
    requires
        given.contains(extra) || !signers.contains(extra),
    ensures
        approvals(signers, given.push(extra)) == approvals(signers, given),
{
    let a = signers.to_set().intersect(given.push(extra).to_set());
    let b = signers.to_set().intersect(given.to_set());
    assert forall|x: Address| #[trigger] a.contains(x) == b.contains(x) by {
        if given.contains(x) {
            let k = choose|k: int| 0 <= k < given.len() && given[k] == x;
            assert(given.push(extra)[k] == x);
        }
    }
    assert(a =~= b);
}

/// A revoked session key is no longer valid.
pub proof fn law_revoked_key_is_refused(
    accounts: Set<Address>,
    keys: Map<(Address, Address), SessionKeyConfig>,
    account: Address,
    session_key: Address,
    current_time: u64,
)
    ensures
        session_check(
            accounts,
            keys.remove((account, session_key)),
            account,
            session_key,
            current_time,
        ) is Err,
{
}

/// A recovery hands out the key that it was asked for, and only once.
pub proof fn law_recovery_is_used_once(
    configs: Map<Address, SocialRecoveryConfig>,
    account: Address,
    request: RecoveryRequest,
)
    ensures
        ({
            let (r, after) = finalize_effect(with_request(configs, account, request), account);
            &&& r == Ok::<[u8; 64], ProtocolError>(request.new_key)
            &&& finalize_effect(after, account).0 == Err::<[u8; 64], ProtocolError>(
                ProtocolError::Recovery("no pending recovery"),
            )
        }),
{
}

/// A recovery that was dropped hands out nothing.
pub proof fn law_cancelled_recovery_is_refused(
    configs: Map<Address, SocialRecoveryConfig>,
    account: Address,
)
    ensures
        finalize_effect(without_request(configs, account), account) == (
            Err::<[u8; 64], ProtocolError>(ProtocolError::Recovery("no pending recovery")),
            without_request(configs, account),
        ),
{
}

} // verus!
