use vstd::prelude::*;

use crate::crypto::{
    kdf_phc, argon2_phc_check, fresh_salt_shape, hash_master_password, lemma_fresh_salt_utf8_len, new_vault_key, new_verifier_salt, unwrap_vault_key,
    unwrapped_key, verify_master_password, wrap_vault_key,
};
use crate::error::PakerError;
use crate::text::{chars_of, string_of, utf8_len};

verus! {

/// The shortest master key accepted, in bytes.
pub const MIN_MASTER_PASSWORD_LEN: usize = 8;

/// Failed unlocks allowed before unlocking is blocked for a while.
pub const MAX_UNLOCK_ATTEMPTS_BEFORE_BACKOFF: u32 = 5;

/// What the settings page shows about the vault.
pub struct VaultStatus {
    pub enabled: bool,
    pub locked: bool,
    pub setup_required: bool,
    pub auto_lock_minutes: u32,
    pub lock_on_blur: bool,
    pub recovery_available: bool,
    pub unlock_blocked_secs: u64,
}

/// Refuses a master key shorter than [`MIN_MASTER_PASSWORD_LEN`] bytes.
pub fn validate_master_password(password: &str) -> (r: Result<(), String>)
    ensures
        utf8_len(password@) < 8 ==> (r matches Err(m) && m@
            == "master key must be at least 8 characters"@),
        utf8_len(password@) >= 8 ==> r is Ok,
{
    if crate::text::utf8_len_exceeds(&chars_of(password), 7) {
        Ok(())
    } else {
        Err(string_of(&chars_of("master key must be at least 8 characters")))
    }
}

/// The auto-lock delay a new vault gets, in minutes.
pub fn default_auto_lock() -> (r: u32)
    ensures
        r == 15,
{
    15
}

pub open spec fn pow2(e: nat) -> nat
    decreases e,
{
    if e == 0 {
        1
    } else {
        2 * pow2((e - 1) as nat)
    }
}

/// How long unlocking is blocked after `attempts` failures in a row, in
/// seconds: nothing below the threshold, then 30 s doubling with each
/// further failure, at most 300 s.
pub open spec fn backoff_secs(attempts: nat) -> nat {
    if attempts < 5 {
        0
    } else {
        let e = if attempts - 5 < 4 {
            (attempts - 5) as nat
        } else {
            4
        };
        if 30 * pow2(e) < 300 {
            30 * pow2(e)
        } else {
            300
        }
    }
}

/// Counts failed unlocks and blocks unlocking after too many.  Instants are
/// milliseconds on a monotonic clock.
pub struct UnlockGuard {
    pub failed_unlock_attempts: u32,
    pub unlock_blocked_until_ms: Option<u64>,
}

impl UnlockGuard {
    /// No failure recorded.
    pub fn new() -> (r: UnlockGuard)
        ensures
            r.failed_unlock_attempts == 0,
            r.unlock_blocked_until_ms is None,
    {
        UnlockGuard { failed_unlock_attempts: 0, unlock_blocked_until_ms: None }
    }

    /// Records a failed unlock at `now_ms`; from the threshold on, unlocking
    /// is blocked for [`backoff_secs`] from now.
    pub fn register_failed_unlock(&mut self, now_ms: u64)
        requires
            old(self).failed_unlock_attempts < u32::MAX,
            now_ms <= u64::MAX - 300_000,
        ensures
            final(self).failed_unlock_attempts == old(self).failed_unlock_attempts + 1,
            final(self).failed_unlock_attempts < 5 ==> final(self).unlock_blocked_until_ms
                == old(self).unlock_blocked_until_ms,
            final(self).failed_unlock_attempts >= 5 ==> final(self).unlock_blocked_until_ms
                == Some((now_ms + 1000 * backoff_secs(final(self).failed_unlock_attempts as nat)) as u64),
    {
        self.failed_unlock_attempts = self.failed_unlock_attempts + 1;
        if self.failed_unlock_attempts >= MAX_UNLOCK_ATTEMPTS_BEFORE_BACKOFF {
            let exponent = self.failed_unlock_attempts - MAX_UNLOCK_ATTEMPTS_BEFORE_BACKOFF;
            let e = if exponent < 4 { exponent } else { 4 };
            let mut p: u64 = 1;
            let mut k: u32 = 0;
            while k < e
                invariant
                    k <= e <= 4,
                    p == pow2(k as nat),
                    k == 0 ==> p == 1,
                    k == 1 ==> p == 2,
                    k == 2 ==> p == 4,
                    k == 3 ==> p == 8,
                    k == 4 ==> p == 16,
                decreases e - k,
            {
                p = p * 2;
                k += 1;
            }
            let secs: u64 = if 30 * p < 300 { 30 * p } else { 300 };
            self.unlock_blocked_until_ms = Some(now_ms + secs * 1000);
        }
    }

    /// Unlocking is blocked at `now_ms`.
    pub fn unlock_blocked(&self, now_ms: u64) -> (b: bool)
        ensures
            b == (self.unlock_blocked_until_ms matches Some(u) && now_ms < u),
    {
        match self.unlock_blocked_until_ms {
            Some(u) => now_ms < u,
            None => false,
        }
    }

    /// Whole seconds until unlocking is allowed again (zero when it is).
    pub fn blocked_secs(&self, now_ms: u64) -> (r: u64)
        ensures
            r == match self.unlock_blocked_until_ms {
                Some(u) => if now_ms <= u {
                    ((u - now_ms) / 1000) as u64
                } else {
                    0
                },
                None => 0,
            },
    {
        match self.unlock_blocked_until_ms {
            Some(u) => if now_ms <= u {
                (u - now_ms) / 1000
            } else {
                0
            },
            None => 0,
        }
    }

    /// Forgets the failures after a successful unlock or a new setup.
    pub fn reset(&mut self)
        ensures
            final(self).failed_unlock_attempts == 0,
            final(self).unlock_blocked_until_ms is None,
    {
        self.failed_unlock_attempts = 0;
        self.unlock_blocked_until_ms = None;
    }
}

/// Five failed unlocks in a row block unlocking for the next 30 seconds.
pub proof fn law_backoff_after_threshold()
    ensures
        backoff_secs(4) == 0,
        backoff_secs(5) == 30,
        backoff_secs(6) == 60,
        forall|n: nat| n >= 9 ==> #[trigger] backoff_secs(n) == 300,
{
    reveal_with_fuel(pow2, 5);
    assert(pow2(4) == 16);
}

/// The vault locks itself after `auto_lock_minutes` (none when zero) of
/// inactivity; `idle_secs` is how long it has been idle.
pub fn idle_lock_elapsed(auto_lock_minutes: u32, idle_secs: u64) -> (b: bool)
    ensures
        b == (auto_lock_minutes != 0 && idle_secs >= auto_lock_minutes * 60),
{
    if auto_lock_minutes == 0 {
        return false;
    }
    idle_secs >= (auto_lock_minutes as u64) * 60
}

/// The settings a vault was set up with, if it was.
pub struct VaultSettings {
    pub enabled: bool,
    pub auto_lock_minutes: u32,
    pub lock_on_blur: bool,
}

/// The status shown for a vault: enabled and locked only when set up and
/// enabled, default preferences (15 minutes, no lock on blur) when not set
/// up.
pub fn vault_status(
    settings: &Option<VaultSettings>,
    locked: bool,
    guard: &UnlockGuard,
    now_ms: u64,
    setup_required: bool,
    recovery_available: bool,
) -> (r: VaultStatus)
    ensures
        r.enabled == (settings matches Some(s) && s.enabled),
        r.locked == (r.enabled && locked),
        r.setup_required == setup_required,
        r.auto_lock_minutes == match settings {
            Some(s) => s.auto_lock_minutes,
            None => 15,
        },
        r.lock_on_blur == (settings matches Some(s) && s.lock_on_blur),
        r.recovery_available == recovery_available,
        r.unlock_blocked_secs == match guard.unlock_blocked_until_ms {
            Some(u) => if now_ms <= u {
                ((u - now_ms) / 1000) as u64
            } else {
                0
            },
            None => 0,
        },
{
    let enabled = match settings {
        Some(s) => s.enabled,
        None => false,
    };
    let (auto_lock_minutes, lock_on_blur) = match settings {
        Some(s) => (s.auto_lock_minutes, s.lock_on_blur),
        None => (15, false),
    };
    VaultStatus {
        enabled,
        locked: enabled && locked,
        setup_required,
        auto_lock_minutes,
        lock_on_blur,
        recovery_available,
        unlock_blocked_secs: guard.blocked_secs(now_ms),
    }
}

/// Input of setting up the vault.
pub struct SetupVaultInput {
    pub master_password: String,
    pub auto_lock_minutes: u32,
    pub lock_on_blur: bool,
}

/// Input of changing the master key.
pub struct ChangeMasterKeyInput {
    pub current_password: String,
    pub new_password: String,
}

/// Input of resetting the master key after OS authentication.
pub struct ResetMasterKeyInput {
    pub new_password: String,
}

/// Input of changing the vault preferences.
pub struct SetVaultPreferencesInput {
    pub auto_lock_minutes: u32,
    pub lock_on_blur: bool,
}

// ---------------------------------------------------------------------------
// The vault
// ---------------------------------------------------------------------------

/// The version written into new vault metadata.
pub const VAULT_META_VERSION: u32 = 1;

/// What is stored about the vault: how to check the master key, the vault
/// key wrapped under it, and the lock preferences.
#[derive(Debug)]
pub struct VaultMeta {
    pub version: u32,
    pub enabled: bool,
    pub verifier_salt: String,
    pub verifier_hash: String,
    pub wrapped_vault_key: String,
    pub auto_lock_minutes: u32,
    pub lock_on_blur: bool,
}

/// The mathematical value of [`VaultMeta`].
pub struct MetaView {
    pub version: u32,
    pub enabled: bool,
    pub verifier_salt: Seq<char>,
    pub verifier_hash: Seq<char>,
    pub wrapped_vault_key: Seq<char>,
    pub auto_lock_minutes: u32,
    pub lock_on_blur: bool,
}

impl View for VaultMeta {
    type V = MetaView;

    open spec fn view(&self) -> MetaView {
        MetaView {
            version: self.version,
            enabled: self.enabled,
            verifier_salt: self.verifier_salt@,
            verifier_hash: self.verifier_hash@,
            wrapped_vault_key: self.wrapped_vault_key@,
            auto_lock_minutes: self.auto_lock_minutes,
            lock_on_blur: self.lock_on_blur,
        }
    }
}

/// A field-by-field copy.
pub fn copy_meta(m: &VaultMeta) -> (r: VaultMeta)
    ensures
        r@ == m@,
{
    VaultMeta {
        version: m.version,
        enabled: m.enabled,
        verifier_salt: string_of(&chars_of(m.verifier_salt.as_str())),
        verifier_hash: string_of(&chars_of(m.verifier_hash.as_str())),
        wrapped_vault_key: string_of(&chars_of(m.wrapped_vault_key.as_str())),
        auto_lock_minutes: m.auto_lock_minutes,
        lock_on_blur: m.lock_on_blur,
    }
}

fn copy_bytes(v: &Vec<u8>) -> (r: Vec<u8>)
    ensures
        r@ == v@,
{
    let mut out: Vec<u8> = Vec::new();
    let mut i: usize = 0;
    while i < v.len()
        invariant
            i <= v.len(),
            out@ == v@.subrange(0, i as int),
        decreases v.len() - i,
    {
        out.push(v[i]);
        i += 1;
        assert(out@ =~= v@.subrange(0, i as int));
    }
    assert(v@.subrange(0, i as int) =~= v@);
    out
}

/// The mathematical state of a [`VaultManager`].
pub struct VaultState {
    pub meta: Option<MetaView>,
    pub locked: bool,
    pub key: Option<Seq<u8>>,
    pub last_activity_ms: u64,
    pub failed_unlock_attempts: u32,
    pub unlock_blocked_until_ms: Option<u64>,
}

pub open spec fn meta_view(m: Option<VaultMeta>) -> Option<MetaView> {
    match m {
        Some(x) => Some(x@),
        None => None,
    }
}

pub open spec fn key_view(k: Option<Vec<u8>>) -> Option<Seq<u8>> {
    match k {
        Some(x) => Some(x@),
        None => None,
    }
}

/// The vault is set up and enabled.
pub open spec fn is_enabled_in(s: VaultState) -> bool {
    s.meta matches Some(m) && m.enabled
}

/// How an unlock with `password` turns out.
pub enum UnlockStep {
    Blocked,
    NotEnabled,
    WrongPassword,
    BadWrap,
    Unlocked(Seq<u8>),
}

/// How an unlock with `password` turns out in state `s` at `now_ms`:
/// refused while blocked, refused without an enabled vault, a failure (that
/// counts) where the master key does not verify, refused where the vault
/// key does not unwrap, else the unwrapped vault key.
pub open spec fn unlock_step(s: VaultState, password: Seq<char>, now_ms: u64) -> UnlockStep {
    if s.unlock_blocked_until_ms matches Some(u) && now_ms < u {
        UnlockStep::Blocked
    } else {
        match s.meta {
            None => UnlockStep::NotEnabled,
            Some(m) => if !m.enabled {
                UnlockStep::NotEnabled
            } else if argon2_phc_check(password, m.verifier_hash) != Some(true) {
                UnlockStep::WrongPassword
            } else {
                match unwrapped_key(m.wrapped_vault_key, password, m.verifier_salt) {
                    None => UnlockStep::BadWrap,
                    Some(k) => UnlockStep::Unlocked(k),
                }
            },
        }
    }
}

/// The state after a failed unlock at `now_ms`: one more failure, and from
/// the threshold on a block of [`backoff_secs`] from now.
pub open spec fn after_failed_unlock(s: VaultState, now_ms: u64) -> VaultState {
    let n = s.failed_unlock_attempts + 1;
    VaultState {
        failed_unlock_attempts: n as u32,
        unlock_blocked_until_ms: if n >= 5 {
            Some((now_ms + 1000 * backoff_secs(n as nat)) as u64)
        } else {
            s.unlock_blocked_until_ms
        },
        ..s
    }
}

/// Metadata that opens with `password` to the vault key `key`: its hash
/// verifies the password and its wrapped key unwraps to `key`.
pub open spec fn opens_with(m: MetaView, password: Seq<char>, key: Seq<u8>) -> bool {
    &&& argon2_phc_check(password, m.verifier_hash) == Some(true)
    &&& unwrapped_key(m.wrapped_vault_key, password, m.verifier_salt) == Some(key)
}

/// The vault: its metadata, whether it is locked, the vault key while
/// unlocked, the last activity and the failed-unlock guard.  Instants are
/// milliseconds on a monotonic clock.
pub struct VaultManager {
    meta: Option<VaultMeta>,
    locked: bool,
    vault_key: Option<Vec<u8>>,
    last_activity_ms: u64,
    guard: UnlockGuard,
}

impl View for VaultManager {
    type V = VaultState;

    closed spec fn view(&self) -> VaultState {
        VaultState {
            meta: meta_view(self.meta),
            locked: self.locked,
            key: key_view(self.vault_key),
            last_activity_ms: self.last_activity_ms,
            failed_unlock_attempts: self.guard.failed_unlock_attempts,
            unlock_blocked_until_ms: self.guard.unlock_blocked_until_ms,
        }
    }
}

/// Why fresh metadata for `password` can fail: the password is longer than
/// argon2 takes, or argon2 refuses to hash it with a salt of fresh shape.
pub open spec fn meta_may_fail(password: Seq<char>) -> bool {
    utf8_len(password) > 0xFFFF_FFFF || exists|s: Seq<char>|
        fresh_salt_shape(s) && #[trigger] kdf_phc(password, s) is None
}

/// New metadata for a master key: its hash, the vault key wrapped under it.
fn meta_for(vault_key: &Vec<u8>, password: &str, auto_lock_minutes: u32, lock_on_blur: bool) -> (r:
    Result<VaultMeta, String>)
    requires
        vault_key.len() == 32,
    ensures
        r matches Ok(m) ==> (m@.enabled && m@.version == 1 && m@.auto_lock_minutes
            == auto_lock_minutes && m@.lock_on_blur == lock_on_blur && opens_with(
            m@,
            password@,
            vault_key@,
        )),
        utf8_len(password@) > 0xFFFF_FFFF ==> r is Err,
        r is Err ==> meta_may_fail(password@),
        utf8_len(password@) <= 0xFFFF_FFFF ==> (r matches Err(e) ==> e@
            == "failed to hash master password"@),
{
    let salt = new_verifier_salt();
    proof {
        lemma_fresh_salt_utf8_len(salt@);
    }
    let hash = match hash_master_password(password, salt.as_str()) {
        Ok(h) => h,
        Err(e) => {
            return Err(e);
        },
    };
    let wrapped = match wrap_vault_key(vault_key, password, salt.as_str()) {
        Ok(w) => w,
        Err(e) => {
            return Err(e);
        },
    };
    Ok(
        VaultMeta {
            version: VAULT_META_VERSION,
            enabled: true,
            verifier_salt: salt,
            verifier_hash: hash,
            wrapped_vault_key: wrapped,
            auto_lock_minutes,
            lock_on_blur,
        },
    )
}

impl VaultManager {
    /// A vault that was never set up.
    pub fn new() -> (r: VaultManager)
        ensures
            r@.meta is None,
            !r@.locked,
            r@.key is None,
            r@.failed_unlock_attempts == 0,
            r@.unlock_blocked_until_ms is None,
            r@.last_activity_ms == 0,
    {
        VaultManager {
            meta: None,
            locked: false,
            vault_key: None,
            last_activity_ms: 0,
            guard: UnlockGuard::new(),
        }
    }

    /// Takes in the metadata read from disk (`None` where there is none): an
    /// enabled vault starts locked, without its key.
    pub fn load(&mut self, meta: Option<VaultMeta>, now_ms: u64)
        ensures
            final(self)@.meta == meta_view(meta),
            final(self)@.key is None,
            final(self)@.locked == (meta matches Some(m) && m.enabled),
            (meta matches Some(m) && m.enabled) ==> final(self)@.last_activity_ms == now_ms,
            !(meta matches Some(m) && m.enabled) ==> final(self)@.last_activity_ms == old(
                self,
            )@.last_activity_ms,
            final(self)@.failed_unlock_attempts == old(self)@.failed_unlock_attempts,
            final(self)@.unlock_blocked_until_ms == old(self)@.unlock_blocked_until_ms,
    {
        let enabled = match &meta {
            Some(m) => m.enabled,
            None => false,
        };
        self.meta = meta;
        self.vault_key = None;
        self.locked = enabled;
        if enabled {
            self.last_activity_ms = now_ms;
        }
    }

    /// The vault is set up and enabled.
    pub fn is_enabled(&self) -> (b: bool)
        ensures
            b == is_enabled_in(self@),
    {
        match &self.meta {
            Some(m) => m.enabled,
            None => false,
        }
    }

    /// The vault is enabled and locked.
    pub fn is_locked(&self) -> (b: bool)
        ensures
            b == (is_enabled_in(self@) && self@.locked),
    {
        self.is_enabled() && self.locked
    }

    /// Refuses while the vault is enabled and locked.
    pub fn ensure_unlocked(&self) -> (r: Result<(), PakerError>)
        ensures
            (is_enabled_in(self@) && self@.locked) ==> r matches Err(PakerError::VaultLocked),
            !(is_enabled_in(self@) && self@.locked) ==> r is Ok,
    {
        if self.is_enabled() && self.is_locked() {
            return Err(PakerError::VaultLocked);
        }
        Ok(())
    }

    /// Failed unlocks in a row so far.
    pub fn failed_unlock_attempts(&self) -> (r: u32)
        ensures
            r == self@.failed_unlock_attempts,
    {
        self.guard.failed_unlock_attempts
    }

    /// The vault key while unlocked.
    pub fn vault_key(&self) -> (r: Option<Vec<u8>>)
        ensures
            key_view(r) == self@.key,
    {
        match &self.vault_key {
            Some(k) => Some(copy_bytes(k)),
            None => None,
        }
    }

    /// The stored metadata.
    pub fn meta(&self) -> (r: Option<VaultMeta>)
        ensures
            meta_view(r) == self@.meta,
    {
        match &self.meta {
            Some(m) => Some(copy_meta(m)),
            None => None,
        }
    }

    /// The status shown on the settings page.
    pub fn status(&self, setup_required: bool, recovery_available: bool, now_ms: u64) -> (r:
        VaultStatus)
        ensures
            r.enabled == is_enabled_in(self@),
            r.locked == (is_enabled_in(self@) && self@.locked),
            r.setup_required == setup_required,
            r.auto_lock_minutes == match self@.meta {
                Some(m) => m.auto_lock_minutes,
                None => 15,
            },
            r.lock_on_blur == (self@.meta matches Some(m) && m.lock_on_blur),
            r.recovery_available == recovery_available,
            r.unlock_blocked_secs == match self@.unlock_blocked_until_ms {
                Some(u) => if now_ms <= u {
                    ((u - now_ms) / 1000) as u64
                } else {
                    0
                },
                None => 0,
            },
    {
        let settings = match &self.meta {
            Some(m) => Some(
                VaultSettings {
                    enabled: m.enabled,
                    auto_lock_minutes: m.auto_lock_minutes,
                    lock_on_blur: m.lock_on_blur,
                },
            ),
            None => None,
        };
        vault_status(&settings, self.locked, &self.guard, now_ms, setup_required, recovery_available)
    }

    /// Notes activity at `now_ms`.
    pub fn record_activity(&mut self, now_ms: u64)
        ensures
            final(self)@ == (VaultState { last_activity_ms: now_ms, ..old(self)@ }),
    {
        self.last_activity_ms = now_ms;
    }

    /// The vault has been idle for `auto_lock_minutes` (never when zero).
    pub fn idle_lock_elapsed(&self, auto_lock_minutes: u32, now_ms: u64) -> (b: bool)
        ensures
            b == (auto_lock_minutes != 0 && now_ms >= self@.last_activity_ms && now_ms
                - self@.last_activity_ms >= auto_lock_minutes * 60000),
    {
        if now_ms < self.last_activity_ms {
            return false;
        }
        idle_lock_elapsed(auto_lock_minutes, (now_ms - self.last_activity_ms) / 1000)
    }

    /// Notes activity at `now_ms`, then locks an enabled, unlocked vault
    /// whose auto-lock delay has passed since the last activity; says
    /// whether it locked.  Since the activity was just noted, no delay has
    /// passed and the vault is never locked here.
    pub fn record_vault_activity(&mut self, now_ms: u64) -> (b: bool)
        ensures
            !b,
            final(self)@ == (VaultState { last_activity_ms: now_ms, ..old(self)@ }),
    {
        self.record_activity(now_ms);
        let (enabled, locked, minutes) = match &self.meta {
            Some(m) => (m.enabled, m.enabled && self.locked, m.auto_lock_minutes),
            None => (false, false, 15),
        };
        if enabled && !locked && minutes > 0 && self.idle_lock_elapsed(minutes, now_ms) {
            return self.lock();
        }
        false
    }

    /// Locks an enabled vault, dropping its key; says whether it did.
    pub fn lock(&mut self) -> (b: bool)
        ensures
            b == is_enabled_in(old(self)@),
            b ==> final(self)@ == (VaultState { locked: true, key: None, ..old(self)@ }),
            !b ==> final(self)@ == old(self)@,
    {
        if !self.is_enabled() {
            return false;
        }
        self.vault_key = None;
        self.locked = true;
        true
    }

    /// Prepares a new vault for a master key: a fresh vault key and the
    /// metadata that opens to it with that master key.
    pub fn prepare_setup(master_password: &str, auto_lock_minutes: u32, lock_on_blur: bool) -> (r:
        Result<(VaultMeta, Vec<u8>), String>)
        ensures
            utf8_len(master_password@) < 8 ==> (r matches Err(m) && m@
                == "master key must be at least 8 characters"@),
            r matches Ok((m, k)) ==> (k.len() == 32 && m@.enabled && m@.version == 1
                && m@.auto_lock_minutes == auto_lock_minutes && m@.lock_on_blur == lock_on_blur
                && opens_with(m@, master_password@, k@)),
            r matches Err(m) ==> (utf8_len(master_password@) < 8 && m@
                == "master key must be at least 8 characters"@) || (utf8_len(master_password@)
                >= 8 && meta_may_fail(master_password@) && (utf8_len(master_password@)
                <= 0xFFFF_FFFF ==> m@ == "failed to hash master password"@)),
            utf8_len(master_password@) > 0xFFFF_FFFF ==> r is Err,
    {
        match validate_master_password(master_password) {
            Err(e) => {
                return Err(e);
            },
            Ok(()) => {},
        }
        let key = new_vault_key();
        match meta_for(&key, master_password, auto_lock_minutes, lock_on_blur) {
            Ok(m) => Ok((m, key)),
            Err(e) => Err(e),
        }
    }

    /// Takes in a vault that was set up and saved: unlocked, with its key.
    pub fn finish_setup(&mut self, meta: VaultMeta, vault_key: Vec<u8>, now_ms: u64)
        ensures
            final(self)@ == (VaultState {
                meta: Some(meta@),
                locked: false,
                key: Some(vault_key@),
                last_activity_ms: now_ms,
                failed_unlock_attempts: 0,
                unlock_blocked_until_ms: None,
            }),
    {
        self.meta = Some(meta);
        self.locked = false;
        self.vault_key = Some(vault_key);
        self.last_activity_ms = now_ms;
        self.guard.reset();
    }

    /// Unlocks with the master key (see [`unlock_step`]): on success the
    /// vault key is held, the vault unlocked and the failures forgotten; a
    /// master key that does not verify counts as a failure.
    pub fn unlock(&mut self, master_password: &str, now_ms: u64) -> (r: Result<(), PakerError>)
        requires
            old(self)@.failed_unlock_attempts < u32::MAX,
            now_ms <= u64::MAX - 300_000,
        ensures
            ({
                let o = old(self)@;
                let f = final(self)@;
                match unlock_step(o, master_password@, now_ms) {
                    UnlockStep::Blocked => r matches Err(PakerError::VaultUnlockBlocked) && f == o,
                    UnlockStep::NotEnabled => r matches Err(PakerError::VaultAuthFailed) && f == o,
                    UnlockStep::BadWrap => r matches Err(PakerError::VaultAuthFailed) && f == o,
                    UnlockStep::WrongPassword => r matches Err(PakerError::VaultAuthFailed) && f
                        == after_failed_unlock(o, now_ms),
                    UnlockStep::Unlocked(k) => r is Ok && f == (VaultState {
                        locked: false,
                        key: Some(k),
                        last_activity_ms: now_ms,
                        failed_unlock_attempts: 0,
                        unlock_blocked_until_ms: None,
                        ..o
                    }),
                }
            }),
    {
        if self.guard.unlock_blocked(now_ms) {
            return Err(PakerError::VaultUnlockBlocked);
        }
        let meta = match &self.meta {
            Some(m) => {
                if !m.enabled {
                    return Err(PakerError::VaultAuthFailed);
                }
                copy_meta(m)
            },
            None => {
                return Err(PakerError::VaultAuthFailed);
            },
        };
        let verified = match verify_master_password(
            master_password,
            meta.verifier_salt.as_str(),
            meta.verifier_hash.as_str(),
        ) {
            Ok(b) => b,
            Err(_) => false,
        };
        if !verified {
            self.guard.register_failed_unlock(now_ms);
            return Err(PakerError::VaultAuthFailed);
        }
        let key = match unwrap_vault_key(
            meta.wrapped_vault_key.as_str(),
            master_password,
            meta.verifier_salt.as_str(),
        ) {
            Ok(k) => k,
            Err(_) => {
                return Err(PakerError::VaultAuthFailed);
            },
        };
        self.vault_key = Some(key);
        self.locked = false;
        self.last_activity_ms = now_ms;
        self.guard.reset();
        Ok(())
    }

    /// Changes the master key of an unlocked vault: the current key must
    /// verify; the vault key is rewrapped under the new one.  Gives back
    /// the new metadata and the vault key, to be saved.
    pub fn change_master_key(&mut self, current_password: &str, new_password: &str) -> (r: Result<
        (VaultMeta, Vec<u8>),
        PakerError,
    >)
        ensures
            (is_enabled_in(old(self)@) && old(self)@.locked) ==> r matches Err(
                PakerError::VaultLocked,
            ),
            !(is_enabled_in(old(self)@) && old(self)@.locked) && utf8_len(new_password@) < 8 ==> (
            r matches Err(PakerError::InvalidInput(m)) && m@
                == "master key must be at least 8 characters"@),
            r is Err ==> final(self)@ == old(self)@,
            r matches Ok((m, k)) ==> ({
                let om = old(self)@.meta->0;
                &&& old(self)@.meta is Some && om.enabled
                &&& argon2_phc_check(current_password@, om.verifier_hash) == Some(true)
                &&& old(self)@.key == Some(k@) && k.len() == 32
                &&& opens_with(m@, new_password@, k@)
                &&& m@.enabled && m@.version == om.version
                &&& m@.auto_lock_minutes == om.auto_lock_minutes && m@.lock_on_blur == om.lock_on_blur
                &&& final(self)@ == (VaultState { meta: Some(m@), ..old(self)@ })
            }),
            ({
                let o = old(self)@;
                o.meta is Some && o.meta->0.enabled && !o.locked && utf8_len(new_password@) >= 8
                    && argon2_phc_check(current_password@, o.meta->0.verifier_hash) == Some(false)
            }) ==> r matches Err(PakerError::VaultAuthFailed),
            r matches Err(e) ==> ({
                let o = old(self)@;
                let open = !(is_enabled_in(o) && o.locked);
                match e {
                    PakerError::VaultLocked => !open || (utf8_len(new_password@) >= 8
                        && is_enabled_in(o) && argon2_phc_check(
                        current_password@,
                        o.meta->0.verifier_hash,
                    ) == Some(true) && o.key is None),
                    PakerError::InvalidInput(m) => open && utf8_len(new_password@) < 8 && m@
                        == "master key must be at least 8 characters"@,
                    PakerError::VaultAuthFailed => open && utf8_len(new_password@) >= 8 && (
                    !is_enabled_in(o) || argon2_phc_check(current_password@, o.meta->0.verifier_hash)
                        != Some(true)),
                    PakerError::Internal => open && utf8_len(new_password@) >= 8 && is_enabled_in(o)
                        && argon2_phc_check(current_password@, o.meta->0.verifier_hash) == Some(true)
                        && o.key is Some && (o.key->0.len() != 32 || meta_may_fail(new_password@)),
                    _ => false,
                }
            }),
    {
        match self.ensure_unlocked() {
            Err(e) => {
                return Err(e);
            },
            Ok(()) => {},
        }
        match validate_master_password(new_password) {
            Err(e) => {
                return Err(PakerError::InvalidInput(e));
            },
            Ok(()) => {},
        }
        let meta = match &self.meta {
            Some(m) => {
                if !m.enabled {
                    return Err(PakerError::VaultAuthFailed);
                }
                copy_meta(m)
            },
            None => {
                return Err(PakerError::VaultAuthFailed);
            },
        };
        match verify_master_password(
            current_password,
            meta.verifier_salt.as_str(),
            meta.verifier_hash.as_str(),
        ) {
            Ok(true) => {},
            _ => {
                return Err(PakerError::VaultAuthFailed);
            },
        }
        let key = match &self.vault_key {
            Some(k) => {
                if k.len() != 32 {
                    return Err(PakerError::Internal);
                }
                copy_bytes(k)
            },
            None => {
                return Err(PakerError::VaultLocked);
            },
        };
        let fresh = match meta_for(&key, new_password, meta.auto_lock_minutes, meta.lock_on_blur) {
            Ok(m) => m,
            Err(_) => {
                return Err(PakerError::Internal);
            },
        };
        let updated = VaultMeta {
            version: meta.version,
            enabled: meta.enabled,
            verifier_salt: fresh.verifier_salt,
            verifier_hash: fresh.verifier_hash,
            wrapped_vault_key: fresh.wrapped_vault_key,
            auto_lock_minutes: meta.auto_lock_minutes,
            lock_on_blur: meta.lock_on_blur,
        };
        let out = copy_meta(&updated);
        self.meta = Some(updated);
        Ok((out, key))
    }

    /// Sets a new master key over the vault key recovered from the escrow
    /// after OS authentication, and unlocks the vault.  Gives back the new
    /// metadata, to be saved.
    pub fn reset_master_key(&mut self, new_password: &str, vault_key: Vec<u8>, now_ms: u64) -> (r:
        Result<VaultMeta, PakerError>)
        requires
            vault_key.len() == 32,
        ensures
            utf8_len(new_password@) < 8 ==> (r matches Err(PakerError::InvalidInput(m)) && m@
                == "master key must be at least 8 characters"@),
            r is Err ==> final(self)@ == old(self)@,
            r matches Ok(m) ==> ({
                let om = old(self)@.meta->0;
                &&& old(self)@.meta is Some && om.enabled
                &&& opens_with(m@, new_password@, vault_key@)
                &&& m@.enabled && m@.version == om.version
                &&& m@.auto_lock_minutes == om.auto_lock_minutes && m@.lock_on_blur == om.lock_on_blur
                &&& final(self)@ == (VaultState {
                    meta: Some(m@),
                    locked: false,
                    key: Some(vault_key@),
                    last_activity_ms: now_ms,
                    failed_unlock_attempts: 0,
                    unlock_blocked_until_ms: None,
                })
            }),
            utf8_len(new_password@) >= 8 && !is_enabled_in(old(self)@) ==> r is Err,
            r matches Err(e) ==> match e {
                PakerError::InvalidInput(m) => utf8_len(new_password@) < 8 && m@
                    == "master key must be at least 8 characters"@,
                PakerError::VaultAuthFailed => utf8_len(new_password@) >= 8 && !is_enabled_in(
                    old(self)@,
                ),
                PakerError::Internal => utf8_len(new_password@) >= 8 && old(self)@.meta is Some
                    && meta_may_fail(new_password@),
                _ => false,
            },
            utf8_len(new_password@) > 0xFFFF_FFFF ==> r is Err,
    {
        match validate_master_password(new_password) {
            Err(e) => {
                return Err(PakerError::InvalidInput(e));
            },
            Ok(()) => {},
        }
        let meta = match &self.meta {
            Some(m) => copy_meta(m),
            None => {
                return Err(PakerError::VaultAuthFailed);
            },
        };
        let fresh = match meta_for(&vault_key, new_password, meta.auto_lock_minutes, meta.lock_on_blur) {
            Ok(m) => m,
            Err(_) => {
                return Err(PakerError::Internal);
            },
        };
        if !meta.enabled {
            return Err(PakerError::VaultAuthFailed);
        }
        let updated = VaultMeta {
            version: meta.version,
            enabled: meta.enabled,
            verifier_salt: fresh.verifier_salt,
            verifier_hash: fresh.verifier_hash,
            wrapped_vault_key: fresh.wrapped_vault_key,
            auto_lock_minutes: meta.auto_lock_minutes,
            lock_on_blur: meta.lock_on_blur,
        };
        let out = copy_meta(&updated);
        self.meta = Some(updated);
        self.vault_key = Some(vault_key);
        self.locked = false;
        self.last_activity_ms = now_ms;
        self.guard.reset();
        Ok(out)
    }

    /// Changes the lock preferences of an enabled vault; gives back the new
    /// metadata, to be saved.
    pub fn set_preferences(&mut self, auto_lock_minutes: u32, lock_on_blur: bool) -> (r: Result<
        VaultMeta,
        PakerError,
    >)
        ensures
            !is_enabled_in(old(self)@) ==> (r matches Err(PakerError::InvalidInput(m)) && m@
                == "Vault is not enabled"@) && final(self)@ == old(self)@,
            is_enabled_in(old(self)@) ==> (r matches Ok(m) && m@ == (MetaView {
                auto_lock_minutes,
                lock_on_blur,
                ..old(self)@.meta->0
            }) && final(self)@ == (VaultState { meta: Some(m@), ..old(self)@ })),
    {
        let meta = match &self.meta {
            Some(m) => {
                if !m.enabled {
                    return Err(PakerError::InvalidInput(string_of(&chars_of("Vault is not enabled"))));
                }
                copy_meta(m)
            },
            None => {
                return Err(PakerError::InvalidInput(string_of(&chars_of("Vault is not enabled"))));
            },
        };
        let updated = VaultMeta { auto_lock_minutes, lock_on_blur, ..meta };
        let out = copy_meta(&updated);
        self.meta = Some(updated);
        Ok(out)
    }
}

/// A vault set up with a master key unlocks with that key, giving back the
/// vault key it was set up with, once no block is in force.
pub proof fn law_setup_then_unlock(s: VaultState, password: Seq<char>, now_ms: u64)
    requires
        s.meta is Some && s.meta->0.enabled && s.key is Some,
        opens_with(s.meta->0, password, s.key->0),
        !(s.unlock_blocked_until_ms matches Some(u) && now_ms < u),
    ensures
        unlock_step(s, password, now_ms) == UnlockStep::Unlocked(s.key->0),
{
}

} // verus!
