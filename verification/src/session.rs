//! The vault's session: first setup, unlocking with lock-out after repeated
//! failures, the unlocked screen's operations, and session expiry.
//!
//! The screens themselves are drawn by the caller; each button or timer event
//! is one method here. A method that changes the stored data says so in its
//! result, and the caller then writes the vault file.
use vstd::prelude::*;
use vstd::utf8::*;
use crate::cipher::{decrypt_password, encrypt_password, spec_decrypt, msg_encrypt_failed, GCM_MAX_PLAINTEXT};
use crate::kdf::{
    argon2_phc_verify, create_hash_with, derive_key_with, get_argon2_strong, password_len_ok,
    salt_len_ok, spec_derive_key, strong_config, verify_with, Argon2Config, KEY_LEN,
    phc_p_fits, phc_params_usable,
    ARGON2_MAX_LEN, ARGON2_MIN_SALT_LEN,
};
use crate::clock::get_current_time;
use crate::text::{append_decimal, decimal};
use crate::vault_file::{duplicate_entries, lemma_created_hash_savable, savable_hash, Entry, VaultData};
use vstd::arithmetic::power::{lemma_pow0, lemma_pow1, lemma_pow_adds, pow};
use vstd::arithmetic::power2::{lemma_pow2, lemma_pow2_unfold, pow2};
use zeroize::Zeroize;

verus! {

/// Seconds of inactivity after which an unlocked vault locks again.
pub const SESSION_TIMEOUT_SECS: u64 = 600;

/// Seconds after which a pasted password is cleared from the clipboard.
pub const CLIPBOARD_CLEAR_SECS: u64 = 60;

/// Failed unlock attempts that trigger a lock-out.
pub const MAX_FAILED_ATTEMPTS: u32 = 5;

/// Shortest accepted master password, in bytes.
pub const MIN_MASTER_LEN: usize = 6;

/// `Zeroize::zeroize` on a `String`: claims it is left empty (its bytes are
/// overwritten with zeros first).
#[verifier::external_body]
pub(crate) fn wipe_text(s: &mut String)
    ensures
        final(s)@ == Seq::<char>::empty(),
{
    s.zeroize();
}

/// `Zeroize::zeroize` on a key: claims it is left empty (its bytes are
/// overwritten with zeros first).
#[verifier::external_body]
pub(crate) fn wipe_key(k: &mut Vec<u8>)
    ensures
        final(k)@ == Seq::<u8>::empty(),
{
    k.zeroize();
}

/// Which screen the vault shows.
#[derive(PartialEq, Eq, Structural, Debug, Clone, Copy)]
pub enum Screen {
    Setup,
    Unlock,
    Main,
}

/// What became of an unlock attempt.
#[derive(PartialEq, Eq, Structural, Debug, Clone, Copy)]
pub enum UnlockOutcome {
    /// The password matched and the vault is open.
    Unlocked,
    /// The password did not match; the failure was recorded at the time
    /// (seconds) read after the check.
    Refused(u64),
    /// The password matched but Argon2 refuses the salt or password as key input.
    KeyInputRefused,
    /// The password did not match and, at the time (seconds) read after the
    /// check, the lock-out end would not fit in `u64`; nothing was recorded.
    LockOverflow(u64),
    /// The master hash sets a `p` that Argon2 cannot multiply by 8 in `u32`.
    HashUnusable,
    /// A lock-out is running; the password was not checked.
    LockedOut,
}

/// What became of a master-password change.
#[derive(PartialEq, Eq, Structural, Debug, Clone, Copy)]
pub enum ChangeOutcome {
    /// The entries were re-sealed and the master hash replaced.
    Changed,
    /// The new password and its confirmation differ.
    Mismatch,
    /// No key is held.
    Locked,
    /// An entry did not open or could not be sealed again.
    EntryFailed,
    /// The new master hash could not be made.
    HashFailed,
}

/// The state behind the vault's window.
pub struct VaultApp {
    /// Master password typed on the unlock screen.
    pub input: String,
    /// Status line shown under the current screen.
    pub message: String,
    pub unlocked: bool,
    /// The entries shown while unlocked.
    pub entries: Vec<Entry>,
    pub new_platform: String,
    pub new_account: String,
    pub new_password: String,
    pub change_password: String,
    pub confirm_password: String,
    pub data: VaultData,
    /// The key derived from the master password while unlocked.
    pub encryption_key: Option<Vec<u8>>,
    /// Time (seconds) of the last pointer press.
    pub last_activity: u64,
    pub in_setup: bool,
    pub setup_password: String,
    pub setup_confirm: String,
    /// Failed unlock attempts since the last lock-out or success.
    pub failed_attempts: u32,
    /// Time (seconds) until which unlocking is refused.
    pub lock_until: u64,
    /// Length in minutes of the last lock-out (5 before any).
    pub current_lock_minutes: u64,
    pub clipboard_clear_time: Option<u64>,
    /// The Argon2id settings of the master hash and the key (the strong ones).
    pub kdf: Argon2Config,
}

/// "❌ " followed by an error text.
pub open spec fn failure_message(e: Seq<char>) -> Seq<char> {
    "❌ "@ + e
}

/// The notice shown while unlocking is refused, for `remain` seconds left.
pub open spec fn lockout_notice_spec(remain: nat) -> Seq<char> {
    "⛔ Đang bị khóa. Chờ "@ + decimal(remain / 60) + " phút "@ + decimal(remain % 60) + " giây"@
}

/// The message after a failed attempt that does not lock.
pub open spec fn wrong_password_message(failed: nat) -> Seq<char> {
    "❌ Sai mật khẩu ("@ + decimal(failed) + "/5)"@
}

/// The message when a lock-out of `minutes` begins.
pub open spec fn locked_message(minutes: nat) -> Seq<char> {
    "⛔ Sai 5 lần. Khóa "@ + decimal(minutes) + " phút"@
}

/// The error that stops re-sealing `entries` (opened with `key`, sealed again
/// with a fresh key): the first entry that does not open, or whose password is
/// too long to seal. `None` when all of them go through.
pub open spec fn reencrypt_error(entries: Seq<Entry>, key: Seq<u8>) -> Option<Seq<char>>
    decreases entries.len(),
{
    if entries.len() == 0 {
        None
    } else {
        match spec_decrypt(entries[0].encrypted_password@, key) {
            Err(e) => Some(e),
            Ok(p) => if encode_utf8(p).len() > GCM_MAX_PLAINTEXT {
                Some(msg_encrypt_failed())
            } else {
                reencrypt_error(entries.drop_first(), key)
            },
        }
    }
}

/// The entry opens under `key` to a password short enough to seal again.
pub open spec fn opens_sealable(e: Entry, key: Seq<u8>) -> bool {
    match spec_decrypt(e.encrypted_password@, key) {
        Ok(p) => encode_utf8(p).len() <= GCM_MAX_PLAINTEXT,
        Err(_) => false,
    }
}

/// Re-sealing goes past every entry that opens to a password short enough to
/// seal again: when the first `j` entries do, and `j` is the end, nothing stops
/// it; when entry `j` does not open, its error is the one that stops it.
pub proof fn lemma_reencrypt_error_first(entries: Seq<Entry>, key: Seq<u8>, j: int)
    requires
        0 <= j <= entries.len(),
        forall|k: int| 0 <= k < j ==> opens_sealable(#[trigger] entries[k], key),
    ensures
        j == entries.len() ==> reencrypt_error(entries, key) is None,
        j < entries.len() ==> (spec_decrypt(entries[j].encrypted_password@, key) matches Err(e)
            ==> reencrypt_error(entries, key) == Some(e)),
    decreases j,
{
    if j > 0 {
        let rest = entries.drop_first();
        assert forall|k: int| 0 <= k < j - 1 implies opens_sealable(#[trigger] rest[k], key) by {
            assert(rest[k] == entries[k + 1]);
        }
        assert(opens_sealable(entries[0], key));
        lemma_reencrypt_error_first(rest, key, j - 1);
        if j < entries.len() {
            assert(rest[j - 1] == entries[j]);
        }
    }
}

/// The notice shown on the unlock screen while a lock-out has `remain` seconds left.
pub fn lockout_notice(remain: u64) -> (notice: String)
    ensures
        notice@ == lockout_notice_spec(remain as nat),
{
    let mut notice = String::from_str("⛔ Đang bị khóa. Chờ ");
    append_decimal(&mut notice, remain / 60);
    notice.append(" phút ");
    append_decimal(&mut notice, remain % 60);
    notice.append(" giây");
    notice
}

/// The length in minutes of the `k`-th lock-out of a run with no successful
/// unlock in between, starting from the base 5 (`k == 0`): 25, 625, 390625, ...
pub open spec fn lockout_minutes(k: nat) -> nat
    decreases k,
{
    if k == 0 {
        5
    } else {
        lockout_minutes((k - 1) as nat) * lockout_minutes((k - 1) as nat)
    }
}

/// The `k`-th lock-out lasts 5^(2^k) minutes, longer than the one before.
pub proof fn lemma_lockout_minutes(k: nat)
    ensures
        lockout_minutes(k) == pow(5, pow2(k)),
        5 <= lockout_minutes(k) < lockout_minutes(k + 1),
    decreases k,
{
    if k == 0 {
        lemma_pow1(5);
        lemma_pow2(0);
        lemma_pow0(2);
    } else {
        lemma_lockout_minutes((k - 1) as nat);
        let p = pow2((k - 1) as nat);
        lemma_pow2_unfold(k);
        lemma_pow_adds(5, p, p);
        assert(pow2(k) == p + p);
    }
    let m = lockout_minutes(k);
    assert(m < m * m) by (nonlinear_arith)
        requires m >= 5;
    assert(lockout_minutes(k + 1) == m * m);
}

/// The lock-out lengths of a run: 25, 625, 390625 and 152587890625 minutes;
/// the next one no longer fits in `u64`.
pub proof fn lemma_lockout_values()
    ensures
        lockout_minutes(1) == 25,
        lockout_minutes(2) == 625,
        lockout_minutes(3) == 390625,
        lockout_minutes(4) == 152587890625,
        lockout_minutes(5) > u64::MAX,
{
    assert(lockout_minutes(0) == 5);
    assert(lockout_minutes(1) == lockout_minutes(0) * lockout_minutes(0));
    assert(lockout_minutes(2) == lockout_minutes(1) * lockout_minutes(1));
    assert(lockout_minutes(3) == lockout_minutes(2) * lockout_minutes(2));
    assert(lockout_minutes(4) == lockout_minutes(3) * lockout_minutes(3));
    assert(lockout_minutes(5) == lockout_minutes(4) * lockout_minutes(4));
    assert(5 * 5 == 25) by (nonlinear_arith);
    assert(25 * 25 == 625) by (nonlinear_arith);
    assert(625 * 625 == 390625) by (nonlinear_arith);
    assert(390625 * 390625 == 152587890625) by (nonlinear_arith);
    assert(152587890625 * 152587890625 == 23283064365386962890625int) by (nonlinear_arith);
}

impl VaultApp {
    /// Within a run of failures, a 5th failure in a row makes the lock-out
    /// the next one of the run (`lockout_minutes(k + 1)` minutes from `now`);
    /// an earlier failure keeps the run where it is.
    pub proof fn lemma_failure_escalates(old: VaultApp, new: VaultApp, now: u64, k: nat)
        requires
            Self::failure_recorded(old, new, now),
            old.current_lock_minutes == lockout_minutes(k),
        ensures
            old.failed_attempts + 1 >= MAX_FAILED_ATTEMPTS ==> new.current_lock_minutes
                == lockout_minutes(k + 1) && new.lock_until == now + lockout_minutes(k + 1) * 60,
            old.failed_attempts + 1 < MAX_FAILED_ATTEMPTS ==> new.current_lock_minutes
                == lockout_minutes(k),
    {
        assert(lockout_minutes(k + 1) == lockout_minutes(k) * lockout_minutes(k));
    }
}

impl VaultApp {
    /// The state is consistent: unlocked exactly when a 32-byte key is held,
    /// the shown entries are the stored ones while unlocked and none otherwise,
    /// the vault salt is usable while unlocked, and fewer than 5 failures are pending.
    pub open spec fn wf(&self) -> bool {
        &&& self.unlocked <==> self.encryption_key is Some
        &&& self.encryption_key matches Some(k) ==> k@.len() == KEY_LEN
        &&& self.unlocked ==> self.entries@ == self.data.entries@
        &&& self.unlocked ==> salt_len_ok(self.data.salt@)
        &&& !self.unlocked ==> self.entries@.len() == 0
        &&& self.failed_attempts < MAX_FAILED_ATTEMPTS
        &&& self.in_setup ==> !self.unlocked
        &&& self.kdf.accepted()
    }

    /// The key held while unlocked.
    pub open spec fn key(&self) -> Seq<u8> {
        self.encryption_key->Some_0@
    }

    /// The state the window starts in for loaded `data` at time `now`:
    /// locked, in setup exactly when `data.first_setup`, no failures, 5-minute first lock-out.
    pub fn with_data(data: VaultData, now: u64) -> (res: VaultApp)
        ensures
            res.wf(),
            res.data == data,
            res.in_setup == data.first_setup,
            !res.unlocked,
            res.encryption_key is None,
            res.entries@.len() == 0,
            res.input@.len() == 0,
            res.message@.len() == 0,
            res.new_platform@.len() == 0,
            res.new_account@.len() == 0,
            res.new_password@.len() == 0,
            res.change_password@.len() == 0,
            res.confirm_password@.len() == 0,
            res.setup_password@.len() == 0,
            res.setup_confirm@.len() == 0,
            res.last_activity == now,
            res.failed_attempts == 0,
            res.lock_until == 0,
            res.current_lock_minutes == 5,
            res.clipboard_clear_time is None,
            res.kdf == strong_config(),
    {
        let in_setup = data.first_setup;
        VaultApp {
            input: String::new(),
            message: String::new(),
            unlocked: false,
            entries: Vec::new(),
            new_platform: String::new(),
            new_account: String::new(),
            new_password: String::new(),
            change_password: String::new(),
            confirm_password: String::new(),
            data,
            encryption_key: None,
            last_activity: now,
            in_setup,
            setup_password: String::new(),
            setup_confirm: String::new(),
            failed_attempts: 0,
            lock_until: 0,
            current_lock_minutes: 5,
            clipboard_clear_time: None,
            kdf: get_argon2_strong(),
        }
    }

    /// The screen to draw: setup first, then unlock while locked, else the list.
    pub fn screen(&self) -> (res: Screen)
        ensures
            res == (if self.in_setup {
                Screen::Setup
            } else if !self.unlocked {
                Screen::Unlock
            } else {
                Screen::Main
            }),
    {
        if self.in_setup {
            Screen::Setup
        } else if !self.unlocked {
            Screen::Unlock
        } else {
            Screen::Main
        }
    }

    /// Forgets the key (wiping it) and the shown entries.
    fn lock(&mut self)
        requires
            old(self).wf(),
        ensures
            final(self).wf(),
            !final(self).unlocked,
            final(self).encryption_key is None,
            final(self).entries@.len() == 0,
            *final(self) == (VaultApp {
                unlocked: false,
                encryption_key: None,
                entries: final(self).entries,
                ..*old(self)
            }),
    {
        self.unlocked = false;
        if let Some(mut key) = self.encryption_key.take() {
            wipe_key(&mut key);
        }
        self.entries = Vec::new();
    }

    /// Locks an unlocked vault whose last activity is more than 600 s before
    /// `now`, with the message "⏱️ Session hết hạn"; otherwise changes nothing.
    pub fn expire_session(&mut self, now: u64)
        requires
            old(self).wf(),
            old(self).unlocked ==> now >= old(self).last_activity,
        ensures
            final(self).wf(),
            ({
                let expired = old(self).unlocked && now - old(self).last_activity
                    > SESSION_TIMEOUT_SECS;
                &&& expired ==> !final(self).unlocked && final(self).encryption_key is None
                    && final(self).entries@.len() == 0 && final(self).message@
                    == "⏱️ Session hết hạn"@ && *final(self) == (VaultApp {
                    unlocked: false,
                    encryption_key: None,
                    entries: final(self).entries,
                    message: final(self).message,
                    ..*old(self)
                })
                &&& !expired ==> *final(self) == *old(self)
            }),
    {
        if self.unlocked {
            if now - self.last_activity > SESSION_TIMEOUT_SECS {
                self.lock();
                self.message = String::from_str("⏱️ Session hết hạn");
            }
        }
    }

    /// Records a pointer press at `now`.
    pub fn record_activity(&mut self, now: u64)
        requires
            old(self).wf(),
        ensures
            final(self).wf(),
            *final(self) == (VaultApp { last_activity: now, ..*old(self) }),
    {
        self.last_activity = now;
    }

    /// Logs out: locks and wipes the key, keeping the message.
    pub fn logout(&mut self)
        requires
            old(self).wf(),
        ensures
            final(self).wf(),
            !final(self).unlocked,
            final(self).encryption_key is None,
            final(self).entries@.len() == 0,
            *final(self) == (VaultApp {
                unlocked: false,
                encryption_key: None,
                entries: final(self).entries,
                ..*old(self)
            }),
    {
        self.lock();
    }

    /// "Create vault" on the setup screen. A master password shorter than 6
    /// bytes or different from its confirmation is refused with a message.
    /// Otherwise its hash becomes the master hash, setup is marked done in the
    /// data, and both password fields are wiped; the result says whether the
    /// hash was made (the data must then be written, see `finish_setup`).
    pub fn submit_setup(&mut self) -> (created: bool)
        requires
            old(self).wf(),
        ensures
            final(self).wf(),
            ({
                let pw = old(self).setup_password@;
                let too_short = encode_utf8(pw).len() < MIN_MASTER_LEN;
                let mismatch = pw != old(self).setup_confirm@;
                &&& too_short ==> !created && final(self).message@ == "❌ Mật khẩu tối thiểu 6 ký tự"@
                    && *final(self) == (VaultApp { message: final(self).message, ..*old(self) })
                &&& !too_short && mismatch ==> !created && final(self).message@
                    == "❌ Mật khẩu không khớp"@ && *final(self) == (VaultApp {
                    message: final(self).message,
                    ..*old(self)
                })
                &&& !too_short && !mismatch ==> {
                    &&& created <==> password_len_ok(pw)
                    &&& final(self).setup_password@.len() == 0
                    &&& final(self).setup_confirm@.len() == 0
                    &&& created ==> argon2_phc_verify(
                        final(self).data.master_hash_93@,
                        encode_utf8(pw),
                    ) && savable_hash(final(self).data.master_hash_93@) && final(self).data == (VaultData {
                        master_hash_93: final(self).data.master_hash_93,
                        first_setup: false,
                        ..old(self).data
                    }) && *final(self) == (VaultApp {
                        data: final(self).data,
                        setup_password: final(self).setup_password,
                        setup_confirm: final(self).setup_confirm,
                        ..*old(self)
                    })
                    &&& !created ==> final(self).message@ == failure_message("Lỗi tạo hash"@)
                        && *final(self) == (VaultApp {
                        message: final(self).message,
                        setup_password: final(self).setup_password,
                        setup_confirm: final(self).setup_confirm,
                        ..*old(self)
                    })
                }
            }),
    {
        if self.setup_password.as_str().as_bytes().len() < MIN_MASTER_LEN {
            self.message = String::from_str("❌ Mật khẩu tối thiểu 6 ký tự");
            return false;
        }
        if self.setup_password != self.setup_confirm {
            self.message = String::from_str("❌ Mật khẩu không khớp");
            return false;
        }
        let created = match create_hash_with(&self.kdf, self.setup_password.as_str()) {
            Ok(hash) => {
                proof {
                    lemma_created_hash_savable(self.kdf, hash@);
                }
                self.data.master_hash_93 = hash;
                self.data.first_setup = false;
                true
            },
            Err(e) => {
                let mut m = String::from_str("❌ ");
                m.append(e.as_str());
                self.message = m;
                false
            },
        };
        wipe_text(&mut self.setup_password);
        wipe_text(&mut self.setup_confirm);
        created
    }

    /// Takes the outcome of writing the vault after `submit_setup` made the
    /// master hash: on success setup ends with "✅ Đã tạo vault"; on failure the
    /// error is shown and setup stays open.
    pub fn finish_setup(&mut self, saved: Result<(), String>)
        requires
            old(self).wf(),
        ensures
            final(self).wf(),
            saved is Ok ==> final(self).message@ == "✅ Đã tạo vault"@ && *final(self) == (
            VaultApp { message: final(self).message, in_setup: false, ..*old(self) }),
            saved matches Err(e) ==> final(self).message@ == failure_message(e@) && *final(self)
                == (VaultApp { message: final(self).message, ..*old(self) }),
    {
        match saved {
            Ok(()) => {
                self.message = String::from_str("✅ Đã tạo vault");
                self.in_setup = false;
            },
            Err(e) => {
                let mut m = String::from_str("❌ ");
                m.append(e.as_str());
                self.message = m;
            },
        }
    }

    /// Seconds left of a lock-out at time `now`, if one is running.
    pub fn lock_remaining(&self, now: u64) -> (res: Option<u64>)
        ensures
            now < self.lock_until ==> res == Some((self.lock_until - now) as u64),
            now >= self.lock_until ==> res is None,
    {
        if now < self.lock_until {
            Some(self.lock_until - now)
        } else {
            None
        }
    }

    /// The state after a correct master password: unlocked with the derived
    /// key and the stored entries, "✅ Đã mở khóa", failures and lock-out
    /// length reset, typed password wiped.
    pub fn unlock_with_input(&mut self)
        requires
            old(self).wf(),
            !old(self).in_setup,
            salt_len_ok(old(self).data.salt@),
            password_len_ok(old(self).input@),
        ensures
            final(self).wf(),
            final(self).unlocked,
            final(self).key() == spec_derive_key(old(self).kdf, old(self).input@, old(self).data.salt@),
            final(self).entries@ == old(self).data.entries@,
            final(self).message@ == "✅ Đã mở khóa"@,
            final(self).input@.len() == 0,
            *final(self) == (VaultApp {
                unlocked: true,
                encryption_key: final(self).encryption_key,
                entries: final(self).entries,
                message: final(self).message,
                input: final(self).input,
                failed_attempts: 0,
                current_lock_minutes: 5,
                ..*old(self)
            }),
    {
        let key = derive_key_with(&self.kdf, self.input.as_str(), self.data.salt.as_str());
        if let Some(mut old_key) = self.encryption_key.take() {
            wipe_key(&mut old_key);
        }
        self.encryption_key = Some(key);
        self.unlocked = true;
        self.entries = duplicate_entries(&self.data.entries);
        self.message = String::from_str("✅ Đã mở khóa");
        self.failed_attempts = 0;
        self.current_lock_minutes = 5;
        wipe_text(&mut self.input);
    }

    /// Whether recording a failure at `now` stays within `u64` arithmetic.
    pub open spec fn failure_fits(&self, now: u64) -> bool {
        self.failed_attempts + 1 >= MAX_FAILED_ATTEMPTS ==> now + self.current_lock_minutes
            * self.current_lock_minutes * 60 <= u64::MAX
    }

    /// `new` is `old` after a wrong master password at time `now`: the 5th
    /// failure in a row starts a lock-out whose length in minutes is the square
    /// of the previous one; earlier failures are counted. The typed password is wiped.
    pub open spec fn failure_recorded(old: VaultApp, new: VaultApp, now: u64) -> bool {
        let failed = old.failed_attempts + 1;
        &&& if failed >= MAX_FAILED_ATTEMPTS {
            let minutes = old.current_lock_minutes * old.current_lock_minutes;
            &&& new.lock_until == now + minutes * 60
            &&& new.failed_attempts == 0
            &&& new.current_lock_minutes == minutes
            &&& new.message@ == locked_message(minutes as nat)
        } else {
            &&& new.failed_attempts == failed
            &&& new.lock_until == old.lock_until
            &&& new.current_lock_minutes == old.current_lock_minutes
            &&& new.message@ == wrong_password_message(failed as nat)
        }
        &&& new.input@.len() == 0
        &&& new == (VaultApp {
            failed_attempts: new.failed_attempts,
            lock_until: new.lock_until,
            current_lock_minutes: new.current_lock_minutes,
            message: new.message,
            input: new.input,
            ..old
        })
    }

    /// Records a wrong master password at time `now`.
    pub fn register_failure(&mut self, now: u64)
        requires
            old(self).wf(),
            old(self).failure_fits(now),
        ensures
            final(self).wf(),
            Self::failure_recorded(*old(self), *final(self), now),
    {
        self.failed_attempts = self.failed_attempts + 1;
        if self.failed_attempts >= MAX_FAILED_ATTEMPTS {
            let minutes = self.current_lock_minutes * self.current_lock_minutes;
            self.lock_until = now + minutes * 60;
            let mut m = String::from_str("⛔ Sai 5 lần. Khóa ");
            append_decimal(&mut m, minutes);
            m.append(" phút");
            self.message = m;
            self.failed_attempts = 0;
            self.current_lock_minutes = minutes;
        } else {
            let mut m = String::from_str("❌ Sai mật khẩu (");
            append_decimal(&mut m, self.failed_attempts as u64);
            m.append("/5)");
            self.message = m;
        }
        wipe_text(&mut self.input);
    }

    /// `new` is `old` after a wrong master password at time `now`, where
    /// `overflow` says whether the lock-out end would leave `u64`: then
    /// nothing changes, otherwise the failure is recorded.
    pub open spec fn failure_at(old: VaultApp, new: VaultApp, now: u64, overflow: bool) -> bool {
        &&& overflow <==> !old.failure_fits(now)
        &&& overflow ==> new == old
        &&& !overflow ==> Self::failure_recorded(old, new, now)
    }

    /// Records a wrong master password at time `now`, unless the lock-out it
    /// would start ends beyond `u64`; the result says whether that was so.
    pub fn record_failure_at(&mut self, now: u64) -> (overflow: bool)
        requires
            old(self).wf(),
        ensures
            final(self).wf(),
            Self::failure_at(*old(self), *final(self), now, overflow),
    {
        if self.failed_attempts + 1 >= MAX_FAILED_ATTEMPTS {
            let m = self.current_lock_minutes;
            if m > 4294967295 {
                proof {
                    assert(m * m * 60 > u64::MAX) by (nonlinear_arith)
                        requires
                            m > 4294967295,
                    ;
                }
                return true;
            }
            assert(m * m <= 18446744065119617025) by (nonlinear_arith)
                requires
                    m <= 4294967295,
            ;
            let minutes = m * m;
            if minutes > 307445734561825860 || now > u64::MAX - minutes * 60 {
                return true;
            }
        }
        self.register_failure(now);
        false
    }

    /// `new` and `res` are what "Unlock" makes of `old`: see `submit_unlock`.
    pub open spec fn unlock_submitted(old: VaultApp, new: VaultApp, res: UnlockOutcome) -> bool {
        &&& (!phc_p_fits(old.data.master_hash_93@) ==> res == UnlockOutcome::HashUnusable
                && new == old)
        &&& (phc_p_fits(old.data.master_hash_93@) ==> ({
                let ok = argon2_phc_verify(
                    old.data.master_hash_93@,
                    encode_utf8(old.input@),
                );
                let key_inputs_ok = salt_len_ok(old.data.salt@) && password_len_ok(
                    old.input@,
                );
                &&& ok && key_inputs_ok ==> res == UnlockOutcome::Unlocked && new.unlocked
                    && new.key() == spec_derive_key(old.kdf, old.input@, old.data.salt@)
                    && new.entries@ == old.data.entries@ && new.message@
                    == "✅ Đã mở khóa"@ && new.input@.len() == 0 && new == (
                VaultApp {
                    unlocked: true,
                    encryption_key: new.encryption_key,
                    entries: new.entries,
                    message: new.message,
                    input: new.input,
                    failed_attempts: 0,
                    current_lock_minutes: 5,
                    ..old
                })
                &&& ok && !key_inputs_ok ==> res == UnlockOutcome::KeyInputRefused && new
                    == old
                &&& !ok ==> (res is Refused || res is LockOverflow)
                &&& res matches UnlockOutcome::Refused(now) ==> !ok && Self::failure_at(
                    old,
                    new,
                    now,
                    false,
                )
                &&& res matches UnlockOutcome::LockOverflow(now) ==> !ok && Self::failure_at(
                    old,
                    new,
                    now,
                    true,
                )
                &&& res != UnlockOutcome::HashUnusable
                &&& res != UnlockOutcome::LockedOut
            }))
    }

    /// A correct master password that unlocks the vault starts the count of
    /// failures at 0 and the lock-out length at 5 minutes again, whatever they
    /// were: the 5th wrong password after it locks for 25 minutes (1500 s).
    pub proof fn lemma_unlock_resets_lockout(old: VaultApp, new: VaultApp, later: VaultApp, now: u64)
        requires
            Self::unlock_submitted(old, new, UnlockOutcome::Unlocked),
        ensures
            new.unlocked,
            new.failed_attempts == 0,
            new.current_lock_minutes == 5,
            ({
                let run = VaultApp { failed_attempts: 4, ..new };
                Self::failure_recorded(run, later, now) ==> later.lock_until == now + 1500
                    && later.current_lock_minutes == 25 && later.failed_attempts == 0
            }),
    {
        let run = VaultApp { failed_attempts: 4, ..new };
        assert(run.current_lock_minutes == 5);
        assert(run.current_lock_minutes * run.current_lock_minutes == 25);
    }

    /// "Unlock" on the unlock screen: checks the typed password against the
    /// master hash. A match unlocks (`unlock_with_input`); a mismatch is
    /// recorded (`register_failure`) at the time read after the check. Three
    /// cases are refused with nothing changed: a master hash whose `p` setting
    /// Argon2 cannot multiply by 8 in `u32`, a salt or password that Argon2
    /// refuses as key input, and a lock-out end beyond `u64`.
    pub fn submit_unlock(&mut self) -> (res: UnlockOutcome)
        requires
            old(self).wf(),
            !old(self).in_setup,
        ensures
            final(self).wf(),
            Self::unlock_submitted(*old(self), *final(self), res),
            res == UnlockOutcome::Unlocked ==> final(self).unlocked && final(self).failed_attempts
                == 0 && final(self).current_lock_minutes == 5 && argon2_phc_verify(
                old(self).data.master_hash_93@,
                encode_utf8(old(self).input@),
            ),
    {
        if !phc_params_usable(self.data.master_hash_93.as_str()) {
            return UnlockOutcome::HashUnusable;
        }
        if verify_with(&self.kdf, self.data.master_hash_93.as_str(), self.input.as_str()) {
            let salt_len = self.data.salt.as_str().as_bytes().len();
            let input_len = self.input.as_str().as_bytes().len();
            if salt_len < ARGON2_MIN_SALT_LEN || salt_len > ARGON2_MAX_LEN || input_len > ARGON2_MAX_LEN {
                return UnlockOutcome::KeyInputRefused;
            }
            self.unlock_with_input();
            UnlockOutcome::Unlocked
        } else {
            let now = get_current_time();
            if self.record_failure_at(now) {
                UnlockOutcome::LockOverflow(now)
            } else {
                UnlockOutcome::Refused(now)
            }
        }
    }

    /// "Unlock" pressed at time `now`: refused with nothing changed while a
    /// lock-out runs (`now < lock_until`), otherwise `submit_unlock`.
    pub fn attempt_unlock(&mut self, now: u64) -> (res: UnlockOutcome)
        requires
            old(self).wf(),
            !old(self).in_setup,
        ensures
            final(self).wf(),
            now < old(self).lock_until <==> res == UnlockOutcome::LockedOut,
            res == UnlockOutcome::LockedOut ==> *final(self) == *old(self),
            now >= old(self).lock_until ==> Self::unlock_submitted(*old(self), *final(self), res),
            res == UnlockOutcome::Unlocked ==> final(self).unlocked && final(self).failed_attempts
                == 0 && final(self).current_lock_minutes == 5,
    {
        if now < self.lock_until {
            return UnlockOutcome::LockedOut;
        }
        self.submit_unlock()
    }

    /// "Add" on the unlocked screen: seals the typed password with the key and
    /// appends the entry to both the shown and the stored list ("✅ Đã thêm"),
    /// clearing the three fields. Without a key nothing happens. The result says
    /// whether an entry was added (the data must then be written).
    pub fn add_entry(&mut self) -> (added: bool)
        requires
            old(self).wf(),
        ensures
            final(self).wf(),
            !old(self).unlocked ==> !added && *final(self) == *old(self),
            old(self).unlocked ==> (added <==> encode_utf8(old(self).new_password@).len()
                <= GCM_MAX_PLAINTEXT),
            added ==> {
                let e = final(self).data.entries@.last();
                &&& final(self).data.entries@ == old(self).data.entries@.push(e)
                &&& final(self).entries@ == old(self).entries@.push(e)
                &&& e.platform == old(self).new_platform
                &&& e.account == old(self).new_account
                &&& spec_decrypt(e.encrypted_password@, old(self).key()) == Ok::<
                    Seq<char>,
                    Seq<char>,
                >(old(self).new_password@)
                &&& final(self).message@ == "✅ Đã thêm"@
                &&& final(self).new_platform@.len() == 0
                &&& final(self).new_account@.len() == 0
                &&& final(self).new_password@.len() == 0
                &&& final(self).data == (VaultData { entries: final(self).data.entries, ..old(self).data })
                &&& *final(self) == (VaultApp {
                    entries: final(self).entries,
                    data: final(self).data,
                    message: final(self).message,
                    new_platform: final(self).new_platform,
                    new_account: final(self).new_account,
                    new_password: final(self).new_password,
                    ..*old(self)
                })
            },
            old(self).unlocked && !added ==> final(self).message@ == failure_message(
                msg_encrypt_failed(),
            ) && *final(self) == (VaultApp { message: final(self).message, ..*old(self) }),
    {
        let encrypted = match &self.encryption_key {
            None => {
                return false;
            },
            Some(key) => encrypt_password(self.new_password.as_str(), key.as_slice()),
        };
        match encrypted {
            Ok(enc) => {
                let entry = Entry {
                    platform: self.new_platform.clone(),
                    account: self.new_account.clone(),
                    encrypted_password: enc,
                };
                self.entries.push(entry.duplicate());
                self.data.entries.push(entry);
                self.message = String::from_str("✅ Đã thêm");
                self.new_platform = String::new();
                self.new_account = String::new();
                wipe_text(&mut self.new_password);
                true
            },
            Err(e) => {
                let mut m = String::from_str("❌ ");
                m.append(e.as_str());
                self.message = m;
                false
            },
        }
    }

    /// "Copy" on entry `i`: the account text to put on the clipboard; shows "✅ Đã copy".
    pub fn account_to_copy(&mut self, i: usize) -> (account: String)
        requires
            old(self).wf(),
            i < old(self).entries@.len(),
        ensures
            final(self).wf(),
            account == old(self).entries@[i as int].account,
            final(self).message@ == "✅ Đã copy"@,
            *final(self) == (VaultApp { message: final(self).message, ..*old(self) }),
    {
        let account = self.entries[i].account.clone();
        self.message = String::from_str("✅ Đã copy");
        account
    }

    /// "Paste" on entry `i`: its password, opened with the key, to be typed
    /// into the focused window ("✅ Đã paste"); nothing when it does not open.
    pub fn password_to_paste(&mut self, i: usize) -> (password: Option<String>)
        requires
            old(self).wf(),
            i < old(self).entries@.len(),
        ensures
            final(self).wf(),
            match spec_decrypt(old(self).entries@[i as int].encrypted_password@, old(self).key()) {
                Ok(p) => password matches Some(s) && s@ == p && final(self).message@
                    == "✅ Đã paste"@ && *final(self) == (VaultApp {
                    message: final(self).message,
                    ..*old(self)
                }),
                Err(_) => password is None && *final(self) == *old(self),
            },
    {
        let opened = match &self.encryption_key {
            Some(key) => decrypt_password(self.entries[i].encrypted_password.as_str(), key.as_slice()),
            None => {
                return None;
            },
        };
        match opened {
            Ok(password) => {
                self.message = String::from_str("✅ Đã paste");
                Some(password)
            },
            Err(_) => None,
        }
    }

    /// "Delete" on entry `i`: removes it from the shown and the stored list
    /// (the data must then be written).
    pub fn remove_entry(&mut self, i: usize)
        requires
            old(self).wf(),
            i < old(self).entries@.len(),
        ensures
            final(self).wf(),
            final(self).entries@ == old(self).entries@.remove(i as int),
            final(self).data.entries@ == old(self).data.entries@.remove(i as int),
            final(self).data == (VaultData { entries: final(self).data.entries, ..old(self).data }),
            *final(self) == (VaultApp {
                entries: final(self).entries,
                data: final(self).data,
                ..*old(self)
            }),
    {
        self.entries.remove(i);
        self.data.entries.remove(i);
    }

    /// "Update password": with matching new password and confirmation and an
    /// open vault, every stored password is opened with the current key and
    /// sealed with the key derived from the new password, the new password's
    /// hash becomes the master hash, the old key is wiped and both fields are
    /// wiped ("✅ Đã cập nhật mật khẩu"). The first entry that fails stops
    /// everything with its error shown. The result says whether the data
    /// changed (it must then be written) or what stopped it.
    pub fn change_master_password(&mut self) -> (res: ChangeOutcome)
        requires
            old(self).wf(),
            old(self).change_password@ == old(self).confirm_password@ && old(self).unlocked
                ==> password_len_ok(old(self).change_password@),
        ensures
            final(self).wf(),
            ({
                let matching = old(self).change_password@ == old(self).confirm_password@;
                let failure = reencrypt_error(old(self).data.entries@, old(self).key());
                &&& !matching ==> res == ChangeOutcome::Mismatch && final(self).message@ == "❌ Mật khẩu không khớp"@
                    && *final(self) == (VaultApp { message: final(self).message, ..*old(self) })
                &&& matching && !old(self).unlocked ==> res == ChangeOutcome::Locked && *final(self) == *old(self)
                &&& matching && old(self).unlocked ==> (failure is None <==> res == ChangeOutcome::Changed)
                &&& matching && old(self).unlocked && failure is Some ==> res == ChangeOutcome::EntryFailed
                &&& matching && old(self).unlocked && failure is Some ==> final(self).message@
                    == failure_message(failure->Some_0) && *final(self) == (VaultApp {
                    message: final(self).message,
                    ..*old(self)
                })
                &&& res == ChangeOutcome::Changed ==> {
                    &&& final(self).key() == spec_derive_key(
                        old(self).kdf,
                        old(self).change_password@,
                        old(self).data.salt@,
                    )
                    &&& argon2_phc_verify(
                        final(self).data.master_hash_93@,
                        encode_utf8(old(self).change_password@),
                    )
                    &&& savable_hash(final(self).data.master_hash_93@)
                    &&& final(self).data.entries@.len() == old(self).data.entries@.len()
                    &&& forall|k: int|
                        0 <= k < old(self).data.entries@.len() ==> {
                            let before = old(self).data.entries@[k];
                            let after = #[trigger] final(self).data.entries@[k];
                            &&& after.platform == before.platform
                            &&& after.account == before.account
                            &&& spec_decrypt(after.encrypted_password@, final(self).key())
                                == spec_decrypt(before.encrypted_password@, old(self).key())
                        }
                    &&& final(self).entries@ == final(self).data.entries@
                    &&& final(self).message@ == "✅ Đã cập nhật mật khẩu"@
                    &&& final(self).change_password@.len() == 0
                    &&& final(self).confirm_password@.len() == 0
                    &&& final(self).data == (VaultData {
                        master_hash_93: final(self).data.master_hash_93,
                        entries: final(self).data.entries,
                        ..old(self).data
                    })
                    &&& *final(self) == (VaultApp {
                        data: final(self).data,
                        entries: final(self).entries,
                        encryption_key: final(self).encryption_key,
                        message: final(self).message,
                        change_password: final(self).change_password,
                        confirm_password: final(self).confirm_password,
                        ..*old(self)
                    })
                }
            }),
    {
        if self.change_password != self.confirm_password {
            self.message = String::from_str("❌ Mật khẩu không khớp");
            return ChangeOutcome::Mismatch;
        }
        if self.encryption_key.is_none() {
            return ChangeOutcome::Locked;
        }
        let new_key = derive_key_with(&self.kdf, self.change_password.as_str(), self.data.salt.as_str());
        let ghost old_entries = self.data.entries@;
        let ghost old_key = self.key();
        let mut new_entries: Vec<Entry> = Vec::new();
        let n = self.data.entries.len();
        let mut i: usize = 0;
        assert(old_entries.skip(0) == old_entries);
        while i < n
            invariant
                self.wf(),
                self.unlocked,
                *self == *old(self),
                self.change_password@ == self.confirm_password@,
                old_entries == self.data.entries@,
                old_key == self.key(),
                n == old_entries.len(),
                new_key@.len() == KEY_LEN,
                new_key@ == spec_derive_key(self.kdf, self.change_password@, self.data.salt@),
                0 <= i <= n,
                new_entries@.len() == i,
                reencrypt_error(old_entries, old_key) == reencrypt_error(old_entries.skip(i as int), old_key),
                forall|k: int|
                    0 <= k < i ==> {
                        let before = old_entries[k];
                        let after = #[trigger] new_entries@[k];
                        &&& after.platform == before.platform
                        &&& after.account == before.account
                        &&& spec_decrypt(after.encrypted_password@, new_key@) == spec_decrypt(
                            before.encrypted_password@,
                            old_key,
                        )
                    },
            decreases n - i,
        {
            let opened = match &self.encryption_key {
                Some(old_key) => decrypt_password(self.data.entries[i].encrypted_password.as_str(), old_key.as_slice()),
                None => {
                    return ChangeOutcome::Locked;
                },
            };
            proof {
                let rest = old_entries.skip(i as int);
                assert(rest[0] == old_entries[i as int]);
                assert(rest.drop_first() == old_entries.skip(i + 1));
            }
            match opened {
                Ok(password) => match encrypt_password(password.as_str(), new_key.as_slice()) {
                    Ok(sealed) => {
                        new_entries.push(
                            Entry {
                                platform: self.data.entries[i].platform.clone(),
                                account: self.data.entries[i].account.clone(),
                                encrypted_password: sealed,
                            },
                        );
                    },
                    Err(e) => {
                        proof {
                            let rest = old_entries.skip(i as int);
                            assert(reencrypt_error(rest, old_key) == Some(e@));
                        }
                        let mut m = String::from_str("❌ ");
                        m.append(e.as_str());
                        self.message = m;
                        return ChangeOutcome::EntryFailed;
                    },
                },
                Err(e) => {
                    proof {
                        let rest = old_entries.skip(i as int);
                        assert(reencrypt_error(rest, old_key) == Some(e@));
                    }
                    let mut m = String::from_str("❌ ");
                    m.append(e.as_str());
                    self.message = m;
                    return ChangeOutcome::EntryFailed;
                },
            }
            i = i + 1;
        }
        match create_hash_with(&self.kdf, self.change_password.as_str()) {
            Ok(new_hash) => {
                proof {
                    lemma_created_hash_savable(self.kdf, new_hash@);
                }
                self.data.master_hash_93 = new_hash;
                self.data.entries = duplicate_entries(&new_entries);
                self.entries = new_entries;
                if let Some(mut old_key_copy) = self.encryption_key.take() {
                    wipe_key(&mut old_key_copy);
                }
                self.encryption_key = Some(new_key);
                self.message = String::from_str("✅ Đã cập nhật mật khẩu");
                wipe_text(&mut self.change_password);
                wipe_text(&mut self.confirm_password);
                ChangeOutcome::Changed
            },
            Err(e) => {
                let mut m = String::from_str("❌ ");
                m.append(e.as_str());
                self.message = m;
                ChangeOutcome::HashFailed
            },
        }
    }
}

} // verus!
