use xz_pass::cipher::{decrypt_password, encrypt_password};
use xz_pass::session::{lockout_notice, ChangeOutcome, Screen, UnlockOutcome, VaultApp};
use xz_pass::kdf::Argon2Config;
use xz_pass::vault_file::{Entry, VaultData};

const CHEAP: Argon2Config = Argon2Config { m_cost: 8, t_cost: 1, p_cost: 1 };

fn data(first_setup: bool) -> VaultData {
    VaultData {
        master_hash_93: String::new(),
        salt: "00112233445566778899aabbccddeeff".to_string(),
        entries: Vec::new(),
        first_setup,
    }
}

fn unlocked_app(key: u8, entries: Vec<(&str, &str, &str)>) -> VaultApp {
    let mut app = VaultApp::with_data(data(false), 1000);
    app.kdf = CHEAP;
    let k = vec![key; 32];
    for (p, a, pw) in entries {
        let e = Entry {
            platform: p.to_string(),
            account: a.to_string(),
            encrypted_password: encrypt_password(pw, &k).unwrap(),
        };
        app.data.entries.push(Entry {
            platform: e.platform.clone(),
            account: e.account.clone(),
            encrypted_password: e.encrypted_password.clone(),
        });
        app.entries.push(e);
    }
    app.encryption_key = Some(k);
    app.unlocked = true;
    app
}

#[test]
fn starts_locked_in_the_right_screen() {
    let app = VaultApp::with_data(data(true), 42);
    assert_eq!(app.screen(), Screen::Setup);
    assert!(!app.unlocked);
    assert!(app.encryption_key.is_none());
    assert_eq!(app.last_activity, 42);
    assert_eq!(app.current_lock_minutes, 5);
    assert_eq!(app.failed_attempts, 0);
    assert_eq!(app.kdf, Argon2Config { m_cost: 262144, t_cost: 4, p_cost: 2 });
    let app = VaultApp::with_data(data(false), 42);
    assert_eq!(app.screen(), Screen::Unlock);
    assert_eq!(unlocked_app(1, vec![]).screen(), Screen::Main);
}

#[test]
fn setup_rejects_short_password() {
    let mut app = VaultApp::with_data(data(true), 0);
    app.setup_password = "12345".to_string();
    app.setup_confirm = "12345".to_string();
    assert!(!app.submit_setup());
    assert_eq!(app.message, "❌ Mật khẩu tối thiểu 6 ký tự");
    assert_eq!(app.setup_password, "12345");
    assert!(app.in_setup);
}

#[test]
fn setup_counts_bytes_not_chars() {
    // three two-byte characters make six bytes, which is enough, but the
    // confirmation differs
    let mut app = VaultApp::with_data(data(true), 0);
    app.setup_password = "ééé".to_string();
    app.setup_confirm = "eee".to_string();
    assert!(!app.submit_setup());
    assert_eq!(app.message, "❌ Mật khẩu không khớp");
}

#[test]
fn setup_creates_master_hash() {
    let mut app = VaultApp::with_data(data(true), 0);
    app.kdf = CHEAP;
    app.setup_password = "secret-1".to_string();
    app.setup_confirm = "secret-1".to_string();
    assert!(app.submit_setup());
    assert!(app.data.master_hash_93.starts_with("$argon2id$v=19$m=8,t=1,p=1$"));
    assert!(xz_pass::kdf::verify(&app.data.master_hash_93, "secret-1"));
    assert!(!app.data.first_setup);
    assert_eq!(app.setup_password, "");
    assert_eq!(app.setup_confirm, "");
    assert!(app.in_setup);
    app.finish_setup(Err("Lỗi lưu file".to_string()));
    assert_eq!(app.message, "❌ Lỗi lưu file");
    assert!(app.in_setup);
    app.finish_setup(Ok(()));
    assert_eq!(app.message, "✅ Đã tạo vault");
    assert_eq!(app.screen(), Screen::Unlock);
}

#[test]
fn lockout_escalates_by_squares() {
    let mut app = VaultApp::with_data(data(false), 0);
    for n in 1..5u32 {
        app.input = "wrong".to_string();
        app.register_failure(100);
        assert_eq!(app.failed_attempts, n);
        assert_eq!(app.message, format!("❌ Sai mật khẩu ({}/5)", n));
        assert_eq!(app.input, "");
        assert_eq!(app.lock_until, 0);
    }
    app.register_failure(100);
    assert_eq!(app.failed_attempts, 0);
    assert_eq!(app.current_lock_minutes, 25);
    assert_eq!(app.lock_until, 100 + 25 * 60);
    assert_eq!(app.message, "⛔ Sai 5 lần. Khóa 25 phút");
    assert_eq!(app.lock_remaining(100), Some(1500));
    assert_eq!(app.lock_remaining(1600), None);
    for _ in 0..5 {
        app.register_failure(2000);
    }
    assert_eq!(app.current_lock_minutes, 625);
    assert_eq!(app.lock_until, 2000 + 625 * 60);
    assert_eq!(app.message, "⛔ Sai 5 lần. Khóa 625 phút");
}

#[test]
fn lockout_notice_text() {
    assert_eq!(lockout_notice(125), "⛔ Đang bị khóa. Chờ 2 phút 5 giây");
    assert_eq!(lockout_notice(0), "⛔ Đang bị khóa. Chờ 0 phút 0 giây");
}

#[test]
fn wrong_password_is_refused_then_right_one_unlocks() {
    let mut app = VaultApp::with_data(data(false), 0);
    app.kdf = CHEAP;
    app.data.master_hash_93 = xz_pass::kdf::create_hash_with(&CHEAP, "open sesame").unwrap();
    app.data.entries.push(Entry {
        platform: "mail".into(),
        account: "me".into(),
        encrypted_password: "00".into(),
    });
    app.input = "open sesami".to_string();
    assert!(matches!(app.submit_unlock(), xz_pass::session::UnlockOutcome::Refused(_)));
    assert_eq!(app.failed_attempts, 1);
    assert!(!app.unlocked);
    app.input = "open sesame".to_string();
    assert_eq!(app.submit_unlock(), xz_pass::session::UnlockOutcome::Unlocked);
    assert!(app.unlocked);
    assert_eq!(app.failed_attempts, 0);
    assert_eq!(app.message, "✅ Đã mở khóa");
    assert_eq!(app.entries.len(), 1);
    assert_eq!(app.input, "");
    assert_eq!(
        app.encryption_key,
        Some(xz_pass::kdf::derive_key_with(&CHEAP, "open sesame", "00112233445566778899aabbccddeeff"))
    );
}

#[test]
fn session_expires_after_ten_minutes() {
    let mut app = unlocked_app(3, vec![("a", "b", "c")]);
    app.last_activity = 1000;
    app.expire_session(1600);
    assert!(app.unlocked);
    app.expire_session(1601);
    assert!(!app.unlocked);
    assert!(app.encryption_key.is_none());
    assert!(app.entries.is_empty());
    assert_eq!(app.data.entries.len(), 1);
    assert_eq!(app.message, "⏱️ Session hết hạn");
}

#[test]
fn activity_postpones_expiry() {
    let mut app = unlocked_app(3, vec![]);
    app.record_activity(1500);
    app.expire_session(2000);
    assert!(app.unlocked);
}

#[test]
fn add_entry_seals_password() {
    let mut app = unlocked_app(9, vec![]);
    app.new_platform = "bank".into();
    app.new_account = "alice".into();
    app.new_password = "p@ss".into();
    assert!(app.add_entry());
    assert_eq!(app.message, "✅ Đã thêm");
    assert_eq!(app.entries.len(), 1);
    assert_eq!(app.data.entries.len(), 1);
    assert_eq!(app.entries[0].platform, "bank");
    assert_eq!(app.data.entries[0].account, "alice");
    assert_eq!(app.entries[0].encrypted_password, app.data.entries[0].encrypted_password);
    assert_eq!(decrypt_password(&app.entries[0].encrypted_password, &[9u8; 32]), Ok("p@ss".into()));
    assert_eq!(app.new_platform, "");
    assert_eq!(app.new_account, "");
    assert_eq!(app.new_password, "");
}

#[test]
fn add_entry_without_key_does_nothing() {
    let mut app = VaultApp::with_data(data(false), 0);
    app.new_platform = "bank".into();
    assert!(!app.add_entry());
    assert!(app.data.entries.is_empty());
    assert_eq!(app.new_platform, "bank");
}

#[test]
fn copy_paste_and_remove() {
    let mut app = unlocked_app(4, vec![("x", "acc-x", "pw-x"), ("y", "acc-y", "pw-y")]);
    assert_eq!(app.account_to_copy(1), "acc-y");
    assert_eq!(app.message, "✅ Đã copy");
    assert_eq!(app.password_to_paste(0), Some("pw-x".to_string()));
    assert_eq!(app.message, "✅ Đã paste");
    app.message.clear();
    app.entries[1].encrypted_password = "zz".into();
    assert_eq!(app.password_to_paste(1), None);
    assert_eq!(app.message, "");
    app.remove_entry(0);
    assert_eq!(app.entries.len(), 1);
    assert_eq!(app.data.entries.len(), 1);
    assert_eq!(app.data.entries[0].platform, "y");
}

#[test]
fn change_password_mismatch() {
    let mut app = unlocked_app(4, vec![]);
    app.change_password = "new-one".into();
    app.confirm_password = "new-two".into();
    assert_eq!(app.change_master_password(), ChangeOutcome::Mismatch);
    assert_eq!(app.message, "❌ Mật khẩu không khớp");
    assert_eq!(app.encryption_key, Some(vec![4u8; 32]));
}

#[test]
fn change_password_stops_on_unreadable_entry() {
    let mut app = unlocked_app(4, vec![("x", "a", "pw")]);
    app.data.entries[0].encrypted_password = "abc".into();
    app.entries[0].encrypted_password = "abc".into();
    app.change_password = "new-one".into();
    app.confirm_password = "new-one".into();
    assert_eq!(app.change_master_password(), ChangeOutcome::EntryFailed);
    assert_eq!(app.message, "❌ Dữ liệu mã hóa không hợp lệ");
    assert_eq!(app.encryption_key, Some(vec![4u8; 32]));
    assert_eq!(app.change_password, "new-one");
}

#[test]
fn change_password_reports_first_failing_entry() {
    let mut app = unlocked_app(4, vec![("x", "a", "pw-1"), ("y", "b", "pw-2"), ("z", "c", "pw-3")]);
    app.data.entries[1].encrypted_password = "00ff".into();
    app.data.entries[2].encrypted_password = "zz".into();
    let before: Vec<String> = app.data.entries.iter().map(|e| e.encrypted_password.clone()).collect();
    app.change_password = "new-one".into();
    app.confirm_password = "new-one".into();
    assert_eq!(app.change_master_password(), ChangeOutcome::EntryFailed);
    assert_eq!(app.message, "❌ Dữ liệu mã hóa bị hỏng");
    let after: Vec<String> = app.data.entries.iter().map(|e| e.encrypted_password.clone()).collect();
    assert_eq!(after, before);
    assert_eq!(app.encryption_key, Some(vec![4u8; 32]));
}

#[test]
fn change_password_reseals_entries() {
    let mut app = unlocked_app(4, vec![("x", "a", "pw-1"), ("y", "b", "pw-2")]);
    app.change_password = "new master".into();
    app.confirm_password = "new master".into();
    assert_eq!(app.change_master_password(), ChangeOutcome::Changed);
    let new_key = app.encryption_key.clone().unwrap();
    assert_eq!(new_key, xz_pass::kdf::derive_key_with(&CHEAP, "new master", &app.data.salt));
    assert_eq!(app.message, "✅ Đã cập nhật mật khẩu");
    assert_eq!(decrypt_password(&app.data.entries[0].encrypted_password, &new_key), Ok("pw-1".into()));
    assert_eq!(decrypt_password(&app.data.entries[1].encrypted_password, &new_key), Ok("pw-2".into()));
    assert_eq!(app.entries[1].platform, "y");
    assert!(xz_pass::kdf::verify(&app.data.master_hash_93, "new master"));
    assert_eq!(app.change_password, "");
    assert_eq!(app.confirm_password, "");
}

#[test]
fn logout_forgets_key() {
    let mut app = unlocked_app(4, vec![("x", "a", "pw")]);
    app.logout();
    assert!(!app.unlocked);
    assert!(app.encryption_key.is_none());
    assert!(app.entries.is_empty());
    assert_eq!(app.data.entries.len(), 1);
}

#[test]
fn matching_password_with_unusable_salt_is_reported() {
    let mut app = VaultApp::with_data(data(false), 0);
    app.kdf = CHEAP;
    app.data.master_hash_93 = xz_pass::kdf::create_hash_with(&CHEAP, "pw-123").unwrap();
    app.data.salt = "short".to_string();
    app.input = "pw-123".to_string();
    assert_eq!(app.submit_unlock(), xz_pass::session::UnlockOutcome::KeyInputRefused);
    assert!(!app.unlocked);
    assert_eq!(app.input, "pw-123");
}

#[test]
fn lockout_beyond_u64_is_reported() {
    let mut app = VaultApp::with_data(data(false), 0);
    app.kdf = CHEAP;
    app.data.master_hash_93 = xz_pass::kdf::create_hash_with(&CHEAP, "pw-123").unwrap();
    app.failed_attempts = 4;
    app.current_lock_minutes = 152_587_890_625;
    app.input = "wrong".to_string();
    assert!(matches!(app.submit_unlock(), xz_pass::session::UnlockOutcome::LockOverflow(_)));
    assert_eq!(app.failed_attempts, 4);
    assert_eq!(app.input, "wrong");
}

#[test]
fn change_password_without_key_does_nothing() {
    let mut app = VaultApp::with_data(data(false), 0);
    app.change_password = "x".into();
    app.confirm_password = "x".into();
    assert_eq!(app.change_master_password(), ChangeOutcome::Locked);
    assert_eq!(app.message, "");
}

#[test]
fn unlock_is_refused_during_lockout() {
    let mut app = VaultApp::with_data(data(false), 0);
    app.kdf = CHEAP;
    app.data.master_hash_93 = xz_pass::kdf::create_hash_with(&CHEAP, "pw-123").unwrap();
    app.lock_until = 500;
    app.input = "pw-123".to_string();
    assert_eq!(app.attempt_unlock(499), UnlockOutcome::LockedOut);
    assert!(!app.unlocked);
    assert_eq!(app.input, "pw-123");
    assert_eq!(app.attempt_unlock(500), UnlockOutcome::Unlocked);
    assert!(app.unlocked);
}

#[test]
fn hash_with_huge_parallelism_is_reported() {
    let mut app = VaultApp::with_data(data(false), 0);
    app.data.master_hash_93 =
        "$argon2id$v=19$m=262144,t=4,p=536870912$c2FsdHNhbHRzYWx0c2FsdA$aGFzaGhhc2hoYXNoaGFzaA".to_string();
    app.input = "anything".to_string();
    assert_eq!(app.submit_unlock(), UnlockOutcome::HashUnusable);
    assert_eq!(app.failed_attempts, 0);
    assert_eq!(app.input, "anything");
}

#[test]
fn lockout_lengths_of_a_run() {
    let mut app = VaultApp::with_data(data(false), 0);
    let mut lengths = Vec::new();
    for _ in 0..4 {
        for _ in 0..5 {
            app.register_failure(0);
        }
        lengths.push(app.current_lock_minutes);
    }
    assert_eq!(lengths, vec![25, 625, 390625, 152587890625]);
}

#[test]
fn fifth_failure_locks_from_the_time_given() {
    let mut app = VaultApp::with_data(data(false), 0);
    app.failed_attempts = 4;
    app.input = "wrong".to_string();
    assert!(!app.record_failure_at(1000));
    assert_eq!(app.lock_until, 1000 + 25 * 60);
    assert_eq!(app.current_lock_minutes, 25);
    assert_eq!(app.failed_attempts, 0);
    assert_eq!(app.message, "⛔ Sai 5 lần. Khóa 25 phút");
    assert_eq!(app.input, "");
    // a lock-out that would end beyond u64 changes nothing
    app.failed_attempts = 4;
    assert!(app.record_failure_at(u64::MAX));
    assert_eq!(app.failed_attempts, 4);
    assert_eq!(app.current_lock_minutes, 25);
}

#[test]
fn wrong_password_on_fifth_try_locks() {
    let mut app = VaultApp::with_data(data(false), 0);
    app.kdf = CHEAP;
    app.data.master_hash_93 = xz_pass::kdf::create_hash_with(&CHEAP, "pw-123").unwrap();
    app.failed_attempts = 4;
    app.input = "nope".to_string();
    match app.submit_unlock() {
        UnlockOutcome::Refused(t) => {
            assert_eq!(app.lock_until, t + 1500);
            assert_eq!(app.current_lock_minutes, 25);
        }
        other => panic!("unexpected {:?}", other),
    }
}
