use aes_gcm::aead::Aead;
use aes_gcm::KeyInit;
use xz_pass::cipher::{decrypt_password, encrypt_password, seal_password};

fn key(b: u8) -> Vec<u8> {
    vec![b; 32]
}

#[test]
fn seal_empty_password_gives_known_gcm_tag() {
    // AES-256-GCM, zero key, zero nonce, empty plaintext: tag 530f8afb...
    let sealed = seal_password("", &[0u8; 32], &[0u8; 12]).unwrap();
    assert_eq!(sealed, format!("{}{}", "00".repeat(12), "530f8afbc74536b9a963b4f1c4cb738b"));
}

#[test]
fn seal_zero_block_gives_known_ciphertext() {
    // AES-256-GCM, zero key, zero nonce, 16 zero bytes.
    let pt = "\0".repeat(16);
    let sealed = seal_password(&pt, &[0u8; 32], &[0u8; 12]).unwrap();
    assert_eq!(
        sealed,
        format!(
            "{}{}{}",
            "00".repeat(12),
            "cea7403d4d606b6e074ec5d3baf39d18",
            "d0d1c8a799996bf0265b98b5d48ab919"
        )
    );
}

#[test]
fn seal_uses_only_first_32_key_bytes() {
    let mut long_key = vec![0u8; 32];
    long_key.extend_from_slice(&[9u8; 8]);
    let a = seal_password("pw", &long_key, &[3u8; 12]).unwrap();
    let b = seal_password("pw", &[0u8; 32], &[3u8; 12]).unwrap();
    assert_eq!(a, b);
}

#[test]
fn encrypt_then_decrypt_gives_password_back() {
    for pw in ["", "hunter2", "mật khẩu 🔑", "a very long password that spans more than one block"] {
        let enc = encrypt_password(pw, &key(7)).unwrap();
        assert_eq!(enc.len(), 2 * (12 + pw.len() + 16));
        assert!(enc.chars().all(|c| c.is_ascii_hexdigit() && !c.is_ascii_uppercase()));
        assert_eq!(decrypt_password(&enc, &key(7)), Ok(pw.to_string()));
    }
}

#[test]
fn encrypt_uses_fresh_nonces() {
    let a = encrypt_password("same", &key(1)).unwrap();
    let b = encrypt_password("same", &key(1)).unwrap();
    assert_ne!(a, b);
}

#[test]
fn short_key_is_refused() {
    assert_eq!(encrypt_password("x", &[1u8; 31]), Err("Khóa mã hóa không hợp lệ".to_string()));
    assert_eq!(decrypt_password("00", &[1u8; 31]), Err("Khóa mã hóa không hợp lệ".to_string()));
}

#[test]
fn decrypt_rejects_bad_hex() {
    let expected = Err("Dữ liệu mã hóa không hợp lệ".to_string());
    assert_eq!(decrypt_password("abc", &key(1)), expected);
    assert_eq!(decrypt_password("zz00", &key(1)), expected);
}

#[test]
fn decrypt_rejects_short_data() {
    assert_eq!(decrypt_password("0011", &key(1)), Err("Dữ liệu mã hóa bị hỏng".to_string()));
}

#[test]
fn decrypt_accepts_upper_case_hex() {
    let enc = encrypt_password("abc", &key(4)).unwrap();
    assert_eq!(decrypt_password(&enc.to_uppercase(), &key(4)), Ok("abc".to_string()));
}

#[test]
fn decrypt_fails_with_wrong_key_or_tampering() {
    let enc = encrypt_password("secret", &key(2)).unwrap();
    assert_eq!(decrypt_password(&enc, &key(3)), Err("Giải mã thất bại".to_string()));
    let mut tampered: Vec<char> = enc.chars().collect();
    let last = tampered.len() - 1;
    tampered[last] = if tampered[last] == '0' { '1' } else { '0' };
    let tampered: String = tampered.into_iter().collect();
    assert_eq!(decrypt_password(&tampered, &key(2)), Err("Giải mã thất bại".to_string()));
    // nonce only, no tag
    assert_eq!(decrypt_password(&"00".repeat(12), &key(2)), Err("Giải mã thất bại".to_string()));
}

#[test]
fn decrypt_rejects_invalid_utf8_plaintext() {
    let k = [5u8; 32];
    let nonce = [6u8; 12];
    let cipher = aes_gcm::Aes256Gcm::new(aes_gcm::Key::<aes_gcm::Aes256Gcm>::from_slice(&k));
    let ct = cipher.encrypt(aes_gcm::Nonce::from_slice(&nonce), &[0xffu8, 0xfe][..]).unwrap();
    let mut data = nonce.to_vec();
    data.extend_from_slice(&ct);
    assert_eq!(decrypt_password(&hex::encode(data), &k), Err("Giải mã thất bại".to_string()));
}

#[test]
fn sealed_text_length() {
    assert_eq!(encrypt_password("", &key(0)).unwrap().len(), 56);
    assert_eq!(encrypt_password("ă", &key(0)).unwrap().len(), 2 * (12 + 2 + 16));
}
