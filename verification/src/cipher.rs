//! AES-256-GCM encryption of the stored passwords. A stored password is the
//! lower-case hex text of `nonce (12 bytes) ++ ciphertext-with-tag`.
use vstd::prelude::*;
use vstd::utf8::*;
use aes_gcm::aead::Aead;
use aes_gcm::KeyInit;
use crate::hexcode::{
    ascii_bytes, hex_decode, hex_decode_spec, hex_encode, hex_encode_spec, is_lower_hex_char, is_lower_hex_text,
    lemma_ascii_utf8, lemma_hex_decode_upper, lemma_hex_encode_ascii, lemma_hex_roundtrip,
    lemma_upper_hex_ascii, upper_hex_text,
};
use crate::text::string_from_utf8;
use crate::random::random_nonce;

verus! {

/// Length of the AES-256 key taken from the front of the vault key.
pub const CIPHER_KEY_LEN: usize = 32;

/// Length of the AES-GCM nonce stored in front of each ciphertext.
pub const NONCE_LEN: usize = 12;

/// Length of the AES-GCM authentication tag.
pub const TAG_LEN: usize = 16;

/// Longest plaintext AES-GCM encrypts (2^36 bytes).
pub const GCM_MAX_PLAINTEXT: u64 = 68719476736;

/// AES-256-GCM encryption (no associated data) of `plaintext` under `key` and `nonce`.
pub uninterp spec fn aes256gcm_seal(key: Seq<u8>, nonce: Seq<u8>, plaintext: Seq<u8>) -> Seq<u8>;

/// AES-256-GCM decryption (no associated data): `None` when the tag does not authenticate.
pub uninterp spec fn aes256gcm_open(key: Seq<u8>, nonce: Seq<u8>, ciphertext: Seq<u8>) -> Option<
    Seq<u8>,
>;

/// The opaque error of `aes_gcm` encryption and decryption.
#[verifier::external_type_specification]
#[verifier::external_body]
pub struct ExAeadError(aes_gcm::Error);

/// `Aes256Gcm::new` then `Aead::encrypt`. Claims: success exactly when the
/// plaintext is at most 2^36 bytes; the result is the plaintext's length plus
/// the 16-byte tag, and decrypting it with the same key and nonce gives the
/// plaintext back.
#[verifier::external_body]
pub(crate) fn aes256gcm_encrypt(key: &[u8], nonce: &[u8], plaintext: &[u8]) -> (res: Result<
    Vec<u8>,
    aes_gcm::Error,
>)
    requires
        key.len() == CIPHER_KEY_LEN,
        nonce.len() == NONCE_LEN,
    ensures
        res is Ok <==> plaintext.len() <= GCM_MAX_PLAINTEXT,
        res matches Ok(c) ==> {
            &&& c@ == aes256gcm_seal(key@, nonce@, plaintext@)
            &&& c@.len() == plaintext.len() + TAG_LEN
            &&& aes256gcm_open(key@, nonce@, c@) == Some(plaintext@)
        },
{
    aes_gcm::Aes256Gcm::new(aes_gcm::Key::<aes_gcm::Aes256Gcm>::from_slice(key))
        .encrypt(aes_gcm::Nonce::from_slice(nonce), plaintext)
}

/// `Aes256Gcm::new` then `Aead::decrypt`. Claims the result is
/// `aes256gcm_open(key, nonce, ciphertext)`, which fails on anything shorter
/// than the tag; an opened plaintext is the ciphertext less its 16-byte tag,
/// and at most 2^36 + 16 bytes (the limit on the ciphertext body).
#[verifier::external_body]
pub(crate) fn aes256gcm_decrypt(key: &[u8], nonce: &[u8], ciphertext: &[u8]) -> (res: Result<
    Vec<u8>,
    aes_gcm::Error,
>)
    requires
        key.len() == CIPHER_KEY_LEN,
        nonce.len() == NONCE_LEN,
    ensures
        res is Ok <==> aes256gcm_open(key@, nonce@, ciphertext@) is Some,
        res matches Ok(p) ==> Some(p@) == aes256gcm_open(key@, nonce@, ciphertext@),
        res matches Ok(p) ==> p@.len() + TAG_LEN == ciphertext@.len() && p@.len()
            <= GCM_MAX_PLAINTEXT + TAG_LEN,
        ciphertext.len() < TAG_LEN ==> res is Err,
{
    aes_gcm::Aes256Gcm::new(aes_gcm::Key::<aes_gcm::Aes256Gcm>::from_slice(key))
        .decrypt(aes_gcm::Nonce::from_slice(nonce), ciphertext)
}

pub open spec fn msg_invalid_key() -> Seq<char> {
    "Khóa mã hóa không hợp lệ"@
}

pub open spec fn msg_encrypt_failed() -> Seq<char> {
    "Lỗi mã hóa mật khẩu"@
}

pub open spec fn msg_bad_data() -> Seq<char> {
    "Dữ liệu mã hóa không hợp lệ"@
}

pub open spec fn msg_broken_data() -> Seq<char> {
    "Dữ liệu mã hóa bị hỏng"@
}

pub open spec fn msg_decrypt_failed() -> Seq<char> {
    "Giải mã thất bại"@
}

/// The text result of a `Result<String, String>`.
pub open spec fn result_view(r: Result<String, String>) -> Result<Seq<char>, Seq<char>> {
    match r {
        Ok(s) => Ok(s@),
        Err(e) => Err(e@),
    }
}

/// The stored form of `password` under `key` with `nonce`: hex of nonce ++ ciphertext.
pub open spec fn spec_sealed(password: Seq<char>, key: Seq<u8>, nonce: Seq<u8>) -> Seq<char> {
    hex_encode_spec(nonce + aes256gcm_seal(key.take(32), nonce, encode_utf8(password)))
}

/// What `decrypt_password` gives for a stored text and a key.
pub open spec fn spec_decrypt(encrypted: Seq<char>, key: Seq<u8>) -> Result<Seq<char>, Seq<char>> {
    if key.len() < 32 {
        Err(msg_invalid_key())
    } else {
        match hex_decode_spec(encode_utf8(encrypted)) {
            None => Err(msg_bad_data()),
            Some(data) => if data.len() < 12 {
                Err(msg_broken_data())
            } else {
                match aes256gcm_open(key.take(32), data.take(12), data.skip(12)) {
                    None => Err(msg_decrypt_failed()),
                    Some(plain) => if valid_utf8(plain) {
                        Ok(decode_utf8(plain))
                    } else {
                        Err(msg_decrypt_failed())
                    },
                }
            },
        }
    }
}

/// The stored text is hex of `nonce ++ c` (a 12-byte nonce), and AES-256-GCM
/// under the first 32 bytes of `key` opens `c` with that nonce to exactly `plain`.
pub open spec fn gcm_stored_opens_to(stored: Seq<char>, key: Seq<u8>, plain: Seq<u8>) -> bool {
    &&& key.len() >= 32
    &&& hex_decode_spec(encode_utf8(stored)) is Some
    &&& hex_decode_spec(encode_utf8(stored))->Some_0.len() >= 12
    &&& aes256gcm_open(
        key.take(32),
        hex_decode_spec(encode_utf8(stored))->Some_0.take(12),
        hex_decode_spec(encode_utf8(stored))->Some_0.skip(12),
    ) == Some(plain)
}

/// What a stored text decrypts to is the AES-256-GCM plaintext itself, read
/// as UTF-8 in the order it comes out: the UTF-8 bytes of the password are
/// exactly the bytes that AES-GCM opens.
pub proof fn lemma_decrypted_is_gcm_plaintext(encrypted: Seq<char>, key: Seq<u8>, password: Seq<char>)
    requires
        spec_decrypt(encrypted, key) == Ok::<Seq<char>, Seq<char>>(password),
    ensures
        key.len() >= 32,
        hex_decode_spec(encode_utf8(encrypted)) matches Some(data) && data.len() >= 12
            && aes256gcm_open(key.take(32), data.take(12), data.skip(12)) == Some(
            encode_utf8(password),
        ),
        gcm_stored_opens_to(encrypted, key, encode_utf8(password)),
{
    let data = hex_decode_spec(encode_utf8(encrypted))->Some_0;
    let plain = aes256gcm_open(key.take(32), data.take(12), data.skip(12))->Some_0;
    decode_utf8_encode_utf8(plain);
}

/// A sealed text decodes to the nonce followed by the AES-256-GCM ciphertext
/// of the password's UTF-8 bytes, as they are, under the first 32 key bytes.
pub proof fn lemma_sealed_is_nonce_and_gcm(password: Seq<char>, key: Seq<u8>, nonce: Seq<u8>)
    ensures
        hex_decode_spec(encode_utf8(spec_sealed(password, key, nonce))) == Some(
            nonce + aes256gcm_seal(key.take(32), nonce, encode_utf8(password)),
        ),
{
    let data = nonce + aes256gcm_seal(key.take(32), nonce, encode_utf8(password));
    lemma_hex_encode_ascii(data);
    lemma_ascii_utf8(hex_encode_spec(data));
    lemma_hex_roundtrip(data);
}

/// Seals `password` with the first 32 bytes of `key` and the given nonce.
/// The result always opens again to `password` under the same key.
pub fn seal_password(password: &str, key: &[u8], nonce: &[u8]) -> (res: Result<String, String>)
    requires
        key.len() >= CIPHER_KEY_LEN,
        nonce.len() == NONCE_LEN,
    ensures
        res is Ok <==> encode_utf8(password@).len() <= GCM_MAX_PLAINTEXT,
        res matches Ok(s) ==> s@ == spec_sealed(password@, key@, nonce@),
        res matches Ok(s) ==> is_lower_hex_text(s@) && s@.len() == 2 * (NONCE_LEN
            + encode_utf8(password@).len() + TAG_LEN),
        res matches Ok(s) ==> spec_decrypt(s@, key@) == Ok::<Seq<char>, Seq<char>>(password@),
        res matches Ok(s) ==> s@ == hex_encode_spec(
            nonce@ + aes256gcm_seal(key@.take(32), nonce@, encode_utf8(password@)),
        ),
        res matches Ok(s) ==> gcm_stored_opens_to(s@, key@, encode_utf8(password@)),
        res matches Err(e) ==> e@ == msg_encrypt_failed(),
{
    let (cipher_key, _) = key.split_at(CIPHER_KEY_LEN);
    let plaintext = password.as_bytes();
    match aes256gcm_encrypt(cipher_key, nonce, plaintext) {
        Ok(ciphertext) => {
            let mut result: Vec<u8> = Vec::new();
            result.extend_from_slice(nonce);
            result.extend_from_slice(ciphertext.as_slice());
            let text = hex_encode(result.as_slice());
            proof {
                let data = nonce@ + ciphertext@;
                assert(result@ == data);
                assert(cipher_key@ == key@.take(32));
                lemma_hex_encode_ascii(data);
                lemma_ascii_utf8(text@);
                lemma_hex_roundtrip(data);
                assert(data.take(12) == nonce@);
                assert(data.skip(12) == ciphertext@);
                encode_utf8_valid_utf8(password@);
                encode_utf8_decode_utf8(password@);
            }
            Ok(text)
        },
        Err(_) => Err(String::from_str("Lỗi mã hóa mật khẩu")),
    }
}

/// Encrypts a password for storage with a fresh random nonce.
/// A key shorter than 32 bytes is refused; otherwise the result opens again to
/// `password` under `key` (see `decrypt_password`).
pub fn encrypt_password(password: &str, key: &[u8]) -> (res: Result<String, String>)
    ensures
        key.len() < CIPHER_KEY_LEN ==> (res matches Err(e) && e@ == msg_invalid_key()),
        key.len() >= CIPHER_KEY_LEN ==> (res is Ok <==> encode_utf8(password@).len()
            <= GCM_MAX_PLAINTEXT),
        key.len() >= CIPHER_KEY_LEN ==> (res matches Err(e) ==> e@ == msg_encrypt_failed()),
        res matches Ok(s) ==> is_lower_hex_text(s@) && s@.len() == 2 * (NONCE_LEN
            + encode_utf8(password@).len() + TAG_LEN),
        res matches Ok(s) ==> exists|nonce: Seq<u8>|
            nonce.len() == NONCE_LEN && s@ == #[trigger] spec_sealed(password@, key@, nonce),
        res matches Ok(s) ==> spec_decrypt(s@, key@) == Ok::<Seq<char>, Seq<char>>(password@),
        res matches Ok(s) ==> gcm_stored_opens_to(s@, key@, encode_utf8(password@)),
{
    if key.len() < CIPHER_KEY_LEN {
        return Err(String::from_str("Khóa mã hóa không hợp lệ"));
    }
    let nonce = random_nonce();
    seal_password(password, key, nonce.as_slice())
}

/// The hex digits of a stored text are read in either case: upper-casing the
/// letters a-f of an ASCII stored text does not change what it decrypts to.
pub proof fn lemma_decrypt_upper_hex(encrypted: Seq<char>, key: Seq<u8>)
    requires
        is_ascii_chars(encrypted),
    ensures
        spec_decrypt(upper_hex_text(encrypted), key) == spec_decrypt(encrypted, key),
{
    lemma_upper_hex_ascii(encrypted);
    lemma_ascii_utf8(encrypted);
    lemma_ascii_utf8(upper_hex_text(encrypted));
    lemma_hex_decode_upper(ascii_bytes(encrypted));
}

/// A stored text as `encrypt_password` writes it (lower-case hex) that opens to
/// `password` opens to it as well with its hex letters in upper case.
pub proof fn lemma_stored_opens_in_upper_case(stored: Seq<char>, key: Seq<u8>, password: Seq<char>)
    requires
        is_lower_hex_text(stored),
        spec_decrypt(stored, key) == Ok::<Seq<char>, Seq<char>>(password),
    ensures
        spec_decrypt(upper_hex_text(stored), key) == Ok::<Seq<char>, Seq<char>>(password),
{
    assert forall|i: int| 0 <= i < stored.len() implies '\0' <= #[trigger] stored[i] <= '\u{7f}' by {
        assert(is_lower_hex_char(stored[i]));
    }
    lemma_decrypt_upper_hex(stored, key);
}

/// Decrypts a stored password: hex text, then nonce and ciphertext, then UTF-8.
pub fn decrypt_password(encrypted: &str, key: &[u8]) -> (res: Result<String, String>)
    ensures
        result_view(res) == spec_decrypt(encrypted@, key@),
        res matches Ok(s) ==> encode_utf8(s@).len() <= GCM_MAX_PLAINTEXT + TAG_LEN,
        res matches Ok(s) ==> gcm_stored_opens_to(encrypted@, key@, encode_utf8(s@)),
{
    if key.len() < CIPHER_KEY_LEN {
        return Err(String::from_str("Khóa mã hóa không hợp lệ"));
    }
    let data = match hex_decode(encrypted) {
        Ok(d) => d,
        Err(_) => {
            return Err(String::from_str("Dữ liệu mã hóa không hợp lệ"));
        },
    };
    if data.len() < NONCE_LEN {
        return Err(String::from_str("Dữ liệu mã hóa bị hỏng"));
    }
    let (nonce_bytes, ciphertext) = data.as_slice().split_at(NONCE_LEN);
    let (cipher_key, _) = key.split_at(CIPHER_KEY_LEN);
    proof {
        assert(cipher_key@ == key@.take(32));
        assert(nonce_bytes@ == data@.take(12));
        assert(ciphertext@ == data@.skip(12));
    }
    match aes256gcm_decrypt(cipher_key, nonce_bytes, ciphertext) {
        Ok(bytes) => match string_from_utf8(bytes) {
            Some(s) => {
                proof {
                    decode_utf8_encode_utf8(bytes@);
                }
                Ok(s)
            },
            None => Err(String::from_str("Giải mã thất bại")),
        },
        Err(_) => Err(String::from_str("Giải mã thất bại")),
    }
}

} // verus!
