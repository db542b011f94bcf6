//! Argon2id: the master-password hash (PHC string) and the key that encrypts
//! the stored passwords.
use vstd::prelude::*;
use vstd::utf8::*;
use crate::text::{decimal, digit_char};
use argon2::password_hash::{PasswordHasher, PasswordVerifier};

verus! {

/// The cost settings of an Argon2id (version 0x13) instance.
#[derive(Clone, Copy, Debug, PartialEq, Eq, Structural)]
pub struct Argon2Config {
    /// Memory size in KiB blocks.
    pub m_cost: u32,
    /// Number of passes.
    pub t_cost: u32,
    /// Degree of parallelism.
    pub p_cost: u32,
}

/// Largest password, salt or output length that Argon2 accepts.
pub const ARGON2_MAX_LEN: usize = 0xFFFF_FFFF;

/// Shortest salt that Argon2 accepts.
pub const ARGON2_MIN_SALT_LEN: usize = 8;

/// Length in bytes of the derived encryption key.
pub const KEY_LEN: usize = 32;

impl Argon2Config {
    /// The settings that `argon2::Params::new` accepts (no output length given).
    pub open spec fn accepted(self) -> bool {
        &&& 8 <= self.m_cost
        &&& self.p_cost * 8 <= self.m_cost
        &&& 1 <= self.t_cost
        &&& 1 <= self.p_cost <= 0xFF_FFFF
    }
}

/// The strong settings of the vault: 256 MiB of memory, 4 passes, 2 lanes.
pub open spec fn strong_config() -> Argon2Config {
    Argon2Config { m_cost: 262144, t_cost: 4, p_cost: 2 }
}

/// Characters of the unpadded standard Base64 alphabet, as PHC strings use it.
pub open spec fn is_b64_char(c: char) -> bool {
    ('A' <= c <= 'Z') || ('a' <= c <= 'z') || ('0' <= c <= '9') || c == '+' || c == '/'
}

/// A text made only of Base64 characters.
pub open spec fn is_b64_text(s: Seq<char>) -> bool {
    forall|i: int| 0 <= i < s.len() ==> is_b64_char(#[trigger] s[i])
}

/// The PHC string of an Argon2id version-0x13 hash with the given settings, salt and output.
pub open spec fn phc_text(cfg: Argon2Config, salt: Seq<char>, output: Seq<char>) -> Seq<char> {
    "$argon2id$v=19$m="@ + decimal(cfg.m_cost as nat) + ",t="@ + decimal(cfg.t_cost as nat)
        + ",p="@ + decimal(cfg.p_cost as nat) + seq!['$'] + salt + seq!['$'] + output
}

/// The raw Argon2id (version 0x13) output for the given settings, password, salt and length.
pub uninterp spec fn argon2id_raw(
    m_cost: u32,
    t_cost: u32,
    p_cost: u32,
    password: Seq<u8>,
    salt: Seq<u8>,
    out_len: nat,
) -> Seq<u8>;

/// Whether a password matches a PHC hash string (Argon2 `verify_password` after
/// `PasswordHash::new`; false when the string does not parse).
pub uninterp spec fn argon2_phc_verify(hash: Seq<char>, password: Seq<u8>) -> bool;

/// The error of `argon2` parameters and raw hashing, opaque.
#[verifier::external_type_specification]
#[verifier::external_body]
pub struct ExArgon2Error(argon2::Error);

/// The error of PHC-string hashing, opaque.
#[verifier::external_type_specification]
#[verifier::external_body]
pub struct ExPasswordHashError(argon2::password_hash::Error);

/// `argon2::Params::new` followed by `Argon2::hash_password_into` with Argon2id,
/// version 0x13, into an `out_len`-byte buffer. Claims: success exactly when the
/// settings are accepted, the password is at most 2^32-1 bytes, the salt between
/// 8 and 2^32-1 bytes and the output between 4 and 2^32-1 bytes; the output is
/// then `out_len` bytes, fixed by the settings and inputs.
#[verifier::external_body]
pub(crate) fn argon2id_hash_into(cfg: &Argon2Config, password: &[u8], salt: &[u8], out_len: usize) -> (res:
    Result<Vec<u8>, argon2::Error>)
    requires
        cfg.p_cost <= 0x1FFF_FFFF,
    ensures
        res is Ok <==> (cfg.accepted() && password.len() <= ARGON2_MAX_LEN && ARGON2_MIN_SALT_LEN
            <= salt.len() <= ARGON2_MAX_LEN && 4 <= out_len <= ARGON2_MAX_LEN),
        res matches Ok(out) ==> out@ == argon2id_raw(
            cfg.m_cost,
            cfg.t_cost,
            cfg.p_cost,
            password@,
            salt@,
            out_len as nat,
        ) && out@.len() == out_len,
{
    let params = argon2::Params::new(cfg.m_cost, cfg.t_cost, cfg.p_cost, None)?;
    let mut out = vec![0u8; out_len];
    argon2::Argon2::new(argon2::Algorithm::Argon2id, argon2::Version::V0x13, params)
        .hash_password_into(password, salt, &mut out)?;
    Ok(out)
}

/// `PasswordHasher::hash_password` of Argon2id (version 0x13) with a fresh
/// random salt from `OsRng` (`SaltString::generate`), rendered as a PHC string.
/// Claims: success exactly when the settings are accepted and the password is
/// at most 2^32-1 bytes; the string is then `$argon2id$v=19$m=..,t=..,p=..$salt$hash`
/// with a 22-character salt and a 43-character hash in Base64, and the password
/// verifies against it. Which salt is drawn is left open.
#[verifier::external_body]
pub(crate) fn argon2id_hash_phc(cfg: &Argon2Config, password: &[u8]) -> (res: Result<
    String,
    argon2::password_hash::Error,
>)
    requires
        cfg.p_cost <= 0x1FFF_FFFF,
    ensures
        res is Ok <==> (cfg.accepted() && password.len() <= ARGON2_MAX_LEN),
        res matches Ok(h) ==> argon2_phc_verify(h@, password@) && phc_shaped(*cfg, h@),
{
    let salt = argon2::password_hash::SaltString::generate(&mut argon2::password_hash::rand_core::OsRng);
    let params = argon2::Params::new(cfg.m_cost, cfg.t_cost, cfg.p_cost, None)
        .map_err(argon2::password_hash::Error::from)?;
    argon2::Argon2::new(argon2::Algorithm::Argon2id, argon2::Version::V0x13, params)
        .hash_password(password, &salt).map(|h| h.to_string())
}

/// `PasswordHash::new` on the text, then `PasswordVerifier::verify_password`
/// with an Argon2id context built from `cfg` (the hash's own settings are the
/// ones used). Claims the answer is `argon2_phc_verify(hash, password)`.
/// `argon2::Params::new` computes `p * 8` in `u32` for the hash's `p`
/// setting, which overflows above 0x1FFF_FFFF; such texts are left out.
#[verifier::external_body]
pub(crate) fn argon2_verify_phc(cfg: &Argon2Config, hash: &str, password: &[u8]) -> (res: bool)
    requires
        cfg.accepted(),
        phc_p_fits(hash@),
    ensures
        res == argon2_phc_verify(hash@, password@),
{
    let params = argon2::Params::new(cfg.m_cost, cfg.t_cost, cfg.p_cost, None).unwrap();
    match argon2::password_hash::PasswordHash::new(hash) {
        Ok(parsed) => argon2::Argon2::new(argon2::Algorithm::Argon2id, argon2::Version::V0x13, params)
            .verify_password(password, &parsed).is_ok(),
        Err(_) => false,
    }
}

/// The vault's Argon2id settings (`get_argon2_strong`), which Argon2 accepts.
pub fn get_argon2_strong() -> (res: Argon2Config)
    ensures
        res == strong_config(),
        res.accepted(),
{
    Argon2Config { m_cost: 262144, t_cost: 4, p_cost: 2 }
}

/// The 32-byte key that settings `cfg` derive from a master password and a salt text.
pub open spec fn spec_derive_key(cfg: Argon2Config, master_password: Seq<char>, salt: Seq<char>) -> Seq<u8> {
    argon2id_raw(cfg.m_cost, cfg.t_cost, cfg.p_cost, encode_utf8(master_password), encode_utf8(salt), 32)
}

/// Whether the UTF-8 bytes of a text are an acceptable Argon2 password.
pub open spec fn password_len_ok(password: Seq<char>) -> bool {
    encode_utf8(password).len() <= ARGON2_MAX_LEN
}

/// Whether the UTF-8 bytes of a text are an acceptable Argon2 salt.
pub open spec fn salt_len_ok(salt: Seq<char>) -> bool {
    ARGON2_MIN_SALT_LEN <= encode_utf8(salt).len() <= ARGON2_MAX_LEN
}

/// `h` is a PHC string of settings `cfg` with a 22-character salt and a
/// 43-character hash, both Base64.
pub open spec fn phc_shaped(cfg: Argon2Config, h: Seq<char>) -> bool {
    exists|salt: Seq<char>, output: Seq<char>|
        {
            &&& salt.len() == 22
            &&& output.len() == 43
            &&& is_b64_text(salt)
            &&& is_b64_text(output)
            &&& h == #[trigger] phc_text(cfg, salt, output)
        }
}

/// The key is Argon2id over every UTF-8 byte of the master password and of the
/// salt, into 32 bytes: the password and salt that Argon2 receives are the
/// whole texts, and two different passwords (or salts) are two different
/// Argon2 inputs, whatever prefix they share.
pub proof fn lemma_key_covers_whole_inputs(
    cfg: Argon2Config,
    password: Seq<char>,
    other_password: Seq<char>,
    salt: Seq<char>,
)
    ensures
        spec_derive_key(cfg, password, salt) == argon2id_raw(
            cfg.m_cost,
            cfg.t_cost,
            cfg.p_cost,
            encode_utf8(password),
            encode_utf8(salt),
            32,
        ),
        password != other_password ==> encode_utf8(password) != encode_utf8(other_password),
{
    encode_utf8_decode_utf8(password);
    encode_utf8_decode_utf8(other_password);
}

/// Derives the 32-byte encryption key from the master password and the salt text.
pub fn derive_key_with(cfg: &Argon2Config, master_password: &str, salt: &str) -> (key: Vec<u8>)
    requires
        cfg.accepted(),
        password_len_ok(master_password@),
        salt_len_ok(salt@),
    ensures
        key@ == spec_derive_key(*cfg, master_password@, salt@),
        key@ == argon2id_raw(
            cfg.m_cost,
            cfg.t_cost,
            cfg.p_cost,
            encode_utf8(master_password@),
            encode_utf8(salt@),
            32,
        ),
        key@.len() == KEY_LEN,
{
    let out = argon2id_hash_into(cfg, master_password.as_bytes(), salt.as_bytes(), KEY_LEN);
    out.expect("derive key failed")
}

/// Derives the 32-byte encryption key with the strong settings.
pub fn derive_encryption_key(master_password: &str, salt: &str) -> (key: Vec<u8>)
    requires
        password_len_ok(master_password@),
        salt_len_ok(salt@),
    ensures
        key@ == spec_derive_key(strong_config(), master_password@, salt@),
        key@ == argon2id_raw(262144, 4, 2, encode_utf8(master_password@), encode_utf8(salt@), 32),
        key@.len() == KEY_LEN,
{
    derive_key_with(&get_argon2_strong(), master_password, salt)
}

/// Hashes a new master password into a PHC string with a fresh random salt.
/// Fails only for a password of more than 2^32-1 bytes; the password then
/// verifies against the hash.
pub fn create_hash_with(cfg: &Argon2Config, password: &str) -> (res: Result<String, String>)
    requires
        cfg.accepted(),
    ensures
        res is Ok <==> password_len_ok(password@),
        res matches Ok(h) ==> argon2_phc_verify(h@, encode_utf8(password@)) && phc_shaped(*cfg, h@),
        res matches Ok(h) ==> phc_p_fits(h@),
        res matches Err(e) ==> e@ == "Lỗi tạo hash"@,
{
    match argon2id_hash_phc(cfg, password.as_bytes()) {
        Ok(h) => {
            proof {
                lemma_shaped_hash_checkable(*cfg, h@);
            }
            Ok(h)
        },
        Err(_) => Err(String::from_str("Lỗi tạo hash")),
    }
}

/// Hashes a new master password with the strong settings.
pub fn create_hash(password: &str) -> (res: Result<String, String>)
    ensures
        res is Ok <==> password_len_ok(password@),
        res matches Ok(h) ==> argon2_phc_verify(h@, encode_utf8(password@)) && phc_shaped(
            strong_config(),
            h@,
        ),
        res matches Ok(h) ==> phc_p_fits(h@),
        res matches Err(e) ==> e@ == "Lỗi tạo hash"@,
{
    create_hash_with(&get_argon2_strong(), password)
}

/// Whether `password` matches the master hash (checked by an Argon2id context
/// with settings `cfg`; the hash's own settings are the ones that count).
pub fn verify_with(cfg: &Argon2Config, hash: &str, password: &str) -> (res: bool)
    requires
        cfg.accepted(),
        phc_p_fits(hash@),
    ensures
        res == argon2_phc_verify(hash@, encode_utf8(password@)),
{
    argon2_verify_phc(cfg, hash, password.as_bytes())
}

/// Whether `password` matches the master hash.
pub fn verify(hash: &str, password: &str) -> (res: bool)
    requires
        phc_p_fits(hash@),
    ensures
        res == argon2_phc_verify(hash@, encode_utf8(password@)),
{
    verify_with(&get_argon2_strong(), hash, password)
}

// ---------------------------------------------------------------------------
// The `p` setting of a PHC text.

/// `i` is where a PHC field or a `key=value` setting begins.
pub open spec fn is_param_start(s: Seq<char>, i: int) -> bool {
    i == 0 || s[i - 1] == '$' || s[i - 1] == ','
}

/// The end of the setting value that starts at `j`: the next ',' or '$', or the end.
pub open spec fn value_end(s: Seq<char>, j: int) -> int
    decreases s.len() - j,
{
    if j >= s.len() {
        s.len() as int
    } else if s[j] == ',' || s[j] == '$' {
        j
    } else {
        value_end(s, j + 1)
    }
}

/// The number written by a string of decimal digits.
pub open spec fn digits_value(d: Seq<char>) -> nat
    decreases d.len(),
{
    if d.len() == 0 {
        0
    } else {
        digits_value(d.drop_last()) * 10 + ((d.last() as nat) - 48) as nat
    }
}

/// A text that PHC reads as a decimal: digits only, no leading zero.
pub open spec fn is_decimal_text(d: Seq<char>) -> bool {
    &&& d.len() > 0
    &&& forall|k: int| 0 <= k < d.len() ==> '0' <= #[trigger] d[k] <= '9'
    &&& !(d[0] == '0' && d.len() > 1)
}

/// At `i` the text sets `p` to a `u32` above 0x1FFF_FFFF.
pub open spec fn p_overflows_at(s: Seq<char>, i: int) -> bool {
    &&& 0 <= i
    &&& i + 1 < s.len()
    &&& s[i] == 'p'
    &&& s[i + 1] == '='
    &&& is_param_start(s, i)
    &&& is_decimal_text(s.subrange(i + 2, value_end(s, i + 2)))
    &&& 0x1FFF_FFFF < digits_value(s.subrange(i + 2, value_end(s, i + 2))) <= 0xFFFF_FFFF
}

/// No setting `p=` of the text is a `u32` above 0x1FFF_FFFF (a `p` that
/// Argon2 would multiply by 8 past `u32`).
pub open spec fn phc_p_fits(s: Seq<char>) -> bool {
    forall|i: int| 0 <= i < s.len() ==> !#[trigger] p_overflows_at(s, i)
}

/// The code of the digit character of `d` is `d + 48`.
proof fn lemma_digit_char_code(d: nat)
    requires
        d < 10,
    ensures
        digit_char(d) as nat == d + 48,
{
    assert('0' as nat == 48 && '1' as nat == 49 && '2' as nat == 50 && '3' as nat == 51
        && '4' as nat == 52 && '5' as nat == 53 && '6' as nat == 54 && '7' as nat == 55
        && '8' as nat == 56 && '9' as nat == 57);
}

/// The rendering of `n` is made of digits and reads back as `n`.
proof fn lemma_decimal_reads_back(n: nat)
    ensures
        decimal(n).len() >= 1,
        forall|k: int| 0 <= k < decimal(n).len() ==> '0' <= #[trigger] decimal(n)[k] <= '9',
        digits_value(decimal(n)) == n,
    decreases n,
{
    let d = decimal(n);
    if n < 10 {
        assert(d.drop_last() =~= Seq::<char>::empty());
        assert(d.last() == digit_char(n));
        lemma_digit_char_code(n);
        assert(digits_value(d.drop_last()) == 0);
        assert(digits_value(d) == digits_value(d.drop_last()) * 10 + ((d.last() as nat) - 48) as nat);
    } else {
        lemma_decimal_reads_back(n / 10);
        assert(d.drop_last() =~= decimal(n / 10));
        assert(d.last() == digit_char(n % 10));
        lemma_digit_char_code(n % 10);
        assert(digits_value(d) == digits_value(d.drop_last()) * 10 + ((d.last() as nat) - 48) as nat);
        assert((n / 10) * 10 + n % 10 == n);
        assert forall|k: int| 0 <= k < d.len() implies '0' <= #[trigger] d[k] <= '9' by {
            if k < d.len() - 1 {
                assert(d[k] == decimal(n / 10)[k]);
            }
        }
    }
}

/// A hash made with accepted settings can be checked by `verify_with` and
/// `verify`: its `p` setting is in range. With the `ensures` of
/// `create_hash_with`, a created hash therefore verifies its own password.
pub proof fn lemma_shaped_hash_checkable(cfg: Argon2Config, h: Seq<char>)
    requires
        cfg.accepted(),
        phc_shaped(cfg, h),
    ensures
        phc_p_fits(h),
{
    let (salt, output) = choose|salt: Seq<char>, output: Seq<char>|
        {
            &&& salt.len() == 22
            &&& output.len() == 43
            &&& is_b64_text(salt)
            &&& is_b64_text(output)
            &&& h == #[trigger] phc_text(cfg, salt, output)
        };
    lemma_phc_text_p_fits(cfg, salt, output);
}

/// A value made of digits and closed by '$' at `e` ends at `e`.
proof fn lemma_value_end_at_dollar(s: Seq<char>, j: int, e: int)
    requires
        0 <= j <= e < s.len(),
        s[e] == '$',
        forall|k: int| j <= k < e ==> '0' <= #[trigger] s[k] <= '9',
    ensures
        value_end(s, j) == e,
    decreases e - j,
{
    if j < e {
        lemma_value_end_at_dollar(s, j + 1, e);
    }
}

/// A PHC text of accepted settings with a Base64 salt and output sets `p` to
/// at most 0xFF_FFFF: checking a password against it stays in range.
pub proof fn lemma_phc_text_p_fits(cfg: Argon2Config, salt: Seq<char>, output: Seq<char>)
    requires
        cfg.accepted(),
        is_b64_text(salt),
        is_b64_text(output),
    ensures
        phc_p_fits(phc_text(cfg, salt, output)),
{
    reveal_strlit("$argon2id$v=19$m=");
    reveal_strlit(",t=");
    reveal_strlit(",p=");
    let head = "$argon2id$v=19$m="@;
    let dm = decimal(cfg.m_cost as nat);
    let dt = decimal(cfg.t_cost as nat);
    let dp = decimal(cfg.p_cost as nat);
    lemma_decimal_reads_back(cfg.m_cost as nat);
    lemma_decimal_reads_back(cfg.t_cost as nat);
    lemma_decimal_reads_back(cfg.p_cost as nat);
    let q = head + dm + ",t="@ + dt;
    let pre = q + ",p="@;
    let tail = seq!['$'] + salt + seq!['$'] + output;
    let s = phc_text(cfg, salt, output);
    assert(s =~= pre + dp + tail);
    let p0 = pre.len() as int;
    let e = p0 + dp.len();
    assert forall|k: int| 0 <= k < q.len() implies #[trigger] q[k] != 'p' by {
        let a = head + dm;
        let b = a + ",t="@;
        if k >= b.len() {
            assert(q[k] == dt[k - b.len()]);
        } else if k >= a.len() {
            assert(q[k] == ",t="@[k - a.len()]);
        } else if k >= head.len() {
            assert(q[k] == dm[k - head.len()]);
        } else {
            assert(q[k] == head[k]);
        }
    }
    assert forall|k: int| 0 <= k < tail.len() implies #[trigger] tail[k] != '=' by {
        if k == 0 {
        } else if k < 1 + salt.len() {
            assert(tail[k] == salt[k - 1]);
        } else if k == 1 + salt.len() {
        } else {
            assert(tail[k] == output[k - 2 - salt.len()]);
        }
    }
    assert forall|i: int| 0 <= i < s.len() implies !#[trigger] p_overflows_at(s, i) by {
        if p_overflows_at(s, i) {
            if i >= e {
                assert(s[i + 1] == tail[i + 1 - e]);
            } else if i >= p0 {
                assert(s[i] == dp[i - p0]);
            } else if i < q.len() {
                assert(s[i] == q[i]);
            } else if i == p0 - 1 {
                assert(s[i] == ",p="@[2]);
            } else {
                assert(i == p0 - 2);
                assert(s[i - 1] == ',');
                assert forall|k: int| p0 <= k < e implies '0' <= #[trigger] s[k] <= '9' by {
                    assert(s[k] == dp[k - p0]);
                }
                assert(s[e] == tail[0]);
                lemma_value_end_at_dollar(s, p0, e);
                assert(s.subrange(p0, e) =~= dp);
            }
        }
    }
}

fn value_end_of(s: &Vec<char>, j: usize) -> (end: usize)
    requires
        j <= s@.len(),
    ensures
        end as int == value_end(s@, j as int),
        j <= end <= s@.len(),
{
    let mut k = j;
    while k < s.len() && s[k] != ',' && s[k] != '$'
        invariant
            j <= k <= s@.len(),
            value_end(s@, j as int) == value_end(s@, k as int),
        decreases s@.len() - k,
    {
        k = k + 1;
    }
    k
}

/// The number written by `s[from..to]` if it is all digits, capped at 2^32.
fn digits_capped(s: &Vec<char>, from: usize, to: usize) -> (res: Option<u64>)
    requires
        from <= to <= s@.len(),
    ensures
        res is Some <==> forall|k: int| from <= k < to ==> '0' <= #[trigger] s@[k] <= '9',
        res matches Some(v) ==> v == if digits_value(s@.subrange(from as int, to as int))
            < 0x1_0000_0000 {
            digits_value(s@.subrange(from as int, to as int))
        } else {
            0x1_0000_0000
        },
{
    let mut acc: u64 = 0;
    let mut k = from;
    assert(s@.subrange(from as int, from as int) =~= Seq::<char>::empty());
    while k < to
        invariant
            from <= k <= to <= s@.len(),
            forall|m: int| from <= m < k ==> '0' <= #[trigger] s@[m] <= '9',
            acc == if digits_value(s@.subrange(from as int, k as int)) < 0x1_0000_0000 {
                digits_value(s@.subrange(from as int, k as int))
            } else {
                0x1_0000_0000
            },
        decreases to - k,
    {
        let c = s[k];
        if !('0' <= c && c <= '9') {
            return None;
        }
        let d = (c as u32 - 48) as u64;
        let ghost before = s@.subrange(from as int, k as int);
        let ghost after = s@.subrange(from as int, k + 1);
        assert(after.drop_last() == before);
        assert(after.last() == c);
        assert(digits_value(after) == digits_value(before) * 10 + d);
        if acc >= 0x1_0000_0000 {
            assert(digits_value(after) >= 0x1_0000_0000);
        } else {
            let next = acc * 10 + d;
            acc = if next < 0x1_0000_0000 {
                next
            } else {
                0x1_0000_0000
            };
        }
        k = k + 1;
    }
    Some(acc)
}

/// Whether no `p=` setting of the PHC text is a `u32` above 0x1FFF_FFFF,
/// so that checking a password against it stays within Argon2's arithmetic.
pub fn phc_params_usable(hash: &str) -> (res: bool)
    ensures
        res == phc_p_fits(hash@),
{
    let s = crate::text::chars_of(hash);
    let n = s.len();
    let mut i: usize = 0;
    while i < n
        invariant
            s@ == hash@,
            n == s@.len(),
            i <= n,
            forall|k: int| 0 <= k < i ==> !#[trigger] p_overflows_at(s@, k),
        decreases n - i,
    {
        if i + 1 < n && s[i] == 'p' && s[i + 1] == '=' && (i == 0 || s[i - 1] == '$' || s[i
            - 1] == ',') {
            let end = value_end_of(&s, i + 2);
            let ghost v = s@.subrange(i + 2, end as int);
            match digits_capped(&s, i + 2, end) {
                Some(value) => {
                    let len = end - (i + 2);
                    let leading_zero = len > 1 && s[i + 2] == '0';
                    proof {
                        assert forall|k: int| 0 <= k < v.len() implies '0' <= #[trigger] v[k]
                            <= '9' by {
                            assert(v[k] == s@[i + 2 + k]);
                        }
                        if len > 0 {
                            assert(v[0] == s@[i + 2]);
                        }
                    }
                    if len > 0 && !leading_zero && 0x1FFF_FFFF < value && value <= 0xFFFF_FFFF {
                        assert(p_overflows_at(s@, i as int));
                        return false;
                    }
                    assert(!p_overflows_at(s@, i as int));
                },
                None => {
                    proof {
                        let m = choose|m: int| i + 2 <= m < end && !('0' <= #[trigger] s@[m] <= '9');
                        assert(v[m - (i + 2)] == s@[m]);
                    }
                    assert(!p_overflows_at(s@, i as int));
                },
            }
        }
        i = i + 1;
    }
    true
}

} // verus!
