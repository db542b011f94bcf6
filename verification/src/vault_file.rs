//! The vault's persisted data and the text of the vault file.
//!
//! The file lists one hundred `"master_hash_N"` lines in random order. Line 93
//! holds the real master hash; the 99 others hold decoys that copy its shape:
//! each character of its salt and hash parts is replaced by a random character
//! of the same class.
use vstd::prelude::*;
use crate::hexcode::{hex_encode, hex_encode_spec, lemma_hex_encode_ascii, lemma_ascii_utf8};
use crate::kdf::{is_b64_text, phc_shaped, phc_text, salt_len_ok, Argon2Config};
use crate::random::{
    gen_below, gen_byte_in, random_byte, reordered, shuffle_strings, thread_rng,
};
use crate::text::{append_decimal, chars_of, decimal, push_char};

verus! {

/// One stored account.
pub struct Entry {
    pub platform: String,
    pub account: String,
    /// The password, sealed by `encrypt_password`.
    pub encrypted_password: String,
}

/// What the vault file holds.
pub struct VaultData {
    /// The PHC hash of the master password (empty before the first setup).
    pub master_hash_93: String,
    /// The salt text from which the encryption key is derived.
    pub salt: String,
    pub entries: Vec<Entry>,
    /// Whether the master password has yet to be chosen.
    pub first_setup: bool,
}

impl Entry {
    /// A copy of the entry.
    pub fn duplicate(&self) -> (res: Entry)
        ensures
            res == *self,
    {
        Entry {
            platform: self.platform.clone(),
            account: self.account.clone(),
            encrypted_password: self.encrypted_password.clone(),
        }
    }
}

/// A copy of a list of entries.
pub fn duplicate_entries(entries: &Vec<Entry>) -> (res: Vec<Entry>)
    ensures
        res@ == entries@,
{
    let mut res: Vec<Entry> = Vec::new();
    for i in 0..entries.len()
        invariant
            res@ == entries@.take(i as int),
    {
        res.push(entries[i].duplicate());
        assert(res@ == entries@.take(i + 1));
    }
    assert(entries@.take(entries@.len() as int) == entries@);
    res
}

/// Empty vault data whose salt is the hex text of 16 random bytes
/// (what the vault starts from when no file can be read).
pub fn new_vault_data() -> (res: VaultData)
    ensures
        res.master_hash_93@.len() == 0,
        res.entries@.len() == 0,
        res.first_setup,
        exists|bytes: Seq<u8>| bytes.len() == 16 && res.salt@ == #[trigger] hex_encode_spec(bytes),
        salt_len_ok(res.salt@),
{
    let mut bytes: Vec<u8> = Vec::new();
    for _i in 0..16usize
        invariant
            bytes@.len() == _i,
    {
        bytes.push(random_byte());
    }
    let salt = hex_encode(bytes.as_slice());
    proof {
        lemma_hex_encode_ascii(bytes@);
        lemma_ascii_utf8(salt@);
    }
    VaultData { master_hash_93: String::new(), salt, entries: Vec::new(), first_setup: true }
}

// ---------------------------------------------------------------------------
// Splitting the master hash on '$'.

/// `str::split('$')` as a sequence of fields.
pub open spec fn split_dollar(s: Seq<char>) -> Seq<Seq<char>>
    decreases s.len(),
{
    if s.len() == 0 {
        seq![Seq::empty()]
    } else {
        let front = split_dollar(s.drop_last());
        if s.last() == '$' {
            front.push(Seq::empty())
        } else {
            front.update(front.len() - 1, front.last().push(s.last()))
        }
    }
}

proof fn lemma_split_nonempty(s: Seq<char>)
    ensures
        split_dollar(s).len() >= 1,
    decreases s.len(),
{
    if s.len() > 0 {
        lemma_split_nonempty(s.drop_last());
    }
}

/// The fields of `s` between '$' separators, as `str::split('$')` yields them.
pub fn split_fields(s: &str) -> (res: Vec<Vec<char>>)
    ensures
        res@.len() == split_dollar(s@).len(),
        forall|i: int| 0 <= i < res@.len() ==> #[trigger] res@[i]@ == split_dollar(s@)[i],
{
    let chars = chars_of(s);
    let mut done: Vec<Vec<char>> = Vec::new();
    let mut current: Vec<char> = Vec::new();
    for i in 0..chars.len()
        invariant
            chars@ == s@,
            split_dollar(s@.take(i as int)).len() == done@.len() + 1,
            forall|k: int| 0 <= k < done@.len() ==> #[trigger] done@[k]@ == split_dollar(s@.take(i as int))[k],
            current@ == split_dollar(s@.take(i as int)).last(),
    {
        let c = chars[i];
        let ghost prefix = s@.take(i as int);
        let ghost next = s@.take(i + 1);
        assert(next.drop_last() == prefix);
        assert(next.last() == c);
        proof { lemma_split_nonempty(prefix); }
        if c == '$' {
            let finished = current;
            done.push(finished);
            current = Vec::new();
        } else {
            current.push(c);
        }
    }
    assert(s@.take(chars@.len() as int) == s@);
    done.push(current);
    done
}

// ---------------------------------------------------------------------------
// Decoy characters.

pub open spec fn is_lower(c: char) -> bool {
    'a' <= c <= 'z'
}

pub open spec fn is_upper(c: char) -> bool {
    'A' <= c <= 'Z'
}

pub open spec fn is_digit(c: char) -> bool {
    '0' <= c <= '9'
}

/// The characters that a decoy writes in place of `$`, `+`, `/` and `=`.
pub open spec fn is_decoy_symbol(c: char) -> bool {
    c == '&' || c == '!' || c == '*' || c == '-' || c == '#' || c == '_'
}

pub open spec fn is_replaced_symbol(c: char) -> bool {
    c == '$' || c == '+' || c == '/' || c == '='
}

/// A decoy salt character `d` stands in for `c`: same class (lower, upper,
/// digit), a decoy symbol for `$+/=`, and `c` itself otherwise.
pub open spec fn salt_class_kept(c: char, d: char) -> bool {
    if is_lower(c) {
        is_lower(d)
    } else if is_upper(c) {
        is_upper(d)
    } else if is_digit(c) {
        is_digit(d)
    } else if is_replaced_symbol(c) {
        is_decoy_symbol(d)
    } else {
        d == c
    }
}

/// A decoy hash character `d` stands in for `c`: as for salts, except that any
/// other character becomes a letter or digit.
pub open spec fn hash_class_kept(c: char, d: char) -> bool {
    if is_lower(c) {
        is_lower(d)
    } else if is_upper(c) {
        is_upper(d)
    } else if is_digit(c) {
        is_digit(d)
    } else if is_replaced_symbol(c) {
        is_decoy_symbol(d)
    } else {
        is_lower(d) || is_upper(d) || is_digit(d)
    }
}

/// How many candidates a decoy salt character is drawn from (0: kept as is).
pub open spec fn salt_choices(c: char) -> nat {
    if is_lower(c) || is_upper(c) {
        26
    } else if is_digit(c) {
        10
    } else if is_replaced_symbol(c) {
        6
    } else {
        0
    }
}

/// How many candidates a decoy hash character is drawn from.
pub open spec fn hash_choices(c: char) -> nat {
    if is_lower(c) || is_upper(c) {
        26
    } else if is_digit(c) {
        10
    } else if is_replaced_symbol(c) {
        6
    } else {
        62
    }
}

pub open spec fn lower_at(r: nat) -> char {
    (97 + r) as char
}

pub open spec fn upper_at(r: nat) -> char {
    (65 + r) as char
}

pub open spec fn digit_at(r: nat) -> char {
    (48 + r) as char
}

/// The decoy symbols `& ! * - # _`, in that order.
pub open spec fn symbol_at(r: nat) -> char {
    if r == 0 {
        '&'
    } else if r == 1 {
        '!'
    } else if r == 2 {
        '*'
    } else if r == 3 {
        '-'
    } else if r == 4 {
        '#'
    } else {
        '_'
    }
}

/// `a..z`, then `A..Z`, then `0..9`.
pub open spec fn alnum_at(r: nat) -> char {
    if r < 26 {
        lower_at(r)
    } else if r < 52 {
        upper_at((r - 26) as nat)
    } else {
        digit_at((r - 52) as nat)
    }
}

/// The decoy salt character for `c` when the draw is `roll`.
pub open spec fn salt_decoy_spec(c: char, roll: nat) -> char {
    if is_lower(c) {
        lower_at(roll)
    } else if is_upper(c) {
        upper_at(roll)
    } else if is_digit(c) {
        digit_at(roll)
    } else if is_replaced_symbol(c) {
        symbol_at(roll)
    } else {
        c
    }
}

/// The decoy hash character for `c` when the draw is `roll`.
pub open spec fn hash_decoy_spec(c: char, roll: nat) -> char {
    if is_lower(c) || is_upper(c) || is_digit(c) || is_replaced_symbol(c) {
        salt_decoy_spec(c, roll)
    } else {
        alnum_at(roll)
    }
}

fn lower_letter(r: usize) -> (c: char)
    requires
        r < 26,
    ensures
        c == lower_at(r as nat),
        is_lower(c),
{
    ((97u8 + r as u8) as char)
}

fn upper_letter(r: usize) -> (c: char)
    requires
        r < 26,
    ensures
        c == upper_at(r as nat),
        is_upper(c),
{
    ((65u8 + r as u8) as char)
}

fn digit_letter(r: usize) -> (c: char)
    requires
        r < 10,
    ensures
        c == digit_at(r as nat),
        is_digit(c),
{
    ((48u8 + r as u8) as char)
}

fn decoy_symbol(r: usize) -> (c: char)
    requires
        r < 6,
    ensures
        c == symbol_at(r as nat),
        is_decoy_symbol(c),
{
    if r == 0 {
        '&'
    } else if r == 1 {
        '!'
    } else if r == 2 {
        '*'
    } else if r == 3 {
        '-'
    } else if r == 4 {
        '#'
    } else {
        '_'
    }
}

/// The number of candidates for a decoy salt character (0: kept as is).
pub fn salt_choice_count(c: char) -> (n: usize)
    ensures
        n == salt_choices(c),
{
    if ('a' <= c && c <= 'z') || ('A' <= c && c <= 'Z') {
        26
    } else if '0' <= c && c <= '9' {
        10
    } else if c == '$' || c == '+' || c == '/' || c == '=' {
        6
    } else {
        0
    }
}

/// The number of candidates for a decoy hash character.
pub fn hash_choice_count(c: char) -> (n: usize)
    ensures
        n == hash_choices(c),
{
    let n = salt_choice_count(c);
    if n == 0 {
        62
    } else {
        n
    }
}

/// The decoy salt character for `c` with draw `roll`.
pub fn salt_decoy_char(c: char, roll: usize) -> (d: char)
    requires
        roll < salt_choices(c) || salt_choices(c) == 0,
    ensures
        d == salt_decoy_spec(c, roll as nat),
        salt_class_kept(c, d),
{
    if 'a' <= c && c <= 'z' {
        lower_letter(roll)
    } else if 'A' <= c && c <= 'Z' {
        upper_letter(roll)
    } else if '0' <= c && c <= '9' {
        digit_letter(roll)
    } else if c == '$' || c == '+' || c == '/' || c == '=' {
        decoy_symbol(roll)
    } else {
        c
    }
}

/// The decoy hash character for `c` with draw `roll`.
pub fn hash_decoy_char(c: char, roll: usize) -> (d: char)
    requires
        roll < hash_choices(c),
    ensures
        d == hash_decoy_spec(c, roll as nat),
        hash_class_kept(c, d),
{
    if salt_choice_count(c) > 0 {
        salt_decoy_char(c, roll)
    } else if roll < 26 {
        lower_letter(roll)
    } else if roll < 52 {
        upper_letter(roll - 26)
    } else {
        digit_letter(roll - 52)
    }
}

/// `fake` has the length of `orig` and keeps each character's salt class.
pub open spec fn salt_shaped(orig: Seq<char>, fake: Seq<char>) -> bool {
    &&& fake.len() == orig.len()
    &&& forall|j: int| 0 <= j < orig.len() ==> salt_class_kept(orig[j], #[trigger] fake[j])
}

/// `fake` has the length of `orig` and keeps each character's hash class.
pub open spec fn hash_shaped(orig: Seq<char>, fake: Seq<char>) -> bool {
    &&& fake.len() == orig.len()
    &&& forall|j: int| 0 <= j < orig.len() ==> hash_class_kept(orig[j], #[trigger] fake[j])
}

/// A random decoy of a salt part.
pub fn decoy_salt(rng: &mut rand::rngs::ThreadRng, orig: &Vec<char>) -> (res: String)
    ensures
        salt_shaped(orig@, res@),
{
    let mut res = String::new();
    for j in 0..orig.len()
        invariant
            res@.len() == j,
            forall|k: int| 0 <= k < j ==> salt_class_kept(orig@[k], #[trigger] res@[k]),
    {
        let c = orig[j];
        let n = salt_choice_count(c);
        let roll = if n == 0 {
            0
        } else {
            gen_below(rng, n)
        };
        let d = salt_decoy_char(c, roll);
        push_char(&mut res, d);
    }
    res
}

/// A random decoy of a hash part.
pub fn decoy_hash(rng: &mut rand::rngs::ThreadRng, orig: &Vec<char>) -> (res: String)
    ensures
        hash_shaped(orig@, res@),
{
    let mut res = String::new();
    for j in 0..orig.len()
        invariant
            res@.len() == j,
            forall|k: int| 0 <= k < j ==> hash_class_kept(orig@[k], #[trigger] res@[k]),
    {
        let c = orig[j];
        let n = hash_choice_count(c);
        let roll = gen_below(rng, n);
        let d = hash_decoy_char(c, roll);
        push_char(&mut res, d);
    }
    res
}

// ---------------------------------------------------------------------------
// Lines of the file.

/// The text of a decoy hash with parallelism letter `p`.
pub open spec fn fake_hash_text(p: char, salt: Seq<char>, hash: Seq<char>) -> Seq<char> {
    "$argon2id$v=19$m=262144,t=4,p="@ + seq![p] + seq!['$'] + salt + seq!['$'] + hash
}

/// `fake` is a decoy of a master hash whose salt part is `salt_part` and hash
/// part `hash_part`, with parallelism letter `p`.
pub open spec fn is_decoy(salt_part: Seq<char>, hash_part: Seq<char>, p: char, fake: Seq<char>) -> bool {
    exists|s: Seq<char>, h: Seq<char>|
        salt_shaped(salt_part, s) && hash_shaped(hash_part, h) && fake == #[trigger] fake_hash_text(
            p,
            s,
            h,
        )
}

/// The line `"master_hash_<index>": "<value>"`.
pub open spec fn hash_line(index: nat, value: Seq<char>) -> Seq<char> {
    "\"master_hash_"@ + decimal(index) + "\": \""@ + value + "\""@
}

/// The key numbers of the lines in the order they are made: 1 to 100 without
/// 93 for the decoys, then 93 for the real hash.
pub open spec fn line_keys() -> Seq<nat> {
    Seq::new(
        100,
        |k: int|
            if k < 92 {
                (k + 1) as nat
            } else if k < 99 {
                (k + 2) as nat
            } else {
                93nat
            },
    )
}

/// The letter `k` places after `start` in the cycle a..z.
pub open spec fn letter_after(start: u8, k: int) -> char {
    (97 + ((start - 97 + k) % 26)) as char
}

/// The line values in the order they are made: the decoys, then the real hash.
pub open spec fn line_values(fakes: Seq<Seq<char>>, master: Seq<char>) -> Seq<Seq<char>> {
    fakes.push(master)
}

/// The 100 lines, before shuffling.
pub open spec fn unshuffled_lines(fakes: Seq<Seq<char>>, master: Seq<char>) -> Seq<Seq<char>> {
    Seq::new(100, |k: int| hash_line(line_keys()[k], line_values(fakes, master)[k]))
}

/// 99 decoys of `master`, with consecutive parallelism letters from `start`.
pub open spec fn decoys_of(master: Seq<char>, start: u8, fakes: Seq<Seq<char>>) -> bool {
    &&& 97 <= start <= 122
    &&& fakes.len() == 99
    &&& forall|k: int|
        0 <= k < 99 ==> is_decoy(
            split_dollar(master)[4],
            split_dollar(master)[5],
            letter_after(start, k),
            #[trigger] fakes[k],
        )
}

/// Every key from 1 to 100 names exactly one line, and the last line made
/// (the real hash) has key 93.
pub proof fn lemma_line_keys()
    ensures
        line_keys().len() == 100,
        line_keys()[99] == 93,
        forall|k: int| 0 <= k < 100 ==> 1 <= #[trigger] line_keys()[k] <= 100,
        forall|k1: int, k2: int|
            0 <= k1 < 100 && 0 <= k2 < 100 && k1 != k2 ==> #[trigger] line_keys()[k1]
                != #[trigger] line_keys()[k2],
        forall|i: nat| 1 <= i <= 100 ==> #[trigger] key_has_line(i),
{
    assert forall|i: nat| 1 <= i <= 100 implies #[trigger] key_has_line(i) by {
        let k: int = if i < 93 {
            i - 1
        } else if i == 93 {
            99
        } else {
            i - 2
        };
        assert(line_keys()[k] == i);
    }
}

/// Some line has key `i`.
pub open spec fn key_has_line(i: nat) -> bool {
    exists|k: int| 0 <= k < 100 && #[trigger] line_keys()[k] == i
}

/// The text of one hash line.
pub fn hash_line_text(index: u64, value: &str) -> (res: String)
    ensures
        res@ == hash_line(index as nat, value@),
{
    let mut s = String::from_str("\"master_hash_");
    append_decimal(&mut s, index);
    s.append("\": \"");
    s.append(value);
    s.append("\"");
    s
}

/// The text of a decoy hash.
pub fn fake_hash_string(p: char, salt: &str, hash: &str) -> (res: String)
    ensures
        res@ == fake_hash_text(p, salt@, hash@),
{
    let mut s = String::from_str("$argon2id$v=19$m=262144,t=4,p=");
    push_char(&mut s, p);
    push_char(&mut s, '$');
    s.append(salt);
    push_char(&mut s, '$');
    s.append(hash);
    s
}

/// The 100 hash lines in the order they are made, with fresh random decoys.
pub fn hash_lines(rng: &mut rand::rngs::ThreadRng, master: &str) -> (lines: Vec<String>)
    requires
        split_dollar(master@).len() >= 6,
    ensures
        exists|start: u8, fakes: Seq<Seq<char>>|
            #[trigger] decoys_of(master@, start, fakes) && lines@.map_values(|l: String| l@)
                == unshuffled_lines(fakes, master@),
{
    let parts = split_fields(master);
    let salt_part = &parts[4];
    let hash_part = &parts[5];
    let ghost salt_v = split_dollar(master@)[4];
    let ghost hash_v = split_dollar(master@)[5];
    let start = gen_byte_in(rng, 97, 122);
    let mut current_p: u8 = start;
    let mut lines: Vec<String> = Vec::new();
    let ghost mut fakes: Seq<Seq<char>> = Seq::empty();
    let mut i: u64 = 1;
    while i <= 100
        invariant
            1 <= i <= 101,
            97 <= start <= 122,
            97 <= current_p <= 122,
            salt_part@ == salt_v,
            hash_part@ == hash_v,
            salt_v == split_dollar(master@)[4],
            hash_v == split_dollar(master@)[5],
            fakes.len() == if i <= 93 { i - 1 } else { i - 2 },
            current_p as char == letter_after(start, fakes.len() as int),
            lines@.len() == fakes.len(),
            forall|k: int|
                0 <= k < fakes.len() ==> is_decoy(
                    salt_v,
                    hash_v,
                    letter_after(start, k),
                    #[trigger] fakes[k],
                ),
            forall|k: int|
                0 <= k < lines@.len() ==> #[trigger] lines@[k]@ == hash_line(
                    line_keys()[k],
                    fakes[k],
                ),
        decreases 101 - i,
    {
        if i == 93 {
            i = i + 1;
            continue;
        }
        let fake_p = current_p as char;
        let ghost k = fakes.len() as int;
        current_p = current_p + 1;
        if current_p > 122 {
            current_p = 97;
        }
        let shifted_salt = decoy_salt(rng, salt_part);
        let shifted_hash = decoy_hash(rng, hash_part);
        let fake = fake_hash_string(fake_p, shifted_salt.as_str(), shifted_hash.as_str());
        proof {
            assert(salt_shaped(salt_v, shifted_salt@) && hash_shaped(hash_v, shifted_hash@)
                && fake@ == fake_hash_text(fake_p, shifted_salt@, shifted_hash@));
            assert(is_decoy(salt_v, hash_v, letter_after(start, k), fake@));
            assert(line_keys()[k] == i);
        }
        let line = hash_line_text(i, fake.as_str());
        lines.push(line);
        proof {
            fakes = fakes.push(fake@);
            assert(letter_after(start, k + 1) == current_p as char);
        }
        i = i + 1;
    }
    let last = hash_line_text(93, master);
    lines.push(last);
    proof {
        assert(line_keys()[99] == 93);
        assert(lines@.map_values(|l: String| l@) =~= unshuffled_lines(fakes, master@));
        assert(decoys_of(master@, start, fakes));
    }
    lines
}

/// Lines joined by a separator.
pub open spec fn join(lines: Seq<Seq<char>>, sep: Seq<char>) -> Seq<char>
    decreases lines.len(),
{
    if lines.len() == 0 {
        Seq::empty()
    } else if lines.len() == 1 {
        lines[0]
    } else {
        join(lines.drop_last(), sep) + sep + lines.last()
    }
}

/// The lines of `lines` joined by `sep`.
pub fn join_lines(lines: &Vec<String>, sep: &str) -> (res: String)
    ensures
        res@ == join(lines@.map_values(|l: String| l@), sep@),
{
    let ghost views = lines@.map_values(|l: String| l@);
    let mut res = String::new();
    for i in 0..lines.len()
        invariant
            views == lines@.map_values(|l: String| l@),
            res@ == join(views.take(i as int), sep@),
    {
        if i != 0 {
            res.append(sep);
        }
        res.append(lines[i].as_str());
        assert(views.take(i + 1).drop_last() == views.take(i as int));
    }
    assert(views.take(lines@.len() as int) == views);
    res
}

/// `true` or `false`, as `{}` prints a `bool`.
pub open spec fn bool_text(b: bool) -> Seq<char> {
    if b {
        "true"@
    } else {
        "false"@
    }
}

/// The vault file text around its joined hash lines.
pub open spec fn vault_text(
    hashes_block: Seq<char>,
    salt: Seq<char>,
    entries_json: Seq<char>,
    first_setup: bool,
) -> Seq<char> {
    "{\n  "@ + hashes_block + ",\n\n  \"salt\": \""@ + salt + "\",\n\n  \"entries\": "@
        + entries_json + ",\n\n  \"first_setup\": "@ + bool_text(first_setup) + "\n}"@
}

/// The vault file text for the given hash lines, salt, JSON of the entries and setup flag.
pub fn assemble_vault_text(
    lines: &Vec<String>,
    salt: &str,
    entries_json: &str,
    first_setup: bool,
) -> (res: String)
    ensures
        res@ == vault_text(
            join(lines@.map_values(|l: String| l@), ",\n  "@),
            salt@,
            entries_json@,
            first_setup,
        ),
{
    let block = join_lines(lines, ",\n  ");
    let mut s = String::from_str("{\n  ");
    s.append(block.as_str());
    s.append(",\n\n  \"salt\": \"");
    s.append(salt);
    s.append("\",\n\n  \"entries\": ");
    s.append(entries_json);
    s.append(",\n\n  \"first_setup\": ");
    if first_setup {
        s.append("true");
    } else {
        s.append("false");
    }
    s.append("\n}");
    s
}

/// Whether a master hash can be written: it has salt and hash fields (the 5th
/// and 6th fields between '$').
pub open spec fn savable_hash(master: Seq<char>) -> bool {
    split_dollar(master).len() >= 6
}

/// The text of the vault file for `data`, given the JSON text of its entries:
/// the 100 hash lines (99 fresh decoys and the real hash as line 93) in a
/// random order, then the salt, the entries and the setup flag.
pub fn vault_file_text(data: &VaultData, entries_json: &str) -> (res: String)
    requires
        savable_hash(data.master_hash_93@),
    ensures
        exists|start: u8, fakes: Seq<Seq<char>>, order: Seq<int>|
            #![trigger decoys_of(data.master_hash_93@, start, fakes), crate::random::is_index_permutation(order, 100)]
            {
                &&& decoys_of(data.master_hash_93@, start, fakes)
                &&& res@ == vault_text(
                    join(reorder(unshuffled_lines(fakes, data.master_hash_93@), order), ",\n  "@),
                    data.salt@,
                    entries_json@,
                    data.first_setup,
                )
                &&& crate::random::is_index_permutation(order, 100)
            },
{
    let mut rng = thread_rng();
    let mut lines = hash_lines(&mut rng, data.master_hash_93.as_str());
    let ghost before = lines@;
    shuffle_strings(&mut rng, &mut lines);
    let res = assemble_vault_text(&lines, data.salt.as_str(), entries_json, data.first_setup);
    proof {
        let (start, fakes) = choose|start: u8, fakes: Seq<Seq<char>>|
            #[trigger] decoys_of(data.master_hash_93@, start, fakes) && before.map_values(|l: String| l@)
                == unshuffled_lines(fakes, data.master_hash_93@);
        let order = choose|order: Seq<int>| reordered(lines@, before, order);
        let un = unshuffled_lines(fakes, data.master_hash_93@);
        assert(before.map_values(|l: String| l@).len() == 100);
        assert(before.len() == 100);
        assert(crate::random::is_index_permutation(order, 100));
        assert(lines@.map_values(|l: String| l@) =~= reorder(un, order));
        assert(res@ == vault_text(join(reorder(un, order), ",\n  "@), data.salt@, entries_json@, data.first_setup));
    }
    res
}

/// `lines` taken in the order `order`.
pub open spec fn reorder(lines: Seq<Seq<char>>, order: Seq<int>) -> Seq<Seq<char>> {
    Seq::new(order.len(), |i: int| lines[order[i]])
}

/// A text without '$'.
pub open spec fn no_dollar(s: Seq<char>) -> bool {
    forall|i: int| 0 <= i < s.len() ==> #[trigger] s[i] != '$'
}

proof fn lemma_split_append_plain(a: Seq<char>, b: Seq<char>)
    requires
        no_dollar(b),
    ensures
        split_dollar(a + b) == split_dollar(a).update(
            split_dollar(a).len() - 1,
            split_dollar(a).last() + b,
        ),
    decreases b.len(),
{
    lemma_split_nonempty(a);
    if b.len() == 0 {
        assert(a + b == a);
        assert(split_dollar(a).last() + b == split_dollar(a).last());
        assert(split_dollar(a).update(split_dollar(a).len() - 1, split_dollar(a).last())
            == split_dollar(a));
    } else {
        let b0 = b.drop_last();
        assert(no_dollar(b0)) by {
            assert forall|i: int| 0 <= i < b0.len() implies #[trigger] b0[i] != '$' by {
                assert(b0[i] == b[i]);
            }
        }
        lemma_split_append_plain(a, b0);
        assert((a + b).drop_last() == a + b0);
        assert((a + b).last() == b.last());
        assert(b.last() != '$') by {
            assert(b[b.len() - 1] != '$');
        }
        assert(split_dollar(a).last() + b0 + seq![b.last()] == split_dollar(a).last() + b) by {
            assert(b0.push(b.last()) == b);
        }
        assert((split_dollar(a).last() + b0).push(b.last()) == split_dollar(a).last() + b);
    }
}

proof fn lemma_split_field(a: Seq<char>, b: Seq<char>)
    requires
        no_dollar(b),
    ensures
        split_dollar(a + seq!['$'] + b) == split_dollar(a).push(b),
{
    let ad = a + seq!['$'];
    assert(ad.drop_last() == a);
    assert(ad.last() == '$');
    assert(split_dollar(ad) == split_dollar(a).push(Seq::empty()));
    lemma_split_append_plain(ad, b);
    assert(Seq::<char>::empty() + b == b);
}

/// The digits of a decimal rendering contain no '$'.
pub proof fn lemma_decimal_no_dollar(n: nat)
    ensures
        no_dollar(decimal(n)),
    decreases n,
{
    if n >= 10 {
        lemma_decimal_no_dollar(n / 10);
        let d = decimal(n);
        assert forall|i: int| 0 <= i < d.len() implies #[trigger] d[i] != '$' by {
            if i < d.len() - 1 {
                assert(d[i] == decimal(n / 10)[i]);
            }
        }
    }
}

proof fn lemma_concat_no_dollar(a: Seq<char>, b: Seq<char>)
    requires
        no_dollar(a),
        no_dollar(b),
    ensures
        no_dollar(a + b),
{
    assert forall|i: int| 0 <= i < (a + b).len() implies #[trigger] (a + b)[i] != '$' by {
        if i >= a.len() {
            assert((a + b)[i] == b[i - a.len()]);
        } else {
            assert((a + b)[i] == a[i]);
        }
    }
}

/// A hash as `create_hash_with` makes it can be written to the vault file.
pub proof fn lemma_created_hash_savable(cfg: Argon2Config, h: Seq<char>)
    requires
        phc_shaped(cfg, h),
    ensures
        savable_hash(h),
{
    let (salt, output) = choose|salt: Seq<char>, output: Seq<char>|
        {
            &&& salt.len() == 22
            &&& output.len() == 43
            &&& is_b64_text(salt)
            &&& is_b64_text(output)
            &&& h == #[trigger] phc_text(cfg, salt, output)
        };
    lemma_phc_savable(cfg, salt, output);
}

/// A PHC string made by `create_hash` can be written to the vault file: it
/// has six '$'-separated fields, the 5th being its salt and the 6th its hash,
/// which the decoys imitate.
pub proof fn lemma_phc_savable(cfg: Argon2Config, salt: Seq<char>, output: Seq<char>)
    requires
        is_b64_text(salt),
        is_b64_text(output),
    ensures
        savable_hash(phc_text(cfg, salt, output)),
        split_dollar(phc_text(cfg, salt, output)).len() == 6,
        split_dollar(phc_text(cfg, salt, output))[4] == salt,
        split_dollar(phc_text(cfg, salt, output))[5] == output,
{
    reveal_strlit("$argon2id$v=19$m=");
    reveal_strlit("argon2id");
    reveal_strlit("v=19");
    reveal_strlit("m=");
    reveal_strlit(",t=");
    reveal_strlit(",p=");
    assert(no_dollar(salt));
    assert(no_dollar(output));
    lemma_decimal_no_dollar(cfg.m_cost as nat);
    lemma_decimal_no_dollar(cfg.t_cost as nat);
    lemma_decimal_no_dollar(cfg.p_cost as nat);
    let costs = "m="@ + decimal(cfg.m_cost as nat) + ",t="@ + decimal(cfg.t_cost as nat) + ",p="@
        + decimal(cfg.p_cost as nat);
    lemma_concat_no_dollar("m="@, decimal(cfg.m_cost as nat));
    lemma_concat_no_dollar("m="@ + decimal(cfg.m_cost as nat), ",t="@);
    lemma_concat_no_dollar("m="@ + decimal(cfg.m_cost as nat) + ",t="@, decimal(cfg.t_cost as nat));
    lemma_concat_no_dollar("m="@ + decimal(cfg.m_cost as nat) + ",t="@ + decimal(cfg.t_cost as nat), ",p="@);
    lemma_concat_no_dollar(
        "m="@ + decimal(cfg.m_cost as nat) + ",t="@ + decimal(cfg.t_cost as nat) + ",p="@,
        decimal(cfg.p_cost as nat),
    );
    let e = Seq::<char>::empty();
    let p1 = e + seq!['$'] + "argon2id"@;
    let p2 = p1 + seq!['$'] + "v=19"@;
    let p3 = p2 + seq!['$'] + costs;
    let p4 = p3 + seq!['$'] + salt;
    let p5 = p4 + seq!['$'] + output;
    assert(split_dollar(e) == seq![e]);
    lemma_split_field(e, "argon2id"@);
    lemma_split_field(p1, "v=19"@);
    lemma_split_field(p2, costs);
    lemma_split_field(p3, salt);
    lemma_split_field(p4, output);
    assert(p5 =~= phc_text(cfg, salt, output));
}

} // verus!
