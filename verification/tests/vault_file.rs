use std::collections::BTreeMap;
use xz_pass::vault_file::{
    assemble_vault_text, decoy_hash, decoy_salt, fake_hash_string, hash_choice_count,
    hash_decoy_char, hash_line_text, hash_lines, join_lines, new_vault_data, salt_choice_count,
    salt_decoy_char, split_fields, vault_file_text, Entry, VaultData,
};

const MASTER: &str = "$argon2id$v=19$m=262144,t=4,p=2$c2FsdHNhbHRzYWx0c2FsdA$+/aZ09hashhashhashhashhashhashhashhashhas";

fn strings(v: Vec<Vec<char>>) -> Vec<String> {
    v.into_iter().map(|f| f.into_iter().collect()).collect()
}

#[test]
fn split_fields_like_str_split() {
    for s in ["", "$", "a$b", "$a$$b$", MASTER, "no dollar"] {
        let expected: Vec<String> = s.split('$').map(|x| x.to_string()).collect();
        assert_eq!(strings(split_fields(s)), expected);
    }
}

#[test]
fn salt_decoy_chars_by_class() {
    assert_eq!(salt_decoy_char('q', 0), 'a');
    assert_eq!(salt_decoy_char('q', 25), 'z');
    assert_eq!(salt_decoy_char('Q', 3), 'D');
    assert_eq!(salt_decoy_char('7', 9), '9');
    assert_eq!(salt_decoy_char('+', 0), '&');
    assert_eq!(salt_decoy_char('/', 5), '_');
    assert_eq!(salt_decoy_char('=', 3), '-');
    assert_eq!(salt_decoy_char('.', 0), '.');
    assert_eq!(salt_choice_count('a'), 26);
    assert_eq!(salt_choice_count('Z'), 26);
    assert_eq!(salt_choice_count('0'), 10);
    assert_eq!(salt_choice_count('$'), 6);
    assert_eq!(salt_choice_count('.'), 0);
}

#[test]
fn hash_decoy_chars_by_class() {
    assert_eq!(hash_decoy_char('b', 1), 'b');
    assert_eq!(hash_decoy_char('*', 0), 'a');
    assert_eq!(hash_decoy_char('*', 26), 'A');
    assert_eq!(hash_decoy_char('*', 61), '9');
    assert_eq!(hash_decoy_char('+', 2), '*');
    assert_eq!(hash_choice_count('.'), 62);
    assert_eq!(hash_choice_count('x'), 26);
}

fn same_class_salt(c: char, d: char) -> bool {
    if c.is_ascii_lowercase() {
        d.is_ascii_lowercase()
    } else if c.is_ascii_uppercase() {
        d.is_ascii_uppercase()
    } else if c.is_ascii_digit() {
        d.is_ascii_digit()
    } else if "$+/=".contains(c) {
        "&!*-#_".contains(d)
    } else {
        d == c
    }
}

fn same_class_hash(c: char, d: char) -> bool {
    if c.is_ascii_alphanumeric() || "$+/=".contains(c) {
        same_class_salt(c, d)
    } else {
        d.is_ascii_alphanumeric()
    }
}

#[test]
fn random_decoys_keep_classes() {
    let mut rng = rand::thread_rng();
    let orig: Vec<char> = "aZ9+/=.x".chars().collect();
    for _ in 0..20 {
        let s: Vec<char> = decoy_salt(&mut rng, &orig).chars().collect();
        let h: Vec<char> = decoy_hash(&mut rng, &orig).chars().collect();
        assert_eq!(s.len(), orig.len());
        assert_eq!(h.len(), orig.len());
        for j in 0..orig.len() {
            assert!(same_class_salt(orig[j], s[j]));
            assert!(same_class_hash(orig[j], h[j]));
        }
        assert_eq!(s[6], '.');
    }
}

#[test]
fn line_and_hash_texts() {
    assert_eq!(hash_line_text(7, "abc"), r#""master_hash_7": "abc""#);
    assert_eq!(hash_line_text(100, ""), r#""master_hash_100": """#);
    assert_eq!(fake_hash_string('q', "s1", "h2"), "$argon2id$v=19$m=262144,t=4,p=q$s1$h2");
}

#[test]
fn join_lines_with_separator() {
    let v: Vec<String> = vec!["a".into(), "b".into(), "c".into()];
    assert_eq!(join_lines(&v, ", "), "a, b, c");
    assert_eq!(join_lines(&vec!["only".to_string()], ", "), "only");
    assert_eq!(join_lines(&Vec::new(), ", "), "");
}

#[test]
fn assemble_exact_text() {
    let lines: Vec<String> = vec!["L1".into(), "L2".into()];
    let text = assemble_vault_text(&lines, "abcd", "[]", true);
    assert_eq!(
        text,
        "{\n  L1,\n  L2,\n\n  \"salt\": \"abcd\",\n\n  \"entries\": [],\n\n  \"first_setup\": true\n}"
    );
    let text = assemble_vault_text(&lines, "s", "[x]", false);
    assert!(text.ends_with("\"first_setup\": false\n}"));
}

fn parse_line(line: &str) -> (u32, String) {
    let rest = line.strip_prefix("\"master_hash_").unwrap();
    let (num, value) = rest.split_once("\": \"").unwrap();
    (num.parse().unwrap(), value.strip_suffix('"').unwrap().to_string())
}

fn check_decoy(value: &str, letter: char) {
    let real: Vec<&str> = MASTER.split('$').collect();
    let fake: Vec<&str> = value.split('$').collect();
    assert_eq!(fake.len(), 6);
    assert_eq!(fake[3], format!("m=262144,t=4,p={}", letter));
    let (rs, fs): (Vec<char>, Vec<char>) = (real[4].chars().collect(), fake[4].chars().collect());
    assert_eq!(rs.len(), fs.len());
    for j in 0..rs.len() {
        assert!(same_class_salt(rs[j], fs[j]));
    }
    let (rh, fh): (Vec<char>, Vec<char>) = (real[5].chars().collect(), fake[5].chars().collect());
    assert_eq!(rh.len(), fh.len());
    for j in 0..rh.len() {
        assert!(same_class_hash(rh[j], fh[j]));
    }
}

#[test]
fn hash_lines_in_creation_order() {
    let mut rng = rand::thread_rng();
    let lines = hash_lines(&mut rng, MASTER);
    assert_eq!(lines.len(), 100);
    let parsed: Vec<(u32, String)> = lines.iter().map(|l| parse_line(l)).collect();
    assert_eq!(parsed[99], (93, MASTER.to_string()));
    let first = parsed[0].1.split('$').nth(3).unwrap().chars().last().unwrap();
    for (k, (key, value)) in parsed[..99].iter().enumerate() {
        let expected_key = if k < 92 { k + 1 } else { k + 2 };
        assert_eq!(*key as usize, expected_key);
        let letter = (b'a' + ((first as u8 - b'a') + k as u8) % 26) as char;
        check_decoy(value, letter);
    }
}

#[test]
fn vault_file_has_each_key_once_and_real_hash_at_93() {
    let data = VaultData {
        master_hash_93: MASTER.to_string(),
        salt: "00112233445566778899aabbccddeeff".to_string(),
        entries: vec![Entry {
            platform: "p".into(),
            account: "a".into(),
            encrypted_password: "e".into(),
        }],
        first_setup: false,
    };
    let text = vault_file_text(&data, "[\n  {}\n]");
    let head = "{\n  ";
    let tail = ",\n\n  \"salt\": \"00112233445566778899aabbccddeeff\",\n\n  \"entries\": [\n  {}\n],\n\n  \"first_setup\": false\n}";
    assert!(text.starts_with(head));
    assert!(text.ends_with(tail));
    let block = &text[head.len()..text.len() - tail.len()];
    let mut by_key = BTreeMap::new();
    for line in block.split(",\n  ") {
        let (key, value) = parse_line(line);
        assert!(by_key.insert(key, value).is_none());
    }
    assert_eq!(by_key.len(), 100);
    assert_eq!(*by_key.keys().next().unwrap(), 1);
    assert_eq!(*by_key.keys().last().unwrap(), 100);
    assert_eq!(by_key[&93], MASTER);
    for (key, value) in &by_key {
        if *key != 93 {
            assert_ne!(value, MASTER);
            let letter = value.split('$').nth(3).unwrap().chars().last().unwrap();
            check_decoy(value, letter);
        }
    }
}

#[test]
fn fresh_vault_data() {
    let d = new_vault_data();
    assert_eq!(d.master_hash_93, "");
    assert!(d.entries.is_empty());
    assert!(d.first_setup);
    assert_eq!(d.salt.len(), 32);
    assert!(d.salt.chars().all(|c| c.is_ascii_digit() || ('a'..='f').contains(&c)));
    assert_ne!(new_vault_data().salt, d.salt);
}
