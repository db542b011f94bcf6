use xz_pass::kdf::{
    create_hash_with, derive_key_with, get_argon2_strong, phc_params_usable, verify, verify_with,
    Argon2Config,
};

const CHEAP: Argon2Config = Argon2Config { m_cost: 8, t_cost: 1, p_cost: 1 };

#[test]
fn strong_settings() {
    assert_eq!(get_argon2_strong(), Argon2Config { m_cost: 262144, t_cost: 4, p_cost: 2 });
}

#[test]
fn derived_key_is_32_bytes_and_depends_on_inputs() {
    let a = derive_key_with(&CHEAP, "master password", "0123456789abcdef");
    let b = derive_key_with(&CHEAP, "master password", "0123456789abcdef");
    let c = derive_key_with(&CHEAP, "master password", "fedcba9876543210");
    let d = derive_key_with(&CHEAP, "master passwore", "0123456789abcdef");
    assert_eq!(a.len(), 32);
    assert_eq!(a, b);
    assert_ne!(a, c);
    assert_ne!(a, d);
    assert_ne!(a, b"master password".to_vec());
}

#[test]
fn derived_key_matches_argon2_directly() {
    let params = argon2::Params::new(8, 1, 1, None).unwrap();
    let mut out = [0u8; 32];
    argon2::Argon2::new(argon2::Algorithm::Argon2id, argon2::Version::V0x13, params)
        .hash_password_into(b"pw", b"saltsalt", &mut out)
        .unwrap();
    assert_eq!(derive_key_with(&CHEAP, "pw", "saltsalt"), out.to_vec());
}

#[test]
fn created_hash_verifies_only_its_password() {
    let h = create_hash_with(&CHEAP, "correct horse").unwrap();
    assert!(h.starts_with("$argon2id$v=19$m=8,t=1,p=1$"));
    let fields: Vec<&str> = h.split('$').collect();
    assert_eq!(fields.len(), 6);
    assert_eq!(fields[4].len(), 22);
    assert_eq!(fields[5].len(), 43);
    assert!(phc_params_usable(&h));
    assert!(verify_with(&CHEAP, &h, "correct horse"));
    assert!(!verify_with(&CHEAP, &h, "correct horsE"));
    // the strong context checks with the hash's own settings
    assert!(verify(&h, "correct horse"));
    assert_ne!(create_hash_with(&CHEAP, "correct horse").unwrap(), h);
}

#[test]
fn garbage_hash_never_verifies() {
    assert!(!verify("", "x"));
    assert!(!verify("not a hash", "not a hash"));
}

#[test]
fn phc_parallelism_check() {
    assert!(phc_params_usable("$argon2id$v=19$m=262144,t=4,p=2$salt$hash"));
    assert!(phc_params_usable("$argon2id$v=19$m=262144,t=4,p=536870911$s$h"));
    assert!(!phc_params_usable("$argon2id$v=19$m=262144,t=4,p=536870912$s$h"));
    assert!(!phc_params_usable("$argon2id$v=19$p=4294967295,m=8$s$h"));
    // beyond u32 or with a leading zero it is not read as a number at all
    assert!(phc_params_usable("$argon2id$v=19$m=8,p=4294967296$s$h"));
    assert!(phc_params_usable("$argon2id$v=19$m=8,p=0536870912$s$h"));
    // "p=" not at the start of a setting
    assert!(phc_params_usable("$argon2id$v=19$m=8,xp=536870912$s$h"));
    assert!(phc_params_usable(""));
    assert!(phc_params_usable("p"));
}
