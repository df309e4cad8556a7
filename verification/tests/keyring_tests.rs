use argon2::{Algorithm, Argon2, Params, Version};
use chacha20poly1305::aead::Aead;
use chacha20poly1305::{ChaCha20Poly1305, Key, KeyInit, Nonce};
use capsuled::keyring::{
    check_create, create_keyring, identity_dir, keyring_path, parse_keyring, seal_keyring, Argon2Params,
    KeyringError, UnlockedKeyring, HEADER_LEN,
};

/// Weaker Argon2 parameters so the suite runs in reasonable time.
fn test_params() -> Argon2Params {
    Argon2Params { m_cost: 1024, t_cost: 1, p_cost: 1 }
}

fn secret_of(u: &UnlockedKeyring) -> [u8; 32] {
    u.with_secret(|s| *s)
}

#[test]
fn create_load_unlock_roundtrip() {
    let created = create_keyring(b"correct horse battery staple", test_params()).expect("create");
    let handle = created.keyring.expect("handle");
    let created_secret = secret_of(&handle);
    assert_eq!(created.file_bytes.len(), 100);
    let locked = parse_keyring("/k/identity/keyring.enc", &created.file_bytes).expect("load");
    let unlocked = locked.unlock(b"correct horse battery staple").expect("unlock");
    assert_eq!(secret_of(&unlocked), created_secret);
    assert_eq!(unlocked.wallet_address(), handle.wallet_address());
}

#[test]
fn wrong_passphrase_fails_authentication() {
    let created = create_keyring(b"correct", test_params()).expect("create");
    let locked = parse_keyring("/k/keyring.enc", &created.file_bytes).expect("load");
    let err = locked.unlock(b"incorrect").err().unwrap();
    assert!(matches!(err, KeyringError::BadPassphrase));
}

#[test]
fn tampered_ciphertext_fails_authentication() {
    let created = create_keyring(b"correct", test_params()).expect("create");
    let mut bytes = created.file_bytes.clone();
    bytes[HEADER_LEN + 1] ^= 0x01;
    let locked = parse_keyring("/k/keyring.enc", &bytes).expect("load");
    let err = locked.unlock(b"correct").err().unwrap();
    assert!(matches!(err, KeyringError::BadPassphrase));
}

#[test]
fn empty_passphrase_is_rejected() {
    let err = create_keyring(b"", test_params()).err().unwrap();
    assert!(matches!(err, KeyringError::EmptyPassphrase));
    let sealed = seal_keyring(b"x", test_params(), &[1u8; 16], &[2u8; 12], &[3u8; 32]).unwrap();
    let locked = parse_keyring("/k/keyring.enc", &sealed).unwrap();
    assert!(matches!(locked.unlock(b""), Err(KeyringError::EmptyPassphrase)));
}

#[test]
fn create_refuses_to_overwrite() {
    let err = check_create("/k/identity/keyring.enc", b"b", true).unwrap_err();
    assert!(matches!(err, KeyringError::AlreadyExists(_)));
    assert!(check_create("/k/identity/keyring.enc", b"b", false).is_ok());
    assert!(matches!(check_create("/k/keyring.enc", b"", true), Err(KeyringError::EmptyPassphrase)));
}

#[test]
fn bad_magic_is_rejected() {
    let mut bytes = vec![0u8; HEADER_LEN];
    bytes[0..8].copy_from_slice(b"NOTCAPS\0");
    let err = parse_keyring("/k/keyring.enc", &bytes).err().unwrap();
    assert!(matches!(err, KeyringError::BadMagic), "got {err:?}");
}

#[test]
fn short_file_reports_lengths() {
    let err = parse_keyring("/k/keyring.enc", &[0u8; 10]).err().unwrap();
    assert!(matches!(err, KeyringError::TooShort { expected: 52, got: 10 }));
}

#[test]
fn unsupported_version_and_kdf() {
    let sealed = seal_keyring(b"pw", test_params(), &[1u8; 16], &[2u8; 12], &[3u8; 32]).unwrap();
    let mut v2 = sealed.clone();
    v2[8] = 2;
    assert!(matches!(parse_keyring("/k", &v2), Err(KeyringError::UnsupportedVersion(2))));
    let mut kdf = sealed.clone();
    kdf[9] = 7;
    assert!(matches!(parse_keyring("/k", &kdf), Err(KeyringError::UnsupportedKdf(7, 1))));
}

#[test]
fn sealed_file_layout() {
    let sealed = seal_keyring(b"pw", test_params(), &[0xAA; 16], &[0xBB; 12], &[7u8; 32]).unwrap();
    assert_eq!(sealed.len(), 100);
    assert_eq!(&sealed[0..8], b"CAPSULE\0");
    assert_eq!(&sealed[8..12], &[1, 1, 0, 0]);
    assert_eq!(&sealed[12..16], &1024u32.to_le_bytes());
    assert_eq!(&sealed[16..20], &1u32.to_le_bytes());
    assert_eq!(&sealed[20..24], &1u32.to_le_bytes());
    assert_eq!(&sealed[24..40], &[0xAA; 16]);
    assert_eq!(&sealed[40..52], &[0xBB; 12]);
    let locked = parse_keyring("/k/keyring.enc", &sealed).unwrap();
    assert_eq!(locked.path(), "/k/keyring.enc");
    assert_eq!(locked.kdf_params(), test_params());
    let unlocked = locked.unlock(b"pw").unwrap();
    assert_eq!(secret_of(&unlocked), [7u8; 32]);
}

#[test]
fn invalid_kdf_params_are_kdf_params_errors() {
    let err = seal_keyring(b"pw", Argon2Params { m_cost: 4, t_cost: 1, p_cost: 1 }, &[1; 16], &[2; 12], &[3; 32])
        .unwrap_err();
    assert!(matches!(err, KeyringError::KdfParams(_)));
    let err = seal_keyring(b"pw", Argon2Params { m_cost: 1024, t_cost: 0, p_cost: 1 }, &[1; 16], &[2; 12], &[3; 32])
        .unwrap_err();
    assert!(matches!(err, KeyringError::KdfParams(_)));
}

#[test]
fn default_params_match_owasp_minimums() {
    assert_eq!(Argon2Params::default(), Argon2Params { m_cost: 65536, t_cost: 3, p_cost: 1 });
}

#[test]
fn keyring_paths() {
    assert_eq!(identity_dir("/v/.capsule"), "/v/.capsule/identity");
    assert_eq!(keyring_path("/v/.capsule"), "/v/.capsule/identity/keyring.enc");
    assert_eq!(keyring_path(""), "identity/keyring.enc");
}

#[test]
fn unlocked_keyring_handle() {
    let mut u = UnlockedKeyring::from_bytes([0x42u8; 32]).unwrap();
    assert!(!u.is_mlocked());
    u.set_mlocked();
    assert!(u.is_mlocked());
    assert_eq!(u.wallet_address().len(), 42);
    assert_eq!(secret_of(&u), [0x42u8; 32]);
}

#[test]
fn sealed_keyring_matches_the_primitives_composed_by_hand() {
    let salt = [0x11u8; 16];
    let nonce = [0x22u8; 12];
    let master = [0x33u8; 32];
    let params = Params::new(1024, 1, 1, Some(32)).unwrap();
    let mut kek = [0u8; 32];
    Argon2::new(Algorithm::Argon2id, Version::V0x13, params).hash_password_into(b"pw", &salt, &mut kek).unwrap();
    let ciphertext =
        ChaCha20Poly1305::new(Key::from_slice(&kek)).encrypt(Nonce::from_slice(&nonce), &master[..]).unwrap();
    let sealed = seal_keyring(b"pw", test_params(), &salt, &nonce, &master).unwrap();
    assert_eq!(&sealed[HEADER_LEN..], &ciphertext[..]);
}

#[test]
fn oversized_parallelism_is_a_kdf_params_error() {
    let huge = Argon2Params { m_cost: 1024, t_cost: 1, p_cost: 0x2000_0000 };
    let err = seal_keyring(b"pw", huge, &[1; 16], &[2; 12], &[3; 32]).unwrap_err();
    assert!(matches!(err, KeyringError::KdfParams(_)));
    let mut sealed = seal_keyring(b"pw", test_params(), &[1; 16], &[2; 12], &[3; 32]).unwrap();
    sealed[20..24].copy_from_slice(&0xFFFF_FFFFu32.to_le_bytes());
    let locked = parse_keyring("/k/keyring.enc", &sealed).unwrap();
    assert!(matches!(locked.unlock(b"pw"), Err(KeyringError::KdfParams(_))));
    assert!(matches!(locked.unlock(b""), Err(KeyringError::EmptyPassphrase)));
    assert!(matches!(create_keyring(b"pw", huge), Err(KeyringError::KdfParams(_))));
}
