use chacha20poly1305::aead::Aead;
use chacha20poly1305::{ChaCha20Poly1305, Key, KeyInit, Nonce};
use hkdf::Hkdf;
use sha2::{Digest, Sha256};
use capsuled::payload::{open_payload, payload_path, payloads_dir, seal_payload, seal_payload_with_nonce, sha256_hex, PayloadError, PAYLOAD_HEADER_LEN};

#[test]
fn write_read_roundtrip() {
    let master = [7u8; 32];
    let plaintext = br#"{"records":[{"ts":"06:00","mg_dl":95}]}"#;
    let res = seal_payload("cap_abc", &master, plaintext).expect("write");
    assert!(res.written.size > plaintext.len() as u64);
    assert_eq!(res.written.payload_cid.len(), 64);
    let got = open_payload("cap_abc", &master, &res.file_bytes).expect("read");
    assert_eq!(got, plaintext);
}

#[test]
fn different_capsule_ids_yield_different_ciphertexts() {
    let master = [7u8; 32];
    let plaintext = b"same plaintext";
    let nonce = [9u8; 12];
    let a = seal_payload_with_nonce("cap_a", &master, &nonce, plaintext).unwrap();
    let b = seal_payload_with_nonce("cap_b", &master, &nonce, plaintext).unwrap();
    assert_ne!(a.file_bytes, b.file_bytes, "different capsule_id must produce different ciphertext");
}

#[test]
fn wrong_master_fails_auth() {
    let res = seal_payload("cap_x", &[1u8; 32], b"secret records").unwrap();
    let err = open_payload("cap_x", &[2u8; 32], &res.file_bytes).unwrap_err();
    assert!(matches!(err, PayloadError::Decrypt));
}

#[test]
fn payload_of_other_capsule_fails_auth() {
    let res = seal_payload("cap_x", &[1u8; 32], b"secret records").unwrap();
    assert!(matches!(open_payload("cap_y", &[1u8; 32], &res.file_bytes), Err(PayloadError::Decrypt)));
}

#[test]
fn tampered_ciphertext_fails_auth() {
    let master = [3u8; 32];
    let res = seal_payload("cap_t", &master, b"tamper me").unwrap();
    let mut bytes = res.file_bytes.clone();
    bytes[PAYLOAD_HEADER_LEN + 1] ^= 0x01;
    let err = open_payload("cap_t", &master, &bytes).unwrap_err();
    assert!(matches!(err, PayloadError::Decrypt));
}

#[test]
fn sealed_payload_layout_and_cid() {
    let sealed = seal_payload_with_nonce("cap_v", &[11u8; 32], &[5u8; 12], b"v2-a-bit-longer").unwrap();
    assert_eq!(&sealed.file_bytes[0..8], b"CPAYLOAD");
    assert_eq!(&sealed.file_bytes[8..12], &[1, 0, 0, 0]);
    assert_eq!(&sealed.file_bytes[12..24], &[5u8; 12]);
    assert_eq!(sealed.file_bytes.len(), 24 + 15 + 16);
    assert_eq!(sealed.written.size, sealed.file_bytes.len() as u64);
    assert_eq!(sealed.written.payload_cid, sha256_hex(&sealed.file_bytes[24..]));
    let got = open_payload("cap_v", &[11u8; 32], &sealed.file_bytes).unwrap();
    assert_eq!(got, b"v2-a-bit-longer");
}

#[test]
fn header_errors() {
    assert!(matches!(
        open_payload("cap_v", &[0u8; 32], &[0u8; 39]),
        Err(PayloadError::TooShort { expected: 40, got: 39 })
    ));
    let mut bad = vec![0u8; 40];
    bad[0..8].copy_from_slice(b"NOTPAYLD");
    assert!(matches!(open_payload("cap_v", &[0u8; 32], &bad), Err(PayloadError::BadMagic)));
    let mut v9 = vec![0u8; 40];
    v9[0..8].copy_from_slice(b"CPAYLOAD");
    v9[8] = 9;
    assert!(matches!(open_payload("cap_v", &[0u8; 32], &v9), Err(PayloadError::UnsupportedVersion(9))));
}

#[test]
fn sha256_hex_known_answers() {
    assert_eq!(sha256_hex(b""), "e3b0c44298fc1c149afbf4c8996fb92427ae41e4649b934ca495991b7852b855");
    assert_eq!(sha256_hex(b"abc"), "ba7816bf8f01cfea414140de5dae2223b00361a396177a9cb410ff61f20015ad");
}

#[test]
fn payload_paths() {
    assert_eq!(payloads_dir("/v/.capsule"), "/v/.capsule/payloads");
    assert_eq!(payload_path("/v/.capsule", "cap_abc"), "/v/.capsule/payloads/cap_abc.enc");
}

#[test]
fn sealed_payload_matches_the_primitives_composed_by_hand() {
    let master = [3u8; 32];
    let nonce = [4u8; 12];
    let plaintext = b"records";
    let mut info = b"capsule-node/payload/v1/".to_vec();
    info.extend_from_slice(b"cap_k1");
    let mut key = [0u8; 32];
    Hkdf::<Sha256>::new(None, &master).expand(&info, &mut key).unwrap();
    let ciphertext = ChaCha20Poly1305::new(Key::from_slice(&key))
        .encrypt(Nonce::from_slice(&nonce), &plaintext[..])
        .unwrap();
    let sealed = seal_payload_with_nonce("cap_k1", &master, &nonce, plaintext).unwrap();
    assert_eq!(&sealed.file_bytes[24..], &ciphertext[..]);
    let digest = Sha256::digest(&ciphertext);
    let hex: String = digest.iter().map(|b| format!("{b:02x}")).collect();
    assert_eq!(sealed.written.payload_cid, hex);
}
