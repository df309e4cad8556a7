use hkdf::Hkdf;
use k256::ecdsa::SigningKey;
use sha2::Sha256;
use sha3::{Digest, Keccak256};
use capsuled::text::hex_lower;
use capsuled::wallet::{derive_ethereum_address, domain_base_usdc_v1, eip55_from_digest, lowercase_hex_ascii, to_eip55_hex};

#[test]
fn derivation_is_deterministic() {
    let master = [0x42u8; 32];
    let domain = domain_base_usdc_v1();
    let a = derive_ethereum_address(&master, &domain).unwrap();
    let b = derive_ethereum_address(&master, &domain).unwrap();
    assert_eq!(a, b);
    // 0x + 40 hex chars
    assert_eq!(a.len(), 42);
    assert!(a.starts_with("0x"));
}

#[test]
fn different_domains_yield_different_keys() {
    let master = [0x42u8; 32];
    let a = derive_ethereum_address(&master, &domain_base_usdc_v1()).unwrap();
    let b = derive_ethereum_address(&master, b"capsule-node/wallet/other/v1").unwrap();
    assert_ne!(a, b);
}

#[test]
fn different_secrets_yield_different_addresses() {
    let a = derive_ethereum_address(&[0x01u8; 32], &domain_base_usdc_v1()).unwrap();
    let b = derive_ethereum_address(&[0x02u8; 32], &domain_base_usdc_v1()).unwrap();
    assert_ne!(a, b);
}

#[test]
fn known_answer_for_fixed_master_secret() {
    let master = [0u8; 32];
    let addr = derive_ethereum_address(&master, &domain_base_usdc_v1()).unwrap();
    assert_eq!(addr.len(), 42);
    assert!(addr.starts_with("0x"));
    let lower = addr.to_ascii_lowercase();
    assert!(lower[2..].chars().all(|c| c.is_ascii_hexdigit()));
}

#[test]
fn eip55_checksum_has_mixed_case_for_typical_addresses() {
    let master = [0x42u8; 32];
    let addr = derive_ethereum_address(&master, &domain_base_usdc_v1()).unwrap();
    let has_upper = addr.chars().any(|c| c.is_ascii_uppercase());
    let has_lower = addr
        .chars()
        .any(|c| c.is_ascii_lowercase() && !c.is_ascii_digit());
    assert!(has_upper || has_lower);
}

#[test]
fn eip55_spec_vectors() {
    let cases: &[&str] = &[
        "0x5aAeb6053F3E94C9b9A09f33669435E7Ef1BeAed",
        "0xfB6916095ca1df60bB79Ce92cE3Ea74c37c5d359",
        "0xdbF03B407c01E7cD3CBea99509d93f8DDDC8C6FB",
        "0xD1220A0cf47c7B9Be7A2E6BA89F429762e7b9aDb",
    ];
    for expected in cases {
        let lower = expected.to_ascii_lowercase();
        let hex = &lower[2..];
        let bytes: [u8; 20] = (0..20)
            .map(|i| u8::from_str_radix(&hex[i * 2..i * 2 + 2], 16).unwrap())
            .collect::<Vec<u8>>()
            .try_into()
            .unwrap();
        assert_eq!(&to_eip55_hex(&bytes), expected);
    }
}

#[test]
fn domain_label_bytes() {
    assert_eq!(domain_base_usdc_v1(), b"capsule-node/wallet/secp256k1/base-usdc/v1".to_vec());
}

#[test]
fn eip55_changes_letter_case_only() {
    let addr: [u8; 20] = [
        0x5a, 0xae, 0xb6, 0x05, 0x3f, 0x3e, 0x94, 0xc9, 0xb9, 0xa0, 0x9f, 0x33, 0x66, 0x94, 0x35, 0xe7, 0xef, 0x1b,
        0xea, 0xed,
    ];
    let checksummed = to_eip55_hex(&addr);
    assert_eq!(checksummed.to_ascii_lowercase(), format!("0x{}", hex_lower(&addr)));
    assert_ne!(checksummed, format!("0x{}", hex_lower(&addr)));
}

#[test]
fn derivation_matches_the_primitives_composed_by_hand() {
    let master = [0x42u8; 32];
    let domain = domain_base_usdc_v1();
    let mut sk = [0u8; 32];
    Hkdf::<Sha256>::new(None, &master).expand(&domain, &mut sk).unwrap();
    let key = SigningKey::from_slice(&sk).unwrap();
    let point = key.verifying_key().to_encoded_point(false);
    let digest = Keccak256::digest(&point.as_bytes()[1..]);
    let addr: [u8; 20] = digest[12..].try_into().unwrap();
    assert_eq!(derive_ethereum_address(&master, &domain).unwrap(), to_eip55_hex(&addr));
}

#[test]
fn eip55_casing_from_a_given_digest() {
    let expected = "0xfB6916095ca1df60bB79Ce92cE3Ea74c37c5d359";
    let hex = &expected.to_ascii_lowercase()[2..];
    let addr: [u8; 20] = (0..20)
        .map(|i| u8::from_str_radix(&hex[i * 2..i * 2 + 2], 16).unwrap())
        .collect::<Vec<u8>>()
        .try_into()
        .unwrap();
    let ascii = lowercase_hex_ascii(&addr);
    assert_eq!(ascii, hex.as_bytes().to_vec());
    let digest: [u8; 32] = Keccak256::digest(&ascii).into();
    assert_eq!(eip55_from_digest(&addr, &digest), expected);
    assert_eq!(eip55_from_digest(&addr, &[0u8; 32]), format!("0x{hex}"));
    assert_eq!(eip55_from_digest(&addr, &[0xffu8; 32]), format!("0x{}", hex.to_ascii_uppercase()));
}
