//! Deterministic wallet derivation from the keyring's master secret.
//!
//! The node's Ethereum payout address is HKDF-SHA256 of the master secret
//! under a fixed domain label, read as a secp256k1 private key; the address
//! is the last 20 bytes of the Keccak-256 of the uncompressed public key
//! (without its `0x04` tag), written with the EIP-55 checksum.

use vstd::prelude::*;

use crate::bytes::tail_to_vec;
use crate::crypto::{
    hkdf_sha256, hkdf_sha256_32, keccak256, keccak256_digest, secp256k1_public_key,
    secp256k1_public_uncompressed, valid_secp256k1_scalar, wipe32,
};
use crate::text::{hex_digit, hex_lower_spec, nibble, push_char};

verus! {

/// Domain label of the Ethereum/Base payout key: the bytes of
/// `capsule-node/wallet/secp256k1/base-usdc/v1`. Any future key derived
/// from the master secret picks its own label.
pub open spec fn domain_base_usdc_v1_spec() -> Seq<u8> {
    seq![
        99u8, 97, 112, 115, 117, 108, 101, 45, 110, 111, 100, 101, 47, 119, 97, 108, 108, 101, 116, 47,
        115, 101, 99, 112, 50, 53, 54, 107, 49, 47, 98, 97, 115, 101, 45, 117, 115, 100, 99, 47, 118, 49,
    ]
}

/// The payout-key domain label as bytes.
pub fn domain_base_usdc_v1() -> (r: Vec<u8>)
    ensures
        r@ == domain_base_usdc_v1_spec(),
{
    let r: Vec<u8> = vec![
        99u8, 97, 112, 115, 117, 108, 101, 45, 110, 111, 100, 101, 47, 119, 97, 108, 108, 101, 116, 47,
        115, 101, 99, 112, 50, 53, 54, 107, 49, 47, 98, 97, 115, 101, 45, 117, 115, 100, 99, 47, 118, 49,
    ];
    assert(r@ =~= domain_base_usdc_v1_spec());
    r
}

#[derive(Debug)]
pub enum WalletError {
    Hkdf(String),
    InvalidScalar,
}

/// ASCII bytes of a character string.
pub open spec fn ascii_bytes(cs: Seq<char>) -> Seq<u8> {
    Seq::new(cs.len(), |i: int| (cs[i] as u32) as u8)
}

/// The nibble of the checksum hash that governs position `i` of the hex
/// address.
pub open spec fn checksum_nibble(hash: Seq<u8>, i: int) -> int {
    nibble(hash[i / 2], i % 2 == 1)
}

/// A hex digit keeps its case when it is a decimal digit or its checksum
/// nibble is below 8; otherwise the letter is uppercased.
pub open spec fn eip55_char(c: char, check: int) -> char {
    if ('0' <= c && c <= '9') || check < 8 {
        c
    } else {
        ((c as u32) - 32) as char
    }
}

/// EIP-55 with a given checksum digest: `0x`, then the lowercase hex of
/// the address with each letter uppercased where the digest has a high
/// nibble at that position.
pub open spec fn eip55_with_digest(addr: Seq<u8>, digest: Seq<u8>) -> Seq<char> {
    let lower = hex_lower_spec(addr);
    seq!['0', 'x'] + Seq::new(lower.len(), |i: int| eip55_char(lower[i], checksum_nibble(digest, i)))
}

/// EIP-55: the checksum digest is the Keccak-256 of the lowercase hex.
pub open spec fn eip55_spec(addr: Seq<u8>) -> Seq<char> {
    eip55_with_digest(addr, keccak256_digest(ascii_bytes(hex_lower_spec(addr))))
}

/// ASCII lowercase of a character.
pub open spec fn ascii_lower(c: char) -> char {
    if 'A' <= c && c <= 'Z' {
        ((c as u32) + 32) as char
    } else {
        c
    }
}

/// The checksum changes letter case only: lowercased, an EIP-55 address is
/// `0x` followed by the plain lowercase hex of the address bytes.
pub proof fn lemma_eip55_only_changes_case(addr: Seq<u8>)
    ensures
        eip55_spec(addr).len() == 2 + 2 * addr.len(),
        eip55_spec(addr).map_values(|c: char| ascii_lower(c)) == seq!['0', 'x'] + hex_lower_spec(addr),
{
    lemma_eip55_digest_only_changes_case(addr, keccak256_digest(ascii_bytes(hex_lower_spec(addr))));
}

/// Whatever the checksum digest, the checksum changes letter case only.
pub proof fn lemma_eip55_digest_only_changes_case(addr: Seq<u8>, digest: Seq<u8>)
    ensures
        eip55_with_digest(addr, digest).len() == 2 + 2 * addr.len(),
        eip55_with_digest(addr, digest).map_values(|c: char| ascii_lower(c)) == seq!['0', 'x'] + hex_lower_spec(
            addr,
        ),
{
    let lower = hex_lower_spec(addr);
    let e = eip55_with_digest(addr, digest);
    assert forall|i: int| 0 <= i < lower.len() implies ascii_lower(
        #[trigger] eip55_char(lower[i], checksum_nibble(digest, i)),
    ) == lower[i] by {
        let v = nibble(addr[i / 2], i % 2 == 1);
        assert(0 <= v < 16);
        assert(lower[i] == hex_digit(v));
    }
    let m = e.map_values(|c: char| ascii_lower(c));
    let want = seq!['0', 'x'] + lower;
    assert forall|i: int| 0 <= i < e.len() implies #[trigger] m[i] == want[i] by {
        if i >= 2 {
            assert(e[i] == eip55_char(lower[i - 2], checksum_nibble(digest, i - 2)));
        }
    }
    assert(m =~= want);
}

/// EIP-55 casing: position `i` of the hex is uppercase exactly when it is
/// a letter and the digest's nibble at `i` (the high nibble of byte `i / 2`
/// for even `i`, the low one for odd `i`) is 8 or more; otherwise it is the
/// lowercase hex digit.
pub proof fn lemma_eip55_casing(addr: Seq<u8>, digest: Seq<u8>, i: int)
    requires
        0 <= i < 2 * addr.len(),
    ensures
        ({
            let c = eip55_with_digest(addr, digest)[i + 2];
            let l = hex_lower_spec(addr)[i];
            let n = if i % 2 == 0 {
                digest[i / 2] / 16
            } else {
                digest[i / 2] % 16
            };
            &&& ('A' <= c && c <= 'F') <==> ('a' <= l && l <= 'f' && n >= 8)
            &&& !('A' <= c && c <= 'F') ==> c == l
            &&& ('A' <= c && c <= 'F') ==> (c as int) + 32 == (l as int)
        }),
{
    let v = nibble(addr[i / 2], i % 2 == 1);
    assert(0 <= v < 16);
    assert(hex_lower_spec(addr)[i] == hex_digit(v));
    assert(eip55_with_digest(addr, digest)[i + 2] == eip55_char(hex_lower_spec(addr)[i], checksum_nibble(digest, i)));
}

/// An ASCII hex digit, in either case.
pub open spec fn is_hex_char(c: char) -> bool {
    ('0' <= c && c <= '9') || ('a' <= c && c <= 'f') || ('A' <= c && c <= 'F')
}

/// The shape of an EIP-55 address text: `0x`, then two hex digits per
/// address byte.
pub open spec fn eip55_shaped(t: Seq<char>, n: nat) -> bool {
    &&& t.len() == 2 + 2 * n
    &&& t[0] == '0' && t[1] == 'x'
    &&& forall|i: int| 2 <= i < t.len() ==> is_hex_char(#[trigger] t[i])
}

/// Every EIP-55 text has that shape, whatever the checksum digest.
pub proof fn lemma_eip55_shape(addr: Seq<u8>, digest: Seq<u8>)
    ensures
        eip55_shaped(eip55_with_digest(addr, digest), addr.len()),
{
    let lower = hex_lower_spec(addr);
    let e = eip55_with_digest(addr, digest);
    assert forall|i: int| 2 <= i < e.len() implies is_hex_char(#[trigger] e[i]) by {
        let v = nibble(addr[(i - 2) / 2], (i - 2) % 2 == 1);
        assert(0 <= v < 16);
        assert(lower[i - 2] == hex_digit(v));
        assert(e[i] == eip55_char(lower[i - 2], checksum_nibble(digest, i - 2)));
    }
}

/// The 20 address bytes of an uncompressed public key.
pub open spec fn address_bytes(public_key: Seq<u8>) -> Seq<u8> {
    keccak256_digest(public_key.skip(1)).skip(12)
}

/// The signing key for `domain`.
pub open spec fn derived_signing_key(master: Seq<u8>, domain: Seq<u8>) -> Seq<u8> {
    hkdf_sha256_32(master, domain)
}

/// The checksummed address for a master secret and domain, or `None` when
/// the derived bytes are not a secp256k1 scalar.
pub open spec fn derived_address(master: Seq<u8>, domain: Seq<u8>) -> Option<Seq<char>> {
    let sk = derived_signing_key(master, domain);
    if valid_secp256k1_scalar(sk) {
        Some(eip55_spec(address_bytes(secp256k1_public_uncompressed(sk))))
    } else {
        None
    }
}

/// The ASCII code of the lowercase hex digit for `v`.
fn hex_ascii(v: u8) -> (r: u8)
    requires
        v < 16,
    ensures
        r == (hex_digit(v as int) as u32) as u8,
{
    if v < 10 {
        48u8 + v
    } else {
        87u8 + v
    }
}

/// The ASCII bytes of the lowercase hex of an address: what the EIP-55
/// checksum hashes.
pub fn lowercase_hex_ascii(addr: &[u8; 20]) -> (r: Vec<u8>)
    ensures
        r@ == ascii_bytes(hex_lower_spec(addr@)),
{
    let ghost lower = hex_lower_spec(addr@);
    let mut ascii: Vec<u8> = Vec::new();
    let mut i: usize = 0;
    while i < 40
        invariant
            i <= 40,
            lower == hex_lower_spec(addr@),
            addr@.len() == 20,
            ascii@.len() == i,
            forall|k: int| 0 <= k < i ==> ascii@[k] == ((#[trigger] lower[k]) as u32) as u8,
        decreases 40 - i,
    {
        let b = addr[i / 2];
        let v = if i % 2 == 0 {
            b / 16
        } else {
            b % 16
        };
        ascii.push(hex_ascii(v));
        i = i + 1;
    }
    assert(ascii@ =~= ascii_bytes(lower));
    ascii
}

/// The EIP-55 text of an address, given the Keccak-256 digest of its
/// lowercase hex.
pub fn eip55_from_digest(addr: &[u8; 20], digest: &[u8; 32]) -> (r: String)
    ensures
        r@ == eip55_with_digest(addr@, digest@),
        eip55_shaped(r@, 20),
{
    proof {
        lemma_eip55_shape(addr@, digest@);
    }
    let ghost lower = hex_lower_spec(addr@);
    let mut out = String::new();
    push_char(&mut out, '0');
    push_char(&mut out, 'x');
    let ghost expected = Seq::new(lower.len(), |k: int| eip55_char(lower[k], checksum_nibble(digest@, k)));
    let mut j: usize = 0;
    while j < 40
        invariant
            j <= 40,
            lower == hex_lower_spec(addr@),
            addr@.len() == 20,
            digest@.len() == 32,
            expected == Seq::new(lower.len(), |k: int| eip55_char(lower[k], checksum_nibble(digest@, k))),
            out@ == seq!['0', 'x'] + expected.take(j as int),
        decreases 40 - j,
    {
        let b = addr[j / 2];
        let v = if j % 2 == 0 {
            b / 16
        } else {
            b % 16
        };
        let h = digest[j / 2];
        let check = if j % 2 == 0 {
            h / 16
        } else {
            h % 16
        };
        let c = if v < 10 {
            ((48u8 + v) as char)
        } else if check < 8 {
            ((87u8 + v) as char)
        } else {
            ((55u8 + v) as char)
        };
        assert(lower[j as int] == hex_digit(v as int));
        assert(c == expected[j as int]);
        push_char(&mut out, c);
        j = j + 1;
        assert(out@ =~= seq!['0', 'x'] + expected.take(j as int));
    }
    assert(expected.take(40) =~= expected);
    out
}

/// EIP-55 checksummed hex (`0x` + 40 digits) of a 20-byte address.
pub fn to_eip55_hex(addr: &[u8; 20]) -> (r: String)
    ensures
        r@ == eip55_spec(addr@),
        eip55_shaped(r@, 20),
{
    let ascii = lowercase_hex_ascii(addr);
    let digest = keccak256(ascii.as_slice());
    eip55_from_digest(addr, &digest)
}

/// Derive the 0x-prefixed, EIP-55-checksummed Ethereum address for a
/// master secret and domain label. The intermediate signing key is wiped
/// before returning.
pub fn derive_ethereum_address(master_secret: &[u8; 32], domain: &[u8]) -> (r: Result<String, WalletError>)
    ensures
        match derived_address(master_secret@, domain@) {
            Some(a) => r is Ok && r->Ok_0@ == a,
            None => r matches Err(WalletError::InvalidScalar),
        },
        r matches Ok(a) ==> eip55_shaped(a@, 20),
{
    let mut signing_key = match hkdf_sha256(master_secret, domain) {
        Ok(k) => k,
        Err(e) => return Err(WalletError::Hkdf(e)),
    };
    let public = match secp256k1_public_key(&signing_key) {
        Some(p) => p,
        None => {
            wipe32(&mut signing_key);
            return Err(WalletError::InvalidScalar);
        },
    };
    wipe32(&mut signing_key);
    let point = tail_to_vec(public.as_slice(), 1);
    let digest = keccak256(point.as_slice());
    let mut addr = [0u8; 20];
    let mut i: usize = 0;
    while i < 20
        invariant
            i <= 20,
            digest@.len() == 32,
            addr@.len() == 20,
            forall|k: int| 0 <= k < i ==> addr@[k] == digest@[12 + k],
        decreases 20 - i,
    {
        addr[i] = digest[12 + i];
        i = i + 1;
    }
    assert(addr@ =~= digest@.skip(12));
    Ok(to_eip55_hex(&addr))
}

} // verus!
