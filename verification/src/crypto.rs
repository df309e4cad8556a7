//! The cryptographic primitives the node relies on, each a thin call into
//! the RustCrypto crate that implements it. Nothing here is proved: every
//! item states what the crate's source shows of the call, and the verified
//! modules build on those statements.

use vstd::prelude::*;

use argon2::{Algorithm, Argon2, Params, Version};
use chacha20poly1305::aead::Aead;
use chacha20poly1305::{ChaCha20Poly1305, Key, KeyInit, Nonce};
use hkdf::Hkdf;
use k256::ecdsa::SigningKey;
use rand::RngCore;
use sha2::Sha256;
use sha3::{Digest, Keccak256};
use zeroize::{Zeroize, Zeroizing};

verus! {

/// Argon2id (version 0x13) output of 32 bytes for a passphrase, a salt and
/// the memory / time / parallelism costs.
pub uninterp spec fn argon2id_kek(
    passphrase: Seq<u8>,
    salt: Seq<u8>,
    m_cost: u32,
    t_cost: u32,
    p_cost: u32,
) -> Seq<u8>;

/// ChaCha20-Poly1305 sealing (empty associated data) of a plaintext under a
/// 32-byte key and a 12-byte nonce: the ciphertext followed by the tag.
pub uninterp spec fn chacha20poly1305_seal(key: Seq<u8>, nonce: Seq<u8>, plaintext: Seq<u8>) -> Seq<u8>;

/// ChaCha20-Poly1305 opening (empty associated data): the plaintext, or
/// `None` when the tag does not authenticate.
pub uninterp spec fn chacha20poly1305_open(key: Seq<u8>, nonce: Seq<u8>, ciphertext: Seq<u8>) -> Option<Seq<u8>>;

/// HKDF-SHA256 with no salt: 32 bytes of output keying material for an
/// input keying material and an info string.
pub uninterp spec fn hkdf_sha256_32(ikm: Seq<u8>, info: Seq<u8>) -> Seq<u8>;

/// SHA-256 digest.
pub uninterp spec fn sha256_digest(data: Seq<u8>) -> Seq<u8>;

/// Keccak-256 digest (the pre-standard padding Ethereum uses).
pub uninterp spec fn keccak256_digest(data: Seq<u8>) -> Seq<u8>;

/// SEC1 uncompressed encoding of the secp256k1 public key of a secret scalar.
pub uninterp spec fn secp256k1_public_uncompressed(secret: Seq<u8>) -> Seq<u8>;

/// Big-endian value of a byte string.
pub open spec fn be_value(s: Seq<u8>) -> nat
    decreases s.len(),
{
    if s.len() == 0 {
        0
    } else {
        be_value(s.drop_last()) * 256 + s.last() as nat
    }
}

/// The order of the secp256k1 group.
pub open spec fn secp256k1_order() -> nat {
    0xFFFFFFFFFFFFFFFFFFFFFFFFFFFFFFFEBAAEDCE6AF48A03BBFD25E8CD0364141nat
}

/// A 32-byte string is a secp256k1 secret key when, read big-endian, it is
/// neither zero nor at least the group order.
pub open spec fn valid_secp256k1_scalar(secret: Seq<u8>) -> bool {
    secret.len() == 32 && 0 < be_value(secret) < secp256k1_order()
}

/// Argon2 cost parameters that `argon2::Params::new` accepts.
pub open spec fn argon2_params_ok(m_cost: u32, t_cost: u32, p_cost: u32) -> bool {
    &&& m_cost >= 8
    &&& m_cost >= 8 * p_cost
    &&& t_cost >= 1
    &&& 1 <= p_cost <= 0xFFFFFF
}

/// How an Argon2id derivation failed: the cost parameters were refused, or
/// hashing itself failed (the message is the crate's own).
pub enum KdfFailure {
    InvalidParams(String),
    HashFailed(String),
}

/// Calls `argon2::Params::new(m, t, p, Some(32))`, then
/// `Argon2::new(Argon2id, V0x13, params).hash_password_into`. The claim:
/// the parameters are refused exactly when `argon2_params_ok` fails;
/// with accepted parameters, a passphrase of at most `u32::MAX` bytes and a
/// salt of 8 to `u32::MAX` bytes, hashing succeeds and yields `argon2id_kek`. `requires` keeps `8 * p_cost` inside `u32`,
/// which `Params::new` computes unchecked. Allocation of `m_cost` KiB is
/// not stated: an allocation failure aborts the process.
#[verifier::external_body]
pub(crate) fn argon2id_derive(passphrase: &[u8], salt: &[u8], m_cost: u32, t_cost: u32, p_cost: u32) -> (r: Result<[u8; 32], KdfFailure>)
    requires
        p_cost <= 0x1FFF_FFFF,
    ensures
        (r is Err && r->Err_0 is InvalidParams) <==> !argon2_params_ok(m_cost, t_cost, p_cost),
        r is Ok <==> (argon2_params_ok(m_cost, t_cost, p_cost) && passphrase@.len() <= 0xFFFF_FFFF
            && 8 <= salt@.len() <= 0xFFFF_FFFF),
        r matches Ok(k) ==> k@ == argon2id_kek(passphrase@, salt@, m_cost, t_cost, p_cost),
{
    let params = Params::new(m_cost, t_cost, p_cost, Some(32)).map_err(|e| KdfFailure::InvalidParams(e.to_string()))?;
    let mut out = [0u8; 32];
    Argon2::new(Algorithm::Argon2id, Version::V0x13, params)
        .hash_password_into(passphrase, salt, &mut out)
        .map_err(|e| KdfFailure::HashFailed(e.to_string()))?;
    Ok(out)
}

/// Calls `ChaCha20Poly1305::new(key).encrypt(nonce, plaintext)`. The claim:
/// it fails only when the plaintext spans `u32::MAX` 64-byte blocks or
/// more; otherwise the output is `chacha20poly1305_seal` and is 16 bytes
/// longer than the plaintext.
#[verifier::external_body]
pub(crate) fn aead_seal(key: &[u8; 32], nonce: &[u8; 12], plaintext: &[u8]) -> (r: Result<Vec<u8>, ()>)
    ensures
        r is Ok <==> plaintext@.len() / 64 < 0xFFFF_FFFF,
        r matches Ok(c) ==> c@ == chacha20poly1305_seal(key@, nonce@, plaintext@),
        r matches Ok(c) ==> c@.len() == plaintext@.len() + 16,
{
    ChaCha20Poly1305::new(Key::from_slice(key)).encrypt(Nonce::from_slice(nonce), plaintext).map_err(|_| ())
}

/// Calls `ChaCha20Poly1305::new(key).decrypt(nonce, ciphertext)`. The claim:
/// the result is `chacha20poly1305_open`; a ciphertext shorter than the
/// 16-byte tag never opens; an opened plaintext is 16 bytes shorter than
/// the ciphertext; and a ciphertext that this key and nonce sealed opens to
/// the plaintext that was sealed (the AEAD's correctness).
#[verifier::external_body]
pub(crate) fn aead_open(key: &[u8; 32], nonce: &[u8; 12], ciphertext: &[u8]) -> (r: Option<Vec<u8>>)
    ensures
        r matches Some(p) ==> chacha20poly1305_open(key@, nonce@, ciphertext@) == Some(p@),
        r is None ==> chacha20poly1305_open(key@, nonce@, ciphertext@) is None,
        ciphertext@.len() < 16 ==> r is None,
        r matches Some(p) ==> p@.len() + 16 == ciphertext@.len(),
        forall|pt: Seq<u8>|
            #![trigger chacha20poly1305_seal(key@, nonce@, pt)]
            chacha20poly1305_seal(key@, nonce@, pt) == ciphertext@ && pt.len() / 64 < 0xFFFF_FFFF
                ==> (r is Some && r->Some_0@ == pt),
{
    ChaCha20Poly1305::new(Key::from_slice(key)).decrypt(Nonce::from_slice(nonce), ciphertext).ok()
}

/// Calls `Hkdf::<Sha256>::new(None, ikm).expand(info, &mut [0; 32])`. The
/// claim: expanding 32 bytes never fails (the crate refuses only outputs
/// longer than 255 * 32 bytes), and the output is `hkdf_sha256_32`.
#[verifier::external_body]
pub(crate) fn hkdf_sha256(ikm: &[u8], info: &[u8]) -> (r: Result<[u8; 32], String>)
    ensures
        r is Ok,
        r matches Ok(k) ==> k@ == hkdf_sha256_32(ikm@, info@),
{
    let mut out = [0u8; 32];
    Hkdf::<Sha256>::new(None, ikm).expand(info, &mut out).map_err(|e| e.to_string())?;
    Ok(out)
}

/// Calls `sha2::Sha256::digest`. The claim: the output is `sha256_digest`.
#[verifier::external_body]
pub(crate) fn sha256(data: &[u8]) -> (r: [u8; 32])
    ensures
        r@ == sha256_digest(data@),
{
    Sha256::digest(data).into()
}

/// Calls `sha3::Keccak256::digest`. The claim: the output is
/// `keccak256_digest`.
#[verifier::external_body]
pub(crate) fn keccak256(data: &[u8]) -> (r: [u8; 32])
    ensures
        r@ == keccak256_digest(data@),
{
    Keccak256::digest(data).into()
}

/// Calls `k256::ecdsa::SigningKey::from_slice`, then
/// `verifying_key().to_encoded_point(false)`. The claim: the key is
/// refused exactly when the bytes are not a secp256k1 scalar in
/// `1..order`; otherwise the output is the 65-byte SEC1 uncompressed point,
/// tag `0x04` first.
#[verifier::external_body]
pub(crate) fn secp256k1_public_key(secret: &[u8; 32]) -> (r: Option<Vec<u8>>)
    ensures
        r is Some <==> valid_secp256k1_scalar(secret@),
        r matches Some(p) ==> p@ == secp256k1_public_uncompressed(secret@),
        r matches Some(p) ==> p@.len() == 65 && p@[0] == 4,
{
    let key = SigningKey::from_slice(secret).ok()?;
    Some(key.verifying_key().to_encoded_point(false).as_bytes().to_vec())
}

/// Calls `rand::rngs::OsRng.try_fill_bytes` on a fresh `N`-byte array. The
/// bytes come from the operating system and nothing is stated of them; the
/// call either fills the whole array or reports the failure.
#[verifier::external_body]
pub(crate) fn os_random_bytes<const N: usize>() -> (r: Result<[u8; N], String>)
{
    let mut buf = [0u8; N];
    rand::rngs::OsRng.try_fill_bytes(&mut buf).map_err(|e| e.to_string())?;
    Ok(buf)
}

/// Calls `zeroize::Zeroize::zeroize` on a 32-byte array. The claim: every
/// byte is zero afterwards.
#[verifier::external_body]
pub(crate) fn wipe32(buf: &mut [u8; 32])
    ensures
        final(buf)@ == Seq::new(32, |_i: int| 0u8),
{
    buf.zeroize();
}

/// Calls `zeroize::Zeroize::zeroize` on a byte vector. The claim: the
/// vector is empty afterwards (its former bytes and spare capacity were
/// overwritten with zeros first).
#[verifier::external_body]
pub(crate) fn wipe_vec(buf: &mut Vec<u8>)
    ensures
        final(buf)@.len() == 0,
{
    buf.zeroize();
}

/// Thirty-two secret bytes on the heap, inside `zeroize::Zeroizing`, which
/// overwrites them with zeros when the value is dropped. The bytes are
/// reached only through `secret_bytes_get`, so the heap address stays put
/// for memory locking.
#[verifier::external_body]
pub struct SecretBytes {
    inner: Box<Zeroizing<[u8; 32]>>,
}

/// The 32 bytes a `SecretBytes` holds.
pub uninterp spec fn secret_bytes_of(s: SecretBytes) -> Seq<u8>;

/// Calls `zeroize::Zeroizing::new` on the array and moves the wrapper to
/// the heap. The claim: the result holds the array's bytes.
#[verifier::external_body]
pub(crate) fn secret_bytes_new(value: [u8; 32]) -> (r: SecretBytes)
    ensures
        secret_bytes_of(r) == value@,
{
    SecretBytes { inner: Box::new(Zeroizing::new(value)) }
}

/// Calls `Deref::deref` of `Zeroizing`, which hands out a reference to the
/// wrapped array. The claim: the array holds the bytes of `s`.
#[verifier::external_body]
pub(crate) fn secret_bytes_get(s: &SecretBytes) -> (r: &[u8; 32])
    ensures
        r@ == secret_bytes_of(*s),
{
    &**s.inner
}

} // verus!
