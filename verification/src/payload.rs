//! Encrypted payload at rest (`.capsule/payloads/{cid}.enc`).
//!
//! Each capsule's payload is encrypted with a key derived from the node's
//! master secret and the capsule_id (HKDF info = domain label || id), so no
//! per-capsule key is stored and one capsule's key exposes no other.
//!
//! ```text
//! offset  size  field
//! 0       8     magic "CPAYLOAD"
//! 8       1     version (0x01)
//! 9       3     reserved (all zero)
//! 12      12    nonce (random per write)
//! 24      N     ciphertext (plaintext + 16-byte auth tag)
//! ```
//!
//! `payload_cid` is the lowercase hex SHA-256 of the ciphertext.

use vstd::prelude::*;

use crate::bytes::{append_bytes, bytes_match_at, tail_to_vec};
use crate::crypto::{
    aead_open, aead_seal, chacha20poly1305_open, chacha20poly1305_seal, hkdf_sha256, hkdf_sha256_32, os_random_bytes,
    sha256, sha256_digest, wipe32,
};
use crate::paths::{join_path, path_join};
use crate::text::hex_lower_spec;

verus! {

pub const PAYLOAD_HEADER_LEN: usize = 24;
pub const PAYLOAD_VERSION: u8 = 1;

/// `CPAYLOAD`.
pub open spec fn payload_magic() -> Seq<u8> {
    seq![67u8, 80, 65, 89, 76, 79, 65, 68]
}

/// `capsule-node/payload/v1/`.
pub open spec fn payload_domain() -> Seq<u8> {
    seq![99u8, 97, 112, 115, 117, 108, 101, 45, 110, 111, 100, 101, 47, 112, 97, 121, 108, 111, 97, 100, 47, 118, 49, 47]
}

pub open spec fn payloads_name() -> Seq<char> {
    seq!['p', 'a', 'y', 'l', 'o', 'a', 'd', 's']
}

pub open spec fn enc_suffix() -> Seq<char> {
    seq!['.', 'e', 'n', 'c']
}

#[derive(Debug)]
pub enum PayloadError {
    Io(std::io::Error),
    Hkdf(String),
    Encrypt,
    Decrypt,
    TooShort { expected: usize, got: usize },
    BadMagic,
    UnsupportedVersion(u8),
    /// The operating system's random source failed.
    Rng(String),
}

/// Outcome of a successful write.
pub struct PayloadWritten {
    pub payload_cid: String,
    pub size: u64,
}

pub fn payloads_dir(capsule_dir: &str) -> (r: String)
    ensures
        r@ == path_join(capsule_dir@, payloads_name()),
{
    let name = "payloads";
    proof {
        reveal_strlit("payloads");
    }
    join_path(capsule_dir, name)
}

pub fn payload_path(capsule_dir: &str, capsule_id: &str) -> (r: String)
    ensures
        r@ == path_join(path_join(capsule_dir@, payloads_name()), capsule_id@ + enc_suffix()),
{
    let dir = payloads_dir(capsule_dir);
    let mut file = capsule_id.to_owned();
    let ext = ".enc";
    proof {
        reveal_strlit(".enc");
    }
    file.append(ext);
    join_path(dir.as_str(), file.as_str())
}

/// The HKDF info string of a capsule's payload key: the domain label, then
/// the UTF-8 bytes of the capsule id.
pub open spec fn payload_info(capsule_id: Seq<char>) -> Seq<u8> {
    payload_domain() + vstd::utf8::encode_utf8(capsule_id)
}

/// The key for a capsule's payload.
pub open spec fn payload_key(master: Seq<u8>, capsule_id: Seq<char>) -> Seq<u8> {
    hkdf_sha256_32(master, payload_info(capsule_id))
}

/// Payload keys are bound to their capsule: two different capsule ids give
/// two different HKDF info strings, so no two capsules of a node derive
/// their keys from the same input.
pub proof fn lemma_payload_info_distinct(a: Seq<char>, b: Seq<char>)
    requires
        a != b,
    ensures
        payload_info(a) != payload_info(b),
{
    broadcast use vstd::utf8::encode_utf8_decode_utf8;

    if payload_info(a) == payload_info(b) {
        assert(payload_info(a).skip(24) =~= vstd::utf8::encode_utf8(a));
        assert(payload_info(b).skip(24) =~= vstd::utf8::encode_utf8(b));
        assert(vstd::utf8::decode_utf8(vstd::utf8::encode_utf8(a)) == a);
        assert(vstd::utf8::decode_utf8(vstd::utf8::encode_utf8(b)) == b);
    }
}

/// The bytes of a payload file.
pub open spec fn encode_payload(nonce: Seq<u8>, ciphertext: Seq<u8>) -> Seq<u8> {
    payload_magic() + seq![1u8, 0u8, 0u8, 0u8] + nonce + ciphertext
}

/// The lowercase hex SHA-256 of the ciphertext.
pub open spec fn payload_cid(ciphertext: Seq<u8>) -> Seq<char> {
    hex_lower_spec(sha256_digest(ciphertext))
}

fn derive_payload_key(master_secret: &[u8; 32], capsule_id: &str) -> (r: Result<[u8; 32], PayloadError>)
    ensures
        r is Ok && r->Ok_0@ == payload_key(master_secret@, capsule_id@),
{
    let mut info: Vec<u8> = vec![
        99u8, 97, 112, 115, 117, 108, 101, 45, 110, 111, 100, 101, 47, 112, 97, 121, 108, 111, 97, 100, 47, 118, 49, 47,
    ];
    assert(info@ =~= payload_domain());
    append_bytes(&mut info, capsule_id.as_bytes());
    assert(info@ =~= payload_info(capsule_id@));
    match hkdf_sha256(master_secret, info.as_slice()) {
        Ok(k) => Ok(k),
        Err(e) => Err(PayloadError::Hkdf(e)),
    }
}

/// Lowercase hex SHA-256 of `bytes`.
pub fn sha256_hex(bytes: &[u8]) -> (r: String)
    ensures
        r@ == hex_lower_spec(sha256_digest(bytes@)),
        r@.len() == 64,
{
    let digest = sha256(bytes);
    crate::text::hex_lower(&digest)
}

/// A sealed payload: the file to write and what the write reports.
pub struct SealedPayload {
    pub file_bytes: Vec<u8>,
    pub written: PayloadWritten,
}

/// Encrypt `plaintext` for `capsule_id` under `nonce` and lay out the file.
pub fn seal_payload_with_nonce(
    capsule_id: &str,
    master_secret: &[u8; 32],
    nonce: &[u8; 12],
    plaintext: &[u8],
) -> (r: Result<SealedPayload, PayloadError>)
    ensures
        plaintext@.len() / 64 < 0xFFFF_FFFF <==> r is Ok,
        r is Err ==> r matches Err(PayloadError::Encrypt),
        r matches Ok(s) ==> {
            let c = chacha20poly1305_seal(payload_key(master_secret@, capsule_id@), nonce@, plaintext@);
            &&& s.file_bytes@ == encode_payload(nonce@, c)
            &&& s.file_bytes@.len() == 40 + plaintext@.len()
            &&& s.written.payload_cid@ == payload_cid(c)
            &&& s.written.payload_cid@.len() == 64
            &&& s.written.size == s.file_bytes@.len()
        },
{
    let mut key = derive_payload_key(master_secret, capsule_id)?;
    let sealed = aead_seal(&key, nonce, plaintext);
    wipe32(&mut key);
    let ciphertext = match sealed {
        Ok(c) => c,
        Err(()) => return Err(PayloadError::Encrypt),
    };
    let mut bytes: Vec<u8> = vec![67u8, 80, 65, 89, 76, 79, 65, 68, 1, 0, 0, 0];
    append_bytes(&mut bytes, nonce);
    append_bytes(&mut bytes, ciphertext.as_slice());
    assert(bytes@ =~= encode_payload(nonce@, ciphertext@));
    let payload_cid = sha256_hex(ciphertext.as_slice());
    let size = bytes.len() as u64;
    Ok(SealedPayload { file_bytes: bytes, written: PayloadWritten { payload_cid, size } })
}

/// Encrypt `plaintext` for `capsule_id` under a fresh random nonce.
/// Whatever nonce the random source gave, the file is the payload sealed
/// under that nonce.
pub fn seal_payload(capsule_id: &str, master_secret: &[u8; 32], plaintext: &[u8]) -> (r: Result<
    SealedPayload,
    PayloadError,
>)
    ensures
        r matches Err(e) ==> (e is Encrypt || e is Rng),
        plaintext@.len() / 64 >= 0xFFFF_FFFF ==> r is Err,
        plaintext@.len() / 64 < 0xFFFF_FFFF ==> (r is Ok || r matches Err(PayloadError::Rng(_))),
        r matches Ok(s) ==> exists|nonce: Seq<u8>|
            #![trigger chacha20poly1305_seal(payload_key(master_secret@, capsule_id@), nonce, plaintext@)]
            {
                let c = chacha20poly1305_seal(payload_key(master_secret@, capsule_id@), nonce, plaintext@);
                &&& nonce.len() == 12
                &&& s.file_bytes@ == encode_payload(nonce, c)
                &&& s.file_bytes@.len() == 40 + plaintext@.len()
                &&& s.written.payload_cid@ == payload_cid(c)
                &&& s.written.payload_cid@.len() == 64
                &&& s.written.size == s.file_bytes@.len()
            },
{
    let nonce: [u8; 12] = match os_random_bytes() {
        Ok(b) => b,
        Err(e) => return Err(PayloadError::Rng(e)),
    };
    let r = seal_payload_with_nonce(capsule_id, master_secret, &nonce, plaintext);
    proof {
        if r is Ok {
            let c = chacha20poly1305_seal(payload_key(master_secret@, capsule_id@), nonce@, plaintext@);
            assert(r->Ok_0.file_bytes@ == encode_payload(nonce@, c));
        }
    }
    r
}

/// What reading a payload file decides before decryption.
pub open spec fn payload_header_check(b: Seq<u8>) -> Result<(), PayloadError> {
    if b.len() < 40 {
        Err(PayloadError::TooShort { expected: 40, got: b.len() as usize })
    } else if b.take(8) != payload_magic() {
        Err(PayloadError::BadMagic)
    } else if b[8] != 1 {
        Err(PayloadError::UnsupportedVersion(b[8]))
    } else {
        Ok(())
    }
}

/// Decrypt the bytes of `capsule_id`'s payload file. A file that
/// `seal_payload` wrote for the same capsule and master secret opens to the
/// plaintext that was sealed.
pub fn open_payload(capsule_id: &str, master_secret: &[u8; 32], bytes: &[u8]) -> (r: Result<Vec<u8>, PayloadError>)
    ensures
        payload_header_check(bytes@) matches Err(e) ==> r is Err && r->Err_0 == e,
        payload_header_check(bytes@) is Ok ==> match chacha20poly1305_open(
            payload_key(master_secret@, capsule_id@),
            bytes@.subrange(12, 24),
            bytes@.skip(24),
        ) {
            Some(p) => r is Ok && r->Ok_0@ == p,
            None => r matches Err(PayloadError::Decrypt),
        },
        forall|nonce: Seq<u8>, pt: Seq<u8>|
            nonce.len() == 12 && pt.len() / 64 < 0xFFFF_FFFF && bytes@.len() >= 40 && bytes@ == #[trigger] encode_payload(
                nonce,
                chacha20poly1305_seal(payload_key(master_secret@, capsule_id@), nonce, pt),
            ) ==> r is Ok && r->Ok_0@ == pt,
{
    proof {
        assert forall|nonce: Seq<u8>, pt: Seq<u8>|
            nonce.len() == 12 && pt.len() / 64 < 0xFFFF_FFFF && bytes@.len() >= 40 && bytes@ == #[trigger] encode_payload(
                nonce,
                chacha20poly1305_seal(payload_key(master_secret@, capsule_id@), nonce, pt),
            ) implies bytes@.subrange(12, 24) == nonce && bytes@.skip(24) == chacha20poly1305_seal(
                payload_key(master_secret@, capsule_id@),
                nonce,
                pt,
            ) && bytes@.len() >= 40 && bytes@.take(8) == payload_magic() && bytes@[8] == 1 by {
            let c = chacha20poly1305_seal(payload_key(master_secret@, capsule_id@), nonce, pt);
            assert(bytes@.subrange(12, 24) =~= nonce);
            assert(bytes@.skip(24) =~= c);
            assert(bytes@.take(8) =~= payload_magic());
        }
    }
    let n = bytes.len();
    if n < PAYLOAD_HEADER_LEN + 16 {
        return Err(PayloadError::TooShort { expected: PAYLOAD_HEADER_LEN + 16, got: n });
    }
    let magic: [u8; 8] = [67u8, 80, 65, 89, 76, 79, 65, 68];
    assert(magic@ =~= payload_magic());
    assert(bytes@.subrange(0, 8) =~= bytes@.take(8));
    if !bytes_match_at(bytes, 0, &magic) {
        return Err(PayloadError::BadMagic);
    }
    let version = bytes[8];
    if version != PAYLOAD_VERSION {
        return Err(PayloadError::UnsupportedVersion(version));
    }
    let mut nonce = [0u8; 12];
    let mut i: usize = 0;
    while i < 12
        invariant
            i <= 12,
            n == bytes@.len(),
            n >= 40,
            forall|k: int| 0 <= k < i ==> nonce@[k] == bytes@[12 + k],
        decreases 12 - i,
    {
        nonce[i] = bytes[12 + i];
        i = i + 1;
    }
    assert(nonce@ =~= bytes@.subrange(12, 24));
    let ciphertext = tail_to_vec(bytes, PAYLOAD_HEADER_LEN);
    let mut key = derive_payload_key(master_secret, capsule_id)?;
    let opened = aead_open(&key, &nonce, ciphertext.as_slice());
    wipe32(&mut key);
    match opened {
        Some(p) => Ok(p),
        None => Err(PayloadError::Decrypt),
    }
}

} // verus!
