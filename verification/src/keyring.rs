//! Encrypted keyring at rest.
//!
//! The master secret is a 32-byte random key from which wallet keys and
//! other node-identity material are derived. File format
//! (`.capsule/identity/keyring.enc`):
//!
//! ```text
//! offset  size   field
//! 0       8      magic "CAPSULE\0"
//! 8       1      version (0x01)
//! 9       1      kdf_id (0x01 = Argon2id)
//! 10      2      reserved (0x0000)
//! 12      4      argon2_m_cost  (KiB, little-endian u32)
//! 16      4      argon2_t_cost  (iterations, LE u32)
//! 20      4      argon2_p_cost  (parallelism, LE u32)
//! 24      16     salt (random)
//! 40      12     nonce (random, one per file)
//! 52      48     ciphertext = Seal(master_secret) || auth_tag
//! ```
//!
//! A wrong passphrase and a tampered file both surface as `BadPassphrase`:
//! the AEAD tag cannot tell them apart, and callers are not told which.

use vstd::prelude::*;

use crate::bytes::{append_bytes, bytes_match_at, le_bytes, le_value, lemma_le_roundtrip, push_le_u32, tail_to_vec, u32_from_le};
use crate::crypto::{
    aead_open, aead_seal, argon2_params_ok, argon2id_derive, argon2id_kek, chacha20poly1305_open,
    chacha20poly1305_seal, os_random_bytes, wipe32, wipe_vec, secret_bytes_get, secret_bytes_new, secret_bytes_of, SecretBytes,
    KdfFailure,
};
use crate::paths::{join_path, path_join};
use crate::wallet::{derive_ethereum_address, derived_address, domain_base_usdc_v1, domain_base_usdc_v1_spec, WalletError};

verus! {

#[verifier::external_type_specification]
#[verifier::external_body]
pub struct ExIoError(std::io::Error);

pub const MASTER_SECRET_LEN: usize = 32;
pub const SALT_LEN: usize = 16;
pub const NONCE_LEN: usize = 12;
pub const TAG_LEN: usize = 16;
pub const HEADER_LEN: usize = 52;
pub const FILE_LEN: usize = 100;
pub const VERSION: u8 = 1;
pub const KDF_ID_ARGON2ID: u8 = 1;

/// `CAPSULE\0`.
pub open spec fn keyring_magic() -> Seq<u8> {
    seq![67u8, 65, 80, 83, 85, 76, 69, 0]
}

/// Argon2id cost parameters. The defaults match OWASP's recommended
/// minimums for interactive password authentication; readers take the
/// parameters from the file header, so raising them later is safe.
#[derive(Clone, Copy, Debug, PartialEq, Eq, Structural)]
pub struct Argon2Params {
    pub m_cost: u32,
    pub t_cost: u32,
    pub p_cost: u32,
}

impl Argon2Params {
    /// 64 MiB of memory, 3 passes, 1 lane.
    pub fn default() -> (r: Argon2Params)
        ensures
            r == (Argon2Params { m_cost: 65536, t_cost: 3, p_cost: 1 }),
    {
        Argon2Params { m_cost: 65536, t_cost: 3, p_cost: 1 }
    }
}

pub open spec fn params_ok(p: Argon2Params) -> bool {
    argon2_params_ok(p.m_cost, p.t_cost, p.p_cost)
}

#[derive(Debug)]
pub enum KeyringError {
    Io(std::io::Error),
    AlreadyExists(String),
    NotFound(String),
    TooShort { expected: usize, got: usize },
    BadMagic,
    UnsupportedVersion(u8),
    UnsupportedKdf(u8, u8),
    KdfParams(String),
    KdfRun(String),
    /// Covers wrong passphrase AND tampering: ChaCha20Poly1305 can't tell
    /// which, and callers are not told that distinction.
    BadPassphrase,
    Mlock(std::io::Error),
    EmptyPassphrase,
    WalletDerive(WalletError),
    /// The operating system's random source failed.
    Rng(String),
}

pub fn identity_dir(capsule_dir: &str) -> (r: String)
    ensures
        r@ == path_join(capsule_dir@, identity_name()),
{
    let name = "identity";
    proof {
        reveal_strlit("identity");
    }
    join_path(capsule_dir, name)
}

pub fn keyring_path(capsule_dir: &str) -> (r: String)
    ensures
        r@ == path_join(path_join(capsule_dir@, identity_name()), keyring_file_name()),
{
    let dir = identity_dir(capsule_dir);
    let name = "keyring.enc";
    proof {
        reveal_strlit("keyring.enc");
    }
    join_path(dir.as_str(), name)
}

pub open spec fn identity_name() -> Seq<char> {
    seq!['i', 'd', 'e', 'n', 't', 'i', 't', 'y']
}

pub open spec fn keyring_file_name() -> Seq<char> {
    seq!['k', 'e', 'y', 'r', 'i', 'n', 'g', '.', 'e', 'n', 'c']
}

/// The bytes of a keyring file.
pub open spec fn encode_keyring(params: Argon2Params, salt: Seq<u8>, nonce: Seq<u8>, ciphertext: Seq<u8>) -> Seq<u8> {
    keyring_magic() + seq![1u8, 1u8, 0u8, 0u8] + le_bytes(params.m_cost) + le_bytes(params.t_cost)
        + le_bytes(params.p_cost) + salt + nonce + ciphertext
}

/// A parsed keyring file.
pub struct LockedKeyringView {
    pub path: Seq<char>,
    pub params: Argon2Params,
    pub salt: Seq<u8>,
    pub nonce: Seq<u8>,
    pub ciphertext: Seq<u8>,
}

/// What `load` decides for the bytes of a keyring file.
pub open spec fn parse_keyring_spec(path: Seq<char>, b: Seq<u8>) -> Result<LockedKeyringView, KeyringError> {
    if b.len() < 52 {
        Err(KeyringError::TooShort { expected: 52, got: b.len() as usize })
    } else if b.take(8) != keyring_magic() {
        Err(KeyringError::BadMagic)
    } else if b[8] != 1 {
        Err(KeyringError::UnsupportedVersion(b[8]))
    } else if b[9] != 1 {
        Err(KeyringError::UnsupportedKdf(b[9], 1))
    } else {
        Ok(
            LockedKeyringView {
                path,
                params: Argon2Params {
                    m_cost: le_value(b.subrange(12, 16)),
                    t_cost: le_value(b.subrange(16, 20)),
                    p_cost: le_value(b.subrange(20, 24)),
                },
                salt: b.subrange(24, 40),
                nonce: b.subrange(40, 52),
                ciphertext: b.skip(52),
            },
        )
    }
}

/// A keyring file parsed but not decrypted: KDF parameters, salt, nonce and
/// ciphertext, so `unlock` need not read the file again.
pub struct LockedKeyring {
    path: String,
    kdf_params: Argon2Params,
    salt: [u8; 16],
    nonce: [u8; 12],
    ciphertext: Vec<u8>,
}

impl View for LockedKeyring {
    type V = LockedKeyringView;

    closed spec fn view(&self) -> LockedKeyringView {
        LockedKeyringView {
            path: self.path@,
            params: self.kdf_params,
            salt: self.salt@,
            nonce: self.nonce@,
            ciphertext: self.ciphertext@,
        }
    }
}

/// A decrypted master secret.
pub struct UnlockedKeyringView {
    pub secret: Seq<u8>,
    pub wallet_address: Seq<char>,
    pub mlocked: bool,
}

/// Decrypted master secret together with the payout address derived from
/// it. There is no `Debug` or `Display`; callers reach the secret only
/// through `with_secret`, which scopes the reference. The secret lives on
/// the heap, so that its address stays put for memory locking, inside a
/// `Zeroizing` that overwrites it when the keyring is dropped.
pub struct UnlockedKeyring {
    secret: SecretBytes,
    wallet_address: String,
    mlocked: bool,
}

impl View for UnlockedKeyring {
    type V = UnlockedKeyringView;

    closed spec fn view(&self) -> UnlockedKeyringView {
        UnlockedKeyringView {
            secret: secret_bytes_of(self.secret),
            wallet_address: self.wallet_address@,
            mlocked: self.mlocked,
        }
    }
}

/// What `UnlockedKeyring::from_bytes(secret)` gives: a keyring holding the
/// secret and its payout address, or the wallet error.
pub open spec fn unlocked_from(r: Result<UnlockedKeyring, KeyringError>, secret: Seq<u8>) -> bool {
    match derived_address(secret, domain_base_usdc_v1_spec()) {
        Some(a) => r is Ok && r->Ok_0@ == (UnlockedKeyringView { secret, wallet_address: a, mlocked: false }),
        None => r matches Err(KeyringError::WalletDerive(WalletError::InvalidScalar)),
    }
}

/// The key-encryption key a passphrase yields for a parsed keyring.
pub open spec fn keyring_kek(k: LockedKeyringView, passphrase: Seq<u8>) -> Seq<u8> {
    argon2id_kek(passphrase, k.salt, k.params.m_cost, k.params.t_cost, k.params.p_cost)
}

/// The passphrase is non-empty and the KDF accepts it with these
/// parameters: sealing and unlocking get as far as the cipher.
pub open spec fn kdf_accepts(params: Argon2Params, passphrase: Seq<u8>) -> bool {
    passphrase.len() > 0 && params_ok(params) && passphrase.len() <= 0xFFFF_FFFF
}

/// `unlock` gets as far as decryption.
pub open spec fn unlock_reaches_decrypt(k: LockedKeyringView, passphrase: Seq<u8>) -> bool {
    kdf_accepts(k.params, passphrase)
}

impl UnlockedKeyring {
    /// Take ownership of a master secret: derive its payout address, move
    /// the bytes to the heap and wipe the caller's copy.
    pub fn from_bytes(secret: [u8; 32]) -> (r: Result<UnlockedKeyring, KeyringError>)
        ensures
            unlocked_from(r, secret@),
    {
        let mut secret = secret;
        let boxed = secret_bytes_new(secret);
        wipe32(&mut secret);
        let domain = domain_base_usdc_v1();
        let address = match derive_ethereum_address(secret_bytes_get(&boxed), domain.as_slice()) {
            Ok(a) => a,
            Err(e) => return Err(KeyringError::WalletDerive(e)),
        };
        Ok(UnlockedKeyring { secret: boxed, wallet_address: address, mlocked: false })
    }

    /// Expose the master secret to a closure; the reference is scoped to
    /// the call.
    pub fn with_secret<R>(&self, f: impl FnOnce(&[u8; 32]) -> R) -> (r: R)
        requires
            forall|s: &[u8; 32]| f.requires((s,)),
        ensures
            exists|s: &[u8; 32]| s@ == self@.secret && f.ensures((s,), r),
    {
        let s: &[u8; 32] = secret_bytes_get(&self.secret);
        let r = f(s);
        assert(s@ == self@.secret && f.ensures((s,), r));
        r
    }

    /// The EIP-55 payout address derived from the master secret.
    pub fn wallet_address(&self) -> (r: &str)
        ensures
            r@ == self@.wallet_address,
    {
        self.wallet_address.as_str()
    }

    /// Whether the secret's pages were locked into memory.
    pub fn is_mlocked(&self) -> (r: bool)
        ensures
            r == self@.mlocked,
    {
        self.mlocked
    }

    /// Record that the secret's pages are locked into memory.
    pub fn set_mlocked(&mut self)
        ensures
            final(self)@ == (UnlockedKeyringView { mlocked: true, ..old(self)@ }),
    {
        self.mlocked = true;
    }
}

/// Derive the key-encryption key with Argon2id. A parallelism so large
/// that eight times it leaves `u32` is refused here, before the cost
/// parameters reach the crate; the message is the one the crate's checks
/// give in that case, in their order.
fn derive_kek(passphrase: &[u8], salt: &[u8; 16], params: Argon2Params) -> (r: Result<[u8; 32], KeyringError>)
    ensures
        !params_ok(params) ==> r matches Err(KeyringError::KdfParams(_)),
        params_ok(params) && passphrase@.len() > 0xFFFF_FFFF ==> r matches Err(KeyringError::KdfRun(_)),
        params_ok(params) && passphrase@.len() <= 0xFFFF_FFFF ==> r is Ok
            && r->Ok_0@ == argon2id_kek(passphrase@, salt@, params.m_cost, params.t_cost, params.p_cost),
{
    if params.p_cost > 0x1FFF_FFFF {
        let msg = if params.m_cost < 8 || params.m_cost < params.p_cost.wrapping_mul(8) {
            "memory cost is too small"
        } else if params.t_cost < 1 {
            "time cost is too small"
        } else {
            "too many threads"
        };
        return Err(KeyringError::KdfParams(msg.to_owned()));
    }
    match argon2id_derive(passphrase, salt, params.m_cost, params.t_cost, params.p_cost) {
        Ok(k) => Ok(k),
        Err(KdfFailure::InvalidParams(msg)) => Err(KeyringError::KdfParams(msg)),
        Err(KdfFailure::HashFailed(msg)) => Err(KeyringError::KdfRun(msg)),
    }
}

/// Encrypt `master` under the passphrase and lay out the keyring file.
pub fn seal_keyring(
    passphrase: &[u8],
    params: Argon2Params,
    salt: &[u8; 16],
    nonce: &[u8; 12],
    master: &[u8; 32],
) -> (r: Result<Vec<u8>, KeyringError>)
    ensures
        !params_ok(params) ==> r matches Err(KeyringError::KdfParams(_)),
        params_ok(params) && passphrase@.len() > 0xFFFF_FFFF ==> r matches Err(KeyringError::KdfRun(_)),
        params_ok(params) && passphrase@.len() <= 0xFFFF_FFFF ==> r is Ok && r->Ok_0@ == encode_keyring(
            params,
            salt@,
            nonce@,
            chacha20poly1305_seal(
                argon2id_kek(passphrase@, salt@, params.m_cost, params.t_cost, params.p_cost),
                nonce@,
                master@,
            ),
        ),
        r matches Ok(b) ==> b@.len() == 100,
{
    let mut kek = derive_kek(passphrase, salt, params)?;
    let sealed = aead_seal(&kek, nonce, master);
    wipe32(&mut kek);
    let ciphertext = match sealed {
        Ok(c) => c,
        Err(()) => return Err(KeyringError::BadPassphrase),
    };
    let mut bytes: Vec<u8> = Vec::new();
    bytes.push(67u8);
    bytes.push(65u8);
    bytes.push(80u8);
    bytes.push(83u8);
    bytes.push(85u8);
    bytes.push(76u8);
    bytes.push(69u8);
    bytes.push(0u8);
    bytes.push(VERSION);
    bytes.push(KDF_ID_ARGON2ID);
    bytes.push(0u8);
    bytes.push(0u8);
    push_le_u32(&mut bytes, params.m_cost);
    push_le_u32(&mut bytes, params.t_cost);
    push_le_u32(&mut bytes, params.p_cost);
    append_bytes(&mut bytes, salt);
    append_bytes(&mut bytes, nonce);
    append_bytes(&mut bytes, ciphertext.as_slice());
    assert(bytes@ =~= encode_keyring(params, salt@, nonce@, ciphertext@));
    Ok(bytes)
}

/// Parsing the bytes `seal_keyring` lays out gives back the parameters,
/// salt, nonce and ciphertext that went in.
pub proof fn lemma_keyring_format_roundtrip(
    path: Seq<char>,
    params: Argon2Params,
    salt: Seq<u8>,
    nonce: Seq<u8>,
    ciphertext: Seq<u8>,
)
    requires
        salt.len() == 16,
        nonce.len() == 12,
    ensures
        parse_keyring_spec(path, encode_keyring(params, salt, nonce, ciphertext)) == Ok::<LockedKeyringView, KeyringError>(
            LockedKeyringView { path, params, salt, nonce, ciphertext },
        ),
{
    let b = encode_keyring(params, salt, nonce, ciphertext);
    assert(b.take(8) =~= keyring_magic());
    assert(b.subrange(12, 16) =~= le_bytes(params.m_cost));
    assert(b.subrange(16, 20) =~= le_bytes(params.t_cost));
    assert(b.subrange(20, 24) =~= le_bytes(params.p_cost));
    assert(b.subrange(24, 40) =~= salt);
    assert(b.subrange(40, 52) =~= nonce);
    assert(b.skip(52) =~= ciphertext);
    lemma_le_roundtrip(params.m_cost);
    lemma_le_roundtrip(params.t_cost);
    lemma_le_roundtrip(params.p_cost);
}

/// What `create_keyring` writes, `parse_keyring` reads back, and unlocking
/// it with the passphrase it was created with gives back the master secret
/// that was sealed, whatever the salt, nonce and secret were, for every
/// passphrase and parameters Argon2 accepts: any non-empty passphrase of at
/// most `u32::MAX` bytes.
pub proof fn lemma_keyring_roundtrip(
    path: Seq<char>,
    params: Argon2Params,
    passphrase: Seq<u8>,
    salt: Seq<u8>,
    nonce: Seq<u8>,
    master: Seq<u8>,
    r: Result<UnlockedKeyring, KeyringError>,
)
    requires
        salt.len() == 16,
        nonce.len() == 12,
        master.len() == 32,
        passphrase.len() > 0,
        passphrase.len() <= 0xFFFF_FFFF,
        argon2_params_ok(params.m_cost, params.t_cost, params.p_cost),
        unlock_outcome(
            LockedKeyringView {
                path,
                params,
                salt,
                nonce,
                ciphertext: chacha20poly1305_seal(
                    argon2id_kek(passphrase, salt, params.m_cost, params.t_cost, params.p_cost),
                    nonce,
                    master,
                ),
            },
            passphrase,
            r,
        ),
    ensures
        parse_keyring_spec(
            path,
            encode_keyring(
                params,
                salt,
                nonce,
                chacha20poly1305_seal(
                    argon2id_kek(passphrase, salt, params.m_cost, params.t_cost, params.p_cost),
                    nonce,
                    master,
                ),
            ),
        ) == Ok::<LockedKeyringView, KeyringError>(
            LockedKeyringView {
                path,
                params,
                salt,
                nonce,
                ciphertext: chacha20poly1305_seal(
                    argon2id_kek(passphrase, salt, params.m_cost, params.t_cost, params.p_cost),
                    nonce,
                    master,
                ),
            },
        ),
        unlocked_from(r, master),
{
    let c = chacha20poly1305_seal(argon2id_kek(passphrase, salt, params.m_cost, params.t_cost, params.p_cost), nonce, master);
    lemma_keyring_format_roundtrip(path, params, salt, nonce, c);
    let k = LockedKeyringView { path, params, salt, nonce, ciphertext: c };
    assert(keyring_kek(k, passphrase) == argon2id_kek(passphrase, salt, params.m_cost, params.t_cost, params.p_cost));
    assert(unlock_reaches_decrypt(k, passphrase));
    assert(chacha20poly1305_seal(keyring_kek(k, passphrase), k.nonce, master) == k.ciphertext);
}

/// Parse the bytes of the keyring file at `path`. Does not decrypt.
pub fn parse_keyring(path: &str, bytes: &[u8]) -> (r: Result<LockedKeyring, KeyringError>)
    ensures
        match parse_keyring_spec(path@, bytes@) {
            Ok(v) => r is Ok && r->Ok_0@ == v,
            Err(e) => r is Err && r->Err_0 == e,
        },
{
    let n = bytes.len();
    if n < HEADER_LEN {
        return Err(KeyringError::TooShort { expected: HEADER_LEN, got: n });
    }
    let magic: [u8; 8] = [67u8, 65, 80, 83, 85, 76, 69, 0];
    assert(magic@ =~= keyring_magic());
    if !bytes_match_at(bytes, 0, &magic) {
        assert(bytes@.subrange(0, 8) =~= bytes@.take(8));
        return Err(KeyringError::BadMagic);
    }
    assert(bytes@.subrange(0, 8) =~= bytes@.take(8));
    let version = bytes[8];
    if version != VERSION {
        return Err(KeyringError::UnsupportedVersion(version));
    }
    let kdf_id = bytes[9];
    if kdf_id != KDF_ID_ARGON2ID {
        return Err(KeyringError::UnsupportedKdf(kdf_id, KDF_ID_ARGON2ID));
    }
    let m = [bytes[12], bytes[13], bytes[14], bytes[15]];
    let t = [bytes[16], bytes[17], bytes[18], bytes[19]];
    let p = [bytes[20], bytes[21], bytes[22], bytes[23]];
    assert(m@ =~= bytes@.subrange(12, 16));
    assert(t@ =~= bytes@.subrange(16, 20));
    assert(p@ =~= bytes@.subrange(20, 24));
    let kdf_params = Argon2Params { m_cost: u32_from_le(&m), t_cost: u32_from_le(&t), p_cost: u32_from_le(&p) };
    let mut salt = [0u8; 16];
    let mut i: usize = 0;
    while i < 16
        invariant
            i <= 16,
            n == bytes@.len(),
            n >= 52,
            forall|k: int| 0 <= k < i ==> salt@[k] == bytes@[24 + k],
        decreases 16 - i,
    {
        salt[i] = bytes[24 + i];
        i = i + 1;
    }
    assert(salt@ =~= bytes@.subrange(24, 40));
    let mut nonce = [0u8; 12];
    let mut j: usize = 0;
    while j < 12
        invariant
            j <= 12,
            n == bytes@.len(),
            n >= 52,
            forall|k: int| 0 <= k < j ==> nonce@[k] == bytes@[40 + k],
        decreases 12 - j,
    {
        nonce[j] = bytes[40 + j];
        j = j + 1;
    }
    assert(nonce@ =~= bytes@.subrange(40, 52));
    let ciphertext = tail_to_vec(bytes, HEADER_LEN);
    Ok(LockedKeyring { path: path.to_owned(), kdf_params, salt, nonce, ciphertext })
}

/// What `unlock` gives for a parsed keyring and a passphrase: an empty
/// passphrase and refused KDF inputs are errors; otherwise the ciphertext
/// is opened under the passphrase's key, and 32 opened bytes become the
/// master secret. In particular a ciphertext sealed from a 32-byte secret
/// under this passphrase's key yields that secret.
pub open spec fn unlock_outcome(k: LockedKeyringView, passphrase: Seq<u8>, r: Result<UnlockedKeyring, KeyringError>) -> bool {
    &&& (passphrase.len() == 0 ==> (r matches Err(KeyringError::EmptyPassphrase)))
    &&& (passphrase.len() > 0 && !params_ok(k.params) ==> (r matches Err(KeyringError::KdfParams(_))))
    &&& (passphrase.len() > 0 && params_ok(k.params) && passphrase.len() > 0xFFFF_FFFF ==> (r matches Err(
        KeyringError::KdfRun(_),
    )))
    &&& unlock_reaches_decrypt(k, passphrase) ==> match chacha20poly1305_open(
        keyring_kek(k, passphrase),
        k.nonce,
        k.ciphertext,
    ) {
        Some(m) => if m.len() == 32 {
            unlocked_from(r, m)
        } else {
            r matches Err(KeyringError::BadPassphrase)
        },
        None => (r matches Err(KeyringError::BadPassphrase)),
    }
    &&& unlock_reaches_decrypt(k, passphrase) ==> forall|m: Seq<u8>|
        m.len() == 32 && #[trigger] chacha20poly1305_seal(keyring_kek(k, passphrase), k.nonce, m) == k.ciphertext
            ==> unlocked_from(r, m)
}

impl LockedKeyring {
    pub fn path(&self) -> (r: &str)
        ensures
            r@ == self@.path,
    {
        self.path.as_str()
    }

    /// The Argon2 parameters from the file header.
    pub fn kdf_params(&self) -> (r: Argon2Params)
        ensures
            r == self@.params,
    {
        self.kdf_params
    }

    /// Derive the key-encryption key from the passphrase and decrypt the
    /// master secret. A passphrase that does not authenticate the
    /// ciphertext, and a ciphertext that is not 32 bytes of secret, are
    /// both `BadPassphrase`. A ciphertext sealed from a 32-byte secret under
    /// this passphrase's key opens to that secret.
    pub fn unlock(&self, passphrase: &[u8]) -> (r: Result<UnlockedKeyring, KeyringError>)
        ensures
            unlock_outcome(self@, passphrase@, r),
    {
        if passphrase.len() == 0 {
            return Err(KeyringError::EmptyPassphrase);
        }
        let mut kek = derive_kek(passphrase, &self.salt, self.kdf_params)?;
        let opened = aead_open(&kek, &self.nonce, self.ciphertext.as_slice());
        wipe32(&mut kek);
        let mut plaintext = match opened {
            Some(p) => p,
            None => return Err(KeyringError::BadPassphrase),
        };
        if plaintext.len() != MASTER_SECRET_LEN {
            wipe_vec(&mut plaintext);
            return Err(KeyringError::BadPassphrase);
        }
        let mut master = [0u8; 32];
        let mut i: usize = 0;
        while i < 32
            invariant
                i <= 32,
                plaintext@.len() == 32,
                forall|k: int| 0 <= k < i ==> master@[k] == plaintext@[k],
            decreases 32 - i,
        {
            master[i] = plaintext[i];
            i = i + 1;
        }
        assert(master@ =~= plaintext@);
        wipe_vec(&mut plaintext);
        let r = UnlockedKeyring::from_bytes(master);
        wipe32(&mut master);
        r
    }
}

/// A freshly created keyring: the file to write, and the unlocked handle
/// on its master secret (or the error deriving its payout address).
pub struct NewKeyring {
    pub file_bytes: Vec<u8>,
    pub keyring: Result<UnlockedKeyring, KeyringError>,
}

/// Create a keyring for `passphrase`: random salt, nonce and master
/// secret, sealed under the passphrase with `params`. Whatever the random
/// source gave, the file holds the master secret sealed under the
/// passphrase's key, and the handle holds that same secret.
pub fn create_keyring(passphrase: &[u8], params: Argon2Params) -> (r: Result<NewKeyring, KeyringError>)
    ensures
        passphrase@.len() == 0 ==> r matches Err(KeyringError::EmptyPassphrase),
        passphrase@.len() > 0 && !params_ok(params) ==> (r matches Err(KeyringError::KdfParams(_)) || r matches Err(
            KeyringError::Rng(_),
        )),
        passphrase@.len() > 0 && params_ok(params) && passphrase@.len() > 0xFFFF_FFFF ==> (r matches Err(
            KeyringError::KdfRun(_),
        ) || r matches Err(KeyringError::Rng(_))),
        kdf_accepts(params, passphrase@) ==> (r is Ok || r matches Err(KeyringError::Rng(_))),
        r matches Ok(k) ==> k.file_bytes@.len() == 100,
        r is Ok ==> exists|salt: Seq<u8>, nonce: Seq<u8>, master: Seq<u8>|
            salt.len() == 16 && nonce.len() == 12 && master.len() == 32
            && #[trigger] encode_keyring(
                params,
                salt,
                nonce,
                chacha20poly1305_seal(
                    argon2id_kek(passphrase@, salt, params.m_cost, params.t_cost, params.p_cost),
                    nonce,
                    master,
                ),
            ) == r->Ok_0.file_bytes@ && unlocked_from(r->Ok_0.keyring, master),
{
    if passphrase.len() == 0 {
        return Err(KeyringError::EmptyPassphrase);
    }
    let salt: [u8; 16] = match os_random_bytes() {
        Ok(b) => b,
        Err(e) => return Err(KeyringError::Rng(e)),
    };
    let nonce: [u8; 12] = match os_random_bytes() {
        Ok(b) => b,
        Err(e) => return Err(KeyringError::Rng(e)),
    };
    let mut master: [u8; 32] = match os_random_bytes() {
        Ok(b) => b,
        Err(e) => return Err(KeyringError::Rng(e)),
    };
    let ghost m = master@;
    let sealed = seal_keyring(passphrase, params, &salt, &nonce, &master);
    let file_bytes = match sealed {
        Ok(b) => b,
        Err(e) => {
            wipe32(&mut master);
            return Err(e);
        },
    };
    let keyring = UnlockedKeyring::from_bytes(master);
    wipe32(&mut master);
    let r = NewKeyring { file_bytes, keyring };
    assert(encode_keyring(
        params,
        salt@,
        nonce@,
        chacha20poly1305_seal(
            argon2id_kek(passphrase@, salt@, params.m_cost, params.t_cost, params.p_cost),
            nonce@,
            m,
        ),
    ) == r.file_bytes@);
    Ok(r)
}

/// Refuse to create a keyring over an empty passphrase or an existing
/// file, in that order.
pub fn check_create(path: &str, passphrase: &[u8], file_exists: bool) -> (r: Result<(), KeyringError>)
    ensures
        passphrase@.len() == 0 ==> r matches Err(KeyringError::EmptyPassphrase),
        passphrase@.len() > 0 && file_exists ==> (r matches Err(KeyringError::AlreadyExists(p)) && p@ == path@),
        passphrase@.len() > 0 && !file_exists ==> r is Ok,
{
    if passphrase.len() == 0 {
        return Err(KeyringError::EmptyPassphrase);
    }
    if file_exists {
        return Err(KeyringError::AlreadyExists(path.to_owned()));
    }
    Ok(())
}

} // verus!
