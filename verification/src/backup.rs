//! Versioned, authenticated, encrypted backups (Argon2id + XChaCha20-Poly1305).
//!
//! A backup is `"TPB1" || version || salt(16) || nonce(24) || ciphertext`,
//! where the key is derived from the passphrase and the salt with Argon2id,
//! and the ciphertext seals the serialized business snapshot.

use vstd::prelude::*;
use chacha20poly1305::aead::{Aead, KeyInit};
use chacha20poly1305::{XChaCha20Poly1305, XNonce};
use rand::RngCore;
use crate::error::CoreError;

verus! {

/// A serialized business snapshot (excludes device private keys and database keys).
#[derive(Debug, Clone)]
pub struct Snapshot {
    pub fields: Vec<FieldRecord>,
    pub lifecycles: Vec<LifecycleRecord>,
}

#[derive(Debug, Clone)]
pub struct FieldRecord {
    pub entity_type: String,
    pub entity_id: Vec<u8>,
    pub generation: i64,
    pub field_name: String,
    pub value: Vec<u8>,
}

#[derive(Debug, Clone)]
pub struct LifecycleRecord {
    pub entity_type: String,
    pub entity_id: Vec<u8>,
    pub generation: i64,
    pub deleted: i64,
}

pub const BACKUP_VERSION: u8 = 1;

pub const SALT_LEN: usize = 16;

pub const NONCE_LEN: usize = 24;

/// Magic, version, salt and nonce.
pub const HEADER_LEN: usize = 45;

/// Argon2id memory cost (KiB), iterations and lanes.
pub const ARGON2_M_COST: u32 = 19_456;

pub const ARGON2_T_COST: u32 = 2;

pub const ARGON2_P_COST: u32 = 1;

/// The 32-byte key Argon2id (version 0x13) derives from a passphrase and a
/// salt under the given costs, or `None` when the derivation fails.
pub uninterp spec fn argon2id_key(
    m_cost: u32,
    t_cost: u32,
    p_cost: u32,
    passphrase: Seq<char>,
    salt: Seq<u8>,
) -> Option<Seq<u8>>;

/// The XChaCha20-Poly1305 ciphertext (with its tag) of `plaintext`, or
/// `None` when encryption fails.
pub uninterp spec fn xchacha_sealed(key: Seq<u8>, nonce: Seq<u8>, plaintext: Seq<u8>) -> Option<
    Seq<u8>,
>;

/// The XChaCha20-Poly1305 plaintext of `ciphertext`, or `None` when
/// authentication fails.
pub uninterp spec fn xchacha_opened(key: Seq<u8>, nonce: Seq<u8>, ciphertext: Seq<u8>) -> Option<
    Seq<u8>,
>;

/// Costs that argon2's `Params::new` accepts: at least 8 KiB of memory and
/// 8 KiB per lane, at least one pass, and between 1 and 2^24 - 1 lanes.
pub open spec fn argon2_costs_accepted(m_cost: u32, t_cost: u32, p_cost: u32) -> bool {
    8 <= m_cost && 8 * p_cost <= m_cost && 1 <= t_cost && 1 <= p_cost && p_cost <= 0xFF_FFFF
}

/// The longest plaintext XChaCha20-Poly1305 seals: 2^32 - 1 blocks of 64
/// bytes, less one byte.
pub open spec fn max_sealable_len() -> int {
    64 * 0xFFFF_FFFF - 1
}

/// Derive a key with argon2's `Params::new(m, t, p, Some(32))`,
/// `Argon2::new(Algorithm::Argon2id, Version::V0x13, ..)` and
/// `hash_password_into` over the passphrase's UTF-8 bytes. Its contract: the
/// result is the named derivation of these arguments; argon2 refuses a salt
/// shorter than 8 bytes (`MIN_SALT_LEN`); with accepted costs, a salt of at
/// most 2^32 - 1 bytes and a passphrase of at most 2^32 - 1 UTF-8 bytes
/// (which a passphrase of at most 2^30 - 1 characters is) it succeeds.
/// Lane counts from 2^24 up are not passed, since `Params::new` multiplies
/// them by 8 before it checks them.
#[verifier::external_body]
fn argon2id_hash(m_cost: u32, t_cost: u32, p_cost: u32, passphrase: &str, salt: &[u8]) -> (r:
    Option<[u8; 32]>)
    requires
        p_cost <= 0xFF_FFFF,
    ensures
        r is Some <==> argon2id_key(m_cost, t_cost, p_cost, passphrase@, salt@) is Some,
        r matches Some(k) ==> k@ == argon2id_key(m_cost, t_cost, p_cost, passphrase@, salt@)->0,
        salt@.len() < 8 ==> r is None,
        argon2_costs_accepted(m_cost, t_cost, p_cost) && 8 <= salt@.len() <= 0xFFFF_FFFF
            && passphrase@.len() <= 0x3FFF_FFFF ==> r is Some,
{
    let params = argon2::Params::new(m_cost, t_cost, p_cost, Some(32)).ok()?;
    let argon = argon2::Argon2::new(argon2::Algorithm::Argon2id, argon2::Version::V0x13, params);
    let mut key = [0u8; 32];
    argon.hash_password_into(passphrase.as_bytes(), salt, &mut key).ok()?;
    Some(key)
}

/// Seal `plaintext` with `XChaCha20Poly1305::new(key).encrypt(nonce, ..)`.
/// Its contract: the result is the named ciphertext of these arguments; it
/// fails exactly when the plaintext is longer than `max_sealable_len()`
/// (the cipher's block counter limit); the ciphertext is the plaintext's
/// length plus the 16-byte tag; and opening it with the same key and nonce
/// gives back the plaintext (the AEAD's correctness).
#[verifier::external_body]
fn xchacha_encrypt(key: &[u8; 32], nonce: &[u8], plaintext: &[u8]) -> (r: Option<Vec<u8>>)
    requires
        nonce@.len() == 24,
    ensures
        r is Some <==> xchacha_sealed(key@, nonce@, plaintext@) is Some,
        r is Some <==> plaintext@.len() <= max_sealable_len(),
        r matches Some(ct) ==> ct@ == xchacha_sealed(key@, nonce@, plaintext@)->0,
        r matches Some(ct) ==> ct@.len() == plaintext@.len() + 16,
        r matches Some(ct) ==> xchacha_opened(key@, nonce@, ct@) == Some(plaintext@),
{
    let cipher = XChaCha20Poly1305::new(key.into());
    cipher.encrypt(XNonce::from_slice(nonce), plaintext).ok()
}

/// Open `ciphertext` with `XChaCha20Poly1305::new(key).decrypt(nonce, ..)`.
/// Its contract: the result is the named plaintext of these arguments.
#[verifier::external_body]
fn xchacha_decrypt(key: &[u8; 32], nonce: &[u8], ciphertext: &[u8]) -> (r: Option<Vec<u8>>)
    requires
        nonce@.len() == 24,
    ensures
        r is Some <==> xchacha_opened(key@, nonce@, ciphertext@) is Some,
        r matches Some(pt) ==> pt@ == xchacha_opened(key@, nonce@, ciphertext@)->0,
{
    let cipher = XChaCha20Poly1305::new(key.into());
    cipher.decrypt(XNonce::from_slice(nonce), ciphertext).ok()
}

/// `len` bytes from rand's thread-local generator (`rand::rng().fill_bytes`).
/// Its contract: the length only; the bytes are chance.
#[verifier::external_body]
fn random_bytes(len: usize) -> (r: Vec<u8>)
    ensures
        r@.len() == len,
{
    let mut bytes = vec![0u8; len];
    rand::rng().fill_bytes(&mut bytes);
    bytes
}

/// The backup magic, "TPB1".
pub open spec fn backup_magic() -> Seq<u8> {
    seq![0x54u8, 0x50u8, 0x42u8, 0x31u8]
}

/// The bytes of a backup with the given salt, nonce and ciphertext.
pub open spec fn framed(salt: Seq<u8>, nonce: Seq<u8>, ciphertext: Seq<u8>) -> Seq<u8> {
    backup_magic() + seq![BACKUP_VERSION] + salt + nonce + ciphertext
}

/// What restoring `bytes` with `passphrase` gives: the header is checked
/// (magic, then version, then length), the key derived from the salt, and
/// the ciphertext opened; a key that fails to derive is an encryption
/// error, a ciphertext that fails to open a bad passphrase.
pub open spec fn restore_result(bytes: Seq<u8>, passphrase: Seq<char>) -> Result<Seq<u8>, CoreError> {
    if bytes.len() < 5 || bytes.subrange(0, 4) != backup_magic() {
        Err(CoreError::InvalidBackup)
    } else if bytes[4] != BACKUP_VERSION {
        Err(CoreError::UnsupportedBackupVersion)
    } else if bytes.len() < HEADER_LEN {
        Err(CoreError::InvalidBackup)
    } else {
        let salt = bytes.subrange(5, 21);
        let nonce = bytes.subrange(21, 45);
        let ct = bytes.subrange(45, bytes.len() as int);
        match argon2id_key(ARGON2_M_COST, ARGON2_T_COST, ARGON2_P_COST, passphrase, salt) {
            None => Err(CoreError::BackupEncryption),
            Some(key) => match xchacha_opened(key, nonce, ct) {
                None => Err(CoreError::BadPassphrase),
                Some(pt) => Ok(pt),
            },
        }
    }
}

/// Bytes `[start, end)` of `bytes`.
fn copy_range(bytes: &[u8], start: usize, end: usize) -> (r: Vec<u8>)
    requires
        start <= end <= bytes@.len(),
    ensures
        r@ == bytes@.subrange(start as int, end as int),
{
    let mut r: Vec<u8> = Vec::new();
    let mut i = start;
    while i < end
        invariant
            start <= i <= end <= bytes@.len(),
            r@ == bytes@.subrange(start as int, i as int),
        decreases end - i,
    {
        r.push(bytes[i]);
        assert(r@ =~= bytes@.subrange(start as int, i + 1));
        i = i + 1;
    }
    r
}

/// Append all of `src` to `dst`.
fn append_bytes(dst: &mut Vec<u8>, src: &[u8])
    ensures
        final(dst)@ == old(dst)@ + src@,
{
    let mut i: usize = 0;
    while i < src.len()
        invariant
            i <= src@.len(),
            dst@ == old(dst)@ + src@.subrange(0, i as int),
        decreases src@.len() - i,
    {
        dst.push(src[i]);
        assert(dst@ =~= old(dst)@ + src@.subrange(0, i + 1));
        i = i + 1;
    }
    assert(src@.subrange(0, src@.len() as int) =~= src@);
}

/// Encrypt a serialized snapshot into a self-contained backup under a fresh
/// random salt and nonce. Whatever comes out restores, with the same
/// passphrase, to exactly `plaintext`. Sealing succeeds for every passphrase
/// of at most 2^30 - 1 characters and every plaintext the cipher can seal;
/// it fails only with `BackupEncryption`, when the key derivation or the
/// sealing under the drawn salt and nonce fails.
pub fn seal_backup(plaintext: &[u8], passphrase: &str) -> (r: Result<Vec<u8>, CoreError>)
    ensures
        passphrase@.len() <= 0x3FFF_FFFF && plaintext@.len() <= max_sealable_len() ==> r is Ok,
        r is Ok ==> plaintext@.len() <= max_sealable_len(),
        r is Err ==> exists|salt: Seq<u8>, nonce: Seq<u8>|
            salt.len() == SALT_LEN && nonce.len() == NONCE_LEN && match argon2id_key(
                ARGON2_M_COST,
                ARGON2_T_COST,
                ARGON2_P_COST,
                passphrase@,
                salt,
            ) {
                None => true,
                Some(key) => xchacha_sealed(key, nonce, plaintext@) is None,
            },
        r matches Ok(out) ==> restore_result(out@, passphrase@) == Ok::<Seq<u8>, CoreError>(plaintext@),
        r matches Ok(out) ==> exists|salt: Seq<u8>, nonce: Seq<u8>, key: Seq<u8>, ct: Seq<u8>|
            salt.len() == SALT_LEN && nonce.len() == NONCE_LEN && argon2id_key(
                ARGON2_M_COST,
                ARGON2_T_COST,
                ARGON2_P_COST,
                passphrase@,
                salt,
            ) == Some(key) && xchacha_sealed(key, nonce, plaintext@) == Some(ct) && out@ == framed(
                salt,
                nonce,
                ct,
            ),
        r matches Err(e) ==> e == CoreError::BackupEncryption,
{
    let salt = random_bytes(SALT_LEN);
    let nonce = random_bytes(NONCE_LEN);
    let key = match argon2id_hash(ARGON2_M_COST, ARGON2_T_COST, ARGON2_P_COST, passphrase, salt.as_slice()) {
        Some(k) => k,
        None => {
            assert(argon2id_key(ARGON2_M_COST, ARGON2_T_COST, ARGON2_P_COST, passphrase@, salt@) is None);
            return Err(CoreError::BackupEncryption);
        },
    };
    let ct = match xchacha_encrypt(&key, nonce.as_slice(), plaintext) {
        Some(c) => c,
        None => {
            assert(xchacha_sealed(key@, nonce@, plaintext@) is None);
            return Err(CoreError::BackupEncryption);
        },
    };
    let mut out: Vec<u8> = Vec::new();
    out.push(0x54u8);
    out.push(0x50u8);
    out.push(0x42u8);
    out.push(0x31u8);
    out.push(BACKUP_VERSION);
    append_bytes(&mut out, salt.as_slice());
    append_bytes(&mut out, nonce.as_slice());
    append_bytes(&mut out, ct.as_slice());
    proof {
        let o = out@;
        assert(o =~= framed(salt@, nonce@, ct@));
        assert(o.subrange(0, 4) =~= backup_magic());
        assert(o.subrange(5, 21) =~= salt@);
        assert(o.subrange(21, 45) =~= nonce@);
        assert(o.subrange(45, o.len() as int) =~= ct@);
    }
    Ok(out)
}

/// Check a backup's header, derive its key and open its ciphertext,
/// returning the serialized snapshot it seals.
pub fn open_backup(bytes: &[u8], passphrase: &str) -> (r: Result<Vec<u8>, CoreError>)
    ensures
        match r {
            Ok(v) => restore_result(bytes@, passphrase@) == Ok::<Seq<u8>, CoreError>(v@),
            Err(e) => restore_result(bytes@, passphrase@) == Err::<Seq<u8>, CoreError>(e),
        },
{
    if bytes.len() < 5 || bytes[0] != 0x54u8 || bytes[1] != 0x50u8 || bytes[2] != 0x42u8
        || bytes[3] != 0x31u8 {
        proof {
            if bytes@.len() >= 5 {
                let h = bytes@.subrange(0, 4);
                if h == backup_magic() {
                    assert(h[0] == bytes@[0] && h[1] == bytes@[1] && h[2] == bytes@[2] && h[3]
                        == bytes@[3]);
                }
            }
        }
        return Err(CoreError::InvalidBackup);
    }
    assert(bytes@.subrange(0, 4) =~= backup_magic());
    if bytes[4] != BACKUP_VERSION {
        return Err(CoreError::UnsupportedBackupVersion);
    }
    if bytes.len() < HEADER_LEN {
        return Err(CoreError::InvalidBackup);
    }
    let salt = copy_range(bytes, 5, 21);
    let nonce = copy_range(bytes, 21, 45);
    let ct = copy_range(bytes, 45, bytes.len());
    let key = match argon2id_hash(ARGON2_M_COST, ARGON2_T_COST, ARGON2_P_COST, passphrase, salt.as_slice()) {
        Some(k) => k,
        None => return Err(CoreError::BackupEncryption),
    };
    match xchacha_decrypt(&key, nonce.as_slice(), ct.as_slice()) {
        Some(pt) => Ok(pt),
        None => Err(CoreError::BadPassphrase),
    }
}

} // verus!
