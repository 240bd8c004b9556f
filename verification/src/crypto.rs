//! Keys, encryption, and the canary that tells the right master password.

use aes_gcm::aead::{Aead, KeyInit};
use aes_gcm::{Aes256Gcm, Key, Nonce};
use argon2::{Algorithm, Argon2, Params, Version};
use vstd::prelude::*;
#[allow(unused_imports)]
use vstd::utf8::encode_utf8;

use crate::error::VaultError;
use crate::secret::{wipe_key, SecretBytes};
use crate::text::{array_of, same_bytes};

verus! {

broadcast use vstd::array::group_array_axioms;

pub const SALT_LEN: usize = 16;

pub const NONCE_LEN: usize = 12;

/// What the canary hides.
pub open spec fn canary_plaintext() -> Seq<u8> {
    encode_utf8("INR-CANARY-v1"@)
}

/// A key of 32 bytes, wiped when it is dropped.
pub struct DerivedKey {
    bytes: [u8; 32],
}

impl View for DerivedKey {
    type V = Seq<u8>;

    closed spec fn view(&self) -> Seq<u8> {
        self.bytes@
    }
}

impl Drop for DerivedKey {
    fn drop(&mut self)
        opens_invariants none
        no_unwind
    {
        wipe_key(&mut self.bytes);
    }
}

#[verifier::external_type_specification]
#[verifier::external_body]
pub struct ExArgon2Error(argon2::Error);

#[verifier::external_type_specification]
#[verifier::external_body]
pub struct ExAeadError(aes_gcm::Error);

#[verifier::external_type_specification]
#[verifier::external_body]
pub struct ExGetrandomError(getrandom::Error);

/// The 32 bytes that Argon2id, version 0x13, with the crate's default
/// parameters (19 MiB of memory, 2 iterations, 1 lane) makes of a password and
/// a salt.
pub uninterp spec fn argon2id(password: Seq<u8>, salt: Seq<u8>) -> Seq<u8>;

/// `argon2::Argon2::hash_password_into` for Argon2id with the default
/// parameters, a salt of 16 bytes and an output of 32: it fails only for a
/// password longer than 2^32 - 1 bytes, and else depends on the password and
/// the salt alone.
#[verifier::external_body]
fn hash_password_into(password: &[u8], salt: &[u8; 16], out: &mut [u8; 32]) -> (r: Result<
    (),
    argon2::Error,
>)
    ensures
        r is Ok <==> password@.len() <= 0xffff_ffff,
        r is Ok ==> final(out)@ == argon2id(password@, salt@),
{
    let argon2 = Argon2::new(Algorithm::Argon2id, Version::V0x13, Params::default());
    argon2.hash_password_into(password, salt, out)
}

/// `getrandom::fill`: bytes from the operating system's random source, or a
/// failure. Both are up to the operating system, so nothing is stated of
/// them.
#[verifier::external_body]
fn random_bytes<const N: usize>() -> (r: Result<[u8; N], getrandom::Error>) {
    let mut bytes = [0u8; N];
    getrandom::fill(&mut bytes)?;
    Ok(bytes)
}

/// What AES-256-GCM makes of a plaintext under a key and a nonce, without
/// associated data: the ciphertext with the tag behind it.
pub uninterp spec fn aes_gcm_sealed(key: Seq<u8>, nonce: Seq<u8>, plaintext: Seq<u8>) -> Seq<u8>;

/// What AES-256-GCM finds in a ciphertext with its tag, without associated
/// data: the plaintext, or nothing where the tag does not belong to the
/// ciphertext under that key and nonce.
pub uninterp spec fn aes_gcm_opened(
    key: Seq<u8>,
    nonce: Seq<u8>,
    ciphertext: Seq<u8>,
) -> Option<Seq<u8>>;

/// `aes_gcm::Aes256Gcm::encrypt`: it fails only for a plaintext longer than
/// 2^36 - 32 bytes. The result is 16 bytes longer than the plaintext, and
/// opens to the plaintext under the same key and nonce.
#[verifier::external_body]
fn aes_gcm_seal(key: &[u8; 32], nonce: &[u8; 12], plaintext: &[u8]) -> (r: Result<
    Vec<u8>,
    aes_gcm::Error,
>)
    ensures
        r is Ok <==> plaintext@.len() <= 68_719_476_704,
        r matches Ok(c) ==> {
            &&& c@ == aes_gcm_sealed(key@, nonce@, plaintext@)
            &&& c@.len() == plaintext@.len() + 16
            &&& aes_gcm_opened(key@, nonce@, c@) == Some(plaintext@)
        },
{
    let cipher = Aes256Gcm::new(&Key::<Aes256Gcm>::from(*key));
    cipher.encrypt(&Nonce::from(*nonce), plaintext)
}

/// `aes_gcm::Aes256Gcm::decrypt`: the plaintext, 16 bytes shorter than what was
/// handed in, if the tag belongs to the ciphertext, and a failure otherwise.
/// That only the key that sealed a
/// ciphertext opens it is not stated: it holds but for chance.
#[verifier::external_body]
fn aes_gcm_open(key: &[u8; 32], nonce: &[u8; 12], ciphertext: &[u8]) -> (r: Result<
    Vec<u8>,
    aes_gcm::Error,
>)
    ensures
        match r {
            Ok(p) => aes_gcm_opened(key@, nonce@, ciphertext@) == Some(p@) && ciphertext@.len()
                == p@.len() + 16,
            Err(_) => aes_gcm_opened(key@, nonce@, ciphertext@) is None,
        },
{
    let cipher = Aes256Gcm::new(&Key::<Aes256Gcm>::from(*key));
    cipher.decrypt(&Nonce::from(*nonce), ciphertext)
}

/// The longest password, in bytes.
pub open spec fn password_fits(password: Seq<char>) -> bool {
    encode_utf8(password).len() <= 0xffff_ffff
}

/// The key for a password and a salt.
pub open spec fn key_for(password: Seq<char>, salt: Seq<u8>) -> Seq<u8> {
    argon2id(encode_utf8(password), salt)
}

/// Derives a 32-byte key from a master password using Argon2id.
/// Params match OWASP's current minimum recommendation for Argon2id
/// (19 MiB memory, 2 iterations, 1 lane) - deliberately not tunable,
/// since this is a single-user local CLI, not a multi-tenant service.
pub fn derive_key(password: &str, salt: &[u8; SALT_LEN]) -> (r: Result<DerivedKey, VaultError>)
    ensures
        match r {
            Ok(key) => password_fits(password@) && key@ == key_for(password@, salt@),
            Err(VaultError::PasswordTooLong) => !password_fits(password@),
            Err(_) => false,
        },
{
    let mut key = DerivedKey { bytes: [0u8;32] };
    match hash_password_into(password.as_bytes(), salt, &mut key.bytes) {
        Ok(()) => Ok(key),
        Err(_) => Err(VaultError::PasswordTooLong),
    }
}

/// A fresh salt.
pub fn random_salt() -> (r: Result<[u8; SALT_LEN], VaultError>)
    ensures
        r matches Err(e) ==> e is RngUnavailable,
{
    match random_bytes::<SALT_LEN>() {
        Ok(salt) => Ok(salt),
        Err(_) => Err(VaultError::RngUnavailable),
    }
}

fn random_nonce() -> (r: Result<[u8; NONCE_LEN], VaultError>)
    ensures
        r matches Err(e) ==> e is RngUnavailable,
{
    match random_bytes::<NONCE_LEN>() {
        Ok(nonce) => Ok(nonce),
        Err(_) => Err(VaultError::RngUnavailable),
    }
}

/// The longest plaintext, in bytes.
pub open spec fn plaintext_fits(plaintext: Seq<u8>) -> bool {
    plaintext.len() <= 68_719_476_704
}

/// What decryption finds in a ciphertext under a key and a nonce of any
/// length.
pub open spec fn opened(key: Seq<u8>, nonce: Seq<u8>, ciphertext: Seq<u8>) -> Option<Seq<u8>> {
    if nonce.len() == NONCE_LEN {
        aes_gcm_opened(key, nonce, ciphertext)
    } else {
        None
    }
}

/// Encrypts `plaintext` under `key` and a given nonce.
pub fn encrypt_with_nonce(key: &DerivedKey, nonce: &[u8; NONCE_LEN], plaintext: &[u8]) -> (r:
    Result<Vec<u8>, VaultError>)
    ensures
        match r {
            Ok(c) => {
                &&& plaintext_fits(plaintext@)
                &&& c@ == aes_gcm_sealed(key@, nonce@, plaintext@)
                &&& opened(key@, nonce@, c@) == Some(plaintext@)
                &&& c@.len() == plaintext@.len() + 16
            },
            Err(VaultError::EncryptionFailed) => !plaintext_fits(plaintext@),
            Err(_) => false,
        },
{
    match aes_gcm_seal(&key.bytes, nonce, plaintext) {
        Ok(ciphertext) => Ok(ciphertext),
        Err(_) => Err(VaultError::EncryptionFailed),
    }
}

/// Encrypts `plaintext` under `key`, returning (nonce, ciphertext).
pub fn encrypt(key: &DerivedKey, plaintext: &[u8]) -> (r: Result<
    ([u8; NONCE_LEN], Vec<u8>),
    VaultError,
>)
    ensures
        match r {
            Ok((nonce, c)) => {
                &&& plaintext_fits(plaintext@)
                &&& c@ == aes_gcm_sealed(key@, nonce@, plaintext@)
                &&& opened(key@, nonce@, c@) == Some(plaintext@)
                &&& c@.len() == plaintext@.len() + 16
            },
            Err(VaultError::EncryptionFailed) => !plaintext_fits(plaintext@),
            Err(VaultError::RngUnavailable) => true,
            Err(_) => false,
        },
{
    match random_nonce() {
        Ok(nonce) => {
            match encrypt_with_nonce(key, &nonce, plaintext) {
                Ok(ciphertext) => Ok((nonce, ciphertext)),
                Err(e) => Err(e),
            }
        },
        Err(e) => Err(e),
    }
}

/// Decrypts `ciphertext` under `key` and `nonce`. Fails (auth tag mismatch)
/// if the key is wrong or the data was tampered with.
pub fn decrypt(key: &DerivedKey, nonce: &[u8], ciphertext: &[u8]) -> (r: Result<SecretBytes, VaultError>)
    ensures
        match r {
            Ok(p) => {
                &&& nonce@.len() == NONCE_LEN
                &&& opened(key@, nonce@, ciphertext@) == Some(p@)
                &&& ciphertext@.len() == p@.len() + 16
            },
            Err(VaultError::InvalidNonceLength) => nonce@.len() != NONCE_LEN,
            Err(VaultError::DecryptionFailed) => nonce@.len() == NONCE_LEN && opened(
                key@,
                nonce@,
                ciphertext@,
            ) is None,
            Err(_) => false,
        },
{
    if nonce.len() != NONCE_LEN {
        return Err(VaultError::InvalidNonceLength);
    }
    let nonce = array_of::<NONCE_LEN>(nonce);
    match aes_gcm_open(&key.bytes, &nonce, ciphertext) {
        Ok(plaintext) => Ok(SecretBytes::new(plaintext)),
        Err(_) => Err(VaultError::DecryptionFailed),
    }
}

/// Whether a nonce and a ciphertext are a canary for a key.
pub open spec fn is_canary(key: Seq<u8>, nonce: Seq<u8>, ciphertext: Seq<u8>) -> bool {
    opened(key, nonce, ciphertext) == Some(canary_plaintext())
}

/// Creates a canary: a known plaintext encrypted under the freshly-derived
/// key, stored alongside the salt so a later password attempt can be
/// verified by trying to decrypt it (AES-GCM's auth tag makes a wrong-key
/// decrypt fail cleanly instead of producing garbage).
pub fn create_canary(key: &DerivedKey) -> (r: Result<([u8; NONCE_LEN], Vec<u8>), VaultError>)
    ensures
        match r {
            Ok((nonce, c)) => {
                &&& c@ == aes_gcm_sealed(key@, nonce@, canary_plaintext())
                &&& is_canary(key@, nonce@, c@)
            },
            Err(VaultError::RngUnavailable) => true,
            Err(_) => false,
        },
{
    let plaintext = "INR-CANARY-v1".as_bytes();
    proof {
        reveal_strlit("INR-CANARY-v1");
        assert(vstd::utf8::is_ascii_chars("INR-CANARY-v1"@));
        vstd::utf8::is_ascii_chars_encode_utf8("INR-CANARY-v1"@);
    }
    encrypt(key, plaintext)
}

pub fn verify_canary(key: &DerivedKey, nonce: &[u8], ciphertext: &[u8]) -> (r: bool)
    ensures
        r == is_canary(key@, nonce@, ciphertext@),
{
    match decrypt(key, nonce, ciphertext) {
        Ok(plaintext) => same_bytes(plaintext.as_slice(), "INR-CANARY-v1".as_bytes()),
        Err(_) => false,
    }
}

/// Reads and validates a master password against the stored canary,
/// returning the derived key on success.
pub fn unlock(password: &str, salt: &[u8], canary_nonce: &[u8], canary_cipher: &[u8]) -> (r: Result<
    DerivedKey,
    VaultError,
>)
    ensures
        match r {
            Ok(key) => {
                &&& unlocks(password@, salt@, canary_nonce@, canary_cipher@)
                &&& key@ == key_for(password@, salt@)
            },
            Err(VaultError::BadSaltLength) => salt@.len() != SALT_LEN,
            Err(VaultError::PasswordTooLong) => salt@.len() == SALT_LEN && !password_fits(password@),
            Err(VaultError::WrongPassword) => {
                &&& salt@.len() == SALT_LEN
                &&& password_fits(password@)
                &&& !is_canary(key_for(password@, salt@), canary_nonce@, canary_cipher@)
            },
            Err(_) => false,
        },
{
    if salt.len() != SALT_LEN {
        return Err(VaultError::BadSaltLength);
    }
    let salt = array_of::<SALT_LEN>(salt);
    match derive_key(password, &salt) {
        Ok(key) => {
            if verify_canary(&key, canary_nonce, canary_cipher) {
                Ok(key)
            } else {
                Err(VaultError::WrongPassword)
            }
        },
        Err(e) => Err(e),
    }
}

/// Whether a password unlocks a vault.
pub open spec fn unlocks(
    password: Seq<char>,
    salt: Seq<u8>,
    canary_nonce: Seq<u8>,
    canary_cipher: Seq<u8>,
) -> bool {
    &&& salt.len() == SALT_LEN
    &&& password_fits(password)
    &&& is_canary(key_for(password, salt), canary_nonce, canary_cipher)
}

} // verus!
