//! Transfer files: a vault's commands and envs, encrypted under a passphrase.

use vstd::prelude::*;

use crate::crypto::{decrypt, derive_key, encrypt, random_salt, NONCE_LEN, SALT_LEN};
#[allow(unused_imports)]
use crate::crypto::{aes_gcm_sealed, key_for, opened, password_fits, plaintext_fits};
use crate::error::VaultError;
use crate::name_map::NameMap;
use crate::secret::SecretBytes;
use crate::text::array_of;
#[allow(unused_imports)]
use crate::views::views;

verus! {

broadcast use {vstd::string::group_string_axioms, vstd::array::group_array_axioms};

/// What a transfer file begins with.
pub open spec fn magic() -> Seq<u8> {
    seq![0x49u8, 0x4e, 0x52, 0x58]
}

pub const FORMAT_VERSION: u8 = 1;

/// The length of everything in front of the ciphertext.
pub const HEADER_LEN: usize = 33;

/// A command on its way to another machine, as a value.
pub struct ExportedCommandView {
    pub id: Seq<char>,
    pub template: Seq<char>,
    pub description: Seq<char>,
    pub created_at: Seq<char>,
    pub updated_at: Seq<char>,
    pub variable_defaults: Map<Seq<char>, Seq<char>>,
}

#[derive(Debug)]
pub struct ExportedCommand {
    pub id: String,
    pub template: String,
    pub description: String,
    pub created_at: String,
    pub updated_at: String,
    /// Variable name -> default env's *name* (not id - ids are only
    /// meaningful within the machine that generated them; names are the
    /// natural key envs are matched by everywhere else). Sparse: only
    /// variables with a default appear.
    pub variable_defaults: NameMap,
}

impl View for ExportedCommand {
    type V = ExportedCommandView;

    open spec fn view(&self) -> ExportedCommandView {
        ExportedCommandView {
            id: self.id@,
            template: self.template@,
            description: self.description@,
            created_at: self.created_at@,
            updated_at: self.updated_at@,
            variable_defaults: self.variable_defaults@,
        }
    }
}

impl Clone for ExportedCommand {
    fn clone(&self) -> (r: Self)
        ensures
            r@ == self@,
    {
        ExportedCommand {
            id: self.id.clone(),
            template: self.template.clone(),
            description: self.description.clone(),
            created_at: self.created_at.clone(),
            updated_at: self.updated_at.clone(),
            variable_defaults: self.variable_defaults.clone(),
        }
    }
}

/// An env on its way to another machine, as a value.
pub struct ExportedEnvView {
    pub id: Seq<char>,
    pub name: Seq<char>,
    pub kind: Seq<char>,
    pub value: Seq<char>,
    pub description: Seq<char>,
    pub created_at: Seq<char>,
    pub updated_at: Seq<char>,
}

#[derive(Debug)]
pub struct ExportedEnv {
    pub id: String,
    pub name: String,
    /// `EnvKind::as_str()` - "secret"/"text"/"number_float"/"number_int".
    pub kind: String,
    /// Always plaintext - secrets are decrypted before export and
    /// re-encrypted under the destination's master key on import. Safe
    /// because the whole payload is itself encrypted under the transfer
    /// passphrase before it ever touches disk.
    pub value: String,
    pub description: String,
    pub created_at: String,
    pub updated_at: String,
}

impl View for ExportedEnv {
    type V = ExportedEnvView;

    open spec fn view(&self) -> ExportedEnvView {
        ExportedEnvView {
            id: self.id@,
            name: self.name@,
            kind: self.kind@,
            value: self.value@,
            description: self.description@,
            created_at: self.created_at@,
            updated_at: self.updated_at@,
        }
    }
}

impl Clone for ExportedEnv {
    fn clone(&self) -> (r: Self)
        ensures
            r@ == self@,
    {
        ExportedEnv {
            id: self.id.clone(),
            name: self.name.clone(),
            kind: self.kind.clone(),
            value: self.value.clone(),
            description: self.description.clone(),
            created_at: self.created_at.clone(),
            updated_at: self.updated_at.clone(),
        }
    }
}

/// What a transfer file carries, as a value.
pub struct TransferPayloadView {
    pub exported_at: Seq<char>,
    pub commands: Seq<ExportedCommandView>,
    pub envs: Seq<ExportedEnvView>,
}

#[derive(Debug)]
pub struct TransferPayload {
    pub exported_at: String,
    pub commands: Vec<ExportedCommand>,
    pub envs: Vec<ExportedEnv>,
}

impl View for TransferPayload {
    type V = TransferPayloadView;

    open spec fn view(&self) -> TransferPayloadView {
        TransferPayloadView {
            exported_at: self.exported_at@,
            commands: views(self.commands@),
            envs: views(self.envs@),
        }
    }
}

/// The transfer file for a salt, a nonce and a ciphertext.
pub open spec fn framed(salt: Seq<u8>, nonce: Seq<u8>, ciphertext: Seq<u8>) -> Seq<u8> {
    magic() + seq![FORMAT_VERSION] + salt + nonce + ciphertext
}

/// Why a transfer file cannot be read.
pub enum TransferFault {
    TooShort,
    NotATransferFile,
    UnsupportedVersion(u8),
    PassphraseTooLong,
    WrongPassphrase,
}

/// The salt of a transfer file.
pub open spec fn salt_of(bytes: Seq<u8>) -> Seq<u8> {
    bytes.subrange(5, 21)
}

/// The nonce of a transfer file.
pub open spec fn nonce_of(bytes: Seq<u8>) -> Seq<u8> {
    bytes.subrange(21, 33)
}

/// The ciphertext of a transfer file.
pub open spec fn ciphertext_of(bytes: Seq<u8>) -> Seq<u8> {
    bytes.subrange(33, bytes.len() as int)
}

/// What a transfer file holds for those who know its passphrase.
pub open spec fn decoded(bytes: Seq<u8>, passphrase: Seq<char>) -> Result<Seq<u8>, TransferFault> {
    if bytes.len() < HEADER_LEN {
        Err(TransferFault::TooShort)
    } else if bytes.subrange(0, 4) != magic() {
        Err(TransferFault::NotATransferFile)
    } else if bytes[4] != FORMAT_VERSION {
        Err(TransferFault::UnsupportedVersion(bytes[4]))
    } else if !password_fits(passphrase) {
        Err(TransferFault::PassphraseTooLong)
    } else {
        match opened(key_for(passphrase, salt_of(bytes)), nonce_of(bytes), ciphertext_of(bytes)) {
            Some(plaintext) => Ok(plaintext),
            None => Err(TransferFault::WrongPassphrase),
        }
    }
}

/// A file framed from a ciphertext that opens under the passphrase's key reads
/// back as the plaintext.
pub proof fn framed_reads_back(
    salt: Seq<u8>,
    nonce: Seq<u8>,
    ciphertext: Seq<u8>,
    passphrase: Seq<char>,
    plaintext: Seq<u8>,
)
    requires
        salt.len() == SALT_LEN,
        nonce.len() == NONCE_LEN,
        password_fits(passphrase),
        opened(key_for(passphrase, salt), nonce, ciphertext) == Some(plaintext),
    ensures
        decoded(framed(salt, nonce, ciphertext), passphrase) == Ok::<Seq<u8>, TransferFault>(
            plaintext,
        ),
{
    let bytes = framed(salt, nonce, ciphertext);
    assert(bytes.subrange(0, 4) =~= magic());
    assert(salt_of(bytes) =~= salt);
    assert(nonce_of(bytes) =~= nonce);
    assert(ciphertext_of(bytes) =~= ciphertext);
}

/// Appends some bytes.
fn extend(out: &mut Vec<u8>, bytes: &[u8])
    ensures
        final(out)@ == old(out)@ + bytes@,
{
    out.extend_from_slice(bytes);
    assert(out@ =~= old(out)@ + bytes@);
}

/// Puts the header in front of a ciphertext.
pub fn frame(salt: &[u8; SALT_LEN], nonce: &[u8; NONCE_LEN], ciphertext: &[u8]) -> (r: Vec<u8>)
    ensures
        r@ == framed(salt@, nonce@, ciphertext@),
{
    let mut out: Vec<u8> = Vec::new();
    out.push(0x49);
    out.push(0x4e);
    out.push(0x52);
    out.push(0x58);
    assert(out@ =~= magic());
    out.push(FORMAT_VERSION);
    assert(out@ =~= magic() + seq![FORMAT_VERSION]);
    extend(&mut out, salt.as_slice());
    extend(&mut out, nonce.as_slice());
    extend(&mut out, ciphertext);
    out
}

/// Encrypts a serialized payload under `passphrase` into a self-contained
/// transfer file: magic bytes + format version + a fresh KDF salt + AEAD
/// nonce + ciphertext. The passphrase is unrelated to either machine's master
/// password - it's whatever secret the sender and receiver agree on to
/// protect the file itself in transit.
pub fn encode(payload: &[u8], passphrase: &str) -> (r: Result<Vec<u8>, VaultError>)
    ensures
        match r {
            Ok(bytes) => {
                &&& decoded(bytes@, passphrase@) == Ok::<Seq<u8>, TransferFault>(payload@)
                &&& ciphertext_of(bytes@) == aes_gcm_sealed(
                    key_for(passphrase@, salt_of(bytes@)),
                    nonce_of(bytes@),
                    payload@,
                )
                &&& bytes@.len() == HEADER_LEN + payload@.len() + 16
            },
            Err(VaultError::RngUnavailable) => true,
            Err(VaultError::PasswordTooLong) => !password_fits(passphrase@),
            Err(VaultError::EncryptionFailed) => !plaintext_fits(payload@),
            Err(_) => false,
        },
{
    let salt = match random_salt() {
        Ok(salt) => salt,
        Err(e) => {
            return Err(e);
        },
    };
    let key = match derive_key(passphrase, &salt) {
        Ok(key) => key,
        Err(e) => {
            return Err(e);
        },
    };
    match encrypt(&key, payload) {
        Ok((nonce, ciphertext)) => {
            proof {
                framed_reads_back(salt@, nonce@, ciphertext@, passphrase@, payload@);
                let bytes = framed(salt@, nonce@, ciphertext@);
                assert(salt_of(bytes) =~= salt@);
                assert(nonce_of(bytes) =~= nonce@);
                assert(ciphertext_of(bytes) =~= ciphertext@);
            }
            Ok(frame(&salt, &nonce, ciphertext.as_slice()))
        },
        Err(e) => Err(e),
    }
}

/// Decrypts a transfer file produced by `encode`, giving the serialized
/// payload. Fails with a clear error on a wrong passphrase, a
/// truncated/corrupted file, or a file that isn't an inr transfer file at
/// all.
pub fn decode(bytes: &[u8], passphrase: &str) -> (r: Result<SecretBytes, VaultError>)
    ensures
        match r {
            Ok(payload) => {
                &&& decoded(bytes@, passphrase@) == Ok::<Seq<u8>, TransferFault>(payload@)
                &&& bytes@.len() == HEADER_LEN + payload@.len() + 16
            },
            Err(VaultError::TransferTooShort) => decoded(bytes@, passphrase@) == Err::<
                Seq<u8>,
                TransferFault,
            >(TransferFault::TooShort),
            Err(VaultError::NotATransferFile) => decoded(bytes@, passphrase@) == Err::<
                Seq<u8>,
                TransferFault,
            >(TransferFault::NotATransferFile),
            Err(VaultError::UnsupportedTransferVersion(version)) => decoded(bytes@, passphrase@)
                == Err::<Seq<u8>, TransferFault>(TransferFault::UnsupportedVersion(version)),
            Err(VaultError::PasswordTooLong) => decoded(bytes@, passphrase@) == Err::<
                Seq<u8>,
                TransferFault,
            >(TransferFault::PassphraseTooLong),
            Err(VaultError::WrongTransferPassphrase) => decoded(bytes@, passphrase@) == Err::<
                Seq<u8>,
                TransferFault,
            >(TransferFault::WrongPassphrase),
            Err(_) => false,
        },
{
    if bytes.len() < HEADER_LEN {
        return Err(VaultError::TransferTooShort);
    }
    proof {
        let m = bytes@.subrange(0, 4);
        assert(m[0] == bytes@[0] && m[1] == bytes@[1] && m[2] == bytes@[2] && m[3] == bytes@[3]);
        if bytes@[0] == 0x49 && bytes@[1] == 0x4e && bytes@[2] == 0x52 && bytes@[3] == 0x58 {
            assert(m =~= magic());
        }
        assert(magic()[0] == 0x49 && magic()[1] == 0x4e && magic()[2] == 0x52 && magic()[3]
            == 0x58);
    }
    if bytes[0] != 0x49 || bytes[1] != 0x4e || bytes[2] != 0x52 || bytes[3] != 0x58 {
        return Err(VaultError::NotATransferFile);
    }
    if bytes[4] != FORMAT_VERSION {
        return Err(VaultError::UnsupportedTransferVersion(bytes[4]));
    }
    let salt = array_of::<SALT_LEN>(vstd::slice::slice_subrange(bytes, 5, 21));
    let nonce = vstd::slice::slice_subrange(bytes, 21, 33);
    let ciphertext = vstd::slice::slice_subrange(bytes, 33, bytes.len());

    let key = match derive_key(passphrase, &salt) {
        Ok(key) => key,
        Err(e) => {
            return Err(e);
        },
    };
    match decrypt(&key, nonce, ciphertext) {
        Ok(plaintext) => Ok(plaintext),
        Err(_) => Err(VaultError::WrongTransferPassphrase),
    }
}

} // verus!
