//! What can go wrong, and how it is reported.

use vstd::prelude::*;

use crate::models::CmdVarKind;
use crate::transfer::FORMAT_VERSION;
use crate::text::decimal_of;
#[allow(unused_imports)]
use crate::text::decimal;

verus! {

broadcast use vstd::string::group_string_axioms;

/// Every failure the vault reports.
#[derive(Debug, PartialEq, Eq)]
pub enum VaultError {
    /// A stored command variable names a kind that does not exist.
    UnknownCommandVariableKind(String),
    /// An env names a kind that does not exist.
    UnknownEnvKind(String),
    /// A template holds `[%s:name]`.
    BracketedSecret(String),
    /// A template uses one name with two kinds.
    ConflictingKinds { name: String, first: CmdVarKind, second: CmdVarKind },
    /// A value was given for a variable that the template does not hold.
    VariableNotFound(String),
    /// The operating system has no random numbers to give.
    RngUnavailable,
    /// A password is longer than the key derivation takes.
    PasswordTooLong,
    /// A plaintext is longer than the cipher takes.
    EncryptionFailed,
    /// A nonce is not as long as the cipher wants it.
    InvalidNonceLength,
    /// A ciphertext does not belong to the key and the nonce.
    DecryptionFailed,
    /// The stored salt is not as long as it was written.
    BadSaltLength,
    /// The master password is not the one the vault was set up with.
    WrongPassword,
    /// A transfer file ends before its header does.
    TransferTooShort,
    /// A file that does not begin as transfer files do.
    NotATransferFile,
    /// A transfer file of a version that is not known here.
    UnsupportedTransferVersion(u8),
    /// The passphrase is not the one the transfer file was written with.
    WrongTransferPassphrase,
    /// A secret env is stored without its nonce.
    SecretWithoutNonce(String),
    /// A secret env holds something other than text.
    SecretNotUtf8(String),
    /// Secrets were to be imported into a vault without a master password.
    NotInitializedForImport,
    /// The vault has no master password yet.
    NotInitialized,
    /// The vault at this path already has a master password.
    AlreadyInitialized(String),
    /// An env was to be added without a name.
    EmptyEnvName,
    /// An env was to be added under a name that is taken.
    EnvExists { name: String, id: String },
    /// A secret to be copied is stored without its nonce.
    ClipboardSecretWithoutNonce,
    /// A secret to be copied holds something other than text.
    ClipboardSecretNotUtf8,
}

impl VaultError {
    /// The report for the user.
    pub open spec fn text(self) -> Seq<char> {
        match self {
            VaultError::UnknownCommandVariableKind(kind) => "unknown command variable kind: "@ + kind@,
            VaultError::UnknownEnvKind(kind) => "unknown env kind: "@ + kind@,
            VaultError::BracketedSecret(name) => "secret variable '"@ + name@
                + "' cannot use bracket syntax [%s:"@ + name@
                + "] - secrets are never inlined as literal text; use bare %s:"@ + name@
                + " instead"@,
            VaultError::ConflictingKinds { name, first, second } => "variable '"@ + name@
                + "' used with conflicting kinds ("@ + first.text() + " and "@ + second.text()
                + ")"@,
            VaultError::VariableNotFound(name) => "variable '"@ + name@ + "' not found in template"@,
            VaultError::RngUnavailable => "OS RNG unavailable"@,
            VaultError::PasswordTooLong => "key derivation failed: password is too long"@,
            VaultError::EncryptionFailed => "encryption failed"@,
            VaultError::InvalidNonceLength => "invalid nonce length"@,
            VaultError::DecryptionFailed => "wrong password or corrupted data"@,
            VaultError::BadSaltLength => "stored salt has unexpected length"@,
            VaultError::WrongPassword => "wrong password"@,
            VaultError::TransferTooShort => "not a valid inr transfer file (too short)"@,
            VaultError::NotATransferFile => "not an inr transfer file"@,
            VaultError::UnsupportedTransferVersion(version) => "unsupported transfer file version "@
                + decimal(version as nat) + " (this inr supports version "@ + decimal(
                FORMAT_VERSION as nat,
            ) + ")"@,
            VaultError::WrongTransferPassphrase => "wrong transfer passphrase or corrupted file"@,
            VaultError::SecretWithoutNonce(name) => "secret env '"@ + name@
                + "' is missing its nonce"@,
            VaultError::SecretNotUtf8(name) => "secret env '"@ + name@ + "' is not valid UTF-8"@,
            VaultError::NotInitializedForImport =>
                "inr is not initialized - run `inr i` first before importing secrets"@,
            VaultError::NotInitialized => "inr is not initialized - run `inr i` first"@,
            VaultError::AlreadyInitialized(path) => "inr is already initialized at "@ + path@,
            VaultError::EmptyEnvName => "env name cannot be empty"@,
            VaultError::EnvExists { name, id } => "'"@ + name@ + "' already exists (id: "@ + id@
                + ")"@,
            VaultError::ClipboardSecretWithoutNonce => "secret env is missing its nonce"@,
            VaultError::ClipboardSecretNotUtf8 => "secret is not valid UTF-8"@,
        }
    }

    /// Writes the report.
    pub fn message(&self) -> (r: String)
        ensures
            r@ == self.text(),
    {
        let mut out = String::new();
        match self {
            VaultError::UnknownCommandVariableKind(kind) => {
                out.append("unknown command variable kind: ");
                out.append(kind);
            },
            VaultError::UnknownEnvKind(kind) => {
                out.append("unknown env kind: ");
                out.append(kind);
            },
            VaultError::BracketedSecret(name) => {
                out.append("secret variable '");
                out.append(name);
                out.append("' cannot use bracket syntax [%s:");
                out.append(name);
                out.append("] - secrets are never inlined as literal text; use bare %s:");
                out.append(name);
                out.append(" instead");
            },
            VaultError::ConflictingKinds { name, first, second } => {
                out.append("variable '");
                out.append(name);
                out.append("' used with conflicting kinds (");
                out.append(first.as_str());
                out.append(" and ");
                out.append(second.as_str());
                out.append(")");
            },
            VaultError::VariableNotFound(name) => {
                out.append("variable '");
                out.append(name);
                out.append("' not found in template");
            },
            VaultError::RngUnavailable => out.append("OS RNG unavailable"),
            VaultError::PasswordTooLong => out.append("key derivation failed: password is too long"),
            VaultError::EncryptionFailed => out.append("encryption failed"),
            VaultError::InvalidNonceLength => out.append("invalid nonce length"),
            VaultError::DecryptionFailed => out.append("wrong password or corrupted data"),
            VaultError::BadSaltLength => out.append("stored salt has unexpected length"),
            VaultError::WrongPassword => out.append("wrong password"),
            VaultError::TransferTooShort => out.append(
                "not a valid inr transfer file (too short)",
            ),
            VaultError::NotATransferFile => out.append("not an inr transfer file"),
            VaultError::UnsupportedTransferVersion(version) => {
                out.append("unsupported transfer file version ");
                out.append(&decimal_of(*version as u64));
                out.append(" (this inr supports version ");
                out.append(&decimal_of(FORMAT_VERSION as u64));
                out.append(")");
            },
            VaultError::WrongTransferPassphrase => out.append(
                "wrong transfer passphrase or corrupted file",
            ),
            VaultError::SecretWithoutNonce(name) => {
                out.append("secret env '");
                out.append(name);
                out.append("' is missing its nonce");
            },
            VaultError::SecretNotUtf8(name) => {
                out.append("secret env '");
                out.append(name);
                out.append("' is not valid UTF-8");
            },
            VaultError::NotInitializedForImport => out.append(
                "inr is not initialized - run `inr i` first before importing secrets",
            ),
            VaultError::NotInitialized => out.append("inr is not initialized - run `inr i` first"),
            VaultError::AlreadyInitialized(path) => {
                out.append("inr is already initialized at ");
                out.append(path);
            },
            VaultError::EmptyEnvName => out.append("env name cannot be empty"),
            VaultError::EnvExists { name, id } => {
                out.append("'");
                out.append(name);
                out.append("' already exists (id: ");
                out.append(id);
                out.append(")");
            },
            VaultError::ClipboardSecretWithoutNonce => out.append(
                "secret env is missing its nonce",
            ),
            VaultError::ClipboardSecretNotUtf8 => out.append("secret is not valid UTF-8"),
        }
        out
    }
}

} // verus!
