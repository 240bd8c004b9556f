//! The values of envs as they are stored: a secret encrypted, and nothing else.

use vstd::prelude::*;
#[allow(unused_imports)]
use vstd::utf8::encode_utf8;

use crate::crypto::{encrypt, DerivedKey, NONCE_LEN};
#[allow(unused_imports)]
use crate::crypto::{aes_gcm_sealed, opened, plaintext_fits};
use crate::error::VaultError;
use crate::models::EnvKind;
#[allow(unused_imports)]
use crate::models::EnvView;
use crate::text::{copy_bytes, utf8_bytes};
#[allow(unused_imports)]
use crate::text::read_lossily;
#[allow(unused_imports)]
use crate::vars::{encrypted_secret_reads_back, secret_value, SecretFault};
#[allow(unused_imports)]
use crate::views::opt_view;

verus! {

broadcast use {vstd::string::group_string_axioms, vstd::array::group_array_axioms};

/// A value as it is stored, as a value.
pub struct EnvValueView {
    pub kind: EnvKind,
    pub bytes: Seq<u8>,
    pub nonce: Option<Seq<u8>>,
}

/// What the value of an env is stored as: its kind, the bytes, and the nonce
/// that they are encrypted with. Exactly a secret has a nonce.
pub struct EnvValue {
    kind: EnvKind,
    bytes: Vec<u8>,
    nonce: Option<Vec<u8>>,
}

impl View for EnvValue {
    type V = EnvValueView;

    closed spec fn view(&self) -> EnvValueView {
        EnvValueView { kind: self.kind, bytes: self.bytes@, nonce: opt_view(self.nonce) }
    }
}

impl EnvValue {
    #[verifier::type_invariant]
    spec fn encrypted_if_secret(self) -> bool {
        self.nonce is Some <==> self.kind == EnvKind::Secret
    }

    /// The kind, the bytes and the nonce.
    pub fn into_parts(self) -> (r: (EnvKind, Vec<u8>, Option<Vec<u8>>))
        ensures
            r.0 == self@.kind,
            r.1@ == self@.bytes,
            opt_view(r.2) == self@.nonce,
            r.2 is Some <==> r.0 == EnvKind::Secret,
    {
        proof {
            use_type_invariant(&self);
        }
        (self.kind, self.bytes, self.nonce)
    }
}

/// Whether a text is stored like this: a secret sealed under the key, so that
/// the key opens it, and anything else as it is.
pub open spec fn holds_text(v: EnvValueView, key: Seq<u8>, text: Seq<char>) -> bool {
    if v.kind == EnvKind::Secret {
        v.nonce matches Some(nonce) && {
            &&& nonce.len() == NONCE_LEN
            &&& v.bytes == aes_gcm_sealed(key, nonce, encode_utf8(text))
            &&& opened(key, nonce, v.bytes) == Some(encode_utf8(text))
        }
    } else {
        v.bytes == encode_utf8(text) && v.nonce is None
    }
}

/// Whether the master key is needed to store or to read a value of this kind.
pub fn kind_needs_key(kind: EnvKind) -> (r: bool)
    ensures
        r == (kind == EnvKind::Secret),
{
    kind == EnvKind::Secret
}

/// Makes what is stored of a text, by its kind: a secret is encrypted under the
/// master key, which must have been unlocked then, and anything else is stored
/// as it is.
pub fn stored_value(kind: EnvKind, key: Option<&DerivedKey>, text: &str) -> (r: Result<
    EnvValue,
    VaultError,
>)
    requires
        kind == EnvKind::Secret ==> key is Some,
    ensures
        match r {
            Ok(value) => value@.kind == kind && holds_text(value@, key->0@, text@),
            Err(VaultError::EncryptionFailed) => kind == EnvKind::Secret && !plaintext_fits(
                encode_utf8(text@),
            ),
            Err(VaultError::RngUnavailable) => kind == EnvKind::Secret,
            Err(_) => false,
        },
{
    let bytes = utf8_bytes(text);
    if kind != EnvKind::Secret {
        return Ok(EnvValue { kind, bytes, nonce: None });
    }
    match encrypt(key.unwrap(), bytes.as_slice()) {
        Ok((nonce, cipher)) => Ok(
            EnvValue { kind, bytes: cipher, nonce: Some(copy_bytes(nonce.as_slice())) },
        ),
        Err(e) => Err(e),
    }
}

/// The part of an env that is its value.
pub open spec fn value_of(env: EnvView) -> EnvValueView {
    EnvValueView { kind: env.kind, bytes: env.value, nonce: env.nonce }
}

/// What was stored is read back: a secret under the key it was encrypted with,
/// and anything else as it is.
pub proof fn stored_values_read_back(env: EnvView, key: Seq<u8>, text: Seq<char>)
    requires
        holds_text(value_of(env), key, text),
    ensures
        env.kind == EnvKind::Secret ==> secret_value(key, env) == Ok::<Seq<char>, SecretFault>(
            text,
        ),
        env.kind != EnvKind::Secret ==> read_lossily(env.value) == text,
{
    if env.kind == EnvKind::Secret {
        encrypted_secret_reads_back(key, env, text);
    } else {
        vstd::utf8::encode_utf8_valid_utf8(text);
        vstd::utf8::encode_utf8_decode_utf8(text);
    }
}

} // verus!
