//! `inr env s`: copying the value of an env to the clipboard.

use vstd::prelude::*;

use crate::crypto::{decrypt, DerivedKey};
use crate::error::VaultError;
use crate::models::{EnvKind, StoredEnv};
use crate::text::{lossy_text, strict_text};
#[allow(unused_imports)]
use crate::text::read_lossily;
#[allow(unused_imports)]
use crate::vars::{secret_value, SecretFault};
#[allow(unused_imports)]
use crate::views::opt_view;

verus! {

broadcast use vstd::string::group_string_axioms;

/// How long a secret stays in the clipboard, in seconds.
pub const CLIPBOARD_CLEAR_AFTER_SECS: u64 = 20;

/// How long to wait for a key at a time, in milliseconds.
pub const KEY_POLL_MILLIS: u64 = 200;

/// The value of a plain env.
pub fn plain_clipboard_value(env: &StoredEnv) -> (r: String)
    ensures
        r@ == read_lossily(env.value@),
{
    lossy_text(env.value.as_slice())
}

/// The value of a secret env, decrypted.
pub fn secret_clipboard_value(key: &DerivedKey, env: &StoredEnv) -> (r: Result<String, VaultError>)
    ensures
        match r {
            Ok(value) => secret_value(key@, env@) == Ok::<Seq<char>, SecretFault>(value@),
            Err(VaultError::ClipboardSecretWithoutNonce) => secret_value(key@, env@) == Err::<
                Seq<char>,
                SecretFault,
            >(SecretFault::NoNonce),
            Err(VaultError::InvalidNonceLength) => secret_value(key@, env@) == Err::<
                Seq<char>,
                SecretFault,
            >(SecretFault::BadNonce),
            Err(VaultError::DecryptionFailed) => secret_value(key@, env@) == Err::<
                Seq<char>,
                SecretFault,
            >(SecretFault::WrongKey),
            Err(VaultError::ClipboardSecretNotUtf8) => secret_value(key@, env@) == Err::<
                Seq<char>,
                SecretFault,
            >(SecretFault::NotUtf8),
            Err(_) => false,
        },
{
    let nonce = match &env.nonce {
        Some(nonce) => nonce,
        None => {
            return Err(VaultError::ClipboardSecretWithoutNonce);
        },
    };
    let plaintext = match decrypt(key, nonce.as_slice(), env.value.as_slice()) {
        Ok(plaintext) => plaintext,
        Err(e) => {
            return Err(e);
        },
    };
    match strict_text(plaintext.as_slice()) {
        Some(text) => Ok(text),
        None => Err(VaultError::ClipboardSecretNotUtf8),
    }
}

/// What goes to the clipboard, by the kind of the env. The master key must have
/// been unlocked for a secret.
pub fn clipboard_value(env: &StoredEnv, key: Option<&DerivedKey>) -> (r: Result<String, VaultError>)
    requires
        env.kind == EnvKind::Secret ==> key is Some,
    ensures
        match r {
            Ok(value) => if env.kind == EnvKind::Secret {
                secret_value(key->0@, env@) == Ok::<Seq<char>, SecretFault>(value@)
            } else {
                value@ == read_lossily(env.value@)
            },
            Err(e) => env.kind == EnvKind::Secret && (secret_value(key->0@, env@) matches Err(fault)
                && match fault {
                SecretFault::NoNonce => e is ClipboardSecretWithoutNonce,
                SecretFault::BadNonce => e is InvalidNonceLength,
                SecretFault::WrongKey => e is DecryptionFailed,
                SecretFault::NotUtf8 => e is ClipboardSecretNotUtf8,
            }),
        },
{
    match env.kind {
        EnvKind::Secret => secret_clipboard_value(key.unwrap(), env),
        _ => Ok(plain_clipboard_value(env)),
    }
}

/// Whether to clear the clipboard after a copy: only a secret is cleared.
pub fn clears_clipboard(kind: EnvKind) -> (r: bool)
    ensures
        r == (kind == EnvKind::Secret),
{
    kind == EnvKind::Secret
}

/// What to do while a secret is in the clipboard.
#[derive(Debug, Clone, Copy, PartialEq, Eq, Structural)]
pub enum WaitStep {
    /// Wait for a key for so many milliseconds, then look again.
    Poll(u64),
    /// Stop waiting.
    Stop,
}

/// Goes on waiting until the time is over or a key is pressed, and looks at the
/// time again after at most `KEY_POLL_MILLIS`.
pub fn wait_step(remaining_millis: u64, key_pressed: bool) -> (r: WaitStep)
    ensures
        r == (if key_pressed || remaining_millis == 0 {
            WaitStep::Stop
        } else {
            WaitStep::Poll(
                if remaining_millis < KEY_POLL_MILLIS {
                    remaining_millis
                } else {
                    KEY_POLL_MILLIS
                },
            )
        }),
{
    if key_pressed || remaining_millis == 0 {
        WaitStep::Stop
    } else if remaining_millis < KEY_POLL_MILLIS {
        WaitStep::Poll(remaining_millis)
    } else {
        WaitStep::Poll(KEY_POLL_MILLIS)
    }
}

/// Only clear if the clipboard still holds exactly what we put there -
/// don't clobber something the user copied elsewhere in the meantime. A
/// clipboard that cannot be read is left alone.
pub fn still_holds(current: &Option<String>, expected: &str) -> (r: bool)
    ensures
        r == (opt_view(*current) == Some(expected@)),
{
    match current {
        Some(text) => *text.as_str() == *expected,
        None => false,
    }
}

} // verus!
