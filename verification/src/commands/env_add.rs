//! `inr env a`: adding an env.

use vstd::prelude::*;
#[allow(unused_imports)]
use vstd::utf8::encode_utf8;

use crate::crypto::DerivedKey;
#[allow(unused_imports)]
use crate::crypto::plaintext_fits;
#[allow(unused_imports)]
use crate::db::vault::{changed, ChangeView, VaultView};
use crate::env_value::{stored_value, EnvValue};
#[allow(unused_imports)]
use crate::env_value::{holds_text, stored_values_read_back, value_of};
use crate::error::VaultError;
use crate::models::{parse_env_spec, EnvKind, StoredEnv};
#[allow(unused_imports)]
use crate::models::{env_spec, EnvView};
use crate::number::{parses_as_float, parses_as_integer};
#[allow(unused_imports)]
use crate::number::{is_float, is_integer};
#[allow(unused_imports)]
use crate::text::read_lossily;
#[allow(unused_imports)]
use crate::vars::{secret_value, SecretFault};

verus! {

broadcast use vstd::string::group_string_axioms;

/// Reads the name argument: the kind and the name of the new env. The name
/// must not be empty.
pub fn new_env_name(spec_text: &str) -> (r: Result<(EnvKind, String), VaultError>)
    ensures
        match r {
            Ok((kind, name)) => (kind, name@) == env_spec(spec_text@) && name@.len() > 0,
            Err(VaultError::EmptyEnvName) => env_spec(spec_text@).1.len() == 0,
            Err(_) => false,
        },
{
    let (kind, name) = parse_env_spec(spec_text);
    if name.as_str().is_empty() {
        assert(name@.len() == 0);
        Err(VaultError::EmptyEnvName)
    } else {
        Ok((kind, name))
    }
}

/// Refuses a name that some env already has.
pub fn check_name_is_free(name: &str, existing: &Option<StoredEnv>) -> (r: Result<(), VaultError>)
    ensures
        match r {
            Ok(()) => existing is None,
            Err(VaultError::EnvExists { name: n, id }) => {
                existing matches Some(env) && n@ == name@ && id@ == env.id@
            },
            Err(_) => false,
        },
{
    match existing {
        Some(env) => Err(VaultError::EnvExists { name: name.to_string(), id: env.id.clone() }),
        None => Ok(()),
    }
}

/// Whether a text may be the value of an env of this kind.
pub open spec fn is_value_for(kind: EnvKind, value: Seq<char>) -> bool {
    match kind {
        EnvKind::Secret => true,
        EnvKind::Text => true,
        EnvKind::NumberFloat => is_float(value),
        EnvKind::NumberInt => is_integer(value),
    }
}

/// How the value of a new env is asked for.
#[derive(Debug, Clone, Copy, PartialEq, Eq, Structural)]
pub enum ValuePrompt {
    /// What is typed is not shown.
    Hidden,
    /// What is typed is shown.
    Shown,
}

/// Nothing but a secret is typed unseen.
pub fn value_prompt(kind: EnvKind) -> (r: ValuePrompt)
    ensures
        r == (if kind == EnvKind::Secret {
            ValuePrompt::Hidden
        } else {
            ValuePrompt::Shown
        }),
{
    match kind {
        EnvKind::Secret => ValuePrompt::Hidden,
        _ => ValuePrompt::Shown,
    }
}

/// The notice about a text that is no value for its kind.
pub open spec fn value_notice(kind: EnvKind, value: Seq<char>) -> Seq<char> {
    "'"@ + value + if kind == EnvKind::NumberFloat {
        "' is not a valid float."@
    } else {
        "' is not a valid integer."@
    }
}

/// Judges a value: a notice about what is wrong with it, if anything is.
pub fn value_fault(kind: EnvKind, value: &str) -> (r: Option<String>)
    ensures
        match r {
            Some(notice) => {
                &&& !is_value_for(kind, value@)
                &&& notice@ == value_notice(kind, value@)
            },
            None => is_value_for(kind, value@),
        },
{
    match kind {
        EnvKind::Secret => None,
        EnvKind::Text => None,
        EnvKind::NumberFloat => {
            if parses_as_float(value) {
                None
            } else {
                let mut notice = "'".to_string();
                notice.append(value);
                notice.append("' is not a valid float.");
                Some(notice)
            }
        },
        EnvKind::NumberInt => {
            if parses_as_integer(value) {
                None
            } else {
                let mut notice = "'".to_string();
                notice.append(value);
                notice.append("' is not a valid integer.");
                Some(notice)
            }
        },
    }
}

/// What follows from a value that was typed.
pub enum ValueStep {
    /// Ask again, after this notice.
    AskAgain(String),
    /// Store this.
    Store(EnvValue),
}

/// Judges what was typed and, if it may be the value of an env of this kind,
/// makes what is stored of it. The key must have been unlocked for a secret.
pub fn take_value(kind: EnvKind, key: Option<&DerivedKey>, typed: &str) -> (r: Result<
    ValueStep,
    VaultError,
>)
    requires
        kind == EnvKind::Secret ==> key is Some,
    ensures
        match r {
            Ok(ValueStep::Store(value)) => {
                &&& is_value_for(kind, typed@)
                &&& value@.kind == kind
                &&& holds_text(value@, key->0@, typed@)
            },
            Ok(ValueStep::AskAgain(notice)) => {
                &&& !is_value_for(kind, typed@)
                &&& notice@ == value_notice(kind, typed@)
            },
            Err(VaultError::EncryptionFailed) => kind == EnvKind::Secret && !plaintext_fits(
                encode_utf8(typed@),
            ),
            Err(VaultError::RngUnavailable) => kind == EnvKind::Secret,
            Err(_) => false,
        },
{
    if let Some(notice) = value_fault(kind, typed) {
        return Ok(ValueStep::AskAgain(notice));
    }
    match stored_value(kind, key, typed) {
        Ok(value) => Ok(ValueStep::Store(value)),
        Err(e) => Err(e),
    }
}

/// The new env. Its kind is that of its value.
pub fn new_env(
    id: String,
    name: String,
    value: EnvValue,
    description: String,
    now: String,
) -> (r: StoredEnv)
    ensures
        r@ == (EnvView {
            id: id@,
            name: name@,
            kind: value@.kind,
            value: value@.bytes,
            nonce: value@.nonce,
            description: description@,
            created_at: now@,
            updated_at: now@,
        }),
        r.nonce is Some <==> r.kind == EnvKind::Secret,
{
    let (kind, bytes, nonce) = value.into_parts();
    StoredEnv {
        id,
        name,
        kind,
        value: bytes,
        nonce,
        description,
        created_at: now.clone(),
        updated_at: now,
    }
}

/// An env whose name and id are free is added, and nothing else changes. A
/// secret is stored encrypted and reads back under the master key as what was
/// typed; anything else is stored without a nonce and reads back as it is.
pub proof fn an_added_env_keeps_what_was_typed(
    v: VaultView,
    env: EnvView,
    key: Seq<u8>,
    typed: Seq<char>,
)
    requires
        !v.envs.contains_key(env.id),
        !v.has_env_named(env.name),
        holds_text(value_of(env), key, typed),
    ensures
        changed(v, ChangeView::InsertEnv(env)) == Some(
            (VaultView { envs: v.envs.insert(env.id, env), ..v }),
        ),
        env.nonce is Some <==> env.kind == EnvKind::Secret,
        env.kind == EnvKind::Secret ==> secret_value(key, env) == Ok::<Seq<char>, SecretFault>(
            typed,
        ),
        env.kind != EnvKind::Secret ==> env.value == encode_utf8(typed) && read_lossily(env.value)
            == typed,
{
    stored_values_read_back(env, key, typed);
}

} // verus!
