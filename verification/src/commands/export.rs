//! `inr export`: packing the vault into a transfer file.

use vstd::prelude::*;

use crate::crypto::DerivedKey;
use crate::error::VaultError;
use crate::models::{EnvKind, StoredCommand, StoredEnv};
#[allow(unused_imports)]
use crate::models::{CommandView, EnvView};
use crate::name_map::NameMap;
use crate::text::{decimal_of, lossy_text};
#[allow(unused_imports)]
use crate::text::{decimal, read_lossily};
use crate::transfer::{ExportedCommand, ExportedEnv, TransferPayload};
#[allow(unused_imports)]
use crate::transfer::{ExportedCommandView, ExportedEnvView, TransferPayloadView};
use crate::vars::decrypt_env_value;
#[allow(unused_imports)]
use crate::vars::{reports_fault, secret_value, SecretFault};
#[allow(unused_imports)]
use crate::views::{group_views, views};
#[allow(unused_imports)]
use crate::commands::import::diff::{
    is_identical_command, is_identical_env, key_view, local_value,
};
#[allow(unused_imports)]
use crate::commands::import::plan::{is_built_env, stored_command};
#[allow(unused_imports)]
use vstd::utf8::valid_utf8;

verus! {

broadcast use {vstd::string::group_string_axioms, group_views};

/// Whether some env is a secret, so that the master key is needed to export
/// it.
pub open spec fn needs_key(envs: Seq<EnvView>) -> bool {
    exists|i: int| 0 <= i < envs.len() && (#[trigger] envs[i]).kind == EnvKind::Secret
}

pub fn export_needs_key(envs: &[StoredEnv]) -> (r: bool)
    ensures
        r == needs_key(views(envs@)),
{
    let mut i: usize = 0;
    while i < envs.len()
        invariant
            i <= envs.len(),
            forall|j: int| 0 <= j < i ==> (#[trigger] views(envs@)[j]).kind != EnvKind::Secret,
        decreases envs.len() - i,
    {
        if envs[i].kind == EnvKind::Secret {
            assert(views(envs@)[i as int].kind == EnvKind::Secret);
            return true;
        }
        i += 1;
    }
    false
}

/// The plaintext of an env, or what is wrong with it.
pub open spec fn exported_value(key: Option<Seq<u8>>, env: EnvView) -> Result<
    Seq<char>,
    SecretFault,
> {
    if env.kind != EnvKind::Secret {
        Ok(read_lossily(env.value))
    } else {
        secret_value(key->0, env)
    }
}

/// Whether `ee` is what an env looks like in a transfer file.
pub open spec fn is_exported_env(ee: ExportedEnvView, env: EnvView, key: Option<Seq<u8>>) -> bool {
    &&& ee.id == env.id
    &&& ee.name == env.name
    &&& ee.kind == env.kind.text()
    &&& exported_value(key, env) == Ok::<Seq<char>, SecretFault>(ee.value)
    &&& ee.description == env.description
    &&& ee.created_at == env.created_at
    &&& ee.updated_at == env.updated_at
}

/// Prepares an env for export, with a secret decrypted. The key must have been
/// unlocked then.
pub fn export_env(env: &StoredEnv, key: Option<&DerivedKey>) -> (r: Result<ExportedEnv, VaultError>)
    requires
        env.kind == EnvKind::Secret && env.nonce is Some ==> key is Some,
    ensures
        match r {
            Ok(ee) => is_exported_env(ee@, env@, key_view(key)),
            Err(e) => exported_value(key_view(key), env@) matches Err(fault) && reports_fault(
                e,
                fault,
                env.name@,
            ),
        },
{
    let value = match env.kind {
        EnvKind::Secret => {
            if env.nonce.is_none() {
                return Err(VaultError::SecretWithoutNonce(env.name.clone()));
            }
            match decrypt_env_value(key.unwrap(), env) {
                Ok(value) => value.as_str().to_string(),
                Err(e) => {
                    return Err(e);
                },
            }
        },
        _ => lossy_text(env.value.as_slice()),
    };
    Ok(
        ExportedEnv {
            id: env.id.clone(),
            name: env.name.clone(),
            kind: env.kind.as_str().to_string(),
            value,
            description: env.description.clone(),
            created_at: env.created_at.clone(),
            updated_at: env.updated_at.clone(),
        },
    )
}

/// The report of the first env that cannot be exported.
pub open spec fn reports_first_unreadable(
    e: VaultError,
    envs: Seq<EnvView>,
    key: Option<Seq<u8>>,
) -> bool {
    exists|i: int|
        0 <= i < envs.len() && (exported_value(key, #[trigger] envs[i]) matches Err(fault)
            && reports_fault(e, fault, envs[i].name)) && forall|j: int|
            0 <= j < i ==> exported_value(key, #[trigger] envs[j]) is Ok
}

/// Prepares all envs for export, in order. A secret that cannot be read is an
/// error, the first one of them if there are more.
pub fn export_envs(envs: &[StoredEnv], key: Option<&DerivedKey>) -> (r: Result<
    Vec<ExportedEnv>,
    VaultError,
>)
    requires
        needs_key(views(envs@)) ==> key is Some,
    ensures
        match r {
            Ok(out) => {
                &&& out@.len() == envs@.len()
                &&& forall|i: int|
                    0 <= i < envs@.len() ==> is_exported_env(
                        #[trigger] views(out@)[i],
                        views(envs@)[i],
                        key_view(key),
                    )
            },
            Err(e) => reports_first_unreadable(e, views(envs@), key_view(key)),
        },
{
    let mut out: Vec<ExportedEnv> = Vec::new();
    let mut i: usize = 0;
    while i < envs.len()
        invariant
            i <= envs.len(),
            needs_key(views(envs@)) ==> key is Some,
            out@.len() == i,
            forall|j: int|
                0 <= j < i ==> is_exported_env(
                    #[trigger] views(out@)[j],
                    views(envs@)[j],
                    key_view(key),
                ),
        decreases envs.len() - i,
    {
        assert(views(envs@)[i as int] == envs@[i as int]@);
        match export_env(&envs[i], key) {
            Ok(ee) => {
                let ghost before = views(out@);
                out.push(ee);
                assert forall|j: int| 0 <= j < i + 1 implies is_exported_env(
                    #[trigger] views(out@)[j],
                    views(envs@)[j],
                    key_view(key),
                ) by {
                    if j < i {
                        assert(views(out@)[j] == before[j]);
                    }
                }
            },
            Err(e) => {
                assert forall|j: int| 0 <= j < i implies exported_value(
                    key_view(key),
                    #[trigger] views(envs@)[j],
                ) is Ok by {
                    assert(is_exported_env(views(out@)[j], views(envs@)[j], key_view(key)));
                }
                return Err(e);
            },
        }
        i += 1;
    }
    Ok(out)
}

/// What a command looks like in a transfer file.
pub open spec fn exported_command(
    cmd: CommandView,
    variable_defaults: Map<Seq<char>, Seq<char>>,
) -> ExportedCommandView {
    ExportedCommandView {
        id: cmd.id,
        template: cmd.template,
        description: cmd.description,
        created_at: cmd.created_at,
        updated_at: cmd.updated_at,
        variable_defaults,
    }
}

/// Prepares a command for export, with the names of its default envs.
pub fn export_command(cmd: &StoredCommand, variable_defaults: NameMap) -> (r: ExportedCommand)
    ensures
        r@ == exported_command(cmd@, variable_defaults@),
{
    ExportedCommand {
        id: cmd.id.clone(),
        template: cmd.template.clone(),
        description: cmd.description.clone(),
        created_at: cmd.created_at.clone(),
        updated_at: cmd.updated_at.clone(),
        variable_defaults,
    }
}

/// Whether `p` carries these commands with the names of their default envs, and
/// these envs, each once and in order.
pub open spec fn is_exported_vault(
    p: TransferPayloadView,
    commands: Seq<CommandView>,
    defaults: Seq<Map<Seq<char>, Seq<char>>>,
    envs: Seq<EnvView>,
    key: Option<Seq<u8>>,
) -> bool {
    &&& p.commands.len() == commands.len()
    &&& forall|i: int|
        0 <= i < commands.len() ==> #[trigger] p.commands[i] == exported_command(
            commands[i],
            defaults[i],
        )
    &&& p.envs.len() == envs.len()
    &&& forall|i: int|
        0 <= i < envs.len() ==> is_exported_env(#[trigger] p.envs[i], envs[i], key)
}

/// Packs a whole vault. `defaults[i]` holds the names of the default envs of
/// `commands[i]`. The key must have been unlocked if some env is a secret. A
/// secret that cannot be read is an error.
pub fn export_vault(
    exported_at: String,
    commands: &[StoredCommand],
    defaults: &[NameMap],
    envs: &[StoredEnv],
    key: Option<&DerivedKey>,
) -> (r: Result<TransferPayload, VaultError>)
    requires
        commands@.len() == defaults@.len(),
        needs_key(views(envs@)) ==> key is Some,
    ensures
        match r {
            Ok(p) => {
                &&& p.exported_at@ == exported_at@
                &&& is_exported_vault(
                    p@,
                    views(commands@),
                    views(defaults@),
                    views(envs@),
                    key_view(key),
                )
            },
            Err(e) => reports_first_unreadable(e, views(envs@), key_view(key)),
        },
{
    let exported_envs = match export_envs(envs, key) {
        Ok(exported_envs) => exported_envs,
        Err(e) => {
            return Err(e);
        },
    };
    let mut out: Vec<ExportedCommand> = Vec::new();
    let mut i: usize = 0;
    while i < commands.len()
        invariant
            i <= commands.len(),
            commands@.len() == defaults@.len(),
            out@.len() == i,
            forall|j: int|
                0 <= j < i ==> #[trigger] views(out@)[j] == exported_command(
                    views(commands@)[j],
                    views(defaults@)[j],
                ),
        decreases commands.len() - i,
    {
        let ghost before = views(out@);
        out.push(export_command(&commands[i], defaults[i].clone()));
        assert forall|j: int| 0 <= j < i + 1 implies #[trigger] views(out@)[j] == exported_command(
            views(commands@)[j],
            views(defaults@)[j],
        ) by {
            if j < i {
                assert(views(out@)[j] == before[j]);
            }
        }
        i += 1;
    }
    Ok(TransferPayload { exported_at, commands: out, envs: exported_envs })
}

/// An env that came out of an export and an import says what it said before:
/// everything but the value is the same, a secret has under the new key the
/// value that it had under the old one, and a plain value is the same text.
pub open spec fn env_survives(
    env: EnvView,
    key: Option<Seq<u8>>,
    imported: EnvView,
    dest_key: Option<Seq<u8>>,
) -> bool {
    &&& imported.id == env.id
    &&& imported.name == env.name
    &&& imported.kind == env.kind
    &&& imported.description == env.description
    &&& imported.created_at == env.created_at
    &&& imported.updated_at == env.updated_at
    &&& if env.kind == EnvKind::Secret {
        secret_value(key->0, env) is Ok && secret_value(dest_key->0, imported) == secret_value(
            key->0,
            env,
        )
    } else {
        &&& read_lossily(imported.value) == read_lossily(env.value)
        &&& env.nonce is None && valid_utf8(env.value) ==> imported == env
    }
}

/// The whole vault survives a transfer: every command and every env that was
/// exported comes back, once and in order, the commands just as they were and
/// with the names of their default envs. `imported[i]` is what the import makes
/// of the file's i-th env.
pub proof fn vault_survives_a_transfer(
    p: TransferPayloadView,
    commands: Seq<CommandView>,
    defaults: Seq<Map<Seq<char>, Seq<char>>>,
    envs: Seq<EnvView>,
    key: Option<Seq<u8>>,
    imported: Seq<EnvView>,
    dest_key: Option<Seq<u8>>,
)
    requires
        commands.len() == defaults.len(),
        is_exported_vault(p, commands, defaults, envs, key),
        imported.len() == p.envs.len(),
        forall|i: int|
            0 <= i < p.envs.len() ==> is_built_env(#[trigger] imported[i], p.envs[i], dest_key),
    ensures
        Seq::new(p.commands.len(), |i: int| stored_command(p.commands[i])) == commands,
        Seq::new(p.commands.len(), |i: int| p.commands[i].variable_defaults) == defaults,
        imported.len() == envs.len(),
        forall|i: int|
            0 <= i < envs.len() ==> env_survives(envs[i], key, #[trigger] imported[i], dest_key),
{
    assert forall|i: int| 0 <= i < commands.len() implies stored_command(p.commands[i])
        == commands[i] by {
        commands_survive_a_transfer(commands[i], defaults[i]);
    }
    assert(Seq::new(p.commands.len(), |i: int| stored_command(p.commands[i])) =~= commands);
    assert(Seq::new(p.commands.len(), |i: int| p.commands[i].variable_defaults) =~= defaults);
    assert forall|i: int| 0 <= i < envs.len() implies env_survives(
        envs[i],
        key,
        #[trigger] imported[i],
        dest_key,
    ) by {
        let env = envs[i];
        let ee = p.envs[i];
        assert(is_exported_env(ee, env, key));
        crate::models::env_kind_round_trip(env.kind);
        if env.kind != EnvKind::Secret {
            vstd::utf8::encode_utf8_valid_utf8(ee.value);
            vstd::utf8::encode_utf8_decode_utf8(ee.value);
            if valid_utf8(env.value) {
                vstd::utf8::decode_utf8_encode_utf8(env.value);
            }
        }
    }
}

/// A secret that is exported from one vault and imported into another is
/// re-keyed, not copied: under the new vault's key it has the value that it
/// had under the old one's.
pub proof fn secrets_are_rekeyed(
    env: EnvView,
    source_key: Seq<u8>,
    ee: ExportedEnvView,
    imported: EnvView,
    dest_key: Seq<u8>,
)
    requires
        env.kind == EnvKind::Secret,
        is_exported_env(ee, env, Some(source_key)),
        is_built_env(imported, ee, Some(dest_key)),
    ensures
        imported.kind == EnvKind::Secret,
        imported.name == env.name,
        secret_value(dest_key, imported) == secret_value(source_key, env),
{
    crate::models::env_kind_round_trip(env.kind);
}

/// A command comes out of an export and an import as it went in.
pub proof fn commands_survive_a_transfer(
    cmd: CommandView,
    variable_defaults: Map<Seq<char>, Seq<char>>,
)
    ensures
        stored_command(exported_command(cmd, variable_defaults)) == cmd,
{
}

/// A plain env comes out of an export and an import as it went in, if its
/// value is text.
pub proof fn plain_envs_survive_a_transfer(
    env: EnvView,
    source_key: Option<Seq<u8>>,
    ee: ExportedEnvView,
    imported: EnvView,
    dest_key: Option<Seq<u8>>,
)
    requires
        env.kind != EnvKind::Secret,
        env.nonce is None,
        valid_utf8(env.value),
        is_exported_env(ee, env, source_key),
        is_built_env(imported, ee, dest_key),
    ensures
        imported == env,
{
    crate::models::env_kind_round_trip(env.kind);
    vstd::utf8::decode_utf8_encode_utf8(env.value);
}

/// A vault that imports its own export, unchanged since, finds nothing new and
/// no conflict.
pub proof fn own_export_is_identical(
    cmd: CommandView,
    variable_defaults: Map<Seq<char>, Seq<char>>,
    env: EnvView,
    ee: ExportedEnvView,
    key: Option<Seq<u8>>,
)
    requires
        env.kind == EnvKind::Secret ==> key is Some,
        is_exported_env(ee, env, key),
    ensures
        is_identical_command((exported_command(cmd, variable_defaults), Some(cmd))),
        local_value(key, env) is Ok,
        is_identical_env((ee, Some((env, local_value(key, env)->Ok_0)))),
{
}

/// What an export is about to do.
pub fn exporting_line(commands: usize, envs: usize) -> (r: String)
    ensures
        r@ == "Exporting "@ + decimal(commands as nat) + " command(s) and "@ + decimal(envs as nat)
            + " env(s)."@,
{
    let mut out = "Exporting ".to_string();
    out.append(&decimal_of(commands as u64));
    out.append(" command(s) and ");
    out.append(&decimal_of(envs as u64));
    out.append(" env(s).");
    out
}

/// What an export has done.
pub fn exported_line(path: &str, commands: usize, envs: usize) -> (r: String)
    ensures
        r@ == "Wrote "@ + path@ + " ("@ + decimal(commands as nat) + " command(s), "@ + decimal(
            envs as nat,
        )
            + " env(s)). Keep the transfer passphrase safe - it's needed to import this file."@,
{
    let mut out = "Wrote ".to_string();
    out.append(path);
    out.append(" (");
    out.append(&decimal_of(commands as u64));
    out.append(" command(s), ");
    out.append(&decimal_of(envs as u64));
    out.append(
        " env(s)). Keep the transfer passphrase safe - it's needed to import this file.",
    );
    out
}

} // verus!
