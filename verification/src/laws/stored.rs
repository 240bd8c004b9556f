//! What is read back of what was written, and how faults are reported.

use vstd::prelude::*;

#[allow(unused_imports)]
use crate::commands::env_add::value_notice;
#[allow(unused_imports)]
use crate::commands::import::defaults::link_changes;
#[allow(unused_imports)]
use crate::crypto::{password_fits, plaintext_fits, NONCE_LEN, SALT_LEN};
#[allow(unused_imports)]
use crate::db::commands_repo::{
    insert_command_changes, row_variable, update_command_changes, VariableRow,
};
#[allow(unused_imports)]
use crate::db::env_repo::{row_env, EnvRow};
#[allow(unused_imports)]
use crate::db::vault::{change_statements, ChangeView};
#[allow(unused_imports)]
use crate::db::SqlValueView;
#[allow(unused_imports)]
use crate::error::VaultError;
#[allow(unused_imports)]
use crate::laws::records::{text_or_null, variable_kind_name, variables_are_written_row_by_row};
#[allow(unused_imports)]
use crate::laws::transfers::kind_name;
#[allow(unused_imports)]
use crate::models::{
    cmd_var_kind_round_trip, env_kind_round_trip, CmdVarKind, CommandView, EnvKind, EnvView,
    StoredVariableView, VariableView,
};
#[allow(unused_imports)]
use crate::text::decimal;
#[allow(unused_imports)]
use crate::tui::highlight_code;
#[allow(unused_imports)]
use crate::vars::{incompatible_notice, missing_notice, wrong_kind_notice};
#[allow(unused_imports)]
use crate::views::{group_views, opt_view};

verus! {

broadcast use {vstd::string::group_string_axioms, group_views};

/// The columns of a row of envs are these values.
pub open spec fn env_row_holds(row: EnvRow, values: Seq<SqlValueView>) -> bool {
    &&& values.len() == 8
    &&& values[0] == SqlValueView::Text(row.id@)
    &&& values[1] == SqlValueView::Text(row.name@)
    &&& values[2] == SqlValueView::Text(row.kind@)
    &&& values[3] == SqlValueView::Blob(row.value@)
    &&& match row.nonce {
        Some(nonce) => values[4] == SqlValueView::Blob(nonce@),
        None => values[4] is Null,
    }
    &&& values[5] == SqlValueView::Text(row.description@)
    &&& values[6] == SqlValueView::Text(row.created_at@)
    &&& values[7] == SqlValueView::Text(row.updated_at@)
}

/// An env that is written is read back as it was.
pub proof fn a_written_env_is_read_back(env: EnvView, row: EnvRow)
    requires
        env_row_holds(row, change_statements(ChangeView::InsertEnv(env))[0].params),
    ensures
        row_env(row) == Some(env),
{
    env_kind_round_trip(env.kind);
}

/// An env that is read has what the columns hold, each in its own place, and
/// a kind that does not exist is not read.
pub proof fn envs_are_read_column_by_column(row: EnvRow)
    ensures
        row_env(row) is Some <==> exists|kind: EnvKind| row.kind@ == #[trigger] kind_name(kind),
        row_env(row) matches Some(env) ==> {
            &&& env.id == row.id@
            &&& env.name == row.name@
            &&& kind_name(env.kind) == row.kind@
            &&& env.value == row.value@
            &&& env.nonce == opt_view(row.nonce)
            &&& env.description == row.description@
            &&& env.created_at == row.created_at@
            &&& env.updated_at == row.updated_at@
        },
{
    env_kind_round_trip(EnvKind::Secret);
    env_kind_round_trip(EnvKind::Text);
    env_kind_round_trip(EnvKind::NumberFloat);
    env_kind_round_trip(EnvKind::NumberInt);
    if let Some(env) = row_env(row) {
        assert(row.kind@ == kind_name(env.kind));
    }
}

/// A variable that is written is read back as it was, with its default env.
pub proof fn a_written_variable_is_read_back(
    command_id: Seq<char>,
    rows: Seq<StoredVariableView>,
    i: int,
    row: VariableRow,
)
    requires
        0 <= i < rows.len() <= i64::MAX,
        ({
            let values = change_statements(
                ChangeView::ReplaceVariables { command_id, rows },
            )[i + 1].params;
            &&& values[2] == SqlValueView::Text(row.kind@)
            &&& values[3] == SqlValueView::Text(row.name@)
            &&& values[4] == text_or_null(opt_view(row.default_env_id))
        }),
    ensures
        row_variable(row) == Some(rows[i]),
{
    variables_are_written_row_by_row(command_id, rows, i);
    cmd_var_kind_round_trip(rows[i].var.kind);
}

/// A new command goes in with all its variables, in order, none of which has a
/// default env. An edited one keeps its id.
pub proof fn commands_go_in_with_their_variables(
    cmd: CommandView,
    vars: Seq<VariableView>,
    previous: Seq<StoredVariableView>,
    i: int,
)
    requires
        0 <= i < vars.len(),
    ensures
        ({
            let all = insert_command_changes(cmd, vars);
            &&& all.len() == 2
            &&& all[0] == ChangeView::InsertCommand(cmd)
            &&& all[1] matches ChangeView::ReplaceVariables { command_id, rows }
            &&& command_id == cmd.id
            &&& rows.len() == vars.len()
            &&& rows[i].var == vars[i]
            &&& rows[i].default_env_id is None
        }),
        ({
            let all = update_command_changes(
                cmd.id,
                cmd.template,
                cmd.description,
                cmd.updated_at,
                vars,
                previous,
            );
            &&& all.len() == 2
            &&& all[0] == (ChangeView::UpdateCommand {
                id: cmd.id,
                template: cmd.template,
                description: cmd.description,
                updated_at: cmd.updated_at,
            })
            &&& all[1] matches ChangeView::ReplaceVariables { command_id, rows }
            &&& command_id == cmd.id
            &&& rows.len() == vars.len()
            &&& rows[i].var == vars[i]
        }),
{
}

/// The variable of that name is of this kind.
pub open spec fn is_variable(
    vars: Seq<StoredVariableView>,
    name: Seq<char>,
    kind: CmdVarKind,
) -> bool {
    exists|i: int|
        0 <= i < vars.len() && (#[trigger] vars[i]).var == (VariableView { kind, name })
}

/// What kind of variable an env is for.
pub open spec fn is_for(kind: EnvKind) -> CmdVarKind {
    match kind {
        EnvKind::Secret => CmdVarKind::Secret,
        EnvKind::Text => CmdVarKind::Text,
        EnvKind::NumberFloat => CmdVarKind::Number,
        EnvKind::NumberInt => CmdVarKind::Number,
    }
}

/// Whether the `i`th wanted default env is there and of the right kind.
pub open spec fn can_be_linked(
    vars: Seq<StoredVariableView>,
    wanted: Seq<(Seq<char>, Option<EnvView>)>,
    i: int,
) -> bool {
    wanted[i].1 matches Some(env) && is_variable(vars, wanted[i].0, is_for(env.kind))
}

/// A default env is linked exactly if it is wanted, is there, and is of the
/// kind of the variable. Nothing else is done.
pub proof fn links_are_the_possible_ones(
    command_id: Seq<char>,
    vars: Seq<StoredVariableView>,
    wanted: Seq<(Seq<char>, Option<EnvView>)>,
    change: ChangeView,
)
    ensures
        link_changes(command_id, vars, wanted, wanted.len() as int).contains(change)
            <==> exists|i: int|
            0 <= i < wanted.len() && #[trigger] can_be_linked(vars, wanted, i) && change == (
            ChangeView::SetDefaultEnv {
                command_id,
                var_name: wanted[i].0,
                default_env_id: Some(wanted[i].1->0.id),
            }),
{
    links_up_to(command_id, vars, wanted, wanted.len() as int, change);
}

proof fn links_up_to(
    command_id: Seq<char>,
    vars: Seq<StoredVariableView>,
    wanted: Seq<(Seq<char>, Option<EnvView>)>,
    n: int,
    change: ChangeView,
)
    requires
        0 <= n <= wanted.len(),
    ensures
        link_changes(command_id, vars, wanted, n).contains(change) <==> exists|i: int|
            0 <= i < n && #[trigger] can_be_linked(vars, wanted, i) && change == (
            ChangeView::SetDefaultEnv {
                command_id,
                var_name: wanted[i].0,
                default_env_id: Some(wanted[i].1->0.id),
            }),
    decreases n,
{
    if n > 0 {
        links_up_to(command_id, vars, wanted, n - 1, change);
        let before = link_changes(command_id, vars, wanted, n - 1);
        let all = link_changes(command_id, vars, wanted, n);
        let possible = can_be_linked(vars, wanted, n - 1);
        if let Some(env) = wanted[n - 1].1 {
            if possible {
                let k = choose|k: int|
                    0 <= k < vars.len() && (#[trigger] vars[k]).var == (VariableView {
                        kind: is_for(env.kind),
                        name: wanted[n - 1].0,
                    });
                assert(vars[k].var.name == wanted[n - 1].0);
            } else {
                assert forall|k: int| 0 <= k < vars.len() implies !((
                #[trigger] vars[k]).var.name == wanted[n - 1].0 && env.kind.fills()
                    == vars[k].var.kind) by {
                    if vars[k].var.name == wanted[n - 1].0 && env.kind.fills()
                        == vars[k].var.kind {
                        assert(vars[k].var == (VariableView {
                            kind: is_for(env.kind),
                            name: wanted[n - 1].0,
                        }));
                    }
                }
            }
        }
        if possible {
            let link = ChangeView::SetDefaultEnv {
                command_id,
                var_name: wanted[n - 1].0,
                default_env_id: Some(wanted[n - 1].1->0.id),
            };
            assert(all == before.push(link));
            if before.contains(change) {
                let k = choose|k: int| 0 <= k < before.len() && before[k] == change;
                assert(all[k] == change);
            }
            if change == link {
                assert(all[before.len() as int] == change);
            }
            if all.contains(change) && change != link {
                let k = choose|k: int| 0 <= k < all.len() && all[k] == change;
                assert(before[k] == change);
            }
        } else {
            assert(all == before);
        }
    }
}

/// A notice names the variable, the env or the value that it is about.
pub proof fn notices_name_what_they_are_about(
    name: Seq<char>,
    value: Seq<char>,
    env: EnvView,
    var: VariableView,
)
    ensures
        incompatible_notice(name) == "Default env for '"@ + name
            + "' is no longer a compatible kind - enter a value:"@,
        missing_notice(name) == "Default env for '"@ + name
            + "' no longer exists - enter a value:"@,
        wrong_kind_notice(env, var) == "'"@ + env.name + "' is a "@ + kind_name(env.kind)
            + " env, not compatible with a "@ + variable_kind_name(var.kind)
            + " variable - pick a different one."@,
        value_notice(EnvKind::NumberFloat, value) == "'"@ + value + "' is not a valid float."@,
        value_notice(EnvKind::NumberInt, value) == "'"@ + value + "' is not a valid integer."@,
{
}

/// A fault in a template or in a stored kind is reported with the name of what
/// is wrong.
pub proof fn template_faults_are_reported(
    name: String,
    first: CmdVarKind,
    second: CmdVarKind,
)
    ensures
        VaultError::UnknownCommandVariableKind(name).text() == "unknown command variable kind: "@
            + name@,
        VaultError::UnknownEnvKind(name).text() == "unknown env kind: "@ + name@,
        VaultError::BracketedSecret(name).text() == "secret variable '"@ + name@
            + "' cannot use bracket syntax [%s:"@ + name@
            + "] - secrets are never inlined as literal text; use bare %s:"@ + name@
            + " instead"@,
        (VaultError::ConflictingKinds { name, first, second }).text() == "variable '"@ + name@
            + "' used with conflicting kinds ("@ + variable_kind_name(first) + " and "@
            + variable_kind_name(second) + ")"@,
        VaultError::VariableNotFound(name).text() == "variable '"@ + name@
            + "' not found in template"@,
{
}

/// A fault in what was encrypted is reported as what it is.
pub proof fn encryption_faults_are_reported(name: String)
    ensures
        VaultError::RngUnavailable.text() == "OS RNG unavailable"@,
        VaultError::PasswordTooLong.text() == "key derivation failed: password is too long"@,
        VaultError::EncryptionFailed.text() == "encryption failed"@,
        VaultError::InvalidNonceLength.text() == "invalid nonce length"@,
        VaultError::DecryptionFailed.text() == "wrong password or corrupted data"@,
        VaultError::BadSaltLength.text() == "stored salt has unexpected length"@,
        VaultError::WrongPassword.text() == "wrong password"@,
        VaultError::SecretWithoutNonce(name).text() == "secret env '"@ + name@
            + "' is missing its nonce"@,
        VaultError::SecretNotUtf8(name).text() == "secret env '"@ + name@
            + "' is not valid UTF-8"@,
        VaultError::ClipboardSecretWithoutNonce.text() == "secret env is missing its nonce"@,
        VaultError::ClipboardSecretNotUtf8.text() == "secret is not valid UTF-8"@,
{
}

/// A fault in a transfer file or in the state of the vault is reported as what
/// it is.
pub proof fn vault_faults_are_reported(version: u8, path: String, name: String, id: String)
    ensures
        VaultError::TransferTooShort.text() == "not a valid inr transfer file (too short)"@,
        VaultError::NotATransferFile.text() == "not an inr transfer file"@,
        VaultError::UnsupportedTransferVersion(version).text()
            == "unsupported transfer file version "@ + decimal(version as nat)
            + " (this inr supports version "@ + decimal(1) + ")"@,
        VaultError::WrongTransferPassphrase.text() == "wrong transfer passphrase or corrupted file"@,
        VaultError::NotInitializedForImport.text()
            == "inr is not initialized - run `inr i` first before importing secrets"@,
        VaultError::NotInitialized.text() == "inr is not initialized - run `inr i` first"@,
        VaultError::AlreadyInitialized(path).text() == "inr is already initialized at "@ + path@,
        VaultError::EmptyEnvName.text() == "env name cannot be empty"@,
        (VaultError::EnvExists { name, id }).text() == "'"@ + name@ + "' already exists (id: "@
            + id@ + ")"@,
{
}

/// What the cipher and the key derivation take: salts and nonces of a fixed
/// length, and no password or plaintext that is longer than they can work on.
pub proof fn encryption_has_its_limits(password: Seq<char>, plaintext: Seq<u8>)
    ensures
        SALT_LEN == 16,
        NONCE_LEN == 12,
        password_fits(password) <==> vstd::utf8::encode_utf8(password).len() < 0x1_0000_0000,
        plaintext_fits(plaintext) <==> plaintext.len() <= 0x10_0000_0000 - 32,
{
}

/// What stands out in a list is orange.
pub proof fn what_stands_out_is_orange()
    ensures
        highlight_code() == "38;2;"@ + decimal(255) + ";"@ + decimal(140) + ";"@ + decimal(0),
{
}

} // verus!
