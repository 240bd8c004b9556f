//! What an import writes.

use vstd::prelude::*;
#[allow(unused_imports)]
use vstd::utf8::encode_utf8;

use crate::commands::import::conflicts::Resolutions;
use crate::commands::import::diff::{CommandConflict, CommandDiff, EnvConflict, EnvDiff};
#[allow(unused_imports)]
use crate::commands::import::diff::{key_view, EnvConflictView};
use crate::crypto::DerivedKey;
#[allow(unused_imports)]
use crate::crypto::plaintext_fits;
use crate::db::commands_repo::{delete_command, insert_command_raw};
#[allow(unused_imports)]
use crate::db::commands_repo::insert_command_changes;
use crate::db::env_repo::{delete_env, insert_env};
use crate::db::vault::Change;
#[allow(unused_imports)]
use crate::db::vault::ChangeView;
use crate::env_value::{stored_value, EnvValue};
#[allow(unused_imports)]
use crate::env_value::{holds_text, stored_values_read_back, value_of, EnvValueView};
use crate::error::VaultError;
use crate::models::{EnvKind, StoredCommand, StoredEnv};
#[allow(unused_imports)]
use crate::models::{CommandView, EnvView};
use crate::placeholder::parse_placeholders;
#[allow(unused_imports)]
use crate::placeholder::{template_variables, Fault};
use crate::text::decimal_of;
#[allow(unused_imports)]
use crate::text::decimal;
use crate::transfer::{ExportedCommand, ExportedEnv};
#[allow(unused_imports)]
use crate::transfer::{ExportedCommandView, ExportedEnvView};
#[allow(unused_imports)]
use crate::vars::{secret_value, SecretFault};
#[allow(unused_imports)]
use crate::views::{group_views, views};

verus! {

broadcast use {
    vstd::string::group_string_axioms,
    vstd::array::group_array_axioms,
    group_views,
};

/// The command that an incoming command becomes.
pub open spec fn stored_command(ec: ExportedCommandView) -> CommandView {
    CommandView {
        id: ec.id,
        template: ec.template,
        description: ec.description,
        created_at: ec.created_at,
        updated_at: ec.updated_at,
    }
}

/// The report of a fault in a template.
pub open spec fn reports_template_fault(e: VaultError, fault: Fault) -> bool {
    match fault {
        Fault::BracketedSecret(name) => e matches VaultError::BracketedSecret(n) && n@ == name,
        Fault::ConflictingKinds(name, first, second) => {
            e matches VaultError::ConflictingKinds { name: n, first: f, second: s } && n@ == name
                && f == first && s == second
        },
    }
}

/// Adds an incoming command with the variables of its template. A template
/// that does not parse is an error.
pub fn insert_exported_command(changes: &mut Vec<Change>, ec: &ExportedCommand) -> (r: Result<
    (),
    VaultError,
>)
    ensures
        match r {
            Ok(()) => template_variables(ec.template@) matches Ok(vars) && views(final(changes)@)
                == views(old(changes)@) + insert_command_changes(stored_command(ec@), vars),
            Err(e) => template_variables(ec.template@) matches Err(fault) && reports_template_fault(
                e,
                fault,
            ) && views(final(changes)@) == views(old(changes)@),
        },
{
    match parse_placeholders(&ec.template) {
        Ok(vars) => {
            let cmd = StoredCommand {
                id: ec.id.clone(),
                template: ec.template.clone(),
                description: ec.description.clone(),
                created_at: ec.created_at.clone(),
                updated_at: ec.updated_at.clone(),
            };
            insert_command_raw(changes, &cmd, vars.as_slice());
            Ok(())
        },
        Err(e) => Err(e),
    }
}

/// An incoming env with what is stored of its value.
pub open spec fn env_record(ee: ExportedEnvView, value: EnvValueView) -> EnvView {
    EnvView {
        id: ee.id,
        name: ee.name,
        kind: value.kind,
        value: value.bytes,
        nonce: value.nonce,
        description: ee.description,
        created_at: ee.created_at,
        updated_at: ee.updated_at,
    }
}

/// Puts an incoming env together with what is stored of its value.
pub fn stored_env(ee: &ExportedEnv, value: EnvValue) -> (r: StoredEnv)
    ensures
        r@ == env_record(ee@, value@),
{
    let (kind, bytes, nonce) = value.into_parts();
    StoredEnv {
        id: ee.id.clone(),
        name: ee.name.clone(),
        kind,
        value: bytes,
        nonce,
        description: ee.description.clone(),
        created_at: ee.created_at.clone(),
        updated_at: ee.updated_at.clone(),
    }
}

/// What an incoming env becomes: everything but the value is kept as it is. A
/// plain value is stored as it is, and a secret one encrypted under the key.
pub open spec fn is_built_env(env: EnvView, ee: ExportedEnvView, key: Option<Seq<u8>>) -> bool {
    &&& env == env_record(ee, value_of(env))
    &&& EnvKind::of_text(ee.kind) == Some(env.kind)
    &&& holds_text(value_of(env), key->0, ee.value)
    &&& env.kind == EnvKind::Secret ==> secret_value(key->0, env) == Ok::<Seq<char>, SecretFault>(
        ee.value,
    )
}

/// The report of an incoming env that cannot be stored.
pub open spec fn reports_env_fault(e: VaultError, ee: ExportedEnvView) -> bool {
    match e {
        VaultError::UnknownEnvKind(kind) => EnvKind::of_text(ee.kind) is None && kind@ == ee.kind,
        VaultError::EncryptionFailed => EnvKind::of_text(ee.kind) == Some(EnvKind::Secret)
            && !plaintext_fits(encode_utf8(ee.value)),
        VaultError::RngUnavailable => EnvKind::of_text(ee.kind) == Some(EnvKind::Secret),
        _ => false,
    }
}

/// Builds a `StoredEnv` ready to insert, re-encrypting the value under the
/// destination's master key if it's a secret. The key must have been unlocked
/// then.
pub fn build_stored_env(ee: &ExportedEnv, dest_key: Option<&DerivedKey>) -> (r: Result<
    StoredEnv,
    VaultError,
>)
    requires
        EnvKind::of_text(ee.kind@) == Some(EnvKind::Secret) ==> dest_key is Some,
    ensures
        match r {
            Ok(env) => is_built_env(env@, ee@, key_view(dest_key)),
            Err(e) => reports_env_fault(e, ee@),
        },
{
    let kind = match EnvKind::from_str(&ee.kind) {
        Ok(kind) => kind,
        Err(e) => {
            return Err(e);
        },
    };
    let value = match stored_value(kind, dest_key, &ee.value) {
        Ok(value) => value,
        Err(e) => {
            return Err(e);
        },
    };
    let env = stored_env(ee, value);
    proof {
        stored_values_read_back(env@, dest_key->0@, ee@.value);
    }
    Ok(env)
}

/// The incoming commands of the first `n` conflicts that were decided for the
/// incoming version.
pub open spec fn replacing_commands(
    conflicts: Seq<(CommandView, ExportedCommandView)>,
    picks: Seq<bool>,
    n: int,
) -> Seq<ExportedCommandView>
    decreases n,
{
    if n <= 0 {
        Seq::empty()
    } else if picks[n - 1] {
        replacing_commands(conflicts, picks, n - 1).push(conflicts[n - 1].1)
    } else {
        replacing_commands(conflicts, picks, n - 1)
    }
}

/// The changes that add the first `n` new commands.
pub open spec fn new_command_changes(new: Seq<ExportedCommandView>, n: int) -> Seq<ChangeView>
    decreases n,
{
    if n <= 0 {
        Seq::empty()
    } else {
        new_command_changes(new, n - 1) + insert_command_changes(
            stored_command(new[n - 1]),
            template_variables(new[n - 1].template)->Ok_0,
        )
    }
}

/// The changes that put incoming commands in the place of local ones, for the
/// first `n` conflicts.
pub open spec fn replaced_command_changes(
    conflicts: Seq<(CommandView, ExportedCommandView)>,
    picks: Seq<bool>,
    n: int,
) -> Seq<ChangeView>
    decreases n,
{
    if n <= 0 {
        Seq::empty()
    } else if picks[n - 1] {
        replaced_command_changes(conflicts, picks, n - 1).push(
            ChangeView::DeleteCommand(conflicts[n - 1].0.id),
        ) + insert_command_changes(
            stored_command(conflicts[n - 1].1),
            template_variables(conflicts[n - 1].1.template)->Ok_0,
        )
    } else {
        replaced_command_changes(conflicts, picks, n - 1)
    }
}

/// Every template of the first `n` commands parses.
pub open spec fn templates_parse(commands: Seq<ExportedCommandView>, n: int) -> bool {
    forall|i: int| 0 <= i < n ==> template_variables((#[trigger] commands[i]).template) is Ok
}

/// `e` reports the first command whose template does not parse.
pub open spec fn reports_first_template_fault(
    e: VaultError,
    commands: Seq<ExportedCommandView>,
) -> bool {
    exists|i: int|
        0 <= i < commands.len() && templates_parse(commands, i) && (template_variables(
            (#[trigger] commands[i]).template,
        ) matches Err(fault) && reports_template_fault(e, fault))
}

/// Adds the new commands.
fn add_new_commands(changes: &mut Vec<Change>, new: &Vec<ExportedCommand>) -> (r: Result<
    (),
    VaultError,
>)
    ensures
        match r {
            Ok(()) => {
                &&& templates_parse(views(new@), new@.len() as int)
                &&& views(final(changes)@) == views(old(changes)@) + new_command_changes(
                    views(new@),
                    new@.len() as int,
                )
            },
            Err(e) => reports_first_template_fault(e, views(new@)),
        },
{
    let mut i: usize = 0;
    assert(views(changes@) + new_command_changes(views(new@), 0) =~= views(changes@));
    while i < new.len()
        invariant
            i <= new.len(),
            templates_parse(views(new@), i as int),
            views(changes@) == views(old(changes)@) + new_command_changes(views(new@), i as int),
        decreases new.len() - i,
    {
        assert(views(new@)[i as int] == new@[i as int]@);
        let ghost before = views(changes@);
        match insert_exported_command(changes, &new[i]) {
            Ok(()) => {},
            Err(e) => {
                return Err(e);
            },
        }
        proof {
            let all = views(new@);
            let added = insert_command_changes(
                stored_command(all[i as int]),
                template_variables(all[i as int].template)->Ok_0,
            );
            assert((views(old(changes)@) + new_command_changes(all, i as int)) + added
                =~= views(old(changes)@) + (new_command_changes(all, i as int) + added));
        }
        i += 1;
    }
    Ok(())
}

/// Puts incoming commands in the place of local ones.
fn replace_commands(
    changes: &mut Vec<Change>,
    conflicts: &Vec<CommandConflict>,
    picks: &Vec<bool>,
) -> (r: Result<(), VaultError>)
    requires
        conflicts@.len() == picks@.len(),
    ensures
        ({
            let n = picks@.len() as int;
            let replacing = replacing_commands(views(conflicts@), picks@, n);
            match r {
                Ok(()) => {
                    &&& templates_parse(replacing, replacing.len() as int)
                    &&& views(final(changes)@) == views(old(changes)@)
                        + replaced_command_changes(views(conflicts@), picks@, n)
                },
                Err(e) => reports_first_template_fault(e, replacing),
            }
        }),
{
    let ghost cs = views(conflicts@);
    let ghost start = views(changes@);
    let mut i: usize = 0;
    assert(start + replaced_command_changes(cs, picks@, 0) =~= start);
    while i < conflicts.len()
        invariant
            i <= conflicts.len(),
            conflicts@.len() == picks@.len(),
            cs == views(conflicts@),
            start == views(old(changes)@),
            templates_parse(
                replacing_commands(cs, picks@, i as int),
                replacing_commands(cs, picks@, i as int).len() as int,
            ),
            views(changes@) == start + replaced_command_changes(cs, picks@, i as int),
        decreases conflicts.len() - i,
    {
        assert(cs[i as int] == conflicts@[i as int]@);
        if picks[i] {
            let ghost before = replacing_commands(cs, picks@, i as int);
            let ghost done = replaced_command_changes(cs, picks@, i as int);
            let ghost ec = cs[i as int].1;
            proof {
                assert(replacing_commands(cs, picks@, i + 1) == before.push(ec));
                replacing_is_prefix(cs, picks@, i + 1, picks@.len() as int);
            }
            changes.push(delete_command(&conflicts[i].local.id));
            match insert_exported_command(changes, &conflicts[i].incoming) {
                Ok(()) => {},
                Err(e) => {
                    proof {
                        let all = replacing_commands(cs, picks@, picks@.len() as int);
                        let k = before.len() as int;
                        assert(all.take(k + 1) == before.push(ec));
                        assert(all[k] == all.take(k + 1)[k]);
                        assert forall|j: int| 0 <= j < k implies template_variables(
                            (#[trigger] all[j]).template,
                        ) is Ok by {
                            assert(all[j] == all.take(k + 1)[j]);
                            assert(before[j] == all[j]);
                        }
                        assert(templates_parse(all, k));
                    }
                    return Err(e);
                },
            }
            proof {
                let deleted = ChangeView::DeleteCommand(cs[i as int].0.id);
                let added = insert_command_changes(
                    stored_command(ec),
                    template_variables(ec.template)->Ok_0,
                );
                assert((start + done).push(deleted) + added =~= start + (done.push(deleted)
                    + added));
                assert forall|j: int| 0 <= j < before.push(ec).len() implies template_variables(
                    (#[trigger] before.push(ec)[j]).template,
                ) is Ok by {
                    if j < before.len() {
                        assert(before.push(ec)[j] == before[j]);
                    }
                }
            }
        }
        i += 1;
    }
    Ok(())
}

/// What replaces the first conflicts is the beginning of what replaces all of
/// them.
proof fn replacing_is_prefix(
    conflicts: Seq<(CommandView, ExportedCommandView)>,
    picks: Seq<bool>,
    n: int,
    end: int,
)
    requires
        0 <= n <= end,
    ensures
        replacing_commands(conflicts, picks, n).len() <= replacing_commands(
            conflicts,
            picks,
            end,
        ).len(),
        replacing_commands(conflicts, picks, end).take(
            replacing_commands(conflicts, picks, n).len() as int,
        ) == replacing_commands(conflicts, picks, n),
    decreases end - n,
{
    let first = replacing_commands(conflicts, picks, n);
    let all = replacing_commands(conflicts, picks, end);
    if n < end {
        replacing_is_prefix(conflicts, picks, n, end - 1);
        let most = replacing_commands(conflicts, picks, end - 1);
        assert(all.take(first.len() as int) =~= most.take(first.len() as int));
    } else {
        assert(all.take(first.len() as int) =~= first);
    }
}

/// The changes that add new envs, one for each.
pub open spec fn are_env_inserts(
    changes: Seq<ChangeView>,
    new: Seq<ExportedEnvView>,
    key: Option<Seq<u8>>,
) -> bool {
    &&& changes.len() == new.len()
    &&& forall|i: int|
        0 <= i < new.len() ==> (#[trigger] changes[i] matches ChangeView::InsertEnv(env)
            && is_built_env(env, new[i], key))
}

/// The changes that put incoming envs in the place of local ones, for the
/// first `n` conflicts: the local one is deleted, then the incoming one added.
pub open spec fn are_env_replacements(
    changes: Seq<ChangeView>,
    conflicts: Seq<EnvConflictView>,
    picks: Seq<bool>,
    key: Option<Seq<u8>>,
    n: int,
) -> bool
    decreases n,
{
    if n <= 0 {
        changes.len() == 0
    } else if picks[n - 1] {
        &&& changes.len() >= 2
        &&& changes[changes.len() - 2] == ChangeView::DeleteEnv(conflicts[n - 1].local.id)
        &&& changes.last() matches ChangeView::InsertEnv(env) && is_built_env(
            env,
            conflicts[n - 1].incoming,
            key,
        )
        &&& are_env_replacements(
            changes.take(changes.len() - 2),
            conflicts,
            picks,
            key,
            n - 1,
        )
    } else {
        are_env_replacements(changes, conflicts, picks, key, n - 1)
    }
}

/// Whether an incoming env can be stored without a key, or there is one.
pub open spec fn is_buildable(ee: ExportedEnvView, key: Option<Seq<u8>>) -> bool {
    EnvKind::of_text(ee.kind) == Some(EnvKind::Secret) ==> key is Some
}

/// Whether the kind of an incoming env is known.
pub open spec fn kind_is_known(ee: ExportedEnvView) -> bool {
    EnvKind::of_text(ee.kind) is Some
}

/// `e` reports an env that cannot be stored, and the kinds of those before it
/// are known.
pub open spec fn reports_new_env_fault(e: VaultError, new: Seq<ExportedEnvView>) -> bool {
    exists|i: int|
        0 <= i < new.len() && reports_env_fault(e, #[trigger] new[i]) && forall|j: int|
            0 <= j < i ==> kind_is_known(#[trigger] new[j])
}

/// `e` reports an env that cannot replace a local one, and the kinds of those
/// that replace one before it are known.
pub open spec fn reports_replacing_env_fault(
    e: VaultError,
    conflicts: Seq<EnvConflictView>,
    picks: Seq<bool>,
) -> bool {
    exists|i: int|
        0 <= i < conflicts.len() && picks[i] && reports_env_fault(
            e,
            (#[trigger] conflicts[i]).incoming,
        ) && forall|j: int|
            0 <= j < i && picks[j] ==> kind_is_known((#[trigger] conflicts[j]).incoming)
}

/// Adds the new envs.
fn add_new_envs(changes: &mut Vec<Change>, new: &Vec<ExportedEnv>, dest_key: Option<&DerivedKey>)
    -> (r: Result<(), VaultError>)
    requires
        forall|i: int|
            0 <= i < new@.len() ==> is_buildable(#[trigger] views(new@)[i], key_view(dest_key)),
    ensures
        match r {
            Ok(()) => {
                let n = old(changes)@.len() as int;
                let all = views(final(changes)@);
                &&& n <= all.len()
                &&& all.take(n) == views(old(changes)@)
                &&& are_env_inserts(all.skip(n), views(new@), key_view(dest_key))
            },
            Err(e) => reports_new_env_fault(e, views(new@)),
        },
{
    let ghost key = key_view(dest_key);
    let ghost start = views(changes@);
    let ghost n = changes@.len() as int;
    let mut i: usize = 0;
    assert(views(changes@).take(n) =~= start);
    while i < new.len()
        invariant
            i <= new.len(),
            key == key_view(dest_key),
            start == views(old(changes)@),
            n == start.len(),
            changes@.len() == n + i,
            views(changes@).take(n) == start,
            forall|j: int|
                0 <= j < new@.len() ==> is_buildable(#[trigger] views(new@)[j], key_view(dest_key)),
            forall|j: int|
                0 <= j < i ==> (#[trigger] views(changes@).skip(n)[j] matches ChangeView::InsertEnv(
                    env,
                ) && is_built_env(env, views(new@)[j], key)),
        decreases new.len() - i,
    {
        assert(views(new@)[i as int] == new@[i as int]@);
        let env = match build_stored_env(&new[i], dest_key) {
            Ok(env) => env,
            Err(e) => {
                assert forall|j: int| 0 <= j < i implies kind_is_known(
                    #[trigger] views(new@)[j],
                ) by {
                    assert(views(changes@).skip(n)[j] is InsertEnv);
                }
                return Err(e);
            },
        };
        let ghost before = views(changes@);
        changes.push(insert_env(&env));
        assert(views(changes@).take(n) =~= before.take(n));
        assert forall|j: int| 0 <= j < i + 1 implies (#[trigger] views(changes@).skip(
            n,
        )[j] matches ChangeView::InsertEnv(env) && is_built_env(env, views(new@)[j], key)) by {
            if j < i {
                assert(views(changes@).skip(n)[j] == before.skip(n)[j]);
            }
        }
        i += 1;
    }
    assert(views(changes@).skip(n).len() == new@.len());
    Ok(())
}

/// Puts incoming envs in the place of local ones.
fn replace_envs(
    changes: &mut Vec<Change>,
    conflicts: &Vec<EnvConflict>,
    picks: &Vec<bool>,
    dest_key: Option<&DerivedKey>,
) -> (r: Result<(), VaultError>)
    requires
        conflicts@.len() == picks@.len(),
        forall|i: int|
            0 <= i < conflicts@.len() && picks@[i] ==> is_buildable(
                (#[trigger] views(conflicts@)[i]).incoming,
                key_view(dest_key),
            ),
    ensures
        match r {
            Ok(()) => {
                let n = old(changes)@.len() as int;
                let all = views(final(changes)@);
                &&& n <= all.len()
                &&& all.take(n) == views(old(changes)@)
                &&& are_env_replacements(
                    all.skip(n),
                    views(conflicts@),
                    picks@,
                    key_view(dest_key),
                    picks@.len() as int,
                )
            },
            Err(e) => reports_replacing_env_fault(e, views(conflicts@), picks@),
        },
{
    let ghost key = key_view(dest_key);
    let ghost cs = views(conflicts@);
    let ghost start = views(changes@);
    let ghost n = changes@.len() as int;
    let mut i: usize = 0;
    assert(views(changes@).take(n) =~= start);
    while i < conflicts.len()
        invariant
            i <= conflicts.len(),
            conflicts@.len() == picks@.len(),
            key == key_view(dest_key),
            cs == views(conflicts@),
            start == views(old(changes)@),
            n == start.len(),
            n <= changes@.len(),
            views(changes@).take(n) == start,
            forall|j: int|
                0 <= j < conflicts@.len() && picks@[j] ==> is_buildable(
                    (#[trigger] views(conflicts@)[j]).incoming,
                    key_view(dest_key),
                ),
            are_env_replacements(views(changes@).skip(n), cs, picks@, key, i as int),
            forall|j: int|
                0 <= j < i && picks@[j] ==> kind_is_known((#[trigger] cs[j]).incoming),
        decreases conflicts.len() - i,
    {
        assert(cs[i as int] == conflicts@[i as int]@);
        if picks[i] {
            let env = match build_stored_env(&conflicts[i].incoming, dest_key) {
                Ok(env) => env,
                Err(e) => {
                    return Err(e);
                },
            };
            let ghost before = views(changes@);
            changes.push(delete_env(&conflicts[i].local.id));
            changes.push(insert_env(&env));
            proof {
                let all = views(changes@);
                assert(all.take(n) =~= before.take(n));
                let added = all.skip(n);
                assert(added.take(added.len() - 2) =~= before.skip(n));
                assert(added[added.len() - 2] == ChangeView::DeleteEnv(cs[i as int].local.id));
                assert(added.last() == ChangeView::InsertEnv(env@));
            }
        }
        i += 1;
    }
    Ok(())
}

/// What an import will do.
pub struct ImportPlan {
    /// The changes, to be made in one transaction.
    pub changes: Vec<Change>,
    /// The commands it adds, each with the names of its default envs, to be
    /// linked once the changes are made.
    pub pending_defaults: Vec<ExportedCommand>,
    pub imported_commands: usize,
    pub imported_envs: usize,
    pub replaced_commands: usize,
    pub replaced_envs: usize,
    pub kept_commands: usize,
    pub kept_envs: usize,
}

/// How many of the first `n` decisions are for the incoming version.
pub open spec fn count_picked(picks: Seq<bool>, n: int) -> nat
    decreases n,
{
    if n <= 0 {
        0
    } else {
        count_picked(picks, n - 1) + if picks[n - 1] {
            1nat
        } else {
            0nat
        }
    }
}

fn count_incoming(picks: &Vec<bool>) -> (r: usize)
    ensures
        r == count_picked(picks@, picks@.len() as int),
        r <= picks@.len(),
{
    let mut count: usize = 0;
    let mut i: usize = 0;
    while i < picks.len()
        invariant
            i <= picks.len(),
            count == count_picked(picks@, i as int),
            count <= i,
        decreases picks.len() - i,
    {
        if picks[i] {
            count += 1;
        }
        i += 1;
    }
    count
}

/// The commands that an import adds: the new ones, then those that replace
/// local ones.
pub open spec fn added_commands(
    new: Seq<ExportedCommandView>,
    conflicts: Seq<(CommandView, ExportedCommandView)>,
    picks: Seq<bool>,
) -> Seq<ExportedCommandView> {
    new + replacing_commands(conflicts, picks, picks.len() as int)
}

/// The changes that an import makes to the commands.
pub open spec fn command_changes(
    new: Seq<ExportedCommandView>,
    conflicts: Seq<(CommandView, ExportedCommandView)>,
    picks: Seq<bool>,
) -> Seq<ChangeView> {
    new_command_changes(new, new.len() as int) + replaced_command_changes(
        conflicts,
        picks,
        picks.len() as int,
    )
}

/// The changes that an import makes to the envs: `split` parts those for the
/// new envs from those for the conflicts.
pub open spec fn are_env_changes(
    changes: Seq<ChangeView>,
    split: int,
    new: Seq<ExportedEnvView>,
    conflicts: Seq<EnvConflictView>,
    picks: Seq<bool>,
    key: Option<Seq<u8>>,
) -> bool {
    &&& 0 <= split <= changes.len()
    &&& are_env_inserts(changes.take(split), new, key)
    &&& are_env_replacements(changes.skip(split), conflicts, picks, key, picks.len() as int)
}

/// Whether a plan does what was decided: the new commands and envs are added,
/// the conflicts decided for the incoming version are replaced, and the others
/// stay as they are.
pub open spec fn is_import_plan(
    plan: ImportPlan,
    commands: CommandDiff,
    envs: EnvDiff,
    picks: Resolutions,
    key: Option<Seq<u8>>,
) -> bool {
    let for_commands = command_changes(
        views(commands.new_commands@),
        views(commands.conflicts@),
        picks.commands@,
    );
    let all = views(plan.changes@);
    &&& for_commands.len() <= all.len()
    &&& all.take(for_commands.len() as int) == for_commands
    &&& are_env_changes(
        all.skip(for_commands.len() as int),
        envs.new_envs@.len() as int,
        views(envs.new_envs@),
        views(envs.conflicts@),
        picks.envs@,
        key,
    )
    &&& views(plan.pending_defaults@) == added_commands(
        views(commands.new_commands@),
        views(commands.conflicts@),
        picks.commands@,
    )
    &&& plan.imported_commands == commands.new_commands@.len()
    &&& plan.imported_envs == envs.new_envs@.len()
    &&& plan.replaced_commands == count_picked(picks.commands@, picks.commands@.len() as int)
    &&& plan.replaced_envs == count_picked(picks.envs@, picks.envs@.len() as int)
    &&& plan.kept_commands == commands.conflicts@.len() - plan.replaced_commands
    &&& plan.kept_envs == envs.conflicts@.len() - plan.replaced_envs
}

/// The commands that wait for their default envs.
fn pending(new: &Vec<ExportedCommand>, conflicts: &Vec<CommandConflict>, picks: &Vec<bool>) -> (r:
    Vec<ExportedCommand>)
    requires
        conflicts@.len() == picks@.len(),
    ensures
        views(r@) == added_commands(views(new@), views(conflicts@), picks@),
{
    let mut out: Vec<ExportedCommand> = Vec::new();
    let mut i: usize = 0;
    assert(views(out@) =~= views(new@).take(0));
    while i < new.len()
        invariant
            i <= new.len(),
            views(out@) == views(new@).take(i as int),
        decreases new.len() - i,
    {
        out.push(new[i].clone());
        assert(views(new@).take(i + 1) =~= views(new@).take(i as int).push(views(new@)[i as int]));
        i += 1;
    }
    assert(views(new@).take(i as int) =~= views(new@));
    let ghost cs = views(conflicts@);
    let mut k: usize = 0;
    assert(views(new@) + replacing_commands(cs, picks@, 0) =~= views(new@));
    while k < conflicts.len()
        invariant
            k <= conflicts.len(),
            conflicts@.len() == picks@.len(),
            cs == views(conflicts@),
            views(out@) == views(new@) + replacing_commands(cs, picks@, k as int),
        decreases conflicts.len() - k,
    {
        if picks[k] {
            assert(cs[k as int] == conflicts@[k as int]@);
            out.push(conflicts[k].incoming.clone());
            assert((views(new@) + replacing_commands(cs, picks@, k as int)).push(cs[k as int].1)
                =~= views(new@) + replacing_commands(cs, picks@, k as int).push(cs[k as int].1));
        }
        k += 1;
    }
    out
}

/// The first fault of one list, or of the next one if the first has none, is
/// the first fault of both in turn.
proof fn first_fault_of_both(
    e: VaultError,
    new: Seq<ExportedCommandView>,
    replacing: Seq<ExportedCommandView>,
)
    requires
        reports_first_template_fault(e, new) || templates_parse(new, new.len() as int)
            && reports_first_template_fault(e, replacing),
    ensures
        reports_first_template_fault(e, new + replacing),
{
    let both = new + replacing;
    if reports_first_template_fault(e, new) {
        let i = choose|i: int|
            0 <= i < new.len() && templates_parse(new, i) && (template_variables(
                (#[trigger] new[i]).template,
            ) matches Err(fault) && reports_template_fault(e, fault));
        assert(both[i] == new[i]);
        assert forall|j: int| 0 <= j < i implies template_variables(
            (#[trigger] both[j]).template,
        ) is Ok by {
            assert(both[j] == new[j]);
        }
    } else {
        let i = choose|i: int|
            0 <= i < replacing.len() && templates_parse(replacing, i) && (template_variables(
                (#[trigger] replacing[i]).template,
            ) matches Err(fault) && reports_template_fault(e, fault));
        assert(both[new.len() + i] == replacing[i]);
        assert forall|j: int| 0 <= j < new.len() + i implies template_variables(
            (#[trigger] both[j]).template,
        ) is Ok by {
            if j < new.len() {
                assert(both[j] == new[j]);
            } else {
                assert(both[j] == replacing[j - new.len()]);
            }
        }
    }
}

/// Plans an import: what to write, once the conflicts are resolved. Without
/// resolutions - the user gave up - nothing is written. A template that does
/// not parse, an env of an unknown kind or a secret that cannot be encrypted
/// is an error, and nothing is written then either.
pub fn plan_import(
    commands: &CommandDiff,
    envs: &EnvDiff,
    resolutions: &Option<Resolutions>,
    dest_key: Option<&DerivedKey>,
) -> (r: Result<Option<ImportPlan>, VaultError>)
    requires
        resolutions matches Some(picks) ==> {
            &&& picks.commands@.len() == commands.conflicts@.len()
            &&& picks.envs@.len() == envs.conflicts@.len()
            &&& forall|i: int|
                0 <= i < envs.new_envs@.len() ==> is_buildable(
                    #[trigger] views(envs.new_envs@)[i],
                    key_view(dest_key),
                )
            &&& forall|i: int|
                0 <= i < envs.conflicts@.len() && picks.envs@[i] ==> is_buildable(
                    (#[trigger] views(envs.conflicts@)[i]).incoming,
                    key_view(dest_key),
                )
        },
    ensures
        match r {
            Ok(None) => resolutions is None,
            Ok(Some(plan)) => {
                &&& resolutions matches Some(picks) && is_import_plan(
                    plan,
                    *commands,
                    *envs,
                    *picks,
                    key_view(dest_key),
                )
                &&& templates_parse(
                    views(plan.pending_defaults@),
                    plan.pending_defaults@.len() as int,
                )
            },
            Err(e) => resolutions matches Some(picks) && {
                let added = added_commands(
                    views(commands.new_commands@),
                    views(commands.conflicts@),
                    picks.commands@,
                );
                ||| reports_first_template_fault(e, added)
                ||| templates_parse(added, added.len() as int) && (reports_new_env_fault(
                    e,
                    views(envs.new_envs@),
                ) || (forall|i: int|
                    0 <= i < envs.new_envs@.len() ==> kind_is_known(
                        #[trigger] views(envs.new_envs@)[i],
                    )) && reports_replacing_env_fault(e, views(envs.conflicts@), picks.envs@))
            },
        },
{
    let picks = match resolutions {
        Some(picks) => picks,
        None => {
            return Ok(None);
        },
    };
    let ghost new = views(commands.new_commands@);
    let ghost replacing = replacing_commands(
        views(commands.conflicts@),
        picks.commands@,
        picks.commands@.len() as int,
    );
    let ghost added = new + replacing;
    let mut changes: Vec<Change> = Vec::new();
    match add_new_commands(&mut changes, &commands.new_commands) {
        Ok(()) => {},
        Err(e) => {
            proof {
                first_fault_of_both(e, new, replacing);
            }
            return Err(e);
        },
    }
    match replace_commands(&mut changes, &commands.conflicts, &picks.commands) {
        Ok(()) => {},
        Err(e) => {
            proof {
                first_fault_of_both(e, new, replacing);
            }
            return Err(e);
        },
    }
    assert forall|i: int| 0 <= i < added.len() implies template_variables(
        (#[trigger] added[i]).template,
    ) is Ok by {
        if i < new.len() {
            assert(added[i] == new[i]);
        } else {
            assert(added[i] == replacing[i - new.len()]);
        }
    }
    let ghost for_commands = command_changes(
        views(commands.new_commands@),
        views(commands.conflicts@),
        picks.commands@,
    );
    assert(views(changes@) =~= for_commands);
    match add_new_envs(&mut changes, &envs.new_envs, dest_key) {
        Ok(()) => {},
        Err(e) => {
            return Err(e);
        },
    }
    let ghost with_new = views(changes@);
    assert forall|i: int| 0 <= i < envs.new_envs@.len() implies kind_is_known(
        #[trigger] views(envs.new_envs@)[i],
    ) by {
        assert(with_new.skip(for_commands.len() as int)[i] is InsertEnv);
    }
    match replace_envs(&mut changes, &envs.conflicts, &picks.envs, dest_key) {
        Ok(()) => {},
        Err(e) => {
            return Err(e);
        },
    }
    let pending_defaults = pending(&commands.new_commands, &commands.conflicts, &picks.commands);
    proof {
        let all = views(changes@);
        let c = for_commands.len() as int;
        let n = envs.new_envs@.len() as int;
        assert(with_new.len() == c + n);
        assert(all.take(c) =~= with_new.take(c));
        assert(all.skip(c).take(n) =~= with_new.skip(c));
        assert(all.skip(c).skip(n) =~= all.skip(c + n));
    }
    let replaced_commands = count_incoming(&picks.commands);
    let replaced_envs = count_incoming(&picks.envs);
    Ok(
        Some(
            ImportPlan {
                changes,
                pending_defaults,
                imported_commands: commands.new_commands.len(),
                imported_envs: envs.new_envs.len(),
                replaced_commands,
                replaced_envs,
                kept_commands: commands.conflicts.len() - replaced_commands,
                kept_envs: envs.conflicts.len() - replaced_envs,
            },
        ),
    )
}

/// What an import has done.
pub fn done_summary(plan: &ImportPlan) -> (r: String)
    ensures
        r@ == "Done. Imported "@ + decimal(plan.imported_commands as nat) + " new command(s) and "@
            + decimal(plan.imported_envs as nat) + " new env(s); replaced "@ + decimal(
            plan.replaced_commands as nat,
        ) + " command(s) and "@ + decimal(plan.replaced_envs as nat)
            + " env(s) with the incoming version; kept "@ + decimal(plan.kept_commands as nat)
            + " command(s) and "@ + decimal(plan.kept_envs as nat) + " env(s) as-is."@,
{
    let mut out = "Done. Imported ".to_string();
    out.append(&decimal_of(plan.imported_commands as u64));
    out.append(" new command(s) and ");
    out.append(&decimal_of(plan.imported_envs as u64));
    out.append(" new env(s); replaced ");
    out.append(&decimal_of(plan.replaced_commands as u64));
    out.append(" command(s) and ");
    out.append(&decimal_of(plan.replaced_envs as u64));
    out.append(" env(s) with the incoming version; kept ");
    out.append(&decimal_of(plan.kept_commands as u64));
    out.append(" command(s) and ");
    out.append(&decimal_of(plan.kept_envs as u64));
    out.append(" env(s) as-is.");
    out
}

} // verus!
