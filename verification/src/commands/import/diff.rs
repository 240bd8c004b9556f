//! Sorting what comes in: new, conflicting, or identical to what is here.

use vstd::prelude::*;

use crate::crypto::{decrypt, DerivedKey, NONCE_LEN};
#[allow(unused_imports)]
use crate::crypto::opened;
use crate::db::Config;
use crate::error::VaultError;
use crate::models::{EnvKind, StoredCommand, StoredEnv};
#[allow(unused_imports)]
use crate::models::{filter_take_next, CommandView, EnvView};
use crate::text::{decimal_of, lossy_text};
#[allow(unused_imports)]
use crate::text::{decimal, read_lossily};
use crate::transfer::{ExportedCommand, ExportedEnv};
#[allow(unused_imports)]
use crate::transfer::{ExportedCommandView, ExportedEnvView};
#[allow(unused_imports)]
use crate::vars::SecretFault;
#[allow(unused_imports)]
use crate::views::{group_views, opt_view, views};

verus! {

broadcast use {vstd::string::group_string_axioms, group_views};

/// A command whose template matches a local one, but whose content differs.
pub struct CommandConflict {
    pub local: StoredCommand,
    pub incoming: ExportedCommand,
}

impl View for CommandConflict {
    type V = (CommandView, ExportedCommandView);

    open spec fn view(&self) -> (CommandView, ExportedCommandView) {
        (self.local@, self.incoming@)
    }
}

/// An env conflict, as a value.
pub struct EnvConflictView {
    pub local: EnvView,
    pub local_value: Seq<char>,
    pub incoming: ExportedEnvView,
}

/// An env whose name matches a local one, but whose content differs.
/// `local_value` is the local value in comparable plaintext form (a secret
/// env's value has already been decrypted with the destination key). It is
/// empty where the local env is a secret, the incoming one is not, and no key
/// was at hand: the kinds tell the two apart, and a secret is not shown.
pub struct EnvConflict {
    pub local: StoredEnv,
    pub local_value: String,
    pub incoming: ExportedEnv,
}

impl View for EnvConflict {
    type V = EnvConflictView;

    open spec fn view(&self) -> EnvConflictView {
        EnvConflictView {
            local: self.local@,
            local_value: self.local_value@,
            incoming: self.incoming@,
        }
    }
}

/// Whether some incoming env is a secret.
pub open spec fn has_secret(envs: Seq<ExportedEnvView>) -> bool {
    exists|i: int| 0 <= i < envs.len() && (#[trigger] envs[i]).kind == "secret"@
}

fn any_secret(envs: &[ExportedEnv]) -> (r: bool)
    ensures
        r == has_secret(views(envs@)),
{
    let mut i: usize = 0;
    while i < envs.len()
        invariant
            i <= envs.len(),
            forall|j: int| 0 <= j < i ==> (#[trigger] views(envs@)[j]).kind != "secret"@,
        decreases envs.len() - i,
    {
        if *envs[i].kind.as_str() == *EnvKind::Secret.as_str() {
            assert(views(envs@)[i as int].kind == "secret"@);
            return true;
        }
        i += 1;
    }
    false
}

/// If the file contains any secret env, the destination needs its own
/// master key both to compare against existing local secrets (during diff)
/// and to re-encrypt incoming secret values (during insert) - ciphertext
/// from the source machine can never just be copied over, since it was
/// encrypted under a different key. Gives the configuration to unlock that
/// key with, if it is needed.
pub fn unlock_destination_if_needed(envs: &[ExportedEnv], config: Option<Config>) -> (r: Result<
    Option<Config>,
    VaultError,
>)
    ensures
        match r {
            Ok(None) => !has_secret(views(envs@)),
            Ok(Some(cfg)) => has_secret(views(envs@)) && config == Some(cfg),
            Err(VaultError::NotInitializedForImport) => has_secret(views(envs@)) && config is None,
            Err(_) => false,
        },
{
    if !any_secret(envs) {
        return Ok(None);
    }
    match config {
        Some(cfg) => Ok(Some(cfg)),
        None => Err(VaultError::NotInitializedForImport),
    }
}

/// An incoming command with the local one of the same template, if there is
/// one.
pub type CommandPair = (ExportedCommandView, Option<CommandView>);

/// Each incoming command with what a lookup of its template found.
pub open spec fn command_pairs(
    commands: Seq<ExportedCommandView>,
    locals: Seq<Option<StoredCommand>>,
) -> Seq<CommandPair> {
    Seq::new(commands.len(), |i: int| (commands[i], opt_view(locals[i])))
}

/// No local command has the template.
pub open spec fn is_new_command(p: CommandPair) -> bool {
    p.1 is None
}

/// A local command has the same template with another description.
pub open spec fn is_conflicting_command(p: CommandPair) -> bool {
    p.1 is Some && p.1->0.description != p.0.description
}

/// A local command has the same template and description.
pub open spec fn is_identical_command(p: CommandPair) -> bool {
    p.1 is Some && p.1->0.description == p.0.description
}

/// The incoming commands of some pairs.
pub open spec fn incoming_commands(pairs: Seq<CommandPair>) -> Seq<ExportedCommandView> {
    Seq::new(pairs.len(), |i: int| pairs[i].0)
}

/// The conflicts of some pairs.
pub open spec fn command_conflicts(pairs: Seq<CommandPair>) -> Seq<
    (CommandView, ExportedCommandView),
> {
    Seq::new(pairs.len(), |i: int| (pairs[i].1->0, pairs[i].0))
}

/// The incoming commands by what is to become of them.
pub struct CommandDiff {
    pub new_commands: Vec<ExportedCommand>,
    pub conflicts: Vec<CommandConflict>,
    pub identical: usize,
}

/// Sorts the incoming commands into new ones, conflicting ones and identical
/// ones. Commands are matched by exact template text - `id` is a random nanoid
/// generated independently on each machine, so it's not a usable key here.
/// `locals[i]` is what a lookup of the template of `commands[i]` found.
pub fn diff_commands(commands: &[ExportedCommand], locals: &[Option<StoredCommand>]) -> (r:
    CommandDiff)
    requires
        commands@.len() == locals@.len(),
    ensures
        ({
            let pairs = command_pairs(views(commands@), locals@);
            &&& views(r.new_commands@) == incoming_commands(
                pairs.filter(|p: CommandPair| is_new_command(p)),
            )
            &&& views(r.conflicts@) == command_conflicts(
                pairs.filter(|p: CommandPair| is_conflicting_command(p)),
            )
            &&& r.identical == pairs.filter(|p: CommandPair| is_identical_command(p)).len()
        }),
{
    let ghost pairs = command_pairs(views(commands@), locals@);
    let ghost new = |p: CommandPair| is_new_command(p);
    let ghost conflicting = |p: CommandPair| is_conflicting_command(p);
    let ghost same = |p: CommandPair| is_identical_command(p);
    let mut new_commands: Vec<ExportedCommand> = Vec::new();
    let mut conflicts: Vec<CommandConflict> = Vec::new();
    let mut identical: usize = 0;
    let mut i: usize = 0;
    proof {
        reveal(Seq::filter);
        assert(pairs.take(0).len() == 0);
        assert(views(new_commands@) =~= incoming_commands(pairs.take(0).filter(new)));
        assert(views(conflicts@) =~= command_conflicts(pairs.take(0).filter(conflicting)));
    }
    while i < commands.len()
        invariant
            i <= commands.len(),
            commands@.len() == locals@.len(),
            pairs == command_pairs(views(commands@), locals@),
            new == (|p: CommandPair| is_new_command(p)),
            conflicting == (|p: CommandPair| is_conflicting_command(p)),
            same == (|p: CommandPair| is_identical_command(p)),
            views(new_commands@) == incoming_commands(pairs.take(i as int).filter(new)),
            views(conflicts@) == command_conflicts(pairs.take(i as int).filter(conflicting)),
            identical == pairs.take(i as int).filter(same).len(),
            identical <= i,
        decreases commands.len() - i,
    {
        proof {
            filter_take_next(pairs, i as int, new);
            filter_take_next(pairs, i as int, conflicting);
            filter_take_next(pairs, i as int, same);
            assert(pairs[i as int] == (commands@[i as int]@, opt_view(locals@[i as int])));
        }
        let ghost new_before = pairs.take(i as int).filter(new);
        let ghost conflicts_before = pairs.take(i as int).filter(conflicting);
        let ec = &commands[i];
        match &locals[i] {
            None => {
                new_commands.push(ec.clone());
                assert(views(new_commands@) =~= incoming_commands(
                    new_before.push(pairs[i as int]),
                ));
            },
            Some(local) => {
                if local.description == ec.description {
                    identical += 1;
                } else {
                    conflicts.push(CommandConflict { local: local.clone(), incoming: ec.clone() });
                    assert(views(conflicts@) =~= command_conflicts(
                        conflicts_before.push(pairs[i as int]),
                    ));
                }
            },
        }
        i += 1;
    }
    assert(pairs.take(i as int) =~= pairs);
    CommandDiff { new_commands, conflicts, identical }
}

/// Every incoming command is either new, in conflict, or identical to a local
/// one, and only one of these.
pub proof fn every_command_has_one_fate(p: CommandPair)
    ensures
        is_new_command(p) || is_conflicting_command(p) || is_identical_command(p),
        !(is_new_command(p) && is_conflicting_command(p)),
        !(is_new_command(p) && is_identical_command(p)),
        !(is_conflicting_command(p) && is_identical_command(p)),
{
}

/// A local env's value in plaintext, or what is wrong with it. Without a key a
/// secret is not read.
pub open spec fn local_value(key: Option<Seq<u8>>, env: EnvView) -> Result<Seq<char>, SecretFault> {
    if env.kind != EnvKind::Secret {
        Ok(read_lossily(env.value))
    } else {
        match env.nonce {
            None => Err(SecretFault::NoNonce),
            Some(nonce) => match key {
                None => Ok(Seq::empty()),
                Some(key) => if nonce.len() != NONCE_LEN {
                    Err(SecretFault::BadNonce)
                } else {
                    match opened(key, nonce, env.value) {
                        None => Err(SecretFault::WrongKey),
                        Some(bytes) => Ok(read_lossily(bytes)),
                    }
                },
            },
        }
    }
}

/// The report of a fault in a local secret env.
pub open spec fn reports_local_fault(e: VaultError, fault: SecretFault, name: Seq<char>) -> bool {
    match fault {
        SecretFault::NoNonce => e matches VaultError::SecretWithoutNonce(n) && n@ == name,
        SecretFault::BadNonce => e is InvalidNonceLength,
        SecretFault::WrongKey => e is DecryptionFailed,
        SecretFault::NotUtf8 => false,
    }
}

/// The key as a value.
pub open spec fn key_view(key: Option<&DerivedKey>) -> Option<Seq<u8>> {
    match key {
        Some(k) => Some(k@),
        None => None,
    }
}

/// Whether a local env can be read without a key, or there is one.
pub open spec fn is_readable(local: EnvView, key: Option<Seq<u8>>) -> bool {
    local.kind == EnvKind::Secret && local.nonce is Some ==> key is Some
}

/// Whether a local env can be read, or differs in kind from the incoming one,
/// so that it need not be.
pub open spec fn is_comparable(
    local: EnvView,
    incoming: ExportedEnvView,
    key: Option<Seq<u8>>,
) -> bool {
    is_readable(local, key) || local.kind.text() != incoming.kind
}

/// Renders a local env's value as plaintext for comparison against an
/// incoming (already-plaintext) value - decrypting it with the destination
/// key if it's a secret. The key must have been unlocked then.
pub fn comparable_local_value(local: &StoredEnv, dest_key: Option<&DerivedKey>) -> (r: Result<
    String,
    VaultError,
>)
    requires
        is_readable(local@, key_view(dest_key)),
    ensures
        match r {
            Ok(value) => local_value(key_view(dest_key), local@) == Ok::<Seq<char>, SecretFault>(
                value@,
            ),
            Err(e) => local_value(key_view(dest_key), local@) matches Err(fault)
                && reports_local_fault(e, fault, local.name@),
        },
{
    if local.kind != EnvKind::Secret {
        return Ok(lossy_text(local.value.as_slice()));
    }
    let nonce = match &local.nonce {
        Some(nonce) => nonce,
        None => {
            return Err(VaultError::SecretWithoutNonce(local.name.clone()));
        },
    };
    let key = dest_key.unwrap();
    match decrypt(key, nonce.as_slice(), local.value.as_slice()) {
        Ok(plaintext) => Ok(lossy_text(plaintext.as_slice())),
        Err(e) => Err(e),
    }
}

/// Once the destination's key has been unlocked if it is needed, every incoming
/// env can be compared with whatever local env has its name.
pub proof fn unlocked_envs_are_comparable(
    envs: Seq<ExportedEnvView>,
    key: Option<Seq<u8>>,
    i: int,
    local: EnvView,
)
    requires
        0 <= i < envs.len(),
        has_secret(envs) ==> key is Some,
    ensures
        is_comparable(local, envs[i], key),
{
}

/// An incoming env with the local one of the same name and its value in
/// plaintext, if there is one.
pub type EnvPair = (ExportedEnvView, Option<(EnvView, Seq<char>)>);

/// Each incoming env with what a lookup of its name found.
pub open spec fn env_pairs(
    envs: Seq<ExportedEnvView>,
    locals: Seq<Option<StoredEnv>>,
    key: Option<Seq<u8>>,
) -> Seq<EnvPair> {
    Seq::new(
        envs.len(),
        |i: int|
            (
                envs[i],
                match opt_view(locals[i]) {
                    Some(local) => Some((local, local_value(key, local)->Ok_0)),
                    None => None,
                },
            ),
    )
}

/// No local env has the name.
pub open spec fn is_new_env(p: EnvPair) -> bool {
    p.1 is None
}

/// A local env has the same name, kind, value and description.
pub open spec fn is_identical_env(p: EnvPair) -> bool {
    p.1 matches Some((local, value)) && local.kind.text() == p.0.kind && value == p.0.value
        && local.description == p.0.description
}

/// A local env has the same name, and something else is different.
pub open spec fn is_conflicting_env(p: EnvPair) -> bool {
    p.1 is Some && !is_identical_env(p)
}

/// The incoming envs of some pairs.
pub open spec fn incoming_envs(pairs: Seq<EnvPair>) -> Seq<ExportedEnvView> {
    Seq::new(pairs.len(), |i: int| pairs[i].0)
}

/// The conflicts of some pairs.
pub open spec fn env_conflicts(pairs: Seq<EnvPair>) -> Seq<EnvConflictView> {
    Seq::new(
        pairs.len(),
        |i: int|
            EnvConflictView {
                local: (pairs[i].1->0).0,
                local_value: (pairs[i].1->0).1,
                incoming: pairs[i].0,
            },
    )
}

/// The incoming envs by what is to become of them.
pub struct EnvDiff {
    pub new_envs: Vec<ExportedEnv>,
    pub conflicts: Vec<EnvConflict>,
    pub identical: usize,
}

/// Sorts the incoming envs into new ones, conflicting ones and identical ones.
/// Envs are matched by name (the schema already enforces unique names).
/// `locals[i]` is what a lookup of the name of `envs[i]` found. A local secret
/// that cannot be read is an error, the first one of them if there are more.
/// The key must have been unlocked if an incoming secret is to be compared
/// with a local one.
pub fn diff_envs(
    envs: &[ExportedEnv],
    locals: &[Option<StoredEnv>],
    dest_key: Option<&DerivedKey>,
) -> (r: Result<EnvDiff, VaultError>)
    requires
        envs@.len() == locals@.len(),
        forall|i: int|
            0 <= i < locals@.len() ==> (#[trigger] locals@[i] matches Some(local) ==> is_comparable(
                local@,
                views(envs@)[i],
                key_view(dest_key),
            )),
    ensures
        match r {
            Ok(diff) => {
                let pairs = env_pairs(views(envs@), locals@, key_view(dest_key));
                &&& forall|i: int|
                    0 <= i < locals@.len() ==> (#[trigger] locals@[i] matches Some(local)
                        ==> local_value(key_view(dest_key), local@) is Ok)
                &&& views(diff.new_envs@) == incoming_envs(
                    pairs.filter(|p: EnvPair| is_new_env(p)),
                )
                &&& views(diff.conflicts@) == env_conflicts(
                    pairs.filter(|p: EnvPair| is_conflicting_env(p)),
                )
                &&& diff.identical == pairs.filter(|p: EnvPair| is_identical_env(p)).len()
            },
            Err(e) => exists|i: int|
                0 <= i < locals@.len() && (#[trigger] locals@[i] matches Some(local) && local_value(
                    key_view(dest_key),
                    local@,
                ) matches Err(fault) && reports_local_fault(e, fault, local.name@)) && forall|j: int|
                    0 <= j < i ==> (#[trigger] locals@[j] matches Some(other) ==> local_value(
                        key_view(dest_key),
                        other@,
                    ) is Ok),
        },
{
    let ghost key = key_view(dest_key);
    let ghost pairs = env_pairs(views(envs@), locals@, key);
    let ghost new = |p: EnvPair| is_new_env(p);
    let ghost conflicting = |p: EnvPair| is_conflicting_env(p);
    let ghost same = |p: EnvPair| is_identical_env(p);
    let mut new_envs: Vec<ExportedEnv> = Vec::new();
    let mut conflicts: Vec<EnvConflict> = Vec::new();
    let mut identical: usize = 0;
    let mut i: usize = 0;
    proof {
        reveal(Seq::filter);
        assert(pairs.take(0).len() == 0);
        assert(views(new_envs@) =~= incoming_envs(pairs.take(0).filter(new)));
        assert(views(conflicts@) =~= env_conflicts(pairs.take(0).filter(conflicting)));
    }
    while i < envs.len()
        invariant
            i <= envs.len(),
            envs@.len() == locals@.len(),
            key == key_view(dest_key),
            pairs == env_pairs(views(envs@), locals@, key),
            new == (|p: EnvPair| is_new_env(p)),
            conflicting == (|p: EnvPair| is_conflicting_env(p)),
            same == (|p: EnvPair| is_identical_env(p)),
            forall|j: int|
                0 <= j < locals@.len() ==> (#[trigger] locals@[j] matches Some(local)
                    ==> is_comparable(local@, views(envs@)[j], key)),
            forall|j: int|
                0 <= j < i ==> (#[trigger] locals@[j] matches Some(local) ==> local_value(
                    key,
                    local@,
                ) is Ok),
            views(new_envs@) == incoming_envs(pairs.take(i as int).filter(new)),
            views(conflicts@) == env_conflicts(pairs.take(i as int).filter(conflicting)),
            identical == pairs.take(i as int).filter(same).len(),
            identical <= i,
        decreases envs.len() - i,
    {
        proof {
            filter_take_next(pairs, i as int, new);
            filter_take_next(pairs, i as int, conflicting);
            filter_take_next(pairs, i as int, same);
        }
        let ghost new_before = pairs.take(i as int).filter(new);
        let ghost conflicts_before = pairs.take(i as int).filter(conflicting);
        let ee = &envs[i];
        match &locals[i] {
            None => {
                assert(pairs[i as int] == (ee@, None::<(EnvView, Seq<char>)>));
                new_envs.push(ee.clone());
                assert(views(new_envs@) =~= incoming_envs(new_before.push(pairs[i as int])));
            },
            Some(local) => {
                let unread = local.kind == EnvKind::Secret && local.nonce.is_some()
                    && dest_key.is_none();
                let value = if unread {
                    String::new()
                } else {
                    match comparable_local_value(local, dest_key) {
                        Ok(value) => value,
                        Err(e) => {
                            return Err(e);
                        },
                    }
                };
                assert(pairs[i as int] == (ee@, Some((local@, value@))));
                let unchanged = *local.kind.as_str() == *ee.kind.as_str() && value == ee.value
                    && local.description == ee.description;
                if unchanged {
                    identical += 1;
                } else {
                    conflicts.push(
                        EnvConflict {
                            local: local.clone(),
                            local_value: value,
                            incoming: ee.clone(),
                        },
                    );
                    assert(views(conflicts@) =~= env_conflicts(
                        conflicts_before.push(pairs[i as int]),
                    ));
                }
            },
        }
        i += 1;
    }
    assert(pairs.take(i as int) =~= pairs);
    Ok(EnvDiff { new_envs, conflicts, identical })
}

/// Every incoming env is either new, in conflict, or identical to a local one,
/// and only one of these.
pub proof fn every_env_has_one_fate(p: EnvPair)
    ensures
        is_new_env(p) || is_conflicting_env(p) || is_identical_env(p),
        !(is_new_env(p) && is_conflicting_env(p)),
        !(is_new_env(p) && is_identical_env(p)),
        !(is_conflicting_env(p) && is_identical_env(p)),
{
}

/// All items of a list pass a test that each of them passes, and none of one
/// that none of them passes.
proof fn filter_all_or_none<A>(s: Seq<A>, test: spec_fn(A) -> bool, all: bool)
    requires
        forall|i: int| 0 <= i < s.len() ==> test(#[trigger] s[i]) == all,
    ensures
        all ==> s.filter(test) == s,
        !all ==> s.filter(test).len() == 0,
    decreases s.len(),
{
    reveal(Seq::filter);
    if s.len() > 0 {
        filter_all_or_none(s.drop_last(), test, all);
        assert(test(s.last()) == all);
        assert(s.drop_last().push(s.last()) =~= s);
    }
}

/// To a vault that has none of its templates and none of its names, all that a
/// file holds is new, in the order of the file.
pub proof fn an_empty_vault_finds_all_new(
    commands: Seq<ExportedCommandView>,
    local_commands: Seq<Option<StoredCommand>>,
    envs: Seq<ExportedEnvView>,
    local_envs: Seq<Option<StoredEnv>>,
    key: Option<Seq<u8>>,
)
    requires
        commands.len() == local_commands.len(),
        envs.len() == local_envs.len(),
        forall|i: int| 0 <= i < local_commands.len() ==> #[trigger] local_commands[i] is None,
        forall|i: int| 0 <= i < local_envs.len() ==> #[trigger] local_envs[i] is None,
    ensures
        ({
            let pairs = command_pairs(commands, local_commands);
            &&& incoming_commands(pairs.filter(|p: CommandPair| is_new_command(p))) == commands
            &&& pairs.filter(|p: CommandPair| is_conflicting_command(p)).len() == 0
            &&& pairs.filter(|p: CommandPair| is_identical_command(p)).len() == 0
        }),
        ({
            let pairs = env_pairs(envs, local_envs, key);
            &&& incoming_envs(pairs.filter(|p: EnvPair| is_new_env(p))) == envs
            &&& pairs.filter(|p: EnvPair| is_conflicting_env(p)).len() == 0
            &&& pairs.filter(|p: EnvPair| is_identical_env(p)).len() == 0
        }),
{
    let pairs = command_pairs(commands, local_commands);
    assert forall|i: int| 0 <= i < pairs.len() implies (#[trigger] pairs[i]).1 is None by {
        assert(local_commands[i] is None);
    }
    filter_all_or_none(pairs, |p: CommandPair| is_new_command(p), true);
    filter_all_or_none(pairs, |p: CommandPair| is_conflicting_command(p), false);
    filter_all_or_none(pairs, |p: CommandPair| is_identical_command(p), false);
    assert(incoming_commands(pairs) =~= commands);
    let pairs = env_pairs(envs, local_envs, key);
    assert forall|i: int| 0 <= i < pairs.len() implies (#[trigger] pairs[i]).1 is None by {
        assert(local_envs[i] is None);
    }
    filter_all_or_none(pairs, |p: EnvPair| is_new_env(p), true);
    filter_all_or_none(pairs, |p: EnvPair| is_conflicting_env(p), false);
    filter_all_or_none(pairs, |p: EnvPair| is_identical_env(p), false);
    assert(incoming_envs(pairs) =~= envs);
}

/// What an import found, before anything is written.
pub fn diff_summary(commands: &CommandDiff, envs: &EnvDiff) -> (r: String)
    requires
        commands.identical + envs.identical <= u64::MAX,
    ensures
        r@ == decimal(commands.new_commands@.len()) + " new command(s), "@ + decimal(
            envs.new_envs@.len(),
        ) + " new env(s), "@ + decimal(commands.conflicts@.len()) + " conflicting command(s), "@
            + decimal(envs.conflicts@.len()) + " conflicting env(s), "@ + decimal(
            (commands.identical + envs.identical) as nat,
        ) + " unchanged."@,
{
    let unchanged: u64 = commands.identical as u64 + envs.identical as u64;
    let mut out = decimal_of(commands.new_commands.len() as u64);
    out.append(" new command(s), ");
    out.append(&decimal_of(envs.new_envs.len() as u64));
    out.append(" new env(s), ");
    out.append(&decimal_of(commands.conflicts.len() as u64));
    out.append(" conflicting command(s), ");
    out.append(&decimal_of(envs.conflicts.len() as u64));
    out.append(" conflicting env(s), ");
    out.append(&decimal_of(unchanged));
    out.append(" unchanged.");
    out
}

} // verus!
