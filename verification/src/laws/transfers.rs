//! What an export writes, and what an import makes of it.

use vstd::prelude::*;
#[allow(unused_imports)]
use vstd::utf8::encode_utf8;

#[allow(unused_imports)]
use crate::commands::export::{exported_command, exported_value, is_exported_env, needs_key};
#[allow(unused_imports)]
use crate::commands::import::conflicts::{
    is_resolving, resolve_next, Phase, ResolveActionView, ResolveEvent, ResolvingView,
};
#[allow(unused_imports)]
use crate::commands::import::diff::{
    command_conflicts, command_pairs, env_conflicts, env_pairs, has_secret, incoming_commands,
    incoming_envs, is_conflicting_command, is_conflicting_env, is_identical_command,
    is_identical_env, is_new_command, is_new_env, local_value, CommandPair, EnvConflictView,
    EnvPair,
};
#[allow(unused_imports)]
use crate::commands::import::plan::{
    added_commands, count_picked, env_record, replacing_commands, stored_command,
};
#[allow(unused_imports)]
use crate::crypto::{aes_gcm_opened, argon2id, opened, unlocks};
#[allow(unused_imports)]
use crate::env_value::{holds_text, stored_values_read_back, value_of, EnvValueView};
#[allow(unused_imports)]
use crate::models::{
    filter_contains, CommandView, EnvKind, EnvView, StoredCommand, StoredEnv,
};
#[allow(unused_imports)]
use crate::text::read_lossily;
#[allow(unused_imports)]
use crate::transfer::{decoded, framed, ExportedCommandView, ExportedEnvView, TransferFault};
#[allow(unused_imports)]
use crate::vars::{secret_value, SecretFault};

verus! {

broadcast use vstd::string::group_string_axioms;

/// The name under which a kind travels.
pub open spec fn kind_name(kind: EnvKind) -> Seq<char> {
    match kind {
        EnvKind::Secret => "secret"@,
        EnvKind::Text => "text"@,
        EnvKind::NumberFloat => "number_float"@,
        EnvKind::NumberInt => "number_int"@,
    }
}

/// An incoming env counts as unchanged only if skipping it loses nothing: its
/// kind, its value and its description are those of the local env of its name.
/// Two envs that differ in any of the three are a conflict.
pub proof fn nothing_is_lost_by_skipping_an_env(
    ee: ExportedEnvView,
    local: EnvView,
    value: Seq<char>,
)
    ensures
        is_identical_env((ee, Some((local, value)))) ==> kind_name(local.kind) == ee.kind && value
            == ee.value && local.description == ee.description,
        kind_name(local.kind) != ee.kind || value != ee.value || local.description
            != ee.description ==> is_conflicting_env((ee, Some((local, value)))),
        kind_name(local.kind) == ee.kind && value == ee.value && local.description
            == ee.description ==> is_identical_env((ee, Some((local, value)))),
        !is_new_env((ee, Some((local, value)))),
        is_new_env((ee, None)),
{
}

/// An incoming command counts as unchanged only if the local command of its
/// template has the same description.
pub proof fn nothing_is_lost_by_skipping_a_command(ec: ExportedCommandView, local: CommandView)
    ensures
        is_identical_command((ec, Some(local))) <==> local.description == ec.description,
        is_conflicting_command((ec, Some(local))) <==> local.description != ec.description,
        !is_new_command((ec, Some(local))),
        is_new_command((ec, None)),
{
}

/// Three tests of which exactly one holds sort a list into three.
proof fn filters_part<A>(
    s: Seq<A>,
    a: spec_fn(A) -> bool,
    b: spec_fn(A) -> bool,
    c: spec_fn(A) -> bool,
)
    requires
        forall|i: int|
            0 <= i < s.len() ==> {
                ||| a(#[trigger] s[i]) && !b(s[i]) && !c(s[i])
                ||| !a(s[i]) && b(s[i]) && !c(s[i])
                ||| !a(s[i]) && !b(s[i]) && c(s[i])
            },
    ensures
        s.filter(a).len() + s.filter(b).len() + s.filter(c).len() == s.len(),
    decreases s.len(),
{
    reveal(Seq::filter);
    if s.len() > 0 {
        let rest = s.drop_last();
        assert forall|i: int| 0 <= i < rest.len() implies {
            ||| a(#[trigger] rest[i]) && !b(rest[i]) && !c(rest[i])
            ||| !a(rest[i]) && b(rest[i]) && !c(rest[i])
            ||| !a(rest[i]) && !b(rest[i]) && c(rest[i])
        } by {
            assert(rest[i] == s[i]);
        }
        filters_part(rest, a, b, c);
        assert(s.last() == s[s.len() - 1]);
    }
}

/// Every incoming env is accounted for. One whose name no local env has is
/// new. One whose local namesake differs in kind, value or description is put
/// to the user together with that namesake. Only the rest is skipped.
pub proof fn every_incoming_env_is_accounted_for(
    envs: Seq<ExportedEnvView>,
    locals: Seq<Option<StoredEnv>>,
    key: Option<Seq<u8>>,
    i: int,
)
    requires
        envs.len() == locals.len(),
        0 <= i < envs.len(),
    ensures
        ({
            let pairs = env_pairs(envs, locals, key);
            let new = incoming_envs(pairs.filter(|p: EnvPair| is_new_env(p)));
            let conflicts = env_conflicts(pairs.filter(|p: EnvPair| is_conflicting_env(p)));
            let identical = pairs.filter(|p: EnvPair| is_identical_env(p)).len();
            &&& new.len() + conflicts.len() + identical == envs.len()
            &&& locals[i] is None ==> new.contains(envs[i])
            &&& (locals[i] matches Some(local) && local_value(key, local@) matches Ok(value) && (
            kind_name(local@.kind) != envs[i].kind || value != envs[i].value
                || local@.description != envs[i].description)) ==> conflicts.contains(
                EnvConflictView {
                    local: locals[i]->0@,
                    local_value: local_value(key, locals[i]->0@)->Ok_0,
                    incoming: envs[i],
                },
            )
        }),
{
    let pairs = env_pairs(envs, locals, key);
    let is_new = |p: EnvPair| is_new_env(p);
    let conflicting = |p: EnvPair| is_conflicting_env(p);
    let same = |p: EnvPair| is_identical_env(p);
    filters_part(pairs, is_new, conflicting, same);
    let p = pairs[i];
    assert(pairs.contains(p));
    if locals[i] is None {
        filter_contains(pairs, is_new, p);
        let list = pairs.filter(is_new);
        let k = choose|k: int| 0 <= k < list.len() && list[k] == p;
        assert(incoming_envs(list)[k] == envs[i]);
    }
    if let Some(local) = locals[i] {
        if let Ok(value) = local_value(key, local@) {
            if kind_name(local@.kind) != envs[i].kind || value != envs[i].value
                || local@.description != envs[i].description {
                assert(p == (envs[i], Some((local@, value))));
                nothing_is_lost_by_skipping_an_env(envs[i], local@, value);
                filter_contains(pairs, conflicting, p);
                let list = pairs.filter(conflicting);
                let k = choose|k: int| 0 <= k < list.len() && list[k] == p;
                assert(env_conflicts(list)[k] == (EnvConflictView {
                    local: local@,
                    local_value: value,
                    incoming: envs[i],
                }));
            }
        }
    }
}

/// Every incoming command is accounted for. One whose template no local command
/// has is new. One whose local namesake has another description is put to the
/// user together with that namesake. Only the rest is skipped.
pub proof fn every_incoming_command_is_accounted_for(
    commands: Seq<ExportedCommandView>,
    locals: Seq<Option<StoredCommand>>,
    i: int,
)
    requires
        commands.len() == locals.len(),
        0 <= i < commands.len(),
    ensures
        ({
            let pairs = command_pairs(commands, locals);
            let new = incoming_commands(pairs.filter(|p: CommandPair| is_new_command(p)));
            let conflicts = command_conflicts(
                pairs.filter(|p: CommandPair| is_conflicting_command(p)),
            );
            let identical = pairs.filter(|p: CommandPair| is_identical_command(p)).len();
            &&& new.len() + conflicts.len() + identical == commands.len()
            &&& locals[i] is None ==> new.contains(commands[i])
            &&& (locals[i] matches Some(local) && local@.description != commands[i].description)
                ==> conflicts.contains((locals[i]->0@, commands[i]))
        }),
{
    let pairs = command_pairs(commands, locals);
    let is_new = |p: CommandPair| is_new_command(p);
    let conflicting = |p: CommandPair| is_conflicting_command(p);
    let same = |p: CommandPair| is_identical_command(p);
    filters_part(pairs, is_new, conflicting, same);
    let p = pairs[i];
    assert(pairs.contains(p));
    if locals[i] is None {
        filter_contains(pairs, is_new, p);
        let list = pairs.filter(is_new);
        let k = choose|k: int| 0 <= k < list.len() && list[k] == p;
        assert(incoming_commands(list)[k] == commands[i]);
    }
    if let Some(local) = locals[i] {
        if local@.description != commands[i].description {
            assert(p == (commands[i], Some(local@)));
            filter_contains(pairs, conflicting, p);
            let list = pairs.filter(conflicting);
            let k = choose|k: int| 0 <= k < list.len() && list[k] == p;
            assert(command_conflicts(list)[k] == (local@, commands[i]));
        }
    }
}

/// A local value is compared as the text that was stored, a secret under the
/// key that it was encrypted with.
pub proof fn local_values_are_compared_as_text(env: EnvView, key: Seq<u8>, text: Seq<char>)
    requires
        holds_text(value_of(env), key, text),
    ensures
        local_value(Some(key), env) == Ok::<Seq<char>, SecretFault>(text),
        exported_value(Some(key), env) == Ok::<Seq<char>, SecretFault>(text),
        env.kind != EnvKind::Secret ==> local_value(None, env) == Ok::<Seq<char>, SecretFault>(text)
            && exported_value(None, env) == Ok::<Seq<char>, SecretFault>(text),
{
    stored_values_read_back(env, key, text);
    if env.kind == EnvKind::Secret {
        vstd::utf8::encode_utf8_valid_utf8(text);
        vstd::utf8::encode_utf8_decode_utf8(text);
    }
}

/// A command travels with all that it says, field by field, and is stored
/// with all that came.
pub proof fn commands_travel_field_by_field(
    cmd: CommandView,
    defaults: Map<Seq<char>, Seq<char>>,
    ec: ExportedCommandView,
)
    ensures
        exported_command(cmd, defaults).id == cmd.id,
        exported_command(cmd, defaults).template == cmd.template,
        exported_command(cmd, defaults).description == cmd.description,
        exported_command(cmd, defaults).created_at == cmd.created_at,
        exported_command(cmd, defaults).updated_at == cmd.updated_at,
        exported_command(cmd, defaults).variable_defaults == defaults,
        stored_command(ec).id == ec.id,
        stored_command(ec).template == ec.template,
        stored_command(ec).description == ec.description,
        stored_command(ec).created_at == ec.created_at,
        stored_command(ec).updated_at == ec.updated_at,
{
}

/// An env travels with all that it says, field by field, its value in plain
/// text, and is stored with all that came.
pub proof fn envs_travel_field_by_field(
    env: EnvView,
    key: Option<Seq<u8>>,
    ee: ExportedEnvView,
    value: EnvValueView,
)
    ensures
        is_exported_env(ee, env, key) <==> {
            &&& ee.id == env.id
            &&& ee.name == env.name
            &&& ee.kind == kind_name(env.kind)
            &&& ee.description == env.description
            &&& ee.created_at == env.created_at
            &&& ee.updated_at == env.updated_at
            &&& Ok::<Seq<char>, SecretFault>(ee.value) == if env.kind == EnvKind::Secret {
                secret_value(key->0, env)
            } else {
                Ok(read_lossily(env.value))
            }
        },
        env_record(ee, value).id == ee.id,
        env_record(ee, value).name == ee.name,
        env_record(ee, value).kind == value.kind,
        env_record(ee, value).value == value.bytes,
        env_record(ee, value).nonce == value.nonce,
        env_record(ee, value).description == ee.description,
        env_record(ee, value).created_at == ee.created_at,
        env_record(ee, value).updated_at == ee.updated_at,
{
}

/// The master key is asked for exactly if a secret is to be read or stored.
pub proof fn only_secrets_need_the_key(envs: Seq<EnvView>, incoming: Seq<ExportedEnvView>)
    ensures
        (forall|i: int| 0 <= i < envs.len() ==> (#[trigger] envs[i]).kind != EnvKind::Secret)
            <==> !needs_key(envs),
        (forall|i: int| 0 <= i < incoming.len() ==> (#[trigger] incoming[i]).kind != "secret"@)
            <==> !has_secret(incoming),
{
}

/// A transfer file is the letters INRX, a version, the salt, the nonce and the
/// ciphertext, one behind the other.
pub proof fn transfer_files_are_laid_out(salt: Seq<u8>, nonce: Seq<u8>, ciphertext: Seq<u8>)
    requires
        salt.len() == 16,
        nonce.len() == 12,
    ensures
        ({
            let bytes = framed(salt, nonce, ciphertext);
            &&& bytes.len() == 33 + ciphertext.len()
            &&& bytes[0] == 0x49 && bytes[1] == 0x4e && bytes[2] == 0x52 && bytes[3] == 0x58
            &&& bytes[4] == 1
            &&& bytes.subrange(5, 21) == salt
            &&& bytes.subrange(21, 33) == nonce
            &&& bytes.subrange(33, bytes.len() as int) == ciphertext
        }),
{
    let bytes = framed(salt, nonce, ciphertext);
    assert(bytes.subrange(5, 21) =~= salt);
    assert(bytes.subrange(21, 33) =~= nonce);
    assert(bytes.subrange(33, bytes.len() as int) =~= ciphertext);
}

/// A transfer file is read by what stands in it: what is too short, begins
/// otherwise or has another version is refused as such, and everything else is
/// opened under the key for the passphrase and the salt in the file, with the
/// nonce in the file.
pub proof fn transfer_files_are_read_by_their_parts(bytes: Seq<u8>, passphrase: Seq<char>)
    ensures
        bytes.len() < 33 ==> decoded(bytes, passphrase) == Err::<Seq<u8>, TransferFault>(
            TransferFault::TooShort,
        ),
        bytes.len() >= 33 && !(bytes[0] == 0x49 && bytes[1] == 0x4e && bytes[2] == 0x52 && bytes[3]
            == 0x58) ==> decoded(bytes, passphrase) == Err::<Seq<u8>, TransferFault>(
            TransferFault::NotATransferFile,
        ),
        bytes.len() >= 33 && bytes[0] == 0x49 && bytes[1] == 0x4e && bytes[2] == 0x52 && bytes[3]
            == 0x58 && bytes[4] != 1 ==> decoded(bytes, passphrase) == Err::<
            Seq<u8>,
            TransferFault,
        >(TransferFault::UnsupportedVersion(bytes[4])),
        bytes.len() >= 33 && bytes[0] == 0x49 && bytes[1] == 0x4e && bytes[2] == 0x52 && bytes[3]
            == 0x58 && bytes[4] == 1 && encode_utf8(passphrase).len() <= 4_294_967_295 ==> decoded(
            bytes,
            passphrase,
        ) == match aes_gcm_opened(
            argon2id(encode_utf8(passphrase), bytes.subrange(5, 21)),
            bytes.subrange(21, 33),
            bytes.subrange(33, bytes.len() as int),
        ) {
            Some(payload) => Ok::<Seq<u8>, TransferFault>(payload),
            None => Err(TransferFault::WrongPassphrase),
        },
{
    if bytes.len() >= 33 {
        let start = bytes.subrange(0, 4);
        assert(start[0] == bytes[0] && start[1] == bytes[1] && start[2] == bytes[2] && start[3]
            == bytes[3]);
        let letters = seq![0x49u8, 0x4e, 0x52, 0x58];
        if bytes[0] == 0x49 && bytes[1] == 0x4e && bytes[2] == 0x52 && bytes[3] == 0x58 {
            assert(start =~= letters);
        }
    }
}

/// A password unlocks a vault exactly if the key for it and the vault's salt
/// opens the vault's canary to the text that was put there.
pub proof fn passwords_are_tried_on_the_canary(
    password: Seq<char>,
    salt: Seq<u8>,
    nonce: Seq<u8>,
    cipher: Seq<u8>,
)
    ensures
        unlocks(password, salt, nonce, cipher) <==> {
            &&& salt.len() == 16
            &&& encode_utf8(password).len() <= 4_294_967_295
            &&& nonce.len() == 12
            &&& aes_gcm_opened(argon2id(encode_utf8(password), salt), nonce, cipher) == Some(
                encode_utf8("INR-CANARY-v1"@),
            )
        },
{
}

/// One by one, each choice decides the conflict that was shown, and the next
/// one is shown: first the commands, then the envs. After the last the choices
/// are handed back in that order.
pub proof fn each_choice_decides_one_conflict(s: ResolvingView, choice: String, incoming: bool)
    requires
        is_resolving(s),
        s.phase == Phase::OneByOne,
        choice@ == if incoming {
            "Use incoming"@
        } else {
            "Keep mine"@
        },
    ensures
        ({
            let (next, action) = resolve_next(s, ResolveEvent::Chose(choice));
            let picks = s.picks.push(incoming);
            let n = picks.len() as int;
            &&& next.picks == picks
            &&& next.phase == Phase::OneByOne
            &&& next.commands == s.commands && next.envs == s.envs
            &&& action == if n < s.commands {
                ResolveActionView::ShowCommand(n)
            } else if n < s.commands + s.envs {
                ResolveActionView::ShowEnv(n - s.commands)
            } else {
                ResolveActionView::Finish(
                    Some((picks.take(s.commands as int), picks.skip(s.commands as int))),
                )
            }
        }),
{
    reveal_strlit("Use incoming");
    reveal_strlit("Keep mine");
    assert("Use incoming"@.len() == 12 && "Keep mine"@.len() == 9);
    let picks = s.picks.push(incoming);
    if picks.len() == s.commands + s.envs {
        assert(picks.subrange(0, s.commands as int) =~= picks.take(s.commands as int));
        assert(picks.subrange(s.commands as int, picks.len() as int) =~= picks.skip(
            s.commands as int,
        ));
    }
}

/// All at once, every conflict is decided alike, after the user has said yes:
/// keeping mine keeps every local version, and using incoming none. Otherwise
/// the conflicts are gone through one by one, from the first.
pub proof fn all_conflicts_are_decided_alike(s: ResolvingView, choice: String)
    requires
        is_resolving(s),
        s.phase == Phase::Asking,
    ensures
        choice@ == "Keep mine for all"@ || choice@ == "Use incoming for all"@ ==> {
            let (asked, question) = resolve_next(s, ResolveEvent::Chose(choice));
            let (done, result) = resolve_next(asked, ResolveEvent::Answered(true));
            &&& question is Confirm
            &&& resolve_next(asked, ResolveEvent::Answered(false)).1 == ResolveActionView::Finish(
                None,
            )
            &&& result matches ResolveActionView::Finish(Some((commands, envs))) && {
                &&& commands.len() == s.commands && envs.len() == s.envs
                &&& forall|i: int|
                    0 <= i < commands.len() ==> #[trigger] commands[i] == (choice@
                        == "Use incoming for all"@)
                &&& forall|i: int|
                    0 <= i < envs.len() ==> #[trigger] envs[i] == (choice@
                        == "Use incoming for all"@)
            }
        },
        choice@ == "Resolve one by one"@ ==> {
            let (next, action) = resolve_next(s, ResolveEvent::Chose(choice));
            &&& next.phase == Phase::OneByOne
            &&& next.picks.len() == 0
            &&& action == if s.commands > 0 {
                ResolveActionView::ShowCommand(0)
            } else {
                ResolveActionView::ShowEnv(0)
            }
        },
{
    reveal_strlit("Keep mine for all");
    reveal_strlit("Use incoming for all");
    reveal_strlit("Resolve one by one");
    assert("Keep mine for all"@.len() == 17);
    assert("Use incoming for all"@.len() == 20);
    assert("Resolve one by one"@.len() == 18);
}

/// As many conflicts count as replaced as were decided for the incoming
/// version: none of none, and all of all.
pub proof fn decisions_are_counted(picks: Seq<bool>, pick: bool)
    ensures
        count_picked(Seq::empty(), 0) == 0,
        count_picked(picks.push(pick), picks.len() as int + 1) == count_picked(
            picks,
            picks.len() as int,
        ) + if pick {
            1int
        } else {
            0int
        },
{
    same_count(picks, picks.push(pick), picks.len() as int);
}

proof fn same_count(a: Seq<bool>, b: Seq<bool>, n: int)
    requires
        n <= a.len(),
        n <= b.len(),
        forall|i: int| 0 <= i < n ==> a[i] == b[i],
    ensures
        count_picked(a, n) == count_picked(b, n),
    decreases n,
{
    if n > 0 {
        same_count(a, b, n - 1);
    }
}

/// The commands that an import brings in are the new ones and those that were
/// chosen over local ones, and no others.
pub proof fn new_and_chosen_commands_come_in(
    new: Seq<ExportedCommandView>,
    conflicts: Seq<(CommandView, ExportedCommandView)>,
    picks: Seq<bool>,
    ec: ExportedCommandView,
)
    requires
        picks.len() == conflicts.len(),
    ensures
        added_commands(new, conflicts, picks).contains(ec) <==> new.contains(ec) || exists|i: int|
            0 <= i < picks.len() && #[trigger] picks[i] && conflicts[i].1 == ec,
        added_commands(new, conflicts, picks).len() == new.len() + count_picked(
            picks,
            picks.len() as int,
        ),
{
    let chosen = replacing_commands(conflicts, picks, picks.len() as int);
    let all = added_commands(new, conflicts, picks);
    chosen_commands(conflicts, picks, picks.len() as int, ec);
    if new.contains(ec) {
        let i = choose|i: int| 0 <= i < new.len() && new[i] == ec;
        assert(all[i] == ec);
    }
    if chosen.contains(ec) {
        let i = choose|i: int| 0 <= i < chosen.len() && chosen[i] == ec;
        assert(all[new.len() + i] == ec);
    }
    if all.contains(ec) {
        let i = choose|i: int| 0 <= i < all.len() && all[i] == ec;
        if i < new.len() {
            assert(new[i] == ec);
        } else {
            assert(chosen[i - new.len()] == ec);
        }
    }
}

proof fn chosen_commands(
    conflicts: Seq<(CommandView, ExportedCommandView)>,
    picks: Seq<bool>,
    n: int,
    ec: ExportedCommandView,
)
    requires
        0 <= n <= picks.len(),
        picks.len() == conflicts.len(),
    ensures
        replacing_commands(conflicts, picks, n).contains(ec) <==> exists|i: int|
            0 <= i < n && #[trigger] picks[i] && conflicts[i].1 == ec,
        replacing_commands(conflicts, picks, n).len() == count_picked(picks, n),
    decreases n,
{
    if n > 0 {
        chosen_commands(conflicts, picks, n - 1, ec);
        let before = replacing_commands(conflicts, picks, n - 1);
        let all = replacing_commands(conflicts, picks, n);
        if picks[n - 1] {
            assert(all == before.push(conflicts[n - 1].1));
            if before.contains(ec) {
                let k = choose|k: int| 0 <= k < before.len() && before[k] == ec;
                assert(all[k] == ec);
            }
            if conflicts[n - 1].1 == ec {
                assert(all[before.len() as int] == ec);
            }
            if all.contains(ec) && conflicts[n - 1].1 != ec {
                let k = choose|k: int| 0 <= k < all.len() && all[k] == ec;
                assert(before[k] == ec);
            }
        }
    }
}

} // verus!
