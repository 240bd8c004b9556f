//! What an import leaves behind.

use vstd::prelude::*;

#[allow(unused_imports)]
use crate::commands::import::conflicts::Resolutions;
#[allow(unused_imports)]
use crate::commands::import::diff::{CommandDiff, EnvConflictView, EnvDiff};
#[allow(unused_imports)]
use crate::commands::import::plan::{
    are_env_inserts, are_env_replacements, command_changes, is_built_env, is_import_plan,
    new_command_changes, replaced_command_changes, stored_command, ImportPlan,
};
#[allow(unused_imports)]
use crate::db::commands_repo::{insert_command_changes, stored_rows};
#[allow(unused_imports)]
use crate::db::vault::{changed, changed_all, changed_all_in_turn, ChangeView, VaultView};
#[allow(unused_imports)]
use crate::models::{CommandView, VariableView};
#[allow(unused_imports)]
use crate::placeholder::template_variables;
#[allow(unused_imports)]
use crate::transfer::{ExportedCommandView, ExportedEnvView};
#[allow(unused_imports)]
use crate::views::views;

verus! {

/// A local command that is as it was, with its variables.
pub open spec fn command_is_kept(v: VaultView, w: VaultView, id: Seq<char>) -> bool {
    &&& w.commands.contains_key(id)
    &&& w.commands[id] == v.commands[id]
    &&& w.variables_of(id) == v.variables_of(id)
}

/// An incoming command that is there, with the variables of its template.
pub open spec fn command_is_added(w: VaultView, ec: ExportedCommandView) -> bool {
    &&& w.commands.contains_key(ec.id)
    &&& w.commands[ec.id] == stored_command(ec)
    &&& w.variables_of(ec.id) == stored_rows(
        template_variables(ec.template)->Ok_0,
        Seq::empty(),
    )
}

/// Whether one of the first `n` conflicts was decided against the local
/// command of that id.
pub open spec fn command_is_replaced(
    conflicts: Seq<(CommandView, ExportedCommandView)>,
    picks: Seq<bool>,
    n: int,
    id: Seq<char>,
) -> bool {
    exists|i: int| 0 <= i < n && picks[i] && (#[trigger] conflicts[i]).0.id == id
}

/// Whether a conflict after `k` was decided against the local command of that
/// id.
pub open spec fn command_is_replaced_after(
    conflicts: Seq<(CommandView, ExportedCommandView)>,
    picks: Seq<bool>,
    k: int,
    n: int,
    id: Seq<char>,
) -> bool {
    exists|j: int| k < j < n && picks[j] && (#[trigger] conflicts[j]).0.id == id
}

/// Whether one of the first `n` conflicts was decided against the local env of
/// that id.
pub open spec fn env_is_replaced(
    conflicts: Seq<EnvConflictView>,
    picks: Seq<bool>,
    n: int,
    id: Seq<char>,
) -> bool {
    exists|i: int| 0 <= i < n && picks[i] && (#[trigger] conflicts[i]).local.id == id
}

/// Whether a conflict after `k` was decided against the local env of that id.
pub open spec fn env_is_replaced_after(
    conflicts: Seq<EnvConflictView>,
    picks: Seq<bool>,
    k: int,
    n: int,
    id: Seq<char>,
) -> bool {
    exists|j: int| k < j < n && picks[j] && (#[trigger] conflicts[j]).local.id == id
}

/// An incoming env that is there, re-encrypted if it is a secret.
pub open spec fn env_is_added(w: VaultView, ee: ExportedEnvView, key: Option<Seq<u8>>) -> bool {
    w.envs.contains_key(ee.id) && is_built_env(w.envs[ee.id], ee, key)
}

/// What adding a command does, if nothing stands in the way.
proof fn adding_a_command(v: VaultView, cmd: CommandView, vars: Seq<VariableView>, w: VaultView)
    requires
        changed_all(v, insert_command_changes(cmd, vars)) == Some(w),
    ensures
        !v.commands.contains_key(cmd.id),
        w.commands == v.commands.insert(cmd.id, cmd),
        w.envs == v.envs,
        w.variables_of(cmd.id) == stored_rows(vars, Seq::empty()),
        forall|other: Seq<char>|
            other != cmd.id ==> #[trigger] w.variables_of(other) == v.variables_of(other),
{
    let both = insert_command_changes(cmd, vars);
    let first = both.drop_last();
    assert(first.drop_last() =~= Seq::<ChangeView>::empty());
    assert(changed_all(v, first.drop_last()) == Some(v));
    assert(changed_all(v, first) == changed(v, both[0]));
    assert(w.variables_of(cmd.id) =~= stored_rows(vars, Seq::empty()));
}

/// What adding the new commands does.
pub(crate) proof fn adding_new_commands(v: VaultView, new: Seq<ExportedCommandView>, n: int, w: VaultView)
    requires
        0 <= n <= new.len(),
        changed_all(v, new_command_changes(new, n)) == Some(w),
    ensures
        w.envs == v.envs,
        forall|id: Seq<char>| #[trigger] v.commands.contains_key(id) ==> command_is_kept(v, w, id),
        forall|k: int|
            0 <= k < n ==> command_is_added(w, #[trigger] new[k]) && !v.commands.contains_key(
                new[k].id,
            ),
        forall|id: Seq<char>| #[trigger]
            w.commands.contains_key(id) ==> v.commands.contains_key(id) || exists|k: int|
                0 <= k < n && (#[trigger] new[k]).id == id,
    decreases n,
{
    if n > 0 {
        let ec = new[n - 1];
        let vars = template_variables(ec.template)->Ok_0;
        let before = new_command_changes(new, n - 1);
        changed_all_in_turn(v, before, insert_command_changes(stored_command(ec), vars));
        let w0 = changed_all(v, before)->0;
        adding_new_commands(v, new, n - 1, w0);
        adding_a_command(w0, stored_command(ec), vars, w);
        assert forall|id: Seq<char>| #[trigger] v.commands.contains_key(id) implies command_is_kept(
            v,
            w,
            id,
        ) by {
            assert(command_is_kept(v, w0, id));
        }
        assert forall|k: int| 0 <= k < n implies command_is_added(w, #[trigger] new[k])
            && !v.commands.contains_key(new[k].id) by {
            if k < n - 1 {
                assert(command_is_added(w0, new[k]));
            } else if v.commands.contains_key(ec.id) {
                assert(command_is_kept(v, w0, ec.id));
            }
        }
        assert forall|id: Seq<char>| #[trigger] w.commands.contains_key(id) implies (
        v.commands.contains_key(id) || exists|k: int|
            0 <= k < n && (#[trigger] new[k]).id == id) by {
            if id == ec.id {
                assert(new[n - 1].id == id);
            } else {
                assert(w0.commands.contains_key(id));
            }
        }
    }
}

/// What replacing local commands does.
pub(crate) proof fn replacing_local_commands(
    v: VaultView,
    conflicts: Seq<(CommandView, ExportedCommandView)>,
    picks: Seq<bool>,
    n: int,
    w: VaultView,
)
    requires
        0 <= n <= conflicts.len(),
        changed_all(v, replaced_command_changes(conflicts, picks, n)) == Some(w),
    ensures
        w.envs == v.envs,
        forall|id: Seq<char>| #[trigger]
            v.commands.contains_key(id) && !command_is_replaced(conflicts, picks, n, id)
                ==> command_is_kept(v, w, id),
        forall|k: int|
            0 <= k < n && picks[k] && !command_is_replaced_after(
                conflicts,
                picks,
                k,
                n,
                conflicts[k].1.id,
            ) ==> command_is_added(w, (#[trigger] conflicts[k]).1),
        forall|id: Seq<char>| #[trigger]
            w.commands.contains_key(id) ==> (v.commands.contains_key(id) && !command_is_replaced(
                conflicts,
                picks,
                n,
                id,
            )) || exists|k: int|
                0 <= k < n && picks[k] && (#[trigger] conflicts[k]).1.id == id && command_is_added(
                    w,
                    conflicts[k].1,
                ),
    decreases n,
{
    if n <= 0 {
    } else if !picks[n - 1] {
        replacing_local_commands(v, conflicts, picks, n - 1, w);
        assert forall|id: Seq<char>| #[trigger]
            v.commands.contains_key(id) && !command_is_replaced(
                conflicts,
                picks,
                n,
                id,
            ) implies command_is_kept(v, w, id) by {
            assert(!command_is_replaced(conflicts, picks, n - 1, id));
        }
        assert forall|k: int|
            0 <= k < n && picks[k] && !command_is_replaced_after(
                conflicts,
                picks,
                k,
                n,
                conflicts[k].1.id,
            ) implies command_is_added(w, (#[trigger] conflicts[k]).1) by {
            assert(!command_is_replaced_after(conflicts, picks, k, n - 1, conflicts[k].1.id));
        }
    } else {
        let (local, ec) = conflicts[n - 1];
        let vars = template_variables(ec.template)->Ok_0;
        let before = replaced_command_changes(conflicts, picks, n - 1);
        let deletion = ChangeView::DeleteCommand(local.id);
        changed_all_in_turn(
            v,
            before.push(deletion),
            insert_command_changes(stored_command(ec), vars),
        );
        assert(before.push(deletion).drop_last() =~= before);
        let w0 = changed_all(v, before)->0;
        let w1 = changed(w0, deletion)->0;
        replacing_local_commands(v, conflicts, picks, n - 1, w0);
        adding_a_command(w1, stored_command(ec), vars, w);
        assert forall|id: Seq<char>| #[trigger]
            v.commands.contains_key(id) && !command_is_replaced(
                conflicts,
                picks,
                n,
                id,
            ) implies command_is_kept(v, w, id) by {
            assert(conflicts[n - 1].0.id != id);
            assert(!command_is_replaced(conflicts, picks, n - 1, id));
            assert(command_is_kept(v, w0, id));
            assert(w1.variables_of(id) == w0.variables_of(id));
        }
        assert forall|k: int|
            0 <= k < n && picks[k] && !command_is_replaced_after(
                conflicts,
                picks,
                k,
                n,
                conflicts[k].1.id,
            ) implies command_is_added(w, (#[trigger] conflicts[k]).1) by {
            if k < n - 1 {
                assert(conflicts[n - 1].0.id != conflicts[k].1.id);
                assert(!command_is_replaced_after(conflicts, picks, k, n - 1, conflicts[k].1.id));
                assert(command_is_added(w0, conflicts[k].1));
                assert(w1.variables_of(conflicts[k].1.id) == w0.variables_of(conflicts[k].1.id));
            }
        }
        assert forall|id: Seq<char>| #[trigger] w.commands.contains_key(id) implies (
        v.commands.contains_key(id) && !command_is_replaced(conflicts, picks, n, id)) || exists|
            k: int,
        |
            0 <= k < n && picks[k] && (#[trigger] conflicts[k]).1.id == id && command_is_added(
                w,
                conflicts[k].1,
            ) by {
            if id == ec.id {
                assert(conflicts[n - 1].1.id == id && command_is_added(w, conflicts[n - 1].1));
            } else {
                assert(w0.commands.contains_key(id) && id != local.id);
                assert(w1.variables_of(id) == w0.variables_of(id));
                if !(v.commands.contains_key(id) && !command_is_replaced(
                    conflicts,
                    picks,
                    n - 1,
                    id,
                )) {
                    let k = choose|k: int|
                        0 <= k < n - 1 && picks[k] && (#[trigger] conflicts[k]).1.id == id
                            && command_is_added(w0, conflicts[k].1);
                    assert(command_is_added(w, conflicts[k].1));
                }
            }
        }
    }
}

/// What adding the new envs does.
pub(crate) proof fn adding_new_envs(
    v: VaultView,
    changes: Seq<ChangeView>,
    new: Seq<ExportedEnvView>,
    key: Option<Seq<u8>>,
    w: VaultView,
)
    requires
        are_env_inserts(changes, new, key),
        changed_all(v, changes) == Some(w),
    ensures
        w.commands == v.commands,
        w.variables == v.variables,
        forall|id: Seq<char>| #[trigger]
            v.envs.contains_key(id) ==> w.envs.contains_key(id) && w.envs[id] == v.envs[id],
        forall|k: int|
            0 <= k < new.len() ==> env_is_added(w, #[trigger] new[k], key) && !v.envs.contains_key(
                new[k].id,
            ),
        forall|id: Seq<char>| #[trigger]
            w.envs.contains_key(id) ==> v.envs.contains_key(id) || exists|k: int|
                0 <= k < new.len() && (#[trigger] new[k]).id == id,
    decreases new.len(),
{
    if new.len() > 0 {
        let n = new.len() as int;
        let before = changes.drop_last();
        let earlier = new.drop_last();
        let w0 = changed_all(v, before)->0;
        assert(changes[n - 1] is InsertEnv);
        assert forall|i: int| 0 <= i < earlier.len() implies (
        #[trigger] before[i] matches ChangeView::InsertEnv(env) && is_built_env(
            env,
            earlier[i],
            key,
        )) by {
            assert(before[i] == changes[i]);
        }
        adding_new_envs(v, before, earlier, key, w0);
        let env = changes.last()->InsertEnv_0;
        assert(is_built_env(env, new[n - 1], key));
        assert forall|k: int| 0 <= k < new.len() implies env_is_added(w, #[trigger] new[k], key)
            && !v.envs.contains_key(new[k].id) by {
            if k < n - 1 {
                assert(earlier[k] == new[k]);
                assert(env_is_added(w0, earlier[k], key));
            }
        }
        assert forall|id: Seq<char>| #[trigger] w.envs.contains_key(id) implies v.envs.contains_key(
            id,
        ) || exists|k: int| 0 <= k < new.len() && (#[trigger] new[k]).id == id by {
            if id == env.id {
                assert(new[n - 1].id == id);
            } else {
                assert(w0.envs.contains_key(id));
                if !v.envs.contains_key(id) {
                    let k = choose|k: int|
                        0 <= k < earlier.len() && (#[trigger] earlier[k]).id == id;
                    assert(new[k].id == id);
                }
            }
        }
    }
}

/// What replacing local envs does.
pub(crate) proof fn replacing_local_envs(
    v: VaultView,
    changes: Seq<ChangeView>,
    conflicts: Seq<EnvConflictView>,
    picks: Seq<bool>,
    key: Option<Seq<u8>>,
    n: int,
    w: VaultView,
)
    requires
        0 <= n <= conflicts.len(),
        are_env_replacements(changes, conflicts, picks, key, n),
        changed_all(v, changes) == Some(w),
    ensures
        w.commands == v.commands,
        w.variables == v.variables,
        forall|id: Seq<char>| #[trigger]
            v.envs.contains_key(id) && !env_is_replaced(conflicts, picks, n, id)
                ==> w.envs.contains_key(id) && w.envs[id] == v.envs[id],
        forall|k: int|
            0 <= k < n && picks[k] && !env_is_replaced_after(
                conflicts,
                picks,
                k,
                n,
                conflicts[k].incoming.id,
            ) ==> env_is_added(w, (#[trigger] conflicts[k]).incoming, key),
        forall|id: Seq<char>| #[trigger]
            w.envs.contains_key(id) ==> (v.envs.contains_key(id) && !env_is_replaced(
                conflicts,
                picks,
                n,
                id,
            )) || exists|k: int|
                0 <= k < n && picks[k] && (#[trigger] conflicts[k]).incoming.id == id
                    && env_is_added(w, conflicts[k].incoming, key),
    decreases n,
{
    if n <= 0 {
    } else if !picks[n - 1] {
        replacing_local_envs(v, changes, conflicts, picks, key, n - 1, w);
        assert forall|id: Seq<char>| #[trigger]
            v.envs.contains_key(id) && !env_is_replaced(
                conflicts,
                picks,
                n,
                id,
            ) implies w.envs.contains_key(id) && w.envs[id] == v.envs[id] by {
            assert(!env_is_replaced(conflicts, picks, n - 1, id));
        }
        assert forall|k: int|
            0 <= k < n && picks[k] && !env_is_replaced_after(
                conflicts,
                picks,
                k,
                n,
                conflicts[k].incoming.id,
            ) implies env_is_added(w, (#[trigger] conflicts[k]).incoming, key) by {
            assert(!env_is_replaced_after(conflicts, picks, k, n - 1, conflicts[k].incoming.id));
        }
    } else {
        let local = conflicts[n - 1].local;
        let ee = conflicts[n - 1].incoming;
        let m = changes.len() - 2;
        let before = changes.take(m);
        let deletion = changes[m];
        let env = changes.last()->InsertEnv_0;
        let w0 = changed_all(v, before)->0;
        let w1 = changed(w0, deletion)->0;
        assert(changes.drop_last().drop_last() =~= before);
        assert(changes.drop_last().last() == deletion);
        assert(changed_all(v, changes.drop_last()) == changed(w0, deletion));
        replacing_local_envs(v, before, conflicts, picks, key, n - 1, w0);
        assert(is_built_env(env, ee, key));
        assert forall|id: Seq<char>| #[trigger]
            v.envs.contains_key(id) && !env_is_replaced(
                conflicts,
                picks,
                n,
                id,
            ) implies w.envs.contains_key(id) && w.envs[id] == v.envs[id] by {
            assert(conflicts[n - 1].local.id != id);
            assert(!env_is_replaced(conflicts, picks, n - 1, id));
            assert(w0.envs.contains_key(id));
        }
        assert forall|k: int|
            0 <= k < n && picks[k] && !env_is_replaced_after(
                conflicts,
                picks,
                k,
                n,
                conflicts[k].incoming.id,
            ) implies env_is_added(w, (#[trigger] conflicts[k]).incoming, key) by {
            if k < n - 1 {
                assert(conflicts[n - 1].local.id != conflicts[k].incoming.id);
                assert(!env_is_replaced_after(
                    conflicts,
                    picks,
                    k,
                    n - 1,
                    conflicts[k].incoming.id,
                ));
                assert(env_is_added(w0, conflicts[k].incoming, key));
            }
        }
        assert forall|id: Seq<char>| #[trigger] w.envs.contains_key(id) implies (
        v.envs.contains_key(id) && !env_is_replaced(conflicts, picks, n, id)) || exists|k: int|
            0 <= k < n && picks[k] && (#[trigger] conflicts[k]).incoming.id == id && env_is_added(
                w,
                conflicts[k].incoming,
                key,
            ) by {
            if id == ee.id {
                assert(conflicts[n - 1].incoming.id == id && env_is_added(
                    w,
                    conflicts[n - 1].incoming,
                    key,
                ));
            } else {
                assert(w0.envs.contains_key(id) && id != local.id);
                if !(v.envs.contains_key(id) && !env_is_replaced(conflicts, picks, n - 1, id)) {
                    let k = choose|k: int|
                        0 <= k < n - 1 && picks[k] && (#[trigger] conflicts[k]).incoming.id == id
                            && env_is_added(w0, conflicts[k].incoming, key);
                    assert(env_is_added(w, conflicts[k].incoming, key));
                }
            }
        }
    }
}

/// An import that goes through keeps every local command that was not replaced
/// as it was, with its variables.
pub proof fn import_keeps_local_commands(
    v: VaultView,
    plan: ImportPlan,
    commands: CommandDiff,
    envs: EnvDiff,
    picks: Resolutions,
    key: Option<Seq<u8>>,
    w: VaultView,
    id: Seq<char>,
)
    requires
        is_import_plan(plan, commands, envs, picks, key),
        picks.commands@.len() == commands.conflicts@.len(),
        picks.envs@.len() == envs.conflicts@.len(),
        changed_all(v, views(plan.changes@)) == Some(w),
        v.commands.contains_key(id),
        !command_is_replaced(
            views(commands.conflicts@),
            picks.commands@,
            picks.commands@.len() as int,
            id,
        ),
    ensures
        command_is_kept(v, w, id),
{
    let (w1, w2, w3) = import_in_steps(v, plan, commands, envs, picks, key, w);
    let conflicts = views(commands.conflicts@);
    let n = picks.commands@.len() as int;
    adding_new_commands(
        v,
        views(commands.new_commands@),
        commands.new_commands@.len() as int,
        w1,
    );
    replacing_local_commands(w1, conflicts, picks.commands@, n, w2);
    assert(command_is_kept(v, w1, id));
    assert(command_is_kept(w1, w2, id));
}

/// An import that goes through keeps every local env that was not replaced as
/// it was.
pub proof fn import_keeps_local_envs(
    v: VaultView,
    plan: ImportPlan,
    commands: CommandDiff,
    envs: EnvDiff,
    picks: Resolutions,
    key: Option<Seq<u8>>,
    w: VaultView,
    id: Seq<char>,
)
    requires
        is_import_plan(plan, commands, envs, picks, key),
        picks.commands@.len() == commands.conflicts@.len(),
        picks.envs@.len() == envs.conflicts@.len(),
        changed_all(v, views(plan.changes@)) == Some(w),
        v.envs.contains_key(id),
        !env_is_replaced(views(envs.conflicts@), picks.envs@, picks.envs@.len() as int, id),
    ensures
        w.envs.contains_key(id),
        w.envs[id] == v.envs[id],
{
    let (w1, w2, w3) = import_in_steps(v, plan, commands, envs, picks, key, w);
    assert(w3.envs.contains_key(id));
}

/// An import that goes through stores every new command, and every command
/// that was to replace a local one, with the variables of its template.
///
/// If the file holds a template twice, both copies conflict with one local
/// command. A copy that carries the local command's own id is then deleted
/// again when the next copy takes the local command's place.
pub proof fn import_stores_what_was_chosen(
    v: VaultView,
    plan: ImportPlan,
    commands: CommandDiff,
    envs: EnvDiff,
    picks: Resolutions,
    key: Option<Seq<u8>>,
    w: VaultView,
)
    requires
        is_import_plan(plan, commands, envs, picks, key),
        picks.commands@.len() == commands.conflicts@.len(),
        picks.envs@.len() == envs.conflicts@.len(),
        changed_all(v, views(plan.changes@)) == Some(w),
        forall|i: int|
            0 <= i < commands.conflicts@.len() ==> v.commands.contains_key(
                (#[trigger] views(commands.conflicts@)[i]).0.id,
            ),
        forall|i: int|
            0 <= i < envs.conflicts@.len() ==> v.envs.contains_key(
                (#[trigger] views(envs.conflicts@)[i]).local.id,
            ),
    ensures
        forall|k: int|
            0 <= k < commands.new_commands@.len() ==> command_is_added(
                w,
                #[trigger] views(commands.new_commands@)[k],
            ),
        forall|k: int|
            0 <= k < commands.conflicts@.len() && picks.commands@[k] && !command_is_replaced_after(
                views(commands.conflicts@),
                picks.commands@,
                k,
                picks.commands@.len() as int,
                views(commands.conflicts@)[k].1.id,
            ) ==> command_is_added(w, (#[trigger] views(commands.conflicts@)[k]).1),
        forall|k: int|
            0 <= k < envs.new_envs@.len() ==> env_is_added(
                w,
                #[trigger] views(envs.new_envs@)[k],
                key,
            ),
        forall|k: int|
            0 <= k < envs.conflicts@.len() && picks.envs@[k] && !env_is_replaced_after(
                views(envs.conflicts@),
                picks.envs@,
                k,
                picks.envs@.len() as int,
                views(envs.conflicts@)[k].incoming.id,
            ) ==> env_is_added(w, (#[trigger] views(envs.conflicts@)[k]).incoming, key),
{
    let (w1, w2, w3) = import_in_steps(v, plan, commands, envs, picks, key, w);
    let new = views(commands.new_commands@);
    let conflicts = views(commands.conflicts@);
    let n = picks.commands@.len() as int;
    adding_new_commands(v, new, new.len() as int, w1);
    replacing_local_commands(w1, conflicts, picks.commands@, n, w2);
    assert forall|k: int| 0 <= k < new.len() implies command_is_added(w, #[trigger] new[k]) by {
        assert(command_is_added(w1, new[k]) && !v.commands.contains_key(new[k].id));
        assert forall|i: int| 0 <= i < n && picks.commands@[i] implies (
        #[trigger] conflicts[i]).0.id != new[k].id by {
            assert(v.commands.contains_key(conflicts[i].0.id));
        }
        assert(!command_is_replaced(conflicts, picks.commands@, n, new[k].id));
        assert(w1.commands.contains_key(new[k].id));
        assert(command_is_kept(w1, w2, new[k].id));
    }
    assert forall|k: int|
        0 <= k < n && picks.commands@[k] && !command_is_replaced_after(
            conflicts,
            picks.commands@,
            k,
            n,
            conflicts[k].1.id,
        ) implies command_is_added(w, (#[trigger] conflicts[k]).1) by {
        assert(command_is_added(w2, conflicts[k].1));
    }
    let new_envs = views(envs.new_envs@);
    let env_conflicts = views(envs.conflicts@);
    let m = picks.envs@.len() as int;
    assert forall|k: int| 0 <= k < new_envs.len() implies env_is_added(
        w,
        #[trigger] new_envs[k],
        key,
    ) by {
        assert(env_is_added(w3, new_envs[k], key) && !v.envs.contains_key(new_envs[k].id));
        assert forall|i: int| 0 <= i < m && picks.envs@[i] implies (
        #[trigger] env_conflicts[i]).local.id != new_envs[k].id by {
            assert(v.envs.contains_key(env_conflicts[i].local.id));
        }
        assert(!env_is_replaced(env_conflicts, picks.envs@, m, new_envs[k].id));
        assert(w3.envs.contains_key(new_envs[k].id));
    }
}

/// An import that goes through leaves nothing behind but what was here and not
/// replaced, and what was chosen from the file.
pub proof fn import_stores_nothing_else(
    v: VaultView,
    plan: ImportPlan,
    commands: CommandDiff,
    envs: EnvDiff,
    picks: Resolutions,
    key: Option<Seq<u8>>,
    w: VaultView,
)
    requires
        is_import_plan(plan, commands, envs, picks, key),
        picks.commands@.len() == commands.conflicts@.len(),
        picks.envs@.len() == envs.conflicts@.len(),
        changed_all(v, views(plan.changes@)) == Some(w),
    ensures
        forall|id: Seq<char>| #[trigger]
            w.commands.contains_key(id) ==> {
                ||| v.commands.contains_key(id) && !command_is_replaced(
                    views(commands.conflicts@),
                    picks.commands@,
                    picks.commands@.len() as int,
                    id,
                )
                ||| exists|k: int|
                    0 <= k < commands.new_commands@.len() && (
                    #[trigger] views(commands.new_commands@)[k]).id == id
                ||| exists|k: int|
                    0 <= k < commands.conflicts@.len() && picks.commands@[k] && (
                    #[trigger] views(commands.conflicts@)[k]).1.id == id
            },
        forall|id: Seq<char>| #[trigger]
            w.envs.contains_key(id) ==> {
                ||| v.envs.contains_key(id) && !env_is_replaced(
                    views(envs.conflicts@),
                    picks.envs@,
                    picks.envs@.len() as int,
                    id,
                )
                ||| exists|k: int|
                    0 <= k < envs.new_envs@.len() && (#[trigger] views(envs.new_envs@)[k]).id == id
                ||| exists|k: int|
                    0 <= k < envs.conflicts@.len() && picks.envs@[k] && (
                    #[trigger] views(envs.conflicts@)[k]).incoming.id == id
            },
{
    let (w1, w2, w3) = import_in_steps(v, plan, commands, envs, picks, key, w);
    let new = views(commands.new_commands@);
    let conflicts = views(commands.conflicts@);
    let n = picks.commands@.len() as int;
    adding_new_commands(v, new, new.len() as int, w1);
    replacing_local_commands(w1, conflicts, picks.commands@, n, w2);
    assert forall|id: Seq<char>| #[trigger] w.commands.contains_key(id) implies {
        ||| v.commands.contains_key(id) && !command_is_replaced(conflicts, picks.commands@, n, id)
        ||| exists|k: int| 0 <= k < new.len() && (#[trigger] new[k]).id == id
        ||| exists|k: int|
            0 <= k < n && picks.commands@[k] && (#[trigger] conflicts[k]).1.id == id
    } by {
        assert(w2.commands.contains_key(id));
        if !(w1.commands.contains_key(id) && !command_is_replaced(
            conflicts,
            picks.commands@,
            n,
            id,
        )) {
            let k = choose|k: int|
                0 <= k < n && picks.commands@[k] && (#[trigger] conflicts[k]).1.id == id
                    && command_is_added(w2, conflicts[k].1);
            assert(conflicts[k].1.id == id);
        }
    }
    assert forall|id: Seq<char>| #[trigger] w.envs.contains_key(id) implies {
        ||| v.envs.contains_key(id) && !env_is_replaced(
            views(envs.conflicts@),
            picks.envs@,
            picks.envs@.len() as int,
            id,
        )
        ||| exists|k: int|
            0 <= k < envs.new_envs@.len() && (#[trigger] views(envs.new_envs@)[k]).id == id
        ||| exists|k: int|
            0 <= k < envs.conflicts@.len() && picks.envs@[k] && (
            #[trigger] views(envs.conflicts@)[k]).incoming.id == id
    } by {
        if !(w3.envs.contains_key(id) && !env_is_replaced(
            views(envs.conflicts@),
            picks.envs@,
            picks.envs@.len() as int,
            id,
        )) {
            let k = choose|k: int|
                0 <= k < picks.envs@.len() && picks.envs@[k] && (
                #[trigger] views(envs.conflicts@)[k]).incoming.id == id && env_is_added(
                    w,
                    views(envs.conflicts@)[k].incoming,
                    key,
                );
            assert(views(envs.conflicts@)[k].incoming.id == id);
        }
    }
}

/// The vault after the new commands, after the replaced commands and after the
/// new envs of an import.
proof fn import_in_steps(
    v: VaultView,
    plan: ImportPlan,
    commands: CommandDiff,
    envs: EnvDiff,
    picks: Resolutions,
    key: Option<Seq<u8>>,
    w: VaultView,
) -> (r: (VaultView, VaultView, VaultView))
    requires
        is_import_plan(plan, commands, envs, picks, key),
        picks.commands@.len() == commands.conflicts@.len(),
        picks.envs@.len() == envs.conflicts@.len(),
        changed_all(v, views(plan.changes@)) == Some(w),
    ensures
        changed_all(
            v,
            new_command_changes(
                views(commands.new_commands@),
                commands.new_commands@.len() as int,
            ),
        ) == Some(r.0),
        changed_all(
            r.0,
            replaced_command_changes(
                views(commands.conflicts@),
                picks.commands@,
                picks.commands@.len() as int,
            ),
        ) == Some(r.1),
        r.0.envs == v.envs,
        r.1.envs == v.envs,
        w.commands == r.1.commands,
        w.variables == r.1.variables,
        forall|id: Seq<char>| #[trigger]
            v.envs.contains_key(id) ==> r.2.envs.contains_key(id) && r.2.envs[id] == v.envs[id],
        forall|k: int|
            0 <= k < envs.new_envs@.len() ==> env_is_added(
                r.2,
                #[trigger] views(envs.new_envs@)[k],
                key,
            ) && !v.envs.contains_key(views(envs.new_envs@)[k].id),
        forall|id: Seq<char>| #[trigger]
            r.2.envs.contains_key(id) ==> v.envs.contains_key(id) || exists|k: int|
                0 <= k < envs.new_envs@.len() && (#[trigger] views(envs.new_envs@)[k]).id == id,
        forall|id: Seq<char>| #[trigger]
            r.2.envs.contains_key(id) && !env_is_replaced(
                views(envs.conflicts@),
                picks.envs@,
                picks.envs@.len() as int,
                id,
            ) ==> w.envs.contains_key(id) && w.envs[id] == r.2.envs[id],
        forall|k: int|
            0 <= k < envs.conflicts@.len() && picks.envs@[k] && !env_is_replaced_after(
                views(envs.conflicts@),
                picks.envs@,
                k,
                picks.envs@.len() as int,
                views(envs.conflicts@)[k].incoming.id,
            ) ==> env_is_added(w, (#[trigger] views(envs.conflicts@)[k]).incoming, key),
        forall|id: Seq<char>| #[trigger]
            w.envs.contains_key(id) ==> (r.2.envs.contains_key(id) && !env_is_replaced(
                views(envs.conflicts@),
                picks.envs@,
                picks.envs@.len() as int,
                id,
            )) || exists|k: int|
                0 <= k < picks.envs@.len() && picks.envs@[k] && (
                #[trigger] views(envs.conflicts@)[k]).incoming.id == id && env_is_added(
                    w,
                    views(envs.conflicts@)[k].incoming,
                    key,
                ),
{
    let all = views(plan.changes@);
    let new = views(commands.new_commands@);
    let conflicts = views(commands.conflicts@);
    let added = new_command_changes(new, new.len() as int);
    let replaced = replaced_command_changes(
        conflicts,
        picks.commands@,
        picks.commands@.len() as int,
    );
    let for_commands = command_changes(new, conflicts, picks.commands@);
    let for_envs = all.skip(for_commands.len() as int);
    let split = envs.new_envs@.len() as int;
    assert(all =~= for_commands + for_envs);
    assert(for_envs =~= for_envs.take(split) + for_envs.skip(split));
    changed_all_in_turn(v, for_commands, for_envs);
    changed_all_in_turn(v, added, replaced);
    let w1 = changed_all(v, added)->0;
    let w2 = changed_all(v, for_commands)->0;
    changed_all_in_turn(w2, for_envs.take(split), for_envs.skip(split));
    let w3 = changed_all(w2, for_envs.take(split))->0;
    adding_new_commands(v, new, new.len() as int, w1);
    replacing_local_commands(w1, conflicts, picks.commands@, picks.commands@.len() as int, w2);
    adding_new_envs(w2, for_envs.take(split), views(envs.new_envs@), key, w3);
    replacing_local_envs(
        w3,
        for_envs.skip(split),
        views(envs.conflicts@),
        picks.envs@,
        key,
        picks.envs@.len() as int,
        w,
    );
    (w1, w2, w3)
}

} // verus!
