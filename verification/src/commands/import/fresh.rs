//! When an import goes through.

use vstd::prelude::*;

#[allow(unused_imports)]
use crate::commands::import::conflicts::Resolutions;
#[allow(unused_imports)]
use crate::commands::import::diff::{CommandDiff, EnvConflictView, EnvDiff};
#[allow(unused_imports)]
use crate::commands::import::laws::{
    adding_new_commands, adding_new_envs, command_is_replaced, env_is_added, env_is_replaced,
    replacing_local_commands, replacing_local_envs,
};
#[allow(unused_imports)]
use crate::commands::import::plan::{
    added_commands, are_env_inserts, are_env_replacements, command_changes, is_built_env,
    is_import_plan, new_command_changes, replaced_command_changes, replacing_commands,
    stored_command, templates_parse, ImportPlan,
};
#[allow(unused_imports)]
use crate::db::commands_repo::{insert_command_changes, inserted_command_is_stored};
#[allow(unused_imports)]
use crate::db::vault::{
    changed, changed_all, changed_all_in_turn, changes_keep_vaults_well_formed, ChangeView,
    VaultView,
};
#[allow(unused_imports)]
use crate::models::CommandView;
#[allow(unused_imports)]
use crate::placeholder::{parsed_variables_are_those_that_occur, template_variables};
#[allow(unused_imports)]
use crate::transfer::{ExportedCommandView, ExportedEnvView};
#[allow(unused_imports)]
use crate::views::views;

verus! {

/// The ids of the incoming commands are all different, and none of them is
/// taken, unless by the very command that it replaces.
pub open spec fn command_ids_are_free(
    v: VaultView,
    new: Seq<ExportedCommandView>,
    conflicts: Seq<(CommandView, ExportedCommandView)>,
    picks: Seq<bool>,
) -> bool {
    &&& forall|k: int| 0 <= k < new.len() ==> !v.commands.contains_key((#[trigger] new[k]).id)
    &&& forall|k: int, l: int|
        0 <= k < l < new.len() ==> (#[trigger] new[k]).id != (#[trigger] new[l]).id
    &&& forall|k: int|
        0 <= k < conflicts.len() && picks[k] && v.commands.contains_key(
            (#[trigger] conflicts[k]).1.id,
        ) ==> conflicts[k].1.id == conflicts[k].0.id
    &&& forall|k: int, l: int|
        0 <= k < l < conflicts.len() && picks[k] && picks[l] ==> (#[trigger] conflicts[k]).1.id != (
        #[trigger] conflicts[l]).1.id
    &&& forall|k: int, l: int|
        0 <= k < new.len() && 0 <= l < conflicts.len() && picks[l] ==> (#[trigger] new[k]).id != (
        #[trigger] conflicts[l]).1.id
}

/// The ids and the names of the incoming envs are all different. No id is
/// taken, unless by the very env that it replaces, and no name but by the env
/// that is replaced for it.
pub open spec fn envs_are_free(
    v: VaultView,
    new: Seq<ExportedEnvView>,
    conflicts: Seq<EnvConflictView>,
    picks: Seq<bool>,
) -> bool {
    &&& forall|k: int|
        0 <= k < new.len() ==> !v.envs.contains_key((#[trigger] new[k]).id) && !v.has_env_named(
            new[k].name,
        )
    &&& forall|k: int, l: int|
        0 <= k < l < new.len() ==> (#[trigger] new[k]).id != (#[trigger] new[l]).id && new[k].name
            != new[l].name
    &&& forall|k: int|
        0 <= k < conflicts.len() && picks[k] ==> {
            &&& v.envs.contains_key((#[trigger] conflicts[k]).local.id)
            &&& v.envs[conflicts[k].local.id].name == conflicts[k].incoming.name
            &&& v.envs.contains_key(conflicts[k].incoming.id) ==> conflicts[k].incoming.id
                == conflicts[k].local.id
        }
    &&& forall|k: int, l: int|
        0 <= k < l < conflicts.len() && picks[k] && picks[l] ==> (
        #[trigger] conflicts[k]).local.id != (#[trigger] conflicts[l]).local.id
            && conflicts[k].incoming.id != conflicts[l].incoming.id
    &&& forall|k: int, l: int|
        0 <= k < new.len() && 0 <= l < conflicts.len() && picks[l] ==> (#[trigger] new[k]).id != (
        #[trigger] conflicts[l]).incoming.id
}

/// A command whose template parses can be added under a free id.
proof fn command_can_be_added(v: VaultView, ec: ExportedCommandView)
    requires
        v.well_formed(),
        !v.commands.contains_key(ec.id),
        template_variables(ec.template) is Ok,
    ensures
        changed_all(
            v,
            insert_command_changes(stored_command(ec), template_variables(ec.template)->Ok_0),
        ) is Some,
{
    parsed_variables_are_those_that_occur(ec.template);
    inserted_command_is_stored(v, stored_command(ec), template_variables(ec.template)->Ok_0);
}

proof fn new_commands_can_be_added(v: VaultView, new: Seq<ExportedCommandView>, n: int)
    requires
        v.well_formed(),
        0 <= n <= new.len(),
        templates_parse(new, new.len() as int),
        forall|k: int| 0 <= k < new.len() ==> !v.commands.contains_key((#[trigger] new[k]).id),
        forall|k: int, l: int|
            0 <= k < l < new.len() ==> (#[trigger] new[k]).id != (#[trigger] new[l]).id,
    ensures
        changed_all(v, new_command_changes(new, n)) is Some,
    decreases n,
{
    if n > 0 {
        let ec = new[n - 1];
        let before = new_command_changes(new, n - 1);
        new_commands_can_be_added(v, new, n - 1);
        let w = changed_all(v, before)->0;
        adding_new_commands(v, new, n - 1, w);
        changes_keep_vaults_well_formed(v, before);
        if w.commands.contains_key(ec.id) {
            assert(!v.commands.contains_key(ec.id));
            let k = choose|k: int| 0 <= k < n - 1 && (#[trigger] new[k]).id == ec.id;
            assert(new[k].id != new[n - 1].id);
        }
        assert(template_variables(new[n - 1].template) is Ok);
        command_can_be_added(w, ec);
        changed_all_in_turn(
            v,
            before,
            insert_command_changes(stored_command(ec), template_variables(ec.template)->Ok_0),
        );
    }
}

proof fn local_commands_can_be_replaced(
    v: VaultView,
    conflicts: Seq<(CommandView, ExportedCommandView)>,
    picks: Seq<bool>,
    n: int,
)
    requires
        v.well_formed(),
        0 <= n <= conflicts.len(),
        forall|k: int|
            0 <= k < n && picks[k] ==> template_variables(
                (#[trigger] conflicts[k]).1.template,
            ) is Ok,
        forall|k: int|
            0 <= k < conflicts.len() && picks[k] && v.commands.contains_key(
                (#[trigger] conflicts[k]).1.id,
            ) ==> conflicts[k].1.id == conflicts[k].0.id,
        forall|k: int, l: int|
            0 <= k < l < conflicts.len() && picks[k] && picks[l] ==> (#[trigger] conflicts[k]).1.id
                != (#[trigger] conflicts[l]).1.id,
    ensures
        changed_all(v, replaced_command_changes(conflicts, picks, n)) is Some,
    decreases n,
{
    if n > 0 {
        local_commands_can_be_replaced(v, conflicts, picks, n - 1);
        if picks[n - 1] {
            let (local, ec) = conflicts[n - 1];
            let deletion = ChangeView::DeleteCommand(local.id);
            let before = replaced_command_changes(conflicts, picks, n - 1);
            let w0 = changed_all(v, before)->0;
            replacing_local_commands(v, conflicts, picks, n - 1, w0);
            assert(before.push(deletion).drop_last() =~= before);
            let w1 = changed(w0, deletion)->0;
            assert(changed_all(v, before.push(deletion)) == Some(w1));
            changes_keep_vaults_well_formed(v, before.push(deletion));
            if w1.commands.contains_key(ec.id) {
                assert(w0.commands.contains_key(ec.id));
                if !(v.commands.contains_key(ec.id) && !command_is_replaced(
                    conflicts,
                    picks,
                    n - 1,
                    ec.id,
                )) {
                    let k = choose|k: int|
                        0 <= k < n - 1 && picks[k] && (#[trigger] conflicts[k]).1.id == ec.id;
                    assert(conflicts[k].1.id != conflicts[n - 1].1.id);
                }
                assert(conflicts[n - 1].1.id == conflicts[n - 1].0.id);
            }
            command_can_be_added(w1, ec);
            changed_all_in_turn(
                v,
                before.push(deletion),
                insert_command_changes(stored_command(ec), template_variables(ec.template)->Ok_0),
            );
        }
    }
}

proof fn new_envs_can_be_added(
    v: VaultView,
    changes: Seq<ChangeView>,
    new: Seq<ExportedEnvView>,
    key: Option<Seq<u8>>,
)
    requires
        are_env_inserts(changes, new, key),
        forall|k: int|
            0 <= k < new.len() ==> !v.envs.contains_key((#[trigger] new[k]).id) && !v.has_env_named(
                new[k].name,
            ),
        forall|k: int, l: int|
            0 <= k < l < new.len() ==> (#[trigger] new[k]).id != (#[trigger] new[l]).id
                && new[k].name != new[l].name,
    ensures
        changed_all(v, changes) is Some,
    decreases new.len(),
{
    if new.len() > 0 {
        let n = new.len() as int;
        let before = changes.drop_last();
        let earlier = new.drop_last();
        assert forall|i: int| 0 <= i < earlier.len() implies (
        #[trigger] before[i] matches ChangeView::InsertEnv(env) && is_built_env(
            env,
            earlier[i],
            key,
        )) by {
            assert(before[i] == changes[i]);
        }
        assert forall|k: int| 0 <= k < earlier.len() implies !v.envs.contains_key(
            (#[trigger] earlier[k]).id,
        ) && !v.has_env_named(earlier[k].name) by {
            assert(earlier[k] == new[k]);
        }
        assert forall|k: int, l: int| 0 <= k < l < earlier.len() implies (
        #[trigger] earlier[k]).id != (#[trigger] earlier[l]).id && earlier[k].name
            != earlier[l].name by {
            assert(earlier[k] == new[k] && earlier[l] == new[l]);
        }
        new_envs_can_be_added(v, before, earlier, key);
        let w = changed_all(v, before)->0;
        adding_new_envs(v, before, earlier, key, w);
        assert(changes[n - 1] is InsertEnv);
        let env = changes.last()->InsertEnv_0;
        assert(is_built_env(env, new[n - 1], key));
        if w.envs.contains_key(env.id) {
            assert(!v.envs.contains_key(new[n - 1].id));
            let k = choose|k: int| 0 <= k < earlier.len() && (#[trigger] earlier[k]).id == env.id;
            assert(new[k].id != new[n - 1].id);
        }
        if w.has_env_named(env.name) {
            let id = choose|id: Seq<char>| #[trigger]
                w.envs.contains_key(id) && w.envs[id].name == env.name;
            assert(!v.has_env_named(new[n - 1].name));
            if !v.envs.contains_key(id) {
                let k = choose|k: int| 0 <= k < earlier.len() && (#[trigger] earlier[k]).id == id;
                assert(env_is_added(w, earlier[k], key));
                assert(new[k].name != new[n - 1].name);
            }
        }
    }
}

proof fn local_envs_can_be_replaced(
    v: VaultView,
    changes: Seq<ChangeView>,
    conflicts: Seq<EnvConflictView>,
    picks: Seq<bool>,
    key: Option<Seq<u8>>,
    n: int,
)
    requires
        v.well_formed(),
        0 <= n <= conflicts.len(),
        are_env_replacements(changes, conflicts, picks, key, n),
        forall|k: int|
            0 <= k < conflicts.len() && picks[k] ==> {
                &&& v.envs.contains_key((#[trigger] conflicts[k]).local.id)
                &&& v.envs[conflicts[k].local.id].name == conflicts[k].incoming.name
                &&& v.envs.contains_key(conflicts[k].incoming.id) ==> conflicts[k].incoming.id
                    == conflicts[k].local.id
            },
        forall|k: int, l: int|
            0 <= k < l < conflicts.len() && picks[k] && picks[l] ==> (
            #[trigger] conflicts[k]).local.id != (#[trigger] conflicts[l]).local.id
                && conflicts[k].incoming.id != conflicts[l].incoming.id,
    ensures
        changed_all(v, changes) is Some,
    decreases n,
{
    if n <= 0 {
    } else if !picks[n - 1] {
        local_envs_can_be_replaced(v, changes, conflicts, picks, key, n - 1);
    } else {
        let local = conflicts[n - 1].local;
        let ee = conflicts[n - 1].incoming;
        let m = changes.len() - 2;
        let before = changes.take(m);
        let deletion = changes[m];
        let env = changes.last()->InsertEnv_0;
        local_envs_can_be_replaced(v, before, conflicts, picks, key, n - 1);
        let w0 = changed_all(v, before)->0;
        let w1 = changed(w0, deletion)->0;
        assert(changes.drop_last().drop_last() =~= before);
        assert(changes.drop_last().last() == deletion);
        assert(changed_all(v, changes.drop_last()) == Some(w1));
        replacing_local_envs(v, before, conflicts, picks, key, n - 1, w0);
        assert(is_built_env(env, ee, key));
        assert(v.envs.contains_key(conflicts[n - 1].local.id));
        if w1.envs.contains_key(env.id) {
            assert(w0.envs.contains_key(ee.id) && ee.id != local.id);
            let k = choose|k: int|
                0 <= k < n - 1 && picks[k] && (#[trigger] conflicts[k]).incoming.id == ee.id;
            assert(conflicts[k].incoming.id != conflicts[n - 1].incoming.id);
        }
        if w1.has_env_named(env.name) {
            let id = choose|id: Seq<char>| #[trigger]
                w1.envs.contains_key(id) && w1.envs[id].name == env.name;
            assert(w0.envs.contains_key(id) && id != local.id);
            if v.envs.contains_key(id) && !env_is_replaced(conflicts, picks, n - 1, id) {
                assert(v.envs[id].name == v.envs[local.id].name);
            } else {
                let k = choose|k: int|
                    0 <= k < n - 1 && picks[k] && (#[trigger] conflicts[k]).incoming.id == id
                        && env_is_added(w0, conflicts[k].incoming, key);
                let other = conflicts[k].local.id;
                assert(v.envs.contains_key(other) && v.envs[other].name == v.envs[local.id].name);
                assert(conflicts[k].local.id != conflicts[n - 1].local.id);
            }
        }
    }
}

/// An incoming command that replaces a local one is among those that an import
/// adds.
proof fn replacing_command_is_added(
    conflicts: Seq<(CommandView, ExportedCommandView)>,
    picks: Seq<bool>,
    n: int,
    k: int,
)
    requires
        0 <= k < n,
        picks[k],
    ensures
        replacing_commands(conflicts, picks, n).contains(conflicts[k].1),
    decreases n,
{
    let all = replacing_commands(conflicts, picks, n);
    let before = replacing_commands(conflicts, picks, n - 1);
    if k == n - 1 {
        assert(all[before.len() as int] == conflicts[k].1);
    } else {
        replacing_command_is_added(conflicts, picks, n - 1, k);
        let i = choose|i: int| 0 <= i < before.len() && before[i] == conflicts[k].1;
        assert(all[i] == conflicts[k].1);
    }
}

/// An import goes through if the ids of what it adds are free, or belong to
/// what they replace, and the file holds no id and no env name twice.
pub proof fn import_goes_through(
    v: VaultView,
    plan: ImportPlan,
    commands: CommandDiff,
    envs: EnvDiff,
    picks: Resolutions,
    key: Option<Seq<u8>>,
)
    requires
        v.well_formed(),
        is_import_plan(plan, commands, envs, picks, key),
        templates_parse(views(plan.pending_defaults@), plan.pending_defaults@.len() as int),
        picks.commands@.len() == commands.conflicts@.len(),
        picks.envs@.len() == envs.conflicts@.len(),
        command_ids_are_free(
            v,
            views(commands.new_commands@),
            views(commands.conflicts@),
            picks.commands@,
        ),
        envs_are_free(v, views(envs.new_envs@), views(envs.conflicts@), picks.envs@),
    ensures
        changed_all(v, views(plan.changes@)) is Some,
{
    let all = views(plan.changes@);
    let new = views(commands.new_commands@);
    let conflicts = views(commands.conflicts@);
    let n = picks.commands@.len() as int;
    let replacing = replacing_commands(conflicts, picks.commands@, n);
    let waiting = new + replacing;
    assert(views(plan.pending_defaults@) == waiting);
    assert forall|k: int| 0 <= k < new.len() implies template_variables(
        (#[trigger] new[k]).template,
    ) is Ok by {
        assert(waiting[k] == new[k]);
    }
    assert forall|k: int| 0 <= k < n && picks.commands@[k] implies template_variables(
        (#[trigger] conflicts[k]).1.template,
    ) is Ok by {
        replacing_command_is_added(conflicts, picks.commands@, n, k);
        let i = choose|i: int| 0 <= i < replacing.len() && replacing[i] == conflicts[k].1;
        assert(waiting[new.len() + i] == conflicts[k].1);
    }
    let added = new_command_changes(new, new.len() as int);
    let replaced = replaced_command_changes(conflicts, picks.commands@, n);
    new_commands_can_be_added(v, new, new.len() as int);
    let w1 = changed_all(v, added)->0;
    adding_new_commands(v, new, new.len() as int, w1);
    changes_keep_vaults_well_formed(v, added);
    assert forall|k: int|
        0 <= k < conflicts.len() && picks.commands@[k] && w1.commands.contains_key(
            (#[trigger] conflicts[k]).1.id,
        ) implies conflicts[k].1.id == conflicts[k].0.id by {
        if !v.commands.contains_key(conflicts[k].1.id) {
            let l = choose|l: int| 0 <= l < new.len() && (#[trigger] new[l]).id == conflicts[k].1.id;
            assert(new[l].id != conflicts[k].1.id);
        }
    }
    local_commands_can_be_replaced(w1, conflicts, picks.commands@, n);
    let w2 = changed_all(w1, replaced)->0;
    replacing_local_commands(w1, conflicts, picks.commands@, n, w2);
    changes_keep_vaults_well_formed(w1, replaced);
    changed_all_in_turn(v, added, replaced);
    assert(w2.envs == v.envs);

    let for_commands = command_changes(new, conflicts, picks.commands@);
    let for_envs = all.skip(for_commands.len() as int);
    let new_envs = views(envs.new_envs@);
    let env_conflicts = views(envs.conflicts@);
    let split = new_envs.len() as int;
    let first = for_envs.take(split);
    let second = for_envs.skip(split);
    new_envs_can_be_added(w2, first, new_envs, key);
    let w3 = changed_all(w2, first)->0;
    adding_new_envs(w2, first, new_envs, key, w3);
    changes_keep_vaults_well_formed(w2, first);
    assert forall|k: int| 0 <= k < env_conflicts.len() && picks.envs@[k] implies {
        &&& w3.envs.contains_key((#[trigger] env_conflicts[k]).local.id)
        &&& w3.envs[env_conflicts[k].local.id].name == env_conflicts[k].incoming.name
        &&& w3.envs.contains_key(env_conflicts[k].incoming.id) ==> env_conflicts[k].incoming.id
            == env_conflicts[k].local.id
    } by {
        assert(v.envs.contains_key(env_conflicts[k].local.id));
        if w3.envs.contains_key(env_conflicts[k].incoming.id) && !v.envs.contains_key(
            env_conflicts[k].incoming.id,
        ) {
            let l = choose|l: int|
                0 <= l < new_envs.len() && (#[trigger] new_envs[l]).id
                    == env_conflicts[k].incoming.id;
            assert(new_envs[l].id != env_conflicts[k].incoming.id);
        }
    }
    local_envs_can_be_replaced(
        w3,
        second,
        env_conflicts,
        picks.envs@,
        key,
        picks.envs@.len() as int,
    );
    assert(for_envs =~= first + second);
    assert(all =~= for_commands + for_envs);
    changed_all_in_turn(w2, first, second);
    changed_all_in_turn(v, for_commands, for_envs);
}

} // verus!
