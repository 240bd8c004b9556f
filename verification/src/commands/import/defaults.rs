//! Linking the default envs that imported commands ask for.

use vstd::prelude::*;

use crate::db::commands_repo::set_default_env;
use crate::db::vault::Change;
#[allow(unused_imports)]
use crate::db::vault::{
    changed, changed_all, setting_a_default_touches_one_variable, ChangeView, VaultView,
};
use crate::models::{StoredCommandVariable, StoredEnv};
#[allow(unused_imports)]
use crate::models::{EnvView, StoredVariableView};
use crate::text::decimal_of;
#[allow(unused_imports)]
use crate::text::decimal;
#[allow(unused_imports)]
use crate::views::{group_views, opt_view, views};

verus! {

broadcast use {vstd::string::group_string_axioms, group_views};

/// A default env that an imported command asks for: the variable, and the
/// local env of the name that goes with it, if there is one.
pub struct WantedDefault {
    pub var_name: String,
    pub env: Option<StoredEnv>,
}

impl View for WantedDefault {
    type V = (Seq<char>, Option<EnvView>);

    open spec fn view(&self) -> (Seq<char>, Option<EnvView>) {
        (self.var_name@, opt_view(self.env))
    }
}

/// Whether an env may fill the variable of that name.
pub open spec fn may_fill(
    vars: Seq<StoredVariableView>,
    var_name: Seq<char>,
    env: EnvView,
) -> bool {
    exists|i: int|
        0 <= i < vars.len() && (#[trigger] vars[i]).var.name == var_name && env.kind.fills()
            == vars[i].var.kind
}

/// The changes that link the first `n` default envs, where a local env of the
/// name exists and may fill the variable.
pub open spec fn link_changes(
    command_id: Seq<char>,
    vars: Seq<StoredVariableView>,
    wanted: Seq<(Seq<char>, Option<EnvView>)>,
    n: int,
) -> Seq<ChangeView>
    decreases n,
{
    if n <= 0 {
        Seq::empty()
    } else {
        let before = link_changes(command_id, vars, wanted, n - 1);
        match wanted[n - 1].1 {
            Some(env) => if may_fill(vars, wanted[n - 1].0, env) {
                before.push(
                    ChangeView::SetDefaultEnv {
                        command_id,
                        var_name: wanted[n - 1].0,
                        default_env_id: Some(env.id),
                    },
                )
            } else {
                before
            },
            None => before,
        }
    }
}

fn can_fill(vars: &[StoredCommandVariable], var_name: &String, env: &StoredEnv) -> (r: bool)
    ensures
        r == may_fill(views(vars@), var_name@, env@),
{
    let mut i: usize = 0;
    while i < vars.len()
        invariant
            i <= vars.len(),
            forall|j: int|
                0 <= j < i ==> !((#[trigger] views(vars@)[j]).var.name == var_name@
                    && env@.kind.fills() == views(vars@)[j].var.kind),
        decreases vars.len() - i,
    {
        if vars[i].var.name == *var_name && env.kind.compatible_with(vars[i].var.kind) {
            assert(views(vars@)[i as int].var.name == var_name@);
            return true;
        }
        i += 1;
    }
    false
}

/// The default envs of one command that were linked, and how many were not.
pub struct LinkedDefaults {
    pub changes: Vec<Change>,
    pub linked: usize,
    pub skipped: usize,
}

/// Applies a command's carried default-env settings (variable name ->
/// default env *name*) against the destination's own envs, linking by
/// name and skipping anything that doesn't resolve to a locally-present,
/// kind-compatible env. Belongs after every command *and* env of an import has
/// been written, since a default might reference an env that arrives later in
/// the same file.
pub fn apply_variable_defaults(
    command_id: &str,
    vars: &[StoredCommandVariable],
    wanted: &[WantedDefault],
) -> (r: LinkedDefaults)
    ensures
        views(r.changes@) == link_changes(
            command_id@,
            views(vars@),
            views(wanted@),
            wanted@.len() as int,
        ),
        r.linked == r.changes@.len(),
        r.linked + r.skipped == wanted@.len(),
{
    let mut changes: Vec<Change> = Vec::new();
    let mut linked: usize = 0;
    let mut skipped: usize = 0;
    let mut i: usize = 0;
    while i < wanted.len()
        invariant
            i <= wanted.len(),
            views(changes@) == link_changes(command_id@, views(vars@), views(wanted@), i as int),
            linked == changes@.len(),
            linked + skipped == i,
        decreases wanted.len() - i,
    {
        assert(views(wanted@)[i as int] == wanted@[i as int]@);
        let mut found = false;
        match &wanted[i].env {
            Some(env) => {
                if can_fill(vars, &wanted[i].var_name, env) {
                    found = true;
                    changes.push(
                        set_default_env(command_id, &wanted[i].var_name, Some(env.id.clone())),
                    );
                }
            },
            None => {},
        }
        if found {
            linked += 1;
        } else {
            skipped += 1;
        }
        i += 1;
    }
    LinkedDefaults { changes, linked, skipped }
}

/// Import links a default env only to an env that exists here and may fill
/// the variable.
pub proof fn linked_defaults_are_compatible(
    command_id: Seq<char>,
    vars: Seq<StoredVariableView>,
    wanted: Seq<(Seq<char>, Option<EnvView>)>,
    n: int,
    k: int,
)
    requires
        0 <= n <= wanted.len(),
        0 <= k < link_changes(command_id, vars, wanted, n).len(),
    ensures
        link_changes(
            command_id,
            vars,
            wanted,
            n,
        )[k] matches ChangeView::SetDefaultEnv { command_id: id, var_name, default_env_id } && id
            == command_id && exists|i: int|
            0 <= i < n && #[trigger] wanted[i].0 == var_name && (wanted[i].1 matches Some(env)
                && default_env_id == Some(env.id) && may_fill(vars, var_name, env)),
    decreases n,
{
    let before = link_changes(command_id, vars, wanted, n - 1);
    if k < before.len() {
        linked_defaults_are_compatible(command_id, vars, wanted, n - 1, k);
    } else {
        assert(wanted[n - 1].1 is Some);
    }
}

/// Whether the `i`-th default env is there and may fill its variable.
pub open spec fn is_linked(
    vars: Seq<StoredVariableView>,
    wanted: Seq<(Seq<char>, Option<EnvView>)>,
    i: int,
) -> bool {
    wanted[i].1 matches Some(env) && may_fill(vars, wanted[i].0, env)
}

/// After the links have been made, each variable for which a default env was
/// asked that exists here and may fill it has that env as its default. Every
/// other variable, command and env is as it was. A command asks for at most one
/// default env for a variable.
pub proof fn linked_defaults_are_stored(
    v: VaultView,
    command_id: Seq<char>,
    wanted: Seq<(Seq<char>, Option<EnvView>)>,
    n: int,
)
    requires
        0 <= n <= wanted.len(),
        forall|i: int, j: int|
            0 <= i < j < wanted.len() ==> (#[trigger] wanted[i]).0 != (#[trigger] wanted[j]).0,
    ensures
        ({
            let vars = v.variables_of(command_id);
            changed_all(v, link_changes(command_id, vars, wanted, n)) matches Some(w) && {
                let after = w.variables_of(command_id);
                &&& w.commands == v.commands
                &&& w.envs == v.envs
                &&& forall|other: Seq<char>|
                    other != command_id ==> #[trigger] w.variables_of(other) == v.variables_of(
                        other,
                    )
                &&& after.len() == vars.len()
                &&& forall|r: int| 0 <= r < vars.len() ==> (#[trigger] after[r]).var == vars[r].var
                &&& forall|r: int, i: int|
                    #![trigger after[r], wanted[i]]
                    0 <= r < vars.len() && 0 <= i < n && wanted[i].0 == vars[r].var.name
                        && is_linked(vars, wanted, i) ==> after[r].default_env_id == Some(
                        (wanted[i].1->0).id,
                    )
                &&& forall|r: int|
                    0 <= r < vars.len() && (forall|i: int|
                        0 <= i < n && (#[trigger] wanted[i]).0 == vars[r].var.name ==> !is_linked(
                            vars,
                            wanted,
                            i,
                        )) ==> (#[trigger] after[r]).default_env_id == vars[r].default_env_id
            }
        }),
    decreases n,
{
    let vars = v.variables_of(command_id);
    let all = link_changes(command_id, vars, wanted, n);
    if n > 0 {
        linked_defaults_are_stored(v, command_id, wanted, n - 1);
        let before = link_changes(command_id, vars, wanted, n - 1);
        let w0 = changed_all(v, before)->0;
        let first = w0.variables_of(command_id);
        if is_linked(vars, wanted, n - 1) {
            let name = wanted[n - 1].0;
            let id = Some((wanted[n - 1].1->0).id);
            let link = ChangeView::SetDefaultEnv { command_id, var_name: name, default_env_id: id };
            assert(all.drop_last() =~= before);
            assert(all.last() == link);
            setting_a_default_touches_one_variable(w0, command_id, name, id);
            let w = changed(w0, link)->0;
            let after = w.variables_of(command_id);
            assert forall|r: int, i: int|
                #![trigger after[r], wanted[i]]
                0 <= r < vars.len() && 0 <= i < n && wanted[i].0 == vars[r].var.name && is_linked(
                    vars,
                    wanted,
                    i,
                ) implies after[r].default_env_id == Some((wanted[i].1->0).id) by {
                assert(first[r].var == vars[r].var);
                if i < n - 1 {
                    assert(wanted[i].0 != wanted[n - 1].0);
                }
            }
            assert forall|r: int|
                0 <= r < vars.len() && (forall|i: int|
                    0 <= i < n && (#[trigger] wanted[i]).0 == vars[r].var.name ==> !is_linked(
                        vars,
                        wanted,
                        i,
                    )) implies (#[trigger] after[r]).default_env_id == vars[r].default_env_id by {
                assert(first[r].var == vars[r].var);
                assert(wanted[n - 1].0 != vars[r].var.name);
            }
        } else {
            assert(all == before);
            let after = first;
            assert forall|r: int|
                0 <= r < vars.len() && (forall|i: int|
                    0 <= i < n && (#[trigger] wanted[i]).0 == vars[r].var.name ==> !is_linked(
                        vars,
                        wanted,
                        i,
                    )) implies (#[trigger] after[r]).default_env_id == vars[r].default_env_id by {
                assert forall|i: int|
                    0 <= i < n - 1 && (#[trigger] wanted[i]).0
                        == vars[r].var.name implies !is_linked(vars, wanted, i) by {}
            }
        }
    }
}

/// Import links every default env that exists here and may fill the variable.
pub proof fn compatible_defaults_are_linked(
    command_id: Seq<char>,
    vars: Seq<StoredVariableView>,
    wanted: Seq<(Seq<char>, Option<EnvView>)>,
    n: int,
    i: int,
)
    requires
        0 <= i < n <= wanted.len(),
        wanted[i].1 matches Some(env) && may_fill(vars, wanted[i].0, env),
    ensures
        link_changes(command_id, vars, wanted, n).contains(
            ChangeView::SetDefaultEnv {
                command_id,
                var_name: wanted[i].0,
                default_env_id: Some((wanted[i].1->0).id),
            },
        ),
    decreases n,
{
    let all = link_changes(command_id, vars, wanted, n);
    let before = link_changes(command_id, vars, wanted, n - 1);
    let link = ChangeView::SetDefaultEnv {
        command_id,
        var_name: wanted[i].0,
        default_env_id: Some((wanted[i].1->0).id),
    };
    if i < n - 1 {
        compatible_defaults_are_linked(command_id, vars, wanted, n - 1, i);
        let k = choose|k: int| 0 <= k < before.len() && before[k] == link;
        assert(all[k] == link);
    } else {
        assert(all[before.len() as int] == link);
    }
}

/// What an import has done about default envs, if there were any.
pub fn links_summary(linked: usize, skipped: usize) -> (r: Option<String>)
    ensures
        match r {
            Some(text) => (linked > 0 || skipped > 0) && text@ == "Linked "@ + decimal(
                linked as nat,
            ) + " default env setting(s); skipped "@ + decimal(skipped as nat)
                + " (no matching compatible env on this machine)."@,
            None => linked == 0 && skipped == 0,
        },
{
    if linked == 0 && skipped == 0 {
        return None;
    }
    let mut out = "Linked ".to_string();
    out.append(&decimal_of(linked as u64));
    out.append(" default env setting(s); skipped ");
    out.append(&decimal_of(skipped as u64));
    out.append(" (no matching compatible env on this machine).");
    Some(out)
}

} // verus!
