//! `inr e`: editing a command.

use vstd::prelude::*;

use crate::models::{diff_variables, CmdVariable, StoredCommandVariable, StoredEnv, VariableDiff};
#[allow(unused_imports)]
use crate::models::{
    variable_diff, EnvView, StoredVariableView, VariableDiffView, VariableView,
};
use crate::placeholder::parse_placeholders;
#[allow(unused_imports)]
use crate::placeholder::{template_variables, Fault};
#[allow(unused_imports)]
use crate::db::commands_repo::lookup_views;
#[allow(unused_imports)]
use crate::views::{group_views, opt_view, views};

verus! {

broadcast use {vstd::string::group_string_axioms, group_views};

/// Judges a new template: its variables, or a notice about what is wrong with
/// it. A command's placeholders must always be well-formed before it can be
/// saved.
pub fn check_template(answer: &str) -> (r: Result<Vec<CmdVariable>, String>)
    ensures
        match r {
            Ok(vars) => template_variables(answer@) == Ok::<Seq<VariableView>, Fault>(views(vars@)),
            Err(notice) => template_variables(answer@) matches Err(fault) && notice@ == fault.text()
                + " - try again."@,
        },
{
    match parse_placeholders(answer) {
        Ok(vars) => Ok(vars),
        Err(e) => {
            let mut notice = e.message();
            notice.append(" - try again.");
            Err(notice)
        },
    }
}

/// What an edit changes about a command's variables, if the user has to
/// confirm it: only a new template can change them, and it need not.
pub fn changes_to_confirm(
    old_template: &str,
    new_template: &str,
    old_vars: &[StoredCommandVariable],
    new_vars: &[CmdVariable],
) -> (r: Option<VariableDiff>)
    ensures
        ({
            let diff = variable_diff(views(old_vars@), views(new_vars@));
            let changed = old_template@ != new_template@ && (diff.added.len() > 0
                || diff.removed.len() > 0);
            match r {
                Some(d) => changed && d@ == diff,
                None => !changed,
            }
        }),
{
    if *old_template == *new_template {
        return None;
    }
    let diff = diff_variables(old_vars, new_vars);
    if diff.is_unchanged() {
        None
    } else {
        Some(diff)
    }
}

/// The line for a variable that is added.
pub open spec fn added_line(v: VariableView) -> Seq<char> {
    "  + "@ + v.name + " ("@ + v.kind.text() + ")"@
}

/// The line for a variable that is removed, with a note if its default env
/// goes with it.
pub open spec fn removed_line(v: StoredVariableView) -> Seq<char> {
    "  - "@ + v.var.name + " ("@ + v.var.kind.text() + ")"@ + if v.default_env_id is Some {
        " - default env setting will be lost"@
    } else {
        ""@
    }
}

/// The lines that show a change of variables.
pub open spec fn variable_diff_lines(d: VariableDiffView) -> Seq<Seq<char>> {
    seq!["This changes the command's variables:"@] + Seq::new(
        d.added.len(),
        |i: int| added_line(d.added[i]),
    ) + Seq::new(d.removed.len(), |i: int| removed_line(d.removed[i]))
}

/// Shows a change of variables.
pub fn print_variable_diff(diff: &VariableDiff) -> (r: Vec<String>)
    ensures
        views(r@) == variable_diff_lines(diff@),
{
    let ghost all = variable_diff_lines(diff@);
    let mut out: Vec<String> = Vec::new();
    out.push("This changes the command's variables:".to_string());
    let mut i: usize = 0;
    assert(views(out@) =~= all.take(1));
    while i < diff.added.len()
        invariant
            i <= diff.added.len(),
            all == variable_diff_lines(diff@),
            views(out@) == all.take(i + 1),
        decreases diff.added.len() - i,
    {
        let v = &diff.added[i];
        let mut line = "  + ".to_string();
        line.append(&v.name);
        line.append(" (");
        line.append(v.kind.as_str());
        line.append(")");
        assert(diff@.added[i as int] == v@);
        assert(all[i + 1] == line@);
        out.push(line);
        assert(all.take(i + 2) =~= all.take(i + 1).push(all[i + 1]));
        i += 1;
    }
    let ghost n = diff.added@.len() + 1;
    let mut k: usize = 0;
    while k < diff.removed.len()
        invariant
            k <= diff.removed.len(),
            n == diff.added@.len() + 1,
            all == variable_diff_lines(diff@),
            views(out@) == all.take(n + k),
        decreases diff.removed.len() - k,
    {
        let v = &diff.removed[k];
        let mut line = "  - ".to_string();
        line.append(&v.var.name);
        line.append(" (");
        line.append(v.var.kind.as_str());
        line.append(")");
        if v.default_env_id.is_some() {
            line.append(" - default env setting will be lost");
        } else {
            line.append("");
        }
        assert(diff@.removed[k as int] == v@);
        assert(all[n + k] == line@);
        out.push(line);
        assert(all.take(n + k + 1) =~= all.take(n + k).push(all[n + k]));
        k += 1;
    }
    assert(all.take(n + k) =~= all);
    out
}

/// The default envs of some variables that still exist, up to the first `n`:
/// `envs[i]` is what a lookup of the default env of `vars[i]` found.
pub open spec fn existing_defaults(
    vars: Seq<StoredVariableView>,
    envs: Seq<Option<EnvView>>,
    n: int,
) -> Seq<(Seq<char>, EnvView)>
    decreases n,
{
    if n <= 0 {
        Seq::empty()
    } else {
        let before = existing_defaults(vars, envs, n - 1);
        match (vars[n - 1].default_env_id, envs[n - 1]) {
            (Some(_), Some(env)) => before.push((vars[n - 1].var.name, env)),
            _ => before,
        }
    }
}

/// Builds variable-name -> currently-set (and still-existing) default env,
/// to show as each variable's starting point. `envs` holds for each variable
/// what a lookup of its default env found.
pub fn load_current_defaults(
    vars: &[StoredCommandVariable],
    envs: &[Option<StoredEnv>],
) -> (r: Vec<(String, StoredEnv)>)
    requires
        vars@.len() == envs@.len(),
    ensures
        views(r@) == existing_defaults(views(vars@), lookup_views(envs@), vars@.len() as int),
{
    let mut out: Vec<(String, StoredEnv)> = Vec::new();
    let mut i: usize = 0;
    while i < vars.len()
        invariant
            i <= vars.len(),
            vars@.len() == envs@.len(),
            views(out@) == existing_defaults(views(vars@), lookup_views(envs@), i as int),
        decreases vars.len() - i,
    {
        assert(lookup_views(envs@)[i as int] == opt_view(envs@[i as int]));
        if vars[i].default_env_id.is_some() {
            match &envs[i] {
                Some(env) => {
                    out.push((vars[i].var.name.clone(), env.clone()));
                },
                None => {},
            }
        }
        i += 1;
    }
    out
}

/// The last of the first `n` envs that is listed under a name.
pub open spec fn env_listed(
    defaults: Seq<(Seq<char>, EnvView)>,
    n: int,
    name: Seq<char>,
) -> Option<EnvView>
    decreases n,
{
    if n <= 0 {
        None
    } else if defaults[n - 1].0 == name {
        Some(defaults[n - 1].1)
    } else {
        env_listed(defaults, n - 1, name)
    }
}

/// The current default env of a variable.
pub fn current_default<'a>(defaults: &'a [(String, StoredEnv)], name: &str) -> (r: Option<
    &'a StoredEnv,
>)
    ensures
        match r {
            Some(env) => env_listed(views(defaults@), defaults@.len() as int, name@) == Some(env@),
            None => env_listed(views(defaults@), defaults@.len() as int, name@) is None,
        },
{
    let mut n: usize = defaults.len();
    while n > 0
        invariant
            n <= defaults.len(),
            env_listed(views(defaults@), defaults@.len() as int, name@) == env_listed(
                views(defaults@),
                n as int,
                name@,
            ),
        decreases n,
    {
        if *defaults[n - 1].0.as_str() == *name {
            return Some(&defaults[n - 1].1);
        }
        n -= 1;
    }
    None
}

} // verus!
