//! What is written to the database, and what is listed of it.

use vstd::prelude::*;

#[allow(unused_imports)]
use crate::commands::add::variable_listing;
#[allow(unused_imports)]
use crate::commands::edit::variable_diff_lines;
#[allow(unused_imports)]
use crate::commands::history::entry_listing;
#[allow(unused_imports)]
use crate::commands::import::conflicts::{
    command_conflict_text, env_conflict_text, keep_mine_question, shown_text,
    use_incoming_question, ResolveActionView,
};
#[allow(unused_imports)]
use crate::commands::import::diff::EnvConflictView;
#[allow(unused_imports)]
use crate::db::vault::{
    change_statements, changed, distinct_variables, variable_statements, ChangeView, VaultView,
};
#[allow(unused_imports)]
use crate::db::{SqlValueView, StatementView};
#[allow(unused_imports)]
use crate::laws::transfers::kind_name;
#[allow(unused_imports)]
use crate::models::{
    variable_diff, CmdVarKind, CommandView, EnvKind, EnvView, HistoryEntry, StoredVariableView,
    VariableDiffView, VariableView,
};
#[allow(unused_imports)]
use crate::text::{decimal, signed_decimal};
#[allow(unused_imports)]
use crate::transfer::ExportedCommandView;
#[allow(unused_imports)]
use crate::views::group_views;

verus! {

broadcast use {vstd::string::group_string_axioms, group_views};

/// A text, or NULL where there is none.
pub open spec fn text_or_null(text: Option<Seq<char>>) -> SqlValueView {
    match text {
        Some(t) => SqlValueView::Text(t),
        None => SqlValueView::Null,
    }
}

/// What a variable's kind is called.
pub open spec fn variable_kind_name(kind: CmdVarKind) -> Seq<char> {
    match kind {
        CmdVarKind::Secret => "secret"@,
        CmdVarKind::Text => "text"@,
        CmdVarKind::Number => "number"@,
    }
}

/// A command is written column by column, each field under its own name.
pub proof fn commands_are_written_column_by_column(cmd: CommandView)
    ensures
        ({
            let all = change_statements(ChangeView::InsertCommand(cmd));
            &&& all.len() == 1
            &&& all[0].sql
                == "INSERT INTO commands (id, template, description, created_at, updated_at) VALUES (?1, ?2, ?3, ?4, ?5)"@
            &&& all[0].params.len() == 5
            &&& all[0].params[0] == SqlValueView::Text(cmd.id)
            &&& all[0].params[1] == SqlValueView::Text(cmd.template)
            &&& all[0].params[2] == SqlValueView::Text(cmd.description)
            &&& all[0].params[3] == SqlValueView::Text(cmd.created_at)
            &&& all[0].params[4] == SqlValueView::Text(cmd.updated_at)
        }),
{
}

/// An env is written column by column, each field under its own name. What is
/// not encrypted has no nonce.
pub proof fn envs_are_written_column_by_column(env: EnvView)
    ensures
        ({
            let all = change_statements(ChangeView::InsertEnv(env));
            &&& all.len() == 1
            &&& all[0].sql
                == "INSERT INTO envs (id, name, kind, value, nonce, description, created_at, updated_at) VALUES (?1, ?2, ?3, ?4, ?5, ?6, ?7, ?8)"@
            &&& all[0].params.len() == 8
            &&& all[0].params[0] == SqlValueView::Text(env.id)
            &&& all[0].params[1] == SqlValueView::Text(env.name)
            &&& all[0].params[2] == SqlValueView::Text(kind_name(env.kind))
            &&& all[0].params[3] == SqlValueView::Blob(env.value)
            &&& env.nonce is None ==> all[0].params[4] is Null
            &&& env.nonce matches Some(nonce) ==> all[0].params[4] == SqlValueView::Blob(nonce)
            &&& all[0].params[5] == SqlValueView::Text(env.description)
            &&& all[0].params[6] == SqlValueView::Text(env.created_at)
            &&& all[0].params[7] == SqlValueView::Text(env.updated_at)
        }),
{
}

/// An edit writes the new template, description and time to the command of
/// that id, and to nothing else.
pub proof fn edits_are_written_to_one_command(
    id: Seq<char>,
    template: Seq<char>,
    description: Seq<char>,
    updated_at: Seq<char>,
)
    ensures
        ({
            let all = change_statements(
                ChangeView::UpdateCommand { id, template, description, updated_at },
            );
            &&& all.len() == 1
            &&& all[0].sql
                == "UPDATE commands SET template = ?1, description = ?2, updated_at = ?3 WHERE id = ?4"@
            &&& all[0].params.len() == 4
            &&& all[0].params[0] == SqlValueView::Text(template)
            &&& all[0].params[1] == SqlValueView::Text(description)
            &&& all[0].params[2] == SqlValueView::Text(updated_at)
            &&& all[0].params[3] == SqlValueView::Text(id)
        }),
{
}

/// A default env is written to the variable of that name of the command of
/// that id, and cleared with NULL.
pub proof fn defaults_are_written_to_one_variable(
    command_id: Seq<char>,
    var_name: Seq<char>,
    default_env_id: Option<Seq<char>>,
)
    ensures
        ({
            let all = change_statements(
                ChangeView::SetDefaultEnv { command_id, var_name, default_env_id },
            );
            &&& all.len() == 1
            &&& all[0].sql
                == "UPDATE command_variables SET default_env_id = ?1 WHERE command_id = ?2 AND name = ?3"@
            &&& all[0].params.len() == 3
            &&& all[0].params[0] == text_or_null(default_env_id)
            &&& all[0].params[1] == SqlValueView::Text(command_id)
            &&& all[0].params[2] == SqlValueView::Text(var_name)
        }),
{
}

/// What is deleted is the one thing of that id.
pub proof fn deletions_name_one_id(id: Seq<char>)
    ensures
        change_statements(ChangeView::DeleteCommand(id)) == seq![
            StatementView {
                sql: "DELETE FROM commands WHERE id = ?1"@,
                params: seq![SqlValueView::Text(id)],
            },
        ],
        change_statements(ChangeView::DeleteEnv(id)) == seq![
            StatementView {
                sql: "DELETE FROM envs WHERE id = ?1"@,
                params: seq![SqlValueView::Text(id)],
            },
        ],
{
}

/// The variables of a command are written in place of those it had, one row
/// for each, at the position where it stands.
pub proof fn variables_are_written_row_by_row(
    command_id: Seq<char>,
    rows: Seq<StoredVariableView>,
    i: int,
)
    requires
        0 <= i < rows.len() <= i64::MAX,
    ensures
        ({
            let all = change_statements(ChangeView::ReplaceVariables { command_id, rows });
            &&& all.len() == rows.len() + 1
            &&& all[0] == (StatementView {
                sql: "DELETE FROM command_variables WHERE command_id = ?1"@,
                params: seq![SqlValueView::Text(command_id)],
            })
            &&& all[i + 1].sql
                == "INSERT INTO command_variables (command_id, position, kind, name, default_env_id) VALUES (?1, ?2, ?3, ?4, ?5)"@
            &&& all[i + 1].params.len() == 5
            &&& all[i + 1].params[0] == SqlValueView::Text(command_id)
            &&& all[i + 1].params[1] == SqlValueView::Integer(i as i64)
            &&& all[i + 1].params[2] == SqlValueView::Text(variable_kind_name(rows[i].var.kind))
            &&& all[i + 1].params[3] == SqlValueView::Text(rows[i].var.name)
            &&& all[i + 1].params[4] == text_or_null(rows[i].default_env_id)
        }),
{
    row_of(command_id, rows, rows.len() as int, i);
}

proof fn row_of(command_id: Seq<char>, rows: Seq<StoredVariableView>, n: int, i: int)
    requires
        0 <= n <= rows.len(),
        0 <= i < rows.len(),
    ensures
        ({
            let all = variable_statements(command_id, rows, n);
            &&& all.len() == n + 1
            &&& all[0] == (StatementView {
                sql: "DELETE FROM command_variables WHERE command_id = ?1"@,
                params: seq![SqlValueView::Text(command_id)],
            })
            &&& i < n ==> {
                &&& all[i + 1].sql
                    == "INSERT INTO command_variables (command_id, position, kind, name, default_env_id) VALUES (?1, ?2, ?3, ?4, ?5)"@
                &&& all[i + 1].params.len() == 5
                &&& all[i + 1].params[0] == SqlValueView::Text(command_id)
                &&& all[i + 1].params[1] == SqlValueView::Integer(i as i64)
                &&& all[i + 1].params[2] == SqlValueView::Text(
                    variable_kind_name(rows[i].var.kind),
                )
                &&& all[i + 1].params[3] == SqlValueView::Text(rows[i].var.name)
                &&& all[i + 1].params[4] == text_or_null(rows[i].default_env_id)
            }
        }),
    decreases n,
{
    if n > 0 {
        row_of(command_id, rows, n - 1, i);
    }
}

/// Replacing the variables of a command that is there gives it just those, and
/// touches nothing else. A command that is not there gets none.
pub proof fn replaced_variables_are_the_new_ones(
    v: VaultView,
    command_id: Seq<char>,
    rows: Seq<StoredVariableView>,
)
    requires
        distinct_variables(rows),
    ensures
        v.commands.contains_key(command_id) || rows.len() == 0 ==> (changed(
            v,
            ChangeView::ReplaceVariables { command_id, rows },
        ) matches Some(w) && {
            &&& w.variables_of(command_id) == rows
            &&& w.commands == v.commands
            &&& w.envs == v.envs
            &&& forall|other: Seq<char>|
                other != command_id ==> #[trigger] w.variables_of(other) == v.variables_of(other)
        }),
        !v.commands.contains_key(command_id) && rows.len() > 0 ==> changed(
            v,
            ChangeView::ReplaceVariables { command_id, rows },
        ) is None,
{
    if let Some(w) = changed(v, ChangeView::ReplaceVariables { command_id, rows }) {
        assert(w.variables_of(command_id) =~= rows);
    }
}

/// A command is added under its own id, and no second one under the same.
pub proof fn commands_are_added_once(v: VaultView, cmd: CommandView)
    ensures
        !v.commands.contains_key(cmd.id) ==> (changed(
            v,
            ChangeView::InsertCommand(cmd),
        ) matches Some(w) && w.commands == v.commands.insert(cmd.id, cmd) && w.variables
            == v.variables && w.envs == v.envs),
        v.commands.contains_key(cmd.id) ==> changed(v, ChangeView::InsertCommand(cmd)) is None,
{
}

/// The variables of a new command are listed in order and numbered from one,
/// each with its name and its kind.
pub proof fn new_variables_are_listed(vars: Seq<VariableView>, i: int)
    requires
        0 <= i < vars.len(),
    ensures
        variable_listing(Seq::empty()).len() == 0,
        variable_listing(vars).len() == vars.len() + 1,
        variable_listing(vars)[0] == "Found "@ + decimal(vars.len())
            + " variable(s) in this command:"@,
        variable_listing(vars)[i + 1] == "  "@ + decimal((i + 1) as nat) + ". "@ + vars[i].name
            + " ("@ + variable_kind_name(vars[i].kind) + ")"@,
{
}

/// The changes of an edit are listed: what is added, then what is removed, and
/// whether a default env goes with it.
pub proof fn changed_variables_are_listed(d: VariableDiffView, i: int, k: int)
    ensures
        variable_diff_lines(d).len() == 1 + d.added.len() + d.removed.len(),
        variable_diff_lines(d)[0] == "This changes the command's variables:"@,
        0 <= i < d.added.len() ==> variable_diff_lines(d)[1 + i] == "  + "@ + d.added[i].name
            + " ("@ + variable_kind_name(d.added[i].kind) + ")"@,
        0 <= k < d.removed.len() && d.removed[k].default_env_id is None ==> variable_diff_lines(
            d,
        )[1 + d.added.len() + k] == "  - "@ + d.removed[k].var.name + " ("@ + variable_kind_name(
            d.removed[k].var.kind,
        ) + ")"@,
        0 <= k < d.removed.len() && d.removed[k].default_env_id is Some ==> variable_diff_lines(
            d,
        )[1 + d.added.len() + k] == "  - "@ + d.removed[k].var.name + " ("@ + variable_kind_name(
            d.removed[k].var.kind,
        ) + ")"@ + " - default env setting will be lost"@,
{
    if 0 <= k < d.removed.len() && d.removed[k].default_env_id is None {
        reveal_strlit("");
        let line = "  - "@ + d.removed[k].var.name + " ("@ + variable_kind_name(
            d.removed[k].var.kind,
        ) + ")"@;
        assert(line + ""@ =~= line);
    }
}

/// An edit keeps or adds each variable of the new template, and nothing else.
pub proof fn edits_account_for_the_new_template(
    old: Seq<StoredVariableView>,
    new: Seq<VariableView>,
)
    ensures
        variable_diff(old, new).kept.len() + variable_diff(old, new).added.len() == new.len(),
{
    let keep = |v: VariableView| crate::models::is_stored(old, v);
    let add_it = |v: VariableView| !crate::models::is_stored(old, v);
    filters_complement(new, keep, add_it);
}

proof fn filters_complement<A>(s: Seq<A>, a: spec_fn(A) -> bool, b: spec_fn(A) -> bool)
    requires
        forall|x: A| #[trigger] a(x) == !b(x),
    ensures
        s.filter(a).len() + s.filter(b).len() == s.len(),
    decreases s.len(),
{
    reveal(Seq::filter);
    if s.len() > 0 {
        filters_complement(s.drop_last(), a, b);
        assert(a(s.last()) == !b(s.last()));
    }
}

/// A past run is listed with its number, its time, its template and its
/// command, and then each variable with what the history shows of it.
pub proof fn past_runs_are_listed(entry: HistoryEntry, i: int)
    requires
        0 <= i < entry.bindings@.len(),
    ensures
        entry_listing(entry).len() == 1 + entry.bindings@.len(),
        entry_listing(entry)[0] == "#"@ + signed_decimal(entry.id as int) + "  "@
            + entry.executed_at@ + "  "@ + entry.template@ + "  ["@ + entry.command_id@ + "]"@,
        entry_listing(entry)[i + 1] == "    "@ + entry.bindings@[i].name@ + " = "@
            + entry.bindings@[i].display@,
{
}

/// A conflict is shown with what is here and what comes in, side by side. The
/// values are shown unless one of them is a secret.
pub proof fn conflicts_are_shown_side_by_side(
    cmd: CommandView,
    ec: ExportedCommandView,
    c: EnvConflictView,
    total: nat,
)
    ensures
        command_conflict_text((cmd, ec)) == seq![
            "Command conflict:"@,
            "  Mine:     "@ + cmd.template + "  ("@ + cmd.description + ")"@,
            "  Incoming: "@ + ec.template + "  ("@ + ec.description + ")"@,
        ],
        c.local.kind != EnvKind::Secret && c.incoming.kind != "secret"@ ==> env_conflict_text(c)
            == seq![
            "Env conflict: '"@ + c.local.name + "'"@,
            "  Mine:     kind="@ + kind_name(c.local.kind) + " value=\""@ + c.local_value
                + "\" description=\""@ + c.local.description + "\""@,
            "  Incoming: kind="@ + c.incoming.kind + " value=\""@ + c.incoming.value
                + "\" description=\""@ + c.incoming.description + "\""@,
        ],
        c.local.kind == EnvKind::Secret || c.incoming.kind == "secret"@ ==> env_conflict_text(c)
            == seq![
            "Env conflict: '"@ + c.local.name + "'"@,
            "  Mine:     kind="@ + kind_name(c.local.kind) + " description=\""@
                + c.local.description + "\" value=(hidden)"@,
            "  Incoming: kind="@ + c.incoming.kind + " description=\""@ + c.incoming.description
                + "\" value=(hidden) -- values differ"@,
        ],
        keep_mine_question(total) == "Keep your local version for all "@ + decimal(total)
            + " conflict(s)? Incoming changes will be discarded."@,
        use_incoming_question(total) == "Overwrite all "@ + decimal(total)
            + " conflict(s) with the incoming version from the file?"@,
{
}

/// Each conflict is shown when it is its turn, and a question as it is asked.
pub proof fn each_conflict_is_shown_in_its_turn(
    commands: Seq<(CommandView, ExportedCommandView)>,
    envs: Seq<EnvConflictView>,
    i: int,
    message: Seq<char>,
)
    ensures
        shown_text(ResolveActionView::ShowCommand(i), commands, envs) == command_conflict_text(
            commands[i],
        ),
        shown_text(ResolveActionView::ShowEnv(i), commands, envs) == env_conflict_text(envs[i]),
        shown_text(ResolveActionView::Confirm(message), commands, envs) == seq![message],
{
}

} // verus!
