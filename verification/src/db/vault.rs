//! What a vault holds, how each change changes it, and the SQL that carries a
//! change out.

use vstd::prelude::*;

use crate::db::{
    blob_value, opt_blob_value, opt_text_value, statement_with, text_value, SqlValue, Statement,
};
#[allow(unused_imports)]
use crate::db::{opt_blob, opt_text, SqlValueView, StatementView};
use crate::models::{StoredCommand, StoredCommandVariable, StoredEnv};
#[allow(unused_imports)]
use crate::models::{CommandView, EnvView, StoredVariableView};
#[allow(unused_imports)]
use crate::views::{group_views, opt_view, views};

verus! {

broadcast use {vstd::string::group_string_axioms, group_views};

/// One change to a vault, as a value.
pub enum ChangeView {
    /// Adds a command without variables.
    InsertCommand(CommandView),
    /// Gives a command a new text and description.
    UpdateCommand {
        id: Seq<char>,
        template: Seq<char>,
        description: Seq<char>,
        updated_at: Seq<char>,
    },
    /// Deletes a command and its variables.
    DeleteCommand(Seq<char>),
    /// Gives a command these variables, in this order, in place of those it
    /// had.
    ReplaceVariables { command_id: Seq<char>, rows: Seq<StoredVariableView> },
    /// Sets or clears the default env of one variable.
    SetDefaultEnv {
        command_id: Seq<char>,
        var_name: Seq<char>,
        default_env_id: Option<Seq<char>>,
    },
    /// Adds an env.
    InsertEnv(EnvView),
    /// Deletes an env.
    DeleteEnv(Seq<char>),
}

/// One change to a vault.
pub enum Change {
    InsertCommand(StoredCommand),
    UpdateCommand { id: String, template: String, description: String, updated_at: String },
    DeleteCommand(String),
    ReplaceVariables { command_id: String, rows: Vec<StoredCommandVariable> },
    SetDefaultEnv { command_id: String, var_name: String, default_env_id: Option<String> },
    InsertEnv(StoredEnv),
    DeleteEnv(String),
}

impl View for Change {
    type V = ChangeView;

    open spec fn view(&self) -> ChangeView {
        match self {
            Change::InsertCommand(cmd) => ChangeView::InsertCommand(cmd@),
            Change::UpdateCommand { id, template, description, updated_at } =>
                ChangeView::UpdateCommand {
                id: id@,
                template: template@,
                description: description@,
                updated_at: updated_at@,
            },
            Change::DeleteCommand(id) => ChangeView::DeleteCommand(id@),
            Change::ReplaceVariables { command_id, rows } => ChangeView::ReplaceVariables {
                command_id: command_id@,
                rows: views(rows@),
            },
            Change::SetDefaultEnv { command_id, var_name, default_env_id } =>
                ChangeView::SetDefaultEnv {
                command_id: command_id@,
                var_name: var_name@,
                default_env_id: opt_view(*default_env_id),
            },
            Change::InsertEnv(env) => ChangeView::InsertEnv(env@),
            Change::DeleteEnv(id) => ChangeView::DeleteEnv(id@),
        }
    }
}

/// What a vault holds: commands and envs by id, and the variables of each
/// command in order.
#[verifier::ext_equal]
pub struct VaultView {
    pub commands: Map<Seq<char>, CommandView>,
    pub variables: Map<Seq<char>, Seq<StoredVariableView>>,
    pub envs: Map<Seq<char>, EnvView>,
}

impl VaultView {
    /// The variables of a command.
    pub open spec fn variables_of(self, command_id: Seq<char>) -> Seq<StoredVariableView> {
        if self.variables.contains_key(command_id) {
            self.variables[command_id]
        } else {
            Seq::empty()
        }
    }

    /// Whether some env has this name.
    pub open spec fn has_env_named(self, name: Seq<char>) -> bool {
        exists|id: Seq<char>| #[trigger] self.envs.contains_key(id) && self.envs[id].name == name
    }

    /// What every vault keeps to: things are found under their own ids, no two
    /// envs share a name, variables belong to commands, and no command has two
    /// variables of one name.
    pub open spec fn well_formed(self) -> bool {
        &&& forall|id: Seq<char>| #[trigger]
            self.commands.contains_key(id) ==> self.commands[id].id == id
        &&& forall|id: Seq<char>| #[trigger] self.envs.contains_key(id) ==> self.envs[id].id == id
        &&& forall|a: Seq<char>, b: Seq<char>| #[trigger]
            self.envs.contains_key(a) && #[trigger] self.envs.contains_key(b) && self.envs[a].name
                == self.envs[b].name ==> a == b
        &&& forall|id: Seq<char>| #[trigger]
            self.variables.contains_key(id) ==> self.commands.contains_key(id)
        &&& forall|id: Seq<char>| #[trigger]
            self.variables.contains_key(id) ==> distinct_variables(self.variables[id])
    }
}

/// No two variables share a name.
pub open spec fn distinct_variables(rows: Seq<StoredVariableView>) -> bool {
    forall|i: int, j: int|
        0 <= i < j < rows.len() ==> (#[trigger] rows[i]).var.name != (#[trigger] rows[j]).var.name
}

/// The variables with the default env of one of them set or cleared.
pub open spec fn with_default(
    rows: Seq<StoredVariableView>,
    name: Seq<char>,
    default_env_id: Option<Seq<char>>,
) -> Seq<StoredVariableView> {
    Seq::new(
        rows.len(),
        |i: int|
            if rows[i].var.name == name {
                StoredVariableView { var: rows[i].var, default_env_id }
            } else {
                rows[i]
            },
    )
}

/// The vault after a change, unless the change breaks one of its rules.
pub open spec fn changed(v: VaultView, change: ChangeView) -> Option<VaultView> {
    match change {
        ChangeView::InsertCommand(cmd) => if v.commands.contains_key(cmd.id) {
            None
        } else {
            Some(VaultView { commands: v.commands.insert(cmd.id, cmd), ..v })
        },
        ChangeView::UpdateCommand { id, template, description, updated_at } =>
            if v.commands.contains_key(id) {
            let cmd = CommandView { template, description, updated_at, ..v.commands[id] };
            Some(VaultView { commands: v.commands.insert(id, cmd), ..v })
        } else {
            Some(v)
        },
        ChangeView::DeleteCommand(id) => Some(
            VaultView { commands: v.commands.remove(id), variables: v.variables.remove(id), ..v },
        ),
        ChangeView::ReplaceVariables { command_id, rows } => if rows.len() == 0 {
            Some(VaultView { variables: v.variables.remove(command_id), ..v })
        } else if v.commands.contains_key(command_id) && distinct_variables(rows) {
            Some(VaultView { variables: v.variables.insert(command_id, rows), ..v })
        } else {
            None
        },
        ChangeView::SetDefaultEnv { command_id, var_name, default_env_id } =>
            if v.variables.contains_key(command_id) {
            let rows = with_default(v.variables[command_id], var_name, default_env_id);
            Some(VaultView { variables: v.variables.insert(command_id, rows), ..v })
        } else {
            Some(v)
        },
        ChangeView::InsertEnv(env) => if v.envs.contains_key(env.id) || v.has_env_named(env.name) {
            None
        } else {
            Some(VaultView { envs: v.envs.insert(env.id, env), ..v })
        },
        ChangeView::DeleteEnv(id) => Some(VaultView { envs: v.envs.remove(id), ..v }),
    }
}

/// The vault after some changes in one transaction: all of them, or none.
pub open spec fn changed_all(v: VaultView, changes: Seq<ChangeView>) -> Option<VaultView>
    decreases changes.len(),
{
    if changes.len() == 0 {
        Some(v)
    } else {
        match changed_all(v, changes.drop_last()) {
            Some(w) => changed(w, changes.last()),
            None => None,
        }
    }
}

/// Every change keeps to the vault's rules.
pub proof fn changes_keep_vaults_well_formed(v: VaultView, changes: Seq<ChangeView>)
    requires
        v.well_formed(),
    ensures
        changed_all(v, changes) matches Some(w) ==> w.well_formed(),
    decreases changes.len(),
{
    if changes.len() > 0 {
        changes_keep_vaults_well_formed(v, changes.drop_last());
        if let Some(w) = changed_all(v, changes.drop_last()) {
            change_keeps_vault_well_formed(w, changes.last());
        }
    }
}

proof fn change_keeps_vault_well_formed(v: VaultView, change: ChangeView)
    requires
        v.well_formed(),
    ensures
        changed(v, change) matches Some(w) ==> w.well_formed(),
{
    if let Some(w) = changed(v, change) {
        if let ChangeView::SetDefaultEnv { command_id, var_name, default_env_id } = change {
            if v.variables.contains_key(command_id) {
                let rows = v.variables[command_id];
                let after = with_default(rows, var_name, default_env_id);
                assert forall|i: int, j: int| 0 <= i < j < after.len() implies (
                #[trigger] after[i]).var.name != (#[trigger] after[j]).var.name by {
                    assert(after[i].var == rows[i].var && after[j].var == rows[j].var);
                    assert(rows[i].var.name != rows[j].var.name);
                }
                assert(distinct_variables(after));
            }
        }
    }
}

/// Two runs of changes are one run.
pub proof fn changed_all_in_turn(v: VaultView, first: Seq<ChangeView>, then: Seq<ChangeView>)
    ensures
        changed_all(v, first + then) == match changed_all(v, first) {
            Some(w) => changed_all(w, then),
            None => None,
        },
    decreases then.len(),
{
    if then.len() == 0 {
        assert(first + then =~= first);
    } else {
        assert((first + then).drop_last() =~= first + then.drop_last());
        changed_all_in_turn(v, first, then.drop_last());
    }
}

/// Deleting a command deletes its variables with it, and touches nothing
/// else.
pub proof fn deleting_a_command_cascades(v: VaultView, id: Seq<char>)
    ensures
        changed(v, ChangeView::DeleteCommand(id)) matches Some(w) && {
            &&& !w.commands.contains_key(id)
            &&& w.variables_of(id).len() == 0
            &&& w.envs == v.envs
            &&& forall|other: Seq<char>|
                other != id ==> (w.commands.contains_key(other) <==> v.commands.contains_key(
                    other,
                )) && (v.commands.contains_key(other) ==> #[trigger] w.commands[other]
                    == v.commands[other]) && w.variables_of(other) == v.variables_of(other)
        },
{
}

/// Setting a default env touches the named variable and no other, of no other
/// command.
pub proof fn setting_a_default_touches_one_variable(
    v: VaultView,
    command_id: Seq<char>,
    var_name: Seq<char>,
    default_env_id: Option<Seq<char>>,
)
    ensures
        changed(
            v,
            ChangeView::SetDefaultEnv { command_id, var_name, default_env_id },
        ) matches Some(w) && {
            &&& w.commands == v.commands
            &&& w.envs == v.envs
            &&& w.variables_of(command_id).len() == v.variables_of(command_id).len()
            &&& forall|i: int|
                0 <= i < v.variables_of(command_id).len() ==> {
                    let before = v.variables_of(command_id)[i];
                    let after = #[trigger] w.variables_of(command_id)[i];
                    &&& after.var == before.var
                    &&& after.default_env_id == if before.var.name == var_name {
                        default_env_id
                    } else {
                        before.default_env_id
                    }
                }
            &&& forall|other: Seq<char>|
                other != command_id ==> #[trigger] w.variables_of(other) == v.variables_of(other)
        },
{
}

/// Updating a command keeps its id and its creation time, and touches no other
/// command, no variable and no env.
pub proof fn updating_a_command_keeps_the_rest(
    v: VaultView,
    id: Seq<char>,
    template: Seq<char>,
    description: Seq<char>,
    updated_at: Seq<char>,
)
    requires
        v.commands.contains_key(id),
    ensures
        changed(
            v,
            ChangeView::UpdateCommand { id, template, description, updated_at },
        ) matches Some(w) && {
            &&& w.commands[id] == (CommandView {
                id: v.commands[id].id,
                template,
                description,
                created_at: v.commands[id].created_at,
                updated_at,
            })
            &&& w.commands.dom() == v.commands.dom()
            &&& w.variables == v.variables
            &&& w.envs == v.envs
            &&& forall|other: Seq<char>|
                other != id && v.commands.contains_key(other) ==> #[trigger] w.commands[other]
                    == v.commands[other]
        },
{
    let w = changed(v, ChangeView::UpdateCommand { id, template, description, updated_at })->0;
    assert(w.commands.dom() =~= v.commands.dom());
}

/// No two envs of a vault share a name: a second one of the same name is
/// refused.
pub proof fn env_names_are_unique(v: VaultView, env: EnvView)
    requires
        v.has_env_named(env.name),
    ensures
        changed(v, ChangeView::InsertEnv(env)) is None,
{
}

/// The statements that give a command its variables, up to the first `n`.
pub open spec fn variable_statements(
    command_id: Seq<char>,
    rows: Seq<StoredVariableView>,
    n: int,
) -> Seq<StatementView>
    decreases n,
{
    if n <= 0 {
        seq![
            StatementView {
                sql: "DELETE FROM command_variables WHERE command_id = ?1"@,
                params: seq![SqlValueView::Text(command_id)],
            },
        ]
    } else {
        variable_statements(command_id, rows, n - 1).push(
            StatementView {
                sql:
                    "INSERT INTO command_variables (command_id, position, kind, name, default_env_id) VALUES (?1, ?2, ?3, ?4, ?5)"@,
                params: seq![
                    SqlValueView::Text(command_id),
                    SqlValueView::Integer((n - 1) as i64),
                    SqlValueView::Text(rows[n - 1].var.kind.text()),
                    SqlValueView::Text(rows[n - 1].var.name),
                    opt_text(rows[n - 1].default_env_id),
                ],
            },
        )
    }
}

/// The SQL that carries out a change.
pub open spec fn change_statements(change: ChangeView) -> Seq<StatementView> {
    match change {
        ChangeView::InsertCommand(cmd) => seq![
            StatementView {
                sql:
                    "INSERT INTO commands (id, template, description, created_at, updated_at) VALUES (?1, ?2, ?3, ?4, ?5)"@,
                params: seq![
                    SqlValueView::Text(cmd.id),
                    SqlValueView::Text(cmd.template),
                    SqlValueView::Text(cmd.description),
                    SqlValueView::Text(cmd.created_at),
                    SqlValueView::Text(cmd.updated_at),
                ],
            },
        ],
        ChangeView::UpdateCommand { id, template, description, updated_at } => seq![
            StatementView {
                sql:
                    "UPDATE commands SET template = ?1, description = ?2, updated_at = ?3 WHERE id = ?4"@,
                params: seq![
                    SqlValueView::Text(template),
                    SqlValueView::Text(description),
                    SqlValueView::Text(updated_at),
                    SqlValueView::Text(id),
                ],
            },
        ],
        ChangeView::DeleteCommand(id) => seq![
            StatementView {
                sql: "DELETE FROM commands WHERE id = ?1"@,
                params: seq![SqlValueView::Text(id)],
            },
        ],
        ChangeView::ReplaceVariables { command_id, rows } => variable_statements(
            command_id,
            rows,
            rows.len() as int,
        ),
        ChangeView::SetDefaultEnv { command_id, var_name, default_env_id } => seq![
            StatementView {
                sql:
                    "UPDATE command_variables SET default_env_id = ?1 WHERE command_id = ?2 AND name = ?3"@,
                params: seq![
                    opt_text(default_env_id),
                    SqlValueView::Text(command_id),
                    SqlValueView::Text(var_name),
                ],
            },
        ],
        ChangeView::InsertEnv(env) => seq![
            StatementView {
                sql:
                    "INSERT INTO envs (id, name, kind, value, nonce, description, created_at, updated_at) VALUES (?1, ?2, ?3, ?4, ?5, ?6, ?7, ?8)"@,
                params: seq![
                    SqlValueView::Text(env.id),
                    SqlValueView::Text(env.name),
                    SqlValueView::Text(env.kind.text()),
                    SqlValueView::Blob(env.value),
                    opt_blob(env.nonce),
                    SqlValueView::Text(env.description),
                    SqlValueView::Text(env.created_at),
                    SqlValueView::Text(env.updated_at),
                ],
            },
        ],
        ChangeView::DeleteEnv(id) => seq![
            StatementView {
                sql: "DELETE FROM envs WHERE id = ?1"@,
                params: seq![SqlValueView::Text(id)],
            },
        ],
    }
}

/// A list of one statement.
fn single(statement: Statement) -> (r: Vec<Statement>)
    ensures
        views(r@) == seq![statement@],
{
    let mut out: Vec<Statement> = Vec::new();
    out.push(statement);
    assert(views(out@) =~= seq![statement@]);
    out
}

fn insert_command_statement(cmd: &StoredCommand) -> (r: Statement)
    ensures
        seq![r@] == change_statements(ChangeView::InsertCommand(cmd@)),
{
    let mut params: Vec<SqlValue> = Vec::new();
    params.push(text_value(&cmd.id));
    params.push(text_value(&cmd.template));
    params.push(text_value(&cmd.description));
    params.push(text_value(&cmd.created_at));
    params.push(text_value(&cmd.updated_at));
    let r = Statement {
        sql:
            "INSERT INTO commands (id, template, description, created_at, updated_at) VALUES (?1, ?2, ?3, ?4, ?5)".to_string(),
        params,
    };
    assert(r@.params =~= change_statements(ChangeView::InsertCommand(cmd@))[0].params);
    r
}

fn update_command_statement(
    id: &String,
    template: &String,
    description: &String,
    updated_at: &String,
) -> (r: Statement)
    ensures
        seq![r@] == change_statements(
            ChangeView::UpdateCommand {
                id: id@,
                template: template@,
                description: description@,
                updated_at: updated_at@,
            },
        ),
{
    let mut params: Vec<SqlValue> = Vec::new();
    params.push(text_value(template));
    params.push(text_value(description));
    params.push(text_value(updated_at));
    params.push(text_value(id));
    let r = Statement {
        sql:
            "UPDATE commands SET template = ?1, description = ?2, updated_at = ?3 WHERE id = ?4".to_string(),
        params,
    };
    assert(r@.params =~= seq![
        SqlValueView::Text(template@),
        SqlValueView::Text(description@),
        SqlValueView::Text(updated_at@),
        SqlValueView::Text(id@),
    ]);
    r
}

fn set_default_env_statement(
    command_id: &String,
    var_name: &String,
    default_env_id: &Option<String>,
) -> (r: Statement)
    ensures
        seq![r@] == change_statements(
            ChangeView::SetDefaultEnv {
                command_id: command_id@,
                var_name: var_name@,
                default_env_id: opt_view(*default_env_id),
            },
        ),
{
    let mut params: Vec<SqlValue> = Vec::new();
    params.push(opt_text_value(default_env_id));
    params.push(text_value(command_id));
    params.push(text_value(var_name));
    let r = Statement {
        sql:
            "UPDATE command_variables SET default_env_id = ?1 WHERE command_id = ?2 AND name = ?3".to_string(),
        params,
    };
    assert(r@.params =~= seq![
        opt_text(opt_view(*default_env_id)),
        SqlValueView::Text(command_id@),
        SqlValueView::Text(var_name@),
    ]);
    r
}

fn insert_env_statement(env: &StoredEnv) -> (r: Statement)
    ensures
        seq![r@] == change_statements(ChangeView::InsertEnv(env@)),
{
    let mut params: Vec<SqlValue> = Vec::new();
    params.push(text_value(&env.id));
    params.push(text_value(&env.name));
    params.push(text_value(env.kind.as_str()));
    params.push(blob_value(&env.value));
    params.push(opt_blob_value(&env.nonce));
    params.push(text_value(&env.description));
    params.push(text_value(&env.created_at));
    params.push(text_value(&env.updated_at));
    let r = Statement {
        sql:
            "INSERT INTO envs (id, name, kind, value, nonce, description, created_at, updated_at) VALUES (?1, ?2, ?3, ?4, ?5, ?6, ?7, ?8)".to_string(),
        params,
    };
    assert(r@.params =~= change_statements(ChangeView::InsertEnv(env@))[0].params);
    r
}

fn replace_variables_statements(command_id: &String, rows: &Vec<StoredCommandVariable>) -> (r: Vec<
    Statement,
>)
    ensures
        views(r@) == variable_statements(command_id@, views(rows@), rows@.len() as int),
{
    let mut out: Vec<Statement> = single(
        statement_with(
            "DELETE FROM command_variables WHERE command_id = ?1",
            text_value(command_id),
        ),
    );
    let mut i: usize = 0;
    assert(views(out@) =~= variable_statements(command_id@, views(rows@), 0));
    while i < rows.len()
        invariant
            i <= rows.len(),
            views(out@) == variable_statements(command_id@, views(rows@), i as int),
        decreases rows.len() - i,
    {
        let row = &rows[i];
        assert(views(rows@)[i as int] == row@);
        let mut params: Vec<SqlValue> = Vec::new();
        params.push(text_value(command_id));
        params.push(SqlValue::Integer(i as i64));
        params.push(text_value(row.var.kind.as_str()));
        params.push(text_value(&row.var.name));
        params.push(opt_text_value(&row.default_env_id));
        let statement = Statement {
            sql:
                "INSERT INTO command_variables (command_id, position, kind, name, default_env_id) VALUES (?1, ?2, ?3, ?4, ?5)".to_string(),
            params,
        };
        assert(statement@.params =~= seq![
            SqlValueView::Text(command_id@),
            SqlValueView::Integer(i as i64),
            SqlValueView::Text(row@.var.kind.text()),
            SqlValueView::Text(row@.var.name),
            opt_text(row@.default_env_id),
        ]);
        out.push(statement);
        i += 1;
    }
    out
}

impl Change {
    /// The SQL that carries out the change.
    pub fn statements(&self) -> (r: Vec<Statement>)
        ensures
            views(r@) == change_statements(self@),
    {
        match self {
            Change::InsertCommand(cmd) => single(insert_command_statement(cmd)),
            Change::UpdateCommand { id, template, description, updated_at } => single(
                update_command_statement(id, template, description, updated_at),
            ),
            Change::DeleteCommand(id) => single(
                statement_with("DELETE FROM commands WHERE id = ?1", text_value(id)),
            ),
            Change::ReplaceVariables { command_id, rows } => replace_variables_statements(
                command_id,
                rows,
            ),
            Change::SetDefaultEnv { command_id, var_name, default_env_id } => single(
                set_default_env_statement(command_id, var_name, default_env_id),
            ),
            Change::InsertEnv(env) => single(insert_env_statement(env)),
            Change::DeleteEnv(id) => single(
                statement_with("DELETE FROM envs WHERE id = ?1", text_value(id)),
            ),
        }
    }
}

} // verus!
