//! Commands and their variables in the database.

use vstd::prelude::*;

use crate::db::vault::Change;
#[allow(unused_imports)]
use crate::db::vault::{changed, changed_all, distinct_variables, ChangeView, VaultView};
use crate::db::{plain_statement, statement_with, statement_with_two, text_value, SqlValue, Statement};
#[allow(unused_imports)]
use crate::db::{SqlValueView, StatementView};
use crate::error::VaultError;
use crate::models::{CmdVarKind, CmdVariable, StoredCommand, StoredCommandVariable, StoredEnv};
#[allow(unused_imports)]
use crate::models::{CommandView, EnvView, StoredVariableView, VariableView};
use crate::name_map::NameMap;
#[allow(unused_imports)]
use crate::placeholder::distinct_names;
use crate::text::{copy_opt_text, double, join_with, split_words, text_is_blank};
#[allow(unused_imports)]
use crate::text::{doubled, doubled_reads_back, is_blank, is_space, joined_by, read_doubled, words_from};
#[allow(unused_imports)]
use crate::views::{group_views, opt_view, views};

verus! {

broadcast use {vstd::string::group_string_axioms, group_views};

/// The default env that a variable takes over from those before: that of the
/// first one with the same name and kind, from `i` on.
pub open spec fn carried_default(
    previous: Seq<StoredVariableView>,
    i: int,
    v: VariableView,
) -> Option<Seq<char>>
    decreases previous.len() - i,
{
    if i < 0 || i >= previous.len() {
        None
    } else if previous[i].var == v {
        previous[i].default_env_id
    } else {
        carried_default(previous, i + 1, v)
    }
}

/// The variables as they are stored, with the default envs they take over.
pub open spec fn stored_rows(
    new_vars: Seq<VariableView>,
    previous: Seq<StoredVariableView>,
) -> Seq<StoredVariableView> {
    Seq::new(
        new_vars.len(),
        |i: int|
            StoredVariableView {
                var: new_vars[i],
                default_env_id: carried_default(previous, 0, new_vars[i]),
            },
    )
}

fn find_carried_default(previous: &[StoredCommandVariable], v: &CmdVariable) -> (r: Option<String>)
    ensures
        opt_view(r) == carried_default(views(previous@), 0, v@),
{
    let mut i: usize = 0;
    while i < previous.len()
        invariant
            i <= previous.len(),
            carried_default(views(previous@), 0, v@) == carried_default(
                views(previous@),
                i as int,
                v@,
            ),
        decreases previous.len() - i,
    {
        if previous[i].var.same_as(v) {
            return copy_opt_text(&previous[i].default_env_id);
        }
        i += 1;
    }
    None
}

/// Replaces every stored variable for `command_id` with `new_vars`, in
/// order (so `position` always matches the template's current variable
/// order). A variable in `new_vars` whose (name, kind) matches one in
/// `previous` keeps that variable's `default_env_id`; anything else - a
/// brand new variable, or one whose kind changed - starts with no default.
/// Used both for a fresh command (`previous` empty) and for `inr e`
/// re-saving an edited template.
pub fn set_command_variables(
    command_id: &str,
    new_vars: &[CmdVariable],
    previous: &[StoredCommandVariable],
) -> (r: Change)
    ensures
        r@ == (ChangeView::ReplaceVariables {
            command_id: command_id@,
            rows: stored_rows(views(new_vars@), views(previous@)),
        }),
{
    let mut rows: Vec<StoredCommandVariable> = Vec::new();
    let mut i: usize = 0;
    assert(views(rows@) =~= stored_rows(views(new_vars@), views(previous@)).take(0));
    while i < new_vars.len()
        invariant
            i <= new_vars.len(),
            views(rows@) == stored_rows(views(new_vars@), views(previous@)).take(i as int),
        decreases new_vars.len() - i,
    {
        let v = &new_vars[i];
        let row = StoredCommandVariable {
            var: v.clone(),
            default_env_id: find_carried_default(previous, v),
        };
        let ghost all = stored_rows(views(new_vars@), views(previous@));
        assert(all[i as int] == row@);
        rows.push(row);
        assert(all.take(i + 1) =~= all.take(i as int).push(all[i as int]));
        i += 1;
    }
    assert(stored_rows(views(new_vars@), views(previous@)).take(i as int) =~= stored_rows(
        views(new_vars@),
        views(previous@),
    ));
    Change::ReplaceVariables { command_id: command_id.to_string(), rows }
}

/// Adding a command with its variables.
pub open spec fn insert_command_changes(cmd: CommandView, vars: Seq<VariableView>) -> Seq<
    ChangeView,
> {
    seq![
        ChangeView::InsertCommand(cmd),
        ChangeView::ReplaceVariables {
            command_id: cmd.id,
            rows: stored_rows(vars, Seq::empty()),
        },
    ]
}

/// Adds a command with its variables, none of which has a default env yet.
/// The changes belong in one transaction.
pub fn insert_command(cmd: &StoredCommand, vars: &[CmdVariable]) -> (r: Vec<Change>)
    ensures
        views(r@) == insert_command_changes(cmd@, views(vars@)),
{
    let mut out: Vec<Change> = Vec::new();
    insert_command_raw(&mut out, cmd, vars);
    assert(views(out@) =~= insert_command_changes(cmd@, views(vars@)));
    out
}

/// Same as `insert_command`, but adds to a list of changes - for callers (like
/// `inr import`) that need to batch many command/env inserts and deletes into
/// one outer transaction.
pub fn insert_command_raw(changes: &mut Vec<Change>, cmd: &StoredCommand, vars: &[CmdVariable])
    ensures
        views(final(changes)@) == views(old(changes)@) + insert_command_changes(
            cmd@,
            views(vars@),
        ),
{
    let none: Vec<StoredCommandVariable> = Vec::new();
    changes.push(Change::InsertCommand(cmd.clone()));
    changes.push(set_command_variables(&cmd.id, vars, none.as_slice()));
    assert(views(none@) =~= Seq::<StoredVariableView>::empty());
    assert(views(changes@) =~= views(old(changes)@) + insert_command_changes(cmd@, views(vars@)));
}

/// A command is there after it was added, with the variables it was added
/// with and no default envs, and nothing else has changed.
pub proof fn inserted_command_is_stored(v: VaultView, cmd: CommandView, vars: Seq<VariableView>)
    requires
        v.well_formed(),
        !v.commands.contains_key(cmd.id),
        distinct_names(vars),
    ensures
        changed_all(v, insert_command_changes(cmd, vars)) matches Some(w) && {
            &&& w.commands == v.commands.insert(cmd.id, cmd)
            &&& w.variables_of(cmd.id).len() == vars.len()
            &&& forall|i: int|
                0 <= i < vars.len() ==> #[trigger] w.variables_of(cmd.id)[i] == (
                StoredVariableView { var: vars[i], default_env_id: None })
            &&& w.envs == v.envs
            &&& forall|other: Seq<char>|
                other != cmd.id ==> #[trigger] w.variables_of(other) == v.variables_of(other)
        },
{
    let rows = stored_rows(vars, Seq::empty());
    rows_keep_names(vars, Seq::empty());
    replaced_in_two(v, insert_command_changes(cmd, vars));
    assert forall|i: int| 0 <= i < vars.len() implies #[trigger] rows[i] == (StoredVariableView {
        var: vars[i],
        default_env_id: None,
    }) by {
        assert(carried_default(Seq::empty(), 0, vars[i]) is None);
    }
}

/// Two changes, one after the other.
proof fn replaced_in_two(v: VaultView, changes: Seq<ChangeView>)
    requires
        changes.len() == 2,
    ensures
        changed_all(v, changes) == match changed(v, changes[0]) {
            Some(w) => changed(w, changes[1]),
            None => None,
        },
{
    let first = changes.drop_last();
    assert(first.drop_last() =~= Seq::<ChangeView>::empty());
    assert(changed_all(v, first.drop_last()) == Some(v));
    assert(changed_all(v, first) == changed(v, changes[0]));
}

/// Storing variables keeps their names apart.
proof fn rows_keep_names(vars: Seq<VariableView>, previous: Seq<StoredVariableView>)
    requires
        distinct_names(vars),
    ensures
        distinct_variables(stored_rows(vars, previous)),
{
    let rows = stored_rows(vars, previous);
    assert forall|i: int, j: int| 0 <= i < j < rows.len() implies (#[trigger] rows[i]).var.name != (
    #[trigger] rows[j]).var.name by {
        assert(vars[i].name != vars[j].name);
    }
}

/// A variable keeps its default env through an edit exactly when its name and
/// kind stay, and a variable that is new or has changed its kind starts
/// without one.
pub proof fn defaults_survive_with_name_and_kind(
    new_vars: Seq<VariableView>,
    previous: Seq<StoredVariableView>,
    i: int,
)
    requires
        0 <= i < new_vars.len(),
        distinct_variables(previous),
    ensures
        stored_rows(new_vars, previous)[i].var == new_vars[i],
        forall|j: int|
            0 <= j < previous.len() && (#[trigger] previous[j]).var == new_vars[i] ==> stored_rows(
                new_vars,
                previous,
            )[i].default_env_id == previous[j].default_env_id,
        (forall|j: int| 0 <= j < previous.len() ==> (#[trigger] previous[j]).var != new_vars[i])
            ==> stored_rows(new_vars, previous)[i].default_env_id is None,
{
    carried_default_finds(previous, 0, new_vars[i]);
}

proof fn carried_default_finds(previous: Seq<StoredVariableView>, i: int, v: VariableView)
    requires
        0 <= i <= previous.len(),
        distinct_variables(previous),
    ensures
        forall|j: int|
            i <= j < previous.len() && (#[trigger] previous[j]).var == v ==> carried_default(
                previous,
                i,
                v,
            ) == previous[j].default_env_id,
        (forall|j: int| i <= j < previous.len() ==> (#[trigger] previous[j]).var != v)
            ==> carried_default(previous, i, v) is None,
    decreases previous.len() - i,
{
    if i < previous.len() {
        if previous[i].var == v {
            assert forall|j: int|
                i <= j < previous.len() && (#[trigger] previous[j]).var == v implies j == i by {
                if i < j {
                    assert(previous[i].var.name != previous[j].var.name);
                }
            }
        } else {
            carried_default_finds(previous, i + 1, v);
        }
    }
}

/// Sets (or, with `None`, clears) one variable's default env by name.
pub fn set_default_env(command_id: &str, var_name: &str, default_env_id: Option<String>) -> (r:
    Change)
    ensures
        r@ == (ChangeView::SetDefaultEnv {
            command_id: command_id@,
            var_name: var_name@,
            default_env_id: opt_view(default_env_id),
        }),
{
    Change::SetDefaultEnv {
        command_id: command_id.to_string(),
        var_name: var_name.to_string(),
        default_env_id,
    }
}

/// Updates a command's editable fields (used by `inr e`). Variables are
/// updated separately via `set_command_variables` - the FTS trigger
/// `commands_au` reindexes `template`/`description` automatically.
pub fn update_command(id: &str, template: &str, description: &str, updated_at: &str) -> (r: Change)
    ensures
        r@ == (ChangeView::UpdateCommand {
            id: id@,
            template: template@,
            description: description@,
            updated_at: updated_at@,
        }),
{
    Change::UpdateCommand {
        id: id.to_string(),
        template: template.to_string(),
        description: description.to_string(),
        updated_at: updated_at.to_string(),
    }
}

/// Editing a command together with its variables.
pub open spec fn update_command_changes(
    id: Seq<char>,
    template: Seq<char>,
    description: Seq<char>,
    updated_at: Seq<char>,
    new_vars: Seq<VariableView>,
    previous: Seq<StoredVariableView>,
) -> Seq<ChangeView> {
    seq![
        ChangeView::UpdateCommand { id, template, description, updated_at },
        ChangeView::ReplaceVariables { command_id: id, rows: stored_rows(new_vars, previous) },
    ]
}

/// Updates a command's fields and its full variable set together, in one
/// transaction (used by `inr e`) - so a failure partway through never leaves
/// `commands.template` updated while `command_variables` is stale or partially
/// rebuilt.
pub fn update_command_and_variables(
    id: &str,
    template: &str,
    description: &str,
    updated_at: &str,
    new_vars: &[CmdVariable],
    previous: &[StoredCommandVariable],
) -> (r: Vec<Change>)
    ensures
        views(r@) == update_command_changes(
            id@,
            template@,
            description@,
            updated_at@,
            views(new_vars@),
            views(previous@),
        ),
{
    let mut out: Vec<Change> = Vec::new();
    out.push(update_command(id, template, description, updated_at));
    out.push(set_command_variables(id, new_vars, previous));
    assert(views(out@) =~= update_command_changes(
        id@,
        template@,
        description@,
        updated_at@,
        views(new_vars@),
        views(previous@),
    ));
    out
}

/// A command is as it was edited, with the variables of its new template, and
/// nothing else has changed.
pub proof fn edited_command_is_stored(
    v: VaultView,
    id: Seq<char>,
    template: Seq<char>,
    description: Seq<char>,
    updated_at: Seq<char>,
    new_vars: Seq<VariableView>,
)
    requires
        v.commands.contains_key(id),
        distinct_names(new_vars),
    ensures
        changed_all(
            v,
            update_command_changes(
                id,
                template,
                description,
                updated_at,
                new_vars,
                v.variables_of(id),
            ),
        ) matches Some(w) && {
            &&& w.commands == v.commands.insert(
                id,
                CommandView { template, description, updated_at, ..v.commands[id] },
            )
            &&& w.variables_of(id) == stored_rows(new_vars, v.variables_of(id))
            &&& w.envs == v.envs
            &&& forall|other: Seq<char>|
                other != id ==> #[trigger] w.variables_of(other) == v.variables_of(other)
        },
{
    let previous = v.variables_of(id);
    let changes = update_command_changes(
        id,
        template,
        description,
        updated_at,
        new_vars,
        previous,
    );
    rows_keep_names(new_vars, previous);
    replaced_in_two(v, changes);
    let w = changed_all(v, changes)->0;
    assert(w.variables_of(id) =~= stored_rows(new_vars, previous));
}

/// Deletes a command by id. `command_variables` cascade-deletes via the FK
/// (foreign_keys pragma is enabled on every connection).
pub fn delete_command(id: &str) -> (r: Change)
    ensures
        r@ == ChangeView::DeleteCommand(id@),
{
    Change::DeleteCommand(id.to_string())
}

/// Reads a command.
pub fn get_command(id: &str) -> (r: Statement)
    ensures
        r@ == (StatementView {
            sql:
                "SELECT id, template, description, created_at, updated_at FROM commands WHERE id = ?1"@,
            params: seq![SqlValueView::Text(id@)],
        }),
{
    statement_with(
        "SELECT id, template, description, created_at, updated_at FROM commands WHERE id = ?1",
        text_value(id),
    )
}

/// Finds a command by its exact template text - used by `inr import` to
/// decide whether an incoming command already exists locally (commands have
/// no other natural key: `id` is a random nanoid, independently generated
/// on each machine).
pub fn find_by_template(template: &str) -> (r: Statement)
    ensures
        r@ == (StatementView {
            sql:
                "SELECT id, template, description, created_at, updated_at FROM commands WHERE template = ?1"@,
            params: seq![SqlValueView::Text(template@)],
        }),
{
    statement_with(
        "SELECT id, template, description, created_at, updated_at FROM commands WHERE template = ?1",
        text_value(template),
    )
}

/// Returns every stored command, ordered by id. Used by `inr export` to
/// bundle the full set of commands into a transfer file.
pub fn list_all() -> (r: Statement)
    ensures
        r@ == (StatementView {
            sql:
                "SELECT id, template, description, created_at, updated_at FROM commands ORDER BY id ASC"@,
            params: Seq::empty(),
        }),
{
    plain_statement(
        "SELECT id, template, description, created_at, updated_at FROM commands ORDER BY id ASC",
    )
}

/// Reads the variables of a command, in order.
pub fn get_command_variables(command_id: &str) -> (r: Statement)
    ensures
        r@ == (StatementView {
            sql:
                "SELECT kind, name, default_env_id FROM command_variables WHERE command_id = ?1 ORDER BY position ASC"@,
            params: seq![SqlValueView::Text(command_id@)],
        }),
{
    statement_with(
        "SELECT kind, name, default_env_id FROM command_variables WHERE command_id = ?1 ORDER BY position ASC",
        text_value(command_id),
    )
}

/// A row of `command_variables`: kind, name and default env.
pub struct VariableRow {
    pub kind: String,
    pub name: String,
    pub default_env_id: Option<String>,
}

/// What a row says.
pub open spec fn row_variable(row: VariableRow) -> Option<StoredVariableView> {
    match CmdVarKind::of_text(row.kind@) {
        Some(kind) => Some(
            StoredVariableView {
                var: VariableView { kind, name: row.name@ },
                default_env_id: opt_view(row.default_env_id),
            },
        ),
        None => None,
    }
}

/// Reads the rows of a command's variables, in order. A kind that does not
/// exist is an error, the first one of them if there are more.
pub fn variables_from_rows(rows: Vec<VariableRow>) -> (r: Result<
    Vec<StoredCommandVariable>,
    VaultError,
>)
    ensures
        match r {
            Ok(vars) => {
                &&& vars@.len() == rows@.len()
                &&& forall|i: int|
                    0 <= i < rows@.len() ==> row_variable(rows@[i]) == Some(
                        #[trigger] views(vars@)[i],
                    )
            },
            Err(VaultError::UnknownCommandVariableKind(kind)) => exists|i: int|
                0 <= i < rows@.len() && row_variable(#[trigger] rows@[i]) is None && kind@
                    == rows@[i].kind@ && forall|j: int|
                    0 <= j < i ==> row_variable(#[trigger] rows@[j]) is Some,
            Err(_) => false,
        },
{
    let mut out: Vec<StoredCommandVariable> = Vec::new();
    let mut i: usize = 0;
    while i < rows.len()
        invariant
            i <= rows.len(),
            out@.len() == i,
            forall|j: int| 0 <= j < i ==> row_variable(rows@[j]) == Some(#[trigger] views(out@)[j]),
        decreases rows.len() - i,
    {
        let row = &rows[i];
        match CmdVarKind::from_str(&row.kind) {
            Ok(kind) => {
                let ghost before = views(out@);
                out.push(
                    StoredCommandVariable {
                        var: CmdVariable { kind, name: row.name.clone() },
                        default_env_id: copy_opt_text(&row.default_env_id),
                    },
                );
                assert forall|j: int| 0 <= j < i + 1 implies row_variable(rows@[j]) == Some(
                    #[trigger] views(out@)[j],
                ) by {
                    if j < i {
                        assert(views(out@)[j] == before[j]);
                    }
                }
            },
            Err(e) => {
                assert forall|j: int| 0 <= j < i implies row_variable(
                    #[trigger] rows@[j],
                ) is Some by {
                    assert(row_variable(rows@[j]) == Some(views(out@)[j]));
                }
                assert(row_variable(rows@[i as int]) is None);
                return Err(e);
            },
        }
        i += 1;
    }
    Ok(out)
}

/// The names of the envs behind the default envs of some variables, up to the
/// first `n`: `envs[i]` is what a lookup of the default env of `vars[i]` found.
pub open spec fn default_names(
    vars: Seq<StoredVariableView>,
    envs: Seq<Option<EnvView>>,
    n: int,
) -> Map<Seq<char>, Seq<char>>
    decreases n,
{
    if n <= 0 {
        Map::empty()
    } else {
        let before = default_names(vars, envs, n - 1);
        match (vars[n - 1].default_env_id, envs[n - 1]) {
            (Some(_), Some(env)) => before.insert(vars[n - 1].var.name, env.name),
            _ => before,
        }
    }
}

/// The views of some lookups.
pub open spec fn lookup_views(envs: Seq<Option<StoredEnv>>) -> Seq<Option<EnvView>> {
    Seq::new(envs.len(), |i: int| opt_view(envs[i]))
}

/// Maps each variable name that has a default env to that env's *name*,
/// skipping any default whose env id no longer resolves to a real env.
/// Used by `inr export` - export carries default envs by name (see
/// `transfer::ExportedCommand::variable_defaults`), never by id, since ids
/// are only meaningful within the machine that generated them. `envs` holds
/// for each variable what a lookup of its default env found.
pub fn get_variable_default_names(
    vars: &[StoredCommandVariable],
    envs: &[Option<StoredEnv>],
) -> (r: NameMap)
    requires
        vars@.len() == envs@.len(),
    ensures
        r@ == default_names(views(vars@), lookup_views(envs@), vars@.len() as int),
{
    let mut out = NameMap::new();
    let mut i: usize = 0;
    while i < vars.len()
        invariant
            i <= vars.len(),
            vars@.len() == envs@.len(),
            out@ == default_names(views(vars@), lookup_views(envs@), i as int),
        decreases vars.len() - i,
    {
        assert(lookup_views(envs@)[i as int] == opt_view(envs@[i as int]));
        if vars[i].default_env_id.is_some() {
            match &envs[i] {
                Some(env) => {
                    out.insert(vars[i].var.name.clone(), env.name.clone());
                },
                None => {},
            }
        }
        i += 1;
    }
    out
}

/// Export names a default env for a variable exactly when the variable has one
/// that still exists, and names it as it is called now.
pub proof fn exported_defaults_are_the_resolvable_ones(
    vars: Seq<StoredVariableView>,
    envs: Seq<Option<EnvView>>,
    i: int,
)
    requires
        vars.len() == envs.len(),
        distinct_variables(vars),
        0 <= i < vars.len(),
    ensures
        ({
            let names = default_names(vars, envs, vars.len() as int);
            let resolvable = vars[i].default_env_id is Some && envs[i] is Some;
            &&& names.contains_key(vars[i].var.name) <==> resolvable
            &&& resolvable ==> names[vars[i].var.name] == envs[i]->0.name
        }),
{
    default_names_upto(vars, envs, vars.len() as int, i);
}

proof fn default_names_upto(
    vars: Seq<StoredVariableView>,
    envs: Seq<Option<EnvView>>,
    n: int,
    i: int,
)
    requires
        vars.len() == envs.len(),
        distinct_variables(vars),
        0 <= i < vars.len(),
        0 <= n <= vars.len(),
    ensures
        ({
            let names = default_names(vars, envs, n);
            let resolvable = i < n && vars[i].default_env_id is Some && envs[i] is Some;
            &&& names.contains_key(vars[i].var.name) <==> resolvable
            &&& resolvable ==> names[vars[i].var.name] == envs[i]->0.name
        }),
    decreases n,
{
    if n > 0 {
        default_names_upto(vars, envs, n - 1, i);
        if i < n - 1 {
            assert(vars[i].var.name != vars[n - 1].var.name);
        } else if n - 1 < i {
            assert(vars[n - 1].var.name != vars[i].var.name);
        }
    }
}

/// A word as a term of an FTS5 query: quoted, with its quotes doubled, and
/// open at its end.
pub open spec fn fts_term(word: Seq<char>) -> Seq<char> {
    seq!['"'] + doubled(word, '"') + seq!['"', '*']
}

/// The terms of a query.
pub open spec fn fts_terms(words: Seq<Seq<char>>) -> Seq<Seq<char>> {
    Seq::new(words.len(), |i: int| fts_term(words[i]))
}

/// The FTS5 query for what a user typed.
pub open spec fn fts_query(raw: Seq<char>) -> Seq<char> {
    joined_by(fts_terms(words_from(raw, 0)), " "@)
}

/// Escapes a raw user query into an FTS5 MATCH expression: each
/// whitespace-separated token becomes a quoted prefix-match term, so
/// arbitrary input (including FTS5 syntax characters) can never produce an
/// invalid or unintended query.
pub fn build_fts_query(raw: &str) -> (r: String)
    ensures
        r@ == fts_query(raw@),
{
    let words = split_words(raw);
    let mut terms: Vec<String> = Vec::new();
    let mut i: usize = 0;
    let ghost all = fts_terms(views(words@));
    assert(views(terms@) =~= all.take(0));
    while i < words.len()
        invariant
            i <= words.len(),
            all == fts_terms(views(words@)),
            views(terms@) == all.take(i as int),
        decreases words.len() - i,
    {
        let mut term = String::new();
        term.push('"');
        term.append(&double(&words[i], '"'));
        term.push('"');
        term.push('*');
        assert(term@ =~= fts_term(words@[i as int]@));
        assert(all[i as int] == term@);
        terms.push(term);
        assert(all.take(i + 1) =~= all.take(i as int).push(all[i as int]));
        i += 1;
    }
    assert(all.take(i as int) =~= all);
    join_with(&terms, " ")
}

/// Whatever a word holds, its term is one quoted string that holds exactly the
/// word, followed by the star of a prefix search.
pub proof fn fts_term_is_one_quoted_string(word: Seq<char>)
    ensures
        fts_term(word)[0] == '"',
        fts_term(word).last() == '*',
        read_doubled(fts_term(word).drop_last().skip(1), '"') == Some(word),
{
    assert(fts_term(word).drop_last().skip(1) =~= doubled(word, '"') + seq!['"']);
    doubled_reads_back(word, '"');
}

/// A query that is not blank has at least one term, so that a search never
/// asks FTS5 for nothing.
pub proof fn query_that_is_not_blank_has_terms(raw: Seq<char>)
    requires
        !is_blank(raw),
    ensures
        words_from(raw, 0).len() > 0,
        fts_query(raw).len() > 0,
{
    let k = choose|k: int| 0 <= k < raw.len() && !is_space(#[trigger] raw[k]);
    some_word(raw, 0, k);
    let terms = fts_terms(words_from(raw, 0));
    assert(terms[0].len() > 0);
    assert(terms.last() == fts_term(words_from(raw, 0).last()));
    assert(terms.last().len() > 0);
}

proof fn some_word(s: Seq<char>, i: int, k: int)
    requires
        0 <= i <= k < s.len(),
        !is_space(s[k]),
    ensures
        words_from(s, i).len() > 0,
    decreases k - i,
{
    if is_space(s[i]) {
        some_word(s, i + 1, k);
    }
}

/// The statement of a search for commands.
pub open spec fn search_commands_statement(raw_query: Seq<char>, limit: i64) -> StatementView {
    if is_blank(raw_query) {
        StatementView {
            sql:
                "SELECT id, template, description, created_at, updated_at FROM commands ORDER BY updated_at DESC LIMIT ?1"@,
            params: seq![SqlValueView::Integer(limit)],
        }
    } else {
        StatementView {
            sql: "SELECT c.id, c.template, c.description, c.created_at, c.updated_at
         FROM commands_fts f
         JOIN commands c ON c.rowid = f.rowid
         WHERE commands_fts MATCH ?1
         ORDER BY f.rank
         LIMIT ?2"@,
            params: seq![
                SqlValueView::Text(fts_query(raw_query)),
                SqlValueView::Integer(limit),
            ],
        }
    }
}

/// Searches commands by description + template text. Empty query returns
/// the most recently updated commands instead of an FTS5 match.
pub fn search_commands(raw_query: &str, limit: i64) -> (r: Statement)
    ensures
        r@ == search_commands_statement(raw_query@, limit),
{
    if text_is_blank(raw_query) {
        statement_with(
            "SELECT id, template, description, created_at, updated_at FROM commands ORDER BY updated_at DESC LIMIT ?1",
            SqlValue::Integer(limit),
        )
    } else {
        statement_with_two(
            "SELECT c.id, c.template, c.description, c.created_at, c.updated_at
         FROM commands_fts f
         JOIN commands c ON c.rowid = f.rowid
         WHERE commands_fts MATCH ?1
         ORDER BY f.rank
         LIMIT ?2",
            SqlValue::Text(build_fts_query(raw_query)),
            SqlValue::Integer(limit),
        )
    }
}

} // verus!
