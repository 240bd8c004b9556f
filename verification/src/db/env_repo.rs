//! Envs in the database.

use vstd::prelude::*;

use crate::db::commands_repo::build_fts_query;
#[allow(unused_imports)]
use crate::db::commands_repo::fts_query;
use crate::db::vault::Change;
#[allow(unused_imports)]
use crate::db::vault::{changed, ChangeView, VaultView};
use crate::db::{plain_statement, statement_with, statement_with_two, text_value, SqlValue, Statement};
#[allow(unused_imports)]
use crate::db::{SqlValueView, StatementView};
use crate::error::VaultError;
use crate::models::{EnvKind, StoredEnv};
#[allow(unused_imports)]
use crate::models::EnvView;
use crate::text::{join_with, text_is_blank};
#[allow(unused_imports)]
use crate::text::{is_blank, joined_by};
#[allow(unused_imports)]
use crate::views::{group_views, opt_view, views};

verus! {

broadcast use {vstd::string::group_string_axioms, group_views};

/// A row of `envs`, column by column.
pub struct EnvRow {
    pub id: String,
    pub name: String,
    pub kind: String,
    pub value: Vec<u8>,
    pub nonce: Option<Vec<u8>>,
    pub description: String,
    pub created_at: String,
    pub updated_at: String,
}

/// What a row says.
pub open spec fn row_env(row: EnvRow) -> Option<EnvView> {
    match EnvKind::of_text(row.kind@) {
        Some(kind) => Some(
            EnvView {
                id: row.id@,
                name: row.name@,
                kind,
                value: row.value@,
                nonce: opt_view(row.nonce),
                description: row.description@,
                created_at: row.created_at@,
                updated_at: row.updated_at@,
            },
        ),
        None => None,
    }
}

/// Reads a row. A kind that does not exist is an error.
pub fn map_row(row: EnvRow) -> (r: Result<StoredEnv, VaultError>)
    ensures
        match r {
            Ok(env) => row_env(row) == Some(env@),
            Err(VaultError::UnknownEnvKind(kind)) => row_env(row) is None && kind@ == row.kind@,
            Err(_) => false,
        },
{
    match EnvKind::from_str(&row.kind) {
        Ok(kind) => Ok(
            StoredEnv {
                id: row.id,
                name: row.name,
                kind,
                value: row.value,
                nonce: row.nonce,
                description: row.description,
                created_at: row.created_at,
                updated_at: row.updated_at,
            },
        ),
        Err(e) => Err(e),
    }
}

/// Adds an env.
pub fn insert_env(env: &StoredEnv) -> (r: Change)
    ensures
        r@ == ChangeView::InsertEnv(env@),
{
    Change::InsertEnv(env.clone())
}

/// Deletes an env by id.
pub fn delete_env(id: &str) -> (r: Change)
    ensures
        r@ == ChangeView::DeleteEnv(id@),
{
    Change::DeleteEnv(id.to_string())
}

/// Finds an env by its name.
pub fn find_by_name(name: &str) -> (r: Statement)
    ensures
        r@ == (StatementView {
            sql:
                "SELECT id, name, kind, value, nonce, description, created_at, updated_at FROM envs WHERE name = ?1"@,
            params: seq![SqlValueView::Text(name@)],
        }),
{
    statement_with(
        "SELECT id, name, kind, value, nonce, description, created_at, updated_at FROM envs WHERE name = ?1",
        text_value(name),
    )
}

/// Reads an env.
pub fn get_by_id(id: &str) -> (r: Statement)
    ensures
        r@ == (StatementView {
            sql:
                "SELECT id, name, kind, value, nonce, description, created_at, updated_at FROM envs WHERE id = ?1"@,
            params: seq![SqlValueView::Text(id@)],
        }),
{
    statement_with(
        "SELECT id, name, kind, value, nonce, description, created_at, updated_at FROM envs WHERE id = ?1",
        text_value(id),
    )
}

/// Returns every stored env, ordered by id. Used by `inr export` to bundle
/// the full set of envs into a transfer file.
pub fn list_all() -> (r: Statement)
    ensures
        r@ == (StatementView {
            sql:
                "SELECT id, name, kind, value, nonce, description, created_at, updated_at FROM envs ORDER BY id ASC"@,
            params: Seq::empty(),
        }),
{
    plain_statement(
        "SELECT id, name, kind, value, nonce, description, created_at, updated_at FROM envs ORDER BY id ASC",
    )
}

/// The names of some kinds, as SQL literals.
pub open spec fn kind_literals(kinds: Seq<EnvKind>) -> Seq<Seq<char>> {
    Seq::new(kinds.len(), |i: int| "'"@ + kinds[i].text() + "'"@)
}

/// The condition that keeps a search to some kinds. Without kinds it keeps it
/// to none in particular.
pub open spec fn kind_clause(kinds: Seq<EnvKind>) -> Seq<char> {
    if kinds.len() == 0 {
        Seq::empty()
    } else {
        " AND kind IN ("@ + joined_by(kind_literals(kinds), ","@) + ")"@
    }
}

fn kind_clause_of(kinds: &[EnvKind]) -> (r: String)
    ensures
        r@ == kind_clause(kinds@),
{
    if kinds.len() == 0 {
        return String::new();
    }
    let mut literals: Vec<String> = Vec::new();
    let mut i: usize = 0;
    let ghost all = kind_literals(kinds@);
    assert(views(literals@) =~= all.take(0));
    while i < kinds.len()
        invariant
            i <= kinds.len(),
            all == kind_literals(kinds@),
            views(literals@) == all.take(i as int),
        decreases kinds.len() - i,
    {
        let mut literal = "'".to_string();
        literal.append(kinds[i].as_str());
        literal.append("'");
        assert(all[i as int] == literal@);
        literals.push(literal);
        assert(all.take(i + 1) =~= all.take(i as int).push(all[i as int]));
        i += 1;
    }
    assert(all.take(i as int) =~= all);
    let mut out = " AND kind IN (".to_string();
    out.append(&join_with(&literals, ","));
    out.append(")");
    out
}

/// The statement of a search for envs.
pub open spec fn search_envs_statement(
    raw_query: Seq<char>,
    kinds: Seq<EnvKind>,
    limit: i64,
) -> StatementView {
    if is_blank(raw_query) {
        StatementView {
            sql:
                "SELECT id, name, kind, value, nonce, description, created_at, updated_at FROM envs WHERE 1=1"@
                + kind_clause(kinds) + " ORDER BY updated_at DESC LIMIT ?1"@,
            params: seq![SqlValueView::Integer(limit)],
        }
    } else {
        StatementView {
            sql:
                "SELECT e.id, e.name, e.kind, e.value, e.nonce, e.description, e.created_at, e.updated_at
         FROM envs_fts f
         JOIN envs e ON e.rowid = f.rowid
         WHERE envs_fts MATCH ?1"@
                + kind_clause(kinds) + "
         ORDER BY f.rank
         LIMIT ?2"@,
            params: seq![
                SqlValueView::Text(fts_query(raw_query)),
                SqlValueView::Integer(limit),
            ],
        }
    }
}

/// Searches envs by name + description. Empty query returns the most
/// recently updated envs instead of an FTS5 match. `kind_filter`, when
/// non-empty, restricts results to those kinds - used by the `@` lookup
/// inside a command variable prompt so e.g. a %t: prompt can never surface
/// a secret env.
pub fn search_envs(raw_query: &str, kind_filter: &[EnvKind], limit: i64) -> (r: Statement)
    ensures
        r@ == search_envs_statement(raw_query@, kind_filter@, limit),
{
    let clause = kind_clause_of(kind_filter);
    if text_is_blank(raw_query) {
        let mut sql =
            "SELECT id, name, kind, value, nonce, description, created_at, updated_at FROM envs WHERE 1=1".to_string();
        sql.append(&clause);
        sql.append(" ORDER BY updated_at DESC LIMIT ?1");
        statement_with(&sql, SqlValue::Integer(limit))
    } else {
        let mut sql =
            "SELECT e.id, e.name, e.kind, e.value, e.nonce, e.description, e.created_at, e.updated_at
         FROM envs_fts f
         JOIN envs e ON e.rowid = f.rowid
         WHERE envs_fts MATCH ?1".to_string();
        sql.append(&clause);
        sql.append("
         ORDER BY f.rank
         LIMIT ?2");
        statement_with_two(
            &sql,
            SqlValue::Text(build_fts_query(raw_query)),
            SqlValue::Integer(limit),
        )
    }
}

/// An env is there after it was added, under its id and its name, and nothing
/// else has changed.
pub proof fn inserted_env_is_stored(v: VaultView, env: EnvView)
    requires
        !v.envs.contains_key(env.id),
        !v.has_env_named(env.name),
    ensures
        changed(v, ChangeView::InsertEnv(env)) matches Some(w) && {
            &&& w.envs == v.envs.insert(env.id, env)
            &&& w.has_env_named(env.name)
            &&& w.commands == v.commands
            &&& w.variables == v.variables
        },
{
    let w = changed(v, ChangeView::InsertEnv(env))->0;
    assert(w.envs.contains_key(env.id) && w.envs[env.id].name == env.name);
}

/// An env is gone after it was deleted, and its name is free again.
pub proof fn deleted_env_is_gone(v: VaultView, id: Seq<char>)
    requires
        v.well_formed(),
        v.envs.contains_key(id),
    ensures
        changed(v, ChangeView::DeleteEnv(id)) matches Some(w) && {
            &&& w.envs == v.envs.remove(id)
            &&& !w.has_env_named(v.envs[id].name)
            &&& w.commands == v.commands
            &&& w.variables == v.variables
        },
{
    let w = changed(v, ChangeView::DeleteEnv(id))->0;
    if w.has_env_named(v.envs[id].name) {
        let other = choose|other: Seq<char>| #[trigger]
            w.envs.contains_key(other) && w.envs[other].name == v.envs[id].name;
        assert(v.envs.contains_key(other));
    }
}

} // verus!
