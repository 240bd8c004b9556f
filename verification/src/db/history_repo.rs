//! The record of past runs in the database.

use vstd::prelude::*;

use crate::db::{statement_with, text_value, SqlValue, Statement};
#[allow(unused_imports)]
use crate::db::{SqlValueView, StatementView};

verus! {

broadcast use vstd::string::group_string_axioms;

/// How many runs `inr h` shows.
pub const RECENT_RUNS: i64 = 20;

/// Records a run, with the serialized bindings of its variables.
pub fn insert_history(
    command_id: &str,
    template: &str,
    executed_at: &str,
    bindings_json: &str,
) -> (r: Statement)
    ensures
        r@ == (StatementView {
            sql:
                "INSERT INTO history (command_id, template, executed_at, bindings) VALUES (?1, ?2, ?3, ?4)"@,
            params: seq![
                SqlValueView::Text(command_id@),
                SqlValueView::Text(template@),
                SqlValueView::Text(executed_at@),
                SqlValueView::Text(bindings_json@),
            ],
        }),
{
    let mut params: Vec<SqlValue> = Vec::new();
    params.push(text_value(command_id));
    params.push(text_value(template));
    params.push(text_value(executed_at));
    params.push(text_value(bindings_json));
    let r = Statement {
        sql:
            "INSERT INTO history (command_id, template, executed_at, bindings) VALUES (?1, ?2, ?3, ?4)".to_string(),
        params,
    };
    assert(r@.params =~= seq![
        SqlValueView::Text(command_id@),
        SqlValueView::Text(template@),
        SqlValueView::Text(executed_at@),
        SqlValueView::Text(bindings_json@),
    ]);
    r
}

/// Reads the latest runs, newest first.
pub fn list_recent(limit: i64) -> (r: Statement)
    ensures
        r@ == (StatementView {
            sql:
                "SELECT id, command_id, template, executed_at, bindings FROM history ORDER BY id DESC LIMIT ?1"@,
            params: seq![SqlValueView::Integer(limit)],
        }),
{
    statement_with(
        "SELECT id, command_id, template, executed_at, bindings FROM history ORDER BY id DESC LIMIT ?1",
        SqlValue::Integer(limit),
    )
}

} // verus!
