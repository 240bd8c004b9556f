//! The database: its schema, the statements that change it, and those that
//! read it.

pub mod commands_repo;
pub mod env_repo;
pub mod history_repo;
pub mod vault;

use vstd::prelude::*;

use crate::error::VaultError;
use crate::text::copy_bytes;
#[allow(unused_imports)]
use crate::views::{group_views, opt_view, views};

verus! {

broadcast use {vstd::string::group_string_axioms, group_views};

/// Creates what is not there yet, and leaves alone what is.
pub const SCHEMA: &'static str = "
CREATE TABLE IF NOT EXISTS config (
    id INTEGER PRIMARY KEY CHECK (id = 1),
    kdf_salt BLOB NOT NULL,
    canary_nonce BLOB NOT NULL,
    canary_cipher BLOB NOT NULL,
    created_at TEXT NOT NULL
);

CREATE TABLE IF NOT EXISTS commands (
    id TEXT PRIMARY KEY,
    template TEXT NOT NULL,
    description TEXT NOT NULL,
    created_at TEXT NOT NULL,
    updated_at TEXT NOT NULL
);

CREATE TABLE IF NOT EXISTS command_variables (
    id INTEGER PRIMARY KEY AUTOINCREMENT,
    command_id TEXT NOT NULL REFERENCES commands(id) ON DELETE CASCADE,
    position INTEGER NOT NULL,
    kind TEXT NOT NULL,
    name TEXT NOT NULL,
    default_env_id TEXT,
    UNIQUE(command_id, name)
);

CREATE VIRTUAL TABLE IF NOT EXISTS commands_fts USING fts5(description, template);

CREATE TRIGGER IF NOT EXISTS commands_ai AFTER INSERT ON commands BEGIN
    INSERT INTO commands_fts(rowid, description, template) VALUES (new.rowid, new.description, new.template);
END;

CREATE TRIGGER IF NOT EXISTS commands_ad AFTER DELETE ON commands BEGIN
    DELETE FROM commands_fts WHERE rowid = old.rowid;
END;

CREATE TRIGGER IF NOT EXISTS commands_au AFTER UPDATE ON commands BEGIN
    UPDATE commands_fts SET description = new.description, template = new.template WHERE rowid = new.rowid;
END;

CREATE TABLE IF NOT EXISTS envs (
    id TEXT PRIMARY KEY,
    name TEXT NOT NULL UNIQUE,
    kind TEXT NOT NULL,
    value BLOB NOT NULL,
    nonce BLOB,
    description TEXT NOT NULL DEFAULT '',
    created_at TEXT NOT NULL,
    updated_at TEXT NOT NULL
);

CREATE VIRTUAL TABLE IF NOT EXISTS envs_fts USING fts5(name, description);

CREATE TRIGGER IF NOT EXISTS envs_ai AFTER INSERT ON envs BEGIN
    INSERT INTO envs_fts(rowid, name, description) VALUES (new.rowid, new.name, new.description);
END;

CREATE TRIGGER IF NOT EXISTS envs_ad AFTER DELETE ON envs BEGIN
    DELETE FROM envs_fts WHERE rowid = old.rowid;
END;

CREATE TRIGGER IF NOT EXISTS envs_au AFTER UPDATE ON envs BEGIN
    UPDATE envs_fts SET name = new.name, description = new.description WHERE rowid = new.rowid;
END;

CREATE TABLE IF NOT EXISTS history (
    id INTEGER PRIMARY KEY AUTOINCREMENT,
    command_id TEXT NOT NULL,
    template TEXT NOT NULL,
    executed_at TEXT NOT NULL,
    bindings TEXT NOT NULL
);
";

/// A value bound to a parameter of a statement, as a value.
pub enum SqlValueView {
    Null,
    Integer(i64),
    Text(Seq<char>),
    Blob(Seq<u8>),
}

/// A value bound to a parameter of a statement.
#[derive(Debug, PartialEq, Eq)]
pub enum SqlValue {
    Null,
    Integer(i64),
    Text(String),
    Blob(Vec<u8>),
}

impl View for SqlValue {
    type V = SqlValueView;

    open spec fn view(&self) -> SqlValueView {
        match self {
            SqlValue::Null => SqlValueView::Null,
            SqlValue::Integer(i) => SqlValueView::Integer(*i),
            SqlValue::Text(t) => SqlValueView::Text(t@),
            SqlValue::Blob(b) => SqlValueView::Blob(b@),
        }
    }
}

/// A statement with the values of its parameters, as a value.
pub struct StatementView {
    pub sql: Seq<char>,
    pub params: Seq<SqlValueView>,
}

/// A statement with the values of its parameters, `?1` first.
#[derive(Debug, PartialEq, Eq)]
pub struct Statement {
    pub sql: String,
    pub params: Vec<SqlValue>,
}

impl View for Statement {
    type V = StatementView;

    open spec fn view(&self) -> StatementView {
        StatementView { sql: self.sql@, params: views(self.params@) }
    }
}

/// A text, or NULL.
pub open spec fn opt_text(text: Option<Seq<char>>) -> SqlValueView {
    match text {
        Some(t) => SqlValueView::Text(t),
        None => SqlValueView::Null,
    }
}

/// Some bytes, or NULL.
pub open spec fn opt_blob(bytes: Option<Seq<u8>>) -> SqlValueView {
    match bytes {
        Some(b) => SqlValueView::Blob(b),
        None => SqlValueView::Null,
    }
}

/// Binds a text.
pub fn text_value(text: &str) -> (r: SqlValue)
    ensures
        r@ == SqlValueView::Text(text@),
{
    SqlValue::Text(text.to_string())
}

/// Binds a text or NULL.
pub fn opt_text_value(text: &Option<String>) -> (r: SqlValue)
    ensures
        r@ == opt_text(opt_view(*text)),
{
    match text {
        Some(t) => SqlValue::Text(t.clone()),
        None => SqlValue::Null,
    }
}

/// Binds some bytes.
pub fn blob_value(bytes: &Vec<u8>) -> (r: SqlValue)
    ensures
        r@ == SqlValueView::Blob(bytes@),
{
    SqlValue::Blob(copy_bytes(bytes.as_slice()))
}

/// Binds some bytes or NULL.
pub fn opt_blob_value(bytes: &Option<Vec<u8>>) -> (r: SqlValue)
    ensures
        r@ == opt_blob(opt_view(*bytes)),
{
    match bytes {
        Some(b) => SqlValue::Blob(copy_bytes(b.as_slice())),
        None => SqlValue::Null,
    }
}

/// A statement without parameters.
pub fn plain_statement(sql: &str) -> (r: Statement)
    ensures
        r@ == (StatementView { sql: sql@, params: Seq::empty() }),
{
    Statement { sql: sql.to_string(), params: Vec::new() }
}

/// A statement with one parameter.
pub fn statement_with(sql: &str, param: SqlValue) -> (r: Statement)
    ensures
        r@ == (StatementView { sql: sql@, params: seq![param@] }),
{
    let mut params: Vec<SqlValue> = Vec::new();
    params.push(param);
    assert(views(params@) =~= seq![param@]);
    Statement { sql: sql.to_string(), params }
}

/// A statement with two parameters.
pub fn statement_with_two(sql: &str, first: SqlValue, second: SqlValue) -> (r: Statement)
    ensures
        r@ == (StatementView { sql: sql@, params: seq![first@, second@] }),
{
    let mut params: Vec<SqlValue> = Vec::new();
    params.push(first);
    params.push(second);
    assert(views(params@) =~= seq![first@, second@]);
    Statement { sql: sql.to_string(), params }
}

/// Asks whether `command_variables` has the column for default envs.
pub fn default_env_column_query() -> (r: Statement)
    ensures
        r@ == (StatementView {
            sql:
                "SELECT 1 FROM pragma_table_info('command_variables') WHERE name = 'default_env_id'"@,
            params: Seq::empty(),
        }),
{
    plain_statement(
        "SELECT 1 FROM pragma_table_info('command_variables') WHERE name = 'default_env_id'",
    )
}

/// Adds columns introduced after a user's database was first created.
/// `CREATE TABLE IF NOT EXISTS` (in `SCHEMA`) is a no-op on a table that
/// already exists, so a pre-existing `command_variables` table never picks
/// up new columns on its own - this patches it in, once, idempotently.
/// Existing rows get NULL, which the rest of the code already treats as
/// "no default env set".
pub fn migrate_schema(has_default_env_id: bool) -> (r: Option<Statement>)
    ensures
        match r {
            Some(s) => !has_default_env_id && s@ == (StatementView {
                sql: "ALTER TABLE command_variables ADD COLUMN default_env_id TEXT"@,
                params: Seq::empty(),
            }),
            None => has_default_env_id,
        },
{
    if !has_default_env_id {
        Some(plain_statement("ALTER TABLE command_variables ADD COLUMN default_env_id TEXT"))
    } else {
        None
    }
}

/// Counts the vault's configurations: there is one or none.
pub fn config_count_query() -> (r: Statement)
    ensures
        r@ == (StatementView {
            sql: "SELECT COUNT(*) FROM config WHERE id = 1"@,
            params: Seq::empty(),
        }),
{
    plain_statement("SELECT COUNT(*) FROM config WHERE id = 1")
}

/// Whether the vault has been set up, given the count of its configurations.
pub fn is_initialized(config_count: i64) -> (r: bool)
    ensures
        r == (config_count > 0),
{
    config_count > 0
}

/// Refuses to work on a vault that has not been set up.
pub fn require_initialized(config_count: i64) -> (r: Result<(), VaultError>)
    ensures
        match r {
            Ok(()) => config_count > 0,
            Err(VaultError::NotInitialized) => config_count <= 0,
            Err(_) => false,
        },
{
    if is_initialized(config_count) {
        Ok(())
    } else {
        Err(VaultError::NotInitialized)
    }
}

/// Refuses to set up a vault a second time.
pub fn require_uninitialized(config_count: i64, path: &str) -> (r: Result<(), VaultError>)
    ensures
        match r {
            Ok(()) => config_count <= 0,
            Err(VaultError::AlreadyInitialized(p)) => config_count > 0 && p@ == path@,
            Err(_) => false,
        },
{
    if is_initialized(config_count) {
        Err(VaultError::AlreadyInitialized(path.to_string()))
    } else {
        Ok(())
    }
}

/// Whether a statement changed anything, given the number of rows it
/// affected.
pub fn any_affected(affected: usize) -> (r: bool)
    ensures
        r == (affected > 0),
{
    affected > 0
}

/// What the vault needs to tell the right master password, as a value.
pub struct ConfigView {
    pub kdf_salt: Seq<u8>,
    pub canary_nonce: Seq<u8>,
    pub canary_cipher: Seq<u8>,
}

#[derive(Debug)]
pub struct Config {
    pub kdf_salt: Vec<u8>,
    pub canary_nonce: Vec<u8>,
    pub canary_cipher: Vec<u8>,
}

impl View for Config {
    type V = ConfigView;

    open spec fn view(&self) -> ConfigView {
        ConfigView {
            kdf_salt: self.kdf_salt@,
            canary_nonce: self.canary_nonce@,
            canary_cipher: self.canary_cipher@,
        }
    }
}

/// Reads the configuration.
pub fn load_config() -> (r: Statement)
    ensures
        r@ == (StatementView {
            sql: "SELECT kdf_salt, canary_nonce, canary_cipher FROM config WHERE id = 1"@,
            params: Seq::empty(),
        }),
{
    plain_statement("SELECT kdf_salt, canary_nonce, canary_cipher FROM config WHERE id = 1")
}

/// The configuration that was read, if there is one.
pub fn require_config(config: Option<Config>) -> (r: Result<Config, VaultError>)
    ensures
        match r {
            Ok(cfg) => config == Some(cfg),
            Err(VaultError::NotInitialized) => config is None,
            Err(_) => false,
        },
{
    match config {
        Some(cfg) => Ok(cfg),
        None => Err(VaultError::NotInitialized),
    }
}

/// Stores the configuration. There can be only one.
pub fn save_config(cfg: &Config, created_at: &str) -> (r: Statement)
    ensures
        r@ == (StatementView {
            sql:
                "INSERT INTO config (id, kdf_salt, canary_nonce, canary_cipher, created_at) VALUES (1, ?1, ?2, ?3, ?4)"@,
            params: seq![
                SqlValueView::Blob(cfg.kdf_salt@),
                SqlValueView::Blob(cfg.canary_nonce@),
                SqlValueView::Blob(cfg.canary_cipher@),
                SqlValueView::Text(created_at@),
            ],
        }),
{
    let mut params: Vec<SqlValue> = Vec::new();
    params.push(blob_value(&cfg.kdf_salt));
    params.push(blob_value(&cfg.canary_nonce));
    params.push(blob_value(&cfg.canary_cipher));
    params.push(text_value(created_at));
    let r = Statement {
        sql:
            "INSERT INTO config (id, kdf_salt, canary_nonce, canary_cipher, created_at) VALUES (1, ?1, ?2, ?3, ?4)".to_string(),
        params,
    };
    assert(r@.params =~= seq![
        SqlValueView::Blob(cfg.kdf_salt@),
        SqlValueView::Blob(cfg.canary_nonce@),
        SqlValueView::Blob(cfg.canary_cipher@),
        SqlValueView::Text(created_at@),
    ]);
    r
}

} // verus!
