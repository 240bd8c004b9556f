use inr::commands::import::conflicts::Resolutions;
use inr::commands::import::defaults::{apply_variable_defaults, links_summary, WantedDefault};
use inr::commands::import::diff::{diff_commands, diff_envs, CommandDiff, EnvDiff};
use inr::commands::import::plan::{
    build_stored_env, done_summary, insert_exported_command, plan_import,
};
use inr::crypto::{decrypt, derive_key, encrypt, random_salt, DerivedKey};
use inr::db::commands_repo::{
    delete_command, find_by_template, get_command, get_command_variables,
    get_variable_default_names, insert_command, search_commands, set_command_variables,
    set_default_env, update_command, update_command_and_variables, variables_from_rows,
    VariableRow,
};
use inr::db::env_repo::{
    delete_env, find_by_name, get_by_id, insert_env, map_row, search_envs, EnvRow,
};
use inr::db::history_repo::{insert_history, list_recent, RECENT_RUNS};
use inr::db::vault::Change;
use inr::db::{
    any_affected, config_count_query, default_env_column_query, is_initialized, load_config,
    migrate_schema, require_config, require_initialized, require_uninitialized, save_config,
    Config, SqlValue, Statement, SCHEMA,
};
use inr::error::VaultError;
use inr::models::{
    CmdVarKind, CmdVariable, EnvKind, HistoryBinding, StoredCommand, StoredCommandVariable,
    StoredEnv,
};
use inr::name_map::NameMap;
use inr::shell::BindingSource;
use inr::transfer::{ExportedCommand, ExportedEnv};
use inr::vars::{resolve_from_default_env, resolve_variable, KeyCache, Resolution};
use rusqlite::types::Value;
use rusqlite::{params_from_iter, Connection, Row};

const NOW: &str = "2026-01-01T00:00:00Z";

fn bound(param: &SqlValue) -> Value {
    match param {
        SqlValue::Null => Value::Null,
        SqlValue::Integer(n) => Value::Integer(*n),
        SqlValue::Text(text) => Value::Text(text.clone()),
        SqlValue::Blob(bytes) => Value::Blob(bytes.clone()),
    }
}

fn execute(conn: &Connection, statement: &Statement) -> rusqlite::Result<usize> {
    conn.execute(&statement.sql, params_from_iter(statement.params.iter().map(bound)))
}

fn rows<T>(
    conn: &Connection,
    statement: &Statement,
    read: impl Fn(&Row) -> rusqlite::Result<T>,
) -> rusqlite::Result<Vec<T>> {
    let mut prepared = conn.prepare(&statement.sql)?;
    let params = params_from_iter(statement.params.iter().map(bound));
    let found = prepared.query_map(params, |row| read(row))?;
    found.collect()
}

/// Makes the changes in one transaction. Gives the number of rows that the
/// last statement affected.
fn apply(conn: &Connection, changes: &[Change]) -> rusqlite::Result<usize> {
    let tx = conn.unchecked_transaction()?;
    let mut affected = 0;
    for change in changes {
        for statement in change.statements() {
            affected = execute(&tx, &statement)?;
        }
    }
    tx.commit()?;
    Ok(affected)
}

fn migrate(conn: &Connection) {
    let found = rows(conn, &default_env_column_query(), |row| row.get::<_, i64>(0)).unwrap();
    if let Some(statement) = migrate_schema(!found.is_empty()) {
        execute(conn, &statement).unwrap();
    }
}

fn init_schema(conn: &Connection) {
    conn.pragma_update(None, "foreign_keys", true).unwrap();
    conn.execute_batch(SCHEMA).unwrap();
    migrate(conn);
}

fn open_in_memory() -> Connection {
    let conn = Connection::open_in_memory().unwrap();
    init_schema(&conn);
    conn
}

fn config_count(conn: &Connection) -> i64 {
    rows(conn, &config_count_query(), |row| row.get(0)).unwrap()[0]
}

fn config(conn: &Connection) -> Option<Config> {
    rows(conn, &load_config(), |row| {
        Ok(Config {
            kdf_salt: row.get(0)?,
            canary_nonce: row.get(1)?,
            canary_cipher: row.get(2)?,
        })
    })
    .unwrap()
    .into_iter().next()
}

fn commands(conn: &Connection, statement: &Statement) -> rusqlite::Result<Vec<StoredCommand>> {
    rows(conn, statement, |row| {
        Ok(StoredCommand {
            id: row.get(0)?,
            template: row.get(1)?,
            description: row.get(2)?,
            created_at: row.get(3)?,
            updated_at: row.get(4)?,
        })
    })
}

fn command(conn: &Connection, id: &str) -> Option<StoredCommand> {
    commands(conn, &get_command(id)).unwrap().into_iter().next()
}

fn command_with_template(conn: &Connection, template: &str) -> Option<StoredCommand> {
    commands(conn, &find_by_template(template)).unwrap().into_iter().next()
}

fn variables(conn: &Connection, command_id: &str) -> Vec<StoredCommandVariable> {
    let found = rows(conn, &get_command_variables(command_id), |row| {
        Ok(VariableRow { kind: row.get(0)?, name: row.get(1)?, default_env_id: row.get(2)? })
    })
    .unwrap();
    variables_from_rows(found).unwrap()
}

fn envs(conn: &Connection, statement: &Statement) -> Vec<StoredEnv> {
    let found = rows(conn, statement, |row| {
        Ok(EnvRow {
            id: row.get(0)?,
            name: row.get(1)?,
            kind: row.get(2)?,
            value: row.get(3)?,
            nonce: row.get(4)?,
            description: row.get(5)?,
            created_at: row.get(6)?,
            updated_at: row.get(7)?,
        })
    })
    .unwrap();
    found.into_iter().map(|row| map_row(row).unwrap()).collect()
}

fn env_by_id(conn: &Connection, id: &str) -> Option<StoredEnv> {
    envs(conn, &get_by_id(id)).into_iter().next()
}

fn env_by_name(conn: &Connection, name: &str) -> Option<StoredEnv> {
    envs(conn, &find_by_name(name)).into_iter().next()
}

fn default_envs(conn: &Connection, vars: &[StoredCommandVariable]) -> Vec<Option<StoredEnv>> {
    vars.iter()
        .map(|v| v.default_env_id.as_ref().and_then(|id| env_by_id(conn, id)))
        .collect()
}

fn sample(id: &str, template: &str, description: &str) -> StoredCommand {
    StoredCommand {
        id: id.to_string(),
        template: template.to_string(),
        description: description.to_string(),
        created_at: NOW.to_string(),
        updated_at: NOW.to_string(),
    }
}

fn var(kind: CmdVarKind, name: &str) -> CmdVariable {
    CmdVariable { kind, name: name.to_string() }
}

fn sample_env(id: &str, name: &str, kind: EnvKind) -> StoredEnv {
    StoredEnv {
        id: id.to_string(),
        name: name.to_string(),
        kind,
        value: b"value".to_vec(),
        nonce: None,
        description: format!("{name} description"),
        created_at: NOW.to_string(),
        updated_at: NOW.to_string(),
    }
}

fn text_env(id: &str, name: &str, value: &str) -> StoredEnv {
    StoredEnv {
        id: id.to_string(),
        name: name.to_string(),
        kind: EnvKind::Text,
        value: value.as_bytes().to_vec(),
        nonce: None,
        description: String::new(),
        created_at: NOW.to_string(),
        updated_at: NOW.to_string(),
    }
}

fn exported_command(template: &str, description: &str) -> ExportedCommand {
    ExportedCommand {
        id: "cmd1".to_string(),
        template: template.to_string(),
        description: description.to_string(),
        created_at: NOW.to_string(),
        updated_at: NOW.to_string(),
        variable_defaults: NameMap::new(),
    }
}

fn exported_env(name: &str, kind: &str, value: &str) -> ExportedEnv {
    ExportedEnv {
        id: "env1".to_string(),
        name: name.to_string(),
        kind: kind.to_string(),
        value: value.to_string(),
        description: "desc".to_string(),
        created_at: NOW.to_string(),
        updated_at: NOW.to_string(),
    }
}

fn command_diff(conn: &Connection, incoming: &[ExportedCommand]) -> CommandDiff {
    let locals: Vec<Option<StoredCommand>> =
        incoming.iter().map(|ec| command_with_template(conn, &ec.template)).collect();
    diff_commands(incoming, &locals)
}

fn env_diff(conn: &Connection, incoming: &[ExportedEnv], key: Option<&DerivedKey>) -> EnvDiff {
    let locals: Vec<Option<StoredEnv>> =
        incoming.iter().map(|ee| env_by_name(conn, &ee.name)).collect();
    diff_envs(incoming, &locals, key).ok().unwrap()
}

fn insert_exported(conn: &Connection, ec: ExportedCommand) {
    let mut changes = Vec::new();
    insert_exported_command(&mut changes, &ec).unwrap();
    apply(conn, &changes).unwrap();
}

#[test]
fn schema_initializes_cleanly() {
    let conn = open_in_memory();
    assert!(!is_initialized(config_count(&conn)));
}

#[test]
fn schema_is_idempotent() {
    let conn = open_in_memory();
    init_schema(&conn);
    init_schema(&conn);
}

#[test]
fn save_and_load_config_roundtrip() {
    let conn = open_in_memory();
    let cfg = Config {
        kdf_salt: vec![1, 2, 3],
        canary_nonce: vec![4, 5, 6],
        canary_cipher: vec![7, 8, 9],
    };
    execute(&conn, &save_config(&cfg, "2026-01-01T00:00:00Z")).unwrap();
    assert!(is_initialized(config_count(&conn)));
    let loaded = config(&conn).unwrap();
    assert_eq!(loaded.kdf_salt, vec![1, 2, 3]);
    assert_eq!(loaded.canary_nonce, vec![4, 5, 6]);
    assert_eq!(loaded.canary_cipher, vec![7, 8, 9]);
    // There can be only one.
    assert!(execute(&conn, &save_config(&cfg, "2026-01-01T00:00:00Z")).is_err());
}

#[test]
fn commands_that_need_a_password_ask_for_a_set_up_vault() {
    let conn = open_in_memory();
    assert_eq!(require_initialized(config_count(&conn)), Err(VaultError::NotInitialized));
    assert_eq!(require_uninitialized(config_count(&conn), "/inr.db"), Ok(()));
    assert_eq!(require_config(config(&conn)).err(), Some(VaultError::NotInitialized));
    let cfg = Config { kdf_salt: vec![1], canary_nonce: vec![2], canary_cipher: vec![3] };
    execute(&conn, &save_config(&cfg, NOW)).unwrap();
    assert_eq!(require_initialized(config_count(&conn)), Ok(()));
    assert_eq!(
        require_uninitialized(config_count(&conn), "/inr.db"),
        Err(VaultError::AlreadyInitialized("/inr.db".to_string()))
    );
    assert!(require_config(config(&conn)).is_ok());
}

#[test]
fn migrate_schema_adds_default_env_id_to_pre_existing_db() {
    let conn = Connection::open_in_memory().unwrap();
    conn.execute_batch(
        "CREATE TABLE commands (
            id TEXT PRIMARY KEY,
            template TEXT NOT NULL,
            description TEXT NOT NULL,
            created_at TEXT NOT NULL,
            updated_at TEXT NOT NULL
        );
        CREATE TABLE command_variables (
            id INTEGER PRIMARY KEY AUTOINCREMENT,
            command_id TEXT NOT NULL,
            position INTEGER NOT NULL,
            kind TEXT NOT NULL,
            name TEXT NOT NULL
        );",
    )
    .unwrap();

    migrate(&conn);

    let has_column: bool = conn
        .prepare("SELECT 1 FROM pragma_table_info('command_variables') WHERE name = 'default_env_id'")
        .unwrap()
        .exists([])
        .unwrap();
    assert!(has_column);
}

#[test]
fn migrate_schema_is_idempotent_when_column_already_present() {
    let conn = open_in_memory();
    migrate(&conn);
    migrate(&conn);
}

#[test]
fn insert_and_get_roundtrip_with_variables() {
    let conn = open_in_memory();
    let vars = vec![var(CmdVarKind::Secret, "host")];
    apply(&conn, &insert_command(&sample("id1", "ssh %s:host", "connect to server"), &vars))
        .unwrap();

    let fetched = command(&conn, "id1").unwrap();
    assert_eq!(fetched.template, "ssh %s:host");

    let fetched_vars = variables(&conn, "id1");
    assert_eq!(fetched_vars.len(), 1);
    assert_eq!(fetched_vars[0].var, vars[0]);
    assert_eq!(fetched_vars[0].default_env_id, None);
}

#[test]
fn set_default_env_updates_only_the_named_variable() {
    let conn = open_in_memory();
    let vars = vec![var(CmdVarKind::Secret, "host"), var(CmdVarKind::Text, "user")];
    apply(&conn, &insert_command(&sample("id1", "ssh %s:host@%t:user", "ssh"), &vars)).unwrap();

    apply(&conn, &[set_default_env("id1", "host", Some("env1".to_string()))]).unwrap();

    let fetched = variables(&conn, "id1");
    let host = fetched.iter().find(|v| v.var.name == "host").unwrap();
    let user = fetched.iter().find(|v| v.var.name == "user").unwrap();
    assert_eq!(host.default_env_id, Some("env1".to_string()));
    assert_eq!(user.default_env_id, None);

    apply(&conn, &[set_default_env("id1", "host", None)]).unwrap();
    let fetched = variables(&conn, "id1");
    assert_eq!(fetched.iter().find(|v| v.var.name == "host").unwrap().default_env_id, None);
}

#[test]
fn set_command_variables_carries_default_when_name_and_kind_match() {
    let conn = open_in_memory();
    let vars = vec![var(CmdVarKind::Text, "host")];
    apply(&conn, &insert_command(&sample("id1", "ping %t:host", "ping"), &vars)).unwrap();
    apply(&conn, &[set_default_env("id1", "host", Some("env1".to_string()))]).unwrap();

    let previous = variables(&conn, "id1");
    let new_vars = vec![var(CmdVarKind::Text, "host"), var(CmdVarKind::Number, "count")];
    apply(&conn, &[set_command_variables("id1", &new_vars, &previous)]).unwrap();

    let fetched = variables(&conn, "id1");
    assert_eq!(fetched.len(), 2);
    assert_eq!(fetched[0].var.name, "host");
    assert_eq!(fetched[0].default_env_id, Some("env1".to_string()));
    assert_eq!(fetched[1].var.name, "count");
    assert_eq!(fetched[1].default_env_id, None);
}

#[test]
fn set_command_variables_drops_default_when_kind_changes() {
    let conn = open_in_memory();
    let vars = vec![var(CmdVarKind::Text, "count")];
    apply(&conn, &insert_command(&sample("id1", "echo %t:count", "echo"), &vars)).unwrap();
    apply(&conn, &[set_default_env("id1", "count", Some("env1".to_string()))]).unwrap();

    let previous = variables(&conn, "id1");
    let new_vars = vec![var(CmdVarKind::Number, "count")];
    apply(&conn, &[set_command_variables("id1", &new_vars, &previous)]).unwrap();

    let fetched = variables(&conn, "id1");
    assert_eq!(fetched[0].default_env_id, None);
}

#[test]
fn update_command_and_variables_updates_both_in_one_transaction() {
    let conn = open_in_memory();
    let vars = vec![var(CmdVarKind::Text, "host"), var(CmdVarKind::Number, "port")];
    apply(&conn, &insert_command(&sample("id1", "ping %t:host %n:port", "ping"), &vars)).unwrap();
    apply(&conn, &[set_default_env("id1", "host", Some("env1".to_string()))]).unwrap();

    let previous = variables(&conn, "id1");
    // "port" is dropped, "host" is kept (and should carry its default
    // env forward), "count" is a brand new variable.
    let new_vars = vec![var(CmdVarKind::Text, "host"), var(CmdVarKind::Number, "count")];

    apply(
        &conn,
        &update_command_and_variables(
            "id1",
            "ping %t:host %n:count",
            "ping new",
            "2026-02-01T00:00:00Z",
            &new_vars,
            &previous,
        ),
    )
    .unwrap();

    let fetched_cmd = command(&conn, "id1").unwrap();
    assert_eq!(fetched_cmd.template, "ping %t:host %n:count");
    assert_eq!(fetched_cmd.description, "ping new");
    assert_eq!(fetched_cmd.updated_at, "2026-02-01T00:00:00Z");
    assert_eq!(fetched_cmd.created_at, NOW);

    let fetched_vars = variables(&conn, "id1");
    assert_eq!(fetched_vars.len(), 2);
    let host = fetched_vars.iter().find(|v| v.var.name == "host").unwrap();
    assert_eq!(host.default_env_id, Some("env1".to_string()));
    let count = fetched_vars.iter().find(|v| v.var.name == "count").unwrap();
    assert_eq!(count.default_env_id, None);
}

#[test]
fn update_command_changes_template_and_description() {
    let conn = open_in_memory();
    apply(&conn, &insert_command(&sample("id1", "echo old", "old desc"), &[])).unwrap();

    apply(&conn, &[update_command("id1", "echo new", "new desc", "2026-02-01T00:00:00Z")]).unwrap();

    let fetched = command(&conn, "id1").unwrap();
    assert_eq!(fetched.template, "echo new");
    assert_eq!(fetched.description, "new desc");
    assert_eq!(fetched.updated_at, "2026-02-01T00:00:00Z");
}

#[test]
fn get_variable_default_names_only_includes_resolvable_defaults() {
    let conn = open_in_memory();
    let vars = vec![var(CmdVarKind::Text, "host"), var(CmdVarKind::Text, "user")];
    apply(&conn, &insert_command(&sample("id1", "ssh %t:host@%t:user", "ssh"), &vars)).unwrap();
    apply(&conn, &[insert_env(&text_env("env1", "myhost", "example.com"))]).unwrap();

    apply(&conn, &[set_default_env("id1", "host", Some("env1".to_string()))]).unwrap();
    // "user" points at an id that doesn't exist - must be skipped, not error.
    apply(&conn, &[set_default_env("id1", "user", Some("does-not-exist".to_string()))]).unwrap();

    let stored = variables(&conn, "id1");
    let names = get_variable_default_names(&stored, &default_envs(&conn, &stored));
    assert_eq!(names.len(), 1);
    assert_eq!(names.get("host"), Some(&"myhost".to_string()));
}

#[test]
fn delete_removes_command_and_cascades_variables() {
    let conn = open_in_memory();
    let vars = vec![var(CmdVarKind::Text, "msg")];
    apply(&conn, &insert_command(&sample("id1", "echo %t:msg", "say something"), &vars)).unwrap();

    assert!(any_affected(apply(&conn, &[delete_command("id1")]).unwrap()));
    assert!(command(&conn, "id1").is_none());
    assert!(variables(&conn, "id1").is_empty());
}

#[test]
fn find_by_template_matches_exact_text() {
    let conn = open_in_memory();
    apply(&conn, &insert_command(&sample("id1", "ssh %s:host", "connect"), &[])).unwrap();

    assert_eq!(command_with_template(&conn, "ssh %s:host").unwrap().id, "id1");
    assert!(command_with_template(&conn, "ssh %s:other").is_none());
}

#[test]
fn list_all_returns_every_command() {
    let conn = open_in_memory();
    apply(&conn, &insert_command(&sample("id1", "echo a", "a"), &[])).unwrap();
    apply(&conn, &insert_command(&sample("id2", "echo b", "b"), &[])).unwrap();

    let all = commands(&conn, &inr::db::commands_repo::list_all()).unwrap();
    assert_eq!(all.len(), 2);
}

#[test]
fn delete_nonexistent_returns_false() {
    let conn = open_in_memory();
    assert!(!any_affected(apply(&conn, &[delete_command("nope")]).unwrap()));
}

#[test]
fn search_matches_description_and_template() {
    let conn = open_in_memory();
    apply(
        &conn,
        &insert_command(&sample("id1", "docker compose up -d", "restart the dev stack"), &[]),
    )
    .unwrap();
    apply(&conn, &insert_command(&sample("id2", "ls -la", "list files"), &[])).unwrap();

    let by_description = commands(&conn, &search_commands("restart", 10)).unwrap();
    assert_eq!(by_description.len(), 1);
    assert_eq!(by_description[0].id, "id1");

    let by_template = commands(&conn, &search_commands("docker", 10)).unwrap();
    assert_eq!(by_template.len(), 1);
    assert_eq!(by_template[0].id, "id1");
}

#[test]
fn search_handles_fts5_special_characters_without_error() {
    let conn = open_in_memory();
    apply(&conn, &insert_command(&sample("id1", "echo hi", "test \"quoted\""), &[])).unwrap();

    // characters like " * ( ) that have FTS5 syntax meaning must not
    // cause a query error - build_fts_query escapes/quotes them
    let result = commands(&conn, &search_commands("\"weird* (query)", 10));
    assert!(result.is_ok());
    for query in ["\"", "\"\"", "a\"b", "*", "(", ")", "AND", "NOT", "a OR", "^x", "col:x", "'", "-"] {
        assert!(commands(&conn, &search_commands(query, 10)).is_ok(), "{query:?}");
    }
}

#[test]
fn empty_query_returns_recent_commands() {
    let conn = open_in_memory();
    apply(&conn, &insert_command(&sample("id1", "echo hi", "greet"), &[])).unwrap();
    let results = commands(&conn, &search_commands("", 10)).unwrap();
    assert_eq!(results.len(), 1);
}

#[test]
fn search_matches_prefixes_and_keeps_to_its_limit() {
    let conn = open_in_memory();
    for i in 0..12 {
        let id = format!("id{i}");
        apply(&conn, &insert_command(&sample(&id, "docker ps", "list"), &[])).unwrap();
    }
    assert_eq!(commands(&conn, &search_commands("dock", 10)).unwrap().len(), 10);
    assert_eq!(commands(&conn, &search_commands("  ", 10)).unwrap().len(), 10);
    assert_eq!(commands(&conn, &search_commands("dock lis", 20)).unwrap().len(), 12);
    assert!(commands(&conn, &search_commands("dock nothing", 20)).unwrap().is_empty());
}

#[test]
fn edited_and_deleted_commands_are_searched_as_they_are() {
    let conn = open_in_memory();
    apply(&conn, &insert_command(&sample("id1", "echo old", "before"), &[])).unwrap();
    apply(&conn, &[update_command("id1", "echo new", "after", NOW)]).unwrap();
    assert!(commands(&conn, &search_commands("before", 10)).unwrap().is_empty());
    assert_eq!(commands(&conn, &search_commands("after", 10)).unwrap().len(), 1);
    apply(&conn, &[delete_command("id1")]).unwrap();
    assert!(commands(&conn, &search_commands("after", 10)).unwrap().is_empty());
}

#[test]
fn a_command_id_is_taken_once() {
    let conn = open_in_memory();
    apply(&conn, &insert_command(&sample("id1", "echo a", "a"), &[])).unwrap();
    assert!(apply(&conn, &insert_command(&sample("id1", "echo b", "b"), &[])).is_err());
    assert_eq!(command(&conn, "id1").unwrap().template, "echo a");
}

#[test]
fn a_failed_transaction_changes_nothing() {
    let conn = open_in_memory();
    apply(&conn, &[insert_env(&text_env("env1", "user", "alice"))]).unwrap();
    let mut changes = insert_command(&sample("id1", "echo a", "a"), &[]);
    changes.push(insert_env(&text_env("env2", "user", "bob")));
    assert!(apply(&conn, &changes).is_err());
    assert!(command(&conn, "id1").is_none());
    assert!(env_by_id(&conn, "env2").is_none());
}

#[test]
fn unknown_kinds_in_the_database_are_errors() {
    let row = VariableRow {
        kind: "colour".to_string(),
        name: "x".to_string(),
        default_env_id: None,
    };
    assert_eq!(
        variables_from_rows(vec![row]).err(),
        Some(VaultError::UnknownCommandVariableKind("colour".to_string()))
    );
    let row = EnvRow {
        id: "id1".to_string(),
        name: "x".to_string(),
        kind: "colour".to_string(),
        value: vec![],
        nonce: None,
        description: String::new(),
        created_at: NOW.to_string(),
        updated_at: NOW.to_string(),
    };
    assert_eq!(map_row(row).err(), Some(VaultError::UnknownEnvKind("colour".to_string())));
}

#[test]
fn insert_and_find_by_name_roundtrip() {
    let conn = open_in_memory();
    apply(&conn, &[insert_env(&sample_env("id1", "apikey", EnvKind::Secret))]).unwrap();
    let found = env_by_name(&conn, "apikey").unwrap();
    assert_eq!(found.id, "id1");
    assert_eq!(found.kind, EnvKind::Secret);
}

#[test]
fn name_uniqueness_is_enforced_by_schema() {
    let conn = open_in_memory();
    apply(&conn, &[insert_env(&sample_env("id1", "apikey", EnvKind::Secret))]).unwrap();
    let err = apply(&conn, &[insert_env(&sample_env("id2", "apikey", EnvKind::Text))]).unwrap_err();
    assert!(err.to_string().to_lowercase().contains("unique"));
}

#[test]
fn list_all_returns_every_env() {
    let conn = open_in_memory();
    apply(&conn, &[insert_env(&sample_env("id1", "apikey", EnvKind::Secret))]).unwrap();
    apply(&conn, &[insert_env(&sample_env("id2", "username", EnvKind::Text))]).unwrap();
    assert_eq!(envs(&conn, &inr::db::env_repo::list_all()).len(), 2);
}

#[test]
fn delete_removes_env() {
    let conn = open_in_memory();
    apply(&conn, &[insert_env(&sample_env("id1", "apikey", EnvKind::Secret))]).unwrap();
    assert!(any_affected(apply(&conn, &[delete_env("id1")]).unwrap()));
    assert!(env_by_name(&conn, "apikey").is_none());
}

#[test]
fn search_filters_by_compatible_kind() {
    let conn = open_in_memory();
    apply(&conn, &[insert_env(&sample_env("id1", "apikey", EnvKind::Secret))]).unwrap();
    apply(&conn, &[insert_env(&sample_env("id2", "username", EnvKind::Text))]).unwrap();

    let secrets_only = envs(&conn, &search_envs("", &[EnvKind::Secret], 10));
    assert_eq!(secrets_only.len(), 1);
    assert_eq!(secrets_only[0].id, "id1");

    let all = envs(&conn, &search_envs("", &[], 10));
    assert_eq!(all.len(), 2);

    // The filter holds with a query too.
    assert!(envs(&conn, &search_envs("apikey", &[EnvKind::Text], 10)).is_empty());
    let numbers = [EnvKind::NumberFloat, EnvKind::NumberInt];
    assert!(envs(&conn, &search_envs("description", &numbers, 10)).is_empty());
    assert_eq!(envs(&conn, &search_envs("description", &[EnvKind::Secret], 10)).len(), 1);
}

#[test]
fn search_matches_name_and_description() {
    let conn = open_in_memory();
    apply(&conn, &[insert_env(&sample_env("id1", "apikey", EnvKind::Secret))]).unwrap();
    let results = envs(&conn, &search_envs("apikey", &[], 10));
    assert_eq!(results.len(), 1);
}

fn history(conn: &Connection, limit: i64) -> Vec<(i64, String, serde_json::Value)> {
    rows(conn, &list_recent(limit), |row| {
        Ok((row.get(0)?, row.get(1)?, row.get::<_, String>(4)?))
    })
    .unwrap()
    .into_iter()
    .map(|(id, command_id, json)| (id, command_id, serde_json::from_str(&json).unwrap()))
    .collect()
}

fn bindings_json(bindings: &[HistoryBinding]) -> String {
    let mut list = Vec::new();
    for binding in bindings {
        let mut fields = serde_json::Map::new();
        for (name, value) in [
            ("name", &binding.name),
            ("kind", &binding.kind),
            ("display", &binding.display),
        ] {
            fields.insert(name.to_string(), serde_json::Value::String(value.clone()));
        }
        list.push(serde_json::Value::Object(fields));
    }
    serde_json::to_string(&list).unwrap()
}

#[test]
fn insert_and_list_roundtrip_never_leaks_secret_value() {
    let conn = open_in_memory();
    let bindings = vec![
        HistoryBinding {
            name: "host".into(),
            kind: "secret".into(),
            display: "@prod-server".into(),
        },
        HistoryBinding {
            name: "message".into(),
            kind: "text".into(),
            display: "hello team".into(),
        },
    ];
    let json = bindings_json(&bindings);
    execute(&conn, &insert_history("cmd1", "ssh %s:host", "2026-01-01T00:00:00Z", &json)).unwrap();

    let entries = history(&conn, 10);
    assert_eq!(entries.len(), 1);
    assert_eq!(entries[0].2.as_array().unwrap().len(), 2);
    assert_eq!(entries[0].2[0]["display"], "@prod-server");
}

#[test]
fn list_recent_orders_newest_first() {
    let conn = open_in_memory();
    execute(&conn, &insert_history("cmd1", "echo a", "2026-01-01T00:00:00Z", "[]")).unwrap();
    execute(&conn, &insert_history("cmd2", "echo b", "2026-01-02T00:00:00Z", "[]")).unwrap();

    let entries = history(&conn, 10);
    assert_eq!(entries[0].1, "cmd2");
    assert_eq!(entries[1].1, "cmd1");
    assert_eq!(history(&conn, 1).len(), 1);
    assert_eq!(RECENT_RUNS, 20);
}

#[test]
fn resolve_variable_uses_default_env_without_prompting_for_text_kind() {
    let conn = open_in_memory();
    apply(&conn, &[insert_env(&text_env("env1", "username", "alice"))]).unwrap();
    let keys = KeyCache::new();

    let stored = StoredCommandVariable {
        var: var(CmdVarKind::Text, "user"),
        default_env_id: Some("env1".to_string()),
    };

    let Resolution::UseEnv(env) = resolve_variable(&stored, env_by_id(&conn, "env1")) else {
        panic!("the default env is there");
    };
    let resolved = resolve_from_default_env(&keys, &stored.var, &env).ok().unwrap();
    assert_eq!(resolved.value.as_str(), "alice");
    assert_eq!(resolved.source, BindingSource::Env("username".to_string()));
}

#[test]
fn resolve_variable_uses_default_env_for_secret_and_decrypts_with_preloaded_key() {
    let conn = open_in_memory();
    let salt = random_salt().unwrap();
    let key = derive_key("hunter2", &salt).unwrap();
    let (nonce, cipher) = encrypt(&key, b"sk-secret").unwrap();
    let env = StoredEnv {
        id: "env1".to_string(),
        name: "apikey".to_string(),
        kind: EnvKind::Secret,
        value: cipher,
        nonce: Some(nonce.to_vec()),
        description: String::new(),
        created_at: "2026-01-01T00:00:00Z".to_string(),
        updated_at: "2026-01-01T00:00:00Z".to_string(),
    };
    apply(&conn, &[insert_env(&env)]).unwrap();
    let keys = KeyCache::preloaded(key);

    let stored = StoredCommandVariable {
        var: var(CmdVarKind::Secret, "token"),
        default_env_id: Some("env1".to_string()),
    };

    let Resolution::UseEnv(env) = resolve_variable(&stored, env_by_id(&conn, "env1")) else {
        panic!("the default env is there");
    };
    let resolved = resolve_from_default_env(&keys, &stored.var, &env).ok().unwrap();
    assert_eq!(resolved.value.as_str(), "sk-secret");
    assert_eq!(resolved.source, BindingSource::Env("apikey".to_string()));
}

#[test]
fn diff_commands_classifies_new_identical_and_conflicting() {
    let conn = open_in_memory();
    insert_exported(&conn, exported_command("echo %t:msg", "say hi"));

    let incoming = vec![
        exported_command("echo %t:msg", "say hi"), // identical
        exported_command("echo %t:msg", "greet"),  // conflict (same template, diff desc)
        exported_command("ls -la", "list files"),  // new
    ];

    let diff = command_diff(&conn, &incoming);
    assert_eq!(diff.new_commands.len(), 1);
    assert_eq!(diff.new_commands[0].template, "ls -la");
    assert_eq!(diff.conflicts.len(), 1);
    assert_eq!(diff.conflicts[0].incoming.description, "greet");
    assert_eq!(diff.identical, 1);
}

#[test]
fn diff_envs_classifies_new_identical_and_conflicting_for_plain_envs() {
    let conn = open_in_memory();
    let env = build_stored_env(&exported_env("username", "text", "alice"), None).unwrap();
    apply(&conn, &[insert_env(&env)]).unwrap();

    let incoming = vec![
        exported_env("username", "text", "alice"), // identical
        exported_env("username", "text", "bob"),   // this alone would conflict, but name repeats
    ];
    // Split into two separate diff calls to avoid a same-name payload,
    // which isn't a case `inr export` ever produces.
    let first = env_diff(&conn, &incoming[..1], None);
    assert!(first.new_envs.is_empty());
    assert!(first.conflicts.is_empty());
    assert_eq!(first.identical, 1);

    let second = env_diff(&conn, &incoming[1..], None);
    assert!(second.new_envs.is_empty());
    assert_eq!(second.conflicts.len(), 1);
    assert_eq!(second.conflicts[0].local_value, "alice");
    assert_eq!(second.conflicts[0].incoming.value, "bob");
    assert_eq!(second.identical, 0);

    let third = env_diff(&conn, &[exported_env("apitoken", "text", "x")], None);
    assert_eq!(third.new_envs.len(), 1);
}

#[test]
fn diff_envs_compares_decrypted_secret_values() {
    let conn = open_in_memory();
    let salt = random_salt().unwrap();
    let key = derive_key("dest-master-password", &salt).unwrap();
    let env = build_stored_env(&exported_env("apikey", "secret", "sk-old"), Some(&key)).unwrap();
    apply(&conn, &[insert_env(&env)]).unwrap();

    let diff = env_diff(&conn, &[exported_env("apikey", "secret", "sk-new")], Some(&key));
    assert_eq!(diff.identical, 0);
    assert_eq!(diff.conflicts.len(), 1);
    assert_eq!(diff.conflicts[0].local_value, "sk-old");

    let diff = env_diff(&conn, &[exported_env("apikey", "secret", "sk-old")], Some(&key));
    assert_eq!(diff.identical, 1);
    assert!(diff.conflicts.is_empty());
}

#[test]
fn build_stored_env_encrypts_secrets_and_leaves_plain_kinds_untouched() {
    let salt = random_salt().unwrap();
    let key = derive_key("pw", &salt).unwrap();

    let secret_env =
        build_stored_env(&exported_env("apikey", "secret", "sk-live-123"), Some(&key)).unwrap();
    assert_ne!(secret_env.value, b"sk-live-123".to_vec());
    assert!(secret_env.nonce.is_some());
    let decrypted =
        decrypt(&key, secret_env.nonce.as_ref().unwrap(), &secret_env.value).unwrap();
    assert_eq!(decrypted.as_slice(), b"sk-live-123");

    let text_env = build_stored_env(&exported_env("username", "text", "alice"), None).unwrap();
    assert_eq!(text_env.value, b"alice".to_vec());
    assert!(text_env.nonce.is_none());

    let unknown = build_stored_env(&exported_env("username", "colour", "red"), None);
    assert_eq!(unknown.err(), Some(VaultError::UnknownEnvKind("colour".to_string())));
}

#[test]
fn insert_exported_command_derives_variables_from_template() {
    let conn = open_in_memory();
    insert_exported(&conn, exported_command("ssh %s:host -p %n:port", "connect"));

    let vars = variables(&conn, "cmd1");
    assert_eq!(vars.len(), 2);
    assert_eq!(vars[0].var.name, "host");
    assert_eq!(vars[1].var.name, "port");
}

fn default_command(conn: &Connection, template: &str) {
    insert_exported(conn, exported_command(template, "desc"));
}

#[test]
fn apply_variable_defaults_links_when_compatible_env_exists_locally() {
    let conn = open_in_memory();
    default_command(&conn, "ping %t:host");
    apply(&conn, &[insert_env(&text_env("env9", "prod-host", "example.com"))]).unwrap();
    let wanted = vec![WantedDefault {
        var_name: "host".to_string(),
        env: env_by_name(&conn, "prod-host"),
    }];

    let links = apply_variable_defaults("cmd1", &variables(&conn, "cmd1"), &wanted);
    assert_eq!((links.linked, links.skipped), (1, 0));
    apply(&conn, &links.changes).unwrap();
    assert_eq!(variables(&conn, "cmd1")[0].default_env_id, Some("env9".to_string()));
}

#[test]
fn apply_variable_defaults_skips_when_no_matching_env_locally() {
    let conn = open_in_memory();
    default_command(&conn, "ping %t:host");
    let wanted = vec![WantedDefault {
        var_name: "host".to_string(),
        env: env_by_name(&conn, "prod-host"),
    }];

    let links = apply_variable_defaults("cmd1", &variables(&conn, "cmd1"), &wanted);
    assert_eq!((links.linked, links.skipped), (0, 1));
    assert!(links.changes.is_empty());
    assert_eq!(variables(&conn, "cmd1")[0].default_env_id, None);
}

#[test]
fn apply_variable_defaults_skips_when_local_env_kind_is_incompatible() {
    let conn = open_in_memory();
    default_command(&conn, "ping %t:host");
    apply(&conn, &[insert_env(&sample_env("env9", "prod-host", EnvKind::Secret))]).unwrap();
    let wanted = vec![WantedDefault {
        var_name: "host".to_string(),
        env: env_by_name(&conn, "prod-host"),
    }];

    let links = apply_variable_defaults("cmd1", &variables(&conn, "cmd1"), &wanted);
    assert_eq!((links.linked, links.skipped), (0, 1));
    assert!(links.changes.is_empty());
}

#[test]
fn links_are_reported_if_there_were_any() {
    assert_eq!(links_summary(0, 0), None);
    assert_eq!(
        links_summary(2, 1),
        Some(
            "Linked 2 default env setting(s); skipped 1 (no matching compatible env on this machine)."
                .to_string()
        )
    );
}

#[test]
fn an_import_replaces_what_was_decided_and_keeps_the_rest() {
    let conn = open_in_memory();
    apply(&conn, &insert_command(&sample("l1", "echo %t:msg", "mine"), &[])).unwrap();
    apply(&conn, &insert_command(&sample("l2", "date", "mine"), &[])).unwrap();
    apply(&conn, &insert_command(&sample("l3", "uptime", "untouched"), &[])).unwrap();
    apply(&conn, &[insert_env(&text_env("e1", "user", "alice"))]).unwrap();

    let mut first = exported_command("echo %t:msg", "theirs");
    first.id = "i1".to_string();
    let mut second = exported_command("date", "theirs");
    second.id = "i2".to_string();
    let mut third = exported_command("ls", "new");
    third.id = "i3".to_string();
    let commands_found = command_diff(&conn, &[first, second, third]);
    let key = derive_key("dest", &[5u8; 16]).unwrap();
    let mut secret = exported_env("apikey", "secret", "sk");
    secret.id = "x2".to_string();
    let mut user = exported_env("user", "text", "bob");
    user.id = "x1".to_string();
    let envs_found = env_diff(&conn, &[user, secret], Some(&key));

    let picks = Resolutions { commands: vec![true, false], envs: vec![true] };
    let plan = plan_import(&commands_found, &envs_found, &Some(picks), Some(&key))
        .ok()
        .unwrap()
        .unwrap();
    assert_eq!(
        done_summary(&plan),
        "Done. Imported 1 new command(s) and 1 new env(s); replaced 1 command(s) and 1 env(s) with the incoming version; kept 1 command(s) and 0 env(s) as-is."
    );
    assert_eq!(plan.pending_defaults.len(), 2);
    apply(&conn, &plan.changes).unwrap();

    assert!(command(&conn, "l1").is_none());
    assert_eq!(command(&conn, "i1").unwrap().description, "theirs");
    assert_eq!(variables(&conn, "i1").len(), 1);
    assert_eq!(command(&conn, "l2").unwrap().description, "mine");
    assert!(command(&conn, "i2").is_none());
    assert_eq!(command(&conn, "l3").unwrap().description, "untouched");
    assert_eq!(command(&conn, "i3").unwrap().template, "ls");
    assert!(env_by_id(&conn, "e1").is_none());
    assert_eq!(env_by_name(&conn, "user").unwrap().value, b"bob".to_vec());
    let stored = env_by_name(&conn, "apikey").unwrap();
    let plain = decrypt(&key, stored.nonce.as_ref().unwrap(), &stored.value).unwrap();
    assert_eq!(plain.as_slice(), b"sk");
}

#[test]
fn a_cancelled_import_plans_nothing() {
    let conn = open_in_memory();
    let commands_found = command_diff(&conn, &[exported_command("ls", "new")]);
    let envs_found = env_diff(&conn, &[], None);
    assert!(plan_import(&commands_found, &envs_found, &None, None).ok().unwrap().is_none());
}

#[test]
fn an_import_with_a_broken_template_or_kind_is_refused() {
    let conn = open_in_memory();
    let none = Resolutions { commands: vec![], envs: vec![] };
    let broken = command_diff(&conn, &[exported_command("x [%s:token]", "bad")]);
    let nothing = env_diff(&conn, &[], None);
    let refused = plan_import(&broken, &nothing, &Some(none), None);
    assert_eq!(refused.err(), Some(VaultError::BracketedSecret("token".to_string())));

    let none = Resolutions { commands: vec![], envs: vec![] };
    let fine = command_diff(&conn, &[]);
    let unknown = env_diff(&conn, &[exported_env("a", "colour", "red")], None);
    let refused = plan_import(&fine, &unknown, &Some(none), None);
    assert_eq!(refused.err(), Some(VaultError::UnknownEnvKind("colour".to_string())));
}

#[test]
fn a_copy_with_the_local_id_gives_way_to_the_next_copy() {
    // Both copies of the template conflict with one local command, and the
    // first of them carries the local command's own id.
    let conn = open_in_memory();
    apply(&conn, &insert_command(&sample("l1", "date", "mine"), &[])).unwrap();
    let mut first = exported_command("date", "first");
    first.id = "l1".to_string();
    let mut second = exported_command("date", "second");
    second.id = "i2".to_string();
    let found = command_diff(&conn, &[first, second]);
    let nothing = env_diff(&conn, &[], None);
    let picks = Resolutions { commands: vec![true, true], envs: vec![] };
    let plan = plan_import(&found, &nothing, &Some(picks), None).ok().unwrap().unwrap();
    apply(&conn, &plan.changes).unwrap();
    assert!(command(&conn, "l1").is_none());
    assert_eq!(command(&conn, "i2").unwrap().description, "second");
}
