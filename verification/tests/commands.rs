use inr::commands::add::variable_lines;
use inr::commands::edit::{
    changes_to_confirm, check_template, current_default, load_current_defaults,
    print_variable_diff,
};
use inr::commands::env_add::{
    check_name_is_free, new_env, new_env_name, take_value, value_fault, value_prompt, ValuePrompt,
    ValueStep,
};
use inr::commands::env_search::{
    clears_clipboard, clipboard_value, plain_clipboard_value, secret_clipboard_value, still_holds,
    wait_step, WaitStep, CLIPBOARD_CLEAR_AFTER_SECS,
};
use inr::commands::export::{
    export_command, export_env, export_envs, export_needs_key, export_vault, exported_line,
    exporting_line,
};
use inr::commands::history::entry_lines;
use inr::commands::import::conflicts::{
    command_conflict_lines, env_conflict_lines, resolve_conflicts, resolve_menu, shown_lines,
    version_menu, ResolveAction, ResolveEvent,
};
use inr::commands::import::diff::{
    comparable_local_value, diff_commands, diff_envs, diff_summary, unlock_destination_if_needed,
    CommandConflict, EnvConflict,
};
use inr::commands::import::plan::{build_stored_env, stored_env};
use inr::commands::remove::{delete_command_question, delete_env_question};
use inr::crypto::{derive_key, DerivedKey};
use inr::db::Config;
use inr::env_value::{kind_needs_key, stored_value};
use inr::error::VaultError;
use inr::models::{
    CmdVarKind, CmdVariable, EnvKind, HistoryBinding, HistoryEntry, StoredCommand,
    StoredCommandVariable, StoredEnv,
};
use inr::name_map::NameMap;
use inr::placeholder::parse_placeholders;
use inr::transfer::{ExportedCommand, ExportedEnv};

const NOW: &str = "2026-01-01T00:00:00Z";

fn command(id: &str, template: &str, description: &str) -> StoredCommand {
    StoredCommand {
        id: id.to_string(),
        template: template.to_string(),
        description: description.to_string(),
        created_at: NOW.to_string(),
        updated_at: NOW.to_string(),
    }
}

fn env(id: &str, name: &str, kind: EnvKind, value: &[u8]) -> StoredEnv {
    StoredEnv {
        id: id.to_string(),
        name: name.to_string(),
        kind,
        value: value.to_vec(),
        nonce: None,
        description: "desc".to_string(),
        created_at: NOW.to_string(),
        updated_at: NOW.to_string(),
    }
}

fn secret(key: &DerivedKey, name: &str, value: &str) -> StoredEnv {
    let stored = stored_value(EnvKind::Secret, Some(key), value).unwrap();
    new_env(
        "s1".to_string(),
        name.to_string(),
        stored,
        "desc".to_string(),
        NOW.to_string(),
    )
}

fn key(password: &str) -> DerivedKey {
    derive_key(password, &[1u8; 16]).unwrap()
}

fn var(kind: CmdVarKind, name: &str) -> CmdVariable {
    CmdVariable { kind, name: name.to_string() }
}

fn stored(kind: CmdVarKind, name: &str, default_env_id: Option<&str>) -> StoredCommandVariable {
    StoredCommandVariable {
        var: var(kind, name),
        default_env_id: default_env_id.map(|id| id.to_string()),
    }
}

fn exported_env(name: &str, kind: &str, value: &str) -> ExportedEnv {
    ExportedEnv {
        id: "x1".to_string(),
        name: name.to_string(),
        kind: kind.to_string(),
        value: value.to_string(),
        description: "desc".to_string(),
        created_at: NOW.to_string(),
        updated_at: NOW.to_string(),
    }
}

fn exported_command(template: &str, description: &str) -> ExportedCommand {
    export_command(&command("c1", template, description), NameMap::new())
}

#[test]
fn a_new_commands_variables_are_listed() {
    let vars = parse_placeholders("ssh %s:host -p %n:port").unwrap();
    assert_eq!(
        variable_lines(&vars),
        vec!["Found 2 variable(s) in this command:", "  1. host (secret)", "  2. port (number)"]
    );
    assert!(variable_lines(&[]).is_empty());
}

#[test]
fn an_edited_template_has_to_parse() {
    assert_eq!(check_template("echo %t:msg").unwrap(), vec![var(CmdVarKind::Text, "msg")]);
    assert_eq!(
        check_template("echo %t:x %n:x").unwrap_err(),
        "variable 'x' used with conflicting kinds (text and number) - try again."
    );
    assert_eq!(
        check_template("[%s:t]").unwrap_err(),
        "secret variable 't' cannot use bracket syntax [%s:t] - secrets are never inlined as literal text; use bare %s:t instead - try again."
    );
}

#[test]
fn changed_variables_are_confirmed() {
    let before = [
        stored(CmdVarKind::Text, "host", Some("env1")),
        stored(CmdVarKind::Number, "port", Some("env2")),
        stored(CmdVarKind::Text, "user", None),
    ];
    let after = [var(CmdVarKind::Text, "host"), var(CmdVarKind::Secret, "token")];
    let diff = changes_to_confirm("old", "new", &before, &after).unwrap();
    assert_eq!(
        print_variable_diff(&diff),
        vec![
            "This changes the command's variables:",
            "  + token (secret)",
            "  - port (number) - default env setting will be lost",
            "  - user (text)",
        ]
    );
    assert!(changes_to_confirm("same", "same", &before, &after).is_none());
    let same = [
        var(CmdVarKind::Text, "host"),
        var(CmdVarKind::Number, "port"),
        var(CmdVarKind::Text, "user"),
    ];
    assert!(changes_to_confirm("old", "new", &before, &same).is_none());
}

#[test]
fn current_defaults_are_those_that_still_exist() {
    let vars = [
        stored(CmdVarKind::Text, "host", Some("env1")),
        stored(CmdVarKind::Text, "user", Some("gone")),
        stored(CmdVarKind::Text, "msg", None),
    ];
    let found = [Some(env("env1", "myhost", EnvKind::Text, b"x")), None, None];
    let defaults = load_current_defaults(&vars, &found);
    assert_eq!(defaults.len(), 1);
    assert_eq!(current_default(&defaults, "host").unwrap().name, "myhost");
    assert!(current_default(&defaults, "user").is_none());
    assert!(current_default(&defaults, "msg").is_none());
}

#[test]
fn env_names_are_checked() {
    assert_eq!(new_env_name("s:apikey"), Ok((EnvKind::Secret, "apikey".to_string())));
    assert_eq!(new_env_name("plain"), Ok((EnvKind::Text, "plain".to_string())));
    assert_eq!(new_env_name(""), Err(VaultError::EmptyEnvName));
    assert_eq!(new_env_name("nf:"), Err(VaultError::EmptyEnvName));
    assert_eq!(check_name_is_free("a", &None), Ok(()));
    assert_eq!(
        check_name_is_free("a", &Some(env("id1", "a", EnvKind::Text, b"x"))),
        Err(VaultError::EnvExists { name: "a".to_string(), id: "id1".to_string() })
    );
}

#[test]
fn env_values_fit_their_kind() {
    assert_eq!(value_fault(EnvKind::Text, "anything"), None);
    assert_eq!(value_fault(EnvKind::Secret, "anything"), None);
    assert_eq!(value_fault(EnvKind::NumberFloat, "1.5"), None);
    assert_eq!(value_fault(EnvKind::NumberInt, "-3"), None);
    assert_eq!(
        value_fault(EnvKind::NumberFloat, "x"),
        Some("'x' is not a valid float.".to_string())
    );
    assert_eq!(
        value_fault(EnvKind::NumberInt, "1.5"),
        Some("'1.5' is not a valid integer.".to_string())
    );
}

#[test]
fn only_secrets_are_typed_unseen_and_encrypted() {
    assert_eq!(value_prompt(EnvKind::Secret), ValuePrompt::Hidden);
    assert!(kind_needs_key(EnvKind::Secret));
    for kind in [EnvKind::Text, EnvKind::NumberFloat, EnvKind::NumberInt] {
        assert_eq!(value_prompt(kind), ValuePrompt::Shown);
        assert!(!kind_needs_key(kind));
        let Ok(ValueStep::Store(value)) = take_value(kind, None, "42") else {
            panic!("a value of every kind")
        };
        assert_eq!(value.into_parts(), (kind, b"42".to_vec(), None));
    }
    let Ok(ValueStep::AskAgain(notice)) = take_value(EnvKind::NumberInt, None, "4.2") else {
        panic!("no integer")
    };
    assert_eq!(notice, "'4.2' is not a valid integer.");

    let right = key("pw");
    let Ok(ValueStep::Store(value)) = take_value(EnvKind::Secret, Some(&right), "sk-live") else {
        panic!("a secret")
    };
    let added = new_env(
        "e1".to_string(),
        "apikey".to_string(),
        value,
        "desc".to_string(),
        NOW.to_string(),
    );
    assert_eq!(added.kind, EnvKind::Secret);
    assert_eq!(added.nonce.as_ref().map(|n| n.len()), Some(12));
    assert_ne!(added.value, b"sk-live".to_vec());
    assert_eq!(clipboard_value(&added, Some(&right)), Ok("sk-live".to_string()));
    assert_eq!(
        clipboard_value(&added, Some(&key("other"))),
        Err(VaultError::DecryptionFailed)
    );
    let plain = env("e1", "user", EnvKind::Text, b"alice");
    assert_eq!(clipboard_value(&plain, None), Ok("alice".to_string()));
}

#[test]
fn an_incoming_env_is_put_together_with_its_value() {
    let ee = exported_env("user", "text", "alice");
    let stored = stored_env(&ee, stored_value(EnvKind::Text, None, "bob").unwrap());
    assert_eq!(stored.name, "user");
    assert_eq!(stored.value, b"bob".to_vec());
    assert_eq!((stored.id, stored.description), (ee.id, ee.description));
}

#[test]
fn env_values_are_stored_and_copied() {
    let stored = stored_value(EnvKind::Text, None, "alice").unwrap();
    assert_eq!(stored.into_parts(), (EnvKind::Text, b"alice".to_vec(), None));
    let plain = env("e1", "user", EnvKind::Text, b"alice");
    assert_eq!(plain_clipboard_value(&plain), "alice");
    assert_eq!(plain_clipboard_value(&env("e1", "u", EnvKind::Text, b"a\xff")), "a\u{fffd}");

    let right = key("pw");
    let mut hidden = secret(&right, "apikey", "sk-live");
    assert_eq!(secret_clipboard_value(&right, &hidden), Ok("sk-live".to_string()));
    assert_eq!(
        secret_clipboard_value(&key("other"), &hidden),
        Err(VaultError::DecryptionFailed)
    );
    hidden.nonce = Some(vec![1, 2]);
    assert_eq!(secret_clipboard_value(&right, &hidden), Err(VaultError::InvalidNonceLength));
    hidden.nonce = None;
    assert_eq!(
        secret_clipboard_value(&right, &hidden),
        Err(VaultError::ClipboardSecretWithoutNonce)
    );
    let (nonce, cipher) = inr::crypto::encrypt(&right, b"\xff").unwrap();
    hidden.nonce = Some(nonce.to_vec());
    hidden.value = cipher;
    assert_eq!(secret_clipboard_value(&right, &hidden), Err(VaultError::ClipboardSecretNotUtf8));
}

#[test]
fn the_clipboard_is_cleared_of_secrets_only() {
    assert_eq!(CLIPBOARD_CLEAR_AFTER_SECS, 20);
    assert!(clears_clipboard(EnvKind::Secret));
    assert!(!clears_clipboard(EnvKind::Text));
    assert_eq!(wait_step(20_000, false), WaitStep::Poll(200));
    assert_eq!(wait_step(200, false), WaitStep::Poll(200));
    assert_eq!(wait_step(150, false), WaitStep::Poll(150));
    assert_eq!(wait_step(0, false), WaitStep::Stop);
    assert_eq!(wait_step(20_000, true), WaitStep::Stop);
    assert!(still_holds(&Some("sk".to_string()), "sk"));
    assert!(!still_holds(&Some("other".to_string()), "sk"));
    assert!(!still_holds(&None, "sk"));
}

#[test]
fn history_lines_show_run_and_bindings() {
    let entry = HistoryEntry {
        id: 12,
        command_id: "cmd1".to_string(),
        template: "ssh %s:host".to_string(),
        executed_at: NOW.to_string(),
        bindings: vec![HistoryBinding {
            name: "host".to_string(),
            kind: "secret".to_string(),
            display: "@prod".to_string(),
        }],
    };
    assert_eq!(
        entry_lines(&entry),
        vec!["#12  2026-01-01T00:00:00Z  ssh %s:host  [cmd1]", "    host = @prod"]
    );
}

#[test]
fn deletions_are_asked_about_by_name() {
    assert_eq!(
        delete_command_question(&command("id1", "ls", "list files")),
        "Delete \"list files\" (id: id1)?"
    );
    assert_eq!(
        delete_env_question(&env("id2", "apikey", EnvKind::Text, b"")),
        "Delete env 'apikey' (id: id2)?"
    );
}

#[test]
fn exports_carry_plaintext() {
    let source = key("source");
    let envs = [env("e1", "user", EnvKind::Text, b"alice"), secret(&source, "apikey", "sk")];
    assert!(export_needs_key(&envs));
    assert!(!export_needs_key(&envs[..1]));
    let out = export_envs(&envs, Some(&source)).unwrap();
    assert_eq!(out.len(), 2);
    assert_eq!((out[0].kind.as_str(), out[0].value.as_str()), ("text", "alice"));
    assert_eq!((out[1].kind.as_str(), out[1].value.as_str()), ("secret", "sk"));
    assert_eq!(out[1].name, "apikey");
    assert_eq!(exporting_line(3, 12), "Exporting 3 command(s) and 12 env(s).");
    assert_eq!(
        exported_line("a.inrx", 3, 12),
        "Wrote a.inrx (3 command(s), 12 env(s)). Keep the transfer passphrase safe - it's needed to import this file."
    );
}

#[test]
fn unreadable_secrets_stop_an_export() {
    let source = key("source");
    let mut hidden = secret(&source, "apikey", "sk");
    assert_eq!(
        export_env(&hidden, Some(&key("other"))).err(),
        Some(VaultError::DecryptionFailed)
    );
    let (nonce, cipher) = inr::crypto::encrypt(&source, b"\xff").unwrap();
    hidden.nonce = Some(nonce.to_vec());
    hidden.value = cipher;
    assert_eq!(
        export_env(&hidden, Some(&source)).err(),
        Some(VaultError::SecretNotUtf8("apikey".to_string()))
    );
    hidden.nonce = None;
    assert_eq!(
        export_env(&hidden, Some(&source)).err(),
        Some(VaultError::SecretWithoutNonce("apikey".to_string()))
    );
}

#[test]
fn secrets_are_re_encrypted_for_the_destination() {
    let source = key("source");
    let destination = key("destination");
    let out = export_env(&secret(&source, "apikey", "sk"), Some(&source)).unwrap();
    let back = build_stored_env(&out, Some(&destination)).unwrap();
    assert_eq!(secret_clipboard_value(&destination, &back), Ok("sk".to_string()));
    assert_eq!(secret_clipboard_value(&source, &back), Err(VaultError::DecryptionFailed));
}

#[test]
fn plain_things_come_through_a_transfer_unchanged() {
    let plain = env("e1", "user", EnvKind::NumberInt, b"42");
    let back = build_stored_env(&export_env(&plain, None).unwrap(), None).unwrap();
    assert_eq!(back.id, plain.id);
    assert_eq!(back.kind, plain.kind);
    assert_eq!(back.value, plain.value);
    assert_eq!(back.nonce, None);
}

#[test]
fn a_vault_finds_nothing_new_in_its_own_export() {
    let source = key("source");
    let local_command = command("c1", "echo %t:msg", "greet");
    let local_envs = [env("e1", "user", EnvKind::Text, b"alice"), secret(&source, "apikey", "sk")];
    let commands = [export_command(&local_command, NameMap::new())];
    let envs = export_envs(&local_envs, Some(&source)).unwrap();
    let found = diff_commands(&commands, &[Some(local_command)]);
    let [first, second] = local_envs;
    let found_envs = diff_envs(&envs, &[Some(first), Some(second)], Some(&source)).ok().unwrap();
    assert_eq!(
        diff_summary(&found, &found_envs),
        "0 new command(s), 0 new env(s), 0 conflicting command(s), 0 conflicting env(s), 3 unchanged."
    );
}

#[test]
fn secrets_are_imported_into_a_set_up_vault_only() {
    let secrets = [exported_env("a", "text", "x"), exported_env("b", "secret", "y")];
    let plain = [exported_env("a", "text", "x")];
    assert!(unlock_destination_if_needed(&plain, None).unwrap().is_none());
    assert_eq!(
        unlock_destination_if_needed(&secrets, None).err(),
        Some(VaultError::NotInitializedForImport)
    );
    let cfg = Config { kdf_salt: vec![1], canary_nonce: vec![2], canary_cipher: vec![3] };
    assert!(unlock_destination_if_needed(&secrets, Some(cfg)).unwrap().is_some());
}

#[test]
fn a_local_secret_and_incoming_text_conflict_without_a_key() {
    let hidden = secret(&key("destination"), "apikey", "sk");
    let incoming = [exported_env("apikey", "text", "sk"), exported_env("user", "text", "alice")];
    let found = diff_envs(&incoming, &[Some(hidden), None], None).ok().unwrap();
    assert_eq!(found.identical, 0);
    assert_eq!(found.new_envs.len(), 1);
    assert_eq!(found.conflicts.len(), 1);
    assert_eq!(found.conflicts[0].incoming.name, "apikey");
    assert_eq!(found.conflicts[0].local_value, "");
    assert!(env_conflict_lines(&found.conflicts[0])[1].ends_with("value=(hidden)"));
}

#[test]
fn a_whole_vault_is_exported_in_order() {
    let source = key("source");
    let commands = [command("c1", "echo %t:msg", "greet"), command("c2", "ls", "list")];
    let mut first_defaults = NameMap::new();
    first_defaults.insert("msg".to_string(), "user".to_string());
    let defaults = [first_defaults, NameMap::new()];
    let envs = [env("e1", "user", EnvKind::Text, b"alice"), secret(&source, "apikey", "sk")];
    let at = "2026-01-02T00:00:00Z".to_string();
    let payload = export_vault(at.clone(), &commands, &defaults, &envs, Some(&source)).unwrap();
    assert_eq!(payload.exported_at, at);
    let templates: Vec<&str> = payload.commands.iter().map(|c| c.template.as_str()).collect();
    assert_eq!(templates, vec!["echo %t:msg", "ls"]);
    assert_eq!(
        payload.commands[0].variable_defaults.pairs().to_vec(),
        vec![("msg".to_string(), "user".to_string())]
    );
    assert!(payload.commands[1].variable_defaults.pairs().is_empty());

    let destination = key("destination");
    let back: Vec<StoredEnv> = payload
        .envs
        .iter()
        .map(|ee| build_stored_env(ee, Some(&destination)).unwrap())
        .collect();
    assert_eq!(back.len(), 2);
    assert_eq!(back[0].value, b"alice".to_vec());
    assert_eq!(back[1].name, "apikey");
    assert_eq!(comparable_local_value(&back[1], Some(&destination)), Ok("sk".to_string()));

    let broken = [env("e1", "user", EnvKind::Secret, b"x")];
    assert_eq!(
        export_vault(at, &commands, &defaults, &broken, Some(&source)).err(),
        Some(VaultError::SecretWithoutNonce("user".to_string()))
    );
}

#[test]
fn local_values_are_compared_in_plaintext() {
    let destination = key("destination");
    let hidden = secret(&destination, "apikey", "sk");
    assert_eq!(comparable_local_value(&hidden, Some(&destination)), Ok("sk".to_string()));
    assert_eq!(
        comparable_local_value(&hidden, Some(&key("other"))),
        Err(VaultError::DecryptionFailed)
    );
    let plain = env("e1", "user", EnvKind::Text, b"a\xff");
    assert_eq!(comparable_local_value(&plain, None), Ok("a\u{fffd}".to_string()));
    let broken = env("e1", "user", EnvKind::Secret, b"x");
    assert_eq!(
        comparable_local_value(&broken, None),
        Err(VaultError::SecretWithoutNonce("user".to_string()))
    );
}

#[test]
fn conflicts_are_shown_without_secrets() {
    let conflict = CommandConflict {
        local: command("c1", "ls", "mine"),
        incoming: exported_command("ls", "theirs"),
    };
    assert_eq!(
        command_conflict_lines(&conflict),
        vec!["Command conflict:", "  Mine:     ls  (mine)", "  Incoming: ls  (theirs)"]
    );
    let plain = EnvConflict {
        local: env("e1", "user", EnvKind::Text, b"alice"),
        local_value: "alice".to_string(),
        incoming: exported_env("user", "text", "bob"),
    };
    assert_eq!(
        env_conflict_lines(&plain),
        vec![
            "Env conflict: 'user'",
            "  Mine:     kind=text value=\"alice\" description=\"desc\"",
            "  Incoming: kind=text value=\"bob\" description=\"desc\"",
        ]
    );
    let hidden = EnvConflict {
        local: env("e1", "user", EnvKind::Text, b"alice"),
        local_value: "alice".to_string(),
        incoming: exported_env("user", "secret", "bob"),
    };
    assert_eq!(
        env_conflict_lines(&hidden),
        vec![
            "Env conflict: 'user'",
            "  Mine:     kind=text description=\"desc\" value=(hidden)",
            "  Incoming: kind=secret description=\"desc\" value=(hidden) -- values differ",
        ]
    );
}

fn chose(choice: &str) -> ResolveEvent {
    ResolveEvent::Chose(choice.to_string())
}

#[test]
fn without_conflicts_there_is_nothing_to_resolve() {
    let (_, action) = resolve_conflicts(0, 0);
    let ResolveAction::Finish(Some(picks)) = action else { panic!("nothing to ask") };
    assert!(picks.commands.is_empty() && picks.envs.is_empty());
}

#[test]
fn conflicts_are_resolved_one_by_one() {
    let (mut state, action) = resolve_conflicts(2, 1);
    assert!(matches!(action, ResolveAction::AskHow));
    assert!(matches!(state.step(chose("Resolve one by one")), ResolveAction::ShowCommand(0)));
    assert!(matches!(state.step(chose("Use incoming")), ResolveAction::ShowCommand(1)));
    assert!(matches!(state.step(chose("Keep mine")), ResolveAction::ShowEnv(0)));
    let ResolveAction::Finish(Some(picks)) = state.step(chose("Use incoming")) else {
        panic!("all are decided")
    };
    assert_eq!(picks.commands, vec![true, false]);
    assert_eq!(picks.envs, vec![true]);
}

#[test]
fn the_menus_offer_what_is_understood() {
    let (message, options) = resolve_menu();
    assert_eq!(message, "How do you want to resolve conflicts?");
    assert_eq!(options, vec!["Resolve one by one", "Keep mine for all", "Use incoming for all"]);
    let (mut state, _) = resolve_conflicts(1, 0);
    assert!(matches!(state.step(chose(options[0])), ResolveAction::ShowCommand(0)));
    let (message, versions) = version_menu();
    assert_eq!(message, "Which version do you want to keep?");
    assert_eq!(versions, vec!["Keep mine", "Use incoming"]);
    let ResolveAction::Finish(Some(picks)) = state.step(chose(versions[1])) else {
        panic!("decided")
    };
    assert_eq!(picks.commands, vec![true]);
    for option in &options[1..] {
        let (mut state, _) = resolve_conflicts(1, 0);
        assert!(matches!(state.step(chose(option)), ResolveAction::Confirm(_)));
    }
}

#[test]
fn resolving_conflicts_shows_nothing_of_a_secret() {
    let commands = [CommandConflict {
        local: command("c1", "ls", "mine"),
        incoming: exported_command("ls", "theirs"),
    }];
    let dialogue = |mine: &str, theirs: &str| {
        let envs = [EnvConflict {
            local: env("e1", "apikey", EnvKind::Secret, mine.as_bytes()),
            local_value: mine.to_string(),
            incoming: exported_env("apikey", "secret", theirs),
        }];
        let (mut state, _) = resolve_conflicts(1, 1);
        let mut shown = Vec::new();
        for choice in ["Resolve one by one", "Keep mine", "Use incoming"] {
            let action = state.step(chose(choice));
            shown.extend(shown_lines(&action, &commands, &envs));
        }
        shown
    };
    let shown = dialogue("sk-old", "sk-new");
    assert_eq!(shown.len(), 6);
    assert_eq!(shown[0], "Command conflict:");
    assert_eq!(shown[3], "Env conflict: 'apikey'");
    assert_eq!(shown, dialogue("another", "value"));

    let (mut state, action) = resolve_conflicts(1, 0);
    assert!(shown_lines(&action, &commands, &[]).is_empty());
    assert!(matches!(state.resolve_one_by_one(), ResolveAction::ShowCommand(0)));
    let action = state.step(chose("Keep mine for all"));
    assert_eq!(
        shown_lines(&action, &commands, &[]),
        vec!["Keep your local version for all 1 conflict(s)? Incoming changes will be discarded."]
    );
}

#[test]
fn conflicts_are_resolved_all_at_once_after_a_question() {
    let (mut state, _) = resolve_conflicts(2, 1);
    let ResolveAction::Confirm(question) = state.step(chose("Keep mine for all")) else {
        panic!("asks first")
    };
    assert_eq!(
        question,
        "Keep your local version for all 3 conflict(s)? Incoming changes will be discarded."
    );
    let ResolveAction::Finish(Some(picks)) = state.step(ResolveEvent::Answered(true)) else {
        panic!("confirmed")
    };
    assert_eq!((picks.commands, picks.envs), (vec![false, false], vec![false]));

    let (mut state, _) = resolve_conflicts(1, 2);
    let ResolveAction::Confirm(question) = state.step(chose("Use incoming for all")) else {
        panic!("asks first")
    };
    assert_eq!(
        question,
        "Overwrite all 3 conflict(s) with the incoming version from the file?"
    );
    let ResolveAction::Finish(Some(picks)) = state.step(ResolveEvent::Answered(true)) else {
        panic!("confirmed")
    };
    assert_eq!((picks.commands, picks.envs), (vec![true], vec![true, true]));
}

#[test]
fn giving_up_resolves_nothing() {
    let (mut state, _) = resolve_conflicts(1, 0);
    assert!(matches!(state.step(ResolveEvent::Cancelled), ResolveAction::Finish(None)));
    let (mut state, _) = resolve_conflicts(1, 0);
    state.step(chose("Use incoming for all"));
    assert!(matches!(state.step(ResolveEvent::Answered(false)), ResolveAction::Finish(None)));
    let (mut state, _) = resolve_conflicts(2, 0);
    state.step(chose("Resolve one by one"));
    state.step(chose("Use incoming"));
    assert!(matches!(state.step(ResolveEvent::Cancelled), ResolveAction::Finish(None)));
}
