use inr::models::{EnvKind, StoredCommand, StoredEnv};
use inr::tui::{
    env_display_value, format_command_suggestion, format_env_suggestion, highlight_name,
    join_command_suggestion, join_env_suggestion, parse_id_suffix, parse_pick, pick_command, pick_env,
    picked_command, picked_env, EnvLookupMode, PickStep,
};

#[test]
fn parses_id_suffix_from_formatted_suggestion() {
    assert_eq!(
        parse_id_suffix("restart the dev stack  →  docker compose up -d   [3xJ9kL]"),
        Some("3xJ9kL".to_string())
    );
}

#[test]
fn returns_none_when_no_id_suffix_present() {
    assert_eq!(parse_id_suffix("just typed free text"), None);
}

#[test]
fn only_an_id_at_the_very_end_counts() {
    assert_eq!(parse_id_suffix("[abc] tail"), None);
    assert_eq!(parse_id_suffix("[abc] \t\u{2003}\n"), Some("abc".to_string()));
    assert_eq!(parse_id_suffix("[a][b-_9]"), Some("b-_9".to_string()));
    assert_eq!(parse_id_suffix("x []"), None);
    assert_eq!(parse_id_suffix("x [a b]"), None);
    assert_eq!(parse_id_suffix("abc]"), None);
    assert_eq!(parse_id_suffix("[[id]"), Some("id".to_string()));
    assert_eq!(parse_id_suffix(""), None);
    assert_eq!(parse_id_suffix("[\u{e9}]"), None);
}

fn command() -> StoredCommand {
    StoredCommand {
        id: "V1StGX".to_string(),
        template: "ssh %s:host".to_string(),
        description: "connect [now]".to_string(),
        created_at: String::new(),
        updated_at: String::new(),
    }
}

fn env(kind: EnvKind, value: &[u8]) -> StoredEnv {
    StoredEnv {
        id: "e-n_v1".to_string(),
        name: "apikey".to_string(),
        kind,
        value: value.to_vec(),
        nonce: None,
        description: String::new(),
        created_at: String::new(),
        updated_at: String::new(),
    }
}

#[test]
fn a_command_suggestion_shows_its_command_and_ends_with_its_id() {
    let line = format_command_suggestion(&command());
    assert!(line.contains("connect [now]"));
    assert!(line.contains("ssh %s:host"));
    assert!(line.contains('→'));
    assert!(line.ends_with("   [V1StGX]"));
    // styled, not just joined
    assert!(line.contains("\u{1b}[1mconnect [now]\u{1b}[0m"));
    assert_eq!(parse_id_suffix(&line), Some("V1StGX".to_string()));
}

#[test]
fn an_env_suggestion_shows_its_env_and_ends_with_its_id() {
    let line = format_env_suggestion(&env(EnvKind::Text, b"alice"));
    assert!(line.contains("\u{1b}[1mapikey\u{1b}[0m"));
    assert!(line.contains("alice"));
    assert!(line.contains("(text)"));
    assert_eq!(parse_id_suffix(&line), Some("e-n_v1".to_string()));
}

#[test]
fn a_secret_is_masked() {
    let secret = env(EnvKind::Secret, b"ciphertext");
    assert_eq!(env_display_value(&secret), "***");
    assert!(!format_env_suggestion(&secret).contains("ciphertext"));
    assert_eq!(env_display_value(&env(EnvKind::NumberInt, b"42")), "42");
    assert_eq!(env_display_value(&env(EnvKind::Text, &[0x61, 0xff, 0x62])), "a\u{fffd}b");
}

#[test]
fn suggestions_join_their_parts() {
    assert_eq!(join_command_suggestion("d", "->", "t", "id"), "d -> t   [id]");
    assert_eq!(join_env_suggestion("n", "=", "v", "(text)", "id"), "n = v  (text)   [id]");
}

#[test]
fn names_are_highlighted() {
    let shown = highlight_name("host");
    assert!(shown.contains("\u{1b}[1mhost\u{1b}[0m"));
}

#[test]
fn deferred_lookup_waits_for_the_at_sign() {
    assert_eq!(EnvLookupMode::Immediate.query("abc"), Some("abc".to_string()));
    assert_eq!(EnvLookupMode::Immediate.query(""), Some(String::new()));
    assert_eq!(EnvLookupMode::Deferred.query("@abc"), Some("abc".to_string()));
    assert_eq!(EnvLookupMode::Deferred.query("@"), Some(String::new()));
    assert_eq!(EnvLookupMode::Deferred.query("abc"), None);
    assert_eq!(EnvLookupMode::Deferred.query(" @abc"), None);
    assert_eq!(EnvLookupMode::Deferred.query(""), None);
}

#[test]
fn picking_looks_up_the_id_or_asks_again() {
    let offered = vec!["w   [id0]".to_string(), "x   [id1]".to_string()];
    assert_eq!(pick_command("x   [id1]", &offered), PickStep::LookUp("id1".to_string()));
    assert_eq!(
        pick_command("x", &offered),
        PickStep::Again("No command selected - pick one from the list with ↑/↓ and Enter.")
    );
    assert_eq!(pick_env("x   [id1]", &offered), PickStep::LookUp("id1".to_string()));
    assert_eq!(
        pick_env("x", &offered),
        PickStep::Again("No env selected - pick one from the list with ↑/↓ and Enter.")
    );
}

#[test]
fn only_what_was_offered_is_a_pick() {
    let offered = vec!["x   [id1]".to_string()];
    assert_eq!(parse_pick("x   [id1]", &offered), Some("id1".to_string()));
    assert_eq!(parse_pick("y   [id1]", &offered), None);
    assert_eq!(parse_pick("x   [id1]", &[]), None);
    assert_eq!(parse_pick("x", &["x".to_string()]), None);
    assert!(matches!(pick_command("[id1]", &offered), PickStep::Again(_)));
    assert!(matches!(pick_env("[id1]", &offered), PickStep::Again(_)));
}

#[test]
fn a_pick_that_is_gone_is_announced() {
    assert_eq!(picked_command(Some(command())).unwrap().id, command().id);
    assert_eq!(picked_command(None).err(), Some("That command no longer exists, try again."));
    assert_eq!(picked_env(Some(env(EnvKind::Text, b"x")), &[]).unwrap().value, b"x".to_vec());
    assert_eq!(picked_env(None, &[]).err(), Some("That env no longer exists, try again."));
}

#[test]
fn a_restricted_search_gives_no_other_kind() {
    let numbers = [EnvKind::NumberFloat, EnvKind::NumberInt];
    assert!(picked_env(Some(env(EnvKind::NumberInt, b"1")), &numbers).is_ok());
    assert_eq!(
        picked_env(Some(env(EnvKind::Text, b"x")), &numbers).err(),
        Some("No env selected - pick one from the list with ↑/↓ and Enter.")
    );
    assert!(picked_env(Some(env(EnvKind::Text, b"x")), &[EnvKind::Secret]).is_err());
    assert_eq!(
        picked_env(None, &numbers).err(),
        Some("That env no longer exists, try again.")
    );
}
