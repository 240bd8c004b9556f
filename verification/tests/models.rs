use inr::models::{
    diff_variables, parse_env_spec, CmdVarKind, CmdVariable, EnvKind, StoredCommandVariable,
};

#[test]
fn parses_env_spec_prefixes() {
    assert_eq!(parse_env_spec("s:apikey"), (EnvKind::Secret, "apikey".to_string()));
    assert_eq!(parse_env_spec("t:username"), (EnvKind::Text, "username".to_string()));
    assert_eq!(parse_env_spec("nf:threshold"), (EnvKind::NumberFloat, "threshold".to_string()));
    assert_eq!(parse_env_spec("ni:count"), (EnvKind::NumberInt, "count".to_string()));
    assert_eq!(parse_env_spec("plainname"), (EnvKind::Text, "plainname".to_string()));
}

#[test]
fn env_spec_takes_one_prefix_only() {
    assert_eq!(parse_env_spec("s:t:x"), (EnvKind::Secret, "t:x".to_string()));
    assert_eq!(parse_env_spec("n:x"), (EnvKind::Text, "n:x".to_string()));
    assert_eq!(parse_env_spec("s:"), (EnvKind::Secret, String::new()));
    assert_eq!(parse_env_spec(""), (EnvKind::Text, String::new()));
}

#[test]
fn env_kind_compatibility_blocks_secret_leak() {
    assert!(EnvKind::Secret.compatible_with(CmdVarKind::Secret));
    assert!(!EnvKind::Secret.compatible_with(CmdVarKind::Text));
    assert!(!EnvKind::Secret.compatible_with(CmdVarKind::Number));
    assert!(EnvKind::NumberFloat.compatible_with(CmdVarKind::Number));
    assert!(EnvKind::NumberInt.compatible_with(CmdVarKind::Number));
    assert!(!EnvKind::Text.compatible_with(CmdVarKind::Number));
}

fn cmdvar(kind: CmdVarKind, name: &str) -> CmdVariable {
    CmdVariable { kind, name: name.to_string() }
}

fn stored(kind: CmdVarKind, name: &str, default_env_id: Option<&str>) -> StoredCommandVariable {
    StoredCommandVariable {
        var: cmdvar(kind, name),
        default_env_id: default_env_id.map(str::to_string),
    }
}

#[test]
fn diff_variables_classifies_kept_added_removed() {
    let old = vec![
        stored(CmdVarKind::Text, "host", Some("env1")),
        stored(CmdVarKind::Secret, "token", None),
    ];
    let new = vec![
        cmdvar(CmdVarKind::Text, "host"),   // kept (same name+kind)
        cmdvar(CmdVarKind::Number, "port"), // added
                                            // "token" is gone -> removed
    ];

    let diff = diff_variables(&old, &new);
    assert_eq!(diff.kept, vec![cmdvar(CmdVarKind::Text, "host")]);
    assert_eq!(diff.added, vec![cmdvar(CmdVarKind::Number, "port")]);
    assert_eq!(diff.removed, vec![stored(CmdVarKind::Secret, "token", None)]);
    assert!(!diff.is_unchanged());
}

#[test]
fn diff_variables_treats_kind_change_as_remove_plus_add() {
    let old = vec![stored(CmdVarKind::Text, "count", Some("env1"))];
    let new = vec![cmdvar(CmdVarKind::Number, "count")];

    let diff = diff_variables(&old, &new);
    assert!(diff.kept.is_empty());
    assert_eq!(diff.added, vec![cmdvar(CmdVarKind::Number, "count")]);
    assert_eq!(diff.removed, vec![stored(CmdVarKind::Text, "count", Some("env1"))]);
}

#[test]
fn diff_variables_identical_sets_is_unchanged() {
    let old = vec![stored(CmdVarKind::Text, "host", None)];
    let new = vec![cmdvar(CmdVarKind::Text, "host")];

    let diff = diff_variables(&old, &new);
    assert!(diff.is_unchanged());
    assert_eq!(diff.kept, vec![cmdvar(CmdVarKind::Text, "host")]);
}

#[test]
fn diff_variables_is_unchanged_when_only_the_order_differs() {
    let old = vec![stored(CmdVarKind::Text, "a", None), stored(CmdVarKind::Text, "b", Some("e"))];
    let new = vec![cmdvar(CmdVarKind::Text, "b"), cmdvar(CmdVarKind::Text, "a")];
    assert!(diff_variables(&old, &new).is_unchanged());
}

#[test]
fn kinds_round_trip_through_their_names() {
    for kind in [CmdVarKind::Secret, CmdVarKind::Text, CmdVarKind::Number] {
        assert_eq!(CmdVarKind::from_str(kind.as_str()), Ok(kind));
    }
    for kind in [EnvKind::Secret, EnvKind::Text, EnvKind::NumberFloat, EnvKind::NumberInt] {
        assert_eq!(EnvKind::from_str(kind.as_str()), Ok(kind));
    }
    assert_eq!(CmdVarKind::Secret.as_str(), "secret");
    assert_eq!(EnvKind::NumberFloat.as_str(), "number_float");
    assert_eq!(EnvKind::NumberInt.as_str(), "number_int");
}

#[test]
fn unknown_kinds_are_reported_by_name() {
    assert_eq!(
        CmdVarKind::from_str("Secret").unwrap_err().message(),
        "unknown command variable kind: Secret"
    );
    assert_eq!(EnvKind::from_str("number").unwrap_err().message(), "unknown env kind: number");
}

#[test]
fn placeholders_are_written_in_both_spellings() {
    let v = cmdvar(CmdVarKind::Number, "port");
    assert_eq!(v.placeholder(), "%n:port");
    assert_eq!(v.bracketed_placeholder(), "[%n:port]");
    assert_eq!(CmdVarKind::Secret.placeholder_prefix(), "%s:");
    assert_eq!(CmdVarKind::Text.placeholder_prefix(), "%t:");
}
