use inr::commands::init::set_up;
use inr::crypto::{derive_key, encrypt, DerivedKey};
use inr::db::vault::Change;
use inr::error::VaultError;
use inr::models::{CmdVarKind, CmdVariable, EnvKind, StoredCommandVariable, StoredEnv};
use inr::shell::{history_bindings, BindingSource};
use inr::vars::{
    bind_secret_env, compatible_env_kinds, decrypt_env_value, default_env_menu, env_needs_key,
    literal_prompt, prompt_default_env_choice, resolve_literal_or_env_variable,
    resolve_secret_variable, resolve_variable, review_default_env, secret_menu, variable_prompt,
    DefaultEnvAction, DefaultEnvChoice, DefaultEnvEvent, KeyCache, LiteralAction, LiteralEvent,
    Resolution, SecretAction, SecretEvent, VariablePrompt,
};

fn var(kind: CmdVarKind, name: &str) -> CmdVariable {
    CmdVariable { kind, name: name.to_string() }
}

fn env(id: &str, name: &str, kind: EnvKind, value: &[u8]) -> StoredEnv {
    StoredEnv {
        id: id.to_string(),
        name: name.to_string(),
        kind,
        value: value.to_vec(),
        nonce: None,
        description: String::new(),
        created_at: "2026-01-01T00:00:00Z".to_string(),
        updated_at: "2026-01-01T00:00:00Z".to_string(),
    }
}

fn secret(key: &DerivedKey, name: &str, value: &[u8]) -> StoredEnv {
    let (nonce, cipher) = encrypt(key, value).unwrap();
    let mut out = env("s1", name, EnvKind::Secret, &cipher);
    out.nonce = Some(nonce.to_vec());
    out
}

fn typed(answer: &str) -> LiteralEvent {
    LiteralEvent::Answered { answer: answer.to_string(), offered: Vec::new() }
}

#[test]
fn the_key_is_unlocked_once_and_by_the_right_password_only() {
    let cfg = set_up("master password").unwrap();
    let mut keys = KeyCache::new();
    assert!(keys.get().is_none());
    assert!(!keys.try_password(&cfg, "wrong"));
    assert!(keys.get().is_none());
    assert!(keys.try_password(&cfg, "master password"));
    assert!(keys.get().is_some());
    assert!(!keys.try_password(&cfg, "wrong"));
    assert!(keys.get().is_some());
}

#[test]
fn only_secret_variables_are_asked_for_as_secrets() {
    assert_eq!(variable_prompt(CmdVarKind::Secret), VariablePrompt::Secret);
    assert_eq!(variable_prompt(CmdVarKind::Text), VariablePrompt::Literal);
    assert_eq!(variable_prompt(CmdVarKind::Number), VariablePrompt::Literal);
}

#[test]
fn searches_are_limited_to_compatible_kinds() {
    assert_eq!(compatible_env_kinds(CmdVarKind::Secret), vec![EnvKind::Secret]);
    assert_eq!(compatible_env_kinds(CmdVarKind::Text), vec![EnvKind::Text]);
    assert_eq!(
        compatible_env_kinds(CmdVarKind::Number),
        vec![EnvKind::NumberFloat, EnvKind::NumberInt]
    );
}

#[test]
fn secret_envs_are_decrypted_or_say_why_not() {
    let key = derive_key("pw", &[1u8; 16]).unwrap();
    let other = derive_key("other", &[1u8; 16]).unwrap();
    let mut hidden = secret(&key, "apikey", b"sk");
    assert_eq!(env_needs_key(&hidden), Ok(true));
    assert_eq!(env_needs_key(&env("e1", "user", EnvKind::Text, b"x")), Ok(false));
    assert_eq!(decrypt_env_value(&key, &hidden).ok().unwrap().as_str(), "sk");
    assert_eq!(decrypt_env_value(&other, &hidden).err(), Some(VaultError::DecryptionFailed));
    assert_eq!(
        decrypt_env_value(&key, &secret(&key, "apikey", b"\xff")).err(),
        Some(VaultError::SecretNotUtf8("apikey".to_string()))
    );
    hidden.nonce = Some(vec![1]);
    assert_eq!(decrypt_env_value(&key, &hidden).err(), Some(VaultError::InvalidNonceLength));
    hidden.nonce = None;
    let missing = VaultError::SecretWithoutNonce("apikey".to_string());
    assert_eq!(env_needs_key(&hidden).as_ref(), Err(&missing));
    assert_eq!(decrypt_env_value(&key, &hidden).err(), Some(missing));
}

#[test]
fn default_envs_that_cannot_be_used_are_announced() {
    let stored = |default_env_id: Option<&str>| StoredCommandVariable {
        var: var(CmdVarKind::Text, "user"),
        default_env_id: default_env_id.map(|id| id.to_string()),
    };
    assert!(matches!(resolve_variable(&stored(None), None), Resolution::Prompt(None)));
    let Resolution::Prompt(Some(notice)) = resolve_variable(&stored(Some("gone")), None) else {
        panic!("the env is gone")
    };
    assert_eq!(notice, "Default env for 'user' no longer exists - enter a value:");
    let wrong = env("e1", "count", EnvKind::NumberInt, b"1");
    let Resolution::Prompt(Some(notice)) = resolve_variable(&stored(Some("e1")), Some(wrong)) else {
        panic!("the env is of another kind")
    };
    assert_eq!(notice, "Default env for 'user' is no longer a compatible kind - enter a value:");
}

#[test]
fn typed_values_are_taken_literally() {
    let text = var(CmdVarKind::Text, "user");
    assert_eq!(
        literal_prompt(&text),
        "user (text) - type a value, or '@' to search saved envs:"
    );
    let answered = typed("alice");
    let LiteralAction::Finish(Some(rv)) = resolve_literal_or_env_variable(&text, answered) else {
        panic!("a literal")
    };
    assert_eq!(rv.value.as_str(), "alice");
    assert_eq!(rv.source, BindingSource::Literal);
    assert_eq!(history_bindings(&[rv])[0].display, "alice");
    assert!(matches!(
        resolve_literal_or_env_variable(&text, LiteralEvent::Cancelled),
        LiteralAction::Finish(None)
    ));
}

#[test]
fn numbers_are_asked_for_again_until_they_are_numbers() {
    let number = var(CmdVarKind::Number, "port");
    let answered = typed("many");
    let LiteralAction::AskAgain(notice) = resolve_literal_or_env_variable(&number, answered) else {
        panic!("no number")
    };
    assert_eq!(notice, "'many' is not a valid number, try again.");
    let answered = typed("8080");
    assert!(matches!(
        resolve_literal_or_env_variable(&number, answered),
        LiteralAction::Finish(Some(_))
    ));
}

#[test]
fn picked_envs_are_looked_up() {
    let text = var(CmdVarKind::Text, "user");
    let suggestion = "name = alice  (text)   [e1]".to_string();
    let answered = LiteralEvent::Answered {
        answer: suggestion.clone(),
        offered: vec!["other = x  (text)   [e0]".to_string(), suggestion],
    };
    let LiteralAction::LookUp(id) = resolve_literal_or_env_variable(&text, answered) else {
        panic!("a pick")
    };
    assert_eq!(id, "e1");
    let found = LiteralEvent::LookedUp(Some(env("e1", "name", EnvKind::Text, b"alice")));
    let LiteralAction::Finish(Some(rv)) = resolve_literal_or_env_variable(&text, found) else {
        panic!("an env")
    };
    assert_eq!(rv.value.as_str(), "alice");
    assert_eq!(rv.source, BindingSource::Env("name".to_string()));
    let wrong = LiteralEvent::LookedUp(Some(env("e1", "token", EnvKind::Secret, b"x")));
    let LiteralAction::AskAgain(notice) = resolve_literal_or_env_variable(&text, wrong) else {
        panic!("of another kind")
    };
    assert_eq!(
        notice,
        "'token' is a secret env, not compatible with a text variable - pick a different one."
    );
    let gone = LiteralEvent::LookedUp(None);
    let LiteralAction::AskAgain(notice) = resolve_literal_or_env_variable(&text, gone) else {
        panic!("gone")
    };
    assert_eq!(notice, "That env no longer exists, try again.");
    let unfinished = typed("  @na");
    let LiteralAction::AskAgain(notice) = resolve_literal_or_env_variable(&text, unfinished) else {
        panic!("an unfinished search")
    };
    assert_eq!(
        notice,
        "Type to search, then use \u{2191}/\u{2193} and Enter to select a saved env."
    );
}

#[test]
fn typed_text_that_looks_like_a_pick_is_a_value() {
    let text = var(CmdVarKind::Text, "x");
    for answer in ["items[0]", "name = alice  (text)   [e1]"] {
        let LiteralAction::Finish(Some(rv)) = resolve_literal_or_env_variable(&text, typed(answer))
        else {
            panic!("a literal")
        };
        assert_eq!(rv.value.as_str(), answer);
        assert_eq!(rv.source, BindingSource::Literal);
    }
    let number = var(CmdVarKind::Number, "x");
    let LiteralAction::AskAgain(notice) =
        resolve_literal_or_env_variable(&number, typed("items[0]"))
    else {
        panic!("no number")
    };
    assert_eq!(notice, "'items[0]' is not a valid number, try again.");
}

#[test]
fn a_secret_variable_takes_no_other_kind() {
    let token = var(CmdVarKind::Secret, "token");
    let picked = SecretEvent::Picked(env("e1", "name", EnvKind::Text, b"alice"));
    assert!(matches!(resolve_secret_variable(&token, picked), SecretAction::Search));
}

#[test]
fn secrets_are_typed_or_looked_up() {
    let token = var(CmdVarKind::Secret, "token");
    let (message, options) = secret_menu(&token);
    assert_eq!(message, "token (secret) - how do you want to provide it?");
    assert_eq!(options, vec!["Type it", "Look up from saved secrets (@)"]);
    let chose = SecretEvent::Chose(options[0].to_string());
    let SecretAction::AskValue(prompt) = resolve_secret_variable(&token, chose) else {
        panic!("typed")
    };
    assert_eq!(prompt, "token:");
    let typed = SecretEvent::Typed("sk".to_string());
    let SecretAction::Finish(Some(rv)) = resolve_secret_variable(&token, typed) else {
        panic!("typed")
    };
    assert_eq!(rv.value.as_str(), "sk");
    assert_eq!(history_bindings(&[rv])[0].display, "<entered directly, hidden>");
    let chose = SecretEvent::Chose(options[1].to_string());
    assert!(matches!(resolve_secret_variable(&token, chose), SecretAction::Search));
    assert!(matches!(
        resolve_secret_variable(&token, SecretEvent::Cancelled),
        SecretAction::Finish(None)
    ));

    let key = derive_key("pw", &[1u8; 16]).unwrap();
    let picked = SecretEvent::Picked(secret(&key, "apikey", b"sk"));
    let SecretAction::Decrypt(env) = resolve_secret_variable(&token, picked) else {
        panic!("picked")
    };
    let rv = bind_secret_env(&key, &token, &env).ok().unwrap();
    assert_eq!(rv.value.as_str(), "sk");
    assert_eq!(history_bindings(&[rv])[0].display, "@apikey");
}

#[test]
fn default_envs_are_chosen_from_a_menu() {
    let current = env("e1", "prod", EnvKind::Text, b"x");
    let (message, options) = default_env_menu("host", CmdVarKind::Text, Some(&current));
    assert_eq!(message, "host (text) - default env is @prod:");
    assert_eq!(options, vec!["Keep current default", "Change default env", "Remove default"]);
    let (message, options) = default_env_menu("host", CmdVarKind::Text, None);
    assert_eq!(message, "host (text) - set a default env?");
    assert_eq!(options, vec!["No default", "Set a default env"]);

    let host = var(CmdVarKind::Text, "host");
    let after = |choice: &str| {
        prompt_default_env_choice(&host, DefaultEnvEvent::Chose(choice.to_string()))
    };
    assert!(matches!(
        after("Keep current default"),
        DefaultEnvAction::Finish(DefaultEnvChoice::Unchanged)
    ));
    assert!(matches!(after("No default"), DefaultEnvAction::Finish(DefaultEnvChoice::Unchanged)));
    assert!(matches!(after("Remove default"), DefaultEnvAction::Finish(DefaultEnvChoice::Cleared)));
    assert!(matches!(after("Change default env"), DefaultEnvAction::Search));
    assert!(matches!(after("Set a default env"), DefaultEnvAction::Search));
    let wrong = DefaultEnvEvent::Picked(Some(env("e2", "apikey", EnvKind::Secret, b"x")));
    let DefaultEnvAction::SearchAgain(notice) = prompt_default_env_choice(&host, wrong) else {
        panic!("not compatible")
    };
    assert_eq!(
        notice,
        "'apikey' is a secret env, not compatible with a text variable - pick a different one."
    );
    let right = DefaultEnvEvent::Picked(Some(current));
    let DefaultEnvAction::Finish(choice) = prompt_default_env_choice(&host, right) else {
        panic!("compatible")
    };
    let (change, notice) = review_default_env("cmd1", &host, &choice).unwrap();
    assert_eq!(notice, "Default env for 'host' set to @prod.");
    let Change::SetDefaultEnv { command_id, var_name, default_env_id } = change else {
        panic!("sets the default")
    };
    assert_eq!((command_id.as_str(), var_name.as_str()), ("cmd1", "host"));
    assert_eq!(default_env_id, Some("e1".to_string()));
    let (_, notice) = review_default_env("cmd1", &host, &DefaultEnvChoice::Cleared).unwrap();
    assert_eq!(notice, "Default env cleared for 'host'.");
    assert!(review_default_env("cmd1", &host, &DefaultEnvChoice::Unchanged).is_none());
    assert!(matches!(
        prompt_default_env_choice(&host, DefaultEnvEvent::Picked(None)),
        DefaultEnvAction::Finish(DefaultEnvChoice::Unchanged)
    ));
    assert!(matches!(
        prompt_default_env_choice(&host, DefaultEnvEvent::Cancelled),
        DefaultEnvAction::Finish(DefaultEnvChoice::Unchanged)
    ));
}
