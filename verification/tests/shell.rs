use inr::models::{CmdVarKind, CmdVariable};
use inr::placeholder::parse_placeholders;
use inr::secret::SecretText;
use inr::shell::{
    build_command_line, failure_code, is_windows, quote_literal_posix,
    quote_literal_powershell, shell_invocation, BindingSource, ResolvedVar,
};

fn var(kind: CmdVarKind, name: &str) -> CmdVariable {
    CmdVariable { kind, name: name.to_string() }
}

fn literal(kind: CmdVarKind, name: &str, value: &str) -> ResolvedVar {
    ResolvedVar {
        var: var(kind, name),
        value: SecretText::new(value.to_string()),
        source: BindingSource::Literal,
    }
}

#[test]
fn posix_quote_escapes_injection_attempt() {
    let quoted = quote_literal_posix("hi; rm -rf ~");
    assert_eq!(quoted, "'hi; rm -rf ~'");
}

#[test]
fn posix_quote_escapes_embedded_single_quote() {
    let quoted = quote_literal_posix("it's a test");
    // shell_words escapes by closing/reopening the quote around '
    assert!(!quoted.contains("'s a test'a"));
    // round-trip through shell_words::split must recover the original
    let joined = format!("echo {quoted}");
    let parts = shell_words::split(&joined).unwrap();
    assert_eq!(parts, vec!["echo", "it's a test"]);
}

#[test]
fn powershell_quote_escapes_embedded_single_quote() {
    assert_eq!(quote_literal_powershell("it's"), "'it''s'");
}

#[test]
fn posix_quote_leaves_safe_text_and_wraps_the_rest() {
    assert_eq!(quote_literal_posix("plain-text_1.0"), "plain-text_1.0");
    assert_eq!(quote_literal_posix(""), "''");
    assert_eq!(quote_literal_posix("a b"), "'a b'");
    assert_eq!(quote_literal_posix("line\nbreak"), "'line\nbreak'");
    assert_eq!(quote_literal_posix("it's\n"), "'it'\\''s\n'");
    for special in "\n'|&;<>()$`\\\" \t*?[#~=%".chars() {
        let value = format!("a{special}b");
        let quoted = quote_literal_posix(&value);
        assert_ne!(quoted, value);
        assert_eq!(shell_words::split(&quoted).unwrap(), vec![value]);
    }
}

#[test]
fn powershell_quote_always_wraps() {
    assert_eq!(quote_literal_powershell(""), "''");
    assert_eq!(quote_literal_powershell("''"), "''''''");
    assert_eq!(quote_literal_powershell("a b"), "'a b'");
}

#[test]
fn text_and_number_values_are_substituted_literally_and_quoted() {
    let resolved = vec![
        literal(CmdVarKind::Text, "message", "hello; whoami"),
        literal(CmdVarKind::Number, "count", "42"),
    ];
    for target_os in ["linux", "windows"] {
        let windows = is_windows(target_os);
        let (line, secrets) =
            build_command_line(windows, "say %t:message repeated %n:count times", &resolved)
                .unwrap();
        assert!(secrets.is_empty());
        // the injection attempt must be neutralized - kept inside a single
        // quoted token, not left as an unquoted, shell-interpretable value
        let quoted = if windows {
            quote_literal_powershell("hello; whoami")
        } else {
            quote_literal_posix("hello; whoami")
        };
        assert!(line.contains(&quoted));
        assert!(line.contains("42"));
    }
}

#[test]
fn only_windows_has_powershell() {
    assert!(is_windows("windows"));
    for target_os in ["linux", "macos", "cygwin", "uefi", ""] {
        assert!(!is_windows(target_os));
    }
}

#[test]
fn secret_value_never_appears_literally_in_command_line() {
    let resolved = vec![literal(CmdVarKind::Secret, "token", "sk-super-secret-value")];
    let (line, secrets) =
        build_command_line(false, "curl -H 'Authorization: %s:token' api.example.com", &resolved).unwrap();

    assert!(!line.contains("sk-super-secret-value"));
    assert_eq!(secrets.len(), 1);
    assert_eq!(secrets[0].0, "INR_SECRET_1");
    assert_eq!(secrets[0].1.as_str(), "sk-super-secret-value");
    // command line references the env var, doesn't inline the value
    assert!(line.contains("INR_SECRET_1"));
}

#[test]
fn repeated_placeholder_is_replaced_everywhere() {
    let resolved = vec![literal(CmdVarKind::Text, "msg", "hi")];
    let (line, _) = build_command_line(false, "echo %t:msg && echo %t:msg", &resolved).unwrap();
    assert_eq!(line.matches("hi").count(), 2);
    assert!(!line.contains("%t:msg"));
}

#[test]
fn missing_placeholder_in_template_errors() {
    let resolved = vec![literal(CmdVarKind::Text, "nope", "x")];
    assert!(build_command_line(false, "echo hi", &resolved).is_err());
}

#[test]
fn bracketed_number_placeholder_concatenates_with_adjacent_literal_text() {
    let resolved = vec![literal(CmdVarKind::Number, "number", "13.01")];
    let (line, secrets) = build_command_line(false, "echo [%n:number]ether", &resolved).unwrap();
    assert!(secrets.is_empty());
    // brackets are delimiters only - never in the output - and the
    // value sits directly against the literal suffix, no stray space.
    assert!(line.contains("13.01ether"), "line was: {line}");
    assert!(!line.contains('['));
    assert!(!line.contains(']'));
}

#[test]
fn bracketed_text_placeholder_strips_brackets() {
    let resolved = vec![literal(CmdVarKind::Text, "name", "plural")];
    let (line, _) = build_command_line(false, "echo [%t:name]s", &resolved).unwrap();
    assert!(line.contains("plurals"), "line was: {line}");
    assert!(!line.contains('['));
}

#[test]
fn bare_and_bracketed_occurrences_of_same_variable_both_substituted() {
    let resolved = vec![literal(CmdVarKind::Text, "msg", "hi")];
    let (line, _) = build_command_line(false, "echo %t:msg && echo [%t:msg]!", &resolved).unwrap();
    assert_eq!(line.matches("hi").count(), 2);
    assert!(line.contains("hi!"));
    assert!(!line.contains('['));
}

#[test]
fn missing_variable_is_named() {
    let resolved = vec![literal(CmdVarKind::Text, "a", "x"), literal(CmdVarKind::Text, "nope", "x")];
    let message = match build_command_line(false, "echo %t:a", &resolved) {
        Ok(_) => panic!("the template does not hold the variable"),
        Err(e) => e.message(),
    };
    assert_eq!(message, "variable 'nope' not found in template");
}

#[test]
fn lines_for_both_shells() {
    let resolved = vec![
        literal(CmdVarKind::Text, "msg", "it's"),
        literal(CmdVarKind::Secret, "token", "s3cr3t"),
        literal(CmdVarKind::Secret, "other", "0th3r"),
    ];
    let template = "send %t:msg --as %s:token --to %s:other";
    let (line, secrets) = build_command_line(false, template, &resolved).unwrap();
    assert_eq!(line, "send 'it'\\''s' --as \"$INR_SECRET_2\" --to \"$INR_SECRET_3\"");
    let (line, _) = build_command_line(true, template, &resolved).unwrap();
    assert_eq!(line, "send 'it''s' --as \"$env:INR_SECRET_2\" --to \"$env:INR_SECRET_3\"");
    let names: Vec<&str> = secrets.iter().map(|s| s.0.as_str()).collect();
    assert_eq!(names, vec!["INR_SECRET_2", "INR_SECRET_3"]);
    assert_eq!(secrets[1].1.as_str(), "0th3r");
}

#[test]
fn a_value_that_looks_like_a_placeholder_stays_a_value() {
    let resolved = vec![
        literal(CmdVarKind::Text, "a", "%t:b"),
        literal(CmdVarKind::Text, "b", "; whoami"),
    ];
    let (line, _) = build_command_line(false, "echo %t:a %t:b", &resolved).unwrap();
    assert_eq!(line, "echo '%t:b' '; whoami'");
}

#[test]
fn lines_do_not_depend_on_the_values_of_secrets() {
    let one = vec![literal(CmdVarKind::Secret, "token", "one")];
    let two = vec![literal(CmdVarKind::Secret, "token", "%s:token")];
    let template = "curl -H %s:token";
    assert_eq!(
        build_command_line(false, template, &one).unwrap().0,
        build_command_line(false, template, &two).unwrap().0
    );
}

#[test]
fn every_parsed_variable_is_substituted() {
    let template = "[%n:a]x %t:b%s:c [%t:b]";
    let resolved: Vec<ResolvedVar> = parse_placeholders(template)
        .unwrap()
        .into_iter()
        .map(|v| ResolvedVar {
            var: v,
            value: SecretText::new("7".to_string()),
            source: BindingSource::Literal,
        })
        .collect();
    let (line, _) = build_command_line(false, template, &resolved).unwrap();
    assert_eq!(line, "7x 7\"$INR_SECRET_3\" 7");
}

#[test]
fn history_never_shows_a_secret() {
    let typed = literal(CmdVarKind::Secret, "token", "s3cr3t").to_history_binding();
    assert_eq!(typed.display, "<entered directly, hidden>");
    assert_eq!(typed.name, "token");
    assert_eq!(typed.kind, "secret");
    let from_env = ResolvedVar {
        var: var(CmdVarKind::Secret, "token"),
        value: SecretText::new("s3cr3t".to_string()),
        source: BindingSource::Env("apikey".to_string()),
    };
    assert_eq!(from_env.to_history_binding().display, "@apikey");
    assert_eq!(literal(CmdVarKind::Number, "n", "42").to_history_binding().display, "42");
}

#[test]
fn shells_are_called_without_their_profiles() {
    assert_eq!(
        shell_invocation(true, Some("/bin/zsh".to_string())),
        ("powershell.exe".to_string(), vec!["-NoProfile".to_string(), "-Command".to_string()])
    );
    assert_eq!(
        shell_invocation(false, Some("/bin/zsh".to_string())),
        ("/bin/zsh".to_string(), vec!["-c".to_string()])
    );
    assert_eq!(shell_invocation(false, None), ("/bin/sh".to_string(), vec!["-c".to_string()]));
}

#[test]
fn a_name_that_begins_another_name_keeps_to_its_own_placeholder() {
    let resolved = vec![
        literal(CmdVarKind::Text, "a", "x"),
        literal(CmdVarKind::Text, "ab", "y"),
    ];
    let (line, _) = build_command_line(false, "cp %t:a %t:ab", &resolved).ok().unwrap();
    assert_eq!(line, "cp x y");
    let (line, _) = build_command_line(false, "cp %t:ab [%t:a]b %t:a", &resolved).ok().unwrap();
    assert_eq!(line, "cp y xb x");

    let err = build_command_line(false, "cp %t:ab", &resolved[..1]).err().unwrap();
    assert_eq!(err.message(), "variable 'a' not found in template");

    let template = "[%n:number]ether and %n:numberether";
    let vars = parse_placeholders(template).unwrap();
    let resolved: Vec<ResolvedVar> =
        vars.iter().map(|v| literal(v.kind, &v.name, "1")).collect();
    let (line, _) = build_command_line(false, template, &resolved).ok().unwrap();
    assert_eq!(line, "1ether and 1");
}

#[test]
fn a_failed_commands_code_is_passed_on() {
    assert_eq!(failure_code(true, Some(0)), None);
    assert_eq!(failure_code(false, Some(3)), Some(3));
    assert_eq!(failure_code(false, None), Some(1));
}
