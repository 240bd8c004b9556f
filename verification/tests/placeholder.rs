use inr::models::{CmdVarKind, CmdVariable};
use inr::placeholder::parse_placeholders;

#[test]
fn parses_placeholders_from_template() {
    let vars = parse_placeholders("ssh %s:host -p %n:port -m %t:message").unwrap();
    assert_eq!(
        vars,
        vec![
            CmdVariable { kind: CmdVarKind::Secret, name: "host".into() },
            CmdVariable { kind: CmdVarKind::Number, name: "port".into() },
            CmdVariable { kind: CmdVarKind::Text, name: "message".into() },
        ]
    );
}

#[test]
fn no_placeholders_returns_empty() {
    assert!(parse_placeholders("docker compose up -d").unwrap().is_empty());
}

#[test]
fn dedups_repeated_same_kind_placeholder() {
    let vars = parse_placeholders("echo %t:msg && echo %t:msg again").unwrap();
    assert_eq!(vars.len(), 1);
}

#[test]
fn conflicting_kind_for_same_name_errors() {
    let err = parse_placeholders("echo %t:x && echo %s:x").unwrap_err();
    assert!(err.message().contains("conflicting kinds"));
}

#[test]
fn parses_bracketed_text_and_number_placeholders() {
    let vars = parse_placeholders("[%n:number]ether and [%t:name]s").unwrap();
    assert_eq!(
        vars,
        vec![
            CmdVariable { kind: CmdVarKind::Number, name: "number".into() },
            CmdVariable { kind: CmdVarKind::Text, name: "name".into() },
        ]
    );
}

#[test]
fn bare_and_bracketed_forms_of_same_variable_dedup_together() {
    let vars = parse_placeholders("echo %t:msg and [%t:msg]!").unwrap();
    assert_eq!(vars, vec![CmdVariable { kind: CmdVarKind::Text, name: "msg".into() }]);
}

#[test]
fn bracketed_secret_is_rejected_immediately() {
    let err = parse_placeholders("curl -H 'Authorization: [%s:token]'").unwrap_err();
    let msg = err.message();
    assert!(msg.contains("secret"));
    assert!(msg.contains("[%s:token]"));
}

#[test]
fn bare_secret_is_still_allowed() {
    let vars = parse_placeholders("curl -H 'Authorization: %s:token'").unwrap();
    assert_eq!(vars, vec![CmdVariable { kind: CmdVarKind::Secret, name: "token".into() }]);
}

#[test]
fn bare_form_without_brackets_greedily_consumes_adjacent_text() {
    // Documented, not fixed: without brackets, adjacent identifier
    // characters are swallowed into the name - `numberether` is parsed
    // as one variable, not `number` + literal `ether`.
    let vars = parse_placeholders("[%n:number]ether and %n:numberether").unwrap();
    assert_eq!(
        vars,
        vec![
            CmdVariable { kind: CmdVarKind::Number, name: "number".into() },
            CmdVariable { kind: CmdVarKind::Number, name: "numberether".into() },
        ]
    );
}

#[test]
fn unambiguous_bare_placeholder_needs_no_brackets() {
    let vars = parse_placeholders("ssh %s:host -p %n:port -m %t:message").unwrap();
    assert_eq!(vars.len(), 3);
}

#[test]
fn fault_messages_name_the_variable() {
    assert_eq!(
        parse_placeholders("[%s:token]").unwrap_err().message(),
        "secret variable 'token' cannot use bracket syntax [%s:token] - secrets are never inlined \
         as literal text; use bare %s:token instead"
    );
    assert_eq!(
        parse_placeholders("%n:x %t:x").unwrap_err().message(),
        "variable 'x' used with conflicting kinds (number and text)"
    );
}

#[test]
fn the_first_fault_is_reported() {
    let err = parse_placeholders("%t:a %n:a [%s:b]").unwrap_err();
    assert!(err.message().contains("'a'"));
    let err = parse_placeholders("[%s:b] %t:a %n:a").unwrap_err();
    assert!(err.message().contains("'b'"));
}

fn names(template: &str) -> Vec<String> {
    parse_placeholders(template).unwrap().into_iter().map(|v| v.name).collect()
}

#[test]
fn what_is_not_quite_a_placeholder_is_text() {
    for template in ["%t:", "%t: x", "%x:name", "%t;name", "%t:9lives", "t:name", "%", "%t", "[%t:]"] {
        assert!(parse_placeholders(template).unwrap().is_empty(), "{template}");
    }
}

#[test]
fn brackets_that_do_not_close_leave_a_bare_placeholder() {
    assert_eq!(names("[%t:a"), vec!["a"]);
    assert_eq!(names("[%t:a b]"), vec!["a"]);
    assert_eq!(names("[[%t:a]]"), vec!["a"]);
    // an unclosed bracket in front of a secret is text, not bracket syntax
    assert_eq!(names("[%s:a"), vec!["a"]);
}

#[test]
fn placeholders_may_touch() {
    assert_eq!(names("%t:a%n:b[%t:c]%s:d_1"), vec!["a", "b", "c", "d_1"]);
    assert_eq!(names("%%t:a"), vec!["a"]);
    assert_eq!(names("%t:_x9"), vec!["_x9"]);
    assert_eq!(names("\u{e9}%t:a\u{e9}"), vec!["a"]);
}

#[test]
fn a_placeholder_parses_back_to_its_variable() {
    let v = CmdVariable { kind: CmdVarKind::Number, name: "count_2".into() };
    assert_eq!(parse_placeholders(&v.placeholder()).unwrap(), vec![v.clone()]);
    assert_eq!(parse_placeholders(&v.bracketed_placeholder()).unwrap(), vec![v]);
}
