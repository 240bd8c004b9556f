//! What follows from what the user types and picks.

use vstd::prelude::*;

#[allow(unused_imports)]
use crate::commands::edit::{env_listed, existing_defaults};
#[allow(unused_imports)]
use crate::commands::env_search::{CLIPBOARD_CLEAR_AFTER_SECS, KEY_POLL_MILLIS};
#[allow(unused_imports)]
use crate::db::history_repo::RECENT_RUNS;
#[allow(unused_imports)]
use crate::db::vault::distinct_variables;
#[allow(unused_imports)]
use crate::interactive::MIN_PASSWORD_CHARS;
#[allow(unused_imports)]
use crate::laws::names::is_word_char;
#[allow(unused_imports)]
use crate::laws::records::variable_kind_name;
#[allow(unused_imports)]
use crate::laws::transfers::kind_name;
#[allow(unused_imports)]
use crate::models::{
    CmdVarKind, EnvKind, EnvView, StoredEnv, StoredVariableView, VariableView,
};
#[allow(unused_imports)]
use crate::number::is_float;
#[allow(unused_imports)]
use crate::shell::SourceView;
#[allow(unused_imports)]
use crate::text::{is_blank, is_space, read_lossily};
#[allow(unused_imports)]
use crate::tui::{
    command_suggestion, display_value, env_suggestion, id_suffix, id_suffix_is, is_id_char,
    is_id_suffix, passes_filter, picked_id, EnvLookupMode, MAX_SUGGESTIONS,
};
#[allow(unused_imports)]
use crate::vars::{
    begins_a_search, default_env_action, literal_action, secret_action, DefaultEnvAction,
    DefaultEnvChoice, DefaultEnvEvent, LiteralAction, LiteralEvent, SecretAction, SecretEvent,
};
#[allow(unused_imports)]
use crate::views::views;

verus! {

broadcast use vstd::string::group_string_axioms;

/// A picked env that the variable can take gives its value, as text, under its
/// name. One that is gone or of another kind gives nothing, and the user is
/// asked again. Leaving gives the variable up.
pub proof fn a_picked_env_gives_its_value(
    var: VariableView,
    env: StoredEnv,
    r: LiteralAction,
    gone: LiteralAction,
    left: LiteralAction,
)
    requires
        literal_action(var, LiteralEvent::LookedUp(Some(env)), r),
        literal_action(var, LiteralEvent::LookedUp(None), gone),
        literal_action(var, LiteralEvent::Cancelled, left),
    ensures
        env.kind.fills() == var.kind ==> (r matches LiteralAction::Finish(Some(rv)) && rv@.var
            == var && rv@.value == read_lossily(env.value@) && rv@.source == SourceView::Env(
            env.name@,
        )),
        env.kind.fills() != var.kind ==> (r matches LiteralAction::AskAgain(notice) && notice@
            == "'"@ + env.name@ + "' is a "@ + kind_name(env.kind)
            + " env, not compatible with a "@ + variable_kind_name(var.kind)
            + " variable - pick a different one."@),
        gone matches LiteralAction::AskAgain(notice) && notice@
            == "That env no longer exists, try again."@,
        left == LiteralAction::Finish(None),
{
}

/// A suggestion that was offered is looked up by the id it ends with. What is
/// typed is the value under the variable's own name, if it is a number where
/// one is wanted and does not begin a search.
pub proof fn answers_are_picks_or_values(
    var: VariableView,
    answer: String,
    offered: Vec<String>,
    r: LiteralAction,
)
    requires
        literal_action(var, LiteralEvent::Answered { answer, offered }, r),
    ensures
        views(offered@).contains(answer@) && id_suffix(answer@) is Some ==> (
        r matches LiteralAction::LookUp(id) && Some(id@) == id_suffix(answer@)),
        !views(offered@).contains(answer@) && !begins_a_search(answer@, 0) && (var.kind
            != CmdVarKind::Number || is_float(answer@)) ==> (r matches LiteralAction::Finish(
            Some(rv),
        ) && rv@.var == var && rv@.value == answer@ && rv@.source is Literal),
        !views(offered@).contains(answer@) && begins_a_search(answer@, 0) ==> (
        r matches LiteralAction::AskAgain(notice) && notice@
            == "Type to search, then use \u{2191}/\u{2193} and Enter to select a saved env."@),
        !views(offered@).contains(answer@) && !begins_a_search(answer@, 0) && var.kind
            == CmdVarKind::Number && !is_float(answer@) ==> (
        r matches LiteralAction::AskAgain(notice) && notice@ == "'"@ + answer@
            + "' is not a valid number, try again."@),
{
}

/// A search begins with an at sign, behind white space or not. Any other first
/// character begins a value.
pub proof fn an_at_sign_begins_a_search(spaces: Seq<char>, c: char, rest: Seq<char>)
    requires
        is_blank(spaces),
    ensures
        begins_a_search(spaces + seq!['@'] + rest, 0),
        !is_space(c) && c != '@' ==> !begins_a_search(spaces + seq![c] + rest, 0),
        !begins_a_search(spaces, 0),
{
    search_behind_spaces(spaces + seq!['@'] + rest, spaces, 0);
    search_behind_spaces(spaces + seq![c] + rest, spaces, 0);
    search_behind_spaces(spaces, spaces, 0);
}

proof fn search_behind_spaces(s: Seq<char>, spaces: Seq<char>, i: int)
    requires
        is_blank(spaces),
        0 <= i <= spaces.len() <= s.len(),
        forall|k: int| 0 <= k < spaces.len() ==> s[k] == spaces[k],
    ensures
        begins_a_search(s, i) == (spaces.len() < s.len() && if is_space(s[spaces.len() as int]) {
            begins_a_search(s, spaces.len() as int)
        } else {
            s[spaces.len() as int] == '@'
        }),
    decreases spaces.len() - i,
{
    if i < spaces.len() {
        assert(is_space(spaces[i]));
        search_behind_spaces(s, spaces, i + 1);
    }
}

/// A secret that is typed is taken as it was typed. One that is picked is
/// decrypted if it may fill the variable, and else the search goes on.
pub proof fn secrets_are_taken_as_typed_or_picked(
    var: VariableView,
    choice: String,
    value: String,
    env: StoredEnv,
    chosen: SecretAction,
    typed: SecretAction,
    picked: SecretAction,
    left: SecretAction,
)
    requires
        secret_action(var, SecretEvent::Chose(choice), chosen),
        secret_action(var, SecretEvent::Typed(value), typed),
        secret_action(var, SecretEvent::Picked(env), picked),
        secret_action(var, SecretEvent::Cancelled, left),
    ensures
        choice@ == "Type it"@ ==> chosen is AskValue,
        choice@ == "Look up from saved secrets (@)"@ ==> chosen is Search,
        typed matches SecretAction::Finish(Some(rv)) && rv@.var == var && rv@.value == value@
            && rv@.source is Literal,
        env.kind.fills() == var.kind ==> picked == SecretAction::Decrypt(env),
        env.kind.fills() != var.kind ==> picked is Search,
        left == SecretAction::Finish(None),
{
    reveal_strlit("Type it");
    reveal_strlit("Look up from saved secrets (@)");
    assert("Type it"@.len() == 7);
}

/// Only what the user asks for changes a default env: keeping it, leaving the
/// menu and leaving the search change nothing, removing it removes it, and an
/// env that may fill the variable becomes it when it is picked.
pub proof fn defaults_change_only_when_asked(
    var: VariableView,
    choice: String,
    env: StoredEnv,
    chosen: DefaultEnvAction,
    picked: DefaultEnvAction,
    none: DefaultEnvAction,
    left: DefaultEnvAction,
)
    requires
        default_env_action(var, DefaultEnvEvent::Chose(choice), chosen),
        default_env_action(var, DefaultEnvEvent::Picked(Some(env)), picked),
        default_env_action(var, DefaultEnvEvent::Picked(None), none),
        default_env_action(var, DefaultEnvEvent::Cancelled, left),
    ensures
        choice@ == "Keep current default"@ || choice@ == "No default"@ ==> chosen
            == DefaultEnvAction::Finish(DefaultEnvChoice::Unchanged),
        choice@ == "Remove default"@ ==> chosen == DefaultEnvAction::Finish(
            DefaultEnvChoice::Cleared,
        ),
        choice@ == "Change default env"@ || choice@ == "Set a default env"@ ==> chosen is Search,
        env.kind.fills() == var.kind ==> picked == DefaultEnvAction::Finish(
            DefaultEnvChoice::SetTo(env),
        ),
        env.kind.fills() != var.kind ==> picked is SearchAgain,
        none == DefaultEnvAction::Finish(DefaultEnvChoice::Unchanged),
        left == DefaultEnvAction::Finish(DefaultEnvChoice::Unchanged),
{
    reveal_strlit("Keep current default");
    reveal_strlit("No default");
    reveal_strlit("Remove default");
    reveal_strlit("Change default env");
    reveal_strlit("Set a default env");
    assert("Keep current default"@.len() == 20 && "No default"@.len() == 10);
    assert("Remove default"@.len() == 14 && "Change default env"@.len() == 18);
    assert("Set a default env"@.len() == 17);
}

/// A text that ends with an id in brackets, and nothing but white space behind
/// it, names that id. A text that ends otherwise names none.
pub proof fn ids_stand_in_brackets_at_the_end(
    before: Seq<char>,
    id: Seq<char>,
    spaces: Seq<char>,
    c: char,
)
    requires
        id.len() > 0,
        forall|i: int|
            0 <= i < id.len() ==> is_id_char(#[trigger] id[i]),
        is_blank(spaces),
    ensures
        id_suffix(before + seq!['['] + id + seq![']'] + spaces) == Some(id),
        !is_space(c) && c != ']' ==> id_suffix(before + seq![c] + spaces) is None,
        id_suffix(spaces) is None,
{
    let s = before + seq!['['] + id + seq![']'] + spaces;
    let from = before.len() as int + 1;
    let to = from + id.len();
    assert(s[from - 1] == '[' && s[to] == ']');
    assert forall|k: int| from <= k < to implies is_id_char(#[trigger] s[k]) by {
        assert(s[k] == id[k - from]);
    }
    assert forall|k: int| to < k < s.len() implies is_space(#[trigger] s[k]) by {
        assert(s[k] == spaces[k - to - 1]);
    }
    id_suffix_is(s, from, to);
    assert(s.subrange(from, to) =~= id);
    let t = before + seq![c] + spaces;
    if !is_space(c) && c != ']' {
        let n = before.len() as int;
        assert forall|f: int, e: int| !is_id_suffix(t, f, e) by {
            if is_id_suffix(t, f, e) {
                assert(t[n] == c);
                if e < n {
                    assert(is_space(t[n]));
                } else if e > n {
                    assert(t[e] == spaces[e - n - 1]);
                    assert(is_space(spaces[e - n - 1]));
                }
            }
        }
    }
    assert forall|f: int, e: int| !is_id_suffix(spaces, f, e) by {
        if is_id_suffix(spaces, f, e) {
            assert(is_space(spaces[e]));
        }
    }
}

/// An id holds letters, digits, underscores and hyphens.
pub proof fn ids_are_words_with_hyphens(c: char)
    ensures
        is_id_char(c) <==> is_word_char(c) || c == '-',
{
}

/// Only what was offered is a pick, whatever was typed.
pub proof fn only_offers_are_picks(answer: Seq<char>, offered: Seq<Seq<char>>)
    ensures
        offered.contains(answer) ==> picked_id(answer, offered) == id_suffix(answer),
        !offered.contains(answer) ==> picked_id(answer, offered) is None,
{
}

/// A search that is restricted gives the kinds that it is restricted to, and
/// one that is not gives all.
pub proof fn filters_let_their_kinds_through(kind: EnvKind, kinds: Seq<EnvKind>, other: EnvKind)
    ensures
        passes_filter(kind, Seq::empty()),
        passes_filter(kind, kinds.push(kind)),
        kind != other && !kinds.contains(kind) ==> !passes_filter(kind, kinds.push(other)),
{
    let more = kinds.push(kind);
    assert(more[kinds.len() as int] == kind);
    assert(more.contains(kind));
    let list = kinds.push(other);
    if list.contains(kind) && kind != other {
        let i = choose|i: int| 0 <= i < list.len() && list[i] == kind;
        assert(kinds[i] == kind);
    }
}

/// Where values are typed, a search waits for an at sign, and looks for what
/// stands behind it. Where there is nothing but a search, all of it is looked
/// for.
pub proof fn searches_wait_for_an_at_sign(query: Seq<char>)
    ensures
        EnvLookupMode::Deferred.query_of(seq!['@'] + query) == Some(query),
        query.len() == 0 || query[0] != '@' ==> EnvLookupMode::Deferred.query_of(query) is None,
        EnvLookupMode::Immediate.query_of(query) == Some(query),
{
    let s = seq!['@'] + query;
    assert(s.subrange(1, s.len() as int) =~= query);
}

/// A list shows the value of an env as text, but of a secret three stars.
pub proof fn lists_show_values_but_not_secrets(env: EnvView)
    ensures
        display_value(env) == if env.kind == EnvKind::Secret {
            "***"@
        } else {
            read_lossily(env.value)
        },
{
}

/// A line of a list shows all that it is made of, in order, and ends with the
/// id in brackets.
pub proof fn suggestions_show_all_their_parts(
    a: Seq<char>,
    b: Seq<char>,
    c: Seq<char>,
    d: Seq<char>,
    id: Seq<char>,
)
    ensures
        command_suggestion(a, b, c, id) == a + " "@ + b + " "@ + c + "   ["@ + id + "]"@,
        env_suggestion(a, b, c, d, id) == a + " "@ + b + " "@ + c + "  "@ + d + "   ["@ + id
            + "]"@,
{
}

/// What is shown as a variable's current default is the env that its default
/// names, if that still exists.
pub proof fn current_defaults_are_those_that_exist(
    vars: Seq<StoredVariableView>,
    envs: Seq<Option<EnvView>>,
    i: int,
)
    requires
        vars.len() == envs.len(),
        distinct_variables(vars),
        0 <= i < vars.len(),
    ensures
        ({
            let list = existing_defaults(vars, envs, vars.len() as int);
            env_listed(list, list.len() as int, vars[i].var.name) == if vars[i].default_env_id
                is Some {
                envs[i]
            } else {
                None
            }
        }),
{
    listed_up_to(vars, envs, vars.len() as int, i);
}

proof fn listed_up_to(
    vars: Seq<StoredVariableView>,
    envs: Seq<Option<EnvView>>,
    n: int,
    i: int,
)
    requires
        vars.len() == envs.len(),
        distinct_variables(vars),
        0 <= i < vars.len(),
        0 <= n <= vars.len(),
    ensures
        ({
            let list = existing_defaults(vars, envs, n);
            env_listed(list, list.len() as int, vars[i].var.name) == if i < n
                && vars[i].default_env_id is Some {
                envs[i]
            } else {
                None
            }
        }),
    decreases n,
{
    if n > 0 {
        listed_up_to(vars, envs, n - 1, i);
        let before = existing_defaults(vars, envs, n - 1);
        let list = existing_defaults(vars, envs, n);
        if i < n - 1 {
            assert(vars[i].var.name != vars[n - 1].var.name);
        } else if n - 1 < i {
            assert(vars[n - 1].var.name != vars[i].var.name);
        }
        if list.len() > before.len() {
            same_listing(before, list, before.len() as int, vars[i].var.name);
        }
    }
}

proof fn same_listing(
    a: Seq<(Seq<char>, EnvView)>,
    b: Seq<(Seq<char>, EnvView)>,
    n: int,
    name: Seq<char>,
)
    requires
        n <= a.len(),
        n <= b.len(),
        forall|k: int| 0 <= k < n ==> a[k] == b[k],
    ensures
        env_listed(a, n, name) == env_listed(b, n, name),
    decreases n,
{
    if n > 0 {
        same_listing(a, b, n - 1, name);
    }
}

/// The numbers that the program keeps to.
pub proof fn limits_are_as_promised()
    ensures
        MIN_PASSWORD_CHARS == 8,
        MAX_SUGGESTIONS == 10,
        RECENT_RUNS == 20,
        CLIPBOARD_CLEAR_AFTER_SECS == 20,
        KEY_POLL_MILLIS == 200,
{
}

} // verus!
