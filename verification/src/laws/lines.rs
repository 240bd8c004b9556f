//! What a command line holds: the template as it stands, with each value in
//! the place of its placeholder.

use vstd::prelude::*;

#[allow(unused_imports)]
use crate::error::VaultError;
#[allow(unused_imports)]
use crate::laws::names::{
    a_spelled_variable_is_found, is_word, one_occurrence, placeholders_are_written, surrounds,
    written,
};
#[allow(unused_imports)]
use crate::models::{CmdVarKind, VariableView};
#[allow(unused_imports)]
use crate::number::{digits, digits_value, is_digit};
#[allow(unused_imports)]
use crate::placeholder::{
    occurrence_at, occurrences, occurs, parsed_variables_are_those_that_occur, template_variables,
    Fault,
};
#[allow(unused_imports)]
use crate::placement::{
    occurrence_text, placed_from, slots_stand_where_placeholders_stood, spelling,
};
#[allow(unused_imports)]
use crate::shell::{
    command_line, history_record, is_command_line, parsed_templates_are_filled, posix_quoted,
    powershell_quoted_is_one_string, quoted_value_is_one_literal_word, replacements, secret_envs,
    shell_call, shell_word, variables, CommandLine, ResolvedView, SourceView,
};
#[allow(unused_imports)]
use crate::slots::{cells, char_cell, filled, with_variables, Cell};
#[allow(unused_imports)]
use crate::text::{decimal, digit_char, read_doubled};
#[allow(unused_imports)]
use crate::views::{group_views, views};

verus! {

broadcast use {vstd::string::group_string_axioms, group_views};

/// Text without slots comes out as it went in.
pub proof fn filling_keeps_text(t: Seq<char>, texts: Seq<Seq<char>>)
    ensures
        filled(cells(t), texts) == t,
    decreases t.len(),
{
    if t.len() > 0 {
        let rest = t.drop_last();
        filling_keeps_text(rest, texts);
        assert(cells(t).drop_last() =~= cells(rest));
        assert(cells(t).last() == char_cell(t.last()));
        assert(rest + seq![t.last()] =~= t);
    } else {
        assert(filled(cells(t), texts) =~= t);
    }
}

/// A slot comes out as its text.
pub proof fn filling_puts_texts_in_slots(k: usize, texts: Seq<Seq<char>>)
    requires
        k < texts.len(),
    ensures
        filled(seq![Cell::Slot(k)], texts) == texts[k as int],
{
    let line = seq![Cell::Slot(k)];
    assert(line.drop_last() =~= Seq::<Cell>::empty());
    assert(filled(line.drop_last(), texts) =~= Seq::<char>::empty());
    assert(filled(line, texts) =~= texts[k as int]);
}

/// What stands side by side comes out side by side.
pub proof fn filling_goes_piece_by_piece(a: Seq<Cell>, b: Seq<Cell>, texts: Seq<Seq<char>>)
    ensures
        filled(a + b, texts) == filled(a, texts) + filled(b, texts),
    decreases b.len(),
{
    if b.len() == 0 {
        assert(a + b =~= a);
        assert(filled(a, texts) + filled(b, texts) =~= filled(a, texts));
    } else {
        filling_goes_piece_by_piece(a, b.drop_last(), texts);
        assert((a + b).drop_last() =~= a + b.drop_last());
        assert((a + b).last() == b.last());
        let c = match b.last() {
            Cell::Char(c) => seq![c],
            Cell::Slot(slot) => texts[slot as int],
        };
        assert(filled(a, texts) + filled(b.drop_last(), texts) + c =~= filled(a, texts) + (filled(
            b.drop_last(),
            texts,
        ) + c));
    }
}

/// A command without variables is run as it was saved.
pub proof fn a_plain_template_is_run_as_it_stands(windows: bool, template: Seq<char>)
    ensures
        command_line(windows, template, Seq::empty()) == Ok::<Seq<char>, int>(template),
{
    assert(variables(Seq::empty()) =~= Seq::<VariableView>::empty());
    filling_keeps_text(template, replacements(windows, Seq::empty()));
}

/// The placeholders of some variables in one spelling.
pub open spec fn spellings(vars: Seq<VariableView>, bare: bool) -> Seq<Seq<char>> {
    Seq::new(
        vars.len(),
        |i: int|
            if bare {
                written(vars[i].kind, vars[i].name)
            } else {
                "["@ + written(vars[i].kind, vars[i].name) + "]"@
            },
    )
}

proof fn placed_text_is_put_back(s: Seq<char>, vars: Seq<VariableView>, bare: bool, i: int)
    requires
        0 <= i <= s.len(),
        vars.len() <= usize::MAX,
        forall|j: int| 0 <= j < occurrences(s, i).len() ==> vars.contains(
            (#[trigger] occurrences(s, i)[j]).var,
        ) && occurrences(s, i)[j].bracketed != bare,
    ensures
        filled(placed_from(s, vars, i), spellings(vars, bare)) == s.skip(i),
    decreases s.len() - i,
{
    let texts = spellings(vars, bare);
    let line = placed_from(s, vars, i);
    if i < s.len() {
        match occurrence_at(s, i) {
            Some(o) => {
                occurrence_text(s, i);
                let os = occurrences(s, i);
                let later = occurrences(s, o.end);
                assert(os == seq![o] + later);
                assert(os[0] == o);
                assert(vars.contains(os[0].var) && os[0].bracketed != bare);
                assert forall|j: int| 0 <= j < later.len() implies vars.contains(
                    (#[trigger] later[j]).var,
                ) && later[j].bracketed != bare by {
                    assert(os[j + 1] == later[j]);
                }
                placed_text_is_put_back(s, vars, bare, o.end);
                let k = vars.index_of(o.var);
                assert(0 <= k < vars.len() && vars[k] == o.var);
                filling_goes_piece_by_piece(
                    seq![Cell::Slot(k as usize)],
                    placed_from(s, vars, o.end),
                    texts,
                );
                filling_puts_texts_in_slots(k as usize, texts);
                placeholders_are_written(o.var);
                assert(texts[k] == s.subrange(i, o.end));
                assert(s.subrange(i, o.end) + s.skip(o.end) =~= s.skip(i));
            },
            None => {
                assert(occurrences(s, i) == occurrences(s, i + 1));
                placed_text_is_put_back(s, vars, bare, i + 1);
                filling_goes_piece_by_piece(
                    seq![char_cell(s[i])],
                    placed_from(s, vars, i + 1),
                    texts,
                );
                assert(cells(seq![s[i]]) =~= seq![char_cell(s[i])]);
                filling_keeps_text(seq![s[i]], texts);
                assert(seq![s[i]] + s.skip(i + 1) =~= s.skip(i));
            },
        }
    } else {
        assert(filled(line, texts) =~= s.skip(i));
    }
}

/// Only the placeholders of a template are replaced, and all of them: with
/// each variable's placeholder put back in its slots the template is there
/// again, character by character. Said of templates whose placeholders are all
/// spelled alike, all bare or all in brackets.
pub proof fn everything_but_the_placeholders_stays(template: Seq<char>, bare: bool)
    requires
        template_variables(template) is Ok,
        template_variables(template)->Ok_0.len() <= usize::MAX,
        forall|j: int|
            0 <= j < occurrences(template, 0).len() ==> (#[trigger] occurrences(
                template,
                0,
            )[j]).bracketed != bare,
    ensures
        ({
            let vars = template_variables(template)->Ok_0;
            with_variables(cells(template), vars, 0) matches Ok(line) && filled(
                line,
                spellings(vars, bare),
            ) == template
        }),
{
    let vars = template_variables(template)->Ok_0;
    let os = occurrences(template, 0);
    parsed_variables_are_those_that_occur(template);
    assert forall|j: int| 0 <= j < os.len() implies vars.contains((#[trigger] os[j]).var)
        && os[j].bracketed != bare by {
        assert(occurs(os, os[j].var));
    }
    placed_text_is_put_back(template, vars, bare, 0);
    slots_stand_where_placeholders_stood(template);
    assert(template.skip(0) =~= template);
}

/// What stands for a value in a command line. A text or a number is one literal
/// word that reads as the value. A secret is a reference to the environment
/// variable of its position, counted from one, in double quotes.
pub open spec fn stands_for(x: Seq<char>, windows: bool, rv: ResolvedView, position: nat) -> bool {
    if rv.var.kind == CmdVarKind::Secret {
        x == if windows {
            "\"$env:INR_SECRET_"@ + decimal(position) + "\""@
        } else {
            "\"$INR_SECRET_"@ + decimal(position) + "\""@
        }
    } else if windows {
        x.len() > 0 && x[0] == '\'' && read_doubled(x.skip(1), '\'') == Some(rv.value)
    } else {
        shell_word(x, false) == Some(rv.value)
    }
}

/// Every placeholder is replaced by what stands for its own variable's value.
pub proof fn values_are_quoted_and_secrets_referenced(
    windows: bool,
    resolved: Seq<ResolvedView>,
    i: int,
)
    requires
        0 <= i < resolved.len(),
    ensures
        replacements(windows, resolved).len() == resolved.len(),
        stands_for(replacements(windows, resolved)[i], windows, resolved[i], (i + 1) as nat),
{
    let rv = resolved[i];
    let x = replacements(windows, resolved)[i];
    if rv.var.kind == CmdVarKind::Secret {
        reveal_strlit("\"$env:INR_SECRET_");
        reveal_strlit("\"$INR_SECRET_");
        reveal_strlit("INR_SECRET_");
        reveal_strlit("\"$env:");
        reveal_strlit("\"$");
        if windows {
            assert("\"$env:"@ + "INR_SECRET_"@ =~= "\"$env:INR_SECRET_"@);
            assert(x =~= "\"$env:INR_SECRET_"@ + decimal((i + 1) as nat) + "\""@);
        } else {
            assert("\"$"@ + "INR_SECRET_"@ =~= "\"$INR_SECRET_"@);
            assert(x =~= "\"$INR_SECRET_"@ + decimal((i + 1) as nat) + "\""@);
        }
    } else if windows {
        powershell_quoted_is_one_string(rv.value);
    } else {
        quoted_value_is_one_literal_word(rv.value, Seq::empty());
    }
}

/// Text before and behind a placeholder is placed as it stands.
proof fn text_is_placed(s: Seq<char>, vars: Seq<VariableView>, i: int, n: int)
    requires
        0 <= i,
        0 <= n,
        i + n <= s.len(),
        forall|j: int| i <= j < i + n ==> occurrence_at(s, j) is None,
    ensures
        placed_from(s, vars, i) == cells(s.subrange(i, i + n)) + placed_from(s, vars, i + n),
    decreases n,
{
    if n == 0 {
        assert(cells(s.subrange(i, i)) + placed_from(s, vars, i) =~= placed_from(s, vars, i));
    } else {
        text_is_placed(s, vars, i + 1, n - 1);
        assert(seq![char_cell(s[i])] + (cells(s.subrange(i + 1, i + n)) + placed_from(
            s,
            vars,
            i + n,
        )) =~= cells(s.subrange(i, i + n)) + placed_from(s, vars, i + n));
    }
}

/// The template that spells one variable between two texts.
pub open spec fn template_with(
    before: Seq<char>,
    v: VariableView,
    bare: bool,
    after: Seq<char>,
) -> Seq<char> {
    if bare {
        before + written(v.kind, v.name) + after
    } else {
        before + ("["@ + written(v.kind, v.name) + "]"@) + after
    }
}

proof fn one_variable_is_placed(before: Seq<char>, v: VariableView, bare: bool, after: Seq<char>)
    requires
        is_word(v.name),
        surrounds(before, after),
    ensures
        placed_from(template_with(before, v, bare, after), seq![v], 0) == cells(before) + seq![
            Cell::Slot(0),
        ] + cells(after),
{
    let s = template_with(before, v, bare, after);
    let text = spelling(v, bare);
    let vars = seq![v];
    placeholders_are_written(v);
    assert(s == before + text + after);
    one_occurrence(before, v.kind, v.name, bare, after);
    let at = before.len() as int;
    let end = (before + text).len() as int;
    text_is_placed(s, vars, 0, at);
    assert(s.subrange(0, at) =~= before);
    text_is_placed(s, vars, end, s.len() - end);
    assert(s.subrange(end, s.len() as int) =~= after);
    assert(placed_from(s, vars, s.len() as int) =~= Seq::<Cell>::empty());
    assert(vars[0] == v);
    let k = vars.index_of(v);
    assert(0 <= k < 1 && vars[k] == v);
    assert(placed_from(s, vars, at) == seq![Cell::Slot(0)] + placed_from(s, vars, end));
    assert(placed_from(s, vars, 0) =~= cells(before) + seq![Cell::Slot(0)] + cells(after));
}

/// A command with one variable is run with the value in the place of the
/// placeholder and everything before and behind it as it stands. A secret goes
/// into the environment, and nothing else does.
pub proof fn a_value_takes_the_place_of_its_placeholder(
    windows: bool,
    before: Seq<char>,
    rv: ResolvedView,
    bare: bool,
    after: Seq<char>,
    r: Result<CommandLine, VaultError>,
)
    requires
        is_word(rv.var.name),
        surrounds(before, after),
        rv.var.kind == CmdVarKind::Secret ==> bare,
        is_command_line(windows, template_with(before, rv.var, bare, after), seq![rv], r),
    ensures
        r matches Ok((line, envs)) && {
            &&& exists|x: Seq<char>|
                line@ == before + x + after && #[trigger] stands_for(x, windows, rv, 1)
            &&& views(envs@) == if rv.var.kind == CmdVarKind::Secret {
                seq![("INR_SECRET_1"@, rv.value)]
            } else {
                Seq::empty()
            }
        },
{
    let v = rv.var;
    let t = template_with(before, v, bare, after);
    let resolved = seq![rv];
    assert(variables(resolved) =~= seq![v]);
    a_spelled_variable_is_found(before, v.kind, v.name, after);
    let w = written(v.kind, v.name);
    if !bare {
        assert(t =~= before + "["@ + w + "]"@ + after);
    }
    assert(template_variables(t) == Ok::<Seq<VariableView>, Fault>(seq![v]));
    parsed_templates_are_filled(windows, t, resolved);
    one_variable_is_placed(before, v, bare, after);
    let texts = replacements(windows, resolved);
    values_are_quoted_and_secrets_referenced(windows, resolved, 0);
    let x = texts[0];
    filling_goes_piece_by_piece(cells(before) + seq![Cell::Slot(0)], cells(after), texts);
    filling_goes_piece_by_piece(cells(before), seq![Cell::Slot(0)], texts);
    filling_keeps_text(before, texts);
    filling_keeps_text(after, texts);
    filling_puts_texts_in_slots(0, texts);
    assert(command_line(windows, t, resolved) == Ok::<Seq<char>, int>(before + x + after));
    assert(stands_for(x, windows, rv, 1));
    reveal_with_fuel(secret_envs, 2);
    assert(resolved[0] == rv);
    reveal_strlit("INR_SECRET_");
    reveal_strlit("INR_SECRET_1");
    assert(decimal(1) =~= seq!['1']);
    assert("INR_SECRET_"@ + decimal(1) =~= "INR_SECRET_1"@);
    if v.kind == CmdVarKind::Secret {
        assert(secret_envs(resolved, 1) =~= seq![("INR_SECRET_1"@, rv.value)]);
    }
}

/// A value with a character that means something to a shell is never left
/// without quotes.
pub proof fn special_characters_are_quoted(v: Seq<char>, i: int)
    requires
        0 <= i < v.len(),
        v[i] == ' ' || v[i] == '\t' || v[i] == '\n' || v[i] == '\'' || v[i] == '"' || v[i] == '\\'
            || v[i] == '|' || v[i] == '&' || v[i] == ';' || v[i] == '<' || v[i] == '>' || v[i]
            == '(' || v[i] == ')' || v[i] == '$' || v[i] == '`' || v[i] == '*' || v[i] == '?'
            || v[i] == '[' || v[i] == '#' || v[i] == '~' || v[i] == '=' || v[i] == '%',
    ensures
        posix_quoted(v)[0] == '\'',
        posix_quoted(v).last() == '\'',
{
}

/// A number is written with digits only, without a zero in front, and reads as
/// the number.
pub proof fn numbers_read_back(n: nat)
    ensures
        decimal(n).len() > 0,
        digits(decimal(n), 0, decimal(n).len() as int),
        digits_value(decimal(n), 0, decimal(n).len() as int) == n,
        n > 0 ==> decimal(n)[0] != '0',
        n == 0 ==> decimal(n) == "0"@,
    decreases n,
{
    let s = decimal(n);
    reveal_strlit("0");
    if n < 10 {
        assert(digits_value(s, 0, 0) == 0);
        assert(s.len() == 1 && s[0] == digit_char(n));
        assert(digits_value(s, 0, 1) == n);
        assert(n == 0 ==> s =~= "0"@);
    } else {
        let before = decimal(n / 10);
        numbers_read_back(n / 10);
        assert(s == before.push(digit_char(n % 10)));
        let m = before.len() as int;
        same_digits_value(before, s, m);
        assert forall|k: int| 0 <= k < s.len() implies is_digit(#[trigger] s[k]) by {
            if k < m {
                assert(s[k] == before[k]);
            }
        }
        assert(s[m] == digit_char(n % 10));
        assert(s[0] == before[0]);
    }
}

proof fn same_digits_value(a: Seq<char>, b: Seq<char>, n: int)
    requires
        0 <= n <= a.len(),
        n <= b.len(),
        forall|k: int| 0 <= k < n ==> a[k] == b[k],
    ensures
        digits_value(a, 0, n) == digits_value(b, 0, n),
    decreases n,
{
    if n > 0 {
        same_digits_value(a, b, n - 1);
    }
}

/// The history shows a value that was typed as it was typed, a value that came
/// from an env by the env's name, and nothing of a secret.
pub proof fn history_shows_where_values_came_from(rv: ResolvedView)
    ensures
        history_record(rv).name == rv.var.name,
        history_record(rv).kind == match rv.var.kind {
            CmdVarKind::Secret => "secret"@,
            CmdVarKind::Text => "text"@,
            CmdVarKind::Number => "number"@,
        },
        rv.source matches SourceView::Env(name) ==> history_record(rv).display == "@"@ + name,
        rv.source is Literal && rv.var.kind != CmdVarKind::Secret ==> history_record(rv).display
            == rv.value,
        rv.source is Literal && rv.var.kind == CmdVarKind::Secret ==> history_record(rv).display
            == "<entered directly, hidden>"@,
{
    reveal_strlit("@");
    if let SourceView::Env(name) = rv.source {
        assert("@"@ + name =~= seq!['@'] + name);
    }
}

/// On Windows a command line is run by PowerShell without the user's profile,
/// and elsewhere by the user's shell, or by `/bin/sh` if there is none.
pub proof fn the_users_shell_runs_commands(shell: Seq<char>)
    ensures
        shell_call(true, Some(shell)) == ("powershell.exe"@, seq!["-NoProfile"@, "-Command"@]),
        shell_call(true, None) == shell_call(true, Some(shell)),
        shell_call(false, Some(shell)) == (shell, seq!["-c"@]),
        shell_call(false, None) == ("/bin/sh"@, seq!["-c"@]),
{
}

} // verus!
