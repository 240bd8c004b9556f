//! Command lines: quoting values, substituting them for placeholders, and
//! keeping secrets out of the text.

use std::borrow::Cow;
use vstd::prelude::*;

use crate::error::VaultError;
use crate::models::{CmdVarKind, CmdVariable, HistoryBinding};
#[allow(unused_imports)]
use crate::models::{HistoryBindingView, VariableView};
#[allow(unused_imports)]
use crate::placeholder::{template_variables, Fault};
#[allow(unused_imports)]
use crate::placement::{placed_from, slots_stand_where_placeholders_stood};
use crate::secret::SecretText;
use crate::slots::{cells_of, fill, place_variable, Cell};
#[allow(unused_imports)]
use crate::slots::{
    bracketed_in, cells, filled, no_placeholder_is_left, slots_below, spelled_in, variable_slots,
    with_variables,
};
use crate::text::{decimal_of, double};
#[allow(unused_imports)]
use crate::text::{decimal, digit_char, doubled, doubled_reads_back, joined, read_doubled};
#[allow(unused_imports)]
use crate::views::{group_views, opt_view, views};

verus! {

broadcast use {vstd::string::group_string_axioms, group_views};

/// Where a value came from, as a value.
pub enum SourceView {
    Literal,
    Env(Seq<char>),
}

/// Where a resolved variable's value came from - kept only for history
/// logging (never the secret value itself, just the fact it came from an
/// env, and which one).
#[derive(Debug, PartialEq, Eq)]
pub enum BindingSource {
    Literal,
    Env(String),
}

impl View for BindingSource {
    type V = SourceView;

    open spec fn view(&self) -> SourceView {
        match self {
            BindingSource::Literal => SourceView::Literal,
            BindingSource::Env(name) => SourceView::Env(name@),
        }
    }
}

/// A variable with its value, as a value.
pub struct ResolvedView {
    pub var: VariableView,
    pub value: Seq<char>,
    pub source: SourceView,
}

pub struct ResolvedVar {
    pub var: CmdVariable,
    pub value: SecretText,
    pub source: BindingSource,
}

impl View for ResolvedVar {
    type V = ResolvedView;

    open spec fn view(&self) -> ResolvedView {
        ResolvedView { var: self.var@, value: self.value@, source: self.source@ }
    }
}

/// How the history shows a binding.
pub open spec fn history_display(rv: ResolvedView) -> Seq<char> {
    match rv.source {
        SourceView::Env(name) => seq!['@'] + name,
        SourceView::Literal => if rv.var.kind == CmdVarKind::Secret {
            "<entered directly, hidden>"@
        } else {
            rv.value
        },
    }
}

/// What the history records of a binding.
pub open spec fn history_record(rv: ResolvedView) -> HistoryBindingView {
    HistoryBindingView {
        name: rv.var.name,
        kind: rv.var.kind.text(),
        display: history_display(rv),
    }
}

impl ResolvedVar {
    /// Builds the history-safe record of this binding: a secret's actual
    /// value is never included, whether it was typed directly (hidden
    /// marker) or pulled from an env (only the env's name, as "@name").
    pub fn to_history_binding(&self) -> (r: HistoryBinding)
        ensures
            r@ == history_record(self@),
    {
        let display = match &self.source {
            BindingSource::Env(name) => {
                let mut out = String::new();
                out.push('@');
                out.append(name);
                assert(out@ =~= seq!['@'] + name@);
                out
            },
            BindingSource::Literal => {
                match self.var.kind {
                    CmdVarKind::Secret => "<entered directly, hidden>".to_string(),
                    CmdVarKind::Text | CmdVarKind::Number => self.value.as_str().to_string(),
                }
            },
        };
        HistoryBinding {
            name: self.var.name.clone(),
            kind: self.var.kind.as_str().to_string(),
            display,
        }
    }
}

/// The records of some bindings.
pub open spec fn history_records(resolved: Seq<ResolvedView>) -> Seq<HistoryBindingView> {
    Seq::new(resolved.len(), |i: int| history_record(resolved[i]))
}

/// Builds the history-safe records of a run's bindings.
pub fn history_bindings(resolved: &[ResolvedVar]) -> (r: Vec<HistoryBinding>)
    ensures
        views(r@) == history_records(views(resolved@)),
{
    let ghost all = history_records(views(resolved@));
    let mut out: Vec<HistoryBinding> = Vec::new();
    let mut i: usize = 0;
    assert(views(out@) =~= all.take(0));
    while i < resolved.len()
        invariant
            i <= resolved.len(),
            all == history_records(views(resolved@)),
            views(out@) == all.take(i as int),
        decreases resolved.len() - i,
    {
        assert(views(resolved@)[i as int] == resolved@[i as int]@);
        out.push(resolved[i].to_history_binding());
        assert(all.take(i + 1) =~= all.take(i as int).push(all[i as int]));
        i += 1;
    }
    assert(all.take(i as int) =~= all);
    out
}

/// The value of a secret leaves no trace in the history: two bindings of a
/// secret that differ only in the value are recorded alike.
pub proof fn history_hides_secrets(a: ResolvedView, b: ResolvedView)
    requires
        a.var == b.var,
        a.var.kind == CmdVarKind::Secret,
        a.source == b.source,
    ensures
        history_record(a) == history_record(b),
{
}

/// A character that means something to a POSIX shell outside of quotes, or
/// may mean something there.
pub open spec fn is_shell_special(c: char) -> bool {
    ||| c == '\n' || c == '\'' || c == '|' || c == '&' || c == ';' || c == '<' || c == '>'
    ||| c == '(' || c == ')' || c == '$' || c == '`' || c == '\\' || c == '"' || c == ' '
    ||| c == '\t' || c == '*' || c == '?' || c == '[' || c == '#' || c == '~' || c == '='
    ||| c == '%'
}

/// `s` with every `'` written as `'\''`.
pub open spec fn posix_escaped(s: Seq<char>) -> Seq<char>
    decreases s.len(),
{
    if s.len() == 0 {
        s
    } else if s[0] == '\'' {
        seq!['\'', '\\', '\'', '\''] + posix_escaped(s.skip(1))
    } else {
        seq![s[0]] + posix_escaped(s.skip(1))
    }
}

/// `s` as it stands if it is safe, and in single quotes otherwise.
pub open spec fn posix_quoted(s: Seq<char>) -> Seq<char> {
    if s.len() > 0 && forall|i: int| 0 <= i < s.len() ==> !is_shell_special(#[trigger] s[i]) {
        s
    } else {
        seq!['\''] + posix_escaped(s) + seq!['\'']
    }
}

/// `shell_words::quote`: leaves a non-empty string without special characters
/// as it is, and puts any other between single quotes, with each single quote
/// in it written as `'\''`.
pub assume_specification<'a>[ shell_words::quote ](s: &'a str) -> (r: Cow<'a, str>)
    ensures
        r@ == posix_quoted(s@),
;

/// Shell-quotes a literal value for POSIX shells (sh/bash/zsh/nu): wraps in
/// single quotes, escaping any embedded single quote. The result is always
/// treated as exactly one literal word, immune to expansion/injection.
pub fn quote_literal_posix(value: &str) -> (r: String)
    ensures
        r@ == posix_quoted(value@),
{
    match shell_words::quote(value) {
        Cow::Borrowed(text) => text.to_string(),
        Cow::Owned(text) => text,
    }
}

/// What a POSIX shell reads when `s` is the rest of a word, inside single
/// quotes or outside of quotes: the word's text, unless a character in it
/// would end the word, begin an expansion, or leave a quote open.
pub open spec fn shell_word(s: Seq<char>, quoted: bool) -> Option<Seq<char>>
    decreases s.len(),
{
    if s.len() == 0 {
        if quoted {
            None
        } else {
            Some(Seq::empty())
        }
    } else if s[0] == '\'' {
        shell_word(s.skip(1), !quoted)
    } else if quoted {
        joined(seq![s[0]], shell_word(s.skip(1), true))
    } else if s[0] == '\\' {
        if s.len() > 1 {
            joined(seq![s[1]], shell_word(s.skip(2), false))
        } else {
            None
        }
    } else if is_shell_special(s[0]) {
        None
    } else {
        joined(seq![s[0]], shell_word(s.skip(1), false))
    }
}

/// Joining a text piece by piece joins it whole.
proof fn joined_twice(a: Seq<char>, b: Seq<char>, rest: Option<Seq<char>>)
    ensures
        joined(a, joined(b, rest)) == joined(a + b, rest),
{
    if let Some(more) = rest {
        assert(a + (b + more) =~= (a + b) + more);
    }
}

/// Inside single quotes an escaped text reads as the text.
proof fn escaped_reads_as_itself(v: Seq<char>, after: Seq<char>)
    ensures
        shell_word(posix_escaped(v) + after, true) == joined(v, shell_word(after, true)),
    decreases v.len(),
{
    let rest = v.skip(1);
    if v.len() == 0 {
        assert(posix_escaped(v) + after =~= after);
        if let Some(more) = shell_word(after, true) {
            assert(v + more =~= more);
        }
    } else {
        let tail = posix_escaped(rest) + after;
        escaped_reads_as_itself(rest, after);
        joined_twice(seq![v[0]], rest, shell_word(after, true));
        assert(seq![v[0]] + rest =~= v);
        let whole = posix_escaped(v) + after;
        if v[0] == '\'' {
            assert(whole.skip(1) =~= seq!['\\', '\'', '\''] + tail);
            let s1 = whole.skip(1);
            assert(s1.skip(2) =~= seq!['\''] + tail);
            let s2 = s1.skip(2);
            assert(s2.skip(1) =~= tail);
            assert(shell_word(s2, false) == shell_word(tail, true));
            assert(shell_word(s1, false) == joined(seq!['\''], shell_word(s2, false)));
            assert(shell_word(whole, true) == shell_word(s1, false));
        } else {
            assert(whole.skip(1) =~= tail);
        }
    }
}

/// Outside of quotes a text without special characters reads as itself.
proof fn plain_reads_as_itself(v: Seq<char>, after: Seq<char>)
    requires
        forall|i: int| 0 <= i < v.len() ==> !is_shell_special(#[trigger] v[i]),
    ensures
        shell_word(v + after, false) == joined(v, shell_word(after, false)),
    decreases v.len(),
{
    let rest = v.skip(1);
    if v.len() == 0 {
        assert(v + after =~= after);
        if let Some(more) = shell_word(after, false) {
            assert(v + more =~= more);
        }
    } else {
        assert forall|i: int| 0 <= i < rest.len() implies !is_shell_special(#[trigger] rest[i]) by {
            assert(rest[i] == v[i + 1]);
        }
        plain_reads_as_itself(rest, after);
        joined_twice(seq![v[0]], rest, shell_word(after, false));
        assert(seq![v[0]] + rest =~= v);
        assert((v + after).skip(1) =~= rest + after);
        assert(!is_shell_special(v[0]));
    }
}

/// Wherever a quoted value stands outside of quotes, the shell adds exactly
/// the value to the word it is reading and goes on behind it: nothing in the
/// value ends the word or means anything to the shell. A value that stands
/// alone is one word.
pub proof fn quoted_value_is_one_literal_word(v: Seq<char>, after: Seq<char>)
    ensures
        shell_word(posix_quoted(v) + after, false) == joined(v, shell_word(after, false)),
        shell_word(posix_quoted(v), false) == Some(v),
        posix_quoted(v).len() > 0,
{
    quoted_value_joins_the_word(v, after);
    quoted_value_joins_the_word(v, Seq::empty());
    assert(posix_quoted(v) + Seq::<char>::empty() =~= posix_quoted(v));
    assert(v + Seq::<char>::empty() =~= v);
}

proof fn quoted_value_joins_the_word(v: Seq<char>, after: Seq<char>)
    ensures
        shell_word(posix_quoted(v) + after, false) == joined(v, shell_word(after, false)),
{
    if v.len() > 0 && forall|i: int| 0 <= i < v.len() ==> !is_shell_special(#[trigger] v[i]) {
        plain_reads_as_itself(v, after);
    } else {
        let closing = seq!['\''] + after;
        let whole = posix_quoted(v) + after;
        assert(whole.skip(1) =~= posix_escaped(v) + closing);
        escaped_reads_as_itself(v, closing);
        assert(closing.skip(1) =~= after);
        assert(shell_word(closing, true) == shell_word(after, false));
    }
}

/// `s` as a single-quoted PowerShell string.
pub open spec fn powershell_quoted(s: Seq<char>) -> Seq<char> {
    seq!['\''] + doubled(s, '\'') + seq!['\'']
}

/// Shell-quotes a literal value for PowerShell: single-quoted string with
/// embedded single quotes doubled (PowerShell's escaping rule).
pub fn quote_literal_powershell(value: &str) -> (r: String)
    ensures
        r@ == powershell_quoted(value@),
{
    let mut out = String::new();
    out.push('\'');
    out.append(&double(value, '\''));
    out.push('\'');
    assert(out@ =~= powershell_quoted(value@));
    out
}

/// A value quoted for PowerShell is one string that holds exactly the value:
/// it opens with a quote, and what follows reads as the value and then ends.
pub proof fn powershell_quoted_is_one_string(v: Seq<char>)
    ensures
        powershell_quoted(v)[0] == '\'',
        read_doubled(powershell_quoted(v).skip(1), '\'') == Some(v),
{
    assert(powershell_quoted(v).skip(1) =~= doubled(v, '\'') + seq!['\'']);
    doubled_reads_back(v, '\'');
}

/// The environment variable through which the value of the variable at
/// position `idx` reaches the command.
pub open spec fn secret_env_name(idx: int) -> Seq<char> {
    "INR_SECRET_"@ + decimal((idx + 1) as nat)
}

/// A reference to an environment variable in the shell's own syntax.
pub open spec fn secret_reference(windows: bool, name: Seq<char>) -> Seq<char> {
    if windows {
        "\"$env:"@ + name + "\""@
    } else {
        "\"$"@ + name + "\""@
    }
}

/// A double-quoted reference to an environment variable that will be set on
/// the child process. Double quotes (not single) so the shell still expands
/// $VAR/$env:VAR, but the whole value stays one word even if it contains
/// spaces.
fn secret_ref_posix(env_var_name: &str) -> (r: String)
    ensures
        r@ == secret_reference(false, env_var_name@),
{
    let mut out = "\"$".to_string();
    out.append(env_var_name);
    out.append("\"");
    out
}

fn secret_ref_powershell(env_var_name: &str) -> (r: String)
    ensures
        r@ == secret_reference(true, env_var_name@),
{
    let mut out = "\"$env:".to_string();
    out.append(env_var_name);
    out.append("\"");
    out
}

/// Whether the platform of this name, as the compiler names it, is Windows,
/// where commands run in PowerShell. Everywhere else they run in a POSIX shell.
pub fn is_windows(target_os: &str) -> (r: bool)
    ensures
        r == (target_os@ == "windows"@),
{
    *target_os == *"windows"
}

/// What takes the place of a placeholder: the quoted value, or for a secret a
/// reference to the environment variable that will hold it.
pub open spec fn replacement(windows: bool, idx: int, rv: ResolvedView) -> Seq<char> {
    if rv.var.kind == CmdVarKind::Secret {
        secret_reference(windows, secret_env_name(idx))
    } else if windows {
        powershell_quoted(rv.value)
    } else {
        posix_quoted(rv.value)
    }
}

/// What takes the place of each variable's placeholders.
pub open spec fn replacements(windows: bool, resolved: Seq<ResolvedView>) -> Seq<Seq<char>> {
    Seq::new(resolved.len(), |i: int| replacement(windows, i, resolved[i]))
}

/// The variables without their values.
pub open spec fn variables(resolved: Seq<ResolvedView>) -> Seq<VariableView> {
    Seq::new(resolved.len(), |i: int| resolved[i].var)
}

/// The command line for a template and the values of its variables, or the
/// position of the first variable that the template does not hold.
pub open spec fn command_line(
    windows: bool,
    template: Seq<char>,
    resolved: Seq<ResolvedView>,
) -> Result<Seq<char>, int> {
    match with_variables(cells(template), variables(resolved), 0) {
        Ok(line) => Ok(filled(line, replacements(windows, resolved))),
        Err(k) => Err(k),
    }
}

/// The environment for the secrets among the first `n` variables.
pub open spec fn secret_envs(resolved: Seq<ResolvedView>, n: int) -> Seq<(Seq<char>, Seq<char>)>
    decreases n,
{
    if n <= 0 {
        Seq::empty()
    } else if resolved[n - 1].var.kind == CmdVarKind::Secret {
        secret_envs(resolved, n - 1).push((secret_env_name(n - 1), resolved[n - 1].value))
    } else {
        secret_envs(resolved, n - 1)
    }
}

/// A command line and the environment that goes with it.
pub type CommandLine = (String, Vec<(String, SecretText)>);

/// What `build_command_line` returns for a shell of the given kind.
pub open spec fn is_command_line(
    windows: bool,
    template: Seq<char>,
    resolved: Seq<ResolvedView>,
    r: Result<CommandLine, VaultError>,
) -> bool {
    match r {
        Ok((line, envs)) => {
            &&& command_line(windows, template, resolved) == Ok::<Seq<char>, int>(line@)
            &&& views(envs@) == secret_envs(resolved, resolved.len() as int)
        },
        Err(VaultError::VariableNotFound(name)) => {
            command_line(windows, template, resolved) matches Err(k) && name@
                == resolved[k].var.name
        },
        Err(_) => false,
    }
}

/// Builds the final, ready-to-run command line by substituting each
/// variable's placeholder in `template`, in either its bare (`%t:name`) or
/// bracketed (`[%t:name]`) spelling - the brackets are delimiters only and
/// never appear in the output. Text/number values are shell-quoted
/// literally; secret values are NEVER substituted as text - instead an
/// env-var reference is spliced in, and the actual secret is returned
/// separately to be set only on the child process's environment.
///
/// The line is for PowerShell if `windows` holds, and else for a POSIX shell.
pub fn build_command_line(windows: bool, template: &str, resolved: &[ResolvedVar]) -> (r: Result<
    CommandLine,
    VaultError,
>)
    ensures
        is_command_line(windows, template@, views(resolved@), r),
{
    let ghost rvs = views(resolved@);
    let ghost vars = variables(rvs);
    let mut line: Vec<Cell> = cells_of(template);
    let mut texts: Vec<String> = Vec::new();
    let mut envs: Vec<(String, SecretText)> = Vec::new();
    let mut idx: usize = 0;
    assert(views(texts@) =~= replacements(windows, rvs).take(0));
    while idx < resolved.len()
        invariant
            idx <= resolved.len(),
            rvs == views(resolved@),
            vars == variables(rvs),
            with_variables(cells(template@), vars, 0) == with_variables(line@, vars, idx as int),
            slots_below(line@, idx as int),
            views(texts@) == replacements(windows, rvs).take(idx as int),
            views(envs@) == secret_envs(rvs, idx as int),
        decreases resolved.len() - idx,
    {
        let rv = &resolved[idx];
        assert(rvs[idx as int] == rv@);
        assert(vars[idx as int] == rv.var@);
        let placed = match place_variable(line, &rv.var, idx) {
            Some(placed) => placed,
            None => {
                return Err(VaultError::VariableNotFound(rv.var.name.clone()));
            },
        };
        proof {
            variable_slots(line@, rv.var@, idx, idx + 1);
        }
        line = placed;
        let text = match rv.var.kind {
            CmdVarKind::Text | CmdVarKind::Number => {
                if windows {
                    quote_literal_powershell(rv.value.as_str())
                } else {
                    quote_literal_posix(rv.value.as_str())
                }
            },
            CmdVarKind::Secret => {
                let number: usize = idx + 1;
                let mut env_name = "INR_SECRET_".to_string();
                env_name.append(&decimal_of(number as u64));
                let reference = if windows {
                    secret_ref_powershell(&env_name)
                } else {
                    secret_ref_posix(&env_name)
                };
                envs.push((env_name, rv.value.clone()));
                reference
            },
        };
        texts.push(text);
        assert(replacements(windows, rvs).take(idx + 1) =~= replacements(windows, rvs).take(
            idx as int,
        ).push(replacement(windows, idx as int, rv@)));
        idx += 1;
    }
    assert(replacements(windows, rvs).take(idx as int) =~= replacements(windows, rvs));
    let out = fill(&line, &texts);
    Ok((out, envs))
}

/// The values of secrets leave no trace in the command line: two sets of
/// values that differ only in secrets give the same line, or fail at the same
/// variable.
pub proof fn command_line_hides_secrets(
    windows: bool,
    template: Seq<char>,
    a: Seq<ResolvedView>,
    b: Seq<ResolvedView>,
)
    requires
        a.len() == b.len(),
        forall|i: int| 0 <= i < a.len() ==> (#[trigger] a[i]).var == b[i].var,
        forall|i: int|
            0 <= i < a.len() && (#[trigger] a[i]).var.kind != CmdVarKind::Secret ==> a[i].value
                == b[i].value,
    ensures
        command_line(windows, template, a) == command_line(windows, template, b),
{
    assert(variables(a) =~= variables(b));
    assert forall|i: int| 0 <= i < a.len() implies #[trigger] replacements(windows, a)[i]
        == replacements(windows, b)[i] by {
        assert(a[i].var == b[i].var);
    }
    assert(replacements(windows, a) =~= replacements(windows, b));
}

/// Numbers that are written alike are the same.
proof fn decimal_is_injective(m: nat, n: nat)
    requires
        decimal(m) == decimal(n),
    ensures
        m == n,
    decreases m,
{
    decimal_is_not_empty(m);
    decimal_is_not_empty(n);
    if m < 10 && n < 10 {
        assert(decimal(m)[0] == digit_char(m));
        assert(decimal(n)[0] == digit_char(n));
    } else if m < 10 {
        decimal_is_not_empty(n / 10);
        assert(decimal(n).len() == decimal(n / 10).len() + 1);
    } else if n < 10 {
        decimal_is_not_empty(m / 10);
        assert(decimal(m).len() == decimal(m / 10).len() + 1);
    } else {
        assert(decimal(m).drop_last() =~= decimal(m / 10));
        assert(decimal(n).drop_last() =~= decimal(n / 10));
        assert(decimal(m).last() == digit_char(m % 10));
        assert(decimal(n).last() == digit_char(n % 10));
        decimal_is_injective(m / 10, n / 10);
    }
}

proof fn decimal_is_not_empty(n: nat)
    ensures
        decimal(n).len() > 0,
{
}

/// No two secrets of a command share an environment variable.
pub proof fn secrets_do_not_share_an_environment_variable(i: int, j: int)
    requires
        0 <= i,
        0 <= j,
        i != j,
    ensures
        secret_env_name(i) != secret_env_name(j),
{
    let prefix = "INR_SECRET_"@;
    if secret_env_name(i) == secret_env_name(j) {
        assert(secret_env_name(i).skip(prefix.len() as int) =~= decimal((i + 1) as nat));
        assert(secret_env_name(j).skip(prefix.len() as int) =~= decimal((j + 1) as nat));
        decimal_is_injective((i + 1) as nat, (j + 1) as nat);
    }
}

/// Every secret reaches the command through its own environment variable, and
/// nothing but a secret is put into the environment.
pub proof fn environment_holds_exactly_the_secrets(
    resolved: Seq<ResolvedView>,
    entry: (Seq<char>, Seq<char>),
)
    ensures
        secret_envs(resolved, resolved.len() as int).contains(entry) <==> exists|i: int|
            0 <= i < resolved.len() && (#[trigger] resolved[i]).var.kind == CmdVarKind::Secret
                && entry == (secret_env_name(i), resolved[i].value),
{
    secret_envs_upto(resolved, resolved.len() as int, entry);
}

proof fn secret_envs_upto(resolved: Seq<ResolvedView>, n: int, entry: (Seq<char>, Seq<char>))
    requires
        0 <= n <= resolved.len(),
    ensures
        secret_envs(resolved, n).contains(entry) <==> exists|i: int|
            0 <= i < n && (#[trigger] resolved[i]).var.kind == CmdVarKind::Secret && entry == (
                secret_env_name(i),
                resolved[i].value,
            ),
    decreases n,
{
    if n > 0 {
        secret_envs_upto(resolved, n - 1, entry);
        let before = secret_envs(resolved, n - 1);
        let added = (secret_env_name(n - 1), resolved[n - 1].value);
        if resolved[n - 1].var.kind == CmdVarKind::Secret {
            let all = before.push(added);
            assert(all[before.len() as int] == added);
            if before.contains(entry) {
                let k = choose|k: int| 0 <= k < before.len() && before[k] == entry;
                assert(all[k] == entry);
            }
            if all.contains(entry) && entry != added {
                let k = choose|k: int| 0 <= k < all.len() && all[k] == entry;
                assert(before[k] == entry);
            }
        }
    }
}

/// In a command line that was built, no placeholder of any of its variables is
/// left outside of the values, and with it no bracket of one.
pub proof fn every_placeholder_is_substituted(
    windows: bool,
    template: Seq<char>,
    resolved: Seq<ResolvedView>,
    i: int,
)
    requires
        0 <= i < resolved.len(),
        command_line(windows, template, resolved) is Ok,
    ensures
        with_variables(cells(template), variables(resolved), 0) matches Ok(line) && !spelled_in(
            line,
            resolved[i].var,
        ) && !bracketed_in(line, resolved[i].var),
{
    no_placeholder_is_left(cells(template), variables(resolved), 0, i);
}

/// A template that parses can be run with any values for its variables. In the
/// command line each placeholder that parsing finds is replaced by what stands
/// for its variable's value, and everything else is as the template has it.
pub proof fn parsed_templates_are_filled(
    windows: bool,
    template: Seq<char>,
    resolved: Seq<ResolvedView>,
)
    requires
        template_variables(template) == Ok::<Seq<VariableView>, Fault>(variables(resolved)),
    ensures
        command_line(windows, template, resolved) == Ok::<Seq<char>, int>(
            filled(
                placed_from(template, variables(resolved), 0),
                replacements(windows, resolved),
            ),
        ),
{
    slots_stand_where_placeholders_stood(template);
}

/// The shell to run a command line with, and the arguments that go before the
/// line.
pub open spec fn shell_call(windows: bool, shell: Option<Seq<char>>) -> (
    Seq<char>,
    Seq<Seq<char>>,
) {
    if windows {
        ("powershell.exe"@, seq!["-NoProfile"@, "-Command"@])
    } else {
        (
            match shell {
                Some(program) => program,
                None => "/bin/sh"@,
            },
            seq!["-c"@],
        )
    }
}

/// Returns (program, base_args) for invoking the user's shell
/// non-interactively (no rc/profile sourcing). `shell` is the user's `SHELL`.
pub fn shell_invocation(windows: bool, shell: Option<String>) -> (r: (String, Vec<String>))
    ensures
        (r.0@, views(r.1@)) == shell_call(windows, opt_view(shell)),
{
    if windows {
        let mut args: Vec<String> = Vec::new();
        args.push("-NoProfile".to_string());
        args.push("-Command".to_string());
        assert(views(args@) =~= seq!["-NoProfile"@, "-Command"@]);
        ("powershell.exe".to_string(), args)
    } else {
        let program = match shell {
            Some(program) => program,
            None => "/bin/sh".to_string(),
        };
        let mut args: Vec<String> = Vec::new();
        args.push("-c".to_string());
        assert(views(args@) =~= seq!["-c"@]);
        (program, args)
    }
}

/// The code to exit with after a command that failed: its own, or 1 where it
/// has none, as after a signal. After a command that succeeded there is none.
pub fn failure_code(success: bool, code: Option<i32>) -> (r: Option<i32>)
    ensures
        r == if success {
            None
        } else if code is Some {
            code
        } else {
            Some(1i32)
        },
{
    if success {
        None
    } else {
        match code {
            Some(code) => Some(code),
            None => Some(1),
        }
    }
}

} // verus!
