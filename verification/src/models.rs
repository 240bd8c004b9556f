//! The values the vault works on: commands, their variables, envs, and
//! records of past runs.

use vstd::prelude::*;

use crate::error::VaultError;
use crate::text::{chars_of, copy_bytes, copy_opt_bytes, copy_opt_text, has_prefix, string_of};
#[allow(unused_imports)]
use crate::text::begins_with;
#[allow(unused_imports)]
use crate::views::{group_views, opt_view, views};

verus! {

broadcast use {vstd::string::group_string_axioms, group_views};

/// Kind of a `%s:`/`%t:`/`%n:` placeholder inside a stored command template.
#[derive(Debug, Clone, Copy, PartialEq, Eq, Structural)]
pub enum CmdVarKind {
    Secret,
    Text,
    Number,
}

impl CmdVarKind {
    /// The name under which the kind is stored and shown.
    pub open spec fn text(self) -> Seq<char> {
        match self {
            CmdVarKind::Secret => "secret"@,
            CmdVarKind::Text => "text"@,
            CmdVarKind::Number => "number"@,
        }
    }

    /// The kind that `s` names, if it names one.
    pub open spec fn of_text(s: Seq<char>) -> Option<CmdVarKind> {
        if s == "secret"@ {
            Some(CmdVarKind::Secret)
        } else if s == "text"@ {
            Some(CmdVarKind::Text)
        } else if s == "number"@ {
            Some(CmdVarKind::Number)
        } else {
            None
        }
    }

    /// The letter between `%` and `:`.
    pub open spec fn letter(self) -> char {
        match self {
            CmdVarKind::Secret => 's',
            CmdVarKind::Text => 't',
            CmdVarKind::Number => 'n',
        }
    }

    /// What a placeholder of this kind begins with.
    pub open spec fn prefix(self) -> Seq<char> {
        seq!['%', self.letter(), ':']
    }

    pub fn as_str(self) -> (r: &'static str)
        ensures
            r@ == self.text(),
    {
        match self {
            CmdVarKind::Secret => "secret",
            CmdVarKind::Text => "text",
            CmdVarKind::Number => "number",
        }
    }

    pub fn from_str(s: &str) -> (r: Result<Self, VaultError>)
        ensures
            match r {
                Ok(kind) => Self::of_text(s@) == Some(kind),
                Err(VaultError::UnknownCommandVariableKind(other)) => Self::of_text(s@) is None
                    && other@ == s@,
                Err(_) => false,
            },
    {
        if *s == *"secret" {
            Ok(CmdVarKind::Secret)
        } else if *s == *"text" {
            Ok(CmdVarKind::Text)
        } else if *s == *"number" {
            Ok(CmdVarKind::Number)
        } else {
            Err(VaultError::UnknownCommandVariableKind(s.to_string()))
        }
    }

    pub fn placeholder_prefix(self) -> (r: &'static str)
        ensures
            r@ == self.prefix(),
    {
        proof {
            reveal_strlit("%s:");
            reveal_strlit("%t:");
            reveal_strlit("%n:");
        }
        match self {
            CmdVarKind::Secret => "%s:",
            CmdVarKind::Text => "%t:",
            CmdVarKind::Number => "%n:",
        }
    }
}

/// Reading back the name of a kind gives that kind.
pub proof fn cmd_var_kind_round_trip(kind: CmdVarKind)
    ensures
        CmdVarKind::of_text(kind.text()) == Some(kind),
{
    reveal_strlit("secret");
    reveal_strlit("text");
    reveal_strlit("number");
    assert("secret"@.len() != "text"@.len());
    assert("secret"@[0] != "number"@[0]);
    assert("text"@.len() != "number"@.len());
}

/// A variable of a command template, as a value.
pub struct VariableView {
    pub kind: CmdVarKind,
    pub name: Seq<char>,
}

impl VariableView {
    /// The bare placeholder, `%t:name`.
    pub open spec fn placeholder(self) -> Seq<char> {
        self.kind.prefix() + self.name
    }

    /// The bracketed placeholder, `[%t:name]`.
    pub open spec fn bracketed(self) -> Seq<char> {
        seq!['['] + self.placeholder() + seq![']']
    }
}

/// A variable definition parsed out of a command template (name + kind only,
/// no value - values are entered fresh each time the command is run).
#[derive(Debug, PartialEq, Eq)]
pub struct CmdVariable {
    pub kind: CmdVarKind,
    pub name: String,
}

impl View for CmdVariable {
    type V = VariableView;

    open spec fn view(&self) -> VariableView {
        VariableView { kind: self.kind, name: self.name@ }
    }
}

impl Clone for CmdVariable {
    fn clone(&self) -> (r: Self)
        ensures
            r@ == self@,
    {
        CmdVariable { kind: self.kind, name: self.name.clone() }
    }
}

impl CmdVariable {
    pub fn placeholder(&self) -> (r: String)
        ensures
            r@ == self@.placeholder(),
    {
        let mut out = self.kind.placeholder_prefix().to_string();
        out.append(&self.name);
        out
    }

    /// The placeholder between the brackets that end its name.
    pub fn bracketed_placeholder(&self) -> (r: String)
        ensures
            r@ == self@.bracketed(),
    {
        let mut out = String::new();
        out.push('[');
        out.append(&self.placeholder());
        out.push(']');
        assert(out@ =~= self@.bracketed());
        out
    }

    /// Whether the two are one variable: the same name with the same kind.
    pub fn same_as(&self, other: &CmdVariable) -> (r: bool)
        ensures
            r == (self@ == other@),
    {
        self.kind == other.kind && self.name == other.name
    }
}

/// A stored command, as a value.
pub struct CommandView {
    pub id: Seq<char>,
    pub template: Seq<char>,
    pub description: Seq<char>,
    pub created_at: Seq<char>,
    pub updated_at: Seq<char>,
}

#[derive(Debug)]
pub struct StoredCommand {
    pub id: String,
    pub template: String,
    pub description: String,
    pub created_at: String,
    pub updated_at: String,
}

impl View for StoredCommand {
    type V = CommandView;

    open spec fn view(&self) -> CommandView {
        CommandView {
            id: self.id@,
            template: self.template@,
            description: self.description@,
            created_at: self.created_at@,
            updated_at: self.updated_at@,
        }
    }
}

impl Clone for StoredCommand {
    fn clone(&self) -> (r: Self)
        ensures
            r@ == self@,
    {
        StoredCommand {
            id: self.id.clone(),
            template: self.template.clone(),
            description: self.description.clone(),
            created_at: self.created_at.clone(),
            updated_at: self.updated_at.clone(),
        }
    }
}

/// Kind of an `inr env` variable. Distinct from `CmdVarKind`: env variables
/// distinguish float vs int, command placeholders only have one generic
/// number kind.
#[derive(Debug, Clone, Copy, PartialEq, Eq, Structural)]
pub enum EnvKind {
    Secret,
    Text,
    NumberFloat,
    NumberInt,
}

impl EnvKind {
    /// The name under which the kind is stored and shown.
    pub open spec fn text(self) -> Seq<char> {
        match self {
            EnvKind::Secret => "secret"@,
            EnvKind::Text => "text"@,
            EnvKind::NumberFloat => "number_float"@,
            EnvKind::NumberInt => "number_int"@,
        }
    }

    /// The kind that `s` names, if it names one.
    pub open spec fn of_text(s: Seq<char>) -> Option<EnvKind> {
        if s == "secret"@ {
            Some(EnvKind::Secret)
        } else if s == "text"@ {
            Some(EnvKind::Text)
        } else if s == "number_float"@ {
            Some(EnvKind::NumberFloat)
        } else if s == "number_int"@ {
            Some(EnvKind::NumberInt)
        } else {
            None
        }
    }

    /// The one kind of command variable that an env of this kind may fill.
    pub open spec fn fills(self) -> CmdVarKind {
        match self {
            EnvKind::Secret => CmdVarKind::Secret,
            EnvKind::Text => CmdVarKind::Text,
            EnvKind::NumberFloat => CmdVarKind::Number,
            EnvKind::NumberInt => CmdVarKind::Number,
        }
    }

    pub fn as_str(self) -> (r: &'static str)
        ensures
            r@ == self.text(),
    {
        match self {
            EnvKind::Secret => "secret",
            EnvKind::Text => "text",
            EnvKind::NumberFloat => "number_float",
            EnvKind::NumberInt => "number_int",
        }
    }

    pub fn from_str(s: &str) -> (r: Result<Self, VaultError>)
        ensures
            match r {
                Ok(kind) => Self::of_text(s@) == Some(kind),
                Err(VaultError::UnknownEnvKind(other)) => Self::of_text(s@) is None && other@ == s@,
                Err(_) => false,
            },
    {
        if *s == *"secret" {
            Ok(EnvKind::Secret)
        } else if *s == *"text" {
            Ok(EnvKind::Text)
        } else if *s == *"number_float" {
            Ok(EnvKind::NumberFloat)
        } else if *s == *"number_int" {
            Ok(EnvKind::NumberInt)
        } else {
            Err(VaultError::UnknownEnvKind(s.to_string()))
        }
    }

    /// Whether an env of this kind may be bound into a command variable of
    /// `cmd_kind` via `@name` lookup. A secret env may only fill a %s:
    /// variable - never %t:/%n: - or its value would leak into argv/history.
    pub fn compatible_with(self, cmd_kind: CmdVarKind) -> (r: bool)
        ensures
            r == (self.fills() == cmd_kind),
    {
        match (self, cmd_kind) {
            (EnvKind::Secret, CmdVarKind::Secret) => true,
            (EnvKind::Text, CmdVarKind::Text) => true,
            (EnvKind::NumberFloat, CmdVarKind::Number) => true,
            (EnvKind::NumberInt, CmdVarKind::Number) => true,
            _ => false,
        }
    }
}

/// Reading back the name of an env kind gives that kind.
pub proof fn env_kind_round_trip(kind: EnvKind)
    ensures
        EnvKind::of_text(kind.text()) == Some(kind),
{
    reveal_strlit("secret");
    reveal_strlit("text");
    reveal_strlit("number_float");
    reveal_strlit("number_int");
    assert("secret"@.len() == 6 && "text"@.len() == 4);
    assert("number_float"@.len() == 12 && "number_int"@.len() == 10);
}

/// A secret env fills secret variables and no others, and nothing but a
/// secret env fills a secret variable.
pub proof fn secrets_fill_only_secret_variables(env_kind: EnvKind, cmd_kind: CmdVarKind)
    ensures
        env_kind.fills() == cmd_kind ==> (env_kind == EnvKind::Secret <==> cmd_kind
            == CmdVarKind::Secret),
{
}

/// What `inr env a <spec>` stands for: a kind and a bare name.
pub open spec fn env_spec(spec: Seq<char>) -> (EnvKind, Seq<char>) {
    if begins_with(spec, seq!['s', ':']) {
        (EnvKind::Secret, spec.skip(2))
    } else if begins_with(spec, seq!['t', ':']) {
        (EnvKind::Text, spec.skip(2))
    } else if begins_with(spec, seq!['n', 'f', ':']) {
        (EnvKind::NumberFloat, spec.skip(3))
    } else if begins_with(spec, seq!['n', 'i', ':']) {
        (EnvKind::NumberInt, spec.skip(3))
    } else {
        (EnvKind::Text, spec)
    }
}

/// Parses an `inr env a <spec>` name argument into (kind, bare name).
/// Recognized prefixes: `s:`, `t:`, `nf:`, `ni:`. No prefix defaults to Text.
pub fn parse_env_spec(spec: &str) -> (r: (EnvKind, String))
    ensures
        (r.0, r.1@) == env_spec(spec@),
{
    proof {
        reveal_strlit("s:");
        reveal_strlit("t:");
        reveal_strlit("nf:");
        reveal_strlit("ni:");
        assert("s:"@ =~= seq!['s', ':']);
        assert("t:"@ =~= seq!['t', ':']);
        assert("nf:"@ =~= seq!['n', 'f', ':']);
        assert("ni:"@ =~= seq!['n', 'i', ':']);
    }
    let cs = chars_of(spec);
    if has_prefix(&cs, "s:") {
        (EnvKind::Secret, string_of(&cs, 2, cs.len()))
    } else if has_prefix(&cs, "t:") {
        (EnvKind::Text, string_of(&cs, 2, cs.len()))
    } else if has_prefix(&cs, "nf:") {
        (EnvKind::NumberFloat, string_of(&cs, 3, cs.len()))
    } else if has_prefix(&cs, "ni:") {
        (EnvKind::NumberInt, string_of(&cs, 3, cs.len()))
    } else {
        (EnvKind::Text, spec.to_string())
    }
}

/// A stored env, as a value.
pub struct EnvView {
    pub id: Seq<char>,
    pub name: Seq<char>,
    pub kind: EnvKind,
    pub value: Seq<u8>,
    pub nonce: Option<Seq<u8>>,
    pub description: Seq<char>,
    pub created_at: Seq<char>,
    pub updated_at: Seq<char>,
}

#[derive(Debug)]
pub struct StoredEnv {
    pub id: String,
    pub name: String,
    pub kind: EnvKind,
    /// Plaintext for Text/NumberFloat/NumberInt, ciphertext for Secret.
    pub value: Vec<u8>,
    /// Only present (Some) for Secret kind.
    pub nonce: Option<Vec<u8>>,
    pub description: String,
    pub created_at: String,
    pub updated_at: String,
}

impl View for StoredEnv {
    type V = EnvView;

    open spec fn view(&self) -> EnvView {
        EnvView {
            id: self.id@,
            name: self.name@,
            kind: self.kind,
            value: self.value@,
            nonce: opt_view(self.nonce),
            description: self.description@,
            created_at: self.created_at@,
            updated_at: self.updated_at@,
        }
    }
}

impl Clone for StoredEnv {
    fn clone(&self) -> (r: Self)
        ensures
            r@ == self@,
    {
        StoredEnv {
            id: self.id.clone(),
            name: self.name.clone(),
            kind: self.kind,
            value: copy_bytes(self.value.as_slice()),
            nonce: copy_opt_bytes(&self.nonce),
            description: self.description.clone(),
            created_at: self.created_at.clone(),
            updated_at: self.updated_at.clone(),
        }
    }
}

/// A stored variable, as a value.
pub struct StoredVariableView {
    pub var: VariableView,
    pub default_env_id: Option<Seq<char>>,
}

/// A command variable as actually stored in the DB: name/kind plus its
/// optional default env. `default_env_id` is an unconstrained id (no FK) -
/// the env it points to may have been deleted since; that's resolved
/// lazily by whoever reads it (`vars::resolve_variable`), never tracked or
/// cascaded here.
#[derive(Debug, PartialEq, Eq)]
pub struct StoredCommandVariable {
    pub var: CmdVariable,
    pub default_env_id: Option<String>,
}

impl View for StoredCommandVariable {
    type V = StoredVariableView;

    open spec fn view(&self) -> StoredVariableView {
        StoredVariableView { var: self.var@, default_env_id: opt_view(self.default_env_id) }
    }
}

impl Clone for StoredCommandVariable {
    fn clone(&self) -> (r: Self)
        ensures
            r@ == self@,
    {
        StoredCommandVariable {
            var: self.var.clone(),
            default_env_id: copy_opt_text(&self.default_env_id),
        }
    }
}

/// What changed between two sets of variables, as a value.
pub struct VariableDiffView {
    pub kept: Seq<VariableView>,
    pub added: Seq<VariableView>,
    pub removed: Seq<StoredVariableView>,
}

/// Result of comparing a command's previously-stored variables against a
/// freshly re-parsed set from an edited template, matched by (name, kind).
/// Used by `inr e` to summarize what will change before saving - a
/// variable whose name is reused with a different kind counts as one
/// removal plus one addition, never a "kept".
#[derive(Debug, PartialEq, Eq)]
pub struct VariableDiff {
    pub kept: Vec<CmdVariable>,
    pub added: Vec<CmdVariable>,
    pub removed: Vec<StoredCommandVariable>,
}

impl View for VariableDiff {
    type V = VariableDiffView;

    open spec fn view(&self) -> VariableDiffView {
        VariableDiffView {
            kept: views(self.kept@),
            added: views(self.added@),
            removed: views(self.removed@),
        }
    }
}

impl VariableDiff {
    pub fn is_unchanged(&self) -> (r: bool)
        ensures
            r == (self@.added.len() == 0 && self@.removed.len() == 0),
    {
        self.added.is_empty() && self.removed.is_empty()
    }
}

/// Whether `v` is among the stored variables, default or not.
pub open spec fn is_stored(old: Seq<StoredVariableView>, v: VariableView) -> bool {
    exists|i: int| 0 <= i < old.len() && #[trigger] old[i].var == v
}

/// What becomes of the stored variables `old` when `new` replaces them.
pub open spec fn variable_diff(
    old: Seq<StoredVariableView>,
    new: Seq<VariableView>,
) -> VariableDiffView {
    VariableDiffView {
        kept: new.filter(|v: VariableView| is_stored(old, v)),
        added: new.filter(|v: VariableView| !is_stored(old, v)),
        removed: old.filter(|s: StoredVariableView| !new.contains(s.var)),
    }
}

/// Looks for a variable among the stored ones.
fn find_stored(old: &[StoredCommandVariable], v: &CmdVariable) -> (r: bool)
    ensures
        r == is_stored(views(old@), v@),
{
    let mut i: usize = 0;
    while i < old.len()
        invariant
            i <= old.len(),
            forall|j: int| 0 <= j < i ==> (#[trigger] views(old@)[j]).var != v@,
        decreases old.len() - i,
    {
        if old[i].var.same_as(v) {
            assert(views(old@)[i as int].var == v@);
            return true;
        }
        i += 1;
    }
    false
}

/// Looks for a variable among the new ones.
fn find_variable(new: &[CmdVariable], v: &CmdVariable) -> (r: bool)
    ensures
        r == views(new@).contains(v@),
{
    let mut i: usize = 0;
    while i < new.len()
        invariant
            i <= new.len(),
            forall|j: int| 0 <= j < i ==> #[trigger] views(new@)[j] != v@,
        decreases new.len() - i,
    {
        if new[i].same_as(v) {
            assert(views(new@)[i as int] == v@);
            return true;
        }
        i += 1;
    }
    false
}

/// Filtering one more element appends it or leaves it out.
pub proof fn filter_take_next<A>(s: Seq<A>, i: int, keep: spec_fn(A) -> bool)
    requires
        0 <= i < s.len(),
    ensures
        s.take(i + 1).filter(keep) == if keep(s[i]) {
            s.take(i).filter(keep).push(s[i])
        } else {
            s.take(i).filter(keep)
        },
{
    reveal(Seq::filter);
    assert(s.take(i + 1).drop_last() =~= s.take(i));
    assert(s.take(i + 1).last() == s[i]);
}

pub fn diff_variables(old: &[StoredCommandVariable], new: &[CmdVariable]) -> (r: VariableDiff)
    ensures
        r@ == variable_diff(views(old@), views(new@)),
{
    let ghost olds = views(old@);
    let ghost news = views(new@);
    let ghost in_old = |v: VariableView| is_stored(olds, v);
    let ghost not_in_old = |v: VariableView| !is_stored(olds, v);
    let ghost not_in_new = |s: StoredVariableView| !news.contains(s.var);

    let mut kept: Vec<CmdVariable> = Vec::new();
    let mut added: Vec<CmdVariable> = Vec::new();
    let mut i: usize = 0;
    proof {
        reveal(Seq::filter);
    }
    while i < new.len()
        invariant
            i <= new.len(),
            olds == views(old@),
            news == views(new@),
            in_old == (|v: VariableView| is_stored(olds, v)),
            not_in_old == (|v: VariableView| !is_stored(olds, v)),
            views(kept@) == news.take(i as int).filter(in_old),
            views(added@) == news.take(i as int).filter(not_in_old),
        decreases new.len() - i,
    {
        proof {
            filter_take_next(news, i as int, in_old);
            filter_take_next(news, i as int, not_in_old);
        }
        if find_stored(old, &new[i]) {
            kept.push(new[i].clone());
        } else {
            added.push(new[i].clone());
        }
        i += 1;
    }
    assert(news.take(i as int) =~= news);

    let mut removed: Vec<StoredCommandVariable> = Vec::new();
    let mut k: usize = 0;
    proof {
        reveal(Seq::filter);
    }
    while k < old.len()
        invariant
            k <= old.len(),
            olds == views(old@),
            news == views(new@),
            not_in_new == (|s: StoredVariableView| !news.contains(s.var)),
            views(removed@) == olds.take(k as int).filter(not_in_new),
        decreases old.len() - k,
    {
        proof {
            filter_take_next(olds, k as int, not_in_new);
        }
        if !find_variable(new, &old[k].var) {
            removed.push(old[k].clone());
        }
        k += 1;
    }
    assert(olds.take(k as int) =~= olds);
    VariableDiff { kept, added, removed }
}

/// The diff accounts for every variable once: a new variable is kept when it
/// was stored and added when it was not, and a stored one is removed exactly
/// when the new set lacks it.
pub proof fn diff_accounts_for_every_variable(
    old: Seq<StoredVariableView>,
    new: Seq<VariableView>,
    v: VariableView,
    s: StoredVariableView,
)
    ensures
        variable_diff(old, new).kept.contains(v) <==> new.contains(v) && is_stored(old, v),
        variable_diff(old, new).added.contains(v) <==> new.contains(v) && !is_stored(old, v),
        variable_diff(old, new).removed.contains(s) <==> old.contains(s) && !new.contains(s.var),
{
    filter_contains(new, |v: VariableView| is_stored(old, v), v);
    filter_contains(new, |v: VariableView| !is_stored(old, v), v);
    filter_contains(old, |s: StoredVariableView| !new.contains(s.var), s);
}

/// A filtered sequence holds what the sequence holds and the filter keeps.
pub proof fn filter_contains<A>(s: Seq<A>, keep: spec_fn(A) -> bool, a: A)
    ensures
        s.filter(keep).contains(a) <==> s.contains(a) && keep(a),
    decreases s.len(),
{
    reveal(Seq::filter);
    if s.len() > 0 {
        let rest = s.drop_last();
        filter_contains(rest, keep, a);
        assert(s =~= rest.push(s.last()));
        if rest.contains(a) {
            let i = choose|i: int| 0 <= i < rest.len() && rest[i] == a;
            assert(s[i] == a);
        }
        if s.contains(a) && a != s.last() {
            let i = choose|i: int| 0 <= i < s.len() && s[i] == a;
            assert(rest[i] == a);
        }
        let f = rest.filter(keep);
        if keep(s.last()) {
            assert(f.push(s.last())[f.len() as int] == s.last());
            if f.contains(a) {
                let i = choose|i: int| 0 <= i < f.len() && f[i] == a;
                assert(f.push(s.last())[i] == a);
            }
            if f.push(s.last()).contains(a) && a != s.last() {
                let i = choose|i: int| 0 <= i < f.push(s.last()).len() && f.push(s.last())[i] == a;
                assert(f[i] == a);
            }
        }
        if a == s.last() {
            assert(s[s.len() - 1] == a);
        }
    }
}

/// An edit leaves the variables unchanged exactly when both templates hold
/// the same ones.
pub proof fn unchanged_means_same_variables(old: Seq<StoredVariableView>, new: Seq<VariableView>)
    ensures
        ({
            let d = variable_diff(old, new);
            d.added.len() == 0 && d.removed.len() == 0
        }) <==> (forall|v: VariableView| #[trigger] new.contains(v) <==> is_stored(old, v)),
{
    let d = variable_diff(old, new);
    if d.added.len() == 0 && d.removed.len() == 0 {
        assert forall|v: VariableView| #[trigger] new.contains(v) <==> is_stored(old, v) by {
            if new.contains(v) && !is_stored(old, v) {
                filter_contains(new, |v: VariableView| !is_stored(old, v), v);
            }
            if is_stored(old, v) && !new.contains(v) {
                let i = choose|i: int| 0 <= i < old.len() && #[trigger] old[i].var == v;
                filter_contains(old, |s: StoredVariableView| !new.contains(s.var), old[i]);
            }
        }
    }
    if forall|v: VariableView| #[trigger] new.contains(v) <==> is_stored(old, v) {
        if d.added.len() > 0 {
            let v = d.added[0];
            filter_contains(new, |v: VariableView| !is_stored(old, v), v);
        }
        if d.removed.len() > 0 {
            let s = d.removed[0];
            filter_contains(old, |s: StoredVariableView| !new.contains(s.var), s);
            let i = choose|i: int| 0 <= i < old.len() && old[i] == s;
            assert(old[i].var == s.var);
            assert(is_stored(old, s.var));
        }
    }
}

/// A single variable's record within one history entry, as a value.
pub struct HistoryBindingView {
    pub name: Seq<char>,
    pub kind: Seq<char>,
    pub display: Seq<char>,
}

/// A single variable's record within one history entry. `display` is
/// either the literal typed value (text/number), "@envname" (value pulled
/// from an env, any kind), or a hidden marker for a secret typed directly -
/// the actual secret value is never recorded here.
#[derive(Debug)]
pub struct HistoryBinding {
    pub name: String,
    pub kind: String,
    pub display: String,
}

impl View for HistoryBinding {
    type V = HistoryBindingView;

    open spec fn view(&self) -> HistoryBindingView {
        HistoryBindingView { name: self.name@, kind: self.kind@, display: self.display@ }
    }
}

impl Clone for HistoryBinding {
    fn clone(&self) -> (r: Self)
        ensures
            r@ == self@,
    {
        HistoryBinding {
            name: self.name.clone(),
            kind: self.kind.clone(),
            display: self.display.clone(),
        }
    }
}

#[derive(Debug)]
pub struct HistoryEntry {
    pub id: i64,
    pub command_id: String,
    pub template: String,
    pub executed_at: String,
    pub bindings: Vec<HistoryBinding>,
}

} // verus!
