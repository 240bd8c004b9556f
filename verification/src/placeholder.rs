//! The placeholders of a command template.

use vstd::prelude::*;

use crate::error::VaultError;
use crate::models::{CmdVarKind, CmdVariable};
#[allow(unused_imports)]
use crate::models::VariableView;
use crate::text::{chars_of, string_of};
#[allow(unused_imports)]
use crate::views::{group_views, views};

verus! {

broadcast use {vstd::string::group_string_axioms, group_views};

/// A character that may begin a variable's name.
pub open spec fn is_name_start(c: char) -> bool {
    ('a' <= c && c <= 'z') || ('A' <= c && c <= 'Z') || c == '_'
}

/// A character that may stand in a variable's name.
pub open spec fn is_name_char(c: char) -> bool {
    is_name_start(c) || ('0' <= c && c <= '9')
}

/// A variable's name.
pub open spec fn is_name(s: Seq<char>) -> bool {
    &&& s.len() > 0
    &&& is_name_start(s[0])
    &&& forall|i: int| 0 <= i < s.len() ==> is_name_char(#[trigger] s[i])
}

/// Where the run of name characters that begins at `i` ends.
pub open spec fn name_end(s: Seq<char>, i: int) -> int
    decreases s.len() - i,
{
    if 0 <= i < s.len() && is_name_char(s[i]) {
        name_end(s, i + 1)
    } else {
        i
    }
}

/// The kind that a letter between `%` and `:` stands for.
pub open spec fn kind_of_letter(c: char) -> Option<CmdVarKind> {
    if c == 's' {
        Some(CmdVarKind::Secret)
    } else if c == 't' {
        Some(CmdVarKind::Text)
    } else if c == 'n' {
        Some(CmdVarKind::Number)
    } else {
        None
    }
}

/// One placeholder of a template: its variable, its spelling, and where it
/// ends.
pub struct Occurrence {
    pub var: VariableView,
    pub bracketed: bool,
    pub end: int,
}

/// The bare placeholder that begins at `i`: `%`, a kind letter, `:`, and a
/// name that goes as far as it can.
pub open spec fn bare_at(s: Seq<char>, i: int) -> Option<Occurrence> {
    if 0 <= i && i + 3 < s.len() && s[i] == '%' && kind_of_letter(s[i + 1]) is Some && s[i + 2]
        == ':' && is_name_start(s[i + 3]) {
        let end = name_end(s, i + 3);
        Some(
            Occurrence {
                var: VariableView {
                    kind: kind_of_letter(s[i + 1])->0,
                    name: s.subrange(i + 3, end),
                },
                bracketed: false,
                end,
            },
        )
    } else {
        None
    }
}

/// The placeholder that begins at `i`, in either spelling.
pub open spec fn occurrence_at(s: Seq<char>, i: int) -> Option<Occurrence> {
    if 0 <= i < s.len() && s[i] == '[' {
        match bare_at(s, i + 1) {
            Some(o) => if o.end < s.len() && s[o.end] == ']' {
                Some(Occurrence { var: o.var, bracketed: true, end: o.end + 1 })
            } else {
                None
            },
            None => None,
        }
    } else {
        bare_at(s, i)
    }
}

/// A run of name characters does not end before it begins, nor beyond the
/// text, and holds name characters only.
pub proof fn name_end_bounds(s: Seq<char>, i: int)
    requires
        0 <= i <= s.len(),
    ensures
        i <= name_end(s, i) <= s.len(),
        forall|j: int| i <= j < name_end(s, i) ==> is_name_char(#[trigger] s[j]),
        name_end(s, i) < s.len() ==> !is_name_char(s[name_end(s, i)]),
    decreases s.len() - i,
{
    if i < s.len() && is_name_char(s[i]) {
        name_end_bounds(s, i + 1);
    }
}

/// A placeholder has a name, lies inside the text and is at least four
/// characters long.
pub proof fn occurrence_bounds(s: Seq<char>, i: int)
    requires
        occurrence_at(s, i) is Some,
    ensures
        0 <= i,
        i + 4 <= occurrence_at(s, i)->0.end <= s.len(),
        is_name(occurrence_at(s, i)->0.var.name),
{
    let from = if s[i] == '[' {
        i + 1
    } else {
        i
    };
    name_end_bounds(s, from + 3);
    assert(name_end(s, from + 3) == name_end(s, from + 4));
    name_end_bounds(s, from + 4);
}

/// The placeholders of `s` from position `i` on: the leftmost first, each
/// next one after the end of the one before.
pub open spec fn occurrences(s: Seq<char>, i: int) -> Seq<Occurrence>
    decreases s.len() - i,
{
    if i < 0 || i >= s.len() {
        Seq::empty()
    } else {
        match occurrence_at(s, i) {
            Some(o) => {
                proof {
                    occurrence_bounds(s, i);
                }
                seq![o] + occurrences(s, o.end)
            },
            None => occurrences(s, i + 1),
        }
    }
}

/// Why a template cannot be stored.
pub enum Fault {
    /// A secret in brackets.
    BracketedSecret(Seq<char>),
    /// A name with a kind other than the one it had first.
    ConflictingKinds(Seq<char>, CmdVarKind, CmdVarKind),
}

impl Fault {
    /// The report for the user.
    pub open spec fn text(self) -> Seq<char> {
        match self {
            Fault::BracketedSecret(name) => "secret variable '"@ + name
                + "' cannot use bracket syntax [%s:"@ + name
                + "] - secrets are never inlined as literal text; use bare %s:"@ + name
                + " instead"@,
            Fault::ConflictingKinds(name, first, second) => "variable '"@ + name
                + "' used with conflicting kinds ("@ + first.text() + " and "@ + second.text()
                + ")"@,
        }
    }
}

/// The kind under which `vars`, from position `i` on, first holds `name`.
pub open spec fn kind_from(vars: Seq<VariableView>, i: int, name: Seq<char>) -> Option<CmdVarKind>
    decreases vars.len() - i,
{
    if i < 0 || i >= vars.len() {
        None
    } else if vars[i].name == name {
        Some(vars[i].kind)
    } else {
        kind_from(vars, i + 1, name)
    }
}

/// The variables after one more placeholder.
pub open spec fn with_occurrence(
    vars: Seq<VariableView>,
    o: Occurrence,
) -> Result<Seq<VariableView>, Fault> {
    if o.bracketed && o.var.kind == CmdVarKind::Secret {
        Err(Fault::BracketedSecret(o.var.name))
    } else {
        match kind_from(vars, 0, o.var.name) {
            None => Ok(vars.push(o.var)),
            Some(kind) => if kind == o.var.kind {
                Ok(vars)
            } else {
                Err(Fault::ConflictingKinds(o.var.name, kind, o.var.kind))
            },
        }
    }
}

/// The variables of a list of placeholders, or the first fault among them.
pub open spec fn variables_of(os: Seq<Occurrence>) -> Result<Seq<VariableView>, Fault>
    decreases os.len(),
{
    if os.len() == 0 {
        Ok(Seq::empty())
    } else {
        match variables_of(os.drop_last()) {
            Ok(vars) => with_occurrence(vars, os.last()),
            Err(fault) => Err(fault),
        }
    }
}

/// The variables of a template, or the first fault in it.
pub open spec fn template_variables(template: Seq<char>) -> Result<Seq<VariableView>, Fault> {
    variables_of(occurrences(template, 0))
}

/// A fault stays a fault, whatever follows.
proof fn fault_stays(os: Seq<Occurrence>, more: Seq<Occurrence>)
    requires
        variables_of(os) is Err,
    ensures
        variables_of(os + more) == variables_of(os),
    decreases more.len(),
{
    if more.len() == 0 {
        assert(os + more =~= os);
    } else {
        assert((os + more).drop_last() =~= os + more.drop_last());
        fault_stays(os, more.drop_last());
    }
}

fn char_is_name_start(c: char) -> (r: bool)
    ensures
        r == is_name_start(c),
{
    ('a' <= c && c <= 'z') || ('A' <= c && c <= 'Z') || c == '_'
}

pub fn char_is_name_char(c: char) -> (r: bool)
    ensures
        r == is_name_char(c),
{
    char_is_name_start(c) || ('0' <= c && c <= '9')
}

fn kind_from_letter(letter: char) -> (r: Option<CmdVarKind>)
    ensures
        r == kind_of_letter(letter),
{
    match letter {
        's' => Some(CmdVarKind::Secret),
        't' => Some(CmdVarKind::Text),
        'n' => Some(CmdVarKind::Number),
        _ => None,
    }
}

/// Finds the end of a run of name characters.
fn scan_name(cs: &Vec<char>, from: usize) -> (r: usize)
    requires
        from <= cs.len(),
    ensures
        r == name_end(cs@, from as int),
        from <= r <= cs.len(),
{
    let mut i: usize = from;
    while i < cs.len() && char_is_name_char(cs[i])
        invariant
            from <= i <= cs.len(),
            name_end(cs@, from as int) == name_end(cs@, i as int),
        decreases cs.len() - i,
    {
        i += 1;
    }
    i
}

/// A placeholder found in a template.
struct Found {
    var: CmdVariable,
    bracketed: bool,
    end: usize,
}

impl View for Found {
    type V = Occurrence;

    closed spec fn view(&self) -> Occurrence {
        Occurrence { var: self.var@, bracketed: self.bracketed, end: self.end as int }
    }
}

fn find_bare(cs: &Vec<char>, i: usize) -> (r: Option<Found>)
    requires
        i <= cs.len(),
    ensures
        match r {
            Some(found) => bare_at(cs@, i as int) == Some(found@),
            None => bare_at(cs@, i as int) is None,
        },
{
    if cs.len() - i <= 3 || cs[i] != '%' || cs[i + 2] != ':' || !char_is_name_start(cs[i + 3]) {
        return None;
    }
    match kind_from_letter(cs[i + 1]) {
        Some(kind) => {
            let end = scan_name(cs, i + 3);
            let name = string_of(cs, i + 3, end);
            Some(Found { var: CmdVariable { kind, name }, bracketed: false, end })
        },
        None => None,
    }
}

fn find_occurrence(cs: &Vec<char>, i: usize) -> (r: Option<Found>)
    requires
        i < cs.len(),
    ensures
        match r {
            Some(found) => occurrence_at(cs@, i as int) == Some(found@),
            None => occurrence_at(cs@, i as int) is None,
        },
{
    if cs[i] == '[' {
        match find_bare(cs, i + 1) {
            Some(found) => {
                if found.end < cs.len() && cs[found.end] == ']' {
                    let end: usize = found.end + 1;
                    Some(Found { var: found.var, bracketed: true, end })
                } else {
                    None
                }
            },
            None => None,
        }
    } else {
        find_bare(cs, i)
    }
}

/// Looks up the kind under which a name is already known.
fn known_kind(vars: &Vec<CmdVariable>, name: &String) -> (r: Option<CmdVarKind>)
    ensures
        r == kind_from(views(vars@), 0, name@),
{
    let mut i: usize = 0;
    while i < vars.len()
        invariant
            i <= vars.len(),
            kind_from(views(vars@), 0, name@) == kind_from(views(vars@), i as int, name@),
        decreases vars.len() - i,
    {
        if vars[i].name == *name {
            return Some(vars[i].kind);
        }
        i += 1;
    }
    None
}

/// Extracts `%s:name`/`%t:name`/`%n:name` placeholders from a command
/// template, in order of first appearance, deduplicated by name. A
/// placeholder may also be wrapped in brackets, `[%t:name]`/`[%n:name]`, to
/// terminate its name before adjacent literal text that would otherwise be
/// swallowed into it (e.g. `[%n:count]ms` vs. bare `%n:countms`). Secret
/// placeholders may never use the bracketed form - their value must never
/// be inlined as literal text (see `shell::build_command_line`), so
/// `[%s:name]` is rejected immediately rather than silently accepted.
/// Returns an error if the same name is used with two different kinds.
pub fn parse_placeholders(template: &str) -> (r: Result<Vec<CmdVariable>, VaultError>)
    ensures
        match r {
            Ok(vars) => template_variables(template@) == Ok::<Seq<VariableView>, Fault>(
                views(vars@),
            ),
            Err(VaultError::BracketedSecret(name)) => template_variables(template@) == Err::<
                Seq<VariableView>,
                Fault,
            >(Fault::BracketedSecret(name@)),
            Err(VaultError::ConflictingKinds { name, first, second }) => template_variables(template@)
                == Err::<Seq<VariableView>, Fault>(
                Fault::ConflictingKinds(name@, first, second),
            ),
            Err(_) => false,
        },
{
    let cs = chars_of(template);
    let mut vars: Vec<CmdVariable> = Vec::new();
    let mut i: usize = 0;
    let ghost mut done: Seq<Occurrence> = Seq::empty();
    assert(done + occurrences(cs@, 0) =~= occurrences(cs@, 0));
    while i < cs.len()
        invariant
            i <= cs.len(),
            cs@ == template@,
            occurrences(cs@, 0) == done + occurrences(cs@, i as int),
            variables_of(done) == Ok::<Seq<VariableView>, Fault>(views(vars@)),
        decreases cs.len() - i,
    {
        match find_occurrence(&cs, i) {
            Some(found) => {
                let ghost o = found@;
                let ghost rest = occurrences(cs@, o.end);
                proof {
                    occurrence_bounds(cs@, i as int);
                    assert(occurrences(cs@, i as int) == seq![o] + rest);
                    assert(done + (seq![o] + rest) =~= done.push(o) + rest);
                    assert(done.push(o).drop_last() =~= done);
                    if variables_of(done.push(o)) is Err {
                        fault_stays(done.push(o), rest);
                    }
                }
                if found.bracketed && found.var.kind == CmdVarKind::Secret {
                    return Err(VaultError::BracketedSecret(found.var.name));
                }
                i = found.end;
                match known_kind(&vars, &found.var.name) {
                    Some(existing) => {
                        if existing != found.var.kind {
                            return Err(
                                VaultError::ConflictingKinds {
                                    name: found.var.name,
                                    first: existing,
                                    second: found.var.kind,
                                },
                            );
                        }
                    },
                    None => {
                        vars.push(found.var);
                    },
                }
                proof {
                    done = done.push(o);
                }
            },
            None => {
                i += 1;
            },
        }
    }
    assert(done + occurrences(cs@, i as int) =~= done);
    Ok(vars)
}

/// What a lookup by name finds: the first variable of that name.
proof fn kind_from_finds_first(vars: Seq<VariableView>, i: int, name: Seq<char>)
    requires
        0 <= i <= vars.len(),
    ensures
        match kind_from(vars, i, name) {
            Some(kind) => exists|j: int|
                i <= j < vars.len() && (#[trigger] vars[j]).name == name && vars[j].kind == kind,
            None => forall|j: int| i <= j < vars.len() ==> (#[trigger] vars[j]).name != name,
        },
    decreases vars.len() - i,
{
    if i < vars.len() {
        if vars[i].name != name {
            kind_from_finds_first(vars, i + 1, name);
        }
    }
}

/// Whether `v` is the variable of one of the placeholders.
pub open spec fn occurs(os: Seq<Occurrence>, v: VariableView) -> bool {
    exists|k: int| 0 <= k < os.len() && (#[trigger] os[k]).var == v
}

/// No two variables share a name.
pub open spec fn distinct_names(vars: Seq<VariableView>) -> bool {
    forall|i: int, j: int|
        0 <= i < j < vars.len() ==> (#[trigger] vars[i]).name != (#[trigger] vars[j]).name
}

/// The variables come in the order of their first placeholders: before any
/// placeholder of a later variable stands one of each earlier variable.
pub open spec fn in_order_of_appearance(os: Seq<Occurrence>, vars: Seq<VariableView>) -> bool {
    forall|i: int, j: int, k: int|
        0 <= i < j < vars.len() && 0 <= k < os.len() && (#[trigger] os[k]).var == #[trigger] vars[j]
            ==> occurs(os.take(k), #[trigger] vars[i])
}

/// A secret in brackets, or one name with two kinds.
pub open spec fn has_fault(os: Seq<Occurrence>) -> bool {
    ||| exists|k: int|
        0 <= k < os.len() && (#[trigger] os[k]).bracketed && os[k].var.kind == CmdVarKind::Secret
    ||| exists|k: int, l: int|
        0 <= k < os.len() && 0 <= l < os.len() && (#[trigger] os[k]).var.name == (
        #[trigger] os[l]).var.name && os[k].var.kind != os[l].var.kind
}

proof fn variables_of_list(os: Seq<Occurrence>)
    ensures
        match variables_of(os) {
            Ok(vars) => {
                &&& !has_fault(os)
                &&& distinct_names(vars)
                &&& forall|v: VariableView| vars.contains(v) <==> #[trigger] occurs(os, v)
                &&& in_order_of_appearance(os, vars)
            },
            Err(_) => has_fault(os),
        },
    decreases os.len(),
{
    if os.len() > 0 {
        let before = os.drop_last();
        let o = os.last();
        variables_of_list(before);
        assert forall|v: VariableView| #[trigger] occurs(os, v) <==> occurs(before, v) || v
            == o.var by {
            if occurs(before, v) {
                let k = choose|k: int| 0 <= k < before.len() && (#[trigger] before[k]).var == v;
                assert(os[k].var == v);
            }
            if v == o.var {
                assert(os[os.len() - 1].var == v);
            }
            if occurs(os, v) && v != o.var {
                let k = choose|k: int| 0 <= k < os.len() && (#[trigger] os[k]).var == v;
                assert(before[k].var == v);
            }
        }
        match variables_of(before) {
            Err(_) => {
                fault_of_prefix(before, os);
            },
            Ok(vars) => {
                kind_from_finds_first(vars, 0, o.var.name);
                if o.bracketed && o.var.kind == CmdVarKind::Secret {
                    assert(os[os.len() - 1].bracketed);
                } else {
                    match kind_from(vars, 0, o.var.name) {
                        Some(kind) => {
                            let j = choose|j: int|
                                0 <= j < vars.len() && (#[trigger] vars[j]).name == o.var.name
                                    && vars[j].kind == kind;
                            assert(vars.contains(vars[j]));
                            assert(occurs(before, vars[j]));
                            let k = choose|k: int|
                                0 <= k < before.len() && (#[trigger] before[k]).var == vars[j];
                            assert(os[k].var == vars[j]);
                            if kind != o.var.kind {
                                assert(os[k].var.name == os[os.len() - 1].var.name);
                                assert(has_fault(os));
                            } else {
                                assert(o.var == vars[j]);
                                no_new_fault(before, os, vars);
                                order_kept(before, os, vars);
                            }
                        },
                        None => {
                            let more = vars.push(o.var);
                            no_new_fault(before, os, vars);
                            assert forall|v: VariableView|
                                more.contains(v) <==> #[trigger] occurs(os, v) by {
                                if more.contains(v) && v != o.var {
                                    let j = choose|j: int| 0 <= j < more.len() && more[j] == v;
                                    assert(vars[j] == v);
                                    assert(vars.contains(v));
                                }
                                if occurs(os, v) {
                                    if v == o.var {
                                        assert(more[vars.len() as int] == v);
                                    } else {
                                        assert(occurs(before, v));
                                        let j = choose|j: int| 0 <= j < vars.len() && vars[j] == v;
                                        assert(more[j] == v);
                                    }
                                }
                            }
                            order_extended(before, os, vars);
                        },
                    }
                }
            },
        }
    }
}

proof fn fault_of_prefix(before: Seq<Occurrence>, os: Seq<Occurrence>)
    requires
        os.len() > 0,
        before == os.drop_last(),
        has_fault(before),
    ensures
        has_fault(os),
{
    if exists|k: int|
        0 <= k < before.len() && (#[trigger] before[k]).bracketed && before[k].var.kind
            == CmdVarKind::Secret {
        let k = choose|k: int|
            0 <= k < before.len() && (#[trigger] before[k]).bracketed && before[k].var.kind
                == CmdVarKind::Secret;
        assert(os[k].bracketed);
    } else {
        let (k, l) = choose|k: int, l: int|
            0 <= k < before.len() && 0 <= l < before.len() && (#[trigger] before[k]).var.name == (
            #[trigger] before[l]).var.name && before[k].var.kind != before[l].var.kind;
        assert(os[k].var.name == os[l].var.name);
    }
}

proof fn no_new_fault(before: Seq<Occurrence>, os: Seq<Occurrence>, vars: Seq<VariableView>)
    requires
        os.len() > 0,
        before == os.drop_last(),
        !has_fault(before),
        !(os.last().bracketed && os.last().var.kind == CmdVarKind::Secret),
        forall|v: VariableView| vars.contains(v) <==> #[trigger] occurs(before, v),
        forall|j: int|
            0 <= j < vars.len() ==> (#[trigger] vars[j]).name == os.last().var.name ==> vars[j].kind
                == os.last().var.kind,
        distinct_names(vars),
    ensures
        !has_fault(os),
{
    if has_fault(os) {
        let last = os.len() - 1;
        assert forall|k: int| 0 <= k < before.len() implies (#[trigger] before[k]).var.name
            != os.last().var.name || before[k].var.kind == os.last().var.kind by {
            assert(occurs(before, before[k].var));
            let j = choose|j: int| 0 <= j < vars.len() && vars[j] == before[k].var;
            assert(vars[j].name == before[k].var.name);
        }
        if exists|k: int|
            0 <= k < os.len() && (#[trigger] os[k]).bracketed && os[k].var.kind
                == CmdVarKind::Secret {
            let k = choose|k: int|
                0 <= k < os.len() && (#[trigger] os[k]).bracketed && os[k].var.kind
                    == CmdVarKind::Secret;
            assert(before[k].bracketed);
        } else {
            let (k, l) = choose|k: int, l: int|
                0 <= k < os.len() && 0 <= l < os.len() && (#[trigger] os[k]).var.name == (
                #[trigger] os[l]).var.name && os[k].var.kind != os[l].var.kind;
            if k < last && l < last {
                assert(before[k].var.name == before[l].var.name);
            } else if k < last {
                assert(before[k].var.name == os[l].var.name);
            } else if l < last {
                assert(before[l].var.name == os[k].var.name);
            }
        }
    }
}

/// A variable that occurs in a prefix occurs in the same prefix of the whole.
proof fn occurs_in_prefix(before: Seq<Occurrence>, os: Seq<Occurrence>, k: int, v: VariableView)
    requires
        os.len() > 0,
        before == os.drop_last(),
        0 <= k <= before.len(),
        occurs(before.take(k), v),
    ensures
        occurs(os.take(k), v),
{
    assert(before.take(k) =~= os.take(k));
}

proof fn order_kept(before: Seq<Occurrence>, os: Seq<Occurrence>, vars: Seq<VariableView>)
    requires
        os.len() > 0,
        before == os.drop_last(),
        in_order_of_appearance(before, vars),
        forall|v: VariableView| vars.contains(v) <==> #[trigger] occurs(before, v),
    ensures
        in_order_of_appearance(os, vars),
{
    assert forall|i: int, j: int, k: int|
        0 <= i < j < vars.len() && 0 <= k < os.len() && (#[trigger] os[k]).var
            == #[trigger] vars[j] implies occurs(os.take(k), #[trigger] vars[i]) by {
        if k < before.len() {
            assert(before[k].var == vars[j]);
            occurs_in_prefix(before, os, k, vars[i]);
        } else {
            assert(vars.contains(vars[i]));
            assert(occurs(before, vars[i]));
            assert(os.take(k) =~= before);
        }
    }
}

proof fn order_extended(before: Seq<Occurrence>, os: Seq<Occurrence>, vars: Seq<VariableView>)
    requires
        os.len() > 0,
        before == os.drop_last(),
        in_order_of_appearance(before, vars),
        forall|v: VariableView| vars.contains(v) <==> #[trigger] occurs(before, v),
        forall|j: int| 0 <= j < vars.len() ==> (#[trigger] vars[j]).name != os.last().var.name,
    ensures
        in_order_of_appearance(os, vars.push(os.last().var)),
{
    let more = vars.push(os.last().var);
    assert forall|i: int, j: int, k: int|
        0 <= i < j < more.len() && 0 <= k < os.len() && (#[trigger] os[k]).var
            == #[trigger] more[j] implies occurs(os.take(k), #[trigger] more[i]) by {
        assert(more[i] == vars[i]);
        assert(vars.contains(vars[i]));
        if j == vars.len() {
            if k < before.len() {
                assert(before[k].var == os.last().var);
                assert(occurs(before, os.last().var));
                let l = choose|l: int| 0 <= l < vars.len() && vars[l] == os.last().var;
                assert(vars[l].name != os.last().var.name);
            }
            assert(occurs(before, vars[i]));
            assert(os.take(k) =~= before);
        } else {
            assert(more[j] == vars[j]);
            if k < before.len() {
                assert(before[k].var == vars[j]);
                occurs_in_prefix(before, os, k, vars[i]);
            } else {
                assert(vars[j].name != os.last().var.name);
            }
        }
    }
}

/// A template parses exactly when it has no secret in brackets and uses no
/// name with two kinds. It then has each variable that occurs in it once, in
/// order of first appearance, under a proper name.
pub proof fn parsed_variables_are_those_that_occur(template: Seq<char>)
    ensures
        template_variables(template) is Ok <==> !has_fault(occurrences(template, 0)),
        template_variables(template) matches Ok(vars) ==> {
            &&& distinct_names(vars)
            &&& forall|v: VariableView|
                vars.contains(v) <==> #[trigger] occurs(occurrences(template, 0), v)
            &&& in_order_of_appearance(occurrences(template, 0), vars)
            &&& forall|i: int| 0 <= i < vars.len() ==> is_name((#[trigger] vars[i]).name)
        },
{
    let os = occurrences(template, 0);
    variables_of_list(os);
    if let Ok(vars) = template_variables(template) {
        assert forall|i: int| 0 <= i < vars.len() implies is_name((#[trigger] vars[i]).name) by {
            assert(vars.contains(vars[i]));
            assert(occurs(os, vars[i]));
            let k = choose|k: int| 0 <= k < os.len() && (#[trigger] os[k]).var == vars[i];
            occurrences_have_names(template, 0, k);
        }
    }
}

proof fn occurrences_have_names(s: Seq<char>, i: int, k: int)
    requires
        0 <= i,
        0 <= k < occurrences(s, i).len(),
    ensures
        is_name(occurrences(s, i)[k].var.name),
    decreases s.len() - i,
{
    match occurrence_at(s, i) {
        Some(o) => {
            occurrence_bounds(s, i);
            if k > 0 {
                occurrences_have_names(s, o.end, k - 1);
            }
        },
        None => {
            occurrences_have_names(s, i + 1, k);
        },
    }
}

/// The end of a run that only the end of the text, or a character that no
/// name holds, can stop.
pub proof fn name_end_is(s: Seq<char>, i: int, end: int)
    requires
        0 <= i <= end <= s.len(),
        forall|j: int| i <= j < end ==> is_name_char(#[trigger] s[j]),
        end < s.len() ==> !is_name_char(s[end]),
    ensures
        name_end(s, i) == end,
    decreases end - i,
{
    if i < end {
        name_end_is(s, i + 1, end);
    }
}

/// A variable's own placeholder parses back to that variable alone, in either
/// spelling that its kind allows.
pub proof fn placeholder_parses_to_itself(v: VariableView)
    requires
        is_name(v.name),
    ensures
        template_variables(v.placeholder()) == Ok::<Seq<VariableView>, Fault>(seq![v]),
        v.kind != CmdVarKind::Secret ==> template_variables(v.bracketed()) == Ok::<
            Seq<VariableView>,
            Fault,
        >(seq![v]),
        v.kind == CmdVarKind::Secret ==> template_variables(v.bracketed()) == Err::<
            Seq<VariableView>,
            Fault,
        >(Fault::BracketedSecret(v.name)),
{
    let bare = v.placeholder();
    assert forall|j: int| 3 <= j < bare.len() implies is_name_char(#[trigger] bare[j]) by {
        assert(bare[j] == v.name[j - 3]);
    }
    assert(bare[3] == v.name[0]);
    name_end_is(bare, 3, bare.len() as int);
    assert(bare.subrange(3, bare.len() as int) =~= v.name);
    let o = Occurrence { var: v, bracketed: false, end: bare.len() as int };
    assert(occurrence_at(bare, 0) == Some(o));
    assert(occurrences(bare, 0) == seq![o] + occurrences(bare, bare.len() as int));
    assert(occurrences(bare, 0) =~= seq![o]);
    single_occurrence(o);

    let wrapped = v.bracketed();
    let end = wrapped.len() - 1;
    assert(wrapped[0] == '[' && wrapped[end] == ']');
    assert forall|j: int| 1 <= j < end implies #[trigger] wrapped[j] == bare[j - 1] by {}
    assert forall|j: int| 4 <= j < end implies is_name_char(#[trigger] wrapped[j]) by {
        assert(wrapped[j] == v.name[j - 4]);
    }
    assert(wrapped[1] == '%' && wrapped[2] == v.kind.letter() && wrapped[3] == ':');
    assert(wrapped[4] == v.name[0]);
    name_end_is(wrapped, 4, end);
    assert(wrapped.subrange(4, end) =~= v.name);
    let b = Occurrence { var: v, bracketed: true, end: wrapped.len() as int };
    assert(occurrence_at(wrapped, 0) == Some(b));
    assert(occurrences(wrapped, 0) == seq![b] + occurrences(wrapped, wrapped.len() as int));
    assert(occurrences(wrapped, 0) =~= seq![b]);
    single_occurrence(b);
}

proof fn single_occurrence(o: Occurrence)
    ensures
        variables_of(seq![o]) == if o.bracketed && o.var.kind == CmdVarKind::Secret {
            Err::<Seq<VariableView>, Fault>(Fault::BracketedSecret(o.var.name))
        } else {
            Ok(seq![o.var])
        },
{
    assert(seq![o].drop_last() =~= Seq::<Occurrence>::empty());
    assert(variables_of(Seq::<Occurrence>::empty()) == Ok::<Seq<VariableView>, Fault>(
        Seq::empty(),
    ));
    assert(Seq::<VariableView>::empty().push(o.var) =~= seq![o.var]);
    assert(kind_from(Seq::<VariableView>::empty(), 0, o.var.name) is None);
}

} // verus!
