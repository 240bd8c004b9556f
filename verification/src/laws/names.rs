//! Which names a template holds, and what its placeholders stand for.

use vstd::prelude::*;

#[allow(unused_imports)]
use crate::models::{CmdVarKind, VariableView};
#[allow(unused_imports)]
use crate::placeholder::{
    bare_at, is_name, is_name_char, is_name_start, kind_from, occurrence_at, occurrences,
    template_variables, variables_of, Fault, Occurrence,
};
#[allow(unused_imports)]
use crate::placement::{spelled_text_occurs, spelling};

verus! {

/// A letter of the English alphabet in either case, by its code point.
pub open spec fn is_letter(c: char) -> bool {
    0x41 <= c as u32 <= 0x5a || 0x61 <= c as u32 <= 0x7a
}

/// A digit, by its code point.
pub open spec fn is_decimal_digit(c: char) -> bool {
    0x30 <= c as u32 <= 0x39
}

/// A character of a word: a letter, a digit or an underscore.
pub open spec fn is_word_char(c: char) -> bool {
    is_letter(c) || is_decimal_digit(c) || c as u32 == 0x5f
}

/// A word that does not begin with a digit.
pub open spec fn is_word(s: Seq<char>) -> bool {
    &&& s.len() > 0
    &&& !is_decimal_digit(s[0])
    &&& forall|i: int| 0 <= i < s.len() ==> is_word_char(#[trigger] s[i])
}

/// How a template spells a variable of some kind.
pub open spec fn written(kind: CmdVarKind, name: Seq<char>) -> Seq<char> {
    match kind {
        CmdVarKind::Secret => "%s:"@ + name,
        CmdVarKind::Text => "%t:"@ + name,
        CmdVarKind::Number => "%n:"@ + name,
    }
}

/// A name begins with a letter of either case or an underscore.
pub proof fn names_begin_with_letters(c: char)
    ensures
        is_name_start(c) <==> is_letter(c) || c as u32 == 0x5f,
        is_name_char(c) <==> is_word_char(c),
{
}

/// A name begins with a letter of either case or an underscore, and goes on
/// with those and digits. Nothing else is a name.
pub proof fn names_are_words(s: Seq<char>)
    ensures
        is_name(s) <==> is_word(s),
{
    if is_word(s) {
        assert(is_word_char(s[0]));
        names_begin_with_letters(s[0]);
        assert forall|i: int| 0 <= i < s.len() implies is_name_char(#[trigger] s[i]) by {
            names_begin_with_letters(s[i]);
        }
    }
    if is_name(s) {
        names_begin_with_letters(s[0]);
        assert forall|i: int| 0 <= i < s.len() implies is_word_char(#[trigger] s[i]) by {
            names_begin_with_letters(s[i]);
        }
    }
}

/// A variable is spelled with a percent sign, the letter of its kind, a colon
/// and its name, and between brackets if need be.
pub proof fn placeholders_are_written(v: VariableView)
    ensures
        v.placeholder() == written(v.kind, v.name),
        v.bracketed() == "["@ + written(v.kind, v.name) + "]"@,
{
    reveal_strlit("%s:");
    reveal_strlit("%t:");
    reveal_strlit("%n:");
    reveal_strlit("[");
    reveal_strlit("]");
    assert(v.placeholder() =~= written(v.kind, v.name));
    assert(v.bracketed() =~= "["@ + written(v.kind, v.name) + "]"@);
}

/// Without a percent sign there is no placeholder.
proof fn no_occurrence(s: Seq<char>, i: int)
    requires
        0 <= i,
        forall|j: int| i <= j < s.len() ==> (#[trigger] s[j]) != '%',
    ensures
        occurrences(s, i) == Seq::<Occurrence>::empty(),
    decreases s.len() - i,
{
    if i < s.len() {
        assert(s[i] != '%');
        if i + 1 < s.len() {
            assert(s[i + 1] != '%');
        }
        assert(occurrence_at(s, i) is None);
        no_occurrence(s, i + 1);
    }
}

/// Text in front of the first placeholder holds none.
proof fn first_occurrence(s: Seq<char>, i: int, at: int)
    requires
        0 <= i <= at < s.len(),
        forall|j: int| i <= j < at ==> occurrence_at(s, j) is None,
        occurrence_at(s, at) is Some,
    ensures
        occurrences(s, i) == seq![occurrence_at(s, at)->0] + occurrences(
            s,
            occurrence_at(s, at)->0.end,
        ),
    decreases at - i,
{
    if i < at {
        first_occurrence(s, i + 1, at);
    }
}

/// A template is text of the user's own. Where it spells one variable, with
/// its name ended, and has no other percent sign, parsing finds that variable
/// there and no other.
pub open spec fn surrounds(before: Seq<char>, after: Seq<char>) -> bool {
    &&& forall|i: int| 0 <= i < before.len() ==> (#[trigger] before[i]) != '%'
    &&& forall|i: int| 0 <= i < after.len() ==> (#[trigger] after[i]) != '%'
    &&& after.len() > 0 ==> !is_word_char(after[0])
    &&& !(before.len() > 0 && before.last() == '[' && after.len() > 0 && after[0] == ']')
}

/// The placeholders of a template that spells one variable once.
pub proof fn one_occurrence(
    before: Seq<char>,
    kind: CmdVarKind,
    name: Seq<char>,
    bare: bool,
    after: Seq<char>,
)
    requires
        is_word(name),
        if bare {
            surrounds(before, after)
        } else {
            &&& forall|i: int| 0 <= i < before.len() ==> (#[trigger] before[i]) != '%'
            &&& forall|i: int| 0 <= i < after.len() ==> (#[trigger] after[i]) != '%'
        },
    ensures
        ({
            let v = VariableView { kind, name };
            let text = spelling(v, bare);
            let s = before + text + after;
            &&& occurrence_at(s, before.len() as int) == Some(
                (Occurrence { var: v, bracketed: !bare, end: (before + text).len() as int }),
            )
            &&& forall|j: int| 0 <= j < before.len() ==> occurrence_at(s, j) is None
            &&& forall|j: int| (before + text).len() <= j ==> occurrence_at(s, j) is None
            &&& occurrences(s, 0) == seq![
                Occurrence { var: v, bracketed: !bare, end: (before + text).len() as int },
            ]
        }),
{
    let v = VariableView { kind, name };
    let text = spelling(v, bare);
    let s = before + text + after;
    let at = before.len() as int;
    let end = at + text.len();
    names_are_words(name);
    if after.len() > 0 {
        names_begin_with_letters(after[0]);
    }
    assert forall|j: int| 0 <= j < text.len() implies s[at + j] == #[trigger] text[j] by {}
    if bare && end < s.len() {
        assert(s[end] == after[0]);
    }
    spelled_text_occurs(s, at, v, bare);
    assert(text[0] == if bare {
        '%'
    } else {
        '['
    });
    assert(s[at] == text[0]);
    assert forall|j: int| 0 <= j < at implies occurrence_at(s, j) is None by {
        assert(s[j] == before[j] && before[j] != '%');
        if j + 1 < at {
            assert(s[j + 1] == before[j + 1] && before[j + 1] != '%');
        } else if bare {
            assert(s[j + 1] == '%');
            if s[j] == '[' {
                assert(occurrence_at(s, at) == bare_at(s, at));
                assert(before.last() == '[');
                if end < s.len() {
                    assert(s[end] == after[0]);
                }
            }
        }
    }
    assert forall|j: int| end <= j < s.len() implies (#[trigger] s[j]) != '%' by {
        assert(s[j] == after[j - end]);
    }
    assert forall|j: int| end <= j implies occurrence_at(s, j) is None by {
        if j < s.len() {
            assert(s[j] != '%');
            if j + 1 < s.len() {
                assert(s[j + 1] != '%');
            }
        }
    }
    first_occurrence(s, 0, at);
    no_occurrence(s, end);
    assert(occurrences(s, 0) =~= seq![Occurrence { var: v, bracketed: !bare, end }]);
}

/// What the variables of a single placeholder are.
proof fn variables_of_one(o: Occurrence)
    ensures
        variables_of(seq![o]) == if o.bracketed && o.var.kind == CmdVarKind::Secret {
            Err::<Seq<VariableView>, Fault>(Fault::BracketedSecret(o.var.name))
        } else {
            Ok(seq![o.var])
        },
{
    let none = Seq::<Occurrence>::empty();
    assert(seq![o].drop_last() =~= none);
    assert(variables_of(none) == Ok::<Seq<VariableView>, Fault>(Seq::empty()));
    assert(kind_from(Seq::<VariableView>::empty(), 0, o.var.name) is None);
    assert(Seq::<VariableView>::empty().push(o.var) =~= seq![o.var]);
}

/// A template that spells one variable has that variable, with its whole name
/// and its kind. Brackets end a name and are no part of it, but a secret may
/// not stand in them. Text without a percent sign has no variables.
pub proof fn a_spelled_variable_is_found(
    before: Seq<char>,
    kind: CmdVarKind,
    name: Seq<char>,
    after: Seq<char>,
)
    requires
        is_word(name),
        surrounds(before, after),
    ensures
        template_variables(before + written(kind, name) + after) == Ok::<Seq<VariableView>, Fault>(
            seq![VariableView { kind, name }],
        ),
        template_variables(before + "["@ + written(kind, name) + "]"@ + after) == if kind
            == CmdVarKind::Secret {
            Err::<Seq<VariableView>, Fault>(Fault::BracketedSecret(name))
        } else {
            Ok(seq![VariableView { kind, name }])
        },
        template_variables(before + after) == Ok::<Seq<VariableView>, Fault>(Seq::empty()),
{
    bare_variable_is_found(before, kind, name, after);
    bracketed_variable_is_found(before, kind, name, after);
    let t = before + after;
    assert forall|j: int| 0 <= j < t.len() implies (#[trigger] t[j]) != '%' by {
        if j < before.len() {
            assert(before[j] != '%');
        } else {
            assert(after[j - before.len()] != '%');
        }
    }
    no_occurrence(t, 0);
    assert(variables_of(Seq::<Occurrence>::empty()) == Ok::<Seq<VariableView>, Fault>(
        Seq::empty(),
    ));
}

proof fn bare_variable_is_found(
    before: Seq<char>,
    kind: CmdVarKind,
    name: Seq<char>,
    after: Seq<char>,
)
    requires
        is_word(name),
        surrounds(before, after),
    ensures
        template_variables(before + written(kind, name) + after) == Ok::<Seq<VariableView>, Fault>(
            seq![VariableView { kind, name }],
        ),
{
    let v = VariableView { kind, name };
    placeholders_are_written(v);
    one_occurrence(before, kind, name, true, after);
    variables_of_one(
        Occurrence { var: v, bracketed: false, end: (before + v.placeholder()).len() as int },
    );
}

proof fn bracketed_variable_is_found(
    before: Seq<char>,
    kind: CmdVarKind,
    name: Seq<char>,
    after: Seq<char>,
)
    requires
        is_word(name),
        surrounds(before, after),
    ensures
        template_variables(before + "["@ + written(kind, name) + "]"@ + after) == if kind
            == CmdVarKind::Secret {
            Err::<Seq<VariableView>, Fault>(Fault::BracketedSecret(name))
        } else {
            Ok(seq![VariableView { kind, name }])
        },
{
    let v = VariableView { kind, name };
    assert(before + "["@ + written(kind, name) + "]"@ + after == before + v.bracketed() + after)
        by {
        placeholders_are_written(v);
        let w = written(kind, name);
        assert(before + "["@ + w + "]"@ + after =~= before + ("["@ + w + "]"@) + after);
    }
    assert(occurrences(before + v.bracketed() + after, 0) == seq![
        Occurrence { var: v, bracketed: true, end: (before + v.bracketed()).len() as int },
    ]) by {
        one_occurrence(before, kind, name, false, after);
    }
    variables_of_one(
        Occurrence { var: v, bracketed: true, end: (before + v.bracketed()).len() as int },
    );
}

/// A template that spells two variables has both, in the order in which they
/// stand, unless they are the same. One name cannot have two kinds.
pub proof fn two_variables_are_told_apart(
    first: VariableView,
    second: VariableView,
    between: Seq<char>,
)
    requires
        is_word(first.name),
        is_word(second.name),
        between.len() > 0,
        surrounds(Seq::empty(), between),
        surrounds(between, Seq::empty()),
    ensures
        ({
            let t = written(first.kind, first.name) + between + written(second.kind, second.name);
            template_variables(t) == if first == second {
                Ok::<Seq<VariableView>, Fault>(seq![first])
            } else if first.name == second.name {
                Err(Fault::ConflictingKinds(first.name, first.kind, second.kind))
            } else {
                Ok(seq![first, second])
            }
        }),
{
    placeholders_are_written(first);
    placeholders_are_written(second);
    two_occurrences(first, second, between);
    let p = first.placeholder();
    let t = p + between + second.placeholder();
    variables_of_two(
        Occurrence { var: first, bracketed: false, end: p.len() as int },
        Occurrence { var: second, bracketed: false, end: t.len() as int },
    );
}

proof fn two_occurrences(first: VariableView, second: VariableView, between: Seq<char>)
    requires
        is_word(first.name),
        is_word(second.name),
        between.len() > 0,
        surrounds(Seq::empty(), between),
        surrounds(between, Seq::empty()),
    ensures
        ({
            let p = first.placeholder();
            let t = p + between + second.placeholder();
            occurrences(t, 0) == seq![
                Occurrence { var: first, bracketed: false, end: p.len() as int },
                Occurrence { var: second, bracketed: false, end: t.len() as int },
            ]
        }),
{
    let p = first.placeholder();
    let q = second.placeholder();
    let t = p + between + q;
    let n = p.len() as int;
    let at = n + between.len();
    let end = t.len() as int;
    let a = Occurrence { var: first, bracketed: false, end: n };
    let b = Occurrence { var: second, bracketed: false, end };
    assert(occurrence_at(t, 0) == Some(a)) by {
        names_are_words(first.name);
        names_begin_with_letters(between[0]);
        assert forall|j: int| 0 <= j < p.len() implies t[0 + j] == #[trigger] p[j] by {}
        assert(t[n] == between[0]);
        assert(spelling(first, true) == p);
        spelled_text_occurs(t, 0, first, true);
    }
    assert(occurrence_at(t, at) == Some(b)) by {
        names_are_words(second.name);
        assert forall|j: int| 0 <= j < q.len() implies t[at + j] == #[trigger] q[j] by {}
        assert(spelling(second, true) == q);
        spelled_text_occurs(t, at, second, true);
    }
    assert forall|j: int| n <= j < at implies occurrence_at(t, j) is None by {
        assert(t[j] == between[j - n] && between[j - n] != '%');
        if j + 1 < at {
            assert(t[j + 1] == between[j + 1 - n] && between[j + 1 - n] != '%');
        } else if t[j] == '[' {
            assert(t[at] == q[0] && q[0] == '%');
            assert(occurrence_at(t, at) == bare_at(t, at));
        }
    }
    first_occurrence(t, 0, 0);
    first_occurrence(t, n, at);
    no_occurrence(t, end);
    assert(occurrences(t, 0) =~= seq![a, b]);
}

proof fn variables_of_two(a: Occurrence, b: Occurrence)
    requires
        !a.bracketed,
        !b.bracketed,
    ensures
        variables_of(seq![a, b]) == if a.var == b.var {
            Ok::<Seq<VariableView>, Fault>(seq![a.var])
        } else if a.var.name == b.var.name {
            Err(Fault::ConflictingKinds(a.var.name, a.var.kind, b.var.kind))
        } else {
            Ok(seq![a.var, b.var])
        },
{
    variables_of_one(a);
    assert(seq![a, b].drop_last() =~= seq![a]);
    let vars = seq![a.var];
    assert(kind_from(vars, 1, b.var.name) is None);
    assert(vars.push(b.var) =~= seq![a.var, b.var]);
}

} // verus!
