//! Where the values of a parsed template come to stand: exactly where its
//! placeholders stood.

use vstd::prelude::*;

#[allow(unused_imports)]
use crate::models::VariableView;
#[allow(unused_imports)]
use crate::placeholder::{
    bare_at, distinct_names, is_name, is_name_char, kind_of_letter, name_end, name_end_bounds,
    name_end_is, occurrence_at, occurrence_bounds, occurrences, occurs,
    parsed_variables_are_those_that_occur, template_variables, Occurrence,
};
#[allow(unused_imports)]
use crate::slots::{
    cells, char_cell, found_at, is_name_cell, slotted, slotted_from, stands_at, with_bracketed,
    with_variable, with_variables, Cell,
};
#[allow(unused_imports)]
use crate::substitution::{copied, parsed_variables_are_all_substituted};

verus! {

/// `s` from `i` on, with the slot of its variable in place of each placeholder
/// that parsing finds.
pub open spec fn placed_from(s: Seq<char>, vars: Seq<VariableView>, i: int) -> Seq<Cell>
    decreases s.len() - i,
{
    if i < 0 || i >= s.len() {
        Seq::empty()
    } else {
        match occurrence_at(s, i) {
            Some(o) => {
                proof {
                    occurrence_bounds(s, i);
                }
                seq![Cell::Slot(vars.index_of(o.var) as usize)] + placed_from(s, vars, o.end)
            },
            None => seq![char_cell(s[i])] + placed_from(s, vars, i + 1),
        }
    }
}

/// Variables get their slots one after the other, the bracketed placeholders of
/// each before the bare ones: the number of the pass that a placeholder has to
/// wait for.
spec fn pass_of(vars: Seq<VariableView>, o: Occurrence) -> int {
    2 * vars.index_of(o.var) + if o.bracketed {
        0int
    } else {
        1int
    }
}

/// `s` from `i` on, with slots in place of the placeholders of the first `p`
/// passes.
spec fn partly_placed(s: Seq<char>, vars: Seq<VariableView>, p: int, i: int) -> Seq<Cell>
    decreases s.len() - i,
{
    if i < 0 || i >= s.len() {
        Seq::empty()
    } else {
        match occurrence_at(s, i) {
            Some(o) => {
                proof {
                    occurrence_bounds(s, i);
                }
                let rest = partly_placed(s, vars, p, o.end);
                if pass_of(vars, o) < p {
                    seq![Cell::Slot(vars.index_of(o.var) as usize)] + rest
                } else {
                    cells(s.subrange(i, o.end)) + rest
                }
            },
            None => seq![char_cell(s[i])] + partly_placed(s, vars, p, i + 1),
        }
    }
}

/// One spelling of a variable's placeholder.
pub open spec fn spelling(v: VariableView, bare: bool) -> Seq<char> {
    if bare {
        v.placeholder()
    } else {
        v.bracketed()
    }
}

/// What is replaced from a position on depends only on what stands there.
proof fn slotted_skip(
    line: Seq<Cell>,
    pattern: Seq<char>,
    ends: bool,
    slot: usize,
    d: int,
    i: int,
)
    requires
        0 <= d <= i <= line.len(),
        pattern.len() > 0,
    ensures
        slotted_from(line, pattern, ends, slot, i) == slotted_from(
            line.skip(d),
            pattern,
            ends,
            slot,
            i - d,
        ),
    decreases line.len() - i,
{
    let rest = line.skip(d);
    if i < line.len() {
        assert(stands_at(line, pattern, i) == stands_at(rest, pattern, i - d)) by {
            if stands_at(line, pattern, i) {
                assert forall|j: int| 0 <= j < pattern.len() implies rest[i - d + j]
                    == Cell::Char(#[trigger] pattern[j]) by {
                    assert(line[i + j] == Cell::Char(pattern[j]));
                }
            }
            if stands_at(rest, pattern, i - d) {
                assert forall|j: int| 0 <= j < pattern.len() implies line[i + j] == Cell::Char(
                    #[trigger] pattern[j],
                ) by {
                    assert(rest[i - d + j] == Cell::Char(pattern[j]));
                }
            }
        }
        assert(found_at(line, pattern, ends, i) == found_at(rest, pattern, ends, i - d));
        if found_at(line, pattern, ends, i) {
            slotted_skip(line, pattern, ends, slot, d, i + pattern.len());
        } else {
            slotted_skip(line, pattern, ends, slot, d, i + 1);
        }
    }
}

/// What a placeholder that parsing finds looks like.
pub proof fn occurrence_text(s: Seq<char>, i: int)
    requires
        occurrence_at(s, i) is Some,
    ensures
        ({
            let o = occurrence_at(s, i)->0;
            &&& 0 <= i
            &&& i + 4 <= o.end <= s.len()
            &&& is_name(o.var.name)
            &&& s.subrange(i, o.end) == spelling(o.var, !o.bracketed)
            &&& s[i] == if o.bracketed {
                '['
            } else {
                '%'
            }
            &&& !o.bracketed && o.end < s.len() ==> !is_name_char(s[o.end])
            &&& forall|j: int| i < j < o.end ==> #[trigger] s[j] != '[' && (s[j] == '%' ==> j == i + 1
                && o.bracketed)
        }),
{
    occurrence_bounds(s, i);
    let o = occurrence_at(s, i)->0;
    let from = if s[i] == '[' {
        i + 1
    } else {
        i
    };
    let end = name_end(s, from + 3);
    name_end_bounds(s, from + 3);
    assert(o.var.name == s.subrange(from + 3, end));
    let bare = o.var.placeholder();
    assert forall|j: int| 0 <= j < bare.len() implies s[from + j] == #[trigger] bare[j] by {
        if j >= 3 {
            assert(bare[j] == o.var.name[j - 3]);
        }
    }
    assert(s.subrange(from, end) =~= bare);
    if o.bracketed {
        assert(s.subrange(i, o.end) =~= o.var.bracketed());
    }
    assert forall|j: int| i < j < o.end implies #[trigger] s[j] != '[' && (s[j] == '%' ==> j == i + 1
        && o.bracketed) by {
        if from + 3 <= j < end {
            assert(is_name_char(s[j]));
        }
    }
}

/// Where a variable's placeholder is spelled out, parsing finds it.
pub proof fn spelled_text_occurs(s: Seq<char>, at: int, v: VariableView, bare: bool)
    requires
        is_name(v.name),
        0 <= at,
        at + spelling(v, bare).len() <= s.len(),
        forall|j: int|
            0 <= j < spelling(v, bare).len() ==> s[at + j] == #[trigger] spelling(v, bare)[j],
        bare && at + spelling(v, bare).len() < s.len() ==> !is_name_char(
            s[at + spelling(v, bare).len()],
        ),
    ensures
        occurrence_at(s, at) == Some(
            (Occurrence { var: v, bracketed: !bare, end: at + spelling(v, bare).len() }),
        ),
{
    let text = spelling(v, bare);
    let from = if bare {
        at
    } else {
        at + 1
    };
    let p = v.placeholder();
    let end = from + p.len();
    assert forall|j: int| 0 <= j < p.len() implies s[from + j] == #[trigger] p[j] by {
        if bare {
            assert(text[j] == p[j]);
        } else {
            assert(text[j + 1] == p[j]);
            assert(s[at + (j + 1)] == text[j + 1]);
        }
    }
    assert(p[0] == '%' && p[1] == v.kind.letter() && p[2] == ':' && p[3] == v.name[0]);
    assert(s[from + 0] == p[0] && s[from + 1] == p[1] && s[from + 2] == p[2] && s[from + 3]
        == p[3]);
    assert forall|j: int| from + 3 <= j < end implies is_name_char(#[trigger] s[j]) by {
        assert(s[from + (j - from)] == p[j - from]);
        assert(p[j - from] == v.name[j - from - 3]);
        assert(is_name_char(v.name[j - from - 3]));
    }
    if !bare {
        assert(text[0] == '[' && text[text.len() - 1] == ']');
        assert(s[at + 0] == text[0]);
        assert(s[at + (text.len() - 1)] == text[text.len() - 1]);
    }
    name_end_is(s, from + 3, end);
    assert(s.subrange(from + 3, end) =~= v.name) by {
        assert forall|j: int| 0 <= j < v.name.len() implies s[from + 3 + j] == v.name[j] by {
            assert(s[from + (3 + j)] == p[3 + j]);
            assert(p[3 + j] == v.name[j]);
        }
    }
    assert(bare_at(s, from) == Some((Occurrence { var: v, bracketed: false, end })));
}

/// The characters that a partly placed text begins with are those of the text,
/// and what follows them is its next character or the slot of a placeholder
/// that begins there.
proof fn characters_come_first(s: Seq<char>, vars: Seq<VariableView>, p: int, i: int, n: int)
    requires
        0 <= i <= s.len(),
        0 <= n <= partly_placed(s, vars, p, i).len(),
        forall|j: int| 0 <= j < n ==> (#[trigger] partly_placed(s, vars, p, i)[j]) is Char,
    ensures
        i + n <= s.len(),
        forall|j: int|
            0 <= j < n ==> #[trigger] partly_placed(s, vars, p, i)[j] == char_cell(s[i + j]),
        n == partly_placed(s, vars, p, i).len() ==> i + n == s.len(),
        n < partly_placed(s, vars, p, i).len() ==> {
            let next = partly_placed(s, vars, p, i)[n];
            i + n < s.len() && (next == char_cell(s[i + n]) || next is Slot && !is_name_char(
                s[i + n],
            ))
        },
    decreases s.len() - i,
{
    let line = partly_placed(s, vars, p, i);
    if i < s.len() {
        match occurrence_at(s, i) {
            Some(o) => {
                occurrence_text(s, i);
                let rest = partly_placed(s, vars, p, o.end);
                if pass_of(vars, o) < p {
                    assert(line[0] is Slot);
                } else {
                    let m = o.end - i;
                    let text = cells(s.subrange(i, o.end));
                    assert(line == text + rest);
                    assert forall|j: int| 0 <= j < m implies #[trigger] line[j] == char_cell(
                        s[i + j],
                    ) by {
                        assert(text[j] == char_cell(s.subrange(i, o.end)[j]));
                    }
                    if n >= m {
                        assert forall|j: int| 0 <= j < n - m implies (#[trigger] rest[j]) is Char by {
                            assert(line[j + m] == rest[j]);
                        }
                        characters_come_first(s, vars, p, o.end, n - m);
                        assert forall|j: int| 0 <= j < n implies #[trigger] line[j] == char_cell(
                            s[i + j],
                        ) by {
                            if j >= m {
                                assert(line[j] == rest[j - m]);
                            }
                        }
                        if n < line.len() {
                            assert(line[n] == rest[n - m]);
                        }
                    }
                }
            },
            None => {
                let rest = partly_placed(s, vars, p, i + 1);
                assert(line == seq![char_cell(s[i])] + rest);
                if n > 0 {
                    assert forall|j: int| 0 <= j < n - 1 implies (#[trigger] rest[j]) is Char by {
                        assert(line[j + 1] == rest[j]);
                    }
                    characters_come_first(s, vars, p, i + 1, n - 1);
                    assert forall|j: int| 0 <= j < n implies #[trigger] line[j] == char_cell(
                        s[i + j],
                    ) by {
                        if j > 0 {
                            assert(line[j] == rest[j - 1]);
                        }
                    }
                    if n < line.len() {
                        assert(line[n] == rest[n - 1]);
                    }
                }
            },
        }
    }
}

/// A placeholder that is found in a partly placed text, with nothing but
/// characters before it, stands in the text itself, where parsing finds it.
proof fn found_text_occurs(
    s: Seq<char>,
    vars: Seq<VariableView>,
    p: int,
    i: int,
    at: int,
    v: VariableView,
    bare: bool,
)
    requires
        0 <= i <= s.len(),
        is_name(v.name),
        found_at(partly_placed(s, vars, p, i), spelling(v, bare), bare, at),
        forall|j: int| 0 <= j < at ==> (#[trigger] partly_placed(s, vars, p, i)[j]) is Char,
    ensures
        occurrence_at(s, i + at) matches Some(o) && o.var == v && o.bracketed == !bare,
{
    let line = partly_placed(s, vars, p, i);
    let text = spelling(v, bare);
    let n = at + text.len();
    assert forall|j: int| 0 <= j < n implies (#[trigger] line[j]) is Char by {
        if j >= at {
            assert(line[at + (j - at)] == Cell::Char(text[j - at]));
        }
    }
    characters_come_first(s, vars, p, i, n);
    assert forall|j: int| 0 <= j < text.len() implies s[i + at + j] == #[trigger] text[j] by {
        assert(line[at + j] == Cell::Char(text[j]));
        assert(line[at + j] == char_cell(s[i + (at + j)]));
    }
    if bare && n < line.len() {
        assert(!is_name_cell(line[at + text.len()]));
    }
    spelled_text_occurs(s, i + at, v, bare);
}

/// One pass more: replacing one spelling of one variable's placeholder by its
/// slot replaces just those that parsing finds.
proof fn one_pass(s: Seq<char>, vars: Seq<VariableView>, k: int, bare: bool, p: int, i: int)
    requires
        0 <= i <= s.len(),
        0 <= k < vars.len(),
        distinct_names(vars),
        is_name(vars[k].name),
        p == 2 * k + if bare {
            1int
        } else {
            0int
        },
        forall|j: int| 0 <= j < occurrences(s, i).len() ==> vars.contains(
            (#[trigger] occurrences(s, i)[j]).var,
        ),
    ensures
        slotted(partly_placed(s, vars, p, i), spelling(vars[k], bare), bare, k as usize)
            == partly_placed(s, vars, p + 1, i),
    decreases s.len() - i,
{
    let v = vars[k];
    let pattern = spelling(v, bare);
    let slot = k as usize;
    let line = partly_placed(s, vars, p, i);
    let first = if bare {
        '%'
    } else {
        '['
    };
    assert(pattern.len() > 0 && pattern[0] == first);
    if i < s.len() {
        match occurrence_at(s, i) {
            Some(o) => {
                occurrence_text(s, i);
                let m = o.end - i;
                let rest = partly_placed(s, vars, p, o.end);
                let os = occurrences(s, i);
                let later = occurrences(s, o.end);
                assert(os == seq![o] + later);
                assert(vars.contains(os[0].var));
                assert forall|j: int| 0 <= j < later.len() implies vars.contains(
                    (#[trigger] later[j]).var,
                ) by {
                    assert(os[j + 1] == later[j]);
                }
                one_pass(s, vars, k, bare, p, o.end);
                let x = vars.index_of(o.var);
                assert(0 <= x < vars.len() && vars[x] == o.var);
                assert(o.var == v ==> x == k) by {
                    if x != k {
                        assert(vars[x].name != vars[k].name);
                    }
                }
                if pass_of(vars, o) < p {
                    assert(line == seq![Cell::Slot(x as usize)] + rest);
                    if stands_at(line, pattern, 0) {
                        assert(line[0int + 0] == Cell::Char(pattern[0]));
                    }
                    slotted_skip(line, pattern, bare, slot, 1, 1);
                    assert(line.skip(1) =~= rest);
                } else {
                    let text = cells(s.subrange(i, o.end));
                    assert(line == text + rest);
                    assert forall|j: int| 0 <= j < m implies #[trigger] line[j] == char_cell(
                        s[i + j],
                    ) by {
                        assert(text[j] == char_cell(s.subrange(i, o.end)[j]));
                    }
                    slotted_skip(line, pattern, bare, slot, m, m);
                    assert(line.skip(m) =~= rest);
                    if pass_of(vars, o) == p {
                        assert(o.var == v && o.bracketed == !bare);
                        assert(pattern == s.subrange(i, o.end));
                        assert forall|j: int| 0 <= j < pattern.len() implies line[0 + j]
                            == Cell::Char(#[trigger] pattern[j]) by {
                            assert(line[j] == char_cell(s[i + j]));
                        }
                        if bare && m < line.len() {
                            characters_come_first(s, vars, p, o.end, 0);
                            assert(line[m] == rest[0]);
                        }
                        assert(found_at(line, pattern, bare, 0));
                    } else {
                        assert forall|j: int| 0 <= j < m implies !#[trigger] found_at(
                            line,
                            pattern,
                            bare,
                            j,
                        ) by {
                            if found_at(line, pattern, bare, j) {
                                assert(line[j + 0] == Cell::Char(pattern[0]));
                                assert(line[j] == char_cell(s[i + j]));
                                found_text_occurs(s, vars, p, i, j, v, bare);
                            }
                        }
                        copied(line, pattern, bare, slot, 0, m);
                        assert(line.subrange(0, m) =~= text);
                    }
                }
            },
            None => {
                let rest = partly_placed(s, vars, p, i + 1);
                assert(line == seq![char_cell(s[i])] + rest);
                assert(occurrences(s, i) == occurrences(s, i + 1));
                one_pass(s, vars, k, bare, p, i + 1);
                if found_at(line, pattern, bare, 0) {
                    found_text_occurs(s, vars, p, i, 0, v, bare);
                }
                slotted_skip(line, pattern, bare, slot, 1, 1);
                assert(line.skip(1) =~= rest);
                assert(line[0] == char_cell(s[i]));
            },
        }
    }
}

/// Before the first pass nothing has changed.
proof fn nothing_placed(s: Seq<char>, vars: Seq<VariableView>, i: int)
    requires
        0 <= i <= s.len(),
        forall|j: int| 0 <= j < occurrences(s, i).len() ==> vars.contains(
            (#[trigger] occurrences(s, i)[j]).var,
        ),
    ensures
        partly_placed(s, vars, 0, i) == cells(s.subrange(i, s.len() as int)),
    decreases s.len() - i,
{
    let n = s.len() as int;
    if i < n {
        match occurrence_at(s, i) {
            Some(o) => {
                occurrence_bounds(s, i);
                let os = occurrences(s, i);
                let later = occurrences(s, o.end);
                assert(os == seq![o] + later);
                assert(vars.contains(os[0].var));
                assert forall|j: int| 0 <= j < later.len() implies vars.contains(
                    (#[trigger] later[j]).var,
                ) by {
                    assert(os[j + 1] == later[j]);
                }
                nothing_placed(s, vars, o.end);
                assert(cells(s.subrange(i, o.end)) + cells(s.subrange(o.end, n)) =~= cells(
                    s.subrange(i, n),
                ));
            },
            None => {
                assert(occurrences(s, i) == occurrences(s, i + 1));
                nothing_placed(s, vars, i + 1);
                assert(seq![char_cell(s[i])] + cells(s.subrange(i + 1, n)) =~= cells(
                    s.subrange(i, n),
                ));
            },
        }
    }
}

/// After the last pass every placeholder has its slot.
proof fn all_placed(s: Seq<char>, vars: Seq<VariableView>, i: int)
    requires
        0 <= i <= s.len(),
        forall|j: int| 0 <= j < occurrences(s, i).len() ==> vars.contains(
            (#[trigger] occurrences(s, i)[j]).var,
        ),
    ensures
        partly_placed(s, vars, 2 * vars.len() as int, i) == placed_from(s, vars, i),
    decreases s.len() - i,
{
    if i < s.len() {
        match occurrence_at(s, i) {
            Some(o) => {
                occurrence_bounds(s, i);
                let os = occurrences(s, i);
                let later = occurrences(s, o.end);
                assert(os == seq![o] + later);
                assert(vars.contains(os[0].var));
                assert forall|j: int| 0 <= j < later.len() implies vars.contains(
                    (#[trigger] later[j]).var,
                ) by {
                    assert(os[j + 1] == later[j]);
                }
                all_placed(s, vars, o.end);
            },
            None => {
                assert(occurrences(s, i) == occurrences(s, i + 1));
                all_placed(s, vars, i + 1);
            },
        }
    }
}

/// The passes from variable `k` on.
proof fn passes_from(s: Seq<char>, vars: Seq<VariableView>, k: int)
    requires
        0 <= k <= vars.len(),
        distinct_names(vars),
        forall|j: int| 0 <= j < vars.len() ==> is_name((#[trigger] vars[j]).name),
        forall|j: int| 0 <= j < occurrences(s, 0).len() ==> vars.contains(
            (#[trigger] occurrences(s, 0)[j]).var,
        ),
        with_variables(partly_placed(s, vars, 2 * k, 0), vars, k) is Ok,
    ensures
        with_variables(partly_placed(s, vars, 2 * k, 0), vars, k) == Ok::<Seq<Cell>, int>(
            partly_placed(s, vars, 2 * vars.len() as int, 0),
        ),
    decreases vars.len() - k,
{
    if k < vars.len() {
        let line = partly_placed(s, vars, 2 * k, 0);
        assert(is_name(vars[k].name));
        one_pass(s, vars, k, false, 2 * k, 0);
        one_pass(s, vars, k, true, 2 * k + 1, 0);
        assert(with_bracketed(line, vars[k], k as usize) == partly_placed(s, vars, 2 * k + 1, 0));
        assert(with_variable(line, vars[k], k as usize) == partly_placed(s, vars, 2 * (k + 1), 0));
        passes_from(s, vars, k + 1);
    }
}

/// In a template that parses, each placeholder that parsing finds becomes the
/// slot of its variable, and everything else stays as it is.
pub proof fn slots_stand_where_placeholders_stood(template: Seq<char>)
    requires
        template_variables(template) is Ok,
    ensures
        with_variables(cells(template), template_variables(template)->Ok_0, 0) == Ok::<
            Seq<Cell>,
            int,
        >(placed_from(template, template_variables(template)->Ok_0, 0)),
{
    let vars = template_variables(template)->Ok_0;
    let os = occurrences(template, 0);
    parsed_variables_are_those_that_occur(template);
    parsed_variables_are_all_substituted(template);
    assert forall|j: int| 0 <= j < os.len() implies vars.contains((#[trigger] os[j]).var) by {
        assert(occurs(os, os[j].var));
    }
    nothing_placed(template, vars, 0);
    assert(template.subrange(0, template.len() as int) =~= template);
    passes_from(template, vars, 0);
    all_placed(template, vars, 0);
}

} // verus!
