//! Why a parsed template can always be run: every variable that parsing finds
//! still has a placeholder when its turn to be substituted comes.

use vstd::prelude::*;

#[allow(unused_imports)]
use crate::models::VariableView;
#[allow(unused_imports)]
use crate::placeholder::{
    distinct_names, is_name, is_name_char, name_end, name_end_bounds, occurrence_at,
    occurrence_bounds, occurrences, occurs, parsed_variables_are_those_that_occur,
    template_variables,
};
#[allow(unused_imports)]
use crate::slots::{
    bracketed_holds_bare, cells, char_cell, found_at, is_name_cell, slotted, slotted_from,
    spelled_at, spelled_in, stands_at, with_bracketed, with_variable, with_variables, Cell,
};

verus! {

/// No `pattern` that is found in `line` reaches into the `n` cells at `i`.
spec fn clear_of(line: Seq<Cell>, pattern: Seq<char>, ends: bool, i: int, n: int) -> bool {
    forall|m: int| #[trigger]
        found_at(line, pattern, ends, m) ==> m + pattern.len() <= i || i + n <= m
}

/// Cells that no pattern begins in are copied one by one.
pub proof fn copied(line: Seq<Cell>, pattern: Seq<char>, ends: bool, slot: usize, i: int, n: int)
    requires
        pattern.len() > 0,
        0 <= i,
        0 <= n,
        i + n <= line.len(),
        forall|m: int| i <= m < i + n ==> !#[trigger] found_at(line, pattern, ends, m),
    ensures
        slotted_from(line, pattern, ends, slot, i) == line.subrange(i, i + n) + slotted_from(
            line,
            pattern,
            ends,
            slot,
            i + n,
        ),
    decreases n,
{
    let end = slotted_from(line, pattern, ends, slot, i + n);
    if n == 0 {
        assert(line.subrange(i, i) + end =~= end);
    } else {
        copied(line, pattern, ends, slot, i + 1, n - 1);
        assert(!found_at(line, pattern, ends, i));
        assert(seq![line[i]] + (line.subrange(i + 1, i + n) + end) =~= line.subrange(i, i + n)
            + end);
    }
}

/// What no pattern reaches into is kept, and is followed by what followed it
/// or by a slot.
proof fn kept(
    line: Seq<Cell>,
    pattern: Seq<char>,
    ends: bool,
    slot: usize,
    s: int,
    i: int,
    n: int,
) -> (o: int)
    requires
        pattern.len() > 0,
        0 <= s <= i,
        0 < n,
        i + n <= line.len(),
        clear_of(line, pattern, ends, i, n),
    ensures
        0 <= o,
        o + n <= slotted_from(line, pattern, ends, slot, s).len(),
        slotted_from(line, pattern, ends, slot, s).subrange(o, o + n) == line.subrange(i, i + n),
        o + n < slotted_from(line, pattern, ends, slot, s).len() ==> {
            let next = slotted_from(line, pattern, ends, slot, s)[o + n];
            next is Slot || (i + n < line.len() && next == line[i + n])
        },
    decreases i - s,
{
    let out = slotted_from(line, pattern, ends, slot, s);
    if s == i {
        assert forall|m: int| i <= m < i + n implies !#[trigger] found_at(
            line,
            pattern,
            ends,
            m,
        ) by {}
        copied(line, pattern, ends, slot, i, n);
        assert(out.subrange(0, n) =~= line.subrange(i, i + n));
        0
    } else {
        let next = if found_at(line, pattern, ends, s) {
            s + pattern.len()
        } else {
            s + 1
        };
        let head = if found_at(line, pattern, ends, s) {
            Cell::Slot(slot)
        } else {
            line[s]
        };
        let rest = slotted_from(line, pattern, ends, slot, next);
        assert(out == seq![head] + rest);
        let o = kept(line, pattern, ends, slot, next, i, n);
        assert(out.subrange(o + 1, o + 1 + n) =~= rest.subrange(o, o + n));
        if o + 1 + n < out.len() {
            assert(out[o + 1 + n] == rest[o + n]);
        }
        o + 1
    }
}

/// The characters of a placeholder behind its `%`: none of them begins
/// another placeholder.
proof fn placeholder_chars(v: VariableView, j: int)
    requires
        is_name(v.name),
        0 <= j < v.placeholder().len(),
    ensures
        j == 0 ==> v.placeholder()[j] == '%',
        j == 1 ==> v.placeholder()[j] == v.kind.letter(),
        j == 2 ==> v.placeholder()[j] == ':',
        j >= 3 ==> v.placeholder()[j] == v.name[j - 3] && is_name_char(v.placeholder()[j]),
        j > 0 ==> v.placeholder()[j] != '%',
        v.placeholder()[j] != '[',
        v.placeholder()[j] != ']',
{
    if j >= 3 {
        assert(is_name_char(v.name[j - 3]));
    }
}

/// The placeholders of two variables, their names ended, do not stand at the
/// same place.
proof fn same_place(line: Seq<Cell>, v: VariableView, w: VariableView, i: int)
    requires
        is_name(v.name),
        is_name(w.name),
        spelled_at(line, v, i),
        spelled_at(line, w, i),
    ensures
        v.name == w.name,
{
    let p = v.placeholder();
    let q = w.placeholder();
    let m = v.name.len() as int;
    let n = w.name.len() as int;
    if n > m {
        assert(q[3 + m] == w.name[m]);
        assert(is_name_char(w.name[m]));
        assert(line[i + (3 + m)] == Cell::Char(q[3 + m]));
        assert(is_name_cell(line[i + p.len()]));
    }
    if m > n {
        assert(p[3 + n] == v.name[n]);
        assert(is_name_char(v.name[n]));
        assert(line[i + (3 + n)] == Cell::Char(p[3 + n]));
        assert(is_name_cell(line[i + q.len()]));
    }
    assert forall|x: int| 0 <= x < n implies v.name[x] == w.name[x] by {
        assert(p[3 + x] == v.name[x] && q[3 + x] == w.name[x]);
        assert(line[i + (3 + x)] == Cell::Char(p[3 + x]));
        assert(line[i + (3 + x)] == Cell::Char(q[3 + x]));
    }
    assert(v.name =~= w.name);
}

/// Neither spelling of a variable with another name reaches into a
/// placeholder.
proof fn others_stay_clear(line: Seq<Cell>, v: VariableView, w: VariableView, i: int)
    requires
        is_name(v.name),
        is_name(w.name),
        v.name != w.name,
        spelled_at(line, v, i),
    ensures
        clear_of(line, w.placeholder(), true, i, v.placeholder().len() as int),
        clear_of(line, w.bracketed(), false, i, v.placeholder().len() as int),
{
    let p = v.placeholder();
    let n = p.len() as int;
    let q = w.placeholder();
    assert forall|m: int| #[trigger] found_at(line, q, true, m) implies m + q.len() <= i || i + n
        <= m by {
        if i < m + q.len() && m < i + n {
            if m == i {
                same_place(line, v, w, i);
            } else if m > i {
                placeholder_chars(v, m - i);
                assert(line[i + (m - i)] == Cell::Char(p[m - i]));
                assert(line[m + 0] == Cell::Char(q[0]));
            } else {
                placeholder_chars(w, i - m);
                assert(line[m + (i - m)] == Cell::Char(q[i - m]));
                assert(line[i + 0] == Cell::Char(p[0]));
            }
        }
    }
    let b = w.bracketed();
    assert(b[0] == '[');
    assert forall|m: int| #[trigger] found_at(line, b, false, m) implies m + b.len() <= i || i + n
        <= m by {
        if i < m + b.len() && m < i + n {
            if m >= i {
                placeholder_chars(v, m - i);
                assert(line[i + (m - i)] == Cell::Char(p[m - i]));
                assert(line[m + 0] == Cell::Char(b[0]));
            } else {
                let e = i - m;
                assert(line[m + e] == Cell::Char(b[e]));
                assert(line[i + 0] == Cell::Char(p[0]));
                assert(b[e] == '%');
                if e - 1 < q.len() {
                    placeholder_chars(w, e - 1);
                    assert(b[e] == q[e - 1]);
                }
                assert(e == 1);
                bracketed_holds_bare(line, w, m);
                same_place(line, v, w, i);
            }
        }
    }
}

/// Replacing what stays clear of a placeholder keeps it.
proof fn spelled_after(
    line: Seq<Cell>,
    v: VariableView,
    pattern: Seq<char>,
    ends: bool,
    slot: usize,
    i: int,
)
    requires
        pattern.len() > 0,
        spelled_at(line, v, i),
        clear_of(line, pattern, ends, i, v.placeholder().len() as int),
    ensures
        spelled_in(slotted(line, pattern, ends, slot), v),
{
    let p = v.placeholder();
    let n = p.len() as int;
    let out = slotted(line, pattern, ends, slot);
    let o = kept(line, pattern, ends, slot, 0, i, n);
    assert forall|j: int| 0 <= j < n implies out[o + j] == Cell::Char(#[trigger] p[j]) by {
        assert(out.subrange(o, o + n)[j] == out[o + j]);
        assert(line.subrange(i, i + n)[j] == line[i + j]);
    }
    assert(found_at(out, p, true, o));
}

/// A placeholder is still there when another variable has its slots.
proof fn spelled_after_variable(line: Seq<Cell>, v: VariableView, w: VariableView, slot: usize)
    requires
        is_name(v.name),
        is_name(w.name),
        v.name != w.name,
        spelled_in(line, v),
    ensures
        spelled_in(with_variable(line, w, slot), v),
{
    let p = v.placeholder();
    let i = choose|i: int| #[trigger] found_at(line, p, true, i);
    others_stay_clear(line, v, w, i);
    spelled_after(line, v, w.bracketed(), false, slot, i);
    let once = with_bracketed(line, w, slot);
    let k = choose|k: int| #[trigger] found_at(once, p, true, k);
    others_stay_clear(once, v, w, k);
    spelled_after(once, v, w.placeholder(), true, slot, k);
}

proof fn variables_found(line: Seq<Cell>, vars: Seq<VariableView>, k: int)
    requires
        0 <= k <= vars.len(),
        distinct_names(vars),
        forall|j: int| 0 <= j < vars.len() ==> is_name((#[trigger] vars[j]).name),
        forall|j: int| k <= j < vars.len() ==> spelled_in(line, #[trigger] vars[j]),
    ensures
        with_variables(line, vars, k) is Ok,
    decreases vars.len() - k,
{
    if k < vars.len() {
        assert(spelled_in(line, vars[k]));
        let next = with_variable(line, vars[k], k as usize);
        assert forall|j: int| k + 1 <= j < vars.len() implies spelled_in(
            next,
            #[trigger] vars[j],
        ) by {
            assert(vars[k].name != vars[j].name);
            spelled_after_variable(line, vars[j], vars[k], k as usize);
        }
        variables_found(next, vars, k + 1);
    }
}

/// Each placeholder that parsing lists stands somewhere in the text.
proof fn occurrence_place(s: Seq<char>, i: int, k: int) -> (at: int)
    requires
        0 <= i,
        0 <= k < occurrences(s, i).len(),
    ensures
        i <= at < s.len(),
        occurrence_at(s, at) == Some(occurrences(s, i)[k]),
    decreases s.len() - i,
{
    match occurrence_at(s, i) {
        Some(o) => {
            occurrence_bounds(s, i);
            if k == 0 {
                i
            } else {
                occurrence_place(s, o.end, k - 1)
            }
        },
        None => occurrence_place(s, i + 1, k),
    }
}

/// The bare placeholder inside a placeholder stands in the text, its name
/// ended.
proof fn occurrence_is_spelled(s: Seq<char>, at: int)
    requires
        occurrence_at(s, at) is Some,
    ensures
        spelled_in(cells(s), occurrence_at(s, at)->0.var),
{
    let from = if s[at] == '[' {
        at + 1
    } else {
        at
    };
    let v = occurrence_at(s, at)->0.var;
    let line = cells(s);
    let end = name_end(s, from + 3);
    name_end_bounds(s, from + 3);
    let p = v.placeholder();
    assert(v.name == s.subrange(from + 3, end));
    assert forall|j: int| 0 <= j < p.len() implies line[from + j] == Cell::Char(
        #[trigger] p[j],
    ) by {
        assert(line[from + j] == char_cell(s[from + j]));
        if j >= 3 {
            assert(p[j] == v.name[j - 3]);
        }
    }
    assert(from + p.len() == end);
    if end < s.len() {
        assert(line[end] == char_cell(s[end]));
    }
    assert(found_at(line, p, true, from));
}

/// Whatever variables a template parses into, each of them is found when it is
/// substituted, so that running the template never fails for want of a
/// placeholder.
pub proof fn parsed_variables_are_all_substituted(template: Seq<char>)
    requires
        template_variables(template) is Ok,
    ensures
        with_variables(cells(template), template_variables(template)->Ok_0, 0) is Ok,
{
    let vars = template_variables(template)->Ok_0;
    let os = occurrences(template, 0);
    parsed_variables_are_those_that_occur(template);
    assert forall|j: int| 0 <= j < vars.len() implies spelled_in(
        cells(template),
        #[trigger] vars[j],
    ) by {
        assert(vars.contains(vars[j]));
        assert(occurs(os, vars[j]));
        let k = choose|k: int| 0 <= k < os.len() && (#[trigger] os[k]).var == vars[j];
        let at = occurrence_place(template, 0, k);
        occurrence_is_spelled(template, at);
    }
    variables_found(cells(template), vars, 0);
}

} // verus!
