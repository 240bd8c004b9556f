//! Templates whose placeholders have become slots to be filled.
//!
//! A slot is not text. Once a placeholder has become one, nothing that fills
//! it can be taken for a placeholder again.

use vstd::prelude::*;

use crate::models::CmdVariable;
#[allow(unused_imports)]
use crate::models::VariableView;
use crate::placeholder::char_is_name_char;
#[allow(unused_imports)]
use crate::placeholder::is_name_char;
use crate::text::chars_of;
#[allow(unused_imports)]
use crate::views::{group_views, views};

verus! {

broadcast use {vstd::string::group_string_axioms, group_views};

/// A character of the template, or the place of a value.
#[derive(Debug, Clone, Copy, PartialEq, Eq, Structural)]
pub enum Cell {
    Char(char),
    Slot(usize),
}

/// The cell of a character.
pub open spec fn char_cell(c: char) -> Cell {
    Cell::Char(c)
}

/// A text without slots.
pub open spec fn cells(text: Seq<char>) -> Seq<Cell> {
    Seq::new(text.len(), |i: int| char_cell(text[i]))
}

/// Whether the characters of `pattern` stand in `line` at `i`.
pub open spec fn stands_at(line: Seq<Cell>, pattern: Seq<char>, i: int) -> bool {
    &&& 0 <= i
    &&& i + pattern.len() <= line.len()
    &&& forall|j: int| 0 <= j < pattern.len() ==> line[i + j] == Cell::Char(#[trigger] pattern[j])
}

/// Whether a cell can belong to a variable's name.
pub open spec fn is_name_cell(cell: Cell) -> bool {
    cell matches Cell::Char(c) && is_name_char(c)
}

/// Whether `pattern` is found in `line` at `i`. Where its name has to end with
/// it, no character of a name may follow.
pub open spec fn found_at(line: Seq<Cell>, pattern: Seq<char>, ends: bool, i: int) -> bool {
    &&& stands_at(line, pattern, i)
    &&& ends && i + pattern.len() < line.len() ==> !is_name_cell(line[i + pattern.len()])
}

/// Whether `pattern` is found anywhere in `line`.
pub open spec fn found_in(line: Seq<Cell>, pattern: Seq<char>, ends: bool) -> bool {
    exists|i: int| #[trigger] found_at(line, pattern, ends, i)
}

/// The bare placeholder of `v` stands in `line` at `i`, and its name ends
/// there.
pub open spec fn spelled_at(line: Seq<Cell>, v: VariableView, i: int) -> bool {
    found_at(line, v.placeholder(), true, i)
}

/// The bare placeholder of `v` stands somewhere in `line`, its name ended. A
/// longer name that only begins with that of `v` is not its placeholder.
pub open spec fn spelled_in(line: Seq<Cell>, v: VariableView) -> bool {
    found_in(line, v.placeholder(), true)
}

/// The bracketed placeholder of `v` stands somewhere in `line`. Its closing
/// bracket ends the name, whatever follows.
pub open spec fn bracketed_in(line: Seq<Cell>, v: VariableView) -> bool {
    found_in(line, v.bracketed(), false)
}

/// `line` from `i` on, with every `pattern` that is found replaced by one
/// slot: the leftmost first, each next one behind the one before.
pub open spec fn slotted_from(
    line: Seq<Cell>,
    pattern: Seq<char>,
    ends: bool,
    slot: usize,
    i: int,
) -> Seq<Cell>
    decreases line.len() - i,
{
    if i < 0 || i >= line.len() || pattern.len() == 0 {
        Seq::empty()
    } else if found_at(line, pattern, ends, i) {
        seq![Cell::Slot(slot)] + slotted_from(line, pattern, ends, slot, i + pattern.len())
    } else {
        seq![line[i]] + slotted_from(line, pattern, ends, slot, i + 1)
    }
}

/// `line` with every `pattern` that is found replaced by a slot.
pub open spec fn slotted(
    line: Seq<Cell>,
    pattern: Seq<char>,
    ends: bool,
    slot: usize,
) -> Seq<Cell> {
    slotted_from(line, pattern, ends, slot, 0)
}

/// `line` with the bracketed placeholders of a variable replaced by a slot.
pub open spec fn with_bracketed(line: Seq<Cell>, v: VariableView, slot: usize) -> Seq<Cell> {
    slotted(line, v.bracketed(), false, slot)
}

/// `line` with both spellings of a variable's placeholder replaced by a slot,
/// the bracketed one first.
pub open spec fn with_variable(line: Seq<Cell>, v: VariableView, slot: usize) -> Seq<Cell> {
    slotted(with_bracketed(line, v, slot), v.placeholder(), true, slot)
}

/// `line` with the placeholders of the variables from `k` on replaced by
/// slots, or the first variable that has no placeholder in it.
pub open spec fn with_variables(line: Seq<Cell>, vars: Seq<VariableView>, k: int) -> Result<
    Seq<Cell>,
    int,
>
    decreases vars.len() - k,
{
    if k < 0 || k >= vars.len() {
        Ok(line)
    } else if !spelled_in(line, vars[k]) && !bracketed_in(line, vars[k]) {
        Err(k)
    } else {
        with_variables(with_variable(line, vars[k], k as usize), vars, k + 1)
    }
}

/// `line` with a text in each slot.
pub open spec fn filled(line: Seq<Cell>, texts: Seq<Seq<char>>) -> Seq<char>
    decreases line.len(),
{
    if line.len() == 0 {
        Seq::empty()
    } else {
        filled(line.drop_last(), texts) + match line.last() {
            Cell::Char(c) => seq![c],
            Cell::Slot(slot) => texts[slot as int],
        }
    }
}

/// Every slot of `line` is one of the first `n`.
pub open spec fn slots_below(line: Seq<Cell>, n: int) -> bool {
    forall|i: int|
        0 <= i < line.len() ==> (#[trigger] line[i] matches Cell::Slot(slot) ==> slot < n)
}

/// Makes the cell of a character.
fn cell_of(c: char) -> (r: Cell)
    ensures
        r == Cell::Char(c),
{
    Cell::Char(c)
}

/// A template without slots.
pub fn cells_of(text: &str) -> (r: Vec<Cell>)
    ensures
        r@ == cells(text@),
{
    let cs = chars_of(text);
    let mut out: Vec<Cell> = Vec::new();
    let mut i: usize = 0;
    while i < cs.len()
        invariant
            i <= cs.len(),
            cs@ == text@,
            out@.len() == i,
            forall|j: int| 0 <= j < i ==> out@[j] == Cell::Char(#[trigger] cs@[j]),
        decreases cs.len() - i,
    {
        out.push(cell_of(cs[i]));
        i += 1;
    }
    assert(out@ =~= cells(text@));
    out
}

/// Compares a pattern with the cells at a position.
fn matches_at(line: &Vec<Cell>, pattern: &Vec<char>, i: usize) -> (r: bool)
    requires
        i <= line.len(),
    ensures
        r == stands_at(line@, pattern@, i as int),
{
    if pattern.len() > line.len() - i {
        return false;
    }
    let mut j: usize = 0;
    while j < pattern.len()
        invariant
            j <= pattern.len(),
            i + pattern.len() <= line.len(),
            forall|k: int| 0 <= k < j ==> line@[i + k] == Cell::Char(#[trigger] pattern@[k]),
        decreases pattern.len() - j,
    {
        if line[i + j] != Cell::Char(pattern[j]) {
            assert(line@[i + j] != Cell::Char(pattern@[j as int]));
            return false;
        }
        j += 1;
    }
    true
}

/// Whether the pattern at a position is found there.
fn finds_at(line: &Vec<Cell>, pattern: &Vec<char>, ends: bool, i: usize) -> (r: bool)
    requires
        i <= line.len(),
    ensures
        r == found_at(line@, pattern@, ends, i as int),
{
    if !matches_at(line, pattern, i) {
        return false;
    }
    let end: usize = i + pattern.len();
    if ends && end < line.len() {
        match line[end] {
            Cell::Char(c) => !char_is_name_char(c),
            Cell::Slot(_) => true,
        }
    } else {
        true
    }
}

/// Looks for a pattern.
fn holds(line: &Vec<Cell>, pattern: &Vec<char>, ends: bool) -> (r: bool)
    ensures
        r == found_in(line@, pattern@, ends),
{
    let mut i: usize = 0;
    while i < line.len()
        invariant
            i <= line.len(),
            forall|k: int| 0 <= k < i ==> !#[trigger] found_at(line@, pattern@, ends, k),
        decreases line.len() - i,
    {
        if finds_at(line, pattern, ends, i) {
            return true;
        }
        i += 1;
    }
    finds_at(line, pattern, ends, i)
}

/// Replaces a pattern by a slot wherever it is found.
fn replace_by_slot(line: &Vec<Cell>, pattern: &Vec<char>, ends: bool, slot: usize) -> (r: Vec<Cell>)
    requires
        pattern.len() > 0,
    ensures
        r@ == slotted(line@, pattern@, ends, slot),
{
    let mut out: Vec<Cell> = Vec::new();
    let mut i: usize = 0;
    let ghost all = slotted(line@, pattern@, ends, slot);
    assert(out@ + slotted_from(line@, pattern@, ends, slot, 0) =~= all);
    while i < line.len()
        invariant
            i <= line.len(),
            pattern.len() > 0,
            all == out@ + slotted_from(line@, pattern@, ends, slot, i as int),
        decreases line.len() - i,
    {
        let ghost before = out@;
        if finds_at(line, pattern, ends, i) {
            out.push(Cell::Slot(slot));
            let ghost rest = slotted_from(line@, pattern@, ends, slot, i + pattern@.len());
            assert(before + (seq![Cell::Slot(slot)] + rest) =~= out@ + rest);
            i += pattern.len();
        } else {
            out.push(line[i]);
            let ghost rest = slotted_from(line@, pattern@, ends, slot, i + 1);
            assert(before + (seq![line@[i as int]] + rest) =~= out@ + rest);
            i += 1;
        }
    }
    assert(out@ + slotted_from(line@, pattern@, ends, slot, i as int) =~= out@);
    out
}

/// Replaces a variable's placeholders by a slot, or reports that it has none.
pub fn place_variable(line: Vec<Cell>, v: &CmdVariable, slot: usize) -> (r: Option<Vec<Cell>>)
    ensures
        match r {
            Some(out) => {
                &&& spelled_in(line@, v@) || bracketed_in(line@, v@)
                &&& out@ == with_variable(line@, v@, slot)
            },
            None => !spelled_in(line@, v@) && !bracketed_in(line@, v@),
        },
{
    let bare = chars_of(&v.placeholder());
    let bracketed = chars_of(&v.bracketed_placeholder());
    if !holds(&line, &bare, true) && !holds(&line, &bracketed, false) {
        return None;
    }
    let line = replace_by_slot(&line, &bracketed, false, slot);
    Some(replace_by_slot(&line, &bare, true, slot))
}

/// Fills the slots.
pub fn fill(line: &Vec<Cell>, texts: &Vec<String>) -> (r: String)
    requires
        slots_below(line@, texts@.len() as int),
    ensures
        r@ == filled(line@, views(texts@)),
{
    let mut out = String::new();
    let mut i: usize = 0;
    assert(line@.take(0).len() == 0);
    while i < line.len()
        invariant
            i <= line.len(),
            slots_below(line@, texts@.len() as int),
            out@ == filled(line@.take(i as int), views(texts@)),
        decreases line.len() - i,
    {
        assert(line@.take(i + 1).drop_last() =~= line@.take(i as int));
        assert(line@.take(i + 1).last() == line@[i as int]);
        let ghost before = out@;
        match line[i] {
            Cell::Char(c) => {
                out.push(c);
                assert(out@ =~= before + seq![c]);
            },
            Cell::Slot(slot) => {
                out.append(&texts[slot]);
                assert(views(texts@)[slot as int] == texts@[slot as int]@);
            },
        }
        i += 1;
    }
    assert(line@.take(i as int) =~= line@);
    out
}

/// Replacing by a slot brings in no slot but that one.
proof fn slotted_slots(line: Seq<Cell>, pattern: Seq<char>, ends: bool, slot: usize, i: int, n: int)
    requires
        slots_below(line, n),
        slot < n,
    ensures
        slots_below(slotted_from(line, pattern, ends, slot, i), n),
    decreases line.len() - i,
{
    if 0 <= i < line.len() && pattern.len() > 0 {
        if found_at(line, pattern, ends, i) {
            slotted_slots(line, pattern, ends, slot, i + pattern.len(), n);
        } else {
            slotted_slots(line, pattern, ends, slot, i + 1, n);
        }
    }
}

/// A variable brings in no slot but its own.
pub proof fn variable_slots(line: Seq<Cell>, v: VariableView, slot: usize, n: int)
    requires
        slots_below(line, n),
        slot < n,
    ensures
        slots_below(with_variable(line, v, slot), n),
{
    slotted_slots(line, v.bracketed(), false, slot, 0, n);
    slotted_slots(with_bracketed(line, v, slot), v.placeholder(), true, slot, 0, n);
}

/// The first characters of a line with slots are those of the line it was
/// made from, and what follows them was made from what followed.
proof fn slotted_prefix(
    line: Seq<Cell>,
    pattern: Seq<char>,
    ends: bool,
    slot: usize,
    i: int,
    q: Seq<char>,
    n: int,
)
    requires
        0 <= i <= line.len(),
        0 <= n <= q.len(),
        n <= slotted_from(line, pattern, ends, slot, i).len(),
        forall|j: int|
            0 <= j < n ==> slotted_from(line, pattern, ends, slot, i)[j] == Cell::Char(
                #[trigger] q[j],
            ),
    ensures
        i + n <= line.len(),
        forall|j: int| 0 <= j < n ==> line[i + j] == Cell::Char(#[trigger] q[j]),
        slotted_from(line, pattern, ends, slot, i).skip(n) == slotted_from(
            line,
            pattern,
            ends,
            slot,
            i + n,
        ),
    decreases n,
{
    let out = slotted_from(line, pattern, ends, slot, i);
    if n > 0 {
        assert(out[0] == Cell::Char(q[0]));
        assert(!found_at(line, pattern, ends, i));
        let rest = slotted_from(line, pattern, ends, slot, i + 1);
        assert(out == seq![line[i]] + rest);
        let q1 = q.skip(1);
        assert forall|j: int| 0 <= j < n - 1 implies rest[j] == Cell::Char(#[trigger] q1[j]) by {
            assert(q1[j] == q[j + 1]);
            assert(out[j + 1] == rest[j]);
        }
        slotted_prefix(line, pattern, ends, slot, i + 1, q1, n - 1);
        assert forall|j: int| 0 <= j < n implies line[i + j] == Cell::Char(#[trigger] q[j]) by {
            if j > 0 {
                assert(q1[j - 1] == q[j]);
            }
        }
        assert(out.skip(n) =~= rest.skip(n - 1));
    } else {
        assert(out.skip(0) =~= out);
    }
}

/// Replacing by a slot brings in no new text, and leaves none of what it
/// replaces.
proof fn slotted_text(
    line: Seq<Cell>,
    pattern: Seq<char>,
    ends: bool,
    slot: usize,
    i: int,
    q: Seq<char>,
    q_ends: bool,
    at: int,
)
    requires
        0 <= i <= line.len(),
        pattern.len() > 0,
        !is_name_char(pattern[0]),
        q.len() > 0,
        found_at(slotted_from(line, pattern, ends, slot, i), q, q_ends, at),
    ensures
        found_in(line, q, q_ends),
        q != pattern || q_ends != ends,
    decreases line.len() - i,
{
    let out = slotted_from(line, pattern, ends, slot, i);
    if at == 0 {
        let n = q.len() as int;
        assert forall|j: int| 0 <= j < n implies out[j] == Cell::Char(#[trigger] q[j]) by {
            assert(out[0 + j] == Cell::Char(q[j]));
        }
        slotted_prefix(line, pattern, ends, slot, i, q, n);
        assert(stands_at(line, q, i));
        if q_ends && i + n < line.len() && is_name_cell(line[i + n]) {
            let rest = slotted_from(line, pattern, ends, slot, i + n);
            if stands_at(line, pattern, i + n) {
                assert(line[i + n + 0] == Cell::Char(pattern[0]));
            }
            assert(!found_at(line, pattern, ends, i + n));
            assert(rest == seq![line[i + n]] + slotted_from(line, pattern, ends, slot, i + n + 1));
            assert(out.skip(n) == rest);
            assert(out.skip(n).len() == out.len() - n);
            assert(out.skip(n)[0] == out[n]);
            assert(out[at + n] == line[i + n]);
        }
        assert(found_at(line, q, q_ends, i));
        assert(out[0] == Cell::Char(q[0]));
    } else {
        let next = if found_at(line, pattern, ends, i) {
            i + pattern.len()
        } else {
            i + 1
        };
        let rest = slotted_from(line, pattern, ends, slot, next);
        assert forall|j: int| 0 <= j < q.len() implies rest[at - 1 + j] == Cell::Char(
            #[trigger] q[j],
        ) by {
            assert(out[at + j] == rest[at - 1 + j]);
        }
        if at + q.len() < out.len() {
            assert(out[at + q.len()] == rest[at - 1 + q.len()]);
        }
        assert(found_at(rest, q, q_ends, at - 1));
        slotted_text(line, pattern, ends, slot, next, q, q_ends, at - 1);
    }
}

/// What is not found in a line is not found in it with slots either, nor is
/// what the slots replaced.
proof fn slotted_lacks(
    line: Seq<Cell>,
    pattern: Seq<char>,
    ends: bool,
    slot: usize,
    q: Seq<char>,
    q_ends: bool,
)
    requires
        pattern.len() > 0,
        !is_name_char(pattern[0]),
        q.len() > 0,
        !found_in(line, q, q_ends) || (q == pattern && q_ends == ends),
    ensures
        !found_in(slotted(line, pattern, ends, slot), q, q_ends),
{
    let out = slotted(line, pattern, ends, slot);
    if found_in(out, q, q_ends) {
        let at = choose|at: int| #[trigger] found_at(out, q, q_ends, at);
        slotted_text(line, pattern, ends, slot, 0, q, q_ends, at);
    }
}

/// Inside a bracketed placeholder stands the bare one, its name ended.
pub proof fn bracketed_holds_bare(line: Seq<Cell>, v: VariableView, at: int)
    requires
        stands_at(line, v.bracketed(), at),
    ensures
        spelled_at(line, v, at + 1),
{
    let b = v.bracketed();
    let bare = v.placeholder();
    assert forall|j: int| 0 <= j < bare.len() implies line[at + 1 + j] == Cell::Char(
        #[trigger] bare[j],
    ) by {
        assert(b[j + 1] == bare[j]);
        assert(line[at + (j + 1)] == Cell::Char(b[j + 1]));
    }
    assert(b[b.len() - 1] == ']');
    assert(line[at + (b.len() - 1)] == Cell::Char(b[b.len() - 1]));
}

/// After a variable has its slots, neither spelling of its placeholder is
/// left, and no other text has come in.
proof fn with_variable_lacks(
    line: Seq<Cell>,
    v: VariableView,
    slot: usize,
    q: Seq<char>,
    ends: bool,
)
    requires
        q.len() > 0,
        !found_in(line, q, ends) || (q == v.placeholder() && ends) || (q == v.bracketed()
            && !ends),
    ensures
        !found_in(with_variable(line, v, slot), q, ends),
{
    let once = with_bracketed(line, v, slot);
    let twice = with_variable(line, v, slot);
    assert(v.bracketed()[0] == '[');
    assert(v.placeholder()[0] == '%');
    slotted_lacks(once, v.placeholder(), true, slot, v.placeholder(), true);
    if q == v.bracketed() && !ends {
        if found_in(twice, q, ends) {
            let at = choose|at: int| #[trigger] found_at(twice, q, ends, at);
            bracketed_holds_bare(twice, v, at);
            assert(found_at(twice, v.placeholder(), true, at + 1));
        }
    } else if q != v.placeholder() || !ends {
        slotted_lacks(line, v.bracketed(), false, slot, q, ends);
        slotted_lacks(once, v.placeholder(), true, slot, q, ends);
    }
}

/// Once every variable has its slots, no placeholder of any of them is left,
/// bare or bracketed.
pub proof fn no_placeholder_is_left(line: Seq<Cell>, vars: Seq<VariableView>, k: int, v: int)
    requires
        0 <= k <= v < vars.len(),
        with_variables(line, vars, k) is Ok,
    ensures
        !spelled_in(with_variables(line, vars, k)->Ok_0, vars[v]),
        !bracketed_in(with_variables(line, vars, k)->Ok_0, vars[v]),
    decreases vars.len() - k,
{
    let next = with_variable(line, vars[k], k as usize);
    if k == v {
        with_variable_lacks(line, vars[k], k as usize, vars[k].placeholder(), true);
        with_variable_lacks(line, vars[k], k as usize, vars[k].bracketed(), false);
        lack_stays(next, vars, k + 1, vars[k].placeholder(), true);
        lack_stays(next, vars, k + 1, vars[k].bracketed(), false);
    } else {
        no_placeholder_is_left(next, vars, k + 1, v);
    }
}

/// What a line lacks it still lacks when more variables have their slots.
proof fn lack_stays(line: Seq<Cell>, vars: Seq<VariableView>, k: int, q: Seq<char>, ends: bool)
    requires
        0 <= k <= vars.len(),
        q.len() > 0,
        !found_in(line, q, ends),
        with_variables(line, vars, k) is Ok,
    ensures
        !found_in(with_variables(line, vars, k)->Ok_0, q, ends),
    decreases vars.len() - k,
{
    if k < vars.len() {
        with_variable_lacks(line, vars[k], k as usize, q, ends);
        lack_stays(with_variable(line, vars[k], k as usize), vars, k + 1, q, ends);
    }
}

} // verus!
