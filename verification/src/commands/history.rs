//! `inr h`: showing past runs.

use vstd::prelude::*;

use crate::models::HistoryEntry;
#[allow(unused_imports)]
use crate::models::HistoryBindingView;
use crate::text::signed_decimal_of;
#[allow(unused_imports)]
use crate::text::signed_decimal;
#[allow(unused_imports)]
use crate::views::{group_views, views};

verus! {

broadcast use {vstd::string::group_string_axioms, group_views};

/// The line of a run.
pub open spec fn run_line(entry: HistoryEntry) -> Seq<char> {
    "#"@ + signed_decimal(entry.id as int) + "  "@ + entry.executed_at@ + "  "@ + entry.template@
        + "  ["@ + entry.command_id@ + "]"@
}

/// The line of a variable's value in a run.
pub open spec fn binding_line(b: HistoryBindingView) -> Seq<char> {
    "    "@ + b.name + " = "@ + b.display
}

/// The lines of a run: the run, then the values of its variables.
pub open spec fn entry_listing(entry: HistoryEntry) -> Seq<Seq<char>> {
    seq![run_line(entry)] + Seq::new(
        entry.bindings@.len(),
        |i: int| binding_line(views(entry.bindings@)[i]),
    )
}

/// Shows a run.
pub fn entry_lines(entry: &HistoryEntry) -> (r: Vec<String>)
    ensures
        views(r@) == entry_listing(*entry),
{
    let mut run = "#".to_string();
    run.append(&signed_decimal_of(entry.id));
    run.append("  ");
    run.append(&entry.executed_at);
    run.append("  ");
    run.append(&entry.template);
    run.append("  [");
    run.append(&entry.command_id);
    run.append("]");
    let mut out: Vec<String> = Vec::new();
    out.push(run);
    let ghost all = entry_listing(*entry);
    let mut i: usize = 0;
    assert(views(out@) =~= all.take(1));
    while i < entry.bindings.len()
        invariant
            i <= entry.bindings.len(),
            all == entry_listing(*entry),
            views(out@) == all.take(i + 1),
        decreases entry.bindings.len() - i,
    {
        let binding = &entry.bindings[i];
        let mut line = "    ".to_string();
        line.append(&binding.name);
        line.append(" = ");
        line.append(&binding.display);
        assert(views(entry.bindings@)[i as int] == binding@);
        assert(all[i + 1] == line@);
        out.push(line);
        assert(all.take(i + 2) =~= all.take(i + 1).push(all[i + 1]));
        i += 1;
    }
    assert(all.take(i + 1) =~= all);
    out
}

} // verus!
