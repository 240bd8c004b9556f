//! `inr a`: saving a new command.

use vstd::prelude::*;

use crate::models::CmdVariable;
#[allow(unused_imports)]
use crate::models::VariableView;
use crate::text::decimal_of;
#[allow(unused_imports)]
use crate::text::decimal;
#[allow(unused_imports)]
use crate::views::{group_views, views};

verus! {

broadcast use {vstd::string::group_string_axioms, group_views};

/// The line for the `n`th variable of a new command, counted from one.
pub open spec fn variable_line(n: nat, v: VariableView) -> Seq<char> {
    "  "@ + decimal(n) + ". "@ + v.name + " ("@ + v.kind.text() + ")"@
}

/// The lines that list the variables of a new command. Without variables there
/// is nothing to list.
pub open spec fn variable_listing(vars: Seq<VariableView>) -> Seq<Seq<char>> {
    if vars.len() == 0 {
        Seq::empty()
    } else {
        seq!["Found "@ + decimal(vars.len()) + " variable(s) in this command:"@] + Seq::new(
            vars.len(),
            |i: int| variable_line((i + 1) as nat, vars[i]),
        )
    }
}

/// Lists the variables of a new command, for the user to confirm.
pub fn variable_lines(vars: &[CmdVariable]) -> (r: Vec<String>)
    ensures
        views(r@) == variable_listing(views(vars@)),
{
    let mut out: Vec<String> = Vec::new();
    if vars.len() == 0 {
        assert(views(out@) =~= variable_listing(views(vars@)));
        return out;
    }
    let mut heading = "Found ".to_string();
    heading.append(&decimal_of(vars.len() as u64));
    heading.append(" variable(s) in this command:");
    out.push(heading);
    let ghost all = variable_listing(views(vars@));
    let mut i: usize = 0;
    assert(views(out@) =~= all.take(1));
    while i < vars.len()
        invariant
            i <= vars.len(),
            vars@.len() > 0,
            all == variable_listing(views(vars@)),
            views(out@) == all.take(i + 1),
        decreases vars.len() - i,
    {
        let number: usize = i + 1;
        let mut line = "  ".to_string();
        line.append(&decimal_of(number as u64));
        line.append(". ");
        line.append(&vars[i].name);
        line.append(" (");
        line.append(vars[i].kind.as_str());
        line.append(")");
        assert(all[i + 1] == line@);
        out.push(line);
        assert(all.take(i + 2) =~= all.take(i + 1).push(all[i + 1]));
        i += 1;
    }
    assert(all.take(i + 1) =~= all);
    out
}

} // verus!
