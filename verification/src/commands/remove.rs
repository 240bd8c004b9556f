//! `inr d` and `inr env r`: asking before something is deleted.

use vstd::prelude::*;

use crate::models::{StoredCommand, StoredEnv};

verus! {

broadcast use vstd::string::group_string_axioms;

/// The question before a command is deleted.
pub fn delete_command_question(cmd: &StoredCommand) -> (r: String)
    ensures
        r@ == "Delete \""@ + cmd.description@ + "\" (id: "@ + cmd.id@ + ")?"@,
{
    let mut out = "Delete \"".to_string();
    out.append(&cmd.description);
    out.append("\" (id: ");
    out.append(&cmd.id);
    out.append(")?");
    out
}

/// The question before an env is deleted.
pub fn delete_env_question(env: &StoredEnv) -> (r: String)
    ensures
        r@ == "Delete env '"@ + env.name@ + "' (id: "@ + env.id@ + ")?"@,
{
    let mut out = "Delete env '".to_string();
    out.append(&env.name);
    out.append("' (id: ");
    out.append(&env.id);
    out.append(")?");
    out
}

} // verus!
