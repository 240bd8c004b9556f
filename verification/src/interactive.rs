//! Rules for what the user types.

use vstd::prelude::*;

use crate::number::parses_as_float;
#[allow(unused_imports)]
use crate::number::is_float;
use crate::text::chars_of;

verus! {

broadcast use vstd::string::group_string_axioms;

/// The least number of characters of a new password.
pub const MIN_PASSWORD_CHARS: usize = 8;

/// Judges a new master password or transfer passphrase: what is wrong with
/// it, if anything is.
pub fn new_password_fault(input: &str) -> (r: Option<&'static str>)
    ensures
        match r {
            Some(fault) => input@.len() < MIN_PASSWORD_CHARS && fault@
                == "Must be at least 8 characters."@,
            None => input@.len() >= MIN_PASSWORD_CHARS,
        },
{
    if chars_of(input).len() < MIN_PASSWORD_CHARS {
        Some("Must be at least 8 characters.")
    } else {
        None
    }
}

pub fn validate_number(input: &str) -> (r: bool)
    ensures
        r == is_float(input@),
{
    parses_as_float(input)
}

} // verus!
