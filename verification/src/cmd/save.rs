//! The `save` command: reserved for filtering and saving datasets by a
//! pattern.  Its semantics are intentionally left open; for now it answers
//! with a clear not-yet-supported diagnostic instead of guessing.

use vstd::prelude::*;

verus! {

/// Arguments of the `save` command.
#[derive(Debug, PartialEq, Eq)]
pub struct SaveCmd {
    /// The pattern to filter by.
    pub pattern: String,
    /// Filter without case sensitivity.
    pub ignore_case: bool,
}

/// Answers the `save` command: it is not implemented, and says so.
pub fn run(cmd: &SaveCmd) -> (m: String)
    ensures
        m@ == "the 'save' command is not implemented yet"@,
{
    String::from_str("the 'save' command is not implemented yet")
}

} // verus!
