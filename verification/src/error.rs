//! What can go wrong inside the engine.

use vstd::prelude::*;
use vstd::string::StringExecFns;

verus! {

/// The failures that an operation of the engine reports.
#[derive(Clone, Copy, Debug, PartialEq, Eq)]
pub enum InputError {
    /// A row was addressed that the document does not have.
    OutOfBounds,
}

impl InputError {
    /// What the failure is, in words.
    pub fn message(&self) -> (text: String)
        ensures
            text@ == "Couldn't get length of current line because it doesn't exist."@,
    {
        match self {
            InputError::OutOfBounds => String::from_str(
                "Couldn't get length of current line because it doesn't exist.",
            ),
        }
    }
}

} // verus!
