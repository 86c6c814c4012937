//! The error reported when a repository method or its attributes cannot be
//! expanded: a message for the user.
use vstd::prelude::*;

verus! {

/// An expansion error and its message.
#[derive(Debug)]
pub struct MacroError {
    pub message: String,
}

impl MacroError {
    /// An error with the given message.
    pub fn new(message: String) -> (r: Self)
        ensures
            r.message@ == message@,
    {
        MacroError { message }
    }

    /// The message.
    pub fn to_string(&self) -> (r: String)
        ensures
            r@ == self.message@,
    {
        self.message.clone()
    }
}

} // verus!
