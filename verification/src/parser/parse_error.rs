//! The error that a failed parse returns.

use vstd::prelude::*;

verus! {

/// A grammar violation, as a message for the user.
#[derive(Debug)]
pub struct ParseError {
    message: String,
}

impl View for ParseError {
    type V = Seq<char>;

    closed spec fn view(&self) -> Seq<char> {
        self.message@
    }
}

impl ParseError {
    pub fn new(message: String) -> (error: ParseError)
        ensures
            error@ == message@,
    {
        ParseError { message }
    }

    /// The message.
    pub fn to_string(&self) -> (message: String)
        ensures
            message@ == self@,
    {
        self.message.clone()
    }
}

} // verus!
