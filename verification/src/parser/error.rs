//! The parser's error type: a position and a readable message.

use vstd::prelude::*;
use vstd::string::StringExecFns;

use crate::lexer::Position;

verus! {

/// A fault found while parsing, at the position where it was found.
#[derive(Debug, PartialEq, Eq)]
pub struct ParserError {
    position: Position,
    message: String,
}

impl ParserError {
    /// The position the fault was found at.
    pub closed spec fn spec_position(&self) -> Position {
        self.position
    }

    /// The message carried by the fault.
    pub closed spec fn spec_message(&self) -> Seq<char> {
        self.message@
    }

    /// A fault at the given position with the given message.
    pub fn new(position: Position, message: &str) -> (r: ParserError)
        ensures
            r.spec_position() == position,
            r.spec_message() == message@,
    {
        ParserError { position, message: String::from_str(message) }
    }
}

} // verus!
