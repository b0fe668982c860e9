//! The lexer's error type: a position and a readable message.

use vstd::prelude::*;
use vstd::string::StringExecFns;

use crate::lexer::tracking::Position;

verus! {

/// A fault found while lexing, at the position where it was found.
#[derive(Debug, PartialEq, Eq)]
pub struct LexerError {
    position: Position,
    message: String,
}

impl LexerError {
    /// The position the fault was found at.
    pub closed spec fn spec_position(&self) -> Position {
        self.position
    }

    /// The message carried by the fault.
    pub closed spec fn spec_message(&self) -> Seq<char> {
        self.message@
    }

    /// A fault at the given position with the given message.
    pub fn new(pos: Position, msg: &str) -> (r: LexerError)
        ensures
            r.spec_position() == pos,
            r.spec_message() == msg@,
    {
        LexerError { position: pos, message: String::from_str(msg) }
    }
}

} // verus!
