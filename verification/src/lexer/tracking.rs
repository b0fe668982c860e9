//! Position tracking for the lexer: a line/column pair, and a cursor
//! that walks the input characters while keeping the position current.

use vstd::prelude::*;
use vstd::string::StringExecFns;

verus! {

/// A position in the source text. The line number is 1-indexed, the
/// character number 0-indexed.
#[derive(Debug, Clone, Copy, PartialEq, Eq, Structural)]
pub struct Position {
    pub line: usize,
    pub character: usize,
}

/// The position where a run of `k` just-consumed characters began
/// (clamped to the start of the line).
pub open spec fn spec_start_of(p: Position, k: int) -> Position {
    Position {
        line: p.line,
        character: if k <= p.character {
            (p.character - k) as usize
        } else {
            0
        },
    }
}

/// The position after consuming one character: a newline starts the next
/// line, anything else moves one column (saturating at the type bound).
pub open spec fn spec_advance(p: Position, c: char) -> Position {
    if c == '\n' {
        Position {
            line: if p.line == usize::MAX {
                p.line
            } else {
                (p.line + 1) as usize
            },
            character: 0,
        }
    } else {
        Position {
            line: p.line,
            character: if p.character == usize::MAX {
                p.character
            } else {
                (p.character + 1) as usize
            },
        }
    }
}

/// The position after consuming a run of characters.
pub open spec fn spec_advance_seq(p: Position, s: Seq<char>) -> Position
    decreases s.len(),
{
    if s.len() == 0 {
        p
    } else {
        spec_advance(spec_advance_seq(p, s.drop_last()), s.last())
    }
}

impl Position {
    /// The origin of a source text.
    pub(crate) fn new() -> (r: Position)
        ensures
            r == (Position { line: 1, character: 0 }),
    {
        Position { line: 1, character: 0 }
    }

    /// The position at the given line and character.
    pub fn at(line: usize, character: usize) -> (r: Position)
        ensures
            r == (Position { line, character }),
    {
        Position { line, character }
    }

    /// The line number (1-indexed).
    pub fn line(&self) -> (r: usize)
        ensures
            r == self.line,
    {
        self.line
    }

    /// The character number (0-indexed).
    pub fn character(&self) -> (r: usize)
        ensures
            r == self.character,
    {
        self.character
    }

    /// The position where the given just-consumed symbol text began
    /// (clamped to the start of the line).
    pub fn start_of(&self, symbol: &str) -> (r: Position)
        ensures
            r == spec_start_of(*self, symbol@.len() as int),
    {
        let n = symbol.unicode_len();
        if n <= self.character {
            Position { line: self.line, character: self.character - n }
        } else {
            Position { line: self.line, character: 0 }
        }
    }
}

/// A cursor over the input characters, keeping the current position.
pub struct Cursor {
    pos: Position,
    seq: Vec<char>,
    index: usize,
}

impl Cursor {
    /// The characters being walked.
    pub closed spec fn spec_chars(&self) -> Seq<char> {
        self.seq@
    }

    /// The index of the next character to consume.
    pub closed spec fn spec_index(&self) -> int {
        self.index as int
    }

    /// The current position.
    pub closed spec fn spec_pos(&self) -> Position {
        self.pos
    }

    /// The cursor never leaves the character run.
    pub open spec fn wf(&self) -> bool {
        0 <= self.spec_index() <= self.spec_chars().len()
    }

    /// A cursor at the start of the given characters.
    pub fn new(seq: Vec<char>) -> (r: Cursor)
        ensures
            r.spec_chars() == seq@,
            r.spec_index() == 0,
            r.spec_pos() == (Position { line: 1, character: 0 }),
            r.wf(),
    {
        Cursor { pos: Position::new(), seq, index: 0 }
    }

    /// The current position.
    pub fn pos(&self) -> (r: Position)
        ensures
            r == self.spec_pos(),
    {
        self.pos
    }

    /// The next character to consume, if any, without consuming it.
    pub fn peek(&self) -> (r: Option<char>)
        requires
            self.wf(),
        ensures
            self.spec_index() < self.spec_chars().len() ==> r == Some(
                self.spec_chars()[self.spec_index()],
            ),
            self.spec_index() >= self.spec_chars().len() ==> r is None,
    {
        if self.index < self.seq.len() {
            Some(self.seq[self.index])
        } else {
            None
        }
    }

    /// Consumes and returns the next character, advancing the position;
    /// an exhausted cursor stays put.
    pub fn next(&mut self) -> (r: Option<char>)
        requires
            old(self).wf(),
        ensures
            final(self).wf(),
            final(self).spec_chars() == old(self).spec_chars(),
            old(self).spec_index() < old(self).spec_chars().len() ==> r == Some(
                old(self).spec_chars()[old(self).spec_index()],
            ) && final(self).spec_index() == old(self).spec_index() + 1 && final(self).spec_pos()
                == spec_advance(
                old(self).spec_pos(),
                old(self).spec_chars()[old(self).spec_index()],
            ),
            old(self).spec_index() >= old(self).spec_chars().len() ==> r is None && *final(self)
                == *old(self),
    {
        if self.index < self.seq.len() {
            let c = self.seq[self.index];
            if c == '\n' {
                if self.pos.line < usize::MAX {
                    self.pos.line = self.pos.line + 1;
                }
                self.pos.character = 0;
            } else {
                if self.pos.character < usize::MAX {
                    self.pos.character = self.pos.character + 1;
                }
            }
            self.index = self.index + 1;
            Some(c)
        } else {
            None
        }
    }
}

} // verus!
