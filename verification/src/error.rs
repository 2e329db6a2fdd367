//! The errors of a compilation.

use vstd::prelude::*;
use crate::span::Span;
use crate::token::TokenKind;

verus! {

/// What the parser was looking for when it met a token that it could not use.
#[derive(Clone, Copy, Debug, PartialEq, Eq, Structural)]
pub enum Expected {
    /// A token of this kind.
    Token(TokenKind),
    /// The start of an expression.
    Expression,
    /// The start of a type.
    Type,
    /// An integer literal that a 32-bit signed integer can hold.
    Literal,
    /// Something that can be assigned to: a name, or a name with an index.
    Place,
}

/// The kinds of error.
#[derive(Clone, Copy, Debug, PartialEq, Eq, Structural)]
pub enum ErrorKind {
    UnrecognizedCharacter,
    UnexpectedToken { expected: Expected, found: TokenKind },
    Undeclared { name: Span },
    Immutable { name: Span },
    NotDeclaredMutable { name: Span },
    TupleIndexOutOfRange,
    ArityMismatch,
    NoEnclosingLoop,
}

/// The families that the kinds of error fall into, one for each invariant
/// that a pass guards.
#[derive(Clone, Copy, Debug, PartialEq, Eq, Structural)]
pub enum ErrorFamily {
    LexError,
    ParseError,
    NameError,
    AssignError,
    TypeError,
    ControlFlowError,
}

/// The one error of a failed compilation.
#[derive(Clone, Copy, Debug, PartialEq, Eq, Structural)]
pub struct CompileError {
    pub kind: ErrorKind,
    /// The byte offset in the source at which the error was found.
    pub pos: usize,
}

impl ErrorKind {
    /// The family that the kind falls into.
    pub open spec fn family_of(self) -> ErrorFamily {
        match self {
            ErrorKind::UnrecognizedCharacter => ErrorFamily::LexError,
            ErrorKind::UnexpectedToken { .. } => ErrorFamily::ParseError,
            ErrorKind::Undeclared { .. } => ErrorFamily::NameError,
            ErrorKind::Immutable { .. } => ErrorFamily::AssignError,
            ErrorKind::NotDeclaredMutable { .. } => ErrorFamily::AssignError,
            ErrorKind::TupleIndexOutOfRange => ErrorFamily::TypeError,
            ErrorKind::ArityMismatch => ErrorFamily::TypeError,
            ErrorKind::NoEnclosingLoop => ErrorFamily::ControlFlowError,
        }
    }

    /// A short description of the kind.
    pub open spec fn message_of(self) -> Seq<char> {
        match self {
            ErrorKind::UnrecognizedCharacter => "unrecognized character"@,
            ErrorKind::UnexpectedToken { .. } => "unexpected token"@,
            ErrorKind::Undeclared { .. } => "name is not declared"@,
            ErrorKind::Immutable { .. } => "symbol is immutable"@,
            ErrorKind::NotDeclaredMutable { .. } => "variable is not declared mutable"@,
            ErrorKind::TupleIndexOutOfRange => "tuple index is out of range"@,
            ErrorKind::ArityMismatch => "arity does not match"@,
            ErrorKind::NoEnclosingLoop => "no enclosing loop"@,
        }
    }
}

impl CompileError {
    /// The family of the error's kind.
    pub fn family(&self) -> (f: ErrorFamily)
        ensures
            f == self.kind.family_of(),
    {
        match self.kind {
            ErrorKind::UnrecognizedCharacter => ErrorFamily::LexError,
            ErrorKind::UnexpectedToken { .. } => ErrorFamily::ParseError,
            ErrorKind::Undeclared { .. } => ErrorFamily::NameError,
            ErrorKind::Immutable { .. } => ErrorFamily::AssignError,
            ErrorKind::NotDeclaredMutable { .. } => ErrorFamily::AssignError,
            ErrorKind::TupleIndexOutOfRange => ErrorFamily::TypeError,
            ErrorKind::ArityMismatch => ErrorFamily::TypeError,
            ErrorKind::NoEnclosingLoop => ErrorFamily::ControlFlowError,
        }
    }

    /// A short description of the error's kind.
    pub fn message(&self) -> (m: &'static str)
        ensures
            m@ == self.kind.message_of(),
    {
        match self.kind {
            ErrorKind::UnrecognizedCharacter => "unrecognized character",
            ErrorKind::UnexpectedToken { .. } => "unexpected token",
            ErrorKind::Undeclared { .. } => "name is not declared",
            ErrorKind::Immutable { .. } => "symbol is immutable",
            ErrorKind::NotDeclaredMutable { .. } => "variable is not declared mutable",
            ErrorKind::TupleIndexOutOfRange => "tuple index is out of range",
            ErrorKind::ArityMismatch => "arity does not match",
            ErrorKind::NoEnclosingLoop => "no enclosing loop",
        }
    }

    /// The byte offset at which the error was found.
    pub fn position(&self) -> (p: usize)
        ensures
            p == self.pos,
    {
        self.pos
    }
}

/// The number of line feeds among the first `pos` bytes of `src`.
pub open spec fn line_feeds(src: Seq<u8>, pos: int) -> nat
    decreases pos,
{
    if pos <= 0 || pos > src.len() {
        0
    } else if src[pos - 1] == '\n' as u8 {
        line_feeds(src, pos - 1) + 1
    } else {
        line_feeds(src, pos - 1)
    }
}

/// The offset at which the line of the byte at `pos` starts: after the last
/// line feed before `pos`.
pub open spec fn line_start(src: Seq<u8>, pos: int) -> int
    decreases pos,
{
    if pos <= 0 || pos > src.len() {
        0
    } else if src[pos - 1] == '\n' as u8 {
        pos
    } else {
        line_start(src, pos - 1)
    }
}

/// The line and the column of the byte at `pos` in `src`, both counted from
/// zero and the column in bytes. An offset past the end counts as the end.
pub fn line_column(src: &[u8], pos: usize) -> (at: (usize, usize))
    ensures
        ({
            let p = if pos <= src@.len() { pos as int } else { src@.len() as int };
            &&& at.0 == line_feeds(src@, p)
            &&& at.1 == p - line_start(src@, p)
        }),
{
    let end = if pos <= src.len() { pos } else { src.len() };
    let mut line: usize = 0;
    let mut start: usize = 0;
    let mut i: usize = 0;
    while i < end
        invariant
            i <= end <= src@.len(),
            line == line_feeds(src@, i as int),
            line <= i,
            start == line_start(src@, i as int),
            start <= i,
        decreases end - i,
    {
        if src[i] == '\n' as u8 {
            line = line + 1;
            start = i + 1;
        }
        i = i + 1;
    }
    (line, end - start)
}

} // verus!
