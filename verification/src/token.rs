//! Tokens of the surface language.

use vstd::prelude::*;
use crate::span::Span;

verus! {

/// The reserved words.
#[derive(Clone, Copy, Debug, PartialEq, Eq, Structural)]
pub enum Keyword {
    Let,
    Mut,
    Fn,
    Loop,
    If,
    Else,
    Break,
    Continue,
    Return,
}

/// The operators.
#[derive(Clone, Copy, Debug, PartialEq, Eq, Structural)]
pub enum Op {
    Plus,
    Minus,
    Star,
    Slash,
    Percent,
    Shl,
    Shr,
    Lt,
    Le,
    Gt,
    Ge,
    EqEq,
    Ne,
    AndAnd,
    OrOr,
    Bang,
    Assign,
    PlusAssign,
    MinusAssign,
    ShlAssign,
    ShrAssign,
    Arrow,
}

/// The punctuation marks.
#[derive(Clone, Copy, Debug, PartialEq, Eq, Structural)]
pub enum Punct {
    LParen,
    RParen,
    LBrace,
    RBrace,
    LBracket,
    RBracket,
    Semi,
    Comma,
    Dot,
    Colon,
}

/// What a token is.
#[derive(Clone, Copy, Debug, PartialEq, Eq, Structural)]
pub enum TokenKind {
    Ident,
    Int,
    Keyword(Keyword),
    Op(Op),
    Punct(Punct),
    Eof,
}

/// A token: its kind, and the span of its lexeme. The span's start is the
/// token's position in the source.
#[derive(Clone, Copy, Debug, PartialEq, Eq, Structural)]
pub struct Token {
    pub kind: TokenKind,
    pub span: Span,
}

impl Token {
    /// The bytes of the lexeme.
    pub open spec fn lexeme(self, src: Seq<u8>) -> Seq<u8> {
        self.span.text(src)
    }

    /// The byte offset at which the token starts.
    pub fn position(&self) -> (p: usize)
        ensures
            p == self.span.start,
    {
        self.span.start
    }

    /// Whether the lexeme is `word`.
    pub fn is_lexeme(&self, src: &[u8], word: &[u8]) -> (r: bool)
        ensures
            r == (self.lexeme(src@) == word@),
    {
        self.span.spells(src, word)
    }
}

} // verus!
