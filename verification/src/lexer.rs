//! The lexer: from source bytes to tokens.
//!
//! White space and comments separate tokens and are dropped: a comment goes
//! from `//` to the end of the line, or from `/*` to the next `*/`. A token is
//! the longest lexeme that starts at its position: a word (a keyword or an
//! identifier), a run of decimal digits, an operator or a punctuation mark.
//! A `/*` that nothing closes starts no lexeme.

use vstd::prelude::*;
use crate::span::Span;
use crate::token::{Keyword, Op, Punct, Token, TokenKind};
use crate::error::{CompileError, ErrorKind};

verus! {

/// The byte is a blank, a tab, a line feed or a carriage return.
pub open spec fn is_space(b: u8) -> bool {
    b == ' ' as u8 || b == '\t' as u8 || b == '\n' as u8 || b == '\r' as u8
}

/// The byte is a decimal digit.
pub open spec fn is_digit(b: u8) -> bool {
    '0' as u8 <= b <= '9' as u8
}

/// The byte is a letter or an underscore.
pub open spec fn is_ident_start(b: u8) -> bool {
    ('a' as u8 <= b <= 'z' as u8) || ('A' as u8 <= b <= 'Z' as u8) || b == '_' as u8
}

/// The classes of bytes that a lexeme, or a comment, goes on with.
#[derive(Clone, Copy, Debug, PartialEq, Eq, Structural)]
pub enum ByteClass {
    /// A letter, a digit or an underscore.
    IdentRest,
    /// A decimal digit.
    Digit,
    /// Anything but a line feed.
    CommentBody,
}

impl ByteClass {
    /// The byte is of the class.
    pub open spec fn holds(self, b: u8) -> bool {
        match self {
            ByteClass::IdentRest => is_ident_start(b) || is_digit(b),
            ByteClass::Digit => is_digit(b),
            ByteClass::CommentBody => b != '\n' as u8,
        }
    }

    /// Whether the byte is of the class.
    pub fn has(&self, b: u8) -> (r: bool)
        ensures
            r == self.holds(b),
    {
        match self {
            ByteClass::IdentRest => byte_is_ident_start(b) || byte_is_digit(b),
            ByteClass::Digit => byte_is_digit(b),
            ByteClass::CommentBody => b != '\n' as u8,
        }
    }
}

/// Whether the byte is white space.
pub fn byte_is_space(b: u8) -> (r: bool)
    ensures
        r == is_space(b),
{
    b == ' ' as u8 || b == '\t' as u8 || b == '\n' as u8 || b == '\r' as u8
}

/// Whether the byte is a decimal digit.
pub fn byte_is_digit(b: u8) -> (r: bool)
    ensures
        r == is_digit(b),
{
    '0' as u8 <= b && b <= '9' as u8
}

/// Whether the byte is a letter or an underscore.
pub fn byte_is_ident_start(b: u8) -> (r: bool)
    ensures
        r == is_ident_start(b),
{
    ('a' as u8 <= b && b <= 'z' as u8) || ('A' as u8 <= b && b <= 'Z' as u8) || b == '_' as u8
}

/// The byte at `pos`; zero past the end.
pub open spec fn byte_at(src: Seq<u8>, pos: int) -> u8 {
    if 0 <= pos < src.len() {
        src[pos]
    } else {
        0
    }
}

/// The number of bytes from `pos` on that are all of `class`.
pub open spec fn run_len(src: Seq<u8>, pos: int, class: ByteClass) -> nat
    decreases src.len() - pos,
{
    if 0 <= pos < src.len() && class.holds(src[pos]) {
        1 + run_len(src, pos + 1, class)
    } else {
        0
    }
}

/// The span covers an identifier of `src`: a letter or an underscore, and
/// letters, digits and underscores after it.
pub open spec fn is_name(src: Seq<u8>, name: Span) -> bool {
    &&& name.start < name.end <= src.len()
    &&& is_ident_start(src[name.start as int])
    &&& forall|i: int| name.start < i < name.end ==> is_ident_start(src[i]) || is_digit(src[i])
}

/// Every token that is an identifier covers one.
pub open spec fn idents_named(src: Seq<u8>, tokens: Seq<Token>) -> bool {
    forall|i: int|
        0 <= i < tokens.len() && (#[trigger] tokens[i]).kind == TokenKind::Ident ==> is_name(
            src,
            tokens[i].span,
        )
}

/// The bytes of a run are all of its class.
pub proof fn lemma_run_holds(src: Seq<u8>, pos: int, class: ByteClass)
    requires
        0 <= pos,
    ensures
        forall|i: int| pos <= i < pos + run_len(src, pos, class) ==> class.holds(src[i]),
    decreases src.len() - pos,
{
    if pos < src.len() && class.holds(src[pos]) {
        lemma_run_holds(src, pos + 1, class);
    }
}

/// A run ends inside the text.
pub proof fn lemma_run_len_bound(src: Seq<u8>, pos: int, class: ByteClass)
    requires
        0 <= pos <= src.len(),
    ensures
        pos + run_len(src, pos, class) <= src.len(),
    decreases src.len() - pos,
{
    if pos < src.len() && class.holds(src[pos]) {
        lemma_run_len_bound(src, pos + 1, class);
    }
}

/// The spelling of a keyword.
pub open spec fn keyword_text(k: Keyword) -> Seq<u8> {
    match k {
        Keyword::Let => seq!['l' as u8, 'e' as u8, 't' as u8],
        Keyword::Mut => seq!['m' as u8, 'u' as u8, 't' as u8],
        Keyword::Fn => seq!['f' as u8, 'n' as u8],
        Keyword::Loop => seq!['l' as u8, 'o' as u8, 'o' as u8, 'p' as u8],
        Keyword::If => seq!['i' as u8, 'f' as u8],
        Keyword::Else => seq!['e' as u8, 'l' as u8, 's' as u8, 'e' as u8],
        Keyword::Break => seq!['b' as u8, 'r' as u8, 'e' as u8, 'a' as u8, 'k' as u8],
        Keyword::Continue => seq![
            'c' as u8,
            'o' as u8,
            'n' as u8,
            't' as u8,
            'i' as u8,
            'n' as u8,
            'u' as u8,
            'e' as u8,
        ],
        Keyword::Return => seq!['r' as u8, 'e' as u8, 't' as u8, 'u' as u8, 'r' as u8, 'n' as u8],
    }
}

/// The kind of a word: the keyword that it spells, or an identifier.
pub open spec fn word_kind(text: Seq<u8>) -> TokenKind {
    if text == keyword_text(Keyword::Let) {
        TokenKind::Keyword(Keyword::Let)
    } else if text == keyword_text(Keyword::Mut) {
        TokenKind::Keyword(Keyword::Mut)
    } else if text == keyword_text(Keyword::Fn) {
        TokenKind::Keyword(Keyword::Fn)
    } else if text == keyword_text(Keyword::Loop) {
        TokenKind::Keyword(Keyword::Loop)
    } else if text == keyword_text(Keyword::If) {
        TokenKind::Keyword(Keyword::If)
    } else if text == keyword_text(Keyword::Else) {
        TokenKind::Keyword(Keyword::Else)
    } else if text == keyword_text(Keyword::Break) {
        TokenKind::Keyword(Keyword::Break)
    } else if text == keyword_text(Keyword::Continue) {
        TokenKind::Keyword(Keyword::Continue)
    } else if text == keyword_text(Keyword::Return) {
        TokenKind::Keyword(Keyword::Return)
    } else {
        TokenKind::Ident
    }
}

/// The operator that three bytes spell.
pub open spec fn symbol3(a: u8, b: u8, c: u8) -> Option<Op> {
    if a == '<' as u8 && b == '<' as u8 && c == '=' as u8 {
        Some(Op::ShlAssign)
    } else if a == '>' as u8 && b == '>' as u8 && c == '=' as u8 {
        Some(Op::ShrAssign)
    } else {
        None
    }
}

/// The operator that two bytes spell.
pub open spec fn symbol2(a: u8, b: u8) -> Option<Op> {
    if a == '<' as u8 && b == '<' as u8 {
        Some(Op::Shl)
    } else if a == '>' as u8 && b == '>' as u8 {
        Some(Op::Shr)
    } else if a == '<' as u8 && b == '=' as u8 {
        Some(Op::Le)
    } else if a == '>' as u8 && b == '=' as u8 {
        Some(Op::Ge)
    } else if a == '=' as u8 && b == '=' as u8 {
        Some(Op::EqEq)
    } else if a == '!' as u8 && b == '=' as u8 {
        Some(Op::Ne)
    } else if a == '&' as u8 && b == '&' as u8 {
        Some(Op::AndAnd)
    } else if a == '|' as u8 && b == '|' as u8 {
        Some(Op::OrOr)
    } else if a == '+' as u8 && b == '=' as u8 {
        Some(Op::PlusAssign)
    } else if a == '-' as u8 && b == '=' as u8 {
        Some(Op::MinusAssign)
    } else if a == '-' as u8 && b == '>' as u8 {
        Some(Op::Arrow)
    } else {
        None
    }
}

/// The operator or punctuation mark that one byte spells.
pub open spec fn symbol1(a: u8) -> Option<TokenKind> {
    if a == '+' as u8 {
        Some(TokenKind::Op(Op::Plus))
    } else if a == '-' as u8 {
        Some(TokenKind::Op(Op::Minus))
    } else if a == '*' as u8 {
        Some(TokenKind::Op(Op::Star))
    } else if a == '/' as u8 {
        Some(TokenKind::Op(Op::Slash))
    } else if a == '%' as u8 {
        Some(TokenKind::Op(Op::Percent))
    } else if a == '<' as u8 {
        Some(TokenKind::Op(Op::Lt))
    } else if a == '>' as u8 {
        Some(TokenKind::Op(Op::Gt))
    } else if a == '=' as u8 {
        Some(TokenKind::Op(Op::Assign))
    } else if a == '!' as u8 {
        Some(TokenKind::Op(Op::Bang))
    } else if a == '(' as u8 {
        Some(TokenKind::Punct(Punct::LParen))
    } else if a == ')' as u8 {
        Some(TokenKind::Punct(Punct::RParen))
    } else if a == '{' as u8 {
        Some(TokenKind::Punct(Punct::LBrace))
    } else if a == '}' as u8 {
        Some(TokenKind::Punct(Punct::RBrace))
    } else if a == '[' as u8 {
        Some(TokenKind::Punct(Punct::LBracket))
    } else if a == ']' as u8 {
        Some(TokenKind::Punct(Punct::RBracket))
    } else if a == ';' as u8 {
        Some(TokenKind::Punct(Punct::Semi))
    } else if a == ',' as u8 {
        Some(TokenKind::Punct(Punct::Comma))
    } else if a == '.' as u8 {
        Some(TokenKind::Punct(Punct::Dot))
    } else if a == ':' as u8 {
        Some(TokenKind::Punct(Punct::Colon))
    } else {
        None
    }
}

/// The kind and the length in bytes of the lexeme that starts at `pos`, where
/// `pos` is not in white space or a comment. The end of the text is a lexeme
/// of no bytes. `None` where no lexeme starts with the byte at `pos`.
pub open spec fn lexeme_at(src: Seq<u8>, pos: int) -> Option<(TokenKind, nat)> {
    let a = byte_at(src, pos);
    let b = byte_at(src, pos + 1);
    let c = byte_at(src, pos + 2);
    if pos >= src.len() {
        Some((TokenKind::Eof, 0nat))
    } else if a == '/' as u8 && b == '*' as u8 {
        None
    } else if is_ident_start(a) {
        let n = 1 + run_len(src, pos + 1, ByteClass::IdentRest);
        Some((word_kind(src.subrange(pos, pos + n)), n))
    } else if is_digit(a) {
        Some((TokenKind::Int, 1 + run_len(src, pos + 1, ByteClass::Digit)))
    } else if symbol3(a, b, c) is Some {
        Some((TokenKind::Op(symbol3(a, b, c)->0), 3nat))
    } else if symbol2(a, b) is Some {
        Some((TokenKind::Op(symbol2(a, b)->0), 2nat))
    } else if symbol1(a) is Some {
        Some((symbol1(a)->0, 1nat))
    } else {
        None
    }
}

/// A lexeme lies inside the text, and only the one at the end is empty.
pub proof fn lemma_lexeme_bound(src: Seq<u8>, pos: int)
    requires
        0 <= pos,
    ensures
        lexeme_at(src, pos) matches Some((kind, n)) ==> {
            &&& kind == TokenKind::Eof <==> pos >= src.len()
            &&& kind == TokenKind::Eof <==> n == 0
            &&& kind != TokenKind::Eof ==> pos + n <= src.len()
        },
{
    if pos < src.len() {
        lemma_run_len_bound(src, pos + 1, ByteClass::IdentRest);
        lemma_run_len_bound(src, pos + 1, ByteClass::Digit);
        let n = 1 + run_len(src, pos + 1, ByteClass::IdentRest);
        let text = src.subrange(pos, pos + n);
        assert(word_kind(text) != TokenKind::Eof);
    }
}

/// The number of bytes from `pos` to the end of the first `*/`, where there
/// is one.
pub open spec fn block_len(src: Seq<u8>, pos: int) -> Option<nat>
    decreases src.len() - pos,
{
    if pos < 0 || pos + 1 >= src.len() {
        None
    } else if src[pos] == '*' as u8 && src[pos + 1] == '/' as u8 {
        Some(2nat)
    } else {
        match block_len(src, pos + 1) {
            Some(n) => Some(n + 1),
            None => None,
        }
    }
}

/// A block comment ends inside the text.
pub proof fn lemma_block_len_bound(src: Seq<u8>, pos: int)
    ensures
        block_len(src, pos) matches Some(n) ==> 2 <= n && pos + n <= src.len(),
    decreases src.len() - pos,
{
    if !(pos < 0 || pos + 1 >= src.len()) && !(src[pos] == '*' as u8 && src[pos + 1] == '/' as u8) {
        lemma_block_len_bound(src, pos + 1);
    }
}

/// The first position from `pos` on that is not in white space or a comment.
pub open spec fn trivia_end(src: Seq<u8>, pos: int) -> int
    decreases src.len() - pos,
    via trivia_end_decreases
{
    if 0 <= pos < src.len() && is_space(src[pos]) {
        trivia_end(src, pos + 1)
    } else if 0 <= pos && byte_at(src, pos) == '/' as u8 && byte_at(src, pos + 1) == '/' as u8 {
        trivia_end(src, pos + 2 + run_len(src, pos + 2, ByteClass::CommentBody))
    } else if 0 <= pos && byte_at(src, pos) == '/' as u8 && byte_at(src, pos + 1) == '*' as u8
        && block_len(src, pos + 2) is Some {
        trivia_end(src, pos + 2 + block_len(src, pos + 2)->0)
    } else {
        pos
    }
}

#[via_fn]
proof fn trivia_end_decreases(src: Seq<u8>, pos: int) {
    if 0 <= pos && byte_at(src, pos) == '/' as u8 && byte_at(src, pos + 1) == '/' as u8 {
        lemma_run_len_bound(src, pos + 2, ByteClass::CommentBody);
    }
    lemma_block_len_bound(src, pos + 2);
}

/// White space and comments end inside the text, at or after where they start.
pub proof fn lemma_trivia_end_bound(src: Seq<u8>, pos: int)
    requires
        0 <= pos <= src.len(),
    ensures
        pos <= trivia_end(src, pos) <= src.len(),
    decreases src.len() - pos,
{
    if pos < src.len() && is_space(src[pos]) {
        lemma_trivia_end_bound(src, pos + 1);
    } else if byte_at(src, pos) == '/' as u8 && byte_at(src, pos + 1) == '/' as u8 {
        lemma_run_len_bound(src, pos + 2, ByteClass::CommentBody);
        lemma_trivia_end_bound(src, pos + 2 + run_len(src, pos + 2, ByteClass::CommentBody));
    } else if byte_at(src, pos) == '/' as u8 && byte_at(src, pos + 1) == '*' as u8 && block_len(
        src,
        pos + 2,
    ) is Some {
        lemma_block_len_bound(src, pos + 2);
        lemma_trivia_end_bound(src, pos + 2 + block_len(src, pos + 2)->0);
    }
}

/// The next token from `pos` on: the one that starts where the white space and
/// comments at `pos` end. The error is the byte there that starts no lexeme.
pub open spec fn scan(src: Seq<u8>, pos: int) -> Result<Token, CompileError> {
    let p = trivia_end(src, pos);
    match lexeme_at(src, p) {
        Some((kind, n)) => Ok(Token { kind, span: Span { start: p as usize, end: (p + n) as usize } }),
        None => Err(CompileError { kind: ErrorKind::UnrecognizedCharacter, pos: p as usize }),
    }
}

/// Where the token that `scan` finds from `pos` on ends.
pub open spec fn scan_end(src: Seq<u8>, pos: int) -> int {
    let p = trivia_end(src, pos);
    match lexeme_at(src, p) {
        Some((_, n)) => p + n,
        None => p,
    }
}

/// A run of tokens put in front of what the rest of the text gives.
pub open spec fn prepend(front: Seq<Token>, rest: Result<Seq<Token>, CompileError>) -> Result<
    Seq<Token>,
    CompileError,
> {
    match rest {
        Ok(tokens) => Ok(front + tokens),
        Err(e) => Err(e),
    }
}

/// The tokens from `pos` on, the last of them the end of the text; or the
/// first error.
pub open spec fn lex_from(src: Seq<u8>, pos: int) -> Result<Seq<Token>, CompileError>
    decreases src.len() - pos,
    via lex_from_decreases
{
    match scan(src, pos) {
        Err(e) => Err(e),
        Ok(tok) => if tok.kind == TokenKind::Eof {
            Ok(seq![tok])
        } else {
            prepend(seq![tok], lex_from(src, scan_end(src, pos)))
        },
    }
}

#[via_fn]
proof fn lex_from_decreases(src: Seq<u8>, pos: int) {
    if 0 <= pos <= src.len() {
        lemma_trivia_end_bound(src, pos);
        lemma_lexeme_bound(src, trivia_end(src, pos));
    }
}

/// The tokens of a source text.
pub open spec fn lex(src: Seq<u8>) -> Result<Seq<Token>, CompileError> {
    lex_from(src, 0)
}

/// The end of the run of `class` bytes that starts at `pos`.
fn scan_run(src: &[u8], pos: usize, class: ByteClass) -> (end: usize)
    requires
        pos <= src@.len(),
    ensures
        end == pos + run_len(src@, pos as int, class),
        end <= src@.len(),
{
    let mut end: usize = pos;
    while end < src.len() && class.has(src[end])
        invariant
            pos <= end <= src@.len(),
            pos + run_len(src@, pos as int, class) == end + run_len(src@, end as int, class),
        decreases src@.len() - end,
    {
        end = end + 1;
    }
    end
}

/// The byte at `pos`; zero past the end.
fn peek(src: &[u8], pos: usize, ahead: usize) -> (b: u8)
    requires
        ahead <= 2,
        pos <= src@.len(),
    ensures
        b == byte_at(src@, pos + ahead),
{
    if ahead < src.len() - pos {
        src[pos + ahead]
    } else {
        0
    }
}

/// The end of the block comment whose text starts at `pos`.
fn scan_block(src: &[u8], pos: usize) -> (r: Option<usize>)
    requires
        pos <= src@.len(),
    ensures
        match r {
            Some(end) => block_len(src@, pos as int) == Some((end - pos) as nat) && pos + 2 <= end
                <= src@.len(),
            None => block_len(src@, pos as int) is None,
        },
{
    let mut p: usize = pos;
    while p < src.len() && p + 1 < src.len()
        invariant
            pos <= p <= src@.len(),
            match block_len(src@, p as int) {
                Some(n) => block_len(src@, pos as int) == Some((n + p - pos) as nat),
                None => block_len(src@, pos as int) is None,
            },
        decreases src@.len() - p,
    {
        if src[p] == '*' as u8 && src[p + 1] == '/' as u8 {
            return Some(p + 2);
        }
        p = p + 1;
    }
    None
}

/// Where the white space and comments at `pos` end.
fn skip_trivia(src: &[u8], pos: usize) -> (p: usize)
    requires
        pos <= src@.len(),
    ensures
        p == trivia_end(src@, pos as int),
        pos <= p <= src@.len(),
{
    let mut p: usize = pos;
    loop
        invariant
            pos <= p <= src@.len(),
            trivia_end(src@, pos as int) == trivia_end(src@, p as int),
        ensures
            p == trivia_end(src@, pos as int),
        decreases src@.len() - p,
    {
        if p < src.len() && byte_is_space(src[p]) {
            p = p + 1;
        } else if peek(src, p, 0) == '/' as u8 && peek(src, p, 1) == '/' as u8 {
            p = scan_run(src, p + 2, ByteClass::CommentBody);
        } else if peek(src, p, 0) == '/' as u8 && peek(src, p, 1) == '*' as u8 {
            match scan_block(src, p + 2) {
                Some(end) => {
                    p = end;
                },
                None => {
                    break;
                },
            }
        } else {
            break;
        }
    }
    p
}

/// The kind of the word that `span` covers.
fn classify_word(src: &[u8], span: Span) -> (kind: TokenKind)
    requires
        span.within(src@.len()),
    ensures
        kind == word_kind(span.text(src@)),
{
    let w_let: [u8; 3] = ['l' as u8, 'e' as u8, 't' as u8];
    let w_mut: [u8; 3] = ['m' as u8, 'u' as u8, 't' as u8];
    let w_fn: [u8; 2] = ['f' as u8, 'n' as u8];
    let w_loop: [u8; 4] = ['l' as u8, 'o' as u8, 'o' as u8, 'p' as u8];
    let w_if: [u8; 2] = ['i' as u8, 'f' as u8];
    let w_else: [u8; 4] = ['e' as u8, 'l' as u8, 's' as u8, 'e' as u8];
    let w_break: [u8; 5] = ['b' as u8, 'r' as u8, 'e' as u8, 'a' as u8, 'k' as u8];
    let w_continue: [u8; 8] = [
        'c' as u8,
        'o' as u8,
        'n' as u8,
        't' as u8,
        'i' as u8,
        'n' as u8,
        'u' as u8,
        'e' as u8,
    ];
    let w_return: [u8; 6] = ['r' as u8, 'e' as u8, 't' as u8, 'u' as u8, 'r' as u8, 'n' as u8];
    assert(w_let@ =~= keyword_text(Keyword::Let));
    assert(w_mut@ =~= keyword_text(Keyword::Mut));
    assert(w_fn@ =~= keyword_text(Keyword::Fn));
    assert(w_loop@ =~= keyword_text(Keyword::Loop));
    assert(w_if@ =~= keyword_text(Keyword::If));
    assert(w_else@ =~= keyword_text(Keyword::Else));
    assert(w_break@ =~= keyword_text(Keyword::Break));
    assert(w_continue@ =~= keyword_text(Keyword::Continue));
    assert(w_return@ =~= keyword_text(Keyword::Return));
    if span.spells(src, &w_let) {
        TokenKind::Keyword(Keyword::Let)
    } else if span.spells(src, &w_mut) {
        TokenKind::Keyword(Keyword::Mut)
    } else if span.spells(src, &w_fn) {
        TokenKind::Keyword(Keyword::Fn)
    } else if span.spells(src, &w_loop) {
        TokenKind::Keyword(Keyword::Loop)
    } else if span.spells(src, &w_if) {
        TokenKind::Keyword(Keyword::If)
    } else if span.spells(src, &w_else) {
        TokenKind::Keyword(Keyword::Else)
    } else if span.spells(src, &w_break) {
        TokenKind::Keyword(Keyword::Break)
    } else if span.spells(src, &w_continue) {
        TokenKind::Keyword(Keyword::Continue)
    } else if span.spells(src, &w_return) {
        TokenKind::Keyword(Keyword::Return)
    } else {
        TokenKind::Ident
    }
}

/// The operator or punctuation mark that starts with the bytes `a`, `b`, `c`,
/// and its length.
fn classify_symbol(a: u8, b: u8, c: u8) -> (r: Option<(TokenKind, usize)>)
    ensures
        r == if symbol3(a, b, c) is Some {
            Some((TokenKind::Op(symbol3(a, b, c)->0), 3usize))
        } else if symbol2(a, b) is Some {
            Some((TokenKind::Op(symbol2(a, b)->0), 2usize))
        } else if symbol1(a) is Some {
            Some((symbol1(a)->0, 1usize))
        } else {
            None
        },
{
    let lt = '<' as u8;
    let gt = '>' as u8;
    let eq = '=' as u8;
    if a == lt && b == lt && c == eq {
        Some((TokenKind::Op(Op::ShlAssign), 3))
    } else if a == gt && b == gt && c == eq {
        Some((TokenKind::Op(Op::ShrAssign), 3))
    } else if a == lt && b == lt {
        Some((TokenKind::Op(Op::Shl), 2))
    } else if a == gt && b == gt {
        Some((TokenKind::Op(Op::Shr), 2))
    } else if a == lt && b == eq {
        Some((TokenKind::Op(Op::Le), 2))
    } else if a == gt && b == eq {
        Some((TokenKind::Op(Op::Ge), 2))
    } else if a == eq && b == eq {
        Some((TokenKind::Op(Op::EqEq), 2))
    } else if a == '!' as u8 && b == eq {
        Some((TokenKind::Op(Op::Ne), 2))
    } else if a == '&' as u8 && b == '&' as u8 {
        Some((TokenKind::Op(Op::AndAnd), 2))
    } else if a == '|' as u8 && b == '|' as u8 {
        Some((TokenKind::Op(Op::OrOr), 2))
    } else if a == '+' as u8 && b == eq {
        Some((TokenKind::Op(Op::PlusAssign), 2))
    } else if a == '-' as u8 && b == eq {
        Some((TokenKind::Op(Op::MinusAssign), 2))
    } else if a == '-' as u8 && b == gt {
        Some((TokenKind::Op(Op::Arrow), 2))
    } else if a == '+' as u8 {
        Some((TokenKind::Op(Op::Plus), 1))
    } else if a == '-' as u8 {
        Some((TokenKind::Op(Op::Minus), 1))
    } else if a == '*' as u8 {
        Some((TokenKind::Op(Op::Star), 1))
    } else if a == '/' as u8 {
        Some((TokenKind::Op(Op::Slash), 1))
    } else if a == '%' as u8 {
        Some((TokenKind::Op(Op::Percent), 1))
    } else if a == lt {
        Some((TokenKind::Op(Op::Lt), 1))
    } else if a == gt {
        Some((TokenKind::Op(Op::Gt), 1))
    } else if a == eq {
        Some((TokenKind::Op(Op::Assign), 1))
    } else if a == '!' as u8 {
        Some((TokenKind::Op(Op::Bang), 1))
    } else if a == '(' as u8 {
        Some((TokenKind::Punct(Punct::LParen), 1))
    } else if a == ')' as u8 {
        Some((TokenKind::Punct(Punct::RParen), 1))
    } else if a == '{' as u8 {
        Some((TokenKind::Punct(Punct::LBrace), 1))
    } else if a == '}' as u8 {
        Some((TokenKind::Punct(Punct::RBrace), 1))
    } else if a == '[' as u8 {
        Some((TokenKind::Punct(Punct::LBracket), 1))
    } else if a == ']' as u8 {
        Some((TokenKind::Punct(Punct::RBracket), 1))
    } else if a == ';' as u8 {
        Some((TokenKind::Punct(Punct::Semi), 1))
    } else if a == ',' as u8 {
        Some((TokenKind::Punct(Punct::Comma), 1))
    } else if a == '.' as u8 {
        Some((TokenKind::Punct(Punct::Dot), 1))
    } else if a == ':' as u8 {
        Some((TokenKind::Punct(Punct::Colon), 1))
    } else {
        None
    }
}

/// Scans one token: the next one from `pos` on. After the last lexeme it is
/// the end of the text, at every call.
pub fn next_token(src: &[u8], pos: usize) -> (r: Result<Token, CompileError>)
    ensures
        r == scan(src@, pos as int),
        r matches Ok(tok) ==> {
            &&& tok.span.end == scan_end(src@, pos as int)
            &&& pos <= tok.span.start <= tok.span.end
            &&& tok.kind != TokenKind::Eof ==> tok.span.start < tok.span.end <= src@.len()
            &&& tok.kind == TokenKind::Ident ==> is_name(src@, tok.span)
        },
{
    if pos > src.len() {
        return Ok(Token { kind: TokenKind::Eof, span: Span { start: pos, end: pos } });
    }
    let p = skip_trivia(src, pos);
    proof {
        lemma_lexeme_bound(src@, p as int);
    }
    if p >= src.len() {
        return Ok(Token { kind: TokenKind::Eof, span: Span { start: p, end: p } });
    }
    let a = src[p];
    if a == '/' as u8 && peek(src, p, 1) == '*' as u8 {
        Err(CompileError { kind: ErrorKind::UnrecognizedCharacter, pos: p })
    } else if byte_is_ident_start(a) {
        let end = scan_run(src, p + 1, ByteClass::IdentRest);
        let span = Span { start: p, end };
        proof {
            lemma_run_holds(src@, p + 1, ByteClass::IdentRest);
        }
        Ok(Token { kind: classify_word(src, span), span })
    } else if byte_is_digit(a) {
        let end = scan_run(src, p + 1, ByteClass::Digit);
        Ok(Token { kind: TokenKind::Int, span: Span { start: p, end } })
    } else {
        match classify_symbol(a, peek(src, p, 1), peek(src, p, 2)) {
            Some((kind, n)) => Ok(Token { kind, span: Span { start: p, end: p + n } }),
            None => Err(CompileError { kind: ErrorKind::UnrecognizedCharacter, pos: p }),
        }
    }
}

/// A run of tokens as a sequence.
pub open spec fn tokens_of(r: Result<Vec<Token>, CompileError>) -> Result<Seq<Token>, CompileError> {
    match r {
        Ok(tokens) => Ok(tokens@),
        Err(e) => Err(e),
    }
}

/// Splits a source text into its tokens. The last token is the end of the
/// text. Fails at the first byte that starts no lexeme.
pub fn tokenize(src: &[u8]) -> (r: Result<Vec<Token>, CompileError>)
    ensures
        tokens_of(r) == lex(src@),
        r matches Ok(tokens) ==> {
            &&& 1 <= tokens@.len() <= src@.len() + 1
            &&& tokens@.last().kind == TokenKind::Eof
            &&& idents_named(src@, tokens@)
        },
{
    let mut tokens: Vec<Token> = Vec::new();
    let mut pos: usize = 0;
    loop
        invariant
            pos <= src@.len(),
            tokens@.len() <= pos,
            idents_named(src@, tokens@),
            lex(src@) == prepend(tokens@, lex_from(src@, pos as int)),
        decreases src@.len() - pos,
    {
        match next_token(src, pos) {
            Err(e) => {
                return Err(e);
            },
            Ok(tok) => {
                let ghost before = tokens@;
                tokens.push(tok);
                if tok.kind == TokenKind::Eof {
                    assert(before + seq![tok] =~= tokens@);
                    return Ok(tokens);
                }
                proof {
                    let rest = lex_from(src@, tok.span.end as int);
                    if rest is Ok {
                        assert(before + (seq![tok] + rest->Ok_0) =~= tokens@ + rest->Ok_0);
                    }
                }
                pos = tok.span.end;
            },
        }
    }
}

/// A lexer over one source text: it hands out the tokens one by one, from
/// the first on, and cannot go back. To scan a text again, make a new one.
pub struct Lexer<'a> {
    src: &'a [u8],
    pos: usize,
}

impl<'a> Lexer<'a> {
    /// The text that the lexer scans.
    pub closed spec fn source(&self) -> Seq<u8> {
        self.src@
    }

    /// The byte offset from which the next token is scanned.
    pub closed spec fn offset(&self) -> int {
        self.pos as int
    }

    /// A lexer at the start of `src`.
    pub fn new(src: &'a [u8]) -> (l: Lexer<'a>)
        ensures
            l.source() == src@,
            l.offset() == 0,
    {
        Lexer { src, pos: 0 }
    }

    /// Hands out the next token, and moves past it. At the end of the text
    /// every call hands out the end token. An error leaves the lexer where
    /// it is.
    pub fn next_token(&mut self) -> (r: Result<Token, CompileError>)
        ensures
            r == scan(old(self).source(), old(self).offset()),
            final(self).source() == old(self).source(),
            final(self).offset() == if r is Ok {
                scan_end(old(self).source(), old(self).offset())
            } else {
                old(self).offset()
            },
    {
        let r = next_token(self.src, self.pos);
        match r {
            Ok(tok) => {
                self.pos = tok.span.end;
            },
            Err(_) => {},
        }
        r
    }
}

} // verus!
