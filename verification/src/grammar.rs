//! The grammar of the surface language, as functions from a position in the
//! token sequence to what stands there and where it ends.
//!
//! A position at or past the end of the tokens reads as the end of the text.
//! Every function returns the first error that a left-to-right reading meets.
//! Before a function reads on after a part, it tests that the part ended
//! further on, inside the tokens; the module `progress` shows that every part
//! does, so that no error comes from this test.
//! The binary operators are left-associative and bind in six tiers, from the
//! loosest: `||`; `&&`; `==` `!=`; `<` `<=` `>` `>=`; `+` `-` `<<` `>>`;
//! `*` `/` `%`. The prefix operators bind tighter, the postfix forms tightest.

use vstd::prelude::*;
use crate::span::{List, Span};
use crate::token::{Keyword, Op, Punct, Token, TokenKind};
use crate::error::{CompileError, ErrorKind, Expected};
use crate::ast::{BinaryOp, Expr, FnDecl, Item, Param, Stmt, Type, UnaryOp};
use crate::lexer::is_digit;

verus! {

/// What a reading gives: the node, and the position after it.
pub type Parsed<T> = Result<(T, int), CompileError>;

/// The kind of the token at `pos`.
pub open spec fn kind_at(ts: Seq<Token>, pos: int) -> TokenKind {
    if 0 <= pos < ts.len() {
        ts[pos].kind
    } else {
        TokenKind::Eof
    }
}

/// The span of the token at `pos`; past the end, the empty span where the
/// last token ends.
pub open spec fn span_at(ts: Seq<Token>, pos: int) -> Span {
    if 0 <= pos < ts.len() {
        ts[pos].span
    } else if ts.len() > 0 {
        Span { start: ts.last().span.end, end: ts.last().span.end }
    } else {
        Span { start: 0, end: 0 }
    }
}

/// The error for the token at `pos`, where `expected` was looked for.
pub open spec fn unexpected(ts: Seq<Token>, pos: int, expected: Expected) -> CompileError {
    CompileError {
        kind: ErrorKind::UnexpectedToken { expected, found: kind_at(ts, pos) },
        pos: span_at(ts, pos).start,
    }
}

/// A reading that started at `pos` ended at `end`: further on, and inside the
/// tokens.
pub open spec fn moved(ts: Seq<Token>, pos: int, end: int) -> bool {
    pos < end <= ts.len()
}

/// The value of a decimal digit; zero for a byte that is none.
pub open spec fn digit_of(b: u8) -> nat {
    if is_digit(b) {
        (b - '0' as u8) as nat
    } else {
        0
    }
}

/// The number that a run of decimal digits spells.
pub open spec fn decimal_value(digits: Seq<u8>) -> nat
    decreases digits.len(),
{
    if digits.len() == 0 {
        0
    } else {
        10 * decimal_value(digits.drop_last()) + digit_of(digits.last())
    }
}

/// The value of the integer literal at `pos`, where one stands there that a
/// 32-bit signed integer can hold.
pub open spec fn int_at(src: Seq<u8>, ts: Seq<Token>, pos: int) -> Option<i32> {
    if kind_at(ts, pos) == TokenKind::Int && decimal_value(span_at(ts, pos).text(src)) <= i32::MAX {
        Some(decimal_value(span_at(ts, pos).text(src)) as i32)
    } else {
        None
    }
}

/// The error for the token at `pos`, where an integer literal was looked for.
pub open spec fn not_int(ts: Seq<Token>, pos: int) -> CompileError {
    if kind_at(ts, pos) == TokenKind::Int {
        unexpected(ts, pos, Expected::Literal)
    } else {
        unexpected(ts, pos, Expected::Token(TokenKind::Int))
    }
}

/// The name of the primitive type.
pub open spec fn i32_text() -> Seq<u8> {
    seq!['i' as u8, '3' as u8, '2' as u8]
}

/// The token at `pos` is the name of the primitive type.
pub open spec fn is_i32(src: Seq<u8>, ts: Seq<Token>, pos: int) -> bool {
    kind_at(ts, pos) == TokenKind::Ident && span_at(ts, pos).text(src) == i32_text()
}

/// The kind of a punctuation mark.
pub open spec fn punct(p: Punct) -> TokenKind {
    TokenKind::Punct(p)
}

/// The rest of a tuple type, after `count` element types: a comma and one
/// more, or the closing parenthesis.
pub open spec fn tuple_type_rest(src: Seq<u8>, ts: Seq<Token>, pos: int, count: nat) -> Parsed<Type>
    decreases ts.len() - pos,
{
    if kind_at(ts, pos) == punct(Punct::Comma) {
        if is_i32(src, ts, pos + 1) {
            tuple_type_rest(src, ts, pos + 2, count + 1)
        } else {
            Err(unexpected(ts, pos + 1, Expected::Type))
        }
    } else if kind_at(ts, pos) == punct(Punct::RParen) {
        if count >= 2 {
            Ok((Type::Tuple { arity: count as usize }, pos + 1))
        } else {
            Err(unexpected(ts, pos, Expected::Token(punct(Punct::Comma))))
        }
    } else {
        Err(unexpected(ts, pos, Expected::Token(punct(Punct::RParen))))
    }
}

/// A type: `i32`, `[i32; N]`, or `(i32, i32, ..)` with two elements or more.
pub open spec fn parse_type(src: Seq<u8>, ts: Seq<Token>, pos: int) -> Parsed<Type> {
    if is_i32(src, ts, pos) {
        Ok((Type::Int, pos + 1))
    } else if kind_at(ts, pos) == punct(Punct::LBracket) {
        if !is_i32(src, ts, pos + 1) {
            Err(unexpected(ts, pos + 1, Expected::Type))
        } else if kind_at(ts, pos + 2) != punct(Punct::Semi) {
            Err(unexpected(ts, pos + 2, Expected::Token(punct(Punct::Semi))))
        } else if int_at(src, ts, pos + 3) is None {
            Err(not_int(ts, pos + 3))
        } else if kind_at(ts, pos + 4) != punct(Punct::RBracket) {
            Err(unexpected(ts, pos + 4, Expected::Token(punct(Punct::RBracket))))
        } else {
            Ok((Type::Array { len: int_at(src, ts, pos + 3)->0 as usize }, pos + 5))
        }
    } else if kind_at(ts, pos) == punct(Punct::LParen) {
        if is_i32(src, ts, pos + 1) {
            tuple_type_rest(src, ts, pos + 2, 1)
        } else {
            Err(unexpected(ts, pos + 1, Expected::Type))
        }
    } else {
        Err(unexpected(ts, pos, Expected::Type))
    }
}

/// The infix operator that a token of `kind` is in the tier `level`.
pub open spec fn binary_op_at(kind: TokenKind, level: nat) -> Option<BinaryOp> {
    match kind {
        TokenKind::Op(op) => match op {
            Op::OrOr => if level == 1 { Some(BinaryOp::Or) } else { None },
            Op::AndAnd => if level == 2 { Some(BinaryOp::And) } else { None },
            Op::EqEq => if level == 3 { Some(BinaryOp::Eq) } else { None },
            Op::Ne => if level == 3 { Some(BinaryOp::Ne) } else { None },
            Op::Lt => if level == 4 { Some(BinaryOp::Lt) } else { None },
            Op::Le => if level == 4 { Some(BinaryOp::Le) } else { None },
            Op::Gt => if level == 4 { Some(BinaryOp::Gt) } else { None },
            Op::Ge => if level == 4 { Some(BinaryOp::Ge) } else { None },
            Op::Plus => if level == 5 { Some(BinaryOp::Add) } else { None },
            Op::Minus => if level == 5 { Some(BinaryOp::Sub) } else { None },
            Op::Shl => if level == 5 { Some(BinaryOp::Shl) } else { None },
            Op::Shr => if level == 5 { Some(BinaryOp::Shr) } else { None },
            Op::Star => if level == 6 { Some(BinaryOp::Mul) } else { None },
            Op::Slash => if level == 6 { Some(BinaryOp::Div) } else { None },
            Op::Percent => if level == 6 { Some(BinaryOp::Rem) } else { None },
            _ => None,
        },
        _ => None,
    }
}

/// The prefix operator that a token of `kind` is.
pub open spec fn unary_op_at(kind: TokenKind) -> Option<UnaryOp> {
    if kind == TokenKind::Op(Op::Minus) {
        Some(UnaryOp::Neg)
    } else if kind == TokenKind::Op(Op::Bang) {
        Some(UnaryOp::Not)
    } else {
        None
    }
}

/// The operator of the compound assignment that a token of `kind` is.
pub open spec fn compound_op_at(kind: TokenKind) -> Option<BinaryOp> {
    if kind == TokenKind::Op(Op::PlusAssign) {
        Some(BinaryOp::Add)
    } else if kind == TokenKind::Op(Op::MinusAssign) {
        Some(BinaryOp::Sub)
    } else if kind == TokenKind::Op(Op::ShlAssign) {
        Some(BinaryOp::Shl)
    } else if kind == TokenKind::Op(Op::ShrAssign) {
        Some(BinaryOp::Shr)
    } else {
        None
    }
}

/// The number of tiers of infix operators.
pub open spec fn tiers() -> nat {
    6
}

/// An expression.
pub open spec fn parse_expr(src: Seq<u8>, ts: Seq<Token>, pos: int) -> Parsed<Expr>
    decreases ts.len() - pos, 20nat,
{
    parse_binary(src, ts, pos, 1)
}

/// An expression of the tier `level` or a tighter one: operands of the next
/// tier, with the operators of this tier between them, grouped from the left.
pub open spec fn parse_binary(src: Seq<u8>, ts: Seq<Token>, pos: int, level: nat) -> Parsed<Expr>
    decreases ts.len() - pos, (if level <= 6 { 18 - level } else { 11 }) as nat,
{
    if level > tiers() {
        parse_unary(src, ts, pos)
    } else {
        match parse_binary(src, ts, pos, level + 1) {
            Err(e) => Err(e),
            Ok((lhs, p)) => if moved(ts, pos, p) {
                parse_binary_rest(src, ts, p, level, lhs)
            } else {
                Err(unexpected(ts, pos, Expected::Expression))
            },
        }
    }
}

/// What follows the operand `lhs` in the tier `level`: an operator of the
/// tier and the next operand, as often as one is there.
pub open spec fn parse_binary_rest(
    src: Seq<u8>,
    ts: Seq<Token>,
    pos: int,
    level: nat,
    lhs: Expr,
) -> Parsed<Expr>
    decreases ts.len() - pos, 0nat,
{
    match binary_op_at(kind_at(ts, pos), level) {
        None => Ok((lhs, pos)),
        Some(op) => match parse_binary(src, ts, pos + 1, level + 1) {
            Err(e) => Err(e),
            Ok((rhs, p)) => if moved(ts, pos, p) {
                parse_binary_rest(
                    src,
                    ts,
                    p,
                    level,
                    Expr::Binary {
                        op,
                        lhs: Box::new(lhs),
                        rhs: Box::new(rhs),
                        pos: span_at(ts, pos).start,
                    },
                )
            } else {
                Err(unexpected(ts, pos, Expected::Expression))
            },
        },
    }
}

/// A prefix operator and its operand, or a postfix expression.
pub open spec fn parse_unary(src: Seq<u8>, ts: Seq<Token>, pos: int) -> Parsed<Expr>
    decreases ts.len() - pos, 10nat,
{
    match unary_op_at(kind_at(ts, pos)) {
        Some(op) => match parse_unary(src, ts, pos + 1) {
            Err(e) => Err(e),
            Ok((operand, p)) => Ok(
                (Expr::Unary { op, operand: Box::new(operand), pos: span_at(ts, pos).start }, p),
            ),
        },
        None => match parse_primary(src, ts, pos) {
            Err(e) => Err(e),
            Ok((base, p)) => if moved(ts, pos, p) {
                parse_postfix_rest(src, ts, p, base)
            } else {
                Err(unexpected(ts, pos, Expected::Expression))
            },
        },
    }
}

/// What follows `base`: tuple accesses and indexings, as many as are there.
pub open spec fn parse_postfix_rest(src: Seq<u8>, ts: Seq<Token>, pos: int, base: Expr) -> Parsed<
    Expr,
>
    decreases ts.len() - pos, 0nat,
{
    if kind_at(ts, pos) == punct(Punct::Dot) {
        match int_at(src, ts, pos + 1) {
            None => Err(not_int(ts, pos + 1)),
            Some(index) => parse_postfix_rest(
                src,
                ts,
                pos + 2,
                Expr::Field { base: Box::new(base), index: index as usize, pos: span_at(ts, pos).start },
            ),
        }
    } else if kind_at(ts, pos) == punct(Punct::LBracket) {
        match parse_expr(src, ts, pos + 1) {
            Err(e) => Err(e),
            Ok((index, p)) => if !moved(ts, pos, p) {
                Err(unexpected(ts, pos, Expected::Expression))
            } else if kind_at(ts, p) != punct(Punct::RBracket) {
                Err(unexpected(ts, p, Expected::Token(punct(Punct::RBracket))))
            } else {
                parse_postfix_rest(
                    src,
                    ts,
                    p + 1,
                    Expr::Index {
                        base: Box::new(base),
                        index: Box::new(index),
                        pos: span_at(ts, pos).start,
                    },
                )
            },
        }
    } else {
        Ok((base, pos))
    }
}

/// A literal, a name, a call, an expression in parentheses, or a tuple.
pub open spec fn parse_primary(src: Seq<u8>, ts: Seq<Token>, pos: int) -> Parsed<Expr>
    decreases ts.len() - pos, 5nat,
{
    match kind_at(ts, pos) {
        TokenKind::Int => match int_at(src, ts, pos) {
            Some(value) => Ok((Expr::Literal { value, pos: span_at(ts, pos).start }, pos + 1)),
            None => Err(not_int(ts, pos)),
        },
        TokenKind::Ident => if kind_at(ts, pos + 1) == punct(Punct::LParen) {
            match parse_args(src, ts, pos + 2) {
                Err(e) => Err(e),
                Ok((args, p)) => Ok((Expr::Call { callee: span_at(ts, pos), args }, p)),
            }
        } else {
            Ok((Expr::Ident { name: span_at(ts, pos) }, pos + 1))
        },
        TokenKind::Punct(Punct::LParen) => match parse_expr(src, ts, pos + 1) {
            Err(e) => Err(e),
            Ok((first, p)) => if !moved(ts, pos, p) {
                Err(unexpected(ts, pos, Expected::Expression))
            } else if kind_at(ts, p) == punct(Punct::RParen) {
                Ok((first, p + 1))
            } else if kind_at(ts, p) == punct(Punct::Comma) {
                match parse_args(src, ts, p + 1) {
                    Err(e) => Err(e),
                    Ok((rest, end)) => if rest is Nil {
                        Err(unexpected(ts, p + 1, Expected::Expression))
                    } else {
                        Ok(
                            (
                                Expr::Tuple {
                                    elems: List::Cons(Box::new(first), Box::new(rest)),
                                    pos: span_at(ts, pos).start,
                                },
                                end,
                            ),
                        )
                    },
                }
            } else {
                Err(unexpected(ts, p, Expected::Token(punct(Punct::RParen))))
            },
        },
        _ => Err(unexpected(ts, pos, Expected::Expression)),
    }
}

/// Expressions with commas between them, up to and with the closing
/// parenthesis. A comma may stand before the parenthesis.
pub open spec fn parse_args(src: Seq<u8>, ts: Seq<Token>, pos: int) -> Parsed<List<Expr>>
    decreases ts.len() - pos, 21nat,
{
    if kind_at(ts, pos) == punct(Punct::RParen) {
        Ok((List::Nil, pos + 1))
    } else {
        match parse_expr(src, ts, pos) {
            Err(e) => Err(e),
            Ok((head, p)) => if !moved(ts, pos, p) {
                Err(unexpected(ts, pos, Expected::Expression))
            } else if kind_at(ts, p) == punct(Punct::Comma) {
                match parse_args(src, ts, p + 1) {
                    Err(e) => Err(e),
                    Ok((tail, end)) => Ok((List::Cons(Box::new(head), Box::new(tail)), end)),
                }
            } else if kind_at(ts, p) == punct(Punct::RParen) {
                Ok((List::Cons(Box::new(head), Box::new(List::Nil)), p + 1))
            } else {
                Err(unexpected(ts, p, Expected::Token(punct(Punct::RParen))))
            },
        }
    }
}

/// The kind of a keyword.
pub open spec fn keyword(k: Keyword) -> TokenKind {
    TokenKind::Keyword(k)
}

/// The token at `pos` is of `kind`: the position after it.
pub open spec fn expect(ts: Seq<Token>, pos: int, kind: TokenKind) -> Result<int, CompileError> {
    if kind_at(ts, pos) == kind {
        Ok(pos + 1)
    } else {
        Err(unexpected(ts, pos, Expected::Token(kind)))
    }
}

/// The end of a `let`, after the name and the type: `= init ;`.
pub open spec fn parse_let_init(
    src: Seq<u8>,
    ts: Seq<Token>,
    pos: int,
    name: Span,
    mutable: bool,
    ty: Option<Type>,
) -> Parsed<Stmt>
    decreases ts.len() - pos, 22nat,
{
    if kind_at(ts, pos) != TokenKind::Op(Op::Assign) {
        Err(unexpected(ts, pos, Expected::Token(TokenKind::Op(Op::Assign))))
    } else {
        match parse_expr(src, ts, pos + 1) {
            Err(e) => Err(e),
            Ok((init, p)) => match expect(ts, p, punct(Punct::Semi)) {
                Err(e) => Err(e),
                Ok(end) => Ok((Stmt::Let { name, mutable, ty, init }, end)),
            },
        }
    }
}

/// A `let`, after the keyword: `[mut] name [: type] = init ;`, or the
/// declaration of an array, `[mut] name : [i32; N] ;`.
pub open spec fn parse_let(src: Seq<u8>, ts: Seq<Token>, pos: int) -> Parsed<Stmt>
    decreases ts.len() - pos, 23nat,
{
    let mutable = kind_at(ts, pos) == keyword(Keyword::Mut);
    let at = if mutable { pos + 1 } else { pos };
    let name = span_at(ts, at);
    if kind_at(ts, at) != TokenKind::Ident {
        Err(unexpected(ts, at, Expected::Token(TokenKind::Ident)))
    } else if kind_at(ts, at + 1) == punct(Punct::Colon) {
        match parse_type(src, ts, at + 2) {
            Err(e) => Err(e),
            Ok((ty, p)) => if !moved(ts, at + 2, p) {
                Err(unexpected(ts, at + 2, Expected::Type))
            } else {
                match ty {
                    Type::Array { len } => match expect(ts, p, punct(Punct::Semi)) {
                        Err(e) => Err(e),
                        Ok(end) => Ok((Stmt::ArrayDecl { name, mutable, len }, end)),
                    },
                    _ => parse_let_init(src, ts, p, name, mutable, Some(ty)),
                }
            },
        }
    } else {
        parse_let_init(src, ts, at + 1, name, mutable, None)
    }
}

/// The end of a statement that began with the expression `target`, which ended
/// at `pos`: an assignment to it, a compound assignment to it, or nothing
/// more. Only a name, or a name with an index, can be assigned to. Before a
/// closing brace the semicolon may be left out: the expression is then the
/// value of the block.
pub open spec fn parse_after_expr(src: Seq<u8>, ts: Seq<Token>, pos: int, target: Expr) -> Parsed<
    Stmt,
>
    decreases ts.len() - pos, 22nat,
{
    let kind = kind_at(ts, pos);
    if kind == TokenKind::Op(Op::Assign) || compound_op_at(kind) is Some {
        match target {
            Expr::Ident { name } => match parse_expr(src, ts, pos + 1) {
                Err(e) => Err(e),
                Ok((value, p)) => match expect(ts, p, punct(Punct::Semi)) {
                    Err(e) => Err(e),
                    Ok(end) => if compound_op_at(kind) is Some {
                        Ok((Stmt::CompoundAssign { name, op: compound_op_at(kind)->0, value }, end))
                    } else {
                        Ok((Stmt::Assign { name, value }, end))
                    },
                },
            },
            Expr::Index { base, index, pos: at } => if kind == TokenKind::Op(Op::Assign)
                && *base is Ident {
                match parse_expr(src, ts, pos + 1) {
                    Err(e) => Err(e),
                    Ok((value, p)) => match expect(ts, p, punct(Punct::Semi)) {
                        Err(e) => Err(e),
                        Ok(end) => Ok(
                            (
                                Stmt::IndexStore {
                                    array: base->name,
                                    index: *index,
                                    value,
                                    pos: at,
                                },
                                end,
                            ),
                        ),
                    },
                }
            } else {
                Err(unexpected(ts, pos, Expected::Place))
            },
            _ => Err(unexpected(ts, pos, Expected::Place)),
        }
    } else if kind == punct(Punct::Semi) {
        Ok((Stmt::Expr { expr: target }, pos + 1))
    } else if kind == punct(Punct::RBrace) {
        Ok((Stmt::Tail { expr: target }, pos))
    } else {
        Err(unexpected(ts, pos, Expected::Token(punct(Punct::Semi))))
    }
}

/// A statement.
pub open spec fn parse_stmt(src: Seq<u8>, ts: Seq<Token>, pos: int) -> Parsed<Stmt>
    decreases ts.len() - pos, 29nat,
{
    let at = span_at(ts, pos).start;
    match kind_at(ts, pos) {
        TokenKind::Keyword(Keyword::Let) => parse_let(src, ts, pos + 1),
        TokenKind::Keyword(Keyword::Loop) => match parse_block(src, ts, pos + 1) {
            Err(e) => Err(e),
            Ok((body, end)) => Ok((Stmt::Loop { body, pos: at }, end)),
        },
        TokenKind::Keyword(Keyword::Break) => match expect(ts, pos + 1, punct(Punct::Semi)) {
            Err(e) => Err(e),
            Ok(end) => Ok((Stmt::Break { pos: at }, end)),
        },
        TokenKind::Keyword(Keyword::Continue) => match expect(ts, pos + 1, punct(Punct::Semi)) {
            Err(e) => Err(e),
            Ok(end) => Ok((Stmt::Continue { pos: at }, end)),
        },
        TokenKind::Keyword(Keyword::If) => match parse_expr(src, ts, pos + 1) {
            Err(e) => Err(e),
            Ok((cond, p)) => if !moved(ts, pos, p) {
                Err(unexpected(ts, pos, Expected::Expression))
            } else {
                match parse_block(src, ts, p) {
                    Err(e) => Err(e),
                    Ok((then_body, q)) => if !moved(ts, p, q) {
                        Err(unexpected(ts, p, Expected::Token(punct(Punct::LBrace))))
                    } else if kind_at(ts, q) == keyword(Keyword::Else) {
                        match parse_block(src, ts, q + 1) {
                            Err(e) => Err(e),
                            Ok((else_body, end)) => Ok(
                                (Stmt::If { cond, then_body, else_body, pos: at }, end),
                            ),
                        }
                    } else {
                        Ok((Stmt::If { cond, then_body, else_body: List::Nil, pos: at }, q))
                    },
                }
            },
        },
        TokenKind::Punct(Punct::LBrace) => match parse_block(src, ts, pos) {
            Err(e) => Err(e),
            Ok((body, end)) => Ok((Stmt::Block { body }, end)),
        },
        _ => match parse_expr(src, ts, pos) {
            Err(e) => Err(e),
            Ok((target, p)) => if moved(ts, pos, p) {
                parse_after_expr(src, ts, p, target)
            } else {
                Err(unexpected(ts, pos, Expected::Expression))
            },
        },
    }
}

/// A block: statements between braces.
pub open spec fn parse_block(src: Seq<u8>, ts: Seq<Token>, pos: int) -> Parsed<List<Stmt>>
    decreases ts.len() - pos, 28nat,
{
    if kind_at(ts, pos) != punct(Punct::LBrace) {
        Err(unexpected(ts, pos, Expected::Token(punct(Punct::LBrace))))
    } else {
        match parse_stmts(src, ts, pos + 1) {
            Err(e) => Err(e),
            Ok((body, p)) => match expect(ts, p, punct(Punct::RBrace)) {
                Err(e) => Err(e),
                Ok(end) => Ok((body, end)),
            },
        }
    }
}

/// Statements, up to a closing brace or the end of the text.
pub open spec fn parse_stmts(src: Seq<u8>, ts: Seq<Token>, pos: int) -> Parsed<List<Stmt>>
    decreases ts.len() - pos, 30nat,
{
    if kind_at(ts, pos) == punct(Punct::RBrace) || kind_at(ts, pos) == TokenKind::Eof {
        Ok((List::Nil, pos))
    } else {
        match parse_stmt(src, ts, pos) {
            Err(e) => Err(e),
            Ok((head, p)) => if !moved(ts, pos, p) {
                Err(unexpected(ts, pos, Expected::Expression))
            } else {
                match parse_stmts(src, ts, p) {
                    Err(e) => Err(e),
                    Ok((tail, end)) => Ok((List::Cons(Box::new(head), Box::new(tail)), end)),
                }
            },
        }
    }
}

/// The parameters of a function, up to and with the closing parenthesis:
/// `[mut] name : type`, with commas between them.
pub open spec fn parse_params(src: Seq<u8>, ts: Seq<Token>, pos: int) -> Parsed<List<Param>>
    decreases ts.len() - pos,
{
    let mutable = kind_at(ts, pos) == keyword(Keyword::Mut);
    let at = if mutable { pos + 1 } else { pos };
    if kind_at(ts, pos) == punct(Punct::RParen) {
        Ok((List::Nil, pos + 1))
    } else if kind_at(ts, at) != TokenKind::Ident {
        Err(unexpected(ts, at, Expected::Token(TokenKind::Ident)))
    } else if kind_at(ts, at + 1) != punct(Punct::Colon) {
        Err(unexpected(ts, at + 1, Expected::Token(punct(Punct::Colon))))
    } else {
        match parse_type(src, ts, at + 2) {
            Err(e) => Err(e),
            Ok((ty, p)) => {
                let param = Param { name: span_at(ts, at), mutable, ty };
                if !moved(ts, at + 2, p) {
                    Err(unexpected(ts, at + 2, Expected::Type))
                } else if kind_at(ts, p) == punct(Punct::Comma) {
                    match parse_params(src, ts, p + 1) {
                        Err(e) => Err(e),
                        Ok((tail, end)) => Ok((List::Cons(Box::new(param), Box::new(tail)), end)),
                    }
                } else if kind_at(ts, p) == punct(Punct::RParen) {
                    Ok((List::Cons(Box::new(param), Box::new(List::Nil)), p + 1))
                } else {
                    Err(unexpected(ts, p, Expected::Token(punct(Punct::RParen))))
                }
            },
        }
    }
}

/// The return type of a function, where one is written: `-> type`.
pub open spec fn parse_ret(src: Seq<u8>, ts: Seq<Token>, pos: int) -> Parsed<Option<Type>> {
    if kind_at(ts, pos) == TokenKind::Op(Op::Arrow) {
        match parse_type(src, ts, pos + 1) {
            Err(e) => Err(e),
            Ok((ty, end)) => Ok((Some(ty), end)),
        }
    } else {
        Ok((None, pos))
    }
}

/// A function, after the keyword: `name ( params ) [-> type] block`.
pub open spec fn parse_fn(src: Seq<u8>, ts: Seq<Token>, pos: int) -> Parsed<FnDecl> {
    if kind_at(ts, pos) != TokenKind::Ident {
        Err(unexpected(ts, pos, Expected::Token(TokenKind::Ident)))
    } else if kind_at(ts, pos + 1) != punct(Punct::LParen) {
        Err(unexpected(ts, pos + 1, Expected::Token(punct(Punct::LParen))))
    } else {
        match parse_params(src, ts, pos + 2) {
            Err(e) => Err(e),
            Ok((params, p)) => match parse_ret(src, ts, p) {
                Err(e) => Err(e),
                Ok((ret, q)) => match parse_block(src, ts, q) {
                    Err(e) => Err(e),
                    Ok((body, end)) => Ok((FnDecl { name: span_at(ts, pos), params, ret, body }, end)),
                },
            },
        }
    }
}

/// An item: a function, or a statement.
pub open spec fn parse_item(src: Seq<u8>, ts: Seq<Token>, pos: int) -> Parsed<Item> {
    if kind_at(ts, pos) == keyword(Keyword::Fn) {
        match parse_fn(src, ts, pos + 1) {
            Err(e) => Err(e),
            Ok((f, end)) => Ok((Item::Fn(f), end)),
        }
    } else {
        match parse_stmt(src, ts, pos) {
            Err(e) => Err(e),
            Ok((s, end)) => Ok((Item::Stmt(s), end)),
        }
    }
}

/// Items, up to the end of the text.
pub open spec fn parse_items(src: Seq<u8>, ts: Seq<Token>, pos: int) -> Result<
    List<Item>,
    CompileError,
>
    decreases ts.len() - pos,
{
    if kind_at(ts, pos) == TokenKind::Eof {
        Ok(List::Nil)
    } else {
        match parse_item(src, ts, pos) {
            Err(e) => Err(e),
            Ok((head, p)) => if !moved(ts, pos, p) {
                Err(unexpected(ts, pos, Expected::Expression))
            } else {
                match parse_items(src, ts, p) {
                    Err(e) => Err(e),
                    Ok(tail) => Ok(List::Cons(Box::new(head), Box::new(tail))),
                }
            },
        }
    }
}

/// A compilation unit: its items, which the tokens spell from the first to
/// the end of the text.
pub open spec fn parse_unit(src: Seq<u8>, ts: Seq<Token>) -> Result<List<Item>, CompileError> {
    parse_items(src, ts, 0)
}

} // verus!
