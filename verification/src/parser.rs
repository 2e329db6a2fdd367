//! The parser: from tokens to the syntax tree, by recursive descent, with one
//! function for each function of the module `grammar`, which says what is
//! parsed.

use vstd::prelude::*;
use crate::span::{List, Span};
use crate::token::{Keyword, Op, Punct, Token, TokenKind};
use crate::error::{CompileError, ErrorKind, Expected};
use crate::ast::{BinaryOp, Expr, FnDecl, Item, Param, Stmt, Type, UnaryOp};
use crate::ast::{expr_size, exprs_size, item_size, items_size, stmt_size, stmts_size};
use crate::ast::{expr_named, exprs_named, fn_named, item_named, items_named, stmt_named, stmts_named};
use crate::lexer::{byte_is_digit, idents_named};
use crate::grammar::{
    binary_op_at, compound_op_at, decimal_value, expect, i32_text, int_at, is_i32,
    kind_at, moved, not_int, parse_after_expr, parse_args, parse_binary, parse_binary_rest,
    parse_block, parse_expr, parse_fn, parse_item, parse_items, parse_let, parse_let_init,
    parse_params, parse_postfix_rest, parse_primary, parse_ret, parse_stmt, parse_stmts,
    parse_type, parse_unary, parse_unit, span_at, tuple_type_rest, unary_op_at, unexpected, Parsed,
};

verus! {

/// What a parsing function returns: the node, and the position after it.
pub type Step<T> = Result<(T, usize), CompileError>;

/// A step, as the grammar gives it.
pub open spec fn lift<T>(r: Step<T>) -> Parsed<T> {
    match r {
        Ok((node, end)) => Ok((node, end as int)),
        Err(e) => Err(e),
    }
}

/// The kind of the token at `pos`.
pub fn kind(ts: &Vec<Token>, pos: usize) -> (k: TokenKind)
    ensures
        k == kind_at(ts@, pos as int),
        k != TokenKind::Eof ==> pos < usize::MAX,
{
    if pos < ts.len() {
        ts[pos].kind
    } else {
        TokenKind::Eof
    }
}

/// The span of the token at `pos`.
pub fn span(ts: &Vec<Token>, pos: usize) -> (s: Span)
    ensures
        s == span_at(ts@, pos as int),
{
    if pos < ts.len() {
        ts[pos].span
    } else if ts.len() > 0 {
        let end = ts[ts.len() - 1].span.end;
        Span { start: end, end }
    } else {
        Span { start: 0, end: 0 }
    }
}

fn error_at(ts: &Vec<Token>, pos: usize, expected: Expected) -> (e: CompileError)
    ensures
        e == unexpected(ts@, pos as int, expected),
{
    CompileError {
        kind: ErrorKind::UnexpectedToken { expected, found: kind(ts, pos) },
        pos: span(ts, pos).start,
    }
}

/// A longer run of digits spells no smaller number.
pub proof fn lemma_decimal_value_grows(digits: Seq<u8>, n: int)
    requires
        0 <= n <= digits.len(),
    ensures
        decimal_value(digits.subrange(0, n)) <= decimal_value(digits),
    decreases digits.len(),
{
    if n < digits.len() {
        lemma_decimal_value_grows(digits.drop_last(), n);
        assert(digits.drop_last().subrange(0, n) =~= digits.subrange(0, n));
    } else {
        assert(digits.subrange(0, n) =~= digits);
    }
}

/// The number that the bytes of `span` spell in decimal digits, where a
/// 32-bit signed integer can hold it.
pub fn decimal(src: &[u8], span: Span) -> (r: Option<i32>)
    ensures
        r == if decimal_value(span.text(src@)) <= i32::MAX {
            Some(decimal_value(span.text(src@)) as i32)
        } else {
            None
        },
{
    let s = span.clamp(src);
    let ghost digits = s.text(src@);
    let mut value: i32 = 0;
    let mut i: usize = s.start;
    assert(digits.subrange(0, 0) =~= Seq::<u8>::empty());
    while i < s.end
        invariant
            s.within(src@.len()),
            digits == s.text(src@),
            digits == span.text(src@),
            s.start <= i <= s.end,
            value == decimal_value(digits.subrange(0, i - s.start)),
        decreases s.end - i,
    {
        let b = src[i];
        let d: i32 = if byte_is_digit(b) { (b - '0' as u8) as i32 } else { 0 };
        proof {
            let next = digits.subrange(0, i + 1 - s.start);
            assert(next.drop_last() =~= digits.subrange(0, i - s.start));
            assert(next.last() == b);
            assert(decimal_value(next) == 10 * value + d);
            lemma_decimal_value_grows(digits, i + 1 - s.start);
        }
        if value > (i32::MAX - d) / 10 {
            return None;
        }
        value = 10 * value + d;
        i = i + 1;
    }
    assert(digits.subrange(0, s.end - s.start) =~= digits);
    Some(value)
}

/// The value of the integer literal at `pos`.
pub fn literal(src: &[u8], ts: &Vec<Token>, pos: usize) -> (r: Result<i32, CompileError>)
    ensures
        r == match int_at(src@, ts@, pos as int) {
            Some(value) => Ok::<i32, CompileError>(value),
            None => Err(not_int(ts@, pos as int)),
        },
        r is Ok ==> pos < usize::MAX,
{
    if kind(ts, pos) != TokenKind::Int {
        return Err(error_at(ts, pos, Expected::Token(TokenKind::Int)));
    }
    match decimal(src, span(ts, pos)) {
        Some(value) => Ok(value),
        None => Err(error_at(ts, pos, Expected::Literal)),
    }
}

fn at_i32(src: &[u8], ts: &Vec<Token>, pos: usize) -> (r: bool)
    ensures
        r == is_i32(src@, ts@, pos as int),
        r ==> pos < usize::MAX,
{
    let word: [u8; 3] = ['i' as u8, '3' as u8, '2' as u8];
    assert(word@ =~= i32_text());
    kind(ts, pos) == TokenKind::Ident && span(ts, pos).spells(src, &word)
}

fn tuple_type_tail(src: &[u8], ts: &Vec<Token>, pos: usize, count: usize) -> (r: Step<Type>)
    requires
        count <= pos,
    ensures
        lift(r) == tuple_type_rest(src@, ts@, pos as int, count as nat),
        r matches Ok((_, end)) ==> moved(ts@, pos as int, end as int),
    decreases ts@.len() - pos,
{
    if kind(ts, pos) == TokenKind::Punct(Punct::Comma) {
        if at_i32(src, ts, pos + 1) {
            tuple_type_tail(src, ts, pos + 2, count + 1)
        } else {
            Err(error_at(ts, pos + 1, Expected::Type))
        }
    } else if kind(ts, pos) == TokenKind::Punct(Punct::RParen) {
        if count >= 2 {
            Ok((Type::Tuple { arity: count }, pos + 1))
        } else {
            Err(error_at(ts, pos, Expected::Token(TokenKind::Punct(Punct::Comma))))
        }
    } else {
        Err(error_at(ts, pos, Expected::Token(TokenKind::Punct(Punct::RParen))))
    }
}

/// Parses a type.
pub fn type_at(src: &[u8], ts: &Vec<Token>, pos: usize) -> (r: Step<Type>)
    ensures
        lift(r) == parse_type(src@, ts@, pos as int),
        r matches Ok((_, end)) ==> moved(ts@, pos as int, end as int),
{
    if at_i32(src, ts, pos) {
        Ok((Type::Int, pos + 1))
    } else if kind(ts, pos) == TokenKind::Punct(Punct::LBracket) {
        if !at_i32(src, ts, pos + 1) {
            Err(error_at(ts, pos + 1, Expected::Type))
        } else if kind(ts, pos + 2) != TokenKind::Punct(Punct::Semi) {
            Err(error_at(ts, pos + 2, Expected::Token(TokenKind::Punct(Punct::Semi))))
        } else {
            match literal(src, ts, pos + 3) {
                Err(e) => Err(e),
                Ok(len) => if kind(ts, pos + 4) != TokenKind::Punct(Punct::RBracket) {
                    Err(error_at(ts, pos + 4, Expected::Token(TokenKind::Punct(Punct::RBracket))))
                } else {
                    Ok((Type::Array { len: len as usize }, pos + 5))
                },
            }
        }
    } else if kind(ts, pos) == TokenKind::Punct(Punct::LParen) {
        if at_i32(src, ts, pos + 1) {
            tuple_type_tail(src, ts, pos + 2, 1)
        } else {
            Err(error_at(ts, pos + 1, Expected::Type))
        }
    } else {
        Err(error_at(ts, pos, Expected::Type))
    }
}

fn infix(kind: TokenKind, level: u8) -> (r: Option<BinaryOp>)
    ensures
        r == binary_op_at(kind, level as nat),
{
    match kind {
        TokenKind::Op(op) => match op {
            Op::OrOr => if level == 1 { Some(BinaryOp::Or) } else { None },
            Op::AndAnd => if level == 2 { Some(BinaryOp::And) } else { None },
            Op::EqEq => if level == 3 { Some(BinaryOp::Eq) } else { None },
            Op::Ne => if level == 3 { Some(BinaryOp::Ne) } else { None },
            Op::Lt => if level == 4 { Some(BinaryOp::Lt) } else { None },
            Op::Le => if level == 4 { Some(BinaryOp::Le) } else { None },
            Op::Gt => if level == 4 { Some(BinaryOp::Gt) } else { None },
            Op::Ge => if level == 4 { Some(BinaryOp::Ge) } else { None },
            Op::Plus => if level == 5 { Some(BinaryOp::Add) } else { None },
            Op::Minus => if level == 5 { Some(BinaryOp::Sub) } else { None },
            Op::Shl => if level == 5 { Some(BinaryOp::Shl) } else { None },
            Op::Shr => if level == 5 { Some(BinaryOp::Shr) } else { None },
            Op::Star => if level == 6 { Some(BinaryOp::Mul) } else { None },
            Op::Slash => if level == 6 { Some(BinaryOp::Div) } else { None },
            Op::Percent => if level == 6 { Some(BinaryOp::Rem) } else { None },
            _ => None,
        },
        _ => None,
    }
}

fn prefix(kind: TokenKind) -> (r: Option<UnaryOp>)
    ensures
        r == unary_op_at(kind),
{
    if kind == TokenKind::Op(Op::Minus) {
        Some(UnaryOp::Neg)
    } else if kind == TokenKind::Op(Op::Bang) {
        Some(UnaryOp::Not)
    } else {
        None
    }
}

fn compound(kind: TokenKind) -> (r: Option<BinaryOp>)
    ensures
        r == compound_op_at(kind),
{
    if kind == TokenKind::Op(Op::PlusAssign) {
        Some(BinaryOp::Add)
    } else if kind == TokenKind::Op(Op::MinusAssign) {
        Some(BinaryOp::Sub)
    } else if kind == TokenKind::Op(Op::ShlAssign) {
        Some(BinaryOp::Shl)
    } else if kind == TokenKind::Op(Op::ShrAssign) {
        Some(BinaryOp::Shr)
    } else {
        None
    }
}

/// The position after the token at `pos`, where it is of the kind `want`.
fn skip(ts: &Vec<Token>, pos: usize, want: TokenKind) -> (r: Result<usize, CompileError>)
    requires
        want != TokenKind::Eof,
    ensures
        r matches Ok(end) ==> expect(ts@, pos as int, want) == Ok::<int, CompileError>(end as int),
        r matches Err(e) ==> expect(ts@, pos as int, want) == Err::<int, CompileError>(e),
        r matches Ok(end) ==> moved(ts@, pos as int, end as int),
{
    if kind(ts, pos) == want {
        Ok(pos + 1)
    } else {
        Err(error_at(ts, pos, Expected::Token(want)))
    }
}

/// Parses an expression.
pub fn expr(src: &[u8], ts: &Vec<Token>, pos: usize) -> (r: Step<Expr>)
    ensures
        lift(r) == parse_expr(src@, ts@, pos as int),
        idents_named(src@, ts@) ==> (r matches Ok((e, _)) ==> expr_named(src@, e)),
        r matches Ok((e, end)) ==> moved(ts@, pos as int, end as int) && expr_size(e) <= end - pos,
    decreases ts@.len() - pos, 20nat,
{
    binary(src, ts, pos, 1)
}

fn binary(src: &[u8], ts: &Vec<Token>, pos: usize, level: u8) -> (r: Step<Expr>)
    requires
        1 <= level <= 7,
    ensures
        lift(r) == parse_binary(src@, ts@, pos as int, level as nat),
        idents_named(src@, ts@) ==> (r matches Ok((e, _)) ==> expr_named(src@, e)),
        r matches Ok((e, end)) ==> moved(ts@, pos as int, end as int) && expr_size(e) <= end - pos,
    decreases ts@.len() - pos, (if level <= 6 { 18 - level } else { 11 }) as nat,
{
    if level > 6 {
        unary(src, ts, pos)
    } else {
        match binary(src, ts, pos, level + 1) {
            Err(e) => Err(e),
            Ok((lhs, p)) => binary_tail(src, ts, p, level, lhs),
        }
    }
}

fn binary_tail(src: &[u8], ts: &Vec<Token>, pos: usize, level: u8, lhs: Expr) -> (r: Step<Expr>)
    requires
        1 <= level <= 6,
        pos <= ts@.len(),
    ensures
        lift(r) == parse_binary_rest(src@, ts@, pos as int, level as nat, lhs),
        idents_named(src@, ts@) && expr_named(src@, lhs) ==> (r matches Ok((e, _)) ==> expr_named(src@, e)),
        r matches Ok((e, end)) ==> pos <= end <= ts@.len() && expr_size(e) <= expr_size(lhs) + (
        end - pos),
    decreases ts@.len() - pos, 0nat,
{
    match infix(kind(ts, pos), level) {
        None => Ok((lhs, pos)),
        Some(op) => match binary(src, ts, pos + 1, level + 1) {
            Err(e) => Err(e),
            Ok((rhs, p)) => binary_tail(
                src,
                ts,
                p,
                level,
                Expr::Binary { op, lhs: Box::new(lhs), rhs: Box::new(rhs), pos: span(ts, pos).start },
            ),
        },
    }
}

fn unary(src: &[u8], ts: &Vec<Token>, pos: usize) -> (r: Step<Expr>)
    ensures
        lift(r) == parse_unary(src@, ts@, pos as int),
        idents_named(src@, ts@) ==> (r matches Ok((e, _)) ==> expr_named(src@, e)),
        r matches Ok((e, end)) ==> moved(ts@, pos as int, end as int) && expr_size(e) <= end - pos,
    decreases ts@.len() - pos, 10nat,
{
    match prefix(kind(ts, pos)) {
        Some(op) => match unary(src, ts, pos + 1) {
            Err(e) => Err(e),
            Ok((operand, p)) => Ok(
                (Expr::Unary { op, operand: Box::new(operand), pos: span(ts, pos).start }, p),
            ),
        },
        None => match primary(src, ts, pos) {
            Err(e) => Err(e),
            Ok((base, p)) => postfix_tail(src, ts, p, base),
        },
    }
}

fn postfix_tail(src: &[u8], ts: &Vec<Token>, pos: usize, base: Expr) -> (r: Step<Expr>)
    requires
        pos <= ts@.len(),
    ensures
        lift(r) == parse_postfix_rest(src@, ts@, pos as int, base),
        idents_named(src@, ts@) && expr_named(src@, base) ==> (r matches Ok((e, _)) ==> expr_named(src@, e)),
        r matches Ok((e, end)) ==> pos <= end <= ts@.len() && expr_size(e) <= expr_size(base) + (
        end - pos),
    decreases ts@.len() - pos, 0nat,
{
    if kind(ts, pos) == TokenKind::Punct(Punct::Dot) {
        match literal(src, ts, pos + 1) {
            Err(e) => Err(e),
            Ok(index) => postfix_tail(
                src,
                ts,
                pos + 2,
                Expr::Field { base: Box::new(base), index: index as usize, pos: span(ts, pos).start },
            ),
        }
    } else if kind(ts, pos) == TokenKind::Punct(Punct::LBracket) {
        match expr(src, ts, pos + 1) {
            Err(e) => Err(e),
            Ok((index, p)) => if kind(ts, p) != TokenKind::Punct(Punct::RBracket) {
                Err(error_at(ts, p, Expected::Token(TokenKind::Punct(Punct::RBracket))))
            } else {
                postfix_tail(
                    src,
                    ts,
                    p + 1,
                    Expr::Index {
                        base: Box::new(base),
                        index: Box::new(index),
                        pos: span(ts, pos).start,
                    },
                )
            },
        }
    } else {
        Ok((base, pos))
    }
}

fn primary(src: &[u8], ts: &Vec<Token>, pos: usize) -> (r: Step<Expr>)
    ensures
        lift(r) == parse_primary(src@, ts@, pos as int),
        idents_named(src@, ts@) ==> (r matches Ok((e, _)) ==> expr_named(src@, e)),
        r matches Ok((e, end)) ==> moved(ts@, pos as int, end as int) && expr_size(e) <= end - pos,
    decreases ts@.len() - pos, 5nat,
{
    reveal_with_fuel(exprs_size, 2);
    reveal_with_fuel(expr_size, 2);
    reveal_with_fuel(exprs_named, 2);
    reveal_with_fuel(expr_named, 2);
    match kind(ts, pos) {
        TokenKind::Int => match literal(src, ts, pos) {
            Ok(value) => Ok((Expr::Literal { value, pos: span(ts, pos).start }, pos + 1)),
            Err(e) => Err(e),
        },
        TokenKind::Ident => if kind(ts, pos + 1) == TokenKind::Punct(Punct::LParen) {
            match args(src, ts, pos + 2) {
                Err(e) => Err(e),
                Ok((list, p)) => Ok((Expr::Call { callee: span(ts, pos), args: list }, p)),
            }
        } else {
            Ok((Expr::Ident { name: span(ts, pos) }, pos + 1))
        },
        TokenKind::Punct(Punct::LParen) => match expr(src, ts, pos + 1) {
            Err(e) => Err(e),
            Ok((first, p)) => if kind(ts, p) == TokenKind::Punct(Punct::RParen) {
                Ok((first, p + 1))
            } else if kind(ts, p) == TokenKind::Punct(Punct::Comma) {
                match args(src, ts, p + 1) {
                    Err(e) => Err(e),
                    Ok((rest, end)) => match rest {
                        List::Nil => Err(error_at(ts, p + 1, Expected::Expression)),
                        _ => Ok(
                            (
                                Expr::Tuple {
                                    elems: List::Cons(Box::new(first), Box::new(rest)),
                                    pos: span(ts, pos).start,
                                },
                                end,
                            ),
                        ),
                    },
                }
            } else {
                Err(error_at(ts, p, Expected::Token(TokenKind::Punct(Punct::RParen))))
            },
        },
        _ => Err(error_at(ts, pos, Expected::Expression)),
    }
}

fn args(src: &[u8], ts: &Vec<Token>, pos: usize) -> (r: Step<List<Expr>>)
    ensures
        lift(r) == parse_args(src@, ts@, pos as int),
        idents_named(src@, ts@) ==> (r matches Ok((l, _)) ==> exprs_named(src@, l)),
        r matches Ok((l, end)) ==> moved(ts@, pos as int, end as int) && exprs_size(l) < end - pos,
    decreases ts@.len() - pos, 21nat,
{
    reveal_with_fuel(exprs_size, 2);
    reveal_with_fuel(exprs_named, 2);
    if kind(ts, pos) == TokenKind::Punct(Punct::RParen) {
        Ok((List::Nil, pos + 1))
    } else {
        match expr(src, ts, pos) {
            Err(e) => Err(e),
            Ok((head, p)) => if kind(ts, p) == TokenKind::Punct(Punct::Comma) {
                match args(src, ts, p + 1) {
                    Err(e) => Err(e),
                    Ok((tail, end)) => Ok((List::Cons(Box::new(head), Box::new(tail)), end)),
                }
            } else if kind(ts, p) == TokenKind::Punct(Punct::RParen) {
                Ok((List::Cons(Box::new(head), Box::new(List::Nil)), p + 1))
            } else {
                Err(error_at(ts, p, Expected::Token(TokenKind::Punct(Punct::RParen))))
            },
        }
    }
}

fn let_init(
    src: &[u8],
    ts: &Vec<Token>,
    pos: usize,
    name: Span,
    mutable: bool,
    ty: Option<Type>,
) -> (r: Step<Stmt>)
    ensures
        lift(r) == parse_let_init(src@, ts@, pos as int, name, mutable, ty),
        idents_named(src@, ts@) ==> (r matches Ok((s, _)) ==> stmt_named(src@, s)),
        r matches Ok((s, end)) ==> moved(ts@, pos as int, end as int) && stmt_size(s) <= end - pos,
    decreases ts@.len() - pos, 22nat,
{
    if kind(ts, pos) != TokenKind::Op(Op::Assign) {
        Err(error_at(ts, pos, Expected::Token(TokenKind::Op(Op::Assign))))
    } else {
        match expr(src, ts, pos + 1) {
            Err(e) => Err(e),
            Ok((init, p)) => match skip(ts, p, TokenKind::Punct(Punct::Semi)) {
                Err(e) => Err(e),
                Ok(end) => Ok((Stmt::Let { name, mutable, ty, init }, end)),
            },
        }
    }
}

fn let_stmt(src: &[u8], ts: &Vec<Token>, pos: usize) -> (r: Step<Stmt>)
    ensures
        lift(r) == parse_let(src@, ts@, pos as int),
        idents_named(src@, ts@) ==> (r matches Ok((s, _)) ==> stmt_named(src@, s)),
        r matches Ok((s, end)) ==> moved(ts@, pos as int, end as int) && stmt_size(s) <= end - pos,
    decreases ts@.len() - pos, 23nat,
{
    let mutable = kind(ts, pos) == TokenKind::Keyword(Keyword::Mut);
    let at = if mutable { pos + 1 } else { pos };
    let name = span(ts, at);
    if kind(ts, at) != TokenKind::Ident {
        Err(error_at(ts, at, Expected::Token(TokenKind::Ident)))
    } else if kind(ts, at + 1) == TokenKind::Punct(Punct::Colon) {
        match type_at(src, ts, at + 2) {
            Err(e) => Err(e),
            Ok((ty, p)) => match ty {
                Type::Array { len } => match skip(ts, p, TokenKind::Punct(Punct::Semi)) {
                    Err(e) => Err(e),
                    Ok(end) => Ok((Stmt::ArrayDecl { name, mutable, len }, end)),
                },
                _ => let_init(src, ts, p, name, mutable, Some(ty)),
            },
        }
    } else {
        let_init(src, ts, at + 1, name, mutable, None)
    }
}

fn after_expr(src: &[u8], ts: &Vec<Token>, pos: usize, target: Expr) -> (r: Step<Stmt>)
    requires
        pos <= ts@.len(),
    ensures
        lift(r) == parse_after_expr(src@, ts@, pos as int, target),
        idents_named(src@, ts@) && expr_named(src@, target) ==> (r matches Ok((s, _)) ==> stmt_named(src@, s)),
        r matches Ok((s, end)) ==> pos <= end <= ts@.len() && stmt_size(s) <= expr_size(target) + (
        end - pos),
    decreases ts@.len() - pos, 22nat,
{
    reveal_with_fuel(expr_size, 2);
    let k = kind(ts, pos);
    let op = compound(k);
    let semi = TokenKind::Punct(Punct::Semi);
    if k == TokenKind::Op(Op::Assign) || op.is_some() {
        match target {
            Expr::Ident { name } => match expr(src, ts, pos + 1) {
                Err(e) => Err(e),
                Ok((value, p)) => match skip(ts, p, semi) {
                    Err(e) => Err(e),
                    Ok(end) => match op {
                        Some(op) => Ok((Stmt::CompoundAssign { name, op, value }, end)),
                        None => Ok((Stmt::Assign { name, value }, end)),
                    },
                },
            },
            Expr::Index { base, index, pos: at } => match *base {
                Expr::Ident { name } => if k == TokenKind::Op(Op::Assign) {
                    match expr(src, ts, pos + 1) {
                        Err(e) => Err(e),
                        Ok((value, p)) => match skip(ts, p, semi) {
                            Err(e) => Err(e),
                            Ok(end) => Ok(
                                (Stmt::IndexStore { array: name, index: *index, value, pos: at }, end),
                            ),
                        },
                    }
                } else {
                    Err(error_at(ts, pos, Expected::Place))
                },
                _ => Err(error_at(ts, pos, Expected::Place)),
            },
            _ => Err(error_at(ts, pos, Expected::Place)),
        }
    } else if k == semi {
        Ok((Stmt::Expr { expr: target }, pos + 1))
    } else if k == TokenKind::Punct(Punct::RBrace) {
        Ok((Stmt::Tail { expr: target }, pos))
    } else {
        Err(error_at(ts, pos, Expected::Token(semi)))
    }
}

/// Parses a statement.
pub fn stmt(src: &[u8], ts: &Vec<Token>, pos: usize) -> (r: Step<Stmt>)
    ensures
        lift(r) == parse_stmt(src@, ts@, pos as int),
        idents_named(src@, ts@) ==> (r matches Ok((s, _)) ==> stmt_named(src@, s)),
        r matches Ok((s, end)) ==> moved(ts@, pos as int, end as int) && stmt_size(s) <= end - pos,
    decreases ts@.len() - pos, 29nat,
{
    let at = span(ts, pos).start;
    let semi = TokenKind::Punct(Punct::Semi);
    match kind(ts, pos) {
        TokenKind::Keyword(Keyword::Let) => let_stmt(src, ts, pos + 1),
        TokenKind::Keyword(Keyword::Loop) => match block(src, ts, pos + 1) {
            Err(e) => Err(e),
            Ok((body, end)) => Ok((Stmt::Loop { body, pos: at }, end)),
        },
        TokenKind::Keyword(Keyword::Break) => match skip(ts, pos + 1, semi) {
            Err(e) => Err(e),
            Ok(end) => Ok((Stmt::Break { pos: at }, end)),
        },
        TokenKind::Keyword(Keyword::Continue) => match skip(ts, pos + 1, semi) {
            Err(e) => Err(e),
            Ok(end) => Ok((Stmt::Continue { pos: at }, end)),
        },
        TokenKind::Keyword(Keyword::If) => match expr(src, ts, pos + 1) {
            Err(e) => Err(e),
            Ok((cond, p)) => match block(src, ts, p) {
                Err(e) => Err(e),
                Ok((then_body, q)) => if kind(ts, q) == TokenKind::Keyword(Keyword::Else) {
                    match block(src, ts, q + 1) {
                        Err(e) => Err(e),
                        Ok((else_body, end)) => Ok(
                            (Stmt::If { cond, then_body, else_body, pos: at }, end),
                        ),
                    }
                } else {
                    Ok((Stmt::If { cond, then_body, else_body: List::Nil, pos: at }, q))
                },
            },
        },
        TokenKind::Punct(Punct::LBrace) => match block(src, ts, pos) {
            Err(e) => Err(e),
            Ok((body, end)) => Ok((Stmt::Block { body }, end)),
        },
        _ => match expr(src, ts, pos) {
            Err(e) => Err(e),
            Ok((target, p)) => after_expr(src, ts, p, target),
        },
    }
}

fn block(src: &[u8], ts: &Vec<Token>, pos: usize) -> (r: Step<List<Stmt>>)
    ensures
        lift(r) == parse_block(src@, ts@, pos as int),
        idents_named(src@, ts@) ==> (r matches Ok((l, _)) ==> stmts_named(src@, l)),
        r matches Ok((l, end)) ==> moved(ts@, pos as int, end as int) && stmts_size(l) + 2 <= end
            - pos,
    decreases ts@.len() - pos, 28nat,
{
    if kind(ts, pos) != TokenKind::Punct(Punct::LBrace) {
        Err(error_at(ts, pos, Expected::Token(TokenKind::Punct(Punct::LBrace))))
    } else {
        match stmts(src, ts, pos + 1) {
            Err(e) => Err(e),
            Ok((body, p)) => match skip(ts, p, TokenKind::Punct(Punct::RBrace)) {
                Err(e) => Err(e),
                Ok(end) => Ok((body, end)),
            },
        }
    }
}

fn stmts(src: &[u8], ts: &Vec<Token>, pos: usize) -> (r: Step<List<Stmt>>)
    requires
        pos <= ts@.len(),
    ensures
        lift(r) == parse_stmts(src@, ts@, pos as int),
        idents_named(src@, ts@) ==> (r matches Ok((l, _)) ==> stmts_named(src@, l)),
        r matches Ok((l, end)) ==> pos <= end <= ts@.len() && stmts_size(l) <= end - pos,
    decreases ts@.len() - pos, 30nat,
{
    let k = kind(ts, pos);
    if k == TokenKind::Punct(Punct::RBrace) || k == TokenKind::Eof {
        Ok((List::Nil, pos))
    } else {
        match stmt(src, ts, pos) {
            Err(e) => Err(e),
            Ok((head, p)) => match stmts(src, ts, p) {
                Err(e) => Err(e),
                Ok((tail, end)) => Ok((List::Cons(Box::new(head), Box::new(tail)), end)),
            },
        }
    }
}

fn params(src: &[u8], ts: &Vec<Token>, pos: usize) -> (r: Step<List<Param>>)
    ensures
        lift(r) == parse_params(src@, ts@, pos as int),
        r matches Ok((l, end)) ==> moved(ts@, pos as int, end as int) && l.len() < end - pos,
    decreases ts@.len() - pos,
{
    assert(List::<Param>::Nil.len() == 0);
    let mutable = kind(ts, pos) == TokenKind::Keyword(Keyword::Mut);
    let at = if mutable { pos + 1 } else { pos };
    if kind(ts, pos) == TokenKind::Punct(Punct::RParen) {
        Ok((List::Nil, pos + 1))
    } else if kind(ts, at) != TokenKind::Ident {
        Err(error_at(ts, at, Expected::Token(TokenKind::Ident)))
    } else if kind(ts, at + 1) != TokenKind::Punct(Punct::Colon) {
        Err(error_at(ts, at + 1, Expected::Token(TokenKind::Punct(Punct::Colon))))
    } else {
        match type_at(src, ts, at + 2) {
            Err(e) => Err(e),
            Ok((ty, p)) => {
                let param = Param { name: span(ts, at), mutable, ty };
                if kind(ts, p) == TokenKind::Punct(Punct::Comma) {
                    match params(src, ts, p + 1) {
                        Err(e) => Err(e),
                        Ok((tail, end)) => Ok((List::Cons(Box::new(param), Box::new(tail)), end)),
                    }
                } else if kind(ts, p) == TokenKind::Punct(Punct::RParen) {
                    Ok((List::Cons(Box::new(param), Box::new(List::Nil)), p + 1))
                } else {
                    Err(error_at(ts, p, Expected::Token(TokenKind::Punct(Punct::RParen))))
                }
            },
        }
    }
}

fn ret_type(src: &[u8], ts: &Vec<Token>, pos: usize) -> (r: Step<Option<Type>>)
    requires
        pos <= ts@.len(),
    ensures
        lift(r) == parse_ret(src@, ts@, pos as int),
        r matches Ok((_, end)) ==> pos <= end <= ts@.len(),
{
    if kind(ts, pos) == TokenKind::Op(Op::Arrow) {
        match type_at(src, ts, pos + 1) {
            Err(e) => Err(e),
            Ok((ty, end)) => Ok((Some(ty), end)),
        }
    } else {
        Ok((None, pos))
    }
}

fn function(src: &[u8], ts: &Vec<Token>, pos: usize) -> (r: Step<FnDecl>)
    ensures
        lift(r) == parse_fn(src@, ts@, pos as int),
        idents_named(src@, ts@) ==> (r matches Ok((f, _)) ==> fn_named(src@, f)),
        r matches Ok((f, end)) ==> moved(ts@, pos as int, end as int) && f.params.len()
            + stmts_size(f.body) < end - pos,
{
    if kind(ts, pos) != TokenKind::Ident {
        Err(error_at(ts, pos, Expected::Token(TokenKind::Ident)))
    } else if kind(ts, pos + 1) != TokenKind::Punct(Punct::LParen) {
        Err(error_at(ts, pos + 1, Expected::Token(TokenKind::Punct(Punct::LParen))))
    } else {
        match params(src, ts, pos + 2) {
            Err(e) => Err(e),
            Ok((list, p)) => match ret_type(src, ts, p) {
                Err(e) => Err(e),
                Ok((ret, q)) => match block(src, ts, q) {
                    Err(e) => Err(e),
                    Ok((body, end)) => Ok(
                        (FnDecl { name: span(ts, pos), params: list, ret, body }, end),
                    ),
                },
            },
        }
    }
}

fn item(src: &[u8], ts: &Vec<Token>, pos: usize) -> (r: Step<Item>)
    ensures
        lift(r) == parse_item(src@, ts@, pos as int),
        idents_named(src@, ts@) ==> (r matches Ok((it, _)) ==> item_named(src@, it)),
        r matches Ok((it, end)) ==> moved(ts@, pos as int, end as int) && item_size(it) <= end - pos,
{
    if kind(ts, pos) == TokenKind::Keyword(Keyword::Fn) {
        match function(src, ts, pos + 1) {
            Err(e) => Err(e),
            Ok((f, end)) => Ok((Item::Fn(f), end)),
        }
    } else {
        match stmt(src, ts, pos) {
            Err(e) => Err(e),
            Ok((s, end)) => Ok((Item::Stmt(s), end)),
        }
    }
}

fn items(src: &[u8], ts: &Vec<Token>, pos: usize) -> (r: Result<List<Item>, CompileError>)
    requires
        pos <= ts@.len(),
    ensures
        r == parse_items(src@, ts@, pos as int),
        idents_named(src@, ts@) ==> (r matches Ok(l) ==> items_named(src@, l)),
        r matches Ok(l) ==> items_size(l) <= ts@.len() - pos,
    decreases ts@.len() - pos,
{
    if kind(ts, pos) == TokenKind::Eof {
        Ok(List::Nil)
    } else {
        match item(src, ts, pos) {
            Err(e) => Err(e),
            Ok((head, p)) => match items(src, ts, p) {
                Err(e) => Err(e),
                Ok(tail) => Ok(List::Cons(Box::new(head), Box::new(tail))),
            },
        }
    }
}

/// Parses a compilation unit: the tokens of `src`, as `tokenize` gives them,
/// into its items. Fails at the first token that the grammar has no use for.
/// The tree has no more nodes than there are tokens.
pub fn parse(src: &[u8], tokens: &Vec<Token>) -> (r: Result<List<Item>, CompileError>)
    ensures
        r == parse_unit(src@, tokens@),
        idents_named(src@, tokens@) ==> (r matches Ok(unit) ==> items_named(src@, unit)),
        r matches Ok(unit) ==> items_size(unit) <= tokens@.len(),
{
    items(src, tokens, 0)
}

} // verus!
