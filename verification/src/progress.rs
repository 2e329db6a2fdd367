//! Every successful reading of the grammar ends further on than it started,
//! inside the tokens: the tests for this that the grammar makes before it
//! reads on never fail.

use vstd::prelude::*;
use crate::span::Span;
use crate::token::{Keyword, Punct, Token, TokenKind};
use crate::ast::{Expr, Type};
use crate::grammar::{
    binary_op_at, int_at, is_i32, keyword, kind_at, moved, parse_after_expr,
    parse_args, parse_binary, parse_binary_rest, parse_block, parse_expr, parse_fn, parse_item,
    parse_let, parse_let_init, parse_params, parse_postfix_rest, parse_primary, parse_ret,
    parse_stmt, parse_stmts, parse_type, parse_unary, punct, span_at, tiers, tuple_type_rest,
    unary_op_at,
};

verus! {

/// A successful reading of the rest of a tuple type ends further on than it starts, inside the
/// tokens.
pub proof fn lemma_tuple_type_rest_moves(src: Seq<u8>, ts: Seq<Token>, pos: int, count: nat)
    ensures
        tuple_type_rest(src, ts, pos, count) matches Ok((_, end)) ==> moved(ts, pos, end),
    decreases ts.len() - pos,
{
    if kind_at(ts, pos) == punct(Punct::Comma) && is_i32(src, ts, pos + 1) {
        lemma_tuple_type_rest_moves(src, ts, pos + 2, count + 1);
    }
}

/// A successful reading of a type ends further on than it starts, inside the
/// tokens.
pub proof fn lemma_parse_type_moves(src: Seq<u8>, ts: Seq<Token>, pos: int)
    ensures
        parse_type(src, ts, pos) matches Ok((_, end)) ==> moved(ts, pos, end),
{
    lemma_tuple_type_rest_moves(src, ts, pos + 2, 1);
}

/// A successful reading of an expression ends further on than it starts, inside the
/// tokens.
pub proof fn lemma_parse_expr_moves(src: Seq<u8>, ts: Seq<Token>, pos: int)
    ensures
        parse_expr(src, ts, pos) matches Ok((_, end)) ==> moved(ts, pos, end),
    decreases ts.len() - pos, 20nat,
{
    lemma_parse_binary_moves(src, ts, pos, 1);
}

/// A successful reading of an expression of a tier ends further on than it starts, inside the
/// tokens.
pub proof fn lemma_parse_binary_moves(src: Seq<u8>, ts: Seq<Token>, pos: int, level: nat)
    ensures
        parse_binary(src, ts, pos, level) matches Ok((_, end)) ==> moved(ts, pos, end),
    decreases ts.len() - pos, (if level <= 6 { 18 - level } else { 11 }) as nat,
{
    if level > tiers() {
        lemma_parse_unary_moves(src, ts, pos);
    } else {
        lemma_parse_binary_moves(src, ts, pos, level + 1);
        match parse_binary(src, ts, pos, level + 1) {
            Ok((lhs, p)) => {
                lemma_parse_binary_rest_stays(src, ts, p, level, lhs);
            },
            Err(_) => {},
        }
    }
}

/// A successful reading of what follows an operand ends no earlier than it starts, inside the
/// tokens.
pub proof fn lemma_parse_binary_rest_stays(
    src: Seq<u8>,
    ts: Seq<Token>,
    pos: int,
    level: nat,
    lhs: Expr,
)
    requires
        pos <= ts.len(),
    ensures
        parse_binary_rest(src, ts, pos, level, lhs) matches Ok((_, end)) ==> pos <= end <= ts.len(),
    decreases ts.len() - pos, 0nat,
{
    match binary_op_at(kind_at(ts, pos), level) {
        None => {},
        Some(op) => {
            lemma_parse_binary_moves(src, ts, pos + 1, level + 1);
            match parse_binary(src, ts, pos + 1, level + 1) {
                Ok((rhs, p)) => {
                    lemma_parse_binary_rest_stays(
                        src,
                        ts,
                        p,
                        level,
                        Expr::Binary {
                            op,
                            lhs: Box::new(lhs),
                            rhs: Box::new(rhs),
                            pos: span_at(ts, pos).start,
                        },
                    );
                },
                Err(_) => {},
            }
        },
    }
}

/// A successful reading of a prefix expression ends further on than it starts, inside the
/// tokens.
pub proof fn lemma_parse_unary_moves(src: Seq<u8>, ts: Seq<Token>, pos: int)
    ensures
        parse_unary(src, ts, pos) matches Ok((_, end)) ==> moved(ts, pos, end),
    decreases ts.len() - pos, 10nat,
{
    match unary_op_at(kind_at(ts, pos)) {
        Some(_) => {
            lemma_parse_unary_moves(src, ts, pos + 1);
        },
        None => {
            lemma_parse_primary_moves(src, ts, pos);
            match parse_primary(src, ts, pos) {
                Ok((base, p)) => {
                    lemma_parse_postfix_rest_stays(src, ts, p, base);
                },
                Err(_) => {},
            }
        },
    }
}

/// A successful reading of what follows a primary expression ends no earlier than it starts, inside the
/// tokens.
pub proof fn lemma_parse_postfix_rest_stays(src: Seq<u8>, ts: Seq<Token>, pos: int, base: Expr)
    requires
        pos <= ts.len(),
    ensures
        parse_postfix_rest(src, ts, pos, base) matches Ok((_, end)) ==> pos <= end <= ts.len(),
    decreases ts.len() - pos, 0nat,
{
    if kind_at(ts, pos) == punct(Punct::Dot) {
        match int_at(src, ts, pos + 1) {
            None => {},
            Some(index) => {
                lemma_parse_postfix_rest_stays(
                    src,
                    ts,
                    pos + 2,
                    Expr::Field {
                        base: Box::new(base),
                        index: index as usize,
                        pos: span_at(ts, pos).start,
                    },
                );
            },
        }
    } else if kind_at(ts, pos) == punct(Punct::LBracket) {
        lemma_parse_expr_moves(src, ts, pos + 1);
        match parse_expr(src, ts, pos + 1) {
            Ok((index, p)) => {
                if kind_at(ts, p) == punct(Punct::RBracket) {
                    lemma_parse_postfix_rest_stays(
                        src,
                        ts,
                        p + 1,
                        Expr::Index {
                            base: Box::new(base),
                            index: Box::new(index),
                            pos: span_at(ts, pos).start,
                        },
                    );
                }
            },
            Err(_) => {},
        }
    }
}

/// A successful reading of a primary expression ends further on than it starts, inside the
/// tokens.
pub proof fn lemma_parse_primary_moves(src: Seq<u8>, ts: Seq<Token>, pos: int)
    ensures
        parse_primary(src, ts, pos) matches Ok((_, end)) ==> moved(ts, pos, end),
    decreases ts.len() - pos, 5nat,
{
    match kind_at(ts, pos) {
        TokenKind::Ident => {
            if kind_at(ts, pos + 1) == punct(Punct::LParen) {
                lemma_parse_args_moves(src, ts, pos + 2);
            }
        },
        TokenKind::Punct(Punct::LParen) => {
            lemma_parse_expr_moves(src, ts, pos + 1);
            match parse_expr(src, ts, pos + 1) {
                Ok((_, p)) => {
                    if kind_at(ts, p) == punct(Punct::Comma) {
                        lemma_parse_args_moves(src, ts, p + 1);
                    }
                },
                Err(_) => {},
            }
        },
        _ => {},
    }
}

/// A successful reading of a list of arguments ends further on than it starts, inside the
/// tokens.
pub proof fn lemma_parse_args_moves(src: Seq<u8>, ts: Seq<Token>, pos: int)
    ensures
        parse_args(src, ts, pos) matches Ok((_, end)) ==> moved(ts, pos, end),
    decreases ts.len() - pos, 21nat,
{
    if kind_at(ts, pos) != punct(Punct::RParen) {
        lemma_parse_expr_moves(src, ts, pos);
        match parse_expr(src, ts, pos) {
            Ok((_, p)) => {
                if kind_at(ts, p) == punct(Punct::Comma) {
                    lemma_parse_args_moves(src, ts, p + 1);
                }
            },
            Err(_) => {},
        }
    }
}

/// A successful reading of the end of a `let` ends further on than it starts, inside the
/// tokens.
pub proof fn lemma_parse_let_init_moves(
    src: Seq<u8>,
    ts: Seq<Token>,
    pos: int,
    name: Span,
    mutable: bool,
    ty: Option<Type>,
)
    ensures
        parse_let_init(src, ts, pos, name, mutable, ty) matches Ok((_, end)) ==> moved(ts, pos, end),
{
    lemma_parse_expr_moves(src, ts, pos + 1);
}

/// A successful reading of a `let` ends further on than it starts, inside the
/// tokens.
pub proof fn lemma_parse_let_moves(src: Seq<u8>, ts: Seq<Token>, pos: int)
    ensures
        parse_let(src, ts, pos) matches Ok((_, end)) ==> moved(ts, pos, end),
{
    let mutable = kind_at(ts, pos) == keyword(Keyword::Mut);
    let at = if mutable { pos + 1 } else { pos };
    lemma_parse_type_moves(src, ts, at + 2);
    lemma_parse_let_init_moves(src, ts, at + 1, span_at(ts, at), mutable, None);
    match parse_type(src, ts, at + 2) {
        Ok((ty, p)) => {
            lemma_parse_let_init_moves(src, ts, p, span_at(ts, at), mutable, Some(ty));
        },
        Err(_) => {},
    }
}

/// A successful reading of the end of a statement that began with an expression ends no earlier than it starts, inside the
/// tokens.
pub proof fn lemma_parse_after_expr_stays(src: Seq<u8>, ts: Seq<Token>, pos: int, target: Expr)
    requires
        pos <= ts.len(),
    ensures
        parse_after_expr(src, ts, pos, target) matches Ok((_, end)) ==> pos <= end <= ts.len(),
{
    lemma_parse_expr_moves(src, ts, pos + 1);
}

/// A successful reading of a statement ends further on than it starts, inside the
/// tokens.
pub proof fn lemma_parse_stmt_moves(src: Seq<u8>, ts: Seq<Token>, pos: int)
    ensures
        parse_stmt(src, ts, pos) matches Ok((_, end)) ==> moved(ts, pos, end),
    decreases ts.len() - pos, 29nat,
{
    match kind_at(ts, pos) {
        TokenKind::Keyword(Keyword::Let) => {
            lemma_parse_let_moves(src, ts, pos + 1);
        },
        TokenKind::Keyword(Keyword::Loop) => {
            lemma_parse_block_moves(src, ts, pos + 1);
        },
        TokenKind::Keyword(Keyword::Break) => {},
        TokenKind::Keyword(Keyword::Continue) => {},
        TokenKind::Keyword(Keyword::If) => {
            lemma_parse_expr_moves(src, ts, pos + 1);
            match parse_expr(src, ts, pos + 1) {
                Ok((_, p)) => {
                    lemma_parse_block_moves(src, ts, p);
                    match parse_block(src, ts, p) {
                        Ok((_, q)) => {
                            if kind_at(ts, q) == keyword(Keyword::Else) {
                                lemma_parse_block_moves(src, ts, q + 1);
                            }
                        },
                        Err(_) => {},
                    }
                },
                Err(_) => {},
            }
        },
        TokenKind::Punct(Punct::LBrace) => {
            lemma_parse_block_moves(src, ts, pos);
        },
        _ => {
            lemma_parse_expr_moves(src, ts, pos);
            match parse_expr(src, ts, pos) {
                Ok((target, p)) => {
                    lemma_parse_after_expr_stays(src, ts, p, target);
                },
                Err(_) => {},
            }
        },
    }
}

/// A successful reading of a block ends further on than it starts, inside the
/// tokens.
pub proof fn lemma_parse_block_moves(src: Seq<u8>, ts: Seq<Token>, pos: int)
    ensures
        parse_block(src, ts, pos) matches Ok((_, end)) ==> moved(ts, pos, end),
    decreases ts.len() - pos, 28nat,
{
    if kind_at(ts, pos) == punct(Punct::LBrace) {
        lemma_parse_stmts_stays(src, ts, pos + 1);
    }
}

/// A successful reading of a list of statements ends no earlier than it starts, inside the
/// tokens.
pub proof fn lemma_parse_stmts_stays(src: Seq<u8>, ts: Seq<Token>, pos: int)
    requires
        pos <= ts.len(),
    ensures
        parse_stmts(src, ts, pos) matches Ok((_, end)) ==> pos <= end <= ts.len(),
    decreases ts.len() - pos, 30nat,
{
    if !(kind_at(ts, pos) == punct(Punct::RBrace) || kind_at(ts, pos) == TokenKind::Eof) {
        lemma_parse_stmt_moves(src, ts, pos);
        match parse_stmt(src, ts, pos) {
            Ok((_, p)) => {
                lemma_parse_stmts_stays(src, ts, p);
            },
            Err(_) => {},
        }
    }
}

/// A successful reading of a list of parameters ends further on than it starts, inside the
/// tokens.
pub proof fn lemma_parse_params_moves(src: Seq<u8>, ts: Seq<Token>, pos: int)
    ensures
        parse_params(src, ts, pos) matches Ok((_, end)) ==> moved(ts, pos, end),
    decreases ts.len() - pos,
{
    let mutable = kind_at(ts, pos) == keyword(Keyword::Mut);
    let at = if mutable { pos + 1 } else { pos };
    if kind_at(ts, pos) != punct(Punct::RParen) && kind_at(ts, at) == TokenKind::Ident && kind_at(
        ts,
        at + 1,
    ) == punct(Punct::Colon) {
        lemma_parse_type_moves(src, ts, at + 2);
        match parse_type(src, ts, at + 2) {
            Ok((_, p)) => {
                if kind_at(ts, p) == punct(Punct::Comma) {
                    lemma_parse_params_moves(src, ts, p + 1);
                }
            },
            Err(_) => {},
        }
    }
}

/// A successful reading of a function, and of an item, ends further on than it starts, inside the
/// tokens.
pub proof fn lemma_parse_item_moves(src: Seq<u8>, ts: Seq<Token>, pos: int)
    ensures
        parse_fn(src, ts, pos) matches Ok((_, end)) ==> moved(ts, pos, end),
        parse_item(src, ts, pos) matches Ok((_, end)) ==> moved(ts, pos, end),
{
    lemma_parse_stmt_moves(src, ts, pos);
    lemma_parse_params_moves(src, ts, pos + 2);
    lemma_parse_params_moves(src, ts, pos + 3);
    match parse_params(src, ts, pos + 2) {
        Ok((_, p)) => {
            lemma_parse_type_moves(src, ts, p + 1);
            match parse_ret(src, ts, p) {
                Ok((_, q)) => {
                    lemma_parse_block_moves(src, ts, q);
                },
                Err(_) => {},
            }
        },
        Err(_) => {},
    }
    match parse_params(src, ts, pos + 3) {
        Ok((_, p)) => {
            lemma_parse_type_moves(src, ts, p + 1);
            match parse_ret(src, ts, p) {
                Ok((_, q)) => {
                    lemma_parse_block_moves(src, ts, q);
                },
                Err(_) => {},
            }
        },
        Err(_) => {},
    }
}

} // verus!
