//! The syntax tree.
//!
//! Names are spans of the source text. Every node that a diagnostic can point
//! at carries the byte offset of its first token or of its operator.

use vstd::prelude::*;
use crate::span::{List, Span};
use crate::lexer::is_name;

verus! {

/// The prefix operators.
#[derive(Clone, Copy, Debug, PartialEq, Eq, Structural)]
pub enum UnaryOp {
    Neg,
    Not,
}

/// The infix operators.
#[derive(Clone, Copy, Debug, PartialEq, Eq, Structural)]
pub enum BinaryOp {
    Or,
    And,
    Eq,
    Ne,
    Lt,
    Le,
    Gt,
    Ge,
    Add,
    Sub,
    Shl,
    Shr,
    Mul,
    Div,
    Rem,
}

/// The types: the one primitive, a 32-bit signed integer, and the two
/// composites over it.
#[derive(Clone, Copy, Debug, PartialEq, Eq, Structural)]
pub enum Type {
    Int,
    Array { len: usize },
    Tuple { arity: usize },
}

/// An expression.
#[derive(Debug, PartialEq, Eq)]
#[allow(inconsistent_fields)]
pub enum Expr {
    Literal { value: i32, pos: usize },
    Ident { name: Span },
    Unary { op: UnaryOp, operand: Box<Expr>, pos: usize },
    Binary { op: BinaryOp, lhs: Box<Expr>, rhs: Box<Expr>, pos: usize },
    Call { callee: Span, args: List<Expr> },
    Tuple { elems: List<Expr>, pos: usize },
    /// Tuple access, `base.index`.
    Field { base: Box<Expr>, index: usize, pos: usize },
    /// An indexed load, `base[index]`.
    Index { base: Box<Expr>, index: Box<Expr>, pos: usize },
}

/// A statement.
#[derive(Debug, PartialEq, Eq)]
#[allow(inconsistent_fields)]
pub enum Stmt {
    Let { name: Span, mutable: bool, ty: Option<Type>, init: Expr },
    /// `let name: [i32; len];`
    ArrayDecl { name: Span, mutable: bool, len: usize },
    Assign { name: Span, value: Expr },
    CompoundAssign { name: Span, op: BinaryOp, value: Expr },
    /// An indexed store, `array[index] = value;`
    IndexStore { array: Span, index: Expr, value: Expr, pos: usize },
    /// An expression whose value is dropped.
    Expr { expr: Expr },
    /// The expression that ends a block without a semicolon: the block's value.
    Tail { expr: Expr },
    Block { body: List<Stmt> },
    Loop { body: List<Stmt>, pos: usize },
    Break { pos: usize },
    Continue { pos: usize },
    If { cond: Expr, then_body: List<Stmt>, else_body: List<Stmt>, pos: usize },
}

/// A parameter of a function.
#[derive(Clone, Copy, Debug, PartialEq, Eq, Structural)]
pub struct Param {
    pub name: Span,
    pub mutable: bool,
    pub ty: Type,
}

/// The declaration of a function.
#[derive(Debug, PartialEq, Eq)]
pub struct FnDecl {
    pub name: Span,
    pub params: List<Param>,
    pub ret: Option<Type>,
    pub body: List<Stmt>,
}

/// What stands at the top level of a compilation unit.
#[derive(Debug, PartialEq, Eq)]
pub enum Item {
    Fn(FnDecl),
    Stmt(Stmt),
}

impl Expr {
    /// The byte offset that a diagnostic about the expression points at.
    pub open spec fn pos_of(self) -> usize {
        match self {
            Expr::Literal { pos, .. } => pos,
            Expr::Ident { name } => name.start,
            Expr::Unary { pos, .. } => pos,
            Expr::Binary { pos, .. } => pos,
            Expr::Call { callee, .. } => callee.start,
            Expr::Tuple { pos, .. } => pos,
            Expr::Field { pos, .. } => pos,
            Expr::Index { pos, .. } => pos,
        }
    }

    /// The byte offset that a diagnostic about the expression points at.
    pub fn position(&self) -> (p: usize)
        ensures
            p == self.pos_of(),
    {
        match self {
            Expr::Literal { pos, .. } => *pos,
            Expr::Ident { name } => name.start,
            Expr::Unary { pos, .. } => *pos,
            Expr::Binary { pos, .. } => *pos,
            Expr::Call { callee, .. } => callee.start,
            Expr::Tuple { pos, .. } => *pos,
            Expr::Field { pos, .. } => *pos,
            Expr::Index { pos, .. } => *pos,
        }
    }
}

/// The number of nodes of an expression.
pub open spec fn expr_size(e: Expr) -> nat
    decreases e,
{
    match e {
        Expr::Literal { .. } => 1,
        Expr::Ident { .. } => 1,
        Expr::Unary { operand, .. } => 1 + expr_size(*operand),
        Expr::Binary { lhs, rhs, .. } => 1 + expr_size(*lhs) + expr_size(*rhs),
        Expr::Call { args, .. } => 1 + exprs_size(args),
        Expr::Tuple { elems, .. } => 1 + exprs_size(elems),
        Expr::Field { base, .. } => 1 + expr_size(*base),
        Expr::Index { base, index, .. } => 1 + expr_size(*base) + expr_size(*index),
    }
}

/// The number of nodes of a list of expressions.
pub open spec fn exprs_size(l: List<Expr>) -> nat
    decreases l,
{
    match l {
        List::Nil => 0,
        List::Cons(head, tail) => expr_size(*head) + exprs_size(*tail),
    }
}

/// The size of a statement: its nodes, a loop and a conditional counted three
/// times. No statement needs more registers, or more labels, than its size,
/// and none is written with fewer tokens.
pub open spec fn stmt_size(s: Stmt) -> nat
    decreases s,
{
    match s {
        Stmt::Let { init, .. } => 1 + expr_size(init),
        Stmt::ArrayDecl { .. } => 1,
        Stmt::Assign { value, .. } => 1 + expr_size(value),
        Stmt::CompoundAssign { value, .. } => 1 + expr_size(value),
        Stmt::IndexStore { index, value, .. } => 1 + expr_size(index) + expr_size(value),
        Stmt::Expr { expr } => expr_size(expr),
        Stmt::Tail { expr } => expr_size(expr),
        Stmt::Block { body } => 1 + stmts_size(body),
        Stmt::Loop { body, .. } => 3 + stmts_size(body),
        Stmt::Break { .. } => 1,
        Stmt::Continue { .. } => 1,
        Stmt::If { cond, then_body, else_body, .. } => 3 + expr_size(cond) + stmts_size(then_body)
            + stmts_size(else_body),
    }
}

/// The size of a list of statements: the sum of their sizes.
pub open spec fn stmts_size(l: List<Stmt>) -> nat
    decreases l,
{
    match l {
        List::Nil => 0,
        List::Cons(head, tail) => stmt_size(*head) + stmts_size(*tail),
    }
}

/// The size of an item: that of the statement, or one for the function, one
/// for each parameter, and the size of the body.
pub open spec fn item_size(item: Item) -> nat {
    match item {
        Item::Fn(f) => 1 + f.params.len() + stmts_size(f.body),
        Item::Stmt(s) => stmt_size(s),
    }
}

/// The size of a list of items: the sum of their sizes.
pub open spec fn items_size(l: List<Item>) -> nat
    decreases l,
{
    match l {
        List::Nil => 0,
        List::Cons(head, tail) => item_size(*head) + items_size(*tail),
    }
}

/// The callees of the expression are identifiers of `src`.
pub open spec fn expr_named(src: Seq<u8>, e: Expr) -> bool
    decreases e,
{
    match e {
        Expr::Literal { .. } => true,
        Expr::Ident { .. } => true,
        Expr::Unary { operand, .. } => expr_named(src, *operand),
        Expr::Binary { lhs, rhs, .. } => expr_named(src, *lhs) && expr_named(src, *rhs),
        Expr::Call { callee, args } => is_name(src, callee) && exprs_named(src, args),
        Expr::Tuple { elems, .. } => exprs_named(src, elems),
        Expr::Field { base, .. } => expr_named(src, *base),
        Expr::Index { base, index, .. } => expr_named(src, *base) && expr_named(src, *index),
    }
}

/// The callees of the expressions are identifiers of `src`.
pub open spec fn exprs_named(src: Seq<u8>, l: List<Expr>) -> bool
    decreases l,
{
    match l {
        List::Nil => true,
        List::Cons(head, tail) => expr_named(src, *head) && exprs_named(src, *tail),
    }
}

/// The callees of the statement are identifiers of `src`.
pub open spec fn stmt_named(src: Seq<u8>, s: Stmt) -> bool
    decreases s,
{
    match s {
        Stmt::Let { init, .. } => expr_named(src, init),
        Stmt::ArrayDecl { .. } => true,
        Stmt::Assign { value, .. } => expr_named(src, value),
        Stmt::CompoundAssign { value, .. } => expr_named(src, value),
        Stmt::IndexStore { index, value, .. } => expr_named(src, index) && expr_named(src, value),
        Stmt::Expr { expr } => expr_named(src, expr),
        Stmt::Tail { expr } => expr_named(src, expr),
        Stmt::Block { body } => stmts_named(src, body),
        Stmt::Loop { body, .. } => stmts_named(src, body),
        Stmt::Break { .. } => true,
        Stmt::Continue { .. } => true,
        Stmt::If { cond, then_body, else_body, .. } => expr_named(src, cond) && stmts_named(
            src,
            then_body,
        ) && stmts_named(src, else_body),
    }
}

/// The callees of the statements are identifiers of `src`.
pub open spec fn stmts_named(src: Seq<u8>, l: List<Stmt>) -> bool
    decreases l,
{
    match l {
        List::Nil => true,
        List::Cons(head, tail) => stmt_named(src, *head) && stmts_named(src, *tail),
    }
}

/// The name of the function and the callees of its body are identifiers of
/// `src`.
pub open spec fn fn_named(src: Seq<u8>, f: FnDecl) -> bool {
    is_name(src, f.name) && stmts_named(src, f.body)
}

/// The names of functions and callees in the item are identifiers of `src`.
pub open spec fn item_named(src: Seq<u8>, item: Item) -> bool {
    match item {
        Item::Fn(f) => fn_named(src, f),
        Item::Stmt(s) => stmt_named(src, s),
    }
}

/// The names of the unit's functions, and all callees in it, are identifiers
/// of `src`.
pub open spec fn items_named(src: Seq<u8>, l: List<Item>) -> bool
    decreases l,
{
    match l {
        List::Nil => true,
        List::Cons(head, tail) => item_named(src, *head) && items_named(src, *tail),
    }
}

} // verus!
