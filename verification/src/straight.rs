//! Straight-line programs keep their meaning: what a run of bindings and
//! assignments does to the values of the names is what the instructions of
//! the run do to the registers of the names.

use vstd::prelude::*;
use crate::span::{List, Span};
use crate::ast::{expr_size, stmt_size, stmts_size, BinaryOp, Expr, Stmt, Type};
use crate::ir::{Instr, Reg};
use crate::scope::{lemma_lookup, lookup, Symbol};
use crate::lowering::{
    lower_assign, lower_compound, lower_expr, lower_let, lower_stmt, lower_stmts, State,
};
use crate::machine::{apply, apply_unary, MachineState};
use crate::meaning::{
    agree_below, binds, computes, in_sight_below, law_assign_value, law_compound_value,
    law_expression_value, law_let_value, lemma_lookup_by_name, lemma_steps_then, steps, value_of,
};

verus! {

/// What a name stands for: an integer, which an assignment can change where
/// the name was bound with `mut`.
pub struct Binding {
    pub value: i32,
    pub mutable: bool,
}

/// The names in sight, by their spelling, with what they stand for.
pub type Env = Map<Seq<u8>, Binding>;

/// The value of an expression of literals, names and operators; `None`
/// where a name is not bound, a divisor is zero or a shift count out of
/// range, and for every other expression.
pub open spec fn eval(src: Seq<u8>, e: Expr, env: Env) -> Option<i32>
    decreases e,
{
    match e {
        Expr::Literal { value, .. } => Some(value),
        Expr::Ident { name } => if env.dom().contains(name.text(src)) {
            Some(env[name.text(src)].value)
        } else {
            None
        },
        Expr::Unary { op, operand, .. } => match eval(src, *operand, env) {
            Some(a) => Some(apply_unary(op, a)),
            None => None,
        },
        Expr::Binary { op, lhs, rhs, .. } => match (eval(src, *lhs, env), eval(src, *rhs, env)) {
            (Some(a), Some(b)) => apply(op, a, b),
            _ => None,
        },
        _ => None,
    }
}

/// What a statement does to the names: a `let` of an integer binds its name,
/// an assignment to a name bound with `mut` gives it the value of the
/// expression, a compound assignment the result of the operator, and an
/// expression that has a value changes nothing. `None` for an assignment to
/// a name that is not bound or bound without `mut`, for an expression
/// without a value, and for every other statement.
pub open spec fn run_stmt(src: Seq<u8>, s: Stmt, env: Env) -> Option<Env> {
    match s {
        Stmt::Let { name, mutable, ty, init } => match eval(src, init, env) {
            Some(v) => if ty is None || ty == Some(Type::Int) {
                Some(env.insert(name.text(src), Binding { value: v, mutable }))
            } else {
                None
            },
            None => None,
        },
        Stmt::Assign { name, value } => match eval(src, value, env) {
            Some(v) => if env.dom().contains(name.text(src)) && env[name.text(src)].mutable {
                Some(env.insert(name.text(src), Binding { value: v, mutable: true }))
            } else {
                None
            },
            None => None,
        },
        Stmt::CompoundAssign { name, op, value } => match eval(src, value, env) {
            Some(v) => if env.dom().contains(name.text(src)) && env[name.text(src)].mutable
                && apply(op, env[name.text(src)].value, v) is Some {
                Some(
                    env.insert(
                        name.text(src),
                        Binding { value: apply(op, env[name.text(src)].value, v)->0, mutable: true },
                    ),
                )
            } else {
                None
            },
            None => None,
        },
        Stmt::Expr { expr } => if eval(src, expr, env) is Some {
            Some(env)
        } else {
            None
        },
        _ => None,
    }
}

/// What statements do to the names, one after the other.
pub open spec fn run_stmts(src: Seq<u8>, l: List<Stmt>, env: Env) -> Option<Env>
    decreases l,
{
    match l {
        List::Nil => Some(env),
        List::Cons(head, tail) => match run_stmt(src, *head, env) {
            Some(next) => run_stmts(src, *tail, next),
            None => None,
        },
    }
}

/// The machine holds the names: a name is in sight in the state exactly
/// where it is bound, as an integer and with `mut` where it is bound with
/// it, and its register holds its value. The symbols in sight are bound to
/// registers in use.
pub open spec fn holds(src: Seq<u8>, env: Env, st: State, m: MachineState) -> bool {
    &&& in_sight_below(st.symbols, st.floor, st.next_reg)
    &&& st.floor <= st.symbols.len()
    &&& forall|name: Span|
        match #[trigger] lookup(src, st.symbols, st.floor, name) {
            Some(i) => {
                &&& env.dom().contains(name.text(src))
                &&& st.symbols[i].ty == Type::Int
                &&& st.symbols[i].mutable == env[name.text(src)].mutable
                &&& m.read_int(st.symbols[i].reg) == Some(env[name.text(src)].value)
            },
            None => !env.dom().contains(name.text(src)),
        }
}

/// On a machine that holds the names, the value of an expression is its
/// value with the names read from their registers, and where it has one its
/// type is that of an integer.
pub proof fn lemma_eval_reads(src: Seq<u8>, e: Expr, env: Env, st: State, m: MachineState)
    requires
        holds(src, env, st, m),
    ensures
        value_of(src, e, st.symbols, st.floor, m) == eval(src, e, env),
        eval(src, e, env) is Some ==> (lower_expr(src, e, st) matches Ok((_, _, ty)) ==> ty
            == Type::Int),
    decreases e,
{
    match e {
        Expr::Ident { name } => {
            assert(lookup(src, st.symbols, st.floor, name) is Some <==> env.dom().contains(
                name.text(src),
            ));
        },
        Expr::Unary { operand, .. } => {
            lemma_eval_reads(src, *operand, env, st, m);
        },
        Expr::Binary { lhs, rhs, .. } => {
            lemma_eval_reads(src, *lhs, env, st, m);
            lemma_eval_reads(src, *rhs, env, st, m);
        },
        _ => {},
    }
}

/// Names that are spelled alike find the same symbol.
pub proof fn lemma_lookup_by_text(
    src: Seq<u8>,
    symbols: Seq<Symbol>,
    floor: nat,
    a: Span,
    b: Span,
)
    requires
        a.text(src) == b.text(src),
    ensures
        lookup(src, symbols, floor, a) == lookup(src, symbols, floor, b),
    decreases symbols.len(),
{
    if symbols.len() > floor && symbols.last().name.text(src) != a.text(src) {
        lemma_lookup_by_text(src, symbols.drop_last(), floor, a, b);
    }
}

/// What the lowering of a statement does on a machine that holds the names
/// `env`, where the statement leaves the names `next`: see
/// `law_statement_meaning`.
pub open spec fn keeps(src: Seq<u8>, s: Stmt, env: Env, next: Env, st: State, m: MachineState) -> bool {
    let n = st.code.len() as int;
    &&& lower_stmt(src, s, st) matches Ok((after, None))
    &&& n <= after.code.len()
    &&& after.code.take(n) == st.code
    &&& st.next_reg <= after.next_reg <= st.next_reg + stmt_size(s)
    &&& steps(after.code.skip(n), m) matches Some(end)
    &&& holds(src, next, after, end)
    &&& end.regs.len() == m.regs.len()
}

/// The names are held after a step that bound the name at the symbol `i` to
/// the value `v`, where they were held before it.
proof fn lemma_holds_after(
    src: Seq<u8>,
    env: Env,
    name: Span,
    b: Binding,
    st: State,
    after: State,
    i: int,
    m: MachineState,
)
    requires
        holds(src, env, st, m),
        binds(st, after, i, b.value, m),
        after.floor == st.floor,
        lookup(src, after.symbols, after.floor, name) == Some(i),
        after.symbols[i].ty == Type::Int,
        after.symbols[i].mutable == b.mutable,
        forall|q: Span|
            q.text(src) != name.text(src) ==> {
                &&& #[trigger] lookup(src, after.symbols, after.floor, q) == lookup(
                    src,
                    st.symbols,
                    st.floor,
                    q,
                )
                &&& lookup(src, st.symbols, st.floor, q) matches Some(j) ==> after.symbols[j]
                    == st.symbols[j]
            },
    ensures
        holds(
            src,
            env.insert(name.text(src), b),
            after,
            steps(after.code.skip(st.code.len() as int), m)->0,
        ),
{
    let end = steps(after.code.skip(st.code.len() as int), m)->0;
    let next = env.insert(name.text(src), b);
    assert forall|q: Span|
        match #[trigger] lookup(src, after.symbols, after.floor, q) {
            Some(j) => {
                &&& next.dom().contains(q.text(src))
                &&& after.symbols[j].ty == Type::Int
                &&& after.symbols[j].mutable == next[q.text(src)].mutable
                &&& end.read_int(after.symbols[j].reg) == Some(next[q.text(src)].value)
            },
            None => !next.dom().contains(q.text(src)),
        } by {
        if q.text(src) == name.text(src) {
            lemma_lookup_by_text(src, after.symbols, after.floor, q, name);
        } else {
            lemma_lookup(src, st.symbols, st.floor, q);
            match lookup(src, st.symbols, st.floor, q) {
                Some(j) => {
                    assert(st.symbols[j].reg.0 < st.next_reg);
                    assert(m.read(st.symbols[j].reg) == end.read(st.symbols[j].reg));
                },
                None => {},
            }
        }
    }
}

/// A `let` keeps the meaning.
proof fn lemma_let_keeps(
    src: Seq<u8>,
    name: Span,
    mutable: bool,
    ty: Option<Type>,
    init: Expr,
    env: Env,
    st: State,
    m: MachineState,
)
    requires
        holds(src, env, st, m),
        run_stmt(src, Stmt::Let { name, mutable, ty, init }, env) is Some,
        st.next_reg + expr_size(init) <= m.regs.len(),
        st.next_reg + expr_size(init) <= usize::MAX,
    ensures
        keeps(
            src,
            Stmt::Let { name, mutable, ty, init },
            env,
            run_stmt(src, Stmt::Let { name, mutable, ty, init }, env)->0,
            st,
            m,
        ),
{
    lemma_eval_reads(src, init, env, st, m);
    law_expression_value(src, init, st, m);
    law_let_value(src, name, mutable, init, st, m);
    let v = eval(src, init, env)->0;
    let after = lower_let(src, name, mutable, None, init, st)->Ok_0.0;
    assert(lower_let(src, name, mutable, ty, init, st) == lower_let(src, name, mutable, None, init, st));
    let i = st.symbols.len() as int;
    assert(after.symbols.drop_last() =~= st.symbols);
    assert forall|q: Span| q.text(src) != name.text(src) implies {
        &&& #[trigger] lookup(src, after.symbols, after.floor, q) == lookup(
            src,
            st.symbols,
            st.floor,
            q,
        )
        &&& lookup(src, st.symbols, st.floor, q) matches Some(j) ==> after.symbols[j]
            == st.symbols[j]
    } by {
        lemma_lookup(src, st.symbols, st.floor, q);
    }
    lemma_holds_after(src, env, name, Binding { value: v, mutable }, st, after, i, m);
}

/// The symbols of two tables are the same but for the symbol `i`, which has
/// the same name in both: what this means for the names that are spelled
/// otherwise than `name`, which finds the symbol `i`.
proof fn lemma_rebound(
    src: Seq<u8>,
    before: Seq<Symbol>,
    after: Seq<Symbol>,
    floor: nat,
    name: Span,
    i: int,
)
    requires
        lookup(src, before, floor, name) == Some(i),
        after.len() == before.len(),
        forall|j: int| 0 <= j < before.len() && j != i ==> #[trigger] after[j] == before[j],
        0 <= i < before.len() ==> after[i].name == before[i].name,
    ensures
        lookup(src, after, floor, name) == Some(i),
        forall|q: Span|
            q.text(src) != name.text(src) ==> {
                &&& #[trigger] lookup(src, after, floor, q) == lookup(src, before, floor, q)
                &&& lookup(src, before, floor, q) matches Some(j) ==> after[j] == before[j]
            },
{
    lemma_lookup(src, before, floor, name);
    lemma_lookup_by_name(src, before, after, floor, name);
    assert forall|q: Span| q.text(src) != name.text(src) implies {
        &&& #[trigger] lookup(src, after, floor, q) == lookup(src, before, floor, q)
        &&& lookup(src, before, floor, q) matches Some(j) ==> after[j] == before[j]
    } by {
        lemma_lookup(src, before, floor, q);
        lemma_lookup_by_name(src, before, after, floor, q);
    }
}

/// An assignment keeps the meaning.
proof fn lemma_assign_keeps(
    src: Seq<u8>,
    name: Span,
    value: Expr,
    env: Env,
    st: State,
    m: MachineState,
)
    requires
        holds(src, env, st, m),
        run_stmt(src, Stmt::Assign { name, value }, env) is Some,
        st.next_reg + expr_size(value) <= m.regs.len(),
        st.next_reg + expr_size(value) <= usize::MAX,
    ensures
        keeps(
            src,
            Stmt::Assign { name, value },
            env,
            run_stmt(src, Stmt::Assign { name, value }, env)->0,
            st,
            m,
        ),
{
    lemma_eval_reads(src, value, env, st, m);
    assert(lookup(src, st.symbols, st.floor, name) is Some);
    lemma_lookup(src, st.symbols, st.floor, name);
    law_expression_value(src, value, st, m);
    law_assign_value(src, name, value, st, m);
    let v = eval(src, value, env)->0;
    let i = lookup(src, st.symbols, st.floor, name)->0;
    let after = lower_assign(src, name, value, st)->Ok_0.0;
    lemma_rebound(src, st.symbols, after.symbols, st.floor, name, i);
    lemma_holds_after(src, env, name, Binding { value: v, mutable: true }, st, after, i, m);
}

/// A compound assignment keeps the meaning.
proof fn lemma_compound_keeps(
    src: Seq<u8>,
    name: Span,
    op: BinaryOp,
    value: Expr,
    env: Env,
    st: State,
    m: MachineState,
)
    requires
        holds(src, env, st, m),
        run_stmt(src, Stmt::CompoundAssign { name, op, value }, env) is Some,
        st.next_reg + expr_size(value) + 1 <= m.regs.len(),
        st.next_reg + expr_size(value) + 1 <= usize::MAX,
    ensures
        keeps(
            src,
            Stmt::CompoundAssign { name, op, value },
            env,
            run_stmt(src, Stmt::CompoundAssign { name, op, value }, env)->0,
            st,
            m,
        ),
{
    lemma_eval_reads(src, value, env, st, m);
    assert(lookup(src, st.symbols, st.floor, name) is Some);
    lemma_lookup(src, st.symbols, st.floor, name);
    law_expression_value(src, value, st, m);
    law_compound_value(src, name, op, value, st, m);
    let v = eval(src, value, env)->0;
    let x = env[name.text(src)].value;
    let i = lookup(src, st.symbols, st.floor, name)->0;
    let after = lower_compound(src, name, op, value, st)->Ok_0.0;
    lemma_rebound(src, st.symbols, after.symbols, st.floor, name, i);
    lemma_holds_after(
        src,
        env,
        name,
        Binding { value: apply(op, x, v)->0, mutable: true },
        st,
        after,
        i,
        m,
    );
}

/// An expression as a statement keeps the meaning.
proof fn lemma_expr_keeps(src: Seq<u8>, expr: Expr, env: Env, st: State, m: MachineState)
    requires
        holds(src, env, st, m),
        eval(src, expr, env) is Some,
        st.next_reg + expr_size(expr) <= m.regs.len(),
        st.next_reg + expr_size(expr) <= usize::MAX,
    ensures
        keeps(src, Stmt::Expr { expr }, env, env, st, m),
{
    lemma_eval_reads(src, expr, env, st, m);
    law_expression_value(src, expr, st, m);
    let after = lower_expr(src, expr, st)->Ok_0.0;
    let end = steps(after.code.skip(st.code.len() as int), m)->0;
    assert forall|q: Span|
        match #[trigger] lookup(src, after.symbols, after.floor, q) {
            Some(j) => {
                &&& env.dom().contains(q.text(src))
                &&& after.symbols[j].ty == Type::Int
                &&& after.symbols[j].mutable == env[q.text(src)].mutable
                &&& end.read_int(after.symbols[j].reg) == Some(env[q.text(src)].value)
            },
            None => !env.dom().contains(q.text(src)),
        } by {
        lemma_lookup(src, st.symbols, st.floor, q);
        match lookup(src, st.symbols, st.floor, q) {
            Some(j) => {
                assert(st.symbols[j].reg.0 < st.next_reg);
                assert(m.read(st.symbols[j].reg) == end.read(st.symbols[j].reg));
            },
            None => {},
        }
    }
}

/// The lowering keeps the meaning of a statement that binds a name, assigns
/// to one, or is an expression. Where the statement takes the names `env`
/// to other names, and a machine holds the names `env`, the lowering
/// succeeds, and the instructions that it writes, carried out on that
/// machine, leave a machine that holds the other names.
pub proof fn law_statement_meaning(src: Seq<u8>, s: Stmt, env: Env, st: State, m: MachineState)
    requires
        holds(src, env, st, m),
        run_stmt(src, s, env) is Some,
        st.next_reg + stmt_size(s) <= m.regs.len(),
        st.next_reg + stmt_size(s) <= usize::MAX,
    ensures
        keeps(src, s, env, run_stmt(src, s, env)->0, st, m),
{
    match s {
        Stmt::Let { name, mutable, ty, init } => {
            lemma_let_keeps(src, name, mutable, ty, init, env, st, m);
        },
        Stmt::Assign { name, value } => {
            lemma_assign_keeps(src, name, value, env, st, m);
        },
        Stmt::CompoundAssign { name, op, value } => {
            lemma_compound_keeps(src, name, op, value, env, st, m);
        },
        Stmt::Expr { expr } => {
            lemma_expr_keeps(src, expr, env, st, m);
        },
        _ => {},
    }
}

/// Instructions written in two steps, one after the other: what was
/// written in all is what the first step wrote and then what the second
/// wrote.
pub proof fn lemma_written(a: Seq<Instr>, b: Seq<Instr>, c: Seq<Instr>)
    requires
        a.len() <= b.len() <= c.len(),
        b.take(a.len() as int) == a,
        c.take(b.len() as int) == b,
    ensures
        c.take(a.len() as int) == a,
        c.skip(a.len() as int) == b.skip(a.len() as int) + c.skip(b.len() as int),
{
    let n = a.len() as int;
    let k = b.len() as int;
    assert(c.take(n) =~= a) by {
        assert(c.take(k).take(n) =~= c.take(n));
    }
    assert(c.skip(n) =~= b.skip(n) + c.skip(k)) by {
        assert forall|i: int| 0 <= i < k - n implies c.skip(n)[i] == b.skip(n)[i] by {
            assert(c.take(k)[i + n] == c[i + n]);
        }
    }
}

/// The lowering keeps the meaning of a straight-line program: of statements
/// that bind names, assign to them, or are expressions. Where the
/// statements take the names `env` to other names, and a machine holds the
/// names `env`, the lowering succeeds, and the instructions that it writes,
/// carried out on that machine, leave a machine that holds the other names.
pub proof fn law_straight_line_meaning(
    src: Seq<u8>,
    l: List<Stmt>,
    env: Env,
    st: State,
    m: MachineState,
)
    requires
        holds(src, env, st, m),
        run_stmts(src, l, env) is Some,
        st.next_reg + stmts_size(l) <= m.regs.len(),
        st.next_reg + stmts_size(l) <= usize::MAX,
    ensures
        ({
            let n = st.code.len() as int;
            &&& lower_stmts(src, l, st) matches Ok((after, None))
            &&& n <= after.code.len()
            &&& after.code.take(n) == st.code
            &&& st.next_reg <= after.next_reg <= st.next_reg + stmts_size(l)
            &&& steps(after.code.skip(n), m) matches Some(end)
            &&& holds(src, run_stmts(src, l, env)->0, after, end)
            &&& end.regs.len() == m.regs.len()
        }),
    decreases l,
{
    let n = st.code.len() as int;
    match l {
        List::Nil => {
            assert(st.code.take(n) =~= st.code);
            assert(st.code.skip(n) =~= Seq::<Instr>::empty());
        },
        List::Cons(head, tail) => {
            law_statement_meaning(src, *head, env, st, m);
            let next = run_stmt(src, *head, env)->0;
            let s1 = lower_stmt(src, *head, st)->Ok_0.0;
            let m1 = steps(s1.code.skip(n), m)->0;
            law_straight_line_meaning(src, *tail, next, s1, m1);
            let s2 = lower_stmts(src, *tail, s1)->Ok_0.0;
            lemma_written(st.code, s1.code, s2.code);
            lemma_steps_then(s1.code.skip(n), s2.code.skip(s1.code.len() as int), m);
        },
    }
}

} // verus!
