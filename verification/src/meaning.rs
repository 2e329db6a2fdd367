//! The lowering keeps the meaning of expressions: what the machine computes
//! with the instructions of an expression is the value of the expression.

use vstd::prelude::*;
use crate::span::Span;
use crate::ast::{expr_size, BinaryOp, Expr, UnaryOp};
use crate::ir::{Instr, Prim, Reg};
use crate::scope::{lemma_lookup, lookup, Symbol};
use crate::lowering::{lower_assign, lower_compound, lower_expr, lower_let, State};
use crate::machine::{apply, apply_unary, MachineState, Value};

verus! {

/// The value of an expression of literals, names and operators, where each
/// name has the value that the machine holds in the register of the name.
/// `None` where a name is not in sight or holds no integer, where a divisor
/// is zero or a shift count out of range, and for every other expression.
pub open spec fn value_of(
    src: Seq<u8>,
    e: Expr,
    symbols: Seq<Symbol>,
    floor: nat,
    m: MachineState,
) -> Option<i32>
    decreases e,
{
    match e {
        Expr::Literal { value, .. } => Some(value),
        Expr::Ident { name } => match lookup(src, symbols, floor, name) {
            Some(i) => m.read_int(symbols[i].reg),
            None => None,
        },
        Expr::Unary { op, operand, .. } => match value_of(src, *operand, symbols, floor, m) {
            Some(a) => Some(apply_unary(op, a)),
            None => None,
        },
        Expr::Binary { op, lhs, rhs, .. } => match (
            value_of(src, *lhs, symbols, floor, m),
            value_of(src, *rhs, symbols, floor, m),
        ) {
            (Some(a), Some(b)) => apply(op, a, b),
            _ => None,
        },
        _ => None,
    }
}

/// The state of the machine after the instructions, carried out one after
/// the other; `None` where one of them is stuck.
pub open spec fn steps(code: Seq<Instr>, m: MachineState) -> Option<MachineState>
    decreases code.len(),
{
    if code.len() == 0 {
        Some(m)
    } else {
        match steps(code.drop_last(), m) {
            Some(before) => before.step(code.last()),
            None => None,
        }
    }
}

/// The symbols in sight are bound to registers below `n`.
pub open spec fn in_sight_below(symbols: Seq<Symbol>, floor: nat, n: nat) -> bool {
    forall|i: int| floor <= i < symbols.len() ==> (#[trigger] symbols[i]).reg.0 < n
}

/// The two machines hold the same in the registers below `n`.
pub open spec fn agree_below(a: MachineState, b: MachineState, n: nat) -> bool {
    forall|r: Reg| r.0 < n ==> #[trigger] a.read(r) == b.read(r)
}

/// Carrying out two runs of instructions, one after the other, is carrying
/// out the second in the state that the first leaves.
pub proof fn lemma_steps_then(first: Seq<Instr>, second: Seq<Instr>, m: MachineState)
    ensures
        steps(first + second, m) == match steps(first, m) {
            Some(between) => steps(second, between),
            None => None,
        },
    decreases second.len(),
{
    if second.len() == 0 {
        assert(first + second =~= first);
    } else {
        assert((first + second).drop_last() =~= first + second.drop_last());
        lemma_steps_then(first, second.drop_last(), m);
    }
}

/// The value of an expression is the same on machines that hold the same in
/// the registers of the symbols in sight.
pub proof fn lemma_value_agrees(
    src: Seq<u8>,
    e: Expr,
    symbols: Seq<Symbol>,
    floor: nat,
    a: MachineState,
    b: MachineState,
    n: nat,
)
    requires
        in_sight_below(symbols, floor, n),
        agree_below(a, b, n),
    ensures
        value_of(src, e, symbols, floor, a) == value_of(src, e, symbols, floor, b),
    decreases e,
{
    match e {
        Expr::Ident { name } => {
            lemma_lookup(src, symbols, floor, name);
            match lookup(src, symbols, floor, name) {
                Some(i) => {
                    assert(a.read(symbols[i].reg) == b.read(symbols[i].reg));
                },
                None => {},
            }
        },
        Expr::Unary { operand, .. } => {
            lemma_value_agrees(src, *operand, symbols, floor, a, b, n);
        },
        Expr::Binary { lhs, rhs, .. } => {
            lemma_value_agrees(src, *lhs, symbols, floor, a, b, n);
            lemma_value_agrees(src, *rhs, symbols, floor, a, b, n);
        },
        _ => {},
    }
}

/// What the lowering of an expression does, where the expression has a
/// value on the machine `m` and the machine has the registers that the
/// lowering takes: see `law_expression_value`.
pub open spec fn computes(src: Seq<u8>, e: Expr, st: State, m: MachineState) -> bool {
    let n = st.code.len() as int;
    &&& lower_expr(src, e, st) matches Ok((after, r, _))
    &&& n <= after.code.len()
    &&& after.code.take(n) == st.code
    &&& after.symbols == st.symbols
    &&& after.floor == st.floor
    &&& st.next_reg <= after.next_reg <= st.next_reg + expr_size(e)
    &&& r.0 < after.next_reg
    &&& steps(after.code.skip(n), m) matches Some(end)
    &&& end.read_int(r) == value_of(src, e, st.symbols, st.floor, m)
    &&& end.cells == m.cells
    &&& end.regs.len() == m.regs.len()
    &&& agree_below(m, end, st.next_reg)
}

/// A literal computes its value.
proof fn lemma_literal_computes(src: Seq<u8>, value: i32, pos: usize, st: State, m: MachineState)
    requires
        st.next_reg + 1 <= m.regs.len(),
        st.next_reg + 1 <= usize::MAX,
    ensures
        computes(src, Expr::Literal { value, pos }, st, m),
{
    reveal_with_fuel(steps, 2);
    let n = st.code.len() as int;
    let e = Expr::Literal { value, pos };
    let after = lower_expr(src, e, st)->Ok_0.0;
    assert(after.code.take(n) =~= st.code);
    assert(after.code.skip(n) =~= seq![Instr::Const { dest: st.reg(), ty: Prim::I32, value }]);
    assert(after.code.skip(n).drop_last() =~= Seq::<Instr>::empty());
}

/// A name computes the value that its register holds.
proof fn lemma_name_computes(src: Seq<u8>, name: Span, st: State, m: MachineState)
    requires
        value_of(src, Expr::Ident { name }, st.symbols, st.floor, m) is Some,
        in_sight_below(st.symbols, st.floor, st.next_reg),
    ensures
        computes(src, Expr::Ident { name }, st, m),
{
    let n = st.code.len() as int;
    lemma_lookup(src, st.symbols, st.floor, name);
    assert(st.code.take(n) =~= st.code);
    assert(st.code.skip(n) =~= Seq::<Instr>::empty());
    let i = lookup(src, st.symbols, st.floor, name)->0;
    match m.read(st.symbols[i].reg) {
        Some(Value::Int(_)) => {},
        _ => {},
    }
}

/// One more instruction, which writes a fresh register: what it does to a
/// run of instructions and to the machine.
proof fn lemma_one_more(
    st: State,
    s1: State,
    instr: Instr,
    dest: Reg,
    v: i32,
    m: MachineState,
    m1: MachineState,
)
    requires
        st.code.len() <= s1.code.len(),
        s1.code.take(st.code.len() as int) == st.code,
        steps(s1.code.skip(st.code.len() as int), m) == Some(m1),
        dest == s1.reg(),
        st.next_reg <= s1.next_reg < m1.regs.len(),
        s1.next_reg < usize::MAX,
        m1.step(instr) == m1.write(dest, Value::Int(v)),
        agree_below(m, m1, st.next_reg),
        m1.cells == m.cells,
        m1.regs.len() == m.regs.len(),
    ensures
        ({
            let n = st.code.len() as int;
            let after = s1.define(instr);
            &&& after.code.take(n) == st.code
            &&& steps(after.code.skip(n), m) matches Some(end)
            &&& end.read_int(dest) == Some(v)
            &&& end.cells == m.cells
            &&& end.regs.len() == m.regs.len()
            &&& agree_below(m, end, st.next_reg)
            &&& agree_below(m1, end, s1.next_reg)
        }),
{
    let n = st.code.len() as int;
    let after = s1.define(instr);
    assert(after.code.take(n) =~= s1.code.take(n));
    assert(after.code.skip(n) =~= s1.code.skip(n).push(instr));
    assert(after.code.skip(n).drop_last() =~= s1.code.skip(n));
    let end = m1.write(dest, Value::Int(v))->0;
    assert forall|r: Reg| r.0 < st.next_reg implies #[trigger] m.read(r) == end.read(r) by {
        assert(m.read(r) == m1.read(r));
    }
}

/// A prefix operator computes its value, where its operand does.
proof fn lemma_unary_computes(
    src: Seq<u8>,
    op: UnaryOp,
    operand: Expr,
    pos: usize,
    st: State,
    m: MachineState,
)
    requires
        computes(src, operand, st, m),
        value_of(src, operand, st.symbols, st.floor, m) is Some,
        st.next_reg + expr_size(operand) + 1 <= m.regs.len(),
        st.next_reg + expr_size(operand) + 1 <= usize::MAX,
    ensures
        computes(src, Expr::Unary { op, operand: Box::new(operand), pos }, st, m),
{
    let n = st.code.len() as int;
    let (s1, a, _) = lower_expr(src, operand, st)->Ok_0;
    let m1 = steps(s1.code.skip(n), m)->0;
    let instr = Instr::UnaryOp { dest: s1.reg(), op, operand: a };
    let va = value_of(src, operand, st.symbols, st.floor, m)->0;
    lemma_one_more(st, s1, instr, s1.reg(), apply_unary(op, va), m, m1);
}

/// An infix operator computes its value, where its operands do, the second
/// after the first.
proof fn lemma_binary_computes(
    src: Seq<u8>,
    op: BinaryOp,
    lhs: Expr,
    rhs: Expr,
    pos: usize,
    st: State,
    m: MachineState,
)
    requires
        value_of(src, Expr::Binary { op, lhs: Box::new(lhs), rhs: Box::new(rhs), pos }, st.symbols, st.floor, m) is Some,
        computes(src, lhs, st, m),
        ({
            let s1 = lower_expr(src, lhs, st)->Ok_0.0;
            let m1 = steps(s1.code.skip(st.code.len() as int), m)->0;
            &&& computes(src, rhs, s1, m1)
            &&& value_of(src, rhs, st.symbols, st.floor, m1) == value_of(
                src,
                rhs,
                st.symbols,
                st.floor,
                m,
            )
        }),
        st.next_reg + expr_size(lhs) + expr_size(rhs) + 1 <= m.regs.len(),
        st.next_reg + expr_size(lhs) + expr_size(rhs) + 1 <= usize::MAX,
    ensures
        computes(src, Expr::Binary { op, lhs: Box::new(lhs), rhs: Box::new(rhs), pos }, st, m),
{
    let n = st.code.len() as int;
    let (s1, a, _) = lower_expr(src, lhs, st)->Ok_0;
    let m1 = steps(s1.code.skip(n), m)->0;
    let n1 = s1.code.len() as int;
    let (s2, b, _) = lower_expr(src, rhs, s1)->Ok_0;
    let m2 = steps(s2.code.skip(n1), m1)->0;
    assert(s2.code.take(n) =~= st.code) by {
        assert(s2.code.take(n1).take(n) =~= s2.code.take(n));
    }
    assert(s2.code.skip(n) =~= s1.code.skip(n) + s2.code.skip(n1)) by {
        assert(s2.code.take(n1) == s1.code);
        assert forall|k: int| 0 <= k < s1.code.len() - n implies s2.code.skip(n)[k] == s1.code.skip(
            n,
        )[k] by {
            assert(s2.code.take(n1)[k + n] == s2.code[k + n]);
        }
    }
    lemma_steps_then(s1.code.skip(n), s2.code.skip(n1), m);
    assert(steps(s2.code.skip(n), m) == Some(m2));
    assert(m2.read(a) == m1.read(a));
    assert forall|r: Reg| r.0 < st.next_reg implies #[trigger] m.read(r) == m2.read(r) by {
        assert(m.read(r) == m1.read(r));
        assert(m1.read(r) == m2.read(r));
    }
    let va = value_of(src, lhs, st.symbols, st.floor, m)->0;
    let vb = value_of(src, rhs, st.symbols, st.floor, m)->0;
    let instr = Instr::AssignOp { dest: s2.reg(), op, lhs: a, rhs: b };
    lemma_one_more(st, s2, instr, s2.reg(), apply(op, va, vb)->0, m, m2);
}

/// The lowering keeps the value of an expression of literals, names and
/// operators. Where the expression has a value on a machine, with the names
/// read from their registers, the lowering succeeds, and the instructions
/// that it writes, carried out on that machine, leave the value in the
/// register that the lowering returns. They write fresh registers only: the
/// registers in use before, and the cells, stay as they are.
pub proof fn law_expression_value(src: Seq<u8>, e: Expr, st: State, m: MachineState)
    requires
        value_of(src, e, st.symbols, st.floor, m) is Some,
        in_sight_below(st.symbols, st.floor, st.next_reg),
        st.next_reg + expr_size(e) <= m.regs.len(),
        st.next_reg + expr_size(e) <= usize::MAX,
    ensures
        computes(src, e, st, m),
    decreases e,
{
    match e {
        Expr::Literal { value, pos } => {
            lemma_literal_computes(src, value, pos, st, m);
        },
        Expr::Ident { name } => {
            lemma_name_computes(src, name, st, m);
        },
        Expr::Unary { op, operand, pos } => {
            law_expression_value(src, *operand, st, m);
            lemma_unary_computes(src, op, *operand, pos, st, m);
        },
        Expr::Binary { op, lhs, rhs, pos } => {
            law_expression_value(src, *lhs, st, m);
            let s1 = lower_expr(src, *lhs, st)->Ok_0.0;
            let m1 = steps(s1.code.skip(st.code.len() as int), m)->0;
            lemma_value_agrees(src, *rhs, st.symbols, st.floor, m, m1, st.next_reg);
            law_expression_value(src, *rhs, s1, m1);
            lemma_binary_computes(src, op, *lhs, *rhs, pos, st, m);
        },
        _ => {},
    }
}

/// Tables with the same names in the same places find the same symbols.
pub proof fn lemma_lookup_by_name(
    src: Seq<u8>,
    a: Seq<Symbol>,
    b: Seq<Symbol>,
    floor: nat,
    name: Span,
)
    requires
        a.len() == b.len(),
        forall|i: int| 0 <= i < a.len() ==> (#[trigger] a[i]).name == b[i].name,
    ensures
        lookup(src, a, floor, name) == lookup(src, b, floor, name),
    decreases a.len(),
{
    if a.len() > floor {
        assert(a.last().name == b.last().name);
        lemma_lookup_by_name(src, a.drop_last(), b.drop_last(), floor, name);
    }
}

/// What a statement that binds a name to a value does on the machine `m`,
/// where `after` is the state after the statement and `i` the symbol of the
/// name: the instructions of the statement leave the value `v` in the
/// register of the name, write fresh registers only, and leave the cells
/// alone; the symbols in sight are bound to registers in use.
pub open spec fn binds(st: State, after: State, i: int, v: i32, m: MachineState) -> bool {
    let n = st.code.len() as int;
    &&& n <= after.code.len()
    &&& after.code.take(n) == st.code
    &&& 0 <= i < after.symbols.len()
    &&& steps(after.code.skip(n), m) matches Some(end)
    &&& end.read_int(after.symbols[i].reg) == Some(v)
    &&& end.cells == m.cells
    &&& end.regs.len() == m.regs.len()
    &&& agree_below(m, end, st.next_reg)
    &&& in_sight_below(after.symbols, after.floor, after.next_reg)
}

/// A `let` without a declared type binds the name to the value of the
/// expression: after the instructions of the `let`, the register of the name
/// holds that value, and the name is the innermost one of its spelling.
pub proof fn law_let_value(
    src: Seq<u8>,
    name: Span,
    mutable: bool,
    init: Expr,
    st: State,
    m: MachineState,
)
    requires
        value_of(src, init, st.symbols, st.floor, m) is Some,
        in_sight_below(st.symbols, st.floor, st.next_reg),
        st.floor <= st.symbols.len(),
        st.next_reg + expr_size(init) <= m.regs.len(),
        st.next_reg + expr_size(init) <= usize::MAX,
    ensures
        lower_let(src, name, mutable, None, init, st) matches Ok((after, None)) && {
            &&& binds(
                st,
                after,
                st.symbols.len() as int,
                value_of(src, init, st.symbols, st.floor, m)->0,
                m,
            )
            &&& lookup(src, after.symbols, after.floor, name) == Some(st.symbols.len() as int)
        },
{
    law_expression_value(src, init, st, m);
    let (s1, r, found) = lower_expr(src, init, st)->Ok_0;
    let after = s1.declare(name, found, mutable, r);
    assert(after.symbols.drop_last() =~= st.symbols);
}

/// A compound assignment to a name that is bound with `mut` binds the name
/// to the result of the operator on the value of the name and the value of
/// the expression.
pub proof fn law_compound_value(
    src: Seq<u8>,
    name: Span,
    op: BinaryOp,
    value: Expr,
    st: State,
    m: MachineState,
)
    requires
        lookup(src, st.symbols, st.floor, name) matches Some(i) && st.symbols[i].mutable
            && m.read_int(st.symbols[i].reg) is Some,
        value_of(src, value, st.symbols, st.floor, m) is Some,
        apply(
            op,
            m.read_int(st.symbols[lookup(src, st.symbols, st.floor, name)->0].reg)->0,
            value_of(src, value, st.symbols, st.floor, m)->0,
        ) is Some,
        in_sight_below(st.symbols, st.floor, st.next_reg),
        st.next_reg + expr_size(value) + 1 <= m.regs.len(),
        st.next_reg + expr_size(value) + 1 <= usize::MAX,
    ensures
        ({
            let i = lookup(src, st.symbols, st.floor, name)->0;
            let x = m.read_int(st.symbols[i].reg)->0;
            let v = value_of(src, value, st.symbols, st.floor, m)->0;
            &&& lower_compound(src, name, op, value, st) matches Ok((after, None))
            &&& binds(st, after, i, apply(op, x, v)->0, m)
            &&& lookup(src, after.symbols, after.floor, name) == Some(i)
        }),
{
    lemma_lookup(src, st.symbols, st.floor, name);
    law_expression_value(src, value, st, m);
    let n = st.code.len() as int;
    let i = lookup(src, st.symbols, st.floor, name)->0;
    let x = m.read_int(st.symbols[i].reg)->0;
    let v = value_of(src, value, st.symbols, st.floor, m)->0;
    let (s1, b, _) = lower_expr(src, value, st)->Ok_0;
    let m1 = steps(s1.code.skip(n), m)->0;
    let instr = Instr::AssignOp { dest: s1.reg(), op, lhs: st.symbols[i].reg, rhs: b };
    assert(m1.read(st.symbols[i].reg) == m.read(st.symbols[i].reg));
    lemma_one_more(st, s1, instr, s1.reg(), apply(op, x, v)->0, m, m1);
    let after = s1.define(instr).rebind(i, s1.reg());
    lemma_lookup_by_name(src, st.symbols, after.symbols, st.floor, name);
}

/// An assignment to a name that is bound with `mut`, of a value of the type
/// of the name, binds the name to the value of the expression.
pub proof fn law_assign_value(src: Seq<u8>, name: Span, value: Expr, st: State, m: MachineState)
    requires
        lookup(src, st.symbols, st.floor, name) matches Some(i) && st.symbols[i].mutable,
        value_of(src, value, st.symbols, st.floor, m) is Some,
        lower_expr(src, value, st) matches Ok((_, _, found)) && found == st.symbols[lookup(
            src,
            st.symbols,
            st.floor,
            name,
        )->0].ty,
        in_sight_below(st.symbols, st.floor, st.next_reg),
        st.next_reg + expr_size(value) <= m.regs.len(),
        st.next_reg + expr_size(value) <= usize::MAX,
    ensures
        ({
            let i = lookup(src, st.symbols, st.floor, name)->0;
            &&& lower_assign(src, name, value, st) matches Ok((after, None))
            &&& binds(st, after, i, value_of(src, value, st.symbols, st.floor, m)->0, m)
            &&& lookup(src, after.symbols, after.floor, name) == Some(i)
        }),
{
    lemma_lookup(src, st.symbols, st.floor, name);
    law_expression_value(src, value, st, m);
    let i = lookup(src, st.symbols, st.floor, name)->0;
    let (s1, r, _) = lower_expr(src, value, st)->Ok_0;
    let after = s1.rebind(i, r);
    lemma_lookup_by_name(src, st.symbols, after.symbols, st.floor, name);
}

} // verus!
