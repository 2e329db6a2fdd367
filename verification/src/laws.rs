//! What holds of the lowering and of the machine, whatever the program.

use vstd::prelude::*;
use crate::span::{List, Span};
use crate::error::ErrorKind;
use crate::ast::{BinaryOp, Expr, Stmt, Type};
use crate::ir::{Instr, Prim, Reg};
use crate::scope::{lemma_lookup, lookup, LoopLabels};
use crate::lowering::{failure, lower_block, lower_compound, lower_expr, lower_stmt, lower_store, State};
use crate::machine::{MachineState, Value};

verus! {

/// A `let` of an integer literal puts the literal into a fresh register with
/// one `const`, and a name spelled like the bound one then reads that
/// register: on every machine that has the register, it holds the literal
/// after the `const`.
pub proof fn law_let_literal_round_trip(
    src: Seq<u8>,
    name: Span,
    mutable: bool,
    value: i32,
    pos: usize,
    reader: Span,
    st: State,
    m: MachineState,
)
    requires
        reader.text(src) == name.text(src),
        st.floor <= st.symbols.len(),
        st.next_reg < m.regs.len(),
        st.next_reg <= usize::MAX,
    ensures
        ({
            let bind = Stmt::Let { name, mutable, ty: None, init: Expr::Literal { value, pos } };
            let konst = Instr::Const { dest: st.reg(), ty: Prim::I32, value };
            &&& lower_stmt(src, bind, st) matches Ok((after, None))
            &&& after.code == st.code.push(konst)
            &&& lower_expr(src, Expr::Ident { name: reader }, after) == Ok::<
                (State, Reg, Type),
                crate::error::CompileError,
            >((after, st.reg(), Type::Int))
            &&& m.step(konst) matches Some(next)
            &&& next.read_int(st.reg()) == Some(value)
        }),
{
    let konst = Instr::Const { dest: st.reg(), ty: Prim::I32, value };
    let after = st.define(konst).declare(name, Type::Int, mutable, st.reg());
    assert(after.symbols.drop_last() =~= st.symbols);
}

/// An assignment to a name that is bound without `mut` fails as not declared
/// mutable, whatever is assigned, and so does a compound assignment.
pub proof fn law_assignment_needs_mut(src: Seq<u8>, name: Span, op: BinaryOp, value: Expr, st: State)
    requires
        lookup(src, st.symbols, st.floor, name) matches Some(i) && !st.symbols[i].mutable,
    ensures
        lower_stmt(src, Stmt::Assign { name, value }, st) == Err::<
            (State, Option<Reg>),
            crate::error::CompileError,
        >(failure(ErrorKind::NotDeclaredMutable { name }, name.start)),
        lower_stmt(src, Stmt::CompoundAssign { name, op, value }, st) == Err::<
            (State, Option<Reg>),
            crate::error::CompileError,
        >(failure(ErrorKind::NotDeclaredMutable { name }, name.start)),
{
}

/// Outside every loop, `break` and `continue` fail.
pub proof fn law_jump_needs_loop(src: Seq<u8>, pos: usize, st: State)
    requires
        st.loops.len() == 0,
    ensures
        lower_stmt(src, Stmt::Break { pos }, st) == Err::<
            (State, Option<Reg>),
            crate::error::CompileError,
        >(failure(ErrorKind::NoEnclosingLoop, pos)),
        lower_stmt(src, Stmt::Continue { pos }, st) == Err::<
            (State, Option<Reg>),
            crate::error::CompileError,
        >(failure(ErrorKind::NoEnclosingLoop, pos)),
{
}

/// Inside a loop, `continue` is a jump to the start label of the innermost
/// loop, and `break` a jump to its exit label.
pub proof fn law_jump_targets(src: Seq<u8>, pos: usize, st: State)
    requires
        st.loops.len() > 0,
    ensures
        lower_stmt(src, Stmt::Continue { pos }, st) == Ok::<
            (State, Option<Reg>),
            crate::error::CompileError,
        >((st.emit(Instr::Jump { target: st.loops.last().start }), None)),
        lower_stmt(src, Stmt::Break { pos }, st) == Ok::<
            (State, Option<Reg>),
            crate::error::CompileError,
        >((st.emit(Instr::Jump { target: st.loops.last().exit }), None)),
{
}

/// A loop is its start label, its body, a jump to the start label, and its
/// exit label: the exit label stands after the jump that ends the loop. The
/// two labels are fresh and differ, and in the body they are those of the
/// innermost loop.
pub proof fn law_loop_shape(src: Seq<u8>, body: List<Stmt>, pos: usize, st: State)
    requires
        st.next_label + 1 <= usize::MAX,
        lower_stmt(src, Stmt::Loop { body, pos }, st) is Ok,
    ensures
        ({
            let entry = st.open_loop();
            let after = lower_stmt(src, Stmt::Loop { body, pos }, st)->Ok_0.0;
            let n = after.code.len();
            &&& entry.code == st.code.push(Instr::Label { label: st.label(0) })
            &&& entry.loops.last() == (LoopLabels { start: st.label(0), exit: st.label(1) })
            &&& st.label(0) != st.label(1)
            &&& lower_block(src, body, entry) matches Ok((inner, _))
            &&& after.code == inner.code.push(Instr::Jump { target: st.label(0) }).push(
                Instr::Label { label: st.label(1) },
            )
            &&& n >= 2
            &&& after.code[n - 2] == (Instr::Jump { target: st.label(0) })
            &&& after.code[n - 1] == (Instr::Label { label: st.label(1) })
            &&& after.loops == st.loops
        }),
{
}

/// A tuple access fails as out of range where the base is no tuple, or is a
/// tuple with no more elements than the index.
pub proof fn law_tuple_index_out_of_range(src: Seq<u8>, base: Expr, index: usize, pos: usize, st: State)
    requires
        lower_expr(src, base, st) matches Ok((_, _, ty)) && (ty matches Type::Tuple { arity }
            ==> index >= arity),
    ensures
        lower_expr(src, Expr::Field { base: Box::new(base), index, pos }, st) == Err::<
            (State, Reg, Type),
            crate::error::CompileError,
        >(failure(ErrorKind::TupleIndexOutOfRange, pos)),
{
}

/// A tuple access within range is one `tget` with the index, into a fresh
/// register.
pub proof fn law_tuple_access(src: Seq<u8>, base: Expr, index: usize, pos: usize, st: State)
    requires
        lower_expr(src, base, st) matches Ok((_, _, Type::Tuple { arity })) && index < arity,
    ensures
        ({
            let (s1, tuple, _) = lower_expr(src, base, st)->Ok_0;
            lower_expr(src, Expr::Field { base: Box::new(base), index, pos }, st) == Ok::<
                (State, Reg, Type),
                crate::error::CompileError,
            >(
                (
                    s1.define(Instr::TupleGet { dest: s1.reg(), ty: Prim::I32, tuple, index }),
                    s1.reg(),
                    Type::Int,
                ),
            )
        }),
{
}

/// The integers of `read_ints` are as many as the registers.
pub proof fn lemma_read_ints_len(m: MachineState, elems: List<Reg>)
    ensures
        m.read_ints(elems) matches Some(values) ==> values.len() == elems.len(),
    decreases elems,
{
    match elems {
        List::Nil => {},
        List::Cons(_, tail) => {
            lemma_read_ints_len(m, *tail);
        },
    }
}

/// On a machine, a `tget` after the `tuple` that built the tuple yields the
/// element at the index, counted from zero in the order of construction.
pub proof fn law_tuple_get_yields_element(
    m: MachineState,
    tuple: Reg,
    dest: Reg,
    elems: List<Reg>,
    index: usize,
)
    requires
        m.read_ints(elems) is Some,
        index < elems.len(),
        tuple.0 < m.regs.len(),
        dest.0 < m.regs.len(),
        m.cells.len() + elems.len() <= usize::MAX,
    ensures
        ({
            let values = m.read_ints(elems)->0;
            &&& m.step(Instr::TupleBuild { dest: tuple, elems }) matches Some(built)
            &&& built.step(Instr::TupleGet { dest, ty: Prim::I32, tuple, index }) matches Some(next)
            &&& next.read_int(dest) == Some(values[index as int])
        }),
{
    lemma_read_ints_len(m, elems);
}

/// On a machine, a store to an element of an array and a load of the same
/// element right after it yield the stored value: for an array of any length,
/// any index into it and any value.
pub proof fn law_store_then_load(
    m: MachineState,
    array: Reg,
    index: Reg,
    value: Reg,
    addr: Reg,
    dest: Reg,
)
    requires
        m.read(array) matches Some(Value::Array { base, len }) && base + len <= m.cells.len(),
        m.read_int(index) matches Some(i) && (m.read(array) matches Some(Value::Array { len, .. })
            && 0 <= i < len),
        m.read_int(value) is Some,
        addr.0 < m.regs.len(),
        dest.0 < m.regs.len(),
        addr != array,
        addr != index,
        addr != value,
    ensures
        ({
            let elem = Prim::I32;
            &&& m.step(Instr::IndexAddr { dest: addr, elem, array, index }) matches Some(m1)
            &&& m1.step(Instr::Store { ty: elem, addr, value }) matches Some(m2)
            &&& m2.step(Instr::IndexLoad { dest, elem, array, index }) matches Some(m3)
            &&& m3.read_int(dest) == m.read_int(value)
        }),
{
}

/// A fresh array of `len` cells is an array of that length, all of whose
/// cells are there.
pub proof fn law_array_alloc(m: MachineState, array: Reg, len: usize)
    requires
        array.0 < m.regs.len(),
        m.cells.len() + len <= usize::MAX,
    ensures
        m.step(Instr::ArrayAlloc { dest: array, elem: Prim::I32, len }) matches Some(next)
            && next.read(array) == Some(Value::Array { base: m.cells.len() as usize, len })
            && m.cells.len() + len == next.cells.len(),
{
}

/// An indexed store to a name that is bound with `mut` is the index, then
/// the value, then one `rindex-addr` into a fresh register and one `store`
/// through that register.
pub proof fn law_indexed_store_shape(src: Seq<u8>, array: Span, index: Expr, value: Expr, st: State)
    requires
        lookup(src, st.symbols, st.floor, array) matches Some(i) && st.symbols[i].mutable,
        lower_expr(src, index, st) matches Ok((s1, _, _)) && lower_expr(src, value, s1) is Ok,
    ensures
        ({
            let i = lookup(src, st.symbols, st.floor, array)->0;
            let (s1, at, _) = lower_expr(src, index, st)->Ok_0;
            let (s2, v, _) = lower_expr(src, value, s1)->Ok_0;
            let elem = Prim::I32;
            &&& lower_store(src, array, index, value, st) matches Ok((after, None))
            &&& after.code == s2.code.push(
                Instr::IndexAddr { dest: s2.reg(), elem, array: st.symbols[i].reg, index: at },
            ).push(Instr::Store { ty: elem, addr: s2.reg(), value: v })
            &&& after.next_reg == s2.next_reg + 1
        }),
{
}

/// An indexed load is the index, then the array, then one `rindex-load` into
/// a fresh register.
pub proof fn law_indexed_load_shape(src: Seq<u8>, base: Expr, index: Expr, pos: usize, st: State)
    requires
        lower_expr(src, index, st) matches Ok((s1, _, _)) && lower_expr(src, base, s1) is Ok,
    ensures
        ({
            let (s1, at, _) = lower_expr(src, index, st)->Ok_0;
            let (s2, array, _) = lower_expr(src, base, s1)->Ok_0;
            let load = Expr::Index { base: Box::new(base), index: Box::new(index), pos };
            &&& lower_expr(src, load, st) matches Ok((after, dest, Type::Int))
            &&& dest == s2.reg()
            &&& after.code == s2.code.push(
                Instr::IndexLoad { dest, elem: Prim::I32, array, index: at },
            )
        }),
{
}

/// A compound assignment to a name that is bound with `mut` is the value,
/// then one `rassign-op` that reads the register of the name and that of the
/// value, and defines a fresh register, to which the name is bound from then
/// on.
pub proof fn law_compound_assignment_shape(
    src: Seq<u8>,
    name: Span,
    op: BinaryOp,
    value: Expr,
    st: State,
)
    requires
        lookup(src, st.symbols, st.floor, name) matches Some(i) && st.symbols[i].mutable,
        lower_expr(src, value, st) is Ok,
    ensures
        ({
            let i = lookup(src, st.symbols, st.floor, name)->0;
            let (s1, rhs, _) = lower_expr(src, value, st)->Ok_0;
            &&& lower_compound(src, name, op, value, st) matches Ok((after, None))
            &&& after.code == s1.code.push(
                Instr::AssignOp { dest: s1.reg(), op, lhs: st.symbols[i].reg, rhs },
            )
            &&& i < s1.symbols.len() ==> after.symbols[i].reg == s1.reg()
        }),
{
    lemma_lookup(src, st.symbols, st.floor, name);
}

} // verus!
