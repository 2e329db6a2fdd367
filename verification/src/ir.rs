//! The macro IR: a flat list of instructions that name their operands.

use vstd::prelude::*;
use crate::span::{List, Span};
use crate::ast::{BinaryOp, UnaryOp};

verus! {

/// A symbolic register: a value slot that one instruction of the list defines.
#[derive(Clone, Copy, Debug, PartialEq, Eq, Structural)]
pub struct Reg(pub usize);

/// A place in the list that a jump can name.
#[derive(Clone, Copy, Debug, PartialEq, Eq, Structural)]
pub struct Label(pub usize);

/// The primitive types of operands.
#[derive(Clone, Copy, Debug, PartialEq, Eq, Structural)]
pub enum Prim {
    I32,
}

/// The instructions, one for each macro form.
#[derive(Debug, PartialEq, Eq)]
#[allow(inconsistent_fields)]
pub enum Instr {
    /// `(const %dest i32 value)`
    Const { dest: Reg, ty: Prim, value: i32 },
    /// `(rarray %dest i32 len)`: a fresh array of `len` elements.
    ArrayAlloc { dest: Reg, elem: Prim, len: usize },
    /// `(rindex-addr %dest i32 %array %index)`: the address of an element.
    IndexAddr { dest: Reg, elem: Prim, array: Reg, index: Reg },
    /// `(rindex-load %dest i32 %array %index)`: the value of an element.
    IndexLoad { dest: Reg, elem: Prim, array: Reg, index: Reg },
    /// `(store i32 %addr %value)`
    Store { ty: Prim, addr: Reg, value: Reg },
    /// `(tuple %dest [ %a %b .. ])`
    TupleBuild { dest: Reg, elems: List<Reg> },
    /// `(tget %dest i32 %tuple index)`
    TupleGet { dest: Reg, ty: Prim, tuple: Reg, index: usize },
    /// `(rassign-op %dest op %lhs %rhs)`
    AssignOp { dest: Reg, op: BinaryOp, lhs: Reg, rhs: Reg },
    /// `(runary-op %dest op %operand)`
    UnaryOp { dest: Reg, op: UnaryOp, operand: Reg },
    /// `(label Ln)`
    Label { label: Label },
    /// `(branch %cond Ln)`: a jump that is taken where `cond` is not zero.
    Branch { cond: Reg, target: Label },
    /// `(jump Ln)`
    Jump { target: Label },
    /// `(call %dest name [ %a %b .. ])`, or `(call name [ .. ])` where the
    /// result is dropped.
    Call { dest: Option<Reg>, callee: Span, args: List<Reg> },
    /// `(fn name [ %a %b .. ])`: the start of a function, with the registers
    /// of its parameters. The function goes on to its `ret`.
    Func { name: Span, params: List<Reg> },
    /// `(ret %value)` or `(ret)`: the end of a function.
    Ret { value: Option<Reg> },
}

} // verus!
