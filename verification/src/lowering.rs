//! The lowering of the syntax tree into the IR, as functions from the
//! state before a node to the state after it.
//!
//! Operands are lowered in the order in which they are written, with one
//! exception: of an indexing, the index comes before the array. Both
//! operands of `&&` and of `||` are lowered, and so both are evaluated.
//! Every instruction that has a result puts it into a fresh register, and an
//! assignment binds the name to the register of the new value. No register
//! is written twice, so a name that is bound to the value of another name
//! shares its register.
//!
//! A block, the body of a loop and the body of a function are scopes: what
//! they bind ends with them. A function is known from its own body on; it
//! sees its parameters and what its body binds, and nothing of the bindings
//! around it. Variables and functions are named apart.
//!
//! A semantic error ends the lowering; the first one met is the one
//! returned. An assignment to a name looks at the name first: where the name
//! is not bound with `mut`, that is the error, whatever the value is.

use vstd::prelude::*;
use crate::span::{List, Span};
use crate::error::{CompileError, ErrorKind};
use crate::ast::{BinaryOp, Expr, FnDecl, Item, Param, Stmt, Type, UnaryOp};
use crate::ir::{Instr, Label, Prim, Reg};
use crate::scope::{find_func, lookup, FuncSig, LoopLabels, Symbol};

verus! {

/// The state of a lowering.
pub struct State {
    /// The bindings in scope, innermost last.
    pub symbols: Seq<Symbol>,
    /// The first binding that the current function sees: a function sees
    /// its parameters and what its body binds, not the bindings around it.
    pub floor: nat,
    /// The functions declared so far.
    pub funcs: Seq<FuncSig>,
    /// The loops around the current statement, innermost last.
    pub loops: Seq<LoopLabels>,
    /// The number of scopes around the current one.
    pub depth: nat,
    /// The number of registers in use: the next one is fresh.
    pub next_reg: nat,
    /// The number of labels in use.
    pub next_label: nat,
    /// The instructions so far.
    pub code: Seq<Instr>,
}

/// What the lowering of an expression gives: the state after it, the
/// register of the value and the type of the value.
pub type ExprOut = Result<(State, Reg, Type), CompileError>;

/// What the lowering of a list of expressions gives: the state after it and
/// the registers of the values.
pub type ListOut = Result<(State, List<Reg>), CompileError>;

/// What the lowering of a statement gives: the state after it, and the
/// register of the value where the statement has one.
pub type StmtOut = Result<(State, Option<Reg>), CompileError>;

impl State {
    /// The state before anything is lowered.
    pub open spec fn initial() -> State {
        State {
            symbols: Seq::empty(),
            floor: 0,
            funcs: Seq::empty(),
            loops: Seq::empty(),
            depth: 0,
            next_reg: 0,
            next_label: 0,
            code: Seq::empty(),
        }
    }

    /// The next fresh register.
    pub open spec fn reg(self) -> Reg {
        Reg(self.next_reg as usize)
    }

    /// The fresh label number `k`.
    pub open spec fn label(self, k: nat) -> Label {
        Label((self.next_label + k) as usize)
    }

    /// The state with `n` more labels in use.
    pub open spec fn take_labels(self, n: nat) -> State {
        State { next_label: self.next_label + n, ..self }
    }

    /// The state with one more instruction.
    pub open spec fn emit(self, instr: Instr) -> State {
        State { code: self.code.push(instr), ..self }
    }

    /// The state after an instruction that defines the next fresh register.
    pub open spec fn define(self, instr: Instr) -> State {
        State { code: self.code.push(instr), next_reg: self.next_reg + 1, ..self }
    }

    /// The state with one more symbol, in the current scope.
    pub open spec fn declare(self, name: Span, ty: Type, mutable: bool, reg: Reg) -> State {
        State {
            symbols: self.symbols.push(Symbol { name, ty, mutable, depth: self.depth as usize, reg }),
            ..self
        }
    }

    /// The symbol `i` bound to `reg` from now on.
    pub open spec fn rebind(self, i: int, reg: Reg) -> State {
        State { symbols: self.symbols.update(i, Symbol { reg, ..self.symbols[i] }), ..self }
    }

    /// The state inside a new scope.
    pub open spec fn enter(self) -> State {
        State { depth: self.depth + 1, ..self }
    }

    /// The state after a scope that was entered in the state `outer`: what
    /// the scope declared is gone, what it bound anew stays.
    pub open spec fn leave(self, outer: State) -> State {
        State {
            symbols: self.symbols.take(outer.symbols.len() as int),
            floor: outer.floor,
            depth: outer.depth,
            ..self
        }
    }

    /// The state in other loops.
    pub open spec fn with_loops(self, loops: Seq<LoopLabels>) -> State {
        State { loops, ..self }
    }

    /// The labels of a loop that starts in this state: two fresh ones.
    pub open spec fn loop_labels(self) -> LoopLabels {
        LoopLabels { start: self.label(0), exit: self.label(1) }
    }

    /// The state in which the body of a loop is lowered: the loop is the
    /// innermost one, and its start label is written.
    pub open spec fn open_loop(self) -> State {
        self.take_labels(2).with_loops(self.loops.push(self.loop_labels())).emit(
            Instr::Label { label: self.label(0) },
        )
    }

    /// The state after a loop that started in the state `outer`, from the
    /// state after its body: the jump back to the start label is written,
    /// and the exit label after it.
    pub open spec fn close_loop(self, outer: State) -> State {
        self.with_loops(outer.loops).emit(Instr::Jump { target: outer.label(0) }).emit(
            Instr::Label { label: outer.label(1) },
        )
    }

    /// The state in which the first block of a conditional is lowered.
    /// Of three fresh labels the first is that of the first block, the
    /// second that of the other block, and the third that of the end. The
    /// branch to the first block, taken where `cond` is not zero, the jump
    /// to the other block, and the label of the first block are written.
    pub open spec fn open_branch(self, cond: Reg) -> State {
        self.take_labels(3).emit(Instr::Branch { cond, target: self.label(0) }).emit(
            Instr::Jump { target: self.label(1) },
        ).emit(Instr::Label { label: self.label(0) })
    }

    /// The state after the end of a block of a conditional: the jump to the
    /// label `end` is written, and the label `next`.
    pub open spec fn join(self, end: Label, next: Label) -> State {
        self.emit(Instr::Jump { target: end }).emit(Instr::Label { label: next })
    }
}

/// The error of the given kind at the given byte offset.
pub open spec fn failure(kind: ErrorKind, pos: usize) -> CompileError {
    CompileError { kind, pos }
}

/// An expression: the register that holds its value, and the value's type.
pub open spec fn lower_expr(src: Seq<u8>, e: Expr, st: State) -> ExprOut
    decreases e, 0nat,
{
    match e {
        Expr::Literal { value, .. } => Ok(
            (st.define(Instr::Const { dest: st.reg(), ty: Prim::I32, value }), st.reg(), Type::Int),
        ),
        Expr::Ident { name } => match lookup(src, st.symbols, st.floor, name) {
            None => Err(failure(ErrorKind::Undeclared { name }, name.start)),
            Some(i) => Ok((st, st.symbols[i].reg, st.symbols[i].ty)),
        },
        Expr::Unary { op, operand, .. } => match lower_expr(src, *operand, st) {
            Err(e) => Err(e),
            Ok((s1, a, _)) => Ok(
                (s1.define(Instr::UnaryOp { dest: s1.reg(), op, operand: a }), s1.reg(), Type::Int),
            ),
        },
        Expr::Binary { op, lhs, rhs, .. } => match lower_expr(src, *lhs, st) {
            Err(e) => Err(e),
            Ok((s1, a, _)) => match lower_expr(src, *rhs, s1) {
                Err(e) => Err(e),
                Ok((s2, b, _)) => Ok(
                    (
                        s2.define(Instr::AssignOp { dest: s2.reg(), op, lhs: a, rhs: b }),
                        s2.reg(),
                        Type::Int,
                    ),
                ),
            },
        },
        Expr::Call { callee, args } => match lower_call(src, callee, args, st, true) {
            Err(e) => Err(e),
            Ok((s1, dest)) => Ok((s1, dest->0, Type::Int)),
        },
        Expr::Tuple { elems, .. } => match lower_args(src, elems, st) {
            Err(e) => Err(e),
            Ok((s1, regs)) => Ok(
                (
                    s1.define(Instr::TupleBuild { dest: s1.reg(), elems: regs }),
                    s1.reg(),
                    Type::Tuple { arity: elems.len() as usize },
                ),
            ),
        },
        Expr::Field { base, index, pos } => match lower_expr(src, *base, st) {
            Err(e) => Err(e),
            Ok((s1, t, ty)) => match ty {
                Type::Tuple { arity } if index < arity => Ok(
                    (
                        s1.define(Instr::TupleGet { dest: s1.reg(), ty: Prim::I32, tuple: t, index }),
                        s1.reg(),
                        Type::Int,
                    ),
                ),
                _ => Err(failure(ErrorKind::TupleIndexOutOfRange, pos)),
            },
        },
        Expr::Index { base, index, .. } => match lower_expr(src, *index, st) {
            Err(e) => Err(e),
            Ok((s1, i, _)) => match lower_expr(src, *base, s1) {
                Err(e) => Err(e),
                Ok((s2, a, _)) => Ok(
                    (
                        s2.define(
                            Instr::IndexLoad { dest: s2.reg(), elem: Prim::I32, array: a, index: i },
                        ),
                        s2.reg(),
                        Type::Int,
                    ),
                ),
            },
        },
    }
}

/// Expressions, from the first to the last: their registers.
pub open spec fn lower_args(src: Seq<u8>, l: List<Expr>, st: State) -> ListOut
    decreases l, 0nat,
{
    match l {
        List::Nil => Ok((st, List::Nil)),
        List::Cons(head, tail) => match lower_expr(src, *head, st) {
            Err(e) => Err(e),
            Ok((s1, r, _)) => match lower_args(src, *tail, s1) {
                Err(e) => Err(e),
                Ok((s2, regs)) => Ok((s2, List::Cons(Box::new(r), Box::new(regs)))),
            },
        },
    }
}

/// A call: the callee has to be declared, with as many parameters as there
/// are arguments. Where the result is kept, it goes into a fresh register.
pub open spec fn lower_call(
    src: Seq<u8>,
    callee: Span,
    args: List<Expr>,
    st: State,
    keep: bool,
) -> StmtOut
    decreases args, 1nat,
{
    match find_func(src, st.funcs, callee) {
        None => Err(failure(ErrorKind::Undeclared { name: callee }, callee.start)),
        Some(f) => if st.funcs[f].arity != args.len() {
            Err(failure(ErrorKind::ArityMismatch, callee.start))
        } else {
            match lower_args(src, args, st) {
                Err(e) => Err(e),
                Ok((s1, regs)) => if keep {
                    Ok(
                        (
                            s1.define(Instr::Call { dest: Some(s1.reg()), callee, args: regs }),
                            Some(s1.reg()),
                        ),
                    )
                } else {
                    Ok((s1.emit(Instr::Call { dest: None, callee, args: regs }), None))
                },
            }
        },
    }
}

/// A `let`: the name is bound to the register of the value. A declared type
/// has to be the type of the value.
pub open spec fn lower_let(
    src: Seq<u8>,
    name: Span,
    mutable: bool,
    ty: Option<Type>,
    init: Expr,
    st: State,
) -> StmtOut {
    match lower_expr(src, init, st) {
        Err(e) => Err(e),
        Ok((s1, r, found)) => if ty is Some && ty->0 != found {
            Err(failure(ErrorKind::ArityMismatch, init.pos_of()))
        } else {
            Ok((s1.declare(name, found, mutable, r), None))
        },
    }
}

/// An assignment: the name has to be declared, and declared `mut`, whatever
/// the value is. The value has to be of the type of the name, which is bound
/// to the register of the value from now on.
pub open spec fn lower_assign(src: Seq<u8>, name: Span, value: Expr, st: State) -> StmtOut {
    match lookup(src, st.symbols, st.floor, name) {
        None => Err(failure(ErrorKind::Undeclared { name }, name.start)),
        Some(i) => if !st.symbols[i].mutable {
            Err(failure(ErrorKind::NotDeclaredMutable { name }, name.start))
        } else {
            match lower_expr(src, value, st) {
                Err(e) => Err(e),
                Ok((s1, r, found)) => if found != st.symbols[i].ty {
                    Err(failure(ErrorKind::ArityMismatch, value.pos_of()))
                } else {
                    Ok((s1.rebind(i, r), None))
                },
            }
        },
    }
}

/// A compound assignment: one instruction, which reads the register of the
/// name and that of the value, and defines the register that the name is
/// bound to from now on.
pub open spec fn lower_compound(
    src: Seq<u8>,
    name: Span,
    op: BinaryOp,
    value: Expr,
    st: State,
) -> StmtOut {
    match lookup(src, st.symbols, st.floor, name) {
        None => Err(failure(ErrorKind::Undeclared { name }, name.start)),
        Some(i) => if !st.symbols[i].mutable {
            Err(failure(ErrorKind::NotDeclaredMutable { name }, name.start))
        } else {
            match lower_expr(src, value, st) {
                Err(e) => Err(e),
                Ok((s1, b, _)) => Ok(
                    (
                        s1.define(
                            Instr::AssignOp { dest: s1.reg(), op, lhs: st.symbols[i].reg, rhs: b },
                        ).rebind(i, s1.reg()),
                        None,
                    ),
                ),
            }
        },
    }
}

/// An indexed store: the index, then the value, then the address of the
/// element and the store to it. The array has to be declared `mut`.
pub open spec fn lower_store(src: Seq<u8>, array: Span, index: Expr, value: Expr, st: State) -> StmtOut {
    match lookup(src, st.symbols, st.floor, array) {
        None => Err(failure(ErrorKind::Undeclared { name: array }, array.start)),
        Some(i) => if !st.symbols[i].mutable {
            Err(failure(ErrorKind::Immutable { name: array }, array.start))
        } else {
            match lower_expr(src, index, st) {
                Err(e) => Err(e),
                Ok((s1, at, _)) => match lower_expr(src, value, s1) {
                    Err(e) => Err(e),
                    Ok((s2, v, _)) => Ok(
                        (
                            s2.define(
                                Instr::IndexAddr {
                                    dest: s2.reg(),
                                    elem: Prim::I32,
                                    array: st.symbols[i].reg,
                                    index: at,
                                },
                            ).emit(Instr::Store { ty: Prim::I32, addr: s2.reg(), value: v }),
                            None,
                        ),
                    ),
                },
            }
        },
    }
}

/// The declaration of an array: a fresh array, and the name bound to it.
pub open spec fn lower_array(name: Span, mutable: bool, len: usize, st: State) -> StmtOut {
    Ok(
        (
            st.define(Instr::ArrayAlloc { dest: st.reg(), elem: Prim::I32, len }).declare(
                name,
                Type::Array { len },
                mutable,
                st.reg(),
            ),
            None,
        ),
    )
}

/// A jump out of the innermost loop, or to its start: there has to be a loop.
pub open spec fn lower_jump(leave: bool, pos: usize, st: State) -> StmtOut {
    if st.loops.len() == 0 {
        Err(failure(ErrorKind::NoEnclosingLoop, pos))
    } else if leave {
        Ok((st.emit(Instr::Jump { target: st.loops.last().exit }), None))
    } else {
        Ok((st.emit(Instr::Jump { target: st.loops.last().start }), None))
    }
}

/// A statement. With the state comes the register of the value, where the
/// statement is the expression that ends a block.
pub open spec fn lower_stmt(src: Seq<u8>, s: Stmt, st: State) -> StmtOut
    decreases s, 0nat,
{
    match s {
        Stmt::Let { name, mutable, ty, init } => lower_let(src, name, mutable, ty, init, st),
        Stmt::ArrayDecl { name, mutable, len } => lower_array(name, mutable, len, st),
        Stmt::Assign { name, value } => lower_assign(src, name, value, st),
        Stmt::CompoundAssign { name, op, value } => lower_compound(src, name, op, value, st),
        Stmt::IndexStore { array, index, value, .. } => lower_store(src, array, index, value, st),
        Stmt::Expr { expr } => match expr {
            Expr::Call { callee, args } => match lower_call(src, callee, args, st, false) {
                Err(e) => Err(e),
                Ok((s1, _)) => Ok((s1, None)),
            },
            _ => match lower_expr(src, expr, st) {
                Err(e) => Err(e),
                Ok((s1, _, _)) => Ok((s1, None)),
            },
        },
        Stmt::Tail { expr } => match lower_expr(src, expr, st) {
            Err(e) => Err(e),
            Ok((s1, r, _)) => Ok((s1, Some(r))),
        },
        Stmt::Block { body } => match lower_block(src, body, st) {
            Err(e) => Err(e),
            Ok((s1, _)) => Ok((s1, None)),
        },
        Stmt::Loop { body, .. } => match lower_block(src, body, st.open_loop()) {
            Err(e) => Err(e),
            Ok((s1, _)) => Ok((s1.close_loop(st), None)),
        },
        Stmt::Break { pos } => lower_jump(true, pos, st),
        Stmt::Continue { pos } => lower_jump(false, pos, st),
        Stmt::If { cond, then_body, else_body, .. } => match lower_expr(src, cond, st) {
            Err(e) => Err(e),
            Ok((s1, c, _)) => match lower_block(src, then_body, s1.open_branch(c)) {
                Err(e) => Err(e),
                Ok((s2, _)) => match lower_block(src, else_body, s2.join(s1.label(2), s1.label(1))) {
                    Err(e) => Err(e),
                    Ok((s3, _)) => Ok((s3.join(s1.label(2), s1.label(2)), None)),
                },
            },
        },
    }
}

/// Statements, in a scope of their own.
pub open spec fn lower_block(src: Seq<u8>, body: List<Stmt>, st: State) -> StmtOut
    decreases body, 1nat,
{
    match lower_stmts(src, body, st.enter()) {
        Err(e) => Err(e),
        Ok((s1, value)) => Ok((s1.leave(st), value)),
    }
}

/// Statements, from the first to the last. The value is that of the last.
pub open spec fn lower_stmts(src: Seq<u8>, l: List<Stmt>, st: State) -> StmtOut
    decreases l, 0nat,
{
    match l {
        List::Nil => Ok((st, None)),
        List::Cons(head, tail) => match lower_stmt(src, *head, st) {
            Err(e) => Err(e),
            Ok((s1, value)) => if *tail is Nil {
                Ok((s1, value))
            } else {
                lower_stmts(src, *tail, s1)
            },
        },
    }
}

/// The parameters of a function, each bound to a fresh register.
pub open spec fn bind_params(params: List<Param>, st: State) -> (State, List<Reg>)
    decreases params,
{
    match params {
        List::Nil => (st, List::Nil),
        List::Cons(p, rest) => {
            let bound = bind_params(
                *rest,
                State { next_reg: st.next_reg + 1, ..st.declare(p.name, p.ty, p.mutable, st.reg()) },
            );
            (bound.0, List::Cons(Box::new(st.reg()), Box::new(bound.1)))
        },
    }
}

/// A function: it is declared from its own body on. The body is a scope
/// that holds the parameters and sees nothing of the bindings around the
/// function; its code stands between `fn` and `ret`.
pub open spec fn lower_fn(src: Seq<u8>, f: FnDecl, st: State) -> Result<State, CompileError> {
    let declared = State {
        funcs: st.funcs.push(FuncSig { name: f.name, arity: f.params.len() as usize }),
        ..st
    };
    let bound = bind_params(
        f.params,
        State { floor: declared.symbols.len(), ..declared.enter() },
    );
    let inside = bound.0.emit(Instr::Func { name: f.name, params: bound.1 });
    match lower_stmts(src, f.body, inside) {
        Err(e) => Err(e),
        Ok((s1, value)) => Ok(s1.emit(Instr::Ret { value }).leave(declared)),
    }
}

/// An item: a function, or a statement of the top level.
pub open spec fn lower_item(src: Seq<u8>, item: Item, st: State) -> Result<State, CompileError> {
    match item {
        Item::Fn(f) => lower_fn(src, f, st),
        Item::Stmt(s) => match lower_stmt(src, s, st) {
            Err(e) => Err(e),
            Ok((s1, _)) => Ok(s1),
        },
    }
}

/// Items, from the first to the last.
pub open spec fn lower_items(src: Seq<u8>, l: List<Item>, st: State) -> Result<State, CompileError>
    decreases l,
{
    match l {
        List::Nil => Ok(st),
        List::Cons(head, tail) => match lower_item(src, *head, st) {
            Err(e) => Err(e),
            Ok(s1) => lower_items(src, *tail, s1),
        },
    }
}

/// A compilation unit: the state after its items, from the initial state.
pub open spec fn lower_unit(src: Seq<u8>, unit: List<Item>) -> Result<State, CompileError> {
    lower_items(src, unit, State::initial())
}

} // verus!
