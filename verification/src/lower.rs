//! The lowering pass: it walks the syntax tree and writes the IR, with one
//! function for each function of the module `lowering`, which says what is
//! written.

use vstd::prelude::*;
use crate::span::{List, Span};
use crate::error::{CompileError, ErrorKind};
use crate::lexer::is_name;
use crate::ast::{BinaryOp, Expr, FnDecl, Item, Param, Stmt, Type, UnaryOp};
use crate::ast::{expr_size, exprs_size, item_size, items_size, stmt_size, stmts_size};
use crate::ast::{expr_named, exprs_named, fn_named, item_named, items_named, stmt_named, stmts_named};
use crate::ir::{Instr, Label, Prim, Reg};
use crate::scope::{resolve, resolve_func, FuncSig, LoopLabels, Symbol};
use crate::lowering::{
    bind_params, lower_args, lower_array, lower_assign, lower_block, lower_call, lower_compound,
    lower_expr, lower_fn, lower_item, lower_items, lower_jump, lower_let, lower_stmt, lower_stmts,
    lower_store, lower_unit, State, StmtOut,
};
use crate::form::{
    counts_from, defs, fit, fits, home, lemma_counts_cons, lemma_define, lemma_emit,
    lemma_fits_cons, lemma_home_kept, names_ok, reads_local, reg_of, single_assignment, tidy, uses,
};
use crate::wiring::{
    carries, jumps_resolve, label_of, lemma_carries, lemma_carries_from, lemma_carries_same,
    lemma_carries_to, lemma_carries_wired, lemma_wired_branch, lemma_wired_jump, lemma_wired_loop,
    lemma_wired_plain, lemma_wired_resolves, target_of,
};

verus! {

/// The state of the pass.
pub struct Lowerer {
    pub symbols: Vec<Symbol>,
    pub floor: usize,
    pub funcs: Vec<FuncSig>,
    pub loops: Vec<LoopLabels>,
    pub depth: usize,
    pub next_reg: usize,
    pub next_label: usize,
    pub code: Vec<Instr>,
}

impl View for Lowerer {
    type V = State;

    open spec fn view(&self) -> State {
        State {
            symbols: self.symbols@,
            floor: self.floor as nat,
            funcs: self.funcs@,
            loops: self.loops@,
            depth: self.depth as nat,
            next_reg: self.next_reg as nat,
            next_label: self.next_label as nat,
            code: self.code@,
        }
    }
}

/// The counters of `st` can go up by `n`.
pub open spec fn room(st: State, n: nat) -> bool {
    &&& st.next_reg + n <= usize::MAX
    &&& st.next_label + n <= usize::MAX
    &&& st.depth + n <= usize::MAX
}

/// From `before` to `after` the counters went up by `n` at most, the depth
/// and the loops are the same, and no symbol of `before` is gone.
pub open spec fn within(before: State, after: State, n: nat) -> bool {
    &&& before.next_reg <= after.next_reg <= before.next_reg + n
    &&& before.next_label <= after.next_label <= before.next_label + n
    &&& after.depth == before.depth
    &&& after.floor == before.floor
    &&& after.loops == before.loops
    &&& after.symbols.len() >= before.symbols.len()
}

/// What a step of the pass returned, with the state that it left.
pub open spec fn stmt_out(r: Result<Option<Reg>, CompileError>, after: State) -> StmtOut {
    match r {
        Ok(value) => Ok((after, value)),
        Err(e) => Err(e),
    }
}

/// Where the state was tidy before a step, it is tidy after it, and the
/// value of the step is in a defined register.
pub open spec fn kept(before: State, after: State, value: Option<Reg>) -> bool {
    &&& home(after.code) == home(before.code)
    &&& tidy(before) ==> tidy(after) && fits(reg_of(value), after)
}

/// Where the names in the instructions were identifiers of `src` before a
/// step, they are after it.
pub open spec fn names_kept(src: Seq<u8>, before: State, after: State) -> bool {
    names_ok(src, before.code) ==> names_ok(src, after.code)
}

/// From `before` to `after` only instructions were written that read no
/// register and hold no name: a tidy state stays tidy, and names that were
/// identifiers of a source still are.
pub open spec fn plain(before: State, after: State) -> bool {
    &&& home(after.code) == home(before.code)
    &&& tidy(before) ==> tidy(after)
    &&& forall|src: Seq<u8>| names_ok(src, before.code) ==> #[trigger] names_ok(src, after.code)
}

/// The symbols of the state are bound to registers below its count.
pub open spec fn bound(st: State) -> bool {
    forall|i: int| 0 <= i < st.symbols.len() ==> (#[trigger] st.symbols[i]).reg.0 < st.next_reg
}

/// A list of expressions has no more items than nodes.
pub proof fn lemma_exprs_size(l: List<Expr>)
    ensures
        l.len() <= exprs_size(l),
    decreases l,
{
    match l {
        List::Nil => {},
        List::Cons(head, tail) => {
            lemma_exprs_size(*tail);
            assert(expr_size(*head) >= 1) by {
                reveal_with_fuel(expr_size, 1);
            }
        },
    }
}

impl Lowerer {
    /// The state before anything is lowered.
    pub fn new() -> (l: Lowerer)
        ensures
            l@ == State::initial(),
    {
        Lowerer {
            symbols: Vec::new(),
            floor: 0,
            funcs: Vec::new(),
            loops: Vec::new(),
            depth: 0,
            next_reg: 0,
            next_label: 0,
            code: Vec::new(),
        }
    }

    /// The next fresh register.
    fn next(&self) -> (r: Reg)
        ensures
            r == self@.reg(),
    {
        Reg(self.next_reg)
    }

    /// Writes an instruction that defines the next fresh register.
    fn define(&mut self, instr: Instr)
        requires
            old(self)@.next_reg < usize::MAX,
            defs(instr) == seq![old(self)@.reg()],
            !(instr is Func),
        ensures
            final(self)@ == old(self)@.define(instr),
            home(final(self)@.code) == home(old(self)@.code),
            tidy(old(self)@) && fits(uses(instr), old(self)@) ==> tidy(final(self)@) && fit(
                old(self)@.reg(),
                final(self)@,
            ),
            carries(old(self)@, final(self)@),
    {
        proof {
            lemma_home_kept(self@.code, instr);
            if tidy(self@) && fits(uses(instr), self@) {
                lemma_define(self@, instr);
            }
            assert(defs(instr).len() == 1);
            lemma_wired_plain(self@, self@.define(instr), instr);
            lemma_carries(self@, self@.define(instr));
        }
        self.code.push(instr);
        self.next_reg = self.next_reg + 1;
    }

    /// Writes an instruction that defines no register.
    fn emit(&mut self, instr: Instr)
        requires
            defs(instr).len() == 0,
            !(instr is Func),
            !(instr is Ret),
        ensures
            final(self)@ == old(self)@.emit(instr),
            home(final(self)@.code) == home(old(self)@.code),
            tidy(old(self)@) && fits(uses(instr), old(self)@) ==> tidy(final(self)@),
            label_of(instr) is None && target_of(instr) is None ==> carries(old(self)@, final(self)@),
    {
        proof {
            lemma_home_kept(self@.code, instr);
            if tidy(self@) && fits(uses(instr), self@) {
                lemma_emit(self@, instr);
            }
            if label_of(instr) is None && target_of(instr) is None {
                lemma_wired_plain(self@, self@.emit(instr), instr);
                lemma_carries(self@, self@.emit(instr));
            }
        }
        self.code.push(instr);
    }

    /// Lowers an expression: the register of its value, and the value's type.
    pub fn expr(&mut self, src: &[u8], e: &Expr) -> (r: Result<(Reg, Type), CompileError>)
        requires
            room(old(self)@, expr_size(*e)),
        ensures
            match r {
                Ok((reg, ty)) => {
                    &&& lower_expr(src@, *e, old(self)@) == Ok::<(State, Reg, Type), CompileError>(
                        (final(self)@, reg, ty),
                    )
                    &&& within(old(self)@, final(self)@, expr_size(*e))
                    &&& final(self)@.symbols == old(self)@.symbols
                    &&& final(self)@.next_label == old(self)@.next_label
                    &&& home(final(self)@.code) == home(old(self)@.code)
                    &&& tidy(old(self)@) ==> tidy(final(self)@) && fit(reg, final(self)@)
                    &&& expr_named(src@, *e) ==> names_kept(src@, old(self)@, final(self)@)
                    &&& carries(old(self)@, final(self)@)
                },
                Err(err) => lower_expr(src@, *e, old(self)@) == Err::<(State, Reg, Type), CompileError>(
                    err,
                ),
            },
        decreases *e, 0nat,
    {
        match e {
            Expr::Literal { value, .. } => {
                let dest = self.next();
                self.define(Instr::Const { dest, ty: Prim::I32, value: *value });
                Ok((dest, Type::Int))
            },
            Expr::Ident { name } => match resolve(src, &self.symbols, self.floor, *name) {
                None => Err(CompileError { kind: ErrorKind::Undeclared { name: *name }, pos: name.start }),
                Some(i) => {
                    proof {
                        lemma_carries_same(self@, self@);
                    }
                    Ok((self.symbols[i].reg, self.symbols[i].ty))
                },
            },
            Expr::Unary { op, operand, .. } => match self.expr(src, operand) {
                Err(err) => Err(err),
                Ok((a, _)) => {
                    let dest = self.next();
                    self.define(Instr::UnaryOp { dest, op: *op, operand: a });
                    Ok((dest, Type::Int))
                },
            },
            Expr::Binary { op, lhs, rhs, .. } => match self.expr(src, lhs) {
                Err(err) => Err(err),
                Ok((a, _)) => match self.expr(src, rhs) {
                    Err(err) => Err(err),
                    Ok((b, _)) => {
                        let dest = self.next();
                        self.define(Instr::AssignOp { dest, op: *op, lhs: a, rhs: b });
                        Ok((dest, Type::Int))
                    },
                },
            },
            Expr::Call { callee, args } => match self.call(src, *callee, args, true) {
                Err(err) => Err(err),
                Ok(dest) => Ok((dest.unwrap(), Type::Int)),
            },
            Expr::Tuple { elems, .. } => {
                proof {
                    lemma_exprs_size(*elems);
                }
                let arity = elems.length();
                match self.args(src, elems) {
                    Err(err) => Err(err),
                    Ok(regs) => {
                        let dest = self.next();
                        self.define(Instr::TupleBuild { dest, elems: regs });
                        Ok((dest, Type::Tuple { arity }))
                    },
                }
            },
            Expr::Field { base, index, pos } => match self.expr(src, base) {
                Err(err) => Err(err),
                Ok((t, ty)) => {
                    let in_range = match ty {
                        Type::Tuple { arity } => *index < arity,
                        _ => false,
                    };
                    if in_range {
                        let dest = self.next();
                        self.define(Instr::TupleGet { dest, ty: Prim::I32, tuple: t, index: *index });
                        Ok((dest, Type::Int))
                    } else {
                        Err(CompileError { kind: ErrorKind::TupleIndexOutOfRange, pos: *pos })
                    }
                },
            },
            Expr::Index { base, index, .. } => match self.expr(src, index) {
                Err(err) => Err(err),
                Ok((i, _)) => match self.expr(src, base) {
                    Err(err) => Err(err),
                    Ok((a, _)) => {
                        let dest = self.next();
                        self.define(Instr::IndexLoad { dest, elem: Prim::I32, array: a, index: i });
                        Ok((dest, Type::Int))
                    },
                },
            },
        }
    }

    /// Lowers expressions, from the first to the last: their registers.
    pub fn args(&mut self, src: &[u8], l: &List<Expr>) -> (r: Result<List<Reg>, CompileError>)
        requires
            room(old(self)@, exprs_size(*l)),
        ensures
            match r {
                Ok(regs) => {
                    &&& lower_args(src@, *l, old(self)@) == Ok::<(State, List<Reg>), CompileError>(
                        (final(self)@, regs),
                    )
                    &&& within(old(self)@, final(self)@, exprs_size(*l))
                    &&& final(self)@.symbols == old(self)@.symbols
                    &&& final(self)@.next_label == old(self)@.next_label
                    &&& home(final(self)@.code) == home(old(self)@.code)
                    &&& tidy(old(self)@) ==> tidy(final(self)@) && fits(regs@, final(self)@)
                    &&& exprs_named(src@, *l) ==> names_kept(src@, old(self)@, final(self)@)
                    &&& carries(old(self)@, final(self)@)
                },
                Err(err) => lower_args(src@, *l, old(self)@) == Err::<(State, List<Reg>), CompileError>(
                    err,
                ),
            },
        decreases *l, 0nat,
    {
        match l {
            List::Nil => {
                proof {
                    lemma_carries_same(self@, self@);
                }
                Ok(List::Nil)
            },
            List::Cons(head, tail) => match self.expr(src, head) {
                Err(err) => Err(err),
                Ok((reg, _)) => match self.args(src, tail) {
                    Err(err) => Err(err),
                    Ok(regs) => {
                        proof {
                            if tidy(old(self)@) {
                                lemma_fits_cons(reg, regs, self@);
                            }
                        }
                        Ok(List::Cons(Box::new(reg), Box::new(regs)))
                    },
                },
            },
        }
    }

    /// Lowers a call. The result is kept in a fresh register where `keep`
    /// says so.
    pub fn call(&mut self, src: &[u8], callee: Span, args: &List<Expr>, keep: bool) -> (r: Result<
        Option<Reg>,
        CompileError,
    >)
        requires
            room(old(self)@, 1 + exprs_size(*args)),
        ensures
            match r {
                Ok(dest) => {
                    &&& lower_call(src@, callee, *args, old(self)@, keep) == Ok::<
                        (State, Option<Reg>),
                        CompileError,
                    >((final(self)@, dest))
                    &&& within(old(self)@, final(self)@, 1 + exprs_size(*args))
                    &&& final(self)@.symbols == old(self)@.symbols
                    &&& final(self)@.next_label == old(self)@.next_label
                    &&& keep ==> dest is Some
                    &&& home(final(self)@.code) == home(old(self)@.code)
                    &&& tidy(old(self)@) ==> tidy(final(self)@) && (dest matches Some(d) ==> fit(
                        d,
                        final(self)@,
                    ))
                    &&& is_name(src@, callee) && exprs_named(src@, *args) ==> names_kept(
                        src@,
                        old(self)@,
                        final(self)@,
                    )
                    &&& carries(old(self)@, final(self)@)
                },
                Err(err) => lower_call(src@, callee, *args, old(self)@, keep) == Err::<
                    (State, Option<Reg>),
                    CompileError,
                >(err),
            },
        decreases *args, 1nat,
    {
        proof {
            lemma_exprs_size(*args);
        }
        match resolve_func(src, &self.funcs, callee) {
            None => Err(CompileError { kind: ErrorKind::Undeclared { name: callee }, pos: callee.start }),
            Some(f) => if self.funcs[f].arity != args.length() {
                Err(CompileError { kind: ErrorKind::ArityMismatch, pos: callee.start })
            } else {
                match self.args(src, args) {
                    Err(err) => Err(err),
                    Ok(regs) => if keep {
                        let dest = self.next();
                        self.define(Instr::Call { dest: Some(dest), callee, args: regs });
                        Ok(Some(dest))
                    } else {
                        self.emit(Instr::Call { dest: None, callee, args: regs });
                        Ok(None)
                    },
                }
            },
        }
    }

    fn declare(&mut self, name: Span, ty: Type, mutable: bool, reg: Reg)
        ensures
            final(self)@ == old(self)@.declare(name, ty, mutable, reg),
            tidy(old(self)@) && fit(reg, old(self)@) ==> tidy(final(self)@),
            carries(old(self)@, final(self)@),
    {
        proof {
            lemma_carries_same(self@, self@.declare(name, ty, mutable, reg));
        }
        self.symbols.push(Symbol { name, ty, mutable, depth: self.depth, reg });
    }

    fn rebind(&mut self, i: usize, reg: Reg)
        requires
            i < old(self)@.symbols.len(),
        ensures
            final(self)@ == old(self)@.rebind(i as int, reg),
            tidy(old(self)@) && fit(reg, old(self)@) ==> tidy(final(self)@),
            carries(old(self)@, final(self)@),
    {
        proof {
            lemma_carries_same(self@, self@.rebind(i as int, reg));
        }
        let old_symbol = self.symbols[i];
        self.symbols.set(i, Symbol { reg, ..old_symbol });
    }

    /// Takes `n` fresh labels: the first of them.
    fn labels(&mut self, n: usize) -> (first: usize)
        requires
            old(self)@.next_label + n <= usize::MAX,
        ensures
            first == old(self)@.next_label,
            final(self)@ == old(self)@.take_labels(n as nat),
            tidy(old(self)@) ==> tidy(final(self)@),
    {
        let first = self.next_label;
        self.next_label = self.next_label + n;
        first
    }

    fn let_stmt(
        &mut self,
        src: &[u8],
        name: Span,
        mutable: bool,
        ty: Option<Type>,
        init: &Expr,
    ) -> (r: Result<Option<Reg>, CompileError>)
        requires
            room(old(self)@, expr_size(*init)),
        ensures
            stmt_out(r, final(self)@) == lower_let(src@, name, mutable, ty, *init, old(self)@),
            r is Ok ==> within(old(self)@, final(self)@, expr_size(*init)),
            r matches Ok(value) ==> kept(old(self)@, final(self)@, value),
            r is Ok ==> carries(old(self)@, final(self)@),
            r is Ok && expr_named(src@, *init) ==> names_kept(src@, old(self)@, final(self)@),
    {
        match self.expr(src, init) {
            Err(err) => Err(err),
            Ok((reg, found)) => {
                let fits = match ty {
                    Some(declared) => declared == found,
                    None => true,
                };
                if fits {
                    self.declare(name, found, mutable, reg);
                    Ok(None)
                } else {
                    Err(CompileError { kind: ErrorKind::ArityMismatch, pos: init.position() })
                }
            },
        }
    }

    fn assign(&mut self, src: &[u8], name: Span, value: &Expr) -> (r: Result<
        Option<Reg>,
        CompileError,
    >)
        requires
            room(old(self)@, expr_size(*value)),
        ensures
            stmt_out(r, final(self)@) == lower_assign(src@, name, *value, old(self)@),
            r is Ok ==> within(old(self)@, final(self)@, expr_size(*value)),
            r matches Ok(value) ==> kept(old(self)@, final(self)@, value),
            r is Ok ==> carries(old(self)@, final(self)@),
            r is Ok && expr_named(src@, *value) ==> names_kept(src@, old(self)@, final(self)@),
    {
        match resolve(src, &self.symbols, self.floor, name) {
            None => Err(CompileError { kind: ErrorKind::Undeclared { name }, pos: name.start }),
            Some(i) => if !self.symbols[i].mutable {
                Err(CompileError { kind: ErrorKind::NotDeclaredMutable { name }, pos: name.start })
            } else {
                let declared = self.symbols[i].ty;
                match self.expr(src, value) {
                    Err(err) => Err(err),
                    Ok((reg, found)) => if found != declared {
                        Err(CompileError { kind: ErrorKind::ArityMismatch, pos: value.position() })
                    } else {
                        self.rebind(i, reg);
                        Ok(None)
                    },
                }
            },
        }
    }

    fn compound(&mut self, src: &[u8], name: Span, op: BinaryOp, value: &Expr) -> (r: Result<
        Option<Reg>,
        CompileError,
    >)
        requires
            room(old(self)@, 1 + expr_size(*value)),
        ensures
            stmt_out(r, final(self)@) == lower_compound(src@, name, op, *value, old(self)@),
            r is Ok ==> within(old(self)@, final(self)@, 1 + expr_size(*value)),
            r matches Ok(value) ==> kept(old(self)@, final(self)@, value),
            r is Ok ==> carries(old(self)@, final(self)@),
            r is Ok && expr_named(src@, *value) ==> names_kept(src@, old(self)@, final(self)@),
    {
        match resolve(src, &self.symbols, self.floor, name) {
            None => Err(CompileError { kind: ErrorKind::Undeclared { name }, pos: name.start }),
            Some(i) => if !self.symbols[i].mutable {
                Err(CompileError { kind: ErrorKind::NotDeclaredMutable { name }, pos: name.start })
            } else {
                let current = self.symbols[i].reg;
                match self.expr(src, value) {
                    Err(err) => Err(err),
                    Ok((b, _)) => {
                        let dest = self.next();
                        self.define(Instr::AssignOp { dest, op, lhs: current, rhs: b });
                        self.rebind(i, dest);
                        Ok(None)
                    },
                }
            },
        }
    }

    fn store(&mut self, src: &[u8], array: Span, index: &Expr, value: &Expr) -> (r: Result<
        Option<Reg>,
        CompileError,
    >)
        requires
            room(old(self)@, 1 + expr_size(*index) + expr_size(*value)),
        ensures
            stmt_out(r, final(self)@) == lower_store(src@, array, *index, *value, old(self)@),
            r is Ok ==> within(old(self)@, final(self)@, 1 + expr_size(*index) + expr_size(*value)),
            r matches Ok(value) ==> kept(old(self)@, final(self)@, value),
            r is Ok ==> carries(old(self)@, final(self)@),
            r is Ok && expr_named(src@, *index) && expr_named(src@, *value) ==> names_kept(src@, old(self)@, final(self)@),
    {
        match resolve(src, &self.symbols, self.floor, array) {
            None => Err(CompileError { kind: ErrorKind::Undeclared { name: array }, pos: array.start }),
            Some(i) => if !self.symbols[i].mutable {
                Err(CompileError { kind: ErrorKind::Immutable { name: array }, pos: array.start })
            } else {
                let base = self.symbols[i].reg;
                match self.expr(src, index) {
                    Err(err) => Err(err),
                    Ok((at, _)) => match self.expr(src, value) {
                        Err(err) => Err(err),
                        Ok((v, _)) => {
                            let dest = self.next();
                            self.define(Instr::IndexAddr { dest, elem: Prim::I32, array: base, index: at });
                            self.emit(Instr::Store { ty: Prim::I32, addr: dest, value: v });
                            Ok(None)
                        },
                    },
                }
            },
        }
    }

    fn array(&mut self, name: Span, mutable: bool, len: usize) -> (r: Result<
        Option<Reg>,
        CompileError,
    >)
        requires
            room(old(self)@, 1),
        ensures
            stmt_out(r, final(self)@) == lower_array(name, mutable, len, old(self)@),
            r is Ok,
            within(old(self)@, final(self)@, 1),
            kept(old(self)@, final(self)@, None),
            carries(old(self)@, final(self)@),
    {
        let dest = self.next();
        self.define(Instr::ArrayAlloc { dest, elem: Prim::I32, len });
        self.declare(name, Type::Array { len }, mutable, dest);
        Ok(None)
    }

    fn jump(&mut self, leave: bool, pos: usize) -> (r: Result<Option<Reg>, CompileError>)
        ensures
            stmt_out(r, final(self)@) == lower_jump(leave, pos, old(self)@),
            r is Ok ==> within(old(self)@, final(self)@, 0),
            r matches Ok(value) ==> kept(old(self)@, final(self)@, value),
            r is Ok ==> carries(old(self)@, final(self)@),
    {
        if self.loops.len() == 0 {
            Err(CompileError { kind: ErrorKind::NoEnclosingLoop, pos })
        } else {
            let innermost = self.loops[self.loops.len() - 1];
            let target = if leave { innermost.exit } else { innermost.start };
            proof {
                assert(self@.loops[self@.loops.len() - 1] == innermost);
                lemma_wired_jump(self@, self@.emit(Instr::Jump { target }), target);
                lemma_carries(self@, self@.emit(Instr::Jump { target }));
            }
            self.emit(Instr::Jump { target });
            Ok(None)
        }
    }

    /// Starts a loop: takes its two labels, makes it the innermost loop, and
    /// writes its start label.
    fn open_loop(&mut self) -> (labels: LoopLabels)
        requires
            old(self)@.next_label + 2 <= usize::MAX,
        ensures
            labels == old(self)@.loop_labels(),
            final(self)@ == old(self)@.open_loop(),
            plain(old(self)@, final(self)@),
    {
        let first = self.labels(2);
        let labels = LoopLabels { start: Label(first), exit: Label(first + 1) };
        self.loops.push(labels);
        self.emit(Instr::Label { label: labels.start });
        labels
    }

    /// Ends the innermost loop: writes the jump back to its start, and its
    /// exit label.
    fn close_loop(&mut self, labels: LoopLabels)
        requires
            old(self)@.loops.len() > 0,
        ensures
            final(self)@ == old(self)@.with_loops(old(self)@.loops.drop_last()).emit(
                Instr::Jump { target: labels.start },
            ).emit(Instr::Label { label: labels.exit }),
            plain(old(self)@, final(self)@),
    {
        self.loops.pop();
        self.emit(Instr::Jump { target: labels.start });
        self.emit(Instr::Label { label: labels.exit });
    }

    /// Starts a conditional on `cond`: takes its three labels, of which the
    /// first is returned, and writes the branch to the first, the jump to
    /// the second, and the first label.
    fn branch(&mut self, cond: Reg) -> (first: usize)
        requires
            old(self)@.next_label + 3 <= usize::MAX,
        ensures
            first == old(self)@.next_label,
            final(self)@ == old(self)@.open_branch(cond),
            home(final(self)@.code) == home(old(self)@.code),
            tidy(old(self)@) && fit(cond, old(self)@) ==> tidy(final(self)@),
            forall|src: Seq<u8>|
                names_ok(src, old(self)@.code) ==> #[trigger] names_ok(src, final(self)@.code),
    {
        let first = self.labels(3);
        self.emit(Instr::Branch { cond, target: Label(first) });
        self.emit(Instr::Jump { target: Label(first + 1) });
        self.emit(Instr::Label { label: Label(first) });
        first
    }

    /// Ends a branch of a conditional: writes the jump to `end`, and the
    /// label `next`.
    fn join(&mut self, end: Label, next: Label)
        ensures
            final(self)@ == old(self)@.join(end, next),
            plain(old(self)@, final(self)@),
    {
        self.emit(Instr::Jump { target: end });
        self.emit(Instr::Label { label: next });
    }

    /// Lowers a statement. With a statement that is the value of its block
    /// comes the register of that value.
    pub fn stmt(&mut self, src: &[u8], s: &Stmt) -> (r: Result<Option<Reg>, CompileError>)
        requires
            room(old(self)@, stmt_size(*s)),
        ensures
            stmt_out(r, final(self)@) == lower_stmt(src@, *s, old(self)@),
            r is Ok ==> within(old(self)@, final(self)@, stmt_size(*s)),
            r matches Ok(value) ==> kept(old(self)@, final(self)@, value),
            r is Ok ==> carries(old(self)@, final(self)@),
            r is Ok && stmt_named(src@, *s) ==> names_kept(src@, old(self)@, final(self)@),
        decreases *s, 0nat,
    {
        match s {
            Stmt::Let { name, mutable, ty, init } => self.let_stmt(src, *name, *mutable, *ty, init),
            Stmt::ArrayDecl { name, mutable, len } => self.array(*name, *mutable, *len),
            Stmt::Assign { name, value } => self.assign(src, *name, value),
            Stmt::CompoundAssign { name, op, value } => self.compound(src, *name, *op, value),
            Stmt::IndexStore { array, index, value, .. } => self.store(src, *array, index, value),
            Stmt::Expr { expr } => match expr {
                Expr::Call { callee, args } => match self.call(src, *callee, args, false) {
                    Err(err) => Err(err),
                    Ok(_) => Ok(None),
                },
                _ => match self.expr(src, expr) {
                    Err(err) => Err(err),
                    Ok(_) => Ok(None),
                },
            },
            Stmt::Tail { expr } => match self.expr(src, expr) {
                Err(err) => Err(err),
                Ok((reg, _)) => Ok(Some(reg)),
            },
            Stmt::Block { body } => match self.block(src, body) {
                Err(err) => Err(err),
                Ok(_) => Ok(None),
            },
            Stmt::Loop { body, .. } => {
                let labels = self.open_loop();
                match self.block(src, body) {
                    Err(err) => Err(err),
                    Ok(_) => {
                        let ghost inner = self@;
                        self.close_loop(labels);
                        assert(self.loops@ =~= old(self).loops@);
                        proof {
                            lemma_carries_wired(old(self)@.open_loop(), inner);
                            lemma_wired_loop(old(self)@, inner);
                            lemma_carries(old(self)@, self@);
                        }
                        Ok(None)
                    },
                }
            },
            Stmt::Break { pos } => self.jump(true, *pos),
            Stmt::Continue { pos } => self.jump(false, *pos),
            Stmt::If { cond, then_body, else_body, .. } => match self.expr(src, cond) {
                Err(err) => Err(err),
                Ok((c, _)) => {
                    let ghost start = self@;
                    let first = self.branch(c);
                    let else_label = Label(first + 1);
                    let end_label = Label(first + 2);
                    match self.block(src, then_body) {
                        Err(err) => Err(err),
                        Ok(_) => {
                            let ghost upper = self@;
                            self.join(end_label, else_label);
                            match self.block(src, else_body) {
                                Err(err) => Err(err),
                                Ok(_) => {
                                    let ghost lower = self@;
                                    self.join(end_label, end_label);
                                    proof {
                                        lemma_carries_wired(start.open_branch(c), upper);
                                        lemma_carries_wired(
                                            upper.join(start.label(2), start.label(1)),
                                            lower,
                                        );
                                        lemma_wired_branch(start, c, upper, lower);
                                        lemma_carries(start, self@);
                                    }
                                    Ok(None)
                                },
                            }
                        },
                    }
                },
            },
        }
    }

    /// Lowers statements in a scope of their own.
    pub fn block(&mut self, src: &[u8], body: &List<Stmt>) -> (r: Result<Option<Reg>, CompileError>)
        requires
            room(old(self)@, 1 + stmts_size(*body)),
        ensures
            stmt_out(r, final(self)@) == lower_block(src@, *body, old(self)@),
            r is Ok ==> within(old(self)@, final(self)@, stmts_size(*body)),
            r matches Ok(value) ==> kept(old(self)@, final(self)@, value),
            r is Ok ==> carries(old(self)@, final(self)@),
            r is Ok && stmts_named(src@, *body) ==> names_kept(src@, old(self)@, final(self)@),
        decreases *body, 1nat,
    {
        let outer = self.symbols.len();
        self.depth = self.depth + 1;
        let ghost inside = self@;
        match self.stmts(src, body) {
            Err(err) => Err(err),
            Ok(value) => {
                let ghost inner = self@;
                self.symbols.truncate(outer);
                self.depth = self.depth - 1;
                proof {
                    lemma_carries_to(inside, inner, self@);
                    lemma_carries_from(old(self)@, inside, self@);
                }
                Ok(value)
            },
        }
    }

    /// Lowers statements, from the first to the last.
    pub fn stmts(&mut self, src: &[u8], l: &List<Stmt>) -> (r: Result<Option<Reg>, CompileError>)
        requires
            room(old(self)@, stmts_size(*l)),
        ensures
            stmt_out(r, final(self)@) == lower_stmts(src@, *l, old(self)@),
            r is Ok ==> within(old(self)@, final(self)@, stmts_size(*l)),
            r matches Ok(value) ==> kept(old(self)@, final(self)@, value),
            r is Ok ==> carries(old(self)@, final(self)@),
            r is Ok && stmts_named(src@, *l) ==> names_kept(src@, old(self)@, final(self)@),
        decreases *l, 0nat,
    {
        match l {
            List::Nil => {
                proof {
                    lemma_carries_same(self@, self@);
                }
                Ok(None)
            },
            List::Cons(head, tail) => match self.stmt(src, head) {
                Err(err) => Err(err),
                Ok(value) => match **tail {
                    List::Nil => Ok(value),
                    _ => self.stmts(src, tail),
                },
            },
        }
    }

    /// Binds the parameters of a function to fresh registers.
    fn params(&mut self, params: &List<Param>) -> (regs: List<Reg>)
        requires
            old(self)@.next_reg + params.len() <= usize::MAX,
        ensures
            (final(self)@, regs) == bind_params(*params, old(self)@),
            final(self)@.next_reg == old(self)@.next_reg + params.len(),
            final(self)@.next_label == old(self)@.next_label,
            final(self)@.depth == old(self)@.depth,
            final(self)@.floor == old(self)@.floor,
            final(self)@.loops == old(self)@.loops,
            final(self)@.symbols.len() >= old(self)@.symbols.len(),
            final(self)@.code == old(self)@.code,
            regs@.len() == params.len(),
            counts_from(regs@, old(self)@.next_reg),
            bound(old(self)@) ==> bound(final(self)@),
            forall|i: int|
                0 <= i < old(self)@.symbols.len() ==> #[trigger] final(self)@.symbols[i] == old(
                    self,
                )@.symbols[i],
            forall|i: int|
                old(self)@.symbols.len() <= i < final(self)@.symbols.len() ==> (
                #[trigger] final(self)@.symbols[i]).reg.0 >= old(self)@.next_reg,
        decreases *params,
    {
        match params {
            List::Nil => List::Nil,
            List::Cons(p, rest) => {
                let reg = Reg(self.next_reg);
                self.declare(p.name, p.ty, p.mutable, reg);
                self.next_reg = self.next_reg + 1;
                let regs = self.params(rest);
                proof {
                    lemma_counts_cons(reg, regs, old(self)@.next_reg);
                }
                List::Cons(Box::new(reg), Box::new(regs))
            },
        }
    }

    /// Lowers a function.
    pub fn function(&mut self, src: &[u8], f: &FnDecl) -> (r: Result<(), CompileError>)
        requires
            room(old(self)@, 1 + f.params.len() + stmts_size(f.body)),
        ensures
            match r {
                Ok(_) => lower_fn(src@, *f, old(self)@) == Ok::<State, CompileError>(final(self)@),
                Err(e) => lower_fn(src@, *f, old(self)@) == Err::<State, CompileError>(e),
            },
            r is Ok ==> within(
                old(self)@,
                final(self)@,
                1 + f.params.len() + stmts_size(f.body),
            ),
            r is Ok ==> (tidy(old(self)@) ==> tidy(final(self)@)),
            r is Ok ==> carries(old(self)@, final(self)@),
            r is Ok && fn_named(src@, *f) ==> names_kept(src@, old(self)@, final(self)@),
    {
        let outer = self.symbols.len();
        let floor = self.floor;
        self.funcs.push(FuncSig { name: f.name, arity: f.params.length() });
        self.depth = self.depth + 1;
        self.floor = outer;
        let regs = self.params(&f.params);
        let ghost before = self@;
        self.code.push(Instr::Func { name: f.name, params: regs });
        let ghost inside = self@;
        proof {
            assert(self@ == before.emit(Instr::Func { name: f.name, params: regs }));
            if tidy(old(self)@) {
                assert(self@.code.drop_last() =~= old(self)@.code);
                assert(home(self@.code) == old(self)@.next_reg);
                assert(tidy(self@));
            }
            lemma_wired_plain(before, inside, Instr::Func { name: f.name, params: regs });
            lemma_carries(before, inside);
            lemma_carries_from(old(self)@, before, inside);
        }
        match self.stmts(src, &f.body) {
            Err(e) => Err(e),
            Ok(value) => {
                let ghost body = self@;
                self.code.push(Instr::Ret { value });
                let ghost inner = self@;
                self.symbols.truncate(outer);
                self.floor = floor;
                self.depth = self.depth - 1;
                proof {
                    assert(inner == body.emit(Instr::Ret { value }));
                    assert(inner.code.drop_last() =~= body.code);
                    lemma_wired_plain(body, inner, Instr::Ret { value });
                    lemma_carries(body, inner);
                    lemma_carries_to(old(self)@, inner, self@);
                }
                Ok(())
            },
        }
    }

    /// Lowers an item.
    pub fn item(&mut self, src: &[u8], item: &Item) -> (r: Result<(), CompileError>)
        requires
            room(old(self)@, item_size(*item)),
        ensures
            match r {
                Ok(_) => lower_item(src@, *item, old(self)@) == Ok::<State, CompileError>(final(self)@),
                Err(e) => lower_item(src@, *item, old(self)@) == Err::<State, CompileError>(e),
            },
            r is Ok ==> within(old(self)@, final(self)@, item_size(*item)),
            r is Ok ==> (tidy(old(self)@) ==> tidy(final(self)@)),
            r is Ok ==> carries(old(self)@, final(self)@),
            r is Ok && item_named(src@, *item) ==> names_kept(src@, old(self)@, final(self)@),
    {
        match item {
            Item::Fn(f) => self.function(src, f),
            Item::Stmt(s) => match self.stmt(src, s) {
                Err(e) => Err(e),
                Ok(_) => Ok(()),
            },
        }
    }

    /// Lowers items, from the first to the last.
    pub fn items(&mut self, src: &[u8], l: &List<Item>) -> (r: Result<(), CompileError>)
        requires
            room(old(self)@, items_size(*l)),
        ensures
            match r {
                Ok(_) => lower_items(src@, *l, old(self)@) == Ok::<State, CompileError>(final(self)@),
                Err(e) => lower_items(src@, *l, old(self)@) == Err::<State, CompileError>(e),
            },
            r is Ok ==> (tidy(old(self)@) ==> tidy(final(self)@)),
            r is Ok ==> carries(old(self)@, final(self)@),
            r is Ok && items_named(src@, *l) ==> names_kept(src@, old(self)@, final(self)@),
        decreases *l,
    {
        match l {
            List::Nil => {
                proof {
                    lemma_carries_same(self@, self@);
                }
                Ok(())
            },
            List::Cons(head, tail) => match self.item(src, head) {
                Err(e) => Err(e),
                Ok(_) => self.items(src, tail),
            },
        }
    }
}

/// What the pass gives for a compilation unit.
pub struct Lowered {
    /// The instructions, in the order of the source. Those of a function
    /// stand between its `Func` and its `Ret`.
    pub code: Vec<Instr>,
    /// The bindings of the top level, as they are at the end.
    pub symbols: Vec<Symbol>,
}

/// The lowering of a unit, as the pass returns it.
pub open spec fn lowered_of(r: Result<Lowered, CompileError>) -> Result<
    (Seq<Instr>, Seq<Symbol>),
    CompileError,
> {
    match r {
        Ok(out) => Ok((out.code@, out.symbols@)),
        Err(e) => Err(e),
    }
}

/// The instructions and the bindings of a lowered unit.
pub open spec fn unit_code(src: Seq<u8>, unit: List<Item>) -> Result<
    (Seq<Instr>, Seq<Symbol>),
    CompileError,
> {
    match lower_unit(src, unit) {
        Ok(st) => Ok((st.code, st.symbols)),
        Err(e) => Err(e),
    }
}

/// Lowers a compilation unit to its instructions. Fails with the first
/// semantic error: a name that is not declared, an assignment to what is not
/// declared `mut`, a tuple access out of range, a type or a number of
/// arguments that does not fit, a `break` or `continue` outside a loop.
///
/// The instructions are in single assignment: every register is defined
/// once, and before it is read. Inside a function they read registers of
/// the function only. Every jump goes to a label of the list, and no label
/// stands there twice.
///
/// The unit must not have more nodes than a `usize` can count, which holds
/// of every unit that `parse` returns.
pub fn lower(src: &[u8], unit: &List<Item>) -> (r: Result<Lowered, CompileError>)
    requires
        items_size(*unit) <= usize::MAX,
    ensures
        lowered_of(r) == unit_code(src@, *unit),
        r matches Ok(out) ==> single_assignment(out.code@),
        r matches Ok(out) ==> reads_local(out.code@),
        r matches Ok(out) ==> jumps_resolve(out.code@),
        items_named(src@, *unit) ==> (r matches Ok(out) ==> names_ok(src@, out.code@)),
{
    let mut pass = Lowerer::new();
    match pass.items(src, unit) {
        Err(e) => Err(e),
        Ok(_) => {
            proof {
                lemma_carries_wired(State::initial(), pass@);
                lemma_wired_resolves(State::initial(), pass@);
            }
            Ok(Lowered { code: pass.code, symbols: pass.symbols })
        },
    }
}

} // verus!
