//! The meaning of the IR: a machine with a file of registers and a store of
//! cells, and what one instruction does to it.
//!
//! Arithmetic is that of 32-bit signed integers and wraps. A comparison gives
//! one or zero, and every integer but zero counts as true. An instruction is
//! stuck where an operand is missing or of the wrong kind, an index or a shift
//! count is out of range, or a divisor is zero.

use vstd::prelude::*;
use crate::span::List;
use crate::ast::{BinaryOp, UnaryOp};
use crate::ir::{Instr, Reg};

verus! {

/// What a register holds.
#[derive(Clone, Copy, Debug, PartialEq, Eq, Structural)]
pub enum Value {
    Int(i32),
    /// An array: the `len` cells from `base` on.
    Array { base: usize, len: usize },
    /// The address of a cell.
    Addr { cell: usize },
    /// A tuple: the `arity` cells from `base` on.
    Tuple { base: usize, arity: usize },
}

/// The state of the machine.
pub struct MachineState {
    /// The registers; `None` where nothing was written yet.
    pub regs: Seq<Option<Value>>,
    /// The cells of all arrays and tuples.
    pub cells: Seq<i32>,
}

/// The integer in the range of `i32` that differs from `v` by a multiple of
/// two to the 32.
pub open spec fn wrap32(v: int) -> i32 {
    ((v + 0x8000_0000) % 0x1_0000_0000 - 0x8000_0000) as i32
}

/// `a` shifted left by `n` bits.
pub open spec fn shl32(a: i32, n: nat) -> i32
    decreases n,
{
    if n == 0 {
        a
    } else {
        wrap32(2 * shl32(a, (n - 1) as nat))
    }
}

/// `a` shifted right by `n` bits, the sign kept.
pub open spec fn ashr32(a: i32, n: nat) -> i32
    decreases n,
{
    if n == 0 {
        a
    } else {
        (ashr32(a, (n - 1) as nat) / 2) as i32
    }
}

/// The absolute value.
pub open spec fn magnitude(a: int) -> int {
    if a < 0 {
        -a
    } else {
        a
    }
}

/// The quotient of `a` by `b`, rounded towards zero; `b` is not zero.
pub open spec fn quotient(a: int, b: int) -> int {
    if (a < 0) == (b < 0) {
        magnitude(a) / magnitude(b)
    } else {
        -(magnitude(a) / magnitude(b))
    }
}

/// The remainder of `a` by `b`, with the sign of `a`; `b` is not zero.
pub open spec fn remainder(a: int, b: int) -> int {
    if a < 0 {
        -(magnitude(a) % magnitude(b))
    } else {
        magnitude(a) % magnitude(b)
    }
}

/// One for true, zero for false.
pub open spec fn truth(b: bool) -> i32 {
    if b {
        1
    } else {
        0
    }
}

/// The result of an infix operator; `None` where it has none.
pub open spec fn apply(op: BinaryOp, a: i32, b: i32) -> Option<i32> {
    match op {
        BinaryOp::Or => Some(truth(a != 0 || b != 0)),
        BinaryOp::And => Some(truth(a != 0 && b != 0)),
        BinaryOp::Eq => Some(truth(a == b)),
        BinaryOp::Ne => Some(truth(a != b)),
        BinaryOp::Lt => Some(truth(a < b)),
        BinaryOp::Le => Some(truth(a <= b)),
        BinaryOp::Gt => Some(truth(a > b)),
        BinaryOp::Ge => Some(truth(a >= b)),
        BinaryOp::Add => Some(wrap32(a + b)),
        BinaryOp::Sub => Some(wrap32(a - b)),
        BinaryOp::Mul => Some(wrap32(a * b)),
        BinaryOp::Div => if b == 0 {
            None
        } else {
            Some(wrap32(quotient(a as int, b as int)))
        },
        BinaryOp::Rem => if b == 0 {
            None
        } else {
            Some(wrap32(remainder(a as int, b as int)))
        },
        BinaryOp::Shl => if 0 <= b < 32 {
            Some(shl32(a, b as nat))
        } else {
            None
        },
        BinaryOp::Shr => if 0 <= b < 32 {
            Some(ashr32(a, b as nat))
        } else {
            None
        },
    }
}

/// The result of a prefix operator.
pub open spec fn apply_unary(op: UnaryOp, a: i32) -> i32 {
    match op {
        UnaryOp::Neg => wrap32(-a),
        UnaryOp::Not => truth(a == 0),
    }
}

impl MachineState {
    /// What the register holds.
    pub open spec fn read(self, r: Reg) -> Option<Value> {
        if r.0 < self.regs.len() {
            self.regs[r.0 as int]
        } else {
            None
        }
    }

    /// The integer that the register holds.
    pub open spec fn read_int(self, r: Reg) -> Option<i32> {
        match self.read(r) {
            Some(Value::Int(v)) => Some(v),
            _ => None,
        }
    }

    /// The state with `v` in the register; `None` where the machine has no
    /// such register.
    pub open spec fn write(self, r: Reg, v: Value) -> Option<MachineState> {
        if r.0 < self.regs.len() {
            Some(MachineState { regs: self.regs.update(r.0 as int, Some(v)), ..self })
        } else {
            None
        }
    }

    /// The integers that the registers hold, where each holds one.
    pub open spec fn read_ints(self, l: List<Reg>) -> Option<Seq<i32>>
        decreases l,
    {
        match l {
            List::Nil => Some(Seq::empty()),
            List::Cons(head, tail) => match (self.read_int(*head), self.read_ints(*tail)) {
                (Some(v), Some(rest)) => Some(seq![v] + rest),
                _ => None,
            },
        }
    }

    /// The state with `values` in fresh cells, and the first of these cells;
    /// `None` where a `usize` cannot count the cells.
    pub open spec fn reserve(self, values: Seq<i32>) -> Option<(MachineState, usize)> {
        if self.cells.len() + values.len() <= usize::MAX {
            Some((MachineState { cells: self.cells + values, ..self }, self.cells.len() as usize))
        } else {
            None
        }
    }

    /// The cell that `array[index]` is, where the registers hold an array and
    /// an index into it.
    pub open spec fn element(self, array: Reg, index: Reg) -> Option<usize> {
        match (self.read(array), self.read_int(index)) {
            (Some(Value::Array { base, len }), Some(i)) => if 0 <= i < len && base + i
                < self.cells.len() {
                Some((base + i) as usize)
            } else {
                None
            },
            _ => None,
        }
    }

    /// The state after an instruction that is no jump, call or return;
    /// `None` where the instruction is stuck.
    pub open spec fn step(self, instr: Instr) -> Option<MachineState> {
        match instr {
            Instr::Const { dest, value, .. } => self.write(dest, Value::Int(value)),
            Instr::ArrayAlloc { dest, len, .. } => match self.reserve(Seq::new(len as nat, |i: int| 0i32)) {
                Some((m, base)) => m.write(dest, Value::Array { base, len }),
                None => None,
            },
            Instr::IndexAddr { dest, array, index, .. } => match self.element(array, index) {
                Some(cell) => self.write(dest, Value::Addr { cell }),
                None => None,
            },
            Instr::IndexLoad { dest, array, index, .. } => match self.element(array, index) {
                Some(cell) => self.write(dest, Value::Int(self.cells[cell as int])),
                None => None,
            },
            Instr::Store { addr, value, .. } => match (self.read(addr), self.read_int(value)) {
                (Some(Value::Addr { cell }), Some(v)) => if cell < self.cells.len() {
                    Some(MachineState { cells: self.cells.update(cell as int, v), ..self })
                } else {
                    None
                },
                _ => None,
            },
            Instr::TupleBuild { dest, elems } => match self.read_ints(elems) {
                Some(values) => match self.reserve(values) {
                    Some((m, base)) => m.write(dest, Value::Tuple { base, arity: values.len() as usize }),
                    None => None,
                },
                None => None,
            },
            Instr::TupleGet { dest, tuple, index, .. } => match self.read(tuple) {
                Some(Value::Tuple { base, arity }) => if index < arity && base + index
                    < self.cells.len() {
                    self.write(dest, Value::Int(self.cells[base + index]))
                } else {
                    None
                },
                _ => None,
            },
            Instr::AssignOp { dest, op, lhs, rhs } => match (self.read_int(lhs), self.read_int(rhs)) {
                (Some(a), Some(b)) => match apply(op, a, b) {
                    Some(v) => self.write(dest, Value::Int(v)),
                    None => None,
                },
                _ => None,
            },
            Instr::UnaryOp { dest, op, operand } => match self.read_int(operand) {
                Some(a) => self.write(dest, Value::Int(apply_unary(op, a))),
                None => None,
            },
            Instr::Label { .. } => Some(self),
            Instr::Func { .. } => Some(self),
            _ => None,
        }
    }
}

/// Wraps an integer into the range of `i32`.
pub fn wrap(v: i64) -> (r: i32)
    ensures
        r == wrap32(v as int),
{
    let t: i128 = v as i128 + 0x8000_0000_0000_0000i128 + 0x8000_0000i128;
    let m: i128 = t % 0x1_0000_0000i128;
    (m - 0x8000_0000i128) as i32
}

fn shift_left(a: i32, n: u32) -> (r: i32)
    ensures
        r == shl32(a, n as nat),
{
    let mut r: i32 = a;
    let mut k: u32 = 0;
    while k < n
        invariant
            k <= n,
            r == shl32(a, k as nat),
        decreases n - k,
    {
        r = wrap(2 * (r as i64));
        k = k + 1;
    }
    r
}

fn shift_right(a: i32, n: u32) -> (r: i32)
    ensures
        r == ashr32(a, n as nat),
{
    let mut r: i32 = a;
    let mut k: u32 = 0;
    while k < n
        invariant
            k <= n,
            r == ashr32(a, k as nat),
        decreases n - k,
    {
        r = if r >= 0 { r / 2 } else { (-((1 - r as i64) / 2)) as i32 };
        k = k + 1;
    }
    r
}

fn abs64(a: i32) -> (r: i64)
    ensures
        r == magnitude(a as int),
{
    if a < 0 {
        -(a as i64)
    } else {
        a as i64
    }
}

fn flag(b: bool) -> (r: i32)
    ensures
        r == truth(b),
{
    if b {
        1
    } else {
        0
    }
}

/// Computes the result of an infix operator.
pub fn compute(op: BinaryOp, a: i32, b: i32) -> (r: Option<i32>)
    ensures
        r == apply(op, a, b),
{
    match op {
        BinaryOp::Or => Some(flag(a != 0 || b != 0)),
        BinaryOp::And => Some(flag(a != 0 && b != 0)),
        BinaryOp::Eq => Some(flag(a == b)),
        BinaryOp::Ne => Some(flag(a != b)),
        BinaryOp::Lt => Some(flag(a < b)),
        BinaryOp::Le => Some(flag(a <= b)),
        BinaryOp::Gt => Some(flag(a > b)),
        BinaryOp::Ge => Some(flag(a >= b)),
        BinaryOp::Add => Some(wrap(a as i64 + b as i64)),
        BinaryOp::Sub => Some(wrap(a as i64 - b as i64)),
        BinaryOp::Mul => {
            assert(-0x4000_0000_0000_0000 <= (a as int) * (b as int) <= 0x4000_0000_0000_0000)
                by (nonlinear_arith)
                requires
                    -0x8000_0000 <= a <= 0x7fff_ffff,
                    -0x8000_0000 <= b <= 0x7fff_ffff,
            ;
            Some(wrap(a as i64 * b as i64))
        },
        BinaryOp::Div => if b == 0 {
            None
        } else {
            let q = abs64(a) / abs64(b);
            if (a < 0) == (b < 0) {
                Some(wrap(q))
            } else {
                Some(wrap(-q))
            }
        },
        BinaryOp::Rem => if b == 0 {
            None
        } else {
            let m = abs64(a) % abs64(b);
            if a < 0 {
                Some(wrap(-m))
            } else {
                Some(wrap(m))
            }
        },
        BinaryOp::Shl => if 0 <= b && b < 32 {
            Some(shift_left(a, b as u32))
        } else {
            None
        },
        BinaryOp::Shr => if 0 <= b && b < 32 {
            Some(shift_right(a, b as u32))
        } else {
            None
        },
    }
}

/// Computes the result of a prefix operator.
pub fn compute_unary(op: UnaryOp, a: i32) -> (r: i32)
    ensures
        r == apply_unary(op, a),
{
    match op {
        UnaryOp::Neg => wrap(-(a as i64)),
        UnaryOp::Not => flag(a == 0),
    }
}

/// How a run ended.
#[derive(Clone, Copy, Debug, PartialEq, Eq, Structural)]
pub enum Outcome {
    /// The run went past the last instruction.
    Finished,
    /// The run came to a `ret`, with this value.
    Returned(Option<Value>),
    /// The instruction at `pc` is stuck, or is a call, or jumps to a label
    /// that is not there.
    Stuck { pc: usize },
    /// The run took more steps than it was given.
    OutOfFuel,
}

/// The index of the first `label` instruction for `label`, from `from` on.
pub open spec fn find_label(code: Seq<Instr>, label: crate::ir::Label, from: int) -> Option<int>
    decreases code.len() - from,
{
    if from < 0 || from >= code.len() {
        None
    } else if code[from] == (Instr::Label { label }) {
        Some(from)
    } else {
        find_label(code, label, from + 1)
    }
}

/// The run of `code` from the instruction `pc` on, for `fuel` steps at most:
/// the state that it leaves, and how it ended.
pub open spec fn run_spec(code: Seq<Instr>, m: MachineState, pc: int, fuel: nat) -> (
    MachineState,
    Outcome,
)
    decreases fuel,
{
    if pc < 0 || pc >= code.len() {
        (m, Outcome::Finished)
    } else if fuel == 0 {
        (m, Outcome::OutOfFuel)
    } else {
        let stuck = (m, Outcome::Stuck { pc: pc as usize });
        match code[pc] {
            Instr::Jump { target } => match find_label(code, target, 0) {
                Some(to) => run_spec(code, m, to, (fuel - 1) as nat),
                None => stuck,
            },
            Instr::Branch { cond, target } => match m.read_int(cond) {
                None => stuck,
                Some(c) => if c == 0 {
                    run_spec(code, m, pc + 1, (fuel - 1) as nat)
                } else {
                    match find_label(code, target, 0) {
                        Some(to) => run_spec(code, m, to, (fuel - 1) as nat),
                        None => stuck,
                    }
                },
            },
            Instr::Ret { value } => match value {
                None => (m, Outcome::Returned(None)),
                Some(r) => match m.read(r) {
                    Some(v) => (m, Outcome::Returned(Some(v))),
                    None => stuck,
                },
            },
            Instr::Call { .. } => stuck,
            other => match m.step(other) {
                Some(next) => run_spec(code, next, pc + 1, (fuel - 1) as nat),
                None => stuck,
            },
        }
    }
}

/// The machine.
pub struct Machine {
    pub regs: Vec<Option<Value>>,
    pub cells: Vec<i32>,
}

impl View for Machine {
    type V = MachineState;

    open spec fn view(&self) -> MachineState {
        MachineState { regs: self.regs@, cells: self.cells@ }
    }
}

impl Machine {
    /// A machine with `registers` registers, all of them empty, and no cells.
    pub fn new(registers: usize) -> (m: Machine)
        ensures
            m@.regs == Seq::new(registers as nat, |i: int| None::<Value>),
            m@.cells == Seq::<i32>::empty(),
    {
        let mut regs: Vec<Option<Value>> = Vec::new();
        let mut i: usize = 0;
        while i < registers
            invariant
                i <= registers,
                regs@ == Seq::new(i as nat, |i: int| None::<Value>),
            decreases registers - i,
        {
            regs.push(None);
            i = i + 1;
            assert(regs@ =~= Seq::new(i as nat, |i: int| None::<Value>));
        }
        Machine { regs, cells: Vec::new() }
    }

    /// What the register holds.
    pub fn read(&self, r: Reg) -> (v: Option<Value>)
        ensures
            v == self@.read(r),
    {
        if r.0 < self.regs.len() {
            self.regs[r.0]
        } else {
            None
        }
    }

    /// The integer that the register holds.
    pub fn read_int(&self, r: Reg) -> (v: Option<i32>)
        ensures
            v == self@.read_int(r),
    {
        match self.read(r) {
            Some(Value::Int(v)) => Some(v),
            _ => None,
        }
    }

    fn has(&self, r: Reg) -> (b: bool)
        ensures
            b == (r.0 < self@.regs.len()),
    {
        r.0 < self.regs.len()
    }

    fn put(&mut self, r: Reg, v: Value)
        requires
            r.0 < old(self)@.regs.len(),
        ensures
            Some(final(self)@) == old(self)@.write(r, v),
    {
        self.regs.set(r.0, Some(v));
    }

    fn read_ints(&self, l: &List<Reg>, out: &mut Vec<i32>) -> (ok: bool)
        ensures
            match self@.read_ints(*l) {
                Some(values) => ok && final(out)@ == old(out)@ + values,
                None => !ok,
            },
        decreases *l,
    {
        match l {
            List::Nil => {
                assert(out@ =~= old(out)@ + Seq::<i32>::empty());
                true
            },
            List::Cons(head, tail) => match self.read_int(**head) {
                None => false,
                Some(v) => {
                    out.push(v);
                    let ok = self.read_ints(tail, out);
                    proof {
                        if ok {
                            let rest = self@.read_ints(**tail)->0;
                            assert(old(out)@.push(v) + rest =~= old(out)@ + (seq![v] + rest));
                        }
                    }
                    ok
                },
            },
        }
    }

    fn element(&self, array: Reg, index: Reg) -> (r: Option<usize>)
        ensures
            r == self@.element(array, index),
    {
        match (self.read(array), self.read_int(index)) {
            (Some(Value::Array { base, len }), Some(i)) => {
                if i < 0 {
                    None
                } else {
                    let at = i as usize;
                    if at < len && at < self.cells.len() && base < self.cells.len() - at {
                        Some(base + at)
                    } else {
                        None
                    }
                }
            },
            _ => None,
        }
    }

    /// Puts `values` into fresh cells: the first of them.
    fn reserve(&mut self, values: &Vec<i32>) -> (base: usize)
        requires
            old(self)@.cells.len() + values@.len() <= usize::MAX,
        ensures
            Some((final(self)@, base)) == old(self)@.reserve(values@),
    {
        let base = self.cells.len();
        let mut i: usize = 0;
        while i < values.len()
            invariant
                i <= values@.len(),
                self.regs@ == old(self).regs@,
                self.cells@ == old(self).cells@ + values@.take(i as int),
            decreases values@.len() - i,
        {
            self.cells.push(values[i]);
            i = i + 1;
            assert(self.cells@ =~= old(self).cells@ + values@.take(i as int));
        }
        assert(values@.take(i as int) =~= values@);
        base
    }

    /// Puts `len` zeros into fresh cells: the first of them.
    fn reserve_zeros(&mut self, len: usize) -> (base: usize)
        requires
            old(self)@.cells.len() + len <= usize::MAX,
        ensures
            Some((final(self)@, base)) == old(self)@.reserve(Seq::new(len as nat, |i: int| 0i32)),
    {
        let base = self.cells.len();
        let mut i: usize = 0;
        assert(self.cells@ =~= old(self).cells@ + Seq::new(0nat, |i: int| 0i32));
        while i < len
            invariant
                i <= len,
                old(self)@.cells.len() + len <= usize::MAX,
                self.regs@ == old(self).regs@,
                self.cells@ == old(self).cells@ + Seq::new(i as nat, |i: int| 0i32),
            decreases len - i,
        {
            self.cells.push(0);
            i = i + 1;
            assert(self.cells@ =~= old(self).cells@ + Seq::new(i as nat, |i: int| 0i32));
        }
        base
    }

    /// Whether there is room for `n` more cells.
    fn room(&self, n: usize) -> (b: bool)
        ensures
            b == (self@.cells.len() + n <= usize::MAX),
    {
        n <= usize::MAX - self.cells.len()
    }

    /// Carries out an instruction that is no jump, call or return. Where the
    /// instruction is stuck, the machine stays as it is.
    pub fn step(&mut self, instr: &Instr) -> (ok: bool)
        ensures
            match old(self)@.step(*instr) {
                Some(next) => ok && final(self)@ == next,
                None => !ok && final(self)@ == old(self)@,
            },
    {
        match instr {
            Instr::Const { dest, value, .. } => {
                if !self.has(*dest) {
                    return false;
                }
                self.put(*dest, Value::Int(*value));
                true
            },
            Instr::ArrayAlloc { dest, len, .. } => {
                if !self.has(*dest) || !self.room(*len) {
                    return false;
                }
                let base = self.reserve_zeros(*len);
                self.put(*dest, Value::Array { base, len: *len });
                true
            },
            Instr::IndexAddr { dest, array, index, .. } => match self.element(*array, *index) {
                Some(cell) => {
                    if !self.has(*dest) {
                        return false;
                    }
                    self.put(*dest, Value::Addr { cell });
                    true
                },
                None => false,
            },
            Instr::IndexLoad { dest, array, index, .. } => match self.element(*array, *index) {
                Some(cell) => {
                    if !self.has(*dest) {
                        return false;
                    }
                    let v = self.cells[cell];
                    self.put(*dest, Value::Int(v));
                    true
                },
                None => false,
            },
            Instr::Store { addr, value, .. } => match (self.read(*addr), self.read_int(*value)) {
                (Some(Value::Addr { cell }), Some(v)) => {
                    if cell < self.cells.len() {
                        self.cells.set(cell, v);
                        true
                    } else {
                        false
                    }
                },
                _ => false,
            },
            Instr::TupleBuild { dest, elems } => {
                let mut values: Vec<i32> = Vec::new();
                if !self.read_ints(elems, &mut values) {
                    return false;
                }
                assert(values@ =~= self@.read_ints(*elems)->0);
                if !self.has(*dest) || !self.room(values.len()) {
                    return false;
                }
                let base = self.reserve(&values);
                self.put(*dest, Value::Tuple { base, arity: values.len() });
                true
            },
            Instr::TupleGet { dest, tuple, index, .. } => match self.read(*tuple) {
                Some(Value::Tuple { base, arity }) => {
                    if *index < arity && *index < self.cells.len() && base < self.cells.len() - *index
                        && self.has(*dest) {
                        let v = self.cells[base + *index];
                        self.put(*dest, Value::Int(v));
                        true
                    } else {
                        false
                    }
                },
                _ => false,
            },
            Instr::AssignOp { dest, op, lhs, rhs } => match (self.read_int(*lhs), self.read_int(*rhs)) {
                (Some(a), Some(b)) => match compute(*op, a, b) {
                    Some(v) => {
                        if !self.has(*dest) {
                            return false;
                        }
                        self.put(*dest, Value::Int(v));
                        true
                    },
                    None => false,
                },
                _ => false,
            },
            Instr::UnaryOp { dest, op, operand } => match self.read_int(*operand) {
                Some(a) => {
                    if !self.has(*dest) {
                        return false;
                    }
                    self.put(*dest, Value::Int(compute_unary(*op, a)));
                    true
                },
                None => false,
            },
            Instr::Label { .. } => true,
            Instr::Func { .. } => true,
            _ => false,
        }
    }
}

/// Finds the first `label` instruction for `label`.
pub fn locate(code: &Vec<Instr>, label: crate::ir::Label) -> (r: Option<usize>)
    ensures
        match r {
            Some(i) => find_label(code@, label, 0) == Some(i as int) && i < code@.len(),
            None => find_label(code@, label, 0) is None,
        },
{
    let mut i: usize = 0;
    while i < code.len()
        invariant
            i <= code@.len(),
            find_label(code@, label, 0) == find_label(code@, label, i as int),
        decreases code@.len() - i,
    {
        let found = match &code[i] {
            Instr::Label { label: here } => here.0 == label.0,
            _ => false,
        };
        if found {
            return Some(i);
        }
        i = i + 1;
    }
    None
}

impl Machine {
    /// Runs `code` from the instruction `start` on, for `fuel` steps at most.
    pub fn run(&mut self, code: &Vec<Instr>, start: usize, fuel: usize) -> (out: Outcome)
        ensures
            (final(self)@, out) == run_spec(code@, old(self)@, start as int, fuel as nat),
    {
        let mut pc: usize = start;
        let mut left: usize = fuel;
        loop
            invariant
                run_spec(code@, old(self)@, start as int, fuel as nat) == run_spec(
                    code@,
                    self@,
                    pc as int,
                    left as nat,
                ),
            decreases left,
        {
            if pc >= code.len() {
                return Outcome::Finished;
            }
            if left == 0 {
                return Outcome::OutOfFuel;
            }
            left = left - 1;
            match &code[pc] {
                Instr::Jump { target } => match locate(code, *target) {
                    Some(to) => {
                        pc = to;
                    },
                    None => {
                        return Outcome::Stuck { pc };
                    },
                },
                Instr::Branch { cond, target } => match self.read_int(*cond) {
                    None => {
                        return Outcome::Stuck { pc };
                    },
                    Some(c) => if c == 0 {
                        pc = pc + 1;
                    } else {
                        match locate(code, *target) {
                            Some(to) => {
                                pc = to;
                            },
                            None => {
                                return Outcome::Stuck { pc };
                            },
                        }
                    },
                },
                Instr::Ret { value } => match value {
                    None => {
                        return Outcome::Returned(None);
                    },
                    Some(r) => match self.read(*r) {
                        Some(v) => {
                            return Outcome::Returned(Some(v));
                        },
                        None => {
                            return Outcome::Stuck { pc };
                        },
                    },
                },
                Instr::Call { .. } => {
                    return Outcome::Stuck { pc };
                },
                other => {
                    if self.step(other) {
                        pc = pc + 1;
                    } else {
                        return Outcome::Stuck { pc };
                    }
                },
            }
        }
    }
}

} // verus!
