//! The form of the instructions that the lowering writes: every register
//! is defined once, and before it is read; inside a function only registers
//! of the function are read; and every name is an identifier of the source.

use vstd::prelude::*;
use crate::span::List;
use crate::ir::{Instr, Reg};
use crate::lowering::State;
use crate::lexer::is_name;

verus! {

/// The register, where there is one, as a sequence.
pub open spec fn reg_of(r: Option<Reg>) -> Seq<Reg> {
    match r {
        Some(r) => seq![r],
        None => Seq::empty(),
    }
}

/// The registers that an instruction defines.
pub open spec fn defs(instr: Instr) -> Seq<Reg> {
    match instr {
        Instr::Const { dest, .. } => seq![dest],
        Instr::ArrayAlloc { dest, .. } => seq![dest],
        Instr::IndexAddr { dest, .. } => seq![dest],
        Instr::IndexLoad { dest, .. } => seq![dest],
        Instr::TupleBuild { dest, .. } => seq![dest],
        Instr::TupleGet { dest, .. } => seq![dest],
        Instr::AssignOp { dest, .. } => seq![dest],
        Instr::UnaryOp { dest, .. } => seq![dest],
        Instr::Call { dest, .. } => reg_of(dest),
        Instr::Func { params, .. } => params@,
        _ => Seq::empty(),
    }
}

/// The registers that an instruction reads.
pub open spec fn uses(instr: Instr) -> Seq<Reg> {
    match instr {
        Instr::IndexAddr { array, index, .. } => seq![array, index],
        Instr::IndexLoad { array, index, .. } => seq![array, index],
        Instr::Store { addr, value, .. } => seq![addr, value],
        Instr::TupleBuild { elems, .. } => elems@,
        Instr::TupleGet { tuple, .. } => seq![tuple],
        Instr::AssignOp { lhs, rhs, .. } => seq![lhs, rhs],
        Instr::UnaryOp { operand, .. } => seq![operand],
        Instr::Branch { cond, .. } => seq![cond],
        Instr::Call { args, .. } => args@,
        Instr::Ret { value } => reg_of(value),
        _ => Seq::empty(),
    }
}

/// The number of registers that the instructions define.
pub open spec fn count_defs(code: Seq<Instr>) -> nat
    decreases code.len(),
{
    if code.len() == 0 {
        0
    } else {
        count_defs(code.drop_last()) + defs(code.last()).len()
    }
}

/// Every register of `regs` has a number below `n`.
pub open spec fn below(regs: Seq<Reg>, n: nat) -> bool {
    forall|i: int| 0 <= i < regs.len() ==> (#[trigger] regs[i]).0 < n
}

/// The registers of `regs` are those with the numbers from `from` on, in
/// order.
pub open spec fn counts_from(regs: Seq<Reg>, from: nat) -> bool {
    forall|i: int| 0 <= i < regs.len() ==> (#[trigger] regs[i]).0 == from + i
}

/// Single assignment: the registers that the instructions define are, in the
/// order of the definitions, the registers zero, one, two and so on, so that
/// none is defined twice; and an instruction reads only registers that an
/// instruction before it defines.
pub open spec fn single_assignment(code: Seq<Instr>) -> bool
    decreases code.len(),
{
    code.len() > 0 ==> {
        &&& single_assignment(code.drop_last())
        &&& counts_from(defs(code.last()), count_defs(code.drop_last()))
        &&& below(uses(code.last()), count_defs(code.drop_last()))
    }
}

/// The number of the first register of the function in which the
/// instructions end: the number of registers defined before its `fn`. Zero
/// where they end outside every function.
pub open spec fn home(code: Seq<Instr>) -> nat
    decreases code.len(),
{
    if code.len() == 0 {
        0
    } else {
        match code.last() {
            Instr::Func { .. } => count_defs(code.drop_last()),
            Instr::Ret { .. } => 0,
            _ => home(code.drop_last()),
        }
    }
}

/// Every register of `regs` has the number `n` or a greater one.
pub open spec fn at_home(regs: Seq<Reg>, n: nat) -> bool {
    forall|i: int| 0 <= i < regs.len() ==> (#[trigger] regs[i]).0 >= n
}

/// Inside a function, an instruction reads only registers of the function:
/// its parameters, and what its instructions define.
pub open spec fn reads_local(code: Seq<Instr>) -> bool
    decreases code.len(),
{
    code.len() > 0 ==> {
        &&& reads_local(code.drop_last())
        &&& at_home(uses(code.last()), home(code.drop_last()))
    }
}

/// The registers can be read in the state: they are defined, and they are
/// registers of the current function.
pub open spec fn fits(regs: Seq<Reg>, st: State) -> bool {
    below(regs, st.next_reg) && at_home(regs, home(st.code))
}

/// The register can be read in the state: it is defined, and it is a
/// register of the current function.
pub open spec fn fit(reg: Reg, st: State) -> bool {
    home(st.code) <= reg.0 < st.next_reg
}

/// The state holds instructions in single assignment that read registers of
/// their own function only, its count of registers is that of the
/// definitions, its symbols are bound to defined registers, and those in
/// sight to registers of the current function.
pub open spec fn tidy(st: State) -> bool {
    &&& single_assignment(st.code)
    &&& reads_local(st.code)
    &&& count_defs(st.code) == st.next_reg
    &&& home(st.code) <= st.next_reg <= usize::MAX
    &&& forall|i: int| 0 <= i < st.symbols.len() ==> (#[trigger] st.symbols[i]).reg.0 < st.next_reg
    &&& forall|i: int|
        st.floor <= i < st.symbols.len() ==> (#[trigger] st.symbols[i]).reg.0 >= home(st.code)
}

/// An instruction that starts or ends no function keeps the function.
pub proof fn lemma_home_kept(code: Seq<Instr>, instr: Instr)
    requires
        !(instr is Func),
        !(instr is Ret),
    ensures
        home(code.push(instr)) == home(code),
{
    assert(code.push(instr).drop_last() =~= code);
}

/// An instruction that defines the next fresh register, and reads defined
/// registers, keeps the state tidy.
pub proof fn lemma_define(st: State, instr: Instr)
    requires
        tidy(st),
        st.next_reg < usize::MAX,
        defs(instr) == seq![st.reg()],
        fits(uses(instr), st),
        !(instr is Func),
    ensures
        tidy(st.define(instr)),
        fit(st.reg(), st.define(instr)),
{
    assert(st.code.push(instr).drop_last() =~= st.code);
    assert(defs(instr).len() == 1);
}

/// An instruction that defines nothing, and reads defined registers, keeps
/// the state tidy.
pub proof fn lemma_emit(st: State, instr: Instr)
    requires
        tidy(st),
        defs(instr).len() == 0,
        fits(uses(instr), st),
        !(instr is Func),
        !(instr is Ret),
    ensures
        tidy(st.emit(instr)),
{
    assert(st.code.push(instr).drop_last() =~= st.code);
}

/// A list of registers that can be read, with one more in front.
pub proof fn lemma_fits_cons(head: Reg, tail: List<Reg>, st: State)
    requires
        fit(head, st),
        fits(tail@, st),
    ensures
        fits(List::Cons(Box::new(head), Box::new(tail))@, st),
{
    let l = List::Cons(Box::new(head), Box::new(tail))@;
    assert forall|i: int| 0 <= i < l.len() implies (#[trigger] l[i]).0 < st.next_reg && l[i].0
        >= home(st.code) by {
        if i > 0 {
            assert(l[i] == tail@[i - 1]);
        }
    }
}

/// A list of registers that counts up from `from + 1`, with the register
/// `from` in front.
pub proof fn lemma_counts_cons(head: Reg, tail: List<Reg>, from: nat)
    requires
        head.0 == from,
        counts_from(tail@, from + 1),
    ensures
        counts_from(List::Cons(Box::new(head), Box::new(tail))@, from),
        List::Cons(Box::new(head), Box::new(tail))@.len() == tail@.len() + 1,
{
    let l = List::Cons(Box::new(head), Box::new(tail))@;
    assert forall|i: int| 0 <= i < l.len() implies (#[trigger] l[i]).0 == from + i by {
        if i > 0 {
            assert(l[i] == tail@[i - 1]);
        }
    }
}

/// The names in the instruction are identifiers of `src`.
pub open spec fn well_formed(src: Seq<u8>, instr: Instr) -> bool {
    match instr {
        Instr::Call { callee, .. } => is_name(src, callee),
        Instr::Func { name, .. } => is_name(src, name),
        _ => true,
    }
}

/// The names in the instructions are identifiers of `src`.
pub open spec fn names_ok(src: Seq<u8>, code: Seq<Instr>) -> bool {
    forall|k: int| 0 <= k < code.len() ==> well_formed(src, #[trigger] code[k])
}

} // verus!
