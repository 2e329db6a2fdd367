//! The emitter: the instructions as text, one macro form on each line.

use vstd::prelude::*;
use vstd::string::{is_ascii, is_ascii_spec_bytes};
use crate::span::{List, Span};
use crate::ast::{BinaryOp, UnaryOp};
use crate::ir::{Instr, Label, Prim, Reg};
use crate::form::{names_ok, well_formed};
use crate::lexer::{byte_is_digit, byte_is_ident_start, is_digit, is_ident_start, is_name};

verus! {

/// The bytes of a word of ASCII characters.
pub open spec fn word(s: Seq<char>) -> Seq<u8> {
    Seq::new(s.len(), |i: int| s[i] as u8)
}

/// A number in decimal digits.
pub open spec fn digits(n: nat) -> Seq<u8>
    decreases n,
{
    if n < 10 {
        seq![('0' as u8 + n) as u8]
    } else {
        digits(n / 10).push(('0' as u8 + n % 10) as u8)
    }
}

/// An integer in decimal digits, with a minus sign where it is negative.
pub open spec fn int_text(v: int) -> Seq<u8> {
    if v < 0 {
        word("-"@) + digits((-v) as nat)
    } else {
        digits(v as nat)
    }
}

/// A register: `%r` and its number.
pub open spec fn reg_text(r: Reg) -> Seq<u8> {
    word("%r"@) + digits(r.0 as nat)
}

/// A label: `L` and its number.
pub open spec fn label_text(l: Label) -> Seq<u8> {
    word("L"@) + digits(l.0 as nat)
}

/// The name of a primitive type.
pub open spec fn prim_text(p: Prim) -> Seq<u8> {
    match p {
        Prim::I32 => word("i32"@),
    }
}

/// The name of an infix operator in the IR.
pub open spec fn op_text(op: BinaryOp) -> Seq<u8> {
    match op {
        BinaryOp::Or => word("or"@),
        BinaryOp::And => word("and"@),
        BinaryOp::Eq => word("eq"@),
        BinaryOp::Ne => word("ne"@),
        BinaryOp::Lt => word("lt"@),
        BinaryOp::Le => word("le"@),
        BinaryOp::Gt => word("gt"@),
        BinaryOp::Ge => word("ge"@),
        BinaryOp::Add => word("add"@),
        BinaryOp::Sub => word("sub"@),
        BinaryOp::Shl => word("shl"@),
        BinaryOp::Shr => word("ashr"@),
        BinaryOp::Mul => word("mul"@),
        BinaryOp::Div => word("sdiv"@),
        BinaryOp::Rem => word("srem"@),
    }
}

/// The name of a prefix operator in the IR.
pub open spec fn unary_text(op: UnaryOp) -> Seq<u8> {
    match op {
        UnaryOp::Neg => word("neg"@),
        UnaryOp::Not => word("not"@),
    }
}

/// Registers, each with a space after it.
pub open spec fn regs_text(l: List<Reg>) -> Seq<u8>
    decreases l,
{
    match l {
        List::Nil => Seq::empty(),
        List::Cons(head, tail) => reg_text(*head) + word(" "@) + regs_text(*tail),
    }
}

/// A list of registers between brackets: `[ %r0 %r1 ]`.
pub open spec fn list_text(l: List<Reg>) -> Seq<u8> {
    word("[ "@) + regs_text(l) + word("]"@)
}

/// The text `text` with the line of an instruction after it.
pub open spec fn append_line(text: Seq<u8>, src: Seq<u8>, instr: Instr) -> Seq<u8> {
    let sp = word(" "@);
    let end = word(")\n"@);
    match instr {
        Instr::Const { dest, ty, value } => text + word("(const "@) + reg_text(dest) + sp + prim_text(
            ty,
        ) + sp + int_text(value as int) + end,
        Instr::ArrayAlloc { dest, elem, len } => text + word("(rarray "@) + reg_text(dest) + sp
            + prim_text(elem) + sp + digits(len as nat) + end,
        Instr::IndexAddr { dest, elem, array, index } => text + word("(rindex-addr "@) + reg_text(
            dest,
        ) + sp + prim_text(elem) + sp + reg_text(array) + sp + reg_text(index) + end,
        Instr::IndexLoad { dest, elem, array, index } => text + word("(rindex-load "@) + reg_text(
            dest,
        ) + sp + prim_text(elem) + sp + reg_text(array) + sp + reg_text(index) + end,
        Instr::Store { ty, addr, value } => text + word("(store "@) + prim_text(ty) + sp + reg_text(
            addr,
        ) + sp + reg_text(value) + end,
        Instr::TupleBuild { dest, elems } => text + word("(tuple "@) + reg_text(dest) + sp
            + list_text(elems) + end,
        Instr::TupleGet { dest, ty, tuple, index } => text + word("(tget "@) + reg_text(dest) + sp
            + prim_text(ty) + sp + reg_text(tuple) + sp + digits(index as nat) + end,
        Instr::AssignOp { dest, op, lhs, rhs } => text + word("(rassign-op "@) + reg_text(dest) + sp
            + op_text(op) + sp + reg_text(lhs) + sp + reg_text(rhs) + end,
        Instr::UnaryOp { dest, op, operand } => text + word("(runary-op "@) + reg_text(dest) + sp
            + unary_text(op) + sp + reg_text(operand) + end,
        Instr::Label { label } => text + word("(label "@) + label_text(label) + end,
        Instr::Branch { cond, target } => text + word("(branch "@) + reg_text(cond) + sp
            + label_text(target) + end,
        Instr::Jump { target } => text + word("(jump "@) + label_text(target) + end,
        Instr::Call { dest, callee, args } => match dest {
            Some(d) => text + word("(call "@) + reg_text(d) + sp + callee.text(src) + sp + list_text(
                args,
            ) + end,
            None => text + word("(call "@) + callee.text(src) + sp + list_text(args) + end,
        },
        Instr::Func { name, params } => text + word("(fn "@) + name.text(src) + sp + list_text(params)
            + end,
        Instr::Ret { value } => match value {
            Some(v) => text + word("(ret "@) + reg_text(v) + end,
            None => text + word("(ret)\n"@),
        },
    }
}

/// The line of an instruction: `(opcode %dest type operands..)`, with a line
/// feed after it.
pub open spec fn line(src: Seq<u8>, instr: Instr) -> Seq<u8> {
    append_line(Seq::empty(), src, instr)
}

/// The lines of the instructions, one after the other.
pub open spec fn render(src: Seq<u8>, code: Seq<Instr>) -> Seq<u8>
    decreases code.len(),
{
    if code.len() == 0 {
        Seq::empty()
    } else {
        append_line(render(src, code.drop_last()), src, code.last())
    }
}

/// The index of the first instruction that is not well formed.
pub open spec fn first_malformed(src: Seq<u8>, code: Seq<Instr>) -> Option<int>
    decreases code.len(),
{
    if code.len() == 0 {
        None
    } else {
        match first_malformed(src, code.drop_last()) {
            Some(i) => Some(i),
            None => if well_formed(src, code.last()) {
                None
            } else {
                Some(code.len() - 1)
            },
        }
    }
}

/// The error of the emitter: the instruction at `index` names something that
/// is no identifier of the source.
#[derive(Clone, Copy, Debug, PartialEq, Eq, Structural)]
pub enum EmitError {
    Malformed { index: usize },
}

/// The first malformed instruction of a prefix is that of the whole list.
pub proof fn lemma_first_malformed_prefix(src: Seq<u8>, code: Seq<Instr>, n: int)
    requires
        0 <= n <= code.len(),
        first_malformed(src, code.take(n)) is Some,
    ensures
        first_malformed(src, code) == first_malformed(src, code.take(n)),
    decreases code.len(),
{
    if n < code.len() {
        assert(code.drop_last().take(n) =~= code.take(n));
        lemma_first_malformed_prefix(src, code.drop_last(), n);
    } else {
        assert(code.take(n) =~= code);
    }
}

fn put(out: &mut Vec<u8>, w: &str)
    requires
        is_ascii(w),
    ensures
        final(out)@ == old(out)@ + word(w@),
{
    broadcast use is_ascii_spec_bytes;

    let bytes = w.as_bytes();
    let mut i: usize = 0;
    while i < bytes.len()
        invariant
            i <= bytes@.len(),
            bytes@ == word(w@),
            out@ == old(out)@ + word(w@).subrange(0, i as int),
        decreases bytes@.len() - i,
    {
        out.push(bytes[i]);
        i = i + 1;
    }
}

fn put_digits(out: &mut Vec<u8>, n: usize)
    ensures
        final(out)@ == old(out)@ + digits(n as nat),
    decreases n,
{
    if n >= 10 {
        put_digits(out, n / 10);
    }
    out.push('0' as u8 + (n % 10) as u8);
}

fn put_int(out: &mut Vec<u8>, v: i32)
    ensures
        final(out)@ == old(out)@ + int_text(v as int),
{
    if v < 0 {
        proof {
            reveal_strlit("-");
        }
        put(out, "-");
        put_digits(out, (-(v as i64)) as usize);
    } else {
        put_digits(out, v as usize);
    }
}

fn put_reg(out: &mut Vec<u8>, r: Reg)
    ensures
        final(out)@ == old(out)@ + reg_text(r),
{
    proof {
        reveal_strlit("%r");
    }
    put(out, "%r");
    put_digits(out, r.0);
    assert(out@ =~= old(out)@ + reg_text(r));
}

fn put_label(out: &mut Vec<u8>, l: Label)
    ensures
        final(out)@ == old(out)@ + label_text(l),
{
    proof {
        reveal_strlit("L");
    }
    put(out, "L");
    put_digits(out, l.0);
    assert(out@ =~= old(out)@ + label_text(l));
}

fn put_prim(out: &mut Vec<u8>, p: Prim)
    ensures
        final(out)@ == old(out)@ + prim_text(p),
{
    proof {
        reveal_strlit("i32");
    }
    match p {
        Prim::I32 => put(out, "i32"),
    }
}

/// The name of an infix operator in the IR.
pub fn op_name(op: BinaryOp) -> (w: &'static str)
    ensures
        is_ascii(w),
        word(w@) == op_text(op),
{
    proof {
        reveal_strlit("or");
        reveal_strlit("and");
        reveal_strlit("eq");
        reveal_strlit("ne");
        reveal_strlit("lt");
        reveal_strlit("le");
        reveal_strlit("gt");
        reveal_strlit("ge");
        reveal_strlit("add");
        reveal_strlit("sub");
        reveal_strlit("shl");
        reveal_strlit("ashr");
        reveal_strlit("mul");
        reveal_strlit("sdiv");
        reveal_strlit("srem");
    }
    match op {
        BinaryOp::Or => "or",
        BinaryOp::And => "and",
        BinaryOp::Eq => "eq",
        BinaryOp::Ne => "ne",
        BinaryOp::Lt => "lt",
        BinaryOp::Le => "le",
        BinaryOp::Gt => "gt",
        BinaryOp::Ge => "ge",
        BinaryOp::Add => "add",
        BinaryOp::Sub => "sub",
        BinaryOp::Shl => "shl",
        BinaryOp::Shr => "ashr",
        BinaryOp::Mul => "mul",
        BinaryOp::Div => "sdiv",
        BinaryOp::Rem => "srem",
    }
}

/// The name of a prefix operator in the IR.
pub fn unary_name(op: UnaryOp) -> (w: &'static str)
    ensures
        is_ascii(w),
        word(w@) == unary_text(op),
{
    proof {
        reveal_strlit("neg");
        reveal_strlit("not");
    }
    match op {
        UnaryOp::Neg => "neg",
        UnaryOp::Not => "not",
    }
}

fn put_regs(out: &mut Vec<u8>, l: &List<Reg>)
    ensures
        final(out)@ == old(out)@ + regs_text(*l),
    decreases *l,
{
    match l {
        List::Nil => {
            assert(out@ =~= old(out)@ + regs_text(*l));
        },
        List::Cons(head, tail) => {
            proof {
                reveal_strlit(" ");
            }
            put_reg(out, **head);
            put(out, " ");
            put_regs(out, tail);
            assert(out@ =~= old(out)@ + regs_text(*l));
        },
    }
}

fn put_list(out: &mut Vec<u8>, l: &List<Reg>)
    ensures
        final(out)@ == old(out)@ + list_text(*l),
{
    proof {
        reveal_strlit("[ ");
        reveal_strlit("]");
    }
    put(out, "[ ");
    put_regs(out, l);
    put(out, "]");
    assert(out@ =~= old(out)@ + list_text(*l));
}

fn put_name(out: &mut Vec<u8>, src: &[u8], name: Span)
    requires
        name.within(src@.len()),
    ensures
        final(out)@ == old(out)@ + name.text(src@),
{
    let mut i: usize = name.start;
    while i < name.end
        invariant
            name.within(src@.len()),
            name.start <= i <= name.end,
            out@ == old(out)@ + src@.subrange(name.start as int, i as int),
        decreases name.end - i,
    {
        out.push(src[i]);
        i = i + 1;
        assert(out@ =~= old(out)@ + src@.subrange(name.start as int, i as int));
    }
}

/// Whether the span covers an identifier of `src`.
pub fn is_identifier(src: &[u8], name: Span) -> (r: bool)
    ensures
        r == is_name(src@, name),
{
    if !(name.start < name.end && name.end <= src.len()) {
        return false;
    }
    if !byte_is_ident_start(src[name.start]) {
        return false;
    }
    let mut i: usize = name.start + 1;
    while i < name.end
        invariant
            name.start < i <= name.end <= src@.len(),
            forall|k: int| name.start < k < i ==> is_ident_start(src@[k]) || is_digit(src@[k]),
        decreases name.end - i,
    {
        if !(byte_is_ident_start(src[i]) || byte_is_digit(src[i])) {
            return false;
        }
        i = i + 1;
    }
    true
}

/// Whether the names in the instruction are identifiers of `src`.
pub fn is_well_formed(src: &[u8], instr: &Instr) -> (r: bool)
    ensures
        r == well_formed(src@, *instr),
{
    match instr {
        Instr::Call { callee, .. } => is_identifier(src, *callee),
        Instr::Func { name, .. } => is_identifier(src, *name),
        _ => true,
    }
}

fn put_line(out: &mut Vec<u8>, src: &[u8], instr: &Instr)
    requires
        well_formed(src@, *instr),
    ensures
        final(out)@ == append_line(old(out)@, src@, *instr),
{
    proof {
        reveal_strlit(" ");
        reveal_strlit(")\n");
    }
    match instr {
        Instr::Const { dest, ty, value } => {
            proof {
                reveal_strlit("(const ");
            }
            put(out, "(const ");
            put_reg(out, *dest);
            put(out, " ");
            put_prim(out, *ty);
            put(out, " ");
            put_int(out, *value);
            put(out, ")\n");
        },
        Instr::ArrayAlloc { dest, elem, len } => {
            proof {
                reveal_strlit("(rarray ");
            }
            put(out, "(rarray ");
            put_reg(out, *dest);
            put(out, " ");
            put_prim(out, *elem);
            put(out, " ");
            put_digits(out, *len);
            put(out, ")\n");
        },
        Instr::IndexAddr { dest, elem, array, index } => {
            proof {
                reveal_strlit("(rindex-addr ");
            }
            put(out, "(rindex-addr ");
            put_reg(out, *dest);
            put(out, " ");
            put_prim(out, *elem);
            put(out, " ");
            put_reg(out, *array);
            put(out, " ");
            put_reg(out, *index);
            put(out, ")\n");
        },
        Instr::IndexLoad { dest, elem, array, index } => {
            proof {
                reveal_strlit("(rindex-load ");
            }
            put(out, "(rindex-load ");
            put_reg(out, *dest);
            put(out, " ");
            put_prim(out, *elem);
            put(out, " ");
            put_reg(out, *array);
            put(out, " ");
            put_reg(out, *index);
            put(out, ")\n");
        },
        Instr::Store { ty, addr, value } => {
            proof {
                reveal_strlit("(store ");
            }
            put(out, "(store ");
            put_prim(out, *ty);
            put(out, " ");
            put_reg(out, *addr);
            put(out, " ");
            put_reg(out, *value);
            put(out, ")\n");
        },
        Instr::TupleBuild { dest, elems } => {
            proof {
                reveal_strlit("(tuple ");
            }
            put(out, "(tuple ");
            put_reg(out, *dest);
            put(out, " ");
            put_list(out, elems);
            put(out, ")\n");
        },
        Instr::TupleGet { dest, ty, tuple, index } => {
            proof {
                reveal_strlit("(tget ");
            }
            put(out, "(tget ");
            put_reg(out, *dest);
            put(out, " ");
            put_prim(out, *ty);
            put(out, " ");
            put_reg(out, *tuple);
            put(out, " ");
            put_digits(out, *index);
            put(out, ")\n");
        },
        Instr::AssignOp { dest, op, lhs, rhs } => {
            proof {
                reveal_strlit("(rassign-op ");
            }
            put(out, "(rassign-op ");
            put_reg(out, *dest);
            put(out, " ");
            put(out, op_name(*op));
            put(out, " ");
            put_reg(out, *lhs);
            put(out, " ");
            put_reg(out, *rhs);
            put(out, ")\n");
        },
        Instr::UnaryOp { dest, op, operand } => {
            proof {
                reveal_strlit("(runary-op ");
            }
            put(out, "(runary-op ");
            put_reg(out, *dest);
            put(out, " ");
            put(out, unary_name(*op));
            put(out, " ");
            put_reg(out, *operand);
            put(out, ")\n");
        },
        Instr::Label { label } => {
            proof {
                reveal_strlit("(label ");
            }
            put(out, "(label ");
            put_label(out, *label);
            put(out, ")\n");
        },
        Instr::Branch { cond, target } => {
            proof {
                reveal_strlit("(branch ");
            }
            put(out, "(branch ");
            put_reg(out, *cond);
            put(out, " ");
            put_label(out, *target);
            put(out, ")\n");
        },
        Instr::Jump { target } => {
            proof {
                reveal_strlit("(jump ");
            }
            put(out, "(jump ");
            put_label(out, *target);
            put(out, ")\n");
        },
        Instr::Call { dest, callee, args } => {
            proof {
                reveal_strlit("(call ");
            }
            put(out, "(call ");
            match dest {
                Some(d) => {
                    put_reg(out, *d);
                    put(out, " ");
                },
                None => {},
            }
            put_name(out, src, *callee);
            put(out, " ");
            put_list(out, args);
            put(out, ")\n");
        },
        Instr::Func { name, params } => {
            proof {
                reveal_strlit("(fn ");
            }
            put(out, "(fn ");
            put_name(out, src, *name);
            put(out, " ");
            put_list(out, params);
            put(out, ")\n");
        },
        Instr::Ret { value } => match value {
            Some(v) => {
                proof {
                    reveal_strlit("(ret ");
                }
                put(out, "(ret ");
                put_reg(out, *v);
                put(out, ")\n");
            },
            None => {
                proof {
                    reveal_strlit("(ret)\n");
                }
                put(out, "(ret)\n");
            },
        },
    }
}

/// What the emitter returned, as bytes.
pub open spec fn emitted(r: Result<Vec<u8>, EmitError>) -> Result<Seq<u8>, EmitError> {
    match r {
        Ok(text) => Ok(text@),
        Err(e) => Err(e),
    }
}

/// The text of a list of instructions over `src`, or the first of them that
/// is not well formed.
pub open spec fn emit_spec(src: Seq<u8>, code: Seq<Instr>) -> Result<Seq<u8>, EmitError> {
    match first_malformed(src, code) {
        Some(i) => Err(EmitError::Malformed { index: i as usize }),
        None => Ok(render(src, code)),
    }
}

/// Writes the instructions as text, one macro form on each line, in the
/// order of the list. Fails at the first instruction whose name is no
/// identifier of `src`, which none that `lower` returned for `src` is.
pub fn emit(src: &[u8], code: &Vec<Instr>) -> (r: Result<Vec<u8>, EmitError>)
    ensures
        emitted(r) == emit_spec(src@, code@),
{
    let mut out: Vec<u8> = Vec::new();
    let mut i: usize = 0;
    assert(code@.take(0) =~= Seq::<Instr>::empty());
    while i < code.len()
        invariant
            i <= code@.len(),
            first_malformed(src@, code@.take(i as int)) is None,
            out@ == render(src@, code@.take(i as int)),
        decreases code@.len() - i,
    {
        proof {
            assert(code@.take(i + 1).drop_last() =~= code@.take(i as int));
        }
        if !is_well_formed(src, &code[i]) {
            proof {
                lemma_first_malformed_prefix(src@, code@, i + 1);
            }
            return Err(EmitError::Malformed { index: i });
        }
        put_line(&mut out, src, &code[i]);
        i = i + 1;
    }
    assert(code@.take(i as int) =~= code@);
    Ok(out)
}

/// Where every name in the instructions is an identifier of `src`, none of
/// them is malformed, and the emitter gives their text.
pub proof fn law_named_code_is_emitted(src: Seq<u8>, code: Seq<Instr>)
    requires
        names_ok(src, code),
    ensures
        first_malformed(src, code) is None,
        emit_spec(src, code) == Ok::<Seq<u8>, EmitError>(render(src, code)),
    decreases code.len(),
{
    if code.len() > 0 {
        assert(names_ok(src, code.drop_last())) by {
            assert forall|k: int| 0 <= k < code.drop_last().len() implies well_formed(
                src,
                #[trigger] code.drop_last()[k],
            ) by {
                assert(code.drop_last()[k] == code[k]);
            }
        }
        law_named_code_is_emitted(src, code.drop_last());
        assert(well_formed(src, code[code.len() - 1]));
    }
}

/// Writes instructions whose names are identifiers of `src` as text, one
/// macro form on each line, in the order of the list.
pub fn write_lines(src: &[u8], code: &Vec<Instr>) -> (text: Vec<u8>)
    requires
        names_ok(src@, code@),
    ensures
        text@ == render(src@, code@),
{
    let mut out: Vec<u8> = Vec::new();
    let mut i: usize = 0;
    assert(code@.take(0) =~= Seq::<Instr>::empty());
    while i < code.len()
        invariant
            i <= code@.len(),
            names_ok(src@, code@),
            out@ == render(src@, code@.take(i as int)),
        decreases code@.len() - i,
    {
        proof {
            assert(code@.take(i + 1).drop_last() =~= code@.take(i as int));
        }
        put_line(&mut out, src, &code[i]);
        i = i + 1;
    }
    assert(code@.take(i as int) =~= code@);
    out
}

} // verus!
