use rustlite::ast::{BinaryOp, UnaryOp};
use rustlite::driver::compile_text;
use rustlite::emit::{is_well_formed, is_identifier, emit, op_name, unary_name, write_lines, EmitError};
use rustlite::ir::{Instr, Label, Prim, Reg};
use rustlite::span::{List, Span};

fn list(items: Vec<Reg>) -> List<Reg> {
    let mut l = List::Nil;
    for item in items.into_iter().rev() {
        l = List::Cons(Box::new(item), Box::new(l));
    }
    l
}

fn line(src: &str, instr: Instr) -> String {
    String::from_utf8(emit(src.as_bytes(), &vec![instr]).unwrap()).unwrap()
}

#[test]
fn every_instruction_has_its_line() {
    let i32t = Prim::I32;
    assert_eq!(line("", Instr::Const { dest: Reg(0), ty: i32t, value: 2 }), "(const %r0 i32 2)\n");
    assert_eq!(
        line("", Instr::Const { dest: Reg(12), ty: i32t, value: -2147483648 }),
        "(const %r12 i32 -2147483648)\n"
    );
    assert_eq!(
        line("", Instr::Const { dest: Reg(1), ty: i32t, value: 2147483647 }),
        "(const %r1 i32 2147483647)\n"
    );
    assert_eq!(
        line("", Instr::ArrayAlloc { dest: Reg(3), elem: i32t, len: 4 }),
        "(rarray %r3 i32 4)\n"
    );
    assert_eq!(
        line("", Instr::IndexAddr { dest: Reg(3), elem: i32t, array: Reg(0), index: Reg(1) }),
        "(rindex-addr %r3 i32 %r0 %r1)\n"
    );
    assert_eq!(
        line("", Instr::IndexLoad { dest: Reg(4), elem: i32t, array: Reg(0), index: Reg(1) }),
        "(rindex-load %r4 i32 %r0 %r1)\n"
    );
    assert_eq!(
        line("", Instr::Store { ty: i32t, addr: Reg(3), value: Reg(2) }),
        "(store i32 %r3 %r2)\n"
    );
    assert_eq!(
        line("", Instr::TupleBuild { dest: Reg(3), elems: list(vec![Reg(0), Reg(1), Reg(2)]) }),
        "(tuple %r3 [ %r0 %r1 %r2 ])\n"
    );
    assert_eq!(
        line("", Instr::TupleBuild { dest: Reg(0), elems: List::Nil }),
        "(tuple %r0 [ ])\n"
    );
    assert_eq!(
        line("", Instr::TupleGet { dest: Reg(4), ty: i32t, tuple: Reg(3), index: 1 }),
        "(tget %r4 i32 %r3 1)\n"
    );
    assert_eq!(
        line("", Instr::AssignOp { dest: Reg(2), op: BinaryOp::Shl, lhs: Reg(0), rhs: Reg(1) }),
        "(rassign-op %r2 shl %r0 %r1)\n"
    );
    assert_eq!(
        line("", Instr::UnaryOp { dest: Reg(2), op: UnaryOp::Neg, operand: Reg(1) }),
        "(runary-op %r2 neg %r1)\n"
    );
    assert_eq!(line("", Instr::Label { label: Label(10) }), "(label L10)\n");
    assert_eq!(
        line("", Instr::Branch { cond: Reg(5), target: Label(0) }),
        "(branch %r5 L0)\n"
    );
    assert_eq!(line("", Instr::Jump { target: Label(7) }), "(jump L7)\n");
    let src = "foo(bar)";
    assert_eq!(
        line(
            src,
            Instr::Call { dest: Some(Reg(9)), callee: Span { start: 0, end: 3 }, args: list(vec![Reg(8)]) }
        ),
        "(call %r9 foo [ %r8 ])\n"
    );
    assert_eq!(
        line(src, Instr::Call { dest: None, callee: Span { start: 4, end: 7 }, args: List::Nil }),
        "(call bar [ ])\n"
    );
    assert_eq!(
        line(
            src,
            Instr::Func { name: Span { start: 0, end: 3 }, params: list(vec![Reg(0), Reg(1)]) }
        ),
        "(fn foo [ %r0 %r1 ])\n"
    );
    assert_eq!(line("", Instr::Ret { value: Some(Reg(4)) }), "(ret %r4)\n");
    assert_eq!(line("", Instr::Ret { value: None }), "(ret)\n");
}

#[test]
fn operator_names() {
    let names = [
        (BinaryOp::Or, "or"),
        (BinaryOp::And, "and"),
        (BinaryOp::Eq, "eq"),
        (BinaryOp::Ne, "ne"),
        (BinaryOp::Lt, "lt"),
        (BinaryOp::Le, "le"),
        (BinaryOp::Gt, "gt"),
        (BinaryOp::Ge, "ge"),
        (BinaryOp::Add, "add"),
        (BinaryOp::Sub, "sub"),
        (BinaryOp::Shl, "shl"),
        (BinaryOp::Shr, "ashr"),
        (BinaryOp::Mul, "mul"),
        (BinaryOp::Div, "sdiv"),
        (BinaryOp::Rem, "srem"),
    ];
    for (op, name) in names {
        assert_eq!(op_name(op), name);
        assert_eq!(
            line("", Instr::AssignOp { dest: Reg(0), op, lhs: Reg(1), rhs: Reg(2) }),
            format!("(rassign-op %r0 {} %r1 %r2)\n", name)
        );
    }
    assert_eq!(unary_name(UnaryOp::Neg), "neg");
    assert_eq!(unary_name(UnaryOp::Not), "not");
    assert_eq!(
        line("", Instr::UnaryOp { dest: Reg(0), op: UnaryOp::Not, operand: Reg(1) }),
        "(runary-op %r0 not %r1)\n"
    );
}

#[test]
fn numbers_are_written_in_decimal() {
    for n in [0usize, 9, 10, 99, 100, 12345, 4294967295] {
        assert_eq!(line("", Instr::Label { label: Label(n) }), format!("(label L{})\n", n));
        assert_eq!(
            line("", Instr::Ret { value: Some(Reg(n)) }),
            format!("(ret %r{})\n", n)
        );
    }
    for v in [0i32, -1, 1, -10, 10, 1000000, -1000000, i32::MAX, i32::MIN] {
        assert_eq!(
            line("", Instr::Const { dest: Reg(0), ty: Prim::I32, value: v }),
            format!("(const %r0 i32 {})\n", v)
        );
    }
}

#[test]
fn lines_follow_each_other_in_the_order_of_the_list() {
    let code = vec![
        Instr::Label { label: Label(0) },
        Instr::Jump { target: Label(0) },
        Instr::Label { label: Label(1) },
    ];
    assert_eq!(
        String::from_utf8(emit(b"", &code).unwrap()).unwrap(),
        "(label L0)\n(jump L0)\n(label L1)\n"
    );
    assert_eq!(write_lines(b"", &code), emit(b"", &code).unwrap());
    assert_eq!(emit(b"", &Vec::new()), Ok(Vec::new()));
}

#[test]
fn a_name_that_is_no_identifier_is_malformed() {
    let src = b"foo 1x _y";
    assert!(is_identifier(src, Span { start: 0, end: 3 }));
    assert!(is_identifier(src, Span { start: 1, end: 2 }));
    assert!(is_identifier(src, Span { start: 5, end: 6 }));
    assert!(is_identifier(src, Span { start: 7, end: 9 }));
    assert!(!is_identifier(src, Span { start: 4, end: 6 }));
    assert!(!is_identifier(src, Span { start: 0, end: 4 }));
    assert!(!is_identifier(src, Span { start: 2, end: 2 }));
    assert!(!is_identifier(src, Span { start: 3, end: 2 }));
    assert!(!is_identifier(src, Span { start: 7, end: 10 }));
    let bad = Instr::Call { dest: None, callee: Span { start: 4, end: 6 }, args: List::Nil };
    assert!(!is_well_formed(src, &bad));
    assert!(is_well_formed(src, &Instr::Ret { value: None }));
    let code = vec![
        Instr::Ret { value: None },
        Instr::Func { name: Span { start: 0, end: 3 }, params: List::Nil },
        bad,
        Instr::Func { name: Span { start: 9, end: 20 }, params: List::Nil },
    ];
    assert_eq!(emit(src, &code), Err(EmitError::Malformed { index: 2 }));
}

#[test]
fn the_text_of_a_source_with_an_error_is_the_error() {
    assert!(compile_text(b"let x = ;").is_err());
    assert_eq!(compile_text(b"").unwrap(), b"");
    assert_eq!(
        String::from_utf8(compile_text(b"let snake_case_1 = 1;").unwrap()).unwrap(),
        "(const %r0 i32 1)\n"
    );
}
