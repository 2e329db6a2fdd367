use rustlite::ast::{BinaryOp, UnaryOp};
use rustlite::driver::compile;
use rustlite::ir::{Instr, Label, Prim, Reg};
use rustlite::machine::{compute, compute_unary, locate, wrap, Machine, Outcome, Value};
use rustlite::span::{List, Span};

fn list(items: Vec<Reg>) -> List<Reg> {
    let mut l = List::Nil;
    for item in items.into_iter().rev() {
        l = List::Cons(Box::new(item), Box::new(l));
    }
    l
}

fn konst(dest: usize, value: i32) -> Instr {
    Instr::Const { dest: Reg(dest), ty: Prim::I32, value }
}

fn last_value(src: &str) -> Option<Value> {
    let out = compile(src.as_bytes()).unwrap();
    let mut m = Machine::new(64);
    assert_eq!(m.run(&out.code, 0, 100_000), Outcome::Finished, "{}", src);
    m.read(out.symbols.last().unwrap().reg)
}

#[test]
fn wrapping() {
    assert_eq!(wrap(0), 0);
    assert_eq!(wrap(2147483647), 2147483647);
    assert_eq!(wrap(2147483648), -2147483648);
    assert_eq!(wrap(-2147483648), -2147483648);
    assert_eq!(wrap(-2147483649), 2147483647);
    assert_eq!(wrap(4294967296), 0);
    assert_eq!(wrap(4294967297), 1);
    assert_eq!(wrap(-4294967295), 1);
    assert_eq!(wrap(i64::MAX), -1);
    assert_eq!(wrap(i64::MIN), 0);
}

#[test]
fn arithmetic_wraps() {
    assert_eq!(compute(BinaryOp::Add, 1, 2), Some(3));
    assert_eq!(compute(BinaryOp::Add, i32::MAX, 1), Some(i32::MIN));
    assert_eq!(compute(BinaryOp::Sub, 1, 2), Some(-1));
    assert_eq!(compute(BinaryOp::Sub, i32::MIN, 1), Some(i32::MAX));
    assert_eq!(compute(BinaryOp::Mul, 6, -7), Some(-42));
    assert_eq!(compute(BinaryOp::Mul, 65536, 65536), Some(0));
    assert_eq!(compute(BinaryOp::Mul, i32::MIN, i32::MIN), Some(0));
    assert_eq!(compute(BinaryOp::Mul, i32::MAX, i32::MAX), Some(1));
    assert_eq!(compute(BinaryOp::Mul, i32::MIN, -1), Some(i32::MIN));
    for (a, b) in [(3, 5), (-3, 5), (i32::MAX, i32::MAX), (i32::MIN, 7), (123456789, -987654321)] {
        assert_eq!(compute(BinaryOp::Add, a, b), Some(a.wrapping_add(b)));
        assert_eq!(compute(BinaryOp::Sub, a, b), Some(a.wrapping_sub(b)));
        assert_eq!(compute(BinaryOp::Mul, a, b), Some(a.wrapping_mul(b)));
    }
}

#[test]
fn division_rounds_towards_zero() {
    assert_eq!(compute(BinaryOp::Div, 7, 2), Some(3));
    assert_eq!(compute(BinaryOp::Div, -7, 2), Some(-3));
    assert_eq!(compute(BinaryOp::Div, 7, -2), Some(-3));
    assert_eq!(compute(BinaryOp::Div, -7, -2), Some(3));
    assert_eq!(compute(BinaryOp::Rem, 7, 2), Some(1));
    assert_eq!(compute(BinaryOp::Rem, -7, 2), Some(-1));
    assert_eq!(compute(BinaryOp::Rem, 7, -2), Some(1));
    assert_eq!(compute(BinaryOp::Rem, -7, -2), Some(-1));
    assert_eq!(compute(BinaryOp::Div, i32::MIN, -1), Some(i32::MIN));
    assert_eq!(compute(BinaryOp::Rem, i32::MIN, -1), Some(0));
    assert_eq!(compute(BinaryOp::Div, 1, 0), None);
    assert_eq!(compute(BinaryOp::Rem, 1, 0), None);
    assert_eq!(compute(BinaryOp::Div, 0, 5), Some(0));
}

#[test]
fn shifts() {
    assert_eq!(compute(BinaryOp::Shl, 1, 3), Some(8));
    assert_eq!(compute(BinaryOp::Shr, 8, 1), Some(4));
    assert_eq!(compute(BinaryOp::Shl, 3, 3), Some(24));
    assert_eq!(compute(BinaryOp::Shr, 24, 1), Some(12));
    assert_eq!(compute(BinaryOp::Shl, 1, 31), Some(i32::MIN));
    assert_eq!(compute(BinaryOp::Shl, 3, 31), Some(i32::MIN));
    assert_eq!(compute(BinaryOp::Shl, -1, 4), Some(-16));
    assert_eq!(compute(BinaryOp::Shr, -1, 31), Some(-1));
    assert_eq!(compute(BinaryOp::Shr, -16, 2), Some(-4));
    assert_eq!(compute(BinaryOp::Shr, -17, 2), Some(-5));
    assert_eq!(compute(BinaryOp::Shr, i32::MIN, 31), Some(-1));
    assert_eq!(compute(BinaryOp::Shr, i32::MAX, 30), Some(1));
    assert_eq!(compute(BinaryOp::Shl, 5, 0), Some(5));
    assert_eq!(compute(BinaryOp::Shr, 5, 0), Some(5));
    assert_eq!(compute(BinaryOp::Shl, 1, 32), None);
    assert_eq!(compute(BinaryOp::Shl, 1, -1), None);
    assert_eq!(compute(BinaryOp::Shr, 1, 32), None);
    assert_eq!(compute(BinaryOp::Shr, 1, -1), None);
    for a in [0, 1, -1, 12345, -12345, i32::MAX, i32::MIN] {
        for n in 0..32 {
            assert_eq!(compute(BinaryOp::Shl, a, n), Some(a << n));
            assert_eq!(compute(BinaryOp::Shr, a, n), Some(a >> n));
        }
    }
}

#[test]
fn comparisons_give_one_or_zero() {
    assert_eq!(compute(BinaryOp::Eq, 2, 2), Some(1));
    assert_eq!(compute(BinaryOp::Eq, 2, 3), Some(0));
    assert_eq!(compute(BinaryOp::Ne, 2, 3), Some(1));
    assert_eq!(compute(BinaryOp::Ne, 2, 2), Some(0));
    assert_eq!(compute(BinaryOp::Lt, -1, 0), Some(1));
    assert_eq!(compute(BinaryOp::Lt, 0, 0), Some(0));
    assert_eq!(compute(BinaryOp::Le, 0, 0), Some(1));
    assert_eq!(compute(BinaryOp::Le, 1, 0), Some(0));
    assert_eq!(compute(BinaryOp::Gt, 1, 0), Some(1));
    assert_eq!(compute(BinaryOp::Gt, 0, 0), Some(0));
    assert_eq!(compute(BinaryOp::Ge, 0, 0), Some(1));
    assert_eq!(compute(BinaryOp::Ge, -1, 0), Some(0));
    assert_eq!(compute(BinaryOp::And, 2, -3), Some(1));
    assert_eq!(compute(BinaryOp::And, 2, 0), Some(0));
    assert_eq!(compute(BinaryOp::Or, 0, 0), Some(0));
    assert_eq!(compute(BinaryOp::Or, 0, 7), Some(1));
    assert_eq!(compute_unary(UnaryOp::Neg, 5), -5);
    assert_eq!(compute_unary(UnaryOp::Neg, i32::MIN), i32::MIN);
    assert_eq!(compute_unary(UnaryOp::Not, 0), 1);
    assert_eq!(compute_unary(UnaryOp::Not, 5), 0);
}

#[test]
fn a_new_machine_is_empty() {
    let m = Machine::new(3);
    assert_eq!(m.regs, vec![None, None, None]);
    assert!(m.cells.is_empty());
    assert_eq!(m.read(Reg(0)), None);
    assert_eq!(m.read(Reg(3)), None);
    assert_eq!(m.read_int(Reg(0)), None);
}

#[test]
fn a_step_writes_its_register() {
    let mut m = Machine::new(4);
    assert!(m.step(&konst(1, 42)));
    assert_eq!(m.read(Reg(1)), Some(Value::Int(42)));
    assert_eq!(m.read_int(Reg(1)), Some(42));
    assert_eq!(m.read(Reg(0)), None);
    // The machine has no register four, and stays as it is.
    assert!(!m.step(&konst(4, 1)));
    assert_eq!(m.regs, vec![None, Some(Value::Int(42)), None, None]);
    assert!(m.step(&Instr::Label { label: Label(0) }));
    assert!(m.step(&Instr::Func { name: Span { start: 0, end: 0 }, params: List::Nil }));
    assert!(!m.step(&Instr::Jump { target: Label(0) }));
    assert!(!m.step(&Instr::Ret { value: None }));
    assert!(!m.step(&Instr::Branch { cond: Reg(1), target: Label(0) }));
    assert!(!m.step(&Instr::Call { dest: None, callee: Span { start: 0, end: 0 }, args: List::Nil }));
}

#[test]
fn store_then_load_yields_the_stored_value() {
    for len in [1usize, 2, 4, 9] {
        for index in 0..len {
            for value in [0, 77, -1, i32::MIN] {
                let mut m = Machine::new(8);
                assert!(m.step(&Instr::ArrayAlloc { dest: Reg(0), elem: Prim::I32, len }));
                assert!(m.step(&konst(1, index as i32)));
                assert!(m.step(&konst(2, value)));
                assert!(m.step(&Instr::IndexAddr {
                    dest: Reg(3),
                    elem: Prim::I32,
                    array: Reg(0),
                    index: Reg(1)
                }));
                assert!(m.step(&Instr::Store { ty: Prim::I32, addr: Reg(3), value: Reg(2) }));
                assert!(m.step(&Instr::IndexLoad {
                    dest: Reg(4),
                    elem: Prim::I32,
                    array: Reg(0),
                    index: Reg(1)
                }));
                assert_eq!(m.read(Reg(4)), Some(Value::Int(value)));
                assert_eq!(m.read(Reg(0)), Some(Value::Array { base: 0, len }));
                assert_eq!(m.read(Reg(3)), Some(Value::Addr { cell: index }));
            }
        }
    }
}

#[test]
fn a_fresh_array_holds_zeros_and_other_elements_stay() {
    assert_eq!(
        last_value("let mut a: [i32; 3]; a[1] = 5; let x = a[0] + a[1] + a[2];"),
        Some(Value::Int(5))
    );
    assert_eq!(
        last_value("let mut a: [i32; 2]; let mut b: [i32; 2]; a[1] = 5; b[1] = 6; a[1] = 7; let x = a[1] * 10 + b[1];"),
        Some(Value::Int(76))
    );
}

#[test]
fn an_index_out_of_range_is_stuck_when_run() {
    for src in ["let a: [i32; 2]; let x = a[2];", "let a: [i32; 2]; let x = a[0 - 1];", "let a: [i32; 0]; a[0];"] {
        let out = compile(src.as_bytes()).unwrap();
        let mut m = Machine::new(16);
        let last = out.code.len() - 1;
        assert_eq!(m.run(&out.code, 0, 100), Outcome::Stuck { pc: last }, "{}", src);
    }
    let out = compile(b"let x = 1; let y = x[0];").unwrap();
    assert_eq!(Machine::new(16).run(&out.code, 0, 100), Outcome::Stuck { pc: 2 });
}

#[test]
fn tget_yields_the_element_in_the_order_of_construction() {
    let mut m = Machine::new(8);
    assert!(m.step(&konst(0, 10)));
    assert!(m.step(&konst(1, 20)));
    assert!(m.step(&konst(2, 30)));
    assert!(m.step(&Instr::TupleBuild { dest: Reg(3), elems: list(vec![Reg(0), Reg(1), Reg(2)]) }));
    assert_eq!(m.read(Reg(3)), Some(Value::Tuple { base: 0, arity: 3 }));
    assert_eq!(m.cells, vec![10, 20, 30]);
    for (index, value) in [(0usize, 10), (1, 20), (2, 30)] {
        assert!(m.step(&Instr::TupleGet { dest: Reg(4), ty: Prim::I32, tuple: Reg(3), index }));
        assert_eq!(m.read(Reg(4)), Some(Value::Int(value)));
    }
    assert!(!m.step(&Instr::TupleGet { dest: Reg(4), ty: Prim::I32, tuple: Reg(3), index: 3 }));
    assert!(!m.step(&Instr::TupleGet { dest: Reg(4), ty: Prim::I32, tuple: Reg(0), index: 0 }));
    assert!(!m.step(&Instr::TupleBuild { dest: Reg(5), elems: list(vec![Reg(0), Reg(3)]) }));
    assert!(!m.step(&Instr::TupleBuild { dest: Reg(5), elems: list(vec![Reg(7)]) }));
    assert_eq!(last_value("let t = (10, 20, 30); let x = t.1;"), Some(Value::Int(20)));
    assert_eq!(last_value("let t = (10, 20, 30); let x = t.0 - t.2;"), Some(Value::Int(-20)));
}

#[test]
fn an_operand_of_the_wrong_kind_is_stuck() {
    let mut m = Machine::new(8);
    assert!(m.step(&Instr::ArrayAlloc { dest: Reg(0), elem: Prim::I32, len: 2 }));
    assert!(m.step(&konst(1, 1)));
    let before = (m.regs.clone(), m.cells.clone());
    assert!(!m.step(&Instr::AssignOp { dest: Reg(2), op: BinaryOp::Add, lhs: Reg(0), rhs: Reg(1) }));
    assert!(!m.step(&Instr::AssignOp { dest: Reg(2), op: BinaryOp::Add, lhs: Reg(1), rhs: Reg(5) }));
    assert!(!m.step(&Instr::AssignOp { dest: Reg(2), op: BinaryOp::Div, lhs: Reg(1), rhs: Reg(6) }));
    assert!(!m.step(&Instr::UnaryOp { dest: Reg(2), op: UnaryOp::Neg, operand: Reg(0) }));
    assert!(!m.step(&Instr::Store { ty: Prim::I32, addr: Reg(1), value: Reg(1) }));
    assert!(!m.step(&Instr::Store { ty: Prim::I32, addr: Reg(0), value: Reg(1) }));
    assert!(!m.step(&Instr::IndexAddr { dest: Reg(2), elem: Prim::I32, array: Reg(1), index: Reg(1) }));
    assert!(!m.step(&Instr::IndexLoad { dest: Reg(9), elem: Prim::I32, array: Reg(0), index: Reg(1) }));
    assert_eq!((m.regs.clone(), m.cells.clone()), before);
}

#[test]
fn expressions_evaluate_as_written() {
    assert_eq!(last_value("let x = 1 + 2 * 3;"), Some(Value::Int(7)));
    assert_eq!(last_value("let x = (1 + 2) * 3;"), Some(Value::Int(9)));
    assert_eq!(last_value("let x = 1 << 2 + 3;"), Some(Value::Int(7)));
    assert_eq!(last_value("let x = 1 << (2 + 3);"), Some(Value::Int(32)));
    assert_eq!(last_value("let x = 7 - 2 - 1;"), Some(Value::Int(4)));
    assert_eq!(last_value("let x = -7 / 2;"), Some(Value::Int(-3)));
    assert_eq!(last_value("let x = -7 % 2;"), Some(Value::Int(-1)));
    assert_eq!(last_value("let x = 2147483647 + 1;"), Some(Value::Int(-2147483648)));
    assert_eq!(last_value("let x = -2147483647 - 1;"), Some(Value::Int(-2147483648)));
    assert_eq!(last_value("let x = 1 < 2 == 2 > 1;"), Some(Value::Int(1)));
    assert_eq!(last_value("let x = 1 < 2 && 3 < 2 || 5 >= 5;"), Some(Value::Int(1)));
    assert_eq!(last_value("let x = !0 + !5;"), Some(Value::Int(1)));
    assert_eq!(last_value("let x = !(1 == 2);"), Some(Value::Int(1)));
    assert_eq!(last_value("let mut x = 1; x <<= 3; x >>= 1;"), Some(Value::Int(4)));
    assert_eq!(last_value("let mut x = 5; x += 3; x -= 10;"), Some(Value::Int(-2)));
    assert_eq!(last_value("let mut x = 1; x = 2; x = -3;"), Some(Value::Int(-3)));
}

#[test]
fn a_division_by_zero_is_stuck_when_run() {
    let out = compile(b"let x = 1 / 0;").unwrap();
    assert_eq!(Machine::new(8).run(&out.code, 0, 100), Outcome::Stuck { pc: 2 });
    let out = compile(b"let x = 1 << 32;").unwrap();
    assert_eq!(Machine::new(8).run(&out.code, 0, 100), Outcome::Stuck { pc: 2 });
}

#[test]
fn a_run_ends_at_ret_or_past_the_last_instruction() {
    let code = vec![konst(0, 5), Instr::Ret { value: Some(Reg(0)) }, konst(0, 6)];
    let mut m = Machine::new(1);
    assert_eq!(m.run(&code, 0, 10), Outcome::Returned(Some(Value::Int(5))));
    assert_eq!(m.run(&code, 2, 10), Outcome::Finished);
    assert_eq!(m.read_int(Reg(0)), Some(6));
    assert_eq!(m.run(&code, 3, 10), Outcome::Finished);
    assert_eq!(m.run(&code, 99, 0), Outcome::Finished);
    assert_eq!(Machine::new(1).run(&vec![Instr::Ret { value: None }], 0, 1), Outcome::Returned(None));
    assert_eq!(
        Machine::new(1).run(&vec![Instr::Ret { value: Some(Reg(0)) }], 0, 1),
        Outcome::Stuck { pc: 0 }
    );
}

#[test]
fn a_run_stops_when_the_fuel_is_gone() {
    let out = compile(b"loop { }").unwrap();
    assert_eq!(Machine::new(1).run(&out.code, 0, 1000), Outcome::OutOfFuel);
    let code = vec![konst(0, 1), konst(0, 2), konst(0, 3)];
    let mut m = Machine::new(1);
    assert_eq!(m.run(&code, 0, 2), Outcome::OutOfFuel);
    assert_eq!(m.read_int(Reg(0)), Some(2));
    assert_eq!(m.run(&code, 0, 3), Outcome::Finished);
    assert_eq!(m.run(&code, 0, 0), Outcome::OutOfFuel);
}

#[test]
fn jumps_go_to_the_first_label_of_their_name() {
    let code = vec![
        Instr::Jump { target: Label(1) },
        konst(0, 1),
        Instr::Label { label: Label(1) },
        konst(1, 2),
        Instr::Label { label: Label(1) },
    ];
    assert_eq!(locate(&code, Label(1)), Some(2));
    assert_eq!(locate(&code, Label(0)), None);
    let mut m = Machine::new(2);
    assert_eq!(m.run(&code, 0, 10), Outcome::Finished);
    assert_eq!(m.regs, vec![None, Some(Value::Int(2))]);
    assert_eq!(
        Machine::new(1).run(&vec![Instr::Jump { target: Label(3) }], 0, 10),
        Outcome::Stuck { pc: 0 }
    );
}

#[test]
fn a_branch_is_taken_where_the_condition_is_not_zero() {
    let program = |cond: i32| {
        vec![
            konst(0, cond),
            Instr::Branch { cond: Reg(0), target: Label(0) },
            konst(1, 10),
            Instr::Ret { value: Some(Reg(1)) },
            Instr::Label { label: Label(0) },
            konst(1, 20),
            Instr::Ret { value: Some(Reg(1)) },
        ]
    };
    assert_eq!(Machine::new(2).run(&program(0), 0, 10), Outcome::Returned(Some(Value::Int(10))));
    assert_eq!(Machine::new(2).run(&program(1), 0, 10), Outcome::Returned(Some(Value::Int(20))));
    assert_eq!(Machine::new(2).run(&program(-5), 0, 10), Outcome::Returned(Some(Value::Int(20))));
    let code = vec![Instr::Branch { cond: Reg(0), target: Label(0) }];
    assert_eq!(Machine::new(2).run(&code, 0, 10), Outcome::Stuck { pc: 0 });
    let code = vec![konst(0, 1), Instr::Branch { cond: Reg(0), target: Label(9) }];
    assert_eq!(Machine::new(2).run(&code, 0, 10), Outcome::Stuck { pc: 1 });
}

#[test]
fn conditionals_run_one_of_their_blocks() {
    let src = "let mut a: [i32; 1]; if 1 < 2 { a[0] = 10; } else { a[0] = 20; } let x = a[0];";
    assert_eq!(last_value(src), Some(Value::Int(10)));
    let src = "let mut a: [i32; 1]; if 2 < 1 { a[0] = 10; } else { a[0] = 20; } let x = a[0];";
    assert_eq!(last_value(src), Some(Value::Int(20)));
    let src = "let mut a: [i32; 1]; if 0 { a[0] = 10; } let x = a[0];";
    assert_eq!(last_value(src), Some(Value::Int(0)));
}

#[test]
fn a_loop_runs_until_its_break() {
    let src = "let mut a: [i32; 1]; loop { a[0] = a[0] + 1; if a[0] % 7 == 0 { break; } } let x = a[0];";
    assert_eq!(last_value(src), Some(Value::Int(7)));
    let src = "let mut a: [i32; 2]; loop { a[0] = a[0] + 1; if a[0] % 2 == 0 { continue; } a[1] = a[1] + a[0]; if a[0] > 8 { break; } } let x = a[1];";
    assert_eq!(last_value(src), Some(Value::Int(25)));
}

#[test]
fn a_call_is_stuck_when_run() {
    let out = compile(b"fn f() { } fn main() { f(); }").unwrap();
    assert_eq!(Machine::new(4).run(&out.code, 0, 10), Outcome::Returned(None));
    assert_eq!(Machine::new(4).run(&out.code, 2, 10), Outcome::Stuck { pc: 3 });
}

#[test]
fn a_straight_line_program_leaves_each_name_its_value() {
    let src = "let mut x = 5; let y = x + 1; x = y * 2; x -= 3; let z = x - y; let x = z << 2;";
    let out = compile(src.as_bytes()).unwrap();
    let mut m = Machine::new(32);
    assert_eq!(m.run(&out.code, 0, 1000), Outcome::Finished);
    let value = |name: &str| {
        let symbol = out
            .symbols
            .iter()
            .rev()
            .find(|s| &src.as_bytes()[s.name.start..s.name.end] == name.as_bytes())
            .unwrap();
        m.read_int(symbol.reg)
    };
    // x is 5, then 12, then 9; y is 6; z is 3; the second x is 12.
    assert_eq!(value("y"), Some(6));
    assert_eq!(value("z"), Some(3));
    assert_eq!(value("x"), Some(12));
    assert_eq!(m.read_int(out.symbols[0].reg), Some(9));
}
