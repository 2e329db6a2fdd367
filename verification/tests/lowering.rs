use rustlite::ast::{BinaryOp, Expr, Item, Stmt, Type, UnaryOp};
use rustlite::driver::{compile, compile_text};
use rustlite::error::{CompileError, ErrorFamily, ErrorKind};
use rustlite::ir::{Instr, Label, Prim, Reg};
use rustlite::lower::{lower, Lowerer};
use rustlite::scope::{resolve, resolve_func, FuncSig, Symbol};
use rustlite::span::{List, Span};

fn code(src: &str) -> Vec<Instr> {
    compile(src.as_bytes()).unwrap().code
}

fn text(src: &str) -> String {
    String::from_utf8(compile_text(src.as_bytes()).unwrap()).unwrap()
}

fn error(src: &str) -> CompileError {
    match compile(src.as_bytes()) {
        Ok(_) => panic!("compiled"),
        Err(e) => e,
    }
}

fn list<T>(items: Vec<T>) -> List<T> {
    let mut l = List::Nil;
    for item in items.into_iter().rev() {
        l = List::Cons(Box::new(item), Box::new(l));
    }
    l
}

fn sp(start: usize, end: usize) -> Span {
    Span { start, end }
}

#[test]
fn a_let_of_a_literal_is_one_const() {
    let out = compile(b"let x = 77;").unwrap();
    assert_eq!(out.code, vec![Instr::Const { dest: Reg(0), ty: Prim::I32, value: 77 }]);
    assert_eq!(
        out.symbols,
        vec![Symbol { name: sp(4, 5), ty: Type::Int, mutable: false, depth: 0, reg: Reg(0) }]
    );
}

#[test]
fn reading_a_name_reads_its_register() {
    assert_eq!(
        code("let x = 5; let y = x + x;"),
        vec![
            Instr::Const { dest: Reg(0), ty: Prim::I32, value: 5 },
            Instr::AssignOp { dest: Reg(1), op: BinaryOp::Add, lhs: Reg(0), rhs: Reg(0) },
        ]
    );
}

#[test]
fn an_assignment_binds_the_name_to_a_new_register() {
    let out = compile(b"let mut x = 1; x = 2; let y = x;").unwrap();
    assert_eq!(
        out.code,
        vec![
            Instr::Const { dest: Reg(0), ty: Prim::I32, value: 1 },
            Instr::Const { dest: Reg(1), ty: Prim::I32, value: 2 },
        ]
    );
    assert_eq!(out.symbols[0].reg, Reg(1));
    assert_eq!(out.symbols[1].reg, Reg(1));
    assert!(out.symbols[0].mutable);
    assert!(!out.symbols[1].mutable);
}

#[test]
fn a_compound_assignment_is_one_instruction() {
    let out = compile(b"let mut x = 1; x <<= 3; x >>= 1; x += 4; x -= 5;").unwrap();
    assert_eq!(
        out.code,
        vec![
            Instr::Const { dest: Reg(0), ty: Prim::I32, value: 1 },
            Instr::Const { dest: Reg(1), ty: Prim::I32, value: 3 },
            Instr::AssignOp { dest: Reg(2), op: BinaryOp::Shl, lhs: Reg(0), rhs: Reg(1) },
            Instr::Const { dest: Reg(3), ty: Prim::I32, value: 1 },
            Instr::AssignOp { dest: Reg(4), op: BinaryOp::Shr, lhs: Reg(2), rhs: Reg(3) },
            Instr::Const { dest: Reg(5), ty: Prim::I32, value: 4 },
            Instr::AssignOp { dest: Reg(6), op: BinaryOp::Add, lhs: Reg(4), rhs: Reg(5) },
            Instr::Const { dest: Reg(7), ty: Prim::I32, value: 5 },
            Instr::AssignOp { dest: Reg(8), op: BinaryOp::Sub, lhs: Reg(6), rhs: Reg(7) },
        ]
    );
    assert_eq!(out.symbols[0].reg, Reg(8));
}

#[test]
fn assigning_to_a_name_without_mut_fails_whatever_is_assigned() {
    for value in ["2", "x + 1", "nowhere", "(1, 2)", "f(1)", "t.9", "-x", "x[0]"] {
        let src = format!("let x = 1; x = {};", value);
        let e = error(&src);
        assert_eq!(
            e,
            CompileError { kind: ErrorKind::NotDeclaredMutable { name: sp(11, 12) }, pos: 11 },
            "{}",
            src
        );
        assert_eq!(e.family(), ErrorFamily::AssignError);
        assert_eq!(e.message(), "variable is not declared mutable");
        let src = format!("let x = 1; x += {};", value);
        assert_eq!(
            error(&src),
            CompileError { kind: ErrorKind::NotDeclaredMutable { name: sp(11, 12) }, pos: 11 }
        );
    }
    // A parameter without `mut` is bound without it too.
    assert_eq!(
        error("fn f(a: i32) { a = 1; }"),
        CompileError { kind: ErrorKind::NotDeclaredMutable { name: sp(15, 16) }, pos: 15 }
    );
}

#[test]
fn storing_into_an_array_without_mut_fails_as_immutable() {
    let e = error("let a: [i32; 2]; a[0] = 1;");
    assert_eq!(e, CompileError { kind: ErrorKind::Immutable { name: sp(17, 18) }, pos: 17 });
    assert_eq!(e.family(), ErrorFamily::AssignError);
    assert_eq!(e.message(), "symbol is immutable");
    assert_eq!(
        error("let a: [i32; 2]; a[nowhere] = (1, 2).5;"),
        CompileError { kind: ErrorKind::Immutable { name: sp(17, 18) }, pos: 17 }
    );
}

#[test]
fn a_name_that_is_not_declared_fails() {
    let e = error("let y = x;");
    assert_eq!(e, CompileError { kind: ErrorKind::Undeclared { name: sp(8, 9) }, pos: 8 });
    assert_eq!(e.family(), ErrorFamily::NameError);
    assert_eq!(e.message(), "name is not declared");
    assert_eq!(
        error("x = 1;"),
        CompileError { kind: ErrorKind::Undeclared { name: sp(0, 1) }, pos: 0 }
    );
    assert_eq!(
        error("x += 1;"),
        CompileError { kind: ErrorKind::Undeclared { name: sp(0, 1) }, pos: 0 }
    );
    assert_eq!(
        error("a[0] = 1;"),
        CompileError { kind: ErrorKind::Undeclared { name: sp(0, 1) }, pos: 0 }
    );
    assert_eq!(
        error("g(1);"),
        CompileError { kind: ErrorKind::Undeclared { name: sp(0, 1) }, pos: 0 }
    );
    // A name is declared from the end of its `let` on.
    assert_eq!(
        error("let x = x;"),
        CompileError { kind: ErrorKind::Undeclared { name: sp(8, 9) }, pos: 8 }
    );
    // A function is no variable, and a variable no function.
    assert_eq!(
        error("fn f() { } let x = f;"),
        CompileError { kind: ErrorKind::Undeclared { name: sp(19, 20) }, pos: 19 }
    );
    assert_eq!(
        error("let f = 1; f();"),
        CompileError { kind: ErrorKind::Undeclared { name: sp(11, 12) }, pos: 11 }
    );
    // A function is declared from its own body on, not before.
    assert_eq!(
        error("fn f() { g(); } fn g() { }"),
        CompileError { kind: ErrorKind::Undeclared { name: sp(9, 10) }, pos: 9 }
    );
    assert_eq!(text("fn f() { f(); }"), "(fn f [ ])\n(call f [ ])\n(ret)\n");
}

#[test]
fn a_scope_ends_with_its_block() {
    assert_eq!(
        error("{ let x = 1; } let y = x;"),
        CompileError { kind: ErrorKind::Undeclared { name: sp(23, 24) }, pos: 23 }
    );
    assert_eq!(
        error("loop { let x = 1; break; } x;"),
        CompileError { kind: ErrorKind::Undeclared { name: sp(27, 28) }, pos: 27 }
    );
    assert_eq!(
        error("if 1 { let x = 1; } else { x; }"),
        CompileError { kind: ErrorKind::Undeclared { name: sp(27, 28) }, pos: 27 }
    );
    assert_eq!(
        error("fn f(a: i32) { } let y = a;"),
        CompileError { kind: ErrorKind::Undeclared { name: sp(25, 26) }, pos: 25 }
    );
}

#[test]
fn an_inner_binding_shadows_and_leaves_the_outer_one_alone() {
    let out = compile(b"let x = 1; { let x = 2; let z = x; } let y = x;").unwrap();
    assert_eq!(out.symbols.len(), 2);
    assert_eq!(out.symbols[0].reg, Reg(0));
    assert_eq!(out.symbols[1].reg, Reg(0));
    // Shadowing in one scope: the later binding is the one that is seen.
    let out = compile(b"let x = 1; let mut x = 2; x = 3;").unwrap();
    assert_eq!(out.symbols[0].reg, Reg(0));
    assert_eq!(out.symbols[1].reg, Reg(2));
}

#[test]
fn an_assignment_in_a_block_reaches_the_outer_binding() {
    let out = compile(b"let mut x = 1; { x = 2; } let y = x;").unwrap();
    assert_eq!(out.symbols[0].reg, Reg(1));
    assert_eq!(out.symbols[1].reg, Reg(1));
    assert_eq!(out.symbols[0].depth, 0);
}

#[test]
fn symbols_know_their_depth() {
    let mut pass = Lowerer::new();
    let src = b"let a = 1; { let b = 2; { let c = 3; } }";
    // Lower by hand up to the innermost binding, so that the table can be looked at.
    let tokens = rustlite::lexer::tokenize(src).unwrap();
    let unit = rustlite::parser::parse(src, &tokens).unwrap();
    match &unit {
        List::Cons(first, rest) => {
            pass.item(src, first).unwrap();
            match (&**rest, pass.symbols.len()) {
                (List::Cons(_, _), 1) => {}
                other => panic!("{:?}", other),
            }
        }
        List::Nil => panic!("empty"),
    }
    pass.depth = 2;
    pass.stmt(
        src,
        &Stmt::Let { name: sp(30, 31), mutable: false, ty: None, init: Expr::Literal { value: 3, pos: 34 } },
    )
    .unwrap();
    assert_eq!(pass.symbols[0].depth, 0);
    assert_eq!(pass.symbols[1].depth, 2);
    assert_eq!(resolve(src, &pass.symbols, 0, sp(30, 31)), Some(1));
    assert_eq!(resolve(src, &pass.symbols, 0, sp(4, 5)), Some(0));
    assert_eq!(resolve(src, &pass.symbols, 1, sp(4, 5)), None);
    assert_eq!(resolve(src, &pass.symbols, 0, sp(17, 18)), None);
}

#[test]
fn a_function_sees_its_parameters_and_not_the_bindings_around_it() {
    assert_eq!(
        error("let x = 1; fn f() -> i32 { x }"),
        CompileError { kind: ErrorKind::Undeclared { name: sp(27, 28) }, pos: 27 }
    );
    assert_eq!(
        text("let x = 1; fn f(x: i32) -> i32 { x } let y = x;"),
        "(const %r0 i32 1)\n(fn f [ %r1 ])\n(ret %r1)\n"
    );
}

#[test]
fn resolve_func_finds_the_last_declaration() {
    let src = b"f g f";
    let funcs = vec![
        FuncSig { name: sp(0, 1), arity: 0 },
        FuncSig { name: sp(2, 3), arity: 1 },
        FuncSig { name: sp(4, 5), arity: 2 },
    ];
    assert_eq!(resolve_func(src, &funcs, sp(0, 1)), Some(2));
    assert_eq!(resolve_func(src, &funcs, sp(2, 3)), Some(1));
    assert_eq!(resolve_func(src, &funcs, sp(1, 2)), None);
    assert_eq!(
        text("fn f() { } fn f(a: i32) { } f(1);"),
        "(fn f [ ])\n(ret)\n(fn f [ %r0 ])\n(ret)\n(const %r1 i32 1)\n(call f [ %r1 ])\n"
    );
}

#[test]
fn break_and_continue_need_a_loop() {
    let e = error("break;");
    assert_eq!(e, CompileError { kind: ErrorKind::NoEnclosingLoop, pos: 0 });
    assert_eq!(e.family(), ErrorFamily::ControlFlowError);
    assert_eq!(e.message(), "no enclosing loop");
    assert_eq!(error("continue;"), CompileError { kind: ErrorKind::NoEnclosingLoop, pos: 0 });
    assert_eq!(
        error("loop { continue; } continue;"),
        CompileError { kind: ErrorKind::NoEnclosingLoop, pos: 19 }
    );
    assert_eq!(
        error("fn f() { if 1 { break; } }"),
        CompileError { kind: ErrorKind::NoEnclosingLoop, pos: 16 }
    );
    assert_eq!(
        error("{ { break; } }"),
        CompileError { kind: ErrorKind::NoEnclosingLoop, pos: 4 }
    );
}

#[test]
fn a_loop_is_a_label_a_body_a_jump_and_a_label() {
    assert_eq!(
        code("loop { }"),
        vec![
            Instr::Label { label: Label(0) },
            Instr::Jump { target: Label(0) },
            Instr::Label { label: Label(1) },
        ]
    );
    assert_eq!(
        code("loop { continue; break; }"),
        vec![
            Instr::Label { label: Label(0) },
            Instr::Jump { target: Label(0) },
            Instr::Jump { target: Label(1) },
            Instr::Jump { target: Label(0) },
            Instr::Label { label: Label(1) },
        ]
    );
}

#[test]
fn break_and_continue_mean_the_innermost_loop() {
    let got = code("loop { loop { break; continue; } break; continue; }");
    assert_eq!(
        got,
        vec![
            Instr::Label { label: Label(0) },
            Instr::Label { label: Label(2) },
            Instr::Jump { target: Label(3) },
            Instr::Jump { target: Label(2) },
            Instr::Jump { target: Label(2) },
            Instr::Label { label: Label(3) },
            Instr::Jump { target: Label(1) },
            Instr::Jump { target: Label(0) },
            Instr::Jump { target: Label(0) },
            Instr::Label { label: Label(1) },
        ]
    );
    // The exit label of each loop stands right after the jump that ends the loop.
    let place = |l: usize| got.iter().position(|i| *i == Instr::Label { label: Label(l) }).unwrap();
    assert_eq!(got[place(3) - 1], Instr::Jump { target: Label(2) });
    assert_eq!(got[place(1) - 1], Instr::Jump { target: Label(0) });
    assert!(place(2) < place(3) && place(0) < place(1));
}

#[test]
fn a_conditional_branches_around_two_blocks() {
    assert_eq!(
        text("let c = 1; if c { let a = 2; } else { let b = 3; } let d = 4;"),
        "(const %r0 i32 1)\n\
         (branch %r0 L0)\n\
         (jump L1)\n\
         (label L0)\n\
         (const %r1 i32 2)\n\
         (jump L2)\n\
         (label L1)\n\
         (const %r2 i32 3)\n\
         (jump L2)\n\
         (label L2)\n\
         (const %r3 i32 4)\n"
    );
    assert_eq!(
        text("if 0 { }"),
        "(const %r0 i32 0)\n(branch %r0 L0)\n(jump L1)\n(label L0)\n(jump L2)\n(label L1)\n(jump L2)\n(label L2)\n"
    );
}

#[test]
fn a_tuple_is_built_from_its_elements_in_order() {
    assert_eq!(
        code("let t = (10, 20, 30); let mid = t.1;"),
        vec![
            Instr::Const { dest: Reg(0), ty: Prim::I32, value: 10 },
            Instr::Const { dest: Reg(1), ty: Prim::I32, value: 20 },
            Instr::Const { dest: Reg(2), ty: Prim::I32, value: 30 },
            Instr::TupleBuild { dest: Reg(3), elems: list(vec![Reg(0), Reg(1), Reg(2)]) },
            Instr::TupleGet { dest: Reg(4), ty: Prim::I32, tuple: Reg(3), index: 1 },
        ]
    );
    let out = compile(b"let t = (1, 2);").unwrap();
    assert_eq!(out.symbols[0].ty, Type::Tuple { arity: 2 });
}

#[test]
fn a_tuple_access_out_of_range_fails() {
    let e = error("let t = (10, 20, 30); let u = t.3;");
    assert_eq!(e, CompileError { kind: ErrorKind::TupleIndexOutOfRange, pos: 31 });
    assert_eq!(e.family(), ErrorFamily::TypeError);
    assert_eq!(e.message(), "tuple index is out of range");
    for index in ["3", "4", "100", "2147483647"] {
        let src = format!("let t = (10, 20, 30); t.{};", index);
        assert_eq!(error(&src), CompileError { kind: ErrorKind::TupleIndexOutOfRange, pos: 23 });
    }
    for index in ["0", "1", "2"] {
        let src = format!("let t = (10, 20, 30); t.{};", index);
        assert!(compile(src.as_bytes()).is_ok());
    }
    // What is no tuple has no elements.
    assert_eq!(
        error("let t = 1; let u = t.0;"),
        CompileError { kind: ErrorKind::TupleIndexOutOfRange, pos: 20 }
    );
    assert_eq!(
        error("let a: [i32; 4]; a.0;"),
        CompileError { kind: ErrorKind::TupleIndexOutOfRange, pos: 18 }
    );
    assert_eq!(
        error("let t = ((1, 2), 3); t.0.0;"),
        CompileError { kind: ErrorKind::TupleIndexOutOfRange, pos: 24 }
    );
}

#[test]
fn an_array_is_allocated_stored_to_and_loaded_from() {
    assert_eq!(
        code("let mut arr: [i32;4]; let i2 = 2; let val = 77; arr[i2] = val; let got = arr[i2];"),
        vec![
            Instr::ArrayAlloc { dest: Reg(0), elem: Prim::I32, len: 4 },
            Instr::Const { dest: Reg(1), ty: Prim::I32, value: 2 },
            Instr::Const { dest: Reg(2), ty: Prim::I32, value: 77 },
            Instr::IndexAddr { dest: Reg(3), elem: Prim::I32, array: Reg(0), index: Reg(1) },
            Instr::Store { ty: Prim::I32, addr: Reg(3), value: Reg(2) },
            Instr::IndexLoad { dest: Reg(4), elem: Prim::I32, array: Reg(0), index: Reg(1) },
        ]
    );
    let out = compile(b"let mut arr: [i32; 4];").unwrap();
    assert_eq!(out.symbols[0].ty, Type::Array { len: 4 });
}

#[test]
fn of_an_indexing_the_index_comes_first_then_the_value() {
    assert_eq!(
        text("let mut a: [i32; 8]; a[1 + 2] = 3 * 4;"),
        "(rarray %r0 i32 8)\n\
         (const %r1 i32 1)\n\
         (const %r2 i32 2)\n\
         (rassign-op %r3 add %r1 %r2)\n\
         (const %r4 i32 3)\n\
         (const %r5 i32 4)\n\
         (rassign-op %r6 mul %r4 %r5)\n\
         (rindex-addr %r7 i32 %r0 %r3)\n\
         (store i32 %r7 %r6)\n"
    );
    assert_eq!(
        text("fn f() -> i32 { 0 } fn g() -> i32 { 1 } let t = (f(), g()); let x = t.1;"),
        "(fn f [ ])\n(const %r0 i32 0)\n(ret %r0)\n\
         (fn g [ ])\n(const %r1 i32 1)\n(ret %r1)\n\
         (call %r2 f [ ])\n(call %r3 g [ ])\n(tuple %r4 [ %r2 %r3 ])\n(tget %r5 i32 %r4 1)\n"
    );
}

#[test]
fn a_call_needs_as_many_arguments_as_parameters() {
    let e = error("fn f(a: i32) { } f(1, 2);");
    assert_eq!(e, CompileError { kind: ErrorKind::ArityMismatch, pos: 17 });
    assert_eq!(e.family(), ErrorFamily::TypeError);
    assert_eq!(e.message(), "arity does not match");
    assert_eq!(
        error("fn f(a: i32) { } f();"),
        CompileError { kind: ErrorKind::ArityMismatch, pos: 17 }
    );
    assert_eq!(
        error("fn f() { } let x = 1 + f(nowhere);"),
        CompileError { kind: ErrorKind::ArityMismatch, pos: 23 }
    );
}

#[test]
fn a_declared_type_has_to_be_that_of_the_value() {
    assert_eq!(
        error("let x: (i32, i32) = (1, 2, 3);"),
        CompileError { kind: ErrorKind::ArityMismatch, pos: 20 }
    );
    assert_eq!(
        error("let x: i32 = (1, 2);"),
        CompileError { kind: ErrorKind::ArityMismatch, pos: 13 }
    );
    assert_eq!(
        error("let x: (i32, i32) = 1;"),
        CompileError { kind: ErrorKind::ArityMismatch, pos: 20 }
    );
    assert_eq!(
        error("let mut t = (1, 2); t = (1, 2, 3);"),
        CompileError { kind: ErrorKind::ArityMismatch, pos: 24 }
    );
    assert_eq!(
        error("let mut t = (1, 2); t = 1 + 1;"),
        CompileError { kind: ErrorKind::ArityMismatch, pos: 26 }
    );
    assert!(compile(b"let x: (i32, i32) = (1, 2); let y: i32 = x.0;").is_ok());
    assert!(compile(b"let mut t = (1, 2); t = (3, 4);").is_ok());
}

#[test]
fn a_call_as_a_statement_has_no_destination() {
    assert_eq!(
        code("fn f(a: i32) { } f(1); let x = f(2);"),
        vec![
            Instr::Func { name: sp(3, 4), params: list(vec![Reg(0)]) },
            Instr::Ret { value: None },
            Instr::Const { dest: Reg(1), ty: Prim::I32, value: 1 },
            Instr::Call { dest: None, callee: sp(17, 18), args: list(vec![Reg(1)]) },
            Instr::Const { dest: Reg(2), ty: Prim::I32, value: 2 },
            Instr::Call { dest: Some(Reg(3)), callee: sp(31, 32), args: list(vec![Reg(2)]) },
        ]
    );
}

#[test]
fn a_function_returns_the_value_of_its_last_expression() {
    assert_eq!(
        text("fn f(a: i32, b: i32) -> i32 { a + b }"),
        "(fn f [ %r0 %r1 ])\n(rassign-op %r2 add %r0 %r1)\n(ret %r2)\n"
    );
    assert_eq!(text("fn f(a: i32) { a; }"), "(fn f [ %r0 ])\n(ret)\n");
    assert_eq!(text("fn f() { }"), "(fn f [ ])\n(ret)\n");
}

#[test]
fn prefix_operators_are_one_instruction() {
    assert_eq!(
        code("let x = -1; let y = !x;"),
        vec![
            Instr::Const { dest: Reg(0), ty: Prim::I32, value: 1 },
            Instr::UnaryOp { dest: Reg(1), op: UnaryOp::Neg, operand: Reg(0) },
            Instr::UnaryOp { dest: Reg(2), op: UnaryOp::Not, operand: Reg(1) },
        ]
    );
}

#[test]
fn the_first_error_is_the_one_returned() {
    // The error of the lexer comes before that of the parser, and that before the lowering's.
    assert_eq!(
        error("x = ; break; #"),
        CompileError { kind: ErrorKind::UnrecognizedCharacter, pos: 13 }
    );
    assert_eq!(error("break; x = ;").family(), ErrorFamily::ParseError);
    assert_eq!(
        error("break; x = 1;"),
        CompileError { kind: ErrorKind::NoEnclosingLoop, pos: 0 }
    );
    assert_eq!(
        error("let y = nowhere + (1, 2).7;"),
        CompileError { kind: ErrorKind::Undeclared { name: sp(8, 15) }, pos: 8 }
    );
}

#[test]
fn lowering_a_tree_made_by_hand() {
    let src = b"x";
    let unit = list(vec![
        Item::Stmt(Stmt::Let {
            name: sp(0, 1),
            mutable: true,
            ty: Some(Type::Int),
            init: Expr::Literal { value: -5, pos: 0 },
        }),
        Item::Stmt(Stmt::Tail { expr: Expr::Ident { name: sp(0, 1) } }),
    ]);
    let out = lower(src, &unit).unwrap();
    assert_eq!(out.code, vec![Instr::Const { dest: Reg(0), ty: Prim::I32, value: -5 }]);
    assert_eq!(
        String::from_utf8(rustlite::emit::emit(src, &out.code).unwrap()).unwrap(),
        "(const %r0 i32 -5)\n"
    );
    assert_eq!(lower(src, &List::Nil).unwrap().code, vec![]);
}

#[test]
fn every_register_is_defined_once_and_before_it_is_read() {
    let out = compile(
        b"fn f(a: i32, b: i32) -> i32 { let mut c = a; loop { c += b; if c > 9 { break; } } c }\n\
          let mut arr: [i32; 3]; arr[0] = f(1, 2); let t = (arr[0], 4); let u = t.0 + t.1;",
    )
    .unwrap();
    let mut defined = 0;
    // The first register of the function that the instruction stands in.
    let mut home = 0;
    for instr in &out.code {
        let mut reads = Vec::new();
        let mut writes = Vec::new();
        let mut all = |l: &List<Reg>, into: &mut Vec<Reg>| {
            let mut l = l;
            while let List::Cons(head, tail) = l {
                into.push(**head);
                l = tail;
            }
        };
        match instr {
            Instr::Const { dest, .. } | Instr::ArrayAlloc { dest, .. } => writes.push(*dest),
            Instr::IndexAddr { dest, array, index, .. } | Instr::IndexLoad { dest, array, index, .. } => {
                writes.push(*dest);
                reads.extend([*array, *index]);
            }
            Instr::Store { addr, value, .. } => reads.extend([*addr, *value]),
            Instr::TupleBuild { dest, elems } => {
                writes.push(*dest);
                all(elems, &mut reads);
            }
            Instr::TupleGet { dest, tuple, .. } => {
                writes.push(*dest);
                reads.push(*tuple);
            }
            Instr::AssignOp { dest, lhs, rhs, .. } => {
                writes.push(*dest);
                reads.extend([*lhs, *rhs]);
            }
            Instr::UnaryOp { dest, operand, .. } => {
                writes.push(*dest);
                reads.push(*operand);
            }
            Instr::Branch { cond, .. } => reads.push(*cond),
            Instr::Call { dest, args, .. } => {
                writes.extend(dest.iter().copied());
                all(args, &mut reads);
            }
            Instr::Func { params, .. } => all(params, &mut writes),
            Instr::Ret { value } => reads.extend(value.iter().copied()),
            Instr::Label { .. } | Instr::Jump { .. } => {}
        }
        for r in reads {
            assert!(r.0 < defined, "{:?}", instr);
            assert!(r.0 >= home, "{:?}", instr);
        }
        match instr {
            Instr::Func { .. } => home = defined,
            Instr::Ret { .. } => home = 0,
            _ => {}
        }
        for w in writes {
            assert_eq!(w.0, defined, "{:?}", instr);
            defined += 1;
        }
    }
    assert!(defined > 10);
}

#[test]
fn every_jump_goes_to_a_label_that_stands_once() {
    let out = compile(
        b"fn f(a: i32) { loop { if a { break; } else { continue; } loop { break; } } }\n\
          loop { if 1 { if 2 { break; } } else { loop { continue; } } break; }",
    )
    .unwrap();
    let labels: Vec<Label> = out
        .code
        .iter()
        .filter_map(|i| match i {
            Instr::Label { label } => Some(*label),
            _ => None,
        })
        .collect();
    for (i, l) in labels.iter().enumerate() {
        assert!(!labels[..i].contains(l));
    }
    let mut jumps = 0;
    for instr in &out.code {
        match instr {
            Instr::Jump { target } | Instr::Branch { target, .. } => {
                assert!(labels.contains(target), "{:?}", instr);
                jumps += 1;
            }
            _ => {}
        }
    }
    assert!(jumps > 10);
    assert!(labels.len() > 10);
}
