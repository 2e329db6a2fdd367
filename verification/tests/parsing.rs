use rustlite::ast::{BinaryOp, Expr, FnDecl, Item, Param, Stmt, Type, UnaryOp};
use rustlite::error::{CompileError, ErrorFamily, ErrorKind, Expected};
use rustlite::lexer::tokenize;
use rustlite::parser::{decimal, expr, kind, literal, parse, span, stmt, type_at};
use rustlite::span::{List, Span};
use rustlite::token::{Keyword, Op, Punct, TokenKind};

fn unit(src: &str) -> Result<List<Item>, CompileError> {
    let tokens = tokenize(src.as_bytes()).unwrap();
    parse(src.as_bytes(), &tokens)
}

fn expr_of(src: &str) -> Expr {
    let tokens = tokenize(src.as_bytes()).unwrap();
    let (e, end) = expr(src.as_bytes(), &tokens, 0).unwrap();
    assert_eq!(end, tokens.len() - 1);
    e
}

fn stmt_of(src: &str) -> Stmt {
    let tokens = tokenize(src.as_bytes()).unwrap();
    let (s, end) = stmt(src.as_bytes(), &tokens, 0).unwrap();
    assert_eq!(end, tokens.len() - 1);
    s
}

fn unexpected(src: &str) -> (Expected, TokenKind, usize) {
    let e = unit(src).unwrap_err();
    assert_eq!(e.family(), ErrorFamily::ParseError);
    assert_eq!(e.message(), "unexpected token");
    match e.kind {
        ErrorKind::UnexpectedToken { expected, found } => (expected, found, e.pos),
        other => panic!("{:?}", other),
    }
}

fn list<T>(items: Vec<T>) -> List<T> {
    let mut l = List::Nil;
    for item in items.into_iter().rev() {
        l = List::Cons(Box::new(item), Box::new(l));
    }
    l
}

fn lit(value: i32, pos: usize) -> Expr {
    Expr::Literal { value, pos }
}

fn name(start: usize, end: usize) -> Expr {
    Expr::Ident { name: Span { start, end } }
}

fn bin(op: BinaryOp, lhs: Expr, rhs: Expr, pos: usize) -> Expr {
    Expr::Binary { op, lhs: Box::new(lhs), rhs: Box::new(rhs), pos }
}

fn un(op: UnaryOp, operand: Expr, pos: usize) -> Expr {
    Expr::Unary { op, operand: Box::new(operand), pos }
}

#[test]
fn shifts_and_sums_chain_from_the_left() {
    // 1 + 2 << 3 >> 1 is ((1 + 2) << 3) >> 1.
    assert_eq!(
        expr_of("1 + 2 << 3 >> 1"),
        bin(
            BinaryOp::Shr,
            bin(BinaryOp::Shl, bin(BinaryOp::Add, lit(1, 0), lit(2, 4), 2), lit(3, 9), 6),
            lit(1, 14),
            11
        )
    );
    // The two kinds of operator share a tier: 1 << 2 + 3 is (1 << 2) + 3.
    assert_eq!(
        expr_of("1 << 2 + 3"),
        bin(BinaryOp::Add, bin(BinaryOp::Shl, lit(1, 0), lit(2, 5), 2), lit(3, 9), 7)
    );
}

#[test]
fn products_bind_tighter_than_sums_and_shifts() {
    assert_eq!(
        expr_of("1 + 2 * 3"),
        bin(BinaryOp::Add, lit(1, 0), bin(BinaryOp::Mul, lit(2, 4), lit(3, 8), 6), 2)
    );
    assert_eq!(
        expr_of("1 << 2 % 3"),
        bin(BinaryOp::Shl, lit(1, 0), bin(BinaryOp::Rem, lit(2, 5), lit(3, 9), 7), 2)
    );
    assert_eq!(
        expr_of("8 / 4 / 2"),
        bin(BinaryOp::Div, bin(BinaryOp::Div, lit(8, 0), lit(4, 4), 2), lit(2, 8), 6)
    );
}

#[test]
fn comparisons_bind_looser_than_arithmetic() {
    assert_eq!(
        expr_of("1 + 2 < 3 - 4"),
        bin(
            BinaryOp::Lt,
            bin(BinaryOp::Add, lit(1, 0), lit(2, 4), 2),
            bin(BinaryOp::Sub, lit(3, 8), lit(4, 12), 10),
            6
        )
    );
    assert_eq!(
        expr_of("1 == 2 < 3"),
        bin(BinaryOp::Eq, lit(1, 0), bin(BinaryOp::Lt, lit(2, 5), lit(3, 9), 7), 2)
    );
    assert_eq!(
        expr_of("1 <= 2 != 3 >= 4"),
        bin(
            BinaryOp::Ne,
            bin(BinaryOp::Le, lit(1, 0), lit(2, 5), 2),
            bin(BinaryOp::Ge, lit(3, 10), lit(4, 15), 12),
            7
        )
    );
    assert_eq!(expr_of("1 > 2"), bin(BinaryOp::Gt, lit(1, 0), lit(2, 4), 2));
}

#[test]
fn logical_or_binds_loosest() {
    assert_eq!(
        expr_of("1 || 2 && 3 == 4"),
        bin(
            BinaryOp::Or,
            lit(1, 0),
            bin(BinaryOp::And, lit(2, 5), bin(BinaryOp::Eq, lit(3, 10), lit(4, 15), 12), 7),
            2
        )
    );
    assert_eq!(
        expr_of("1 || 2 || 3"),
        bin(BinaryOp::Or, bin(BinaryOp::Or, lit(1, 0), lit(2, 5), 2), lit(3, 10), 7)
    );
}

#[test]
fn prefix_operators_bind_tighter_than_infix_ones() {
    assert_eq!(
        expr_of("-1 * !2"),
        bin(BinaryOp::Mul, un(UnaryOp::Neg, lit(1, 1), 0), un(UnaryOp::Not, lit(2, 6), 5), 3)
    );
    assert_eq!(
        expr_of("-!-x"),
        un(UnaryOp::Neg, un(UnaryOp::Not, un(UnaryOp::Neg, name(3, 4), 2), 1), 0)
    );
    assert_eq!(expr_of("1 - -2"), bin(BinaryOp::Sub, lit(1, 0), un(UnaryOp::Neg, lit(2, 5), 4), 2));
}

#[test]
fn postfix_forms_bind_tightest() {
    assert_eq!(
        expr_of("-t.1"),
        un(UnaryOp::Neg, Expr::Field { base: Box::new(name(1, 2)), index: 1, pos: 2 }, 0)
    );
    assert_eq!(
        expr_of("a.0[1].2"),
        Expr::Field {
            base: Box::new(Expr::Index {
                base: Box::new(Expr::Field { base: Box::new(name(0, 1)), index: 0, pos: 1 }),
                index: Box::new(lit(1, 4)),
                pos: 3
            }),
            index: 2,
            pos: 6
        }
    );
    assert_eq!(
        expr_of("a[i + 1]"),
        Expr::Index {
            base: Box::new(name(0, 1)),
            index: Box::new(bin(BinaryOp::Add, name(2, 3), lit(1, 6), 4)),
            pos: 1
        }
    );
}

#[test]
fn parentheses_group_and_make_no_node() {
    assert_eq!(expr_of("(1)"), lit(1, 1));
    assert_eq!(expr_of("((x))"), name(2, 3));
    assert_eq!(
        expr_of("1 + (2 << 3)"),
        bin(BinaryOp::Add, lit(1, 0), bin(BinaryOp::Shl, lit(2, 5), lit(3, 10), 7), 2)
    );
    assert_eq!(
        expr_of("(1 + 2) * 3"),
        bin(BinaryOp::Mul, bin(BinaryOp::Add, lit(1, 1), lit(2, 5), 3), lit(3, 10), 8)
    );
}

#[test]
fn tuples_have_two_elements_or_more() {
    assert_eq!(
        expr_of("(1, 2)"),
        Expr::Tuple { elems: list(vec![lit(1, 1), lit(2, 4)]), pos: 0 }
    );
    assert_eq!(
        expr_of("(a, (1, 2), 3,)"),
        Expr::Tuple {
            elems: list(vec![
                name(1, 2),
                Expr::Tuple { elems: list(vec![lit(1, 5), lit(2, 8)]), pos: 4 },
                lit(3, 12)
            ]),
            pos: 0
        }
    );
    assert_eq!(
        unexpected("let x = (1,);"),
        (Expected::Expression, TokenKind::Punct(Punct::RParen), 11)
    );
    assert_eq!(
        unexpected("let x = ();"),
        (Expected::Expression, TokenKind::Punct(Punct::RParen), 9)
    );
}

#[test]
fn calls_take_any_number_of_arguments() {
    assert_eq!(expr_of("f()"), Expr::Call { callee: Span { start: 0, end: 1 }, args: List::Nil });
    assert_eq!(
        expr_of("foo(1, x)"),
        Expr::Call { callee: Span { start: 0, end: 3 }, args: list(vec![lit(1, 4), name(7, 8)]) }
    );
    assert_eq!(
        expr_of("f(g(1),)"),
        Expr::Call {
            callee: Span { start: 0, end: 1 },
            args: list(vec![Expr::Call {
                callee: Span { start: 2, end: 3 },
                args: list(vec![lit(1, 4)])
            }])
        }
    );
    assert_eq!(
        unexpected("f(1 2);"),
        (Expected::Token(TokenKind::Punct(Punct::RParen)), TokenKind::Int, 4)
    );
}

#[test]
fn expression_positions() {
    assert_eq!(expr_of("  42").position(), 2);
    assert_eq!(expr_of(" x").position(), 1);
    assert_eq!(expr_of("1 + 2").position(), 2);
    assert_eq!(expr_of("-1").position(), 0);
    assert_eq!(expr_of(" f(1)").position(), 1);
    assert_eq!(expr_of(" (1, 2)").position(), 1);
    assert_eq!(expr_of("t.0").position(), 1);
    assert_eq!(expr_of("a[0]").position(), 1);
}

#[test]
fn let_statements() {
    assert_eq!(
        stmt_of("let x = 1;"),
        Stmt::Let { name: Span { start: 4, end: 5 }, mutable: false, ty: None, init: lit(1, 8) }
    );
    assert_eq!(
        stmt_of("let mut x: i32 = 1;"),
        Stmt::Let {
            name: Span { start: 8, end: 9 },
            mutable: true,
            ty: Some(Type::Int),
            init: lit(1, 17)
        }
    );
    assert_eq!(
        stmt_of("let t: (i32, i32, i32) = u;"),
        Stmt::Let {
            name: Span { start: 4, end: 5 },
            mutable: false,
            ty: Some(Type::Tuple { arity: 3 }),
            init: name(25, 26)
        }
    );
    assert_eq!(
        stmt_of("let mut arr: [i32;4];"),
        Stmt::ArrayDecl { name: Span { start: 8, end: 11 }, mutable: true, len: 4 }
    );
    assert_eq!(
        stmt_of("let a: [i32; 0];"),
        Stmt::ArrayDecl { name: Span { start: 4, end: 5 }, mutable: false, len: 0 }
    );
}

#[test]
fn assignments() {
    assert_eq!(
        stmt_of("x = -3;"),
        Stmt::Assign { name: Span { start: 0, end: 1 }, value: un(UnaryOp::Neg, lit(3, 5), 4) }
    );
    assert_eq!(
        stmt_of("x += 1;"),
        Stmt::CompoundAssign { name: Span { start: 0, end: 1 }, op: BinaryOp::Add, value: lit(1, 5) }
    );
    assert_eq!(
        stmt_of("x -= 1;"),
        Stmt::CompoundAssign { name: Span { start: 0, end: 1 }, op: BinaryOp::Sub, value: lit(1, 5) }
    );
    assert_eq!(
        stmt_of("x <<= 3;"),
        Stmt::CompoundAssign { name: Span { start: 0, end: 1 }, op: BinaryOp::Shl, value: lit(3, 6) }
    );
    assert_eq!(
        stmt_of("x >>= 1;"),
        Stmt::CompoundAssign { name: Span { start: 0, end: 1 }, op: BinaryOp::Shr, value: lit(1, 6) }
    );
    assert_eq!(
        stmt_of("arr[i2] = val;"),
        Stmt::IndexStore {
            array: Span { start: 0, end: 3 },
            index: name(4, 6),
            value: name(10, 13),
            pos: 3
        }
    );
}

#[test]
fn only_a_name_or_an_element_can_be_assigned_to() {
    assert_eq!(unexpected("1 = 2;"), (Expected::Place, TokenKind::Op(Op::Assign), 2));
    assert_eq!(unexpected("x + y = 2;"), (Expected::Place, TokenKind::Op(Op::Assign), 6));
    assert_eq!(unexpected("t.0 = 2;"), (Expected::Place, TokenKind::Op(Op::Assign), 4));
    assert_eq!(unexpected("f()[0] = 2;"), (Expected::Place, TokenKind::Op(Op::Assign), 7));
    assert_eq!(unexpected("a[0] += 2;"), (Expected::Place, TokenKind::Op(Op::PlusAssign), 5));
    assert_eq!(unexpected("f() <<= 2;"), (Expected::Place, TokenKind::Op(Op::ShlAssign), 4));
}

#[test]
fn control_flow_statements() {
    assert_eq!(
        stmt_of("loop { break; continue; }"),
        Stmt::Loop { body: list(vec![Stmt::Break { pos: 7 }, Stmt::Continue { pos: 14 }]), pos: 0 }
    );
    assert_eq!(
        stmt_of("if x { y; }"),
        Stmt::If {
            cond: name(3, 4),
            then_body: list(vec![Stmt::Expr { expr: name(7, 8) }]),
            else_body: List::Nil,
            pos: 0
        }
    );
    assert_eq!(
        stmt_of("if x { } else { 1 }"),
        Stmt::If {
            cond: name(3, 4),
            then_body: List::Nil,
            else_body: list(vec![Stmt::Tail { expr: lit(1, 16) }]),
            pos: 0
        }
    );
    assert_eq!(
        stmt_of("{ { } x }"),
        Stmt::Block {
            body: list(vec![Stmt::Block { body: List::Nil }, Stmt::Tail { expr: name(6, 7) }])
        }
    );
}

#[test]
fn functions_stand_at_the_top_level() {
    let src = "fn tick(mut n: i32, t: (i32, i32)) -> i32 { n }";
    assert_eq!(
        unit(src),
        Ok(list(vec![Item::Fn(FnDecl {
            name: Span { start: 3, end: 7 },
            params: list(vec![
                Param { name: Span { start: 12, end: 13 }, mutable: true, ty: Type::Int },
                Param { name: Span { start: 20, end: 21 }, mutable: false, ty: Type::Tuple { arity: 2 } },
            ]),
            ret: Some(Type::Int),
            body: list(vec![Stmt::Tail { expr: name(44, 45) }]),
        })]))
    );
    assert_eq!(
        unit("fn f() { } let x = 1;"),
        Ok(list(vec![
            Item::Fn(FnDecl {
                name: Span { start: 3, end: 4 },
                params: List::Nil,
                ret: None,
                body: List::Nil
            }),
            Item::Stmt(Stmt::Let {
                name: Span { start: 15, end: 16 },
                mutable: false,
                ty: None,
                init: lit(1, 19)
            }),
        ]))
    );
    assert_eq!(
        unexpected("loop { fn f() { } }"),
        (Expected::Expression, TokenKind::Keyword(Keyword::Fn), 7)
    );
}

#[test]
fn an_empty_unit_has_no_items() {
    assert_eq!(unit(""), Ok(List::Nil));
    assert_eq!(unit("  // nothing\n"), Ok(List::Nil));
}

#[test]
fn parsing_stops_at_the_first_error() {
    assert_eq!(
        unexpected("let = 1; let = 2;"),
        (Expected::Token(TokenKind::Ident), TokenKind::Op(Op::Assign), 4)
    );
    assert_eq!(
        unexpected("let x 1;"),
        (Expected::Token(TokenKind::Op(Op::Assign)), TokenKind::Int, 6)
    );
    assert_eq!(
        unexpected("let x = 1"),
        (Expected::Token(TokenKind::Punct(Punct::Semi)), TokenKind::Eof, 9)
    );
    assert_eq!(
        unexpected("let x = ;"),
        (Expected::Expression, TokenKind::Punct(Punct::Semi), 8)
    );
    assert_eq!(
        unexpected("x + ;"),
        (Expected::Expression, TokenKind::Punct(Punct::Semi), 4)
    );
    assert_eq!(
        unexpected("a[1;"),
        (Expected::Token(TokenKind::Punct(Punct::RBracket)), TokenKind::Punct(Punct::Semi), 3)
    );
    assert_eq!(
        unexpected("(1 + 2;"),
        (Expected::Token(TokenKind::Punct(Punct::RParen)), TokenKind::Punct(Punct::Semi), 6)
    );
    assert_eq!(
        unexpected("t.x;"),
        (Expected::Token(TokenKind::Int), TokenKind::Ident, 2)
    );
    assert_eq!(
        unexpected("loop x"),
        (Expected::Token(TokenKind::Punct(Punct::LBrace)), TokenKind::Ident, 5)
    );
    assert_eq!(
        unexpected("loop { x;"),
        (Expected::Token(TokenKind::Punct(Punct::RBrace)), TokenKind::Eof, 9)
    );
    assert_eq!(
        unexpected("break"),
        (Expected::Token(TokenKind::Punct(Punct::Semi)), TokenKind::Eof, 5)
    );
    assert_eq!(
        unexpected("if x { } else x"),
        (Expected::Token(TokenKind::Punct(Punct::LBrace)), TokenKind::Ident, 14)
    );
    assert_eq!(
        unexpected("return 1;"),
        (Expected::Expression, TokenKind::Keyword(Keyword::Return), 0)
    );
    assert_eq!(unexpected("}"), (Expected::Expression, TokenKind::Punct(Punct::RBrace), 0));
    assert_eq!(
        unexpected("fn (a: i32) { }"),
        (Expected::Token(TokenKind::Ident), TokenKind::Punct(Punct::LParen), 3)
    );
    assert_eq!(
        unexpected("fn f { }"),
        (Expected::Token(TokenKind::Punct(Punct::LParen)), TokenKind::Punct(Punct::LBrace), 5)
    );
    assert_eq!(
        unexpected("fn f(a) { }"),
        (Expected::Token(TokenKind::Punct(Punct::Colon)), TokenKind::Punct(Punct::RParen), 6)
    );
    assert_eq!(
        unexpected("fn f(a: i32 b: i32) { }"),
        (Expected::Token(TokenKind::Punct(Punct::RParen)), TokenKind::Ident, 12)
    );
    assert_eq!(
        unexpected("x x"),
        (Expected::Token(TokenKind::Punct(Punct::Semi)), TokenKind::Ident, 2)
    );
}

#[test]
fn types() {
    let check = |src: &str| {
        let tokens = tokenize(src.as_bytes()).unwrap();
        type_at(src.as_bytes(), &tokens, 0)
    };
    assert_eq!(check("i32"), Ok((Type::Int, 1)));
    assert_eq!(check("[i32; 16]"), Ok((Type::Array { len: 16 }, 5)));
    assert_eq!(check("(i32, i32)"), Ok((Type::Tuple { arity: 2 }, 5)));
    assert_eq!(check("(i32,i32,i32,i32)"), Ok((Type::Tuple { arity: 4 }, 9)));
    assert_eq!(unexpected("let x: i64 = 1;"), (Expected::Type, TokenKind::Ident, 7));
    assert_eq!(unexpected("let x: = 1;"), (Expected::Type, TokenKind::Op(Op::Assign), 7));
    assert_eq!(unexpected("let x: [u8; 2];"), (Expected::Type, TokenKind::Ident, 8));
    assert_eq!(
        unexpected("let x: [i32, 2];"),
        (Expected::Token(TokenKind::Punct(Punct::Semi)), TokenKind::Punct(Punct::Comma), 11)
    );
    assert_eq!(
        unexpected("let x: [i32; n];"),
        (Expected::Token(TokenKind::Int), TokenKind::Ident, 13)
    );
    assert_eq!(
        unexpected("let x: [i32; 2;"),
        (Expected::Token(TokenKind::Punct(Punct::RBracket)), TokenKind::Punct(Punct::Semi), 14)
    );
    assert_eq!(
        unexpected("let x: (i32) = 1;"),
        (Expected::Token(TokenKind::Punct(Punct::Comma)), TokenKind::Punct(Punct::RParen), 11)
    );
    assert_eq!(
        unexpected("let x: (i32, ) = 1;"),
        (Expected::Type, TokenKind::Punct(Punct::RParen), 13)
    );
    assert_eq!(
        unexpected("let x: (i32; i32) = 1;"),
        (Expected::Token(TokenKind::Punct(Punct::RParen)), TokenKind::Punct(Punct::Semi), 11)
    );
    assert_eq!(
        unexpected("let a: [i32; 2] = 1;"),
        (Expected::Token(TokenKind::Punct(Punct::Semi)), TokenKind::Op(Op::Assign), 16)
    );
}

#[test]
fn integer_literals_fit_in_thirty_two_bits() {
    assert_eq!(expr_of("0"), lit(0, 0));
    assert_eq!(expr_of("007"), lit(7, 0));
    assert_eq!(expr_of("2147483647"), lit(2147483647, 0));
    assert_eq!(expr_of("00000000002147483647"), lit(2147483647, 0));
    assert_eq!(unexpected("2147483648;"), (Expected::Literal, TokenKind::Int, 0));
    assert_eq!(unexpected("x = 99999999999999999999999999;"), (Expected::Literal, TokenKind::Int, 4));
    assert_eq!(unexpected("t.4294967296;"), (Expected::Literal, TokenKind::Int, 2));
    assert_eq!(unexpected("let a: [i32; 2147483648];"), (Expected::Literal, TokenKind::Int, 13));
}

#[test]
fn decimal_reads_digits() {
    let src = b"12 0 2147483647 2147483648 4294967297";
    assert_eq!(decimal(src, Span { start: 0, end: 2 }), Some(12));
    assert_eq!(decimal(src, Span { start: 3, end: 4 }), Some(0));
    assert_eq!(decimal(src, Span { start: 5, end: 15 }), Some(2147483647));
    assert_eq!(decimal(src, Span { start: 16, end: 26 }), None);
    assert_eq!(decimal(src, Span { start: 27, end: 37 }), None);
    // An empty span, or one outside the text, spells zero.
    assert_eq!(decimal(src, Span { start: 2, end: 2 }), Some(0));
    assert_eq!(decimal(src, Span { start: 30, end: 99 }), Some(0));
}

#[test]
fn token_helpers_read_past_the_end_as_the_end_of_the_text() {
    let src = b"x 12";
    let tokens = tokenize(src).unwrap();
    assert_eq!(kind(&tokens, 0), TokenKind::Ident);
    assert_eq!(kind(&tokens, 1), TokenKind::Int);
    assert_eq!(kind(&tokens, 2), TokenKind::Eof);
    assert_eq!(kind(&tokens, 9), TokenKind::Eof);
    assert_eq!(span(&tokens, 1), Span { start: 2, end: 4 });
    assert_eq!(span(&tokens, 9), Span { start: 4, end: 4 });
    assert_eq!(span(&Vec::new(), 0), Span { start: 0, end: 0 });
    assert_eq!(literal(src, &tokens, 1), Ok(12));
    assert_eq!(
        literal(src, &tokens, 0),
        Err(CompileError {
            kind: ErrorKind::UnexpectedToken {
                expected: Expected::Token(TokenKind::Int),
                found: TokenKind::Ident
            },
            pos: 0
        })
    );
}

#[test]
fn a_tree_has_no_more_nodes_than_tokens() {
    // Parsing an empty token list, or from past its end, reads the end of the text.
    assert_eq!(parse(b"", &Vec::new()), Ok(List::Nil));
    let tokens = tokenize(b"x;").unwrap();
    assert_eq!(
        expr(b"x;", &tokens, 5),
        Err(CompileError {
            kind: ErrorKind::UnexpectedToken { expected: Expected::Expression, found: TokenKind::Eof },
            pos: 2
        })
    );
}

#[test]
fn lists_and_vectors() {
    let l = List::from_vec(vec![1, 2, 3]);
    assert_eq!(l, list(vec![1, 2, 3]));
    assert_eq!(l.length(), 3);
    assert_eq!(l.to_vec(), vec![1, 2, 3]);
    let empty: List<u8> = List::from_vec(Vec::new());
    assert_eq!(empty, List::Nil);
    assert_eq!(empty.length(), 0);
    assert_eq!(empty.to_vec(), Vec::<u8>::new());
    assert_eq!(List::from_vec(vec![Span { start: 1, end: 2 }]).to_vec(), vec![Span { start: 1, end: 2 }]);
}
