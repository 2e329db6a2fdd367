use rustlite::driver::compile;
use rustlite::ir::Reg;
use rustlite::lower::Lowered;
use rustlite::machine::{Machine, Outcome, Value};
use rustlite::samples::{__surface, none, some};

fn reg_of(src: &str, out: &Lowered, name: &str) -> Reg {
    let bytes = src.as_bytes();
    out.symbols
        .iter()
        .rev()
        .find(|s| &bytes[s.name.start..s.name.end] == name.as_bytes())
        .unwrap()
        .reg
}

fn run(src: &str) -> (Lowered, Machine, Outcome) {
    let out = compile(src.as_bytes()).unwrap();
    let mut machine = Machine::new(64);
    let outcome = machine.run(&out.code, 0, 10_000);
    (out, machine, outcome)
}

#[test]
fn let_literal_round_trips_through_const() {
    for literal in ["0", "1", "77", "2147483647", "007"] {
        let src = format!("let x = {};", literal);
        let (out, machine, outcome) = run(&src);
        assert_eq!(outcome, Outcome::Finished);
        let expected: i32 = literal.parse().unwrap();
        assert_eq!(machine.read(reg_of(&src, &out, "x")), Some(Value::Int(expected)));
    }
}

#[test]
fn shift_ops_sample_evaluates_from_the_left() {
    let src = "// shift_ops.rl.rs\n// Test precedence and lowering of << and >> relative to + and *.\n// Expression: let a = 1 + 2 << 3 >> 1; ensures left-associative chaining at current tier.\nlet a = 1 + 2 << 3 >> 1;\n";
    let (out, machine, outcome) = run(src);
    assert_eq!(outcome, Outcome::Finished);
    // ((1 + 2) << 3) >> 1: three, shifted to twenty-four, shifted to twelve.
    assert_eq!(machine.read(reg_of(src, &out, "a")), Some(Value::Int(((1 + 2) << 3) >> 1)));
    assert_eq!(machine.read(reg_of(src, &out, "a")), Some(Value::Int(12)));
}

#[test]
fn compound_shift_sample_returns_four() {
    let src = "fn __surface() -> i32 {\n    let mut x: i32 = 1;\n    // <<= expands via rassign-op shl\n    x <<= 3;\n    // >>= expands via rassign-op ashr (arithmetic right shift)\n    x >>= 1;\n    x\n}\n";
    let (_, _, outcome) = run(src);
    assert_eq!(outcome, Outcome::Returned(Some(Value::Int(4))));
    assert_eq!(__surface(), 4);
}

#[test]
fn tuple_access_yields_the_element() {
    let src = "fn main() {\n    let a = 10;\n    let b = 20;\n    let c = 30;\n    let t = (a, b, c);      // conceptual tuple\n    let mid = t.1;          // access element index 1\n    let _ = mid;            // suppress unused warning analogue\n    mid\n}\n";
    let (_, _, outcome) = run(src);
    assert_eq!(outcome, Outcome::Returned(Some(Value::Int(20))));
}

#[test]
fn array_store_then_load_round_trips() {
    let src = "let mut arr: [i32;4];\nlet i2 = 2;\nlet val = 77;\narr[i2] = val;\nlet got = arr[i2];\n";
    let (out, machine, outcome) = run(src);
    assert_eq!(outcome, Outcome::Finished);
    assert_eq!(machine.read(reg_of(src, &out, "got")), Some(Value::Int(77)));
}

#[test]
fn enum_stand_ins_keep_their_values() {
    assert_eq!(some(3), 3);
    assert_eq!(none(), 0);
    let (_, _, outcome) = run("fn none() -> i32 { 0 }");
    assert_eq!(outcome, Outcome::Returned(Some(Value::Int(0))));
}
