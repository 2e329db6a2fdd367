//! A compiler front end for Rustlite, a small Rust-flavoured surface language,
//! which it lowers to a flat, symbolic macro IR.
//!
//! Source bytes become tokens (`lexer`), tokens a syntax tree (`parser`, after
//! the `grammar`), the tree a list of instructions (`lower`, after the
//! `lowering`), and the instructions text (`emit`); `driver` runs these one
//! after the other. Names are spans of the source text throughout, so that
//! tokens, trees and instructions are plain values.
//!
//! Each pass is held to a definition of what it computes. On top of that the
//! crate shows what holds of every program: the instructions are in single
//! assignment and read registers of their own function only (`form`), every
//! jump goes to a label that stands once (`wiring`), and the instructions of
//! an expression compute its value on the `machine` (`meaning`), with more
//! in `laws`.

pub mod samples;
pub mod span;
pub mod token;
pub mod error;
pub mod lexer;
pub mod ast;
pub mod grammar;
pub mod progress;
pub mod parser;
pub mod ir;
pub mod scope;
pub mod lowering;
pub mod form;
pub mod wiring;
pub mod lower;
pub mod emit;
pub mod driver;
pub mod machine;
pub mod laws;
pub mod meaning;
pub mod straight;
