//! The pipeline: source text to tokens, to the syntax tree, to the IR.

use vstd::prelude::*;
use crate::error::CompileError;
use crate::grammar::parse_unit;
use crate::ir::Instr;
use crate::lexer::{lex, tokenize};
use crate::lower::{lower, lowered_of, unit_code, Lowered};
use crate::parser::parse;
use crate::scope::Symbol;
use crate::emit::{render, write_lines};
use crate::form::{names_ok, reads_local, single_assignment};
use crate::wiring::jumps_resolve;

verus! {

/// The instructions of a source text, and the bindings of its top level; or
/// the first error: that of the lexer, else that of the parser, else that of
/// the lowering.
pub open spec fn compile_spec(src: Seq<u8>) -> Result<(Seq<Instr>, Seq<Symbol>), CompileError> {
    match lex(src) {
        Err(e) => Err(e),
        Ok(tokens) => match parse_unit(src, tokens) {
            Err(e) => Err(e),
            Ok(unit) => unit_code(src, unit),
        },
    }
}

/// Compiles a source text to its instructions. A text with an error gives
/// that error and nothing else. The instructions are in single assignment,
/// inside a function they read registers of the function only, their jumps
/// go to labels that stand among them, each of them once, and the names in
/// them are identifiers of the text.
pub fn compile(src: &[u8]) -> (r: Result<Lowered, CompileError>)
    ensures
        lowered_of(r) == compile_spec(src@),
        r matches Ok(out) ==> {
            &&& single_assignment(out.code@)
            &&& reads_local(out.code@)
            &&& jumps_resolve(out.code@)
            &&& names_ok(src@, out.code@)
        },
{
    match tokenize(src) {
        Err(e) => Err(e),
        Ok(tokens) => match parse(src, &tokens) {
            Err(e) => Err(e),
            Ok(unit) => lower(src, &unit),
        },
    }
}

/// The macro text of a source text: its instructions, one on each line.
pub open spec fn text_spec(src: Seq<u8>) -> Result<Seq<u8>, CompileError> {
    match compile_spec(src) {
        Ok((code, _)) => Ok(render(src, code)),
        Err(e) => Err(e),
    }
}

/// What `compile_text` returned, as bytes.
pub open spec fn text_of(r: Result<Vec<u8>, CompileError>) -> Result<Seq<u8>, CompileError> {
    match r {
        Ok(text) => Ok(text@),
        Err(e) => Err(e),
    }
}

/// Compiles a source text to the text of its instructions, one macro form
/// on each line. A text with an error gives that error and no text.
pub fn compile_text(src: &[u8]) -> (r: Result<Vec<u8>, CompileError>)
    ensures
        text_of(r) == text_spec(src@),
{
    match compile(src) {
        Err(e) => Err(e),
        Ok(out) => Ok(write_lines(src, &out.code)),
    }
}

} // verus!
