//! The symbol table: the bindings in scope, innermost last.

use vstd::prelude::*;
use crate::span::Span;
use crate::ast::Type;
use crate::ir::{Label, Reg};

verus! {

/// A binding of a name of the source.
#[derive(Clone, Copy, Debug, PartialEq, Eq, Structural)]
pub struct Symbol {
    pub name: Span,
    pub ty: Type,
    pub mutable: bool,
    /// The number of scopes around the one that declares the symbol.
    pub depth: usize,
    /// The register that holds the current value.
    pub reg: Reg,
}

/// A declared function: its name and the number of its parameters.
#[derive(Clone, Copy, Debug, PartialEq, Eq, Structural)]
pub struct FuncSig {
    pub name: Span,
    pub arity: usize,
}

/// The labels of a loop: where it starts, and where it is left to.
#[derive(Clone, Copy, Debug, PartialEq, Eq, Structural)]
pub struct LoopLabels {
    pub start: Label,
    pub exit: Label,
}

/// The index of the innermost symbol that is spelled as `name` is, among the
/// symbols from `floor` on: those before it are out of sight.
pub open spec fn lookup(src: Seq<u8>, symbols: Seq<Symbol>, floor: nat, name: Span) -> Option<int>
    decreases symbols.len(),
{
    if symbols.len() <= floor {
        None
    } else if symbols.last().name.text(src) == name.text(src) {
        Some(symbols.len() - 1)
    } else {
        lookup(src, symbols.drop_last(), floor, name)
    }
}

/// The index of the last declared function that is spelled as `name` is.
pub open spec fn find_func(src: Seq<u8>, funcs: Seq<FuncSig>, name: Span) -> Option<int>
    decreases funcs.len(),
{
    if funcs.len() == 0 {
        None
    } else if funcs.last().name.text(src) == name.text(src) {
        Some(funcs.len() - 1)
    } else {
        find_func(src, funcs.drop_last(), name)
    }
}

/// What `lookup` finds is a symbol in sight with the name looked for, and no
/// later symbol has that name.
pub proof fn lemma_lookup(src: Seq<u8>, symbols: Seq<Symbol>, floor: nat, name: Span)
    ensures
        match lookup(src, symbols, floor, name) {
            Some(i) => {
                &&& floor <= i < symbols.len()
                &&& symbols[i].name.text(src) == name.text(src)
                &&& forall|j: int| i < j < symbols.len() ==> symbols[j].name.text(src) != name.text(src)
            },
            None => forall|j: int|
                floor <= j < symbols.len() ==> symbols[j].name.text(src) != name.text(src),
        },
    decreases symbols.len(),
{
    if symbols.len() > floor && symbols.last().name.text(src) != name.text(src) {
        let front = symbols.drop_last();
        lemma_lookup(src, front, floor, name);
        assert(forall|j: int| 0 <= j < front.len() ==> front[j] == symbols[j]);
    }
}

/// Finds the innermost symbol with the name, among those from `floor` on.
pub fn resolve(src: &[u8], symbols: &Vec<Symbol>, floor: usize, name: Span) -> (r: Option<usize>)
    ensures
        match r {
            Some(i) => lookup(src@, symbols@, floor as nat, name) == Some(i as int) && floor <= i
                < symbols@.len(),
            None => lookup(src@, symbols@, floor as nat, name) is None,
        },
{
    let mut i: usize = symbols.len();
    assert(symbols@.subrange(0, symbols@.len() as int) =~= symbols@);
    while i > floor
        invariant
            i <= symbols@.len(),
            lookup(src@, symbols@, floor as nat, name) == lookup(
                src@,
                symbols@.subrange(0, i as int),
                floor as nat,
                name,
            ),
        decreases i,
    {
        let ghost prefix = symbols@.subrange(0, i as int);
        assert(prefix.drop_last() =~= symbols@.subrange(0, i - 1));
        if symbols[i - 1].name.same_text(&name, src) {
            return Some(i - 1);
        }
        i = i - 1;
    }
    None
}

/// Finds the last declared function with the name.
pub fn resolve_func(src: &[u8], funcs: &Vec<FuncSig>, name: Span) -> (r: Option<usize>)
    ensures
        match r {
            Some(i) => find_func(src@, funcs@, name) == Some(i as int) && i < funcs@.len(),
            None => find_func(src@, funcs@, name) is None,
        },
{
    let mut i: usize = funcs.len();
    assert(funcs@.subrange(0, funcs@.len() as int) =~= funcs@);
    while i > 0
        invariant
            i <= funcs@.len(),
            find_func(src@, funcs@, name) == find_func(src@, funcs@.subrange(0, i as int), name),
        decreases i,
    {
        let ghost prefix = funcs@.subrange(0, i as int);
        assert(prefix.drop_last() =~= funcs@.subrange(0, i - 1));
        if funcs[i - 1].name.same_text(&name, src) {
            return Some(i - 1);
        }
        i = i - 1;
    }
    None
}

} // verus!
