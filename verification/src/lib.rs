//! Front end and evaluation core of the Cacau scripting language: a
//! grammar-driven parser that turns source text into an abstract syntax
//! tree, and a tree-walking evaluator that executes that tree against a
//! dynamically typed value model.
//!
//! `run_source` is the single evaluation entry point: it accepts source
//! text and yields the output text together with the error that stopped the
//! run, if one did. Parsing and evaluation are also exposed separately, in
//! `parser` and `runner`.
use vstd::prelude::*;

pub mod ast;
pub mod errors;
pub mod grammar;
pub mod laws;
pub mod mem;
pub mod parser;
pub mod runner;
pub mod semantics;
pub mod text;

verus! {

use crate::errors::CacauError;

/// Parses and runs source text from an empty environment. Returns all
/// output written by `print` and `println` up to the end of the run, and
/// the syntax or evaluation error that stopped it, if one did.
pub fn run_source(input: &str) -> (r: (String, Option<CacauError>))
    ensures
        ({
            let prog = grammar::p_program(input@);
            match r.1 {
                Option::None => prog is Some && semantics::run_items_s(
                    prog->Some_0,
                    semantics::initial_state(),
                ).1 is None && r.0@ == semantics::run_items_s(
                    prog->Some_0,
                    semantics::initial_state(),
                ).0.out,
                Option::Some(CacauError::Syntax(_)) => prog is None && r.0@ == Seq::<
                    char,
                >::empty(),
                Option::Some(CacauError::Eval(ref e)) => prog is Some && semantics::run_items_s(
                    prog->Some_0,
                    semantics::initial_state(),
                ).1 == Option::Some(e@) && r.0@ == semantics::run_items_s(
                    prog->Some_0,
                    semantics::initial_state(),
                ).0.out,
            }
        }),
{
    match parser::parse(input) {
        Ok(prog) => {
            let (out, err) = runner::Runner::run(&prog);
            match err {
                Some(e) => (out, Some(CacauError::Eval(e))),
                None => (out, None),
            }
        },
        Err(se) => (String::new(), Some(CacauError::Syntax(se))),
    }
}

} // verus!
