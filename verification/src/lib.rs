use vstd::prelude::*;

pub mod ast;
pub mod env;
pub mod gui;
pub mod help;
pub mod lexer;
pub mod parser_types;
pub mod parsers;
pub mod repl;
pub mod text;

verus! {

/// What can go wrong anywhere in the interpreter.
#[derive(Debug)]
pub enum CIError {
    ReplError(repl::CIReplError),
}

} // verus!
