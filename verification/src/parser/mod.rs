//! From source text to a syntax tree.

use vstd::prelude::*;
use crate::error::{CompileError, CompileErrorView};
use crate::ir::ast::{Program, StatementView};

pub mod grammar;
pub mod lexer;
pub mod parser;

verus! {

/// The program that a source text is, or the first error in it: a lexical
/// error if the text is not a sequence of tokens, otherwise a syntax error
/// if the tokens are not a program.
pub open spec fn parse_spec(source: Seq<char>) -> Result<Seq<StatementView>, CompileErrorView> {
    match lexer::tokenize_spec(source) {
        Ok(tokens) => grammar::parse_program(tokens),
        Err(error) => Err(error),
    }
}

/// Parses a source text.
pub fn parse(source: &str) -> (result: Result<Program, CompileError>)
    ensures
        parser::parsed_view(result) == parse_spec(source@),
{
    let tokens = match lexer::tokenize(source) {
        Ok(tokens) => tokens,
        Err(error) => {
            return Err(error);
        },
    };
    parser::parse_tokens(tokens)
}

} // verus!
