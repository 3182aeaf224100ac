//! The three stages in a row: from source text to results.

use vstd::prelude::*;
use crate::env::SpecEnv;
use crate::error::IntyError;
use crate::eval::{view_program_result, Evaluator};
use crate::grammar::program;
use crate::lexer::{lex, Lexer};
use crate::parser::Parser;
use crate::semantics::{eval_program, ProgramOutcome};
use crate::value::Value;

verus! {

/// What a source text does to an environment: the effect of the program that
/// its tokens spell. A text that is no program fails with the error of the
/// lexer or of the parser and leaves the environment as it is.
pub open spec fn run(env: SpecEnv, source: Seq<char>) -> ProgramOutcome {
    match lex(source) {
        Err(error) => ProgramOutcome { env, results: Err(error) },
        Ok(tokens) => match program(tokens) {
            Err(error) => ProgramOutcome { env, results: Err(error) },
            Ok(stmts) => eval_program(env, stmts),
        },
    }
}

/// Tokenizes, parses and evaluates `input` in the environment of `eval`.
pub fn process_string(eval: &mut Evaluator, input: String) -> (outcome: Result<
    Vec<Option<Value>>,
    IntyError,
>)
    ensures
        final(eval)@ == run(old(eval)@, input@).env,
        view_program_result(outcome) == run(old(eval)@, input@).results,
{
    let tokens = match Lexer::new(input).tokenize() {
        Ok(tokens) => tokens,
        Err(error) => {
            return Err(error);
        },
    };
    let mut parser = Parser::new(tokens.as_slice());
    let stmts = match parser.parse() {
        Ok(stmts) => stmts,
        Err(error) => {
            return Err(error);
        },
    };
    eval.eval(stmts)
}

} // verus!
