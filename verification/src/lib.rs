//! A small calculator library: arithmetic expressions arrive as text,
//! are scanned into tokens, parsed by recursive descent into a syntax
//! tree, and evaluated over exact rational numbers; the result leaves
//! as text again.

use vstd::prelude::*;

pub mod ast;
pub mod laws;
pub mod lexer;
pub mod number;
pub mod parser;
pub mod token;

pub use number::EvalError;
pub use number::Number;

verus! {

/// What the evaluation of an input yields: the rendered exact value
/// of its leading expression, or the first fault of scanning,
/// parsing, or evaluating it.  A function of the input characters
/// alone: evaluation is deterministic.
pub open spec fn spec_evaluate(s: Seq<char>) -> Result<Seq<char>, EvalError> {
    match lexer::spec_tokens_from(s, 0) {
        Err(e) => Err(e),
        Ok(toks) => match ast::spec_parse(toks) {
            Err(e) => Err(e),
            Ok(node) => match parser::spec_run(node) {
                Err(e) => Err(e),
                Ok(p) => Ok(number::spec_render(p.0, p.1)),
            },
        },
    }
}

/// Evaluates an arithmetic expression: text in, text out, as
/// `spec_evaluate` says of the input's characters.
pub fn expr(input: &str) -> (r: Result<String, EvalError>)
    ensures
        (match spec_evaluate(input@) {
            Ok(s) => (match r {
                Ok(out) => out@ == s,
                Err(_) => false,
            }),
            Err(e) => r == Err::<String, EvalError>(e),
        }),
{
    let l = lexer::Lexer::new(input);
    let tokens = match lexer::tokenize(l) {
        Ok(tk) => tk,
        Err(e) => {
            return Err(e);
        },
    };
    let ast = match ast::new(&tokens) {
        Ok(a) => a,
        Err(e) => {
            return Err(e);
        },
    };
    let mut v: Vec<Number> = Vec::new();
    match parser::gen(&ast, &mut v) {
        Ok(()) => (),
        Err(e) => {
            return Err(e);
        },
    };
    let n = v.pop().unwrap();
    Ok(n.render())
}

} // verus!
