//! Front end and evaluator for a small expression language: a scanner that
//! turns source text into tokens, a recursive-descent parser that builds an
//! expression tree, an evaluator and a pretty-printer over that tree.
//!
//! The library is parametric in its number representation (see [`Numeric`]),
//! so that everything but the arithmetic itself is verified.
use vstd::prelude::*;

pub mod expr;
pub mod number;
pub mod parser;
pub mod scanner;
pub mod token;

pub use expr::{eval, evaluate, number_free, pretty, pretty_text, results_agree, Evaluation, Expr, Prettify, RuntimeError};
pub use number::Numeric;
pub use parser::{parse_tokens, ParseError, ParseErrorKind, Parser};
pub use scanner::{scan, scan_errors, ScanError, ScanErrorKind, Scanner};
pub use token::{token_views, value_text, LiteralValue, Token, TokenType, Value, ValueKind};

verus! {

/// Why a unit of source text gave no value.
pub enum LoxError<N> {
    Parse(ParseError<N>),
    Runtime(RuntimeError<N>),
}

/// What running the token sequence `toks` gives: the parse error, the
/// runtime error, or a text; the canonical text of the value where that
/// value does not rest on the number type's own answers.
pub open spec fn outcome<N: Numeric>(toks: Seq<Token<N>>, r: Result<String, LoxError<N>>) -> bool {
    match parse_tokens(toks) {
        Err(e) => r == Err::<String, LoxError<N>>(LoxError::Parse(e)),
        Ok(tree) => match eval(tree) {
            Err(e) => r == Err::<String, LoxError<N>>(LoxError::Runtime(e)),
            Ok(v) => r is Ok && ((number_free(tree) || number::deterministic::<N>()) ==> r->Ok_0@
                == value_text(v)),
        },
    }
}

/// Scans, parses and evaluates one unit of source text. Returns the
/// diagnostics of the scan, and the text of the value or why there is none.
/// The result is that of the tokens that scanning gives: the parse error,
/// the runtime error, or the text of the value (exact where the expression
/// holds no number, or the number type is deterministic).
pub fn run<N: Numeric>(input: &str) -> (r: (Vec<ScanError>, Result<String, LoxError<N>>))
    requires
        input@.len() < usize::MAX,
    ensures
        r.0@ == scan_errors::<N>(input@),
        exists|toks: Seq<Token<N>>|
            {
                &&& token_views(toks) == scan::<N>(input@)
                &&& scanner::numbers_denote(toks)
                &&& outcome(toks, r.1)
            },
{
    let mut scanner: Scanner<N> = Scanner::new(input.to_owned());
    let tokens = scanner.scan_tokens();
    let errors = scanner.errors().clone();
    let ghost toks = tokens@;
    proof {
        scanner::lemma_scan_ends_with_eof::<N>(input@);
        assert(Seq::<token::TokenView<N>>::empty() + scanner::tokens_from::<N>(input@, 0, 1)
            =~= scanner::tokens_from::<N>(input@, 0, 1));
        assert(Seq::<ScanError>::empty() + scanner::errors_from::<N>(input@, 0, 1)
            =~= scanner::errors_from::<N>(input@, 0, 1));
        assert(token_views(toks)[toks.len() - 1] == toks[toks.len() - 1]@);
    }
    assert(errors@ =~= scan_errors::<N>(input@));
    let mut parser = Parser::new(tokens);
    let tree = match parser.parse() {
        Ok(tree) => tree,
        Err(e) => return (errors, Err(LoxError::Parse(e))),
    };
    proof {
        if number_free(tree) {
            expr::lemma_number_free(tree);
        }
    }
    let evaluator = Evaluation::new(tree);
    match evaluator.interpret() {
        Ok(v) => (errors, Ok(v.to_text())),
        Err(e) => (errors, Err(LoxError::Runtime(e))),
    }
}

} // verus!
