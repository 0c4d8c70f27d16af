//! A lexical scanner and recursive-descent expression parser for a small
//! C-like scripting language: position-tracked tokenization with maximal
//! munch, nested block comments and error-tolerant scanning, and a
//! precedence-climbing expression parser producing an immutable tree.

pub mod error;
pub mod errors;
pub mod expr;
pub mod iter;
pub mod parser;
pub mod scanner;
pub mod token;

use vstd::prelude::*;

use crate::error::Error;
use crate::iter::{line_end, line_num, line_start};
use crate::parser::{sp_expression, ParseOutcome, Parser};
use crate::scanner::{
    cap_errors, filter_comments, models_of, scan_seq, without_comments, Scanner, MAX_SCAN_ERRORS,
};
use crate::token::Token;

verus! {

/// Scans `source`, drops the comment tokens, parses one expression, and
/// renders it in fully parenthesized prefix form; or reports the first
/// error with its position located in the source. The token sequence is the
/// capped scan of the source; the outcome is exactly what the parser's spec
/// prescribes on that sequence with comments removed; and a failure carries
/// the 1-based line and column of the offending position together with its
/// full source line.
pub fn run(source: &str) -> (r: Result<String, Error>)
    requires
        source@.len() < u32::MAX,
    ensures
        exists|toks: Seq<Token>|
            {
                &&& models_of(toks) == cap_errors(scan_seq(source@, 0), MAX_SCAN_ERRORS as int)
                &&& forall|k: int|
                    0 <= k < toks.len() ==> (#[trigger] toks[k]).from_source(source@)
                &&& match sp_expression(without_comments(toks), 0) {
                    ParseOutcome::Parsed(e, _) => match r {
                        Ok(text) => text@ == e.spec_text(),
                        Err(_) => false,
                    },
                    ParseOutcome::Failed(kf, pos) => match r {
                        Ok(_) => false,
                        Err(err) => {
                            let s = source@;
                            let p = if pos <= s.len() {
                                pos
                            } else {
                                s.len() as int
                            };
                            &&& (kf is Syntax ==> err is ParseError)
                            &&& (kf is UnterminatedString ==> err is UnterminatedString)
                            &&& (kf is UnterminatedComment ==> err is UnterminatedComment)
                            &&& err.spec_line_number() == line_num(s, p)
                            &&& err.spec_column_number() == p - line_start(s, p) + 1
                            &&& err.spec_source_line() == s.subrange(
                                line_start(s, p),
                                line_end(s, p),
                            )
                        },
                    },
                }
            },
{
    let scanner = Scanner::new(source);
    let tokens = scanner.tokens();
    let kept = filter_comments(tokens.as_slice());
    let mut parser = Parser::new(kept.as_slice());
    match parser.parse() {
        Ok(ast) => {
            let text = ast.to_text();
            proof {
                assert(models_of(tokens@) == cap_errors(
                    scan_seq(source@, 0),
                    MAX_SCAN_ERRORS as int,
                ));
            }
            Ok(text)
        },
        Err(failure) => {
            let e = failure.to_error(source);
            proof {
                assert(models_of(tokens@) == cap_errors(
                    scan_seq(source@, 0),
                    MAX_SCAN_ERRORS as int,
                ));
            }
            Err(e)
        },
    }
}

} // verus!
