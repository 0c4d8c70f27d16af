//! The recursive-descent expression parser: one function per grammar rule,
//! a strict precedence ladder, left-associative binary levels, and no
//! backtracking.
//!
//! The grammar, lowest to highest binding:
//!
//! ```text
//! expression -> equality
//! equality   -> comparison ( ( "!=" | "==" ) comparison )*
//! comparison -> term ( ( ">" | ">=" | "<" | "<=" ) term )*
//! term       -> factor ( ( "-" | "+" ) factor )*
//! factor     -> unary ( ( "/" | "*" ) unary )*
//! unary      -> ( "!" | "-" ) unary | primary
//! primary    -> NUMBER | STRING | "true" | "false" | "nil"
//!             | "(" expression ")"
//! ```
//!
//! Each rule is modelled by a spec function over the token sequence; the
//! executable parser is proved to return exactly what the spec functions
//! prescribe, consuming exactly the prefix they prescribe.

use vstd::prelude::*;

use crate::error::Error;
use crate::expr::Expr;
use crate::iter::{line_end, line_num, line_start, locate};
use crate::token::{Keyword, Token, TokenKind};

verus! {

/// The diagnostic kind a failed parse raises.
#[derive(Clone, Copy, Debug, PartialEq, Eq, Structural)]
pub enum ParseFailKind {
    /// A token that cannot begin an expression, a missing closing
    /// parenthesis, or an exhausted token stream.
    Syntax,
    /// An unterminated-string token where an expression was expected.
    UnterminatedString,
    /// An unterminated-block-comment token where an expression was expected.
    UnterminatedComment,
}

/// A parse failure: the diagnostic kind and the character position, in the
/// source the tokens were scanned from, of the offending token's start — or
/// the position just past the last token when the input ended too early.
/// The parser works on tokens alone; [`ParseFailure::to_error`] turns this
/// into a user-facing diagnostic against the source text.
#[derive(Clone, Copy, Debug, PartialEq, Eq, Structural)]
pub struct ParseFailure {
    pub kind: ParseFailKind,
    pub position: usize,
}

/// The spec-level outcome of one parsing rule: the tree built and the
/// position just past it, or the diagnostic kind raised together with the
/// source position of the offending token.
pub enum ParseOutcome {
    Parsed(Expr, int),
    Failed(ParseFailKind, int),
}

/// Where a failure points when the token stream is exhausted: just past the
/// last token, or position zero when there are no tokens at all.
pub open spec fn input_end(ts: Seq<Token>) -> int {
    if ts.len() == 0 {
        0
    } else {
        ts.last().spec_end()
    }
}

/// True of the token kinds that may stand alone as a literal expression.
pub open spec fn is_literal_kind(k: TokenKind) -> bool {
    ||| k == TokenKind::Keyword(Keyword::True)
    ||| k == TokenKind::Keyword(Keyword::False)
    ||| k == TokenKind::Keyword(Keyword::Nil)
    ||| k is Number
    ||| k is String
}

pub open spec fn is_equality_op(k: TokenKind) -> bool {
    k is BangEqual || k is EqualEqual
}

pub open spec fn is_comparison_op(k: TokenKind) -> bool {
    k is Greater || k is GreaterEqual || k is Less || k is LessEqual
}

pub open spec fn is_term_op(k: TokenKind) -> bool {
    k is Minus || k is Plus
}

pub open spec fn is_factor_op(k: TokenKind) -> bool {
    k is Slash || k is Star
}

pub open spec fn is_unary_op(k: TokenKind) -> bool {
    k is Bang || k is Minus
}

/// expression -> equality ;
pub open spec fn sp_expression(ts: Seq<Token>, i: int) -> ParseOutcome
    decreases ts.len() - i, 10int,
{
    sp_equality(ts, i)
}

/// equality -> comparison ( ( "!=" | "==" ) comparison )* ;
pub open spec fn sp_equality(ts: Seq<Token>, i: int) -> ParseOutcome
    decreases ts.len() - i, 9int,
{
    match sp_comparison(ts, i) {
        ParseOutcome::Parsed(e, j) => if i < j <= ts.len() {
            sp_equality_rest(ts, e, j)
        } else {
            // Unreachable: a successful sub-parse always advances (the
            // implementation proves it); the guard keeps the recursion
            // well-founded.
            ParseOutcome::Parsed(e, j)
        },
        f => f,
    }
}

/// Left-associative folding of `( "!=" | "==" ) comparison` onto `acc`.
pub open spec fn sp_equality_rest(ts: Seq<Token>, acc: Expr, i: int) -> ParseOutcome
    decreases ts.len() - i, 8int,
{
    if 0 <= i && i < ts.len() && is_equality_op(ts[i].spec_kind()) {
        match sp_comparison(ts, i + 1) {
            ParseOutcome::Parsed(e, j) => {
                let folded = Expr::Binary {
                    left: Box::new(acc),
                    operator: ts[i],
                    right: Box::new(e),
                };
                if i + 1 < j <= ts.len() {
                    sp_equality_rest(ts, folded, j)
                } else {
                    // Unreachable, as in `sp_equality`.
                    ParseOutcome::Parsed(folded, j)
                }
            },
            f => f,
        }
    } else {
        ParseOutcome::Parsed(acc, i)
    }
}

/// comparison -> term ( ( ">" | ">=" | "<" | "<=" ) term )* ;
pub open spec fn sp_comparison(ts: Seq<Token>, i: int) -> ParseOutcome
    decreases ts.len() - i, 7int,
{
    match sp_term(ts, i) {
        ParseOutcome::Parsed(e, j) => if i < j <= ts.len() {
            sp_comparison_rest(ts, e, j)
        } else {
            // Unreachable, as in `sp_equality`.
            ParseOutcome::Parsed(e, j)
        },
        f => f,
    }
}

/// Left-associative folding of `( ">" | ">=" | "<" | "<=" ) term` onto
/// `acc`.
pub open spec fn sp_comparison_rest(ts: Seq<Token>, acc: Expr, i: int) -> ParseOutcome
    decreases ts.len() - i, 6int,
{
    if 0 <= i && i < ts.len() && is_comparison_op(ts[i].spec_kind()) {
        match sp_term(ts, i + 1) {
            ParseOutcome::Parsed(e, j) => {
                let folded = Expr::Binary {
                    left: Box::new(acc),
                    operator: ts[i],
                    right: Box::new(e),
                };
                if i + 1 < j <= ts.len() {
                    sp_comparison_rest(ts, folded, j)
                } else {
                    // Unreachable, as in `sp_equality`.
                    ParseOutcome::Parsed(folded, j)
                }
            },
            f => f,
        }
    } else {
        ParseOutcome::Parsed(acc, i)
    }
}

/// term -> factor ( ( "-" | "+" ) factor )* ;
pub open spec fn sp_term(ts: Seq<Token>, i: int) -> ParseOutcome
    decreases ts.len() - i, 5int,
{
    match sp_factor(ts, i) {
        ParseOutcome::Parsed(e, j) => if i < j <= ts.len() {
            sp_term_rest(ts, e, j)
        } else {
            // Unreachable, as in `sp_equality`.
            ParseOutcome::Parsed(e, j)
        },
        f => f,
    }
}

/// Left-associative folding of `( "-" | "+" ) factor` onto `acc`.
pub open spec fn sp_term_rest(ts: Seq<Token>, acc: Expr, i: int) -> ParseOutcome
    decreases ts.len() - i, 4int,
{
    if 0 <= i && i < ts.len() && is_term_op(ts[i].spec_kind()) {
        match sp_factor(ts, i + 1) {
            ParseOutcome::Parsed(e, j) => {
                let folded = Expr::Binary {
                    left: Box::new(acc),
                    operator: ts[i],
                    right: Box::new(e),
                };
                if i + 1 < j <= ts.len() {
                    sp_term_rest(ts, folded, j)
                } else {
                    // Unreachable, as in `sp_equality`.
                    ParseOutcome::Parsed(folded, j)
                }
            },
            f => f,
        }
    } else {
        ParseOutcome::Parsed(acc, i)
    }
}

/// factor -> unary ( ( "/" | "*" ) unary )* ;
pub open spec fn sp_factor(ts: Seq<Token>, i: int) -> ParseOutcome
    decreases ts.len() - i, 3int,
{
    match sp_unary(ts, i) {
        ParseOutcome::Parsed(e, j) => if i < j <= ts.len() {
            sp_factor_rest(ts, e, j)
        } else {
            // Unreachable, as in `sp_equality`.
            ParseOutcome::Parsed(e, j)
        },
        f => f,
    }
}

/// Left-associative folding of `( "/" | "*" ) unary` onto `acc`.
pub open spec fn sp_factor_rest(ts: Seq<Token>, acc: Expr, i: int) -> ParseOutcome
    decreases ts.len() - i, 2int,
{
    if 0 <= i && i < ts.len() && is_factor_op(ts[i].spec_kind()) {
        match sp_unary(ts, i + 1) {
            ParseOutcome::Parsed(e, j) => {
                let folded = Expr::Binary {
                    left: Box::new(acc),
                    operator: ts[i],
                    right: Box::new(e),
                };
                if i + 1 < j <= ts.len() {
                    sp_factor_rest(ts, folded, j)
                } else {
                    // Unreachable, as in `sp_equality`.
                    ParseOutcome::Parsed(folded, j)
                }
            },
            f => f,
        }
    } else {
        ParseOutcome::Parsed(acc, i)
    }
}

/// unary -> ( "!" | "-" ) unary | primary ;
pub open spec fn sp_unary(ts: Seq<Token>, i: int) -> ParseOutcome
    decreases ts.len() - i, 1int,
{
    if 0 <= i && i < ts.len() && is_unary_op(ts[i].spec_kind()) {
        match sp_unary(ts, i + 1) {
            ParseOutcome::Parsed(e, j) => ParseOutcome::Parsed(
                Expr::Unary { operator: ts[i], right: Box::new(e) },
                j,
            ),
            f => f,
        }
    } else {
        sp_primary(ts, i)
    }
}

/// primary -> NUMBER | STRING | "true" | "false" | "nil"
///          | "(" expression ")" ;
///
/// Comment tokens and lexical-error tokens where an expression is expected
/// are never accepted: errors surface as parse failures, comments are
/// filtered out of the stream before parsing.
pub open spec fn sp_primary(ts: Seq<Token>, i: int) -> ParseOutcome
    decreases ts.len() - i, 0int,
{
    if i < 0 || i >= ts.len() {
        ParseOutcome::Failed(ParseFailKind::Syntax, input_end(ts))
    } else {
        let k = ts[i].spec_kind();
        if is_literal_kind(k) {
            ParseOutcome::Parsed(Expr::Literal { value: ts[i] }, i + 1)
        } else if k is LeftParen {
            match sp_expression(ts, i + 1) {
                ParseOutcome::Parsed(e, j) => {
                    if 0 <= j && j < ts.len() && ts[j].spec_kind() is RightParen {
                        ParseOutcome::Parsed(Expr::Grouping { expression: Box::new(e) }, j + 1)
                    } else if 0 <= j && j < ts.len() {
                        ParseOutcome::Failed(ParseFailKind::Syntax, ts[j].spec_start())
                    } else {
                        ParseOutcome::Failed(ParseFailKind::Syntax, input_end(ts))
                    }
                },
                f => f,
            }
        } else if k is UnterminatedString {
            ParseOutcome::Failed(ParseFailKind::UnterminatedString, ts[i].spec_start())
        } else if k is UnterminatedBlockComment {
            ParseOutcome::Failed(ParseFailKind::UnterminatedComment, ts[i].spec_start())
        } else {
            ParseOutcome::Failed(ParseFailKind::Syntax, ts[i].spec_start())
        }
    }
}

/// What every parsing rule guarantees about its result `r` and final
/// position `p1`, given the spec outcome at entry position `p0`: a parsed
/// tree is returned exactly and the cursor stands just past it — strictly
/// ahead of `p0` — and a failure names exactly the prescribed diagnostic
/// kind and offending source position.
pub open spec fn rule_post(
    ts: Seq<Token>,
    p0: int,
    outcome: ParseOutcome,
    r: Result<Box<Expr>, ParseFailure>,
    p1: int,
) -> bool {
    match outcome {
        ParseOutcome::Parsed(e, j) => match r {
            Ok(b) => *b == e && p1 == j && p0 < j <= ts.len(),
            Err(_) => false,
        },
        ParseOutcome::Failed(k, pos) => match r {
            Ok(_) => false,
            Err(err) => err.kind == k && err.position == pos,
        },
    }
}

impl ParseFailure {
    /// The user-facing diagnostic for this failure, located against the
    /// source the tokens were scanned from: the failure's position mapped to
    /// its 1-based line and column and the full offending source line. A
    /// position past the end of the source (never produced for tokens of
    /// that source) is clamped to the end.
    pub fn to_error(&self, source: &str) -> (e: Error)
        requires
            source@.len() < usize::MAX,
        ensures
            ({
                let s = source@;
                let p = if self.position <= s.len() {
                    self.position as int
                } else {
                    s.len() as int
                };
                &&& (self.kind is Syntax ==> e is ParseError)
                &&& (self.kind is UnterminatedString ==> e is UnterminatedString)
                &&& (self.kind is UnterminatedComment ==> e is UnterminatedComment)
                &&& e.spec_line_number() == line_num(s, p)
                &&& e.spec_column_number() == p - line_start(s, p) + 1
                &&& e.spec_source_line() == s.subrange(line_start(s, p), line_end(s, p))
            }),
    {
        let n = source.unicode_len();
        let p = if self.position <= n {
            self.position
        } else {
            n
        };
        let (line_number, column_number, source_line) = locate(source, p);
        match self.kind {
            ParseFailKind::Syntax => Error::ParseError { source_line, line_number, column_number },
            ParseFailKind::UnterminatedString => Error::UnterminatedString {
                source_line,
                line_number,
                column_number,
            },
            ParseFailKind::UnterminatedComment => Error::UnterminatedComment {
                source_line,
                line_number,
                column_number,
            },
        }
    }
}

/// The recursive descent parser: consumes a token slice through a cursor
/// and produces one immutable expression tree, or fails with the first
/// syntactic error — no partial tree is ever returned.
pub struct Parser<'t> {
    tokens: &'t [Token],
    pos: usize,
}

impl<'t> Parser<'t> {
    pub closed spec fn toks(&self) -> Seq<Token> {
        self.tokens@
    }

    pub closed spec fn spec_pos(&self) -> int {
        self.pos as int
    }

    pub open spec fn wf(&self) -> bool {
        0 <= self.spec_pos() <= self.toks().len()
    }

    pub fn new(tokens: &'t [Token]) -> (p: Self)
        ensures
            p.wf(),
            p.toks() == tokens@,
            p.spec_pos() == 0,
    {
        Parser { tokens, pos: 0 }
    }

    /// Position just past the last token, or zero when there are none: where
    /// a failure points when the input ends too early.
    fn past_end(&self) -> (r: usize)
        ensures
            r as int == input_end(self.toks()),
    {
        if self.tokens.len() == 0 {
            0
        } else {
            self.tokens[self.tokens.len() - 1].span().end as usize
        }
    }

    /// Consumes and returns the current token.
    fn take(&mut self) -> (t: Token)
        requires
            old(self).wf(),
            old(self).spec_pos() < old(self).toks().len(),
        ensures
            final(self).wf(),
            final(self).toks() == old(self).toks(),
            final(self).spec_pos() == old(self).spec_pos() + 1,
            t == old(self).toks()[old(self).spec_pos()],
    {
        let t = self.tokens[self.pos].clone();
        self.pos = self.pos + 1;
        t
    }

    /// Parses one expression from the front of the token stream. Trailing
    /// unconsumed tokens after a successful parse are not an error.
    pub fn parse(&mut self) -> (r: Result<Box<Expr>, ParseFailure>)
        requires
            old(self).wf(),
        ensures
            final(self).wf(),
            final(self).toks() == old(self).toks(),
            rule_post(
                old(self).toks(),
                old(self).spec_pos(),
                sp_expression(old(self).toks(), old(self).spec_pos()),
                r,
                final(self).spec_pos(),
            ),
    {
        self.expression()
    }

    /// expression -> equality ;
    fn expression(&mut self) -> (r: Result<Box<Expr>, ParseFailure>)
        requires
            old(self).wf(),
        ensures
            final(self).wf(),
            final(self).toks() == old(self).toks(),
            rule_post(
                old(self).toks(),
                old(self).spec_pos(),
                sp_expression(old(self).toks(), old(self).spec_pos()),
                r,
                final(self).spec_pos(),
            ),
        decreases old(self).toks().len() - old(self).spec_pos(), 10int,
    {
        self.equality()
    }

    /// equality -> comparison ( ( "!=" | "==" ) comparison )* ;
    fn equality(&mut self) -> (r: Result<Box<Expr>, ParseFailure>)
        requires
            old(self).wf(),
        ensures
            final(self).wf(),
            final(self).toks() == old(self).toks(),
            rule_post(
                old(self).toks(),
                old(self).spec_pos(),
                sp_equality(old(self).toks(), old(self).spec_pos()),
                r,
                final(self).spec_pos(),
            ),
        decreases old(self).toks().len() - old(self).spec_pos(), 9int,
    {
        let ghost ts = self.toks();
        let ghost p0 = self.spec_pos();
        let mut expr = match self.comparison() {
            Ok(e) => e,
            Err(err) => {
                return Err(err);
            },
        };
        loop
            invariant
                self.wf(),
                ts == old(self).toks(),
                p0 == old(self).spec_pos(),
                self.toks() == ts,
                p0 < self.spec_pos() <= ts.len(),
                sp_equality(ts, p0) == sp_equality_rest(ts, *expr, self.spec_pos()),
            ensures
                self.wf(),
                self.toks() == ts,
                p0 < self.spec_pos() <= ts.len(),
                sp_equality(ts, p0) == ParseOutcome::Parsed(*expr, self.spec_pos()),
            decreases ts.len() - self.spec_pos(),
        {
            let is_op = if self.pos < self.tokens.len() {
                matches!(
                    self.tokens[self.pos].kind(),
                    TokenKind::BangEqual | TokenKind::EqualEqual
                )
            } else {
                false
            };
            if !is_op {
                break;
            }
            let operator = self.take();
            match self.comparison() {
                Ok(right) => {
                    expr = Box::new(Expr::Binary { left: expr, operator, right });
                },
                Err(err) => {
                    return Err(err);
                },
            }
        }
        Ok(expr)
    }

    /// comparison -> term ( ( ">" | ">=" | "<" | "<=" ) term )* ;
    fn comparison(&mut self) -> (r: Result<Box<Expr>, ParseFailure>)
        requires
            old(self).wf(),
        ensures
            final(self).wf(),
            final(self).toks() == old(self).toks(),
            rule_post(
                old(self).toks(),
                old(self).spec_pos(),
                sp_comparison(old(self).toks(), old(self).spec_pos()),
                r,
                final(self).spec_pos(),
            ),
        decreases old(self).toks().len() - old(self).spec_pos(), 7int,
    {
        let ghost ts = self.toks();
        let ghost p0 = self.spec_pos();
        let mut expr = match self.term() {
            Ok(e) => e,
            Err(err) => {
                return Err(err);
            },
        };
        loop
            invariant
                self.wf(),
                ts == old(self).toks(),
                p0 == old(self).spec_pos(),
                self.toks() == ts,
                p0 < self.spec_pos() <= ts.len(),
                sp_comparison(ts, p0) == sp_comparison_rest(ts, *expr, self.spec_pos()),
            ensures
                self.wf(),
                self.toks() == ts,
                p0 < self.spec_pos() <= ts.len(),
                sp_comparison(ts, p0) == ParseOutcome::Parsed(*expr, self.spec_pos()),
            decreases ts.len() - self.spec_pos(),
        {
            let is_op = if self.pos < self.tokens.len() {
                matches!(
                    self.tokens[self.pos].kind(),
                    TokenKind::Greater
                        | TokenKind::GreaterEqual
                        | TokenKind::Less
                        | TokenKind::LessEqual
                )
            } else {
                false
            };
            if !is_op {
                break;
            }
            let operator = self.take();
            match self.term() {
                Ok(right) => {
                    expr = Box::new(Expr::Binary { left: expr, operator, right });
                },
                Err(err) => {
                    return Err(err);
                },
            }
        }
        Ok(expr)
    }

    /// term -> factor ( ( "-" | "+" ) factor )* ;
    fn term(&mut self) -> (r: Result<Box<Expr>, ParseFailure>)
        requires
            old(self).wf(),
        ensures
            final(self).wf(),
            final(self).toks() == old(self).toks(),
            rule_post(
                old(self).toks(),
                old(self).spec_pos(),
                sp_term(old(self).toks(), old(self).spec_pos()),
                r,
                final(self).spec_pos(),
            ),
        decreases old(self).toks().len() - old(self).spec_pos(), 5int,
    {
        let ghost ts = self.toks();
        let ghost p0 = self.spec_pos();
        let mut expr = match self.factor() {
            Ok(e) => e,
            Err(err) => {
                return Err(err);
            },
        };
        loop
            invariant
                self.wf(),
                ts == old(self).toks(),
                p0 == old(self).spec_pos(),
                self.toks() == ts,
                p0 < self.spec_pos() <= ts.len(),
                sp_term(ts, p0) == sp_term_rest(ts, *expr, self.spec_pos()),
            ensures
                self.wf(),
                self.toks() == ts,
                p0 < self.spec_pos() <= ts.len(),
                sp_term(ts, p0) == ParseOutcome::Parsed(*expr, self.spec_pos()),
            decreases ts.len() - self.spec_pos(),
        {
            let is_op = if self.pos < self.tokens.len() {
                matches!(self.tokens[self.pos].kind(), TokenKind::Minus | TokenKind::Plus)
            } else {
                false
            };
            if !is_op {
                break;
            }
            let operator = self.take();
            match self.factor() {
                Ok(right) => {
                    expr = Box::new(Expr::Binary { left: expr, operator, right });
                },
                Err(err) => {
                    return Err(err);
                },
            }
        }
        Ok(expr)
    }

    /// factor -> unary ( ( "/" | "*" ) unary )* ;
    fn factor(&mut self) -> (r: Result<Box<Expr>, ParseFailure>)
        requires
            old(self).wf(),
        ensures
            final(self).wf(),
            final(self).toks() == old(self).toks(),
            rule_post(
                old(self).toks(),
                old(self).spec_pos(),
                sp_factor(old(self).toks(), old(self).spec_pos()),
                r,
                final(self).spec_pos(),
            ),
        decreases old(self).toks().len() - old(self).spec_pos(), 3int,
    {
        let ghost ts = self.toks();
        let ghost p0 = self.spec_pos();
        let mut expr = match self.unary() {
            Ok(e) => e,
            Err(err) => {
                return Err(err);
            },
        };
        loop
            invariant
                self.wf(),
                ts == old(self).toks(),
                p0 == old(self).spec_pos(),
                self.toks() == ts,
                p0 < self.spec_pos() <= ts.len(),
                sp_factor(ts, p0) == sp_factor_rest(ts, *expr, self.spec_pos()),
            ensures
                self.wf(),
                self.toks() == ts,
                p0 < self.spec_pos() <= ts.len(),
                sp_factor(ts, p0) == ParseOutcome::Parsed(*expr, self.spec_pos()),
            decreases ts.len() - self.spec_pos(),
        {
            let is_op = if self.pos < self.tokens.len() {
                matches!(self.tokens[self.pos].kind(), TokenKind::Slash | TokenKind::Star)
            } else {
                false
            };
            if !is_op {
                break;
            }
            let operator = self.take();
            match self.unary() {
                Ok(right) => {
                    expr = Box::new(Expr::Binary { left: expr, operator, right });
                },
                Err(err) => {
                    return Err(err);
                },
            }
        }
        Ok(expr)
    }

    /// unary -> ( "!" | "-" ) unary
    ///        | primary ;
    fn unary(&mut self) -> (r: Result<Box<Expr>, ParseFailure>)
        requires
            old(self).wf(),
        ensures
            final(self).wf(),
            final(self).toks() == old(self).toks(),
            rule_post(
                old(self).toks(),
                old(self).spec_pos(),
                sp_unary(old(self).toks(), old(self).spec_pos()),
                r,
                final(self).spec_pos(),
            ),
        decreases old(self).toks().len() - old(self).spec_pos(), 1int,
    {
        let is_op = if self.pos < self.tokens.len() {
            matches!(self.tokens[self.pos].kind(), TokenKind::Bang | TokenKind::Minus)
        } else {
            false
        };
        if is_op {
            let operator = self.take();
            match self.unary() {
                Ok(right) => Ok(Box::new(Expr::Unary { operator, right })),
                Err(err) => Err(err),
            }
        } else {
            self.primary()
        }
    }

    /// primary -> NUMBER | STRING | "true" | "false" | "nil"
    ///          | "(" expression ")" ;
    fn primary(&mut self) -> (r: Result<Box<Expr>, ParseFailure>)
        requires
            old(self).wf(),
        ensures
            final(self).wf(),
            final(self).toks() == old(self).toks(),
            rule_post(
                old(self).toks(),
                old(self).spec_pos(),
                sp_primary(old(self).toks(), old(self).spec_pos()),
                r,
                final(self).spec_pos(),
            ),
        decreases old(self).toks().len() - old(self).spec_pos(), 0int,
    {
        if self.pos >= self.tokens.len() {
            return Err(ParseFailure { kind: ParseFailKind::Syntax, position: self.past_end() });
        }
        let here = self.tokens[self.pos].span().start as usize;
        match self.tokens[self.pos].kind() {
            TokenKind::Keyword(Keyword::True)
            | TokenKind::Keyword(Keyword::False)
            | TokenKind::Keyword(Keyword::Nil)
            | TokenKind::Number
            | TokenKind::String => {
                let value = self.take();
                Ok(Box::new(Expr::Literal { value }))
            },
            TokenKind::LeftParen => {
                let _ = self.take();
                match self.expression() {
                    Ok(expression) => {
                        let closed = if self.pos < self.tokens.len() {
                            matches!(self.tokens[self.pos].kind(), TokenKind::RightParen)
                        } else {
                            false
                        };
                        if closed {
                            let _ = self.take();
                            Ok(Box::new(Expr::Grouping { expression }))
                        } else if self.pos < self.tokens.len() {
                            Err(
                                ParseFailure {
                                    kind: ParseFailKind::Syntax,
                                    position: self.tokens[self.pos].span().start as usize,
                                },
                            )
                        } else {
                            Err(
                                ParseFailure {
                                    kind: ParseFailKind::Syntax,
                                    position: self.past_end(),
                                },
                            )
                        }
                    },
                    Err(err) => Err(err),
                }
            },
            TokenKind::UnterminatedString => Err(
                ParseFailure { kind: ParseFailKind::UnterminatedString, position: here },
            ),
            TokenKind::UnterminatedBlockComment => Err(
                ParseFailure { kind: ParseFailKind::UnterminatedComment, position: here },
            ),
            _ => Err(ParseFailure { kind: ParseFailKind::Syntax, position: here }),
        }
    }
}

} // verus!
