//! The parser: recursive descent with one function per precedence level,
//! from equality (lowest) to primary (highest).
use crate::expr::Expr;
use crate::number::Numeric;
use crate::token::{Token, TokenType};
use vstd::prelude::*;

verus! {

/// Why a parse failed.
#[derive(Clone, Copy, Debug, PartialEq, Eq, Structural)]
pub enum ParseErrorKind {
    /// A token that cannot start an operand.
    UnexpectedToken,
    /// A parenthesized expression not closed by `)`.
    MissingRightParen,
}

/// A failed parse, with the token where it failed (which holds its line).
pub struct ParseError<N> {
    pub kind: ParseErrorKind,
    pub token: Token<N>,
}

/// The binary operators of each level: equality (0), comparison (1),
/// term (2) and factor (3).
pub open spec fn level_op(level: int, t: TokenType) -> bool {
    if level == 0 {
        t == TokenType::EqualEqual || t == TokenType::BangEqual
    } else if level == 1 {
        t == TokenType::Less || t == TokenType::LessEqual || t == TokenType::Greater || t
            == TokenType::GreaterEqual
    } else if level == 2 {
        t == TokenType::Plus || t == TokenType::Minus
    } else if level == 3 {
        t == TokenType::Slash || t == TokenType::Star
    } else {
        false
    }
}

/// The kinds of token that are a whole operand.
pub open spec fn is_literal_kind(t: TokenType) -> bool {
    t == TokenType::Number || t == TokenType::String || t == TokenType::True || t == TokenType::False
        || t == TokenType::Nil
}

pub open spec fn error_at<N>(kind: ParseErrorKind, toks: Seq<Token<N>>, pos: int) -> ParseError<N> {
    ParseError { kind, token: toks[pos] }
}

/// Parsing `toks` from `pos` at a precedence level: equality (0),
/// comparison (1), term (2), factor (3), unary (4), primary (5). The result
/// is the expression and the position after it, or the error.
pub open spec fn parse_level<N>(toks: Seq<Token<N>>, pos: int, level: int) -> Result<
    (Expr<N>, int),
    ParseError<N>,
>
    decreases toks.len() - pos, 6 - level, 1int,
{
    if pos < 0 || pos >= toks.len() || level < 0 || level > 5 {
        Err(error_at(ParseErrorKind::UnexpectedToken, toks, pos))
    } else if level <= 3 {
        match parse_level(toks, pos, level + 1) {
            Err(e) => Err(e),
            Ok((left, p)) => {
                if p <= pos || p > toks.len() {
                    Err(error_at(ParseErrorKind::UnexpectedToken, toks, pos))
                } else {
                    parse_rest(toks, p, level, left)
                }
            },
        }
    } else if level == 4 {
        let t = toks[pos];
        if t.ttype == TokenType::Minus || t.ttype == TokenType::Bang {
            match parse_level(toks, pos + 1, 4) {
                Err(e) => Err(e),
                Ok((operand, p)) => Ok((Expr::Unary { op: t, right: Box::new(operand) }, p)),
            }
        } else {
            parse_level(toks, pos, 5)
        }
    } else {
        let t = toks[pos];
        if is_literal_kind(t.ttype) {
            Ok((Expr::Literal { value: t.literal }, pos + 1))
        } else if t.ttype == TokenType::LeftParen {
            match parse_level(toks, pos + 1, 0) {
                Err(e) => Err(e),
                Ok((inner, p)) => {
                    if 0 <= p < toks.len() && toks[p].ttype == TokenType::RightParen {
                        Ok((Expr::Grouped { expr: Box::new(inner) }, p + 1))
                    } else {
                        Err(error_at(ParseErrorKind::MissingRightParen, toks, p))
                    }
                },
            }
        } else {
            Err(error_at(ParseErrorKind::UnexpectedToken, toks, pos))
        }
    }
}

/// The repetition of a binary level: while the token at `pos` is an
/// operator of the level, fold it and the next operand onto `left`.
pub open spec fn parse_rest<N>(toks: Seq<Token<N>>, pos: int, level: int, left: Expr<N>) -> Result<
    (Expr<N>, int),
    ParseError<N>,
>
    decreases toks.len() - pos, 0int, 0int,
{
    if pos < 0 || pos >= toks.len() || level < 0 || level > 3 || !level_op(level, toks[pos].ttype) {
        Ok((left, pos))
    } else {
        match parse_level(toks, pos + 1, level + 1) {
            Err(e) => Err(e),
            Ok((right, p)) => {
                if p <= pos || p > toks.len() {
                    Err(error_at(ParseErrorKind::UnexpectedToken, toks, pos))
                } else {
                    parse_rest(
                        toks,
                        p,
                        level,
                        Expr::Binary { left: Box::new(left), op: toks[pos], right: Box::new(right) },
                    )
                }
            },
        }
    }
}

/// The expression that `toks` starts with, or why there is none.
pub open spec fn parse_tokens<N>(toks: Seq<Token<N>>) -> Result<Expr<N>, ParseError<N>> {
    match parse_level(toks, 0, 0) {
        Ok((e, _)) => Ok(e),
        Err(e) => Err(e),
    }
}

/// A token sequence that ends with the end-of-input token.
pub open spec fn ends_with_eof<N>(toks: Seq<Token<N>>) -> bool {
    toks.len() > 0 && toks.last().ttype == TokenType::EOF
}

/// Builds one expression tree from a token sequence.
pub struct Parser<N> {
    tokens: Vec<Token<N>>,
    cursor: usize,
}

impl<N: Numeric> Parser<N> {
    pub closed spec fn wf(&self) -> bool {
        ends_with_eof(self.tokens@) && self.cursor < self.tokens@.len()
    }

    /// The tokens being parsed.
    pub closed spec fn token_seq(&self) -> Seq<Token<N>> {
        self.tokens@
    }

    /// The position of the next token to read.
    pub closed spec fn position(&self) -> int {
        self.cursor as int
    }

    /// A parse of `p.tokens` from `start` at `level` gave `r` and left `p` after it.
    closed spec fn parsed(start: int, level: int, p: Self, r: Result<Expr<N>, ParseError<N>>) -> bool {
        match parse_level(p.tokens@, start, level) {
            Ok((e, q)) => r == Ok::<Expr<N>, ParseError<N>>(e) && p.cursor == q && p.wf() && q > start,
            Err(e) => r == Err::<Expr<N>, ParseError<N>>(e),
        }
    }

    /// A parser at the first of `tokens`.
    pub fn new(tokens: Vec<Token<N>>) -> (r: Self)
        ensures
            r.token_seq() == tokens@,
            r.position() == 0,
            ends_with_eof(tokens@) ==> r.wf(),
    {
        Parser { tokens, cursor: 0 }
    }

    /// Parses one expression from the current position: the expression
    /// that the grammar gives, or the error at the first token that does
    /// not fit it. Tokens after the expression are not read.
    pub fn parse(&mut self) -> (r: Result<Expr<N>, ParseError<N>>)
        requires
            old(self).wf(),
        ensures
            final(self).token_seq() == old(self).token_seq(),
            match parse_level(old(self).token_seq(), old(self).position(), 0) {
                Ok((e, q)) => r == Ok::<Expr<N>, ParseError<N>>(e) && final(self).position() == q,
                Err(e) => r == Err::<Expr<N>, ParseError<N>>(e),
            },
    {
        self.parse_expression()
    }

    fn parse_expression(&mut self) -> (r: Result<Expr<N>, ParseError<N>>)
        requires
            old(self).wf(),
        ensures
            final(self).tokens@ == old(self).tokens@,
            Self::parsed(old(self).cursor as int, 0, *final(self), r),
        decreases old(self).tokens@.len() - old(self).cursor, 7int,
    {
        self.parse_equality()
    }

    fn parse_equality(&mut self) -> (r: Result<Expr<N>, ParseError<N>>)
        requires
            old(self).wf(),
        ensures
            final(self).tokens@ == old(self).tokens@,
            Self::parsed(old(self).cursor as int, 0, *final(self), r),
        decreases old(self).tokens@.len() - old(self).cursor, 6int,
    {
        let ghost toks = self.tokens@;
        let ghost start = self.cursor as int;
        let mut expr = match self.parse_comparison() {
            Ok(e) => e,
            Err(e) => return Err(e),
        };
        while matches!(self.current().ttype, TokenType::EqualEqual | TokenType::BangEqual)
            invariant
                self.wf(),
                toks == old(self).tokens@,
                start == old(self).cursor,
                self.tokens@ == toks,
                self.cursor > start,
                parse_level(toks, start, 0) == parse_rest(toks, self.cursor as int, 0, expr),
            decreases toks.len() - self.cursor,
        {
            let operator = self.current().clone();
            self.advance();
            let right = match self.parse_comparison() {
                Ok(e) => e,
                Err(e) => return Err(e),
            };
            expr = Expr::Binary { left: Box::new(expr), op: operator, right: Box::new(right) };
        }
        Ok(expr)
    }

    fn parse_comparison(&mut self) -> (r: Result<Expr<N>, ParseError<N>>)
        requires
            old(self).wf(),
        ensures
            final(self).tokens@ == old(self).tokens@,
            Self::parsed(old(self).cursor as int, 1, *final(self), r),
        decreases old(self).tokens@.len() - old(self).cursor, 5int,
    {
        let ghost toks = self.tokens@;
        let ghost start = self.cursor as int;
        let mut expr = match self.parse_term() {
            Ok(e) => e,
            Err(e) => return Err(e),
        };
        while matches!(self.current().ttype, TokenType::Less | TokenType::LessEqual | TokenType::Greater | TokenType::GreaterEqual)
            invariant
                self.wf(),
                toks == old(self).tokens@,
                start == old(self).cursor,
                self.tokens@ == toks,
                self.cursor > start,
                parse_level(toks, start, 1) == parse_rest(toks, self.cursor as int, 1, expr),
            decreases toks.len() - self.cursor,
        {
            let operator = self.current().clone();
            self.advance();
            let right = match self.parse_term() {
                Ok(e) => e,
                Err(e) => return Err(e),
            };
            expr = Expr::Binary { left: Box::new(expr), op: operator, right: Box::new(right) };
        }
        Ok(expr)
    }

    fn parse_term(&mut self) -> (r: Result<Expr<N>, ParseError<N>>)
        requires
            old(self).wf(),
        ensures
            final(self).tokens@ == old(self).tokens@,
            Self::parsed(old(self).cursor as int, 2, *final(self), r),
        decreases old(self).tokens@.len() - old(self).cursor, 4int,
    {
        let ghost toks = self.tokens@;
        let ghost start = self.cursor as int;
        let mut expr = match self.parse_factor() {
            Ok(e) => e,
            Err(e) => return Err(e),
        };
        while matches!(self.current().ttype, TokenType::Plus | TokenType::Minus)
            invariant
                self.wf(),
                toks == old(self).tokens@,
                start == old(self).cursor,
                self.tokens@ == toks,
                self.cursor > start,
                parse_level(toks, start, 2) == parse_rest(toks, self.cursor as int, 2, expr),
            decreases toks.len() - self.cursor,
        {
            let operator = self.current().clone();
            self.advance();
            let right = match self.parse_factor() {
                Ok(e) => e,
                Err(e) => return Err(e),
            };
            expr = Expr::Binary { left: Box::new(expr), op: operator, right: Box::new(right) };
        }
        Ok(expr)
    }

    fn parse_factor(&mut self) -> (r: Result<Expr<N>, ParseError<N>>)
        requires
            old(self).wf(),
        ensures
            final(self).tokens@ == old(self).tokens@,
            Self::parsed(old(self).cursor as int, 3, *final(self), r),
        decreases old(self).tokens@.len() - old(self).cursor, 3int,
    {
        let ghost toks = self.tokens@;
        let ghost start = self.cursor as int;
        let mut expr = match self.parse_unary() {
            Ok(e) => e,
            Err(e) => return Err(e),
        };
        while matches!(self.current().ttype, TokenType::Slash | TokenType::Star)
            invariant
                self.wf(),
                toks == old(self).tokens@,
                start == old(self).cursor,
                self.tokens@ == toks,
                self.cursor > start,
                parse_level(toks, start, 3) == parse_rest(toks, self.cursor as int, 3, expr),
            decreases toks.len() - self.cursor,
        {
            let operator = self.current().clone();
            self.advance();
            let right = match self.parse_unary() {
                Ok(e) => e,
                Err(e) => return Err(e),
            };
            expr = Expr::Binary { left: Box::new(expr), op: operator, right: Box::new(right) };
        }
        Ok(expr)
    }

    fn parse_unary(&mut self) -> (r: Result<Expr<N>, ParseError<N>>)
        requires
            old(self).wf(),
        ensures
            final(self).tokens@ == old(self).tokens@,
            Self::parsed(old(self).cursor as int, 4, *final(self), r),
        decreases old(self).tokens@.len() - old(self).cursor, 2int,
    {
        match self.current().ttype {
            TokenType::Minus | TokenType::Bang => {
                let operator = self.current().clone();
                self.advance();
                match self.parse_unary() {
                    Ok(right) => Ok(Expr::Unary { op: operator, right: Box::new(right) }),
                    Err(e) => Err(e),
                }
            },
            _ => self.parse_primary(),
        }
    }

    fn parse_primary(&mut self) -> (r: Result<Expr<N>, ParseError<N>>)
        requires
            old(self).wf(),
        ensures
            final(self).tokens@ == old(self).tokens@,
            Self::parsed(old(self).cursor as int, 5, *final(self), r),
        decreases old(self).tokens@.len() - old(self).cursor, 1int,
    {
        match self.current().ttype {
            TokenType::Number | TokenType::String | TokenType::True | TokenType::False
            | TokenType::Nil => {
                let value = self.current().clone().literal;
                self.advance();
                Ok(Expr::Literal { value })
            },
            TokenType::LeftParen => {
                self.advance();
                let expr = match self.parse_expression() {
                    Ok(e) => e,
                    Err(e) => return Err(e),
                };
                if self.current().ttype == TokenType::RightParen {
                    self.advance();
                    Ok(Expr::Grouped { expr: Box::new(expr) })
                } else {
                    Err(ParseError { kind: ParseErrorKind::MissingRightParen, token: self.current().clone() })
                }
            },
            _ => Err(ParseError { kind: ParseErrorKind::UnexpectedToken, token: self.current().clone() }),
        }
    }

    fn current(&self) -> (r: &Token<N>)
        requires
            self.wf(),
        ensures
            *r == self.tokens@[self.cursor as int],
    {
        &self.tokens[self.cursor]
    }

    fn advance(&mut self)
        requires
            old(self).wf(),
            old(self).tokens@[old(self).cursor as int].ttype != TokenType::EOF,
        ensures
            final(self).wf(),
            final(self).tokens@ == old(self).tokens@,
            final(self).cursor == old(self).cursor + 1,
    {
        if self.cursor < self.tokens.len() - 1 {
            self.cursor = self.cursor + 1;
        }
    }
}

} // verus!
