//! Tokens: the lexical units that the scanner produces.
use crate::number::{deterministic, number_text, text_of, Numeric};
use vstd::prelude::*;

verus! {

/// The lexical category of a token.
#[derive(Clone, Copy, Debug, PartialEq, Eq, Structural)]
pub enum TokenType {
    // Single-character tokens
    LeftParen,
    RightParen,
    LeftBrace,
    RightBrace,
    Comma,
    Dot,
    Minus,
    Plus,
    Semicolon,
    Slash,
    Star,
    // One or two character tokens
    Bang,
    BangEqual,
    Equal,
    EqualEqual,
    Greater,
    GreaterEqual,
    Less,
    LessEqual,
    // Literals
    Identifier,
    String,
    Number,
    // Keywords
    And,
    Class,
    Else,
    False,
    Fun,
    For,
    If,
    Nil,
    Or,
    Print,
    Return,
    Super,
    This,
    True,
    Var,
    While,
    // End of input
    EOF,
}

/// A runtime value: the literal of a token, or what an expression evaluates to.
pub enum LiteralValue<N> {
    Number(N),
    String(String),
    Boolean(bool),
    Nil,
}

impl<N: Numeric> Clone for LiteralValue<N> {
    fn clone(&self) -> (r: Self)
        ensures
            r == *self,
    {
        match self {
            LiteralValue::Number(n) => LiteralValue::Number(*n),
            LiteralValue::String(s) => LiteralValue::String(s.clone()),
            LiteralValue::Boolean(b) => LiteralValue::Boolean(*b),
            LiteralValue::Nil => LiteralValue::Nil,
        }
    }
}

/// A token: its kind, the source text it was scanned from, its resolved
/// literal (numbers, strings, `true`, `false`, `nil`) and its source line.
pub struct Token<N> {
    pub ttype: TokenType,
    pub lexeme: String,
    pub literal: Option<LiteralValue<N>>,
    pub line: usize,
}

impl<N: Numeric> Clone for Token<N> {
    fn clone(&self) -> (r: Self)
        ensures
            r == *self,
    {
        let literal = match &self.literal {
            Some(v) => Some(v.clone()),
            None => None,
        };
        Token { ttype: self.ttype, lexeme: self.lexeme.clone(), literal, line: self.line }
    }
}

/// What a runtime value is, with strings as character sequences.
pub enum Value<N> {
    Number(N),
    Str(Seq<char>),
    Boolean(bool),
    Nil,
}

impl<N> View for LiteralValue<N> {
    type V = Value<N>;

    open spec fn view(&self) -> Value<N> {
        match self {
            LiteralValue::Number(n) => Value::Number(*n),
            LiteralValue::String(s) => Value::Str(s@),
            LiteralValue::Boolean(b) => Value::Boolean(*b),
            LiteralValue::Nil => Value::Nil,
        }
    }
}

/// What a token is, with its lexeme as a character sequence.
pub struct TokenView<N> {
    pub ttype: TokenType,
    pub lexeme: Seq<char>,
    pub literal: Option<Value<N>>,
    pub line: nat,
}

pub open spec fn literal_view<N>(l: Option<LiteralValue<N>>) -> Option<Value<N>> {
    match l {
        Some(v) => Some(v@),
        None => None,
    }
}

/// A token's view leaves out the value of a number literal: what that value
/// is, the number type decides (see `denotes`).
impl<N> View for Token<N> {
    type V = TokenView<N>;

    open spec fn view(&self) -> TokenView<N> {
        TokenView {
            ttype: self.ttype,
            lexeme: self.lexeme@,
            literal: if self.ttype == TokenType::Number {
                None
            } else {
                literal_view(self.literal)
            },
            line: self.line as nat,
        }
    }
}

pub open spec fn token_views<N>(ts: Seq<Token<N>>) -> Seq<TokenView<N>> {
    ts.map_values(|t: Token<N>| t@)
}

/// The kind of a value, as a runtime error names it.
#[derive(Clone, Copy, Debug, PartialEq, Eq, Structural)]
pub enum ValueKind {
    Number,
    String,
    Boolean,
    Nil,
}

pub open spec fn kind_of<N>(v: Value<N>) -> ValueKind {
    match v {
        Value::Number(_) => ValueKind::Number,
        Value::Str(_) => ValueKind::String,
        Value::Boolean(_) => ValueKind::Boolean,
        Value::Nil => ValueKind::Nil,
    }
}

/// The canonical text of a value: a number's own text, a string between
/// double quotes, `true`, `false` or `nil`.
pub open spec fn value_text<N: Numeric>(v: Value<N>) -> Seq<char> {
    match v {
        Value::Number(n) => text_of(n),
        Value::Str(s) => "\""@ + s + "\""@,
        Value::Boolean(b) => if b {
            "true"@
        } else {
            "false"@
        },
        Value::Nil => "nil"@,
    }
}

impl<N: Numeric> LiteralValue<N> {
    /// The kind of this value.
    pub fn kind(&self) -> (r: ValueKind)
        ensures
            r == kind_of(self@),
    {
        match self {
            LiteralValue::Number(_) => ValueKind::Number,
            LiteralValue::String(_) => ValueKind::String,
            LiteralValue::Boolean(_) => ValueKind::Boolean,
            LiteralValue::Nil => ValueKind::Nil,
        }
    }

    /// The canonical text of this value.
    pub fn to_text(&self) -> (r: String)
        ensures
            !(self@ is Number) ==> r@ == value_text(self@),
            deterministic::<N>() ==> r@ == value_text(self@),
    {
        match self {
            LiteralValue::Number(n) => {
                let t = n.to_text();
                assert(number_text(*n, t@));
                t
            },
            LiteralValue::String(s) => {
                let mut r = "\"".to_owned();
                r.append(s.as_str());
                r.append("\"");
                r
            },
            LiteralValue::Boolean(b) => if *b {
                "true".to_owned()
            } else {
                "false".to_owned()
            },
            LiteralValue::Nil => "nil".to_owned(),
        }
    }
}

} // verus!
