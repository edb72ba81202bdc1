//! The expression tree that the parser builds, and the two walks over it:
//! evaluation and pretty-printing. Both visit the children of a node before
//! the node itself, left before right.
use crate::number::{
    deterministic, difference, is_equal, is_greater, is_greater_or_equal, is_less, is_less_or_equal,
    negation, product, quotient, sum, Numeric,
};
use crate::token::{kind_of, value_text, LiteralValue, Token, TokenType, Value, ValueKind};
use vstd::prelude::*;

verus! {

/// An expression: each node owns its children.
pub enum Expr<N> {
    Binary { left: Box<Expr<N>>, op: Token<N>, right: Box<Expr<N>> },
    Unary { op: Token<N>, right: Box<Expr<N>> },
    Grouped { expr: Box<Expr<N>> },
    Literal { value: Option<LiteralValue<N>> },
}

/// An operator applied to operands of kinds it does not take.
pub enum RuntimeError<N> {
    UnaryOperand { op: Token<N>, operand: ValueKind },
    BinaryOperands { op: Token<N>, left: ValueKind, right: ValueKind },
}

/// What a unary operator gives on a value: `!` negates a Boolean, `-`
/// negates a number, anything else is a runtime error.
pub open spec fn unary_result<N: Numeric>(op: Token<N>, v: Value<N>) -> Result<Value<N>, RuntimeError<N>> {
    match (op.ttype, v) {
        (TokenType::Bang, Value::Boolean(b)) => Ok(Value::Boolean(!b)),
        (TokenType::Minus, Value::Number(n)) => Ok(Value::Number(negation(n))),
        _ => Err(RuntimeError::UnaryOperand { op, operand: kind_of(v) }),
    }
}

/// What a binary operator gives on two values. Arithmetic and ordering take
/// numbers; `+` also joins strings; `==` and `!=` take two values of one
/// kind; anything else is a runtime error.
pub open spec fn binary_result<N: Numeric>(op: Token<N>, l: Value<N>, r: Value<N>) -> Result<
    Value<N>,
    RuntimeError<N>,
> {
    match (op.ttype, l, r) {
        (TokenType::Minus, Value::Number(a), Value::Number(b)) => Ok(Value::Number(difference(a, b))),
        (TokenType::Plus, Value::Number(a), Value::Number(b)) => Ok(Value::Number(sum(a, b))),
        (TokenType::Plus, Value::Str(a), Value::Str(b)) => Ok(Value::Str(a + b)),
        (TokenType::Star, Value::Number(a), Value::Number(b)) => Ok(Value::Number(product(a, b))),
        (TokenType::Slash, Value::Number(a), Value::Number(b)) => Ok(Value::Number(quotient(a, b))),
        (TokenType::EqualEqual, Value::Number(a), Value::Number(b)) => Ok(Value::Boolean(is_equal(a, b))),
        (TokenType::EqualEqual, Value::Str(a), Value::Str(b)) => Ok(Value::Boolean(a == b)),
        (TokenType::EqualEqual, Value::Boolean(a), Value::Boolean(b)) => Ok(Value::Boolean(a == b)),
        (TokenType::EqualEqual, Value::Nil, Value::Nil) => Ok(Value::Boolean(true)),
        (TokenType::BangEqual, Value::Number(a), Value::Number(b)) => Ok(Value::Boolean(!is_equal(a, b))),
        (TokenType::BangEqual, Value::Str(a), Value::Str(b)) => Ok(Value::Boolean(a != b)),
        (TokenType::BangEqual, Value::Boolean(a), Value::Boolean(b)) => Ok(Value::Boolean(a != b)),
        (TokenType::BangEqual, Value::Nil, Value::Nil) => Ok(Value::Boolean(false)),
        (TokenType::Less, Value::Number(a), Value::Number(b)) => Ok(Value::Boolean(is_less(a, b))),
        (TokenType::LessEqual, Value::Number(a), Value::Number(b)) => Ok(
            Value::Boolean(is_less_or_equal(a, b)),
        ),
        (TokenType::Greater, Value::Number(a), Value::Number(b)) => Ok(Value::Boolean(is_greater(a, b))),
        (TokenType::GreaterEqual, Value::Number(a), Value::Number(b)) => Ok(
            Value::Boolean(is_greater_or_equal(a, b)),
        ),
        _ => Err(RuntimeError::BinaryOperands { op, left: kind_of(l), right: kind_of(r) }),
    }
}

/// The value of an expression, or the first runtime error met, operands
/// being evaluated left to right before their operator.
pub open spec fn eval<N: Numeric>(e: Expr<N>) -> Result<Value<N>, RuntimeError<N>>
    decreases e,
{
    match e {
        Expr::Literal { value } => match value {
            Some(v) => Ok(v@),
            None => Ok(Value::Nil),
        },
        Expr::Grouped { expr } => eval(*expr),
        Expr::Unary { op, right } => match eval(*right) {
            Err(x) => Err(x),
            Ok(v) => unary_result(op, v),
        },
        Expr::Binary { left, op, right } => match eval(*left) {
            Err(x) => Err(x),
            Ok(l) => match eval(*right) {
                Err(x) => Err(x),
                Ok(r) => binary_result(op, l, r),
            },
        },
    }
}

pub open spec fn result_view<N>(r: Result<LiteralValue<N>, RuntimeError<N>>) -> Result<
    Value<N>,
    RuntimeError<N>,
> {
    match r {
        Ok(v) => Ok(v@),
        Err(x) => Err(x),
    }
}

/// The canonical text of an expression: `(op left right)`, `(op operand)`,
/// `(group inner)`, or the text of a literal (`unknown` where there is none).
pub open spec fn pretty<N: Numeric>(e: Expr<N>) -> Seq<char>
    decreases e,
{
    match e {
        Expr::Binary { left, op, right } => "("@ + op.lexeme@ + " "@ + pretty(*left) + " "@ + pretty(
            *right,
        ) + ")"@,
        Expr::Unary { op, right } => "("@ + op.lexeme@ + " "@ + pretty(*right) + ")"@,
        Expr::Grouped { expr } => "(group "@ + pretty(*expr) + ")"@,
        Expr::Literal { value } => match value {
            Some(v) => value_text(v@),
            None => "unknown"@,
        },
    }
}

/// Two values of one kind, equal where they are strings. Where the number
/// type is not known to be deterministic, this is how far the value an
/// operation returns is pinned down: a number or a comparison of numbers may
/// come out otherwise, nothing else may.
pub open spec fn agree<N>(a: Value<N>, b: Value<N>) -> bool {
    kind_of(a) == kind_of(b) && (a is Str ==> a == b)
}

/// The same runtime error, or two values that agree.
pub open spec fn results_agree<N>(x: Result<Value<N>, RuntimeError<N>>, y: Result<Value<N>, RuntimeError<N>>) -> bool {
    match (x, y) {
        (Err(a), Err(b)) => a == b,
        (Ok(a), Ok(b)) => agree(a, b),
        _ => false,
    }
}

/// An expression without number literals, where no number ever arises.
pub open spec fn number_free<N>(e: Expr<N>) -> bool
    decreases e,
{
    match e {
        Expr::Literal { value } => match value {
            Some(LiteralValue::Number(_)) => false,
            _ => true,
        },
        Expr::Grouped { expr } => number_free(*expr),
        Expr::Unary { right, .. } => number_free(*right),
        Expr::Binary { left, right, .. } => number_free(*left) && number_free(*right),
    }
}

proof fn lemma_unary_agree<N: Numeric>(op: Token<N>, a: Value<N>, b: Value<N>)
    requires
        agree(a, b),
    ensures
        results_agree(unary_result(op, a), unary_result(op, b)),
{
}

proof fn lemma_binary_agree<N: Numeric>(op: Token<N>, a: Value<N>, b: Value<N>, c: Value<N>, d: Value<N>)
    requires
        agree(a, c),
        agree(b, d),
    ensures
        results_agree(binary_result(op, a, b), binary_result(op, c, d)),
{
}

/// Without number literals, evaluation gives no number.
pub proof fn lemma_number_free<N: Numeric>(e: Expr<N>)
    requires
        number_free(e),
    ensures
        !(eval(e) matches Ok(Value::Number(_))),
    decreases e,
{
    match e {
        Expr::Grouped { expr } => lemma_number_free(*expr),
        Expr::Unary { right, .. } => lemma_number_free(*right),
        Expr::Binary { left, right, .. } => {
            lemma_number_free(*left);
            lemma_number_free(*right);
        },
        _ => {},
    }
}

fn unary_value<N: Numeric>(op: &Token<N>, v: LiteralValue<N>) -> (r: Result<LiteralValue<N>, RuntimeError<N>>)
    ensures
        results_agree(result_view(r), unary_result(*op, v@)),
        !(v@ is Number) ==> result_view(r) == unary_result(*op, v@),
        deterministic::<N>() ==> result_view(r) == unary_result(*op, v@),
{
    match (op.ttype, &v) {
        (TokenType::Bang, LiteralValue::Boolean(b)) => Ok(LiteralValue::Boolean(!*b)),
        (TokenType::Minus, LiteralValue::Number(n)) => Ok(LiteralValue::Number(n.negate())),
        _ => Err(RuntimeError::UnaryOperand { op: op.clone(), operand: v.kind() }),
    }
}

fn binary_value<N: Numeric>(op: &Token<N>, l: LiteralValue<N>, r: LiteralValue<N>) -> (res: Result<
    LiteralValue<N>,
    RuntimeError<N>,
>)
    ensures
        results_agree(result_view(res), binary_result(*op, l@, r@)),
        !(l@ is Number) && !(r@ is Number) ==> result_view(res) == binary_result(*op, l@, r@),
        deterministic::<N>() ==> result_view(res) == binary_result(*op, l@, r@),
{
    match (op.ttype, &l, &r) {
        (TokenType::Minus, LiteralValue::Number(a), LiteralValue::Number(b)) => Ok(
            LiteralValue::Number(a.minus(b)),
        ),
        (TokenType::Plus, LiteralValue::Number(a), LiteralValue::Number(b)) => Ok(
            LiteralValue::Number(a.plus(b)),
        ),
        (TokenType::Plus, LiteralValue::String(a), LiteralValue::String(b)) => {
            let mut joined = a.clone();
            joined.append(b.as_str());
            Ok(LiteralValue::String(joined))
        },
        (TokenType::Star, LiteralValue::Number(a), LiteralValue::Number(b)) => Ok(
            LiteralValue::Number(a.times(b)),
        ),
        (TokenType::Slash, LiteralValue::Number(a), LiteralValue::Number(b)) => Ok(
            LiteralValue::Number(a.divided_by(b)),
        ),
        (TokenType::EqualEqual, LiteralValue::Number(a), LiteralValue::Number(b)) => Ok(
            LiteralValue::Boolean(a.equal_to(b)),
        ),
        (TokenType::EqualEqual, LiteralValue::String(a), LiteralValue::String(b)) => Ok(
            LiteralValue::Boolean(a.eq(b)),
        ),
        (TokenType::EqualEqual, LiteralValue::Boolean(a), LiteralValue::Boolean(b)) => Ok(
            LiteralValue::Boolean(*a == *b),
        ),
        (TokenType::EqualEqual, LiteralValue::Nil, LiteralValue::Nil) => Ok(LiteralValue::Boolean(true)),
        (TokenType::BangEqual, LiteralValue::Number(a), LiteralValue::Number(b)) => Ok(
            LiteralValue::Boolean(!a.equal_to(b)),
        ),
        (TokenType::BangEqual, LiteralValue::String(a), LiteralValue::String(b)) => Ok(
            LiteralValue::Boolean(!a.eq(b)),
        ),
        (TokenType::BangEqual, LiteralValue::Boolean(a), LiteralValue::Boolean(b)) => Ok(
            LiteralValue::Boolean(*a != *b),
        ),
        (TokenType::BangEqual, LiteralValue::Nil, LiteralValue::Nil) => Ok(LiteralValue::Boolean(false)),
        (TokenType::Less, LiteralValue::Number(a), LiteralValue::Number(b)) => Ok(
            LiteralValue::Boolean(a.less_than(b)),
        ),
        (TokenType::LessEqual, LiteralValue::Number(a), LiteralValue::Number(b)) => Ok(
            LiteralValue::Boolean(a.less_or_equal(b)),
        ),
        (TokenType::Greater, LiteralValue::Number(a), LiteralValue::Number(b)) => Ok(
            LiteralValue::Boolean(a.greater_than(b)),
        ),
        (TokenType::GreaterEqual, LiteralValue::Number(a), LiteralValue::Number(b)) => Ok(
            LiteralValue::Boolean(a.greater_or_equal(b)),
        ),
        _ => Err(RuntimeError::BinaryOperands { op: op.clone(), left: l.kind(), right: r.kind() }),
    }
}

/// Evaluates an expression: its value, or the first runtime error.
pub fn evaluate<N: Numeric>(e: &Expr<N>) -> (r: Result<LiteralValue<N>, RuntimeError<N>>)
    ensures
        results_agree(result_view(r), eval(*e)),
        number_free(*e) ==> result_view(r) == eval(*e),
        deterministic::<N>() ==> result_view(r) == eval(*e),
    decreases e,
{
    match e {
        Expr::Literal { value } => match value {
            Some(v) => Ok(v.clone()),
            None => Ok(LiteralValue::Nil),
        },
        Expr::Grouped { expr } => evaluate(expr),
        Expr::Unary { op, right } => match evaluate(right) {
            Err(x) => Err(x),
            Ok(v) => {
                let ghost spec_v = eval(**right)->Ok_0;
                proof {
                    lemma_unary_agree(*op, v@, spec_v);
                    if number_free(**right) {
                        lemma_number_free(**right);
                    }
                }
                unary_value(op, v)
            },
        },
        Expr::Binary { left, op, right } => match evaluate(left) {
            Err(x) => Err(x),
            Ok(l) => match evaluate(right) {
                Err(x) => Err(x),
                Ok(r) => {
                    let ghost (spec_l, spec_r) = (eval(**left)->Ok_0, eval(**right)->Ok_0);
                    proof {
                        lemma_binary_agree(*op, l@, r@, spec_l, spec_r);
                        if number_free(**left) && number_free(**right) {
                            lemma_number_free(**left);
                            lemma_number_free(**right);
                        }
                    }
                    binary_value(op, l, r)
                },
            },
        },
    }
}

/// The canonical text of an expression. Defined on every tree.
pub fn pretty_text<N: Numeric>(e: &Expr<N>) -> (r: String)
    ensures
        number_free(*e) ==> r@ == pretty(*e),
        deterministic::<N>() ==> r@ == pretty(*e),
    decreases e,
{
    match e {
        Expr::Binary { left, op, right } => {
            let l = pretty_text(left);
            let rt = pretty_text(right);
            let mut r = "(".to_owned();
            r.append(op.lexeme.as_str());
            r.append(" ");
            r.append(l.as_str());
            r.append(" ");
            r.append(rt.as_str());
            r.append(")");
            r
        },
        Expr::Unary { op, right } => {
            let rt = pretty_text(right);
            let mut r = "(".to_owned();
            r.append(op.lexeme.as_str());
            r.append(" ");
            r.append(rt.as_str());
            r.append(")");
            r
        },
        Expr::Grouped { expr } => {
            let inner = pretty_text(expr);
            let mut r = "(group ".to_owned();
            r.append(inner.as_str());
            r.append(")");
            r
        },
        Expr::Literal { value } => match value {
            Some(v) => v.to_text(),
            None => "unknown".to_owned(),
        },
    }
}

/// Prints an expression tree in its canonical parenthesized form.
pub struct Prettify<N> {
    expr: Expr<N>,
}

impl<N: Numeric> Prettify<N> {
    /// The tree this printer prints.
    pub closed spec fn tree(&self) -> Expr<N> {
        self.expr
    }

    pub fn new(expr: Expr<N>) -> (r: Self)
        ensures
            r.tree() == expr,
    {
        Prettify { expr }
    }

    /// The canonical text of the tree; there is no tree it fails on.
    pub fn pretty_print(&self) -> (r: String)
        ensures
            number_free(self.tree()) ==> r@ == pretty(self.tree()),
            deterministic::<N>() ==> r@ == pretty(self.tree()),
    {
        pretty_text(&self.expr)
    }
}

/// Evaluates an expression tree.
pub struct Evaluation<N> {
    expr: Expr<N>,
}

impl<N: Numeric> Evaluation<N> {
    /// The tree this evaluator evaluates.
    pub closed spec fn tree(&self) -> Expr<N> {
        self.expr
    }

    pub fn new(expr: Expr<N>) -> (r: Self)
        ensures
            r.tree() == expr,
    {
        Evaluation { expr }
    }

    /// The value of the tree, or the first runtime error met.
    pub fn interpret(&self) -> (r: Result<LiteralValue<N>, RuntimeError<N>>)
        ensures
            results_agree(result_view(r), eval(self.tree())),
            number_free(self.tree()) ==> result_view(r) == eval(self.tree()),
            deterministic::<N>() ==> result_view(r) == eval(self.tree()),
    {
        evaluate(&self.expr)
    }
}

} // verus!
