//! The number representation that the language computes with.
use vstd::prelude::*;

verus! {

/// An ASCII decimal digit (what `char::is_digit(10)` accepts).
pub open spec fn is_digit(c: char) -> bool {
    '0' <= c && c <= '9'
}

pub open spec fn all_digits(s: Seq<char>) -> bool {
    forall|i: int| 0 <= i < s.len() ==> is_digit(#[trigger] s[i])
}

/// The text of a number literal: one or more digits, optionally followed by
/// a `.` and one or more digits.
pub open spec fn is_number_lexeme(s: Seq<char>) -> bool {
    ||| (s.len() > 0 && all_digits(s))
    ||| exists|k: int|
        0 < k < s.len() - 1 && #[trigger] s[k] == '.' && all_digits(s.subrange(0, k))
            && all_digits(s.subrange(k + 1, s.len() as int))
}

/// The numbers of the language. The scanner, parser, evaluator and printer
/// are generic over this trait; an implementation supplies the arithmetic
/// (for instance IEEE-754 doubles). Nothing is assumed of what the methods
/// return: contracts speak of it through `call_ensures`, that is, of the
/// values that each method may give on its arguments.
pub trait Numeric: Sized + Copy {
    /// The number that a numeral denotes.
    fn from_lexeme(text: &str) -> Self
        requires
            is_number_lexeme(text@),
    ;

    fn negate(&self) -> Self;

    fn plus(&self, other: &Self) -> Self;

    fn minus(&self, other: &Self) -> Self;

    fn times(&self, other: &Self) -> Self;

    fn divided_by(&self, other: &Self) -> Self;

    fn less_than(&self, other: &Self) -> bool;

    fn less_or_equal(&self, other: &Self) -> bool;

    fn greater_than(&self, other: &Self) -> bool;

    fn greater_or_equal(&self, other: &Self) -> bool;

    fn equal_to(&self, other: &Self) -> bool;

    /// The canonical text of a number.
    fn to_text(&self) -> String;
}

/// `n` is a number that `from_lexeme` gives for the numeral `s`.
pub open spec fn denotes<N: Numeric>(s: Seq<char>, n: N) -> bool {
    exists|x: &str| x@ == s && #[trigger] call_ensures(N::from_lexeme, (x,), n)
}

/// `t` is a text that `to_text` gives for `n`.
pub open spec fn number_text<N: Numeric>(n: N, t: Seq<char>) -> bool {
    exists|x: String| x@ == t && #[trigger] call_ensures(N::to_text, (&n,), x)
}

/// The number that `negate` gives.
pub open spec fn negation<N: Numeric>(a: N) -> N {
    choose|r: N| call_ensures(N::negate, (&a,), r)
}

/// The number that `plus` gives.
pub open spec fn sum<N: Numeric>(a: N, b: N) -> N {
    choose|r: N| call_ensures(N::plus, (&a, &b), r)
}

/// The number that `minus` gives.
pub open spec fn difference<N: Numeric>(a: N, b: N) -> N {
    choose|r: N| call_ensures(N::minus, (&a, &b), r)
}

/// The number that `times` gives.
pub open spec fn product<N: Numeric>(a: N, b: N) -> N {
    choose|r: N| call_ensures(N::times, (&a, &b), r)
}

/// The number that `divided_by` gives.
pub open spec fn quotient<N: Numeric>(a: N, b: N) -> N {
    choose|r: N| call_ensures(N::divided_by, (&a, &b), r)
}

/// What `less_than` gives.
pub open spec fn is_less<N: Numeric>(a: N, b: N) -> bool {
    choose|r: bool| call_ensures(N::less_than, (&a, &b), r)
}

/// What `less_or_equal` gives.
pub open spec fn is_less_or_equal<N: Numeric>(a: N, b: N) -> bool {
    choose|r: bool| call_ensures(N::less_or_equal, (&a, &b), r)
}

/// What `greater_than` gives.
pub open spec fn is_greater<N: Numeric>(a: N, b: N) -> bool {
    choose|r: bool| call_ensures(N::greater_than, (&a, &b), r)
}

/// What `greater_or_equal` gives.
pub open spec fn is_greater_or_equal<N: Numeric>(a: N, b: N) -> bool {
    choose|r: bool| call_ensures(N::greater_or_equal, (&a, &b), r)
}

/// What `equal_to` gives.
pub open spec fn is_equal<N: Numeric>(a: N, b: N) -> bool {
    choose|r: bool| call_ensures(N::equal_to, (&a, &b), r)
}

/// The text that `to_text` gives.
pub open spec fn text_of<N: Numeric>(n: N) -> Seq<char> {
    choose|t: Seq<char>| number_text(n, t)
}

/// Each operation of the number type gives one result for given operands,
/// as IEEE-754 arithmetic does. The evaluator and the printer are exact on
/// number types of which this holds.
pub open spec fn deterministic<N: Numeric>() -> bool {
    &&& forall|a: N, x: N, y: N|
        #![trigger call_ensures(N::negate, (&a,), x), call_ensures(N::negate, (&a,), y)]
        call_ensures(N::negate, (&a,), x) && call_ensures(N::negate, (&a,), y) ==> x == y
    &&& forall|a: N, b: N, x: N, y: N|
        #![trigger call_ensures(N::plus, (&a, &b), x), call_ensures(N::plus, (&a, &b), y)]
        call_ensures(N::plus, (&a, &b), x) && call_ensures(N::plus, (&a, &b), y) ==> x == y
    &&& forall|a: N, b: N, x: N, y: N|
        #![trigger call_ensures(N::minus, (&a, &b), x), call_ensures(N::minus, (&a, &b), y)]
        call_ensures(N::minus, (&a, &b), x) && call_ensures(N::minus, (&a, &b), y) ==> x == y
    &&& forall|a: N, b: N, x: N, y: N|
        #![trigger call_ensures(N::times, (&a, &b), x), call_ensures(N::times, (&a, &b), y)]
        call_ensures(N::times, (&a, &b), x) && call_ensures(N::times, (&a, &b), y) ==> x == y
    &&& forall|a: N, b: N, x: N, y: N|
        #![trigger call_ensures(N::divided_by, (&a, &b), x), call_ensures(N::divided_by, (&a, &b), y)]
        call_ensures(N::divided_by, (&a, &b), x) && call_ensures(N::divided_by, (&a, &b), y) ==> x == y
    &&& forall|a: N, b: N, x: bool, y: bool|
        #![trigger call_ensures(N::less_than, (&a, &b), x), call_ensures(N::less_than, (&a, &b), y)]
        call_ensures(N::less_than, (&a, &b), x) && call_ensures(N::less_than, (&a, &b), y) ==> x == y
    &&& forall|a: N, b: N, x: bool, y: bool|
        #![trigger call_ensures(N::less_or_equal, (&a, &b), x), call_ensures(N::less_or_equal, (&a, &b), y)]
        call_ensures(N::less_or_equal, (&a, &b), x) && call_ensures(N::less_or_equal, (&a, &b), y)
            ==> x == y
    &&& forall|a: N, b: N, x: bool, y: bool|
        #![trigger call_ensures(N::greater_than, (&a, &b), x), call_ensures(N::greater_than, (&a, &b), y)]
        call_ensures(N::greater_than, (&a, &b), x) && call_ensures(N::greater_than, (&a, &b), y) ==> x
            == y
    &&& forall|a: N, b: N, x: bool, y: bool|
        #![trigger call_ensures(N::greater_or_equal, (&a, &b), x), call_ensures(N::greater_or_equal, (&a, &b), y)]
        call_ensures(N::greater_or_equal, (&a, &b), x) && call_ensures(
            N::greater_or_equal,
            (&a, &b),
            y,
        ) ==> x == y
    &&& forall|a: N, b: N, x: bool, y: bool|
        #![trigger call_ensures(N::equal_to, (&a, &b), x), call_ensures(N::equal_to, (&a, &b), y)]
        call_ensures(N::equal_to, (&a, &b), x) && call_ensures(N::equal_to, (&a, &b), y) ==> x == y
    &&& forall|a: N, x: String, y: String|
        #![trigger call_ensures(N::to_text, (&a,), x), call_ensures(N::to_text, (&a,), y)]
        call_ensures(N::to_text, (&a,), x) && call_ensures(N::to_text, (&a,), y) ==> x@ == y@
}

} // verus!
