//! The scanner: source text to tokens, in one left-to-right pass.
use crate::number::{all_digits, denotes, is_digit, is_number_lexeme, Numeric};
use crate::token::{literal_view, token_views, LiteralValue, Token, TokenType, TokenView, Value};
use vstd::prelude::*;

verus! {

/// Whether a character has the Unicode `Alphabetic` property.
pub uninterp spec fn alphabetic(c: char) -> bool;

/// Whether a character is in one of the Unicode numeric categories.
pub uninterp spec fn numeric(c: char) -> bool;

/// Relies on `char::is_alphabetic`, which tells letters of any script.
#[verifier::external_body]
fn is_alphabetic(c: char) -> (r: bool)
    ensures
        r == alphabetic(c),
{
    c.is_alphabetic()
}

/// Relies on `char::is_numeric`, which tells digits and numerals of any script.
#[verifier::external_body]
fn is_numeric(c: char) -> (r: bool)
    ensures
        r == numeric(c),
{
    c.is_numeric()
}

/// A character that may continue an identifier (`char::is_alphanumeric`).
pub open spec fn alphanumeric(c: char) -> bool {
    alphabetic(c) || numeric(c)
}

/// What went wrong while scanning; scanning goes on after each of these.
#[derive(Clone, Copy, Debug, PartialEq, Eq, Structural)]
pub enum ScanErrorKind {
    UnexpectedCharacter(char),
    UnterminatedString,
}

/// A lexical diagnostic and the line it was found on.
#[derive(Clone, Copy, Debug, PartialEq, Eq, Structural)]
pub struct ScanError {
    pub line: usize,
    pub kind: ScanErrorKind,
}

/// The character at `i`, or `'\0'` past the end.
pub open spec fn char_at(src: Seq<char>, i: int) -> char {
    if 0 <= i < src.len() {
        src[i]
    } else {
        '\0'
    }
}

pub open spec fn single_char_kind(c: char) -> Option<TokenType> {
    if c == '(' {
        Some(TokenType::LeftParen)
    } else if c == ')' {
        Some(TokenType::RightParen)
    } else if c == '{' {
        Some(TokenType::LeftBrace)
    } else if c == '}' {
        Some(TokenType::RightBrace)
    } else if c == ',' {
        Some(TokenType::Comma)
    } else if c == '.' {
        Some(TokenType::Dot)
    } else if c == '-' {
        Some(TokenType::Minus)
    } else if c == '+' {
        Some(TokenType::Plus)
    } else if c == ';' {
        Some(TokenType::Semicolon)
    } else if c == '*' {
        Some(TokenType::Star)
    } else {
        None
    }
}

/// For `!`, `=`, `>` and `<`: the kind alone, and the kind when followed by `=`.
pub open spec fn equal_pair(c: char) -> Option<(TokenType, TokenType)> {
    if c == '!' {
        Some((TokenType::Bang, TokenType::BangEqual))
    } else if c == '=' {
        Some((TokenType::Equal, TokenType::EqualEqual))
    } else if c == '>' {
        Some((TokenType::Greater, TokenType::GreaterEqual))
    } else if c == '<' {
        Some((TokenType::Less, TokenType::LessEqual))
    } else {
        None
    }
}

/// The kind of a word: a keyword's own kind, else `Identifier`.
pub open spec fn keyword_kind(s: Seq<char>) -> TokenType {
    if s == "and"@ {
        TokenType::And
    } else if s == "class"@ {
        TokenType::Class
    } else if s == "else"@ {
        TokenType::Else
    } else if s == "false"@ {
        TokenType::False
    } else if s == "for"@ {
        TokenType::For
    } else if s == "fun"@ {
        TokenType::Fun
    } else if s == "if"@ {
        TokenType::If
    } else if s == "nil"@ {
        TokenType::Nil
    } else if s == "or"@ {
        TokenType::Or
    } else if s == "print"@ {
        TokenType::Print
    } else if s == "return"@ {
        TokenType::Return
    } else if s == "super"@ {
        TokenType::Super
    } else if s == "this"@ {
        TokenType::This
    } else if s == "true"@ {
        TokenType::True
    } else if s == "var"@ {
        TokenType::Var
    } else if s == "while"@ {
        TokenType::While
    } else {
        TokenType::Identifier
    }
}

/// The literal that a word of the given kind carries.
pub open spec fn keyword_literal<N>(kind: TokenType) -> Option<Value<N>> {
    match kind {
        TokenType::True => Some(Value::Boolean(true)),
        TokenType::False => Some(Value::Boolean(false)),
        TokenType::Nil => Some(Value::Nil),
        _ => None,
    }
}

/// The first index at or after `i` that holds a newline, or the length.
pub open spec fn line_end(src: Seq<char>, i: int) -> int
    decreases src.len() - i,
{
    if i >= src.len() {
        src.len() as int
    } else if src[i] == '\n' {
        i
    } else {
        line_end(src, i + 1)
    }
}

/// The first index at or after `i` that holds a `"`, or the length.
pub open spec fn quote_end(src: Seq<char>, i: int) -> int
    decreases src.len() - i,
{
    if i >= src.len() {
        src.len() as int
    } else if src[i] == '"' {
        i
    } else {
        quote_end(src, i + 1)
    }
}

/// The end of the run of decimal digits that starts at `i`.
pub open spec fn digits_end(src: Seq<char>, i: int) -> int
    decreases src.len() - i,
{
    if i >= src.len() {
        src.len() as int
    } else if is_digit(src[i]) {
        digits_end(src, i + 1)
    } else {
        i
    }
}

/// The end of the run of alphanumeric characters that starts at `i`.
pub open spec fn word_end(src: Seq<char>, i: int) -> int
    decreases src.len() - i,
{
    if i >= src.len() {
        src.len() as int
    } else if alphanumeric(src[i]) {
        word_end(src, i + 1)
    } else {
        i
    }
}

/// The end of the number literal that starts at `i`: digits, then `.` and
/// digits only where a digit follows the `.`.
pub open spec fn number_end(src: Seq<char>, i: int) -> int {
    let d = digits_end(src, i);
    if char_at(src, d) == '.' && is_digit(char_at(src, d + 1)) {
        digits_end(src, d + 1)
    } else {
        d
    }
}

/// The number of newlines in `src[a..b]`.
pub open spec fn newlines(src: Seq<char>, a: int, b: int) -> int
    decreases b - a,
{
    if a >= b {
        0
    } else {
        newlines(src, a, b - 1) + if src[b - 1] == '\n' {
            1int
        } else {
            0int
        }
    }
}

/// What one step of the scanner does at a position: where it goes on, the
/// line it is then on, and the token or diagnostic it records, if any.
pub struct Step<N> {
    pub next: int,
    pub line: int,
    pub token: Option<TokenView<N>>,
    pub error: Option<ScanError>,
}

pub open spec fn emit<N>(kind: TokenType, src: Seq<char>, start: int, end: int, line: int) -> Step<N> {
    Step {
        next: end,
        line,
        token: Some(TokenView { ttype: kind, lexeme: src.subrange(start, end), literal: None, line: line as nat }),
        error: None,
    }
}

pub open spec fn skip<N>(next: int, line: int) -> Step<N> {
    Step { next, line, token: None, error: None }
}

/// One step of the scanner at `pos`, on line `line`; `pos` is within `src`.
pub open spec fn step<N: Numeric>(src: Seq<char>, pos: int, line: int) -> Step<N> {
    let c = src[pos];
    if single_char_kind(c) is Some {
        emit(single_char_kind(c)->0, src, pos, pos + 1, line)
    } else if equal_pair(c) is Some {
        let (alone, with_equal) = equal_pair(c)->0;
        if char_at(src, pos + 1) == '=' {
            emit(with_equal, src, pos, pos + 2, line)
        } else {
            emit(alone, src, pos, pos + 1, line)
        }
    } else if c == '/' {
        if char_at(src, pos + 1) == '/' {
            skip(line_end(src, pos), line)
        } else {
            emit(TokenType::Slash, src, pos, pos + 1, line)
        }
    } else if c == '"' {
        let j = quote_end(src, pos + 1);
        let after = line + newlines(src, pos + 1, j);
        if j < src.len() {
            let text = src.subrange(pos + 1, j);
            Step {
                next: j + 1,
                line: after,
                token: Some(
                    TokenView {
                        ttype: TokenType::String,
                        lexeme: text,
                        literal: Some(Value::Str(text)),
                        line: line as nat,
                    },
                ),
                error: None,
            }
        } else {
            Step {
                next: j,
                line: after,
                token: None,
                error: Some(ScanError { line: after as usize, kind: ScanErrorKind::UnterminatedString }),
            }
        }
    } else if c == ' ' || c == '\r' || c == '\t' {
        skip(pos + 1, line)
    } else if c == '\n' {
        skip(pos + 1, line + 1)
    } else if is_digit(c) {
        let e = number_end(src, pos);
        let text = src.subrange(pos, e);
        Step {
            next: e,
            line,
            token: Some(
                TokenView {
                    ttype: TokenType::Number,
                    lexeme: text,
                    literal: None,
                    line: line as nat,
                },
            ),
            error: None,
        }
    } else if alphabetic(c) {
        let e = word_end(src, pos);
        let text = src.subrange(pos, e);
        let kind = keyword_kind(text);
        Step {
            next: e,
            line,
            token: Some(
                TokenView { ttype: kind, lexeme: text, literal: keyword_literal(kind), line: line as nat },
            ),
            error: None,
        }
    } else {
        Step {
            next: pos + 1,
            line,
            token: None,
            error: Some(ScanError { line: line as usize, kind: ScanErrorKind::UnexpectedCharacter(c) }),
        }
    }
}

pub open spec fn push_opt<T>(s: Seq<T>, o: Option<T>) -> Seq<T> {
    match o {
        Some(t) => s.push(t),
        None => s,
    }
}

pub open spec fn option_seq<T>(o: Option<T>) -> Seq<T> {
    match o {
        Some(t) => seq![t],
        None => seq![],
    }
}

/// The tokens that scanning `src` from `pos` on line `line` records, before
/// the end-of-input token.
pub open spec fn tokens_from<N: Numeric>(src: Seq<char>, pos: int, line: int) -> Seq<TokenView<N>>
    decreases src.len() - pos,
{
    if pos < 0 || pos >= src.len() {
        seq![]
    } else {
        let s = step::<N>(src, pos, line);
        if s.next <= pos || s.next > src.len() {
            seq![]
        } else {
            option_seq(s.token) + tokens_from::<N>(src, s.next, s.line)
        }
    }
}

/// The diagnostics that scanning `src` from `pos` on line `line` reports.
pub open spec fn errors_from<N: Numeric>(src: Seq<char>, pos: int, line: int) -> Seq<ScanError>
    decreases src.len() - pos,
{
    if pos < 0 || pos >= src.len() {
        seq![]
    } else {
        let s = step::<N>(src, pos, line);
        if s.next <= pos || s.next > src.len() {
            seq![]
        } else {
            option_seq(s.error) + errors_from::<N>(src, s.next, s.line)
        }
    }
}

/// The line that scanning `src` from `pos` on line `line` ends on.
pub open spec fn final_line<N: Numeric>(src: Seq<char>, pos: int, line: int) -> int
    decreases src.len() - pos,
{
    if pos < 0 || pos >= src.len() {
        line
    } else {
        let s = step::<N>(src, pos, line);
        if s.next <= pos || s.next > src.len() {
            line
        } else {
            final_line::<N>(src, s.next, s.line)
        }
    }
}

pub open spec fn eof_token<N>(line: int) -> TokenView<N> {
    TokenView { ttype: TokenType::EOF, lexeme: seq![], literal: None, line: line as nat }
}

/// The whole token sequence of a source text: the tokens recognized, then
/// one end-of-input token.
pub open spec fn scan<N: Numeric>(src: Seq<char>) -> Seq<TokenView<N>> {
    tokens_from::<N>(src, 0, 1).push(eof_token(final_line::<N>(src, 0, 1)))
}

/// The diagnostics of scanning a whole source text.
pub open spec fn scan_errors<N: Numeric>(src: Seq<char>) -> Seq<ScanError> {
    errors_from::<N>(src, 0, 1)
}

/// Facts about `line_end`: where it stands and what lies before it.
proof fn lemma_line_end(src: Seq<char>, i: int)
    requires
        0 <= i <= src.len(),
    ensures
        i <= line_end(src, i) <= src.len(),
        line_end(src, i) < src.len() ==> src[line_end(src, i)] == '\n',
    decreases src.len() - i,
{
    if i < src.len() && src[i] != '\n' {
        lemma_line_end(src, i + 1);
    }
}

proof fn lemma_quote_end(src: Seq<char>, i: int)
    requires
        0 <= i <= src.len(),
    ensures
        i <= quote_end(src, i) <= src.len(),
        quote_end(src, i) < src.len() ==> src[quote_end(src, i)] == '"',
    decreases src.len() - i,
{
    if i < src.len() && src[i] != '"' {
        lemma_quote_end(src, i + 1);
    }
}

proof fn lemma_digits_end(src: Seq<char>, i: int)
    requires
        0 <= i <= src.len(),
    ensures
        i <= digits_end(src, i) <= src.len(),
        forall|k: int| i <= k < digits_end(src, i) ==> is_digit(#[trigger] src[k]),
        digits_end(src, i) < src.len() ==> !is_digit(src[digits_end(src, i)]),
    decreases src.len() - i,
{
    if i < src.len() && is_digit(src[i]) {
        lemma_digits_end(src, i + 1);
    }
}

proof fn lemma_word_end(src: Seq<char>, i: int)
    requires
        0 <= i <= src.len(),
    ensures
        i <= word_end(src, i) <= src.len(),
    decreases src.len() - i,
{
    if i < src.len() && alphanumeric(src[i]) {
        lemma_word_end(src, i + 1);
    }
}

proof fn lemma_newlines_bound(src: Seq<char>, a: int, b: int)
    requires
        a <= b,
    ensures
        0 <= newlines(src, a, b) <= b - a,
    decreases b - a,
{
    if a < b {
        lemma_newlines_bound(src, a, b - 1);
    }
}

/// The text of a number literal found by the scanner is a numeral.
proof fn lemma_number_lexeme(src: Seq<char>, i: int)
    requires
        0 <= i < src.len(),
        is_digit(src[i]),
    ensures
        i < number_end(src, i) <= src.len(),
        is_number_lexeme(src.subrange(i, number_end(src, i))),
{
    lemma_digits_end(src, i);
    let d = digits_end(src, i);
    if char_at(src, d) == '.' && is_digit(char_at(src, d + 1)) {
        lemma_digits_end(src, d + 1);
        let e = digits_end(src, d + 1);
        let t = src.subrange(i, e);
        let k = d - i;
        assert(t[k] == '.');
        assert(all_digits(t.subrange(0, k)));
        assert(all_digits(t.subrange(k + 1, t.len() as int)));
    } else {
        assert(all_digits(src.subrange(i, d)));
    }
}

proof fn lemma_push_opt<T>(a: Seq<T>, o: Option<T>, rest: Seq<T>)
    ensures
        push_opt(a, o) + rest == a + (option_seq(o) + rest),
{
    assert(push_opt(a, o) + rest =~= a + (option_seq(o) + rest));
}

/// Each step moves forward within the text, and counts at most one line per
/// character it passes.
pub proof fn lemma_step_progress<N: Numeric>(src: Seq<char>, pos: int, line: int)
    requires
        0 <= pos < src.len(),
    ensures
        pos < step::<N>(src, pos, line).next <= src.len(),
        line <= step::<N>(src, pos, line).line <= line + (step::<N>(src, pos, line).next - pos),
        step::<N>(src, pos, line).token is Some ==> step::<N>(src, pos, line).token->0.ttype
            != TokenType::EOF,
{
    let c = src[pos];
    lemma_line_end(src, pos);
    lemma_quote_end(src, pos + 1);
    lemma_newlines_bound(src, pos + 1, quote_end(src, pos + 1));
    if is_digit(c) {
        lemma_number_lexeme(src, pos);
    }
    lemma_word_end(src, pos + 1);
}

proof fn lemma_digits_run(src: Seq<char>, i: int, j: int)
    requires
        0 <= i <= j <= src.len(),
        forall|k: int| i <= k < j ==> is_digit(#[trigger] src[k]),
        j == src.len() || !is_digit(src[j]),
    ensures
        digits_end(src, i) == j,
    decreases j - i,
{
    if i < j {
        lemma_digits_run(src, i + 1, j);
    }
}

proof fn lemma_no_eof<N: Numeric>(src: Seq<char>, pos: int, line: int)
    ensures
        forall|k: int|
            0 <= k < tokens_from::<N>(src, pos, line).len() ==> (#[trigger] tokens_from::<N>(
                src,
                pos,
                line,
            )[k]).ttype != TokenType::EOF,
    decreases src.len() - pos,
{
    if 0 <= pos < src.len() {
        let st = step::<N>(src, pos, line);
        lemma_step_progress::<N>(src, pos, line);
        lemma_no_eof::<N>(src, st.next, st.line);
        let rest = tokens_from::<N>(src, st.next, st.line);
        assert forall|k: int| 0 <= k < tokens_from::<N>(src, pos, line).len() implies (
        #[trigger] tokens_from::<N>(src, pos, line)[k]).ttype != TokenType::EOF by {
            if st.token is Some && k > 0 {
                assert(tokens_from::<N>(src, pos, line)[k] == rest[k - 1]);
            }
        }
    }
}

/// Scanning any text, the empty one included, gives the tokens recognized
/// followed by exactly one end-of-input token, which comes last.
pub proof fn lemma_scan_ends_with_eof<N: Numeric>(src: Seq<char>)
    ensures
        scan::<N>(src).len() == tokens_from::<N>(src, 0, 1).len() + 1,
        scan::<N>(src).last().ttype == TokenType::EOF,
        scan::<N>(src).last().lexeme.len() == 0,
        forall|k: int| 0 <= k < scan::<N>(src).len() - 1 ==> (#[trigger] scan::<N>(src)[k]).ttype
            != TokenType::EOF,
        src.len() == 0 ==> scan::<N>(src) == seq![eof_token::<N>(1)],
{
    lemma_no_eof::<N>(src, 0, 1);
    let toks = tokens_from::<N>(src, 0, 1);
    assert forall|k: int| 0 <= k < scan::<N>(src).len() - 1 implies (
    #[trigger] scan::<N>(src)[k]).ttype != TokenType::EOF by {
        assert(scan::<N>(src)[k] == toks[k]);
    }
    if src.len() == 0 {
        assert(scan::<N>(src) =~= seq![eof_token::<N>(1)]);
    }
}

/// Scanning a numeral gives exactly one number token, whose lexeme is the
/// whole numeral, and no diagnostic. (Its value is one that the number type
/// gives for the numeral: `Scanner::scan_tokens` ensures that of every number
/// token.)
pub proof fn lemma_scan_numeral<N: Numeric>(s: Seq<char>)
    requires
        is_number_lexeme(s),
    ensures
        tokens_from::<N>(s, 0, 1) == seq![
            TokenView::<N> {
                ttype: TokenType::Number,
                lexeme: s,
                literal: None,
                line: 1,
            },
        ],
        errors_from::<N>(s, 0, 1) == Seq::<ScanError>::empty(),
        scan::<N>(s).len() == 2,
{
    if s.len() > 0 && all_digits(s) {
        assert(is_digit(s[0]));
        lemma_digits_run(s, 0, s.len() as int);
    } else {
        let k = choose|k: int|
            0 < k < s.len() - 1 && #[trigger] s[k] == '.' && all_digits(s.subrange(0, k))
                && all_digits(s.subrange(k + 1, s.len() as int));
        assert(is_digit(s.subrange(0, k)[0]));
        assert forall|j: int| 0 <= j < k implies is_digit(#[trigger] s[j]) by {
            assert(s.subrange(0, k)[j] == s[j]);
        }
        lemma_digits_run(s, 0, k);
        assert forall|j: int| k + 1 <= j < s.len() implies is_digit(#[trigger] s[j]) by {
            assert(s.subrange(k + 1, s.len() as int)[j - k - 1] == s[j]);
        }
        assert(is_digit(s.subrange(k + 1, s.len() as int)[0]));
        lemma_digits_run(s, k + 1, s.len() as int);
    }
    assert(s.subrange(0, s.len() as int) =~= s);
    let st = step::<N>(s, 0, 1);
    assert(st.next == s.len());
    assert(tokens_from::<N>(s, 0, 1) =~= option_seq(st.token) + tokens_from::<N>(s, st.next, st.line));
    assert(tokens_from::<N>(s, 0, 1) =~= seq![st.token->0]);
    assert(errors_from::<N>(s, 0, 1) =~= option_seq(st.error) + errors_from::<N>(s, st.next, st.line));
    assert(errors_from::<N>(s, 0, 1) =~= Seq::<ScanError>::empty());
}

/// A string literal that is never closed gives no token and one diagnostic:
/// scanning a text that starts with `"` and holds no other `"`.
pub proof fn lemma_scan_unterminated_string<N: Numeric>(src: Seq<char>)
    requires
        src.len() > 0,
        src[0] == '"',
        forall|i: int| 1 <= i < src.len() ==> src[i] != '"',
    ensures
        tokens_from::<N>(src, 0, 1) == Seq::<TokenView<N>>::empty(),
        errors_from::<N>(src, 0, 1) == seq![
            ScanError { line: (1 + newlines(src, 1, src.len() as int)) as usize, kind: ScanErrorKind::UnterminatedString },
        ],
{
    lemma_no_quote(src, 1);
    lemma_newlines_bound(src, 1, src.len() as int);
    let st = step::<N>(src, 0, 1);
    assert(st.next == src.len());
    assert(tokens_from::<N>(src, 0, 1) =~= option_seq(st.token) + tokens_from::<N>(src, st.next, st.line));
    assert(errors_from::<N>(src, 0, 1) =~= option_seq(st.error) + errors_from::<N>(src, st.next, st.line));
}

proof fn lemma_no_quote(src: Seq<char>, i: int)
    requires
        0 <= i <= src.len(),
        forall|k: int| i <= k < src.len() ==> src[k] != '"',
    ensures
        quote_end(src, i) == src.len(),
    decreases src.len() - i,
{
    if i < src.len() {
        lemma_no_quote(src, i + 1);
    }
}

/// Is `c` a decimal digit (`char::is_digit(10)`).
fn is_decimal_digit(c: char) -> (r: bool)
    ensures
        r == is_digit(c),
{
    '0' <= c && c <= '9'
}

fn is_alphanumeric(c: char) -> (r: bool)
    ensures
        r == alphanumeric(c),
{
    is_alphabetic(c) || is_numeric(c)
}

/// Whether two strings hold the same characters.
fn same_text(a: &str, b: &str) -> (r: bool)
    ensures
        r == (a@ == b@),
{
    let n = a.unicode_len();
    if n != b.unicode_len() {
        return false;
    }
    let mut i: usize = 0;
    while i < n
        invariant
            n == a@.len(),
            n == b@.len(),
            i <= n,
            forall|k: int| 0 <= k < i ==> a@[k] == b@[k],
        decreases n - i,
    {
        if a.get_char(i) != b.get_char(i) {
            return false;
        }
        i = i + 1;
    }
    assert(a@ =~= b@);
    true
}

/// The kind of a word, and the literal that `true`, `false` and `nil` carry.
fn get_keyword_token<N: Numeric>(text: &str) -> (r: (TokenType, Option<LiteralValue<N>>))
    ensures
        r.0 == keyword_kind(text@),
        literal_view(r.1) == keyword_literal::<N>(r.0),
{
    if same_text(text, "and") {
        (TokenType::And, None)
    } else if same_text(text, "class") {
        (TokenType::Class, None)
    } else if same_text(text, "else") {
        (TokenType::Else, None)
    } else if same_text(text, "false") {
        (TokenType::False, Some(LiteralValue::Boolean(false)))
    } else if same_text(text, "for") {
        (TokenType::For, None)
    } else if same_text(text, "fun") {
        (TokenType::Fun, None)
    } else if same_text(text, "if") {
        (TokenType::If, None)
    } else if same_text(text, "nil") {
        (TokenType::Nil, Some(LiteralValue::Nil))
    } else if same_text(text, "or") {
        (TokenType::Or, None)
    } else if same_text(text, "print") {
        (TokenType::Print, None)
    } else if same_text(text, "return") {
        (TokenType::Return, None)
    } else if same_text(text, "super") {
        (TokenType::Super, None)
    } else if same_text(text, "this") {
        (TokenType::This, None)
    } else if same_text(text, "true") {
        (TokenType::True, Some(LiteralValue::Boolean(true)))
    } else if same_text(text, "var") {
        (TokenType::Var, None)
    } else if same_text(text, "while") {
        (TokenType::While, None)
    } else {
        (TokenType::Identifier, None)
    }
}

/// Each number token holds a value that the number type gives for its lexeme.
pub open spec fn numbers_denote<N: Numeric>(ts: Seq<Token<N>>) -> bool {
    forall|i: int|
        0 <= i < ts.len() && (#[trigger] ts[i]).ttype == TokenType::Number ==> match ts[i].literal {
            Some(LiteralValue::Number(n)) => denotes(ts[i].lexeme@, n),
            _ => false,
        }
}

/// A character that the scanner handles before it looks for digits and words.
pub open spec fn is_special(c: char) -> bool {
    ||| single_char_kind(c) is Some
    ||| equal_pair(c) is Some
    ||| c == '/'
    ||| c == '"'
    ||| c == ' '
    ||| c == '\r'
    ||| c == '\t'
    ||| c == '\n'
}

/// Turns source text into tokens, reporting what it cannot scan.
pub struct Scanner<N> {
    text: String,
    source: Vec<char>,
    tokens: Vec<Token<N>>,
    errors: Vec<ScanError>,
    cursor: usize,
    line: usize,
}

impl<N: Numeric> Scanner<N> {
    pub closed spec fn wf(&self) -> bool {
        &&& self.text@ == self.source@
        &&& self.source@.len() < usize::MAX
        &&& self.cursor <= self.source@.len()
        &&& 1 <= self.line <= self.cursor + 1
        &&& numbers_denote(self.tokens@)
    }

    /// The characters of the source text.
    pub closed spec fn chars(&self) -> Seq<char> {
        self.source@
    }

    /// How far the scan has gone, in characters.
    pub closed spec fn position(&self) -> int {
        self.cursor as int
    }

    /// The line the scan is on.
    pub closed spec fn current_line(&self) -> int {
        self.line as int
    }

    /// The tokens recorded so far.
    pub closed spec fn recorded(&self) -> Seq<TokenView<N>> {
        token_views(self.tokens@)
    }

    /// The diagnostics reported so far.
    pub closed spec fn reported(&self) -> Seq<ScanError> {
        self.errors@
    }

    /// `post` is this scanner after one step.
    closed spec fn stepped(self, post: Self) -> bool {
        let s = step::<N>(self.source@, self.cursor as int, self.line as int);
        &&& post.wf()
        &&& post.text == self.text
        &&& post.source@ == self.source@
        &&& post.cursor == s.next
        &&& post.line == s.line
        &&& token_views(post.tokens@) == push_opt(token_views(self.tokens@), s.token)
        &&& post.errors@ == push_opt(self.errors@, s.error)
    }

    /// A scanner at the start of `source`, on line 1.
    pub fn new(source: String) -> (r: Self)
        requires
            source@.len() < usize::MAX,
        ensures
            r.wf(),
            r.chars() == source@,
            r.position() == 0,
            r.current_line() == 1,
            r.recorded() == Seq::<TokenView<N>>::empty(),
            r.reported() == Seq::<ScanError>::empty(),
    {
        let n = source.as_str().unicode_len();
        let mut chars: Vec<char> = Vec::new();
        let mut i: usize = 0;
        while i < n
            invariant
                n == source@.len(),
                i <= n,
                chars@ == source@.subrange(0, i as int),
            decreases n - i,
        {
            chars.push(source.as_str().get_char(i));
            i = i + 1;
        }
        assert(chars@ =~= source@);
        let r = Scanner { text: source, source: chars, tokens: Vec::new(), errors: Vec::new(), cursor: 0, line: 1 };
        assert(token_views(r.tokens@) =~= Seq::<TokenView<N>>::empty());
        r
    }

    /// The diagnostics reported so far.
    pub fn errors(&self) -> (r: &Vec<ScanError>)
        ensures
            r@ == self.reported(),
    {
        &self.errors
    }

    fn finished(&self) -> (r: bool)
        ensures
            r == (self.cursor >= self.source@.len()),
    {
        self.cursor >= self.source.len()
    }

    fn current(&self) -> (r: char)
        ensures
            r == char_at(self.source@, self.cursor as int),
    {
        if self.finished() {
            return '\0';
        }
        self.source[self.cursor]
    }

    fn peek(&self) -> (r: char)
        requires
            self.wf(),
        ensures
            r == char_at(self.source@, self.cursor + 1),
    {
        if self.finished() || self.cursor + 1 >= self.source.len() {
            return '\0';
        }
        self.source[self.cursor + 1]
    }

    fn advance(&mut self)
        requires
            old(self).cursor < old(self).source@.len(),
            old(self).source@.len() < usize::MAX,
        ensures
            final(self).cursor == old(self).cursor + 1,
            final(self).line == old(self).line,
            final(self).text == old(self).text,
            final(self).source == old(self).source,
            final(self).tokens == old(self).tokens,
            final(self).errors == old(self).errors,
    {
        self.cursor = self.cursor + 1;
    }

    /// The source text from `start` to `end`.
    fn lexeme(&self, start: usize, end: usize) -> (r: String)
        requires
            self.wf(),
            start <= end <= self.source@.len(),
        ensures
            r@ == self.source@.subrange(start as int, end as int),
    {
        self.text.as_str().substring_char(start, end).to_owned()
    }

    fn add_token_with_literal(&mut self, ttype: TokenType, lexeme: String, literal: Option<LiteralValue<N>>)
        requires
            ttype == TokenType::Number ==> match literal {
                Some(LiteralValue::Number(n)) => denotes(lexeme@, n),
                _ => false,
            },
        ensures
            numbers_denote(old(self).tokens@) ==> numbers_denote(final(self).tokens@),
            token_views(final(self).tokens@) == token_views(old(self).tokens@).push(
                Token { ttype, lexeme, literal, line: old(self).line }@,
            ),
            final(self).cursor == old(self).cursor,
            final(self).line == old(self).line,
            final(self).text == old(self).text,
            final(self).source == old(self).source,
            final(self).errors == old(self).errors,
    {
        let line = self.line;
        let ghost before = self.tokens@;
        self.tokens.push(Token { ttype, lexeme, literal, line });
        assert(forall|i: int| 0 <= i < before.len() ==> self.tokens@[i] == before[i]);
        assert(token_views(self.tokens@) =~= token_views(old(self).tokens@).push(
            Token { ttype, lexeme, literal, line }@,
        ));
    }

    fn add_token(&mut self, ttype: TokenType, lexeme: String)
        requires
            ttype != TokenType::Number,
        ensures
            numbers_denote(old(self).tokens@) ==> numbers_denote(final(self).tokens@),
            token_views(final(self).tokens@) == token_views(old(self).tokens@).push(
                TokenView { ttype, lexeme: lexeme@, literal: None, line: old(self).line as nat },
            ),
            final(self).cursor == old(self).cursor,
            final(self).line == old(self).line,
            final(self).text == old(self).text,
            final(self).source == old(self).source,
            final(self).errors == old(self).errors,
    {
        self.add_token_with_literal(ttype, lexeme, None);
    }

    fn parse_single_char(&mut self, ttype: TokenType)
        requires
            old(self).wf(),
            old(self).cursor < old(self).source@.len(),
            single_char_kind(old(self).source@[old(self).cursor as int]) == Some(ttype),
        ensures
            old(self).stepped(*final(self)),
    {
        let start = self.cursor;
        self.advance();
        let lexeme = self.lexeme(start, self.cursor);
        self.add_token(ttype, lexeme);
    }

    /// `!`, `=`, `>` or `<`, alone or followed by `=`.
    fn parse_operator(&mut self, alone: TokenType, with_equal: TokenType)
        requires
            old(self).wf(),
            old(self).cursor < old(self).source@.len(),
            equal_pair(old(self).source@[old(self).cursor as int]) == Some((alone, with_equal)),
        ensures
            old(self).stepped(*final(self)),
    {
        let start = self.cursor;
        if self.peek() == '=' {
            self.advance();
            self.advance();
            let lexeme = self.lexeme(start, self.cursor);
            self.add_token(with_equal, lexeme);
        } else {
            self.advance();
            let lexeme = self.lexeme(start, self.cursor);
            self.add_token(alone, lexeme);
        }
    }

    /// `/`, or a comment that runs up to the end of the line; the newline
    /// that ends it is scanned as any other.
    fn parse_slash(&mut self)
        requires
            old(self).wf(),
            old(self).cursor < old(self).source@.len(),
            old(self).source@[old(self).cursor as int] == '/',
        ensures
            old(self).stepped(*final(self)),
    {
        if self.peek() == '/' {
            let ghost start = self.cursor as int;
            proof {
                lemma_line_end(self.source@, start);
            }
            while !self.finished() && self.current() != '\n'
                invariant
                    self.wf(),
                    start <= self.cursor,
                    self.text == old(self).text,
                    self.source == old(self).source,
                    self.line == old(self).line,
                    self.tokens == old(self).tokens,
                    self.errors == old(self).errors,
                    line_end(self.source@, start) == line_end(self.source@, self.cursor as int),
                decreases self.source@.len() - self.cursor,
            {
                self.advance();
            }
        } else {
            let start = self.cursor;
            self.advance();
            let lexeme = self.lexeme(start, self.cursor);
            self.add_token(TokenType::Slash, lexeme);
        }
    }

    fn parse_string(&mut self)
        requires
            old(self).wf(),
            old(self).cursor < old(self).source@.len(),
            old(self).source@[old(self).cursor as int] == '"',
        ensures
            old(self).stepped(*final(self)),
    {
        let start_line = self.line;
        let start = self.cursor + 1;
        self.advance();
        proof {
            lemma_quote_end(self.source@, start as int);
        }
        while !self.finished() && self.current() != '"'
            invariant
                self.text@ == self.source@,
                self.source@.len() < usize::MAX,
                start <= self.cursor <= self.source@.len(),
                self.text == old(self).text,
                self.source == old(self).source,
                self.tokens == old(self).tokens,
                self.errors == old(self).errors,
                self.line == start_line + newlines(self.source@, start as int, self.cursor as int),
                1 <= start_line <= start,
                quote_end(self.source@, start as int) == quote_end(self.source@, self.cursor as int),
            decreases self.source@.len() - self.cursor,
        {
            proof {
                lemma_newlines_bound(self.source@, start as int, self.cursor as int);
            }
            if self.current() == '\n' {
                self.line = self.line + 1;
            }
            self.advance();
        }
        proof {
            lemma_newlines_bound(self.source@, start as int, self.cursor as int);
        }
        if self.finished() {
            self.errors.push(ScanError { line: self.line, kind: ScanErrorKind::UnterminatedString });
            return ;
        }
        let value = self.lexeme(start, self.cursor);
        let lexeme = value.clone();
        let token = Token {
            ttype: TokenType::String,
            lexeme,
            literal: Some(LiteralValue::String(value)),
            line: start_line,
        };
        let ghost seen = token@;
        let ghost before = self.tokens@;
        self.tokens.push(token);
        assert(forall|i: int| 0 <= i < before.len() ==> self.tokens@[i] == before[i]);
        assert(token_views(self.tokens@) =~= token_views(old(self).tokens@).push(seen));
        self.advance();
    }

    fn parse_number(&mut self)
        requires
            old(self).wf(),
            old(self).cursor < old(self).source@.len(),
            is_digit(old(self).source@[old(self).cursor as int]),
        ensures
            old(self).stepped(*final(self)),
    {
        let start = self.cursor;
        proof {
            lemma_digits_end(self.source@, start as int);
            lemma_number_lexeme(self.source@, start as int);
        }
        while !self.finished() && is_decimal_digit(self.current())
            invariant
                self.wf(),
                start <= self.cursor,
                self.text == old(self).text,
                self.source == old(self).source,
                self.line == old(self).line,
                self.tokens == old(self).tokens,
                self.errors == old(self).errors,
                digits_end(self.source@, start as int) == digits_end(self.source@, self.cursor as int),
            decreases self.source@.len() - self.cursor,
        {
            self.advance();
        }
        if self.current() == '.' && is_decimal_digit(self.peek()) {
            self.advance();
            let ghost mid = self.cursor as int;
            proof {
                lemma_digits_end(self.source@, mid);
            }
            while !self.finished() && is_decimal_digit(self.current())
                invariant
                    self.wf(),
                    mid <= self.cursor,
                    self.text == old(self).text,
                    self.source == old(self).source,
                    self.line == old(self).line,
                    self.tokens == old(self).tokens,
                    self.errors == old(self).errors,
                    digits_end(self.source@, mid) == digits_end(self.source@, self.cursor as int),
                decreases self.source@.len() - self.cursor,
            {
                self.advance();
            }
        }
        let number = self.lexeme(start, self.cursor);
        let value = N::from_lexeme(number.as_str());
        assert(denotes(number@, value));
        self.add_token_with_literal(TokenType::Number, number, Some(LiteralValue::Number(value)));
    }

    fn parse_identifier(&mut self)
        requires
            old(self).wf(),
            old(self).cursor < old(self).source@.len(),
            !is_special(old(self).source@[old(self).cursor as int]),
            !is_digit(old(self).source@[old(self).cursor as int]),
            alphabetic(old(self).source@[old(self).cursor as int]),
        ensures
            old(self).stepped(*final(self)),
    {
        let start = self.cursor;
        proof {
            lemma_word_end(self.source@, start as int);
        }
        while !self.finished() && is_alphanumeric(self.current())
            invariant
                self.wf(),
                start <= self.cursor,
                self.text == old(self).text,
                self.source == old(self).source,
                self.line == old(self).line,
                self.tokens == old(self).tokens,
                self.errors == old(self).errors,
                word_end(self.source@, start as int) == word_end(self.source@, self.cursor as int),
            decreases self.source@.len() - self.cursor,
        {
            self.advance();
        }
        let text = self.lexeme(start, self.cursor);
        let (ttype, value) = get_keyword_token(text.as_str());
        self.add_token_with_literal(ttype, text, value);
    }
    /// Scans the rest of the source text: records a token for each lexeme
    /// recognized and a diagnostic for each character it cannot scan, then one
    /// end-of-input token; returns every token recorded.
    pub fn scan_tokens(&mut self) -> (r: Vec<Token<N>>)
        requires
            old(self).wf(),
        ensures
            final(self).wf(),
            final(self).chars() == old(self).chars(),
            token_views(r@) == final(self).recorded(),
            numbers_denote(r@),
            final(self).recorded() == (old(self).recorded() + tokens_from::<N>(
                old(self).chars(),
                old(self).position(),
                old(self).current_line(),
            )).push(
                eof_token(
                    final_line::<N>(old(self).chars(), old(self).position(), old(self).current_line()),
                ),
            ),
            final(self).reported() == old(self).reported() + errors_from::<N>(
                old(self).chars(),
                old(self).position(),
                old(self).current_line(),
            ),
    {
        let ghost src = self.source@;
        let ghost start = *self;
        while !self.finished()
            invariant
                self.wf(),
                self.source@ == src,
                token_views(self.tokens@) + tokens_from::<N>(src, self.cursor as int, self.line as int)
                    == token_views(start.tokens@) + tokens_from::<N>(
                    src,
                    start.cursor as int,
                    start.line as int,
                ),
                self.errors@ + errors_from::<N>(src, self.cursor as int, self.line as int)
                    == start.errors@ + errors_from::<N>(src, start.cursor as int, start.line as int),
                final_line::<N>(src, self.cursor as int, self.line as int) == final_line::<N>(
                    src,
                    start.cursor as int,
                    start.line as int,
                ),
            decreases src.len() - self.cursor,
        {
            let ghost pre = *self;
            let c = self.current();
            match c {
                '(' => self.parse_single_char(TokenType::LeftParen),
                ')' => self.parse_single_char(TokenType::RightParen),
                '{' => self.parse_single_char(TokenType::LeftBrace),
                '}' => self.parse_single_char(TokenType::RightBrace),
                ',' => self.parse_single_char(TokenType::Comma),
                '.' => self.parse_single_char(TokenType::Dot),
                '-' => self.parse_single_char(TokenType::Minus),
                '+' => self.parse_single_char(TokenType::Plus),
                ';' => self.parse_single_char(TokenType::Semicolon),
                '*' => self.parse_single_char(TokenType::Star),
                '!' => self.parse_operator(TokenType::Bang, TokenType::BangEqual),
                '=' => self.parse_operator(TokenType::Equal, TokenType::EqualEqual),
                '>' => self.parse_operator(TokenType::Greater, TokenType::GreaterEqual),
                '<' => self.parse_operator(TokenType::Less, TokenType::LessEqual),
                '/' => self.parse_slash(),
                '"' => self.parse_string(),
                ' ' | '\r' | '\t' => self.advance(),
                '\n' => {
                    self.advance();
                    self.line = self.line + 1;
                },
                c => {
                    if is_decimal_digit(c) {
                        self.parse_number();
                    } else if is_alphabetic(c) {
                        self.parse_identifier();
                    } else {
                        self.errors.push(
                            ScanError { line: self.line, kind: ScanErrorKind::UnexpectedCharacter(c) },
                        );
                        self.advance();
                    }
                },
            }
            proof {
                assert(pre.stepped(*self));
                lemma_step_progress::<N>(src, pre.cursor as int, pre.line as int);
                let st = step::<N>(src, pre.cursor as int, pre.line as int);
                lemma_push_opt(token_views(pre.tokens@), st.token, tokens_from::<N>(src, st.next, st.line));
                lemma_push_opt(pre.errors@, st.error, errors_from::<N>(src, st.next, st.line));
            }
        }
        assert(token_views(self.tokens@) =~= token_views(self.tokens@) + tokens_from::<N>(
            src,
            self.cursor as int,
            self.line as int,
        ));
        assert(self.errors@ =~= self.errors@ + errors_from::<N>(src, self.cursor as int, self.line as int));
        self.add_token(TokenType::EOF, String::new());
        let mut out: Vec<Token<N>> = Vec::new();
        let mut i: usize = 0;
        while i < self.tokens.len()
            invariant
                i <= self.tokens@.len(),
                out@ == self.tokens@.subrange(0, i as int),
            decreases self.tokens@.len() - i,
        {
            out.push(self.tokens[i].clone());
            i = i + 1;
        }
        assert(out@ =~= self.tokens@);
        out
    }
}

} // verus!
