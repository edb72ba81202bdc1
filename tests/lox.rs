use lox_expr::{
    run, Evaluation, Expr, LiteralValue, LoxError, Numeric, ParseErrorKind, Parser, Prettify,
    RuntimeError, ScanErrorKind, Scanner, Token, TokenType, ValueKind,
};

/// IEEE-754 doubles, as the language's numbers.
#[derive(Clone, Copy, Debug, PartialEq)]
struct Double(f64);

impl Numeric for Double {
    fn from_lexeme(text: &str) -> Self {
        Double(text.parse().unwrap())
    }
    fn negate(&self) -> Self {
        Double(-self.0)
    }
    fn plus(&self, other: &Self) -> Self {
        Double(self.0 + other.0)
    }
    fn minus(&self, other: &Self) -> Self {
        Double(self.0 - other.0)
    }
    fn times(&self, other: &Self) -> Self {
        Double(self.0 * other.0)
    }
    fn divided_by(&self, other: &Self) -> Self {
        Double(self.0 / other.0)
    }
    fn less_than(&self, other: &Self) -> bool {
        self.0 < other.0
    }
    fn less_or_equal(&self, other: &Self) -> bool {
        self.0 <= other.0
    }
    fn greater_than(&self, other: &Self) -> bool {
        self.0 > other.0
    }
    fn greater_or_equal(&self, other: &Self) -> bool {
        self.0 >= other.0
    }
    fn equal_to(&self, other: &Self) -> bool {
        self.0 == other.0
    }
    fn to_text(&self) -> String {
        format!("{}", self.0)
    }
}

fn scan(source: &str) -> (Vec<Token<Double>>, Vec<lox_expr::ScanError>) {
    let mut scanner: Scanner<Double> = Scanner::new(source.to_string());
    let tokens = scanner.scan_tokens();
    (tokens, scanner.errors().clone())
}

fn parse(source: &str) -> Expr<Double> {
    let (tokens, _) = scan(source);
    let mut parser = Parser::new(tokens);
    match parser.parse() {
        Ok(tree) => tree,
        Err(e) => panic!("parse error at {:?}", e.token.lexeme),
    }
}

fn evaluate(source: &str) -> LiteralValue<Double> {
    match Evaluation::new(parse(source)).interpret() {
        Ok(v) => v,
        Err(_) => panic!("runtime error"),
    }
}

fn pretty(source: &str) -> String {
    Prettify::new(parse(source)).pretty_print()
}

fn number(v: &LiteralValue<Double>) -> f64 {
    match v {
        LiteralValue::Number(n) => n.0,
        _ => panic!("not a number"),
    }
}

#[test]
fn test_scanner_simple() {
    let input = "123 + 456";
    let mut scanner: Scanner<Double> = Scanner::new(input.to_string());
    let tokens = scanner.scan_tokens();

    assert_eq!(tokens.len(), 4);
    assert_eq!(tokens[0].ttype, TokenType::Number);
    if let Some(LiteralValue::Number(n)) = tokens[0].literal {
        assert_eq!(n.0, 123.0);
    }
    assert_eq!(tokens[1].ttype, TokenType::Plus);
    assert_eq!(tokens[2].ttype, TokenType::Number);
    if let Some(LiteralValue::Number(n)) = tokens[2].literal {
        assert_eq!(n.0, 456.0);
    }
    assert_eq!(tokens[3].ttype, TokenType::EOF);
}

#[test]
fn test_scanner() {
    let source = r#"
            // This is a comment
            var x = 3.14;
            var y = "Hello, world!";
            if (x <= 3.14) {
                print y;
            } else {
                print "x is greater than pi";
            }
        "#;

    let (tokens, _) = scan(source);
    let expected = vec![
        (TokenType::Var, "var", 3),
        (TokenType::Identifier, "x", 3),
        (TokenType::Equal, "=", 3),
        (TokenType::Number, "3.14", 3),
        (TokenType::Semicolon, ";", 3),
        (TokenType::Var, "var", 4),
        (TokenType::Identifier, "y", 4),
        (TokenType::Equal, "=", 4),
        (TokenType::String, "Hello, world!", 4),
        (TokenType::Semicolon, ";", 4),
        (TokenType::If, "if", 5),
        (TokenType::LeftParen, "(", 5),
        (TokenType::Identifier, "x", 5),
        (TokenType::LessEqual, "<=", 5),
        (TokenType::Number, "3.14", 5),
        (TokenType::RightParen, ")", 5),
        (TokenType::LeftBrace, "{", 5),
        (TokenType::Print, "print", 6),
        (TokenType::Identifier, "y", 6),
        (TokenType::Semicolon, ";", 6),
        (TokenType::RightBrace, "}", 7),
        (TokenType::Else, "else", 7),
        (TokenType::LeftBrace, "{", 7),
        (TokenType::Print, "print", 8),
        (TokenType::String, "x is greater than pi", 8),
        (TokenType::Semicolon, ";", 8),
        (TokenType::RightBrace, "}", 9),
        (TokenType::EOF, "", 10),
    ];

    assert_eq!(tokens.len(), expected.len());
    for (i, t) in tokens.iter().enumerate() {
        assert_eq!(t.ttype, expected[i].0);
        assert_eq!(t.lexeme, expected[i].1);
        assert_eq!(t.line, expected[i].2);
    }
}

#[test]
fn numeral_scans_to_one_number_token() {
    for text in ["0", "42", "3.14", "007.50"] {
        let (tokens, errors) = scan(text);
        assert!(errors.is_empty());
        assert_eq!(tokens.len(), 2);
        assert_eq!(tokens[0].ttype, TokenType::Number);
        assert_eq!(tokens[0].lexeme, text);
        match tokens[0].literal {
            Some(LiteralValue::Number(n)) => assert_eq!(n.0, text.parse::<f64>().unwrap()),
            _ => panic!("no number literal"),
        }
        assert_eq!(tokens[1].ttype, TokenType::EOF);
    }
}

#[test]
fn trailing_dot_is_a_separate_token() {
    let (tokens, _) = scan("3.");
    assert_eq!(tokens.len(), 3);
    assert_eq!(tokens[0].ttype, TokenType::Number);
    assert_eq!(tokens[0].lexeme, "3");
    assert_eq!(tokens[1].ttype, TokenType::Dot);
    assert_eq!(tokens[2].ttype, TokenType::EOF);
}

#[test]
fn multiplication_binds_tighter_than_addition() {
    assert_eq!(number(&evaluate("1 + 2 * 3")), 7.0);
    assert_eq!(pretty("1 + 2 * 3"), "(+ 1 (* 2 3))");
}

#[test]
fn subtraction_is_left_associative() {
    assert_eq!(number(&evaluate("8 - 3 - 2")), 3.0);
    assert_eq!(pretty("8 - 3 - 2"), "(- (- 8 3) 2)");
}

#[test]
fn grouping_overrides_precedence() {
    assert_eq!(number(&evaluate("(1 + 2) * 3")), 9.0);
    assert_eq!(pretty("(1 + 2) * 3"), "(* (group (+ 1 2)) 3)");
}

#[test]
fn strings_concatenate() {
    match evaluate("\"foo\" + \"bar\"") {
        LiteralValue::String(s) => assert_eq!(s, "foobar"),
        _ => panic!("not a string"),
    }
    assert_eq!(run::<Double>("\"foo\" + \"bar\"").1.ok(), Some("\"foobar\"".to_string()));
}

#[test]
fn type_error_is_reported() {
    match Evaluation::new(parse("\"foo\" - 1")).interpret() {
        Err(RuntimeError::BinaryOperands { op, left, right }) => {
            assert_eq!(op.ttype, TokenType::Minus);
            assert_eq!(left, ValueKind::String);
            assert_eq!(right, ValueKind::Number);
        }
        _ => panic!("expected a type error"),
    }
    assert!(matches!(run::<Double>("\"foo\" - 1").1, Err(LoxError::Runtime(_))));
}

#[test]
fn unary_operand_type_error() {
    match Evaluation::new(parse("-true")).interpret() {
        Err(RuntimeError::UnaryOperand { op, operand }) => {
            assert_eq!(op.ttype, TokenType::Minus);
            assert_eq!(operand, ValueKind::Boolean);
        }
        _ => panic!("expected a type error"),
    }
    assert!(matches!(
        Evaluation::new(parse("!1")).interpret(),
        Err(RuntimeError::UnaryOperand { operand: ValueKind::Number, .. })
    ));
}

#[test]
fn equality_across_kinds_is_an_error() {
    assert!(matches!(
        Evaluation::new(parse("1 == \"1\"")).interpret(),
        Err(RuntimeError::BinaryOperands { left: ValueKind::Number, right: ValueKind::String, .. })
    ));
}

#[test]
fn equality_within_kinds() {
    assert!(matches!(evaluate("nil == nil"), LiteralValue::Boolean(true)));
    assert!(matches!(evaluate("nil != nil"), LiteralValue::Boolean(false)));
    assert!(matches!(evaluate("true == false"), LiteralValue::Boolean(false)));
    assert!(matches!(evaluate("\"a\" != \"b\""), LiteralValue::Boolean(true)));
    assert!(matches!(evaluate("2 == 2.0"), LiteralValue::Boolean(true)));
    assert!(matches!(evaluate("1 <= 2 == true"), LiteralValue::Boolean(true)));
}

#[test]
fn comparisons() {
    assert!(matches!(evaluate("1 < 2"), LiteralValue::Boolean(true)));
    assert!(matches!(evaluate("2 <= 2"), LiteralValue::Boolean(true)));
    assert!(matches!(evaluate("1 > 2"), LiteralValue::Boolean(false)));
    assert!(matches!(evaluate("1 >= 2"), LiteralValue::Boolean(false)));
}

#[test]
fn unary_operators_nest() {
    assert_eq!(number(&evaluate("- - 1")), 1.0);
    assert_eq!(pretty("- - 1"), "(- (- 1))");
    assert!(matches!(evaluate("!true"), LiteralValue::Boolean(false)));
    assert_eq!(pretty("!false"), "(! false)");
}

#[test]
fn division_by_zero_follows_floating_point() {
    assert_eq!(number(&evaluate("1 / 0")), f64::INFINITY);
    assert!(number(&evaluate("0 / 0")).is_nan());
    assert_eq!(run::<Double>("7 / 2").1.ok(), Some("3.5".to_string()));
}

#[test]
fn unterminated_string_is_a_diagnostic() {
    let (tokens, errors) = scan("\"abc");
    assert!(!errors.is_empty());
    assert_eq!(errors[0].kind, ScanErrorKind::UnterminatedString);
    assert!(tokens.iter().all(|t| t.ttype != TokenType::String));
    assert_eq!(tokens.len(), 1);
    assert_eq!(tokens[0].ttype, TokenType::EOF);
}

#[test]
fn unexpected_character_is_skipped() {
    let (tokens, errors) = scan("1 @ 2");
    assert_eq!(errors.len(), 1);
    assert_eq!(errors[0].kind, ScanErrorKind::UnexpectedCharacter('@'));
    assert_eq!(errors[0].line, 1);
    assert_eq!(tokens.len(), 3);
}

#[test]
fn empty_input_gives_only_end_of_input() {
    let (tokens, errors) = scan("");
    assert!(errors.is_empty());
    assert_eq!(tokens.len(), 1);
    assert_eq!(tokens[0].ttype, TokenType::EOF);
    assert_eq!(tokens[0].lexeme, "");
    assert_eq!(tokens[0].line, 1);
}

#[test]
fn every_scan_ends_with_one_end_of_input() {
    for source in ["", "(", "1 + 2", "// only a comment", "\"open", "a\nb\n"] {
        let (tokens, _) = scan(source);
        assert_eq!(tokens.last().unwrap().ttype, TokenType::EOF);
        assert_eq!(tokens.iter().filter(|t| t.ttype == TokenType::EOF).count(), 1);
    }
}

#[test]
fn newline_after_a_comment_counts() {
    let (tokens, _) = scan("1 // c\n2 / 3");
    let kinds: Vec<TokenType> = tokens.iter().map(|t| t.ttype).collect();
    assert_eq!(
        kinds,
        vec![TokenType::Number, TokenType::Number, TokenType::Slash, TokenType::Number, TokenType::EOF]
    );
    assert_eq!(tokens[0].line, 1);
    assert_eq!(tokens[1].line, 2);
    assert_eq!(tokens[4].line, 2);
}

#[test]
fn two_character_operators() {
    let (tokens, _) = scan("! != = == > >= < <= /");
    let kinds: Vec<TokenType> = tokens.iter().map(|t| t.ttype).collect();
    assert_eq!(
        kinds,
        vec![
            TokenType::Bang,
            TokenType::BangEqual,
            TokenType::Equal,
            TokenType::EqualEqual,
            TokenType::Greater,
            TokenType::GreaterEqual,
            TokenType::Less,
            TokenType::LessEqual,
            TokenType::Slash,
            TokenType::EOF,
        ]
    );
}

#[test]
fn keywords_carry_literals() {
    let (tokens, _) = scan("true false nil and orchid");
    assert!(matches!(tokens[0].literal, Some(LiteralValue::Boolean(true))));
    assert!(matches!(tokens[1].literal, Some(LiteralValue::Boolean(false))));
    assert!(matches!(tokens[2].literal, Some(LiteralValue::Nil)));
    assert_eq!(tokens[3].ttype, TokenType::And);
    assert!(tokens[3].literal.is_none());
    assert_eq!(tokens[4].ttype, TokenType::Identifier);
    assert_eq!(tokens[4].lexeme, "orchid");
}

#[test]
fn identifiers_take_letters_and_digits_of_any_script() {
    let (tokens, errors) = scan("été2 x٣ 9a");
    assert!(errors.is_empty());
    assert_eq!(tokens[0].ttype, TokenType::Identifier);
    assert_eq!(tokens[0].lexeme, "été2");
    assert_eq!(tokens[1].lexeme, "x٣");
    assert_eq!(tokens[2].ttype, TokenType::Number);
    assert_eq!(tokens[2].lexeme, "9");
    assert_eq!(tokens[3].ttype, TokenType::Identifier);
    assert_eq!(tokens[3].lexeme, "a");
}

#[test]
fn strings_span_lines() {
    let (tokens, _) = scan("\"a\nb\" 1");
    assert_eq!(tokens[0].ttype, TokenType::String);
    assert_eq!(tokens[0].lexeme, "a\nb");
    assert_eq!(tokens[0].line, 1);
    assert_eq!(tokens[1].line, 2);
}

#[test]
fn missing_right_paren_is_a_parse_error() {
    let (tokens, _) = scan("(1 + 2");
    match Parser::new(tokens).parse() {
        Err(e) => {
            assert_eq!(e.kind, ParseErrorKind::MissingRightParen);
            assert_eq!(e.token.ttype, TokenType::EOF);
        }
        Ok(_) => panic!("expected a parse error"),
    }
}

#[test]
fn unexpected_token_is_a_parse_error() {
    let (tokens, _) = scan("1 + ;");
    match Parser::new(tokens).parse() {
        Err(e) => {
            assert_eq!(e.kind, ParseErrorKind::UnexpectedToken);
            assert_eq!(e.token.ttype, TokenType::Semicolon);
            assert_eq!(e.token.line, 1);
        }
        Ok(_) => panic!("expected a parse error"),
    }
    assert!(matches!(run::<Double>("").1, Err(LoxError::Parse(_))));
}

#[test]
fn pretty_printing_is_total() {
    for source in ["1", "\"s\"", "nil", "-(1 + 2) * 3 == 4 != true", "\"a\" + 1"] {
        let _ = pretty(source);
    }
    assert_eq!(pretty("\"s\""), "\"s\"");
    assert_eq!(pretty("1.50"), "1.5");
    let missing: Expr<Double> = Expr::Literal { value: None };
    assert_eq!(Prettify::new(missing).pretty_print(), "unknown");
    let missing: Expr<Double> = Expr::Literal { value: None };
    assert!(matches!(Evaluation::new(missing).interpret(), Ok(LiteralValue::Nil)));
}

#[test]
fn run_reports_value_text_and_diagnostics() {
    let (errors, result) = run::<Double>("1 + 2 # 3");
    assert_eq!(errors.len(), 1);
    assert_eq!(result.ok(), Some("3".to_string()));
    assert_eq!(run::<Double>("true").1.ok(), Some("true".to_string()));
    assert_eq!(run::<Double>("nil").1.ok(), Some("nil".to_string()));
}
