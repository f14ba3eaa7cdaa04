use alox::error::error;
use alox::interpreter::{Arithmetic, Interpreter, RuntimeError, RuntimeErrorKind, Value};
use alox::parser::{Expr, Parser, SyntaxErrorKind};
use alox::run::run;
use alox::scanner::scan;
use alox::token::{Literal, Token, TokenType};

struct Float;

impl Arithmetic for Float {
    fn decode(&self, text: &str) -> u64 {
        text.parse::<f64>().unwrap().to_bits()
    }
    fn negate(&self, x: u64) -> u64 {
        (-f64::from_bits(x)).to_bits()
    }
    fn sum(&self, x: u64, y: u64) -> u64 {
        (f64::from_bits(x) + f64::from_bits(y)).to_bits()
    }
    fn difference(&self, x: u64, y: u64) -> u64 {
        (f64::from_bits(x) - f64::from_bits(y)).to_bits()
    }
    fn product(&self, x: u64, y: u64) -> u64 {
        (f64::from_bits(x) * f64::from_bits(y)).to_bits()
    }
    fn quotient(&self, x: u64, y: u64) -> u64 {
        (f64::from_bits(x) / f64::from_bits(y)).to_bits()
    }
    fn less(&self, x: u64, y: u64) -> bool {
        f64::from_bits(x) < f64::from_bits(y)
    }
    fn less_equal(&self, x: u64, y: u64) -> bool {
        f64::from_bits(x) <= f64::from_bits(y)
    }
    fn equal(&self, x: u64, y: u64) -> bool {
        f64::from_bits(x) == f64::from_bits(y)
    }
}

fn parse(src: &str) -> Expr {
    let (tree, lex, syntax) = run(src);
    assert!(lex.is_empty());
    assert!(syntax.is_empty());
    tree.expect("source should parse")
}

fn eval(src: &str) -> Result<Value, RuntimeError> {
    Interpreter::new().evaluate(&Float, &parse(src))
}

fn number(src: &str) -> f64 {
    match eval(src) {
        Ok(Value::Number(bits)) => f64::from_bits(bits),
        other => panic!("expected a number, got {:?}", other),
    }
}

fn boolean(src: &str) -> bool {
    match eval(src) {
        Ok(Value::Boolean(b)) => b,
        other => panic!("expected a boolean, got {:?}", other),
    }
}

fn error_kind(src: &str) -> RuntimeErrorKind {
    match eval(src) {
        Err(e) => e.kind,
        other => panic!("expected an error, got {:?}", other),
    }
}

fn literal_number(e: &Expr) -> String {
    match e {
        Expr::Literal(Literal::Number(text)) => text.clone(),
        other => panic!("expected a number literal, got {:?}", other),
    }
}

#[test]
fn precedence_of_factor_over_term() {
    match parse("1 + 2 * 3") {
        Expr::Binary { left, operator, right } => {
            assert_eq!(literal_number(&left), "1");
            assert_eq!(operator.token_type, TokenType::Plus);
            match *right {
                Expr::Binary { left, operator, right } => {
                    assert_eq!(literal_number(&left), "2");
                    assert_eq!(operator.token_type, TokenType::Star);
                    assert_eq!(literal_number(&right), "3");
                }
                other => panic!("unexpected tree {:?}", other),
            }
        }
        other => panic!("unexpected tree {:?}", other),
    }
    assert_eq!(number("1 + 2 * 3"), 7.0);
}

#[test]
fn subtraction_is_left_associative() {
    match parse("1 - 2 - 3") {
        Expr::Binary { left, operator, right } => {
            assert_eq!(operator.token_type, TokenType::Minus);
            assert_eq!(literal_number(&right), "3");
            match *left {
                Expr::Binary { left, operator, right } => {
                    assert_eq!(literal_number(&left), "1");
                    assert_eq!(operator.token_type, TokenType::Minus);
                    assert_eq!(literal_number(&right), "2");
                }
                other => panic!("unexpected tree {:?}", other),
            }
        }
        other => panic!("unexpected tree {:?}", other),
    }
    assert_eq!(number("1 - 2 - 3"), -4.0);
}

#[test]
fn grouping_overrides_precedence() {
    assert!(matches!(parse("(1 + 2) * 3"), Expr::Binary { .. }));
    assert_eq!(number("(1 + 2) * 3"), 9.0);
}

#[test]
fn truthiness() {
    assert!(boolean("!nil"));
    assert!(!boolean("!0"));
    assert!(!boolean("!\"\""));
    assert!(boolean("!false"));
    assert!(!boolean("!!false"));
    assert!(!Interpreter::is_truthy(&Value::Nil));
    assert!(Interpreter::is_truthy(&Value::Number(0)));
}

#[test]
fn no_implicit_coercion_on_plus() {
    assert_eq!(error_kind("1 + \"a\""), RuntimeErrorKind::OperandsMustBeNumbersOrStrings);
    assert_eq!(error_kind("nil + nil"), RuntimeErrorKind::OperandsMustBeNumbersOrStrings);
}

#[test]
fn type_errors_carry_the_operator_line() {
    let err = eval("1 +\n\n true").unwrap_err();
    assert_eq!(err.line, 1);
    assert_eq!(err.kind, RuntimeErrorKind::OperandsMustBeNumbersOrStrings);
    assert_eq!(err.message(), "Operands must be two numbers or two strings.");
}

#[test]
fn arithmetic_needs_numbers() {
    assert_eq!(error_kind("\"a\" - \"b\""), RuntimeErrorKind::OperandsMustBeNumbers);
    assert_eq!(error_kind("true * 2"), RuntimeErrorKind::OperandsMustBeNumbers);
    assert_eq!(error_kind("-\"a\""), RuntimeErrorKind::OperandMustBeNumber);
    assert_eq!(number("-(2 * 3)"), -6.0);
    assert_eq!(number("10 / 4"), 2.5);
}

#[test]
fn division_by_zero_follows_floating_point() {
    assert_eq!(number("1 / 0"), f64::INFINITY);
    assert_eq!(number("-1 / 0"), f64::NEG_INFINITY);
    assert!(number("0 / 0").is_nan());
}

#[test]
fn string_concatenation() {
    match eval("\"foo\" + \"bar\"") {
        Ok(Value::String(s)) => assert_eq!(s, "foobar"),
        other => panic!("unexpected {:?}", other),
    }
}

#[test]
fn comparisons() {
    assert!(boolean("1 < 2"));
    assert!(!boolean("2 < 1"));
    assert!(boolean("2 <= 2"));
    assert!(boolean("3 > 2"));
    assert!(boolean("2 >= 2"));
    assert!(boolean("\"abc\" < \"abd\""));
    assert!(boolean("\"ab\" < \"abc\""));
    assert!(!boolean("\"b\" <= \"abc\""));
    assert!(boolean("\"b\" > \"abc\""));
    assert!(boolean("false < true"));
    assert!(!boolean("true <= false"));
    assert!(boolean("true >= true"));
    assert_eq!(error_kind("1 < \"a\""), RuntimeErrorKind::OperandsMustBeComparable);
    assert_eq!(error_kind("nil < nil"), RuntimeErrorKind::OperandsMustBeComparable);
}

#[test]
fn equality() {
    assert!(boolean("nil == nil"));
    assert!(!boolean("nil == false"));
    assert!(!boolean("0 == \"0\""));
    assert!(boolean("1 == 1.0"));
    assert!(boolean("1 != 2"));
    assert!(boolean("\"a\" == \"a\""));
    assert!(boolean("\"a\" != \"b\""));
    assert!(boolean("true == true"));
    assert!(!boolean("0 / 0 == 0 / 0"));
}

#[test]
fn operands_are_evaluated_left_first() {
    // The left operand's error is the one reported.
    assert_eq!(error_kind("(-\"a\") + (1 - nil)"), RuntimeErrorKind::OperandMustBeNumber);
}

#[test]
fn visitors_evaluate_their_variant() {
    let interp = Interpreter::new();
    let tree = parse("(1 + 2)");
    match interp.visit_grouping_expr(&Float, &tree) {
        Ok(Value::Number(bits)) => assert_eq!(f64::from_bits(bits), 3.0),
        other => panic!("unexpected {:?}", other),
    }
    let tree = parse("-4");
    match interp.visit_unary_expr(&Float, &tree) {
        Ok(Value::Number(bits)) => assert_eq!(f64::from_bits(bits), -4.0),
        other => panic!("unexpected {:?}", other),
    }
    let tree = parse("2 * 4");
    match interp.visit_binary_expr(&Float, &tree) {
        Ok(Value::Number(bits)) => assert_eq!(f64::from_bits(bits), 8.0),
        other => panic!("unexpected {:?}", other),
    }
}

#[test]
fn parsing_is_idempotent() {
    let src = "!(1 + 2) * -3 >= \"x\" == nil";
    let (t1, _) = scan(src);
    let (t2, _) = scan(src);
    let a = Parser::new(t1).parse();
    let b = Parser::new(t2).parse();
    assert!(a.is_some());
    assert_eq!(format!("{:?}", a), format!("{:?}", b));
}

#[test]
fn literal_keywords_parse() {
    assert!(matches!(parse("nil"), Expr::Literal(Literal::Nil)));
    assert!(matches!(parse("true"), Expr::Literal(Literal::Boolean(true))));
    assert!(matches!(parse("false"), Expr::Literal(Literal::Boolean(false))));
    match parse("\"s\"") {
        Expr::Literal(Literal::String(s)) => assert_eq!(s, "s"),
        other => panic!("unexpected {:?}", other),
    }
    match parse("(1)") {
        Expr::Grouping(inner) => assert_eq!(literal_number(&inner), "1"),
        other => panic!("unexpected {:?}", other),
    }
}

#[test]
fn unary_is_right_associative() {
    match parse("!-1") {
        Expr::Unary { operator, right } => {
            assert_eq!(operator.token_type, TokenType::Bang);
            assert!(matches!(*right, Expr::Unary { .. }));
        }
        other => panic!("unexpected {:?}", other),
    }
}

#[test]
fn missing_expression_is_a_syntax_error() {
    let (tree, _, errors) = run("1 + ;");
    assert!(tree.is_none());
    assert_eq!(errors.len(), 1);
    assert_eq!(errors[0].kind, SyntaxErrorKind::ExpectedExpression);
    assert_eq!(errors[0].current, 2);
    assert_eq!(errors[0].message(), "Expected expression!");
}

#[test]
fn missing_right_paren_is_a_syntax_error() {
    let (tree, _, errors) = run("(1 + 2");
    assert!(tree.is_none());
    assert_eq!(errors.len(), 1);
    assert_eq!(errors[0].kind, SyntaxErrorKind::ExpectedRightParen);
    assert_eq!(errors[0].current, 4);
    assert_eq!(errors[0].message(), "Expected ')' after expression!");
}

#[test]
fn empty_source_has_no_expression() {
    let (tree, lex, errors) = run("");
    assert!(tree.is_none());
    assert!(lex.is_empty());
    assert_eq!(errors.len(), 1);
    assert_eq!(errors[0].current, 0);
}

#[test]
fn recovery_stops_after_semicolon() {
    let (tokens, _) = scan("1 + + 2; 3");
    let mut parser = Parser::new(tokens);
    assert!(parser.parse().is_none());
    assert_eq!(parser.errors().len(), 1);
    // error at the second '+' (index 2); recovery discards through ';'
    assert_eq!(parser.position(), 5);
    match parser.parse() {
        Some(e) => assert_eq!(literal_number(&e), "3"),
        None => panic!("second expression should parse"),
    }
}

#[test]
fn recovery_stops_before_statement_keyword() {
    let (tokens, _) = scan(") ) var x");
    let mut parser = Parser::new(tokens);
    assert!(parser.parse().is_none());
    assert_eq!(parser.position(), 2);
    let (tokens, _) = scan("class");
    let mut parser = Parser::new(tokens);
    parser.synchronize();
    assert_eq!(parser.position(), 1);
    let (tokens, _) = scan("");
    let mut parser = Parser::new(tokens);
    parser.synchronize();
    assert_eq!(parser.position(), 0);
}

#[test]
fn several_errors_from_one_pass() {
    let (tokens, _) = scan("* 1; ) 2");
    let mut parser = Parser::new(tokens);
    assert!(parser.parse().is_none());
    assert!(parser.parse().is_none());
    assert_eq!(parser.errors().len(), 2);
    assert_eq!(parser.errors()[0].current, 0);
    assert_eq!(parser.errors()[1].current, 3);
}

#[test]
fn diagnostic_locations() {
    let (tokens, _) = scan("foo\n");
    let d = error(&tokens[0], "Bad.");
    assert_eq!(d.line, 1);
    assert_eq!(d.location, " at 'foo'");
    assert_eq!(d.message, "Bad.");
    let d = error(&tokens[1], "Bad.");
    assert_eq!(d.location, " at end");
    assert_eq!(d.line, 2);
}

#[test]
fn token_copy_and_text() {
    let t = Token { token_type: TokenType::NUMBER, lexeme: "4".to_string(), literal: Some(Literal::Number("4".to_string())), line: 3 };
    let c = t.copy();
    assert_eq!(format!("{:?}", c), format!("{:?}", t));
    assert_eq!(t.to_string(), "4");
}
