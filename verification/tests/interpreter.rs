use lox::ast::Expr;
use lox::interpreter::{
    is_truthy, is_well_formed, number_operand_error, number_operands_error, Application, Arithmetic,
    Interpreter, RuntimeError,
};
use lox::lox::{Lox, LoxReporter};
use lox::parser::parse;
use lox::scanner::scan_tokens;
use lox::token::{Token, Value};
use lox::token_type::TokenType;

fn parse_number(text: &String) -> u64 {
    text.parse::<f64>().expect("a numeral").to_bits()
}

fn arithmetic(operation: Arithmetic, a: u64, b: u64) -> u64 {
    let (a, b) = (f64::from_bits(a), f64::from_bits(b));
    let result = match operation {
        Arithmetic::Add => a + b,
        Arithmetic::Subtract => a - b,
        Arithmetic::Multiply => a * b,
        Arithmetic::Divide => a / b,
    };
    result.to_bits()
}

fn number_text(bits: u64) -> String {
    format!("{}", f64::from_bits(bits))
}

fn number(value: f64) -> Value {
    Value::Number(value.to_bits())
}

fn text(value: &str) -> Value {
    Value::String(value.to_string())
}

fn evaluate(source: &str) -> Result<Value, RuntimeError> {
    let mut reporter = LoxReporter::default();
    let tokens = scan_tokens(&mut reporter, source, &parse_number);
    let expr = parse(&mut reporter, tokens).expect("an expression");
    assert!(!reporter.had_error);
    Interpreter::new().evaluate(&expr, &arithmetic)
}

fn value_of(source: &str) -> Value {
    evaluate(source).expect("a value")
}

fn message_of(source: &str) -> (String, TokenType, usize) {
    let error = evaluate(source).expect_err("a runtime error");
    (error.message, error.token.token_type, error.token.line)
}

#[test]
fn subtraction_evaluates_from_the_left() {
    assert_eq!(value_of("8 - 4 - 2"), number(2.0));
    assert_eq!(value_of("8 - (4 - 2)"), number(6.0));
    assert_eq!(value_of("8 / 4 / 2"), number(1.0));
}

#[test]
fn arithmetic_on_numbers() {
    assert_eq!(value_of("1 + 2"), number(3.0));
    assert_eq!(value_of("1 - 2"), number(-1.0));
    assert_eq!(value_of("3 * 4"), number(12.0));
    assert_eq!(value_of("1 / 4"), number(0.25));
    assert_eq!(value_of("1 * 2 + 3 / 4"), number(2.75));
    assert_eq!(value_of("0.1 + 0.2"), number(0.1 + 0.2));
    assert_eq!(value_of("1 / 0"), number(f64::INFINITY));
    assert_eq!(value_of("(1 + 2) * 3"), number(9.0));
}

#[test]
fn the_arithmetic_is_the_callers() {
    let always_seven = |_: Arithmetic, _: u64, _: u64| 7f64.to_bits();
    let mut reporter = LoxReporter::default();
    let tokens = scan_tokens(&mut reporter, "1 + 2", &parse_number);
    let expr = parse(&mut reporter, tokens).unwrap();
    assert_eq!(Interpreter::new().evaluate(&expr, &always_seven).unwrap(), number(7.0));
}

#[test]
fn plus_joins_two_strings() {
    assert_eq!(value_of("\"ab\" + \"cd\""), text("abcd"));
    assert_eq!(value_of("\"\" + \"\""), text(""));
    assert_eq!(value_of("\"a\" + \"b\" + \"c\""), text("abc"));
}

#[test]
fn string_plus_number_is_a_type_error() {
    let (message, token, line) = message_of("\"1\" + 2");
    assert_eq!(message, "Operands must be numbers.");
    assert_eq!(token, TokenType::Plus);
    assert_eq!(line, 1);
    assert_eq!(message_of("2 + \"1\"").0, "Operands must be numbers.");
    assert_eq!(message_of("nil + nil").0, "Operands must be numbers.");
    assert_eq!(message_of("true + 1").0, "Operands must be numbers.");
}

#[test]
fn other_arithmetic_wants_two_numbers() {
    assert_eq!(message_of("\"a\" - \"b\"").0, "Operands must be numbers.");
    assert_eq!(message_of("\"a\" * 2").0, "Operands must be numbers.");
    assert_eq!(message_of("1 / nil").0, "Operands must be numbers.");
    assert_eq!(message_of("1\n-\ntrue"), ("Operands must be numbers.".to_string(), TokenType::Minus, 2));
}

#[test]
fn ordering_wants_two_numbers() {
    assert_eq!(value_of("1 < 2"), Value::Bool(true));
    assert_eq!(value_of("2 < 2"), Value::Bool(false));
    assert_eq!(value_of("2 <= 2"), Value::Bool(true));
    assert_eq!(value_of("3 <= 2"), Value::Bool(false));
    assert_eq!(value_of("3 > 2"), Value::Bool(true));
    assert_eq!(value_of("2 > 2"), Value::Bool(false));
    assert_eq!(value_of("2 >= 2"), Value::Bool(true));
    assert_eq!(value_of("1 >= 2"), Value::Bool(false));
    assert_eq!(value_of("-1 < 0.5"), Value::Bool(true));
    assert_eq!(message_of("\"a\" < \"b\"").0, "Operands must be numbers.");
    assert_eq!(message_of("1 >= nil").0, "Operands must be numbers.");
    assert_eq!(message_of("true > false").1, TokenType::Greater);
}

#[test]
fn equality_takes_any_two_values() {
    assert_eq!(value_of("2 == \"2\""), Value::Bool(false));
    assert_eq!(value_of("2 != \"2\""), Value::Bool(true));
    assert_eq!(value_of("2 == 2"), Value::Bool(true));
    assert_eq!(value_of("2 != 2"), Value::Bool(false));
    assert_eq!(value_of("\"a\" == \"a\""), Value::Bool(true));
    assert_eq!(value_of("\"a\" == \"b\""), Value::Bool(false));
    assert_eq!(value_of("nil == nil"), Value::Bool(true));
    assert_eq!(value_of("nil == false"), Value::Bool(false));
    assert_eq!(value_of("true == true"), Value::Bool(true));
    assert_eq!(value_of("true != false"), Value::Bool(true));
    assert_eq!(value_of("1 + 1 == 2"), Value::Bool(true));
}

#[test]
fn equality_of_numbers_is_that_of_floats() {
    assert_eq!(value_of("0 == -0"), Value::Bool(true));
    assert_eq!(value_of("0 / 0 == 0 / 0"), Value::Bool(false));
    assert_eq!(value_of("0 / 0 != 0 / 0"), Value::Bool(true));
    assert_eq!(value_of("0 / 0 < 1"), Value::Bool(false));
    assert_eq!(value_of("0 / 0 >= 1"), Value::Bool(false));
    assert_eq!(value_of("1 / 0 > 1"), Value::Bool(true));
    assert_eq!(value_of("-1 / 0 < -1"), Value::Bool(true));
}

#[test]
fn bang_negates_truthiness() {
    assert_eq!(value_of("!true"), Value::Bool(false));
    assert_eq!(value_of("!false"), Value::Bool(true));
    assert_eq!(value_of("!nil"), Value::Bool(true));
    assert_eq!(value_of("!0"), Value::Bool(false));
    assert_eq!(value_of("!\"\""), Value::Bool(false));
    assert_eq!(value_of("!!nil"), Value::Bool(false));
}

#[test]
fn truthiness() {
    assert!(!is_truthy(&Value::Nil));
    assert!(!is_truthy(&Value::Bool(false)));
    assert!(is_truthy(&Value::Bool(true)));
    assert!(is_truthy(&number(0.0)));
    assert!(is_truthy(&number(f64::NAN)));
    assert!(is_truthy(&text("")));
}

#[test]
fn minus_negates_a_number() {
    assert_eq!(value_of("-3"), number(-3.0));
    assert_eq!(value_of("--3"), number(3.0));
    assert_eq!(value_of("-(1 - 2)"), number(1.0));
    match value_of("-0") {
        Value::Number(bits) => assert_eq!(bits, (-0.0f64).to_bits()),
        other => panic!("not a number: {other:?}"),
    }
}

#[test]
fn minus_on_anything_else_is_a_type_error() {
    assert_eq!(
        message_of("-\"a\""),
        ("Operand must be a number.".to_string(), TokenType::Minus, 1)
    );
    assert_eq!(message_of("-nil").0, "Operand must be a number.");
    assert_eq!(message_of("-true").0, "Operand must be a number.");
}

#[test]
fn the_first_error_from_the_left_wins() {
    assert_eq!(message_of("(1 - \"a\") + (-nil)").1, TokenType::Minus);
    assert_eq!(message_of("(1 - \"a\") + (-nil)").0, "Operands must be numbers.");
    assert_eq!(message_of("(-nil) + (1 < \"a\")").0, "Operand must be a number.");
    assert_eq!(message_of("1 + (2 * nil)").1, TokenType::Star);
}

#[test]
fn nothing_is_evaluated_after_an_error() {
    let calls = std::cell::Cell::new(0);
    let counting = |operation: Arithmetic, a: u64, b: u64| {
        calls.set(calls.get() + 1);
        arithmetic(operation, a, b)
    };
    let mut reporter = LoxReporter::default();
    let tokens = scan_tokens(&mut reporter, "(1 + 1) + (-nil) + (2 + 2)", &parse_number);
    let expr = parse(&mut reporter, tokens).unwrap();
    assert!(Interpreter::new().evaluate(&expr, &counting).is_err());
    assert_eq!(calls.get(), 1);
}

#[test]
fn literals_and_groupings_evaluate_to_their_value() {
    assert_eq!(value_of("nil"), Value::Nil);
    assert_eq!(value_of("\"x\""), text("x"));
    assert_eq!(value_of("12.5"), number(12.5));
    assert_eq!(value_of("((true))"), Value::Bool(true));
    let interpreter = Interpreter::new();
    let literal = Expr::Literal(text("kept"));
    assert_eq!(interpreter.visit_expr(&literal, &arithmetic).unwrap(), text("kept"));
}

#[test]
fn operators_apply_to_values() {
    let interpreter = Interpreter::new();
    let plus = Token::new(TokenType::Plus, "+".into(), Value::Nil, 4);
    match interpreter.binary(&plus, number(1.0), number(2.0)) {
        Application::Due(operation, a, b) => {
            assert_eq!(operation, Arithmetic::Add);
            assert_eq!((a, b), (1f64.to_bits(), 2f64.to_bits()));
        }
        Application::Decided(_) => panic!("arithmetic was due"),
    }
    match interpreter.binary(&plus, text("a"), text("b")) {
        Application::Decided(out) => assert_eq!(out.unwrap(), text("ab")),
        Application::Due(..) => panic!("no arithmetic was due"),
    }
    match interpreter.binary(&plus, text("a"), number(1.0)) {
        Application::Decided(out) => {
            let error = out.unwrap_err();
            assert_eq!(error.message, "Operands must be numbers.");
            assert_eq!(error.token, plus);
        }
        Application::Due(..) => panic!("no arithmetic was due"),
    }
    let star = Token::new(TokenType::Star, "*".into(), Value::Nil, 1);
    assert!(matches!(
        interpreter.binary(&star, number(1.0), number(2.0)),
        Application::Due(Arithmetic::Multiply, _, _)
    ));
    let slash = Token::new(TokenType::Slash, "/".into(), Value::Nil, 1);
    assert!(matches!(
        interpreter.binary(&slash, number(1.0), number(2.0)),
        Application::Due(Arithmetic::Divide, _, _)
    ));
    let minus = Token::new(TokenType::Minus, "-".into(), Value::Nil, 1);
    assert!(matches!(
        interpreter.binary(&minus, number(1.0), number(2.0)),
        Application::Due(Arithmetic::Subtract, _, _)
    ));
    assert_eq!(interpreter.unary(&minus, number(2.0)).unwrap(), number(-2.0));
    let bang = Token::new(TokenType::Bang, "!".into(), Value::Nil, 1);
    assert_eq!(interpreter.unary(&bang, Value::Nil).unwrap(), Value::Bool(true));
}

#[test]
fn runtime_errors_carry_their_operator() {
    let minus = Token::new(TokenType::Minus, "-".into(), Value::Nil, 7);
    let error = number_operands_error(&minus);
    assert_eq!(error.token, minus);
    assert_eq!(error.message, "Operands must be numbers.");
    let error = number_operand_error(&minus);
    assert_eq!(error.token, minus);
    assert_eq!(error.message, "Operand must be a number.");
    let error = RuntimeError::new(minus.clone(), "why".to_string());
    assert_eq!((error.token, error.message), (minus, "why".to_string()));
}

#[test]
fn interpret_shows_a_value() {
    let mut reporter = LoxReporter::default();
    let tokens = scan_tokens(&mut reporter, "1 + 2 * 3", &parse_number);
    let expr = parse(&mut reporter, tokens).unwrap();
    let shown = Interpreter::new().interpret(&mut reporter, &expr, &arithmetic, &number_text);
    assert_eq!(shown, Some("7".to_string()));
    assert!(!reporter.had_error && !reporter.had_runtime_error);
    assert!(reporter.messages.is_empty());
}

#[test]
fn interpret_reports_a_runtime_error() {
    let mut reporter = LoxReporter::default();
    let tokens = scan_tokens(&mut reporter, "1\n+\n\"a\"", &parse_number);
    let expr = parse(&mut reporter, tokens).unwrap();
    let shown = Interpreter::new().interpret(&mut reporter, &expr, &arithmetic, &number_text);
    assert_eq!(shown, None);
    assert!(reporter.had_runtime_error);
    assert!(!reporter.had_error);
    assert_eq!(reporter.messages, vec!["Operands must be numbers. [line 2]".to_string()]);
}

#[test]
fn a_run_shows_the_value() {
    let mut lox = Lox::new();
    assert_eq!(
        lox.run("\"a\" + \"b\"", &parse_number, &arithmetic, &number_text),
        Some("\"ab\"".to_string())
    );
    assert_eq!(lox.run("1 / 4", &parse_number, &arithmetic, &number_text), Some("0.25".to_string()));
    assert_eq!(lox.run("1 < 2", &parse_number, &arithmetic, &number_text), Some("true".to_string()));
    assert_eq!(lox.run("nil", &parse_number, &arithmetic, &number_text), Some("nil".to_string()));
    assert!(!lox.reporter.had_error && !lox.reporter.had_runtime_error);
}

#[test]
fn a_run_with_a_syntax_error_evaluates_nothing() {
    let calls = std::cell::Cell::new(0);
    let counting = |operation: Arithmetic, a: u64, b: u64| {
        calls.set(calls.get() + 1);
        arithmetic(operation, a, b)
    };
    let mut lox = Lox::new();
    assert_eq!(lox.run("1 + 2 @", &parse_number, &counting, &number_text), None);
    assert!(lox.reporter.had_error);
    assert!(!lox.reporter.had_runtime_error);
    assert_eq!(calls.get(), 0);
    assert_eq!(lox.run("(1 + 2", &parse_number, &counting, &number_text), None);
    assert_eq!(calls.get(), 0);
    assert_eq!(
        lox.reporter.messages,
        vec![
            "[line 1] Error : Unexpected character.".to_string(),
            "[line 1] Error at end : Expect ')' after expression.".to_string()
        ]
    );
    // A syntax error stays on record, so a later run evaluates nothing either.
    assert_eq!(lox.run("1 + 2", &parse_number, &counting, &number_text), None);
    assert_eq!(calls.get(), 0);
}

#[test]
fn a_run_reports_a_runtime_error_and_goes_on() {
    let mut lox = Lox::new();
    assert_eq!(lox.run("-\"a\"", &parse_number, &arithmetic, &number_text), None);
    assert!(lox.reporter.had_runtime_error);
    assert!(!lox.reporter.had_error);
    assert_eq!(lox.reporter.messages, vec!["Operand must be a number. [line 1]".to_string()]);
    assert_eq!(lox.run("1 + 1", &parse_number, &arithmetic, &number_text), Some("2".to_string()));
    assert!(lox.reporter.had_runtime_error);
}

#[test]
fn fresh_runs_share_no_errors() {
    let mut first = Lox::new();
    assert_eq!(first.run("(", &parse_number, &arithmetic, &number_text), None);
    assert!(first.reporter.had_error);
    let mut second = Lox::new();
    assert!(!second.reporter.had_error);
    assert!(!second.reporter.had_runtime_error);
    assert_eq!(second.run("1", &parse_number, &arithmetic, &number_text), Some("1".to_string()));
    assert!(!second.reporter.had_error);
    assert!(second.parse_code("2", &parse_number).is_some());
    assert!(second.parse_code(")", &parse_number).is_none());
    assert!(second.reporter.had_error);
}

#[test]
fn a_runtime_error_shows_its_line() {
    let minus = Token::new(TokenType::Minus, "-".into(), Value::Nil, 12);
    let error = RuntimeError::new(minus, "Operand must be a number.".to_string());
    assert_eq!(error.to_text(), "Operand must be a number. [line 12]");
}

#[test]
fn well_formed_trees_have_operators_that_apply() {
    let token = |token_type: TokenType| Token::new(token_type, "?".into(), Value::Nil, 1);
    let one = || Expr::Literal(number(1.0));
    assert!(is_well_formed(&one()));
    assert!(is_well_formed(&Expr::grouping(one())));
    for kind in [
        TokenType::Plus,
        TokenType::Minus,
        TokenType::Star,
        TokenType::Slash,
        TokenType::Greater,
        TokenType::GreaterEqual,
        TokenType::Less,
        TokenType::LessEqual,
        TokenType::BangEqual,
        TokenType::EqualEqual,
    ] {
        assert!(is_well_formed(&Expr::binary(one(), token(kind), one())));
    }
    assert!(is_well_formed(&Expr::unary(token(TokenType::Bang), one())));
    assert!(is_well_formed(&Expr::unary(token(TokenType::Minus), one())));
    assert!(!is_well_formed(&Expr::unary(token(TokenType::Plus), one())));
    assert!(!is_well_formed(&Expr::binary(one(), token(TokenType::Bang), one())));
    assert!(!is_well_formed(&Expr::binary(one(), token(TokenType::And), one())));
    assert!(!is_well_formed(&Expr::grouping(Expr::binary(
        one(),
        token(TokenType::Plus),
        Expr::unary(token(TokenType::Star), one())
    ))));
}
