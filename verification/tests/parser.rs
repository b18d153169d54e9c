use lox::ast::Expr;
use lox::lox::LoxReporter;
use lox::parser::{ends_input, parse, ParseError, Parser};
use lox::scanner::scan_tokens;
use lox::token::{Token, Value};
use lox::token_type::TokenType;

fn parse_number(text: &String) -> u64 {
    text.parse::<f64>().expect("a numeral").to_bits()
}

fn number(value: f64) -> Value {
    Value::Number(value.to_bits())
}

fn parse_expression(expression: &str) -> (Result<Expr, ParseError>, bool) {
    let mut reporter: LoxReporter = Default::default();
    let tokens = scan_tokens(&mut reporter, expression, &parse_number);
    let expr = Parser::new(&tokens).expression(&mut reporter);
    (expr, reporter.had_error)
}

fn operator(token_type: TokenType, lexeme: &str) -> Token {
    Token::new(token_type, lexeme.to_string(), Value::Nil, 1)
}

#[test]
fn test_addition() {
    let (expr, had_error) = parse_expression("1 + 2");

    assert!(!had_error);
    let expr2 = Expr::binary(
        Expr::Literal(number(1.0)),
        Token::new(TokenType::Plus, "+".to_string(), Value::Nil, 1),
        Expr::Literal(number(2.0)),
    );

    assert_eq!(expr.unwrap(), expr2);
}

#[test]
fn test_multiplication() {
    let (expr, had_error) = parse_expression("1 * 2");
    assert!(!had_error);
    let expr2 = Expr::binary(
        Expr::Literal(number(1.0)),
        Token::new(TokenType::Star, "*".to_string(), Value::Nil, 1),
        Expr::Literal(number(2.0)),
    );

    assert_eq!(expr.unwrap(), expr2);
}

#[test]
fn test_division() {
    let (expr, had_error) = parse_expression("1 / 2");
    assert!(!had_error);
    let expr2 = Expr::binary(
        Expr::Literal(number(1.0)),
        Token::new(TokenType::Slash, "/".to_string(), Value::Nil, 1),
        Expr::Literal(number(2.0)),
    );

    assert_eq!(expr.unwrap(), expr2);
}

#[test]
fn test_group() {
    let (expr, had_error) = parse_expression("(1)");
    assert!(!had_error);
    assert_eq!(expr.unwrap(), Expr::grouping(Expr::Literal(number(1.0))));
}

#[test]
fn test_unmatched_paren() {
    for s in ["1 + (2", "(", "(1"] {
        let (expr, had_error) = parse_expression(s);
        assert!(had_error);
        assert!(expr.is_err());
    }
}

#[test]
fn test_bang() {
    let (expr, had_error) = parse_expression("!true");
    assert!(!had_error);
    let expr2 = Expr::unary(
        Token::new(TokenType::Bang, "!".into(), Value::Nil, 1),
        Expr::literal(true),
    );

    assert_eq!(expr.unwrap(), expr2);
}

#[test]
fn test_precedence() {
    let (expr, had_error) = parse_expression("1 * 2 + 3 / 4");
    assert!(!had_error);

    let left = parse_expression("1 * 2").0.unwrap();
    let right = parse_expression("3 / 4").0.unwrap();
    let expr2 = Expr::binary(
        left,
        Token::new(TokenType::Plus, "+".to_string(), Value::Nil, 1),
        right,
    );

    assert_eq!(expr.unwrap(), expr2);
}

#[test]
fn subtraction_associates_to_the_left() {
    let (expr, had_error) = parse_expression("8 - 4 - 2");
    assert!(!had_error);
    let expected = Expr::binary(
        Expr::binary(
            Expr::Literal(number(8.0)),
            operator(TokenType::Minus, "-"),
            Expr::Literal(number(4.0)),
        ),
        operator(TokenType::Minus, "-"),
        Expr::Literal(number(2.0)),
    );
    assert_eq!(expr.unwrap(), expected);
}

#[test]
fn every_level_binds_tighter_than_the_one_before() {
    // == over < over + over * over unary
    let (expr, had_error) = parse_expression("1 == 2 < 3 + 4 * -5");
    assert!(!had_error);
    let expected = Expr::binary(
        Expr::Literal(number(1.0)),
        operator(TokenType::EqualEqual, "=="),
        Expr::binary(
            Expr::Literal(number(2.0)),
            operator(TokenType::Less, "<"),
            Expr::binary(
                Expr::Literal(number(3.0)),
                operator(TokenType::Plus, "+"),
                Expr::binary(
                    Expr::Literal(number(4.0)),
                    operator(TokenType::Star, "*"),
                    Expr::unary(operator(TokenType::Minus, "-"), Expr::Literal(number(5.0))),
                ),
            ),
        ),
    );
    assert_eq!(expr.unwrap(), expected);
}

#[test]
fn unary_operators_nest_to_the_right() {
    let (expr, _) = parse_expression("!!nil");
    let expected = Expr::unary(
        operator(TokenType::Bang, "!"),
        Expr::unary(operator(TokenType::Bang, "!"), Expr::Literal(Value::Nil)),
    );
    assert_eq!(expr.unwrap(), expected);
}

#[test]
fn literals_parse_to_their_values() {
    assert_eq!(parse_expression("true").0.unwrap(), Expr::Literal(Value::Bool(true)));
    assert_eq!(parse_expression("false").0.unwrap(), Expr::Literal(Value::Bool(false)));
    assert_eq!(parse_expression("nil").0.unwrap(), Expr::Literal(Value::Nil));
    assert_eq!(
        parse_expression("\"hi\"").0.unwrap(),
        Expr::Literal(Value::String("hi".to_string()))
    );
    assert_eq!(parse_expression("12.5").0.unwrap(), Expr::Literal(number(12.5)));
}

#[test]
fn missing_expression_is_reported_at_the_token() {
    let mut reporter = LoxReporter::default();
    let tokens = scan_tokens(&mut reporter, "1 + *", &parse_number);
    let parsed = parse(&mut reporter, tokens);
    assert!(parsed.is_none());
    assert!(reporter.had_error);
    assert!(!reporter.had_runtime_error);
    assert_eq!(reporter.messages, vec!["[line 1] Error at '*' : Expect expression.".to_string()]);
}

#[test]
fn missing_expression_at_the_end_is_reported_at_end() {
    let mut reporter = LoxReporter::default();
    let tokens = scan_tokens(&mut reporter, "(", &parse_number);
    assert!(parse(&mut reporter, tokens).is_none());
    assert_eq!(reporter.messages, vec!["[line 1] Error at end : Expect expression.".to_string()]);
}

#[test]
fn missing_paren_is_reported_at_the_next_token() {
    let mut reporter = LoxReporter::default();
    let tokens = scan_tokens(&mut reporter, "(1\n2", &parse_number);
    assert!(parse(&mut reporter, tokens).is_none());
    assert_eq!(
        reporter.messages,
        vec!["[line 2] Error at '2' : Expect ')' after expression.".to_string()]
    );

    let mut reporter = LoxReporter::default();
    let tokens = scan_tokens(&mut reporter, "(1", &parse_number);
    assert!(parse(&mut reporter, tokens).is_none());
    assert_eq!(
        reporter.messages,
        vec!["[line 1] Error at end : Expect ')' after expression.".to_string()]
    );
}

#[test]
fn parse_returns_the_tree_and_reports_nothing() {
    let mut reporter = LoxReporter::default();
    let tokens = scan_tokens(&mut reporter, "(1)", &parse_number);
    let parsed = parse(&mut reporter, tokens);
    assert_eq!(parsed, Some(Expr::grouping(Expr::Literal(number(1.0)))));
    assert!(!reporter.had_error);
    assert!(reporter.messages.is_empty());
}

#[test]
fn tokens_after_the_expression_are_left_alone() {
    let mut reporter = LoxReporter::default();
    let tokens = scan_tokens(&mut reporter, "1 2", &parse_number);
    let mut parser = Parser::new(&tokens);
    assert_eq!(parser.expression(&mut reporter).unwrap(), Expr::Literal(number(1.0)));
    assert_eq!(parser.current, 1);
    assert!(!reporter.had_error);
}

#[test]
fn synchronize_stops_after_a_semicolon() {
    let mut reporter = LoxReporter::default();
    let tokens = scan_tokens(&mut reporter, "1 + ; 2 3", &parse_number);
    let mut parser = Parser::new(&tokens);
    parser.current = 1;
    parser.synchronize();
    assert_eq!(parser.current, 3);
}

#[test]
fn synchronize_stops_before_a_statement() {
    let mut reporter = LoxReporter::default();
    let tokens = scan_tokens(&mut reporter, "1 2 3 print 4", &parse_number);
    let mut parser = Parser::new(&tokens);
    parser.synchronize();
    assert_eq!(parser.current, 3);
    assert_eq!(tokens[3].token_type, TokenType::Print);
}

#[test]
fn synchronize_stops_at_the_end() {
    let mut reporter = LoxReporter::default();
    let tokens = scan_tokens(&mut reporter, "1 2 3", &parse_number);
    let mut parser = Parser::new(&tokens);
    parser.synchronize();
    assert_eq!(parser.current, 3);
    assert_eq!(tokens[3].token_type, TokenType::EOF);
    parser.synchronize();
    assert_eq!(parser.current, 3);
}

#[test]
fn consume_takes_the_expected_token_only() {
    let mut reporter = LoxReporter::default();
    let tokens = scan_tokens(&mut reporter, ") (", &parse_number);
    let mut parser = Parser::new(&tokens);
    let taken = parser.consume(&mut reporter, TokenType::RightParen, "Expect ')'.");
    assert_eq!(taken.unwrap(), Token::new(TokenType::RightParen, ")".to_string(), Value::Nil, 1));
    assert_eq!(parser.current, 1);
    let refused = parser.consume(&mut reporter, TokenType::RightParen, "Expect ')'.");
    assert_eq!(refused, Err(ParseError::Error));
    assert_eq!(parser.current, 1);
    assert_eq!(reporter.messages, vec!["[line 1] Error at '(' : Expect ')'.".to_string()]);
}

#[test]
fn parse_error_has_a_description() {
    assert_eq!(ParseError::Error.to_text(), "An error occured with parsing.");
}

#[test]
fn scanned_tokens_end_the_input() {
    let mut reporter = LoxReporter::default();
    let tokens = scan_tokens(&mut reporter, "1 + 2", &parse_number);
    assert!(ends_input(&tokens));
    assert!(!ends_input(&tokens[..2]));
    assert!(!ends_input(&[]));
}
