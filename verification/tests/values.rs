use lox::ast::{Expr, Stmt};
use lox::ast_printer::AstPrinter;
use lox::interpreter::RuntimeError;
use lox::lox::{Lox, LoxReporter};
use lox::number;
use lox::text::to_decimal;
use lox::token::{Token, Value};
use lox::token_type::TokenType;

fn number_text(bits: u64) -> String {
    format!("{}", f64::from_bits(bits))
}

fn num(value: f64) -> Value {
    Value::Number(value.to_bits())
}

#[test]
fn test_example() {
    let e = Expr::Binary {
        left: Box::new(Expr::Unary {
            operator: Token::new(TokenType::Minus, "-".into(), Value::Nil, 1),
            right: Box::new(Expr::Literal(num(123_f64))),
        }),
        operator: Token::new(TokenType::Star, "*".into(), Value::Nil, 1),
        right: Box::new(Expr::Grouping(Box::new(Expr::Literal(num(45.67))))),
    };
    assert_eq!("(* (- 123) (group 45.67))", AstPrinter {}.visit_expr(&e, &number_text));
}

#[test]
fn test_lox_default() {
    let l: Lox = Default::default();
    assert!(
        !l.reporter.had_error,
        "Lox should be created with no errors."
    )
}

#[test]
fn a_new_pipeline_has_nothing_on_record() {
    let l = Lox::new();
    assert!(!l.reporter.had_error);
    assert!(!l.reporter.had_runtime_error);
    assert!(l.reporter.messages.is_empty());
    let r = LoxReporter::default();
    assert!(!r.had_error && !r.had_runtime_error && r.messages.is_empty());
}

#[test]
fn printing_literals() {
    let printer = AstPrinter;
    assert_eq!(printer.print(&Expr::Literal(Value::Nil), &number_text), "nil");
    assert_eq!(printer.print(&Expr::Literal(Value::Bool(true)), &number_text), "true");
    assert_eq!(printer.print(&Expr::Literal(Value::Bool(false)), &number_text), "false");
    assert_eq!(printer.print(&Expr::Literal(Value::String("a b".into())), &number_text), "\"a b\"");
    assert_eq!(printer.print(&Expr::Literal(num(1.5)), &number_text), "1.5");
}

#[test]
fn printing_nodes() {
    let printer = AstPrinter;
    let plus = Token::new(TokenType::Plus, "+".into(), Value::Nil, 1);
    let bang = Token::new(TokenType::Bang, "!".into(), Value::Nil, 1);
    let tree = Expr::binary(
        Expr::grouping(Expr::unary(bang, Expr::literal(true))),
        plus,
        Expr::literal("x".to_string()),
    );
    assert_eq!(printer.print(&tree, &number_text), "(+ (group (! true)) \"x\")");
    assert_eq!(printer.parenthesize("name", &[]), "(name)");
    assert_eq!(printer.parenthesize("f", &["a".to_string(), "bc".to_string()]), "(f a bc)");
}

#[test]
fn values_show_themselves() {
    assert_eq!(num(123.0).to_text(&number_text), "123");
    assert_eq!(num(45.67).to_text(&number_text), "45.67");
    assert_eq!(num(-0.5).to_text(&number_text), "-0.5");
    assert_eq!(Value::String("hi".into()).to_text(&number_text), "\"hi\"");
    assert_eq!(Value::String("".into()).to_text(&number_text), "\"\"");
    assert_eq!(Value::Bool(true).to_text(&number_text), "true");
    assert_eq!(Value::Bool(false).to_text(&number_text), "false");
    assert_eq!(Value::Nil.to_text(&number_text), "nil");
}

#[test]
fn values_convert_from_plain_values() {
    assert_eq!(Value::from(true), Value::Bool(true));
    assert_eq!(Value::from("s".to_string()), Value::String("s".into()));
    assert_eq!(Value::from(Some("s".to_string())), Value::String("s".into()));
    assert_eq!(Value::from(None::<String>), Value::Nil);
    assert_eq!(Value::from("slice"), Value::String("slice".into()));
    assert_eq!(Expr::literal(false), Expr::Literal(Value::Bool(false)));
}

#[test]
fn values_compare_by_kind_and_content() {
    assert_eq!(num(1.0), num(1.0));
    assert_ne!(num(1.0), num(2.0));
    assert_eq!(num(0.0), num(-0.0));
    assert_ne!(num(f64::NAN), num(f64::NAN));
    assert_ne!(num(1.0), Value::String("1".into()));
    assert_ne!(Value::Nil, Value::Bool(false));
    assert_eq!(Value::Nil, Value::Nil);
    assert_eq!(Value::String("a".into()).clone(), Value::String("a".into()));
    let token = Token::new(TokenType::Number, "1".into(), num(1.0), 3);
    assert_eq!(token.clone(), token);
    assert_ne!(token, Token::new(TokenType::Number, "1".into(), num(1.0), 4));
    assert_ne!(token, Token::new(TokenType::Number, "1.0".into(), num(1.0), 3));
    assert_ne!(token, Token::new(TokenType::String, "1".into(), num(1.0), 3));
}

#[test]
fn trees_compare_by_shape() {
    let minus = || Token::new(TokenType::Minus, "-".into(), Value::Nil, 1);
    let one = || Expr::Literal(num(1.0));
    assert_eq!(Expr::unary(minus(), one()), Expr::unary(minus(), one()));
    assert_ne!(Expr::unary(minus(), one()), Expr::grouping(one()));
    assert_ne!(Expr::binary(one(), minus(), one()), Expr::binary(one(), minus(), Expr::grouping(one())));
    assert_eq!(Stmt::expression(one()), Stmt::Expression(one()));
    assert_eq!(Stmt::print(one()), Stmt::Print(one()));
    assert_ne!(Stmt::print(one()), Stmt::expression(one()));
}

#[test]
fn numbers_compare_as_floats_do() {
    let samples = [
        0.0,
        -0.0,
        1.0,
        -1.0,
        0.5,
        2.0,
        -2.5,
        f64::MIN_POSITIVE,
        -f64::MIN_POSITIVE,
        5e-324,
        -5e-324,
        f64::MAX,
        f64::MIN,
        f64::INFINITY,
        f64::NEG_INFINITY,
        f64::NAN,
        -f64::NAN,
        f64::from_bits(0x7ff0_0000_0000_0001),
        f64::from_bits(0xffff_ffff_ffff_ffff),
    ];
    for a in samples {
        assert_eq!(number::nan(a.to_bits()), a.is_nan(), "nan {a}");
        assert_eq!(number::neg(a.to_bits()), (-a).to_bits(), "neg {a}");
        for b in samples {
            let (x, y) = (a.to_bits(), b.to_bits());
            assert_eq!(number::eq(x, y), a == b, "{a} == {b}");
            assert_eq!(number::lt(x, y), a < b, "{a} < {b}");
            assert_eq!(number::le(x, y), a <= b, "{a} <= {b}");
            assert_eq!(number::gt(x, y), a > b, "{a} > {b}");
            assert_eq!(number::ge(x, y), a >= b, "{a} >= {b}");
        }
    }
}

#[test]
fn decimal_numerals() {
    assert_eq!(to_decimal(0), "0");
    assert_eq!(to_decimal(7), "7");
    assert_eq!(to_decimal(10), "10");
    assert_eq!(to_decimal(1234567890), "1234567890");
    assert_eq!(to_decimal(usize::MAX), usize::MAX.to_string());
}

#[test]
fn diagnostics_are_kept_in_order() {
    let mut reporter = LoxReporter::default();
    reporter.error(3, "Unexpected character.");
    assert!(reporter.had_error);
    assert!(!reporter.had_runtime_error);
    reporter.report(12, " somewhere", "Wrong.");
    let end = Token::new(TokenType::EOF, "".into(), Value::Nil, 9);
    reporter.parse_error(&end, "Expect expression.");
    let star = Token::new(TokenType::Star, "*".into(), Value::Nil, 2);
    reporter.parse_error(&star, "Expect expression.");
    assert!(!reporter.had_runtime_error);
    reporter.runtime_error(RuntimeError::new(star, "Operands must be numbers.".into()));
    assert!(reporter.had_error);
    assert!(reporter.had_runtime_error);
    assert_eq!(
        reporter.messages,
        vec![
            "[line 3] Error : Unexpected character.".to_string(),
            "[line 12] Error somewhere : Wrong.".to_string(),
            "[line 9] Error at end : Expect expression.".to_string(),
            "[line 2] Error at '*' : Expect expression.".to_string(),
            "Operands must be numbers. [line 2]".to_string(),
        ]
    );
}

#[test]
fn a_runtime_error_sets_its_own_flag_only() {
    let mut reporter = LoxReporter::default();
    let minus = Token::new(TokenType::Minus, "-".into(), Value::Nil, 40);
    reporter.runtime_error(RuntimeError::new(minus, "Operand must be a number.".into()));
    assert!(!reporter.had_error);
    assert!(reporter.had_runtime_error);
    assert_eq!(reporter.messages, vec!["Operand must be a number. [line 40]".to_string()]);
}
