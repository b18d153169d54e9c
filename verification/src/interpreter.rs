//! The tree-walking evaluator.

use crate::ast::{Expr, ExprView};
use crate::lox::{runtime_error_text, LoxReporter, ReporterView};
use crate::number;
use crate::text::push_decimal;
use crate::token::{Token, TokenView, Value, ValueView};
use crate::token_type::TokenType;
use vstd::prelude::*;

verus! {

/// The operations on two numbers that round their result. The evaluator
/// decides when one is due and on which operands; its caller computes it.
#[derive(Debug, Clone, Copy, PartialEq, Eq, Structural)]
pub enum Arithmetic {
    Add,
    Subtract,
    Multiply,
    Divide,
}

/// A failed evaluation: the operator at which it failed and why.
#[derive(Debug)]
pub struct RuntimeError {
    pub token: Token,
    pub message: String,
}

/// The mathematical content of a [`RuntimeError`].
pub struct RuntimeErrorView {
    pub token: TokenView,
    pub message: Seq<char>,
}

impl View for RuntimeError {
    type V = RuntimeErrorView;

    open spec fn view(&self) -> RuntimeErrorView {
        RuntimeErrorView { token: self.token@, message: self.message@ }
    }
}

impl RuntimeError {
    pub fn new(token: Token, message: String) -> (error: Self)
        ensures
            error == (RuntimeError { token, message }),
    {
        Self { token, message }
    }

    /// The error as it is shown: the message, then the operator's line.
    pub fn to_text(&self) -> (text: String)
        ensures
            text@ == runtime_error_text(self@),
    {
        let mut text = self.message.clone();
        text.append(" [line ");
        push_decimal(&mut text, self.token.line);
        text.append("]");
        text
    }
}

/// What an evaluation comes to: a value, or the error that stopped it.
pub type Outcome = Result<ValueView, RuntimeErrorView>;

/// The content of an evaluation's result.
pub open spec fn outcome(result: Result<Value, RuntimeError>) -> Outcome {
    match result {
        Ok(value) => Ok(value@),
        Err(error) => Err(error@),
    }
}

/// Truthiness: the absent value is false, a boolean is itself, and every
/// number and every string is true.
pub open spec fn truthy(value: ValueView) -> bool {
    match value {
        ValueView::Nil => false,
        ValueView::Bool(b) => b,
        _ => true,
    }
}

/// The categories that an operator of a unary node may have.
pub open spec fn unary_operator(kind: TokenType) -> bool {
    kind == TokenType::Bang || kind == TokenType::Minus
}

/// The arithmetic that an operator stands for, if it stands for one.
pub open spec fn arithmetic_of(kind: TokenType) -> Option<Arithmetic> {
    match kind {
        TokenType::Plus => Some(Arithmetic::Add),
        TokenType::Minus => Some(Arithmetic::Subtract),
        TokenType::Star => Some(Arithmetic::Multiply),
        TokenType::Slash => Some(Arithmetic::Divide),
        _ => None,
    }
}

/// The outcome of an ordering operator on two numbers, if the category is
/// an ordering operator.
pub open spec fn ordering_of(kind: TokenType, a: u64, b: u64) -> Option<bool> {
    match kind {
        TokenType::Greater => Some(number::less(b, a)),
        TokenType::GreaterEqual => Some(number::less_equal(b, a)),
        TokenType::Less => Some(number::less(a, b)),
        TokenType::LessEqual => Some(number::less_equal(a, b)),
        _ => None,
    }
}

/// The categories that an operator of a binary node may have.
pub open spec fn binary_operator(kind: TokenType) -> bool {
    ||| arithmetic_of(kind) is Some
    ||| ordering_of(kind, 0, 0) is Some
    ||| kind == TokenType::BangEqual
    ||| kind == TokenType::EqualEqual
}

/// Whether every operator in the tree is one that its node can apply.
pub open spec fn well_formed(expr: ExprView) -> bool
    decreases expr,
{
    match expr {
        ExprView::Binary { left, operator, right } => binary_operator(operator.token_type)
            && well_formed(*left) && well_formed(*right),
        ExprView::Grouping(inner) => well_formed(*inner),
        ExprView::Literal(_) => true,
        ExprView::Unary { operator, right } => unary_operator(operator.token_type) && well_formed(
            *right,
        ),
    }
}

/// The error of a binary operator whose operands it cannot take.
pub open spec fn operands_error(operator: TokenView) -> RuntimeErrorView {
    RuntimeErrorView { token: operator, message: "Operands must be numbers."@ }
}

/// The error of a negation whose operand is no number.
pub open spec fn operand_error(operator: TokenView) -> RuntimeErrorView {
    RuntimeErrorView { token: operator, message: "Operand must be a number."@ }
}

/// The outcome of a unary operator on the value of its operand: `!` negates
/// its truthiness, `-` negates a number and fails on anything else.
pub open spec fn unary_outcome(operator: TokenView, right: ValueView) -> Outcome {
    if operator.token_type == TokenType::Bang {
        Ok(ValueView::Bool(!truthy(right)))
    } else {
        match right {
            ValueView::Number(bits) => Ok(ValueView::Number(number::negated(bits))),
            _ => Err(operand_error(operator)),
        }
    }
}

/// The arithmetic that a binary operator needs on these operands: its own,
/// where both are numbers.
pub open spec fn arithmetic_due(operator: TokenView, left: ValueView, right: ValueView) -> Option<
    (Arithmetic, u64, u64),
> {
    match (arithmetic_of(operator.token_type), left, right) {
        (Some(operation), ValueView::Number(a), ValueView::Number(b)) => Some((operation, a, b)),
        _ => None,
    }
}

/// The outcome of a binary operator where no arithmetic is due. Equality
/// takes any two values. `+` joins two strings. Every other case wants two
/// numbers: an ordering operator compares them, and anything else fails.
pub open spec fn binary_outcome(operator: TokenView, left: ValueView, right: ValueView) -> Outcome {
    if operator.token_type == TokenType::EqualEqual {
        Ok(ValueView::Bool(left.same(right)))
    } else if operator.token_type == TokenType::BangEqual {
        Ok(ValueView::Bool(!left.same(right)))
    } else {
        match (left, right) {
            (ValueView::Number(a), ValueView::Number(b)) => match ordering_of(
                operator.token_type,
                a,
                b,
            ) {
                Some(holds) => Ok(ValueView::Bool(holds)),
                None => Err(operands_error(operator)),
            },
            (ValueView::String(a), ValueView::String(b)) => if operator.token_type
                == TokenType::Plus {
                Ok(ValueView::String(a + b))
            } else {
                Err(operands_error(operator))
            },
            _ => Err(operands_error(operator)),
        }
    }
}

/// Whether `out` is an outcome of a binary operator on the values of its
/// operands: the number that `arithmetic` may return where arithmetic is
/// due, and `binary_outcome` elsewhere.
pub open spec fn applies<A: Fn(Arithmetic, u64, u64) -> u64>(
    operator: TokenView,
    left: ValueView,
    right: ValueView,
    arithmetic: A,
    out: Outcome,
) -> bool {
    match arithmetic_due(operator, left, right) {
        Some((operation, a, b)) => out matches Ok(ValueView::Number(n)) && call_ensures(
            arithmetic,
            (operation, a, b),
            n,
        ),
        None => out == binary_outcome(operator, left, right),
    }
}

/// Whether `out` follows from the outcome of a unary node's operand: the
/// operand's error, or the operator on its value.
pub open spec fn unary_follows(operator: TokenView, right: Outcome, out: Outcome) -> bool {
    match right {
        Ok(value) => out == unary_outcome(operator, value),
        Err(error) => out == Err::<ValueView, RuntimeErrorView>(error),
    }
}

/// Whether `out` follows from the outcomes of a binary node's operands: the
/// left operand's error, else the right operand's error, else the operator on
/// both values. Where the left operand failed, `right` counts for nothing.
pub open spec fn binary_follows<A: Fn(Arithmetic, u64, u64) -> u64>(
    operator: TokenView,
    left: Outcome,
    right: Outcome,
    arithmetic: A,
    out: Outcome,
) -> bool {
    match left {
        Ok(left_value) => match right {
            Ok(right_value) => applies(operator, left_value, right_value, arithmetic, out),
            Err(error) => out == Err::<ValueView, RuntimeErrorView>(error),
        },
        Err(error) => out == Err::<ValueView, RuntimeErrorView>(error),
    }
}

/// Whether `out` is an outcome of evaluating `expr`, bottom-up and left to
/// right, where `arithmetic` computes what rounds. A literal is its value
/// and a grouping is what its inner expression is. An operator applies to
/// the values of its operands; the first error among them, left before right,
/// is the outcome, and the right operand of a binary node is evaluated only
/// where the left one gave a value.
pub open spec fn evaluates<A: Fn(Arithmetic, u64, u64) -> u64>(
    expr: ExprView,
    arithmetic: A,
    out: Outcome,
) -> bool
    decreases expr,
{
    match expr {
        ExprView::Literal(value) => out == Ok::<ValueView, RuntimeErrorView>(value),
        ExprView::Grouping(inner) => evaluates(*inner, arithmetic, out),
        ExprView::Unary { .. } => exists|r: Outcome|
            evaluates(*expr->Unary_right, arithmetic, r) && #[trigger] unary_follows(
                expr->Unary_operator,
                r,
                out,
            ),
        ExprView::Binary { .. } => exists|l: Outcome, r: Outcome|
            evaluates(*expr->left, arithmetic, l) && (l is Ok ==> evaluates(
                *expr->Binary_right,
                arithmetic,
                r,
            )) && #[trigger] binary_follows(expr->Binary_operator, l, r, arithmetic, out),
    }
}

/// Equality takes any two values and never fails: `==` is whether they are
/// the same value, `!=` is whether they are not, and no arithmetic is due.
/// Values of different kinds are never the same.
pub proof fn lemma_equality_never_fails(operator: TokenView, left: ValueView, right: ValueView)
    requires
        operator.token_type == TokenType::EqualEqual || operator.token_type
            == TokenType::BangEqual,
    ensures
        arithmetic_due(operator, left, right) is None,
        binary_outcome(operator, left, right) == Ok::<ValueView, RuntimeErrorView>(
            ValueView::Bool((operator.token_type == TokenType::EqualEqual) == left.same(right)),
        ),
        left is Number && right is String ==> !left.same(right),
        left is String && right is Number ==> !left.same(right),
{
}

/// Arithmetic and ordering take two numbers, and `+` also two strings: on
/// any other operands they fail, with the error of the operator.
pub proof fn lemma_mixed_operands_fail(operator: TokenView, left: ValueView, right: ValueView)
    requires
        binary_operator(operator.token_type),
        operator.token_type != TokenType::EqualEqual,
        operator.token_type != TokenType::BangEqual,
        !(left is Number && right is Number),
        !(operator.token_type == TokenType::Plus && left is String && right is String),
    ensures
        arithmetic_due(operator, left, right) is None,
        binary_outcome(operator, left, right) == Err::<ValueView, RuntimeErrorView>(
            operands_error(operator),
        ),
{
}

/// Whether `arithmetic` returns one result for each operation and operands.
pub open spec fn single_valued<A: Fn(Arithmetic, u64, u64) -> u64>(arithmetic: A) -> bool {
    forall|operation: Arithmetic, a: u64, b: u64, x: u64, y: u64|
        #![trigger call_ensures(arithmetic, (operation, a, b), x), call_ensures(arithmetic, (operation, a, b), y)]
        call_ensures(arithmetic, (operation, a, b), x) && call_ensures(
            arithmetic,
            (operation, a, b),
            y,
        ) ==> x == y
}

/// Where the arithmetic returns one result for each operation and operands,
/// an expression has one outcome: evaluation adds no choice of its own.
pub proof fn lemma_one_outcome<A: Fn(Arithmetic, u64, u64) -> u64>(
    expr: ExprView,
    arithmetic: A,
    first: Outcome,
    second: Outcome,
)
    requires
        single_valued(arithmetic),
        evaluates(expr, arithmetic, first),
        evaluates(expr, arithmetic, second),
    ensures
        first == second,
    decreases expr,
{
    match expr {
        ExprView::Literal(_) => {},
        ExprView::Grouping(inner) => {
            lemma_one_outcome(*inner, arithmetic, first, second);
        },
        ExprView::Unary { operator, right } => {
            let r1 = choose|r: Outcome|
                evaluates(*right, arithmetic, r) && #[trigger] unary_follows(operator, r, first);
            let r2 = choose|r: Outcome|
                evaluates(*right, arithmetic, r) && #[trigger] unary_follows(operator, r, second);
            lemma_one_outcome(*right, arithmetic, r1, r2);
        },
        ExprView::Binary { left, operator, right } => {
            let (l1, r1) = choose|l: Outcome, r: Outcome|
                evaluates(*left, arithmetic, l) && (l is Ok ==> evaluates(*right, arithmetic, r))
                    && #[trigger] binary_follows(operator, l, r, arithmetic, first);
            let (l2, r2) = choose|l: Outcome, r: Outcome|
                evaluates(*left, arithmetic, l) && (l is Ok ==> evaluates(*right, arithmetic, r))
                    && #[trigger] binary_follows(operator, l, r, arithmetic, second);
            lemma_one_outcome(*left, arithmetic, l1, l2);
            if l1 is Ok {
                lemma_one_outcome(*right, arithmetic, r1, r2);
            }
        },
    }
}

/// The text of an optional string.
pub open spec fn text_of(text: Option<String>) -> Option<Seq<char>> {
    match text {
        Some(text) => Some(text@),
        None => None,
    }
}

/// Whether an evaluation that came to `value` was interpreted: a value
/// gives its display form, where `number` gives the decimal form of numbers,
/// and leaves the reporter as it was; an error gives no text and is reported
/// as a runtime error.
pub open spec fn interpreted<F: Fn(u64) -> String>(
    value: Outcome,
    number: F,
    shown: Option<Seq<char>>,
    before: ReporterView,
    after: ReporterView,
) -> bool {
    match value {
        Ok(value) => shown is Some && value.shown_as(number, shown->Some_0) && after == before,
        Err(error) => shown is None && after == before.with_runtime_error(
            runtime_error_text(error),
        ),
    }
}

/// Tells whether a value counts as true.
pub fn is_truthy(value: &Value) -> (r: bool)
    ensures
        r == truthy(value@),
{
    match value {
        Value::Number(_) => true,
        Value::String(_) => true,
        Value::Bool(b) => *b,
        Value::Nil => false,
    }
}

/// The error of a binary operator whose operands it cannot take.
pub fn number_operands_error(operator: &Token) -> (error: RuntimeError)
    ensures
        error@ == operands_error(operator@),
{
    RuntimeError::new(operator.clone(), String::from_str("Operands must be numbers."))
}

/// The error of a negation whose operand is no number.
pub fn number_operand_error(operator: &Token) -> (error: RuntimeError)
    ensures
        error@ == operand_error(operator@),
{
    RuntimeError::new(operator.clone(), String::from_str("Operand must be a number."))
}

/// What a binary operator comes to once both operands are known.
pub enum Application {
    /// The outcome needs no arithmetic.
    Decided(Result<Value, RuntimeError>),
    /// The outcome is the number that this arithmetic gives.
    Due(Arithmetic, u64, u64),
}

/// Tells whether every operator in the tree is one that its node can apply.
pub fn is_well_formed(expr: &Expr) -> (r: bool)
    ensures
        r == well_formed(expr@),
    decreases expr,
{
    match expr {
        Expr::Binary { left, operator, right } => {
            let known = match operator.token_type {
                TokenType::Plus
                | TokenType::Minus
                | TokenType::Star
                | TokenType::Slash
                | TokenType::Greater
                | TokenType::GreaterEqual
                | TokenType::Less
                | TokenType::LessEqual
                | TokenType::BangEqual
                | TokenType::EqualEqual => true,
                _ => false,
            };
            known && is_well_formed(left) && is_well_formed(right)
        },
        Expr::Grouping(inner) => is_well_formed(inner),
        Expr::Literal(_) => true,
        Expr::Unary { operator, right } => {
            let known = match operator.token_type {
                TokenType::Bang | TokenType::Minus => true,
                _ => false,
            };
            known && is_well_formed(right)
        },
    }
}

/// The walker of expression trees.
#[derive(Debug)]
pub struct Interpreter;

impl Default for Interpreter {
    fn default() -> (interpreter: Self) {
        Interpreter
    }
}

impl Interpreter {
    pub fn new() -> (interpreter: Self) {
        Interpreter
    }

    /// Applies a unary operator to the value of its operand.
    pub fn unary(&self, operator: &Token, right: Value) -> (out: Result<Value, RuntimeError>)
        requires
            unary_operator(operator.token_type),
        ensures
            outcome(out) == unary_outcome(operator@, right@),
    {
        match operator.token_type {
            TokenType::Bang => Ok(Value::Bool(!is_truthy(&right))),
            _ => match right {
                Value::Number(bits) => Ok(Value::Number(number::neg(bits))),
                _ => Err(number_operand_error(operator)),
            },
        }
    }

    /// Applies a binary operator to the values of its operands, as far as
    /// that takes no arithmetic, and names the arithmetic where it does.
    pub fn binary(&self, operator: &Token, left: Value, right: Value) -> (application: Application)
        requires
            binary_operator(operator.token_type),
        ensures
            match application {
                Application::Due(operation, a, b) => arithmetic_due(operator@, left@, right@)
                    == Some((operation, a, b)),
                Application::Decided(out) => arithmetic_due(operator@, left@, right@) is None
                    && outcome(out) == binary_outcome(operator@, left@, right@),
            },
    {
        match operator.token_type {
            TokenType::EqualEqual => Application::Decided(Ok(Value::Bool(left == right))),
            TokenType::BangEqual => Application::Decided(Ok(Value::Bool(!(left == right)))),
            kind => match (left, right) {
                (Value::Number(a), Value::Number(b)) => match kind {
                    TokenType::Plus => Application::Due(Arithmetic::Add, a, b),
                    TokenType::Minus => Application::Due(Arithmetic::Subtract, a, b),
                    TokenType::Star => Application::Due(Arithmetic::Multiply, a, b),
                    TokenType::Slash => Application::Due(Arithmetic::Divide, a, b),
                    TokenType::Greater => Application::Decided(Ok(Value::Bool(number::gt(a, b)))),
                    TokenType::GreaterEqual => Application::Decided(
                        Ok(Value::Bool(number::ge(a, b))),
                    ),
                    TokenType::Less => Application::Decided(Ok(Value::Bool(number::lt(a, b)))),
                    _ => Application::Decided(Ok(Value::Bool(number::le(a, b)))),
                },
                (Value::String(a), Value::String(b)) => match kind {
                    TokenType::Plus => {
                        let joined = a.concat(b.as_str());
                        Application::Decided(Ok(Value::String(joined)))
                    },
                    _ => Application::Decided(Err(number_operands_error(operator))),
                },
                _ => Application::Decided(Err(number_operands_error(operator))),
            },
        }
    }

    /// Evaluates an expression. A value is returned in its display form,
    /// for the caller to show; a runtime error is reported, and nothing is
    /// returned.
    pub fn interpret<A: Fn(Arithmetic, u64, u64) -> u64, F: Fn(u64) -> String>(
        &self,
        reporter: &mut LoxReporter,
        expression: &Expr,
        arithmetic: &A,
        number: &F,
    ) -> (shown: Option<String>)
        requires
            well_formed(expression@),
            forall|operation: Arithmetic, a: u64, b: u64|
                call_requires(*arithmetic, (operation, a, b)),
            forall|bits: u64| call_requires(*number, (bits,)),
        ensures
            exists|value: Outcome|
                evaluates(expression@, *arithmetic, value) && #[trigger] interpreted(
                    value,
                    *number,
                    text_of(shown),
                    old(reporter)@,
                    final(reporter)@,
                ),
    {
        let result = self.evaluate(expression, arithmetic);
        let ghost value = outcome(result);
        let shown = match result {
            Ok(value) => Some(value.to_text(number)),
            Err(error) => {
                reporter.runtime_error(error);
                None
            },
        };
        assert(interpreted(value, *number, text_of(shown), old(reporter)@, final(reporter)@));
        shown
    }

    /// Evaluates an expression to a value or to the first runtime error.
    pub fn evaluate<A: Fn(Arithmetic, u64, u64) -> u64>(
        &self,
        expression: &Expr,
        arithmetic: &A,
    ) -> (out: Result<Value, RuntimeError>)
        requires
            well_formed(expression@),
            forall|operation: Arithmetic, a: u64, b: u64|
                call_requires(*arithmetic, (operation, a, b)),
        ensures
            evaluates(expression@, *arithmetic, outcome(out)),
    {
        self.visit_expr(expression, arithmetic)
    }

    /// Evaluates one node: its operands first, left before right, then the
    /// node itself.
    pub fn visit_expr<A: Fn(Arithmetic, u64, u64) -> u64>(&self, expr: &Expr, arithmetic: &A) -> (out:
        Result<Value, RuntimeError>)
        requires
            well_formed(expr@),
            forall|operation: Arithmetic, a: u64, b: u64|
                call_requires(*arithmetic, (operation, a, b)),
        ensures
            evaluates(expr@, *arithmetic, outcome(out)),
        decreases expr,
    {
        match expr {
            Expr::Binary { left, operator, right } => {
                let left_result = self.visit_expr(left, arithmetic);
                let ghost l = outcome(left_result);
                let left_value = match left_result {
                    Ok(value) => value,
                    Err(error) => {
                        assert(binary_follows(operator@, l, l, *arithmetic, l));
                        return Err(error);
                    },
                };
                let right_result = self.visit_expr(right, arithmetic);
                let ghost r = outcome(right_result);
                let right_value = match right_result {
                    Ok(value) => value,
                    Err(error) => {
                        assert(binary_follows(operator@, l, r, *arithmetic, r));
                        return Err(error);
                    },
                };
                let out = match self.binary(operator, left_value, right_value) {
                    Application::Decided(out) => out,
                    Application::Due(operation, a, b) => Ok(
                        Value::Number(arithmetic(operation, a, b)),
                    ),
                };
                assert(binary_follows(operator@, l, r, *arithmetic, outcome(out)));
                out
            },
            Expr::Grouping(inner) => self.visit_expr(inner, arithmetic),
            Expr::Literal(value) => Ok(value.clone()),
            Expr::Unary { operator, right } => {
                let right_result = self.visit_expr(right, arithmetic);
                let ghost r = outcome(right_result);
                let out = match right_result {
                    Ok(value) => self.unary(operator, value),
                    Err(error) => Err(error),
                };
                assert(unary_follows(operator@, r, outcome(out)));
                out
            },
        }
    }
}

} // verus!
