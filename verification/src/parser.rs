//! The recursive-descent parser: tokens to an expression tree.
//!
//! The grammar, from the lowest precedence to the highest:
//!
//! ```text
//! expression -> equality
//! equality   -> comparison ( ( "!=" | "==" ) comparison )*
//! comparison -> term ( ( ">" | ">=" | "<" | "<=" ) term )*
//! term       -> factor ( ( "-" | "+" ) factor )*
//! factor     -> unary ( ( "/" | "*" ) unary )*
//! unary      -> ( "!" | "-" ) unary | primary
//! primary    -> NUMBER | STRING | "true" | "false" | "nil" | "(" expression ")"
//! ```

use crate::ast::Expr;
use crate::interpreter::{binary_operator, well_formed};
use crate::lox::{parse_error_text, LoxReporter, ReporterView};
use crate::token::{Token, Value};
use crate::token_type::TokenType;
use vstd::prelude::*;

verus! {

/// The failure of a parse. Its diagnostic is with the reporter.
#[derive(Debug, Clone, Copy, PartialEq, Eq, Structural)]
pub enum ParseError {
    Error,
}

impl ParseError {
    /// A description of the failure.
    pub fn to_text(&self) -> (text: String)
        ensures
            text@ == "An error occured with parsing."@,
    {
        String::from_str("An error occured with parsing.")
    }
}

/// What the grammar makes of the tokens from some position on.
pub enum Parsed {
    /// An expression, and the position of the first token after it.
    Tree { expr: Expr, next: int },
    /// A syntax error: the position of the offending token, and the message.
    Failure { at: int, message: Seq<char> },
}

/// Whether the tokens end with the token that ends the input.
pub open spec fn terminated(tokens: Seq<Token>) -> bool {
    tokens.len() > 0 && tokens.last().token_type == TokenType::EOF
}

/// The number of binary precedence levels.
pub const LEVELS: u8 = 4;

/// The operators of a binary precedence level: equality at level 0, then
/// comparison, term and factor.
pub open spec fn level_operator(level: nat, kind: TokenType) -> bool {
    if level == 0 {
        kind == TokenType::BangEqual || kind == TokenType::EqualEqual
    } else if level == 1 {
        kind == TokenType::Greater || kind == TokenType::GreaterEqual || kind == TokenType::Less
            || kind == TokenType::LessEqual
    } else if level == 2 {
        kind == TokenType::Minus || kind == TokenType::Plus
    } else if level == 3 {
        kind == TokenType::Slash || kind == TokenType::Star
    } else {
        false
    }
}

/// The operators of the four binary precedence levels are operators that a
/// binary node can apply.
pub proof fn lemma_level_operator_binary(level: nat, kind: TokenType)
    requires
        level_operator(level, kind),
    ensures
        binary_operator(kind),
{
}

/// The rank of a precedence level among the grammar's rules: it falls as
/// the precedence rises.
pub open spec fn rank(level: nat) -> nat {
    if level >= LEVELS {
        2
    } else {
        (2 + LEVELS - level) as nat
    }
}

/// `expression`: the lowest precedence level.
pub open spec fn parse_expression(tokens: Seq<Token>, pos: int) -> Parsed
    decreases tokens.len() - pos, 7nat,
{
    parse_binary(tokens, pos, 0)
}

/// A binary precedence level: an operand of the next level, then any number
/// of operators of this level, each with an operand of the next level. Past
/// the last binary level stands `unary`.
pub open spec fn parse_binary(tokens: Seq<Token>, pos: int, level: nat) -> Parsed
    decreases tokens.len() - pos, rank(level),
{
    if level >= LEVELS {
        parse_unary(tokens, pos)
    } else {
        match parse_binary(tokens, pos, level + 1) {
            Parsed::Tree { expr, next } => if pos < next <= tokens.len() {
                parse_rest(tokens, next, level, expr)
            } else {
                Parsed::Tree { expr, next }
            },
            failure => failure,
        }
    }
}

/// The operators of a binary level that follow the operand `left`, from
/// `pos` on: each one makes a binary node of what stands to its left, so the
/// level associates to the left. No operand consumes nothing (see
/// [`lemma_parse_advances`]); the definition stops where one would.
pub open spec fn parse_rest(tokens: Seq<Token>, pos: int, level: nat, left: Expr) -> Parsed
    decreases tokens.len() - pos, 0nat,
{
    if 0 <= pos < tokens.len() && level_operator(level, tokens[pos].token_type) {
        match parse_binary(tokens, pos + 1, level + 1) {
            Parsed::Tree { expr, next } => {
                let node = Expr::Binary {
                    left: Box::new(left),
                    operator: tokens[pos],
                    right: Box::new(expr),
                };
                if pos < next <= tokens.len() {
                    parse_rest(tokens, next, level, node)
                } else {
                    Parsed::Tree { expr: node, next }
                }
            },
            failure => failure,
        }
    } else {
        Parsed::Tree { expr: left, next: pos }
    }
}

/// `unary`: `!` or `-` before a unary expression, or a primary expression.
pub open spec fn parse_unary(tokens: Seq<Token>, pos: int) -> Parsed
    decreases tokens.len() - pos, 1nat,
{
    if 0 <= pos < tokens.len() && (tokens[pos].token_type == TokenType::Bang
        || tokens[pos].token_type == TokenType::Minus) {
        match parse_unary(tokens, pos + 1) {
            Parsed::Tree { expr, next } => Parsed::Tree {
                expr: Expr::Unary { operator: tokens[pos], right: Box::new(expr) },
                next,
            },
            failure => failure,
        }
    } else {
        parse_primary(tokens, pos)
    }
}

/// `primary`: a literal, or an expression between parentheses. Any other
/// token is a syntax error at that token, and so is anything but `)` after
/// the expression that follows a `(`.
pub open spec fn parse_primary(tokens: Seq<Token>, pos: int) -> Parsed
    decreases tokens.len() - pos, 0nat,
{
    if 0 <= pos < tokens.len() {
        let token = tokens[pos];
        match token.token_type {
            TokenType::False => Parsed::Tree {
                expr: Expr::Literal(Value::Bool(false)),
                next: pos + 1,
            },
            TokenType::True => Parsed::Tree { expr: Expr::Literal(Value::Bool(true)), next: pos + 1 },
            TokenType::Nil => Parsed::Tree { expr: Expr::Literal(Value::Nil), next: pos + 1 },
            TokenType::Number | TokenType::String => Parsed::Tree {
                expr: Expr::Literal(token.literal),
                next: pos + 1,
            },
            TokenType::LeftParen => match parse_expression(tokens, pos + 1) {
                Parsed::Tree { expr, next } => if 0 <= next < tokens.len()
                    && tokens[next].token_type == TokenType::RightParen {
                    Parsed::Tree { expr: Expr::Grouping(Box::new(expr)), next: next + 1 }
                } else {
                    Parsed::Failure { at: next, message: "Expect ')' after expression."@ }
                },
                failure => failure,
            },
            _ => Parsed::Failure { at: pos, message: "Expect expression."@ },
        }
    } else {
        Parsed::Failure { at: pos, message: "Expect expression."@ }
    }
}

/// From a position inside tokens that end the input, `primary` ends inside
/// them: a tree ends after at least one token, and a failure lies at or after
/// the start.
pub proof fn lemma_primary_advances(tokens: Seq<Token>, pos: int)
    requires
        terminated(tokens),
        0 <= pos < tokens.len(),
    ensures
        match parse_primary(tokens, pos) {
            Parsed::Tree { expr, next } => pos < next < tokens.len(),
            Parsed::Failure { at, message } => pos <= at < tokens.len(),
        },
    decreases tokens.len() - pos, 0nat,
{
    if tokens[pos].token_type == TokenType::LeftParen {
        lemma_parse_advances(tokens, pos + 1, 0);
    }
}

/// From a position inside tokens that end the input, `unary` ends inside
/// them, as `primary` does.
pub proof fn lemma_unary_advances(tokens: Seq<Token>, pos: int)
    requires
        terminated(tokens),
        0 <= pos < tokens.len(),
    ensures
        match parse_unary(tokens, pos) {
            Parsed::Tree { expr, next } => pos < next < tokens.len(),
            Parsed::Failure { at, message } => pos <= at < tokens.len(),
        },
    decreases tokens.len() - pos, 1nat,
{
    if tokens[pos].token_type == TokenType::Bang || tokens[pos].token_type == TokenType::Minus {
        lemma_unary_advances(tokens, pos + 1);
    } else {
        lemma_primary_advances(tokens, pos);
    }
}

/// From a position inside tokens that end the input, every precedence level
/// ends inside them: a tree ends after at least one token, and a failure lies
/// at or after the start. So no operand consumes nothing, and the checks for
/// that in [`parse_binary`] and [`parse_rest`] never decide.
pub proof fn lemma_parse_advances(tokens: Seq<Token>, pos: int, level: nat)
    requires
        terminated(tokens),
        0 <= pos < tokens.len(),
    ensures
        match parse_binary(tokens, pos, level) {
            Parsed::Tree { expr, next } => pos < next < tokens.len(),
            Parsed::Failure { at, message } => pos <= at < tokens.len(),
        },
    decreases tokens.len() - pos, rank(level),
{
    if level >= LEVELS {
        lemma_unary_advances(tokens, pos);
    } else {
        lemma_parse_advances(tokens, pos, level + 1);
        match parse_binary(tokens, pos, level + 1) {
            Parsed::Tree { expr, next } => {
                lemma_rest_advances(tokens, next, level, expr);
            },
            _ => {},
        }
    }
}

/// The operators that follow an operand end inside the tokens too, at or
/// after the position from which they are read.
pub proof fn lemma_rest_advances(tokens: Seq<Token>, pos: int, level: nat, left: Expr)
    requires
        terminated(tokens),
        0 <= pos < tokens.len(),
    ensures
        match parse_rest(tokens, pos, level, left) {
            Parsed::Tree { expr, next } => pos <= next < tokens.len(),
            Parsed::Failure { at, message } => pos <= at < tokens.len(),
        },
    decreases tokens.len() - pos, 0nat,
{
    if level_operator(level, tokens[pos].token_type) {
        lemma_parse_advances(tokens, pos + 1, level + 1);
        match parse_binary(tokens, pos + 1, level + 1) {
            Parsed::Tree { expr, next } => {
                let node = Expr::Binary {
                    left: Box::new(left),
                    operator: tokens[pos],
                    right: Box::new(expr),
                };
                lemma_rest_advances(tokens, next, level, node);
            },
            _ => {},
        }
    }
}

/// Precedence: the operands of an operator are whole expressions of the
/// next level. Where an expression of the next level stands at `pos`, an
/// operator of this level follows it, another expression of the next level
/// follows that, and no operator of this level comes after, this level makes
/// one binary node of the two.
pub proof fn lemma_operands_bind_tighter(
    tokens: Seq<Token>,
    pos: int,
    level: nat,
    left: Expr,
    operator_at: int,
    right: Expr,
    end: int,
)
    requires
        terminated(tokens),
        0 <= pos < tokens.len(),
        level < LEVELS,
        parse_binary(tokens, pos, level + 1) == (Parsed::Tree { expr: left, next: operator_at }),
        level_operator(level, tokens[operator_at].token_type),
        parse_binary(tokens, operator_at + 1, level + 1) == (Parsed::Tree {
            expr: right,
            next: end,
        }),
        !level_operator(level, tokens[end].token_type),
    ensures
        parse_binary(tokens, pos, level) == (Parsed::Tree {
            expr: Expr::Binary {
                left: Box::new(left),
                operator: tokens[operator_at],
                right: Box::new(right),
            },
            next: end,
        }),
{
    lemma_parse_advances(tokens, pos, level + 1);
    lemma_parse_advances(tokens, operator_at + 1, level + 1);
    let node = Expr::Binary {
        left: Box::new(left),
        operator: tokens[operator_at],
        right: Box::new(right),
    };
    assert(parse_rest(tokens, end, level, node) == (Parsed::Tree { expr: node, next: end }));
    assert(parse_rest(tokens, operator_at, level, left) == parse_rest(tokens, end, level, node));
}

/// Associativity: a level groups to the left. Where three expressions of
/// the next level stand with two operators of this level between them, and
/// no operator of this level comes after, the first two make the left
/// operand of the second operator.
pub proof fn lemma_left_associative(
    tokens: Seq<Token>,
    pos: int,
    level: nat,
    first: Expr,
    first_operator: int,
    second: Expr,
    second_operator: int,
    third: Expr,
    end: int,
)
    requires
        terminated(tokens),
        0 <= pos < tokens.len(),
        level < LEVELS,
        parse_binary(tokens, pos, level + 1) == (Parsed::Tree {
            expr: first,
            next: first_operator,
        }),
        level_operator(level, tokens[first_operator].token_type),
        parse_binary(tokens, first_operator + 1, level + 1) == (Parsed::Tree {
            expr: second,
            next: second_operator,
        }),
        level_operator(level, tokens[second_operator].token_type),
        parse_binary(tokens, second_operator + 1, level + 1) == (Parsed::Tree {
            expr: third,
            next: end,
        }),
        !level_operator(level, tokens[end].token_type),
    ensures
        parse_binary(tokens, pos, level) == (Parsed::Tree {
            expr: Expr::Binary {
                left: Box::new(
                    Expr::Binary {
                        left: Box::new(first),
                        operator: tokens[first_operator],
                        right: Box::new(second),
                    },
                ),
                operator: tokens[second_operator],
                right: Box::new(third),
            },
            next: end,
        }),
{
    lemma_parse_advances(tokens, pos, level + 1);
    lemma_parse_advances(tokens, first_operator + 1, level + 1);
    lemma_parse_advances(tokens, second_operator + 1, level + 1);
    let inner = Expr::Binary {
        left: Box::new(first),
        operator: tokens[first_operator],
        right: Box::new(second),
    };
    let outer = Expr::Binary {
        left: Box::new(inner),
        operator: tokens[second_operator],
        right: Box::new(third),
    };
    assert(parse_rest(tokens, end, level, outer) == (Parsed::Tree { expr: outer, next: end }));
    assert(parse_rest(tokens, second_operator, level, inner) == parse_rest(
        tokens,
        end,
        level,
        outer,
    ));
    assert(parse_rest(tokens, first_operator, level, first) == parse_rest(
        tokens,
        second_operator,
        level,
        inner,
    ));
}

/// A group that is not closed is a syntax error: where an expression stands
/// behind a `(` and anything but a `)` follows it, `primary` fails at what
/// follows.
pub proof fn lemma_unclosed_group(tokens: Seq<Token>, pos: int, inner: Expr, next: int)
    requires
        0 <= pos < tokens.len(),
        tokens[pos].token_type == TokenType::LeftParen,
        parse_expression(tokens, pos + 1) == (Parsed::Tree { expr: inner, next }),
        !(0 <= next < tokens.len() && tokens[next].token_type == TokenType::RightParen),
    ensures
        parse_primary(tokens, pos) == (Parsed::Failure {
            at: next,
            message: "Expect ')' after expression."@,
        }),
{
}

/// Where recovery from a syntax error resumes, when the scan for it stands at
/// `pos`: at the end of the input, after a `;`, or at a token that starts a
/// statement.
pub open spec fn synchronized(tokens: Seq<Token>, pos: int) -> int
    decreases tokens.len() - pos,
{
    if 0 < pos < tokens.len() && tokens[pos].token_type != TokenType::EOF && tokens[pos
        - 1].token_type != TokenType::Semicolon && !tokens[pos].token_type.starts_statement() {
        synchronized(tokens, pos + 1)
    } else {
        pos
    }
}

/// The parser's state: the tokens and the position of the next one.
pub struct Parser<'a> {
    pub tokens: &'a [Token],
    pub current: usize,
}

impl<'a> Parser<'a> {
    /// The tokens end the input, and the position is inside them.
    pub open spec fn wf(&self) -> bool {
        terminated(self.tokens@) && self.current < self.tokens.len()
    }

    /// Whether the parser, started as `self`, ended as `after` with `out` and
    /// turned the reporter `before` into `reported`, as `parsed` says: with the
    /// tree, after it, and nothing reported; or with a failure, at the
    /// offending token, and one diagnostic reported at that token.
    pub open spec fn ended(
        self,
        after: Parser<'a>,
        out: Result<Expr, ParseError>,
        before: ReporterView,
        reported: ReporterView,
        parsed: Parsed,
    ) -> bool {
        &&& after.tokens == self.tokens
        &&& after.wf()
        &&& match parsed {
            Parsed::Tree { expr, next } => {
                &&& out == Ok::<Expr, ParseError>(expr)
                &&& after.current == next
                &&& after.current > self.current
                &&& well_formed(expr@)
                &&& reported == before
            },
            Parsed::Failure { at, message } => {
                &&& out is Err
                &&& after.current == at
                &&& reported == before.with_error(
                    parse_error_text(self.tokens@[at]@, message),
                )
            },
        }
    }

    pub fn new(tokens: &'a [Token]) -> (parser: Self)
        ensures
            parser.tokens == tokens,
            parser.current == 0,
    {
        Self { tokens, current: 0 }
    }

    /// `expression -> equality`
    pub fn expression(&mut self, reporter: &mut LoxReporter) -> (out: Result<Expr, ParseError>)
        requires
            old(self).wf(),
        ensures
            old(self).ended(
                *final(self),
                out,
                old(reporter)@,
                final(reporter)@,
                parse_expression(old(self).tokens@, old(self).current as int),
            ),
        decreases old(self).tokens.len() - old(self).current, 7nat,
    {
        self.equality(reporter)
    }

    /// `equality -> comparison ( ( "!=" | "==" ) comparison )*`
    pub fn equality(&mut self, reporter: &mut LoxReporter) -> (out: Result<Expr, ParseError>)
        requires
            old(self).wf(),
        ensures
            old(self).ended(
                *final(self),
                out,
                old(reporter)@,
                final(reporter)@,
                parse_binary(old(self).tokens@, old(self).current as int, 0),
            ),
        decreases old(self).tokens.len() - old(self).current, rank(0),
    {
        self.binary(reporter, 0)
    }

    /// `comparison -> term ( ( ">" | ">=" | "<" | "<=" ) term )*`
    pub fn comparison(&mut self, reporter: &mut LoxReporter) -> (out: Result<Expr, ParseError>)
        requires
            old(self).wf(),
        ensures
            old(self).ended(
                *final(self),
                out,
                old(reporter)@,
                final(reporter)@,
                parse_binary(old(self).tokens@, old(self).current as int, 1),
            ),
        decreases old(self).tokens.len() - old(self).current, rank(1),
    {
        self.binary(reporter, 1)
    }

    /// `term -> factor ( ( "-" | "+" ) factor )*`
    pub fn term(&mut self, reporter: &mut LoxReporter) -> (out: Result<Expr, ParseError>)
        requires
            old(self).wf(),
        ensures
            old(self).ended(
                *final(self),
                out,
                old(reporter)@,
                final(reporter)@,
                parse_binary(old(self).tokens@, old(self).current as int, 2),
            ),
        decreases old(self).tokens.len() - old(self).current, rank(2),
    {
        self.binary(reporter, 2)
    }

    /// `factor -> unary ( ( "/" | "*" ) unary )*`
    pub fn factor(&mut self, reporter: &mut LoxReporter) -> (out: Result<Expr, ParseError>)
        requires
            old(self).wf(),
        ensures
            old(self).ended(
                *final(self),
                out,
                old(reporter)@,
                final(reporter)@,
                parse_binary(old(self).tokens@, old(self).current as int, 3),
            ),
        decreases old(self).tokens.len() - old(self).current, rank(3),
    {
        self.binary(reporter, 3)
    }

    /// An operand of a binary level: the next level, or `unary` past the last.
    fn operand(&mut self, reporter: &mut LoxReporter, level: u8) -> (out: Result<Expr, ParseError>)
        requires
            old(self).wf(),
            level < LEVELS,
        ensures
            old(self).ended(
                *final(self),
                out,
                old(reporter)@,
                final(reporter)@,
                parse_binary(old(self).tokens@, old(self).current as int, level as nat + 1),
            ),
        decreases old(self).tokens.len() - old(self).current, rank(level as nat + 1), 1nat,
    {
        if level + 1 < LEVELS {
            self.binary(reporter, level + 1)
        } else {
            self.unary(reporter)
        }
    }

    /// Whether the next token is an operator of a binary level, which is
    /// then consumed.
    fn level_match(&mut self, level: u8) -> (r: bool)
        requires
            old(self).wf(),
            level < LEVELS,
        ensures
            r == level_operator(
                level as nat,
                old(self).tokens@[old(self).current as int].token_type,
            ),
            final(self).tokens == old(self).tokens,
            final(self).current == old(self).current + if r {
                1int
            } else {
                0int
            },
            final(self).wf(),
    {
        if level == 0 {
            self.token_match(&[TokenType::BangEqual, TokenType::EqualEqual])
        } else if level == 1 {
            self.token_match(
                &[
                    TokenType::Greater,
                    TokenType::GreaterEqual,
                    TokenType::Less,
                    TokenType::LessEqual,
                ],
            )
        } else if level == 2 {
            self.token_match(&[TokenType::Minus, TokenType::Plus])
        } else {
            self.token_match(&[TokenType::Slash, TokenType::Star])
        }
    }

    /// One binary precedence level.
    fn binary(&mut self, reporter: &mut LoxReporter, level: u8) -> (out: Result<Expr, ParseError>)
        requires
            old(self).wf(),
            level < LEVELS,
        ensures
            old(self).ended(
                *final(self),
                out,
                old(reporter)@,
                final(reporter)@,
                parse_binary(old(self).tokens@, old(self).current as int, level as nat),
            ),
        decreases old(self).tokens.len() - old(self).current, rank(level as nat), 0nat,
    {
        let ghost tokens = self.tokens@;
        let ghost goal = parse_binary(tokens, self.current as int, level as nat);
        let mut expr = match self.operand(reporter, level) {
            Ok(expr) => expr,
            Err(error) => {
                return Err(error);
            },
        };
        loop
            invariant_except_break
                self.wf(),
                self.tokens == old(self).tokens,
                tokens == self.tokens@,
                level < LEVELS,
                self.current > old(self).current,
                reporter@ == old(reporter)@,
                well_formed(expr@),
                parse_rest(tokens, self.current as int, level as nat, expr) == goal,
                goal == parse_binary(old(self).tokens@, old(self).current as int, level as nat),
            ensures
                old(self).ended(*self, Ok(expr), old(reporter)@, reporter@, goal),
            decreases self.tokens.len() - self.current,
        {
            if !self.level_match(level) {
                break ;
            }
            let operator = self.previous().clone();
            let right = match self.operand(reporter, level) {
                Ok(right) => right,
                Err(error) => {
                    return Err(error);
                },
            };
            proof {
                lemma_level_operator_binary(level as nat, operator.token_type);
            }
            expr = Expr::binary(expr, operator, right);
        }
        Ok(expr)
    }

    /// `unary -> ( "!" | "-" ) unary | primary`
    pub fn unary(&mut self, reporter: &mut LoxReporter) -> (out: Result<Expr, ParseError>)
        requires
            old(self).wf(),
        ensures
            old(self).ended(
                *final(self),
                out,
                old(reporter)@,
                final(reporter)@,
                parse_unary(old(self).tokens@, old(self).current as int),
            ),
        decreases old(self).tokens.len() - old(self).current, 1nat,
    {
        if self.token_match(&[TokenType::Bang, TokenType::Minus]) {
            let operator = self.previous().clone();
            let right = match self.unary(reporter) {
                Ok(right) => right,
                Err(error) => {
                    return Err(error);
                },
            };
            return Ok(Expr::unary(operator, right));
        }
        self.primary(reporter)
    }

    /// `primary -> NUMBER | STRING | "true" | "false" | "nil" | "(" expression ")"`
    pub fn primary(&mut self, reporter: &mut LoxReporter) -> (out: Result<Expr, ParseError>)
        requires
            old(self).wf(),
        ensures
            old(self).ended(
                *final(self),
                out,
                old(reporter)@,
                final(reporter)@,
                parse_primary(old(self).tokens@, old(self).current as int),
            ),
        decreases old(self).tokens.len() - old(self).current, 0nat,
    {
        if self.token_match(&[TokenType::False]) {
            return Ok(Expr::Literal(Value::Bool(false)));
        }
        if self.token_match(&[TokenType::True]) {
            return Ok(Expr::Literal(Value::Bool(true)));
        }
        if self.token_match(&[TokenType::Nil]) {
            return Ok(Expr::Literal(Value::Nil));
        }
        if self.token_match(&[TokenType::Number, TokenType::String]) {
            return Ok(Expr::Literal(self.previous().literal.clone()));
        }
        if self.token_match(&[TokenType::LeftParen]) {
            let expr = match self.expression(reporter) {
                Ok(expr) => expr,
                Err(error) => {
                    return Err(error);
                },
            };
            match self.consume(reporter, TokenType::RightParen, "Expect ')' after expression.") {
                Ok(_) => {},
                Err(error) => {
                    return Err(error);
                },
            }
            return Ok(Expr::grouping(expr));
        }
        let token = self.peek().clone();
        Err(self.error(reporter, &token, "Expect expression."))
    }

    /// Consumes the next token if it is of the given category, and reports
    /// `message` at it if it is not.
    pub fn consume(&mut self, reporter: &mut LoxReporter, token_type: TokenType, message: &str) -> (out:
        Result<Token, ParseError>)
        requires
            old(self).wf(),
            token_type != TokenType::EOF,
        ensures
            final(self).tokens == old(self).tokens,
            final(self).wf(),
            match out {
                Ok(token) => {
                    &&& old(self).tokens@[old(self).current as int].token_type == token_type
                    &&& token == old(self).tokens@[old(self).current as int]
                    &&& final(self).current == old(self).current + 1
                    &&& final(reporter)@ == old(reporter)@
                },
                Err(_) => {
                    &&& old(self).tokens@[old(self).current as int].token_type != token_type
                    &&& final(self).current == old(self).current
                    &&& final(reporter)@ == old(reporter)@.with_error(
                        parse_error_text(old(self).tokens@[old(self).current as int]@, message@),
                    )
                },
            },
    {
        if self.check(token_type) {
            self.advance();
            return Ok(self.previous().clone());
        }
        let token = self.peek().clone();
        Err(self.error(reporter, &token, message))
    }

    /// Consumes the next token if its category is one of `types`.
    pub fn token_match(&mut self, types: &[TokenType]) -> (r: bool)
        requires
            old(self).wf(),
            !types@.contains(TokenType::EOF),
        ensures
            r == types@.contains(old(self).tokens@[old(self).current as int].token_type),
            final(self).tokens == old(self).tokens,
            final(self).current == old(self).current + if r {
                1int
            } else {
                0int
            },
            final(self).wf(),
    {
        let mut i: usize = 0;
        while i < types.len()
            invariant
                i <= types.len(),
                self.wf(),
                *self == *old(self),
                !types@.contains(TokenType::EOF),
                forall|j: int|
                    0 <= j < i ==> types@[j] != self.tokens@[self.current as int].token_type,
            decreases types.len() - i,
        {
            if self.check(types[i]) {
                assert(types@[i as int] != TokenType::EOF);
                self.advance();
                return true;
            }
            i += 1;
        }
        false
    }

    /// Tells whether the next token is of the given category and does not
    /// end the input.
    pub fn check(&self, token_type: TokenType) -> (r: bool)
        requires
            self.current < self.tokens.len(),
        ensures
            r == (self.tokens@[self.current as int].token_type != TokenType::EOF
                && self.tokens@[self.current as int].token_type == token_type),
    {
        if self.is_at_end() {
            return false;
        }
        self.peek().token_type == token_type
    }

    /// Moves past the next token, unless it ends the input.
    pub fn advance(&mut self)
        requires
            old(self).current < old(self).tokens.len(),
        ensures
            final(self).tokens == old(self).tokens,
            final(self).current == if old(self).tokens@[old(self).current as int].token_type
                == TokenType::EOF {
                old(self).current
            } else {
                (old(self).current + 1) as usize
            },
    {
        if !self.is_at_end() {
            self.current += 1;
        }
    }

    /// Tells whether the next token ends the input.
    pub fn is_at_end(&self) -> (r: bool)
        requires
            self.current < self.tokens.len(),
        ensures
            r == (self.tokens@[self.current as int].token_type == TokenType::EOF),
    {
        self.peek().token_type == TokenType::EOF
    }

    /// The next token.
    pub fn peek(&self) -> (token: &Token)
        requires
            self.current < self.tokens.len(),
        ensures
            *token == self.tokens@[self.current as int],
    {
        &self.tokens[self.current]
    }

    /// The token before the next one.
    pub fn previous(&self) -> (token: &Token)
        requires
            0 < self.current <= self.tokens.len(),
        ensures
            *token == self.tokens@[self.current - 1],
    {
        &self.tokens[self.current - 1]
    }

    /// Reports a syntax error at `token`.
    pub fn error(&mut self, reporter: &mut LoxReporter, token: &Token, message: &str) -> (error:
        ParseError)
        ensures
            *final(self) == *old(self),
            final(reporter)@ == old(reporter)@.with_error(parse_error_text(token@, message@)),
    {
        reporter.parse_error(token, message);
        ParseError::Error
    }

    /// Skips tokens up to the next point at which a statement can start:
    /// past the next token, and on until the end of the input, until a `;` was
    /// passed, or until a token that starts a statement is next.
    pub fn synchronize(&mut self)
        requires
            old(self).wf(),
        ensures
            final(self).tokens == old(self).tokens,
            final(self).wf(),
            final(self).current == if old(self).tokens@[old(self).current as int].token_type
                == TokenType::EOF {
                old(self).current as int
            } else {
                synchronized(old(self).tokens@, old(self).current + 1)
            },
    {
        if self.is_at_end() {
            return ;
        }
        self.advance();
        while !self.is_at_end()
            invariant
                self.wf(),
                self.tokens == old(self).tokens,
                self.current > 0,
                old(self).tokens@[old(self).current as int].token_type != TokenType::EOF,
                synchronized(self.tokens@, self.current as int) == synchronized(
                    old(self).tokens@,
                    old(self).current + 1,
                ),
            decreases self.tokens.len() - self.current,
        {
            if self.previous().token_type == TokenType::Semicolon {
                return ;
            }
            match self.peek().token_type {
                TokenType::Class
                | TokenType::For
                | TokenType::Fun
                | TokenType::If
                | TokenType::Print
                | TokenType::Return
                | TokenType::Var
                | TokenType::While => {
                    return ;
                },
                _ => (),
            }
            self.advance();
        }
    }
}

/// Tells whether the tokens end with the token that ends the input.
pub fn ends_input(tokens: &[Token]) -> (r: bool)
    ensures
        r == terminated(tokens@),
{
    tokens.len() > 0 && tokens[tokens.len() - 1].token_type == TokenType::EOF
}

/// Parses one expression from the start of `tokens`. A syntax error is
/// reported to `reporter`, and then there is no expression.
pub fn parse(reporter: &mut LoxReporter, tokens: Vec<Token>) -> (out: Option<Expr>)
    requires
        terminated(tokens@),
    ensures
        match parse_expression(tokens@, 0) {
            Parsed::Tree { expr, next } => {
                &&& out == Some(expr)
                &&& well_formed(expr@)
                &&& final(reporter)@ == old(reporter)@
            },
            Parsed::Failure { at, message } => {
                &&& out is None
                &&& final(reporter)@ == old(reporter)@.with_error(
                    parse_error_text(tokens@[at]@, message),
                )
            },
        },
{
    let mut parser = Parser::new(tokens.as_slice());
    match parser.expression(reporter) {
        Ok(expr) => Some(expr),
        Err(_) => None,
    }
}

} // verus!
