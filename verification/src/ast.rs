//! The expression tree.

use crate::token::{Token, TokenView, Value, ValueView};
use vstd::prelude::*;
use vstd::std_specs::cmp::PartialEqSpecImpl;
use vstd::std_specs::convert::FromSpec;

verus! {

/// An expression. Each node owns its children.
#[derive(Debug)]
pub enum Expr {
    Binary { left: Box<Expr>, operator: Token, right: Box<Expr> },
    Grouping(Box<Expr>),
    Literal(Value),
    Unary { operator: Token, right: Box<Expr> },
}

/// The mathematical content of an [`Expr`].
pub enum ExprView {
    Binary { left: Box<ExprView>, operator: TokenView, right: Box<ExprView> },
    Grouping(Box<ExprView>),
    Literal(ValueView),
    Unary { operator: TokenView, right: Box<ExprView> },
}

impl Expr {
    /// The tree with each token and literal replaced by its content.
    pub open spec fn content(self) -> ExprView
        decreases self,
    {
        match self {
            Expr::Binary { left, operator, right } => ExprView::Binary {
                left: Box::new(left.content()),
                operator: operator@,
                right: Box::new(right.content()),
            },
            Expr::Grouping(inner) => ExprView::Grouping(Box::new(inner.content())),
            Expr::Literal(value) => ExprView::Literal(value@),
            Expr::Unary { operator, right } => ExprView::Unary {
                operator: operator@,
                right: Box::new(right.content()),
            },
        }
    }
}

impl View for Expr {
    type V = ExprView;

    open spec fn view(&self) -> ExprView {
        self.content()
    }
}

impl ExprView {
    /// Equality of trees: the same shape, with equal operators and
    /// literals that are the same value.
    pub open spec fn same(self, other: ExprView) -> bool
        decreases self,
    {
        match (self, other) {
            (
                ExprView::Binary { left: l1, operator: o1, right: r1 },
                ExprView::Binary { left: l2, operator: o2, right: r2 },
            ) => l1.same(*l2) && o1.same(o2) && r1.same(*r2),
            (ExprView::Grouping(e1), ExprView::Grouping(e2)) => e1.same(*e2),
            (ExprView::Literal(v1), ExprView::Literal(v2)) => v1.same(v2),
            (
                ExprView::Unary { operator: o1, right: r1 },
                ExprView::Unary { operator: o2, right: r2 },
            ) => o1.same(o2) && r1.same(*r2),
            _ => false,
        }
    }
}

impl Expr {
    pub fn binary(left: Expr, operator: Token, right: Expr) -> (expr: Self)
        ensures
            expr == (Expr::Binary { left: Box::new(left), operator, right: Box::new(right) }),
    {
        Self::Binary { left: Box::new(left), operator, right: Box::new(right) }
    }

    pub fn grouping(expr: Expr) -> (group: Self)
        ensures
            group == Expr::Grouping(Box::new(expr)),
    {
        Self::Grouping(Box::new(expr))
    }

    /// A literal of the value that `value` converts to.
    pub fn literal<T>(value: T) -> (expr: Self) where Value: From<T>
        ensures
            expr matches Expr::Literal(v) && call_ensures(Value::from, (value,), v),
            <Value as FromSpec<T>>::obeys_from_spec() ==> expr == Expr::Literal(
                <Value as FromSpec<T>>::from_spec(value),
            ),
    {
        Self::Literal(Value::from(value))
    }

    pub fn unary(operator: Token, right: Expr) -> (expr: Self)
        ensures
            expr == (Expr::Unary { operator, right: Box::new(right) }),
    {
        Self::Unary { operator, right: Box::new(right) }
    }
}

impl PartialEq for Expr {
    fn eq(&self, other: &Self) -> (r: bool)
        decreases self,
    {
        match (self, other) {
            (
                Expr::Binary { left: l1, operator: o1, right: r1 },
                Expr::Binary { left: l2, operator: o2, right: r2 },
            ) => **l1 == **l2 && *o1 == *o2 && **r1 == **r2,
            (Expr::Grouping(e1), Expr::Grouping(e2)) => **e1 == **e2,
            (Expr::Literal(v1), Expr::Literal(v2)) => *v1 == *v2,
            (
                Expr::Unary { operator: o1, right: r1 },
                Expr::Unary { operator: o2, right: r2 },
            ) => *o1 == *o2 && **r1 == **r2,
            _ => false,
        }
    }
}

impl PartialEqSpecImpl for Expr {
    open spec fn obeys_eq_spec() -> bool {
        true
    }

    open spec fn eq_spec(&self, other: &Self) -> bool {
        self@.same(other@)
    }
}

/// A statement.
#[derive(Debug)]
pub enum Stmt {
    Expression(Expr),
    Print(Expr),
}

impl Stmt {
    pub fn expression(expression: Expr) -> (stmt: Self)
        ensures
            stmt == Stmt::Expression(expression),
    {
        Self::Expression(expression)
    }

    pub fn print(expression: Expr) -> (stmt: Self)
        ensures
            stmt == Stmt::Print(expression),
    {
        Self::Print(expression)
    }
}

impl PartialEq for Stmt {
    fn eq(&self, other: &Self) -> (r: bool) {
        match (self, other) {
            (Stmt::Expression(a), Stmt::Expression(b)) => *a == *b,
            (Stmt::Print(a), Stmt::Print(b)) => *a == *b,
            _ => false,
        }
    }
}

impl PartialEqSpecImpl for Stmt {
    open spec fn obeys_eq_spec() -> bool {
        true
    }

    open spec fn eq_spec(&self, other: &Self) -> bool {
        match (self, other) {
            (Stmt::Expression(a), Stmt::Expression(b)) => a@.same(b@),
            (Stmt::Print(a), Stmt::Print(b)) => a@.same(b@),
            _ => false,
        }
    }
}

} // verus!
