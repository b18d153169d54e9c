//! Renders an expression tree in prefix notation with every node in
//! parentheses.

use crate::ast::{Expr, ExprView};
use vstd::prelude::*;

verus! {

/// The parts, each behind a space.
pub open spec fn joined(parts: Seq<Seq<char>>) -> Seq<char>
    decreases parts.len(),
{
    if parts.len() == 0 {
        Seq::empty()
    } else {
        joined(parts.drop_last()) + seq![' '] + parts.last()
    }
}

/// A name and parts between parentheses: `(name part part)`.
pub open spec fn parenthesized(name: Seq<char>, parts: Seq<Seq<char>>) -> Seq<char> {
    seq!['('] + name + joined(parts) + seq![')']
}

/// A node with one child: `(name child)`.
pub open spec fn form_of_one(name: Seq<char>, child: Seq<char>) -> Seq<char> {
    parenthesized(name, seq![child])
}

/// A node with two children: `(name left right)`.
pub open spec fn form_of_two(name: Seq<char>, left: Seq<char>, right: Seq<char>) -> Seq<char> {
    parenthesized(name, seq![left, right])
}

/// Whether `out` is a rendering of `expr`, where `number` gives the decimal
/// form of numbers: a literal is the display form of its value, a grouping is
/// `(group inner)`, a unary node is `(operator right)` and a binary node is
/// `(operator left right)`, each operator by its text.
pub open spec fn printed<F: Fn(u64) -> String>(expr: ExprView, number: F, out: Seq<char>) -> bool
    decreases expr,
{
    match expr {
        ExprView::Literal(value) => value.shown_as(number, out),
        ExprView::Grouping(_) => exists|inner: Seq<char>|
            printed(*expr->Grouping_0, number, inner) && out == #[trigger] form_of_one(
                "group"@,
                inner,
            ),
        ExprView::Unary { .. } => exists|right: Seq<char>|
            printed(*expr->Unary_right, number, right) && out == #[trigger] form_of_one(
                expr->Unary_operator.lexeme,
                right,
            ),
        ExprView::Binary { .. } => exists|left: Seq<char>, right: Seq<char>|
            printed(*expr->left, number, left) && printed(*expr->Binary_right, number, right)
                && out == #[trigger] form_of_two(expr->Binary_operator.lexeme, left, right),
    }
}

/// The printer of expression trees.
#[derive(Debug)]
pub struct AstPrinter;

impl AstPrinter {
    /// `(name part part)`
    pub fn parenthesize(&self, name: &str, parts: &[String]) -> (out: String)
        ensures
            out@ == parenthesized(name@, parts@.map_values(|part: String| part@)),
    {
        let ghost texts = parts@.map_values(|part: String| part@);
        let mut result = String::new();
        result.push('(');
        result.append(name);
        let mut i: usize = 0;
        while i < parts.len()
            invariant
                i <= parts.len(),
                texts == parts@.map_values(|part: String| part@),
                result@ == seq!['('] + name@ + joined(texts.take(i as int)),
            decreases parts.len() - i,
        {
            result.push(' ');
            result.append(parts[i].as_str());
            i += 1;
            proof {
                let taken = texts.take(i as int);
                assert(taken.drop_last() =~= texts.take(i - 1));
                assert(taken.last() == parts@[i - 1]@);
                assert(result@ =~= seq!['('] + name@ + joined(taken));
            }
        }
        result.push(')');
        proof {
            assert(texts.take(parts.len() as int) =~= texts);
            assert(result@ =~= parenthesized(name@, texts));
        }
        result
    }

    /// Renders an expression.
    pub fn print<F: Fn(u64) -> String>(&self, expr: &Expr, number: &F) -> (out: String)
        requires
            forall|bits: u64| call_requires(*number, (bits,)),
        ensures
            printed(expr@, *number, out@),
    {
        self.visit_expr(expr, number)
    }

    /// Renders one node: its children first, then the node around them.
    pub fn visit_expr<F: Fn(u64) -> String>(&self, expr: &Expr, number: &F) -> (out: String)
        requires
            forall|bits: u64| call_requires(*number, (bits,)),
        ensures
            printed(expr@, *number, out@),
        decreases expr,
    {
        match expr {
            Expr::Binary { left, operator, right } => {
                let l = self.visit_expr(left, number);
                let r = self.visit_expr(right, number);
                let out = self.parenthesize(operator.lexeme.as_str(), &[l, r]);
                assert(out@ == form_of_two(operator@.lexeme, l@, r@)) by {
                    assert([l, r]@.map_values(|part: String| part@) =~= seq![l@, r@]);
                }
                out
            },
            Expr::Grouping(inner) => {
                let i = self.visit_expr(inner, number);
                let out = self.parenthesize("group", &[i]);
                assert(out@ == form_of_one("group"@, i@)) by {
                    assert([i]@.map_values(|part: String| part@) =~= seq![i@]);
                }
                out
            },
            Expr::Literal(value) => value.to_text(number),
            Expr::Unary { operator, right } => {
                let r = self.visit_expr(right, number);
                let out = self.parenthesize(operator.lexeme.as_str(), &[r]);
                assert(out@ == form_of_one(operator@.lexeme, r@)) by {
                    assert([r]@.map_values(|part: String| part@) =~= seq![r@]);
                }
                out
            },
        }
    }
}

} // verus!
