//! The expression tree and the interface through which it is walked.
//!
//! There are four kinds of node and no more. A node owns its children, so a
//! tree shares nothing and holds no cycle. Whoever walks a tree implements
//! [`Visitor`], with one operation per kind of node, and [`Expr::accept`]
//! hands each node to the operation for its kind.

use vstd::prelude::*;
use crate::token::{Object, Token};

verus! {

/// An expression.
#[derive(Debug)]
pub enum Expr {
    Binary(Binary),
    Grouping(Grouping),
    Literal(Literal),
    Unary(Unary),
}

/// Two operands and the operator between them.
#[derive(Debug)]
pub struct Binary {
    pub left: Box<Expr>,
    pub operator: Token,
    pub right: Box<Expr>,
}

/// An expression in parentheses.
#[derive(Debug)]
pub struct Grouping {
    pub expression: Box<Expr>,
}

/// A literal value.
#[derive(Debug)]
pub struct Literal {
    pub value: Object,
}

/// An operator and its one operand.
#[derive(Debug)]
pub struct Unary {
    pub operator: Token,
    pub right: Box<Expr>,
}

impl Binary {
    pub fn new(left: Box<Expr>, operator: Token, right: Box<Expr>) -> (out: Self)
        ensures
            out == (Binary { left, operator, right }),
    {
        Self { left, operator, right }
    }
}

impl Grouping {
    pub fn new(expression: Box<Expr>) -> (out: Self)
        ensures
            out == (Grouping { expression }),
    {
        Self { expression }
    }
}

impl Literal {
    pub fn new(value: Object) -> (out: Self)
        ensures
            out == (Literal { value }),
    {
        Self { value }
    }
}

impl Unary {
    pub fn new(operator: Token, right: Box<Expr>) -> (out: Self)
        ensures
            out == (Unary { operator, right }),
    {
        Self { operator, right }
    }
}

/// One operation per kind of node, each with a result of type `T`.
///
/// For each operation an implementation may say, in a predicate of its own,
/// what the operation does: how the visitor before the call, the node, the
/// visitor after the call and the result are related. An implementation that
/// says nothing promises nothing.
pub trait Visitor<T> {
    /// What `visit_binary_expr` does.
    open spec fn visits_binary(&self, expr: &Binary, after: &Self, out: T) -> bool {
        true
    }

    /// What `visit_grouping_expr` does.
    open spec fn visits_grouping(&self, expr: &Grouping, after: &Self, out: T) -> bool {
        true
    }

    /// What `visit_literal_expr` does.
    open spec fn visits_literal(&self, expr: &Literal, after: &Self, out: T) -> bool {
        true
    }

    /// What `visit_unary_expr` does.
    open spec fn visits_unary(&self, expr: &Unary, after: &Self, out: T) -> bool {
        true
    }

    fn visit_binary_expr(&mut self, expr: &Binary) -> (out: T)
        ensures
            old(self).visits_binary(expr, final(self), out),
    ;

    fn visit_grouping_expr(&mut self, expr: &Grouping) -> (out: T)
        ensures
            old(self).visits_grouping(expr, final(self), out),
    ;

    fn visit_literal_expr(&mut self, expr: &Literal) -> (out: T)
        ensures
            old(self).visits_literal(expr, final(self), out),
    ;

    fn visit_unary_expr(&mut self, expr: &Unary) -> (out: T)
        ensures
            old(self).visits_unary(expr, final(self), out),
    ;
}

impl Expr {
    /// What a visit of this node does: what the operation for its kind does.
    pub open spec fn visited<T, V: Visitor<T>>(&self, before: &V, after: &V, out: T) -> bool {
        match self {
            Expr::Binary(expr) => before.visits_binary(expr, after, out),
            Expr::Grouping(expr) => before.visits_grouping(expr, after, out),
            Expr::Literal(expr) => before.visits_literal(expr, after, out),
            Expr::Unary(expr) => before.visits_unary(expr, after, out),
        }
    }

    /// Hands this node to the operation of `visitor` for its kind, and
    /// returns what that operation returns.
    pub fn accept<T, V: Visitor<T>>(&self, visitor: &mut V) -> (out: T)
        ensures
            self.visited(old(visitor), final(visitor), out),
    {
        match self {
            Expr::Binary(expr) => visitor.visit_binary_expr(expr),
            Expr::Grouping(expr) => visitor.visit_grouping_expr(expr),
            Expr::Literal(expr) => visitor.visit_literal_expr(expr),
            Expr::Unary(expr) => visitor.visit_unary_expr(expr),
        }
    }
}

/// How many nodes lie on the longest path from `expr` down to a literal.
pub open spec fn depth(expr: Expr) -> nat
    decreases expr,
{
    match expr {
        Expr::Binary(b) => 1 + if depth(*b.left) >= depth(*b.right) {
            depth(*b.left)
        } else {
            depth(*b.right)
        },
        Expr::Grouping(g) => 1 + depth(*g.expression),
        Expr::Literal(_) => 0,
        Expr::Unary(u) => 1 + depth(*u.right),
    }
}

} // verus!
