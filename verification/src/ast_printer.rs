//! A printer that renders an expression tree in prefix notation, with
//! parentheses round every operator and its operands.

use vstd::prelude::*;
use vstd::string::StringExecFns;
use crate::expr::{depth, Binary, Expr, Grouping, Literal, Unary, Visitor};

verus! {

/// `parts`, each with a space before it.
pub open spec fn spaced(parts: Seq<Seq<char>>) -> Seq<char>
    decreases parts.len(),
{
    if parts.len() == 0 {
        Seq::empty()
    } else {
        spaced(parts.drop_last()) + seq![' '] + parts.last()
    }
}

/// `name` and `parts` in one pair of parentheses, with a space before each
/// part.
pub open spec fn parenthesized(name: Seq<char>, parts: Seq<Seq<char>>) -> Seq<char> {
    seq!['('] + name + spaced(parts) + seq![')']
}

/// The prefix notation of `expr`. A literal is its value as text. An operator
/// stands first in its parentheses, before its operands, and a grouping is
/// shown as the operator `group`.
pub open spec fn render(expr: Expr) -> Seq<char>
    decreases expr,
{
    match expr {
        Expr::Binary(b) => parenthesized(
            b.operator.lexeme@,
            seq![render(*b.left), render(*b.right)],
        ),
        Expr::Grouping(g) => parenthesized("group"@, seq![render(*g.expression)]),
        Expr::Literal(l) => l.value@.text(),
        Expr::Unary(u) => parenthesized(u.operator.lexeme@, seq![render(*u.right)]),
    }
}

/// The prefix notation of each of `exprs`.
pub open spec fn renders(exprs: Seq<&Expr>) -> Seq<Seq<char>> {
    Seq::new(exprs.len(), |i: int| render(*exprs[i]))
}

/// The largest depth among `exprs`.
pub open spec fn deepest(exprs: Seq<&Expr>) -> nat
    decreases exprs.len(),
{
    if exprs.len() == 0 {
        0
    } else if deepest(exprs.drop_last()) >= depth(*exprs.last()) {
        deepest(exprs.drop_last())
    } else {
        depth(*exprs.last())
    }
}

proof fn lemma_deepest(exprs: Seq<&Expr>, i: int)
    requires
        0 <= i < exprs.len(),
    ensures
        depth(*exprs[i]) <= deepest(exprs),
    decreases exprs.len(),
{
    if i < exprs.len() - 1 {
        lemma_deepest(exprs.drop_last(), i);
    }
}

/// The printer.
#[derive(Debug)]
pub struct AstPrinter {}

impl AstPrinter {
    /// Renders `exprs` one after another and puts them, with `name` first,
    /// in one pair of parentheses.
    pub fn parenthesize(&mut self, name: String, exprs: Vec<&Expr>) -> (out: String)
        ensures
            out@ == parenthesized(name@, renders(exprs@)),
        decreases deepest(exprs@), 2nat,
    {
        let mut parenthized = String::new();
        parenthized.push('(');
        parenthized.append(name.as_str());
        let mut i: usize = 0;
        while i < exprs.len()
            invariant
                i <= exprs.len(),
                parenthized@ == seq!['('] + name@ + spaced(renders(exprs@).take(i as int)),
            decreases exprs.len() - i,
        {
            proof {
                lemma_deepest(exprs@, i as int);
                let done = renders(exprs@).take(i + 1);
                assert(done.drop_last() == renders(exprs@).take(i as int));
            }
            parenthized.push(' ');
            let part = self.print(exprs[i]);
            parenthized.append(part.as_str());
            i += 1;
        }
        parenthized.push(')');
        assert(renders(exprs@).take(i as int) == renders(exprs@));
        parenthized
    }

    /// Renders a literal: its value as text.
    pub fn print_literal(&mut self, expr: &Literal) -> (out: String)
        ensures
            out@ == render(Expr::Literal(*expr)),
    {
        expr.value.to_string()
    }

    /// Renders a unary expression: the operator, then its operand.
    pub fn print_unary(&mut self, expr: &Unary) -> (out: String)
        ensures
            out@ == render(Expr::Unary(*expr)),
        decreases depth(Expr::Unary(*expr)), 0nat,
    {
        let exprs: Vec<&Expr> = vec![&*expr.right];
        proof {
            reveal_with_fuel(deepest, 2);
            assert(renders(exprs@) == seq![render(*expr.right)]);
        }
        self.parenthesize(expr.operator.lexeme.clone(), exprs)
    }

    /// Renders a binary expression: the operator, then its two operands.
    pub fn print_binary(&mut self, expr: &Binary) -> (out: String)
        ensures
            out@ == render(Expr::Binary(*expr)),
        decreases depth(Expr::Binary(*expr)), 0nat,
    {
        let exprs: Vec<&Expr> = vec![&*expr.left, &*expr.right];
        proof {
            reveal_with_fuel(deepest, 3);
            assert(renders(exprs@) == seq![render(*expr.left), render(*expr.right)]);
        }
        self.parenthesize(expr.operator.lexeme.clone(), exprs)
    }

    /// Renders a grouping: `group`, then what is grouped.
    pub fn print_grouping(&mut self, expr: &Grouping) -> (out: String)
        ensures
            out@ == render(Expr::Grouping(*expr)),
        decreases depth(Expr::Grouping(*expr)), 0nat,
    {
        let exprs: Vec<&Expr> = vec![&*expr.expression];
        proof {
            reveal_with_fuel(deepest, 2);
            assert(renders(exprs@) == seq![render(*expr.expression)]);
        }
        self.parenthesize("group".to_owned(), exprs)
    }

    /// Renders `expr` in prefix notation.
    pub fn print(&mut self, expr: &Expr) -> (out: String)
        ensures
            out@ == render(*expr),
        decreases depth(*expr), 1nat,
    {
        match expr {
            Expr::Literal(lit) => self.print_literal(lit),
            Expr::Unary(unary) => self.print_unary(unary),
            Expr::Binary(binary) => self.print_binary(binary),
            Expr::Grouping(grouping) => self.print_grouping(grouping),
        }
    }
}

/// Each kind of node has a rendering of its own: a literal is its value, a
/// grouping is marked `group`, and an operator stands before one operand or
/// two.
pub proof fn lemma_render_by_kind(expr: Expr)
    ensures
        match expr {
            Expr::Binary(b) => render(expr) == seq!['('] + b.operator.lexeme@ + seq![' '] + render(
                *b.left,
            ) + seq![' '] + render(*b.right) + seq![')'],
            Expr::Grouping(g) => render(expr) == seq!['('] + "group"@ + seq![' '] + render(
                *g.expression,
            ) + seq![')'],
            Expr::Literal(l) => render(expr) == l.value@.text(),
            Expr::Unary(u) => render(expr) == seq!['('] + u.operator.lexeme@ + seq![' '] + render(
                *u.right,
            ) + seq![')'],
        },
{
    reveal_with_fuel(spaced, 3);
    match expr {
        Expr::Binary(b) => {
            assert(render(expr) == seq!['('] + b.operator.lexeme@ + seq![' '] + render(*b.left)
                + seq![' '] + render(*b.right) + seq![')']);
        },
        Expr::Grouping(g) => {
            assert(render(expr) == seq!['('] + "group"@ + seq![' '] + render(*g.expression)
                + seq![')']);
        },
        Expr::Literal(l) => {},
        Expr::Unary(u) => {
            assert(render(expr) == seq!['('] + u.operator.lexeme@ + seq![' '] + render(*u.right)
                + seq![')']);
        },
    }
}

/// Handing a node to the printer through [`Expr::accept`] renders it,
/// whatever kind of node it is.
pub proof fn lemma_accept_renders(expr: Expr, before: AstPrinter, after: AstPrinter, out: String)
    requires
        expr.visited::<String, AstPrinter>(&before, &after, out),
    ensures
        out@ == render(expr),
{
}

impl Visitor<String> for AstPrinter {
    open spec fn visits_binary(&self, expr: &Binary, after: &Self, out: String) -> bool {
        out@ == render(Expr::Binary(*expr))
    }

    open spec fn visits_grouping(&self, expr: &Grouping, after: &Self, out: String) -> bool {
        out@ == render(Expr::Grouping(*expr))
    }

    open spec fn visits_literal(&self, expr: &Literal, after: &Self, out: String) -> bool {
        out@ == render(Expr::Literal(*expr))
    }

    open spec fn visits_unary(&self, expr: &Unary, after: &Self, out: String) -> bool {
        out@ == render(Expr::Unary(*expr))
    }

    fn visit_binary_expr(&mut self, expr: &Binary) -> (out: String) {
        self.print_binary(expr)
    }

    fn visit_grouping_expr(&mut self, expr: &Grouping) -> (out: String) {
        self.print_grouping(expr)
    }

    fn visit_literal_expr(&mut self, expr: &Literal) -> (out: String) {
        self.print_literal(expr)
    }

    fn visit_unary_expr(&mut self, expr: &Unary) -> (out: String) {
        self.print_unary(expr)
    }
}

} // verus!
