//! Expression trees and the printer that writes them out fully parenthesised.
use vstd::prelude::*;
use crate::text::{push_char, push_text};
use crate::token::TokenType;

verus! {

/// literal | unary | binary | grouping
pub enum Expr {
    /// expression operator expression
    Binary(Box<Expr>, TokenType, Box<Expr>),
    /// "(" expression ")"
    Grouping(Box<Expr>),
    /// ( "-" | "!" ) expression
    Unary(TokenType, Box<Expr>),
    /// NUMBER | STRING | "true" | "false" | "nil"
    Literal(Literal),
}

/// The value of a literal node.
#[derive(Debug)]
pub enum Literal {
    /// A number, kept in its textual form.
    Number(String),
    String(String),
    True,
    False,
    Nil,
}

/// The number of nodes in `e`.
pub open spec fn size(e: Expr) -> nat
    decreases e,
{
    match e {
        Expr::Binary(l, _, r) => 1 + size(*l) + size(*r),
        Expr::Grouping(inner) => 1 + size(*inner),
        Expr::Unary(_, operand) => 1 + size(*operand),
        Expr::Literal(_) => 1,
    }
}

/// The symbol printed for a binary operator.
pub open spec fn binary_symbol(op: TokenType) -> Seq<char> {
    match op {
        TokenType::Minus => seq!['-'],
        TokenType::Plus => seq!['+'],
        TokenType::Slash => seq!['/'],
        TokenType::Star => seq!['*'],
        _ => Seq::empty(),
    }
}

/// The symbol printed for a unary operator.
pub open spec fn unary_symbol(op: TokenType) -> Seq<char> {
    match op {
        TokenType::Minus => seq!['-'],
        TokenType::Bang => seq!['!'],
        _ => Seq::empty(),
    }
}

/// The text of a literal value.
pub open spec fn literal_text(l: Literal) -> Seq<char> {
    match l {
        Literal::Number(s) => s@,
        Literal::String(s) => s@,
        Literal::True => "true"@,
        Literal::False => "false"@,
        Literal::Nil => "nil"@,
    }
}

/// The fully parenthesised text of `e`.
pub open spec fn printed(e: Expr) -> Seq<char>
    decreases e,
{
    match e {
        Expr::Binary(l, op, r) => seq!['('] + printed(*l) + binary_symbol(op) + printed(*r)
            + seq![')'],
        Expr::Grouping(inner) => seq!['('] + printed(*inner) + seq![')'],
        Expr::Unary(op, operand) => seq!['('] + unary_symbol(op) + printed(*operand) + seq![')'],
        Expr::Literal(l) => literal_text(l),
    }
}

/// Writes expression trees out as fully parenthesised text.
pub struct AstPrinter;

impl AstPrinter {
    /// The fully parenthesised text of `expr`.
    pub fn print(&mut self, expr: &Expr) -> (r: String)
        ensures
            r@ == printed(*expr),
    {
        let mut out = String::new();
        expr.accept(self, &mut out);
        assert(out@ =~= printed(*expr));
        out
    }

    fn visit_binary_expr(
        &self,
        left: &Box<Expr>,
        binary_op: &TokenType,
        right: &Box<Expr>,
        out: &mut String,
    )
        ensures
            final(out)@ == old(out)@ + seq!['('] + printed(**left) + binary_symbol(*binary_op)
                + printed(**right) + seq![')'],
        decreases 1 + size(**left) + size(**right), 0nat,
    {
        push_char(out, '(');
        left.accept(self, out);
        match binary_op {
            TokenType::Minus => push_char(out, '-'),
            TokenType::Plus => push_char(out, '+'),
            TokenType::Slash => push_char(out, '/'),
            TokenType::Star => push_char(out, '*'),
            _ => {},
        }
        right.accept(self, out);
        push_char(out, ')');
        assert(out@ =~= old(out)@ + seq!['('] + printed(**left) + binary_symbol(*binary_op)
            + printed(**right) + seq![')']);
    }

    fn visit_grouping_expr(&self, expr: &Expr, out: &mut String)
        ensures
            final(out)@ == old(out)@ + seq!['('] + printed(*expr) + seq![')'],
        decreases 1 + size(*expr), 0nat,
    {
        push_char(out, '(');
        expr.accept(self, out);
        push_char(out, ')');
        assert(out@ =~= old(out)@ + seq!['('] + printed(*expr) + seq![')']);
    }

    fn visit_literal_expr(&self, literal: &Literal, out: &mut String)
        ensures
            final(out)@ == old(out)@ + literal_text(*literal),
    {
        match literal {
            Literal::Number(n) => push_text(out, n.as_str()),
            Literal::String(s) => push_text(out, s.as_str()),
            Literal::True => push_text(out, "true"),
            Literal::False => push_text(out, "false"),
            Literal::Nil => push_text(out, "nil"),
        }
    }

    fn visit_unary_expr(&self, unary: &TokenType, expr: &Box<Expr>, out: &mut String)
        ensures
            final(out)@ == old(out)@ + seq!['('] + unary_symbol(*unary) + printed(**expr) + seq![
                ')',
            ],
        decreases 1 + size(**expr), 0nat,
    {
        push_char(out, '(');
        match unary {
            TokenType::Minus => push_char(out, '-'),
            TokenType::Bang => push_char(out, '!'),
            _ => {},
        }
        expr.accept(self, out);
        push_char(out, ')');
        assert(out@ =~= old(out)@ + seq!['('] + unary_symbol(*unary) + printed(**expr) + seq![
            ')',
        ]);
    }
}

impl Expr {
    /// Hands this node's fields to the printer's handler for its kind, which
    /// appends the node's text to `out`.
    fn accept(&self, printer: &AstPrinter, out: &mut String)
        ensures
            final(out)@ == old(out)@ + printed(*self),
        decreases size(*self), 1nat,
    {
        match self {
            Expr::Binary(left, binary_op, right) => printer.visit_binary_expr(
                left,
                binary_op,
                right,
                out,
            ),
            Expr::Grouping(expr) => printer.visit_grouping_expr(expr, out),
            Expr::Literal(literal) => printer.visit_literal_expr(literal, out),
            Expr::Unary(unary, expr) => printer.visit_unary_expr(unary, expr, out),
        }
    }
}

} // verus!
