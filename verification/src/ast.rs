//! The syntax tree.

use crate::token::{Token, TokenView};
use vstd::prelude::*;

verus! {

/// An expression: something that evaluates to a value.
#[derive(Debug)]
pub enum Expr {
    Binary(Box<Expr>, Token, Box<Expr>),
    Grouping(Box<Expr>),
    Literal(Token),
    Unary(Token, Box<Expr>),
    Assignment(Token, Box<Expr>),
    Variable(Token),
}

/// A statement: the unit a program is made of.
#[derive(Debug)]
pub enum Stmt {
    Expr(Expr),
    Print(Expr),
    Block(Vec<Stmt>),
    Var { name: Token, value: Option<Expr> },
}

/// The mathematical value of an [`Expr`].
pub enum ExprView {
    Binary(Box<ExprView>, TokenView, Box<ExprView>),
    Grouping(Box<ExprView>),
    Literal(TokenView),
    Unary(TokenView, Box<ExprView>),
    Assignment(TokenView, Box<ExprView>),
    Variable(TokenView),
}

/// The mathematical value of a [`Stmt`].
pub enum StmtView {
    Expr(ExprView),
    Print(ExprView),
    Block(Seq<StmtView>),
    Var { name: TokenView, value: Option<ExprView> },
}

/// The mathematical value of an expression.
pub open spec fn expr_view(e: Expr) -> ExprView
    decreases e,
{
    match e {
        Expr::Binary(l, op, r) => ExprView::Binary(
            Box::new(expr_view(*l)),
            op@,
            Box::new(expr_view(*r)),
        ),
        Expr::Grouping(e) => ExprView::Grouping(Box::new(expr_view(*e))),
        Expr::Literal(t) => ExprView::Literal(t@),
        Expr::Unary(op, e) => ExprView::Unary(op@, Box::new(expr_view(*e))),
        Expr::Assignment(name, e) => ExprView::Assignment(name@, Box::new(expr_view(*e))),
        Expr::Variable(name) => ExprView::Variable(name@),
    }
}

impl View for Expr {
    type V = ExprView;

    open spec fn view(&self) -> ExprView {
        expr_view(*self)
    }
}

/// The view of an optional expression.
pub open spec fn opt_expr_view(e: Option<Expr>) -> Option<ExprView> {
    match e {
        Some(e) => Some(e@),
        None => None,
    }
}

/// The mathematical value of a statement.
pub open spec fn stmt_view(s: Stmt) -> StmtView
    decreases s,
{
    match s {
        Stmt::Expr(e) => StmtView::Expr(e@),
        Stmt::Print(e) => StmtView::Print(e@),
        Stmt::Block(stmts) => StmtView::Block(
            Seq::new(
                stmts@.len(),
                |i: int|
                    if 0 <= i < stmts@.len() {
                        stmt_view(stmts@[i])
                    } else {
                        arbitrary()
                    },
            ),
        ),
        Stmt::Var { name, value } => StmtView::Var { name: name@, value: opt_expr_view(value) },
    }
}

impl View for Stmt {
    type V = StmtView;

    open spec fn view(&self) -> StmtView {
        stmt_view(*self)
    }
}

/// The views of a sequence of statements.
pub open spec fn stmt_views(stmts: Seq<Stmt>) -> Seq<StmtView> {
    stmts.map_values(|s: Stmt| s@)
}

/// How an expression is written out, with its structure made visible:
/// an operation in round brackets, a grouping in square brackets, an
/// assignment as the value, an arrow and the name.
pub open spec fn expr_text(e: ExprView) -> Seq<char>
    decreases e,
{
    match e {
        ExprView::Binary(left, op, right) => "("@ + expr_text(*left) + " "@ + op.span.lex + " "@
            + expr_text(*right) + ")"@,
        ExprView::Unary(op, operand) => "("@ + op.span.lex + expr_text(*operand) + ")"@,
        ExprView::Literal(lit) => lit.span.lex,
        ExprView::Grouping(inner) => "["@ + expr_text(*inner) + "]"@,
        ExprView::Variable(name) => name.span.lex,
        ExprView::Assignment(name, value) => expr_text(*value) + " -> "@ + name.span.lex,
    }
}

impl Expr {
    /// How the expression is written out, with its structure made visible.
    pub fn text(&self) -> (s: String)
        ensures
            s@ == expr_text(self@),
        decreases self,
    {
        match self {
            Expr::Binary(left, op, right) => {
                let mut s = String::from_str("(");
                s.append(left.text().as_str());
                s.append(" ");
                s.append(op.span.lex.as_str());
                s.append(" ");
                s.append(right.text().as_str());
                s.append(")");
                s
            },
            Expr::Unary(op, operand) => {
                let mut s = String::from_str("(");
                s.append(op.span.lex.as_str());
                s.append(operand.text().as_str());
                s.append(")");
                s
            },
            Expr::Literal(lit) => lit.lex(),
            Expr::Grouping(inner) => {
                let mut s = String::from_str("[");
                s.append(inner.text().as_str());
                s.append("]");
                s
            },
            Expr::Variable(name) => name.lex(),
            Expr::Assignment(name, value) => {
                let mut s = value.text();
                s.append(" -> ");
                s.append(name.span.lex.as_str());
                s
            },
        }
    }
}

} // verus!
