//! Expressions, parsed by precedence climbing.

use super::{error_at, Parsed, Parser};
use crate::ast::{Expr, ExprView};
use crate::error::{Diagnostic, SyntaxError, SyntaxErrorView};
use crate::token::{TokenKind, TokenView};
use vstd::prelude::*;

verus! {

/// The binding powers of an infix operator, left and right: `None` for a
/// token that is no infix operator.
///
/// An operator binds tighter the higher its powers. A left power below the
/// right one makes the operator associate to the left; `=` and `==`
/// associate to the right.
pub open spec fn infix_power(op: TokenKind) -> Option<(u8, u8)> {
    match op {
        TokenKind::Equal => Some((2u8, 1u8)),
        TokenKind::EqualEqual => Some((4u8, 3u8)),
        TokenKind::Plus | TokenKind::Minus => Some((5u8, 6u8)),
        TokenKind::Star | TokenKind::Slash => Some((7u8, 8u8)),
        _ => None,
    }
}

/// `op` is a prefix operator.
pub open spec fn is_prefix(op: TokenKind) -> bool {
    op == TokenKind::Minus || op == TokenKind::Bang
}

/// The binding power of the prefix operators: above every infix operator.
pub open spec fn prefix_power() -> u8 {
    9
}

/// The binding powers of an infix operator.
pub fn infix_bp(op: &TokenKind) -> (bp: Option<(u8, u8)>)
    ensures
        bp == infix_power(*op),
{
    let bp = match op {
        TokenKind::Equal => (2, 1),
        TokenKind::EqualEqual => (4, 3),
        TokenKind::Plus | TokenKind::Minus => (5, 6),
        TokenKind::Star | TokenKind::Slash => (7, 8),
        _ => return None,
    };
    Some(bp)
}

/// The binding power of a prefix operator.
pub fn prefix_bp(op: &TokenKind) -> (bp: ((), u8))
    requires
        is_prefix(*op),
    ensures
        bp.1 == prefix_power(),
{
    ((), 9)
}

/// `kind` is the kind of a literal token.
pub open spec fn is_literal(kind: TokenKind) -> bool {
    kind == TokenKind::Number || kind == TokenKind::String || kind == TokenKind::True || kind
        == TokenKind::False
}

/// The expression that starts at `pos` and takes only operators that bind
/// at least as tightly as `min_bp`, and where it ends.
pub open spec fn parse_expr(toks: Seq<TokenView>, pos: int, min_bp: u8) -> Parsed<ExprView>
    decreases toks.len() - pos, 1nat,
{
    let first = parse_prefix(toks, pos);
    match first.result {
        Ok(left) => if pos < first.pos <= toks.len() {
            parse_infix(toks, left, first.pos, min_bp)
        } else {
            first
        },
        Err(_) => first,
    }
}

/// The operand that starts at `pos`: a literal, a name, an expression in
/// parentheses, or a prefix operator and its operand.
///
/// A token that starts no operand is reported and left where it is.
pub open spec fn parse_prefix(toks: Seq<TokenView>, pos: int) -> Parsed<ExprView>
    decreases toks.len() - pos, 0nat,
{
    if !(0 <= pos < toks.len()) {
        Parsed { result: Err(error_at(SyntaxErrorView::UnexpectedEOF, toks, pos)), pos }
    } else {
        let tok = toks[pos];
        if is_literal(tok.kind) {
            Parsed { result: Ok(ExprView::Literal(tok)), pos: pos + 1 }
        } else if tok.kind == TokenKind::Identifier {
            Parsed { result: Ok(ExprView::Variable(tok)), pos: pos + 1 }
        } else if tok.kind == TokenKind::LeftParen {
            let inner = parse_expr(toks, pos + 1, 0);
            match inner.result {
                Ok(e) => if 0 <= inner.pos < toks.len() && toks[inner.pos].kind
                    == TokenKind::RightParen {
                    Parsed { result: Ok(ExprView::Grouping(Box::new(e))), pos: inner.pos + 1 }
                } else {
                    Parsed {
                        result: Err(super::expected(')', toks, inner.pos)),
                        pos: inner.pos,
                    }
                },
                Err(d) => Parsed { result: Err(d), pos: inner.pos },
            }
        } else if is_prefix(tok.kind) {
            let operand = parse_expr(toks, pos + 1, prefix_power());
            match operand.result {
                Ok(e) => Parsed { result: Ok(ExprView::Unary(tok, Box::new(e))), pos: operand.pos },
                Err(d) => Parsed { result: Err(d), pos: operand.pos },
            }
        } else if tok.kind == TokenKind::Plus {
            Parsed { result: Err(error_at(SyntaxErrorView::UnaryPlus, toks, pos)), pos }
        } else {
            Parsed {
                result: Err(error_at(SyntaxErrorView::ExpectedExpression(tok.span.lex), toks, pos)),
                pos,
            }
        }
    }
}

/// `left` joined to `right` by the operator `op`: an assignment for `=`,
/// which `left` must be a plain name for.
pub open spec fn fold(left: ExprView, op: TokenView, right: ExprView) -> Result<
    ExprView,
    SyntaxErrorView,
> {
    if op.kind == TokenKind::Equal {
        match left {
            ExprView::Variable(name) => Ok(ExprView::Assignment(name, Box::new(right))),
            _ => Err(SyntaxErrorView::InvalidAssignmentTarget),
        }
    } else {
        Ok(ExprView::Binary(Box::new(left), op, Box::new(right)))
    }
}

/// The expression that `left` grows into by the infix operators from
/// `pos` on that bind at least as tightly as `min_bp`.
pub open spec fn parse_infix(toks: Seq<TokenView>, left: ExprView, pos: int, min_bp: u8) -> Parsed<
    ExprView,
>
    decreases toks.len() - pos, 2nat,
{
    if 0 <= pos < toks.len() && takes(toks[pos].kind, min_bp) {
        let op = toks[pos];
        let right = parse_expr(toks, pos + 1, right_power(op.kind));
        match right.result {
            Ok(r) => match fold(left, op, r) {
                Ok(joined) => if pos < right.pos <= toks.len() {
                    parse_infix(toks, joined, right.pos, min_bp)
                } else {
                    Parsed { result: Ok(joined), pos: right.pos }
                },
                Err(kind) => Parsed { result: Err(error_at(kind, toks, pos)), pos: right.pos },
            },
            Err(d) => Parsed { result: Err(d), pos: right.pos },
        }
    } else {
        Parsed { result: Ok(left), pos }
    }
}

/// The power with which the infix operator `op` binds what is on its
/// right.
pub open spec fn right_power(op: TokenKind) -> u8 {
    match infix_power(op) {
        Some((_, r_bp)) => r_bp,
        None => 0,
    }
}

/// `op` is an infix operator that binds at least as tightly as `min_bp`.
pub open spec fn takes(op: TokenKind, min_bp: u8) -> bool {
    match infix_power(op) {
        Some((l_bp, _)) => l_bp >= min_bp,
        None => false,
    }
}

/// What a parse gave and where it stopped, by their views.
pub open spec fn parsed_expr(r: Result<Expr, Diagnostic<SyntaxError>>, pos: int) -> Parsed<
    ExprView,
> {
    Parsed {
        result: match r {
            Ok(e) => Ok(e@),
            Err(d) => Err(d@),
        },
        pos,
    }
}

impl Parser {
    /// Parses one expression from the next token on.
    ///
    /// On success the parser stands behind the expression. On failure it
    /// stands at the token the error is about, or at the end.
    pub fn expression(&mut self) -> (r: Result<Expr, Diagnostic<SyntaxError>>)
        ensures
            final(self).tokens() == old(self).tokens(),
            parsed_expr(r, final(self).position()) == parse_expr(
                old(self).tokens(),
                old(self).position(),
                0,
            ),
            old(self).position() <= final(self).position() <= old(self).tokens().len(),
            r is Ok ==> old(self).position() < final(self).position(),
    {
        self.expr(0)
    }

    /// Whether the next token is an infix operator that binds at least as
    /// tightly as `min_bp`.
    fn continues(&self, min_bp: u8) -> (b: bool)
        ensures
            0 <= self.position() <= self.tokens().len(),
            b == (self.position() < self.tokens().len() && takes(
                self.tokens()[self.position()].kind,
                min_bp,
            )),
    {
        match self.peek_kind() {
            Some(kind) => match infix_bp(&kind) {
                Some((l_bp, _)) => l_bp >= min_bp,
                None => false,
            },
            None => false,
        }
    }

    /// Parses an expression whose operators bind at least as tightly as
    /// `min_bp`.
    pub(crate) fn expr(&mut self, min_bp: u8) -> (r: Result<Expr, Diagnostic<SyntaxError>>)
        ensures
            final(self).tokens() == old(self).tokens(),
            parsed_expr(r, final(self).position()) == parse_expr(
                old(self).tokens(),
                old(self).position(),
                min_bp,
            ),
            old(self).position() <= final(self).position() <= old(self).tokens().len(),
            r is Ok ==> old(self).position() < final(self).position(),
        decreases old(self).tokens().len() - old(self).position(), 1nat,
    {
        let ghost toks = self.tokens();
        let ghost start = self.position();
        let mut left = self.prefix()?;
        let mut more = self.continues(min_bp);
        while more
            invariant
                toks == old(self).tokens(),
                start == old(self).position(),
                self.tokens() == toks,
                start < self.position() <= toks.len(),
                more == (self.position() < toks.len() && takes(
                    toks[self.position()].kind,
                    min_bp,
                )),
                parse_expr(toks, start, min_bp) == parse_infix(
                    toks,
                    left@,
                    self.position(),
                    min_bp,
                ),
            decreases toks.len() - self.position(),
        {
            let op = self.advance()?;
            let r_bp = match infix_bp(&op.kind) {
                Some((_, r_bp)) => r_bp,
                None => 0,
            };
            let right = self.expr(r_bp)?;
            if op.kind == TokenKind::Equal {
                match left {
                    Expr::Variable(name) => {
                        left = Expr::Assignment(name, Box::new(right));
                    },
                    _ => {
                        return Err(
                            Diagnostic { kind: SyntaxError::InvalidAssignmentTarget, span: op.span },
                        );
                    },
                }
            } else {
                left = Expr::Binary(Box::new(left), op, Box::new(right));
            }
            more = self.continues(min_bp);
        }
        Ok(left)
    }

    /// Parses one operand.
    fn prefix(&mut self) -> (r: Result<Expr, Diagnostic<SyntaxError>>)
        ensures
            final(self).tokens() == old(self).tokens(),
            parsed_expr(r, final(self).position()) == parse_prefix(
                old(self).tokens(),
                old(self).position(),
            ),
            old(self).position() <= final(self).position() <= old(self).tokens().len(),
            r is Ok ==> old(self).position() < final(self).position(),
        decreases old(self).tokens().len() - old(self).position(), 0nat,
    {
        let kind = match self.peek_kind() {
            Some(kind) => kind,
            None => {
                return Err(self.fail(SyntaxError::UnexpectedEOF));
            },
        };
        match kind {
            TokenKind::Number | TokenKind::String | TokenKind::True | TokenKind::False => {
                Ok(Expr::Literal(self.advance()?))
            },
            TokenKind::Identifier => Ok(Expr::Variable(self.advance()?)),
            TokenKind::LeftParen => {
                self.advance()?;
                let inner = self.expr(0)?;
                match self.eat(TokenKind::RightParen) {
                    Some(_) => Ok(Expr::Grouping(Box::new(inner))),
                    None => Err(self.missing(')')),
                }
            },
            TokenKind::Minus | TokenKind::Bang => {
                let op = self.advance()?;
                let (_, r_bp) = prefix_bp(&op.kind);
                let right = self.expr(r_bp)?;
                Ok(Expr::Unary(op, Box::new(right)))
            },
            TokenKind::Plus => Err(self.fail(SyntaxError::UnaryPlus)),
            _ => Err(self.fail(SyntaxError::ExpectedExpression(self.found()))),
        }
    }
}

} // verus!
