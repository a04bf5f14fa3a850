//! What holds of every parse: it moves forward and stays inside the
//! tokens, and of two operators the one that binds tighter is applied
//! first.

use super::expr::{
    infix_power, is_literal, parse_expr, parse_infix, parse_prefix, right_power, takes,
};
use super::{
    parse_block, parse_item, parse_program, parse_statement, parse_var, recover_from,
    skip_to_statement, Parsed, Program,
};
use crate::ast::{ExprView, StmtView};
use crate::token::{TokenKind, TokenView};
use vstd::prelude::*;

verus! {

/// A parse from `pos` that gave `p` stayed inside the tokens, and moved
/// forward if it succeeded.
pub open spec fn advances<T>(toks: Seq<TokenView>, pos: int, p: Parsed<T>) -> bool {
    &&& pos <= p.pos <= toks.len()
    &&& p.result is Ok ==> pos < p.pos
}

/// An expression is never empty and never runs past the end.
pub proof fn lemma_expr_advances(toks: Seq<TokenView>, pos: int, min_bp: u8)
    requires
        0 <= pos <= toks.len(),
    ensures
        advances(toks, pos, parse_expr(toks, pos, min_bp)),
    decreases toks.len() - pos, 1nat,
{
    lemma_prefix_advances(toks, pos);
    let first = parse_prefix(toks, pos);
    if let Ok(left) = first.result {
        lemma_infix_advances(toks, left, first.pos, min_bp);
    }
}

/// An operand is never empty and never runs past the end.
pub proof fn lemma_prefix_advances(toks: Seq<TokenView>, pos: int)
    requires
        0 <= pos <= toks.len(),
    ensures
        advances(toks, pos, parse_prefix(toks, pos)),
    decreases toks.len() - pos, 0nat,
{
    if pos < toks.len() {
        let tok = toks[pos];
        if is_literal(tok.kind) || tok.kind == TokenKind::Identifier {
        } else if tok.kind == TokenKind::LeftParen {
            lemma_expr_advances(toks, pos + 1, 0);
        } else if super::expr::is_prefix(tok.kind) {
            lemma_expr_advances(toks, pos + 1, super::expr::prefix_power());
        }
    }
}

/// What follows an operand never runs past the end.
pub proof fn lemma_infix_advances(toks: Seq<TokenView>, left: ExprView, pos: int, min_bp: u8)
    requires
        0 <= pos <= toks.len(),
    ensures
        pos <= parse_infix(toks, left, pos, min_bp).pos <= toks.len(),
    decreases toks.len() - pos, 2nat,
{
    if pos < toks.len() && takes(toks[pos].kind, min_bp) {
        let op = toks[pos];
        lemma_expr_advances(toks, pos + 1, right_power(op.kind));
        let right = parse_expr(toks, pos + 1, right_power(op.kind));
        if let Ok(r) = right.result {
            if let Ok(joined) = super::expr::fold(left, op, r) {
                lemma_infix_advances(toks, joined, right.pos, min_bp);
            }
        }
    }
}

/// A variable declaration never runs past the end.
pub proof fn lemma_var_advances(toks: Seq<TokenView>, pos: int)
    requires
        0 <= pos <= toks.len(),
    ensures
        pos <= parse_var(toks, pos).pos <= toks.len(),
        parse_var(toks, pos).result is Ok ==> pos < parse_var(toks, pos).pos,
{
    if pos + 1 < toks.len() {
        lemma_expr_advances(toks, pos + 2, 0);
    }
}

/// A statement is never empty and never runs past the end.
pub proof fn lemma_statement_advances(toks: Seq<TokenView>, pos: int)
    requires
        0 <= pos <= toks.len(),
    ensures
        advances(toks, pos, parse_statement(toks, pos)),
    decreases toks.len() - pos, 0nat,
{
    if pos < toks.len() {
        if toks[pos].kind == TokenKind::Print {
            lemma_expr_advances(toks, pos + 1, 0);
        } else if toks[pos].kind == TokenKind::LeftBrace {
            lemma_block_advances(toks, pos + 1, Seq::empty());
        } else {
            lemma_expr_advances(toks, pos, 0);
        }
    }
}

/// A declaration is never empty and never runs past the end.
pub proof fn lemma_item_advances(toks: Seq<TokenView>, pos: int)
    requires
        0 <= pos <= toks.len(),
    ensures
        advances(toks, pos, parse_item(toks, pos)),
    decreases toks.len() - pos, 1nat,
{
    if pos < toks.len() && toks[pos].kind == TokenKind::Var {
        lemma_var_advances(toks, pos + 1);
    } else {
        lemma_statement_advances(toks, pos);
    }
}

/// The rest of a block never runs past the end, and a block that closes
/// has taken its closing brace.
pub proof fn lemma_block_advances(toks: Seq<TokenView>, pos: int, acc: Seq<StmtView>)
    requires
        0 <= pos <= toks.len(),
    ensures
        advances(toks, pos, parse_block(toks, pos, acc)),
    decreases toks.len() - pos, 2nat,
{
    if pos < toks.len() && toks[pos].kind != TokenKind::RightBrace {
        lemma_item_advances(toks, pos);
        let item = parse_item(toks, pos);
        if let Ok(s) = item.result {
            lemma_block_advances(toks, item.pos, acc.push(s));
        }
    }
}

/// Skipping to the next statement never runs past the end.
pub proof fn lemma_skip_advances(toks: Seq<TokenView>, pos: int)
    requires
        0 <= pos <= toks.len(),
    ensures
        pos <= skip_to_statement(toks, pos) <= toks.len(),
    decreases toks.len() - pos,
{
    if pos < toks.len() && !super::starts_statement(toks[pos].kind) {
        lemma_skip_advances(toks, pos + 1);
    }
}

/// Recovery discards at least one token where one is left, so a parse
/// that fails again and again still comes to the end.
pub proof fn lemma_recover_advances(toks: Seq<TokenView>, pos: int)
    requires
        0 <= pos <= toks.len(),
    ensures
        pos <= recover_from(toks, pos) <= toks.len(),
        pos < toks.len() ==> pos < recover_from(toks, pos),
{
    if pos < toks.len() {
        lemma_skip_advances(toks, pos + 1);
    }
}

/// No error is lost and no statement is taken back: parsing on only adds
/// to both. Each declaration from `pos` on adds one statement or one
/// error, never both.
pub proof fn lemma_program_only_adds(toks: Seq<TokenView>, pos: int, acc: Program)
    requires
        0 <= pos <= toks.len(),
    ensures
        acc.stmts.is_prefix_of(parse_program(toks, pos, acc).stmts),
        acc.errors.is_prefix_of(parse_program(toks, pos, acc).errors),
    decreases toks.len() - pos,
{
    if pos < toks.len() {
        lemma_item_advances(toks, pos);
        let item = parse_item(toks, pos);
        match item.result {
            Ok(s) => {
                let next = Program { stmts: acc.stmts.push(s), ..acc };
                lemma_program_only_adds(toks, item.pos, next);
            },
            Err(d) => {
                lemma_recover_advances(toks, item.pos);
                let next = Program { errors: acc.errors.push(d), ..acc };
                lemma_program_only_adds(toks, recover_from(toks, item.pos), next);
            },
        }
    }
}

/// A token that is an operand all by itself: a literal or a name.
pub open spec fn is_atom(t: TokenView) -> bool {
    is_literal(t.kind) || t.kind == TokenKind::Identifier
}

/// The expression that the atom `t` is.
pub open spec fn atom(t: TokenView) -> ExprView {
    if t.kind == TokenKind::Identifier {
        ExprView::Variable(t)
    } else {
        ExprView::Literal(t)
    }
}

/// `t` is an infix operator that is not the assignment.
pub open spec fn is_operator(t: TokenView) -> bool {
    infix_power(t.kind) is Some && t.kind != TokenKind::Equal
}

/// No infix operator stands at `pos`.
pub open spec fn ends_at(toks: Seq<TokenView>, pos: int) -> bool {
    !(0 <= pos < toks.len() && infix_power(toks[pos].kind) is Some)
}

/// The law of precedence. Of three operands joined by two operators, the
/// second operator takes the middle operand where it binds at least as
/// tightly as the right side of the first, and the first takes it
/// otherwise: `1 + 2 * 3` is `1 + (2 * 3)`, and `2 - 3 - 4` is
/// `(2 - 3) - 4`.
pub proof fn lemma_precedence(toks: Seq<TokenView>, pos: int)
    requires
        0 <= pos,
        pos + 5 <= toks.len(),
        is_atom(toks[pos]),
        is_operator(toks[pos + 1]),
        is_atom(toks[pos + 2]),
        is_operator(toks[pos + 3]),
        is_atom(toks[pos + 4]),
        ends_at(toks, pos + 5),
    ensures
        parse_expr(toks, pos, 0).pos == pos + 5,
        parse_expr(toks, pos, 0).result == Ok::<ExprView, super::SyntaxDiagnosticView>(
            if takes(toks[pos + 3].kind, right_power(toks[pos + 1].kind)) {
                ExprView::Binary(
                    Box::new(atom(toks[pos])),
                    toks[pos + 1],
                    Box::new(
                        ExprView::Binary(
                            Box::new(atom(toks[pos + 2])),
                            toks[pos + 3],
                            Box::new(atom(toks[pos + 4])),
                        ),
                    ),
                )
            } else {
                ExprView::Binary(
                    Box::new(
                        ExprView::Binary(
                            Box::new(atom(toks[pos])),
                            toks[pos + 1],
                            Box::new(atom(toks[pos + 2])),
                        ),
                    ),
                    toks[pos + 3],
                    Box::new(atom(toks[pos + 4])),
                )
            },
        ),
{
    let a = atom(toks[pos]);
    let b = atom(toks[pos + 2]);
    let c = atom(toks[pos + 4]);
    let op1 = toks[pos + 1];
    let op2 = toks[pos + 3];
    assert(parse_prefix(toks, pos) == Parsed { result: Ok(a), pos: pos + 1 });
    assert(parse_prefix(toks, pos + 2) == Parsed { result: Ok(b), pos: pos + 3 });
    assert(parse_prefix(toks, pos + 4) == Parsed { result: Ok(c), pos: pos + 5 });
    assert(takes(op1.kind, 0));
    assert(takes(op2.kind, 0));
    // The last operand: nothing follows it.
    assert forall|min_bp: u8| #[trigger]
        parse_expr(toks, pos + 4, min_bp) == (Parsed { result: Ok(c), pos: pos + 5 }) by {
        assert(parse_infix(toks, c, pos + 5, min_bp) == Parsed { result: Ok(c), pos: pos + 5 });
    }
    let bc = ExprView::Binary(Box::new(b), op2, Box::new(c));
    let ab = ExprView::Binary(Box::new(a), op1, Box::new(b));
    assert(parse_expr(toks, pos + 4, right_power(op2.kind)) == Parsed {
        result: Ok(c),
        pos: pos + 5,
    });
    assert(super::expr::fold(b, op2, c) == Ok::<ExprView, crate::error::SyntaxErrorView>(bc));
    assert(super::expr::fold(a, op1, b) == Ok::<ExprView, crate::error::SyntaxErrorView>(ab));
    if takes(op2.kind, right_power(op1.kind)) {
        let r = right_power(op1.kind);
        assert(parse_infix(toks, bc, pos + 5, r) == Parsed { result: Ok(bc), pos: pos + 5 });
        assert(parse_infix(toks, b, pos + 3, r) == Parsed { result: Ok(bc), pos: pos + 5 });
        assert(parse_expr(toks, pos + 2, r) == Parsed { result: Ok(bc), pos: pos + 5 });
        let abc = ExprView::Binary(Box::new(a), op1, Box::new(bc));
        assert(parse_infix(toks, abc, pos + 5, 0) == Parsed { result: Ok(abc), pos: pos + 5 });
        assert(parse_infix(toks, a, pos + 1, 0) == Parsed { result: Ok(abc), pos: pos + 5 });
    } else {
        let r = right_power(op1.kind);
        assert(parse_infix(toks, b, pos + 3, r) == Parsed { result: Ok(b), pos: pos + 3 });
        assert(parse_expr(toks, pos + 2, r) == Parsed { result: Ok(b), pos: pos + 3 });
        let abc = ExprView::Binary(Box::new(ab), op2, Box::new(c));
        assert(parse_infix(toks, abc, pos + 5, 0) == Parsed { result: Ok(abc), pos: pos + 5 });
        assert(parse_infix(toks, ab, pos + 3, 0) == Parsed { result: Ok(abc), pos: pos + 5 });
        assert(parse_infix(toks, a, pos + 1, 0) == Parsed { result: Ok(abc), pos: pos + 5 });
    }
}

/// A product is formed before the sum it stands in.
pub proof fn lemma_product_before_sum(toks: Seq<TokenView>, pos: int)
    requires
        0 <= pos,
        pos + 5 <= toks.len(),
        is_atom(toks[pos]),
        toks[pos + 1].kind == TokenKind::Plus || toks[pos + 1].kind == TokenKind::Minus,
        is_atom(toks[pos + 2]),
        toks[pos + 3].kind == TokenKind::Star || toks[pos + 3].kind == TokenKind::Slash,
        is_atom(toks[pos + 4]),
        ends_at(toks, pos + 5),
    ensures
        parse_expr(toks, pos, 0).result == Ok::<ExprView, super::SyntaxDiagnosticView>(
            ExprView::Binary(
                Box::new(atom(toks[pos])),
                toks[pos + 1],
                Box::new(
                    ExprView::Binary(
                        Box::new(atom(toks[pos + 2])),
                        toks[pos + 3],
                        Box::new(atom(toks[pos + 4])),
                    ),
                ),
            ),
        ),
{
    lemma_precedence(toks, pos);
}

/// Operators of one level are applied from left to right.
pub proof fn lemma_left_to_right(toks: Seq<TokenView>, pos: int)
    requires
        0 <= pos,
        pos + 5 <= toks.len(),
        is_atom(toks[pos]),
        is_operator(toks[pos + 1]),
        toks[pos + 1].kind != TokenKind::EqualEqual,
        is_atom(toks[pos + 2]),
        is_operator(toks[pos + 3]),
        infix_power(toks[pos + 3].kind) == infix_power(toks[pos + 1].kind),
        is_atom(toks[pos + 4]),
        ends_at(toks, pos + 5),
    ensures
        parse_expr(toks, pos, 0).result == Ok::<ExprView, super::SyntaxDiagnosticView>(
            ExprView::Binary(
                Box::new(
                    ExprView::Binary(
                        Box::new(atom(toks[pos])),
                        toks[pos + 1],
                        Box::new(atom(toks[pos + 2])),
                    ),
                ),
                toks[pos + 3],
                Box::new(atom(toks[pos + 4])),
            ),
        ),
{
    lemma_precedence(toks, pos);
}

/// Parentheses override precedence: the operands inside them are joined
/// first, whatever operator follows the closing one.
pub proof fn lemma_grouping_overrides(toks: Seq<TokenView>, pos: int)
    requires
        0 <= pos,
        pos + 7 <= toks.len(),
        toks[pos].kind == TokenKind::LeftParen,
        is_atom(toks[pos + 1]),
        is_operator(toks[pos + 2]),
        is_atom(toks[pos + 3]),
        toks[pos + 4].kind == TokenKind::RightParen,
        is_operator(toks[pos + 5]),
        is_atom(toks[pos + 6]),
        ends_at(toks, pos + 7),
    ensures
        parse_expr(toks, pos, 0).pos == pos + 7,
        parse_expr(toks, pos, 0).result == Ok::<ExprView, super::SyntaxDiagnosticView>(
            ExprView::Binary(
                Box::new(
                    ExprView::Grouping(
                        Box::new(
                            ExprView::Binary(
                                Box::new(atom(toks[pos + 1])),
                                toks[pos + 2],
                                Box::new(atom(toks[pos + 3])),
                            ),
                        ),
                    ),
                ),
                toks[pos + 5],
                Box::new(atom(toks[pos + 6])),
            ),
        ),
{
    let a = atom(toks[pos + 1]);
    let b = atom(toks[pos + 3]);
    let c = atom(toks[pos + 6]);
    let op1 = toks[pos + 2];
    let op2 = toks[pos + 5];
    let ab = ExprView::Binary(Box::new(a), op1, Box::new(b));
    let group = ExprView::Grouping(Box::new(ab));
    let all = ExprView::Binary(Box::new(group), op2, Box::new(c));
    assert(parse_prefix(toks, pos + 1) == Parsed { result: Ok(a), pos: pos + 2 });
    assert(parse_prefix(toks, pos + 3) == Parsed { result: Ok(b), pos: pos + 4 });
    assert(parse_prefix(toks, pos + 6) == Parsed { result: Ok(c), pos: pos + 7 });
    assert(infix_power(TokenKind::RightParen) is None);
    assert(takes(op1.kind, 0));
    assert(takes(op2.kind, 0));
    assert(super::expr::fold(a, op1, b) == Ok::<ExprView, crate::error::SyntaxErrorView>(ab));
    assert(super::expr::fold(group, op2, c) == Ok::<ExprView, crate::error::SyntaxErrorView>(all));
    // The operand inside the parentheses ends at the closing one.
    assert(parse_infix(toks, b, pos + 4, right_power(op1.kind)) == Parsed {
        result: Ok(b),
        pos: pos + 4,
    });
    assert(parse_expr(toks, pos + 3, right_power(op1.kind)) == Parsed {
        result: Ok(b),
        pos: pos + 4,
    });
    assert(parse_infix(toks, ab, pos + 4, 0) == Parsed { result: Ok(ab), pos: pos + 4 });
    assert(parse_infix(toks, a, pos + 2, 0) == Parsed { result: Ok(ab), pos: pos + 4 });
    assert(parse_expr(toks, pos + 1, 0) == Parsed { result: Ok(ab), pos: pos + 4 });
    assert(parse_prefix(toks, pos) == Parsed { result: Ok(group), pos: pos + 5 });
    // The last operand: nothing follows it.
    assert(parse_infix(toks, c, pos + 7, right_power(op2.kind)) == Parsed {
        result: Ok(c),
        pos: pos + 7,
    });
    assert(parse_expr(toks, pos + 6, right_power(op2.kind)) == Parsed {
        result: Ok(c),
        pos: pos + 7,
    });
    assert(parse_infix(toks, all, pos + 7, 0) == Parsed { result: Ok(all), pos: pos + 7 });
    assert(parse_infix(toks, group, pos + 5, 0) == Parsed { result: Ok(all), pos: pos + 7 });
}

/// The expression has the shape that the parser gives: a literal is a
/// literal token, a name an identifier, a prefix operator one of `-` and
/// `!`, an infix operator one with binding powers and not `=`, and the
/// target of an assignment a name.
pub open spec fn shaped(e: ExprView) -> bool
    decreases e,
{
    match e {
        ExprView::Literal(t) => is_literal(t.kind),
        ExprView::Variable(t) => t.kind == TokenKind::Identifier,
        ExprView::Grouping(inner) => shaped(*inner),
        ExprView::Unary(op, operand) => super::expr::is_prefix(op.kind) && shaped(*operand),
        ExprView::Binary(left, op, right) => is_operator(op) && shaped(*left) && shaped(*right),
        ExprView::Assignment(name, value) => name.kind == TokenKind::Identifier && shaped(*value),
    }
}

/// The statement holds only expressions of the shape that the parser
/// gives, and declares only names.
pub open spec fn shaped_stmt(s: StmtView) -> bool
    decreases s,
{
    match s {
        StmtView::Expr(e) => shaped(e),
        StmtView::Print(e) => shaped(e),
        StmtView::Var { name, value } => name.kind == TokenKind::Identifier && match value {
            Some(e) => shaped(e),
            None => true,
        },
        StmtView::Block(stmts) => forall|i: int|
            0 <= i < stmts.len() ==> shaped_stmt(#[trigger] stmts[i]),
    }
}

/// Every statement of `stmts` has the shape that the parser gives.
pub open spec fn all_shaped(stmts: Seq<StmtView>) -> bool {
    forall|i: int| 0 <= i < stmts.len() ==> shaped_stmt(#[trigger] stmts[i])
}

/// What the parser makes of any tokens has the parser's shape.
pub proof fn lemma_expr_shaped(toks: Seq<TokenView>, pos: int, min_bp: u8)
    requires
        0 <= pos <= toks.len(),
    ensures
        match parse_expr(toks, pos, min_bp).result {
            Ok(e) => shaped(e),
            Err(_) => true,
        },
    decreases toks.len() - pos, 1nat,
{
    lemma_prefix_shaped(toks, pos);
    lemma_prefix_advances(toks, pos);
    let first = parse_prefix(toks, pos);
    if let Ok(left) = first.result {
        lemma_infix_shaped(toks, left, first.pos, min_bp);
    }
}

/// An operand has the parser's shape.
pub proof fn lemma_prefix_shaped(toks: Seq<TokenView>, pos: int)
    requires
        0 <= pos <= toks.len(),
    ensures
        match parse_prefix(toks, pos).result {
            Ok(e) => shaped(e),
            Err(_) => true,
        },
    decreases toks.len() - pos, 0nat,
{
    if pos < toks.len() {
        let tok = toks[pos];
        if is_literal(tok.kind) || tok.kind == TokenKind::Identifier {
        } else if tok.kind == TokenKind::LeftParen {
            lemma_expr_shaped(toks, pos + 1, 0);
        } else if super::expr::is_prefix(tok.kind) {
            lemma_expr_shaped(toks, pos + 1, super::expr::prefix_power());
        }
    }
}

/// What an operand of the parser's shape grows into has that shape too.
pub proof fn lemma_infix_shaped(toks: Seq<TokenView>, left: ExprView, pos: int, min_bp: u8)
    requires
        0 <= pos <= toks.len(),
        shaped(left),
    ensures
        match parse_infix(toks, left, pos, min_bp).result {
            Ok(e) => shaped(e),
            Err(_) => true,
        },
    decreases toks.len() - pos, 2nat,
{
    if pos < toks.len() && takes(toks[pos].kind, min_bp) {
        let op = toks[pos];
        lemma_expr_shaped(toks, pos + 1, right_power(op.kind));
        lemma_expr_advances(toks, pos + 1, right_power(op.kind));
        let right = parse_expr(toks, pos + 1, right_power(op.kind));
        if let Ok(r) = right.result {
            if let Ok(joined) = super::expr::fold(left, op, r) {
                lemma_infix_shaped(toks, joined, right.pos, min_bp);
            }
        }
    }
}

/// A statement that the parser makes has the parser's shape.
pub proof fn lemma_statement_shaped(toks: Seq<TokenView>, pos: int)
    requires
        0 <= pos <= toks.len(),
    ensures
        match parse_statement(toks, pos).result {
            Ok(s) => shaped_stmt(s),
            Err(_) => true,
        },
    decreases toks.len() - pos, 0nat,
{
    if pos < toks.len() {
        if toks[pos].kind == TokenKind::Print {
            lemma_expr_shaped(toks, pos + 1, 0);
        } else if toks[pos].kind == TokenKind::LeftBrace {
            lemma_block_shaped(toks, pos + 1, Seq::empty());
        } else {
            lemma_expr_shaped(toks, pos, 0);
        }
    }
}

/// A declaration that the parser makes has the parser's shape.
pub proof fn lemma_item_shaped(toks: Seq<TokenView>, pos: int)
    requires
        0 <= pos <= toks.len(),
    ensures
        match parse_item(toks, pos).result {
            Ok(s) => shaped_stmt(s),
            Err(_) => true,
        },
    decreases toks.len() - pos, 1nat,
{
    if pos < toks.len() && toks[pos].kind == TokenKind::Var {
        if pos + 2 < toks.len() {
            lemma_expr_shaped(toks, pos + 3, 0);
        }
    } else {
        lemma_statement_shaped(toks, pos);
    }
}

/// The statements of a block that the parser makes have the parser's
/// shape.
pub proof fn lemma_block_shaped(toks: Seq<TokenView>, pos: int, acc: Seq<StmtView>)
    requires
        0 <= pos <= toks.len(),
        all_shaped(acc),
    ensures
        match parse_block(toks, pos, acc).result {
            Ok(stmts) => all_shaped(stmts),
            Err(_) => true,
        },
    decreases toks.len() - pos, 2nat,
{
    if pos < toks.len() && toks[pos].kind != TokenKind::RightBrace {
        lemma_item_shaped(toks, pos);
        lemma_item_advances(toks, pos);
        let item = parse_item(toks, pos);
        if let Ok(s) = item.result {
            lemma_block_shaped(toks, item.pos, acc.push(s));
        }
    }
}

/// Every statement of a program that the parser makes has the parser's
/// shape.
pub proof fn lemma_program_shaped(toks: Seq<TokenView>, pos: int, acc: Program)
    requires
        0 <= pos <= toks.len(),
        all_shaped(acc.stmts),
    ensures
        all_shaped(parse_program(toks, pos, acc).stmts),
    decreases toks.len() - pos,
{
    if pos < toks.len() {
        lemma_item_advances(toks, pos);
        lemma_item_shaped(toks, pos);
        let item = parse_item(toks, pos);
        match item.result {
            Ok(s) => {
                let next = Program { stmts: acc.stmts.push(s), ..acc };
                lemma_program_shaped(toks, item.pos, next);
            },
            Err(d) => {
                lemma_recover_advances(toks, item.pos);
                let next = Program { errors: acc.errors.push(d), ..acc };
                lemma_program_shaped(toks, recover_from(toks, item.pos), next);
            },
        }
    }
}

} // verus!
