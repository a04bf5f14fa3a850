//! What holds of every run: which names a scope holds changes only by a
//! declaration in that scope, and nothing printed or reported is lost.

use super::{apply_unary, eval, exec_from, exec_stmt, Machine};
use crate::ast::{ExprView, StmtView};
use crate::environment::{lemma_assign_then_get, scopes_assign, scopes_define, scopes_get, Key, Scope};
use crate::parser::laws::shaped;
use crate::token::{TokenView, ValueView};
use vstd::prelude::*;

verus! {

/// The scopes `after` are as many as `before`, and from the scope `from`
/// outwards each holds the names it held.
pub open spec fn names_kept(before: Seq<Scope>, after: Seq<Scope>, from: int) -> bool {
    &&& after.len() == before.len()
    &&& forall|j: int| from <= j < before.len() ==> (#[trigger] after[j]).dom() == before[j].dom()
}

/// An expression declares nothing: every scope holds the names it held
/// before. An assignment changes a value, never a name.
pub proof fn lemma_eval_keeps_names(e: ExprView, scopes: Seq<Scope>)
    ensures
        names_kept(scopes, eval(e, scopes).scopes, 0),
    decreases e,
{
    match e {
        ExprView::Literal(_) => {},
        ExprView::Grouping(inner) => {
            lemma_eval_keeps_names(*inner, scopes);
        },
        ExprView::Variable(_) => {},
        ExprView::Assignment(name, value) => {
            lemma_eval_keeps_names(*value, scopes);
            let v = eval(*value, scopes);
            if let Ok(x) = v.result {
                crate::environment::lemma_assign_keeps_names(v.scopes, name.key(), x);
            }
        },
        ExprView::Unary(_, operand) => {
            lemma_eval_keeps_names(*operand, scopes);
        },
        ExprView::Binary(left, _, right) => {
            lemma_eval_keeps_names(*left, scopes);
            lemma_eval_keeps_names(*right, eval(*left, scopes).scopes);
        },
    }
}

/// A statement declares names in the innermost scope only: every scope
/// around it holds the names it held before.
pub proof fn lemma_stmt_keeps_outer_names(s: StmtView, m: Machine)
    ensures
        names_kept(m.scopes, exec_stmt(s, m).scopes, 1),
        s is Block ==> names_kept(m.scopes, exec_stmt(s, m).scopes, 0),
    decreases s, 0nat,
{
    match s {
        StmtView::Expr(e) => {
            lemma_eval_keeps_names(e, m.scopes);
        },
        StmtView::Print(e) => {
            lemma_eval_keeps_names(e, m.scopes);
        },
        StmtView::Var { name, value } => {
            if let Some(e) = value {
                lemma_eval_keeps_names(e, m.scopes);
            }
        },
        StmtView::Block(stmts) => {
            let entered = m.with_scopes(seq![Map::<Key, Option<ValueView>>::empty()] + m.scopes);
            lemma_stmts_keep_outer_names(stmts, 0, entered);
            let inner = exec_from(stmts, 0, entered);
            let after = inner.scopes.drop_first();
            assert forall|j: int| 0 <= j < m.scopes.len() implies (#[trigger] after[j]).dom()
                == m.scopes[j].dom() by {
                assert(after[j] == inner.scopes[j + 1]);
                assert(entered.scopes[j + 1] == m.scopes[j]);
            }
        },
    }
}

/// What a block declares does not outlive it: after the block every scope
/// holds exactly the names it held before.
pub proof fn lemma_block_keeps_names(stmts: Seq<StmtView>, m: Machine)
    ensures
        names_kept(m.scopes, exec_stmt(StmtView::Block(stmts), m).scopes, 0),
{
    lemma_stmt_keeps_outer_names(StmtView::Block(stmts), m);
}

/// A run of statements declares names in the innermost scope only.
pub proof fn lemma_stmts_keep_outer_names(stmts: Seq<StmtView>, i: int, m: Machine)
    ensures
        names_kept(m.scopes, exec_from(stmts, i, m).scopes, 1),
    decreases stmts, stmts.len() - i,
{
    if 0 <= i < stmts.len() {
        lemma_stmt_keeps_outer_names(stmts[i], m);
        lemma_stmts_keep_outer_names(stmts, i + 1, exec_stmt(stmts[i], m));
    }
}

/// Errors are never dropped and nothing printed is taken back: a
/// statement only adds to both.
pub proof fn lemma_stmt_only_adds(s: StmtView, m: Machine)
    ensures
        m.errors.is_prefix_of(exec_stmt(s, m).errors),
        m.printed.is_prefix_of(exec_stmt(s, m).printed),
    decreases s, 0nat,
{
    match s {
        StmtView::Block(stmts) => {
            lemma_stmts_only_add(
                stmts,
                0,
                m.with_scopes(seq![Map::<Key, Option<ValueView>>::empty()] + m.scopes),
            );
        },
        _ => {},
    }
}

/// A run of statements only adds to the errors and to what was printed.
pub proof fn lemma_stmts_only_add(stmts: Seq<StmtView>, i: int, m: Machine)
    ensures
        m.errors.is_prefix_of(exec_from(stmts, i, m).errors),
        m.printed.is_prefix_of(exec_from(stmts, i, m).printed),
    decreases stmts, stmts.len() - i,
{
    if 0 <= i < stmts.len() {
        lemma_stmt_only_adds(stmts[i], m);
        lemma_stmts_only_add(stmts, i + 1, exec_stmt(stmts[i], m));
    }
}

/// An assignment inside a block reaches the variable outside it: after
/// the block the variable holds the value assigned, and no error was met.
pub proof fn lemma_assignment_outlives_block(name: TokenView, lit: TokenView, v: ValueView, m: Machine)
    requires
        scopes_get(m.scopes, name.key()) is Some,
        lit.literal == Some(v),
    ensures
        ({
            let block = StmtView::Block(
                seq![
                    StmtView::Expr(
                        ExprView::Assignment(name, Box::new(ExprView::Literal(lit))),
                    ),
                ],
            );
            &&& scopes_get(exec_stmt(block, m).scopes, name.key()) == Some(Some(v))
            &&& exec_stmt(block, m).errors == m.errors
            &&& exec_stmt(block, m).printed == m.printed
        }),
{
    let assignment = ExprView::Assignment(name, Box::new(ExprView::Literal(lit)));
    let body = seq![StmtView::Expr(assignment)];
    let inside = seq![Map::<Key, Option<ValueView>>::empty()] + m.scopes;
    let entered = m.with_scopes(inside);
    assert(inside.drop_first() =~= m.scopes);
    lemma_assign_then_get(m.scopes, name.key(), v);
    let outer = scopes_assign(m.scopes, name.key(), v)->0;
    assert(scopes_assign(inside, name.key(), v) == Some(seq![inside[0]] + outer));
    assert(eval(ExprView::Literal(lit), inside).result == Ok::<
        ValueView,
        super::RuntimeDiagnosticView,
    >(v));
    assert(eval(assignment, inside).scopes == seq![inside[0]] + outer);
    let after = exec_stmt(body[0], entered);
    assert(after.scopes == seq![inside[0]] + outer);
    assert(exec_from(body, 1, after) == after);
    assert(exec_from(body, 0, entered) == after);
    assert(after.scopes.drop_first() =~= outer);
}

/// What a block declares stays inside it: a block that only declares a
/// variable leaves every scope exactly as it was, whether or not a
/// variable of that name exists outside.
pub proof fn lemma_shadow_stays_inside(name: TokenView, lit: TokenView, m: Machine)
    ensures
        ({
            let block = StmtView::Block(
                seq![StmtView::Var { name, value: Some(ExprView::Literal(lit)) }],
            );
            exec_stmt(block, m) == m
        }),
{
    let body = seq![StmtView::Var { name, value: Some(ExprView::Literal(lit)) }];
    let inside = seq![Map::<Key, Option<ValueView>>::empty()] + m.scopes;
    let entered = m.with_scopes(inside);
    let v = match lit.literal {
        Some(v) => v,
        None => ValueView::Null,
    };
    let after = exec_stmt(body[0], entered);
    assert(after.scopes == scopes_define(inside, name.key(), Some(v)));
    assert(exec_from(body, 1, after) == after);
    assert(exec_from(body, 0, entered) == after);
    assert(after.scopes.drop_first() =~= m.scopes);
}

/// A prefix operator that the parser accepts is one the evaluator knows:
/// applied to a value of the wrong type it fails for the type, never for
/// the operator.
pub proof fn lemma_prefix_operator_is_known(op: TokenView, v: ValueView)
    requires
        crate::parser::expr::is_prefix(op.kind),
    ensures
        match apply_unary(op, v) {
            Ok(_) => true,
            Err(d) => !(d.kind is InvalidOperator),
        },
{
}

/// An expression that the parser made never fails for an unknown prefix
/// operator: the only operator the evaluator can refuse is an infix one.
pub proof fn lemma_parsed_operators(e: ExprView, scopes: Seq<Scope>)
    requires
        shaped(e),
    ensures
        match eval(e, scopes).result {
            Ok(_) => true,
            Err(d) => d.kind is InvalidOperator ==> d.kind->InvalidOperator_1 == seq![
                '+',
                '/',
                '-',
                '*',
            ],
        },
    decreases e,
{
    match e {
        ExprView::Literal(_) => {},
        ExprView::Grouping(inner) => {
            lemma_parsed_operators(*inner, scopes);
        },
        ExprView::Variable(_) => {},
        ExprView::Assignment(_, value) => {
            lemma_parsed_operators(*value, scopes);
        },
        ExprView::Unary(op, operand) => {
            lemma_parsed_operators(*operand, scopes);
            if let Ok(x) = eval(*operand, scopes).result {
                lemma_prefix_operator_is_known(op, x);
            }
        },
        ExprView::Binary(left, _, right) => {
            lemma_parsed_operators(*left, scopes);
            lemma_parsed_operators(*right, eval(*left, scopes).scopes);
        },
    }
}

} // verus!
