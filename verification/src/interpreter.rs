//! The evaluator: it walks the syntax tree against a chain of scopes.

use crate::ast::{Expr, ExprView, Stmt, StmtView};
use crate::environment::{scopes_assign, scopes_define, scopes_get, Env, Key, Scope};
use crate::error::{Diagnostic, DiagnosticView, RuntimeError, RuntimeErrorView, diagnostic_views};
use crate::token::{
    lines_of, value_texts, value_views, Token, TokenKind, TokenView, Type, Value, ValueView,
};
use crate::text::text_views;
use vstd::prelude::*;

pub mod laws;

verus! {

/// The mathematical value of a diagnostic of the evaluator.
pub type RuntimeDiagnosticView = DiagnosticView<RuntimeErrorView>;

/// What evaluating an expression gives.
pub type Evaluation = Result<ValueView, RuntimeDiagnosticView>;

/// `n` is an integer of the language.
pub open spec fn fits(n: int) -> bool {
    i128::MIN <= n <= i128::MAX
}

/// The quotient of `a` by `b`, rounded towards zero.
pub open spec fn quotient(a: int, b: int) -> int
    recommends
        b != 0,
{
    if a >= 0 && b > 0 {
        a / b
    } else if a < 0 && b < 0 {
        (-a) / (-b)
    } else if a < 0 {
        -((-a) / b)
    } else {
        -(a / (-b))
    }
}

/// The error `kind`, reported at the token `at`.
pub open spec fn fail(kind: RuntimeErrorView, at: TokenView) -> RuntimeDiagnosticView {
    DiagnosticView { kind, span: at.span }
}

/// The integer `n` as a result: an overflow, reported at `op`, where it
/// does not fit.
pub open spec fn integer(n: int, op: TokenView) -> Evaluation {
    if fits(n) {
        Ok(ValueView::Integer(n))
    } else {
        Err(fail(RuntimeErrorView::Overflow, op))
    }
}

/// The prefix operator `op` applied to `v`.
pub open spec fn apply_unary(op: TokenView, v: ValueView) -> Evaluation {
    match op.kind {
        TokenKind::Minus => match v {
            ValueView::Integer(a) => integer(-a, op),
            _ => Err(fail(RuntimeErrorView::InvalidType(v.ty(), seq![Type::Integer]), op)),
        },
        TokenKind::Bang => match v {
            ValueView::Boolean(a) => Ok(ValueView::Boolean(!a)),
            _ => Err(fail(RuntimeErrorView::InvalidType(v.ty(), seq![Type::Boolean]), op)),
        },
        _ => Err(fail(RuntimeErrorView::InvalidOperator(op.span.lex, seq!['-', '!']), op)),
    }
}

/// The error for an operator that takes two integers and got `l` and `r`.
pub open spec fn not_integers(op: TokenView, l: ValueView, r: ValueView) -> RuntimeDiagnosticView {
    fail(
        RuntimeErrorView::InvalidTypes(
            op.span.lex,
            seq![l.ty(), r.ty()],
            seq![(Type::Integer, Type::Integer)],
        ),
        op,
    )
}

/// The infix operator `op` applied to `l` and `r`.
pub open spec fn apply_binary(op: TokenView, l: ValueView, r: ValueView) -> Evaluation {
    match op.kind {
        TokenKind::Slash => match (l, r) {
            (ValueView::Integer(a), ValueView::Integer(b)) => if b == 0 {
                Err(fail(RuntimeErrorView::DivisionByZero, op))
            } else {
                integer(quotient(a, b), op)
            },
            _ => Err(not_integers(op, l, r)),
        },
        TokenKind::Minus => match (l, r) {
            (ValueView::Integer(a), ValueView::Integer(b)) => integer(a - b, op),
            _ => Err(not_integers(op, l, r)),
        },
        TokenKind::Star => match (l, r) {
            (ValueView::Integer(a), ValueView::Integer(b)) => integer(a * b, op),
            _ => Err(not_integers(op, l, r)),
        },
        TokenKind::Plus => match (l, r) {
            (ValueView::Integer(a), ValueView::Integer(b)) => integer(a + b, op),
            (ValueView::String(a), ValueView::String(b)) => Ok(ValueView::String(a + b)),
            _ => Err(
                fail(
                    RuntimeErrorView::InvalidTypes(
                        op.span.lex,
                        seq![l.ty(), r.ty()],
                        seq![(Type::Integer, Type::Integer), (Type::String, Type::String)],
                    ),
                    op,
                ),
            ),
        },
        _ => Err(
            fail(RuntimeErrorView::InvalidOperator(op.span.lex, seq!['+', '/', '-', '*']), op),
        ),
    }
}

/// Reading the variable `name` in `scopes`.
pub open spec fn read_var(name: TokenView, scopes: Seq<Scope>) -> Evaluation {
    match scopes_get(scopes, name.key()) {
        Some(Some(v)) => Ok(v),
        Some(None) => Err(fail(RuntimeErrorView::UninitialisedVar(name.span.lex), name)),
        None => Err(fail(RuntimeErrorView::InvalidIdent(name.span.lex), name)),
    }
}

/// An expression's result, and the scopes it leaves.
pub struct Evaluated {
    pub result: Evaluation,
    pub scopes: Seq<Scope>,
}

/// Evaluating `e` in `scopes`.
///
/// Operands are evaluated from left to right, and the first error ends the
/// evaluation: what was assigned before it stays assigned. A literal token
/// that carries no value evaluates to `Null`.
pub open spec fn eval(e: ExprView, scopes: Seq<Scope>) -> Evaluated
    decreases e,
{
    match e {
        ExprView::Literal(t) => Evaluated {
            result: Ok(
                match t.literal {
                    Some(v) => v,
                    None => ValueView::Null,
                },
            ),
            scopes,
        },
        ExprView::Grouping(inner) => eval(*inner, scopes),
        ExprView::Variable(name) => Evaluated { result: read_var(name, scopes), scopes },
        ExprView::Assignment(name, value) => {
            let v = eval(*value, scopes);
            match v.result {
                Ok(x) => match scopes_assign(v.scopes, name.key(), x) {
                    Some(after) => Evaluated { result: Ok(x), scopes: after },
                    None => Evaluated {
                        result: Err(fail(RuntimeErrorView::InvalidAssignmentTarget, name)),
                        scopes: v.scopes,
                    },
                },
                Err(_) => v,
            }
        },
        ExprView::Unary(op, operand) => {
            let v = eval(*operand, scopes);
            match v.result {
                Ok(x) => Evaluated { result: apply_unary(op, x), scopes: v.scopes },
                Err(_) => v,
            }
        },
        ExprView::Binary(left, op, right) => {
            let l = eval(*left, scopes);
            match l.result {
                Ok(x) => {
                    let r = eval(*right, l.scopes);
                    match r.result {
                        Ok(y) => Evaluated { result: apply_binary(op, x, y), scopes: r.scopes },
                        Err(_) => r,
                    }
                },
                Err(_) => l,
            }
        },
    }
}

/// The state of a run: the scopes, the values printed so far and the errors
/// met so far.
pub struct Machine {
    pub scopes: Seq<Scope>,
    pub printed: Seq<ValueView>,
    pub errors: Seq<RuntimeDiagnosticView>,
}

impl Machine {
    /// The state before a program runs: one empty scope, nothing printed,
    /// no error.
    pub open spec fn start() -> Machine {
        Machine {
            scopes: seq![Map::<Key, Option<ValueView>>::empty()],
            printed: Seq::empty(),
            errors: Seq::empty(),
        }
    }

    /// The state with other scopes.
    pub open spec fn with_scopes(self, scopes: Seq<Scope>) -> Machine {
        Machine { scopes, ..self }
    }

    /// The state after an expression was evaluated for its effects.
    pub open spec fn after(self, v: Evaluated) -> Machine {
        match v.result {
            Ok(_) => self.with_scopes(v.scopes),
            Err(d) => Machine { scopes: v.scopes, errors: self.errors.push(d), ..self },
        }
    }
}

/// Executing the statement `s` in the state `m`.
///
/// An error ends the statement it occurs in and is added to the errors. A
/// variable whose initialiser fails is not defined. A block runs in a fresh
/// innermost scope, runs all its statements whatever errors they meet, and
/// leaves that scope.
pub open spec fn exec_stmt(s: StmtView, m: Machine) -> Machine
    decreases s, 0nat,
{
    match s {
        StmtView::Expr(e) => m.after(eval(e, m.scopes)),
        StmtView::Print(e) => {
            let v = eval(e, m.scopes);
            match v.result {
                Ok(x) => Machine { scopes: v.scopes, printed: m.printed.push(x), ..m },
                Err(_) => m.after(v),
            }
        },
        StmtView::Var { name, value } => match value {
            Some(e) => {
                let v = eval(e, m.scopes);
                match v.result {
                    Ok(x) => m.with_scopes(scopes_define(v.scopes, name.key(), Some(x))),
                    Err(_) => m.after(v),
                }
            },
            None => m.with_scopes(scopes_define(m.scopes, name.key(), None)),
        },
        StmtView::Block(stmts) => {
            let inner = exec_from(
                stmts,
                0,
                m.with_scopes(seq![Map::<Key, Option<ValueView>>::empty()] + m.scopes),
            );
            inner.with_scopes(inner.scopes.drop_first())
        },
    }
}

/// Executing the statements `stmts[i..]` in order, from the state `m`.
pub open spec fn exec_from(stmts: Seq<StmtView>, i: int, m: Machine) -> Machine
    decreases stmts, stmts.len() - i,
{
    if 0 <= i < stmts.len() {
        exec_from(stmts, i + 1, exec_stmt(stmts[i], m))
    } else {
        m
    }
}

/// Running the program `stmts` from the start.
pub open spec fn run(stmts: Seq<StmtView>) -> Machine {
    exec_from(stmts, 0, Machine::start())
}

/// Storing a value leaves as many scopes as it found.
proof fn lemma_assign_len(scopes: Seq<Scope>, k: Key, v: ValueView)
    ensures
        match scopes_assign(scopes, k, v) {
            Some(after) => after.len() == scopes.len(),
            None => true,
        },
    decreases scopes.len(),
{
    if scopes.len() > 0 && !scopes[0].contains_key(k) {
        lemma_assign_len(scopes.drop_first(), k, v);
    }
}

/// An expression leaves as many scopes as it found.
pub proof fn lemma_eval_keeps_depth(e: ExprView, scopes: Seq<Scope>)
    ensures
        eval(e, scopes).scopes.len() == scopes.len(),
    decreases e,
{
    match e {
        ExprView::Literal(_) => {},
        ExprView::Grouping(inner) => {
            lemma_eval_keeps_depth(*inner, scopes);
        },
        ExprView::Variable(_) => {},
        ExprView::Assignment(name, value) => {
            lemma_eval_keeps_depth(*value, scopes);
            let v = eval(*value, scopes);
            if let Ok(x) = v.result {
                lemma_assign_len(v.scopes, name.key(), x);
            }
        },
        ExprView::Unary(_, operand) => {
            lemma_eval_keeps_depth(*operand, scopes);
        },
        ExprView::Binary(left, _, right) => {
            lemma_eval_keeps_depth(*left, scopes);
            lemma_eval_keeps_depth(*right, eval(*left, scopes).scopes);
        },
    }
}

/// A statement leaves as many scopes as it found: a block leaves the scope
/// it entered.
pub proof fn lemma_stmt_keeps_depth(s: StmtView, m: Machine)
    ensures
        exec_stmt(s, m).scopes.len() == m.scopes.len(),
    decreases s, 0nat,
{
    match s {
        StmtView::Expr(e) => {
            lemma_eval_keeps_depth(e, m.scopes);
        },
        StmtView::Print(e) => {
            lemma_eval_keeps_depth(e, m.scopes);
        },
        StmtView::Var { name, value } => {
            if let Some(e) = value {
                lemma_eval_keeps_depth(e, m.scopes);
            }
        },
        StmtView::Block(stmts) => {
            lemma_stmts_keep_depth(
                stmts,
                0,
                m.with_scopes(seq![Map::<Key, Option<ValueView>>::empty()] + m.scopes),
            );
        },
    }
}

/// A run of statements leaves as many scopes as it found.
pub proof fn lemma_stmts_keep_depth(stmts: Seq<StmtView>, i: int, m: Machine)
    ensures
        exec_from(stmts, i, m).scopes.len() == m.scopes.len(),
    decreases stmts, stmts.len() - i,
{
    if 0 <= i < stmts.len() {
        lemma_stmt_keeps_depth(stmts[i], m);
        lemma_stmts_keep_depth(stmts, i + 1, exec_stmt(stmts[i], m));
    }
}

/// The view of an evaluation's result.
pub open spec fn evaluation_view(r: Result<Value, Diagnostic<RuntimeError>>) -> Evaluation {
    match r {
        Ok(v) => Ok(v@),
        Err(d) => Err(d@),
    }
}

/// The integer `n` as a result, where the operation that gave it did not
/// overflow.
fn integer_or_overflow(n: Option<i128>, op: &Token) -> (r: Result<Value, Diagnostic<RuntimeError>>)
    ensures
        evaluation_view(r) == match n {
            Some(x) => Ok::<ValueView, RuntimeDiagnosticView>(ValueView::Integer(x as int)),
            None => Err(fail(RuntimeErrorView::Overflow, op@)),
        },
{
    match n {
        Some(x) => Ok(Value::Integer(x)),
        None => Err(Diagnostic { kind: RuntimeError::Overflow, span: op.span.clone() }),
    }
}

/// The prefix operator `op` applied to `v`.
fn unary(op: &Token, v: Value) -> (r: Result<Value, Diagnostic<RuntimeError>>)
    ensures
        evaluation_view(r) == apply_unary(op@, v@),
{
    match op.kind {
        TokenKind::Minus => match v {
            Value::Integer(a) => integer_or_overflow(0i128.checked_sub(a), op),
            _ => {
                let expected = vec![Type::Integer];
                assert(expected@ =~= seq![Type::Integer]);
                Err(
                    Diagnostic {
                        kind: RuntimeError::InvalidType(v.ty(), expected),
                        span: op.span.clone(),
                    },
                )
            },
        },
        TokenKind::Bang => match v {
            Value::Boolean(a) => Ok(Value::Boolean(!a)),
            _ => {
                let expected = vec![Type::Boolean];
                assert(expected@ =~= seq![Type::Boolean]);
                Err(
                    Diagnostic {
                        kind: RuntimeError::InvalidType(v.ty(), expected),
                        span: op.span.clone(),
                    },
                )
            },
        },
        _ => {
            let expected = vec!['-', '!'];
            assert(expected@ =~= seq!['-', '!']);
            Err(
                Diagnostic {
                    kind: RuntimeError::InvalidOperator(op.lex(), expected),
                    span: op.span.clone(),
                },
            )
        },
    }
}

/// The error for an operator that takes only the pairs `expected` and got
/// `l` and `r`.
fn mismatch(op: &Token, l: &Value, r: &Value, expected: Vec<(Type, Type)>) -> (d: Diagnostic<
    RuntimeError,
>)
    ensures
        d@ == fail(
            RuntimeErrorView::InvalidTypes(op@.span.lex, seq![l@.ty(), r@.ty()], expected@),
            op@,
        ),
{
    let found = vec![l.ty(), r.ty()];
    assert(found@ =~= seq![l@.ty(), r@.ty()]);
    Diagnostic { kind: RuntimeError::InvalidTypes(op.lex(), found, expected), span: op.span.clone() }
}

/// The pair of types that an operator on integers takes.
fn integer_pair() -> (v: Vec<(Type, Type)>)
    ensures
        v@ == seq![(Type::Integer, Type::Integer)],
{
    let v = vec![(Type::Integer, Type::Integer)];
    assert(v@ =~= seq![(Type::Integer, Type::Integer)]);
    v
}

/// The infix operator `op` applied to `l` and `r`.
fn binary(op: &Token, l: Value, r: Value) -> (res: Result<Value, Diagnostic<RuntimeError>>)
    ensures
        evaluation_view(res) == apply_binary(op@, l@, r@),
{
    match op.kind {
        TokenKind::Slash => match (&l, &r) {
            (Value::Integer(a), Value::Integer(b)) => {
                if *b == 0 {
                    Err(Diagnostic { kind: RuntimeError::DivisionByZero, span: op.span.clone() })
                } else {
                    integer_or_overflow(a.checked_div(*b), op)
                }
            },
            _ => Err(mismatch(op, &l, &r, integer_pair())),
        },
        TokenKind::Minus => match (&l, &r) {
            (Value::Integer(a), Value::Integer(b)) => integer_or_overflow(a.checked_sub(*b), op),
            _ => Err(mismatch(op, &l, &r, integer_pair())),
        },
        TokenKind::Star => match (&l, &r) {
            (Value::Integer(a), Value::Integer(b)) => integer_or_overflow(a.checked_mul(*b), op),
            _ => Err(mismatch(op, &l, &r, integer_pair())),
        },
        TokenKind::Plus => match (&l, &r) {
            (Value::Integer(a), Value::Integer(b)) => integer_or_overflow(a.checked_add(*b), op),
            (Value::String(a), Value::String(b)) => {
                let mut joined = a.clone();
                joined.append(b.as_str());
                Ok(Value::String(joined))
            },
            _ => {
                let expected = vec![(Type::Integer, Type::Integer), (Type::String, Type::String)];
                assert(expected@ =~= seq![
                    (Type::Integer, Type::Integer),
                    (Type::String, Type::String),
                ]);
                Err(mismatch(op, &l, &r, expected))
            },
        },
        _ => {
            let expected = vec!['+', '/', '-', '*'];
            assert(expected@ =~= seq!['+', '/', '-', '*']);
            Err(
                Diagnostic {
                    kind: RuntimeError::InvalidOperator(op.lex(), expected),
                    span: op.span.clone(),
                },
            )
        },
    }
}

/// Walks a program: statements in order, against a chain of scopes that
/// starts as one empty scope.
#[derive(Debug)]
pub struct Interpreter {
    stmts: Vec<Stmt>,
    env: Env,
}

/// What a run leaves: the values it printed, and whether it met errors.
#[derive(Debug)]
pub struct Outcome {
    /// Each value printed, in order.
    pub printed: Vec<Value>,
    /// `Ok` where no statement met an error; otherwise every error met, in
    /// order.
    pub result: Result<(), Vec<Diagnostic<RuntimeError>>>,
}

impl Outcome {
    /// What the run printed, as the lines to write out: the text of each
    /// value, without line ends.
    pub fn lines(&self) -> (lines: Vec<String>)
        ensures
            text_views(lines@) == value_texts(value_views(self.printed@)),
    {
        lines_of(&self.printed)
    }

    /// The errors of the run; none where it met none.
    pub open spec fn errors(self) -> Seq<RuntimeDiagnosticView> {
        match self.result {
            Ok(_) => Seq::empty(),
            Err(errors) => diagnostic_views(errors@),
        }
    }
}

impl Interpreter {
    pub fn new(stmts: Vec<Stmt>) -> (i: Self)
        ensures
            i.program() == crate::ast::stmt_views(stmts@),
            i.scopes() == Machine::start().scopes,
    {
        Self { stmts, env: Env::new() }
    }

    /// The program to run.
    pub closed spec fn program(self) -> Seq<StmtView> {
        crate::ast::stmt_views(self.stmts@)
    }

    /// The scopes the program will run in.
    pub closed spec fn scopes(self) -> Seq<Scope> {
        self.env@
    }

    /// Runs the program. Every statement is executed, whatever errors the
    /// ones before it met; what the run printed is handed back together
    /// with the errors.
    pub fn interpret(self) -> (out: Outcome)
        ensures
            ({
                let end = exec_from(self.program(), 0, Machine::start().with_scopes(self.scopes()));
                &&& value_views(out.printed@) == end.printed
                &&& out.errors() == end.errors
                &&& out.result is Ok <==> end.errors.len() == 0
            }),
    {
        let Interpreter { stmts, env } = self;
        let mut env = env;
        let mut printed: Vec<Value> = Vec::new();
        let mut errors: Vec<Diagnostic<RuntimeError>> = Vec::new();
        let ghost program = crate::ast::stmt_views(stmts@);
        let ghost start = Machine::start().with_scopes(env@);
        assert(value_views(printed@) =~= start.printed);
        assert(diagnostic_views(errors@) =~= start.errors);
        let mut i: usize = 0;
        while i < stmts.len()
            invariant
                i <= stmts.len(),
                program == crate::ast::stmt_views(stmts@),
                exec_from(program, 0, start) == exec_from(
                    program,
                    i as int,
                    machine(env, printed, errors),
                ),
            decreases stmts.len() - i,
        {
            Self::execute(&mut env, &mut printed, &mut errors, &stmts[i]);
            i += 1;
        }
        if errors.len() == 0 {
            assert(diagnostic_views(errors@) =~= Seq::empty());
            Outcome { printed, result: Ok(()) }
        } else {
            Outcome { printed, result: Err(errors) }
        }
    }

    /// Executes one statement.
    fn execute(
        env: &mut Env,
        printed: &mut Vec<Value>,
        errors: &mut Vec<Diagnostic<RuntimeError>>,
        stmt: &Stmt,
    )
        ensures
            machine(*final(env), *final(printed), *final(errors)) == exec_stmt(
                stmt@,
                machine(*old(env), *old(printed), *old(errors)),
            ),
        decreases stmt,
    {
        match stmt {
            Stmt::Expr(expr) => {
                match Self::expression(env, expr) {
                    Ok(_) => {},
                    Err(e) => {
                        Self::report(errors, e);
                    },
                }
            },
            Stmt::Print(expr) => {
                Self::print(env, printed, errors, expr);
            },
            Stmt::Var { name, value } => {
                Self::def_var(env, errors, name, value);
            },
            Stmt::Block(stmts) => {
                assert(stmt@ == StmtView::Block(block_view(*stmts))) by {
                    assert(stmt@->Block_0 =~= block_view(*stmts));
                }
                Self::execute_block(env, printed, errors, stmts);
            },
        }
    }

    /// Adds `e` to the errors met.
    fn report(errors: &mut Vec<Diagnostic<RuntimeError>>, e: Diagnostic<RuntimeError>)
        ensures
            diagnostic_views(final(errors)@) == diagnostic_views(old(errors)@).push(e@),
    {
        errors.push(e);
        assert(diagnostic_views(errors@) =~= diagnostic_views(old(errors)@).push(e@));
    }

    /// Executes the statements of a block in a fresh innermost scope, and
    /// leaves that scope again whatever errors they met.
    fn execute_block(
        env: &mut Env,
        printed: &mut Vec<Value>,
        errors: &mut Vec<Diagnostic<RuntimeError>>,
        stmts: &Vec<Stmt>,
    )
        ensures
            machine(*final(env), *final(printed), *final(errors)) == exec_stmt(
                StmtView::Block(block_view(*stmts)),
                machine(*old(env), *old(printed), *old(errors)),
            ),
        decreases stmts,
    {
        let ghost before = machine(*env, *printed, *errors);
        let ghost body = block_view(*stmts);
        proof {
            env.lemma_nonempty();
        }
        let mut outer = Env::new();
        core::mem::swap(env, &mut outer);
        env.set_parent(outer);
        let ghost entered = before.with_scopes(
            seq![Map::<Key, Option<ValueView>>::empty()] + before.scopes,
        );
        assert(machine(*env, *printed, *errors) == entered);
        let mut i: usize = 0;
        while i < stmts.len()
            invariant
                i <= stmts.len(),
                body == block_view(*stmts),
                exec_from(body, 0, entered) == exec_from(
                    body,
                    i as int,
                    machine(*env, *printed, *errors),
                ),
            decreases stmts.len() - i,
        {
            Self::execute(env, printed, errors, &stmts[i]);
            i += 1;
        }
        proof {
            lemma_stmts_keep_depth(body, 0, entered);
        }
        let ghost end = machine(*env, *printed, *errors);
        assert(end == exec_from(body, 0, entered));
        let mut inner = Env::new();
        core::mem::swap(env, &mut inner);
        match inner.into_parent() {
            Some(p) => {
                *env = p;
            },
            None => {},
        }
        assert(env@ == end.scopes.drop_first());
    }

    /// Reads the variable `ident`.
    fn get_var(env: &Env, ident: &Token) -> (r: Result<Value, Diagnostic<RuntimeError>>)
        ensures
            evaluation_view(r) == read_var(ident@, env@),
    {
        match env.get(ident) {
            Some(val) => match val {
                Some(val) => Ok(val),
                None => Err(
                    Diagnostic {
                        kind: RuntimeError::UninitialisedVar(ident.lex()),
                        span: ident.span.clone(),
                    },
                ),
            },
            None => Err(
                Diagnostic { kind: RuntimeError::InvalidIdent(ident.lex()), span: ident.span.clone() },
            ),
        }
    }

    /// Declares the variable `ident`. Its initialiser, if it has one, is
    /// evaluated first; where that fails the variable is not declared.
    fn def_var(
        env: &mut Env,
        errors: &mut Vec<Diagnostic<RuntimeError>>,
        ident: &Token,
        value: &Option<Expr>,
    )
        ensures
            ({
                let m = Machine {
                    scopes: old(env)@,
                    printed: Seq::empty(),
                    errors: diagnostic_views(old(errors)@),
                };
                let end = exec_stmt(
                    StmtView::Var { name: ident@, value: crate::ast::opt_expr_view(*value) },
                    m,
                );
                &&& final(env)@ == end.scopes
                &&& diagnostic_views(final(errors)@) == end.errors
            }),
    {
        match value {
            Some(expr) => {
                match Self::expression(env, expr) {
                    Ok(val) => {
                        env.define(ident.clone(), Some(val));
                    },
                    Err(e) => {
                        Self::report(errors, e);
                    },
                }
            },
            None => {
                env.define(ident.clone(), None);
            },
        }
    }

    /// Evaluates an expression to a value, or to the first error met.
    fn expression(env: &mut Env, expr: &Expr) -> (r: Result<Value, Diagnostic<RuntimeError>>)
        ensures
            evaluation_view(r) == eval(expr@, old(env)@).result,
            final(env)@ == eval(expr@, old(env)@).scopes,
        decreases expr,
    {
        match expr {
            Expr::Literal(lit) => match &lit.literal {
                Some(v) => Ok(v.clone()),
                None => Ok(Value::Null),
            },
            Expr::Grouping(inner) => Self::expression(env, inner),
            Expr::Variable(ident) => Self::get_var(env, ident),
            Expr::Assignment(ident, val) => match Self::expression(env, val) {
                Ok(v) => env.assign(ident.clone(), v),
                Err(e) => Err(e),
            },
            Expr::Unary(op, operand) => match Self::expression(env, operand) {
                Ok(v) => unary(op, v),
                Err(e) => Err(e),
            },
            Expr::Binary(left, op, right) => match Self::expression(env, left) {
                Ok(l) => match Self::expression(env, right) {
                    Ok(r) => binary(op, l, r),
                    Err(e) => Err(e),
                },
                Err(e) => Err(e),
            },
        }
    }

    /// Evaluates an expression and adds its value to the values printed.
    fn print(
        env: &mut Env,
        printed: &mut Vec<Value>,
        errors: &mut Vec<Diagnostic<RuntimeError>>,
        expr: &Expr,
    )
        ensures
            machine(*final(env), *final(printed), *final(errors)) == exec_stmt(
                StmtView::Print(expr@),
                machine(*old(env), *old(printed), *old(errors)),
            ),
    {
        match Self::expression(env, expr) {
            Ok(v) => {
                let ghost shown = v@;
                printed.push(v);
                assert(value_views(printed@) =~= value_views(old(printed)@).push(shown));
            },
            Err(e) => {
                Self::report(errors, e);
            },
        }
    }
}

/// The state that an environment, the values printed and the errors met
/// stand for.
pub open spec fn machine(
    env: Env,
    printed: Vec<Value>,
    errors: Vec<Diagnostic<RuntimeError>>,
) -> Machine {
    Machine {
        scopes: env@,
        printed: value_views(printed@),
        errors: diagnostic_views(errors@),
    }
}

/// The views of the statements of a block.
pub open spec fn block_view(stmts: Vec<Stmt>) -> Seq<StmtView> {
    Seq::new(
        stmts@.len(),
        |i: int|
            if 0 <= i < stmts@.len() {
                crate::ast::stmt_view(stmts@[i])
            } else {
                arbitrary()
            },
    )
}

} // verus!
