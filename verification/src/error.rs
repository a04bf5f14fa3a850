//! Diagnostics: what went wrong, and where in the source text.

use crate::text::{join, joined, text_views};
use crate::token::Type;
use vstd::prelude::*;

pub mod diagnostics;

pub use self::diagnostics::{clone_opt_text, opt_text_view, Column, DbgSpan, Line, Span, SpanView};

verus! {

/// An error together with the place in the source text it is about.
///
/// The span is that of the offending character or token. Where the input
/// ended before anything offending was read, it is the unknown span.
#[derive(Debug, PartialEq, Eq)]
pub struct Diagnostic<E> {
    pub kind: E,
    pub span: Span,
}

/// The mathematical value of a [`Diagnostic`].
pub struct DiagnosticView<V> {
    pub kind: V,
    pub span: SpanView,
}

impl<E: View> View for Diagnostic<E> {
    type V = DiagnosticView<E::V>;

    open spec fn view(&self) -> DiagnosticView<E::V> {
        DiagnosticView { kind: self.kind@, span: self.span@ }
    }
}

/// An error found while lexing or parsing.
#[derive(Debug, PartialEq, Eq)]
pub enum SyntaxError {
    /// A character that no token starts with.
    UnexpectedCharacter(char),
    /// `expected` had to come, and `found` stood there.
    ExpectedCharacter { found: String, expected: char },
    /// A name had to come, and this text stood there.
    ExpectedIdent(String),
    /// The input ended where more had to come.
    UnexpectedEOF,
    /// An expression had to start, and this text stood there.
    ExpectedExpression(String),
    /// `+` stood where an expression had to start.
    UnaryPlus,
    /// The left side of `=` is not a plain name.
    InvalidAssignmentTarget,
}

/// The mathematical value of a [`SyntaxError`].
pub enum SyntaxErrorView {
    UnexpectedCharacter(char),
    ExpectedCharacter { found: Seq<char>, expected: char },
    ExpectedIdent(Seq<char>),
    UnexpectedEOF,
    ExpectedExpression(Seq<char>),
    UnaryPlus,
    InvalidAssignmentTarget,
}

impl View for SyntaxError {
    type V = SyntaxErrorView;

    open spec fn view(&self) -> SyntaxErrorView {
        match self {
            SyntaxError::UnexpectedCharacter(c) => SyntaxErrorView::UnexpectedCharacter(*c),
            SyntaxError::ExpectedCharacter { found, expected } => SyntaxErrorView::ExpectedCharacter {
                found: found@,
                expected: *expected,
            },
            SyntaxError::ExpectedIdent(found) => SyntaxErrorView::ExpectedIdent(found@),
            SyntaxError::UnexpectedEOF => SyntaxErrorView::UnexpectedEOF,
            SyntaxError::ExpectedExpression(found) => SyntaxErrorView::ExpectedExpression(found@),
            SyntaxError::UnaryPlus => SyntaxErrorView::UnaryPlus,
            SyntaxError::InvalidAssignmentTarget => SyntaxErrorView::InvalidAssignmentTarget,
        }
    }
}

/// An error found while evaluating.
#[derive(Debug, PartialEq, Eq)]
pub enum RuntimeError {
    /// The operator with this text cannot be applied; these can.
    InvalidOperator(String, Vec<char>),
    /// A value of the first type was found where one of the listed types
    /// had to come.
    InvalidType(Type, Vec<Type>),
    /// The operator with this text was applied to values of the listed
    /// types, and takes only the listed pairs.
    InvalidTypes(String, Vec<Type>, Vec<(Type, Type)>),
    /// No scope holds a variable of this name.
    InvalidIdent(String),
    /// The variable of this name was declared and never given a value.
    UninitialisedVar(String),
    /// An assignment to a name that no scope holds.
    InvalidAssignmentTarget,
    /// A division by zero.
    DivisionByZero,
    /// The result of an operation on integers does not fit an integer.
    Overflow,
}

/// The mathematical value of a [`RuntimeError`].
pub enum RuntimeErrorView {
    InvalidOperator(Seq<char>, Seq<char>),
    InvalidType(Type, Seq<Type>),
    InvalidTypes(Seq<char>, Seq<Type>, Seq<(Type, Type)>),
    InvalidIdent(Seq<char>),
    UninitialisedVar(Seq<char>),
    InvalidAssignmentTarget,
    DivisionByZero,
    Overflow,
}

impl View for RuntimeError {
    type V = RuntimeErrorView;

    open spec fn view(&self) -> RuntimeErrorView {
        match self {
            RuntimeError::InvalidOperator(found, expected) => RuntimeErrorView::InvalidOperator(
                found@,
                expected@,
            ),
            RuntimeError::InvalidType(found, expected) => RuntimeErrorView::InvalidType(
                *found,
                expected@,
            ),
            RuntimeError::InvalidTypes(op, found, expected) => RuntimeErrorView::InvalidTypes(
                op@,
                found@,
                expected@,
            ),
            RuntimeError::InvalidIdent(name) => RuntimeErrorView::InvalidIdent(name@),
            RuntimeError::UninitialisedVar(name) => RuntimeErrorView::UninitialisedVar(name@),
            RuntimeError::InvalidAssignmentTarget => RuntimeErrorView::InvalidAssignmentTarget,
            RuntimeError::DivisionByZero => RuntimeErrorView::DivisionByZero,
            RuntimeError::Overflow => RuntimeErrorView::Overflow,
        }
    }
}

/// A diagnostic of the lexer or the parser.
pub type SyntaxDiagnostic = Diagnostic<SyntaxError>;

/// A diagnostic of the evaluator.
pub type RuntimeDiagnostic = Diagnostic<RuntimeError>;

/// The views of a sequence of diagnostics.
pub open spec fn diagnostic_views<E: View>(ds: Seq<Diagnostic<E>>) -> Seq<DiagnosticView<E::V>> {
    ds.map_values(|d: Diagnostic<E>| d@)
}

/// The names of the types `types`, with `, ` between each two.
pub open spec fn types_text(types: Seq<Type>) -> Seq<char> {
    joined(types.map_values(|t: Type| t.name()), ", "@)
}

/// The pair of types `pair`, written `(First, Second)`.
pub open spec fn pair_text(pair: (Type, Type)) -> Seq<char> {
    "("@ + pair.0.name() + ", "@ + pair.1.name() + ")"@
}

/// The pairs `pairs`, with ` or ` between each two.
pub open spec fn pairs_text(pairs: Seq<(Type, Type)>) -> Seq<char> {
    joined(pairs.map_values(|p: (Type, Type)| pair_text(p)), " or "@)
}

/// The character `c` between single quotes.
pub open spec fn quoted(c: char) -> Seq<char> {
    "'"@ + seq![c] + "'"@
}

/// The characters `ops`, each between single quotes, with `, ` between
/// each two.
pub open spec fn ops_text(ops: Seq<char>) -> Seq<char> {
    joined(ops.map_values(|c: char| quoted(c)), ", "@)
}

/// The names of the types `vec`, with `, ` between each two.
pub fn display_vec(vec: &Vec<Type>) -> (s: String)
    ensures
        s@ == types_text(vec@),
{
    let mut names: Vec<String> = Vec::new();
    let mut i: usize = 0;
    while i < vec.len()
        invariant
            i <= vec.len(),
            names.len() == i,
            forall|j: int| 0 <= j < i ==> (#[trigger] names@[j])@ == vec@[j].name(),
        decreases vec.len() - i,
    {
        names.push(vec[i].text());
        i += 1;
    }
    assert(text_views(names@) =~= vec@.map_values(|t: Type| t.name()));
    join(&names, ", ")
}

/// The pairs of types `vec`, each written `(First, Second)`, with ` or `
/// between each two.
pub fn display_tuple_vec(vec: &Vec<(Type, Type)>) -> (s: String)
    requires
        vec.len() > 0,
    ensures
        s@ == pairs_text(vec@),
{
    let mut parts: Vec<String> = Vec::new();
    let mut i: usize = 0;
    while i < vec.len()
        invariant
            i <= vec.len(),
            parts.len() == i,
            forall|j: int| 0 <= j < i ==> (#[trigger] parts@[j])@ == pair_text(vec@[j]),
        decreases vec.len() - i,
    {
        let mut part = String::from_str("(");
        part.append(vec[i].0.text().as_str());
        part.append(", ");
        part.append(vec[i].1.text().as_str());
        part.append(")");
        assert(part@ =~= pair_text(vec@[i as int]));
        parts.push(part);
        i += 1;
    }
    assert(text_views(parts@) =~= vec@.map_values(|p: (Type, Type)| pair_text(p)));
    join(&parts, " or ")
}

/// The characters `ops`, each between single quotes, with `, ` between
/// each two.
pub fn display_ops(ops: &Vec<char>) -> (s: String)
    ensures
        s@ == ops_text(ops@),
{
    let mut parts: Vec<String> = Vec::new();
    let mut i: usize = 0;
    while i < ops.len()
        invariant
            i <= ops.len(),
            parts.len() == i,
            forall|j: int| 0 <= j < i ==> (#[trigger] parts@[j])@ == quoted(ops@[j]),
        decreases ops.len() - i,
    {
        let mut part = String::from_str("'");
        part.push(ops[i]);
        part.append("'");
        assert(part@ =~= quoted(ops@[i as int]));
        parts.push(part);
        i += 1;
    }
    assert(text_views(parts@) =~= ops@.map_values(|c: char| quoted(c)));
    join(&parts, ", ")
}

impl SyntaxErrorView {
    /// What the error says.
    pub open spec fn message(self) -> Seq<char> {
        match self {
            SyntaxErrorView::UnexpectedCharacter(c) =>
                "an unexpected character was found while lexing: '"@ + seq![c] + "'"@,
            SyntaxErrorView::ExpectedCharacter { found, expected } => "expected '"@ + seq![expected]
                + "' but found '"@ + found + "'"@,
            SyntaxErrorView::ExpectedIdent(found) => "expected: identifier but found: "@ + found,
            SyntaxErrorView::UnexpectedEOF => "unexpected EOF found"@,
            SyntaxErrorView::ExpectedExpression(found) => "expected: expression but found: "@
                + found,
            SyntaxErrorView::UnaryPlus => "'+' cannot be used as a unary operator"@,
            SyntaxErrorView::InvalidAssignmentTarget => "invalid assignment target"@,
        }
    }
}

impl SyntaxError {
    /// What the error says.
    pub fn message(&self) -> (s: String)
        ensures
            s@ == self@.message(),
    {
        match self {
            SyntaxError::UnexpectedCharacter(c) => {
                let mut s = String::from_str("an unexpected character was found while lexing: '");
                s.push(*c);
                s.append("'");
                assert(s@ =~= self@.message());
                s
            },
            SyntaxError::ExpectedCharacter { found, expected } => {
                let mut s = String::from_str("expected '");
                s.push(*expected);
                s.append("' but found '");
                s.append(found.as_str());
                s.append("'");
                assert(s@ =~= self@.message());
                s
            },
            SyntaxError::ExpectedIdent(found) => {
                let mut s = String::from_str("expected: identifier but found: ");
                s.append(found.as_str());
                s
            },
            SyntaxError::UnexpectedEOF => String::from_str("unexpected EOF found"),
            SyntaxError::ExpectedExpression(found) => {
                let mut s = String::from_str("expected: expression but found: ");
                s.append(found.as_str());
                s
            },
            SyntaxError::UnaryPlus => String::from_str("'+' cannot be used as a unary operator"),
            SyntaxError::InvalidAssignmentTarget => String::from_str("invalid assignment target"),
        }
    }
}

impl RuntimeErrorView {
    /// What the error says.
    pub open spec fn message(self) -> Seq<char> {
        match self {
            RuntimeErrorView::InvalidOperator(found, expected) =>
                "an invalid operator was used. found: "@ + found + " | expected: "@ + ops_text(
                    expected,
                ),
            RuntimeErrorView::InvalidType(found, expected) => "an invalid type was found: "@
                + found.name() + " | expected: "@ + types_text(expected),
            RuntimeErrorView::InvalidTypes(op, found, expected) => "cannot apply '"@ + op
                + "' to values ("@ + types_text(found) + "), expected: "@ + pairs_text(expected),
            RuntimeErrorView::InvalidIdent(name) => "undefined variable '"@ + name + "'"@,
            RuntimeErrorView::UninitialisedVar(name) => "variable '"@ + name
                + "' was never given a value"@,
            RuntimeErrorView::InvalidAssignmentTarget => "invalid assignment target"@,
            RuntimeErrorView::DivisionByZero => "division by zero"@,
            RuntimeErrorView::Overflow => "integer overflow"@,
        }
    }
}

impl RuntimeError {
    /// What the error says.
    pub fn message(&self) -> (s: String)
        ensures
            s@ == self@.message(),
    {
        match self {
            RuntimeError::InvalidOperator(found, expected) => {
                let mut s = String::from_str("an invalid operator was used. found: ");
                s.append(found.as_str());
                s.append(" | expected: ");
                s.append(display_ops(expected).as_str());
                s
            },
            RuntimeError::InvalidType(found, expected) => {
                let mut s = String::from_str("an invalid type was found: ");
                s.append(found.text().as_str());
                s.append(" | expected: ");
                s.append(display_vec(expected).as_str());
                s
            },
            RuntimeError::InvalidTypes(op, found, expected) => {
                let mut s = String::from_str("cannot apply '");
                s.append(op.as_str());
                s.append("' to values (");
                s.append(display_vec(found).as_str());
                s.append("), expected: ");
                if expected.len() > 0 {
                    s.append(display_tuple_vec(expected).as_str());
                } else {
                    assert(pairs_text(expected@) =~= Seq::<char>::empty());
                    assert(s@ =~= self@.message());
                }
                s
            },
            RuntimeError::InvalidIdent(name) => {
                let mut s = String::from_str("undefined variable '");
                s.append(name.as_str());
                s.append("'");
                s
            },
            RuntimeError::UninitialisedVar(name) => {
                let mut s = String::from_str("variable '");
                s.append(name.as_str());
                s.append("' was never given a value");
                s
            },
            RuntimeError::InvalidAssignmentTarget => String::from_str("invalid assignment target"),
            RuntimeError::DivisionByZero => String::from_str("division by zero"),
            RuntimeError::Overflow => String::from_str("integer overflow"),
        }
    }
}

impl Diagnostic<SyntaxError> {
    /// The diagnostic as one line: `error: ` and what the error says.
    pub fn text(&self) -> (s: String)
        ensures
            s@ == "error: "@ + self@.kind.message(),
    {
        let mut s = String::from_str("error: ");
        s.append(self.kind.message().as_str());
        s
    }
}

impl Diagnostic<RuntimeError> {
    /// The diagnostic as one line: `error: ` and what the error says.
    pub fn text(&self) -> (s: String)
        ensures
            s@ == "error: "@ + self@.kind.message(),
    {
        let mut s = String::from_str("error: ");
        s.append(self.kind.message().as_str());
        s
    }
}

} // verus!
