//! Positions in source text.

use crate::text::{int_text, int_to_text};
use vstd::prelude::*;

verus! {

/// A line number, counted from one.
#[derive(Debug, Clone, Copy, PartialEq, Eq, Structural)]
pub struct Line(pub u32);

/// A column number, counted from one.
#[derive(Debug, Clone, Copy, PartialEq, Eq, Structural)]
pub struct Column(pub u32);

/// Where a piece of source text stands, and the text itself.
#[derive(Debug, PartialEq, Eq)]
pub struct Span {
    pub line: Line,
    pub column: Column,
    /// The file the text came from; `None` for interactive input.
    pub file: Option<String>,
    /// The exact text.
    pub lex: String,
}

/// The mathematical value of a [`Span`].
pub struct SpanView {
    pub line: u32,
    pub column: u32,
    pub file: Option<Seq<char>>,
    pub lex: Seq<char>,
}

/// The view of an optional text.
pub open spec fn opt_text_view(t: Option<String>) -> Option<Seq<char>> {
    match t {
        Some(s) => Some(s@),
        None => None,
    }
}

impl View for Span {
    type V = SpanView;

    open spec fn view(&self) -> SpanView {
        SpanView {
            line: self.line.0,
            column: self.column.0,
            file: opt_text_view(self.file),
            lex: self.lex@,
        }
    }
}

impl SpanView {
    /// The span that stands where no position is known.
    pub open spec fn unknown() -> SpanView {
        SpanView { line: 0, column: 0, file: None, lex: Seq::empty() }
    }
}

/// A copy of an optional text.
pub fn clone_opt_text(t: &Option<String>) -> (r: Option<String>)
    ensures
        r == *t,
{
    match t {
        Some(s) => Some(s.clone()),
        None => None,
    }
}

impl Clone for Span {
    fn clone(&self) -> (r: Self)
        ensures
            r == *self,
    {
        Span {
            line: self.line,
            column: self.column,
            file: clone_opt_text(&self.file),
            lex: self.lex.clone(),
        }
    }
}

impl Span {
    /// The span that stands where no position is known: line and column
    /// zero, no file, no text.
    pub fn unknown() -> (s: Span)
        ensures
            s@ == SpanView::unknown(),
    {
        Span { line: Line(0), column: Column(0), file: None, lex: String::new() }
    }

    /// Reserved for rendering the source line a span points into.
    pub fn to_snippet() {
    }
}

/// A position in the interpreter's own source, for debugging it.
#[derive(Debug, PartialEq, Eq)]
pub struct DbgSpan {
    pub file: String,
    pub line: Line,
    pub column: Column,
}

impl DbgSpan {
    pub fn new(file: &str, line: u32, column: u32) -> (d: Self)
        ensures
            d.file@ == file@,
            d.line == Line(line),
            d.column == Column(column),
    {
        Self { file: String::from_str(file), line: Line(line), column: Column(column) }
    }
}

impl Clone for DbgSpan {
    fn clone(&self) -> (r: Self)
        ensures
            r == *self,
    {
        DbgSpan { file: self.file.clone(), line: self.line, column: self.column }
    }
}

impl Line {
    /// The line number in decimal.
    pub fn text(&self) -> (s: String)
        ensures
            s@ == int_text(self.0 as int),
    {
        int_to_text(self.0 as i128)
    }
}

impl Column {
    /// The column number in decimal.
    pub fn text(&self) -> (s: String)
        ensures
            s@ == int_text(self.0 as int),
    {
        int_to_text(self.0 as i128)
    }
}

impl DbgSpan {
    /// The position written `[file:line:column]`.
    pub fn text(&self) -> (s: String)
        ensures
            s@ == "["@ + self.file@ + ":"@ + int_text(self.line.0 as int) + ":"@ + int_text(
                self.column.0 as int,
            ) + "]"@,
    {
        let mut s = String::from_str("[");
        s.append(self.file.as_str());
        s.append(":");
        s.append(self.line.text().as_str());
        s.append(":");
        s.append(self.column.text().as_str());
        s.append("]");
        s
    }
}

} // verus!
