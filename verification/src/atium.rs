//! The three stages in a row: lexing, parsing, interpreting. A stage that
//! meets errors hands them back, and the stages behind it do not run.

use crate::ast::StmtView;
use crate::error::{diagnostic_views, Diagnostic, RuntimeError, SyntaxError};
use crate::interpreter::{exec_from, run, Interpreter, Machine, Outcome, RuntimeDiagnosticView};
use crate::lexer::{lex_source, opt_str_view, Cursor, LexDiagnosticView, Lexed};
use crate::parser::{parse_tokens, Parser, SyntaxDiagnosticView};
use crate::text::text_views;
use crate::token::{lines_of, value_texts, value_views, Value, ValueView};
use crate::token::TokenView;
use std::marker::PhantomData;
use vstd::prelude::*;

verus! {

/// The state of a pipeline that has yet to lex its source.
pub struct Lexing;

/// The state of a pipeline that has yet to parse its tokens.
pub struct Parsing;

/// The state of a pipeline that has yet to interpret its program.
pub struct Interpreting;

/// The pipeline in one of its three states. Each stage consumes it and
/// hands back the pipeline in the next state.
pub struct Atium<State = Lexing> {
    /// The cursor that goes over the source and makes tokens of it.
    cursor: Cursor,
    /// The parser that makes a syntax tree of the tokens.
    parser: Parser,
    /// The interpreter that walks the syntax tree.
    interpreter: Interpreter,
    state: PhantomData<State>,
}

impl<State> Atium<State> {
    /// What lexing the source of the pipeline gives.
    pub closed spec fn lexed(self) -> Lexed {
        self.cursor@.rest()
    }

    /// The tokens that the pipeline is to parse.
    pub closed spec fn tokens(self) -> Seq<TokenView> {
        self.parser.tokens()
    }

    /// How many of its tokens the pipeline has parsed.
    pub closed spec fn parsed(self) -> int {
        self.parser.position()
    }

    /// The program that the pipeline is to interpret.
    pub closed spec fn program(self) -> Seq<StmtView> {
        self.interpreter.program()
    }

    /// The state the program starts to run in.
    pub closed spec fn start(self) -> Machine {
        Machine::start().with_scopes(self.interpreter.scopes())
    }
}

impl Atium<Lexing> {
    /// A pipeline for the source `src`, which came from `file`.
    pub fn new(src: &str, file: Option<&str>) -> (a: Self)
        ensures
            a.lexed() == lex_source(src@, opt_str_view(file)),
    {
        Self {
            cursor: Cursor::new(src, file),
            parser: Parser::new(Vec::new()),
            interpreter: Interpreter::new(Vec::new()),
            state: PhantomData,
        }
    }

    /// Lexes the source, unless an integer literal in it is too large for
    /// an integer: then `None`.
    pub fn lex_checked(self) -> (r: Option<Result<Atium<Parsing>, Vec<Diagnostic<SyntaxError>>>>)
        ensures
            match r {
                Some(Ok(next)) => !self.lexed().fatal && self.lexed().result() == Ok::<
                    Seq<TokenView>,
                    Seq<LexDiagnosticView>,
                >(next.tokens()) && next.parsed() == 0,
                Some(Err(errors)) => !self.lexed().fatal && self.lexed().result() == Err::<
                    Seq<TokenView>,
                    Seq<LexDiagnosticView>,
                >(diagnostic_views(errors@)),
                None => self.lexed().fatal,
            },
    {
        match self.cursor.lex_checked() {
            Some(Ok(tokens)) => Some(
                Ok(
                    Atium {
                        cursor: Cursor::new("", None),
                        parser: Parser::new(tokens),
                        interpreter: Interpreter::new(Vec::new()),
                        state: PhantomData,
                    },
                ),
            ),
            Some(Err(errors)) => Some(Err(errors)),
            None => None,
        }
    }

    /// Lexes the source: the pipeline ready to parse where no error was
    /// met, every error otherwise.
    pub fn lex(self) -> (r: Result<Atium<Parsing>, Vec<Diagnostic<SyntaxError>>>)
        requires
            !self.lexed().fatal,
        ensures
            match r {
                Ok(next) => self.lexed().result() == Ok::<Seq<TokenView>, Seq<LexDiagnosticView>>(
                    next.tokens(),
                ) && next.parsed() == 0,
                Err(errors) => self.lexed().result() == Err::<
                    Seq<TokenView>,
                    Seq<LexDiagnosticView>,
                >(diagnostic_views(errors@)),
            },
    {
        match self.lex_checked() {
            Some(r) => r,
            None => Err(Vec::new()),
        }
    }
}

impl Atium<Parsing> {
    /// Parses the tokens: the pipeline ready to interpret where no
    /// statement failed, the error of each that did otherwise.
    pub fn parse(self) -> (r: Result<Atium<Interpreting>, Vec<Diagnostic<SyntaxError>>>)
        ensures
            match r {
                Ok(next) => crate::parser::parse_from(self.tokens(), self.parsed()) == Ok::<
                    Seq<StmtView>,
                    Seq<SyntaxDiagnosticView>,
                >(next.program()) && next.start() == Machine::start(),
                Err(errors) => crate::parser::parse_from(self.tokens(), self.parsed()) == Err::<
                    Seq<StmtView>,
                    Seq<SyntaxDiagnosticView>,
                >(diagnostic_views(errors@)),
            },
    {
        let mut parser = self.parser;
        match parser.parse() {
            Ok(stmts) => Ok(
                Atium {
                    cursor: Cursor::new("", None),
                    parser: Parser::new(Vec::new()),
                    interpreter: Interpreter::new(stmts),
                    state: PhantomData,
                },
            ),
            Err(errors) => Err(errors),
        }
    }
}

impl Atium<Interpreting> {
    /// Runs the program.
    pub fn interpret(self) -> (out: Outcome)
        ensures
            ({
                let end = exec_from(self.program(), 0, self.start());
                &&& value_views(out.printed@) == end.printed
                &&& out.errors() == end.errors
                &&& out.result is Ok <==> end.errors.len() == 0
            }),
    {
        self.interpreter.interpret()
    }
}

/// Why a source did not run to its end without errors.
#[derive(Debug)]
pub enum Failure {
    /// Lexing met these errors: nothing was parsed or run.
    Lexical(Vec<Diagnostic<SyntaxError>>),
    /// Parsing met these errors: nothing was run.
    Syntactic(Vec<Diagnostic<SyntaxError>>),
    /// The program ran and met these errors.
    Runtime(Vec<Diagnostic<RuntimeError>>),
}

/// What running a source gave.
#[derive(Debug)]
pub struct Ran {
    /// The values the program printed, in order.
    pub printed: Vec<Value>,
    /// `None` where all went well.
    pub failure: Option<Failure>,
}

impl Ran {
    /// What the program printed, as the lines to write out: the text of
    /// each value, without line ends.
    pub fn lines(&self) -> (lines: Vec<String>)
        ensures
            text_views(lines@) == value_texts(value_views(self.printed@)),
    {
        lines_of(&self.printed)
    }
}

/// The mathematical value of a [`Failure`].
pub enum FailureView {
    Lexical(Seq<LexDiagnosticView>),
    Syntactic(Seq<SyntaxDiagnosticView>),
    Runtime(Seq<RuntimeDiagnosticView>),
}

/// The mathematical value of a [`Ran`].
pub struct RanView {
    pub printed: Seq<ValueView>,
    pub failure: Option<FailureView>,
}

impl View for Failure {
    type V = FailureView;

    open spec fn view(&self) -> FailureView {
        match self {
            Failure::Lexical(errors) => FailureView::Lexical(diagnostic_views(errors@)),
            Failure::Syntactic(errors) => FailureView::Syntactic(diagnostic_views(errors@)),
            Failure::Runtime(errors) => FailureView::Runtime(diagnostic_views(errors@)),
        }
    }
}

impl View for Ran {
    type V = RanView;

    open spec fn view(&self) -> RanView {
        RanView {
            printed: value_views(self.printed@),
            failure: match self.failure {
                Some(f) => Some(f@),
                None => None,
            },
        }
    }
}

/// What running the source `src` gives, where no integer literal in it is
/// too large: the errors of the first stage that met any, and what the
/// program printed if it got to run.
pub open spec fn run_source(src: Seq<char>, file: Option<Seq<char>>) -> RanView {
    match lex_source(src, file).result() {
        Err(errors) => RanView { printed: Seq::empty(), failure: Some(FailureView::Lexical(errors)) },
        Ok(tokens) => match parse_tokens(tokens) {
            Err(errors) => RanView {
                printed: Seq::empty(),
                failure: Some(FailureView::Syntactic(errors)),
            },
            Ok(stmts) => {
                let end = run(stmts);
                RanView {
                    printed: end.printed,
                    failure: if end.errors.len() == 0 {
                        None
                    } else {
                        Some(FailureView::Runtime(end.errors))
                    },
                }
            },
        },
    }
}

/// Runs the source `src`, which came from `file`: lexes it, parses the
/// tokens, interprets the program. `None` where an integer literal in the
/// source is too large for an integer.
pub fn run_checked(src: &str, file: Option<&str>) -> (r: Option<Ran>)
    ensures
        match r {
            Some(ran) => !lex_source(src@, opt_str_view(file)).fatal && ran@ == run_source(
                src@,
                opt_str_view(file),
            ),
            None => lex_source(src@, opt_str_view(file)).fatal,
        },
{
    let parsing = match Atium::new(src, file).lex_checked() {
        None => {
            return None;
        },
        Some(Err(errors)) => {
            let printed: Vec<Value> = Vec::new();
            assert(value_views(printed@) =~= Seq::empty());
            return Some(Ran { printed, failure: Some(Failure::Lexical(errors)) });
        },
        Some(Ok(parsing)) => parsing,
    };
    let interpreting = match parsing.parse() {
        Err(errors) => {
            let printed: Vec<Value> = Vec::new();
            assert(value_views(printed@) =~= Seq::empty());
            return Some(Ran { printed, failure: Some(Failure::Syntactic(errors)) });
        },
        Ok(interpreting) => interpreting,
    };
    let out = interpreting.interpret();
    match out.result {
        Ok(_) => Some(Ran { printed: out.printed, failure: None }),
        Err(errors) => Some(Ran { printed: out.printed, failure: Some(Failure::Runtime(errors)) }),
    }
}

} // verus!
