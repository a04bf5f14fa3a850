//! The parser: recursive descent over statements, precedence climbing over
//! expressions, with recovery after a statement that fails.

use crate::ast::{Stmt, StmtView};
use crate::error::{
    Diagnostic, DiagnosticView, Span, SpanView, SyntaxError, SyntaxErrorView, diagnostic_views,
};
use crate::token::{token_views, Token, TokenKind, TokenView};
use vstd::prelude::*;

pub mod expr;
pub mod laws;

pub use self::expr::{infix_bp, parse_expr, prefix_bp};

verus! {

/// The mathematical value of a diagnostic of the parser.
pub type SyntaxDiagnosticView = DiagnosticView<SyntaxErrorView>;

/// What parsing from some position gives, and the position it stops at.
pub struct Parsed<T> {
    pub result: Result<T, SyntaxDiagnosticView>,
    pub pos: int,
}

/// The text of the token at `pos`; `EOF` past the end.
pub open spec fn found_at(toks: Seq<TokenView>, pos: int) -> Seq<char> {
    if 0 <= pos < toks.len() {
        toks[pos].span.lex
    } else {
        "EOF"@
    }
}

/// The span of the token at `pos`; the unknown span past the end.
pub open spec fn span_at(toks: Seq<TokenView>, pos: int) -> SpanView {
    if 0 <= pos < toks.len() {
        toks[pos].span
    } else {
        SpanView::unknown()
    }
}

/// The error `kind`, reported at the token at `pos`.
pub open spec fn error_at(kind: SyntaxErrorView, toks: Seq<TokenView>, pos: int) -> SyntaxDiagnosticView {
    DiagnosticView { kind, span: span_at(toks, pos) }
}

/// The error for the character `c` missing at `pos`.
pub open spec fn expected(c: char, toks: Seq<TokenView>, pos: int) -> SyntaxDiagnosticView {
    error_at(
        SyntaxErrorView::ExpectedCharacter { found: found_at(toks, pos), expected: c },
        toks,
        pos,
    )
}

/// `value`, if a semicolon stands at `pos`: the parse then ends behind
/// it. Otherwise the error for a missing semicolon, at `pos`.
pub open spec fn closed_by_semicolon<T>(toks: Seq<TokenView>, pos: int, value: T) -> Parsed<T> {
    if 0 <= pos < toks.len() && toks[pos].kind == TokenKind::Semicolon {
        Parsed { result: Ok(value), pos: pos + 1 }
    } else {
        Parsed { result: Err(expected(';', toks, pos)), pos }
    }
}

/// The variable declaration whose name has to stand at `pos`, behind the
/// keyword: a name, an initialiser behind `=` if there is one, and a
/// semicolon.
pub open spec fn parse_var(toks: Seq<TokenView>, pos: int) -> Parsed<StmtView> {
    if 0 <= pos < toks.len() && toks[pos].kind == TokenKind::Identifier {
        let name = toks[pos];
        if pos + 1 < toks.len() && toks[pos + 1].kind == TokenKind::Equal {
            let init = parse_expr(toks, pos + 2, 0);
            match init.result {
                Ok(e) => closed_by_semicolon(
                    toks,
                    init.pos,
                    StmtView::Var { name, value: Some(e) },
                ),
                Err(d) => Parsed { result: Err(d), pos: init.pos },
            }
        } else {
            closed_by_semicolon(toks, pos + 1, StmtView::Var { name, value: None })
        }
    } else {
        Parsed {
            result: Err(error_at(SyntaxErrorView::ExpectedIdent(found_at(toks, pos)), toks, pos)),
            pos,
        }
    }
}

/// The statement that starts at `pos`: a print statement, a block, or an
/// expression followed by a semicolon.
pub open spec fn parse_statement(toks: Seq<TokenView>, pos: int) -> Parsed<StmtView>
    decreases toks.len() - pos, 0nat,
{
    if !(0 <= pos < toks.len()) {
        Parsed { result: Err(error_at(SyntaxErrorView::UnexpectedEOF, toks, pos)), pos }
    } else if toks[pos].kind == TokenKind::Print {
        let e = parse_expr(toks, pos + 1, 0);
        match e.result {
            Ok(e_ok) => closed_by_semicolon(toks, e.pos, StmtView::Print(e_ok)),
            Err(d) => Parsed { result: Err(d), pos: e.pos },
        }
    } else if toks[pos].kind == TokenKind::LeftBrace {
        let body = parse_block(toks, pos + 1, Seq::empty());
        match body.result {
            Ok(stmts) => Parsed { result: Ok(StmtView::Block(stmts)), pos: body.pos },
            Err(d) => Parsed { result: Err(d), pos: body.pos },
        }
    } else {
        let e = parse_expr(toks, pos, 0);
        match e.result {
            Ok(e_ok) => closed_by_semicolon(toks, e.pos, StmtView::Expr(e_ok)),
            Err(d) => Parsed { result: Err(d), pos: e.pos },
        }
    }
}

/// The declaration that starts at `pos`: a variable declaration behind
/// `var`, any other statement otherwise.
pub open spec fn parse_item(toks: Seq<TokenView>, pos: int) -> Parsed<StmtView>
    decreases toks.len() - pos, 1nat,
{
    if 0 <= pos < toks.len() && toks[pos].kind == TokenKind::Var {
        parse_var(toks, pos + 1)
    } else {
        parse_statement(toks, pos)
    }
}

/// The rest of a block from `pos` on, behind the statements `acc` already
/// read: declarations up to the closing brace. The first that fails ends
/// the block with its error.
pub open spec fn parse_block(toks: Seq<TokenView>, pos: int, acc: Seq<StmtView>) -> Parsed<
    Seq<StmtView>,
>
    decreases toks.len() - pos, 2nat,
{
    if !(0 <= pos < toks.len()) {
        Parsed { result: Err(expected('}', toks, pos)), pos }
    } else if toks[pos].kind == TokenKind::RightBrace {
        Parsed { result: Ok(acc), pos: pos + 1 }
    } else {
        let item = parse_item(toks, pos);
        match item.result {
            Ok(s) => if pos < item.pos <= toks.len() {
                parse_block(toks, item.pos, acc.push(s))
            } else {
                Parsed { result: Ok(acc.push(s)), pos: item.pos }
            },
            Err(d) => Parsed { result: Err(d), pos: item.pos },
        }
    }
}

/// A statement can start with a token of this kind.
pub open spec fn starts_statement(kind: TokenKind) -> bool {
    kind == TokenKind::Class || kind == TokenKind::Fun || kind == TokenKind::Var || kind
        == TokenKind::For || kind == TokenKind::If || kind == TokenKind::While || kind
        == TokenKind::Print || kind == TokenKind::Return
}

/// The first position from `pos` on where a statement can start; the end
/// where there is none.
pub open spec fn skip_to_statement(toks: Seq<TokenView>, pos: int) -> int
    decreases toks.len() - pos,
{
    if 0 <= pos < toks.len() && !starts_statement(toks[pos].kind) {
        skip_to_statement(toks, pos + 1)
    } else {
        pos
    }
}

/// Where parsing goes on after an error at `pos`: the token there is
/// discarded. If it was a semicolon the next statement starts behind it;
/// otherwise at the next token that can start a statement.
pub open spec fn recover_from(toks: Seq<TokenView>, pos: int) -> int {
    if !(0 <= pos < toks.len()) {
        pos
    } else if toks[pos].kind == TokenKind::Semicolon {
        pos + 1
    } else {
        skip_to_statement(toks, pos + 1)
    }
}

/// The statements and the errors of a parse.
pub struct Program {
    pub stmts: Seq<StmtView>,
    pub errors: Seq<SyntaxDiagnosticView>,
}

/// The declarations from `pos` to the end, added to `acc`. A declaration
/// that fails adds its error, and parsing goes on where recovery leads.
pub open spec fn parse_program(toks: Seq<TokenView>, pos: int, acc: Program) -> Program
    decreases toks.len() - pos,
{
    if !(0 <= pos < toks.len()) {
        acc
    } else {
        let item = parse_item(toks, pos);
        match item.result {
            Ok(s) => if pos < item.pos <= toks.len() {
                parse_program(toks, item.pos, Program { stmts: acc.stmts.push(s), ..acc })
            } else {
                Program { stmts: acc.stmts.push(s), ..acc }
            },
            Err(d) => {
                let next = recover_from(toks, item.pos);
                if pos < next <= toks.len() {
                    parse_program(toks, next, Program { errors: acc.errors.push(d), ..acc })
                } else {
                    Program { errors: acc.errors.push(d), ..acc }
                }
            },
        }
    }
}

/// What parsing the tokens from `pos` on gives: the statements where none
/// failed, otherwise the error of each that did, in order.
pub open spec fn parse_from(toks: Seq<TokenView>, pos: int) -> Result<
    Seq<StmtView>,
    Seq<SyntaxDiagnosticView>,
> {
    let p = parse_program(toks, pos, Program { stmts: Seq::empty(), errors: Seq::empty() });
    if p.errors.len() == 0 {
        Ok(p.stmts)
    } else {
        Err(p.errors)
    }
}

/// What parsing a whole list of tokens gives.
pub open spec fn parse_tokens(toks: Seq<TokenView>) -> Result<
    Seq<StmtView>,
    Seq<SyntaxDiagnosticView>,
> {
    parse_from(toks, 0)
}

/// What a parse gave and where it stopped, by their views.
pub open spec fn parsed_stmt(r: Result<Stmt, Diagnostic<SyntaxError>>, pos: int) -> Parsed<
    StmtView,
> {
    Parsed {
        result: match r {
            Ok(s) => Ok(s@),
            Err(d) => Err(d@),
        },
        pos,
    }
}

/// The view of what `parse` hands back.
pub open spec fn program_view(r: Result<Vec<Stmt>, Vec<Diagnostic<SyntaxError>>>) -> Result<
    Seq<StmtView>,
    Seq<SyntaxDiagnosticView>,
> {
    match r {
        Ok(stmts) => Ok(crate::ast::stmt_views(stmts@)),
        Err(errors) => Err(diagnostic_views(errors@)),
    }
}

/// A cursor over a list of tokens.
#[derive(Debug)]
pub struct Parser {
    tokens: Vec<Token>,
    pos: usize,
}

impl Parser {
    /// The tokens the parser reads.
    pub closed spec fn tokens(self) -> Seq<TokenView> {
        token_views(self.tokens@)
    }

    /// How many tokens were consumed.
    pub closed spec fn position(self) -> int {
        self.pos as int
    }

    #[verifier::type_invariant]
    spec fn inv(self) -> bool {
        self.pos <= self.tokens.len()
    }

    /// A parser at the start of `token_stream`.
    pub fn new(token_stream: Vec<Token>) -> (p: Self)
        ensures
            p.tokens() == token_views(token_stream@),
            p.position() == 0,
    {
        Self { tokens: token_stream, pos: 0 }
    }

    /// The kind of the next token, if there is one. Nothing is consumed.
    pub fn peek_kind(&self) -> (k: Option<TokenKind>)
        ensures
            0 <= self.position() <= self.tokens().len(),
            match k {
                Some(kind) => self.position() < self.tokens().len() && kind
                    == self.tokens()[self.position()].kind,
                None => self.position() == self.tokens().len(),
            },
    {
        proof {
            use_type_invariant(self);
        }
        if self.pos < self.tokens.len() {
            Some(self.tokens[self.pos].kind)
        } else {
            None
        }
    }

    /// Consumes the next token and hands it out; `None` at the end.
    pub fn step(&mut self) -> (t: Option<Token>)
        ensures
            final(self).tokens() == old(self).tokens(),
            old(self).position() <= final(self).position() <= old(self).tokens().len(),
            match t {
                Some(tok) => old(self).position() < old(self).tokens().len() && tok@ == old(self).tokens()[old(self).position()] && final(self).position() == old(self).position()
                    + 1,
                None => old(self).position() >= old(self).tokens().len() && final(self).position()
                    == old(self).position(),
            },
    {
        proof {
            use_type_invariant(&*self);
        }
        if self.pos < self.tokens.len() {
            let tok = self.tokens[self.pos].clone();
            self.pos = self.pos + 1;
            Some(tok)
        } else {
            None
        }
    }

    /// The token consumed last; `None` before the first.
    pub fn prev(&self) -> (t: Option<&Token>)
        ensures
            match t {
                Some(tok) => self.position() > 0 && tok@ == self.tokens()[self.position() - 1],
                None => self.position() == 0,
            },
    {
        proof {
            use_type_invariant(self);
        }
        if self.pos > 0 {
            Some(&self.tokens[self.pos - 1])
        } else {
            None
        }
    }

    /// Consumes the next token; an error at the end.
    pub fn advance(&mut self) -> (r: Result<Token, Diagnostic<SyntaxError>>)
        ensures
            final(self).tokens() == old(self).tokens(),
            old(self).position() <= final(self).position() <= old(self).tokens().len(),
            match r {
                Ok(tok) => old(self).position() < old(self).tokens().len() && tok@ == old(self).tokens()[old(self).position()] && final(self).position() == old(self).position()
                    + 1,
                Err(d) => old(self).position() >= old(self).tokens().len() && final(self).position()
                    == old(self).position() && d@ == error_at(
                    SyntaxErrorView::UnexpectedEOF,
                    old(self).tokens(),
                    old(self).position(),
                ),
            },
    {
        match self.step() {
            Some(tok) => Ok(tok),
            None => Err(Diagnostic { kind: SyntaxError::UnexpectedEOF, span: Span::unknown() }),
        }
    }

    /// The next token, not consumed; an error at the end.
    pub fn peer(&self) -> (r: Result<Token, Diagnostic<SyntaxError>>)
        ensures
            match r {
                Ok(tok) => self.position() < self.tokens().len() && tok@
                    == self.tokens()[self.position()],
                Err(d) => self.position() >= self.tokens().len() && d@ == error_at(
                    SyntaxErrorView::UnexpectedEOF,
                    self.tokens(),
                    self.position(),
                ),
            },
    {
        proof {
            use_type_invariant(self);
        }
        if self.pos < self.tokens.len() {
            Ok(self.tokens[self.pos].clone())
        } else {
            Err(Diagnostic { kind: SyntaxError::UnexpectedEOF, span: Span::unknown() })
        }
    }

    /// Consumes the next token if it is of the kind `expected`; otherwise
    /// nothing is consumed.
    pub fn eat(&mut self, expected: TokenKind) -> (t: Option<Token>)
        ensures
            final(self).tokens() == old(self).tokens(),
            old(self).position() <= final(self).position() <= old(self).tokens().len(),
            match t {
                Some(tok) => old(self).position() < old(self).tokens().len() && tok@ == old(self).tokens()[old(self).position()] && tok.kind == expected && final(self).position()
                    == old(self).position() + 1,
                None => final(self).position() == old(self).position() && !(old(self).position()
                    < old(self).tokens().len() && old(self).tokens()[old(self).position()].kind
                    == expected),
            },
    {
        match self.peek_kind() {
            Some(kind) => if kind == expected {
                self.step()
            } else {
                None
            },
            None => None,
        }
    }

    /// Whether the next token is of the kind `expected`; an error at the
    /// end.
    pub fn taste(&self, expected: TokenKind) -> (r: Result<bool, Diagnostic<SyntaxError>>)
        ensures
            match r {
                Ok(b) => self.position() < self.tokens().len() && b == (
                self.tokens()[self.position()].kind == expected),
                Err(d) => self.position() >= self.tokens().len() && d@ == error_at(
                    SyntaxErrorView::UnexpectedEOF,
                    self.tokens(),
                    self.position(),
                ),
            },
    {
        match self.peek_kind() {
            Some(kind) => Ok(kind == expected),
            None => Err(Diagnostic { kind: SyntaxError::UnexpectedEOF, span: Span::unknown() }),
        }
    }

    /// The error `kind`, reported at the next token.
    pub(crate) fn fail(&self, kind: SyntaxError) -> (d: Diagnostic<SyntaxError>)
        ensures
            d@ == error_at(kind@, self.tokens(), self.position()),
    {
        proof {
            use_type_invariant(self);
        }
        if self.pos < self.tokens.len() {
            Diagnostic { kind, span: self.tokens[self.pos].span.clone() }
        } else {
            Diagnostic { kind, span: Span::unknown() }
        }
    }

    /// The text of the next token; `EOF` at the end.
    pub(crate) fn found(&self) -> (s: String)
        ensures
            s@ == found_at(self.tokens(), self.position()),
    {
        proof {
            use_type_invariant(self);
        }
        if self.pos < self.tokens.len() {
            self.tokens[self.pos].lex()
        } else {
            String::from_str("EOF")
        }
    }

    /// The error for the character `c` missing before the next token.
    pub(crate) fn missing(&self, c: char) -> (d: Diagnostic<SyntaxError>)
        ensures
            d@ == expected(c, self.tokens(), self.position()),
    {
        self.fail(SyntaxError::ExpectedCharacter { found: self.found(), expected: c })
    }
}

impl Parser {
    /// Parses the tokens from the next one to the end into statements.
    ///
    /// A statement that fails does not end the parse: its error is kept,
    /// tokens are discarded up to where a statement can start again, and
    /// parsing goes on. The statements come back only where none failed;
    /// otherwise every error comes back, in order.
    pub fn parse(&mut self) -> (r: Result<Vec<Stmt>, Vec<Diagnostic<SyntaxError>>>)
        ensures
            final(self).tokens() == old(self).tokens(),
            final(self).position() == old(self).tokens().len(),
            program_view(r) == parse_from(old(self).tokens(), old(self).position()),
    {
        let ghost toks = self.tokens();
        let ghost start = self.position();
        let mut stmts: Vec<Stmt> = Vec::new();
        let mut errors: Vec<Diagnostic<SyntaxError>> = Vec::new();
        let ghost empty = Program { stmts: Seq::empty(), errors: Seq::empty() };
        assert(crate::ast::stmt_views(stmts@) =~= empty.stmts);
        assert(diagnostic_views(errors@) =~= empty.errors);
        let mut more = self.peek_kind().is_some();
        while more
            invariant
                toks == old(self).tokens(),
                start == old(self).position(),
                self.tokens() == toks,
                0 <= self.position() <= toks.len(),
                more == (self.position() < toks.len()),
                parse_program(toks, start, empty) == parse_program(
                    toks,
                    self.position(),
                    Program {
                        stmts: crate::ast::stmt_views(stmts@),
                        errors: diagnostic_views(errors@),
                    },
                ),
            decreases toks.len() - self.position(),
        {
            let ghost before = Program {
                stmts: crate::ast::stmt_views(stmts@),
                errors: diagnostic_views(errors@),
            };
            match self.declaration() {
                Ok(stmt) => {
                    stmts.push(stmt);
                    assert(crate::ast::stmt_views(stmts@) =~= before.stmts.push(stmt@));
                },
                Err(e) => {
                    errors.push(e);
                    assert(diagnostic_views(errors@) =~= before.errors.push(e@));
                },
            }
            more = self.peek_kind().is_some();
        }
        if errors.len() == 0 {
            Ok(stmts)
        } else {
            Err(errors)
        }
    }

    /// Parses one declaration, and recovers where it fails: the parser then
    /// stands where the next statement can start.
    pub fn declaration(&mut self) -> (r: Result<Stmt, Diagnostic<SyntaxError>>)
        ensures
            final(self).tokens() == old(self).tokens(),
            ({
                let item = parse_item(old(self).tokens(), old(self).position());
                &&& parsed_stmt(r, item.pos) == item
                &&& final(self).position() == if r is Ok {
                    item.pos
                } else {
                    recover_from(old(self).tokens(), item.pos)
                }
            }),
            old(self).position() <= final(self).position() <= old(self).tokens().len(),
            old(self).position() < old(self).tokens().len() ==> old(self).position() < final(self).position(),
    {
        match self.item() {
            Ok(stmt) => Ok(stmt),
            Err(e) => {
                self.recover();
                Err(e)
            },
        }
    }

    /// Parses one declaration: a variable declaration behind `var`, any
    /// other statement otherwise.
    fn item(&mut self) -> (r: Result<Stmt, Diagnostic<SyntaxError>>)
        ensures
            final(self).tokens() == old(self).tokens(),
            parsed_stmt(r, final(self).position()) == parse_item(
                old(self).tokens(),
                old(self).position(),
            ),
            old(self).position() <= final(self).position() <= old(self).tokens().len(),
            r is Ok ==> old(self).position() < final(self).position(),
        decreases old(self).tokens().len() - old(self).position(), 1nat,
    {
        match self.eat(TokenKind::Var) {
            Some(_) => self.var_decl(),
            None => self.statement(),
        }
    }

    /// Consumes a semicolon; the error for a missing one where another
    /// token, or none, stands there.
    fn semicolon(&mut self) -> (r: Result<(), Diagnostic<SyntaxError>>)
        ensures
            final(self).tokens() == old(self).tokens(),
            old(self).position() <= final(self).position() <= old(self).tokens().len(),
            match r {
                Ok(_) => closed_by_semicolon(old(self).tokens(), old(self).position(), ())
                    == Parsed::<()> { result: Ok(()), pos: final(self).position() },
                Err(d) => closed_by_semicolon(old(self).tokens(), old(self).position(), ())
                    == Parsed::<()> { result: Err(d@), pos: final(self).position() },
            },
    {
        match self.eat(TokenKind::Semicolon) {
            Some(_) => Ok(()),
            None => Err(self.missing(';')),
        }
    }

    /// Parses a variable declaration from behind its keyword.
    fn var_decl(&mut self) -> (r: Result<Stmt, Diagnostic<SyntaxError>>)
        ensures
            final(self).tokens() == old(self).tokens(),
            parsed_stmt(r, final(self).position()) == parse_var(
                old(self).tokens(),
                old(self).position(),
            ),
            old(self).position() <= final(self).position() <= old(self).tokens().len(),
    {
        let ident = match self.eat(TokenKind::Identifier) {
            Some(ident) => ident,
            None => {
                return Err(self.fail(SyntaxError::ExpectedIdent(self.found())));
            },
        };
        let initial_value = match self.eat(TokenKind::Equal) {
            Some(_) => Some(self.expression()?),
            None => None,
        };
        self.semicolon()?;
        Ok(Stmt::Var { name: ident, value: initial_value })
    }

    /// Parses a statement that is no variable declaration.
    fn statement(&mut self) -> (r: Result<Stmt, Diagnostic<SyntaxError>>)
        ensures
            final(self).tokens() == old(self).tokens(),
            parsed_stmt(r, final(self).position()) == parse_statement(
                old(self).tokens(),
                old(self).position(),
            ),
            old(self).position() <= final(self).position() <= old(self).tokens().len(),
            r is Ok ==> old(self).position() < final(self).position(),
        decreases old(self).tokens().len() - old(self).position(), 0nat,
    {
        let ghost toks = self.tokens();
        let kind = match self.peek_kind() {
            Some(kind) => kind,
            None => {
                return Err(self.fail(SyntaxError::UnexpectedEOF));
            },
        };
        match kind {
            TokenKind::Print => {
                self.advance()?;
                let expr = self.expression()?;
                self.semicolon()?;
                Ok(Stmt::Print(expr))
            },
            TokenKind::LeftBrace => {
                self.advance()?;
                let ghost open = self.position();
                let mut stmts: Vec<Stmt> = Vec::new();
                assert(crate::ast::stmt_views(stmts@) =~= Seq::empty());
                let mut inside = self.inside_block();
                while inside
                    invariant
                        toks == old(self).tokens(),
                        open == old(self).position() + 1,
                        0 <= old(self).position() < toks.len(),
                        toks[old(self).position()].kind == TokenKind::LeftBrace,
                        self.tokens() == toks,
                        open <= self.position() <= toks.len(),
                        inside == (self.position() < toks.len() && toks[self.position()].kind
                            != TokenKind::RightBrace),
                        parse_block(toks, open, Seq::empty()) == parse_block(
                            toks,
                            self.position(),
                            crate::ast::stmt_views(stmts@),
                        ),
                    decreases toks.len() - self.position(),
                {
                    let ghost before = crate::ast::stmt_views(stmts@);
                    let stmt = self.item()?;
                    stmts.push(stmt);
                    assert(crate::ast::stmt_views(stmts@) =~= before.push(stmt@));
                    inside = self.inside_block();
                }
                match self.eat(TokenKind::RightBrace) {
                    Some(_) => {
                        let block = Stmt::Block(stmts);
                        assert(block@ == StmtView::Block(crate::ast::stmt_views(stmts@))) by {
                            assert(block@->Block_0 =~= crate::ast::stmt_views(stmts@));
                        }
                        Ok(block)
                    },
                    None => Err(self.missing('}')),
                }
            },
            _ => {
                let expr = self.expression()?;
                self.semicolon()?;
                Ok(Stmt::Expr(expr))
            },
        }
    }

    /// Whether a token stands next that does not close a block.
    fn inside_block(&self) -> (b: bool)
        ensures
            0 <= self.position() <= self.tokens().len(),
            b == (self.position() < self.tokens().len() && self.tokens()[self.position()].kind
                != TokenKind::RightBrace),
    {
        match self.peek_kind() {
            Some(kind) => kind != TokenKind::RightBrace,
            None => false,
        }
    }

    /// Discards tokens after an error, so that one error does not bring
    /// others after it: the next token goes. If it was a semicolon, that is
    /// all; otherwise tokens go until one stands next that can start a
    /// statement, or none is left.
    pub fn recover(&mut self)
        ensures
            final(self).tokens() == old(self).tokens(),
            final(self).position() == recover_from(old(self).tokens(), old(self).position()),
            old(self).position() <= final(self).position() <= old(self).tokens().len(),
            old(self).position() < old(self).tokens().len() ==> old(self).position() < final(self).position(),
    {
        let ghost toks = self.tokens();
        let ghost start = self.position();
        match self.step() {
            None => {},
            Some(tok) => {
                if tok.kind != TokenKind::Semicolon {
                    let mut skip = self.skips();
                    while skip
                        invariant
                            toks == old(self).tokens(),
                            start == old(self).position(),
                            self.tokens() == toks,
                            start + 1 <= self.position() <= toks.len(),
                            skip == (self.position() < toks.len() && !starts_statement(
                                toks[self.position()].kind,
                            )),
                            skip_to_statement(toks, start + 1) == skip_to_statement(
                                toks,
                                self.position(),
                            ),
                        decreases toks.len() - self.position(),
                    {
                        self.step();
                        skip = self.skips();
                    }
                }
            },
        }
    }

    /// Whether a token stands next that starts no statement.
    fn skips(&self) -> (b: bool)
        ensures
            0 <= self.position() <= self.tokens().len(),
            b == (self.position() < self.tokens().len() && !starts_statement(
                self.tokens()[self.position()].kind,
            )),
    {
        match self.peek_kind() {
            Some(kind) => match kind {
                TokenKind::Class
                | TokenKind::Fun
                | TokenKind::Var
                | TokenKind::For
                | TokenKind::If
                | TokenKind::While
                | TokenKind::Print
                | TokenKind::Return => false,
                _ => true,
            },
            None => false,
        }
    }
}

} // verus!
