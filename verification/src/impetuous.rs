//! What a cursor with one item of lookahead offers.

use crate::error::{Diagnostic, SyntaxError, SyntaxErrorView};
use crate::parser::{error_at, Parser};
use crate::token::{Token, TokenKind};
use vstd::prelude::*;

verus! {

/// A cursor over items that can look at the next item without consuming
/// it, and remembers the item it consumed last.
pub trait Impetuous {
    /// What the cursor goes over.
    type Item;

    /// What an item is told apart by.
    type Scrutinee;

    /// Consumes the next item and hands it out; `None` at the end.
    fn step(&mut self) -> Option<Self::Item>;

    /// The item consumed last.
    fn prev(&self) -> Option<&Self::Item>;

    /// Consumes the next item; an error at the end.
    fn advance(&mut self) -> Result<Self::Item, Diagnostic<SyntaxError>>;

    /// The next item, not consumed; an error at the end.
    fn peer(&mut self) -> Result<Self::Item, Diagnostic<SyntaxError>>;

    /// Consumes the next item if it is what is expected.
    fn eat(&mut self, expected: Self::Scrutinee) -> Option<Token>;

    /// Whether the next item is what is expected; an error at the end.
    fn taste(&mut self, expected: Self::Scrutinee) -> Result<bool, Diagnostic<SyntaxError>>;
}

impl Impetuous for Parser {
    type Item = Token;

    type Scrutinee = TokenKind;

    fn step(&mut self) -> (t: Option<Token>)
        ensures
            final(self).tokens() == old(self).tokens(),
            match t {
                Some(tok) => old(self).position() < old(self).tokens().len() && tok@ == old(self).tokens()[old(self).position()] && final(self).position() == old(self).position()
                    + 1,
                None => old(self).position() >= old(self).tokens().len() && final(self).position()
                    == old(self).position(),
            },
    {
        Parser::step(self)
    }

    fn prev(&self) -> (t: Option<&Token>)
        ensures
            match t {
                Some(tok) => self.position() > 0 && tok@ == self.tokens()[self.position() - 1],
                None => self.position() == 0,
            },
    {
        Parser::prev(self)
    }

    fn advance(&mut self) -> (r: Result<Token, Diagnostic<SyntaxError>>)
        ensures
            final(self).tokens() == old(self).tokens(),
            match r {
                Ok(tok) => old(self).position() < old(self).tokens().len() && tok@ == old(self).tokens()[old(self).position()] && final(self).position() == old(self).position()
                    + 1,
                Err(d) => old(self).position() >= old(self).tokens().len() && final(self).position()
                    == old(self).position() && d@ == error_at(
                    SyntaxErrorView::UnexpectedEOF,
                    old(self).tokens(),
                    old(self).position(),
                ),
            },
    {
        Parser::advance(self)
    }

    fn peer(&mut self) -> (r: Result<Token, Diagnostic<SyntaxError>>)
        ensures
            final(self).tokens() == old(self).tokens(),
            final(self).position() == old(self).position(),
            match r {
                Ok(tok) => old(self).position() < old(self).tokens().len() && tok@ == old(self).tokens()[old(self).position()],
                Err(d) => old(self).position() >= old(self).tokens().len() && d@ == error_at(
                    SyntaxErrorView::UnexpectedEOF,
                    old(self).tokens(),
                    old(self).position(),
                ),
            },
    {
        Parser::peer(self)
    }

    fn eat(&mut self, expected: TokenKind) -> (t: Option<Token>)
        ensures
            final(self).tokens() == old(self).tokens(),
            match t {
                Some(tok) => old(self).position() < old(self).tokens().len() && tok@ == old(self).tokens()[old(self).position()] && tok.kind == expected && final(self).position()
                    == old(self).position() + 1,
                None => final(self).position() == old(self).position() && !(old(self).position()
                    < old(self).tokens().len() && old(self).tokens()[old(self).position()].kind
                    == expected),
            },
    {
        Parser::eat(self, expected)
    }

    fn taste(&mut self, expected: TokenKind) -> (r: Result<bool, Diagnostic<SyntaxError>>)
        ensures
            final(self).tokens() == old(self).tokens(),
            final(self).position() == old(self).position(),
            match r {
                Ok(b) => old(self).position() < old(self).tokens().len() && b == (old(self).tokens()[old(self).position()].kind == expected),
                Err(d) => old(self).position() >= old(self).tokens().len() && d@ == error_at(
                    SyntaxErrorView::UnexpectedEOF,
                    old(self).tokens(),
                    old(self).position(),
                ),
            },
    {
        Parser::taste(self, expected)
    }
}

} // verus!
