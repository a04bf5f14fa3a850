//! The token vocabulary.

use crate::error::{Span, SpanView};
use vstd::prelude::*;

pub mod types;
pub mod value;

pub use self::types::Type;
pub use self::value::{
    clone_opt_value, lines_of, opt_value_view, value_texts, value_views, Value, ValueView,
};

verus! {

/// The lexical category of a token.
#[derive(Debug, Clone, Copy, PartialEq, Eq, Hash, Structural)]
pub enum TokenKind {
    // Single-character tokens.
    LeftParen,
    RightParen,
    LeftBrace,
    RightBrace,
    Comma,
    Dot,
    Minus,
    Plus,
    Semicolon,
    Slash,
    Star,
    // One or two character tokens.
    Bang,
    BangEqual,
    Equal,
    EqualEqual,
    Greater,
    GreaterEqual,
    Less,
    LessEqual,
    // Literals.
    Identifier,
    String,
    Number,
    // Keywords.
    And,
    Class,
    Else,
    False,
    Fun,
    For,
    If,
    Nil,
    Or,
    Print,
    Return,
    Super,
    This,
    True,
    Var,
    While,
}

/// A token: its kind, the value it carries if it is a literal, and where
/// it stands.
///
/// Two tokens are equal when their kinds and their texts are: where they
/// stand does not count.
#[derive(Debug, Eq)]
pub struct Token {
    pub kind: TokenKind,
    pub literal: Option<Value>,
    pub span: Span,
}

/// The mathematical value of a [`Token`].
pub struct TokenView {
    pub kind: TokenKind,
    pub literal: Option<ValueView>,
    pub span: SpanView,
}

impl TokenView {
    /// What identifies a token as a name: its kind and its text.
    pub open spec fn key(self) -> (TokenKind, Seq<char>) {
        (self.kind, self.span.lex)
    }
}

impl View for Token {
    type V = TokenView;

    open spec fn view(&self) -> TokenView {
        TokenView { kind: self.kind, literal: opt_value_view(self.literal), span: self.span@ }
    }
}

/// The views of a sequence of tokens.
pub open spec fn token_views(tokens: Seq<Token>) -> Seq<TokenView> {
    tokens.map_values(|t: Token| t@)
}

impl Token {
    pub fn new(kind: TokenKind, literal: Option<Value>, span: Span) -> (t: Self)
        ensures
            t.kind == kind,
            t.literal == literal,
            t.span == span,
    {
        Self { kind, literal, span }
    }

    /// The text the token was built from.
    pub fn lex(&self) -> (s: String)
        ensures
            s@ == self@.span.lex,
    {
        self.span.lex.clone()
    }
}

impl Clone for Token {
    fn clone(&self) -> (r: Self)
        ensures
            r == *self,
    {
        Token { kind: self.kind, literal: clone_opt_value(&self.literal), span: self.span.clone() }
    }
}

impl vstd::std_specs::cmp::PartialEqSpecImpl for Token {
    open spec fn obeys_eq_spec() -> bool {
        true
    }

    open spec fn eq_spec(&self, other: &Token) -> bool {
        self@.key() == other@.key()
    }
}

impl PartialEq for Token {
    fn eq(&self, other: &Token) -> (r: bool) {
        self.kind == other.kind && self.span.lex == other.span.lex
    }
}

impl std::hash::Hash for Token {
    /// Feeds the hasher what equality compares, the kind and the text,
    /// each through std's `Hash::hash`. Nothing is claimed of what the
    /// hasher makes of them.
    #[verifier::external_body]
    fn hash<H: std::hash::Hasher>(&self, state: &mut H) {
        self.kind.hash(state);
        self.span.lex.hash(state);
    }
}

} // verus!
