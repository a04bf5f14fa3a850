//! The lexer: from source text to tokens.

use crate::error::{
    clone_opt_text, diagnostic_views, opt_text_view, Column, Diagnostic, DiagnosticView, Line, Span,
    SpanView, SyntaxError, SyntaxErrorView,
};
use crate::text::{chars_of, decimal, text_of};
use crate::token::{token_views, Token, TokenKind, TokenView, Value, ValueView};
use vstd::prelude::*;

pub mod laws;

verus! {

/// The mathematical value of a diagnostic of the lexer.
pub type LexDiagnosticView = DiagnosticView<SyntaxErrorView>;

/// `c` is a decimal digit.
pub open spec fn is_digit(c: char) -> bool {
    '0' <= c <= '9'
}

/// `c` is a letter a name can start with.
pub open spec fn is_letter(c: char) -> bool {
    ('a' <= c <= 'z') || ('A' <= c <= 'Z')
}

/// `c` can stand inside a name.
pub open spec fn is_alphanumeric(c: char) -> bool {
    is_letter(c) || is_digit(c)
}

/// `c` separates tokens and is no token itself.
pub open spec fn is_blank(c: char) -> bool {
    c == ' ' || c == '\r' || c == '\t' || c == '\n'
}

/// Where the run of digits from `i` on ends.
pub open spec fn digits_end(src: Seq<char>, i: int) -> int
    decreases src.len() - i,
{
    if 0 <= i < src.len() && is_digit(src[i]) {
        digits_end(src, i + 1)
    } else {
        i
    }
}

/// Where the run of letters and digits from `i` on ends.
pub open spec fn word_end(src: Seq<char>, i: int) -> int
    decreases src.len() - i,
{
    if 0 <= i < src.len() && is_alphanumeric(src[i]) {
        word_end(src, i + 1)
    } else {
        i
    }
}

/// The place of the first double quote from `i` on; the end where there
/// is none.
pub open spec fn quote_at(src: Seq<char>, i: int) -> int
    decreases src.len() - i,
{
    if 0 <= i < src.len() && src[i] != '"' {
        quote_at(src, i + 1)
    } else {
        i
    }
}

/// The place behind the first line end from `i` on; the end where there
/// is none.
pub open spec fn line_end(src: Seq<char>, i: int) -> int
    decreases src.len() - i,
{
    if 0 <= i < src.len() {
        if src[i] == '\n' {
            i + 1
        } else {
            line_end(src, i + 1)
        }
    } else {
        i
    }
}

/// The number of the line that the place `i` is on, counted from one.
pub open spec fn line_of(src: Seq<char>, i: int) -> int
    decreases i,
{
    if i <= 0 || i > src.len() {
        1
    } else if src[i - 1] == '\n' {
        line_of(src, i - 1) + 1
    } else {
        line_of(src, i - 1)
    }
}

/// Where the line that the place `i` is on starts.
pub open spec fn line_start(src: Seq<char>, i: int) -> int
    decreases i,
{
    if i <= 0 || i > src.len() {
        0
    } else if src[i - 1] == '\n' {
        i
    } else {
        line_start(src, i - 1)
    }
}

/// `n` as a line or column number: the largest one where `n` is beyond it.
pub open spec fn clamp(n: int) -> u32 {
    if n < 0 {
        0
    } else if n > u32::MAX {
        u32::MAX
    } else {
        n as u32
    }
}

/// The span of the text `src[from..to]`: the line and the column of its
/// first character, both counted from one.
pub open spec fn span_of(src: Seq<char>, file: Option<Seq<char>>, from: int, to: int) -> SpanView {
    SpanView {
        line: clamp(line_of(src, from)),
        column: clamp(from - line_start(src, from) + 1),
        file,
        lex: src.subrange(from, to),
    }
}

/// The kind of the reserved word `word`; `None` for any other text.
pub open spec fn keyword(word: Seq<char>) -> Option<TokenKind> {
    if word == "and"@ {
        Some(TokenKind::And)
    } else if word == "class"@ {
        Some(TokenKind::Class)
    } else if word == "else"@ {
        Some(TokenKind::Else)
    } else if word == "false"@ {
        Some(TokenKind::False)
    } else if word == "fun"@ {
        Some(TokenKind::Fun)
    } else if word == "for"@ {
        Some(TokenKind::For)
    } else if word == "if"@ {
        Some(TokenKind::If)
    } else if word == "nil"@ {
        Some(TokenKind::Nil)
    } else if word == "or"@ {
        Some(TokenKind::Or)
    } else if word == "print"@ {
        Some(TokenKind::Print)
    } else if word == "return"@ {
        Some(TokenKind::Return)
    } else if word == "super"@ {
        Some(TokenKind::Super)
    } else if word == "this"@ {
        Some(TokenKind::This)
    } else if word == "true"@ {
        Some(TokenKind::True)
    } else if word == "var"@ {
        Some(TokenKind::Var)
    } else if word == "while"@ {
        Some(TokenKind::While)
    } else {
        None
    }
}

/// What reading one piece of the source gives.
pub struct Scanned {
    /// Where the next piece starts.
    pub next: int,
    /// The token read, if the piece is one.
    pub token: Option<TokenView>,
    /// The error met, if one was.
    pub error: Option<LexDiagnosticView>,
    /// The piece is an integer literal too large for an integer.
    pub fatal: bool,
}

impl Scanned {
    /// A piece that is no token and no error: it ends before `next`.
    pub open spec fn skipped(next: int) -> Scanned {
        Scanned { next, token: None, error: None, fatal: false }
    }

    /// The token of the kind `kind` that carries `literal` and is written
    /// `src[from..to]`.
    pub open spec fn token(
        src: Seq<char>,
        file: Option<Seq<char>>,
        from: int,
        to: int,
        kind: TokenKind,
        literal: Option<ValueView>,
    ) -> Scanned {
        Scanned {
            next: to,
            token: Some(TokenView { kind, literal, span: span_of(src, file, from, to) }),
            error: None,
            fatal: false,
        }
    }
}

/// The operator at `i` that a following `second` makes a longer one of:
/// `long` with it, `short` without.
pub open spec fn scan_pair(
    src: Seq<char>,
    file: Option<Seq<char>>,
    i: int,
    second: char,
    long: TokenKind,
    short: TokenKind,
) -> Scanned {
    if i + 1 < src.len() && src[i + 1] == second {
        Scanned::token(src, file, i, i + 2, long, None)
    } else {
        Scanned::token(src, file, i, i + 1, short, None)
    }
}

/// The slash at `i`: with a second one behind it, a comment that runs
/// through the end of the line; alone, a token.
pub open spec fn scan_slash(src: Seq<char>, file: Option<Seq<char>>, i: int) -> Scanned {
    if i + 1 < src.len() && src[i + 1] == '/' {
        Scanned::skipped(line_end(src, i + 1))
    } else {
        Scanned::token(src, file, i, i + 1, TokenKind::Slash, None)
    }
}

/// The string literal whose opening quote stands at `i`. It runs to the
/// next quote. Where there is none it runs to the end: that is an error,
/// and the token is made all the same, of what was read.
pub open spec fn scan_string(src: Seq<char>, file: Option<Seq<char>>, i: int) -> Scanned {
    let close = quote_at(src, i + 1);
    let content = Some(ValueView::String(src.subrange(i + 1, close)));
    if close < src.len() {
        Scanned::token(src, file, i, close + 1, TokenKind::String, content)
    } else {
        Scanned {
            error: Some(
                DiagnosticView {
                    kind: SyntaxErrorView::ExpectedCharacter { found: "EOF"@, expected: '"' },
                    span: span_of(src, file, i, close),
                },
            ),
            ..Scanned::token(src, file, i, close, TokenKind::String, content)
        }
    }
}

/// The number literal that starts at `i`: digits, and behind them at most
/// one point with the digits that follow it. With a point it is a float,
/// without one an integer.
pub open spec fn scan_number(src: Seq<char>, file: Option<Seq<char>>, i: int) -> Scanned {
    let whole = digits_end(src, i);
    if whole < src.len() && src[whole] == '.' {
        let end = digits_end(src, whole + 1);
        Scanned::token(
            src,
            file,
            i,
            end,
            TokenKind::Number,
            Some(ValueView::Float(src.subrange(i, end))),
        )
    } else {
        let n = decimal(src.subrange(i, whole));
        if n <= i128::MAX {
            Scanned::token(
                src,
                file,
                i,
                whole,
                TokenKind::Number,
                Some(ValueView::Integer(n as int)),
            )
        } else {
            Scanned { next: whole, token: None, error: None, fatal: true }
        }
    }
}

/// The word that starts at `i`: a reserved word or a name. `true` and
/// `false` carry their value.
pub open spec fn scan_word(src: Seq<char>, file: Option<Seq<char>>, i: int) -> Scanned {
    let end = word_end(src, i);
    let word = src.subrange(i, end);
    match keyword(word) {
        Some(kind) => Scanned::token(
            src,
            file,
            i,
            end,
            kind,
            if kind == TokenKind::True {
                Some(ValueView::Boolean(true))
            } else if kind == TokenKind::False {
                Some(ValueView::Boolean(false))
            } else {
                None
            },
        ),
        None => Scanned::token(src, file, i, end, TokenKind::Identifier, None),
    }
}

/// The kind of the token that the character `c` is by itself.
pub open spec fn punctuation(c: char) -> Option<TokenKind> {
    if c == '(' {
        Some(TokenKind::LeftParen)
    } else if c == ')' {
        Some(TokenKind::RightParen)
    } else if c == '{' {
        Some(TokenKind::LeftBrace)
    } else if c == '}' {
        Some(TokenKind::RightBrace)
    } else if c == ',' {
        Some(TokenKind::Comma)
    } else if c == '.' {
        Some(TokenKind::Dot)
    } else if c == '-' {
        Some(TokenKind::Minus)
    } else if c == '+' {
        Some(TokenKind::Plus)
    } else if c == ';' {
        Some(TokenKind::Semicolon)
    } else if c == '*' {
        Some(TokenKind::Star)
    } else {
        None
    }
}

/// The piece of the source that starts at `i`.
pub open spec fn scan(src: Seq<char>, file: Option<Seq<char>>, i: int) -> Scanned
    recommends
        0 <= i < src.len(),
{
    let c = src[i];
    if punctuation(c) is Some {
        Scanned::token(src, file, i, i + 1, punctuation(c)->0, None)
    } else if c == '!' {
        scan_pair(src, file, i, '=', TokenKind::BangEqual, TokenKind::Bang)
    } else if c == '=' {
        scan_pair(src, file, i, '=', TokenKind::EqualEqual, TokenKind::Equal)
    } else if c == '<' {
        scan_pair(src, file, i, '=', TokenKind::LessEqual, TokenKind::Less)
    } else if c == '>' {
        scan_pair(src, file, i, '=', TokenKind::GreaterEqual, TokenKind::Greater)
    } else if c == '/' {
        scan_slash(src, file, i)
    } else if c == '"' {
        scan_string(src, file, i)
    } else if is_digit(c) {
        scan_number(src, file, i)
    } else if is_letter(c) {
        scan_word(src, file, i)
    } else if is_blank(c) {
        Scanned::skipped(i + 1)
    } else {
        Scanned {
            next: i + 1,
            token: None,
            error: Some(
                DiagnosticView {
                    kind: SyntaxErrorView::UnexpectedCharacter(c),
                    span: span_of(src, file, i, i + 1),
                },
            ),
            fatal: false,
        }
    }
}

/// The tokens and the errors that lexing gives.
pub struct Lexed {
    pub tokens: Seq<TokenView>,
    pub errors: Seq<LexDiagnosticView>,
    /// An integer literal was too large for an integer.
    pub fatal: bool,
}

impl Lexed {
    /// Nothing read yet.
    pub open spec fn empty() -> Lexed {
        Lexed { tokens: Seq::empty(), errors: Seq::empty(), fatal: false }
    }

    /// What was read, and one piece more.
    pub open spec fn with(self, s: Scanned) -> Lexed {
        Lexed {
            tokens: match s.token {
                Some(t) => self.tokens.push(t),
                None => self.tokens,
            },
            errors: match s.error {
                Some(e) => self.errors.push(e),
                None => self.errors,
            },
            fatal: self.fatal || s.fatal,
        }
    }

    /// What the lexer hands back: the tokens where no error was met,
    /// otherwise every error, in order.
    pub open spec fn result(self) -> Result<Seq<TokenView>, Seq<LexDiagnosticView>> {
        if self.errors.len() == 0 {
            Ok(self.tokens)
        } else {
            Err(self.errors)
        }
    }
}

/// What lexing the source from `i` on adds to `acc`: piece after piece to
/// the end, whatever errors are met on the way.
pub open spec fn lex_from(src: Seq<char>, file: Option<Seq<char>>, i: int, acc: Lexed) -> Lexed
    decreases src.len() - i,
{
    if !(0 <= i < src.len()) {
        acc
    } else {
        let s = scan(src, file, i);
        if i < s.next <= src.len() {
            lex_from(src, file, s.next, acc.with(s))
        } else {
            acc.with(s)
        }
    }
}

/// What lexing a whole source gives.
pub open spec fn lex_source(src: Seq<char>, file: Option<Seq<char>>) -> Lexed {
    lex_from(src, file, 0, Lexed::empty())
}

/// A line counts at least one.
proof fn lemma_line_of(src: Seq<char>, i: int)
    ensures
        1 <= line_of(src, i),
        0 <= line_start(src, i),
        0 <= i <= src.len() ==> line_start(src, i) <= i,
    decreases i,
{
    if 0 < i <= src.len() {
        lemma_line_of(src, i - 1);
    }
}

/// The digits of a number's start write no more than the whole number.
proof fn lemma_decimal_prefix(digits: Seq<char>, k: int)
    requires
        0 <= k <= digits.len(),
    ensures
        decimal(digits.take(k)) <= decimal(digits),
    decreases digits.len(),
{
    if k < digits.len() {
        lemma_decimal_prefix(digits.drop_last(), k);
        assert(digits.drop_last().take(k) =~= digits.take(k));
    } else {
        assert(digits.take(k) =~= digits);
    }
}

/// `c` is a decimal digit.
fn digit(c: char) -> (b: bool)
    ensures
        b == is_digit(c),
{
    '0' <= c && c <= '9'
}

/// `c` is a letter a name can start with.
fn letter(c: char) -> (b: bool)
    ensures
        b == is_letter(c),
{
    ('a' <= c && c <= 'z') || ('A' <= c && c <= 'Z')
}

/// The text `s` is the literal `lit`.
fn text_is(s: &String, lit: &str) -> (b: bool)
    ensures
        b == (s@ == lit@),
{
    let other = String::from_str(lit);
    *s == other
}

/// The kind of the reserved word `word`.
fn keyword_of(word: &String) -> (k: Option<TokenKind>)
    ensures
        k == keyword(word@),
{
    if text_is(word, "and") {
        Some(TokenKind::And)
    } else if text_is(word, "class") {
        Some(TokenKind::Class)
    } else if text_is(word, "else") {
        Some(TokenKind::Else)
    } else if text_is(word, "false") {
        Some(TokenKind::False)
    } else if text_is(word, "fun") {
        Some(TokenKind::Fun)
    } else if text_is(word, "for") {
        Some(TokenKind::For)
    } else if text_is(word, "if") {
        Some(TokenKind::If)
    } else if text_is(word, "nil") {
        Some(TokenKind::Nil)
    } else if text_is(word, "or") {
        Some(TokenKind::Or)
    } else if text_is(word, "print") {
        Some(TokenKind::Print)
    } else if text_is(word, "return") {
        Some(TokenKind::Return)
    } else if text_is(word, "super") {
        Some(TokenKind::Super)
    } else if text_is(word, "this") {
        Some(TokenKind::This)
    } else if text_is(word, "true") {
        Some(TokenKind::True)
    } else if text_is(word, "var") {
        Some(TokenKind::Var)
    } else if text_is(word, "while") {
        Some(TokenKind::While)
    } else {
        None
    }
}

/// The number that the digits `src[from..to]` write; `None` where it is
/// too large for an integer.
fn parse_int(src: &Vec<char>, from: usize, to: usize) -> (r: Option<i128>)
    requires
        from <= to <= src.len(),
        forall|k: int| from <= k < to ==> is_digit(#[trigger] src@[k]),
    ensures
        match r {
            Some(n) => n == decimal(src@.subrange(from as int, to as int)),
            None => decimal(src@.subrange(from as int, to as int)) > i128::MAX,
        },
{
    let ghost all = src@.subrange(from as int, to as int);
    let mut acc: i128 = 0;
    let mut i: usize = from;
    assert(src@.subrange(from as int, from as int) =~= Seq::<char>::empty());
    while i < to
        invariant
            from <= i <= to <= src.len(),
            all == src@.subrange(from as int, to as int),
            forall|k: int| from <= k < to ==> is_digit(#[trigger] src@[k]),
            0 <= acc,
            acc == decimal(src@.subrange(from as int, i as int)),
        decreases to - i,
    {
        let c = src[i];
        assert(is_digit(src@[i as int]));
        let d: i128 = (c as u32 - '0' as u32) as i128;
        let ghost next = src@.subrange(from as int, i + 1);
        proof {
            assert(next.drop_last() =~= src@.subrange(from as int, i as int));
            assert(next.last() == c);
            assert(decimal(next) == acc * 10 + d);
            lemma_decimal_prefix(all, i + 1 - from);
            assert(all.take(i + 1 - from) =~= next);
        }
        match acc.checked_mul(10) {
            None => {
                return None;
            },
            Some(m) => match m.checked_add(d) {
                None => {
                    return None;
                },
                Some(n) => {
                    acc = n;
                },
            },
        }
        i += 1;
    }
    Some(acc)
}

/// Where the lexer stands in the source.
#[derive(Debug, Clone, Copy)]
struct Place {
    /// The index of the next character.
    pos: usize,
    /// The number of the line that character is on, as far as it can be
    /// counted.
    line: u32,
    /// Where that line starts.
    line_start: usize,
}

/// The source and a place in it.
#[derive(Debug)]
struct Reader {
    /// The source, character by character.
    src: Vec<char>,
    place: Place,
}

impl Reader {
    #[verifier::type_invariant]
    spec fn inv(self) -> bool {
        &&& self.place.pos <= self.src.len()
        &&& self.place.line == clamp(line_of(self.src@, self.place.pos as int))
        &&& self.place.line_start == line_start(self.src@, self.place.pos as int)
    }

    /// The source.
    closed spec fn source(self) -> Seq<char> {
        self.src@
    }

    /// How many characters were read.
    closed spec fn offset(self) -> int {
        self.place.pos as int
    }

    /// A reader at the start of `src`.
    fn new(src: &str) -> (r: Self)
        ensures
            r.source() == src@,
            r.offset() == 0,
    {
        Self { src: chars_of(src), place: Place { pos: 0, line: 1, line_start: 0 } }
    }

    /// The next character, if there is one. Nothing is read.
    fn peek(&self) -> (c: Option<char>)
        ensures
            0 <= self.offset() <= self.source().len(),
            match c {
                Some(c) => self.offset() < self.source().len() && c == self.source()[self.offset()],
                None => self.offset() == self.source().len(),
            },
    {
        proof {
            use_type_invariant(self);
        }
        if self.place.pos < self.src.len() {
            Some(self.src[self.place.pos])
        } else {
            None
        }
    }

    /// Reads one character.
    fn bump(&mut self)
        requires
            old(self).offset() < old(self).source().len(),
        ensures
            final(self).source() == old(self).source(),
            final(self).offset() == old(self).offset() + 1,
    {
        proof {
            use_type_invariant(&*self);
            lemma_line_of(self.src@, self.place.pos as int);
        }
        let at = self.place.pos;
        let next = if self.src[at] == '\n' {
            Place {
                pos: at + 1,
                line: if self.place.line < u32::MAX {
                    self.place.line + 1
                } else {
                    u32::MAX
                },
                line_start: at + 1,
            }
        } else {
            Place { pos: at + 1, line: self.place.line, line_start: self.place.line_start }
        };
        self.place = next;
    }

    /// The line and the column of the next character.
    fn here(&self) -> (m: (u32, u32))
        ensures
            m == place_of(self.source(), self.offset()),
    {
        proof {
            use_type_invariant(self);
            lemma_line_of(self.src@, self.place.pos as int);
        }
        let width = self.place.pos - self.place.line_start;
        let column = if width >= u32::MAX as usize {
            u32::MAX
        } else {
            (width + 1) as u32
        };
        (self.place.line, column)
    }

    /// The text `source[from..offset]`.
    fn text_from(&self, from: usize) -> (s: String)
        requires
            from <= self.offset(),
        ensures
            s@ == self.source().subrange(from as int, self.offset()),
    {
        proof {
            use_type_invariant(self);
        }
        text_of(&self.src, from, self.place.pos)
    }

    /// How many characters were read.
    fn position(&self) -> (n: usize)
        ensures
            n == self.offset(),
            n <= self.source().len(),
    {
        proof {
            use_type_invariant(self);
        }
        self.place.pos
    }

    /// The number that the digits `source[from..offset]` write; `None`
    /// where it is too large for an integer.
    fn integer_from(&self, from: usize) -> (r: Option<i128>)
        requires
            from <= self.offset(),
            forall|k: int| from <= k < self.offset() ==> is_digit(#[trigger] self.source()[k]),
        ensures
            match r {
                Some(n) => n == decimal(self.source().subrange(from as int, self.offset())),
                None => decimal(self.source().subrange(from as int, self.offset())) > i128::MAX,
            },
    {
        proof {
            use_type_invariant(self);
        }
        parse_int(&self.src, from, self.place.pos)
    }
}

/// The line and the column of the place `i` in `src`, as a span holds
/// them.
pub open spec fn place_of(src: Seq<char>, i: int) -> (u32, u32) {
    (clamp(line_of(src, i)), clamp(i - line_start(src, i) + 1))
}

/// A cursor over source text that turns it into tokens.
///
/// Lexing does not stop at an error: the character is left out, the error
/// is kept, and lexing goes on.
#[derive(Debug)]
pub struct Cursor {
    reader: Reader,
    /// The tokens read so far.
    tokens: Vec<Token>,
    /// The file the source came from; `None` for interactive input.
    file: Option<String>,
    /// The errors met so far.
    errors: Vec<Diagnostic<SyntaxError>>,
    /// The line and the column of the piece being read.
    mark: (u32, u32),
    /// An integer literal was too large for an integer.
    fatal: bool,
}

/// The mathematical value of a [`Cursor`].
pub struct CursorView {
    pub source: Seq<char>,
    pub file: Option<Seq<char>>,
    /// How many characters were read.
    pub offset: int,
    /// What was made of them.
    pub lexed: Lexed,
}

impl CursorView {
    /// What lexing gives in the end, from here on.
    pub open spec fn rest(self) -> Lexed {
        lex_from(self.source, self.file, self.offset, self.lexed)
    }

    /// The cursor after the piece `s` was read.
    pub open spec fn after(self, s: Scanned) -> CursorView {
        CursorView { offset: s.next, lexed: self.lexed.with(s), ..self }
    }
}

impl View for Cursor {
    type V = CursorView;

    closed spec fn view(&self) -> CursorView {
        CursorView {
            source: self.reader.source(),
            file: opt_text_view(self.file),
            offset: self.reader.offset(),
            lexed: Lexed {
                tokens: token_views(self.tokens@),
                errors: diagnostic_views(self.errors@),
                fatal: self.fatal,
            },
        }
    }
}

/// The view of an optional file name.
pub open spec fn opt_str_view(file: Option<&str>) -> Option<Seq<char>> {
    match file {
        Some(f) => Some(f@),
        None => None,
    }
}

/// The view of what the lexer hands back.
pub open spec fn lexed_view(r: Result<Vec<Token>, Vec<Diagnostic<SyntaxError>>>) -> Result<
    Seq<TokenView>,
    Seq<LexDiagnosticView>,
> {
    match r {
        Ok(tokens) => Ok(token_views(tokens@)),
        Err(errors) => Err(diagnostic_views(errors@)),
    }
}

impl Cursor {
    /// The line and the column that the next token made will get.
    pub closed spec fn mark(self) -> (u32, u32) {
        self.mark
    }

    /// A piece has been started: its first character was read, and the
    /// mark is the place of that character.
    pub open spec fn started(self) -> bool {
        &&& 1 <= self@.offset <= self@.source.len()
        &&& self.mark() == place_of(self@.source, self@.offset - 1)
    }

    /// A cursor at the start of `src`, which came from `file`.
    pub fn new(src: &str, file: Option<&str>) -> (c: Self)
        ensures
            c@ == (CursorView {
                source: src@,
                file: opt_str_view(file),
                offset: 0,
                lexed: Lexed::empty(),
            }),
    {
        let file = match file {
            Some(f) => Some(String::from_str(f)),
            None => None,
        };
        let c = Self {
            reader: Reader::new(src),
            tokens: Vec::new(),
            file,
            errors: Vec::new(),
            mark: (1, 1),
            fatal: false,
        };
        assert(token_views(c.tokens@) =~= Seq::empty());
        assert(diagnostic_views(c.errors@) =~= Seq::empty());
        c
    }

    /// The next character, if there is one. Nothing is read.
    fn peek(&self) -> (c: Option<char>)
        ensures
            0 <= self@.offset <= self@.source.len(),
            match c {
                Some(c) => self@.offset < self@.source.len() && c == self@.source[self@.offset],
                None => self@.offset == self@.source.len(),
            },
    {
        self.reader.peek()
    }

    /// Reads one character.
    fn bump(&mut self)
        requires
            old(self)@.offset < old(self)@.source.len(),
        ensures
            final(self)@ == (CursorView { offset: old(self)@.offset + 1, ..old(self)@ }),
            final(self).mark() == old(self).mark(),
    {
        self.reader.bump();
    }

    /// Starts the next piece: marks the place, reads the piece's first
    /// character and hands it out. `None` at the end of the source.
    pub fn begin(&mut self) -> (c: Option<char>)
        ensures
            match c {
                Some(c) => {
                    &&& old(self)@.offset < old(self)@.source.len()
                    &&& c == old(self)@.source[old(self)@.offset]
                    &&& final(self)@ == (CursorView {
                        offset: old(self)@.offset + 1,
                        ..old(self)@
                    })
                    &&& final(self).started()
                },
                None => old(self)@.offset == old(self)@.source.len() && final(self)@ == old(self)@,
            },
    {
        match self.peek() {
            Some(c) => {
                self.mark = self.reader.here();
                self.bump();
                Some(c)
            },
            None => None,
        }
    }

    /// The span of the piece being read, which is written `lex`.
    fn span(&self, lex: String) -> (s: Span)
        ensures
            s@ == (SpanView {
                line: self.mark().0,
                column: self.mark().1,
                file: self@.file,
                lex: lex@,
            }),
    {
        Span {
            line: Line(self.mark.0),
            column: Column(self.mark.1),
            file: clone_opt_text(&self.file),
            lex,
        }
    }

    /// Adds a token of the kind `kind`, written `lex` and carrying `lit`,
    /// at the marked place.
    pub fn add_token(&mut self, kind: TokenKind, lex: String, lit: Option<Value>)
        ensures
            final(self).mark() == old(self).mark(),
            final(self)@ == (CursorView {
                lexed: Lexed {
                    tokens: old(self)@.lexed.tokens.push(
                        TokenView {
                            kind,
                            literal: crate::token::opt_value_view(lit),
                            span: SpanView {
                                line: old(self).mark().0,
                                column: old(self).mark().1,
                                file: old(self)@.file,
                                lex: lex@,
                            },
                        },
                    ),
                    ..old(self)@.lexed
                },
                ..old(self)@
            }),
    {
        let span = self.span(lex);
        let token = Token::new(kind, lit, span);
        self.tokens.push(token);
        assert(token_views(self.tokens@) =~= token_views(old(self).tokens@).push(token@));
    }

    /// Adds an error of the kind `kind`, about the text `lex`, at the
    /// marked place.
    fn add_error(&mut self, kind: SyntaxError, lex: String)
        ensures
            final(self).mark() == old(self).mark(),
            final(self)@ == (CursorView {
                lexed: Lexed {
                    errors: old(self)@.lexed.errors.push(
                        DiagnosticView {
                            kind: kind@,
                            span: SpanView {
                                line: old(self).mark().0,
                                column: old(self).mark().1,
                                file: old(self)@.file,
                                lex: lex@,
                            },
                        },
                    ),
                    ..old(self)@.lexed
                },
                ..old(self)@
            }),
    {
        let span = self.span(lex);
        let error = Diagnostic { kind, span };
        self.errors.push(error);
        assert(diagnostic_views(self.errors@) =~= diagnostic_views(old(self).errors@).push(
            error@,
        ));
    }

    /// The text `source[from..offset]`.
    fn text_from(&self, from: usize) -> (s: String)
        requires
            from <= self@.offset,
        ensures
            s@ == self@.source.subrange(from as int, self@.offset),
    {
        self.reader.text_from(from)
    }

    /// How many characters were read.
    fn offset(&self) -> (n: usize)
        ensures
            n == self@.offset,
            n <= self@.source.len(),
    {
        self.reader.position()
    }
}

/// The kind of the token that the character `c` is by itself.
fn punctuation_of(c: char) -> (k: Option<TokenKind>)
    ensures
        k == punctuation(c),
{
    if c == '(' {
        Some(TokenKind::LeftParen)
    } else if c == ')' {
        Some(TokenKind::RightParen)
    } else if c == '{' {
        Some(TokenKind::LeftBrace)
    } else if c == '}' {
        Some(TokenKind::RightBrace)
    } else if c == ',' {
        Some(TokenKind::Comma)
    } else if c == '.' {
        Some(TokenKind::Dot)
    } else if c == '-' {
        Some(TokenKind::Minus)
    } else if c == '+' {
        Some(TokenKind::Plus)
    } else if c == ';' {
        Some(TokenKind::Semicolon)
    } else if c == '*' {
        Some(TokenKind::Star)
    } else {
        None
    }
}

impl Cursor {
    /// Whether a character stands next that is not `stop`.
    fn before(&self, stop: char) -> (b: bool)
        ensures
            0 <= self@.offset <= self@.source.len(),
            b == (self@.offset < self@.source.len() && self@.source[self@.offset] != stop),
    {
        match self.peek() {
            Some(c) => c != stop,
            None => false,
        }
    }

    /// Whether the character `c` stands next.
    fn at(&self, c: char) -> (b: bool)
        ensures
            0 <= self@.offset <= self@.source.len(),
            b == (self@.offset < self@.source.len() && self@.source[self@.offset] == c),
    {
        match self.peek() {
            Some(x) => x == c,
            None => false,
        }
    }

    /// Whether a digit stands next.
    fn at_digit(&self) -> (b: bool)
        ensures
            0 <= self@.offset <= self@.source.len(),
            b == (self@.offset < self@.source.len() && is_digit(self@.source[self@.offset])),
    {
        match self.peek() {
            Some(c) => digit(c),
            None => false,
        }
    }

    /// Whether a letter or a digit stands next.
    fn at_alphanumeric(&self) -> (b: bool)
        ensures
            0 <= self@.offset <= self@.source.len(),
            b == (self@.offset < self@.source.len() && is_alphanumeric(
                self@.source[self@.offset],
            )),
    {
        match self.peek() {
            Some(c) => letter(c) || digit(c),
            None => false,
        }
    }

    /// Reads the digits that stand next.
    fn skip_digits(&mut self)
        ensures
            final(self)@ == (CursorView {
                offset: digits_end(old(self)@.source, old(self)@.offset),
                ..old(self)@
            }),
            final(self).mark() == old(self).mark(),
            old(self)@.offset <= final(self)@.offset <= old(self)@.source.len(),
            forall|k: int|
                old(self)@.offset <= k < final(self)@.offset ==> is_digit(
                    #[trigger] old(self)@.source[k],
                ),
    {
        let mut more = self.at_digit();
        while more
            invariant
                self@ == (CursorView { offset: self@.offset, ..old(self)@ }),
                self.mark() == old(self).mark(),
                old(self)@.offset <= self@.offset <= self@.source.len(),
                more == (self@.offset < self@.source.len() && is_digit(
                    self@.source[self@.offset],
                )),
                digits_end(self@.source, old(self)@.offset) == digits_end(
                    self@.source,
                    self@.offset,
                ),
                forall|k: int|
                    old(self)@.offset <= k < self@.offset ==> is_digit(
                        #[trigger] self@.source[k],
                    ),
            decreases self@.source.len() - self@.offset,
        {
            self.bump();
            more = self.at_digit();
        }
    }

    /// Reads the two-character operator `curr` `next` where `next` stands
    /// next, and the one-character operator `curr` otherwise: a token of
    /// the kind `success` in the first case, `failure` in the second.
    pub fn branching_char(
        &mut self,
        curr: char,
        next: char,
        success: TokenKind,
        failure: TokenKind,
    )
        requires
            old(self).started(),
            old(self)@.source[old(self)@.offset - 1] == curr,
        ensures
            final(self)@ == old(self)@.after(
                scan_pair(
                    old(self)@.source,
                    old(self)@.file,
                    old(self)@.offset - 1,
                    next,
                    success,
                    failure,
                ),
            ),
            old(self)@.offset <= final(self)@.offset <= old(self)@.source.len(),
    {
        let from = self.offset() - 1;
        if self.at(next) {
            self.bump();
            let lex = self.text_from(from);
            self.add_token(success, lex, None);
        } else {
            let lex = self.text_from(from);
            self.add_token(failure, lex, None);
        }
    }

    /// Reads a name or a reserved word whose first letter, `curr`, was
    /// read.
    pub fn handle_ident(&mut self, curr: char)
        requires
            old(self).started(),
            old(self)@.source[old(self)@.offset - 1] == curr,
            is_letter(curr),
        ensures
            final(self)@ == old(self)@.after(
                scan_word(old(self)@.source, old(self)@.file, old(self)@.offset - 1),
            ),
            old(self)@.offset <= final(self)@.offset <= old(self)@.source.len(),
    {
        let from = self.offset() - 1;
        let mut more = self.at_alphanumeric();
        while more
            invariant
                self@ == (CursorView { offset: self@.offset, ..old(self)@ }),
                self.mark() == old(self).mark(),
                old(self)@.offset <= self@.offset <= self@.source.len(),
                more == (self@.offset < self@.source.len() && is_alphanumeric(
                    self@.source[self@.offset],
                )),
                word_end(self@.source, old(self)@.offset) == word_end(self@.source, self@.offset),
            decreases self@.source.len() - self@.offset,
        {
            self.bump();
            more = self.at_alphanumeric();
        }
        let ident = self.text_from(from);
        match keyword_of(&ident) {
            Some(kind) => match kind {
                TokenKind::True => {
                    self.add_token(kind, ident, Some(Value::Boolean(true)));
                },
                TokenKind::False => {
                    self.add_token(kind, ident, Some(Value::Boolean(false)));
                },
                _ => {
                    self.add_token(kind, ident, None);
                },
            },
            None => {
                self.add_token(TokenKind::Identifier, ident, None);
            },
        }
    }

    /// Reads a number literal whose first digit, `curr`, was read.
    ///
    /// An integer literal too large for an integer makes no token: the
    /// cursor remembers it, and lexing cannot succeed any more.
    pub fn handle_number(&mut self, curr: char)
        requires
            old(self).started(),
            old(self)@.source[old(self)@.offset - 1] == curr,
            is_digit(curr),
        ensures
            final(self)@ == old(self)@.after(
                scan_number(old(self)@.source, old(self)@.file, old(self)@.offset - 1),
            ),
            old(self)@.offset <= final(self)@.offset <= old(self)@.source.len(),
    {
        let from = self.offset() - 1;
        self.skip_digits();
        if self.at('.') {
            self.bump();
            self.skip_digits();
            let lexeme = self.text_from(from);
            let literal = lexeme.clone();
            self.add_token(TokenKind::Number, lexeme, Some(Value::Float(literal)));
        } else {
            match self.reader.integer_from(from) {
                Some(n) => {
                    let lexeme = self.text_from(from);
                    self.add_token(TokenKind::Number, lexeme, Some(Value::Integer(n)));
                },
                None => {
                    self.fatal = true;
                },
            }
        }
    }

    /// Reads a string literal whose opening quote was read.
    pub fn handle_string(&mut self)
        requires
            old(self).started(),
            old(self)@.source[old(self)@.offset - 1] == '"',
        ensures
            final(self)@ == old(self)@.after(
                scan_string(old(self)@.source, old(self)@.file, old(self)@.offset - 1),
            ),
            old(self)@.offset <= final(self)@.offset <= old(self)@.source.len(),
    {
        let from = self.offset() - 1;
        let mut more = self.before('"');
        while more
            invariant
                self@ == (CursorView { offset: self@.offset, ..old(self)@ }),
                self.mark() == old(self).mark(),
                old(self)@.offset <= self@.offset <= self@.source.len(),
                more == (self@.offset < self@.source.len() && self@.source[self@.offset] != '"'),
                quote_at(self@.source, old(self)@.offset) == quote_at(self@.source, self@.offset),
            decreases self@.source.len() - self@.offset,
        {
            self.bump();
            more = self.before('"');
        }
        let lit = self.text_from(from + 1);
        if self.at('"') {
            self.bump();
            let lexeme = self.text_from(from);
            self.add_token(TokenKind::String, lexeme, Some(Value::String(lit)));
        } else {
            let lexeme = self.text_from(from);
            let partial = lexeme.clone();
            self.add_token(TokenKind::String, lexeme, Some(Value::String(lit)));
            self.add_error(
                SyntaxError::ExpectedCharacter { found: String::from_str("EOF"), expected: '"' },
                partial,
            );
        }
    }

    /// Reads what a slash, `curr`, starts: a comment through the end of
    /// the line where a second slash stands next, and the slash alone
    /// otherwise.
    pub fn handle_comment(&mut self, curr: char)
        requires
            old(self).started(),
            old(self)@.source[old(self)@.offset - 1] == curr,
            curr == '/',
        ensures
            final(self)@ == old(self)@.after(
                scan_slash(old(self)@.source, old(self)@.file, old(self)@.offset - 1),
            ),
            old(self)@.offset <= final(self)@.offset <= old(self)@.source.len(),
    {
        let from = self.offset() - 1;
        if self.at('/') {
            let mut more = self.before('\n');
            while more
                invariant
                    self@ == (CursorView { offset: self@.offset, ..old(self)@ }),
                    old(self)@.offset <= self@.offset <= self@.source.len(),
                    more == (self@.offset < self@.source.len() && self@.source[self@.offset]
                        != '\n'),
                    line_end(self@.source, old(self)@.offset) == line_end(
                        self@.source,
                        self@.offset,
                    ),
                decreases self@.source.len() - self@.offset,
            {
                self.bump();
                more = self.before('\n');
            }
            if self.at('\n') {
                self.bump();
            }
        } else {
            let lex = self.text_from(from);
            self.add_token(TokenKind::Slash, lex, None);
        }
    }

    /// Reads the piece whose first character, `c`, was read.
    fn piece(&mut self, c: char)
        requires
            old(self).started(),
            old(self)@.source[old(self)@.offset - 1] == c,
        ensures
            final(self)@ == old(self)@.after(
                scan(old(self)@.source, old(self)@.file, old(self)@.offset - 1),
            ),
            old(self)@.offset <= final(self)@.offset <= old(self)@.source.len(),
    {
        let from = self.offset() - 1;
        match punctuation_of(c) {
            Some(kind) => {
                let lex = self.text_from(from);
                self.add_token(kind, lex, None);
            },
            None => {
                if c == '!' {
                    self.branching_char(c, '=', TokenKind::BangEqual, TokenKind::Bang);
                } else if c == '=' {
                    self.branching_char(c, '=', TokenKind::EqualEqual, TokenKind::Equal);
                } else if c == '<' {
                    self.branching_char(c, '=', TokenKind::LessEqual, TokenKind::Less);
                } else if c == '>' {
                    self.branching_char(c, '=', TokenKind::GreaterEqual, TokenKind::Greater);
                } else if c == '/' {
                    self.handle_comment(c);
                } else if c == '"' {
                    self.handle_string();
                } else if digit(c) {
                    self.handle_number(c);
                } else if letter(c) {
                    self.handle_ident(c);
                } else if c == ' ' || c == '\r' || c == '\t' || c == '\n' {
                } else {
                    let lex = self.text_from(from);
                    self.add_error(SyntaxError::UnexpectedCharacter(c), lex);
                }
            },
        }
    }

    /// Reads the source to its end.
    fn run(&mut self)
        ensures
            final(self)@ == (CursorView {
                offset: old(self)@.source.len() as int,
                lexed: old(self)@.rest(),
                ..old(self)@
            }),
    {
        let ghost goal = self@.rest();
        let ghost start = self@;
        let mut next = self.begin();
        while next.is_some()
            invariant
                start == old(self)@,
                goal == start.rest(),
                self@.source == start.source,
                self@.file == start.file,
                0 <= self@.offset <= self@.source.len(),
                match next {
                    Some(c) => self.started() && self@.source[self@.offset - 1] == c && goal
                        == lex_from(self@.source, self@.file, self@.offset - 1, self@.lexed),
                    None => self@.offset == self@.source.len() && goal == self@.lexed,
                },
            decreases
                    self@.source.len() - self@.offset + if next is Some {
                        1int
                    } else {
                        0int
                    },
        {
            let c = next.unwrap();
            let ghost before = self@;
            self.piece(c);
            proof {
                let s = scan(before.source, before.file, before.offset - 1);
                assert(self@ == before.after(s));
                assert(before.offset - 1 < s.next <= before.source.len());
                assert(goal == lex_from(before.source, before.file, s.next, before.lexed.with(s)));
                assert(goal == lex_from(self@.source, self@.file, self@.offset, self@.lexed));
            }
            next = self.begin();
        }
    }

    /// Lexes the source from where the cursor stands to the end, unless
    /// an integer literal in it is too large for an integer: then `None`.
    ///
    /// Otherwise the tokens come back where no error was met, and every
    /// error met, in order, where one was: an error does not end the
    /// lexing.
    pub fn lex_checked(self) -> (r: Option<Result<Vec<Token>, Vec<Diagnostic<SyntaxError>>>>)
        ensures
            match r {
                Some(r) => !self@.rest().fatal && lexed_view(r) == self@.rest().result(),
                None => self@.rest().fatal,
            },
    {
        let mut cursor = self;
        cursor.run();
        let Cursor { reader, tokens, file, errors, mark, fatal } = cursor;
        if fatal {
            None
        } else if errors.len() == 0 {
            Some(Ok(tokens))
        } else {
            Some(Err(errors))
        }
    }

    /// Lexes the source from where the cursor stands to the end and hands
    /// back both the tokens and the errors, for a caller that wants to go
    /// on with the tokens of a source that has errors. `None` where an
    /// integer literal is too large for an integer.
    pub fn lex_all(self) -> (r: Option<(Vec<Token>, Vec<Diagnostic<SyntaxError>>)>)
        ensures
            match r {
                Some((tokens, errors)) => !self@.rest().fatal && token_views(tokens@)
                    == self@.rest().tokens && diagnostic_views(errors@) == self@.rest().errors,
                None => self@.rest().fatal,
            },
    {
        let mut cursor = self;
        cursor.run();
        let Cursor { reader, tokens, file, errors, mark, fatal } = cursor;
        if fatal {
            None
        } else {
            Some((tokens, errors))
        }
    }

    /// Lexes the source from where the cursor stands to the end.
    ///
    /// The tokens come back where no error was met, and every error met,
    /// in order, where one was: an error does not end the lexing.
    pub fn lex(self) -> (r: Result<Vec<Token>, Vec<Diagnostic<SyntaxError>>>)
        requires
            !self@.rest().fatal,
        ensures
            lexed_view(r) == self@.rest().result(),
    {
        match self.lex_checked() {
            Some(r) => r,
            None => Ok(Vec::new()),
        }
    }
}

} // verus!
