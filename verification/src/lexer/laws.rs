//! The tokens of a source are pieces of its text: put back where they
//! stood, with the blanks and the comments between them, they give the
//! source again.

use super::{
    digits_end, is_blank, lex_from, lex_source, line_end, quote_at, scan, word_end, Lexed,
};
use crate::token::{TokenKind, TokenView, ValueView};
use vstd::prelude::*;

verus! {

/// Where the tokens start that lexing from `i` on adds to those that
/// start at `acc`.
pub open spec fn starts_from(src: Seq<char>, file: Option<Seq<char>>, i: int, acc: Seq<int>) -> Seq<
    int,
>
    decreases src.len() - i,
{
    if !(0 <= i < src.len()) {
        acc
    } else {
        let s = scan(src, file, i);
        let starts = if s.token is Some {
            acc.push(i)
        } else {
            acc
        };
        if i < s.next <= src.len() {
            starts_from(src, file, s.next, starts)
        } else {
            starts
        }
    }
}

/// Where each token of a source starts in it.
pub open spec fn token_starts(src: Seq<char>, file: Option<Seq<char>>) -> Seq<int> {
    starts_from(src, file, 0, Seq::empty())
}

/// Two slashes stand at `j`: what a comment starts with.
pub open spec fn starts_comment(src: Seq<char>, j: int) -> bool {
    0 <= j && j + 1 < src.len() && src[j] == '/' && src[j + 1] == '/'
}

/// The place `p` is behind two slashes on its line, or is the line end
/// behind them.
pub open spec fn in_comment(src: Seq<char>, p: int) -> bool {
    exists|j: int| #[trigger] starts_comment(src, j) && j <= p < line_end(src, j + 1)
}

/// The place `p` is inside one of the tokens.
pub open spec fn covered(tokens: Seq<TokenView>, starts: Seq<int>, p: int) -> bool {
    exists|k: int|
        0 <= k < tokens.len() && #[trigger] starts[k] <= p < starts[k] + tokens[k].span.lex.len()
}

/// The tokens are pieces of `src[..upto]`: each is written exactly as the
/// source is from where it starts, and they follow one another without
/// overlap.
pub open spec fn tiles(src: Seq<char>, tokens: Seq<TokenView>, starts: Seq<int>, upto: int) -> bool {
    &&& starts.len() == tokens.len()
    &&& forall|k: int|
        0 <= k < tokens.len() ==> 0 <= #[trigger] starts[k] && starts[k]
            + tokens[k].span.lex.len() <= upto && tokens[k].span.lex == src.subrange(
            starts[k],
            starts[k] + tokens[k].span.lex.len(),
        )
    &&& forall|a: int, b: int|
        0 <= a < b < tokens.len() ==> #[trigger] starts[a] + tokens[a].span.lex.len()
            <= #[trigger] starts[b]
}

/// Every character of `src[..upto]` outside the tokens is a blank or
/// belongs to a comment.
pub open spec fn gaps_are_blank(
    src: Seq<char>,
    tokens: Seq<TokenView>,
    starts: Seq<int>,
    upto: int,
) -> bool {
    forall|p: int|
        0 <= p < upto ==> covered(tokens, starts, p) || is_blank(#[trigger] src[p]) || in_comment(
            src,
            p,
        )
}

/// Lexing met no error.
pub open spec fn clean(l: Lexed) -> bool {
    l.errors.len() == 0 && !l.fatal
}

proof fn lemma_digits_end(src: Seq<char>, i: int)
    requires
        0 <= i <= src.len(),
    ensures
        i <= digits_end(src, i) <= src.len(),
    decreases src.len() - i,
{
    if i < src.len() && super::is_digit(src[i]) {
        lemma_digits_end(src, i + 1);
    }
}

proof fn lemma_word_end(src: Seq<char>, i: int)
    requires
        0 <= i <= src.len(),
    ensures
        i <= word_end(src, i) <= src.len(),
    decreases src.len() - i,
{
    if i < src.len() && super::is_alphanumeric(src[i]) {
        lemma_word_end(src, i + 1);
    }
}

proof fn lemma_quote_at(src: Seq<char>, i: int)
    requires
        0 <= i <= src.len(),
    ensures
        i <= quote_at(src, i) <= src.len(),
    decreases src.len() - i,
{
    if i < src.len() && src[i] != '"' {
        lemma_quote_at(src, i + 1);
    }
}

proof fn lemma_line_end(src: Seq<char>, i: int)
    requires
        0 <= i <= src.len(),
    ensures
        i <= line_end(src, i) <= src.len(),
        i < src.len() ==> i < line_end(src, i),
    decreases src.len() - i,
{
    if i < src.len() && src[i] != '\n' {
        lemma_line_end(src, i + 1);
    }
}

/// One piece: it is not empty and ends inside the source; a token is
/// written as the source is; what is passed over in silence is a blank or
/// a comment.
pub proof fn lemma_scan(src: Seq<char>, file: Option<Seq<char>>, i: int)
    requires
        0 <= i < src.len(),
    ensures
        i < scan(src, file, i).next <= src.len(),
        match scan(src, file, i).token {
            Some(t) => t.span.lex == src.subrange(i, scan(src, file, i).next),
            None => true,
        },
        scan(src, file, i).token is None && scan(src, file, i).error is None && !scan(
            src,
            file,
            i,
        ).fatal ==> forall|p: int|
            i <= p < scan(src, file, i).next ==> is_blank(#[trigger] src[p]) || in_comment(src, p),
{
    let c = src[i];
    let s = scan(src, file, i);
    lemma_digits_end(src, i);
    lemma_word_end(src, i);
    lemma_quote_at(src, i + 1);
    lemma_line_end(src, i + 1);
    if super::is_digit(c) {
        let whole = digits_end(src, i);
        assert(whole == digits_end(src, i + 1));
        lemma_digits_end(src, i + 1);
        if whole < src.len() {
            lemma_digits_end(src, whole + 1);
        }
    }
    if super::is_letter(c) {
        assert(word_end(src, i) == word_end(src, i + 1));
        lemma_word_end(src, i + 1);
    }
    if c == '/' && i + 1 < src.len() && src[i + 1] == '/' {
        assert forall|p: int| i <= p < s.next implies is_blank(#[trigger] src[p]) || in_comment(
            src,
            p,
        ) by {
            assert(starts_comment(src, i));
        }
    }
}

/// Lexing on from `i` keeps what holds of the tokens read before `i`.
proof fn lemma_tiling(src: Seq<char>, file: Option<Seq<char>>, i: int, acc: Lexed, starts: Seq<int>)
    requires
        0 <= i <= src.len(),
        tiles(src, acc.tokens, starts, i),
        clean(acc) ==> gaps_are_blank(src, acc.tokens, starts, i),
    ensures
        tiles(
            src,
            lex_from(src, file, i, acc).tokens,
            starts_from(src, file, i, starts),
            src.len() as int,
        ),
        lex_from(src, file, i, acc).errors.len() >= acc.errors.len(),
        acc.fatal ==> lex_from(src, file, i, acc).fatal,
        clean(lex_from(src, file, i, acc)) ==> gaps_are_blank(
            src,
            lex_from(src, file, i, acc).tokens,
            starts_from(src, file, i, starts),
            src.len() as int,
        ),
    decreases src.len() - i,
{
    if i < src.len() {
        let s = scan(src, file, i);
        lemma_scan(src, file, i);
        let acc2 = acc.with(s);
        let starts2 = if s.token is Some {
            starts.push(i)
        } else {
            starts
        };
        match s.token {
            Some(t) => {
                let n = acc.tokens.len() as int;
                assert(acc2.tokens[n] == t);
                assert(starts2[n] == i);
                assert(t.span.lex.len() == s.next - i);
                assert forall|k: int| 0 <= k < acc2.tokens.len() implies 0 <= #[trigger] starts2[k]
                    && starts2[k] + acc2.tokens[k].span.lex.len() <= s.next
                    && acc2.tokens[k].span.lex == src.subrange(
                    starts2[k],
                    starts2[k] + acc2.tokens[k].span.lex.len(),
                ) by {
                    if k < n {
                        assert(starts2[k] == starts[k]);
                        assert(acc2.tokens[k] == acc.tokens[k]);
                    }
                }
                assert forall|a: int, b: int| 0 <= a < b < acc2.tokens.len() implies #[trigger] starts2[a]
                    + acc2.tokens[a].span.lex.len() <= #[trigger] starts2[b] by {
                    assert(starts2[a] == starts[a]);
                    assert(acc2.tokens[a] == acc.tokens[a]);
                    if b < n {
                        assert(starts2[b] == starts[b]);
                    }
                }
                if clean(acc2) {
                    assert forall|p: int| 0 <= p < s.next implies covered(acc2.tokens, starts2, p)
                        || is_blank(#[trigger] src[p]) || in_comment(src, p) by {
                        if p < i {
                            if covered(acc.tokens, starts, p) {
                                let k = choose|k: int|
                                    0 <= k < acc.tokens.len() && #[trigger] starts[k] <= p
                                        < starts[k] + acc.tokens[k].span.lex.len();
                                assert(starts2[k] == starts[k]);
                                assert(acc2.tokens[k] == acc.tokens[k]);
                            }
                        } else {
                            assert(starts2[n] <= p < starts2[n] + acc2.tokens[n].span.lex.len());
                        }
                    }
                }
            },
            None => {
                assert(acc2.tokens == acc.tokens);
                if clean(acc2) {
                    assert(s.error is None);
                    assert forall|p: int| 0 <= p < s.next implies covered(acc2.tokens, starts2, p)
                        || is_blank(#[trigger] src[p]) || in_comment(src, p) by {}
                }
            },
        }
        lemma_tiling(src, file, s.next, acc2, starts2);
    }
}

/// Lexing is faithful to the source.
///
/// Each token is written exactly as the source is from the place where
/// the token starts, and the tokens follow one another in the source
/// without overlap. Where lexing met no error, every character of the
/// source outside the tokens is a blank or belongs to a comment: the
/// tokens put back at their places, with blanks between them, give the
/// source again but for its comments.
pub proof fn lemma_round_trip(src: Seq<char>, file: Option<Seq<char>>)
    ensures
        tiles(src, lex_source(src, file).tokens, token_starts(src, file), src.len() as int),
        clean(lex_source(src, file)) ==> gaps_are_blank(
            src,
            lex_source(src, file).tokens,
            token_starts(src, file),
            src.len() as int,
        ),
{
    lemma_tiling(src, file, 0, Lexed::empty(), Seq::empty());
}

/// Lexing on loses nothing: the tokens and the errors read so far stay,
/// in their order, and an integer literal that was too large stays so.
pub proof fn lemma_lexing_only_adds(src: Seq<char>, file: Option<Seq<char>>, i: int, acc: Lexed)
    requires
        0 <= i <= src.len(),
    ensures
        acc.tokens.is_prefix_of(lex_from(src, file, i, acc).tokens),
        acc.errors.is_prefix_of(lex_from(src, file, i, acc).errors),
        acc.fatal ==> lex_from(src, file, i, acc).fatal,
    decreases src.len() - i,
{
    if i < src.len() {
        let s = scan(src, file, i);
        lemma_scan(src, file, i);
        lemma_lexing_only_adds(src, file, s.next, acc.with(s));
    }
}

/// The token carries the value that a token of its kind has to carry: a
/// number its integer or the text of its float, a string its content,
/// `true` and `false` their value, and any other token none.
pub open spec fn carries_its_value(t: TokenView) -> bool {
    match t.kind {
        TokenKind::Number => match t.literal {
            Some(ValueView::Integer(n)) => 0 <= n <= i128::MAX,
            Some(ValueView::Float(text)) => text == t.span.lex,
            _ => false,
        },
        TokenKind::String => t.literal is Some && t.literal->0 is String,
        TokenKind::True => t.literal == Some(ValueView::Boolean(true)),
        TokenKind::False => t.literal == Some(ValueView::Boolean(false)),
        _ => t.literal is None,
    }
}

/// Every token of `tokens` carries the value of its kind.
pub open spec fn all_carry_values(tokens: Seq<TokenView>) -> bool {
    forall|k: int| 0 <= k < tokens.len() ==> carries_its_value(#[trigger] tokens[k])
}

/// The token of one piece carries the value of its kind.
pub proof fn lemma_scan_carries_value(src: Seq<char>, file: Option<Seq<char>>, i: int)
    requires
        0 <= i < src.len(),
    ensures
        match scan(src, file, i).token {
            Some(t) => carries_its_value(t),
            None => true,
        },
{
}

proof fn lemma_values(src: Seq<char>, file: Option<Seq<char>>, i: int, acc: Lexed)
    requires
        0 <= i <= src.len(),
        all_carry_values(acc.tokens),
    ensures
        all_carry_values(lex_from(src, file, i, acc).tokens),
    decreases src.len() - i,
{
    if i < src.len() {
        let s = scan(src, file, i);
        lemma_scan(src, file, i);
        lemma_scan_carries_value(src, file, i);
        lemma_values(src, file, s.next, acc.with(s));
    }
}

/// The lexer's tokens carry their values: whoever evaluates a literal
/// token that the lexer made finds the value in it.
pub proof fn lemma_tokens_carry_values(src: Seq<char>, file: Option<Seq<char>>)
    ensures
        all_carry_values(lex_source(src, file).tokens),
{
    lemma_values(src, file, 0, Lexed::empty());
}

} // verus!
