//! What holds of every token sequence: the shape of each lexeme, the order of
//! the spans, the end marker, and that a source has one token sequence.

use vstd::prelude::*;
use crate::ascii::{ASTERISK, MINUS, NEWLINE, PERIOD, QUOTE, SLASH, SPACE, UNDERSCORE};
use crate::model::{
    blank_end, in_class, is_blank, is_digit, is_ident_byte, is_ident_start,
    lemma_blank_end_bounds, lemma_next_token_bounds, lemma_plain_token_bounds,
    lemma_run_end_bounds, lemma_string_end_bounds, next_token, plain_token, run_end, single_kind,
    string_end,
    tokenization, tokens_from, ByteClass,
};
use crate::token::{LexError, Token, TokenKind};

verus! {

/// Every byte of `s` from `a` up to `b` is a decimal digit.
pub open spec fn all_digits(s: Seq<u8>, a: int, b: int) -> bool {
    forall|j: int| a <= j < b ==> is_digit(#[trigger] s[j])
}

/// Every byte of `s` from `a` up to `b` is a space or a line break.
pub open spec fn all_blank(s: Seq<u8>, a: int, b: int) -> bool {
    forall|j: int| a <= j < b ==> is_blank(#[trigger] s[j])
}

/// No byte of `s` is a line break.
pub open spec fn on_one_line(s: Seq<u8>) -> bool {
    forall|j: int| 0 <= j < s.len() ==> #[trigger] s[j] != NEWLINE
}

/// The number of bytes that the sign of a number takes: one where `lex`
/// starts with a minus, else none.
pub open spec fn sign_len(lex: Seq<u8>) -> int {
    if lex.len() > 0 && lex[0] == MINUS {
        1
    } else {
        0
    }
}

/// The text `lex` is a lexeme of the kind `kind`.
pub open spec fn lexeme_matches(kind: TokenKind, lex: Seq<u8>) -> bool {
    match kind {
        TokenKind::Eof => lex.len() == 0,
        TokenKind::Ident => {
            &&& lex.len() >= 1
            &&& is_ident_start(lex[0])
            &&& forall|j: int| 0 <= j < lex.len() ==> is_ident_byte(#[trigger] lex[j])
            &&& !(lex.len() == 1 && lex[0] == UNDERSCORE)
        },
        TokenKind::Underscore => lex == seq![UNDERSCORE],
        TokenKind::LiteralNumber => {
            &&& lex.len() > sign_len(lex)
            &&& all_digits(lex, sign_len(lex), lex.len() as int)
        },
        TokenKind::LiteralDecimal => exists|p: int|
            {
                &&& sign_len(lex) < p < lex.len()
                &&& #[trigger] lex[p] == PERIOD
                &&& all_digits(lex, sign_len(lex), p)
                &&& all_digits(lex, p + 1, lex.len() as int)
            },
        TokenKind::LiteralString => {
            &&& lex.len() >= 2
            &&& lex[0] == QUOTE
            &&& lex[lex.len() - 1] == QUOTE
        },
        TokenKind::LineComment => {
            &&& lex.len() >= 2
            &&& lex[0] == SLASH
            &&& lex[1] == SLASH
            &&& lex.len() > 2 ==> lex[2] != SLASH
            &&& on_one_line(lex)
        },
        TokenKind::DocComment => {
            &&& lex.len() >= 3
            &&& lex[0] == SLASH
            &&& lex[1] == SLASH
            &&& lex[2] == SLASH
            &&& on_one_line(lex)
        },
        TokenKind::Minus => lex == seq![MINUS],
        TokenKind::Slash => lex == seq![SLASH],
        TokenKind::Asterisk => lex == seq![ASTERISK],
        TokenKind::DoubleAsterisk => lex == seq![ASTERISK, ASTERISK],
        _ => lex.len() == 1 && single_kind(lex[0]) == Some(kind),
    }
}

/// The span of `t` lies in `src`, is empty for the end marker alone, which
/// stands at the end of `src`, and holds a lexeme of the kind of `t`.
pub open spec fn token_fits(src: Seq<u8>, t: Token) -> bool {
    &&& t.start <= t.end <= src.len()
    &&& t.kind == TokenKind::Eof ==> t.start == src.len()
    &&& t.kind != TokenKind::Eof ==> t.start < t.end
    &&& t.line >= 1
    &&& t.column >= 1
    &&& lexeme_matches(t.kind, src.subrange(t.start as int, t.end as int))
}

/// The token `a` is no end marker, and `b` starts where `a` ends or behind
/// it, with nothing but blanks between them.
pub open spec fn follows(src: Seq<u8>, a: Token, b: Token) -> bool {
    &&& a.kind != TokenKind::Eof
    &&& a.end <= b.start
    &&& all_blank(src, a.end as int, b.start as int)
}

/// The tokens `ts` cover `src` from the offset `from` on: each fits, one
/// follows the other with nothing but blanks between them, and the end
/// marker is the last of them and no other.
pub open spec fn tokens_cover(src: Seq<u8>, ts: Seq<Token>, from: int) -> bool {
    &&& ts.len() >= 1
    &&& from <= ts[0].start
    &&& all_blank(src, from, ts[0].start as int)
    &&& forall|k: int| 0 <= k < ts.len() ==> token_fits(src, #[trigger] ts[k])
    &&& forall|k: int| 0 <= k < ts.len() - 1 ==> #[trigger] follows(src, ts[k], ts[k + 1])
    &&& ts[ts.len() - 1].kind == TokenKind::Eof
}

/// A byte that a token or a blank can begin with.
pub open spec fn can_start(c: u8) -> bool {
    ||| is_blank(c)
    ||| is_ident_start(c)
    ||| is_digit(c)
    ||| c == QUOTE
    ||| c == MINUS
    ||| c == SLASH
    ||| c == ASTERISK
    ||| single_kind(c).is_some()
}

/// A run holds bytes of its class only, and stops at the first byte that is
/// not of it.
pub proof fn lemma_run_end_contents(src: Seq<u8>, class: ByteClass, i: int)
    requires
        0 <= i <= src.len(),
    ensures
        forall|j: int| i <= j < run_end(src, class, i) ==> in_class(class, #[trigger] src[j]),
        run_end(src, class, i) < src.len() ==> !in_class(class, src[run_end(src, class, i)]),
    decreases src.len() - i,
{
    if i < src.len() && in_class(class, src[i]) {
        lemma_run_end_contents(src, class, i + 1);
    }
}

/// What is skipped before a token is blank, and the token does not begin
/// with a blank.
pub proof fn lemma_blank_end_contents(src: Seq<u8>, i: int, line: int, column: int)
    requires
        0 <= i <= src.len(),
    ensures
        all_blank(src, i, blank_end(src, i, line, column).0),
        blank_end(src, i, line, column).0 < src.len() ==> !is_blank(
            src[blank_end(src, i, line, column).0],
        ),
        i <= blank_end(src, i, line, column).0,
    decreases src.len() - i,
{
    if i < src.len() && src[i] == SPACE {
        lemma_blank_end_contents(src, i + 1, line, column + 1);
    } else if i < src.len() && src[i] == NEWLINE {
        lemma_blank_end_contents(src, i + 1, line + 1, 0);
    }
}

/// The lexeme of a token other than a string has the shape of its kind.
pub proof fn lemma_plain_token_shape(src: Seq<u8>, s: int)
    requires
        0 <= s < src.len(),
        !is_blank(src[s]),
        src[s] != QUOTE,
    ensures
        match plain_token(src, s) {
            Some((kind, e)) => s < e <= src.len() && kind != TokenKind::Eof && lexeme_matches(
                kind,
                src.subrange(s, e),
            ),
            None => !can_start(src[s]),
        },
{
    lemma_plain_token_bounds(src, s);
    let c = src[s];
    match plain_token(src, s) {
        Some((kind, e)) => {
            let lex = src.subrange(s, e);
            assert(lex[0] == c);
            if is_ident_start(c) {
                lemma_run_end_contents(src, ByteClass::Ident, s + 1);
                assert forall|j: int| 0 <= j < lex.len() implies is_ident_byte(
                    #[trigger] lex[j],
                ) by {
                    if j > 0 {
                        assert(in_class(ByteClass::Ident, src[s + j]));
                    }
                }
                if kind == TokenKind::Underscore {
                    assert(lex =~= seq![UNDERSCORE]);
                }
            } else if is_digit(c) || (c == MINUS && s + 1 < src.len() && is_digit(src[s + 1])) {
                lemma_run_end_bounds(src, ByteClass::Digit, s + 1);
                lemma_run_end_contents(src, ByteClass::Digit, s + 1);
                let d = run_end(src, ByteClass::Digit, s + 1);
                if d < src.len() {
                    lemma_run_end_bounds(src, ByteClass::Digit, d + 1);
                }
                let sign = sign_len(lex);
                assert(sign == if c == MINUS { 1int } else { 0int });
                assert(sign < d - s);
                assert forall|j: int| sign <= j < d - s implies is_digit(#[trigger] lex[j]) by {
                    if j > 0 {
                        assert(in_class(ByteClass::Digit, src[s + j]));
                    }
                }
                if kind == TokenKind::LiteralDecimal {
                    lemma_run_end_bounds(src, ByteClass::Digit, d + 1);
                    lemma_run_end_contents(src, ByteClass::Digit, d + 1);
                    let p = d - s;
                    assert(lex[p] == PERIOD);
                    assert forall|j: int| p + 1 <= j < lex.len() implies is_digit(
                        #[trigger] lex[j],
                    ) by {
                        assert(in_class(ByteClass::Digit, src[s + j]));
                    }
                    assert(all_digits(lex, sign, p));
                    assert(all_digits(lex, p + 1, lex.len() as int));
                }
            } else if c == MINUS {
                assert(lex =~= seq![MINUS]);
            } else if c == SLASH {
                if kind == TokenKind::Slash {
                    assert(lex =~= seq![SLASH]);
                } else {
                    let body = if kind == TokenKind::DocComment {
                        s + 3
                    } else {
                        s + 2
                    };
                    lemma_run_end_contents(src, ByteClass::Comment, body);
                    assert(lex[1] == src[s + 1]);
                    assert forall|j: int| 0 <= j < lex.len() implies #[trigger] lex[j]
                        != NEWLINE by {
                        if s + j >= body {
                            assert(in_class(ByteClass::Comment, src[s + j]));
                        }
                    }
                    if kind == TokenKind::DocComment {
                        assert(lex[2] == src[s + 2]);
                    } else if lex.len() > 2 {
                        assert(lex[2] == src[s + 2]);
                    }
                }
            } else if c == ASTERISK {
                if kind == TokenKind::Asterisk {
                    assert(lex =~= seq![ASTERISK]);
                } else {
                    assert(lex =~= seq![ASTERISK, ASTERISK]);
                }
            }
        },
        None => {},
    }
}

/// The token that a scan yields fits the source, and only blanks stand
/// between the cursor and the token.
pub proof fn lemma_next_token_fits(src: Seq<u8>, i: int, line: int, column: int)
    requires
        0 <= i <= src.len() < usize::MAX,
        0 <= line <= i,
        0 <= column <= i,
    ensures
        match next_token(src, i, line, column) {
            Ok((t, (e, l, c))) => {
                &&& token_fits(src, t)
                &&& i <= t.start
                &&& all_blank(src, i, t.start as int)
                &&& t.end == e
            },
            Err(LexError::InvalidCharacter { byte, offset, line: _, column: _ }) => {
                &&& i <= offset < src.len()
                &&& src[offset as int] == byte
                &&& !can_start(byte)
            },
            Err(LexError::UnterminatedString { offset, line: _, column: _ }) => {
                &&& i <= offset < src.len()
                &&& src[offset as int] == QUOTE
            },
        },
{
    lemma_blank_end_bounds(src, i, line, column);
    lemma_blank_end_contents(src, i, line, column);
    let (s, l, c) = blank_end(src, i, line, column);
    if s < src.len() {
        if src[s] == QUOTE {
            lemma_string_end_bounds(src, s + 1, l, c + 1);
            match string_end(src, s + 1, l, c + 1) {
                Some((e, _, _)) => {
                    let lex = src.subrange(s, e);
                    assert(lex[0] == QUOTE);
                    assert(lex[lex.len() - 1] == src[e - 1]);
                },
                None => {},
            }
        } else {
            lemma_plain_token_shape(src, s);
        }
    } else {
        assert(src.subrange(s, s).len() == 0);
    }
}

/// The tokens from a cursor on cover the source behind it.
pub proof fn lemma_tokens_from_cover(src: Seq<u8>, i: int, line: int, column: int)
    requires
        0 <= i <= src.len() < usize::MAX,
        0 <= line <= i,
        0 <= column <= i,
    ensures
        match tokens_from(src, i, line, column) {
            Ok(ts) => tokens_cover(src, ts, i),
            Err(_) => true,
        },
    decreases src.len() - i,
{
    lemma_next_token_fits(src, i, line, column);
    lemma_next_token_bounds(src, i, line, column);
    match next_token(src, i, line, column) {
        Ok((t, (e, l, c))) => {
            if t.kind != TokenKind::Eof {
                lemma_tokens_from_cover(src, e, l, c);
                match tokens_from(src, e, l, c) {
                    Ok(rest) => {
                        let ts = seq![t] + rest;
                        assert(ts[0] == t);
                        assert forall|k: int| 0 <= k < ts.len() implies token_fits(
                            src,
                            #[trigger] ts[k],
                        ) by {
                            if k > 0 {
                                assert(ts[k] == rest[k - 1]);
                            }
                        }
                        assert forall|k: int| 0 <= k < ts.len() - 1 implies #[trigger] follows(
                            src,
                            ts[k],
                            ts[k + 1],
                        ) by {
                            assert(ts[k + 1] == rest[k]);
                            if k > 0 {
                                assert(ts[k] == rest[k - 1]);
                                assert(follows(src, rest[k - 1], rest[k - 1 + 1]));
                            }
                        }
                        assert(ts[ts.len() - 1] == rest[rest.len() - 1]);
                    },
                    Err(_) => {},
                }
            }
        },
        Err(_) => {},
    }
}

/// A scan of a source made of nothing but bytes that can start a token or a
/// blank does not end on an invalid character.
pub proof fn lemma_tokens_from_startable(src: Seq<u8>, i: int, line: int, column: int)
    requires
        0 <= i <= src.len() < usize::MAX,
        0 <= line <= i,
        0 <= column <= i,
        forall|j: int| 0 <= j < src.len() ==> can_start(#[trigger] src[j]),
    ensures
        !(tokens_from(src, i, line, column) matches Err(LexError::InvalidCharacter { .. })),
    decreases src.len() - i,
{
    lemma_next_token_fits(src, i, line, column);
    lemma_next_token_bounds(src, i, line, column);
    match next_token(src, i, line, column) {
        Ok((t, (e, l, c))) => {
            if t.kind != TokenKind::Eof {
                lemma_tokens_from_startable(src, e, l, c);
            }
        },
        Err(_) => {},
    }
}

/// A source in which every byte can start a token or a blank has a token
/// sequence, unless a string in it is left open at the end of the input.
pub proof fn law_total_on_startable_bytes(src: Seq<u8>)
    requires
        src.len() < usize::MAX,
        forall|j: int| 0 <= j < src.len() ==> can_start(#[trigger] src[j]),
        !(tokenization(src) matches Err(LexError::UnterminatedString { .. })),
    ensures
        tokenization(src) is Ok,
{
    lemma_tokens_from_startable(src, 0, 0, 0);
}

/// A token sequence is not empty; its last token is the end marker, which
/// is empty and stands at the end of the source; no other token is an end
/// marker.
pub proof fn law_end_marker_last(src: Seq<u8>, ts: Seq<Token>)
    requires
        src.len() < usize::MAX,
        tokenization(src) == Ok::<Seq<Token>, LexError>(ts),
    ensures
        ts.len() >= 1,
        ts[ts.len() - 1].kind == TokenKind::Eof,
        ts[ts.len() - 1].start == src.len(),
        ts[ts.len() - 1].end == src.len(),
        forall|k: int| 0 <= k < ts.len() - 1 ==> (#[trigger] ts[k]).kind != TokenKind::Eof,
{
    lemma_tokens_from_cover(src, 0, 0, 0);
    assert(token_fits(src, ts[ts.len() - 1]));
    assert forall|k: int| 0 <= k < ts.len() - 1 implies (#[trigger] ts[k]).kind
        != TokenKind::Eof by {
        assert(follows(src, ts[k], ts[k + 1]));
    }
}

/// Of two tokens that follow one another the first ends before the second
/// starts or where it starts, and only blanks stand between them; only
/// blanks stand before the first token.
pub proof fn law_spans_ordered(src: Seq<u8>, ts: Seq<Token>, k: int)
    requires
        src.len() < usize::MAX,
        tokenization(src) == Ok::<Seq<Token>, LexError>(ts),
        0 <= k < ts.len() - 1,
    ensures
        ts[k].end <= ts[k + 1].start,
        all_blank(src, ts[k].end as int, ts[k + 1].start as int),
        all_blank(src, 0, ts[0].start as int),
{
    lemma_tokens_from_cover(src, 0, 0, 0);
    assert(follows(src, ts[k], ts[k + 1]));
}

/// Every token's span lies in the source and holds a lexeme of the token's
/// kind; the span of every token but the end marker is not empty.
pub proof fn law_lexeme_shape(src: Seq<u8>, ts: Seq<Token>, k: int)
    requires
        src.len() < usize::MAX,
        tokenization(src) == Ok::<Seq<Token>, LexError>(ts),
        0 <= k < ts.len(),
    ensures
        ts[k].start <= ts[k].end <= src.len(),
        ts[k].kind != TokenKind::Eof ==> ts[k].start < ts[k].end,
        lexeme_matches(ts[k].kind, src.subrange(ts[k].start as int, ts[k].end as int)),
{
    lemma_tokens_from_cover(src, 0, 0, 0);
    assert(token_fits(src, ts[k]));
}

/// The error that a scan from a cursor on ends in names an offset of the
/// source: that of a byte that no token begins with, or that of the quote
/// of a string that is never closed.
pub proof fn lemma_tokens_from_error(src: Seq<u8>, i: int, line: int, column: int)
    requires
        0 <= i <= src.len() < usize::MAX,
        0 <= line <= i,
        0 <= column <= i,
    ensures
        match tokens_from(src, i, line, column) {
            Err(LexError::InvalidCharacter { byte, offset, line: _, column: _ }) => {
                &&& i <= offset < src.len()
                &&& src[offset as int] == byte
                &&& !can_start(byte)
            },
            Err(LexError::UnterminatedString { offset, line: _, column: _ }) => {
                &&& i <= offset < src.len()
                &&& src[offset as int] == QUOTE
            },
            Ok(_) => true,
        },
    decreases src.len() - i,
{
    lemma_next_token_fits(src, i, line, column);
    lemma_next_token_bounds(src, i, line, column);
    match next_token(src, i, line, column) {
        Ok((t, (e, l, c))) => {
            if t.kind != TokenKind::Eof {
                lemma_tokens_from_error(src, e, l, c);
            }
        },
        Err(_) => {},
    }
}

/// A scan that fails on an invalid character names a byte of the source
/// that no token and no blank begins with, and the offset at which that
/// byte stands.
pub proof fn law_invalid_character_located(
    src: Seq<u8>,
    byte: u8,
    offset: usize,
    line: usize,
    column: usize,
)
    requires
        src.len() < usize::MAX,
        tokenization(src) == Err::<Seq<Token>, LexError>(
            LexError::InvalidCharacter { byte, offset, line, column },
        ),
    ensures
        offset < src.len(),
        src[offset as int] == byte,
        !can_start(byte),
{
    lemma_tokens_from_error(src, 0, 0, 0);
}

/// A scan that fails on an open string names the offset of a quote of the
/// source.
pub proof fn law_unterminated_string_located(
    src: Seq<u8>,
    offset: usize,
    line: usize,
    column: usize,
)
    requires
        src.len() < usize::MAX,
        tokenization(src) == Err::<Seq<Token>, LexError>(
            LexError::UnterminatedString { offset, line, column },
        ),
    ensures
        offset < src.len(),
        src[offset as int] == QUOTE,
{
    lemma_tokens_from_error(src, 0, 0, 0);
}

/// A source has one token sequence: what two scans of the same bytes yield
/// is the same, token for token, or the same error.
pub proof fn law_same_source_same_tokens(
    src: Seq<u8>,
    first: Result<Seq<Token>, LexError>,
    second: Result<Seq<Token>, LexError>,
)
    requires
        first == tokenization(src),
        second == tokenization(src),
    ensures
        first == second,
{
}

} // verus!
