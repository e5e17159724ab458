//! What a scan yields, stated over the source as a sequence of bytes.
//!
//! A cursor is a byte offset together with the number of line breaks passed
//! and the number of bytes passed since the last of them. The functions here
//! say where each lexical run ends, which token starts at a cursor, and which
//! tokens follow one another up to the end of the input.

use vstd::prelude::*;
use crate::ascii::{
    LOWER_A, LOWER_Z, UPPER_A, UPPER_Z, DIGIT_0, DIGIT_9, UNDERSCORE, SPACE, NEWLINE, LBRACE, RBRACE, LPAREN, RPAREN, COMMA, SEMICOLON, CARET, COLON, PERIOD, AT, BANG, DOLLAR, PIPE, QUESTION, TILDE, HASH, PLUS, GREATER, LESS, EQUAL, QUOTE, BACKSLASH, MINUS, SLASH, ASTERISK,
};
use crate::token::{LexError, Token, TokenKind};

verus! {

/// An ASCII letter.
pub open spec fn is_letter(c: u8) -> bool {
    (LOWER_A <= c && c <= LOWER_Z) || (UPPER_A <= c && c <= UPPER_Z)
}

/// A decimal digit.
pub open spec fn is_digit(c: u8) -> bool {
    DIGIT_0 <= c && c <= DIGIT_9
}

/// A byte that an identifier can begin with: a letter or the underscore.
pub open spec fn is_ident_start(c: u8) -> bool {
    is_letter(c) || c == UNDERSCORE
}

/// A byte that an identifier can go on with: a letter, a digit or the
/// underscore.
pub open spec fn is_ident_byte(c: u8) -> bool {
    is_ident_start(c) || is_digit(c)
}

/// A byte that stands between tokens: the space or the line break.
pub open spec fn is_blank(c: u8) -> bool {
    c == SPACE || c == NEWLINE
}

/// The sets of bytes that a run is made of.
#[derive(Clone, Copy, Debug, PartialEq, Eq, Structural)]
pub enum ByteClass {
    /// Letters, digits and the underscore.
    Ident,
    /// Decimal digits.
    Digit,
    /// Everything but the line break.
    Comment,
}

/// The byte `c` belongs to `class`.
pub open spec fn in_class(class: ByteClass, c: u8) -> bool {
    match class {
        ByteClass::Ident => is_ident_byte(c),
        ByteClass::Digit => is_digit(c),
        ByteClass::Comment => c != NEWLINE,
    }
}

/// The kind of the token that a punctuation byte is on its own.
pub open spec fn single_kind(c: u8) -> Option<TokenKind> {
    if c == LBRACE {
        Some(TokenKind::LBrace)
    } else if c == RBRACE {
        Some(TokenKind::RBrace)
    } else if c == LPAREN {
        Some(TokenKind::LParen)
    } else if c == RPAREN {
        Some(TokenKind::RParen)
    } else if c == COMMA {
        Some(TokenKind::Comma)
    } else if c == SEMICOLON {
        Some(TokenKind::Semicolon)
    } else if c == CARET {
        Some(TokenKind::Caret)
    } else if c == COLON {
        Some(TokenKind::Colon)
    } else if c == PERIOD {
        Some(TokenKind::Period)
    } else if c == AT {
        Some(TokenKind::At)
    } else if c == BANG {
        Some(TokenKind::Bang)
    } else if c == DOLLAR {
        Some(TokenKind::Dollar)
    } else if c == PIPE {
        Some(TokenKind::Pipe)
    } else if c == QUESTION {
        Some(TokenKind::QuestionMark)
    } else if c == TILDE {
        Some(TokenKind::Tilde)
    } else if c == HASH {
        Some(TokenKind::NumberSign)
    } else if c == PLUS {
        Some(TokenKind::Plus)
    } else if c == GREATER {
        Some(TokenKind::GreaterThan)
    } else if c == LESS {
        Some(TokenKind::LessThan)
    } else if c == EQUAL {
        Some(TokenKind::Equal)
    } else {
        None
    }
}

/// The first offset at or after `i` whose byte is not in `class`, or the
/// length of `src` where every byte from `i` on is in it.
pub open spec fn run_end(src: Seq<u8>, class: ByteClass, i: int) -> int
    decreases src.len() - i,
{
    if 0 <= i < src.len() && in_class(class, src[i]) {
        run_end(src, class, i + 1)
    } else {
        i
    }
}

/// The cursor behind the spaces and line breaks that start at `i`. A space
/// moves the column on, a line break moves the line on and sets the column
/// back to zero.
pub open spec fn blank_end(src: Seq<u8>, i: int, line: int, column: int) -> (int, int, int)
    decreases src.len() - i,
{
    if 0 <= i < src.len() && src[i] == SPACE {
        blank_end(src, i + 1, line, column + 1)
    } else if 0 <= i < src.len() && src[i] == NEWLINE {
        blank_end(src, i + 1, line + 1, 0)
    } else {
        (i, line, column)
    }
}

/// The cursor behind the closing quote of a string whose body starts at
/// `i`, or `None` where the input ends first. A backslash and the byte
/// behind it pass as a pair, two columns wide whatever the second byte is;
/// a line break outside such a pair starts a new line.
pub open spec fn string_end(src: Seq<u8>, i: int, line: int, column: int) -> Option<
    (int, int, int),
>
    decreases src.len() - i,
{
    if !(0 <= i < src.len()) {
        None
    } else if src[i] == QUOTE {
        Some((i + 1, line, column + 1))
    } else if src[i] == BACKSLASH {
        if i + 1 < src.len() {
            string_end(src, i + 2, line, column + 2)
        } else {
            None
        }
    } else if src[i] == NEWLINE {
        string_end(src, i + 1, line + 1, 0)
    } else {
        string_end(src, i + 1, line, column + 1)
    }
}

/// Kind and end of a number whose digits go on at `i`: the digits, and
/// where a period follows them, the period and the digits behind it.
pub open spec fn number_tail(src: Seq<u8>, i: int) -> (TokenKind, int) {
    let e = run_end(src, ByteClass::Digit, i);
    if 0 <= e < src.len() && src[e] == PERIOD {
        (TokenKind::LiteralDecimal, run_end(src, ByteClass::Digit, e + 1))
    } else {
        (TokenKind::LiteralNumber, e)
    }
}

/// Kind and end of the token, other than a string, whose first byte stands
/// at `s`; `None` where no token begins with that byte.
pub open spec fn plain_token(src: Seq<u8>, s: int) -> Option<(TokenKind, int)>
    recommends
        0 <= s < src.len(),
{
    let c = src[s];
    let more = s + 1 < src.len();
    if is_ident_start(c) {
        let e = run_end(src, ByteClass::Ident, s + 1);
        if c == UNDERSCORE && e == s + 1 {
            Some((TokenKind::Underscore, e))
        } else {
            Some((TokenKind::Ident, e))
        }
    } else if is_digit(c) {
        Some(number_tail(src, s + 1))
    } else if c == MINUS {
        if more && is_digit(src[s + 1]) {
            Some(number_tail(src, s + 1))
        } else {
            Some((TokenKind::Minus, s + 1))
        }
    } else if c == SLASH {
        if more && src[s + 1] == SLASH {
            if s + 2 < src.len() && src[s + 2] == SLASH {
                Some((TokenKind::DocComment, run_end(src, ByteClass::Comment, s + 3)))
            } else {
                Some((TokenKind::LineComment, run_end(src, ByteClass::Comment, s + 2)))
            }
        } else {
            Some((TokenKind::Slash, s + 1))
        }
    } else if c == ASTERISK {
        if more && src[s + 1] == ASTERISK {
            Some((TokenKind::DoubleAsterisk, s + 2))
        } else {
            Some((TokenKind::Asterisk, s + 1))
        }
    } else {
        match single_kind(c) {
            Some(kind) => Some((kind, s + 1)),
            None => None,
        }
    }
}

/// The token with the given kind and span that starts at a cursor with
/// `line` line breaks and `column` bytes of the current line behind it.
pub open spec fn token_at(kind: TokenKind, start: int, end: int, line: int, column: int) -> Token {
    Token {
        kind,
        start: start as usize,
        end: end as usize,
        column: (column + 1) as usize,
        line: (line + 1) as usize,
    }
}

/// The token that a scan from the cursor `(i, line, column)` yields, with the
/// cursor behind it, or the error that the scan ends in.
pub open spec fn next_token(src: Seq<u8>, i: int, line: int, column: int) -> Result<
    (Token, (int, int, int)),
    LexError,
> {
    let (s, l, c) = blank_end(src, i, line, column);
    if !(0 <= s < src.len()) {
        Ok((token_at(TokenKind::Eof, s, s, l, c), (s, l, c)))
    } else if src[s] == QUOTE {
        match string_end(src, s + 1, l, c + 1) {
            Some((e, l2, c2)) => Ok((token_at(TokenKind::LiteralString, s, e, l, c), (e, l2, c2))),
            None => Err(
                LexError::UnterminatedString {
                    offset: s as usize,
                    line: (l + 1) as usize,
                    column: (c + 1) as usize,
                },
            ),
        }
    } else {
        match plain_token(src, s) {
            Some((kind, e)) => Ok((token_at(kind, s, e, l, c), (e, l, c + (e - s)))),
            None => Err(
                LexError::InvalidCharacter {
                    byte: src[s],
                    offset: s as usize,
                    line: (l + 1) as usize,
                    column: (c + 1) as usize,
                },
            ),
        }
    }
}

/// A run ends at or behind its start, inside the source.
pub proof fn lemma_run_end_bounds(src: Seq<u8>, class: ByteClass, i: int)
    requires
        0 <= i <= src.len(),
    ensures
        i <= run_end(src, class, i) <= src.len(),
    decreases src.len() - i,
{
    if i < src.len() && in_class(class, src[i]) {
        lemma_run_end_bounds(src, class, i + 1);
    }
}

/// Skipping blanks moves the cursor forward, inside the source, and
/// neither counter runs ahead of the offset.
pub proof fn lemma_blank_end_bounds(src: Seq<u8>, i: int, line: int, column: int)
    requires
        0 <= i <= src.len(),
        0 <= line <= i,
        0 <= column <= i,
    ensures
        ({
            let (s, l, c) = blank_end(src, i, line, column);
            i <= s <= src.len() && 0 <= l <= s && 0 <= c <= s
        }),
    decreases src.len() - i,
{
    if i < src.len() && src[i] == SPACE {
        lemma_blank_end_bounds(src, i + 1, line, column + 1);
    } else if i < src.len() && src[i] == NEWLINE {
        lemma_blank_end_bounds(src, i + 1, line + 1, 0);
    }
}

/// A string that is closed ends behind a quote, inside the source, and
/// neither counter runs ahead of the offset.
pub proof fn lemma_string_end_bounds(src: Seq<u8>, i: int, line: int, column: int)
    requires
        0 <= i <= src.len(),
        0 <= line <= i,
        0 <= column <= i,
    ensures
        match string_end(src, i, line, column) {
            Some((e, l, c)) => i < e <= src.len() && 0 <= l <= e && 0 <= c <= e && src[e - 1]
                == QUOTE,
            None => true,
        },
    decreases src.len() - i,
{
    if i < src.len() && src[i] != QUOTE {
        if src[i] == BACKSLASH {
            if i + 1 < src.len() {
                lemma_string_end_bounds(src, i + 2, line, column + 2);
            }
        } else if src[i] == NEWLINE {
            lemma_string_end_bounds(src, i + 1, line + 1, 0);
        } else {
            lemma_string_end_bounds(src, i + 1, line, column + 1);
        }
    }
}

/// A plain token is not empty and ends inside the source.
pub proof fn lemma_plain_token_bounds(src: Seq<u8>, s: int)
    requires
        0 <= s < src.len(),
    ensures
        match plain_token(src, s) {
            Some((kind, e)) => s < e <= src.len() && kind != TokenKind::Eof,
            None => true,
        },
{
    lemma_run_end_bounds(src, ByteClass::Ident, s + 1);
    lemma_run_end_bounds(src, ByteClass::Digit, s + 1);
    let e = run_end(src, ByteClass::Digit, s + 1);
    if e < src.len() {
        lemma_run_end_bounds(src, ByteClass::Digit, e + 1);
    }
    if s + 2 <= src.len() {
        lemma_run_end_bounds(src, ByteClass::Comment, s + 2);
    }
    if s + 3 <= src.len() {
        lemma_run_end_bounds(src, ByteClass::Comment, s + 3);
    }
}

/// A scan that yields a token leaves the cursor inside the source, at the
/// token's end; every token but the end marker is at least one byte long.
pub proof fn lemma_next_token_bounds(src: Seq<u8>, i: int, line: int, column: int)
    requires
        0 <= i <= src.len(),
        0 <= line <= i,
        0 <= column <= i,
    ensures
        match next_token(src, i, line, column) {
            Ok((t, (e, l, c))) => {
                &&& i <= e <= src.len()
                &&& 0 <= l <= e
                &&& 0 <= c <= e
                &&& t.kind != TokenKind::Eof ==> i < e
                &&& t.kind == TokenKind::Eof ==> e == src.len()
            },
            Err(_) => true,
        },
{
    lemma_blank_end_bounds(src, i, line, column);
    let (s, l, c) = blank_end(src, i, line, column);
    if s < src.len() {
        if src[s] == QUOTE {
            lemma_string_end_bounds(src, s + 1, l, c + 1);
        } else {
            lemma_plain_token_bounds(src, s);
        }
    }
}

/// The tokens from the cursor `(i, line, column)` to the end of the input,
/// the end marker last, or the first error met on the way.
pub open spec fn tokens_from(src: Seq<u8>, i: int, line: int, column: int) -> Result<
    Seq<Token>,
    LexError,
>
    decreases src.len() - i,
    when 0 <= i <= src.len() && 0 <= line <= i && 0 <= column <= i
{
    match next_token(src, i, line, column) {
        Err(e) => Err(e),
        Ok((t, (e, l, c))) => {
            if t.kind == TokenKind::Eof {
                Ok(seq![t])
            } else {
                proof {
                    lemma_next_token_bounds(src, i, line, column);
                }
                match tokens_from(src, e, l, c) {
                    Ok(rest) => Ok(seq![t] + rest),
                    Err(e) => Err(e),
                }
            }
        },
    }
}

/// The token sequence of a whole source.
pub open spec fn tokenization(src: Seq<u8>) -> Result<Seq<Token>, LexError> {
    tokens_from(src, 0, 0, 0)
}

} // verus!
