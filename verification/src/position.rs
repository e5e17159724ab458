//! Lines and columns: where no escape pair swallows a line break, the
//! position that a token or an error carries is the one that counting the
//! line breaks before it gives.

use vstd::prelude::*;
use crate::ascii::{BACKSLASH, NEWLINE, QUOTE, SPACE};
use crate::model::{
    blank_end, is_blank, lemma_blank_end_bounds, lemma_next_token_bounds,
    lemma_plain_token_bounds, lemma_run_end_bounds, lemma_string_end_bounds, next_token,
    plain_token, run_end, string_end, tokenization, tokens_from, ByteClass,
};
use crate::laws::{lemma_blank_end_contents, lemma_run_end_contents};
use crate::token::{LexError, Token, TokenKind};

verus! {

/// The number of line breaks among the first `i` bytes of `src`.
pub open spec fn line_breaks_before(src: Seq<u8>, i: int) -> int
    decreases i,
{
    if i <= 0 || i > src.len() {
        0
    } else if src[i - 1] == NEWLINE {
        line_breaks_before(src, i - 1) + 1
    } else {
        line_breaks_before(src, i - 1)
    }
}

/// The number of bytes between the last line break before the offset `i`,
/// or the start of `src` where there is none, and `i`.
pub open spec fn bytes_into_line(src: Seq<u8>, i: int) -> int
    decreases i,
{
    if i <= 0 || i > src.len() {
        0
    } else if src[i - 1] == NEWLINE {
        0
    } else {
        bytes_into_line(src, i - 1) + 1
    }
}

/// The counters `line` and `column` are those of the offset `i`.
pub open spec fn at_position(src: Seq<u8>, i: int, line: int, column: int) -> bool {
    line == line_breaks_before(src, i) && column == bytes_into_line(src, i)
}

/// A backslash stands at `j` and a line break behind it.
pub open spec fn escapes_line_break(src: Seq<u8>, j: int) -> bool {
    0 <= j < src.len() - 1 && src[j] == BACKSLASH && src[j + 1] == NEWLINE
}

/// No backslash in `src` stands before a line break.
pub open spec fn no_escaped_line_break(src: Seq<u8>) -> bool {
    forall|j: int| !#[trigger] escapes_line_break(src, j)
}

/// The 1-based line and column of the offset `offset` are `line` and
/// `column`.
pub open spec fn located(src: Seq<u8>, offset: usize, line: usize, column: usize) -> bool {
    &&& line == line_breaks_before(src, offset as int) + 1
    &&& column == bytes_into_line(src, offset as int) + 1
}

/// Skipping blanks keeps the counters those of the offset.
pub proof fn lemma_blank_end_position(src: Seq<u8>, i: int, line: int, column: int)
    requires
        0 <= i <= src.len(),
        at_position(src, i, line, column),
    ensures
        ({
            let (s, l, c) = blank_end(src, i, line, column);
            at_position(src, s, l, c)
        }),
    decreases src.len() - i,
{
    if i < src.len() && src[i] == SPACE {
        lemma_blank_end_position(src, i + 1, line, column + 1);
    } else if i < src.len() && src[i] == NEWLINE {
        lemma_blank_end_position(src, i + 1, line + 1, 0);
    }
}

/// Reading a string keeps the counters those of the offset, where no
/// escape pair holds a line break.
pub proof fn lemma_string_end_position(src: Seq<u8>, i: int, line: int, column: int)
    requires
        0 <= i <= src.len(),
        at_position(src, i, line, column),
        no_escaped_line_break(src),
    ensures
        match string_end(src, i, line, column) {
            Some((e, l, c)) => at_position(src, e, l, c),
            None => true,
        },
    decreases src.len() - i,
{
    if i < src.len() && src[i] != QUOTE {
        if src[i] == BACKSLASH {
            if i + 1 < src.len() {
                assert(!escapes_line_break(src, i));
                assert(at_position(src, i + 1, line, column + 1));
                lemma_string_end_position(src, i + 2, line, column + 2);
            }
        } else if src[i] == NEWLINE {
            lemma_string_end_position(src, i + 1, line + 1, 0);
        } else {
            lemma_string_end_position(src, i + 1, line, column + 1);
        }
    }
}

/// Over bytes that hold no line break the line stays and the column grows
/// by their number.
pub proof fn lemma_one_line_position(src: Seq<u8>, a: int, b: int, line: int, column: int)
    requires
        0 <= a <= b <= src.len(),
        forall|j: int| a <= j < b ==> #[trigger] src[j] != NEWLINE,
        at_position(src, a, line, column),
    ensures
        at_position(src, b, line, column + (b - a)),
    decreases b - a,
{
    if a < b {
        lemma_one_line_position(src, a, b - 1, line, column);
    }
}

/// A token other than a string holds no line break.
pub proof fn lemma_plain_token_one_line(src: Seq<u8>, s: int)
    requires
        0 <= s < src.len(),
        !is_blank(src[s]),
    ensures
        match plain_token(src, s) {
            Some((_, e)) => forall|j: int| s <= j < e ==> #[trigger] src[j] != NEWLINE,
            None => true,
        },
{
    lemma_plain_token_bounds(src, s);
    lemma_run_end_bounds(src, ByteClass::Ident, s + 1);
    lemma_run_end_contents(src, ByteClass::Ident, s + 1);
    lemma_run_end_bounds(src, ByteClass::Digit, s + 1);
    lemma_run_end_contents(src, ByteClass::Digit, s + 1);
    let d = run_end(src, ByteClass::Digit, s + 1);
    if d < src.len() {
        lemma_run_end_bounds(src, ByteClass::Digit, d + 1);
        lemma_run_end_contents(src, ByteClass::Digit, d + 1);
    }
    if s + 2 <= src.len() {
        lemma_run_end_contents(src, ByteClass::Comment, s + 2);
    }
    if s + 3 <= src.len() {
        lemma_run_end_contents(src, ByteClass::Comment, s + 3);
    }
}

/// From a cursor whose counters are those of its offset, a scan yields a
/// token, or an error, with the position of its first byte, and leaves such
/// a cursor behind.
pub proof fn lemma_next_token_position(src: Seq<u8>, i: int, line: int, column: int)
    requires
        0 <= i <= src.len() < usize::MAX,
        0 <= line <= i,
        0 <= column <= i,
        at_position(src, i, line, column),
        no_escaped_line_break(src),
    ensures
        match next_token(src, i, line, column) {
            Ok((t, (e, l, c))) => at_position(src, e, l, c) && located(
                src,
                t.start,
                t.line,
                t.column,
            ),
            Err(LexError::InvalidCharacter { byte: _, offset, line, column }) => located(
                src,
                offset,
                line,
                column,
            ),
            Err(LexError::UnterminatedString { offset, line, column }) => located(
                src,
                offset,
                line,
                column,
            ),
        },
{
    lemma_blank_end_bounds(src, i, line, column);
    lemma_blank_end_contents(src, i, line, column);
    lemma_blank_end_position(src, i, line, column);
    let (s, l, c) = blank_end(src, i, line, column);
    if s < src.len() {
        if src[s] == QUOTE {
            lemma_string_end_bounds(src, s + 1, l, c + 1);
            lemma_string_end_position(src, s + 1, l, c + 1);
        } else {
            lemma_plain_token_bounds(src, s);
            lemma_plain_token_one_line(src, s);
            match plain_token(src, s) {
                Some((_, e)) => {
                    lemma_one_line_position(src, s, e, l, c);
                },
                None => {},
            }
        }
    }
}

/// Every token from such a cursor on has the position of its first byte,
/// and so has the error, if the scan ends in one.
pub proof fn lemma_tokens_from_position(src: Seq<u8>, i: int, line: int, column: int)
    requires
        0 <= i <= src.len() < usize::MAX,
        0 <= line <= i,
        0 <= column <= i,
        at_position(src, i, line, column),
        no_escaped_line_break(src),
    ensures
        match tokens_from(src, i, line, column) {
            Ok(ts) => forall|k: int|
                0 <= k < ts.len() ==> located(
                    src,
                    (#[trigger] ts[k]).start,
                    ts[k].line,
                    ts[k].column,
                ),
            Err(LexError::InvalidCharacter { byte: _, offset, line, column }) => located(
                src,
                offset,
                line,
                column,
            ),
            Err(LexError::UnterminatedString { offset, line, column }) => located(
                src,
                offset,
                line,
                column,
            ),
        },
    decreases src.len() - i,
{
    lemma_next_token_position(src, i, line, column);
    lemma_next_token_bounds(src, i, line, column);
    match next_token(src, i, line, column) {
        Ok((t, (e, l, c))) => {
            if t.kind != TokenKind::Eof {
                lemma_tokens_from_position(src, e, l, c);
                match tokens_from(src, e, l, c) {
                    Ok(rest) => {
                        let ts = seq![t] + rest;
                        assert forall|k: int| 0 <= k < ts.len() implies located(
                            src,
                            (#[trigger] ts[k]).start,
                            ts[k].line,
                            ts[k].column,
                        ) by {
                            if k > 0 {
                                assert(ts[k] == rest[k - 1]);
                            }
                        }
                    },
                    Err(_) => {},
                }
            }
        },
        Err(_) => {},
    }
}

/// In a source in which no backslash stands before a line break, the line
/// of a token is one more than the number of line breaks before its first
/// byte, and its column is one more than the number of bytes between the
/// last of them and that byte.
pub proof fn law_token_position(src: Seq<u8>, ts: Seq<Token>, k: int)
    requires
        src.len() < usize::MAX,
        no_escaped_line_break(src),
        tokenization(src) == Ok::<Seq<Token>, LexError>(ts),
        0 <= k < ts.len(),
    ensures
        ts[k].line == line_breaks_before(src, ts[k].start as int) + 1,
        ts[k].column == bytes_into_line(src, ts[k].start as int) + 1,
{
    lemma_tokens_from_position(src, 0, 0, 0);
}

/// In such a source, the error that a scan ends in carries the line and
/// column of the offset that it names.
pub proof fn law_error_position(src: Seq<u8>, e: LexError)
    requires
        src.len() < usize::MAX,
        no_escaped_line_break(src),
        tokenization(src) == Err::<Seq<Token>, LexError>(e),
    ensures
        match e {
            LexError::InvalidCharacter { byte: _, offset, line, column } => located(
                src,
                offset,
                line,
                column,
            ),
            LexError::UnterminatedString { offset, line, column } => located(
                src,
                offset,
                line,
                column,
            ),
        },
{
    lemma_tokens_from_position(src, 0, 0, 0);
}

} // verus!
