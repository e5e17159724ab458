//! The tokenizer: a cursor over the source bytes that hands out one token at a
//! time, and `tokenize`, which drives it to the end of the input.

use vstd::prelude::*;
use vstd::string::StringSliceAdditionalSpecFns;
use crate::ascii::{ASTERISK, NEWLINE, QUOTE, SLASH, UNDERSCORE};
use crate::laws::{lemma_tokens_from_cover, tokens_cover};
use crate::machine::{state_kind, transition, Action};
use crate::model::{
    blank_end, is_digit, lemma_next_token_bounds, next_token, number_tail, plain_token, run_end,
    string_end, token_at, tokenization, tokens_from, ByteClass,
};
pub use crate::token::{LexError, Token, TokenKind, TokenizerState};

verus! {

/// Kind and end of a token that started at `s`, has come to `i` and is in
/// `state` there, for the states of a token that is no string.
spec fn outcome_from(src: Seq<u8>, state: TokenizerState, s: int, i: int) -> (
    TokenKind,
    int,
) {
    let more = 0 <= i < src.len();
    match state {
        TokenizerState::Ident => {
            let e = run_end(src, ByteClass::Ident, i);
            (settled_kind(src, TokenKind::Ident, s, e), e)
        },
        TokenizerState::Number => number_tail(src, i),
        TokenizerState::Decimal => (TokenKind::LiteralDecimal, run_end(src, ByteClass::Digit, i)),
        TokenizerState::Minus => if more && is_digit(src[i]) {
            number_tail(src, i)
        } else {
            (TokenKind::Minus, i)
        },
        TokenizerState::Slash => if more && src[i] == SLASH {
            if i + 1 < src.len() && src[i + 1] == SLASH {
                (TokenKind::DocComment, run_end(src, ByteClass::Comment, i + 2))
            } else {
                (TokenKind::LineComment, run_end(src, ByteClass::Comment, i + 1))
            }
        } else {
            (TokenKind::Slash, i)
        },
        TokenizerState::LineComment => if more && src[i] == SLASH && i == s + 2 {
            (TokenKind::DocComment, run_end(src, ByteClass::Comment, i + 1))
        } else {
            (TokenKind::LineComment, run_end(src, ByteClass::Comment, i))
        },
        TokenizerState::DocComment => (TokenKind::DocComment, run_end(src, ByteClass::Comment, i)),
        TokenizerState::Asterisk => if more && src[i] == ASTERISK {
            (TokenKind::DoubleAsterisk, i + 1)
        } else {
            (TokenKind::Asterisk, i)
        },
        _ => (TokenKind::Eof, i),
    }
}

/// The kind of a finished token: an identifier that is one underscore and
/// no more has a kind of its own.
spec fn settled_kind(src: Seq<u8>, kind: TokenKind, s: int, e: int) -> TokenKind {
    if kind == TokenKind::Ident && e == s + 1 && src[s] == UNDERSCORE {
        TokenKind::Underscore
    } else {
        kind
    }
}

/// A token that started at the cursor `(s, l, c)` and is in `state` at the
/// cursor `(i, line, column)` is on its way to what `next_token` says.
spec fn on_course(
    src: Seq<u8>,
    state: TokenizerState,
    kind: TokenKind,
    s: int,
    l: int,
    c: int,
    i: int,
    line: int,
    column: int,
) -> bool {
    match state {
        TokenizerState::Start => s == i && l == line && c == column && kind == TokenKind::Eof,
        TokenizerState::Zero => false,
        TokenizerState::String => {
            &&& blank_end(src, s, l, c) == (s, l, c)
            &&& s < i
            &&& src[s] == QUOTE
            &&& string_end(src, i, line, column) == string_end(src, s + 1, l, c + 1)
        },
        _ => {
            &&& blank_end(src, s, l, c) == (s, l, c)
            &&& s < i
            &&& src[s] != QUOTE
            &&& kind == state_kind(state)
            &&& line == l
            &&& column == c + (i - s)
            &&& state is Slash ==> i == s + 1
            &&& plain_token(src, s) == Some(outcome_from(src, state, s, i))
        },
    }
}

/// A cursor over a source: the offset of the next byte to read, the number
/// of line breaks behind it and the number of bytes read since the last one.
#[derive(Clone, Copy, Debug, PartialEq, Eq)]
pub struct Tokenizer<'s> {
    pub source: &'s [u8],
    pub index: usize,
    pub line: usize,
    pub column: usize,
}

impl<'s> Tokenizer<'s> {
    /// The cursor lies inside the source, and neither counter has run ahead
    /// of the offset.
    pub open spec fn wf(&self) -> bool {
        &&& self.index <= self.source@.len()
        &&& self.source@.len() < usize::MAX
        &&& self.line <= self.index
        &&& self.column <= self.index
    }

    /// A cursor at the first byte of `source`.
    pub fn new(source: &'s str) -> (t: Self)
        ensures
            t.source@ == source.spec_bytes(),
            t.index == 0,
            t.line == 0,
            t.column == 0,
    {
        Tokenizer { source: source.as_bytes(), index: 0, line: 0, column: 0 }
    }

    /// Scans one token and moves the cursor behind it. At the end of the
    /// input the token is the end marker and the cursor stays there. On an
    /// error the cursor is left where it was.
    pub fn next(&mut self) -> (r: Result<Token, LexError>)
        requires
            old(self).wf(),
        ensures
            final(self).wf(),
            final(self).source == old(self).source,
            match r {
                Ok(t) => next_token(
                    old(self).source@,
                    old(self).index as int,
                    old(self).line as int,
                    old(self).column as int,
                ) == Ok::<(Token, (int, int, int)), LexError>(
                    (t, (final(self).index as int, final(self).line as int, final(self).column as int)),
                ) && (t.kind != TokenKind::Eof ==> old(self).index < final(self).index),
                Err(e) => next_token(
                    old(self).source@,
                    old(self).index as int,
                    old(self).line as int,
                    old(self).column as int,
                ) == Err::<(Token, (int, int, int)), LexError>(e) && *final(self) == *old(self),
            },
    {
        let src = self.source;
        let ghost goal = next_token(src@, self.index as int, self.line as int, self.column as int);
        let ghost origin = blank_end(src@, self.index as int, self.line as int, self.column as int);
        proof {
            lemma_next_token_bounds(src@, self.index as int, self.line as int, self.column as int);
        }
        let mut state = TokenizerState::Start;
        let mut kind = TokenKind::Eof;
        let mut done = false;
        let mut start: usize = self.index;
        let mut first_line: usize = self.line;
        let mut first_column: usize = self.column;
        let mut index: usize = self.index;
        let mut line: usize = self.line;
        let mut column: usize = self.column;
        while !done && index < src.len()
            invariant
                src@.len() < usize::MAX,
                start <= index <= src@.len(),
                first_line <= start,
                first_column <= start,
                line <= index,
                column <= index,
                goal == next_token(
                    src@,
                    old(self).index as int,
                    old(self).line as int,
                    old(self).column as int,
                ),
                origin == blank_end(src@, start as int, first_line as int, first_column as int),
                origin == blank_end(
                    src@,
                    old(self).index as int,
                    old(self).line as int,
                    old(self).column as int,
                ),
                *self == *old(self),
                old(self).wf(),
                src@ == old(self).source@,
                !done ==> on_course(
                    src@,
                    state,
                    kind,
                    start as int,
                    first_line as int,
                    first_column as int,
                    index as int,
                    line as int,
                    column as int,
                ),
                done ==> start < index && goal == Ok::<(Token, (int, int, int)), LexError>(
                    (
                        token_at(
                            settled_kind(src@, kind, start as int, index as int),
                            start as int,
                            index as int,
                            first_line as int,
                            first_column as int,
                        ),
                        (index as int, line as int, column as int),
                    ),
                ),
            decreases src@.len() - index, if done { 0int } else { 1int },
        {
            let byte = src[index];
            let step = transition(state, byte, index - start);
            match step.action {
                Action::Reject => {
                    return Err(
                        LexError::InvalidCharacter {
                            byte,
                            offset: index,
                            line: line + 1,
                            column: column + 1,
                        },
                    );
                },
                Action::Stop => {
                    done = true;
                },
                Action::Skip => {
                    if byte == NEWLINE {
                        line += 1;
                        column = 0;
                    } else {
                        column += 1;
                    }
                    index += 1;
                    start = index;
                    first_line = line;
                    first_column = column;
                },
                Action::Consume => {
                    if byte == NEWLINE {
                        line += 1;
                        column = 0;
                    } else {
                        column += 1;
                    }
                    index += 1;
                    state = step.state;
                    kind = step.kind;
                },
                Action::ConsumePair => {
                    if src.len() - index < 2 {
                        return Err(
                            LexError::UnterminatedString {
                                offset: start,
                                line: first_line + 1,
                                column: first_column + 1,
                            },
                        );
                    }
                    index += 2;
                    column += 2;
                },
                Action::Accept => {
                    index += 1;
                    column += 1;
                    kind = step.kind;
                    done = true;
                },
            }
        }
        if !done && state == TokenizerState::String {
            return Err(
                LexError::UnterminatedString {
                    offset: start,
                    line: first_line + 1,
                    column: first_column + 1,
                },
            );
        }
        if kind == TokenKind::Ident && index - start == 1 && src[start] == UNDERSCORE {
            kind = TokenKind::Underscore;
        }
        self.index = index;
        self.line = line;
        self.column = column;
        Ok(Token { kind, start, end: index, column: first_column + 1, line: first_line + 1 })
    }
}

/// What follows when the tokens `done` have been scanned and the rest of the
/// scan yields `rest`.
spec fn followed_by(done: Seq<Token>, rest: Result<Seq<Token>, LexError>) -> Result<
    Seq<Token>,
    LexError,
> {
    match rest {
        Ok(more) => Ok(done + more),
        Err(e) => Err(e),
    }
}

/// Splits `source` into its tokens, the end marker last. The result is the
/// whole sequence or the first error; no part of a sequence is handed out.
///
/// The source has to be shorter than `usize::MAX` bytes, so that the line
/// number behind its last byte fits; every string that is held in memory
/// is.
pub fn tokenize(source: &str) -> (r: Result<Vec<Token>, LexError>)
    requires
        source.spec_bytes().len() < usize::MAX,
    ensures
        match r {
            Ok(tokens) => tokenization(source.spec_bytes()) == Ok::<Seq<Token>, LexError>(tokens@),
            Err(e) => tokenization(source.spec_bytes()) == Err::<Seq<Token>, LexError>(e),
        },
        r matches Ok(tokens) ==> tokens_cover(source.spec_bytes(), tokens@, 0),
{
    let mut tokenizer = Tokenizer::new(source);
    let mut tokens: Vec<Token> = Vec::new();
    let ghost src = source.spec_bytes();
    proof {
        lemma_tokens_from_cover(src, 0, 0, 0);
    }
    assert(followed_by(tokens@, tokens_from(src, 0, 0, 0)) == tokens_from(src, 0, 0, 0)) by {
        match tokens_from(src, 0, 0, 0) {
            Ok(more) => {
                assert(tokens@ + more =~= more);
            },
            Err(_) => {},
        }
    }
    loop
        invariant
            tokenizer.wf(),
            src == source.spec_bytes(),
            tokenization(src) matches Ok(all) ==> tokens_cover(src, all, 0),
            tokenizer.source@ == src,
            tokenization(src) == followed_by(
                tokens@,
                tokens_from(
                    src,
                    tokenizer.index as int,
                    tokenizer.line as int,
                    tokenizer.column as int,
                ),
            ),
        decreases src.len() - tokenizer.index,
    {
        let ghost done = tokens@;
        let ghost before = (tokenizer.index as int, tokenizer.line as int, tokenizer.column as int);
        match tokenizer.next() {
            Err(e) => {
                assert(tokens_from(src, before.0, before.1, before.2) == Err::<
                    Seq<Token>,
                    LexError,
                >(e));
                return Err(e);
            },
            Ok(token) => {
                tokens.push(token);
                if token.kind == TokenKind::Eof {
                    proof {
                        assert(tokens_from(src, before.0, before.1, before.2) == Ok::<
                            Seq<Token>,
                            LexError,
                        >(seq![token]));
                        assert(done + seq![token] =~= tokens@);
                    }
                    return Ok(tokens);
                }
                proof {
                    assert(tokens_from(src, before.0, before.1, before.2) == followed_by(
                        seq![token],
                        tokens_from(
                            src,
                            tokenizer.index as int,
                            tokenizer.line as int,
                            tokenizer.column as int,
                        ),
                    ));
                    match tokens_from(
                        src,
                        tokenizer.index as int,
                        tokenizer.line as int,
                        tokenizer.column as int,
                    ) {
                        Ok(more) => {
                            assert(done + (seq![token] + more) =~= tokens@ + more);
                        },
                        Err(_) => {},
                    }
                }
            },
        }
    }
}

} // verus!
