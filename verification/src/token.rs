//! Tokens, their kinds, and the errors a scan can end in.

use vstd::prelude::*;

verus! {

/// The lexical category of a token.
#[derive(Clone, Copy, Debug, PartialEq, Eq, Structural)]
pub enum TokenKind {
    Eof,
    Ident,
    LineComment,
    DocComment,
    LiteralDecimal,
    LiteralNumber,
    LiteralString,
    LBrace,
    RBrace,
    LParen,
    RParen,
    Comma,
    Semicolon,
    Caret,
    Colon,
    Period,
    Underscore,
    At,
    Bang,
    Dollar,
    Pipe,
    QuestionMark,
    Tilde,
    NumberSign,
    Plus,
    Minus,
    Asterisk,
    DoubleAsterisk,
    Slash,
    GreaterThan,
    LessThan,
    Equal,
}

/// One token: its kind, the half-open byte range `start..end` of its lexeme,
/// and the 1-based line and column of its first byte.
#[derive(Clone, Copy, Debug, PartialEq, Eq, Structural)]
pub struct Token {
    pub kind: TokenKind,
    pub start: usize,
    pub end: usize,
    pub column: usize,
    pub line: usize,
}

/// Why a scan stopped without a token. `offset` is the byte offset the
/// failure is reported at; `line` and `column` are its 1-based position.
#[derive(Clone, Copy, Debug, PartialEq, Eq, Structural)]
pub enum LexError {
    /// A token cannot begin with `byte`, which stands at `offset`.
    InvalidCharacter { byte: u8, offset: usize, line: usize, column: usize },
    /// The string literal whose opening quote stands at `offset` is still
    /// open, or in the middle of an escape pair, where the input ends.
    UnterminatedString { offset: usize, line: usize, column: usize },
}

/// The states of a scan for one token. Every scan begins in `Start`; none
/// enters `Zero`.
#[derive(Clone, Copy, Debug, PartialEq, Eq, Structural)]
pub enum TokenizerState {
    Start,
    Ident,
    String,
    Zero,
    Minus,
    Number,
    Decimal,
    Slash,
    LineComment,
    DocComment,
    Asterisk,
}

} // verus!
