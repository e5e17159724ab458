//! The transition table of the scanner: what it does with one byte in one
//! state.

use vstd::prelude::*;
use crate::ascii::{
    ASTERISK, AT, BACKSLASH, BANG, CARET, COLON, COMMA, DIGIT_0, DIGIT_9, DOLLAR, EQUAL, GREATER,
    HASH, LBRACE, LESS, LOWER_A, LOWER_Z, LPAREN, MINUS, NEWLINE, PERIOD, PIPE, PLUS, QUESTION,
    QUOTE, RBRACE, RPAREN, SEMICOLON, SLASH, SPACE, TILDE, UNDERSCORE, UPPER_A, UPPER_Z,
};
use crate::model::{is_digit, is_ident_byte, is_ident_start, single_kind};
use crate::token::{TokenKind, TokenizerState};

verus! {

/// What the scanner does with the byte under the cursor.
#[derive(Clone, Copy, Debug, PartialEq, Eq, Structural)]
pub enum Action {
    /// Pass over the byte; the token starts behind it.
    Skip,
    /// Take the byte into the token and go on.
    Consume,
    /// Take the byte and the one behind it into the token and go on.
    ConsumePair,
    /// Take the byte into the token, which ends with it.
    Accept,
    /// End the token before the byte.
    Stop,
    /// No token begins with the byte.
    Reject,
}

/// One entry of the table: what to do, the state to go on in, and the kind
/// that the token then has.
#[derive(Clone, Copy, Debug, PartialEq, Eq, Structural)]
pub struct Transition {
    pub action: Action,
    pub state: TokenizerState,
    pub kind: TokenKind,
}

/// The kind of a token that ends in `state` without a further byte.
pub open spec fn state_kind(state: TokenizerState) -> TokenKind {
    match state {
        TokenizerState::Start => TokenKind::Eof,
        TokenizerState::Ident => TokenKind::Ident,
        TokenizerState::String => TokenKind::LiteralString,
        TokenizerState::Zero => TokenKind::Eof,
        TokenizerState::Minus => TokenKind::Minus,
        TokenizerState::Number => TokenKind::LiteralNumber,
        TokenizerState::Decimal => TokenKind::LiteralDecimal,
        TokenizerState::Slash => TokenKind::Slash,
        TokenizerState::LineComment => TokenKind::LineComment,
        TokenizerState::DocComment => TokenKind::DocComment,
        TokenizerState::Asterisk => TokenKind::Asterisk,
    }
}

/// The entry in which the token stays in `state`.
pub open spec fn stay(action: Action, state: TokenizerState) -> Transition {
    Transition { action, state, kind: state_kind(state) }
}

/// The entry for `state` and the byte `c`, where the token holds `taken`
/// bytes so far. `taken` tells the third slash of a documentation comment
/// from a later slash in a line comment. No scan enters `Zero`, and the
/// table rejects every byte there.
pub open spec fn transition_of(state: TokenizerState, c: u8, taken: int) -> Transition {
    match state {
        TokenizerState::Start => {
            if c == SPACE || c == NEWLINE {
                stay(Action::Skip, TokenizerState::Start)
            } else if is_ident_start(c) {
                stay(Action::Consume, TokenizerState::Ident)
            } else if is_digit(c) {
                stay(Action::Consume, TokenizerState::Number)
            } else if c == SLASH {
                stay(Action::Consume, TokenizerState::Slash)
            } else if c == QUOTE {
                stay(Action::Consume, TokenizerState::String)
            } else if c == MINUS {
                stay(Action::Consume, TokenizerState::Minus)
            } else if c == ASTERISK {
                stay(Action::Consume, TokenizerState::Asterisk)
            } else {
                match single_kind(c) {
                    Some(kind) => Transition {
                        action: Action::Accept,
                        state: TokenizerState::Start,
                        kind,
                    },
                    None => stay(Action::Reject, TokenizerState::Start),
                }
            }
        },
        TokenizerState::Ident => {
            if is_ident_byte(c) {
                stay(Action::Consume, TokenizerState::Ident)
            } else {
                stay(Action::Stop, TokenizerState::Ident)
            }
        },
        TokenizerState::Minus => {
            if is_digit(c) {
                stay(Action::Consume, TokenizerState::Number)
            } else {
                stay(Action::Stop, TokenizerState::Minus)
            }
        },
        TokenizerState::Zero => stay(Action::Reject, TokenizerState::Zero),
        TokenizerState::Number => {
            if is_digit(c) {
                stay(Action::Consume, TokenizerState::Number)
            } else if c == PERIOD {
                stay(Action::Consume, TokenizerState::Decimal)
            } else {
                stay(Action::Stop, TokenizerState::Number)
            }
        },
        TokenizerState::Decimal => {
            if is_digit(c) {
                stay(Action::Consume, TokenizerState::Decimal)
            } else {
                stay(Action::Stop, TokenizerState::Decimal)
            }
        },
        TokenizerState::String => {
            if c == QUOTE {
                stay(Action::Accept, TokenizerState::String)
            } else if c == BACKSLASH {
                stay(Action::ConsumePair, TokenizerState::String)
            } else {
                stay(Action::Consume, TokenizerState::String)
            }
        },
        TokenizerState::Slash => {
            if c == SLASH {
                stay(Action::Consume, TokenizerState::LineComment)
            } else {
                stay(Action::Stop, TokenizerState::Slash)
            }
        },
        TokenizerState::LineComment => {
            if c == SLASH && taken == 2 {
                stay(Action::Consume, TokenizerState::DocComment)
            } else if c == NEWLINE {
                stay(Action::Stop, TokenizerState::LineComment)
            } else {
                stay(Action::Consume, TokenizerState::LineComment)
            }
        },
        TokenizerState::DocComment => {
            if c == NEWLINE {
                stay(Action::Stop, TokenizerState::DocComment)
            } else {
                stay(Action::Consume, TokenizerState::DocComment)
            }
        },
        TokenizerState::Asterisk => {
            if c == ASTERISK {
                Transition {
                    action: Action::Accept,
                    state: TokenizerState::Asterisk,
                    kind: TokenKind::DoubleAsterisk,
                }
            } else {
                stay(Action::Stop, TokenizerState::Asterisk)
            }
        },
    }
}

/// Tells whether `c` is a decimal digit.
pub fn digit(c: u8) -> (r: bool)
    ensures
        r == is_digit(c),
{
    DIGIT_0 <= c && c <= DIGIT_9
}

/// Tells whether an identifier can begin with `c`.
pub fn ident_start(c: u8) -> (r: bool)
    ensures
        r == is_ident_start(c),
{
    (LOWER_A <= c && c <= LOWER_Z) || (UPPER_A <= c && c <= UPPER_Z) || c == UNDERSCORE
}

/// The kind of the one-byte token `c`, if it is one.
pub fn punctuation(c: u8) -> (r: Option<TokenKind>)
    ensures
        r == single_kind(c),
{
    if c == LBRACE {
        Some(TokenKind::LBrace)
    } else if c == RBRACE {
        Some(TokenKind::RBrace)
    } else if c == LPAREN {
        Some(TokenKind::LParen)
    } else if c == RPAREN {
        Some(TokenKind::RParen)
    } else if c == COMMA {
        Some(TokenKind::Comma)
    } else if c == SEMICOLON {
        Some(TokenKind::Semicolon)
    } else if c == CARET {
        Some(TokenKind::Caret)
    } else if c == COLON {
        Some(TokenKind::Colon)
    } else if c == PERIOD {
        Some(TokenKind::Period)
    } else if c == AT {
        Some(TokenKind::At)
    } else if c == BANG {
        Some(TokenKind::Bang)
    } else if c == DOLLAR {
        Some(TokenKind::Dollar)
    } else if c == PIPE {
        Some(TokenKind::Pipe)
    } else if c == QUESTION {
        Some(TokenKind::QuestionMark)
    } else if c == TILDE {
        Some(TokenKind::Tilde)
    } else if c == HASH {
        Some(TokenKind::NumberSign)
    } else if c == PLUS {
        Some(TokenKind::Plus)
    } else if c == GREATER {
        Some(TokenKind::GreaterThan)
    } else if c == LESS {
        Some(TokenKind::LessThan)
    } else if c == EQUAL {
        Some(TokenKind::Equal)
    } else {
        None
    }
}

/// The token stays in, or goes over to, `state`.
fn go(action: Action, state: TokenizerState) -> (t: Transition)
    ensures
        t == stay(action, state),
{
    let kind = match state {
        TokenizerState::Start => TokenKind::Eof,
        TokenizerState::Ident => TokenKind::Ident,
        TokenizerState::String => TokenKind::LiteralString,
        TokenizerState::Zero => TokenKind::Eof,
        TokenizerState::Minus => TokenKind::Minus,
        TokenizerState::Number => TokenKind::LiteralNumber,
        TokenizerState::Decimal => TokenKind::LiteralDecimal,
        TokenizerState::Slash => TokenKind::Slash,
        TokenizerState::LineComment => TokenKind::LineComment,
        TokenizerState::DocComment => TokenKind::DocComment,
        TokenizerState::Asterisk => TokenKind::Asterisk,
    };
    Transition { action, state, kind }
}

/// Looks up the entry for `state` and the byte `c` of a token that holds
/// `taken` bytes so far.
pub fn transition(state: TokenizerState, c: u8, taken: usize) -> (t: Transition)
    ensures
        t == transition_of(state, c, taken as int),
{
    match state {
        TokenizerState::Start => {
            if c == SPACE || c == NEWLINE {
                go(Action::Skip, TokenizerState::Start)
            } else if ident_start(c) {
                go(Action::Consume, TokenizerState::Ident)
            } else if digit(c) {
                go(Action::Consume, TokenizerState::Number)
            } else if c == SLASH {
                go(Action::Consume, TokenizerState::Slash)
            } else if c == QUOTE {
                go(Action::Consume, TokenizerState::String)
            } else if c == MINUS {
                go(Action::Consume, TokenizerState::Minus)
            } else if c == ASTERISK {
                go(Action::Consume, TokenizerState::Asterisk)
            } else {
                match punctuation(c) {
                    Some(kind) => Transition {
                        action: Action::Accept,
                        state: TokenizerState::Start,
                        kind,
                    },
                    None => go(Action::Reject, TokenizerState::Start),
                }
            }
        },
        TokenizerState::Ident => {
            if ident_start(c) || digit(c) {
                go(Action::Consume, TokenizerState::Ident)
            } else {
                go(Action::Stop, TokenizerState::Ident)
            }
        },
        TokenizerState::Minus => {
            if digit(c) {
                go(Action::Consume, TokenizerState::Number)
            } else {
                go(Action::Stop, TokenizerState::Minus)
            }
        },
        TokenizerState::Zero => go(Action::Reject, TokenizerState::Zero),
        TokenizerState::Number => {
            if digit(c) {
                go(Action::Consume, TokenizerState::Number)
            } else if c == PERIOD {
                go(Action::Consume, TokenizerState::Decimal)
            } else {
                go(Action::Stop, TokenizerState::Number)
            }
        },
        TokenizerState::Decimal => {
            if digit(c) {
                go(Action::Consume, TokenizerState::Decimal)
            } else {
                go(Action::Stop, TokenizerState::Decimal)
            }
        },
        TokenizerState::String => {
            if c == QUOTE {
                go(Action::Accept, TokenizerState::String)
            } else if c == BACKSLASH {
                go(Action::ConsumePair, TokenizerState::String)
            } else {
                go(Action::Consume, TokenizerState::String)
            }
        },
        TokenizerState::Slash => {
            if c == SLASH {
                go(Action::Consume, TokenizerState::LineComment)
            } else {
                go(Action::Stop, TokenizerState::Slash)
            }
        },
        TokenizerState::LineComment => {
            if c == SLASH && taken == 2 {
                go(Action::Consume, TokenizerState::DocComment)
            } else if c == NEWLINE {
                go(Action::Stop, TokenizerState::LineComment)
            } else {
                go(Action::Consume, TokenizerState::LineComment)
            }
        },
        TokenizerState::DocComment => {
            if c == NEWLINE {
                go(Action::Stop, TokenizerState::DocComment)
            } else {
                go(Action::Consume, TokenizerState::DocComment)
            }
        },
        TokenizerState::Asterisk => {
            if c == ASTERISK {
                Transition {
                    action: Action::Accept,
                    state: TokenizerState::Asterisk,
                    kind: TokenKind::DoubleAsterisk,
                }
            } else {
                go(Action::Stop, TokenizerState::Asterisk)
            }
        },
    }
}

} // verus!
