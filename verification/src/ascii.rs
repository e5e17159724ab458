//! The ASCII bytes that the lexer tells apart, by name.

use vstd::prelude::*;

verus! {

pub const LOWER_A: u8 = 0x61;
pub const LOWER_Z: u8 = 0x7a;
pub const UPPER_A: u8 = 0x41;
pub const UPPER_Z: u8 = 0x5a;
pub const DIGIT_0: u8 = 0x30;
pub const DIGIT_9: u8 = 0x39;
pub const UNDERSCORE: u8 = 0x5f;
pub const SPACE: u8 = 0x20;
pub const NEWLINE: u8 = 0x0a;
pub const LBRACE: u8 = 0x7b;
pub const RBRACE: u8 = 0x7d;
pub const LPAREN: u8 = 0x28;
pub const RPAREN: u8 = 0x29;
pub const COMMA: u8 = 0x2c;
pub const SEMICOLON: u8 = 0x3b;
pub const CARET: u8 = 0x5e;
pub const COLON: u8 = 0x3a;
pub const PERIOD: u8 = 0x2e;
pub const AT: u8 = 0x40;
pub const BANG: u8 = 0x21;
pub const DOLLAR: u8 = 0x24;
pub const PIPE: u8 = 0x7c;
pub const QUESTION: u8 = 0x3f;
pub const TILDE: u8 = 0x7e;
pub const HASH: u8 = 0x23;
pub const PLUS: u8 = 0x2b;
pub const GREATER: u8 = 0x3e;
pub const LESS: u8 = 0x3c;
pub const EQUAL: u8 = 0x3d;
pub const QUOTE: u8 = 0x22;
pub const BACKSLASH: u8 = 0x5c;
pub const MINUS: u8 = 0x2d;
pub const SLASH: u8 = 0x2f;
pub const ASTERISK: u8 = 0x2a;

} // verus!
