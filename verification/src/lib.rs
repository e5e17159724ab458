//! A byte-oriented lexer: source text in, a flat sequence of positioned
//! tokens out.
//!
//! `token` holds the data, `model` says over bytes which tokens a source
//! has, `machine` is the transition table, `tokenizer` runs the table and is
//! proved to yield what `model` says, and `laws` and `position` state what
//! holds of every token sequence.

pub mod ascii;
pub mod token;
pub mod model;
pub mod machine;
pub mod tokenizer;
pub mod laws;
pub mod position;
