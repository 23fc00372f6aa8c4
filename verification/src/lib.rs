//! Lexical-analysis front end for a small programming language.
//!
//! The crate turns raw source text into a sequence of classified, positioned
//! tokens.  `lexer` holds the tokenizer and its data model, `grammar` the
//! mathematical model of the token grammar that the tokenizer is verified
//! against, `render` the display forms of tokens and diagnostics, `laws` the
//! proved properties of the whole, and `utils` the offset-to-line/column
//! resolver used for diagnostics.  Offsets and spans count characters, which
//! for the assumed ASCII source coincide with bytes.

pub mod grammar;
pub mod lexer;
pub mod render;
pub mod utils;
pub mod laws;
