//! A lexical scanner for a small, dynamically typed scripting language.
//!
//! The scanner turns source text into a sequence of classified tokens, each
//! with its place in the text. The module `grammar` says, as mathematical
//! functions over sequences of characters, what that sequence is; the module
//! `lexer` computes it; the module `laws` proves what holds of every scan.

pub mod config;
pub mod grammar;
pub mod laws;
pub mod lexer;
pub mod tokens;

pub use config::{run, Config, Session};
pub use lexer::Lexer;
pub use tokens::{LexerError, LexerErrorKind, Position, Token, TokenKind};
