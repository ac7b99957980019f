//! Lexical analysis for a small scripting language: a scanner that turns
//! source text into classified tokens, with position-aware diagnostics.
pub mod error;
pub mod text;
pub mod token;
pub mod lexer;
pub mod properties;
