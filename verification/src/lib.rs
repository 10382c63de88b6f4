//! A lexical scanner for a small scripting language.
//!
//! Source text is held as a sequence of characters; the scanner walks it
//! once, left to right, and classifies each lexeme. Every executable
//! function is specified against the mathematical model in [`grammar`].

pub mod grammar;
pub mod scanner;
pub mod text;
pub mod types;
