//! Lexical analysis for a line-numbered, BASIC-style language.
//!
//! One line of source text is turned into its numeric label and an ordered
//! sequence of classified tokens, each tagged with the character offset at
//! which its recognition began. Tokenization is a pure function of the line:
//! it keeps no state between calls and performs no I/O.

pub mod lexer;
pub mod text;
pub mod token;

pub use lexer::tokenize_line;
pub use lexer::LineOfCode;
pub use lexer::TokenizeError;
pub use text::is_valid_identifier;
pub use token::LineNumber;
pub use token::Token;
pub use token::TokenAndPos;
