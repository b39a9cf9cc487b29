//! A longest-match scanner for a small fixed operator alphabet.
pub mod grammar;
pub mod scanner;
pub mod token;

pub use scanner::Lexer;
pub use token::Token;
