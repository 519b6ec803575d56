//! A lexical analyzer for a small subset of C. It splits source text into
//! keywords, identifiers, numbers, string literals, operators, punctuation,
//! whitespace and comments, keeping every character: the tokens' texts joined
//! in order give back the input.
//!
//! At each offset every rule of a fixed table is matched against the text that
//! starts there. The longest match wins; among equally long matches, the rule
//! declared first wins, which is what makes `int` a keyword rather than an
//! identifier. Where no rule matches, tokenizing fails as a whole.

pub mod lexer;
pub mod rules;
pub mod token;

pub use lexer::lex_c_code;
pub use rules::{Rule, RULE_COUNT};
pub use token::{LexError, Token, TokenKind};
