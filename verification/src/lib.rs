//! The lexical and syntactic front end of a small statically typed, C-like
//! language: characters become tokens, and tokens become a syntax tree.
//!
//! - [`chars`]: character classes and decimal numerals.
//! - [`token`]: the lexical categories and their printable form.
//! - [`matcher`]: one small automaton for each lexical category.
//! - [`languages`]: which texts each automaton accepts.
//! - [`munch`]: longest match over all automata at once.
//! - [`order`]: which automaton decides when several could.
//! - [`lexer`]: the tokenizer.
//! - [`laws`]: what holds of every tokenization.
//! - [`ast`]: the syntax tree and its visitors.
//! - [`grammar`]: the grammar, over sequences of tokens.
//! - [`mismatches`]: what holds of every syntax error.
//! - [`parser`]: the parser.

pub mod ast;
pub mod chars;
pub mod grammar;
pub mod languages;
pub mod laws;
pub mod lexer;
pub mod matcher;
pub mod mismatches;
pub mod munch;
pub mod order;
pub mod parser;
pub mod token;
