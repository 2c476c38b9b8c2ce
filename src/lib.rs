//! Lexical front end: turns source text into classified, located tokens.

pub mod buffer;
pub mod punct;
pub mod ident;
pub mod token;
pub mod scan;
pub mod assemble;
pub mod tokenizer;
