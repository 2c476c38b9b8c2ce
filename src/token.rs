//! Tokens: a kind, the exact source text, a location and positional flags.

use std::rc::Rc;
use vstd::prelude::*;
use crate::punct::Punct;

verus! {

/// Set on a token that whitespace, a comment or a line start precedes.
pub const WS_BEFORE: u32 = 1;

/// Set on the last token of a logical line.
pub const LF_AFTER: u32 = 2;

/// Set on the first token of a logical line.
pub const IS_AT_BOL: u32 = 4;

/// The lowest flag value of the range that later phases use for per-identifier ids.
pub const USER_DEFINED_ID_BEGIN_UID: u32 = 8;

#[derive(PartialEq, Eq, Structural, Clone, Copy, Debug)]
pub enum TokenKind {
    Ident,
    Number,
    Str,
    Char,
    Punct(Punct),
    Eof,
    Error,
    /// Whitespace or a block comment; never in an assembled sequence.
    Ws,
    /// A line feed or a line comment; never in an assembled sequence.
    Lf,
    /// A retained comment; the scanner does not produce it.
    Comment,
}

/// Markers that the line assembler consumes.
pub open spec fn is_marker(k: TokenKind) -> bool {
    k == TokenKind::Ws || k == TokenKind::Lf
}

/// Kinds whose text is empty: the markers and the end of input.
pub open spec fn has_no_text(k: TokenKind) -> bool {
    is_marker(k) || k == TokenKind::Eof
}

#[derive(PartialEq, Eq, Structural, Clone, Copy, Debug)]
pub enum LexError {
    /// A line comment that no line feed ends.
    UnterminatedLineComment,
    /// A block comment without its closing `*/`.
    UnterminatedBlockComment,
    /// A string or character literal without its closing quote.
    UnterminatedLiteral,
    /// An operator-start byte that the punctuation table knows at no length.
    UnknownOperator,
}

/// File name, 1-based line and 1-based column.
#[derive(Clone, Debug)]
pub struct SourceLoc {
    pub file: Rc<String>,
    pub line: usize,
    pub column: usize,
}

#[derive(Clone, Debug)]
pub struct Token {
    pub kind: TokenKind,
    /// The exact source text; escapes stay as written.
    pub text: Vec<u8>,
    pub loc: SourceLoc,
    pub flags: u32,
    /// For an identifier, the index of its entry in the identifier table.
    pub ident: Option<usize>,
}

impl Token {
    pub fn is(&self, k: TokenKind) -> (r: bool)
        ensures
            r == (self.kind == k),
    {
        self.kind == k
    }

    pub fn has_flag(&self, f: u32) -> (r: bool)
        ensures
            r == (self.flags & f != 0),
    {
        self.flags & f != 0
    }
}

} // verus!
