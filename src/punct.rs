//! The punctuation table: spellings of one to four bytes and the operator each one names,
//! and the byte classes that the scanner dispatches on.

use vstd::prelude::*;

verus! {

#[derive(PartialEq, Eq, Structural, Clone, Copy, Debug)]
pub enum Punct {
    LParen,
    RParen,
    LBracket,
    RBracket,
    LBrace,
    RBrace,
    Semicolon,
    Comma,
    Dot,
    Colon,
    Question,
    Tilde,
    Bang,
    Assign,
    Lt,
    Gt,
    Plus,
    Minus,
    Star,
    Slash,
    Percent,
    Amp,
    Pipe,
    Caret,
    Hash,
    At,
    Dollar,
    EqEq,
    Ne,
    Le,
    Ge,
    Shl,
    Shr,
    AndAnd,
    OrOr,
    PlusPlus,
    MinusMinus,
    PlusAssign,
    MinusAssign,
    StarAssign,
    SlashAssign,
    PercentAssign,
    AmpAssign,
    PipeAssign,
    CaretAssign,
    Arrow,
    FatArrow,
    PathSep,
    DotDot,
    HashHash,
    ShlAssign,
    ShrAssign,
    Ellipsis,
    DotDotEq,
    Ushr,
    UshrAssign,
}

/// The one-byte entries of the table.
pub open spec fn punct1(a: u8) -> Option<Punct> {
    match a {
        40u8 => Some(Punct::LParen), // (
        41u8 => Some(Punct::RParen), // )
        91u8 => Some(Punct::LBracket), // [
        93u8 => Some(Punct::RBracket), // ]
        123u8 => Some(Punct::LBrace), // {
        125u8 => Some(Punct::RBrace), // }
        59u8 => Some(Punct::Semicolon), // ;
        44u8 => Some(Punct::Comma), // ,
        46u8 => Some(Punct::Dot), // .
        58u8 => Some(Punct::Colon), // :
        63u8 => Some(Punct::Question), // ?
        126u8 => Some(Punct::Tilde), // ~
        33u8 => Some(Punct::Bang), // !
        61u8 => Some(Punct::Assign), // =
        60u8 => Some(Punct::Lt), // <
        62u8 => Some(Punct::Gt), // >
        43u8 => Some(Punct::Plus), // +
        45u8 => Some(Punct::Minus), // -
        42u8 => Some(Punct::Star), // *
        47u8 => Some(Punct::Slash), // /
        37u8 => Some(Punct::Percent), // %
        38u8 => Some(Punct::Amp), // &
        124u8 => Some(Punct::Pipe), // |
        94u8 => Some(Punct::Caret), // ^
        35u8 => Some(Punct::Hash), // #
        64u8 => Some(Punct::At), // @
        36u8 => Some(Punct::Dollar), // $
        _ => None,
    }
}

/// The two-byte entries of the table.
pub open spec fn punct2(a: u8, b: u8) -> Option<Punct> {
    match (a, b) {
        (61u8, 61u8) => Some(Punct::EqEq), // ==
        (33u8, 61u8) => Some(Punct::Ne), // !=
        (60u8, 61u8) => Some(Punct::Le), // <=
        (62u8, 61u8) => Some(Punct::Ge), // >=
        (60u8, 60u8) => Some(Punct::Shl), // <<
        (62u8, 62u8) => Some(Punct::Shr), // >>
        (38u8, 38u8) => Some(Punct::AndAnd), // &&
        (124u8, 124u8) => Some(Punct::OrOr), // ||
        (43u8, 43u8) => Some(Punct::PlusPlus), // ++
        (45u8, 45u8) => Some(Punct::MinusMinus), // --
        (43u8, 61u8) => Some(Punct::PlusAssign), // +=
        (45u8, 61u8) => Some(Punct::MinusAssign), // -=
        (42u8, 61u8) => Some(Punct::StarAssign), // *=
        (47u8, 61u8) => Some(Punct::SlashAssign), // /=
        (37u8, 61u8) => Some(Punct::PercentAssign), // %=
        (38u8, 61u8) => Some(Punct::AmpAssign), // &=
        (124u8, 61u8) => Some(Punct::PipeAssign), // |=
        (94u8, 61u8) => Some(Punct::CaretAssign), // ^=
        (45u8, 62u8) => Some(Punct::Arrow), // ->
        (61u8, 62u8) => Some(Punct::FatArrow), // =>
        (58u8, 58u8) => Some(Punct::PathSep), // ::
        (46u8, 46u8) => Some(Punct::DotDot), // ..
        (35u8, 35u8) => Some(Punct::HashHash), // ##
        _ => None,
    }
}

/// The three-byte entries of the table.
pub open spec fn punct3(a: u8, b: u8, c: u8) -> Option<Punct> {
    match (a, b, c) {
        (60u8, 60u8, 61u8) => Some(Punct::ShlAssign), // <<=
        (62u8, 62u8, 61u8) => Some(Punct::ShrAssign), // >>=
        (46u8, 46u8, 46u8) => Some(Punct::Ellipsis), // ...
        (46u8, 46u8, 61u8) => Some(Punct::DotDotEq), // ..=
        (62u8, 62u8, 62u8) => Some(Punct::Ushr), // >>>
        _ => None,
    }
}

/// The four-byte entries of the table.
pub open spec fn punct4(a: u8, b: u8, c: u8, d: u8) -> Option<Punct> {
    match (a, b, c, d) {
        (62u8, 62u8, 62u8, 61u8) => Some(Punct::UshrAssign), // >>>=
        _ => None,
    }
}

/// The table as one mapping from exact spellings to operators.
pub open spec fn punct_of(s: Seq<u8>) -> Option<Punct> {
    if s.len() == 1 {
        punct1(s[0])
    } else if s.len() == 2 {
        punct2(s[0], s[1])
    } else if s.len() == 3 {
        punct3(s[0], s[1], s[2])
    } else if s.len() == 4 {
        punct4(s[0], s[1], s[2], s[3])
    } else {
        None
    }
}

/// ASCII letters (a-z, A-Z) and the underscore: the bytes that start an identifier.
pub open spec fn is_letter(c: u8) -> bool {
    (97 <= c <= 122) || (65 <= c <= 90) || c == 95
}

/// ASCII decimal digits 0-9.
pub open spec fn is_digit(c: u8) -> bool {
    48 <= c <= 57
}

/// The bytes that may start an operator of more than one byte.
pub open spec fn is_op_start(c: u8) -> bool {
    // ! # % & * + - . / : < = > ^ |
    c == 33 || c == 35 || c == 37 || c == 38 || c == 42 || c == 43 || c == 45 || c == 46 || c == 47
        || c == 58 || c == 60 || c == 61 || c == 62 || c == 94 || c == 124
}

pub fn letter(c: u8) -> (r: bool)
    ensures
        r == is_letter(c),
{
    (97 <= c && c <= 122) || (65 <= c && c <= 90) || c == 95
}

pub fn digit(c: u8) -> (r: bool)
    ensures
        r == is_digit(c),
{
    48 <= c && c <= 57
}

pub fn op_start(c: u8) -> (r: bool)
    ensures
        r == is_op_start(c),
{
    // ! # % & * + - . / : < = > ^ |
    c == 33 || c == 35 || c == 37 || c == 38 || c == 42 || c == 43 || c == 45 || c == 46 || c == 47
        || c == 58 || c == 60 || c == 61 || c == 62 || c == 94 || c == 124
}

/// Looks up a one-byte spelling.
pub fn lookup_byte(a: u8) -> (r: Option<Punct>)
    ensures
        r == punct1(a),
{
    match a {
        40u8 => Some(Punct::LParen), // (
        41u8 => Some(Punct::RParen), // )
        91u8 => Some(Punct::LBracket), // [
        93u8 => Some(Punct::RBracket), // ]
        123u8 => Some(Punct::LBrace), // {
        125u8 => Some(Punct::RBrace), // }
        59u8 => Some(Punct::Semicolon), // ;
        44u8 => Some(Punct::Comma), // ,
        46u8 => Some(Punct::Dot), // .
        58u8 => Some(Punct::Colon), // :
        63u8 => Some(Punct::Question), // ?
        126u8 => Some(Punct::Tilde), // ~
        33u8 => Some(Punct::Bang), // !
        61u8 => Some(Punct::Assign), // =
        60u8 => Some(Punct::Lt), // <
        62u8 => Some(Punct::Gt), // >
        43u8 => Some(Punct::Plus), // +
        45u8 => Some(Punct::Minus), // -
        42u8 => Some(Punct::Star), // *
        47u8 => Some(Punct::Slash), // /
        37u8 => Some(Punct::Percent), // %
        38u8 => Some(Punct::Amp), // &
        124u8 => Some(Punct::Pipe), // |
        94u8 => Some(Punct::Caret), // ^
        35u8 => Some(Punct::Hash), // #
        64u8 => Some(Punct::At), // @
        36u8 => Some(Punct::Dollar), // $
        _ => None,
    }
}

/// Looks up a two-byte spelling.
fn lookup2(a: u8, b: u8) -> (r: Option<Punct>)
    ensures
        r == punct2(a, b),
{
    match (a, b) {
        (61u8, 61u8) => Some(Punct::EqEq), // ==
        (33u8, 61u8) => Some(Punct::Ne), // !=
        (60u8, 61u8) => Some(Punct::Le), // <=
        (62u8, 61u8) => Some(Punct::Ge), // >=
        (60u8, 60u8) => Some(Punct::Shl), // <<
        (62u8, 62u8) => Some(Punct::Shr), // >>
        (38u8, 38u8) => Some(Punct::AndAnd), // &&
        (124u8, 124u8) => Some(Punct::OrOr), // ||
        (43u8, 43u8) => Some(Punct::PlusPlus), // ++
        (45u8, 45u8) => Some(Punct::MinusMinus), // --
        (43u8, 61u8) => Some(Punct::PlusAssign), // +=
        (45u8, 61u8) => Some(Punct::MinusAssign), // -=
        (42u8, 61u8) => Some(Punct::StarAssign), // *=
        (47u8, 61u8) => Some(Punct::SlashAssign), // /=
        (37u8, 61u8) => Some(Punct::PercentAssign), // %=
        (38u8, 61u8) => Some(Punct::AmpAssign), // &=
        (124u8, 61u8) => Some(Punct::PipeAssign), // |=
        (94u8, 61u8) => Some(Punct::CaretAssign), // ^=
        (45u8, 62u8) => Some(Punct::Arrow), // ->
        (61u8, 62u8) => Some(Punct::FatArrow), // =>
        (58u8, 58u8) => Some(Punct::PathSep), // ::
        (46u8, 46u8) => Some(Punct::DotDot), // ..
        (35u8, 35u8) => Some(Punct::HashHash), // ##
        _ => None,
    }
}

/// Looks up a three-byte spelling.
fn lookup3(a: u8, b: u8, c: u8) -> (r: Option<Punct>)
    ensures
        r == punct3(a, b, c),
{
    match (a, b, c) {
        (60u8, 60u8, 61u8) => Some(Punct::ShlAssign), // <<=
        (62u8, 62u8, 61u8) => Some(Punct::ShrAssign), // >>=
        (46u8, 46u8, 46u8) => Some(Punct::Ellipsis), // ...
        (46u8, 46u8, 61u8) => Some(Punct::DotDotEq), // ..=
        (62u8, 62u8, 62u8) => Some(Punct::Ushr), // >>>
        _ => None,
    }
}

/// Looks up a four-byte spelling.
fn lookup4(a: u8, b: u8, c: u8, d: u8) -> (r: Option<Punct>)
    ensures
        r == punct4(a, b, c, d),
{
    match (a, b, c, d) {
        (62u8, 62u8, 62u8, 61u8) => Some(Punct::UshrAssign), // >>>=
        _ => None,
    }
}

/// Looks up the spelling held in the `k` bytes of `s` that start at `from`.
pub fn lookup_at(s: &[u8], from: usize, k: usize) -> (r: Option<Punct>)
    requires
        1 <= k <= 4,
        from + k <= s@.len(),
    ensures
        r == punct_of(s@.subrange(from as int, from + k)),
{
    if k == 1 {
        lookup_byte(s[from])
    } else if k == 2 {
        lookup2(s[from], s[from + 1])
    } else if k == 3 {
        lookup3(s[from], s[from + 1], s[from + 2])
    } else {
        lookup4(s[from], s[from + 1], s[from + 2], s[from + 3])
    }
}


} // verus!
