//! What one scanning step makes of the input at a position, as spec functions.

use vstd::prelude::*;
use crate::buffer::{byte_at, cursor_after};
use crate::punct::{is_digit, is_letter, is_op_start, punct1, punct_of};
use crate::token::{has_no_text, LexError, TokenKind};

verus! {

/// End of the run of letters and digits that starts at `i`.
pub open spec fn ident_end(src: Seq<u8>, i: nat) -> nat
    decreases src.len() - i,
{
    if i < src.len() && (is_letter(src[i as int]) || is_digit(src[i as int])) {
        ident_end(src, i + 1)
    } else {
        i
    }
}

/// `e`, `E`, `p` or `P`.
pub open spec fn is_exponent(c: u8) -> bool {
    c == 101 || c == 69 || c == 112 || c == 80
}

/// `+` or `-`.
pub open spec fn is_sign(c: u8) -> bool {
    c == 43 || c == 45
}

/// End of a numeric literal whose rest starts at `i`: digits; an exponent marker
/// with an optional sign after it; a dot or any letter.
pub open spec fn number_end(src: Seq<u8>, i: nat) -> nat
    decreases src.len() - i,
{
    if i >= src.len() {
        i
    } else if is_digit(src[i as int]) {
        number_end(src, i + 1)
    } else if is_exponent(src[i as int]) {
        if i + 1 < src.len() && is_sign(src[i + 1int]) {
            number_end(src, i + 2)
        } else {
            number_end(src, i + 1)
        }
    } else if src[i as int] == 46 || is_letter(src[i as int]) {
        number_end(src, i + 1)
    } else {
        i
    }
}

/// Position just past the line feed that ends a line comment whose body starts at `i`;
/// none when the input ends (or holds a null byte) first.
pub open spec fn line_comment_end(src: Seq<u8>, i: nat) -> Option<nat>
    decreases src.len() - i,
{
    if i >= src.len() || src[i as int] == 0 {
        None
    } else if src[i as int] == 10 {
        Some(i + 1)
    } else {
        line_comment_end(src, i + 1)
    }
}

/// Position just past the `*/` that closes a block comment, reading from `i`
/// where `prev` is the body byte before `i` (null at the start of the body).
pub open spec fn block_comment_end(src: Seq<u8>, i: nat, prev: u8) -> Option<nat>
    decreases src.len() - i,
{
    if i >= src.len() || src[i as int] == 0 {
        None
    } else if src[i as int] == 47 && prev == 42 {
        Some(i + 1)
    } else {
        block_comment_end(src, i + 1, src[i as int])
    }
}

/// Position just past the quote `q` that closes a literal, reading from `i`;
/// a backslash takes the byte after it along, whatever it is.
pub open spec fn quoted_end(src: Seq<u8>, q: u8, i: nat) -> Option<nat>
    decreases src.len() - i,
{
    if i >= src.len() || src[i as int] == 0 {
        None
    } else if src[i as int] == q {
        Some(i + 1)
    } else if src[i as int] == 92 {
        if i + 1 >= src.len() {
            None
        } else {
            quoted_end(src, q, i + 2)
        }
    } else {
        quoted_end(src, q, i + 1)
    }
}

/// Whether the `k` bytes at `pos` are all input and spell a table entry.
pub open spec fn punct_at(src: Seq<u8>, pos: nat, k: nat) -> bool {
    pos + k <= src.len() && punct_of(src.subrange(pos as int, (pos + k) as int)) is Some
}

/// Length of the longest table entry at `pos`, trying four bytes down to one; zero if none.
pub open spec fn op_len(src: Seq<u8>, pos: nat) -> nat {
    if punct_at(src, pos, 4) {
        4
    } else if punct_at(src, pos, 3) {
        3
    } else if punct_at(src, pos, 2) {
        2
    } else if punct_at(src, pos, 1) {
        1
    } else {
        0
    }
}

/// One scanning step at `pos`: the kind of what was found and the position after it.
/// The branches are tried in order; the first that applies decides.
pub open spec fn scan(src: Seq<u8>, pos: nat) -> Result<(TokenKind, nat), LexError> {
    let c1 = byte_at(src, pos as int);
    let c2 = byte_at(src, pos + 1int);
    if c1 == 0 {
        Ok((TokenKind::Eof, pos))
    } else if c1 == 32 || c1 == 9 {
        Ok((TokenKind::Ws, pos + 1))
    } else if c1 == 10 {
        Ok((TokenKind::Lf, pos + 1))
    } else if c1 == 47 && c2 == 47 {
        match line_comment_end(src, pos + 2) {
            Some(e) => Ok((TokenKind::Lf, e)),
            None => Err(LexError::UnterminatedLineComment),
        }
    } else if c1 == 47 && c2 == 42 {
        match block_comment_end(src, pos + 2, 0) {
            Some(e) => Ok((TokenKind::Ws, e)),
            None => Err(LexError::UnterminatedBlockComment),
        }
    } else if is_letter(c1) {
        Ok((TokenKind::Ident, ident_end(src, pos)))
    } else if is_op_start(c1) {
        let k = op_len(src, pos);
        if k == 0 {
            Err(LexError::UnknownOperator)
        } else {
            Ok((TokenKind::Punct(punct_of(src.subrange(pos as int, (pos + k) as int)).unwrap()), pos + k))
        }
    } else if is_digit(c1) {
        Ok((TokenKind::Number, number_end(src, pos)))
    } else if c1 == 34 || c1 == 39 {
        match quoted_end(src, c1, pos + 1) {
            Some(e) => Ok((if c1 == 34 { TokenKind::Str } else { TokenKind::Char }, e)),
            None => Err(LexError::UnterminatedLiteral),
        }
    } else if punct1(c1) is Some {
        Ok((TokenKind::Punct(punct1(c1).unwrap()), pos + 1))
    } else {
        Ok((TokenKind::Error, pos + 1))
    }
}

/// The text of what was scanned from `pos` to `next`: the consumed bytes, or
/// nothing for a marker and for the end of input.
pub open spec fn text_of(src: Seq<u8>, kind: TokenKind, pos: nat, next: nat) -> Seq<u8> {
    if has_no_text(kind) {
        Seq::empty()
    } else {
        src.subrange(pos as int, next as int)
    }
}

/// Line and column of what was scanned from `pos` to `next`. A literal is placed where
/// its opening quote stands; anything else is placed back from where it ends, by its length.
pub open spec fn loc_of(src: Seq<u8>, kind: TokenKind, pos: nat, next: nat) -> (nat, nat) {
    if kind == TokenKind::Str || kind == TokenKind::Char {
        cursor_after(src, pos + 1)
    } else {
        let end = cursor_after(src, next);
        let len = text_of(src, kind, pos, next).len();
        if end.1 >= len {
            (end.0, (end.1 - len + 1) as nat)
        } else {
            end
        }
    }
}

/// An identifier is a maximal run: every byte of it is a letter or a digit, and the
/// byte after it, if any, is neither.
pub proof fn lemma_ident_is_maximal_run(src: Seq<u8>, pos: nat)
    ensures
        match scan(src, pos) {
            Ok((kind, e)) => kind == TokenKind::Ident ==> {
                &&& pos < e <= src.len()
                &&& forall|i: int| pos <= i < e ==> is_letter(src[i]) || is_digit(src[i])
                &&& e < src.len() ==> !(is_letter(src[e as int]) || is_digit(src[e as int]))
            },
            Err(_) => true,
        },
{
    if pos < src.len() && is_letter(src[pos as int]) {
        lemma_ident_run(src, pos);
    }
}

proof fn lemma_ident_run(src: Seq<u8>, i: nat)
    requires
        i <= src.len(),
    ensures
        i <= ident_end(src, i) <= src.len(),
        forall|j: int| i <= j < ident_end(src, i) ==> is_letter(src[j]) || is_digit(src[j]),
        ident_end(src, i) < src.len() ==> !(is_letter(src[ident_end(src, i) as int]) || is_digit(
            src[ident_end(src, i) as int],
        )),
    decreases src.len() - i,
{
    if i < src.len() && (is_letter(src[i as int]) || is_digit(src[i as int])) {
        lemma_ident_run(src, i + 1);
    }
}

/// Longest match: an operator's spelling is a table entry, and no longer entry of up
/// to four bytes starts where it does.
pub proof fn lemma_longest_match(src: Seq<u8>, pos: nat)
    ensures
        match scan(src, pos) {
            Ok((TokenKind::Punct(p), e)) => {
                &&& pos < e <= src.len()
                &&& punct_of(src.subrange(pos as int, e as int)) == Some(p)
                &&& forall|k: nat| e - pos < k <= 4 ==> !punct_at(src, pos, k)
            },
            _ => true,
        },
{
    let c1 = byte_at(src, pos as int);
    if !is_op_start(c1) && pos < src.len() {
        assert(src.subrange(pos as int, pos + 1int)[0] == c1);
        assert forall|k: nat| 1 < k <= 4 implies !punct_at(src, pos, k) by {
            if pos + k <= src.len() {
                assert(src.subrange(pos as int, (pos + k) as int)[0] == c1);
            }
        }
    }
}

/// A byte that no branch of the scanner claims.
pub open spec fn is_unrecognized(c: u8) -> bool {
    &&& c != 0 && c != 32 && c != 9 && c != 10 && c != 34 && c != 39
    &&& !is_letter(c) && !is_digit(c) && !is_op_start(c)
    &&& punct1(c) is None
}

/// An unrecognized byte is one error token that holds just that byte.
pub proof fn lemma_unrecognized_byte(src: Seq<u8>, pos: nat)
    requires
        pos < src.len(),
        is_unrecognized(src[pos as int]),
    ensures
        scan(src, pos) == Ok::<(TokenKind, nat), LexError>((TokenKind::Error, pos + 1)),
        text_of(src, TokenKind::Error, pos, pos + 1) == seq![src[pos as int]],
{
    assert(src.subrange(pos as int, pos + 1int) =~= seq![src[pos as int]]);
}

} // verus!
