//! What the line assembler makes of the scanned items, as spec functions: it drops the
//! markers, groups tokens into logical lines and sets their positional flags.

use vstd::prelude::*;
use crate::ident::intern;
use crate::scan::{
    block_comment_end, ident_end, is_unrecognized, lemma_unrecognized_byte, line_comment_end,
    number_end, op_len, quoted_end, scan,
};
use crate::punct::{is_digit, is_letter};
use crate::token::{is_marker, LexError, TokenKind, IS_AT_BOL, LF_AFTER, WS_BEFORE};

verus! {

/// One scanned item: its kind, where it starts and where scanning went on.
pub struct Scanned {
    pub kind: TokenKind,
    pub start: nat,
    pub next: nat,
}

/// The assembler's state: the tokens emitted, the pending logical line (each token with
/// its flags), whether whitespace is pending, and the identifier table.
pub struct Assembly {
    pub out: Seq<(Scanned, u32)>,
    pub line: Seq<(Scanned, u32)>,
    pub ws: bool,
    pub names: Seq<Seq<u8>>,
}

/// The state before the first item, over the table `names`.
pub open spec fn assembly_start(names: Seq<Seq<u8>>) -> Assembly {
    Assembly { out: Seq::empty(), line: Seq::empty(), ws: false, names }
}

/// A non-empty line closed: line-feed-after on its last token, begin-of-line and
/// whitespace-before on its first.
pub open spec fn close_line(line: Seq<(Scanned, u32)>) -> Seq<(Scanned, u32)> {
    let n = line.len() - 1;
    let l1 = line.update(n, (line[n].0, line[n].1 | LF_AFTER));
    l1.update(0, (l1[0].0, l1[0].1 | IS_AT_BOL | WS_BEFORE))
}

/// The pending line flushed to the output, when it holds anything.
pub open spec fn flush(a: Assembly) -> Assembly {
    if a.line.len() == 0 {
        a
    } else {
        Assembly { out: a.out + close_line(a.line), line: Seq::empty(), ..a }
    }
}

/// The state after one item other than the end of input.
pub open spec fn step(src: Seq<u8>, a: Assembly, s: Scanned) -> Assembly {
    let names = if s.kind == TokenKind::Ident {
        intern(a.names, src.subrange(s.start as int, s.next as int))
    } else {
        a.names
    };
    if s.kind == TokenKind::Ws {
        Assembly { ws: true, names, ..a }
    } else if s.kind == TokenKind::Lf {
        flush(Assembly { names, ..a })
    } else {
        let flags: u32 = if a.ws {
            WS_BEFORE
        } else {
            0
        };
        let b = Assembly { line: a.line.push((s, flags)), ws: false, names, ..a };
        if s.kind == TokenKind::Comment {
            flush(b)
        } else {
            b
        }
    }
}

/// Scans from `pos` to the end of input, assembling from the state `a`: the final state,
/// whose output ends with the end-of-input token, or the first fatal error.
pub open spec fn run(src: Seq<u8>, pos: nat, a: Assembly) -> Result<Assembly, LexError>
    decreases src.len() - pos,
{
    match scan(src, pos) {
        Err(e) => Err(e),
        Ok((kind, next)) => {
            if kind == TokenKind::Eof {
                Ok(
                    Assembly {
                        out: a.out + a.line + seq![(Scanned { kind, start: pos, next: pos }, 0u32)],
                        line: Seq::empty(),
                        ws: false,
                        names: a.names,
                    },
                )
            } else if pos < next <= src.len() {
                run(src, next, step(src, a, Scanned { kind, start: pos, next }))
            } else {
                Ok(a)
            }
        },
    }
}

/// Tokenizing `src` from its start over the identifier table `names`.
pub open spec fn tokenize_spec(src: Seq<u8>, names: Seq<Seq<u8>>) -> Result<Assembly, LexError> {
    run(src, 0, assembly_start(names))
}

proof fn lemma_ident_end(src: Seq<u8>, i: nat)
    requires
        i <= src.len(),
    ensures
        i <= ident_end(src, i) <= src.len(),
    decreases src.len() - i,
{
    if i < src.len() && (is_letter(src[i as int]) || is_digit(src[i as int])) {
        lemma_ident_end(src, i + 1);
    }
}

proof fn lemma_number_end(src: Seq<u8>, i: nat)
    requires
        i <= src.len(),
    ensures
        i <= number_end(src, i) <= src.len(),
    decreases src.len() - i,
{
    if i < src.len() {
        lemma_number_end(src, i + 1);
        if i + 2 <= src.len() {
            lemma_number_end(src, i + 2);
        }
    }
}

proof fn lemma_line_comment_end(src: Seq<u8>, i: nat)
    ensures
        line_comment_end(src, i) matches Some(e) ==> i < e <= src.len(),
    decreases src.len() - i,
{
    if i < src.len() {
        lemma_line_comment_end(src, i + 1);
    }
}

proof fn lemma_block_comment_end(src: Seq<u8>, i: nat, prev: u8)
    ensures
        block_comment_end(src, i, prev) matches Some(e) ==> i < e <= src.len(),
    decreases src.len() - i,
{
    if i < src.len() {
        lemma_block_comment_end(src, i + 1, src[i as int]);
    }
}

proof fn lemma_quoted_end(src: Seq<u8>, q: u8, i: nat)
    ensures
        quoted_end(src, q, i) matches Some(e) ==> i < e <= src.len(),
    decreases src.len() - i,
{
    if i < src.len() {
        lemma_quoted_end(src, q, i + 1);
        if i + 1 < src.len() {
            lemma_quoted_end(src, q, i + 2);
        }
    }
}

/// Each scanning step other than the end of input consumes at least one byte and
/// stays within the input.
pub proof fn lemma_scan_advances(src: Seq<u8>, pos: nat)
    requires
        pos <= src.len(),
    ensures
        scan(src, pos) matches Ok((kind, next)) ==> (if kind == TokenKind::Eof {
            next == pos
        } else {
            pos < next <= src.len()
        }),
{
    lemma_ident_end(src, pos);
    lemma_number_end(src, pos);
    lemma_line_comment_end(src, pos + 2);
    lemma_block_comment_end(src, pos + 2, 0);
    lemma_quoted_end(src, 34, pos + 1);
    lemma_quoted_end(src, 39, pos + 1);
    if pos < src.len() {
        lemma_ident_end(src, pos + 1);
        lemma_number_end(src, pos + 1);
    }
}

/// No entry of `ms` is the end of input or a marker.
pub open spec fn plain_entries(ms: Seq<(Scanned, u32)>) -> bool {
    forall|i: int|
        0 <= i < ms.len() ==> ms[i].0.kind != TokenKind::Eof && !is_marker(ms[i].0.kind)
}

/// An assembled output: the end-of-input token comes last and only there, and
/// no marker is left.
pub open spec fn ends_with_eof(ms: Seq<(Scanned, u32)>) -> bool {
    &&& ms.len() > 0
    &&& ms[ms.len() - 1].0.kind == TokenKind::Eof
    &&& plain_entries(ms.drop_last())
}

proof fn lemma_plain_concat(a: Seq<(Scanned, u32)>, b: Seq<(Scanned, u32)>)
    requires
        plain_entries(a),
        plain_entries(b),
    ensures
        plain_entries(a + b),
{
    assert forall|i: int| 0 <= i < (a + b).len() implies (a + b)[i].0.kind != TokenKind::Eof
        && !is_marker((a + b)[i].0.kind) by {
        if i < a.len() {
            assert((a + b)[i] == a[i]);
        } else {
            assert((a + b)[i] == b[i - a.len()]);
        }
    }
}

proof fn lemma_step_plain(src: Seq<u8>, a: Assembly, s: Scanned)
    requires
        plain_entries(a.out),
        plain_entries(a.line),
        s.kind != TokenKind::Eof,
    ensures
        plain_entries(step(src, a, s).out),
        plain_entries(step(src, a, s).line),
{
    let flags: u32 = if a.ws {
        WS_BEFORE
    } else {
        0
    };
    let l = a.line.push((s, flags));
    if !is_marker(s.kind) {
        assert(plain_entries(l)) by {
            assert forall|i: int| 0 <= i < l.len() implies l[i].0.kind != TokenKind::Eof
                && !is_marker(l[i].0.kind) by {
                if i < a.line.len() {
                    assert(l[i] == a.line[i]);
                }
            }
        }
    }
    if s.kind == TokenKind::Lf && a.line.len() > 0 {
        lemma_plain_concat(a.out, close_line(a.line));
    }
    if s.kind == TokenKind::Comment {
        lemma_plain_concat(a.out, close_line(l));
    }
}

/// Whatever the input, a successful run ends with exactly one end-of-input token,
/// and no marker is left in its output.
pub proof fn lemma_run_ends_with_eof(src: Seq<u8>, pos: nat, a: Assembly)
    requires
        pos <= src.len(),
        plain_entries(a.out),
        plain_entries(a.line),
    ensures
        run(src, pos, a) matches Ok(b) ==> ends_with_eof(b.out),
    decreases src.len() - pos,
{
    lemma_scan_advances(src, pos);
    match scan(src, pos) {
        Err(e) => {},
        Ok((kind, next)) => {
            if kind == TokenKind::Eof {
                let e = seq![(Scanned { kind, start: pos, next: pos }, 0u32)];
                lemma_plain_concat(a.out, a.line);
                assert((a.out + a.line + e).drop_last() == a.out + a.line);
            } else {
                let s = Scanned { kind, start: pos, next };
                lemma_step_plain(src, a, s);
                lemma_run_ends_with_eof(src, next, step(src, a, s));
            }
        },
    }
}

/// Scanning goes on normally after an unrecognized byte: the run from it is the run
/// from the next byte, after one error token.
pub proof fn lemma_resumes_after_unrecognized(src: Seq<u8>, pos: nat, a: Assembly)
    requires
        pos < src.len(),
        is_unrecognized(src[pos as int]),
    ensures
        run(src, pos, a) == run(
            src,
            pos + 1,
            step(src, a, Scanned { kind: TokenKind::Error, start: pos, next: pos + 1 }),
        ),
{
    lemma_unrecognized_byte(src, pos);
}

/// Input made of letters only is one identifier, flagged with nothing, and then the
/// end of input; its name joins the table.
pub proof fn lemma_letters_only(src: Seq<u8>, names: Seq<Seq<u8>>)
    requires
        src.len() > 0,
        forall|i: int| 0 <= i < src.len() ==> is_letter(src[i]),
    ensures
        tokenize_spec(src, names) == Ok::<Assembly, LexError>(
            Assembly {
                out: seq![
                    (Scanned { kind: TokenKind::Ident, start: 0, next: src.len() }, 0u32),
                    (Scanned { kind: TokenKind::Eof, start: src.len(), next: src.len() }, 0u32),
                ],
                line: Seq::empty(),
                ws: false,
                names: intern(names, src),
            },
        ),
{
    lemma_letters_run(src, 0);
    let s = Scanned { kind: TokenKind::Ident, start: 0, next: src.len() };
    let a = step(src, assembly_start(names), s);
    assert(src.subrange(0, src.len() as int) == src);
    assert(run(src, 0, assembly_start(names)) == run(src, src.len(), a));
    let e = Scanned { kind: TokenKind::Eof, start: src.len(), next: src.len() };
    assert(a.line == seq![(s, 0u32)]);
    assert(Seq::<(Scanned, u32)>::empty() + seq![(s, 0u32)] + seq![(e, 0u32)] =~= seq![
        (s, 0u32),
        (e, 0u32),
    ]);
}

proof fn lemma_letters_run(src: Seq<u8>, i: nat)
    requires
        i <= src.len(),
        forall|j: int| 0 <= j < src.len() ==> is_letter(src[j]),
    ensures
        ident_end(src, i) == src.len(),
    decreases src.len() - i,
{
    if i < src.len() {
        lemma_letters_run(src, i + 1);
    }
}

} // verus!
