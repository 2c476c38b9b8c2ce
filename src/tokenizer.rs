//! The tokenizer: a scanner that yields one token or marker per call, and the
//! line assembler that drives it to the end of input.

use std::rc::Rc;
use vstd::prelude::*;
use vstd::utf8::encode_utf8;
use crate::assemble::{
    assembly_start, close_line, lemma_run_ends_with_eof, lemma_scan_advances, run, step, Scanned,
};
use crate::buffer::{cursor_after, lemma_cursor_bounds, SourceBuffer};
use crate::ident::{copy_range, intern, IdentTable};
use crate::punct::{digit, letter, lookup_at, lookup_byte, op_start, punct_of, Punct};
use crate::scan::{
    block_comment_end, ident_end, line_comment_end, loc_of, number_end, op_len, punct_at,
    quoted_end, scan, text_of,
};
use crate::token::{
    is_marker, LexError, SourceLoc, Token, TokenKind, IS_AT_BOL, LF_AFTER, WS_BEFORE,
};

verus! {

/// Relies on `Rc::clone`: the clone shares the very same name.
#[verifier::external_body]
fn share_name(r: &Rc<String>) -> (s: Rc<String>)
    ensures
        s == *r,
{
    Rc::clone(r)
}

/// The identifier table after a step that scanned `kind` from `pos` to `next`.
pub open spec fn names_after(
    names: Seq<Seq<u8>>,
    src: Seq<u8>,
    kind: TokenKind,
    pos: nat,
    next: nat,
) -> Seq<Seq<u8>> {
    if kind == TokenKind::Ident {
        intern(names, src.subrange(pos as int, next as int))
    } else {
        names
    }
}

/// `t` is what scanning `kind` from `pos` to `next` gives, with the flags `flags`;
/// an identifier refers to the entry of `names` that holds its text.
pub open spec fn token_is(
    t: Token,
    src: Seq<u8>,
    kind: TokenKind,
    pos: nat,
    next: nat,
    flags: u32,
    file: Rc<String>,
    names: Seq<Seq<u8>>,
) -> bool {
    &&& t.kind == kind
    &&& t.text@ == text_of(src, kind, pos, next)
    &&& t.loc.line == loc_of(src, kind, pos, next).0
    &&& t.loc.column == loc_of(src, kind, pos, next).1
    &&& t.loc.file == file
    &&& t.flags == flags
    &&& if kind == TokenKind::Ident {
        &&& t.ident is Some
        &&& t.ident.unwrap() < names.len()
        &&& names[t.ident.unwrap() as int] == t.text@
    } else {
        t.ident is None
    }
}

/// The tokens `ts` are those that the entries `ms` describe, one for one.
pub open spec fn tokens_are(
    ts: Seq<Token>,
    ms: Seq<(Scanned, u32)>,
    src: Seq<u8>,
    file: Rc<String>,
    names: Seq<Seq<u8>>,
) -> bool {
    &&& ts.len() == ms.len()
    &&& forall|i: int|
        #![trigger ts[i]]
        0 <= i < ts.len() ==> token_is(
            ts[i],
            src,
            ms[i].0.kind,
            ms[i].0.start,
            ms[i].0.next,
            ms[i].1,
            file,
            names,
        )
}

/// `longer` keeps every entry of `names` where it was.
pub open spec fn extends(longer: Seq<Seq<u8>>, names: Seq<Seq<u8>>) -> bool {
    &&& names.len() <= longer.len()
    &&& forall|i: int| 0 <= i < names.len() ==> longer[i] == names[i]
}

proof fn lemma_tokens_extend(
    ts: Seq<Token>,
    ms: Seq<(Scanned, u32)>,
    src: Seq<u8>,
    file: Rc<String>,
    names: Seq<Seq<u8>>,
    longer: Seq<Seq<u8>>,
)
    requires
        tokens_are(ts, ms, src, file, names),
        extends(longer, names),
    ensures
        tokens_are(ts, ms, src, file, longer),
{
    assert forall|i: int| 0 <= i < ts.len() implies token_is(
        ts[i],
        src,
        ms[i].0.kind,
        ms[i].0.start,
        ms[i].0.next,
        ms[i].1,
        file,
        longer,
    ) by {
        if ts[i].kind == TokenKind::Ident {
            assert(longer[ts[i].ident.unwrap() as int] == names[ts[i].ident.unwrap() as int]);
        }
    }
}

proof fn lemma_tokens_concat(
    ts1: Seq<Token>,
    ms1: Seq<(Scanned, u32)>,
    ts2: Seq<Token>,
    ms2: Seq<(Scanned, u32)>,
    src: Seq<u8>,
    file: Rc<String>,
    names: Seq<Seq<u8>>,
)
    requires
        tokens_are(ts1, ms1, src, file, names),
        tokens_are(ts2, ms2, src, file, names),
    ensures
        tokens_are(ts1 + ts2, ms1 + ms2, src, file, names),
{
    let ts = ts1 + ts2;
    let ms = ms1 + ms2;
    assert forall|i: int| 0 <= i < ts.len() implies token_is(
        ts[i],
        src,
        ms[i].0.kind,
        ms[i].0.start,
        ms[i].0.next,
        ms[i].1,
        file,
        names,
    ) by {
        if i < ts1.len() {
            assert(ts[i] == ts1[i]);
        } else {
            assert(ts[i] == ts2[i - ts1.len()]);
        }
    }
}

/// Closes the pending line and moves it to the output.
fn flush_line(
    out: &mut Vec<Token>,
    line: &mut Vec<Token>,
    Ghost(mo): Ghost<Seq<(Scanned, u32)>>,
    Ghost(ml): Ghost<Seq<(Scanned, u32)>>,
    Ghost(src): Ghost<Seq<u8>>,
    Ghost(file): Ghost<Rc<String>>,
    Ghost(names): Ghost<Seq<Seq<u8>>>,
)
    requires
        old(line)@.len() > 0,
        tokens_are(old(out)@, mo, src, file, names),
        tokens_are(old(line)@, ml, src, file, names),
    ensures
        tokens_are(final(out)@, mo + close_line(ml), src, file, names),
        final(line)@.len() == 0,
{
    let ghost l0 = line@;
    let n = line.len();
    let mut last = line.pop().unwrap();
    last.flags = last.flags | LF_AFTER;
    line.push(last);
    let ghost l1 = line@;
    let ghost m1 = ml.update(n - 1, (ml[n - 1].0, ml[n - 1].1 | LF_AFTER));
    assert(tokens_are(l1, m1, src, file, names)) by {
        assert forall|i: int| 0 <= i < l1.len() implies token_is(
            l1[i],
            src,
            m1[i].0.kind,
            m1[i].0.start,
            m1[i].0.next,
            m1[i].1,
            file,
            names,
        ) by {
            if i < n - 1 {
                assert(l1[i] == l0[i]);
            }
        }
    }
    let mut first = line.remove(0);
    first.flags = first.flags | IS_AT_BOL | WS_BEFORE;
    line.insert(0, first);
    let ghost l2 = line@;
    let ghost m2 = m1.update(0, (m1[0].0, m1[0].1 | IS_AT_BOL | WS_BEFORE));
    assert(m2 == close_line(ml));
    assert(tokens_are(l2, m2, src, file, names)) by {
        assert forall|i: int| 0 <= i < l2.len() implies token_is(
            l2[i],
            src,
            m2[i].0.kind,
            m2[i].0.start,
            m2[i].0.next,
            m2[i].1,
            file,
            names,
        ) by {
            if i > 0 {
                assert(l2[i] == l1[i]);
            }
        }
    }
    proof {
        lemma_tokens_concat(out@, mo, l2, m2, src, file, names);
    }
    out.append(line);
}

pub struct Tokenizer {
    file_name: Rc<String>,
    buffer: SourceBuffer,
    idents: IdentTable,
}

impl Tokenizer {
    /// The input, as bytes.
    pub closed spec fn src(&self) -> Seq<u8> {
        self.buffer.src()
    }

    /// How many bytes were consumed.
    pub closed spec fn pos(&self) -> nat {
        self.buffer.pos()
    }

    /// The identifier table of the session.
    pub closed spec fn names(&self) -> Seq<Seq<u8>> {
        self.idents@
    }

    pub closed spec fn file(&self) -> Rc<String> {
        self.file_name
    }

    pub closed spec fn wf(&self) -> bool {
        self.buffer.wf() && self.idents.wf()
    }

    /// A session over `content`, read from the file `file_name`, that adds to `idents`.
    pub fn new_from_file(file_name: String, content: String, idents: IdentTable) -> (r: Tokenizer)
        requires
            idents.wf(),
            encode_utf8(content@).len() < usize::MAX,
        ensures
            r.wf(),
            r.src() == encode_utf8(content@),
            r.pos() == 0,
            r.names() == idents@,
            *r.file() == file_name,
    {
        let bytes = content.as_str().as_bytes();
        let data = copy_range(bytes, 0, bytes.len());
        assert(bytes@.subrange(0, bytes@.len() as int) == bytes@);
        Tokenizer {
            file_name: Rc::new(file_name),
            buffer: SourceBuffer::create(data),
            idents,
        }
    }

    /// A session over `content`, under the name `<string-input>`, that adds to `idents`.
    pub fn new_from_string(content: String, idents: IdentTable) -> (r: Tokenizer)
        requires
            idents.wf(),
            encode_utf8(content@).len() < usize::MAX,
        ensures
            r.wf(),
            r.src() == encode_utf8(content@),
            r.pos() == 0,
            r.names() == idents@,
            r.file()@ == "<string-input>"@,
    {
        let name = "<string-input>".to_owned();
        Self::new_from_file(name, content, idents)
    }

    /// The identifier table, with every name seen so far.
    pub fn idents(&self) -> (r: &IdentTable)
        ensures
            r@ == self.names(),
    {
        &self.idents
    }

    /// Ends the session and hands the identifier table on.
    pub fn into_idents(self) -> (r: IdentTable)
        requires
            self.wf(),
        ensures
            r@ == self.names(),
            r.wf(),
    {
        self.idents
    }

    /// The location of a token of `len` bytes that ends at the byte consumed last.
    fn build_sloc(&self, len: usize) -> (r: SourceLoc)
        requires
            self.wf(),
        ensures
            r.file == self.file(),
            r.line == cursor_after(self.src(), self.pos()).0,
            r.column == (if cursor_after(self.src(), self.pos()).1 >= len {
                (cursor_after(self.src(), self.pos()).1 - len + 1) as nat
            } else {
                cursor_after(self.src(), self.pos()).1
            }),
    {
        proof {
            lemma_cursor_bounds(self.src(), self.pos());
        }
        let col = self.buffer.column_no();
        let column = if col >= len {
            col - len + 1
        } else {
            col
        };
        SourceLoc { file: share_name(&self.file_name), line: self.buffer.line_no(), column }
    }

    /// The token of kind `kind` whose text runs from `start` to the read position.
    fn create_token(&self, kind: TokenKind, start: usize, ident: Option<usize>) -> (t: Token)
        requires
            self.wf(),
            start <= self.pos(),
            kind != TokenKind::Str && kind != TokenKind::Char,
        ensures
            t.kind == kind,
            t.text@ == text_of(self.src(), kind, start as nat, self.pos()),
            t.loc.line == loc_of(self.src(), kind, start as nat, self.pos()).0,
            t.loc.column == loc_of(self.src(), kind, start as nat, self.pos()).1,
            t.loc.file == self.file(),
            t.flags == 0,
            t.ident == ident,
    {
        let text = if kind == TokenKind::Eof || kind == TokenKind::Ws || kind == TokenKind::Lf {
            Vec::new()
        } else {
            copy_range(self.buffer.bytes().as_slice(), start, self.buffer.position())
        };
        assert(text@ =~= text_of(self.src(), kind, start as nat, self.pos()));
        let loc = self.build_sloc(text.len());
        Token { kind, text, loc, flags: 0, ident }
    }

    /// The token of kind `kind` whose text runs from `start` to the read position,
    /// placed at `loc`.
    fn create_token_spec_loc(&self, kind: TokenKind, start: usize, loc: SourceLoc) -> (t: Token)
        requires
            self.wf(),
            start <= self.pos(),
        ensures
            t.kind == kind,
            t.text@ == self.src().subrange(start as int, self.pos() as int),
            t.loc == loc,
            t.flags == 0,
            t.ident is None,
    {
        let text = copy_range(self.buffer.bytes().as_slice(), start, self.buffer.position());
        Token { kind, text, loc, flags: 0, ident: None }
    }

    /// The longest table entry at the read position, with its length.
    fn longest_punct(&self) -> (r: Option<(Punct, usize)>)
        requires
            self.wf(),
        ensures
            match r {
                Some((p, k)) => k == op_len(self.src(), self.pos()) && k > 0 && p == punct_of(
                    self.src().subrange(self.pos() as int, self.pos() + k),
                ).unwrap(),
                None => op_len(self.src(), self.pos()) == 0,
            },
    {
        let data = self.buffer.bytes();
        let pos = self.buffer.position();
        let rem = data.len() - pos;
        let mut k: usize = 4;
        while k > 0
            invariant
                k <= 4,
                data@ == self.src(),
                pos == self.pos(),
                rem == self.src().len() - self.pos(),
                forall|j: nat| k < j <= 4 ==> !punct_at(self.src(), self.pos(), j),
            decreases k,
        {
            if k <= rem {
                if let Some(p) = lookup_at(data.as_slice(), pos, k) {
                    return Some((p, k));
                }
            }
            k = k - 1;
        }
        None
    }

    /// Scans one token or marker and consumes its bytes.
    #[verifier::loop_isolation(false)]
    pub fn next(&mut self) -> (r: Result<Token, LexError>)
        requires
            old(self).wf(),
        ensures
            final(self).wf(),
            final(self).src() == old(self).src(),
            final(self).file() == old(self).file(),
            match scan(old(self).src(), old(self).pos()) {
                Err(e) => r == Err::<Token, LexError>(e),
                Ok((kind, next)) => {
                    &&& r is Ok
                    &&& final(self).pos() == next
                    &&& final(self).names() == names_after(
                        old(self).names(),
                        old(self).src(),
                        kind,
                        old(self).pos(),
                        next,
                    )
                    &&& token_is(
                        r->Ok_0,
                        old(self).src(),
                        kind,
                        old(self).pos(),
                        next,
                        0,
                        old(self).file(),
                        final(self).names(),
                    )
                },
            },
    {
        let ghost src = self.src();
        let c1 = self.buffer.peek(0);
        let c2 = self.buffer.peek(1);
        let start = self.buffer.position();

        if c1 == 0 {
            return Ok(self.create_token(TokenKind::Eof, start, None));
        }
        if c1 == 32 || c1 == 9 {
            self.buffer.next();
            return Ok(self.create_token(TokenKind::Ws, start, None));
        }
        if c1 == 10 {
            self.buffer.next();
            return Ok(self.create_token(TokenKind::Lf, start, None));
        }

        if c1 == 47 && c2 == 47 {
            self.buffer.skip(2);
            loop
                invariant
                    self.wf(),
                    self.src() == src,
                    self.file() == old(self).file(),
                    self.names() == old(self).names(),
                    start + 2 <= self.pos(),
                    line_comment_end(src, (start + 2) as nat) == line_comment_end(src, self.pos()),
                decreases src.len() - self.pos(),
            {
                if self.buffer.is_eof() {
                    return Err(LexError::UnterminatedLineComment);
                }
                let c = self.buffer.next();
                if c == 10 {
                    return Ok(self.create_token(TokenKind::Lf, start, None));
                }
                if c == 0 {
                    return Err(LexError::UnterminatedLineComment);
                }
            }
        }
        if c1 == 47 && c2 == 42 {
            self.buffer.skip(2);
            let mut prev: u8 = 0;
            loop
                invariant
                    self.wf(),
                    self.src() == src,
                    self.file() == old(self).file(),
                    self.names() == old(self).names(),
                    start + 2 <= self.pos(),
                    block_comment_end(src, (start + 2) as nat, 0) == block_comment_end(
                        src,
                        self.pos(),
                        prev,
                    ),
                decreases src.len() - self.pos(),
            {
                if self.buffer.is_eof() {
                    return Err(LexError::UnterminatedBlockComment);
                }
                let c = self.buffer.next();
                if c == 0 {
                    return Err(LexError::UnterminatedBlockComment);
                }
                if c == 47 && prev == 42 {
                    return Ok(self.create_token(TokenKind::Ws, start, None));
                }
                prev = c;
            }
        }

        if letter(c1) {
            while !self.buffer.is_eof() && (letter(self.buffer.peek(0)) || digit(self.buffer.peek(0)))
                invariant
                    self.wf(),
                    self.src() == src,
                    self.file() == old(self).file(),
                    self.names() == old(self).names(),
                    start <= self.pos(),
                    ident_end(src, start as nat) == ident_end(src, self.pos()),
                decreases src.len() - self.pos(),
            {
                self.buffer.next();
            }
            let text = copy_range(self.buffer.bytes().as_slice(), start, self.buffer.position());
            let id = self.idents.get_or_create(text.as_slice());
            return Ok(self.create_token(TokenKind::Ident, start, Some(id)));
        }

        if op_start(c1) {
            match self.longest_punct() {
                Some((p, k)) => {
                    self.buffer.skip(k);
                    return Ok(self.create_token(TokenKind::Punct(p), start, None));
                },
                None => {
                    return Err(LexError::UnknownOperator);
                },
            }
        }

        if digit(c1) {
            while !self.buffer.is_eof() && (digit(self.buffer.peek(0)) || self.buffer.peek(0) == 46
                || letter(self.buffer.peek(0)))
                invariant
                    self.wf(),
                    self.src() == src,
                    self.file() == old(self).file(),
                    self.names() == old(self).names(),
                    start <= self.pos(),
                    number_end(src, start as nat) == number_end(src, self.pos()),
                decreases src.len() - self.pos(),
            {
                let c = self.buffer.next();
                if c == 101 || c == 69 || c == 112 || c == 80 {
                    if !self.buffer.is_eof() && (self.buffer.peek(0) == 43 || self.buffer.peek(0)
                        == 45) {
                        self.buffer.next();
                    }
                }
            }
            return Ok(self.create_token(TokenKind::Number, start, None));
        }

        if c1 == 34 || c1 == 39 {
            self.buffer.next();
            let loc = SourceLoc {
                file: share_name(&self.file_name),
                line: self.buffer.line_no(),
                column: self.buffer.column_no(),
            };
            let mut closed = false;
            while !closed
                invariant
                    self.wf(),
                    self.src() == src,
                    self.file() == old(self).file(),
                    self.names() == old(self).names(),
                    start + 1 <= self.pos(),
                    closed ==> quoted_end(src, c1, (start + 1) as nat) == Some(self.pos()),
                    !closed ==> quoted_end(src, c1, (start + 1) as nat) == quoted_end(
                        src,
                        c1,
                        self.pos(),
                    ),
                decreases src.len() - self.pos(),
            {
                if self.buffer.is_eof() {
                    return Err(LexError::UnterminatedLiteral);
                }
                let c = self.buffer.next();
                if c == 0 {
                    return Err(LexError::UnterminatedLiteral);
                }
                if c == c1 {
                    closed = true;
                } else if c == 92 {
                    if self.buffer.is_eof() {
                        return Err(LexError::UnterminatedLiteral);
                    }
                    self.buffer.next();
                }
            }
            let kind = if c1 == 34 {
                TokenKind::Str
            } else {
                TokenKind::Char
            };
            return Ok(self.create_token_spec_loc(kind, start, loc));
        }

        if let Some(p) = lookup_byte(c1) {
            self.buffer.next();
            return Ok(self.create_token(TokenKind::Punct(p), start, None));
        }
        self.buffer.next();
        Ok(self.create_token(TokenKind::Error, start, None))
    }

    /// Scans the rest of the input and assembles it into logical lines: the tokens
    /// in order, with their flags, ending with the end-of-input token; or the first
    /// fatal error.
    #[verifier::loop_isolation(false)]
    pub fn tokenize(&mut self) -> (r: Result<Vec<Token>, LexError>)
        requires
            old(self).wf(),
        ensures
            final(self).wf(),
            final(self).src() == old(self).src(),
            match run(old(self).src(), old(self).pos(), assembly_start(old(self).names())) {
                Err(e) => r == Err::<Vec<Token>, LexError>(e),
                Ok(a) => {
                    &&& r is Ok
                    &&& final(self).names() == a.names
                    &&& tokens_are((r->Ok_0)@, a.out, old(self).src(), old(self).file(), a.names)
                    &&& (r->Ok_0)@.len() > 0
                    &&& (r->Ok_0)@.last().kind == TokenKind::Eof
                    &&& forall|i: int|
                        #![trigger (r->Ok_0)@[i]]
                        0 <= i < (r->Ok_0)@.len() - 1 ==> (r->Ok_0)@[i].kind != TokenKind::Eof
                            && !is_marker((r->Ok_0)@[i].kind)
                    &&& forall|i: int, j: int|
                        0 <= i < (r->Ok_0)@.len() && 0 <= j < (r->Ok_0)@.len() && (r->Ok_0)@[i].kind
                            == TokenKind::Ident && (r->Ok_0)@[j].kind == TokenKind::Ident && (
                        r->Ok_0)@[i].text@ == (r->Ok_0)@[j].text@ ==> (r->Ok_0)@[i].ident == (
                        r->Ok_0)@[j].ident
                },
            },
    {
        let ghost src = self.src();
        let ghost file = self.file();
        let mut out: Vec<Token> = Vec::new();
        let mut line: Vec<Token> = Vec::new();
        let mut ws = false;
        let ghost mut st = assembly_start(self.names());
        proof {
            lemma_run_ends_with_eof(src, self.pos(), st);
        }
        loop
            invariant
                self.wf(),
                self.src() == src,
                self.file() == file,
                run(src, old(self).pos(), assembly_start(old(self).names())) == run(
                    src,
                    self.pos(),
                    st,
                ),
                st.names == self.names(),
                st.ws == ws,
                tokens_are(out@, st.out, src, file, st.names),
                tokens_are(line@, st.line, src, file, st.names),
            decreases src.len() - self.pos(),
        {
            let ghost pos = self.pos();
            let ghost names0 = self.names();
            proof {
                lemma_scan_advances(src, pos);
            }
            let mut t = match self.next() {
                Err(e) => {
                    return Err(e);
                },
                Ok(t) => t,
            };
            let ghost s = Scanned { kind: t.kind, start: pos, next: self.pos() };
            if t.kind == TokenKind::Eof {
                proof {
                    lemma_tokens_concat(out@, st.out, line@, st.line, src, file, st.names);
                }
                out.append(&mut line);
                let ghost before = out@;
                out.push(t);
                proof {
                    lemma_tokens_concat(
                        before,
                        st.out + st.line,
                        seq![t],
                        seq![(s, 0u32)],
                        src,
                        file,
                        st.names,
                    );
                    assert(before + seq![t] == out@);
                    let ts = out@;
                    let ms = st.out + st.line + seq![(s, 0u32)];
                    assert(ms.drop_last() == st.out + st.line);
                    assert forall|i: int| 0 <= i < ts.len() - 1 implies ts[i].kind
                        != TokenKind::Eof && !is_marker(ts[i].kind) by {
                        assert(ms.drop_last()[i] == ms[i]);
                    }
                    assert forall|i: int, j: int|
                        0 <= i < ts.len() && 0 <= j < ts.len() && ts[i].kind == TokenKind::Ident
                            && ts[j].kind == TokenKind::Ident && ts[i].text@ == ts[j].text@
                        implies ts[i].ident == ts[j].ident by {
                        let a = ts[i].ident.unwrap() as int;
                        let b = ts[j].ident.unwrap() as int;
                        assert(self.names()[a] == self.names()[b]);
                    }
                }
                return Ok(out);
            }
            proof {
                lemma_tokens_extend(out@, st.out, src, file, names0, self.names());
                lemma_tokens_extend(line@, st.line, src, file, names0, self.names());
                st.names = self.names();
            }
            if t.kind == TokenKind::Ws {
                ws = true;
            } else if t.kind == TokenKind::Lf {
                if line.len() > 0 {
                    flush_line(
                        &mut out,
                        &mut line,
                        Ghost(st.out),
                        Ghost(st.line),
                        Ghost(src),
                        Ghost(file),
                        Ghost(st.names),
                    );
                }
            } else {
                if ws {
                    t.flags = WS_BEFORE;
                    ws = false;
                }
                let is_comment = t.kind == TokenKind::Comment;
                let ghost before = line@;
                line.push(t);
                proof {
                    lemma_tokens_concat(
                        before,
                        st.line,
                        seq![t],
                        seq![(s, t.flags)],
                        src,
                        file,
                        st.names,
                    );
                    assert(before + seq![t] == line@);
                }
                if is_comment {
                    flush_line(
                        &mut out,
                        &mut line,
                        Ghost(st.out),
                        Ghost(st.line.push((s, t.flags))),
                        Ghost(src),
                        Ghost(file),
                        Ghost(st.names),
                    );
                }
            }
            proof {
                st = step(src, st, s);
            }
        }
    }
}

} // verus!
