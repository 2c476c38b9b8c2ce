//! A cursor over in-memory source bytes, with line and column tracking.

use vstd::prelude::*;

verus! {

/// The byte at `i`, or the null sentinel anywhere outside the input.
pub open spec fn byte_at(src: Seq<u8>, i: int) -> u8 {
    if 0 <= i < src.len() {
        src[i]
    } else {
        0
    }
}

/// Line and column after the first `n` bytes of `src` were consumed:
/// the line is 1-based, and the column is that of the byte consumed last
/// (0 right after a line feed or at the very start).
pub open spec fn cursor_after(src: Seq<u8>, n: nat) -> (nat, nat)
    decreases n,
{
    if n == 0 {
        (1, 0)
    } else {
        let prev = cursor_after(src, (n - 1) as nat);
        if src[n - 1] == 10u8 {
            (prev.0 + 1, 0)
        } else {
            (prev.0, prev.1 + 1)
        }
    }
}

/// The line never exceeds one more than the bytes consumed, the column never exceeds them.
pub proof fn lemma_cursor_bounds(src: Seq<u8>, n: nat)
    ensures
        1 <= cursor_after(src, n).0 <= n + 1,
        cursor_after(src, n).1 <= n,
    decreases n,
{
    if n > 0 {
        lemma_cursor_bounds(src, (n - 1) as nat);
    }
}

/// The whole source text, a read position, and the location of the byte read last.
pub struct SourceBuffer {
    data: Vec<u8>,
    pos: usize,
    line: usize,
    column: usize,
}

impl SourceBuffer {
    pub closed spec fn src(&self) -> Seq<u8> {
        self.data@
    }

    pub closed spec fn pos(&self) -> nat {
        self.pos as nat
    }

    pub closed spec fn line(&self) -> nat {
        self.line as nat
    }

    pub closed spec fn column(&self) -> nat {
        self.column as nat
    }

    /// The position lies within the input, and line and column are those that
    /// consuming the bytes before it gives.
    pub open spec fn wf(&self) -> bool {
        &&& self.src().len() < usize::MAX
        &&& self.pos() <= self.src().len()
        &&& self.line() == cursor_after(self.src(), self.pos()).0
        &&& self.column() == cursor_after(self.src(), self.pos()).1
    }

    pub fn create(data: Vec<u8>) -> (r: SourceBuffer)
        requires
            data@.len() < usize::MAX,
        ensures
            r.wf(),
            r.src() == data@,
            r.pos() == 0,
    {
        SourceBuffer { data, pos: 0, line: 1, column: 0 }
    }

    /// The byte `k` places ahead of the read position, null past the end.
    pub fn peek(&self, k: usize) -> (r: u8)
        requires
            self.wf(),
            k < 4,
        ensures
            r == byte_at(self.src(), self.pos() + k),
    {
        if k < self.data.len() - self.pos {
            self.data[self.pos + k]
        } else {
            0
        }
    }

    /// Consumes one byte and returns it; a line feed starts a new line.
    pub fn next(&mut self) -> (r: u8)
        requires
            old(self).wf(),
            old(self).pos() < old(self).src().len(),
        ensures
            final(self).wf(),
            final(self).src() == old(self).src(),
            final(self).pos() == old(self).pos() + 1,
            r == old(self).src()[old(self).pos() as int],
    {
        proof {
            lemma_cursor_bounds(self.data@, self.pos as nat);
        }
        let c = self.data[self.pos];
        self.pos = self.pos + 1;
        if c == 10u8 {
            self.line = self.line + 1;
            self.column = 0;
        } else {
            self.column = self.column + 1;
        }
        c
    }

    /// Consumes `k` bytes.
    pub fn skip(&mut self, k: usize)
        requires
            old(self).wf(),
            old(self).pos() + k <= old(self).src().len(),
        ensures
            final(self).wf(),
            final(self).src() == old(self).src(),
            final(self).pos() == old(self).pos() + k,
    {
        let mut i: usize = 0;
        while i < k
            invariant
                self.wf(),
                self.src() == old(self).src(),
                i <= k,
                self.pos() == old(self).pos() + i,
                old(self).pos() + k <= old(self).src().len(),
            decreases k - i,
        {
            self.next();
            i = i + 1;
        }
    }

    /// True once every byte of the input was consumed.
    pub fn is_eof(&self) -> (r: bool)
        requires
            self.wf(),
        ensures
            r == (self.pos() >= self.src().len()),
    {
        self.pos >= self.data.len()
    }

    pub fn position(&self) -> (r: usize)
        ensures
            r == self.pos(),
    {
        self.pos
    }

    pub fn line_no(&self) -> (r: usize)
        ensures
            r == self.line(),
    {
        self.line
    }

    pub fn column_no(&self) -> (r: usize)
        ensures
            r == self.column(),
    {
        self.column
    }

    pub fn bytes(&self) -> (r: &Vec<u8>)
        ensures
            r@ == self.src(),
    {
        &self.data
    }
}

} // verus!
