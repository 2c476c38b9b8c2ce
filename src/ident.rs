//! The identifier table: one canonical entry per distinct name, shared by every
//! token that spells it. An identifier's identity is its index in the table.

use vstd::prelude::*;

verus! {

/// No name occurs twice.
pub open spec fn distinct_names(names: Seq<Seq<u8>>) -> bool {
    forall|i: int, j: int| 0 <= i < j < names.len() ==> names[i] != names[j]
}

/// The table after `text` was looked up: unchanged when it already holds the
/// name, else extended by it at the end.
pub open spec fn intern(names: Seq<Seq<u8>>, text: Seq<u8>) -> Seq<Seq<u8>> {
    if names.contains(text) {
        names
    } else {
        names.push(text)
    }
}

/// The table after each of `texts` was looked up in turn.
pub open spec fn intern_all(names: Seq<Seq<u8>>, texts: Seq<Seq<u8>>) -> Seq<Seq<u8>>
    decreases texts.len(),
{
    if texts.len() == 0 {
        names
    } else {
        intern_all(intern(names, texts[0]), texts.drop_first())
    }
}

/// Compares two byte strings.
pub fn same_bytes(a: &[u8], b: &[u8]) -> (r: bool)
    ensures
        r == (a@ == b@),
{
    if a.len() != b.len() {
        return false;
    }
    let mut i: usize = 0;
    while i < a.len()
        invariant
            a@.len() == b@.len(),
            i <= a@.len(),
            a@.subrange(0, i as int) == b@.subrange(0, i as int),
        decreases a@.len() - i,
    {
        if a[i] != b[i] {
            assert(a@[i as int] != b@[i as int]);
            return false;
        }
        assert(a@.subrange(0, i + 1) == a@.subrange(0, i as int).push(a@[i as int]));
        assert(b@.subrange(0, i + 1) == b@.subrange(0, i as int).push(b@[i as int]));
        i = i + 1;
    }
    assert(a@ == a@.subrange(0, a@.len() as int));
    assert(b@ == b@.subrange(0, b@.len() as int));
    true
}

/// Copies `s[from..to]` into a new vector.
pub fn copy_range(s: &[u8], from: usize, to: usize) -> (r: Vec<u8>)
    requires
        from <= to <= s@.len(),
    ensures
        r@ == s@.subrange(from as int, to as int),
{
    let mut r: Vec<u8> = Vec::new();
    let mut i: usize = from;
    while i < to
        invariant
            from <= i <= to <= s@.len(),
            r@ == s@.subrange(from as int, i as int),
        decreases to - i,
    {
        r.push(s[i]);
        assert(s@.subrange(from as int, i + 1) == s@.subrange(from as int, i as int).push(
            s@[i as int],
        ));
        i = i + 1;
    }
    r
}

/// The registry of names seen in one tokenizing session.
pub struct IdentTable {
    names: Vec<Vec<u8>>,
}

impl View for IdentTable {
    type V = Seq<Seq<u8>>;

    closed spec fn view(&self) -> Seq<Seq<u8>> {
        self.names@.map_values(|v: Vec<u8>| v@)
    }
}

impl IdentTable {
    pub open spec fn wf(&self) -> bool {
        distinct_names(self@)
    }

    pub fn new() -> (r: IdentTable)
        ensures
            r.wf(),
            r@ == Seq::<Seq<u8>>::empty(),
    {
        let r = IdentTable { names: Vec::new() };
        assert(r@ =~= Seq::<Seq<u8>>::empty());
        r
    }

    pub fn len(&self) -> (r: usize)
        ensures
            r == self@.len(),
    {
        self.names.len()
    }

    /// The name of the identifier at index `i`.
    pub fn name(&self, i: usize) -> (r: &Vec<u8>)
        requires
            i < self@.len(),
        ensures
            r@ == self@[i as int],
    {
        &self.names[i]
    }

    /// The index of `text` in the table, if it is there.
    pub fn find(&self, text: &[u8]) -> (r: Option<usize>)
        requires
            self.wf(),
        ensures
            match r {
                Some(i) => i < self@.len() && self@[i as int] == text@,
                None => !self@.contains(text@),
            },
    {
        let mut i: usize = 0;
        while i < self.names.len()
            invariant
                i <= self@.len(),
                self@.len() == self.names@.len(),
                forall|j: int| 0 <= j < i ==> self@[j] != text@,
            decreases self.names@.len() - i,
        {
            if same_bytes(self.names[i].as_slice(), text) {
                return Some(i);
            }
            i = i + 1;
        }
        None
    }

    /// The index of the canonical entry for `text`, created on first sight.
    pub fn get_or_create(&mut self, text: &[u8]) -> (r: usize)
        requires
            old(self).wf(),
        ensures
            final(self).wf(),
            final(self)@ == intern(old(self)@, text@),
            r < final(self)@.len(),
            final(self)@[r as int] == text@,
    {
        match self.find(text) {
            Some(i) => i,
            None => {
                let n = self.names.len();
                let v = copy_range(text, 0, text.len());
                assert(text@.subrange(0, text@.len() as int) == text@);
                self.names.push(v);
                assert(self@ =~= old(self)@.push(text@));
                n
            },
        }
    }
}

} // verus!
