use vstd::prelude::*;

verus! {

/// Relies on `str::chars` collected into a `Vec`: the characters of the text, in order.
#[verifier::external_body]
pub(crate) fn chars_of(s: &str) -> (r: Vec<char>)
    ensures
        r@ == s@,
{
    s.chars().collect()
}

/// An input sequence of characters together with a read position.
///
/// The position never passes the end of the input; it moves only through
/// [`TwoWay::read`] and [`TwoWay::set`].
#[derive(Clone, Debug)]
pub struct TwoWay {
    ptr: usize,
    strm: Vec<char>,
}

impl TwoWay {
    /// The characters the cursor walks over.
    pub closed spec fn input(&self) -> Seq<char> {
        self.strm@
    }

    /// The read position.
    pub closed spec fn pos(&self) -> int {
        self.ptr as int
    }

    /// The position lies within the input (it may equal its length).
    pub open spec fn wf(&self) -> bool {
        0 <= self.pos() <= self.input().len()
    }

    /// A cursor at the start of `v`.
    pub fn new(v: Vec<char>) -> (r: TwoWay)
        ensures
            r.wf(),
            r.input() == v@,
            r.pos() == 0,
    {
        TwoWay { strm: v, ptr: 0 }
    }

    /// A cursor at the start of the characters of `s`.
    pub fn from_text(s: &str) -> (r: TwoWay)
        ensures
            r.wf(),
            r.input() == s@,
            r.pos() == 0,
    {
        TwoWay { strm: chars_of(s), ptr: 0 }
    }

    /// The current read position.
    pub fn ptr(&self) -> (r: usize)
        ensures
            r == self.pos(),
    {
        self.ptr
    }

    /// Moves the read position to `ptr`, a save point taken earlier.
    pub fn set(&mut self, ptr: usize)
        requires
            ptr <= old(self).input().len(),
        ensures
            final(self).wf(),
            final(self).input() == old(self).input(),
            final(self).pos() == ptr,
    {
        self.ptr = ptr
    }

    /// Reads the character at the position and moves past it; at the end of
    /// the input returns `None` and stays.
    pub fn read(&mut self) -> (r: Option<char>)
        requires
            old(self).wf(),
        ensures
            final(self).wf(),
            final(self).input() == old(self).input(),
            old(self).pos() < old(self).input().len() ==> r == Some(old(self).input()[old(self).pos()])
                && final(self).pos() == old(self).pos() + 1,
            old(self).pos() >= old(self).input().len() ==> r is None && final(self).pos()
                == old(self).pos(),
    {
        if self.ptr < self.strm.len() {
            self.ptr += 1;
            Some(self.strm[self.ptr - 1])
        } else {
            None
        }
    }

    /// Whether the `len` characters from `a` equal, one by one, the `len`
    /// characters from `b`.
    pub fn windows_equal(&self, a: usize, b: usize, len: usize) -> (r: bool)
        requires
            a + len <= self.input().len(),
            b + len <= self.input().len(),
        ensures
            r == (self.input().subrange(a as int, a + len) == self.input().subrange(
                b as int,
                b + len,
            )),
    {
        let ghost sa = self.input().subrange(a as int, a + len);
        let ghost sb = self.input().subrange(b as int, b + len);
        let mut i: usize = 0;
        while i < len
            invariant
                i <= len,
                a + len <= self.strm.len(),
                b + len <= self.strm.len(),
                sa == self.strm@.subrange(a as int, a + len),
                sb == self.strm@.subrange(b as int, b + len),
                forall|k: int| 0 <= k < i ==> #[trigger] sa[k] == sb[k],
            decreases len - i,
        {
            if self.strm[a + i] != self.strm[b + i] {
                assert(sa[i as int] != sb[i as int]);
                return false;
            }
            i += 1;
        }
        assert(sa =~= sb);
        true
    }

    /// Whether the characters from `start` up to `end` equal the same number
    /// of characters that end at the read position.
    pub fn repeating(&self, start: usize, end: usize) -> (r: bool)
        requires
            self.wf(),
            start <= end <= self.pos(),
        ensures
            r == (self.input().subrange(start as int, end as int) == self.input().subrange(
                self.pos() - (end - start),
                self.pos(),
            )),
    {
        self.windows_equal(start, self.ptr - (end - start), end - start)
    }

    /// The input from position `n` on.
    pub fn debug(&self, n: usize) -> (r: &[char])
        requires
            n <= self.input().len(),
        ensures
            r@ == self.input().subrange(n as int, self.input().len() as int),
    {
        vstd::slice::slice_subrange(self.strm.as_slice(), n, self.strm.len())
    }
}

} // verus!
