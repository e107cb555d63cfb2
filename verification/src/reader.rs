use vstd::prelude::*;

verus! {

/// An in-memory byte stream that is consumed from the front, the way a
/// reader hands out the bytes of its source one after another.
pub struct ByteReader {
    data: Vec<u8>,
    pos: usize,
}

impl View for ByteReader {
    type V = Seq<u8>;

    /// The bytes that have not been read yet.
    closed spec fn view(&self) -> Seq<u8> {
        self.data@.skip(self.pos as int)
    }
}

impl ByteReader {
    #[verifier::type_invariant]
    spec fn inv(&self) -> bool {
        self.pos <= self.data.len()
    }

    /// A reader over a copy of `data`.
    pub fn new(data: &[u8]) -> (r: ByteReader)
        ensures
            r@ == data@,
    {
        let v = copy_range(data, 0, data.len());
        assert(v@ =~= v@.skip(0));
        ByteReader { data: v, pos: 0 }
    }

    /// A reader over `data`.
    pub fn from_vec(data: Vec<u8>) -> (r: ByteReader)
        ensures
            r@ == data@,
    {
        assert(data@ =~= data@.skip(0));
        ByteReader { data, pos: 0 }
    }

    /// Number of bytes left to read.
    pub fn remaining(&self) -> (n: usize)
        ensures
            n == self@.len(),
    {
        proof { use_type_invariant(self); }
        self.data.len() - self.pos
    }

    /// Reads one byte, or `None` at the end of the stream.
    pub fn read_byte(&mut self) -> (r: Option<u8>)
        ensures
            old(self)@.len() == 0 ==> r is None && final(self)@ == old(self)@,
            old(self)@.len() > 0 ==> r == Some(old(self)@[0]) && final(self)@ == old(self)@.drop_first(),
    {
        proof { use_type_invariant(&*self); }
        if self.pos < self.data.len() {
            let b = self.data[self.pos];
            self.pos = self.pos + 1;
            assert(self.data@.skip(self.pos as int) =~= old(self)@.drop_first());
            Some(b)
        } else {
            None
        }
    }

    /// Reads exactly `n` bytes. When fewer are left, the stream is consumed to
    /// its end and `None` is returned.
    pub fn read_exact(&mut self, n: usize) -> (r: Option<Vec<u8>>)
        ensures
            n <= old(self)@.len() ==> r is Some && r->0@ == old(self)@.take(n as int)
                && final(self)@ == old(self)@.skip(n as int),
            n > old(self)@.len() ==> r is None && final(self)@.len() == 0,
    {
        proof { use_type_invariant(&*self); }
        let left = self.data.len() - self.pos;
        if n <= left {
            let out = copy_range(self.data.as_slice(), self.pos, self.pos + n);
            self.pos = self.pos + n;
            assert(out@ =~= old(self)@.take(n as int));
            assert(self.data@.skip(self.pos as int) =~= old(self)@.skip(n as int));
            Some(out)
        } else {
            self.pos = self.data.len();
            assert(self.data@.skip(self.pos as int).len() == 0);
            None
        }
    }

    /// Reads up to `n` bytes: all of them when that many are left, else the
    /// rest of the stream.
    pub fn read_up_to(&mut self, n: usize) -> (r: Vec<u8>)
        ensures
            n <= old(self)@.len() ==> r@ == old(self)@.take(n as int)
                && final(self)@ == old(self)@.skip(n as int),
            n > old(self)@.len() ==> r@ == old(self)@ && final(self)@.len() == 0,
    {
        proof { use_type_invariant(&*self); }
        let left = self.data.len() - self.pos;
        let k = if n <= left { n } else { left };
        let out = copy_range(self.data.as_slice(), self.pos, self.pos + k);
        self.pos = self.pos + k;
        assert(out@ =~= old(self)@.take(k as int));
        assert(self.data@.skip(self.pos as int) =~= old(self)@.skip(k as int));
        assert(n > old(self)@.len() ==> old(self)@.take(k as int) =~= old(self)@);
        out
    }

    /// A copy of the first `n` bytes not read yet (all of them when fewer
    /// are left), leaving the stream as it is.
    pub fn head(&self, n: usize) -> (r: Vec<u8>)
        ensures
            r@ == self@.take(if n < self@.len() { n as int } else { self@.len() as int }),
    {
        proof { use_type_invariant(self); }
        let left = self.data.len() - self.pos;
        let k = if n < left { n } else { left };
        let out = copy_range(self.data.as_slice(), self.pos, self.pos + k);
        assert(out@ =~= self@.take(k as int));
        out
    }

    /// Adds `more` behind the bytes not read yet; the bytes already read are
    /// let go.
    pub fn extend(&mut self, more: &[u8])
        ensures
            final(self)@ == old(self)@ + more@,
    {
        proof { use_type_invariant(&*self); }
        let mut data = copy_range(self.data.as_slice(), self.pos, self.data.len());
        let mut i: usize = 0;
        while i < more.len()
            invariant
                i <= more.len(),
                data@ == old(self)@ + more@.take(i as int),
            decreases more.len() - i,
        {
            data.push(more[i]);
            assert(more@.take(i + 1) =~= more@.take(i as int).push(more@[i as int]));
            i = i + 1;
        }
        assert(more@.take(more.len() as int) =~= more@);
        assert(data@ =~= data@.skip(0));
        *self = ByteReader { data, pos: 0 };
    }

    /// Reads everything that is left.
    pub fn read_to_end(&mut self) -> (r: Vec<u8>)
        ensures
            r@ == old(self)@,
            final(self)@.len() == 0,
    {
        proof { use_type_invariant(&*self); }
        let out = copy_range(self.data.as_slice(), self.pos, self.data.len());
        self.pos = self.data.len();
        assert(out@ =~= old(self)@);
        out
    }
}

/// A copy of `data`.
pub fn copy_bytes(data: &[u8]) -> (r: Vec<u8>)
    ensures
        r@ == data@,
{
    let r = copy_range(data, 0, data.len());
    assert(r@ =~= data@);
    r
}

/// The bytes `data[from..to]` as a new vector.
fn copy_range(data: &[u8], from: usize, to: usize) -> (r: Vec<u8>)
    requires
        from <= to <= data@.len(),
    ensures
        r@ == data@.subrange(from as int, to as int),
{
    let mut out: Vec<u8> = Vec::new();
    let mut i: usize = from;
    while i < to
        invariant
            from <= i <= to <= data@.len(),
            out@ == data@.subrange(from as int, i as int),
        decreases to - i,
    {
        out.push(data[i]);
        i = i + 1;
        assert(out@ =~= data@.subrange(from as int, i as int));
    }
    out
}

} // verus!
