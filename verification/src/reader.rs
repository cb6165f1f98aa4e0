//! A forward-only cursor over a byte slice, and the big-endian integer read
//! that every chunk field goes through.
use vstd::prelude::*;
use vstd::slice::{slice_subrange, slice_to_vec};
use byteorder::ByteOrder;

verus! {

/// The unsigned big-endian value of the four bytes of `s` starting at `i`.
pub open spec fn be_u32_at(s: Seq<u8>, i: int) -> int
    recommends
        0 <= i,
        i + 4 <= s.len(),
{
    (s[i] as int) * 0x1000000 + (s[i + 1] as int) * 0x10000 + (s[i + 2] as int) * 0x100 + (s[i
        + 3] as int)
}

/// Relies on byteorder::BigEndian::read_u32: the big-endian interpretation of
/// the first four bytes of the given slice.
#[verifier::external_body]
fn read_u32_be(b: &[u8]) -> (r: u32)
    requires
        b@.len() >= 4,
    ensures
        r as int == be_u32_at(b@, 0),
{
    byteorder::BigEndian::read_u32(b)
}

/// A cursor over an in-memory byte source. Decoders advance `pos` by exactly
/// the bytes they consume and never move it backwards.
pub struct ByteReader<'a> {
    pub data: &'a [u8],
    pub pos: usize,
}

impl<'a> ByteReader<'a> {
    /// A reader is positioned inside (or exactly at the end of) its data.
    pub open spec fn wf(self) -> bool {
        self.pos <= self.data@.len()
    }

    /// The bytes not yet consumed.
    pub open spec fn remaining(self) -> Seq<u8> {
        self.data@.skip(self.pos as int)
    }

    pub fn new(data: &'a [u8]) -> (r: ByteReader<'a>)
        ensures
            r.wf(),
            r.data@ == data@,
            r.pos == 0,
            r.remaining() == data@,
    {
        let r = ByteReader { data, pos: 0 };
        proof {
            assert(r.remaining() =~= data@);
        }
        r
    }

    /// How many bytes are left to read.
    pub fn left(&self) -> (n: usize)
        requires
            self.wf(),
        ensures
            n == self.remaining().len(),
    {
        self.data.len() - self.pos
    }

    /// Reads the big-endian `u32` at offset `off` past the cursor, without
    /// advancing.
    pub fn peek_u32_at(&self, off: usize) -> (r: u32)
        requires
            self.wf(),
            off + 4 <= self.remaining().len(),
        ensures
            r as int == be_u32_at(self.remaining(), off as int),
    {
        // the length call puts the slice's usize bound in scope
        let _total: usize = self.data.len();
        let start: usize = self.pos + off;
        let sub = slice_subrange(self.data, start, start + 4);
        let r = read_u32_be(sub);
        proof {
            assert(sub@ =~= self.remaining().subrange(off as int, off as int + 4));
        }
        r
    }

    /// Copies `n` bytes starting at offset `off` past the cursor, without
    /// advancing.
    pub fn peek_bytes_at(&self, off: usize, n: usize) -> (r: Vec<u8>)
        requires
            self.wf(),
            off + n <= self.remaining().len(),
        ensures
            r@ == self.remaining().subrange(off as int, off as int + n as int),
    {
        let _total: usize = self.data.len();
        let start: usize = self.pos + off;
        let sub = slice_subrange(self.data, start, start + n);
        let v = slice_to_vec(sub);
        proof {
            assert(v@ =~= self.remaining().subrange(off as int, off as int + n as int));
        }
        v
    }

    /// Moves the cursor forward over `n` consumed bytes.
    pub fn advance(&mut self, n: usize)
        requires
            old(self).wf(),
            n <= old(self).remaining().len(),
        ensures
            final(self).wf(),
            final(self).data@ == old(self).data@,
            final(self).pos == old(self).pos + n,
            final(self).remaining() == old(self).remaining().skip(n as int),
    {
        let _total: usize = self.data.len();
        self.pos = self.pos + n;
        proof {
            assert(self.remaining() =~= old(self).remaining().skip(n as int));
        }
    }
}

} // verus!
