//! Big-endian integer layout and a sequential byte cursor.

use crate::errors::SdmqError;
use vstd::prelude::*;

verus! {

/// The two big-endian bytes of a 16-bit integer.
pub open spec fn be16(x: u16) -> Seq<u8> {
    seq![(x / 0x100) as u8, (x % 0x100) as u8]
}

/// The four big-endian bytes of a 32-bit integer.
pub open spec fn be32(x: u32) -> Seq<u8> {
    seq![
        (x / 0x1000000) as u8,
        ((x / 0x10000) % 0x100) as u8,
        ((x / 0x100) % 0x100) as u8,
        (x % 0x100) as u8,
    ]
}

/// The 16-bit integer read big-endian from two bytes.
pub open spec fn be16_val(s: Seq<u8>) -> u16
    recommends
        s.len() == 2,
{
    (s[0] * 0x100 + s[1]) as u16
}

/// The 32-bit integer read big-endian from four bytes.
pub open spec fn be32_val(s: Seq<u8>) -> u32
    recommends
        s.len() == 4,
{
    (s[0] * 0x1000000 + s[1] * 0x10000 + s[2] * 0x100 + s[3]) as u32
}

/// Writing a 16-bit integer big-endian and reading it back is the identity.
pub proof fn lemma_be16_roundtrip(x: u16)
    ensures
        be16(x).len() == 2,
        be16_val(be16(x)) == x,
{
    assert(((x / 0x100) as u8) * 0x100 + ((x % 0x100) as u8) == x) by (bit_vector);
}

/// Writing a 32-bit integer big-endian and reading it back is the identity.
pub proof fn lemma_be32_roundtrip(x: u32)
    ensures
        be32(x).len() == 4,
        be32_val(be32(x)) == x,
{
    assert(((x / 0x1000000) as u8) * 0x1000000 + (((x / 0x10000) % 0x100) as u8) * 0x10000 + (((x
        / 0x100) % 0x100) as u8) * 0x100 + ((x % 0x100) as u8) == x) by (bit_vector);
}

/// The big-endian byte pair of a 16-bit integer, as a fixed-size block.
pub(crate) fn be16_array(x: u16) -> (r: [u8; 2])
    ensures
        r@ == be16(x),
{
    let r = [(x / 0x100) as u8, (x % 0x100) as u8];
    proof {
        assert(r@ =~= be16(x));
    }
    r
}

/// The big-endian byte quadruple of a 32-bit integer, as a fixed-size block.
pub(crate) fn be32_array(x: u32) -> (r: [u8; 4])
    ensures
        r@ == be32(x),
{
    let r = [
        (x / 0x1000000) as u8,
        ((x / 0x10000) % 0x100) as u8,
        ((x / 0x100) % 0x100) as u8,
        (x % 0x100) as u8,
    ];
    proof {
        assert(r@ =~= be32(x));
    }
    r
}

/// A sequential accessor over a byte region: reads consume big-endian
/// integers, writes copy fixed-size blocks, and both advance an offset.
/// Running past the end of the region is reported, never wrapped.
pub struct Cursor<T> {
    inner: T,
    pos: usize,
}

impl<T> Cursor<T> {
    /// The underlying region.
    pub closed spec fn spec_inner(self) -> T {
        self.inner
    }

    /// The current offset.
    pub closed spec fn spec_pos(self) -> int {
        self.pos as int
    }

    /// Wraps a region, with the offset at its start.
    pub fn new(buf: T) -> (r: Self)
        ensures
            r.spec_inner() == buf,
            r.spec_pos() == 0,
    {
        Self { inner: buf, pos: 0 }
    }
}

impl<'a> Cursor<&'a [u8]> {
    /// Consumes two bytes as a big-endian 16-bit integer.
    pub fn read_u16(&mut self) -> (r: Result<u16, SdmqError>)
        ensures
            r is Ok <==> old(self).spec_pos() + 2 <= old(self).spec_inner()@.len(),
            final(self).spec_inner() == old(self).spec_inner(),
            r matches Ok(v) ==> {
                &&& v == be16_val(
                    old(self).spec_inner()@.subrange(old(self).spec_pos(), old(self).spec_pos() + 2),
                )
                &&& final(self).spec_pos() == old(self).spec_pos() + 2
            },
            r is Err ==> r == Err::<u16, SdmqError>(SdmqError::BufferUnderrun) && *final(self)
                == *old(self),
    {
        let n = self.inner.len();
        if n < 2 || self.pos > n - 2 {
            return Err(SdmqError::BufferUnderrun);
        }
        let b0 = self.inner[self.pos];
        let b1 = self.inner[self.pos + 1];
        self.pos = self.pos + 2;
        Ok((b0 as u16) * 0x100 + (b1 as u16))
    }

    /// Consumes four bytes as a big-endian 32-bit integer.
    pub fn read_u32(&mut self) -> (r: Result<u32, SdmqError>)
        ensures
            r is Ok <==> old(self).spec_pos() + 4 <= old(self).spec_inner()@.len(),
            final(self).spec_inner() == old(self).spec_inner(),
            r matches Ok(v) ==> {
                &&& v == be32_val(
                    old(self).spec_inner()@.subrange(old(self).spec_pos(), old(self).spec_pos() + 4),
                )
                &&& final(self).spec_pos() == old(self).spec_pos() + 4
            },
            r is Err ==> r == Err::<u32, SdmqError>(SdmqError::BufferUnderrun) && *final(self)
                == *old(self),
    {
        let n = self.inner.len();
        if n < 4 || self.pos > n - 4 {
            return Err(SdmqError::BufferUnderrun);
        }
        let b0 = self.inner[self.pos];
        let b1 = self.inner[self.pos + 1];
        let b2 = self.inner[self.pos + 2];
        let b3 = self.inner[self.pos + 3];
        self.pos = self.pos + 4;
        Ok((b0 as u32) * 0x1000000 + (b1 as u32) * 0x10000 + (b2 as u32) * 0x100 + (b3 as u32))
    }
}

impl Cursor<Vec<u8>> {
    /// Copies a fixed-size block at the current offset and advances past it.
    pub fn write_n<const N: usize>(&mut self, data: [u8; N]) -> (r: Result<(), SdmqError>)
        ensures
            r is Ok <==> old(self).spec_pos() + N <= old(self).spec_inner()@.len(),
            r is Ok ==> {
                &&& final(self).spec_pos() == old(self).spec_pos() + N
                &&& final(self).spec_inner()@.len() == old(self).spec_inner()@.len()
                &&& final(self).spec_inner()@.subrange(
                    old(self).spec_pos(),
                    old(self).spec_pos() + N,
                ) == data@
                &&& forall|i: int|
                    0 <= i < old(self).spec_inner()@.len() && !(old(self).spec_pos() <= i < old(
                        self,
                    ).spec_pos() + N) ==> final(self).spec_inner()@[i] == old(self).spec_inner()@[i]
            },
            r is Err ==> r == Err::<(), SdmqError>(SdmqError::BufferOverrun) && *final(self) == *old(
                self,
            ),
    {
        let n = self.inner.len();
        if self.pos > n || N > n - self.pos {
            return Err(SdmqError::BufferOverrun);
        }
        let mut j: usize = 0;
        while j < N
            invariant
                j <= N,
                self.pos + N <= self.inner@.len(),
                self.inner@.len() <= usize::MAX,
                self.pos == old(self).spec_pos(),
                self.inner@.len() == old(self).spec_inner()@.len(),
                forall|k: int| 0 <= k < j ==> self.inner@[self.pos + k] == data@[k],
                forall|i: int|
                    0 <= i < self.inner@.len() && !(self.pos <= i < self.pos + j)
                        ==> self.inner@[i] == old(self).spec_inner()@[i],
            decreases N - j,
        {
            self.inner[self.pos + j] = data[j];
            j = j + 1;
        }
        self.pos = self.pos + N;
        proof {
            assert(self.spec_inner()@.subrange(old(self).spec_pos(), old(self).spec_pos() + N)
                =~= data@);
        }
        Ok(())
    }

    /// Hands the underlying region back.
    pub fn into_inner(self) -> (r: Vec<u8>)
        ensures
            r == self.spec_inner(),
    {
        self.inner
    }
}

} // verus!
