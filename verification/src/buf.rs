//! The raw buffer: a contiguous, resizable byte region with bounds-checked
//! typed reads and writes, and with extend/shrink operations that shift the
//! trailing bytes. Every layer of a packet reads and writes through one
//! shared `Buf`, addressed by absolute byte offsets.

use vstd::prelude::*;

verus! {

use crate::ParseError;
use crate::PushError;

/// `n` zero bytes, as a sequence.
pub open spec fn zero_bytes(n: nat) -> Seq<u8> {
    Seq::new(n, |i: int| 0u8)
}

/// The 16-bit big-endian (network order) integer held by `b` at `off`.
pub open spec fn be16(b: Seq<u8>, off: int) -> int {
    (b[off] as int) * 0x100 + (b[off + 1] as int)
}

/// The 32-bit big-endian (network order) integer held by `b` at `off`.
pub open spec fn be32(b: Seq<u8>, off: int) -> int {
    (b[off] as int) * 0x100_0000 + (b[off + 1] as int) * 0x1_0000 + (b[off + 2] as int) * 0x100
        + (b[off + 3] as int)
}

/// `b` with the 16-bit big-endian encoding of `v` written at `off`.
pub open spec fn set_be16(b: Seq<u8>, off: int, v: int) -> Seq<u8> {
    b.update(off, (v / 0x100 % 0x100) as u8).update(off + 1, (v % 0x100) as u8)
}

/// `b` with the 32-bit big-endian encoding of `v` written at `off`.
pub open spec fn set_be32(b: Seq<u8>, off: int, v: int) -> Seq<u8> {
    b.update(off, (v / 0x100_0000 % 0x100) as u8).update(off + 1, (v / 0x1_0000 % 0x100) as u8)
        .update(off + 2, (v / 0x100 % 0x100) as u8).update(off + 3, (v % 0x100) as u8)
}

/// Writing a 16-bit value and reading it back at the same offset yields
/// the value, and no byte outside the two written positions changes.
pub proof fn lemma_be16_round_trip(b: Seq<u8>, off: int, v: int)
    requires
        0 <= off,
        off + 2 <= b.len(),
        0 <= v < 0x1_0000,
    ensures
        be16(set_be16(b, off, v), off) == v,
        set_be16(b, off, v).len() == b.len(),
        forall|i: int| 0 <= i < b.len() && i != off && i != off + 1 ==> set_be16(b, off, v)[i] == b[i],
{
}

/// Writing a 32-bit value and reading it back at the same offset yields
/// the value, and no byte outside the four written positions changes.
pub proof fn lemma_be32_round_trip(b: Seq<u8>, off: int, v: int)
    requires
        0 <= off,
        off + 4 <= b.len(),
        0 <= v < 0x1_0000_0000,
    ensures
        be32(set_be32(b, off, v), off) == v,
        set_be32(b, off, v).len() == b.len(),
        forall|i: int| 0 <= i < b.len() && !(off <= i < off + 4) ==> set_be32(b, off, v)[i] == b[i],
{
    assert((v / 0x100_0000 % 0x100) * 0x100_0000 + (v / 0x1_0000 % 0x100) * 0x1_0000
        + (v / 0x100 % 0x100) * 0x100 + v % 0x100 == v) by (nonlinear_arith)
        requires 0 <= v < 0x1_0000_0000;
}

/// A contiguous byte region of current length `self@.len()` and fixed
/// capacity `self.cap()`. All offsets are absolute positions within the
/// single physical region shared by every layer overlaid on it.
pub struct Buf {
    data: Vec<u8>,
    capacity: usize,
}

impl View for Buf {
    type V = Seq<u8>;

    closed spec fn view(&self) -> Seq<u8> {
        self.data@
    }
}

impl Buf {
    /// The fixed capacity the buffer was allocated with.
    pub closed spec fn cap(&self) -> nat {
        self.capacity as nat
    }

    /// The current length never exceeds the capacity.
    pub open spec fn wf(&self) -> bool {
        self@.len() <= self.cap()
    }

    /// The byte count always fits the machine's word: offsets computed
    /// from it cannot overflow.
    pub proof fn lemma_len_bound(&self)
        ensures
            self@.len() <= usize::MAX,
    {
        assert(self.data.len() == self@.len());
    }

    /// Allocate an empty buffer of the given capacity.
    pub fn allocate(capacity: usize) -> (b: Buf)
        ensures
            b@ == Seq::<u8>::empty(),
            b.cap() == capacity,
            b.wf(),
    {
        Buf { data: Vec::new(), capacity }
    }

    /// The number of bytes currently held.
    pub fn len(&self) -> (n: usize)
        ensures
            n == self@.len(),
    {
        self.data.len()
    }

    /// The byte at `offset`.
    pub fn read_u8(&self, offset: usize) -> (r: u8)
        requires
            offset < self@.len(),
        ensures
            r == self@[offset as int],
    {
        self.data[offset]
    }

    /// Overwrite the byte at `offset`.
    pub fn write_u8(&mut self, offset: usize, v: u8)
        requires
            offset < old(self)@.len(),
        ensures
            final(self)@ == old(self)@.update(offset as int, v),
            final(self).cap() == old(self).cap(),
    {
        self.data.set(offset, v);
    }

    /// The 16-bit big-endian integer at `offset`.
    pub fn read_u16_be(&self, offset: usize) -> (r: u16)
        requires
            offset + 2 <= self@.len(),
        ensures
            r as int == be16(self@, offset as int),
    {
        proof {
            assert(self.data.len() == self@.len());
        }
        let hi = self.read_u8(offset);
        let lo = self.read_u8(offset + 1);
        (hi as u16) * 0x100 + (lo as u16)
    }

    /// Write `v` at `offset` in big-endian order.
    pub fn write_u16_be(&mut self, offset: usize, v: u16)
        requires
            offset + 2 <= old(self)@.len(),
        ensures
            final(self)@ == set_be16(old(self)@, offset as int, v as int),
            final(self).cap() == old(self).cap(),
    {
        proof {
            assert(self.data.len() == self@.len());
        }
        self.write_u8(offset, (v / 0x100) as u8);
        self.write_u8(offset + 1, (v % 0x100) as u8);
    }

    /// The 32-bit big-endian integer at `offset`.
    pub fn read_u32_be(&self, offset: usize) -> (r: u32)
        requires
            offset + 4 <= self@.len(),
        ensures
            r as int == be32(self@, offset as int),
    {
        proof {
            assert(self.data.len() == self@.len());
        }
        let b0 = self.read_u8(offset);
        let b1 = self.read_u8(offset + 1);
        let b2 = self.read_u8(offset + 2);
        let b3 = self.read_u8(offset + 3);
        (b0 as u32) * 0x100_0000 + (b1 as u32) * 0x1_0000 + (b2 as u32) * 0x100 + (b3 as u32)
    }

    /// Write `v` at `offset` in big-endian order.
    pub fn write_u32_be(&mut self, offset: usize, v: u32)
        requires
            offset + 4 <= old(self)@.len(),
        ensures
            final(self)@ == set_be32(old(self)@, offset as int, v as int),
            final(self).cap() == old(self).cap(),
    {
        proof {
            assert(self.data.len() == self@.len());
        }
        self.write_u8(offset, (v / 0x100_0000) as u8);
        self.write_u8(offset + 1, (v / 0x1_0000 % 0x100) as u8);
        self.write_u8(offset + 2, (v / 0x100 % 0x100) as u8);
        self.write_u8(offset + 3, (v % 0x100) as u8);
    }

    /// Insert `n` zero bytes at `offset`, shifting everything at and after
    /// `offset` right. All-or-nothing: on failure the buffer is unchanged.
    pub fn extend(&mut self, offset: usize, n: usize) -> (r: Result<(), PushError>)
        requires
            offset <= old(self)@.len(),
            old(self).wf(),
        ensures
            final(self).cap() == old(self).cap(),
            final(self).wf(),
            match r {
                Ok(()) => {
                    &&& old(self)@.len() + n <= old(self).cap()
                    &&& final(self)@ == old(self)@.subrange(0, offset as int) + zero_bytes(n as nat)
                        + old(self)@.subrange(offset as int, old(self)@.len() as int)
                },
                Err(e) => {
                    &&& old(self)@.len() + n > old(self).cap()
                    &&& final(self)@ == old(self)@
                    &&& e == PushError::CapacityExceeded
                },
            },
    {
        if n > self.capacity - self.data.len() {
            return Err(PushError::CapacityExceeded);
        }
        let ghost orig = self.data@;
        let mut i: usize = 0;
        while i < n
            invariant
                i <= n,
                offset <= orig.len(),
                self.data@ == orig.subrange(0, offset as int) + zero_bytes(i as nat)
                    + orig.subrange(offset as int, orig.len() as int),
                self.capacity == old(self).cap(),
                orig.len() + n <= self.capacity,
            decreases n - i,
        {
            self.data.insert(offset, 0);
            proof {
                assert(self.data@ =~= orig.subrange(0, offset as int)
                    + zero_bytes((i + 1) as nat)
                    + orig.subrange(offset as int, orig.len() as int));
            }
            i = i + 1;
        }
        Ok(())
    }

    /// Remove `n` bytes at `offset`, shifting everything after the removed
    /// region left.
    pub fn shrink(&mut self, offset: usize, n: usize) -> (r: Result<(), ParseError>)
        requires
            old(self).wf(),
        ensures
            final(self).cap() == old(self).cap(),
            final(self).wf(),
            match r {
                Ok(()) => {
                    &&& offset + n <= old(self)@.len()
                    &&& final(self)@ == old(self)@.subrange(0, offset as int)
                        + old(self)@.subrange(offset + n, old(self)@.len() as int)
                },
                Err(e) => {
                    &&& offset + n > old(self)@.len()
                    &&& final(self)@ == old(self)@
                    &&& e == ParseError::BufferTooShort
                },
            },
    {
        if offset > self.data.len() || n > self.data.len() - offset {
            return Err(ParseError::BufferTooShort);
        }
        let ghost orig = self.data@;
        let mut i: usize = 0;
        while i < n
            invariant
                i <= n,
                offset + n <= orig.len(),
                self.data@ == orig.subrange(0, offset as int)
                    + orig.subrange(offset + i, orig.len() as int),
                self.capacity == old(self).cap(),
                orig.len() <= self.capacity,
            decreases n - i,
        {
            self.data.remove(offset);
            proof {
                assert(self.data@ =~= orig.subrange(0, offset as int)
                    + orig.subrange(offset + i + 1, orig.len() as int));
            }
            i = i + 1;
        }
        Ok(())
    }
}

} // verus!
