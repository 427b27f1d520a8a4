//! The link-layer header: destination and source addresses (6 bytes each)
//! and a 16-bit ethertype, 14 bytes in all. Its envelope is the raw buffer
//! itself, so its header always begins at offset 0 of a freshly parsed or
//! freshly pushed stack.

use vstd::prelude::*;

verus! {

use crate::ParseError;
use crate::PushError;
use crate::buf::Buf;
use crate::buf::zero_bytes;
use crate::buf::be16;
use crate::buf::set_be16;

/// Fixed size of the link-layer header in bytes.
pub const ETHERNET_HEADER_LEN: usize = 14;

/// A six-byte hardware address, held as plain bytes in wire order.
#[derive(Clone, Copy, Debug, PartialEq, Eq, Structural)]
pub struct MacAddr {
    pub b0: u8,
    pub b1: u8,
    pub b2: u8,
    pub b3: u8,
    pub b4: u8,
    pub b5: u8,
}

/// The six-byte address held by `b` at `off`.
pub open spec fn mac_at(b: Seq<u8>, off: int) -> MacAddr {
    MacAddr {
        b0: b[off],
        b1: b[off + 1],
        b2: b[off + 2],
        b3: b[off + 3],
        b4: b[off + 4],
        b5: b[off + 5],
    }
}

/// `b` with the six bytes of `m` written at `off`.
pub open spec fn set_mac(b: Seq<u8>, off: int, m: MacAddr) -> Seq<u8> {
    b.update(off, m.b0).update(off + 1, m.b1).update(off + 2, m.b2).update(off + 3, m.b3).update(
        off + 4,
        m.b4,
    ).update(off + 5, m.b5)
}

/// The outermost layer: a 14-byte window over the start of the buffer.
pub struct Ethernet {
    pub buf: Buf,
    pub offset: usize,
}

impl Ethernet {
    /// The bytes of the whole buffer this layer is overlaid on.
    pub open spec fn bytes(&self) -> Seq<u8> {
        self.buf@
    }

    /// The capacity of the underlying buffer.
    pub open spec fn cap(&self) -> nat {
        self.buf.cap()
    }

    pub open spec fn header_len_spec(&self) -> int {
        ETHERNET_HEADER_LEN as int
    }

    /// Where the next layer's header begins.
    pub open spec fn payload_offset_spec(&self) -> int {
        self.offset + ETHERNET_HEADER_LEN
    }

    /// The layer's window lies within the buffer.
    pub open spec fn wf(&self) -> bool {
        &&& self.buf.wf()
        &&& self.offset == 0
        &&& self.offset + ETHERNET_HEADER_LEN <= self.bytes().len()
    }

    /// Overlay the header on an existing buffer, reading nothing and
    /// validating no field. Fails exactly when the buffer is too short
    /// for the fixed header.
    pub fn try_parse(buf: Buf) -> (r: Result<Ethernet, ParseError>)
        requires
            buf.wf(),
        ensures
            match r {
                Ok(eth) => {
                    &&& buf@.len() >= ETHERNET_HEADER_LEN
                    &&& eth.bytes() == buf@
                    &&& eth.cap() == buf.cap()
                    &&& eth.offset == 0
                    &&& eth.wf()
                },
                Err(e) => {
                    &&& buf@.len() < ETHERNET_HEADER_LEN
                    &&& e == ParseError::BufferTooShort
                },
            },
    {
        if buf.len() < ETHERNET_HEADER_LEN {
            return Err(ParseError::BufferTooShort);
        }
        Ok(Ethernet { buf, offset: 0 })
    }

    /// Make room for a fresh, zero-valued header at the start of the
    /// buffer, shifting any existing bytes right. Fails exactly when the
    /// grown buffer would exceed its capacity, leaving it unchanged.
    pub fn try_push(buf: Buf) -> (r: Result<Ethernet, PushError>)
        requires
            buf.wf(),
        ensures
            match r {
                Ok(eth) => {
                    &&& buf@.len() + ETHERNET_HEADER_LEN <= buf.cap()
                    &&& eth.bytes() == zero_bytes(ETHERNET_HEADER_LEN as nat) + buf@
                    &&& eth.cap() == buf.cap()
                    &&& eth.offset == 0
                    &&& eth.wf()
                },
                Err(e) => {
                    &&& buf@.len() + ETHERNET_HEADER_LEN > buf.cap()
                    &&& e == PushError::CapacityExceeded
                },
            },
    {
        let mut b = buf;
        match b.extend(0, ETHERNET_HEADER_LEN) {
            Ok(()) => {
                proof {
                    assert(b@ =~= zero_bytes(ETHERNET_HEADER_LEN as nat) + buf@);
                }
                Ok(Ethernet { buf: b, offset: 0 })
            },
            Err(e) => Err(e),
        }
    }

    /// Discard this layer's view and hand the buffer back. The bytes are
    /// untouched: unwinding a layer never mutates the buffer.
    pub fn deparse(self) -> (b: Buf)
        ensures
            b == self.buf,
            b@ == self.bytes(),
            b.cap() == self.cap(),
    {
        self.buf
    }

    /// Absolute byte position where this header begins.
    pub fn offset(&self) -> (r: usize)
        ensures
            r == self.offset,
    {
        self.offset
    }

    /// The header's size. Fixed: this layout has no variable part.
    pub fn header_len(&self) -> (r: usize)
        ensures
            r as int == self.header_len_spec(),
    {
        ETHERNET_HEADER_LEN
    }

    /// Absolute byte position where the next layer's header begins.
    pub fn payload_offset(&self) -> (r: usize)
        requires
            self.wf(),
        ensures
            r as int == self.payload_offset_spec(),
    {
        self.offset + ETHERNET_HEADER_LEN
    }

    /// The destination address.
    pub fn dst(&self) -> (r: MacAddr)
        requires
            self.wf(),
        ensures
            r == mac_at(self.bytes(), self.offset as int),
    {
        self.read_mac(self.offset)
    }

    /// The source address.
    pub fn src(&self) -> (r: MacAddr)
        requires
            self.wf(),
        ensures
            r == mac_at(self.bytes(), self.offset + 6),
    {
        self.read_mac(self.offset + 6)
    }

    /// Overwrite the destination address.
    pub fn set_dst(&mut self, m: MacAddr)
        requires
            old(self).wf(),
        ensures
            final(self).bytes() == set_mac(old(self).bytes(), old(self).offset as int, m),
            final(self).offset == old(self).offset,
            final(self).cap() == old(self).cap(),
            final(self).wf(),
    {
        self.write_mac(self.offset, m);
    }

    /// Overwrite the source address.
    pub fn set_src(&mut self, m: MacAddr)
        requires
            old(self).wf(),
        ensures
            final(self).bytes() == set_mac(old(self).bytes(), old(self).offset + 6, m),
            final(self).offset == old(self).offset,
            final(self).cap() == old(self).cap(),
            final(self).wf(),
    {
        self.write_mac(self.offset + 6, m);
    }

    /// The 16-bit protocol identifier of the payload.
    pub fn ethertype(&self) -> (r: u16)
        requires
            self.wf(),
        ensures
            r as int == be16(self.bytes(), self.offset + 12),
    {
        self.buf.read_u16_be(self.offset + 12)
    }

    /// Overwrite the payload's protocol identifier.
    pub fn set_ethertype(&mut self, v: u16)
        requires
            old(self).wf(),
        ensures
            final(self).bytes() == set_be16(old(self).bytes(), old(self).offset + 12, v as int),
            final(self).offset == old(self).offset,
            final(self).cap() == old(self).cap(),
            final(self).wf(),
    {
        self.buf.write_u16_be(self.offset + 12, v);
    }

    fn read_mac(&self, at: usize) -> (r: MacAddr)
        requires
            self.wf(),
            self.offset <= at,
            at + 6 <= self.offset + ETHERNET_HEADER_LEN,
        ensures
            r == mac_at(self.bytes(), at as int),
    {
        MacAddr {
            b0: self.buf.read_u8(at),
            b1: self.buf.read_u8(at + 1),
            b2: self.buf.read_u8(at + 2),
            b3: self.buf.read_u8(at + 3),
            b4: self.buf.read_u8(at + 4),
            b5: self.buf.read_u8(at + 5),
        }
    }

    fn write_mac(&mut self, at: usize, m: MacAddr)
        requires
            old(self).wf(),
            old(self).offset <= at,
            at + 6 <= old(self).offset + ETHERNET_HEADER_LEN,
        ensures
            final(self).bytes() == set_mac(old(self).bytes(), at as int, m),
            final(self).offset == old(self).offset,
            final(self).cap() == old(self).cap(),
            final(self).wf(),
    {
        self.buf.write_u8(at, m.b0);
        self.buf.write_u8(at + 1, m.b1);
        self.buf.write_u8(at + 2, m.b2);
        self.buf.write_u8(at + 3, m.b3);
        self.buf.write_u8(at + 4, m.b4);
        self.buf.write_u8(at + 5, m.b5);
    }
}

} // verus!
