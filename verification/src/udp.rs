//! The transport-layer header: source port, destination port, length and
//! checksum, 8 bytes in all, directly after the network-layer header. An
//! application header such as the RTP layout rides on it.

use vstd::prelude::*;

verus! {

use crate::ParseError;
use crate::PushError;
use crate::buf::zero_bytes;
use crate::buf::be16;
use crate::buf::set_be16;
use crate::ipv4::Ipv4;

/// Fixed size of the transport-layer header in bytes.
pub const UDP_HEADER_LEN: usize = 8;

/// An 8-byte header window chained onto the network layer beneath it.
pub struct Udp {
    pub envelope: Ipv4,
    pub offset: usize,
}

impl Udp {
    /// The bytes of the whole buffer this layer is overlaid on.
    pub open spec fn bytes(&self) -> Seq<u8> {
        self.envelope.bytes()
    }

    /// The capacity of the underlying buffer.
    pub open spec fn cap(&self) -> nat {
        self.envelope.cap()
    }

    pub open spec fn header_len_spec(&self) -> int {
        UDP_HEADER_LEN as int
    }

    /// Where the next layer's header begins.
    pub open spec fn payload_offset_spec(&self) -> int {
        self.offset + UDP_HEADER_LEN
    }

    /// The layer sits exactly at its envelope's payload offset and its
    /// window lies within the buffer.
    pub open spec fn wf(&self) -> bool {
        &&& self.envelope.wf()
        &&& self.offset == self.envelope.payload_offset_spec()
        &&& self.offset + UDP_HEADER_LEN <= self.bytes().len()
    }

    /// Overlay the header at the envelope's payload offset, reading
    /// nothing and validating no field. Fails exactly when the buffer is
    /// too short for the fixed header.
    pub fn try_parse(envelope: Ipv4) -> (r: Result<Udp, ParseError>)
        requires
            envelope.wf(),
        ensures
            match r {
                Ok(p) => {
                    &&& envelope.payload_offset_spec() + UDP_HEADER_LEN <= envelope.bytes().len()
                    &&& p.envelope == envelope
                    &&& p.bytes() == envelope.bytes()
                    &&& p.cap() == envelope.cap()
                    &&& p.offset == envelope.payload_offset_spec()
                    &&& p.wf()
                },
                Err(e) => {
                    &&& envelope.payload_offset_spec() + UDP_HEADER_LEN > envelope.bytes().len()
                    &&& e == ParseError::BufferTooShort
                },
            },
    {
        let off = envelope.payload_offset();
        let n = envelope.envelope.buf.len();
        if n - off < UDP_HEADER_LEN {
            return Err(ParseError::BufferTooShort);
        }
        Ok(Udp { envelope, offset: off })
    }

    /// Make room for a fresh, zero-valued header at the envelope's payload
    /// offset, shifting the trailing bytes right. Fails exactly when the
    /// grown buffer would exceed its capacity, leaving it unchanged.
    pub fn try_push(envelope: Ipv4) -> (r: Result<Udp, PushError>)
        requires
            envelope.wf(),
        ensures
            match r {
                Ok(p) => {
                    &&& envelope.bytes().len() + UDP_HEADER_LEN <= envelope.cap()
                    &&& p.bytes() == envelope.bytes().subrange(0, envelope.payload_offset_spec())
                        + zero_bytes(UDP_HEADER_LEN as nat) + envelope.bytes().subrange(
                        envelope.payload_offset_spec(),
                        envelope.bytes().len() as int,
                    )
                    &&& p.cap() == envelope.cap()
                    &&& p.offset == envelope.payload_offset_spec()
                    &&& p.envelope.offset == envelope.offset
                    &&& p.envelope.envelope.offset == envelope.envelope.offset
                    &&& p.wf()
                },
                Err(e) => {
                    &&& envelope.bytes().len() + UDP_HEADER_LEN > envelope.cap()
                    &&& e == PushError::CapacityExceeded
                },
            },
    {
        let mut envelope = envelope;
        let off = envelope.payload_offset();
        match envelope.envelope.buf.extend(off, UDP_HEADER_LEN) {
            Ok(()) => Ok(Udp { envelope, offset: off }),
            Err(e) => Err(e),
        }
    }

    /// Discard this layer's view and return ownership of its envelope.
    /// The bytes are untouched.
    pub fn deparse(self) -> (e: Ipv4)
        ensures
            e == self.envelope,
            e.bytes() == self.bytes(),
            e.cap() == self.cap(),
    {
        self.envelope
    }

    /// Absolute byte position where this header begins.
    pub fn offset(&self) -> (r: usize)
        ensures
            r == self.offset,
    {
        self.offset
    }

    /// The header's size. Fixed: this layout has no variable part.
    pub fn header_len(&self) -> (r: usize)
        ensures
            r as int == self.header_len_spec(),
    {
        UDP_HEADER_LEN
    }

    /// Absolute byte position where the next layer's header begins.
    pub fn payload_offset(&self) -> (r: usize)
        requires
            self.wf(),
        ensures
            r as int == self.payload_offset_spec(),
    {
        self.offset + UDP_HEADER_LEN
    }

    /// The source port.
    pub fn src_port(&self) -> (r: u16)
        requires
            self.wf(),
        ensures
            r as int == be16(self.bytes(), self.offset as int),
    {
        self.envelope.envelope.buf.read_u16_be(self.offset)
    }

    /// The destination port.
    pub fn dst_port(&self) -> (r: u16)
        requires
            self.wf(),
        ensures
            r as int == be16(self.bytes(), self.offset + 2),
    {
        self.envelope.envelope.buf.read_u16_be(self.offset + 2)
    }

    /// The 16-bit length field.
    pub fn length(&self) -> (r: u16)
        requires
            self.wf(),
        ensures
            r as int == be16(self.bytes(), self.offset + 4),
    {
        self.envelope.envelope.buf.read_u16_be(self.offset + 4)
    }

    /// Overwrite the source port.
    pub fn set_src_port(&mut self, v: u16)
        requires
            old(self).wf(),
        ensures
            final(self).bytes() == set_be16(old(self).bytes(), old(self).offset as int, v as int),
            final(self).offset == old(self).offset,
            final(self).envelope.offset == old(self).envelope.offset,
            final(self).envelope.envelope.offset == old(self).envelope.envelope.offset,
            final(self).cap() == old(self).cap(),
            final(self).wf(),
    {
        self.envelope.envelope.buf.write_u16_be(self.offset, v);
    }

    /// Overwrite the destination port.
    pub fn set_dst_port(&mut self, v: u16)
        requires
            old(self).wf(),
        ensures
            final(self).bytes() == set_be16(old(self).bytes(), old(self).offset + 2, v as int),
            final(self).offset == old(self).offset,
            final(self).envelope.offset == old(self).envelope.offset,
            final(self).envelope.envelope.offset == old(self).envelope.envelope.offset,
            final(self).cap() == old(self).cap(),
            final(self).wf(),
    {
        proof {
            self.envelope.envelope.buf.lemma_len_bound();
        }
        self.envelope.envelope.buf.write_u16_be(self.offset + 2, v);
    }

    /// Overwrite the 16-bit length field.
    pub fn set_length(&mut self, v: u16)
        requires
            old(self).wf(),
        ensures
            final(self).bytes() == set_be16(old(self).bytes(), old(self).offset + 4, v as int),
            final(self).offset == old(self).offset,
            final(self).envelope.offset == old(self).envelope.offset,
            final(self).envelope.envelope.offset == old(self).envelope.envelope.offset,
            final(self).cap() == old(self).cap(),
            final(self).wf(),
    {
        proof {
            self.envelope.envelope.buf.lemma_len_bound();
        }
        self.envelope.envelope.buf.write_u16_be(self.offset + 4, v);
    }
}

} // verus!
