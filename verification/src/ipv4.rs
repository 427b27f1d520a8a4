//! The network-layer header: a 20-byte window directly after the
//! link-layer header. Reconciling it recomputes the total-length field
//! from the buffer's final size and then the header checksum, so it must
//! run only after every inner layer is final.

use vstd::prelude::*;

verus! {

use crate::FieldError;
use crate::ParseError;
use crate::PushError;
use crate::buf::Buf;
use crate::buf::zero_bytes;
use crate::buf::be16;
use crate::buf::be32;
use crate::buf::set_be16;
use crate::buf::set_be32;
use crate::checksum::checksum16;
use crate::checksum::checksum_field_ok;
use crate::checksum::compute_checksum;
use crate::ethernet::Ethernet;

/// Fixed size of the network-layer header in bytes.
pub const IPV4_HEADER_LEN: usize = 20;

/// A 20-byte header window chained onto the link layer beneath it.
pub struct Ipv4 {
    pub envelope: Ethernet,
    pub offset: usize,
}

impl Ipv4 {
    /// The bytes of the whole buffer this layer is overlaid on.
    pub open spec fn bytes(&self) -> Seq<u8> {
        self.envelope.bytes()
    }

    /// The capacity of the underlying buffer.
    pub open spec fn cap(&self) -> nat {
        self.envelope.cap()
    }

    pub open spec fn header_len_spec(&self) -> int {
        IPV4_HEADER_LEN as int
    }

    /// Where the next layer's header begins.
    pub open spec fn payload_offset_spec(&self) -> int {
        self.offset + IPV4_HEADER_LEN
    }

    /// The layer sits exactly at its envelope's payload offset and its
    /// window lies within the buffer.
    pub open spec fn wf(&self) -> bool {
        &&& self.envelope.wf()
        &&& self.offset == self.envelope.payload_offset_spec()
        &&& self.offset + IPV4_HEADER_LEN <= self.bytes().len()
    }

    /// Overlay the header at the envelope's payload offset, reading
    /// nothing and validating no field. Fails exactly when the buffer is
    /// too short for the fixed header.
    pub fn try_parse(envelope: Ethernet) -> (r: Result<Ipv4, ParseError>)
        requires
            envelope.wf(),
        ensures
            match r {
                Ok(p) => {
                    &&& envelope.payload_offset_spec() + IPV4_HEADER_LEN <= envelope.bytes().len()
                    &&& p.envelope == envelope
                    &&& p.bytes() == envelope.bytes()
                    &&& p.cap() == envelope.cap()
                    &&& p.offset == envelope.payload_offset_spec()
                    &&& p.wf()
                },
                Err(e) => {
                    &&& envelope.payload_offset_spec() + IPV4_HEADER_LEN > envelope.bytes().len()
                    &&& e == ParseError::BufferTooShort
                },
            },
    {
        let off = envelope.payload_offset();
        let n = envelope.buf.len();
        if n - off < IPV4_HEADER_LEN {
            return Err(ParseError::BufferTooShort);
        }
        Ok(Ipv4 { envelope, offset: off })
    }

    /// Make room for a fresh, zero-valued header at the envelope's payload
    /// offset, shifting the trailing bytes right. Fails exactly when the
    /// grown buffer would exceed its capacity, leaving it unchanged.
    pub fn try_push(envelope: Ethernet) -> (r: Result<Ipv4, PushError>)
        requires
            envelope.wf(),
        ensures
            match r {
                Ok(p) => {
                    &&& envelope.bytes().len() + IPV4_HEADER_LEN <= envelope.cap()
                    &&& p.bytes() == envelope.bytes().subrange(0, envelope.payload_offset_spec())
                        + zero_bytes(IPV4_HEADER_LEN as nat) + envelope.bytes().subrange(
                        envelope.payload_offset_spec(),
                        envelope.bytes().len() as int,
                    )
                    &&& p.cap() == envelope.cap()
                    &&& p.offset == envelope.payload_offset_spec()
                    &&& p.envelope.offset == envelope.offset
                    &&& p.wf()
                },
                Err(e) => {
                    &&& envelope.bytes().len() + IPV4_HEADER_LEN > envelope.cap()
                    &&& e == PushError::CapacityExceeded
                },
            },
    {
        let mut envelope = envelope;
        let off = envelope.payload_offset();
        match envelope.buf.extend(off, IPV4_HEADER_LEN) {
            Ok(()) => Ok(Ipv4 { envelope, offset: off }),
            Err(e) => Err(e),
        }
    }

    /// Discard this layer's view and return ownership of its envelope.
    /// The bytes are untouched.
    pub fn deparse(self) -> (e: Ethernet)
        ensures
            e == self.envelope,
            e.bytes() == self.bytes(),
            e.cap() == self.cap(),
    {
        self.envelope
    }

    /// The layer directly beneath this one.
    pub fn envelope(&self) -> (e: &Ethernet)
        ensures
            e == &self.envelope,
    {
        &self.envelope
    }

    /// Absolute byte position where this header begins.
    pub fn offset(&self) -> (r: usize)
        ensures
            r == self.offset,
    {
        self.offset
    }

    /// The header's size. Fixed: this layout has no variable part.
    pub fn header_len(&self) -> (r: usize)
        ensures
            r as int == self.header_len_spec(),
    {
        IPV4_HEADER_LEN
    }

    /// Absolute byte position where the next layer's header begins.
    pub fn payload_offset(&self) -> (r: usize)
        requires
            self.wf(),
        ensures
            r as int == self.payload_offset_spec(),
    {
        self.offset + IPV4_HEADER_LEN
    }

    /// The combined version-and-header-length byte.
    pub fn version_ihl(&self) -> (r: u8)
        requires
            self.wf(),
        ensures
            r == self.bytes()[self.offset as int],
    {
        self.envelope.buf.read_u8(self.offset)
    }

    /// The time-to-live field.
    pub fn ttl(&self) -> (r: u8)
        requires
            self.wf(),
        ensures
            r == self.bytes()[self.offset + 8],
    {
        self.envelope.buf.read_u8(self.offset + 8)
    }

    /// The protocol number of the payload.
    pub fn protocol(&self) -> (r: u8)
        requires
            self.wf(),
        ensures
            r == self.bytes()[self.offset + 9],
    {
        self.envelope.buf.read_u8(self.offset + 9)
    }

    /// The 16-bit total length field.
    pub fn total_length(&self) -> (r: u16)
        requires
            self.wf(),
        ensures
            r as int == be16(self.bytes(), self.offset + 2),
    {
        self.envelope.buf.read_u16_be(self.offset + 2)
    }

    /// The header checksum field.
    pub fn checksum(&self) -> (r: u16)
        requires
            self.wf(),
        ensures
            r as int == be16(self.bytes(), self.offset + 10),
    {
        self.envelope.buf.read_u16_be(self.offset + 10)
    }

    /// The 32-bit source address.
    pub fn src(&self) -> (r: u32)
        requires
            self.wf(),
        ensures
            r as int == be32(self.bytes(), self.offset + 12),
    {
        self.envelope.buf.read_u32_be(self.offset + 12)
    }

    /// The 32-bit destination address.
    pub fn dst(&self) -> (r: u32)
        requires
            self.wf(),
        ensures
            r as int == be32(self.bytes(), self.offset + 16),
    {
        self.envelope.buf.read_u32_be(self.offset + 16)
    }

    /// Overwrite the version-and-header-length byte.
    pub fn set_version_ihl(&mut self, v: u8)
        requires
            old(self).wf(),
        ensures
            final(self).bytes() == old(self).bytes().update(old(self).offset as int, v),
            final(self).offset == old(self).offset,
            final(self).envelope.offset == old(self).envelope.offset,
            final(self).cap() == old(self).cap(),
            final(self).wf(),
    {
        self.envelope.buf.write_u8(self.offset, v);
    }

    /// Overwrite the time-to-live field.
    pub fn set_ttl(&mut self, v: u8)
        requires
            old(self).wf(),
        ensures
            final(self).bytes() == old(self).bytes().update(old(self).offset + 8, v),
            final(self).offset == old(self).offset,
            final(self).envelope.offset == old(self).envelope.offset,
            final(self).cap() == old(self).cap(),
            final(self).wf(),
    {
        proof {
            self.envelope.buf.lemma_len_bound();
        }
        self.envelope.buf.write_u8(self.offset + 8, v);
    }

    /// Overwrite the protocol number of the payload.
    pub fn set_protocol(&mut self, v: u8)
        requires
            old(self).wf(),
        ensures
            final(self).bytes() == old(self).bytes().update(old(self).offset + 9, v),
            final(self).offset == old(self).offset,
            final(self).envelope.offset == old(self).envelope.offset,
            final(self).cap() == old(self).cap(),
            final(self).wf(),
    {
        proof {
            self.envelope.buf.lemma_len_bound();
        }
        self.envelope.buf.write_u8(self.offset + 9, v);
    }

    /// Overwrite the 16-bit total length field.
    pub fn set_total_length(&mut self, v: u16)
        requires
            old(self).wf(),
        ensures
            final(self).bytes() == set_be16(old(self).bytes(), old(self).offset + 2, v as int),
            final(self).offset == old(self).offset,
            final(self).envelope.offset == old(self).envelope.offset,
            final(self).cap() == old(self).cap(),
            final(self).wf(),
    {
        proof {
            self.envelope.buf.lemma_len_bound();
        }
        self.envelope.buf.write_u16_be(self.offset + 2, v);
    }

    /// Overwrite the header checksum field.
    pub fn set_checksum(&mut self, v: u16)
        requires
            old(self).wf(),
        ensures
            final(self).bytes() == set_be16(old(self).bytes(), old(self).offset + 10, v as int),
            final(self).offset == old(self).offset,
            final(self).envelope.offset == old(self).envelope.offset,
            final(self).cap() == old(self).cap(),
            final(self).wf(),
    {
        proof {
            self.envelope.buf.lemma_len_bound();
        }
        self.envelope.buf.write_u16_be(self.offset + 10, v);
    }

    /// Overwrite the 32-bit source address.
    pub fn set_src(&mut self, v: u32)
        requires
            old(self).wf(),
        ensures
            final(self).bytes() == set_be32(old(self).bytes(), old(self).offset + 12, v as int),
            final(self).offset == old(self).offset,
            final(self).envelope.offset == old(self).envelope.offset,
            final(self).cap() == old(self).cap(),
            final(self).wf(),
    {
        proof {
            self.envelope.buf.lemma_len_bound();
        }
        self.envelope.buf.write_u32_be(self.offset + 12, v);
    }

    /// Overwrite the 32-bit destination address.
    pub fn set_dst(&mut self, v: u32)
        requires
            old(self).wf(),
        ensures
            final(self).bytes() == set_be32(old(self).bytes(), old(self).offset + 16, v as int),
            final(self).offset == old(self).offset,
            final(self).envelope.offset == old(self).envelope.offset,
            final(self).cap() == old(self).cap(),
            final(self).wf(),
    {
        proof {
            self.envelope.buf.lemma_len_bound();
        }
        self.envelope.buf.write_u32_be(self.offset + 16, v);
    }

    /// Recompute the fields that depend on the inner layers' final sizes:
    /// the total length becomes the byte count from this header to the end
    /// of the buffer, then the header checksum is recomputed over the
    /// 20-byte header with its checksum field zeroed. Fails exactly when
    /// that byte count does not fit the 16-bit length field; the buffer is
    /// then unchanged.
    pub fn reconcile(&mut self) -> (r: Result<(), FieldError>)
        requires
            old(self).wf(),
        ensures
            final(self).offset == old(self).offset,
            final(self).envelope.offset == old(self).envelope.offset,
            final(self).cap() == old(self).cap(),
            final(self).wf(),
            match r {
                Ok(()) => {
                    &&& old(self).bytes().len() - old(self).offset <= 0xffff
                    &&& ({
                        let z = set_be16(
                            set_be16(
                                old(self).bytes(),
                                old(self).offset + 2,
                                old(self).bytes().len() - old(self).offset,
                            ),
                            old(self).offset + 10,
                            0,
                        );
                        final(self).bytes() == set_be16(
                            z,
                            old(self).offset + 10,
                            checksum16(
                                z.subrange(old(self).offset as int, old(self).offset + 20),
                            ),
                        )
                    })
                    &&& checksum_field_ok(
                        final(self).bytes(),
                        old(self).offset + 10,
                        old(self).offset as int,
                        old(self).offset + 20,
                    )
                    &&& be16(final(self).bytes(), old(self).offset + 2) == old(
                        self,
                    ).bytes().len() - old(self).offset
                },
                Err(e) => {
                    &&& old(self).bytes().len() - old(self).offset > 0xffff
                    &&& final(self).bytes() == old(self).bytes()
                    &&& e == FieldError::ValueOutOfRange
                },
            },
    {
        let n = self.envelope.buf.len();
        if n - self.offset > 0xffff {
            return Err(FieldError::ValueOutOfRange);
        }
        self.set_total_length((n - self.offset) as u16);
        self.set_checksum(0);
        let ghost z = self.bytes();
        let c = compute_checksum(&self.envelope.buf, self.offset, self.offset + IPV4_HEADER_LEN);
        self.set_checksum(c);
        proof {
            let off = old(self).offset as int;
            assert(set_be16(z, off + 10, 0) =~= z);
            assert(set_be16(self.bytes(), off + 10, 0) =~= z);
            assert(set_be16(self.bytes(), off + 10, 0).subrange(off, off + 20) =~= z.subrange(
                off,
                off + 20,
            ));
        }
        Ok(())
    }
}

} // verus!
