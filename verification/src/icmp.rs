//! The ICMP echo header: message type, code, checksum, identifier and
//! sequence number — 8 fixed bytes directly after the network-layer
//! header — followed by opaque payload data running to the end of the
//! buffer. The request and the reply share the layout; they differ only
//! in the message type their transformation writes.

use vstd::prelude::*;

verus! {

use crate::ParseError;
use crate::PushError;
use crate::buf::Buf;
use crate::buf::zero_bytes;
use crate::buf::be16;
use crate::buf::set_be16;
use crate::checksum::checksum16;
use crate::checksum::checksum_field_ok;
use crate::checksum::compute_checksum;
use crate::ipv4::Ipv4;

/// Fixed size of the echo header in bytes; the payload data follows it.
pub const ICMP_ECHO_HEADER_LEN: usize = 8;

/// An inbound echo request: an 8-byte header window plus the trailing
/// data, chained onto the network layer beneath it.
pub struct EchoRequest {
    pub envelope: Ipv4,
    pub offset: usize,
}

/// An outbound echo reply, with the same layout as the request.
pub struct EchoReply {
    pub envelope: Ipv4,
    pub offset: usize,
}

impl EchoRequest {
    /// The bytes of the whole buffer this layer is overlaid on.
    pub open spec fn bytes(&self) -> Seq<u8> {
        self.envelope.bytes()
    }

    /// The capacity of the underlying buffer.
    pub open spec fn cap(&self) -> nat {
        self.envelope.cap()
    }

    pub open spec fn header_len_spec(&self) -> int {
        ICMP_ECHO_HEADER_LEN as int
    }

    /// Where the payload data begins.
    pub open spec fn payload_offset_spec(&self) -> int {
        self.offset + ICMP_ECHO_HEADER_LEN
    }

    /// The layer sits exactly at its envelope's payload offset and its
    /// fixed window lies within the buffer.
    pub open spec fn wf(&self) -> bool {
        &&& self.envelope.wf()
        &&& self.offset == self.envelope.payload_offset_spec()
        &&& self.offset + ICMP_ECHO_HEADER_LEN <= self.bytes().len()
    }

    /// Overlay the header at the envelope's payload offset, reading
    /// nothing and validating no field. Fails exactly when the buffer is
    /// too short for the fixed header.
    pub fn try_parse(envelope: Ipv4) -> (r: Result<EchoRequest, ParseError>)
        requires
            envelope.wf(),
        ensures
            match r {
                Ok(p) => {
                    &&& envelope.payload_offset_spec() + ICMP_ECHO_HEADER_LEN
                        <= envelope.bytes().len()
                    &&& p.envelope == envelope
                    &&& p.bytes() == envelope.bytes()
                    &&& p.cap() == envelope.cap()
                    &&& p.offset == envelope.payload_offset_spec()
                    &&& p.wf()
                },
                Err(e) => {
                    &&& envelope.payload_offset_spec() + ICMP_ECHO_HEADER_LEN
                        > envelope.bytes().len()
                    &&& e == ParseError::BufferTooShort
                },
            },
    {
        let off = envelope.payload_offset();
        let n = envelope.envelope.buf.len();
        if n - off < ICMP_ECHO_HEADER_LEN {
            return Err(ParseError::BufferTooShort);
        }
        Ok(EchoRequest { envelope, offset: off })
    }

    /// Discard this layer's view and return ownership of its envelope.
    pub fn deparse(self) -> (e: Ipv4)
        ensures
            e == self.envelope,
            e.bytes() == self.bytes(),
            e.cap() == self.cap(),
    {
        self.envelope
    }

    /// Absolute byte position where this header begins.
    pub fn offset(&self) -> (r: usize)
        ensures
            r == self.offset,
    {
        self.offset
    }

    /// The header's size; the payload data is not part of it.
    pub fn header_len(&self) -> (r: usize)
        ensures
            r as int == self.header_len_spec(),
    {
        ICMP_ECHO_HEADER_LEN
    }

    /// The message type.
    pub fn msg_type(&self) -> (r: u8)
        requires
            self.wf(),
        ensures
            r == self.bytes()[self.offset as int],
    {
        self.envelope.envelope.buf.read_u8(self.offset)
    }

    /// The message code.
    pub fn code(&self) -> (r: u8)
        requires
            self.wf(),
        ensures
            r == self.bytes()[self.offset + 1],
    {
        self.envelope.envelope.buf.read_u8(self.offset + 1)
    }

    /// The checksum field.
    pub fn checksum(&self) -> (r: u16)
        requires
            self.wf(),
        ensures
            r as int == be16(self.bytes(), self.offset + 2),
    {
        self.envelope.envelope.buf.read_u16_be(self.offset + 2)
    }

    /// The identifier that pairs a reply with its request.
    pub fn identifier(&self) -> (r: u16)
        requires
            self.wf(),
        ensures
            r as int == be16(self.bytes(), self.offset + 4),
    {
        self.envelope.envelope.buf.read_u16_be(self.offset + 4)
    }

    /// The sequence number.
    pub fn seq_no(&self) -> (r: u16)
        requires
            self.wf(),
        ensures
            r as int == be16(self.bytes(), self.offset + 6),
    {
        self.envelope.envelope.buf.read_u16_be(self.offset + 6)
    }

    /// The opaque payload data: every byte after the fixed header.
    pub fn data(&self) -> (d: Vec<u8>)
        requires
            self.wf(),
        ensures
            d@ == self.bytes().subrange(self.offset + ICMP_ECHO_HEADER_LEN, self.bytes().len() as int),
    {
        let start = self.offset + ICMP_ECHO_HEADER_LEN;
        let n = self.envelope.envelope.buf.len();
        let mut d: Vec<u8> = Vec::new();
        let mut i: usize = start;
        while i < n
            invariant
                start <= i <= n,
                n == self.bytes().len(),
                start == self.offset + ICMP_ECHO_HEADER_LEN,
                self.wf(),
                d@ == self.bytes().subrange(start as int, i as int),
            decreases n - i,
        {
            let b = self.envelope.envelope.buf.read_u8(i);
            d.push(b);
            proof {
                assert(d@ =~= self.bytes().subrange(start as int, i + 1));
            }
            i = i + 1;
        }
        d
    }
}

impl EchoReply {
    /// The bytes of the whole buffer this layer is overlaid on.
    pub open spec fn bytes(&self) -> Seq<u8> {
        self.envelope.bytes()
    }

    /// The capacity of the underlying buffer.
    pub open spec fn cap(&self) -> nat {
        self.envelope.cap()
    }

    pub open spec fn header_len_spec(&self) -> int {
        ICMP_ECHO_HEADER_LEN as int
    }

    /// Where the payload data begins.
    pub open spec fn payload_offset_spec(&self) -> int {
        self.offset + ICMP_ECHO_HEADER_LEN
    }

    /// The layer sits exactly at its envelope's payload offset and its
    /// fixed window lies within the buffer.
    pub open spec fn wf(&self) -> bool {
        &&& self.envelope.wf()
        &&& self.offset == self.envelope.payload_offset_spec()
        &&& self.offset + ICMP_ECHO_HEADER_LEN <= self.bytes().len()
    }

    /// Make room for a fresh, zero-valued header at the envelope's payload
    /// offset, shifting the trailing bytes right. The payload data is
    /// never pre-allocated by a push. Fails exactly when the grown buffer
    /// would exceed its capacity, leaving it unchanged.
    pub fn try_push(envelope: Ipv4) -> (r: Result<EchoReply, PushError>)
        requires
            envelope.wf(),
        ensures
            match r {
                Ok(p) => {
                    &&& envelope.bytes().len() + ICMP_ECHO_HEADER_LEN <= envelope.cap()
                    &&& p.bytes() == envelope.bytes().subrange(0, envelope.payload_offset_spec())
                        + zero_bytes(ICMP_ECHO_HEADER_LEN as nat) + envelope.bytes().subrange(
                        envelope.payload_offset_spec(),
                        envelope.bytes().len() as int,
                    )
                    &&& p.cap() == envelope.cap()
                    &&& p.offset == envelope.payload_offset_spec()
                    &&& p.envelope.offset == envelope.offset
                    &&& p.envelope.envelope.offset == envelope.envelope.offset
                    &&& p.wf()
                },
                Err(e) => {
                    &&& envelope.bytes().len() + ICMP_ECHO_HEADER_LEN > envelope.cap()
                    &&& e == PushError::CapacityExceeded
                },
            },
    {
        let mut envelope = envelope;
        let off = envelope.payload_offset();
        match envelope.envelope.buf.extend(off, ICMP_ECHO_HEADER_LEN) {
            Ok(()) => Ok(EchoReply { envelope, offset: off }),
            Err(e) => Err(e),
        }
    }

    /// Overlay the header at the envelope's payload offset. Fails exactly
    /// when the buffer is too short for the fixed header.
    pub fn try_parse(envelope: Ipv4) -> (r: Result<EchoReply, ParseError>)
        requires
            envelope.wf(),
        ensures
            match r {
                Ok(p) => {
                    &&& envelope.payload_offset_spec() + ICMP_ECHO_HEADER_LEN
                        <= envelope.bytes().len()
                    &&& p.envelope == envelope
                    &&& p.bytes() == envelope.bytes()
                    &&& p.cap() == envelope.cap()
                    &&& p.offset == envelope.payload_offset_spec()
                    &&& p.wf()
                },
                Err(e) => {
                    &&& envelope.payload_offset_spec() + ICMP_ECHO_HEADER_LEN
                        > envelope.bytes().len()
                    &&& e == ParseError::BufferTooShort
                },
            },
    {
        let off = envelope.payload_offset();
        let n = envelope.envelope.buf.len();
        if n - off < ICMP_ECHO_HEADER_LEN {
            return Err(ParseError::BufferTooShort);
        }
        Ok(EchoReply { envelope, offset: off })
    }

    /// Discard this layer's view and return ownership of its envelope.
    pub fn deparse(self) -> (e: Ipv4)
        ensures
            e == self.envelope,
            e.bytes() == self.bytes(),
            e.cap() == self.cap(),
    {
        self.envelope
    }

    /// Absolute byte position where this header begins.
    pub fn offset(&self) -> (r: usize)
        ensures
            r == self.offset,
    {
        self.offset
    }

    /// The header's size; the payload data is not part of it.
    pub fn header_len(&self) -> (r: usize)
        ensures
            r as int == self.header_len_spec(),
    {
        ICMP_ECHO_HEADER_LEN
    }

    /// The identifier that pairs a reply with its request.
    pub fn identifier(&self) -> (r: u16)
        requires
            self.wf(),
        ensures
            r as int == be16(self.bytes(), self.offset + 4),
    {
        self.envelope.envelope.buf.read_u16_be(self.offset + 4)
    }

    /// The sequence number.
    pub fn seq_no(&self) -> (r: u16)
        requires
            self.wf(),
        ensures
            r as int == be16(self.bytes(), self.offset + 6),
    {
        self.envelope.envelope.buf.read_u16_be(self.offset + 6)
    }

    /// Overwrite the identifier.
    pub fn set_identifier(&mut self, v: u16)
        requires
            old(self).wf(),
        ensures
            final(self).bytes() == set_be16(old(self).bytes(), old(self).offset + 4, v as int),
            final(self).offset == old(self).offset,
            final(self).envelope.offset == old(self).envelope.offset,
            final(self).envelope.envelope.offset == old(self).envelope.envelope.offset,
            final(self).cap() == old(self).cap(),
            final(self).wf(),
    {
        proof {
            self.envelope.envelope.buf.lemma_len_bound();
        }
        self.envelope.envelope.buf.write_u16_be(self.offset + 4, v);
    }

    /// Overwrite the sequence number.
    pub fn set_seq_no(&mut self, v: u16)
        requires
            old(self).wf(),
        ensures
            final(self).bytes() == set_be16(old(self).bytes(), old(self).offset + 6, v as int),
            final(self).offset == old(self).offset,
            final(self).envelope.offset == old(self).envelope.offset,
            final(self).envelope.envelope.offset == old(self).envelope.envelope.offset,
            final(self).cap() == old(self).cap(),
            final(self).wf(),
    {
        proof {
            self.envelope.envelope.buf.lemma_len_bound();
        }
        self.envelope.envelope.buf.write_u16_be(self.offset + 6, v);
    }

    /// Append the payload data after the fixed header of a freshly pushed
    /// reply, growing the buffer to fit it. Fails exactly when the grown
    /// buffer would exceed its capacity, leaving it unchanged.
    pub fn set_data(&mut self, data: &Vec<u8>) -> (r: Result<(), PushError>)
        requires
            old(self).wf(),
            old(self).bytes().len() == old(self).offset + ICMP_ECHO_HEADER_LEN,
        ensures
            final(self).offset == old(self).offset,
            final(self).envelope.offset == old(self).envelope.offset,
            final(self).envelope.envelope.offset == old(self).envelope.envelope.offset,
            final(self).cap() == old(self).cap(),
            final(self).wf(),
            match r {
                Ok(()) => {
                    &&& old(self).bytes().len() + data@.len() <= old(self).cap()
                    &&& final(self).bytes() == old(self).bytes() + data@
                },
                Err(e) => {
                    &&& old(self).bytes().len() + data@.len() > old(self).cap()
                    &&& final(self).bytes() == old(self).bytes()
                    &&& e == PushError::CapacityExceeded
                },
            },
    {
        let start = self.envelope.envelope.buf.len();
        match self.envelope.envelope.buf.extend(start, data.len()) {
            Ok(()) => {},
            Err(e) => {
                proof {
                    assert(self.bytes() =~= old(self).bytes());
                }
                return Err(e);
            },
        }
        let ghost grown = self.bytes();
        proof {
            assert(grown =~= old(self).bytes() + zero_bytes(data@.len()));
        }
        let mut i: usize = 0;
        while i < data.len()
            invariant
                i <= data@.len(),
                start + data@.len() == self.bytes().len(),
                start == old(self).offset + ICMP_ECHO_HEADER_LEN,
                self.offset == old(self).offset,
                self.envelope.offset == old(self).envelope.offset,
                self.envelope.envelope.offset == old(self).envelope.envelope.offset,
                self.cap() == old(self).cap(),
                self.wf(),
                self.bytes() == old(self).bytes() + data@.subrange(0, i as int) + zero_bytes(
                    (data@.len() - i) as nat,
                ),
            decreases data@.len() - i,
        {
            let b = data[i];
            proof {
                self.envelope.envelope.buf.lemma_len_bound();
            }
            self.envelope.envelope.buf.write_u8(start + i, b);
            proof {
                assert(self.bytes() =~= old(self).bytes() + data@.subrange(0, i + 1)
                    + zero_bytes((data@.len() - i - 1) as nat));
            }
            i = i + 1;
        }
        proof {
            assert(self.bytes() =~= old(self).bytes() + data@);
        }
        Ok(())
    }

    /// Recompute the checksum over the whole message — header and payload
    /// data, from this header's start to the end of the buffer — with the
    /// checksum field zeroed first.
    pub fn reconcile(&mut self)
        requires
            old(self).wf(),
            old(self).bytes().len() - old(self).offset <= 0xffff_ffff,
        ensures
            final(self).offset == old(self).offset,
            final(self).envelope.offset == old(self).envelope.offset,
            final(self).envelope.envelope.offset == old(self).envelope.envelope.offset,
            final(self).cap() == old(self).cap(),
            final(self).wf(),
            final(self).bytes().len() == old(self).bytes().len(),
            ({
                let z = set_be16(old(self).bytes(), old(self).offset + 2, 0);
                final(self).bytes() == set_be16(
                    z,
                    old(self).offset + 2,
                    checksum16(z.subrange(old(self).offset as int, z.len() as int)),
                )
            }),
            checksum_field_ok(
                final(self).bytes(),
                old(self).offset + 2,
                old(self).offset as int,
                final(self).bytes().len() as int,
            ),
    {
        let n = self.envelope.envelope.buf.len();
        self.envelope.envelope.buf.write_u16_be(self.offset + 2, 0);
        let ghost z = self.bytes();
        let c = compute_checksum(&self.envelope.envelope.buf, self.offset, n);
        self.envelope.envelope.buf.write_u16_be(self.offset + 2, c);
        proof {
            let off = old(self).offset as int;
            assert(set_be16(z, off + 2, 0) =~= z);
            assert(set_be16(self.bytes(), off + 2, 0) =~= z);
            assert(set_be16(self.bytes(), off + 2, 0).subrange(off, self.bytes().len() as int)
                =~= z.subrange(off, z.len() as int));
        }
    }
}

} // verus!
