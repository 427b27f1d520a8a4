//! The application-layer header: a variable-length layout of 12 fixed
//! bytes — flags and contributing-source count, marker and payload type, a
//! 16-bit sequence number, a 32-bit timestamp and a 32-bit source
//! identifier, all in network byte order — followed by `count` four-byte
//! contributing-source identifiers. The count lives in the low four bits
//! of the first byte; the high four bits hold unrelated flags and are left
//! untouched by every read and write of the count. A four-bit field inside
//! a single byte has no byte order, so no conversion applies to it.

use vstd::prelude::*;

verus! {

use crate::FieldError;
use crate::ParseError;
use crate::PushError;
use crate::buf::zero_bytes;
use crate::buf::be16;
use crate::buf::be32;
use crate::buf::set_be16;
use crate::buf::set_be32;
use crate::udp::Udp;

/// Fixed minimum size of the header in bytes, independent of the data.
pub const RTP_HEADER_LEN: usize = 12;

/// Fixed width of each contributing-source entry in bytes.
pub const CSRC_ENTRY_LEN: usize = 4;

/// The contributing-source count embedded in the first header byte: its
/// low four bits, masked — never shifted — so that the flag bits above
/// them play no part.
pub open spec fn decode_count(b: u8) -> u8 {
    b & 0x0f
}

/// The total header length that `b` encodes for a header at `off`: the
/// fixed part plus one four-byte entry per counted contributing source.
pub open spec fn rtp_header_len_of(b: Seq<u8>, off: int) -> int {
    RTP_HEADER_LEN + (decode_count(b[off]) as int) * (CSRC_ENTRY_LEN as int)
}

/// A variable-length header window chained onto the transport layer
/// beneath it. Only the 12 fixed bytes are guaranteed to lie within the
/// buffer; callers that need the variable entries grow the buffer
/// explicitly.
pub struct Rtp {
    pub envelope: Udp,
    pub offset: usize,
}

/// What a successful push guarantees, stated of the envelope it consumed
/// and the layer it returned: the layer sits at the envelope's payload
/// offset, and the buffer holds exactly `RTP_HEADER_LEN` fresh zero bytes
/// there, the surrounding bytes shifted but unchanged.
pub open spec fn rtp_pushed_onto(p: Rtp, env: Udp) -> bool {
    &&& p.offset == env.payload_offset_spec()
    &&& p.bytes() == env.bytes().subrange(0, env.payload_offset_spec()) + zero_bytes(
        RTP_HEADER_LEN as nat,
    ) + env.bytes().subrange(env.payload_offset_spec(), env.bytes().len() as int)
    &&& p.cap() == env.cap()
    &&& p.envelope.offset == env.offset
    &&& p.envelope.envelope.offset == env.envelope.offset
    &&& p.envelope.envelope.envelope.offset == env.envelope.envelope.offset
}

impl Rtp {
    /// The bytes of the whole buffer this layer is overlaid on.
    pub open spec fn bytes(&self) -> Seq<u8> {
        self.envelope.bytes()
    }

    /// The capacity of the underlying buffer.
    pub open spec fn cap(&self) -> nat {
        self.envelope.cap()
    }

    /// The count currently encoded in the first header byte.
    pub open spec fn csrc_count_spec(&self) -> u8 {
        decode_count(self.bytes()[self.offset as int])
    }

    /// The header length recomputed from the current bytes. Never cached:
    /// a mutation of the count field is reflected immediately.
    pub open spec fn header_len_of_bytes(&self) -> int {
        rtp_header_len_of(self.bytes(), self.offset as int)
    }

    /// Where the payload would begin, after the counted entries.
    pub open spec fn payload_offset_spec(&self) -> int {
        self.offset + self.header_len_of_bytes()
    }

    /// The layer sits exactly at its envelope's payload offset and its
    /// fixed window lies within the buffer.
    pub open spec fn wf(&self) -> bool {
        &&& self.envelope.wf()
        &&& self.offset == self.envelope.payload_offset_spec()
        &&& self.offset + RTP_HEADER_LEN <= self.bytes().len()
    }

    /// The fixed minimum byte size of the layout: a constant, independent
    /// of any data.
    pub fn size_of() -> (r: usize)
        ensures
            r == RTP_HEADER_LEN,
    {
        RTP_HEADER_LEN
    }

    /// Overlay the header at the envelope's payload offset, reading
    /// nothing and validating no field. Fails exactly when the buffer is
    /// too short for even the fixed part of the header.
    pub fn try_parse(envelope: Udp) -> (r: Result<Rtp, ParseError>)
        requires
            envelope.wf(),
        ensures
            match r {
                Ok(p) => {
                    &&& envelope.payload_offset_spec() + RTP_HEADER_LEN <= envelope.bytes().len()
                    &&& p.envelope == envelope
                    &&& p.bytes() == envelope.bytes()
                    &&& p.cap() == envelope.cap()
                    &&& p.offset == envelope.payload_offset_spec()
                    &&& p.wf()
                },
                Err(e) => {
                    &&& envelope.payload_offset_spec() + RTP_HEADER_LEN > envelope.bytes().len()
                    &&& e == ParseError::BufferTooShort
                },
            },
    {
        let off = envelope.payload_offset();
        let n = envelope.envelope.envelope.buf.len();
        if n - off < RTP_HEADER_LEN {
            return Err(ParseError::BufferTooShort);
        }
        Ok(Rtp { envelope, offset: off })
    }

    /// Make room for a fresh, zero-valued fixed header at the envelope's
    /// payload offset, shifting the trailing bytes right. The variable
    /// entries are never pre-allocated: a caller that writes them grows
    /// the buffer explicitly first. Fails exactly when the grown buffer
    /// would exceed its capacity, leaving it unchanged.
    pub fn try_push(envelope: Udp) -> (r: Result<Rtp, PushError>)
        requires
            envelope.wf(),
        ensures
            match r {
                Ok(p) => {
                    &&& envelope.bytes().len() + RTP_HEADER_LEN <= envelope.cap()
                    &&& rtp_pushed_onto(p, envelope)
                    &&& p.wf()
                },
                Err(e) => {
                    &&& envelope.bytes().len() + RTP_HEADER_LEN > envelope.cap()
                    &&& e == PushError::CapacityExceeded
                },
            },
    {
        let mut envelope = envelope;
        let off = envelope.payload_offset();
        match envelope.envelope.envelope.buf.extend(off, RTP_HEADER_LEN) {
            Ok(()) => Ok(Rtp { envelope, offset: off }),
            Err(e) => Err(e),
        }
    }

    /// Discard this layer's view and return ownership of its envelope.
    /// The bytes are untouched: unwinding a layer never mutates the
    /// buffer.
    pub fn deparse(self) -> (e: Udp)
        ensures
            e == self.envelope,
            e.bytes() == self.bytes(),
            e.cap() == self.cap(),
    {
        self.envelope
    }

    /// The layer directly beneath this one.
    pub fn envelope(&self) -> (e: &Udp)
        ensures
            e == &self.envelope,
    {
        &self.envelope
    }

    /// Mutable access to the layer directly beneath this one.
    pub fn envelope_mut(&mut self) -> (e: &mut Udp)
        ensures
            *e == old(self).envelope,
            final(self).envelope == *final(e),
            final(self).offset == old(self).offset,
    {
        &mut self.envelope
    }

    /// Absolute byte position where this header begins.
    pub fn offset(&self) -> (r: usize)
        ensures
            r == self.offset,
    {
        self.offset
    }

    /// The contributing-source count: the low four bits of the first
    /// header byte, masked so the flag bits above them play no part.
    pub fn csrc_count(&self) -> (r: u8)
        requires
            self.wf(),
        ensures
            r == self.csrc_count_spec(),
            r == decode_count(self.bytes()[self.offset as int]),
            r <= 15,
    {
        let mask: u8 = 0x0f;
        let b = self.envelope.envelope.envelope.buf.read_u8(self.offset);
        let r = b & mask;
        proof {
            assert(b & 0x0f <= 15) by (bit_vector);
        }
        r
    }

    /// The header's total size, recomputed live from the current bytes:
    /// the fixed part plus one four-byte entry per counted contributing
    /// source.
    pub fn header_len(&self) -> (r: usize)
        requires
            self.wf(),
        ensures
            r as int == self.header_len_of_bytes(),
            r as int == RTP_HEADER_LEN + (self.csrc_count_spec() as int) * (CSRC_ENTRY_LEN as int),
    {
        let count = self.csrc_count();
        RTP_HEADER_LEN + (count as usize) * CSRC_ENTRY_LEN
    }

    /// The marker-and-payload-type byte.
    pub fn marker_payload_type(&self) -> (r: u8)
        requires
            self.wf(),
        ensures
            r == self.bytes()[self.offset + 1],
    {
        self.envelope.envelope.envelope.buf.read_u8(self.offset + 1)
    }

    /// The 16-bit sequence number.
    pub fn sequence_number(&self) -> (r: u16)
        requires
            self.wf(),
        ensures
            r as int == be16(self.bytes(), self.offset + 2),
    {
        self.envelope.envelope.envelope.buf.read_u16_be(self.offset + 2)
    }

    /// The 32-bit timestamp.
    pub fn timestamp(&self) -> (r: u32)
        requires
            self.wf(),
        ensures
            r as int == be32(self.bytes(), self.offset + 4),
    {
        self.envelope.envelope.envelope.buf.read_u32_be(self.offset + 4)
    }

    /// The 32-bit synchronisation-source identifier.
    pub fn ssrc(&self) -> (r: u32)
        requires
            self.wf(),
        ensures
            r as int == be32(self.bytes(), self.offset + 8),
    {
        self.envelope.envelope.envelope.buf.read_u32_be(self.offset + 8)
    }

    /// Overwrite the contributing-source count: only the low four bits of
    /// the first header byte change; the flag bits above them are left
    /// untouched. Fails exactly when the count exceeds the four-bit range,
    /// leaving the buffer unchanged.
    pub fn set_csrc_count(&mut self, v: u8) -> (r: Result<(), FieldError>)
        requires
            old(self).wf(),
        ensures
            final(self).offset == old(self).offset,
            final(self).envelope.offset == old(self).envelope.offset,
            final(self).envelope.envelope.offset == old(self).envelope.envelope.offset,
            final(self).envelope.envelope.envelope.offset == old(
                self,
            ).envelope.envelope.envelope.offset,
            final(self).cap() == old(self).cap(),
            final(self).wf(),
            match r {
                Ok(()) => {
                    &&& v <= 15
                    &&& final(self).csrc_count_spec() == v
                    &&& final(self).bytes() == old(self).bytes().update(
                        old(self).offset as int,
                        (old(self).bytes()[old(self).offset as int] & 0xf0) | v,
                    )
                },
                Err(e) => {
                    &&& v > 15
                    &&& final(self).bytes() == old(self).bytes()
                    &&& e == FieldError::ValueOutOfRange
                },
            },
    {
        if v > 15 {
            return Err(FieldError::ValueOutOfRange);
        }
        let b = self.envelope.envelope.envelope.buf.read_u8(self.offset);
        let merged = (b & 0xf0) | v;
        self.envelope.envelope.envelope.buf.write_u8(self.offset, merged);
        proof {
            assert(v <= 15 ==> ((b & 0xf0) | v) & 0x0f == v) by (bit_vector);
        }
        Ok(())
    }

    /// Overwrite the marker-and-payload-type byte.
    pub fn set_marker_payload_type(&mut self, v: u8)
        requires
            old(self).wf(),
        ensures
            final(self).bytes() == old(self).bytes().update(old(self).offset + 1, v),
            final(self).offset == old(self).offset,
            final(self).cap() == old(self).cap(),
            final(self).wf(),
    {
        proof {
            self.envelope.envelope.envelope.buf.lemma_len_bound();
        }
        self.envelope.envelope.envelope.buf.write_u8(self.offset + 1, v);
    }

    /// Overwrite the 16-bit sequence number.
    pub fn set_sequence_number(&mut self, v: u16)
        requires
            old(self).wf(),
        ensures
            final(self).bytes() == set_be16(old(self).bytes(), old(self).offset + 2, v as int),
            final(self).offset == old(self).offset,
            final(self).cap() == old(self).cap(),
            final(self).wf(),
    {
        proof {
            self.envelope.envelope.envelope.buf.lemma_len_bound();
        }
        self.envelope.envelope.envelope.buf.write_u16_be(self.offset + 2, v);
    }

    /// Overwrite the 32-bit timestamp.
    pub fn set_timestamp(&mut self, v: u32)
        requires
            old(self).wf(),
        ensures
            final(self).bytes() == set_be32(old(self).bytes(), old(self).offset + 4, v as int),
            final(self).offset == old(self).offset,
            final(self).cap() == old(self).cap(),
            final(self).wf(),
    {
        proof {
            self.envelope.envelope.envelope.buf.lemma_len_bound();
        }
        self.envelope.envelope.envelope.buf.write_u32_be(self.offset + 4, v);
    }

    /// Overwrite the 32-bit synchronisation-source identifier.
    pub fn set_ssrc(&mut self, v: u32)
        requires
            old(self).wf(),
        ensures
            final(self).bytes() == set_be32(old(self).bytes(), old(self).offset + 8, v as int),
            final(self).offset == old(self).offset,
            final(self).cap() == old(self).cap(),
            final(self).wf(),
    {
        proof {
            self.envelope.envelope.envelope.buf.lemma_len_bound();
        }
        self.envelope.envelope.envelope.buf.write_u32_be(self.offset + 8, v);
    }
}

/// The count decode masks and never shifts: two first bytes that agree on
/// their low four bits decode to the same count, whatever their high four
/// bits hold, and the count never exceeds the four-bit range.
pub proof fn lemma_decode_count_masks(b1: u8, b2: u8)
    requires
        b1 & 0x0f == b2 & 0x0f,
    ensures
        decode_count(b1) == decode_count(b2),
        decode_count(b1) <= 15,
{
    assert(b1 & 0x0f <= 15) by (bit_vector);
}

/// The header length is exactly the fixed size plus four bytes per
/// counted contributing source; with a count of zero it is exactly the
/// fixed size.
pub proof fn lemma_header_len_formula(b: Seq<u8>, off: int)
    requires
        0 <= off < b.len(),
    ensures
        rtp_header_len_of(b, off) == RTP_HEADER_LEN + (decode_count(b[off]) as int) * (
        CSRC_ENTRY_LEN as int),
        decode_count(b[off]) == 0 ==> rtp_header_len_of(b, off) == RTP_HEADER_LEN,
        RTP_HEADER_LEN <= rtp_header_len_of(b, off) <= RTP_HEADER_LEN + 15 * CSRC_ENTRY_LEN,
{
    let x = b[off];
    assert(x & 0x0f <= 15) by (bit_vector);
}

/// Round trip: writing the five header fields at `off` and reading each
/// back through the layout's decoders yields the values written, the count
/// among them, and the recomputed header length reflects that count.
pub proof fn lemma_rtp_field_round_trip(
    b: Seq<u8>,
    off: int,
    first: u8,
    mpt: u8,
    seqno: u16,
    ts: u32,
    ssrc: u32,
)
    requires
        0 <= off,
        off + RTP_HEADER_LEN <= b.len(),
    ensures
        ({
            let w = set_be32(
                set_be32(
                    set_be16(b.update(off, first).update(off + 1, mpt), off + 2, seqno as int),
                    off + 4,
                    ts as int,
                ),
                off + 8,
                ssrc as int,
            );
            &&& w.len() == b.len()
            &&& w[off] == first
            &&& decode_count(w[off]) == decode_count(first)
            &&& w[off + 1] == mpt
            &&& be16(w, off + 2) == seqno
            &&& be32(w, off + 4) == ts
            &&& be32(w, off + 8) == ssrc
            &&& rtp_header_len_of(w, off) == RTP_HEADER_LEN + (decode_count(first) as int) * (
            CSRC_ENTRY_LEN as int)
        }),
{
    let b01 = b.update(off, first).update(off + 1, mpt);
    crate::buf::lemma_be16_round_trip(b01, off + 2, seqno as int);
    let b2 = set_be16(b01, off + 2, seqno as int);
    crate::buf::lemma_be32_round_trip(b2, off + 4, ts as int);
    let b3 = set_be32(b2, off + 4, ts as int);
    crate::buf::lemma_be32_round_trip(b3, off + 8, ssrc as int);
}

/// Pushing the fixed header and immediately unwinding the layer leaves
/// the buffer exactly `RTP_HEADER_LEN` bytes longer than before the push:
/// a push allocates no variable-length entry, and a deparse mutates
/// nothing.
pub proof fn lemma_push_then_deparse_len(env: Udp, pushed: Rtp)
    requires
        env.wf(),
        rtp_pushed_onto(pushed, env),
    ensures
        pushed.envelope.bytes().len() == env.bytes().len() + RTP_HEADER_LEN,
        pushed.envelope.bytes() == pushed.bytes(),
{
}

/// Growing the buffer at any position at or after the end of this
/// header's fixed part — as a later push of an inner layer does — leaves
/// the recomputed header length unchanged: resizing below never corrupts
/// an outer layer's bookkeeping.
pub proof fn lemma_extend_after_preserves_header_len(b: Seq<u8>, off: int, at: int, n: nat)
    requires
        0 <= off,
        off < at <= b.len(),
    ensures
        rtp_header_len_of(
            b.subrange(0, at) + zero_bytes(n) + b.subrange(at, b.len() as int),
            off,
        ) == rtp_header_len_of(b, off),
{
    assert((b.subrange(0, at) + zero_bytes(n) + b.subrange(at, b.len() as int))[off] == b[off]);
}

} // verus!
