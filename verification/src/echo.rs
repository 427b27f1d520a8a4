//! The echo-reply transformation: parse an inbound buffer outer to inner
//! as link layer, network layer and echo request; then build a reply on a
//! fresh buffer by pushing the same stack, swapping the addresses at each
//! layer, raising the time-to-live, copying the identifier, sequence
//! number and opaque data from the request; finally reconcile the length
//! and checksum fields inner to outer.

use vstd::prelude::*;

verus! {

use crate::FieldError;
use crate::ParseError;
use crate::PushError;
use crate::buf::Buf;
use crate::buf::be16;
use crate::buf::be32;
use crate::checksum::checksum_field_ok;
use crate::checksum::lemma_checksum_field_unaffected;
use crate::ethernet::ETHERNET_HEADER_LEN;
use crate::ethernet::Ethernet;
use crate::ethernet::MacAddr;
use crate::ethernet::mac_at;
use crate::icmp::EchoReply;
use crate::icmp::EchoRequest;
use crate::ipv4::Ipv4;

/// Why a transformation aborted. A malformed inbound packet aborts that
/// packet's transformation only: no reply is produced for it.
#[derive(Clone, Copy, Debug, PartialEq, Eq, Structural)]
pub enum EchoError {
    /// The inbound buffer is too short for the three stacked headers.
    Parse(ParseError),
    /// Growing the reply buffer failed.
    Push(PushError),
    /// A recomputed field does not fit its wire encoding.
    Field(FieldError),
    /// The inbound packet parses but is not an echo request.
    NotEchoRequest,
}

/// Offset of the network-layer header in a parsed stack.
pub const IP_OFFSET: usize = 14;

/// Offset of the echo header in a parsed stack.
pub const ICMP_OFFSET: usize = 34;

/// Offset of the echo payload data in a parsed stack.
pub const DATA_OFFSET: usize = 42;

/// The inbound bytes hold a well-formed stack of link-layer, network-layer
/// and echo-request headers: long enough for all three fixed headers, the
/// protocol number carried at each layer naming the next.
pub open spec fn is_echo_request(b: Seq<u8>) -> bool {
    &&& b.len() >= DATA_OFFSET
    &&& be16(b, 12) == 0x0800
    &&& b[23] == 1
    &&& b[34] == 8
}

/// A reply of length `n` carrying the given addresses and echo fields:
/// destination and source hardware addresses as given, the network
/// addresses as given, a time-to-live of 255, the echo type zero (reply),
/// identifier, sequence number and data as given, total length recomputed,
/// and both checksum fields reconciled over their regions.
pub open spec fn reply_shape(
    r: Seq<u8>,
    n: int,
    dst: MacAddr,
    src: MacAddr,
    ip_src: int,
    ip_dst: int,
    ident: int,
    seqno: int,
    data: Seq<u8>,
) -> bool {
    &&& r.len() == n
    &&& mac_at(r, 0) == dst
    &&& mac_at(r, 6) == src
    &&& be16(r, 12) == 0x0800
    &&& r[14] == 0x45
    &&& be16(r, 16) == n - IP_OFFSET
    &&& r[22] == 255
    &&& r[23] == 1
    &&& be32(r, 26) == ip_src
    &&& be32(r, 30) == ip_dst
    &&& checksum_field_ok(r, 24, IP_OFFSET as int, ICMP_OFFSET as int)
    &&& r[34] == 0
    &&& r[35] == 0
    &&& be16(r, 38) == ident
    &&& be16(r, 40) == seqno
    &&& r.subrange(DATA_OFFSET as int, r.len() as int) == data
    &&& checksum_field_ok(r, 36, ICMP_OFFSET as int, r.len() as int)
}

/// The reply `r` that answers the request `q`: the same length, hardware
/// and network addresses swapped, a fresh time-to-live of 255, the echo
/// message type flipped to reply with the identifier, sequence number and
/// data copied unchanged, the total length recomputed, and both checksums
/// reconciled.
pub open spec fn echo_reply_for(r: Seq<u8>, q: Seq<u8>) -> bool {
    reply_shape(
        r,
        q.len() as int,
        mac_at(q, 6),
        mac_at(q, 0),
        be32(q, 30),
        be32(q, 26),
        be16(q, 38),
        be16(q, 40),
        q.subrange(DATA_OFFSET as int, q.len() as int),
    )
}

/// Push a fresh link-layer, network-layer and echo-reply stack onto an
/// empty buffer sized to hold it exactly, write the given fields, and
/// reconcile inner to outer. The stack fills the buffer completely, so no
/// push can fail and the result is always the shaped reply.
fn assemble_reply(
    total: usize,
    dst_mac: MacAddr,
    src_mac: MacAddr,
    ip_src: u32,
    ip_dst: u32,
    ident: u16,
    seqno: u16,
    data: &Vec<u8>,
) -> (r: Result<Buf, EchoError>)
    requires
        total == DATA_OFFSET + data@.len(),
        total - ETHERNET_HEADER_LEN <= 0xffff,
    ensures
        match r {
            Ok(reply) => {
                &&& reply.wf()
                &&& reply_shape(
                    reply@,
                    total as int,
                    dst_mac,
                    src_mac,
                    ip_src as int,
                    ip_dst as int,
                    ident as int,
                    seqno as int,
                    data@,
                )
            },
            Err(_) => false,
        },
{
    let out = Buf::allocate(total);
    let mut eth2 = match Ethernet::try_push(out) {
        Ok(x) => x,
        Err(e) => {
            return Err(EchoError::Push(e));
        },
    };
    eth2.set_dst(dst_mac);
    eth2.set_src(src_mac);
    eth2.set_ethertype(0x0800);
    let ghost s_eth = eth2.bytes();
    proof {
        assert(s_eth.len() == ETHERNET_HEADER_LEN);
        assert(mac_at(s_eth, 0) == dst_mac);
        assert(mac_at(s_eth, 6) == src_mac);
        assert(be16(s_eth, 12) == 0x0800);
    }

    let mut ip2 = match Ipv4::try_push(eth2) {
        Ok(x) => x,
        Err(e) => {
            return Err(EchoError::Push(e));
        },
    };
    ip2.set_version_ihl(0x45);
    ip2.set_ttl(255);
    ip2.set_protocol(1);
    ip2.set_src(ip_src);
    ip2.set_dst(ip_dst);
    let ghost s_ip = ip2.bytes();
    proof {
        assert(s_ip.len() == ICMP_OFFSET);
        assert(forall|i: int| 0 <= i < ETHERNET_HEADER_LEN ==> s_ip[i] == s_eth[i]);
        assert(s_ip[14] == 0x45);
        assert(s_ip[22] == 255);
        assert(s_ip[23] == 1);
        assert(be32(s_ip, 26) == ip_src);
        assert(be32(s_ip, 30) == ip_dst);
    }

    let mut icmp2 = match EchoReply::try_push(ip2) {
        Ok(x) => x,
        Err(e) => {
            return Err(EchoError::Push(e));
        },
    };
    icmp2.set_identifier(ident);
    icmp2.set_seq_no(seqno);
    match icmp2.set_data(data) {
        Ok(()) => {},
        Err(e) => {
            return Err(EchoError::Push(e));
        },
    }
    let ghost s_data = icmp2.bytes();
    proof {
        assert(s_data.len() == total);
        assert(forall|i: int| 0 <= i < ICMP_OFFSET ==> s_data[i] == s_ip[i]);
        assert(s_data[34] == 0);
        assert(s_data[35] == 0);
        assert(be16(s_data, 38) == ident);
        assert(be16(s_data, 40) == seqno);
        assert(s_data.subrange(DATA_OFFSET as int, s_data.len() as int) =~= data@);
    }
    icmp2.reconcile();
    let ghost s_icmp = icmp2.bytes();
    proof {
        assert(s_icmp.len() == total);
        assert(forall|i: int|
            0 <= i < s_data.len() && i != 36 && i != 37 ==> s_icmp[i] == s_data[i]);
        assert(s_icmp.subrange(DATA_OFFSET as int, s_icmp.len() as int) =~= data@);
        assert(checksum_field_ok(s_icmp, 36, ICMP_OFFSET as int, s_icmp.len() as int));
    }

    let mut ip3 = icmp2.deparse();
    match ip3.reconcile() {
        Ok(()) => {},
        Err(e) => {
            return Err(EchoError::Field(e));
        },
    }
    let out = ip3.deparse().deparse();

    proof {
        assert(out@.len() == total);
        assert(forall|i: int|
            0 <= i < s_icmp.len() && i != 16 && i != 17 && i != 24 && i != 25 ==> out@[i]
                == s_icmp[i]);
        // The reconciled network-layer fields lie below the echo header,
        // so the echo checksum stays valid.
        lemma_checksum_field_unaffected(s_icmp, out@, 36, ICMP_OFFSET as int, out@.len() as int);
        assert(out@.subrange(DATA_OFFSET as int, out@.len() as int) =~= data@);
    }
    Ok(out)
}

/// Build the reply to an inbound echo request. Succeeds exactly when the
/// inbound bytes hold an echo request whose network-layer region fits the
/// 16-bit total-length field; the reply then answers the request. The
/// reply buffer is allocated with exactly the inbound length, which the
/// pushed stack fills completely, so no push can fail.
pub fn build_echo_reply(inbound: Buf) -> (r: Result<Buf, EchoError>)
    requires
        inbound.wf(),
    ensures
        match r {
            Ok(reply) => {
                &&& is_echo_request(inbound@)
                &&& inbound@.len() - ETHERNET_HEADER_LEN <= 0xffff
                &&& reply.wf()
                &&& echo_reply_for(reply@, inbound@)
            },
            Err(e) => match e {
                EchoError::Parse(pe) => {
                    &&& inbound@.len() < DATA_OFFSET
                    &&& pe == ParseError::BufferTooShort
                },
                EchoError::NotEchoRequest => {
                    &&& inbound@.len() >= DATA_OFFSET
                    &&& !(be16(inbound@, 12) == 0x0800 && inbound@[23] == 1 && inbound@[34] == 8)
                },
                EchoError::Field(fe) => {
                    &&& is_echo_request(inbound@)
                    &&& inbound@.len() - ETHERNET_HEADER_LEN > 0xffff
                    &&& fe == FieldError::ValueOutOfRange
                },
                EchoError::Push(_) => false,
            },
        },
{
    let ghost q = inbound@;
    let total = inbound.len();

    // Parse the inbound stack outer to inner; each layer checks only
    // that its fixed header lies within the buffer.
    let eth = match Ethernet::try_parse(inbound) {
        Ok(x) => x,
        Err(e) => {
            return Err(EchoError::Parse(e));
        },
    };
    let ip = match Ipv4::try_parse(eth) {
        Ok(x) => x,
        Err(e) => {
            return Err(EchoError::Parse(e));
        },
    };
    let req = match EchoRequest::try_parse(ip) {
        Ok(x) => x,
        Err(e) => {
            return Err(EchoError::Parse(e));
        },
    };

    // Field validation is the transformation's responsibility, not the
    // layers': only a network-carried echo request is answered.
    let ethertype = req.envelope.envelope.ethertype();
    let protocol = req.envelope.protocol();
    let mtype = req.msg_type();
    if ethertype != 0x0800 || protocol != 1 || mtype != 8 {
        return Err(EchoError::NotEchoRequest);
    }
    if total - ETHERNET_HEADER_LEN > 0xffff {
        return Err(EchoError::Field(FieldError::ValueOutOfRange));
    }

    // Swap the addresses at each layer; copy the echo fields unchanged.
    let src_mac = req.envelope.envelope.src();
    let dst_mac = req.envelope.envelope.dst();
    let ip_src = req.envelope.src();
    let ip_dst = req.envelope.dst();
    let ident = req.identifier();
    let seqno = req.seq_no();
    let data = req.data();

    match assemble_reply(total, src_mac, dst_mac, ip_dst, ip_src, ident, seqno, &data) {
        Ok(reply) => Ok(reply),
        Err(e) => Err(e),
    }
}

} // verus!
