use packet_layers::FieldError;
use packet_layers::ParseError;
use packet_layers::PushError;
use packet_layers::buf::Buf;
use packet_layers::checksum::compute_checksum;
use packet_layers::echo::EchoError;
use packet_layers::echo::build_echo_reply;
use packet_layers::ethernet::Ethernet;
use packet_layers::ethernet::MacAddr;
use packet_layers::icmp::EchoRequest;
use packet_layers::ipv4::Ipv4;
use packet_layers::rtp::Rtp;
use packet_layers::udp::Udp;

#[test]
fn csrc_count() {
    let mask: u8 = 0b_0000_1111;
    let inpt: u8 = 0b_1111_1000;
    let byte = inpt & mask;
    assert!(byte.to_be() == 8);
}

fn mac(last: u8) -> MacAddr {
    MacAddr { b0: 0x02, b1: 0, b2: 0, b3: 0, b4: 0, b5: last }
}

/// A full stack pushed onto an empty buffer, ready for field writes.
fn push_stack(capacity: usize) -> Rtp {
    let buf = Buf::allocate(capacity);
    let eth = Ethernet::try_push(buf).unwrap();
    let ip = Ipv4::try_push(eth).unwrap();
    let udp = Udp::try_push(ip).unwrap();
    Rtp::try_push(udp).unwrap()
}

#[test]
fn rtp_push_parse_round_trip() {
    let mut rtp = push_stack(64);
    rtp.set_marker_payload_type(0x60);
    rtp.set_sequence_number(0x1234);
    rtp.set_timestamp(0xdead_beef);
    rtp.set_ssrc(0x0102_0304);
    rtp.set_csrc_count(3).unwrap();

    // Unwind the whole stack, then re-derive it from the bytes alone.
    let buf = rtp.deparse().deparse().deparse().deparse();
    let eth = Ethernet::try_parse(buf).unwrap();
    let ip = Ipv4::try_parse(eth).unwrap();
    let udp = Udp::try_parse(ip).unwrap();
    let rtp = Rtp::try_parse(udp).unwrap();

    assert_eq!(rtp.marker_payload_type(), 0x60);
    assert_eq!(rtp.sequence_number(), 0x1234);
    assert_eq!(rtp.timestamp(), 0xdead_beef);
    assert_eq!(rtp.ssrc(), 0x0102_0304);
    assert_eq!(rtp.csrc_count(), 3);
    assert_eq!(rtp.offset(), 42);
}

#[test]
fn rtp_header_len_formula() {
    let mut rtp = push_stack(64);
    // A fresh header has a zero count: the length is the fixed size.
    assert_eq!(rtp.csrc_count(), 0);
    assert_eq!(rtp.header_len(), Rtp::size_of());
    assert_eq!(Rtp::size_of(), 12);
    for count in 0..16u8 {
        rtp.set_csrc_count(count).unwrap();
        assert_eq!(rtp.header_len(), 12 + count as usize * 4);
    }
}

#[test]
fn rtp_count_masked_not_shifted() {
    // Flag bits 4-7 of the first byte must play no part in the count.
    let rtp = push_stack(64);
    let mut buf = rtp.deparse().deparse().deparse().deparse();
    buf.write_u8(42, 0b_1111_1000);
    let eth = Ethernet::try_parse(buf).unwrap();
    let ip = Ipv4::try_parse(eth).unwrap();
    let udp = Udp::try_parse(ip).unwrap();
    let rtp = Rtp::try_parse(udp).unwrap();
    assert_eq!(rtp.csrc_count(), 8);
    assert_eq!(rtp.header_len(), 12 + 8 * 4);
}

#[test]
fn rtp_count_write_preserves_flag_bits() {
    let rtp = push_stack(64);
    let mut buf = rtp.deparse().deparse().deparse().deparse();
    buf.write_u8(42, 0b_1010_0000);
    let eth = Ethernet::try_parse(buf).unwrap();
    let ip = Ipv4::try_parse(eth).unwrap();
    let udp = Udp::try_parse(ip).unwrap();
    let mut rtp = Rtp::try_parse(udp).unwrap();
    rtp.set_csrc_count(5).unwrap();
    assert_eq!(rtp.csrc_count(), 5);
    let buf = rtp.deparse().deparse().deparse().deparse();
    assert_eq!(buf.read_u8(42), 0b_1010_0101);
}

#[test]
fn rtp_push_then_deparse_length() {
    let buf = Buf::allocate(64);
    let eth = Ethernet::try_push(buf).unwrap();
    let ip = Ipv4::try_push(eth).unwrap();
    let udp = Udp::try_push(ip).unwrap();
    let before = 14 + 20 + 8;
    let rtp = Rtp::try_push(udp).unwrap();
    let udp = rtp.deparse();
    let buf = udp.deparse().deparse().deparse();
    // Exactly the fixed header was allocated: no variable field.
    assert_eq!(buf.len(), before + 12);
}

#[test]
fn rtp_set_csrc_count_out_of_range() {
    let mut rtp = push_stack(64);
    assert_eq!(rtp.set_csrc_count(16), Err(FieldError::ValueOutOfRange));
    assert_eq!(rtp.set_csrc_count(15), Ok(()));
    assert_eq!(rtp.csrc_count(), 15);
}

#[test]
fn outer_header_len_survives_inner_pushes() {
    // Each push below resizes the buffer; the outer layers' header
    // lengths, re-queried live afterwards, must be unchanged.
    let rtp = push_stack(64);
    assert_eq!(rtp.envelope().header_len(), 8);
    assert_eq!(rtp.envelope().envelope.header_len(), 20);
    assert_eq!(rtp.envelope().envelope.envelope.header_len(), 14);
    assert_eq!(rtp.envelope().offset(), 34);
    assert_eq!(rtp.envelope().envelope.offset(), 14);
    assert_eq!(rtp.envelope().envelope.envelope.offset(), 0);
}

#[test]
fn rtp_header_len_survives_payload_growth() {
    let mut rtp = push_stack(80);
    rtp.set_csrc_count(2).unwrap();
    let before = rtp.header_len();
    // Grow the buffer after the fixed header, as a caller that writes
    // the two variable entries would.
    let at = rtp.envelope.envelope.envelope.buf.len();
    rtp.envelope.envelope.envelope.buf.extend(at, 8).unwrap();
    assert_eq!(rtp.header_len(), before);
    assert_eq!(rtp.header_len(), 12 + 2 * 4);
}

#[test]
fn parse_too_short_fails() {
    let mut buf = Buf::allocate(64);
    buf.extend(0, 10).unwrap();
    assert!(matches!(Ethernet::try_parse(buf), Err(ParseError::BufferTooShort)));

    let mut buf = Buf::allocate(64);
    buf.extend(0, 40).unwrap();
    let eth = Ethernet::try_parse(buf).unwrap();
    let ip = Ipv4::try_parse(eth).unwrap();
    assert!(matches!(EchoRequest::try_parse(ip), Err(ParseError::BufferTooShort)));
}

#[test]
fn push_capacity_exhausted_fails() {
    let buf = Buf::allocate(20);
    let eth = Ethernet::try_push(buf).unwrap();
    assert!(matches!(Ipv4::try_push(eth), Err(PushError::CapacityExceeded)));
}

#[test]
fn buffer_extend_and_shrink_shift_bytes() {
    let mut buf = Buf::allocate(16);
    buf.extend(0, 3).unwrap();
    buf.write_u8(0, 1);
    buf.write_u8(1, 2);
    buf.write_u8(2, 3);
    buf.extend(1, 2).unwrap();
    assert_eq!(buf.len(), 5);
    assert_eq!(
        (buf.read_u8(0), buf.read_u8(1), buf.read_u8(2), buf.read_u8(3), buf.read_u8(4)),
        (1, 0, 0, 2, 3)
    );
    buf.shrink(1, 2).unwrap();
    assert_eq!(buf.len(), 3);
    assert_eq!((buf.read_u8(0), buf.read_u8(1), buf.read_u8(2)), (1, 2, 3));
    assert!(matches!(buf.shrink(2, 2), Err(ParseError::BufferTooShort)));
}

#[test]
fn checksum_known_values() {
    let mut buf = Buf::allocate(8);
    buf.extend(0, 2).unwrap();
    buf.write_u8(0, 0x45);
    buf.write_u8(1, 0x00);
    assert_eq!(compute_checksum(&buf, 0, 2), 0xbaff);

    // An odd trailing byte counts as the high byte of a final word.
    let mut buf = Buf::allocate(8);
    buf.extend(0, 1).unwrap();
    buf.write_u8(0, 0xaa);
    assert_eq!(compute_checksum(&buf, 0, 1), 0x55ff);

    // Carries fold back into the low sixteen bits.
    let mut buf = Buf::allocate(8);
    buf.extend(0, 4).unwrap();
    buf.write_u8(0, 0xff);
    buf.write_u8(1, 0xff);
    buf.write_u8(2, 0x00);
    buf.write_u8(3, 0x02);
    assert_eq!(compute_checksum(&buf, 0, 4), 0xfffd);
}

/// An inbound echo request: identifier 42, sequence 7, data [0xAA, 0xBB].
fn sample_request() -> Buf {
    let mut buf = Buf::allocate(44);
    buf.extend(0, 44).unwrap();
    // Link layer.
    buf.write_u8(5, 0x01);
    buf.write_u8(0, 0x02);
    buf.write_u8(11, 0x02);
    buf.write_u8(6, 0x02);
    buf.write_u16_be(12, 0x0800);
    // Network layer.
    buf.write_u8(14, 0x45);
    buf.write_u16_be(16, 30);
    buf.write_u8(22, 64);
    buf.write_u8(23, 1);
    buf.write_u32_be(26, 0x0a00_0001);
    buf.write_u32_be(30, 0x0a00_0002);
    // Echo request.
    buf.write_u8(34, 8);
    buf.write_u16_be(38, 42);
    buf.write_u16_be(40, 7);
    buf.write_u8(42, 0xaa);
    buf.write_u8(43, 0xbb);
    buf
}

#[test]
fn echo_reply_scenario() {
    let reply = build_echo_reply(sample_request()).unwrap();
    assert_eq!(reply.len(), 44);
    // Hardware addresses swapped.
    assert_eq!(reply.read_u8(0), 0x02);
    assert_eq!(reply.read_u8(5), 0x02);
    assert_eq!(reply.read_u8(6), 0x02);
    assert_eq!(reply.read_u8(11), 0x01);
    assert_eq!(reply.read_u16_be(12), 0x0800);
    // Network layer: addresses swapped, time-to-live raised, length and
    // checksum reconciled.
    assert_eq!(reply.read_u8(14), 0x45);
    assert_eq!(reply.read_u16_be(16), 30);
    assert_eq!(reply.read_u8(22), 255);
    assert_eq!(reply.read_u8(23), 1);
    assert_eq!(reply.read_u16_be(24), 0xa7dc);
    assert_eq!(reply.read_u32_be(26), 0x0a00_0002);
    assert_eq!(reply.read_u32_be(30), 0x0a00_0001);
    // Echo reply: identifier, sequence and data copied; checksum
    // reconciled over the whole message.
    assert_eq!(reply.read_u8(34), 0);
    assert_eq!(reply.read_u8(35), 0);
    assert_eq!(reply.read_u16_be(36), 0x5513);
    assert_eq!(reply.read_u16_be(38), 42);
    assert_eq!(reply.read_u16_be(40), 7);
    assert_eq!(reply.read_u8(42), 0xaa);
    assert_eq!(reply.read_u8(43), 0xbb);

    // The reconciled checksums verify: summing each region with its
    // checksum field included folds to 0xffff.
    let mut icmp_sum: u32 = 0;
    let mut i = 34;
    while i < 44 {
        icmp_sum += (reply.read_u8(i) as u32) * 0x100 + reply.read_u8(i + 1) as u32;
        i += 2;
    }
    while icmp_sum >= 0x1_0000 {
        icmp_sum = icmp_sum / 0x1_0000 + icmp_sum % 0x1_0000;
    }
    assert_eq!(icmp_sum, 0xffff);
}

#[test]
fn echo_reply_not_a_request() {
    // Right length, wrong transport protocol.
    let mut buf = sample_request();
    buf.write_u8(23, 17);
    assert!(matches!(build_echo_reply(buf), Err(EchoError::NotEchoRequest)));

    // Wrong message type.
    let mut buf = sample_request();
    buf.write_u8(34, 0);
    assert!(matches!(build_echo_reply(buf), Err(EchoError::NotEchoRequest)));

    // Wrong link-layer protocol.
    let mut buf = sample_request();
    buf.write_u16_be(12, 0x86dd);
    assert!(matches!(build_echo_reply(buf), Err(EchoError::NotEchoRequest)));
}

#[test]
fn echo_reply_too_short() {
    let mut buf = Buf::allocate(30);
    buf.extend(0, 30).unwrap();
    assert!(matches!(
        build_echo_reply(buf),
        Err(EchoError::Parse(ParseError::BufferTooShort))
    ));
}

#[test]
fn echo_reply_oversized_packet() {
    // A packet whose network-layer region cannot fit the 16-bit total
    // length field is refused during reconciliation planning.
    let n = 14 + 0xffff + 1;
    let mut buf = Buf::allocate(n);
    buf.extend(0, n).unwrap();
    buf.write_u16_be(12, 0x0800);
    buf.write_u8(23, 1);
    buf.write_u8(34, 8);
    assert!(matches!(
        build_echo_reply(buf),
        Err(EchoError::Field(FieldError::ValueOutOfRange))
    ));
}

#[test]
fn ethernet_field_accessors() {
    let buf = Buf::allocate(16);
    let mut eth = Ethernet::try_push(buf).unwrap();
    eth.set_dst(mac(0x11));
    eth.set_src(mac(0x22));
    eth.set_ethertype(0x0800);
    assert_eq!(eth.dst(), mac(0x11));
    assert_eq!(eth.src(), mac(0x22));
    assert_eq!(eth.ethertype(), 0x0800);
    assert_eq!(eth.header_len(), 14);
    assert_eq!(eth.payload_offset(), 14);
}

#[test]
fn ipv4_field_accessors() {
    let buf = Buf::allocate(34);
    let eth = Ethernet::try_push(buf).unwrap();
    let mut ip = Ipv4::try_push(eth).unwrap();
    ip.set_version_ihl(0x45);
    ip.set_ttl(255);
    ip.set_protocol(17);
    ip.set_src(0x0a00_0001);
    ip.set_dst(0x0a00_0002);
    ip.set_total_length(20);
    assert_eq!(ip.version_ihl(), 0x45);
    assert_eq!(ip.ttl(), 255);
    assert_eq!(ip.protocol(), 17);
    assert_eq!(ip.src(), 0x0a00_0001);
    assert_eq!(ip.dst(), 0x0a00_0002);
    assert_eq!(ip.total_length(), 20);
    assert_eq!(ip.offset(), 14);
    assert_eq!(ip.payload_offset(), 34);
}

#[test]
fn ipv4_reconcile_sets_length_and_checksum() {
    let buf = Buf::allocate(34);
    let eth = Ethernet::try_push(buf).unwrap();
    let mut ip = Ipv4::try_push(eth).unwrap();
    ip.set_version_ihl(0x45);
    ip.set_ttl(255);
    ip.set_protocol(1);
    ip.set_src(0x0a00_0002);
    ip.set_dst(0x0a00_0001);
    ip.reconcile().unwrap();
    assert_eq!(ip.total_length(), 20);
    // Same header as the echo-reply scenario but with a 20-byte total
    // length: its checksum differs from that scenario's by the length.
    let expected = {
        let sum: u32 = 0x4500 + 20 + 0xff01 + 0x0a00 + 0x0002 + 0x0a00 + 0x0001;
        let folded = (sum >> 16) + (sum & 0xffff);
        0xffff - folded as u16 as u32
    };
    assert_eq!(ip.checksum() as u32, expected);
}

#[test]
fn udp_field_accessors() {
    let buf = Buf::allocate(42);
    let eth = Ethernet::try_push(buf).unwrap();
    let ip = Ipv4::try_push(eth).unwrap();
    let mut udp = Udp::try_push(ip).unwrap();
    udp.set_src_port(5004);
    udp.set_dst_port(5005);
    udp.set_length(8);
    assert_eq!(udp.src_port(), 5004);
    assert_eq!(udp.dst_port(), 5005);
    assert_eq!(udp.length(), 8);
    assert_eq!(udp.offset(), 34);
    assert_eq!(udp.header_len(), 8);
    assert_eq!(udp.payload_offset(), 42);
}
