use tunnet::checksum::{checksum, AsBytes, Checksummable};
use tunnet::codec::ParseError;
use tunnet::icmp_echo::{IcmpEcho, ICMP_ECHO_LEN};
use tunnet::ipv4::{local_address, Ipv4, Ipv4Address};
use tunnet::udp::UdpHeader;
use tunnet::{PROTO_ICMP, PROTO_TCP, PROTO_UDP};

#[test]
fn make_ping() {
    let ping = IcmpEcho::ping(1);
    let expected = b"\x08\x00\xc7\xc509\x00\x01";
    assert_eq!(ping.as_bytes(), expected);
}

#[test]
fn ipv4_to_bytes() {
    let ipv4 = Ipv4 {
        vers_ihl: 4 << 4 | 5,
        tos: 0,
        total_length: 28,
        id: 1,
        frag_off: 0,
        ttl: 16,
        protocol: 6,
        checksum: 0,
        src: Ipv4Address(192, 168, 0, 1),
        dst: Ipv4Address(8, 8, 8, 8),
    };
    let expected =
        b"E\x00\x00\x1c\x00\x01\x00\x00\x10\x06\x00\x00\xc0\xa8\x00\x01\x08\x08\x08\x08";
    assert_eq!(ipv4.as_bytes(), expected);
}

#[test]
fn ipv4_round_trip_bytes() {
    // Serialize.
    let ping = IcmpEcho::ping(1);
    let dst = Ipv4Address(192, 0, 2, 1);
    let ipv4_header = Ipv4::new(ICMP_ECHO_LEN as u16, PROTO_ICMP, dst);
    let packet = tunnet::checksum::concat(&ipv4_header, &ping);
    assert_eq!(packet.len(), 28);

    // Deserialize.
    let ipv4_resp = Ipv4::from_bytes(&packet[..20]).unwrap();
    let icmp_resp = IcmpEcho::from_bytes(&packet[20..28]).unwrap();
    assert_eq!(ipv4_resp, ipv4_header);
    assert_eq!(icmp_resp, ping);
}

#[test]
fn ipv4_new_fills_fixed_fields() {
    let h = Ipv4::new(8, PROTO_ICMP, Ipv4Address(192, 0, 2, 1));
    assert_eq!(h.vers_ihl, 0x45);
    assert_eq!(h.tos, 0);
    assert_eq!(h.total_length, 28);
    assert_eq!(h.id, 1);
    assert_eq!(h.frag_off, 0);
    assert_eq!(h.ttl, 64);
    assert_eq!(h.protocol, PROTO_ICMP);
    assert_eq!(h.src, local_address());
    assert_eq!(h.src.octets(), [192, 0, 2, 2]);
    assert_eq!(h.dst, Ipv4Address(192, 0, 2, 1));
    assert_eq!(h.checksum, 0xf6dc);
}

#[test]
fn ipv4_new_checks_to_zero() {
    for (len, proto) in [(0u16, PROTO_UDP), (8, PROTO_ICMP), (1480, PROTO_TCP), (65515, 0xff)] {
        let h = Ipv4::new(len, proto, Ipv4Address(10, 1, 2, 3));
        assert_eq!(checksum(&h.as_bytes()), 0);
    }
}

#[test]
fn ping_checks_to_zero() {
    for seq in [0u16, 1, 0x1234, 0xffff] {
        let ping = IcmpEcho::ping(seq);
        assert_eq!(ping.seq, seq);
        assert_eq!(ping.type_, 8);
        assert_eq!(ping.code, 0);
        assert_eq!(ping.id, 12345);
        assert_eq!(checksum(&ping.as_bytes()), 0);
    }
}

#[test]
fn apply_checksum_replaces_stale_checksum() {
    let mut h = IcmpEcho::ping(7);
    h.set_checksum(0xabcd);
    let fixed = h.apply_checksum();
    assert_eq!(fixed, IcmpEcho::ping(7));
}

#[test]
fn ipv4_parse_rejects_wrong_length() {
    assert_eq!(Ipv4::from_bytes(&[0u8; 19]), Err(ParseError::LengthMismatch));
    assert_eq!(Ipv4::from_bytes(&[0u8; 21]), Err(ParseError::LengthMismatch));
}

#[test]
fn icmp_parse_rejects_wrong_length() {
    assert_eq!(IcmpEcho::from_bytes(&[0u8; 7]), Err(ParseError::LengthMismatch));
    assert_eq!(IcmpEcho::from_bytes(&[]), Err(ParseError::LengthMismatch));
}

#[test]
fn udp_parse_rejects_wrong_length() {
    assert_eq!(UdpHeader::from_bytes(&[0u8; 9]), Err(ParseError::LengthMismatch));
}

#[test]
fn ipv4_parse_reads_big_endian_fields() {
    let bytes = hex::decode("45000039000100004011a8a1c000020208080808").unwrap();
    let h = Ipv4::from_bytes(&bytes).unwrap();
    assert_eq!(h.total_length, 57);
    assert_eq!(h.id, 1);
    assert_eq!(h.protocol, PROTO_UDP);
    assert_eq!(h.checksum, 0xa8a1);
    assert_eq!(h.src, Ipv4Address(192, 0, 2, 2));
    assert_eq!(h.dst, Ipv4Address(8, 8, 8, 8));
    assert_eq!(h.as_bytes(), bytes);
}

#[test]
fn udp_header_round_trip() {
    let h = UdpHeader { src_port: 12345, dst_port: 53, length: 37, checksum: 0xe8ea };
    let bytes = h.as_bytes();
    assert_eq!(bytes, [0x30, 0x39, 0x00, 0x35, 0x00, 0x25, 0xe8, 0xea]);
    assert_eq!(UdpHeader::from_bytes(&bytes), Ok(h));
}

#[test]
fn icmp_round_trip_of_arbitrary_bytes() {
    let bytes = [0u8, 3, 0xff, 0x01, 0x80, 0x7f, 0x12, 0x34];
    let h = IcmpEcho::from_bytes(&bytes).unwrap();
    assert_eq!(h.type_, 0);
    assert_eq!(h.code, 3);
    assert_eq!(h.checksum, 0xff01);
    assert_eq!(h.id, 0x807f);
    assert_eq!(h.seq, 0x1234);
    assert_eq!(h.as_bytes(), bytes);
}

#[test]
fn concat_of_header_and_slice() {
    let h = UdpHeader { src_port: 1, dst_port: 2, length: 10, checksum: 0 };
    let payload: &[u8] = &[0xaa, 0xbb];
    assert_eq!(tunnet::checksum::concat(&h, payload), vec![0, 1, 0, 2, 0, 10, 0, 0, 0xaa, 0xbb]);
}
