use tunnet::checksum::checksum;
use tunnet::codec::ParseError;
use tunnet::ipv4::{Ipv4, Ipv4Address};
use tunnet::tcp::{TcpHeader, TcpPacket, ACK, FIN, SYN};
use tunnet::udp::{new_udp_packet, UdpHeader};
use tunnet::PROTO_UDP;

const DNS_QUERY: &[u8] =
    b"D\xcb\x01\x00\x00\x01\x00\x00\x00\x00\x00\x00\x07example\x03com\x00\x00\x01\x00\x01";

fn pseudo_checksum(packet: &[u8]) -> u16 {
    let mut bytes = packet[12..20].to_vec();
    bytes.push(0);
    bytes.push(packet[9]);
    let udp_len = (packet.len() - 20) as u16;
    bytes.extend_from_slice(&udp_len.to_be_bytes());
    bytes.extend_from_slice(&packet[20..]);
    checksum(&bytes)
}

#[test]
fn dns_packet_is_self_consistent() {
    let packet = new_udp_packet(Ipv4Address(192, 0, 2, 1), 12345, 53, DNS_QUERY);
    assert_eq!(DNS_QUERY.len(), 29);
    assert_eq!(packet.len(), 57);
    assert_eq!(checksum(&packet[..20]), 0);
    assert_eq!(pseudo_checksum(&packet), 0);

    let ipv4 = Ipv4::from_bytes(&packet[..20]).unwrap();
    assert_eq!(ipv4.total_length, 57);
    assert_eq!(ipv4.protocol, PROTO_UDP);
    let udp = UdpHeader::from_bytes(&packet[20..28]).unwrap();
    assert_eq!(udp.length, 37);
    assert_eq!(udp.src_port, 12345);
    assert_eq!(udp.dst_port, 53);
    assert_eq!(&packet[28..], DNS_QUERY);
}

#[test]
fn dns_packet_exact_bytes() {
    let packet = new_udp_packet(Ipv4Address(8, 8, 8, 8), 12345, 53, DNS_QUERY);
    let expected = hex::decode("45000039000100004011a8a1c000020208080808303900350025e8ea44cb01000001000000000000076578616d706c6503636f6d0000010001").unwrap();
    assert_eq!(packet, expected);
}

#[test]
fn udp_packet_with_empty_and_odd_payloads() {
    for payload in [&[][..], &[1u8][..], &[1u8, 2, 3][..]] {
        let packet = new_udp_packet(Ipv4Address(10, 0, 0, 1), 1, 2, payload);
        assert_eq!(packet.len(), 28 + payload.len());
        assert_eq!(checksum(&packet[..20]), 0);
        assert_eq!(pseudo_checksum(&packet), 0);
    }
}

#[test]
fn tcp_syn_carries_mss_option() {
    let p = TcpPacket::new(SYN, 40000, 80, 7, 0, vec![]);
    assert_eq!(p.options, vec![2, 4, 0x05, 0xb4]);
    assert_eq!(p.header.offset, 0x60);
    assert_eq!(p.header.window, 0xffff);
    assert_eq!(p.header.checksum, 0);
    let bytes = p.to_bytes();
    assert_eq!(
        bytes,
        vec![
            0x9c, 0x40, 0x00, 0x50, 0, 0, 0, 7, 0, 0, 0, 0, 0x60, 0x02, 0xff, 0xff, 0, 0, 0, 0, 2,
            4, 0x05, 0xb4
        ]
    );
}

#[test]
fn tcp_non_syn_has_no_options() {
    // Only flags equal to SYN alone get the option.
    let p = TcpPacket::new(SYN | ACK, 1, 2, 3, 4, vec![9, 9]);
    assert!(p.options.is_empty());
    assert_eq!(p.header.offset, 0x50);
    let q = TcpPacket::new(FIN, 1, 2, 3, 4, vec![]);
    assert!(q.options.is_empty());
}

#[test]
fn tcp_round_trip() {
    let p = TcpPacket::new(SYN, 1234, 443, 0xdeadbeef, 0x01020304, vec![1, 2, 3, 4, 5]);
    let bytes = p.to_bytes();
    assert_eq!(bytes.len(), 20 + 4 + 5);
    let q = TcpPacket::from_bytes(&bytes).unwrap();
    assert_eq!(q, p);
    assert_eq!(q.header.seq, 0xdeadbeef);
    assert_eq!(q.header.ack, 0x01020304);
    assert_eq!(q.to_bytes(), bytes);
}

#[test]
fn tcp_parse_errors() {
    assert_eq!(TcpPacket::from_bytes(&[0u8; 19]), Err(ParseError::LengthMismatch));
    let mut bytes = TcpPacket::new(ACK, 1, 2, 3, 4, vec![]).to_bytes();
    bytes[12] = 0x40;
    assert_eq!(TcpPacket::from_bytes(&bytes), Err(ParseError::DataOffsetOutOfRange));
    bytes[12] = 0x60;
    assert_eq!(TcpPacket::from_bytes(&bytes), Err(ParseError::DataOffsetOutOfRange));
}

#[test]
fn tcp_header_fields_big_endian() {
    let h = TcpHeader {
        src_port: 0x0102,
        dst_port: 0x0304,
        seq: 0x05060708,
        ack: 0x090a0b0c,
        offset: 0x50,
        flags: ACK,
        window: 0x0d0e,
        checksum: 0x0f10,
        urgent: 0x1112,
    };
    let p = TcpPacket { header: h, options: vec![], data: vec![0xee] };
    let bytes = p.to_bytes();
    assert_eq!(
        bytes,
        vec![1, 2, 3, 4, 5, 6, 7, 8, 9, 10, 11, 12, 0x50, 16, 13, 14, 15, 16, 17, 18, 0xee]
    );
}
