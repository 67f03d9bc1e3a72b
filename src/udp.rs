//! The 8-byte UDP header, and whole IPv4 + UDP packets whose UDP checksum
//! covers the pseudo-header.

use crate::checksum::{
    checksum, concat, internet_checksum, lemma_stored_checksum_verifies, AsBytes,
};
use crate::codec::{get_be16, hi_byte, lo_byte, push_be16, put_be16, read_be16, ParseError};
use crate::ipv4::{lemma_ipv4_decode_encode, Ipv4, Ipv4Address, IPV4_HEADER_LEN};
use crate::PROTO_UDP;
use vstd::prelude::*;

verus! {

/// Length of a UDP header.
pub const UDP_HEADER_LEN: usize = 8;

/// Length of the UDP pseudo-header.
pub const UDP_PSEUDOHEADER_LEN: usize = 12;

/// A UDP header.
#[derive(Clone, Copy, Debug, PartialEq, Eq)]
pub struct UdpHeader {
    pub src_port: u16,
    pub dst_port: u16,
    pub length: u16,
    pub checksum: u16,
}

impl UdpHeader {
    /// The header that a buffer of 8 bytes holds.
    pub open spec fn decode(bytes: Seq<u8>) -> UdpHeader {
        UdpHeader {
            src_port: read_be16(bytes, 0),
            dst_port: read_be16(bytes, 2),
            length: read_be16(bytes, 4),
            checksum: read_be16(bytes, 6),
        }
    }

    /// Parses a header from exactly 8 bytes; the checksum is not validated.
    pub fn from_bytes(bytes: &[u8]) -> (r: Result<Self, ParseError>)
        ensures
            bytes@.len() == UDP_HEADER_LEN ==> r == Ok::<Self, ParseError>(Self::decode(bytes@)),
            bytes@.len() != UDP_HEADER_LEN ==> r == Err::<Self, ParseError>(
                ParseError::LengthMismatch,
            ),
    {
        if bytes.len() != UDP_HEADER_LEN {
            return Err(ParseError::LengthMismatch);
        }
        Ok(
            UdpHeader {
                src_port: get_be16(bytes, 0),
                dst_port: get_be16(bytes, 2),
                length: get_be16(bytes, 4),
                checksum: get_be16(bytes, 6),
            },
        )
    }
}

impl AsBytes for UdpHeader {
    open spec fn spec_bytes(&self) -> Seq<u8> {
        seq![
            hi_byte(self.src_port),
            lo_byte(self.src_port),
            hi_byte(self.dst_port),
            lo_byte(self.dst_port),
            hi_byte(self.length),
            lo_byte(self.length),
            hi_byte(self.checksum),
            lo_byte(self.checksum),
        ]
    }

    fn as_bytes(&self) -> (r: Vec<u8>) {
        let mut out: Vec<u8> = Vec::with_capacity(UDP_HEADER_LEN);
        push_be16(&mut out, self.src_port);
        push_be16(&mut out, self.dst_port);
        push_be16(&mut out, self.length);
        push_be16(&mut out, self.checksum);
        assert(out@ =~= self.spec_bytes());
        out
    }
}

/// Every UDP header has 8 bytes.
pub proof fn lemma_udp_len(h: UdpHeader)
    ensures
        h.spec_bytes().len() == UDP_HEADER_LEN,
{
}

/// Parsing the bytes of a UDP header gives that header back.
pub proof fn lemma_udp_decode_encode(h: UdpHeader)
    ensures
        UdpHeader::decode(h.spec_bytes()) == h,
{
    let b = h.spec_bytes();
    assert(read_be16(b, 0) == h.src_port);
    assert(read_be16(b, 2) == h.dst_port);
    assert(read_be16(b, 4) == h.length);
    assert(read_be16(b, 6) == h.checksum);
}

/// Rendering a parsed UDP header gives the 8 bytes it was parsed from.
pub proof fn lemma_udp_encode_decode(bytes: Seq<u8>)
    requires
        bytes.len() == UDP_HEADER_LEN,
    ensures
        UdpHeader::decode(bytes).spec_bytes() == bytes,
{
    assert(UdpHeader::decode(bytes).spec_bytes() =~= bytes);
}

/// The pseudo-header that the UDP checksum covers; it is never sent.
#[derive(Clone, Copy, Debug, PartialEq, Eq)]
pub struct UdpPseudoheader {
    pub src: Ipv4Address,
    pub dst: Ipv4Address,
    pub zero: u8,
    pub proto: u8,
    pub length: u16,
}

impl UdpPseudoheader {
    /// The pseudo-header for a UDP segment of `length` bytes under `ipv4`.
    pub open spec fn spec_for(ipv4: Ipv4, length: u16) -> UdpPseudoheader {
        UdpPseudoheader { src: ipv4.src, dst: ipv4.dst, zero: 0, proto: ipv4.protocol, length }
    }
}

impl AsBytes for UdpPseudoheader {
    open spec fn spec_bytes(&self) -> Seq<u8> {
        self.src.spec_octets() + self.dst.spec_octets() + seq![
            self.zero,
            self.proto,
            hi_byte(self.length),
            lo_byte(self.length),
        ]
    }

    fn as_bytes(&self) -> (r: Vec<u8>) {
        let mut out: Vec<u8> = Vec::with_capacity(UDP_PSEUDOHEADER_LEN);
        out.push(self.src.0);
        out.push(self.src.1);
        out.push(self.src.2);
        out.push(self.src.3);
        out.push(self.dst.0);
        out.push(self.dst.1);
        out.push(self.dst.2);
        out.push(self.dst.3);
        out.push(self.zero);
        out.push(self.proto);
        push_be16(&mut out, self.length);
        assert(out@ =~= self.spec_bytes());
        out
    }
}

/// The checksum over the pseudo-header of `ipv4` followed by a UDP segment.
pub open spec fn spec_pseudoheader_checksum(ipv4: Ipv4, segment: Seq<u8>) -> u16 {
    internet_checksum(
        UdpPseudoheader::spec_for(ipv4, segment.len() as u16).spec_bytes() + segment,
    )
}

/// The UDP header of the packet `new_udp_packet` builds.
pub open spec fn spec_udp_header(
    ipv4: Ipv4,
    src_port: u16,
    dst_port: u16,
    contents: Seq<u8>,
) -> UdpHeader {
    let blank = UdpHeader {
        src_port,
        dst_port,
        length: (contents.len() + UDP_HEADER_LEN) as u16,
        checksum: 0,
    };
    UdpHeader {
        checksum: spec_pseudoheader_checksum(ipv4, blank.spec_bytes() + contents),
        ..blank
    }
}

/// The packet `new_udp_packet` builds: IPv4 header, UDP header, contents.
pub open spec fn spec_udp_packet(
    dst: Ipv4Address,
    src_port: u16,
    dst_port: u16,
    contents: Seq<u8>,
) -> Seq<u8> {
    let ipv4 = Ipv4::spec_new((contents.len() + UDP_HEADER_LEN) as u16, PROTO_UDP, dst);
    ipv4.spec_bytes() + spec_udp_header(ipv4, src_port, dst_port, contents).spec_bytes()
        + contents
}

/// What a receiver computes over an IPv4 + UDP packet to check its UDP
/// checksum: the checksum over the pseudo-header built from the packet's own
/// IPv4 header, followed by everything after that header.
pub open spec fn received_udp_checksum(packet: Seq<u8>) -> u16 {
    spec_pseudoheader_checksum(
        Ipv4::decode(packet.subrange(0, IPV4_HEADER_LEN as int)),
        packet.subrange(IPV4_HEADER_LEN as int, packet.len() as int),
    )
}

fn pseudoheader_checksum(ipv4: Ipv4, udp_contents: &[u8]) -> (r: u16)
    requires
        udp_contents@.len() <= u16::MAX,
    ensures
        r == spec_pseudoheader_checksum(ipv4, udp_contents@),
{
    let pheader = UdpPseudoheader {
        src: ipv4.src,
        dst: ipv4.dst,
        zero: 0,
        proto: ipv4.protocol,
        length: udp_contents.len() as u16,
    };
    let bytes = concat(&pheader, udp_contents);
    checksum(bytes.as_slice())
}

/// Builds an IPv4 + UDP packet from the local address to `dst` carrying
/// `contents`, with both checksums filled in.
pub fn new_udp_packet(
    dst: Ipv4Address,
    src_port: u16,
    dst_port: u16,
    contents: &[u8],
) -> (r: Vec<u8>)
    requires
        IPV4_HEADER_LEN + UDP_HEADER_LEN + contents@.len() <= u16::MAX,
    ensures
        r@ == spec_udp_packet(dst, src_port, dst_port, contents@),
        r@.len() == IPV4_HEADER_LEN + UDP_HEADER_LEN + contents@.len(),
        internet_checksum(r@.subrange(0, IPV4_HEADER_LEN as int)) == 0,
        received_udp_checksum(r@) == 0,
{
    let mut udp = UdpHeader {
        src_port,
        dst_port,
        length: (contents.len() + UDP_HEADER_LEN) as u16,
        checksum: 0,
    };
    let ipv4 = Ipv4::new(udp.length, PROTO_UDP, dst);
    let segment = concat(&udp, contents);
    udp.checksum = pseudoheader_checksum(ipv4, segment.as_slice());
    let head = concat(&ipv4, &udp);
    let packet = concat(head.as_slice(), contents);
    proof {
        let p = packet@;
        let ipv4_bytes = ipv4.spec_bytes();
        let rest = udp.spec_bytes() + contents@;
        assert(p.subrange(0, IPV4_HEADER_LEN as int) =~= ipv4_bytes);
        assert(p.subrange(IPV4_HEADER_LEN as int, p.len() as int) =~= rest);
        lemma_ipv4_decode_encode(ipv4);
        let pseudo = UdpPseudoheader::spec_for(ipv4, segment@.len() as u16).spec_bytes();
        let zeroed = pseudo + segment@;
        assert(put_be16(zeroed, 18, udp.checksum) =~= pseudo + rest);
        lemma_stored_checksum_verifies(zeroed, 18);
    }
    packet
}

} // verus!
