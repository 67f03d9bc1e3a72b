//! The 20-byte IPv4 header.

use crate::checksum::{finalized, internet_checksum, AsBytes, Checksummable};
use crate::codec::{get_be16, hi_byte, lo_byte, push_be16, put_be16, read_be16, ParseError};
use vstd::prelude::*;

verus! {

/// Length of an IPv4 header without options.
pub const IPV4_HEADER_LEN: usize = 20;

/// Version 4, five 32-bit words of header.
pub const VERSION_IHL: u8 = 0x45;

/// Identification of every header built here; it is not incremented.
pub const IDENTIFICATION: u16 = 1;

/// Time to live of every header built here.
pub const DEFAULT_TTL: u8 = 64;

/// An IPv4 address, as its four octets in network order.
#[derive(Clone, Copy, Debug, PartialEq, Eq)]
pub struct Ipv4Address(pub u8, pub u8, pub u8, pub u8);

impl Ipv4Address {
    /// The four octets, first octet first.
    pub open spec fn spec_octets(self) -> Seq<u8> {
        seq![self.0, self.1, self.2, self.3]
    }

    /// The four octets, first octet first.
    pub fn octets(&self) -> (r: [u8; 4])
        ensures
            r@ == self.spec_octets(),
    {
        let r = [self.0, self.1, self.2, self.3];
        assert(r@ =~= self.spec_octets());
        r
    }
}

/// The source address of every header built here.
pub open spec fn spec_local_address() -> Ipv4Address {
    Ipv4Address(192, 0, 2, 2)
}

/// The source address of every header built here.
pub fn local_address() -> (r: Ipv4Address)
    ensures
        r == spec_local_address(),
{
    Ipv4Address(192, 0, 2, 2)
}

/// An IPv4 header without options.
#[derive(Clone, Copy, Debug, PartialEq, Eq)]
pub struct Ipv4 {
    pub vers_ihl: u8,
    pub tos: u8,
    pub total_length: u16,
    pub id: u16,
    pub frag_off: u16,
    pub ttl: u8,
    pub protocol: u8,
    pub checksum: u16,
    pub src: Ipv4Address,
    pub dst: Ipv4Address,
}

impl Ipv4 {
    /// The header `new` builds, before its checksum is filled in.
    pub open spec fn spec_unchecked(contents_len: u16, protocol: u8, dst: Ipv4Address) -> Ipv4 {
        Ipv4 {
            vers_ihl: VERSION_IHL,
            tos: 0,
            total_length: (IPV4_HEADER_LEN + contents_len) as u16,
            id: IDENTIFICATION,
            frag_off: 0,
            ttl: DEFAULT_TTL,
            protocol,
            checksum: 0,
            src: spec_local_address(),
            dst,
        }
    }

    /// The header `new` builds: the unchecked one with its checksum stored.
    pub open spec fn spec_new(contents_len: u16, protocol: u8, dst: Ipv4Address) -> Ipv4 {
        finalized(Self::spec_unchecked(contents_len, protocol, dst))
    }

    /// The header that a buffer of 20 bytes holds.
    pub open spec fn decode(bytes: Seq<u8>) -> Ipv4 {
        Ipv4 {
            vers_ihl: bytes[0],
            tos: bytes[1],
            total_length: read_be16(bytes, 2),
            id: read_be16(bytes, 4),
            frag_off: read_be16(bytes, 6),
            ttl: bytes[8],
            protocol: bytes[9],
            checksum: read_be16(bytes, 10),
            src: Ipv4Address(bytes[12], bytes[13], bytes[14], bytes[15]),
            dst: Ipv4Address(bytes[16], bytes[17], bytes[18], bytes[19]),
        }
    }

    /// Builds the header of a packet from the local address to `dst` that
    /// carries `contents_len` bytes of `protocol`, with its checksum filled in.
    pub fn new(contents_len: u16, protocol: u8, dst: Ipv4Address) -> (r: Self)
        requires
            IPV4_HEADER_LEN + contents_len <= u16::MAX,
        ensures
            r == Self::spec_new(contents_len, protocol, dst),
            internet_checksum(r.spec_bytes()) == 0,
    {
        let src = local_address();
        let header = Ipv4 {
            vers_ihl: VERSION_IHL,
            tos: 0,
            total_length: IPV4_HEADER_LEN as u16 + contents_len,
            id: IDENTIFICATION,
            frag_off: 0,
            ttl: DEFAULT_TTL,
            protocol,
            checksum: 0,
            src,
            dst,
        };
        header.apply_checksum()
    }

    /// Parses a header from exactly 20 bytes; no field is validated.
    pub fn from_bytes(bytes: &[u8]) -> (r: Result<Self, ParseError>)
        ensures
            bytes@.len() == IPV4_HEADER_LEN ==> r == Ok::<Self, ParseError>(Self::decode(bytes@)),
            bytes@.len() != IPV4_HEADER_LEN ==> r == Err::<Self, ParseError>(
                ParseError::LengthMismatch,
            ),
    {
        if bytes.len() != IPV4_HEADER_LEN {
            return Err(ParseError::LengthMismatch);
        }
        Ok(Ipv4 {
            vers_ihl: bytes[0],
            tos: bytes[1],
            total_length: get_be16(bytes, 2),
            id: get_be16(bytes, 4),
            frag_off: get_be16(bytes, 6),
            ttl: bytes[8],
            protocol: bytes[9],
            checksum: get_be16(bytes, 10),
            src: Ipv4Address(bytes[12], bytes[13], bytes[14], bytes[15]),
            dst: Ipv4Address(bytes[16], bytes[17], bytes[18], bytes[19]),
        })
    }
}

impl AsBytes for Ipv4 {
    open spec fn spec_bytes(&self) -> Seq<u8> {
        seq![
            self.vers_ihl,
            self.tos,
            hi_byte(self.total_length),
            lo_byte(self.total_length),
            hi_byte(self.id),
            lo_byte(self.id),
            hi_byte(self.frag_off),
            lo_byte(self.frag_off),
            self.ttl,
            self.protocol,
            hi_byte(self.checksum),
            lo_byte(self.checksum),
        ] + self.src.spec_octets() + self.dst.spec_octets()
    }

    fn as_bytes(&self) -> (r: Vec<u8>) {
        let mut out: Vec<u8> = Vec::with_capacity(IPV4_HEADER_LEN);
        out.push(self.vers_ihl);
        out.push(self.tos);
        push_be16(&mut out, self.total_length);
        push_be16(&mut out, self.id);
        push_be16(&mut out, self.frag_off);
        out.push(self.ttl);
        out.push(self.protocol);
        push_be16(&mut out, self.checksum);
        out.push(self.src.0);
        out.push(self.src.1);
        out.push(self.src.2);
        out.push(self.src.3);
        out.push(self.dst.0);
        out.push(self.dst.1);
        out.push(self.dst.2);
        out.push(self.dst.3);
        assert(out@ =~= self.spec_bytes());
        out
    }
}

impl Checksummable for Ipv4 {
    open spec fn checksum_offset(&self) -> int {
        10
    }

    open spec fn with_checksum(self, checksum: u16) -> Ipv4 {
        Ipv4 { checksum, ..self }
    }

    proof fn lemma_checksum_field(self, checksum: u16) {
        assert(self.checksum_offset() == 10);
        assert(self.with_checksum(checksum).spec_bytes() =~= put_be16(
            self.spec_bytes(),
            10,
            checksum,
        ));
    }

    fn set_checksum(&mut self, checksum: u16) {
        self.checksum = checksum;
    }
}

/// Every header has 20 bytes.
pub proof fn lemma_ipv4_len(h: Ipv4)
    ensures
        h.spec_bytes().len() == IPV4_HEADER_LEN,
{
}

/// Parsing the bytes of a header gives that header back.
pub proof fn lemma_ipv4_decode_encode(h: Ipv4)
    ensures
        Ipv4::decode(h.spec_bytes()) == h,
{
    let b = h.spec_bytes();
    assert(read_be16(b, 2) == h.total_length);
    assert(read_be16(b, 4) == h.id);
    assert(read_be16(b, 6) == h.frag_off);
    assert(read_be16(b, 10) == h.checksum);
}

/// Rendering a parsed header gives the 20 bytes it was parsed from.
pub proof fn lemma_ipv4_encode_decode(bytes: Seq<u8>)
    requires
        bytes.len() == IPV4_HEADER_LEN,
    ensures
        Ipv4::decode(bytes).spec_bytes() == bytes,
{
    assert(Ipv4::decode(bytes).spec_bytes() =~= bytes);
}

} // verus!
