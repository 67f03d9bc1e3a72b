//! The 8-byte ICMP echo header.

use crate::checksum::{finalized, internet_checksum, AsBytes, Checksummable};
use crate::codec::{get_be16, hi_byte, lo_byte, push_be16, put_be16, read_be16, ParseError};
use vstd::prelude::*;

verus! {

/// Length of an ICMP echo header.
pub const ICMP_ECHO_LEN: usize = 8;

/// ICMP type of an echo request.
pub const ECHO_REQUEST: u8 = 8;

/// Identifier of every echo request built here.
pub const ECHO_IDENTIFIER: u16 = 12345;

/// An ICMP echo request or reply header.
#[derive(Clone, Copy, Debug, PartialEq, Eq)]
pub struct IcmpEcho {
    pub type_: u8,
    pub code: u8,
    pub checksum: u16,
    pub id: u16,
    pub seq: u16,
}

impl IcmpEcho {
    /// The echo request `ping` builds, before its checksum is filled in.
    pub open spec fn spec_unchecked(seq: u16) -> IcmpEcho {
        IcmpEcho { type_: ECHO_REQUEST, code: 0, checksum: 0, id: ECHO_IDENTIFIER, seq }
    }

    /// The echo request `ping` builds: the unchecked one with its checksum stored.
    pub open spec fn spec_ping(seq: u16) -> IcmpEcho {
        finalized(Self::spec_unchecked(seq))
    }

    /// The header that a buffer of 8 bytes holds.
    pub open spec fn decode(bytes: Seq<u8>) -> IcmpEcho {
        IcmpEcho {
            type_: bytes[0],
            code: bytes[1],
            checksum: read_be16(bytes, 2),
            id: read_be16(bytes, 4),
            seq: read_be16(bytes, 6),
        }
    }

    /// Builds the echo request with sequence number `seq`, checksum filled in.
    pub fn ping(seq: u16) -> (r: Self)
        ensures
            r == Self::spec_ping(seq),
            internet_checksum(r.spec_bytes()) == 0,
    {
        IcmpEcho { type_: ECHO_REQUEST, code: 0, checksum: 0, id: ECHO_IDENTIFIER, seq }.apply_checksum()
    }

    /// Parses a header from exactly 8 bytes; no field is validated.
    pub fn from_bytes(bytes: &[u8]) -> (r: Result<Self, ParseError>)
        ensures
            bytes@.len() == ICMP_ECHO_LEN ==> r == Ok::<Self, ParseError>(Self::decode(bytes@)),
            bytes@.len() != ICMP_ECHO_LEN ==> r == Err::<Self, ParseError>(
                ParseError::LengthMismatch,
            ),
    {
        if bytes.len() != ICMP_ECHO_LEN {
            return Err(ParseError::LengthMismatch);
        }
        Ok(
            IcmpEcho {
                type_: bytes[0],
                code: bytes[1],
                checksum: get_be16(bytes, 2),
                id: get_be16(bytes, 4),
                seq: get_be16(bytes, 6),
            },
        )
    }
}

impl AsBytes for IcmpEcho {
    open spec fn spec_bytes(&self) -> Seq<u8> {
        seq![
            self.type_,
            self.code,
            hi_byte(self.checksum),
            lo_byte(self.checksum),
            hi_byte(self.id),
            lo_byte(self.id),
            hi_byte(self.seq),
            lo_byte(self.seq),
        ]
    }

    fn as_bytes(&self) -> (r: Vec<u8>) {
        let mut out: Vec<u8> = Vec::with_capacity(ICMP_ECHO_LEN);
        out.push(self.type_);
        out.push(self.code);
        push_be16(&mut out, self.checksum);
        push_be16(&mut out, self.id);
        push_be16(&mut out, self.seq);
        assert(out@ =~= self.spec_bytes());
        out
    }
}

impl Checksummable for IcmpEcho {
    open spec fn checksum_offset(&self) -> int {
        2
    }

    open spec fn with_checksum(self, checksum: u16) -> IcmpEcho {
        IcmpEcho { checksum, ..self }
    }

    proof fn lemma_checksum_field(self, checksum: u16) {
        assert(self.checksum_offset() == 2);
        assert(self.with_checksum(checksum).spec_bytes() =~= put_be16(
            self.spec_bytes(),
            2,
            checksum,
        ));
    }

    fn set_checksum(&mut self, checksum: u16) {
        self.checksum = checksum;
    }
}

/// Every echo header has 8 bytes.
pub proof fn lemma_icmp_echo_len(h: IcmpEcho)
    ensures
        h.spec_bytes().len() == ICMP_ECHO_LEN,
{
}

/// Parsing the bytes of an echo header gives that header back.
pub proof fn lemma_icmp_echo_decode_encode(h: IcmpEcho)
    ensures
        IcmpEcho::decode(h.spec_bytes()) == h,
{
    let b = h.spec_bytes();
    assert(read_be16(b, 2) == h.checksum);
    assert(read_be16(b, 4) == h.id);
    assert(read_be16(b, 6) == h.seq);
}

/// Rendering a parsed echo header gives the 8 bytes it was parsed from.
pub proof fn lemma_icmp_echo_encode_decode(bytes: Seq<u8>)
    requires
        bytes.len() == ICMP_ECHO_LEN,
    ensures
        IcmpEcho::decode(bytes).spec_bytes() == bytes,
{
    assert(IcmpEcho::decode(bytes).spec_bytes() =~= bytes);
}

} // verus!
