//! TCP segments: the 20-byte header, word-aligned options, and data. No
//! checksum is computed for them.

use crate::checksum::AsBytes;
use crate::codec::{
    be16, be32, get_be16, get_be32, lemma_be32_round_trip, lemma_read_be16_inverse,
    lemma_read_be32_inverse, push_all, push_be16, push_be32, read_be16, read_be32, ParseError,
};
use vstd::prelude::*;
use vstd::slice::slice_to_vec;

verus! {

/// Flag bit: no more data from the sender.
pub const FIN: u8 = 1;

/// Flag bit: synchronize sequence numbers.
pub const SYN: u8 = 2;

/// Flag bit: reset the connection.
pub const RST: u8 = 4;

/// Flag bit: push the data to the application.
pub const PSH: u8 = 8;

/// Flag bit: the acknowledgment number is significant.
pub const ACK: u8 = 16;

/// Length of a TCP header without options.
pub const TCP_HEADER_LEN: usize = 20;

/// Option kind of the maximum segment size option.
pub const OPT_MSS: u8 = 2;

/// Length of the maximum segment size option.
pub const OPT_MSS_LEN: u8 = 4;

/// Maximum segment size advertised on a SYN.
pub const MSS: u16 = 1460;

/// Receive window of every segment built here.
pub const DEFAULT_WINDOW: u16 = 0xFFFF;

/// A TCP header without its options.
#[derive(Clone, Copy, Debug, PartialEq, Eq)]
pub struct TcpHeader {
    pub src_port: u16,
    pub dst_port: u16,
    pub seq: u32,
    pub ack: u32,
    /// Data offset in 32-bit words in the high nibble; reserved bits below.
    pub offset: u8,
    pub flags: u8,
    pub window: u16,
    pub checksum: u16,
    pub urgent: u16,
}

/// Number of bytes before the data that the offset byte `offset` announces.
pub open spec fn spec_data_offset(offset: u8) -> nat {
    (offset / 16) as nat * 4
}

/// The offset byte announcing a header followed by `options_len` bytes of options.
pub open spec fn spec_offset_byte(options_len: nat) -> u8 {
    (((TCP_HEADER_LEN + options_len) / 4) * 16) as u8
}

impl TcpHeader {
    /// The header that the first 20 bytes of `bytes` hold.
    pub open spec fn decode(bytes: Seq<u8>) -> TcpHeader {
        TcpHeader {
            src_port: read_be16(bytes, 0),
            dst_port: read_be16(bytes, 2),
            seq: read_be32(bytes, 4),
            ack: read_be32(bytes, 8),
            offset: bytes[12],
            flags: bytes[13],
            window: read_be16(bytes, 14),
            checksum: read_be16(bytes, 16),
            urgent: read_be16(bytes, 18),
        }
    }

    fn from_prefix(bytes: &[u8]) -> (r: Self)
        requires
            bytes@.len() >= TCP_HEADER_LEN,
        ensures
            r == Self::decode(bytes@),
    {
        TcpHeader {
            src_port: get_be16(bytes, 0),
            dst_port: get_be16(bytes, 2),
            seq: get_be32(bytes, 4),
            ack: get_be32(bytes, 8),
            offset: bytes[12],
            flags: bytes[13],
            window: get_be16(bytes, 14),
            checksum: get_be16(bytes, 16),
            urgent: get_be16(bytes, 18),
        }
    }
}

impl AsBytes for TcpHeader {
    open spec fn spec_bytes(&self) -> Seq<u8> {
        be16(self.src_port) + be16(self.dst_port) + be32(self.seq) + be32(self.ack) + seq![
            self.offset,
            self.flags,
        ] + be16(self.window) + be16(self.checksum) + be16(self.urgent)
    }

    fn as_bytes(&self) -> (r: Vec<u8>) {
        let mut out: Vec<u8> = Vec::with_capacity(TCP_HEADER_LEN);
        push_be16(&mut out, self.src_port);
        push_be16(&mut out, self.dst_port);
        push_be32(&mut out, self.seq);
        push_be32(&mut out, self.ack);
        out.push(self.offset);
        out.push(self.flags);
        push_be16(&mut out, self.window);
        push_be16(&mut out, self.checksum);
        push_be16(&mut out, self.urgent);
        assert(out@ =~= self.spec_bytes());
        out
    }
}

/// Every TCP header has 20 bytes.
pub proof fn lemma_tcp_header_len(h: TcpHeader)
    ensures
        h.spec_bytes().len() == TCP_HEADER_LEN,
{
}

/// Parsing the bytes of a TCP header gives that header back.
pub proof fn lemma_tcp_header_decode_encode(h: TcpHeader)
    ensures
        TcpHeader::decode(h.spec_bytes()) == h,
{
    let b = h.spec_bytes();
    lemma_be32_round_trip(h.seq);
    lemma_be32_round_trip(h.ack);
    assert(b.subrange(4, 8) =~= be32(h.seq));
    assert(b.subrange(8, 12) =~= be32(h.ack));
    assert(read_be32(b, 4) == read_be32(b.subrange(4, 8), 0));
    assert(read_be32(b, 8) == read_be32(b.subrange(8, 12), 0));
    assert(read_be16(b, 0) == h.src_port);
    assert(read_be16(b, 2) == h.dst_port);
    assert(read_be16(b, 14) == h.window);
    assert(read_be16(b, 16) == h.checksum);
    assert(read_be16(b, 18) == h.urgent);
}

/// The abstract content of a TCP segment.
pub struct TcpPacketView {
    pub header: TcpHeader,
    pub options: Seq<u8>,
    pub data: Seq<u8>,
}

impl TcpPacketView {
    /// The header's data offset counts exactly the header and the options.
    pub open spec fn well_formed(self) -> bool {
        spec_data_offset(self.header.offset) == TCP_HEADER_LEN + self.options.len()
    }

    /// The bytes of the segment: header, options, data.
    pub open spec fn spec_bytes(self) -> Seq<u8> {
        self.header.spec_bytes() + self.options + self.data
    }
}

/// A TCP segment: header, options and data.
#[derive(Debug, PartialEq, Eq)]
pub struct TcpPacket {
    pub header: TcpHeader,
    pub options: Vec<u8>,
    pub data: Vec<u8>,
}

impl View for TcpPacket {
    type V = TcpPacketView;

    open spec fn view(&self) -> TcpPacketView {
        TcpPacketView { header: self.header, options: self.options@, data: self.data@ }
    }
}

/// The options of a segment built with `flags`: the maximum segment size
/// option when `flags` is exactly SYN, none otherwise.
pub open spec fn spec_options(flags: u8) -> Seq<u8> {
    if flags == SYN {
        seq![OPT_MSS, OPT_MSS_LEN, (MSS / 256) as u8, (MSS % 256) as u8]
    } else {
        seq![]
    }
}

/// What parsing `bytes` as a TCP segment yields.
pub open spec fn spec_parse(bytes: Seq<u8>) -> Result<TcpPacketView, ParseError> {
    if bytes.len() < TCP_HEADER_LEN {
        Err(ParseError::LengthMismatch)
    } else {
        let header = TcpHeader::decode(bytes);
        let data_offset = spec_data_offset(header.offset);
        if data_offset < TCP_HEADER_LEN || data_offset > bytes.len() {
            Err(ParseError::DataOffsetOutOfRange)
        } else {
            Ok(
                TcpPacketView {
                    header,
                    options: bytes.subrange(TCP_HEADER_LEN as int, data_offset as int),
                    data: bytes.subrange(data_offset as int, bytes.len() as int),
                },
            )
        }
    }
}

impl TcpPacket {
    /// Builds a segment with `flags`, ports, sequence and acknowledgment
    /// numbers, and `data`; only a segment whose flags are exactly SYN
    /// carries the maximum segment size option.
    pub fn new(
        flags: u8,
        src_port: u16,
        dst_port: u16,
        seq: u32,
        ack: u32,
        data: Vec<u8>,
    ) -> (r: Self)
        ensures
            r@ == (TcpPacketView {
                header: TcpHeader {
                    src_port,
                    dst_port,
                    seq,
                    ack,
                    offset: spec_offset_byte(spec_options(flags).len()),
                    flags,
                    window: DEFAULT_WINDOW,
                    checksum: 0,
                    urgent: 0,
                },
                options: spec_options(flags),
                data: data@,
            }),
            r@.well_formed(),
    {
        let options = if flags == SYN {
            vec![OPT_MSS, OPT_MSS_LEN, (MSS / 256) as u8, (MSS % 256) as u8]
        } else {
            vec![]
        };
        let offset = (((TCP_HEADER_LEN + options.len()) / 4) * 16) as u8;
        let r = TcpPacket {
            header: TcpHeader {
                src_port,
                dst_port,
                seq,
                ack,
                offset,
                flags,
                window: DEFAULT_WINDOW,
                checksum: 0,
                urgent: 0,
            },
            options,
            data,
        };
        assert(r@.options =~= spec_options(flags));
        r
    }

    /// The bytes of the segment: header, options, data.
    pub fn to_bytes(&self) -> (r: Vec<u8>)
        ensures
            r@ == self@.spec_bytes(),
    {
        let mut out = self.header.as_bytes();
        push_all(&mut out, self.options.as_slice());
        push_all(&mut out, self.data.as_slice());
        out
    }

    /// Parses a segment: the 20-byte header, then options up to the data
    /// offset, then data. No checksum is validated.
    pub fn from_bytes(bytes: &[u8]) -> (r: Result<Self, ParseError>)
        ensures
            match r {
                Ok(p) => spec_parse(bytes@) == Ok::<TcpPacketView, ParseError>(p@),
                Err(e) => spec_parse(bytes@) == Err::<TcpPacketView, ParseError>(e),
            },
    {
        if bytes.len() < TCP_HEADER_LEN {
            return Err(ParseError::LengthMismatch);
        }
        let header = TcpHeader::from_prefix(bytes);
        let data_offset = (header.offset / 16) as usize * 4;
        if data_offset < TCP_HEADER_LEN || data_offset > bytes.len() {
            return Err(ParseError::DataOffsetOutOfRange);
        }
        let options = slice_to_vec(&bytes[TCP_HEADER_LEN..data_offset]);
        let data = slice_to_vec(&bytes[data_offset..bytes.len()]);
        Ok(TcpPacket { header, options, data })
    }
}

/// A well-formed segment parses back from its bytes.
pub proof fn lemma_tcp_parse_encode(p: TcpPacketView)
    requires
        p.well_formed(),
    ensures
        spec_parse(p.spec_bytes()) == Ok::<TcpPacketView, ParseError>(p),
{
    let b = p.spec_bytes();
    let hb = p.header.spec_bytes();
    lemma_tcp_header_decode_encode(p.header);
    assert(b.subrange(0, 20) =~= hb);
    assert(TcpHeader::decode(b) == TcpHeader::decode(hb)) by {
        assert(forall|i: int| 0 <= i < 20 ==> b[i] == hb[i]);
    }
    let n = TCP_HEADER_LEN + p.options.len();
    assert(b.subrange(TCP_HEADER_LEN as int, n as int) =~= p.options);
    assert(b.subrange(n as int, b.len() as int) =~= p.data);
}

/// A successfully parsed segment is well formed, and renders back to the
/// bytes it was parsed from.
pub proof fn lemma_tcp_encode_parse(bytes: Seq<u8>)
    requires
        spec_parse(bytes) is Ok,
    ensures
        spec_parse(bytes)->Ok_0.well_formed(),
        spec_parse(bytes)->Ok_0.spec_bytes() == bytes,
{
    let p = spec_parse(bytes)->Ok_0;
    let h = TcpHeader::decode(bytes);
    let hb = h.spec_bytes();
    assert(hb =~= bytes.subrange(0, 20)) by {
        lemma_read_be16_inverse(bytes, 0);
        lemma_read_be16_inverse(bytes, 2);
        lemma_read_be32_inverse(bytes, 4);
        lemma_read_be32_inverse(bytes, 8);
        lemma_read_be16_inverse(bytes, 14);
        lemma_read_be16_inverse(bytes, 16);
        lemma_read_be16_inverse(bytes, 18);
    }
    assert(p.spec_bytes() =~= bytes);
}

} // verus!
