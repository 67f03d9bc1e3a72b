//! Big-endian byte layout of the integer fields of a header.

use vstd::arithmetic::div_mod::lemma_fundamental_div_mod_converse;
use vstd::prelude::*;

verus! {

/// Why a buffer could not be parsed as a header.
#[derive(Clone, Copy, Debug, PartialEq, Eq)]
pub enum ParseError {
    /// The buffer's length is not the one the header type has.
    LengthMismatch,
    /// The header's data offset points before its own end or past the buffer.
    DataOffsetOutOfRange,
}

/// The high byte of `v`.
pub open spec fn hi_byte(v: u16) -> u8 {
    (v / 256) as u8
}

/// The low byte of `v`.
pub open spec fn lo_byte(v: u16) -> u8 {
    (v % 256) as u8
}

/// The two bytes of `v` in network order.
pub open spec fn be16(v: u16) -> Seq<u8> {
    seq![hi_byte(v), lo_byte(v)]
}

/// The four bytes of `v` in network order.
pub open spec fn be32(v: u32) -> Seq<u8> {
    seq![(v / 0x100_0000) as u8, ((v / 0x1_0000) % 256) as u8, ((v / 256) % 256) as u8, (v % 256) as u8]
}

/// The 16-bit integer stored big-endian at `offset` in `bytes`.
pub open spec fn read_be16(bytes: Seq<u8>, offset: int) -> u16 {
    (bytes[offset] as int * 256 + bytes[offset + 1] as int) as u16
}

/// The 32-bit integer stored big-endian at `offset` in `bytes`.
pub open spec fn read_be32(bytes: Seq<u8>, offset: int) -> u32 {
    (bytes[offset] as int * 0x100_0000 + bytes[offset + 1] as int * 0x1_0000
        + bytes[offset + 2] as int * 256 + bytes[offset + 3] as int) as u32
}

/// `bytes` with the two bytes at `offset` replaced by `v` in network order.
pub open spec fn put_be16(bytes: Seq<u8>, offset: int, v: u16) -> Seq<u8> {
    bytes.update(offset, hi_byte(v)).update(offset + 1, lo_byte(v))
}

/// Reading back what `be32` wrote gives the value.
pub proof fn lemma_be32_round_trip(v: u32)
    ensures
        read_be32(be32(v), 0) == v,
{
    let b = be32(v);
    assert(b[0] as int * 0x100_0000 + b[1] as int * 0x1_0000 + b[2] as int * 256 + b[3] as int
        == v);
}

/// Writing back what `read_be16` read gives the bytes.
pub proof fn lemma_read_be16_inverse(bytes: Seq<u8>, offset: int)
    requires
        0 <= offset,
        offset + 2 <= bytes.len(),
    ensures
        be16(read_be16(bytes, offset)) == bytes.subrange(offset, offset + 2),
{
    let v = read_be16(bytes, offset);
    assert(be16(v) =~= bytes.subrange(offset, offset + 2));
}

/// Writing back what `read_be32` read gives the bytes.
pub proof fn lemma_read_be32_inverse(bytes: Seq<u8>, offset: int)
    requires
        0 <= offset,
        offset + 4 <= bytes.len(),
    ensures
        be32(read_be32(bytes, offset)) == bytes.subrange(offset, offset + 4),
{
    let v = read_be32(bytes, offset);
    let (b0, b1, b2, b3) = (
        bytes[offset] as int,
        bytes[offset + 1] as int,
        bytes[offset + 2] as int,
        bytes[offset + 3] as int,
    );
    lemma_fundamental_div_mod_converse(v as int, 0x100_0000, b0, b1 * 0x1_0000 + b2 * 256 + b3);
    lemma_fundamental_div_mod_converse(v as int, 0x1_0000, b0 * 256 + b1, b2 * 256 + b3);
    lemma_fundamental_div_mod_converse(b0 * 256 + b1, 256, b0, b1);
    lemma_fundamental_div_mod_converse(v as int, 256, b0 * 0x1_0000 + b1 * 256 + b2, b3);
    lemma_fundamental_div_mod_converse(b0 * 0x1_0000 + b1 * 256 + b2, 256, b0 * 256 + b1, b2);
    assert(be32(v) =~= bytes.subrange(offset, offset + 4));
}

/// Appends `v` to `out` in network order.
pub fn push_be16(out: &mut Vec<u8>, v: u16)
    ensures
        final(out)@ == old(out)@ + be16(v),
{
    out.push((v / 256) as u8);
    out.push((v % 256) as u8);
    assert(final(out)@ =~= old(out)@ + be16(v));
}

/// Appends `v` to `out` in network order.
pub fn push_be32(out: &mut Vec<u8>, v: u32)
    ensures
        final(out)@ == old(out)@ + be32(v),
{
    out.push((v / 0x100_0000) as u8);
    out.push(((v / 0x1_0000) % 256) as u8);
    out.push(((v / 256) % 256) as u8);
    out.push((v % 256) as u8);
    assert(final(out)@ =~= old(out)@ + be32(v));
}

/// Appends every byte of `bytes` to `out`, in order.
pub fn push_all(out: &mut Vec<u8>, bytes: &[u8])
    ensures
        final(out)@ == old(out)@ + bytes@,
{
    let ghost start = out@;
    let mut i: usize = 0;
    while i < bytes.len()
        invariant
            i <= bytes.len(),
            out@ == start + bytes@.subrange(0, i as int),
        decreases bytes.len() - i,
    {
        out.push(bytes[i]);
        i = i + 1;
        assert(out@ =~= start + bytes@.subrange(0, i as int));
    }
    assert(bytes@.subrange(0, i as int) =~= bytes@);
}

/// The 16-bit integer stored big-endian at `offset` in `bytes`.
pub fn get_be16(bytes: &[u8], offset: usize) -> (r: u16)
    requires
        offset + 2 <= bytes@.len(),
    ensures
        r == read_be16(bytes@, offset as int),
{
    bytes[offset] as u16 * 256 + bytes[offset + 1] as u16
}

/// The 32-bit integer stored big-endian at `offset` in `bytes`.
pub fn get_be32(bytes: &[u8], offset: usize) -> (r: u32)
    requires
        offset + 4 <= bytes@.len(),
    ensures
        r == read_be32(bytes@, offset as int),
{
    bytes[offset] as u32 * 0x100_0000 + bytes[offset + 1] as u32 * 0x1_0000
        + bytes[offset + 2] as u32 * 256 + bytes[offset + 3] as u32
}

} // verus!
