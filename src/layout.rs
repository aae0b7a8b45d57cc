//! Where each header field sits in a segment, as spec functions over its bytes.
use vstd::prelude::*;

verus! {

/// Length of the fixed header; the payload starts here.
pub const HEADER_LEN: usize = 20;

pub const SRC_PORT_OFFSET: usize = 0;

pub const DEST_PORT_OFFSET: usize = 2;

pub const SEQ_OFFSET: usize = 4;

pub const ACK_OFFSET: usize = 8;

/// Byte whose high nibble is the data offset; its low nibble is reserved.
pub const DATA_OFFSET_OFFSET: usize = 12;

pub const FLAGS_OFFSET: usize = 13;

pub const WINDOW_OFFSET: usize = 14;

pub const CHECKSUM_OFFSET: usize = 16;

/// The big-endian 16-bit value of the two bytes at `off`.
pub open spec fn be16(s: Seq<u8>, off: int) -> int {
    s[off] as int * 256 + s[off + 1] as int
}

/// The big-endian 32-bit value of the four bytes at `off`.
pub open spec fn be32(s: Seq<u8>, off: int) -> int {
    be16(s, off) * 65536 + be16(s, off + 2)
}

/// `s` with `v` written big-endian into the two bytes at `off`.
pub open spec fn put16(s: Seq<u8>, off: int, v: u16) -> Seq<u8> {
    s.update(off, (v / 256) as u8).update(off + 1, (v % 256) as u8)
}

/// `s` with `v` written big-endian into the four bytes at `off`.
pub open spec fn put32(s: Seq<u8>, off: int, v: u32) -> Seq<u8> {
    put16(put16(s, off, (v / 65536) as u16), off + 2, (v % 65536) as u16)
}

pub open spec fn src_port(s: Seq<u8>) -> int {
    be16(s, SRC_PORT_OFFSET as int)
}

pub open spec fn dest_port(s: Seq<u8>) -> int {
    be16(s, DEST_PORT_OFFSET as int)
}

pub open spec fn seq_number(s: Seq<u8>) -> int {
    be32(s, SEQ_OFFSET as int)
}

pub open spec fn ack_number(s: Seq<u8>) -> int {
    be32(s, ACK_OFFSET as int)
}

/// The header length in 32-bit words: the high nibble of its byte.
pub open spec fn data_offset(s: Seq<u8>) -> u8 {
    s[DATA_OFFSET_OFFSET as int] >> 4
}

pub open spec fn flags(s: Seq<u8>) -> u8 {
    s[FLAGS_OFFSET as int]
}

pub open spec fn window_size(s: Seq<u8>) -> int {
    be16(s, WINDOW_OFFSET as int)
}

pub open spec fn checksum_field(s: Seq<u8>) -> int {
    be16(s, CHECKSUM_OFFSET as int)
}

pub open spec fn payload_of(s: Seq<u8>) -> Seq<u8> {
    s.subrange(HEADER_LEN as int, s.len() as int)
}

/// `s` after the data offset `offset` is merged into its byte: the shifted
/// value is OR-ed in, so bits set earlier stay set.
pub open spec fn with_data_offset(s: Seq<u8>, offset: u8) -> Seq<u8> {
    s.update(DATA_OFFSET_OFFSET as int, s[DATA_OFFSET_OFFSET as int] | (offset << 4u8))
}

/// `s` with the flags byte replaced by `flag`.
pub open spec fn with_flags(s: Seq<u8>, flag: u8) -> Seq<u8> {
    s.update(FLAGS_OFFSET as int, flag)
}

proof fn lemma_be16_put16(s: Seq<u8>, off: int, v: u16)
    requires
        0 <= off,
        off + 2 <= s.len(),
    ensures
        be16(put16(s, off, v), off) == v,
        put16(s, off, v).len() == s.len(),
{
}

proof fn lemma_be32_put32(s: Seq<u8>, off: int, v: u32)
    requires
        0 <= off,
        off + 4 <= s.len(),
    ensures
        be32(put32(s, off, v), off) == v,
        put32(s, off, v).len() == s.len(),
{
    let hi = (v / 65536) as u16;
    let lo = (v % 65536) as u16;
    let t = put16(s, off, hi);
    lemma_be16_put16(s, off, hi);
    lemma_be16_put16(t, off + 2, lo);
    assert(be16(put16(t, off + 2, lo), off) == be16(t, off));
}

/// Writing a field and reading it back gives the value written, whatever
/// the segment held before, for every field of the header.
pub proof fn field_round_trip(s: Seq<u8>, port: u16, number: u32, flag: u8, size: u16, sum: u16)
    requires
        s.len() >= HEADER_LEN,
    ensures
        src_port(put16(s, SRC_PORT_OFFSET as int, port)) == port,
        dest_port(put16(s, DEST_PORT_OFFSET as int, port)) == port,
        seq_number(put32(s, SEQ_OFFSET as int, number)) == number,
        ack_number(put32(s, ACK_OFFSET as int, number)) == number,
        flags(with_flags(s, flag)) == flag,
        window_size(put16(s, WINDOW_OFFSET as int, size)) == size,
        checksum_field(put16(s, CHECKSUM_OFFSET as int, sum)) == sum,
{
    lemma_be16_put16(s, SRC_PORT_OFFSET as int, port);
    lemma_be16_put16(s, DEST_PORT_OFFSET as int, port);
    lemma_be32_put32(s, SEQ_OFFSET as int, number);
    lemma_be32_put32(s, ACK_OFFSET as int, number);
    lemma_be16_put16(s, WINDOW_OFFSET as int, size);
    lemma_be16_put16(s, CHECKSUM_OFFSET as int, sum);
}

/// Setting the data offset twice leaves in the high nibble the nibble that
/// was there, OR-ed with both values' low four bits: the second value does
/// not replace the first.
pub proof fn data_offset_accumulates(s: Seq<u8>, a: u8, b: u8)
    requires
        s.len() >= HEADER_LEN,
    ensures
        data_offset(with_data_offset(with_data_offset(s, a), b)) == data_offset(s) | ((a | b) & 15u8),
{
    let x = s[DATA_OFFSET_OFFSET as int];
    assert((((x | (a << 4u8)) | (b << 4u8)) >> 4u8) == (x >> 4u8) | ((a | b) & 15u8)) by (bit_vector);
}

} // verus!
