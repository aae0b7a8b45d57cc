//! The internet checksum of a TCP segment over the IPv4 pseudo-header.
use crate::layout::{be16, checksum_field, CHECKSUM_OFFSET, HEADER_LEN};
use vstd::prelude::*;

verus! {

/// IP protocol number of TCP, summed in the pseudo-header.
pub const PROTOCOL_TCP: u8 = 6;

/// Index of the 16-bit word that holds the checksum, left out of the sum.
pub const CHECKSUM_WORD: usize = 8;

/// Longest segment whose length fits the pseudo-header's 16-bit field.
pub const MAX_SEGMENT_LEN: usize = 65535;

/// Sum of the first `n` big-endian 16-bit words of `s`, leaving out word `skip`.
pub open spec fn words_sum(s: Seq<u8>, skip: int, n: nat) -> int
    decreases n,
{
    if n == 0 {
        0
    } else {
        words_sum(s, skip, (n - 1) as nat) + if n - 1 == skip {
            0
        } else {
            be16(s, 2 * (n - 1))
        }
    }
}

/// Sum of the big-endian words of `s` but word `skip`; a trailing odd byte
/// counts as the high byte of a last word.
pub open spec fn data_sum(s: Seq<u8>, skip: int) -> int {
    words_sum(s, skip, (s.len() / 2) as nat) + if s.len() % 2 == 1 && s.len() / 2 != skip {
        s[s.len() - 1] as int * 256
    } else {
        0
    }
}

/// Sum of the two 16-bit halves of an IPv4 address.
pub open spec fn addr_sum(a: Seq<u8>) -> int {
    be16(a, 0) + be16(a, 2)
}

/// One end-around-carry step: the high half added to the low 16 bits.
pub open spec fn fold16(x: int) -> int {
    x / 65536 + x % 65536
}

/// The one's-complement 16-bit sum of `x`; two carry steps suffice below 2^32.
pub open spec fn ones_sum(x: int) -> int {
    fold16(fold16(x))
}

/// The checksum of `data` (word `skip` left out) over a pseudo-header of
/// `source`, `destination`, `protocol` and the length of `data`.
pub open spec fn ipv4_checksum_of(data: Seq<u8>, skip: int, source: Seq<u8>, destination: Seq<u8>, protocol: u8) -> int {
    65535 - ones_sum(addr_sum(source) + addr_sum(destination) + protocol as int + data.len() + data_sum(data, skip))
}

/// The checksum of a whole TCP segment between `local` and `remote`.
pub open spec fn tcp_checksum(seg: Seq<u8>, local: Seq<u8>, remote: Seq<u8>) -> int {
    ipv4_checksum_of(seg, CHECKSUM_WORD as int, local, remote, PROTOCOL_TCP)
}

/// Relies on pnet::util::ipv4_checksum: the complement of the one's-complement
/// sum of the pseudo-header words (addresses, protocol, length) and the
/// big-endian words of `data` but word `skipword`. It adds in a `u32`, so
/// `data` is kept short enough for the sum not to overflow.
#[verifier::external_body]
pub(crate) fn ipv4_checksum(data: &[u8], skipword: usize, source: [u8; 4], destination: [u8; 4], protocol: u8) -> (r: u16)
    requires
        data@.len() <= MAX_SEGMENT_LEN,
    ensures
        r == ipv4_checksum_of(data@, skipword as int, source@, destination@, protocol),
{
    pnet::util::ipv4_checksum(
        data,
        skipword,
        &[],
        &source.into(),
        &destination.into(),
        pnet::packet::ip::IpNextHeaderProtocol(protocol),
    )
}

/// How much a change of the byte at index `i` weighs in the word sum.
pub open spec fn byte_weight(i: int) -> int {
    if i % 2 == 0 {
        256
    } else {
        1
    }
}

proof fn lemma_words_sum_bounds(s: Seq<u8>, skip: int, n: nat)
    requires
        2 * n <= s.len(),
    ensures
        0 <= words_sum(s, skip, n) <= n * 65535,
    decreases n,
{
    if n > 0 {
        lemma_words_sum_bounds(s, skip, (n - 1) as nat);
    }
}

proof fn lemma_words_sum_update(s: Seq<u8>, skip: int, n: nat, i: int, x: u8)
    requires
        2 * n <= s.len(),
        0 <= i < s.len(),
    ensures
        words_sum(s.update(i, x), skip, n) == words_sum(s, skip, n) + if i / 2 < n && i / 2 != skip {
            (x - s[i]) * byte_weight(i)
        } else {
            0
        },
    decreases n,
{
    if n > 0 {
        lemma_words_sum_update(s, skip, (n - 1) as nat, i, x);
    }
}

proof fn lemma_data_sum_update(s: Seq<u8>, skip: int, i: int, x: u8)
    requires
        0 <= skip,
        0 <= i < s.len(),
    ensures
        data_sum(s.update(i, x), skip) == data_sum(s, skip) + if i / 2 != skip {
            (x - s[i]) * byte_weight(i)
        } else {
            0
        },
{
    lemma_words_sum_update(s, skip, (s.len() / 2) as nat, i, x);
}

proof fn lemma_data_sum_bounds(s: Seq<u8>, skip: int)
    requires
        s.len() <= MAX_SEGMENT_LEN,
    ensures
        0 <= data_sum(s, skip) <= 32768 * 65535,
{
    let n = (s.len() / 2) as nat;
    lemma_words_sum_bounds(s, skip, n);
    assert(n * 65535 <= 32767 * 65535) by (nonlinear_arith)
        requires
            n <= 32767,
    ;
}

proof fn lemma_fold16(x: int)
    requires
        0 <= x,
    ensures
        x - fold16(x) == 65535 * (x / 65536),
        0 <= fold16(x),
        x > 0 ==> fold16(x) > 0,
        x < 0x1_0000_0000 ==> fold16(x) <= 131070,
        x <= 131070 ==> fold16(x) <= 65535,
{
}

/// Below 2^32, two positive sums have the same one's-complement sum exactly
/// when they differ by a multiple of 65535.
proof fn lemma_ones_sum_eq(t: int, u: int)
    requires
        0 < t < 0x1_0000_0000,
        0 < u < 0x1_0000_0000,
    ensures
        (ones_sum(t) == ones_sum(u)) <==> (t - u) % 65535 == 0,
        1 <= ones_sum(t) <= 65535,
{
    lemma_fold16(t);
    lemma_fold16(fold16(t));
    lemma_fold16(u);
    lemma_fold16(fold16(u));
    let k = t / 65536 + fold16(t) / 65536 - u / 65536 - fold16(u) / 65536;
    let a = ones_sum(t);
    let b = ones_sum(u);
    assert(t - u == 65535 * k + (a - b));
    if (t - u) % 65535 == 0 {
        assert((a - b) % 65535 == 0) by (nonlinear_arith)
            requires
                t - u == 65535 * k + (a - b),
                (t - u) % 65535 == 0,
        ;
        assert(a == b) by (nonlinear_arith)
            requires
                (a - b) % 65535 == 0,
                1 <= a <= 65535,
                1 <= b <= 65535,
        ;
    }
    if a == b {
        assert((t - u) % 65535 == 0) by (nonlinear_arith)
            requires
                t - u == 65535 * k,
        ;
    }
}

/// The pseudo-header sum behind `tcp_checksum`.
pub open spec fn tcp_sum(seg: Seq<u8>, local: Seq<u8>, remote: Seq<u8>) -> int {
    addr_sum(local) + addr_sum(remote) + PROTOCOL_TCP as int + seg.len() + data_sum(seg, CHECKSUM_WORD as int)
}

proof fn lemma_tcp_sum_bounds(seg: Seq<u8>, local: Seq<u8>, remote: Seq<u8>)
    requires
        seg.len() <= MAX_SEGMENT_LEN,
        local.len() == 4,
        remote.len() == 4,
    ensures
        0 < tcp_sum(seg, local, remote) < 0x1_0000_0000,
        tcp_checksum(seg, local, remote) == 65535 - ones_sum(tcp_sum(seg, local, remote)),
{
    lemma_data_sum_bounds(seg, CHECKSUM_WORD as int);
}

/// Once a segment carries its correct checksum, changing any one of its
/// bytes, in the header or the payload, makes the checksum wrong.
pub proof fn checksum_detects_byte_change(seg: Seq<u8>, local: Seq<u8>, remote: Seq<u8>, i: int, x: u8)
    requires
        HEADER_LEN <= seg.len() <= MAX_SEGMENT_LEN,
        local.len() == 4,
        remote.len() == 4,
        checksum_field(seg) == tcp_checksum(seg, local, remote),
        0 <= i < seg.len(),
        x != seg[i],
    ensures
        checksum_field(seg.update(i, x)) != tcp_checksum(seg.update(i, x), local, remote),
{
    let changed = seg.update(i, x);
    lemma_data_sum_update(seg, CHECKSUM_WORD as int, i, x);
    lemma_tcp_sum_bounds(seg, local, remote);
    lemma_tcp_sum_bounds(changed, local, remote);
    if i / 2 == CHECKSUM_WORD as int {
        assert(i == CHECKSUM_OFFSET || i == CHECKSUM_OFFSET + 1);
        assert(checksum_field(changed) != checksum_field(seg));
    } else {
        let d = (x - seg[i]) * byte_weight(i);
        assert(tcp_sum(changed, local, remote) - tcp_sum(seg, local, remote) == d);
        assert(d % 65535 != 0) by (nonlinear_arith)
            requires
                d == (x - seg[i]) * byte_weight(i),
                byte_weight(i) == 1 || byte_weight(i) == 256,
                x != seg[i],
                0 <= x <= 255,
                0 <= seg[i] <= 255,
        ;
        lemma_ones_sum_eq(tcp_sum(changed, local, remote), tcp_sum(seg, local, remote));
        assert(checksum_field(changed) == checksum_field(seg));
    }
}

/// A segment whose checksum is right between `local` and `remote` also
/// checks against `other` exactly when the two addresses' 16-bit halves sum
/// to the same value modulo 65535; so against most other addresses it fails.
pub proof fn checksum_binds_remote(seg: Seq<u8>, local: Seq<u8>, remote: Seq<u8>, other: Seq<u8>)
    requires
        HEADER_LEN <= seg.len() <= MAX_SEGMENT_LEN,
        local.len() == 4,
        remote.len() == 4,
        other.len() == 4,
        checksum_field(seg) == tcp_checksum(seg, local, remote),
    ensures
        (checksum_field(seg) == tcp_checksum(seg, local, other)) <==> (addr_sum(other) - addr_sum(remote)) % 65535 == 0,
{
    lemma_tcp_sum_bounds(seg, local, remote);
    lemma_tcp_sum_bounds(seg, local, other);
    lemma_ones_sum_eq(tcp_sum(seg, local, other), tcp_sum(seg, local, remote));
}

} // verus!
