//! One's-complement checksums: the IPv4 header checksum, computed here, and
//! the TCP and UDP pseudo-header checksums, computed by pnet.
use vstd::prelude::*;
use vstd::arithmetic::div_mod::{lemma_fundamental_div_mod, lemma_mod_multiples_vanish};
use crate::bytes::{be16, put_be16};

verus! {

/// Length in bytes of the fixed IPv4 header that the header checksum covers.
pub const IPV4_HEADER_LEN: usize = 20;

/// Byte offset of the checksum field inside the IPv4 header.
pub const IPV4_CHECKSUM_OFFSET: usize = 10;

/// Why a checksum could not be computed.
#[derive(Debug, Clone, Copy, PartialEq, Eq, Structural)]
pub enum ChecksumError {
    /// Fewer than the twenty bytes of a fixed IPv4 header were supplied.
    HeaderTooShort,
}

/// Sum of the first `n` big-endian 16-bit words of `h`.
pub open spec fn word_sum(h: Seq<u8>, n: nat) -> nat
    decreases n,
{
    if n == 0 {
        0
    } else {
        word_sum(h, (n - 1) as nat) + be16(h, 2 * (n - 1))
    }
}

/// Adds the carries above bit 15 back into the low 16 bits until none remain.
pub open spec fn fold_carries(x: nat) -> nat
    decreases x via fold_carries_decreases
{
    if x < 0x10000 {
        x
    } else {
        fold_carries(x % 0x10000 + x / 0x10000)
    }
}

#[via_fn]
proof fn fold_carries_decreases(x: nat) {
    if x >= 0x10000 {
        lemma_fold_step(x);
    }
}

/// The IPv4 header checksum of the first twenty bytes of `h`: the one's
/// complement of the carry-folded sum of its ten 16-bit words.
pub open spec fn header_checksum(h: Seq<u8>) -> u16 {
    (0xFFFF - fold_carries(word_sum(h, 10))) as u16
}

/// `h` with its checksum field cleared, as it is before a checksum is computed.
pub open spec fn clear_header_checksum(h: Seq<u8>) -> Seq<u8> {
    put_be16(h, IPV4_CHECKSUM_OFFSET as int, 0)
}

proof fn lemma_fold_step(x: nat)
    requires
        x >= 0x10000,
    ensures
        x % 0x10000 + x / 0x10000 < x,
        (x % 0x10000 + x / 0x10000) % 0xFFFF == x % 0xFFFF,
        x % 0x10000 + x / 0x10000 > 0,
{
    let q = x / 0x10000;
    let r = x % 0x10000;
    lemma_fundamental_div_mod(x as int, 0x10000);
    assert(q >= 1);
    assert(x == 0xFFFF * q + (q + r));
    lemma_mod_multiples_vanish(q as int, (q + r) as int, 0xFFFF);
}

/// What carry folding keeps: the value fits in 16 bits, is congruent to its
/// input modulo 0xFFFF, and is zero only for a zero input.
proof fn lemma_fold_carries(x: nat)
    ensures
        fold_carries(x) < 0x10000,
        fold_carries(x) % 0xFFFF == x % 0xFFFF,
        x > 0 ==> fold_carries(x) > 0,
    decreases x,
{
    if x >= 0x10000 {
        lemma_fold_step(x);
        lemma_fold_carries(x % 0x10000 + x / 0x10000);
    }
}

/// Computes the IPv4 header checksum over the first twenty bytes of `header`.
pub fn calculate_ipv4_checksum(header: &[u8]) -> (r: Result<u16, ChecksumError>)
    ensures
        header@.len() < IPV4_HEADER_LEN ==> r == Err::<u16, ChecksumError>(
            ChecksumError::HeaderTooShort,
        ),
        header@.len() >= IPV4_HEADER_LEN ==> r == Ok::<u16, ChecksumError>(
            header_checksum(header@),
        ),
{
    if header.len() < IPV4_HEADER_LEN {
        return Err(ChecksumError::HeaderTooShort);
    }
    let mut sum: u32 = 0;
    let mut i: usize = 0;
    while i < 10
        invariant
            i <= 10,
            header@.len() >= IPV4_HEADER_LEN,
            sum as nat == word_sum(header@, i as nat),
            sum <= i * 0xFFFF,
        decreases 10 - i,
    {
        let word = crate::bytes::read_be16(header, 2 * i);
        sum = sum + word as u32;
        i = i + 1;
    }
    let ghost total = sum as nat;
    while (sum >> 16) > 0
        invariant
            fold_carries(sum as nat) == fold_carries(total),
        decreases sum,
    {
        let s = sum;
        assert(s >> 16 == s / 0x10000 && s & 0xFFFF == s % 0x10000 && (s >> 16 > 0 <==> s
            >= 0x10000)) by (bit_vector);
        proof {
            lemma_fold_step(s as nat);
        }
        sum = (sum & 0xFFFF) + (sum >> 16);
    }
    let s = sum;
    assert(s >> 16 == 0 ==> s < 0x10000) by (bit_vector);
    let folded = sum as u16;
    assert(!folded == 0xFFFF - folded) by (bit_vector);
    Ok(!folded)
}

proof fn lemma_word_sum_put(h: Seq<u8>, k: nat, v: u16, n: nat)
    requires
        2 * k + 2 <= h.len(),
        2 * n <= h.len(),
    ensures
        word_sum(put_be16(h, 2 * k as int, v), n) == word_sum(put_be16(h, 2 * k as int, 0), n) + if k < n {
            v as nat
        } else {
            0
        },
    decreases n,
{
    if n > 0 {
        lemma_word_sum_put(h, k, v, (n - 1) as nat);
    }
}

/// Zero-then-recompute is self-validating: once the checksum of a header with
/// a cleared checksum field is written into that field, the checksum computed
/// over the resulting header is zero.
pub proof fn lemma_header_checksum_validates(h: Seq<u8>)
    requires
        h.len() >= IPV4_HEADER_LEN,
    ensures
        header_checksum(
            put_be16(h, IPV4_CHECKSUM_OFFSET as int, header_checksum(clear_header_checksum(h))),
        ) == 0,
{
    let z = clear_header_checksum(h);
    let s0 = word_sum(z, 10);
    let c = header_checksum(z);
    lemma_fold_carries(s0);
    assert(put_be16(z, 10, 0) =~= z);
    lemma_word_sum_put(h, 5, c, 10);
    assert(put_be16(h, 10, c) =~= put_be16(h, 10, c));
    let s1 = word_sum(put_be16(h, 10, c), 10);
    assert(s1 == s0 + c);
    lemma_fold_carries(s1);
    let f = fold_carries(s0);
    assert(c == 0xFFFF - f);
    assert(s1 % 0xFFFF == 0) by {
        lemma_fundamental_div_mod(s0 as int, 0xFFFF);
        lemma_mod_multiples_vanish((s0 / 0xFFFF) as int, (s0 % 0xFFFF + c) as int, 0xFFFF);
    }
    assert(s1 > 0);
}

/// Offset of the checksum field inside a TCP header.
pub const TCP_CHECKSUM_OFFSET: usize = 16;

/// Offset of the checksum field inside a UDP header.
pub const UDP_CHECKSUM_OFFSET: usize = 6;

/// The TCP checksum of `segment` under the IPv4 pseudo-header of `src` and
/// `dst`, as pnet computes it.
pub uninterp spec fn tcp_checksum_of(segment: Seq<u8>, src: Seq<u8>, dst: Seq<u8>) -> u16;

/// The UDP checksum of `datagram` under the IPv4 pseudo-header of `src` and
/// `dst`, as pnet computes it.
pub uninterp spec fn udp_checksum_of(datagram: Seq<u8>, src: Seq<u8>, dst: Seq<u8>) -> u16;

/// Relies on pnet::packet::tcp::ipv4_checksum: it sums the pseudo-header and
/// the segment, skipping the checksum word, so the result does not depend on
/// the two bytes of that field. Segments of at most 65535 bytes keep its
/// 32-bit sum from overflowing.
#[verifier::external_body]
pub(crate) fn tcp_checksum(segment: &[u8], src: [u8; 4], dst: [u8; 4]) -> (r: u16)
    requires
        20 <= segment@.len() <= 65535,
    ensures
        r == tcp_checksum_of(put_be16(segment@, TCP_CHECKSUM_OFFSET as int, 0), src@, dst@),
{
    match pnet::packet::tcp::TcpPacket::new(segment) {
        Some(p) => pnet::packet::tcp::ipv4_checksum(&p, &src.into(), &dst.into()),
        None => 0,
    }
}

/// Relies on pnet::packet::udp::ipv4_checksum: it sums the pseudo-header and
/// the datagram, skipping the checksum word, so the result does not depend on
/// the two bytes of that field. Datagrams of at most 65535 bytes keep its
/// 32-bit sum from overflowing.
#[verifier::external_body]
pub(crate) fn udp_checksum(datagram: &[u8], src: [u8; 4], dst: [u8; 4]) -> (r: u16)
    requires
        8 <= datagram@.len() <= 65535,
    ensures
        r == udp_checksum_of(put_be16(datagram@, UDP_CHECKSUM_OFFSET as int, 0), src@, dst@),
{
    match pnet::packet::udp::UdpPacket::new(datagram) {
        Some(p) => pnet::packet::udp::ipv4_checksum(&p, &src.into(), &dst.into()),
        None => 0,
    }
}

} // verus!
