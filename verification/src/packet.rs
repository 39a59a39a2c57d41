//! IP packet inspection and destination rewriting.
//!
//! A packet is a byte buffer holding an IPv4 or IPv6 packet. The rewriter
//! overwrites the destination address and recomputes the IPv4 header
//! checksum and, for TCP and UDP, the transport checksum over the
//! pseudo-header and the transport segment. A malformed buffer is left
//! untouched: rewriting never fails and never panics.

use vstd::prelude::*;
use vstd::pervasive::VecAdditionalExecFns;
use crate::ip::IpAddr;

verus! {

pub const TCP_PROTOCOL: u8 = 6;

pub const UDP_PROTOCOL: u8 = 17;

// ---------------------------------------------------------------------------
// Byte-level helpers
// ---------------------------------------------------------------------------

/// The 16-bit big-endian word at offset `i`.
pub open spec fn wrd(b: Seq<u8>, i: int) -> int {
    (b[i] as int) * 256 + (b[i + 1] as int)
}

/// The 32-bit big-endian value at offset `off`.
pub open spec fn be32_at(b: Seq<u8>, off: int) -> u32 {
    ((b[off] as int) * 0x1000000 + (b[off + 1] as int) * 0x10000 + (b[off + 2] as int) * 0x100 + (
    b[off + 3] as int)) as u32
}

/// The 128-bit big-endian value at offset `off`.
pub open spec fn be128_at(b: Seq<u8>, off: int) -> u128 {
    ((be32_at(b, off) as int) * 0x1000000000000000000000000 + (be32_at(b, off + 4) as int)
        * 0x10000000000000000 + (be32_at(b, off + 8) as int) * 0x100000000 + (be32_at(
    b,
    off + 12,
    ) as int)) as u128
}

/// `b` with `vals` written at offset `off`; all other bytes kept.
pub open spec fn splice(b: Seq<u8>, off: int, vals: Seq<u8>) -> Seq<u8> {
    Seq::new(b.len(), |i: int| if off <= i < off + vals.len() { vals[i - off] } else { b[i] })
}

pub open spec fn u16_be_bytes(v: u16) -> Seq<u8> {
    seq![(v >> 8) as u8, v as u8]
}

pub open spec fn u32_be_bytes(v: u32) -> Seq<u8> {
    seq![(v >> 24) as u8, (v >> 16) as u8, (v >> 8) as u8, v as u8]
}

pub open spec fn u128_be_bytes(v: u128) -> Seq<u8> {
    u32_be_bytes((v >> 96) as u32) + u32_be_bytes((v >> 64) as u32) + u32_be_bytes(
        (v >> 32) as u32,
    ) + u32_be_bytes(v as u32)
}

// ---------------------------------------------------------------------------
// Header shape
// ---------------------------------------------------------------------------

pub open spec fn ip_version(b: Seq<u8>) -> int {
    (b[0] >> 4) as int
}

pub open spec fn v4_ihl(b: Seq<u8>) -> int {
    ((b[0] & 0xF) as int) * 4
}

/// A well-formed IPv4 header: version 4, full header present in the buffer.
pub open spec fn v4_wf(b: Seq<u8>) -> bool {
    &&& b.len() >= 20
    &&& ip_version(b) == 4
    &&& v4_ihl(b) >= 20
    &&& v4_ihl(b) <= b.len()
}

/// A well-formed IPv6 fixed header: version 6, 40 bytes present.
pub open spec fn v6_wf(b: Seq<u8>) -> bool {
    &&& b.len() >= 40
    &&& ip_version(b) == 6
}

/// The packet's destination address, when the buffer parses as IPv4 or IPv6.
pub open spec fn spec_packet_dst(b: Seq<u8>) -> Option<IpAddr> {
    if v4_wf(b) {
        Some(IpAddr::V4(be32_at(b, 16)))
    } else if v6_wf(b) {
        Some(IpAddr::V6(be128_at(b, 24)))
    } else {
        None
    }
}

/// Reads the destination address out of the buffer, `None` on a malformed
/// packet.
pub fn packet_dst(b: &Vec<u8>) -> (r: Option<IpAddr>)
    ensures
        r == spec_packet_dst(b@),
{
    if b.len() >= 20 && (b[0] >> 4) == 4 && (b[0] & 0xF) >= 5 && ((b[0] & 0xF) as usize) * 4
        <= b.len() {
        let v: u32 = (b[16] as u32) * 0x1000000 + (b[17] as u32) * 0x10000 + (b[18] as u32) * 0x100
            + (b[19] as u32);
        Some(IpAddr::V4(v))
    } else if b.len() >= 40 && (b[0] >> 4) == 6 {
        assert(!v4_wf(b@));
        Some(IpAddr::V6(be128_read(b, 24)))
    } else {
        assert(!v4_wf(b@) && !v6_wf(b@));
        None
    }
}

fn be32_read(b: &Vec<u8>, off: usize) -> (r: u32)
    requires
        off + 4 <= b@.len(),
        off <= 0x10000,
    ensures
        r == be32_at(b@, off as int),
{
    (b[off] as u32) * 0x1000000 + (b[off + 1] as u32) * 0x10000 + (b[off + 2] as u32) * 0x100 + (
    b[off + 3] as u32)
}

fn be128_read(b: &Vec<u8>, off: usize) -> (r: u128)
    requires
        off + 16 <= b@.len(),
        off <= 0xFFF0,
    ensures
        r == be128_at(b@, off as int),
{
    (be32_read(b, off) as u128) * 0x1000000000000000000000000 + (be32_read(b, off + 4) as u128)
        * 0x10000000000000000 + (be32_read(b, off + 8) as u128) * 0x100000000 + (be32_read(
        b,
        off + 12,
    ) as u128)
}

// ---------------------------------------------------------------------------
// Ones'-complement checksum
// ---------------------------------------------------------------------------

/// Sum of the 16-bit big-endian words of `b` from index `i` to the end; an
/// odd trailing byte is padded with zero on the right.
pub open spec fn sum16_from(b: Seq<u8>, i: int) -> int
    decreases b.len() - i,
{
    if i < 0 || i >= b.len() {
        0
    } else if i + 1 == b.len() {
        (b[i] as int) * 256
    } else {
        (b[i] as int) * 256 + (b[i + 1] as int) + sum16_from(b, i + 2)
    }
}

pub open spec fn sum16(b: Seq<u8>) -> int {
    sum16_from(b, 0)
}

/// One step of end-around carry folding.
pub open spec fn fold1(x: int) -> int {
    x % 0x10000 + x / 0x10000
}

/// The ones'-complement checksum of a word sum below 2^32: fold the carries
/// twice and complement.
pub open spec fn cksum_of_sum(x: int) -> int {
    0xFFFF - fold1(fold1(x))
}

proof fn lemma_fold_bounds(x: int)
    requires
        0 <= x < 0x100000000,
    ensures
        0 <= fold1(fold1(x)) <= 0xFFFF,
        0 <= cksum_of_sum(x) <= 0xFFFF,
{
    assert(x % 0x10000 <= 0xFFFF);
    assert(x / 0x10000 <= 0xFFFF) by (nonlinear_arith)
        requires
            0 <= x < 0x100000000,
    ;
    let f1 = fold1(x);
    assert(0 <= f1 <= 0x1FFFE);
    if f1 <= 0xFFFF {
        assert(fold1(f1) == f1);
    } else {
        assert(f1 / 0x10000 == 1) by (nonlinear_arith)
            requires
                0x10000 <= f1 <= 0x1FFFE,
        ;
        assert(f1 % 0x10000 == f1 - 0x10000) by (nonlinear_arith)
            requires
                0x10000 <= f1 <= 0x1FFFE,
        ;
    }
}

proof fn lemma_sum16_bounds(b: Seq<u8>, i: int)
    requires
        i <= b.len(),
    ensures
        0 <= sum16_from(b, i) <= 0x8000 * (b.len() - i) + 0x8000,
    decreases b.len() - i,
{
    if 0 <= i && i < b.len() && i + 1 < b.len() {
        lemma_sum16_bounds(b, i + 2);
    }
}

/// Computes `sum16` of `splice(b, zero_at, [0, 0]).subrange(start, end)`:
/// the word sum of the range with the two bytes at `zero_at` read as zero.
/// `zero_at` is either at an even word offset inside the range or at or
/// beyond `end` (then nothing is masked).
fn sum16_exec(b: &Vec<u8>, start: usize, end: usize, zero_at: usize) -> (r: u64)
    requires
        start <= end <= b@.len(),
        end <= 0x10000,
        start % 2 == 0,
        zero_at % 2 == 0,
        zero_at >= end || (start <= zero_at && zero_at + 2 <= end),
    ensures
        r == sum16(splice(b@, zero_at as int, seq![0u8, 0u8]).subrange(start as int, end as int)),
        r <= 0x80008000,
{
    let ghost zb: Seq<u8> = splice(b@, zero_at as int, seq![0u8, 0u8]);
    let ghost s: Seq<u8> = zb.subrange(start as int, end as int);
    let mut acc: u64 = 0;
    let mut i: usize = start;
    while i < end
        invariant
            start <= i <= end <= b@.len(),
            end <= 0x10000,
            start % 2 == 0,
            zero_at % 2 == 0,
            i % 2 == 0 || i == end,
            zero_at >= end || (start <= zero_at && zero_at + 2 <= end),
            zb == splice(b@, zero_at as int, seq![0u8, 0u8]),
            s == zb.subrange(start as int, end as int),
            acc + sum16_from(s, i - start) == sum16(s),
            acc <= 0x80008000,
        decreases end - i,
    {
        proof {
            lemma_sum16_bounds(s, 0);
        }
        let hi: u8 = if i == zero_at {
            0u8
        } else {
            b[i]
        };
        assert(s[i - start] == hi);
        if i + 1 == end {
            assert(sum16_from(s, i - start) == (s[i - start] as int) * 256);
            acc = acc + (hi as u64) * 256;
            i = i + 1;
            assert(sum16_from(s, i - start) == 0);
            proof {
                lemma_sum16_bounds(s, i - start);
            }
        } else {
            let lo: u8 = if i == zero_at {
                0u8
            } else {
                b[i + 1]
            };
            assert(s[i + 1 - start] == lo);
            assert(sum16_from(s, i - start) == (s[i - start] as int) * 256 + (s[i + 1
                - start] as int) + sum16_from(s, i + 2 - start));
            acc = acc + (hi as u64) * 256 + (lo as u64);
            i = i + 2;
            proof {
                lemma_sum16_bounds(s, i - start);
            }
        }
    }
    assert(sum16_from(s, i - start) == 0);
    acc
}

fn finalize_cksum(sum: u64) -> (r: u16)
    requires
        sum < 0x100000000,
    ensures
        r as int == cksum_of_sum(sum as int),
{
    proof {
        lemma_fold_bounds(sum as int);
    }
    let f1: u64 = sum % 0x10000 + sum / 0x10000;
    assert(f1 == fold1(sum as int));
    let f2: u64 = f1 % 0x10000 + f1 / 0x10000;
    assert(f2 == fold1(f1 as int));
    (0xFFFFu64 - f2) as u16
}

// ---------------------------------------------------------------------------
// Checksum fields of a packet
// ---------------------------------------------------------------------------

/// The IPv4 header checksum of `b`: the ones'-complement checksum over the
/// header with the checksum field (bytes 10 and 11) read as zero.
pub open spec fn v4_header_ck_val(b: Seq<u8>) -> int {
    cksum_of_sum(sum16(splice(b, 10, seq![0u8, 0u8]).subrange(0, v4_ihl(b))))
}

/// The transport layout of the packet: protocol, transport offset and the
/// offset of the transport checksum field, when the packet carries a TCP or
/// UDP segment that is long enough to hold that field. Oversized buffers are
/// left alone.
pub open spec fn transport_of(b: Seq<u8>) -> Option<(int, int, int)> {
    if b.len() > 0xFFFF {
        None
    } else if v4_wf(b) {
        transport_at(b, (b[9] as int), v4_ihl(b))
    } else if v6_wf(b) {
        transport_at(b, (b[6] as int), 40)
    } else {
        None
    }
}

pub open spec fn transport_at(b: Seq<u8>, proto: int, toff: int) -> Option<(int, int, int)> {
    if proto == TCP_PROTOCOL && b.len() >= toff + 20 {
        Some((proto, toff, toff + 16))
    } else if proto == UDP_PROTOCOL && b.len() >= toff + 8 {
        Some((proto, toff, toff + 6))
    } else {
        None
    }
}

/// The pseudo-header word sum of an IPv4 packet: source and destination
/// addresses, protocol, and the transport length.
pub open spec fn pseudo_sum_v4(b: Seq<u8>) -> int {
    wrd(b, 12) + wrd(b, 14) + wrd(b, 16) + wrd(b, 18) + (b[9] as int) + (b.len() - v4_ihl(b))
}

/// The pseudo-header word sum of an IPv6 packet: the words of the source
/// and destination addresses, the next-header value, and the transport
/// length.
pub open spec fn pseudo_sum_v6(b: Seq<u8>) -> int {
    sum_words_upto(b, 40) + (b[6] as int) + (b.len() - 40)
}

proof fn lemma_sum_words_upto_congruent(a: Seq<u8>, b: Seq<u8>, i: int)
    requires
        i % 2 == 0,
        forall|j: int| 8 <= j < i ==> a[j] == b[j],
    ensures
        sum_words_upto(a, i) == sum_words_upto(b, i),
    decreases i,
{
    if i > 8 {
        lemma_sum_words_upto_congruent(a, b, i - 2);
        assert(a[i - 2] == b[i - 2]);
        assert(a[i - 1] == b[i - 1]);
    }
}

pub open spec fn pseudo_sum(b: Seq<u8>) -> int {
    if v4_wf(b) {
        pseudo_sum_v4(b)
    } else {
        pseudo_sum_v6(b)
    }
}

/// The transport checksum value for `b` at the layout `(proto, toff, ckoff)`:
/// the checksum over pseudo-header and transport segment with the checksum
/// field read as zero; a UDP checksum of zero is transmitted as 0xFFFF.
pub open spec fn transport_ck_val(b: Seq<u8>, proto: int, toff: int, ckoff: int) -> int {
    let zb = splice(b, ckoff, seq![0u8, 0u8]);
    let c = cksum_of_sum(pseudo_sum(zb) + sum16(zb.subrange(toff, zb.len() as int)));
    if proto == UDP_PROTOCOL && c == 0 {
        0xFFFF
    } else {
        c
    }
}

// ---------------------------------------------------------------------------
// The rewrite itself
// ---------------------------------------------------------------------------

/// `b` with its destination bytes replaced by `dst`.
pub open spec fn spec_set_dst(b: Seq<u8>, dst: IpAddr) -> Seq<u8> {
    match dst {
        IpAddr::V4(d) => splice(b, 16, u32_be_bytes(d)),
        IpAddr::V6(d) => splice(b, 24, u128_be_bytes(d)),
    }
}

/// `b` with the transport checksum recomputed, when a TCP or UDP checksum
/// field is present.
pub open spec fn spec_fix_transport(b: Seq<u8>) -> Seq<u8> {
    match transport_of(b) {
        Some((proto, toff, ckoff)) => splice(
            b,
            ckoff,
            u16_be_bytes(transport_ck_val(b, proto, toff, ckoff) as u16),
        ),
        None => b,
    }
}

pub open spec fn spec_rewrite_v4(b: Seq<u8>, d: u32) -> Seq<u8> {
    let b1 = spec_set_dst(b, IpAddr::V4(d));
    let b2 = splice(b1, 10, u16_be_bytes(v4_header_ck_val(b1) as u16));
    spec_fix_transport(b2)
}

pub open spec fn spec_rewrite_v6(b: Seq<u8>, d: u128) -> Seq<u8> {
    spec_fix_transport(spec_set_dst(b, IpAddr::V6(d)))
}

/// What `update_packet` does: rewrite the destination and the checksums when
/// the buffer parses as a packet of `dst`'s family; leave it untouched
/// otherwise.
pub open spec fn spec_update_packet(b: Seq<u8>, dst: IpAddr) -> Seq<u8> {
    match dst {
        IpAddr::V4(d) => if v4_wf(b) {
            spec_rewrite_v4(b, d)
        } else {
            b
        },
        IpAddr::V6(d) => if v6_wf(b) {
            spec_rewrite_v6(b, d)
        } else {
            b
        },
    }
}

fn put_u16(b: &mut Vec<u8>, off: usize, v: u16)
    requires
        off + 2 <= old(b)@.len(),
        off <= 0x10000,
    ensures
        final(b)@ == splice(old(b)@, off as int, u16_be_bytes(v)),
{
    b.set(off, #[verifier::truncate] ((v >> 8) as u8));
    b.set(off + 1, #[verifier::truncate] (v as u8));
    assert(b@ =~= splice(old(b)@, off as int, u16_be_bytes(v)));
}

fn put_u32(b: &mut Vec<u8>, off: usize, v: u32)
    requires
        off + 4 <= old(b)@.len(),
        off <= 0x10000,
    ensures
        final(b)@ == splice(old(b)@, off as int, u32_be_bytes(v)),
{
    b.set(off, #[verifier::truncate] ((v >> 24) as u8));
    b.set(off + 1, #[verifier::truncate] ((v >> 16) as u8));
    b.set(off + 2, #[verifier::truncate] ((v >> 8) as u8));
    b.set(off + 3, #[verifier::truncate] (v as u8));
    assert(b@ =~= splice(old(b)@, off as int, u32_be_bytes(v)));
}

fn put_u128(b: &mut Vec<u8>, off: usize, v: u128)
    requires
        off + 16 <= old(b)@.len(),
        off <= 0xFFF0,
    ensures
        final(b)@ == splice(old(b)@, off as int, u128_be_bytes(v)),
{
    put_u32(b, off, #[verifier::truncate] ((v >> 96) as u32));
    put_u32(b, off + 4, #[verifier::truncate] ((v >> 64) as u32));
    put_u32(b, off + 8, #[verifier::truncate] ((v >> 32) as u32));
    put_u32(b, off + 12, #[verifier::truncate] (v as u32));
    assert(b@ =~= splice(old(b)@, off as int, u128_be_bytes(v)));
}

/// Recomputes the transport checksum of a well-formed packet in place.
fn fix_transport(b: &mut Vec<u8>, proto: u8, toff: usize)
    requires
        v4_wf(old(b)@) && proto == old(b)@[9] && toff == v4_ihl(old(b)@) || v6_wf(old(b)@) && proto
            == old(b)@[6] && toff == 40,
    ensures
        final(b)@ == spec_fix_transport(old(b)@),
{
    let len = b.len();
    if len > 0xFFFF {
        assert(transport_of(b@) is None);
        return ;
    }
    let ckoff: usize;
    if proto == TCP_PROTOCOL && len >= toff + 20 {
        ckoff = toff + 16;
    } else if proto == UDP_PROTOCOL && len >= toff + 8 {
        ckoff = toff + 6;
    } else {
        assert(transport_of(b@) is None);
        return ;
    }
    assert(transport_of(b@) == Some((proto as int, toff as int, ckoff as int)));
    let ghost zb = splice(b@, ckoff as int, seq![0u8, 0u8]);
    let seg_sum: u64 = sum16_exec(b, toff, len, ckoff);
    let ps: u64 = if (b[0] >> 4) == 4 {
        pseudo_sum_v4_exec(b)
    } else {
        pseudo_sum_v6_exec(b)
    };
    proof {
        assert(zb.len() == b@.len());
        assert(forall|i: int|
            0 <= i < 20 && i < zb.len() ==> zb[i] == b@[i]);
        assert(pseudo_sum(zb) == ps) by {
            if v4_wf(b@) {
                assert(v4_wf(zb));
                assert(v4_ihl(zb) == v4_ihl(b@));
            } else {
                assert(!v4_wf(zb));
                lemma_sum_words_upto_congruent(zb, b@, 40);
            }
        }
    }
    let total: u64 = ps + seg_sum;
    let mut ck: u16 = finalize_cksum(total);
    if proto == UDP_PROTOCOL && ck == 0 {
        ck = 0xFFFF;
    }
    assert(ck as int == transport_ck_val(b@, proto as int, toff as int, ckoff as int));
    put_u16(b, ckoff, ck);
}

fn pseudo_sum_v4_exec(b: &Vec<u8>) -> (r: u64)
    requires
        v4_wf(b@),
        b@.len() <= 0xFFFF,
    ensures
        r == pseudo_sum_v4(b@),
        r <= 0x60000,
{
    let w1: u64 = (b[12] as u64) * 256 + (b[13] as u64);
    let w2: u64 = (b[14] as u64) * 256 + (b[15] as u64);
    let w3: u64 = (b[16] as u64) * 256 + (b[17] as u64);
    let w4: u64 = (b[18] as u64) * 256 + (b[19] as u64);
    let ihl: usize = ((b[0] & 0xF) as usize) * 4;
    w1 + w2 + w3 + w4 + (b[9] as u64) + ((b.len() - ihl) as u64)
}

fn pseudo_sum_v6_exec(b: &Vec<u8>) -> (r: u64)
    requires
        v6_wf(b@),
        b@.len() <= 0xFFFF,
    ensures
        r == pseudo_sum_v6(b@),
        r <= 0x120000,
{
    let mut acc: u64 = 0;
    let mut i: usize = 8;
    while i < 40
        invariant
            8 <= i <= 40,
            i % 2 == 0,
            v6_wf(b@),
            acc <= 0x10000 * ((i - 8) / 2),
            acc == sum_words_upto(b@, i as int),
        decreases 40 - i,
    {
        acc = acc + (b[i] as u64) * 256 + (b[i + 1] as u64);
        i = i + 2;
    }
    acc + (b[6] as u64) + ((b.len() - 40) as u64)
}

/// The word sum of bytes 8..i (the source and destination fields processed
/// so far) of an IPv6 header.
pub open spec fn sum_words_upto(b: Seq<u8>, i: int) -> int
    decreases i,
{
    if i <= 8 {
        0
    } else {
        sum_words_upto(b, i - 2) + wrd(b, i - 2)
    }
}

/// Overwrites the destination address of the packet and recomputes the IPv4
/// header checksum and the TCP/UDP transport checksum. A buffer that does
/// not parse as a packet of `dst_addr`'s family is left unchanged.
pub fn update_packet(packet: &mut Vec<u8>, dst_addr: IpAddr)
    ensures
        final(packet)@ == spec_update_packet(old(packet)@, dst_addr),
{
    match dst_addr {
        IpAddr::V4(d) => {
            if !(packet.len() >= 20 && (packet[0] >> 4) == 4 && (packet[0] & 0xF) >= 5 && ((
            packet[0] & 0xF) as usize) * 4 <= packet.len()) {
                assert(!v4_wf(packet@));
                return ;
            }
            assert(v4_wf(packet@));
            put_u32(packet, 16, d);
            let ghost b1 = packet@;
            assert(v4_wf(b1) && v4_ihl(b1) == v4_ihl(old(packet)@));
            let ihl: usize = ((packet[0] & 0xF) as usize) * 4;
            let hsum: u64 = sum16_exec(packet, 0, ihl, 10);
            let hck: u16 = finalize_cksum(hsum);
            assert(hck as int == v4_header_ck_val(b1));
            put_u16(packet, 10, hck);
            let ghost b2 = packet@;
            assert(v4_wf(b2) && v4_ihl(b2) == v4_ihl(b1));
            assert(b2[9] == old(packet)@[9]);
            let proto: u8 = packet[9];
            fix_transport(packet, proto, ihl);
        },
        IpAddr::V6(d) => {
            if !(packet.len() >= 40 && (packet[0] >> 4) == 6) {
                assert(!v6_wf(packet@));
                return ;
            }
            assert(v6_wf(packet@));
            put_u128(packet, 24, d);
            let ghost b1 = packet@;
            assert(v6_wf(b1));
            assert(!v4_wf(b1));
            assert(b1[6] == old(packet)@[6]);
            let proto: u8 = packet[6];
            fix_transport(packet, proto, 40);
        },
    }
}

/// The packet rewrite is a pure function of the buffer and the new
/// destination, and applying it twice with the same destination yields the
/// same bytes as applying it once.
pub proof fn lemma_update_packet_idempotent(b: Seq<u8>, dst: IpAddr)
    ensures
        spec_update_packet(spec_update_packet(b, dst), dst) == spec_update_packet(b, dst),
{
    match dst {
        IpAddr::V4(d) => {
            if v4_wf(b) {
                let bb = u32_be_bytes(d);
                let b1 = splice(b, 16, bb);
                let hc = u16_be_bytes(v4_header_ck_val(b1) as u16);
                let b2 = splice(b1, 10, hc);
                let r = spec_fix_transport(b2);
                assert(b2.len() == b.len() && b2[0] == b[0] && b2[9] == b[9]);
                assert(v4_ihl(b2) == v4_ihl(b));
                match transport_of(b2) {
                    Some((p, toff, ck)) => {
                        let tc = u16_be_bytes(transport_ck_val(b2, p, toff, ck) as u16);
                        assert(r == splice(b2, ck, tc));
                        assert(toff == v4_ihl(b) && ck >= toff + 6 && ck + 2 <= b.len());
                        assert(r.len() == b.len() && r[0] == b[0] && r[9] == b[9]);
                        assert(v4_wf(r));
                        let b1r = splice(r, 16, bb);
                        assert(b1r =~= r);
                        assert(splice(r, 10, seq![0u8, 0u8]).subrange(0, v4_ihl(r)) =~= splice(
                            b1,
                            10,
                            seq![0u8, 0u8],
                        ).subrange(0, v4_ihl(b1)));
                        assert(v4_header_ck_val(b1r) == v4_header_ck_val(b1));
                        let b2r = splice(b1r, 10, hc);
                        assert(b2r =~= r);
                        assert(transport_of(b2r) == transport_of(b2));
                        assert(splice(b2r, ck, seq![0u8, 0u8]) =~= splice(b2, ck, seq![0u8, 0u8]));
                        assert(transport_ck_val(b2r, p, toff, ck) == transport_ck_val(
                            b2,
                            p,
                            toff,
                            ck,
                        ));
                        assert(splice(b2r, ck, tc) =~= r);
                        assert(spec_update_packet(r, dst) == r);
                    },
                    None => {
                        assert(r == b2);
                        assert(v4_wf(r));
                        let b1r = splice(r, 16, bb);
                        assert(b1r =~= b2);
                        assert(splice(b1r, 10, seq![0u8, 0u8]).subrange(0, v4_ihl(b1r)) =~= splice(
                            b1,
                            10,
                            seq![0u8, 0u8],
                        ).subrange(0, v4_ihl(b1)));
                        assert(v4_header_ck_val(b1r) == v4_header_ck_val(b1));
                        let b2r = splice(b1r, 10, hc);
                        assert(b2r =~= b2);
                        assert(transport_of(b2r) == transport_of(b2));
                        assert(spec_update_packet(r, dst) == r);
                    },
                }
            }
        },
        IpAddr::V6(d) => {
            if v6_wf(b) {
                let bb = u128_be_bytes(d);
                let b1 = splice(b, 24, bb);
                let r = spec_fix_transport(b1);
                assert(b1.len() == b.len() && b1[0] == b[0] && b1[6] == b[6]);
                assert(!v4_wf(b1) && v6_wf(b1));
                match transport_of(b1) {
                    Some((p, toff, ck)) => {
                        let tc = u16_be_bytes(transport_ck_val(b1, p, toff, ck) as u16);
                        assert(r == splice(b1, ck, tc));
                        assert(toff == 40 && ck >= 46 && ck + 2 <= b.len());
                        assert(r.len() == b.len() && r[0] == b[0] && r[6] == b[6]);
                        assert(!v4_wf(r) && v6_wf(r));
                        let b1r = splice(r, 24, bb);
                        assert(b1r =~= r);
                        assert(transport_of(b1r) == transport_of(b1));
                        assert(splice(b1r, ck, seq![0u8, 0u8]) =~= splice(b1, ck, seq![0u8, 0u8]));
                        assert(transport_ck_val(b1r, p, toff, ck) == transport_ck_val(
                            b1,
                            p,
                            toff,
                            ck,
                        ));
                        assert(splice(b1r, ck, tc) =~= r);
                        assert(spec_update_packet(r, dst) == r);
                    },
                    None => {
                        assert(r == b1);
                        assert(!v4_wf(r) && v6_wf(r));
                        let b1r = splice(r, 24, bb);
                        assert(b1r =~= b1);
                        assert(transport_of(b1r) == transport_of(b1));
                        assert(spec_update_packet(r, dst) == r);
                    },
                }
            }
        },
    }
}

} // verus!
