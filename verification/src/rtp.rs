//! RTP packets: byte order, headers and payloads.

use crate::ed137::{header_len, rtp_header_len};
use vstd::prelude::*;
use vstd::slice::slice_subrange;

verus! {

/// The two bytes of a number, the high one first.
pub open spec fn be16(v: u16) -> Seq<u8> {
    seq![(v >> 8) as u8, (v & 0xff) as u8]
}

/// The four bytes of a number, the high one first.
pub open spec fn be32(v: u32) -> Seq<u8> {
    seq![(v >> 24) as u8, ((v >> 16) & 0xff) as u8, ((v >> 8) & 0xff) as u8, (v & 0xff) as u8]
}

/// Two bytes tell numbers of sixteen bits apart.
pub proof fn lemma_be16_injective(a: u16, b: u16)
    requires
        be16(a) == be16(b),
    ensures
        a == b,
{
    let x = be16(a);
    let y = be16(b);
    assert(x[0] == y[0] && x[1] == y[1]);
    assert((a >> 8) as u8 == (b >> 8) as u8 && (a & 0xff) as u8 == (b & 0xff) as u8 ==> a == b)
        by (bit_vector);
}

/// Four bytes tell numbers of thirty-two bits apart.
pub proof fn lemma_be32_injective(a: u32, b: u32)
    requires
        be32(a) == be32(b),
    ensures
        a == b,
{
    let x = be32(a);
    let y = be32(b);
    assert(x[0] == y[0] && x[1] == y[1] && x[2] == y[2] && x[3] == y[3]);
    assert((a >> 24) as u8 == (b >> 24) as u8 && ((a >> 16) & 0xff) as u8 == ((b >> 16)
        & 0xff) as u8 && ((a >> 8) & 0xff) as u8 == ((b >> 8) & 0xff) as u8 && (a & 0xff) as u8 == (b
        & 0xff) as u8 ==> a == b) by (bit_vector);
}

/// Appends a number in two bytes, the high one first.
pub fn push_be16(out: &mut Vec<u8>, v: u16)
    ensures
        final(out)@ == old(out)@ + be16(v),
{
    out.push((v >> 8) as u8);
    out.push((v & 0xff) as u8);
    assert(out@ =~= old(out)@ + be16(v));
}

/// Appends a number in four bytes, the highest first.
pub fn push_be32(out: &mut Vec<u8>, v: u32)
    ensures
        final(out)@ == old(out)@ + be32(v),
{
    out.push((v >> 24) as u8);
    out.push(((v >> 16) & 0xff) as u8);
    out.push(((v >> 8) & 0xff) as u8);
    out.push((v & 0xff) as u8);
    assert(out@ =~= old(out)@ + be32(v));
}

/// The payload of a packet, behind its header; nothing where the header does not
/// fit or is not of version 2.
pub fn parse_rtp_payload(data: &[u8]) -> (r: Option<&[u8]>)
    ensures
        match r {
            Some(p) => header_len(data@) matches Some(n) && p@ == data@.skip(n as int),
            None => header_len(data@) is None,
        },
{
    match rtp_header_len(data) {
        Some(n) => Some(slice_subrange(data, n, data.len())),
        None => None,
    }
}

/// A twelve-byte RTP header with the given first two bytes.
pub open spec fn fixed_header(first: u8, second: u8, seq: u16, ts: u32, ssrc: u32) -> Seq<u8> {
    seq![first, second] + be16(seq) + be32(ts) + be32(ssrc)
}

/// Begins a packet with a twelve-byte header.
pub fn start_packet(first: u8, second: u8, seq: u16, ts: u32, ssrc: u32) -> (r: Vec<u8>)
    ensures
        r@ == fixed_header(first, second, seq, ts, ssrc),
        r@.len() == 12,
{
    let mut r: Vec<u8> = Vec::new();
    r.push(first);
    r.push(second);
    push_be16(&mut r, seq);
    push_be32(&mut r, ts);
    push_be32(&mut r, ssrc);
    assert(r@ =~= fixed_header(first, second, seq, ts, ssrc));
    r
}

/// Appends bytes.
pub fn push_bytes(out: &mut Vec<u8>, bytes: &[u8])
    ensures
        final(out)@ == old(out)@ + bytes@,
{
    let mut i: usize = 0;
    assert(out@ =~= old(out)@ + bytes@.take(0));
    while i < bytes.len()
        invariant
            i <= bytes@.len(),
            out@ == old(out)@ + bytes@.take(i as int),
        decreases bytes@.len() - i,
    {
        out.push(bytes[i]);
        assert(bytes@.take(i as int + 1) =~= bytes@.take(i as int).push(bytes@[i as int]));
        assert(out@ =~= old(out)@ + bytes@.take(i as int + 1));
        i += 1;
    }
    assert(bytes@.take(bytes@.len() as int) =~= bytes@);
}

/// The number that two bytes stand for, the high one first.
pub open spec fn value16(hi: u8, lo: u8) -> u16 {
    (hi * 256 + lo) as u16
}

/// The number that four bytes stand for, the highest first.
pub open spec fn value32(a: u8, b: u8, c: u8, d: u8) -> u32 {
    (a * 0x100_0000 + b * 0x1_0000 + c * 256 + d) as u32
}

/// The number in two bytes.
pub fn read16(data: &[u8], at: usize) -> (r: u16)
    requires
        at + 2 <= data@.len(),
    ensures
        r == value16(data@[at as int], data@[at + 1]),
{
    data[at] as u16 * 256 + data[at + 1] as u16
}

/// The number in four bytes.
pub fn read32(data: &[u8], at: usize) -> (r: u32)
    requires
        at + 4 <= data@.len(),
    ensures
        r == value32(data@[at as int], data@[at + 1], data@[at + 2], data@[at + 3]),
{
    data[at] as u32 * 0x100_0000 + data[at + 1] as u32 * 0x1_0000 + data[at + 2] as u32 * 256
        + data[at + 3] as u32
}

/// Numbers read back as they were written.
pub proof fn law_header_fields_read_back(seq: u16, n: u32)
    ensures
        value16(be16(seq)[0], be16(seq)[1]) == seq,
        value32(be32(n)[0], be32(n)[1], be32(n)[2], be32(n)[3]) == n,
{
    let h = (seq >> 8) as u8;
    let l = (seq & 0xff) as u8;
    assert(h as int * 256 + l as int == seq) by (bit_vector)
        requires
            h == (seq >> 8) as u8,
            l == (seq & 0xff) as u8,
    ;
    let a = (n >> 24) as u8;
    let b = ((n >> 16) & 0xff) as u8;
    let c = ((n >> 8) & 0xff) as u8;
    let d = (n & 0xff) as u8;
    assert(a as int * 0x100_0000 + b as int * 0x1_0000 + c as int * 256 + d as int == n)
        by (bit_vector)
        requires
            a == (n >> 24) as u8,
            b == ((n >> 16) & 0xff) as u8,
            c == ((n >> 8) & 0xff) as u8,
            d == (n & 0xff) as u8,
    ;
}

/// Numbers are sent and read with their high bytes first.
pub proof fn law_high_byte_comes_first(v: u16, n: u32, a: u8, b: u8, c: u8, d: u8)
    ensures
        be16(v).len() == 2,
        be16(v)[0] * 256 + be16(v)[1] == v,
        be32(n).len() == 4,
        be32(n)[0] * 0x100_0000 + be32(n)[1] * 0x1_0000 + be32(n)[2] * 256 + be32(n)[3] == n,
        value16(a, b) == a * 256 + b,
        value32(a, b, c, d) == a * 0x100_0000 + b * 0x1_0000 + c * 256 + d,
{
    law_header_fields_read_back(v, n);
}

/// The twelve bytes of a header: the two that are given, then the number of the packet,
/// its time and its source, each with its high byte first.
pub proof fn law_header_layout(first: u8, second: u8, seq: u16, ts: u32, ssrc: u32)
    ensures
        ({
            let h = fixed_header(first, second, seq, ts, ssrc);
            &&& h.len() == 12
            &&& h[0] == first && h[1] == second
            &&& h[2] * 256 + h[3] == seq
            &&& h[4] * 0x100_0000 + h[5] * 0x1_0000 + h[6] * 256 + h[7] == ts
            &&& h[8] * 0x100_0000 + h[9] * 0x1_0000 + h[10] * 256 + h[11] == ssrc
        }),
{
    law_high_byte_comes_first(seq, ts, 0, 0, 0, 0);
    law_high_byte_comes_first(seq, ssrc, 0, 0, 0, 0);
    let h = fixed_header(first, second, seq, ts, ssrc);
    assert(h[2] == be16(seq)[0] && h[3] == be16(seq)[1]);
    assert(h[4] == be32(ts)[0] && h[5] == be32(ts)[1] && h[6] == be32(ts)[2] && h[7] == be32(
        ts,
    )[3]);
    assert(h[8] == be32(ssrc)[0] && h[9] == be32(ssrc)[1] && h[10] == be32(ssrc)[2] && h[11]
        == be32(ssrc)[3]);
}

} // verus!
