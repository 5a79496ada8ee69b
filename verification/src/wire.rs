//! Little-endian field encoding shared by all on-media records.

use vstd::prelude::*;

verus! {

/// Little-endian encoding of a `u16`.
pub open spec fn le16(x: u16) -> Seq<u8> {
    seq![(x % 256) as u8, (x / 256) as u8]
}

/// Little-endian encoding of a `u32`.
pub open spec fn le32(x: u32) -> Seq<u8> {
    seq![(x % 256) as u8, ((x / 256) % 256) as u8, ((x / 65536) % 256) as u8, (x / 16777216) as u8]
}

/// The `u16` stored little-endian at `s[i..i + 2]`.
pub open spec fn u16_at(s: Seq<u8>, i: int) -> u16 {
    (s[i] + 256 * s[i + 1]) as u16
}

/// The `u32` stored little-endian at `s[i..i + 4]`.
pub open spec fn u32_at(s: Seq<u8>, i: int) -> u32 {
    (s[i] + 256 * s[i + 1] + 65536 * s[i + 2] + 16777216 * s[i + 3]) as u32
}

/// Decoding an encoded `u16` gives it back.
pub proof fn lemma_le16_decode(x: u16, s: Seq<u8>, i: int)
    requires
        0 <= i,
        i + 2 <= s.len(),
        s.subrange(i, i + 2) == le16(x),
    ensures
        u16_at(s, i) == x,
{
    let b0 = (x % 256) as u8;
    let b1 = (x / 256) as u8;
    assert(s[i] == s.subrange(i, i + 2)[0]);
    assert(s[i + 1] == s.subrange(i, i + 2)[1]);
    assert(x as int == b0 as int + 256 * (b1 as int)) by (nonlinear_arith)
        requires
            b0 == (x % 256) as u8,
            b1 == (x / 256) as u8,
    ;
}

/// Decoding an encoded `u32` gives it back.
pub proof fn lemma_le32_decode(x: u32, s: Seq<u8>, i: int)
    requires
        0 <= i,
        i + 4 <= s.len(),
        s.subrange(i, i + 4) == le32(x),
    ensures
        u32_at(s, i) == x,
{
    let b0 = (x % 256) as u8;
    let b1 = ((x / 256) % 256) as u8;
    let b2 = ((x / 65536) % 256) as u8;
    let b3 = (x / 16777216) as u8;
    assert(s[i] == s.subrange(i, i + 4)[0]);
    assert(s[i + 1] == s.subrange(i, i + 4)[1]);
    assert(s[i + 2] == s.subrange(i, i + 4)[2]);
    assert(s[i + 3] == s.subrange(i, i + 4)[3]);
    assert(x as int == b0 as int + 256 * (b1 as int) + 65536 * (b2 as int) + 16777216 * (
    b3 as int)) by (nonlinear_arith)
        requires
            b0 == (x % 256) as u8,
            b1 == ((x / 256) % 256) as u8,
            b2 == ((x / 65536) % 256) as u8,
            b3 == (x / 16777216) as u8,
    ;
}

/// Encoding a decoded `u16` gives back the bytes it was read from.
pub proof fn lemma_le16_encode(s: Seq<u8>, i: int)
    requires
        0 <= i,
        i + 2 <= s.len(),
    ensures
        le16(u16_at(s, i)) == s.subrange(i, i + 2),
{
    let b0 = s[i];
    let b1 = s[i + 1];
    let x = u16_at(s, i);
    assert(x as int == b0 as int + 256 * (b1 as int));
    assert((x % 256) as u8 == b0 && (x / 256) as u8 == b1) by (nonlinear_arith)
        requires
            x as int == b0 as int + 256 * (b1 as int),
    ;
    assert(le16(x) =~= s.subrange(i, i + 2));
}

/// Encoding a decoded `u32` gives back the bytes it was read from.
pub proof fn lemma_le32_encode(s: Seq<u8>, i: int)
    requires
        0 <= i,
        i + 4 <= s.len(),
    ensures
        le32(u32_at(s, i)) == s.subrange(i, i + 4),
{
    let b0 = s[i];
    let b1 = s[i + 1];
    let b2 = s[i + 2];
    let b3 = s[i + 3];
    let x = u32_at(s, i);
    assert(x as int == b0 as int + 256 * (b1 as int) + 65536 * (b2 as int) + 16777216 * (
    b3 as int));
    assert((x % 256) as u8 == b0 && ((x / 256) % 256) as u8 == b1 && ((x / 65536) % 256) as u8
        == b2 && (x / 16777216) as u8 == b3) by (nonlinear_arith)
        requires
            x as int == b0 as int + 256 * (b1 as int) + 65536 * (b2 as int) + 16777216 * (
            b3 as int),
    ;
    assert(le32(x) =~= s.subrange(i, i + 4));
}

/// Reads the little-endian `u16` at `bytes[at..at + 2]`.
pub fn read_u16(bytes: &[u8], at: usize) -> (r: u16)
    requires
        at + 2 <= bytes@.len(),
    ensures
        r == u16_at(bytes@, at as int),
{
    bytes[at] as u16 + (bytes[at + 1] as u16) * 256
}

/// Reads the little-endian `u32` at `bytes[at..at + 4]`.
pub fn read_u32(bytes: &[u8], at: usize) -> (r: u32)
    requires
        at + 4 <= bytes@.len(),
    ensures
        r == u32_at(bytes@, at as int),
{
    bytes[at] as u32 + (bytes[at + 1] as u32) * 256 + (bytes[at + 2] as u32) * 65536 + (bytes[at
        + 3] as u32) * 16777216
}

/// Writes `x` little-endian into `buf[at..at + 2]`.
pub fn put_u16<const N: usize>(buf: &mut [u8; N], at: usize, x: u16)
    requires
        at + 2 <= N,
    ensures
        final(buf)@ == old(buf)@.subrange(0, at as int) + le16(x) + old(buf)@.subrange(
            at + 2,
            N as int,
        ),
{
    buf[at] = (x % 256) as u8;
    buf[at + 1] = (x / 256) as u8;
    assert(buf@ =~= old(buf)@.subrange(0, at as int) + le16(x) + old(buf)@.subrange(
        at + 2,
        N as int,
    ));
}

/// Writes `x` little-endian into `buf[at..at + 4]`.
pub fn put_u32<const N: usize>(buf: &mut [u8; N], at: usize, x: u32)
    requires
        at + 4 <= N,
    ensures
        final(buf)@ == old(buf)@.subrange(0, at as int) + le32(x) + old(buf)@.subrange(
            at + 4,
            N as int,
        ),
{
    buf[at] = (x % 256) as u8;
    buf[at + 1] = ((x / 256) % 256) as u8;
    buf[at + 2] = ((x / 65536) % 256) as u8;
    buf[at + 3] = (x / 16777216) as u8;
    assert(buf@ =~= old(buf)@.subrange(0, at as int) + le32(x) + old(buf)@.subrange(
        at + 4,
        N as int,
    ));
}

} // verus!
