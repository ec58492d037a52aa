//! Little-endian integer encodings, stated with plain arithmetic.

use vstd::prelude::*;

verus! {

/// The four little-endian bytes of a 32-bit value.
#[verifier::opaque]
pub open spec fn le_bytes_u32(x: u32) -> Seq<u8> {
    seq![
        (x % 256) as u8,
        (x / 256 % 256) as u8,
        (x / 65536 % 256) as u8,
        (x / 16777216) as u8,
    ]
}

/// The two little-endian bytes of a 16-bit value.
pub open spec fn le_bytes_u16(x: u16) -> Seq<u8> {
    seq![(x % 256) as u8, (x / 256) as u8]
}

/// The 32-bit value stored little-endian in `s` at offset `i`.
pub open spec fn u32_at(s: Seq<u8>, i: int) -> u32
    recommends
        0 <= i,
        i + 4 <= s.len(),
{
    (s[i] as int + s[i + 1] as int * 256 + s[i + 2] as int * 65536 + s[i + 3] as int
        * 16777216) as u32
}

/// The 16-bit value stored little-endian in `s` at offset `i`.
pub open spec fn u16_at(s: Seq<u8>, i: int) -> u16
    recommends
        0 <= i,
        i + 2 <= s.len(),
{
    (s[i] as int + s[i + 1] as int * 256) as u16
}

/// The 32-bit value whose little-endian bytes are the first four of `s`.
pub open spec fn u32_of_le(s: Seq<u8>) -> u32
    recommends
        s.len() >= 4,
{
    u32_at(s, 0)
}

/// A signed 32-bit value as the unsigned value with the same two's-complement bits.
pub open spec fn bits_of_i32(x: i32) -> u32 {
    if x >= 0 {
        x as u32
    } else {
        (x + 0x1_0000_0000) as u32
    }
}

/// The signed 32-bit value with the two's-complement bits of `x`.
pub open spec fn i32_of_bits(x: u32) -> i32 {
    if x < 0x8000_0000 {
        x as i32
    } else {
        (x - 0x1_0000_0000) as i32
    }
}

/// A signed 16-bit value as the unsigned value with the same two's-complement bits.
pub open spec fn bits_of_i16(x: i16) -> u16 {
    if x >= 0 {
        x as u16
    } else {
        (x + 0x1_0000) as u16
    }
}

/// The signed 16-bit value with the two's-complement bits of `x`.
pub open spec fn i16_of_bits(x: u16) -> i16 {
    if x < 0x8000 {
        x as i16
    } else {
        (x - 0x1_0000) as i16
    }
}

/// Reading the little-endian bytes of a value gives the value back.
pub proof fn lemma_u32_of_le_bytes(x: u32)
    ensures
        le_bytes_u32(x).len() == 4,
        u32_of_le(le_bytes_u32(x)) == x,
{
    reveal(le_bytes_u32);
    let a: int = x as int / 256;
    let b: int = a / 256;
    let c: int = b / 256;
    assert(x as int == a * 256 + x as int % 256);
    assert(a == b * 256 + a % 256);
    assert(b == c * 256 + b % 256);
    assert(b == x as int / 65536);
    assert(c == x as int / 16777216);
    assert(c < 256);
}

/// Four bytes are the little-endian bytes of the value they read as.
pub proof fn lemma_le_bytes_of_u32(s: Seq<u8>)
    requires
        s.len() == 4,
    ensures
        le_bytes_u32(u32_of_le(s)) == s,
{
    reveal(le_bytes_u32);
    let x: int = s[0] as int + s[1] as int * 256 + s[2] as int * 65536 + s[3] as int * 16777216;
    let a: int = s[1] as int + s[2] as int * 256 + s[3] as int * 65536;
    let b: int = s[2] as int + s[3] as int * 256;
    assert(x == a * 256 + s[0] as int);
    assert(x / 256 == a && x % 256 == s[0] as int);
    assert(a == b * 256 + s[1] as int);
    assert(a / 256 == b && a % 256 == s[1] as int);
    assert(b / 256 == s[3] as int && b % 256 == s[2] as int);
    assert(x / 65536 == b);
    assert(x / 16777216 == s[3] as int);
    assert(le_bytes_u32(u32_of_le(s)) =~= s);
}

/// Four bytes that are the little-endian bytes of `x` read as `x`, wherever they lie.
pub proof fn lemma_u32_at_is(s: Seq<u8>, i: int, x: u32)
    requires
        0 <= i,
        i + 4 <= s.len(),
        s[i] == le_bytes_u32(x)[0],
        s[i + 1] == le_bytes_u32(x)[1],
        s[i + 2] == le_bytes_u32(x)[2],
        s[i + 3] == le_bytes_u32(x)[3],
    ensures
        u32_at(s, i) == x,
{
    lemma_u32_of_le_bytes(x);
}

/// Two bytes that are the little-endian bytes of `x` read as `x`, wherever they lie.
pub proof fn lemma_u16_at_is(s: Seq<u8>, i: int, x: u16)
    requires
        0 <= i,
        i + 2 <= s.len(),
        s[i] == le_bytes_u16(x)[0],
        s[i + 1] == le_bytes_u16(x)[1],
    ensures
        u16_at(s, i) == x,
{
}

/// Reads the 32-bit little-endian value at `off`.
pub fn read_u32(content: &[u8], off: usize) -> (x: u32)
    requires
        off + 4 <= content@.len(),
    ensures
        x == u32_at(content@, off as int),
{
    content[off] as u32 + content[off + 1] as u32 * 256 + content[off + 2] as u32 * 65536
        + content[off + 3] as u32 * 16777216
}

/// Reads the 16-bit little-endian value at `off`.
pub fn read_u16(content: &[u8], off: usize) -> (x: u16)
    requires
        off + 2 <= content@.len(),
    ensures
        x == u16_at(content@, off as int),
{
    content[off] as u16 + content[off + 1] as u16 * 256
}

/// Reads the signed 32-bit little-endian value at `off`.
pub fn read_i32(content: &[u8], off: usize) -> (x: i32)
    requires
        off + 4 <= content@.len(),
    ensures
        x == i32_of_bits(u32_at(content@, off as int)),
{
    let u: u32 = read_u32(content, off);
    if u < 0x8000_0000 {
        u as i32
    } else {
        (u as i64 - 0x1_0000_0000) as i32
    }
}

/// Reads the signed 16-bit little-endian value at `off`.
pub fn read_i16(content: &[u8], off: usize) -> (x: i16)
    requires
        off + 2 <= content@.len(),
    ensures
        x == i16_of_bits(u16_at(content@, off as int)),
{
    let u: u16 = read_u16(content, off);
    if u < 0x8000 {
        u as i16
    } else {
        (u as i32 - 0x1_0000) as i16
    }
}

/// Appends the four little-endian bytes of `x`.
pub fn put_u32(out: &mut Vec<u8>, x: u32)
    ensures
        final(out)@ == old(out)@ + le_bytes_u32(x),
        final(out)@.len() == old(out)@.len() + 4,
{
    out.push((x % 256) as u8);
    out.push((x / 256 % 256) as u8);
    out.push((x / 65536 % 256) as u8);
    out.push((x / 16777216) as u8);
    reveal(le_bytes_u32);
    assert(out@ =~= old(out)@ + le_bytes_u32(x));
}

/// Appends the two little-endian bytes of `x`.
pub fn put_u16(out: &mut Vec<u8>, x: u16)
    ensures
        final(out)@ == old(out)@ + le_bytes_u16(x),
{
    out.push((x % 256) as u8);
    out.push((x / 256) as u8);
    assert(out@ =~= old(out)@ + le_bytes_u16(x));
}

/// Appends the two's-complement little-endian bytes of `x`.
pub fn put_i32(out: &mut Vec<u8>, x: i32)
    ensures
        final(out)@ == old(out)@ + le_bytes_u32(bits_of_i32(x)),
        final(out)@.len() == old(out)@.len() + 4,
{
    let u: u32 = if x >= 0 {
        x as u32
    } else {
        (x as i64 + 0x1_0000_0000) as u32
    };
    put_u32(out, u);
}

/// Appends the two's-complement little-endian bytes of `x`.
pub fn put_i16(out: &mut Vec<u8>, x: i16)
    ensures
        final(out)@ == old(out)@ + le_bytes_u16(bits_of_i16(x)),
{
    let u: u16 = if x >= 0 {
        x as u16
    } else {
        (x as i32 + 0x1_0000) as u16
    };
    put_u16(out, u);
}

/// Appends a copy of `bytes`.
pub fn put_bytes(out: &mut Vec<u8>, bytes: &[u8])
    ensures
        final(out)@ == old(out)@ + bytes@,
{
    let mut i: usize = 0;
    while i < bytes.len()
        invariant
            i <= bytes@.len(),
            out@ == old(out)@ + bytes@.subrange(0, i as int),
        decreases bytes@.len() - i,
    {
        out.push(bytes[i]);
        i += 1;
        assert(out@ =~= old(out)@ + bytes@.subrange(0, i as int));
    }
    assert(bytes@.subrange(0, i as int) =~= bytes@);
}

} // verus!
