//! Little-endian integers inside byte sequences.

use vstd::prelude::*;

verus! {

/// The four bytes of `x`, least significant first.
pub open spec fn le_u32(x: u32) -> Seq<u8> {
    seq![
        (x % 256) as u8,
        (x / 256 % 256) as u8,
        (x / 65536 % 256) as u8,
        (x / 16777216) as u8,
    ]
}

/// The eight bytes of `x`, least significant first.
pub open spec fn le_u64(x: u64) -> Seq<u8> {
    le_u32((x % 0x1_0000_0000) as u32) + le_u32((x / 0x1_0000_0000) as u32)
}

/// The number that the four bytes of `b` from `at` on stand for.
#[verifier::opaque]
pub open spec fn le_u32_at(b: Seq<u8>, at: int) -> u32 {
    (b[at] + 256 * b[at + 1] + 65536 * b[at + 2] + 16777216 * b[at + 3]) as u32
}

/// The number that the eight bytes of `b` from `at` on stand for.
#[verifier::opaque]
pub open spec fn le_u64_at(b: Seq<u8>, at: int) -> u64 {
    (le_u32_at(b, at) + 0x1_0000_0000 * le_u32_at(b, at + 4)) as u64
}

/// Numbers at the same place in two sequences that agree there are the same.
pub proof fn lemma_u32_at_part(b: Seq<u8>, from: int, to: int, at: int)
    requires
        0 <= from <= to <= b.len(),
        0 <= at,
        from + at + 4 <= to,
    ensures
        le_u32_at(b.subrange(from, to), at) == le_u32_at(b, from + at),
{
    reveal(le_u32_at);
}

/// Numbers at the same place in two sequences that agree there are the same.
pub proof fn lemma_u64_at_part(b: Seq<u8>, from: int, to: int, at: int)
    requires
        0 <= from <= to <= b.len(),
        0 <= at,
        from + at + 8 <= to,
    ensures
        le_u64_at(b.subrange(from, to), at) == le_u64_at(b, from + at),
{
    reveal(le_u32_at);
    reveal(le_u64_at);
}

/// Four bytes written at `at` are read back as the number they were written for.
pub proof fn lemma_u32_read_back(b: Seq<u8>, at: int, x: u32)
    requires
        0 <= at,
        at + 4 <= b.len(),
        b.subrange(at, at + 4) == le_u32(x),
    ensures
        le_u32_at(b, at) == x,
{
    reveal(le_u32_at);
    let w = b.subrange(at, at + 4);
    assert(w[0] == b[at] && w[1] == b[at + 1] && w[2] == b[at + 2] && w[3] == b[at + 3]);
}

/// Eight bytes written at `at` are read back as the number they were written for.
pub proof fn lemma_u64_read_back(b: Seq<u8>, at: int, x: u64)
    requires
        0 <= at,
        at + 8 <= b.len(),
        b.subrange(at, at + 8) == le_u64(x),
    ensures
        le_u64_at(b, at) == x,
{
    reveal(le_u64_at);
    let low = (x % 0x1_0000_0000) as u32;
    let high = (x / 0x1_0000_0000) as u32;
    let w = b.subrange(at, at + 8);
    assert(b.subrange(at, at + 4) =~= w.subrange(0, 4));
    assert(w.subrange(0, 4) =~= le_u32(low));
    assert(b.subrange(at + 4, at + 8) =~= w.subrange(4, 8));
    assert(w.subrange(4, 8) =~= le_u32(high));
    lemma_u32_read_back(b, at, low);
    lemma_u32_read_back(b, at + 4, high);
}

/// The bytes of a number that was read are the bytes it was read from.
pub proof fn lemma_u32_write_back(b: Seq<u8>, at: int)
    requires
        0 <= at,
        at + 4 <= b.len(),
    ensures
        le_u32(le_u32_at(b, at)) == b.subrange(at, at + 4),
{
    reveal(le_u32_at);
    let x = le_u32_at(b, at);
    let (b0, b1, b2, b3) = (b[at] as int, b[at + 1] as int, b[at + 2] as int, b[at + 3] as int);
    assert(x == b0 + 256 * (b1 + 256 * (b2 + 256 * b3)));
    assert(x / 256 == b1 + 256 * (b2 + 256 * b3));
    assert(x / 65536 == b2 + 256 * b3);
    assert(le_u32(x) =~= b.subrange(at, at + 4));
}

/// The bytes of a number that was read are the bytes it was read from.
pub proof fn lemma_u64_write_back(b: Seq<u8>, at: int)
    requires
        0 <= at,
        at + 8 <= b.len(),
    ensures
        le_u64(le_u64_at(b, at)) == b.subrange(at, at + 8),
{
    reveal(le_u64_at);
    let low = le_u32_at(b, at);
    let high = le_u32_at(b, at + 4);
    let x = le_u64_at(b, at);
    assert(x == low + 0x1_0000_0000 * high);
    assert((x % 0x1_0000_0000) as u32 == low);
    assert((x / 0x1_0000_0000) as u32 == high);
    lemma_u32_write_back(b, at);
    lemma_u32_write_back(b, at + 4);
    assert(b.subrange(at, at + 4) + b.subrange(at + 4, at + 8) =~= b.subrange(at, at + 8));
}

/// Appends the four bytes of `x`.
pub fn put_u32_le(out: &mut Vec<u8>, x: u32)
    ensures
        final(out)@ == old(out)@ + le_u32(x),
{
    out.push((x % 256) as u8);
    out.push((x / 256 % 256) as u8);
    out.push((x / 65536 % 256) as u8);
    out.push((x / 16777216) as u8);
    assert(out@ =~= old(out)@ + le_u32(x));
}

/// Appends the eight bytes of `x`.
pub fn put_u64_le(out: &mut Vec<u8>, x: u64)
    ensures
        final(out)@ == old(out)@ + le_u64(x),
{
    put_u32_le(out, (x % 0x1_0000_0000) as u32);
    put_u32_le(out, (x / 0x1_0000_0000) as u32);
    assert(out@ =~= old(out)@ + le_u64(x));
}

/// Reads four bytes from `at` on.
pub fn get_u32_le(bytes: &[u8], at: usize) -> (x: u32)
    requires
        at + 4 <= bytes@.len(),
    ensures
        x == le_u32_at(bytes@, at as int),
{
    proof {
        reveal(le_u32_at);
    }
    bytes[at] as u32 + 256 * (bytes[at + 1] as u32) + 65536 * (bytes[at + 2] as u32) + 16777216 * (
    bytes[at + 3] as u32)
}

/// Reads eight bytes from `at` on.
pub fn get_u64_le(bytes: &[u8], at: usize) -> (x: u64)
    requires
        at + 8 <= bytes@.len(),
    ensures
        x == le_u64_at(bytes@, at as int),
{
    proof {
        reveal(le_u64_at);
    }
    assert(bytes@.len() == bytes.len());
    get_u32_le(bytes, at) as u64 + 0x1_0000_0000 * (get_u32_le(bytes, at + 4) as u64)
}

/// Numbers are written with the least significant byte first, in as many bytes as
/// they have, and what is read from bytes is what they add up to that way.
pub proof fn law_least_significant_byte_first(x: u32, y: u64, b: Seq<u8>, at: int)
    ensures
        le_u32(x).len() == 4,
        x == le_u32(x)[0] + 0x100 * le_u32(x)[1] + 0x1_0000 * le_u32(x)[2] + 0x100_0000
            * le_u32(x)[3],
        le_u64(y).len() == 8,
        y == le_u64(y)[0] + 0x100 * le_u64(y)[1] + 0x1_0000 * le_u64(y)[2] + 0x100_0000
            * le_u64(y)[3] + 0x1_0000_0000 * le_u64(y)[4] + 0x100_0000_0000 * le_u64(y)[5]
            + 0x1_0000_0000_0000 * le_u64(y)[6] + 0x100_0000_0000_0000 * le_u64(y)[7],
        le_u32_at(b, at) == b[at] + 0x100 * b[at + 1] + 0x1_0000 * b[at + 2] + 0x100_0000 * b[at
            + 3],
        le_u64_at(b, at) == b[at] + 0x100 * b[at + 1] + 0x1_0000 * b[at + 2] + 0x100_0000 * b[at
            + 3] + 0x1_0000_0000 * b[at + 4] + 0x100_0000_0000 * b[at + 5] + 0x1_0000_0000_0000
            * b[at + 6] + 0x100_0000_0000_0000 * b[at + 7],
{
    reveal(le_u32_at);
    reveal(le_u64_at);
    let low = (y % 0x1_0000_0000) as u32;
    let high = (y / 0x1_0000_0000) as u32;
    assert(y == low + 0x1_0000_0000 * high);
    lemma_bytes_add_up(x);
    lemma_bytes_add_up(low);
    lemma_bytes_add_up(high);
}

/// The bytes of a number add up to it.
proof fn lemma_bytes_add_up(x: u32)
    ensures
        x == le_u32(x)[0] + 0x100 * le_u32(x)[1] + 0x1_0000 * le_u32(x)[2] + 0x100_0000
            * le_u32(x)[3],
{
    assert(x / 65536 == (x / 256) / 256);
    assert(x / 16777216 == (x / 65536) / 256);
}

} // verus!
