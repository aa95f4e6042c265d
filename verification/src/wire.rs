//! Fixed-width little-endian integers, as they stand in a datagram.
use vstd::prelude::*;

verus! {

/// The four bytes of `v`, least significant first.
pub open spec fn u32_le(v: u32) -> Seq<u8> {
    seq![
        (v % 256) as u8,
        (v / 256 % 256) as u8,
        (v / 256 / 256 % 256) as u8,
        (v / 256 / 256 / 256 % 256) as u8,
    ]
}

/// The eight bytes of `v`, least significant first.
pub open spec fn u64_le(v: u64) -> Seq<u8> {
    seq![
        (v % 256) as u8,
        (v / 256 % 256) as u8,
        (v / 256 / 256 % 256) as u8,
        (v / 256 / 256 / 256 % 256) as u8,
        (v / 256 / 256 / 256 / 256 % 256) as u8,
        (v / 256 / 256 / 256 / 256 / 256 % 256) as u8,
        (v / 256 / 256 / 256 / 256 / 256 / 256 % 256) as u8,
        (v / 256 / 256 / 256 / 256 / 256 / 256 / 256 % 256) as u8,
    ]
}

/// The two's complement of `v` in 32 bits, as an unsigned number.
pub open spec fn i32_bits(v: i32) -> u32 {
    if v >= 0 {
        v as u32
    } else {
        (v + 0x1_0000_0000) as u32
    }
}

/// The signed number whose two's complement in 32 bits is `u`.
pub open spec fn i32_of_bits(u: u32) -> i32 {
    if u < 0x8000_0000 {
        u as i32
    } else {
        (u - 0x1_0000_0000) as i32
    }
}

/// The four bytes of `v` in two's complement, least significant first.
pub open spec fn i32_le(v: i32) -> Seq<u8> {
    u32_le(i32_bits(v))
}

/// The unsigned number that the four bytes of `b` from `at` on spell.
pub open spec fn u32_at(b: Seq<u8>, at: int) -> u32
    recommends
        0 <= at,
        at + 4 <= b.len(),
{
    (b[at] + 256 * (b[at + 1] + 256 * (b[at + 2] + 256 * b[at + 3]))) as u32
}

/// The unsigned number that the eight bytes of `b` from `at` on spell.
pub open spec fn u64_at(b: Seq<u8>, at: int) -> u64
    recommends
        0 <= at,
        at + 8 <= b.len(),
{
    (b[at] + 256 * (b[at + 1] + 256 * (b[at + 2] + 256 * (b[at + 3] + 256 * (b[at + 4] + 256 * (b[at
        + 5] + 256 * (b[at + 6] + 256 * b[at + 7]))))))) as u64
}

/// The signed number that the four bytes of `b` from `at` on spell.
pub open spec fn i32_at(b: Seq<u8>, at: int) -> i32
    recommends
        0 <= at,
        at + 4 <= b.len(),
{
    i32_of_bits(u32_at(b, at))
}

/// Appends the four bytes of `v`.
pub fn push_u32(out: &mut Vec<u8>, v: u32)
    ensures
        final(out)@ == old(out)@ + u32_le(v),
{
    out.push((v % 256) as u8);
    out.push((v / 256 % 256) as u8);
    out.push((v / 256 / 256 % 256) as u8);
    out.push((v / 256 / 256 / 256 % 256) as u8);
    assert(out@ =~= old(out)@ + u32_le(v));
}

/// Appends the eight bytes of `v`.
pub fn push_u64(out: &mut Vec<u8>, v: u64)
    ensures
        final(out)@ == old(out)@ + u64_le(v),
{
    out.push((v % 256) as u8);
    out.push((v / 256 % 256) as u8);
    out.push((v / 256 / 256 % 256) as u8);
    out.push((v / 256 / 256 / 256 % 256) as u8);
    out.push((v / 256 / 256 / 256 / 256 % 256) as u8);
    out.push((v / 256 / 256 / 256 / 256 / 256 % 256) as u8);
    out.push((v / 256 / 256 / 256 / 256 / 256 / 256 % 256) as u8);
    out.push((v / 256 / 256 / 256 / 256 / 256 / 256 / 256 % 256) as u8);
    assert(out@ =~= old(out)@ + u64_le(v));
}

/// Appends the four bytes of `v`.
pub fn push_i32(out: &mut Vec<u8>, v: i32)
    ensures
        final(out)@ == old(out)@ + i32_le(v),
{
    let bits: u32 = if v >= 0 {
        v as u32
    } else {
        (v as i64 + 0x1_0000_0000) as u32
    };
    push_u32(out, bits);
}

/// Reads four bytes from `at` on as an unsigned number.
pub fn read_u32(b: &[u8], at: usize) -> (v: u32)
    requires
        at + 4 <= b@.len(),
    ensures
        v == u32_at(b@, at as int),
{
    let b0: u32 = b[at] as u32;
    let b1: u32 = b[at + 1] as u32;
    let b2: u32 = b[at + 2] as u32;
    let b3: u32 = b[at + 3] as u32;
    b0 + 256 * (b1 + 256 * (b2 + 256 * b3))
}

/// Reads eight bytes from `at` on as an unsigned number.
pub fn read_u64(b: &[u8], at: usize) -> (v: u64)
    requires
        at + 8 <= b@.len(),
    ensures
        v == u64_at(b@, at as int),
{
    let b0: u64 = b[at] as u64;
    let b1: u64 = b[at + 1] as u64;
    let b2: u64 = b[at + 2] as u64;
    let b3: u64 = b[at + 3] as u64;
    let b4: u64 = b[at + 4] as u64;
    let b5: u64 = b[at + 5] as u64;
    let b6: u64 = b[at + 6] as u64;
    let b7: u64 = b[at + 7] as u64;
    b0 + 256 * (b1 + 256 * (b2 + 256 * (b3 + 256 * (b4 + 256 * (b5 + 256 * (b6 + 256 * b7))))))
}

/// Reads four bytes from `at` on as a signed number.
pub fn read_i32(b: &[u8], at: usize) -> (v: i32)
    requires
        at + 4 <= b@.len(),
    ensures
        v == i32_at(b@, at as int),
{
    let bits: u32 = read_u32(b, at);
    if bits < 0x8000_0000 {
        bits as i32
    } else {
        (bits as i64 - 0x1_0000_0000) as i32
    }
}

/// Four bytes that were written for `v` read back as `v`.
pub proof fn lemma_u32_reads_back(b: Seq<u8>, at: int, v: u32)
    requires
        0 <= at,
        at + 4 <= b.len(),
        b.subrange(at, at + 4) == u32_le(v),
    ensures
        u32_at(b, at) == v,
{
    let w = b.subrange(at, at + 4);
    assert(b[at] == w[0] && b[at + 1] == w[1] && b[at + 2] == w[2] && b[at + 3] == w[3]);
}

/// Eight bytes that were written for `v` read back as `v`.
pub proof fn lemma_u64_reads_back(b: Seq<u8>, at: int, v: u64)
    requires
        0 <= at,
        at + 8 <= b.len(),
        b.subrange(at, at + 8) == u64_le(v),
    ensures
        u64_at(b, at) == v,
{
    let w = b.subrange(at, at + 8);
    assert(b[at] == w[0] && b[at + 1] == w[1] && b[at + 2] == w[2] && b[at + 3] == w[3]);
    assert(b[at + 4] == w[4] && b[at + 5] == w[5] && b[at + 6] == w[6] && b[at + 7] == w[7]);
}

/// Four bytes that were written for the signed `v` read back as `v`.
pub proof fn lemma_i32_reads_back(b: Seq<u8>, at: int, v: i32)
    requires
        0 <= at,
        at + 4 <= b.len(),
        b.subrange(at, at + 4) == i32_le(v),
    ensures
        i32_at(b, at) == v,
{
    lemma_u32_reads_back(b, at, i32_bits(v));
}

/// Four bytes spell the number whose four bytes they are.
pub proof fn lemma_u32_writes_back(b: Seq<u8>, at: int)
    requires
        0 <= at,
        at + 4 <= b.len(),
    ensures
        u32_le(u32_at(b, at)) == b.subrange(at, at + 4),
{
    assert(u32_le(u32_at(b, at)) =~= b.subrange(at, at + 4));
}

/// A digit below 256 and the rest above it come apart again.
proof fn lemma_digit(d: int, rest: int)
    requires
        0 <= d < 256,
        0 <= rest,
    ensures
        (d + 256 * rest) % 256 == d,
        (d + 256 * rest) / 256 == rest,
{
}

/// Eight bytes spell the number whose eight bytes they are.
pub proof fn lemma_u64_writes_back(b: Seq<u8>, at: int)
    requires
        0 <= at,
        at + 8 <= b.len(),
    ensures
        u64_le(u64_at(b, at)) == b.subrange(at, at + 8),
{
    let r7: int = b[at + 7] as int;
    let r6: int = b[at + 6] + 256 * r7;
    let r5: int = b[at + 5] + 256 * r6;
    let r4: int = b[at + 4] + 256 * r5;
    let r3: int = b[at + 3] + 256 * r4;
    let r2: int = b[at + 2] + 256 * r3;
    let r1: int = b[at + 1] + 256 * r2;
    let r0: int = b[at] + 256 * r1;
    lemma_digit(b[at + 6] as int, r7);
    lemma_digit(b[at + 5] as int, r6);
    lemma_digit(b[at + 4] as int, r5);
    lemma_digit(b[at + 3] as int, r4);
    lemma_digit(b[at + 2] as int, r3);
    lemma_digit(b[at + 1] as int, r2);
    lemma_digit(b[at] as int, r1);
    assert(r0 <= u64::MAX);
    let v = u64_at(b, at);
    assert(v == r0);
    assert(v / 256 == r1);
    assert(v / 256 / 256 == r2);
    assert(v / 256 / 256 / 256 == r3);
    assert(v / 256 / 256 / 256 / 256 == r4);
    assert(v / 256 / 256 / 256 / 256 / 256 == r5);
    assert(v / 256 / 256 / 256 / 256 / 256 / 256 == r6);
    assert(v / 256 / 256 / 256 / 256 / 256 / 256 / 256 == r7);
    assert(u64_le(v) =~= b.subrange(at, at + 8));
}

/// Four bytes spell the signed number whose four bytes they are.
pub proof fn lemma_i32_writes_back(b: Seq<u8>, at: int)
    requires
        0 <= at,
        at + 4 <= b.len(),
    ensures
        i32_le(i32_at(b, at)) == b.subrange(at, at + 4),
{
    lemma_u32_writes_back(b, at);
    assert(i32_bits(i32_of_bits(u32_at(b, at))) == u32_at(b, at));
}

} // verus!
