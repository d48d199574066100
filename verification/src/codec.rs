//! Little-endian integers inside byte sequences.
//!
//! The model is arithmetic: a little-endian integer is the sum of its bytes,
//! each weighted by a power of 256. The executable readers and writers use
//! shifts and masks and are proved equal to that model.

use vstd::prelude::*;

verus! {

/// The 16-bit little-endian integer stored at `at`.
pub open spec fn le_u16(s: Seq<u8>, at: int) -> int {
    s[at] as int + 0x100 * (s[at + 1] as int)
}

/// The 32-bit little-endian integer stored at `at`.
pub open spec fn le_u32(s: Seq<u8>, at: int) -> int {
    le_u16(s, at) + 0x1_0000 * le_u16(s, at + 2)
}

/// The 64-bit little-endian integer stored at `at`.
pub open spec fn le_u64(s: Seq<u8>, at: int) -> int {
    le_u32(s, at) + 0x1_0000_0000 * le_u32(s, at + 4)
}

/// The two bytes of `v`, least significant first.
#[verifier::opaque]
pub open spec fn u16_le(v: u16) -> Seq<u8> {
    seq![(v % 0x100) as u8, (v / 0x100) as u8]
}

/// The four bytes of `v`, least significant first.
#[verifier::opaque]
pub open spec fn u32_le(v: u32) -> Seq<u8> {
    u16_le((v % 0x1_0000) as u16) + u16_le((v / 0x1_0000) as u16)
}

/// The eight bytes of `v`, least significant first.
#[verifier::opaque]
pub open spec fn u64_le(v: u64) -> Seq<u8> {
    u32_le((v % 0x1_0000_0000) as u32) + u32_le((v / 0x1_0000_0000) as u32)
}

/// A 16-bit integer is read back from its own bytes.
pub proof fn lemma_u16_round_trip(v: u16)
    ensures
        u16_le(v).len() == 2,
        le_u16(u16_le(v), 0) == v,
{
    reveal(u16_le);
}

/// A 32-bit integer is read back from its own bytes.
pub proof fn lemma_u32_round_trip(v: u32)
    ensures
        u32_le(v).len() == 4,
        le_u32(u32_le(v), 0) == v,
{
    reveal(u32_le);
    let lo = (v % 0x1_0000) as u16;
    let hi = (v / 0x1_0000) as u16;
    lemma_u16_round_trip(lo);
    lemma_u16_round_trip(hi);
    let s = u32_le(v);
    assert(s[0] == u16_le(lo)[0] && s[1] == u16_le(lo)[1]);
    assert(s[2] == u16_le(hi)[0] && s[3] == u16_le(hi)[1]);
}

/// A 64-bit integer is read back from its own bytes.
pub proof fn lemma_u64_round_trip(v: u64)
    ensures
        u64_le(v).len() == 8,
        le_u64(u64_le(v), 0) == v,
{
    reveal(u64_le);
    let lo = (v % 0x1_0000_0000) as u32;
    let hi = (v / 0x1_0000_0000) as u32;
    lemma_u32_round_trip(lo);
    lemma_u32_round_trip(hi);
    let s = u64_le(v);
    let a = u32_le(lo);
    let b = u32_le(hi);
    assert(s[0] == a[0] && s[1] == a[1] && s[2] == a[2] && s[3] == a[3]);
    assert(s[4] == b[0] && s[5] == b[1] && s[6] == b[2] && s[7] == b[3]);
}

/// Where the two bytes at `at` are those of `v`, `v` is read there.
pub proof fn lemma_u16_placed(s: Seq<u8>, at: int, v: u16)
    requires
        0 <= at,
        at + 2 <= s.len(),
        s.subrange(at, at + 2) == u16_le(v),
    ensures
        le_u16(s, at) == v,
{
    let w = s.subrange(at, at + 2);
    assert(w[0] == s[at] && w[1] == s[at + 1]);
    lemma_u16_round_trip(v);
}

/// Where the four bytes at `at` are those of `v`, `v` is read there.
pub proof fn lemma_u32_placed(s: Seq<u8>, at: int, v: u32)
    requires
        0 <= at,
        at + 4 <= s.len(),
        s.subrange(at, at + 4) == u32_le(v),
    ensures
        le_u32(s, at) == v,
{
    let w = s.subrange(at, at + 4);
    assert(w[0] == s[at] && w[1] == s[at + 1] && w[2] == s[at + 2] && w[3] == s[at + 3]);
    lemma_u32_round_trip(v);
}

/// Where the eight bytes at `at` are those of `v`, `v` is read there.
pub proof fn lemma_u64_placed(s: Seq<u8>, at: int, v: u64)
    requires
        0 <= at,
        at + 8 <= s.len(),
        s.subrange(at, at + 8) == u64_le(v),
    ensures
        le_u64(s, at) == v,
{
    let w = s.subrange(at, at + 8);
    assert(w[0] == s[at] && w[1] == s[at + 1] && w[2] == s[at + 2] && w[3] == s[at + 3]);
    assert(w[4] == s[at + 4] && w[5] == s[at + 5] && w[6] == s[at + 6] && w[7] == s[at + 7]);
    lemma_u64_round_trip(v);
}

/// Reads the 16-bit little-endian integer at `at`.
pub fn read_u16(data: &Vec<u8>, at: usize) -> (v: u16)
    requires
        at + 2 <= data.len(),
    ensures
        v == le_u16(data@, at as int),
{
    let b0: u16 = data[at] as u16;
    let b1: u16 = data[at + 1] as u16;
    assert(b0 | (b1 << 8) == b0 + 0x100 * b1) by (bit_vector)
        requires
            b0 < 0x100,
            b1 < 0x100,
    ;
    b0 | (b1 << 8)
}

/// Reads the 32-bit little-endian integer at `at`.
pub fn read_u32(data: &Vec<u8>, at: usize) -> (v: u32)
    requires
        at + 4 <= data.len(),
    ensures
        v == le_u32(data@, at as int),
{
    let lo: u32 = read_u16(data, at) as u32;
    let hi: u32 = read_u16(data, at + 2) as u32;
    assert(lo | (hi << 16) == lo + 0x1_0000 * hi) by (bit_vector)
        requires
            lo < 0x1_0000,
            hi < 0x1_0000,
    ;
    lo | (hi << 16)
}

/// Reads the 64-bit little-endian integer at `at`.
pub fn read_u64(data: &Vec<u8>, at: usize) -> (v: u64)
    requires
        at + 8 <= data.len(),
    ensures
        v == le_u64(data@, at as int),
{
    let lo: u64 = read_u32(data, at) as u64;
    let hi: u64 = read_u32(data, at + 4) as u64;
    assert(lo | (hi << 32) == lo + 0x1_0000_0000 * hi) by (bit_vector)
        requires
            lo < 0x1_0000_0000,
            hi < 0x1_0000_0000,
    ;
    lo | (hi << 32)
}

/// Appends the two bytes of `v`, least significant first.
pub fn write_u16(out: &mut Vec<u8>, v: u16)
    ensures
        final(out)@ == old(out)@ + u16_le(v),
{
    reveal(u16_le);
    assert(v & 0xff == v % 0x100 && v >> 8 == v / 0x100) by (bit_vector);
    out.push((v & 0xff) as u8);
    out.push((v >> 8) as u8);
    assert(out@ =~= old(out)@ + u16_le(v));
}

/// Appends the four bytes of `v`, least significant first.
pub fn write_u32(out: &mut Vec<u8>, v: u32)
    ensures
        final(out)@ == old(out)@ + u32_le(v),
{
    reveal(u32_le);
    assert(v & 0xffff == v % 0x1_0000 && v >> 16 == v / 0x1_0000) by (bit_vector);
    write_u16(out, (v & 0xffff) as u16);
    write_u16(out, (v >> 16) as u16);
    assert(out@ =~= old(out)@ + u32_le(v));
}

/// Appends the eight bytes of `v`, least significant first.
pub fn write_u64(out: &mut Vec<u8>, v: u64)
    ensures
        final(out)@ == old(out)@ + u64_le(v),
{
    reveal(u64_le);
    assert(v & 0xffff_ffff == v % 0x1_0000_0000 && v >> 32 == v / 0x1_0000_0000) by (bit_vector);
    write_u32(out, (v & 0xffff_ffff) as u32);
    write_u32(out, (v >> 32) as u32);
    assert(out@ =~= old(out)@ + u64_le(v));
}

} // verus!
