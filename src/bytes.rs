use vstd::prelude::*;

verus! {

/// The unsigned integer stored little-endian in the four bytes of `s` at `at`.
pub open spec fn u32_le(s: Seq<u8>, at: int) -> int {
    s[at] as int + s[at + 1] as int * 0x100 + s[at + 2] as int * 0x1_0000 + s[at + 3] as int
        * 0x100_0000
}

/// The unsigned integer stored little-endian in the eight bytes of `s` at `at`.
pub open spec fn u64_le(s: Seq<u8>, at: int) -> int {
    u32_le(s, at) + u32_le(s, at + 4) * 0x1_0000_0000
}

/// The four little-endian bytes of `x`.
#[verifier::opaque]
pub open spec fn u32_bytes(x: u32) -> Seq<u8> {
    seq![
        (x % 0x100) as u8,
        (x / 0x100 % 0x100) as u8,
        (x / 0x1_0000 % 0x100) as u8,
        (x / 0x100_0000 % 0x100) as u8,
    ]
}

/// The eight little-endian bytes of `x`.
#[verifier::opaque]
pub open spec fn u64_bytes(x: u64) -> Seq<u8> {
    u32_bytes((x % 0x1_0000_0000) as u32) + u32_bytes((x / 0x1_0000_0000) as u32)
}

/// A `u32` takes four bytes and a `u64` eight.
pub proof fn lemma_bytes_len(x: u32, y: u64)
    ensures
        u32_bytes(x).len() == 4,
        u64_bytes(y).len() == 8,
{
    reveal(u32_bytes);
    reveal(u64_bytes);
}

/// Reading back the bytes of a `u32` gives the `u32`.
pub proof fn lemma_u32_round_trip(x: u32)
    ensures
        u32_le(u32_bytes(x), 0) == x,
{
    reveal(u32_bytes);
    let b0 = x % 0x100;
    let b1 = x / 0x100 % 0x100;
    let b2 = x / 0x1_0000 % 0x100;
    let b3 = x / 0x100_0000 % 0x100;
    assert(x == b0 + b1 * 0x100 + b2 * 0x1_0000 + b3 * 0x100_0000) by (nonlinear_arith)
        requires
            b0 == x % 0x100,
            b1 == x / 0x100 % 0x100,
            b2 == x / 0x1_0000 % 0x100,
            b3 == x / 0x100_0000 % 0x100,
            x < 0x1_0000_0000,
    ;
}

/// Reading back the bytes of a `u64` gives the `u64`.
pub proof fn lemma_u64_round_trip(x: u64)
    ensures
        u64_le(u64_bytes(x), 0) == x,
{
    reveal(u64_bytes);
    reveal(u32_bytes);
    let lo = (x % 0x1_0000_0000) as u32;
    let hi = (x / 0x1_0000_0000) as u32;
    lemma_u32_round_trip(lo);
    lemma_u32_round_trip(hi);
    let s = u64_bytes(x);
    assert(s.subrange(0, 4) =~= u32_bytes(lo));
    assert(s.subrange(4, 8) =~= u32_bytes(hi));
    assert(u32_le(s, 0) == u32_le(u32_bytes(lo), 0));
    assert(u32_le(s, 4) == u32_le(u32_bytes(hi), 0));
    assert(x == lo + hi * 0x1_0000_0000) by (nonlinear_arith)
        requires
            lo == x % 0x1_0000_0000,
            hi == x / 0x1_0000_0000,
    ;
}

/// Reads the little-endian `u32` at `at`.
pub fn read_u32_le(buf: &[u8], at: usize) -> (r: u32)
    requires
        at + 4 <= buf@.len(),
    ensures
        r == u32_le(buf@, at as int),
{
    buf[at] as u32 + buf[at + 1] as u32 * 0x100 + buf[at + 2] as u32 * 0x1_0000 + buf[at + 3] as u32
        * 0x100_0000
}

/// Reads the little-endian `u64` at `at`.
pub fn read_u64_le(buf: &[u8], at: usize) -> (r: u64)
    requires
        at + 8 <= buf@.len(),
    ensures
        r == u64_le(buf@, at as int),
{
    assert(buf@.len() == buf.len());
    let lo = read_u32_le(buf, at) as u64;
    let hi = read_u32_le(buf, at + 4) as u64;
    lo + hi * 0x1_0000_0000
}

/// Appends the little-endian bytes of `x`.
pub fn push_u32_le(out: &mut Vec<u8>, x: u32)
    ensures
        final(out)@ == old(out)@ + u32_bytes(x),
{
    reveal(u32_bytes);
    out.push((x % 0x100) as u8);
    out.push((x / 0x100 % 0x100) as u8);
    out.push((x / 0x1_0000 % 0x100) as u8);
    out.push((x / 0x100_0000 % 0x100) as u8);
    assert(out@ =~= old(out)@ + u32_bytes(x));
}

/// Appends the little-endian bytes of `x`.
pub fn push_u64_le(out: &mut Vec<u8>, x: u64)
    ensures
        final(out)@ == old(out)@ + u64_bytes(x),
{
    reveal(u64_bytes);
    push_u32_le(out, (x % 0x1_0000_0000) as u32);
    push_u32_le(out, (x / 0x1_0000_0000) as u32);
    assert(out@ =~= old(out)@ + u64_bytes(x));
}

} // verus!
