//! Little-endian reads and the cursor that the binary formats are parsed with.

use vstd::prelude::*;

verus! {

/// The little-endian 32-bit number at `at`.
pub open spec fn le_u32(s: Seq<u8>, at: int) -> u32 {
    (s[at] + 0x100 * s[at + 1] + 0x1_0000 * s[at + 2] + 0x100_0000 * s[at + 3]) as u32
}

/// The little-endian 32-bit numbers of `s` from `at` on, `count` of them.
pub open spec fn le_u32_run(s: Seq<u8>, at: int, count: nat) -> Seq<u32> {
    Seq::new(count, |i: int| le_u32(s, at + 4 * i))
}

pub fn le_u32_at(bytes: &[u8], at: usize) -> (r: u32)
    requires
        at + 4 <= bytes@.len(),
    ensures
        r == le_u32(bytes@, at as int),
{
    bytes[at] as u32 + 0x100 * (bytes[at + 1] as u32) + 0x1_0000 * (bytes[at + 2] as u32)
        + 0x100_0000 * (bytes[at + 3] as u32)
}

/// Reads `count` consecutive little-endian 32-bit numbers.
pub fn le_u32_vec(bytes: &[u8], at: usize, count: usize) -> (r: Vec<u32>)
    requires
        at + 4 * count <= bytes@.len(),
    ensures
        r@ == le_u32_run(bytes@, at as int, count as nat),
{
    let total: usize = bytes.len();
    let mut out: Vec<u32> = Vec::new();
    for i in 0..count
        invariant
            at + 4 * count <= bytes@.len(),
            bytes@.len() == total,
            out@.len() == i,
            forall|k: int| 0 <= k < i ==> out@[k] == le_u32(bytes@, at + 4 * k),
    {
        out.push(le_u32_at(bytes, at + 4 * i));
    }
    out
}

/// The four bytes at the start of a payload are `a b c d`.
pub open spec fn starts_with4(s: Seq<u8>, a: u8, b: u8, c: u8, d: u8) -> bool {
    s.len() >= 4 && s[0] == a && s[1] == b && s[2] == c && s[3] == d
}

/// The little-endian 16-bit number at `at`.
pub open spec fn le_u16(s: Seq<u8>, at: int) -> u16 {
    (s[at] + 0x100 * s[at + 1]) as u16
}

pub fn le_u16_at(bytes: &[u8], at: usize) -> (r: u16)
    requires
        at + 2 <= bytes@.len(),
    ensures
        r == le_u16(bytes@, at as int),
{
    bytes[at] as u16 + 0x100 * (bytes[at + 1] as u16)
}

/// The little-endian 64-bit number at `at`.
pub open spec fn le_u64(s: Seq<u8>, at: int) -> u64 {
    (le_u32(s, at) + 0x1_0000_0000 * le_u32(s, at + 4)) as u64
}

pub fn le_u64_at(bytes: &[u8], at: usize) -> (r: u64)
    requires
        at + 8 <= bytes@.len(),
    ensures
        r == le_u64(bytes@, at as int),
{
    let total: usize = bytes.len();
    assert(at + 8 <= total);
    le_u32_at(bytes, at) as u64 + 0x1_0000_0000 * (le_u32_at(bytes, at + 4) as u64)
}

/// The four bytes of a 32-bit number, the lowest first.
pub open spec fn le_bytes(v: u32) -> Seq<u8> {
    seq![
        (v % 0x100) as u8,
        (v / 0x100 % 0x100) as u8,
        (v / 0x1_0000 % 0x100) as u8,
        (v / 0x100_0000) as u8,
    ]
}

/// Appends the bytes of a 32-bit number.
pub fn push_le_u32(out: &mut Vec<u8>, v: u32)
    ensures
        final(out)@ == old(out)@ + le_bytes(v),
{
    let ghost start = out@;
    out.push((v % 0x100) as u8);
    out.push((v / 0x100 % 0x100) as u8);
    out.push((v / 0x1_0000 % 0x100) as u8);
    out.push((v / 0x100_0000) as u8);
    assert(out@ =~= start + le_bytes(v));
}

/// Reading back what was written gives the number.
pub proof fn le_bytes_round_trip(v: u32)
    ensures
        le_u32(le_bytes(v), 0) == v,
{
    let b = le_bytes(v);
    assert(b[0] == v % 0x100);
    assert(b[1] == v / 0x100 % 0x100);
    assert(b[2] == v / 0x1_0000 % 0x100);
    assert(b[3] == v / 0x100_0000);
}

} // verus!
