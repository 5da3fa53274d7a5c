//! Reading fixed-width integers out of raw frame bytes.
//!
//! Multi-byte fields of the in-memory structures are read in little-endian
//! order, the native order of the targets the firewall runs on; wire fields
//! that the logic interprets are converted from network (big-endian) order.
use vstd::prelude::*;

verus! {

/// The 16-bit value of `s[i..i + 2]` read in little-endian order.
pub open spec fn spec_le_u16(s: Seq<u8>, i: int) -> int {
    s[i] + 256 * s[i + 1]
}

/// The 16-bit value of `s[i..i + 2]` read in big-endian (network) order.
pub open spec fn spec_be_u16(s: Seq<u8>, i: int) -> int {
    256 * s[i] + s[i + 1]
}

/// The 32-bit value of `s[i..i + 4]` read in little-endian order.
pub open spec fn spec_le_u32(s: Seq<u8>, i: int) -> int {
    s[i] + 256 * s[i + 1] + 65536 * s[i + 2] + 16777216 * s[i + 3]
}

/// The 64-bit value of `s[i..i + 8]` read in little-endian order.
pub open spec fn spec_le_u64(s: Seq<u8>, i: int) -> int {
    spec_le_u32(s, i) + 4294967296 * spec_le_u32(s, i + 4)
}

pub fn read_le_u16(s: &[u8], i: usize) -> (r: u16)
    requires
        i + 2 <= s.len(),
    ensures
        r == spec_le_u16(s@, i as int),
{
    s[i] as u16 + (s[i + 1] as u16) * 256
}

pub fn read_le_u32(s: &[u8], i: usize) -> (r: u32)
    requires
        i + 4 <= s.len(),
    ensures
        r == spec_le_u32(s@, i as int),
{
    s[i] as u32 + (s[i + 1] as u32) * 256 + (s[i + 2] as u32) * 65536 + (s[i + 3] as u32)
        * 16777216
}

pub fn read_le_u64(s: &[u8], i: usize) -> (r: u64)
    requires
        i + 8 <= s.len(),
    ensures
        r == spec_le_u64(s@, i as int),
{
    let lo = read_le_u32(s, i) as u64;
    let hi = read_le_u32(s, i + 4) as u64;
    lo + hi * 4294967296
}

/// `u16::from_be` on a little-endian host: swaps the two bytes of `v`.
pub fn u16_from_be(v: u16) -> (r: u16)
    ensures
        r == (v % 256) * 256 + v / 256,
{
    (v % 256) * 256 + v / 256
}

/// Reading a little-endian field and converting it from network order gives
/// the big-endian reading of the same two bytes.
pub proof fn lemma_from_be_of_le(s: Seq<u8>, i: int)
    requires
        0 <= i,
        i + 2 <= s.len(),
    ensures
        (spec_le_u16(s, i) % 256) * 256 + spec_le_u16(s, i) / 256 == spec_be_u16(s, i),
{
    let b0 = s[i] as int;
    let b1 = s[i + 1] as int;
    assert(0 <= b0 < 256 && 0 <= b1 < 256);
    vstd::arithmetic::div_mod::lemma_fundamental_div_mod_converse(b0 + 256 * b1, 256, b1, b0);
}

} // verus!
