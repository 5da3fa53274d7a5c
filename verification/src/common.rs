//! Records shared between the kernel-side program and user space.
use vstd::prelude::*;
use crate::bytes::{read_le_u32, spec_le_u32};

verus! {

/// Size in bytes of the in-memory layout of a [`FilterEntry`]: a `u32`
/// address, a `u8` action and three bytes of padding.
pub const FILTER_ENTRY_SIZE: usize = 8;

/// One entry of an address filter: an IPv4 address and the action to take.
#[derive(Clone, Copy, Debug, Default, PartialEq, Eq, Structural)]
pub struct FilterEntry {
    pub ip_addr: u32,
    pub action: u8,
}

/// The per-source reputation record kept by the firewall.
#[derive(Clone, Copy, Debug, Default, PartialEq, Eq, Structural)]
pub struct ReputationRecord {
    pub balance: u32,
    pub _padding: u32,
    /// Time (in nanoseconds of the kernel clock) until which the source is banned.
    pub ban_until: u64,
    pub last_updated: u64,
}

/// The serialized form of `e`: the address in little-endian order, the
/// action, and zeroed padding.
pub open spec fn spec_filter_entry_bytes(e: FilterEntry) -> Seq<u8> {
    seq![
        (e.ip_addr % 256) as u8,
        ((e.ip_addr / 256) % 256) as u8,
        ((e.ip_addr / 65536) % 256) as u8,
        (e.ip_addr / 16777216) as u8,
        e.action,
        0u8,
        0u8,
        0u8,
    ]
}

impl FilterEntry {
    /// Reads an entry from the start of `bytes`; `None` when fewer than
    /// [`FILTER_ENTRY_SIZE`] bytes are given. Bytes past the entry are ignored.
    pub fn from_bytes(bytes: &[u8]) -> (r: Option<FilterEntry>)
        ensures
            r is Some <==> bytes@.len() >= FILTER_ENTRY_SIZE,
            r matches Some(e) ==> e.ip_addr == spec_le_u32(bytes@, 0) && e.action == bytes@[4],
    {
        if bytes.len() < FILTER_ENTRY_SIZE {
            return None;
        }
        Some(FilterEntry { ip_addr: read_le_u32(bytes, 0), action: bytes[4] })
    }

    /// The [`FILTER_ENTRY_SIZE`] bytes of the entry's in-memory layout.
    pub fn as_bytes(&self) -> (r: [u8; 8])
        ensures
            r@ == spec_filter_entry_bytes(*self),
    {
        let ip = self.ip_addr;
        let r: [u8; 8] = [
            (ip % 256) as u8,
            ((ip / 256) % 256) as u8,
            ((ip / 65536) % 256) as u8,
            (ip / 16777216) as u8,
            self.action,
            0u8,
            0u8,
            0u8,
        ];
        assert(r@ =~= spec_filter_entry_bytes(*self));
        r
    }
}

/// Decoding the serialized form of an entry gives the entry back.
pub proof fn lemma_filter_entry_round_trip(e: FilterEntry)
    ensures
        spec_le_u32(spec_filter_entry_bytes(e), 0) == e.ip_addr,
        spec_filter_entry_bytes(e)[4] == e.action,
        spec_filter_entry_bytes(e).len() == FILTER_ENTRY_SIZE,
{
    let x = e.ip_addr as int;
    let s = spec_filter_entry_bytes(e);
    assert(x == x % 256 + 256 * ((x / 256) % 256) + 65536 * ((x / 65536) % 256) + 16777216 * (x
        / 16777216)) by (nonlinear_arith)
        requires
            0 <= x < 4294967296,
    {
        vstd::arithmetic::div_mod::lemma_fundamental_div_mod(x, 256);
        vstd::arithmetic::div_mod::lemma_fundamental_div_mod(x / 256, 256);
        vstd::arithmetic::div_mod::lemma_fundamental_div_mod(x / 65536, 256);
        vstd::arithmetic::div_mod::lemma_div_denominator(x, 256, 256);
        vstd::arithmetic::div_mod::lemma_div_denominator(x, 65536, 256);
    }
    assert(s[0] == x % 256);
    assert(s[1] == (x / 256) % 256);
    assert(s[2] == (x / 65536) % 256);
    assert(s[3] == x / 16777216);
}

} // verus!
