//! What the user-space controller computes from the reputation table it
//! reads back from the kernel: the decoded records and the status counts.
use vstd::prelude::*;
use crate::bytes::{read_le_u64, spec_le_u64};

verus! {

/// Size of a raw reputation value as the controller reads it.
pub const RAW_RECORD_LEN: usize = 24;

/// The part of a reputation value the controller looks at.
#[derive(Clone, Copy, Debug, PartialEq, Eq, Structural)]
pub struct ReputationRecord {
    pub ban_until: u64,
}

/// Decodes a raw value laid out as the shared reputation record (`balance`
/// at 0, padding at 4, `ban_until` at 8, `last_updated` at 16, little-endian):
/// `ban_until` is read from bytes 8..16.
pub fn bytes_to_record(bytes: &[u8; 24]) -> (r: ReputationRecord)
    ensures
        r.ban_until == spec_le_u64(bytes@, 8),
{
    let ban_until = read_le_u64(bytes.as_slice(), 8);
    ReputationRecord { ban_until }
}

/// The largest `ban_until` among the per-CPU values of one table entry, 0
/// when there are none.
pub open spec fn spec_entry_ban_until(cpus: Seq<[u8; 24]>) -> int
    decreases cpus.len(),
{
    if cpus.len() == 0 {
        0
    } else {
        let rest = spec_entry_ban_until(cpus.drop_last());
        let last = spec_le_u64(cpus.last()@, 8);
        if last > rest {
            last
        } else {
            rest
        }
    }
}

/// Number of entries among the first `n` whose largest `ban_until` is non-zero.
pub open spec fn spec_count_banned(entries: Seq<Vec<[u8; 24]>>, n: int) -> nat
    decreases n,
{
    if n <= 0 {
        0
    } else {
        spec_count_banned(entries, n - 1) + if spec_entry_ban_until(entries[n - 1]@) > 0 {
            1nat
        } else {
            0nat
        }
    }
}

/// The status line figures: how many sources the table tracks, and how many
/// of them carry a ban.
#[derive(Clone, Copy, Debug, PartialEq, Eq, Structural)]
pub struct ReputationStatus {
    pub sources: usize,
    pub banned: usize,
}

/// The largest `ban_until` among the per-CPU values of one entry.
pub fn entry_ban_until(cpus: &Vec<[u8; 24]>) -> (r: u64)
    ensures
        r == spec_entry_ban_until(cpus@),
{
    let mut best: u64 = 0;
    let mut i: usize = 0;
    while i < cpus.len()
        invariant
            i <= cpus@.len(),
            best == spec_entry_ban_until(cpus@.subrange(0, i as int)),
        decreases cpus@.len() - i,
    {
        let rec = bytes_to_record(&cpus[i]);
        proof {
            let next = cpus@.subrange(0, i + 1);
            assert(next.drop_last() =~= cpus@.subrange(0, i as int));
            assert(next.last() == cpus@[i as int]);
        }
        if rec.ban_until > best {
            best = rec.ban_until;
        }
        i = i + 1;
    }
    assert(cpus@.subrange(0, cpus@.len() as int) =~= cpus@);
    best
}

/// Counts the entries of the table and those whose largest `ban_until` is
/// non-zero; each entry holds the values of all CPUs for one source.
pub fn summarize_reputation(entries: &Vec<Vec<[u8; 24]>>) -> (r: ReputationStatus)
    ensures
        r.sources == entries@.len(),
        r.banned == spec_count_banned(entries@, entries@.len() as int),
{
    let mut banned: usize = 0;
    let mut i: usize = 0;
    while i < entries.len()
        invariant
            i <= entries@.len(),
            banned == spec_count_banned(entries@, i as int),
            banned <= i,
        decreases entries@.len() - i,
    {
        if entry_ban_until(&entries[i]) > 0 {
            banned = banned + 1;
        }
        i = i + 1;
    }
    ReputationStatus { sources: entries.len(), banned }
}

/// The banned count never exceeds the sources count.
pub proof fn lemma_banned_at_most_tracked(entries: Seq<Vec<[u8; 24]>>, n: int)
    requires
        0 <= n,
    ensures
        spec_count_banned(entries, n) <= n,
    decreases n,
{
    if n > 0 {
        lemma_banned_at_most_tracked(entries, n - 1);
    }
}

} // verus!
