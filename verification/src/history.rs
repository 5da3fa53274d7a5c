//! The dashboard's history of blocked frames: the instants at which blocks
//! were recorded, pruned to the last hour.
use vstd::prelude::*;

verus! {

/// Nanoseconds in one hour.
pub const HOUR_NS: i128 = 3_600_000_000_000;

/// Nanoseconds in one second.
pub const SECOND_NS: i128 = 1_000_000_000;

/// The system clock read with `std::time::SystemTime::now` and converted by
/// chrono's `From<SystemTime> for DateTime<Utc>`, as whole seconds since the
/// Unix epoch (`DateTime::timestamp`) and the nanoseconds past that second
/// (`DateTime::timestamp_subsec_nanos`). The conversion handles clocks set
/// before the epoch. The result depends on the clock; all that is claimed is
/// that the sub-second part is below one second, which holds of both branches
/// of the conversion (`Duration::subsec_nanos`, or one second minus it when
/// that is non-zero).
#[verifier::external_body]
fn utc_now() -> (r: (i64, u32))
    ensures
        r.1 < 1_000_000_000,
{
    let t = chrono::DateTime::<chrono::Utc>::from(std::time::SystemTime::now());
    (t.timestamp(), t.timestamp_subsec_nanos())
}

/// `t` is an instant the clock can give: whole seconds that fit an `i64`,
/// plus less than one second.
pub open spec fn spec_clock_instant(t: i128) -> bool {
    i64::MIN * SECOND_NS <= t <= i64::MAX * SECOND_NS + SECOND_NS
}

/// The current time in nanoseconds since the Unix epoch.
fn now_ns() -> (r: i128)
    ensures
        spec_clock_instant(r),
{
    let (secs, nanos) = utc_now();
    secs as i128 * SECOND_NS + nanos as i128
}

/// Instants (nanoseconds since the Unix epoch) at which blocks were recorded,
/// oldest first.
pub struct BlockHistory {
    pub timestamps: Vec<i128>,
}

/// The instants of `ts` that are later than one hour before `now`, in order.
pub open spec fn spec_recent(ts: Seq<i128>, now: i128) -> Seq<i128> {
    ts.filter(|t: i128| spec_is_recent(t, now))
}

/// `t` lies less than one hour before `now` (or after it).
pub open spec fn spec_is_recent(t: i128, now: i128) -> bool {
    t > now - HOUR_NS
}

impl BlockHistory {
    /// An empty history.
    pub fn new() -> (r: BlockHistory)
        ensures
            r.timestamps@ == Seq::<i128>::empty(),
    {
        BlockHistory { timestamps: Vec::new() }
    }

    /// Records a block at instant `t`.
    pub fn push_block_at(&mut self, t: i128)
        ensures
            final(self).timestamps@ == old(self).timestamps@.push(t),
    {
        self.timestamps.push(t);
    }

    /// Records a block now.
    pub fn push_block(&mut self)
        ensures
            final(self).timestamps@.len() == old(self).timestamps@.len() + 1,
            final(self).timestamps@.drop_last() == old(self).timestamps@,
            spec_clock_instant(final(self).timestamps@.last()),
    {
        let t = now_ns();
        self.push_block_at(t);
    }

    /// Forgets the blocks recorded one hour or more before `now`.
    pub fn clean_expired_blocks_at(&mut self, now: i128)
        requires
            i128::MIN + HOUR_NS <= now,
        ensures
            final(self).timestamps@ == spec_recent(old(self).timestamps@, now),
    {
        let one_hour_ago = now - HOUR_NS;
        let mut kept: Vec<i128> = Vec::new();
        let mut i: usize = 0;
        while i < self.timestamps.len()
            invariant
                i <= self.timestamps@.len(),
                one_hour_ago == now - HOUR_NS,
                kept@ == spec_recent(self.timestamps@.take(i as int), now),
            decreases self.timestamps@.len() - i,
        {
            let t = self.timestamps[i];
            let ghost prefix = self.timestamps@.take(i + 1);
            proof {
                assert(prefix.drop_last() =~= self.timestamps@.take(i as int));
                assert(prefix.last() == t);
            }
            let ghost before = kept@;
            if t > one_hour_ago {
                kept.push(t);
            }
            proof {
                let f = |x: i128| spec_is_recent(x, now);
                reveal_with_fuel(Seq::<_>::filter, 1);
                assert(spec_recent(prefix, now) == prefix.filter(f));
                assert(prefix.filter(f) == if f(prefix.last()) {
                    prefix.drop_last().filter(f).push(prefix.last())
                } else {
                    prefix.drop_last().filter(f)
                });
                assert(before == prefix.drop_last().filter(f));
            }
            assert(kept@ == spec_recent(prefix, now));
            i = i + 1;
        }
        assert(self.timestamps@.take(self.timestamps@.len() as int) =~= self.timestamps@);
        self.timestamps = kept;
    }

    /// Forgets the blocks recorded one hour or more ago.
    pub fn clean_expired_blocks(&mut self)
        ensures
            exists|now: i128|
                spec_clock_instant(now) && final(self).timestamps@ == spec_recent(
                    old(self).timestamps@,
                    now,
                ),
    {
        let now = now_ns();
        self.clean_expired_blocks_at(now);
    }

    /// Number of recorded blocks (after pruning, those of the last hour).
    pub fn count_last_hour(&self) -> (r: usize)
        ensures
            r == self.timestamps@.len(),
    {
        self.timestamps.len()
    }
}

} // verus!
