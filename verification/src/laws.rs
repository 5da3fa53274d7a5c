//! Properties of the firewall that span several steps or hold of every input.
use vstd::prelude::*;
use crate::common::ReputationRecord;
use crate::firewall::{
    folds_to, spec_ban_record, spec_decide, spec_inspect, spec_lookup, spec_refill,
    spec_refill_amount, spec_signature_at, spec_step, spec_store, Admission, Inspection,
    RateLimitBucket, XdpAction, BAN_DURATION_NS, MAX_TOKENS, RATE_LIMIT_MAP_CAPACITY,
    REPUTATION_MAP_CAPACITY,
};
use crate::balance::{spec_balance_step, BALANCE_MAP_CAPACITY, INITIAL_BALANCE};
use crate::history::{spec_is_recent, spec_recent};

verus! {

/// A payload frame from a source that is banned past `now` is dropped, and
/// neither its bucket nor its record changes, whatever the frame holds.
pub proof fn lemma_banned_source_dropped(
    now: u64,
    suspicious: bool,
    record: ReputationRecord,
    bucket: Option<RateLimitBucket>,
)
    requires
        now < record.ban_until,
    ensures
        spec_decide(now, suspicious, Some(record), bucket) == (Admission {
            action: XdpAction::Drop,
            bucket: None,
            ban: None,
        }),
{
}

/// A suspicious frame from a source that is not banned is dropped; if the
/// source still has a token, it is banned from `now` for the ban duration.
pub proof fn lemma_signature_bans_source(
    now: u64,
    record: Option<ReputationRecord>,
    bucket: Option<RateLimitBucket>,
)
    requires
        !(record matches Some(rec) && now < rec.ban_until),
    ensures
        spec_decide(now, true, record, bucket).action == XdpAction::Drop,
        spec_refill(
            match bucket {
                Some(b) => b,
                None => RateLimitBucket { tokens: MAX_TOKENS, _padding: 0, last_updated: now },
            },
            now,
        ).tokens > 0 ==> spec_decide(now, true, record, bucket).ban == Some(spec_ban_record(now)),
{
}

/// Once a ban issued at `t` has been stored for `src`, every payload frame
/// from `src` before `t` plus the ban duration is dropped, whatever its
/// content and whatever the source's bucket holds.
pub proof fn lemma_ban_holds_until_expiry(
    reps: Map<u32, ReputationRecord>,
    src: u32,
    t: u64,
    later: u64,
    suspicious: bool,
    bucket: Option<RateLimitBucket>,
)
    requires
        t + BAN_DURATION_NS <= u64::MAX,
        later < t + BAN_DURATION_NS,
        spec_store(reps, src, Some(spec_ban_record(t)), REPUTATION_MAP_CAPACITY as nat).contains_key(
            src,
        ),
    ensures
        spec_decide(
            later,
            suspicious,
            spec_lookup(
                spec_store(reps, src, Some(spec_ban_record(t)), REPUTATION_MAP_CAPACITY as nat),
                src,
            ),
            bucket,
        ) == (Admission { action: XdpAction::Drop, bucket: None, ban: None }),
{
    let m = spec_store(reps, src, Some(spec_ban_record(t)), REPUTATION_MAP_CAPACITY as nat);
    if !(reps.contains_key(src) || reps.len() < REPUTATION_MAP_CAPACITY) {
        assert(m == reps);
    }
    assert(m[src] == spec_ban_record(t));
}

/// A source whose bucket is empty and that has earned no token since it was
/// last credited is dropped, and its bucket is stored unchanged.
pub proof fn lemma_empty_bucket_drops(
    now: u64,
    suspicious: bool,
    record: Option<ReputationRecord>,
    b: RateLimitBucket,
)
    requires
        !(record matches Some(rec) && now < rec.ban_until),
        b.tokens == 0,
        spec_refill_amount(b, now) == 0,
    ensures
        spec_decide(now, suspicious, record, Some(b)) == (Admission {
            action: XdpAction::Drop,
            bucket: Some(b),
            ban: None,
        }),
{
}

/// Every admitted frame spends exactly one token of the (credited) bucket,
/// and no bucket the firewall stores holds more than the capacity.
pub proof fn lemma_pass_spends_one_token(
    now: u64,
    suspicious: bool,
    record: Option<ReputationRecord>,
    b: RateLimitBucket,
)
    requires
        b.tokens <= MAX_TOKENS,
    ensures
        spec_decide(now, suspicious, record, Some(b)).action == XdpAction::Pass ==> spec_decide(
            now,
            suspicious,
            record,
            Some(b),
        ).bucket == Some(
            RateLimitBucket { tokens: (spec_refill(b, now).tokens - 1) as u32, ..spec_refill(b, now) },
        ),
        spec_decide(now, suspicious, record, Some(b)).bucket matches Some(b2) ==> b2.tokens
            <= MAX_TOKENS,
{
}

/// Signature detection ignores letter case: two windows whose bytes agree
/// once case-folded either both hold a signature or neither does.
pub proof fn lemma_signature_case_insensitive(s: Seq<u8>, t: Seq<u8>, i: int, j: int)
    requires
        forall|k: int| 0 <= k < 4 ==> (#[trigger] s[i + k] | 0x20u8) == (t[j + k] | 0x20u8),
    ensures
        spec_signature_at(s, i) == spec_signature_at(t, j),
{
    assert(s[i + 0] | 0x20u8 == t[j + 0] | 0x20u8);
    assert(s[i + 1] | 0x20u8 == t[j + 1] | 0x20u8);
    assert(s[i + 2] | 0x20u8 == t[j + 2] | 0x20u8);
    assert(s[i + 3] | 0x20u8 == t[j + 3] | 0x20u8);
    assert(folds_to(s[i], 0x73u8) == folds_to(t[j], 0x73u8));
}

/// In the score-based variant, a source whose balance is spent and that is
/// not banned is dropped and banned from `now`.
pub proof fn lemma_spent_balance_bans(m: Map<u32, ReputationRecord>, src: u32, suspicious: bool, now: u64)
    requires
        m.contains_key(src),
        m[src].balance == 0,
        now >= m[src].ban_until,
        now + BAN_DURATION_NS <= u64::MAX,
    ensures
        spec_balance_step(m, src, suspicious, now).0 == XdpAction::Drop,
        spec_balance_step(m, src, suspicious, now).1[src].ban_until == now + BAN_DURATION_NS,
{
}

/// In the score-based variant, each frame that passes from a known source
/// spends one unit of its balance and changes nothing else.
pub proof fn lemma_pass_spends_balance(m: Map<u32, ReputationRecord>, src: u32, suspicious: bool, now: u64)
    requires
        m.contains_key(src),
        spec_balance_step(m, src, suspicious, now).0 == XdpAction::Pass,
    ensures
        spec_balance_step(m, src, suspicious, now).1 == m.insert(
            src,
            ReputationRecord { balance: (m[src].balance - 1) as u32, ..m[src] },
        ),
{
}

/// Pruning the history keeps exactly the blocks of the last hour: everything
/// kept is recent and was recorded, and every recorded recent block is kept.
pub proof fn lemma_recent_exactly(ts: Seq<i128>, now: i128)
    ensures
        forall|k: int|
            0 <= k < spec_recent(ts, now).len() ==> spec_is_recent(#[trigger] spec_recent(ts, now)[k], now)
                && ts.contains(spec_recent(ts, now)[k]),
        forall|k: int|
            0 <= k < ts.len() && spec_is_recent(ts[k], now) ==> #[trigger] spec_recent(ts, now).contains(ts[k]),
        spec_recent(ts, now).len() <= ts.len(),
{
    broadcast use vstd::seq_lib::group_filter_ensures;
    let f = |t: i128| spec_is_recent(t, now);
    assert forall|k: int| 0 <= k < spec_recent(ts, now).len() implies spec_is_recent(
        #[trigger] spec_recent(ts, now)[k],
        now,
    ) && ts.contains(spec_recent(ts, now)[k]) by {
        ts.lemma_filter_pred(f, k);
        ts.lemma_filter_contains_rev(f, ts.filter(f)[k]);
    }
    assert forall|k: int| 0 <= k < ts.len() && spec_is_recent(ts[k], now) implies #[trigger] spec_recent(
        ts,
        now,
    ).contains(ts[k]) by {
        ts.lemma_filter_contains(f, k);
    }
    ts.lemma_filter_len(f);
}

/// The two tables after `n` copies of `frame`, all at time `now`, went
/// through the firewall starting from `rates` and `reps`.
pub open spec fn spec_run(
    rates: Map<u32, RateLimitBucket>,
    reps: Map<u32, ReputationRecord>,
    frame: Seq<u8>,
    now: u64,
    n: nat,
) -> (Map<u32, RateLimitBucket>, Map<u32, ReputationRecord>)
    decreases n,
{
    if n == 0 {
        (rates, reps)
    } else {
        let prev = spec_run(rates, reps, frame, now, (n - 1) as nat);
        let st = spec_step(prev.0, prev.1, frame, now);
        (st.1, st.2)
    }
}

/// The bucket of a source that has sent `n` (at least one) clean frames at
/// one instant `now`, starting without a bucket.
pub open spec fn spec_bucket_after(n: nat, now: u64) -> RateLimitBucket {
    RateLimitBucket {
        tokens: if n < MAX_TOKENS { (MAX_TOKENS - n) as u32 } else { 0 },
        _padding: 0,
        last_updated: now,
    }
}

proof fn lemma_run_state(
    rates: Map<u32, RateLimitBucket>,
    reps: Map<u32, ReputationRecord>,
    frame: Seq<u8>,
    now: u64,
    src: u32,
    n: nat,
)
    requires
        spec_inspect(frame) == (Inspection::Guarded { src_addr: src, suspicious: false }),
        rates.dom().finite(),
        !rates.contains_key(src),
        rates.len() < RATE_LIMIT_MAP_CAPACITY,
        !(reps.contains_key(src) && now < reps[src].ban_until),
    ensures
        spec_run(rates, reps, frame, now, n).1 == reps,
        n == 0 ==> spec_run(rates, reps, frame, now, n).0 == rates,
        n > 0 ==> spec_run(rates, reps, frame, now, n).0 == rates.insert(src, spec_bucket_after(n, now)),
    decreases n,
{
    if n > 0 {
        let m = (n - 1) as nat;
        lemma_run_state(rates, reps, frame, now, src, m);
        let prev = spec_run(rates, reps, frame, now, m);
        let st = spec_step(prev.0, prev.1, frame, now);
        if m == 0 {
            assert(spec_lookup(prev.0, src) is None);
            assert(st.1 =~= rates.insert(src, spec_bucket_after(n, now)));
        } else {
            assert(prev.0[src] == spec_bucket_after(m, now));
            assert(spec_lookup(prev.0, src) == Some(spec_bucket_after(m, now)));
            assert(spec_refill_amount(spec_bucket_after(m, now), now) == 0);
            assert(st.1 =~= rates.insert(src, spec_bucket_after(n, now)));
        }
    }
}

/// A source that is not banned and has no bucket yet, sending the same clean
/// frame to the guarded port again and again at one instant `now`: after `j`
/// earlier frames, the next one passes exactly when `j` is below
/// [`MAX_TOKENS`], and afterwards its bucket holds `MAX_TOKENS - 1 - j` tokens
/// (none once that is negative); the reputation table never changes.
pub proof fn lemma_tokens_over_frames(
    rates: Map<u32, RateLimitBucket>,
    reps: Map<u32, ReputationRecord>,
    frame: Seq<u8>,
    now: u64,
    src: u32,
    j: nat,
)
    requires
        spec_inspect(frame) == (Inspection::Guarded { src_addr: src, suspicious: false }),
        rates.dom().finite(),
        !rates.contains_key(src),
        rates.len() < RATE_LIMIT_MAP_CAPACITY,
        !(reps.contains_key(src) && now < reps[src].ban_until),
    ensures
        ({
            let prev = spec_run(rates, reps, frame, now, j);
            let st = spec_step(prev.0, prev.1, frame, now);
            &&& (st.0 == XdpAction::Pass <==> j < MAX_TOKENS)
            &&& st.1[src].tokens == if j + 1 < MAX_TOKENS { MAX_TOKENS - 1 - j } else { 0 }
            &&& st.2 == reps
        }),
{
    lemma_run_state(rates, reps, frame, now, src, j);
    lemma_run_state(rates, reps, frame, now, src, j + 1);
    let prev = spec_run(rates, reps, frame, now, j);
    let st = spec_step(prev.0, prev.1, frame, now);
    assert(spec_run(rates, reps, frame, now, j + 1) == (st.1, st.2));
    assert(st.1[src] == spec_bucket_after(j + 1, now));
    if j > 0 {
        assert(spec_lookup(prev.0, src) == Some(spec_bucket_after(j, now)));
        assert(spec_refill_amount(spec_bucket_after(j, now), now) == 0);
    }
}

/// The reputation table of the score-based variant after frames from `src`
/// (with no keyword) at the times `times`, in order, starting from `m`.
pub open spec fn spec_balance_run(
    m: Map<u32, ReputationRecord>,
    src: u32,
    times: Seq<u64>,
) -> Map<u32, ReputationRecord>
    decreases times.len(),
{
    if times.len() == 0 {
        m
    } else {
        spec_balance_step(spec_balance_run(m, src, times.drop_last()), src, false, times.last()).1
    }
}

proof fn lemma_balance_run_state(m: Map<u32, ReputationRecord>, src: u32, times: Seq<u64>)
    requires
        m.dom().finite(),
        !m.contains_key(src),
        m.len() < BALANCE_MAP_CAPACITY,
        forall|k: int| 0 <= k < times.len() ==> #[trigger] times[k] + BAN_DURATION_NS <= u64::MAX,
    ensures
        times.len() == 0 ==> spec_balance_run(m, src, times) == m,
        times.len() > 0 ==> {
            let r = spec_balance_run(m, src, times);
            &&& r.contains_key(src)
            &&& r[src].balance == if times.len() < INITIAL_BALANCE {
                INITIAL_BALANCE - times.len()
            } else {
                0
            }
            &&& times.len() <= INITIAL_BALANCE ==> r[src].ban_until == 0
        },
    decreases times.len(),
{
    if times.len() > 0 {
        let prev = times.drop_last();
        assert forall|k: int| 0 <= k < prev.len() implies #[trigger] prev[k] + BAN_DURATION_NS
            <= u64::MAX by {
            assert(prev[k] == times[k]);
        }
        lemma_balance_run_state(m, src, prev);
        let r = spec_balance_run(m, src, prev);
        if prev.len() == 0 {
            assert(spec_lookup(r, src) is None);
        } else {
            assert(spec_lookup(r, src) == Some(r[src]));
        }
    }
}

/// In the score-based variant, a source without a record sending frames with
/// no keyword at any times: after `j` earlier frames, the next one passes
/// exactly when `j` is below [`INITIAL_BALANCE`], and afterwards its balance
/// is `INITIAL_BALANCE - 1 - j` (none once that is negative). The balance
/// never grows back, so once it is spent every later frame is dropped.
pub proof fn lemma_balance_over_frames(
    m: Map<u32, ReputationRecord>,
    src: u32,
    times: Seq<u64>,
    now: u64,
)
    requires
        m.dom().finite(),
        !m.contains_key(src),
        m.len() < BALANCE_MAP_CAPACITY,
        forall|k: int| 0 <= k < times.len() ==> #[trigger] times[k] + BAN_DURATION_NS <= u64::MAX,
        now + BAN_DURATION_NS <= u64::MAX,
    ensures
        ({
            let st = spec_balance_step(spec_balance_run(m, src, times), src, false, now);
            &&& (st.0 == XdpAction::Pass <==> times.len() < INITIAL_BALANCE)
            &&& st.1[src].balance == if times.len() + 1 < INITIAL_BALANCE {
                INITIAL_BALANCE - 1 - times.len()
            } else {
                0
            }
        }),
{
    lemma_balance_run_state(m, src, times);
    let r = spec_balance_run(m, src, times);
    if times.len() == 0 {
        assert(spec_lookup(r, src) is None);
    } else {
        assert(spec_lookup(r, src) == Some(r[src]));
    }
}

/// Pruning the history at `now1` and then at a later `now2` leaves what one
/// pruning at `now2` leaves; pruning twice at the same time changes nothing
/// the second time.
pub proof fn lemma_prune_twice(ts: Seq<i128>, now1: i128, now2: i128)
    requires
        now1 <= now2,
    ensures
        spec_recent(spec_recent(ts, now1), now2) == spec_recent(ts, now2),
    decreases ts.len(),
{
    reveal_with_fuel(Seq::<_>::filter, 1);
    if ts.len() > 0 {
        let rest = ts.drop_last();
        let last = ts.last();
        lemma_prune_twice(rest, now1, now2);
        let once = spec_recent(rest, now1);
        if spec_is_recent(last, now1) {
            assert(spec_recent(ts, now1) == once.push(last));
            assert(once.push(last).drop_last() =~= once);
            assert(once.push(last).last() == last);
        } else {
            assert(spec_recent(ts, now1) == once);
            assert(!spec_is_recent(last, now2));
        }
    }
}

/// A suspicious frame to the guarded port from a source that is not banned
/// at `now`, whose bucket (once credited) still holds a token, is dropped and
/// bans its source from `now` for the ban duration: the reputation table maps
/// the source to a fresh ban record whatever record it held before, as long
/// as the table holds the source already or has room.
pub proof fn lemma_repeat_offence_rebans(
    rates: Map<u32, RateLimitBucket>,
    reps: Map<u32, ReputationRecord>,
    frame: Seq<u8>,
    now: u64,
    src: u32,
)
    requires
        spec_inspect(frame) == (Inspection::Guarded { src_addr: src, suspicious: true }),
        !(reps.contains_key(src) && now < reps[src].ban_until),
        rates.contains_key(src) ==> spec_refill(rates[src], now).tokens > 0,
        reps.contains_key(src) || reps.len() < REPUTATION_MAP_CAPACITY,
        now + BAN_DURATION_NS <= u64::MAX,
    ensures
        spec_step(rates, reps, frame, now).0 == XdpAction::Drop,
        spec_step(rates, reps, frame, now).2 == reps.insert(
            src,
            ReputationRecord {
                balance: 0,
                _padding: 0,
                ban_until: (now + BAN_DURATION_NS) as u64,
                last_updated: now,
            },
        ),
{
    if !rates.contains_key(src) {
        assert(spec_refill(
            RateLimitBucket { tokens: MAX_TOKENS, _padding: 0, last_updated: now },
            now,
        ).tokens == MAX_TOKENS);
    }
}

/// Only TCP to the guarded port reaches the per-source checks: a `Guarded`
/// frame has destination port 8080 (big-endian, right after the IP header the
/// IHL announces), and a well-formed TCP/IPv4 frame to any other port is
/// dropped.
pub proof fn lemma_only_guarded_port_admitted(s: Seq<u8>)
    ensures
        spec_inspect(s) is Guarded ==> ({
            let t = 14 + (s[14] % 16) * 4;
            &&& s.len() >= 64
            &&& t + 20 <= s.len()
            &&& 256 * s[t + 2] + s[t + 3] == 8080
        }),
        ({
            let t = 14 + (s[14] % 16) * 4;
            &&& s.len() >= 64
            &&& s[12] == 0x08u8
            &&& s[13] == 0x00u8
            &&& s[23] == 6u8
            &&& (s[14] % 16) * 4 >= 20
            &&& t + 20 <= s.len()
            &&& 256 * s[t + 2] + s[t + 3] != 8080
        }) ==> spec_inspect(s) == Inspection::Verdict(XdpAction::Drop),
{
}

/// A signature is found at offset `i` exactly when all four bytes there,
/// each with bit 5 set, spell `sele` or all four spell `ping`.
pub proof fn lemma_signature_is_four_folded_bytes(s: Seq<u8>, i: int)
    ensures
        spec_signature_at(s, i) <==> (((s[i] | 0x20u8) == 0x73u8 && (s[i + 1] | 0x20u8) == 0x65u8
            && (s[i + 2] | 0x20u8) == 0x6Cu8 && (s[i + 3] | 0x20u8) == 0x65u8) || ((s[i] | 0x20u8)
            == 0x70u8 && (s[i + 1] | 0x20u8) == 0x69u8 && (s[i + 2] | 0x20u8) == 0x6Eu8 && (s[i
            + 3] | 0x20u8) == 0x67u8)),
{
}

/// In the score-based variant, a frame with a keyword from a source that has
/// a record and is not banned at `now` is dropped, and its record gets the
/// ban end `now` plus the ban duration, whatever its balance; nothing else
/// in the table changes.
pub proof fn lemma_keyword_bans_known_source(
    m: Map<u32, ReputationRecord>,
    src: u32,
    now: u64,
)
    requires
        m.contains_key(src),
        now >= m[src].ban_until,
        now + BAN_DURATION_NS <= u64::MAX,
    ensures
        spec_balance_step(m, src, true, now).0 == XdpAction::Drop,
        spec_balance_step(m, src, true, now).1 == m.insert(
            src,
            ReputationRecord {
                balance: m[src].balance,
                _padding: m[src]._padding,
                ban_until: (now + BAN_DURATION_NS) as u64,
                last_updated: m[src].last_updated,
            },
        ),
{
}

} // verus!
