//! A second, score-based variant of the kernel program: every source starts
//! with a balance of [`INITIAL_BALANCE`] frames, each admitted frame to the
//! guarded port spends one, and a source whose balance runs out, or whose
//! payload carries a keyword (`select`, `union `), is banned for
//! [`BAN_DURATION_NS`].
use vstd::prelude::*;
use std::collections::HashMap;
use crate::bytes::{spec_be_u16, spec_le_u32, u16_from_be, lemma_from_be_of_le};
use crate::common::ReputationRecord;
use crate::firewall::{
    folds_to, spec_lookup, Inspection, XdpAction, BAN_DURATION_NS, GUARDED_PORT,
    IPPROTO_TCP, MIN_FRAME_LEN, SCAN_WINDOW,
};
use crate::headers::{Ipv4Hdr, TcpHdr, ETH_HDR_LEN, IPV4_HDR_LEN};

verus! {

broadcast use vstd::std_specs::hash::group_hash_axioms;

/// The balance a source starts with.
pub const INITIAL_BALANCE: u32 = 100;

/// Number of sources the reputation table can hold.
pub const BALANCE_MAP_CAPACITY: usize = 10000;

/// Offset of the TCP header: this variant assumes an IPv4 header without options.
pub const FIXED_TCP_OFFSET: usize = 34;

/// The six bytes at `i` spell `select` or `union ` (with the trailing
/// space), ignoring case.
pub open spec fn spec_keyword_at(s: Seq<u8>, i: int) -> bool {
    ||| folds_to(s[i], 0x73u8) && folds_to(s[i + 1], 0x65u8) && folds_to(s[i + 2], 0x6Cu8)
        && folds_to(s[i + 3], 0x65u8) && folds_to(s[i + 4], 0x63u8) && folds_to(s[i + 5], 0x74u8)
    ||| folds_to(s[i], 0x75u8) && folds_to(s[i + 1], 0x6Eu8) && folds_to(s[i + 2], 0x69u8)
        && folds_to(s[i + 3], 0x6Fu8) && folds_to(s[i + 4], 0x6Eu8) && folds_to(s[i + 5], 0x20u8)
}

/// A keyword lies entirely inside `s` at `start + k`.
pub open spec fn spec_keyword_in_window(s: Seq<u8>, start: int, k: int) -> bool {
    start + k + 6 <= s.len() && spec_keyword_at(s, start + k)
}

/// A keyword starts at one of the first [`SCAN_WINDOW`] offsets from `start`.
pub open spec fn spec_has_keyword(s: Seq<u8>, start: int) -> bool {
    exists|k: int| 0 <= k < SCAN_WINDOW && #[trigger] spec_keyword_in_window(s, start, k)
}

/// The classification of a frame by this variant, which reads every frame at
/// the fixed offsets of an IPv4 header without options: frames shorter than
/// [`MIN_FRAME_LEN`] are dropped; a frame whose protocol byte is not TCP, or
/// whose destination port (at the fixed offset) is not [`GUARDED_PORT`], is
/// dropped; everything else goes on to the per-source checks, with the
/// keyword scan starting where the TCP data offset points.
pub open spec fn spec_balance_inspect(s: Seq<u8>) -> Inspection {
    if s.len() < MIN_FRAME_LEN {
        Inspection::Verdict(XdpAction::Drop)
    } else if s[23] != IPPROTO_TCP || spec_be_u16(s, FIXED_TCP_OFFSET + 2) != GUARDED_PORT {
        Inspection::Verdict(XdpAction::Drop)
    } else {
        Inspection::Guarded {
            src_addr: spec_le_u32(s, 26) as u32,
            suspicious: spec_has_keyword(
                s,
                FIXED_TCP_OFFSET + (s[FIXED_TCP_OFFSET + 12] / 16) * 4,
            ),
        }
    }
}

/// The record a source without one starts with.
pub open spec fn spec_initial_record() -> ReputationRecord {
    ReputationRecord { balance: INITIAL_BALANCE, _padding: 0, ban_until: 0, last_updated: 0 }
}

/// The verdict for a frame from a source whose record is `record` (`None`:
/// it has none, and `room` tells whether the table can take a new one), and
/// the record to store for it afterwards (`None`: leave the table alone).
///
/// A source without a record gets [`spec_initial_record`]; if there is no
/// room the frame passes and nothing changes. A source banned past `now` is
/// dropped. A suspicious frame, or one from a source whose balance is spent,
/// bans the source from `now` on and is dropped. Any other frame spends one
/// unit of balance and passes.
pub open spec fn spec_balance_decide(
    record: Option<ReputationRecord>,
    room: bool,
    suspicious: bool,
    now: u64,
) -> (XdpAction, Option<ReputationRecord>) {
    if record is None && !room {
        (XdpAction::Pass, None)
    } else {
        let rec = match record {
            Some(rec) => rec,
            None => spec_initial_record(),
        };
        if now < rec.ban_until {
            (XdpAction::Drop, if record is None { Some(rec) } else { None })
        } else if suspicious || rec.balance == 0 {
            (
                XdpAction::Drop,
                Some(ReputationRecord { ban_until: (now + BAN_DURATION_NS) as u64, ..rec }),
            )
        } else {
            (XdpAction::Pass, Some(ReputationRecord { balance: (rec.balance - 1) as u32, ..rec }))
        }
    }
}

/// Whether [`spec_balance_decide`] writes a ban (whose end is `now` plus the
/// ban duration).
pub open spec fn spec_balance_writes_ban(
    record: Option<ReputationRecord>,
    room: bool,
    suspicious: bool,
    now: u64,
) -> bool {
    let rec = match record {
        Some(rec) => rec,
        None => spec_initial_record(),
    };
    &&& (record is Some || room)
    &&& now >= rec.ban_until
    &&& (suspicious || rec.balance == 0)
}

/// The verdict for a frame from `src` at `now`, and the reputation table
/// afterwards: [`spec_balance_decide`] on `src`'s record, its outcome stored.
pub open spec fn spec_balance_step(
    m: Map<u32, ReputationRecord>,
    src: u32,
    suspicious: bool,
    now: u64,
) -> (XdpAction, Map<u32, ReputationRecord>) {
    let d = spec_balance_decide(spec_lookup(m, src), m.len() < BALANCE_MAP_CAPACITY, suspicious, now);
    (
        d.0,
        match d.1 {
            Some(rec) => m.insert(src, rec),
            None => m,
        },
    )
}

/// Decides on a frame for the per-source checks; see [`spec_balance_decide`].
pub fn balance_step(record: Option<ReputationRecord>, room: bool, suspicious: bool, now: u64) -> (r: (
    XdpAction,
    Option<ReputationRecord>,
))
    requires
        spec_balance_writes_ban(record, room, suspicious, now) ==> now + BAN_DURATION_NS
            <= u64::MAX,
    ensures
        r == spec_balance_decide(record, room, suspicious, now),
{
    if record.is_none() && !room {
        return (XdpAction::Pass, None);
    }
    let rec = match record {
        Some(rec) => rec,
        None => ReputationRecord {
            balance: INITIAL_BALANCE,
            _padding: 0,
            ban_until: 0,
            last_updated: 0,
        },
    };
    if is_banned(&rec, now) {
        return (XdpAction::Drop, if record.is_none() { Some(rec) } else { None });
    }
    if suspicious || rec.balance == 0 {
        let banned = ReputationRecord {
            balance: rec.balance,
            _padding: rec._padding,
            ban_until: now + BAN_DURATION_NS,
            last_updated: rec.last_updated,
        };
        return (XdpAction::Drop, Some(banned));
    }
    let spent = ReputationRecord {
        balance: rec.balance - 1,
        _padding: rec._padding,
        ban_until: rec.ban_until,
        last_updated: rec.last_updated,
    };
    (XdpAction::Pass, Some(spent))
}

fn keyword_at(s: &[u8], i: usize) -> (r: bool)
    requires
        i + 6 <= s.len(),
    ensures
        r == spec_keyword_at(s@, i as int),
{
    let a = s[i] | 0x20u8;
    let b = s[i + 1] | 0x20u8;
    let c = s[i + 2] | 0x20u8;
    let d = s[i + 3] | 0x20u8;
    let e = s[i + 4] | 0x20u8;
    let f = s[i + 5] | 0x20u8;
    (a == 0x73u8 && b == 0x65u8 && c == 0x6Cu8 && d == 0x65u8 && e == 0x63u8 && f == 0x74u8) || (
    a == 0x75u8 && b == 0x6Eu8 && c == 0x69u8 && d == 0x6Fu8 && e == 0x6Eu8 && f == 0x20u8)
}

/// Looks for a keyword at the first [`SCAN_WINDOW`] offsets from `start`.
pub fn scan_for_keyword(s: &[u8], start: usize) -> (r: bool)
    ensures
        r == spec_has_keyword(s@, start as int),
{
    if start > s.len() {
        assert forall|j: int| 0 <= j < SCAN_WINDOW implies !#[trigger] spec_keyword_in_window(
            s@,
            start as int,
            j,
        ) by {}
        return false;
    }
    let mut k: usize = 0;
    while k < SCAN_WINDOW
        invariant
            start <= s.len(),
            k <= SCAN_WINDOW,
            forall|j: int| 0 <= j < k ==> !#[trigger] spec_keyword_in_window(s@, start as int, j),
        decreases SCAN_WINDOW - k,
    {
        if k + 6 > s.len() - start {
            assert forall|j: int| 0 <= j < SCAN_WINDOW implies !#[trigger] spec_keyword_in_window(
                s@,
                start as int,
                j,
            ) by {
                if j >= k {
                    assert(start + j + 6 > s@.len());
                }
            }
            return false;
        }
        if keyword_at(s, start + k) {
            assert(spec_keyword_in_window(s@, start as int, k as int));
            return true;
        }
        k = k + 1;
    }
    false
}

/// Classifies a frame; see [`spec_balance_inspect`].
pub fn balance_inspect(frame: &[u8]) -> (r: Inspection)
    ensures
        r == spec_balance_inspect(frame@),
{
    if frame.len() < MIN_FRAME_LEN {
        return Inspection::Verdict(XdpAction::Drop);
    }
    let ip = match Ipv4Hdr::parse(frame, ETH_HDR_LEN) {
        Some(h) => h,
        None => return Inspection::Verdict(XdpAction::Drop),
    };
    let tcp = match TcpHdr::parse(frame, ETH_HDR_LEN + IPV4_HDR_LEN) {
        Some(h) => h,
        None => return Inspection::Verdict(XdpAction::Drop),
    };
    proof {
        lemma_from_be_of_le(frame@, FIXED_TCP_OFFSET + 2);
    }
    if ip.protocol != IPPROTO_TCP || u16_from_be(tcp.dest) != GUARDED_PORT {
        return Inspection::Verdict(XdpAction::Drop);
    }
    let payload = FIXED_TCP_OFFSET + tcp.header_len();
    let suspicious = scan_for_keyword(frame, payload);
    Inspection::Guarded { src_addr: ip.src_addr, suspicious }
}

/// Whether `record` bans its source at time `now`.
pub fn is_banned(record: &ReputationRecord, now: u64) -> (r: bool)
    ensures
        r == (now < record.ban_until),
{
    now < record.ban_until
}

/// The reputation table of the score-based variant.
pub struct BalanceFirewall {
    reputation: HashMap<u32, ReputationRecord>,
}

impl BalanceFirewall {
    /// The reputation table: source address to record.
    pub closed spec fn reputations(&self) -> Map<u32, ReputationRecord> {
        self.reputation@
    }

    /// The table stays within its capacity.
    pub open spec fn wf(&self) -> bool {
        &&& self.reputations().dom().finite()
        &&& self.reputations().len() <= BALANCE_MAP_CAPACITY
    }

    /// A firewall with an empty table.
    pub fn new() -> (r: BalanceFirewall)
        ensures
            r.reputations() == Map::<u32, ReputationRecord>::empty(),
            r.wf(),
    {
        BalanceFirewall { reputation: HashMap::new() }
    }

    /// The record kept for `addr`.
    pub fn reputation_of(&self, addr: u32) -> (r: Option<ReputationRecord>)
        ensures
            r == spec_lookup(self.reputations(), addr),
    {
        match self.reputation.get(&addr) {
            Some(rec) => Some(*rec),
            None => None,
        }
    }

    /// Runs one frame, received at kernel-clock time `now`, through this
    /// variant and returns the kernel's numeric verdict.
    pub fn aincrad_xdp(&mut self, frame: &[u8], now: u64) -> (r: u32)
        requires
            spec_balance_inspect(frame@) matches Inspection::Guarded { src_addr, suspicious }
                ==> (spec_balance_writes_ban(
                spec_lookup(old(self).reputations(), src_addr),
                old(self).reputations().len() < BALANCE_MAP_CAPACITY,
                suspicious,
                now,
            ) ==> now + BAN_DURATION_NS <= u64::MAX),
        ensures
            old(self).wf() ==> final(self).wf(),
            match spec_balance_inspect(frame@) {
                Inspection::Guarded { src_addr, suspicious } => {
                    let (a, m) = spec_balance_step(old(self).reputations(), src_addr, suspicious, now);
                    &&& r == a.spec_code()
                    &&& final(self).reputations() == m
                },
                Inspection::Verdict(a) => {
                    &&& r == a.spec_code()
                    &&& final(self).reputations() == old(self).reputations()
                },
                Inspection::Unparsed { .. } => false,
            },
    {
        match balance_inspect(frame) {
            Inspection::Guarded { src_addr, suspicious } => {
                let record = self.reputation_of(src_addr);
                let room = self.reputation.len() < BALANCE_MAP_CAPACITY;
                let (action, store) = balance_step(record, room, suspicious, now);
                if let Some(rec) = store {
                    self.reputation.insert(src_addr, rec);
                }
                action.code()
            },
            Inspection::Verdict(a) => a.code(),
            Inspection::Unparsed { .. } => XdpAction::Pass.code(),
        }
    }
}

} // verus!
