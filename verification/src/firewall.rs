//! The XDP firewall: frame inspection, reputation check, per-source token
//! bucket and banning of sources whose payload carries an attack signature.
//!
//! The decisions are split in two pure steps, [`inspect_packet`] (what the
//! frame is) and [`decide`] (what to do with a frame to the guarded port given
//! the state kept for its source), and [`Firewall`] keeps the two per-source
//! tables and applies one frame at a time.
use vstd::prelude::*;
use std::collections::HashMap;
use crate::bytes::{spec_be_u16, spec_le_u32, u16_from_be, lemma_from_be_of_le};
use crate::common::ReputationRecord;
use crate::headers::{EthHdr, Ipv4Hdr, TcpHdr, ETH_HDR_LEN, IPV4_HDR_LEN};

verus! {

broadcast use vstd::std_specs::hash::group_hash_axioms;

/// Frames shorter than this are dropped outright.
pub const MIN_FRAME_LEN: usize = 64;

/// EtherType of IPv4.
pub const ETHERTYPE_IPV4: u16 = 0x0800;

/// IP protocol number of TCP.
pub const IPPROTO_TCP: u8 = 6;

/// The only TCP destination port that is served.
pub const GUARDED_PORT: u16 = 8080;

/// Number of payload offsets at which a signature is looked for.
pub const SCAN_WINDOW: usize = 128;

/// Nanoseconds it takes for one token to be credited back to a bucket.
pub const NS_PER_TOKEN: u64 = 10_000_000;

/// Capacity of a token bucket.
pub const MAX_TOKENS: u32 = 100;

/// How long a source that sent a signature stays banned, in nanoseconds.
pub const BAN_DURATION_NS: u64 = 60_000_000_000;

/// Number of sources the rate-limit table can hold.
pub const RATE_LIMIT_MAP_CAPACITY: usize = 10240;

/// Number of sources the reputation table can hold.
pub const REPUTATION_MAP_CAPACITY: usize = 1024;

/// The verdict handed back to the XDP hook.
#[derive(Clone, Copy, Debug, PartialEq, Eq, Structural)]
pub enum XdpAction {
    Drop,
    Pass,
}

impl XdpAction {
    /// The kernel's numeric code for the verdict (`XDP_DROP` is 1, `XDP_PASS` is 2).
    pub open spec fn spec_code(self) -> u32 {
        match self {
            XdpAction::Drop => 1,
            XdpAction::Pass => 2,
        }
    }

    pub fn code(&self) -> (r: u32)
        ensures
            r == self.spec_code(),
    {
        match self {
            XdpAction::Drop => 1,
            XdpAction::Pass => 2,
        }
    }
}

/// The per-source token bucket.
#[derive(Clone, Copy, Debug, PartialEq, Eq, Structural)]
pub struct RateLimitBucket {
    pub tokens: u32,
    pub _padding: u32,
    /// Kernel-clock time at which tokens were last credited.
    pub last_updated: u64,
}

/// What a frame is, as far as the firewall is concerned.
#[derive(Clone, Copy, Debug, PartialEq, Eq, Structural)]
pub enum Inspection {
    /// The frame is decided on by its headers alone.
    Verdict(XdpAction),
    /// A TCP/IPv4 frame whose IP or TCP header cannot be read in full: only
    /// its source's ban is checked.
    Unparsed { src_addr: u32 },
    /// A TCP/IPv4 frame to the guarded port: it goes through the per-source
    /// checks. `suspicious` tells whether an attack signature was found in the
    /// scanned part of its payload (never, when it carries none).
    Guarded { src_addr: u32, suspicious: bool },
}

/// `b`, case-folded by setting bit 5, equals `c`.
pub open spec fn folds_to(b: u8, c: u8) -> bool {
    (b | 0x20u8) == c
}

/// The four bytes at `i` spell `sele` or `ping`, ignoring case.
pub open spec fn spec_signature_at(s: Seq<u8>, i: int) -> bool {
    ||| folds_to(s[i], 0x73u8) && folds_to(s[i + 1], 0x65u8) && folds_to(s[i + 2], 0x6Cu8)
        && folds_to(s[i + 3], 0x65u8)
    ||| folds_to(s[i], 0x70u8) && folds_to(s[i + 1], 0x69u8) && folds_to(s[i + 2], 0x6Eu8)
        && folds_to(s[i + 3], 0x67u8)
}

/// A signature lies entirely inside `s` at `start + k`.
pub open spec fn spec_signature_in_window(s: Seq<u8>, start: int, k: int) -> bool {
    start + k + 4 <= s.len() && spec_signature_at(s, start + k)
}

/// A signature starts at one of the first [`SCAN_WINDOW`] offsets from `start`.
pub open spec fn spec_has_signature(s: Seq<u8>, start: int) -> bool {
    exists|k: int| 0 <= k < SCAN_WINDOW && #[trigger] spec_signature_in_window(s, start, k)
}

/// The classification of a frame.
///
/// Frames shorter than [`MIN_FRAME_LEN`] are dropped; frames that are not
/// IPv4 pass; IPv4 that is not TCP is dropped; a TCP/IPv4 frame whose IHL is
/// below 20 bytes, or whose IP or TCP header runs past the frame, is
/// `Unparsed`; TCP to another port than [`GUARDED_PORT`] is dropped;
/// everything else is `Guarded`, suspicious when a payload follows the TCP
/// header and a signature starts in its scanned part.
pub open spec fn spec_inspect(s: Seq<u8>) -> Inspection {
    if s.len() < MIN_FRAME_LEN {
        Inspection::Verdict(XdpAction::Drop)
    } else if spec_be_u16(s, 12) != ETHERTYPE_IPV4 {
        Inspection::Verdict(XdpAction::Pass)
    } else if s[23] != IPPROTO_TCP {
        Inspection::Verdict(XdpAction::Drop)
    } else {
        let src = spec_le_u32(s, 26) as u32;
        let ip_len = (s[14] % 16) * 4;
        if ip_len < IPV4_HDR_LEN || ETH_HDR_LEN + ip_len + 20 > s.len() {
            Inspection::Unparsed { src_addr: src }
        } else {
            let tcp = ETH_HDR_LEN + ip_len;
            if spec_be_u16(s, tcp + 2) != GUARDED_PORT {
                Inspection::Verdict(XdpAction::Drop)
            } else {
                let payload = tcp + (s[tcp + 12] / 16) * 4;
                Inspection::Guarded {
                    src_addr: src,
                    suspicious: payload < s.len() && spec_has_signature(s, payload),
                }
            }
        }
    }
}

fn signature_at(s: &[u8], i: usize) -> (r: bool)
    requires
        i + 4 <= s.len(),
    ensures
        r == spec_signature_at(s@, i as int),
{
    let a = s[i] | 0x20u8;
    let b = s[i + 1] | 0x20u8;
    let c = s[i + 2] | 0x20u8;
    let d = s[i + 3] | 0x20u8;
    (a == 0x73u8 && b == 0x65u8 && c == 0x6Cu8 && d == 0x65u8) || (a == 0x70u8 && b == 0x69u8
        && c == 0x6Eu8 && d == 0x67u8)
}

/// Looks for a signature at the first [`SCAN_WINDOW`] offsets from `start`.
pub fn scan_for_signature(s: &[u8], start: usize) -> (r: bool)
    ensures
        r == spec_has_signature(s@, start as int),
{
    if start > s.len() {
        assert forall|j: int| 0 <= j < SCAN_WINDOW implies !#[trigger] spec_signature_in_window(
            s@,
            start as int,
            j,
        ) by {}
        return false;
    }
    let mut k: usize = 0;
    while k < SCAN_WINDOW
        invariant
            start <= s.len(),
            k <= SCAN_WINDOW,
            forall|j: int| 0 <= j < k ==> !#[trigger] spec_signature_in_window(s@, start as int, j),
        decreases SCAN_WINDOW - k,
    {
        if k + 4 > s.len() - start {
            assert forall|j: int| 0 <= j < SCAN_WINDOW implies !#[trigger] spec_signature_in_window(
                s@,
                start as int,
                j,
            ) by {
                if j >= k {
                    assert(start + j + 4 > s@.len());
                }
            }
            return false;
        }
        if signature_at(s, start + k) {
            assert(spec_signature_in_window(s@, start as int, k as int));
            return true;
        }
        k = k + 1;
    }
    false
}

/// Classifies a frame; see [`spec_inspect`].
pub fn inspect_packet(frame: &[u8]) -> (r: Inspection)
    ensures
        r == spec_inspect(frame@),
{
    if frame.len() < MIN_FRAME_LEN {
        return Inspection::Verdict(XdpAction::Drop);
    }
    let eth = match EthHdr::parse(frame) {
        Some(h) => h,
        None => return Inspection::Verdict(XdpAction::Pass),
    };
    proof {
        lemma_from_be_of_le(frame@, 12);
    }
    if u16_from_be(eth.ether_type) != ETHERTYPE_IPV4 {
        return Inspection::Verdict(XdpAction::Pass);
    }
    let ip = match Ipv4Hdr::parse(frame, ETH_HDR_LEN) {
        Some(h) => h,
        None => return Inspection::Verdict(XdpAction::Pass),
    };
    if ip.protocol != IPPROTO_TCP {
        return Inspection::Verdict(XdpAction::Drop);
    }
    let ip_len = ip.header_len();
    if ip_len < IPV4_HDR_LEN || ETH_HDR_LEN + ip_len + 20 > frame.len() {
        return Inspection::Unparsed { src_addr: ip.src_addr };
    }
    let tcp_start = ETH_HDR_LEN + ip_len;
    let tcp = match TcpHdr::parse(frame, tcp_start) {
        Some(h) => h,
        None => return Inspection::Unparsed { src_addr: ip.src_addr },
    };
    proof {
        lemma_from_be_of_le(frame@, tcp_start + 2);
    }
    if u16_from_be(tcp.dest) != GUARDED_PORT {
        return Inspection::Verdict(XdpAction::Drop);
    }
    let payload = tcp_start + tcp.header_len();
    let suspicious = if payload < frame.len() {
        scan_for_signature(frame, payload)
    } else {
        false
    };
    Inspection::Guarded { src_addr: ip.src_addr, suspicious }
}


/// What to do with a frame to the guarded port, and how the per-source tables
/// change: `bucket` is the bucket to store for the source, `ban` the
/// reputation record to store for it (`None`: leave the table alone).
#[derive(Clone, Copy, Debug, PartialEq, Eq, Structural)]
pub struct Admission {
    pub action: XdpAction,
    pub bucket: Option<RateLimitBucket>,
    pub ban: Option<ReputationRecord>,
}

/// The bucket a source without one starts with: full, stamped `now`.
pub open spec fn spec_fresh_bucket(now: u64) -> RateLimitBucket {
    RateLimitBucket { tokens: MAX_TOKENS, _padding: 0, last_updated: now }
}

/// Tokens earned since the bucket was last credited: one per
/// [`NS_PER_TOKEN`] elapsed (none if the clock is behind the stamp).
pub open spec fn spec_refill_amount(b: RateLimitBucket, now: u64) -> int {
    let elapsed: int = if now >= b.last_updated { now - b.last_updated } else { 0 };
    elapsed / (NS_PER_TOKEN as int)
}

/// The bucket after crediting earned tokens, capped at [`MAX_TOKENS`]; the
/// stamp moves to `now` only when something was credited.
pub open spec fn spec_refill(b: RateLimitBucket, now: u64) -> RateLimitBucket {
    let add = spec_refill_amount(b, now);
    if add > 0 {
        let sum = b.tokens + add;
        RateLimitBucket {
            tokens: if sum < MAX_TOKENS { sum as u32 } else { MAX_TOKENS },
            _padding: b._padding,
            last_updated: now,
        }
    } else {
        b
    }
}

/// The record that bans a source from `now` on for [`BAN_DURATION_NS`].
pub open spec fn spec_ban_record(now: u64) -> ReputationRecord {
    ReputationRecord {
        balance: 0,
        _padding: 0,
        ban_until: (now + BAN_DURATION_NS) as u64,
        last_updated: now,
    }
}

/// The decision for a frame to the guarded port from a source with reputation
/// `record` and bucket `bucket` (each `None` when the source has none).
///
/// A source banned past `now` is dropped and nothing changes. Otherwise the
/// bucket (a fresh one if there is none) is credited; with no token left the
/// frame is dropped and the credited bucket stored; else a token is spent and
/// stored, and a suspicious frame is dropped and bans its source while any
/// other passes.
pub open spec fn spec_decide(
    now: u64,
    suspicious: bool,
    record: Option<ReputationRecord>,
    bucket: Option<RateLimitBucket>,
) -> Admission {
    if record matches Some(rec) && now < rec.ban_until {
        Admission { action: XdpAction::Drop, bucket: None, ban: None }
    } else {
        let b = spec_refill(
            match bucket {
                Some(b) => b,
                None => spec_fresh_bucket(now),
            },
            now,
        );
        if b.tokens > 0 {
            let spent = RateLimitBucket { tokens: (b.tokens - 1) as u32, ..b };
            if suspicious {
                Admission {
                    action: XdpAction::Drop,
                    bucket: Some(spent),
                    ban: Some(spec_ban_record(now)),
                }
            } else {
                Admission { action: XdpAction::Pass, bucket: Some(spent), ban: None }
            }
        } else {
            Admission { action: XdpAction::Drop, bucket: Some(b), ban: None }
        }
    }
}

/// The verdict for a frame whose source is only checked for a ban: dropped
/// while `record` bans it, passed otherwise.
pub open spec fn spec_ban_verdict(now: u64, record: Option<ReputationRecord>) -> XdpAction {
    if record matches Some(rec) && now < rec.ban_until {
        XdpAction::Drop
    } else {
        XdpAction::Pass
    }
}

/// Checks a source's ban; see [`spec_ban_verdict`].
pub fn ban_verdict(now: u64, record: Option<ReputationRecord>) -> (r: XdpAction)
    ensures
        r == spec_ban_verdict(now, record),
{
    if let Some(rec) = record {
        if now < rec.ban_until {
            return XdpAction::Drop;
        }
    }
    XdpAction::Pass
}

/// Credits the tokens earned by `now`; see [`spec_refill`].
pub fn refill(b: RateLimitBucket, now: u64) -> (r: RateLimitBucket)
    ensures
        r == spec_refill(b, now),
{
    let elapsed = now.saturating_sub(b.last_updated);
    let tokens_to_add: u64 = elapsed / NS_PER_TOKEN;
    if tokens_to_add > 0 {
        let sum: u64 = b.tokens as u64 + tokens_to_add;
        let tokens = if sum < MAX_TOKENS as u64 { sum as u32 } else { MAX_TOKENS };
        RateLimitBucket { tokens, _padding: b._padding, last_updated: now }
    } else {
        b
    }
}

/// Decides on a frame to the guarded port; see [`spec_decide`].
pub fn decide(
    now: u64,
    suspicious: bool,
    record: Option<ReputationRecord>,
    bucket: Option<RateLimitBucket>,
) -> (r: Admission)
    requires
        spec_decide(now, suspicious, record, bucket).ban is Some ==> now + BAN_DURATION_NS
            <= u64::MAX,
    ensures
        r == spec_decide(now, suspicious, record, bucket),
{
    if let Some(rec) = record {
        if now < rec.ban_until {
            return Admission { action: XdpAction::Drop, bucket: None, ban: None };
        }
    }
    let start = match bucket {
        Some(b) => b,
        None => RateLimitBucket { tokens: MAX_TOKENS, _padding: 0, last_updated: now },
    };
    let b = refill(start, now);
    if b.tokens > 0 {
        let spent = RateLimitBucket { tokens: b.tokens - 1, _padding: b._padding, last_updated: b.last_updated };
        if suspicious {
            let ban = ReputationRecord {
                balance: 0,
                _padding: 0,
                ban_until: now + BAN_DURATION_NS,
                last_updated: now,
            };
            Admission { action: XdpAction::Drop, bucket: Some(spent), ban: Some(ban) }
        } else {
            Admission { action: XdpAction::Pass, bucket: Some(spent), ban: None }
        }
    } else {
        Admission { action: XdpAction::Drop, bucket: Some(b), ban: None }
    }
}


/// The entry for `k` in `m`, if any.
pub open spec fn spec_lookup<V>(m: Map<u32, V>, k: u32) -> Option<V> {
    if m.contains_key(k) {
        Some(m[k])
    } else {
        None
    }
}

/// `m` after storing `v` (if any) under `k` in a table that holds at most
/// `cap` keys: a store of a new key into a full table is lost.
pub open spec fn spec_store<V>(m: Map<u32, V>, k: u32, v: Option<V>, cap: nat) -> Map<u32, V> {
    match v {
        None => m,
        Some(v) => if m.contains_key(k) || m.len() < cap {
            m.insert(k, v)
        } else {
            m
        },
    }
}

/// Whether running `frame` at `now` against tables `rates` and `reps`
/// writes a ban (whose end is `now` plus the ban duration).
pub open spec fn spec_step_writes_ban(
    rates: Map<u32, RateLimitBucket>,
    reps: Map<u32, ReputationRecord>,
    frame: Seq<u8>,
    now: u64,
) -> bool {
    match spec_inspect(frame) {
        Inspection::Guarded { src_addr, suspicious } => spec_decide(
            now,
            suspicious,
            spec_lookup(reps, src_addr),
            spec_lookup(rates, src_addr),
        ).ban is Some,
        _ => false,
    }
}

/// The two per-source tables of the firewall (as seen from one CPU: the
/// rate-limit table is kept per CPU).
pub struct Firewall {
    rate_limit: HashMap<u32, RateLimitBucket>,
    reputation: HashMap<u32, ReputationRecord>,
}

impl Firewall {
    /// The rate-limit table: source address to token bucket.
    pub closed spec fn rate_limits(&self) -> Map<u32, RateLimitBucket> {
        self.rate_limit@
    }

    /// The reputation table: source address to reputation record.
    pub closed spec fn reputations(&self) -> Map<u32, ReputationRecord> {
        self.reputation@
    }

    /// The tables stay within their capacities and no bucket holds more than
    /// [`MAX_TOKENS`] tokens.
    pub open spec fn wf(&self) -> bool {
        &&& self.rate_limits().dom().finite()
        &&& self.reputations().dom().finite()
        &&& self.rate_limits().len() <= RATE_LIMIT_MAP_CAPACITY
        &&& self.reputations().len() <= REPUTATION_MAP_CAPACITY
        &&& forall|k: u32| #[trigger]
            self.rate_limits().contains_key(k) ==> self.rate_limits()[k].tokens <= MAX_TOKENS
    }

    /// A firewall with empty tables.
    pub fn new() -> (r: Firewall)
        ensures
            r.rate_limits() == Map::<u32, RateLimitBucket>::empty(),
            r.reputations() == Map::<u32, ReputationRecord>::empty(),
            r.wf(),
    {
        Firewall { rate_limit: HashMap::new(), reputation: HashMap::new() }
    }

    /// The reputation record kept for `addr`.
    pub fn reputation_of(&self, addr: u32) -> (r: Option<ReputationRecord>)
        ensures
            r == spec_lookup(self.reputations(), addr),
    {
        match self.reputation.get(&addr) {
            Some(rec) => Some(*rec),
            None => None,
        }
    }

    /// The token bucket kept for `addr`.
    pub fn bucket_of(&self, addr: u32) -> (r: Option<RateLimitBucket>)
        ensures
            r == spec_lookup(self.rate_limits(), addr),
    {
        match self.rate_limit.get(&addr) {
            Some(b) => Some(*b),
            None => None,
        }
    }

    fn store_bucket(&mut self, addr: u32, b: Option<RateLimitBucket>)
        ensures
            final(self).rate_limits() == spec_store(
                old(self).rate_limits(),
                addr,
                b,
                RATE_LIMIT_MAP_CAPACITY as nat,
            ),
            final(self).reputations() == old(self).reputations(),
    {
        if let Some(b) = b {
            if self.rate_limit.contains_key(&addr) || self.rate_limit.len() < RATE_LIMIT_MAP_CAPACITY {
                self.rate_limit.insert(addr, b);
            }
        }
    }

    fn store_record(&mut self, addr: u32, rec: Option<ReputationRecord>)
        ensures
            final(self).reputations() == spec_store(
                old(self).reputations(),
                addr,
                rec,
                REPUTATION_MAP_CAPACITY as nat,
            ),
            final(self).rate_limits() == old(self).rate_limits(),
    {
        if let Some(rec) = rec {
            if self.reputation.contains_key(&addr) || self.reputation.len() < REPUTATION_MAP_CAPACITY {
                self.reputation.insert(addr, rec);
            }
        }
    }

    /// Runs one frame, received at kernel-clock time `now`, through the
    /// firewall; see [`spec_step`].
    pub fn try_xdp_firewall(&mut self, frame: &[u8], now: u64) -> (r: XdpAction)
        requires
            spec_step_writes_ban(old(self).rate_limits(), old(self).reputations(), frame@, now)
                ==> now + BAN_DURATION_NS <= u64::MAX,
        ensures
            old(self).wf() ==> final(self).wf(),
            (r, final(self).rate_limits(), final(self).reputations()) == spec_step(
                old(self).rate_limits(),
                old(self).reputations(),
                frame@,
                now,
            ),
    {
        match inspect_packet(frame) {
            Inspection::Verdict(a) => a,
            Inspection::Unparsed { src_addr } => ban_verdict(now, self.reputation_of(src_addr)),
            Inspection::Guarded { src_addr, suspicious } => {
                let record = self.reputation_of(src_addr);
                let bucket = self.bucket_of(src_addr);
                let d = decide(now, suspicious, record, bucket);
                self.store_bucket(src_addr, d.bucket);
                self.store_record(src_addr, d.ban);
                d.action
            },
        }
    }

    /// The XDP entry point: [`Firewall::try_xdp_firewall`] as the kernel's
    /// numeric verdict.
    pub fn aincrad_xdp(&mut self, frame: &[u8], now: u64) -> (r: u32)
        requires
            spec_step_writes_ban(old(self).rate_limits(), old(self).reputations(), frame@, now)
                ==> now + BAN_DURATION_NS <= u64::MAX,
        ensures
            old(self).wf() ==> final(self).wf(),
            r == spec_step(old(self).rate_limits(), old(self).reputations(), frame@, now).0.spec_code(),
            final(self).rate_limits() == spec_step(
                old(self).rate_limits(),
                old(self).reputations(),
                frame@,
                now,
            ).1,
            final(self).reputations() == spec_step(
                old(self).rate_limits(),
                old(self).reputations(),
                frame@,
                now,
            ).2,
    {
        let a = self.try_xdp_firewall(frame, now);
        a.code()
    }
}

/// One frame at kernel-clock time `now` through tables `rates` and `reps`:
/// the verdict and the two tables afterwards. Frames decided by their headers
/// and `Unparsed` frames leave the tables alone (an `Unparsed` frame is
/// dropped only while its source is banned); a `Guarded` frame gets
/// [`spec_decide`] on its source's entries, whose outcome is stored.
pub open spec fn spec_step(
    rates: Map<u32, RateLimitBucket>,
    reps: Map<u32, ReputationRecord>,
    frame: Seq<u8>,
    now: u64,
) -> (XdpAction, Map<u32, RateLimitBucket>, Map<u32, ReputationRecord>) {
    match spec_inspect(frame) {
        Inspection::Verdict(a) => (a, rates, reps),
        Inspection::Unparsed { src_addr } => (
            spec_ban_verdict(now, spec_lookup(reps, src_addr)),
            rates,
            reps,
        ),
        Inspection::Guarded { src_addr, suspicious } => {
            let d = spec_decide(
                now,
                suspicious,
                spec_lookup(reps, src_addr),
                spec_lookup(rates, src_addr),
            );
            (
                d.action,
                spec_store(rates, src_addr, d.bucket, RATE_LIMIT_MAP_CAPACITY as nat),
                spec_store(reps, src_addr, d.ban, REPUTATION_MAP_CAPACITY as nat),
            )
        },
    }
}

} // verus!
