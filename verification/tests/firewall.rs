use aincrad::firewall::{
    decide, inspect_packet, refill, scan_for_signature, Firewall, Inspection, RateLimitBucket,
    XdpAction, BAN_DURATION_NS, MAX_TOKENS, NS_PER_TOKEN,
};
use aincrad::common::ReputationRecord;

const SRC: [u8; 4] = [10, 0, 0, 1];

fn src_key() -> u32 {
    u32::from_le_bytes(SRC)
}

/// An Ethernet + IPv4 (no options) + TCP (no options) frame to `port`,
/// padded with zeroes to at least 64 bytes when `pad` is set.
fn tcp_frame(port: u16, payload: &[u8], pad: bool) -> Vec<u8> {
    let mut f = vec![0u8; 12];
    f.extend_from_slice(&[0x08, 0x00]);
    f.extend_from_slice(&[0x45, 0, 0, 0, 0, 0, 0, 0, 64, 6, 0, 0]);
    f.extend_from_slice(&SRC);
    f.extend_from_slice(&[192, 168, 0, 2]);
    let mut tcp = vec![0u8; 20];
    tcp[0] = 0x30;
    tcp[1] = 0x39;
    tcp[2..4].copy_from_slice(&port.to_be_bytes());
    tcp[12] = 0x50;
    f.extend_from_slice(&tcp);
    f.extend_from_slice(payload);
    if pad {
        while f.len() < 64 {
            f.push(0);
        }
    }
    f
}

fn payload_frame(payload: &[u8]) -> Vec<u8> {
    let mut p = payload.to_vec();
    while p.len() < 10 {
        p.push(b'.');
    }
    tcp_frame(8080, &p, false)
}

#[test]
fn short_frames_are_dropped() {
    let mut fw = Firewall::new();
    let f = vec![0u8; 60];
    assert_eq!(fw.aincrad_xdp(&f, 1), 1);
    assert_eq!(inspect_packet(&f), Inspection::Verdict(XdpAction::Drop));
}

#[test]
fn non_ipv4_frames_pass() {
    let mut f = vec![0u8; 64];
    f[12] = 0x08;
    f[13] = 0x06;
    let mut fw = Firewall::new();
    assert_eq!(fw.aincrad_xdp(&f, 1), 2);
}

#[test]
fn non_tcp_ipv4_is_dropped() {
    let mut f = tcp_frame(8080, b"hello world", true);
    f[23] = 17;
    assert_eq!(inspect_packet(&f), Inspection::Verdict(XdpAction::Drop));
}

#[test]
fn other_ports_are_dropped() {
    let f = tcp_frame(80, b"hello world", true);
    assert_eq!(inspect_packet(&f), Inspection::Verdict(XdpAction::Drop));
}

#[test]
fn short_ihl_is_unparsed() {
    let mut f = tcp_frame(8080, b"hello world", true);
    f[14] = 0x44;
    assert_eq!(inspect_packet(&f), Inspection::Unparsed { src_addr: src_key() });
    let mut fw = Firewall::new();
    assert_eq!(fw.aincrad_xdp(&f, 3), 2);
    assert_eq!(fw.bucket_of(src_key()), None);
}

#[test]
fn frames_without_payload_are_rate_limited() {
    // a 66-byte frame whose TCP header announces 32 bytes: nothing after it
    let mut g = tcp_frame(8080, &[0u8; 12], false);
    g[46] = 0x80;
    assert_eq!(
        inspect_packet(&g),
        Inspection::Guarded { src_addr: src_key(), suspicious: false }
    );
    let mut fw = Firewall::new();
    assert_eq!(fw.aincrad_xdp(&g, 5), 2);
    assert_eq!(fw.bucket_of(src_key()).unwrap().tokens, MAX_TOKENS - 1);
    // a data offset that runs past the frame: no payload to scan
    g[46] = 0xF0;
    assert_eq!(
        inspect_packet(&g),
        Inspection::Guarded { src_addr: src_key(), suspicious: false }
    );
}

#[test]
fn non_tcp_with_bad_ihl_is_dropped() {
    let mut f = tcp_frame(8080, b"hello world", true);
    f[23] = 17;
    f[14] = 0x42;
    assert_eq!(inspect_packet(&f), Inspection::Verdict(XdpAction::Drop));
}

#[test]
fn banned_source_is_dropped_without_payload_or_readable_header() {
    let mut fw = Firewall::new();
    let now = 1_000_000_000u64;
    assert_eq!(fw.aincrad_xdp(&payload_frame(b"ping me"), now), 1);
    let bare = tcp_frame(8080, &[], true);
    let tokens_before = fw.bucket_of(src_key()).unwrap().tokens;
    assert_eq!(fw.aincrad_xdp(&bare, now + 1), 1);
    assert_eq!(fw.bucket_of(src_key()).unwrap().tokens, tokens_before);
    let mut bad_ihl = tcp_frame(8080, b"hello world", true);
    bad_ihl[14] = 0x44;
    assert_eq!(fw.aincrad_xdp(&bad_ihl, now + 2), 1);
    assert_eq!(fw.aincrad_xdp(&bad_ihl, now + BAN_DURATION_NS), 2);
}

#[test]
fn clean_payload_passes_and_spends_a_token() {
    let mut fw = Firewall::new();
    let f = payload_frame(b"GET / HTTP/1.1");
    assert_eq!(
        inspect_packet(&f),
        Inspection::Guarded { src_addr: src_key(), suspicious: false }
    );
    assert_eq!(fw.aincrad_xdp(&f, 1_000), 2);
    assert_eq!(
        fw.bucket_of(src_key()),
        Some(RateLimitBucket { tokens: MAX_TOKENS - 1, _padding: 0, last_updated: 1_000 })
    );
    assert_eq!(fw.reputation_of(src_key()), None);
}

#[test]
fn signature_bans_source_for_a_minute() {
    let mut fw = Firewall::new();
    let now = 5_000_000_000u64;
    let bad = payload_frame(b"id=1 UNION SELECT *");
    assert_eq!(fw.aincrad_xdp(&bad, now), 1);
    assert_eq!(
        fw.reputation_of(src_key()),
        Some(ReputationRecord {
            balance: 0,
            _padding: 0,
            ban_until: now + BAN_DURATION_NS,
            last_updated: now,
        })
    );
    let good = payload_frame(b"GET / HTTP/1.1");
    assert_eq!(fw.aincrad_xdp(&good, now + 1_000_000_000), 1);
    assert_eq!(fw.aincrad_xdp(&good, now + BAN_DURATION_NS - 1), 1);
    assert_eq!(fw.aincrad_xdp(&good, now + BAN_DURATION_NS), 2);
}

#[test]
fn signature_match_ignores_case() {
    assert!(scan_for_signature(b"xxPiNg", 0));
    assert!(scan_for_signature(b"SeLe", 0));
    assert!(!scan_for_signature(b"sel", 0));
    assert!(!scan_for_signature(b"pong select", 6 + 1));
}

#[test]
fn signature_past_the_window_is_missed() {
    let mut p = vec![b'a'; 128];
    p.extend_from_slice(b"ping");
    assert!(!scan_for_signature(&p, 0));
    let mut q = vec![b'a'; 127];
    q.extend_from_slice(b"ping");
    assert!(scan_for_signature(&q, 0));
}

#[test]
fn bucket_runs_dry_and_refills() {
    let mut fw = Firewall::new();
    let f = payload_frame(b"GET / HTTP/1.1");
    let now = 1_000u64;
    for _ in 0..MAX_TOKENS {
        assert_eq!(fw.aincrad_xdp(&f, now), 2);
    }
    assert_eq!(fw.aincrad_xdp(&f, now), 1);
    assert_eq!(fw.bucket_of(src_key()).unwrap().tokens, 0);
    assert_eq!(fw.aincrad_xdp(&f, now + NS_PER_TOKEN - 1), 1);
    assert_eq!(fw.aincrad_xdp(&f, now + NS_PER_TOKEN), 2);
    assert_eq!(fw.aincrad_xdp(&f, now + NS_PER_TOKEN), 1);
}

#[test]
fn refill_is_capped() {
    let b = RateLimitBucket { tokens: 5, _padding: 7, last_updated: 0 };
    assert_eq!(
        refill(b, 30 * NS_PER_TOKEN + 3),
        RateLimitBucket { tokens: 35, _padding: 7, last_updated: 30 * NS_PER_TOKEN + 3 }
    );
    assert_eq!(refill(b, 10 * 60 * 1_000_000_000).tokens, MAX_TOKENS);
    assert_eq!(refill(b, NS_PER_TOKEN - 1), b);
    let idle = RateLimitBucket { tokens: 0, _padding: 0, last_updated: 0 };
    let period = (1u64 << 32) * NS_PER_TOKEN;
    assert_eq!(refill(idle, period).tokens, MAX_TOKENS);
    let later = RateLimitBucket { tokens: 5, _padding: 0, last_updated: 500 };
    assert_eq!(refill(later, 100), later);
}

#[test]
fn decide_for_banned_source_changes_nothing() {
    let rec = ReputationRecord { balance: 0, _padding: 0, ban_until: 100, last_updated: 0 };
    let d = decide(99, true, Some(rec), None);
    assert_eq!(d.action, XdpAction::Drop);
    assert_eq!(d.bucket, None);
    assert_eq!(d.ban, None);
    let d2 = decide(100, false, Some(rec), None);
    assert_eq!(d2.action, XdpAction::Pass);
}

#[test]
fn rate_limited_suspicious_frame_is_not_banned() {
    let b = RateLimitBucket { tokens: 0, _padding: 0, last_updated: 10 };
    let d = decide(10, true, None, Some(b));
    assert_eq!(d.action, XdpAction::Drop);
    assert_eq!(d.bucket, Some(b));
    assert_eq!(d.ban, None);
}

#[test]
fn action_codes() {
    assert_eq!(XdpAction::Drop.code(), 1);
    assert_eq!(XdpAction::Pass.code(), 2);
}
