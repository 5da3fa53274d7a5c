use aincrad::balance::{balance_inspect, balance_step, is_banned, scan_for_keyword, BalanceFirewall, INITIAL_BALANCE};
use aincrad::common::ReputationRecord;
use aincrad::firewall::{Inspection, XdpAction, BAN_DURATION_NS};
use aincrad::history::{BlockHistory, HOUR_NS};

fn frame(port: u16, payload: &[u8]) -> Vec<u8> {
    let mut f = vec![0u8; 54];
    f[12] = 0x08;
    f[14] = 0x45;
    f[23] = 6;
    f[26..30].copy_from_slice(&[10, 0, 0, 7]);
    f[36..38].copy_from_slice(&port.to_be_bytes());
    f[46] = 0x50;
    f.extend_from_slice(payload);
    while f.len() < 64 {
        f.push(b'.');
    }
    f
}

fn key() -> u32 {
    u32::from_le_bytes([10, 0, 0, 7])
}

#[test]
fn balance_variant_drops_other_ports_short_frames_and_non_tcp() {
    assert_eq!(balance_inspect(&frame(22, b"select")), Inspection::Verdict(XdpAction::Drop));
    assert_eq!(balance_inspect(&[0u8; 63]), Inspection::Verdict(XdpAction::Drop));
    let mut udp = frame(8080, b"hello");
    udp[23] = 17;
    assert_eq!(balance_inspect(&udp), Inspection::Verdict(XdpAction::Drop));
    let mut other = frame(8080, b"hello");
    other[13] = 0x06;
    assert_eq!(
        balance_inspect(&other),
        Inspection::Guarded { src_addr: key(), suspicious: false }
    );
}

#[test]
fn balance_variant_checks_frames_of_any_ethertype() {
    let mut fw = BalanceFirewall::new();
    let mut f = frame(8080, b"x select y");
    f[12] = 0x86;
    f[13] = 0xdd;
    assert_eq!(fw.aincrad_xdp(&f, 20), 1);
    assert_eq!(fw.reputation_of(key()).unwrap().ban_until, 20 + BAN_DURATION_NS);
    let mut clean = frame(8080, b"hello");
    clean[12] = 0x86;
    clean[13] = 0xdd;
    assert_eq!(fw.aincrad_xdp(&clean, 21), 1);
}

#[test]
fn balance_step_decisions() {
    let fresh = balance_step(None, true, false, 5);
    assert_eq!(fresh.0, XdpAction::Pass);
    assert_eq!(fresh.1.unwrap().balance, INITIAL_BALANCE - 1);
    assert_eq!(balance_step(None, false, true, 5), (XdpAction::Pass, None));
    let spent = ReputationRecord { balance: 0, _padding: 0, ban_until: 0, last_updated: 0 };
    let d = balance_step(Some(spent), true, false, 7);
    assert_eq!(d.0, XdpAction::Drop);
    assert_eq!(d.1.unwrap().ban_until, 7 + BAN_DURATION_NS);
    let banned = ReputationRecord { ban_until: 100, ..spent };
    assert_eq!(balance_step(Some(banned), true, false, 99), (XdpAction::Drop, None));
}

#[test]
fn balance_runs_out_then_bans() {
    let mut fw = BalanceFirewall::new();
    let f = frame(8080, b"hello there");
    for _ in 0..INITIAL_BALANCE {
        assert_eq!(fw.aincrad_xdp(&f, 10), 2);
    }
    assert_eq!(fw.reputation_of(key()).unwrap().balance, 0);
    assert_eq!(fw.aincrad_xdp(&f, 10), 1);
    assert_eq!(fw.reputation_of(key()).unwrap().ban_until, 10 + BAN_DURATION_NS);
    assert_eq!(fw.aincrad_xdp(&f, 11), 1);
}

#[test]
fn keyword_bans_in_balance_variant() {
    let mut fw = BalanceFirewall::new();
    assert_eq!(fw.aincrad_xdp(&frame(8080, b"1 UNION all"), 50), 1);
    let rec = fw.reputation_of(key()).unwrap();
    assert_eq!(rec.balance, INITIAL_BALANCE);
    assert_eq!(rec.ban_until, 50 + BAN_DURATION_NS);
    assert!(is_banned(&rec, 51));
    assert!(!is_banned(&rec, 50 + BAN_DURATION_NS));
    assert_eq!(fw.aincrad_xdp(&frame(8080, b"fine"), 50 + BAN_DURATION_NS), 2);
}

#[test]
fn keyword_scan() {
    assert!(scan_for_keyword(b"..SeLeCt", 0));
    assert!(scan_for_keyword(b"union\0", 0));
    assert!(!scan_for_keyword(b"union", 0));
    assert!(!scan_for_keyword(b"select", 10));
    let r = ReputationRecord::default();
    assert!(!is_banned(&r, 0));
}

#[test]
fn history_prunes_to_last_hour() {
    let mut h = BlockHistory::new();
    h.push_block_at(0);
    h.push_block_at(HOUR_NS);
    h.push_block_at(HOUR_NS + 1);
    h.push_block_at(2 * HOUR_NS);
    assert_eq!(h.count_last_hour(), 4);
    h.clean_expired_blocks_at(2 * HOUR_NS);
    assert_eq!(h.timestamps, vec![HOUR_NS + 1, 2 * HOUR_NS]);
    assert_eq!(h.count_last_hour(), 2);
}

#[test]
fn history_records_current_time() {
    let mut h = BlockHistory::new();
    h.push_block();
    h.push_block();
    assert_eq!(h.count_last_hour(), 2);
    // 2020-01-01 in nanoseconds: the clock reading is a real date
    assert!(h.timestamps[0] > 1_577_836_800 * 1_000_000_000);
    h.clean_expired_blocks();
    assert_eq!(h.count_last_hour(), 2);
    h.push_block_at(0);
    h.clean_expired_blocks();
    assert_eq!(h.count_last_hour(), 2);
}
