use aincrad::bytes::{read_le_u16, read_le_u32, read_le_u64, u16_from_be};
use aincrad::common::FilterEntry;
use aincrad::headers::{EthHdr, Ipv4Hdr, TcpHdr};
use aincrad::loader::{bytes_to_record, entry_ban_until, summarize_reputation, ReputationStatus};

#[test]
fn filter_entry_round_trip() {
    let e = FilterEntry { ip_addr: 0x0102_0304, action: 9 };
    let b = e.as_bytes();
    assert_eq!(b, [4, 3, 2, 1, 9, 0, 0, 0]);
    assert_eq!(FilterEntry::from_bytes(&b), Some(e));
}

#[test]
fn filter_entry_needs_eight_bytes() {
    assert_eq!(FilterEntry::from_bytes(&[1, 2, 3, 4, 5, 6, 7]), None);
    assert_eq!(
        FilterEntry::from_bytes(&[1, 0, 0, 0, 2, 0xff, 0xff, 0xff, 0xee]),
        Some(FilterEntry { ip_addr: 1, action: 2 })
    );
}

#[test]
fn integer_readers() {
    let s = [0x12u8, 0x34, 0x56, 0x78, 0x9a, 0xbc, 0xde, 0xf0];
    assert_eq!(read_le_u16(&s, 0), 0x3412);
    assert_eq!(read_le_u32(&s, 1), 0x9a78_5634);
    assert_eq!(read_le_u64(&s, 0), 0xf0de_bc9a_7856_3412);
    assert_eq!(u16_from_be(0x3412), 0x1234);
}

#[test]
fn header_parsing() {
    let mut f = vec![0u8; 54];
    f[0] = 0xaa;
    f[11] = 0xbb;
    f[12] = 0x08;
    f[14] = 0x46;
    f[23] = 6;
    f[26..30].copy_from_slice(&[10, 0, 0, 1]);
    f[36] = 0x1f;
    f[37] = 0x90;
    f[46] = 0x80;
    let eth = EthHdr::parse(&f).unwrap();
    assert_eq!(eth.dst_addr[0], 0xaa);
    assert_eq!(eth.src_addr[5], 0xbb);
    assert_eq!(u16_from_be(eth.ether_type), 0x0800);
    let ip = Ipv4Hdr::parse(&f, 14).unwrap();
    assert_eq!(ip.header_len(), 24);
    assert_eq!(ip.protocol, 6);
    assert_eq!(ip.src_addr, u32::from_le_bytes([10, 0, 0, 1]));
    let tcp = TcpHdr::parse(&f, 34).unwrap();
    assert_eq!(u16_from_be(tcp.dest), 8080);
    assert_eq!(tcp.header_len(), 32);
    assert!(EthHdr::parse(&f[..13]).is_none());
    assert!(Ipv4Hdr::parse(&f, 35).is_none());
    assert!(TcpHdr::parse(&f, 42).is_none());
    assert!(TcpHdr::parse(&f, 100).is_none());
}

#[test]
fn raw_record_decoding() {
    let mut raw = [0u8; 24];
    raw[0] = 0x01;
    raw[8..16].copy_from_slice(&61_000_000_000u64.to_le_bytes());
    raw[16] = 0xff;
    assert_eq!(bytes_to_record(&raw).ban_until, 61_000_000_000);
    let mut shifted = [0u8; 24];
    shifted[8] = 0x01;
    shifted[15] = 0x02;
    assert_eq!(bytes_to_record(&shifted).ban_until, 0x0200_0000_0000_0001);
}

#[test]
fn status_counts() {
    let zero = [0u8; 24];
    let mut banned = [0u8; 24];
    banned[9] = 1;
    let mut balance_only = [0u8; 24];
    balance_only[0] = 100;
    let entries = vec![vec![zero, balance_only], vec![zero, banned], vec![], vec![banned]];
    assert_eq!(entry_ban_until(&entries[1]), 256);
    assert_eq!(entry_ban_until(&entries[2]), 0);
    assert_eq!(summarize_reputation(&entries), ReputationStatus { sources: 4, banned: 2 });
    assert_eq!(summarize_reputation(&vec![]), ReputationStatus { sources: 0, banned: 0 });
}
