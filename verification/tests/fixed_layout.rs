use netlink_codec::address::CacheInfo;
use netlink_codec::af_spec::Icmp6Stats;
use netlink_codec::error::DecodeError;

#[test]
fn cache_info_parses_sixteen_byte_buffer() {
    let buf: Vec<u8> = vec![10, 0, 0, 0, 20, 0, 0, 0, 30, 0, 0, 0, 40, 0, 0, 0];
    let parsed = CacheInfo::parse(&buf).unwrap();
    assert_eq!(
        parsed,
        CacheInfo { ifa_preferred: 10, ifa_valid: 20, cstamp: 30, tstamp: 40 }
    );
}

#[test]
fn cache_info_reemits_identical_bytes() {
    let buf: Vec<u8> = vec![10, 0, 0, 0, 20, 0, 0, 0, 30, 0, 0, 0, 40, 0, 0, 0];
    let parsed = CacheInfo::parse(&buf).unwrap();
    let mut out: Vec<u8> = vec![0; parsed.buffer_len()];
    parsed.emit(&mut out);
    assert_eq!(out, buf);
}

#[test]
fn cache_info_rejects_short_buffer() {
    let buf: Vec<u8> = vec![1, 2, 3, 4, 5];
    assert_eq!(CacheInfo::parse(&buf), Err(DecodeError::BufferTooShort));
}

#[test]
fn cache_info_default_is_zero() {
    let c = CacheInfo::default();
    assert_eq!(c, CacheInfo { ifa_preferred: 0, ifa_valid: 0, cstamp: 0, tstamp: 0 });
}

#[test]
fn icmp6_stats_round_trip() {
    let stats = Icmp6Stats {
        num: 7,
        in_msgs: 1,
        in_errors: -2,
        out_msgs: 3,
        out_errors: 0,
        csum_errors: i64::MAX,
        rate_limit_host: i64::MIN,
    };
    let mut out: Vec<u8> = vec![0; stats.buffer_len()];
    stats.emit(&mut out);
    assert_eq!(out.len(), 56);
    let parsed = Icmp6Stats::parse(&out).unwrap();
    assert_eq!(parsed, stats);
}

#[test]
fn icmp6_stats_exact_bytes() {
    let stats = Icmp6Stats {
        num: 1,
        in_msgs: 2,
        in_errors: 3,
        out_msgs: 4,
        out_errors: 5,
        csum_errors: 6,
        rate_limit_host: -1,
    };
    let mut out: Vec<u8> = vec![0; 56];
    stats.emit(&mut out);
    let mut expected: Vec<u8> = Vec::new();
    for v in [1i64, 2, 3, 4, 5, 6, -1] {
        expected.extend_from_slice(&v.to_le_bytes());
    }
    assert_eq!(out, expected);
}

#[test]
fn icmp6_stats_rejects_short_buffer() {
    let buf: Vec<u8> = vec![0; 55];
    assert_eq!(Icmp6Stats::parse(&buf), Err(DecodeError::BufferTooShort));
}

#[test]
fn cache_info_emit_leaves_tail_untouched() {
    let c = CacheInfo { ifa_preferred: 1, ifa_valid: 2, cstamp: 3, tstamp: 4 };
    let mut out: Vec<u8> = vec![0xAA; 20];
    c.emit(&mut out);
    assert_eq!(&out[16..], &[0xAA, 0xAA, 0xAA, 0xAA]);
    assert_eq!(&out[0..4], &[1, 0, 0, 0]);
}
