use pinger::{parse_bsd, parse_line, parse_linux, parse_windows, Dialect, PingResult};

fn pong(r: Option<PingResult>) -> u128 {
    match r {
        Some(PingResult::Pong(d, _)) => d,
        other => panic!("not a pong: {:?}", other),
    }
}

#[test]
fn linux_fixture_lines() {
    let line = "64 bytes from 1.1.1.1: icmp_seq=1 ttl=64 time=23.1 ms";
    match parse_linux(line.to_string()) {
        Some(PingResult::Pong(d, l)) => {
            assert_eq!(d, 23_100_000);
            assert_eq!(l, line);
        }
        other => panic!("not a pong: {:?}", other),
    }
    assert!(matches!(
        parse_linux("no answer yet for icmp_seq=2".to_string()),
        Some(PingResult::Timeout(_))
    ));
    assert!(parse_linux("PING 1.1.1.1 (1.1.1.1) 56(84) bytes of data.".to_string()).is_none());
}

#[test]
fn linux_time_formats() {
    assert_eq!(pong(parse_linux("64 bytes from x: seq=0 ttl=64 time=0.050 ms".to_string())), 50_000);
    assert_eq!(pong(parse_linux("64 bytes from x: time=7 ms".to_string())), 7_000_000);
    assert_eq!(pong(parse_linux("64 bytes from x: TIME=12.25ms".to_string())), 12_250_000);
    assert_eq!(pong(parse_linux("64 bytes from x: time=1.1234567 ms".to_string())), 1_123_456);
    assert!(matches!(
        parse_linux("64 bytes from x: icmp_seq=1 ttl=64".to_string()),
        Some(PingResult::Unknown(_))
    ));
    assert!(matches!(
        parse_linux("From 10.0.0.1 icmp_seq=1 Destination Host Unreachable".to_string()),
        Some(PingResult::Unknown(_))
    ));
    assert!(parse_linux("".to_string()).is_none());
    assert!(parse_linux("   ".to_string()).is_none());
}

#[test]
fn windows_dialect_lines() {
    assert!(matches!(
        parse_windows("Request timed out.".to_string()),
        Some(PingResult::Timeout(_))
    ));
    assert!(matches!(
        parse_windows("General failure.".to_string()),
        Some(PingResult::Timeout(_))
    ));
    assert_eq!(
        pong(parse_windows("Reply from 1.1.1.1: bytes=32 time=14ms TTL=64".to_string())),
        14_000_000
    );
    assert!(matches!(
        parse_windows("Pinging 1.1.1.1 with 32 bytes of data:".to_string()),
        Some(PingResult::Unknown(_))
    ));
}

#[test]
fn bsd_dialect_lines() {
    assert_eq!(
        pong(parse_bsd("64 bytes from 1.1.1.1: icmp_seq=0 ttl=57 time=14.279 ms".to_string())),
        14_279_000
    );
    assert!(matches!(
        parse_bsd("Request timeout for icmp_seq 1".to_string()),
        Some(PingResult::Timeout(_))
    ));
    assert!(parse_bsd("PING 1.1.1.1 (1.1.1.1): 56 data bytes".to_string()).is_none());
    assert!(matches!(
        parse_bsd("--- 1.1.1.1 ping statistics ---".to_string()),
        Some(PingResult::Unknown(_))
    ));
    assert!(matches!(
        parse_bsd("64 bytes from 1.1.1.1: TIME=14.2 ms".to_string()),
        Some(PingResult::Unknown(_))
    ));
    assert_eq!(pong(parse_line(Dialect::Bsd, "x time=3.5\tms".to_string())), 3_500_000);
}

#[test]
fn overflowing_milliseconds_are_no_measurement() {
    assert!(matches!(
        parse_linux("64 bytes from x: time=18446744073709551616 ms".to_string()),
        Some(PingResult::Unknown(_))
    ));
    assert_eq!(
        pong(parse_linux("64 bytes from x: time=18446744073709551615 ms".to_string())),
        18446744073709551615u128 * 1_000_000
    );
}
