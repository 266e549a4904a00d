use pinger::{EchoEngine, InFlightTable, ECHO_REQUEST_BUFFER_SIZE, IN_FLIGHT_TO_RETAIN, TOKEN_SIZE};

fn token(i: u8) -> Vec<u8> {
    vec![i; TOKEN_SIZE]
}

#[test]
fn in_flight_keeps_the_newest_ten() {
    let mut table = InFlightTable::new();
    for i in 0..15u8 {
        table.insert(token(i), 1000 + i as u64);
        assert!(table.len() <= IN_FLIGHT_TO_RETAIN);
    }
    assert_eq!(table.len(), 10);
    for i in 0..5u8 {
        assert_eq!(table.remove(&token(i)), None);
    }
    for i in 5..15u8 {
        assert_eq!(table.remove(&token(i)), Some(1000 + i as u64));
    }
    assert_eq!(table.len(), 0);
}

#[test]
fn in_flight_reinsert_updates_time() {
    let mut table = InFlightTable::new();
    table.insert(token(1), 5);
    table.insert(token(2), 6);
    table.insert(token(1), 9);
    assert_eq!(table.len(), 2);
    assert_eq!(table.remove(&token(1)), Some(9));
    assert_eq!(table.remove(&token(1)), None);
}

#[test]
fn in_flight_evicts_oldest_by_time() {
    let mut table = InFlightTable::new();
    for i in 0..10u8 {
        table.insert(token(i), 100 - i as u64);
    }
    table.insert(token(99), 500);
    assert_eq!(table.len(), 10);
    assert_eq!(table.remove(&token(9)), None);
    assert_eq!(table.remove(&token(0)), Some(100));
}

fn ipv4_wrap(icmp: &[u8]) -> Vec<u8> {
    let mut b = vec![0u8; 20];
    b[0] = 0x45;
    b[9] = 1;
    b.extend_from_slice(icmp);
    b
}

#[test]
fn engine_matches_reply_to_probe_v4() {
    let mut engine = EchoEngine::new(true, 1_000);
    assert!(engine.probe_due(0));
    assert_eq!(engine.time_until_due(0), 0);
    let (tok, packet) = engine.new_probe(10);
    assert_eq!(tok.len(), TOKEN_SIZE);
    assert_eq!(packet.len(), ECHO_REQUEST_BUFFER_SIZE);
    assert_eq!(packet[0], 8);
    assert_eq!(&packet[6..8], &[0, 1]);
    assert_eq!(&packet[8..], tok.as_slice());
    assert!(!engine.probe_due(500));
    assert_eq!(engine.time_until_due(500), 510);
    assert!(engine.probe_due(1_011));
    engine.record_sent(tok.clone(), 20);
    let mut reply = packet.clone();
    reply[0] = 0;
    assert_eq!(engine.on_datagram(&reply, 70), None);
    assert_eq!(engine.on_datagram(&ipv4_wrap(&packet), 70), None);
    assert_eq!(engine.on_datagram(&ipv4_wrap(&reply), 70), Some(50));
    assert_eq!(engine.on_datagram(&ipv4_wrap(&reply), 80), None);
}

#[test]
fn engine_matches_reply_to_probe_v6() {
    let mut engine = EchoEngine::new(false, 1_000);
    let tok = token(7);
    let packet = engine.start_probe(3, &tok, 0x0102);
    assert_eq!(&packet[..2], &[128, 0]);
    assert_eq!(&packet[4..8], &[1, 2, 0, 1]);
    engine.record_sent(tok, 3);
    let mut reply = packet.clone();
    reply[0] = 129;
    assert_eq!(engine.on_datagram(&reply, 2), Some(0));
}
