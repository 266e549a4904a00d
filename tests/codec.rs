use pinger::{
    EchoReply, EchoRequest, IcmpError, IcmpV4, IcmpV6, IpV4Packet, IpV4Protocol, Ipv4Error,
};

#[test]
fn echo_request_v4_exact_bytes() {
    let payload = b"abcde";
    let mut buffer = [0u8; 13];
    let request = EchoRequest { ident: 0x1234, seq_cnt: 1, payload };
    assert_eq!(request.encode::<IcmpV4>(&mut buffer), Ok(()));
    assert_eq!(
        buffer,
        [8, 0, 188, 3, 0x12, 0x34, 0, 1, b'a', b'b', b'c', b'd', b'e']
    );
}

#[test]
fn echo_request_v6_exact_checksum() {
    let payload: Vec<u8> = (0..24).collect();
    let mut buffer = [0u8; 32];
    let request = EchoRequest { ident: 0xabcd, seq_cnt: 7, payload: &payload };
    assert_eq!(request.encode::<IcmpV6>(&mut buffer), Ok(()));
    assert_eq!(&buffer[..8], &[128, 0, 79, 154, 0xab, 0xcd, 0, 7]);
    assert_eq!(&buffer[8..], payload.as_slice());
}

#[test]
fn echo_request_ignores_stale_checksum_bytes() {
    let mut buffer = [0xffu8; 13];
    let request = EchoRequest { ident: 0x1234, seq_cnt: 1, payload: b"abcde" };
    assert_eq!(request.encode::<IcmpV4>(&mut buffer), Ok(()));
    assert_eq!(&buffer[2..4], &[188, 3]);
}

#[test]
fn echo_request_buffer_too_small() {
    let mut buffer = [7u8; 10];
    let request = EchoRequest { ident: 1, seq_cnt: 1, payload: b"abc" };
    assert_eq!(request.encode::<IcmpV4>(&mut buffer), Err(IcmpError::BufferTooSmall));
    assert_eq!(buffer, [7u8; 10]);
}

fn round_trip_v4(ident: u16, seq: u16, payload: &[u8]) {
    let mut buffer = vec![0u8; 8 + payload.len()];
    EchoRequest { ident, seq_cnt: seq, payload }
        .encode::<IcmpV4>(&mut buffer)
        .unwrap();
    buffer[0] = 0;
    buffer[1] = 0;
    let reply = EchoReply::decode::<IcmpV4>(&buffer).unwrap();
    assert_eq!(reply.ident, ident);
    assert_eq!(reply.seq_cnt, seq);
    assert_eq!(reply.payload, payload);
}

#[test]
fn echo_round_trip_v4() {
    round_trip_v4(0, 0, b"");
    round_trip_v4(0xffff, 0x8001, b"x");
    round_trip_v4(513, 2, &[9u8; 24]);
}

#[test]
fn echo_round_trip_v6() {
    let payload = [3u8, 1, 4, 1, 5];
    let mut buffer = [0u8; 13];
    EchoRequest { ident: 0xbeef, seq_cnt: 42, payload: &payload }
        .encode::<IcmpV6>(&mut buffer)
        .unwrap();
    buffer[0] = 129;
    let reply = EchoReply::decode::<IcmpV6>(&buffer).unwrap();
    assert_eq!((reply.ident, reply.seq_cnt), (0xbeef, 42));
    assert_eq!(reply.payload, payload.to_vec());
}

#[test]
fn echo_reply_errors() {
    assert!(matches!(EchoReply::decode::<IcmpV4>(&[0u8; 7]), Err(IcmpError::InvalidSize)));
    assert!(matches!(EchoReply::decode::<IcmpV4>(&[8u8, 0, 0, 0, 0, 0, 0, 0]), Err(IcmpError::InvalidPacket)));
    assert!(matches!(EchoReply::decode::<IcmpV4>(&[0u8, 3, 0, 0, 0, 0, 0, 0]), Err(IcmpError::InvalidPacket)));
    assert!(matches!(EchoReply::decode::<IcmpV6>(&[0u8; 8]), Err(IcmpError::InvalidPacket)));
    let empty = EchoReply::decode::<IcmpV6>(&[129u8, 0, 0, 0, 1, 2, 3, 4]).unwrap();
    assert_eq!((empty.ident, empty.seq_cnt), (0x0102, 0x0304));
    assert!(empty.payload.is_empty());
}

fn ipv4_header(byte0: u8, protocol: u8, total: usize) -> Vec<u8> {
    let mut b = vec![0u8; total];
    b[0] = byte0;
    b[9] = protocol;
    b
}

#[test]
fn ipv4_too_small_whatever_it_holds() {
    for len in 0..20 {
        let b = ipv4_header(0x45, 1, len.max(10))[..len].to_vec();
        assert!(matches!(IpV4Packet::decode(&b), Err(Ipv4Error::TooSmall)));
    }
    assert!(matches!(IpV4Packet::decode(&[0x60u8; 19]), Err(Ipv4Error::TooSmall)));
}

#[test]
fn ipv4_wrong_version_whatever_it_holds() {
    for byte0 in [0x00u8, 0x35, 0x65, 0xf5, 0x4f & 0x0f] {
        let b = ipv4_header(byte0, 1, 40);
        assert!(matches!(IpV4Packet::decode(&b), Err(Ipv4Error::InvalidVersion)));
    }
}

#[test]
fn ipv4_header_size_and_protocol() {
    assert!(matches!(IpV4Packet::decode(&ipv4_header(0x46, 1, 20)), Err(Ipv4Error::InvalidHeaderSize)));
    assert!(matches!(IpV4Packet::decode(&ipv4_header(0x45, 6, 28)), Err(Ipv4Error::UnknownProtocol)));
    let mut b = ipv4_header(0x46, 1, 30);
    b[24] = 0xaa;
    b[29] = 0xbb;
    let p = IpV4Packet::decode(&b).unwrap();
    assert_eq!(p.protocol, IpV4Protocol::Icmp);
    assert_eq!(p.data, vec![0xaa, 0, 0, 0, 0, 0xbb]);
    assert_eq!(IpV4Protocol::decode(1), Some(IpV4Protocol::Icmp));
    assert_eq!(IpV4Protocol::decode(58), None);
}

#[test]
fn encoded_request_checksum_verifies() {
    let payload = b"odd";
    let mut buffer = [0u8; 11];
    EchoRequest { ident: 0xfffe, seq_cnt: 0xffff, payload }
        .encode::<IcmpV4>(&mut buffer)
        .unwrap();
    let mut sum: u32 = 0;
    for w in buffer.chunks(2) {
        let word = (w[0] as u32) << 8 | w.get(1).copied().unwrap_or(0) as u32;
        sum += word;
    }
    while sum > 0xffff {
        sum = (sum & 0xffff) + (sum >> 16);
    }
    assert_eq!(sum, 0xffff);
}
