use fluxnet::ethernet::parse_eth;
use fluxnet::icmp::parse_icmp;
use fluxnet::ipv4::{parse_ipv4, Ipv4Header};
use fluxnet::proto::checksum;
use fluxnet::tcp::parse_tcp;
use fluxnet::udp::parse_udp;

#[test]
fn test_eth_parsing() {
    let mut data = [0u8; 18];
    data[0..6].copy_from_slice(&[0x01, 0x02, 0x03, 0x04, 0x05, 0x06]); // dst
    data[6..12].copy_from_slice(&[0x11, 0x12, 0x13, 0x14, 0x15, 0x16]); // src
    data[12..14].copy_from_slice(&0x0800u16.to_be_bytes()); // type (IPv4)
    data[14..18].copy_from_slice(&[0xAA, 0xBB, 0xCC, 0xDD]); // payload

    let (header, payload) = parse_eth(&data).expect("Should parse eth");
    assert_eq!(header.dst, [0x01, 0x02, 0x03, 0x04, 0x05, 0x06]);
    assert_eq!(header.src, [0x11, 0x12, 0x13, 0x14, 0x15, 0x16]);
    assert_eq!(header.eth_type(), 0x0800);
    assert_eq!(payload, &[0xAA, 0xBB, 0xCC, 0xDD]);
}

#[test]
fn test_eth_too_short() {
    let data = [0u8; 13];
    assert!(parse_eth(&data).is_none());
}

#[test]
fn test_icmp_parsing() {
    let mut data = [0u8; 8];
    data[0] = 8; // Echo request
    data[1] = 0;
    data[2..4].copy_from_slice(&0xf7feu16.to_be_bytes()); // checksum
    data[4..8].copy_from_slice(&[0x11, 0x22, 0x33, 0x44]); // body

    let (header, payload) = parse_icmp(&data).expect("Should parse icmp");
    assert_eq!(header.kind, 8);
    assert_eq!(header.code, 0);
    assert_eq!(payload, &[0x11, 0x22, 0x33, 0x44]);
}

#[test]
fn test_ipv4_parsing() {
    let mut data = [0u8; 24];
    data[0] = 0x45; // Version 4, IHL 5 (20 bytes)
    data[2..4].copy_from_slice(&24u16.to_be_bytes()); // Total length
    data[9] = 17; // Protocol UDP
    data[10..12].copy_from_slice(&0x0000u16.to_be_bytes()); // Placeholder checksum
    data[12..16].copy_from_slice(&[192, 168, 1, 1]); // src
    data[16..20].copy_from_slice(&[192, 168, 1, 100]); // dst
    data[20..24].copy_from_slice(&[0x11, 0x22, 0x33, 0x44]); // payload

    // Fix checksum.
    let csum = checksum(&data[0..20]);
    data[10..12].copy_from_slice(&csum.to_be_bytes());

    let (header, payload) = parse_ipv4(&data).expect("Should parse ipv4");
    assert_eq!(header.version(), 4);
    assert_eq!(header.ihl(), 5);
    assert_eq!(header.header_len(), 20);
    assert_eq!(header.proto, 17);
    assert!(header.is_valid(&data));
    assert_eq!(payload, &[0x11, 0x22, 0x33, 0x44]);
}

#[test]
fn test_ipv4_with_options() {
    let mut data = [0u8; 28];
    data[0] = 0x47; // Version 4, IHL 7 (28 bytes)
    data[2..4].copy_from_slice(&28u16.to_be_bytes());

    let (header, payload) = parse_ipv4(&data).expect("Should parse ipv4");
    assert_eq!(header.header_len(), 28);
    assert_eq!(payload.len(), 0);
}

#[test]
fn test_tcp_parsing() {
    let mut data = [0u8; 24];
    data[0..2].copy_from_slice(&1234u16.to_be_bytes());
    data[2..4].copy_from_slice(&80u16.to_be_bytes());
    data[12] = 0x60; // Offset 6 (24 bytes)
    data[13] = 0x02; // SYN flag

    let (header, payload) = parse_tcp(&data).expect("Should parse tcp");
    assert_eq!(header.src_port(), 1234);
    assert_eq!(header.dst_port(), 80);
    assert_eq!(header.data_offset(), 6);
    assert_eq!(header.header_len(), 24);
    assert_eq!(header.flags(), 0x002); // SYN
    assert_eq!(payload.len(), 0);
}

#[test]
fn test_udp_parsing_and_checksum() {
    // An IPv4 header for checksum validation (fields in host order).
    let ip = Ipv4Header {
        ver_ihl: 0x45,
        tos: 0,
        total_len: 28,
        id: 0,
        frag_off: 0,
        ttl: 64,
        proto: 17,
        check: 0,
        src: 0xC0A80101, // 192.168.1.1
        dst: 0xC0A80164, // 192.168.1.100
    };

    let mut data = [0u8; 12];
    data[0..2].copy_from_slice(&1234u16.to_be_bytes()); // src port
    data[2..4].copy_from_slice(&80u16.to_be_bytes()); // dst port
    data[4..6].copy_from_slice(&12u16.to_be_bytes()); // length (8 + 4)
    data[6..8].copy_from_slice(&0u16.to_be_bytes()); // placeholder
    data[8..12].copy_from_slice(&[0x11, 0x22, 0x33, 0x44]); // payload

    let (header, payload) = parse_udp(&data).expect("Should parse udp");
    assert_eq!(header.src_port(), 1234);
    assert_eq!(header.dst_port(), 80);
    assert_eq!(header.length(), 12);

    // A zero stored checksum is optional in IPv4 and counts as valid.
    assert!(header.verify_checksum(&ip, payload));
}

#[test]
fn test_udp_checksum_round_trip() {
    // A datagram with a real checksum: computing the Internet checksum over
    // pseudo-header + header (checksum zero) + payload and storing its
    // value makes verify_checksum pass; corrupting a byte makes it fail.
    let ip = Ipv4Header {
        ver_ihl: 0x45,
        tos: 0,
        total_len: 32,
        id: 0,
        frag_off: 0,
        ttl: 64,
        proto: 17,
        check: 0,
        src: 0x0A000001, // 10.0.0.1
        dst: 0x0A000002, // 10.0.0.2
    };
    let payload = [0xDEu8, 0xAD, 0xBE, 0xEF];
    let udp_len: u16 = 12;

    // pseudo-header || udp header (checksum 0) || payload
    let mut sum_input = Vec::new();
    sum_input.extend_from_slice(&ip.src.to_be_bytes());
    sum_input.extend_from_slice(&ip.dst.to_be_bytes());
    sum_input.push(0);
    sum_input.push(ip.proto);
    sum_input.extend_from_slice(&udp_len.to_be_bytes());
    sum_input.extend_from_slice(&4096u16.to_be_bytes()); // src port
    sum_input.extend_from_slice(&53u16.to_be_bytes()); // dst port
    sum_input.extend_from_slice(&udp_len.to_be_bytes());
    sum_input.extend_from_slice(&0u16.to_be_bytes()); // checksum field
    sum_input.extend_from_slice(&payload);
    let csum = checksum(&sum_input);

    let mut wire = Vec::new();
    wire.extend_from_slice(&4096u16.to_be_bytes());
    wire.extend_from_slice(&53u16.to_be_bytes());
    wire.extend_from_slice(&udp_len.to_be_bytes());
    wire.extend_from_slice(&csum.to_be_bytes());
    wire.extend_from_slice(&payload);

    let (header, body) = parse_udp(&wire).expect("should parse udp");
    assert_ne!(header.check, 0);
    assert!(header.verify_checksum(&ip, body));

    let mut bad = [0u8; 4];
    bad.copy_from_slice(body);
    bad[0] ^= 0xFF;
    assert!(!header.verify_checksum(&ip, &bad));
}

#[test]
fn test_checksum_known_value() {
    // The classic header example: checksum of these ten 16-bit words is
    // 0xB861.
    let data = [
        0x45u8, 0x00, 0x00, 0x73, 0x00, 0x00, 0x40, 0x00, 0x40, 0x11, 0x00, 0x00, 0xC0, 0xA8,
        0x00, 0x01, 0xC0, 0xA8, 0x00, 0xC7,
    ];
    assert_eq!(checksum(&data), 0xB861);
    // With the checksum in place the words sum to zero.
    let mut full = data;
    full[10..12].copy_from_slice(&0xB861u16.to_be_bytes());
    assert_eq!(checksum(&full), 0);
    // Odd trailing byte: the last byte is padded as a high half.
    assert_eq!(checksum(&[0x01u8]), !0x0100u16);
}

#[test]
fn test_tcp_checksum_round_trip() {
    // A 20-byte SYN segment with a correct checksum verifies; with total_len
    // shorter than the IP header it is rejected outright.
    let ip = Ipv4Header {
        ver_ihl: 0x45,
        tos: 0,
        total_len: 40,
        id: 0,
        frag_off: 0,
        ttl: 64,
        proto: 6,
        check: 0,
        src: 0x01010101,
        dst: 0x02020202,
    };
    let mut sum_input = Vec::new();
    sum_input.extend_from_slice(&ip.src.to_be_bytes());
    sum_input.extend_from_slice(&ip.dst.to_be_bytes());
    sum_input.push(0);
    sum_input.push(ip.proto);
    sum_input.extend_from_slice(&20u16.to_be_bytes()); // segment length
    let mut hdr = Vec::new();
    hdr.extend_from_slice(&0x1234u16.to_be_bytes());
    hdr.extend_from_slice(&0x0050u16.to_be_bytes());
    hdr.extend_from_slice(&[0u8; 8]); // seq, ack
    hdr.extend_from_slice(&[0x50, 0x02, 0x00, 0x00, 0x00, 0x00, 0x00, 0x00]);
    sum_input.extend_from_slice(&hdr);
    let csum = checksum(&sum_input);
    hdr[16..18].copy_from_slice(&csum.to_be_bytes());

    let (header, rest) = parse_tcp(&hdr).expect("should parse tcp");
    assert_eq!(rest.len(), 0);
    assert!(header.verify_checksum(&ip, rest));

    let short_ip = Ipv4Header { total_len: 10, ..ip };
    assert!(!header.verify_checksum(&short_ip, rest));
}

#[test]
fn test_tcp_rejects_bad_offset() {
    // A data offset below five words is rejected.
    let mut data = [0u8; 24];
    data[12] = 0x40; // offset 4 (16 bytes) — invalid
    assert!(parse_tcp(&data).is_none());
    // An advertised header longer than the data is rejected.
    let mut data2 = [0u8; 20];
    data2[12] = 0x60; // offset 6 (24 bytes) > 20 available
    assert!(parse_tcp(&data2).is_none());
}
