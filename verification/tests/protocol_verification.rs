use fluxnet::builder::FluxBuilder;
use fluxnet::engine::FluxEngine;
use fluxnet::sim::inject_packet;
use std::sync::atomic::{AtomicBool, Ordering};
use std::sync::Arc;

fn setup_engine() -> FluxEngine {
    let builder = FluxBuilder::new("eth0").queue_id(0).umem_pages(32);
    let raw = builder.build_raw().expect("Failed to build raw");
    FluxEngine::new(raw, 32)
}

#[test]
fn test_protocol_stack_parsing() {
    let mut engine = setup_engine();

    // 1. Construct a UDP packet: Eth + IP + UDP + payload.
    let mut pkt = Vec::new();
    // Eth
    pkt.extend_from_slice(&[0xFF; 6]); // Dst
    pkt.extend_from_slice(&[0x02, 0x00, 0x00, 0x00, 0x00, 0x01]); // Src
    pkt.extend_from_slice(&[0x08, 0x00]); // Type: IPv4

    // IPv4 (20 bytes)
    pkt.extend_from_slice(&[0x45, 0x00, 0x00, 48]); // Ver/IHL, Total Len (20+8+20)
    pkt.extend_from_slice(&[0x00, 0x00, 0x00, 0x00]); // ID, Frag
    pkt.extend_from_slice(&[0x40, 17, 0x00, 0x00]); // TTL, Proto=17 (UDP), Csum
    pkt.extend_from_slice(&[192, 168, 1, 1]); // Src
    pkt.extend_from_slice(&[192, 168, 1, 100]); // Dst

    // UDP (8 bytes)
    pkt.extend_from_slice(&1234u16.to_be_bytes()); // Src Port
    pkt.extend_from_slice(&80u16.to_be_bytes()); // Dst Port
    pkt.extend_from_slice(&28u16.to_be_bytes()); // Len (8 + 20)
    pkt.extend_from_slice(&[0x00, 0x00]); // Checksum

    // Payload (20 bytes)
    pkt.extend_from_slice(&[0xAA; 20]);

    // 2. Inject.
    inject_packet(&mut engine.socket.state, &pkt).expect("Injection failed");

    // 3. Process and verify.
    let success = Arc::new(AtomicBool::new(false));
    let success_clone = success.clone();

    engine
        .process_batch(&move |batch: fluxnet::packet::PacketBatch| {
            for i in 0..batch.len() {
                let packet = batch.packet(i);
                // Verify Ethernet
                let eth = packet.ethernet().expect("Failed to parse Ethernet");
                assert_eq!(eth.eth_type(), 0x0800);

                // Verify IPv4
                let ip = packet.ipv4().expect("Failed to parse IPv4");
                assert_eq!(ip.proto, 17);
                assert_eq!(ip.src(), 0xC0A80101); // 192.168.1.1

                // Verify UDP
                let udp = packet.udp().expect("Failed to parse UDP");
                assert_eq!(udp.src_port(), 1234);
                assert_eq!(udp.dst_port(), 80);

                success_clone.store(true, Ordering::Relaxed);
            }
            batch
        })
        .expect("Processing failed");

    assert!(success.load(Ordering::Relaxed), "Packet was not correctly parsed");
}

#[test]
fn test_tcp_icmp_parsing() {
    let mut engine = setup_engine();

    // 1. Inject a TCP SYN.
    let mut tcp_pkt = Vec::new();
    tcp_pkt.extend_from_slice(&[0; 12]);
    tcp_pkt.extend_from_slice(&[0x08, 0x00]); // Eth
    tcp_pkt.extend_from_slice(&[
        0x45, 0x00, 0x00, 40, 0, 0, 0, 0, 64, 6, 0, 0, 1, 1, 1, 1, 2, 2, 2, 2,
    ]); // IP (Proto 6=TCP)
    tcp_pkt.extend_from_slice(&0x1234u16.to_be_bytes()); // Src Port
    tcp_pkt.extend_from_slice(&0x0050u16.to_be_bytes()); // Dst Port
    tcp_pkt.extend_from_slice(&[0; 8]); // Seq, Ack
    tcp_pkt.extend_from_slice(&[0x50, 0x02, 0x00, 0x00, 0x00, 0x00, 0x00, 0x00]); // Flags (SYN), Win, Csum, Urp

    inject_packet(&mut engine.socket.state, &tcp_pkt).expect("TCP inject failed");

    // 2. Inject an ICMP echo request.
    let mut icmp_pkt = Vec::new();
    icmp_pkt.extend_from_slice(&[0; 12]);
    icmp_pkt.extend_from_slice(&[0x08, 0x00]); // Eth
    icmp_pkt.extend_from_slice(&[
        0x45, 0x00, 0x00, 28, 0, 0, 0, 0, 64, 1, 0, 0, 1, 1, 1, 1, 2, 2, 2, 2,
    ]); // IP (Proto 1=ICMP)
    icmp_pkt.extend_from_slice(&[0x08, 0x00, 0x00, 0x00, 0x12, 0x34, 0x00, 0x01]); // ICMP Echo Req

    inject_packet(&mut engine.socket.state, &icmp_pkt).expect("ICMP inject failed");

    // 3. Verify.
    let found_tcp = Arc::new(AtomicBool::new(false));
    let found_icmp = Arc::new(AtomicBool::new(false));

    let tcp_clone = found_tcp.clone();
    let icmp_clone = found_icmp.clone();

    engine
        .process_batch(&move |batch: fluxnet::packet::PacketBatch| {
            for i in 0..batch.len() {
                let packet = batch.packet(i);
                if let Some(tcp) = packet.tcp() {
                    if tcp.src_port() == 0x1234 {
                        tcp_clone.store(true, Ordering::Relaxed);
                    }
                }
                if let Some(icmp) = packet.icmp() {
                    if icmp.kind == 8 {
                        icmp_clone.store(true, Ordering::Relaxed);
                    }
                }
            }
            batch
        })
        .expect("Batch failed");

    assert!(found_tcp.load(Ordering::Relaxed), "TCP SYN not found");
    assert!(found_icmp.load(Ordering::Relaxed), "ICMP Echo not found");
}

#[test]
fn test_packet_mutators_adjust_head() {
    let mut engine = setup_engine();

    // A packet with a VLAN tag (4 extra bytes between the MACs and the
    // real EtherType).
    let mut vlan_pkt = Vec::new();
    vlan_pkt.extend_from_slice(&[0xFF; 6]); // Dst
    vlan_pkt.extend_from_slice(&[0x02; 6]); // Src
    vlan_pkt.extend_from_slice(&[0x81, 0x00, 0x00, 0x64]); // VLAN TPID 0x8100, ID 100
    vlan_pkt.extend_from_slice(&[0x08, 0x00]); // Real EthType IPv4
    vlan_pkt.extend_from_slice(&[0x45; 20]); // Dummy IP

    inject_packet(&mut engine.socket.state, &vlan_pkt).expect("VLAN inject failed");

    let success = Arc::new(AtomicBool::new(false));
    let success_clone = success.clone();

    engine
        .process_batch(&move |mut batch: fluxnet::packet::PacketBatch| {
            for i in 0..batch.len() {
                // The VLAN tag hides the IPv4 header from a straight parse.
                assert!(batch.packet(i).ipv4().is_none());

                // Strip the first 14 (Eth) + 4 (VLAN) = 18 bytes.
                batch.packet_mut(i).adjust_head(18);

                // Now the bytes start with the IP header.
                let data = batch.packet(i).data();
                assert_eq!(data[0], 0x45);

                success_clone.store(true, Ordering::Relaxed);
            }
            batch
        })
        .expect("Batch failed");

    assert!(success.load(Ordering::Relaxed));
}
