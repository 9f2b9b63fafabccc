use vpnet::codec::calculate_checksum;
use vpnet::dispatch::{DispatchOutcome, DropReason, NetworkManager, SendError};
use vpnet::messages::encode_heartbeat;
use vpnet::protocol::{
    Heartbeat, MessageType, NodeStatus, Packet, TransportAddr, PROTOCOL_VERSION, TIMEOUT,
};

fn addr(last: u8) -> TransportAddr {
    TransportAddr { ip: vec![10, 0, 0, last], port: 51820 }
}

fn manager(id: &str, last: u8) -> NetworkManager {
    let key: Vec<u8> = (0u8..32).collect();
    NetworkManager::new(
        addr(last),
        id.to_string(),
        format!("Node {}", id),
        vec![9u8; 32],
        &key,
    )
    .unwrap()
}

/// Runs the two-sided handshake between fresh managers and returns them
/// with their registries and sessions established.
fn handshaken(now: u64) -> (NetworkManager, NetworkManager) {
    let mut a = manager("A", 1);
    let mut b = manager("B", 2);
    let request = a.connect(now).unwrap();
    let reply = match b.handle_datagram(&request, addr(1), now) {
        DispatchOutcome::Reply(bytes) => bytes,
        _ => panic!("responder did not reply to the handshake request"),
    };
    match a.handle_datagram(&reply, addr(2), now) {
        DispatchOutcome::Handled => {}
        _ => panic!("initiator did not accept the handshake response"),
    }
    (a, b)
}

#[test]
fn handshake_exchange_records_both_peers_online() {
    let (a, b) = handshaken(1000);
    let b_peers = b.get_peers();
    assert_eq!(b_peers.len(), 1);
    assert_eq!(b_peers[0].node_id, "A");
    assert_eq!(b_peers[0].status, NodeStatus::Online);
    assert_eq!(b_peers[0].last_seen, 1000);
    let a_peers = a.get_peers();
    assert_eq!(a_peers.len(), 1);
    assert_eq!(a_peers[0].node_id, "B");
    assert_eq!(a_peers[0].status, NodeStatus::Online);
}

#[test]
fn heartbeat_refreshes_liveness() {
    let (mut a, mut b) = handshaken(1000);
    // A emits heartbeats to every peer it knows (B).
    let beats = a.heartbeat_packets(1010, 0, 60).unwrap();
    assert_eq!(beats.len(), 1);
    assert_eq!(beats[0].0.ip, vec![10, 0, 0, 2]);
    match b.handle_datagram(&beats[0].1, addr(1), 1010) {
        DispatchOutcome::Handled => {}
        _ => panic!("heartbeat was not consumed"),
    }
    let peers = b.get_peers();
    assert_eq!(peers.len(), 1);
    assert_eq!(peers[0].node_id, "A");
    assert_eq!(peers[0].last_seen, 1010);
    assert_eq!(peers[0].status, NodeStatus::Online);
}

#[test]
fn heartbeat_for_unknown_peer_changes_nothing() {
    let mut b = manager("B", 2);
    let hb = Heartbeat { node_id: "ghost".to_string(), timestamp: 5, load: 0, uptime: 0 };
    let payload = encode_heartbeat(&hb).unwrap();
    let bytes = Packet::new(MessageType::Heartbeat, 0, payload).unwrap().encode();
    match b.handle_datagram(&bytes, addr(9), 5) {
        DispatchOutcome::Handled => {}
        _ => panic!("heartbeat was not consumed"),
    }
    assert!(b.get_peers().is_empty());
}

#[test]
fn silent_peer_is_swept_after_the_timeout() {
    let (_, mut b) = handshaken(1000);
    // no heartbeat for TIMEOUT + 1 seconds
    let removed = b.sweep_peers(1000 + TIMEOUT + 1, TIMEOUT);
    assert_eq!(removed, vec!["A".to_string()]);
    assert!(b.get_peers().is_empty());
    // a still-live peer survives the same sweep
    let (_, mut b2) = handshaken(1000);
    assert!(b2.sweep_peers(1000 + TIMEOUT, TIMEOUT).is_empty());
    assert_eq!(b2.get_peers().len(), 1);
}

#[test]
fn foreign_magic_is_dropped_without_mutation() {
    let (_, mut b) = handshaken(1000);
    let mut bytes = Packet::new(MessageType::Heartbeat, 0, vec![]).unwrap().encode();
    bytes[0] = 0x00;
    match b.handle_datagram(&bytes, addr(1), 1001) {
        DispatchOutcome::Dropped(DropReason::MagicMismatch) => {}
        _ => panic!("foreign magic was not dropped"),
    }
    let peers = b.get_peers();
    assert_eq!(peers.len(), 1);
    assert_eq!(peers[0].last_seen, 1000);
}

#[test]
fn unknown_message_type_is_dropped_without_mutation() {
    let (_, mut b) = handshaken(1000);
    let mut bytes = Packet::new(MessageType::Heartbeat, 0, vec![]).unwrap().encode();
    bytes[5] = 11; // outside the declared 1..=10 range
    match b.handle_datagram(&bytes, addr(1), 1001) {
        DispatchOutcome::Dropped(DropReason::UnknownType) => {}
        _ => panic!("unknown type was not dropped"),
    }
    let peers = b.get_peers();
    assert_eq!(peers.len(), 1);
    assert_eq!(peers[0].last_seen, 1000);
}

#[test]
fn corrupted_checksum_is_dropped() {
    let mut b = manager("B", 2);
    let mut packet = Packet::new(MessageType::Heartbeat, 0, vec![1, 2, 3]).unwrap();
    packet.checksum ^= 0xFFFF;
    let bytes = packet.encode();
    match b.handle_datagram(&bytes, addr(1), 0) {
        DispatchOutcome::Dropped(DropReason::BadChecksum) => {}
        _ => panic!("bad checksum was not dropped"),
    }
}

#[test]
fn data_forward_round_trip_through_the_session() {
    let (mut a, mut b) = handshaken(1000);
    let frame = b"encapsulated ip frame".to_vec();
    let (dest, bytes) = a.build_data_forward(&"B".to_string(), &frame, 4).unwrap();
    assert_eq!(dest.ip, vec![10, 0, 0, 2]);
    match b.handle_datagram(&bytes, addr(1), 1001) {
        DispatchOutcome::Deliver(delivered) => assert_eq!(delivered, frame),
        _ => panic!("data forward was not delivered"),
    }
}

#[test]
fn tampered_data_forward_delivers_nothing_and_processing_continues() {
    let (mut a, mut b) = handshaken(1000);
    let frame = b"secret frame".to_vec();
    let (_, bytes) = a.build_data_forward(&"B".to_string(), &frame, 4).unwrap();
    // flip one ciphertext byte (the byte before the trailing protocol
    // discriminator) and refresh the outer checksum so only the
    // authentication tag can catch it
    let mut packet = Packet::decode(&bytes).unwrap();
    let last_ct = packet.data.len() - 2;
    packet.data[last_ct] ^= 0x01;
    packet.checksum = calculate_checksum(&packet.data);
    let tampered = packet.encode();
    match b.handle_datagram(&tampered, addr(1), 1001) {
        DispatchOutcome::Dropped(DropReason::CryptoFailed) => {}
        _ => panic!("tampered frame was not rejected"),
    }
    // the next honest frame still goes through
    let (_, bytes2) = a.build_data_forward(&"B".to_string(), &frame, 4).unwrap();
    match b.handle_datagram(&bytes2, addr(1), 1002) {
        DispatchOutcome::Deliver(delivered) => assert_eq!(delivered, frame),
        _ => panic!("processing did not continue after a tampered frame"),
    }
}

#[test]
fn send_packet_fails_on_unknown_peer() {
    let a = manager("A", 1);
    let packet = Packet::new(MessageType::Heartbeat, 0, vec![]).unwrap();
    assert!(matches!(
        a.send_packet(&"nobody".to_string(), &packet),
        Err(SendError::PeerNotFound)
    ));
}

#[test]
fn send_packet_targets_the_registered_address() {
    let (a, _) = handshaken(1000);
    let packet = Packet::new(MessageType::ConnectionClose, 0, vec![]).unwrap();
    let (dest, bytes) = a.send_packet(&"B".to_string(), &packet).unwrap();
    assert_eq!(dest.ip, vec![10, 0, 0, 2]);
    assert_eq!(bytes, packet.encode());
}

#[test]
fn discovery_prompts_a_node_info_reply() {
    let mut b = manager("B", 2);
    let mut a = manager("A", 1);
    let probe = a.discovery_packet();
    let reply = match b.handle_datagram(&probe, addr(1), 50) {
        DispatchOutcome::Reply(bytes) => bytes,
        _ => panic!("discovery got no reply"),
    };
    // the advertisement registers B as a peer of A
    match a.handle_datagram(&reply, addr(2), 51) {
        DispatchOutcome::Handled => {}
        _ => panic!("node info was not consumed"),
    }
    let peers = a.get_peers();
    assert_eq!(peers.len(), 1);
    assert_eq!(peers[0].node_id, "B");
    assert_eq!(peers[0].node_name, "Node B");
    assert_eq!(peers[0].status, NodeStatus::Online);
    assert_eq!(peers[0].address.ip, vec![10, 0, 0, 2]);
}

#[test]
fn unhandled_types_are_carried_but_dropped() {
    let mut b = manager("B", 2);
    for t in [MessageType::RouteUpdate, MessageType::AuthRequest, MessageType::AuthResponse] {
        let bytes = Packet::new(t, 0, vec![]).unwrap().encode();
        match b.handle_datagram(&bytes, addr(1), 0) {
            DispatchOutcome::Dropped(DropReason::Unhandled) => {}
            _ => panic!("unhandled type was not dropped"),
        }
    }
    assert!(b.get_peers().is_empty());
}

#[test]
fn stats_count_outcomes() {
    let (mut a, mut b) = handshaken(1000);
    let before = b.get_stats();
    // one good frame, one garbage datagram
    let (_, bytes) = a.build_data_forward(&"B".to_string(), &b"x".to_vec(), 4).unwrap();
    b.handle_datagram(&bytes, addr(1), 1001);
    b.handle_datagram(&vec![1, 2, 3], addr(1), 1002);
    let after = b.get_stats();
    assert_eq!(after.packets_received, before.packets_received + 2);
    assert_eq!(after.packets_dropped, before.packets_dropped + 1);
    assert_eq!(after.frames_delivered, before.frames_delivered + 1);
}

#[test]
fn local_info_reflects_identity() {
    let a = manager("A", 1);
    let info = a.get_local_info(77);
    assert_eq!(info.node_id, "A");
    assert_eq!(info.node_name, "Node A");
    assert_eq!(info.public_key, vec![9u8; 32]);
    assert_eq!(info.address.ip, vec![10, 0, 0, 1]);
    assert_eq!(info.last_seen, 77);
    assert!(info.online);
    assert_eq!(info.public_key.len(), 32);
    assert_eq!(PROTOCOL_VERSION, 1);
}

#[test]
fn handshake_timeout_retries_then_abandons() {
    let mut a = manager("A", 1);
    a.connect(0).unwrap();
    assert!(a.handshake_timeout(1));
    assert!(a.handshake_timeout(2));
    assert!(a.handshake_timeout(3));
    assert!(!a.handshake_timeout(4));
    // once abandoned, a response is unexpected
    let mut b = manager("B", 2);
    let request = b.connect(10).unwrap();
    let mut c = manager("C", 3);
    let reply = match c.handle_datagram(&request, addr(2), 10) {
        DispatchOutcome::Reply(bytes) => bytes,
        _ => panic!("no reply"),
    };
    match a.handle_datagram(&reply, addr(3), 11) {
        DispatchOutcome::Dropped(DropReason::Unexpected) => {}
        _ => panic!("stale response was not dropped"),
    }
}

#[test]
fn oversized_identity_is_reported_as_too_large() {
    let key: Vec<u8> = (0u8..32).collect();
    let mut giant = NetworkManager::new(
        addr(1),
        "g".repeat(0x10000),
        "Giant".to_string(),
        vec![9u8; 32],
        &key,
    )
    .unwrap();
    assert!(matches!(
        giant.connect(0),
        Err(vpnet::handshake::HandshakeError::RequestTooLarge)
    ));
    // a fitting identity owes a request (or a random-source failure,
    // which unwrap would surface)
    let mut ok = manager("A", 1);
    ok.connect(0).unwrap();
}

#[test]
fn data_forward_is_owed_when_everything_fits() {
    let (mut a, _) = handshaken(1000);
    // peer known, counter fresh, frame and ids well within every ceiling
    for _ in 0..3 {
        a.build_data_forward(&"B".to_string(), &vec![0u8; 1400], 4).unwrap();
    }
}
