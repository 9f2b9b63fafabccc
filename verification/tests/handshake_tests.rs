use vpnet::handshake::{initiate, on_response, on_timeout, respond, HandshakeError, InitiatorState};
use vpnet::protocol::{HandshakeRequest, NodeStatus, TransportAddr, PROTOCOL_VERSION};

fn addr(last: u8) -> TransportAddr {
    TransportAddr { ip: vec![192, 168, 0, last], port: 51820 }
}

#[test]
fn initiate_builds_request() {
    let (state, req) = initiate(&"A".to_string(), &"Node A".to_string(), 5, 1000).unwrap();
    assert!(matches!(state, InitiatorState::AwaitingResponse { retries: 0, sent_at: 1000, .. }));
    assert_eq!(req.version, PROTOCOL_VERSION);
    assert_eq!(req.node_id, "A");
    assert_eq!(req.node_name, "Node A");
    assert_eq!(req.public_key.len(), 32);
    assert_eq!(req.supported_protocols, vec![PROTOCOL_VERSION]);
    assert_eq!(req.capabilities, 5);
}

#[test]
fn both_sides_derive_the_same_session_key() {
    let (state_a, req) = initiate(&"A".to_string(), &"Node A".to_string(), 0, 1000).unwrap();
    let (resp, peer_a, key_b) =
        respond(&req, &"B".to_string(), &"Node B".to_string(), addr(1), 1001).unwrap();
    // the responder records the initiator as online
    assert_eq!(peer_a.node_id, "A");
    assert_eq!(peer_a.status, NodeStatus::Online);
    assert_eq!(peer_a.last_seen, 1001);
    assert_eq!(peer_a.public_key, req.public_key);
    // the session key never rides the wire
    assert_eq!(resp.status, 0);
    assert!(resp.session_key.is_empty());
    // the initiator derives the same key locally
    let (state_a, peer_b) = on_response(state_a, &resp, addr(2), 1002);
    let peer_b = peer_b.unwrap();
    assert_eq!(peer_b.node_id, "B");
    assert_eq!(peer_b.status, NodeStatus::Online);
    match state_a {
        InitiatorState::Established { session_key } => {
            assert_eq!(session_key.len(), 32);
            assert_eq!(session_key, key_b);
        }
        _ => panic!("initiator did not establish"),
    }
}

#[test]
fn respond_refuses_foreign_version() {
    let req = HandshakeRequest {
        version: PROTOCOL_VERSION + 1,
        public_key: vec![0u8; 32],
        node_id: "A".to_string(),
        node_name: "Node A".to_string(),
        supported_protocols: vec![PROTOCOL_VERSION],
        capabilities: 0,
    };
    assert_eq!(
        respond(&req, &"B".to_string(), &"Node B".to_string(), addr(1), 0).unwrap_err(),
        HandshakeError::VersionMismatch
    );
}

#[test]
fn unexpected_response_is_dropped() {
    let (_, req) = initiate(&"A".to_string(), &"Node A".to_string(), 0, 0).unwrap();
    let (resp, _, _) = respond(&req, &"B".to_string(), &"Node B".to_string(), addr(1), 0).unwrap();
    let (state, peer) = on_response(InitiatorState::Idle, &resp, addr(2), 1);
    assert!(matches!(state, InitiatorState::Idle));
    assert!(peer.is_none());
}

#[test]
fn rejected_response_abandons_the_attempt() {
    let (state, req) = initiate(&"A".to_string(), &"Node A".to_string(), 0, 0).unwrap();
    let (mut resp, _, _) =
        respond(&req, &"B".to_string(), &"Node B".to_string(), addr(1), 0).unwrap();
    resp.status = 1;
    let (state, peer) = on_response(state, &resp, addr(2), 1);
    assert!(matches!(state, InitiatorState::Failed));
    assert!(peer.is_none());
}

#[test]
fn timeouts_retry_up_to_the_bound_then_abandon() {
    let (mut state, _) = initiate(&"A".to_string(), &"Node A".to_string(), 0, 0).unwrap();
    for round in 1..=3u32 {
        let (next, resend) = on_timeout(state, 3, round as u64);
        assert!(resend, "retry {} should resend", round);
        match &next {
            InitiatorState::AwaitingResponse { retries, sent_at, .. } => {
                assert_eq!(*retries, round);
                assert_eq!(*sent_at, round as u64);
            }
            _ => panic!("attempt abandoned too early"),
        }
        state = next;
    }
    let (state, resend) = on_timeout(state, 3, 99);
    assert!(!resend);
    assert!(matches!(state, InitiatorState::Failed));
}
