use vpnet::codec::DecodeError;
use vpnet::messages::{
    decode_auth_request, decode_auth_response, decode_data_forward, decode_handshake_request,
    decode_handshake_response, decode_heartbeat, decode_node_info, decode_route_update,
    encode_auth_request, encode_auth_response, encode_data_forward, encode_handshake_request,
    encode_handshake_response, encode_heartbeat, encode_node_info, encode_route_update,
};
use vpnet::protocol::{
    AuthRequest, AuthResponse, DataForward, HandshakeRequest, HandshakeResponse, Heartbeat,
    NodeInfo, RouteEntry, RouteUpdate, TransportAddr,
};

#[test]
fn heartbeat_round_trip() {
    let hb = Heartbeat {
        node_id: "node-1".to_string(),
        timestamp: 0x0102030405060708,
        load: 250,
        uptime: 3600,
    };
    let bytes = encode_heartbeat(&hb).unwrap();
    let back = decode_heartbeat(&bytes).unwrap();
    assert_eq!(back.node_id, hb.node_id);
    assert_eq!(back.timestamp, hb.timestamp);
    assert_eq!(back.load, hb.load);
    assert_eq!(back.uptime, hb.uptime);
}

#[test]
fn heartbeat_layout_is_exact() {
    let hb = Heartbeat { node_id: "ab".to_string(), timestamp: 1, load: 2, uptime: 3 };
    let bytes = encode_heartbeat(&hb).unwrap();
    assert_eq!(
        bytes,
        vec![
            0, 2, b'a', b'b', // length-prefixed id
            0, 0, 0, 0, 0, 0, 0, 1, // timestamp
            0, 0, 0, 2, // load
            0, 0, 0, 0, 0, 0, 0, 3, // uptime
        ]
    );
}

#[test]
fn heartbeat_rejects_trailing_bytes() {
    let hb = Heartbeat { node_id: "n".to_string(), timestamp: 0, load: 0, uptime: 0 };
    let mut bytes = encode_heartbeat(&hb).unwrap();
    bytes.push(0);
    assert_eq!(decode_heartbeat(&bytes).unwrap_err(), DecodeError::PayloadInvalid);
}

#[test]
fn heartbeat_rejects_truncation_and_bad_utf8() {
    let hb = Heartbeat { node_id: "n".to_string(), timestamp: 0, load: 0, uptime: 0 };
    let bytes = encode_heartbeat(&hb).unwrap();
    assert!(decode_heartbeat(&bytes[..bytes.len() - 1].to_vec()).is_err());
    let bad = vec![0, 1, 0xFF, 0, 0, 0, 0, 0, 0, 0, 0, 0, 0, 0, 0, 0, 0, 0, 0, 0, 0, 0, 0];
    assert!(decode_heartbeat(&bad).is_err());
}

#[test]
fn handshake_request_round_trip() {
    let req = HandshakeRequest {
        version: 1,
        public_key: (0u8..32).collect(),
        node_id: "client_деадбиф".to_string(), // non-ASCII ids survive
        node_name: "Node \u{1F980}".to_string(),
        supported_protocols: vec![1, 2],
        capabilities: 0xDEADBEEF,
    };
    let bytes = encode_handshake_request(&req).unwrap();
    let back = decode_handshake_request(&bytes).unwrap();
    assert_eq!(back.version, req.version);
    assert_eq!(back.public_key, req.public_key);
    assert_eq!(back.node_id, req.node_id);
    assert_eq!(back.node_name, req.node_name);
    assert_eq!(back.supported_protocols, req.supported_protocols);
    assert_eq!(back.capabilities, req.capabilities);
}

#[test]
fn handshake_response_round_trip() {
    let resp = HandshakeResponse {
        version: 1,
        public_key: vec![7u8; 32],
        node_id: "srv".to_string(),
        node_name: "Server".to_string(),
        status: 0,
        message: "Handshake successful".to_string(),
        session_key: vec![],
    };
    let bytes = encode_handshake_response(&resp).unwrap();
    let back = decode_handshake_response(&bytes).unwrap();
    assert_eq!(back.public_key, resp.public_key);
    assert_eq!(back.node_id, resp.node_id);
    assert_eq!(back.status, 0);
    assert_eq!(back.message, resp.message);
    assert!(back.session_key.is_empty());
}

#[test]
fn node_info_round_trip() {
    let ni = NodeInfo {
        node_id: "n1".to_string(),
        node_name: "Node One".to_string(),
        public_key: vec![1, 2, 3],
        address: TransportAddr { ip: vec![192, 168, 1, 7], port: 51820 },
        virtual_ip: "10.0.0.7".to_string(),
        subnet: "255.255.255.0".to_string(),
        online: true,
        last_seen: 424242,
        capabilities: 3,
    };
    let bytes = encode_node_info(&ni).unwrap();
    let back = decode_node_info(&bytes).unwrap();
    assert_eq!(back.node_id, ni.node_id);
    assert_eq!(back.node_name, ni.node_name);
    assert_eq!(back.public_key, ni.public_key);
    assert_eq!(back.address.ip, ni.address.ip);
    assert_eq!(back.address.port, ni.address.port);
    assert_eq!(back.virtual_ip, ni.virtual_ip);
    assert_eq!(back.subnet, ni.subnet);
    assert_eq!(back.online, ni.online);
    assert_eq!(back.last_seen, ni.last_seen);
    assert_eq!(back.capabilities, ni.capabilities);
}

#[test]
fn data_forward_round_trip() {
    let df = DataForward {
        source_node: "a".to_string(),
        dest_node: "b".to_string(),
        data: (0u8..200).collect(),
        protocol: 4,
    };
    let bytes = encode_data_forward(&df).unwrap();
    let back = decode_data_forward(&bytes).unwrap();
    assert_eq!(back.source_node, df.source_node);
    assert_eq!(back.dest_node, df.dest_node);
    assert_eq!(back.data, df.data);
    assert_eq!(back.protocol, df.protocol);
}

#[test]
fn auth_request_round_trip() {
    let ar = AuthRequest {
        node_id: "n".to_string(),
        public_key: vec![5; 32],
        request_time: 99,
        signature: vec![6; 64],
    };
    let bytes = encode_auth_request(&ar).unwrap();
    let back = decode_auth_request(&bytes).unwrap();
    assert_eq!(back.node_id, ar.node_id);
    assert_eq!(back.public_key, ar.public_key);
    assert_eq!(back.request_time, ar.request_time);
    assert_eq!(back.signature, ar.signature);
}

#[test]
fn auth_response_round_trip_with_and_without_token() {
    let with = AuthResponse {
        node_id: "n".to_string(),
        status: 0,
        message: "ok".to_string(),
        token: Some("SECRET-REDACTED".to_string()),
        expires_at: Some(1234567890),
    };
    let bytes = encode_auth_response(&with).unwrap();
    let back = decode_auth_response(&bytes).unwrap();
    assert_eq!(back.token, with.token);
    assert_eq!(back.expires_at, with.expires_at);
    let without = AuthResponse {
        node_id: "n".to_string(),
        status: 2,
        message: "denied".to_string(),
        token: None,
        expires_at: None,
    };
    let bytes = encode_auth_response(&without).unwrap();
    let back = decode_auth_response(&bytes).unwrap();
    assert_eq!(back.status, 2);
    assert_eq!(back.token, None);
    assert_eq!(back.expires_at, None);
}

#[test]
fn auth_response_rejects_bad_presence_flag() {
    let ar = AuthResponse {
        node_id: "n".to_string(),
        status: 0,
        message: String::new(),
        token: None,
        expires_at: None,
    };
    let mut bytes = encode_auth_response(&ar).unwrap();
    let flag_pos = bytes.len() - 2; // token presence flag
    bytes[flag_pos] = 2;
    assert_eq!(decode_auth_response(&bytes).unwrap_err(), DecodeError::PayloadInvalid);
}

#[test]
fn oversized_fields_are_refused() {
    let hb = Heartbeat {
        node_id: "x".repeat(0x10000),
        timestamp: 0,
        load: 0,
        uptime: 0,
    };
    assert!(encode_heartbeat(&hb).is_err());
    let df = DataForward {
        source_node: "a".to_string(),
        dest_node: "b".to_string(),
        data: vec![0u8; 0x10000],
        protocol: 4,
    };
    assert!(encode_data_forward(&df).is_err());
}

#[test]
fn route_update_round_trip() {
    let ru = RouteUpdate {
        node_id: "router-1".to_string(),
        routes: vec![
            RouteEntry {
                network: "10.1.0.0".to_string(),
                mask: "255.255.0.0".to_string(),
                gateway: "10.0.0.1".to_string(),
                metric: 10,
            },
            RouteEntry {
                network: "10.2.0.0".to_string(),
                mask: "255.255.0.0".to_string(),
                gateway: "10.0.0.2".to_string(),
                metric: 20,
            },
        ],
    };
    let bytes = encode_route_update(&ru).unwrap();
    let back = decode_route_update(&bytes).unwrap();
    assert_eq!(back.node_id, ru.node_id);
    assert_eq!(back.routes.len(), 2);
    for (a, b) in back.routes.iter().zip(ru.routes.iter()) {
        assert_eq!(a.network, b.network);
        assert_eq!(a.mask, b.mask);
        assert_eq!(a.gateway, b.gateway);
        assert_eq!(a.metric, b.metric);
    }
    // an empty batch survives too
    let empty = RouteUpdate { node_id: "r".to_string(), routes: vec![] };
    let bytes = encode_route_update(&empty).unwrap();
    let back = decode_route_update(&bytes).unwrap();
    assert!(back.routes.is_empty());
    // a truncated batch is refused
    let ru2 = RouteUpdate { node_id: "r".to_string(), routes: vec![RouteEntry {
        network: "n".to_string(), mask: "m".to_string(), gateway: "g".to_string(), metric: 1,
    }] };
    let mut bytes = encode_route_update(&ru2).unwrap();
    bytes.truncate(bytes.len() - 1);
    assert!(decode_route_update(&bytes).is_err());
}
