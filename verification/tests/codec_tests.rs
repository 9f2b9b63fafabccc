use vpnet::codec::{calculate_checksum, verify_checksum, DecodeError};
use vpnet::protocol::{MessageType, Packet, HEADER_LEN, MAGIC, PROTOCOL_VERSION};

#[test]
fn checksum_of_empty_payload() {
    assert_eq!(calculate_checksum(&vec![]), 0xFFFF);
}

#[test]
fn checksum_known_values() {
    // One word 0x0001: folded sum 1, complement 0xFFFE.
    assert_eq!(calculate_checksum(&vec![0x00, 0x01]), 0xFFFE);
    // 0x1234 + 0x5600 (odd byte padded high) = 0x6834 -> !0x6834 = 0x97CB.
    assert_eq!(calculate_checksum(&vec![0x12, 0x34, 0x56]), 0x97CB);
    // Carry folding: 0xFFFF + 0xFFFF = 0x1FFFE -> 0xFFFF -> complement 0.
    assert_eq!(calculate_checksum(&vec![0xFF, 0xFF, 0xFF, 0xFF]), 0x0000);
}

#[test]
fn checksum_round_trip() {
    let cases: Vec<Vec<u8>> = vec![
        vec![],
        vec![0],
        vec![1, 2, 3],
        vec![0xFF; 64],
        (0u8..=255).collect(),
    ];
    for data in cases {
        let c = calculate_checksum(&data);
        assert!(verify_checksum(&data, c));
        assert!(!verify_checksum(&data, c.wrapping_add(1)));
    }
}

#[test]
fn checksum_detects_single_bit_flips() {
    let data: Vec<u8> = vec![0x12, 0x34, 0x56, 0x78, 0x9A];
    let c = calculate_checksum(&data);
    for i in 0..data.len() {
        for b in 0..8 {
            let mut flipped = data.clone();
            flipped[i] ^= 1 << b;
            assert!(
                !verify_checksum(&flipped, c),
                "flip of bit {} in byte {} went undetected",
                b,
                i
            );
        }
    }
}

#[test]
fn packet_round_trip() {
    let payload = vec![1u8, 2, 3, 4, 5];
    let packet = Packet::new(MessageType::Heartbeat, 7, payload.clone()).unwrap();
    assert_eq!(packet.magic, MAGIC);
    assert_eq!(packet.version, PROTOCOL_VERSION);
    assert_eq!(packet.length as usize, payload.len());
    assert_eq!(packet.checksum, calculate_checksum(&payload));
    let bytes = packet.encode();
    assert_eq!(bytes.len(), HEADER_LEN + payload.len());
    let decoded = Packet::decode(&bytes).unwrap();
    assert_eq!(decoded.magic, MAGIC);
    assert_eq!(decoded.version, PROTOCOL_VERSION);
    assert_eq!(decoded.msg_type, MessageType::Heartbeat);
    assert_eq!(decoded.flags, 7);
    assert_eq!(decoded.length, packet.length);
    assert_eq!(decoded.checksum, packet.checksum);
    assert_eq!(decoded.data, payload);
}

#[test]
fn packet_header_layout() {
    let packet = Packet::new(MessageType::HandshakeRequest, 0, vec![0xAB]).unwrap();
    let bytes = packet.encode();
    // magic "VNET" big-endian
    assert_eq!(&bytes[0..4], &[0x56, 0x4E, 0x45, 0x54]);
    assert_eq!(bytes[4], PROTOCOL_VERSION);
    assert_eq!(bytes[5], 1); // HandshakeRequest tag
    assert_eq!(bytes[6], 0); // flags
    assert_eq!(&bytes[7..9], &[0x00, 0x01]); // length
    assert_eq!(bytes[11], 0xAB);
}

#[test]
fn packet_too_long_is_refused() {
    let r = Packet::new(MessageType::DataForward, 0, vec![0u8; 16385]);
    assert!(r.is_err());
}

#[test]
fn decode_rejects_short_buffer() {
    assert_eq!(
        Packet::decode(&vec![0u8; 10]).unwrap_err(),
        DecodeError::MalformedHeader
    );
}

#[test]
fn decode_rejects_foreign_magic() {
    let mut bytes = Packet::new(MessageType::Heartbeat, 0, vec![]).unwrap().encode();
    bytes[0] ^= 0xFF;
    assert_eq!(Packet::decode(&bytes).unwrap_err(), DecodeError::MagicMismatch);
}

#[test]
fn decode_rejects_foreign_version() {
    let mut bytes = Packet::new(MessageType::Heartbeat, 0, vec![]).unwrap().encode();
    bytes[4] = PROTOCOL_VERSION + 1;
    assert_eq!(Packet::decode(&bytes).unwrap_err(), DecodeError::MagicMismatch);
}

#[test]
fn decode_rejects_unknown_message_type() {
    let mut bytes = Packet::new(MessageType::Heartbeat, 0, vec![]).unwrap().encode();
    bytes[5] = 11;
    assert_eq!(
        Packet::decode(&bytes).unwrap_err(),
        DecodeError::UnknownMessageType
    );
    bytes[5] = 0;
    assert_eq!(
        Packet::decode(&bytes).unwrap_err(),
        DecodeError::UnknownMessageType
    );
}

#[test]
fn decode_rejects_length_mismatch() {
    let mut bytes = Packet::new(MessageType::Heartbeat, 0, vec![1, 2, 3]).unwrap().encode();
    bytes.push(0); // extra byte the length field does not cover
    assert_eq!(Packet::decode(&bytes).unwrap_err(), DecodeError::LengthMismatch);
}

#[test]
fn message_type_tags_cover_declared_range() {
    let all = [
        MessageType::HandshakeRequest,
        MessageType::HandshakeResponse,
        MessageType::NodeDiscovery,
        MessageType::NodeInfo,
        MessageType::DataForward,
        MessageType::Heartbeat,
        MessageType::RouteUpdate,
        MessageType::ConnectionClose,
        MessageType::AuthRequest,
        MessageType::AuthResponse,
    ];
    for (i, t) in all.iter().enumerate() {
        assert_eq!(t.tag() as usize, i + 1);
        assert_eq!(MessageType::from_tag(t.tag()), Some(*t));
    }
    assert_eq!(MessageType::from_tag(0), None);
    assert_eq!(MessageType::from_tag(11), None);
}
