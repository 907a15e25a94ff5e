use chatcall::packet::{ChatPacket, ControlPacket, PacketError, PacketHeader, VoicePacket};
use chatcall::packet_type::PacketType;

#[test]
fn test_header_roundtrip() {
    let header = PacketHeader::new(PacketType::VoiceFrame, 1234);
    let bytes = header.to_bytes();
    let parsed = PacketHeader::from_bytes(&bytes).unwrap();
    assert_eq!(header, parsed);
}

#[test]
fn test_voice_packet_roundtrip() {
    let payload = vec![1, 2, 3, 4, 5, 6, 7, 8];
    let packet = VoicePacket::new(42, 1000, 7, payload.clone());
    let bytes = packet.to_bytes();
    let parsed = VoicePacket::from_bytes(&bytes).unwrap();
    assert_eq!(parsed.sequence, 42);
    assert_eq!(parsed.timestamp, 1000);
    assert_eq!(parsed.user_id, 7);
    assert_eq!(parsed.payload, payload);
}

#[test]
fn test_chat_packet_roundtrip() {
    let msg_id = [0xAB; 16];
    let payload = b"hello world".to_vec();
    let packet = ChatPacket::new(msg_id, 3, 1713052800000, payload.clone());
    let bytes = packet.to_bytes();
    let parsed = ChatPacket::from_bytes(&bytes).unwrap();
    assert_eq!(parsed.message_id, msg_id);
    assert_eq!(parsed.user_id, 3);
    assert_eq!(parsed.timestamp, 1713052800000);
    assert_eq!(parsed.payload, payload);
}

#[test]
fn test_control_packet_roundtrip() {
    // A handshake payload (username, public key) encoded as bincode does it.
    let handshake = ("alice".to_string(), [0x42u8; 32]);
    let payload = bincode::serialize(&handshake).unwrap();
    let packet = ControlPacket::new(PacketType::Handshake, payload);
    let bytes = packet.to_bytes();
    let parsed = ControlPacket::from_bytes(&bytes).unwrap();
    let decoded: (String, [u8; 32]) = bincode::deserialize(&parsed.payload).unwrap();
    assert_eq!(decoded.0, "alice");
    assert_eq!(decoded.1, [0x42; 32]);
}

#[test]
fn test_silence_packet() {
    let packet = VoicePacket::silence(10, 500, 1);
    assert_eq!(packet.header.packet_type, PacketType::VoiceSilence);
    assert!(packet.payload.is_empty());
    let bytes = packet.to_bytes();
    let parsed = VoicePacket::from_bytes(&bytes).unwrap();
    assert_eq!(parsed.sequence, 10);
    assert!(parsed.payload.is_empty());
}

#[test]
fn test_invalid_magic() {
    let mut bytes = PacketHeader::new(PacketType::Ping, 0).to_bytes();
    bytes[0] = 0xFF; // corrupt magic
    assert!(matches!(
        PacketHeader::from_bytes(&bytes),
        Err(PacketError::InvalidMagic { .. })
    ));
}

#[test]
fn header_bytes_are_little_endian() {
    let header = PacketHeader::new(PacketType::ChatMessage, 0x0403_0201);
    assert_eq!(header.to_bytes(), [0xCC, 0xAA, 0x01, 0x10, 0x01, 0x02, 0x03, 0x04]);
}

#[test]
fn header_errors_in_order() {
    assert!(matches!(
        PacketHeader::from_bytes(&[0xCC, 0xAA, 0x01]),
        Err(PacketError::TooShort { expected: 8, got: 3 })
    ));
    assert!(matches!(
        PacketHeader::from_bytes(&[0x00, 0x00, 0x09, 0x99, 0, 0, 0, 0]),
        Err(PacketError::InvalidMagic { got: [0x00, 0x00] })
    ));
    assert!(matches!(
        PacketHeader::from_bytes(&[0xCC, 0xAA, 0x02, 0x10, 0, 0, 0, 0]),
        Err(PacketError::UnsupportedVersion { got: 2 })
    ));
    assert!(matches!(
        PacketHeader::from_bytes(&[0xCC, 0xAA, 0x01, 0x99, 0, 0, 0, 0]),
        Err(PacketError::UnknownPacketType { got: 0x99 })
    ));
}

#[test]
fn voice_packet_too_short_after_header() {
    let mut bytes = PacketHeader::new(PacketType::VoiceFrame, 10).to_bytes().to_vec();
    bytes.extend_from_slice(&[1, 2, 3]);
    assert!(matches!(
        VoicePacket::from_bytes(&bytes),
        Err(PacketError::TooShort { expected: 18, got: 11 })
    ));
}

#[test]
fn chat_packet_too_short_after_header() {
    let bytes = PacketHeader::new(PacketType::ChatMessage, 26).to_bytes();
    assert!(matches!(
        ChatPacket::from_bytes(&bytes),
        Err(PacketError::TooShort { expected: 34, got: 8 })
    ));
}

#[test]
fn voice_packet_length_field() {
    let packet = VoicePacket::new(1, 2, 3, vec![9; 5]);
    assert_eq!(packet.header.payload_length, 15);
    assert_eq!(packet.header.packet_type, PacketType::VoiceFrame);
    let bytes = packet.to_bytes();
    assert_eq!(bytes.len(), 8 + 10 + 5);
    assert_eq!(&bytes[8..12], &[1, 0, 0, 0]);
    assert_eq!(&bytes[16..18], &[3, 0]);
}

#[test]
fn chat_packet_layout() {
    let packet = ChatPacket::new([7; 16], 0x0102, 0x0807060504030201, vec![0xEE]);
    assert_eq!(packet.header.payload_length, 27);
    let bytes = packet.to_bytes();
    assert_eq!(&bytes[8..24], &[7; 16]);
    assert_eq!(&bytes[24..26], &[0x02, 0x01]);
    assert_eq!(&bytes[26..34], &[1, 2, 3, 4, 5, 6, 7, 8]);
    assert_eq!(bytes[34], 0xEE);
}

#[test]
fn control_packet_without_header_fails() {
    assert!(matches!(
        ControlPacket::from_bytes(&[0xCC]),
        Err(PacketError::TooShort { expected: 8, got: 1 })
    ));
    let packet = ControlPacket::new(PacketType::LeaveRoom, Vec::new());
    assert_eq!(packet.header.payload_length, 0);
    assert_eq!(packet.to_bytes().len(), 8);
}

#[test]
fn packet_type_codes() {
    for b in 0u8..=255 {
        if let Some(t) = PacketType::from_u8(b) {
            assert_eq!(t.to_u8(), b);
            assert_eq!(t.is_tcp(), b < 0x40);
            assert_eq!(t.is_udp(), b >= 0x40);
        }
    }
    assert_eq!(PacketType::from_u8(0x10), Some(PacketType::ChatMessage));
    assert_eq!(PacketType::from_u8(0x12), None);
    assert!(PacketType::Ping.is_tcp());
    assert!(PacketType::VoiceFrame.is_udp());
    assert!(PacketType::DiscoveryAnnounce.is_udp());
}
