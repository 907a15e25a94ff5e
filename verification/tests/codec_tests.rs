use chatcall::codec::PacketCodec;
use chatcall::packet::{PacketError, PacketHeader};
use chatcall::packet_type::PacketType;

#[test]
fn test_single_packet_decode() {
    let mut codec = PacketCodec::new();
    let header = PacketHeader::new(PacketType::Ping, 4);
    let mut data = header.to_bytes().to_vec();
    data.extend_from_slice(&[1, 2, 3, 4]); // payload

    codec.feed(&data);
    let result = codec.try_decode().unwrap().unwrap();
    assert_eq!(result.len(), PacketHeader::SIZE + 4);
}

#[test]
fn test_partial_packet() {
    let mut codec = PacketCodec::new();
    let header = PacketHeader::new(PacketType::Ping, 100);
    let data = header.to_bytes().to_vec();

    codec.feed(&data);
    assert!(codec.try_decode().is_none());
}

#[test]
fn test_multiple_packets() {
    let mut codec = PacketCodec::new();

    let h1 = PacketHeader::new(PacketType::Ping, 2);
    let mut p1 = h1.to_bytes().to_vec();
    p1.extend_from_slice(&[0xAA, 0xBB]);

    let h2 = PacketHeader::new(PacketType::Pong, 3);
    let mut p2 = h2.to_bytes().to_vec();
    p2.extend_from_slice(&[0xCC, 0xDD, 0xEE]);

    codec.feed(&p1);
    codec.feed(&p2);

    let r1 = codec.try_decode().unwrap().unwrap();
    assert_eq!(r1.len(), PacketHeader::SIZE + 2);

    let r2 = codec.try_decode().unwrap().unwrap();
    assert_eq!(r2.len(), PacketHeader::SIZE + 3);

    assert!(codec.try_decode().is_none());
}

#[test]
fn test_fragmented_delivery() {
    let mut codec = PacketCodec::new();
    let header = PacketHeader::new(PacketType::ChatMessage, 5);
    let mut full_packet = header.to_bytes().to_vec();
    full_packet.extend_from_slice(&[1, 2, 3, 4, 5]);

    codec.feed(&full_packet[..3]);
    assert!(codec.try_decode().is_none());

    codec.feed(&full_packet[3..10]);
    assert!(codec.try_decode().is_none());

    codec.feed(&full_packet[10..]);
    let result = codec.try_decode().unwrap().unwrap();
    assert_eq!(result, full_packet);
}

#[test]
fn corrupted_bytes_skip_to_next_magic() {
    let mut codec = PacketCodec::new();
    let mut good = PacketHeader::new(PacketType::Ping, 1).to_bytes().to_vec();
    good.push(0x55);
    let mut data = vec![0x00, 0x01, 0x02];
    data.extend_from_slice(&good);
    codec.feed(&data);
    assert!(matches!(codec.try_decode(), Some(Err(PacketError::InvalidMagic { got: [0x00, 0x01] }))));
    assert_eq!(codec.buffered_len(), good.len());
    assert_eq!(codec.try_decode().unwrap().unwrap(), good);
    assert_eq!(codec.buffered_len(), 0);
}

#[test]
fn oversized_payload_rejected() {
    let mut codec = PacketCodec::with_max_payload(16);
    let header = PacketHeader::new(PacketType::ChatMessage, 17);
    codec.feed(&header.to_bytes());
    assert!(matches!(codec.try_decode(), Some(Err(PacketError::TooShort { expected: 16, got: 17 }))));
    // no magic after the first byte: everything is dropped
    assert_eq!(codec.buffered_len(), 0);
}

#[test]
fn garbage_without_magic_is_cleared() {
    let mut codec = PacketCodec::default();
    codec.feed(&[1, 2, 3, 4, 5, 6, 7, 8, 9]);
    assert!(matches!(codec.try_decode(), Some(Err(PacketError::InvalidMagic { .. }))));
    assert_eq!(codec.buffered_len(), 0);
    assert!(codec.try_decode().is_none());
}

#[test]
fn encode_is_identity() {
    assert_eq!(PacketCodec::encode(&[1, 2, 3]), vec![1, 2, 3]);
}
