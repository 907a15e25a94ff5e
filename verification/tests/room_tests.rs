use chatcall::chat::{ChatMessage, MessageStatus};
use chatcall::time_of_day::UtcTime;
use chatcall::errors::{ClientError, HostError};
use chatcall::packet::{ChatPacket, ControlPacket, HandshakeAckPayload, PacketError, PacketHeader};
use chatcall::packet_type::PacketType;
use chatcall::profile::UserProfile;
use chatcall::room_state::{RoomConfig, RoomState};
use chatcall::serialization::{check_size, SerializationError};
use chatcall::session::{
    check_handshake_ack, client_udp_port, host_admit, host_dispatch, host_join_ack, leave_packet,
    ClientSession, HostAction,
};
use chatcall::{DEFAULT_TCP_PORT, DEFAULT_UDP_PORT};

fn small_room(max_users: u8) -> RoomState {
    let mut config = RoomConfig::default();
    config.room_name = "Test Room".to_string();
    config.max_users = max_users;
    RoomState::new(config)
}

// ── Room state ───────────────────────────────────────────────

#[test]
fn room_config_default() {
    let c = RoomConfig::default();
    assert_eq!(c.room_name, "ChatCall Room");
    assert_eq!(c.host_name, "Host");
    assert_eq!(c.max_users, 20);
    assert_eq!(c.tcp_port, DEFAULT_TCP_PORT);
    assert_eq!(c.udp_port, DEFAULT_UDP_PORT);
}

#[test]
fn room_ids_start_at_one_and_are_unique() {
    let mut room = small_room(3);
    assert!(room.is_active);
    assert_eq!(room.add_user("alice".to_string()), Some(1));
    assert_eq!(room.add_user("bob".to_string()), Some(2));
    assert_eq!(room.user_count(), 2);
    assert_eq!(room.get_user(1).unwrap().username, "alice");
    assert!(!room.get_user(2).unwrap().is_host);
    assert!(room.get_user(3).is_none());
    // a removed id is never handed out again
    let removed = room.remove_user(1).unwrap();
    assert_eq!(removed.username, "alice");
    assert!(room.remove_user(1).is_none());
    assert_eq!(room.add_user("carol".to_string()), Some(3));
}

#[test]
fn room_full_refuses() {
    let mut room = small_room(2);
    assert!(!room.is_full());
    room.add_user("a".to_string());
    room.add_user("b".to_string());
    assert!(room.is_full());
    assert_eq!(room.add_user("c".to_string()), None);
    assert_eq!(room.user_count(), 2);
    assert_eq!(room.next_user_id, 3);
}

#[test]
fn room_mute_and_list() {
    let mut room = small_room(5);
    room.add_user("a".to_string());
    room.add_user("b".to_string());
    room.set_user_muted(2, true);
    room.set_user_muted(9, true); // unknown: no effect
    assert!(room.get_user(2).unwrap().is_muted);
    assert!(!room.get_user(1).unwrap().is_muted);
    let mut list = room.user_list();
    list.sort_by_key(|u| u.user_id);
    assert_eq!(list.len(), 2);
    assert_eq!((list[0].user_id, list[0].username.as_str(), list[0].is_muted), (1, "a", false));
    assert_eq!((list[1].user_id, list[1].username.as_str(), list[1].is_muted), (2, "b", true));
}

// ── Profile ──────────────────────────────────────────────────

#[test]
fn profile_colour_from_name() {
    // "ab": (97 * 31 + 98) = 3105, 3105 % 360 = 225
    let p = UserProfile::new("ab".to_string());
    assert_eq!(p.username, "ab");
    assert_eq!(p.avatar_color, "hsl(225, 70%, 60%)");
    let empty = UserProfile::new(String::new());
    assert_eq!(empty.avatar_color, "hsl(0, 70%, 60%)");
}

#[test]
fn profile_default_is_user() {
    // "User": ((85*31 + 115)*31 + 101)*31 + 114 = 2_645_995; % 360 = 355
    let p = UserProfile::default();
    assert_eq!(p.username, "User");
    assert_eq!(p.avatar_color, "hsl(355, 70%, 60%)");
}

// ── Chat messages ────────────────────────────────────────────

#[test]
fn chat_message_new_and_received() {
    let m = ChatMessage::new(7, "alice".to_string(), "hi".to_string());
    assert_eq!(m.user_id, 7);
    assert_eq!(m.status, MessageStatus::Sending);
    assert_eq!(m.id[6] >> 4, 4);
    assert!(m.timestamp.secs > 0);
    let at = UtcTime { secs: 1234, nanos: 567 };
    let r = ChatMessage::received([0xAB; 16], 3, "bob".to_string(), "yo".to_string(), at);
    assert_eq!(r.status, MessageStatus::Delivered);
    assert_eq!(r.timestamp, at);
    assert_eq!(r.id_hex(), "abababababababababababababababab");
}

#[test]
fn message_ids_are_v4_and_differ() {
    let a = ChatMessage::new(1, "a".to_string(), "x".to_string()).id;
    let b = ChatMessage::new(1, "a".to_string(), "x".to_string()).id;
    assert_ne!(a, b);
    assert_eq!(a[8] >> 6, 2);
}

#[test]
fn status_codes_roundtrip() {
    for s in [MessageStatus::Sending, MessageStatus::Delivered, MessageStatus::Failed] {
        assert_eq!(MessageStatus::from_code(s.to_code()), s);
    }
    assert_eq!(MessageStatus::Delivered.to_code(), 1);
    assert_eq!(MessageStatus::from_code(99), MessageStatus::Failed);
}

// ── Serialization size limit ─────────────────────────────────

#[test]
fn test_bounded_serialization() {
    let value = (1u32, "test".to_string(), vec![0u8; 100]);
    let size = bincode::serialized_size(&value).unwrap();
    // Should fail if limit is too small
    assert!(check_size(size, 10).is_err());
    // Should succeed with reasonable limit
    assert!(check_size(size, 1000).is_ok());
}

#[test]
fn check_size_message() {
    match check_size(120, 10) {
        Err(SerializationError::SerializeFailed(m)) => {
            assert_eq!(m, "Serialized size 120 exceeds limit 10")
        }
        other => panic!("unexpected {:?}", other),
    }
    assert!(check_size(10, 10).is_ok());
}

// ── Session decisions ────────────────────────────────────────

#[test]
fn host_dispatch_by_type() {
    let chat = ChatPacket::new([1; 16], 2, 3, b"x".to_vec()).to_bytes();
    assert_eq!(host_dispatch(&chat), HostAction::RelayChat);
    assert_eq!(host_dispatch(&leave_packet()), HostAction::Leave);
    let ping = ControlPacket::new(PacketType::Ping, vec![0; 8]).to_bytes();
    assert_eq!(host_dispatch(&ping), HostAction::ReplyPong);
    let other = ControlPacket::new(PacketType::UserList, vec![]).to_bytes();
    assert_eq!(host_dispatch(&other), HostAction::Ignore);
    assert_eq!(host_dispatch(&[0, 1, 2]), HostAction::Ignore);
}

#[test]
fn leave_packet_is_header_only() {
    let bytes = leave_packet();
    assert_eq!(bytes.len(), PacketHeader::SIZE);
    let h = PacketHeader::from_bytes(&bytes).unwrap();
    assert_eq!(h.packet_type, PacketType::LeaveRoom);
    assert_eq!(h.payload_length, 0);
}

#[test]
fn host_admits_until_full() {
    let mut room = small_room(1);
    let key = [9u8; 32];
    let ack: HandshakeAckPayload = host_admit(&mut room, "alice".to_string(), key).unwrap();
    assert_eq!(ack.user_id, 1);
    assert_eq!(ack.room_name, "Test Room");
    assert_eq!(ack.host_public_key, key);
    assert_eq!(ack.tcp_port, DEFAULT_TCP_PORT);
    assert_eq!(ack.udp_port, DEFAULT_UDP_PORT);
    assert!(matches!(host_admit(&mut room, "bob".to_string(), key), Err(HostError::RoomFull)));
    assert_eq!(room.next_user_id, 2);
    assert_eq!(room.user_count(), 1);
    let join = host_join_ack(&room);
    assert_eq!(join.room_name, "Test Room");
    assert_eq!(join.users.len(), 1);
    assert_eq!(join.users[0].username, "alice");
}

#[test]
fn client_port_is_one_above() {
    assert_eq!(client_udp_port(7771), 7772);
}

#[test]
fn handshake_ack_check() {
    let ok = ControlPacket::new(PacketType::HandshakeAck, vec![1, 2]).to_bytes();
    let p = check_handshake_ack(&ok).unwrap();
    assert_eq!(p.payload, vec![1, 2]);
    let wrong = ControlPacket::new(PacketType::Ping, vec![]).to_bytes();
    assert!(matches!(check_handshake_ack(&wrong), Err(ClientError::HandshakeFailed)));
    assert!(matches!(
        check_handshake_ack(&[0xCC]),
        Err(ClientError::Packet(PacketError::TooShort { .. }))
    ));
}

#[test]
fn client_session_lifecycle() {
    let mut s = ClientSession::new("alice".to_string());
    assert!(!s.is_connected());
    assert_eq!(s.user_id_exec(), None);
    assert!(s.check_not_connected().is_ok());
    assert!(s.send_cipher().is_none());

    // plain chat before keys: payload is the text itself, user id 0
    let bytes = s.prepare_chat("hi", [5; 16], 77);
    let p = ChatPacket::from_bytes(&bytes).unwrap();
    assert_eq!(p.user_id, 0);
    assert_eq!(p.payload, b"hi".to_vec());
    assert_eq!(p.timestamp, 77);
    assert!(s.ack_tracker().is_pending(&[5; 16]));

    s.establish(4, "Room".to_string(), &[3u8; 32]);
    assert!(s.is_connected());
    assert_eq!(s.user_id_exec(), Some(4));
    assert_eq!(s.room_name(), Some("Room"));
    assert_eq!(s.username_exec(), "alice");
    assert!(matches!(s.check_not_connected(), Err(ClientError::AlreadyConnected)));

    // encrypted chat after keys: the host's receive key opens it
    let bytes = s.prepare_chat("secret", [6; 16], 78);
    let p = ChatPacket::from_bytes(&bytes).unwrap();
    assert_eq!(p.user_id, 4);
    assert_ne!(p.payload, b"secret".to_vec());
    let host = chatcall::session_key::SessionKeys::derive(&[3u8; 32], true);
    assert_eq!(host.recv_cipher.decrypt(&p.payload).unwrap(), b"secret".to_vec());

    s.disconnect();
    assert!(!s.is_connected());
    assert_eq!(s.user_id_exec(), None);
    assert!(s.send_cipher().is_none());
    assert_eq!(s.room_name(), Some("Room"));
}

#[test]
fn host_relays_what_a_client_prepares() {
    let mut s = ClientSession::new("zoe".to_string());
    s.establish(2, "R".to_string(), &[1u8; 32]);
    let bytes = s.prepare_chat("hello", [3; 16], 5);
    assert_eq!(host_dispatch(&bytes), HostAction::RelayChat);
    assert_eq!(host_dispatch(&leave_packet()), HostAction::Leave);
}

#[test]
fn utc_time_rfc3339_text() {
    let t = UtcTime { secs: 1_700_000_000, nanos: 123_456_789 };
    let text = t.to_rfc3339();
    assert_eq!(text, "2023-11-14T22:13:20.123456789+00:00");
    assert_eq!(UtcTime::from_rfc3339(&text), t);
    assert_eq!(UtcTime { secs: 0, nanos: 0 }.to_rfc3339(), "1970-01-01T00:00:00+00:00");
    // out of range: the epoch's text
    assert_eq!(UtcTime { secs: i64::MAX, nanos: 0 }.to_rfc3339(), "1970-01-01T00:00:00+00:00");
    assert_eq!(
        UtcTime::from_rfc3339("2024-01-02T03:04:05+01:00"),
        UtcTime { secs: 1_704_161_045, nanos: 0 }
    );
}
