use chatcall::chat::{message_from_row, oldest_first, ChatMessage, MessageStatus};
use chatcall::errors::UdpError;
use chatcall::jitter_buffer::{EncodedFrame, JitterBuffer};
use chatcall::packet::{ControlPacket, VoicePacket};
use chatcall::packet_type::PacketType;
use chatcall::peer_table::PeerTable;
use chatcall::pipeline::{capture_step, frame_duration_ms, playback_step, FrameNumbering, PlaybackStep, RemoteStreams};
use chatcall::room_code::{encode_ip, CodeError};
use chatcall::room_state::{RoomConfig, RoomState};
use chatcall::sample_buffers::{CaptureFramer, PlaybackQueue, PLAYBACK_BACKLOG};
use chatcall::session::{announce_payload, announcement_payload, join_address, relay_sender, JoinTarget};
use chatcall::ui::RoomStatus;
use chatcall::time_of_day::UtcTime;
use chatcall::vad::VadState;
use chatcall::{DEFAULT_TCP_PORT, MAX_UDP_PACKET_SIZE};

fn frame(seq: u32, silence: bool) -> EncodedFrame {
    EncodedFrame { data: vec![seq as u8; 4], sequence: seq, timestamp: seq * 20, is_silence: silence }
}

// ── Peer table ───────────────────────────────────────────────

#[test]
fn peer_table_add_get_remove() {
    let mut t: PeerTable<(u32, u16)> = PeerTable::new();
    assert!(t.peer_ids().is_empty());
    t.add_peer(1, (10, 100));
    t.add_peer(2, (20, 200));
    t.add_peer(1, (11, 101)); // replaces
    assert_eq!(t.get_peer_addr(1), Some((11, 101)));
    let mut ids = t.peer_ids();
    ids.sort();
    assert_eq!(ids, vec![1, 2]);
    t.remove_peer(1);
    assert_eq!(t.get_peer_addr(1), None);
    assert_eq!(t.peer_ids(), vec![2]);
}

#[test]
fn peer_table_send_decisions() {
    let mut t: PeerTable<u8> = PeerTable::new();
    t.add_peer(0, 7);
    assert!(matches!(t.send_target(0, MAX_UDP_PACKET_SIZE), Ok(7)));
    assert!(matches!(t.send_target(5, 10), Err(UdpError::UnknownPeer(5))));
    assert!(matches!(
        t.send_target(0, MAX_UDP_PACKET_SIZE + 1),
        Err(UdpError::PacketTooLarge { size: 1401, max: 1400 })
    ));
    // the size check comes before the peer lookup
    assert!(matches!(t.send_target(5, 5000), Err(UdpError::PacketTooLarge { .. })));
    assert!(t.check_size(1400).is_ok());
    assert!(t.check_size(1401).is_err());
}

#[test]
fn peer_table_broadcast_excludes_sender() {
    let mut t: PeerTable<u8> = PeerTable::new();
    for id in 0..4u16 {
        t.add_peer(id, id as u8 * 10);
    }
    let mut to = t.broadcast_targets(100, 2).unwrap();
    to.sort();
    assert_eq!(to, vec![(0, 0), (1, 10), (3, 30)]);
    let mut all = t.broadcast_all_targets(100).unwrap();
    all.sort();
    assert_eq!(all.len(), 4);
    assert!(t.broadcast_targets(2000, 2).is_err());
}

// ── Voice pipeline decisions ─────────────────────────────────

#[test]
fn frame_numbering_wraps() {
    let mut n = FrameNumbering::new();
    let f0 = n.next_frame(vec![1, 2], 40);
    assert_eq!((f0.sequence, f0.timestamp, f0.is_silence, f0.data), (0, 40, false, vec![1, 2]));
    assert_eq!(n.sequence(), 1);
}

#[test]
fn frame_duration() {
    assert_eq!(frame_duration_ms(960), 20);
    assert_eq!(frame_duration_ms(47), 0);
    assert_eq!(frame_duration_ms(48_000), 1000);
}

#[test]
fn capture_step_respects_mute() {
    let mut vad = VadState::new();
    assert!(!capture_step(true, &mut vad, false, true));
    assert!(!vad.is_speaking()); // a muted frame does not reach the detector
    assert!(capture_step(false, &mut vad, false, true));
}

#[test]
fn playback_step_kinds() {
    let mut jb = JitterBuffer::new();
    // before any frame: conceal, stamped with depth 0
    assert!(matches!(playback_step(&mut jb), PlaybackStep::Conceal { timestamp: 0 }));
    for i in 0..4 {
        jb.push(frame(i, i == 1));
    }
    match playback_step(&mut jb) {
        PlaybackStep::Decode { data, timestamp } => {
            assert_eq!(data, vec![0u8; 4]);
            assert_eq!(timestamp, 80);
        }
        other => panic!("unexpected {:?}", other),
    }
    assert!(matches!(playback_step(&mut jb), PlaybackStep::Silent));
    assert!(matches!(playback_step(&mut jb), PlaybackStep::Decode { timestamp: 40, .. }));
    assert!(matches!(playback_step(&mut jb), PlaybackStep::Decode { timestamp: 20, .. }));
    assert!(matches!(playback_step(&mut jb), PlaybackStep::Conceal { timestamp: 0 }));
}

#[test]
fn remote_streams_per_user() {
    let mut s = RemoteStreams::new();
    assert!(s.receive(4, frame(0, false)));
    assert!(!s.receive(4, frame(1, false)));
    assert!(s.receive(9, frame(5, false)));
    let mut ids = s.stream_ids();
    ids.sort();
    assert_eq!(ids, vec![4, 9]);
    assert_eq!(s.user_jitter_stats(4), Some((2, 0, 0)));
    assert!(s.step_user(7).is_none());
    // user 4 has two frames of a target depth of three: still filling
    assert!(matches!(s.step_user(4), Some(PlaybackStep::Conceal { .. })));
    s.remove_user(4);
    assert_eq!(s.user_jitter_stats(4), None);
    assert_eq!(s.stream_ids(), vec![9]);
}

// ── Sample buffers ───────────────────────────────────────────

#[test]
fn capture_framer_cuts_frames() {
    let mut f: CaptureFramer<i16> = CaptureFramer::new();
    let a: Vec<i16> = (0..1000).collect();
    let out = f.feed(&a);
    assert_eq!(out.len(), 1);
    assert_eq!(out[0].0, (0..960).collect::<Vec<i16>>());
    assert_eq!(out[0].1, 0);
    let b: Vec<i16> = (1000..2900).collect();
    let out = f.feed(&b);
    assert_eq!(out.len(), 2);
    assert_eq!(out[0].0[0], 960);
    assert_eq!(out[0].1, 20);
    assert_eq!(out[1].0[0], 1920);
    assert_eq!(out[1].1, 40);
    f.pause();
    assert!(f.feed(&a).is_empty());
    f.resume();
    // 20 samples were pending: 2880..2900
    let out = f.feed(&vec![0i16; 940]);
    assert_eq!(out.len(), 1);
    assert_eq!(out[0].0[0], 2880);
    assert_eq!(out[0].1, 60);
}

#[test]
fn playback_queue_blocks_and_backlog() {
    let mut q: PlaybackQueue<i32> = PlaybackQueue::new();
    q.enqueue(&[1, 2, 3]);
    assert_eq!(q.take_block(2, 0), vec![1, 2]);
    assert_eq!(q.take_block(4, 0), vec![3, 0, 0, 0]);
    q.enqueue(&[5]);
    q.pause();
    assert_eq!(q.take_block(2, -1), vec![-1, -1]);
    q.resume();
    assert_eq!(q.take_block(1, 0), vec![5]);
    let big: Vec<i32> = (0..(PLAYBACK_BACKLOG as i32 + 5)).collect();
    q.enqueue(&big);
    // the oldest five were dropped
    assert_eq!(q.take_block(1, 0), vec![5]);
}

// ── Session decisions ────────────────────────────────────────

#[test]
fn relay_sender_reads_voice_packets() {
    let v = VoicePacket::new(1, 2, 42, vec![9; 3]).to_bytes();
    assert_eq!(relay_sender(&v), Some(42));
    assert_eq!(relay_sender(&v[..10]), None);
    assert_eq!(relay_sender(b"garbage!garbage!"), None);
}

#[test]
fn announcement_payload_filters_type() {
    let ok = ControlPacket::new(PacketType::DiscoveryAnnounce, vec![1, 2, 3]).to_bytes();
    assert_eq!(announcement_payload(&ok), Some(vec![1, 2, 3]));
    let other = ControlPacket::new(PacketType::Ping, vec![1]).to_bytes();
    assert_eq!(announcement_payload(&other), None);
    assert_eq!(announcement_payload(&[1, 2]), None);
}

#[test]
fn announce_payload_from_state() {
    let mut config = RoomConfig::default();
    config.host_name = "hoster".to_string();
    let mut state = RoomState::new(config);
    state.add_user("a".to_string());
    let p = announce_payload(&state);
    assert_eq!(p.room_name, "ChatCall Room");
    assert_eq!(p.host_name, "hoster");
    assert_eq!(p.user_count, 1);
    assert_eq!(p.max_users, 20);
    assert_eq!(p.tcp_port, DEFAULT_TCP_PORT);
}

#[test]
fn join_address_parses_ipv4() {
    assert_eq!(join_address(" 10.0.0.7 "), JoinTarget::Ipv4 { ip: 0x0A00_0007, port: DEFAULT_TCP_PORT });
    assert_eq!(join_address("10.0.0.7:80"), JoinTarget::SocketText(format!("10.0.0.7:80:{}", DEFAULT_TCP_PORT)));
    assert_eq!(join_address("host.example"), JoinTarget::SocketText("host.example:7770".to_string()));
}

#[test]
fn join_address_hands_on_bracketed_ipv6() {
    assert_eq!(join_address(" [::1]\t"), JoinTarget::SocketText("[::1]:7770".to_string()));
    assert_eq!(join_address("[fe80::1%2]"), JoinTarget::SocketText("[fe80::1%2]:7770".to_string()));
}

#[test]
fn code_error_messages() {
    assert_eq!(encode_ip("nope").unwrap_err().message(), "Invalid IP address: invalid IPv4 address syntax");
    assert_eq!(CodeError::InvalidLength { got: 3 }.message(), "Code must be exactly 7 characters, got 3");
    assert_eq!(CodeError::InvalidChar('!').message(), "Invalid character in code: '!'");
}

// ── Interface state ──────────────────────────────────────────

#[test]
fn room_status_transitions() {
    let mut s = RoomStatus::new();
    assert!(s.room_info().is_none());
    assert_eq!(s.require_room().unwrap_err(), "Not in a room");
    let info = s.enter_as_host("Den".to_string(), "7777777".to_string());
    assert!(info.is_host);
    assert_eq!(info.room_code.as_deref(), Some("7777777"));
    let shown = s.room_info().unwrap();
    assert_eq!(shown.room_name, "Den");
    assert!(s.require_room().is_ok());
    s.leave();
    assert!(s.room_info().is_none());
    let info = s.enter_as_guest(None);
    assert_eq!(info.room_name, "Room");
    assert!(!info.is_host);
    assert!(info.room_code.is_none());
    let info = s.enter_as_guest(Some("Lounge"));
    assert_eq!(s.room_info().unwrap().room_name, "Lounge");
    assert_eq!(info.room_name, "Lounge");
}

// ── Chat history rows ────────────────────────────────────────

#[test]
fn rows_become_messages() {
    let at = UtcTime { secs: 55, nanos: 1 };
    let m = message_from_row(&[7u8; 16], 70_000, "bob".to_string(), "hey".to_string(), at, 1);
    assert_eq!(m.id, [7u8; 16]);
    assert_eq!(m.user_id, (70_000 % 65_536) as u16);
    assert_eq!(m.status, MessageStatus::Delivered);
    assert_eq!(m.timestamp, at);
    let m2 = message_from_row(&[8u8; 16], 1, "a".to_string(), "b".to_string(), at, 9);
    assert_eq!(m2.status, MessageStatus::Failed);
}

#[test]
fn history_order_is_restored() {
    let mk = |t: i64| {
        ChatMessage::received([t as u8; 16], 1, "u".to_string(), format!("m{t}"), UtcTime { secs: t, nanos: 0 })
    };
    let newest_first = vec![mk(3), mk(2), mk(1)];
    let ordered = oldest_first(newest_first);
    let ts: Vec<i64> = ordered.iter().map(|m| m.timestamp.secs).collect();
    assert_eq!(ts, vec![1, 2, 3]);
}

#[test]
fn framing_keeps_every_sample_in_order() {
    let mut f: CaptureFramer<u32> = CaptureFramer::new();
    let mut seen: Vec<u32> = Vec::new();
    let mut next: u32 = 0;
    for block in [7usize, 2000, 13, 960, 1919, 1] {
        let data: Vec<u32> = (next..next + block as u32).collect();
        next += block as u32;
        for (samples, _) in f.feed(&data) {
            assert_eq!(samples.len(), 960);
            seen.extend(samples);
        }
    }
    // every full frame's worth arrived, in order; the rest is pending
    let expected: Vec<u32> = (0..(next / 960) * 960).collect();
    assert_eq!(seen, expected);
}
