//! Peer-to-peer voice and text chat: wire protocol, stream framing,
//! session crypto, reliability, room codes, room state and the
//! integer logic of the audio path.

#![allow(unused_imports)]

use vstd::prelude::*;

pub mod wire;
pub mod text;
pub mod packet_type;
pub mod packet;
pub mod codec;
pub mod room_code;
pub mod clock;
pub mod ack_tracker;
pub mod ordering;
pub mod cipher;
pub mod keypair;
pub mod session_key;
pub mod config;
pub mod jitter_buffer;
pub mod time_of_day;
pub mod room_state;
pub mod profile;
pub mod chat;
pub mod events;
pub mod errors;
pub mod ui;
pub mod mixer;
pub mod vad;
pub mod serialization;
pub mod session;
pub mod peer_table;
pub mod pipeline;
pub mod sample_buffers;

verus! {

/// Protocol magic bytes identifying packets of this protocol
pub const MAGIC: [u8; 2] = [0xCC, 0xAA];
/// Current protocol version
pub const PROTOCOL_VERSION: u8 = 0x01;
/// Default TCP control port
pub const DEFAULT_TCP_PORT: u16 = 7770;
/// Default UDP voice port
pub const DEFAULT_UDP_PORT: u16 = 7771;
/// Discovery broadcast port
pub const DISCOVERY_PORT: u16 = 7772;
/// Maximum UDP packet size (below typical MTU)
pub const MAX_UDP_PACKET_SIZE: usize = 1400;
/// Maximum users in a room
pub const MAX_ROOM_USERS: usize = 20;

} // verus!
