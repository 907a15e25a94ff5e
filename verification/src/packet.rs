//! Packet layouts: the common header and the voice, chat and control packets.

use vstd::prelude::*;

use crate::packet_type::{PacketType, type_code, type_of_code};
use crate::wire::{
    append_bytes, le16, le32, lemma_le16_roundtrip, lemma_le32_roundtrip, lemma_u32_le_bytes, read_u16,
    read_u32, le64, lemma_le64_roundtrip, read_u64, u64_at, u64_to_le, tail_vec, u16_at, u16_to_le, u32_at, u32_to_le,
};
use crate::{MAGIC, PROTOCOL_VERSION};

verus! {

/// Size of the common header in bytes.
pub const HEADER_SIZE: usize = 8;

/// Errors met while reading a packet.
#[allow(inconsistent_fields)]
#[derive(Debug, Clone, PartialEq, Eq)]
pub enum PacketError {
    /// Fewer bytes than the layout needs (also used for an oversized frame, with
    /// the limit as `expected` and the announced length as `got`)
    TooShort { expected: usize, got: usize },
    /// The first two bytes are not the protocol magic
    InvalidMagic { got: [u8; 2] },
    /// The version byte is not the supported version
    UnsupportedVersion { got: u8 },
    /// The type byte names no packet type
    UnknownPacketType { got: u8 },
    /// A structured payload could not be (de)serialized
    SerializationError(String),
}

/// Common header for all packets (8 bytes):
/// magic (2), version (1), type (1), payload length (4, little-endian).
#[derive(Debug, Clone, Copy, PartialEq, Eq)]
pub struct PacketHeader {
    pub magic: [u8; 2],
    pub version: u8,
    pub packet_type: PacketType,
    pub payload_length: u32,
}

/// The header a well-formed packet carries: protocol magic and version.
pub open spec fn header_wf(h: PacketHeader) -> bool {
    h.magic@ == MAGIC@ && h.version == PROTOCOL_VERSION
}

/// The eight bytes of a header.
pub open spec fn header_bytes(h: PacketHeader) -> Seq<u8> {
    seq![h.magic@[0], h.magic@[1], h.version, type_code(h.packet_type)] + le32(h.payload_length)
}

/// What reading a header from the front of `s` gives.
pub open spec fn parse_header(s: Seq<u8>) -> Result<PacketHeader, PacketError> {
    if s.len() < 8 {
        Err(PacketError::TooShort { expected: 8, got: s.len() as usize })
    } else if s[0] != MAGIC@[0] || s[1] != MAGIC@[1] {
        Err(PacketError::InvalidMagic { got: [s[0], s[1]] })
    } else if s[2] != PROTOCOL_VERSION {
        Err(PacketError::UnsupportedVersion { got: s[2] })
    } else if type_of_code(s[3]) is None {
        Err(PacketError::UnknownPacketType { got: s[3] })
    } else {
        Ok(
            PacketHeader {
                magic: MAGIC,
                version: s[2],
                packet_type: type_of_code(s[3])->0,
                payload_length: u32_at(s, 4),
            },
        )
    }
}

impl PacketHeader {
    /// Header size in bytes
    pub const SIZE: usize = 8;

    /// Create a new header for the given packet type and payload length
    pub fn new(packet_type: PacketType, payload_length: u32) -> (r: Self)
        ensures
            r == (PacketHeader { magic: MAGIC, version: PROTOCOL_VERSION, packet_type, payload_length }),
            header_wf(r),
    {
        Self { magic: MAGIC, version: PROTOCOL_VERSION, packet_type, payload_length }
    }

    /// Serialize header to bytes (8 bytes, little-endian)
    pub fn to_bytes(&self) -> (r: [u8; 8])
        ensures
            r@ == header_bytes(*self),
    {
        let len = u32_to_le(self.payload_length);
        let r = [
            self.magic[0],
            self.magic[1],
            self.version,
            self.packet_type.to_u8(),
            len[0],
            len[1],
            len[2],
            len[3],
        ];
        assert(r@ =~= header_bytes(*self));
        r
    }

    /// Deserialize header from bytes
    pub fn from_bytes(buf: &[u8]) -> (r: Result<Self, PacketError>)
        ensures
            r == parse_header(buf@),
    {
        if buf.len() < 8 {
            return Err(PacketError::TooShort { expected: 8, got: buf.len() });
        }
        if buf[0] != MAGIC[0] || buf[1] != MAGIC[1] {
            return Err(PacketError::InvalidMagic { got: [buf[0], buf[1]] });
        }
        let version = buf[2];
        if version != PROTOCOL_VERSION {
            return Err(PacketError::UnsupportedVersion { got: version });
        }
        let packet_type = match PacketType::from_u8(buf[3]) {
            Some(t) => t,
            None => {
                return Err(PacketError::UnknownPacketType { got: buf[3] });
            },
        };
        let payload_length = read_u32(buf, 4);
        Ok(Self { magic: MAGIC, version, packet_type, payload_length })
    }
}

/// A header read back from its own bytes is the header itself.
pub proof fn lemma_header_roundtrip(h: PacketHeader)
    requires
        header_wf(h),
    ensures
        parse_header(header_bytes(h)) == Ok::<PacketHeader, PacketError>(h),
{
    let s = header_bytes(h);
    lemma_le32_roundtrip(h.payload_length);
    assert(s.subrange(4, 8) =~= le32(h.payload_length));
    assert(u32_at(s, 4) == u32_at(le32(h.payload_length), 0));
    lemma_type_code_roundtrip(h.packet_type);
    assert(h.magic@ =~= MAGIC@);
    assert(h.magic == MAGIC);
}

/// Bytes that read as a header are that header's bytes, followed by the rest.
pub proof fn lemma_header_parse_serialize(s: Seq<u8>)
    requires
        parse_header(s) is Ok,
    ensures
        header_bytes(parse_header(s)->Ok_0) == s.subrange(0, 8),
        header_wf(parse_header(s)->Ok_0),
{
    let h = parse_header(s)->Ok_0;
    crate::packet_type::lemma_type_of_code_inverse(s[3]);
    lemma_u32_le_bytes(s[4], s[5], s[6], s[7]);
    assert(header_bytes(h) =~= s.subrange(0, 8));
}

proof fn lemma_type_code_roundtrip(t: PacketType)
    ensures
        type_of_code(type_code(t)) == Some(t),
{
    crate::packet_type::lemma_type_code_roundtrip(t);
}

// ── Voice packets ────────────────────────────────────────────

/// Voice frame packet sent over UDP:
/// header (8), sequence (4), timestamp (4), user id (2), payload.
#[derive(Debug, Clone)]
pub struct VoicePacket {
    pub header: PacketHeader,
    pub sequence: u32,
    pub timestamp: u32,
    pub user_id: u16,
    pub payload: Vec<u8>,
}

/// The content of a voice packet.
pub ghost struct VoiceModel {
    pub header: PacketHeader,
    pub sequence: u32,
    pub timestamp: u32,
    pub user_id: u16,
    pub payload: Seq<u8>,
}

impl View for VoicePacket {
    type V = VoiceModel;

    open spec fn view(&self) -> VoiceModel {
        VoiceModel {
            header: self.header,
            sequence: self.sequence,
            timestamp: self.timestamp,
            user_id: self.user_id,
            payload: self.payload@,
        }
    }
}

/// The bytes of a voice packet.
pub open spec fn voice_bytes(p: VoiceModel) -> Seq<u8> {
    header_bytes(p.header) + le32(p.sequence) + le32(p.timestamp) + le16(p.user_id) + p.payload
}

/// What reading a voice packet from `s` gives.
pub open spec fn parse_voice(s: Seq<u8>) -> Result<VoiceModel, PacketError> {
    match parse_header(s) {
        Err(e) => Err(e),
        Ok(h) => if s.len() < 18 {
            Err(PacketError::TooShort { expected: 18, got: s.len() as usize })
        } else {
            Ok(
                VoiceModel {
                    header: h,
                    sequence: u32_at(s, 8),
                    timestamp: u32_at(s, 12),
                    user_id: u16_at(s, 16),
                    payload: s.subrange(18, s.len() as int),
                },
            )
        },
    }
}

/// The model of a voice read result.
pub open spec fn voice_result(r: Result<VoicePacket, PacketError>) -> Result<VoiceModel, PacketError> {
    match r {
        Ok(p) => Ok(p@),
        Err(e) => Err(e),
    }
}

/// `(a + b) as u32`, computed without overflow.
fn wrapping_len(n: usize, extra: u32) -> (r: u32)
    ensures
        r == (n + extra) as u32,
{
    let low = n as u32;
    let r = low.wrapping_add(extra);
    assert(r == ((low as u64 + extra as u64) as u32)) by (bit_vector)
        requires
            low + extra > 0xffff_ffff ==> r == low + extra - 0x1_0000_0000,
            low + extra <= 0xffff_ffff ==> r == low + extra,
    ;
    assert(((n + extra) as u32) == ((low as u64 + extra as u64) as u32)) by (bit_vector)
        requires
            low == n as u32,
    ;
    r
}

impl VoicePacket {
    /// Metadata size beyond the header: seq(4) + ts(4) + uid(2) = 10
    pub const META_SIZE: usize = 10;

    pub fn new(sequence: u32, timestamp: u32, user_id: u16, payload: Vec<u8>) -> (r: Self)
        ensures
            r@ == (VoiceModel {
                header: PacketHeader {
                    magic: MAGIC,
                    version: PROTOCOL_VERSION,
                    packet_type: PacketType::VoiceFrame,
                    payload_length: (10 + payload@.len()) as u32,
                },
                sequence,
                timestamp,
                user_id,
                payload: payload@,
            }),
    {
        let payload_length = wrapping_len(payload.len(), 10);
        Self {
            header: PacketHeader::new(PacketType::VoiceFrame, payload_length),
            sequence,
            timestamp,
            user_id,
            payload,
        }
    }

    /// Create a silence packet (no audio payload)
    pub fn silence(sequence: u32, timestamp: u32, user_id: u16) -> (r: Self)
        ensures
            r@ == (VoiceModel {
                header: PacketHeader {
                    magic: MAGIC,
                    version: PROTOCOL_VERSION,
                    packet_type: PacketType::VoiceSilence,
                    payload_length: 10,
                },
                sequence,
                timestamp,
                user_id,
                payload: Seq::empty(),
            }),
    {
        Self {
            header: PacketHeader::new(PacketType::VoiceSilence, 10),
            sequence,
            timestamp,
            user_id,
            payload: Vec::new(),
        }
    }

    /// Serialize to bytes for UDP transmission
    pub fn to_bytes(&self) -> (r: Vec<u8>)
        ensures
            r@ == voice_bytes(self@),
    {
        let mut buf: Vec<u8> = Vec::new();
        append_bytes(&mut buf, &self.header.to_bytes());
        append_bytes(&mut buf, &u32_to_le(self.sequence));
        append_bytes(&mut buf, &u32_to_le(self.timestamp));
        append_bytes(&mut buf, &u16_to_le(self.user_id));
        append_bytes(&mut buf, self.payload.as_slice());
        buf
    }

    /// Deserialize from raw UDP bytes
    pub fn from_bytes(buf: &[u8]) -> (r: Result<Self, PacketError>)
        ensures
            voice_result(r) == parse_voice(buf@),
    {
        let header = match PacketHeader::from_bytes(buf) {
            Ok(h) => h,
            Err(e) => {
                return Err(e);
            },
        };
        if buf.len() < 18 {
            return Err(PacketError::TooShort { expected: 18, got: buf.len() });
        }
        let sequence = read_u32(buf, 8);
        let timestamp = read_u32(buf, 12);
        let user_id = read_u16(buf, 16);
        let payload = tail_vec(buf, 18);
        Ok(Self { header, sequence, timestamp, user_id, payload })
    }
}

/// A voice packet with a well-formed header reads back from its own bytes unchanged.
pub proof fn lemma_voice_roundtrip(p: VoiceModel)
    requires
        header_wf(p.header),
    ensures
        parse_voice(voice_bytes(p)) == Ok::<VoiceModel, PacketError>(p),
{
    let s = voice_bytes(p);
    lemma_header_roundtrip(p.header);
    assert(s.subrange(0, 8) =~= header_bytes(p.header));
    lemma_header_prefix(header_bytes(p.header), s);
    lemma_le32_roundtrip(p.sequence);
    lemma_le32_roundtrip(p.timestamp);
    lemma_le16_roundtrip(p.user_id);
    assert(s.subrange(8, 12) =~= le32(p.sequence));
    assert(s.subrange(12, 16) =~= le32(p.timestamp));
    assert(s.subrange(16, 18) =~= le16(p.user_id));
    assert(u32_at(s, 8) == u32_at(le32(p.sequence), 0));
    assert(u32_at(s, 12) == u32_at(le32(p.timestamp), 0));
    assert(u16_at(s, 16) == u16_at(le16(p.user_id), 0));
    assert(s.subrange(18, s.len() as int) =~= p.payload);
}

/// Reading a header only looks at the first eight bytes.
pub proof fn lemma_header_prefix(h: Seq<u8>, s: Seq<u8>)
    requires
        h.len() == 8,
        s.len() >= 8,
        s.subrange(0, 8) == h,
    ensures
        parse_header(s) == parse_header(h),
{
    assert(s[0] == h[0] && s[1] == h[1] && s[2] == h[2] && s[3] == h[3]);
    assert(s[4] == h[4] && s[5] == h[5] && s[6] == h[6] && s[7] == h[7]);
}

// ── Chat packets ─────────────────────────────────────────────

/// Chat message packet sent over TCP:
/// header (8), message id (16), user id (2), timestamp (8), payload.
#[derive(Debug, Clone)]
pub struct ChatPacket {
    pub header: PacketHeader,
    pub message_id: [u8; 16],
    pub user_id: u16,
    pub timestamp: u64,
    pub payload: Vec<u8>,
}

/// The content of a chat packet.
pub ghost struct ChatModel {
    pub header: PacketHeader,
    pub message_id: Seq<u8>,
    pub user_id: u16,
    pub timestamp: u64,
    pub payload: Seq<u8>,
}

impl View for ChatPacket {
    type V = ChatModel;

    open spec fn view(&self) -> ChatModel {
        ChatModel {
            header: self.header,
            message_id: self.message_id@,
            user_id: self.user_id,
            timestamp: self.timestamp,
            payload: self.payload@,
        }
    }
}

/// The bytes of a chat packet.
pub open spec fn chat_bytes(p: ChatModel) -> Seq<u8> {
    header_bytes(p.header) + p.message_id + le16(p.user_id) + le64(p.timestamp) + p.payload
}

/// What reading a chat packet from `s` gives.
pub open spec fn parse_chat(s: Seq<u8>) -> Result<ChatModel, PacketError> {
    match parse_header(s) {
        Err(e) => Err(e),
        Ok(h) => if s.len() < 34 {
            Err(PacketError::TooShort { expected: 34, got: s.len() as usize })
        } else {
            Ok(
                ChatModel {
                    header: h,
                    message_id: s.subrange(8, 24),
                    user_id: u16_at(s, 24),
                    timestamp: u64_at(s, 26),
                    payload: s.subrange(34, s.len() as int),
                },
            )
        },
    }
}

/// The model of a chat read result.
pub open spec fn chat_result(r: Result<ChatPacket, PacketError>) -> Result<ChatModel, PacketError> {
    match r {
        Ok(p) => Ok(p@),
        Err(e) => Err(e),
    }
}

/// Copies the sixteen bytes at `at` into an array.
fn read_id(buf: &[u8], at: usize) -> (r: [u8; 16])
    requires
        at + 16 <= buf@.len(),
    ensures
        r@ == buf@.subrange(at as int, at + 16),
{
    let r = [
        buf[at],
        buf[at + 1],
        buf[at + 2],
        buf[at + 3],
        buf[at + 4],
        buf[at + 5],
        buf[at + 6],
        buf[at + 7],
        buf[at + 8],
        buf[at + 9],
        buf[at + 10],
        buf[at + 11],
        buf[at + 12],
        buf[at + 13],
        buf[at + 14],
        buf[at + 15],
    ];
    assert(r@ =~= buf@.subrange(at as int, at + 16));
    r
}

impl ChatPacket {
    /// Metadata size: msg_id(16) + uid(2) + ts(8) = 26
    pub const META_SIZE: usize = 26;

    pub fn new(message_id: [u8; 16], user_id: u16, timestamp: u64, payload: Vec<u8>) -> (r: Self)
        ensures
            r@ == (ChatModel {
                header: PacketHeader {
                    magic: MAGIC,
                    version: PROTOCOL_VERSION,
                    packet_type: PacketType::ChatMessage,
                    payload_length: (26 + payload@.len()) as u32,
                },
                message_id: message_id@,
                user_id,
                timestamp,
                payload: payload@,
            }),
    {
        let payload_length = wrapping_len(payload.len(), 26);
        Self {
            header: PacketHeader::new(PacketType::ChatMessage, payload_length),
            message_id,
            user_id,
            timestamp,
            payload,
        }
    }

    /// Serialize to bytes for TCP transmission
    pub fn to_bytes(&self) -> (r: Vec<u8>)
        ensures
            r@ == chat_bytes(self@),
    {
        let mut buf: Vec<u8> = Vec::new();
        append_bytes(&mut buf, &self.header.to_bytes());
        append_bytes(&mut buf, &self.message_id);
        append_bytes(&mut buf, &u16_to_le(self.user_id));
        append_bytes(&mut buf, &u64_to_le(self.timestamp));
        append_bytes(&mut buf, self.payload.as_slice());
        buf
    }

    /// Deserialize from raw TCP bytes
    pub fn from_bytes(buf: &[u8]) -> (r: Result<Self, PacketError>)
        ensures
            chat_result(r) == parse_chat(buf@),
    {
        let header = match PacketHeader::from_bytes(buf) {
            Ok(h) => h,
            Err(e) => {
                return Err(e);
            },
        };
        if buf.len() < 34 {
            return Err(PacketError::TooShort { expected: 34, got: buf.len() });
        }
        let message_id = read_id(buf, 8);
        let user_id = read_u16(buf, 24);
        let timestamp = read_u64(buf, 26);
        let payload = tail_vec(buf, 34);
        Ok(Self { header, message_id, user_id, timestamp, payload })
    }
}

/// A chat packet with a well-formed header reads back from its own bytes unchanged.
pub proof fn lemma_chat_roundtrip(p: ChatModel)
    requires
        header_wf(p.header),
        p.message_id.len() == 16,
    ensures
        parse_chat(chat_bytes(p)) == Ok::<ChatModel, PacketError>(p),
{
    let s = chat_bytes(p);
    lemma_header_roundtrip(p.header);
    assert(s.subrange(0, 8) =~= header_bytes(p.header));
    lemma_header_prefix(header_bytes(p.header), s);
    lemma_le16_roundtrip(p.user_id);
    lemma_le64_roundtrip(p.timestamp);
    assert(s.subrange(8, 24) =~= p.message_id);
    assert(s.subrange(24, 26) =~= le16(p.user_id));
    assert(s.subrange(26, 34) =~= le64(p.timestamp));
    assert(u16_at(s, 24) == u16_at(le16(p.user_id), 0));
    assert(u64_at(s, 26) == u64_at(le64(p.timestamp), 0));
    assert(s.subrange(34, s.len() as int) =~= p.payload);
}

// ── Control packets ──────────────────────────────────────────

/// Generic control packet for handshake, room management, keepalive, etc.
/// The payload holds the encoded structured message.
#[derive(Debug, Clone)]
pub struct ControlPacket {
    pub header: PacketHeader,
    pub payload: Vec<u8>,
}

/// The content of a control packet.
pub ghost struct ControlModel {
    pub header: PacketHeader,
    pub payload: Seq<u8>,
}

impl View for ControlPacket {
    type V = ControlModel;

    open spec fn view(&self) -> ControlModel {
        ControlModel { header: self.header, payload: self.payload@ }
    }
}

/// The bytes of a control packet.
pub open spec fn control_bytes(p: ControlModel) -> Seq<u8> {
    header_bytes(p.header) + p.payload
}

/// What reading a control packet from `s` gives.
pub open spec fn parse_control(s: Seq<u8>) -> Result<ControlModel, PacketError> {
    match parse_header(s) {
        Err(e) => Err(e),
        Ok(h) => Ok(ControlModel { header: h, payload: s.subrange(8, s.len() as int) }),
    }
}

/// The model of a control read result.
pub open spec fn control_result(r: Result<ControlPacket, PacketError>) -> Result<
    ControlModel,
    PacketError,
> {
    match r {
        Ok(p) => Ok(p@),
        Err(e) => Err(e),
    }
}

impl ControlPacket {
    /// Create a control packet around an already encoded payload
    pub fn new(packet_type: PacketType, payload: Vec<u8>) -> (r: Self)
        ensures
            r@ == (ControlModel {
                header: PacketHeader {
                    magic: MAGIC,
                    version: PROTOCOL_VERSION,
                    packet_type,
                    payload_length: payload@.len() as u32,
                },
                payload: payload@,
            }),
    {
        let payload_length = wrapping_len(payload.len(), 0);
        let header = PacketHeader::new(packet_type, payload_length);
        Self { header, payload }
    }

    /// Serialize to bytes
    pub fn to_bytes(&self) -> (r: Vec<u8>)
        ensures
            r@ == control_bytes(self@),
    {
        let mut buf: Vec<u8> = Vec::new();
        append_bytes(&mut buf, &self.header.to_bytes());
        append_bytes(&mut buf, self.payload.as_slice());
        buf
    }

    /// Deserialize from bytes
    pub fn from_bytes(buf: &[u8]) -> (r: Result<Self, PacketError>)
        ensures
            control_result(r) == parse_control(buf@),
    {
        let header = match PacketHeader::from_bytes(buf) {
            Ok(h) => h,
            Err(e) => {
                return Err(e);
            },
        };
        let payload = tail_vec(buf, 8);
        Ok(Self { header, payload })
    }
}

/// A control packet with a well-formed header reads back from its own bytes unchanged.
pub proof fn lemma_control_roundtrip(p: ControlModel)
    requires
        header_wf(p.header),
    ensures
        parse_control(control_bytes(p)) == Ok::<ControlModel, PacketError>(p),
{
    let s = control_bytes(p);
    lemma_header_roundtrip(p.header);
    assert(s.subrange(0, 8) =~= header_bytes(p.header));
    lemma_header_prefix(header_bytes(p.header), s);
    assert(s.subrange(8, s.len() as int) =~= p.payload);
}

// ── Control message payloads ─────────────────────────────────

/// Handshake request from client to host
#[derive(Debug, Clone)]
pub struct HandshakePayload {
    pub username: String,
    pub public_key: [u8; 32],
}

/// Handshake response from host to client
#[derive(Debug, Clone)]
pub struct HandshakeAckPayload {
    pub user_id: u16,
    pub room_name: String,
    pub host_public_key: [u8; 32],
    pub tcp_port: u16,
    pub udp_port: u16,
}

/// Room join acknowledgement with full room state
#[derive(Debug, Clone)]
pub struct JoinRoomAckPayload {
    pub users: Vec<UserInfo>,
    pub room_name: String,
}

/// User information broadcast
#[derive(Debug, Clone)]
pub struct UserInfo {
    pub user_id: u16,
    pub username: String,
    pub is_muted: bool,
    pub is_host: bool,
}

/// The content of a user record.
pub ghost struct UserInfoModel {
    pub user_id: u16,
    pub username: Seq<char>,
    pub is_muted: bool,
    pub is_host: bool,
}

impl View for UserInfo {
    type V = UserInfoModel;

    open spec fn view(&self) -> UserInfoModel {
        UserInfoModel {
            user_id: self.user_id,
            username: self.username@,
            is_muted: self.is_muted,
            is_host: self.is_host,
        }
    }
}

impl UserInfo {
    /// A copy of this record with the same content.
    pub fn duplicate(&self) -> (r: Self)
        ensures
            r@ == self@,
    {
        UserInfo {
            user_id: self.user_id,
            username: self.username.clone(),
            is_muted: self.is_muted,
            is_host: self.is_host,
        }
    }
}

/// User list update
#[derive(Debug, Clone)]
pub struct UserListPayload {
    pub users: Vec<UserInfo>,
    pub event: UserEvent,
}

/// Events that trigger user list updates
#[derive(Debug, Clone, Copy, PartialEq, Eq)]
pub enum UserEvent {
    Joined(u16),
    Left(u16),
    StateChanged(u16),
}

/// Ping/Pong for keepalive and latency measurement
#[derive(Debug, Clone, Copy, PartialEq, Eq)]
pub struct PingPayload {
    pub timestamp: u64,
    pub sequence: u32,
}

/// Chat ACK
#[derive(Debug, Clone, Copy, PartialEq, Eq)]
pub struct ChatAckPayload {
    pub message_id: [u8; 16],
}

/// Discovery announcement broadcast over LAN
#[derive(Debug, Clone)]
pub struct DiscoveryAnnouncePayload {
    pub room_name: String,
    pub host_name: String,
    pub tcp_port: u16,
    pub user_count: u8,
    pub max_users: u8,
}

} // verus!
