//! The kinds of packet the protocol carries.

use vstd::prelude::*;

verus! {

/// All packet types supported by the protocol.
#[derive(Debug, Clone, Copy, PartialEq, Eq, Hash, Structural)]
pub enum PacketType {
    /// Initial handshake from client to host
    Handshake,
    /// Host acknowledges handshake, assigns user_id
    HandshakeAck,
    /// Client requests to join a room
    JoinRoom,
    /// Host confirms join, sends room state
    JoinRoomAck,
    /// User leaves the room
    LeaveRoom,
    /// Broadcast updated user list
    UserList,
    /// User state change (mute/unmute/etc.)
    UserStateChange,
    /// Text chat message
    ChatMessage,
    /// Acknowledgement of chat message receipt
    ChatAck,
    /// Ping for latency measurement and keepalive
    Ping,
    /// Pong response
    Pong,
    /// Key exchange packet (X25519 public key)
    KeyExchange,
    /// Key exchange acknowledgement
    KeyExchangeAck,
    /// Encoded voice audio frame
    VoiceFrame,
    /// Silence indicator (no audio data)
    VoiceSilence,
    /// Room advertisement broadcast
    DiscoveryAnnounce,
    /// Response to discovery probe
    DiscoveryResponse,
}

/// The wire byte of each packet type.
pub open spec fn type_code(t: PacketType) -> u8 {
    match t {
        PacketType::Handshake => 0x01,
        PacketType::HandshakeAck => 0x02,
        PacketType::JoinRoom => 0x03,
        PacketType::JoinRoomAck => 0x04,
        PacketType::LeaveRoom => 0x05,
        PacketType::UserList => 0x06,
        PacketType::UserStateChange => 0x07,
        PacketType::ChatMessage => 0x10,
        PacketType::ChatAck => 0x11,
        PacketType::Ping => 0x20,
        PacketType::Pong => 0x21,
        PacketType::KeyExchange => 0x30,
        PacketType::KeyExchangeAck => 0x31,
        PacketType::VoiceFrame => 0x40,
        PacketType::VoiceSilence => 0x41,
        PacketType::DiscoveryAnnounce => 0x50,
        PacketType::DiscoveryResponse => 0x51,
    }
}

/// The packet type whose wire byte is `b`, if any.
pub open spec fn type_of_code(b: u8) -> Option<PacketType> {
    if b == 0x01 {
        Some(PacketType::Handshake)
    } else if b == 0x02 {
        Some(PacketType::HandshakeAck)
    } else if b == 0x03 {
        Some(PacketType::JoinRoom)
    } else if b == 0x04 {
        Some(PacketType::JoinRoomAck)
    } else if b == 0x05 {
        Some(PacketType::LeaveRoom)
    } else if b == 0x06 {
        Some(PacketType::UserList)
    } else if b == 0x07 {
        Some(PacketType::UserStateChange)
    } else if b == 0x10 {
        Some(PacketType::ChatMessage)
    } else if b == 0x11 {
        Some(PacketType::ChatAck)
    } else if b == 0x20 {
        Some(PacketType::Ping)
    } else if b == 0x21 {
        Some(PacketType::Pong)
    } else if b == 0x30 {
        Some(PacketType::KeyExchange)
    } else if b == 0x31 {
        Some(PacketType::KeyExchangeAck)
    } else if b == 0x40 {
        Some(PacketType::VoiceFrame)
    } else if b == 0x41 {
        Some(PacketType::VoiceSilence)
    } else if b == 0x50 {
        Some(PacketType::DiscoveryAnnounce)
    } else if b == 0x51 {
        Some(PacketType::DiscoveryResponse)
    } else {
        None
    }
}

impl PacketType {
    /// Convert from raw byte value
    pub fn from_u8(val: u8) -> (r: Option<Self>)
        ensures
            r == type_of_code(val),
    {
        match val {
            0x01 => Some(Self::Handshake),
            0x02 => Some(Self::HandshakeAck),
            0x03 => Some(Self::JoinRoom),
            0x04 => Some(Self::JoinRoomAck),
            0x05 => Some(Self::LeaveRoom),
            0x06 => Some(Self::UserList),
            0x07 => Some(Self::UserStateChange),
            0x10 => Some(Self::ChatMessage),
            0x11 => Some(Self::ChatAck),
            0x20 => Some(Self::Ping),
            0x21 => Some(Self::Pong),
            0x30 => Some(Self::KeyExchange),
            0x31 => Some(Self::KeyExchangeAck),
            0x40 => Some(Self::VoiceFrame),
            0x41 => Some(Self::VoiceSilence),
            0x50 => Some(Self::DiscoveryAnnounce),
            0x51 => Some(Self::DiscoveryResponse),
            _ => None,
        }
    }

    /// The raw byte value of this packet type
    pub fn to_u8(&self) -> (r: u8)
        ensures
            r == type_code(*self),
    {
        match self {
            Self::Handshake => 0x01,
            Self::HandshakeAck => 0x02,
            Self::JoinRoom => 0x03,
            Self::JoinRoomAck => 0x04,
            Self::LeaveRoom => 0x05,
            Self::UserList => 0x06,
            Self::UserStateChange => 0x07,
            Self::ChatMessage => 0x10,
            Self::ChatAck => 0x11,
            Self::Ping => 0x20,
            Self::Pong => 0x21,
            Self::KeyExchange => 0x30,
            Self::KeyExchangeAck => 0x31,
            Self::VoiceFrame => 0x40,
            Self::VoiceSilence => 0x41,
            Self::DiscoveryAnnounce => 0x50,
            Self::DiscoveryResponse => 0x51,
        }
    }

    /// Whether this packet type uses TCP (control/chat) or UDP (voice/discovery)
    pub fn is_tcp(&self) -> (r: bool)
        ensures
            r == (type_code(*self) < 0x40),
    {
        self.to_u8() < 0x40
    }

    /// Whether this packet type uses UDP
    pub fn is_udp(&self) -> (r: bool)
        ensures
            r == !(type_code(*self) < 0x40),
    {
        !self.is_tcp()
    }
}

/// Every packet type's wire byte decodes back to that type.
pub proof fn lemma_type_code_roundtrip(t: PacketType)
    ensures
        type_of_code(type_code(t)) == Some(t),
{
}

/// A byte that decodes to a packet type is that type's wire byte.
pub proof fn lemma_type_of_code_inverse(b: u8)
    ensures
        type_of_code(b) matches Some(t) ==> type_code(t) == b,
{
}

/// Every packet type travels over exactly one of TCP and UDP: the control,
/// chat, keepalive and key-exchange types over TCP, voice and discovery over UDP.
pub proof fn lemma_transport_split(t: PacketType)
    ensures
        (type_code(t) < 0x40) <==> !(t is VoiceFrame || t is VoiceSilence || t is DiscoveryAnnounce
            || t is DiscoveryResponse),
{
}

} // verus!
