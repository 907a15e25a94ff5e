//! The decisions of the room protocol, apart from the network I/O that
//! surrounds them: what the host does with a client's handshake and with
//! each later packet, how a client checks the host's answer, and what a
//! connected client keeps and sends.

use vstd::prelude::*;

use crate::ack_tracker::{AckTracker, PendingModel, registered};
use crate::cipher::{SessionCipher, aead_seal, nonce_bytes, sealable};
use crate::errors::{ClientError, HostError};
use crate::packet::{
    ChatModel, ChatPacket, ControlPacket, DiscoveryAnnouncePayload, HandshakeAckPayload,
    JoinRoomAckPayload, PacketError, PacketHeader, UserInfoModel, VoiceModel, VoicePacket,
    chat_bytes, header_bytes, header_wf, parse_control, parse_header, parse_voice, voice_bytes,
};
use crate::packet_type::PacketType;
use crate::room_state::{RoomState, lists_all, room_wf, users_of};
use crate::session_key::SessionKeys;
use crate::room_code::{parse_ipv4, parse_ipv4_chars};
use crate::text::{chars_of, dec, push_decimal, string_from_chars, trim_chars, trimmed};
use crate::wire::{le16, le64};
use crate::{DEFAULT_TCP_PORT, MAGIC, PROTOCOL_VERSION};
use vstd::utf8::encode_utf8;

verus! {

/// What the host does with a packet from a connected client
#[derive(Debug, Clone, Copy, PartialEq, Eq, Structural)]
pub enum HostAction {
    /// A chat message: report it (and relay it)
    RelayChat,
    /// The client leaves: end the session
    Leave,
    /// A ping: answer with a pong
    ReplyPong,
    /// Anything else, or an unreadable header: ignore it
    Ignore,
}

/// The host's action for a packet with these bytes.
pub open spec fn host_action_of(s: Seq<u8>) -> HostAction {
    match parse_header(s) {
        Err(_) => HostAction::Ignore,
        Ok(h) => match h.packet_type {
            PacketType::ChatMessage => HostAction::RelayChat,
            PacketType::LeaveRoom => HostAction::Leave,
            PacketType::Ping => HostAction::ReplyPong,
            _ => HostAction::Ignore,
        },
    }
}

/// Decide what the host does with one packet from a client.
pub fn host_dispatch(packet_bytes: &[u8]) -> (r: HostAction)
    ensures
        r == host_action_of(packet_bytes@),
{
    match PacketHeader::from_bytes(packet_bytes) {
        Err(_) => HostAction::Ignore,
        Ok(h) => match h.packet_type {
            PacketType::ChatMessage => HostAction::RelayChat,
            PacketType::LeaveRoom => HostAction::Leave,
            PacketType::Ping => HostAction::ReplyPong,
            _ => HostAction::Ignore,
        },
    }
}

/// Admit a client that sent a handshake: give it a user id and answer with
/// the room's name, the host's public key and the room's ports. A full room
/// refuses it.
pub fn host_admit(state: &mut RoomState, username: String, host_public_key: [u8; 32]) -> (r: Result<
    HandshakeAckPayload,
    HostError,
>)
    requires
        room_wf(old(state)),
        old(state).next_user_id < u16::MAX,
    ensures
        room_wf(final(state)),
        final(state).config == old(state).config,
        old(state).users@.len() >= old(state).config.max_users ==> (r matches Err(HostError::RoomFull)
            && *final(state) == *old(state)),
        old(state).users@.len() < old(state).config.max_users ==> final(state).next_user_id == old(
            state,
        ).next_user_id + 1 && final(state).is_active == old(state).is_active
            && final(state).created_at == old(state).created_at,
        old(state).users@.len() < old(state).config.max_users ==> (r matches Ok(ack) && ack.user_id
            == old(state).next_user_id && ack.room_name@ == old(state).config.room_name@
            && ack.host_public_key == host_public_key && ack.tcp_port == old(state).config.tcp_port
            && ack.udp_port == old(state).config.udp_port && users_of(final(state)) == users_of(
            old(state),
        ).insert(
            ack.user_id,
            UserInfoModel { user_id: ack.user_id, username: username@, is_muted: false, is_host: false },
        )),
{
    match state.add_user(username) {
        None => Err(HostError::RoomFull),
        Some(user_id) => Ok(
            HandshakeAckPayload {
                user_id,
                room_name: state.config.room_name.clone(),
                host_public_key,
                tcp_port: state.config.tcp_port,
                udp_port: state.config.udp_port,
            },
        ),
    }
}

/// The room state a newly admitted client is sent: everyone in the room and
/// the room's name.
pub fn host_join_ack(state: &RoomState) -> (r: JoinRoomAckPayload)
    ensures
        lists_all(r.users@.map_values(|u: crate::packet::UserInfo| u@), users_of(state)),
        r.room_name@ == state.config.room_name@,
{
    JoinRoomAckPayload { users: state.user_list(), room_name: state.config.room_name.clone() }
}

/// The UDP port a client listens on: one above the host's UDP port.
pub fn client_udp_port(host_udp_port: u16) -> (r: u16)
    requires
        host_udp_port < u16::MAX,
    ensures
        r == host_udp_port + 1,
{
    host_udp_port + 1
}

/// Check the host's answer to a handshake: it must read as a control packet
/// of the handshake-acknowledgement type.
pub fn check_handshake_ack(ack_bytes: &[u8]) -> (r: Result<ControlPacket, ClientError>)
    ensures
        parse_control(ack_bytes@) matches Err(e) ==> (r matches Err(ClientError::Packet(e2)) && e2 == e),
        parse_control(ack_bytes@) matches Ok(p) ==> if p.header.packet_type == PacketType::HandshakeAck {
            (r matches Ok(q) && q@ == p)
        } else {
            r matches Err(ClientError::HandshakeFailed)
        },
{
    match ControlPacket::from_bytes(ack_bytes) {
        Err(e) => Err(ClientError::Packet(e)),
        Ok(p) => {
            if p.header.packet_type == PacketType::HandshakeAck {
                Ok(p)
            } else {
                Err(ClientError::HandshakeFailed)
            }
        },
    }
}

/// The bytes of a leave-room control packet with an empty payload.
pub open spec fn leave_bytes() -> Seq<u8> {
    crate::packet::control_bytes(
        crate::packet::ControlModel {
            header: PacketHeader {
                magic: MAGIC,
                version: PROTOCOL_VERSION,
                packet_type: PacketType::LeaveRoom,
                payload_length: 0,
            },
            payload: Seq::empty(),
        },
    )
}

/// The bytes of the packet a client sends when leaving: a leave-room control
/// packet with an empty payload (the encoding of `()`).
pub fn leave_packet() -> (r: Vec<u8>)
    ensures
        r@ == leave_bytes(),
{
    let p = ControlPacket::new(PacketType::LeaveRoom, Vec::new());
    p.to_bytes()
}

/// What a client keeps about its room connection, apart from its sockets.
pub struct ClientSession {
    /// Our assigned user ID
    user_id: Option<u16>,
    /// Our username
    username: String,
    /// Session encryption keys
    session_keys: Option<SessionKeys>,
    /// ACK tracker for reliable chat
    ack_tracker: AckTracker,
    /// Connection state
    is_connected: bool,
    /// Room name received from the host
    room_name: Option<String>,
}

/// The payload a chat message is sent with: the text encrypted with the send
/// cipher when there is one and encryption succeeds, the plain text bytes
/// otherwise.
pub open spec fn chat_payload(key: Option<(Seq<u8>, u64)>, text: Seq<u8>) -> Seq<u8> {
    match key {
        Some((k, c)) => if sealable(text.len()) {
            nonce_bytes(c) + aead_seal(k, nonce_bytes(c), text)
        } else {
            text
        },
        None => text,
    }
}

/// The bytes of a chat message.
pub open spec fn chat_message_bytes(id: Seq<u8>, user_id: u16, timestamp: u64, payload: Seq<u8>) -> Seq<u8> {
    chat_bytes(
        ChatModel {
            header: PacketHeader {
                magic: MAGIC,
                version: PROTOCOL_VERSION,
                packet_type: PacketType::ChatMessage,
                payload_length: (26 + payload.len()) as u32,
            },
            message_id: id,
            user_id,
            timestamp,
            payload,
        },
    )
}

impl ClientSession {
    /// A session not yet connected
    pub fn new(username: String) -> (r: Self)
        ensures
            r.wf(),
            r.user_id() == None::<u16>,
            !r.connected(),
            r.username()@ == username@,
            r.room() is None,
            r.send_state() is None,
            r.recv_state() is None,
            r.tracker()@.pending == Seq::<PendingModel>::empty(),
    {
        Self {
            user_id: None,
            username,
            session_keys: None,
            ack_tracker: AckTracker::new(),
            is_connected: false,
            room_name: None,
        }
    }

    /// The session's invariant holds.
    pub closed spec fn wf(&self) -> bool {
        self.ack_tracker.wf()
    }

    /// The user id, once assigned.
    pub closed spec fn user_id(&self) -> Option<u16> {
        self.user_id
    }

    /// Whether the session is connected.
    pub closed spec fn connected(&self) -> bool {
        self.is_connected
    }

    /// The username.
    pub closed spec fn username(&self) -> String {
        self.username
    }

    /// The room name, once known.
    pub closed spec fn room(&self) -> Option<String> {
        self.room_name
    }

    /// The acknowledgement tracker.
    pub closed spec fn tracker(&self) -> AckTracker {
        self.ack_tracker
    }

    /// The send key and its next nonce counter, once keys are derived.
    pub closed spec fn send_state(&self) -> Option<(Seq<u8>, u64)> {
        match self.session_keys {
            Some(k) => Some((k.send_cipher.key(), k.send_cipher.counter())),
            None => None,
        }
    }

    /// The receive key and its nonce counter, once keys are derived.
    pub closed spec fn recv_state(&self) -> Option<(Seq<u8>, u64)> {
        match self.session_keys {
            Some(k) => Some((k.recv_cipher.key(), k.recv_cipher.counter())),
            None => None,
        }
    }

    /// Refuse to connect twice
    pub fn check_not_connected(&self) -> (r: Result<(), ClientError>)
        ensures
            r is Ok <==> !self.connected(),
            r is Err ==> r matches Err(ClientError::AlreadyConnected),
    {
        if self.is_connected {
            Err(ClientError::AlreadyConnected)
        } else {
            Ok(())
        }
    }

    /// Record a completed handshake: the assigned id, the room's name and
    /// the session keys derived (as the client) from the shared secret.
    pub fn establish(&mut self, user_id: u16, room_name: String, shared_secret: &[u8; 32])
        requires
            old(self).wf(),
        ensures
            final(self).wf(),
            final(self).user_id() == Some(user_id),
            final(self).connected(),
            final(self).room() matches Some(n) && n@ == room_name@,
            final(self).username() == old(self).username(),
            final(self).tracker() == old(self).tracker(),
            final(self).send_state() == Some(
                (crate::session_key::send_key(shared_secret@, false), 0u64),
            ),
            final(self).recv_state() == Some(
                (crate::session_key::recv_key(shared_secret@, false), 0u64),
            ),
    {
        self.user_id = Some(user_id);
        self.session_keys = Some(SessionKeys::derive(shared_secret, false));
        self.room_name = Some(room_name);
        self.is_connected = true;
    }

    /// Build a chat message to send: encrypt the text when there are keys
    /// (falling back to the plain text if encryption fails), frame it as a
    /// chat packet from our user id (0 before one is assigned), and register
    /// it for acknowledgement. Returns the packet bytes.
    pub fn prepare_chat(&mut self, text: &str, message_id: [u8; 16], timestamp: u64) -> (r: Vec<u8>)
        requires
            old(self).wf(),
            encode_utf8(text@).len() + 16 <= isize::MAX,
        ensures
            final(self).wf(),
            r@ == chat_message_bytes(
                message_id@,
                match old(self).user_id() {
                    Some(u) => u,
                    None => 0,
                },
                timestamp,
                chat_payload(old(self).send_state(), encode_utf8(text@)),
            ),
            exists|now: u128|
                #[trigger] registered(
                    old(self).tracker()@.pending,
                    message_id@,
                    r@,
                    now,
                    final(self).tracker()@.pending,
                ),
            final(self).user_id() == old(self).user_id(),
            final(self).connected() == old(self).connected(),
            final(self).username() == old(self).username(),
            final(self).room() == old(self).room(),
            old(self).send_state() matches Some((k, c)) ==> final(self).send_state() == Some(
                (k, vstd::wrapping::u64_specs::wrapping_add(c, 1)),
            ),
            old(self).send_state() is None ==> final(self).send_state() is None,
            final(self).recv_state() == old(self).recv_state(),
    {
        let ghost before = self.ack_tracker@.pending;
        let user_id = match self.user_id {
            Some(u) => u,
            None => 0,
        };
        let bytes = text.as_bytes();
        let payload = match &mut self.session_keys {
            Some(keys) => match keys.send_cipher.encrypt(bytes) {
                Ok(c) => c,
                Err(_) => crate::wire::tail_vec(bytes, 0),
            },
            None => crate::wire::tail_vec(bytes, 0),
        };
        let packet = ChatPacket::new(message_id, user_id, timestamp, payload);
        let out = packet.to_bytes();
        let cp = crate::ack_tracker::copy_bytes(&out);
        let ghost cpv = cp@;
        assert(before == old(self).ack_tracker@.pending);
        self.ack_tracker.register(message_id, cp);
        proof {
            let now = choose|now: u128|
                #[trigger] registered(before, message_id@, cpv, now, self.ack_tracker@.pending);
            assert(registered(before, message_id@, out@, now, self.ack_tracker@.pending));
            assert(old(self).tracker()@.pending == before);
            assert(self.tracker()@.pending == self.ack_tracker@.pending);
            assert(registered(old(self).tracker()@.pending, message_id@, out@, now, self.tracker()@.pending));
        }
        out
    }

    /// Forget the connection: no id, no keys, not connected.
    pub fn disconnect(&mut self)
        requires
            old(self).wf(),
        ensures
            final(self).wf(),
            final(self).user_id() == None::<u16>,
            !final(self).connected(),
            final(self).send_state() is None,
            final(self).recv_state() is None,
            final(self).username() == old(self).username(),
            final(self).room() == old(self).room(),
            final(self).tracker() == old(self).tracker(),
    {
        self.session_keys = None;
        self.user_id = None;
        self.is_connected = false;
    }

    /// Get our user ID
    pub fn user_id_exec(&self) -> (r: Option<u16>)
        ensures
            r == self.user_id(),
    {
        self.user_id
    }

    /// Check if connected
    pub fn is_connected(&self) -> (r: bool)
        ensures
            r == self.connected(),
    {
        self.is_connected
    }

    /// Get the room name
    pub fn room_name(&self) -> (r: Option<&str>)
        ensures
            self.room() matches Some(n) ==> (r matches Some(s) && s@ == n@),
            self.room() is None ==> r is None,
    {
        match &self.room_name {
            Some(n) => Some(n.as_str()),
            None => None,
        }
    }

    /// Get the username
    pub fn username_exec(&self) -> (r: &str)
        ensures
            r@ == self.username()@,
    {
        self.username.as_str()
    }

    /// The cipher for encrypting outgoing data, once keys are derived
    pub fn send_cipher(&self) -> (r: Option<&SessionCipher>)
        ensures
            match r {
                Some(c) => self.send_state() == Some((c.key(), c.counter())),
                None => self.send_state() is None,
            },
    {
        match &self.session_keys {
            Some(k) => Some(&k.send_cipher),
            None => None,
        }
    }

    /// The cipher for decrypting incoming data, once keys are derived
    pub fn recv_cipher(&self) -> (r: Option<&SessionCipher>)
        ensures
            match r {
                Some(c) => self.recv_state() == Some((c.key(), c.counter())),
                None => self.recv_state() is None,
            },
    {
        match &self.session_keys {
            Some(k) => Some(&k.recv_cipher),
            None => None,
        }
    }

    /// The acknowledgement tracker
    pub fn ack_tracker(&mut self) -> (r: &mut AckTracker)
        requires
            old(self).wf(),
        ensures
            *r == old(self).tracker(),
            final(r).wf() ==> final(self).wf(),
            final(self).tracker() == *final(r),
            final(self).user_id() == old(self).user_id(),
            final(self).connected() == old(self).connected(),
            final(self).username() == old(self).username(),
            final(self).room() == old(self).room(),
            final(self).send_state() == old(self).send_state(),
            final(self).recv_state() == old(self).recv_state(),
    {
        &mut self.ack_tracker
    }
}

/// The sender a voice datagram is relayed for: the user id of a datagram
/// that reads as a voice packet. Anything else is dropped.
pub fn relay_sender(datagram: &[u8]) -> (r: Option<u16>)
    ensures
        match parse_voice(datagram@) {
            Ok(v) => r == Some(v.user_id),
            Err(_) => r is None,
        },
{
    match VoicePacket::from_bytes(datagram) {
        Ok(v) => Some(v.user_id),
        Err(_) => None,
    }
}

/// The room as announced on the local network: its name, host and TCP
/// port from the configuration, the size limit, and the number of users
/// (as a byte, wrapping past 255).
pub fn announce_payload(state: &RoomState) -> (r: DiscoveryAnnouncePayload)
    ensures
        r.room_name@ == state.config.room_name@,
        r.host_name@ == state.config.host_name@,
        r.tcp_port == state.config.tcp_port,
        r.max_users == state.config.max_users,
        r.user_count == state.users@.len() % 256,
{
    let n = state.user_count();
    let count = n as u8;
    assert(count == n % 256) by (bit_vector)
        requires
            count == n as u8,
    ;
    DiscoveryAnnouncePayload {
        room_name: state.config.room_name.clone(),
        host_name: state.config.host_name.clone(),
        tcp_port: state.config.tcp_port,
        user_count: count,
        max_users: state.config.max_users,
    }
}

/// The payload of a local-network announcement: a datagram that reads as a
/// control packet of the announcement type carries one; any other datagram
/// is ignored.
pub fn announcement_payload(datagram: &[u8]) -> (r: Option<Vec<u8>>)
    ensures
        match parse_control(datagram@) {
            Ok(p) => if p.header.packet_type == PacketType::DiscoveryAnnounce {
                r matches Some(v) && v@ == p.payload
            } else {
                r is None
            },
            Err(_) => r is None,
        },
{
    match ControlPacket::from_bytes(datagram) {
        Ok(p) => match p.header.packet_type {
            PacketType::DiscoveryAnnounce => Some(p.payload),
            _ => None,
        },
        Err(_) => None,
    }
}

/// Where to connect when joining by address.
#[derive(Debug, Clone, PartialEq, Eq)]
pub enum JoinTarget {
    /// A dotted-decimal IPv4 host on the given port.
    Ipv4 { ip: u32, port: u16 },
    /// Any other text: the socket-address text `"{address}:{port}"`, for the
    /// platform's socket-address parser (which also reads the bracketed
    /// IPv6 form `[addr]`, and refuses everything else).
    SocketText(String),
}

/// The socket-address text for joining `host`: the trimmed text, a colon,
/// and the default TCP port in decimal.
pub open spec fn join_socket_text(host: Seq<char>) -> Seq<char> {
    trimmed(host) + seq![':'] + dec(DEFAULT_TCP_PORT as nat)
}

/// The host to join, from the address text the user gave (surrounding
/// whitespace ignored), on the default TCP port. Dotted-decimal IPv4 is read
/// here; any other text is handed on as the socket-address text to parse.
pub fn join_address(host_ip: &str) -> (r: JoinTarget)
    ensures
        match parse_ipv4(trimmed(host_ip@)) {
            Some(n) => r == JoinTarget::Ipv4 { ip: n, port: DEFAULT_TCP_PORT },
            None => r matches JoinTarget::SocketText(t) && t@ == join_socket_text(host_ip@),
        },
{
    let cs = chars_of(host_ip);
    let t = trim_chars(&cs);
    match parse_ipv4_chars(&t) {
        Some(n) => JoinTarget::Ipv4 { ip: n, port: DEFAULT_TCP_PORT },
        None => {
            let mut out = t;
            out.push(':');
            push_decimal(&mut out, DEFAULT_TCP_PORT as u64);
            JoinTarget::SocketText(string_from_chars(&out))
        },
    }
}

/// The header at the front of a packet's bytes reads back as itself.
proof fn lemma_header_in_front(h: PacketHeader, rest: Seq<u8>)
    requires
        header_wf(h),
    ensures
        parse_header(header_bytes(h) + rest) == Ok::<PacketHeader, PacketError>(h),
{
    crate::packet::lemma_header_roundtrip(h);
    let s = header_bytes(h) + rest;
    assert(s.subrange(0, 8) =~= header_bytes(h));
    crate::packet::lemma_header_prefix(header_bytes(h), s);
}

/// The host understands what a client sends: a chat message the client
/// prepares is relayed, and the client's leave packet ends its session.
pub proof fn lemma_host_reads_client_packets(id: Seq<u8>, user_id: u16, timestamp: u64, payload: Seq<u8>)
    ensures
        host_action_of(chat_message_bytes(id, user_id, timestamp, payload)) == HostAction::RelayChat,
        host_action_of(leave_bytes()) == HostAction::Leave,
{
    let ch = PacketHeader {
        magic: MAGIC,
        version: PROTOCOL_VERSION,
        packet_type: PacketType::ChatMessage,
        payload_length: (26 + payload.len()) as u32,
    };
    assert(header_wf(ch));
    let rest = id + le16(user_id) + le64(timestamp) + payload;
    lemma_header_in_front(ch, rest);
    assert(chat_message_bytes(id, user_id, timestamp, payload) =~= header_bytes(ch) + rest);
    let lh = PacketHeader {
        magic: MAGIC,
        version: PROTOCOL_VERSION,
        packet_type: PacketType::LeaveRoom,
        payload_length: 0,
    };
    lemma_header_in_front(lh, Seq::empty());
    assert(leave_bytes() =~= header_bytes(lh) + Seq::<u8>::empty());
}

/// A voice packet is relayed on behalf of the user it names.
pub proof fn lemma_voice_relayed_for_sender(p: VoiceModel)
    requires
        header_wf(p.header),
    ensures
        parse_voice(voice_bytes(p)) matches Ok(v) && v.user_id == p.user_id,
{
    crate::packet::lemma_voice_roundtrip(p);
}

} // verus!
