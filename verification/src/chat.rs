//! Chat messages and their delivery status.

use vstd::prelude::*;

use crate::text::{hex_of, hex_string};
use crate::time_of_day::{UtcTime, utc_now};

verus! {

/// Message delivery status
#[derive(Debug, Clone, Copy, PartialEq, Eq, Structural)]
pub enum MessageStatus {
    /// Message is being sent
    Sending,
    /// Message was sent and ACK'd
    Delivered,
    /// Message delivery failed after retries
    Failed,
}

/// The stored number of a status.
pub open spec fn status_code(s: MessageStatus) -> i32 {
    match s {
        MessageStatus::Sending => 0,
        MessageStatus::Delivered => 1,
        MessageStatus::Failed => 2,
    }
}

/// The status a stored number stands for (unknown numbers read as failed).
pub open spec fn status_of_code(c: i32) -> MessageStatus {
    if c == 0 {
        MessageStatus::Sending
    } else if c == 1 {
        MessageStatus::Delivered
    } else {
        MessageStatus::Failed
    }
}

impl MessageStatus {
    /// The number a status is stored as
    pub fn to_code(&self) -> (r: i32)
        ensures
            r == status_code(*self),
    {
        match self {
            MessageStatus::Sending => 0,
            MessageStatus::Delivered => 1,
            MessageStatus::Failed => 2,
        }
    }

    /// The status a stored number stands for
    pub fn from_code(c: i32) -> (r: Self)
        ensures
            r == status_of_code(c),
    {
        match c {
            0 => MessageStatus::Sending,
            1 => MessageStatus::Delivered,
            _ => MessageStatus::Failed,
        }
    }
}

/// Stored statuses read back as themselves.
pub proof fn lemma_status_code_roundtrip(s: MessageStatus)
    ensures
        status_of_code(status_code(s)) == s,
{
}

/// `Uuid::new_v4().into_bytes()`: sixteen random bytes marked as a version 4,
/// RFC 4122 variant UUID (the high nibble of byte 6 is 4, the two high bits
/// of byte 8 are `10`). Nothing else is stated of them.
#[verifier::external_body]
pub(crate) fn new_message_id() -> (r: [u8; 16])
    ensures
        r@[6] / 16 == 4,
        r@[8] / 64 == 2,
{
    uuid::Uuid::new_v4().into_bytes()
}

/// A chat message in the system
#[derive(Debug, Clone)]
pub struct ChatMessage {
    /// Unique message identifier (UUID bytes)
    pub id: [u8; 16],
    /// User ID of the sender
    pub user_id: u16,
    /// Display name of the sender
    pub username: String,
    /// Message text content
    pub text: String,
    /// When the message was sent
    pub timestamp: UtcTime,
    /// Delivery status
    pub status: MessageStatus,
}

impl ChatMessage {
    /// Create a new outgoing message, with a fresh random id and the
    /// current time
    pub fn new(user_id: u16, username: String, text: String) -> (r: Self)
        ensures
            r.user_id == user_id,
            r.username@ == username@,
            r.text@ == text@,
            r.status == MessageStatus::Sending,
            r.id@[6] / 16 == 4,
            r.id@[8] / 64 == 2,
    {
        Self {
            id: new_message_id(),
            user_id,
            username,
            text,
            timestamp: utc_now(),
            status: MessageStatus::Sending,
        }
    }

    /// Create from received data
    pub fn received(id: [u8; 16], user_id: u16, username: String, text: String, timestamp: UtcTime) -> (r: Self)
        ensures
            r.id == id,
            r.user_id == user_id,
            r.username@ == username@,
            r.text@ == text@,
            r.timestamp == timestamp,
            r.status == MessageStatus::Delivered,
    {
        Self { id, user_id, username, text, timestamp, status: MessageStatus::Delivered }
    }

    /// Convert message ID to lowercase hex string for display
    pub fn id_hex(&self) -> (r: String)
        ensures
            r@ == hex_of(self.id@),
            r@.len() == 32,
    {
        proof {
            lemma_hex_len(self.id@);
        }
        hex_string(&self.id)
    }
}

proof fn lemma_hex_len(b: Seq<u8>)
    ensures
        hex_of(b).len() == 2 * b.len(),
    decreases b.len(),
{
    if b.len() > 0 {
        lemma_hex_len(b.drop_last());
    }
}

/// A stored message read back: the 16-byte id, the sender id (its low 16
/// bits), name, text, timestamp and the status its stored number stands for.
pub fn message_from_row(
    id_blob: &[u8],
    user_id: i64,
    username: String,
    text: String,
    timestamp: UtcTime,
    status: i32,
) -> (r: ChatMessage)
    requires
        id_blob@.len() == 16,
    ensures
        r.id@ == id_blob@,
        r.user_id == user_id as u16,
        r.username@ == username@,
        r.text@ == text@,
        r.timestamp == timestamp,
        r.status == status_of_code(status),
{
    let mut id = [0u8; 16];
    let mut i: usize = 0;
    while i < 16
        invariant
            i <= 16,
            id_blob@.len() == 16,
            forall|j: int| 0 <= j < i ==> id@[j] == id_blob@[j],
        decreases 16 - i,
    {
        id.set(i, id_blob[i]);
        i = i + 1;
    }
    assert(id@ =~= id_blob@);
    ChatMessage {
        id,
        user_id: user_id as u16,
        username,
        text,
        timestamp,
        status: MessageStatus::from_code(status),
    }
}

/// Messages read newest first, put back in the order they were sent.
pub fn oldest_first(newest_first: Vec<ChatMessage>) -> (r: Vec<ChatMessage>)
    ensures
        r@ == newest_first@.reverse(),
{
    let mut out: Vec<ChatMessage> = Vec::new();
    let mut rest = newest_first;
    let ghost orig = rest@;
    while rest.len() > 0
        invariant
            orig.len() == rest@.len() + out@.len(),
            rest@ == orig.subrange(0, rest@.len() as int),
            out@ == orig.subrange(rest@.len() as int, orig.len() as int).reverse(),
        decreases rest@.len(),
    {
        let ghost n = rest@.len();
        let m = rest.pop().unwrap();
        out.push(m);
        assert(rest@ =~= orig.subrange(0, rest@.len() as int));
        assert(out@ =~= orig.subrange(rest@.len() as int, orig.len() as int).reverse());
    }
    assert(out@ =~= orig.reverse());
    out
}

} // verus!
