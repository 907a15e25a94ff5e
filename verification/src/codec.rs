//! Framing of packets on a TCP byte stream.
//!
//! TCP is a stream protocol: a packet can be split across reads and several
//! packets can arrive in one read. The codec accumulates bytes and hands out
//! one whole packet (header + announced payload) at a time.

use vstd::prelude::*;

use bytes::BytesMut;

use crate::packet::{PacketError, PacketHeader, header_bytes, header_wf, parse_header};
use crate::MAGIC;

verus! {

#[verifier::external_type_specification]
#[verifier::external_body]
pub struct ExBytesMut(BytesMut);

/// The bytes a `BytesMut` holds, in order.
pub uninterp spec fn buffer_contents(b: BytesMut) -> Seq<u8>;

/// `BytesMut::with_capacity`: an empty buffer (capacity is not modelled).
#[verifier::external_body]
fn buffer_with_capacity(capacity: usize) -> (r: BytesMut)
    requires
        capacity <= 4096,
    ensures
        buffer_contents(r) == Seq::<u8>::empty(),
{
    BytesMut::with_capacity(capacity)
}

/// `BytesMut::extend_from_slice`: appends `data` at the end.
#[verifier::external_body]
fn buffer_extend(b: &mut BytesMut, data: &[u8])
    requires
        buffer_contents(*old(b)).len() + data@.len() <= isize::MAX,
    ensures
        buffer_contents(*final(b)) == buffer_contents(*old(b)) + data@,
{
    b.extend_from_slice(data)
}

/// `BytesMut::len`: the number of bytes held.
#[verifier::external_body]
fn buffer_len(b: &BytesMut) -> (r: usize)
    ensures
        r == buffer_contents(*b).len(),
{
    b.len()
}

/// Indexing a `BytesMut` (through its slice deref): the byte at `i`.
#[verifier::external_body]
fn buffer_byte(b: &BytesMut, i: usize) -> (r: u8)
    requires
        i < buffer_contents(*b).len(),
    ensures
        r == buffer_contents(*b)[i as int],
{
    b[i]
}

/// Slicing a `BytesMut` (through its slice deref): a copy of the first `n` bytes.
#[verifier::external_body]
fn buffer_prefix(b: &BytesMut, n: usize) -> (r: Vec<u8>)
    requires
        n <= buffer_contents(*b).len(),
    ensures
        r@ == buffer_contents(*b).subrange(0, n as int),
{
    b[..n].to_vec()
}

/// `BytesMut::split_to`: removes the first `at` bytes and returns them (copied
/// into a `Vec`); the buffer keeps the rest.
#[verifier::external_body]
fn buffer_split_to(b: &mut BytesMut, at: usize) -> (r: Vec<u8>)
    requires
        at <= buffer_contents(*old(b)).len(),
    ensures
        r@ == buffer_contents(*old(b)).subrange(0, at as int),
        buffer_contents(*final(b)) == buffer_contents(*old(b)).subrange(
            at as int,
            buffer_contents(*old(b)).len() as int,
        ),
{
    b.split_to(at).to_vec()
}

/// `BytesMut::clear`: removes every byte.
#[verifier::external_body]
fn buffer_clear(b: &mut BytesMut)
    ensures
        buffer_contents(*final(b)) == Seq::<u8>::empty(),
{
    b.clear()
}

/// Codec for framing packets on a TCP byte stream.
pub struct PacketCodec {
    /// Accumulation buffer for incoming TCP bytes
    buffer: BytesMut,
    /// Maximum allowed payload size (prevents memory exhaustion)
    max_payload_size: usize,
}

/// The abstract state of a codec: the buffered bytes and the payload limit.
pub ghost struct CodecModel {
    pub buffered: Seq<u8>,
    pub max_payload: usize,
}

impl View for PacketCodec {
    type V = CodecModel;

    closed spec fn view(&self) -> CodecModel {
        CodecModel { buffered: buffer_contents(self.buffer), max_payload: self.max_payload_size }
    }
}

/// Whether the magic bytes start at position `i` of `c`.
pub open spec fn magic_at(c: Seq<u8>, i: int) -> bool {
    c[i] == MAGIC@[0] && c[i + 1] == MAGIC@[1]
}

/// The first position at or after `i` (and before the last byte) where the
/// magic starts, or `c.len()` when there is none.
pub open spec fn first_magic_from(c: Seq<u8>, i: int) -> int
    decreases c.len() - i,
{
    if i < 1 || i >= c.len() - 1 {
        c.len() as int
    } else if magic_at(c, i) {
        i
    } else {
        first_magic_from(c, i + 1)
    }
}

/// How many bytes the codec drops after a malformed frame: everything up to
/// the next magic after the first byte, or everything.
pub open spec fn skip_len(c: Seq<u8>) -> int {
    if c.len() <= 1 {
        c.len() as int
    } else {
        first_magic_from(c, 1)
    }
}

/// The buffer after dropping a malformed frame.
pub open spec fn skipped(c: Seq<u8>) -> Seq<u8> {
    c.subrange(skip_len(c), c.len() as int)
}

/// One decoding step on buffered bytes `c` with payload limit `max`: what
/// is handed out, and what stays buffered.
pub open spec fn decode_step(c: Seq<u8>, max: usize) -> (Option<Result<Seq<u8>, PacketError>>, Seq<u8>) {
    if c.len() < 8 {
        (None, c)
    } else {
        match parse_header(c) {
            Err(e) => (Some(Err(e)), skipped(c)),
            Ok(h) => {
                let n = h.payload_length as int;
                if n > max {
                    (
                        Some(Err(PacketError::TooShort { expected: max, got: h.payload_length as usize })),
                        skipped(c),
                    )
                } else if c.len() < 8 + n {
                    (None, c)
                } else {
                    (Some(Ok(c.subrange(0, 8 + n))), c.subrange(8 + n, c.len() as int))
                }
            },
        }
    }
}

/// The model of what `try_decode` hands out.
pub open spec fn decoded(r: Option<Result<Vec<u8>, PacketError>>) -> Option<Result<Seq<u8>, PacketError>> {
    match r {
        None => None,
        Some(Ok(v)) => Some(Ok(v@)),
        Some(Err(e)) => Some(Err(e)),
    }
}

impl PacketCodec {
    /// Create a new codec with default max payload size (64KB)
    pub fn new() -> (r: Self)
        ensures
            r@.buffered == Seq::<u8>::empty(),
            r@.max_payload == 65536,
    {
        Self { buffer: buffer_with_capacity(4096), max_payload_size: 65536 }
    }

    /// Create with a custom max payload size
    pub fn with_max_payload(max_payload_size: usize) -> (r: Self)
        ensures
            r@.buffered == Seq::<u8>::empty(),
            r@.max_payload == max_payload_size,
    {
        Self { buffer: buffer_with_capacity(4096), max_payload_size }
    }

    /// Feed raw bytes from a TCP read into the codec
    pub fn feed(&mut self, data: &[u8])
        requires
            old(self)@.buffered.len() + data@.len() <= isize::MAX,
        ensures
            final(self)@.buffered == old(self)@.buffered + data@,
            final(self)@.max_payload == old(self)@.max_payload,
    {
        buffer_extend(&mut self.buffer, data);
    }

    /// Try to extract the next complete packet from the buffer.
    /// Returns `None` if not enough data is available yet,
    /// `Some(Ok(bytes))` with the full packet (header + payload), or
    /// `Some(Err(..))` if the data is malformed (the malformed bytes are dropped
    /// up to the next magic).
    pub fn try_decode(&mut self) -> (r: Option<Result<Vec<u8>, PacketError>>)
        ensures
            decoded(r) == decode_step(old(self)@.buffered, old(self)@.max_payload).0,
            final(self)@.buffered == decode_step(old(self)@.buffered, old(self)@.max_payload).1,
            final(self)@.max_payload == old(self)@.max_payload,
    {
        let len = buffer_len(&self.buffer);
        if len < 8 {
            return None;
        }
        let head = buffer_prefix(&self.buffer, 8);
        proof {
            crate::packet::lemma_header_prefix(head@, self@.buffered);
        }
        let header = match PacketHeader::from_bytes(head.as_slice()) {
            Ok(h) => h,
            Err(e) => {
                self.skip_to_next_magic();
                return Some(Err(e));
            },
        };
        let payload_len = header.payload_length as usize;
        if payload_len > self.max_payload_size {
            self.skip_to_next_magic();
            return Some(Err(PacketError::TooShort { expected: self.max_payload_size, got: payload_len }));
        }
        if len - 8 < payload_len {
            return None;
        }
        let packet_bytes = buffer_split_to(&mut self.buffer, 8 + payload_len);
        Some(Ok(packet_bytes))
    }

    /// Skip past corrupted data to the next potential packet boundary
    fn skip_to_next_magic(&mut self)
        ensures
            final(self)@.buffered == skipped(old(self)@.buffered),
            final(self)@.max_payload == old(self)@.max_payload,
    {
        let ghost c = self@.buffered;
        let len = buffer_len(&self.buffer);
        if len <= 1 {
            buffer_clear(&mut self.buffer);
            assert(skipped(c) =~= Seq::<u8>::empty());
            return;
        }
        let mut i: usize = 1;
        while i < len - 1
            invariant
                1 <= i <= len - 1,
                len == c.len(),
                self@.buffered == c,
                self@.max_payload == old(self)@.max_payload,
                c == old(self)@.buffered,
                first_magic_from(c, 1) == first_magic_from(c, i as int),
            decreases len - i,
        {
            if buffer_byte(&self.buffer, i) == MAGIC[0] && buffer_byte(&self.buffer, i + 1)
                == MAGIC[1] {
                let _ = buffer_split_to(&mut self.buffer, i);
                return;
            }
            i = i + 1;
        }
        buffer_clear(&mut self.buffer);
        assert(skipped(c) =~= Seq::<u8>::empty());
    }

    /// Encode a packet (header + payload) into a framed byte buffer ready for
    /// TCP write: the header already carries the length, so the frame is the
    /// packet bytes themselves.
    pub fn encode(packet_bytes: &[u8]) -> (r: Vec<u8>)
        ensures
            r@ == packet_bytes@,
    {
        crate::wire::tail_vec(packet_bytes, 0)
    }

    /// How many buffered bytes are waiting to be decoded
    pub fn buffered_len(&self) -> (r: usize)
        ensures
            r == self@.buffered.len(),
    {
        buffer_len(&self.buffer)
    }
}

impl Default for PacketCodec {
    fn default() -> (r: Self)
        ensures
            r@.buffered == Seq::<u8>::empty(),
            r@.max_payload == 65536,
    {
        Self::new()
    }
}

/// A whole frame: a well-formed header announcing exactly the payload that follows.
pub open spec fn is_frame(p: Seq<u8>, max: usize) -> bool {
    &&& p.len() >= 8
    &&& parse_header(p) is Ok
    &&& parse_header(p)->Ok_0.payload_length as int == p.len() - 8
    &&& p.len() - 8 <= max
}

/// A frame at the front of the buffer is handed out whole, and the bytes
/// after it stay buffered.
pub proof fn lemma_frame_decodes(p: Seq<u8>, rest: Seq<u8>, max: usize)
    requires
        is_frame(p, max),
    ensures
        decode_step(p + rest, max) == (
            Some(Ok::<Seq<u8>, PacketError>(p)),
            rest,
        ),
{
    let c = p + rest;
    assert(c.subrange(0, 8) =~= p.subrange(0, 8));
    assert(p.subrange(0, 8).len() == 8);
    crate::packet::lemma_header_prefix(p.subrange(0, 8), c);
    crate::packet::lemma_header_prefix(p.subrange(0, 8), p);
    assert(c.subrange(0, p.len() as int) =~= p);
    assert(c.subrange(p.len() as int, c.len() as int) =~= rest);
}

/// A frame that has only partly arrived is not handed out, and nothing is dropped.
pub proof fn lemma_partial_frame_waits(p: Seq<u8>, k: int, max: usize)
    requires
        is_frame(p, max),
        0 <= k < p.len(),
    ensures
        decode_step(p.subrange(0, k), max) == (
            None::<Result<Seq<u8>, PacketError>>,
            p.subrange(0, k),
        ),
{
    let q = p.subrange(0, k);
    if k >= 8 {
        assert(q.subrange(0, 8) =~= p.subrange(0, 8));
        crate::packet::lemma_header_prefix(p.subrange(0, 8), q);
        crate::packet::lemma_header_prefix(p.subrange(0, 8), p);
    }
}

/// A header built by `PacketHeader::new` followed by exactly the payload it
/// announces (within the limit) is a whole frame.
pub proof fn lemma_header_and_payload_is_frame(h: PacketHeader, payload: Seq<u8>, max: usize)
    requires
        header_wf(h),
        h.payload_length as int == payload.len(),
        payload.len() <= max,
    ensures
        is_frame(header_bytes(h) + payload, max),
{
    let p = header_bytes(h) + payload;
    crate::packet::lemma_header_roundtrip(h);
    assert(p.subrange(0, 8) =~= header_bytes(h));
    crate::packet::lemma_header_prefix(header_bytes(h), p);
}

} // verus!
