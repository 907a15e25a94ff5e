//! Little-endian integer encodings used by every packet layout.

use vstd::prelude::*;

verus! {

/// The two little-endian bytes of `v`.
pub open spec fn le16(v: u16) -> Seq<u8> {
    seq![(v & 0xff) as u8, (v >> 8) as u8]
}

/// The four little-endian bytes of `v`.
pub open spec fn le32(v: u32) -> Seq<u8> {
    seq![(v & 0xff) as u8, ((v >> 8) & 0xff) as u8, ((v >> 16) & 0xff) as u8, (v >> 24) as u8]
}

/// The eight little-endian bytes of `v`.
pub open spec fn le64(v: u64) -> Seq<u8> {
    seq![
        (v & 0xff) as u8,
        ((v >> 8) & 0xff) as u8,
        ((v >> 16) & 0xff) as u8,
        ((v >> 24) & 0xff) as u8,
        ((v >> 32) & 0xff) as u8,
        ((v >> 40) & 0xff) as u8,
        ((v >> 48) & 0xff) as u8,
        (v >> 56) as u8,
    ]
}

/// The value whose little-endian bytes are `b0 b1`.
pub open spec fn u16_le(b0: u8, b1: u8) -> u16 {
    (b0 as u16) | ((b1 as u16) << 8)
}

/// The value whose little-endian bytes are `b0 .. b3`.
pub open spec fn u32_le(b0: u8, b1: u8, b2: u8, b3: u8) -> u32 {
    (b0 as u32) | ((b1 as u32) << 8) | ((b2 as u32) << 16) | ((b3 as u32) << 24)
}

/// The value whose little-endian bytes are `s[at] .. s[at + 3]`.
pub open spec fn u32_at(s: Seq<u8>, at: int) -> u32 {
    u32_le(s[at], s[at + 1], s[at + 2], s[at + 3])
}

/// The value whose little-endian bytes are `s[at], s[at + 1]`.
pub open spec fn u16_at(s: Seq<u8>, at: int) -> u16 {
    u16_le(s[at], s[at + 1])
}

/// The value whose little-endian bytes are `s[at] .. s[at + 7]`.
pub open spec fn u64_at(s: Seq<u8>, at: int) -> u64 {
    (s[at] as u64) | ((s[at + 1] as u64) << 8) | ((s[at + 2] as u64) << 16) | ((s[at + 3] as u64)
        << 24) | ((s[at + 4] as u64) << 32) | ((s[at + 5] as u64) << 40) | ((s[at + 6] as u64)
        << 48) | ((s[at + 7] as u64) << 56)
}

/// Reading back the bytes of `le16(v)` gives `v`.
pub proof fn lemma_le16_roundtrip(v: u16)
    ensures
        u16_at(le16(v), 0) == v,
{
    let b0 = (v & 0xff) as u8;
    let b1 = (v >> 8) as u8;
    assert((((v & 0xff) as u8) as u16) | ((((v >> 8) as u8) as u16) << 8) == v) by (bit_vector);
}

/// Reading back the bytes of `le32(v)` gives `v`.
pub proof fn lemma_le32_roundtrip(v: u32)
    ensures
        u32_at(le32(v), 0) == v,
{
    assert((((v & 0xff) as u8) as u32) | (((((v >> 8) & 0xff) as u8) as u32) << 8) | (((((v
        >> 16) & 0xff) as u8) as u32) << 16) | ((((v >> 24) as u8) as u32) << 24) == v)
        by (bit_vector);
}

/// Reading back the bytes of `le64(v)` gives `v`.
pub proof fn lemma_le64_roundtrip(v: u64)
    ensures
        u64_at(le64(v), 0) == v,
{
    assert((((v & 0xff) as u8) as u64) | (((((v >> 8) & 0xff) as u8) as u64) << 8) | (((((v
        >> 16) & 0xff) as u8) as u64) << 16) | (((((v >> 24) & 0xff) as u8) as u64) << 24) | (((((v
        >> 32) & 0xff) as u8) as u64) << 32) | (((((v >> 40) & 0xff) as u8) as u64) << 40) | (((((v
        >> 48) & 0xff) as u8) as u64) << 48) | ((((v >> 56) as u8) as u64) << 56) == v)
        by (bit_vector);
}

/// Writing the value read from two bytes gives those bytes back.
pub proof fn lemma_u16_le_bytes(b0: u8, b1: u8)
    ensures
        le16(u16_le(b0, b1)) == seq![b0, b1],
{
    let v = u16_le(b0, b1);
    assert((((b0 as u16) | ((b1 as u16) << 8)) & 0xff) as u8 == b0) by (bit_vector);
    assert((((b0 as u16) | ((b1 as u16) << 8)) >> 8) as u8 == b1) by (bit_vector);
    assert(le16(v) =~= seq![b0, b1]);
}

/// Writing the value read from four bytes gives those bytes back.
pub proof fn lemma_u32_le_bytes(b0: u8, b1: u8, b2: u8, b3: u8)
    ensures
        le32(u32_le(b0, b1, b2, b3)) == seq![b0, b1, b2, b3],
{
    let v = u32_le(b0, b1, b2, b3);
    assert(((((b0 as u32) | ((b1 as u32) << 8) | ((b2 as u32) << 16) | ((b3 as u32) << 24))
        & 0xff) as u8 == b0) && (((((b0 as u32) | ((b1 as u32) << 8) | ((b2 as u32) << 16) | ((
    b3 as u32) << 24)) >> 8) & 0xff) as u8 == b1) && (((((b0 as u32) | ((b1 as u32) << 8) | ((
    b2 as u32) << 16) | ((b3 as u32) << 24)) >> 16) & 0xff) as u8 == b2) && ((((b0 as u32) | ((
    b1 as u32) << 8) | ((b2 as u32) << 16) | ((b3 as u32) << 24)) >> 24) as u8 == b3))
        by (bit_vector);
    assert(le32(v) =~= seq![b0, b1, b2, b3]);
}

/// Writing the value read from eight bytes gives those bytes back.
pub proof fn lemma_u64_le_bytes(s: Seq<u8>, at: int)
    requires
        0 <= at,
        at + 8 <= s.len(),
    ensures
        le64(u64_at(s, at)) == s.subrange(at, at + 8),
{
    let b0 = s[at];
    let b1 = s[at + 1];
    let b2 = s[at + 2];
    let b3 = s[at + 3];
    let b4 = s[at + 4];
    let b5 = s[at + 5];
    let b6 = s[at + 6];
    let b7 = s[at + 7];
    let v = u64_at(s, at);
    assert(v == (b0 as u64) | ((b1 as u64) << 8) | ((b2 as u64) << 16) | ((b3 as u64) << 24) | ((
    b4 as u64) << 32) | ((b5 as u64) << 40) | ((b6 as u64) << 48) | ((b7 as u64) << 56));
    assert(v == (b0 as u64) | ((b1 as u64) << 8) | ((b2 as u64) << 16) | ((b3 as u64) << 24) | ((
    b4 as u64) << 32) | ((b5 as u64) << 40) | ((b6 as u64) << 48) | ((b7 as u64) << 56) ==> (v
        & 0xff) as u8 == b0 && ((v >> 8) & 0xff) as u8 == b1 && ((v >> 16) & 0xff) as u8 == b2
        && ((v >> 24) & 0xff) as u8 == b3 && ((v >> 32) & 0xff) as u8 == b4 && ((v >> 40) & 0xff)
        as u8 == b5 && ((v >> 48) & 0xff) as u8 == b6 && (v >> 56) as u8 == b7) by (bit_vector);
    assert(le64(v) =~= s.subrange(at, at + 8));
}

/// The little-endian bytes of a `u16`.
pub fn u16_to_le(v: u16) -> (r: [u8; 2])
    ensures
        r@ == le16(v),
{
    let r = [(v & 0xff) as u8, (v >> 8) as u8];
    assert(r@ =~= le16(v));
    r
}

/// The little-endian bytes of a `u32`.
pub fn u32_to_le(v: u32) -> (r: [u8; 4])
    ensures
        r@ == le32(v),
{
    let r = [(v & 0xff) as u8, ((v >> 8) & 0xff) as u8, ((v >> 16) & 0xff) as u8, (v >> 24) as u8];
    assert(r@ =~= le32(v));
    r
}

/// The little-endian bytes of a `u64`.
pub fn u64_to_le(v: u64) -> (r: [u8; 8])
    ensures
        r@ == le64(v),
{
    let r = [
        (v & 0xff) as u8,
        ((v >> 8) & 0xff) as u8,
        ((v >> 16) & 0xff) as u8,
        ((v >> 24) & 0xff) as u8,
        ((v >> 32) & 0xff) as u8,
        ((v >> 40) & 0xff) as u8,
        ((v >> 48) & 0xff) as u8,
        (v >> 56) as u8,
    ];
    assert(r@ =~= le64(v));
    r
}

/// Reads a little-endian `u16` at `at`.
pub fn read_u16(s: &[u8], at: usize) -> (r: u16)
    requires
        at + 2 <= s@.len(),
    ensures
        r == u16_at(s@, at as int),
{
    (s[at] as u16) | ((s[at + 1] as u16) << 8)
}

/// Reads a little-endian `u32` at `at`.
pub fn read_u32(s: &[u8], at: usize) -> (r: u32)
    requires
        at + 4 <= s@.len(),
    ensures
        r == u32_at(s@, at as int),
{
    (s[at] as u32) | ((s[at + 1] as u32) << 8) | ((s[at + 2] as u32) << 16) | ((s[at + 3] as u32)
        << 24)
}

/// Reads a little-endian `u64` at `at`.
pub fn read_u64(s: &[u8], at: usize) -> (r: u64)
    requires
        at + 8 <= s@.len(),
    ensures
        r == u64_at(s@, at as int),
{
    (s[at] as u64) | ((s[at + 1] as u64) << 8) | ((s[at + 2] as u64) << 16) | ((s[at + 3] as u64)
        << 24) | ((s[at + 4] as u64) << 32) | ((s[at + 5] as u64) << 40) | ((s[at + 6] as u64)
        << 48) | ((s[at + 7] as u64) << 56)
}

/// Appends every byte of `src` to `dst`.
pub fn append_bytes(dst: &mut Vec<u8>, src: &[u8])
    ensures
        final(dst)@ == old(dst)@ + src@,
{
    let mut i: usize = 0;
    while i < src.len()
        invariant
            i <= src@.len(),
            dst@ == old(dst)@ + src@.subrange(0, i as int),
        decreases src@.len() - i,
    {
        dst.push(src[i]);
        i = i + 1;
        assert(src@.subrange(0, i as int) =~= src@.subrange(0, i - 1) + seq![src@[i - 1]]);
    }
    assert(src@.subrange(0, src@.len() as int) =~= src@);
}

/// A fresh vector holding `s[from..]`.
pub fn tail_vec(s: &[u8], from: usize) -> (r: Vec<u8>)
    requires
        from <= s@.len(),
    ensures
        r@ == s@.subrange(from as int, s@.len() as int),
{
    let mut r: Vec<u8> = Vec::new();
    let mut i: usize = from;
    while i < s.len()
        invariant
            from <= i <= s@.len(),
            r@ == s@.subrange(from as int, i as int),
        decreases s@.len() - i,
    {
        r.push(s[i]);
        i = i + 1;
        assert(r@ =~= s@.subrange(from as int, i as int));
    }
    r
}

} // verus!
