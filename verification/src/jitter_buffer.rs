//! Jitter buffer: holds received voice frames briefly to put them back in
//! sequence order and play them at a steady cadence.
//!
//! Frames are kept in a `BTreeMap` by sequence number (each number at most
//! once).
//! A frame whose number has already been played is dropped as late. When the
//! buffer is over capacity the oldest frame is dropped. Popping always
//! advances the playback number, and yields nothing when the expected frame
//! is missing (the caller then conceals the loss).
//!
//! The jitter estimate itself (a floating-point moving average of arrival
//! intervals) is kept by the caller; this buffer takes the resulting depth in
//! frames through `adjust_depth_to`.

use vstd::prelude::*;

use std::collections::BTreeMap;

use crate::config::{JITTER_BUFFER_INITIAL_DEPTH, JITTER_BUFFER_MAX_DEPTH};

verus! {

broadcast use vstd::std_specs::btree::group_btree_axioms;

/// Encoded audio frame ready for network transmission
#[derive(Debug, Clone)]
pub struct EncodedFrame {
    /// Opus-encoded bytes
    pub data: Vec<u8>,
    /// Sequence number
    pub sequence: u32,
    /// Timestamp in milliseconds
    pub timestamp: u32,
    /// Whether this frame is silence (no opus data)
    pub is_silence: bool,
}

/// The content of a frame.
pub ghost struct FrameModel {
    pub data: Seq<u8>,
    pub sequence: u32,
    pub timestamp: u32,
    pub is_silence: bool,
}

impl View for EncodedFrame {
    type V = FrameModel;

    open spec fn view(&self) -> FrameModel {
        FrameModel {
            data: self.data@,
            sequence: self.sequence,
            timestamp: self.timestamp,
            is_silence: self.is_silence,
        }
    }
}

/// Adaptive jitter buffer for smoothing out network timing variations.
pub struct JitterBuffer {
    /// Buffered frames by sequence number
    buffer: BTreeMap<u32, EncodedFrame>,
    /// Maximum number of frames to buffer
    capacity: usize,
    /// Next sequence number expected for playback
    next_playback_seq: u32,
    /// Target buffer depth in frames (adaptive)
    target_depth: usize,
    /// Number of packets received
    packet_count: u64,
    /// Number of packets received out of order
    out_of_order_count: u64,
    /// Number of late packets dropped
    late_drop_count: u64,
    /// Whether the buffer has received its first packet
    initialized: bool,
}

/// The abstract state of a jitter buffer.
pub ghost struct JitterModel {
    pub frames: Map<u32, FrameModel>,
    pub capacity: usize,
    pub next_playback_seq: u32,
    pub target_depth: usize,
    pub packet_count: u64,
    pub out_of_order_count: u64,
    pub late_drop_count: u64,
    pub initialized: bool,
}

/// A new buffer: empty, not yet started, at the initial target depth.
pub open spec fn fresh_jitter() -> JitterModel {
    JitterModel {
        frames: Map::empty(),
        capacity: JITTER_BUFFER_MAX_DEPTH,
        next_playback_seq: 0,
        target_depth: JITTER_BUFFER_INITIAL_DEPTH,
        packet_count: 0,
        out_of_order_count: 0,
        late_drop_count: 0,
        initialized: false,
    }
}

/// Every frame is stored under its own sequence number.
pub open spec fn keyed_by_sequence(f: Map<u32, FrameModel>) -> bool {
    forall|k: u32| #[trigger] f.contains_key(k) ==> f[k].sequence == k
}

/// The invariant of a jitter buffer.
pub open spec fn jitter_wf(m: JitterModel) -> bool {
    &&& m.frames.dom().finite()
    &&& keyed_by_sequence(m.frames)
    &&& m.capacity == JITTER_BUFFER_MAX_DEPTH
    &&& m.frames.len() <= m.capacity
}

/// Whether sequence number `a` comes before `b`, allowing for wrap-around.
pub open spec fn seq_before(a: u32, b: u32) -> bool {
    let diff = vstd::wrapping::u32_specs::wrapping_sub(b, a);
    diff > 0 && diff < 0x7fff_ffff
}

/// `k` is the smallest key of `f`.
pub open spec fn is_min_key<V>(f: Map<u32, V>, k: u32) -> bool {
    f.contains_key(k) && forall|j: u32| #[trigger] f.contains_key(j) ==> k <= j
}

/// `k` is the largest key of `f`.
pub open spec fn is_max_key<V>(f: Map<u32, V>, k: u32) -> bool {
    f.contains_key(k) && forall|j: u32| #[trigger] f.contains_key(j) ==> j <= k
}

/// The smallest key of a non-empty map.
pub open spec fn min_key<V>(f: Map<u32, V>) -> u32 {
    choose|k: u32| is_min_key(f, k)
}

/// The largest key of a non-empty map.
pub open spec fn max_key<V>(f: Map<u32, V>) -> u32 {
    choose|k: u32| is_max_key(f, k)
}

/// The sequence number the next arriving frame is expected to carry: one
/// after the highest buffered, or the playback number when none is buffered.
pub open spec fn expected_arrival(f: Map<u32, FrameModel>, next: u32) -> u32 {
    if f.len() > 0 {
        vstd::wrapping::u32_specs::wrapping_add(max_key(f), 1)
    } else {
        next
    }
}

/// The state after pushing frame `fr`, and whether it was accepted.
pub open spec fn push_spec(m: JitterModel, fr: FrameModel) -> (JitterModel, bool) {
    let next0 = if !m.initialized { fr.sequence } else { m.next_playback_seq };
    let m0 = JitterModel { next_playback_seq: next0, initialized: true, ..m };
    if seq_before(fr.sequence, next0) {
        (JitterModel { late_drop_count: (m.late_drop_count + 1) as u64, ..m0 }, false)
    } else {
        let ooo = if fr.sequence != expected_arrival(m.frames, next0) {
            (m.out_of_order_count + 1) as u64
        } else {
            m.out_of_order_count
        };
        let f1 = m.frames.insert(fr.sequence, fr);
        let over = f1.len() > m.capacity;
        (
            JitterModel {
                frames: if over { f1.remove(min_key(f1)) } else { f1 },
                next_playback_seq: if over { vstd::wrapping::u32_specs::wrapping_add(next0, 1) } else { next0 },
                out_of_order_count: ooo,
                packet_count: (m.packet_count + 1) as u64,
                ..m0
            },
            true,
        )
    }
}

/// Whether popping is held back: before the first frame, or while the
/// buffer is still filling up to its target depth.
pub open spec fn pop_waits(m: JitterModel) -> bool {
    !m.initialized || (m.frames.len() < m.target_depth && m.packet_count <= m.target_depth)
}

/// The state after popping, and the frame handed out.
pub open spec fn pop_spec(m: JitterModel) -> (JitterModel, Option<FrameModel>) {
    if pop_waits(m) {
        (m, None)
    } else {
        let s = m.next_playback_seq;
        let m1 = JitterModel { next_playback_seq: vstd::wrapping::u32_specs::wrapping_add(s, 1), ..m };
        if m.frames.contains_key(s) {
            (JitterModel { frames: m.frames.remove(s), ..m1 }, Some(m.frames[s]))
        } else {
            (m1, None)
        }
    }
}

/// The model of an optional frame.
pub open spec fn opt_frame(r: Option<EncodedFrame>) -> Option<FrameModel> {
    match r {
        Some(f) => Some(f@),
        None => None,
    }
}

/// The frames of a map, by sequence number.
pub open spec fn frames_of(b: Map<u32, EncodedFrame>) -> Map<u32, FrameModel> {
    b.map_values(|f: EncodedFrame| f@)
}

impl View for JitterBuffer {
    type V = JitterModel;

    closed spec fn view(&self) -> JitterModel {
        JitterModel {
            frames: frames_of(self.buffer@),
            capacity: self.capacity,
            next_playback_seq: self.next_playback_seq,
            target_depth: self.target_depth,
            packet_count: self.packet_count,
            out_of_order_count: self.out_of_order_count,
            late_drop_count: self.late_drop_count,
            initialized: self.initialized,
        }
    }
}

/// `BTreeMap::last_key_value`, keeping the key: the largest key, or `None`
/// for an empty map.
#[verifier::external_body]
fn last_key(m: &BTreeMap<u32, EncodedFrame>) -> (r: Option<u32>)
    ensures
        (r is None) == (m@.dom().len() == 0),
        r matches Some(k) ==> is_max_key(m@, k),
{
    match m.last_key_value() {
        Some((k, _)) => Some(*k),
        None => None,
    }
}

/// `BTreeMap::pop_first`: removes and returns the entry with the smallest
/// key; `None` (and no change) for an empty map.
#[verifier::external_body]
fn pop_first_entry(m: &mut BTreeMap<u32, EncodedFrame>) -> (r: Option<(u32, EncodedFrame)>)
    ensures
        old(m)@.dom().len() == 0 ==> r is None && final(m)@ == old(m)@,
        old(m)@.dom().len() > 0 ==> (r matches Some((k, v)) && is_min_key(old(m)@, k) && old(m)@[k]
            == v && final(m)@ == old(m)@.remove(k)),
{
    m.pop_first()
}

/// The frames of a map are stored under the map's keys.
proof fn lemma_frames_dom(b: Map<u32, EncodedFrame>)
    ensures
        frames_of(b).dom() == b.dom(),
        frames_of(b).len() == b.len(),
{
    assert(frames_of(b).dom() =~= b.dom());
}

/// The smallest key is unique.
proof fn lemma_min_key<V>(f: Map<u32, V>, k: u32)
    requires
        is_min_key(f, k),
    ensures
        min_key(f) == k,
{
    let c = min_key(f);
    assert(is_min_key(f, c));
    assert(c <= k && k <= c);
}

/// The largest key is unique.
proof fn lemma_max_key<V>(f: Map<u32, V>, k: u32)
    requires
        is_max_key(f, k),
    ensures
        max_key(f) == k,
{
    let c = max_key(f);
    assert(is_max_key(f, c));
    assert(c <= k && k <= c);
}

/// A statistics counter advanced by one (wrapping at 2^64).
fn bump(c: u64) -> (r: u64)
    ensures
        r == (c + 1) as u64,
{
    let r = c.wrapping_add(1);
    assert(r == (c + 1) as u64) by (bit_vector)
        requires
            r == (if c == 0xffff_ffff_ffff_ffff { 0 } else { c + 1 }),
    ;
    r
}

impl JitterBuffer {
    /// The buffer's invariant holds.
    pub closed spec fn wf(&self) -> bool {
        &&& jitter_wf(self@)
        &&& self.buffer@.dom().finite()
    }

    /// Create a new jitter buffer
    pub fn new() -> (r: Self)
        ensures
            r.wf(),
            r@ == fresh_jitter(),
    {
        let r = Self {
            buffer: BTreeMap::new(),
            capacity: JITTER_BUFFER_MAX_DEPTH,
            next_playback_seq: 0,
            target_depth: JITTER_BUFFER_INITIAL_DEPTH,
            packet_count: 0,
            out_of_order_count: 0,
            late_drop_count: 0,
            initialized: false,
        };
        assert(r@.frames =~= Map::<u32, FrameModel>::empty());
        r
    }

    /// Push a received frame into the buffer. Returns `true` if the frame
    /// was accepted, `false` if it was dropped as late. (The statistics
    /// counters wrap at 2^64.)
    pub fn push(&mut self, frame: EncodedFrame) -> (r: bool)
        requires
            old(self).wf(),
        ensures
            final(self).wf(),
            (final(self)@, r) == push_spec(old(self)@, frame@),
    {
        let ghost fr = frame@;
        let seq = frame.sequence;
        proof {
            lemma_frames_dom(self.buffer@);
        }
        if !self.initialized {
            self.next_playback_seq = seq;
            self.initialized = true;
        }
        if seq_before_exec(seq, self.next_playback_seq) {
            self.late_drop_count = bump(self.late_drop_count);
            return false;
        }
        if seq != self.next_expected_arrival_seq() {
            self.out_of_order_count = bump(self.out_of_order_count);
        }
        let ghost b0 = self.buffer@;
        let _ = self.buffer.insert(seq, frame);
        proof {
            assert(frames_of(self.buffer@) =~= frames_of(b0).insert(seq, fr));
            lemma_frames_dom(self.buffer@);
        }
        self.packet_count = bump(self.packet_count);
        if self.buffer.len() > self.capacity {
            let ghost b1 = self.buffer@;
            let first = pop_first_entry(&mut self.buffer);
            proof {
                let (k, v) = first->Some_0;
                lemma_min_key(b1, k);
                assert(is_min_key(frames_of(b1), k));
                lemma_min_key(frames_of(b1), k);
                assert(frames_of(self.buffer@) =~= frames_of(b1).remove(k));
                lemma_frames_dom(self.buffer@);
            }
            self.next_playback_seq = self.next_playback_seq.wrapping_add(1);
        }
        true
    }

    /// Pop the next frame for playback: the frame numbered as the next
    /// playback number, if buffered. Always advances the playback number,
    /// except before the first frame and while the buffer is first filling.
    pub fn pop(&mut self) -> (r: Option<EncodedFrame>)
        requires
            old(self).wf(),
        ensures
            final(self).wf(),
            (final(self)@, opt_frame(r)) == pop_spec(old(self)@),
    {
        proof {
            lemma_frames_dom(self.buffer@);
        }
        if !self.initialized {
            return None;
        }
        if self.buffer.len() < self.target_depth {
            if self.packet_count <= self.target_depth as u64 {
                return None;
            }
        }
        let ghost b0 = self.buffer@;
        let seq = self.next_playback_seq;
        self.next_playback_seq = self.next_playback_seq.wrapping_add(1);
        let r = self.buffer.remove(&seq);
        proof {
            assert(frames_of(self.buffer@) =~= frames_of(b0).remove(seq));
            lemma_frames_dom(self.buffer@);
            lemma_frames_dom(b0);
            if b0.contains_key(seq) {
                assert(frames_of(b0).contains_key(seq));
                assert(frames_of(b0)[seq] == b0[seq]@);
                assert(r == Some(b0[seq]));
            } else {
                assert(!frames_of(b0).contains_key(seq));
                assert(r is None);
                assert(frames_of(b0).remove(seq) =~= frames_of(b0));
            }
        }
        r
    }

    /// Set the target depth from the observed jitter, measured in frames:
    /// at least 2, at most the maximum depth.
    pub fn adjust_depth_to(&mut self, jitter_frames: usize)
        requires
            old(self).wf(),
        ensures
            final(self).wf(),
            final(self)@ == (JitterModel {
                target_depth: if jitter_frames < 2 {
                    2
                } else if jitter_frames > JITTER_BUFFER_MAX_DEPTH {
                    JITTER_BUFFER_MAX_DEPTH
                } else {
                    jitter_frames
                },
                ..old(self)@
            }),
    {
        let at_least = if jitter_frames < 2 {
            2
        } else {
            jitter_frames
        };
        let new_depth = if at_least > JITTER_BUFFER_MAX_DEPTH {
            JITTER_BUFFER_MAX_DEPTH
        } else {
            at_least
        };
        if new_depth != self.target_depth {
            self.target_depth = new_depth;
        }
    }

    /// A well-formed buffer holds at most its capacity.
    pub proof fn lemma_depth_bounded(&self)
        requires
            self.wf(),
        ensures
            self@.frames.len() <= JITTER_BUFFER_MAX_DEPTH,
    {
    }

    /// Get current buffer depth (number of frames buffered)
    pub fn depth(&self) -> (r: usize)
        ensures
            r == self@.frames.len(),
    {
        proof {
            lemma_frames_dom(self.buffer@);
        }
        self.buffer.len()
    }

    /// Get target depth
    pub fn target_depth(&self) -> (r: usize)
        ensures
            r == self@.target_depth,
    {
        self.target_depth
    }

    /// Get statistics: (packets received, out of order, late drops)
    pub fn stats(&self) -> (r: (u64, u64, u64))
        ensures
            r == (self@.packet_count, self@.out_of_order_count, self@.late_drop_count),
    {
        (self.packet_count, self.out_of_order_count, self.late_drop_count)
    }

    /// Reset the buffer (e.g., when a user reconnects). The playback number
    /// is kept; it is set again by the next frame.
    pub fn reset(&mut self)
        requires
            old(self).wf(),
        ensures
            final(self).wf(),
            final(self)@ == (JitterModel {
                frames: Map::empty(),
                initialized: false,
                packet_count: 0,
                out_of_order_count: 0,
                late_drop_count: 0,
                target_depth: JITTER_BUFFER_INITIAL_DEPTH,
                ..old(self)@
            }),
    {
        self.buffer.clear();
        self.initialized = false;
        self.packet_count = 0;
        self.out_of_order_count = 0;
        self.late_drop_count = 0;
        self.target_depth = JITTER_BUFFER_INITIAL_DEPTH;
        assert(self@.frames =~= Map::<u32, FrameModel>::empty());
    }

    /// Estimate next expected arrival sequence
    fn next_expected_arrival_seq(&self) -> (r: u32)
        requires
            self.wf(),
        ensures
            r == expected_arrival(self@.frames, self@.next_playback_seq),
    {
        match last_key(&self.buffer) {
            Some(k) => {
                proof {
                    assert(is_max_key(frames_of(self.buffer@), k));
                    lemma_max_key(frames_of(self.buffer@), k);
                }
                k.wrapping_add(1)
            },
            None => {
                assert(self@.frames.dom() =~= self.buffer@.dom());
                self.next_playback_seq
            },
        }
    }
}

impl Default for JitterBuffer {
    fn default() -> (r: Self)
        ensures
            r.wf(),
            r@ == fresh_jitter(),
    {
        Self::new()
    }
}

/// Check if sequence `a` is before sequence `b` (handling wrapping)
fn seq_before_exec(a: u32, b: u32) -> (r: bool)
    ensures
        r == seq_before(a, b),
{
    let diff = b.wrapping_sub(a);
    diff > 0 && diff < u32::MAX / 2
}

/// Playback order: a popped frame carries exactly the playback number it
/// was popped at, and the playback number moves on by one.
pub proof fn lemma_pop_in_sequence(m: JitterModel)
    requires
        jitter_wf(m),
        !pop_waits(m),
    ensures
        pop_spec(m).1 matches Some(f) ==> f.sequence == m.next_playback_seq,
        pop_spec(m).0.next_playback_seq == vstd::wrapping::u32_specs::wrapping_add(
            m.next_playback_seq,
            1,
        ),
{
}

/// A frame whose number was already played is dropped and changes nothing
/// buffered.
pub proof fn lemma_late_frame_dropped(m: JitterModel, fr: FrameModel)
    requires
        m.initialized,
        seq_before(fr.sequence, m.next_playback_seq),
    ensures
        push_spec(m, fr).1 == false,
        push_spec(m, fr).0.frames == m.frames,
        push_spec(m, fr).0.next_playback_seq == m.next_playback_seq,
{
}

/// A frame that is not late is buffered under its number unless the buffer
/// overflowed and the oldest frame made way.
pub proof fn lemma_frame_buffered(m: JitterModel, fr: FrameModel)
    requires
        jitter_wf(m),
        !seq_before(fr.sequence, if m.initialized { m.next_playback_seq } else { fr.sequence }),
    ensures
        push_spec(m, fr).1,
        m.frames.insert(fr.sequence, fr).len() <= m.capacity ==> push_spec(m, fr).0.frames.contains_key(
            fr.sequence,
        ) && push_spec(m, fr).0.frames[fr.sequence] == fr,
{
}

} // verus!
