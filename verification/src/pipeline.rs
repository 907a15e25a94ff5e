//! The voice pipeline's decisions between the audio devices and the codec:
//! whether a captured frame is sent, how sent frames are numbered, and what
//! each remote user's stream contributes to the next playback tick. The
//! sample arithmetic and the Opus codec run outside this library.

use vstd::prelude::*;

use crate::config::{FRAME_DURATION_MS, SAMPLE_RATE};
use std::collections::HashMap;

use vstd::std_specs::iter::IteratorSpec;

use crate::jitter_buffer::{
    EncodedFrame, FrameModel, JitterBuffer, JitterModel, fresh_jitter, pop_spec, push_spec,
};
use crate::vad::{VadState, vad_step, vad_wf};

verus! {

broadcast use vstd::std_specs::hash::group_hash_axioms;

/// Numbers the frames an encoder produces: 0, 1, 2, ... wrapping at 2^32.
pub struct FrameNumbering {
    sequence: u32,
}

impl FrameNumbering {
    /// The number the next frame gets.
    pub closed spec fn next_number(&self) -> u32 {
        self.sequence
    }

    /// Numbering from 0.
    pub fn new() -> (r: Self)
        ensures
            r.next_number() == 0,
    {
        Self { sequence: 0 }
    }

    /// Wrap freshly encoded bytes as the next frame (not silence), and move
    /// the numbering on.
    pub fn next_frame(&mut self, data: Vec<u8>, timestamp: u32) -> (r: EncodedFrame)
        ensures
            r@ == (FrameModel {
                data: data@,
                sequence: old(self).next_number(),
                timestamp,
                is_silence: false,
            }),
            final(self).next_number() == vstd::wrapping::u32_specs::wrapping_add(
                old(self).next_number(),
                1,
            ),
    {
        let frame = EncodedFrame { data, sequence: self.sequence, timestamp, is_silence: false };
        self.sequence = self.sequence.wrapping_add(1);
        frame
    }

    /// The number the next frame gets.
    pub fn sequence(&self) -> (r: u32)
        ensures
            r == self.next_number(),
    {
        self.sequence
    }
}

/// How long `sample_count` samples at the pipeline's sample rate last, in
/// whole milliseconds (rounded down).
pub fn frame_duration_ms(sample_count: usize) -> (r: u32)
    requires
        sample_count * 1000 <= u32::MAX,
    ensures
        r == sample_count * 1000 / (SAMPLE_RATE as int),
{
    (sample_count as u32 * 1000) / SAMPLE_RATE
}

/// Whether a captured frame is encoded and sent. A muted pipeline sends
/// nothing and leaves the voice detector as it was; otherwise the detector
/// takes the frame's threshold comparisons (`quiet`: below the lower
/// threshold, `loud`: above the upper one) and the frame is sent while
/// voice is detected.
pub fn capture_step(muted: bool, vad: &mut VadState, quiet: bool, loud: bool) -> (r: bool)
    requires
        vad_wf(old(vad)@),
    ensures
        vad_wf(final(vad)@),
        muted ==> !r && final(vad)@ == old(vad)@,
        !muted ==> final(vad)@ == vad_step(old(vad)@, quiet, loud) && r == final(vad)@.is_speaking,
{
    if muted {
        return false;
    }
    vad.step(quiet, loud)
}

/// What one remote user's stream contributes to a playback tick
#[derive(Debug, Clone)]
pub enum PlaybackStep {
    /// The frame due was a silence frame: nothing to play
    Silent,
    /// Decode these bytes, stamped with `timestamp`
    Decode { data: Vec<u8>, timestamp: u32 },
    /// The frame due is missing (or playback is held back): conceal the
    /// loss, stamped with `timestamp`
    Conceal { timestamp: u32 },
}

/// The timestamp a tick stamps its output with: the buffered depth in
/// frame durations.
pub open spec fn tick_timestamp(m: JitterModel) -> u32 {
    (m.frames.len() * FRAME_DURATION_MS) as u32
}

/// The playback decision for one user: pop the due frame from the user's
/// jitter buffer; play nothing for a silence frame, decode a frame's bytes,
/// and conceal a missing frame. The timestamp is the buffer's depth (before
/// the pop) in frame durations.
pub fn playback_step(jb: &mut JitterBuffer) -> (r: PlaybackStep)
    requires
        old(jb).wf(),
    ensures
        final(jb).wf(),
        final(jb)@ == pop_spec(old(jb)@).0,
        match pop_spec(old(jb)@).1 {
            Some(f) => if f.is_silence {
                r is Silent
            } else {
                r matches PlaybackStep::Decode { data, timestamp } && data@ == f.data && timestamp
                    == tick_timestamp(old(jb)@)
            },
            None => r matches PlaybackStep::Conceal { timestamp } && timestamp == tick_timestamp(
                old(jb)@,
            ),
        },
{
    proof {
        jb.lemma_depth_bounded();
    }
    let timestamp = jb.depth() as u32 * FRAME_DURATION_MS;
    match jb.pop() {
        Some(frame) => {
            if frame.is_silence {
                PlaybackStep::Silent
            } else {
                PlaybackStep::Decode { data: frame.data, timestamp }
            }
        },
        None => PlaybackStep::Conceal { timestamp },
    }
}

/// The remote users' voice streams: one jitter buffer per user id.
pub struct RemoteStreams {
    buffers: HashMap<u16, JitterBuffer>,
}

impl RemoteStreams {
    /// The streams' states, by user id.
    pub closed spec fn streams(&self) -> Map<u16, JitterModel> {
        self.buffers@.map_values(|b: JitterBuffer| b@)
    }

    /// Every stream's buffer is well formed.
    pub closed spec fn wf(&self) -> bool {
        forall|k: u16| #[trigger] self.buffers@.contains_key(k) ==> self.buffers@[k].wf()
    }

    /// No streams.
    pub fn new() -> (r: Self)
        ensures
            r.wf(),
            r.streams() == Map::<u16, JitterModel>::empty(),
    {
        let r = Self { buffers: HashMap::new() };
        assert(r.streams() =~= Map::<u16, JitterModel>::empty());
        r
    }

    /// A voice frame from `user_id`: opens a stream for a user not heard
    /// before, and pushes the frame into the user's jitter buffer. Returns
    /// whether a stream was opened (the caller then sets up its decoder).
    pub fn receive(&mut self, user_id: u16, frame: EncodedFrame) -> (r: bool)
        requires
            old(self).wf(),
        ensures
            final(self).wf(),
            r == !old(self).streams().contains_key(user_id),
            final(self).streams() == old(self).streams().insert(
                user_id,
                push_spec(
                    if old(self).streams().contains_key(user_id) {
                        old(self).streams()[user_id]
                    } else {
                        fresh_jitter()
                    },
                    frame@,
                ).0,
            ),
    {
        let ghost before = self.buffers@;
        let opened = !self.buffers.contains_key(&user_id);
        let mut jb = match self.buffers.remove(&user_id) {
            Some(b) => b,
            None => JitterBuffer::new(),
        };
        let _ = jb.push(frame);
        self.buffers.insert(user_id, jb);
        proof {
            assert(self.streams() =~= before.map_values(|b: JitterBuffer| b@).insert(user_id, jb@));
        }
        opened
    }

    /// The playback step for `user_id`'s stream (see `playback_step`), or
    /// `None` for a user without one.
    pub fn step_user(&mut self, user_id: u16) -> (r: Option<PlaybackStep>)
        requires
            old(self).wf(),
        ensures
            final(self).wf(),
            !old(self).streams().contains_key(user_id) ==> r is None && final(self).streams() == old(
                self,
            ).streams(),
            old(self).streams().contains_key(user_id) ==> r is Some && final(self).streams() == old(
                self,
            ).streams().insert(user_id, pop_spec(old(self).streams()[user_id]).0),
    {
        let ghost before = self.buffers@;
        match self.buffers.remove(&user_id) {
            None => {
                assert(self.buffers@ =~= before);
                None
            },
            Some(mut jb) => {
                let step = playback_step(&mut jb);
                self.buffers.insert(user_id, jb);
                proof {
                    assert(self.streams() =~= before.map_values(|b: JitterBuffer| b@).insert(
                        user_id,
                        jb@,
                    ));
                }
                Some(step)
            },
        }
    }

    /// Close a user's stream.
    pub fn remove_user(&mut self, user_id: u16)
        requires
            old(self).wf(),
        ensures
            final(self).wf(),
            final(self).streams() == old(self).streams().remove(user_id),
    {
        let ghost before = self.buffers@;
        let _ = self.buffers.remove(&user_id);
        proof {
            assert(self.streams() =~= before.map_values(|b: JitterBuffer| b@).remove(user_id));
        }
    }

    /// A user's stream statistics: (received, out of order, late drops).
    pub fn user_jitter_stats(&self, user_id: u16) -> (r: Option<(u64, u64, u64)>)
        ensures
            !self.streams().contains_key(user_id) ==> r is None,
            self.streams().contains_key(user_id) ==> r == Some(
                (
                    self.streams()[user_id].packet_count,
                    self.streams()[user_id].out_of_order_count,
                    self.streams()[user_id].late_drop_count,
                ),
            ),
    {
        match self.buffers.get(&user_id) {
            Some(jb) => Some(jb.stats()),
            None => None,
        }
    }

    /// The ids of the users with a stream, each once.
    pub fn stream_ids(&self) -> (r: Vec<u16>)
        ensures
            r@.no_duplicates(),
            forall|k: u16| #[trigger] r@.contains(k) <==> self.streams().contains_key(k),
    {
        let mut out: Vec<u16> = Vec::new();
        let ghost keys = vstd::std_specs::hash::spec_keys_iter(&self.buffers).remaining();
        for k in it: self.buffers.keys()
            invariant
                it.seq() == keys,
                keys.no_duplicates(),
                keys.unref().to_set() == self.buffers@.dom(),
                out@ == keys.subrange(0, it.index() as int).unref(),
        {
            out.push(*k);
            assert(out@ =~= keys.subrange(0, it.index() + 1).unref());
        }
        proof {
            assert(out@ =~= keys.unref());
            assert forall|a: int, b: int| 0 <= a < out@.len() && 0 <= b < out@.len() && a != b implies out@[a]
                != out@[b] by {
                assert(keys[a] != keys[b]);
            }
            assert forall|k: u16| #[trigger] out@.contains(k) <==> self.streams().contains_key(k) by {
                assert(self.buffers@.dom().contains(k) <==> keys.unref().to_set().contains(k));
            }
        }
        out
    }
}

} // verus!
