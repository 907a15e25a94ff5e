//! Voice activity detection: the hysteresis state machine.
//!
//! The detector compares each frame's RMS energy with two thresholds (an
//! upper one to start speech, a lower one to count quiet frames). The
//! energy and the comparisons are floating point and are computed by the
//! caller; this state machine takes their outcomes. Speech starts on one
//! loud frame and stops only after `silence_holdoff` quiet frames in a row.

use vstd::prelude::*;

use crate::config::VAD_SILENCE_FRAMES;

verus! {

/// The speaking/silent state with its quiet-frame count.
pub struct VadState {
    /// Whether voice is currently detected
    is_speaking: bool,
    /// Number of consecutive quiet frames while speaking
    silent_frames: usize,
    /// Number of quiet frames before switching to silence
    silence_holdoff: usize,
}

/// The abstract state of the detector.
pub ghost struct VadModel {
    pub is_speaking: bool,
    pub silent_frames: usize,
    pub silence_holdoff: usize,
}

/// One frame: `quiet` says the energy is below the lower threshold, `loud`
/// that it is above the upper one.
pub open spec fn vad_step(m: VadModel, quiet: bool, loud: bool) -> VadModel {
    if m.is_speaking {
        if quiet {
            if m.silent_frames + 1 >= m.silence_holdoff {
                VadModel { is_speaking: false, silent_frames: 0, ..m }
            } else {
                VadModel { silent_frames: (m.silent_frames + 1) as usize, ..m }
            }
        } else {
            VadModel { silent_frames: 0, ..m }
        }
    } else if loud {
        VadModel { is_speaking: true, silent_frames: 0, ..m }
    } else {
        m
    }
}

/// The invariant: the quiet count stays below the hold-off.
pub open spec fn vad_wf(m: VadModel) -> bool {
    m.silence_holdoff >= 1 && m.silent_frames < m.silence_holdoff
}

impl View for VadState {
    type V = VadModel;

    closed spec fn view(&self) -> VadModel {
        VadModel {
            is_speaking: self.is_speaking,
            silent_frames: self.silent_frames,
            silence_holdoff: self.silence_holdoff,
        }
    }
}

impl VadState {
    /// Silent, with the default hold-off of 15 frames (300ms)
    pub fn new() -> (r: Self)
        ensures
            vad_wf(r@),
            r@ == (VadModel { is_speaking: false, silent_frames: 0, silence_holdoff: VAD_SILENCE_FRAMES }),
    {
        Self { is_speaking: false, silent_frames: 0, silence_holdoff: VAD_SILENCE_FRAMES }
    }

    /// Process one frame's threshold comparisons and return whether voice is active.
    pub fn step(&mut self, quiet: bool, loud: bool) -> (r: bool)
        requires
            vad_wf(old(self)@),
        ensures
            vad_wf(final(self)@),
            final(self)@ == vad_step(old(self)@, quiet, loud),
            r == final(self)@.is_speaking,
    {
        if self.is_speaking {
            if quiet {
                self.silent_frames = self.silent_frames + 1;
                if self.silent_frames >= self.silence_holdoff {
                    self.is_speaking = false;
                    self.silent_frames = 0;
                }
            } else {
                self.silent_frames = 0;
            }
        } else if loud {
            self.is_speaking = true;
            self.silent_frames = 0;
        }
        self.is_speaking
    }

    /// Whether voice is currently detected
    pub fn is_speaking(&self) -> (r: bool)
        ensures
            r == self@.is_speaking,
    {
        self.is_speaking
    }

    /// Reset to silent
    pub fn reset(&mut self)
        requires
            vad_wf(old(self)@),
        ensures
            vad_wf(final(self)@),
            final(self)@ == (VadModel { is_speaking: false, silent_frames: 0, ..old(self)@ }),
    {
        self.is_speaking = false;
        self.silent_frames = 0;
    }
}

/// `k` quiet frames in a row.
pub open spec fn quiet_run(m: VadModel, k: nat) -> VadModel
    decreases k,
{
    if k == 0 {
        m
    } else {
        vad_step(quiet_run(m, (k - 1) as nat), true, false)
    }
}

/// Hysteresis: once speaking, fewer quiet frames in a row than the hold-off
/// do not end speech, and exactly the hold-off does.
pub proof fn lemma_hysteresis(m: VadModel, k: nat)
    requires
        vad_wf(m),
        m.is_speaking,
        m.silent_frames == 0,
        k <= m.silence_holdoff,
    ensures
        k < m.silence_holdoff ==> quiet_run(m, k).is_speaking && quiet_run(m, k).silent_frames == k,
        k == m.silence_holdoff ==> !quiet_run(m, k).is_speaking,
        quiet_run(m, k).silence_holdoff == m.silence_holdoff,
    decreases k,
{
    if k > 0 {
        lemma_hysteresis(m, (k - 1) as nat);
    }
}

} // verus!
