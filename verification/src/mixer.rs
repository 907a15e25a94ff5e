//! Multi-user audio mixing: the decisions the mixer makes before any sample
//! arithmetic.
//!
//! Mixing sums the sources sample by sample, scales by one over the square
//! root of the number of sources and soft-clips with `tanh`; that
//! floating-point part runs outside this library and follows the plan
//! chosen here.

use vstd::prelude::*;

verus! {

/// How a set of source frames is turned into one output frame
#[derive(Debug, Clone, Copy, PartialEq, Eq, Structural)]
pub enum MixPlan {
    /// No sources: output one frame of silence
    Silence,
    /// One source: output it unchanged
    Passthrough,
    /// Several sources: sum, scale and soft-clip
    Blend,
}

/// Multi-user audio mixer.
pub struct AudioMixer {
    /// Number of active sources in the last mix
    active_sources: usize,
}

impl AudioMixer {
    pub fn new() -> (r: Self)
        ensures
            r.active_sources_spec() == 0,
    {
        Self { active_sources: 0 }
    }

    /// The number of sources in the last mix.
    pub closed spec fn active_sources_spec(&self) -> usize {
        self.active_sources
    }

    /// Choose how to mix `source_count` frames and record it as the number
    /// of sources in the last mix.
    pub fn plan_mix(&mut self, source_count: usize) -> (r: MixPlan)
        ensures
            final(self).active_sources_spec() == source_count,
            source_count == 0 ==> r == MixPlan::Silence,
            source_count == 1 ==> r == MixPlan::Passthrough,
            source_count > 1 ==> r == MixPlan::Blend,
    {
        self.active_sources = source_count;
        if source_count == 0 {
            MixPlan::Silence
        } else if source_count == 1 {
            MixPlan::Passthrough
        } else {
            MixPlan::Blend
        }
    }

    /// Get the number of active sources in the last mix
    pub fn active_sources(&self) -> (r: usize)
        ensures
            r == self.active_sources_spec(),
    {
        self.active_sources
    }
}

impl Default for AudioMixer {
    fn default() -> (r: Self)
        ensures
            r.active_sources_spec() == 0,
    {
        Self::new()
    }
}

} // verus!
