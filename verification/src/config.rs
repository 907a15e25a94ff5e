//! Audio configuration constants.

use vstd::prelude::*;

verus! {

/// Sample rate in Hz (Opus native rate)
pub const SAMPLE_RATE: u32 = 48_000;
/// Number of audio channels (mono for voice)
pub const CHANNELS: u16 = 1;
/// Frame duration in milliseconds
pub const FRAME_DURATION_MS: u32 = 20;
/// Number of samples per frame (48000 * 0.020)
pub const SAMPLES_PER_FRAME: usize = 960;
/// Opus bitrate for voice in bits/second
pub const OPUS_BITRATE: i32 = 32_000;
/// Maximum encoded frame size in bytes
pub const MAX_ENCODED_SIZE: usize = 256;
/// Jitter buffer initial depth in frames
pub const JITTER_BUFFER_INITIAL_DEPTH: usize = 3;
/// Jitter buffer maximum depth in frames
pub const JITTER_BUFFER_MAX_DEPTH: usize = 8;
/// VAD silence duration before triggering (in frames)
pub const VAD_SILENCE_FRAMES: usize = 15;

} // verus!
