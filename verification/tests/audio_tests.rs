use chatcall::config::{JITTER_BUFFER_INITIAL_DEPTH, JITTER_BUFFER_MAX_DEPTH, VAD_SILENCE_FRAMES};
use chatcall::jitter_buffer::{EncodedFrame, JitterBuffer};
use chatcall::mixer::{AudioMixer, MixPlan};
use chatcall::vad::VadState;

fn make_frame(seq: u32) -> EncodedFrame {
    EncodedFrame {
        data: vec![seq as u8; 10],
        sequence: seq,
        timestamp: seq * 20,
        is_silence: false,
    }
}

#[test]
fn test_in_order_push_pop() {
    let mut jb = JitterBuffer::new();
    // Push enough frames to fill target depth
    for i in 0..5 {
        assert!(jb.push(make_frame(i)));
    }

    // Pop should return in order
    for i in 0..5 {
        let frame = jb.pop().unwrap();
        assert_eq!(frame.sequence, i);
    }
}

#[test]
fn jitter_buffer_test_out_of_order_reordering() {
    let mut jb = JitterBuffer::new();
    // Push out of order: 0, 2, 1, 3
    jb.push(make_frame(0));
    jb.push(make_frame(2));
    jb.push(make_frame(1));
    jb.push(make_frame(3));

    // Pop should still be in order
    assert_eq!(jb.pop().unwrap().sequence, 0);
    assert_eq!(jb.pop().unwrap().sequence, 1);
    assert_eq!(jb.pop().unwrap().sequence, 2);
    assert_eq!(jb.pop().unwrap().sequence, 3);
}

#[test]
fn test_missing_packet_returns_none() {
    let mut jb = JitterBuffer::new();
    jb.push(make_frame(0));
    jb.push(make_frame(1));
    // Skip seq 2
    jb.push(make_frame(3));
    jb.push(make_frame(4));

    assert_eq!(jb.pop().unwrap().sequence, 0);
    assert_eq!(jb.pop().unwrap().sequence, 1);
    assert!(jb.pop().is_none()); // seq 2 missing → concealment
    assert_eq!(jb.pop().unwrap().sequence, 3);
}

#[test]
fn test_late_packet_dropped() {
    let mut jb = JitterBuffer::new();
    for i in 0..5 {
        jb.push(make_frame(i));
    }
    // Pop first 3
    jb.pop();
    jb.pop();
    jb.pop();

    // Try to push seq 0 (already played) — should be dropped
    assert!(!jb.push(make_frame(0)));
}

// ── Further jitter buffer cases ──────────────────────────────

#[test]
fn jitter_pop_before_any_frame_is_none() {
    let mut jb = JitterBuffer::new();
    assert!(jb.pop().is_none());
    assert_eq!(jb.depth(), 0);
    assert_eq!(jb.target_depth(), JITTER_BUFFER_INITIAL_DEPTH);
}

#[test]
fn jitter_waits_while_filling() {
    let mut jb = JitterBuffer::new();
    jb.push(make_frame(10));
    jb.push(make_frame(11));
    // fewer frames than the target depth, and few packets so far: wait
    assert!(jb.pop().is_none());
    assert_eq!(jb.depth(), 2);
    jb.push(make_frame(12));
    assert_eq!(jb.pop().unwrap().sequence, 10);
}

#[test]
fn jitter_overflow_drops_oldest() {
    let mut jb = JitterBuffer::new();
    for i in 0..(JITTER_BUFFER_MAX_DEPTH as u32 + 2) {
        assert!(jb.push(make_frame(i)));
    }
    assert_eq!(jb.depth(), JITTER_BUFFER_MAX_DEPTH);
    // frames 0 and 1 were dropped, playback moved past them
    assert_eq!(jb.pop().unwrap().sequence, 2);
}

#[test]
fn jitter_duplicate_replaces_and_stats_count() {
    let mut jb = JitterBuffer::new();
    jb.push(make_frame(0));
    jb.push(make_frame(2)); // out of order (expected 1)
    jb.push(make_frame(2)); // duplicate, stored once
    assert_eq!(jb.depth(), 2);
    let (received, out_of_order, late) = jb.stats();
    assert_eq!(received, 3);
    assert_eq!(out_of_order, 2);
    assert_eq!(late, 0);
}

#[test]
fn jitter_adjust_depth_is_clamped() {
    let mut jb = JitterBuffer::new();
    jb.adjust_depth_to(0);
    assert_eq!(jb.target_depth(), 2);
    jb.adjust_depth_to(5);
    assert_eq!(jb.target_depth(), 5);
    jb.adjust_depth_to(100);
    assert_eq!(jb.target_depth(), JITTER_BUFFER_MAX_DEPTH);
}

#[test]
fn jitter_reset_clears() {
    let mut jb = JitterBuffer::new();
    for i in 0..4 {
        jb.push(make_frame(i));
    }
    jb.adjust_depth_to(6);
    jb.reset();
    assert_eq!(jb.depth(), 0);
    assert_eq!(jb.stats(), (0, 0, 0));
    assert_eq!(jb.target_depth(), JITTER_BUFFER_INITIAL_DEPTH);
    assert!(jb.pop().is_none());
    // the next frame starts playback afresh, even an "older" one
    assert!(jb.push(make_frame(1)));
}

#[test]
fn jitter_late_drop_counted() {
    let mut jb = JitterBuffer::new();
    for i in 5..10 {
        jb.push(make_frame(i));
    }
    jb.pop();
    assert!(!jb.push(make_frame(3)));
    assert_eq!(jb.stats().2, 1);
}

// ── Voice activity ───────────────────────────────────────────

#[test]
fn vad_starts_silent_and_detects_speech() {
    let mut vad = VadState::new();
    assert!(!vad.is_speaking());
    assert!(!vad.step(true, false)); // quiet frame while silent
    assert!(vad.step(false, true)); // loud frame starts speech
}

#[test]
fn vad_hysteresis_holds_speech() {
    let mut vad = VadState::new();
    vad.step(false, true);
    assert!(vad.is_speaking());
    // one quiet frame does not end speech
    vad.step(true, false);
    assert!(vad.is_speaking());
    // a non-quiet frame resets the quiet run
    vad.step(false, false);
    for _ in 0..(VAD_SILENCE_FRAMES - 1) {
        assert!(vad.step(true, false));
    }
    // the hold-off-th quiet frame in a row ends speech
    assert!(!vad.step(true, false));
}

#[test]
fn vad_reset_is_silent() {
    let mut vad = VadState::new();
    vad.step(false, true);
    vad.reset();
    assert!(!vad.is_speaking());
}

// ── Mixer plan ───────────────────────────────────────────────

#[test]
fn mixer_plans() {
    let mut mixer = AudioMixer::new();
    assert_eq!(mixer.active_sources(), 0);
    assert_eq!(mixer.plan_mix(0), MixPlan::Silence);
    assert_eq!(mixer.active_sources(), 0);
    assert_eq!(mixer.plan_mix(1), MixPlan::Passthrough);
    assert_eq!(mixer.active_sources(), 1);
    assert_eq!(mixer.plan_mix(3), MixPlan::Blend);
    assert_eq!(mixer.active_sources(), 3);
    // an empty mix has no sources
    assert_eq!(mixer.plan_mix(0), MixPlan::Silence);
    assert_eq!(mixer.active_sources(), 0);
}
