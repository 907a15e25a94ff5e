use chatcall::ack_tracker::{AckStatus, AckTracker};
use chatcall::clock::TimeSpan;
use chatcall::ordering::MessageOrderer;
use std::time::{Duration, Instant};

/// Let at least `d` pass.
fn wait(d: Duration) {
    let start = Instant::now();
    while start.elapsed() < d {
        std::hint::spin_loop();
    }
}

#[test]
fn test_register_and_acknowledge() {
    let mut tracker = AckTracker::new();
    let msg_id = [0xAA; 16];
    tracker.register(msg_id, vec![1, 2, 3]);
    assert_eq!(tracker.pending_count(), 1);
    assert!(tracker.is_pending(&msg_id));

    assert!(tracker.acknowledge(&msg_id));
    assert_eq!(tracker.pending_count(), 0);
    assert!(!tracker.is_pending(&msg_id));
}

#[test]
fn test_acknowledge_unknown_returns_false() {
    let mut tracker = AckTracker::new();
    assert!(!tracker.acknowledge(&[0xFF; 16]));
}

#[test]
fn test_timeout_triggers_retransmit() {
    let mut tracker = AckTracker::with_config(TimeSpan::from_millis(50), 3);
    let msg_id = [0xBB; 16];
    tracker.register(msg_id, vec![4, 5, 6]);

    // Before timeout — no retransmits
    let results = tracker.check_timeouts();
    assert!(results.is_empty());

    // Wait past timeout
    wait(Duration::from_millis(60));

    let results = tracker.check_timeouts();
    assert_eq!(results.len(), 1);
    assert!(matches!(&results[0], AckStatus::NeedsRetransmit(data) if data == &[4, 5, 6]));
}

#[test]
fn test_max_retries_triggers_failure() {
    let mut tracker = AckTracker::with_config(TimeSpan::from_millis(10), 2);
    let msg_id = [0xCC; 16];
    tracker.register(msg_id, vec![7, 8, 9]);

    for _ in 0..2 {
        wait(Duration::from_millis(15));
        tracker.check_timeouts();
    }

    wait(Duration::from_millis(15));
    let results = tracker.check_timeouts();
    assert!(results.iter().any(|r| matches!(r, AckStatus::Failed { .. })));
    assert_eq!(tracker.pending_count(), 0);
}

#[test]
fn time_spans_in_nanoseconds() {
    assert_eq!(TimeSpan::from_millis(50).nanos, 50_000_000);
    assert_eq!(TimeSpan::from_secs(2).nanos, 2_000_000_000);
    assert_eq!(TimeSpan::from_nanos(7).nanos, 7);
}

#[test]
fn retries_then_failure_on_explicit_clock() {
    let mut tracker = AckTracker::with_config(TimeSpan::from_nanos(100), 2);
    let id = [1; 16];
    tracker.register_at(id, vec![9], 0);
    assert!(tracker.check_timeouts_at(99).is_empty());
    let r1 = tracker.check_timeouts_at(100);
    assert!(matches!(&r1[..], [AckStatus::NeedsRetransmit(d)] if d == &[9]));
    // resent at 100: not due again before 200
    assert!(tracker.check_timeouts_at(150).is_empty());
    let r2 = tracker.check_timeouts_at(200);
    assert!(matches!(&r2[..], [AckStatus::NeedsRetransmit(_)]));
    let r3 = tracker.check_timeouts_at(300);
    assert!(matches!(&r3[..], [AckStatus::Failed { message_id }] if *message_id == id));
    assert_eq!(tracker.pending_count(), 0);
}

#[test]
fn register_same_id_replaces() {
    let mut tracker = AckTracker::with_config(TimeSpan::from_nanos(10), 0);
    tracker.register_at([2; 16], vec![1], 0);
    tracker.register_at([3; 16], vec![2], 0);
    tracker.register_at([2; 16], vec![3], 5);
    assert_eq!(tracker.pending_count(), 2);
    // with no retries allowed, the first timeout fails the message
    let r = tracker.check_timeouts_at(12);
    assert_eq!(r.len(), 1);
    assert!(matches!(&r[0], AckStatus::Failed { message_id } if *message_id == [3; 16]));
    let r = tracker.check_timeouts_at(15);
    assert!(matches!(&r[..], [AckStatus::Failed { message_id }] if *message_id == [2; 16]));
    tracker.register_at([4; 16], vec![], 0);
    tracker.clear();
    assert_eq!(tracker.pending_count(), 0);
}

fn make_id(val: u8) -> [u8; 16] {
    [val; 16]
}

#[test]
fn test_duplicate_detection() {
    let mut orderer = MessageOrderer::new();
    let id = make_id(1);
    assert!(orderer.check_and_record(&id));
    assert!(!orderer.check_and_record(&id)); // duplicate
}

#[test]
fn test_in_order_delivery() {
    let mut orderer = MessageOrderer::new();
    let r0 = orderer.submit_ordered(0, make_id(0), vec![0]);
    assert_eq!(r0.len(), 1);
    let r1 = orderer.submit_ordered(1, make_id(1), vec![1]);
    assert_eq!(r1.len(), 1);
    let r2 = orderer.submit_ordered(2, make_id(2), vec![2]);
    assert_eq!(r2.len(), 1);
}

#[test]
fn ordering_test_out_of_order_reordering() {
    let mut orderer = MessageOrderer::new();

    let r2 = orderer.submit_ordered(2, make_id(2), vec![2]);
    assert!(r2.is_empty());

    let r0 = orderer.submit_ordered(0, make_id(0), vec![0]);
    assert_eq!(r0.len(), 1);

    let r1 = orderer.submit_ordered(1, make_id(1), vec![1]);
    assert_eq!(r1.len(), 2);
    assert_eq!(r1[0].0, 1);
    assert_eq!(r1[1].0, 2);
}

#[test]
fn test_duplicate_ordered_message() {
    let mut orderer = MessageOrderer::new();
    let r0 = orderer.submit_ordered(0, make_id(0), vec![0]);
    assert_eq!(r0.len(), 1);

    let r0_dup = orderer.submit_ordered(0, make_id(0), vec![0]);
    assert!(r0_dup.is_empty());
}

#[test]
fn stale_sequence_is_dropped_and_buffer_counts() {
    let mut orderer = MessageOrderer::default();
    assert_eq!(orderer.submit_ordered(0, make_id(10), vec![]).len(), 1);
    assert_eq!(orderer.next_expected_sequence(), 1);
    assert!(orderer.submit_ordered(0, make_id(11), vec![]).is_empty());
    assert!(orderer.submit_ordered(5, make_id(12), vec![5]).is_empty());
    assert!(orderer.submit_ordered(3, make_id(13), vec![3]).is_empty());
    assert_eq!(orderer.buffered_count(), 2);
    let out = orderer.submit_ordered(1, make_id(14), vec![1]);
    assert_eq!(out.len(), 1);
    let out = orderer.submit_ordered(2, make_id(15), vec![2]);
    let seqs: Vec<u64> = out.iter().map(|e| e.0).collect();
    assert_eq!(seqs, vec![2, 3]);
    assert_eq!(orderer.next_expected_sequence(), 4);
    assert_eq!(orderer.buffered_count(), 1);
    assert_eq!(orderer.submit_ordered(4, make_id(16), vec![4]).len(), 2);
    assert_eq!(orderer.buffered_count(), 0);
}
