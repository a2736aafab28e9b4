use yta_rs::worker::{PollDecision, RetryPolicy, SequenceDiscoverer, IDLE_TIMEOUT_MS};

#[test]
fn emits_each_index_exactly_once_in_order() {
    let mut d = SequenceDiscoverer::new(0);
    let mut all: Vec<i64> = Vec::new();
    let mut t: u64 = 0;
    for latest in [2i64, 2, 5, 5, 7] {
        t += 1000;
        all.extend(d.observe_manifest(latest, t));
    }
    assert_eq!(all, vec![0, 1, 2, 3, 4, 5, 6, 7]);
    assert_eq!(d.last_emitted, 7);
}

#[test]
fn stale_manifest_emits_nothing() {
    let mut d = SequenceDiscoverer::new(0);
    let first = d.observe_manifest(1, 100);
    assert_eq!(first, vec![0, 1]);
    let again = d.observe_manifest(1, 200);
    assert!(again.is_empty());
    let shrunk = d.observe_manifest(0, 300);
    assert!(shrunk.is_empty());
    assert_eq!(d.last_emitted, 1);
}

#[test]
fn stalls_after_exactly_the_idle_window() {
    let mut d = SequenceDiscoverer::new(0);
    d.observe_manifest(0, 1_000);
    // One simulated second per poll: still polling right up to the window.
    let mut now: u64 = 1_000;
    for _ in 0..29 {
        now += 1_000;
        assert_eq!(d.next_decision(true, now), PollDecision::KeepPolling);
    }
    assert_eq!(now, 30_000);
    assert_eq!(IDLE_TIMEOUT_MS, 30_000);
    now += 1_000;
    assert_eq!(d.next_decision(true, now), PollDecision::Stalled);
}

#[test]
fn progress_resets_the_idle_window() {
    let mut d = SequenceDiscoverer::new(0);
    d.observe_manifest(0, 0);
    d.observe_manifest(1, 29_000);
    assert_eq!(d.next_decision(true, 58_999), PollDecision::KeepPolling);
    assert_eq!(d.next_decision(true, 59_000), PollDecision::Stalled);
}

#[test]
fn unusable_stream_ends_the_run() {
    let d = SequenceDiscoverer::new(0);
    assert_eq!(d.next_decision(false, 0), PollDecision::StreamEnded);
}

#[test]
fn retry_schedule_grows_from_the_base() {
    let p = RetryPolicy::standard();
    assert_eq!(p.base_ms, 200);
    assert_eq!(p.max_retries, 5);
    assert_eq!(p.delay_ms(0), 200);
    assert_eq!(p.delay_ms(1), 40_000);
    assert_eq!(p.delay_ms(2), 8_000_000);
    assert!(p.should_retry(0));
    assert!(p.should_retry(4));
    assert!(!p.should_retry(5));
}

#[test]
fn jitter_scales_the_delay() {
    assert_eq!(RetryPolicy::apply_jitter(1000, 0), 0);
    assert_eq!(RetryPolicy::apply_jitter(1000, 500_000), 500);
    assert_eq!(RetryPolicy::apply_jitter(1000, 1_000_000), 1000);
    assert_eq!(RetryPolicy::apply_jitter(u64::MAX, 1_000_000), u64::MAX);
}
