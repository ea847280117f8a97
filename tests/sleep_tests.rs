use coop_runtime::runtime::sleep::{now_nanos, Duration, Sleep};
use coop_runtime::runtime::Poll;

fn wait_for(span: Duration) {
    let until = Sleep::new(span);
    while until.poll().is_pending() {}
}

#[test]
fn test_sleep_creation() {
    let _sleep = Sleep::new(Duration::from_millis(100));
}

#[test]
fn test_sleep_immediate_ready() {
    let sleep = Sleep::new(Duration::from_nanos(1)); // Very short duration
    wait_for(Duration::from_millis(1)); // Ensure it's past

    let result = sleep.poll();
    assert!(matches!(result, Poll::Ready(())));
}

#[test]
fn test_sleep_pending() {
    let sleep = Sleep::new(Duration::from_secs(1)); // Long duration

    let result = sleep.poll();
    assert!(matches!(result, Poll::Pending));
}

#[test]
fn test_sleep_becomes_ready() {
    let sleep = Sleep::new(Duration::from_millis(50));

    // Should be pending initially
    let result = sleep.poll();
    assert!(matches!(result, Poll::Pending));

    // Wait for the duration to pass
    wait_for(Duration::from_millis(60));

    // Should be ready now
    let result = sleep.poll();
    assert!(matches!(result, Poll::Ready(())));
}

#[test]
fn test_multiple_sleep_durations() {
    let _short_sleep = Sleep::new(Duration::from_millis(10));
    let _long_sleep = Sleep::new(Duration::from_millis(100));
}

#[test]
fn durations_convert_to_nanoseconds() {
    assert_eq!(Duration::from_nanos(7).as_nanos(), 7);
    assert_eq!(Duration::from_millis(50).as_nanos(), 50_000_000);
    assert_eq!(Duration::from_secs(2).as_nanos(), 2_000_000_000);
    assert_eq!(
        Duration::from_secs(u64::MAX).as_nanos(),
        u64::MAX as u128 * 1_000_000_000
    );
}

#[test]
fn deadline_is_start_plus_span() {
    let sleep = Sleep::starting_at(1_000, Duration::from_nanos(500));
    assert_eq!(sleep.deadline_nanos(), 1_500);
    assert!(sleep.poll_at(1_499).is_pending());
    assert!(sleep.poll_at(1_500).is_ready());
    assert!(sleep.poll_at(9_999).is_ready());
}

#[test]
fn deadline_saturates_at_the_clock_limit() {
    let sleep = Sleep::starting_at(u128::MAX - 3, Duration::from_nanos(10));
    assert_eq!(sleep.deadline_nanos(), u128::MAX);
    assert!(sleep.poll_at(u128::MAX - 1).is_pending());
    assert!(sleep.poll_at(u128::MAX).is_ready());
}

#[test]
fn zero_span_is_ready_at_once() {
    let start = now_nanos();
    let sleep = Sleep::starting_at(start, Duration::from_nanos(0));
    assert!(sleep.poll_at(start).is_ready());
}

#[test]
fn new_timer_lies_after_the_clock_reading() {
    let before = now_nanos();
    let sleep = Sleep::new(Duration::from_secs(1));
    let after = now_nanos();
    assert!(sleep.deadline_nanos() >= before + 1_000_000_000);
    assert!(sleep.deadline_nanos() <= after + 1_000_000_000);
}
