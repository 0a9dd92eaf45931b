use ipc::Backoff;
use std::time::{Duration, Instant};

/// Lets `span` of time pass.
fn run_for(span: Duration) {
    let start = Instant::now();
    while start.elapsed() < span {
        std::hint::spin_loop();
    }
}

#[test]
fn test_backoff_immediate_if_failed_after_threshold() {
    let mut backoff = Backoff::from_secs(2);
    assert_eq!(backoff.next_backoff().as_secs(), 0);

    // Simulate process running
    run_for(Duration::new(4, 0));

    assert_eq!(backoff.next_backoff().as_secs(), 0);
}

#[test]
fn test_backoff_wait_if_failed_before_threshold() {
    let mut backoff = Backoff::from_secs(1);
    assert_eq!(backoff.next_backoff().as_secs(), 0);

    assert_eq!(backoff.next_backoff().as_secs(), 2);
    assert_eq!(backoff.next_backoff().as_secs(), 4);
    assert_eq!(backoff.next_backoff().as_secs(), 8);
    assert_eq!(backoff.next_backoff().as_secs(), 12);
    assert_eq!(backoff.next_backoff().as_secs(), 18);
    assert_eq!(backoff.next_backoff().as_secs(), 24);
}

#[test]
fn test_backoff_reset_if_running_for_more_than_threshold() {
    let mut backoff = Backoff::from_secs(1);
    assert_eq!(backoff.next_backoff().as_secs(), 0);
    assert_eq!(backoff.next_backoff().as_secs(), 2);
    assert_eq!(backoff.next_backoff().as_secs(), 4);
    assert_eq!(backoff.next_backoff().as_secs(), 8);

    // Simulate process running
    run_for(Duration::new(3, 0));

    assert_eq!(backoff.next_backoff().as_secs(), 0);
}

#[test]
fn fresh_backoff_restarts_at_once_and_counts() {
    let mut backoff = Backoff::new(Duration::from_secs(10));
    assert_eq!(backoff.get_restart_count(), 0);
    assert!(backoff.can_record_restart());
    assert_eq!(backoff.next_backoff(), Duration::from_secs(0));
    assert_eq!(backoff.get_restart_count(), 1);
    assert_eq!(backoff.next_backoff(), Duration::from_secs(2));
    assert_eq!(backoff.get_restart_count(), 2);
}

#[test]
fn quick_failures_follow_the_quadratic_schedule() {
    let mut backoff = Backoff::from_secs(1);
    let now = Instant::now();
    // The first restart waits nothing, whatever the flag says.
    assert_eq!(backoff.record_restart(true, now), 0);
    let expected = [2u64, 4, 8, 12, 18, 24, 32, 40, 50];
    for e in expected.iter() {
        assert_eq!(backoff.record_restart(true, now), *e);
    }
    assert_eq!(backoff.get_restart_count(), 10);
}

#[test]
fn long_run_resets_the_schedule() {
    let mut backoff = Backoff::from_secs(1);
    let now = Instant::now();
    assert_eq!(backoff.record_restart(false, now), 0);
    assert_eq!(backoff.record_restart(true, now), 2);
    assert_eq!(backoff.record_restart(true, now), 4);
    assert_eq!(backoff.record_restart(false, now), 0);
    assert_eq!(backoff.record_restart(true, now), 2);
    assert_eq!(backoff.get_restart_count(), 5);
}

#[test]
fn zero_threshold_never_counts_as_quick() {
    let mut backoff = Backoff::from_secs(0);
    assert_eq!(backoff.next_backoff().as_secs(), 0);
    assert_eq!(backoff.next_backoff().as_secs(), 0);
    assert_eq!(backoff.next_backoff().as_secs(), 0);
    assert_eq!(backoff.get_restart_count(), 3);
}

#[test]
fn sub_second_threshold_is_kept() {
    let mut backoff = Backoff::new(Duration::from_millis(1500));
    assert_eq!(backoff.next_backoff().as_secs(), 0);
    assert_eq!(backoff.next_backoff().as_secs(), 2);
}

#[test]
fn is_quick_follows_the_threshold() {
    let mut backoff = Backoff::from_secs(3600);
    let now = Instant::now();
    assert!(!backoff.is_quick(now));
    backoff.record_restart(false, now);
    assert!(backoff.is_quick(now));
    assert!(backoff.is_quick(now + Duration::from_secs(3599)));
    assert!(!backoff.is_quick(now + Duration::from_secs(3600)));
}
