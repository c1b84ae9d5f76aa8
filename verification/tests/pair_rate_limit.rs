use phonemic::net::{IpAddr, Ipv4Addr};
use phonemic::pair_rate_limit::{
    FailureWindow, PairRateLimiter, FAILURE_THRESHOLD, FAILURE_WINDOW_NANOS, FAILURE_WINDOW_SECS,
    MAX_FAILURES_PER_WINDOW, WINDOW_DURATION_NANOS,
};

const SEC: u64 = 1_000_000_000;
const T0: u64 = 7_000 * SEC;

fn ip(a: u8, b: u8, c: u8, d: u8) -> IpAddr {
    IpAddr::V4(Ipv4Addr::new(a, b, c, d))
}

#[test]
fn first_four_failures_do_not_rate_limit_fifth_does() {
    let mut limiter = PairRateLimiter::new();
    let client = ip(192, 168, 1, 10);
    for i in 1..FAILURE_THRESHOLD {
        limiter.record_failure(client, T0);
        assert_eq!(limiter.window_for(client).unwrap().count, i);
        assert!(!limiter.is_rate_limited(client, T0));
    }
    limiter.record_failure(client, T0);
    assert_eq!(limiter.window_for(client).unwrap().count, FAILURE_THRESHOLD);
    assert!(limiter.is_rate_limited(client, T0));
}

#[test]
fn rate_limit_active_until_window_elapses() {
    let mut limiter = PairRateLimiter::new();
    let client = ip(10, 0, 0, 1);
    for _ in 0..FAILURE_THRESHOLD {
        limiter.record_failure(client, T0);
    }
    assert!(limiter.is_rate_limited(client, T0));
    let almost = T0 + (4 * 60 + 59) * SEC;
    assert!(limiter.is_rate_limited(client, almost));
    let at_boundary = T0 + FAILURE_WINDOW_NANOS;
    assert!(!limiter.is_rate_limited(client, at_boundary));
    let later = T0 + FAILURE_WINDOW_NANOS + SEC;
    assert!(!limiter.is_rate_limited(client, later));
}

#[test]
fn record_failure_after_window_expiry_starts_new_window() {
    let mut limiter = PairRateLimiter::new();
    let client = ip(172, 16, 0, 5);
    for _ in 0..FAILURE_THRESHOLD {
        limiter.record_failure(client, T0);
    }
    assert!(limiter.is_rate_limited(client, T0));
    let after_window = T0 + FAILURE_WINDOW_NANOS + SEC;
    limiter.record_failure(client, after_window);
    let w = limiter.window_for(client).expect("a new window");
    assert_eq!(w.count, 1);
    assert_eq!(w.window_start, after_window);
    assert!(!limiter.is_rate_limited(client, after_window));
}

#[test]
fn reset_after_window_drops_only_expired_entries() {
    let mut limiter = PairRateLimiter::new();
    let stale = ip(192, 168, 1, 100);
    let fresh = ip(192, 168, 1, 101);
    limiter.record_failure(stale, T0);
    let later = T0 + FAILURE_WINDOW_NANOS + 10 * SEC;
    limiter.record_failure(fresh, later);
    assert_eq!(limiter.tracked_ip_count(), 2);
    limiter.reset_after_window(later);
    assert!(limiter.window_for(stale).is_none());
    assert!(limiter.window_for(fresh).is_some());
    assert_eq!(limiter.tracked_ip_count(), 1);
}

#[test]
fn each_ip_is_tracked_independently() {
    let mut limiter = PairRateLimiter::new();
    let alice = ip(192, 168, 1, 2);
    let bob = ip(192, 168, 1, 3);
    for _ in 0..FAILURE_THRESHOLD {
        limiter.record_failure(alice, T0);
    }
    assert!(limiter.is_rate_limited(alice, T0));
    assert!(!limiter.is_rate_limited(bob, T0));
    limiter.record_failure(bob, T0);
    assert_eq!(limiter.window_for(bob).unwrap().count, 1);
    assert_eq!(limiter.window_for(alice).unwrap().count, FAILURE_THRESHOLD);
}

#[test]
fn additional_failures_during_block_clamp_at_threshold() {
    let mut limiter = PairRateLimiter::new();
    let client = ip(192, 168, 1, 7);
    for _ in 0..(FAILURE_THRESHOLD + 3) {
        limiter.record_failure(client, T0);
    }
    assert_eq!(limiter.window_for(client).unwrap().count, FAILURE_THRESHOLD);
    assert!(limiter.is_rate_limited(client, T0));
}

#[test]
fn clear_removes_only_target_ip() {
    let mut limiter = PairRateLimiter::new();
    let alice = ip(192, 168, 1, 1);
    let bob = ip(192, 168, 1, 2);
    for _ in 0..FAILURE_THRESHOLD {
        limiter.record_failure(alice, T0);
    }
    limiter.record_failure(bob, T0);
    assert_eq!(limiter.tracked_ip_count(), 2);
    limiter.clear(alice);
    assert!(limiter.window_for(alice).is_none());
    assert!(!limiter.is_rate_limited(alice, T0));
    assert!(limiter.window_for(bob).is_some());
    limiter.clear(ip(10, 10, 10, 10));
    assert_eq!(limiter.tracked_ip_count(), 1);
}

#[test]
fn record_success_clears_failure_window() {
    let mut limiter = PairRateLimiter::new();
    let client = ip(192, 168, 1, 50);
    for _ in 0..FAILURE_THRESHOLD {
        limiter.record_failure(client, T0);
    }
    assert!(limiter.is_rate_limited(client, T0));
    limiter.record_success(client);
    assert!(limiter.window_for(client).is_none());
    assert!(!limiter.is_rate_limited(client, T0));
}

#[test]
fn pair_rate_limit_default_matches_new() {
    let a = PairRateLimiter::default();
    let b = PairRateLimiter::new();
    assert_eq!(a.tracked_ip_count(), b.tracked_ip_count());
}

#[test]
fn failure_window_is_expired_uses_inclusive_boundary() {
    let w = FailureWindow::started_now(T0);
    assert!(!w.is_expired(T0));
    assert!(!w.is_expired(T0 + FAILURE_WINDOW_NANOS - 1));
    assert!(w.is_expired(T0 + FAILURE_WINDOW_NANOS));
    assert!(w.is_expired(T0 + FAILURE_WINDOW_NANOS + SEC));
}

#[test]
fn aliases_match_canonical_constants() {
    assert_eq!(MAX_FAILURES_PER_WINDOW, FAILURE_THRESHOLD);
    assert_eq!(WINDOW_DURATION_NANOS, FAILURE_WINDOW_NANOS);
    assert_eq!(FAILURE_WINDOW_SECS * SEC, FAILURE_WINDOW_NANOS);
}

#[test]
fn five_failures_block_for_the_whole_window_then_reset() {
    let mut limiter = PairRateLimiter::new();
    let client = ip(10, 0, 0, 7);
    for _ in 0..FAILURE_THRESHOLD {
        limiter.record_failure(client, T0);
    }
    for secs in [1u64, 100, 294, 299] {
        assert!(limiter.is_rate_limited(client, T0 + secs * SEC));
    }
    let after = T0 + FAILURE_WINDOW_NANOS + SEC;
    assert!(!limiter.is_rate_limited(client, after));
    limiter.record_failure(client, after);
    assert_eq!(limiter.window_for(client).unwrap().count, 1);
    assert!(!limiter.is_rate_limited(client, after));
}

#[test]
fn clock_reading_before_window_start_counts_as_no_time() {
    let w = FailureWindow::started_now(T0);
    assert!(!w.is_expired(T0 - SEC));
}
