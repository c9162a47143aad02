use forge::rate_limiter::{encode_count, encode_reset, RateLimitState, RateLimiter};

fn fresh_state() -> RateLimitState {
    RateLimitState { count: 0, last_reset_epoch: 0 }
}

#[test]
fn allows_first_call() {
    let limiter = RateLimiter::new(100);

    let (result, _) = limiter.check_and_increment(fresh_state(), 1000);

    assert!(result.allowed);
    assert_eq!(result.current_count, 1);
    assert_eq!(result.remaining, 99);
}

#[test]
fn blocks_when_limit_reached() {
    let limiter = RateLimiter::new(3);

    let (_, s1) = limiter.check_and_increment(fresh_state(), 1000);
    let (_, s2) = limiter.check_and_increment(s1, 1001);
    let (_, s3) = limiter.check_and_increment(s2, 1002);
    let (result, _) = limiter.check_and_increment(s3, 1003);

    assert!(!result.allowed);
    assert_eq!(result.current_count, 3);
    assert_eq!(result.remaining, 0);
}

#[test]
fn resets_after_one_hour() {
    let limiter = RateLimiter::new(2);

    let (_, s1) = limiter.check_and_increment(fresh_state(), 1000);
    let (r1, s2) = limiter.check_and_increment(s1, 1001);
    assert!(r1.allowed);
    let (blocked, s3) = limiter.check_and_increment(s2, 1002);
    assert!(!blocked.allowed);

    let (after_reset, _) = limiter.check_and_increment(s3, 5000);

    assert!(after_reset.allowed);
    assert_eq!(after_reset.current_count, 1);
}

#[test]
fn reset_clears_count() {
    let limiter = RateLimiter::new(100);

    let (_, s1) = limiter.check_and_increment(fresh_state(), 1000);
    let (_, _s2) = limiter.check_and_increment(s1, 1001);

    let state = limiter.reset(2000);

    assert_eq!(state.count, 0);
    assert_eq!(state.last_reset_epoch, 2000);
}

#[test]
fn reset_at_exactly_one_hour() {
    let limiter = RateLimiter::new(2);

    // The first call inside a fresh window pins the window start.
    let start = limiter.reset(1000);
    let (_, s1) = limiter.check_and_increment(start, 1000);
    let (_, s2) = limiter.check_and_increment(s1, 1001);

    let (at_one_hour, s3) = limiter.check_and_increment(s2, 4600);
    assert!(at_one_hour.allowed);
    assert_eq!(at_one_hour.current_count, 1);

    let (after_one_hour, s4) = limiter.check_and_increment(s3, 5000);
    assert!(after_one_hour.allowed);
    assert_eq!(after_one_hour.current_count, 2);

    let (over_limit, _) = limiter.check_and_increment(s4, 5001);
    assert!(!over_limit.allowed);
}

#[test]
fn persists_state_between_instances() {
    let limiter1 = RateLimiter::new(5);
    let (_, s1) = limiter1.check_and_increment(fresh_state(), 1000);
    let (_, s2) = limiter1.check_and_increment(s1, 1001);

    // The state travels through the two scalar files as decimal text.
    let count_text = encode_count(s2.count);
    let reset_text = encode_reset(s2.last_reset_epoch);

    let limiter2 = RateLimiter::new(5);
    let state = limiter2.get_state(Some(count_text.as_str()), Some(reset_text.as_str()));

    assert_eq!(state.count, 2);
    assert_eq!(state.last_reset_epoch, s2.last_reset_epoch);
}

#[test]
fn zero_limit_always_blocks() {
    let limiter = RateLimiter::new(0);

    let (result, _) = limiter.check_and_increment(fresh_state(), 1000);

    assert!(!result.allowed);
    assert_eq!(result.current_count, 0);
    assert_eq!(result.remaining, 0);
}

#[test]
fn saturating_sub_prevents_underflow() {
    let limiter = RateLimiter::new(1);

    let (_, s1) = limiter.check_and_increment(fresh_state(), 1000);

    let (result, _) = limiter.check_and_increment(s1, 1001);
    assert_eq!(result.remaining, 0);
}

#[test]
fn get_state_returns_default_for_missing_files() {
    let limiter = RateLimiter::new(100);

    let state = limiter.get_state(None, None);

    assert_eq!(state.count, 0);
    assert_eq!(state.last_reset_epoch, 0);
}

#[test]
fn hourly_budget_scenario() {
    // With a budget of three, the calls at 1000, 1001 and 1002 are admitted
    // with counts one to three; a fourth before 4600 is rejected with zero
    // remaining; a call at 4600 starts a fresh window with count one.
    let limiter = RateLimiter::new(3);
    let start = limiter.reset(1000);
    let (r1, s1) = limiter.check_and_increment(start, 1000);
    assert!(r1.allowed);
    assert_eq!(r1.current_count, 1);
    let (r2, s2) = limiter.check_and_increment(s1, 1001);
    assert!(r2.allowed);
    assert_eq!(r2.current_count, 2);
    let (r3, s3) = limiter.check_and_increment(s2, 1002);
    assert!(r3.allowed);
    assert_eq!(r3.current_count, 3);
    let (r4, s4) = limiter.check_and_increment(s3, 4599);
    assert!(!r4.allowed);
    assert_eq!(r4.remaining, 0);
    let (r5, _) = limiter.check_and_increment(s4, 4600);
    assert!(r5.allowed);
    assert_eq!(r5.current_count, 1);
}

#[test]
fn state_survives_garbled_reads_with_defaults() {
    let limiter = RateLimiter::new(5);
    let state = limiter.get_state(Some("not a number"), Some("  42  "));
    assert_eq!(state.count, 0);
    assert_eq!(state.last_reset_epoch, 42);
}
