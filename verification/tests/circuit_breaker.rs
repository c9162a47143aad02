use forge::circuit_breaker::{CircuitBreaker, CircuitBreakerAction};
use forge::types::{CircuitBreakerState, CircuitState};

#[test]
fn starts_closed() {
    let cb = CircuitBreaker::new(3);
    assert!(cb.is_closed());
    assert!(!cb.is_open());
    assert!(!cb.is_half_open());
}

#[test]
fn record_progress_keeps_closed() {
    let mut cb = CircuitBreaker::new(3);

    let action = cb.record_progress();

    assert_eq!(action, CircuitBreakerAction::Continue);
    assert!(cb.is_closed());
    assert_eq!(cb.consecutive_no_progress(), 0);
}

#[test]
fn first_no_progress_moves_to_half_open() {
    let mut cb = CircuitBreaker::new(3);

    let action = cb.record_no_progress();

    assert_eq!(action, CircuitBreakerAction::Continue);
    assert!(cb.is_half_open());
    assert_eq!(cb.consecutive_no_progress(), 1);
}

#[test]
fn opens_after_limit_reached() {
    let mut cb = CircuitBreaker::new(3);

    cb.record_no_progress();
    cb.record_no_progress();
    let action = cb.record_no_progress();

    assert_eq!(action, CircuitBreakerAction::OpenCircuit);
    assert!(cb.is_open());
    assert_eq!(cb.consecutive_no_progress(), 3);
}

#[test]
fn progress_resets_counter_and_closes() {
    let mut cb = CircuitBreaker::new(3);

    cb.record_no_progress();
    cb.record_no_progress();

    cb.record_progress();

    assert!(cb.is_closed());
    assert_eq!(cb.consecutive_no_progress(), 0);
}

#[test]
fn reset_clears_all_state() {
    let mut cb = CircuitBreaker::new(3);

    cb.record_no_progress();
    cb.record_no_progress();
    cb.record_no_progress();

    cb.reset();

    assert!(cb.is_closed());
    assert_eq!(cb.consecutive_no_progress(), 0);
}

#[test]
fn from_state_restores_previous_state() {
    let state = CircuitBreakerState {
        state: CircuitState::HalfOpen,
        consecutive_no_progress: 2,
    };

    let cb = CircuitBreaker::from_state(state, 5);

    assert!(cb.is_half_open());
    assert_eq!(cb.consecutive_no_progress(), 2);
    assert_eq!(cb.no_progress_limit, 5);
}

#[test]
fn limit_one_opens_immediately() {
    let mut cb = CircuitBreaker::new(1);

    let action = cb.record_no_progress();

    assert_eq!(action, CircuitBreakerAction::OpenCircuit);
    assert!(cb.is_open());
}

#[test]
fn alternating_progress_resets_counter() {
    let mut cb = CircuitBreaker::new(2);

    cb.record_no_progress();
    cb.record_progress();
    cb.record_no_progress();

    assert!(cb.is_half_open());
    assert_eq!(cb.consecutive_no_progress(), 1);
}

#[test]
fn exactly_the_limit_of_no_progress_runs_opens() {
    let mut cb = CircuitBreaker::new(4);
    for step in 1..=4u32 {
        let action = cb.record_no_progress();
        assert_eq!(cb.consecutive_no_progress(), step);
        if step < 4 {
            assert_eq!(action, CircuitBreakerAction::Continue);
            assert!(!cb.is_open());
        } else {
            assert_eq!(action, CircuitBreakerAction::OpenCircuit);
            assert!(cb.is_open());
        }
    }
}
