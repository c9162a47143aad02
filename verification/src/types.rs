//! Shared data model: circuit state, run status and progress snapshots.

use vstd::prelude::*;

verus! {

/// Three-state guard of the no-progress circuit breaker.
#[derive(Clone, Copy, Debug, PartialEq, Eq, Structural)]
pub enum CircuitState {
    Closed,
    HalfOpen,
    Open,
}

/// Persisted circuit-breaker snapshot: the guard state and the count of
/// consecutive iterations without progress.
#[derive(Clone, Debug, PartialEq, Eq, Structural)]
pub struct CircuitBreakerState {
    pub state: CircuitState,
    pub consecutive_no_progress: u32,
}

impl Default for CircuitBreakerState {
    /// A fresh breaker state: closed, with a zero counter.
    fn default() -> (r: Self)
        ensures
            r.state == CircuitState::Closed,
            r.consecutive_no_progress == 0,
    {
        CircuitBreakerState { state: CircuitState::Closed, consecutive_no_progress: 0 }
    }
}

/// Persisted run status, written after every mutation so an external monitor
/// can observe the run.
#[derive(Clone, Debug)]
pub struct RunStatus {
    pub state: String,
    pub thinking_mode: String,
    pub run_started_at_epoch: u64,
    pub current_loop: u64,
    pub total_loops_executed: u64,
    pub last_error: Option<String>,
    pub completion_indicators: u32,
    pub exit_signal_seen: bool,
    pub session_id: Option<String>,
    pub circuit_state: CircuitState,
    pub current_loop_started_at_epoch: u64,
    pub last_heartbeat_at_epoch: u64,
    pub updated_at_epoch: u64,
}

impl Default for RunStatus {
    /// An idle status with every counter at zero and no session.
    fn default() -> (r: Self)
        ensures
            r.state@ == "idle"@,
            r.thinking_mode@ == "summary"@,
            r.run_started_at_epoch == 0,
            r.current_loop == 0,
            r.total_loops_executed == 0,
            r.last_error is None,
            r.completion_indicators == 0,
            !r.exit_signal_seen,
            r.session_id is None,
            r.circuit_state == CircuitState::Closed,
            r.current_loop_started_at_epoch == 0,
            r.last_heartbeat_at_epoch == 0,
            r.updated_at_epoch == 0,
    {
        RunStatus {
            state: String::from_str("idle"),
            thinking_mode: String::from_str("summary"),
            run_started_at_epoch: 0,
            current_loop: 0,
            total_loops_executed: 0,
            last_error: None,
            completion_indicators: 0,
            exit_signal_seen: false,
            session_id: None,
            circuit_state: CircuitState::Closed,
            current_loop_started_at_epoch: 0,
            last_heartbeat_at_epoch: 0,
            updated_at_epoch: 0,
        }
    }
}

/// Persisted per-iteration progress counters with the last output summary.
#[derive(Clone, Debug)]
pub struct ProgressSnapshot {
    pub loops_with_progress: u64,
    pub loops_without_progress: u64,
    pub last_summary: String,
    pub updated_at_epoch: u64,
}

impl Default for ProgressSnapshot {
    /// A fresh snapshot: both counters zero, empty summary.
    fn default() -> (r: Self)
        ensures
            r.loops_with_progress == 0,
            r.loops_without_progress == 0,
            r.last_summary@ == Seq::<char>::empty(),
            r.updated_at_epoch == 0,
    {
        ProgressSnapshot {
            loops_with_progress: 0,
            loops_without_progress: 0,
            last_summary: String::new(),
            updated_at_epoch: 0,
        }
    }
}

} // verus!
