use forge::analyzer::OutputAnalysis;
use forge::run_loop::{
    apply_iteration, exit_code, finalize_run_status, has_completion_fallback, initial_run_status,
    is_run_complete, rate_gate, ExitReason, LoopDecision, RateGateAction,
};
use forge::types::{CircuitBreakerState, CircuitState, ProgressSnapshot, RunStatus};

fn analysis(
    exit_signal: bool,
    indicators: u32,
    has_error: bool,
    hint: bool,
) -> OutputAnalysis {
    OutputAnalysis {
        exit_signal_true: exit_signal,
        completion_indicators: indicators,
        has_error,
        has_progress_hint: hint,
        session_id: None,
    }
}

#[test]
fn exit_signal_alone_never_completes() {
    let a = analysis(true, 0, false, false);
    assert!(!is_run_complete(&a, false));
}

#[test]
fn indicator_alone_never_completes() {
    let a = analysis(false, 3, false, false);
    assert!(!is_run_complete(&a, true));
}

#[test]
fn both_legs_complete_the_run() {
    let a = analysis(true, 1, false, false);
    assert!(is_run_complete(&a, false));
    let b = analysis(true, 0, false, false);
    assert!(is_run_complete(&b, true));
}

#[test]
fn fallback_marker_is_found_case_insensitively() {
    assert!(has_completion_fallback("all done\nSTATUS: COMPLETE", ""));
    assert!(has_completion_fallback("", "TASK_COMPLETE emitted"));
    assert!(!has_completion_fallback("still working", "nothing here"));
}

#[test]
fn rate_gate_decides_waiting_or_stopping() {
    assert_eq!(rate_gate(true, false), RateGateAction::Proceed);
    assert_eq!(rate_gate(true, true), RateGateAction::Proceed);
    assert_eq!(rate_gate(false, true), RateGateAction::WaitAndRetry);
    assert_eq!(rate_gate(false, false), RateGateAction::Stop);
}

#[test]
fn exit_codes_match_the_cli_contract() {
    assert_eq!(exit_code(ExitReason::Completed), 0);
    assert_eq!(exit_code(ExitReason::CircuitOpened), 2);
    assert_eq!(exit_code(ExitReason::RateLimited), 3);
    assert_eq!(exit_code(ExitReason::MaxLoopsReached), 4);
}

#[test]
fn initial_status_preserves_the_session() {
    let status = initial_run_status("summary", Some("old-session".to_string()), 42);
    assert_eq!(status.state, "running");
    assert_eq!(status.session_id, Some("old-session".to_string()));
    assert_eq!(status.run_started_at_epoch, 42);
    assert_eq!(status.total_loops_executed, 0);
}

#[test]
fn finalize_zeroes_per_loop_fields() {
    let mut status = initial_run_status("summary", None, 42);
    status.current_loop = 7;
    status.last_heartbeat_at_epoch = 99;
    finalize_run_status(&mut status, "rate_limited", 123);
    assert_eq!(status.state, "rate_limited");
    assert_eq!(status.current_loop, 0);
    assert_eq!(status.last_heartbeat_at_epoch, 0);
    assert_eq!(status.updated_at_epoch, 123);
}

fn fresh_state() -> (RunStatus, ProgressSnapshot, CircuitBreakerState) {
    (
        initial_run_status("summary", None, 1),
        ProgressSnapshot::default(),
        CircuitBreakerState::default(),
    )
}

#[test]
fn progress_iteration_feeds_the_breaker_and_counters() {
    let (mut status, mut progress, mut circuit) = fresh_state();
    let a = analysis(false, 0, false, true);

    let d = apply_iteration(
        &mut status,
        &mut progress,
        &mut circuit,
        3,
        &a,
        true,
        false,
        "wrote a file",
        "",
        10,
    );

    assert_eq!(d, LoopDecision::Continue);
    assert_eq!(progress.loops_with_progress, 1);
    assert_eq!(progress.loops_without_progress, 0);
    assert_eq!(progress.last_summary, "wrote a file");
    assert_eq!(circuit.state, CircuitState::Closed);
    assert_eq!(circuit.consecutive_no_progress, 0);
    assert_eq!(status.total_loops_executed, 1);
    assert_eq!(status.circuit_state, CircuitState::Closed);
    assert_eq!(status.last_error, None);
}

#[test]
fn successful_exit_with_output_counts_as_progress() {
    let (mut status, mut progress, mut circuit) = fresh_state();
    let a = analysis(false, 0, false, false);

    apply_iteration(
        &mut status,
        &mut progress,
        &mut circuit,
        3,
        &a,
        true,
        false,
        "plain text output",
        "",
        10,
    );

    assert_eq!(progress.loops_with_progress, 1);
    assert_eq!(circuit.state, CircuitState::Closed);
}

#[test]
fn no_progress_runs_trip_the_breaker() {
    let (mut status, mut progress, mut circuit) = fresh_state();
    let a = analysis(false, 0, false, false);

    let d1 = apply_iteration(
        &mut status, &mut progress, &mut circuit, 2, &a, false, false, "", "", 10,
    );
    assert_eq!(d1, LoopDecision::Continue);
    assert_eq!(circuit.state, CircuitState::HalfOpen);

    let d2 = apply_iteration(
        &mut status, &mut progress, &mut circuit, 2, &a, false, false, "", "", 11,
    );
    assert_eq!(d2, LoopDecision::Finish(ExitReason::CircuitOpened));
    assert_eq!(circuit.state, CircuitState::Open);
    assert_eq!(progress.loops_without_progress, 2);
    assert_eq!(progress.last_summary, "no output");
}

#[test]
fn completion_wins_over_a_simultaneous_circuit_trip() {
    let (mut status, mut progress, mut circuit) = fresh_state();
    // The iteration both completes the dual gate and would trip the breaker:
    // genuine completion must win.
    let a = analysis(true, 1, false, false);

    let d = apply_iteration(
        &mut status, &mut progress, &mut circuit, 1, &a, false, false, "", "", 10,
    );

    assert_eq!(circuit.state, CircuitState::Open);
    assert_eq!(d, LoopDecision::Finish(ExitReason::Completed));
}

#[test]
fn timeout_and_error_markers_set_last_error() {
    let (mut status, mut progress, mut circuit) = fresh_state();
    let a = analysis(false, 0, true, false);

    apply_iteration(
        &mut status, &mut progress, &mut circuit, 5, &a, false, true, "", "", 10,
    );
    assert_eq!(status.last_error, Some("iteration timed out".to_string()));

    apply_iteration(
        &mut status, &mut progress, &mut circuit, 5, &a, false, false, "", "", 11,
    );
    assert_eq!(
        status.last_error,
        Some("error marker found in output".to_string())
    );
}

#[test]
fn fallback_marker_completes_without_indicator_count() {
    let (mut status, mut progress, mut circuit) = fresh_state();
    let a = analysis(true, 0, false, false);

    let d = apply_iteration(
        &mut status,
        &mut progress,
        &mut circuit,
        3,
        &a,
        true,
        false,
        "status: complete",
        "",
        10,
    );
    assert_eq!(d, LoopDecision::Finish(ExitReason::Completed));
}
