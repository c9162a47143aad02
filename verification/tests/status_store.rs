use forge::status::{
    circuit_label, circuit_to_json, history_line, is_stale_running_status, mark_stale,
    progress_from_json_text, progress_to_json, read_progress, read_status, runner_pid_of,
    status_from_json, status_to_json,
};
use forge::types::{CircuitBreakerState, CircuitState, ProgressSnapshot, RunStatus};

fn sample_status() -> RunStatus {
    RunStatus {
        state: "running".to_string(),
        thinking_mode: "summary".to_string(),
        run_started_at_epoch: 1000,
        current_loop: 1,
        total_loops_executed: 5,
        last_error: None,
        completion_indicators: 0,
        exit_signal_seen: false,
        session_id: Some("test-session".to_string()),
        circuit_state: CircuitState::Closed,
        current_loop_started_at_epoch: 1100,
        last_heartbeat_at_epoch: 1150,
        updated_at_epoch: 1200,
    }
}

#[test]
fn write_and_read_status() {
    let mut status = sample_status();
    status.state = "idle".to_string();

    let text = status_to_json(&status);
    let read = status_from_json(&text).expect("read");

    assert_eq!(read.state, "idle");
    assert_eq!(read.thinking_mode, "summary");
    assert_eq!(read.run_started_at_epoch, 1000);
    assert_eq!(read.current_loop, 1);
    assert_eq!(read.total_loops_executed, 5);
    assert_eq!(read.last_error, None);
    assert_eq!(read.completion_indicators, 0);
    assert!(!read.exit_signal_seen);
    assert_eq!(read.session_id, Some("test-session".to_string()));
    assert_eq!(read.circuit_state, CircuitState::Closed);
    assert_eq!(read.current_loop_started_at_epoch, 1100);
    assert_eq!(read.last_heartbeat_at_epoch, 1150);
    assert_eq!(read.updated_at_epoch, 1200);
}

#[test]
fn status_round_trip_keeps_odd_strings() {
    let mut status = sample_status();
    status.state = "idle".to_string();
    status.last_error = Some("quote \" backslash \\ newline \n tab \t done".to_string());
    status.session_id = Some("id-\u{1F600}-unicode".to_string());

    let text = status_to_json(&status);
    let read = status_from_json(&text).expect("read");

    assert_eq!(read.last_error, status.last_error);
    assert_eq!(read.session_id, status.session_id);
}

#[test]
fn write_and_read_progress() {
    let progress = ProgressSnapshot {
        loops_with_progress: 10,
        loops_without_progress: 2,
        last_summary: "completed task".to_string(),
        updated_at_epoch: 5000,
    };

    let text = progress_to_json(&progress);
    let read = progress_from_json_text(&text).expect("read");

    assert_eq!(read.loops_with_progress, 10);
    assert_eq!(read.loops_without_progress, 2);
    assert_eq!(read.last_summary, "completed task");
    assert_eq!(read.updated_at_epoch, 5000);
}

#[test]
fn read_progress_returns_default_when_missing() {
    let result = read_progress(None);
    assert_eq!(result.loops_with_progress, 0);
    assert_eq!(result.loops_without_progress, 0);
    assert_eq!(result.last_summary, "");
}

#[test]
fn read_progress_returns_default_on_invalid_json() {
    let result = read_progress(Some("not valid json"));
    assert_eq!(result.loops_with_progress, 0);
}

#[test]
fn read_status_marks_stale_runner_when_pid_missing() {
    let status = RunStatus {
        state: "running".to_string(),
        current_loop: 1,
        current_loop_started_at_epoch: 10,
        last_heartbeat_at_epoch: 10,
        ..RunStatus::default()
    };
    let text = status_to_json(&status);

    let (observed, rewrite) = read_status(&text, None, false, 777).expect("read status");

    assert!(rewrite);
    assert_eq!(observed.state, "stale_runner");
    assert_eq!(observed.current_loop, 0);
    assert_eq!(observed.current_loop_started_at_epoch, 0);
    assert_eq!(observed.last_heartbeat_at_epoch, 0);
    assert_eq!(
        observed.last_error,
        Some("runner process not found".to_string())
    );
    assert_eq!(observed.updated_at_epoch, 777);
}

#[test]
fn read_status_keeps_running_status_with_live_owner() {
    let status = sample_status();
    let text = status_to_json(&status);

    let (observed, rewrite) = read_status(&text, Some(4242), true, 777).expect("read status");

    assert!(!rewrite);
    assert_eq!(observed.state, "running");
    assert_eq!(observed.current_loop, 1);
}

#[test]
fn read_status_fails_on_garbage() {
    assert!(read_status("not json at all", None, false, 0).is_none());
}

#[test]
fn staleness_needs_running_state() {
    let idle = RunStatus::default();
    assert!(!is_stale_running_status(&idle, None, false));
    let running = sample_status();
    assert!(is_stale_running_status(&running, None, false));
    assert!(is_stale_running_status(&running, Some(3), false));
    assert!(!is_stale_running_status(&running, Some(3), true));
}

#[test]
fn mark_stale_preserves_existing_error() {
    let mut status = sample_status();
    status.last_error = Some("older error".to_string());
    mark_stale(&mut status, 5);
    assert_eq!(status.state, "stale_runner");
    assert_eq!(status.last_error, Some("older error".to_string()));
}

#[test]
fn runner_pid_accepts_only_positive_integers() {
    assert_eq!(runner_pid_of(Some(" 1234 \n")), Some(1234));
    assert_eq!(runner_pid_of(Some("0")), None);
    assert_eq!(runner_pid_of(Some("-7")), None);
    assert_eq!(runner_pid_of(Some("pid")), None);
    assert_eq!(runner_pid_of(None), None);
}

#[test]
fn circuit_state_file_round_trips_labels() {
    assert_eq!(circuit_label(CircuitState::Closed), "closed");
    assert_eq!(circuit_label(CircuitState::HalfOpen), "half_open");
    assert_eq!(circuit_label(CircuitState::Open), "open");
    let text = circuit_to_json(&CircuitBreakerState {
        state: CircuitState::HalfOpen,
        consecutive_no_progress: 2,
    });
    assert_eq!(
        text,
        "{\"state\":\"half_open\",\"consecutive_no_progress\":2}"
    );
}

#[test]
fn history_line_format() {
    let line = history_line(
        1700000000,
        3,
        &CircuitBreakerState {
            state: CircuitState::Open,
            consecutive_no_progress: 4,
        },
    );
    assert_eq!(line, "1700000000 loop=3 state=Open no_progress=4\n");
}

#[test]
fn stale_status_survives_a_second_read_unchanged() {
    let status = RunStatus {
        state: "running".to_string(),
        current_loop: 2,
        ..RunStatus::default()
    };
    let text = status_to_json(&status);
    let (healed, _) = read_status(&text, None, false, 50).expect("first read");
    let healed_text = status_to_json(&healed);
    let (second, rewrite) = read_status(&healed_text, None, false, 60).expect("second read");
    assert!(!rewrite);
    assert_eq!(second.state, "stale_runner");
    assert_eq!(second.updated_at_epoch, 50);
}

#[test]
fn ill_typed_fields_fail_the_whole_status_read() {
    // A numeric state is a type error, not a default.
    assert!(status_from_json("{\"state\":7}").is_none());
    // A counter out of the 32-bit range is rejected.
    assert!(status_from_json("{\"completion_indicators\":4294967296}").is_none());
    // An unknown circuit label is rejected.
    assert!(status_from_json("{\"circuit_state\":\"ajar\"}").is_none());
    // A non-object document is rejected.
    assert!(status_from_json("[1,2,3]").is_none());
}

#[test]
fn missing_fields_fall_back_to_defaults() {
    let status = status_from_json("{}").expect("decode");
    assert_eq!(status.state, "idle");
    assert_eq!(status.thinking_mode, "summary");
    assert_eq!(status.current_loop, 0);
    assert_eq!(status.session_id, None);
    assert_eq!(status.circuit_state, CircuitState::Closed);
}

#[test]
fn negative_counters_fail_the_progress_read() {
    assert!(progress_from_json_text("{\"loops_with_progress\":-1}").is_none());
    let fallback = read_progress(Some("{\"loops_with_progress\":-1}"));
    assert_eq!(fallback.loops_with_progress, 0);
}
