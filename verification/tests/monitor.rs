use forge::json::JsonValue;
use forge::monitor::{
    classify_log_event, classify_prefix_tag, clamp_percent, extract_latest_activity,
    extract_recent_activity_lines, format_elapsed, format_limit_line, heartbeat_age_secs,
    is_state_db_discrepancy_warn, parse_activity_event, render_limit_bar, split_log_timestamp,
    stalled_for_secs,
};
use forge::types::RunStatus;

fn running_status(heartbeat: u64) -> RunStatus {
    RunStatus {
        state: "running".to_string(),
        last_heartbeat_at_epoch: heartbeat,
        ..RunStatus::default()
    }
}

#[test]
fn classifies_loop_line() {
    let label = classify_log_event("loop 2: codex exec started");
    assert_eq!(label, "LOOP");
}

#[test]
fn prefix_tag_controls_event_classification() {
    assert_eq!(
        classify_log_event("[FAILURE] command (failed): npm run lint"),
        "FAILURE"
    );
    assert_eq!(
        classify_log_event("[PROGRESS] command (in_progress): npm run lint"),
        "PROGRESS"
    );
    assert_eq!(classify_log_event("[INFO] reasoning: checking"), "INFO");
}

#[test]
fn models_refresh_timeout_is_not_classified_as_failure() {
    assert_eq!(
        classify_log_event(
            "[stderr] 2026-02-18T04:36:31Z ERROR codex_core::models_manager::manager: failed to refresh available models: timeout waiting for child process to exit"
        ),
        "LIMITER"
    );
}

#[test]
fn state_db_discrepancy_warn_is_classified_as_system() {
    assert_eq!(
        classify_log_event(
            "[stderr] 2026-02-18T10:33:47Z WARN codex_core::state_db: state db record_discrepancy: find_thread_path_by_id_str_in_subdir, falling_back"
        ),
        "SYSTEM"
    );
}

#[test]
fn stalled_for_secs_detects_stall_when_running() {
    let status = running_status(100);
    let stalled = stalled_for_secs(&status, 120, 15);
    assert_eq!(stalled, Some(20));
}

#[test]
fn stalled_for_secs_ignores_recent_heartbeat() {
    let status = running_status(100);
    let stalled = stalled_for_secs(&status, 110, 15);
    assert_eq!(stalled, None);
}

#[test]
fn stalled_for_secs_uses_default_threshold_when_zero() {
    let status = running_status(100);
    assert_eq!(stalled_for_secs(&status, 114, 0), None);
    assert_eq!(stalled_for_secs(&status, 115, 0), Some(15));
}

#[test]
fn heartbeat_age_only_applies_to_running() {
    let idle = RunStatus::default();
    assert_eq!(heartbeat_age_secs(&idle, 1000), None);
    assert_eq!(heartbeat_age_secs(&running_status(0), 1000), None);
    assert_eq!(heartbeat_age_secs(&running_status(900), 1000), Some(100));
}

#[test]
fn format_elapsed_pads_fields() {
    assert_eq!(format_elapsed(0), "00:00:00");
    assert_eq!(format_elapsed(59), "00:00:59");
    assert_eq!(format_elapsed(3661), "01:01:01");
    assert_eq!(format_elapsed(360000), "100:00:00");
}

#[test]
fn clamp_percent_bounds() {
    assert_eq!(clamp_percent(-5), 0);
    assert_eq!(clamp_percent(50), 50);
    assert_eq!(clamp_percent(150), 100);
}

#[test]
fn render_limit_bar_rounds_to_cells() {
    assert_eq!(render_limit_bar(100, 4), "[\u{2588}\u{2588}\u{2588}\u{2588}]");
    assert_eq!(render_limit_bar(0, 4), "[\u{2591}\u{2591}\u{2591}\u{2591}]");
    assert_eq!(render_limit_bar(50, 4), "[\u{2588}\u{2588}\u{2591}\u{2591}]");
}

#[test]
fn format_limit_line_reports_percentage_and_reset() {
    assert_eq!(format_limit_line(None, None), "-");
    let line = format_limit_line(Some(40), Some("3:00 PM"));
    assert!(line.ends_with("40% left (resets 3:00 PM)"));
    let bare = format_limit_line(Some(40), Some("   "));
    assert!(bare.ends_with("40% left"));
}

#[test]
fn split_log_timestamp_recognizes_stamps() {
    let (ts, rest) = split_log_timestamp("[12:34:56] hello");
    assert_eq!(ts, Some("12:34:56".to_string()));
    assert_eq!(rest, "hello");

    let (ts, rest) = split_log_timestamp("[notatime] hello");
    assert_eq!(ts, None);
    assert_eq!(rest, "[notatime] hello");
}

#[test]
fn state_db_warn_needs_all_three_markers() {
    assert!(is_state_db_discrepancy_warn(
        "codex_core::state_db record_discrepancy find_thread_path_by_id_str_in_subdir"
    ));
    assert!(!is_state_db_discrepancy_warn("codex_core::state_db only"));
}

#[test]
fn parse_activity_event_reads_command_executions() {
    let item = JsonValue::Obj(vec![
        ("type".to_string(), JsonValue::Str("command_execution".to_string())),
        ("command".to_string(), JsonValue::Str("npm run test".to_string())),
        ("status".to_string(), JsonValue::Str("in_progress".to_string())),
    ]);
    let event = JsonValue::Obj(vec![("item".to_string(), item)]);

    let parsed = parse_activity_event(&event).expect("activity");
    assert_eq!(parsed.kind, Some("PROGRESS".to_string()));
    assert_eq!(parsed.text, "command (in_progress): npm run test");
}

#[test]
fn parse_activity_event_reads_agent_messages() {
    let item = JsonValue::Obj(vec![
        ("type".to_string(), JsonValue::Str("agent_message".to_string())),
        ("text".to_string(), JsonValue::Str("loop 1 done".to_string())),
    ]);
    let event = JsonValue::Obj(vec![("item".to_string(), item)]);

    let parsed = parse_activity_event(&event).expect("activity");
    assert_eq!(parsed.kind, None);
    assert_eq!(parsed.text, "agent: loop 1 done");
}

#[test]
fn parse_activity_event_ignores_other_items() {
    let item = JsonValue::Obj(vec![(
        "type".to_string(),
        JsonValue::Str("other".to_string()),
    )]);
    let event = JsonValue::Obj(vec![("item".to_string(), item)]);
    assert!(parse_activity_event(&event).is_none());
}

#[test]
fn classify_prefix_tag_uppercases_the_head() {
    assert_eq!(classify_prefix_tag("  [failure] boom"), Some("FAILURE"));
    assert_eq!(classify_prefix_tag("[rate_limit] wait"), Some("LIMITER"));
    assert_eq!(classify_prefix_tag("[unknown] text"), None);
    assert_eq!(classify_prefix_tag("no tag here"), None);
}

#[test]
fn picks_latest_command_activity() {
    let raw = r#"
[stdout]
{"type":"item.started","item":{"type":"command_execution","command":"npm run test","status":"in_progress"}}
"#;
    let activity = extract_latest_activity(raw).expect("activity");
    assert!(activity.contains("npm run test"));
    assert!(activity.contains("in_progress"));
}

#[test]
fn falls_back_to_text_lines() {
    let raw = r#"
[stderr]
plain text line
"#;
    let activity = extract_latest_activity(raw).expect("activity");
    assert_eq!(activity, "plain text line");
}

#[test]
fn extracts_recent_lines_with_labels() {
    let raw = r#"
[stdout]
{"type":"item.completed","item":{"type":"agent_message","text":"loop 1: engine exec started"}}
plain text line
"#;
    let recent = extract_recent_activity_lines(raw, 5);
    assert!(!recent.is_empty());
    assert!(recent.iter().any(|line| line.kind == "LOOP"));
}

#[test]
fn command_execution_status_is_classified_by_status() {
    let raw = r#"
[stdout]
{"type":"item.started","item":{"type":"command_execution","command":"npm run lint","status":"in_progress"}}
{"type":"item.completed","item":{"type":"command_execution","command":"npm run lint","status":"completed"}}
"#;
    let recent = extract_recent_activity_lines(raw, 5);
    assert!(recent.iter().any(|line| line.kind == "PROGRESS"));
    assert!(recent.iter().any(|line| line.kind == "SUCCESS"));
}

#[test]
fn recent_lines_respect_the_limit_and_note_suppressed_warnings() {
    let warn = "codex_core::state_db record_discrepancy find_thread_path_by_id_str_in_subdir";
    let raw = format!("first\nsecond\nthird\n{}\n", warn);
    let recent = extract_recent_activity_lines(&raw, 2);
    // The newest two plain lines survive, oldest first, plus the note.
    assert_eq!(recent.len(), 3);
    assert_eq!(recent[0].text, "second");
    assert_eq!(recent[1].text, "third");
    assert_eq!(recent[2].kind, "SYSTEM");
    assert_eq!(
        recent[2].text,
        "suppressed 1 repeated state_db discrepancy warnings"
    );
}
