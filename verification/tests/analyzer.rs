use forge::analyzer::{analyze_output, summarize_output, OutputParser};

#[test]
fn dual_gate_requires_exit_signal_true() {
    let indicators = vec!["STATUS: COMPLETE".to_string()];
    let analysis = analyze_output("STATUS: COMPLETE\nEXIT_SIGNAL: false", "", &indicators);
    assert_eq!(analysis.completion_indicators, 1);
    assert!(!analysis.exit_signal_true);
}

#[test]
fn dual_gate_completes_with_indicator_and_exit_signal() {
    let indicators = vec!["STATUS: COMPLETE".to_string()];
    let analysis = analyze_output("STATUS: COMPLETE\nEXIT_SIGNAL: true", "", &indicators);
    assert_eq!(analysis.completion_indicators, 1);
    assert!(analysis.exit_signal_true);
}

#[test]
fn detects_exit_signal_true() {
    let analysis = OutputParser::parse("EXIT_SIGNAL: true\nSTATUS: COMPLETE", "", &Vec::new());
    assert!(analysis.exit_signal_true);
}

#[test]
fn exit_signal_case_insensitive() {
    let analysis = OutputParser::parse("exit_signal: TRUE", "", &Vec::new());
    assert!(analysis.exit_signal_true);
}

#[test]
fn no_exit_signal_when_false() {
    let analysis = OutputParser::parse("exit_signal: false", "", &Vec::new());
    assert!(!analysis.exit_signal_true);
}

#[test]
fn detects_completion_indicators() {
    let indicators = vec!["STATUS: COMPLETE".to_string(), "TASK_COMPLETE".to_string()];
    let analysis = OutputParser::parse("STATUS: COMPLETE\nTASK_COMPLETE", "", &indicators);
    assert_eq!(analysis.completion_indicators, 2);
}

#[test]
fn detects_error_from_string() {
    let analysis = OutputParser::parse("Error: something failed", "", &Vec::new());
    assert!(analysis.has_error);
}

#[test]
fn detects_error_from_json() {
    let analysis = OutputParser::parse("{\"error\": \"failed\"}", "", &Vec::new());
    assert!(analysis.has_error);
}

#[test]
fn detects_progress_hint_apply_patch() {
    let analysis = OutputParser::parse("apply_patch to file", "", &Vec::new());
    assert!(analysis.has_progress_hint);
}

#[test]
fn detects_progress_hint_updated_file() {
    let analysis = OutputParser::parse("Updated file src/main.rs", "", &Vec::new());
    assert!(analysis.has_progress_hint);
}

#[test]
fn detects_progress_hint_wrote() {
    let analysis = OutputParser::parse("wrote 5 lines", "", &Vec::new());
    assert!(analysis.has_progress_hint);
}

#[test]
fn detects_progress_hint_created() {
    let analysis = OutputParser::parse("Created new module", "", &Vec::new());
    assert!(analysis.has_progress_hint);
}

#[test]
fn detects_progress_hint_modified() {
    let analysis = OutputParser::parse("Modified config", "", &Vec::new());
    assert!(analysis.has_progress_hint);
}

#[test]
fn extracts_session_id_from_json() {
    let json = r#"{"type":"thread.started","thread_id":"abc123"}"#;
    let analysis = OutputParser::parse(json, "", &Vec::new());
    assert_eq!(analysis.session_id, Some("abc123".to_string()));
}

#[test]
fn extracts_session_id_from_nested_json() {
    let json = r#"{"event":{"session_id":"xyz789"}}"#;
    let analysis = OutputParser::parse(json, "", &Vec::new());
    assert_eq!(analysis.session_id, Some("xyz789".to_string()));
}

#[test]
fn combines_stdout_and_stderr() {
    let analysis = OutputParser::parse("stdout output", "error: from stderr", &Vec::new());
    assert!(analysis.has_error);
}

#[test]
fn counts_json_indicators() {
    let indicators = vec!["COMPLETE".to_string()];
    let json = r#"{"status": "COMPLETE", "result": {"state": "COMPLETE"}}"#;
    let analysis = OutputParser::parse(json, "", &indicators);
    assert_eq!(analysis.completion_indicators, 1);
}

#[test]
fn no_progress_when_no_hints() {
    let analysis = OutputParser::parse("just thinking...", "", &Vec::new());
    assert!(!analysis.has_progress_hint);
}

#[test]
fn empty_output_no_false_positives() {
    let analysis = OutputParser::parse("", "", &Vec::new());
    assert!(!analysis.exit_signal_true);
    assert!(!analysis.has_error);
    assert!(!analysis.has_progress_hint);
    assert_eq!(analysis.completion_indicators, 0);
    assert!(analysis.session_id.is_none());
}

#[test]
fn first_session_id_wins_over_later_lines() {
    let out = "{\"session_id\":\"first\"}\n{\"session_id\":\"second\"}";
    let analysis = analyze_output(out, "", &Vec::new());
    assert_eq!(analysis.session_id, Some("first".to_string()));
}

#[test]
fn bare_id_key_counts_only_for_the_engine_parser() {
    let json = r#"{"id":"only-id"}"#;
    let base = analyze_output(json, "", &Vec::new());
    assert!(base.session_id.is_none());
    let parsed = OutputParser::parse(json, "", &Vec::new());
    assert_eq!(parsed.session_id, Some("only-id".to_string()));
}

#[test]
fn json_fallback_counts_escaped_indicators() {
    // The indicator hides inside a JSON string value, invisible to the plain
    // substring scan of the escaped envelope.
    let indicators = vec!["ALL\"DONE".to_string()];
    let json = r#"{"msg":"ALL\"DONE"}"#;
    let analysis = analyze_output(json, "", &indicators);
    assert_eq!(analysis.completion_indicators, 1);
}

#[test]
fn summarize_output_trims_and_joins() {
    assert_eq!(summarize_output("  hello  ", "  world  "), "hello world");
    assert_eq!(summarize_output("", ""), "no output");
    assert_eq!(summarize_output("solo", ""), "solo");
}

#[test]
fn summarize_output_caps_at_180_characters() {
    let long = "x".repeat(400);
    let summary = summarize_output(&long, "");
    assert_eq!(summary.chars().count(), 180);
}

#[test]
fn indicators_in_stderr_count_for_the_plain_scan() {
    let indicators = vec!["NO_MORE_WORK".to_string()];
    let analysis = analyze_output("", "NO_MORE_WORK", &indicators);
    assert_eq!(analysis.completion_indicators, 1);
}

#[test]
fn marker_split_across_the_stream_boundary_does_not_count() {
    // The streams are joined by a newline, so a marker cannot straddle them.
    let indicators = vec!["ABCD".to_string()];
    let analysis = analyze_output("AB", "CD", &indicators);
    assert_eq!(analysis.completion_indicators, 0);
}
