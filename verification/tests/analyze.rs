use forge::analyze::{
    build_analyze_prompt, build_synthesis_prompt, chunk_files, chunk_label, chunk_report,
    extract_last_agent_message,
};

#[test]
fn build_analyze_prompt_includes_files() {
    let files = vec!["src/main.rs".to_string(), "src/lib.rs".to_string()];
    let prompt = build_analyze_prompt(&files, "chunk 1/2");

    assert!(prompt.contains("src/main.rs"));
    assert!(prompt.contains("src/lib.rs"));
    assert!(prompt.contains("chunk 1/2"));
    assert!(prompt.contains("EXIT_SIGNAL: true"));
}

#[test]
fn extract_last_agent_message_extracts_text() {
    let stdout =
        r#"{"type":"item.completed","item":{"type":"agent_message","text":"Hello world"}}"#;
    let result = extract_last_agent_message(stdout);
    assert_eq!(result, Some("Hello world".to_string()));
}

#[test]
fn extract_last_agent_message_returns_last() {
    let stdout = r#"{"type":"item.completed","item":{"type":"agent_message","text":"First"}}
{"type":"item.completed","item":{"type":"agent_message","text":"Second"}}"#;
    let result = extract_last_agent_message(stdout);
    assert_eq!(result, Some("Second".to_string()));
}

#[test]
fn extract_last_agent_message_ignores_non_agent() {
    let stdout = r#"{"type":"item.completed","item":{"type":"other","text":"Ignored"}}"#;
    let result = extract_last_agent_message(stdout);
    assert!(result.is_none());
}

#[test]
fn chunk_files_respects_the_size() {
    let files: Vec<String> = (0..5).map(|i| format!("f{}", i)).collect();
    let chunks = chunk_files(&files, 2);
    assert_eq!(chunks.len(), 3);
    assert_eq!(chunks[0], vec!["f0".to_string(), "f1".to_string()]);
    assert_eq!(chunks[2], vec!["f4".to_string()]);
    // A zero size still makes progress, one file per chunk.
    assert_eq!(chunk_files(&files, 0).len(), 5);
    assert!(chunk_files(&Vec::new(), 3).is_empty());
}

#[test]
fn chunk_label_is_one_based() {
    assert_eq!(chunk_label(0, 2), "chunk 1/2");
    assert_eq!(chunk_label(1, 2), "chunk 2/2");
}

#[test]
fn synthesis_prompt_wraps_the_joined_reports() {
    let prompt = build_synthesis_prompt("## Chunk 1/1\nall good");
    assert!(prompt.starts_with("Consolidate the following chunk analyses"));
    assert!(prompt.contains("EXIT_SIGNAL: true"));
    assert!(prompt.ends_with("## Chunk 1/1\nall good"));
}

#[test]
fn chunk_report_prefers_the_agent_message() {
    let stdout =
        r#"{"type":"item.completed","item":{"type":"agent_message","text":"the report"}}"#;
    assert_eq!(chunk_report(stdout, "noise"), "the report");
}

#[test]
fn chunk_report_falls_back_to_merged_streams() {
    assert_eq!(chunk_report(" raw out ", " raw err "), "raw out raw err");
    let long = "y".repeat(5000);
    assert_eq!(chunk_report(&long, "").chars().count(), 4000);
}
