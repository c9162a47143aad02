use forge::sdd::{
    current_sdd_id, read_sdd_meta, render_acceptance, render_plan, render_scenarios, render_spec,
    sdd_id, sdd_root, slugify, SddInterview, ThinkingMode,
};

fn interview(acceptance: &str, scenarios: &str) -> SddInterview {
    SddInterview {
        project_name: "Test".to_string(),
        product_goal: "Goal".to_string(),
        target_users: "Users".to_string(),
        thinking: ThinkingMode::Summary,
        in_scope: "In".to_string(),
        out_of_scope: "Out".to_string(),
        constraints: "None".to_string(),
        acceptance_criteria: acceptance.to_string(),
        scenarios: scenarios.to_string(),
        tests: "Tests".to_string(),
        max_loops: 10,
    }
}

#[test]
fn render_spec_includes_all_fields() {
    let interview = SddInterview {
        project_name: "MyProject".to_string(),
        product_goal: "Build something".to_string(),
        target_users: "Developers".to_string(),
        thinking: ThinkingMode::Summary,
        in_scope: "Core features".to_string(),
        out_of_scope: "Extras".to_string(),
        constraints: "Time".to_string(),
        acceptance_criteria: "Works".to_string(),
        scenarios: "Scenario 1".to_string(),
        tests: "Unit tests".to_string(),
        max_loops: 10,
    };

    let spec = render_spec(&interview);

    assert!(spec.contains("MyProject"));
    assert!(spec.contains("Build something"));
    assert!(spec.contains("Developers"));
    assert!(spec.contains("Core features"));
}

#[test]
fn render_acceptance_parses_semicolons() {
    let interview = SddInterview {
        project_name: "Test".to_string(),
        product_goal: "Goal".to_string(),
        target_users: "Users".to_string(),
        thinking: ThinkingMode::Summary,
        in_scope: "In".to_string(),
        out_of_scope: "Out".to_string(),
        constraints: "None".to_string(),
        acceptance_criteria: "Item 1; Item 2; Item 3".to_string(),
        scenarios: "Scenario".to_string(),
        tests: "Tests".to_string(),
        max_loops: 10,
    };

    let acceptance = render_acceptance(&interview);

    assert!(acceptance.contains("- [ ] Item 1"));
    assert!(acceptance.contains("- [ ] Item 2"));
    assert!(acceptance.contains("- [ ] Item 3"));
}

#[test]
fn render_scenarios_numbers_by_raw_position() {
    let doc = render_scenarios(&interview("x", "First; ;Third"));
    assert!(doc.contains("## Scenario 1\nFirst"));
    assert!(doc.contains("## Scenario 3\nThird"));
    assert!(!doc.contains("## Scenario 2"));
}

#[test]
fn render_scenarios_falls_back_to_a_default() {
    let doc = render_scenarios(&interview("x", "  ;  "));
    assert!(doc.contains("## Scenario 1\nGiven a planned task"));
}

#[test]
fn render_plan_carries_every_answer() {
    let doc = render_plan(&interview("Works; Fast", "One; Two"), 1234);
    assert!(doc.contains("Generated at epoch 1234"));
    assert!(doc.contains("## Goal\nGoal"));
    assert!(doc.contains("- In: In"));
    assert!(doc.contains("- Out: Out"));
    assert!(doc.contains("## Thinking Mode\nsummary"));
    assert!(doc.contains("EXIT_SIGNAL is true"));
}

#[test]
fn sdd_root_returns_correct_path() {
    let root = sdd_root("/tmp/work");
    assert!(root.ends_with(".forge/sdds"));
    assert_eq!(root, "/tmp/work/.forge/sdds");
}

#[test]
fn current_sdd_id_returns_none_when_missing() {
    let result = current_sdd_id(None);
    assert!(result.is_none());
}

#[test]
fn current_sdd_id_returns_value_when_present() {
    let result = current_sdd_id(Some("test-sdd-123\n"));
    assert_eq!(result, Some("test-sdd-123".to_string()));
}

#[test]
fn read_sdd_meta_returns_default_when_missing() {
    let meta = read_sdd_meta(None);
    assert!(meta.id.is_empty());
}

#[test]
fn read_sdd_meta_returns_parsed_value() {
    let meta = read_sdd_meta(Some(
        r#"{"id":"test-sdd","project_name":"Test","goal":"Test goal","created_at_epoch":1000}"#,
    ));
    assert_eq!(meta.id, "test-sdd");
    assert_eq!(meta.project_name, "Test");
    assert_eq!(meta.goal, "Test goal");
    assert_eq!(meta.created_at_epoch, 1000);
}

#[test]
fn slugify_keeps_safe_characters_only() {
    assert_eq!(slugify("My Project 7!", "session"), "myproject7");
    assert_eq!(slugify("___", "session"), "___");
    assert_eq!(slugify("!!!", "session"), "session");
}

#[test]
fn sdd_id_joins_epoch_and_slug() {
    assert_eq!(sdd_id(1000, "demo"), "1000-demo");
}
