use forge::prompt::{analyze_plan, build_plan_prompt};

#[test]
fn returns_none_when_no_plan() {
    let result = build_plan_prompt(None, "");
    assert!(result.is_none());
}

#[test]
fn returns_none_when_plan_empty() {
    let result = build_plan_prompt(Some("   \n"), "");
    assert!(result.is_none());
}

#[test]
fn includes_unchecked_items() {
    let prompt =
        build_plan_prompt(Some("# Plan\n- [ ] Task A\n- [x] Task B\n"), "finished task B")
            .expect("prompt");

    assert!(prompt.contains("continuing an iterative execution loop"));
    assert!(prompt.contains("Do NOT redo completed checklist items"));
    assert!(prompt.contains("Task A"));
    assert!(!prompt.contains("Task B\n"));
    assert!(prompt.contains("finished task B"));
}

#[test]
fn includes_continuity_message_when_no_progress() {
    let prompt = build_plan_prompt(Some("# Plan\n- [ ] Task A\n"), "").expect("prompt");
    assert!(prompt.contains("Last loop summary: (none)"));
}

#[test]
fn limits_unchecked_items_to_80() {
    let mut plan = String::from("# Plan\n");
    for i in 0..100 {
        plan.push_str(&format!("- [ ] Task {}\n", i));
    }

    let prompt = build_plan_prompt(Some(&plan), "").expect("prompt");

    assert!(prompt.contains("Task 0"));
    assert!(prompt.contains("Task 79"));
    assert!(!prompt.contains("Task 80"));
}

#[test]
fn falls_back_when_nothing_is_unchecked() {
    let prompt = build_plan_prompt(Some("# Plan\n- [x] Task B\n"), "").expect("prompt");
    assert!(prompt.contains("No explicit unchecked checklist items found"));
}

#[test]
fn analyze_plan_counts_items() {
    let summary = analyze_plan(Some("# Plan\n- [ ] Task A\n- [x] Task B\n- [ ] Task C\n"))
        .expect("summary");

    assert_eq!(summary.total_items, 3);
    assert_eq!(summary.unchecked_items, 2);
    assert_eq!(summary.checked_items, 1);
}

#[test]
fn analyze_plan_returns_none_when_no_plan() {
    let result = analyze_plan(None);
    assert!(result.is_none());
}

#[test]
fn analyze_plan_returns_none_when_plan_blank() {
    let result = analyze_plan(Some("  \n  "));
    assert!(result.is_none());
}
