use forge::doctor::{collect_doctor_checks, collect_doctor_warnings, run_doctor};

fn probes(ok: bool) -> ((bool, String), (bool, String), (bool, String), (bool, String)) {
    (
        (ok, "engine probe".to_string()),
        (true, "inside git work tree".to_string()),
        (true, ".forge is writable".to_string()),
        (true, "config loaded successfully".to_string()),
    )
}

#[test]
fn collect_doctor_checks_returns_four_checks() {
    let (e, g, w, c) = probes(true);
    let checks = collect_doctor_checks(e, g, w, c);
    assert_eq!(checks.len(), 4);
    assert!(checks.iter().any(|c| c.name == "engine_available"));
    assert!(checks.iter().any(|c| c.name == "git_repository"));
    assert!(checks.iter().any(|c| c.name == "runtime_writable"));
    assert!(checks.iter().any(|c| c.name == "config_loadable"));
}

#[test]
fn collect_doctor_warnings_when_missing_forgerc() {
    let warnings = collect_doctor_warnings(false, true);
    assert!(warnings.iter().any(|w| w.contains(".forgerc")));
}

#[test]
fn collect_doctor_warnings_empty_when_files_exist() {
    let warnings = collect_doctor_warnings(true, true);
    assert!(warnings.is_empty());
}

#[test]
fn run_doctor_returns_report() {
    let (e, g, w, c) = probes(true);
    let checks = collect_doctor_checks(e, g, w, c);
    let report = run_doctor("/work".to_string(), checks, Vec::new(), Vec::new(), false);

    assert_eq!(report.cwd, "/work");
    assert_eq!(report.checks.len(), 4);
    assert!(report.attempted_fixes.is_empty());
    assert!(report.ok);
}

#[test]
fn run_doctor_fails_on_a_failing_check() {
    let (e, g, w, c) = probes(false);
    let checks = collect_doctor_checks(e, g, w, c);
    let report = run_doctor("/work".to_string(), checks, Vec::new(), Vec::new(), false);
    assert!(!report.ok);
}

#[test]
fn run_doctor_strict_fails_on_warnings() {
    let (e, g, w, c) = probes(true);
    let checks = collect_doctor_checks(e, g, w, c);
    let warnings = collect_doctor_warnings(false, false);
    assert_eq!(warnings.len(), 2);
    let lax = run_doctor(
        "/work".to_string(),
        checks.clone(),
        warnings.clone(),
        Vec::new(),
        false,
    );
    assert!(lax.ok);
    let strict = run_doctor("/work".to_string(), checks, warnings, Vec::new(), true);
    assert!(!strict.ok);
}
