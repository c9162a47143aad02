use forge::config::{
    env_bool, env_csv, env_thinking_mode, env_u32, env_whitespace_args, first_some,
    load_run_config, ws_split, CliOverrides, ConfigError, EngineKind, EnvSettings, FileSettings,
    ResumeMode, ThinkingMode,
};

#[test]
fn defaults_apply_when_nothing_is_set() {
    let cfg = load_run_config(
        &CliOverrides::default(),
        &EnvSettings::default(),
        &FileSettings::default(),
    )
    .expect("load_run_config");

    assert_eq!(cfg.engine, EngineKind::Codex);
    assert_eq!(cfg.engine_cmd, "codex");
    assert_eq!(cfg.thinking_mode, ThinkingMode::Summary);
    assert_eq!(cfg.max_calls_per_hour, 100);
    assert_eq!(cfg.timeout_minutes, 15);
    assert_eq!(cfg.runtime_dir, ".forge");
    assert_eq!(
        cfg.completion_indicators,
        vec![
            "STATUS: COMPLETE".to_string(),
            "TASK_COMPLETE".to_string(),
            "NO_MORE_WORK".to_string(),
            "ALL_TASKS_DONE".to_string(),
        ]
    );
    assert!(!cfg.auto_wait_on_rate_limit);
    assert_eq!(cfg.sleep_on_rate_limit_secs, 60);
    assert_eq!(cfg.no_progress_limit, 3);
    assert!(matches!(cfg.resume_mode, ResumeMode::New));
    // The default summary mode contributes its verbosity flags.
    assert!(cfg
        .engine_pre_args
        .windows(2)
        .any(|w| w == ["--config", "hide_agent_reasoning=false"]));
}

#[test]
fn cli_overrides_file_values() {
    let file = FileSettings {
        max_calls_per_hour: Some(10),
        timeout_minutes: Some(2),
        ..FileSettings::default()
    };

    let cfg = load_run_config(
        &CliOverrides {
            engine: None,
            engine_pre_args: Some(vec![
                "--sandbox".to_string(),
                "danger-full-access".to_string(),
            ]),
            engine_exec_args: None,
            thinking_mode: None,
            max_calls_per_hour: Some(77),
            timeout_minutes: Some(22),
            resume: None,
            resume_last: true,
        },
        &EnvSettings::default(),
        &file,
    )
    .expect("load_run_config");

    assert_eq!(cfg.max_calls_per_hour, 77);
    assert_eq!(cfg.timeout_minutes, 22);
    assert!(cfg
        .engine_pre_args
        .starts_with(&["--sandbox".to_string(), "danger-full-access".to_string()]));
    assert!(cfg
        .engine_pre_args
        .windows(2)
        .any(|w| w == ["--config", "hide_agent_reasoning=false"]));
    assert!(cfg
        .engine_pre_args
        .windows(2)
        .any(|w| w == ["--config", "show_raw_agent_reasoning=false"]));
    assert!(matches!(cfg.resume_mode, ResumeMode::Last));
}

#[test]
fn thinking_mode_raw_adds_raw_reasoning_flags() {
    let cfg = load_run_config(
        &CliOverrides {
            engine: None,
            engine_pre_args: None,
            engine_exec_args: None,
            thinking_mode: Some(ThinkingMode::Raw),
            max_calls_per_hour: None,
            timeout_minutes: None,
            resume: None,
            resume_last: false,
        },
        &EnvSettings::default(),
        &FileSettings::default(),
    )
    .expect("load_run_config");

    assert_eq!(cfg.thinking_mode, ThinkingMode::Raw);
    assert!(cfg
        .engine_pre_args
        .windows(2)
        .any(|w| w == ["--config", "show_raw_agent_reasoning=true"]));
}

#[test]
fn environment_beats_the_file() {
    let env = EnvSettings {
        max_calls_per_hour: Some("7".to_string()),
        completion_indicators: Some(" DONE , , ALSO DONE ".to_string()),
        auto_wait_on_rate_limit: Some("YES".to_string()),
        ..EnvSettings::default()
    };
    let file = FileSettings {
        max_calls_per_hour: Some(50),
        auto_wait_on_rate_limit: Some(false),
        ..FileSettings::default()
    };
    let cfg = load_run_config(&CliOverrides::default(), &env, &file).expect("load");
    assert_eq!(cfg.max_calls_per_hour, 7);
    assert_eq!(
        cfg.completion_indicators,
        vec!["DONE".to_string(), "ALSO DONE".to_string()]
    );
    assert!(cfg.auto_wait_on_rate_limit);
}

#[test]
fn zero_call_budget_is_rejected_at_configuration_time() {
    let result = load_run_config(
        &CliOverrides {
            max_calls_per_hour: Some(0),
            ..CliOverrides::default()
        },
        &EnvSettings::default(),
        &FileSettings::default(),
    );
    assert_eq!(result.unwrap_err(), ConfigError::ZeroMaxCallsPerHour);
    assert_eq!(
        ConfigError::ZeroMaxCallsPerHour.message(),
        "max_calls_per_hour must be greater than 0"
    );
}

#[test]
fn explicit_resume_beats_resume_last() {
    let cfg = load_run_config(
        &CliOverrides {
            resume: Some("sess-9".to_string()),
            resume_last: true,
            ..CliOverrides::default()
        },
        &EnvSettings::default(),
        &FileSettings::default(),
    )
    .expect("load");
    assert_eq!(cfg.resume_mode, ResumeMode::Explicit("sess-9".to_string()));
}

#[test]
fn env_parsers_follow_std_semantics() {
    assert_eq!(env_u32(Some(&"42".to_string())), Some(42));
    assert_eq!(env_u32(Some(&" 42".to_string())), None);
    assert_eq!(env_u32(None), None);

    assert_eq!(env_bool(Some(&"TRUE".to_string())), Some(true));
    assert_eq!(env_bool(Some(&"off".to_string())), Some(false));
    assert_eq!(env_bool(Some(&"maybe".to_string())), None);

    assert_eq!(
        env_thinking_mode(Some(&" RAW ".to_string())),
        Some(ThinkingMode::Raw)
    );
    assert_eq!(env_thinking_mode(Some(&"loud".to_string())), None);
}

#[test]
fn csv_and_whitespace_args_drop_empties() {
    assert_eq!(
        env_csv(Some(&"a, b ,,c".to_string())),
        Some(vec!["a".to_string(), "b".to_string(), "c".to_string()])
    );
    assert_eq!(env_csv(Some(&" , ,".to_string())), None);
    assert_eq!(
        env_whitespace_args(Some(&"  -s   full  ".to_string())),
        Some(vec!["-s".to_string(), "full".to_string()])
    );
    assert_eq!(env_whitespace_args(Some(&"   ".to_string())), None);
    assert_eq!(
        ws_split("one\ttwo  three"),
        vec!["one".to_string(), "two".to_string(), "three".to_string()]
    );
}

#[test]
fn first_some_orders_sources() {
    assert_eq!(first_some(Some(1), Some(2), Some(3)), Some(1));
    assert_eq!(first_some(None::<i32>, Some(2), Some(3)), Some(2));
    assert_eq!(first_some(None::<i32>, None, Some(3)), Some(3));
    assert_eq!(first_some(None::<i32>, None, None), None);
}

#[test]
fn thinking_mode_labels_and_flags() {
    assert_eq!(ThinkingMode::Off.as_str(), "off");
    assert_eq!(ThinkingMode::Summary.as_str(), "summary");
    assert_eq!(ThinkingMode::Raw.as_str(), "raw");
    assert_eq!(
        ThinkingMode::Off.codex_config_args(),
        vec![
            "--config".to_string(),
            "hide_agent_reasoning=true".to_string(),
            "--config".to_string(),
            "show_raw_agent_reasoning=false".to_string(),
            "--config".to_string(),
            "model_reasoning_summary=\"none\"".to_string(),
        ]
    );
}
