use forge::config::{EngineKind, ResumeMode, RunConfig, ThinkingMode};
use forge::engine::{create_engine, CodexEngine, Engine, EngineExecParams, OpenCodeEngine};

fn config_with(pre: Vec<String>, exec: Vec<String>, resume: ResumeMode) -> RunConfig {
    RunConfig {
        engine: EngineKind::Codex,
        engine_cmd: "codex".to_string(),
        engine_pre_args: pre,
        engine_exec_args: exec,
        thinking_mode: ThinkingMode::Summary,
        max_calls_per_hour: 100,
        timeout_minutes: 15,
        runtime_dir: ".forge".to_string(),
        completion_indicators: vec!["STATUS: COMPLETE".to_string()],
        auto_wait_on_rate_limit: false,
        sleep_on_rate_limit_secs: 60,
        no_progress_limit: 3,
        resume_mode: resume,
    }
}

#[test]
fn parse_codex_output_detects_exit_signal() {
    let output = "EXIT_SIGNAL: true\nSTATUS: COMPLETE";
    let analysis =
        CodexEngine.parse_output(output, "", &vec!["STATUS: COMPLETE".to_string()]);
    assert!(analysis.exit_signal_true);
    assert_eq!(analysis.completion_indicators, 1);
}

#[test]
fn parse_opencode_output_detects_session_id() {
    let output = r#"{"type":"thread.started","thread_id":"abc123"}"#;
    let analysis = OpenCodeEngine.parse_output(output, "", &Vec::new());
    assert_eq!(analysis.session_id, Some("abc123".to_string()));
}

#[test]
fn codex_engine_name() {
    let engine = CodexEngine;
    assert_eq!(engine.name(), "codex");
}

#[test]
fn opencode_engine_name() {
    let engine = OpenCodeEngine;
    assert_eq!(engine.name(), "opencode");
}

#[test]
fn create_engine_returns_codex() {
    let engine = create_engine(EngineKind::Codex);
    assert_eq!(engine.name(), "codex");
}

#[test]
fn create_engine_returns_opencode() {
    let engine = create_engine(EngineKind::OpenCode);
    assert_eq!(engine.name(), "opencode");
}

#[test]
fn build_command_args_prepends_codex_pre_args() {
    let cfg = config_with(
        vec!["--sandbox".to_string(), "danger-full-access".to_string()],
        vec![],
        ResumeMode::New,
    );
    let params = EngineExecParams {
        cwd: ".",
        config: &cfg,
        prompt: None,
        live_log_path: "live.log",
    };

    let args = CodexEngine.build_args(&params);

    assert_eq!(args[0], "--sandbox");
    assert_eq!(args[1], "danger-full-access");
    assert_eq!(args[2], "exec");
    assert_eq!(args[3], "--json");
}

#[test]
fn build_command_args_includes_exec_args_after_exec() {
    let cfg = config_with(
        vec!["-s".to_string(), "danger-full-access".to_string()],
        vec!["--ephemeral".to_string()],
        ResumeMode::New,
    );
    let params = EngineExecParams {
        cwd: ".",
        config: &cfg,
        prompt: None,
        live_log_path: "live.log",
    };

    let args = CodexEngine.build_args(&params);
    assert_eq!(args[0], "-s");
    assert_eq!(args[1], "danger-full-access");
    assert_eq!(args[2], "exec");
    assert_eq!(args[3], "--ephemeral");
    assert_eq!(args[4], "--json");
}

#[test]
fn codex_resume_modes_shape_the_arguments() {
    let cfg = config_with(vec![], vec![], ResumeMode::Explicit("sess-1".to_string()));
    let params = EngineExecParams {
        cwd: ".",
        config: &cfg,
        prompt: Some("do the work".to_string()),
        live_log_path: "live.log",
    };
    let args = CodexEngine.build_args(&params);
    assert_eq!(args, vec!["exec", "resume", "sess-1", "--json", "do the work"]);

    let cfg = config_with(vec![], vec![], ResumeMode::Last);
    let params = EngineExecParams {
        cwd: ".",
        config: &cfg,
        prompt: None,
        live_log_path: "live.log",
    };
    let args = CodexEngine.build_args(&params);
    assert_eq!(args, vec!["exec", "resume", "--last", "--json"]);
}

#[test]
fn opencode_passes_prompt_behind_a_flag() {
    let mut cfg = config_with(vec![], vec![], ResumeMode::New);
    cfg.thinking_mode = ThinkingMode::Off;
    let params = EngineExecParams {
        cwd: ".",
        config: &cfg,
        prompt: Some("hello".to_string()),
        live_log_path: "live.log",
    };
    let args = OpenCodeEngine.build_args(&params);
    assert_eq!(
        args,
        vec![
            "run",
            "--json",
            "--config",
            "hide_agent_reasoning=true",
            "--prompt",
            "hello"
        ]
    );
}
