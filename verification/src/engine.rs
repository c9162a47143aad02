//! Engines: the pluggable capability that builds an external command's
//! arguments and parses its output. Two concrete engines exist; the run
//! loop treats them interchangeably. Spawning the process and probing its
//! availability happen outside the library.

use vstd::prelude::*;

use crate::analyzer::{
    spec_combined, spec_detect_error, spec_detect_progress_hint, spec_exit_signal,
    spec_indicator_count, spec_parser_session_keys, spec_session_of_lines, OutputAnalysis,
    OutputParser,
};
use crate::config::{ResumeMode, RunConfig, ThinkingMode};
use crate::text::{lower_seq, spec_lines};

verus! {

/// What one engine invocation produced: the captured streams, whether the
/// process exited successfully, and whether a deadline killed it.
#[derive(Clone, Debug)]
pub struct EngineRunResult {
    pub stdout: String,
    pub stderr: String,
    pub exit_ok: bool,
    pub timed_out: bool,
}

/// What one engine invocation needs: the working directory, the run
/// configuration, the optional iteration prompt, and the live-log path.
#[derive(Clone, Debug)]
pub struct EngineExecParams<'a> {
    pub cwd: &'a str,
    pub config: &'a RunConfig,
    pub prompt: Option<String>,
    pub live_log_path: &'a str,
}

/// The exec arguments of the first engine: an `exec` subcommand, the
/// configured exec arguments, resume-mode arguments with `--json`, and the
/// prompt as a trailing positional argument.
pub open spec fn spec_codex_exec_args(
    resume: ResumeMode,
    exec_args: Seq<Seq<char>>,
    prompt: Option<Seq<char>>,
) -> Seq<Seq<char>> {
    let base = seq!["exec"@] + exec_args + (match resume {
        ResumeMode::New => seq!["--json"@],
        ResumeMode::Explicit(id) => seq!["resume"@, id@, "--json"@],
        ResumeMode::Last => seq!["resume"@, "--last"@, "--json"@],
    });
    base + (match prompt {
        Some(p) => seq![p],
        None => Seq::<Seq<char>>::empty(),
    })
}

/// The exec arguments of the second engine: a `run` subcommand, the
/// configured exec arguments, `--json`, a reasoning-suppression flag when
/// thinking is off, and the prompt behind an explicit `--prompt` flag.
pub open spec fn spec_opencode_exec_args(
    thinking: ThinkingMode,
    exec_args: Seq<Seq<char>>,
    prompt: Option<Seq<char>>,
) -> Seq<Seq<char>> {
    let base = seq!["run"@] + exec_args + seq!["--json"@] + (if thinking == ThinkingMode::Off {
        seq!["--config"@, "hide_agent_reasoning=true"@]
    } else {
        Seq::<Seq<char>>::empty()
    });
    base + (match prompt {
        Some(p) => seq!["--prompt"@, p],
        None => Seq::<Seq<char>>::empty(),
    })
}

/// The view of an optional prompt.
pub open spec fn spec_prompt_view(p: Option<String>) -> Option<Seq<char>> {
    match p {
        Some(s) => Some(s@),
        None => None,
    }
}

/// A pluggable engine: a name, an argument builder, and an output parser.
pub trait Engine {
    /// The engine's full command arguments for one invocation.
    spec fn spec_args(&self, params: EngineExecParams<'_>) -> Seq<Seq<char>>;

    /// The engine's name.
    fn name(&self) -> (r: &'static str);

    /// Build the full argument list for one invocation: the configured
    /// pre-args, then the engine-specific exec arguments.
    fn build_args(&self, params: &EngineExecParams<'_>) -> (r: Vec<String>)
        ensures
            r.deep_view() == self.spec_args(*params),
    ;

    /// Classify one invocation's output.
    fn parse_output(&self, stdout: &str, stderr: &str, indicators: &Vec<String>) -> (r:
        OutputAnalysis)
        requires
            indicators@.len() <= u32::MAX,
        ensures
            r.exit_signal_true == spec_exit_signal(stdout@, stderr@),
            r.has_error == spec_detect_error(lower_seq(spec_combined(stdout@, stderr@))),
            r.has_progress_hint == spec_detect_progress_hint(
                lower_seq(spec_combined(stdout@, stderr@)),
            ),
            r.completion_indicators as nat == spec_indicator_count(
                stdout@,
                stderr@,
                indicators.deep_view(),
            ),
            (match r.session_id {
                Some(s) => spec_session_of_lines(
                    spec_lines(stdout@),
                    spec_parser_session_keys(),
                ) == Some(s@),
                None => spec_session_of_lines(spec_lines(stdout@), spec_parser_session_keys())
                    is None,
            }),
    {
        OutputParser::parse(stdout, stderr, indicators)
    }
}

/// The first engine, which resumes prior sessions through `resume`
/// sub-arguments and passes the prompt positionally.
pub struct CodexEngine;

/// The second engine, which always starts fresh, suppresses reasoning when
/// thinking is off, and passes the prompt behind a flag.
pub struct OpenCodeEngine;

impl CodexEngine {
    /// The engine-specific exec arguments.
    pub fn build_exec_args(&self, params: &EngineExecParams<'_>) -> (r: Vec<String>)
        ensures
            r.deep_view() == spec_codex_exec_args(
                params.config.resume_mode,
                params.config.engine_exec_args.deep_view(),
                spec_prompt_view(params.prompt),
            ),
    {
        let mut args: Vec<String> = Vec::new();
        args.push(String::from_str("exec"));
        let mut i: usize = 0;
        while i < params.config.engine_exec_args.len()
            invariant
                i <= params.config.engine_exec_args@.len(),
                args.deep_view() =~~= seq!["exec"@]
                    + params.config.engine_exec_args.deep_view().subrange(0, i as int),
            decreases params.config.engine_exec_args@.len() - i,
        {
            let ghost before = args.deep_view();
            args.push(params.config.engine_exec_args[i].clone());
            proof {
                assert(args.deep_view() =~~= before.push(
                    params.config.engine_exec_args@[i as int]@,
                ));
                assert(args.deep_view() =~~= seq!["exec"@]
                    + params.config.engine_exec_args.deep_view().subrange(0, i + 1 as int));
            }
            i = i + 1;
        }
        proof {
            assert(params.config.engine_exec_args.deep_view().subrange(
                0,
                params.config.engine_exec_args@.len() as int,
            ) =~~= params.config.engine_exec_args.deep_view());
        }
        match &params.config.resume_mode {
            ResumeMode::New => {
                args.push(String::from_str("--json"));
            },
            ResumeMode::Explicit(id) => {
                args.push(String::from_str("resume"));
                args.push(id.clone());
                args.push(String::from_str("--json"));
            },
            ResumeMode::Last => {
                args.push(String::from_str("resume"));
                args.push(String::from_str("--last"));
                args.push(String::from_str("--json"));
            },
        }
        match &params.prompt {
            Some(p) => {
                args.push(p.clone());
            },
            None => {},
        }
        proof {
            assert(args.deep_view() =~~= spec_codex_exec_args(
                params.config.resume_mode,
                params.config.engine_exec_args.deep_view(),
                spec_prompt_view(params.prompt),
            ));
        }
        args
    }
}

impl OpenCodeEngine {
    /// The engine-specific exec arguments.
    pub fn build_exec_args(&self, params: &EngineExecParams<'_>) -> (r: Vec<String>)
        ensures
            r.deep_view() == spec_opencode_exec_args(
                params.config.thinking_mode,
                params.config.engine_exec_args.deep_view(),
                spec_prompt_view(params.prompt),
            ),
    {
        let mut args: Vec<String> = Vec::new();
        args.push(String::from_str("run"));
        let mut i: usize = 0;
        while i < params.config.engine_exec_args.len()
            invariant
                i <= params.config.engine_exec_args@.len(),
                args.deep_view() =~~= seq!["run"@]
                    + params.config.engine_exec_args.deep_view().subrange(0, i as int),
            decreases params.config.engine_exec_args@.len() - i,
        {
            let ghost before = args.deep_view();
            args.push(params.config.engine_exec_args[i].clone());
            proof {
                assert(args.deep_view() =~~= before.push(
                    params.config.engine_exec_args@[i as int]@,
                ));
                assert(args.deep_view() =~~= seq!["run"@]
                    + params.config.engine_exec_args.deep_view().subrange(0, i + 1 as int));
            }
            i = i + 1;
        }
        proof {
            assert(params.config.engine_exec_args.deep_view().subrange(
                0,
                params.config.engine_exec_args@.len() as int,
            ) =~~= params.config.engine_exec_args.deep_view());
        }
        args.push(String::from_str("--json"));
        if matches!(params.config.thinking_mode, ThinkingMode::Off) {
            args.push(String::from_str("--config"));
            args.push(String::from_str("hide_agent_reasoning=true"));
        }
        match &params.prompt {
            Some(p) => {
                args.push(String::from_str("--prompt"));
                args.push(p.clone());
            },
            None => {},
        }
        proof {
            assert(args.deep_view() =~~= spec_opencode_exec_args(
                params.config.thinking_mode,
                params.config.engine_exec_args.deep_view(),
                spec_prompt_view(params.prompt),
            ));
        }
        args
    }
}

/// Prefix the configured pre-args to an exec argument list.
fn with_pre_args(pre: &Vec<String>, exec: Vec<String>) -> (r: Vec<String>)
    ensures
        r.deep_view() == pre.deep_view() + exec.deep_view(),
{
    let mut args: Vec<String> = Vec::new();
    let mut i: usize = 0;
    while i < pre.len()
        invariant
            i <= pre@.len(),
            args.deep_view() =~~= pre.deep_view().subrange(0, i as int),
        decreases pre@.len() - i,
    {
        let ghost before = args.deep_view();
        args.push(pre[i].clone());
        proof {
            assert(args.deep_view() =~~= before.push(pre@[i as int]@));
            assert(args.deep_view() =~~= pre.deep_view().subrange(0, i + 1 as int));
        }
        i = i + 1;
    }
    proof {
        assert(pre.deep_view().subrange(0, pre@.len() as int) =~~= pre.deep_view());
    }
    let mut j: usize = 0;
    while j < exec.len()
        invariant
            j <= exec@.len(),
            args.deep_view() =~~= pre.deep_view() + exec.deep_view().subrange(0, j as int),
        decreases exec@.len() - j,
    {
        let ghost before = args.deep_view();
        args.push(exec[j].clone());
        proof {
            assert(args.deep_view() =~~= before.push(exec@[j as int]@));
            assert(args.deep_view() =~~= pre.deep_view() + exec.deep_view().subrange(
                0,
                j + 1 as int,
            ));
        }
        j = j + 1;
    }
    proof {
        assert(exec.deep_view().subrange(0, exec@.len() as int) =~~= exec.deep_view());
    }
    args
}

impl Engine for CodexEngine {
    open spec fn spec_args(&self, params: EngineExecParams<'_>) -> Seq<Seq<char>> {
        params.config.engine_pre_args.deep_view() + spec_codex_exec_args(
            params.config.resume_mode,
            params.config.engine_exec_args.deep_view(),
            spec_prompt_view(params.prompt),
        )
    }

    fn name(&self) -> (r: &'static str) {
        "codex"
    }

    fn build_args(&self, params: &EngineExecParams<'_>) -> (r: Vec<String>) {
        let exec = self.build_exec_args(params);
        with_pre_args(&params.config.engine_pre_args, exec)
    }
}

impl Engine for OpenCodeEngine {
    open spec fn spec_args(&self, params: EngineExecParams<'_>) -> Seq<Seq<char>> {
        params.config.engine_pre_args.deep_view() + spec_opencode_exec_args(
            params.config.thinking_mode,
            params.config.engine_exec_args.deep_view(),
            spec_prompt_view(params.prompt),
        )
    }

    fn name(&self) -> (r: &'static str) {
        "opencode"
    }

    fn build_args(&self, params: &EngineExecParams<'_>) -> (r: Vec<String>) {
        let exec = self.build_exec_args(params);
        with_pre_args(&params.config.engine_pre_args, exec)
    }
}

/// One of the concrete engines, selected by configuration.
pub enum AnyEngine {
    Codex(CodexEngine),
    OpenCode(OpenCodeEngine),
}

impl Engine for AnyEngine {
    open spec fn spec_args(&self, params: EngineExecParams<'_>) -> Seq<Seq<char>> {
        match self {
            AnyEngine::Codex(e) => e.spec_args(params),
            AnyEngine::OpenCode(e) => e.spec_args(params),
        }
    }

    fn name(&self) -> (r: &'static str) {
        match self {
            AnyEngine::Codex(e) => e.name(),
            AnyEngine::OpenCode(e) => e.name(),
        }
    }

    fn build_args(&self, params: &EngineExecParams<'_>) -> (r: Vec<String>) {
        match self {
            AnyEngine::Codex(e) => e.build_args(params),
            AnyEngine::OpenCode(e) => e.build_args(params),
        }
    }
}

/// Select the engine for a configured kind.
pub fn create_engine(kind: crate::config::EngineKind) -> (r: AnyEngine)
    ensures
        kind == crate::config::EngineKind::Codex ==> r is Codex,
        kind == crate::config::EngineKind::OpenCode ==> r is OpenCode,
{
    match kind {
        crate::config::EngineKind::Codex => AnyEngine::Codex(CodexEngine),
        crate::config::EngineKind::OpenCode => AnyEngine::OpenCode(OpenCodeEngine),
    }
}

/// Relies on `std::time::SystemTime::now`: the current time, reported as
/// whole seconds since the Unix epoch, zero if the clock reads before it.
#[verifier::external_body]
pub fn epoch_now() -> u64 {
    std::time::SystemTime::now()
        .duration_since(std::time::UNIX_EPOCH)
        .unwrap_or(std::time::Duration::from_secs(0))
        .as_secs()
}

} // verus!
