//! Run configuration: the immutable per-run settings, and the precedence
//! logic that resolves them from command-line overrides, environment text
//! and the configuration file. Reading the environment and the file happens
//! outside; this module gets their raw values and decides.

use vstd::prelude::*;

use crate::text::{
    chars_of, is_space, lower_seq, prepend_first, spec_split, spec_trim, split_chars, string_of,
    str_eq, to_lower, trim_chars,
};
use crate::num::{spec_parse_u32, spec_parse_u64, parse_u32_chars, parse_u64_chars};

verus! {

/// Which engine drives an iteration.
#[derive(Clone, Copy, Debug, PartialEq, Eq, Structural)]
pub enum EngineKind {
    Codex,
    OpenCode,
}

/// Whether a run starts a fresh session, resumes an explicit one, or
/// resumes the most recent one.
#[derive(Clone, Debug, PartialEq, Eq)]
pub enum ResumeMode {
    New,
    Explicit(String),
    Last,
}

/// How much of the engine's reasoning is surfaced.
#[derive(Clone, Copy, Debug, PartialEq, Eq, Structural)]
pub enum ThinkingMode {
    Off,
    Summary,
    Raw,
}

/// The label of a thinking mode.
pub open spec fn spec_thinking_label(m: ThinkingMode) -> Seq<char> {
    match m {
        ThinkingMode::Off => "off"@,
        ThinkingMode::Summary => "summary"@,
        ThinkingMode::Raw => "raw"@,
    }
}

/// The engine configuration flags that a thinking mode maps to.
pub open spec fn spec_codex_config_args(m: ThinkingMode) -> Seq<Seq<char>> {
    match m {
        ThinkingMode::Off => seq![
            "--config"@,
            "hide_agent_reasoning=true"@,
            "--config"@,
            "show_raw_agent_reasoning=false"@,
            "--config"@,
            "model_reasoning_summary=\"none\""@,
        ],
        ThinkingMode::Summary => seq![
            "--config"@,
            "hide_agent_reasoning=false"@,
            "--config"@,
            "show_raw_agent_reasoning=false"@,
            "--config"@,
            "model_reasoning_summary=\"concise\""@,
        ],
        ThinkingMode::Raw => seq![
            "--config"@,
            "hide_agent_reasoning=false"@,
            "--config"@,
            "show_raw_agent_reasoning=true"@,
            "--config"@,
            "model_reasoning_summary=\"detailed\""@,
        ],
    }
}

impl ThinkingMode {
    /// The mode's label.
    pub fn as_str(self) -> (r: &'static str)
        ensures
            r@ == spec_thinking_label(self),
    {
        match self {
            ThinkingMode::Off => "off",
            ThinkingMode::Summary => "summary",
            ThinkingMode::Raw => "raw",
        }
    }

    /// The verbosity flags passed to the engine for this mode.
    pub fn codex_config_args(self) -> (r: Vec<String>)
        ensures
            r.deep_view() == spec_codex_config_args(self),
    {
        let mut v: Vec<String> = Vec::new();
        match self {
            ThinkingMode::Off => {
                v.push(String::from_str("--config"));
                v.push(String::from_str("hide_agent_reasoning=true"));
                v.push(String::from_str("--config"));
                v.push(String::from_str("show_raw_agent_reasoning=false"));
                v.push(String::from_str("--config"));
                v.push(String::from_str("model_reasoning_summary=\"none\""));
            },
            ThinkingMode::Summary => {
                v.push(String::from_str("--config"));
                v.push(String::from_str("hide_agent_reasoning=false"));
                v.push(String::from_str("--config"));
                v.push(String::from_str("show_raw_agent_reasoning=false"));
                v.push(String::from_str("--config"));
                v.push(String::from_str("model_reasoning_summary=\"concise\""));
            },
            ThinkingMode::Raw => {
                v.push(String::from_str("--config"));
                v.push(String::from_str("hide_agent_reasoning=false"));
                v.push(String::from_str("--config"));
                v.push(String::from_str("show_raw_agent_reasoning=true"));
                v.push(String::from_str("--config"));
                v.push(String::from_str("model_reasoning_summary=\"detailed\""));
            },
        }
        proof {
            assert(v.deep_view() =~~= spec_codex_config_args(self));
        }
        v
    }
}

/// The immutable configuration of one run.
#[derive(Clone, Debug)]
pub struct RunConfig {
    pub engine: EngineKind,
    pub engine_cmd: String,
    pub engine_pre_args: Vec<String>,
    pub engine_exec_args: Vec<String>,
    pub thinking_mode: ThinkingMode,
    pub max_calls_per_hour: u32,
    pub timeout_minutes: u64,
    pub runtime_dir: String,
    pub completion_indicators: Vec<String>,
    pub auto_wait_on_rate_limit: bool,
    pub sleep_on_rate_limit_secs: u64,
    pub no_progress_limit: u32,
    pub resume_mode: ResumeMode,
}

/// Settings given on the command line, each overriding every other source.
#[derive(Clone, Debug, Default)]
pub struct CliOverrides {
    pub engine: Option<EngineKind>,
    pub engine_pre_args: Option<Vec<String>>,
    pub engine_exec_args: Option<Vec<String>>,
    pub thinking_mode: Option<ThinkingMode>,
    pub max_calls_per_hour: Option<u32>,
    pub timeout_minutes: Option<u64>,
    pub resume: Option<String>,
    pub resume_last: bool,
}

/// The raw environment text of each recognized variable, unparsed.
#[derive(Clone, Debug, Default)]
pub struct EnvSettings {
    pub engine_cmd: Option<String>,
    pub thinking_mode: Option<String>,
    pub pre_args: Option<String>,
    pub exec_args: Option<String>,
    pub max_calls_per_hour: Option<String>,
    pub timeout_minutes: Option<String>,
    pub runtime_dir: Option<String>,
    pub completion_indicators: Option<String>,
    pub auto_wait_on_rate_limit: Option<String>,
    pub sleep_on_rate_limit_secs: Option<String>,
    pub no_progress_limit: Option<String>,
}

/// The settings read from the configuration file, already typed.
#[derive(Clone, Debug, Default)]
pub struct FileSettings {
    pub engine: Option<EngineKind>,
    pub engine_cmd: Option<String>,
    pub engine_pre_args: Option<Vec<String>>,
    pub engine_exec_args: Option<Vec<String>>,
    pub thinking_mode: Option<ThinkingMode>,
    pub max_calls_per_hour: Option<u32>,
    pub timeout_minutes: Option<u64>,
    pub runtime_dir: Option<String>,
    pub completion_indicators: Option<Vec<String>>,
    pub auto_wait_on_rate_limit: Option<bool>,
    pub sleep_on_rate_limit_secs: Option<u64>,
    pub no_progress_limit: Option<u32>,
}

/// The one configuration error: a zero hourly budget would deny every call.
#[derive(Clone, Copy, Debug, PartialEq, Eq, Structural)]
pub enum ConfigError {
    ZeroMaxCallsPerHour,
}

impl ConfigError {
    /// A human-readable description of the error.
    pub fn message(self) -> (r: &'static str)
        ensures
            r@ == "max_calls_per_hour must be greater than 0"@,
    {
        "max_calls_per_hour must be greater than 0"
    }
}

/// The first settled value among three optional sources.
pub fn first_some<T>(a: Option<T>, b: Option<T>, c: Option<T>) -> (r: Option<T>)
    ensures
        r == (if a is Some {
            a
        } else if b is Some {
            b
        } else {
            c
        }),
{
    match a {
        Some(v) => Some(v),
        None => match b {
            Some(v) => Some(v),
            None => c,
        },
    }
}

/// What `FORGE_MAX_CALLS_PER_HOUR`-style text parses to: the decimal value,
/// or nothing when unparsable.
pub open spec fn spec_env_u32(t: Option<Seq<char>>) -> Option<u32> {
    match t {
        Some(s) => spec_parse_u32(s),
        None => None,
    }
}

/// Parse an environment integer, exactly as `str::parse::<u32>`.
pub fn env_u32(t: Option<&String>) -> (r: Option<u32>)
    ensures
        r == spec_env_u32(match t {
            Some(s) => Some(s@),
            None => None,
        }),
{
    match t {
        Some(s) => {
            let v = chars_of(s.as_str());
            parse_u32_chars(&v)
        },
        None => None,
    }
}

/// What 64-bit environment text parses to.
pub open spec fn spec_env_u64(t: Option<Seq<char>>) -> Option<u64> {
    match t {
        Some(s) => spec_parse_u64(s),
        None => None,
    }
}

/// Parse an environment integer, exactly as `str::parse::<u64>`.
pub fn env_u64(t: Option<&String>) -> (r: Option<u64>)
    ensures
        r == spec_env_u64(match t {
            Some(s) => Some(s@),
            None => None,
        }),
{
    match t {
        Some(s) => {
            let v = chars_of(s.as_str());
            parse_u64_chars(&v)
        },
        None => None,
    }
}

/// What boolean environment text means: the usual on/off spellings,
/// case-insensitively; anything else is no setting.
pub open spec fn spec_env_bool(t: Option<Seq<char>>) -> Option<bool> {
    match t {
        Some(s) => {
            let l = lower_seq(s);
            if l == "1"@ || l == "true"@ || l == "yes"@ || l == "on"@ {
                Some(true)
            } else if l == "0"@ || l == "false"@ || l == "no"@ || l == "off"@ {
                Some(false)
            } else {
                None
            }
        },
        None => None,
    }
}

/// Parse a boolean environment setting.
pub fn env_bool(t: Option<&String>) -> (r: Option<bool>)
    ensures
        r == spec_env_bool(match t {
            Some(s) => Some(s@),
            None => None,
        }),
{
    match t {
        Some(s) => {
            let v = chars_of(s.as_str());
            let l = string_of(&to_lower(&v));
            if str_eq(l.as_str(), "1") || str_eq(l.as_str(), "true") || str_eq(l.as_str(), "yes")
                || str_eq(l.as_str(), "on") {
                Some(true)
            } else if str_eq(l.as_str(), "0") || str_eq(l.as_str(), "false") || str_eq(
                l.as_str(),
                "no",
            ) || str_eq(l.as_str(), "off") {
                Some(false)
            } else {
                None
            }
        },
        None => None,
    }
}

/// What thinking-mode environment text means, case-insensitively.
pub open spec fn spec_env_thinking(t: Option<Seq<char>>) -> Option<ThinkingMode> {
    match t {
        Some(s) => {
            let l = lower_seq(spec_trim(s));
            if l == "off"@ {
                Some(ThinkingMode::Off)
            } else if l == "summary"@ {
                Some(ThinkingMode::Summary)
            } else if l == "raw"@ {
                Some(ThinkingMode::Raw)
            } else {
                None
            }
        },
        None => None,
    }
}

/// Parse a thinking-mode environment setting.
pub fn env_thinking_mode(t: Option<&String>) -> (r: Option<ThinkingMode>)
    ensures
        r == spec_env_thinking(match t {
            Some(s) => Some(s@),
            None => None,
        }),
{
    match t {
        Some(s) => {
            let v = chars_of(s.as_str());
            let l = string_of(&to_lower(&trim_chars(&v)));
            if str_eq(l.as_str(), "off") {
                Some(ThinkingMode::Off)
            } else if str_eq(l.as_str(), "summary") {
                Some(ThinkingMode::Summary)
            } else if str_eq(l.as_str(), "raw") {
                Some(ThinkingMode::Raw)
            } else {
                None
            }
        },
        None => None,
    }
}

/// The non-empty trimmed items of a comma-separated list, in order.
pub open spec fn spec_csv_items(segs: Seq<Seq<char>>) -> Seq<Seq<char>>
    decreases segs.len(),
{
    if segs.len() == 0 {
        Seq::<Seq<char>>::empty()
    } else {
        let t = spec_trim(segs[0]);
        (if t.len() > 0 {
            seq![t]
        } else {
            Seq::<Seq<char>>::empty()
        }) + spec_csv_items(segs.drop_first())
    }
}

/// What a comma-separated environment list yields: its non-empty trimmed
/// items, or no setting when none remain.
pub open spec fn spec_env_csv(t: Option<Seq<char>>) -> Option<Seq<Seq<char>>> {
    match t {
        Some(s) => {
            let items = spec_csv_items(spec_split(s, ','));
            if items.len() == 0 {
                None
            } else {
                Some(items)
            }
        },
        None => None,
    }
}

/// Parse a comma-separated environment list.
#[verifier::loop_isolation(false)]
pub fn env_csv(t: Option<&String>) -> (r: Option<Vec<String>>)
    ensures
        (match r {
            Some(items) => spec_env_csv(match t {
                Some(s) => Some(s@),
                None => None,
            }) == Some(items.deep_view()),
            None => spec_env_csv(match t {
                Some(s) => Some(s@),
                None => None,
            }) is None,
        }),
{
    match t {
        Some(s) => {
            let v = chars_of(s.as_str());
            let segs = split_chars(&v, ',');
            let ghost sseq = spec_split(s@, ',');
            let mut items: Vec<String> = Vec::new();
            let mut i: usize = 0;
            proof {
                assert(sseq.subrange(0, sseq.len() as int) =~~= sseq);
            }
            while i < segs.len()
                invariant
                    i <= segs@.len(),
                    segs.deep_view() == sseq,
                    items.deep_view() + spec_csv_items(
                        sseq.subrange(i as int, sseq.len() as int),
                    ) =~~= spec_csv_items(sseq),
                decreases segs@.len() - i,
            {
                let ghost rem = sseq.subrange(i as int, sseq.len() as int);
                proof {
                    assert(rem.drop_first() =~~= sseq.subrange(i + 1 as int, sseq.len() as int));
                    assert(rem[0] == sseq[i as int]);
                    assert(segs@[i as int]@ == segs.deep_view()[i as int]);
                }
                let trimmed = trim_chars(&segs[i]);
                if trimmed.len() > 0 {
                    let ghost before = items.deep_view();
                    items.push(string_of(&trimmed));
                    proof {
                        assert(items.deep_view() =~~= before.push(spec_trim(sseq[i as int])));
                    }
                }
                i = i + 1;
            }
            proof {
                assert(sseq.subrange(sseq.len() as int, sseq.len() as int) =~~= Seq::<
                    Seq<char>,
                >::empty());
            }
            if items.len() == 0 {
                None
            } else {
                Some(items)
            }
        },
        None => None,
    }
}

/// The maximal non-whitespace runs of a text, in order, as
/// `str::split_whitespace` yields them.
pub open spec fn spec_ws_split(s: Seq<char>) -> Seq<Seq<char>>
    decreases s.len(),
{
    if s.len() == 0 {
        Seq::<Seq<char>>::empty()
    } else if is_space(s[0]) {
        spec_ws_split(s.drop_first())
    } else if s.len() >= 2 && !is_space(s[1]) {
        prepend_first(seq![s[0]], spec_ws_split(s.drop_first()))
    } else {
        seq![seq![s[0]]] + spec_ws_split(s.drop_first())
    }
}

/// A text starting with a non-space character splits into at least one run.
proof fn lemma_ws_split_nonempty(s: Seq<char>)
    requires
        s.len() > 0,
        !is_space(s[0]),
    ensures
        spec_ws_split(s).len() >= 1,
    decreases s.len(),
{
    if s.len() >= 2 && !is_space(s[1]) {
        lemma_ws_split_nonempty(s.drop_first());
    }
}

/// Split a text at whitespace runs.
#[verifier::loop_isolation(false)]
pub fn ws_split(s: &str) -> (r: Vec<String>)
    ensures
        r.deep_view() == spec_ws_split(s@),
{
    let v = chars_of(s);
    let mut done: Vec<String> = Vec::new();
    let mut cur: Vec<char> = Vec::new();
    let mut i: usize = 0;
    proof {
        assert(v@.subrange(0, v@.len() as int) =~= s@);
    }
    while i < v.len()
        invariant
            i <= v@.len(),
            v@ == s@,
            ({
                let rem = v@.subrange(i as int, v@.len() as int);
                let tail = if cur@.len() == 0 {
                    spec_ws_split(rem)
                } else if rem.len() > 0 && !is_space(rem[0]) {
                    prepend_first(cur@, spec_ws_split(rem))
                } else {
                    seq![cur@] + spec_ws_split(rem)
                };
                spec_ws_split(s@) =~~= done.deep_view() + tail
            }),
        decreases v@.len() - i,
    {
        let ghost rem = v@.subrange(i as int, v@.len() as int);
        let ghost rem2 = v@.subrange(i + 1 as int, v@.len() as int);
        proof {
            assert(rem.drop_first() =~= rem2);
            assert(rem[0] == v@[i as int]);
            if i + 1 < v@.len() {
                assert(rem[1] == v@[i + 1]);
                assert(rem2[0] == v@[i + 1]);
            }
        }
        let c = v[i];
        if crate::text::is_space_char(c) {
            if cur.len() > 0 {
                let ghost before = done.deep_view();
                let ghost old_cur = cur@;
                done.push(string_of(&cur));
                cur = Vec::new();
                proof {
                    assert(done.deep_view() =~~= before.push(old_cur));
                }
            }
        } else {
            let ghost rest_split = spec_ws_split(rem2);
            proof {
                if i + 1 < v@.len() && !is_space(v@[i + 1]) {
                    lemma_ws_split_nonempty(rem2);
                    assert(spec_ws_split(rem) == prepend_first(seq![c], rest_split));
                    if cur@.len() > 0 {
                        assert(prepend_first(cur@, prepend_first(seq![c], rest_split))
                            =~~= prepend_first(cur@.push(c), rest_split));
                    } else {
                        assert(prepend_first(seq![c], rest_split) =~~= prepend_first(
                            cur@.push(c),
                            rest_split,
                        ));
                    }
                } else {
                    assert(spec_ws_split(rem) == seq![seq![c]] + rest_split);
                    if cur@.len() > 0 {
                        assert(prepend_first(cur@, seq![seq![c]] + rest_split) =~~= seq![
                            cur@.push(c),
                        ] + rest_split);
                    } else {
                        assert(seq![seq![c]] + rest_split =~~= seq![cur@.push(c)] + rest_split);
                    }
                }
            }
            cur.push(c);
        }
        i = i + 1;
    }
    proof {
        let rem = v@.subrange(v@.len() as int, v@.len() as int);
        assert(rem =~= Seq::<char>::empty());
    }
    if cur.len() > 0 {
        let ghost before = done.deep_view();
        let ghost old_cur = cur@;
        done.push(string_of(&cur));
        proof {
            assert(done.deep_view() =~~= before.push(old_cur));
            assert(done.deep_view() =~~= spec_ws_split(s@));
        }
    } else {
        proof {
            assert(done.deep_view() =~~= spec_ws_split(s@));
        }
    }
    done
}

/// What a whitespace-separated argument list yields: its runs, or no
/// setting when there are none.
pub open spec fn spec_env_args(t: Option<Seq<char>>) -> Option<Seq<Seq<char>>> {
    match t {
        Some(s) => {
            let args = spec_ws_split(s);
            if args.len() == 0 {
                None
            } else {
                Some(args)
            }
        },
        None => None,
    }
}

/// Parse a whitespace-separated argument list from the environment.
pub fn env_whitespace_args(t: Option<&String>) -> (r: Option<Vec<String>>)
    ensures
        (match r {
            Some(args) => spec_env_args(match t {
                Some(s) => Some(s@),
                None => None,
            }) == Some(args.deep_view()),
            None => spec_env_args(match t {
                Some(s) => Some(s@),
                None => None,
            }) is None,
        }),
{
    match t {
        Some(s) => {
            let args = ws_split(s.as_str());
            if args.len() == 0 {
                None
            } else {
                Some(args)
            }
        },
        None => None,
    }
}

/// The option's content as text.
pub open spec fn view_opt_string(o: Option<String>) -> Option<Seq<char>> {
    match o {
        Some(s) => Some(s@),
        None => None,
    }
}

/// The option's content as a list of texts.
pub open spec fn deep_view_opt(o: Option<Vec<String>>) -> Option<Seq<Seq<char>>> {
    match o {
        Some(v) => Some(v.deep_view()),
        None => None,
    }
}

/// Precedence: the first settled source wins, else the default.
pub open spec fn spec_pick<T>(a: Option<T>, b: Option<T>, c: Option<T>, d: T) -> T {
    if a is Some {
        a->0
    } else if b is Some {
        b->0
    } else if c is Some {
        c->0
    } else {
        d
    }
}

/// Copy a list of strings.
fn clone_strings(v: &Vec<String>) -> (r: Vec<String>)
    ensures
        r@ == v@,
{
    let mut r: Vec<String> = Vec::new();
    let mut i: usize = 0;
    while i < v.len()
        invariant
            i <= v@.len(),
            r@ == v@.subrange(0, i as int),
        decreases v@.len() - i,
    {
        r.push(v[i].clone());
        proof {
            assert(r@ =~= v@.subrange(0, i + 1 as int));
        }
        i = i + 1;
    }
    proof {
        assert(r@ =~= v@);
    }
    r
}

/// The default completion indicators.
fn default_indicators() -> (r: Vec<String>)
    ensures
        r.deep_view() =~~= seq![
            "STATUS: COMPLETE"@,
            "TASK_COMPLETE"@,
            "NO_MORE_WORK"@,
            "ALL_TASKS_DONE"@,
        ],
{
    let mut v: Vec<String> = Vec::new();
    v.push(String::from_str("STATUS: COMPLETE"));
    v.push(String::from_str("TASK_COMPLETE"));
    v.push(String::from_str("NO_MORE_WORK"));
    v.push(String::from_str("ALL_TASKS_DONE"));
    proof {
        assert(v.deep_view() =~~= seq![
            "STATUS: COMPLETE"@,
            "TASK_COMPLETE"@,
            "NO_MORE_WORK"@,
            "ALL_TASKS_DONE"@,
        ]);
    }
    v
}

/// Resolve the run configuration. Every setting follows the same
/// precedence: a command-line override first, then the environment, then
/// the configuration file, then the built-in default; the thinking-mode
/// verbosity flags are appended to the chosen pre-args; a zero hourly call
/// budget is rejected here, before any run starts.
pub fn load_run_config(overrides: &CliOverrides, env: &EnvSettings, file: &FileSettings) -> (r:
    Result<RunConfig, ConfigError>)
    ensures
        ({
            let max_calls = spec_pick(
                overrides.max_calls_per_hour,
                spec_env_u32(view_opt_string(env.max_calls_per_hour)),
                file.max_calls_per_hour,
                100,
            );
            &&& (r is Err <==> max_calls == 0)
            &&& (r matches Err(e) ==> e == ConfigError::ZeroMaxCallsPerHour)
            &&& (r matches Ok(c) ==> {
                let thinking = spec_pick(
                    overrides.thinking_mode,
                    spec_env_thinking(view_opt_string(env.thinking_mode)),
                    file.thinking_mode,
                    ThinkingMode::Summary,
                );
                &&& c.engine == (match overrides.engine {
                    Some(e) => e,
                    None => match file.engine {
                        Some(e) => e,
                        None => EngineKind::Codex,
                    },
                })
                &&& c.engine_cmd@ == spec_pick(
                    view_opt_string(env.engine_cmd),
                    view_opt_string(file.engine_cmd),
                    None,
                    "codex"@,
                )
                &&& c.thinking_mode == thinking
                &&& c.engine_pre_args.deep_view() == spec_pick(
                    deep_view_opt(overrides.engine_pre_args),
                    spec_env_args(view_opt_string(env.pre_args)),
                    deep_view_opt(file.engine_pre_args),
                    Seq::<Seq<char>>::empty(),
                ) + spec_codex_config_args(thinking)
                &&& c.engine_exec_args.deep_view() == spec_pick(
                    deep_view_opt(overrides.engine_exec_args),
                    spec_env_args(view_opt_string(env.exec_args)),
                    deep_view_opt(file.engine_exec_args),
                    Seq::<Seq<char>>::empty(),
                )
                &&& c.max_calls_per_hour == max_calls
                &&& c.timeout_minutes == spec_pick(
                    overrides.timeout_minutes,
                    spec_env_u64(view_opt_string(env.timeout_minutes)),
                    file.timeout_minutes,
                    15,
                )
                &&& c.runtime_dir@ == spec_pick(
                    view_opt_string(env.runtime_dir),
                    view_opt_string(file.runtime_dir),
                    None,
                    ".forge"@,
                )
                &&& c.completion_indicators.deep_view() == spec_pick(
                    spec_env_csv(view_opt_string(env.completion_indicators)),
                    deep_view_opt(file.completion_indicators),
                    None,
                    seq!["STATUS: COMPLETE"@, "TASK_COMPLETE"@, "NO_MORE_WORK"@, "ALL_TASKS_DONE"@],
                )
                &&& c.auto_wait_on_rate_limit == spec_pick(
                    spec_env_bool(view_opt_string(env.auto_wait_on_rate_limit)),
                    file.auto_wait_on_rate_limit,
                    None,
                    false,
                )
                &&& c.sleep_on_rate_limit_secs == spec_pick(
                    spec_env_u64(view_opt_string(env.sleep_on_rate_limit_secs)),
                    file.sleep_on_rate_limit_secs,
                    None,
                    60,
                )
                &&& c.no_progress_limit == spec_pick(
                    spec_env_u32(view_opt_string(env.no_progress_limit)),
                    file.no_progress_limit,
                    None,
                    3,
                )
                &&& c.resume_mode == (match overrides.resume {
                    Some(id) => ResumeMode::Explicit(id),
                    None => if overrides.resume_last {
                        ResumeMode::Last
                    } else {
                        ResumeMode::New
                    },
                })
            })
        }),
{
    let resume_mode = match &overrides.resume {
        Some(id) => ResumeMode::Explicit(id.clone()),
        None => {
            if overrides.resume_last {
                ResumeMode::Last
            } else {
                ResumeMode::New
            }
        },
    };

    let engine = match (overrides.engine, file.engine) {
        (Some(e), _) => e,
        (None, Some(e)) => e,
        (None, None) => EngineKind::Codex,
    };

    let engine_cmd = match (&env.engine_cmd, &file.engine_cmd) {
        (Some(s), _) => s.clone(),
        (None, Some(s)) => s.clone(),
        (None, None) => String::from_str("codex"),
    };

    let thinking_mode = match (overrides.thinking_mode, env_thinking_mode(env.thinking_mode.as_ref()), file.thinking_mode) {
        (Some(m), _, _) => m,
        (None, Some(m), _) => m,
        (None, None, Some(m)) => m,
        (None, None, None) => ThinkingMode::Summary,
    };

    let mut engine_pre_args = match (&overrides.engine_pre_args, env_whitespace_args(env.pre_args.as_ref()), &file.engine_pre_args) {
        (Some(a), _, _) => clone_strings(a),
        (None, Some(a), _) => a,
        (None, None, Some(a)) => clone_strings(a),
        (None, None, None) => Vec::new(),
    };
    let ghost chosen_pre = engine_pre_args.deep_view();
    let config_args = thinking_mode.codex_config_args();
    let mut j: usize = 0;
    while j < config_args.len()
        invariant
            j <= config_args@.len(),
            engine_pre_args.deep_view() =~~= chosen_pre + config_args.deep_view().subrange(
                0,
                j as int,
            ),
        decreases config_args@.len() - j,
    {
        let ghost before = engine_pre_args.deep_view();
        engine_pre_args.push(config_args[j].clone());
        proof {
            assert(engine_pre_args.deep_view() =~~= before.push(config_args@[j as int]@));
            assert(config_args.deep_view()[j as int] == config_args@[j as int]@);
            assert(config_args.deep_view().subrange(0, j + 1 as int) =~~= config_args.deep_view()
                .subrange(0, j as int).push(config_args.deep_view()[j as int]));
            assert(engine_pre_args.deep_view() =~~= chosen_pre
                + config_args.deep_view().subrange(0, j + 1 as int));
        }
        j = j + 1;
    }
    proof {
        assert(config_args.deep_view().subrange(0, config_args@.len() as int)
            =~~= config_args.deep_view());
        assert(engine_pre_args.deep_view() =~~= chosen_pre + spec_codex_config_args(
            thinking_mode,
        ));
    }

    let engine_exec_args = match (&overrides.engine_exec_args, env_whitespace_args(env.exec_args.as_ref()), &file.engine_exec_args) {
        (Some(a), _, _) => clone_strings(a),
        (None, Some(a), _) => a,
        (None, None, Some(a)) => clone_strings(a),
        (None, None, None) => Vec::new(),
    };

    let max_calls_per_hour: u32 = match (overrides.max_calls_per_hour, env_u32(env.max_calls_per_hour.as_ref()), file.max_calls_per_hour) {
        (Some(n), _, _) => n,
        (None, Some(n), _) => n,
        (None, None, Some(n)) => n,
        (None, None, None) => 100,
    };

    let timeout_minutes: u64 = match (overrides.timeout_minutes, env_u64(env.timeout_minutes.as_ref()), file.timeout_minutes) {
        (Some(n), _, _) => n,
        (None, Some(n), _) => n,
        (None, None, Some(n)) => n,
        (None, None, None) => 15,
    };

    let runtime_dir = match (&env.runtime_dir, &file.runtime_dir) {
        (Some(s), _) => s.clone(),
        (None, Some(s)) => s.clone(),
        (None, None) => String::from_str(".forge"),
    };

    let completion_indicators = match (env_csv(env.completion_indicators.as_ref()), &file.completion_indicators) {
        (Some(a), _) => a,
        (None, Some(a)) => clone_strings(a),
        (None, None) => default_indicators(),
    };

    let auto_wait_on_rate_limit: bool = match (env_bool(env.auto_wait_on_rate_limit.as_ref()), file.auto_wait_on_rate_limit) {
        (Some(b), _) => b,
        (None, Some(b)) => b,
        (None, None) => false,
    };

    let sleep_on_rate_limit_secs: u64 = match (env_u64(env.sleep_on_rate_limit_secs.as_ref()), file.sleep_on_rate_limit_secs) {
        (Some(n), _) => n,
        (None, Some(n)) => n,
        (None, None) => 60,
    };

    let no_progress_limit: u32 = match (env_u32(env.no_progress_limit.as_ref()), file.no_progress_limit) {
        (Some(n), _) => n,
        (None, Some(n)) => n,
        (None, None) => 3,
    };

    if max_calls_per_hour == 0 {
        return Err(ConfigError::ZeroMaxCallsPerHour);
    }

    Ok(
        RunConfig {
            engine,
            engine_cmd,
            engine_pre_args,
            engine_exec_args,
            thinking_mode,
            max_calls_per_hour,
            timeout_minutes,
            runtime_dir,
            completion_indicators,
            auto_wait_on_rate_limit,
            sleep_on_rate_limit_secs,
            no_progress_limit,
            resume_mode,
        },
    )
}

} // verus!
