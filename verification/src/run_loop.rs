//! The per-iteration decisions of the run loop: progress classification,
//! the dual completion gate, breaker feeding, status finalization and exit
//! codes. The loop driver performs the I/O around these and persists what
//! they produce.

use vstd::prelude::*;

use crate::analyzer::{spec_combined, spec_summarize, summarize_output, OutputAnalysis};
use crate::circuit_breaker::{spec_after_no_progress, spec_after_progress, CircuitBreaker};
use crate::text::{chars_of, contains_seq, contains_str, lower_seq, push_all, spec_trim, to_lower, trim_chars};
use crate::types::{CircuitBreakerState, CircuitState, ProgressSnapshot, RunStatus};

verus! {

/// Why a run returned.
#[derive(Clone, Copy, Debug, PartialEq, Eq, Structural)]
pub enum ExitReason {
    Completed,
    CircuitOpened,
    RateLimited,
    MaxLoopsReached,
}

/// What one run asks for: the working directory, the resolved
/// configuration, and the iteration budget.
#[derive(Clone, Debug)]
pub struct RunRequest {
    pub cwd: String,
    pub config: crate::config::RunConfig,
    pub max_loops: u64,
}

/// What one run produced: the termination reason, how many loops ran, and
/// the final persisted status.
#[derive(Debug)]
pub struct RunOutcome {
    pub reason: ExitReason,
    pub loops_executed: u64,
    pub status: RunStatus,
}

/// What the loop should do after one iteration was folded in.
#[derive(Clone, Copy, Debug, PartialEq, Eq, Structural)]
pub enum LoopDecision {
    Continue,
    Finish(ExitReason),
}

/// What the loop should do at the rate gate.
#[derive(Clone, Copy, Debug, PartialEq, Eq, Structural)]
pub enum RateGateAction {
    Proceed,
    WaitAndRetry,
    Stop,
}

/// The fixed silence window of the no-output watchdog, in seconds.
pub const NO_OUTPUT_WATCHDOG_SECS: u64 = 120;

/// The two deadlines of one engine invocation, in seconds: the wall-clock
/// timeout and the no-output watchdog. Both are disabled when the
/// configured timeout is zero, so long commands can run without forced
/// kills.
pub fn iteration_deadlines(timeout_minutes: u64) -> (r: (Option<u64>, Option<u64>))
    ensures
        timeout_minutes == 0 ==> r == (None::<u64>, None::<u64>),
        timeout_minutes != 0 ==> r.1 == Some(NO_OUTPUT_WATCHDOG_SECS) && r.0 == Some(
            (if timeout_minutes * 60 > u64::MAX {
                u64::MAX
            } else {
                (timeout_minutes * 60) as u64
            }),
        ),
{
    if timeout_minutes == 0 {
        (None, None)
    } else {
        let secs: u64 = if timeout_minutes > u64::MAX / 60 {
            u64::MAX
        } else {
            timeout_minutes * 60
        };
        proof {
            if timeout_minutes > u64::MAX as int / 60 {
                assert(timeout_minutes * 60 > u64::MAX) by (nonlinear_arith)
                    requires
                        timeout_minutes > u64::MAX as int / 60,
                ;
            }
        }
        (Some(secs), Some(NO_OUTPUT_WATCHDOG_SECS))
    }
}

/// The label of an iteration's end, appended to the live log.
pub fn end_state_label(timed_out: bool, exit_ok: bool) -> (r: &'static str)
    ensures
        timed_out ==> r@ == "timed_out"@,
        !timed_out && exit_ok ==> r@ == "completed"@,
        !timed_out && !exit_ok ==> r@ == "failed"@,
{
    if timed_out {
        "timed_out"
    } else if exit_ok {
        "completed"
    } else {
        "failed"
    }
}

/// The fallback completion marker: the combined text holds an explicit
/// status-complete or task-complete token, case-insensitively.
pub open spec fn spec_completion_fallback(stdout: Seq<char>, stderr: Seq<char>) -> bool {
    let lower = lower_seq(spec_combined(stdout, stderr));
    contains_seq(lower, "status: complete"@) || contains_seq(lower, "task_complete"@)
}

/// The dual completion gate: a run completes only when the exit signal was
/// seen and either an indicator matched or the fallback marker is present.
pub open spec fn spec_run_completed(
    exit_signal_true: bool,
    completion_indicators: u32,
    fallback_marker: bool,
) -> bool {
    exit_signal_true && (completion_indicators > 0 || fallback_marker)
}

/// An iteration counts as progress when the analyzer's hint fired, or the
/// process exited successfully with non-empty stdout.
pub open spec fn spec_has_progress(hint: bool, exit_ok: bool, stdout: Seq<char>) -> bool {
    hint || (exit_ok && spec_trim(stdout).len() != 0)
}

/// Detect the fallback completion marker in the captured text.
pub fn has_completion_fallback(stdout: &str, stderr: &str) -> (r: bool)
    ensures
        r == spec_completion_fallback(stdout@, stderr@),
{
    let sv = chars_of(stdout);
    let ev = chars_of(stderr);
    let mut text: Vec<char> = Vec::new();
    push_all(&mut text, &sv);
    text.push('\n');
    push_all(&mut text, &ev);
    proof {
        assert(text@ =~= spec_combined(stdout@, stderr@));
    }
    let lower = to_lower(&text);
    contains_str(&lower, "status: complete") || contains_str(&lower, "task_complete")
}

/// Evaluate the dual completion gate for one analyzed iteration.
pub fn is_run_complete(analysis: &OutputAnalysis, fallback_marker: bool) -> (r: bool)
    ensures
        r == spec_run_completed(
            analysis.exit_signal_true,
            analysis.completion_indicators,
            fallback_marker,
        ),
{
    analysis.exit_signal_true && (analysis.completion_indicators > 0 || fallback_marker)
}

/// Dual gate: both legs are required. An exit signal with no indicator and
/// no fallback marker never completes the run; an indicator or marker
/// without the exit signal never completes it; the two together always do.
pub proof fn lemma_dual_gate(exit_signal_true: bool, completion_indicators: u32, fallback: bool)
    ensures
        completion_indicators == 0 && !fallback ==> !spec_run_completed(
            exit_signal_true,
            completion_indicators,
            fallback,
        ),
        !exit_signal_true ==> !spec_run_completed(
            exit_signal_true,
            completion_indicators,
            fallback,
        ),
        exit_signal_true && (completion_indicators > 0 || fallback) ==> spec_run_completed(
            exit_signal_true,
            completion_indicators,
            fallback,
        ),
{
}

/// Decide the rate gate: proceed when admitted; when rejected, either wait
/// and retry the same loop iteration or stop the run, by configuration.
pub fn rate_gate(allowed: bool, auto_wait_on_rate_limit: bool) -> (r: RateGateAction)
    ensures
        allowed ==> r == RateGateAction::Proceed,
        !allowed && auto_wait_on_rate_limit ==> r == RateGateAction::WaitAndRetry,
        !allowed && !auto_wait_on_rate_limit ==> r == RateGateAction::Stop,
{
    if allowed {
        RateGateAction::Proceed
    } else if auto_wait_on_rate_limit {
        RateGateAction::WaitAndRetry
    } else {
        RateGateAction::Stop
    }
}

/// The process exit code that the CLI maps each termination reason to.
pub fn exit_code(reason: ExitReason) -> (r: i32)
    ensures
        reason == ExitReason::Completed ==> r == 0,
        reason == ExitReason::CircuitOpened ==> r == 2,
        reason == ExitReason::RateLimited ==> r == 3,
        reason == ExitReason::MaxLoopsReached ==> r == 4,
{
    match reason {
        ExitReason::Completed => 0,
        ExitReason::CircuitOpened => 2,
        ExitReason::RateLimited => 3,
        ExitReason::MaxLoopsReached => 4,
    }
}

/// The fresh status written at the start of a run: running, counters at
/// zero, the prior session id preserved for resumption.
pub fn initial_run_status(thinking_mode: &str, previous_session: Option<String>, now_epoch: u64)
    -> (r: RunStatus)
    ensures
        r.state@ == "running"@,
        r.thinking_mode@ == thinking_mode@,
        r.run_started_at_epoch == now_epoch,
        r.current_loop == 0,
        r.total_loops_executed == 0,
        r.last_error is None,
        r.completion_indicators == 0,
        !r.exit_signal_seen,
        r.session_id == previous_session,
        r.circuit_state == CircuitState::Closed,
        r.current_loop_started_at_epoch == 0,
        r.last_heartbeat_at_epoch == 0,
        r.updated_at_epoch == now_epoch,
{
    RunStatus {
        state: String::from_str("running"),
        thinking_mode: thinking_mode.to_owned(),
        run_started_at_epoch: now_epoch,
        current_loop: 0,
        total_loops_executed: 0,
        last_error: None,
        completion_indicators: 0,
        exit_signal_seen: false,
        session_id: previous_session,
        circuit_state: CircuitState::Closed,
        current_loop_started_at_epoch: 0,
        last_heartbeat_at_epoch: 0,
        updated_at_epoch: now_epoch,
    }
}

/// Finalize the run status on a terminal transition: set the state label,
/// zero the per-loop fields, and stamp the update time.
pub fn finalize_run_status(status: &mut RunStatus, state: &str, now_epoch: u64)
    ensures
        final(status).state@ == state@,
        final(status).current_loop == 0,
        final(status).current_loop_started_at_epoch == 0,
        final(status).last_heartbeat_at_epoch == 0,
        final(status).updated_at_epoch == now_epoch,
        final(status).thinking_mode == old(status).thinking_mode,
        final(status).run_started_at_epoch == old(status).run_started_at_epoch,
        final(status).total_loops_executed == old(status).total_loops_executed,
        final(status).last_error == old(status).last_error,
        final(status).completion_indicators == old(status).completion_indicators,
        final(status).exit_signal_seen == old(status).exit_signal_seen,
        final(status).session_id == old(status).session_id,
        final(status).circuit_state == old(status).circuit_state,
{
    status.state = state.to_owned();
    status.current_loop = 0;
    status.current_loop_started_at_epoch = 0;
    status.last_heartbeat_at_epoch = 0;
    status.updated_at_epoch = now_epoch;
}

/// Fold one executed iteration into the run's state: classify progress,
/// feed the circuit breaker, update the progress snapshot and the status,
/// and decide whether the loop continues. The completion gate is evaluated
/// before the breaker-open check, so genuine completion wins over an
/// incidental circuit trip in the final iteration.
pub fn apply_iteration(
    status: &mut RunStatus,
    progress: &mut ProgressSnapshot,
    circuit: &mut CircuitBreakerState,
    no_progress_limit: u32,
    analysis: &OutputAnalysis,
    exit_ok: bool,
    timed_out: bool,
    stdout: &str,
    stderr: &str,
    now_epoch: u64,
) -> (d: LoopDecision)
    requires
        old(status).total_loops_executed < u64::MAX,
        old(progress).loops_with_progress < u64::MAX,
        old(progress).loops_without_progress < u64::MAX,
        old(circuit).consecutive_no_progress < u32::MAX,
    ensures
        ({
            let has_progress = spec_has_progress(analysis.has_progress_hint, exit_ok, stdout@);
            let breaker_after = if has_progress {
                spec_after_progress(
                    CircuitBreaker { state: *old(circuit), no_progress_limit },
                )
            } else {
                spec_after_no_progress(
                    CircuitBreaker { state: *old(circuit), no_progress_limit },
                )
            };
            let completed = spec_run_completed(
                analysis.exit_signal_true,
                analysis.completion_indicators,
                spec_completion_fallback(stdout@, stderr@),
            );
            &&& *final(circuit) == breaker_after.state
            &&& final(progress).loops_with_progress == old(progress).loops_with_progress + (
            if has_progress {
                1 as int
            } else {
                0 as int
            })
            &&& final(progress).loops_without_progress == old(progress).loops_without_progress + (
            if has_progress {
                0 as int
            } else {
                1 as int
            })
            &&& final(progress).last_summary@ == spec_summarize(stdout@, stderr@)
            &&& final(progress).updated_at_epoch == now_epoch
            &&& final(status).total_loops_executed == old(status).total_loops_executed + 1
            &&& final(status).exit_signal_seen == analysis.exit_signal_true
            &&& final(status).completion_indicators == analysis.completion_indicators
            &&& (match final(status).last_error {
                Some(e) => (timed_out && e@ == "iteration timed out"@) || (!timed_out
                    && analysis.has_error && e@ == "error marker found in output"@),
                None => !timed_out && !analysis.has_error,
            })
            &&& final(status).circuit_state == final(circuit).state
            &&& final(status).updated_at_epoch == now_epoch
            &&& final(status).state == old(status).state
            &&& final(status).thinking_mode == old(status).thinking_mode
            &&& final(status).run_started_at_epoch == old(status).run_started_at_epoch
            &&& final(status).current_loop == old(status).current_loop
            &&& final(status).session_id == old(status).session_id
            &&& final(status).current_loop_started_at_epoch == old(
                status,
            ).current_loop_started_at_epoch
            &&& final(status).last_heartbeat_at_epoch == old(status).last_heartbeat_at_epoch
            &&& d == (if completed {
                LoopDecision::Finish(ExitReason::Completed)
            } else if final(circuit).state == CircuitState::Open {
                LoopDecision::Finish(ExitReason::CircuitOpened)
            } else {
                LoopDecision::Continue
            })
        }),
{
    let sv = chars_of(stdout);
    let trimmed = trim_chars(&sv);
    let has_progress = analysis.has_progress_hint || (exit_ok && trimmed.len() != 0);

    if has_progress {
        progress.loops_with_progress = progress.loops_with_progress + 1;
        circuit.consecutive_no_progress = 0;
        circuit.state = CircuitState::Closed;
    } else {
        progress.loops_without_progress = progress.loops_without_progress + 1;
        circuit.consecutive_no_progress = circuit.consecutive_no_progress + 1;
        circuit.state = if circuit.consecutive_no_progress >= no_progress_limit {
            CircuitState::Open
        } else {
            CircuitState::HalfOpen
        };
    }

    progress.last_summary = summarize_output(stdout, stderr);
    progress.updated_at_epoch = now_epoch;

    status.total_loops_executed = status.total_loops_executed + 1;
    status.exit_signal_seen = analysis.exit_signal_true;
    status.completion_indicators = analysis.completion_indicators;
    status.last_error = if timed_out {
        Some(String::from_str("iteration timed out"))
    } else if analysis.has_error {
        Some(String::from_str("error marker found in output"))
    } else {
        None
    };
    status.circuit_state = circuit.state;
    status.updated_at_epoch = now_epoch;

    let fallback = has_completion_fallback(stdout, stderr);
    if is_run_complete(analysis, fallback) {
        LoopDecision::Finish(ExitReason::Completed)
    } else if matches!(circuit.state, CircuitState::Open) {
        LoopDecision::Finish(ExitReason::CircuitOpened)
    } else {
        LoopDecision::Continue
    }
}

} // verus!
