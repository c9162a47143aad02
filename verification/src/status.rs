//! Status and progress store: the JSON trees persisted as `status.json` and
//! `progress.json`, their decoding with per-field defaults, and the
//! stale-runner detection that heals a `running` status whose owning
//! process is gone.

use vstd::prelude::*;

use crate::json::{
    emit_json, json_as_str, json_get, parse_json_line, parsed_json, spec_emit_json, spec_json_get,
    JsonValue,
};
use crate::num::{spec_parse_i32, spec_u64_digits, parse_i32_chars};
use crate::text::{chars_of, spec_trim, str_eq, trim_chars};
use crate::types::{CircuitBreakerState, CircuitState, ProgressSnapshot, RunStatus};

verus! {

/// The persisted content of a run status, field by field, at the level of
/// character sequences and scalars.
pub ghost struct RunStatusView {
    pub state: Seq<char>,
    pub thinking_mode: Seq<char>,
    pub run_started_at_epoch: u64,
    pub current_loop: u64,
    pub total_loops_executed: u64,
    pub last_error: Option<Seq<char>>,
    pub completion_indicators: u32,
    pub exit_signal_seen: bool,
    pub session_id: Option<Seq<char>>,
    pub circuit_state: CircuitState,
    pub current_loop_started_at_epoch: u64,
    pub last_heartbeat_at_epoch: u64,
    pub updated_at_epoch: u64,
}

/// The view of a status value.
pub open spec fn spec_status_view(s: RunStatus) -> RunStatusView {
    RunStatusView {
        state: s.state@,
        thinking_mode: s.thinking_mode@,
        run_started_at_epoch: s.run_started_at_epoch,
        current_loop: s.current_loop,
        total_loops_executed: s.total_loops_executed,
        last_error: match s.last_error {
            Some(e) => Some(e@),
            None => None,
        },
        completion_indicators: s.completion_indicators,
        exit_signal_seen: s.exit_signal_seen,
        session_id: match s.session_id {
            Some(i) => Some(i@),
            None => None,
        },
        circuit_state: s.circuit_state,
        current_loop_started_at_epoch: s.current_loop_started_at_epoch,
        last_heartbeat_at_epoch: s.last_heartbeat_at_epoch,
        updated_at_epoch: s.updated_at_epoch,
    }
}

/// The persisted content of a progress snapshot.
pub ghost struct ProgressView {
    pub loops_with_progress: u64,
    pub loops_without_progress: u64,
    pub last_summary: Seq<char>,
    pub updated_at_epoch: u64,
}

/// The view of a progress value.
pub open spec fn spec_progress_view(p: ProgressSnapshot) -> ProgressView {
    ProgressView {
        loops_with_progress: p.loops_with_progress,
        loops_without_progress: p.loops_without_progress,
        last_summary: p.last_summary@,
        updated_at_epoch: p.updated_at_epoch,
    }
}

/// The label under which a circuit state is persisted.
pub open spec fn spec_circuit_label(cs: CircuitState) -> Seq<char> {
    match cs {
        CircuitState::Closed => "closed"@,
        CircuitState::HalfOpen => "half_open"@,
        CircuitState::Open => "open"@,
    }
}

/// The label under which a circuit state is persisted.
pub fn circuit_label(cs: CircuitState) -> (r: &'static str)
    ensures
        r@ == spec_circuit_label(cs),
{
    match cs {
        CircuitState::Closed => "closed",
        CircuitState::HalfOpen => "half_open",
        CircuitState::Open => "open",
    }
}

/// A JSON tree carrying one optional string: the string itself or null.
pub open spec fn spec_opt_str_tree(v: JsonValue, content: Option<Seq<char>>) -> bool {
    match content {
        Some(s) => v matches JsonValue::Str(t) && t@ == s,
        None => v is Null,
    }
}

/// The tree persisted for a run status: one object, every field present,
/// in declaration order.
pub open spec fn spec_is_status_tree(v: JsonValue, st: RunStatusView) -> bool {
    &&& v matches JsonValue::Obj(fields)
    &&& fields@.len() == 13
    &&& fields@[0].0@ == "state"@ && (fields@[0].1 matches JsonValue::Str(s) && s@ == st.state)
    &&& fields@[1].0@ == "thinking_mode"@ && (fields@[1].1 matches JsonValue::Str(s) && s@
        == st.thinking_mode)
    &&& fields@[2].0@ == "run_started_at_epoch"@ && fields@[2].1 == JsonValue::UInt(
        st.run_started_at_epoch,
    )
    &&& fields@[3].0@ == "current_loop"@ && fields@[3].1 == JsonValue::UInt(st.current_loop)
    &&& fields@[4].0@ == "total_loops_executed"@ && fields@[4].1 == JsonValue::UInt(
        st.total_loops_executed,
    )
    &&& fields@[5].0@ == "last_error"@ && spec_opt_str_tree(fields@[5].1, st.last_error)
    &&& fields@[6].0@ == "completion_indicators"@ && fields@[6].1 == JsonValue::UInt(
        st.completion_indicators as u64,
    )
    &&& fields@[7].0@ == "exit_signal_seen"@ && fields@[7].1 == JsonValue::Bool(
        st.exit_signal_seen,
    )
    &&& fields@[8].0@ == "session_id"@ && spec_opt_str_tree(fields@[8].1, st.session_id)
    &&& fields@[9].0@ == "circuit_state"@ && (fields@[9].1 matches JsonValue::Str(s) && s@
        == spec_circuit_label(st.circuit_state))
    &&& fields@[10].0@ == "current_loop_started_at_epoch"@ && fields@[10].1 == JsonValue::UInt(
        st.current_loop_started_at_epoch,
    )
    &&& fields@[11].0@ == "last_heartbeat_at_epoch"@ && fields@[11].1 == JsonValue::UInt(
        st.last_heartbeat_at_epoch,
    )
    &&& fields@[12].0@ == "updated_at_epoch"@ && fields@[12].1 == JsonValue::UInt(
        st.updated_at_epoch,
    )
}

/// The tree persisted for a progress snapshot.
pub open spec fn spec_is_progress_tree(v: JsonValue, p: ProgressView) -> bool {
    &&& v matches JsonValue::Obj(fields)
    &&& fields@.len() == 4
    &&& fields@[0].0@ == "loops_with_progress"@ && fields@[0].1 == JsonValue::UInt(
        p.loops_with_progress,
    )
    &&& fields@[1].0@ == "loops_without_progress"@ && fields@[1].1 == JsonValue::UInt(
        p.loops_without_progress,
    )
    &&& fields@[2].0@ == "last_summary"@ && (fields@[2].1 matches JsonValue::Str(s) && s@
        == p.last_summary)
    &&& fields@[3].0@ == "updated_at_epoch"@ && fields@[3].1 == JsonValue::UInt(p.updated_at_epoch)
}

/// The tree persisted for a circuit-breaker state.
pub open spec fn spec_is_circuit_tree(v: JsonValue, cs: CircuitBreakerState) -> bool {
    &&& v matches JsonValue::Obj(fields)
    &&& fields@.len() == 2
    &&& fields@[0].0@ == "state"@ && (fields@[0].1 matches JsonValue::Str(s) && s@
        == spec_circuit_label(cs.state))
    &&& fields@[1].0@ == "consecutive_no_progress"@ && fields@[1].1 == JsonValue::UInt(
        cs.consecutive_no_progress as u64,
    )
}

/// One optional-string tree node.
fn opt_str_tree(content: &Option<String>) -> (r: JsonValue)
    ensures
        spec_opt_str_tree(
            r,
            match content {
                Some(s) => Some(s@),
                None => None,
            },
        ),
{
    match content {
        Some(s) => JsonValue::Str(s.clone()),
        None => JsonValue::Null,
    }
}

/// The JSON tree that a status snapshot is persisted as.
pub fn status_json_tree(status: &RunStatus) -> (r: JsonValue)
    ensures
        spec_is_status_tree(r, spec_status_view(*status)),
{
    let mut fields: Vec<(String, JsonValue)> = Vec::new();
    fields.push((String::from_str("state"), JsonValue::Str(status.state.clone())));
    fields.push((String::from_str("thinking_mode"), JsonValue::Str(status.thinking_mode.clone())));
    fields.push(
        (String::from_str("run_started_at_epoch"), JsonValue::UInt(status.run_started_at_epoch)),
    );
    fields.push((String::from_str("current_loop"), JsonValue::UInt(status.current_loop)));
    fields.push(
        (String::from_str("total_loops_executed"), JsonValue::UInt(status.total_loops_executed)),
    );
    fields.push((String::from_str("last_error"), opt_str_tree(&status.last_error)));
    fields.push(
        (
            String::from_str("completion_indicators"),
            JsonValue::UInt(status.completion_indicators as u64),
        ),
    );
    fields.push((String::from_str("exit_signal_seen"), JsonValue::Bool(status.exit_signal_seen)));
    fields.push((String::from_str("session_id"), opt_str_tree(&status.session_id)));
    fields.push(
        (
            String::from_str("circuit_state"),
            JsonValue::Str(circuit_label(status.circuit_state).to_owned()),
        ),
    );
    fields.push(
        (
            String::from_str("current_loop_started_at_epoch"),
            JsonValue::UInt(status.current_loop_started_at_epoch),
        ),
    );
    fields.push(
        (
            String::from_str("last_heartbeat_at_epoch"),
            JsonValue::UInt(status.last_heartbeat_at_epoch),
        ),
    );
    fields.push((String::from_str("updated_at_epoch"), JsonValue::UInt(status.updated_at_epoch)));
    JsonValue::Obj(fields)
}

/// The JSON tree that a progress snapshot is persisted as.
pub fn progress_json_tree(progress: &ProgressSnapshot) -> (r: JsonValue)
    ensures
        spec_is_progress_tree(r, spec_progress_view(*progress)),
{
    let mut fields: Vec<(String, JsonValue)> = Vec::new();
    fields.push(
        (String::from_str("loops_with_progress"), JsonValue::UInt(progress.loops_with_progress)),
    );
    fields.push(
        (
            String::from_str("loops_without_progress"),
            JsonValue::UInt(progress.loops_without_progress),
        ),
    );
    fields.push((String::from_str("last_summary"), JsonValue::Str(progress.last_summary.clone())));
    fields.push((String::from_str("updated_at_epoch"), JsonValue::UInt(progress.updated_at_epoch)));
    JsonValue::Obj(fields)
}

/// The JSON tree that a circuit-breaker state is persisted as.
pub fn circuit_json_tree(circuit: &CircuitBreakerState) -> (r: JsonValue)
    ensures
        spec_is_circuit_tree(r, *circuit),
{
    let mut fields: Vec<(String, JsonValue)> = Vec::new();
    fields.push((String::from_str("state"), JsonValue::Str(circuit_label(circuit.state).to_owned())));
    fields.push(
        (
            String::from_str("consecutive_no_progress"),
            JsonValue::UInt(circuit.consecutive_no_progress as u64),
        ),
    );
    JsonValue::Obj(fields)
}

/// The text written to `status.json`.
pub fn status_to_json(status: &RunStatus) -> (r: String)
    ensures
        exists|t: JsonValue|
            spec_is_status_tree(t, spec_status_view(*status)) && r@ == spec_emit_json(t),
{
    let tree = status_json_tree(status);
    emit_json(&tree)
}

/// The text written to `progress.json`.
pub fn progress_to_json(progress: &ProgressSnapshot) -> (r: String)
    ensures
        exists|t: JsonValue|
            spec_is_progress_tree(t, spec_progress_view(*progress)) && r@ == spec_emit_json(t),
{
    let tree = progress_json_tree(progress);
    emit_json(&tree)
}

/// The text written to the circuit-breaker state file.
pub fn circuit_to_json(circuit: &CircuitBreakerState) -> (r: String)
    ensures
        exists|t: JsonValue| spec_is_circuit_tree(t, *circuit) && r@ == spec_emit_json(t),
{
    let tree = circuit_json_tree(circuit);
    emit_json(&tree)
}

/// A required string field: its text when present and a string, the default
/// when missing, failure on any other shape.
pub open spec fn spec_str_or(f: Option<JsonValue>, default: Seq<char>) -> Option<Seq<char>> {
    match f {
        None => Some(default),
        Some(JsonValue::Str(s)) => Some(s@),
        Some(_) => None,
    }
}

/// An optional string field: absent and null both mean none; a string means
/// itself; anything else fails.
pub open spec fn spec_opt_str(f: Option<JsonValue>) -> Option<Option<Seq<char>>> {
    match f {
        None => Some(None),
        Some(JsonValue::Null) => Some(None),
        Some(JsonValue::Str(s)) => Some(Some(s@)),
        Some(_) => None,
    }
}

/// An unsigned 64-bit field: zero when missing, failure on negatives and
/// non-integers.
pub open spec fn spec_u64_or_zero(f: Option<JsonValue>) -> Option<u64> {
    match f {
        None => Some(0),
        Some(JsonValue::Int(n)) => if n >= 0 {
            Some(n as u64)
        } else {
            None
        },
        Some(JsonValue::UInt(n)) => Some(n),
        Some(_) => None,
    }
}

/// An unsigned 32-bit field: as the 64-bit case, plus a range check.
pub open spec fn spec_u32_or_zero(f: Option<JsonValue>) -> Option<u32> {
    match spec_u64_or_zero(f) {
        Some(n) => if n <= u32::MAX {
            Some(n as u32)
        } else {
            None
        },
        None => None,
    }
}

/// A boolean field: false when missing, failure on any non-boolean.
pub open spec fn spec_bool_or_false(f: Option<JsonValue>) -> Option<bool> {
    match f {
        None => Some(false),
        Some(JsonValue::Bool(b)) => Some(b),
        Some(_) => None,
    }
}

/// A circuit-state field: closed when missing; one of the three labels when
/// a string; failure otherwise.
pub open spec fn spec_circuit_or_closed(f: Option<JsonValue>) -> Option<CircuitState> {
    match f {
        None => Some(CircuitState::Closed),
        Some(JsonValue::Str(s)) => if s@ == "closed"@ {
            Some(CircuitState::Closed)
        } else if s@ == "half_open"@ {
            Some(CircuitState::HalfOpen)
        } else if s@ == "open"@ {
            Some(CircuitState::Open)
        } else {
            None
        },
        Some(_) => None,
    }
}

/// What a parsed `status.json` tree means: every field read by key with its
/// default, any ill-typed field failing the whole read.
pub open spec fn spec_status_of_json(v: JsonValue) -> Option<RunStatusView> {
    if !(v matches JsonValue::Obj(_)) {
        None
    } else {
        let state = spec_str_or(spec_json_get(v, "state"@), "idle"@);
        let thinking = spec_str_or(spec_json_get(v, "thinking_mode"@), "summary"@);
        let run_started = spec_u64_or_zero(spec_json_get(v, "run_started_at_epoch"@));
        let current_loop = spec_u64_or_zero(spec_json_get(v, "current_loop"@));
        let total = spec_u64_or_zero(spec_json_get(v, "total_loops_executed"@));
        let last_error = spec_opt_str(spec_json_get(v, "last_error"@));
        let indicators = spec_u32_or_zero(spec_json_get(v, "completion_indicators"@));
        let exit_seen = spec_bool_or_false(spec_json_get(v, "exit_signal_seen"@));
        let session = spec_opt_str(spec_json_get(v, "session_id"@));
        let circuit = spec_circuit_or_closed(spec_json_get(v, "circuit_state"@));
        let loop_started = spec_u64_or_zero(spec_json_get(v, "current_loop_started_at_epoch"@));
        let heartbeat = spec_u64_or_zero(spec_json_get(v, "last_heartbeat_at_epoch"@));
        let updated = spec_u64_or_zero(spec_json_get(v, "updated_at_epoch"@));
        if state is Some && thinking is Some && run_started is Some && current_loop is Some
            && total is Some && last_error is Some && indicators is Some && exit_seen is Some
            && session is Some && circuit is Some && loop_started is Some && heartbeat is Some
            && updated is Some {
            Some(
                RunStatusView {
                    state: state->Some_0,
                    thinking_mode: thinking->Some_0,
                    run_started_at_epoch: run_started->Some_0,
                    current_loop: current_loop->Some_0,
                    total_loops_executed: total->Some_0,
                    last_error: last_error->Some_0,
                    completion_indicators: indicators->Some_0,
                    exit_signal_seen: exit_seen->Some_0,
                    session_id: session->Some_0,
                    circuit_state: circuit->Some_0,
                    current_loop_started_at_epoch: loop_started->Some_0,
                    last_heartbeat_at_epoch: heartbeat->Some_0,
                    updated_at_epoch: updated->Some_0,
                },
            )
        } else {
            None
        }
    }
}

/// What a parsed `progress.json` tree means.
pub open spec fn spec_progress_of_json(v: JsonValue) -> Option<ProgressView> {
    if !(v matches JsonValue::Obj(_)) {
        None
    } else {
        let with_p = spec_u64_or_zero(spec_json_get(v, "loops_with_progress"@));
        let without_p = spec_u64_or_zero(spec_json_get(v, "loops_without_progress"@));
        let summary = spec_str_or(spec_json_get(v, "last_summary"@), Seq::<char>::empty());
        let updated = spec_u64_or_zero(spec_json_get(v, "updated_at_epoch"@));
        if with_p is Some && without_p is Some && summary is Some && updated is Some {
            Some(
                ProgressView {
                    loops_with_progress: with_p->Some_0,
                    loops_without_progress: without_p->Some_0,
                    last_summary: summary->Some_0,
                    updated_at_epoch: updated->Some_0,
                },
            )
        } else {
            None
        }
    }
}

/// Read a required string field.
pub(crate) fn get_str_or(v: &JsonValue, key: &str, default: &str) -> (r: Option<String>)
    ensures
        (match r {
            Some(s) => spec_str_or(spec_json_get(*v, key@), default@) == Some(s@),
            None => spec_str_or(spec_json_get(*v, key@), default@) is None,
        }),
{
    match json_get(v, key) {
        None => Some(default.to_owned()),
        Some(f) => match json_as_str(f) {
            Some(s) => Some(s.clone()),
            None => None,
        },
    }
}

/// Read an optional string field.
fn get_opt_str(v: &JsonValue, key: &str) -> (r: Option<Option<String>>)
    ensures
        (match r {
            Some(Some(s)) => spec_opt_str(spec_json_get(*v, key@)) == Some(Some(s@)),
            Some(None) => spec_opt_str(spec_json_get(*v, key@)) == Some(None::<Seq<char>>),
            None => spec_opt_str(spec_json_get(*v, key@)) is None,
        }),
{
    match json_get(v, key) {
        None => Some(None),
        Some(f) => match f {
            JsonValue::Null => Some(None),
            JsonValue::Str(s) => Some(Some(s.clone())),
            _ => None,
        },
    }
}

/// Read an unsigned 64-bit field.
pub(crate) fn get_u64_or_zero(v: &JsonValue, key: &str) -> (r: Option<u64>)
    ensures
        r == spec_u64_or_zero(spec_json_get(*v, key@)),
{
    match json_get(v, key) {
        None => Some(0),
        Some(f) => match f {
            JsonValue::Int(n) => {
                if *n >= 0 {
                    Some(*n as u64)
                } else {
                    None
                }
            },
            JsonValue::UInt(n) => Some(*n),
            _ => None,
        },
    }
}

/// Read an unsigned 32-bit field.
fn get_u32_or_zero(v: &JsonValue, key: &str) -> (r: Option<u32>)
    ensures
        r == spec_u32_or_zero(spec_json_get(*v, key@)),
{
    match get_u64_or_zero(v, key) {
        Some(n) => {
            if n <= u32::MAX as u64 {
                Some(n as u32)
            } else {
                None
            }
        },
        None => None,
    }
}

/// Read a boolean field.
fn get_bool_or_false(v: &JsonValue, key: &str) -> (r: Option<bool>)
    ensures
        r == spec_bool_or_false(spec_json_get(*v, key@)),
{
    match json_get(v, key) {
        None => Some(false),
        Some(f) => match f {
            JsonValue::Bool(b) => Some(*b),
            _ => None,
        },
    }
}

/// Read a circuit-state field.
fn get_circuit_or_closed(v: &JsonValue, key: &str) -> (r: Option<CircuitState>)
    ensures
        r == spec_circuit_or_closed(spec_json_get(*v, key@)),
{
    match json_get(v, key) {
        None => Some(CircuitState::Closed),
        Some(f) => match f {
            JsonValue::Str(s) => {
                if str_eq(s.as_str(), "closed") {
                    Some(CircuitState::Closed)
                } else if str_eq(s.as_str(), "half_open") {
                    Some(CircuitState::HalfOpen)
                } else if str_eq(s.as_str(), "open") {
                    Some(CircuitState::Open)
                } else {
                    None
                }
            },
            _ => None,
        },
    }
}

/// Decode a parsed `status.json` tree.
pub fn status_of_json(v: &JsonValue) -> (r: Option<RunStatus>)
    ensures
        (match r {
            Some(st) => spec_status_of_json(*v) == Some(spec_status_view(st)),
            None => spec_status_of_json(*v) is None,
        }),
{
    if !(matches!(v, JsonValue::Obj(_))) {
        return None;
    }
    let state = get_str_or(v, "state", "idle");
    let thinking_mode = get_str_or(v, "thinking_mode", "summary");
    let run_started_at_epoch = get_u64_or_zero(v, "run_started_at_epoch");
    let current_loop = get_u64_or_zero(v, "current_loop");
    let total_loops_executed = get_u64_or_zero(v, "total_loops_executed");
    let last_error = get_opt_str(v, "last_error");
    let completion_indicators = get_u32_or_zero(v, "completion_indicators");
    let exit_signal_seen = get_bool_or_false(v, "exit_signal_seen");
    let session_id = get_opt_str(v, "session_id");
    let circuit_state = get_circuit_or_closed(v, "circuit_state");
    let current_loop_started_at_epoch = get_u64_or_zero(v, "current_loop_started_at_epoch");
    let last_heartbeat_at_epoch = get_u64_or_zero(v, "last_heartbeat_at_epoch");
    let updated_at_epoch = get_u64_or_zero(v, "updated_at_epoch");
    match (state, thinking_mode, run_started_at_epoch, current_loop, total_loops_executed,
        last_error, completion_indicators, exit_signal_seen, session_id, circuit_state,
        current_loop_started_at_epoch, last_heartbeat_at_epoch, updated_at_epoch) {
        (
            Some(state),
            Some(thinking_mode),
            Some(run_started_at_epoch),
            Some(current_loop),
            Some(total_loops_executed),
            Some(last_error),
            Some(completion_indicators),
            Some(exit_signal_seen),
            Some(session_id),
            Some(circuit_state),
            Some(current_loop_started_at_epoch),
            Some(last_heartbeat_at_epoch),
            Some(updated_at_epoch),
        ) => Some(
            RunStatus {
                state,
                thinking_mode,
                run_started_at_epoch,
                current_loop,
                total_loops_executed,
                last_error,
                completion_indicators,
                exit_signal_seen,
                session_id,
                circuit_state,
                current_loop_started_at_epoch,
                last_heartbeat_at_epoch,
                updated_at_epoch,
            },
        ),
        _ => None,
    }
}

/// Decode a parsed `progress.json` tree.
pub fn progress_of_json(v: &JsonValue) -> (r: Option<ProgressSnapshot>)
    ensures
        (match r {
            Some(p) => spec_progress_of_json(*v) == Some(spec_progress_view(p)),
            None => spec_progress_of_json(*v) is None,
        }),
{
    if !(matches!(v, JsonValue::Obj(_))) {
        return None;
    }
    let loops_with_progress = get_u64_or_zero(v, "loops_with_progress");
    let loops_without_progress = get_u64_or_zero(v, "loops_without_progress");
    proof {
        reveal_strlit("");
        assert(""@ =~= Seq::<char>::empty());
    }
    let last_summary = get_str_or(v, "last_summary", "");
    let updated_at_epoch = get_u64_or_zero(v, "updated_at_epoch");
    match (loops_with_progress, loops_without_progress, last_summary, updated_at_epoch) {
        (
            Some(loops_with_progress),
            Some(loops_without_progress),
            Some(last_summary),
            Some(updated_at_epoch),
        ) => Some(
            ProgressSnapshot {
                loops_with_progress,
                loops_without_progress,
                last_summary,
                updated_at_epoch,
            },
        ),
        _ => None,
    }
}

/// Parse the text of `status.json` into a status.
pub fn status_from_json(text: &str) -> (r: Option<RunStatus>)
    ensures
        (match parsed_json(text@) {
            Some(v) => match r {
                Some(st) => spec_status_of_json(v) == Some(spec_status_view(st)),
                None => spec_status_of_json(v) is None,
            },
            None => r is None,
        }),
{
    match parse_json_line(text) {
        Some(v) => status_of_json(&v),
        None => None,
    }
}

/// Parse the text of `progress.json` into a snapshot.
pub fn progress_from_json_text(text: &str) -> (r: Option<ProgressSnapshot>)
    ensures
        (match parsed_json(text@) {
            Some(v) => match r {
                Some(p) => spec_progress_of_json(v) == Some(spec_progress_view(p)),
                None => spec_progress_of_json(v) is None,
            },
            None => r is None,
        }),
{
    match parse_json_line(text) {
        Some(v) => progress_of_json(&v),
        None => None,
    }
}

/// What `progress.json` yields: the decoded snapshot, or the default on a
/// missing file, unreadable text or an ill-typed tree.
pub open spec fn spec_progress_of_text(text: Option<Seq<char>>) -> ProgressView {
    let fallback = ProgressView {
        loops_with_progress: 0,
        loops_without_progress: 0,
        last_summary: Seq::<char>::empty(),
        updated_at_epoch: 0,
    };
    match text {
        Some(t) => match parsed_json(t) {
            Some(v) => match spec_progress_of_json(v) {
                Some(p) => p,
                None => fallback,
            },
            None => fallback,
        },
        None => fallback,
    }
}

/// Read `progress.json` content, falling back to the default snapshot when
/// the file is missing or does not decode.
pub fn read_progress(text: Option<&str>) -> (r: ProgressSnapshot)
    ensures
        spec_progress_view(r) == spec_progress_of_text(
            match text {
                Some(t) => Some(t@),
                None => None,
            },
        ),
{
    match text {
        Some(t) => match parse_json_line(t) {
            Some(v) => match progress_of_json(&v) {
                Some(p) => p,
                None => ProgressSnapshot::default(),
            },
            None => ProgressSnapshot::default(),
        },
        None => ProgressSnapshot::default(),
    }
}

/// The runner pid that the `.runner_pid` file yields: its trimmed text
/// parsed as a positive integer; everything else counts as no live owner.
pub fn runner_pid_of(pid_text: Option<&str>) -> (r: Option<i32>)
    ensures
        (match pid_text {
            Some(t) => r == (match spec_parse_i32(spec_trim(t@)) {
                Some(p) => if p > 0 {
                    Some(p)
                } else {
                    None::<i32>
                },
                None => None::<i32>,
            }),
            None => r is None,
        }),
{
    match pid_text {
        Some(t) => {
            let v = chars_of(t);
            let trimmed = trim_chars(&v);
            match parse_i32_chars(&trimmed) {
                Some(p) => {
                    if p > 0 {
                        Some(p)
                    } else {
                        None
                    }
                },
                None => None,
            }
        },
        None => None,
    }
}

/// A persisted status is stale exactly when it claims to be running but no
/// live owning process backs it: the pid file is missing, unparsable or
/// non-positive, or the recorded process is not alive.
pub open spec fn spec_is_stale(state: Seq<char>, runner_pid: Option<i32>, pid_alive: bool) -> bool {
    state == "running"@ && (runner_pid is None || !pid_alive)
}

/// Decide staleness for a status against the runner-pid probe.
pub fn is_stale_running_status(status: &RunStatus, runner_pid: Option<i32>, pid_alive: bool) -> (r:
    bool)
    ensures
        r == spec_is_stale(status.state@, runner_pid, pid_alive),
{
    if !str_eq(status.state.as_str(), "running") {
        return false;
    }
    match runner_pid {
        None => true,
        Some(_) => !pid_alive,
    }
}

/// The healed form of a stale status: state flipped to `stale_runner`, the
/// per-loop and heartbeat fields zeroed, a default error recorded when none
/// is present, and the update time stamped.
pub open spec fn spec_mark_stale(st: RunStatusView, now_epoch: u64) -> RunStatusView {
    RunStatusView {
        state: "stale_runner"@,
        current_loop: 0,
        current_loop_started_at_epoch: 0,
        last_heartbeat_at_epoch: 0,
        last_error: match st.last_error {
            Some(e) => Some(e),
            None => Some("runner process not found"@),
        },
        updated_at_epoch: now_epoch,
        ..st
    }
}

/// Rewrite a stale status in place.
pub fn mark_stale(status: &mut RunStatus, now_epoch: u64)
    ensures
        spec_status_view(*final(status)) == spec_mark_stale(
            spec_status_view(*old(status)),
            now_epoch,
        ),
        final(status).thinking_mode == old(status).thinking_mode,
        final(status).session_id == old(status).session_id,
{
    status.state = String::from_str("stale_runner");
    status.current_loop = 0;
    status.current_loop_started_at_epoch = 0;
    status.last_heartbeat_at_epoch = 0;
    if status.last_error.is_none() {
        status.last_error = Some(String::from_str("runner process not found"));
    }
    status.updated_at_epoch = now_epoch;
}

/// Read a persisted status: decode the text, and when it claims to be
/// running without a live owner, heal it to `stale_runner`. The boolean
/// reports whether the healed form must be written back and the pid file
/// removed. `None` means the text did not decode as a status.
pub fn read_status(text: &str, runner_pid: Option<i32>, pid_alive: bool, now_epoch: u64) -> (r:
    Option<(RunStatus, bool)>)
    ensures
        (match parsed_json(text@) {
            Some(v) => match spec_status_of_json(v) {
                Some(st) => r matches Some(pair) && pair.1 == spec_is_stale(
                    st.state,
                    runner_pid,
                    pid_alive,
                ) && spec_status_view(pair.0) == (if spec_is_stale(st.state, runner_pid, pid_alive) {
                    spec_mark_stale(st, now_epoch)
                } else {
                    st
                }),
                None => r is None,
            },
            None => r is None,
        }),
{
    match status_from_json(text) {
        Some(mut status) => {
            let stale = is_stale_running_status(&status, runner_pid, pid_alive);
            if stale {
                mark_stale(&mut status, now_epoch);
            }
            Some((status, stale))
        },
        None => None,
    }
}

/// One line of the circuit-breaker history log, without the timestamp the
/// writer prefixes: epoch, loop number, state and counter.
pub open spec fn spec_history_line(epoch: u64, loop_count: u64, cs: CircuitBreakerState) -> Seq<
    char,
> {
    spec_u64_digits(epoch as nat) + " loop="@ + spec_u64_digits(loop_count as nat) + " state="@
        + spec_debug_circuit_label(cs.state) + " no_progress="@ + spec_u64_digits(
        cs.consecutive_no_progress as nat,
    ) + seq!['\n']
}

/// The debug label of a circuit state, as the history log records it.
pub open spec fn spec_debug_circuit_label(cs: CircuitState) -> Seq<char> {
    match cs {
        CircuitState::Closed => "Closed"@,
        CircuitState::HalfOpen => "HalfOpen"@,
        CircuitState::Open => "Open"@,
    }
}

/// Render one circuit-breaker history line.
pub fn history_line(epoch: u64, loop_count: u64, circuit: &CircuitBreakerState) -> (r: String)
    ensures
        r@ == spec_history_line(epoch, loop_count, *circuit),
{
    let mut out: Vec<char> = crate::num::u64_to_chars(epoch);
    crate::text::push_str_chars(&mut out, " loop=");
    let lc = crate::num::u64_to_chars(loop_count);
    crate::text::push_all(&mut out, &lc);
    crate::text::push_str_chars(&mut out, " state=");
    match circuit.state {
        CircuitState::Closed => crate::text::push_str_chars(&mut out, "Closed"),
        CircuitState::HalfOpen => crate::text::push_str_chars(&mut out, "HalfOpen"),
        CircuitState::Open => crate::text::push_str_chars(&mut out, "Open"),
    }
    crate::text::push_str_chars(&mut out, " no_progress=");
    let np = crate::num::u64_to_chars(circuit.consecutive_no_progress as u64);
    crate::text::push_all(&mut out, &np);
    out.push('\n');
    proof {
        assert(out@ =~= spec_history_line(epoch, loop_count, *circuit));
    }
    crate::text::string_of(&out)
}

/// A field list whose entry at `i` carries a key that no earlier entry
/// carries resolves a lookup of that key to that entry's value.
proof fn lemma_field_get_at(fields: Seq<(String, JsonValue)>, i: int)
    requires
        0 <= i < fields.len(),
        forall|j: int| 0 <= j < i ==> fields[j].0@ != fields[i].0@,
    ensures
        spec_field_get_of(fields, fields[i].0@) == Some(fields[i].1),
    decreases i,
{
    if i > 0 {
        let rest = fields.drop_first();
        assert(rest[i - 1] == fields[i]);
        assert forall|j: int| 0 <= j < i - 1 implies (#[trigger] rest[j]).0@ != rest[i - 1].0@ by {
            assert(rest[j] == fields[j + 1]);
        }
        lemma_field_get_at(rest, i - 1);
    }
}

/// Shorthand for the field lookup used by the decoders.
pub open spec fn spec_field_get_of(fields: Seq<(String, JsonValue)>, key: Seq<char>) -> Option<
    JsonValue,
> {
    crate::json::spec_field_get(fields, key)
}

/// Status persistence round-trips: decoding the tree that a status was
/// encoded as yields that status, field for field. Only a deliberate
/// staleness rewrite changes what a reader sees.
pub proof fn lemma_status_round_trip(tree: JsonValue, status: RunStatus)
    requires
        spec_is_status_tree(tree, spec_status_view(status)),
    ensures
        spec_status_of_json(tree) == Some(spec_status_view(status)),
{
    reveal_strlit("state");
    reveal_strlit("thinking_mode");
    reveal_strlit("run_started_at_epoch");
    reveal_strlit("current_loop");
    reveal_strlit("total_loops_executed");
    reveal_strlit("last_error");
    reveal_strlit("completion_indicators");
    reveal_strlit("exit_signal_seen");
    reveal_strlit("session_id");
    reveal_strlit("circuit_state");
    reveal_strlit("current_loop_started_at_epoch");
    reveal_strlit("last_heartbeat_at_epoch");
    reveal_strlit("updated_at_epoch");
    reveal_strlit("closed");
    reveal_strlit("half_open");
    reveal_strlit("open");
    assert("state"@.len() == 5);
    assert("thinking_mode"@.len() == 13);
    assert("run_started_at_epoch"@.len() == 20);
    assert("current_loop"@.len() == 12);
    assert("total_loops_executed"@.len() == 20);
    assert("last_error"@.len() == 10);
    assert("completion_indicators"@.len() == 21);
    assert("exit_signal_seen"@.len() == 16);
    assert("session_id"@.len() == 10);
    assert("circuit_state"@.len() == 13);
    assert("current_loop_started_at_epoch"@.len() == 29);
    assert("last_heartbeat_at_epoch"@.len() == 23);
    assert("updated_at_epoch"@.len() == 16);
    assert("thinking_mode"@[0] == 't');
    assert("circuit_state"@[0] == 'c');
    assert("run_started_at_epoch"@[0] == 'r');
    assert("total_loops_executed"@[0] == 't');
    assert("last_error"@[0] == 'l');
    assert("session_id"@[0] == 's');
    assert("exit_signal_seen"@[0] == 'e');
    assert("updated_at_epoch"@[0] == 'u');
    assert("closed"@.len() == 6);
    assert("half_open"@.len() == 9);
    assert("open"@.len() == 4);
    let fields = tree->Obj_0;
    lemma_field_get_at(fields@, 0);
    assert forall|j: int| 0 <= j < 1 implies (#[trigger] fields@[j]).0@ != fields@[1].0@ by {
        if j == 0 {
            assert(fields@[0].0@ != fields@[1].0@);
        }
    }
    lemma_field_get_at(fields@, 1);
    assert forall|j: int| 0 <= j < 2 implies (#[trigger] fields@[j]).0@ != fields@[2].0@ by {
        if j == 0 {
            assert(fields@[0].0@ != fields@[2].0@);
        } else if j == 1 {
            assert(fields@[1].0@ != fields@[2].0@);
        }
    }
    lemma_field_get_at(fields@, 2);
    assert forall|j: int| 0 <= j < 3 implies (#[trigger] fields@[j]).0@ != fields@[3].0@ by {
        if j == 0 {
            assert(fields@[0].0@ != fields@[3].0@);
        } else if j == 1 {
            assert(fields@[1].0@ != fields@[3].0@);
        } else if j == 2 {
            assert(fields@[2].0@ != fields@[3].0@);
        }
    }
    lemma_field_get_at(fields@, 3);
    assert forall|j: int| 0 <= j < 4 implies (#[trigger] fields@[j]).0@ != fields@[4].0@ by {
        if j == 0 {
            assert(fields@[0].0@ != fields@[4].0@);
        } else if j == 1 {
            assert(fields@[1].0@ != fields@[4].0@);
        } else if j == 2 {
            assert(fields@[2].0@ != fields@[4].0@);
        } else if j == 3 {
            assert(fields@[3].0@ != fields@[4].0@);
        }
    }
    lemma_field_get_at(fields@, 4);
    assert forall|j: int| 0 <= j < 5 implies (#[trigger] fields@[j]).0@ != fields@[5].0@ by {
        if j == 0 {
            assert(fields@[0].0@ != fields@[5].0@);
        } else if j == 1 {
            assert(fields@[1].0@ != fields@[5].0@);
        } else if j == 2 {
            assert(fields@[2].0@ != fields@[5].0@);
        } else if j == 3 {
            assert(fields@[3].0@ != fields@[5].0@);
        } else if j == 4 {
            assert(fields@[4].0@ != fields@[5].0@);
        }
    }
    lemma_field_get_at(fields@, 5);
    assert forall|j: int| 0 <= j < 6 implies (#[trigger] fields@[j]).0@ != fields@[6].0@ by {
        if j == 0 {
            assert(fields@[0].0@ != fields@[6].0@);
        } else if j == 1 {
            assert(fields@[1].0@ != fields@[6].0@);
        } else if j == 2 {
            assert(fields@[2].0@ != fields@[6].0@);
        } else if j == 3 {
            assert(fields@[3].0@ != fields@[6].0@);
        } else if j == 4 {
            assert(fields@[4].0@ != fields@[6].0@);
        } else if j == 5 {
            assert(fields@[5].0@ != fields@[6].0@);
        }
    }
    lemma_field_get_at(fields@, 6);
    assert forall|j: int| 0 <= j < 7 implies (#[trigger] fields@[j]).0@ != fields@[7].0@ by {
        if j == 0 {
            assert(fields@[0].0@ != fields@[7].0@);
        } else if j == 1 {
            assert(fields@[1].0@ != fields@[7].0@);
        } else if j == 2 {
            assert(fields@[2].0@ != fields@[7].0@);
        } else if j == 3 {
            assert(fields@[3].0@ != fields@[7].0@);
        } else if j == 4 {
            assert(fields@[4].0@ != fields@[7].0@);
        } else if j == 5 {
            assert(fields@[5].0@ != fields@[7].0@);
        } else if j == 6 {
            assert(fields@[6].0@ != fields@[7].0@);
        }
    }
    lemma_field_get_at(fields@, 7);
    assert forall|j: int| 0 <= j < 8 implies (#[trigger] fields@[j]).0@ != fields@[8].0@ by {
        if j == 0 {
            assert(fields@[0].0@ != fields@[8].0@);
        } else if j == 1 {
            assert(fields@[1].0@ != fields@[8].0@);
        } else if j == 2 {
            assert(fields@[2].0@ != fields@[8].0@);
        } else if j == 3 {
            assert(fields@[3].0@ != fields@[8].0@);
        } else if j == 4 {
            assert(fields@[4].0@ != fields@[8].0@);
        } else if j == 5 {
            assert(fields@[5].0@ != fields@[8].0@);
        } else if j == 6 {
            assert(fields@[6].0@ != fields@[8].0@);
        } else if j == 7 {
            assert(fields@[7].0@ != fields@[8].0@);
        }
    }
    lemma_field_get_at(fields@, 8);
    assert forall|j: int| 0 <= j < 9 implies (#[trigger] fields@[j]).0@ != fields@[9].0@ by {
        if j == 0 {
            assert(fields@[0].0@ != fields@[9].0@);
        } else if j == 1 {
            assert(fields@[1].0@ != fields@[9].0@);
        } else if j == 2 {
            assert(fields@[2].0@ != fields@[9].0@);
        } else if j == 3 {
            assert(fields@[3].0@ != fields@[9].0@);
        } else if j == 4 {
            assert(fields@[4].0@ != fields@[9].0@);
        } else if j == 5 {
            assert(fields@[5].0@ != fields@[9].0@);
        } else if j == 6 {
            assert(fields@[6].0@ != fields@[9].0@);
        } else if j == 7 {
            assert(fields@[7].0@ != fields@[9].0@);
        } else if j == 8 {
            assert(fields@[8].0@ != fields@[9].0@);
        }
    }
    lemma_field_get_at(fields@, 9);
    assert forall|j: int| 0 <= j < 10 implies (#[trigger] fields@[j]).0@ != fields@[10].0@ by {
        if j == 0 {
            assert(fields@[0].0@ != fields@[10].0@);
        } else if j == 1 {
            assert(fields@[1].0@ != fields@[10].0@);
        } else if j == 2 {
            assert(fields@[2].0@ != fields@[10].0@);
        } else if j == 3 {
            assert(fields@[3].0@ != fields@[10].0@);
        } else if j == 4 {
            assert(fields@[4].0@ != fields@[10].0@);
        } else if j == 5 {
            assert(fields@[5].0@ != fields@[10].0@);
        } else if j == 6 {
            assert(fields@[6].0@ != fields@[10].0@);
        } else if j == 7 {
            assert(fields@[7].0@ != fields@[10].0@);
        } else if j == 8 {
            assert(fields@[8].0@ != fields@[10].0@);
        } else if j == 9 {
            assert(fields@[9].0@ != fields@[10].0@);
        }
    }
    lemma_field_get_at(fields@, 10);
    assert forall|j: int| 0 <= j < 11 implies (#[trigger] fields@[j]).0@ != fields@[11].0@ by {
        if j == 0 {
            assert(fields@[0].0@ != fields@[11].0@);
        } else if j == 1 {
            assert(fields@[1].0@ != fields@[11].0@);
        } else if j == 2 {
            assert(fields@[2].0@ != fields@[11].0@);
        } else if j == 3 {
            assert(fields@[3].0@ != fields@[11].0@);
        } else if j == 4 {
            assert(fields@[4].0@ != fields@[11].0@);
        } else if j == 5 {
            assert(fields@[5].0@ != fields@[11].0@);
        } else if j == 6 {
            assert(fields@[6].0@ != fields@[11].0@);
        } else if j == 7 {
            assert(fields@[7].0@ != fields@[11].0@);
        } else if j == 8 {
            assert(fields@[8].0@ != fields@[11].0@);
        } else if j == 9 {
            assert(fields@[9].0@ != fields@[11].0@);
        } else if j == 10 {
            assert(fields@[10].0@ != fields@[11].0@);
        }
    }
    lemma_field_get_at(fields@, 11);
    assert forall|j: int| 0 <= j < 12 implies (#[trigger] fields@[j]).0@ != fields@[12].0@ by {
        if j == 0 {
            assert(fields@[0].0@ != fields@[12].0@);
        } else if j == 1 {
            assert(fields@[1].0@ != fields@[12].0@);
        } else if j == 2 {
            assert(fields@[2].0@ != fields@[12].0@);
        } else if j == 3 {
            assert(fields@[3].0@ != fields@[12].0@);
        } else if j == 4 {
            assert(fields@[4].0@ != fields@[12].0@);
        } else if j == 5 {
            assert(fields@[5].0@ != fields@[12].0@);
        } else if j == 6 {
            assert(fields@[6].0@ != fields@[12].0@);
        } else if j == 7 {
            assert(fields@[7].0@ != fields@[12].0@);
        } else if j == 8 {
            assert(fields@[8].0@ != fields@[12].0@);
        } else if j == 9 {
            assert(fields@[9].0@ != fields@[12].0@);
        } else if j == 10 {
            assert(fields@[10].0@ != fields@[12].0@);
        } else if j == 11 {
            assert(fields@[11].0@ != fields@[12].0@);
        }
    }
    lemma_field_get_at(fields@, 12);
}

/// Progress persistence round-trips: decoding the tree that a snapshot was
/// encoded as yields that snapshot, field for field.
pub proof fn lemma_progress_round_trip(tree: JsonValue, progress: ProgressSnapshot)
    requires
        spec_is_progress_tree(tree, spec_progress_view(progress)),
    ensures
        spec_progress_of_json(tree) == Some(spec_progress_view(progress)),
{
    reveal_strlit("loops_with_progress");
    reveal_strlit("loops_without_progress");
    reveal_strlit("last_summary");
    reveal_strlit("updated_at_epoch");
    assert("loops_with_progress"@.len() == 19);
    assert("loops_without_progress"@.len() == 22);
    assert("last_summary"@.len() == 12);
    assert("updated_at_epoch"@.len() == 16);
    let fields = tree->Obj_0;
    lemma_field_get_at(fields@, 0);
    assert forall|j: int| 0 <= j < 1 implies (#[trigger] fields@[j]).0@ != fields@[1].0@ by {
        if j == 0 {
            assert(fields@[0].0@ != fields@[1].0@);
        }
    }
    lemma_field_get_at(fields@, 1);
    assert forall|j: int| 0 <= j < 2 implies (#[trigger] fields@[j]).0@ != fields@[2].0@ by {
        if j == 0 {
            assert(fields@[0].0@ != fields@[2].0@);
        } else if j == 1 {
            assert(fields@[1].0@ != fields@[2].0@);
        }
    }
    lemma_field_get_at(fields@, 2);
    assert forall|j: int| 0 <= j < 3 implies (#[trigger] fields@[j]).0@ != fields@[3].0@ by {
        if j == 0 {
            assert(fields@[0].0@ != fields@[3].0@);
        } else if j == 1 {
            assert(fields@[1].0@ != fields@[3].0@);
        } else if j == 2 {
            assert(fields@[2].0@ != fields@[3].0@);
        }
    }
    lemma_field_get_at(fields@, 3);
}

} // verus!
