//! The monitor-facing interface: heartbeat and stall computation over a
//! persisted status, and the classification of live-log lines into event
//! kinds. Terminal rendering is a pure consumer of these and lives outside
//! the library.

use vstd::prelude::*;

use crate::json::{json_as_str, json_get, parsed_json, spec_json_get, JsonValue};
use crate::num::spec_u64_digits;
use crate::text::{
    chars_of, contains_seq, contains_str, lower_seq, push_all, push_str_chars, spec_find,
    spec_lines, spec_take, spec_trim, spec_trim_start, split_lines, string_of, subrange_chars,
    take_chars, to_lower, to_upper, trim_chars, trim_start_chars, upper_seq, find_char, str_eq,
};
use crate::types::RunStatus;

verus! {

/// The stall threshold used when the caller configures none.
pub const DEFAULT_STALL_THRESHOLD_SECS: u64 = 15;

/// How long ago the running status last heartbeat: nothing unless the
/// status is running with a recorded heartbeat.
pub open spec fn spec_heartbeat_age(state: Seq<char>, heartbeat: u64, now: u64) -> Option<u64> {
    if state != "running"@ || heartbeat == 0 {
        None
    } else if now >= heartbeat {
        Some((now - heartbeat) as u64)
    } else {
        Some(0)
    }
}

/// The age of the last heartbeat of a running status.
pub fn heartbeat_age_secs(status: &RunStatus, now: u64) -> (r: Option<u64>)
    ensures
        r == spec_heartbeat_age(status.state@, status.last_heartbeat_at_epoch, now),
{
    if !str_eq(status.state.as_str(), "running") || status.last_heartbeat_at_epoch == 0 {
        return None;
    }
    if now >= status.last_heartbeat_at_epoch {
        Some(now - status.last_heartbeat_at_epoch)
    } else {
        Some(0)
    }
}

/// For how long a running status has been stalled: the heartbeat age, once
/// it reaches the threshold (the default when the configured one is zero).
pub open spec fn spec_stalled_for(
    state: Seq<char>,
    heartbeat: u64,
    now: u64,
    threshold: u64,
) -> Option<u64> {
    let limit = if threshold == 0 {
        DEFAULT_STALL_THRESHOLD_SECS
    } else {
        threshold
    };
    match spec_heartbeat_age(state, heartbeat, now) {
        Some(age) => if age >= limit {
            Some(age)
        } else {
            None
        },
        None => None,
    }
}

/// Report a stall once the heartbeat of a running status is old enough.
pub fn stalled_for_secs(status: &RunStatus, now: u64, stall_threshold_secs: u64) -> (r: Option<
    u64,
>)
    ensures
        r == spec_stalled_for(
            status.state@,
            status.last_heartbeat_at_epoch,
            now,
            stall_threshold_secs,
        ),
{
    match heartbeat_age_secs(status, now) {
        Some(age) => {
            let limit: u64 = if stall_threshold_secs == 0 {
                DEFAULT_STALL_THRESHOLD_SECS
            } else {
                stall_threshold_secs
            };
            if age >= limit {
                Some(age)
            } else {
                None
            }
        },
        None => None,
    }
}

/// A number padded with zeros to at least two digits, as `{:02}` writes it.
pub open spec fn spec_pad2(n: u64) -> Seq<char> {
    if n < 10 {
        seq!['0'] + spec_u64_digits(n as nat)
    } else {
        spec_u64_digits(n as nat)
    }
}

/// An elapsed time as `HH:MM:SS`, hours unbounded.
pub open spec fn spec_format_elapsed(total_secs: u64) -> Seq<char> {
    spec_pad2((total_secs / 3600) as u64) + seq![':'] + spec_pad2(((total_secs % 3600) / 60) as u64)
        + seq![':'] + spec_pad2((total_secs % 60) as u64)
}

/// Render a number padded to at least two digits.
fn pad2(n: u64) -> (r: Vec<char>)
    ensures
        r@ == spec_pad2(n),
{
    let digits = crate::num::u64_to_chars(n);
    if n < 10 {
        let mut v: Vec<char> = Vec::new();
        v.push('0');
        push_all(&mut v, &digits);
        proof {
            assert(v@ =~= spec_pad2(n));
        }
        v
    } else {
        digits
    }
}

/// Render an elapsed time as `HH:MM:SS`.
pub fn format_elapsed(total_secs: u64) -> (r: String)
    ensures
        r@ == spec_format_elapsed(total_secs),
{
    let mut out = pad2(total_secs / 3600);
    out.push(':');
    let m = pad2((total_secs % 3600) / 60);
    push_all(&mut out, &m);
    out.push(':');
    let s = pad2(total_secs % 60);
    push_all(&mut out, &s);
    proof {
        assert(out@ =~= spec_format_elapsed(total_secs));
    }
    string_of(&out)
}

/// A percentage clamped into `0..=100`.
pub fn clamp_percent(percent: i64) -> (r: i64)
    ensures
        r == (if percent < 0 {
            0
        } else if percent > 100 {
            100
        } else {
            percent
        }),
{
    if percent < 0 {
        0
    } else if percent > 100 {
        100
    } else {
        percent
    }
}

/// The filled cell count of the limit bar.
pub open spec fn spec_bar_filled(left_percent: nat, width: nat) -> nat {
    let filled = (left_percent * width + 50) / 100;
    if filled > width {
        width
    } else {
        filled
    }
}

/// A sequence of one repeated character.
pub open spec fn spec_repeat(c: char, n: nat) -> Seq<char> {
    Seq::new(n, |i: int| c)
}

/// Append `n` copies of a character.
fn push_repeat(out: &mut Vec<char>, c: char, n: usize)
    ensures
        final(out)@ == old(out)@ + spec_repeat(c, n as nat),
{
    let mut i: usize = 0;
    while i < n
        invariant
            i <= n,
            out@ == old(out)@ + spec_repeat(c, i as nat),
        decreases n - i,
    {
        out.push(c);
        proof {
            assert(out@ =~= old(out)@ + spec_repeat(c, (i + 1) as nat));
        }
        i = i + 1;
    }
}

/// The rendered limit bar: filled cells, empty cells, bracketed.
pub open spec fn spec_limit_bar(left_percent: nat, width: nat) -> Seq<char> {
    let filled = spec_bar_filled(left_percent, width);
    seq!['['] + spec_repeat('\u{2588}', filled) + spec_repeat('\u{2591}', (width - filled) as nat)
        + seq![']']
}

/// Render the remaining-budget bar of the dashboard.
pub fn render_limit_bar(left_percent: usize, width: usize) -> (r: String)
    requires
        left_percent * width + 50 <= usize::MAX,
    ensures
        r@ == spec_limit_bar(left_percent as nat, width as nat),
{
    let filled_raw: usize = (left_percent * width + 50) / 100;
    let filled: usize = if filled_raw > width {
        width
    } else {
        filled_raw
    };
    let mut out: Vec<char> = Vec::new();
    out.push('[');
    push_repeat(&mut out, '\u{2588}', filled);
    push_repeat(&mut out, '\u{2591}', width - filled);
    out.push(']');
    proof {
        assert(out@ =~= spec_limit_bar(left_percent as nat, width as nat));
    }
    string_of(&out)
}

/// The dashboard's limit line for one budget: a bar, the clamped
/// percentage, and the reset time when one is known.
pub open spec fn spec_limit_line(left_percent: i64, resets_at: Option<Seq<char>>) -> Seq<char> {
    let clamped = if left_percent < 0 {
        0 as nat
    } else if left_percent > 100 {
        100 as nat
    } else {
        left_percent as nat
    };
    let base = spec_limit_bar(clamped, 20) + seq![' '] + spec_u64_digits(clamped) + "% left"@;
    match resets_at {
        Some(t) => if spec_trim_start(t).len() == 0 && crate::text::spec_trim(t).len() == 0 {
            base
        } else if crate::text::spec_trim(t).len() == 0 {
            base
        } else {
            base + " (resets "@ + t + seq![')']
        },
        None => base,
    }
}

/// Render one limit line; nothing but a dash when the percentage is
/// unknown.
pub fn format_limit_line(left_percent: Option<i64>, resets_at: Option<&str>) -> (r: String)
    ensures
        (match left_percent {
            Some(p) => r@ == spec_limit_line(p, match resets_at {
                Some(t) => Some(t@),
                None => None,
            }),
            None => r@ == "-"@,
        }),
{
    let p = match left_percent {
        Some(p) => p,
        None => {
            return String::from_str("-");
        },
    };
    let clamped = clamp_percent(p);
    let bar = render_limit_bar(clamped as usize, 20);
    let mut out = chars_of(bar.as_str());
    out.push(' ');
    let digits = crate::num::u64_to_chars(clamped as u64);
    push_all(&mut out, &digits);
    push_str_chars(&mut out, "% left");
    match resets_at {
        Some(t) => {
            let tv = chars_of(t);
            let trimmed = crate::text::trim_chars(&tv);
            if trimmed.len() != 0 {
                push_str_chars(&mut out, " (resets ");
                push_all(&mut out, &tv);
                out.push(')');
            }
        },
        None => {},
    }
    proof {
        assert(out@ =~= spec_limit_line(p, match resets_at {
            Some(t) => Some(t@),
            None => None,
        }));
    }
    string_of(&out)
}

/// The split of a log line into its leading `[HH:MM:SS]` stamp and the
/// rest: the stamp only when the bracketed head is eight characters with
/// colons in the third and sixth position; otherwise the line unchanged.
pub open spec fn spec_split_log_timestamp(line: Seq<char>) -> (Option<Seq<char>>, Seq<char>) {
    if line.len() > 0 && line[0] == '[' {
        let rest = line.drop_first();
        match spec_find(rest, ']') {
            Some(e) => {
                let ts = rest.subrange(0, e);
                if ts.len() == 8 && ts[2] == ':' && ts[5] == ':' {
                    (Some(ts), spec_trim_start(rest.subrange(e + 1, rest.len() as int)))
                } else {
                    (None, line)
                }
            },
            None => (None, line),
        }
    } else {
        (None, line)
    }
}

/// Split a log line into its timestamp and content.
pub fn split_log_timestamp(line: &str) -> (r: (Option<String>, String))
    ensures
        (match r.0 {
            Some(ts) => spec_split_log_timestamp(line@).0 == Some(ts@),
            None => spec_split_log_timestamp(line@).0 is None,
        }),
        r.1@ == spec_split_log_timestamp(line@).1,
{
    let v = chars_of(line);
    if v.len() > 0 && v[0] == '[' {
        let rest = subrange_chars(&v, 1, v.len());
        proof {
            assert(rest@ =~= v@.drop_first());
        }
        match find_char(&rest, ']') {
            Some(e) => {
                let ts = subrange_chars(&rest, 0, e);
                if ts.len() == 8 && ts[2] == ':' && ts[5] == ':' {
                    let tail = subrange_chars(&rest, e + 1, rest.len());
                    let content = trim_start_chars(&tail);
                    (Some(string_of(&ts)), string_of(&content))
                } else {
                    (None, line.to_owned())
                }
            },
            None => (None, line.to_owned()),
        }
    } else {
        (None, line.to_owned())
    }
}

/// The noisy state-database discrepancy warning, recognized by its three
/// markers, case-insensitively.
pub open spec fn spec_state_db_warn(line: Seq<char>) -> bool {
    let t = lower_seq(line);
    contains_seq(t, "codex_core::state_db"@) && contains_seq(t, "record_discrepancy"@)
        && contains_seq(t, "find_thread_path_by_id_str_in_subdir"@)
}

/// Recognize the state-database discrepancy warning.
pub fn is_state_db_discrepancy_warn(line: &str) -> (r: bool)
    ensures
        r == spec_state_db_warn(line@),
{
    let v = chars_of(line);
    let t = to_lower(&v);
    contains_str(&t, "codex_core::state_db") && contains_str(&t, "record_discrepancy")
        && contains_str(&t, "find_thread_path_by_id_str_in_subdir")
}

/// The event kind named by an explicit `[TAG]` prefix, when the uppercased
/// tag is one of the known labels.
pub open spec fn spec_prefix_tag(line: Seq<char>) -> Option<Seq<char>> {
    let t = spec_trim_start(line);
    if t.len() > 0 && t[0] == '[' {
        let rest = t.drop_first();
        match spec_find(rest, ']') {
            Some(e) => {
                let head = upper_seq(rest.subrange(0, e));
                if head == "FAILURE"@ || head == "ERROR"@ {
                    Some("FAILURE"@)
                } else if head == "PROGRESS"@ || head == "IN_PROGRESS"@ {
                    Some("PROGRESS"@)
                } else if head == "SUCCESS"@ || head == "COMPLETED"@ {
                    Some("SUCCESS"@)
                } else if head == "ANALYSIS"@ || head == "REASONING"@ {
                    Some("ANALYSIS"@)
                } else if head == "LOOP"@ {
                    Some("LOOP"@)
                } else if head == "SESSION"@ {
                    Some("SESSION"@)
                } else if head == "LIMITER"@ || head == "RATE_LIMIT"@ {
                    Some("LIMITER"@)
                } else if head == "QUOTA"@ {
                    Some("QUOTA"@)
                } else if head == "INFO"@ {
                    Some("INFO"@)
                } else {
                    None
                }
            },
            None => None,
        }
    } else {
        None
    }
}

/// Classify a line by its explicit `[TAG]` prefix.
pub fn classify_prefix_tag(line: &str) -> (r: Option<&'static str>)
    ensures
        (match r {
            Some(k) => spec_prefix_tag(line@) == Some(k@),
            None => spec_prefix_tag(line@) is None,
        }),
{
    let v = chars_of(line);
    let t = trim_start_chars(&v);
    if t.len() > 0 && t[0] == '[' {
        let rest = subrange_chars(&t, 1, t.len());
        proof {
            assert(rest@ =~= spec_trim_start(line@).drop_first());
        }
        match find_char(&rest, ']') {
            Some(e) => {
                let head_raw = subrange_chars(&rest, 0, e);
                let head = string_of(&to_upper(&head_raw));
                if str_eq(head.as_str(), "FAILURE") || str_eq(head.as_str(), "ERROR") {
                    Some("FAILURE")
                } else if str_eq(head.as_str(), "PROGRESS") || str_eq(head.as_str(), "IN_PROGRESS") {
                    Some("PROGRESS")
                } else if str_eq(head.as_str(), "SUCCESS") || str_eq(head.as_str(), "COMPLETED") {
                    Some("SUCCESS")
                } else if str_eq(head.as_str(), "ANALYSIS") || str_eq(head.as_str(), "REASONING") {
                    Some("ANALYSIS")
                } else if str_eq(head.as_str(), "LOOP") {
                    Some("LOOP")
                } else if str_eq(head.as_str(), "SESSION") {
                    Some("SESSION")
                } else if str_eq(head.as_str(), "LIMITER") || str_eq(head.as_str(), "RATE_LIMIT") {
                    Some("LIMITER")
                } else if str_eq(head.as_str(), "QUOTA") {
                    Some("QUOTA")
                } else if str_eq(head.as_str(), "INFO") {
                    Some("INFO")
                } else {
                    None
                }
            },
            None => None,
        }
    } else {
        None
    }
}

/// The kind of one log event: an explicit prefix tag wins; the known noisy
/// warning counts as system chatter; a model-refresh timeout counts as a
/// limiter event, not a failure; otherwise a fixed keyword vocabulary
/// decides, case-insensitively, with `INFO` as the rest.
pub open spec fn spec_classify_log_event(line: Seq<char>) -> Seq<char> {
    match spec_prefix_tag(line) {
        Some(k) => k,
        None => {
            if spec_state_db_warn(line) {
                "SYSTEM"@
            } else {
                let t = lower_seq(line);
                if contains_seq(t, "failed to refresh available models"@) && contains_seq(
                    t,
                    "timeout waiting for child process to exit"@,
                ) {
                    "LIMITER"@
                } else if contains_seq(t, "permission denied"@) || contains_seq(t, "timed out"@)
                    || contains_seq(t, "execution failed"@) || contains_seq(
                    t,
                    "non-ignorable diagnostics"@,
                ) || contains_seq(t, "failed"@) || contains_seq(t, "error"@) {
                    "FAILURE"@
                } else if contains_seq(t, "rate limit"@) || contains_seq(t, "api usage limit"@)
                    || contains_seq(t, "circuit breaker"@) || contains_seq(t, "retrying in"@) {
                    "LIMITER"@
                } else if contains_seq(t, "session reset"@) || contains_seq(t, "starting new"@)
                    || contains_seq(t, "resuming"@) || contains_seq(t, "resume strategy"@) {
                    "SESSION"@
                } else if contains_seq(t, "starting loop"@) || contains_seq(t, "completed loop"@)
                    || contains_seq(t, "loop "@) || contains_seq(t, "executing"@) {
                    "LOOP"@
                } else if contains_seq(t, "progress"@) || contains_seq(t, "working"@) {
                    "PROGRESS"@
                } else if contains_seq(t, "quota"@) {
                    "QUOTA"@
                } else if contains_seq(t, "analyzing"@) || contains_seq(t, "analysis"@) {
                    "ANALYSIS"@
                } else if contains_seq(t, "success"@) || contains_seq(t, "completed"@) {
                    "SUCCESS"@
                } else {
                    "INFO"@
                }
            }
        },
    }
}

/// Classify one log line into its event kind.
pub fn classify_log_event(line: &str) -> (r: &'static str)
    ensures
        r@ == spec_classify_log_event(line@),
{
    match classify_prefix_tag(line) {
        Some(k) => {
            return k;
        },
        None => {},
    }
    if is_state_db_discrepancy_warn(line) {
        return "SYSTEM";
    }
    let v = chars_of(line);
    let t = to_lower(&v);
    if contains_str(&t, "failed to refresh available models") && contains_str(
        &t,
        "timeout waiting for child process to exit",
    ) {
        "LIMITER"
    } else if contains_str(&t, "permission denied") || contains_str(&t, "timed out")
        || contains_str(&t, "execution failed") || contains_str(&t, "non-ignorable diagnostics")
        || contains_str(&t, "failed") || contains_str(&t, "error") {
        "FAILURE"
    } else if contains_str(&t, "rate limit") || contains_str(&t, "api usage limit") || contains_str(
        &t,
        "circuit breaker",
    ) || contains_str(&t, "retrying in") {
        "LIMITER"
    } else if contains_str(&t, "session reset") || contains_str(&t, "starting new") || contains_str(
        &t,
        "resuming",
    ) || contains_str(&t, "resume strategy") {
        "SESSION"
    } else if contains_str(&t, "starting loop") || contains_str(&t, "completed loop")
        || contains_str(&t, "loop ") || contains_str(&t, "executing") {
        "LOOP"
    } else if contains_str(&t, "progress") || contains_str(&t, "working") {
        "PROGRESS"
    } else if contains_str(&t, "quota") {
        "QUOTA"
    } else if contains_str(&t, "analyzing") || contains_str(&t, "analysis") {
        "ANALYSIS"
    } else if contains_str(&t, "success") || contains_str(&t, "completed") {
        "SUCCESS"
    } else {
        "INFO"
    }
}

/// One live-feed activity: an optional pinned kind and the display text.
#[derive(Clone, Debug)]
pub struct ParsedActivity {
    pub kind: Option<String>,
    pub text: String,
}

/// The status label of a command-execution event.
pub open spec fn spec_command_kind(status: Seq<char>) -> Seq<char> {
    if status == "completed"@ {
        "SUCCESS"@
    } else if status == "failed"@ {
        "FAILURE"@
    } else if status == "in_progress"@ {
        "PROGRESS"@
    } else {
        "INFO"@
    }
}

/// The string at `key` of the `item` object, or a dash.
pub open spec fn spec_item_str(item: JsonValue, key: Seq<char>) -> Seq<char> {
    match spec_json_get(item, key) {
        Some(JsonValue::Str(s)) => s@,
        _ => "-"@,
    }
}

/// What one live-log JSON event displays: a command execution shows its
/// status and command with a kind pinned by the status; an agent message
/// and a reasoning item show their text cut to 180 characters; anything
/// else is no activity.
pub open spec fn spec_activity_event(v: JsonValue) -> Option<(Option<Seq<char>>, Seq<char>)> {
    match spec_json_get(v, "item"@) {
        Some(item) => match spec_json_get(item, "type"@) {
            Some(JsonValue::Str(t)) => {
                if t@ == "command_execution"@ {
                    let status = spec_item_str(item, "status"@);
                    let command = spec_item_str(item, "command"@);
                    Some(
                        (
                            Some(spec_command_kind(status)),
                            "command ("@ + status + "): "@ + command,
                        ),
                    )
                } else if t@ == "agent_message"@ {
                    Some((None, "agent: "@ + spec_take(spec_item_str(item, "text"@), 180)))
                } else if t@ == "reasoning"@ {
                    Some(
                        (
                            Some("ANALYSIS"@),
                            "reasoning: "@ + spec_take(spec_item_str(item, "text"@), 180),
                        ),
                    )
                } else {
                    None
                }
            },
            _ => None,
        },
        None => None,
    }
}

/// The string at `key` of an item object, or a dash.
fn item_str(item: &JsonValue, key: &str) -> (r: String)
    ensures
        r@ == spec_item_str(*item, key@),
{
    match json_get(item, key) {
        Some(f) => match json_as_str(f) {
            Some(s) => s.clone(),
            None => String::from_str("-"),
        },
        None => String::from_str("-"),
    }
}

/// Parse one live-log JSON event into its display activity.
pub fn parse_activity_event(v: &JsonValue) -> (r: Option<ParsedActivity>)
    ensures
        (match r {
            Some(pa) => spec_activity_event(*v) matches Some(pair) && pair.1 == pa.text@ && (
            match pa.kind {
                Some(k) => pair.0 == Some(k@),
                None => pair.0 is None,
            }),
            None => spec_activity_event(*v) is None,
        }),
{
    let item = match json_get(v, "item") {
        Some(item) => item,
        None => {
            return None;
        },
    };
    let type_str = match json_get(item, "type") {
        Some(t) => match json_as_str(t) {
            Some(s) => s.clone(),
            None => {
                return None;
            },
        },
        None => {
            return None;
        },
    };
    if str_eq(type_str.as_str(), "command_execution") {
        let status = item_str(item, "status");
        let command = item_str(item, "command");
        let kind: &str = if str_eq(status.as_str(), "completed") {
            "SUCCESS"
        } else if str_eq(status.as_str(), "failed") {
            "FAILURE"
        } else if str_eq(status.as_str(), "in_progress") {
            "PROGRESS"
        } else {
            "INFO"
        };
        let mut text: Vec<char> = Vec::new();
        push_str_chars(&mut text, "command (");
        let sv = chars_of(status.as_str());
        push_all(&mut text, &sv);
        push_str_chars(&mut text, "): ");
        let cv = chars_of(command.as_str());
        push_all(&mut text, &cv);
        proof {
            assert(text@ =~= "command ("@ + status@ + "): "@ + command@);
        }
        Some(ParsedActivity { kind: Some(kind.to_owned()), text: string_of(&text) })
    } else if str_eq(type_str.as_str(), "agent_message") {
        let body = item_str(item, "text");
        let bv = chars_of(body.as_str());
        let cut = take_chars(&bv, 180);
        let mut text: Vec<char> = Vec::new();
        push_str_chars(&mut text, "agent: ");
        push_all(&mut text, &cut);
        proof {
            assert(text@ =~= "agent: "@ + spec_take(body@, 180));
        }
        Some(ParsedActivity { kind: None, text: string_of(&text) })
    } else if str_eq(type_str.as_str(), "reasoning") {
        let body = item_str(item, "text");
        let bv = chars_of(body.as_str());
        let cut = take_chars(&bv, 180);
        let mut text: Vec<char> = Vec::new();
        push_str_chars(&mut text, "reasoning: ");
        push_all(&mut text, &cut);
        proof {
            assert(text@ =~= "reasoning: "@ + spec_take(body@, 180));
        }
        Some(ParsedActivity { kind: Some(String::from_str("ANALYSIS")), text: string_of(&text) })
    } else {
        None
    }
}

/// A live-log line the feed ignores: blank, or a bare stream tag.
pub open spec fn spec_feed_noise(t: Seq<char>) -> bool {
    t.len() == 0 || t == "[stdout]"@ || t == "[stderr]"@
}

/// The current activity of the live feed, scanning the given lines (most
/// recent first): the first JSON event with a display activity wins; when
/// none parses, the first plain line that is neither noise, the known
/// warning, nor an ISO timestamp line becomes the fallback, cut to 180
/// characters.
pub open spec fn spec_latest_activity(
    lines_rev: Seq<Seq<char>>,
    fallback: Option<Seq<char>>,
) -> Option<Seq<char>>
    decreases lines_rev.len(),
{
    if lines_rev.len() == 0 {
        fallback
    } else {
        let t = spec_trim(lines_rev[0]);
        let rest = lines_rev.drop_first();
        if spec_feed_noise(t) {
            spec_latest_activity(rest, fallback)
        } else {
            let norm = spec_split_log_timestamp(t).1;
            if spec_state_db_warn(norm) {
                spec_latest_activity(rest, fallback)
            } else {
                match parsed_json(norm) {
                    Some(v) => match spec_activity_event(v) {
                        Some(pa) => Some(pa.1),
                        None => spec_latest_activity(rest, fallback),
                    },
                    None => {
                        if norm.len() >= 3 && norm.subrange(0, 3) == "202"@ {
                            spec_latest_activity(rest, fallback)
                        } else if fallback is None {
                            spec_latest_activity(rest, Some(spec_take(norm, 180)))
                        } else {
                            spec_latest_activity(rest, fallback)
                        }
                    },
                }
            }
        }
    }
}

/// One scanned feed line: noise to skip, the suppressed warning, a JSON
/// event (displayable or not), or a plain text line.
enum FeedLine {
    Noise,
    Warn,
    Activity(Option<String>, ParsedActivity),
    OtherJson,
    Plain(Option<String>, String),
}

/// Scan one raw feed line into what the feed does with it.
#[verifier::loop_isolation(false)]
fn scan_feed_line(line: &Vec<char>) -> (r: FeedLine)
    ensures
        ({
            let t = spec_trim(line@);
            let norm = spec_split_log_timestamp(t).1;
            match r {
                FeedLine::Noise => spec_feed_noise(t),
                FeedLine::Warn => !spec_feed_noise(t) && spec_state_db_warn(norm),
                FeedLine::Activity(ts, pa) => !spec_feed_noise(t) && !spec_state_db_warn(norm)
                    && (parsed_json(norm) matches Some(v) && (spec_activity_event(v)
                    matches Some(pair) && pair.1 == pa.text@ && (match pa.kind {
                    Some(k) => pair.0 == Some(k@),
                    None => pair.0 is None,
                }))) && (match ts {
                    Some(stamp) => spec_split_log_timestamp(t).0 == Some(stamp@),
                    None => spec_split_log_timestamp(t).0 is None,
                }),
                FeedLine::OtherJson => !spec_feed_noise(t) && !spec_state_db_warn(norm) && (
                parsed_json(norm) matches Some(v) && spec_activity_event(v) is None),
                FeedLine::Plain(ts, text) => !spec_feed_noise(t) && !spec_state_db_warn(norm)
                    && parsed_json(norm) is None && text@ == spec_take(norm, 180) && (match ts {
                    Some(stamp) => spec_split_log_timestamp(t).0 == Some(stamp@),
                    None => spec_split_log_timestamp(t).0 is None,
                }),
            }
        }),
{
    let trimmed = trim_chars(line);
    let tstr = string_of(&trimmed);
    if trimmed.len() == 0 || str_eq(tstr.as_str(), "[stdout]") || str_eq(tstr.as_str(), "[stderr]")
    {
        return FeedLine::Noise;
    }
    let (ts, norm) = split_log_timestamp(tstr.as_str());
    if is_state_db_discrepancy_warn(norm.as_str()) {
        return FeedLine::Warn;
    }
    match crate::json::parse_json_line(norm.as_str()) {
        Some(v) => match parse_activity_event(&v) {
            Some(pa) => FeedLine::Activity(ts, pa),
            None => FeedLine::OtherJson,
        },
        None => {
            let nv = chars_of(norm.as_str());
            let cut = take_chars(&nv, 180);
            FeedLine::Plain(ts, string_of(&cut))
        },
    }
}

/// The latest activity shown by the live feed.
#[verifier::loop_isolation(false)]
pub fn extract_latest_activity(raw: &str) -> (r: Option<String>)
    ensures
        (match r {
            Some(s) => spec_latest_activity(spec_lines(raw@).reverse(), None) == Some(s@),
            None => spec_latest_activity(spec_lines(raw@).reverse(), None) is None,
        }),
{
    let rv = chars_of(raw);
    let lines = split_lines(&rv);
    let ghost lseq = spec_lines(raw@);
    let ghost rev = lseq.reverse();
    let mut fallback: Option<String> = None;
    let mut i: usize = lines.len();
    proof {
        assert(rev.subrange(0, rev.len() as int) =~~= rev);
    }
    while i > 0
        invariant
            i <= lines@.len(),
            lines.deep_view() == lseq,
            rev == lseq.reverse(),
            ({
                let k = lseq.len() - i;
                let fb = match fallback {
                    Some(f) => Some(f@),
                    None => None::<Seq<char>>,
                };
                spec_latest_activity(rev, None) == spec_latest_activity(
                    rev.subrange(k, rev.len() as int),
                    fb,
                )
            }),
        decreases i,
    {
        let ghost k = lseq.len() - i;
        let ghost rem = rev.subrange(k, rev.len() as int);
        proof {
            assert(rem.drop_first() =~~= rev.subrange(k + 1, rev.len() as int));
            assert(rem[0] == rev[k]);
            assert(rev[k] == lseq[i - 1]);
            assert(lines@[i - 1]@ == lseq[i - 1]);
        }
        i = i - 1;
        match scan_feed_line(&lines[i]) {
            FeedLine::Activity(_, pa) => {
                return Some(pa.text);
            },
            FeedLine::Plain(_, text) => {
                if fallback.is_none() {
                    let tv = chars_of(text.as_str());
                    if !(tv.len() >= 3 && tv[0] == '2' && tv[1] == '0' && tv[2] == '2') {
                        fallback = Some(text);
                    }
                    proof {
                        let norm = spec_split_log_timestamp(spec_trim(lseq[i as int])).1;
                        reveal_strlit("202");
                        if norm.len() >= 3 {
                            assert(spec_take(norm, 180).subrange(0, 3) =~= norm.subrange(0, 3));
                        }
                        if tv@.len() >= 3 && tv@[0] == '2' && tv@[1] == '0' && tv@[2] == '2' {
                            assert(norm.subrange(0, 3) =~= "202"@);
                        } else if norm.len() >= 3 && norm.subrange(0, 3) == "202"@ {
                            assert(norm.subrange(0, 3)[0] == '2' && norm.subrange(0, 3)[1] == '0'
                                && norm.subrange(0, 3)[2] == '2');
                            assert(spec_take(norm, 180)[0] == norm[0] && spec_take(norm, 180)[1]
                                == norm[1] && spec_take(norm, 180)[2] == norm[2]);
                            assert(tv@[0] == '2' && tv@[1] == '0' && tv@[2] == '2');
                        }
                    }
                }
            },
            _ => {},
        }
    }
    proof {
        assert(rev.subrange(rev.len() as int, rev.len() as int) =~~= Seq::<Seq<char>>::empty());
    }
    fallback
}

/// One displayed feed line: its stamp, kind and text.
#[derive(Clone, Debug)]
pub struct LogLine {
    pub kind: String,
    pub time: Option<String>,
    pub text: String,
}

/// The content of a displayed feed line.
pub open spec fn spec_log_line_view(l: LogLine) -> (Option<Seq<char>>, Seq<char>, Seq<char>) {
    (
        match l.time {
            Some(t) => Some(t@),
            None => None,
        },
        l.kind@,
        l.text@,
    )
}

/// Scan the feed lines (most recent first) for up to `room` displayable
/// entries, in scan order, counting the suppressed warnings met on the
/// way: a JSON event shows its activity under its pinned kind or the
/// classified one; a plain line shows its first 180 characters under the
/// classified kind; noise and undisplayable JSON are passed over.
pub open spec fn spec_recent_scan(lines_rev: Seq<Seq<char>>, room: nat) -> (
    Seq<(Option<Seq<char>>, Seq<char>, Seq<char>)>,
    nat,
)
    decreases lines_rev.len(),
{
    if lines_rev.len() == 0 || room == 0 {
        (Seq::<(Option<Seq<char>>, Seq<char>, Seq<char>)>::empty(), 0 as nat)
    } else {
        let t = spec_trim(lines_rev[0]);
        let rest = lines_rev.drop_first();
        if spec_feed_noise(t) {
            spec_recent_scan(rest, room)
        } else {
            let ts = spec_split_log_timestamp(t).0;
            let norm = spec_split_log_timestamp(t).1;
            if spec_state_db_warn(norm) {
                let sub = spec_recent_scan(rest, room);
                (sub.0, (sub.1 + 1) as nat)
            } else {
                match parsed_json(norm) {
                    Some(v) => match spec_activity_event(v) {
                        Some(pa) => {
                            let kind = match pa.0 {
                                Some(k) => k,
                                None => spec_classify_log_event(pa.1),
                            };
                            let sub = spec_recent_scan(rest, (room - 1) as nat);
                            (seq![(ts, kind, pa.1)] + sub.0, sub.1)
                        },
                        None => spec_recent_scan(rest, room),
                    },
                    None => {
                        let text = spec_take(norm, 180);
                        let kind = spec_classify_log_event(text);
                        let sub = spec_recent_scan(rest, (room - 1) as nat);
                        (seq![(ts, kind, text)] + sub.0, sub.1)
                    },
                }
            }
        }
    }
}

/// The recent-activity block of the live feed: the scanned entries back in
/// chronological order, with one system note when warnings were
/// suppressed.
pub open spec fn spec_recent_feed(raw: Seq<char>, limit: nat) -> Seq<
    (Option<Seq<char>>, Seq<char>, Seq<char>),
> {
    let scan = spec_recent_scan(spec_lines(raw).reverse(), limit);
    scan.0.reverse() + (if scan.1 > 0 {
        seq![
            (
                None::<Seq<char>>,
                "SYSTEM"@,
                "suppressed "@ + spec_u64_digits(scan.1) + " repeated state_db discrepancy warnings"@,
            ),
        ]
    } else {
        Seq::<(Option<Seq<char>>, Seq<char>, Seq<char>)>::empty()
    })
}

/// The recent displayable lines of the live feed, oldest first, at most
/// `limit` of them, with the suppressed-warning note appended.
#[verifier::loop_isolation(false)]
#[verifier::rlimit(60)]
pub fn extract_recent_activity_lines(raw: &str, limit: usize) -> (r: Vec<LogLine>)
    ensures
        r@.map_values(|l: LogLine| spec_log_line_view(l)) == spec_recent_feed(raw@, limit as nat),
{
    let rv = chars_of(raw);
    let lines = split_lines(&rv);
    let ghost lseq = spec_lines(raw@);
    let ghost rev = lseq.reverse();
    let mut collected: Vec<LogLine> = Vec::new();
    let mut warns: u64 = 0;
    let mut room: usize = limit;
    let mut i: usize = lines.len();
    proof {
        assert(rev.subrange(0, rev.len() as int) =~~= rev);
    }
    while i > 0 && room > 0
        invariant
            i <= lines@.len(),
            room <= limit,
            lines.deep_view() == lseq,
            rev == lseq.reverse(),
            warns <= lseq.len() - i,
            ({
                let rem = rev.subrange(lseq.len() - i, rev.len() as int);
                let cviews = collected@.map_values(|l: LogLine| spec_log_line_view(l));
                &&& spec_recent_scan(rev, limit as nat).0 == cviews + spec_recent_scan(
                    rem,
                    room as nat,
                ).0
                &&& spec_recent_scan(rev, limit as nat).1 == warns + spec_recent_scan(
                    rem,
                    room as nat,
                ).1
            }),
        decreases i,
    {
        let ghost k = lseq.len() - i;
        let ghost rem = rev.subrange(k, rev.len() as int);
        let ghost cviews = collected@.map_values(|l: LogLine| spec_log_line_view(l));
        proof {
            assert(rem.drop_first() =~~= rev.subrange(k + 1, rev.len() as int));
            assert(rem[0] == rev[k]);
            assert(rev[k] == lseq[i - 1]);
            assert(lines@[i - 1]@ == lseq[i - 1]);
        }
        i = i - 1;
        match scan_feed_line(&lines[i]) {
            FeedLine::Noise => {},
            FeedLine::Warn => {
                warns = warns + 1;
            },
            FeedLine::OtherJson => {},
            FeedLine::Activity(ts, pa) => {
                let kind: String = match &pa.kind {
                    Some(k) => k.clone(),
                    None => classify_log_event(pa.text.as_str()).to_owned(),
                };
                let entry = LogLine { kind, time: ts, text: pa.text };
                let ghost ev = spec_log_line_view(entry);
                collected.push(entry);
                room = room - 1;
                proof {
                    assert(collected@.map_values(|l: LogLine| spec_log_line_view(l))
                        =~~= cviews.push(ev));
                    assert(cviews.push(ev) =~~= cviews + seq![ev]);
                }
            },
            FeedLine::Plain(ts, text) => {
                let kind = classify_log_event(text.as_str()).to_owned();
                let entry = LogLine { kind, time: ts, text };
                let ghost ev = spec_log_line_view(entry);
                collected.push(entry);
                room = room - 1;
                proof {
                    assert(collected@.map_values(|l: LogLine| spec_log_line_view(l))
                        =~~= cviews.push(ev));
                    assert(cviews.push(ev) =~~= cviews + seq![ev]);
                }
            },
        }
    }
    proof {
        let rem = rev.subrange(lseq.len() - i, rev.len() as int);
        if i == 0 {
            assert(rem =~~= Seq::<Seq<char>>::empty());
        }
        assert(spec_recent_scan(rem, room as nat).0 =~~= Seq::<
            (Option<Seq<char>>, Seq<char>, Seq<char>),
        >::empty());
        assert(spec_recent_scan(rem, room as nat).1 == 0);
    }
    let ghost cviews = collected@.map_values(|l: LogLine| spec_log_line_view(l));
    let ghost total = cviews.len();
    let mut out: Vec<LogLine> = Vec::new();
    while collected.len() > 0
        invariant
            collected@.len() + out@.len() == total,
            collected@.map_values(|l: LogLine| spec_log_line_view(l)) =~~= cviews.subrange(
                0,
                collected@.len() as int,
            ),
            out@.map_values(|l: LogLine| spec_log_line_view(l)) =~~= cviews.reverse().subrange(
                0,
                out@.len() as int,
            ),
        decreases collected@.len(),
    {
        let ghost n = collected@.len();
        let ghost pre = collected@.map_values(|l: LogLine| spec_log_line_view(l));
        let ghost oviews = out@.map_values(|l: LogLine| spec_log_line_view(l));
        match collected.pop() {
            Some(l) => {
                let ghost lv = spec_log_line_view(l);
                out.push(l);
                proof {
                    assert(lv == pre[n - 1]);
                    assert(pre[n - 1] == cviews.subrange(0, n as int)[n - 1]);
                    assert(lv == cviews[n - 1]);
                    assert(cviews.reverse()[total - n] == cviews[n - 1]);
                    assert(collected@.map_values(|x: LogLine| spec_log_line_view(x))
                        =~~= cviews.subrange(0, collected@.len() as int));
                    assert(out@.map_values(|x: LogLine| spec_log_line_view(x)) =~~= oviews.push(
                        lv,
                    ));
                    assert(oviews.push(lv) =~~= cviews.reverse().subrange(0, out@.len() as int));
                }
            },
            None => {},
        }
    }
    proof {
        assert(out@.map_values(|l: LogLine| spec_log_line_view(l)) =~~= cviews.reverse());
    }
    if warns > 0 {
        let mut note: Vec<char> = Vec::new();
        push_str_chars(&mut note, "suppressed ");
        let digits = crate::num::u64_to_chars(warns);
        push_all(&mut note, &digits);
        push_str_chars(&mut note, " repeated state_db discrepancy warnings");
        let ghost oviews = out@.map_values(|l: LogLine| spec_log_line_view(l));
        let entry = LogLine {
            kind: String::from_str("SYSTEM"),
            time: None,
            text: string_of(&note),
        };
        let ghost ev = spec_log_line_view(entry);
        out.push(entry);
        proof {
            assert(ev.2 =~= "suppressed "@ + spec_u64_digits(warns as nat)
                + " repeated state_db discrepancy warnings"@);
            assert(out@.map_values(|l: LogLine| spec_log_line_view(l)) =~~= oviews.push(ev));
            assert(oviews.push(ev) =~~= spec_recent_feed(raw@, limit as nat));
        }
    } else {
        proof {
            assert(out@.map_values(|l: LogLine| spec_log_line_view(l)) =~~= spec_recent_feed(
                raw@,
                limit as nat,
            ));
        }
    }
    out
}

} // verus!
