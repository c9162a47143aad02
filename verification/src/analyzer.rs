//! Output analyzer: classifies one iteration's captured text into
//! completion, exit-signal, error, progress and session-id facts.

use vstd::prelude::*;

use crate::json::{
    json_contains_string, json_session_id, parse_json_line, parsed_json, spec_json_contains,
    spec_session_from, JsonValue,
};
use crate::text::{
    chars_of, contains_chars, contains_seq, contains_str, lower_seq, push_all, spec_lines,
    spec_take, spec_trim, split_lines, string_of, take_chars, to_lower, trim_chars,
};

verus! {

/// The facts extracted from one iteration's captured output.
#[derive(Clone, Debug)]
pub struct OutputAnalysis {
    pub exit_signal_true: bool,
    pub completion_indicators: u32,
    pub has_error: bool,
    pub has_progress_hint: bool,
    pub session_id: Option<String>,
}

/// Stdout and stderr joined by one newline, the haystack of every textual
/// classification.
pub open spec fn spec_combined(stdout: Seq<char>, stderr: Seq<char>) -> Seq<char> {
    stdout + seq!['\n'] + stderr
}

/// The explicit exit-signal marker occurs, case-insensitively.
pub open spec fn spec_exit_signal(stdout: Seq<char>, stderr: Seq<char>) -> bool {
    contains_seq(lower_seq(spec_combined(stdout, stderr)), "exit_signal: true"@)
}

/// An error marker occurs: a JSON `"error"` key or a bare `error:` token,
/// case-insensitively.
pub open spec fn spec_detect_error(lowercase: Seq<char>) -> bool {
    contains_seq(lowercase, "\"error\""@) || contains_seq(lowercase, "error:"@)
}

/// One of the fixed edit-verb hints occurs, case-insensitively.
pub open spec fn spec_detect_progress_hint(lowercase: Seq<char>) -> bool {
    contains_seq(lowercase, "apply_patch"@) || contains_seq(lowercase, "updated file"@)
        || contains_seq(lowercase, "wrote"@) || contains_seq(lowercase, "created"@)
        || contains_seq(lowercase, "modified"@)
}

/// How many of the configured indicators occur as plain substrings.
pub open spec fn spec_plain_count(text: Seq<char>, inds: Seq<Seq<char>>) -> nat
    decreases inds.len(),
{
    if inds.len() == 0 {
        0
    } else {
        (if contains_seq(text, inds[0]) {
            1 as nat
        } else {
            0 as nat
        }) + spec_plain_count(text, inds.drop_first())
    }
}

/// How many of the configured indicators occur in the string values of one
/// parsed JSON tree.
pub open spec fn spec_json_count(v: JsonValue, inds: Seq<Seq<char>>) -> nat
    decreases inds.len(),
{
    if inds.len() == 0 {
        0
    } else {
        (if spec_json_contains(v, inds[0]) {
            1 as nat
        } else {
            0 as nat
        }) + spec_json_count(v, inds.drop_first())
    }
}

/// The indicator count of one output line: its JSON count when the line
/// parses as JSON, zero otherwise.
pub open spec fn spec_json_count_of_line(line: Seq<char>, inds: Seq<Seq<char>>) -> nat {
    match parsed_json(line) {
        Some(v) => spec_json_count(v, inds),
        None => 0,
    }
}

/// The JSON fallback count: the count of the first line whose JSON tree
/// holds an indicator, zero when no line does.
pub open spec fn spec_fallback_count(lines: Seq<Seq<char>>, inds: Seq<Seq<char>>) -> nat
    decreases lines.len(),
{
    if lines.len() == 0 {
        0
    } else if spec_json_count_of_line(lines[0], inds) > 0 {
        spec_json_count_of_line(lines[0], inds)
    } else {
        spec_fallback_count(lines.drop_first(), inds)
    }
}

/// The completion-indicator count of one iteration: the plain-substring
/// count over the combined text when any indicator matched there, else the
/// JSON fallback over stdout's lines.
pub open spec fn spec_indicator_count(
    stdout: Seq<char>,
    stderr: Seq<char>,
    inds: Seq<Seq<char>>,
) -> nat {
    let plain = spec_plain_count(spec_combined(stdout, stderr), inds);
    if plain > 0 {
        plain
    } else {
        spec_fallback_count(spec_lines(stdout), inds)
    }
}

/// The session id of one iteration: scan stdout line by line, parse each as
/// JSON, and keep the first id found; later lines never override it.
pub open spec fn spec_session_of_lines(lines: Seq<Seq<char>>, keys: Seq<Seq<char>>) -> Option<
    Seq<char>,
>
    decreases lines.len(),
{
    if lines.len() == 0 {
        None
    } else {
        let head = match parsed_json(lines[0]) {
            Some(v) => spec_session_from(v, keys),
            None => None,
        };
        match head {
            Some(s) => Some(s),
            None => spec_session_of_lines(lines.drop_first(), keys),
        }
    }
}

/// An error marker occurs in the (already lowercased) text.
pub fn detect_error(lowercase: &str) -> (r: bool)
    ensures
        r == spec_detect_error(lowercase@),
{
    let v = chars_of(lowercase);
    contains_str(&v, "\"error\"") || contains_str(&v, "error:")
}

/// An edit-verb progress hint occurs in the (already lowercased) text.
pub fn detect_progress_hint(lowercase: &str) -> (r: bool)
    ensures
        r == spec_detect_progress_hint(lowercase@),
{
    let v = chars_of(lowercase);
    contains_str(&v, "apply_patch") || contains_str(&v, "updated file") || contains_str(&v, "wrote")
        || contains_str(&v, "created") || contains_str(&v, "modified")
}

/// Count the indicators that occur as plain substrings of `text`.
#[verifier::loop_isolation(false)]
pub fn count_completion_indicators(text: &Vec<char>, indicators: &Vec<String>) -> (r: u32)
    requires
        indicators@.len() <= u32::MAX,
    ensures
        r as nat == spec_plain_count(text@, indicators.deep_view()),
{
    let ghost iseq = indicators.deep_view();
    let mut count: u32 = 0;
    let mut i: usize = 0;
    proof {
        assert(iseq.subrange(0, iseq.len() as int) =~~= iseq);
    }
    while i < indicators.len()
        invariant
            i <= indicators@.len(),
            count <= i,
            spec_plain_count(text@, iseq) == count + spec_plain_count(
                text@,
                iseq.subrange(i as int, iseq.len() as int),
            ),
        decreases indicators@.len() - i,
    {
        let ghost rem = iseq.subrange(i as int, iseq.len() as int);
        proof {
            assert(rem.drop_first() =~~= iseq.subrange(i + 1 as int, iseq.len() as int));
            assert(rem[0] == indicators@[i as int]@);
        }
        let pat = chars_of(indicators[i].as_str());
        if contains_chars(text, &pat) {
            count = count + 1;
        }
        i = i + 1;
    }
    proof {
        assert(iseq.subrange(iseq.len() as int, iseq.len() as int) =~~= Seq::<Seq<char>>::empty());
    }
    count
}

/// Count the indicators that occur in the string values of one JSON tree.
#[verifier::loop_isolation(false)]
pub fn count_json_indicators(v: &JsonValue, indicators: &Vec<String>) -> (r: u32)
    requires
        indicators@.len() <= u32::MAX,
    ensures
        r as nat == spec_json_count(*v, indicators.deep_view()),
{
    let ghost iseq = indicators.deep_view();
    let mut count: u32 = 0;
    let mut i: usize = 0;
    proof {
        assert(iseq.subrange(0, iseq.len() as int) =~~= iseq);
    }
    while i < indicators.len()
        invariant
            i <= indicators@.len(),
            count <= i,
            spec_json_count(*v, iseq) == count + spec_json_count(
                *v,
                iseq.subrange(i as int, iseq.len() as int),
            ),
        decreases indicators@.len() - i,
    {
        let ghost rem = iseq.subrange(i as int, iseq.len() as int);
        proof {
            assert(rem.drop_first() =~~= iseq.subrange(i + 1 as int, iseq.len() as int));
            assert(rem[0] == indicators@[i as int]@);
        }
        let pat = chars_of(indicators[i].as_str());
        if json_contains_string(v, &pat) {
            count = count + 1;
        }
        i = i + 1;
    }
    proof {
        assert(iseq.subrange(iseq.len() as int, iseq.len() as int) =~~= Seq::<Seq<char>>::empty());
    }
    count
}

/// The session-id keys that the engine-neutral analyzer looks for.
pub open spec fn spec_base_session_keys() -> Seq<Seq<char>> {
    seq!["session_id"@, "thread_id"@, "conversation_id"@]
}

/// The session-id keys of the engine output parser, which also accepts a
/// bare `id` entry.
pub open spec fn spec_parser_session_keys() -> Seq<Seq<char>> {
    seq!["session_id"@, "thread_id"@, "conversation_id"@, "id"@]
}

/// Classify one iteration's captured text against the configured
/// completion indicators; `with_id_key` selects whether a bare `id` entry
/// may carry the session id.
#[verifier::loop_isolation(false)]
fn analyze_text(stdout: &str, stderr: &str, indicators: &Vec<String>, with_id_key: bool) -> (r:
    OutputAnalysis)
    requires
        indicators@.len() <= u32::MAX,
    ensures
        r.exit_signal_true == spec_exit_signal(stdout@, stderr@),
        r.has_error == spec_detect_error(lower_seq(spec_combined(stdout@, stderr@))),
        r.has_progress_hint == spec_detect_progress_hint(
            lower_seq(spec_combined(stdout@, stderr@)),
        ),
        r.completion_indicators as nat == spec_indicator_count(
            stdout@,
            stderr@,
            indicators.deep_view(),
        ),
        ({
            let keys = if with_id_key {
                spec_parser_session_keys()
            } else {
                spec_base_session_keys()
            };
            match r.session_id {
                Some(s) => spec_session_of_lines(spec_lines(stdout@), keys) == Some(s@),
                None => spec_session_of_lines(spec_lines(stdout@), keys) is None,
            }
        }),
{
    let ghost iseq = indicators.deep_view();
    let sv = chars_of(stdout);
    let ev = chars_of(stderr);
    let mut text: Vec<char> = Vec::new();
    push_all(&mut text, &sv);
    text.push('\n');
    push_all(&mut text, &ev);
    proof {
        assert(text@ =~= spec_combined(stdout@, stderr@));
    }
    let lower = to_lower(&text);

    let exit_signal_true = contains_str(&lower, "exit_signal: true");
    let has_error = contains_str(&lower, "\"error\"") || contains_str(&lower, "error:");
    let has_progress_hint = contains_str(&lower, "apply_patch") || contains_str(
        &lower,
        "updated file",
    ) || contains_str(&lower, "wrote") || contains_str(&lower, "created") || contains_str(
        &lower,
        "modified",
    );

    let mut completion_count: u32 = count_completion_indicators(&text, indicators);
    let ghost plain = spec_plain_count(text@, iseq);

    let mut keys: Vec<String> = Vec::new();
    keys.push(String::from_str("session_id"));
    keys.push(String::from_str("thread_id"));
    keys.push(String::from_str("conversation_id"));
    if with_id_key {
        keys.push(String::from_str("id"));
    }
    let ghost kseq = if with_id_key {
        spec_parser_session_keys()
    } else {
        spec_base_session_keys()
    };
    proof {
        assert(keys@.map_values(|k: String| k@) =~~= kseq);
    }

    let lines = split_lines(&sv);
    let ghost lseq = spec_lines(stdout@);
    let mut session_id: Option<String> = None;
    let mut i: usize = 0;
    proof {
        assert(lseq.subrange(0, lseq.len() as int) =~~= lseq);
    }
    while i < lines.len()
        invariant
            i <= lines@.len(),
            lines.deep_view() == lseq,
            keys@.map_values(|k: String| k@) == kseq,
            indicators@.len() <= u32::MAX,
            iseq == indicators.deep_view(),
            ({
                let rem = lseq.subrange(i as int, lseq.len() as int);
                &&& (match session_id {
                    Some(s) => spec_session_of_lines(lseq, kseq) == Some(s@),
                    None => spec_session_of_lines(lseq, kseq) == spec_session_of_lines(rem, kseq),
                })
                &&& (if completion_count > 0 {
                    spec_indicator_count(stdout@, stderr@, iseq) == completion_count as nat
                } else {
                    plain == 0 && spec_indicator_count(stdout@, stderr@, iseq)
                        == spec_fallback_count(rem, iseq)
                })
            }),
        decreases lines@.len() - i,
    {
        let ghost rem = lseq.subrange(i as int, lseq.len() as int);
        proof {
            assert(rem.drop_first() =~~= lseq.subrange(i + 1 as int, lseq.len() as int));
            assert(rem[0] == lseq[i as int]);
            assert(lines@[i as int]@ == lines.deep_view()[i as int]);
        }
        let line_string = string_of(&lines[i]);
        match parse_json_line(line_string.as_str()) {
            Some(value) => {
                if session_id.is_none() {
                    session_id = json_session_id(&value, &keys);
                }
                if completion_count == 0 {
                    completion_count = count_json_indicators(&value, indicators);
                }
            },
            None => {},
        }
        i = i + 1;
    }
    proof {
        assert(lseq.subrange(lseq.len() as int, lseq.len() as int) =~~= Seq::<Seq<char>>::empty());
    }

    OutputAnalysis {
        exit_signal_true,
        completion_indicators: completion_count,
        has_error,
        has_progress_hint,
        session_id,
    }
}

/// Classify one iteration's output, looking session ids up under the
/// `session_id`, `thread_id` and `conversation_id` keys.
pub fn analyze_output(stdout: &str, stderr: &str, indicators: &Vec<String>) -> (r: OutputAnalysis)
    requires
        indicators@.len() <= u32::MAX,
    ensures
        r.exit_signal_true == spec_exit_signal(stdout@, stderr@),
        r.has_error == spec_detect_error(lower_seq(spec_combined(stdout@, stderr@))),
        r.has_progress_hint == spec_detect_progress_hint(
            lower_seq(spec_combined(stdout@, stderr@)),
        ),
        r.completion_indicators as nat == spec_indicator_count(
            stdout@,
            stderr@,
            indicators.deep_view(),
        ),
        (match r.session_id {
            Some(s) => spec_session_of_lines(spec_lines(stdout@), spec_base_session_keys())
                == Some(s@),
            None => spec_session_of_lines(spec_lines(stdout@), spec_base_session_keys()) is None,
        }),
{
    analyze_text(stdout, stderr, indicators, false)
}

/// The engine output parser: the same classification, and a bare `id`
/// entry may also carry the session id.
pub struct OutputParser;

impl OutputParser {
    /// Classify one iteration's output for an engine.
    pub fn parse(stdout: &str, stderr: &str, indicators: &Vec<String>) -> (r: OutputAnalysis)
        requires
            indicators@.len() <= u32::MAX,
        ensures
            r.exit_signal_true == spec_exit_signal(stdout@, stderr@),
            r.has_error == spec_detect_error(lower_seq(spec_combined(stdout@, stderr@))),
            r.has_progress_hint == spec_detect_progress_hint(
                lower_seq(spec_combined(stdout@, stderr@)),
            ),
            r.completion_indicators as nat == spec_indicator_count(
                stdout@,
                stderr@,
                indicators.deep_view(),
            ),
            (match r.session_id {
                Some(s) => spec_session_of_lines(spec_lines(stdout@), spec_parser_session_keys())
                    == Some(s@),
                None => spec_session_of_lines(spec_lines(stdout@), spec_parser_session_keys())
                    is None,
            }),
    {
        analyze_text(stdout, stderr, indicators, true)
    }
}

/// The progress summary of one iteration: both streams trimmed and joined
/// by one space, trimmed again, cut to 180 characters; `no output` when
/// nothing remains.
pub open spec fn spec_summarize(stdout: Seq<char>, stderr: Seq<char>) -> Seq<char> {
    let joined = spec_trim(stdout) + seq![' '] + spec_trim(stderr);
    let t = spec_trim(joined);
    if t.len() == 0 {
        "no output"@
    } else {
        spec_take(t, 180)
    }
}

/// Summarize one iteration's output for the progress snapshot.
pub fn summarize_output(stdout: &str, stderr: &str) -> (r: String)
    ensures
        r@ == spec_summarize(stdout@, stderr@),
{
    let sv = chars_of(stdout);
    let ev = chars_of(stderr);
    let a = trim_chars(&sv);
    let b = trim_chars(&ev);
    let mut joined = a;
    joined.push(' ');
    push_all(&mut joined, &b);
    proof {
        assert(joined@ =~= spec_trim(stdout@) + seq![' '] + spec_trim(stderr@));
    }
    let t = trim_chars(&joined);
    if t.len() == 0 {
        String::from_str("no output")
    } else {
        let cut = take_chars(&t, 180);
        string_of(&cut)
    }
}

} // verus!
