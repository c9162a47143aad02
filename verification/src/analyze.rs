//! The chunked analysis workflow's decisions: the per-chunk prompt, the
//! file chunking, the consolidation prompt, and the extraction of the
//! engine's final report from its JSON output. Spawning the engine and
//! persisting the report happen outside.

use vstd::prelude::*;

use crate::json::{parse_json_line, parsed_json, spec_json_get, JsonValue};
use crate::num::spec_u64_digits;
use crate::text::{
    chars_of, push_all, push_str_chars, spec_lines, spec_take, spec_trim, split_lines, string_of,
    take_chars, trim_chars,
};

verus! {

/// How one analysis run is configured.
#[derive(Clone, Debug)]
pub struct AnalyzeOptions {
    pub engine: String,
    pub engine_pre_args: Vec<String>,
    pub engine_exec_args: Vec<String>,
    pub thinking_mode: Option<String>,
    pub timeout_minutes: u64,
}

/// What one analysis run produced.
#[derive(Clone, Debug)]
pub struct AnalyzeResult {
    pub modified_files: Vec<String>,
    pub chunks: usize,
    pub chunk_size: usize,
    pub timed_out_chunks: u64,
    pub failed_chunks: u64,
    pub report: String,
    pub latest_path: String,
    pub history_path: String,
}

/// Where an analysis report was persisted.
#[derive(Clone, Debug)]
pub struct AnalyzePaths {
    pub latest_path: String,
    pub history_path: String,
}

/// The file list of an analysis prompt, one bulleted line per file.
pub open spec fn spec_file_bullets(files: Seq<Seq<char>>) -> Seq<char>
    decreases files.len(),
{
    if files.len() == 0 {
        Seq::<char>::empty()
    } else {
        "- "@ + files[0] + seq!['\n'] + spec_file_bullets(files.drop_first())
    }
}

/// The per-chunk analysis prompt: the fixed instructions, the scope label
/// and the bulleted file list.
pub open spec fn spec_analyze_prompt(files: Seq<Seq<char>>, scope_label: Seq<char>) -> Seq<char> {
    "Analyze ONLY these modified files and report exactly:\n1) Critical risks\n2) High risks\n3) Medium risks\n4) Suggested next actions\nDo not propose edits, only analysis.\nEnd with: EXIT_SIGNAL: true\n\nScope: "@
        + scope_label + "\n\nModified files:\n"@ + spec_file_bullets(files)
}

/// Build the analysis prompt for one chunk of files.
#[verifier::loop_isolation(false)]
pub fn build_analyze_prompt(files: &Vec<String>, scope_label: &str) -> (r: String)
    ensures
        r@ == spec_analyze_prompt(files.deep_view(), scope_label@),
{
    let ghost fseq = files.deep_view();
    let mut out: Vec<char> = Vec::new();
    push_str_chars(
        &mut out,
        "Analyze ONLY these modified files and report exactly:\n1) Critical risks\n2) High risks\n3) Medium risks\n4) Suggested next actions\nDo not propose edits, only analysis.\nEnd with: EXIT_SIGNAL: true\n\nScope: ",
    );
    let sv = chars_of(scope_label);
    push_all(&mut out, &sv);
    push_str_chars(&mut out, "\n\nModified files:\n");
    let ghost base = out@;
    let mut i: usize = 0;
    proof {
        assert(fseq.subrange(0, fseq.len() as int) =~~= fseq);
    }
    while i < files.len()
        invariant
            i <= files@.len(),
            out@ + spec_file_bullets(fseq.subrange(i as int, fseq.len() as int)) == base
                + spec_file_bullets(fseq),
        decreases files@.len() - i,
    {
        let ghost rem = fseq.subrange(i as int, fseq.len() as int);
        proof {
            assert(rem.drop_first() =~~= fseq.subrange(i + 1 as int, fseq.len() as int));
            assert(rem[0] == files@[i as int]@);
        }
        let ghost before = out@;
        push_str_chars(&mut out, "- ");
        let fv = chars_of(files[i].as_str());
        push_all(&mut out, &fv);
        out.push('\n');
        proof {
            assert(out@ =~= before + ("- "@ + rem[0] + seq!['\n']));
        }
        i = i + 1;
    }
    proof {
        assert(fseq.subrange(fseq.len() as int, fseq.len() as int) =~~= Seq::<Seq<char>>::empty());
        assert(out@ =~= spec_analyze_prompt(fseq, scope_label@));
    }
    string_of(&out)
}

/// The scope label of one chunk: its one-based position over the total.
pub fn chunk_label(index: usize, total: usize) -> (r: String)
    requires
        index < usize::MAX,
    ensures
        r@ == "chunk "@ + spec_u64_digits((index + 1) as nat) + seq!['/'] + spec_u64_digits(
            total as nat,
        ),
{
    let mut out: Vec<char> = Vec::new();
    push_str_chars(&mut out, "chunk ");
    let a = crate::num::u64_to_chars((index as u64) + 1);
    push_all(&mut out, &a);
    out.push('/');
    let b = crate::num::u64_to_chars(total as u64);
    push_all(&mut out, &b);
    proof {
        assert(out@ =~= "chunk "@ + spec_u64_digits((index + 1) as nat) + seq!['/']
            + spec_u64_digits(total as nat));
    }
    string_of(&out)
}

/// The chunks of a file list, each at most `size` long (at least one file
/// per chunk, a zero size counting as one), in order.
pub open spec fn spec_chunks(files: Seq<Seq<char>>, size: nat) -> Seq<Seq<Seq<char>>>
    decreases files.len(),
{
    let step = if size == 0 {
        1 as nat
    } else {
        size
    };
    if files.len() == 0 {
        Seq::<Seq<Seq<char>>>::empty()
    } else if files.len() <= step {
        seq![files]
    } else {
        seq![files.subrange(0, step as int)] + spec_chunks(
            files.subrange(step as int, files.len() as int),
            step,
        )
    }
}

/// Split a file list into chunks, as the analysis walks them.
#[verifier::loop_isolation(false)]
pub fn chunk_files(files: &Vec<String>, chunk_size: usize) -> (r: Vec<Vec<String>>)
    ensures
        r.deep_view() == spec_chunks(files.deep_view(), chunk_size as nat),
{
    let step: usize = if chunk_size == 0 {
        1
    } else {
        chunk_size
    };
    let ghost fseq = files.deep_view();
    let mut chunks: Vec<Vec<String>> = Vec::new();
    let mut i: usize = 0;
    proof {
        assert(fseq.subrange(0, fseq.len() as int) =~~= fseq);
    }
    while i < files.len()
        invariant
            i <= files@.len(),
            step >= 1,
            step == (if chunk_size == 0 {
                1
            } else {
                chunk_size
            }),
            chunks.deep_view() + spec_chunks(
                fseq.subrange(i as int, fseq.len() as int),
                chunk_size as nat,
            ) =~~= spec_chunks(fseq, chunk_size as nat),
        decreases files@.len() - i,
    {
        let ghost rem = fseq.subrange(i as int, fseq.len() as int);
        let end: usize = if files.len() - i <= step {
            files.len()
        } else {
            i + step
        };
        let mut chunk: Vec<String> = Vec::new();
        let mut j: usize = i;
        while j < end
            invariant
                i <= j <= end <= files@.len(),
                chunk.deep_view() =~~= fseq.subrange(i as int, j as int),
            decreases end - j,
        {
            let ghost before = chunk.deep_view();
            chunk.push(files[j].clone());
            proof {
                assert(chunk.deep_view() =~~= before.push(files@[j as int]@));
                assert(chunk.deep_view() =~~= fseq.subrange(i as int, j + 1 as int));
            }
            j = j + 1;
        }
        let ghost before = chunks.deep_view();
        chunks.push(chunk);
        proof {
            let rem_next = fseq.subrange(end as int, fseq.len() as int);
            assert(chunks.deep_view() =~~= before.push(fseq.subrange(i as int, end as int)));
            if fseq.len() - i <= step {
                assert(fseq.subrange(i as int, end as int) =~~= rem);
                assert(rem_next =~~= Seq::<Seq<char>>::empty());
                assert(spec_chunks(rem_next, chunk_size as nat) =~~= Seq::<
                    Seq<Seq<char>>,
                >::empty());
                assert(before.push(rem) + spec_chunks(rem_next, chunk_size as nat) =~~= before
                    + seq![rem]);
            } else {
                assert(fseq.subrange(i as int, end as int) =~~= rem.subrange(0, step as int));
                assert(rem.subrange(step as int, rem.len() as int) =~~= rem_next);
                assert(rem.len() > step);
                assert(spec_chunks(rem, chunk_size as nat) =~~= seq![rem.subrange(0, step as int)]
                    + spec_chunks(rem.subrange(step as int, rem.len() as int), chunk_size as nat))
                    by {
                    reveal_with_fuel(spec_chunks, 2);
                }
                assert(spec_chunks(rem, chunk_size as nat) =~~= seq![rem.subrange(0, step as int)]
                    + spec_chunks(rem_next, chunk_size as nat));
                assert(before.push(rem.subrange(0, step as int)) + spec_chunks(
                    rem_next,
                    chunk_size as nat,
                ) =~~= before + spec_chunks(rem, chunk_size as nat));
            }
        }
        i = end;
    }
    proof {
        assert(fseq.subrange(fseq.len() as int, fseq.len() as int) =~~= Seq::<Seq<char>>::empty());
    }
    chunks
}

/// The consolidation prompt built over the joined chunk reports.
pub open spec fn spec_synthesis_prompt(joined: Seq<char>) -> Seq<char> {
    "Consolidate the following chunk analyses into exactly:\n1) Critical risks\n2) High risks\n3) Medium risks\n4) Suggested next actions\nEnd with: EXIT_SIGNAL: true\n\n"@
        + joined
}

/// Build the consolidation prompt.
pub fn build_synthesis_prompt(joined: &str) -> (r: String)
    ensures
        r@ == spec_synthesis_prompt(joined@),
{
    let mut out: Vec<char> = Vec::new();
    push_str_chars(
        &mut out,
        "Consolidate the following chunk analyses into exactly:\n1) Critical risks\n2) High risks\n3) Medium risks\n4) Suggested next actions\nEnd with: EXIT_SIGNAL: true\n\n",
    );
    let jv = chars_of(joined);
    push_all(&mut out, &jv);
    proof {
        assert(out@ =~= spec_synthesis_prompt(joined@));
    }
    string_of(&out)
}

/// The agent message of one output line: the `text` of an `agent_message`
/// item on an `item.completed` event, nothing otherwise.
pub open spec fn spec_agent_msg_of_line(line: Seq<char>) -> Option<Seq<char>> {
    match parsed_json(line) {
        Some(v) => {
            if (spec_json_get(v, "type"@) matches Some(t) && t matches JsonValue::Str(s) && s@
                == "item.completed"@) {
                match spec_json_get(v, "item"@) {
                    Some(item) => {
                        if (spec_json_get(item, "type"@) matches Some(t) && t
                            matches JsonValue::Str(s) && s@ == "agent_message"@) {
                            match spec_json_get(item, "text"@) {
                                Some(JsonValue::Str(body)) => Some(body@),
                                _ => None,
                            }
                        } else {
                            None
                        }
                    },
                    None => None,
                }
            } else {
                None
            }
        },
        None => None,
    }
}

/// The last agent message among the lines.
pub open spec fn spec_last_agent_message(lines: Seq<Seq<char>>) -> Option<Seq<char>>
    decreases lines.len(),
{
    if lines.len() == 0 {
        None
    } else {
        match spec_agent_msg_of_line(lines.last()) {
            Some(t) => Some(t),
            None => spec_last_agent_message(lines.drop_last()),
        }
    }
}

/// The agent message of one line.
fn agent_msg_of_line(line: &str) -> (r: Option<String>)
    ensures
        (match r {
            Some(t) => spec_agent_msg_of_line(line@) == Some(t@),
            None => spec_agent_msg_of_line(line@) is None,
        }),
{
    let v = match parse_json_line(line) {
        Some(v) => v,
        None => {
            return None;
        },
    };
    let is_completed = match crate::json::json_get(&v, "type") {
        Some(t) => match crate::json::json_as_str(t) {
            Some(s) => crate::text::str_eq(s.as_str(), "item.completed"),
            None => false,
        },
        None => false,
    };
    if !is_completed {
        return None;
    }
    let item = match crate::json::json_get(&v, "item") {
        Some(item) => item,
        None => {
            return None;
        },
    };
    let is_agent = match crate::json::json_get(item, "type") {
        Some(t) => match crate::json::json_as_str(t) {
            Some(s) => crate::text::str_eq(s.as_str(), "agent_message"),
            None => false,
        },
        None => false,
    };
    if !is_agent {
        return None;
    }
    match crate::json::json_get(item, "text") {
        Some(body) => match crate::json::json_as_str(body) {
            Some(s) => Some(s.clone()),
            None => None,
        },
        None => None,
    }
}

/// Extract the last agent message from an engine's JSON output.
#[verifier::loop_isolation(false)]
pub fn extract_last_agent_message(stdout: &str) -> (r: Option<String>)
    ensures
        (match r {
            Some(t) => spec_last_agent_message(spec_lines(stdout@)) == Some(t@),
            None => spec_last_agent_message(spec_lines(stdout@)) is None,
        }),
{
    let sv = chars_of(stdout);
    let lines = split_lines(&sv);
    let ghost lseq = spec_lines(stdout@);
    let mut last: Option<String> = None;
    let mut i: usize = 0;
    proof {
        assert(lseq.subrange(0, 0) =~~= Seq::<Seq<char>>::empty());
    }
    while i < lines.len()
        invariant
            i <= lines@.len(),
            lines.deep_view() == lseq,
            (match last {
                Some(t) => spec_last_agent_message(lseq.subrange(0, i as int)) == Some(t@),
                None => spec_last_agent_message(lseq.subrange(0, i as int)) is None,
            }),
        decreases lines@.len() - i,
    {
        let ghost pre = lseq.subrange(0, i as int);
        let ghost post = lseq.subrange(0, i + 1 as int);
        proof {
            assert(post.drop_last() =~~= pre);
            assert(post.last() == lseq[i as int]);
            assert(lines@[i as int]@ == lseq[i as int]);
        }
        let line = string_of(&lines[i]);
        match agent_msg_of_line(line.as_str()) {
            Some(t) => {
                last = Some(t);
            },
            None => {},
        }
        i = i + 1;
    }
    proof {
        assert(lseq.subrange(0, lseq.len() as int) =~~= lseq);
    }
    last
}

/// The report text of one engine run: its last agent message, or the
/// trimmed streams joined by a space and cut to 4000 characters.
pub open spec fn spec_chunk_report(stdout: Seq<char>, stderr: Seq<char>) -> Seq<char> {
    match spec_last_agent_message(spec_lines(stdout)) {
        Some(t) => t,
        None => spec_take(spec_trim(stdout) + seq![' '] + spec_trim(stderr), 4000),
    }
}

/// Extract the report of one engine run from its captured output.
pub fn chunk_report(stdout: &str, stderr: &str) -> (r: String)
    ensures
        r@ == spec_chunk_report(stdout@, stderr@),
{
    match extract_last_agent_message(stdout) {
        Some(t) => t,
        None => {
            let sv = chars_of(stdout);
            let ev = chars_of(stderr);
            let mut merged = trim_chars(&sv);
            merged.push(' ');
            let b = trim_chars(&ev);
            push_all(&mut merged, &b);
            proof {
                assert(merged@ =~= spec_trim(stdout@) + seq![' '] + spec_trim(stderr@));
            }
            let cut = take_chars(&merged, 4000);
            string_of(&cut)
        },
    }
}

} // verus!
