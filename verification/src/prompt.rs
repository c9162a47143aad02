//! The iteration prompt built from the plan file, and the plan's checklist
//! summary. The plan text and the prior progress summary are read outside
//! and handed in.

use vstd::prelude::*;

use crate::text::{
    chars_of, contains_seq, contains_str, push_all, push_str_chars, spec_join, spec_lines,
    spec_trim, split_lines, string_of, join_strings, lemma_lines_len_le, trim_chars,
};

verus! {

/// How a plan's checklist splits into unchecked and checked items.
#[derive(Clone, Debug, PartialEq, Eq, Structural)]
pub struct PlanSummary {
    pub total_items: usize,
    pub unchecked_items: usize,
    pub checked_items: usize,
}

/// The instruction block that opens every iteration prompt.
pub open spec fn spec_prompt_preamble() -> Seq<char> {
    "You are continuing an iterative execution loop.\nContinue from current workspace state. Do NOT redo completed checklist items.\nAvoid broad scans like `rg --files`; inspect only files needed for the current pending task.\nApply small, verifiable steps and run only targeted validations per step.\nEmit `EXIT_SIGNAL: true` only when all pending checklist items are complete.\n\n"@
}

/// The unchecked checklist lines of a plan, trimmed, capped at `room`.
pub open spec fn spec_pending_items(lines: Seq<Seq<char>>, room: nat) -> Seq<Seq<char>>
    decreases lines.len(),
{
    if lines.len() == 0 || room == 0 {
        Seq::<Seq<char>>::empty()
    } else if contains_seq(lines[0], "- [ ]"@) {
        seq![spec_trim(lines[0])] + spec_pending_items(lines.drop_first(), (room - 1) as nat)
    } else {
        spec_pending_items(lines.drop_first(), room)
    }
}

/// The pending block of the prompt: the capped unchecked items, or a
/// fallback sentence when the plan lists none.
pub open spec fn spec_pending_block(lines: Seq<Seq<char>>) -> Seq<char> {
    let items = spec_pending_items(lines, 80);
    if items.len() == 0 {
        "No explicit unchecked checklist items found; continue from current repo state and finalize remaining plan work."@
    } else {
        "Unchecked checklist items (execute only what is still pending):\n"@ + spec_join(
            items,
            seq!['\n'],
        )
    }
}

/// The continuity line carrying the last loop summary.
pub open spec fn spec_continuity(last_summary: Seq<char>) -> Seq<char> {
    if spec_trim(last_summary).len() == 0 {
        "Last loop summary: (none)"@
    } else {
        "Last loop summary: "@ + spec_trim(last_summary)
    }
}

/// The whole iteration prompt for a non-empty plan.
pub open spec fn spec_plan_prompt(plan: Seq<char>, last_summary: Seq<char>) -> Seq<char> {
    spec_prompt_preamble() + spec_continuity(last_summary) + "\n\n"@ + spec_pending_block(
        spec_lines(spec_trim(plan)),
    ) + "\n\nPlan source: .forge/plan.md"@
}

/// Collect the trimmed unchecked checklist lines, capped at 80.
#[verifier::loop_isolation(false)]
fn pending_items(lines: &Vec<Vec<char>>) -> (r: Vec<String>)
    ensures
        r.deep_view() == spec_pending_items(lines.deep_view(), 80),
{
    let ghost lseq = lines.deep_view();
    let mut items: Vec<String> = Vec::new();
    let mut room: usize = 80;
    let mut i: usize = 0;
    proof {
        assert(lseq.subrange(0, lseq.len() as int) =~~= lseq);
    }
    while i < lines.len() && room > 0
        invariant
            i <= lines@.len(),
            room <= 80,
            items.deep_view() + spec_pending_items(
                lseq.subrange(i as int, lseq.len() as int),
                room as nat,
            ) =~~= spec_pending_items(lseq, 80),
        decreases lines@.len() - i,
    {
        let ghost rem = lseq.subrange(i as int, lseq.len() as int);
        proof {
            assert(rem.drop_first() =~~= lseq.subrange(i + 1 as int, lseq.len() as int));
            assert(rem[0] == lines@[i as int]@);
        }
        if contains_str(&lines[i], "- [ ]") {
            let ghost before = items.deep_view();
            let trimmed = trim_chars(&lines[i]);
            items.push(string_of(&trimmed));
            proof {
                assert(items.deep_view() =~~= before.push(spec_trim(rem[0])));
            }
            room = room - 1;
        }
        i = i + 1;
    }
    proof {
        if i == lines@.len() {
            assert(lseq.subrange(lseq.len() as int, lseq.len() as int) =~~= Seq::<
                Seq<char>,
            >::empty());
        }
    }
    items
}

/// Build the iteration prompt from the plan text and the last progress
/// summary: nothing when there is no plan or only whitespace in it.
pub fn build_plan_prompt(plan: Option<&str>, last_summary: &str) -> (r: Option<String>)
    ensures
        (match plan {
            Some(p) => (match r {
                Some(text) => spec_trim(p@).len() != 0 && text@ == spec_plan_prompt(
                    p@,
                    last_summary@,
                ),
                None => spec_trim(p@).len() == 0,
            }),
            None => r is None,
        }),
{
    let plan_text = match plan {
        Some(p) => p,
        None => {
            return None;
        },
    };
    let pv = chars_of(plan_text);
    let trimmed = trim_chars(&pv);
    if trimmed.len() == 0 {
        return None;
    }
    let lines = split_lines(&trimmed);
    let items = pending_items(&lines);

    let mut out: Vec<char> = Vec::new();
    push_str_chars(
        &mut out,
        "You are continuing an iterative execution loop.\nContinue from current workspace state. Do NOT redo completed checklist items.\nAvoid broad scans like `rg --files`; inspect only files needed for the current pending task.\nApply small, verifiable steps and run only targeted validations per step.\nEmit `EXIT_SIGNAL: true` only when all pending checklist items are complete.\n\n",
    );
    let sv = chars_of(last_summary);
    let strimmed = trim_chars(&sv);
    if strimmed.len() == 0 {
        push_str_chars(&mut out, "Last loop summary: (none)");
    } else {
        push_str_chars(&mut out, "Last loop summary: ");
        push_all(&mut out, &strimmed);
    }
    push_str_chars(&mut out, "\n\n");
    if items.len() == 0 {
        push_str_chars(
            &mut out,
            "No explicit unchecked checklist items found; continue from current repo state and finalize remaining plan work.",
        );
    } else {
        push_str_chars(&mut out, "Unchecked checklist items (execute only what is still pending):\n");
        let joined = join_strings(&items, "\n");
        let jv = chars_of(joined.as_str());
        push_all(&mut out, &jv);
        proof {
            reveal_strlit("\n");
            assert("\n"@ =~= seq!['\n']);
        }
    }
    push_str_chars(&mut out, "\n\nPlan source: .forge/plan.md");
    proof {
        assert(out@ =~= spec_plan_prompt(plan_text@, last_summary@));
    }
    Some(string_of(&out))
}

/// How many lines hold the pattern.
pub open spec fn spec_count_containing(lines: Seq<Seq<char>>, pat: Seq<char>) -> nat
    decreases lines.len(),
{
    if lines.len() == 0 {
        0
    } else {
        (if contains_seq(lines[0], pat) {
            1 as nat
        } else {
            0 as nat
        }) + spec_count_containing(lines.drop_first(), pat)
    }
}

/// The count never exceeds the number of lines.
proof fn lemma_count_le(lines: Seq<Seq<char>>, pat: Seq<char>)
    ensures
        spec_count_containing(lines, pat) <= lines.len(),
    decreases lines.len(),
{
    if lines.len() > 0 {
        lemma_count_le(lines.drop_first(), pat);
    }
}

/// Count the lines holding a pattern.
#[verifier::loop_isolation(false)]
fn count_containing(lines: &Vec<Vec<char>>, pat: &str) -> (r: usize)
    ensures
        r as nat == spec_count_containing(lines.deep_view(), pat@),
        r <= lines@.len(),
{
    let ghost lseq = lines.deep_view();
    let mut count: usize = 0;
    let mut i: usize = 0;
    proof {
        assert(lseq.subrange(0, lseq.len() as int) =~~= lseq);
    }
    while i < lines.len()
        invariant
            i <= lines@.len(),
            count <= i,
            count + spec_count_containing(lseq.subrange(i as int, lseq.len() as int), pat@)
                == spec_count_containing(lseq, pat@),
        decreases lines@.len() - i,
    {
        let ghost rem = lseq.subrange(i as int, lseq.len() as int);
        proof {
            assert(rem.drop_first() =~~= lseq.subrange(i + 1 as int, lseq.len() as int));
            assert(rem[0] == lines@[i as int]@);
        }
        if contains_str(&lines[i], pat) {
            count = count + 1;
        }
        i = i + 1;
    }
    proof {
        assert(lseq.subrange(lseq.len() as int, lseq.len() as int) =~~= Seq::<Seq<char>>::empty());
        lemma_count_le(lseq, pat@);
    }
    count
}

/// Summarize a plan's checklist: how many lines carry an unchecked or a
/// checked box; nothing when there is no plan or it is only whitespace.
pub fn analyze_plan(plan: Option<&str>) -> (r: Option<PlanSummary>)
    requires
        (match plan {
            Some(p) => p@.len() + 2 <= usize::MAX / 2,
            None => true,
        }),
    ensures
        (match plan {
            Some(p) => (match r {
                Some(s) => {
                    let lines = spec_lines(spec_trim(p@));
                    &&& spec_trim(p@).len() != 0
                    &&& s.unchecked_items as nat == spec_count_containing(lines, "- [ ]"@)
                    &&& s.checked_items as nat == spec_count_containing(lines, "- [x]"@)
                    &&& s.total_items == s.unchecked_items + s.checked_items
                },
                None => spec_trim(p@).len() == 0,
            }),
            None => r is None,
        }),
{
    let plan_text = match plan {
        Some(p) => p,
        None => {
            return None;
        },
    };
    let pv = chars_of(plan_text);
    let trimmed = trim_chars(&pv);
    if trimmed.len() == 0 {
        return None;
    }
    let lines = split_lines(&trimmed);
    proof {
        lemma_lines_len_le(trimmed@);
        crate::text::lemma_trim_le(pv@);
        assert(lines.deep_view().len() == lines@.len());
        assert(lines@.len() <= plan_text@.len() + 1);
    }
    let unchecked = count_containing(&lines, "- [ ]");
    let checked = count_containing(&lines, "- [x]");
    Some(
        PlanSummary {
            total_items: unchecked + checked,
            unchecked_items: unchecked,
            checked_items: checked,
        },
    )
}

} // verus!
