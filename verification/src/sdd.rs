//! Session snapshots: the interview answers, the rendered spec, acceptance,
//! scenario and plan documents, and the snapshot metadata. The interview
//! itself and the snapshot files are handled outside; this module renders
//! and decodes their content.

use vstd::prelude::*;

use crate::json::{parse_json_line, parsed_json, spec_json_get, JsonValue};
use crate::num::spec_u64_digits;
use crate::status::{spec_str_or, spec_u64_or_zero};
use crate::text::{
    chars_of, lower_char, push_all, push_str_chars, spec_split, spec_trim, split_chars, string_of,
    trim_chars,
};

verus! {

/// How much of the engine's reasoning a session surfaces; mirrored into the
/// run configuration's mode when a session starts.
#[derive(Clone, Copy, Debug, PartialEq, Eq, Structural)]
pub enum ThinkingMode {
    Off,
    Summary,
    Raw,
}

impl core::convert::From<ThinkingMode> for crate::config::ThinkingMode {
    /// Map a session's mode onto the run configuration's mode.
    fn from(value: ThinkingMode) -> (r: Self) {
        match value {
            ThinkingMode::Off => crate::config::ThinkingMode::Off,
            ThinkingMode::Summary => crate::config::ThinkingMode::Summary,
            ThinkingMode::Raw => crate::config::ThinkingMode::Raw,
        }
    }
}

impl vstd::std_specs::convert::FromSpecImpl<ThinkingMode> for crate::config::ThinkingMode {
    open spec fn obeys_from_spec() -> bool {
        true
    }

    open spec fn from_spec(v: ThinkingMode) -> Self {
        match v {
            ThinkingMode::Off => crate::config::ThinkingMode::Off,
            ThinkingMode::Summary => crate::config::ThinkingMode::Summary,
            ThinkingMode::Raw => crate::config::ThinkingMode::Raw,
        }
    }
}

/// The label of a session's thinking mode.
pub open spec fn spec_sdd_thinking_label(m: ThinkingMode) -> Seq<char> {
    match m {
        ThinkingMode::Off => "off"@,
        ThinkingMode::Summary => "summary"@,
        ThinkingMode::Raw => "raw"@,
    }
}

/// The answers collected by the session interview.
#[derive(Clone, Debug)]
pub struct SddInterview {
    pub project_name: String,
    pub product_goal: String,
    pub target_users: String,
    pub thinking: ThinkingMode,
    pub in_scope: String,
    pub out_of_scope: String,
    pub constraints: String,
    pub acceptance_criteria: String,
    pub scenarios: String,
    pub tests: String,
    pub max_loops: u64,
}

/// The metadata persisted beside a session snapshot.
#[derive(Clone, Debug)]
pub struct SddMeta {
    pub id: String,
    pub project_name: String,
    pub goal: String,
    pub created_at_epoch: u64,
}

impl Default for SddMeta {
    /// An empty metadata record.
    fn default() -> (r: Self)
        ensures
            r.id@ == Seq::<char>::empty(),
            r.project_name@ == Seq::<char>::empty(),
            r.goal@ == Seq::<char>::empty(),
            r.created_at_epoch == 0,
    {
        SddMeta {
            id: String::new(),
            project_name: String::new(),
            goal: String::new(),
            created_at_epoch: 0,
        }
    }
}

/// Where session snapshots live under a working directory.
pub fn sdd_root(cwd: &str) -> (r: String)
    ensures
        r@ == cwd@ + "/.forge/sdds"@,
{
    let mut out = chars_of(cwd);
    push_str_chars(&mut out, "/.forge/sdds");
    string_of(&out)
}

/// The active session id held by the marker file: its trimmed content,
/// nothing when the file is missing or blank.
pub fn current_sdd_id(content: Option<&str>) -> (r: Option<String>)
    ensures
        (match content {
            Some(t) => (match r {
                Some(id) => spec_trim(t@).len() != 0 && id@ == spec_trim(t@),
                None => spec_trim(t@).len() == 0,
            }),
            None => r is None,
        }),
{
    match content {
        Some(t) => {
            let v = chars_of(t);
            let trimmed = trim_chars(&v);
            if trimmed.len() == 0 {
                None
            } else {
                Some(string_of(&trimmed))
            }
        },
        None => None,
    }
}

/// The rendered session spec document.
pub open spec fn spec_render_spec(a: SddInterview) -> Seq<char> {
    "# Session Spec\n\n## Project\n"@ + a.project_name@ + "\n\n## Goal\n"@ + a.product_goal@
        + "\n\n## Target Users\n"@ + a.target_users@ + "\n\n## In Scope\n"@ + a.in_scope@
        + "\n\n## Out of Scope\n"@ + a.out_of_scope@ + "\n\n## Constraints\n"@ + a.constraints@
        + "\n"@
}

/// Render the session spec document.
pub fn render_spec(a: &SddInterview) -> (r: String)
    ensures
        r@ == spec_render_spec(*a),
{
    let mut out: Vec<char> = Vec::new();
    push_str_chars(&mut out, "# Session Spec\n\n## Project\n");
    let t = chars_of(a.project_name.as_str());
    push_all(&mut out, &t);
    push_str_chars(&mut out, "\n\n## Goal\n");
    let t = chars_of(a.product_goal.as_str());
    push_all(&mut out, &t);
    push_str_chars(&mut out, "\n\n## Target Users\n");
    let t = chars_of(a.target_users.as_str());
    push_all(&mut out, &t);
    push_str_chars(&mut out, "\n\n## In Scope\n");
    let t = chars_of(a.in_scope.as_str());
    push_all(&mut out, &t);
    push_str_chars(&mut out, "\n\n## Out of Scope\n");
    let t = chars_of(a.out_of_scope.as_str());
    push_all(&mut out, &t);
    push_str_chars(&mut out, "\n\n## Constraints\n");
    let t = chars_of(a.constraints.as_str());
    push_all(&mut out, &t);
    push_str_chars(&mut out, "\n");
    proof {
        assert(out@ =~= spec_render_spec(*a));
    }
    string_of(&out)
}

/// The checklist lines of the acceptance document: one unchecked box per
/// non-empty trimmed semicolon-separated criterion.
pub open spec fn spec_acceptance_items(segs: Seq<Seq<char>>) -> Seq<char>
    decreases segs.len(),
{
    if segs.len() == 0 {
        Seq::<char>::empty()
    } else {
        (if spec_trim(segs[0]).len() > 0 {
            "- [ ] "@ + spec_trim(segs[0]) + seq!['\n']
        } else {
            Seq::<char>::empty()
        }) + spec_acceptance_items(segs.drop_first())
    }
}

/// The rendered acceptance document.
pub open spec fn spec_render_acceptance(a: SddInterview) -> Seq<char> {
    "# Session Acceptance Criteria\n\n"@ + spec_acceptance_items(
        spec_split(a.acceptance_criteria@, ';'),
    ) + "\n## Test Strategy\n"@ + a.tests@ + "\n"@
}

/// Render the acceptance document, one checklist box per criterion.
#[verifier::loop_isolation(false)]
pub fn render_acceptance(a: &SddInterview) -> (r: String)
    ensures
        r@ == spec_render_acceptance(*a),
{
    let mut out: Vec<char> = Vec::new();
    push_str_chars(&mut out, "# Session Acceptance Criteria\n\n");
    let cv = chars_of(a.acceptance_criteria.as_str());
    let segs = split_chars(&cv, ';');
    let ghost sseq = spec_split(a.acceptance_criteria@, ';');
    let ghost base = out@;
    let mut i: usize = 0;
    proof {
        assert(sseq.subrange(0, sseq.len() as int) =~~= sseq);
    }
    while i < segs.len()
        invariant
            i <= segs@.len(),
            segs.deep_view() == sseq,
            out@ + spec_acceptance_items(sseq.subrange(i as int, sseq.len() as int)) == base
                + spec_acceptance_items(sseq),
        decreases segs@.len() - i,
    {
        let ghost rem = sseq.subrange(i as int, sseq.len() as int);
        proof {
            assert(rem.drop_first() =~~= sseq.subrange(i + 1 as int, sseq.len() as int));
            assert(rem[0] == segs@[i as int]@);
        }
        let trimmed = trim_chars(&segs[i]);
        if trimmed.len() > 0 {
            let ghost before = out@;
            push_str_chars(&mut out, "- [ ] ");
            push_all(&mut out, &trimmed);
            out.push('\n');
            proof {
                assert(out@ =~= before + ("- [ ] "@ + spec_trim(rem[0]) + seq!['\n']));
            }
        }
        i = i + 1;
    }
    proof {
        assert(sseq.subrange(sseq.len() as int, sseq.len() as int) =~~= Seq::<Seq<char>>::empty());
    }
    push_str_chars(&mut out, "\n## Test Strategy\n");
    let tv = chars_of(a.tests.as_str());
    push_all(&mut out, &tv);
    push_str_chars(&mut out, "\n");
    proof {
        assert(out@ =~= spec_render_acceptance(*a));
    }
    string_of(&out)
}

/// The scenario sections: each non-empty trimmed item under a heading
/// numbered by its position in the raw semicolon split.
pub open spec fn spec_scenario_items(segs: Seq<Seq<char>>, pos: nat) -> Seq<char>
    decreases segs.len(),
{
    if segs.len() == 0 {
        Seq::<char>::empty()
    } else {
        (if spec_trim(segs[0]).len() > 0 {
            "## Scenario "@ + spec_u64_digits(pos + 1) + seq!['\n'] + spec_trim(segs[0]) + "\n\n"@
        } else {
            Seq::<char>::empty()
        }) + spec_scenario_items(segs.drop_first(), pos + 1)
    }
}

/// Whether any scenario item survives trimming.
pub open spec fn spec_has_scenario(segs: Seq<Seq<char>>) -> bool
    decreases segs.len(),
{
    if segs.len() == 0 {
        false
    } else {
        spec_trim(segs[0]).len() > 0 || spec_has_scenario(segs.drop_first())
    }
}

/// The rendered scenarios document, with a default scenario when the
/// answers hold none.
pub open spec fn spec_render_scenarios(a: SddInterview) -> Seq<char> {
    let segs = spec_split(a.scenarios@, ';');
    let header = "# Session Scenarios\n\n"@;
    if spec_has_scenario(segs) {
        header + spec_scenario_items(segs, 0)
    } else {
        header
            + "## Scenario 1\nGiven a planned task When forge run executes Then progress is persisted\n"@
    }
}

/// Render the scenarios document.
#[verifier::loop_isolation(false)]
pub fn render_scenarios(a: &SddInterview) -> (r: String)
    ensures
        r@ == spec_render_scenarios(*a),
{
    let sv = chars_of(a.scenarios.as_str());
    let segs = split_chars(&sv, ';');
    let ghost sseq = spec_split(a.scenarios@, ';');
    let mut body: Vec<char> = Vec::new();
    let mut any = false;
    let mut i: usize = 0;
    proof {
        assert(sseq.subrange(0, sseq.len() as int) =~~= sseq);
    }
    while i < segs.len()
        invariant
            i <= segs@.len(),
            segs.deep_view() == sseq,
            body@ + spec_scenario_items(sseq.subrange(i as int, sseq.len() as int), i as nat)
                == spec_scenario_items(sseq, 0),
            spec_has_scenario(sseq) == (any || spec_has_scenario(
                sseq.subrange(i as int, sseq.len() as int),
            )),
        decreases segs@.len() - i,
    {
        let ghost rem = sseq.subrange(i as int, sseq.len() as int);
        proof {
            assert(rem.drop_first() =~~= sseq.subrange(i + 1 as int, sseq.len() as int));
            assert(rem[0] == segs@[i as int]@);
        }
        let trimmed = trim_chars(&segs[i]);
        if trimmed.len() > 0 {
            let ghost before = body@;
            push_str_chars(&mut body, "## Scenario ");
            let num = crate::num::u64_to_chars((i as u64) + 1);
            push_all(&mut body, &num);
            body.push('\n');
            push_all(&mut body, &trimmed);
            push_str_chars(&mut body, "\n\n");
            any = true;
            proof {
                assert(body@ =~= before + ("## Scenario "@ + spec_u64_digits((i + 1) as nat)
                    + seq!['\n'] + spec_trim(rem[0]) + "\n\n"@));
            }
        }
        i = i + 1;
    }
    proof {
        assert(sseq.subrange(sseq.len() as int, sseq.len() as int) =~~= Seq::<Seq<char>>::empty());
    }
    let mut out: Vec<char> = Vec::new();
    push_str_chars(&mut out, "# Session Scenarios\n\n");
    if any {
        push_all(&mut out, &body);
    } else {
        push_str_chars(
            &mut out,
            "## Scenario 1\nGiven a planned task When forge run executes Then progress is persisted\n",
        );
    }
    proof {
        assert(out@ =~= spec_render_scenarios(*a));
    }
    string_of(&out)
}

/// The rendered execution plan document.
pub open spec fn spec_render_plan(a: SddInterview, epoch: u64) -> Seq<char> {
    "# Execution Plan\n\nGenerated at epoch "@ + spec_u64_digits(epoch as nat) + "\n\n## Goal\n"@
        + a.product_goal@ + "\n\n## Scope\n- In: "@ + a.in_scope@ + "\n- Out: "@ + a.out_of_scope@
        + "\n\n## Constraints\n"@ + a.constraints@ + "\n\n## Acceptance\n"@
        + a.acceptance_criteria@ + "\n\n## Scenarios\n"@ + a.scenarios@
        + "\n\n## Test Strategy\n"@ + a.tests@ + "\n\n## Thinking Mode\n"@
        + spec_sdd_thinking_label(a.thinking)
        + "\n\nExecute this plan incrementally. Only stop when completion indicators are present and EXIT_SIGNAL is true. Persist status and progress in .forge/.\n"@
}

/// Render the execution plan document for a generation time.
pub fn render_plan(a: &SddInterview, epoch: u64) -> (r: String)
    ensures
        r@ == spec_render_plan(*a, epoch),
{
    let mut out: Vec<char> = Vec::new();
    push_str_chars(&mut out, "# Execution Plan\n\nGenerated at epoch ");
    let e = crate::num::u64_to_chars(epoch);
    push_all(&mut out, &e);
    push_str_chars(&mut out, "\n\n## Goal\n");
    let t = chars_of(a.product_goal.as_str());
    push_all(&mut out, &t);
    push_str_chars(&mut out, "\n\n## Scope\n- In: ");
    let t = chars_of(a.in_scope.as_str());
    push_all(&mut out, &t);
    push_str_chars(&mut out, "\n- Out: ");
    let t = chars_of(a.out_of_scope.as_str());
    push_all(&mut out, &t);
    push_str_chars(&mut out, "\n\n## Constraints\n");
    let t = chars_of(a.constraints.as_str());
    push_all(&mut out, &t);
    push_str_chars(&mut out, "\n\n## Acceptance\n");
    let t = chars_of(a.acceptance_criteria.as_str());
    push_all(&mut out, &t);
    push_str_chars(&mut out, "\n\n## Scenarios\n");
    let t = chars_of(a.scenarios.as_str());
    push_all(&mut out, &t);
    push_str_chars(&mut out, "\n\n## Test Strategy\n");
    let t = chars_of(a.tests.as_str());
    push_all(&mut out, &t);
    push_str_chars(&mut out, "\n\n## Thinking Mode\n");
    match a.thinking {
        ThinkingMode::Off => push_str_chars(&mut out, "off"),
        ThinkingMode::Summary => push_str_chars(&mut out, "summary"),
        ThinkingMode::Raw => push_str_chars(&mut out, "raw"),
    }
    push_str_chars(
        &mut out,
        "\n\nExecute this plan incrementally. Only stop when completion indicators are present and EXIT_SIGNAL is true. Persist status and progress in .forge/.\n",
    );
    proof {
        assert(out@ =~= spec_render_plan(*a, epoch));
    }
    string_of(&out)
}

/// A slug character survives: ASCII alphanumerics, hyphen and underscore.
pub open spec fn is_slug_char(c: char) -> bool {
    ('a' <= c && c <= 'z') || ('0' <= c && c <= '9') || c == '-' || c == '_'
}

/// The slug of a name: its ASCII-lowercased characters with everything but
/// alphanumerics, hyphens and underscores dropped.
pub open spec fn spec_slug(s: Seq<char>) -> Seq<char>
    decreases s.len(),
{
    if s.len() == 0 {
        Seq::<char>::empty()
    } else {
        (if is_slug_char(lower_char(s[0])) {
            seq![lower_char(s[0])]
        } else {
            Seq::<char>::empty()
        }) + spec_slug(s.drop_first())
    }
}

/// Slugify a project name, falling back when nothing survives.
#[verifier::loop_isolation(false)]
pub fn slugify(input: &str, fallback: &str) -> (r: String)
    ensures
        (if spec_slug(input@).len() == 0 {
            r@ == fallback@
        } else {
            r@ == spec_slug(input@)
        }),
{
    let v = chars_of(input);
    let mut out: Vec<char> = Vec::new();
    let mut i: usize = 0;
    proof {
        assert(v@.subrange(0, v@.len() as int) =~= input@);
    }
    while i < v.len()
        invariant
            i <= v@.len(),
            v@ == input@,
            out@ + spec_slug(v@.subrange(i as int, v@.len() as int)) == spec_slug(input@),
        decreases v@.len() - i,
    {
        let ghost rem = v@.subrange(i as int, v@.len() as int);
        proof {
            assert(rem.drop_first() =~= v@.subrange(i + 1 as int, v@.len() as int));
            assert(rem[0] == v@[i as int]);
        }
        let c = crate::text::to_lower_char(v[i]);
        if ('a' <= c && c <= 'z') || ('0' <= c && c <= '9') || c == '-' || c == '_' {
            let ghost before = out@;
            out.push(c);
            proof {
                assert(out@ =~= before + seq![lower_char(rem[0])]);
            }
        }
        i = i + 1;
    }
    proof {
        assert(v@.subrange(v@.len() as int, v@.len() as int) =~= Seq::<char>::empty());
    }
    if out.len() == 0 {
        fallback.to_owned()
    } else {
        string_of(&out)
    }
}

/// The snapshot id: the creation epoch and the project slug.
pub fn sdd_id(epoch: u64, slug: &str) -> (r: String)
    ensures
        r@ == spec_u64_digits(epoch as nat) + seq!['-'] + slug@,
{
    let mut out = crate::num::u64_to_chars(epoch);
    out.push('-');
    let sv = chars_of(slug);
    push_all(&mut out, &sv);
    proof {
        assert(out@ =~= spec_u64_digits(epoch as nat) + seq!['-'] + slug@);
    }
    string_of(&out)
}

/// What a parsed `meta.json` tree means, each field with its default.
pub open spec fn spec_meta_of_json(v: JsonValue) -> Option<(Seq<char>, Seq<char>, Seq<char>, u64)> {
    if !(v matches JsonValue::Obj(_)) {
        None
    } else {
        let id = spec_str_or(spec_json_get(v, "id"@), Seq::<char>::empty());
        let name = spec_str_or(spec_json_get(v, "project_name"@), Seq::<char>::empty());
        let goal = spec_str_or(spec_json_get(v, "goal"@), Seq::<char>::empty());
        let created = spec_u64_or_zero(spec_json_get(v, "created_at_epoch"@));
        if id is Some && name is Some && goal is Some && created is Some {
            Some((id->0, name->0, goal->0, created->0))
        } else {
            None
        }
    }
}

/// Decode a session's metadata from the text of `meta.json`, falling back
/// to the empty record when the file is missing or does not decode.
pub fn read_sdd_meta(text: Option<&str>) -> (r: SddMeta)
    ensures
        (match text {
            Some(t) => match parsed_json(t@) {
                Some(v) => match spec_meta_of_json(v) {
                    Some(m) => r.id@ == m.0 && r.project_name@ == m.1 && r.goal@ == m.2
                        && r.created_at_epoch == m.3,
                    None => r.id@ == Seq::<char>::empty() && r.project_name@ == Seq::<
                        char,
                    >::empty() && r.goal@ == Seq::<char>::empty() && r.created_at_epoch == 0,
                },
                None => r.id@ == Seq::<char>::empty() && r.project_name@ == Seq::<char>::empty()
                    && r.goal@ == Seq::<char>::empty() && r.created_at_epoch == 0,
            },
            None => r.id@ == Seq::<char>::empty() && r.project_name@ == Seq::<char>::empty()
                && r.goal@ == Seq::<char>::empty() && r.created_at_epoch == 0,
        }),
{
    let t = match text {
        Some(t) => t,
        None => {
            return SddMeta::default();
        },
    };
    let v = match parse_json_line(t) {
        Some(v) => v,
        None => {
            return SddMeta::default();
        },
    };
    if !(matches!(&v, JsonValue::Obj(_))) {
        return SddMeta::default();
    }
    let id = crate::status::get_str_or(&v, "id", "");
    let name = crate::status::get_str_or(&v, "project_name", "");
    let goal = crate::status::get_str_or(&v, "goal", "");
    let created = crate::status::get_u64_or_zero(&v, "created_at_epoch");
    proof {
        reveal_strlit("");
        assert(""@ =~= Seq::<char>::empty());
    }
    match (id, name, goal, created) {
        (Some(id), Some(name), Some(goal), Some(created)) => SddMeta {
            id,
            project_name: name,
            goal,
            created_at_epoch: created,
        },
        _ => SddMeta::default(),
    }
}

/// The JSON tree that a session's metadata is persisted as.
pub fn meta_json_tree(meta: &SddMeta) -> (r: JsonValue)
    ensures
        (r matches JsonValue::Obj(fields) && fields@.len() == 4
            && fields@[0].0@ == "id"@
            && (fields@[0].1 matches JsonValue::Str(s) && s@ == meta.id@)
            && fields@[1].0@ == "project_name"@
            && (fields@[1].1 matches JsonValue::Str(s) && s@ == meta.project_name@)
            && fields@[2].0@ == "goal"@
            && (fields@[2].1 matches JsonValue::Str(s) && s@ == meta.goal@)
            && fields@[3].0@ == "created_at_epoch"@
            && fields@[3].1 == JsonValue::UInt(meta.created_at_epoch)),
{
    let mut fields: Vec<(String, JsonValue)> = Vec::new();
    fields.push((String::from_str("id"), JsonValue::Str(meta.id.clone())));
    fields.push((String::from_str("project_name"), JsonValue::Str(meta.project_name.clone())));
    fields.push((String::from_str("goal"), JsonValue::Str(meta.goal.clone())));
    fields.push((String::from_str("created_at_epoch"), JsonValue::UInt(meta.created_at_epoch)));
    JsonValue::Obj(fields)
}

} // verus!