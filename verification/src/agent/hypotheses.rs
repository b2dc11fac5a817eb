//! LLM root-cause hypotheses: the prompt that asks for them, the extraction of
//! the JSON array from the reply, and the validation that every hypothesis
//! cites existing evidence of the incident.

use vstd::prelude::*;
use vstd::string::*;
use std::collections::HashSet;
use crate::agent::converge::EventRow;
use crate::agent::models::{kind_name, severity_name};
use crate::ai::{plain_message, ChatMessage};
use crate::text::{
    append_chars, chars_of, ends_with, u64_dec, ends_with_exec, find_char, find_char_exec, i64_dec,
    int_dec, join, rfind_char, rfind_char_exec, starts_with, starts_with_exec, string_of, trim,
    trim_exec,
};

verus! {

/// The evidence citations of one hypothesis (the part that validation reads).
#[derive(Debug, Clone)]
pub struct Hypothesis {
    pub title: String,
    pub root_cause_type: String,
    pub supporting_evidence_ids: Vec<i64>,
    pub counter_evidence_ids: Vec<i64>,
    pub missing_evidence: Vec<String>,
    pub recommended_next_checks: Vec<String>,
}

/// Compact summary of a stored evidence item.
#[derive(Debug, Clone)]
pub struct EvidenceSummary {
    pub id: i64,
    pub stage: String,
    pub collector: String,
    pub quality: String,
    pub summary: String,
}

/// Result of validating hypotheses.
pub struct Validation {
    /// Positions (in the input) of the hypotheses kept, in order.
    pub kept: Vec<usize>,
    /// Number of hypotheses dropped.
    pub dropped: usize,
    /// One message per dropped hypothesis, in order.
    pub errors: Vec<String>,
}

/// The supporting evidence ids of `h` that are not valid.
pub open spec fn missing_ids(h: Hypothesis, valid: Set<i64>) -> Seq<i64> {
    h.supporting_evidence_ids@.filter(|id: i64| !valid.contains(id))
}

/// A hypothesis is kept when it cites at least one supporting evidence id
/// and all of them exist.
pub open spec fn hypothesis_ok(h: Hypothesis, valid: Set<i64>) -> bool {
    h.supporting_evidence_ids@.len() > 0 && forall|j: int|
        0 <= j < h.supporting_evidence_ids@.len() ==> valid.contains(
            #[trigger] h.supporting_evidence_ids@[j],
        )
}

/// Debug rendering of a list of ids: `[1, 2]`.
pub open spec fn ids_text(ids: Seq<i64>) -> Seq<char> {
    "["@ + join(ids.map_values(|i: i64| int_dec(i as int)), ", "@) + "]"@
}

/// The message for a dropped hypothesis at (0-based) position `i`.
pub open spec fn drop_message(i: int, h: Hypothesis, valid: Set<i64>) -> Seq<char> {
    if h.supporting_evidence_ids@.len() == 0 {
        "假设 #"@ + int_dec(i + 1) + "「"@ + h.title@ + "」没有引用任何证据"@
    } else {
        "假设 #"@ + int_dec(i + 1) + "「"@ + h.title@ + "」引用了不存在的证据 "@ + ids_text(
            missing_ids(h, valid),
        )
    }
}

/// Positions of the kept hypotheses among the first `n`.
pub open spec fn kept_positions(hs: Seq<Hypothesis>, valid: Set<i64>, n: int) -> Seq<usize>
    decreases n,
{
    if n <= 0 {
        Seq::empty()
    } else {
        let rest = kept_positions(hs, valid, n - 1);
        if hypothesis_ok(hs[n - 1], valid) {
            rest.push((n - 1) as usize)
        } else {
            rest
        }
    }
}

/// Messages for the dropped hypotheses among the first `n`.
pub open spec fn drop_messages(hs: Seq<Hypothesis>, valid: Set<i64>, n: int) -> Seq<Seq<char>>
    decreases n,
{
    if n <= 0 {
        Seq::empty()
    } else {
        let rest = drop_messages(hs, valid, n - 1);
        if hypothesis_ok(hs[n - 1], valid) {
            rest
        } else {
            rest.push(drop_message(n - 1, hs[n - 1], valid))
        }
    }
}

fn ids_text_exec(ids: &[i64]) -> (r: Vec<char>)
    ensures
        r@ == ids_text(ids@),
{
    let mut r: Vec<char> = Vec::new();
    r.push('[');
    let mut i: usize = 0;
    while i < ids.len()
        invariant
            i <= ids.len(),
            r@ == seq!['['] + join(
                ids@.take(i as int).map_values(|x: i64| int_dec(x as int)),
                ", "@,
            ),
        decreases ids.len() - i,
    {
        let ghost r0 = r@;
        let d = i64_dec(ids[i]);
        proof {
            assert(ids@.take(i + 1).map_values(|x: i64| int_dec(x as int)).drop_last()
                =~= ids@.take(i as int).map_values(|x: i64| int_dec(x as int)));
        }
        if i > 0 {
            r.push(',');
            r.push(' ');
            assert(r@ =~= r0 + ", "@) by {
                reveal_strlit(", ");
            }
        }
        let ghost r1 = r@;
        let mut k: usize = 0;
        while k < d.len()
            invariant
                k <= d.len(),
                r@ == r1 + d@.take(k as int),
            decreases d.len() - k,
        {
            r.push(d[k]);
            assert(r1 + d@.take(k + 1) =~= (r1 + d@.take(k as int)).push(d@[k as int]));
            k += 1;
        }
        assert(d@.take(d.len() as int) =~= d@);
        proof {
            if i == 0 {
                let m = ids@.take(1).map_values(|x: i64| int_dec(x as int));
                assert(m.len() == 1);
                assert(join(m, ", "@) == m[0]);
                assert(r@ =~= seq!['['] + join(m, ", "@));
            } else {
                assert(r@ =~= seq!['['] + join(
                    ids@.take(i + 1).map_values(|x: i64| int_dec(x as int)),
                    ", "@,
                ));
            }
        }
        i += 1;
    }
    assert(ids@.take(ids.len() as int) =~= ids@);
    r.push(']');
    assert(r@ =~= ids_text(ids@)) by {
        reveal_strlit("[");
        reveal_strlit("]");
    }
    r
}

/// Checks every hypothesis against the valid evidence ids of the incident:
/// one without supporting evidence, or citing an id that does not exist, is
/// dropped with a message; the others are kept. (Counter-evidence ids are
/// not checked.)
pub fn validate_hypotheses(hypotheses: &[Hypothesis], valid_evidence_ids: &HashSet<i64>) -> (r:
    Validation)
    ensures
        r.kept@ == kept_positions(hypotheses@, valid_evidence_ids@, hypotheses@.len() as int),
        r.errors@.map_values(|e: String| e@) == drop_messages(
            hypotheses@,
            valid_evidence_ids@,
            hypotheses@.len() as int,
        ),
        r.dropped == r.errors@.len(),
{
    broadcast use vstd::std_specs::hash::group_hash_axioms;

    let ghost valid = valid_evidence_ids@;
    let mut kept: Vec<usize> = Vec::new();
    let mut errors: Vec<String> = Vec::new();
    let mut dropped: usize = 0;
    let mut i: usize = 0;
    while i < hypotheses.len()
        invariant
            i <= hypotheses.len(),
            valid == valid_evidence_ids@,
            vstd::std_specs::hash::obeys_key_model::<i64>(),
            kept@ == kept_positions(hypotheses@, valid, i as int),
            errors@.map_values(|e: String| e@) == drop_messages(hypotheses@, valid, i as int),
            dropped == errors@.len(),
            dropped <= i,
        decreases hypotheses.len() - i,
    {
        let h = &hypotheses[i];
        let ids = h.supporting_evidence_ids.as_slice();
        let mut missing: Vec<i64> = Vec::new();
        let mut k: usize = 0;
        while k < ids.len()
            invariant
                k <= ids.len(),
                ids@ == hypotheses@[i as int].supporting_evidence_ids@,
                valid == valid_evidence_ids@,
                vstd::std_specs::hash::obeys_key_model::<i64>(),
                missing@ == ids@.take(k as int).filter(|id: i64| !valid.contains(id)),
            decreases ids.len() - k,
        {
            let id = ids[k];
            proof {
                assert(ids@.take(k + 1).drop_last() =~= ids@.take(k as int));
            }
            if !valid_evidence_ids.contains(&id) {
                missing.push(id);
            }
            proof {
                reveal_with_fuel(Seq::<i64>::filter, 1);
            }
            k += 1;
        }
        proof {
            assert(ids@.take(ids.len() as int) =~= ids@);
            let m = ids@.filter(|id: i64| !valid.contains(id));
            if m.len() == 0 {
                assert forall|j: int| 0 <= j < ids@.len() implies valid.contains(
                    #[trigger] ids@[j],
                ) by {
                    if !valid.contains(ids@[j]) {
                        ids@.lemma_filter_contains(|id: i64| !valid.contains(id), j);
                        assert(m.contains(ids@[j]));
                    }
                }
            } else {
                let x = m[0];
                ids@.lemma_filter_pred(|id: i64| !valid.contains(id), 0);
                assert(m.contains(x));
                ids@.lemma_filter_contains_rev(|id: i64| !valid.contains(id), x);
                assert(!valid.contains(x));
                assert(ids@.contains(x));
                let j = choose|j: int| 0 <= j < ids@.len() && ids@[j] == x;
                assert(!valid.contains(ids@[j]));
                assert(!hypothesis_ok(hypotheses@[i as int], valid));
            }
        }
        let ghost e0 = errors@;
        let ghost hi = hypotheses@[i as int];
        assert(*h == hi);
        assert(missing@ == missing_ids(hi, valid));
        if ids.len() == 0 {
            let n = u64_dec((i + 1) as u64);
            let mut msg = String::from_str("假设 #");
            append_chars(&mut msg, n.as_slice());
            msg.append("「");
            msg.append(h.title.as_str());
            msg.append("」没有引用任何证据");
            assert(!hypothesis_ok(hi, valid));
            assert(msg@ == drop_message(i as int, hi, valid));
            errors.push(msg);
            dropped += 1;
        } else if missing.len() > 0 {
            let n = u64_dec((i + 1) as u64);
            let mut msg = String::from_str("假设 #");
            append_chars(&mut msg, n.as_slice());
            msg.append("「");
            msg.append(h.title.as_str());
            msg.append("」引用了不存在的证据 ");
            let t = ids_text_exec(missing.as_slice());
            append_chars(&mut msg, t.as_slice());
            assert(!hypothesis_ok(hi, valid));
            assert(msg@ == drop_message(i as int, hi, valid));
            errors.push(msg);
            dropped += 1;
        } else {
            assert(hypothesis_ok(hi, valid));
            kept.push(i);
        }
        proof {
            if errors@.len() > e0.len() {
                assert(errors@.map_values(|e: String| e@) =~= e0.map_values(|e: String| e@).push(
                    errors@.last()@,
                ));
            } else {
                assert(errors@ == e0);
            }
            assert(errors@.map_values(|e: String| e@) =~= drop_messages(
                hypotheses@,
                valid,
                i + 1,
            ));
        }
        i += 1;
    }
    Validation { kept, dropped, errors }
}

// ---------------------------------------------------------------------------
// Extracting the JSON array of the reply
// ---------------------------------------------------------------------------

/// The reply without a surrounding markdown code fence (```` ```json ````
/// or ```` ``` ````), after trimming white space.
pub open spec fn strip_fence(s: Seq<char>) -> Seq<char> {
    let t = trim(s);
    if starts_with(t, "```json"@) {
        let rest = t.skip(7);
        if ends_with(rest, "```"@) {
            rest.take(rest.len() - 3)
        } else {
            rest
        }
    } else if starts_with(t, "```"@) {
        let rest = t.skip(3);
        if ends_with(rest, "```"@) {
            rest.take(rest.len() - 3)
        } else {
            rest
        }
    } else {
        t
    }
}

/// Removes a markdown code fence (and surrounding white space) from a reply.
pub fn strip_markdown_fence(s: &str) -> (r: String)
    ensures
        r@ == strip_fence(s@),
{
    let v = chars_of(s);
    let t = trim_exec(v.as_slice());
    let json = chars_of("```json");
    let fence = chars_of("```");
    proof {
        reveal_strlit("```json");
        reveal_strlit("```");
    }
    let skip: usize = if starts_with_exec(t.as_slice(), json.as_slice()) {
        7
    } else if starts_with_exec(t.as_slice(), fence.as_slice()) {
        3
    } else {
        0
    };
    if skip == 0 {
        return string_of(t.as_slice());
    }
    let rest = vstd::slice::slice_subrange(t.as_slice(), skip, t.len());
    assert(rest@ =~= t@.skip(skip as int));
    if ends_with_exec(rest, fence.as_slice()) {
        let body = vstd::slice::slice_subrange(rest, 0, rest.len() - 3);
        assert(body@ =~= rest@.take(rest@.len() - 3));
        string_of(body)
    } else {
        string_of(rest)
    }
}

/// The first `[`-to-last-`]` slice of the unfenced reply, if it is non-empty.
pub open spec fn array_slice(text: Seq<char>) -> Option<Seq<char>> {
    let c = strip_fence(text);
    match (find_char(c, '['), rfind_char(c, ']')) {
        (Some(s), Some(e)) => if e > s {
            Some(c.subrange(s, e + 1))
        } else {
            None
        },
        _ => None,
    }
}

/// The JSON array part of an LLM reply (tolerating a markdown fence and
/// surrounding prose); the reply has no such part when there is no `[`
/// before a `]`.
pub fn json_array_slice(text: &str) -> (r: Option<String>)
    ensures
        match r {
            Some(x) => array_slice(text@) == Some(x@),
            None => array_slice(text@) is None,
        },
{
    let cleaned = strip_markdown_fence(text);
    let c = chars_of(cleaned.as_str());
    let start = find_char_exec(c.as_slice(), '[');
    let end = rfind_char_exec(c.as_slice(), ']');
    let n = c.len();
    match (start, end) {
        (Some(s), Some(e)) => {
            if e > s {
                proof {
                    assert(c@.contains(']'));
                    crate::text::lemma_rfind_char_some(c@, ']');
                    assert(e < c@.len());
                    assert(e < n);
                }
                let slice = vstd::slice::slice_subrange(c.as_slice(), s, e + 1);
                Some(string_of(slice))
            } else {
                None
            }
        },
        _ => None,
    }
}

/// The JSON array of a reply runs from the first `[` to the last `]` of
/// the unfenced reply: a reply has one exactly when some `[` comes before
/// some `]`, and then the slice begins with a `[` that no `[` precedes and
/// ends with a `]` that no `]` follows, everything between kept in place.
pub proof fn law_array_slice_outermost(text: Seq<char>)
    ensures
        ({
            let c = strip_fence(text);
            &&& (exists|i: int, j: int| 0 <= i < j < c.len() && c[i] == '[' && c[j] == ']')
                <==> array_slice(text) is Some
            &&& array_slice(text) matches Some(x) ==> exists|s: int, e: int|
                0 <= s < e < c.len() && x == c.subrange(s, e + 1) && c[s] == '[' && c[e] == ']'
                    && (forall|k: int| 0 <= k < s ==> c[k] != '[') && (forall|k: int|
                    e < k < c.len() ==> c[k] != ']')
        }),
{
    let c = strip_fence(text);
    if exists|i: int, j: int| 0 <= i < j < c.len() && c[i] == '[' && c[j] == ']' {
        let (i, j) = choose|i: int, j: int| 0 <= i < j < c.len() && c[i] == '[' && c[j] == ']';
        assert(c.contains('['));
        assert(c.contains(']'));
        crate::text::lemma_find_char_some(c, '[');
        crate::text::lemma_rfind_char_some(c, ']');
        let s = find_char(c, '[')->0;
        let e = rfind_char(c, ']')->0;
        assert(s <= i);
        assert(j <= e);
    }
    if array_slice(text) is Some {
        assert(c.contains('['));
        assert(c.contains(']'));
        crate::text::lemma_find_char_some(c, '[');
        crate::text::lemma_rfind_char_some(c, ']');
        let s = find_char(c, '[')->0;
        let e = rfind_char(c, ']')->0;
        assert(0 <= s < e < c.len() && c[s] == '[' && c[e] == ']');
    }
}

// ---------------------------------------------------------------------------
// Prompt
// ---------------------------------------------------------------------------

/// The system instruction of the hypothesis prompt.
pub open spec fn hypothesis_system_text() -> Seq<char> {
    "你是 StarRocks / Apache Doris OLAP 集群的根因分析专家。\
     你只能基于给定证据推理，禁止编造事实。\
     输出严格的 JSON 数组（不要 markdown 代码块、不要额外文字），\
     每个元素格式：\
     {\"title\": string, \"root_cause_type\": string, \"confidence\": number 0-1, \
      \"supporting_evidence_ids\": [int], \"counter_evidence_ids\": [int], \
      \"missing_evidence\": [string], \"recommended_next_checks\": [string]}.\
     root_cause_type 取值：node_failure | resource_saturation | data_skew | \
     config_regression | workload_spike | capacity | write_anomaly | \
     compaction_backlog | load_backlog | query_performance | unknown。"@
}

/// An optional text, or `-`.
pub open spec fn or_dash(o: Option<String>) -> Seq<char> {
    match o {
        Some(s) => s@,
        None => "-"@,
    }
}

/// The prompt line of an event.
pub open spec fn event_line(e: EventRow) -> Seq<char> {
    "- event#"@ + int_dec(e.id as int) + " ["@ + kind_name(e.kind) + "] severity="@
        + severity_name(e.severity) + " object="@ + or_dash(e.object_type) + ":"@ + or_dash(
        e.object_id,
    ) + " count="@ + int_dec(e.occurrence_count as int) + " title="@ + e.title@
}

/// The prompt line of an evidence item.
pub open spec fn evidence_line(e: EvidenceSummary) -> Seq<char> {
    "- evidence#"@ + int_dec(e.id as int) + " stage="@ + e.stage@ + " collector="@ + e.collector@
        + " quality="@ + e.quality@ + ": "@ + e.summary@
}

/// The user message of the hypothesis prompt.
pub open spec fn hypothesis_user_text(
    title: Seq<char>,
    impact: Option<Seq<char>>,
    events: Seq<EventRow>,
    evidences: Seq<EvidenceSummary>,
) -> Seq<char> {
    "Incident: "@ + title + "\n影响: "@ + match impact {
        Some(i) => i,
        None => "无"@,
    } + "\n\n关联事件:\n"@ + join(events.map_values(|e: EventRow| event_line(e)), "\n"@)
        + "\n\n证据:\n"@ + join(evidences.map_values(|e: EvidenceSummary| evidence_line(e)), "\n"@)
        + "\n\n请给出最多 3 个根因假设，\
         每个假设必须引用至少一个 existed evidence id。"@
}

fn opt_or_dash(s: &mut String, o: &Option<String>)
    ensures
        final(s)@ == old(s)@ + or_dash(*o),
{
    match o {
        Some(x) => s.append(x.as_str()),
        None => s.append("-"),
    }
}

fn event_line_exec(e: &EventRow) -> (r: String)
    ensures
        r@ == event_line(*e),
{
    let mut r = String::from_str("- event#");
    let id = i64_dec(e.id);
    append_chars(&mut r, id.as_slice());
    r.append(" [");
    r.append(e.kind.as_str());
    r.append("] severity=");
    r.append(e.severity.as_str());
    r.append(" object=");
    opt_or_dash(&mut r, &e.object_type);
    r.append(":");
    opt_or_dash(&mut r, &e.object_id);
    r.append(" count=");
    let c = i64_dec(e.occurrence_count);
    append_chars(&mut r, c.as_slice());
    r.append(" title=");
    r.append(e.title.as_str());
    r
}

fn evidence_line_exec(e: &EvidenceSummary) -> (r: String)
    ensures
        r@ == evidence_line(*e),
{
    let mut r = String::from_str("- evidence#");
    let id = i64_dec(e.id);
    append_chars(&mut r, id.as_slice());
    r.append(" stage=");
    r.append(e.stage.as_str());
    r.append(" collector=");
    r.append(e.collector.as_str());
    r.append(" quality=");
    r.append(e.quality.as_str());
    r.append(": ");
    r.append(e.summary.as_str());
    r
}

/// Appends `lines` to `s`, separated by newlines.
fn append_lines(s: &mut String, lines: &[String])
    ensures
        final(s)@ == old(s)@ + join(lines@.map_values(|x: String| x@), "\n"@),
{
    let ghost s0 = s@;
    let mut i: usize = 0;
    while i < lines.len()
        invariant
            i <= lines.len(),
            s@ == s0 + join(lines@.take(i as int).map_values(|x: String| x@), "\n"@),
        decreases lines.len() - i,
    {
        proof {
            assert(lines@.take(i + 1).map_values(|x: String| x@).drop_last() =~= lines@.take(
                i as int,
            ).map_values(|x: String| x@));
        }
        if i > 0 {
            s.append("\n");
        }
        s.append(lines[i].as_str());
        proof {
            if i == 0 {
                let m = lines@.take(1).map_values(|x: String| x@);
                assert(join(m, "\n"@) == m[0]);
            }
        }
        i += 1;
    }
    assert(lines@.take(lines.len() as int) =~= lines@);
}

/// Builds the two messages (system, user) that ask the LLM for root-cause
/// hypotheses about an incident from its events and evidence.
pub fn build_messages(
    incident_title: &str,
    impact_summary: Option<&str>,
    events: &[EventRow],
    evidences: &[EvidenceSummary],
) -> (r: Vec<ChatMessage>)
    ensures
        r@.len() == 2,
        r@[0].role@ == "system"@,
        r@[0].content@ == hypothesis_system_text(),
        r@[1].role@ == "user"@,
        r@[1].content@ == hypothesis_user_text(
            incident_title@,
            match impact_summary {
                Some(i) => Some(i@),
                None => None,
            },
            events@,
            evidences@,
        ),
        r@[0].tool_calls is None && r@[0].tool_call_id is None,
        r@[1].tool_calls is None && r@[1].tool_call_id is None,
{
    let system = plain_message(
        "system",
        String::from_str(
            "你是 StarRocks / Apache Doris OLAP 集群的根因分析专家。\
             你只能基于给定证据推理，禁止编造事实。\
             输出严格的 JSON 数组（不要 markdown 代码块、不要额外文字），\
             每个元素格式：\
             {\"title\": string, \"root_cause_type\": string, \"confidence\": number 0-1, \
              \"supporting_evidence_ids\": [int], \"counter_evidence_ids\": [int], \
              \"missing_evidence\": [string], \"recommended_next_checks\": [string]}.\
             root_cause_type 取值：node_failure | resource_saturation | data_skew | \
             config_regression | workload_spike | capacity | write_anomaly | \
             compaction_backlog | load_backlog | query_performance | unknown。",
        ),
    );
    let mut event_lines: Vec<String> = Vec::new();
    let mut i: usize = 0;
    while i < events.len()
        invariant
            i <= events.len(),
            event_lines@.map_values(|x: String| x@) == events@.take(i as int).map_values(
                |e: EventRow| event_line(e),
            ),
        decreases events.len() - i,
    {
        let l = event_line_exec(&events[i]);
        let ghost l0 = event_lines@;
        event_lines.push(l);
        assert(event_lines@.map_values(|x: String| x@) =~= l0.map_values(|x: String| x@).push(l@));
        assert(events@.take(i + 1) =~= events@.take(i as int).push(events@[i as int]));
        assert(event_lines@.map_values(|x: String| x@) =~= events@.take(i + 1).map_values(
            |e: EventRow| event_line(e),
        ));
        i += 1;
    }
    assert(events@.take(events.len() as int) =~= events@);
    let mut evidence_lines: Vec<String> = Vec::new();
    let mut i: usize = 0;
    while i < evidences.len()
        invariant
            i <= evidences.len(),
            evidence_lines@.map_values(|x: String| x@) == evidences@.take(i as int).map_values(
                |e: EvidenceSummary| evidence_line(e),
            ),
        decreases evidences.len() - i,
    {
        let l = evidence_line_exec(&evidences[i]);
        let ghost l0 = evidence_lines@;
        evidence_lines.push(l);
        assert(evidence_lines@.map_values(|x: String| x@) =~= l0.map_values(|x: String| x@).push(l@));
        assert(evidences@.take(i + 1) =~= evidences@.take(i as int).push(evidences@[i as int]));
        assert(evidence_lines@.map_values(|x: String| x@) =~= evidences@.take(i + 1).map_values(
            |e: EvidenceSummary| evidence_line(e),
        ));
        i += 1;
    }
    assert(evidences@.take(evidences.len() as int) =~= evidences@);
    let mut content = String::from_str("Incident: ");
    content.append(incident_title);
    content.append("\n影响: ");
    match impact_summary {
        Some(x) => content.append(x),
        None => content.append("无"),
    }
    content.append("\n\n关联事件:\n");
    append_lines(&mut content, event_lines.as_slice());
    content.append("\n\n证据:\n");
    append_lines(&mut content, evidence_lines.as_slice());
    content.append(
        "\n\n请给出最多 3 个根因假设，\
         每个假设必须引用至少一个 existed evidence id。",
    );
    let user = plain_message("user", content);
    let mut r: Vec<ChatMessage> = Vec::new();
    r.push(system);
    r.push(user);
    r
}

// ---------------------------------------------------------------------------
// Laws
// ---------------------------------------------------------------------------

proof fn lemma_partition(hs: Seq<Hypothesis>, valid: Set<i64>, n: int)
    requires
        0 <= n <= hs.len(),
        hs.len() <= usize::MAX,
    ensures
        kept_positions(hs, valid, n).len() + drop_messages(hs, valid, n).len() == n,
        forall|k: int|
            0 <= k < kept_positions(hs, valid, n).len() ==> {
                let p = #[trigger] kept_positions(hs, valid, n)[k];
                0 <= p < n && hypothesis_ok(hs[p as int], valid)
            },
    decreases n,
{
    if n > 0 {
        lemma_partition(hs, valid, n - 1);
        let prev = kept_positions(hs, valid, n - 1);
        let cur = kept_positions(hs, valid, n);
        assert forall|k: int| 0 <= k < cur.len() implies {
            let p = #[trigger] cur[k];
            0 <= p < n && hypothesis_ok(hs[p as int], valid)
        } by {
            if k < prev.len() {
                assert(cur[k] == prev[k]);
            }
        }
    }
}

/// Every hypothesis is either kept or dropped with one message, and every
/// kept hypothesis cites at least one evidence id, all of them valid.
pub proof fn law_validation_partition(hs: Seq<Hypothesis>, valid: Set<i64>)
    requires
        hs.len() <= usize::MAX,
    ensures
        kept_positions(hs, valid, hs.len() as int).len() + drop_messages(
            hs,
            valid,
            hs.len() as int,
        ).len() == hs.len(),
        forall|k: int|
            0 <= k < kept_positions(hs, valid, hs.len() as int).len() ==> {
                let p = #[trigger] kept_positions(hs, valid, hs.len() as int)[k];
                &&& 0 <= p < hs.len()
                &&& hs[p as int].supporting_evidence_ids@.len() > 0
                &&& forall|j: int|
                    0 <= j < hs[p as int].supporting_evidence_ids@.len() ==> valid.contains(
                        #[trigger] hs[p as int].supporting_evidence_ids@[j],
                    )
            },
{
    lemma_partition(hs, valid, hs.len() as int);
}

} // verus!
