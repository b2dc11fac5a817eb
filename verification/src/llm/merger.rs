//! Fusion of rule-engine diagnostics with LLM analysis: deduplicated,
//! prioritised recommendations, and the conversion of rule diagnostics into
//! the LLM request shape.

use vstd::prelude::*;
use vstd::string::*;
use crate::text::{
    chars_of, is_alphanumeric, seq_eq, split, split_exec, string_of, to_lowercase, unicode_alnum,
    unicode_lower, u64_dec, int_dec, append_chars,
};

verus! {

/// A recommendation of the LLM.
#[derive(Debug, Clone)]
pub struct LLMRecommendation {
    pub priority: u32,
    pub action: String,
    pub expected_improvement: String,
    pub sql_example: Option<String>,
}

/// A causal chain explained by the LLM.
#[derive(Debug, Clone)]
pub struct LLMCausalChain {
    pub chain: Vec<String>,
    pub explanation: String,
}

/// An issue only the LLM found.
#[derive(Debug, Clone)]
pub struct LLMHiddenIssue {
    pub issue: String,
    pub suggestion: String,
}

/// A rule-engine diagnostic aggregated over the plan nodes it affects.
#[derive(Debug, Clone)]
pub struct AggregatedDiagnostic {
    pub rule_id: String,
    pub severity: String,
    pub message: String,
    pub reason: String,
    pub node_count: usize,
    pub affected_nodes: Vec<String>,
    pub suggestions: Vec<String>,
}

/// The threshold a rule applied: where it came from and on how many
/// baseline samples it rests. Its numeric values (threshold, baseline p95)
/// are fractional and stay with the caller, found again by `values`.
#[derive(Debug, Clone)]
pub struct ThresholdInfo {
    /// Position of the threshold's numeric values in the caller's table.
    pub values: usize,
    pub source: String,
    pub sample_count: Option<usize>,
}

/// The model of optional threshold information.
pub open spec fn threshold_view(o: Option<ThresholdInfo>) -> Option<(usize, Seq<char>, Option<usize>)> {
    match o {
        Some(t) => Some((t.values, t.source@, t.sample_count)),
        None => None,
    }
}

/// A rule-engine diagnostic of one plan node.
#[derive(Debug, Clone)]
pub struct DiagnosticResult {
    pub rule_id: String,
    pub severity: String,
    pub node_path: String,
    pub plan_node_id: Option<i32>,
    pub message: String,
    pub reason: String,
    pub threshold_metadata: Option<ThresholdInfo>,
}

/// A rule diagnostic in the shape sent to the LLM (the evidence as
/// name/value pairs).
#[derive(Debug, Clone)]
pub struct DiagnosticForLLM {
    pub rule_id: String,
    pub severity: String,
    pub operator: String,
    pub plan_node_id: Option<i32>,
    pub message: String,
    pub evidence: Vec<(String, String)>,
    pub threshold_info: Option<ThresholdInfo>,
}

/// A merged recommendation.
#[derive(Debug, Clone)]
pub struct MergedRecommendation {
    /// 1 is the highest priority.
    pub priority: u32,
    pub action: String,
    pub expected_improvement: String,
    pub sql_example: Option<String>,
    /// `rule`, `llm` or `both`.
    pub source: String,
    pub related_root_causes: Vec<String>,
    /// Fixes a root cause (rather than a symptom).
    pub is_root_cause_fix: bool,
}

/// Model of a merged recommendation.
pub struct RecView {
    pub priority: u32,
    pub action: Seq<char>,
    pub expected_improvement: Seq<char>,
    pub sql_example: Option<Seq<char>>,
    pub source: Seq<char>,
    pub related_root_causes: Seq<Seq<char>>,
    pub is_root_cause_fix: bool,
}

/// The text of an optional string.
pub open spec fn opt_text(o: Option<String>) -> Option<Seq<char>> {
    match o {
        Some(s) => Some(s@),
        None => None,
    }
}

impl View for MergedRecommendation {
    type V = RecView;

    open spec fn view(&self) -> RecView {
        RecView {
            priority: self.priority,
            action: self.action@,
            expected_improvement: self.expected_improvement@,
            sql_example: opt_text(self.sql_example),
            source: self.source@,
            related_root_causes: self.related_root_causes@.map_values(|s: String| s@),
            is_root_cause_fix: self.is_root_cause_fix,
        }
    }
}

/// The models of a sequence of merged recommendations.
pub open spec fn rec_views(v: Seq<MergedRecommendation>) -> Seq<RecView> {
    v.map_values(|m: MergedRecommendation| m@)
}

/// Merges rule results with LLM results.
pub struct ResultMerger;

// ---------------------------------------------------------------------------
// Normalisation
// ---------------------------------------------------------------------------

/// The deduplication key of an action: its Unicode lower-casing, keeping
/// only alphanumeric characters.
pub open spec fn action_key(action: Seq<char>) -> Seq<char> {
    unicode_lower(action).filter(|c: char| unicode_alnum(c))
}

// ---------------------------------------------------------------------------
// Merge specification
// ---------------------------------------------------------------------------

/// Some merged recommendation has deduplication key `k`.
pub open spec fn has_key(m: Seq<RecView>, k: Seq<char>) -> bool {
    exists|i: int| 0 <= i < m.len() && #[trigger] action_key(m[i].action) == k
}

/// The recommendation taken from the LLM.
pub open spec fn from_llm(r: LLMRecommendation) -> RecView {
    RecView {
        priority: r.priority,
        action: r.action@,
        expected_improvement: r.expected_improvement@,
        sql_example: opt_text(r.sql_example),
        source: "llm"@,
        related_root_causes: Seq::empty(),
        is_root_cause_fix: true,
    }
}

/// LLM recommendations, dropping those whose key repeats an earlier one.
pub open spec fn llm_phase(recs: Seq<LLMRecommendation>) -> Seq<RecView>
    decreases recs.len(),
{
    if recs.len() == 0 {
        Seq::empty()
    } else {
        let prev = llm_phase(recs.drop_last());
        if has_key(prev, action_key(recs.last().action@)) {
            prev
        } else {
            prev.push(from_llm(recs.last()))
        }
    }
}

/// The (rule id, suggestion) pairs of the rule diagnostics, in order.
pub open spec fn rule_pairs(diags: Seq<AggregatedDiagnostic>) -> Seq<(Seq<char>, Seq<char>)>
    decreases diags.len(),
{
    if diags.len() == 0 {
        Seq::empty()
    } else {
        let d = diags.last();
        rule_pairs(diags.drop_last()) + d.suggestions@.map_values(|s: String| (d.rule_id@, s@))
    }
}

/// The first position whose key is `k` (when `has_key`).
pub open spec fn first_key_pos(m: Seq<RecView>, k: Seq<char>) -> int
    decreases m.len(),
{
    if m.len() == 0 {
        0
    } else if action_key(m[0].action) == k {
        0
    } else {
        1 + first_key_pos(m.drop_first(), k)
    }
}

/// A recommendation also backed by rule `rule_id`.
pub open spec fn also_from_rule(r: RecView, rule_id: Seq<char>) -> RecView {
    RecView {
        source: if r.source == "llm"@ {
            "both"@
        } else {
            r.source
        },
        related_root_causes: r.related_root_causes.push(rule_id),
        ..r
    }
}

/// One rule suggestion merged in: a new key is appended with the next
/// priority (one past the current count); a known key marks the first
/// recommendation with that key as backed by the rule.
pub open spec fn rule_step(m: Seq<RecView>, rule_id: Seq<char>, suggestion: Seq<char>) -> Seq<RecView> {
    let k = action_key(suggestion);
    if !has_key(m, k) {
        m.push(
            RecView {
                priority: (m.len() + 1) as u32,
                action: suggestion,
                expected_improvement: Seq::empty(),
                sql_example: None,
                source: "rule"@,
                related_root_causes: seq![rule_id],
                is_root_cause_fix: false,
            },
        )
    } else {
        let j = first_key_pos(m, k);
        m.update(j, also_from_rule(m[j], rule_id))
    }
}

/// All rule suggestions merged in, in order.
pub open spec fn rule_phase(m: Seq<RecView>, pairs: Seq<(Seq<char>, Seq<char>)>) -> Seq<RecView>
    decreases pairs.len(),
{
    if pairs.len() == 0 {
        m
    } else {
        rule_step(rule_phase(m, pairs.drop_last()), pairs.last().0, pairs.last().1)
    }
}

/// The merged recommendations before ordering.
pub open spec fn merged_unsorted(
    diags: Seq<AggregatedDiagnostic>,
    recs: Seq<LLMRecommendation>,
) -> Seq<RecView> {
    rule_phase(llm_phase(recs), rule_pairs(diags))
}

/// No two recommendations share a deduplication key.
pub open spec fn distinct_keys(m: Seq<RecView>) -> bool {
    forall|a: int, b: int|
        0 <= a < b < m.len() ==> action_key(#[trigger] m[a].action) != action_key(
            #[trigger] m[b].action,
        )
}

proof fn lemma_llm_phase_distinct(recs: Seq<LLMRecommendation>)
    ensures
        distinct_keys(llm_phase(recs)),
    decreases recs.len(),
{
    if recs.len() > 0 {
        lemma_llm_phase_distinct(recs.drop_last());
        let prev = llm_phase(recs.drop_last());
        let k = action_key(recs.last().action@);
        if !has_key(prev, k) {
            let m = prev.push(from_llm(recs.last()));
            assert forall|a: int, b: int| 0 <= a < b < m.len() implies action_key(
                #[trigger] m[a].action,
            ) != action_key(#[trigger] m[b].action) by {
                if b == prev.len() {
                    assert(m[a] == prev[a]);
                    if action_key(prev[a].action) == k {
                        assert(has_key(prev, k));
                    }
                } else {
                    assert(m[a] == prev[a] && m[b] == prev[b]);
                }
            }
        }
    }
}

proof fn lemma_first_key_pos_in(m: Seq<RecView>, k: Seq<char>)
    requires
        has_key(m, k),
    ensures
        0 <= first_key_pos(m, k) < m.len(),
    decreases m.len(),
{
    if m.len() > 0 && action_key(m[0].action) != k {
        let i = choose|i: int| 0 <= i < m.len() && #[trigger] action_key(m[i].action) == k;
        let rest = m.drop_first();
        assert(rest[i - 1] == m[i]);
        assert(has_key(rest, k));
        lemma_first_key_pos_in(rest, k);
    }
}

proof fn lemma_rule_phase_distinct(m: Seq<RecView>, pairs: Seq<(Seq<char>, Seq<char>)>)
    requires
        distinct_keys(m),
    ensures
        distinct_keys(rule_phase(m, pairs)),
    decreases pairs.len(),
{
    if pairs.len() > 0 {
        lemma_rule_phase_distinct(m, pairs.drop_last());
        let prev = rule_phase(m, pairs.drop_last());
        let k = action_key(pairs.last().1);
        let next = rule_phase(m, pairs);
        if !has_key(prev, k) {
            assert forall|a: int, b: int| 0 <= a < b < next.len() implies action_key(
                #[trigger] next[a].action,
            ) != action_key(#[trigger] next[b].action) by {
                if b == prev.len() {
                    assert(next[a] == prev[a]);
                    assert(next[b].action == pairs.last().1);
                    if action_key(prev[a].action) == k {
                        assert(has_key(prev, k));
                    }
                } else {
                    assert(next[a] == prev[a] && next[b] == prev[b]);
                }
            }
        } else {
            lemma_first_key_pos_in(prev, k);
            let j = first_key_pos(prev, k);
            assert forall|a: int, b: int| 0 <= a < b < next.len() implies action_key(
                #[trigger] next[a].action,
            ) != action_key(#[trigger] next[b].action) by {
                assert(next[a].action == prev[a].action);
                assert(next[b].action == prev[b].action);
            }
        }
    }
}

/// The merged recommendations never repeat a deduplication key.
pub proof fn law_merged_keys_distinct(diags: Seq<AggregatedDiagnostic>, recs: Seq<LLMRecommendation>)
    ensures
        distinct_keys(merged_unsorted(diags, recs)),
{
    lemma_llm_phase_distinct(recs);
    lemma_rule_phase_distinct(llm_phase(recs), rule_pairs(diags));
}

/// The recommendations of priority `p`, in order.
pub open spec fn with_priority(s: Seq<RecView>, p: u32) -> Seq<RecView>
    decreases s.len(),
{
    if s.len() == 0 {
        Seq::empty()
    } else if s.last().priority == p {
        with_priority(s.drop_last(), p).push(s.last())
    } else {
        with_priority(s.drop_last(), p)
    }
}

/// Priorities never decrease along `s`.
pub open spec fn priority_sorted(s: Seq<RecView>) -> bool {
    forall|i: int, j: int| 0 <= i < j < s.len() ==> s[i].priority <= s[j].priority
}

/// `out` is the stable ordering of `input` by priority: sorted, and each
/// priority's recommendations in their input order.
pub open spec fn stable_by_priority(input: Seq<RecView>, out: Seq<RecView>) -> bool {
    priority_sorted(out) && forall|p: u32| #[trigger] with_priority(out, p) == with_priority(input, p)
}

// ---------------------------------------------------------------------------
// Lemmas on `with_priority`
// ---------------------------------------------------------------------------

proof fn lemma_with_priority_add(a: Seq<RecView>, b: Seq<RecView>, p: u32)
    ensures
        with_priority(a + b, p) == with_priority(a, p) + with_priority(b, p),
    decreases b.len(),
{
    if b.len() == 0 {
        assert(a + b =~= a);
        assert(with_priority(b, p) =~= Seq::<RecView>::empty());
        assert(with_priority(a, p) + with_priority(b, p) =~= with_priority(a, p));
    } else {
        assert((a + b).drop_last() =~= a + b.drop_last());
        lemma_with_priority_add(a, b.drop_last(), p);
        assert((a + b).last() == b.last());
        if b.last().priority == p {
            assert(with_priority(a, p) + with_priority(b, p) =~= (with_priority(a, p)
                + with_priority(b.drop_last(), p)).push(b.last()));
        }
    }
}

proof fn lemma_with_priority_none(s: Seq<RecView>, p: u32)
    requires
        forall|i: int| 0 <= i < s.len() ==> s[i].priority != p,
    ensures
        with_priority(s, p) == Seq::<RecView>::empty(),
    decreases s.len(),
{
    if s.len() > 0 {
        lemma_with_priority_none(s.drop_last(), p);
    }
}

// ---------------------------------------------------------------------------
// Executable functions
// ---------------------------------------------------------------------------

impl ResultMerger {
    /// The deduplication key of an action text.
    pub fn normalize_action(action: &str) -> (r: String)
        ensures
            r@ == action_key(action@),
    {
        let lower = to_lowercase(action);
        let v = chars_of(lower.as_str());
        let mut out: Vec<char> = Vec::new();
        let mut i: usize = 0;
        while i < v.len()
            invariant
                i <= v.len(),
                v@ == unicode_lower(action@),
                out@ == v@.take(i as int).filter(|c: char| unicode_alnum(c)),
            decreases v.len() - i,
        {
            proof {
                assert(v@.take(i + 1).drop_last() =~= v@.take(i as int));
                reveal_with_fuel(Seq::<char>::filter, 1);
            }
            if is_alphanumeric(v[i]) {
                out.push(v[i]);
            }
            i += 1;
        }
        assert(v@.take(v.len() as int) =~= v@);
        string_of(out.as_slice())
    }

    fn key_position(keys: &[String], k: &str) -> (r: Option<usize>)
        ensures
            match r {
                Some(j) => j < keys@.len() && keys@[j as int]@ == k@ && forall|t: int|
                    0 <= t < j ==> keys@[t]@ != k@,
                None => forall|t: int| 0 <= t < keys@.len() ==> keys@[t]@ != k@,
            },
    {
        let mut j: usize = 0;
        while j < keys.len()
            invariant
                j <= keys.len(),
                forall|t: int| 0 <= t < j ==> keys@[t]@ != k@,
            decreases keys.len() - j,
        {
            if crate::text::str_eq(keys[j].as_str(), k) {
                return Some(j);
            }
            j += 1;
        }
        None
    }

    /// Merges LLM recommendations (deduplicated by normalised action) with
    /// the suggestions of the rule diagnostics: a suggestion with a new key
    /// is appended after them with the next priority; one with a known key
    /// marks the first matching recommendation as backed by that rule (an
    /// LLM one becomes `both`). The result is ordered by priority, ties
    /// keeping their merge order.
    pub fn merge_recommendations(
        rule_diagnostics: &[AggregatedDiagnostic],
        llm_recommendations: &[LLMRecommendation],
    ) -> (r: Vec<MergedRecommendation>)
        requires
            llm_recommendations@.len() + rule_pairs(rule_diagnostics@).len() < u32::MAX,
        ensures
            stable_by_priority(
                merged_unsorted(rule_diagnostics@, llm_recommendations@),
                rec_views(r@),
            ),
            distinct_keys(rec_views(r@)),
    {
        let mut merged: Vec<MergedRecommendation> = Vec::new();
        let mut keys: Vec<String> = Vec::new();
        let mut i: usize = 0;
        while i < llm_recommendations.len()
            invariant
                i <= llm_recommendations.len(),
                keys@.len() == merged@.len(),
                forall|t: int| 0 <= t < keys@.len() ==> #[trigger] keys@[t]@ == action_key(merged@[t]@.action),
                rec_views(merged@) == llm_phase(
                    llm_recommendations@.take(i as int),
                ),
                merged@.len() <= i,
            decreases llm_recommendations.len() - i,
        {
            let rec = &llm_recommendations[i];
            let k = Self::normalize_action(rec.action.as_str());
            let ghost mv = rec_views(merged@);
            proof {
                assert(llm_recommendations@.take(i + 1).drop_last() =~= llm_recommendations@.take(
                    i as int,
                ));
                assert(llm_recommendations@.take(i + 1).last() == *rec);
            }
            match Self::key_position(keys.as_slice(), k.as_str()) {
                Some(j) => {
                    proof {
                        assert(action_key(mv[j as int].action) == k@);
                        assert(has_key(mv, action_key(rec.action@)));
                    }
                },
                None => {
                    proof {
                        assert(!has_key(mv, action_key(rec.action@))) by {
                            if has_key(mv, action_key(rec.action@)) {
                                let t = choose|t: int|
                                    0 <= t < mv.len() && #[trigger] action_key(mv[t].action)
                                        == action_key(rec.action@);
                                assert(keys@[t]@ == action_key(merged@[t]@.action));
                            }
                        }
                    }
                    let m = MergedRecommendation {
                        priority: rec.priority,
                        action: rec.action.clone(),
                        expected_improvement: rec.expected_improvement.clone(),
                        sql_example: match &rec.sql_example {
                            Some(s) => Some(s.clone()),
                            None => None,
                        },
                        source: String::from_str("llm"),
                        related_root_causes: Vec::new(),
                        is_root_cause_fix: true,
                    };
                    assert(m@.related_root_causes =~= Seq::<Seq<char>>::empty());
                    assert(m@ == from_llm(*rec));
                    merged.push(m);
                    keys.push(k);
                    assert(rec_views(merged@) =~= mv.push(
                        from_llm(*rec),
                    ));
                },
            }
            i += 1;
        }
        assert(llm_recommendations@.take(llm_recommendations.len() as int)
            =~= llm_recommendations@);
        let ghost base = rec_views(merged@);
        let ghost all_pairs = rule_pairs(rule_diagnostics@);
        let ghost mut done: Seq<(Seq<char>, Seq<char>)> = Seq::empty();
        let mut d: usize = 0;
        while d < rule_diagnostics.len()
            invariant
                d <= rule_diagnostics.len(),
                all_pairs == rule_pairs(rule_diagnostics@),
                done == rule_pairs(rule_diagnostics@.take(d as int)),
                keys@.len() == merged@.len(),
                forall|t: int| 0 <= t < keys@.len() ==> #[trigger] keys@[t]@ == action_key(merged@[t]@.action),
                rec_views(merged@) == rule_phase(base, done),
                merged@.len() <= llm_recommendations@.len() + done.len(),
                llm_recommendations@.len() + all_pairs.len() < u32::MAX,
                base == llm_phase(llm_recommendations@),
            decreases rule_diagnostics.len() - d,
        {
            let diag = &rule_diagnostics[d];
            proof {
                assert(rule_diagnostics@.take(d + 1).drop_last() =~= rule_diagnostics@.take(d as int));
                assert(rule_diagnostics@.take(d + 1).last() == *diag);
                lemma_rule_pairs_prefix(rule_diagnostics@, d as int);
            }
            let ghost done0 = done;
            let mut s: usize = 0;
            while s < diag.suggestions.len()
                invariant
                    s <= diag.suggestions.len(),
                    *diag == rule_diagnostics@[d as int],
                    d < rule_diagnostics@.len(),
                    all_pairs == rule_pairs(rule_diagnostics@),
                    done0 == rule_pairs(rule_diagnostics@.take(d as int)),
                    done == done0 + diag.suggestions@.take(s as int).map_values(
                        |x: String| (diag.rule_id@, x@),
                    ),
                    done0.len() + diag.suggestions@.len() <= all_pairs.len(),
                    keys@.len() == merged@.len(),
                    forall|t: int| 0 <= t < keys@.len() ==> #[trigger] keys@[t]@ == action_key(merged@[t]@.action),
                    rec_views(merged@) == rule_phase(base, done),
                    merged@.len() <= llm_recommendations@.len() + done.len(),
                    llm_recommendations@.len() + all_pairs.len() < u32::MAX,
                    base == llm_phase(llm_recommendations@),
                decreases diag.suggestions.len() - s,
            {
                let suggestion = &diag.suggestions[s];
                let k = Self::normalize_action(suggestion.as_str());
                let ghost mv = rec_views(merged@);
                let ghost pair = (diag.rule_id@, suggestion@);
                proof {
                    done = done.push(pair);
                    assert(done == done0 + diag.suggestions@.take(s + 1).map_values(
                        |x: String| (diag.rule_id@, x@),
                    ));
                    assert(done.drop_last() =~= rule_phase_arg(done0, diag.suggestions@, diag.rule_id@, s as int));
                }
                match Self::key_position(keys.as_slice(), k.as_str()) {
                    None => {
                        proof {
                            assert(!has_key(mv, action_key(suggestion@))) by {
                                if has_key(mv, action_key(suggestion@)) {
                                    let t = choose|t: int|
                                        0 <= t < mv.len() && #[trigger] action_key(mv[t].action)
                                            == action_key(suggestion@);
                                    assert(keys@[t]@ == action_key(merged@[t]@.action));
                                }
                            }
                        }
                        let prio: u32 = (merged.len() + 1) as u32;
                        let mut rel: Vec<String> = Vec::new();
                        rel.push(diag.rule_id.clone());
                        let m = MergedRecommendation {
                            priority: prio,
                            action: suggestion.clone(),
                            expected_improvement: String::new(),
                            sql_example: None,
                            source: String::from_str("rule"),
                            related_root_causes: rel,
                            is_root_cause_fix: false,
                        };
                        assert(m@.related_root_causes =~= seq![diag.rule_id@]);
                        merged.push(m);
                        keys.push(k);
                        assert(rec_views(merged@) =~= rule_step(
                            mv,
                            diag.rule_id@,
                            suggestion@,
                        ));
                    },
                    Some(j) => {
                        proof {
                            assert(has_key(mv, action_key(suggestion@))) by {
                                assert(action_key(mv[j as int].action) == action_key(suggestion@));
                            }
                            assert forall|t: int| 0 <= t < j implies action_key(mv[t].action)
                                != action_key(suggestion@) by {
                                assert(keys@[t]@ == action_key(merged@[t]@.action));
                            }
                            lemma_first_key_pos(mv, action_key(suggestion@), j as int);
                        }
                        let mut item = merged.remove(j);
                        let ghost old_item = item@;
                        if crate::text::str_eq(item.source.as_str(), "llm") {
                            item.source = String::from_str("both");
                        }
                        item.related_root_causes.push(diag.rule_id.clone());
                        assert(item@.related_root_causes =~= old_item.related_root_causes.push(
                            diag.rule_id@,
                        ));
                        assert(item@ == also_from_rule(old_item, diag.rule_id@));
                        merged.insert(j, item);
                        assert(rec_views(merged@) =~= mv.update(
                            j as int,
                            also_from_rule(mv[j as int], diag.rule_id@),
                        ));
                        assert(keys@[j as int]@ == action_key(merged@[j as int]@.action));
                    },
                }
                s += 1;
            }
            proof {
                assert(diag.suggestions@.take(diag.suggestions@.len() as int) =~= diag.suggestions@);
                assert(done == rule_pairs(rule_diagnostics@.take(d + 1)));
            }
            d += 1;
        }
        proof {
            assert(rule_diagnostics@.take(rule_diagnostics.len() as int) =~= rule_diagnostics@);
            law_merged_keys_distinct(rule_diagnostics@, llm_recommendations@);
        }
        Self::sort_by_priority(merged)
    }

    /// Stable insertion sort by priority.
    #[verifier::spinoff_prover]
    #[verifier::rlimit(40)]
    fn sort_by_priority(input: Vec<MergedRecommendation>) -> (r: Vec<MergedRecommendation>)
        ensures
            stable_by_priority(
                rec_views(input@),
                rec_views(r@),
            ),
            distinct_keys(rec_views(input@)) ==> distinct_keys(rec_views(r@)),
    {
        let ghost iv = rec_views(input@);
        let mut input = input;
        let n = input.len();
        let mut out: Vec<MergedRecommendation> = Vec::new();
        let mut i: usize = 0;
        while i < n
            invariant
                n == iv.len(),
                i <= n,
                input@.len() == n - i,
                forall|t: int| 0 <= t < input@.len() ==> #[trigger] input@[t]@ == iv[t + i],
                priority_sorted(rec_views(out@)),
                forall|p: u32|
                    #[trigger] with_priority(rec_views(out@), p)
                        == with_priority(iv.take(i as int), p),
                forall|t: int|
                    0 <= t < out@.len() ==> exists|s: int|
                        0 <= s < i && #[trigger] rec_views(out@)[t] == #[trigger] iv[s],
                distinct_keys(iv) ==> distinct_keys(rec_views(out@)),
            decreases n - i,
        {
            let x = input.remove(0);
            assert(x@ == iv[i as int]);
            let ghost ov = rec_views(out@);
            let mut j: usize = 0;
            while j < out.len() && out[j].priority <= x.priority
                invariant
                    j <= out@.len(),
                    ov == rec_views(out@),
                    forall|t: int| 0 <= t < j ==> ov[t].priority <= x.priority,
                decreases out@.len() - j,
            {
                j += 1;
            }
            proof {
                let left = ov.take(j as int);
                let right = ov.skip(j as int);
                assert(ov =~= left + right);
                assert forall|t: int| 0 <= t < right.len() implies right[t].priority > x.priority by {
                    assert(right[t] == ov[t + j]);
                    if t > 0 {
                        assert(ov[j as int].priority > x.priority);
                        assert(ov[j as int].priority <= ov[t + j].priority);
                    }
                }
                assert(iv.take(i + 1).drop_last() =~= iv.take(i as int));
                assert(iv.take(i + 1).last() == x@);
                assert forall|p: u32|
                    #[trigger] with_priority(left + seq![x@] + right, p) == with_priority(
                        iv.take(i + 1),
                        p,
                    ) by {
                    lemma_with_priority_add(left + seq![x@], right, p);
                    lemma_with_priority_add(left, seq![x@], p);
                    lemma_with_priority_add(left, right, p);
                    assert(seq![x@].drop_last() =~= Seq::<RecView>::empty());
                    assert(seq![x@].last() == x@);
                    assert(with_priority(Seq::<RecView>::empty(), p) =~= Seq::<RecView>::empty());
                    if p == x@.priority {
                        lemma_with_priority_none(right, p);
                        assert(with_priority(seq![x@], p) =~= seq![x@]);
                    } else {
                        assert(with_priority(seq![x@], p) =~= Seq::<RecView>::empty());
                    }
                }
            }
            out.insert(j, x);
            proof {
                let nv = rec_views(out@);
                assert(nv =~= ov.take(j as int) + seq![x@] + ov.skip(j as int));
                assert forall|t: int| 0 <= t < nv.len() implies exists|s: int|
                    0 <= s < i + 1 && #[trigger] nv[t] == #[trigger] iv[s] by {
                    if t < j {
                        assert(nv[t] == ov[t]);
                        let s = choose|s: int| 0 <= s < i && #[trigger] ov[t] == #[trigger] iv[s];
                        assert(nv[t] == iv[s]);
                    } else if t == j {
                        assert(nv[t] == iv[i as int]);
                    } else {
                        assert(nv[t] == ov[t - 1]);
                        let s = choose|s: int| 0 <= s < i && #[trigger] ov[t - 1] == #[trigger] iv[s];
                        assert(nv[t] == iv[s]);
                    }
                }
                if distinct_keys(iv) {
                    assert forall|a: int, b: int| 0 <= a < b < nv.len() implies action_key(
                        #[trigger] nv[a].action,
                    ) != action_key(#[trigger] nv[b].action) by {
                        if a != j && b != j {
                            let a0 = if a < j { a } else { a - 1 };
                            let b0 = if b < j { b } else { b - 1 };
                            assert(nv[a] == ov[a0] && nv[b] == ov[b0]);
                            assert(a0 < b0);
                        } else {
                            let o = if a == j { b } else { a };
                            let o0 = if o < j { o } else { o - 1 };
                            assert(nv[o] == ov[o0]);
                            let s = choose|s: int| 0 <= s < i && #[trigger] ov[o0] == #[trigger] iv[s];
                            assert(nv[j as int] == iv[i as int]);
                            if s < i {
                                assert(action_key(iv[s].action) != action_key(iv[i as int].action));
                            }
                        }
                    }
                }
                assert forall|a: int, b: int| 0 <= a < b < nv.len() implies nv[a].priority
                    <= nv[b].priority by {
                    if b < j {
                    } else if b == j {
                    } else if a < j {
                        assert(nv[b] == ov[b - 1]);
                        assert(ov[b - 1].priority > x.priority);
                    } else if a == j {
                        assert(nv[b] == ov[b - 1]);
                    } else {
                        assert(nv[a] == ov[a - 1]);
                        assert(nv[b] == ov[b - 1]);
                    }
                }
            }
            i += 1;
        }
        assert(iv.take(n as int) =~= iv);
        out
    }
}

/// The pairs done after `s` suggestions of the current diagnostic, minus the
/// last one (a bookkeeping form of the prefix).
pub open spec fn rule_phase_arg(
    done0: Seq<(Seq<char>, Seq<char>)>,
    suggestions: Seq<String>,
    rule_id: Seq<char>,
    s: int,
) -> Seq<(Seq<char>, Seq<char>)> {
    done0 + suggestions.take(s).map_values(|x: String| (rule_id, x@))
}

proof fn lemma_rule_pairs_prefix(diags: Seq<AggregatedDiagnostic>, d: int)
    requires
        0 <= d < diags.len(),
    ensures
        rule_pairs(diags.take(d + 1)) == rule_pairs(diags.take(d)) + diags[d].suggestions@.map_values(
            |s: String| (diags[d].rule_id@, s@),
        ),
        rule_pairs(diags.take(d)).len() + diags[d].suggestions@.len() <= rule_pairs(diags).len(),
{
    assert(diags.take(d + 1).drop_last() =~= diags.take(d));
    lemma_rule_pairs_len_mono(diags, d + 1);
}

proof fn lemma_rule_pairs_len_mono(diags: Seq<AggregatedDiagnostic>, k: int)
    requires
        0 <= k <= diags.len(),
    ensures
        rule_pairs(diags.take(k)).len() <= rule_pairs(diags).len(),
    decreases diags.len() - k,
{
    if k < diags.len() {
        lemma_rule_pairs_len_mono(diags, k + 1);
        assert(diags.take(k + 1).drop_last() =~= diags.take(k));
    } else {
        assert(diags.take(k) =~= diags);
    }
}

proof fn lemma_first_key_pos(m: Seq<RecView>, k: Seq<char>, j: int)
    requires
        0 <= j < m.len(),
        action_key(m[j].action) == k,
        forall|t: int| 0 <= t < j ==> action_key(m[t].action) != k,
    ensures
        first_key_pos(m, k) == j,
    decreases j,
{
    if j > 0 {
        assert(action_key(m[0].action) != k);
        lemma_first_key_pos(m.drop_first(), k, j - 1);
    }
}

// ---------------------------------------------------------------------------
// Rule diagnostics in the LLM request shape
// ---------------------------------------------------------------------------

/// The operator of a plan-node path: its last `/`-separated segment.
pub open spec fn operator_of(path: Seq<char>) -> Seq<char> {
    split(path, '/').last()
}

proof fn lemma_split_nonempty(s: Seq<char>, sep: char)
    ensures
        split(s, sep).len() >= 1,
    decreases s.len(),
{
    match crate::text::find_char(s, sep) {
        Some(i) => if 0 <= i < s.len() {
            lemma_split_nonempty(s.skip(i + 1), sep);
        },
        None => {},
    }
}

fn operator_of_path(path: &str) -> (r: String)
    ensures
        r@ == operator_of(path@),
{
    let v = chars_of(path);
    let parts = split_exec(v.as_slice(), '/');
    proof {
        lemma_split_nonempty(v@, '/');
    }
    let last = parts.len() - 1;
    string_of(parts[last].as_slice())
}

/// Converts a node diagnostic into the LLM request shape, with its reason as
/// evidence and its threshold information, if any.
pub fn diagnostic_to_llm(diag: &DiagnosticResult) -> (r: DiagnosticForLLM)
    ensures
        r.rule_id@ == diag.rule_id@,
        r.severity@ == diag.severity@,
        r.operator@ == operator_of(diag.node_path@),
        r.plan_node_id == diag.plan_node_id,
        r.message@ == diag.message@,
        r.evidence@.len() == 1,
        r.evidence@[0].0@ == "reason"@ && r.evidence@[0].1@ == diag.reason@,
        threshold_view(r.threshold_info) == threshold_view(diag.threshold_metadata),
{
    let mut evidence: Vec<(String, String)> = Vec::new();
    evidence.push((String::from_str("reason"), diag.reason.clone()));
    let threshold_info = match &diag.threshold_metadata {
        Some(t) => Some(
            ThresholdInfo { values: t.values, source: t.source.clone(), sample_count: t.sample_count },
        ),
        None => None,
    };
    DiagnosticForLLM {
        rule_id: diag.rule_id.clone(),
        severity: diag.severity.clone(),
        operator: operator_of_path(diag.node_path.as_str()),
        plan_node_id: diag.plan_node_id,
        message: diag.message.clone(),
        evidence,
        threshold_info,
    }
}

/// Converts an aggregated diagnostic into the LLM request shape: the
/// operator of its first affected node (`unknown` without one), its reason
/// and the count of affected nodes as evidence.
pub fn aggregated_diagnostic_to_llm(diag: &AggregatedDiagnostic) -> (r: DiagnosticForLLM)
    ensures
        r.rule_id@ == diag.rule_id@,
        r.severity@ == diag.severity@,
        r.operator@ == if diag.affected_nodes@.len() > 0 {
            operator_of(diag.affected_nodes@[0]@)
        } else {
            "unknown"@
        },
        r.plan_node_id is None,
        r.threshold_info is None,
        r.message@ == diag.message@,
        r.evidence@.len() == 2,
        r.evidence@[0].0@ == "reason"@ && r.evidence@[0].1@ == diag.reason@,
        r.evidence@[1].0@ == "affected_nodes"@ && r.evidence@[1].1@ == int_dec(
            diag.node_count as int,
        ) + " nodes"@,
{
    let mut evidence: Vec<(String, String)> = Vec::new();
    evidence.push((String::from_str("reason"), diag.reason.clone()));
    let n = u64_dec(diag.node_count as u64);
    let mut count = string_of(n.as_slice());
    count.append(" nodes");
    evidence.push((String::from_str("affected_nodes"), count));
    let operator = if diag.affected_nodes.len() > 0 {
        operator_of_path(diag.affected_nodes[0].as_str())
    } else {
        String::from_str("unknown")
    };
    DiagnosticForLLM {
        rule_id: diag.rule_id.clone(),
        severity: diag.severity.clone(),
        operator,
        plan_node_id: None,
        message: diag.message.clone(),
        evidence,
        threshold_info: None,
    }
}

} // verus!
