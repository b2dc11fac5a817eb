//! Fusion of the root causes the LLM names with the rule diagnostics.
//!
//! Every LLM root cause is kept, linked to the rules among its symptoms
//! (source `both`, or `llm` when none is a rule). Each rule diagnostic that
//! no LLM root cause lists as a symptom becomes a root cause of its own,
//! `rule_<id>` (source `rule`, fully confident), once per id. Confidence
//! values are not handled here: each entry says where its confidence comes
//! from, and the caller orders the entries by it.

use vstd::prelude::*;
use vstd::string::*;
use crate::llm::merger::AggregatedDiagnostic;
use crate::text::{chars_of, concat2, str_eq, string_of, texts};

verus! {

/// A root cause named by the LLM (its confidence kept by the caller).
#[derive(Debug, Clone)]
pub struct RootCauseClaim {
    pub root_cause_id: String,
    pub description: String,
    pub evidence: Vec<String>,
    pub symptoms: Vec<String>,
    pub is_implicit: bool,
}

/// Where a merged root cause's confidence comes from.
#[derive(Debug, Clone, Copy, PartialEq, Eq)]
pub enum ConfidenceOf {
    /// The confidence of the LLM root cause at this position.
    Claim(usize),
    /// A rule diagnostic: full confidence.
    Rule,
}

/// A merged root cause before ordering.
#[derive(Debug, Clone)]
pub struct RootCauseDraft {
    pub id: String,
    pub related_rule_ids: Vec<String>,
    pub description: String,
    pub is_implicit: bool,
    pub confidence: ConfidenceOf,
    /// `rule`, `llm` or `both`.
    pub source: String,
    pub evidence: Vec<String>,
    pub symptoms: Vec<String>,
}

/// A draft as plain values.
pub type DraftView = (
    Seq<char>,
    Seq<Seq<char>>,
    Seq<char>,
    bool,
    ConfidenceOf,
    Seq<char>,
    Seq<Seq<char>>,
    Seq<Seq<char>>,
);

/// A draft's plain values.
pub open spec fn draft_view(d: RootCauseDraft) -> DraftView {
    (
        d.id@,
        texts(d.related_rule_ids@),
        d.description@,
        d.is_implicit,
        d.confidence,
        d.source@,
        texts(d.evidence@),
        texts(d.symptoms@),
    )
}

/// The rule ids of the diagnostics.
pub open spec fn rule_ids(rules: Seq<AggregatedDiagnostic>) -> Seq<Seq<char>> {
    rules.map_values(|d: AggregatedDiagnostic| d.rule_id@)
}

/// The symptoms that are rule ids, in order.
pub open spec fn related_rules(symptoms: Seq<Seq<char>>, ids: Seq<Seq<char>>) -> Seq<Seq<char>>
    decreases symptoms.len(),
{
    if symptoms.len() == 0 {
        Seq::empty()
    } else {
        let r = related_rules(symptoms.drop_last(), ids);
        if ids.contains(symptoms.last()) {
            r.push(symptoms.last())
        } else {
            r
        }
    }
}

/// The merged entry of the LLM root cause at position `i`.
pub open spec fn claim_draft(c: RootCauseClaim, i: usize, ids: Seq<Seq<char>>) -> DraftView {
    let related = related_rules(texts(c.symptoms@), ids);
    (
        c.root_cause_id@,
        related,
        c.description@,
        c.is_implicit,
        ConfidenceOf::Claim(i),
        if related.len() == 0 {
            "llm"@
        } else {
            "both"@
        },
        texts(c.evidence@),
        texts(c.symptoms@),
    )
}

/// Some LLM root cause lists `rule_id` among its symptoms.
pub open spec fn covered(claims: Seq<RootCauseClaim>, rule_id: Seq<char>) -> bool {
    exists|i: int| 0 <= i < claims.len() && texts(#[trigger] claims[i].symptoms@).contains(rule_id)
}

/// The id of the root cause a rule diagnostic stands for.
pub open spec fn rule_entry_id(rule_id: Seq<char>) -> Seq<char> {
    "rule_"@ + rule_id
}

/// The entry of a rule diagnostic.
pub open spec fn rule_draft(d: AggregatedDiagnostic) -> DraftView {
    (
        rule_entry_id(d.rule_id@),
        seq![d.rule_id@],
        d.message@,
        false,
        ConfidenceOf::Rule,
        "rule"@,
        seq![d.reason@],
        Seq::empty(),
    )
}

/// The entries of the first `n` rules: uncovered rules whose entry id is
/// not taken yet (by an LLM root cause or an earlier rule).
pub open spec fn rule_drafts(
    rules: Seq<AggregatedDiagnostic>,
    claims: Seq<RootCauseClaim>,
    n: int,
) -> Seq<DraftView>
    decreases n,
{
    if n <= 0 {
        Seq::empty()
    } else {
        let prev = rule_drafts(rules, claims, n - 1);
        let d = rules[n - 1];
        let id = rule_entry_id(d.rule_id@);
        let taken = claims.map_values(|c: RootCauseClaim| c.root_cause_id@).contains(id)
            || prev.map_values(|v: DraftView| v.0).contains(id);
        if covered(claims, d.rule_id@) || taken {
            prev
        } else {
            prev.push(rule_draft(d))
        }
    }
}

/// All merged entries, before ordering: the LLM root causes, then the rule
/// entries.
pub open spec fn merged_drafts(rules: Seq<AggregatedDiagnostic>, claims: Seq<RootCauseClaim>) -> Seq<
    DraftView,
> {
    Seq::new(claims.len(), |i: int| claim_draft(claims[i], i as usize, rule_ids(rules)))
        + rule_drafts(rules, claims, rules.len() as int)
}

fn copy_texts(v: &Vec<String>) -> (r: Vec<String>)
    ensures
        texts(r@) == texts(v@),
{
    let mut out: Vec<String> = Vec::new();
    let mut i: usize = 0;
    while i < v.len()
        invariant
            i <= v@.len(),
            texts(out@) == texts(v@).take(i as int),
        decreases v@.len() - i,
    {
        let s = string_of(chars_of(v[i].as_str()).as_slice());
        let ghost before = texts(out@);
        out.push(s);
        assert(texts(out@) =~= before.push(s@));
        assert(texts(v@).take(i + 1) =~= texts(v@).take(i as int).push(v@[i as int]@));
        i += 1;
    }
    assert(texts(v@).take(v@.len() as int) =~= texts(v@));
    out
}

fn contains_text(v: &Vec<String>, x: &str) -> (r: bool)
    ensures
        r == texts(v@).contains(x@),
{
    let mut i: usize = 0;
    while i < v.len()
        invariant
            i <= v@.len(),
            forall|k: int| 0 <= k < i ==> v@[k]@ != x@,
        decreases v@.len() - i,
    {
        if str_eq(v[i].as_str(), x) {
            assert(texts(v@)[i as int] == x@);
            return true;
        }
        i += 1;
    }
    proof {
        if texts(v@).contains(x@) {
            let w = choose|w: int| 0 <= w < texts(v@).len() && #[trigger] texts(v@)[w] == x@;
            assert(v@[w]@ == x@);
        }
    }
    false
}

fn related_of(symptoms: &Vec<String>, rules: &[AggregatedDiagnostic]) -> (r: Vec<String>)
    ensures
        texts(r@) == related_rules(texts(symptoms@), rule_ids(rules@)),
{
    let ghost sv = texts(symptoms@);
    let ghost ids = rule_ids(rules@);
    let mut out: Vec<String> = Vec::new();
    let mut i: usize = 0;
    while i < symptoms.len()
        invariant
            i <= symptoms@.len(),
            sv == texts(symptoms@),
            ids == rule_ids(rules@),
            texts(out@) == related_rules(sv.take(i as int), ids),
        decreases symptoms@.len() - i,
    {
        proof {
            assert(sv.take(i + 1).drop_last() =~= sv.take(i as int));
            assert(sv.take(i + 1).last() == symptoms@[i as int]@);
        }
        let s = symptoms[i].as_str();
        let mut found = false;
        let mut k: usize = 0;
        while k < rules.len()
            invariant
                k <= rules@.len(),
                ids == rule_ids(rules@),
                found == ids.take(k as int).contains(s@),
            decreases rules@.len() - k,
        {
            let same = str_eq(rules[k].rule_id.as_str(), s);
            proof {
                let a = ids.take(k as int);
                let b = ids.take(k + 1);
                assert(b =~= a.push(ids[k as int]));
                if a.contains(s@) {
                    let w = choose|w: int| 0 <= w < a.len() && #[trigger] a[w] == s@;
                    assert(b[w] == s@);
                }
                if same {
                    assert(b[k as int] == s@);
                }
                if b.contains(s@) && !same {
                    let w = choose|w: int| 0 <= w < b.len() && #[trigger] b[w] == s@;
                    assert(a[w] == s@);
                }
            }
            if same {
                found = true;
            }
            k += 1;
        }
        assert(ids.take(rules@.len() as int) =~= ids);
        if found {
            let x = string_of(chars_of(s).as_slice());
            let ghost before = texts(out@);
            out.push(x);
            assert(texts(out@) =~= before.push(s@));
        }
        i += 1;
    }
    assert(sv.take(symptoms@.len() as int) =~= sv);
    out
}

fn claim_lists(claims: &[RootCauseClaim], rule_id: &str) -> (r: bool)
    ensures
        r == covered(claims@, rule_id@),
{
    let mut i: usize = 0;
    while i < claims.len()
        invariant
            i <= claims@.len(),
            forall|k: int| 0 <= k < i ==> !texts(#[trigger] claims@[k].symptoms@).contains(rule_id@),
        decreases claims@.len() - i,
    {
        if contains_text(&claims[i].symptoms, rule_id) {
            return true;
        }
        i += 1;
    }
    false
}

fn ids_contain(ids: &Vec<String>, x: &str) -> (r: bool)
    ensures
        r == texts(ids@).contains(x@),
{
    contains_text(ids, x)
}

/// Merges the LLM root causes with the rule diagnostics (see the module
/// description); the caller orders the result by confidence.
pub fn root_cause_drafts(rules: &[AggregatedDiagnostic], claims: &[RootCauseClaim]) -> (r: Vec<
    RootCauseDraft,
>)
    ensures
        r@.map_values(|d: RootCauseDraft| draft_view(d)) == merged_drafts(rules@, claims@),
{
    let ghost ids = rule_ids(rules@);
    let mut out: Vec<RootCauseDraft> = Vec::new();
    let mut claim_ids: Vec<String> = Vec::new();
    let mut i: usize = 0;
    while i < claims.len()
        invariant
            i <= claims@.len(),
            ids == rule_ids(rules@),
            out@.map_values(|d: RootCauseDraft| draft_view(d)) == Seq::new(
                i as nat,
                |k: int| claim_draft(claims@[k], k as usize, ids),
            ),
            texts(claim_ids@) == claims@.take(i as int).map_values(|c: RootCauseClaim| c.root_cause_id@),
        decreases claims@.len() - i,
    {
        let c = &claims[i];
        let related = related_of(&c.symptoms, rules);
        let source = if related.len() == 0 {
            String::from_str("llm")
        } else {
            String::from_str("both")
        };
        proof {
            reveal_strlit("llm");
            reveal_strlit("both");
        }
        let d = RootCauseDraft {
            id: string_of(chars_of(c.root_cause_id.as_str()).as_slice()),
            related_rule_ids: related,
            description: string_of(chars_of(c.description.as_str()).as_slice()),
            is_implicit: c.is_implicit,
            confidence: ConfidenceOf::Claim(i),
            source,
            evidence: copy_texts(&c.evidence),
            symptoms: copy_texts(&c.symptoms),
        };
        let ghost before = out@.map_values(|x: RootCauseDraft| draft_view(x));
        let ghost dv = draft_view(d);
        assert(dv == claim_draft(claims@[i as int], i, ids));
        out.push(d);
        assert(out@.map_values(|x: RootCauseDraft| draft_view(x)) =~= before.push(dv));
        assert(Seq::new((i + 1) as nat, |k: int| claim_draft(claims@[k], k as usize, ids))
            =~= Seq::new(i as nat, |k: int| claim_draft(claims@[k], k as usize, ids)).push(dv));
        let ghost cb = texts(claim_ids@);
        let cid = string_of(chars_of(c.root_cause_id.as_str()).as_slice());
        claim_ids.push(cid);
        assert(texts(claim_ids@) =~= cb.push(claims@[i as int].root_cause_id@));
        assert(claims@.take(i + 1).map_values(|x: RootCauseClaim| x.root_cause_id@) =~= claims@.take(
            i as int,
        ).map_values(|x: RootCauseClaim| x.root_cause_id@).push(claims@[i as int].root_cause_id@));
        i += 1;
    }
    assert(claims@.take(claims@.len() as int) =~= claims@);
    let ghost head = out@.map_values(|x: RootCauseDraft| draft_view(x));
    let mut rule_entry_ids: Vec<String> = Vec::new();
    let mut k: usize = 0;
    while k < rules.len()
        invariant
            k <= rules@.len(),
            texts(claim_ids@) == claims@.map_values(|c: RootCauseClaim| c.root_cause_id@),
            out@.map_values(|d: RootCauseDraft| draft_view(d)) == head + rule_drafts(
                rules@,
                claims@,
                k as int,
            ),
            texts(rule_entry_ids@) == rule_drafts(rules@, claims@, k as int).map_values(
                |v: DraftView| v.0,
            ),
        decreases rules@.len() - k,
    {
        let d = &rules[k];
        let id = concat2("rule_", d.rule_id.as_str());
        let is_covered = claim_lists(claims, d.rule_id.as_str());
        let taken = ids_contain(&claim_ids, id.as_str()) || ids_contain(
            &rule_entry_ids,
            id.as_str(),
        );
        let ghost prev = rule_drafts(rules@, claims@, k as int);
        assert(rule_drafts(rules@, claims@, k + 1) == if covered(claims@, d.rule_id@) || (
        claims@.map_values(|c: RootCauseClaim| c.root_cause_id@).contains(id@)
            || prev.map_values(|v: DraftView| v.0).contains(id@)) {
            prev
        } else {
            prev.push(rule_draft(*d))
        });
        if !is_covered && !taken {
            let mut related: Vec<String> = Vec::new();
            related.push(string_of(chars_of(d.rule_id.as_str()).as_slice()));
            let mut evidence: Vec<String> = Vec::new();
            evidence.push(string_of(chars_of(d.reason.as_str()).as_slice()));
            proof {
                reveal_strlit("rule");
            }
            let entry = RootCauseDraft {
                id: string_of(chars_of(id.as_str()).as_slice()),
                related_rule_ids: related,
                description: string_of(chars_of(d.message.as_str()).as_slice()),
                is_implicit: false,
                confidence: ConfidenceOf::Rule,
                source: String::from_str("rule"),
                evidence,
                symptoms: Vec::new(),
            };
            let ghost ev = draft_view(entry);
            assert(texts(entry.related_rule_ids@) =~= seq![d.rule_id@]);
            assert(texts(entry.evidence@) =~= seq![d.reason@]);
            assert(texts(entry.symptoms@) =~= Seq::<Seq<char>>::empty());
            assert(ev == rule_draft(*d));
            let ghost before = out@.map_values(|x: RootCauseDraft| draft_view(x));
            out.push(entry);
            assert(out@.map_values(|x: RootCauseDraft| draft_view(x)) =~= before.push(ev));
            let ghost rb = texts(rule_entry_ids@);
            rule_entry_ids.push(id);
            assert(texts(rule_entry_ids@) =~= rb.push(rule_entry_id(d.rule_id@)));
            assert(prev.push(rule_draft(*d)).map_values(|v: DraftView| v.0) =~= prev.map_values(
                |v: DraftView| v.0,
            ).push(rule_entry_id(d.rule_id@)));
        }
        k += 1;
    }
    out
}

} // verus!
