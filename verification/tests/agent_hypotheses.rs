use std::collections::HashSet;
use stellar::agent::hypotheses::{
    build_messages, json_array_slice, strip_markdown_fence, validate_hypotheses, EvidenceSummary,
    Hypothesis,
};

fn evidence_ids(ids: &[i64]) -> HashSet<i64> {
    ids.iter().copied().collect()
}

fn hypothesis(title: &str, kind: &str, supporting: Vec<i64>) -> Hypothesis {
    Hypothesis {
        title: title.into(),
        root_cause_type: kind.into(),
        supporting_evidence_ids: supporting,
        counter_evidence_ids: vec![],
        missing_evidence: vec![],
        recommended_next_checks: vec![],
    }
}

#[test]
fn validate_drops_no_evidence_hypothesis() {
    let v = validate_hypotheses(&[hypothesis("无依据", "unknown", vec![])], &evidence_ids(&[1]));
    assert_eq!(v.kept.len(), 0);
    assert_eq!(v.dropped, 1);
    assert_eq!(v.errors.len(), 1);
}

#[test]
fn validate_drops_bogus_evidence_ref() {
    let v = validate_hypotheses(
        &[hypothesis("引用不存在证据", "capacity", vec![99])],
        &evidence_ids(&[1]),
    );
    assert_eq!(v.kept.len(), 0);
    assert_eq!(v.dropped, 1);
}

#[test]
fn validate_keeps_cited_hypothesis() {
    let v = validate_hypotheses(&[hypothesis("合理假设", "capacity", vec![1])], &evidence_ids(&[1]));
    assert_eq!(v.kept, vec![0]);
    assert_eq!(v.dropped, 0);
    assert!(v.errors.is_empty());
}

#[test]
fn validation_partitions_in_order() {
    let hs = [
        hypothesis("a", "capacity", vec![1, 2]),
        hypothesis("b", "unknown", vec![]),
        hypothesis("c", "capacity", vec![2, 5, 7]),
        hypothesis("d", "capacity", vec![2]),
    ];
    let v = validate_hypotheses(&hs, &evidence_ids(&[1, 2]));
    assert_eq!(v.kept, vec![0, 3]);
    assert_eq!(v.dropped, 2);
    assert_eq!(v.kept.len() + v.dropped, hs.len());
    assert_eq!(v.errors[0], "假设 #2「b」没有引用任何证据");
    assert_eq!(v.errors[1], "假设 #3「c」引用了不存在的证据 [5, 7]");
}

#[test]
fn build_messages_contains_evidence_ids() {
    let msgs = build_messages(
        "t",
        Some("s"),
        &[],
        &[EvidenceSummary {
            id: 7,
            stage: "metrics".into(),
            collector: "x".into(),
            quality: "strong".into(),
            summary: "payload".into(),
        }],
    );
    assert_eq!(msgs.len(), 2);
    assert!(msgs[1].content.contains("evidence#7"));
    assert!(msgs[0].content.contains("supporting_evidence_ids"));
    assert_eq!(msgs[0].role, "system");
    assert_eq!(msgs[1].role, "user");
}

#[test]
fn fence_and_array_extraction() {
    assert_eq!(strip_markdown_fence("```json\n[1]\n```"), "\n[1]\n");
    assert_eq!(strip_markdown_fence("  [2] "), "[2]");
    assert_eq!(json_array_slice("好的：[{\"a\":1}] 以上").as_deref(), Some("[{\"a\":1}]"));
    assert_eq!(json_array_slice("抱歉，我无法分析。"), None);
    assert_eq!(json_array_slice("] ["), None);
}
