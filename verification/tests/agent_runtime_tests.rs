use stellar::agent::converge::EventRow;
use stellar::agent::models::{EventKind, EventSeverity, EventState};
use stellar::agent::runtime::{
    escalation_groups, escalation_plan, escalation_step, evidence_summary_text, extend_summary,
    fallback_rule_text, hypothesis_round_status, investigation_queue, primary_of, step_raises_incident,
    storage_labels, EscalationStep, FALLBACK_REASON,
    analysis_plan, AnalysisOutcome,
};

fn event_row(id: i64, kind: EventKind, sev: EventSeverity, ty: &str, obj: &str, title: &str) -> EventRow {
    EventRow {
        id,
        cluster_id: 7,
        fingerprint: format!("fp{}", id),
        kind,
        severity: sev,
        object_type: Some(ty.to_string()),
        object_id: Some(obj.to_string()),
        title: title.to_string(),
        state: EventState::Open,
        occurrence_count: 1,
    }
}

#[test]
fn escalation_groups_by_object_and_skips_noise() {
    let events = vec![
        event_row(1, EventKind::DiskPressure, EventSeverity::Warning, "be", "h1", "磁盘水位"),
        event_row(2, EventKind::SlowQuery, EventSeverity::Critical, "query", "q1", "慢查询"),
        event_row(3, EventKind::NodeDown, EventSeverity::Critical, "be", "h1", "节点离线"),
        event_row(4, EventKind::Compaction, EventSeverity::Info, "be", "h2", "合并"),
        event_row(5, EventKind::TxnError, EventSeverity::Warning, "cluster", "c", "事务失败"),
    ];
    let groups = escalation_groups(&events);
    assert_eq!(groups.len(), 2);
    assert_eq!(groups[0].key, "be:h1");
    assert_eq!(groups[0].members, vec![0, 2]);
    assert_eq!(groups[1].key, "cluster:c");
    assert_eq!(groups[1].members, vec![4]);

    let plan = escalation_plan(7, &events);
    assert_eq!(plan.len(), 2);
    assert_eq!(plan[0].primary, 2);
    assert_eq!(plan[0].dedupe_key, "7:be:h1");
    assert_eq!(plan[0].title, "节点离线（h1）");
    assert_eq!(plan[0].notice_level, "critical");
    assert_eq!(plan[1].dedupe_key, "7:cluster:c");
    assert_eq!(plan[1].notice_level, "warning");
}

#[test]
fn primary_is_last_of_the_most_severe() {
    let events = vec![
        event_row(1, EventKind::DiskPressure, EventSeverity::Critical, "be", "h", "a"),
        event_row(2, EventKind::Compaction, EventSeverity::Warning, "be", "h", "b"),
        event_row(3, EventKind::NodeDown, EventSeverity::Critical, "be", "h", "c"),
    ];
    assert_eq!(primary_of(&events, &[0, 1, 2]), 2);
    assert_eq!(primary_of(&events, &[0, 1]), 0);
}

#[test]
fn missing_object_fields_group_under_empty_parts() {
    let mut e = event_row(1, EventKind::MetricBreach, EventSeverity::Warning, "", "", "指标");
    e.object_type = None;
    e.object_id = None;
    let plan = escalation_plan(3, &[e]);
    assert_eq!(plan[0].dedupe_key, "3::");
    assert_eq!(plan[0].title, "指标（）");
}

#[test]
fn escalation_step_prefers_active_incident() {
    assert_eq!(escalation_step(Some(5), Some(9)), EscalationStep::LinkExisting(5));
    assert_eq!(escalation_step(None, Some(9)), EscalationStep::Reopen(9));
    assert_eq!(escalation_step(None, None), EscalationStep::Create);
    assert!(!step_raises_incident(EscalationStep::LinkExisting(5)));
    assert!(step_raises_incident(EscalationStep::Create));
}

#[test]
fn investigation_queue_dedupes_and_caps() {
    assert_eq!(investigation_queue(&[4, 2], &[2, 8, 8, 9]), vec![4, 2, 8]);
    assert_eq!(investigation_queue(&[], &[1, 1]), vec![1]);
    assert_eq!(investigation_queue(&[1, 2, 3, 4], &[]), vec![1, 2, 3]);
}

#[test]
fn summary_extension() {
    assert_eq!(extend_summary("磁盘压力。 ", "预计 3 天写满"), "磁盘压力。预计 3 天写满");
    assert_eq!(extend_summary("  ", "预计"), "预计");
    assert_eq!(extend_summary("原结论", ""), "原结论");
}

#[test]
fn hypothesis_helpers() {
    assert_eq!(evidence_summary_text(""), "empty");
    assert_eq!(evidence_summary_text("{\"a\":1}"), "{\"a\":1}");
    let long = "é".repeat(301);
    assert_eq!(evidence_summary_text(&long), format!("{}...", "é".repeat(300)));
    assert_eq!(hypothesis_round_status(0), "rejected");
    assert_eq!(hypothesis_round_status(2), "completed");
    assert_eq!(fallback_rule_text(None), "无规则诊断结论");
    assert_eq!(fallback_rule_text(Some("容量")), "容量");
    assert_eq!(FALLBACK_REASON, "llm_unavailable_or_rejected");
    assert_eq!(storage_labels(true), ("data_cache", "data_cache_pct"));
    assert_eq!(storage_labels(false), ("data_disk", "disk_pct"));
}

#[test]
fn analysis_falls_back_or_keeps_incident_output() {
    let none = analysis_plan(AnalysisOutcome::ProviderUnavailable);
    assert_eq!(none.status, "rejected");
    assert!(none.fallback && !none.update_incident);
    assert_eq!(none.error.as_deref(), Some("LLM Provider 未配置或不可用"));
    let failed = analysis_plan(AnalysisOutcome::CallFailed("timeout".to_string()));
    assert_eq!(failed.status, "rejected");
    assert!(failed.fallback && !failed.update_incident);
    assert_eq!(failed.error.as_deref(), Some("LLM 调用失败: timeout"));
    let rejected = analysis_plan(AnalysisOutcome::Validated(0));
    assert_eq!(rejected.status, "rejected");
    assert!(!rejected.fallback && !rejected.update_incident && rejected.error.is_none());
    let kept = analysis_plan(AnalysisOutcome::Validated(2));
    assert_eq!(kept.status, "completed");
    assert!(!kept.fallback && kept.update_incident);
}
