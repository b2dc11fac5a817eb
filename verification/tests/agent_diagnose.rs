use stellar::agent::converge::EventRow;
use stellar::agent::diagnoser::{diagnose, digest_of, select_playbook, Playbook};
use stellar::agent::models::{EventKind, EventSeverity, EventState};

fn events_of(kinds: &[(EventKind, EventSeverity)]) -> Vec<EventRow> {
    kinds
        .iter()
        .enumerate()
        .map(|(i, (k, s))| EventRow {
            id: i as i64 + 1,
            cluster_id: 1,
            fingerprint: format!("{}:cluster:1", k.as_str()),
            kind: *k,
            severity: *s,
            object_type: Some("cluster".into()),
            object_id: Some("1".into()),
            title: String::new(),
            state: EventState::Open,
            occurrence_count: 1,
        })
        .collect()
}

fn ev(k: EventKind, s: EventSeverity) -> Vec<(EventKind, EventSeverity)> {
    vec![(k, s)]
}

fn node_down_event() -> EventRow {
    EventRow {
        id: 1,
        cluster_id: 1,
        fingerprint: "node_down:cn:cn-1".to_string(),
        kind: EventKind::NodeDown,
        severity: EventSeverity::Critical,
        object_type: Some("cn".to_string()),
        object_id: Some("cn-1".to_string()),
        title: "计算节点 cn-1 离线".to_string(),
        state: EventState::Open,
        occurrence_count: 1,
    }
}

#[test]
fn node_diagnosis_is_valid_for_compute_nodes_in_both_modes() {
    let outcome = diagnose(&[node_down_event()]);
    assert_eq!(outcome.root_cause_type, "node_failure");
    assert!(!outcome.summary.contains("BE"));
    assert!(outcome.actions.iter().all(|action| !action.detail.contains("tablet")));
}

#[test]
fn node_down_beats_capacity_playbook() {
    let out = diagnose(&events_of(&ev(EventKind::NodeDown, EventSeverity::Critical)));
    assert_eq!(out.root_cause_type, "node_failure");
    assert!(out.confidence_permille >= 900);
    assert!(!out.actions.is_empty());
}

#[test]
fn disk_critical_maps_to_capacity_with_high_confidence() {
    let out = diagnose(&events_of(&ev(EventKind::DiskPressure, EventSeverity::Critical)));
    assert_eq!(out.root_cause_type, "capacity");
    assert!(out.confidence_permille >= 950, "critical 应显著高于基础值");
}

#[test]
fn disk_warning_lower_confidence_than_critical() {
    let w = diagnose(&events_of(&ev(EventKind::DiskPressure, EventSeverity::Warning)));
    let c = diagnose(&events_of(&ev(EventKind::DiskPressure, EventSeverity::Critical)));
    assert!(w.confidence_permille < c.confidence_permille);
}

#[test]
fn compaction_playbook() {
    let out = diagnose(&events_of(&ev(EventKind::Compaction, EventSeverity::Warning)));
    assert_eq!(out.root_cause_type, "compaction_backlog");
    assert!(out.confidence_permille >= 800);
}

#[test]
fn load_backlog_playbook() {
    let out = diagnose(&events_of(&ev(EventKind::LoadBacklog, EventSeverity::Warning)));
    assert_eq!(out.root_cause_type, "load_backlog");
}

#[test]
fn txn_error_playbook() {
    let out = diagnose(&events_of(&ev(EventKind::TxnError, EventSeverity::Warning)));
    assert_eq!(out.root_cause_type, "write_anomaly");
}

#[test]
fn slow_query_performance_playbook() {
    let out = diagnose(&events_of(&ev(EventKind::SlowQuery, EventSeverity::Info)));
    assert_eq!(out.root_cause_type, "query_performance");
}

#[test]
fn confidence_capped_at_0_98() {
    let out = diagnose(&events_of(&ev(EventKind::NodeDown, EventSeverity::Critical)));
    assert!(out.confidence_permille <= 980);
}

#[test]
fn unknown_when_no_pattern() {
    let out = diagnose(&[]);
    assert_eq!(out.root_cause_type, "unknown");
    assert!(out.confidence_permille < 800);
}

#[test]
fn combined_events_pick_highest_priority() {
    let out = diagnose(&events_of(&[
        (EventKind::Compaction, EventSeverity::Warning),
        (EventKind::TxnError, EventSeverity::Warning),
    ]));
    assert_eq!(out.root_cause_type, "compaction_backlog");
}

#[test]
fn digest_contains_event_ids_and_kinds() {
    let events = events_of(&ev(EventKind::DiskPressure, EventSeverity::Critical));
    let d = digest_of(&events);
    assert!(d.contains("\"event_ids\""));
    assert!(d.contains("\"disk_pressure\""));
}

#[test]
fn digest_is_compact_json() {
    let events = events_of(&[
        (EventKind::DiskPressure, EventSeverity::Critical),
        (EventKind::TxnError, EventSeverity::Warning),
    ]);
    assert_eq!(
        digest_of(&events),
        "{\"event_ids\":[1,2],\"kinds\":[\"disk_pressure\",\"txn_error\"]}"
    );
    assert_eq!(digest_of(&[]), "{\"event_ids\":[],\"kinds\":[]}");
}

#[test]
fn playbook_priority_node_failure_first() {
    let events = events_of(&[
        (EventKind::SlowQuery, EventSeverity::Info),
        (EventKind::DiskPressure, EventSeverity::Critical),
        (EventKind::NodeDown, EventSeverity::Warning),
    ]);
    assert_eq!(select_playbook(&events), Playbook::NodeFailure);
    assert_eq!(select_playbook(&[]), Playbook::Unknown);
}
