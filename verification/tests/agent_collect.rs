use stellar::agent::collectors::{
    collect_cluster_events, compute_node_context, fingerprint, is_alive, load_backlog_summary,
    make_candidate, node_down_events, push_breach, slow_query_events, BackendStatus, BreachSpec,
    CollectOutcome, EventCandidate, Metric, MetricValue, MetricsSnapshot, SlowQuerySample,
};
use stellar::agent::models::{EventKind, EventSeverity};

#[test]
fn fingerprint_shape() {
    assert_eq!(fingerprint(EventKind::NodeDown, "be", "h1"), "node_down:be:h1");
    assert_eq!(fingerprint(EventKind::DiskPressure, "cluster", "3"), "disk_pressure:cluster:3");
}

#[test]
fn is_alive_parses_starrocks_strings() {
    assert!(is_alive("true"));
    assert!(is_alive("TRUE"));
    assert!(is_alive("1"));
    assert!(!is_alive("false"));
    assert!(!is_alive(""));
}

#[test]
fn push_breach_active_and_cleared() {
    let mut out = CollectOutcome { candidates: Vec::new(), cleared_fingerprints: Vec::new() };
    push_breach(
        &mut out,
        BreachSpec {
            kind: EventKind::DiskPressure,
            active: true,
            severity: EventSeverity::Critical,
            object_type: "cluster",
            object_id: "1",
            title: "t".into(),
            summary: "s".into(),
            metrics: Vec::new(),
        },
    );
    push_breach(
        &mut out,
        BreachSpec {
            kind: EventKind::Compaction,
            active: false,
            severity: EventSeverity::Warning,
            object_type: "cluster",
            object_id: "1",
            title: "t".into(),
            summary: "s".into(),
            metrics: Vec::new(),
        },
    );
    assert_eq!(out.candidates.len(), 1);
    assert_eq!(out.candidates[0].kind, EventKind::DiskPressure);
    assert_eq!(out.candidates[0].severity, EventSeverity::Critical);
    assert!(out.cleared_fingerprints.contains(&"compaction:cluster:1".to_string()));
}

#[test]
fn slow_query_candidate_carries_query_object() {
    let mut out = CollectOutcome { candidates: Vec::new(), cleared_fingerprints: Vec::new() };
    out.candidates.push(EventCandidate {
        fingerprint: fingerprint(EventKind::SlowQuery, "query", "q1"),
        kind: EventKind::SlowQuery,
        severity: EventSeverity::Info,
        object_type: Some("query".into()),
        object_id: Some("q1".into()),
        title: "慢查询 q1".into(),
        summary: "select 1".into(),
        metrics: vec![Metric { name: "duration_ms".into(), value: MetricValue::Int(6000) }],
        cleared: false,
    });
    assert_eq!(out.candidates[0].object_id.as_deref(), Some("q1"));
}

#[test]
fn shared_data_events_use_cn_and_object_storage_context() {
    assert_eq!(compute_node_context(true), ("cn", "CN"));
    let summary = load_backlog_summary(true, 10);
    assert!(summary.contains("CN"));
    assert!(summary.contains("对象存储"));
    assert!(!summary.contains("BE 磁盘"));
}

#[test]
fn shared_nothing_context_is_backend() {
    assert_eq!(compute_node_context(false), ("be", "BE"));
}

#[test]
fn make_candidate_fingerprints_its_object() {
    let c = make_candidate(
        EventKind::LoadBacklog,
        EventSeverity::Warning,
        "cluster",
        "7",
        "t".to_string(),
        "s".to_string(),
        Vec::new(),
    );
    assert_eq!(c.fingerprint, "load_backlog:cluster:7");
    assert_eq!(c.object_type.as_deref(), Some("cluster"));
    assert_eq!(c.object_id.as_deref(), Some("7"));
    assert!(!c.cleared);
}
