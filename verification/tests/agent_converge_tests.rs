use stellar::agent::collectors::EventCandidate;
use stellar::agent::converge::{active_event, is_suppressed, merge_action, suppression_sources, MergeAction};
use stellar::agent::models::{EventKind, EventSeverity, EventState};

fn candidate(kind: EventKind, object_id: Option<&str>) -> EventCandidate {
    EventCandidate {
        fingerprint: format!("fp-{:?}", kind),
        kind,
        severity: EventSeverity::Warning,
        object_type: object_id.map(|_| "backend".to_string()),
        object_id: object_id.map(|s| s.to_string()),
        title: "title".to_string(),
        summary: "summary".to_string(),
        metrics: Vec::new(),
        cleared: false,
    }
}

#[test]
fn node_down_candidates_are_the_sources() {
    let cands = vec![
        candidate(EventKind::DiskPressure, Some("be1")),
        candidate(EventKind::NodeDown, Some("be2")),
        candidate(EventKind::NodeDown, None),
    ];
    let s = suppression_sources(&cands);
    assert_eq!(s.len(), 2);
    assert_eq!((s[0].object_type.as_str(), s[0].object_id.as_str()), ("backend", "be2"));
    assert_eq!((s[1].object_type.as_str(), s[1].object_id.as_str()), ("", ""));
}

#[test]
fn only_secondary_events_are_suppressed() {
    assert!(is_suppressed(EventKind::Compaction, true));
    assert!(is_suppressed(EventKind::TxnError, true));
    assert!(!is_suppressed(EventKind::NodeDown, true));
    assert!(!is_suppressed(EventKind::SlowQuery, true));
    assert!(!is_suppressed(EventKind::Compaction, false));
}

#[test]
fn merge_updates_existing_or_inserts() {
    let sources = suppression_sources(&[candidate(EventKind::NodeDown, Some("be9"))]);
    assert_eq!(
        merge_action(false, Some((5, 2)), &sources),
        MergeAction::Update { id: 5, occurrence_count: 3, state: EventState::Open }
    );
    assert_eq!(
        merge_action(true, None, &sources),
        MergeAction::Insert { state: EventState::Suppressed, suppressed_by: Some("be9".to_string()) }
    );
    assert_eq!(
        merge_action(false, None, &[]),
        MergeAction::Insert { state: EventState::Open, suppressed_by: None }
    );
}

#[test]
fn suppressed_events_are_not_escalated() {
    let c = candidate(EventKind::DiskPressure, Some("be1"));
    assert!(active_event(3, &c, 11, 4, true).is_none());
    let e = active_event(3, &c, 11, 4, false).unwrap();
    assert_eq!((e.id, e.cluster_id, e.occurrence_count), (11, 3, 4));
    assert_eq!(e.state, EventState::Open);
    assert_eq!(e.kind, EventKind::DiskPressure);
    assert_eq!(e.object_id.as_deref(), Some("be1"));
}
