use stellar::agent::collectors::{CollectOutcome, EventCandidate};
use stellar::agent::models::{EventKind, EventSeverity, EventState};
use stellar::agent::tick::{converge_tick, EventSlot, RowRef, TickWrite};

fn candidate(kind: EventKind, fp: &str, object_id: &str) -> EventCandidate {
    EventCandidate {
        fingerprint: fp.to_string(),
        kind,
        severity: EventSeverity::Warning,
        object_type: Some("cluster".to_string()),
        object_id: Some(object_id.to_string()),
        title: "t".to_string(),
        summary: "s".to_string(),
        metrics: Vec::new(),
        cleared: false,
    }
}

fn slot(id: i64, fp: &str, kind: EventKind, state: EventState, count: i64, recent: bool) -> EventSlot {
    EventSlot {
        row: RowRef::Stored(id),
        fingerprint: fp.to_string(),
        kind,
        object_type: "cluster".to_string(),
        object_id: "1".to_string(),
        state,
        occurrence_count: count,
        recent,
    }
}

#[test]
fn persisting_breach_accumulates_and_receded_one_resolves() {
    let stored = vec![
        slot(7, "disk_pressure:cluster:1", EventKind::DiskPressure, EventState::Open, 1, true),
        slot(8, "compaction:cluster:1", EventKind::Compaction, EventState::Open, 3, true),
    ];
    let outcome = CollectOutcome {
        candidates: vec![candidate(EventKind::DiskPressure, "disk_pressure:cluster:1", "1")],
        cleared_fingerprints: vec!["compaction:cluster:1".to_string()],
    };
    let plan = converge_tick(stored, &outcome);
    assert_eq!(plan.events.len(), 2);
    assert_eq!(plan.events[0].occurrence_count, 2);
    assert_eq!(plan.events[0].state, EventState::Open);
    assert_eq!(plan.events[1].state, EventState::Resolved);
    assert_eq!(plan.active, vec![(RowRef::Stored(7), 0, 2)]);
    assert!(matches!(&plan.writes[0], TickWrite::Resolve(f) if f == "compaction:cluster:1"));
    assert!(matches!(
        &plan.writes[1],
        TickWrite::Update { row: RowRef::Stored(7), occurrence_count: 2, state: EventState::Open }
    ));
}

#[test]
fn stale_event_is_not_merged_and_node_down_suppresses() {
    let stored = vec![slot(7, "disk_pressure:cluster:1", EventKind::DiskPressure, EventState::Open, 4, false)];
    let outcome = CollectOutcome {
        candidates: vec![
            candidate(EventKind::NodeDown, "node_down:backend:h1", "h1"),
            candidate(EventKind::DiskPressure, "disk_pressure:cluster:1", "1"),
        ],
        cleared_fingerprints: Vec::new(),
    };
    let plan = converge_tick(stored, &outcome);
    assert_eq!(plan.events.len(), 3);
    assert_eq!(plan.events[0].occurrence_count, 4);
    assert_eq!(plan.events[1].row, RowRef::Inserted(0));
    assert_eq!(plan.events[1].state, EventState::Open);
    assert_eq!(plan.events[2].row, RowRef::Inserted(1));
    assert_eq!(plan.events[2].state, EventState::Suppressed);
    assert_eq!(plan.events[2].occurrence_count, 1);
    assert_eq!(plan.active, vec![(RowRef::Inserted(0), 0, 1)]);
    assert!(matches!(
        &plan.writes[1],
        TickWrite::Insert { candidate: 1, state: EventState::Suppressed, suppressed_by: Some(h) } if h == "h1"
    ));
}

#[test]
fn breach_accumulates_over_two_ticks() {
    let fp = "disk_pressure:cluster:1";
    let stored = vec![slot(3, fp, EventKind::DiskPressure, EventState::Resolved, 5, true)];
    let first = CollectOutcome {
        candidates: vec![candidate(EventKind::DiskPressure, fp, "1")],
        cleared_fingerprints: Vec::new(),
    };
    let plan1 = converge_tick(stored, &first);
    let next: Vec<EventSlot> = plan1
        .events
        .iter()
        .enumerate()
        .map(|(n, e)| EventSlot { row: RowRef::Stored(10 + n as i64), recent: true, ..e.clone() })
        .collect();
    let plan2 = converge_tick(next, &first);
    let live: Vec<&EventSlot> = plan2
        .events
        .iter()
        .filter(|e| e.fingerprint == fp && matches!(e.state, EventState::Open | EventState::Aggregated))
        .collect();
    assert_eq!(live.len(), 1);
    assert_eq!(live[0].occurrence_count, 2);
    assert_eq!(live[0].row, RowRef::Stored(11));
}
