use stellar::agent::models::{EventKind, EventSeverity, EventState, IncidentStatus};

#[test]
fn event_kind_roundtrip() {
    for k in [
        EventKind::NodeDown,
        EventKind::DiskPressure,
        EventKind::Compaction,
        EventKind::LoadBacklog,
        EventKind::TxnError,
        EventKind::MetricBreach,
        EventKind::SlowQuery,
    ] {
        assert_eq!(EventKind::parse(k.as_str()), Some(k));
    }
    assert_eq!(EventKind::parse("nope"), None);
}

#[test]
fn event_state_roundtrip() {
    for s in ["open", "aggregated", "suppressed", "resolved"] {
        assert_eq!(EventState::parse(s).unwrap().as_str(), s);
    }
    assert_eq!(EventState::parse("?"), None);
}

#[test]
fn severity_orders() {
    assert_eq!(EventSeverity::Info.as_str(), "info");
    assert_eq!(EventSeverity::Warning.as_str(), "warning");
    assert_eq!(EventSeverity::Critical.as_str(), "critical");
}

#[test]
fn incident_status_names_roundtrip() {
    for s in ["open", "investigating", "resolved", "closed"] {
        assert_eq!(IncidentStatus::parse(s).unwrap().as_str(), s);
    }
    assert_eq!(IncidentStatus::parse("mitigating"), None);
    assert_eq!(IncidentStatus::parse("OPEN"), None);
}

#[test]
fn event_kind_names_are_snake_case() {
    assert_eq!(EventKind::NodeDown.as_str(), "node_down");
    assert_eq!(EventKind::DiskPressure.as_str(), "disk_pressure");
    assert_eq!(EventKind::parse("slow_query"), Some(EventKind::SlowQuery));
    assert_eq!(EventKind::parse("Node_Down"), None);
}
