//! Event, severity, state and incident enumerations with their stored names.

use vstd::prelude::*;
use vstd::string::*;
use crate::rows::{CellView, JsonCell};
use crate::text::{i64_string, int_dec, str_eq};

verus! {

/// Kind of an agent event (stored in `agent_events.kind`).
#[derive(Debug, Clone, Copy, PartialEq, Eq, Structural)]
pub enum EventKind {
    NodeDown,
    DiskPressure,
    Compaction,
    LoadBacklog,
    TxnError,
    MetricBreach,
    SlowQuery,
}

/// The stored name of an event kind.
pub open spec fn kind_name(k: EventKind) -> Seq<char> {
    match k {
        EventKind::NodeDown => "node_down"@,
        EventKind::DiskPressure => "disk_pressure"@,
        EventKind::Compaction => "compaction"@,
        EventKind::LoadBacklog => "load_backlog"@,
        EventKind::TxnError => "txn_error"@,
        EventKind::MetricBreach => "metric_breach"@,
        EventKind::SlowQuery => "slow_query"@,
    }
}

/// The event kind stored under name `s`, if any.
pub open spec fn kind_of_name(s: Seq<char>) -> Option<EventKind> {
    if s == "node_down"@ {
        Some(EventKind::NodeDown)
    } else if s == "disk_pressure"@ {
        Some(EventKind::DiskPressure)
    } else if s == "compaction"@ {
        Some(EventKind::Compaction)
    } else if s == "load_backlog"@ {
        Some(EventKind::LoadBacklog)
    } else if s == "txn_error"@ {
        Some(EventKind::TxnError)
    } else if s == "metric_breach"@ {
        Some(EventKind::MetricBreach)
    } else if s == "slow_query"@ {
        Some(EventKind::SlowQuery)
    } else {
        None
    }
}

impl EventKind {
    pub fn as_str(&self) -> (r: &'static str)
        ensures
            r@ == kind_name(*self),
    {
        match self {
            EventKind::NodeDown => "node_down",
            EventKind::DiskPressure => "disk_pressure",
            EventKind::Compaction => "compaction",
            EventKind::LoadBacklog => "load_backlog",
            EventKind::TxnError => "txn_error",
            EventKind::MetricBreach => "metric_breach",
            EventKind::SlowQuery => "slow_query",
        }
    }

    pub fn parse(s: &str) -> (r: Option<EventKind>)
        ensures
            r == kind_of_name(s@),
    {
        if str_eq(s, "node_down") {
            Some(EventKind::NodeDown)
        } else if str_eq(s, "disk_pressure") {
            Some(EventKind::DiskPressure)
        } else if str_eq(s, "compaction") {
            Some(EventKind::Compaction)
        } else if str_eq(s, "load_backlog") {
            Some(EventKind::LoadBacklog)
        } else if str_eq(s, "txn_error") {
            Some(EventKind::TxnError)
        } else if str_eq(s, "metric_breach") {
            Some(EventKind::MetricBreach)
        } else if str_eq(s, "slow_query") {
            Some(EventKind::SlowQuery)
        } else {
            None
        }
    }
}

/// Severity of an event.
#[derive(Debug, Clone, Copy, PartialEq, Eq, Structural)]
pub enum EventSeverity {
    Info,
    Warning,
    Critical,
}

/// The stored name of a severity.
pub open spec fn severity_name(s: EventSeverity) -> Seq<char> {
    match s {
        EventSeverity::Info => "info"@,
        EventSeverity::Warning => "warning"@,
        EventSeverity::Critical => "critical"@,
    }
}

impl EventSeverity {
    pub fn as_str(&self) -> (r: &'static str)
        ensures
            r@ == severity_name(*self),
    {
        match self {
            EventSeverity::Info => "info",
            EventSeverity::Warning => "warning",
            EventSeverity::Critical => "critical",
        }
    }
}

/// Lifecycle state of an event.
#[derive(Debug, Clone, Copy, PartialEq, Eq, Structural)]
pub enum EventState {
    Open,
    Aggregated,
    Suppressed,
    Resolved,
}

/// The stored name of an event state.
pub open spec fn state_name(s: EventState) -> Seq<char> {
    match s {
        EventState::Open => "open"@,
        EventState::Aggregated => "aggregated"@,
        EventState::Suppressed => "suppressed"@,
        EventState::Resolved => "resolved"@,
    }
}

/// The event state stored under name `s`, if any.
pub open spec fn state_of_name(s: Seq<char>) -> Option<EventState> {
    if s == "open"@ {
        Some(EventState::Open)
    } else if s == "aggregated"@ {
        Some(EventState::Aggregated)
    } else if s == "suppressed"@ {
        Some(EventState::Suppressed)
    } else if s == "resolved"@ {
        Some(EventState::Resolved)
    } else {
        None
    }
}

impl EventState {
    pub fn as_str(&self) -> (r: &'static str)
        ensures
            r@ == state_name(*self),
    {
        match self {
            EventState::Open => "open",
            EventState::Aggregated => "aggregated",
            EventState::Suppressed => "suppressed",
            EventState::Resolved => "resolved",
        }
    }

    pub fn parse(s: &str) -> (r: Option<EventState>)
        ensures
            r == state_of_name(s@),
    {
        if str_eq(s, "open") {
            Some(EventState::Open)
        } else if str_eq(s, "aggregated") {
            Some(EventState::Aggregated)
        } else if str_eq(s, "suppressed") {
            Some(EventState::Suppressed)
        } else if str_eq(s, "resolved") {
            Some(EventState::Resolved)
        } else {
            None
        }
    }
}

/// Status of an incident.
#[derive(Debug, Clone, Copy, PartialEq, Eq, Structural)]
pub enum IncidentStatus {
    Open,
    Investigating,
    Resolved,
    Closed,
}

/// The stored name of an incident status.
pub open spec fn incident_status_name(s: IncidentStatus) -> Seq<char> {
    match s {
        IncidentStatus::Open => "open"@,
        IncidentStatus::Investigating => "investigating"@,
        IncidentStatus::Resolved => "resolved"@,
        IncidentStatus::Closed => "closed"@,
    }
}

/// The incident status stored under name `s`, if any.
pub open spec fn incident_status_of_name(s: Seq<char>) -> Option<IncidentStatus> {
    if s == "open"@ {
        Some(IncidentStatus::Open)
    } else if s == "investigating"@ {
        Some(IncidentStatus::Investigating)
    } else if s == "resolved"@ {
        Some(IncidentStatus::Resolved)
    } else if s == "closed"@ {
        Some(IncidentStatus::Closed)
    } else {
        None
    }
}

impl IncidentStatus {
    pub fn as_str(&self) -> (r: &'static str)
        ensures
            r@ == incident_status_name(*self),
    {
        match self {
            IncidentStatus::Open => "open",
            IncidentStatus::Investigating => "investigating",
            IncidentStatus::Resolved => "resolved",
            IncidentStatus::Closed => "closed",
        }
    }

    pub fn parse(s: &str) -> (r: Option<IncidentStatus>)
        ensures
            r == incident_status_of_name(s@),
    {
        if str_eq(s, "open") {
            Some(IncidentStatus::Open)
        } else if str_eq(s, "investigating") {
            Some(IncidentStatus::Investigating)
        } else if str_eq(s, "resolved") {
            Some(IncidentStatus::Resolved)
        } else if str_eq(s, "closed") {
            Some(IncidentStatus::Closed)
        } else {
            None
        }
    }
}

/// Parsing the stored name of an event kind gives that kind back.
pub proof fn law_event_kind_roundtrip(k: EventKind)
    ensures
        kind_of_name(kind_name(k)) == Some(k),
{
    reveal_strlit("node_down");
    reveal_strlit("disk_pressure");
    reveal_strlit("compaction");
    reveal_strlit("load_backlog");
    reveal_strlit("txn_error");
    reveal_strlit("metric_breach");
    reveal_strlit("slow_query");
    assert("node_down"@.len() == 9);
    assert("disk_pressure"@.len() == 13);
    assert("compaction"@.len() == 10);
    assert("load_backlog"@.len() == 12);
    assert("txn_error"@.len() == 9);
    assert("metric_breach"@.len() == 13);
    assert("slow_query"@.len() == 10);
    assert("node_down"@[0] != "txn_error"@[0]);
    assert("disk_pressure"@[0] != "metric_breach"@[0]);
    assert("compaction"@[0] != "slow_query"@[0]);
}

/// A name that parses to an event kind is that kind's stored name.
pub proof fn law_event_kind_parse_exact(s: Seq<char>)
    ensures
        kind_of_name(s) matches Some(k) ==> kind_name(k) == s,
{
}

/// Parsing the stored name of an event state gives that state back.
pub proof fn law_event_state_roundtrip(st: EventState)
    ensures
        state_of_name(state_name(st)) == Some(st),
{
    reveal_strlit("open");
    reveal_strlit("aggregated");
    reveal_strlit("suppressed");
    reveal_strlit("resolved");
    assert("open"@.len() == 4);
    assert("aggregated"@.len() == 10);
    assert("suppressed"@.len() == 10);
    assert("resolved"@.len() == 8);
    assert("aggregated"@[0] != "suppressed"@[0]);
}

/// A name that parses to an event state is that state's stored name.
pub proof fn law_event_state_parse_exact(s: Seq<char>)
    ensures
        state_of_name(s) matches Some(st) ==> state_name(st) == s,
{
}

/// Parsing the stored name of an incident status gives that status back.
pub proof fn law_incident_status_roundtrip(st: IncidentStatus)
    ensures
        incident_status_of_name(incident_status_name(st)) == Some(st),
{
    reveal_strlit("open");
    reveal_strlit("investigating");
    reveal_strlit("resolved");
    reveal_strlit("closed");
    assert("open"@.len() == 4);
    assert("investigating"@.len() == 13);
    assert("resolved"@.len() == 8);
    assert("closed"@.len() == 6);
}

/// A name that parses to an incident status is that status's stored name.
pub proof fn law_incident_status_parse_exact(s: Seq<char>)
    ensures
        incident_status_of_name(s) matches Some(st) ==> incident_status_name(st) == s,
{
}

/// Distinct severities have distinct stored names.
pub proof fn law_severity_names_distinct(a: EventSeverity, b: EventSeverity)
    ensures
        a != b ==> severity_name(a) != severity_name(b),
{
    reveal_strlit("info");
    reveal_strlit("warning");
    reveal_strlit("critical");
    assert("info"@.len() == 4);
    assert("warning"@.len() == 7);
    assert("critical"@.len() == 8);
}

// ---------------------------------------------------------------------------
// Telemetry of LLM-backed decisions
// ---------------------------------------------------------------------------

/// Version of the hypothesis prompt recorded with each LLM decision.
pub const LLM_HYPOTHESIS_PROMPT_VERSION: &'static str = "v1";

/// Runtime metadata of one LLM-backed decision. Only the prompt version and
/// the latency enter the audit trail: credentials and provider addresses
/// are never recorded.
#[derive(Debug, Clone)]
pub struct LlmDecisionTelemetry {
    pub provider: String,
    pub model: String,
    pub tokens: Option<i64>,
    pub latency_ms: i64,
}

/// The recorded input of a decision: the members of a JSON object, another
/// JSON value, or nothing.
#[derive(Debug, Clone)]
pub enum DecisionInput {
    Members(Vec<(String, JsonCell)>),
    Value(JsonCell),
}

/// The JSON text of the trace object (members in key order).
pub open spec fn trace_text(latency_ms: i64) -> Seq<char> {
    "{\"latency_ms\":"@ + int_dec(latency_ms as int) + ",\"prompt_version\":\""@
        + LLM_HYPOTHESIS_PROMPT_VERSION@ + "\"}"@
}

/// Model of object members: key texts and value models.
pub open spec fn members_view(m: Seq<(String, JsonCell)>) -> Seq<(Seq<char>, CellView)> {
    m.map_values(|p: (String, JsonCell)| (p.0@, p.1@))
}

/// The members of a decision input with the trace added: an object keeps
/// its members (a previous `llm_trace` is replaced), another value is
/// wrapped as `input`, and no input leaves the trace alone.
pub open spec fn traced_members(input: Option<DecisionInput>, latency_ms: i64) -> Seq<(Seq<char>, CellView)> {
    let trace = ("llm_trace"@, CellView::Other(trace_text(latency_ms)));
    match input {
        Some(DecisionInput::Members(m)) => members_view(m@).filter(
            |p: (Seq<char>, CellView)| p.0 != "llm_trace"@,
        ).push(trace),
        Some(DecisionInput::Value(v)) => seq![("input"@, v@), trace],
        None => seq![trace],
    }
}

/// A decision's recorded input holds nothing but what the caller passed in
/// and the trace, whose text depends on the latency alone: no provider,
/// model or credential of the telemetry is recorded.
pub proof fn law_trace_adds_only_the_trace(input: Option<DecisionInput>, latency_ms: i64, i: int)
    requires
        0 <= i < traced_members(input, latency_ms).len(),
    ensures
        ({
            let p = traced_members(input, latency_ms)[i];
            ||| p == ("llm_trace"@, CellView::Other(trace_text(latency_ms)))
            ||| (input matches Some(DecisionInput::Members(m)) && members_view(m@).contains(p))
            ||| (input matches Some(DecisionInput::Value(v)) && p == ("input"@, v@))
        }),
{
    match input {
        Some(DecisionInput::Members(m)) => {
            let pred = |p: (Seq<char>, CellView)| p.0 != "llm_trace"@;
            let f = members_view(m@).filter(pred);
            if i < f.len() {
                assert(f.contains(f[i]));
                members_view(m@).lemma_filter_contains_rev(pred, f[i]);
            }
        },
        _ => {},
    }
}

/// The trace object of a decision as JSON text.
pub fn llm_trace_text(telemetry: &LlmDecisionTelemetry) -> (r: String)
    ensures
        r@ == trace_text(telemetry.latency_ms),
{
    let mut r = String::from_str("{\"latency_ms\":");
    let d = i64_string(telemetry.latency_ms);
    r.append(d.as_str());
    r.append(",\"prompt_version\":\"");
    r.append(LLM_HYPOTHESIS_PROMPT_VERSION);
    r.append("\"}");
    r
}

fn clone_cell(c: &JsonCell) -> (r: JsonCell)
    ensures
        r@ == c@,
{
    match c {
        JsonCell::Text(s) => JsonCell::Text(s.clone()),
        JsonCell::Number(n) => JsonCell::Number(n.clone()),
        JsonCell::Bool(b) => JsonCell::Bool(*b),
        JsonCell::Other(j) => JsonCell::Other(j.clone()),
    }
}

/// The recorded input of an LLM decision with its trace added (see
/// `traced_members`).
pub fn with_llm_trace(input: Option<DecisionInput>, telemetry: &LlmDecisionTelemetry) -> (r: Vec<
    (String, JsonCell),
>)
    ensures
        members_view(r@) == traced_members(input, telemetry.latency_ms),
{
    let trace = (String::from_str("llm_trace"), JsonCell::Other(llm_trace_text(telemetry)));
    let ghost tv = ("llm_trace"@, CellView::Other(trace_text(telemetry.latency_ms)));
    proof {
        reveal_strlit("llm_trace");
        reveal_strlit("input");
    }
    match input {
        Some(DecisionInput::Members(m)) => {
            let ghost pred = |p: (Seq<char>, CellView)| p.0 != "llm_trace"@;
            let mut out: Vec<(String, JsonCell)> = Vec::new();
            let mut i: usize = 0;
            while i < m.len()
                invariant
                    i <= m@.len(),
                    pred == (|p: (Seq<char>, CellView)| p.0 != "llm_trace"@),
                    members_view(out@) == members_view(m@).take(i as int).filter(pred),
                decreases m@.len() - i,
            {
                let key = &m[i].0;
                proof {
                    assert(members_view(m@).take(i + 1) =~= members_view(m@).take(i as int).push(
                        members_view(m@)[i as int],
                    ));
                    members_view(m@).take(i as int).lemma_filter_push(members_view(m@)[i as int], pred);
                }
                if !str_eq(key.as_str(), "llm_trace") {
                    let ghost before = members_view(out@);
                    out.push((key.clone(), clone_cell(&m[i].1)));
                    assert(members_view(out@) =~= before.push(members_view(m@)[i as int]));
                }
                i += 1;
            }
            assert(members_view(m@).take(m@.len() as int) =~= members_view(m@));
            let ghost before = members_view(out@);
            out.push(trace);
            assert(members_view(out@) =~= before.push(tv));
            out
        },
        Some(DecisionInput::Value(v)) => {
            let mut out: Vec<(String, JsonCell)> = Vec::new();
            out.push((String::from_str("input"), v));
            out.push(trace);
            assert(members_view(out@) =~= seq![("input"@, v@), tv]);
            out
        },
        None => {
            let mut out: Vec<(String, JsonCell)> = Vec::new();
            out.push(trace);
            assert(members_view(out@) =~= seq![tv]);
            out
        },
    }
}

} // verus!
