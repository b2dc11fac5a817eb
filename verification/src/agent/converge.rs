//! Event convergence: the decisions taken for each candidate when it is merged
//! into the stored events of its cluster.
//!
//! 1. Cleared fingerprints resolve their open/aggregated events first.
//! 2. While a node is down (a node-down candidate this tick, or else a stored
//!    active node-down event), secondary events of the cluster are stored as
//!    suppressed; node-down and slow-query events are never suppressed.
//! 3. A candidate whose fingerprint has an open/aggregated event seen within
//!    the merge window increments that event's occurrence count; otherwise a
//!    new event is inserted with count 1.
//! 4. Only unsuppressed events are handed on to incident escalation.

use vstd::prelude::*;
use vstd::string::*;
use crate::agent::collectors::{opt_view, EventCandidate};
use crate::agent::models::{EventKind, EventSeverity, EventState};

verus! {

/// A stored event row, as handed on to incident escalation and diagnosis.
#[derive(Debug, Clone)]
pub struct EventRow {
    pub id: i64,
    pub cluster_id: i64,
    pub fingerprint: String,
    pub kind: EventKind,
    pub severity: EventSeverity,
    pub object_type: Option<String>,
    pub object_id: Option<String>,
    pub title: String,
    pub state: EventState,
    pub occurrence_count: i64,
}

/// The object (type, id) of a node-down event that suppresses secondary events.
pub struct SuppressionSource {
    pub object_type: String,
    pub object_id: String,
}

/// The text of an optional string, empty when absent.
pub open spec fn or_empty(o: Option<Seq<char>>) -> Seq<char> {
    match o {
        Some(s) => s,
        None => Seq::empty(),
    }
}

/// The node-down objects among the candidates, in order.
pub open spec fn node_down_objects(c: Seq<EventCandidate>) -> Seq<(Seq<char>, Seq<char>)>
    decreases c.len(),
{
    if c.len() == 0 {
        Seq::empty()
    } else {
        let rest = node_down_objects(c.drop_last());
        if c.last().kind == EventKind::NodeDown {
            rest.push((or_empty(opt_view(c.last().object_type)), or_empty(opt_view(c.last().object_id))))
        } else {
            rest
        }
    }
}

/// The model of a list of suppression sources.
pub open spec fn sources_view(s: Seq<SuppressionSource>) -> Seq<(Seq<char>, Seq<char>)> {
    s.map_values(|x: SuppressionSource| (x.object_type@, x.object_id@))
}

fn text_or_empty(o: &Option<String>) -> (r: String)
    ensures
        r@ == or_empty(opt_view(*o)),
{
    match o {
        Some(s) => s.clone(),
        None => String::new(),
    }
}

/// The node-down objects reported by this tick's candidates (the primary
/// suppression sources; when there are none the stored active node-down
/// events are used instead).
pub fn suppression_sources(candidates: &[EventCandidate]) -> (r: Vec<SuppressionSource>)
    ensures
        sources_view(r@) == node_down_objects(candidates@),
{
    let mut r: Vec<SuppressionSource> = Vec::new();
    let mut i: usize = 0;
    while i < candidates.len()
        invariant
            i <= candidates.len(),
            sources_view(r@) == node_down_objects(candidates@.take(i as int)),
        decreases candidates.len() - i,
    {
        assert(candidates@.take(i + 1).drop_last() =~= candidates@.take(i as int));
        let ghost r0 = r@;
        if candidates[i].kind == EventKind::NodeDown {
            let s = SuppressionSource {
                object_type: text_or_empty(&candidates[i].object_type),
                object_id: text_or_empty(&candidates[i].object_id),
            };
            r.push(s);
            assert(sources_view(r@) =~= sources_view(r0).push(
                (s.object_type@, s.object_id@),
            ));
        }
        i += 1;
    }
    assert(candidates@.take(candidates.len() as int) =~= candidates@);
    r
}

/// Whether an event of `kind` is suppressed while node-down sources exist.
pub open spec fn suppressed_spec(kind: EventKind, has_sources: bool) -> bool {
    has_sources && kind != EventKind::NodeDown && kind != EventKind::SlowQuery
}

/// Whether an event of `kind` is stored as suppressed: secondary events are,
/// while a node of the cluster is down.
pub fn is_suppressed(kind: EventKind, has_sources: bool) -> (r: bool)
    ensures
        r == suppressed_spec(kind, has_sources),
{
    has_sources && kind != EventKind::NodeDown && kind != EventKind::SlowQuery
}

/// What is written for one candidate.
#[derive(Debug, Clone, PartialEq, Eq)]
pub enum MergeAction {
    /// Merge into the stored event `id`: set its occurrence count and state.
    Update { id: i64, occurrence_count: i64, state: EventState },
    /// Insert a new event with occurrence count 1, in this state, naming the
    /// suppressing node (if suppressed).
    Insert { state: EventState, suppressed_by: Option<String> },
}

/// Model of a merge action.
pub enum MergeActionView {
    Update { id: int, occurrence_count: int, state: EventState },
    Insert { state: EventState, suppressed_by: Option<Seq<char>> },
}

impl View for MergeAction {
    type V = MergeActionView;

    open spec fn view(&self) -> MergeActionView {
        match self {
            MergeAction::Update { id, occurrence_count, state } => MergeActionView::Update {
                id: *id as int,
                occurrence_count: *occurrence_count as int,
                state: *state,
            },
            MergeAction::Insert { state, suppressed_by } => MergeActionView::Insert {
                state: *state,
                suppressed_by: opt_view(*suppressed_by),
            },
        }
    }
}

/// The merge action for a candidate, given the stored event of its
/// fingerprint within the merge window (id and occurrence count), if any.
pub open spec fn merge_action_spec(
    suppressed: bool,
    existing: Option<(i64, i64)>,
    sources: Seq<(Seq<char>, Seq<char>)>,
) -> MergeActionView {
    let state = if suppressed {
        EventState::Suppressed
    } else {
        EventState::Open
    };
    match existing {
        Some((id, count)) => MergeActionView::Update {
            id: id as int,
            occurrence_count: count + 1,
            state,
        },
        None => MergeActionView::Insert {
            state,
            suppressed_by: if sources.len() > 0 {
                Some(sources[0].1)
            } else {
                None
            },
        },
    }
}

/// Decides how a candidate is merged into the stored events.
pub fn merge_action(
    suppressed: bool,
    existing: Option<(i64, i64)>,
    sources: &[SuppressionSource],
) -> (r: MergeAction)
    requires
        existing matches Some((id, count)) ==> count < i64::MAX,
    ensures
        r@ == merge_action_spec(suppressed, existing, sources_view(sources@)),
{
    let state = if suppressed {
        EventState::Suppressed
    } else {
        EventState::Open
    };
    match existing {
        Some((id, count)) => MergeAction::Update { id, occurrence_count: count + 1, state },
        None => {
            let by = if sources.len() > 0 {
                Some(sources[0].object_id.clone())
            } else {
                None
            };
            MergeAction::Insert { state, suppressed_by: by }
        },
    }
}

/// The active event handed on after a merge: none when suppressed.
pub open spec fn active_event_spec(
    cluster_id: i64,
    c: EventCandidate,
    id: i64,
    occurrence_count: i64,
    suppressed: bool,
) -> Option<EventRow> {
    if suppressed {
        None
    } else {
        Some(
            EventRow {
                id,
                cluster_id,
                fingerprint: c.fingerprint,
                kind: c.kind,
                severity: c.severity,
                object_type: c.object_type,
                object_id: c.object_id,
                title: c.title,
                state: EventState::Open,
                occurrence_count,
            },
        )
    }
}

fn clone_opt(o: &Option<String>) -> (r: Option<String>)
    ensures
        r == *o,
{
    match o {
        Some(s) => Some(s.clone()),
        None => None,
    }
}

/// The event handed on to escalation after storing candidate `c` as event
/// `id` with `occurrence_count`: open, unless it was suppressed.
pub fn active_event(
    cluster_id: i64,
    c: &EventCandidate,
    id: i64,
    occurrence_count: i64,
    suppressed: bool,
) -> (r: Option<EventRow>)
    ensures
        r == active_event_spec(cluster_id, *c, id, occurrence_count, suppressed),
{
    if suppressed {
        None
    } else {
        Some(
            EventRow {
                id,
                cluster_id,
                fingerprint: c.fingerprint.clone(),
                kind: c.kind,
                severity: c.severity,
                object_type: clone_opt(&c.object_type),
                object_id: clone_opt(&c.object_id),
                title: c.title.clone(),
                state: EventState::Open,
                occurrence_count,
            },
        )
    }
}

/// Node-down and slow-query events are never suppressed; every other kind is
/// suppressed exactly while a node-down source exists.
pub proof fn law_suppression_scope(kind: EventKind, has_sources: bool)
    ensures
        (kind == EventKind::NodeDown || kind == EventKind::SlowQuery) ==> !suppressed_spec(
            kind,
            has_sources,
        ),
        (kind != EventKind::NodeDown && kind != EventKind::SlowQuery) ==> (suppressed_spec(
            kind,
            has_sources,
        ) == has_sources),
{
}

/// A suppressed event is never handed on to escalation, and an unsuppressed
/// one always is, as an open event carrying the stored id and count.
pub proof fn law_suppressed_not_active(
    cluster_id: i64,
    c: EventCandidate,
    id: i64,
    count: i64,
    suppressed: bool,
)
    ensures
        suppressed <==> active_event_spec(cluster_id, c, id, count, suppressed) is None,
        active_event_spec(cluster_id, c, id, count, suppressed) matches Some(e) ==> e.state
            == EventState::Open && e.id == id && e.occurrence_count == count && e.fingerprint
            == c.fingerprint,
{
}

/// Merging into a stored event raises its occurrence count by exactly one;
/// a new event starts at one (stored by the insert). The state written is
/// `suppressed` exactly when the candidate is suppressed, `open` otherwise.
pub proof fn law_merge_counts(
    suppressed: bool,
    existing: Option<(i64, i64)>,
    sources: Seq<(Seq<char>, Seq<char>)>,
)
    ensures
        existing matches Some((id, count)) ==> merge_action_spec(suppressed, existing, sources)
            == (MergeActionView::Update {
            id: id as int,
            occurrence_count: count + 1,
            state: if suppressed {
                EventState::Suppressed
            } else {
                EventState::Open
            },
        }),
        existing is None ==> merge_action_spec(suppressed, existing, sources) is Insert,
{
}

} // verus!
