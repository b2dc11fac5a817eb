//! One convergence tick over the stored events of a cluster: the events of
//! receded conditions are resolved first; then each candidate is merged into
//! the live event of its fingerprint seen within the merge window (its count
//! raised by one) or stored as a new event with count one; secondary events
//! are stored suppressed while a node is down. The tick yields the writes to
//! make, the events as they stand afterwards, and the events handed on to
//! escalation.

use vstd::prelude::*;
use vstd::string::*;
use crate::agent::collectors::{
    candidates_view, collected, law_reported_never_cleared, opt_view, BackendStatus, CollectOutcome,
    EventCandidate, MetricsSnapshot, SlowQuerySample,
};
use crate::agent::converge::{node_down_objects, or_empty, sources_view, suppressed_spec, suppression_sources};
use crate::agent::models::{EventKind, EventState};
use crate::text::str_eq;

verus! {

/// A stored event row: one read before the tick, or the `n`-th inserted by it.
#[derive(Debug, Clone, Copy, PartialEq, Eq, Structural)]
pub enum RowRef {
    Stored(i64),
    Inserted(usize),
}

/// A stored event as the tick reads and leaves it.
#[derive(Debug, Clone)]
pub struct EventSlot {
    pub row: RowRef,
    pub fingerprint: String,
    pub kind: EventKind,
    pub object_type: String,
    pub object_id: String,
    pub state: EventState,
    pub occurrence_count: i64,
    /// Last seen within the merge window.
    pub recent: bool,
}

/// Model of a stored event.
pub struct SlotView {
    pub row: RowRef,
    pub fingerprint: Seq<char>,
    pub kind: EventKind,
    pub object_type: Seq<char>,
    pub object_id: Seq<char>,
    pub state: EventState,
    pub count: i64,
    pub recent: bool,
}

impl View for EventSlot {
    type V = SlotView;

    open spec fn view(&self) -> SlotView {
        SlotView {
            row: self.row,
            fingerprint: self.fingerprint@,
            kind: self.kind,
            object_type: self.object_type@,
            object_id: self.object_id@,
            state: self.state,
            count: self.occurrence_count,
            recent: self.recent,
        }
    }
}

/// The models of stored events.
pub open spec fn slots_view(s: Seq<EventSlot>) -> Seq<SlotView> {
    s.map_values(|x: EventSlot| x@)
}

/// A write of the tick.
#[derive(Debug, Clone)]
pub enum TickWrite {
    /// Resolve the live events of this fingerprint.
    Resolve(String),
    /// Set an event's occurrence count and state (and mark it seen now).
    Update { row: RowRef, occurrence_count: i64, state: EventState },
    /// Store candidate `candidate` as a new event with count one.
    Insert { candidate: usize, state: EventState, suppressed_by: Option<String> },
}

/// Model of a write.
pub enum WriteView {
    Resolve(Seq<char>),
    Update { row: RowRef, count: i64, state: EventState },
    Insert { candidate: int, state: EventState, suppressed_by: Option<Seq<char>> },
}

impl View for TickWrite {
    type V = WriteView;

    open spec fn view(&self) -> WriteView {
        match self {
            TickWrite::Resolve(f) => WriteView::Resolve(f@),
            TickWrite::Update { row, occurrence_count, state } => WriteView::Update {
                row: *row,
                count: *occurrence_count,
                state: *state,
            },
            TickWrite::Insert { candidate, state, suppressed_by } => WriteView::Insert {
                candidate: *candidate as int,
                state: *state,
                suppressed_by: opt_view(*suppressed_by),
            },
        }
    }
}

/// The models of writes.
pub open spec fn writes_view(w: Seq<TickWrite>) -> Seq<WriteView> {
    w.map_values(|x: TickWrite| x@)
}

/// An event handed on to escalation: its row, the candidate that raised it
/// and its occurrence count.
pub type ActiveEvent = (RowRef, usize, i64);

/// The result of a tick.
pub struct TickPlan {
    pub writes: Vec<TickWrite>,
    pub events: Vec<EventSlot>,
    pub active: Vec<ActiveEvent>,
}

/// Model of a tick's progress.
pub struct TickView {
    pub table: Seq<SlotView>,
    pub writes: Seq<WriteView>,
    pub active: Seq<(RowRef, int, i64)>,
    pub inserted: nat,
}

// ---------------------------------------------------------------------------
// Specification
// ---------------------------------------------------------------------------

/// An event that is still being tracked.
pub open spec fn live(s: EventState) -> bool {
    s == EventState::Open || s == EventState::Aggregated
}

/// An event after resolving fingerprint `fp`.
pub open spec fn resolved_slot(r: SlotView, fp: Seq<char>) -> SlotView {
    if r.fingerprint == fp && live(r.state) {
        SlotView { state: EventState::Resolved, ..r }
    } else {
        r
    }
}

/// The events after resolving fingerprint `fp`.
pub open spec fn resolve_fp(t: Seq<SlotView>, fp: Seq<char>) -> Seq<SlotView> {
    t.map_values(|r: SlotView| resolved_slot(r, fp))
}

/// The events after resolving every cleared fingerprint, in order.
pub open spec fn resolve_all(t: Seq<SlotView>, cleared: Seq<Seq<char>>) -> Seq<SlotView>
    decreases cleared.len(),
{
    if cleared.len() == 0 {
        t
    } else {
        resolve_fp(resolve_all(t, cleared.drop_last()), cleared.last())
    }
}

/// A candidate with fingerprint `fp` merges into this event.
pub open spec fn mergeable(r: SlotView, fp: Seq<char>) -> bool {
    r.fingerprint == fp && live(r.state) && r.recent
}

/// The first event a candidate with fingerprint `fp` merges into, if any.
pub open spec fn merge_target(t: Seq<SlotView>, fp: Seq<char>) -> Option<int>
    decreases t.len(),
{
    if t.len() == 0 {
        None
    } else if mergeable(t[0], fp) {
        Some(0)
    } else {
        match merge_target(t.drop_first(), fp) {
            Some(j) => Some(j + 1),
            None => None,
        }
    }
}

/// The objects of the live node-down events, in order.
pub open spec fn live_node_down(t: Seq<SlotView>) -> Seq<(Seq<char>, Seq<char>)>
    decreases t.len(),
{
    if t.len() == 0 {
        Seq::empty()
    } else {
        let prev = live_node_down(t.drop_last());
        let r = t.last();
        if r.kind == EventKind::NodeDown && live(r.state) {
            prev.push((r.object_type, r.object_id))
        } else {
            prev
        }
    }
}

/// The state a candidate is stored in.
pub open spec fn stored_state(suppressed: bool) -> EventState {
    if suppressed {
        EventState::Suppressed
    } else {
        EventState::Open
    }
}

/// The tick after merging candidate `c` (number `ci`).
pub open spec fn tick_step(
    st: TickView,
    c: EventCandidate,
    ci: int,
    sources: Seq<(Seq<char>, Seq<char>)>,
) -> TickView {
    let suppressed = suppressed_spec(c.kind, sources.len() > 0);
    let state = stored_state(suppressed);
    match merge_target(st.table, c.fingerprint@) {
        Some(j) => {
            let r = st.table[j];
            let n = (r.count + 1) as i64;
            TickView {
                table: st.table.update(j, SlotView { state, count: n, recent: true, ..r }),
                writes: st.writes.push(WriteView::Update { row: r.row, count: n, state }),
                active: if suppressed {
                    st.active
                } else {
                    st.active.push((r.row, ci, n))
                },
                inserted: st.inserted,
            }
        },
        None => {
            let row = RowRef::Inserted(st.inserted as usize);
            TickView {
                table: st.table.push(
                    SlotView {
                        row,
                        fingerprint: c.fingerprint@,
                        kind: c.kind,
                        object_type: or_empty(opt_view(c.object_type)),
                        object_id: or_empty(opt_view(c.object_id)),
                        state,
                        count: 1,
                        recent: true,
                    },
                ),
                writes: st.writes.push(
                    WriteView::Insert {
                        candidate: ci,
                        state,
                        suppressed_by: if sources.len() > 0 {
                            Some(sources[0].1)
                        } else {
                            None
                        },
                    },
                ),
                active: if suppressed {
                    st.active
                } else {
                    st.active.push((row, ci, 1))
                },
                inserted: st.inserted + 1,
            }
        },
    }
}

/// The tick after merging the candidates, in order.
pub open spec fn tick_fold(
    st: TickView,
    cands: Seq<EventCandidate>,
    sources: Seq<(Seq<char>, Seq<char>)>,
) -> TickView
    decreases cands.len(),
{
    if cands.len() == 0 {
        st
    } else {
        tick_step(tick_fold(st, cands.drop_last(), sources), cands.last(), cands.len() - 1, sources)
    }
}

/// The suppression sources of a tick: the node-down candidates, else the
/// node-down events still live after resolution.
pub open spec fn tick_sources(t: Seq<SlotView>, cands: Seq<EventCandidate>) -> Seq<(Seq<char>, Seq<char>)> {
    if node_down_objects(cands).len() > 0 {
        node_down_objects(cands)
    } else {
        live_node_down(t)
    }
}

/// A whole tick over the stored events.
pub open spec fn converge_spec(
    stored: Seq<SlotView>,
    cands: Seq<EventCandidate>,
    cleared: Seq<Seq<char>>,
) -> TickView {
    let t = resolve_all(stored, cleared);
    tick_fold(
        TickView {
            table: t,
            writes: cleared.map_values(|f: Seq<char>| WriteView::Resolve(f)),
            active: Seq::empty(),
            inserted: 0,
        },
        cands,
        tick_sources(t, cands),
    )
}

/// Every stored count leaves room for one increment per candidate.
pub open spec fn counts_fit(stored: Seq<SlotView>, n: int) -> bool {
    forall|k: int| 0 <= k < stored.len() ==> 0 <= #[trigger] stored[k].count && stored[k].count + n < i64::MAX
}

// ---------------------------------------------------------------------------
// The tick
// ---------------------------------------------------------------------------

proof fn lemma_resolve_all_shape(t: Seq<SlotView>, cleared: Seq<Seq<char>>)
    ensures
        resolve_all(t, cleared).len() == t.len(),
        forall|x: int|
            0 <= x < t.len() ==> (#[trigger] resolve_all(t, cleared)[x]).count == t[x].count
                && resolve_all(t, cleared)[x].fingerprint == t[x].fingerprint
                && resolve_all(t, cleared)[x].row == t[x].row
                && resolve_all(t, cleared)[x].recent == t[x].recent,
    decreases cleared.len(),
{
    if cleared.len() > 0 {
        lemma_resolve_all_shape(t, cleared.drop_last());
    }
}

proof fn lemma_merge_target(t: Seq<SlotView>, fp: Seq<char>, j: int)
    requires
        0 <= j <= t.len(),
        forall|x: int| 0 <= x < j ==> !mergeable(#[trigger] t[x], fp),
        j < t.len() ==> mergeable(t[j], fp),
    ensures
        merge_target(t, fp) == (if j < t.len() {
            Some(j)
        } else {
            None::<int>
        }),
    decreases j,
{
    if j > 0 {
        let rest = t.drop_first();
        assert(!mergeable(t[0], fp));
        assert forall|x: int| 0 <= x < j - 1 implies !mergeable(#[trigger] rest[x], fp) by {
            assert(rest[x] == t[x + 1]);
        }
        lemma_merge_target(rest, fp, j - 1);
    }
}

fn text_of(o: &Option<String>) -> (r: String)
    ensures
        r@ == or_empty(opt_view(*o)),
{
    match o {
        Some(s) => s.clone(),
        None => String::new(),
    }
}

fn copy_slot(r: &EventSlot) -> (c: EventSlot)
    ensures
        c@ == r@,
{
    EventSlot {
        row: r.row,
        fingerprint: r.fingerprint.clone(),
        kind: r.kind,
        object_type: r.object_type.clone(),
        object_id: r.object_id.clone(),
        state: r.state,
        occurrence_count: r.occurrence_count,
        recent: r.recent,
    }
}

fn is_live(s: EventState) -> (r: bool)
    ensures
        r == live(s),
{
    match s {
        EventState::Open => true,
        EventState::Aggregated => true,
        _ => false,
    }
}

fn resolve_exec(table: Vec<EventSlot>, fp: &str) -> (r: Vec<EventSlot>)
    ensures
        slots_view(r@) == resolve_fp(slots_view(table@), fp@),
{
    let mut out: Vec<EventSlot> = Vec::new();
    let mut i: usize = 0;
    while i < table.len()
        invariant
            i <= table@.len(),
            slots_view(out@) == resolve_fp(slots_view(table@), fp@).take(i as int),
        decreases table@.len() - i,
    {
        let r = &table[i];
        let mut c = copy_slot(r);
        if str_eq(r.fingerprint.as_str(), fp) && is_live(r.state) {
            c.state = EventState::Resolved;
        }
        let ghost before = slots_view(out@);
        out.push(c);
        assert(slots_view(out@) =~= before.push(resolved_slot(table@[i as int]@, fp@)));
        assert(resolve_fp(slots_view(table@), fp@).take(i + 1) =~= resolve_fp(
            slots_view(table@),
            fp@,
        ).take(i as int).push(resolved_slot(table@[i as int]@, fp@)));
        i += 1;
    }
    assert(resolve_fp(slots_view(table@), fp@).take(table@.len() as int) =~= resolve_fp(
        slots_view(table@),
        fp@,
    ));
    out
}

fn find_target(table: &Vec<EventSlot>, fp: &str) -> (r: Option<usize>)
    ensures
        match r {
            Some(j) => merge_target(slots_view(table@), fp@) == Some(j as int) && j < table@.len(),
            None => merge_target(slots_view(table@), fp@) is None,
        },
{
    let ghost tv = slots_view(table@);
    let mut j: usize = 0;
    while j < table.len()
        invariant
            j <= table@.len(),
            tv == slots_view(table@),
            forall|x: int| 0 <= x < j ==> !mergeable(#[trigger] tv[x], fp@),
        decreases table@.len() - j,
    {
        let r = &table[j];
        if str_eq(r.fingerprint.as_str(), fp) && is_live(r.state) && r.recent {
            assert(mergeable(tv[j as int], fp@));
            proof {
                lemma_merge_target(tv, fp@, j as int);
            }
            return Some(j);
        }
        assert(!mergeable(tv[j as int], fp@));
        j += 1;
    }
    proof {
        lemma_merge_target(tv, fp@, j as int);
    }
    None
}

fn live_node_down_exec(table: &Vec<EventSlot>) -> (r: Vec<(String, String)>)
    ensures
        r@.map_values(|p: (String, String)| (p.0@, p.1@)) == live_node_down(slots_view(table@)),
{
    let ghost tv = slots_view(table@);
    let mut out: Vec<(String, String)> = Vec::new();
    let mut i: usize = 0;
    while i < table.len()
        invariant
            i <= table@.len(),
            tv == slots_view(table@),
            out@.map_values(|p: (String, String)| (p.0@, p.1@)) == live_node_down(tv.take(i as int)),
        decreases table@.len() - i,
    {
        assert(tv.take(i + 1).drop_last() =~= tv.take(i as int));
        assert(tv.take(i + 1).last() == table@[i as int]@);
        let r = &table[i];
        if r.kind == EventKind::NodeDown && is_live(r.state) {
            let ghost before = out@.map_values(|p: (String, String)| (p.0@, p.1@));
            out.push((r.object_type.clone(), r.object_id.clone()));
            assert(out@.map_values(|p: (String, String)| (p.0@, p.1@)) =~= before.push(
                (r.object_type@, r.object_id@),
            ));
        }
        i += 1;
    }
    assert(tv.take(table@.len() as int) =~= tv);
    out
}

/// Runs one convergence tick over the stored events of a cluster and the
/// collection result (see `converge_spec`): the writes to make, the events
/// as the writes leave them, and the events handed on to escalation.
#[verifier::rlimit(60)]
pub fn converge_tick(stored: Vec<EventSlot>, outcome: &CollectOutcome) -> (r: TickPlan)
    requires
        counts_fit(slots_view(stored@), outcome.candidates@.len() as int),
        outcome.candidates@.len() < i64::MAX,
    ensures
        ({
            let s = converge_spec(
                slots_view(stored@),
                outcome.candidates@,
                outcome.cleared_fingerprints@.map_values(|f: String| f@),
            );
            &&& slots_view(r.events@) == s.table
            &&& writes_view(r.writes@) == s.writes
            &&& r.active@.map_values(|a: ActiveEvent| (a.0, a.1 as int, a.2)) == s.active
        }),
{
    let cands = &outcome.candidates;
    let n = cands.len();
    let ghost cv = outcome.cleared_fingerprints@.map_values(|f: String| f@);
    // 1. Receded conditions first.
    let mut table = stored;
    let mut writes: Vec<TickWrite> = Vec::new();
    let mut k: usize = 0;
    while k < outcome.cleared_fingerprints.len()
        invariant
            k <= outcome.cleared_fingerprints@.len(),
            cv == outcome.cleared_fingerprints@.map_values(|f: String| f@),
            slots_view(table@) == resolve_all(slots_view(stored@), cv.take(k as int)),
            writes_view(writes@) == cv.take(k as int).map_values(|f: Seq<char>| WriteView::Resolve(f)),
        decreases outcome.cleared_fingerprints@.len() - k,
    {
        let f = &outcome.cleared_fingerprints[k];
        assert(cv.take(k + 1).drop_last() =~= cv.take(k as int));
        assert(cv.take(k + 1).last() == f@);
        table = resolve_exec(table, f.as_str());
        let ghost before = writes_view(writes@);
        writes.push(TickWrite::Resolve(f.clone()));
        assert(writes_view(writes@) =~= before.push(WriteView::Resolve(f@)));
        assert(cv.take(k + 1).map_values(|f: Seq<char>| WriteView::Resolve(f)) =~= cv.take(
            k as int,
        ).map_values(|f: Seq<char>| WriteView::Resolve(f)).push(WriteView::Resolve(f@)));
        k += 1;
    }
    assert(cv.take(outcome.cleared_fingerprints@.len() as int) =~= cv);
    // 2. Suppression sources.
    let ghost t0 = slots_view(table@);
    let from_cands = suppression_sources(cands.as_slice());
    let has_sources: bool;
    let first_source: Option<String>;
    if from_cands.len() > 0 {
        has_sources = true;
        first_source = Some(from_cands[0].object_id.clone());
        assert(sources_view(from_cands@)[0].1 == from_cands@[0].object_id@);
    } else {
        let live_nd = live_node_down_exec(&table);
        has_sources = live_nd.len() > 0;
        first_source = if live_nd.len() > 0 {
            Some(live_nd[0].1.clone())
        } else {
            None
        };
        assert(live_nd@.len() > 0 ==> live_nd@.map_values(|p: (String, String)| (p.0@, p.1@))[0].1
            == live_nd@[0].1@);
    }
    let ghost sources = tick_sources(t0, cands@);
    proof {
        lemma_resolve_all_shape(slots_view(stored@), cv);
        assert forall|x: int| 0 <= x < table@.len() implies 0 <= #[trigger] table@[x].occurrence_count
            && table@[x].occurrence_count + (n - 0) < i64::MAX by {
            assert(table@[x]@ == t0[x]);
            assert(slots_view(stored@)[x] == stored@[x]@);
        }
    }
    assert(has_sources == (sources.len() > 0));
    assert(has_sources ==> (first_source matches Some(x) && x@ == sources[0].1));
    // 3. Candidates in order.
    let ghost st0 = TickView { table: t0, writes: writes_view(writes@), active: Seq::empty(), inserted: 0 };
    let mut active: Vec<ActiveEvent> = Vec::new();
    let mut inserted: usize = 0;
    let mut i: usize = 0;
    while i < n
        invariant
            i <= n,
            n == cands@.len(),
            n < i64::MAX,
            has_sources == (sources.len() > 0),
            has_sources ==> (first_source matches Some(x) && x@ == sources[0].1),
            !has_sources ==> first_source is None,
            inserted <= i,
            ({
                let s = tick_fold(st0, cands@.take(i as int), sources);
                &&& slots_view(table@) == s.table
                &&& writes_view(writes@) == s.writes
                &&& active@.map_values(|a: ActiveEvent| (a.0, a.1 as int, a.2)) == s.active
                &&& inserted as nat == s.inserted
            }),
            forall|x: int|
                0 <= x < table@.len() ==> 0 <= #[trigger] table@[x].occurrence_count
                    && table@[x].occurrence_count + (n - i) < i64::MAX,
        decreases n - i,
    {
        let c = &cands[i];
        proof {
            assert(cands@.take(i + 1).drop_last() =~= cands@.take(i as int));
            assert(cands@.take(i + 1).last() == *c);
        }
        let suppressed = has_sources && c.kind != EventKind::NodeDown && c.kind != EventKind::SlowQuery;
        assert(suppressed == suppressed_spec(c.kind, sources.len() > 0));
        let state = if suppressed {
            EventState::Suppressed
        } else {
            EventState::Open
        };
        let ghost av = active@.map_values(|a: ActiveEvent| (a.0, a.1 as int, a.2));
        let ghost wv = writes_view(writes@);
        let ghost tv = slots_view(table@);
        let ghost old_table = table@;
        assert forall|x: int| 0 <= x < tv.len() implies 0 <= #[trigger] tv[x].count && tv[x].count + (n - i)
            < i64::MAX by {
            assert(tv[x] == table@[x]@);
        }
        match find_target(&table, c.fingerprint.as_str()) {
            Some(j) => {
                let row = table[j].row;
                let cnt = table[j].occurrence_count + 1;
                let mut updated = copy_slot(&table[j]);
                updated.state = state;
                updated.occurrence_count = cnt;
                updated.recent = true;
                table.set(j, updated);
                assert forall|x: int| 0 <= x < table@.len() implies 0 <= #[trigger] table@[x].occurrence_count
                    && table@[x].occurrence_count + (n - (i + 1)) < i64::MAX by {
                    if x != j {
                        assert(table@[x] == old_table[x]);
                        assert(tv[x] == old_table[x]@);
                    } else {
                        assert(tv[x] == old_table[x]@);
                        assert(0 <= tv[x].count && tv[x].count + (n - i) < i64::MAX);
                    }
                }
                assert(slots_view(table@) =~= tv.update(
                    j as int,
                    SlotView { state, count: cnt, recent: true, ..tv[j as int] },
                ));
                writes.push(TickWrite::Update { row, occurrence_count: cnt, state });
                assert(writes_view(writes@) =~= wv.push(WriteView::Update { row, count: cnt, state }));
                if !suppressed {
                    active.push((row, i, cnt));
                    assert(active@.map_values(|a: ActiveEvent| (a.0, a.1 as int, a.2)) =~= av.push(
                        (row, i as int, cnt),
                    ));
                }
            },
            None => {
                let row = RowRef::Inserted(inserted);
                let slot = EventSlot {
                    row,
                    fingerprint: c.fingerprint.clone(),
                    kind: c.kind,
                    object_type: text_of(&c.object_type),
                    object_id: text_of(&c.object_id),
                    state,
                    occurrence_count: 1,
                    recent: true,
                };
                table.push(slot);
                assert forall|x: int| 0 <= x < table@.len() implies 0 <= #[trigger] table@[x].occurrence_count
                    && table@[x].occurrence_count + (n - (i + 1)) < i64::MAX by {
                    if x < old_table.len() {
                        assert(table@[x] == old_table[x]);
                        assert(tv[x] == old_table[x]@);
                        assert(0 <= tv[x].count && tv[x].count + (n - i) < i64::MAX);
                    }
                }
                assert(slots_view(table@) =~= tv.push(slot@));
                let by = if has_sources {
                    match &first_source {
                        Some(x) => Some(x.clone()),
                        None => None,
                    }
                } else {
                    None
                };
                writes.push(TickWrite::Insert { candidate: i, state, suppressed_by: by });
                assert(writes_view(writes@) =~= wv.push(
                    WriteView::Insert {
                        candidate: i as int,
                        state,
                        suppressed_by: if sources.len() > 0 {
                            Some(sources[0].1)
                        } else {
                            None
                        },
                    },
                ));
                if !suppressed {
                    active.push((row, i, 1));
                    assert(active@.map_values(|a: ActiveEvent| (a.0, a.1 as int, a.2)) =~= av.push(
                        (row, i as int, 1),
                    ));
                }
                inserted = inserted + 1;
            },
        }
        i += 1;
    }
    assert(cands@.take(n as int) =~= cands@);
    TickPlan { writes, events: table, active }
}

// ---------------------------------------------------------------------------
// Laws of the tick
// ---------------------------------------------------------------------------

/// `t` extends `t0` without renaming any event, and leaves the events of
/// fingerprint `fp` untouched.
pub open spec fn keeps(t0: Seq<SlotView>, t: Seq<SlotView>, fp: Seq<char>) -> bool {
    &&& t0.len() <= t.len()
    &&& forall|x: int| 0 <= x < t0.len() ==> (#[trigger] t[x]).fingerprint == t0[x].fingerprint
    &&& forall|x: int| 0 <= x < t0.len() && t0[x].fingerprint == fp ==> #[trigger] t[x] == t0[x]
    &&& forall|x: int| t0.len() <= x < t.len() ==> (#[trigger] t[x]).fingerprint != fp
}

proof fn lemma_merge_target_props(t: Seq<SlotView>, fp: Seq<char>)
    ensures
        merge_target(t, fp) matches Some(k) ==> 0 <= k < t.len() && mergeable(t[k], fp) && forall|x: int|
            0 <= x < k ==> !mergeable(#[trigger] t[x], fp),
        merge_target(t, fp) is None ==> forall|x: int| 0 <= x < t.len() ==> !mergeable(#[trigger] t[x], fp),
    decreases t.len(),
{
    if t.len() > 0 {
        let rest = t.drop_first();
        lemma_merge_target_props(rest, fp);
        assert forall|x: int| 0 < x < t.len() implies t[x] == rest[x - 1] by {}
    }
}

proof fn lemma_keeps_target(t0: Seq<SlotView>, t: Seq<SlotView>, fp: Seq<char>, k: int)
    requires
        keeps(t0, t, fp),
        merge_target(t0, fp) == Some(k),
    ensures
        merge_target(t, fp) == Some(k),
{
    lemma_merge_target_props(t0, fp);
    assert(t[k] == t0[k]);
    assert forall|x: int| 0 <= x < k implies !mergeable(#[trigger] t[x], fp) by {
        assert(t[x].fingerprint == t0[x].fingerprint);
        if t0[x].fingerprint == fp {
            assert(t[x] == t0[x]);
        }
    }
    lemma_merge_target(t, fp, k);
}

proof fn lemma_keeps_trans(a: Seq<SlotView>, b: Seq<SlotView>, c: Seq<SlotView>, fp: Seq<char>)
    requires
        keeps(a, b, fp),
        keeps(b, c, fp),
    ensures
        keeps(a, c, fp),
{
    assert forall|x: int| 0 <= x < a.len() implies (#[trigger] c[x]).fingerprint == a[x].fingerprint by {
        assert(c[x].fingerprint == b[x].fingerprint);
    }
    assert forall|x: int| 0 <= x < a.len() && a[x].fingerprint == fp implies #[trigger] c[x] == a[x] by {
        assert(b[x] == a[x]);
    }
    assert forall|x: int| a.len() <= x < c.len() implies (#[trigger] c[x]).fingerprint != fp by {
        if x < b.len() {
            assert(c[x].fingerprint == b[x].fingerprint);
            assert(b[x].fingerprint != fp);
        }
    }
}

proof fn lemma_step_keeps(st: TickView, c: EventCandidate, ci: int, sources: Seq<(Seq<char>, Seq<char>)>, fp: Seq<char>)
    requires
        c.fingerprint@ != fp,
    ensures
        keeps(st.table, tick_step(st, c, ci, sources).table, fp),
{
    lemma_merge_target_props(st.table, c.fingerprint@);
}

proof fn lemma_fold_prefix(st: TickView, cands: Seq<EventCandidate>, sources: Seq<(Seq<char>, Seq<char>)>, m: int)
    requires
        0 <= m < cands.len(),
    ensures
        tick_fold(st, cands.take(m + 1), sources) == tick_step(
            tick_fold(st, cands.take(m), sources),
            cands[m],
            m,
            sources,
        ),
{
    assert(cands.take(m + 1).drop_last() =~= cands.take(m));
    assert(cands.take(m + 1).last() == cands[m]);
}

proof fn lemma_fold_keeps(
    st: TickView,
    cands: Seq<EventCandidate>,
    sources: Seq<(Seq<char>, Seq<char>)>,
    fp: Seq<char>,
    a: int,
    b: int,
)
    requires
        0 <= a <= b <= cands.len(),
        forall|j: int| a <= j < b ==> (#[trigger] cands[j]).fingerprint@ != fp,
    ensures
        keeps(tick_fold(st, cands.take(a), sources).table, tick_fold(st, cands.take(b), sources).table, fp),
    decreases b - a,
{
    if a < b {
        lemma_fold_keeps(st, cands, sources, fp, a, b - 1);
        lemma_fold_prefix(st, cands, sources, b - 1);
        lemma_step_keeps(tick_fold(st, cands.take(b - 1), sources), cands[b - 1], b - 1, sources, fp);
        lemma_keeps_trans(
            tick_fold(st, cands.take(a), sources).table,
            tick_fold(st, cands.take(b - 1), sources).table,
            tick_fold(st, cands.take(b), sources).table,
            fp,
        );
    }
}

proof fn lemma_resolve_keeps(t: Seq<SlotView>, cleared: Seq<Seq<char>>, fp: Seq<char>)
    requires
        !cleared.contains(fp),
    ensures
        keeps(t, resolve_all(t, cleared), fp),
        resolve_all(t, cleared).len() == t.len(),
    decreases cleared.len(),
{
    if cleared.len() > 0 {
        assert(!cleared.drop_last().contains(fp)) by {
            if cleared.drop_last().contains(fp) {
                let x = choose|x: int| 0 <= x < cleared.drop_last().len() && cleared.drop_last()[x] == fp;
                assert(cleared[x] == fp);
            }
        }
        assert(cleared.last() != fp) by {
            if cleared.last() == fp {
                assert(cleared[cleared.len() - 1] == fp);
            }
        }
        lemma_resolve_keeps(t, cleared.drop_last(), fp);
    }
}

proof fn lemma_resolve_clears(t: Seq<SlotView>, cleared: Seq<Seq<char>>, f: Seq<char>)
    requires
        cleared.contains(f),
    ensures
        resolve_all(t, cleared).len() == t.len(),
        forall|x: int|
            0 <= x < t.len() && t[x].fingerprint == f ==> !live(#[trigger] resolve_all(t, cleared)[x].state),
    decreases cleared.len(),
{
    lemma_resolve_all_shape(t, cleared);
    let prev = cleared.drop_last();
    if cleared.last() == f {
        lemma_resolve_all_shape(t, prev);
    } else {
        assert(prev.contains(f)) by {
            let x = choose|x: int| 0 <= x < cleared.len() && cleared[x] == f;
            assert(x < cleared.len() - 1);
            assert(prev[x] == f);
        }
        lemma_resolve_clears(t, prev, f);
        lemma_resolve_all_shape(t, prev);
    }
}

/// A condition that persists accumulates on its event: when the tick's
/// collection still reports it (its fingerprint is not cleared, and one
/// candidate carries it) and its event is live and was seen within the merge
/// window, that event's count rises by exactly one and it stays tracked
/// (open, or suppressed while a node is down) — it is neither resolved nor
/// replaced by a fresh event.
pub proof fn law_persisting_event_accumulates(
    stored: Seq<SlotView>,
    cands: Seq<EventCandidate>,
    cleared: Seq<Seq<char>>,
    i: int,
    k: int,
)
    requires
        0 <= i < cands.len(),
        !cleared.contains(cands[i].fingerprint@),
        forall|j: int| 0 <= j < cands.len() && j != i ==> (#[trigger] cands[j]).fingerprint@ != cands[i].fingerprint@,
        merge_target(stored, cands[i].fingerprint@) == Some(k),
        stored[k].count < i64::MAX,
    ensures
        ({
            let e = converge_spec(stored, cands, cleared).table[k];
            &&& e.row == stored[k].row
            &&& e.fingerprint == stored[k].fingerprint
            &&& e.count == stored[k].count + 1
            &&& e.state != EventState::Resolved
        }),
{
    let fp = cands[i].fingerprint@;
    let t = resolve_all(stored, cleared);
    let sources = tick_sources(t, cands);
    let st = TickView {
        table: t,
        writes: cleared.map_values(|f: Seq<char>| WriteView::Resolve(f)),
        active: Seq::empty(),
        inserted: 0,
    };
    lemma_resolve_keeps(stored, cleared, fp);
    lemma_merge_target_props(stored, fp);
    lemma_keeps_target(stored, t, fp, k);
    assert forall|j: int| 0 <= j < i implies (#[trigger] cands[j]).fingerprint@ != fp by {}
    lemma_fold_keeps(st, cands, sources, fp, 0, i);
    assert(cands.take(0) =~= Seq::<EventCandidate>::empty());
    let before = tick_fold(st, cands.take(i), sources);
    lemma_keeps_target(t, before.table, fp, k);
    lemma_fold_prefix(st, cands, sources, i);
    let after = tick_fold(st, cands.take(i + 1), sources);
    assert(before.table[k] == stored[k]);
    assert(after.table[k].count == stored[k].count + 1);
    assert forall|j: int| i + 1 <= j < cands.len() implies (#[trigger] cands[j]).fingerprint@ != fp by {}
    lemma_fold_keeps(st, cands, sources, fp, i + 1, cands.len() as int);
    assert(cands.take(cands.len() as int) =~= cands);
    assert(after.table[k].fingerprint == fp);
    lemma_merge_target_props(before.table, fp);
}

/// A condition that receded is resolved: every event of a cleared
/// fingerprint that no candidate of the tick carries ends the tick no
/// longer tracked.
pub proof fn law_receded_event_resolved(
    stored: Seq<SlotView>,
    cands: Seq<EventCandidate>,
    cleared: Seq<Seq<char>>,
    f: Seq<char>,
    k: int,
)
    requires
        cleared.contains(f),
        forall|j: int| 0 <= j < cands.len() ==> (#[trigger] cands[j]).fingerprint@ != f,
        0 <= k < stored.len(),
        stored[k].fingerprint == f,
    ensures
        !live(converge_spec(stored, cands, cleared).table[k].state),
{
    let t = resolve_all(stored, cleared);
    let sources = tick_sources(t, cands);
    let st = TickView {
        table: t,
        writes: cleared.map_values(|f: Seq<char>| WriteView::Resolve(f)),
        active: Seq::empty(),
        inserted: 0,
    };
    lemma_resolve_clears(stored, cleared, f);
    lemma_resolve_all_shape(stored, cleared);
    lemma_fold_keeps(st, cands, sources, f, 0, cands.len() as int);
    assert(cands.take(0) =~= Seq::<EventCandidate>::empty());
    assert(cands.take(cands.len() as int) =~= cands);
    assert(t[k].fingerprint == f);
}

/// A breach that persists across ticks accumulates on its event: for the
/// candidates and cleared fingerprints of a collection, a reported condition
/// (carried by one candidate) whose live event was seen within the merge
/// window gets that event's count raised by one, and the event stays
/// tracked.
pub proof fn law_persisting_breach_accumulates(
    stored: Seq<SlotView>,
    cands: Seq<EventCandidate>,
    cleared: Seq<Seq<char>>,
    cluster_id: int,
    shared_data: bool,
    latest: MetricsSnapshot,
    prev: Option<MetricsSnapshot>,
    nodes: Option<Seq<BackendStatus>>,
    slow: Option<Seq<SlowQuerySample>>,
    i: int,
    k: int,
)
    requires
        candidates_view(cands) == collected(cluster_id, shared_data, latest, prev, nodes, slow).candidates,
        cleared == collected(cluster_id, shared_data, latest, prev, nodes, slow).cleared,
        0 <= i < cands.len(),
        forall|j: int| 0 <= j < cands.len() && j != i ==> (#[trigger] cands[j]).fingerprint@ != cands[i].fingerprint@,
        merge_target(stored, cands[i].fingerprint@) == Some(k),
        stored[k].count < i64::MAX,
    ensures
        ({
            let e = converge_spec(stored, cands, cleared).table[k];
            &&& e.row == stored[k].row
            &&& e.count == stored[k].count + 1
            &&& e.state != EventState::Resolved
        }),
{
    let o = collected(cluster_id, shared_data, latest, prev, nodes, slow);
    law_reported_never_cleared(cluster_id, shared_data, latest, prev, nodes, slow);
    assert(!cleared.contains(cands[i].fingerprint@)) by {
        if cleared.contains(cands[i].fingerprint@) {
            let b = choose|b: int| 0 <= b < cleared.len() && cleared[b] == cands[i].fingerprint@;
            assert(o.candidates[i] == cands[i]@);
            assert(o.candidates[i].fingerprint != o.cleared[b]);
        }
    }
    law_persisting_event_accumulates(stored, cands, cleared, i, k);
}


/// No event of fingerprint `fp` is live.
pub open spec fn none_live(t: Seq<SlotView>, fp: Seq<char>) -> bool {
    forall|x: int| 0 <= x < t.len() && (#[trigger] t[x]).fingerprint == fp ==> !live(t[x].state)
}

/// Event `k` is the one live event of fingerprint `fp`.
pub open spec fn sole_live(t: Seq<SlotView>, fp: Seq<char>, k: int) -> bool {
    &&& 0 <= k < t.len()
    &&& t[k].fingerprint == fp
    &&& live(t[k].state)
    &&& forall|x: int| 0 <= x < t.len() && x != k && (#[trigger] t[x]).fingerprint == fp ==> !live(t[x].state)
}

/// `next` is `t` as the next tick reads it back from the store: the same
/// events in the same order, each with its fingerprint, kind, object, state
/// and count; only the row handles and the recency may differ.
pub open spec fn read_back(t: Seq<SlotView>, next: Seq<SlotView>) -> bool {
    &&& next.len() == t.len()
    &&& forall|x: int|
        0 <= x < t.len() ==> {
            let a = #[trigger] next[x];
            &&& a.fingerprint == t[x].fingerprint
            &&& a.kind == t[x].kind
            &&& a.object_type == t[x].object_type
            &&& a.object_id == t[x].object_id
            &&& a.state == t[x].state
            &&& a.count == t[x].count
        }
}

proof fn lemma_keeps_none(t0: Seq<SlotView>, t: Seq<SlotView>, fp: Seq<char>)
    requires
        keeps(t0, t, fp),
        none_live(t0, fp),
    ensures
        none_live(t, fp),
{
    assert forall|x: int| 0 <= x < t.len() && (#[trigger] t[x]).fingerprint == fp implies !live(t[x].state) by {
        if x < t0.len() {
            assert(t0[x].fingerprint == fp);
            assert(t[x] == t0[x]);
        }
    }
}

proof fn lemma_keeps_sole(t0: Seq<SlotView>, t: Seq<SlotView>, fp: Seq<char>, k: int)
    requires
        keeps(t0, t, fp),
        sole_live(t0, fp, k),
    ensures
        sole_live(t, fp, k),
        t[k] == t0[k],
{
    assert(t[k] == t0[k]);
    assert forall|x: int| 0 <= x < t.len() && x != k && (#[trigger] t[x]).fingerprint == fp implies !live(
        t[x].state,
    ) by {
        if x < t0.len() {
            assert(t0[x].fingerprint == fp);
            assert(t[x] == t0[x]);
        }
    }
}

proof fn lemma_step_first(st: TickView, c: EventCandidate, ci: int, sources: Seq<(Seq<char>, Seq<char>)>)
    requires
        none_live(st.table, c.fingerprint@),
        !suppressed_spec(c.kind, sources.len() > 0),
    ensures
        sole_live(tick_step(st, c, ci, sources).table, c.fingerprint@, st.table.len() as int),
        tick_step(st, c, ci, sources).table[st.table.len() as int].count == 1,
{
    let fp = c.fingerprint@;
    assert forall|x: int| 0 <= x < st.table.len() implies !mergeable(#[trigger] st.table[x], fp) by {}
    lemma_merge_target(st.table, fp, st.table.len() as int);
    let t = tick_step(st, c, ci, sources).table;
    assert forall|x: int|
        0 <= x < t.len() && x != st.table.len() && (#[trigger] t[x]).fingerprint == fp implies !live(t[x].state) by {
        assert(t[x] == st.table[x]);
    }
}

proof fn lemma_step_again(st: TickView, c: EventCandidate, ci: int, sources: Seq<(Seq<char>, Seq<char>)>, k: int)
    requires
        sole_live(st.table, c.fingerprint@, k),
        st.table[k].recent,
        !suppressed_spec(c.kind, sources.len() > 0),
    ensures
        sole_live(tick_step(st, c, ci, sources).table, c.fingerprint@, k),
        tick_step(st, c, ci, sources).table[k].count == (st.table[k].count + 1) as i64,
{
    let fp = c.fingerprint@;
    assert forall|x: int| 0 <= x < k implies !mergeable(#[trigger] st.table[x], fp) by {}
    lemma_merge_target(st.table, fp, k);
    let t = tick_step(st, c, ci, sources).table;
    assert forall|x: int| 0 <= x < t.len() && x != k && (#[trigger] t[x]).fingerprint == fp implies !live(
        t[x].state,
    ) by {
        assert(t[x] == st.table[x]);
    }
}

/// The shared frame of one tick around candidate `i`: the table before the
/// candidate keeps the resolved stored events of its fingerprint, and the
/// final table keeps the table after it.
proof fn lemma_tick_frame(stored: Seq<SlotView>, cands: Seq<EventCandidate>, cleared: Seq<Seq<char>>, i: int)
    requires
        0 <= i < cands.len(),
        !cleared.contains(cands[i].fingerprint@),
        forall|j: int| 0 <= j < cands.len() && j != i ==> (#[trigger] cands[j]).fingerprint@ != cands[i].fingerprint@,
    ensures
        ({
            let fp = cands[i].fingerprint@;
            let t = resolve_all(stored, cleared);
            let sources = tick_sources(t, cands);
            let st = TickView {
                table: t,
                writes: cleared.map_values(|f: Seq<char>| WriteView::Resolve(f)),
                active: Seq::empty(),
                inserted: 0,
            };
            let before = tick_fold(st, cands.take(i), sources);
            let after = tick_step(before, cands[i], i, sources);
            &&& keeps(stored, before.table, fp)
            &&& keeps(after.table, converge_spec(stored, cands, cleared).table, fp)
        }),
{
    let fp = cands[i].fingerprint@;
    let t = resolve_all(stored, cleared);
    let sources = tick_sources(t, cands);
    let st = TickView {
        table: t,
        writes: cleared.map_values(|f: Seq<char>| WriteView::Resolve(f)),
        active: Seq::empty(),
        inserted: 0,
    };
    lemma_resolve_keeps(stored, cleared, fp);
    assert forall|j: int| 0 <= j < i implies (#[trigger] cands[j]).fingerprint@ != fp by {}
    lemma_fold_keeps(st, cands, sources, fp, 0, i);
    assert(cands.take(0) =~= Seq::<EventCandidate>::empty());
    let before = tick_fold(st, cands.take(i), sources);
    lemma_keeps_trans(stored, t, before.table, fp);
    lemma_fold_prefix(st, cands, sources, i);
    assert forall|j: int| i + 1 <= j < cands.len() implies (#[trigger] cands[j]).fingerprint@ != fp by {}
    lemma_fold_keeps(st, cands, sources, fp, i + 1, cands.len() as int);
    assert(cands.take(cands.len() as int) =~= cands);
}

/// A condition reported for the first time (no live event of its
/// fingerprint) and not suppressed gets exactly one live event, with count
/// one.
proof fn lemma_first_tick(stored: Seq<SlotView>, cands: Seq<EventCandidate>, cleared: Seq<Seq<char>>, i: int)
    requires
        0 <= i < cands.len(),
        !cleared.contains(cands[i].fingerprint@),
        forall|j: int| 0 <= j < cands.len() && j != i ==> (#[trigger] cands[j]).fingerprint@ != cands[i].fingerprint@,
        none_live(stored, cands[i].fingerprint@),
        !suppressed_spec(cands[i].kind, tick_sources(resolve_all(stored, cleared), cands).len() > 0),
    ensures
        exists|k: int|
            sole_live(converge_spec(stored, cands, cleared).table, cands[i].fingerprint@, k)
                && #[trigger] converge_spec(stored, cands, cleared).table[k].count == 1,
{
    let fp = cands[i].fingerprint@;
    let t = resolve_all(stored, cleared);
    let sources = tick_sources(t, cands);
    let st = TickView {
        table: t,
        writes: cleared.map_values(|f: Seq<char>| WriteView::Resolve(f)),
        active: Seq::empty(),
        inserted: 0,
    };
    lemma_tick_frame(stored, cands, cleared, i);
    let before = tick_fold(st, cands.take(i), sources);
    let after = tick_step(before, cands[i], i, sources);
    lemma_keeps_none(stored, before.table, fp);
    lemma_step_first(before, cands[i], i, sources);
    let k = before.table.len() as int;
    let fin = converge_spec(stored, cands, cleared).table;
    lemma_keeps_sole(after.table, fin, fp, k);
    assert(fin[k].count == 1);
}

/// A condition whose one live event is still recent, reported again and not
/// suppressed, keeps that one live event and raises its count by one.
proof fn lemma_again_tick(stored: Seq<SlotView>, cands: Seq<EventCandidate>, cleared: Seq<Seq<char>>, i: int, k: int)
    requires
        0 <= i < cands.len(),
        !cleared.contains(cands[i].fingerprint@),
        forall|j: int| 0 <= j < cands.len() && j != i ==> (#[trigger] cands[j]).fingerprint@ != cands[i].fingerprint@,
        sole_live(stored, cands[i].fingerprint@, k),
        stored[k].recent,
        !suppressed_spec(cands[i].kind, tick_sources(resolve_all(stored, cleared), cands).len() > 0),
    ensures
        sole_live(converge_spec(stored, cands, cleared).table, cands[i].fingerprint@, k),
        converge_spec(stored, cands, cleared).table[k].count == (stored[k].count + 1) as i64,
{
    let fp = cands[i].fingerprint@;
    let t = resolve_all(stored, cleared);
    let sources = tick_sources(t, cands);
    let st = TickView {
        table: t,
        writes: cleared.map_values(|f: Seq<char>| WriteView::Resolve(f)),
        active: Seq::empty(),
        inserted: 0,
    };
    lemma_tick_frame(stored, cands, cleared, i);
    let before = tick_fold(st, cands.take(i), sources);
    let after = tick_step(before, cands[i], i, sources);
    lemma_keeps_sole(stored, before.table, fp, k);
    lemma_step_again(before, cands[i], i, sources, k);
    lemma_keeps_sole(after.table, converge_spec(stored, cands, cleared).table, fp, k);
}

/// A breach that persists over two ticks accumulates on one event. The
/// first tick reports a condition that has no live event yet; the store
/// gives the resulting events back to the second tick (`read_back`), less
/// than the merge window later, so the event the first tick left live is
/// still recent; the second tick reports the condition again. Neither tick
/// clears it nor suppresses it (no node is down). Then after the second tick
/// exactly one live event carries the fingerprint, and its count is two.
pub proof fn law_breach_accumulates_over_two_ticks(
    stored: Seq<SlotView>,
    c1: Seq<EventCandidate>,
    cl1: Seq<Seq<char>>,
    i1: int,
    next: Seq<SlotView>,
    c2: Seq<EventCandidate>,
    cl2: Seq<Seq<char>>,
    i2: int,
)
    requires
        0 <= i1 < c1.len(),
        0 <= i2 < c2.len(),
        c2[i2].fingerprint@ == c1[i1].fingerprint@,
        forall|j: int| 0 <= j < c1.len() && j != i1 ==> (#[trigger] c1[j]).fingerprint@ != c1[i1].fingerprint@,
        forall|j: int| 0 <= j < c2.len() && j != i2 ==> (#[trigger] c2[j]).fingerprint@ != c1[i1].fingerprint@,
        !cl1.contains(c1[i1].fingerprint@),
        !cl2.contains(c1[i1].fingerprint@),
        none_live(stored, c1[i1].fingerprint@),
        !suppressed_spec(c1[i1].kind, tick_sources(resolve_all(stored, cl1), c1).len() > 0),
        !suppressed_spec(c2[i2].kind, tick_sources(resolve_all(next, cl2), c2).len() > 0),
        read_back(converge_spec(stored, c1, cl1).table, next),
        forall|x: int|
            0 <= x < next.len() && (#[trigger] next[x]).fingerprint == c1[i1].fingerprint@ && live(next[x].state)
                ==> next[x].recent,
    ensures
        exists|k: int|
            sole_live(converge_spec(next, c2, cl2).table, c1[i1].fingerprint@, k)
                && #[trigger] converge_spec(next, c2, cl2).table[k].count == 2,
{
    let fp = c1[i1].fingerprint@;
    let t1 = converge_spec(stored, c1, cl1).table;
    lemma_first_tick(stored, c1, cl1, i1);
    let k = choose|k: int| sole_live(t1, fp, k) && #[trigger] t1[k].count == 1;
    assert(next[k].fingerprint == t1[k].fingerprint);
    assert forall|x: int| 0 <= x < next.len() && x != k && (#[trigger] next[x]).fingerprint == fp implies !live(
        next[x].state,
    ) by {
        assert(t1[x].fingerprint == next[x].fingerprint);
    }
    assert(sole_live(next, fp, k));
    assert(forall|j: int| 0 <= j < c2.len() && j != i2 ==> (#[trigger] c2[j]).fingerprint@ != c2[i2].fingerprint@);
    lemma_again_tick(next, c2, cl2, i2, k);
    assert(converge_spec(next, c2, cl2).table[k].count == 2);
}

} // verus!
