//! Decisions of the incident pipeline (collect, converge, escalate,
//! investigate, diagnose) that sit between its database and cluster calls.
//!
//! Escalation groups the active events by the object they concern
//! (`type:id`), skipping slow queries and info-level events. Each group
//! becomes at most one incident, keyed `cluster:type:id`, titled after its
//! most severe event; an active incident with the key only gains the events,
//! a recently resolved one is reopened, otherwise one is created.

use vstd::prelude::*;
use vstd::string::*;
use crate::agent::collectors::opt_view;
use crate::agent::converge::{or_empty, EventRow};
use crate::agent::models::{EventKind, EventSeverity};
use crate::ai::types::{truncate, truncated};
use crate::text::{chars_of, i64_string, str_eq, string_of, trim, trim_exec};

verus! {

/// Most incidents investigated per tick.
pub const MAX_INVESTIGATE_PER_TICK: usize = 3;

/// Days within which a resolved incident with the same key is reopened.
pub const REOPEN_WINDOW_DAYS: i64 = 30;

// ---------------------------------------------------------------------------
// Escalation model
// ---------------------------------------------------------------------------

/// An event can raise an incident: it is neither a slow query nor info-level.
pub open spec fn escalates(e: EventRow) -> bool {
    e.kind != EventKind::SlowQuery && e.severity != EventSeverity::Info
}

/// The object type of an event (empty when absent).
pub open spec fn event_type(e: EventRow) -> Seq<char> {
    or_empty(opt_view(e.object_type))
}

/// The object id of an event (empty when absent).
pub open spec fn event_id(e: EventRow) -> Seq<char> {
    or_empty(opt_view(e.object_id))
}

/// The grouping key of an event: `type:id`.
pub open spec fn event_key(e: EventRow) -> Seq<char> {
    event_type(e) + ":"@ + event_id(e)
}

/// A group as plain values: key, object type, object id, member positions.
pub type GroupView = (Seq<char>, Seq<char>, Seq<char>, Seq<usize>);

/// The first group with key `k` (`g.len()` when none).
pub open spec fn key_index(g: Seq<GroupView>, k: Seq<char>) -> int
    decreases g.len(),
{
    if g.len() == 0 {
        0
    } else if g[0].0 == k {
        0
    } else {
        1 + key_index(g.drop_first(), k)
    }
}

/// The groups formed by the first `n` events: groups in order of first
/// appearance, members in event order.
pub open spec fn groups_upto(events: Seq<EventRow>, n: int) -> Seq<GroupView>
    decreases n,
{
    if n <= 0 {
        Seq::empty()
    } else {
        let g = groups_upto(events, n - 1);
        let e = events[n - 1];
        if !escalates(e) {
            g
        } else {
            let j = key_index(g, event_key(e));
            if j < g.len() {
                g.update(j, (g[j].0, g[j].1, g[j].2, g[j].3.push((n - 1) as usize)))
            } else {
                g.push((event_key(e), event_type(e), event_id(e), seq![(n - 1) as usize]))
            }
        }
    }
}

/// The groups of all the events.
pub open spec fn escalation_groups_spec(events: Seq<EventRow>) -> Seq<GroupView> {
    groups_upto(events, events.len() as int)
}

/// The weight of a severity when the primary event is chosen.
pub open spec fn severity_rank(s: EventSeverity) -> int {
    match s {
        EventSeverity::Critical => 3,
        EventSeverity::Warning => 2,
        EventSeverity::Info => 1,
    }
}

/// The primary member of a group: the most severe one, the last of equals.
pub open spec fn primary_member(events: Seq<EventRow>, m: Seq<usize>) -> usize
    decreases m.len(),
{
    if m.len() <= 1 {
        m[0]
    } else {
        let b = primary_member(events, m.drop_last());
        if severity_rank(events[m.last() as int].severity) >= severity_rank(
            events[b as int].severity,
        ) {
            m.last()
        } else {
            b
        }
    }
}

/// The incident key of a group: `cluster:type:id`.
pub open spec fn dedupe_key_spec(cluster_id: i64, object_type: Seq<char>, object_id: Seq<char>) -> Seq<
    char,
> {
    crate::text::int_dec(cluster_id as int) + ":"@ + object_type + ":"@ + object_id
}

/// The incident title: the primary event's title with the object id.
pub open spec fn incident_title_spec(primary_title: Seq<char>, object_id: Seq<char>) -> Seq<char> {
    primary_title + "（"@ + object_id + "）"@
}

/// The notification level of a new incident.
pub open spec fn notice_level_spec(s: EventSeverity) -> Seq<char> {
    if s == EventSeverity::Critical {
        "critical"@
    } else {
        "warning"@
    }
}

// ---------------------------------------------------------------------------
// Escalation
// ---------------------------------------------------------------------------

/// The events of one object, as positions in the escalated list.
#[derive(Debug, Clone)]
pub struct EscalationGroup {
    pub key: String,
    pub object_type: String,
    pub object_id: String,
    pub members: Vec<usize>,
}

/// A group as plain values.
pub open spec fn group_view(g: EscalationGroup) -> GroupView {
    (g.key@, g.object_type@, g.object_id@, g.members@)
}

/// Groups as plain values.
pub open spec fn group_views(v: Seq<EscalationGroup>) -> Seq<GroupView> {
    v.map_values(|g: EscalationGroup| group_view(g))
}

proof fn lemma_key_index(g: Seq<GroupView>, k: Seq<char>, j: int)
    requires
        0 <= j <= g.len(),
        forall|t: int| 0 <= t < j ==> (#[trigger] g[t]).0 != k,
        j < g.len() ==> g[j].0 == k,
    ensures
        key_index(g, k) == j,
    decreases j,
{
    if j > 0 {
        let rest = g.drop_first();
        assert forall|t: int| 0 <= t < j - 1 implies (#[trigger] rest[t]).0 != k by {
            assert(rest[t] == g[t + 1]);
        }
        lemma_key_index(rest, k, j - 1);
    }
}

/// Every member position of the groups of the first `n` events is below `n`,
/// and every group has a member.
proof fn lemma_groups_members(events: Seq<EventRow>, n: int)
    requires
        0 <= n <= events.len(),
    ensures
        forall|j: int|
            0 <= j < groups_upto(events, n).len() ==> (#[trigger] groups_upto(events, n)[j]).3.len()
                >= 1,
        forall|j: int, t: int|
            0 <= j < groups_upto(events, n).len() && 0 <= t < groups_upto(events, n)[j].3.len()
                ==> (#[trigger] groups_upto(events, n)[j].3[t]) < n,
    decreases n,
{
    if n > 0 {
        lemma_groups_members(events, n - 1);
        let g = groups_upto(events, n - 1);
        let e = events[n - 1];
        let gn = groups_upto(events, n);
        if escalates(e) {
            let k = event_key(e);
            lemma_key_index_range(g, k);
            let j = key_index(g, k);
            if j < g.len() {
                assert forall|a: int| 0 <= a < gn.len() implies (#[trigger] gn[a]).3.len() >= 1 by {
                    if a != j {
                        assert(gn[a] == g[a]);
                    }
                }
                assert forall|a: int, t: int|
                    0 <= a < gn.len() && 0 <= t < gn[a].3.len() implies (#[trigger] gn[a].3[t])
                    < n by {
                    if a != j {
                        assert(gn[a] == g[a]);
                    } else if t < g[j].3.len() {
                        assert(gn[a].3[t] == g[j].3[t]);
                    }
                }
            } else {
                assert forall|a: int| 0 <= a < gn.len() implies (#[trigger] gn[a]).3.len() >= 1 by {
                    if a < g.len() {
                        assert(gn[a] == g[a]);
                    }
                }
                assert forall|a: int, t: int|
                    0 <= a < gn.len() && 0 <= t < gn[a].3.len() implies (#[trigger] gn[a].3[t])
                    < n by {
                    if a < g.len() {
                        assert(gn[a] == g[a]);
                    }
                }
            }
        }
    }
}

proof fn lemma_key_index_range(g: Seq<GroupView>, k: Seq<char>)
    ensures
        0 <= key_index(g, k) <= g.len(),
        key_index(g, k) < g.len() ==> g[key_index(g, k)].0 == k,
        forall|a: int| 0 <= a < key_index(g, k) ==> (#[trigger] g[a]).0 != k,
    decreases g.len(),
{
    if g.len() > 0 && g[0].0 != k {
        let rest = g.drop_first();
        lemma_key_index_range(rest, k);
        assert forall|a: int| 0 <= a < key_index(g, k) implies (#[trigger] g[a]).0 != k by {
            if a > 0 {
                assert(g[a] == rest[a - 1]);
            }
        }
    }
}

/// The groups of the first `n` events: every member escalates and has its
/// group's key, no two groups share a key, and every escalating event is a
/// member of some group.
proof fn lemma_groups_upto(events: Seq<EventRow>, n: int)
    requires
        0 <= n <= events.len(),
        events.len() <= usize::MAX,
    ensures
        ({
            let g = groups_upto(events, n);
            &&& forall|j: int, t: int|
                0 <= j < g.len() && 0 <= t < g[j].3.len() ==> 0 <= #[trigger] g[j].3[t] < n
                    && escalates(events[g[j].3[t] as int]) && event_key(events[g[j].3[t] as int])
                    == g[j].0
            &&& forall|a: int, b: int| 0 <= a < b < g.len() ==> #[trigger] g[a].0 != #[trigger] g[b].0
            &&& forall|i: int|
                0 <= i < n && escalates(#[trigger] events[i]) ==> exists|j: int, t: int|
                    #![trigger g[j].3[t]]
                    0 <= j < g.len() && 0 <= t < g[j].3.len() && g[j].3[t] == i
        }),
    decreases n,
{
    if n > 0 {
        lemma_groups_upto(events, n - 1);
        let g = groups_upto(events, n - 1);
        let e = events[n - 1];
        let gn = groups_upto(events, n);
        assert(((n - 1) as usize) as int == n - 1);
        if escalates(e) {
            let k = event_key(e);
            lemma_key_index_range(g, k);
            let j = key_index(g, k);
            if j < g.len() {
                let old_len = g[j].3.len();
                assert forall|a: int, t: int|
                    0 <= a < gn.len() && 0 <= t < gn[a].3.len() implies 0 <= #[trigger] gn[a].3[t]
                    < n && escalates(events[gn[a].3[t] as int]) && event_key(
                    events[gn[a].3[t] as int],
                ) == gn[a].0 by {
                    if a != j {
                        assert(gn[a] == g[a]);
                    } else if t < old_len {
                        assert(gn[a].3[t] == g[j].3[t]);
                    } else {
                        assert(gn[a].3[t] == (n - 1) as usize);
                    }
                }
                assert forall|a: int, b: int| 0 <= a < b < gn.len() implies #[trigger] gn[a].0
                    != #[trigger] gn[b].0 by {
                    assert(gn[a].0 == g[a].0);
                    assert(gn[b].0 == g[b].0);
                }
                assert forall|i: int| 0 <= i < n && escalates(#[trigger] events[i]) implies exists|
                    x: int,
                    t: int,
                |
                    #![trigger gn[x].3[t]]
                    0 <= x < gn.len() && 0 <= t < gn[x].3.len() && gn[x].3[t] == i by {
                    if i == n - 1 {
                        assert(gn[j].3[old_len as int] == i);
                    } else {
                        let (x, t) = choose|x: int, t: int|
                            #![trigger g[x].3[t]]
                            0 <= x < g.len() && 0 <= t < g[x].3.len() && g[x].3[t] == i;
                        if x == j {
                            assert(gn[x].3[t] == g[x].3[t]);
                        } else {
                            assert(gn[x] == g[x]);
                        }
                    }
                }
            } else {
                assert forall|a: int, t: int|
                    0 <= a < gn.len() && 0 <= t < gn[a].3.len() implies 0 <= #[trigger] gn[a].3[t]
                    < n && escalates(events[gn[a].3[t] as int]) && event_key(
                    events[gn[a].3[t] as int],
                ) == gn[a].0 by {
                    if a < g.len() {
                        assert(gn[a] == g[a]);
                    }
                }
                assert forall|a: int, b: int| 0 <= a < b < gn.len() implies #[trigger] gn[a].0
                    != #[trigger] gn[b].0 by {
                    assert(gn[a] == g[a]);
                    if b < g.len() {
                        assert(gn[b] == g[b]);
                    }
                }
                assert forall|i: int| 0 <= i < n && escalates(#[trigger] events[i]) implies exists|
                    x: int,
                    t: int,
                |
                    #![trigger gn[x].3[t]]
                    0 <= x < gn.len() && 0 <= t < gn[x].3.len() && gn[x].3[t] == i by {
                    if i == n - 1 {
                        assert(gn[g.len() as int].3[0] == i);
                    } else {
                        let (x, t) = choose|x: int, t: int|
                            #![trigger g[x].3[t]]
                            0 <= x < g.len() && 0 <= t < g[x].3.len() && g[x].3[t] == i;
                        assert(gn[x] == g[x]);
                    }
                }
            }
        } else {
            assert forall|i: int| 0 <= i < n && escalates(#[trigger] events[i]) implies exists|
                x: int,
                t: int,
            |
                #![trigger gn[x].3[t]]
                0 <= x < gn.len() && 0 <= t < gn[x].3.len() && gn[x].3[t] == i by {
                let (x, t) = choose|x: int, t: int|
                    #![trigger g[x].3[t]]
                    0 <= x < g.len() && 0 <= t < g[x].3.len() && g[x].3[t] == i;
            }
        }
    }
}

/// Escalation groups events by object exactly: every member of a group can
/// raise an incident (it is neither a slow query nor info-level) and
/// concerns the group's object, no two groups concern the same object, and
/// every event that can raise an incident is in some group.
pub proof fn law_escalation_groups(events: Seq<EventRow>)
    requires
        events.len() <= usize::MAX,
    ensures
        ({
            let g = escalation_groups_spec(events);
            &&& forall|j: int, t: int|
                0 <= j < g.len() && 0 <= t < g[j].3.len() ==> 0 <= #[trigger] g[j].3[t] < events.len()
                    && escalates(events[g[j].3[t] as int]) && event_key(events[g[j].3[t] as int])
                    == g[j].0
            &&& forall|a: int, b: int| 0 <= a < b < g.len() ==> #[trigger] g[a].0 != #[trigger] g[b].0
            &&& forall|i: int|
                0 <= i < events.len() && escalates(#[trigger] events[i]) ==> exists|j: int, t: int|
                    #![trigger g[j].3[t]]
                    0 <= j < g.len() && 0 <= t < g[j].3.len() && g[j].3[t] == i
        }),
{
    lemma_groups_upto(events, events.len() as int);
    let g = escalation_groups_spec(events);
    assert(g == groups_upto(events, events.len() as int));
    assert forall|i: int| 0 <= i < events.len() && escalates(#[trigger] events[i]) implies exists|
        j: int,
        t: int,
    |
        #![trigger g[j].3[t]]
        0 <= j < g.len() && 0 <= t < g[j].3.len() && g[j].3[t] == i by {
        let (j, t) = choose|j: int, t: int|
            #![trigger g[j].3[t]]
            0 <= j < g.len() && 0 <= t < g[j].3.len() && g[j].3[t] == i;
    }
}

fn opt_text(o: &Option<String>) -> (r: String)
    ensures
        r@ == or_empty(opt_view(*o)),
{
    match o {
        Some(s) => string_of(chars_of(s.as_str()).as_slice()),
        None => String::new(),
    }
}

/// Groups the events that can raise incidents by the object they concern,
/// groups in order of first appearance and members in event order.
pub fn escalation_groups(events: &[EventRow]) -> (r: Vec<EscalationGroup>)
    ensures
        group_views(r@) == escalation_groups_spec(events@),
{
    let ghost ev = events@;
    let mut groups: Vec<EscalationGroup> = Vec::new();
    let mut i: usize = 0;
    while i < events.len()
        invariant
            i <= events.len(),
            ev == events@,
            group_views(groups@) == groups_upto(ev, i as int),
        decreases events.len() - i,
    {
        let e = &events[i];
        let skip = match e.kind {
            EventKind::SlowQuery => true,
            _ => match e.severity {
                EventSeverity::Info => true,
                _ => false,
            },
        };
        if !skip {
            let ty = opt_text(&e.object_type);
            let id = opt_text(&e.object_id);
            let mut key = string_of(chars_of(ty.as_str()).as_slice());
            key.append(":");
            key.append(id.as_str());
            assert(key@ == event_key(ev[i as int]));
            let ghost gv = group_views(groups@);
            let mut j: usize = 0;
            while j < groups.len()
                invariant
                    j <= groups@.len(),
                    gv == group_views(groups@),
                    forall|t: int| 0 <= t < j ==> (#[trigger] gv[t]).0 != key@,
                ensures
                    j <= groups@.len(),
                    forall|t: int| 0 <= t < j ==> (#[trigger] gv[t]).0 != key@,
                    j < groups@.len() ==> gv[j as int].0 == key@,
                decreases groups@.len() - j,
            {
                assert(gv[j as int].0 == groups@[j as int].key@);
                if str_eq(groups[j].key.as_str(), key.as_str()) {
                    break;
                }
                j += 1;
            }
            proof {
                lemma_key_index(gv, key@, j as int);
            }
            if j < groups.len() {
                let mut g = groups.remove(j);
                let ghost old_g = group_view(g);
                g.members.push(i);
                groups.insert(j, g);
                assert(group_views(groups@) =~= gv.update(
                    j as int,
                    (old_g.0, old_g.1, old_g.2, old_g.3.push(i)),
                ));
            } else {
                let mut members: Vec<usize> = Vec::new();
                members.push(i);
                let ghost nv = (key@, ty@, id@, members@);
                groups.push(EscalationGroup { key, object_type: ty, object_id: id, members });
                assert(group_views(groups@) =~= gv.push(nv));
                assert(members@ =~= seq![i]);
            }
        }
        i += 1;
    }
    groups
}

fn severity_weight(s: EventSeverity) -> (r: u8)
    ensures
        r as int == severity_rank(s),
{
    match s {
        EventSeverity::Critical => 3,
        EventSeverity::Warning => 2,
        EventSeverity::Info => 1,
    }
}

/// The primary member of a group: the most severe event, the last one among
/// equally severe events.
pub fn primary_of(events: &[EventRow], members: &[usize]) -> (r: usize)
    requires
        members@.len() >= 1,
        forall|t: int| 0 <= t < members@.len() ==> (#[trigger] members@[t]) < events@.len(),
    ensures
        r == primary_member(events@, members@),
        r < events@.len(),
{
    let mut best = members[0];
    let mut k: usize = 1;
    assert(members@.take(1).drop_last().len() == 0);
    assert(primary_member(events@, members@.take(1)) == members@[0]);
    while k < members.len()
        invariant
            1 <= k <= members@.len(),
            forall|t: int| 0 <= t < members@.len() ==> (#[trigger] members@[t]) < events@.len(),
            best == primary_member(events@, members@.take(k as int)),
            best < events@.len(),
        decreases members@.len() - k,
    {
        let m = members[k];
        proof {
            assert(members@.take(k + 1).drop_last() =~= members@.take(k as int));
            assert(members@.take(k + 1).last() == m);
        }
        if severity_weight(events[m].severity) >= severity_weight(events[best].severity) {
            best = m;
        }
        k += 1;
    }
    assert(members@.take(members.len() as int) =~= members@);
    best
}

/// The incident to raise for one group.
#[derive(Debug, Clone)]
pub struct IncidentDraft {
    pub object_type: String,
    pub object_id: String,
    /// Positions of the group's events.
    pub members: Vec<usize>,
    /// Position of the primary event.
    pub primary: usize,
    pub dedupe_key: String,
    pub title: String,
    /// Notification level if the incident is created: `critical` or `warning`.
    pub notice_level: String,
}

/// The incidents that the active events of a cluster call for: one per
/// object group, keyed `cluster:type:id`, titled after the primary event.
pub fn escalation_plan(cluster_id: i64, events: &[EventRow]) -> (r: Vec<IncidentDraft>)
    ensures
        r@.len() == escalation_groups_spec(events@).len(),
        forall|j: int|
            0 <= j < r@.len() ==> {
                let g = escalation_groups_spec(events@)[j];
                let d = #[trigger] r@[j];
                let p = primary_member(events@, g.3);
                &&& d.object_type@ == g.1
                &&& d.object_id@ == g.2
                &&& d.members@ == g.3
                &&& d.primary == p
                &&& d.dedupe_key@ == dedupe_key_spec(cluster_id, g.1, g.2)
                &&& d.title@ == incident_title_spec(events@[p as int].title@, g.2)
                &&& d.notice_level@ == notice_level_spec(events@[p as int].severity)
            },
{
    let groups = escalation_groups(events);
    let ghost gs = escalation_groups_spec(events@);
    proof {
        lemma_groups_members(events@, events@.len() as int);
    }
    let mut input = groups;
    let n = input.len();
    let mut out: Vec<IncidentDraft> = Vec::new();
    let mut j: usize = 0;
    while j < n
        invariant
            n == gs.len(),
            j <= n,
            input@.len() == n - j,
            group_views(input@) == gs.skip(j as int),
            gs == escalation_groups_spec(events@),
            forall|a: int| 0 <= a < gs.len() ==> (#[trigger] gs[a]).3.len() >= 1,
            forall|a: int, t: int|
                0 <= a < gs.len() && 0 <= t < gs[a].3.len() ==> (#[trigger] gs[a].3[t])
                    < events@.len(),
            out@.len() == j,
            forall|a: int|
                0 <= a < j ==> {
                    let g = gs[a];
                    let d = #[trigger] out@[a];
                    let p = primary_member(events@, g.3);
                    &&& d.object_type@ == g.1
                    &&& d.object_id@ == g.2
                    &&& d.members@ == g.3
                    &&& d.primary == p
                    &&& d.dedupe_key@ == dedupe_key_spec(cluster_id, g.1, g.2)
                    &&& d.title@ == incident_title_spec(events@[p as int].title@, g.2)
                    &&& d.notice_level@ == notice_level_spec(events@[p as int].severity)
                },
        decreases n - j,
    {
        let ghost iv = group_views(input@);
        let g = input.remove(0);
        proof {
            assert(group_views(input@) =~= iv.drop_first());
            assert(gs.skip(j as int).drop_first() =~= gs.skip(j + 1));
            assert(iv[0] == gs[j as int]);
            assert(iv[0] == group_view(g));
            assert forall|t: int| 0 <= t < g.members@.len() implies (#[trigger] g.members@[t])
                < events@.len() by {
                assert(g.members@[t] == gs[j as int].3[t]);
            }
        }
        let p = primary_of(events, g.members.as_slice());
        let mut key = i64_string(cluster_id);
        key.append(":");
        key.append(g.object_type.as_str());
        key.append(":");
        key.append(g.object_id.as_str());
        let mut title = string_of(chars_of(events[p].title.as_str()).as_slice());
        title.append("（");
        title.append(g.object_id.as_str());
        title.append("）");
        let level = match events[p].severity {
            EventSeverity::Critical => String::from_str("critical"),
            _ => String::from_str("warning"),
        };
        proof {
            reveal_strlit("critical");
            reveal_strlit("warning");
        }
        out.push(
            IncidentDraft {
                object_type: g.object_type,
                object_id: g.object_id,
                members: g.members,
                primary: p,
                dedupe_key: key,
                title,
                notice_level: level,
            },
        );
        j += 1;
    }
    out
}

/// What escalation does with a group once the stored incidents with its key
/// are known.
#[derive(Debug, Clone, Copy, PartialEq, Eq)]
pub enum EscalationStep {
    /// An open or investigating incident exists: only link the events.
    LinkExisting(i64),
    /// A recently resolved or closed incident exists: reopen it.
    Reopen(i64),
    /// No incident with the key: create one.
    Create,
}

/// An active incident takes precedence over a reopenable one; without
/// either, a new incident is created.
pub fn escalation_step(active: Option<i64>, reopenable: Option<i64>) -> (r: EscalationStep)
    ensures
        r == (match active {
            Some(id) => EscalationStep::LinkExisting(id),
            None => match reopenable {
                Some(id) => EscalationStep::Reopen(id),
                None => EscalationStep::Create,
            },
        }),
{
    match active {
        Some(id) => EscalationStep::LinkExisting(id),
        None => match reopenable {
            Some(id) => EscalationStep::Reopen(id),
            None => EscalationStep::Create,
        },
    }
}

/// The incidents of this tick report themselves: a reopened or created one
/// is returned (and its events marked aggregated); a linked one is not.
pub fn step_raises_incident(step: EscalationStep) -> (r: bool)
    ensures
        r == !(step is LinkExisting),
{
    match step {
        EscalationStep::LinkExisting(_) => false,
        _ => true,
    }
}

// ---------------------------------------------------------------------------
// Investigation queue
// ---------------------------------------------------------------------------

/// `xs` without later repetitions (first occurrences kept, in order).
pub open spec fn first_occurrences(xs: Seq<i64>) -> Seq<i64>
    decreases xs.len(),
{
    if xs.len() == 0 {
        Seq::empty()
    } else {
        let r = first_occurrences(xs.drop_last());
        if r.contains(xs.last()) {
            r
        } else {
            r.push(xs.last())
        }
    }
}

/// The incidents to investigate this tick: those raised now, then those
/// still open without evidence that are not already queued, at most
/// `MAX_INVESTIGATE_PER_TICK` in all.
pub open spec fn investigation_queue_spec(raised: Seq<i64>, backlog: Seq<i64>) -> Seq<i64> {
    let q = raised + first_occurrences_after(raised, backlog);
    q.take(if q.len() < MAX_INVESTIGATE_PER_TICK {
        q.len() as int
    } else {
        MAX_INVESTIGATE_PER_TICK as int
    })
}

/// The backlog entries not in `queued` and not repeated, in order.
pub open spec fn first_occurrences_after(queued: Seq<i64>, backlog: Seq<i64>) -> Seq<i64>
    decreases backlog.len(),
{
    if backlog.len() == 0 {
        Seq::empty()
    } else {
        let r = first_occurrences_after(queued, backlog.drop_last());
        let x = backlog.last();
        if queued.contains(x) || r.contains(x) {
            r
        } else {
            r.push(x)
        }
    }
}

/// Orders the incidents to investigate this tick (see
/// `investigation_queue_spec`).
pub fn investigation_queue(raised: &[i64], backlog: &[i64]) -> (r: Vec<i64>)
    ensures
        r@ == investigation_queue_spec(raised@, backlog@),
{
    let mut q: Vec<i64> = Vec::new();
    let mut i: usize = 0;
    while i < raised.len()
        invariant
            i <= raised.len(),
            q@ == raised@.take(i as int),
        decreases raised.len() - i,
    {
        q.push(raised[i]);
        assert(raised@.take(i + 1) =~= raised@.take(i as int).push(raised@[i as int]));
        i += 1;
    }
    assert(raised@.take(raised.len() as int) =~= raised@);
    let mut k: usize = 0;
    while k < backlog.len()
        invariant
            k <= backlog.len(),
            q@ == raised@ + first_occurrences_after(raised@, backlog@.take(k as int)),
        decreases backlog.len() - k,
    {
        let x = backlog[k];
        proof {
            assert(backlog@.take(k + 1).drop_last() =~= backlog@.take(k as int));
            assert(backlog@.take(k + 1).last() == x);
        }
        let ghost r0 = first_occurrences_after(raised@, backlog@.take(k as int));
        let mut found = false;
        let mut t: usize = 0;
        while t < q.len()
            invariant
                t <= q@.len(),
                q@ == raised@ + r0,
                found == q@.take(t as int).contains(x),
            decreases q@.len() - t,
        {
            if q[t] == x {
                found = true;
            }
            proof {
                let a = q@.take(t as int);
                let b = q@.take(t + 1);
                assert(b =~= a.push(q@[t as int]));
                if a.contains(x) {
                    let w = choose|w: int| 0 <= w < a.len() && #[trigger] a[w] == x;
                    assert(b[w] == x);
                }
                if q@[t as int] == x {
                    assert(b[t as int] == x);
                }
                if b.contains(x) && q@[t as int] != x {
                    let w = choose|w: int| 0 <= w < b.len() && #[trigger] b[w] == x;
                    assert(a[w] == x);
                }
            }
            t += 1;
        }
        assert(q@.take(q@.len() as int) =~= q@);
        proof {
            if (raised@ + r0).contains(x) {
                let w = choose|w: int| 0 <= w < (raised@ + r0).len() && #[trigger] (raised@ + r0)[w] == x;
                if w < raised@.len() {
                    assert(raised@[w] == x);
                } else {
                    assert(r0[w - raised@.len()] == x);
                }
            }
            if raised@.contains(x) {
                let w = choose|w: int| 0 <= w < raised@.len() && #[trigger] raised@[w] == x;
                assert((raised@ + r0)[w] == x);
            }
            if r0.contains(x) {
                let w = choose|w: int| 0 <= w < r0.len() && #[trigger] r0[w] == x;
                assert((raised@ + r0)[raised@.len() + w] == x);
            }
        }
        if !found {
            q.push(x);
            assert((raised@ + r0).push(x) =~= raised@ + r0.push(x));
        }
        k += 1;
    }
    assert(backlog@.take(backlog.len() as int) =~= backlog@);
    let mut r: Vec<i64> = Vec::new();
    let mut m: usize = 0;
    while m < q.len() && m < MAX_INVESTIGATE_PER_TICK
        invariant
            m <= q@.len(),
            m <= MAX_INVESTIGATE_PER_TICK,
            r@ == q@.take(m as int),
        decreases q@.len() - m,
    {
        r.push(q[m]);
        assert(q@.take(m + 1) =~= q@.take(m as int).push(q@[m as int]));
        m += 1;
    }
    r
}

// ---------------------------------------------------------------------------
// Investigation and diagnosis details
// ---------------------------------------------------------------------------

/// The storage the metrics evidence describes, with the key of its usage
/// value: the data cache on shared-data clusters, the data disk otherwise.
pub fn storage_labels(shared_data: bool) -> (r: (&'static str, &'static str))
    ensures
        shared_data ==> r.0@ == "data_cache"@ && r.1@ == "data_cache_pct"@,
        !shared_data ==> r.0@ == "data_disk"@ && r.1@ == "disk_pct"@,
{
    if shared_data {
        ("data_cache", "data_cache_pct")
    } else {
        ("data_disk", "disk_pct")
    }
}

/// `s` without trailing `。` and spaces.
pub open spec fn strip_sentence_end(s: Seq<char>) -> Seq<char>
    decreases s.len(),
{
    if s.len() > 0 && (s.last() == '。' || s.last() == ' ') {
        strip_sentence_end(s.drop_last())
    } else {
        s
    }
}

/// A diagnosis summary extended with a capacity forecast sentence: an empty
/// forecast changes nothing, a blank summary is replaced, otherwise the
/// forecast follows the summary after one `。`.
pub open spec fn extended_summary(summary: Seq<char>, extra: Seq<char>) -> Seq<char> {
    if extra.len() == 0 {
        summary
    } else if trim(summary).len() == 0 {
        extra
    } else {
        strip_sentence_end(summary) + "。"@ + extra
    }
}

/// Appends a capacity forecast to a diagnosis summary (see
/// `extended_summary`).
pub fn extend_summary(summary: &str, extra: &str) -> (r: String)
    ensures
        r@ == extended_summary(summary@, extra@),
{
    if extra.is_empty() {
        return string_of(chars_of(summary).as_slice());
    }
    let s = chars_of(summary);
    let t = trim_exec(s.as_slice());
    if t.len() == 0 {
        return string_of(chars_of(extra).as_slice());
    }
    let mut n: usize = s.len();
    assert(s@.take(n as int) =~= s@);
    while n > 0 && (s[n - 1] == '。' || s[n - 1] == ' ')
        invariant
            n <= s@.len(),
            strip_sentence_end(s@) == strip_sentence_end(s@.take(n as int)),
        decreases n,
    {
        assert(s@.take(n as int).drop_last() =~= s@.take(n - 1));
        n -= 1;
    }
    let head = vstd::slice::slice_subrange(s.as_slice(), 0, n);
    assert(head@ =~= s@.take(n as int));
    let mut r = string_of(head);
    r.append("。");
    r.append(extra);
    r
}

// ---------------------------------------------------------------------------
// LLM hypotheses
// ---------------------------------------------------------------------------

/// The compact text of one evidence payload handed to the model: its first
/// 300 characters, `empty` when there is none.
pub fn evidence_summary_text(payload: &str) -> (r: String)
    ensures
        r@ == (if payload@.len() == 0 {
            "empty"@
        } else {
            truncated(payload@, 300)
        }),
{
    let t = truncate(payload, 300);
    if t.as_str().is_empty() {
        proof {
            if payload@.len() > 0 {
                reveal_strlit("...");
                assert(truncated(payload@, 300).len() > 0);
            }
        }
        String::from_str("empty")
    } else {
        t
    }
}

/// The recorded status of a hypothesis round: `rejected` when no
/// hypothesis survived validation, `completed` otherwise.
pub fn hypothesis_round_status(accepted: usize) -> (r: &'static str)
    ensures
        accepted == 0 ==> r@ == "rejected"@,
        accepted > 0 ==> r@ == "completed"@,
{
    if accepted == 0 {
        "rejected"
    } else {
        "completed"
    }
}

/// The reason recorded with a fallback answer.
pub const FALLBACK_REASON: &'static str = "llm_unavailable_or_rejected";

/// The rule diagnosis quoted by a fallback answer: the incident's summary,
/// or a note that the rules reached no conclusion.
pub fn fallback_rule_text(rule_summary: Option<&str>) -> (r: String)
    ensures
        match rule_summary {
            Some(s) => r@ == s@,
            None => r@ == "无规则诊断结论"@,
        },
{
    match rule_summary {
        Some(s) => String::from_str(s),
        None => String::from_str("无规则诊断结论"),
    }
}


/// How far an LLM analysis of an incident got.
#[derive(Debug, Clone)]
pub enum AnalysisOutcome {
    /// No active, enabled provider.
    ProviderUnavailable,
    /// The chat call failed with this error.
    CallFailed(String),
    /// The reply was parsed and validated; this many hypotheses survived.
    Validated(usize),
}

/// What an LLM analysis answers and records.
#[derive(Debug, Clone)]
pub struct AnalysisPlan {
    /// The status of the recorded decision.
    pub status: &'static str,
    /// The answer is the rule fallback (the rule summary, no hypotheses).
    pub fallback: bool,
    /// The error recorded with the decision.
    pub error: Option<String>,
    /// The surviving hypotheses are merged into the incident's output; when
    /// false the incident's output is left as it was.
    pub update_incident: bool,
}

/// The status recorded for a hypothesis round with `accepted` survivors.
pub open spec fn round_status(accepted: nat) -> Seq<char> {
    if accepted == 0 {
        "rejected"@
    } else {
        "completed"@
    }
}

/// The decision of an LLM analysis: without a usable provider, or when the
/// call fails, the answer falls back to the rule diagnosis and the decision
/// is rejected with the reason; after validation the decision is rejected
/// when no hypothesis survived and completed otherwise, and only surviving
/// hypotheses are merged into the incident (none surviving leaves its
/// output unchanged).
pub fn analysis_plan(o: AnalysisOutcome) -> (r: AnalysisPlan)
    ensures
        match o {
            AnalysisOutcome::ProviderUnavailable => {
                &&& r.status@ == "rejected"@
                &&& r.fallback
                &&& r.error matches Some(e) && e@ == "LLM Provider 未配置或不可用"@
                &&& !r.update_incident
            },
            AnalysisOutcome::CallFailed(err) => {
                &&& r.status@ == "rejected"@
                &&& r.fallback
                &&& r.error matches Some(e) && e@ == "LLM 调用失败: "@ + err@
                &&& !r.update_incident
            },
            AnalysisOutcome::Validated(n) => {
                &&& r.status@ == round_status(n as nat)
                &&& !r.fallback
                &&& r.error is None
                &&& r.update_incident == (n > 0)
            },
        },
{
    match o {
        AnalysisOutcome::ProviderUnavailable => AnalysisPlan {
            status: "rejected",
            fallback: true,
            error: Some(String::from_str("LLM Provider 未配置或不可用")),
            update_incident: false,
        },
        AnalysisOutcome::CallFailed(err) => AnalysisPlan {
            status: "rejected",
            fallback: true,
            error: Some(crate::text::concat2("LLM 调用失败: ", err.as_str())),
            update_incident: false,
        },
        AnalysisOutcome::Validated(n) => {
            let status = hypothesis_round_status(n);
            AnalysisPlan { status, fallback: false, error: None, update_incident: n > 0 }
        },
    }
}

} // verus!
