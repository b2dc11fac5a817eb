//! Rule diagnosis: a fixed playbook maps the kinds of an incident's active
//! events to a root cause, a confidence and suggested actions.
//!
//! Priority: node failure > capacity > compaction > load > write > query
//! performance. A critical event adds 0.05 to the confidence, capped at 0.98.
//! Confidences are kept in thousandths.

use vstd::prelude::*;
use vstd::string::*;
use crate::agent::converge::EventRow;
use crate::agent::models::{kind_name, EventKind, EventSeverity};
use crate::text::{append_chars, i64_dec, int_dec, join};

verus! {

/// A suggested action of a diagnosis (advice only, never executed).
#[derive(Debug, Clone)]
pub struct DiagnosisAction {
    pub title: String,
    pub detail: String,
    /// `low`, `medium` or `high`.
    pub risk_level: String,
}

/// The outcome of rule diagnosis.
#[derive(Debug, Clone)]
pub struct DiagnosisOutcome {
    pub root_cause_type: String,
    /// Confidence in thousandths (0.9 is 900).
    pub confidence_permille: u32,
    pub summary: String,
    pub actions: Vec<DiagnosisAction>,
}

/// The playbooks, in priority order.
#[derive(Debug, Clone, Copy, PartialEq, Eq, Structural)]
pub enum Playbook {
    NodeFailure,
    Capacity,
    CompactionBacklog,
    LoadBacklog,
    WriteAnomaly,
    QueryPerformance,
    Unknown,
}

/// Some event of the list has this kind.
pub open spec fn has_kind(events: Seq<EventRow>, k: EventKind) -> bool {
    exists|i: int| 0 <= i < events.len() && #[trigger] events[i].kind == k
}

/// Some event of the list is critical.
pub open spec fn has_critical(events: Seq<EventRow>) -> bool {
    exists|i: int| 0 <= i < events.len() && #[trigger] events[i].severity == EventSeverity::Critical
}

/// The playbook that the event kinds select.
pub open spec fn playbook_of(events: Seq<EventRow>) -> Playbook {
    if has_kind(events, EventKind::NodeDown) {
        Playbook::NodeFailure
    } else if has_kind(events, EventKind::DiskPressure) {
        Playbook::Capacity
    } else if has_kind(events, EventKind::Compaction) {
        Playbook::CompactionBacklog
    } else if has_kind(events, EventKind::LoadBacklog) {
        Playbook::LoadBacklog
    } else if has_kind(events, EventKind::TxnError) {
        Playbook::WriteAnomaly
    } else if has_kind(events, EventKind::MetricBreach) || has_kind(events, EventKind::SlowQuery) {
        Playbook::QueryPerformance
    } else {
        Playbook::Unknown
    }
}

/// The stored root-cause name of a playbook.
pub open spec fn root_cause_name(p: Playbook) -> Seq<char> {
    match p {
        Playbook::NodeFailure => "node_failure"@,
        Playbook::Capacity => "capacity"@,
        Playbook::CompactionBacklog => "compaction_backlog"@,
        Playbook::LoadBacklog => "load_backlog"@,
        Playbook::WriteAnomaly => "write_anomaly"@,
        Playbook::QueryPerformance => "query_performance"@,
        Playbook::Unknown => "unknown"@,
    }
}

/// Base confidence (thousandths) of a playbook.
pub open spec fn base_confidence(p: Playbook, critical: bool) -> int {
    match p {
        Playbook::NodeFailure => 900,
        Playbook::Capacity => if critical {
            950
        } else {
            850
        },
        Playbook::CompactionBacklog => 850,
        Playbook::LoadBacklog => 800,
        Playbook::WriteAnomaly => 750,
        Playbook::QueryPerformance => 700,
        Playbook::Unknown => 500,
    }
}

/// Final confidence (thousandths): base, plus 50 with a critical event,
/// capped at 980.
pub open spec fn confidence_of(events: Seq<EventRow>) -> int {
    let c = has_critical(events);
    let raw = base_confidence(playbook_of(events), c) + if c {
        50int
    } else {
        0int
    };
    if raw < 980 {
        raw
    } else {
        980
    }
}

/// Summary of a playbook.
pub open spec fn summary_of(p: Playbook) -> Seq<char> {
    match p {
        Playbook::NodeFailure => "计算节点离线，优先处理节点故障：检查节点进程、网络与磁盘状态。"@,
        Playbook::Capacity => "磁盘水位超警戒，容量压力是当前主要风险：清理数据、检查副本分配与扩容。"@,
        Playbook::CompactionBacklog => "Compaction Score 偏高，compaction 积压拖慢合并与查询。"@,
        Playbook::LoadBacklog => "导入任务积压，写入链路存在瓶颈（磁盘/compaction/节点负载）。"@,
        Playbook::WriteAnomaly => "事务失败激增，写入链路异常（节点/网络/并发冲突）。"@,
        Playbook::QueryPerformance => "查询错误/超时或慢查询增多，访问性能问题：结合慢查询取证与 Profile 分析定位。"@,
        Playbook::Unknown => "当前事件组合未命中已知剧本，建议扩大取证范围或人工介入。"@,
    }
}

/// Model of a suggested action: (title, detail, risk level).
pub open spec fn action_view(a: DiagnosisAction) -> (Seq<char>, Seq<char>, Seq<char>) {
    (a.title@, a.detail@, a.risk_level@)
}

/// Suggested actions of a playbook.
pub open spec fn actions_of(p: Playbook) -> Seq<(Seq<char>, Seq<char>, Seq<char>)> {
    match p {
        Playbook::NodeFailure => seq![
            (
                "检查离线节点"@,
                "登录对应节点主机确认进程存活（进程与日志），检查磁盘剩余空间与网络连通性。"@,
                "low"@,
            ),
            (
                "观察恢复与负载分配"@,
                "节点恢复后核对存活节点数回到节点总数，确认数据分布均衡与查询无异常。"@,
                "low"@,
            ),
        ],
        Playbook::Capacity => seq![
            (
                "清理过期数据与垃圾文件"@,
                "检查 BE 数据目录 trash 清理策略、过期分区/TTL，必要时下线低热度表数据。"@,
                "medium"@,
            ),
            (
                "评估扩容或副本均衡"@,
                "磁盘使用率 ≥90% 时优先扩容；确认 tablet 在 BE 间均衡分布。"@,
                "medium"@,
            ),
        ],
        Playbook::CompactionBacklog => seq![
            (
                "检查磁盘 IO 与 compaction 并发"@,
                "确认 BE 磁盘 IO 未饱和；compaction score 持续高位时评估调整 max_compaction_concurrency。"@,
                "low"@,
            ),
            (
                "观察 score 趋势"@,
                "compaction score 应随积压处理逐步回落，连续多轮高位需人工介入。"@,
                "low"@,
            ),
        ],
        Playbook::LoadBacklog => seq![
            (
                "定位积压瓶颈"@,
                "核对 BE 磁盘水位、compaction score 与负载；确认导入并发配置是否合理。"@,
                "low"@,
            ),
        ],
        Playbook::WriteAnomaly => seq![
            (
                "检查写入链路与节点健康"@,
                "查看事务失败明细、BE 存活与磁盘状态，确认是否存在节点级故障。"@,
                "medium"@,
            ),
        ],
        Playbook::QueryPerformance => seq![
            (
                "分析慢查询与 Profile"@,
                "对照取证阶段的审计/Profile 证据，定位热点 SQL 与资源瓶颈。"@,
                "low"@,
            ),
        ],
        Playbook::Unknown => seq![],
    }
}

fn action(title: &str, detail: &str, risk: &str) -> (r: DiagnosisAction)
    ensures
        action_view(r) == (title@, detail@, risk@),
{
    DiagnosisAction {
        title: String::from_str(title),
        detail: String::from_str(detail),
        risk_level: String::from_str(risk),
    }
}

fn find_kind(events: &[EventRow], k: EventKind) -> (r: bool)
    ensures
        r == has_kind(events@, k),
{
    let mut i: usize = 0;
    while i < events.len()
        invariant
            i <= events.len(),
            forall|j: int| 0 <= j < i ==> events@[j].kind != k,
        decreases events.len() - i,
    {
        if events[i].kind == k {
            return true;
        }
        i += 1;
    }
    false
}

fn find_critical(events: &[EventRow]) -> (r: bool)
    ensures
        r == has_critical(events@),
{
    let mut i: usize = 0;
    while i < events.len()
        invariant
            i <= events.len(),
            forall|j: int| 0 <= j < i ==> events@[j].severity != EventSeverity::Critical,
        decreases events.len() - i,
    {
        if events[i].severity == EventSeverity::Critical {
            return true;
        }
        i += 1;
    }
    false
}

/// The playbook selected by a set of active events.
pub fn select_playbook(events: &[EventRow]) -> (r: Playbook)
    ensures
        r == playbook_of(events@),
{
    if find_kind(events, EventKind::NodeDown) {
        Playbook::NodeFailure
    } else if find_kind(events, EventKind::DiskPressure) {
        Playbook::Capacity
    } else if find_kind(events, EventKind::Compaction) {
        Playbook::CompactionBacklog
    } else if find_kind(events, EventKind::LoadBacklog) {
        Playbook::LoadBacklog
    } else if find_kind(events, EventKind::TxnError) {
        Playbook::WriteAnomaly
    } else if find_kind(events, EventKind::MetricBreach) || find_kind(
        events,
        EventKind::SlowQuery,
    ) {
        Playbook::QueryPerformance
    } else {
        Playbook::Unknown
    }
}

/// Deterministic diagnosis of an incident from its active events.
pub fn diagnose(events: &[EventRow]) -> (r: DiagnosisOutcome)
    ensures
        r.root_cause_type@ == root_cause_name(playbook_of(events@)),
        r.confidence_permille as int == confidence_of(events@),
        r.summary@ == summary_of(playbook_of(events@)),
        r.actions@.map_values(|a: DiagnosisAction| action_view(a)) == actions_of(
            playbook_of(events@),
        ),
{
    let critical = find_critical(events);
    let p = select_playbook(events);
    let mut actions: Vec<DiagnosisAction> = Vec::new();
    let (name, base, summary): (&str, u32, &str) = match p {
        Playbook::NodeFailure => {
            actions.push(action("检查离线节点", "登录对应节点主机确认进程存活（进程与日志），检查磁盘剩余空间与网络连通性。", "low"));
            actions.push(action("观察恢复与负载分配", "节点恢复后核对存活节点数回到节点总数，确认数据分布均衡与查询无异常。", "low"));
            ("node_failure", 900, "计算节点离线，优先处理节点故障：检查节点进程、网络与磁盘状态。")
        },
        Playbook::Capacity => {
            actions.push(action("清理过期数据与垃圾文件", "检查 BE 数据目录 trash 清理策略、过期分区/TTL，必要时下线低热度表数据。", "medium"));
            actions.push(action("评估扩容或副本均衡", "磁盘使用率 ≥90% 时优先扩容；确认 tablet 在 BE 间均衡分布。", "medium"));
            ("capacity", if critical { 950 } else { 850 }, "磁盘水位超警戒，容量压力是当前主要风险：清理数据、检查副本分配与扩容。")
        },
        Playbook::CompactionBacklog => {
            actions.push(action("检查磁盘 IO 与 compaction 并发", "确认 BE 磁盘 IO 未饱和；compaction score 持续高位时评估调整 max_compaction_concurrency。", "low"));
            actions.push(action("观察 score 趋势", "compaction score 应随积压处理逐步回落，连续多轮高位需人工介入。", "low"));
            ("compaction_backlog", 850, "Compaction Score 偏高，compaction 积压拖慢合并与查询。")
        },
        Playbook::LoadBacklog => {
            actions.push(action("定位积压瓶颈", "核对 BE 磁盘水位、compaction score 与负载；确认导入并发配置是否合理。", "low"));
            ("load_backlog", 800, "导入任务积压，写入链路存在瓶颈（磁盘/compaction/节点负载）。")
        },
        Playbook::WriteAnomaly => {
            actions.push(action("检查写入链路与节点健康", "查看事务失败明细、BE 存活与磁盘状态，确认是否存在节点级故障。", "medium"));
            ("write_anomaly", 750, "事务失败激增，写入链路异常（节点/网络/并发冲突）。")
        },
        Playbook::QueryPerformance => {
            actions.push(action("分析慢查询与 Profile", "对照取证阶段的审计/Profile 证据，定位热点 SQL 与资源瓶颈。", "low"));
            ("query_performance", 700, "查询错误/超时或慢查询增多，访问性能问题：结合慢查询取证与 Profile 分析定位。")
        },
        Playbook::Unknown => {
            ("unknown", 500, "当前事件组合未命中已知剧本，建议扩大取证范围或人工介入。")
        },
    };
    assert(actions@.map_values(|a: DiagnosisAction| action_view(a)) =~= actions_of(p));
    let raw: u32 = base + if critical { 50 } else { 0 };
    let confidence: u32 = if raw < 980 { raw } else { 980 };
    DiagnosisOutcome {
        root_cause_type: String::from_str(name),
        confidence_permille: confidence,
        summary: String::from_str(summary),
        actions,
    }
}

/// The confidence of a diagnosis never exceeds 0.98 and never falls below
/// 0.5.
pub proof fn law_confidence_bounds(events: Seq<EventRow>)
    ensures
        500 <= confidence_of(events) <= 980,
{
}

/// A node-down event always selects the node-failure playbook, whatever
/// else is present.
pub proof fn law_node_failure_first(events: Seq<EventRow>)
    requires
        has_kind(events, EventKind::NodeDown),
    ensures
        playbook_of(events) == Playbook::NodeFailure,
{
}

/// Without events, the diagnosis is unknown with a confidence below the
/// 0.8 level at which playbooks are trusted.
pub proof fn law_no_events_unknown()
    ensures
        playbook_of(Seq::<EventRow>::empty()) == Playbook::Unknown,
        confidence_of(Seq::<EventRow>::empty()) < 800,
{
}

/// For the same event kinds, a capacity diagnosis with a critical event is
/// more confident than one without.
pub proof fn law_critical_capacity_more_confident(a: Seq<EventRow>, b: Seq<EventRow>)
    requires
        playbook_of(a) == Playbook::Capacity,
        playbook_of(b) == Playbook::Capacity,
        has_critical(a),
        !has_critical(b),
    ensures
        confidence_of(a) > confidence_of(b),
{
}

// ---------------------------------------------------------------------------
// Input digest
// ---------------------------------------------------------------------------

/// The decimal ids of the events.
pub open spec fn id_texts(events: Seq<EventRow>) -> Seq<Seq<char>> {
    events.map_values(|e: EventRow| int_dec(e.id as int))
}

/// The quoted kind names of the events.
pub open spec fn kind_texts(events: Seq<EventRow>) -> Seq<Seq<char>> {
    events.map_values(|e: EventRow| "\""@ + kind_name(e.kind) + "\""@)
}

/// The input digest: compact JSON `{"event_ids":[..],"kinds":[..]}`.
pub open spec fn digest_text(events: Seq<EventRow>) -> Seq<char> {
    "{\"event_ids\":["@ + join(id_texts(events), ","@) + "],\"kinds\":["@ + join(
        kind_texts(events),
        ","@,
    ) + "]}"@
}

/// The input digest of a diagnosis (event ids and kinds as compact JSON),
/// recorded for decision auditing.
pub fn digest_of(events: &[EventRow]) -> (r: String)
    ensures
        r@ == digest_text(events@),
{
    let mut r = String::from_str("{\"event_ids\":[");
    let ghost r0 = r@;
    let mut i: usize = 0;
    while i < events.len()
        invariant
            i <= events.len(),
            r@ == r0 + join(id_texts(events@.take(i as int)), ","@),
        decreases events.len() - i,
    {
        let d = i64_dec(events[i].id);
        proof {
            assert(id_texts(events@.take(i + 1)).drop_last() =~= id_texts(events@.take(i as int)));
            assert(id_texts(events@.take(i + 1)).last() == int_dec(events@[i as int].id as int));
        }
        if i > 0 {
            r.append(",");
        }
        append_chars(&mut r, d.as_slice());
        proof {
            if i == 0 {
                assert(id_texts(events@.take(1)).len() == 1);
                assert(join(id_texts(events@.take(1)), ","@) == id_texts(events@.take(1))[0]);
            }
        }
        i += 1;
    }
    assert(events@.take(events.len() as int) =~= events@);
    r.append("],\"kinds\":[");
    let ghost r1 = r@;
    let mut i: usize = 0;
    while i < events.len()
        invariant
            i <= events.len(),
            r@ == r1 + join(kind_texts(events@.take(i as int)), ","@),
        decreases events.len() - i,
    {
        proof {
            assert(kind_texts(events@.take(i + 1)).drop_last() =~= kind_texts(
                events@.take(i as int),
            ));
        }
        if i > 0 {
            r.append(",");
        }
        r.append("\"");
        r.append(events[i].kind.as_str());
        r.append("\"");
        proof {
            if i == 0 {
                assert(join(kind_texts(events@.take(1)), ","@) == kind_texts(events@.take(1))[0]);
            }
        }
        i += 1;
    }
    r.append("]}");
    r
}


/// The playbook follows the documented priority of conditions: node
/// failure, then capacity, then compaction backlog, then load backlog, then
/// write anomalies, then query performance. Each playbook is chosen exactly
/// when an event of its condition is present and none of a higher one; in
/// particular disk pressure without a node down is diagnosed as capacity
/// (root cause `capacity`) whatever else is present.
pub proof fn law_playbook_priority(events: Seq<EventRow>)
    ensures
        has_kind(events, EventKind::NodeDown) <==> playbook_of(events) == Playbook::NodeFailure,
        (has_kind(events, EventKind::DiskPressure) && !has_kind(events, EventKind::NodeDown))
            <==> playbook_of(events) == Playbook::Capacity,
        (has_kind(events, EventKind::Compaction) && !has_kind(events, EventKind::NodeDown)
            && !has_kind(events, EventKind::DiskPressure)) <==> playbook_of(events)
            == Playbook::CompactionBacklog,
        (has_kind(events, EventKind::LoadBacklog) && !has_kind(events, EventKind::NodeDown)
            && !has_kind(events, EventKind::DiskPressure) && !has_kind(events, EventKind::Compaction))
            <==> playbook_of(events) == Playbook::LoadBacklog,
        (has_kind(events, EventKind::TxnError) && !has_kind(events, EventKind::NodeDown)
            && !has_kind(events, EventKind::DiskPressure) && !has_kind(events, EventKind::Compaction)
            && !has_kind(events, EventKind::LoadBacklog)) <==> playbook_of(events)
            == Playbook::WriteAnomaly,
        has_kind(events, EventKind::DiskPressure) && !has_kind(events, EventKind::NodeDown) ==> root_cause_name(
            playbook_of(events),
        ) == "capacity"@,
        has_kind(events, EventKind::DiskPressure) && !has_kind(events, EventKind::NodeDown) && !has_critical(
            events,
        ) ==> confidence_of(events) == 850,
{
}

/// The confidence of a rule diagnosis by its deciding condition (in
/// thousandths): node failure 0.9, capacity 0.85, compaction backlog 0.85,
/// load backlog 0.8, write anomaly 0.75, query performance 0.7, unknown
/// 0.5; a critical event raises capacity to 0.95 and then every diagnosis
/// by 0.05, never above 0.98.
pub proof fn law_confidence_by_condition(events: Seq<EventRow>)
    ensures
        ({
            let c = has_critical(events);
            let nd = has_kind(events, EventKind::NodeDown);
            let dp = has_kind(events, EventKind::DiskPressure);
            let cp = has_kind(events, EventKind::Compaction);
            let lb = has_kind(events, EventKind::LoadBacklog);
            let tx = has_kind(events, EventKind::TxnError);
            let qp = has_kind(events, EventKind::MetricBreach) || has_kind(events, EventKind::SlowQuery);
            &&& nd ==> confidence_of(events) == (if c { 950int } else { 900int })
            &&& !nd && dp ==> confidence_of(events) == (if c { 980int } else { 850int })
            &&& !nd && !dp && cp ==> confidence_of(events) == (if c { 900int } else { 850int })
            &&& !nd && !dp && !cp && lb ==> confidence_of(events) == (if c { 850int } else { 800int })
            &&& !nd && !dp && !cp && !lb && tx ==> confidence_of(events) == (if c { 800int } else { 750int })
            &&& !nd && !dp && !cp && !lb && !tx && qp ==> confidence_of(events) == (if c { 750int } else { 700int })
            &&& !nd && !dp && !cp && !lb && !tx && !qp ==> confidence_of(events) == (if c { 550int } else { 500int })
        }),
{
}
} // verus!
