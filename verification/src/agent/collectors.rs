//! Event collection: turning a metrics snapshot (and its predecessor), the
//! node list and the slow-query sample of one cluster into event candidates,
//! plus the fingerprints whose threshold state has cleared.
//!
//! Thresholds: disk usage warning at 80 % and critical at 90 %, compaction
//! score warning above 50 and critical above 100, a load backlog from 10
//! running loads, a burst from 5 new transaction failures or query errors per
//! tick. Percentages and scores are fixed-point values in hundredths.

use vstd::prelude::*;
use vstd::string::*;
use crate::agent::models::{kind_name, EventKind, EventSeverity};
use crate::ai::types::{truncate, truncated};
use crate::text::{
    append_chars, ascii_lower, chars_of, eq_ignore_ascii_case, i64_dec, i64_string, int_dec,
    one_decimal, one_decimal_exec, seq_eq, string_of, to_ascii_lower, trim, trim_exec,
};

verus! {

/// Disk usage (hundredths of a percent) from which disk pressure is reported.
pub const DISK_WARNING_HUNDREDTHS: i64 = 8000;

/// Disk usage (hundredths of a percent) from which disk pressure is critical.
pub const DISK_CRITICAL_HUNDREDTHS: i64 = 9000;

/// Compaction score (hundredths) above which a backlog is reported.
pub const COMPACTION_WARNING_HUNDREDTHS: i64 = 5000;

/// Compaction score (hundredths) above which the backlog is critical.
pub const COMPACTION_CRITICAL_HUNDREDTHS: i64 = 10000;

/// Running loads from which the load queue counts as a backlog.
pub const LOAD_BACKLOG_THRESHOLD: i32 = 10;

/// Per-tick increment of failures or errors that counts as a burst.
pub const INCREMENT_DELTA: i64 = 5;

/// Slow-query ingestion threshold in milliseconds.
pub const SLOW_QUERY_MS: i64 = 5000;

/// Look-back window of the slow-query sample, in hours.
pub const SLOW_QUERY_WINDOW_HOURS: i64 = 2;

/// Minutes within which events of one fingerprint are merged.
pub const CONVERGE_WINDOW_MIN: i64 = 5;

/// Slow queries taken per tick at most.
pub const MAX_SLOW_PER_TICK: usize = 3;

/// A metric value attached to an event.
#[derive(Debug, Clone, Copy, PartialEq, Eq, Structural)]
pub enum MetricValue {
    /// A plain integer.
    Int(i64),
    /// A fixed-point number counted in hundredths.
    Hundredths(i64),
}

/// One named metric of an event.
#[derive(Debug, Clone)]
pub struct Metric {
    pub name: String,
    pub value: MetricValue,
}

/// An event candidate produced by collection (not yet stored or merged).
#[derive(Debug, Clone)]
pub struct EventCandidate {
    pub fingerprint: String,
    pub kind: EventKind,
    pub severity: EventSeverity,
    pub object_type: Option<String>,
    pub object_id: Option<String>,
    pub title: String,
    pub summary: String,
    pub metrics: Vec<Metric>,
    /// The persistent condition of this fingerprint has cleared this tick.
    pub cleared: bool,
}

/// Mathematical model of an event candidate.
pub struct CandidateView {
    pub fingerprint: Seq<char>,
    pub kind: EventKind,
    pub severity: EventSeverity,
    pub object_type: Option<Seq<char>>,
    pub object_id: Option<Seq<char>>,
    pub title: Seq<char>,
    pub summary: Seq<char>,
    pub metrics: Seq<(Seq<char>, MetricValue)>,
    pub cleared: bool,
}

/// The text of an optional string.
pub open spec fn opt_view(o: Option<String>) -> Option<Seq<char>> {
    match o {
        Some(s) => Some(s@),
        None => None,
    }
}

/// The model of a list of metrics.
pub open spec fn metrics_view(m: Seq<Metric>) -> Seq<(Seq<char>, MetricValue)> {
    m.map_values(|x: Metric| (x.name@, x.value))
}

impl View for EventCandidate {
    type V = CandidateView;

    open spec fn view(&self) -> CandidateView {
        CandidateView {
            fingerprint: self.fingerprint@,
            kind: self.kind,
            severity: self.severity,
            object_type: opt_view(self.object_type),
            object_id: opt_view(self.object_id),
            title: self.title@,
            summary: self.summary@,
            metrics: metrics_view(self.metrics@),
            cleared: self.cleared,
        }
    }
}

/// The models of a list of candidates.
pub open spec fn candidates_view(c: Seq<EventCandidate>) -> Seq<CandidateView> {
    c.map_values(|x: EventCandidate| x@)
}

/// The texts of a list of strings.
pub open spec fn strings_view(c: Seq<String>) -> Seq<Seq<char>> {
    c.map_values(|x: String| x@)
}

/// Result of one collection: new candidates and the fingerprints whose
/// condition has cleared.
pub struct CollectOutcome {
    pub candidates: Vec<EventCandidate>,
    pub cleared_fingerprints: Vec<String>,
}

/// Model of a collection result.
pub struct OutcomeView {
    pub candidates: Seq<CandidateView>,
    pub cleared: Seq<Seq<char>>,
}

impl View for CollectOutcome {
    type V = OutcomeView;

    open spec fn view(&self) -> OutcomeView {
        OutcomeView {
            candidates: candidates_view(self.candidates@),
            cleared: strings_view(self.cleared_fingerprints@),
        }
    }
}

// ---------------------------------------------------------------------------
// Fingerprints, liveness, node context
// ---------------------------------------------------------------------------

/// The merge key of an event: `{kind}:{object_type}:{object_id}`.
pub open spec fn fingerprint_of(kind: EventKind, object_type: Seq<char>, object_id: Seq<char>) -> Seq<
    char,
> {
    kind_name(kind) + ":"@ + object_type + ":"@ + object_id
}

/// The merge key of an event: `{kind}:{object_type}:{object_id}` (the cluster
/// is fixed by the query that uses it).
pub fn fingerprint(kind: EventKind, object_type: &str, object_id: &str) -> (r: String)
    ensures
        r@ == fingerprint_of(kind, object_type@, object_id@),
{
    let mut r = String::from_str(kind.as_str());
    r.append(":");
    r.append(object_type);
    r.append(":");
    r.append(object_id);
    r
}

/// A node liveness flag as reported by the cluster (`true` in any ASCII case,
/// or `1`, surrounding white space ignored).
pub open spec fn alive_flag(s: Seq<char>) -> bool {
    ascii_lower(trim(s)) == "true"@ || trim(s) == "1"@
}

/// Whether a node liveness flag means the node is up.
pub fn is_alive(s: &str) -> (r: bool)
    ensures
        r == alive_flag(s@),
{
    let v = chars_of(s);
    let t = trim_exec(v.as_slice());
    let yes = chars_of("true");
    let one = chars_of("1");
    let lower = to_ascii_lower(t.as_slice());
    proof {
        assert(ascii_lower("true"@) =~= "true"@) by {
            reveal_strlit("true");
        }
    }
    let a = eq_ignore_ascii_case(t.as_slice(), yes.as_slice());
    let b = seq_eq(t.as_slice(), one.as_slice());
    let _ = lower;
    a || b
}

/// Object type and display label of compute nodes: `cn`/`CN` on shared-data
/// clusters, `be`/`BE` otherwise.
pub open spec fn node_context(shared_data: bool) -> (Seq<char>, Seq<char>) {
    if shared_data {
        ("cn"@, "CN"@)
    } else {
        ("be"@, "BE"@)
    }
}

/// Object type and display label of the compute nodes of a cluster.
pub fn compute_node_context(shared_data: bool) -> (r: (&'static str, &'static str))
    ensures
        (r.0@, r.1@) == node_context(shared_data),
{
    if shared_data {
        ("cn", "CN")
    } else {
        ("be", "BE")
    }
}

/// Summary line of a load backlog of `n` running loads.
pub open spec fn load_backlog_text(shared_data: bool, n: int) -> Seq<char> {
    if shared_data {
        int_dec(n) + " 个导入任务积压，检查 CN 负载与对象存储写入状态"@
    } else {
        int_dec(n) + " 个导入任务积压，检查 BE 磁盘/compaction 状态"@
    }
}

/// Summary line of a load backlog: on shared-data clusters loads are bounded
/// by the CN nodes and the object store, otherwise by BE disks and compaction.
pub fn load_backlog_summary(shared_data: bool, load_running: i32) -> (r: String)
    ensures
        r@ == load_backlog_text(shared_data, load_running as int),
{
    let n = i64_dec(load_running as i64);
    let mut r = string_of(n.as_slice());
    if shared_data {
        r.append(" 个导入任务积压，检查 CN 负载与对象存储写入状态");
    } else {
        r.append(" 个导入任务积压，检查 BE 磁盘/compaction 状态");
    }
    r
}

// ---------------------------------------------------------------------------
// Candidates and threshold breaches
// ---------------------------------------------------------------------------

/// The candidate built from its parts (never marked cleared).
pub open spec fn candidate_of(
    kind: EventKind,
    severity: EventSeverity,
    object_type: Seq<char>,
    object_id: Seq<char>,
    title: Seq<char>,
    summary: Seq<char>,
    metrics: Seq<(Seq<char>, MetricValue)>,
) -> CandidateView {
    CandidateView {
        fingerprint: fingerprint_of(kind, object_type, object_id),
        kind,
        severity,
        object_type: Some(object_type),
        object_id: Some(object_id),
        title,
        summary,
        metrics,
        cleared: false,
    }
}

/// Builds an event candidate for an object.
pub fn make_candidate(
    kind: EventKind,
    severity: EventSeverity,
    object_type: &str,
    object_id: &str,
    title: String,
    summary: String,
    metrics: Vec<Metric>,
) -> (r: EventCandidate)
    ensures
        r@ == candidate_of(
            kind,
            severity,
            object_type@,
            object_id@,
            title@,
            summary@,
            metrics_view(metrics@),
        ),
{
    EventCandidate {
        fingerprint: fingerprint(kind, object_type, object_id),
        kind,
        severity,
        object_type: Some(String::from_str(object_type)),
        object_id: Some(String::from_str(object_id)),
        title,
        summary,
        metrics,
        cleared: false,
    }
}

/// Parameters of a threshold event.
pub struct BreachSpec<'a> {
    pub kind: EventKind,
    pub active: bool,
    pub severity: EventSeverity,
    pub object_type: &'a str,
    pub object_id: &'a str,
    pub title: String,
    pub summary: String,
    pub metrics: Vec<Metric>,
}

/// Effect of a threshold check on a collection result: an active breach adds
/// a candidate (so a persisting breach keeps accumulating on its stored
/// event); only a breach that has receded lists its fingerprint as cleared.
pub open spec fn breach_step(
    o: OutcomeView,
    kind: EventKind,
    active: bool,
    severity: EventSeverity,
    object_type: Seq<char>,
    object_id: Seq<char>,
    title: Seq<char>,
    summary: Seq<char>,
    metrics: Seq<(Seq<char>, MetricValue)>,
) -> OutcomeView {
    OutcomeView {
        candidates: if active {
            o.candidates.push(
                candidate_of(kind, severity, object_type, object_id, title, summary, metrics),
            )
        } else {
            o.candidates
        },
        cleared: if active {
            o.cleared
        } else {
            o.cleared.push(fingerprint_of(kind, object_type, object_id))
        },
    }
}

/// Records a threshold check: an active breach becomes an event candidate;
/// a breach that has receded marks its fingerprint cleared.
pub fn push_breach(outcome: &mut CollectOutcome, spec: BreachSpec<'_>)
    ensures
        final(outcome)@ == breach_step(
            old(outcome)@,
            spec.kind,
            spec.active,
            spec.severity,
            spec.object_type@,
            spec.object_id@,
            spec.title@,
            spec.summary@,
            metrics_view(spec.metrics@),
        ),
{
    if !spec.active {
        let fp = fingerprint(spec.kind, spec.object_type, spec.object_id);
        outcome.cleared_fingerprints.push(fp);
    } else {
        let c = make_candidate(
            spec.kind,
            spec.severity,
            spec.object_type,
            spec.object_id,
            spec.title,
            spec.summary,
            spec.metrics,
        );
        outcome.candidates.push(c);
    }
    proof {
        assert(final(outcome)@.cleared =~= breach_step(
            old(outcome)@,
            spec.kind,
            spec.active,
            spec.severity,
            spec.object_type@,
            spec.object_id@,
            spec.title@,
            spec.summary@,
            metrics_view(spec.metrics@),
        ).cleared);
        assert(final(outcome)@.candidates =~= breach_step(
            old(outcome)@,
            spec.kind,
            spec.active,
            spec.severity,
            spec.object_type@,
            spec.object_id@,
            spec.title@,
            spec.summary@,
            metrics_view(spec.metrics@),
        ).candidates);
    }
}

// ---------------------------------------------------------------------------
// Snapshot evaluation
// ---------------------------------------------------------------------------

/// The fields of a metrics snapshot that collection reads.
#[derive(Debug, Clone, Copy)]
pub struct MetricsSnapshot {
    pub backend_alive: i32,
    pub backend_total: i32,
    /// Disk usage in hundredths of a percent.
    pub disk_usage_hundredths: i64,
    /// Highest compaction score in hundredths.
    pub max_compaction_hundredths: i64,
    pub txn_failed_total: i64,
    pub load_running: i32,
    pub query_error: i64,
    pub query_timeout: i64,
}

/// A node of the cluster as reported by its frontend.
#[derive(Debug, Clone)]
pub struct BackendStatus {
    pub host: String,
    pub alive: String,
}

/// A slow query from the audit log.
#[derive(Debug, Clone)]
pub struct SlowQuerySample {
    pub query_id: String,
    pub sql: String,
    pub duration_ms: i64,
}

/// The snapshot arithmetic stays within 64-bit (and node counts within
/// 32-bit) range.
pub open spec fn snapshot_in_range(latest: MetricsSnapshot, prev: Option<MetricsSnapshot>) -> bool {
    &&& i64::MIN <= latest.query_error + latest.query_timeout <= i64::MAX
    &&& i32::MIN <= latest.backend_total - latest.backend_alive <= i32::MAX
    &&& prev matches Some(p) ==> {
        &&& i64::MIN <= latest.txn_failed_total - p.txn_failed_total <= i64::MAX
        &&& i64::MIN <= p.query_error + p.query_timeout <= i64::MAX
        &&& i64::MIN <= (latest.query_error + latest.query_timeout) - (p.query_error
            + p.query_timeout) <= i64::MAX
    }
}

/// Increase of failed transactions since the previous snapshot (0 without one).
pub open spec fn txn_delta(latest: MetricsSnapshot, prev: Option<MetricsSnapshot>) -> int {
    match prev {
        Some(p) => latest.txn_failed_total - p.txn_failed_total,
        None => 0,
    }
}

/// Increase of query errors plus timeouts since the previous snapshot.
pub open spec fn error_delta(latest: MetricsSnapshot, prev: Option<MetricsSnapshot>) -> int {
    let now = latest.query_error + latest.query_timeout;
    match prev {
        Some(p) => now - (p.query_error + p.query_timeout),
        None => now,
    }
}

/// Title of a disk-pressure event.
pub open spec fn disk_title(disk: int) -> Seq<char> {
    "磁盘使用率 "@ + one_decimal(disk, 10) + "%（警戒 80%）"@
}

/// Summary of a disk-pressure event.
pub open spec fn disk_summary(disk: int) -> Seq<char> {
    "磁盘使用率 "@ + one_decimal(disk, 10) + "%，建议清理过期数据或扩容"@
}

/// Title of a compaction event.
pub open spec fn compaction_title(score: int) -> Seq<char> {
    "Compaction Score 偏高 "@ + one_decimal(score, 10)
}

/// Summary of a compaction event.
pub open spec fn compaction_summary(score: int) -> Seq<char> {
    "Compaction Score "@ + one_decimal(score, 10) + "，检查磁盘 IO 与 compaction 并发"@
}

/// Title of a load-backlog event.
pub open spec fn load_title(n: int) -> Seq<char> {
    "运行中导入任务 "@ + int_dec(n) + " 个，超过积压阈值"@
}

/// Title of a transaction-failure event.
pub open spec fn txn_title(delta: int) -> Seq<char> {
    "事务失败激增（+"@ + int_dec(delta) + " 次）"@
}

/// Summary of a transaction-failure event.
pub open spec fn txn_summary(delta: int) -> Seq<char> {
    "本窗口新增 "@ + int_dec(delta) + " 次事务失败，检查写入链路"@
}

/// Title of a query-error event.
pub open spec fn error_title(delta: int) -> Seq<char> {
    "查询错误/超时激增（+"@ + int_dec(delta) + "）"@
}

/// Summary of a query-error event.
pub open spec fn error_summary(delta: int) -> Seq<char> {
    "本窗口新增 "@ + int_dec(delta) + " 次查询错误/超时，检查负载与慢查询"@
}

/// The threshold part of a collection: disk (not on shared-data clusters,
/// whose local disks are only a cache), compaction, load backlog,
/// transaction failures and query errors, in that order.
pub open spec fn threshold_outcome(
    cluster_id: int,
    shared_data: bool,
    latest: MetricsSnapshot,
    prev: Option<MetricsSnapshot>,
) -> OutcomeView {
    let cid = int_dec(cluster_id);
    let disk = latest.disk_usage_hundredths as int;
    let score = latest.max_compaction_hundredths as int;
    let load = latest.load_running as int;
    let td = txn_delta(latest, prev);
    let ed = error_delta(latest, prev);
    let o0 = OutcomeView { candidates: Seq::empty(), cleared: Seq::empty() };
    let o1 = if shared_data {
        o0
    } else {
        breach_step(
            o0,
            EventKind::DiskPressure,
            disk >= 8000,
            if disk >= 9000 {
                EventSeverity::Critical
            } else {
                EventSeverity::Warning
            },
            "cluster"@,
            cid,
            disk_title(disk),
            disk_summary(disk),
            seq![("disk_usage_pct"@, MetricValue::Hundredths(disk as i64))],
        )
    };
    let o2 = breach_step(
        o1,
        EventKind::Compaction,
        score > 5000,
        if score > 10000 {
            EventSeverity::Critical
        } else {
            EventSeverity::Warning
        },
        "cluster"@,
        cid,
        compaction_title(score),
        compaction_summary(score),
        seq![("max_compaction_score"@, MetricValue::Hundredths(score as i64))],
    );
    let o3 = breach_step(
        o2,
        EventKind::LoadBacklog,
        load >= 10,
        EventSeverity::Warning,
        "cluster"@,
        cid,
        load_title(load),
        load_backlog_text(shared_data, load),
        seq![("load_running"@, MetricValue::Int(load as i64))],
    );
    let o4 = breach_step(
        o3,
        EventKind::TxnError,
        td >= 5,
        EventSeverity::Warning,
        "cluster"@,
        cid,
        txn_title(td),
        txn_summary(td),
        seq![
            ("txn_failed_total"@, MetricValue::Int(latest.txn_failed_total)),
            ("delta"@, MetricValue::Int(td as i64)),
        ],
    );
    breach_step(
        o4,
        EventKind::MetricBreach,
        ed >= 5,
        EventSeverity::Warning,
        "cluster"@,
        cid,
        error_title(ed),
        error_summary(ed),
        seq![("query_error_delta"@, MetricValue::Int(ed as i64))],
    )
}

/// A single-metric list.
fn metric1(name: &str, value: MetricValue) -> (r: Vec<Metric>)
    ensures
        metrics_view(r@) == seq![(name@, value)],
{
    let mut r: Vec<Metric> = Vec::new();
    r.push(Metric { name: String::from_str(name), value });
    assert(metrics_view(r@) =~= seq![(name@, value)]);
    r
}

/// Evaluates the threshold rules on the latest snapshot (and the previous
/// one, for increments).
pub fn threshold_events(
    cluster_id: i64,
    shared_data: bool,
    latest: &MetricsSnapshot,
    prev: Option<&MetricsSnapshot>,
) -> (r: CollectOutcome)
    requires
        snapshot_in_range(*latest, match prev {
            Some(p) => Some(*p),
            None => None,
        }),
    ensures
        r@ == threshold_outcome(cluster_id as int, shared_data, *latest, match prev {
            Some(p) => Some(*p),
            None => None,
        }),
{
    let ghost gprev = match prev {
        Some(p) => Some(*p),
        None => None,
    };
    let mut out = CollectOutcome { candidates: Vec::new(), cleared_fingerprints: Vec::new() };
    assert(out@.candidates =~= Seq::<CandidateView>::empty());
    assert(out@.cleared =~= Seq::<Seq<char>>::empty());
    let cid = i64_string(cluster_id);
    let disk = latest.disk_usage_hundredths;
    let score = latest.max_compaction_hundredths;
    let load = latest.load_running;

    if !shared_data {
        let d1 = one_decimal_exec(disk, 10);
        let mut title = String::from_str("磁盘使用率 ");
        append_chars(&mut title, d1.as_slice());
        title.append("%（警戒 80%）");
        let mut summary = String::from_str("磁盘使用率 ");
        append_chars(&mut summary, d1.as_slice());
        summary.append("%，建议清理过期数据或扩容");
        push_breach(
            &mut out,
            BreachSpec {
                kind: EventKind::DiskPressure,
                active: disk >= DISK_WARNING_HUNDREDTHS,
                severity: if disk >= DISK_CRITICAL_HUNDREDTHS {
                    EventSeverity::Critical
                } else {
                    EventSeverity::Warning
                },
                object_type: "cluster",
                object_id: cid.as_str(),
                title,
                summary,
                metrics: metric1("disk_usage_pct", MetricValue::Hundredths(disk)),
            },
        );
    }
    let ghost o1 = out@;

    let s1 = one_decimal_exec(score, 10);
    let mut title = String::from_str("Compaction Score 偏高 ");
    append_chars(&mut title, s1.as_slice());
    let mut summary = String::from_str("Compaction Score ");
    append_chars(&mut summary, s1.as_slice());
    summary.append("，检查磁盘 IO 与 compaction 并发");
    push_breach(
        &mut out,
        BreachSpec {
            kind: EventKind::Compaction,
            active: score > COMPACTION_WARNING_HUNDREDTHS,
            severity: if score > COMPACTION_CRITICAL_HUNDREDTHS {
                EventSeverity::Critical
            } else {
                EventSeverity::Warning
            },
            object_type: "cluster",
            object_id: cid.as_str(),
            title,
            summary,
            metrics: metric1("max_compaction_score", MetricValue::Hundredths(score)),
        },
    );

    let ln = i64_dec(load as i64);
    let mut title = String::from_str("运行中导入任务 ");
    append_chars(&mut title, ln.as_slice());
    title.append(" 个，超过积压阈值");
    push_breach(
        &mut out,
        BreachSpec {
            kind: EventKind::LoadBacklog,
            active: load >= LOAD_BACKLOG_THRESHOLD,
            severity: EventSeverity::Warning,
            object_type: "cluster",
            object_id: cid.as_str(),
            title,
            summary: load_backlog_summary(shared_data, load),
            metrics: metric1("load_running", MetricValue::Int(load as i64)),
        },
    );

    let txn_failed = latest.txn_failed_total;
    let td: i64 = match prev {
        Some(p) => txn_failed - p.txn_failed_total,
        None => 0,
    };
    let tdd = i64_dec(td);
    let mut title = String::from_str("事务失败激增（+");
    append_chars(&mut title, tdd.as_slice());
    title.append(" 次）");
    let mut summary = String::from_str("本窗口新增 ");
    append_chars(&mut summary, tdd.as_slice());
    summary.append(" 次事务失败，检查写入链路");
    let mut tm: Vec<Metric> = Vec::new();
    tm.push(Metric { name: String::from_str("txn_failed_total"), value: MetricValue::Int(txn_failed) });
    tm.push(Metric { name: String::from_str("delta"), value: MetricValue::Int(td) });
    assert(metrics_view(tm@) =~= seq![
        ("txn_failed_total"@, MetricValue::Int(txn_failed)),
        ("delta"@, MetricValue::Int(td)),
    ]);
    push_breach(
        &mut out,
        BreachSpec {
            kind: EventKind::TxnError,
            active: td >= INCREMENT_DELTA,
            severity: EventSeverity::Warning,
            object_type: "cluster",
            object_id: cid.as_str(),
            title,
            summary,
            metrics: tm,
        },
    );

    let err: i64 = latest.query_error + latest.query_timeout;
    let err_prev: i64 = match prev {
        Some(p) => p.query_error + p.query_timeout,
        None => 0,
    };
    let ed: i64 = err - err_prev;
    let edd = i64_dec(ed);
    let mut title = String::from_str("查询错误/超时激增（+");
    append_chars(&mut title, edd.as_slice());
    title.append("）");
    let mut summary = String::from_str("本窗口新增 ");
    append_chars(&mut summary, edd.as_slice());
    summary.append(" 次查询错误/超时，检查负载与慢查询");
    push_breach(
        &mut out,
        BreachSpec {
            kind: EventKind::MetricBreach,
            active: ed >= INCREMENT_DELTA,
            severity: EventSeverity::Warning,
            object_type: "cluster",
            object_id: cid.as_str(),
            title,
            summary,
            metrics: metric1("query_error_delta", MetricValue::Int(ed)),
        },
    );
    out
}

// ---------------------------------------------------------------------------
// Node-down and slow-query candidates
// ---------------------------------------------------------------------------

/// Candidate for one offline node.
pub open spec fn node_candidate(shared_data: bool, host: Seq<char>, alive: int, total: int) -> CandidateView {
    let ctx = node_context(shared_data);
    candidate_of(
        EventKind::NodeDown,
        EventSeverity::Critical,
        ctx.0,
        host,
        "计算节点 "@ + host + " 离线"@,
        ctx.1 + " "@ + host + " 离线（存活 "@ + int_dec(alive) + "/"@ + int_dec(total) + "）"@,
        seq![
            ("backend_alive"@, MetricValue::Int(alive as i64)),
            ("backend_total"@, MetricValue::Int(total as i64)),
        ],
    )
}

/// Cluster-level candidate when no offline node can be named.
pub open spec fn cluster_down_candidate(cluster_id: int, alive: int, total: int) -> CandidateView {
    candidate_of(
        EventKind::NodeDown,
        EventSeverity::Critical,
        "cluster"@,
        int_dec(cluster_id),
        int_dec(total - alive) + " 个计算节点离线"@,
        "计算节点离线（存活 "@ + int_dec(alive) + "/"@ + int_dec(total) + ")"@,
        seq![
            ("backend_alive"@, MetricValue::Int(alive as i64)),
            ("backend_total"@, MetricValue::Int(total as i64)),
        ],
    )
}

/// Candidates for the offline nodes among `nodes`, in order.
pub open spec fn offline_candidates(
    shared_data: bool,
    nodes: Seq<BackendStatus>,
    alive: int,
    total: int,
) -> Seq<CandidateView>
    decreases nodes.len(),
{
    if nodes.len() == 0 {
        Seq::empty()
    } else {
        let rest = offline_candidates(shared_data, nodes.drop_last(), alive, total);
        if alive_flag(nodes.last().alive@) {
            rest
        } else {
            rest.push(node_candidate(shared_data, nodes.last().host@, alive, total))
        }
    }
}

/// Node-down candidates: when the snapshot shows fewer live nodes than
/// nodes, each offline node the cluster names, or one cluster-level event
/// when it names none (or could not be asked).
pub open spec fn node_down_part(
    cluster_id: int,
    shared_data: bool,
    alive: int,
    total: int,
    nodes: Option<Seq<BackendStatus>>,
) -> Seq<CandidateView> {
    if alive < total {
        let named = match nodes {
            Some(n) => offline_candidates(shared_data, n, alive, total),
            None => Seq::empty(),
        };
        if named.len() > 0 {
            named
        } else {
            seq![cluster_down_candidate(cluster_id, alive, total)]
        }
    } else {
        Seq::empty()
    }
}

/// The two node-count metrics.
fn node_metrics(alive: i32, total: i32) -> (r: Vec<Metric>)
    ensures
        metrics_view(r@) == seq![
            ("backend_alive"@, MetricValue::Int(alive as i64)),
            ("backend_total"@, MetricValue::Int(total as i64)),
        ],
{
    let mut r: Vec<Metric> = Vec::new();
    r.push(Metric { name: String::from_str("backend_alive"), value: MetricValue::Int(alive as i64) });
    r.push(Metric { name: String::from_str("backend_total"), value: MetricValue::Int(total as i64) });
    assert(metrics_view(r@) =~= seq![
        ("backend_alive"@, MetricValue::Int(alive as i64)),
        ("backend_total"@, MetricValue::Int(total as i64)),
    ]);
    r
}

/// Candidate for one offline node.
fn node_down_candidate(shared_data: bool, host: &str, alive: i32, total: i32) -> (r: EventCandidate)
    ensures
        r@ == node_candidate(shared_data, host@, alive as int, total as int),
{
    let (object_type, label) = compute_node_context(shared_data);
    let mut title = String::from_str("计算节点 ");
    title.append(host);
    title.append(" 离线");
    let a = i64_dec(alive as i64);
    let t = i64_dec(total as i64);
    let mut summary = String::from_str(label);
    summary.append(" ");
    summary.append(host);
    summary.append(" 离线（存活 ");
    append_chars(&mut summary, a.as_slice());
    summary.append("/");
    append_chars(&mut summary, t.as_slice());
    summary.append("）");
    make_candidate(
        EventKind::NodeDown,
        EventSeverity::Critical,
        object_type,
        host,
        title,
        summary,
        node_metrics(alive, total),
    )
}

/// Node-down candidates of a cluster whose snapshot counts `alive` live
/// nodes out of `total`; `nodes` is the node list if it could be read.
pub fn node_down_events(
    cluster_id: i64,
    shared_data: bool,
    alive: i32,
    total: i32,
    nodes: Option<&[BackendStatus]>,
) -> (r: Vec<EventCandidate>)
    requires
        i32::MIN <= total - alive <= i32::MAX,
    ensures
        candidates_view(r@) == node_down_part(
            cluster_id as int,
            shared_data,
            alive as int,
            total as int,
            match nodes {
                Some(n) => Some(n@),
                None => None,
            },
        ),
{
    let mut r: Vec<EventCandidate> = Vec::new();
    if alive >= total {
        assert(candidates_view(r@) =~= Seq::<CandidateView>::empty());
        return r;
    }
    if let Some(list) = nodes {
        let mut i: usize = 0;
        while i < list.len()
            invariant
                i <= list.len(),
                candidates_view(r@) == offline_candidates(
                    shared_data,
                    list@.take(i as int),
                    alive as int,
                    total as int,
                ),
            decreases list.len() - i,
        {
            assert(list@.take(i + 1).drop_last() =~= list@.take(i as int));
            if !is_alive(list[i].alive.as_str()) {
                let c = node_down_candidate(shared_data, list[i].host.as_str(), alive, total);
                r.push(c);
            }
            assert(candidates_view(r@) =~= offline_candidates(
                shared_data,
                list@.take(i + 1),
                alive as int,
                total as int,
            ));
            i += 1;
        }
        assert(list@.take(list.len() as int) =~= list@);
    } else {
        assert(candidates_view(r@) =~= Seq::<CandidateView>::empty());
    }
    if r.len() == 0 {
        let cid = i64_string(cluster_id);
        let n = i64_dec((total - alive) as i64);
        let mut title = string_of(n.as_slice());
        title.append(" 个计算节点离线");
        let a = i64_dec(alive as i64);
        let t = i64_dec(total as i64);
        let mut summary = String::from_str("计算节点离线（存活 ");
        append_chars(&mut summary, a.as_slice());
        summary.append("/");
        append_chars(&mut summary, t.as_slice());
        summary.append(")");
        let c = make_candidate(
            EventKind::NodeDown,
            EventSeverity::Critical,
            "cluster",
            cid.as_str(),
            title,
            summary,
            node_metrics(alive, total),
        );
        r.push(c);
        assert(candidates_view(r@) =~= seq![
            cluster_down_candidate(cluster_id as int, alive as int, total as int),
        ]);
    }
    r
}

/// Candidate for one slow query.
pub open spec fn slow_candidate(q: SlowQuerySample) -> CandidateView {
    CandidateView {
        fingerprint: fingerprint_of(EventKind::SlowQuery, "query"@, q.query_id@),
        kind: EventKind::SlowQuery,
        severity: EventSeverity::Info,
        object_type: Some("query"@),
        object_id: Some(q.query_id@),
        title: "慢查询 "@ + q.query_id@ + "（"@ + one_decimal(q.duration_ms as int, 100) + "s）"@,
        summary: truncated(q.sql@, 200),
        metrics: seq![("duration_ms"@, MetricValue::Int(q.duration_ms))],
        cleared: false,
    }
}

/// Candidates for at most the first three slow queries, in order.
pub fn slow_query_events(samples: &[SlowQuerySample]) -> (r: Vec<EventCandidate>)
    ensures
        candidates_view(r@) == samples@.take(
            if samples@.len() < 3 {
                samples@.len() as int
            } else {
                3
            },
        ).map_values(|q: SlowQuerySample| slow_candidate(q)),
{
    let n: usize = if samples.len() < MAX_SLOW_PER_TICK {
        samples.len()
    } else {
        MAX_SLOW_PER_TICK
    };
    let mut r: Vec<EventCandidate> = Vec::new();
    let mut i: usize = 0;
    while i < n
        invariant
            n <= samples.len(),
            i <= n,
            candidates_view(r@) == samples@.take(i as int).map_values(
                |q: SlowQuerySample| slow_candidate(q),
            ),
        decreases n - i,
    {
        let q = &samples[i];
        let secs = one_decimal_exec(q.duration_ms, 100);
        let mut title = String::from_str("慢查询 ");
        title.append(q.query_id.as_str());
        title.append("（");
        append_chars(&mut title, secs.as_slice());
        title.append("s）");
        let c = EventCandidate {
            fingerprint: fingerprint(EventKind::SlowQuery, "query", q.query_id.as_str()),
            kind: EventKind::SlowQuery,
            severity: EventSeverity::Info,
            object_type: Some(String::from_str("query")),
            object_id: Some(q.query_id.clone()),
            title,
            summary: truncate(q.sql.as_str(), 200),
            metrics: metric1("duration_ms", MetricValue::Int(q.duration_ms)),
            cleared: false,
        };
        assert(c@ == slow_candidate(samples@[i as int]));
        let ghost r0 = r@;
        r.push(c);
        assert(candidates_view(r@) =~= candidates_view(r0).push(c@));
        assert(samples@.take(i + 1) =~= samples@.take(i as int).push(samples@[i as int]));
        assert(candidates_view(r@) =~= samples@.take(i + 1).map_values(
            |q: SlowQuerySample| slow_candidate(q),
        ));
        i += 1;
    }
    r
}

// ---------------------------------------------------------------------------
// Whole collection
// ---------------------------------------------------------------------------

/// The full collection result of a cluster: threshold events, then node-down
/// events, then (at most three) slow queries.
pub open spec fn collected(
    cluster_id: int,
    shared_data: bool,
    latest: MetricsSnapshot,
    prev: Option<MetricsSnapshot>,
    nodes: Option<Seq<BackendStatus>>,
    slow: Option<Seq<SlowQuerySample>>,
) -> OutcomeView {
    let t = threshold_outcome(cluster_id, shared_data, latest, prev);
    let nd = node_down_part(
        cluster_id,
        shared_data,
        latest.backend_alive as int,
        latest.backend_total as int,
        nodes,
    );
    let sq = match slow {
        Some(s) => s.take(
            if s.len() < 3 {
                s.len() as int
            } else {
                3
            },
        ).map_values(|q: SlowQuerySample| slow_candidate(q)),
        None => Seq::empty(),
    };
    OutcomeView { candidates: t.candidates + nd + sq, cleared: t.cleared }
}

/// Collects the event candidates of one cluster from its latest metrics
/// snapshot and the one before it, the node list (when it could be read) and
/// the slow-query sample of the audit log. Without a snapshot nothing is
/// collected.
pub fn collect_cluster_events(
    cluster_id: i64,
    shared_data: bool,
    latest: Option<&MetricsSnapshot>,
    prev: Option<&MetricsSnapshot>,
    nodes: Option<&[BackendStatus]>,
    slow: Option<&[SlowQuerySample]>,
) -> (r: CollectOutcome)
    requires
        latest matches Some(l) ==> snapshot_in_range(*l, match prev {
            Some(p) => Some(*p),
            None => None,
        }),
    ensures
        latest is None ==> r@.candidates.len() == 0 && r@.cleared.len() == 0,
        latest matches Some(l) ==> r@ == collected(
            cluster_id as int,
            shared_data,
            *l,
            match prev {
                Some(p) => Some(*p),
                None => None,
            },
            match nodes {
                Some(n) => Some(n@),
                None => None,
            },
            match slow {
                Some(s) => Some(s@),
                None => None,
            },
        ),
{
    match latest {
        None => {
            let r = CollectOutcome { candidates: Vec::new(), cleared_fingerprints: Vec::new() };
            r
        },
        Some(l) => {
            let mut out = threshold_events(cluster_id, shared_data, l, prev);
            let ghost t = out@;
            let mut nd = node_down_events(
                cluster_id,
                shared_data,
                l.backend_alive,
                l.backend_total,
                nodes,
            );
            let ghost ndv = candidates_view(nd@);
            out.candidates.append(&mut nd);
            let mut sq: Vec<EventCandidate> = match slow {
                Some(s) => slow_query_events(s),
                None => Vec::new(),
            };
            let ghost sqv = candidates_view(sq@);
            proof {
                assert(candidates_view(out.candidates@) =~= t.candidates + ndv);
            }
            out.candidates.append(&mut sq);
            proof {
                assert(candidates_view(out.candidates@) =~= t.candidates + ndv + sqv);
                if slow is None {
                    assert(sqv =~= Seq::<CandidateView>::empty());
                }
            }
            out
        },
    }
}

// ---------------------------------------------------------------------------
// Reported and cleared conditions never overlap
// ---------------------------------------------------------------------------

/// A fingerprint begins with the name of kind `k` and a colon.
pub open spec fn fp_of_kind(f: Seq<char>, k: EventKind) -> bool {
    let n = kind_name(k).len();
    f.len() > n && f.take(n as int) == kind_name(k) && f[n as int] == ':'
}

proof fn lemma_fingerprint_kind(k: EventKind, x: Seq<char>, y: Seq<char>)
    ensures
        fp_of_kind(fingerprint_of(k, x, y), k),
{
    reveal_strlit(":");
    let f = fingerprint_of(k, x, y);
    assert(f.take(kind_name(k).len() as int) =~= kind_name(k));
}

proof fn lemma_fp_kind_unique(f: Seq<char>, a: EventKind, b: EventKind)
    requires
        fp_of_kind(f, a),
        fp_of_kind(f, b),
    ensures
        a == b,
{
    reveal_strlit("node_down");
    reveal_strlit("disk_pressure");
    reveal_strlit("compaction");
    reveal_strlit("load_backlog");
    reveal_strlit("txn_error");
    reveal_strlit("metric_breach");
    reveal_strlit("slow_query");
    let na = kind_name(a);
    let nb = kind_name(b);
    assert(forall|i: int| 0 <= i < na.len() ==> na[i] != ':');
    assert(forall|i: int| 0 <= i < nb.len() ==> nb[i] != ':');
    if na.len() < nb.len() {
        assert(f[na.len() as int] == f.take(nb.len() as int)[na.len() as int]);
    } else if nb.len() < na.len() {
        assert(f[nb.len() as int] == f.take(na.len() as int)[nb.len() as int]);
    } else {
        assert(na =~= nb);
        crate::agent::models::law_event_kind_roundtrip(a);
        crate::agent::models::law_event_kind_roundtrip(b);
    }
}

/// Candidates report kinds of `reported`, cleared fingerprints kinds of
/// `receded`, and every fingerprint begins with its kind.
pub open spec fn kinds_split(o: OutcomeView, reported: Set<EventKind>, receded: Set<EventKind>) -> bool {
    &&& forall|a: int|
        0 <= a < o.candidates.len() ==> reported.contains((#[trigger] o.candidates[a]).kind)
            && fp_of_kind(o.candidates[a].fingerprint, o.candidates[a].kind)
    &&& forall|b: int| 0 <= b < o.cleared.len() ==> cleared_of_kinds(#[trigger] o.cleared[b], receded)
}

/// A cleared fingerprint begins with the name of one of `receded`.
pub open spec fn cleared_of_kinds(f: Seq<char>, receded: Set<EventKind>) -> bool {
    exists|k: EventKind| receded.contains(k) && #[trigger] fp_of_kind(f, k)
}

proof fn lemma_breach_step_split(
    o: OutcomeView,
    reported: Set<EventKind>,
    receded: Set<EventKind>,
    kind: EventKind,
    active: bool,
    severity: EventSeverity,
    object_type: Seq<char>,
    object_id: Seq<char>,
    title: Seq<char>,
    summary: Seq<char>,
    metrics: Seq<(Seq<char>, MetricValue)>,
)
    requires
        kinds_split(o, reported, receded),
    ensures
        active ==> kinds_split(
            breach_step(o, kind, active, severity, object_type, object_id, title, summary, metrics),
            reported.insert(kind),
            receded,
        ),
        !active ==> kinds_split(
            breach_step(o, kind, active, severity, object_type, object_id, title, summary, metrics),
            reported,
            receded.insert(kind),
        ),
{
    let o2 = breach_step(o, kind, active, severity, object_type, object_id, title, summary, metrics);
    lemma_fingerprint_kind(kind, object_type, object_id);
    if active {
        assert forall|a: int| 0 <= a < o2.candidates.len() implies reported.insert(kind).contains(
            (#[trigger] o2.candidates[a]).kind,
        ) && fp_of_kind(o2.candidates[a].fingerprint, o2.candidates[a].kind) by {
            if a < o.candidates.len() {
                assert(o2.candidates[a] == o.candidates[a]);
            }
        }
        assert forall|b: int| 0 <= b < o2.cleared.len() implies cleared_of_kinds(#[trigger] o2.cleared[b], receded) by {
            assert(o2.cleared[b] == o.cleared[b]);
            let k = choose|k: EventKind| receded.contains(k) && #[trigger] fp_of_kind(o.cleared[b], k);
            assert(receded.contains(k) && fp_of_kind(o2.cleared[b], k));
        }
        assert(o2.candidates.len() == o.candidates.len() + 1);
        assert(kinds_split(o2, reported.insert(kind), receded));
    } else {
        assert forall|a: int| 0 <= a < o2.candidates.len() implies reported.contains(
            (#[trigger] o2.candidates[a]).kind,
        ) && fp_of_kind(o2.candidates[a].fingerprint, o2.candidates[a].kind) by {
            assert(o2.candidates[a] == o.candidates[a]);
        }
        assert forall|b: int| 0 <= b < o2.cleared.len() implies cleared_of_kinds(#[trigger] o2.cleared[b], receded.insert(kind)) by {
            if b < o.cleared.len() {
                assert(o2.cleared[b] == o.cleared[b]);
                let k = choose|k: EventKind| receded.contains(k) && #[trigger] fp_of_kind(o.cleared[b], k);
                assert(receded.insert(kind).contains(k) && fp_of_kind(o2.cleared[b], k));
            } else {
                assert(o2.cleared[b] == fingerprint_of(kind, object_type, object_id));
                assert(receded.insert(kind).contains(kind) && fp_of_kind(o2.cleared[b], kind));
            }
        }
        assert(kinds_split(o2, reported, receded.insert(kind)));
    }
}

/// The threshold checks of one snapshot split their kinds between reported
/// and receded.
proof fn lemma_threshold_split(cluster_id: int, shared_data: bool, latest: MetricsSnapshot, prev: Option<MetricsSnapshot>)
    ensures
        exists|reported: Set<EventKind>, receded: Set<EventKind>|
            #[trigger] kinds_split(threshold_outcome(cluster_id, shared_data, latest, prev), reported, receded)
                && reported.disjoint(receded) && !reported.contains(EventKind::NodeDown)
                && !receded.contains(EventKind::NodeDown) && !reported.contains(EventKind::SlowQuery)
                && !receded.contains(EventKind::SlowQuery),
{
    let cid = int_dec(cluster_id);
    let disk = latest.disk_usage_hundredths as int;
    let score = latest.max_compaction_hundredths as int;
    let load = latest.load_running as int;
    let td = txn_delta(latest, prev);
    let ed = error_delta(latest, prev);
    let o0 = OutcomeView { candidates: Seq::empty(), cleared: Seq::empty() };
    let e = Set::<EventKind>::empty();
    assert(kinds_split(o0, e, e));
    let (o1, r1, c1) = if shared_data {
        (o0, e, e)
    } else {
        let act = disk >= 8000;
        let sev = if disk >= 9000 {
            EventSeverity::Critical
        } else {
            EventSeverity::Warning
        };
        let m = seq![("disk_usage_pct"@, MetricValue::Hundredths(disk as i64))];
        lemma_breach_step_split(o0, e, e, EventKind::DiskPressure, act, sev, "cluster"@, cid, disk_title(disk), disk_summary(disk), m);
        (
            breach_step(o0, EventKind::DiskPressure, act, sev, "cluster"@, cid, disk_title(disk), disk_summary(disk), m),
            if act { e.insert(EventKind::DiskPressure) } else { e },
            if act { e } else { e.insert(EventKind::DiskPressure) },
        )
    };
    let act2 = score > 5000;
    let sev2 = if score > 10000 {
        EventSeverity::Critical
    } else {
        EventSeverity::Warning
    };
    let m2 = seq![("max_compaction_score"@, MetricValue::Hundredths(score as i64))];
    lemma_breach_step_split(o1, r1, c1, EventKind::Compaction, act2, sev2, "cluster"@, cid, compaction_title(score), compaction_summary(score), m2);
    let o2 = breach_step(o1, EventKind::Compaction, act2, sev2, "cluster"@, cid, compaction_title(score), compaction_summary(score), m2);
    let r2 = if act2 { r1.insert(EventKind::Compaction) } else { r1 };
    let c2 = if act2 { c1 } else { c1.insert(EventKind::Compaction) };
    let act3 = load >= 10;
    let m3 = seq![("load_running"@, MetricValue::Int(load as i64))];
    lemma_breach_step_split(o2, r2, c2, EventKind::LoadBacklog, act3, EventSeverity::Warning, "cluster"@, cid, load_title(load), load_backlog_text(shared_data, load), m3);
    let o3 = breach_step(o2, EventKind::LoadBacklog, act3, EventSeverity::Warning, "cluster"@, cid, load_title(load), load_backlog_text(shared_data, load), m3);
    let r3 = if act3 { r2.insert(EventKind::LoadBacklog) } else { r2 };
    let c3 = if act3 { c2 } else { c2.insert(EventKind::LoadBacklog) };
    let act4 = td >= 5;
    let m4 = seq![
        ("txn_failed_total"@, MetricValue::Int(latest.txn_failed_total)),
        ("delta"@, MetricValue::Int(td as i64)),
    ];
    lemma_breach_step_split(o3, r3, c3, EventKind::TxnError, act4, EventSeverity::Warning, "cluster"@, cid, txn_title(td), txn_summary(td), m4);
    let o4 = breach_step(o3, EventKind::TxnError, act4, EventSeverity::Warning, "cluster"@, cid, txn_title(td), txn_summary(td), m4);
    let r4 = if act4 { r3.insert(EventKind::TxnError) } else { r3 };
    let c4 = if act4 { c3 } else { c3.insert(EventKind::TxnError) };
    let act5 = ed >= 5;
    let m5 = seq![("query_error_delta"@, MetricValue::Int(ed as i64))];
    lemma_breach_step_split(o4, r4, c4, EventKind::MetricBreach, act5, EventSeverity::Warning, "cluster"@, cid, error_title(ed), error_summary(ed), m5);
    let r5 = if act5 { r4.insert(EventKind::MetricBreach) } else { r4 };
    let c5 = if act5 { c4 } else { c4.insert(EventKind::MetricBreach) };
    assert(threshold_outcome(cluster_id, shared_data, latest, prev) == breach_step(o4, EventKind::MetricBreach, act5, EventSeverity::Warning, "cluster"@, cid, error_title(ed), error_summary(ed), m5));
    assert(r5.disjoint(c5));
    assert(kinds_split(threshold_outcome(cluster_id, shared_data, latest, prev), r5, c5));
}

#[verifier::spinoff_prover]
proof fn lemma_offline_hosts(shared_data: bool, nodes: Seq<BackendStatus>, alive: int, total: int)
    ensures
        ({
            let cs = offline_candidates(shared_data, nodes, alive, total);
            &&& cs.len() <= nodes.len()
            &&& forall|k: int|
                0 <= k < nodes.len() && !alive_flag(#[trigger] nodes[k].alive@) ==> exists|a: int|
                    0 <= a < cs.len() && (#[trigger] cs[a]).object_id == Some(nodes[k].host@)
                        && cs[a].kind == EventKind::NodeDown && cs[a].severity == EventSeverity::Critical
            &&& forall|a: int|
                0 <= a < cs.len() ==> exists|k: int|
                    0 <= k < nodes.len() && !alive_flag(#[trigger] nodes[k].alive@) && (#[trigger] cs[a]).object_id
                        == Some(nodes[k].host@)
        }),
    decreases nodes.len(),
{
    if nodes.len() > 0 {
        let init = nodes.drop_last();
        lemma_offline_hosts(shared_data, init, alive, total);
        let rest = offline_candidates(shared_data, init, alive, total);
        let cs = offline_candidates(shared_data, nodes, alive, total);
        let last = nodes.len() - 1;
        assert(cs.len() <= rest.len() + 1);
        assert forall|k: int|
            0 <= k < nodes.len() && !alive_flag(#[trigger] nodes[k].alive@) implies exists|a: int|
                0 <= a < cs.len() && (#[trigger] cs[a]).object_id == Some(nodes[k].host@)
                    && cs[a].kind == EventKind::NodeDown && cs[a].severity == EventSeverity::Critical by {
            if k < last {
                assert(nodes[k] == init[k]);
                assert(!alive_flag(init[k].alive@));
                let a = choose|a: int|
                    0 <= a < rest.len() && (#[trigger] rest[a]).object_id == Some(init[k].host@)
                        && rest[a].kind == EventKind::NodeDown && rest[a].severity == EventSeverity::Critical;
                assert(cs[a] == rest[a]);
            } else {
                assert(nodes.last() == nodes[k]);
                assert(cs[rest.len() as int] == node_candidate(shared_data, nodes.last().host@, alive, total));
                assert(cs[rest.len() as int].object_id == Some(nodes[k].host@));
            }
        }
        assert forall|a: int| 0 <= a < cs.len() implies exists|k: int|
            0 <= k < nodes.len() && !alive_flag(#[trigger] nodes[k].alive@) && (#[trigger] cs[a]).object_id
                == Some(nodes[k].host@) by {
            if a < rest.len() {
                assert(cs[a] == rest[a]);
                let k = choose|k: int|
                    0 <= k < init.len() && !alive_flag(#[trigger] init[k].alive@) && (#[trigger] rest[a]).object_id
                        == Some(init[k].host@);
                assert(nodes[k] == init[k]);
            } else {
                assert(nodes.last() == nodes[last]);
                assert(!alive_flag(nodes[last].alive@));
                assert(cs[a].object_id == Some(nodes[last].host@));
            }
        }
    }
}

/// Node-down events: none while the snapshot counts every node alive;
/// otherwise one critical node-down event for each node the cluster lists
/// as not alive (object: that node's host), and every such event is for a
/// listed node that is not alive; when the cluster lists no offline node,
/// or its nodes could not be read, one cluster-level event.
pub proof fn law_node_down_events(
    cluster_id: int,
    shared_data: bool,
    alive: int,
    total: int,
    nodes: Option<Seq<BackendStatus>>,
)
    ensures
        ({
            let nd = node_down_part(cluster_id, shared_data, alive, total, nodes);
            &&& alive >= total ==> nd.len() == 0
            &&& alive < total ==> nd.len() > 0 && forall|a: int|
                0 <= a < nd.len() ==> (#[trigger] nd[a]).kind == EventKind::NodeDown && nd[a].severity
                    == EventSeverity::Critical
            &&& (nodes matches Some(ns) ==> (alive < total ==> forall|k: int|
                0 <= k < ns.len() && !alive_flag(#[trigger] ns[k].alive@) ==> exists|a: int|
                    0 <= a < nd.len() && (#[trigger] nd[a]).object_id == Some(ns[k].host@)))
            &&& alive < total && (nodes is None || forall|k: int|
                0 <= k < nodes->0.len() ==> alive_flag(#[trigger] nodes->0[k].alive@)) ==> nd == seq![
                cluster_down_candidate(cluster_id, alive, total),
            ]
        }),
{
    match nodes {
        Some(ns) => {
            lemma_offline_hosts(shared_data, ns, alive, total);
            lemma_offline_kinds(shared_data, ns, alive, total);
            let cs = offline_candidates(shared_data, ns, alive, total);
            if alive < total && cs.len() > 0 {
                assert forall|a: int| 0 <= a < cs.len() implies (#[trigger] cs[a]).severity
                    == EventSeverity::Critical by {
                    let k = choose|k: int|
                        0 <= k < ns.len() && !alive_flag(#[trigger] ns[k].alive@) && (#[trigger] cs[a]).object_id
                            == Some(ns[k].host@);
                    let b = choose|b: int|
                        0 <= b < cs.len() && (#[trigger] cs[b]).object_id == Some(ns[k].host@)
                            && cs[b].kind == EventKind::NodeDown && cs[b].severity == EventSeverity::Critical;
                    lemma_offline_severity(shared_data, ns, alive, total);
                }
            }
            if forall|k: int| 0 <= k < ns.len() ==> alive_flag(#[trigger] ns[k].alive@) {
                if cs.len() > 0 {
                    let k = choose|k: int|
                        0 <= k < ns.len() && !alive_flag(#[trigger] ns[k].alive@) && (#[trigger] cs[0]).object_id
                            == Some(ns[k].host@);
                }
            }
        },
        None => {},
    }
}

proof fn lemma_offline_severity(shared_data: bool, nodes: Seq<BackendStatus>, alive: int, total: int)
    ensures
        forall|a: int|
            0 <= a < offline_candidates(shared_data, nodes, alive, total).len() ==> (#[trigger] offline_candidates(
                shared_data,
                nodes,
                alive,
                total,
            )[a]).severity == EventSeverity::Critical,
    decreases nodes.len(),
{
    if nodes.len() > 0 {
        lemma_offline_severity(shared_data, nodes.drop_last(), alive, total);
    }
}

/// Some candidate of the outcome is of kind `k`.
pub open spec fn reports_kind(o: OutcomeView, k: EventKind) -> bool {
    exists|a: int| 0 <= a < o.candidates.len() && (#[trigger] o.candidates[a]).kind == k
}

proof fn lemma_breach_reports(
    o: OutcomeView,
    k: EventKind,
    kind: EventKind,
    active: bool,
    severity: EventSeverity,
    object_type: Seq<char>,
    object_id: Seq<char>,
    title: Seq<char>,
    summary: Seq<char>,
    metrics: Seq<(Seq<char>, MetricValue)>,
)
    ensures
        reports_kind(breach_step(o, kind, active, severity, object_type, object_id, title, summary, metrics), k)
            == (reports_kind(o, k) || (active && kind == k)),
{
    let o2 = breach_step(o, kind, active, severity, object_type, object_id, title, summary, metrics);
    if reports_kind(o, k) {
        let a = choose|a: int| 0 <= a < o.candidates.len() && (#[trigger] o.candidates[a]).kind == k;
        assert(o2.candidates[a] == o.candidates[a]);
    }
    if active && kind == k {
        assert(o2.candidates[o.candidates.len() as int].kind == k);
    }
    if reports_kind(o2, k) {
        let a = choose|a: int| 0 <= a < o2.candidates.len() && (#[trigger] o2.candidates[a]).kind == k;
        if a < o.candidates.len() {
            assert(o2.candidates[a] == o.candidates[a]);
        }
    }
}

/// The threshold rules of a collection: a disk-pressure event when disk
/// usage reaches 80% (never on shared-data clusters, whose local disks are
/// only a cache), a compaction event when the highest compaction score
/// exceeds 50, a load-backlog event from 10 running loads, a
/// transaction-failure event when failed transactions rose by at least 5
/// since the previous snapshot (never without one), and a query-error event
/// when query errors plus timeouts rose by at least 5 (counted from zero
/// without a previous snapshot). The threshold checks report no node-down
/// or slow-query event.
pub proof fn law_threshold_rules(
    cluster_id: int,
    shared_data: bool,
    latest: MetricsSnapshot,
    prev: Option<MetricsSnapshot>,
)
    ensures
        ({
            let o = threshold_outcome(cluster_id, shared_data, latest, prev);
            let errors = latest.query_error + latest.query_timeout;
            &&& reports_kind(o, EventKind::DiskPressure) <==> !shared_data && latest.disk_usage_hundredths >= 8000
            &&& reports_kind(o, EventKind::Compaction) <==> latest.max_compaction_hundredths > 5000
            &&& reports_kind(o, EventKind::LoadBacklog) <==> latest.load_running >= 10
            &&& reports_kind(o, EventKind::TxnError) <==> (prev matches Some(p) && latest.txn_failed_total
                - p.txn_failed_total >= 5)
            &&& reports_kind(o, EventKind::MetricBreach) <==> (match prev {
                Some(p) => errors - (p.query_error + p.query_timeout) >= 5,
                None => errors >= 5,
            })
            &&& !reports_kind(o, EventKind::NodeDown)
            &&& !reports_kind(o, EventKind::SlowQuery)
        }),
{
    let cid = int_dec(cluster_id);
    let disk = latest.disk_usage_hundredths as int;
    let score = latest.max_compaction_hundredths as int;
    let load = latest.load_running as int;
    let td = txn_delta(latest, prev);
    let ed = error_delta(latest, prev);
    let o0 = OutcomeView { candidates: Seq::empty(), cleared: Seq::empty() };
    let sev1 = if disk >= 9000 {
        EventSeverity::Critical
    } else {
        EventSeverity::Warning
    };
    let m1 = seq![("disk_usage_pct"@, MetricValue::Hundredths(disk as i64))];
    let o1 = if shared_data {
        o0
    } else {
        breach_step(o0, EventKind::DiskPressure, disk >= 8000, sev1, "cluster"@, cid, disk_title(disk), disk_summary(disk), m1)
    };
    let sev2 = if score > 10000 {
        EventSeverity::Critical
    } else {
        EventSeverity::Warning
    };
    let m2 = seq![("max_compaction_score"@, MetricValue::Hundredths(score as i64))];
    let o2 = breach_step(o1, EventKind::Compaction, score > 5000, sev2, "cluster"@, cid, compaction_title(score), compaction_summary(score), m2);
    let m3 = seq![("load_running"@, MetricValue::Int(load as i64))];
    let o3 = breach_step(o2, EventKind::LoadBacklog, load >= 10, EventSeverity::Warning, "cluster"@, cid, load_title(load), load_backlog_text(shared_data, load), m3);
    let m4 = seq![
        ("txn_failed_total"@, MetricValue::Int(latest.txn_failed_total)),
        ("delta"@, MetricValue::Int(td as i64)),
    ];
    let o4 = breach_step(o3, EventKind::TxnError, td >= 5, EventSeverity::Warning, "cluster"@, cid, txn_title(td), txn_summary(td), m4);
    let m5 = seq![("query_error_delta"@, MetricValue::Int(ed as i64))];
    let o5 = breach_step(o4, EventKind::MetricBreach, ed >= 5, EventSeverity::Warning, "cluster"@, cid, error_title(ed), error_summary(ed), m5);
    assert(threshold_outcome(cluster_id, shared_data, latest, prev) == o5);
    assert forall|k: EventKind| #![auto] !reports_kind(o0, k) by {}
    assert forall|k: EventKind| #![auto]
        reports_kind(o5, k) == (
            (k == EventKind::DiskPressure && !shared_data && disk >= 8000)
            || (k == EventKind::Compaction && score > 5000)
            || (k == EventKind::LoadBacklog && load >= 10)
            || (k == EventKind::TxnError && td >= 5)
            || (k == EventKind::MetricBreach && ed >= 5)
        ) by {
        if !shared_data {
            lemma_breach_reports(o0, k, EventKind::DiskPressure, disk >= 8000, sev1, "cluster"@, cid, disk_title(disk), disk_summary(disk), m1);
        }
        lemma_breach_reports(o1, k, EventKind::Compaction, score > 5000, sev2, "cluster"@, cid, compaction_title(score), compaction_summary(score), m2);
        lemma_breach_reports(o2, k, EventKind::LoadBacklog, load >= 10, EventSeverity::Warning, "cluster"@, cid, load_title(load), load_backlog_text(shared_data, load), m3);
        lemma_breach_reports(o3, k, EventKind::TxnError, td >= 5, EventSeverity::Warning, "cluster"@, cid, txn_title(td), txn_summary(td), m4);
        lemma_breach_reports(o4, k, EventKind::MetricBreach, ed >= 5, EventSeverity::Warning, "cluster"@, cid, error_title(ed), error_summary(ed), m5);
    }
}

/// Transaction failures are reported by their increase since the previous
/// snapshot: with a previous snapshot, the threshold checks report a
/// transaction-failure candidate exactly when the failed-transaction total
/// rose by at least 5, that candidate (the only one of its kind) carries
/// the increase in its title and its `delta` metric beside the latest
/// total, and a smaller increase marks the cluster's transaction-failure
/// fingerprint cleared.
pub proof fn law_txn_failures_by_increase(
    cluster_id: int,
    shared_data: bool,
    latest: MetricsSnapshot,
    p: MetricsSnapshot,
)
    ensures
        ({
            let o = threshold_outcome(cluster_id, shared_data, latest, Some(p));
            let d = latest.txn_failed_total - p.txn_failed_total;
            &&& (exists|a: int| 0 <= a < o.candidates.len() && (#[trigger] o.candidates[a]).kind == EventKind::TxnError)
                <==> d >= 5
            &&& forall|a: int|
                0 <= a < o.candidates.len() && (#[trigger] o.candidates[a]).kind == EventKind::TxnError ==> {
                    &&& o.candidates[a].title == "事务失败激增（+"@ + int_dec(d) + " 次）"@
                    &&& o.candidates[a].metrics == seq![
                        ("txn_failed_total"@, MetricValue::Int(latest.txn_failed_total)),
                        ("delta"@, MetricValue::Int(d as i64)),
                    ]
                    &&& o.candidates[a].fingerprint == "txn_error:cluster:"@ + int_dec(cluster_id)
                }
            &&& d < 5 ==> o.cleared.contains("txn_error:cluster:"@ + int_dec(cluster_id))
        }),
{
    let prev = Some(p);
    let d = latest.txn_failed_total - p.txn_failed_total;
    let cid = int_dec(cluster_id);
    let disk = latest.disk_usage_hundredths as int;
    let score = latest.max_compaction_hundredths as int;
    let load = latest.load_running as int;
    let td = txn_delta(latest, prev);
    let ed = error_delta(latest, prev);
    let o0 = OutcomeView { candidates: Seq::empty(), cleared: Seq::empty() };
    let e = Set::<EventKind>::empty();
    assert(kinds_split(o0, e, e));
    let (o1, r1, c1) = if shared_data {
        (o0, e, e)
    } else {
        let act = disk >= 8000;
        let sev = if disk >= 9000 {
            EventSeverity::Critical
        } else {
            EventSeverity::Warning
        };
        let m = seq![("disk_usage_pct"@, MetricValue::Hundredths(disk as i64))];
        lemma_breach_step_split(o0, e, e, EventKind::DiskPressure, act, sev, "cluster"@, cid, disk_title(disk), disk_summary(disk), m);
        (
            breach_step(o0, EventKind::DiskPressure, act, sev, "cluster"@, cid, disk_title(disk), disk_summary(disk), m),
            if act { e.insert(EventKind::DiskPressure) } else { e },
            if act { e } else { e.insert(EventKind::DiskPressure) },
        )
    };
    let act2 = score > 5000;
    let sev2 = if score > 10000 {
        EventSeverity::Critical
    } else {
        EventSeverity::Warning
    };
    let m2 = seq![("max_compaction_score"@, MetricValue::Hundredths(score as i64))];
    lemma_breach_step_split(o1, r1, c1, EventKind::Compaction, act2, sev2, "cluster"@, cid, compaction_title(score), compaction_summary(score), m2);
    let o2 = breach_step(o1, EventKind::Compaction, act2, sev2, "cluster"@, cid, compaction_title(score), compaction_summary(score), m2);
    let r2 = if act2 { r1.insert(EventKind::Compaction) } else { r1 };
    let c2 = if act2 { c1 } else { c1.insert(EventKind::Compaction) };
    let act3 = load >= 10;
    let m3 = seq![("load_running"@, MetricValue::Int(load as i64))];
    lemma_breach_step_split(o2, r2, c2, EventKind::LoadBacklog, act3, EventSeverity::Warning, "cluster"@, cid, load_title(load), load_backlog_text(shared_data, load), m3);
    let o3 = breach_step(o2, EventKind::LoadBacklog, act3, EventSeverity::Warning, "cluster"@, cid, load_title(load), load_backlog_text(shared_data, load), m3);
    let r3 = if act3 { r2.insert(EventKind::LoadBacklog) } else { r2 };
    assert(!r3.contains(EventKind::TxnError));
    let act4 = td >= 5;
    let m4 = seq![
        ("txn_failed_total"@, MetricValue::Int(latest.txn_failed_total)),
        ("delta"@, MetricValue::Int(td as i64)),
    ];
    let o4 = breach_step(o3, EventKind::TxnError, act4, EventSeverity::Warning, "cluster"@, cid, txn_title(td), txn_summary(td), m4);
    let act5 = ed >= 5;
    let m5 = seq![("query_error_delta"@, MetricValue::Int(ed as i64))];
    let o5 = breach_step(o4, EventKind::MetricBreach, act5, EventSeverity::Warning, "cluster"@, cid, error_title(ed), error_summary(ed), m5);
    assert(threshold_outcome(cluster_id, shared_data, latest, prev) == o5);
    reveal_strlit("txn_error");
    reveal_strlit(":");
    reveal_strlit("txn_error:cluster:");
    reveal_strlit("cluster");
    let f = "txn_error:cluster:"@ + cid;
    assert(fingerprint_of(EventKind::TxnError, "cluster"@, cid) =~= f);
    assert(td == d);
    let n3 = o3.candidates.len();
    assert forall|a: int|
        0 <= a < o5.candidates.len() && (#[trigger] o5.candidates[a]).kind == EventKind::TxnError implies a == n3
            && act4 by {
        if a < n3 {
            assert(o5.candidates[a] == o3.candidates[a]);
            assert(r3.contains(o3.candidates[a].kind));
        } else if act4 && a > n3 {
            assert(o5.candidates[a].kind == EventKind::MetricBreach);
        } else if !act4 {
            assert(o5.candidates[a].kind == EventKind::MetricBreach);
        }
    }
    if act4 {
        assert(o5.candidates[n3 as int] == o4.candidates[n3 as int]);
        assert(o5.candidates[n3 as int].kind == EventKind::TxnError);
    } else {
        assert(o4.cleared.last() == f);
        assert(o5.cleared[o4.cleared.len() - 1] == f);
    }
}

proof fn lemma_offline_kinds(shared_data: bool, nodes: Seq<BackendStatus>, alive: int, total: int)
    ensures
        forall|a: int|
            0 <= a < offline_candidates(shared_data, nodes, alive, total).len() ==> (#[trigger] offline_candidates(shared_data, nodes, alive, total)[a]).kind == EventKind::NodeDown
                && fp_of_kind(offline_candidates(shared_data, nodes, alive, total)[a].fingerprint, EventKind::NodeDown),
    decreases nodes.len(),
{
    if nodes.len() > 0 {
        lemma_offline_kinds(shared_data, nodes.drop_last(), alive, total);
        let ctx = node_context(shared_data);
        lemma_fingerprint_kind(EventKind::NodeDown, ctx.0, nodes.last().host@);
    }
}

/// A collection never reports a condition and clears it in the same tick:
/// no candidate's fingerprint is among the cleared fingerprints (a breach
/// that persists is reported, one that receded is cleared, never both).
pub proof fn law_reported_never_cleared(
    cluster_id: int,
    shared_data: bool,
    latest: MetricsSnapshot,
    prev: Option<MetricsSnapshot>,
    nodes: Option<Seq<BackendStatus>>,
    slow: Option<Seq<SlowQuerySample>>,
)
    ensures
        ({
            let o = collected(cluster_id, shared_data, latest, prev, nodes, slow);
            forall|a: int, b: int|
                0 <= a < o.candidates.len() && 0 <= b < o.cleared.len() ==> (#[trigger] o.candidates[a]).fingerprint
                    != #[trigger] o.cleared[b]
        }),
{
    let o = collected(cluster_id, shared_data, latest, prev, nodes, slow);
    let t = threshold_outcome(cluster_id, shared_data, latest, prev);
    lemma_threshold_split(cluster_id, shared_data, latest, prev);
    let (reported, receded) = choose|reported: Set<EventKind>, receded: Set<EventKind>|
        #[trigger] kinds_split(t, reported, receded) && reported.disjoint(receded)
            && !reported.contains(EventKind::NodeDown) && !receded.contains(EventKind::NodeDown)
            && !reported.contains(EventKind::SlowQuery) && !receded.contains(EventKind::SlowQuery);
    let alive = latest.backend_alive as int;
    let total = latest.backend_total as int;
    let nd = node_down_part(cluster_id, shared_data, alive, total, nodes);
    match nodes {
        Some(n) => lemma_offline_kinds(shared_data, n, alive, total),
        None => {},
    }
    lemma_fingerprint_kind(EventKind::NodeDown, "cluster"@, int_dec(cluster_id));
    assert forall|a: int, b: int|
        0 <= a < o.candidates.len() && 0 <= b < o.cleared.len() implies (#[trigger] o.candidates[a]).fingerprint
            != #[trigger] o.cleared[b] by {
        let c = o.candidates[a];
        let k = choose|k: EventKind| receded.contains(k) && #[trigger] fp_of_kind(o.cleared[b], k);
        assert(o.cleared[b] == t.cleared[b]);
        if a < t.candidates.len() {
            assert(c == t.candidates[a]);
            assert(reported.contains(c.kind));
            if c.fingerprint == o.cleared[b] {
                lemma_fp_kind_unique(c.fingerprint, c.kind, k);
            }
        } else if a < t.candidates.len() + nd.len() {
            assert(c == nd[a - t.candidates.len()]);
            assert(c.kind == EventKind::NodeDown && fp_of_kind(c.fingerprint, EventKind::NodeDown));
            if c.fingerprint == o.cleared[b] {
                lemma_fp_kind_unique(c.fingerprint, EventKind::NodeDown, k);
            }
        } else {
            let q = slow->0[a - t.candidates.len() - nd.len()];
            assert(c == slow_candidate(q));
            lemma_fingerprint_kind(EventKind::SlowQuery, "query"@, q.query_id@);
            if c.fingerprint == o.cleared[b] {
                lemma_fp_kind_unique(c.fingerprint, EventKind::SlowQuery, k);
            }
        }
    }
}

} // verus!
