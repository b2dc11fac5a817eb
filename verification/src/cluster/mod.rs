//! Cluster management rules: turning connection failures of a health check
//! into actionable user messages.

pub mod doris;
pub mod doris_admin;
pub mod doris_mv;
pub mod listing;
pub mod service;
pub mod starrocks;

use vstd::prelude::*;
use vstd::string::*;
use crate::text::{chars_of, contains, contains_str, find, find_exec, find_char, find_char_exec, nat_dec, string_of, to_lowercase, unicode_lower};

verus! {

/// The code between `ERROR ` and the next `:` of a raw error, if present.
pub open spec fn error_code(error: Seq<char>) -> Option<Seq<char>> {
    match find(error, "ERROR "@) {
        Some(start) => match find_char(error.skip(start), ':') {
            Some(end) => if end >= 6 {
                Some(error.subrange(start + 6, start + end))
            } else {
                None
            },
            None => None,
        },
        None => None,
    }
}

/// The user message for a failed cluster health check.
pub open spec fn health_error_message(error: Seq<char>) -> Seq<char> {
    let lower = unicode_lower(error);
    if contains(lower, "28000"@) || contains(lower, "access denied"@) {
        "认证失败: 请检查用户名和密码是否正确；普通用户需确认有 SHOW PROC 等基础权限"@
    } else if contains(lower, "connection refused"@) || contains(lower, "refused"@) || contains(
        lower,
        "cannot connect"@,
    ) {
        "无法连接: 请检查集群地址和端口是否正确；可用 telnet 验证 FE 查询端口连通性"@
    } else if contains(lower, "timeout"@) {
        "连接超时: 请检查安全组/防火墙是否放行，以及集群是否正常运行"@
    } else if contains(lower, "unknown host"@) || contains(lower, "resolve"@) {
        "解析失败: 无法解析集群地址；内网地址需确认平台与集群网络互通"@
    } else {
        match error_code(error) {
            Some(code) => "连接失败 ("@ + code + "): 请检查集群配置"@,
            None => "连接失败: 请检查集群配置"@,
        }
    }
}

/// Simplifies a raw health-check error into an actionable message:
/// authentication, refused connection, timeout, name resolution, or the
/// error code of an `ERROR <code>:` message.
pub fn simplify_health_check_error(error: &str) -> (r: String)
    ensures
        r@ == health_error_message(error@),
{
    let low = to_lowercase(error);
    let lower = chars_of(low.as_str());
    if contains_str(lower.as_slice(), "28000") || contains_str(lower.as_slice(), "access denied") {
        return String::from_str(
            "认证失败: 请检查用户名和密码是否正确；普通用户需确认有 SHOW PROC 等基础权限",
        );
    }
    if contains_str(lower.as_slice(), "connection refused") || contains_str(
        lower.as_slice(),
        "refused",
    ) || contains_str(lower.as_slice(), "cannot connect") {
        return String::from_str(
            "无法连接: 请检查集群地址和端口是否正确；可用 telnet 验证 FE 查询端口连通性",
        );
    }
    if contains_str(lower.as_slice(), "timeout") {
        return String::from_str("连接超时: 请检查安全组/防火墙是否放行，以及集群是否正常运行");
    }
    if contains_str(lower.as_slice(), "unknown host") || contains_str(lower.as_slice(), "resolve") {
        return String::from_str("解析失败: 无法解析集群地址；内网地址需确认平台与集群网络互通");
    }
    let e = chars_of(error);
    let marker = chars_of("ERROR ");
    match find_exec(e.as_slice(), marker.as_slice()) {
        Some(start) => {
            proof {
                crate::text::lemma_find_some(e@, "ERROR "@);
                reveal_strlit("ERROR ");
            }
            let rest = vstd::slice::slice_subrange(e.as_slice(), start, e.len());
            assert(rest@ =~= e@.skip(start as int));
            match find_char_exec(rest, ':') {
                Some(end) => {
                    proof {
                        assert(rest@.contains(':'));
                        crate::text::lemma_find_char_some(rest@, ':');
                    }
                    if end >= 6 {
                        let code = vstd::slice::slice_subrange(e.as_slice(), start + 6, start + end);
                        let mut r = String::from_str("连接失败 (");
                        let cs = string_of(code);
                        r.append(cs.as_str());
                        r.append("): 请检查集群配置");
                        r
                    } else {
                        String::from_str("连接失败: 请检查集群配置")
                    }
                },
                None => String::from_str("连接失败: 请检查集群配置"),
            }
        },
        None => String::from_str("连接失败: 请检查集群配置"),
    }
}


// ---------------------------------------------------------------------------
// Cluster health
// ---------------------------------------------------------------------------

/// Overall health of a cluster, ordered from best to worst.
#[derive(Debug, Clone, Copy, PartialEq, Eq, Structural)]
pub enum HealthStatus {
    Healthy,
    Warning,
    Critical,
}

/// One named check of a health report.
#[derive(Debug, Clone)]
pub struct HealthCheck {
    pub name: String,
    /// `ok`, `warning` or `critical`.
    pub status: String,
    pub message: String,
}

/// A health report: the overall status and the checks made.
#[derive(Debug, Clone)]
pub struct ClusterHealth {
    pub status: HealthStatus,
    pub checks: Vec<HealthCheck>,
}

/// Severity rank of a status.
pub open spec fn rank(s: HealthStatus) -> int {
    match s {
        HealthStatus::Healthy => 0,
        HealthStatus::Warning => 1,
        HealthStatus::Critical => 2,
    }
}

/// The status a check's level stands for (`ok` for anything else).
pub open spec fn level_status(level: Seq<char>) -> HealthStatus {
    if level == "critical"@ {
        HealthStatus::Critical
    } else if level == "warning"@ {
        HealthStatus::Warning
    } else {
        HealthStatus::Healthy
    }
}

/// The worse of two statuses.
pub open spec fn worse(a: HealthStatus, b: HealthStatus) -> HealthStatus {
    if rank(a) >= rank(b) {
        a
    } else {
        b
    }
}

/// The worst level among checks (healthy without checks).
pub open spec fn worst_of(levels: Seq<Seq<char>>) -> HealthStatus
    decreases levels.len(),
{
    if levels.len() == 0 {
        HealthStatus::Healthy
    } else {
        worse(worst_of(levels.drop_last()), level_status(levels.last()))
    }
}

/// Model of a check: (name, level, message).
pub open spec fn check_view(c: HealthCheck) -> (Seq<char>, Seq<char>, Seq<char>) {
    (c.name@, c.status@, c.message@)
}

/// The levels of checks.
pub open spec fn check_levels(cs: Seq<HealthCheck>) -> Seq<Seq<char>> {
    cs.map_values(|c: HealthCheck| c.status@)
}

/// Number of `true` liveness flags.
pub open spec fn alive_count(flags: Seq<Seq<char>>) -> nat
    decreases flags.len(),
{
    if flags.len() == 0 {
        0
    } else {
        alive_count(flags.drop_last()) + if flags.last() == "true"@ {
            1nat
        } else {
            0nat
        }
    }
}

proof fn lemma_alive_count_bound(flags: Seq<Seq<char>>)
    ensures
        alive_count(flags) <= flags.len(),
    decreases flags.len(),
{
    if flags.len() > 0 {
        lemma_alive_count_bound(flags.drop_last());
    }
}

fn count_alive(flags: &[String]) -> (r: usize)
    ensures
        r == alive_count(crate::text::texts(flags@)),
        r <= flags.len(),
{
    let ghost fv = crate::text::texts(flags@);
    let mut n: usize = 0;
    let mut i: usize = 0;
    while i < flags.len()
        invariant
            i <= flags.len(),
            fv == crate::text::texts(flags@),
            n == alive_count(fv.take(i as int)),
            n <= i,
        decreases flags.len() - i,
    {
        assert(fv.take(i + 1).drop_last() =~= fv.take(i as int));
        assert(fv.take(i + 1).last() == flags@[i as int]@);
        if crate::text::str_eq(flags[i].as_str(), "true") {
            n += 1;
        }
        i += 1;
    }
    assert(fv.take(flags.len() as int) =~= fv);
    n
}

/// The check of a set of nodes from their liveness flags: none found is
/// `empty_level`; all alive is ok; some alive a warning; none alive
/// critical. `kind` names the nodes in messages.
pub open spec fn nodes_check(name: Seq<char>, kind: Seq<char>, flags: Seq<Seq<char>>, empty_level: Seq<char>) -> (Seq<char>, Seq<char>, Seq<char>) {
    let alive = alive_count(flags);
    let total = flags.len();
    if total == 0 {
        (name, empty_level, "No "@ + kind + " nodes found"@)
    } else if alive == total {
        (name, "ok"@, "All "@ + nat_dec(total) + " "@ + kind + " nodes are online"@)
    } else if alive > 0 {
        (name, "warning"@, nat_dec(alive) + "/"@ + nat_dec(total) + " "@ + kind
            + " nodes are online"@)
    } else {
        (name, "critical"@, "No "@ + kind + " nodes are online"@)
    }
}

fn dec_string(n: usize) -> (r: String)
    ensures
        r@ == nat_dec(n as nat),
{
    let d = crate::text::u64_dec(n as u64);
    string_of(d.as_slice())
}

fn make_check(name: &str, status: &str, message: String) -> (r: HealthCheck)
    ensures
        check_view(r) == (name@, status@, message@),
{
    HealthCheck { name: String::from_str(name), status: String::from_str(status), message }
}

/// The check of a set of nodes from their liveness flags (`true` when
/// alive).
pub fn check_nodes(name: &str, kind: &str, alive_flags: &[String], empty_level: &str) -> (r: HealthCheck)
    ensures
        check_view(r) == nodes_check(name@, kind@, crate::text::texts(alive_flags@), empty_level@),
{
    let alive = count_alive(alive_flags);
    let total = alive_flags.len();
    if total == 0 {
        let mut m = String::from_str("No ");
        m.append(kind);
        m.append(" nodes found");
        make_check(name, empty_level, m)
    } else if alive == total {
        let mut m = String::from_str("All ");
        let t = dec_string(total);
        m.append(t.as_str());
        m.append(" ");
        m.append(kind);
        m.append(" nodes are online");
        make_check(name, "ok", m)
    } else if alive > 0 {
        let mut m = dec_string(alive);
        m.append("/");
        let t = dec_string(total);
        m.append(t.as_str());
        m.append(" ");
        m.append(kind);
        m.append(" nodes are online");
        make_check(name, "warning", m)
    } else {
        let mut m = String::from_str("No ");
        m.append(kind);
        m.append(" nodes are online");
        make_check(name, "critical", m)
    }
}

/// The compute-node kind of a cluster: `CN` in shared-data mode, else `BE`.
pub open spec fn compute_kind(shared_data: bool) -> Seq<char> {
    if shared_data {
        "CN"@
    } else {
        "BE"@
    }
}

/// The checks of the node-based health report: frontends (their liveness
/// flags, or the failure text), then compute nodes (likewise).
pub open spec fn node_health_checks(shared_data: bool, frontends: Result<Seq<Seq<char>>, Seq<char>>, backends: Result<Seq<Seq<char>>, Seq<char>>) -> Seq<(Seq<char>, Seq<char>, Seq<char>)> {
    let kind = compute_kind(shared_data);
    seq![
        match frontends {
            Ok(f) => nodes_check("Frontend Nodes"@, "FE"@, f, "critical"@),
            Err(e) => ("Frontend Nodes"@, "critical"@, "Failed to check FE nodes: "@ + e),
        },
        match backends {
            Ok(b) => nodes_check("Compute Nodes"@, kind, b, "critical"@),
            Err(e) => ("Compute Nodes"@, "warning"@, "Failed to check "@ + kind + " nodes: "@ + e),
        },
    ]
}

/// The texts of a result of liveness flags.
pub open spec fn flags_result(r: Result<Vec<String>, String>) -> Result<Seq<Seq<char>>, Seq<char>> {
    match r {
        Ok(v) => Ok(crate::text::texts(v@)),
        Err(e) => Err(e@),
    }
}

/// The models of checks.
pub open spec fn checks_view(cs: Seq<HealthCheck>) -> Seq<(Seq<char>, Seq<char>, Seq<char>)> {
    cs.map_values(|c: HealthCheck| check_view(c))
}

fn checks_status(checks: &Vec<HealthCheck>) -> (r: HealthStatus)
    ensures
        r == worst_of(check_levels(checks@)),
{
    let ghost lv = check_levels(checks@);
    let mut st = HealthStatus::Healthy;
    let mut i: usize = 0;
    while i < checks.len()
        invariant
            i <= checks.len(),
            lv == check_levels(checks@),
            st == worst_of(lv.take(i as int)),
        decreases checks.len() - i,
    {
        assert(lv.take(i + 1).drop_last() =~= lv.take(i as int));
        assert(lv.take(i + 1).last() == checks@[i as int].status@);
        let s = checks[i].status.as_str();
        let level = if crate::text::str_eq(s, "critical") {
            HealthStatus::Critical
        } else if crate::text::str_eq(s, "warning") {
            HealthStatus::Warning
        } else {
            HealthStatus::Healthy
        };
        let better = match (st, level) {
            (HealthStatus::Critical, _) => false,
            (HealthStatus::Warning, HealthStatus::Critical) => true,
            (HealthStatus::Warning, _) => false,
            (HealthStatus::Healthy, HealthStatus::Healthy) => false,
            (HealthStatus::Healthy, _) => true,
        };
        if better {
            st = level;
        }
        i += 1;
    }
    assert(lv.take(checks.len() as int) =~= lv);
    st
}

/// The node-based health report of a cluster from what reading its
/// frontends and its compute nodes gave (liveness flags, or the failure
/// text); the overall status is the worst level among the checks.
pub fn node_health(
    shared_data: bool,
    frontends: Result<Vec<String>, String>,
    backends: Result<Vec<String>, String>,
) -> (r: ClusterHealth)
    ensures
        checks_view(r.checks@) == node_health_checks(
            shared_data,
            flags_result(frontends),
            flags_result(backends),
        ),
        r.status == worst_of(check_levels(r.checks@)),
{
    let kind = if shared_data {
        "CN"
    } else {
        "BE"
    };
    let fe = match &frontends {
        Ok(f) => check_nodes("Frontend Nodes", "FE", f.as_slice(), "critical"),
        Err(e) => {
            let mut m = String::from_str("Failed to check FE nodes: ");
            m.append(e.as_str());
            make_check("Frontend Nodes", "critical", m)
        },
    };
    let be = match &backends {
        Ok(b) => check_nodes("Compute Nodes", kind, b.as_slice(), "critical"),
        Err(e) => {
            let mut m = String::from_str("Failed to check ");
            m.append(kind);
            m.append(" nodes: ");
            m.append(e.as_str());
            make_check("Compute Nodes", "warning", m)
        },
    };
    let mut checks: Vec<HealthCheck> = Vec::new();
    checks.push(fe);
    checks.push(be);
    assert(checks_view(checks@) =~= node_health_checks(
        shared_data,
        flags_result(frontends),
        flags_result(backends),
    ));
    let status = checks_status(&checks);
    ClusterHealth { status, checks }
}

/// The checks of the connection-based health report: the pool, then a
/// trivial query, then the frontend HTTP endpoint and the compute nodes;
/// failure texts are simplified for users.
pub open spec fn connection_health_checks(
    shared_data: bool,
    pool: Result<(), Seq<char>>,
    ping: Result<(), Seq<char>>,
    runtime: Result<(), Seq<char>>,
    backends: Result<Seq<Seq<char>>, Seq<char>>,
) -> Seq<(Seq<char>, Seq<char>, Seq<char>)> {
    let kind = compute_kind(shared_data);
    match pool {
        Err(e) => seq![("Connection Pool"@, "critical"@, health_error_message(e))],
        Ok(_) => match ping {
            Err(e) => seq![("Database Connection"@, "critical"@, health_error_message(e))],
            Ok(_) => seq![
                ("Database Connection"@, "ok"@, "Connection successful"@),
                match runtime {
                    Ok(_) => ("FE Availability"@, "ok"@, "FE is reachable and responding"@),
                    Err(e) => ("FE Availability"@, "warning"@, "FE HTTP check failed: "@ + e),
                },
                match backends {
                    Ok(b) => nodes_check("Compute Nodes"@, kind, b, "warning"@),
                    Err(e) => (
                        "Compute Nodes"@,
                        "warning"@,
                        "Failed to check "@ + kind + " nodes: "@ + health_error_message(e),
                    ),
                },
            ],
        },
    }
}

/// The text of a unit result's failure.
pub open spec fn unit_result(r: Result<(), String>) -> Result<(), Seq<char>> {
    match r {
        Ok(_) => Ok(()),
        Err(e) => Err(e@),
    }
}

/// The connection-based health report of a cluster from the outcomes of
/// getting a connection pool, running `SELECT 1`, reaching the frontend's
/// HTTP endpoint and reading the compute nodes (later outcomes are read only
/// when the earlier steps succeeded); the overall status is the worst level
/// among the checks.
pub fn connection_health(
    shared_data: bool,
    pool: Result<(), String>,
    ping: Result<(), String>,
    runtime: Result<(), String>,
    backends: Result<Vec<String>, String>,
) -> (r: ClusterHealth)
    ensures
        checks_view(r.checks@) == connection_health_checks(
            shared_data,
            unit_result(pool),
            unit_result(ping),
            unit_result(runtime),
            flags_result(backends),
        ),
        r.status == worst_of(check_levels(r.checks@)),
{
    let mut checks: Vec<HealthCheck> = Vec::new();
    match &pool {
        Err(e) => {
            checks.push(make_check("Connection Pool", "critical", simplify_health_check_error(e.as_str())));
        },
        Ok(_) => match &ping {
            Err(e) => {
                checks.push(make_check("Database Connection", "critical", simplify_health_check_error(e.as_str())));
            },
            Ok(_) => {
                checks.push(make_check("Database Connection", "ok", String::from_str("Connection successful")));
                match &runtime {
                    Ok(_) => {
                        checks.push(make_check("FE Availability", "ok", String::from_str("FE is reachable and responding")));
                    },
                    Err(e) => {
                        let mut m = String::from_str("FE HTTP check failed: ");
                        m.append(e.as_str());
                        checks.push(make_check("FE Availability", "warning", m));
                    },
                }
                let kind = if shared_data {
                    "CN"
                } else {
                    "BE"
                };
                match &backends {
                    Ok(b) => {
                        checks.push(check_nodes("Compute Nodes", kind, b.as_slice(), "warning"));
                    },
                    Err(e) => {
                        let mut m = String::from_str("Failed to check ");
                        m.append(kind);
                        m.append(" nodes: ");
                        let s = simplify_health_check_error(e.as_str());
                        m.append(s.as_str());
                        checks.push(make_check("Compute Nodes", "warning", m));
                    },
                }
            },
        },
    }
    assert(checks_view(checks@) =~= connection_health_checks(
        shared_data,
        unit_result(pool),
        unit_result(ping),
        unit_result(runtime),
        flags_result(backends),
    ));
    let status = checks_status(&checks);
    ClusterHealth { status, checks }
}

/// The overall status of a report is never better than any of its checks'
/// levels, and equals one of them (healthy for a report without checks).
pub proof fn law_health_status_is_worst_check(levels: Seq<Seq<char>>)
    ensures
        forall|i: int| 0 <= i < levels.len() ==> rank(level_status(#[trigger] levels[i])) <= rank(
            worst_of(levels),
        ),
        levels.len() == 0 ==> worst_of(levels) == HealthStatus::Healthy,
        levels.len() > 0 ==> exists|i: int| 0 <= i < levels.len() && worst_of(levels) == level_status(#[trigger] levels[i]),
    decreases levels.len(),
{
    if levels.len() > 0 {
        let prev = levels.drop_last();
        law_health_status_is_worst_check(prev);
        assert forall|i: int| 0 <= i < levels.len() implies rank(level_status(#[trigger] levels[i])) <= rank(
            worst_of(levels),
        ) by {
            if i < levels.len() - 1 {
                assert(levels[i] == prev[i]);
            }
        }
        if rank(worst_of(prev)) >= rank(level_status(levels.last())) && prev.len() > 0 {
            let j = choose|j: int| 0 <= j < prev.len() && worst_of(prev) == level_status(#[trigger] prev[j]);
            assert(levels[j] == prev[j]);
        } else {
            assert(worst_of(levels) == level_status(levels[levels.len() - 1]) || worst_of(levels) == HealthStatus::Healthy);
            if worst_of(levels) != level_status(levels[levels.len() - 1]) {
                assert(prev.len() == 0);
                assert(worst_of(levels) == level_status(levels[levels.len() - 1]));
            }
        }
    }
}


/// A cluster whose connection pool is obtained but whose test query fails
/// is critical: the report holds a critical "Database Connection" check and
/// its overall status is critical. A cluster without a pool is critical too.
/// When the test query succeeds, the connection check is "ok" and the
/// report is critical only through a later check.
pub proof fn law_failed_connection_is_critical(
    shared_data: bool,
    pool: Result<(), Seq<char>>,
    ping: Result<(), Seq<char>>,
    runtime: Result<(), Seq<char>>,
    backends: Result<Seq<Seq<char>>, Seq<char>>,
)
    ensures
        ({
            let checks = connection_health_checks(shared_data, pool, ping, runtime, backends);
            let levels = checks.map_values(|c: (Seq<char>, Seq<char>, Seq<char>)| c.1);
            &&& (pool is Err || ping is Err) ==> worst_of(levels) == HealthStatus::Critical
            &&& pool is Ok && ping is Err ==> exists|i: int|
                0 <= i < checks.len() && (#[trigger] checks[i]).0 == "Database Connection"@ && checks[i].1
                    == "critical"@
            &&& pool is Ok && ping is Ok ==> checks[0].0 == "Database Connection"@ && checks[0].1 == "ok"@
        }),
{
    let checks = connection_health_checks(shared_data, pool, ping, runtime, backends);
    let levels = checks.map_values(|c: (Seq<char>, Seq<char>, Seq<char>)| c.1);
    if pool is Err || ping is Err {
        assert(levels.len() == 1);
        assert(levels[0] == "critical"@);
        assert(levels.drop_last() =~= Seq::<Seq<char>>::empty());
        assert(level_status(levels.last()) == HealthStatus::Critical);
        if pool is Ok {
            assert(checks[0].0 == "Database Connection"@);
        }
    }
}

/// A reachable cluster is rated by its frontend and compute nodes: with the
/// pool and the test query fine and every compute node alive, the report is
/// healthy when the frontend answers and a warning when it does not; with
/// some but not all nodes alive it is a warning, and with none alive it is
/// critical.
pub proof fn law_reachable_cluster_status(
    shared_data: bool,
    runtime: Result<(), Seq<char>>,
    flags: Seq<Seq<char>>,
)
    requires
        flags.len() > 0,
    ensures
        ({
            let checks = connection_health_checks(shared_data, Ok(()), Ok(()), runtime, Ok(flags));
            let status = worst_of(checks.map_values(|c: (Seq<char>, Seq<char>, Seq<char>)| c.1));
            &&& alive_count(flags) == flags.len() && runtime is Ok ==> status == HealthStatus::Healthy
            &&& alive_count(flags) == flags.len() && runtime is Err ==> status == HealthStatus::Warning
            &&& 0 < alive_count(flags) < flags.len() ==> status == HealthStatus::Warning
            &&& alive_count(flags) == 0 ==> status == HealthStatus::Critical
        }),
{
    let checks = connection_health_checks(shared_data, Ok(()), Ok(()), runtime, Ok(flags));
    let levels = checks.map_values(|c: (Seq<char>, Seq<char>, Seq<char>)| c.1);
    lemma_alive_count_bound(flags);
    assert(levels.len() == 3);
    assert(levels[0] == "ok"@);
    assert(levels.drop_last().drop_last() =~= seq![levels[0]]);
    assert(levels.drop_last().drop_last().drop_last() =~= Seq::<Seq<char>>::empty());
    assert(levels.drop_last().last() == levels[1]);
    assert(levels.last() == levels[2]);
    reveal_strlit("ok");
    reveal_strlit("warning");
    reveal_strlit("critical");
    assert("ok"@.len() == 2 && "warning"@.len() == 7 && "critical"@.len() == 8);
    assert(level_status("ok"@) == HealthStatus::Healthy);
    assert(level_status("warning"@) == HealthStatus::Warning);
    assert(level_status("critical"@) == HealthStatus::Critical);
    reveal_with_fuel(worst_of, 4);
}
} // verus!
